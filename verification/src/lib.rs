//! A staged DSL for point-and-stencil image pipelines.
//!
//! A user builds arithmetic expressions over 2-D integer coordinates
//! ([`expression::Expression`]), names them as per-pixel functions with a
//! fixed number of producer inputs ([`function::Function`]), and composes
//! those functions into a directed acyclic graph rooted at image sources
//! ([`chain::ChainLink`]). Compiling a chain yields a
//! [`chain::CompiledChain`] that maps 8-bit single-channel input images to
//! an output image of the same dimensions: every output pixel is the value
//! of the root expression at that coordinate, saturated into `0..=255`.

pub mod chain;
pub mod expression;
pub mod function;
pub mod img;
pub mod inputbuilder;
pub mod laws;
pub mod lower;
pub mod runtime;
