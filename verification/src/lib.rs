//! A renderer for parsed templates: a tree of text, expression and control-flow
//! nodes is evaluated against a read-only context into output text.
//!
//! A [`template::Template`] is rendered by a [`renderer::Renderer`], which reads
//! a [`catalog::Catalog`] of templates and callables and a
//! [`context::Context`] of values. What rendering means is defined in
//! [`renderer::semantics`] over the models of these types; the evaluator in
//! [`renderer::processor`] is proved to compute it, and [`renderer::laws`]
//! states what follows for the scoping of names, macros and loops.

pub mod catalog;
pub mod context;
pub mod errors;
pub mod registry;
pub mod renderer;
pub mod table;
pub mod template;
pub mod utils;
pub mod value;
