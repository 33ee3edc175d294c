//! Rewrites a low-level description of a native interface into the shape that a
//! safe bridge layer expects.
//!
//! The crate has four parts, leaves first: a registry of well-known native
//! types ([`known_types`]), a checker that decides which aggregates may cross
//! the bridge by value ([`byvalue_checker`]), the rewriter itself
//! ([`bridge_converter`]), and the dependency query over analysed API items
//! ([`deps`]).
//!
//! The declarations that the rewriter works on are plain values ([`syntax`]).
//! Every executable function states its result over their mathematical
//! models ([`syntax_model`]), which are reached from the executable values
//! by their views. What the rewriter produces is defined over the models in
//! [`type_conversion`] and [`conversion_spec`]; what holds of every
//! conversion is proved in [`type_conversion`] and [`conversion_laws`].
pub mod text;
pub mod names;
pub mod syntax_model;
pub mod syntax;
pub mod known_types;
pub mod type_conversion;
pub mod deps;
pub mod byvalue_checker;
pub mod conversion_spec;
pub mod bridge_converter;
pub mod conversion_laws;
