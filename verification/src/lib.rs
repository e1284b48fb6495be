//! The type-conversion core of a generator of foreign-function bindings.
//!
//! A type map declares conversions between types: fixed ones between two
//! concrete types, and generic rules whose source and destination are
//! patterns over type parameters. This crate decides whether a rule applies
//! to a type, which destination type and unique name result, and builds the
//! registry of conversions from the declarations of a type map.
//!
//! - [`type_expr`]: type expressions and their mathematical models.
//! - [`syntax`]: reading type expressions from source text.
//! - [`normalize`], [`cache`]: canonical names of types.
//! - [`subst_map`], [`unify`], [`substitute`]: matching patterns and
//!   instantiating them.
//! - [`trait_bounds`], [`rust_type`], [`rule`], [`queries`]: capability
//!   bounds, registered types, conversion rules and their applicability test.
//! - [`source`], [`decl`], [`attrs`], [`registry`], [`parse`]: declarations,
//!   diagnostics and the registry builder.
//! - [`foreign`]: classes, enums and interfaces of the foreign side.
//! - [`names`], [`name_map`], [`text`]: names, small maps and text.
//! - [`laws`], [`soundness`]: what holds of all of it.

pub mod attrs;
pub mod cache;
pub mod decl;
pub mod foreign;
pub mod laws;
pub mod name_map;
pub mod names;
pub mod normalize;
pub mod parse;
pub mod queries;
pub mod registry;
pub mod rule;
pub mod rust_type;
pub mod soundness;
pub mod source;
pub mod subst_map;
pub mod substitute;
pub mod syntax;
pub mod text;
pub mod trait_bounds;
pub mod type_expr;
pub mod unify;
