//! An object model for Devicetree Source (DTS) documents.
//!
//! A caller builds [`attribute::Attribute`] values, attaches them to
//! [`node::Node`] instances, nests nodes under each other, and wraps the
//! root in a [`tree::Tree`], whose `to_dts` method emits the full DTS
//! document text. Every rendering function is specified exactly: the text
//! it returns is pinned down, character for character, by spec functions
//! over the tree value.

pub mod attribute;
pub mod dts;
pub mod node;
pub mod tree;
