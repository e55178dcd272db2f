//! A marker for the Devicetree Source text format produced by this crate.

use vstd::prelude::*;

verus! {

/// The Devicetree Source document format: tab indentation, hexadecimal
/// cell values, and a `/dts-v1/;` version directive at the top of every
/// document. The format has no state of its own; rendering lives on
/// [`crate::node::Node`] and [`crate::tree::Tree`].
pub struct Dts {}

} // verus!
