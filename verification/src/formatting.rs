//! How values are shown to developers.

use vstd::prelude::*;

verus! {

/// The sink of `core::fmt`.
#[verifier::external_type_specification]
#[verifier::external_body]
pub struct ExFormatter<'a>(core::fmt::Formatter<'a>);

/// The error of `core::fmt`.
#[verifier::external_type_specification]
#[verifier::external_body]
pub struct ExFormatError(core::fmt::Error);

/// Calls `core::fmt::Formatter::write_str`, which hands a text to the sink as it stands.
///
/// Nothing is claimed of the result: the sink decides whether it takes the text.
#[verifier::external_body]
pub(crate) fn write_name(f: &mut core::fmt::Formatter<'_>, name: &str) -> (r: core::fmt::Result)
{
    f.write_str(name)
}

/// Calls `core::fmt::Formatter::debug_struct`, which shows the name of a type with fields: here
/// `name` and `initialized`, with their values.
///
/// Nothing is claimed of the result: the sink decides whether it takes the text.
#[verifier::external_body]
pub(crate) fn show_lazy(
    f: &mut core::fmt::Formatter<'_>,
    kind: &str,
    name: &str,
    initialized: bool,
) -> (r: core::fmt::Result)
{
    f.debug_struct(kind).field("name", &name).field("initialized", &initialized).finish()
}

/// Calls `core::fmt::Formatter::debug_map`, which shows keys with their values, in the order in
/// which they are given.
///
/// Nothing is claimed of the result: the sink decides whether it takes the text.
#[verifier::external_body]
pub(crate) fn show_pairs<V: core::fmt::Debug>(
    f: &mut core::fmt::Formatter<'_>,
    pairs: &Vec<(String, V)>,
) -> (r: core::fmt::Result)
{
    f.debug_map().entries(pairs.iter().map(|pair| (&pair.0, &pair.1))).finish()
}

} // verus!
