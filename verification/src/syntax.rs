//! The pieces of Rust syntax that a declaration embeds: annotations,
//! visibility qualifiers, identifiers and types. Whether a text is one of
//! them is asked of `syn`.

use vstd::prelude::*;

verus! {

/// Calls `syn::parse_str::<syn::Type>` on `text`.
///
/// Nothing is claimed of the answer: it is whatever `syn` says in this
/// process at this moment.
#[verifier::external_body]
pub(crate) fn accepts_type(text: &str) -> (b: bool)
{
    syn::parse_str::<syn::Type>(text).is_ok()
}

/// Calls `syn::parse_str::<syn::Visibility>` on `text`.
///
/// Nothing is claimed of the answer: it is whatever `syn` says in this
/// process at this moment.
#[verifier::external_body]
pub(crate) fn accepts_visibility(text: &str) -> (b: bool)
{
    syn::parse_str::<syn::Visibility>(text).is_ok()
}

/// Calls `syn::parse_str::<syn::Ident>` on `text`.
///
/// Nothing is claimed of the answer: it is whatever `syn` says in this
/// process at this moment.
#[verifier::external_body]
pub(crate) fn accepts_ident(text: &str) -> (b: bool)
{
    syn::parse_str::<syn::Ident>(text).is_ok()
}

/// Calls `syn::Attribute::parse_outer`, through `syn::parse::Parser::parse_str`,
/// on `text`.
///
/// Nothing is claimed of the answer: it is whatever `syn` says in this
/// process at this moment.
#[verifier::external_body]
pub(crate) fn accepts_attributes(text: &str) -> (b: bool)
{
    syn::parse::Parser::parse_str(syn::Attribute::parse_outer, text).is_ok()
}

} // verus!
