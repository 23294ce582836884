//! Lower snake case tokens derived from variant names.

use vstd::prelude::*;

verus! {

/// The lower snake case form that `heck` gives an identifier, as a function of
/// its characters.
pub uninterp spec fn snake_case_of(name: Seq<char>) -> Seq<char>;

/// Calls `heck::SnakeCase::to_snake_case` on `name`.
///
/// Trusted: the result is the snake case form of `name`, which depends on the
/// characters of `name` alone. Nothing else is claimed of it.
#[verifier::external_body]
pub(crate) fn to_snake_case(name: &str) -> (out: String)
    ensures
        out@ == snake_case_of(name@),
{
    heck::SnakeCase::to_snake_case(name)
}

} // verus!
