//! The description of a union: what a declaration is read into.

use vstd::prelude::*;
use crate::token::{Token, TokenKind, TokenView, Tokens, copy_whole, push_token};

verus! {

/// One case of the union.
#[derive(Clone, Debug, PartialEq, Eq)]
pub struct VariantSpec {
    /// The annotations of this case, each with all its tokens, in order.
    pub attributes: Vec<Vec<Token>>,
    /// The name of the case.
    pub name: String,
    /// The payload type, where one is written out.
    pub payload_type: Option<Vec<Token>>,
}

/// The mathematical value of a [`VariantSpec`].
pub struct VariantModel {
    pub attributes: Seq<Tokens>,
    pub name: Seq<char>,
    pub payload_type: Option<Tokens>,
}

/// The description of a whole union.
#[derive(Clone, Debug, PartialEq, Eq)]
pub struct UnionSpec {
    /// The annotations of the union type, each with all its tokens, in order.
    pub attributes: Vec<Vec<Token>>,
    /// The visibility qualifier; empty where none is written.
    pub visibility: Vec<Token>,
    /// The name of the union type.
    pub name: String,
    /// The cases, in declaration order.
    pub variants: Vec<VariantSpec>,
}

/// The mathematical value of a [`UnionSpec`].
pub struct UnionModel {
    pub attributes: Seq<Tokens>,
    pub visibility: Tokens,
    pub name: Seq<char>,
    pub variants: Seq<VariantModel>,
}

impl VariantModel {
    /// The payload type of the case: the one written out, else the type that
    /// has the name of the case.
    pub open spec fn resolved_type(self) -> Tokens {
        match self.payload_type {
            Some(t) => t,
            None => seq![TokenView { kind: TokenKind::Ident, text: self.name }],
        }
    }
}

impl View for VariantSpec {
    type V = VariantModel;

    open spec fn view(&self) -> VariantModel {
        VariantModel {
            attributes: self.attributes.deep_view(),
            name: self.name@,
            payload_type: self.payload_type.deep_view(),
        }
    }
}

impl DeepView for VariantSpec {
    type V = VariantModel;

    open spec fn deep_view(&self) -> VariantModel {
        self@
    }
}

impl View for UnionSpec {
    type V = UnionModel;

    open spec fn view(&self) -> UnionModel {
        UnionModel {
            attributes: self.attributes.deep_view(),
            visibility: self.visibility.deep_view(),
            name: self.name@,
            variants: self.variants.deep_view(),
        }
    }
}

/// Copies a list of token sequences.
pub fn copy_groups(groups: &Vec<Vec<Token>>) -> (out: Vec<Vec<Token>>)
    ensures
        out.deep_view() == groups.deep_view(),
{
    let mut out: Vec<Vec<Token>> = Vec::new();
    let mut i: usize = 0;
    while i < groups.len()
        invariant
            i <= groups.len(),
            out.len() == i,
            forall|k: int| 0 <= k < i ==> #[trigger] out[k].deep_view() == groups[k].deep_view(),
        decreases groups.len() - i,
    {
        out.push(copy_whole(&groups[i]));
        i += 1;
    }
    assert(out.deep_view() =~= groups.deep_view());
    out
}

impl VariantSpec {
    /// The payload type of the case: the one written out, else the type that
    /// has the name of the case.
    pub fn resolved_type(&self) -> (out: Vec<Token>)
        ensures
            out.deep_view() == self@.resolved_type(),
    {
        match &self.payload_type {
            Some(t) => copy_whole(t),
            None => {
                let mut out: Vec<Token> = Vec::new();
                push_token(&mut out, Token::ident(self.name.as_str()));
                assert(out.deep_view() =~= self@.resolved_type());
                out
            },
        }
    }
}

} // verus!
