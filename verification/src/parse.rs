//! Reading a declaration from tokens.
//!
//! ```text
//! Declaration := Attribute* Visibility? "enum" Identifier "{" VariantList "}"
//! VariantList := (Variant ("," Variant)* ","?)?
//! Variant     := Attribute* Identifier ("=" Type)?
//! ```
//!
//! Reading stops at the first token that does not fit and reports where it
//! stands.

use vstd::prelude::*;
use crate::model::{UnionModel, UnionSpec, VariantModel, VariantSpec};
use crate::syntax::{
    accepts_attributes, accepts_ident, accepts_type, accepts_visibility,
};
use crate::token::{
    Token, TokenKind, TokenView, Tokens, close_brace, copy_range, flatten, joint, open_brace,
    is_one_word, one_word, sign, word, write_source,
};

verus! {

/// What was expected where reading stopped.
#[derive(Clone, Copy, Debug, PartialEq, Eq, Structural)]
pub enum SyntaxErrorKind {
    /// A `#` that does not begin a well-formed annotation.
    MalformedAttribute,
    /// The keyword `enum` is missing.
    ExpectedEnum,
    /// An identifier that is no keyword is missing.
    ExpectedIdentifier,
    /// The opening brace of the variant list is missing.
    ExpectedBrace,
    /// The variant list is not closed by a brace.
    UnterminatedGroup,
    /// What follows `=` is not a type.
    MalformedType,
    /// A variant is followed by something else than a comma.
    ExpectedComma,
    /// Tokens follow the closing brace.
    TrailingTokens,
}

/// Why a declaration could not be read, and the position of the token at
/// which reading stopped (the number of tokens, where the input ended).
#[derive(Clone, Copy, Debug, PartialEq, Eq, Structural)]
pub struct SyntaxError {
    pub kind: SyntaxErrorKind,
    pub position: usize,
}

/// The mathematical value of a [`SyntaxError`].
pub struct Failure {
    pub kind: SyntaxErrorKind,
    pub position: int,
}

/// What a failure of each kind says.
pub open spec fn message_of(kind: SyntaxErrorKind) -> Seq<char> {
    match kind {
        SyntaxErrorKind::MalformedAttribute => "expected an attribute"@,
        SyntaxErrorKind::ExpectedEnum => "expected `enum`"@,
        SyntaxErrorKind::ExpectedIdentifier => "expected identifier"@,
        SyntaxErrorKind::ExpectedBrace => "expected curly braces"@,
        SyntaxErrorKind::UnterminatedGroup => "expected a closing brace"@,
        SyntaxErrorKind::MalformedType => "expected a type"@,
        SyntaxErrorKind::ExpectedComma => "expected `,`"@,
        SyntaxErrorKind::TrailingTokens => "unexpected token"@,
    }
}

impl SyntaxError {
    /// The message of this failure, for the one who wrote the declaration.
    pub fn message(&self) -> (out: String)
        ensures
            out@ == message_of(self.kind),
    {
        match self.kind {
            SyntaxErrorKind::MalformedAttribute => String::from_str("expected an attribute"),
            SyntaxErrorKind::ExpectedEnum => String::from_str("expected `enum`"),
            SyntaxErrorKind::ExpectedIdentifier => String::from_str("expected identifier"),
            SyntaxErrorKind::ExpectedBrace => String::from_str("expected curly braces"),
            SyntaxErrorKind::UnterminatedGroup => String::from_str("expected a closing brace"),
            SyntaxErrorKind::MalformedType => String::from_str("expected a type"),
            SyntaxErrorKind::ExpectedComma => String::from_str("expected `,`"),
            SyntaxErrorKind::TrailingTokens => String::from_str("unexpected token"),
        }
    }
}

impl View for SyntaxError {
    type V = Failure;

    open spec fn view(&self) -> Failure {
        Failure { kind: self.kind, position: self.position as int }
    }
}

/// What was answered about the pieces of Rust syntax in one token sequence.
/// Where an answer is missing, the piece counts as refused.
#[derive(Clone, Debug, PartialEq, Eq)]
pub struct Answers {
    /// For each position: whether the token there is an identifier that is
    /// no keyword.
    pub idents: Vec<bool>,
    /// For each position: whether the `#` there and the bracket group behind
    /// it are an annotation.
    pub attributes: Vec<bool>,
    /// For each position: whether the `pub` there and the parenthesis group
    /// behind it are a visibility qualifier.
    pub restrictions: Vec<bool>,
    /// For each position: whether the word there alone is a visibility
    /// qualifier.
    pub qualifiers: Vec<bool>,
    /// For each position `start` and each length: whether the tokens from
    /// `start` of that length are a type.
    pub types: Vec<Vec<bool>>,
}

/// The mathematical value of [`Answers`].
pub struct AnswersModel {
    pub idents: Seq<bool>,
    pub attributes: Seq<bool>,
    pub restrictions: Seq<bool>,
    pub qualifiers: Seq<bool>,
    pub types: Seq<Seq<bool>>,
}

impl View for Answers {
    type V = AnswersModel;

    open spec fn view(&self) -> AnswersModel {
        AnswersModel {
            idents: self.idents@,
            attributes: self.attributes@,
            restrictions: self.restrictions@,
            qualifiers: self.qualifiers@,
            types: self.types.deep_view(),
        }
    }
}

/// The answer at `pos` in a list of answers; refusal where there is none.
pub open spec fn answer_at(list: Seq<bool>, pos: int) -> bool {
    0 <= pos < list.len() && list[pos]
}

impl AnswersModel {
    pub open spec fn ident(self, pos: int) -> bool {
        answer_at(self.idents, pos)
    }

    pub open spec fn attribute(self, pos: int) -> bool {
        answer_at(self.attributes, pos)
    }

    pub open spec fn restriction(self, pos: int) -> bool {
        answer_at(self.restrictions, pos)
    }

    pub open spec fn qualifier(self, pos: int) -> bool {
        answer_at(self.qualifiers, pos)
    }

    /// Whether the tokens from `start` to `end` were accepted as a type.
    pub open spec fn type_at(self, start: int, end: int) -> bool {
        0 <= start < self.types.len() && answer_at(self.types[start], end - start)
    }
}

/// Reads the answer at `pos`; refusal where there is none.
pub fn read_answer(list: &Vec<bool>, pos: usize) -> (b: bool)
    ensures
        b == answer_at(list@, pos as int),
{
    pos < list.len() && list[pos]
}

impl Answers {
    /// Whether the tokens from `start` to `end` were accepted as a type.
    pub fn type_at(&self, start: usize, end: usize) -> (b: bool)
        requires
            start <= end,
        ensures
            b == self@.type_at(start as int, end as int),
    {
        if start >= self.types.len() {
            return false;
        }
        assert(self@.types[start as int] == self.types[start as int]@);
        read_answer(&self.types[start], end - start)
    }
}

/// Scanning from `pos` inside `depth` open groups: the position of the token
/// that closes the outermost of them, if the input holds one.
pub open spec fn closing(t: Tokens, pos: int, depth: nat) -> Option<int>
    decreases t.len() - pos,
{
    if pos < 0 || pos >= t.len() {
        None
    } else if t[pos].kind.is_open() {
        closing(t, pos + 1, depth + 1)
    } else if t[pos].kind.is_close() {
        if depth <= 1 {
            Some(pos)
        } else {
            closing(t, pos + 1, (depth - 1) as nat)
        }
    } else {
        closing(t, pos + 1, depth)
    }
}

/// The annotations that stand at `pos` before `limit`, added to `found`, and
/// the position behind them. Each is a `#`, a bracket group, and accepted by
/// as written.
pub open spec fn attributes_from(t: Tokens, a: AnswersModel, pos: int, limit: int, found: Seq<Tokens>) -> Result<
    (Seq<Tokens>, int),
    Failure,
>
    decreases limit - pos,
{
    if 0 <= pos < limit <= t.len() && t[pos].is_punct("#"@) {
        if pos + 1 < limit && t[pos + 1].kind == TokenKind::OpenBracket {
            match closing(t, pos + 2, 1) {
                Some(e) => if pos < e < limit && t[e].kind == TokenKind::CloseBracket
                    && a.attribute(pos) {
                    attributes_from(t, a, e + 1, limit, found.push(t.subrange(pos, e + 1)))
                } else {
                    Err(Failure { kind: SyntaxErrorKind::MalformedAttribute, position: pos })
                },
                None => Err(Failure { kind: SyntaxErrorKind::MalformedAttribute, position: pos }),
            }
        } else {
            Err(Failure { kind: SyntaxErrorKind::MalformedAttribute, position: pos })
        }
    } else {
        Ok((found, pos))
    }
}

/// Whether a path separator `::` stands at `pos`.
pub open spec fn separator_at(t: Tokens, pos: int) -> bool {
    0 <= pos && pos + 1 < t.len() && t[pos] == joint(":"@) && t[pos + 1].is_punct(":"@)
}

/// The one word at `pos` as a visibility qualifier, if it was accepted as
/// one; else no qualifier.
pub open spec fn word_visibility(t: Tokens, a: AnswersModel, pos: int) -> (Tokens, int) {
    if a.qualifier(pos) {
        (t.subrange(pos, pos + 1), pos + 1)
    } else {
        (Seq::empty(), pos)
    }
}

/// The visibility qualifier that stands at `pos`, and the position behind it:
/// `pub` with a parenthesised restriction, where that was accepted; else the
/// word `pub`, or the word `crate` where it does not begin a path, where the
/// word was accepted; else nothing.
pub open spec fn visibility_at(t: Tokens, a: AnswersModel, pos: int) -> (Tokens, int) {
    if 0 <= pos < t.len() && t[pos].is_ident("pub"@) {
        if pos + 1 < t.len() && t[pos + 1].kind == TokenKind::OpenParen {
            match closing(t, pos + 2, 1) {
                Some(e) => if pos < e < t.len() && a.restriction(pos) {
                    (t.subrange(pos, e + 1), e + 1)
                } else {
                    word_visibility(t, a, pos)
                },
                None => word_visibility(t, a, pos),
            }
        } else {
            word_visibility(t, a, pos)
        }
    } else if 0 <= pos < t.len() && t[pos].is_ident("crate"@) && !separator_at(t, pos + 1) {
        word_visibility(t, a, pos)
    } else {
        (Seq::empty(), pos)
    }
}

/// The end of the longest text that begins at `start`, ends at `end` or
/// before it, is not empty, and was accepted as a type.
pub open spec fn longest_type(t: Tokens, a: AnswersModel, start: int, end: int) -> Option<int>
    decreases end - start,
{
    if !(0 <= start < end <= t.len()) {
        None
    } else if a.type_at(start, end) {
        Some(end)
    } else {
        longest_type(t, a, start, end - 1)
    }
}

/// Where the type that begins at `start` ends: at the first comma outside
/// every group, from `pos` on, before which the text was accepted as a type;
/// else at `limit`, if all of it was accepted; else where the longest text
/// ends that was accepted as a type, so that the token behind a well-formed
/// type is the one that does not fit. Nowhere, if no text from `start` is a
/// type.
pub open spec fn type_end(t: Tokens, a: AnswersModel, start: int, pos: int, limit: int, depth: nat) -> Option<int>
    decreases limit - pos,
{
    if !(0 <= start <= pos < limit <= t.len()) {
        if 0 <= start <= limit <= t.len() && a.type_at(start, limit) {
            Some(limit)
        } else {
            longest_type(t, a, start, limit - 1)
        }
    } else if depth == 0 && t[pos].is_punct(","@) && a.type_at(start, pos) {
        Some(pos)
    } else if t[pos].kind.is_open() {
        type_end(t, a, start, pos + 1, limit, depth + 1)
    } else if t[pos].kind.is_close() && depth > 0 {
        type_end(t, a, start, pos + 1, limit, (depth - 1) as nat)
    } else {
        type_end(t, a, start, pos + 1, limit, depth)
    }
}

/// Whether an identifier that is no keyword stands at `pos` before `limit`:
/// a token of that kind whose text is one word and was accepted.
pub open spec fn name_at(t: Tokens, a: AnswersModel, pos: int, limit: int) -> bool {
    0 <= pos < limit <= t.len() && t[pos].kind == TokenKind::Ident && one_word(t[pos].text)
        && a.ident(pos)
}

/// The variant that stands at `pos` before `limit`, and the position behind it.
pub open spec fn variant_at(t: Tokens, a: AnswersModel, pos: int, limit: int) -> Result<(VariantModel, int), Failure> {
    match attributes_from(t, a, pos, limit, Seq::empty()) {
        Err(f) => Err(f),
        Ok((attributes, p)) => if !name_at(t, a, p, limit) {
            Err(Failure { kind: SyntaxErrorKind::ExpectedIdentifier, position: p })
        } else if p + 1 < limit && t[p + 1].is_punct("="@) {
            match type_end(t, a, p + 2, p + 2, limit, 0) {
                Some(end) => Ok(
                    (
                        VariantModel {
                            attributes,
                            name: t[p].text,
                            payload_type: Some(t.subrange(p + 2, end)),
                        },
                        end,
                    ),
                ),
                None => Err(Failure { kind: SyntaxErrorKind::MalformedType, position: p + 2 }),
            }
        } else {
            Ok((VariantModel { attributes, name: t[p].text, payload_type: None }, p + 1))
        },
    }
}

/// The variants that stand from `pos` to `limit`, separated by commas, with or
/// without a last comma, added to `found`.
pub open spec fn variants_from(t: Tokens, a: AnswersModel, pos: int, limit: int, found: Seq<VariantModel>) -> Result<
    Seq<VariantModel>,
    Failure,
>
    decreases limit - pos,
{
    if pos >= limit {
        Ok(found)
    } else {
        match variant_at(t, a, pos, limit) {
            Err(f) => Err(f),
            Ok((v, next)) => if next >= limit {
                Ok(found.push(v))
            } else if pos < next && 0 <= next < t.len() && t[next].is_punct(","@) {
                variants_from(t, a, next + 1, limit, found.push(v))
            } else {
                Err(Failure { kind: SyntaxErrorKind::ExpectedComma, position: next })
            },
        }
    }
}

/// The union that a token sequence declares, or where and why it declares none.
pub open spec fn declaration_of(t: Tokens, a: AnswersModel) -> Result<UnionModel, Failure> {
    match attributes_from(t, a, 0, t.len() as int, Seq::empty()) {
        Err(f) => Err(f),
        Ok((attributes, p)) => {
            let (visibility, q) = visibility_at(t, a, p);
            if !(0 <= q < t.len() && t[q].is_ident("enum"@)) {
                Err(Failure { kind: SyntaxErrorKind::ExpectedEnum, position: q })
            } else if !name_at(t, a, q + 1, t.len() as int) {
                Err(Failure { kind: SyntaxErrorKind::ExpectedIdentifier, position: q + 1 })
            } else if !(q + 2 < t.len() && t[q + 2].kind == TokenKind::OpenBrace) {
                Err(Failure { kind: SyntaxErrorKind::ExpectedBrace, position: q + 2 })
            } else {
                match closing(t, q + 3, 1) {
                    None => Err(
                        Failure { kind: SyntaxErrorKind::UnterminatedGroup, position: q + 2 },
                    ),
                    Some(e) => if !(q + 2 < e < t.len() && t[e].kind == TokenKind::CloseBrace) {
                        Err(Failure { kind: SyntaxErrorKind::UnterminatedGroup, position: q + 2 })
                    } else {
                        match variants_from(t, a, q + 3, e, Seq::empty()) {
                            Err(f) => Err(f),
                            Ok(variants) => if e + 1 < t.len() {
                                Err(
                                    Failure {
                                        kind: SyntaxErrorKind::TrailingTokens,
                                        position: e + 1,
                                    },
                                )
                            } else {
                                Ok(
                                    UnionModel {
                                        attributes,
                                        visibility,
                                        name: t[q + 1].text,
                                        variants,
                                    },
                                )
                            },
                        }
                    },
                }
            }
        },
    }
}

/// Whether `t` begins with neither `#`, `pub`, `crate` nor `enum`.
pub open spec fn starts_wrong(t: Tokens) -> bool {
    t.len() == 0 || !(t[0].is_punct("#"@) || t[0].is_ident("pub"@) || t[0].is_ident("crate"@)
        || t[0].is_ident("enum"@))
}

/// A declaration that begins with neither an annotation, a visibility
/// qualifier nor `enum` is refused at its first token: `enum` is missing
/// there.
pub proof fn law_missing_enum(t: Tokens, a: AnswersModel)
    requires
        starts_wrong(t),
    ensures
        declaration_of(t, a) == Err::<UnionModel, _>(
            Failure { kind: SyntaxErrorKind::ExpectedEnum, position: 0 },
        ),
{
}

/// The tokens of a list of variants that are names only, with a comma
/// between one and the next.
pub open spec fn plain_list(variants: Seq<Seq<char>>) -> Tokens {
    Seq::new(
        if variants.len() == 0 {
            0nat
        } else {
            (2 * variants.len() - 1) as nat
        },
        |j: int|
            if j % 2 == 0 {
                word(variants[j / 2])
            } else {
                sign(","@)
            },
    )
}

/// The tokens of `enum <name> { <variants> }`.
pub open spec fn plain_declaration(name: Seq<char>, variants: Seq<Seq<char>>) -> Tokens {
    seq![word("enum"@), word(name), open_brace()] + plain_list(variants) + seq![close_brace()]
}

/// Where the closing brace stands in `plain_declaration`.
pub open spec fn plain_end(variants: Seq<Seq<char>>) -> int {
    3 + plain_list(variants).len() as int
}

/// The variants that are names only: no annotations, no payload type.
pub open spec fn plain_variants(variants: Seq<Seq<char>>) -> Seq<VariantModel> {
    Seq::new(
        variants.len(),
        |i: int|
            VariantModel { attributes: Seq::empty(), name: variants[i], payload_type: None },
    )
}

proof fn lemma_closing_plain(t: Tokens, pos: int, end: int)
    requires
        0 <= pos <= end < t.len(),
        t[end].kind.is_close(),
        forall|j: int| pos <= j < end ==> !t[j].kind.is_open() && !t[j].kind.is_close(),
    ensures
        closing(t, pos, 1) == Some(end),
    decreases end - pos,
{
    if pos < end {
        lemma_closing_plain(t, pos + 1, end);
    }
}

proof fn lemma_plain_variants(name: Seq<char>, variants: Seq<Seq<char>>, a: AnswersModel, i: int)
    requires
        0 <= i <= variants.len(),
        forall|k: int| 0 <= k < variants.len() ==> #[trigger] a.ident(3 + 2 * k),
        forall|k: int| 0 <= k < variants.len() ==> one_word(#[trigger] variants[k]),
    ensures
        variants_from(
            plain_declaration(name, variants),
            a,
            if i < variants.len() {
                3 + 2 * i
            } else {
                plain_end(variants)
            },
            plain_end(variants),
            plain_variants(variants).take(i),
        ) == Ok::<_, Failure>(plain_variants(variants)),
    decreases variants.len() - i,
{
    reveal_strlit(",");
    reveal_strlit("=");
    reveal_strlit("#");
    let t = plain_declaration(name, variants);
    let limit = plain_end(variants);
    let all = plain_variants(variants);
    if i < variants.len() {
        let pos = 3 + 2 * i;
        assert(t[pos] == word(variants[i]));
        assert(attributes_from(t, a, pos, limit, Seq::empty()) == Ok::<_, Failure>(
            (Seq::<Tokens>::empty(), pos),
        ));
        assert(name_at(t, a, pos, limit));
        let v = VariantModel { attributes: Seq::empty(), name: variants[i], payload_type: None };
        if i + 1 < variants.len() {
            assert(t[pos + 1] == sign(","@));
            assert(","@ != "="@) by {
                assert(","@[0] == ',' && "="@[0] == '=');
            }
        }
        assert(variant_at(t, a, pos, limit) == Ok::<_, Failure>((v, pos + 1)));
        assert(all.take(i).push(v) =~= all.take(i + 1));
        if i + 1 == variants.len() {
            assert(all.take(i + 1) =~= all);
        } else {
            lemma_plain_variants(name, variants, a, i + 1);
        }
    } else {
        assert(all.take(i) =~= all);
    }
}

/// A declaration of names only is read as it stands, whatever the names, as
/// long as each is one word and was accepted as an identifier: the union has the declared name and one
/// variant for each name, in the order written. With no names it is the union
/// without variants.
pub proof fn law_plain_declaration(name: Seq<char>, variants: Seq<Seq<char>>, a: AnswersModel)
    requires
        a.ident(1),
        one_word(name),
        forall|k: int| 0 <= k < variants.len() ==> #[trigger] a.ident(3 + 2 * k),
        forall|k: int| 0 <= k < variants.len() ==> one_word(#[trigger] variants[k]),
    ensures
        declaration_of(plain_declaration(name, variants), a) == Ok::<_, Failure>(
            UnionModel {
                attributes: Seq::empty(),
                visibility: Seq::empty(),
                name,
                variants: plain_variants(variants),
            },
        ),
{
    reveal_strlit("enum");
    reveal_strlit("pub");
    reveal_strlit("crate");
    let t = plain_declaration(name, variants);
    let end = plain_end(variants);
    assert("enum"@ != "pub"@) by {
        assert("enum"@.len() == 4 && "pub"@.len() == 3);
    }
    assert("enum"@ != "crate"@) by {
        assert("enum"@.len() == 4 && "crate"@.len() == 5);
    }
    assert(attributes_from(t, a, 0, t.len() as int, Seq::empty()) == Ok::<_, Failure>(
        (Seq::<Tokens>::empty(), 0int),
    ));
    assert(visibility_at(t, a, 0) == (Seq::<TokenView>::empty(), 0int));
    assert(name_at(t, a, 1, t.len() as int));
    lemma_closing_plain(t, 3, end);
    lemma_plain_variants(name, variants, a, 0);
    assert(plain_variants(variants).take(0) =~= Seq::<VariantModel>::empty());
}

proof fn lemma_attributes_verbatim(t: Tokens, a: AnswersModel, start: int, pos: int, limit: int, found: Seq<Tokens>)
    requires
        0 <= start <= pos <= limit <= t.len(),
        flatten(found) == t.subrange(start, pos),
    ensures
        match attributes_from(t, a, pos, limit, found) {
            Ok((groups, next)) => pos <= next <= limit && flatten(groups) == t.subrange(
                start,
                next,
            ),
            Err(_) => true,
        },
    decreases limit - pos,
{
    if pos < limit && t[pos].is_punct("#"@) && pos + 1 < limit && t[pos + 1].kind
        == TokenKind::OpenBracket {
        match closing(t, pos + 2, 1) {
            Some(e) => {
                if pos < e < limit && t[e].kind == TokenKind::CloseBracket
                    && a.attribute(pos) {
                    let more = found.push(t.subrange(pos, e + 1));
                    assert(more.drop_last() =~= found);
                    assert(flatten(more) =~= t.subrange(start, e + 1));
                    lemma_attributes_verbatim(t, a, start, e + 1, limit, more);
                }
            },
            None => {},
        }
    }
}

/// Whether `u` has the head of the declaration `t` as it is written: the
/// annotations, one after the other, and then the visibility are exactly the
/// tokens before `enum`; the name is the token behind `enum`; the variant
/// list is the brace group that ends the declaration.
pub open spec fn head_kept(t: Tokens, u: UnionModel) -> bool {
    let q = (flatten(u.attributes).len() + u.visibility.len()) as int;
    &&& q + 3 < t.len()
    &&& t.subrange(0, q) == flatten(u.attributes) + u.visibility
    &&& t[q].is_ident("enum"@)
    &&& t[q + 1] == (TokenView { kind: TokenKind::Ident, text: u.name })
    &&& t[q + 2].kind == TokenKind::OpenBrace
    &&& t.last().kind == TokenKind::CloseBrace
}

/// What is read keeps the head of the declaration as it is written: the
/// annotations, one after the other, and then the visibility are exactly the
/// tokens before `enum`; the name is the token behind `enum`; the variant
/// list is the brace group that ends the declaration.
pub proof fn law_head_verbatim(t: Tokens, a: AnswersModel)
    ensures
        match declaration_of(t, a) {
            Ok(u) => head_kept(t, u),
            Err(_) => true,
        },
{
    assert(flatten(Seq::<Tokens>::empty()) =~= t.subrange(0, 0));
    lemma_attributes_verbatim(t, a, 0, 0, t.len() as int, Seq::empty());
    match attributes_from(t, a, 0, t.len() as int, Seq::empty()) {
        Ok((attributes, p)) => {
            let (visibility, q) = visibility_at(t, a, p);
            assert(visibility =~= t.subrange(p, q));
            assert(t.subrange(0, q) =~= t.subrange(0, p) + t.subrange(p, q));
        },
        Err(_) => {},
    }
}

/// Where the entry with number `i`, counted from the one at `pos`, begins:
/// each entry begins behind the comma that follows the entry before it.
pub open spec fn entry_start(t: Tokens, a: AnswersModel, pos: int, limit: int, i: nat) -> int
    decreases i,
{
    if i == 0 {
        pos
    } else {
        match variant_at(t, a, pos, limit) {
            Ok((_, next)) => entry_start(t, a, next + 1, limit, (i - 1) as nat),
            Err(_) => pos,
        }
    }
}

proof fn lemma_found_stays(t: Tokens, a: AnswersModel, pos: int, limit: int, found: Seq<VariantModel>)
    ensures
        match variants_from(t, a, pos, limit, found) {
            Ok(vs) => found.len() <= vs.len() && vs.take(found.len() as int) == found,
            Err(_) => true,
        },
    decreases limit - pos,
{
    if pos < limit {
        match variant_at(t, a, pos, limit) {
            Ok((v, next)) => {
                let more = found.push(v);
                assert(more.take(found.len() as int) =~= found);
                if next < limit && pos < next && 0 <= next < t.len() && t[next].is_punct(","@) {
                    lemma_found_stays(t, a, next + 1, limit, more);
                    match variants_from(t, a, next + 1, limit, more) {
                        Ok(vs) => {
                            assert(vs.take(found.len() as int) =~= vs.take(
                                more.len() as int,
                            ).take(found.len() as int));
                        },
                        Err(_) => {},
                    }
                }
            },
            Err(_) => {},
        }
    } else {
        assert(found.take(found.len() as int) =~= found);
    }
}

proof fn lemma_entries_in_order(
    t: Tokens, a: AnswersModel,
    pos: int,
    limit: int,
    found: Seq<VariantModel>,
    i: int,
)
    requires
        variants_from(t, a, pos, limit, found) is Ok,
        0 <= i,
        found.len() + i < variants_from(t, a, pos, limit, found)->Ok_0.len(),
    ensures
        ({
            let vs = variants_from(t, a, pos, limit, found)->Ok_0;
            let s = entry_start(t, a, pos, limit, i as nat);
            &&& pos <= s < limit
            &&& match variant_at(t, a, s, limit) {
                Ok((v, next)) => vs[found.len() + i] == v && (next < limit ==> s < next
                    && t[next].is_punct(","@)),
                Err(_) => false,
            }
        }),
    decreases i,
{
    let vs = variants_from(t, a, pos, limit, found)->Ok_0;
    assert(pos < limit);
    match variant_at(t, a, pos, limit) {
        Ok((v, next)) => {
            let more = found.push(v);
            if next < limit {
                lemma_found_stays(t, a, next + 1, limit, more);
                assert(vs.take(more.len() as int)[found.len() as int] == v);
                if i > 0 {
                    lemma_entries_in_order(t, a, next + 1, limit, more, i - 1);
                }
            }
        },
        Err(_) => {},
    }
}

/// A declaration that is read keeps its entries in the order written, each
/// with its own annotations and type: the variant with number `i` is the one
/// that stands where the entry with number `i` begins inside the braces, and
/// a comma stands behind every entry but the last. No entry is left out,
/// merged with another or moved.
pub proof fn law_variants_in_order(t: Tokens, a: AnswersModel, i: int)
    requires
        declaration_of(t, a) is Ok,
        0 <= i < declaration_of(t, a)->Ok_0.variants.len(),
    ensures
        ({
            let u = declaration_of(t, a)->Ok_0;
            let first = (flatten(u.attributes).len() + u.visibility.len() + 3) as int;
            let limit = t.len() - 1;
            let s = entry_start(t, a, first, limit, i as nat);
            &&& first <= s < limit
            &&& match variant_at(t, a, s, limit) {
                Ok((v, next)) => u.variants[i] == v && (next < limit ==> s < next
                    && t[next].is_punct(","@)),
                Err(_) => false,
            }
        }),
{
    assert(flatten(Seq::<Tokens>::empty()) =~= t.subrange(0, 0));
    lemma_attributes_verbatim(t, a, 0, 0, t.len() as int, Seq::empty());
    match attributes_from(t, a, 0, t.len() as int, Seq::empty()) {
        Ok((attributes, p)) => {
            let (visibility, q) = visibility_at(t, a, p);
            assert(visibility =~= t.subrange(p, q));
            assert(flatten(attributes).len() == p);
            assert(visibility.len() == q - p);
            let e = closing(t, q + 3, 1)->Some_0;
            assert(e == t.len() - 1);
            lemma_entries_in_order(t, a, q + 3, e, Seq::empty(), i);
        },
        Err(_) => {},
    }
}

impl TokenKind {
    /// Whether a token of this kind opens a group.
    pub fn opens(self) -> (b: bool)
        ensures
            b == self.is_open(),
    {
        self == TokenKind::OpenParen || self == TokenKind::OpenBracket || self
            == TokenKind::OpenBrace
    }

    /// Whether a token of this kind closes a group.
    pub fn closes(self) -> (b: bool)
        ensures
            b == self.is_close(),
    {
        self == TokenKind::CloseParen || self == TokenKind::CloseBracket || self
            == TokenKind::CloseBrace
    }
}

/// Finds the token that closes the group whose contents begin at `from`.
pub fn find_closing(tokens: &Vec<Token>, from: usize) -> (r: Option<usize>)
    requires
        from <= tokens.len(),
    ensures
        match r {
            Some(e) => closing(tokens.deep_view(), from as int, 1) == Some(e as int) && from <= e
                < tokens.len(),
            None => closing(tokens.deep_view(), from as int, 1).is_none(),
        },
{
    let ghost t = tokens.deep_view();
    let mut nested: usize = 0;
    let mut i: usize = from;
    while i < tokens.len()
        invariant
            from <= i <= tokens.len(),
            t == tokens.deep_view(),
            nested <= i - from,
            closing(t, from as int, 1) == closing(t, i as int, (nested + 1) as nat),
        decreases tokens.len() - i,
    {
        assert(t[i as int] == tokens[i as int]@);
        let kind = tokens[i].kind;
        if kind.opens() {
            nested += 1;
        } else if kind.closes() {
            if nested == 0 {
                return Some(i);
            }
            nested -= 1;
        }
        i += 1;
    }
    None
}

fn push_group(out: &mut Vec<Vec<Token>>, group: Vec<Token>)
    ensures
        final(out).deep_view() == old(out).deep_view().push(group.deep_view()),
{
    out.push(group);
    assert(out.deep_view() =~= old(out).deep_view().push(group.deep_view()));
}

fn push_variant(out: &mut Vec<VariantSpec>, v: VariantSpec)
    ensures
        final(out).deep_view() == old(out).deep_view().push(v@),
{
    out.push(v);
    assert(out.deep_view() =~= old(out).deep_view().push(v@));
}

/// Reads the annotations that stand at `pos` before `limit`.
pub fn read_attributes(tokens: &Vec<Token>, answers: &Answers, pos: usize, limit: usize) -> (r: Result<
    (Vec<Vec<Token>>, usize),
    SyntaxError,
>)
    requires
        pos <= limit <= tokens.len(),
    ensures
        match r {
            Ok((groups, next)) => attributes_from(
                tokens.deep_view(), answers@,
                pos as int,
                limit as int,
                Seq::empty(),
            ) == Ok::<_, Failure>((groups.deep_view(), next as int)) && pos <= next <= limit,
            Err(e) => attributes_from(tokens.deep_view(), answers@, pos as int, limit as int, Seq::empty())
                == Err::<(Seq<Tokens>, int), _>(e@) && e.position <= limit,
        },
{
    let ghost t = tokens.deep_view();
    let ghost a = answers@;
    let mut out: Vec<Vec<Token>> = Vec::new();
    let mut p: usize = pos;
    assert(out.deep_view() =~= Seq::<Tokens>::empty());
    loop
        invariant
            pos <= p <= limit <= tokens.len(),
            t == tokens.deep_view(),
            a == answers@,
            attributes_from(t, a, pos as int, limit as int, Seq::empty()) == attributes_from(
                t, a,
                p as int,
                limit as int,
                out.deep_view(),
            ),
        decreases limit - p,
    {
        if p >= limit {
            return Ok((out, p));
        }
        assert(t[p as int] == tokens[p as int]@);
        if !tokens[p].is_punct("#") {
            return Ok((out, p));
        }
        let failure = SyntaxError { kind: SyntaxErrorKind::MalformedAttribute, position: p };
        if p + 1 >= limit {
            return Err(failure);
        }
        assert(t[p as int + 1] == tokens[p as int + 1]@);
        if tokens[p + 1].kind != TokenKind::OpenBracket {
            return Err(failure);
        }
        match find_closing(tokens, p + 2) {
            None => {
                return Err(failure);
            },
            Some(e) => {
                assert(t[e as int] == tokens[e as int]@);
                if e >= limit || tokens[e].kind != TokenKind::CloseBracket {
                    return Err(failure);
                }
                if !read_answer(&answers.attributes, p) {
                    return Err(failure);
                }
                push_group(&mut out, copy_range(tokens, p, e + 1));
                p = e + 1;
            },
        }
    }
}

/// Whether a path separator `::` stands at `pos`.
pub fn is_separator_at(tokens: &Vec<Token>, pos: usize) -> (b: bool)
    requires
        pos <= tokens.len(),
    ensures
        b == separator_at(tokens.deep_view(), pos as int),
{
    if pos >= tokens.len() || pos + 1 >= tokens.len() {
        return false;
    }
    assert(tokens.deep_view()[pos as int] == tokens[pos as int]@);
    assert(tokens.deep_view()[pos as int + 1] == tokens[pos as int + 1]@);
    let colon = String::from_str(":");
    tokens[pos].kind == TokenKind::JointPunct && tokens[pos].text == colon && tokens[pos
        + 1].is_punct(":")
}

/// Reads the one word at `pos` as a visibility qualifier.
fn read_word_visibility(tokens: &Vec<Token>, answers: &Answers, pos: usize) -> (r: (
    Vec<Token>,
    usize,
))
    requires
        pos < tokens.len(),
    ensures
        word_visibility(tokens.deep_view(), answers@, pos as int) == (
            r.0.deep_view(),
            r.1 as int,
        ),
        pos <= r.1 <= tokens.len(),
{
    if read_answer(&answers.qualifiers, pos) {
        (copy_range(tokens, pos, pos + 1), pos + 1)
    } else {
        let out = copy_range(tokens, pos, pos);
        assert(out.deep_view() =~= Seq::<TokenView>::empty());
        (out, pos)
    }
}

/// Reads the visibility qualifier that stands at `pos`.
pub fn read_visibility(tokens: &Vec<Token>, answers: &Answers, pos: usize) -> (r: (
    Vec<Token>,
    usize,
))
    requires
        pos <= tokens.len(),
    ensures
        visibility_at(tokens.deep_view(), answers@, pos as int) == (r.0.deep_view(), r.1 as int),
        pos <= r.1 <= tokens.len(),
{
    let ghost t = tokens.deep_view();
    if pos >= tokens.len() {
        let out = copy_range(tokens, pos, pos);
        assert(out.deep_view() =~= Seq::<TokenView>::empty());
        return (out, pos);
    }
    assert(t[pos as int] == tokens[pos as int]@);
    if tokens[pos].is_ident("pub") {
        if pos + 1 < tokens.len() {
            assert(t[pos as int + 1] == tokens[pos as int + 1]@);
            if tokens[pos + 1].kind == TokenKind::OpenParen {
                match find_closing(tokens, pos + 2) {
                    Some(e) => {
                        if read_answer(&answers.restrictions, pos) {
                            return (copy_range(tokens, pos, e + 1), e + 1);
                        }
                    },
                    None => {},
                }
            }
        }
        read_word_visibility(tokens, answers, pos)
    } else if tokens[pos].is_ident("crate") && !is_separator_at(tokens, pos + 1) {
        read_word_visibility(tokens, answers, pos)
    } else {
        let out = copy_range(tokens, pos, pos);
        assert(out.deep_view() =~= Seq::<TokenView>::empty());
        (out, pos)
    }
}

/// Finds where the type that begins at `start` ends.
pub fn find_type_end(tokens: &Vec<Token>, answers: &Answers, start: usize, limit: usize) -> (r: Option<usize>)
    requires
        start <= limit <= tokens.len(),
    ensures
        match r {
            Some(end) => type_end(tokens.deep_view(), answers@, start as int, start as int, limit as int, 0)
                == Some(end as int) && start <= end <= limit,
            None => type_end(
                tokens.deep_view(), answers@,
                start as int,
                start as int,
                limit as int,
                0,
            ).is_none(),
        },
{
    let ghost t = tokens.deep_view();
    let ghost a = answers@;
    let mut depth: usize = 0;
    let mut i: usize = start;
    while i < limit
        invariant
            start <= i <= limit <= tokens.len(),
            t == tokens.deep_view(),
            a == answers@,
            depth <= i - start,
            type_end(t, a, start as int, start as int, limit as int, 0) == type_end(
                t, a,
                start as int,
                i as int,
                limit as int,
                depth as nat,
            ),
        decreases limit - i,
    {
        assert(t[i as int] == tokens[i as int]@);
        if depth == 0 && tokens[i].is_punct(",") {
            if answers.type_at(start, i) {
                return Some(i);
            }
        }
        let kind = tokens[i].kind;
        if kind.opens() {
            depth += 1;
        } else if kind.closes() && depth > 0 {
            depth -= 1;
        }
        i += 1;
    }
    if answers.type_at(start, limit) {
        return Some(limit);
    }
    if limit == start {
        return None;
    }
    let mut k: usize = limit - 1;
    while k > start
        invariant
            start <= k < limit <= tokens.len(),
            t == tokens.deep_view(),
            a == answers@,
            type_end(t, a, start as int, start as int, limit as int, 0) == longest_type(
                t, a,
                start as int,
                k as int,
            ),
        decreases k - start,
    {
        if answers.type_at(start, k) {
            return Some(k);
        }
        k -= 1;
    }
    None
}

/// Whether an identifier that is no keyword stands at `pos` before `limit`.
pub fn is_name_at(tokens: &Vec<Token>, answers: &Answers, pos: usize, limit: usize) -> (b: bool)
    requires
        limit <= tokens.len(),
    ensures
        b == name_at(tokens.deep_view(), answers@, pos as int, limit as int),
{
    if pos >= limit {
        return false;
    }
    assert(tokens.deep_view()[pos as int] == tokens[pos as int]@);
    tokens[pos].kind == TokenKind::Ident && is_one_word(tokens[pos].text.as_str()) && read_answer(
        &answers.idents,
        pos,
    )
}

/// Reads the variant that stands at `pos` before `limit`.
pub fn read_variant(tokens: &Vec<Token>, answers: &Answers, pos: usize, limit: usize) -> (r: Result<
    (VariantSpec, usize),
    SyntaxError,
>)
    requires
        pos <= limit <= tokens.len(),
    ensures
        match r {
            Ok((v, next)) => variant_at(tokens.deep_view(), answers@, pos as int, limit as int) == Ok::<
                _,
                Failure,
            >((v@, next as int)) && pos < next <= limit,
            Err(e) => variant_at(tokens.deep_view(), answers@, pos as int, limit as int) == Err::<
                (VariantModel, int),
                _,
            >(e@) && e.position <= limit,
        },
{
    let ghost t = tokens.deep_view();
    let ghost a = answers@;
    let (attributes, p) = match read_attributes(tokens, answers, pos, limit) {
        Ok(found) => found,
        Err(e) => {
            return Err(e);
        },
    };
    if !is_name_at(tokens, answers, p, limit) {
        return Err(SyntaxError { kind: SyntaxErrorKind::ExpectedIdentifier, position: p });
    }
    assert(t[p as int] == tokens[p as int]@);
    let name = tokens[p].text.clone();
    if p + 1 < limit {
        assert(t[p as int + 1] == tokens[p as int + 1]@);
        if tokens[p + 1].is_punct("=") {
            return match find_type_end(tokens, answers, p + 2, limit) {
                Some(end) => Ok(
                    (
                        VariantSpec {
                            attributes,
                            name,
                            payload_type: Some(copy_range(tokens, p + 2, end)),
                        },
                        end,
                    ),
                ),
                None => Err(
                    SyntaxError { kind: SyntaxErrorKind::MalformedType, position: p + 2 },
                ),
            };
        }
    }
    Ok((VariantSpec { attributes, name, payload_type: None }, p + 1))
}

/// Reads the variants that stand from `pos` to `limit`.
pub fn read_variants(tokens: &Vec<Token>, answers: &Answers, pos: usize, limit: usize) -> (r: Result<
    Vec<VariantSpec>,
    SyntaxError,
>)
    requires
        pos <= limit <= tokens.len(),
    ensures
        match r {
            Ok(vs) => variants_from(tokens.deep_view(), answers@, pos as int, limit as int, Seq::empty())
                == Ok::<_, Failure>(vs.deep_view()),
            Err(e) => variants_from(tokens.deep_view(), answers@, pos as int, limit as int, Seq::empty())
                == Err::<Seq<VariantModel>, _>(e@) && e.position <= limit,
        },
{
    let ghost t = tokens.deep_view();
    let ghost a = answers@;
    let mut out: Vec<VariantSpec> = Vec::new();
    let mut p: usize = pos;
    assert(out.deep_view() =~= Seq::<VariantModel>::empty());
    while p < limit
        invariant
            pos <= p <= limit <= tokens.len(),
            t == tokens.deep_view(),
            a == answers@,
            variants_from(t, a, pos as int, limit as int, Seq::empty()) == variants_from(
                t, a,
                p as int,
                limit as int,
                out.deep_view(),
            ),
        decreases limit - p,
    {
        let (v, next) = match read_variant(tokens, answers, p, limit) {
            Ok(found) => found,
            Err(e) => {
                return Err(e);
            },
        };
        push_variant(&mut out, v);
        if next >= limit {
            return Ok(out);
        }
        assert(t[next as int] == tokens[next as int]@);
        if !tokens[next].is_punct(",") {
            return Err(SyntaxError { kind: SyntaxErrorKind::ExpectedComma, position: next });
        }
        p = next + 1;
    }
    Ok(out)
}

/// Reads a whole declaration, given the answers about its pieces. It is read
/// if and only if the tokens follow the grammar; else the first token that
/// does not fit is reported.
pub fn parse_given(tokens: &Vec<Token>, answers: &Answers) -> (r: Result<UnionSpec, SyntaxError>)
    ensures
        r is Err ==> r->Err_0.position <= tokens.len(),
        match r {
            Ok(u) => declaration_of(tokens.deep_view(), answers@) == Ok::<_, Failure>(u@),
            Err(e) => declaration_of(tokens.deep_view(), answers@) == Err::<UnionModel, _>(e@),
        },
{
    let ghost t = tokens.deep_view();
    let ghost a = answers@;
    let len = tokens.len();
    let (attributes, p) = match read_attributes(tokens, answers, 0, len) {
        Ok(found) => found,
        Err(e) => {
            return Err(e);
        },
    };
    let (visibility, q) = read_visibility(tokens, answers, p);
    if q >= len {
        return Err(SyntaxError { kind: SyntaxErrorKind::ExpectedEnum, position: q });
    }
    assert(t[q as int] == tokens[q as int]@);
    if !tokens[q].is_ident("enum") {
        return Err(SyntaxError { kind: SyntaxErrorKind::ExpectedEnum, position: q });
    }
    if !is_name_at(tokens, answers, q + 1, len) {
        return Err(SyntaxError { kind: SyntaxErrorKind::ExpectedIdentifier, position: q + 1 });
    }
    assert(t[q as int + 1] == tokens[q as int + 1]@);
    let name = tokens[q + 1].text.clone();
    let brace = SyntaxError { kind: SyntaxErrorKind::ExpectedBrace, position: q + 2 };
    if q + 2 >= len {
        return Err(brace);
    }
    assert(t[q as int + 2] == tokens[q as int + 2]@);
    if tokens[q + 2].kind != TokenKind::OpenBrace {
        return Err(brace);
    }
    let open = SyntaxError { kind: SyntaxErrorKind::UnterminatedGroup, position: q + 2 };
    let e = match find_closing(tokens, q + 3) {
        Some(e) => e,
        None => {
            return Err(open);
        },
    };
    assert(t[e as int] == tokens[e as int]@);
    if tokens[e].kind != TokenKind::CloseBrace {
        return Err(open);
    }
    let variants = match read_variants(tokens, answers, q + 3, e) {
        Ok(found) => found,
        Err(e) => {
            return Err(e);
        },
    };
    if e + 1 < len {
        return Err(SyntaxError { kind: SyntaxErrorKind::TrailingTokens, position: e + 1 });
    }
    Ok(UnionSpec { attributes, visibility, name, variants })
}

/// Asks whether the tokens from `from` to each end up to `to` are a type.
fn ask_types(tokens: &Vec<Token>, from: usize, to: usize) -> (out: Vec<bool>)
    requires
        from <= to <= tokens.len(),
{
    let mut out: Vec<bool> = Vec::new();
    let mut k: usize = from;
    while k < to
        invariant
            from <= k <= to <= tokens.len(),
        decreases to - k,
    {
        out.push(accepts_type(write_source(tokens, from, k).as_str()));
        k += 1;
    }
    out.push(accepts_type(write_source(tokens, from, to).as_str()));
    out
}

/// Asks about the types that may begin at `pos`: behind a `=`, up to the end
/// of the group that `pos` stands in.
fn ask_types_at(tokens: &Vec<Token>, pos: usize) -> (out: Vec<bool>)
    requires
        pos <= tokens.len(),
{
    if pos == 0 || !tokens[pos - 1].is_punct("=") {
        return Vec::new();
    }
    match find_closing(tokens, pos) {
        Some(e) => ask_types(tokens, pos, e),
        None => ask_types(tokens, pos, tokens.len()),
    }
}

/// Asks whether the token at `pos` and the group behind it, which opens with
/// a token of kind `open`, are an annotation or a visibility qualifier.
fn ask_group(tokens: &Vec<Token>, pos: usize, open: TokenKind, annotation: bool) -> (b: bool)
    requires
        pos < tokens.len(),
{
    if pos + 1 >= tokens.len() || tokens[pos + 1].kind != open {
        return false;
    }
    match find_closing(tokens, pos + 2) {
        Some(e) => {
            let text = write_source(tokens, pos, e + 1);
            if annotation {
                accepts_attributes(text.as_str())
            } else {
                accepts_visibility(text.as_str())
            }
        },
        None => false,
    }
}

/// Asks about every piece of Rust syntax that reading `tokens` may come to:
/// each identifier, each `#` with a bracket group, each `pub` with a
/// parenthesis group, each `pub` and `crate` alone, and each run of tokens
/// behind a `=`. Nothing is known of the answers.
pub fn ask(tokens: &Vec<Token>) -> (answers: Answers) {
    let mut answers = Answers {
        idents: Vec::new(),
        attributes: Vec::new(),
        restrictions: Vec::new(),
        qualifiers: Vec::new(),
        types: Vec::new(),
    };
    let mut p: usize = 0;
    while p < tokens.len()
        invariant
            p <= tokens.len(),
        decreases tokens.len() - p,
    {
        let token = &tokens[p];
        let is_pub = token.is_ident("pub");
        answers.idents.push(
            token.kind == TokenKind::Ident && accepts_ident(token.text.as_str()),
        );
        answers.attributes.push(
            token.is_punct("#") && ask_group(tokens, p, TokenKind::OpenBracket, true),
        );
        answers.restrictions.push(is_pub && ask_group(tokens, p, TokenKind::OpenParen, false));
        answers.qualifiers.push(
            (is_pub || token.is_ident("crate")) && accepts_visibility(
                write_source(tokens, p, p + 1).as_str(),
            ),
        );
        answers.types.push(ask_types_at(tokens, p));
        p += 1;
    }
    answers.types.push(ask_types_at(tokens, tokens.len()));
    answers
}

/// Whether `r` is what the grammar gives for `t` under the answers `a`.
pub open spec fn reads_as(t: Tokens, a: AnswersModel, r: Result<UnionSpec, SyntaxError>) -> bool {
    match r {
        Ok(u) => declaration_of(t, a) == Ok::<_, Failure>(u@),
        Err(e) => declaration_of(t, a) == Err::<UnionModel, _>(e@),
    }
}

/// Reads a whole declaration: asks about its pieces, then reads it with the
/// answers. Whatever the answers are, the result is what the grammar gives
/// under them; and a declaration that begins with neither an annotation, a
/// visibility qualifier nor `enum` is refused at its first token.
pub fn parse(tokens: &Vec<Token>) -> (r: Result<UnionSpec, SyntaxError>)
    ensures
        exists|a: AnswersModel| #[trigger] reads_as(tokens.deep_view(), a, r),
        starts_wrong(tokens.deep_view()) ==> r == Err::<UnionSpec, _>(
            SyntaxError { kind: SyntaxErrorKind::ExpectedEnum, position: 0 },
        ),
        match r {
            Ok(u) => head_kept(tokens.deep_view(), u@),
            Err(e) => e.position <= tokens.len(),
        },
{
    let answers = ask(tokens);
    let r = parse_given(tokens, &answers);
    proof {
        assert(reads_as(tokens.deep_view(), answers@, r));
        if starts_wrong(tokens.deep_view()) {
            law_missing_enum(tokens.deep_view(), answers@);
        }
        law_head_verbatim(tokens.deep_view(), answers@);
    }
    r
}

} // verus!
