//! Writing the declarations out as tokens, and the whole way from a
//! declaration in tokens to its declarations in tokens.

use vstd::prelude::*;
use crate::generate::{
    Accessor, AccessorKind, AccessorModel, Case, CaseModel, Conversion, ConversionModel,
    DeclarationModel, DeclarationSet, declarations_of, generate,
};
use crate::model::UnionModel;
use crate::parse::{
    Answers, AnswersModel, SyntaxError, SyntaxErrorKind, ask, declaration_of, law_missing_enum,
    parse_given, starts_wrong,
};
use crate::token::{
    Token, TokenKind, TokenView, Tokens, close_brace, close_paren, flatten, joint, open_brace,
    open_paren, push_token, sign, tok, word,
};

verus! {

/// `Union::Variant`
pub open spec fn case_path(union: Seq<char>, variant: Seq<char>) -> Tokens {
    seq![word(union), joint(":"@), sign(":"@), word(variant)]
}

/// How one character is written inside a string literal: a quote, a
/// backslash, a line feed, a carriage return and a tab behind a backslash,
/// every other character as it is.
pub open spec fn escaped_char(c: char) -> Seq<char> {
    if c == '"' {
        "\\\""@
    } else if c == '\\' {
        "\\\\"@
    } else if c == '\n' {
        "\\n"@
    } else if c == '\r' {
        "\\r"@
    } else if c == '\t' {
        "\\t"@
    } else {
        seq![c]
    }
}

/// A text as it is written inside a string literal, character by character.
pub open spec fn escaped(text: Seq<char>) -> Seq<char>
    decreases text.len(),
{
    if text.len() == 0 {
        Seq::empty()
    } else {
        escaped(text.drop_last()) + escaped_char(text.last())
    }
}

/// The string literal that denotes `text`.
pub open spec fn string_literal(text: Seq<char>) -> Seq<char> {
    "\""@ + escaped(text) + "\""@
}

/// Writes the string literal that denotes `text`.
pub fn write_string_literal(text: &str) -> (out: String)
    ensures
        out@ == string_literal(text@),
{
    let n = text.unicode_len();
    let mut out = String::from_str("\"");
    let mut i: usize = 0;
    assert(escaped(text@.take(0)) =~= Seq::<char>::empty());
    assert("\""@ + Seq::<char>::empty() =~= "\""@);
    while i < n
        invariant
            i <= n,
            n == text@.len(),
            out@ == "\""@ + escaped(text@.take(i as int)),
        decreases n - i,
    {
        let c = text.get_char(i);
        proof {
            assert(text@.take(i as int + 1).drop_last() =~= text@.take(i as int));
            assert(text@.take(i as int + 1).last() == c);
        }
        let ghost before = out@;
        if c == '"' {
            out.append("\\\"");
        } else if c == '\\' {
            out.append("\\\\");
        } else if c == '\n' {
            out.append("\\n");
        } else if c == '\r' {
            out.append("\\r");
        } else if c == '\t' {
            out.append("\\t");
        } else {
            assert(text@.subrange(i as int, i as int + 1) =~= seq![c]);
            out.append(text.substring_char(i, i + 1));
        }
        assert(out@ =~= "\""@ + escaped(text@.take(i as int + 1)));
        i += 1;
    }
    assert(text@.take(n as int) =~= text@);
    out.append("\"");
    out
}

/// `#[doc = "<doc>"]`
pub open spec fn doc_attribute(doc: Seq<char>) -> Tokens {
    seq![
        sign("#"@),
        tok(TokenKind::OpenBracket, "["@),
        word("doc"@),
        sign("="@),
        tok(TokenKind::Literal, string_literal(doc)),
        tok(TokenKind::CloseBracket, "]"@),
    ]
}

/// `(&self)` or `(&mut self)`
pub open spec fn receiver(kind: AccessorKind) -> Tokens {
    match kind {
        AccessorKind::AsMut => seq![open_paren(), sign("&"@), word("mut"@), word("self"@), close_paren()],
        _ => seq![open_paren(), sign("&"@), word("self"@), close_paren()],
    }
}

/// `bool`, `Option<&T>` or `Option<&mut T>`
pub open spec fn return_type(kind: AccessorKind, payload: Tokens) -> Tokens {
    match kind {
        AccessorKind::Is => seq![word("bool"@)],
        AccessorKind::As => seq![word("Option"@), sign("<"@), sign("&"@)] + payload + seq![
            sign(">"@),
        ],
        AccessorKind::AsMut => seq![word("Option"@), sign("<"@), sign("&"@), word("mut"@)]
            + payload + seq![sign(">"@)],
    }
}

/// `{ matches!(self, Union::Variant(_)) }` for the predicate,
/// `{ if let Union::Variant(contents) = self { Some(contents) } else { None } }`
/// for the casts.
pub open spec fn accessor_body(kind: AccessorKind, union: Seq<char>, variant: Seq<char>) -> Tokens {
    match kind {
        AccessorKind::Is => seq![
            open_brace(),
            word("matches"@),
            sign("!"@),
            open_paren(),
            word("self"@),
            sign(","@),
        ] + case_path(union, variant) + seq![
            open_paren(),
            word("_"@),
            close_paren(),
            close_paren(),
            close_brace(),
        ],
        _ => seq![open_brace(), word("if"@), word("let"@)] + case_path(union, variant) + seq![
            open_paren(),
            word("contents"@),
            close_paren(),
            sign("="@),
            word("self"@),
            open_brace(),
            word("Some"@),
            open_paren(),
            word("contents"@),
            close_paren(),
            close_brace(),
        ] + seq![word("else"@), open_brace(), word("None"@), close_brace(), close_brace()],
    }
}

/// One accessor method, with its documentation.
pub open spec fn accessor_tokens(a: AccessorModel, union: Seq<char>, case: CaseModel) -> Tokens {
    doc_attribute(a.doc) + seq![word("pub"@), word("fn"@), word(a.name)] + receiver(a.kind)
        + seq![joint("-"@), sign(">"@)] + return_type(a.kind, case.payload) + accessor_body(
        a.kind,
        union,
        case.name,
    )
}

/// `impl From<T> for Union { fn from(inner: T) -> Self { Self::Variant(inner) } }`
pub open spec fn conversion_tokens(c: ConversionModel, union: Seq<char>, case: CaseModel) -> Tokens {
    seq![word("impl"@), word("From"@), sign("<"@)] + c.source + seq![
        sign(">"@),
        word("for"@),
        word(union),
        open_brace(),
        word("fn"@),
        word("from"@),
        open_paren(),
        word("inner"@),
        sign(":"@),
    ] + c.source + seq![close_paren(), joint("-"@), sign(">"@), word("Self"@), open_brace()]
        + case_path("Self"@, case.name) + seq![
        open_paren(),
        word("inner"@),
        close_paren(),
        close_brace(),
        close_brace(),
    ]
}

/// One case: its annotations, its name and its payload type in parentheses.
pub open spec fn case_tokens(c: CaseModel) -> Tokens {
    flatten(c.attributes) + seq![word(c.name), open_paren()] + c.payload + seq![close_paren()]
}

/// The cases in order, with a comma between one and the next.
pub open spec fn cases_tokens(cases: Seq<CaseModel>) -> Tokens
    decreases cases.len(),
{
    if cases.len() == 0 {
        Seq::empty()
    } else if cases.len() == 1 {
        case_tokens(cases[0])
    } else {
        cases_tokens(cases.drop_last()) + seq![sign(","@)] + case_tokens(cases.last())
    }
}

/// The first `n` accessors in order.
pub open spec fn accessors_tokens(d: DeclarationModel, n: int) -> Tokens
    decreases n,
{
    if n <= 0 {
        Seq::empty()
    } else {
        accessors_tokens(d, n - 1) + accessor_tokens(
            d.accessors[n - 1],
            d.name,
            d.cases[d.accessors[n - 1].case],
        )
    }
}

/// The first `n` conversions in order.
pub open spec fn conversions_tokens(d: DeclarationModel, n: int) -> Tokens
    decreases n,
{
    if n <= 0 {
        Seq::empty()
    } else {
        conversions_tokens(d, n - 1) + conversion_tokens(
            d.conversions[n - 1],
            d.name,
            d.cases[d.conversions[n - 1].case],
        )
    }
}

/// All declarations: the union type, one block with all accessors, then the
/// conversions.
pub open spec fn tokens_of(d: DeclarationModel) -> Tokens {
    flatten(d.attributes) + d.visibility + seq![word("enum"@), word(d.name), open_brace()]
        + cases_tokens(d.cases) + seq![close_brace(), word("impl"@), word(d.name), open_brace()]
        + accessors_tokens(d, d.accessors.len() as int) + seq![close_brace()] + conversions_tokens(
        d,
        d.conversions.len() as int,
    )
}

fn put(out: &mut Vec<Token>, kind: TokenKind, text: &str)
    ensures
        final(out).deep_view() == old(out).deep_view().push(tok(kind, text@)),
{
    push_token(out, Token::new(kind, text));
}

fn put_word(out: &mut Vec<Token>, text: &str)
    ensures
        final(out).deep_view() == old(out).deep_view().push(word(text@)),
{
    put(out, TokenKind::Ident, text);
}

fn put_sign(out: &mut Vec<Token>, text: &str)
    ensures
        final(out).deep_view() == old(out).deep_view().push(sign(text@)),
{
    put(out, TokenKind::Punct, text);
}

fn put_all(out: &mut Vec<Token>, tokens: &Vec<Token>)
    ensures
        final(out).deep_view() == old(out).deep_view() + tokens.deep_view(),
{
    let mut i: usize = 0;
    while i < tokens.len()
        invariant
            i <= tokens.len(),
            out.deep_view() =~= old(out).deep_view() + tokens.deep_view().take(i as int),
        decreases tokens.len() - i,
    {
        push_token(out, tokens[i].duplicate());
        i += 1;
    }
    assert(tokens.deep_view().take(tokens.len() as int) =~= tokens.deep_view());
}

fn put_groups(out: &mut Vec<Token>, groups: &Vec<Vec<Token>>)
    ensures
        final(out).deep_view() == old(out).deep_view() + flatten(groups.deep_view()),
{
    let ghost all = groups.deep_view();
    let mut i: usize = 0;
    assert(flatten(all.take(0)) =~= Seq::<TokenView>::empty());
    while i < groups.len()
        invariant
            i <= groups.len(),
            all == groups.deep_view(),
            out.deep_view() =~= old(out).deep_view() + flatten(all.take(i as int)),
        decreases groups.len() - i,
    {
        proof {
            assert(all.take(i as int + 1).drop_last() =~= all.take(i as int));
            assert(all.take(i as int + 1).last() == groups[i as int].deep_view());
        }
        put_all(out, &groups[i]);
        i += 1;
    }
    assert(all.take(groups.len() as int) =~= all);
}

fn put_case_path(out: &mut Vec<Token>, union: &str, variant: &str)
    ensures
        final(out).deep_view() == old(out).deep_view() + case_path(union@, variant@),
{
    put_word(out, union);
    put(out, TokenKind::JointPunct, ":");
    put_sign(out, ":");
    put_word(out, variant);
    assert(out.deep_view() =~= old(out).deep_view() + case_path(union@, variant@));
}

fn put_arrow(out: &mut Vec<Token>)
    ensures
        final(out).deep_view() == old(out).deep_view() + seq![joint("-"@), sign(">"@)],
{
    put(out, TokenKind::JointPunct, "-");
    put_sign(out, ">");
    assert(out.deep_view() =~= old(out).deep_view() + seq![joint("-"@), sign(">"@)]);
}

fn put_doc_attribute(out: &mut Vec<Token>, doc: &str)
    ensures
        final(out).deep_view() == old(out).deep_view() + doc_attribute(doc@),
{
    put_sign(out, "#");
    put(out, TokenKind::OpenBracket, "[");
    put_word(out, "doc");
    put_sign(out, "=");
    let quoted = write_string_literal(doc);
    put(out, TokenKind::Literal, quoted.as_str());
    put(out, TokenKind::CloseBracket, "]");
    assert(out.deep_view() =~= old(out).deep_view() + doc_attribute(doc@));
}

fn put_receiver(out: &mut Vec<Token>, kind: AccessorKind)
    ensures
        final(out).deep_view() == old(out).deep_view() + receiver(kind),
{
    put(out, TokenKind::OpenParen, "(");
    put_sign(out, "&");
    if kind == AccessorKind::AsMut {
        put_word(out, "mut");
    }
    put_word(out, "self");
    put(out, TokenKind::CloseParen, ")");
    assert(out.deep_view() =~= old(out).deep_view() + receiver(kind));
}

fn put_return_type(out: &mut Vec<Token>, kind: AccessorKind, payload: &Vec<Token>)
    ensures
        final(out).deep_view() == old(out).deep_view() + return_type(kind, payload.deep_view()),
{
    match kind {
        AccessorKind::Is => {
            put_word(out, "bool");
        },
        AccessorKind::As => {
            put_word(out, "Option");
            put_sign(out, "<");
            put_sign(out, "&");
            put_all(out, payload);
            put_sign(out, ">");
        },
        AccessorKind::AsMut => {
            put_word(out, "Option");
            put_sign(out, "<");
            put_sign(out, "&");
            put_word(out, "mut");
            put_all(out, payload);
            put_sign(out, ">");
        },
    }
    assert(out.deep_view() =~= old(out).deep_view() + return_type(kind, payload.deep_view()));
}

fn put_accessor_body(out: &mut Vec<Token>, kind: AccessorKind, union: &str, variant: &str)
    ensures
        final(out).deep_view() == old(out).deep_view() + accessor_body(kind, union@, variant@),
{
    if kind == AccessorKind::Is {
        put(out, TokenKind::OpenBrace, "{");
        put_word(out, "matches");
        put_sign(out, "!");
        put(out, TokenKind::OpenParen, "(");
        put_word(out, "self");
        put_sign(out, ",");
        put_case_path(out, union, variant);
        put(out, TokenKind::OpenParen, "(");
        put_word(out, "_");
        put(out, TokenKind::CloseParen, ")");
        put(out, TokenKind::CloseParen, ")");
        put(out, TokenKind::CloseBrace, "}");
    } else {
        put(out, TokenKind::OpenBrace, "{");
        put_word(out, "if");
        put_word(out, "let");
        put_case_path(out, union, variant);
        put(out, TokenKind::OpenParen, "(");
        put_word(out, "contents");
        put(out, TokenKind::CloseParen, ")");
        put_sign(out, "=");
        put_word(out, "self");
        put(out, TokenKind::OpenBrace, "{");
        put_word(out, "Some");
        put(out, TokenKind::OpenParen, "(");
        put_word(out, "contents");
        put(out, TokenKind::CloseParen, ")");
        put(out, TokenKind::CloseBrace, "}");
        put_word(out, "else");
        put(out, TokenKind::OpenBrace, "{");
        put_word(out, "None");
        put(out, TokenKind::CloseBrace, "}");
        put(out, TokenKind::CloseBrace, "}");
    }
    assert(out.deep_view() =~= old(out).deep_view() + accessor_body(kind, union@, variant@));
}

fn put_accessor(out: &mut Vec<Token>, a: &Accessor, union: &str, case: &Case)
    ensures
        final(out).deep_view() == old(out).deep_view() + accessor_tokens(a@, union@, case@),
{
    put_doc_attribute(out, a.doc.as_str());
    put_word(out, "pub");
    put_word(out, "fn");
    put_word(out, a.name.as_str());
    put_receiver(out, a.kind);
    put_arrow(out);
    put_return_type(out, a.kind, &case.payload);
    put_accessor_body(out, a.kind, union, case.name.as_str());
    assert(out.deep_view() =~= old(out).deep_view() + accessor_tokens(a@, union@, case@));
}

fn put_conversion(out: &mut Vec<Token>, c: &Conversion, union: &str, case: &Case)
    ensures
        final(out).deep_view() == old(out).deep_view() + conversion_tokens(c@, union@, case@),
{
    put_word(out, "impl");
    put_word(out, "From");
    put_sign(out, "<");
    put_all(out, &c.source);
    put_sign(out, ">");
    put_word(out, "for");
    put_word(out, union);
    put(out, TokenKind::OpenBrace, "{");
    put_word(out, "fn");
    put_word(out, "from");
    put(out, TokenKind::OpenParen, "(");
    put_word(out, "inner");
    put_sign(out, ":");
    put_all(out, &c.source);
    put(out, TokenKind::CloseParen, ")");
    put_arrow(out);
    put_word(out, "Self");
    put(out, TokenKind::OpenBrace, "{");
    put_case_path(out, "Self", case.name.as_str());
    put(out, TokenKind::OpenParen, "(");
    put_word(out, "inner");
    put(out, TokenKind::CloseParen, ")");
    put(out, TokenKind::CloseBrace, "}");
    put(out, TokenKind::CloseBrace, "}");
    assert(out.deep_view() =~= old(out).deep_view() + conversion_tokens(c@, union@, case@));
}

fn put_case(out: &mut Vec<Token>, case: &Case)
    ensures
        final(out).deep_view() == old(out).deep_view() + case_tokens(case@),
{
    put_groups(out, &case.attributes);
    put_word(out, case.name.as_str());
    put(out, TokenKind::OpenParen, "(");
    put_all(out, &case.payload);
    put(out, TokenKind::CloseParen, ")");
    assert(out.deep_view() =~= old(out).deep_view() + case_tokens(case@));
}

fn put_cases(out: &mut Vec<Token>, cases: &Vec<Case>)
    ensures
        final(out).deep_view() == old(out).deep_view() + cases_tokens(cases.deep_view()),
{
    let ghost all = cases.deep_view();
    let mut i: usize = 0;
    assert(cases_tokens(all.take(0)) =~= Seq::<TokenView>::empty());
    while i < cases.len()
        invariant
            i <= cases.len(),
            all == cases.deep_view(),
            out.deep_view() =~= old(out).deep_view() + cases_tokens(all.take(i as int)),
        decreases cases.len() - i,
    {
        proof {
            assert(all.take(i as int + 1).drop_last() =~= all.take(i as int));
            assert(all.take(i as int + 1).last() == cases[i as int]@);
            assert(all.take(i as int + 1)[0] == all[0]);
        }
        if i > 0 {
            put_sign(out, ",");
        }
        put_case(out, &cases[i]);
        i += 1;
    }
    assert(all.take(cases.len() as int) =~= all);
}

impl DeclarationSet {
    /// Writes the declarations out as tokens.
    pub fn to_tokens(&self) -> (out: Vec<Token>)
        requires
            self@.well_formed(),
        ensures
            out.deep_view() == tokens_of(self@),
    {
        let ghost d = self@;
        let mut out: Vec<Token> = Vec::new();
        let union = self.name.as_str();
        put_groups(&mut out, &self.attributes);
        put_all(&mut out, &self.visibility);
        put_word(&mut out, "enum");
        put_word(&mut out, union);
        put(&mut out, TokenKind::OpenBrace, "{");
        put_cases(&mut out, &self.cases);
        put(&mut out, TokenKind::CloseBrace, "}");
        put_word(&mut out, "impl");
        put_word(&mut out, union);
        put(&mut out, TokenKind::OpenBrace, "{");
        let ghost head = out.deep_view();
        assert(head =~= flatten(d.attributes) + d.visibility + seq![
            word("enum"@),
            word(d.name),
            open_brace(),
        ] + cases_tokens(d.cases) + seq![close_brace(), word("impl"@), word(d.name), open_brace()]);
        let mut j: usize = 0;
        while j < self.accessors.len()
            invariant
                j <= self.accessors.len(),
                d == self@,
                d.well_formed(),
                union@ == d.name,
                out.deep_view() =~= head + accessors_tokens(d, j as int),
            decreases self.accessors.len() - j,
        {
            let a = &self.accessors[j];
            assert(d.accessors[j as int] == a@);
            let case = &self.cases[a.case];
            assert(d.cases[a.case as int] == case@);
            put_accessor(&mut out, a, union, case);
            j += 1;
        }
        put(&mut out, TokenKind::CloseBrace, "}");
        let ghost middle = out.deep_view();
        let mut i: usize = 0;
        while i < self.conversions.len()
            invariant
                i <= self.conversions.len(),
                d == self@,
                d.well_formed(),
                union@ == d.name,
                out.deep_view() =~= middle + conversions_tokens(d, i as int),
            decreases self.conversions.len() - i,
        {
            let c = &self.conversions[i];
            assert(d.conversions[i as int] == c@);
            let case = &self.cases[c.case];
            assert(d.cases[c.case as int] == case@);
            put_conversion(&mut out, c, union, case);
            i += 1;
        }
        assert(out.deep_view() =~= tokens_of(d));
        out
    }
}

/// Whether `r` is what reading, generating and writing out give for `t`
/// under the answers `a`: the declarations of the union that `t` declares,
/// or the failure of reading, with nothing written.
pub open spec fn unites_as(t: Tokens, a: AnswersModel, r: Result<Vec<Token>, SyntaxError>) -> bool {
    match r {
        Ok(out) => match declaration_of(t, a) {
            Ok(u) => out.deep_view() == tokens_of(declarations_of(u)),
            Err(_) => false,
        },
        Err(e) => declaration_of(t, a) == Err::<UnionModel, _>(e@),
    }
}

/// From a declaration in tokens to its declarations in tokens, given the
/// answers about its pieces: reads the declaration, generates, and writes
/// out. Nothing is written where the declaration cannot be read.
pub fn unite_given(input: &Vec<Token>, answers: &Answers) -> (r: Result<Vec<Token>, SyntaxError>)
    ensures
        unites_as(input.deep_view(), answers@, r),
{
    match parse_given(input, answers) {
        Ok(u) => Ok(generate(&u).to_tokens()),
        Err(e) => Err(e),
    }
}

/// From a declaration in tokens to its declarations in tokens: asks about the
/// pieces of the declaration, then reads, generates and writes out. Whatever
/// the answers are, the result is what they give; and a declaration that
/// begins with neither an annotation, a visibility qualifier nor `enum` is
/// refused at its first token.
pub fn unite(input: &Vec<Token>) -> (r: Result<Vec<Token>, SyntaxError>)
    ensures
        exists|a: AnswersModel| #[trigger] unites_as(input.deep_view(), a, r),
        starts_wrong(input.deep_view()) ==> r == Err::<Vec<Token>, _>(
            SyntaxError { kind: SyntaxErrorKind::ExpectedEnum, position: 0 },
        ),
{
    let answers = ask(input);
    let r = unite_given(input, &answers);
    proof {
        assert(unites_as(input.deep_view(), answers@, r));
        if starts_wrong(input.deep_view()) {
            law_missing_enum(input.deep_view(), answers@);
        }
    }
    r
}

} // verus!
