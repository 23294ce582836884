//! Flat token sequences: the form in which declarations come in and go out.

use vstd::prelude::*;

verus! {

/// What a token is. A delimited group is written flat, as its opening token,
/// its contents and its closing token.
#[derive(Clone, Copy, Debug, PartialEq, Eq, Structural)]
pub enum TokenKind {
    Ident,
    Literal,
    /// A punctuation character followed by something else than punctuation.
    Punct,
    /// A punctuation character that forms one operator with the next one.
    JointPunct,
    OpenParen,
    CloseParen,
    OpenBracket,
    CloseBracket,
    OpenBrace,
    CloseBrace,
}

/// One token: its kind and its text as written in source.
#[derive(Clone, Debug, PartialEq, Eq)]
pub struct Token {
    pub kind: TokenKind,
    pub text: String,
}

/// The mathematical value of a [`Token`].
pub struct TokenView {
    pub kind: TokenKind,
    pub text: Seq<char>,
}

impl View for Token {
    type V = TokenView;

    open spec fn view(&self) -> TokenView {
        TokenView { kind: self.kind, text: self.text@ }
    }
}

impl DeepView for Token {
    type V = TokenView;

    open spec fn deep_view(&self) -> TokenView {
        self@
    }
}

/// A sequence of tokens, as values.
pub type Tokens = Seq<TokenView>;

impl TokenKind {
    pub open spec fn is_open(self) -> bool {
        self == TokenKind::OpenParen || self == TokenKind::OpenBracket || self
            == TokenKind::OpenBrace
    }

    pub open spec fn is_close(self) -> bool {
        self == TokenKind::CloseParen || self == TokenKind::CloseBracket || self
            == TokenKind::CloseBrace
    }

    pub open spec fn is_punct(self) -> bool {
        self == TokenKind::Punct || self == TokenKind::JointPunct
    }
}

impl TokenView {
    pub open spec fn is_ident(self, word: Seq<char>) -> bool {
        self.kind == TokenKind::Ident && self.text == word
    }

    pub open spec fn is_punct(self, sign: Seq<char>) -> bool {
        self.kind.is_punct() && self.text == sign
    }
}

impl Token {
    /// A token of the given kind and text.
    pub fn new(kind: TokenKind, text: &str) -> (t: Token)
        ensures
            t@ == (TokenView { kind, text: text@ }),
    {
        Token { kind, text: String::from_str(text) }
    }

    /// An identifier token.
    pub fn ident(text: &str) -> (t: Token)
        ensures
            t@ == (TokenView { kind: TokenKind::Ident, text: text@ }),
    {
        Token::new(TokenKind::Ident, text)
    }

    /// A punctuation token that stands alone.
    pub fn punct(text: &str) -> (t: Token)
        ensures
            t@ == (TokenView { kind: TokenKind::Punct, text: text@ }),
    {
        Token::new(TokenKind::Punct, text)
    }

    /// A copy of this token with the same value.
    pub fn duplicate(&self) -> (t: Token)
        ensures
            t@ == self@,
    {
        Token { kind: self.kind, text: self.text.clone() }
    }

    /// Whether this is the identifier `word`.
    pub fn is_ident(&self, word: &str) -> (b: bool)
        ensures
            b == self@.is_ident(word@),
    {
        let w = String::from_str(word);
        self.kind == TokenKind::Ident && self.text == w
    }

    /// Whether this is the punctuation `sign`, joint or alone.
    pub fn is_punct(&self, sign: &str) -> (b: bool)
        ensures
            b == self@.is_punct(sign@),
    {
        let w = String::from_str(sign);
        (self.kind == TokenKind::Punct || self.kind == TokenKind::JointPunct) && self.text == w
    }
}

/// A token of the given kind and text.
pub open spec fn tok(kind: TokenKind, text: Seq<char>) -> TokenView {
    TokenView { kind, text }
}

/// An identifier.
pub open spec fn word(text: Seq<char>) -> TokenView {
    tok(TokenKind::Ident, text)
}

/// A punctuation character that stands alone.
pub open spec fn sign(text: Seq<char>) -> TokenView {
    tok(TokenKind::Punct, text)
}

/// A punctuation character joined to the next.
pub open spec fn joint(text: Seq<char>) -> TokenView {
    tok(TokenKind::JointPunct, text)
}

pub open spec fn open_paren() -> TokenView {
    tok(TokenKind::OpenParen, "("@)
}

pub open spec fn close_paren() -> TokenView {
    tok(TokenKind::CloseParen, ")"@)
}

pub open spec fn open_brace() -> TokenView {
    tok(TokenKind::OpenBrace, "{"@)
}

pub open spec fn close_brace() -> TokenView {
    tok(TokenKind::CloseBrace, "}"@)
}

/// Whether a character parts words in source text or may begin a comment.
pub open spec fn breaks_word(c: char) -> bool {
    c == ' ' || c == '\t' || c == '\n' || c == '\r' || c == '/' || c == '\u{b}' || c == '\u{c}'
        || c == '\u{85}' || c == '\u{200e}' || c == '\u{200f}' || c == '\u{2028}' || c
        == '\u{2029}'
}

/// Whether a text is one word: it holds nothing that parts words.
pub open spec fn one_word(text: Seq<char>) -> bool {
    forall|i: int| 0 <= i < text.len() ==> !breaks_word(#[trigger] text[i])
}

/// Whether a text is one word.
pub fn is_one_word(text: &str) -> (b: bool)
    ensures
        b == one_word(text@),
{
    let n = text.unicode_len();
    let mut i: usize = 0;
    while i < n
        invariant
            i <= n,
            n == text@.len(),
            forall|k: int| 0 <= k < i ==> !breaks_word(#[trigger] text@[k]),
        decreases n - i,
    {
        let c = text.get_char(i);
        if c == ' ' || c == '\t' || c == '\n' || c == '\r' || c == '/' || c == '\u{b}' || c
            == '\u{c}' || c == '\u{85}' || c == '\u{200e}' || c == '\u{200f}' || c == '\u{2028}'
            || c == '\u{2029}' {
            return false;
        }
        i += 1;
    }
    true
}

/// The text a token contributes when a sequence is written out: its own text,
/// followed by a space unless it is joined to the next token.
pub open spec fn piece(t: TokenView) -> Seq<char> {
    if t.kind == TokenKind::JointPunct {
        t.text
    } else {
        t.text + seq![' ']
    }
}

/// The source text of a token sequence.
pub open spec fn source_text(ts: Tokens) -> Seq<char>
    decreases ts.len(),
{
    if ts.len() == 0 {
        Seq::empty()
    } else {
        source_text(ts.drop_last()) + piece(ts.last())
    }
}

/// Token sequences one after the other.
pub open spec fn flatten(groups: Seq<Tokens>) -> Tokens
    decreases groups.len(),
{
    if groups.len() == 0 {
        Seq::empty()
    } else {
        flatten(groups.drop_last()) + groups.last()
    }
}

/// Writes `tokens[from..to]` out as source text.
pub fn write_source(tokens: &Vec<Token>, from: usize, to: usize) -> (out: String)
    requires
        from <= to <= tokens.len(),
    ensures
        out@ == source_text(tokens.deep_view().subrange(from as int, to as int)),
{
    let mut out = String::new();
    let mut i: usize = from;
    while i < to
        invariant
            from <= i <= to <= tokens.len(),
            out@ == source_text(tokens.deep_view().subrange(from as int, i as int)),
        decreases to - i,
    {
        let ghost before = tokens.deep_view().subrange(from as int, i as int);
        let ghost after = tokens.deep_view().subrange(from as int, i as int + 1);
        proof {
            assert(after.drop_last() =~= before);
            assert(after.last() == tokens[i as int]@);
        }
        out.append(tokens[i].text.as_str());
        if tokens[i].kind != TokenKind::JointPunct {
            proof {
                reveal_strlit(" ");
                assert(" "@ =~= seq![' ']);
            }
            out.append(" ");
        }
        i += 1;
    }
    out
}

/// Appends one token.
pub fn push_token(out: &mut Vec<Token>, t: Token)
    ensures
        final(out).deep_view() == old(out).deep_view().push(t@),
{
    out.push(t);
    assert(out.deep_view() =~= old(out).deep_view().push(t@));
}

/// Copies `tokens[from..to]`.
pub fn copy_range(tokens: &Vec<Token>, from: usize, to: usize) -> (out: Vec<Token>)
    requires
        from <= to <= tokens.len(),
    ensures
        out.deep_view() == tokens.deep_view().subrange(from as int, to as int),
{
    let mut out: Vec<Token> = Vec::new();
    let mut i: usize = from;
    while i < to
        invariant
            from <= i <= to <= tokens.len(),
            out.deep_view() =~= tokens.deep_view().subrange(from as int, i as int),
        decreases to - i,
    {
        push_token(&mut out, tokens[i].duplicate());
        i += 1;
    }
    out
}

/// Copies a token sequence.
pub fn copy_whole(tokens: &Vec<Token>) -> (out: Vec<Token>)
    ensures
        out.deep_view() == tokens.deep_view(),
{
    let out = copy_range(tokens, 0, tokens.len());
    assert(tokens.deep_view().subrange(0, tokens.len() as int) =~= tokens.deep_view());
    out
}

} // verus!
