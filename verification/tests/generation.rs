use unite::emit::{unite, unite_given, write_string_literal};
use unite::parse::ask;
use unite::generate::{
    generate, make_accessor, make_accessor_doc, make_accessor_name, AccessorKind,
};
use unite::model::{UnionSpec, VariantSpec};
use unite::parse::parse;
use unite::token::{write_source, Token, TokenKind};

fn flatten(stream: proc_macro2::TokenStream, out: &mut Vec<Token>) {
    for tree in stream {
        match tree {
            proc_macro2::TokenTree::Group(group) => {
                let (open, close) = match group.delimiter() {
                    proc_macro2::Delimiter::Parenthesis => (
                        Some(Token::new(TokenKind::OpenParen, "(")),
                        Some(Token::new(TokenKind::CloseParen, ")")),
                    ),
                    proc_macro2::Delimiter::Bracket => (
                        Some(Token::new(TokenKind::OpenBracket, "[")),
                        Some(Token::new(TokenKind::CloseBracket, "]")),
                    ),
                    proc_macro2::Delimiter::Brace => (
                        Some(Token::new(TokenKind::OpenBrace, "{")),
                        Some(Token::new(TokenKind::CloseBrace, "}")),
                    ),
                    proc_macro2::Delimiter::None => (None, None),
                };
                out.extend(open);
                flatten(group.stream(), out);
                out.extend(close);
            }
            proc_macro2::TokenTree::Ident(ident) => {
                out.push(Token::new(TokenKind::Ident, &ident.to_string()))
            }
            proc_macro2::TokenTree::Punct(punct) => {
                let kind = match punct.spacing() {
                    proc_macro2::Spacing::Joint => TokenKind::JointPunct,
                    proc_macro2::Spacing::Alone => TokenKind::Punct,
                };
                out.push(Token::new(kind, &punct.as_char().to_string()))
            }
            proc_macro2::TokenTree::Literal(literal) => {
                out.push(Token::new(TokenKind::Literal, &literal.to_string()))
            }
        }
    }
}

fn lex(source: &str) -> Vec<Token> {
    let stream: proc_macro2::TokenStream = source.parse().unwrap();
    let mut out = Vec::new();
    flatten(stream, &mut out);
    out
}

fn variant(name: &str, payload_type: Option<Vec<Token>>) -> VariantSpec {
    VariantSpec { attributes: vec![], name: name.to_string(), payload_type }
}

fn union(name: &str, variants: Vec<VariantSpec>) -> UnionSpec {
    UnionSpec { attributes: vec![], visibility: vec![], name: name.to_string(), variants }
}

/// The texts of the tokens, without regard to how operators are joined.
fn texts(tokens: &[Token]) -> Vec<String> {
    tokens.iter().map(|t| t.text.clone()).collect()
}

#[test]
fn counts() {
    for n in 0..5 {
        let variants = (0..n).map(|i| variant(&format!("V{}", i), None)).collect();
        let d = generate(&union("U", variants));
        assert_eq!(d.cases.len(), n);
        assert_eq!(d.accessors.len(), 3 * n);
        assert_eq!(d.conversions.len(), n);
    }
}

#[test]
fn empty_union_generates() {
    let d = generate(&parse(&lex("enum Empty {}")).unwrap());
    assert_eq!(d.name, "Empty");
    assert!(d.cases.is_empty());
    assert!(d.accessors.is_empty());
    assert!(d.conversions.is_empty());
    let out = unite(&lex("enum Empty {}")).unwrap();
    assert_eq!(texts(&out), texts(&lex("enum Empty {} impl Empty {}")));
}

#[test]
fn cases_keep_the_order_of_the_variants() {
    let d = generate(&parse(&lex("enum Order { Foo, Bar, Baz }")).unwrap());
    let names: Vec<&str> = d.cases.iter().map(|c| c.name.as_str()).collect();
    assert_eq!(names, vec!["Foo", "Bar", "Baz"]);
    let targets: Vec<usize> = d.conversions.iter().map(|c| c.case).collect();
    assert_eq!(targets, vec![0, 1, 2]);
}

#[test]
fn accessors_come_in_threes() {
    let d = generate(&union("U", vec![variant("A", None), variant("B", Some(lex("i32")))]));
    let kinds: Vec<AccessorKind> = d.accessors.iter().map(|a| a.kind).collect();
    assert_eq!(
        kinds,
        vec![
            AccessorKind::Is,
            AccessorKind::As,
            AccessorKind::AsMut,
            AccessorKind::Is,
            AccessorKind::As,
            AccessorKind::AsMut
        ]
    );
    let names: Vec<&str> = d.accessors.iter().map(|a| a.name.as_str()).collect();
    assert_eq!(names, vec!["is_a", "as_a", "as_a_mut", "is_b", "as_b", "as_b_mut"]);
    let cases: Vec<usize> = d.accessors.iter().map(|a| a.case).collect();
    assert_eq!(cases, vec![0, 0, 0, 1, 1, 1]);
}

#[test]
fn payload_defaults_to_the_name() {
    let v = variant("Foo", None);
    assert_eq!(v.resolved_type(), vec![Token::ident("Foo")]);
    let w = variant("Foo", Some(lex("Vec<u8>")));
    assert_eq!(w.resolved_type(), lex("Vec<u8>"));
    let d = generate(&union("U", vec![v, w]));
    assert_eq!(d.cases[0].payload, vec![Token::ident("Foo")]);
    assert_eq!(d.cases[1].payload, lex("Vec<u8>"));
    assert_eq!(d.conversions[0].source, vec![Token::ident("Foo")]);
    assert_eq!(d.conversions[1].source, lex("Vec<u8>"));
}

#[test]
fn duplicate_variants_pass_through() {
    let d = generate(&parse(&lex("enum Twice { A, A = i32, B = i32 }")).unwrap());
    assert_eq!(d.cases.len(), 3);
    assert_eq!(d.accessors.len(), 9);
    assert_eq!(d.conversions.len(), 3);
    assert_eq!(d.find_case("A"), Some(0));
    assert_eq!(d.find_accessor("is_a"), Some(0));
    assert_eq!(d.accessors[3].name, "is_a");
}

#[test]
fn accessor_names() {
    assert_eq!(make_accessor_name(AccessorKind::Is, "foo"), "is_foo");
    assert_eq!(make_accessor_name(AccessorKind::As, "foo"), "as_foo");
    assert_eq!(make_accessor_name(AccessorKind::AsMut, "foo"), "as_foo_mut");
    assert_eq!(make_accessor_name(AccessorKind::AsMut, ""), "as__mut");
}

#[test]
fn snake_case_tokens() {
    let name = |variant: &str| make_accessor(AccessorKind::Is, "U", variant, 0).name;
    assert_eq!(name("Foo"), "is_foo");
    assert_eq!(name("HTTPServer"), "is_http_server");
    assert_eq!(name("XMLHttpRequest"), "is_xml_http_request");
    assert_eq!(name("CamelCase"), "is_camel_case");
    assert_eq!(name("already_lower"), "is_already_lower");
    assert_eq!(name("FieldNamE11"), "is_field_nam_e11");
    assert_eq!(name("99Bottles"), "is_99bottles");
    assert_eq!(name("abc123Def456"), "is_abc123_def456");
    assert_eq!(name("ABC123def456"), "is_abc123def456");
    assert_eq!(make_accessor(AccessorKind::AsMut, "U", "HTTPServer", 4).name, "as_http_server_mut");
    assert_eq!(make_accessor(AccessorKind::As, "U", "HTTPServer", 4).case, 4);
}

#[test]
fn accessor_docs() {
    assert_eq!(
        make_accessor_doc(AccessorKind::Is, "Test", "Foo"),
        "Checks whether this [`Test`] is a [`Foo`](Test::Foo)."
    );
    assert_eq!(
        make_accessor_doc(AccessorKind::As, "Test", "Foo"),
        "Attempts to cast this [`Test`] to a reference to the underlying [`Foo`](Test::Foo)."
    );
    assert_eq!(
        make_accessor_doc(AccessorKind::AsMut, "Test", "Foo"),
        "Attempts to cast this [`Test`] to a mutable reference to the underlying [`Foo`](Test::Foo)."
    );
    let d = generate(&union("Test", vec![variant("Foo", None)]));
    assert_eq!(d.accessors[0].doc, "Checks whether this [`Test`] is a [`Foo`](Test::Foo).");
}

const EXPECTED: &str = r#"
    #[doc = " Shapes."]
    pub enum Shape {
        Circle(Circle),
        #[allow(dead_code)]
        Square(Vec<Rect>)
    }

    impl Shape {
        #[doc = "Checks whether this [`Shape`] is a [`Circle`](Shape::Circle)."]
        pub fn is_circle(&self) -> bool {
            matches!(self, Shape::Circle(_))
        }
        #[doc = "Attempts to cast this [`Shape`] to a reference to the underlying [`Circle`](Shape::Circle)."]
        pub fn as_circle(&self) -> Option<&Circle> {
            if let Shape::Circle(contents) = self { Some(contents) } else { None }
        }
        #[doc = "Attempts to cast this [`Shape`] to a mutable reference to the underlying [`Circle`](Shape::Circle)."]
        pub fn as_circle_mut(&mut self) -> Option<&mut Circle> {
            if let Shape::Circle(contents) = self { Some(contents) } else { None }
        }
        #[doc = "Checks whether this [`Shape`] is a [`Square`](Shape::Square)."]
        pub fn is_square(&self) -> bool {
            matches!(self, Shape::Square(_))
        }
        #[doc = "Attempts to cast this [`Shape`] to a reference to the underlying [`Square`](Shape::Square)."]
        pub fn as_square(&self) -> Option<&Vec<Rect>> {
            if let Shape::Square(contents) = self { Some(contents) } else { None }
        }
        #[doc = "Attempts to cast this [`Shape`] to a mutable reference to the underlying [`Square`](Shape::Square)."]
        pub fn as_square_mut(&mut self) -> Option<&mut Vec<Rect>> {
            if let Shape::Square(contents) = self { Some(contents) } else { None }
        }
    }

    impl From<Circle> for Shape {
        fn from(inner: Circle) -> Self { Self::Circle(inner) }
    }
    impl From<Vec<Rect>> for Shape {
        fn from(inner: Vec<Rect>) -> Self { Self::Square(inner) }
    }
"#;

const SHAPES: &str =
    "/// Shapes.\npub enum Shape { Circle, #[allow(dead_code)] Square = Vec<Rect>, }";

#[test]
fn writes_the_declarations_out() {
    let out = unite(&lex(SHAPES)).unwrap();
    assert_eq!(texts(&out), texts(&lex(EXPECTED)));
    let d = generate(&parse(&lex(SHAPES)).unwrap());
    assert_eq!(d.to_tokens(), out);
}

#[test]
fn written_declarations_are_items() {
    let out = unite(&lex(SHAPES)).unwrap();
    let text = write_source(&out, 0, out.len());
    let file = syn::parse_str::<syn::File>(&text).unwrap();
    assert_eq!(file.items.len(), 4);
    match &file.items[0] {
        syn::Item::Enum(item) => {
            assert_eq!(item.ident.to_string(), "Shape");
            assert_eq!(item.attrs.len(), 1);
            let names: Vec<String> = item.variants.iter().map(|v| v.ident.to_string()).collect();
            assert_eq!(names, vec!["Circle", "Square"]);
            assert_eq!(item.variants[1].attrs.len(), 1);
        }
        _ => panic!("the first item is the union type"),
    }
    match &file.items[1] {
        syn::Item::Impl(item) => {
            assert!(item.trait_.is_none());
            assert_eq!(item.items.len(), 6);
        }
        _ => panic!("the second item holds the accessors"),
    }
    for item in &file.items[2..] {
        match item {
            syn::Item::Impl(item) => {
                assert!(item.trait_.is_some());
                assert_eq!(item.items.len(), 1);
            }
            _ => panic!("the other items are conversions"),
        }
    }
}

#[test]
fn string_literals_escape_what_would_end_or_break_them() {
    assert_eq!(write_string_literal("plain"), "\"plain\"");
    assert_eq!(write_string_literal(""), "\"\"");
    assert_eq!(write_string_literal("a\"b\\c\nd\re\tf"), "\"a\\\"b\\\\c\\nd\\re\\tf\"");
    for text in ["say \"hi\"", "back\\slash", "two\nlines", "tab\there", "\u{e9}t\u{e9} ` ' {}"] {
        let literal = syn::parse_str::<syn::LitStr>(&write_string_literal(text)).unwrap();
        assert_eq!(literal.value(), text);
    }
}

#[test]
fn documentation_is_written_as_a_valid_literal() {
    let mut d = generate(&union("U", vec![variant("A", None)]));
    d.accessors[0].doc = "a \"quoted\" \\ word".to_string();
    let out = d.to_tokens();
    let literal = out.iter().find(|t| t.kind == TokenKind::Literal).unwrap();
    assert_eq!(literal.text, "\"a \\\"quoted\\\" \\\\ word\"");
    let text = write_source(&out, 0, out.len());
    assert!(syn::parse_str::<syn::File>(&text).is_ok());
}

#[test]
fn uniting_follows_the_answers() {
    let tokens = lex(SHAPES);
    assert_eq!(unite_given(&tokens, &ask(&tokens)), unite(&tokens));
    let mut answers = ask(&tokens);
    answers.idents = vec![false; tokens.len()];
    assert!(unite_given(&tokens, &answers).is_err());
}

#[test]
fn arrows_and_paths_are_joined() {
    let out = unite(&lex("enum A { B }")).unwrap();
    let arrow = out.iter().position(|t| t.text == "-").unwrap();
    assert_eq!(out[arrow].kind, TokenKind::JointPunct);
    assert_eq!(out[arrow + 1], Token::punct(">"));
    let colon = out.iter().position(|t| t.text == ":").unwrap();
    assert_eq!(out[colon].kind, TokenKind::JointPunct);
    assert_eq!(out[colon + 1], Token::punct(":"));
}
