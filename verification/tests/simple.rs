use unite::generate::{generate, DeclarationSet};
use unite::parse::parse;
use unite::token::{Token, TokenKind};
use unite::value::UnionValue;

#[derive(Debug, Clone, Copy, PartialEq, Eq)]
struct Foo(i32);

#[derive(Debug, Clone, Copy, PartialEq, Eq)]
struct Bar(bool);

#[derive(Debug, Clone, Copy, PartialEq, Eq)]
enum Payload {
    Foo(Foo),
    Bar(Bar),
    Void(()),
}

const SOURCE: &str = "
    /// Test enum.
    enum Test {
        Foo,
        Baz = Bar,
        Void = (),
    }
";

fn flatten(stream: proc_macro2::TokenStream, out: &mut Vec<Token>) {
    for tree in stream {
        match tree {
            proc_macro2::TokenTree::Group(group) => {
                let (open, close) = match group.delimiter() {
                    proc_macro2::Delimiter::Parenthesis => (
                        Some(Token::new(TokenKind::OpenParen, "(")),
                        Some(Token::new(TokenKind::CloseParen, ")")),
                    ),
                    proc_macro2::Delimiter::Bracket => (
                        Some(Token::new(TokenKind::OpenBracket, "[")),
                        Some(Token::new(TokenKind::CloseBracket, "]")),
                    ),
                    proc_macro2::Delimiter::Brace => (
                        Some(Token::new(TokenKind::OpenBrace, "{")),
                        Some(Token::new(TokenKind::CloseBrace, "}")),
                    ),
                    proc_macro2::Delimiter::None => (None, None),
                };
                out.extend(open);
                flatten(group.stream(), out);
                out.extend(close);
            }
            proc_macro2::TokenTree::Ident(ident) => {
                out.push(Token::new(TokenKind::Ident, &ident.to_string()))
            }
            proc_macro2::TokenTree::Punct(punct) => {
                let kind = match punct.spacing() {
                    proc_macro2::Spacing::Joint => TokenKind::JointPunct,
                    proc_macro2::Spacing::Alone => TokenKind::Punct,
                };
                out.push(Token::new(kind, &punct.as_char().to_string()))
            }
            proc_macro2::TokenTree::Literal(literal) => {
                out.push(Token::new(TokenKind::Literal, &literal.to_string()))
            }
        }
    }
}

fn lex(source: &str) -> Vec<Token> {
    let stream: proc_macro2::TokenStream = source.parse().unwrap();
    let mut out = Vec::new();
    flatten(stream, &mut out);
    out
}

fn declarations(source: &str) -> DeclarationSet {
    generate(&parse(&lex(source)).unwrap())
}

/// A value built in the case named `case`.
fn value<T>(d: &DeclarationSet, case: &str, payload: T) -> UnionValue<T> {
    UnionValue { case: d.find_case(case).unwrap(), payload }
}

fn is<T>(d: &DeclarationSet, name: &str, v: &UnionValue<T>) -> bool {
    d.accessors[d.find_accessor(name).unwrap()].check(v)
}

fn cast<'a, T>(d: &DeclarationSet, name: &str, v: &'a UnionValue<T>) -> Option<&'a T> {
    d.accessors[d.find_accessor(name).unwrap()].get(v)
}

fn cast_mut<'a, T>(d: &DeclarationSet, name: &str, v: &'a mut UnionValue<T>) -> Option<&'a mut T> {
    d.accessors[d.find_accessor(name).unwrap()].get_mut(v)
}

#[test]
fn checks() {
    let d = declarations(SOURCE);
    let foo = value(&d, "Foo", Payload::Foo(Foo(0)));
    let baz = value(&d, "Baz", Payload::Bar(Bar(true)));
    let void = value(&d, "Void", Payload::Void(()));

    assert_eq!(is(&d, "is_foo", &foo), true);
    assert_eq!(is(&d, "is_baz", &foo), false);
    assert_eq!(is(&d, "is_baz", &foo), false);

    assert_eq!(is(&d, "is_foo", &baz), false);
    assert_eq!(is(&d, "is_baz", &baz), true);
    assert_eq!(is(&d, "is_void", &baz), false);

    assert_eq!(is(&d, "is_foo", &void), false);
    assert_eq!(is(&d, "is_baz", &void), false);
    assert_eq!(is(&d, "is_void", &void), true);
}

#[test]
fn casting() {
    let d = declarations(SOURCE);
    let foo = value(&d, "Foo", Payload::Foo(Foo(0)));
    let baz = value(&d, "Baz", Payload::Bar(Bar(true)));
    let void = value(&d, "Void", Payload::Void(()));

    assert_eq!(cast(&d, "as_foo", &foo), Some(&Payload::Foo(Foo(0))));
    assert_eq!(cast(&d, "as_baz", &foo), None);
    assert_eq!(cast(&d, "as_void", &foo), None);

    assert_eq!(cast(&d, "as_foo", &baz), None);
    assert_eq!(cast(&d, "as_baz", &baz), Some(&Payload::Bar(Bar(true))));
    assert_eq!(cast(&d, "as_void", &baz), None);

    assert_eq!(cast(&d, "as_foo", &void), None);
    assert_eq!(cast(&d, "as_baz", &void), None);
    assert_eq!(cast(&d, "as_void", &void), Some(&Payload::Void(())));
}

#[test]
fn casting_mutably() {
    let d = declarations(SOURCE);
    let mut foo = value(&d, "Foo", Payload::Foo(Foo(0)));
    assert_eq!(cast_mut(&d, "as_baz_mut", &mut foo), None);
    assert_eq!(cast_mut(&d, "as_void_mut", &mut foo), None);
    *cast_mut(&d, "as_foo_mut", &mut foo).unwrap() = Payload::Foo(Foo(5));
    assert_eq!(cast(&d, "as_foo", &foo), Some(&Payload::Foo(Foo(5))));
    assert_eq!(is(&d, "is_foo", &foo), true);
}

#[test]
fn set_writes_only_into_the_matching_case() {
    let d = declarations(SOURCE);
    let mut baz = value(&d, "Baz", Payload::Bar(Bar(true)));
    let as_foo_mut = &d.accessors[d.find_accessor("as_foo_mut").unwrap()];
    let as_baz_mut = &d.accessors[d.find_accessor("as_baz_mut").unwrap()];
    assert_eq!(as_foo_mut.set(&mut baz, Payload::Foo(Foo(1))), false);
    assert_eq!(baz.payload, Payload::Bar(Bar(true)));
    assert_eq!(as_baz_mut.set(&mut baz, Payload::Bar(Bar(false))), true);
    assert_eq!(cast(&d, "as_baz", &baz), Some(&Payload::Bar(Bar(false))));
}

#[derive(Debug, Clone, Copy, PartialEq, Eq)]
struct Rect(u32, u32);

#[test]
fn shape_union() {
    let d = declarations("enum Shape { Circle, Square = Rect, Empty = () }");
    assert_eq!(d.cases[0].payload, vec![Token::ident("Circle")]);
    assert_eq!(d.cases[1].payload, vec![Token::ident("Rect")]);
    let square = d.find_case("Square").unwrap();
    assert_eq!(d.conversions[square].source, vec![Token::ident("Rect")]);
    let mut shape = d.conversions[square].wrap(Rect(2, 3));

    assert_eq!(is(&d, "is_circle", &shape), false);
    assert_eq!(is(&d, "is_square", &shape), true);
    assert_eq!(cast(&d, "as_square", &shape), Some(&Rect(2, 3)));
    assert_eq!(cast(&d, "as_empty", &shape), None);
    let inner = cast_mut(&d, "as_square_mut", &mut shape).unwrap();
    inner.0 = 7;
    assert_eq!(cast(&d, "as_square", &shape), Some(&Rect(7, 3)));
}

#[test]
fn conversion_makes_exactly_one_predicate_true() {
    let d = declarations(SOURCE);
    for v in 0..d.conversions.len() {
        let value = d.conversions[v].wrap(());
        for i in 0..d.cases.len() {
            assert_eq!(d.accessors[3 * i].check(&value), i == v);
            assert_eq!(d.accessors[3 * i + 1].get(&value).is_some(), i == v);
        }
    }
}

#[test]
fn unknown_names_are_not_found() {
    let d = declarations(SOURCE);
    assert_eq!(d.find_accessor("is_bar"), None);
    assert_eq!(d.find_case("Bar"), None);
    assert_eq!(d.find_accessor("as_baz_mut"), Some(5));
    assert_eq!(d.find_case("Void"), Some(2));
}
