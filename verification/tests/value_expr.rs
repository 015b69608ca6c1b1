use roto::ast::IpAddress;
use roto::parser::reader::Parser;
use roto::parser::token::{Expectation, LiteralKind, ParseErrorKind, Token};
use roto::parser::value::parse_value_expr;
use roto::syntax::{
    AccessExpr, AccessReceiver, LiteralExpr, PrefixMatchType, Span, Spanned, ValueExpr,
};

fn sp(start: usize) -> Span {
    Span { file: 0, start, end: start + 1 }
}

fn end() -> Span {
    Span { file: 0, start: 100, end: 100 }
}

fn toks(ts: Vec<Token>) -> Vec<(Token, Span)> {
    ts.into_iter().enumerate().map(|(i, t)| (t, sp(i))).collect()
}

fn s(x: &str) -> String {
    x.to_string()
}

fn parse(ts: Vec<Token>) -> Result<Spanned<ValueExpr>, roto::parser::token::ParseError> {
    parse_value_expr(toks(ts), end())
}

fn literal_of(v: &Spanned<ValueExpr>) -> &LiteralExpr {
    match &v.inner {
        ValueExpr::LiteralAccessExpr(l) => &l.inner.literal.inner,
        other => panic!("not a literal: {:?}", other),
    }
}

#[test]
fn integer_literal() {
    let v = parse(vec![Token::Integer(s("42"))]).unwrap();
    assert!(matches!(literal_of(&v), LiteralExpr::IntegerLiteral(42)));
    assert_eq!(v.span, sp(0));
}

#[test]
fn negative_integer_literal() {
    let v = parse(vec![Token::Integer(s("-9223372036854775808"))]).unwrap();
    assert!(matches!(literal_of(&v), LiteralExpr::IntegerLiteral(i64::MIN)));
}

#[test]
fn integer_too_large_is_invalid() {
    let e = parse(vec![Token::Integer(s("9223372036854775808"))]).unwrap_err();
    assert!(matches!(e.kind, ParseErrorKind::InvalidLiteral { kind: LiteralKind::Integer, .. }));
    assert_eq!(e.location, sp(0));
}

#[test]
fn hex_literal() {
    let v = parse(vec![Token::Hex(s("0xFF"))]).unwrap();
    assert!(matches!(literal_of(&v), LiteralExpr::HexLiteral(255)));
}

#[test]
fn hex_literal_without_digits_is_invalid() {
    let e = parse(vec![Token::Hex(s("0x"))]).unwrap_err();
    assert!(matches!(e.kind, ParseErrorKind::InvalidLiteral { kind: LiteralKind::HexInteger, .. }));
}

#[test]
fn asn_literal() {
    let v = parse(vec![Token::Asn(s("AS65000"))]).unwrap();
    assert!(matches!(literal_of(&v), LiteralExpr::AsnLiteral(65000)));
}

#[test]
fn asn_too_large_is_invalid() {
    let e = parse(vec![Token::Asn(s("AS4294967296"))]).unwrap_err();
    assert!(matches!(e.kind, ParseErrorKind::InvalidLiteral { kind: LiteralKind::AsNumber, .. }));
}

#[test]
fn string_literal_loses_its_quotes() {
    let v = parse(vec![Token::String(s("\"hello\""))]).unwrap();
    match literal_of(&v) {
        LiteralExpr::StringLiteral(x) => assert_eq!(x, "hello"),
        other => panic!("{:?}", other),
    }
}

#[test]
fn boolean_literal() {
    let v = parse(vec![Token::Bool(true)]).unwrap();
    assert!(matches!(literal_of(&v), LiteralExpr::BooleanLiteral(true)));
}

#[test]
fn standard_community_literal() {
    let v = parse(vec![Token::Community(s("65000:100"))]).unwrap();
    match literal_of(&v) {
        LiteralExpr::StandardCommunityLiteral(c) => assert_eq!(c.0, (65000u32 << 16) | 100),
        other => panic!("{:?}", other),
    }
}

#[test]
fn hexadecimal_community_parts_are_read() {
    let v = parse(vec![Token::Community(s("0x10:0x20"))]).unwrap();
    match literal_of(&v) {
        LiteralExpr::StandardCommunityLiteral(c) => assert_eq!(c.0, (16u32 << 16) | 32),
        other => panic!("{:?}", other),
    }
}

#[test]
fn large_community_literal() {
    let v = parse(vec![Token::Community(s("1:2:3"))]).unwrap();
    match literal_of(&v) {
        LiteralExpr::LargeCommunityLiteral(c) => {
            assert_eq!((c.global, c.local1, c.local2), (1, 2, 3))
        }
        other => panic!("{:?}", other),
    }
}

#[test]
fn bad_hex_community_part_is_invalid() {
    let e = parse(vec![Token::Community(s("0xZZ:1"))]).unwrap_err();
    assert!(matches!(e.kind, ParseErrorKind::InvalidLiteral { kind: LiteralKind::Community, .. }));
}

#[test]
fn ipv4_address_literal() {
    let v = parse(vec![Token::IpV4(s("192.0.2.1"))]).unwrap();
    match literal_of(&v) {
        LiteralExpr::IpAddressLiteral(IpAddress::Ipv4(o)) => assert_eq!(*o, [192, 0, 2, 1]),
        other => panic!("{:?}", other),
    }
}

#[test]
fn ipv4_octet_too_large_is_invalid() {
    let e = parse(vec![Token::IpV4(s("300.0.0.1"))]).unwrap_err();
    assert!(matches!(e.kind, ParseErrorKind::InvalidLiteral { kind: LiteralKind::Ipv4Address, .. }));
}

#[test]
fn ipv6_address_literal() {
    let v = parse(vec![Token::IpV6(s("2001:db8::1"))]).unwrap();
    match literal_of(&v) {
        LiteralExpr::IpAddressLiteral(IpAddress::Ipv6(g)) => {
            assert_eq!(*g, [0x2001, 0xdb8, 0, 0, 0, 0, 0, 1])
        }
        other => panic!("{:?}", other),
    }
}

#[test]
fn ipv6_with_embedded_ipv4() {
    let v = parse(vec![Token::IpV6(s("::ffff:192.0.2.1"))]).unwrap();
    match literal_of(&v) {
        LiteralExpr::IpAddressLiteral(IpAddress::Ipv6(g)) => {
            assert_eq!(*g, [0, 0, 0, 0, 0, 0xffff, 0xc000, 0x0201])
        }
        other => panic!("{:?}", other),
    }
}

#[test]
fn ipv6_with_two_gaps_is_invalid() {
    let e = parse(vec![Token::IpV6(s("1::2::3"))]).unwrap_err();
    assert!(matches!(e.kind, ParseErrorKind::InvalidLiteral { kind: LiteralKind::Ipv6Address, .. }));
}

#[test]
fn prefix_literal() {
    let v = parse(vec![Token::IpV4(s("10.0.0.0")), Token::PrefixLength(s("/8"))]).unwrap();
    match literal_of(&v) {
        LiteralExpr::PrefixLiteral(p) => {
            assert!(matches!(p.addr.inner, IpAddress::Ipv4([10, 0, 0, 0])));
            assert_eq!(p.len.inner.0, 8);
        }
        other => panic!("{:?}", other),
    }
    assert_eq!(v.span, Span { file: 0, start: 0, end: 2 });
}

#[test]
fn prefix_length_literal() {
    let v = parse(vec![Token::PrefixLength(s("/24"))]).unwrap();
    assert!(matches!(literal_of(&v), LiteralExpr::PrefixLengthLiteral(24)));
}

#[test]
fn prefix_length_too_large_is_invalid() {
    let e = parse(vec![Token::PrefixLength(s("/256"))]).unwrap_err();
    assert!(matches!(e.kind, ParseErrorKind::InvalidLiteral { kind: LiteralKind::PrefixLength, .. }));
}

#[test]
fn prefix_match_longer() {
    let v = parse(vec![
        Token::IpV4(s("192.0.2.0")),
        Token::PrefixLength(s("/24")),
        Token::Longer,
    ])
    .unwrap();
    match &v.inner {
        ValueExpr::PrefixMatchExpr(m) => {
            assert!(matches!(m.ty, PrefixMatchType::Longer));
            assert_eq!(m.prefix.len.inner.0, 24);
        }
        other => panic!("{:?}", other),
    }
}

#[test]
fn prefix_match_length_range() {
    let v = parse(vec![
        Token::IpV4(s("0.0.0.0")),
        Token::PrefixLength(s("/0")),
        Token::PrefixLengthRange,
        Token::PrefixLength(s("/12")),
        Token::Hyphen,
        Token::PrefixLength(s("/16")),
    ])
    .unwrap();
    match &v.inner {
        ValueExpr::PrefixMatchExpr(m) => match m.ty {
            PrefixMatchType::PrefixLengthRange(r) => {
                assert_eq!((r.start.0, r.end.0), (12, 16))
            }
            ref other => panic!("{:?}", other),
        },
        other => panic!("{:?}", other),
    }
}

#[test]
fn prefix_match_netmask() {
    let v = parse(vec![
        Token::IpV4(s("10.0.0.0")),
        Token::PrefixLength(s("/8")),
        Token::NetMask,
        Token::IpV4(s("255.0.0.0")),
    ])
    .unwrap();
    match &v.inner {
        ValueExpr::PrefixMatchExpr(m) => {
            assert!(matches!(m.ty, PrefixMatchType::NetMask(IpAddress::Ipv4([255, 0, 0, 0]))))
        }
        other => panic!("{:?}", other),
    }
}

#[test]
fn list_with_trailing_comma() {
    let v = parse(vec![
        Token::SquareLeft,
        Token::Integer(s("1")),
        Token::Comma,
        Token::Integer(s("2")),
        Token::Comma,
        Token::SquareRight,
    ])
    .unwrap();
    match &v.inner {
        ValueExpr::ListExpr(l) => {
            assert_eq!(l.values.inner.len(), 2);
            assert!(matches!(literal_of(&l.values.inner[1]), LiteralExpr::IntegerLiteral(2)));
            assert_eq!(l.values.span, Span { file: 0, start: 0, end: 6 });
        }
        other => panic!("{:?}", other),
    }
}

#[test]
fn empty_list() {
    let v = parse(vec![Token::SquareLeft, Token::SquareRight]).unwrap();
    match &v.inner {
        ValueExpr::ListExpr(l) => assert!(l.values.inner.is_empty()),
        other => panic!("{:?}", other),
    }
}

#[test]
fn list_without_separator_is_an_error() {
    let e = parse(vec![
        Token::SquareLeft,
        Token::Integer(s("1")),
        Token::Integer(s("2")),
        Token::SquareRight,
    ])
    .unwrap_err();
    match e.kind {
        ParseErrorKind::Expected { expected: Expectation::Token(Token::SquareRight), got } => {
            assert!(matches!(got, Token::Integer(_)))
        }
        other => panic!("{:?}", other),
    }
    assert_eq!(e.location, sp(2));
}

#[test]
fn anonymous_record() {
    let v = parse(vec![
        Token::CurlyLeft,
        Token::Ident(s("a")),
        Token::Colon,
        Token::Integer(s("1")),
        Token::Comma,
        Token::Ident(s("b")),
        Token::Colon,
        Token::String(s("\"x\"")),
        Token::CurlyRight,
    ])
    .unwrap();
    match &v.inner {
        ValueExpr::AnonymousRecordExpr(r) => {
            let fields = &r.key_values.inner;
            assert_eq!(fields.len(), 2);
            assert_eq!(fields[0].0.inner.0, "a");
            assert_eq!(fields[1].0.inner.0, "b");
        }
        other => panic!("{:?}", other),
    }
}

#[test]
fn typed_record() {
    let v = parse(vec![
        Token::Ident(s("Msg")),
        Token::CurlyLeft,
        Token::Ident(s("asn")),
        Token::Colon,
        Token::Asn(s("AS1")),
        Token::CurlyRight,
    ])
    .unwrap();
    match &v.inner {
        ValueExpr::TypedRecordExpr(r) => {
            assert_eq!(r.inner.type_id.inner.ident, "Msg");
            assert_eq!(r.inner.key_values.inner.len(), 1);
            assert_eq!(r.span, Span { file: 0, start: 0, end: 6 });
        }
        other => panic!("{:?}", other),
    }
}

#[test]
fn record_field_without_colon_is_an_error() {
    let e = parse(vec![
        Token::CurlyLeft,
        Token::Ident(s("a")),
        Token::Integer(s("1")),
        Token::CurlyRight,
    ])
    .unwrap_err();
    assert!(matches!(
        e.kind,
        ParseErrorKind::Expected { expected: Expectation::Token(Token::Colon), .. }
    ));
}

#[test]
fn root_method_call() {
    let v = parse(vec![
        Token::Ident(s("f")),
        Token::RoundLeft,
        Token::Integer(s("1")),
        Token::RoundRight,
    ])
    .unwrap();
    match &v.inner {
        ValueExpr::RootMethodCallExpr(m) => {
            assert_eq!(m.ident.inner.0, "f");
            assert_eq!(m.args.args.inner.len(), 1);
        }
        other => panic!("{:?}", other),
    }
}

#[test]
fn access_chain_joins_field_names() {
    // a.b.c.d(2).e
    let v = parse(vec![
        Token::Ident(s("a")),
        Token::Period,
        Token::Ident(s("b")),
        Token::Period,
        Token::Ident(s("c")),
        Token::Period,
        Token::Ident(s("d")),
        Token::RoundLeft,
        Token::Integer(s("2")),
        Token::RoundRight,
        Token::Period,
        Token::Ident(s("e")),
    ])
    .unwrap();
    match &v.inner {
        ValueExpr::ComputeExpr(c) => {
            assert!(matches!(&c.inner.receiver, AccessReceiver::Ident(id) if id.inner.0 == "a"));
            let acc = &c.inner.access_expr;
            assert_eq!(acc.len(), 3);
            match &acc[0].inner {
                AccessExpr::FieldAccessExpr(f) => {
                    let names: Vec<&str> =
                        f.field_names.iter().map(|n| n.inner.0.as_str()).collect();
                    assert_eq!(names, vec!["b", "c"]);
                }
                other => panic!("{:?}", other),
            }
            assert_eq!(acc[0].span, Span { file: 0, start: 2, end: 5 });
            assert!(matches!(&acc[1].inner, AccessExpr::MethodComputeExpr(m) if m.ident.inner.0 == "d"));
            assert!(matches!(&acc[2].inner, AccessExpr::FieldAccessExpr(f) if f.field_names.len() == 1));
            assert_eq!(v.span, Span { file: 0, start: 0, end: 12 });
        }
        other => panic!("{:?}", other),
    }
}

#[test]
fn literal_with_method_call() {
    let v = parse(vec![
        Token::Asn(s("AS1")),
        Token::Period,
        Token::Ident(s("f")),
        Token::RoundLeft,
        Token::RoundRight,
    ])
    .unwrap();
    match &v.inner {
        ValueExpr::LiteralAccessExpr(l) => {
            assert_eq!(l.inner.access_expr.len(), 1);
            assert_eq!(v.span, Span { file: 0, start: 0, end: 5 });
        }
        other => panic!("{:?}", other),
    }
}

#[test]
fn no_tokens_is_end_of_input() {
    let e = parse(vec![]).unwrap_err();
    assert!(matches!(e.kind, ParseErrorKind::EndOfInput));
    assert_eq!(e.location, end());
}

#[test]
fn unclosed_list_is_end_of_input() {
    let e = parse(vec![Token::SquareLeft, Token::Integer(s("1"))]).unwrap_err();
    assert!(matches!(e.kind, ParseErrorKind::EndOfInput));
}

#[test]
fn punctuation_is_not_a_literal() {
    let e = parse(vec![Token::Colon]).unwrap_err();
    assert!(matches!(
        e.kind,
        ParseErrorKind::Expected { expected: Expectation::Literal, got: Token::Colon }
    ));
}

#[test]
fn float_tokens_are_not_read() {
    let e = parse(vec![Token::Float]).unwrap_err();
    assert!(matches!(e.kind, ParseErrorKind::Unsupported { token: Token::Float }));
    assert_eq!(e.location, sp(0));
}

#[test]
fn a_float_after_the_expression_is_left_alone() {
    let v = parse(vec![Token::Integer(s("1")), Token::Float]).unwrap();
    assert!(matches!(literal_of(&v), LiteralExpr::IntegerLiteral(1)));
}

#[test]
fn string_tokens_too_short_to_trim_are_not_read() {
    let e = parse(vec![Token::String(s("x"))]).unwrap_err();
    assert!(matches!(e.kind, ParseErrorKind::Unsupported { .. }));
}

#[test]
fn unquoted_string_tokens_lose_their_ends() {
    let v = parse(vec![Token::String(s("abcd"))]).unwrap();
    assert!(matches!(literal_of(&v), LiteralExpr::StringLiteral(x) if x == "bc"));
}

#[test]
fn ipv6_extended_communities_are_not_read() {
    let e = parse(vec![Token::Community(s("0x0000000000000000000000000000000000000000"))]).unwrap_err();
    assert!(matches!(e.kind, ParseErrorKind::InvalidLiteral { kind: LiteralKind::Community, .. }));
}

#[test]
fn bad_prefix_length_consumes_its_token() {
    let mut p = Parser::new(
        toks(vec![Token::PrefixLength(s("/999")), Token::Integer(s("7"))]),
        end(),
    );
    assert!(p.prefix_length().is_err());
    assert!(matches!(literal_of(&p.value_expr().unwrap()), LiteralExpr::IntegerLiteral(7)));
}

#[test]
fn parser_reads_several_values_in_turn() {
    let mut p = Parser::new(
        toks(vec![Token::Integer(s("1")), Token::Bool(false)]),
        end(),
    );
    assert!(matches!(literal_of(&p.value_expr().unwrap()), LiteralExpr::IntegerLiteral(1)));
    assert!(matches!(literal_of(&p.value_expr().unwrap()), LiteralExpr::BooleanLiteral(false)));
    assert!(matches!(p.value_expr().unwrap_err().kind, ParseErrorKind::EndOfInput));
}
