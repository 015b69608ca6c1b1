use roto::ast::{BinOp, Identifier, ReturnKind};
use roto::parser::community::rewrite_community;
use roto::parser::ipv6::read_ipv6;
use roto::parser::number::{read_i64, read_unsigned};
use roto::parser::split::{chars_of, read_ipv4};
use roto::syntax::Span;

#[test]
fn unsigned_numbers() {
    assert_eq!(read_unsigned("255", 10, 255), Some(255));
    assert_eq!(read_unsigned("256", 10, 255), None);
    assert_eq!(read_unsigned("+7", 10, 255), Some(7));
    assert_eq!(read_unsigned("", 10, 255), None);
    assert_eq!(read_unsigned("+", 10, 255), None);
    assert_eq!(read_unsigned("-1", 10, 255), None);
    assert_eq!(read_unsigned("ffFF", 16, u64::MAX), Some(0xffff));
    assert_eq!(read_unsigned("ffffffffffffffff", 16, u64::MAX), Some(u64::MAX));
    assert_eq!(read_unsigned("10000000000000000", 16, u64::MAX), None);
}

#[test]
fn signed_numbers() {
    assert_eq!(read_i64("-12"), Some(-12));
    assert_eq!(read_i64("9223372036854775807"), Some(i64::MAX));
    assert_eq!(read_i64("-9223372036854775809"), None);
    assert_eq!(read_i64("-"), None);
    assert_eq!(read_i64("1a"), None);
}

#[test]
fn ipv4_addresses() {
    assert_eq!(read_ipv4(&chars_of("0.0.0.0")), Some([0, 0, 0, 0]));
    assert_eq!(read_ipv4(&chars_of("1.2.3")), None);
    assert_eq!(read_ipv4(&chars_of("1.2.3.4.5")), None);
    assert_eq!(read_ipv4(&chars_of("01.2.3.4")), None);
}

#[test]
fn ipv6_addresses() {
    assert_eq!(read_ipv6(&chars_of("::")), Some([0; 8]));
    assert_eq!(read_ipv6(&chars_of("1:2:3:4:5:6:7:8")), Some([1, 2, 3, 4, 5, 6, 7, 8]));
    assert_eq!(read_ipv6(&chars_of("1:2:3:4:5:6:7")), None);
    assert_eq!(read_ipv6(&chars_of("12345::")), None);
}

#[test]
fn communities_with_hexadecimal_parts_are_rewritten_in_decimal() {
    assert_eq!(rewrite_community("0x10:0xff").unwrap(), "16:255");
    assert_eq!(rewrite_community("65000:100").unwrap(), "65000:100");
    assert_eq!(rewrite_community("0xg:1"), None);
}

#[test]
fn return_kinds_and_operators() {
    assert_eq!(ReturnKind::Accept.str(), "accept");
    assert_eq!(ReturnKind::Reject.str(), "reject");
    assert_eq!(BinOp::And.str(), "&&");
    assert_eq!(BinOp::Lt.str(), "<=");
    assert_eq!(BinOp::NotIn.str(), "not in");
}

#[test]
fn identifiers() {
    let a = Identifier("asn".to_string());
    assert!(a.is("asn"));
    assert!(!a.is("as"));
    assert!(a.same_name(&Identifier("asn".to_string())));
    assert_eq!(a.as_str(), "asn");
}

#[test]
fn merged_spans_cover_both() {
    let a = Span { file: 2, start: 5, end: 9 };
    let b = Span { file: 2, start: 1, end: 7 };
    assert_eq!(a.merge(b), Span { file: 2, start: 1, end: 9 });
}
