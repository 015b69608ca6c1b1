use roto::syntax::{Span, Spanned};
use roto::ast::Identifier;
use roto::syntax::TypeIdentifier;
use roto::types::typedef::{AcceptReject, CompileError, LazyRecordTypeDef, MethodProps, RecordTypeDef, Token, TypeDef, GlobalEnumTypeDef};
use roto::types::fields::FieldReader;

fn field(name: &str, ty: TypeDef) -> (String, Box<TypeDef>) {
    (name.to_string(), Box::new(ty))
}

#[test]
fn record_fields_are_sorted_by_name() {
    let rec = RecordTypeDef::new(vec![
        field("zeta", TypeDef::U8),
        field("alpha", TypeDef::Bool),
        field("mid", TypeDef::U32),
    ]);
    let names: Vec<&str> = rec.iter().iter().map(|(n, _)| n.as_str()).collect();
    assert_eq!(names, vec!["alpha", "mid", "zeta"]);
    assert_eq!(rec.level_0_len(), 3);
}

#[test]
fn same_names_in_another_order_give_equal_records() {
    let a = RecordTypeDef::new(vec![field("b", TypeDef::U8), field("a", TypeDef::U16)]);
    let b = RecordTypeDef::new(vec![field("a", TypeDef::U16), field("b", TypeDef::U8)]);
    assert!(a == b);
}

#[test]
fn record_equality_ignores_field_types() {
    let a = RecordTypeDef::new(vec![field("a", TypeDef::U8)]);
    let b = RecordTypeDef::new(vec![field("a", TypeDef::StringLiteral)]);
    assert!(a == b);
    let c = RecordTypeDef::new(vec![field("c", TypeDef::U8)]);
    assert!(!(a == c));
}

#[test]
fn recursive_len_counts_nested_fields() {
    let inner = RecordTypeDef::new(vec![field("x", TypeDef::U8), field("y", TypeDef::U8)]);
    let rec = RecordTypeDef::new(vec![field("a", TypeDef::Bool), field("n", TypeDef::Record(inner))]);
    assert_eq!(rec.recursive_len(), 3);
    assert_eq!(TypeDef::Record(rec).get_field_num(), 3);
}

#[test]
fn recursive_len_flattens_every_level() {
    let inner = RecordTypeDef::new(vec![field("c", TypeDef::U8), field("d", TypeDef::U8)]);
    let mid = RecordTypeDef::new(vec![field("e", TypeDef::U8), field("b", TypeDef::Record(inner))]);
    let rec = RecordTypeDef::new(vec![field("a", TypeDef::Record(mid))]);
    assert_eq!(rec.recursive_len(), 3);
}

#[test]
fn records_of_different_lengths_differ() {
    let a = RecordTypeDef::new(vec![field("x", TypeDef::U8)]);
    let b = RecordTypeDef::new(vec![field("x", TypeDef::U8), field("y", TypeDef::U8)]);
    assert!(!(a == b));
    assert!(!(b == a));
}

#[test]
fn field_num_of_other_types() {
    assert_eq!(TypeDef::U32.get_field_num(), 1);
    let rec = RecordTypeDef::new(vec![field("a", TypeDef::U8), field("b", TypeDef::U8)]);
    assert_eq!(TypeDef::List(Box::new(TypeDef::Record(rec))).get_field_num(), 2);
}

#[test]
fn index_for_field_name() {
    let rec = RecordTypeDef::new(vec![field("b", TypeDef::U8), field("a", TypeDef::U16)]);
    assert_eq!(rec.get_index_for_field_name(&"b".to_string()), Some(1));
    assert_eq!(rec.get_index_for_field_name(&"c".to_string()), None);
}

#[test]
fn get_field_of_record_and_output_stream() {
    let rec = RecordTypeDef::new(vec![field("asn", TypeDef::Asn), field("n", TypeDef::U8)]);
    let t = TypeDef::Record(rec);
    assert_eq!(t.get_field("asn"), Some(TypeDef::Asn));
    assert_eq!(t.get_field("nope"), None);
    let stream = TypeDef::OutputStream(Box::new(t));
    assert_eq!(stream.get_field("n"), Some(TypeDef::U8));
    assert_eq!(TypeDef::U8.get_field("n"), None);
}

#[test]
fn builtin_types() {
    assert!(TypeDef::U8.is_builtin());
    assert!(TypeDef::PrefixRoute.is_builtin());
    assert!(!TypeDef::List(Box::new(TypeDef::U8)).is_builtin());
    assert!(!TypeDef::Table(Box::new(TypeDef::U8)).is_builtin());
}

#[test]
fn new_record_type_sorts_its_fields() {
    let t = TypeDef::new_record_type(vec![("b", Box::new(TypeDef::U8)), ("a", Box::new(TypeDef::Bool))])
        .unwrap();
    match t {
        TypeDef::Record(r) => {
            let names: Vec<&str> = r.iter().iter().map(|(n, _)| n.as_str()).collect();
            assert_eq!(names, vec!["a", "b"]);
        }
        other => panic!("{:?}", other),
    }
}

#[test]
fn type_names() {
    let t = |n: &str| TypeDef::from_identifier(&Identifier(n.to_string()));
    assert_eq!(t("U32").unwrap(), TypeDef::U32);
    assert_eq!(t("String").unwrap(), TypeDef::StringLiteral);
    assert_eq!(t("RouteStatus").unwrap(), TypeDef::NlriStatus);
    assert_eq!(t("BmpMessage").unwrap(), TypeDef::GlobalEnum(GlobalEnumTypeDef::BmpMessageType));
    assert_eq!(t("BmpRouteMonitoringMessage").unwrap(), TypeDef::LazyRecord(LazyRecordTypeDef::RouteMonitoring));
    assert_eq!(t("BmpMessageType").unwrap(), TypeDef::ConstEnumVariant("BMP_MESSAGE_TYPE".to_string()));
    assert_eq!(t("PrefixRoute").unwrap(), TypeDef::PrefixRoute);
    assert_eq!(t("Nope").unwrap_err().message, "Undefined type: Nope");
}

#[test]
fn type_identifiers_name_routes_route() {
    let t = |n: &str| TypeDef::from_type_identifier(&TypeIdentifier { ident: n.to_string() });
    assert_eq!(t("Route").unwrap(), TypeDef::PrefixRoute);
    assert_eq!(t("PrefixRoute").unwrap_err().message, "Undefined type: PrefixRoute");
    assert_eq!(t("FlowSpecRoute").unwrap_err().message, "Undefined type: FlowSpecRoute");
    assert_eq!(t("Asn").unwrap(), TypeDef::Asn);
}

#[test]
fn type_texts() {
    assert_eq!(TypeDef::AfiSafi.describe(), "AFI SAFI");
    assert_eq!(TypeDef::Bool.describe(), "Boolean");
    assert_eq!(TypeDef::List(Box::new(TypeDef::U8)).describe(), "List of U8");
    assert_eq!(TypeDef::ConstEnumVariant("X".to_string()).describe(), "ConstU8EnumVariant('X')");
    assert_eq!(TypeDef::Rib((Box::new(TypeDef::Asn), None)).describe(), "Rib of Asn");
    assert_eq!(TypeDef::OutputStream(Box::new(TypeDef::Unknown)).describe(), "Output Stream of Unknown");
}

#[test]
fn record_texts() {
    let rec = RecordTypeDef::new(vec![field("b", TypeDef::U16), field("a", TypeDef::IpAddr)]);
    assert_eq!(rec.describe(), "{a: IpAddress, b: U16, }");
    assert_eq!(TypeDef::Record(rec).describe(), "Record {a: IpAddress, b: U16, }");
}

fn names(ns: &[&str]) -> Vec<Spanned<Identifier>> {
    ns.iter()
        .map(|n| Spanned { inner: Identifier(n.to_string()), span: Span { file: 0, start: 0, end: 0 } })
        .collect()
}

fn no_reader(_: FieldReader, id: &Identifier) -> Result<(TypeDef, Token), CompileError> {
    Err(CompileError { message: format!("no reader for '{}'", id.0) })
}

fn no_enum(_: GlobalEnumTypeDef, id: &Identifier) -> Result<(TypeDef, u8), CompileError> {
    Err(CompileError { message: format!("Cannot find global enum variant '{}'", id.0) })
}

/// Simulated fields: a route has a prefix at index 2, a route monitoring
/// message a per-peer header at index 1, which is a record.
fn reader(r: FieldReader, id: &Identifier) -> Result<(TypeDef, Token), CompileError> {
    match (r, id.0.as_str()) {
        (FieldReader::PrefixRoute, "prefix") => Ok((TypeDef::Prefix, Token::FieldAccess(vec![2]))),
        (FieldReader::Lazy(LazyRecordTypeDef::RouteMonitoring), "per_peer_header") => Ok((
            TypeDef::Record(RecordTypeDef::new(vec![field("asn", TypeDef::Asn), field("is_ipv4", TypeDef::Bool)])),
            Token::FieldAccess(vec![1]),
        )),
        _ => no_reader(r, id),
    }
}

fn path_of(tok: &Token) -> Option<Vec<u8>> {
    match tok {
        Token::FieldAccess(v) => Some(v.clone()),
        _ => None,
    }
}

#[test]
fn field_chains_through_records() {
    let inner = RecordTypeDef::new(vec![field("x", TypeDef::U8)]);
    let rec = TypeDef::Record(RecordTypeDef::new(vec![field("b", TypeDef::Asn), field("a", TypeDef::Record(inner))]));
    let (t, tok, found) = rec.has_fields_chain(&names(&["a", "x"]), no_reader, no_enum).unwrap();
    assert_eq!(t, TypeDef::U8);
    assert_eq!(path_of(&tok), Some(vec![0, 0]));
    assert_eq!(found, None);
    let table = TypeDef::Table(Box::new(rec));
    let (t, tok, _) = table.has_fields_chain(&names(&["b"]), no_reader, no_enum).unwrap();
    assert_eq!(t, TypeDef::Asn);
    assert_eq!(path_of(&tok), Some(vec![1]));
    assert_eq!(table.has_fields_chain(&names(&["c"]), no_reader, no_enum).unwrap_err().message, "No field named 'c'");
    assert_eq!(TypeDef::U8.has_fields_chain(&names(&["a"]), no_reader, no_enum).unwrap_err().message, "No field named 'a'");
}

#[test]
fn containers_resolve_chains_as_their_type() {
    let rec = || TypeDef::Record(RecordTypeDef::new(vec![field("b", TypeDef::Asn), field("a", TypeDef::U8)]));
    let plain = rec().has_fields_chain(&names(&["b"]), no_reader, no_enum).unwrap();
    let wrapped = [
        TypeDef::Table(Box::new(rec())),
        TypeDef::OutputStream(Box::new(rec())),
        TypeDef::Rib((Box::new(rec()), None)),
    ];
    for w in wrapped.iter() {
        let got = w.has_fields_chain(&names(&["b"]), no_reader, no_enum).unwrap();
        assert_eq!(got.0, plain.0);
        assert_eq!(path_of(&got.1), path_of(&plain.1));
    }
}

#[test]
fn chains_through_a_route_use_its_reader() {
    let rec = TypeDef::Record(RecordTypeDef::new(vec![field("route", TypeDef::PrefixRoute)]));
    let (t, tok, found) = rec.has_fields_chain(&names(&["route", "prefix"]), reader, no_enum).unwrap();
    assert_eq!(t, TypeDef::Prefix);
    assert_eq!(path_of(&tok), Some(vec![0, 2]));
    assert_eq!(found, None);
    let err = rec.has_fields_chain(&names(&["route", "nexthop"]), reader, no_enum).unwrap_err();
    assert_eq!(err.message, "no reader for 'nexthop'");
    let err = rec.has_fields_chain(&names(&["route", "prefix", "len"]), reader, no_enum).unwrap_err();
    assert_eq!(err.message, "No field named 'len'");
}

#[test]
fn chains_through_a_lazy_record_continue_in_what_it_reads() {
    let lazy = TypeDef::LazyRecord(LazyRecordTypeDef::RouteMonitoring);
    let (t, tok, _) = lazy.has_fields_chain(&names(&["per_peer_header"]), reader, no_enum).unwrap();
    assert!(matches!(t, TypeDef::Record(_)));
    assert_eq!(path_of(&tok), Some(vec![1]));
    let (t, tok, _) = lazy.has_fields_chain(&names(&["per_peer_header", "is_ipv4"]), reader, no_enum).unwrap();
    assert_eq!(t, TypeDef::Bool);
    assert_eq!(path_of(&tok), Some(vec![1, 1]));
}

#[test]
fn chains_into_a_global_enum_give_the_variant() {
    let variant = |_: GlobalEnumTypeDef, id: &Identifier| -> Result<(TypeDef, u8), CompileError> {
        if id.0 == "PEER_UP_NOTIFICATION" {
            Ok((TypeDef::ConstEnumVariant("BMP_MESSAGE_TYPE".to_string()), 3))
        } else {
            no_enum(GlobalEnumTypeDef::BmpMessageType, id)
        }
    };
    let e = TypeDef::GlobalEnum(GlobalEnumTypeDef::BmpMessageType);
    let (t, tok, found) = e.has_fields_chain(&names(&["PEER_UP_NOTIFICATION"]), no_reader, variant).unwrap();
    assert_eq!(t, TypeDef::ConstEnumVariant("BMP_MESSAGE_TYPE".to_string()));
    assert!(matches!(tok, Token::ConstEnumVariant));
    assert_eq!(found, Some(3));
    let err = e.has_fields_chain(&names(&["NO_SUCH"]), no_reader, variant).unwrap_err();
    assert_eq!(err.message, "Cannot find global enum variant 'NO_SUCH'");
}

#[test]
fn methods_come_from_the_type_tables_but_for_enums_and_verdicts() {
    let table = |t: &TypeDef, m: &Identifier| -> Result<MethodProps, CompileError> {
        if *t == TypeDef::U8 && m.0 == "set" {
            Ok(MethodProps::new(TypeDef::U8, 1, vec![TypeDef::U8]))
        } else {
            Err(CompileError { message: format!("no method '{}'", m.0) })
        }
    };
    let shown = |_: GlobalEnumTypeDef| "BMP_MESSAGE_TYPE".to_string();
    let set = Identifier("set".to_string());
    let props = TypeDef::U8.get_props_for_method(&set, table, shown).unwrap();
    assert_eq!(props.return_type, TypeDef::U8);
    assert!(matches!(props.method_token, Token::Method(1)));
    assert_eq!(TypeDef::U16.get_props_for_method(&set, table, shown).unwrap_err().message, "no method 'set'");
    let e = TypeDef::GlobalEnum(GlobalEnumTypeDef::BmpMessageType);
    assert_eq!(
        e.get_props_for_method(&set, table, shown).unwrap_err().message,
        "Requested method 'set', but Enum of BMP_MESSAGE_TYPE has no methods"
    );
    let verdict = TypeDef::AcceptReject(AcceptReject::Accept);
    assert_eq!(verdict.get_props_for_method(&set, table, shown).unwrap_err().message, "AcceptReject type has no methods");
}
