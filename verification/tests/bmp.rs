use roto::types::bmp_message::VariantField;
use roto::types::typedef::FieldIndex;
use roto::ast::Identifier;
use roto::types::bmp_message::{
    BmpMessage, BytesRecord, InitiationMessage, MessageType, PeerDownNotification,
    PeerUpNotification, RouteMonitoring, StatisticsReport, TerminationMessage, VmError,
};
use roto::types::typedef::{LazyRecordTypeDef, Token, TypeDef};

fn initiation() -> Vec<u8> {
    vec![3, 0, 0, 0, 10, 4, 0, 0, 0, 0]
}

fn termination() -> Vec<u8> {
    vec![3, 0, 0, 0, 6, 5]
}

#[test]
fn any_bmp_message_is_accepted() {
    let r = BytesRecord::<BmpMessage>::new(initiation()).unwrap();
    assert_eq!(r.msg_type(), MessageType::InitiationMessage);
    assert_eq!(r.as_bytes(), &initiation()[..]);
    assert_eq!(r.get_variant(), LazyRecordTypeDef::InitiationMessage);
    let t = BytesRecord::<BmpMessage>::new(termination()).unwrap();
    assert_eq!(t.get_variant(), LazyRecordTypeDef::TerminationMessage);
}

#[test]
fn refused_bytes_are_an_invalid_message_type_for_any_message() {
    assert_eq!(BytesRecord::<BmpMessage>::new(vec![2, 0, 0, 0, 6, 4]).unwrap_err(), VmError::InvalidMsgType);
    assert_eq!(BytesRecord::<BmpMessage>::new(vec![3, 0, 0, 0, 6, 9]).unwrap_err(), VmError::InvalidMsgType);
    assert_eq!(BytesRecord::<BmpMessage>::new(vec![3, 0]).unwrap_err(), VmError::InvalidMsgType);
}

#[test]
fn records_of_one_kind() {
    assert!(BytesRecord::<InitiationMessage>::new(initiation()).is_ok());
    assert!(BytesRecord::<TerminationMessage>::new(termination()).is_ok());
    assert_eq!(BytesRecord::<TerminationMessage>::new(initiation()).unwrap_err(), VmError::InvalidMsgType);
    assert_eq!(BytesRecord::<RouteMonitoring>::new(initiation()).unwrap_err(), VmError::InvalidMsgType);
    assert_eq!(BytesRecord::<PeerUpNotification>::new(termination()).unwrap_err(), VmError::InvalidMsgType);
}

#[test]
fn refused_bytes_are_an_invalid_payload_for_one_kind() {
    assert_eq!(BytesRecord::<RouteMonitoring>::new(vec![1, 2, 3]).unwrap_err(), VmError::InvalidPayload);
    assert_eq!(BytesRecord::<PeerDownNotification>::new(vec![]).unwrap_err(), VmError::InvalidPayload);
    assert_eq!(BytesRecord::<StatisticsReport>::new(vec![3, 0, 0, 0, 6, 1]).unwrap_err(), VmError::InvalidPayload);
    assert_eq!(BytesRecord::<InitiationMessage>::new(vec![3, 0, 0, 0, 9, 4, 0]).unwrap_err(), VmError::InvalidPayload);
}

#[test]
fn variants_by_name() {
    let p = |n: &str| BytesRecord::<BmpMessage>::get_props_for_variant(&Identifier(n.to_string()));
    let (ty, tok) = p("RouteMonitoring").unwrap();
    assert_eq!(ty, TypeDef::LazyRecord(LazyRecordTypeDef::RouteMonitoring));
    assert!(matches!(tok, Token::Variant(0)));
    assert!(matches!(p("StatisticsReport").unwrap().1, Token::Variant(1)));
    assert!(matches!(p("PeerDownNotification").unwrap().1, Token::Variant(2)));
    assert!(matches!(p("PeerUpNotification").unwrap().1, Token::Variant(3)));
    assert!(matches!(p("InitiationMessage").unwrap().1, Token::Variant(4)));
    assert!(matches!(p("TerminationMessage").unwrap().1, Token::Variant(5)));
    assert_eq!(p("RouteMirroring").unwrap_err().message, "No variant name RouteMirroring for BmpMessage");
}

#[test]
fn lazy_record_types_of_message_types() {
    assert_eq!(LazyRecordTypeDef::from_message_type(MessageType::PeerUpNotification), LazyRecordTypeDef::PeerUpNotification);
    assert_eq!(LazyRecordTypeDef::from_message_type(MessageType::StatisticsReport), LazyRecordTypeDef::StatisticsReport);
}

#[test]
fn fields_of_the_record_variant_are_read_lazily() {
    let r = BytesRecord::<BmpMessage>::new(initiation()).unwrap();
    let idx = FieldIndex(vec![0]);
    assert_eq!(
        r.get_field_index_for_variant(LazyRecordTypeDef::InitiationMessage, &idx).unwrap(),
        VariantField::Lazy(LazyRecordTypeDef::InitiationMessage)
    );
    assert_eq!(
        r.get_field_index_for_variant(LazyRecordTypeDef::RouteMonitoring, &idx).unwrap(),
        VariantField::Unknown
    );
    assert_eq!(
        r.get_field_index_for_variant(LazyRecordTypeDef::InitiationMessage, &FieldIndex(vec![])).unwrap_err(),
        VmError::InvalidMethodCall
    );
    let t = BytesRecord::<BmpMessage>::new(termination()).unwrap();
    assert_eq!(
        t.get_field_index_for_variant(LazyRecordTypeDef::TerminationMessage, &idx).unwrap_err(),
        VmError::InvalidMethodCall
    );
}

#[test]
fn peer_up_with_overrunning_open_parameters_is_refused() {
    let mut b = vec![0u8; 120];
    b[0] = 3;
    b[4] = 120;
    b[5] = 3;
    for i in 68..84 {
        b[i] = 0xff;
    }
    b[85] = 30;
    b[86] = 1;
    b[96] = 1;
    b[97] = 2;
    b[98] = 0;
    assert_eq!(BytesRecord::<BmpMessage>::new(b.clone()).unwrap_err(), VmError::InvalidMsgType);
    assert_eq!(BytesRecord::<PeerUpNotification>::new(b).unwrap_err(), VmError::InvalidPayload);
}

#[test]
fn peer_up_with_an_empty_multisession_capability_is_refused() {
    let mut b = vec![0u8; 120];
    b[0] = 3;
    b[4] = 120;
    b[5] = 3;
    for i in 68..84 {
        b[i] = 0xff;
    }
    b[85] = 35;
    b[86] = 1;
    b[96] = 6;
    b[97] = 2;
    b[98] = 4;
    b[99] = 68;
    b[100] = 0;
    assert_eq!(BytesRecord::<BmpMessage>::new(b.clone()).unwrap_err(), VmError::InvalidMsgType);
    assert_eq!(BytesRecord::<PeerUpNotification>::new(b.clone()).unwrap_err(), VmError::InvalidPayload);
    b[99] = 131;
    assert_eq!(BytesRecord::<PeerUpNotification>::new(b).unwrap_err(), VmError::InvalidPayload);
}

#[test]
fn an_empty_field_index_is_refused_for_every_message_kind() {
    let mut mirror = vec![0u8; 48];
    mirror[0] = 3;
    mirror[4] = 48;
    mirror[5] = 6;
    let r = BytesRecord::<BmpMessage>::new(mirror).unwrap();
    assert_eq!(
        r.get_field_index_for_variant(LazyRecordTypeDef::RouteMonitoring, &FieldIndex(vec![])).unwrap_err(),
        VmError::InvalidMethodCall
    );
}
