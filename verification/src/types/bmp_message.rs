//! Records backed by the raw bytes of a BMP message. routecore checks the
//! bytes; the record keeps them, with the kind of message they hold.

use vstd::prelude::*;

use bytes::Bytes;
use routecore::bmp::message::Message;

use crate::ast::Identifier;
use crate::text::str_eq;
use vstd::string::StringExecFns;

use super::typedef::{CompileError, FieldIndex, LazyRecordTypeDef, Token, TypeDef};

verus! {

/// The kinds of BMP message (RFC 7854), by the message type octet of the
/// common header.
#[derive(Clone, Copy, Debug, PartialEq, Eq, Structural)]
pub enum MessageType {
    RouteMonitoring,
    StatisticsReport,
    PeerDownNotification,
    PeerUpNotification,
    InitiationMessage,
    TerminationMessage,
    RouteMirroring,
    Unimplemented(u8),
}

/// The message type octet of each kind of message.
pub open spec fn message_type_code(t: MessageType) -> int {
    match t {
        MessageType::RouteMonitoring => 0,
        MessageType::StatisticsReport => 1,
        MessageType::PeerDownNotification => 2,
        MessageType::PeerUpNotification => 3,
        MessageType::InitiationMessage => 4,
        MessageType::TerminationMessage => 5,
        MessageType::RouteMirroring => 6,
        MessageType::Unimplemented(c) => c as int,
    }
}

/// The kind of BMP message that routecore reads from the bytes, if it
/// reads one.
pub uninterp spec fn routecore_bmp_message(bytes: Seq<u8>) -> Option<MessageType>;

/// A big-endian 16-bit number at position `i`.
pub open spec fn be16(b: Seq<u8>, i: int) -> int {
    b[i] as int * 256 + b[i + 1] as int
}

/// Walking the capabilities of an optional parameter from position `c` up
/// to `end`, as routecore walks them, a multisession capability (code 68,
/// or 131 for the pre-standard one) of length 0 is met whose flags octet
/// is there: routecore counts its session identifiers as the length less
/// one, which underflows.
pub open spec fn caps_fault(b: Seq<u8>, c: int, end: int) -> bool
    decreases end - c,
{
    if c < 0 || c >= end || c + 1 >= b.len() {
        false
    } else if (b[c] == 68 || b[c] == 131) && b[c + 1] == 0 && c + 2 < b.len() {
        true
    } else {
        let next = c + 2 + b[c + 1] as int;
        if next >= end {
            false
        } else {
            caps_fault(b, next, end)
        }
    }
}

/// Walking the optional parameters of a BGP OPEN message from position `p`,
/// with `remaining` octets of their announced length left, as routecore
/// walks them, a capability fault is met, or a parameter longer than what
/// is left: routecore subtracts its length from what is left, which
/// underflows. routecore walks the capabilities of a parameter while it
/// stands before the parameter's start plus its length octet, not past the
/// two octets of type and length.
pub open spec fn params_fault(b: Seq<u8>, p: int, remaining: int) -> bool
    decreases remaining,
{
    if remaining <= 0 || p < 0 || p + 1 >= b.len() {
        false
    } else {
        let l = 2 + b[p + 1] as int;
        if b[p] == 2 && caps_fault(b, p + 2, p + b[p + 1] as int) {
            true
        } else if l > remaining {
            true
        } else {
            params_fault(b, p + l, remaining - l)
        }
    }
}

/// The BGP OPEN message at `at` has a parameter fault.
pub open spec fn open_fault(b: Seq<u8>, at: int) -> bool {
    0 <= at && at + 28 < b.len() && params_fault(b, at + 29, b[at + 28] as int)
}

/// One of the two BGP OPEN messages of a Peer Up Notification, which
/// follow the common header, the per-peer header, the addresses and the
/// ports (68 octets), holds a parameter fault: routecore cannot read it
/// without an arithmetic underflow.
pub open spec fn opens_fault(b: Seq<u8>) -> bool {
    ||| open_fault(b, 68)
    ||| (b.len() > 85 && open_fault(b, 68 + be16(b, 84)))
}

/// Two ends at or past the end of the bytes walk the same.
proof fn lemma_caps_end(b: Seq<u8>, c: int, e1: int, e2: int)
    requires
        e1 >= b.len(),
        e2 >= b.len(),
    ensures
        caps_fault(b, c, e1) == caps_fault(b, c, e2),
    decreases b.len() - c,
{
    if 0 <= c && c + 1 < b.len() && !((b[c] == 68 || b[c] == 131) && b[c + 1] == 0 && c + 2
        < b.len()) {
        let next = c + 2 + b[c + 1] as int;
        if next < b.len() {
            lemma_caps_end(b, next, e1, e2);
        } else {
            assert(!caps_fault(b, next, e1));
            assert(!caps_fault(b, next, e2));
        }
    }
}

/// Whether the capabilities from `c` to `end` hold a fault.
fn walk_caps(b: &[u8], c: usize, end: usize) -> (res: bool)
    requires
        end <= b@.len(),
    ensures
        res == caps_fault(b@, c as int, end as int),
{
    let mut q = c;
    while q < end && b.len() - q > 1
        invariant
            caps_fault(b@, c as int, end as int) == caps_fault(b@, q as int, end as int),
            b@.len() == b.len(),
            end <= b.len(),
        decreases end - q,
    {
        let t = b[q];
        let l: usize = b[q + 1] as usize;
        if (t == 68 || t == 131) && l == 0 && b.len() - q > 2 {
            return true;
        }
        if 2 + l >= end - q {
            return false;
        }
        q = q + 2 + l;
    }
    false
}

/// Whether the optional parameters from `p` on hold a fault.
fn walk_params(b: &[u8], p: usize, remaining: usize) -> (res: bool)
    ensures
        res == params_fault(b@, p as int, remaining as int),
{
    let mut q = p;
    let mut rem = remaining;
    while rem > 0 && q < b.len() && b.len() - q > 1
        invariant
            params_fault(b@, p as int, remaining as int) == params_fault(
                b@,
                q as int,
                rem as int,
            ),
            b@.len() == b.len(),
        decreases rem,
    {
        let l: usize = 2 + b[q + 1] as usize;
        assert(l == 2 + b@[q + 1] as int);
        if b[q] == 2 {
            let len: usize = b[q + 1] as usize;
            let end: usize = if len <= b.len() - q {
                q + len
            } else {
                proof {
                    lemma_caps_end(b@, q + 2, q + len, b.len() as int);
                }
                b.len()
            };
            if walk_caps(b, q + 2, end) {
                return true;
            }
        }
        if l > rem {
            return true;
        }
        if l + 1 >= b.len() - q {
            assert(!params_fault(b@, q + l, rem - l));
            return false;
        }
        q = q + l;
        rem = rem - l;
    }
    false
}

/// Whether one of the OPEN messages of a Peer Up Notification holds a
/// fault.
fn peer_up_faults(b: &[u8]) -> (res: bool)
    ensures
        res == opens_fault(b@),
{
    let first = b.len() > 96 && walk_params(b, 97, b[96] as usize);
    if first {
        return true;
    }
    if b.len() > 85 {
        let at: usize = 68 + (b[84] as usize) * 256 + b[85] as usize;
        at < b.len() && b.len() - at > 28 && walk_params(b, at + 29, b[at + 28] as usize)
    } else {
        false
    }
}

/// The kind of BMP message that the bytes hold: none where routecore
/// refuses them, and none for a Peer Up Notification with an OPEN message
/// that routecore cannot read without an underflow, which it never accepts.
pub open spec fn bmp_message_of(b: Seq<u8>) -> Option<MessageType> {
    if b.len() >= 6 && b[5] == 3 && opens_fault(b) {
        None
    } else {
        routecore_bmp_message(b)
    }
}

/// Reads the bytes as a BMP message, and gives its kind.
///
/// Trusted: calls routecore's `Message::from_octets` on a copy of the
/// bytes. The contract claims that the result depends on the bytes alone,
/// and what routecore's checks show of every message it accepts: each of
/// them starts with a common header of six octets whose version octet is 3
/// and whose message type octet gives the kind. What else routecore checks
/// is not stated. Peer Up Notifications with an OPEN message that holds a
/// parameter fault (`opens_fault`) are not admitted: routecore's reading
/// of them underflows.
#[verifier::external_body]
fn parse_message(bytes: &[u8]) -> (res: Option<MessageType>)
    requires
        !(bytes@.len() >= 6 && bytes@[5] == 3 && opens_fault(bytes@)),
    ensures
        res == routecore_bmp_message(bytes@),
        res matches Some(t) ==> bytes@.len() >= 6 && bytes@[0] == 3 && bytes@[5]
            == message_type_code(t) && !(t is Unimplemented),
{
    match Message::<Bytes>::from_octets(Bytes::copy_from_slice(bytes)) {
        Ok(Message::RouteMonitoring(_)) => Some(MessageType::RouteMonitoring),
        Ok(Message::StatisticsReport(_)) => Some(MessageType::StatisticsReport),
        Ok(Message::PeerDownNotification(_)) => Some(MessageType::PeerDownNotification),
        Ok(Message::PeerUpNotification(_)) => Some(MessageType::PeerUpNotification),
        Ok(Message::InitiationMessage(_)) => Some(MessageType::InitiationMessage),
        Ok(Message::TerminationMessage(_)) => Some(MessageType::TerminationMessage),
        Ok(Message::RouteMirroring(_)) => Some(MessageType::RouteMirroring),
        Err(_) => None,
    }
}

/// The kind of BMP message that the bytes hold.
fn read_message(bytes: &[u8]) -> (res: Option<MessageType>)
    ensures
        res == bmp_message_of(bytes@),
        res matches Some(t) ==> bytes@.len() >= 6 && bytes@[0] == 3 && bytes@[5]
            == message_type_code(t) && !(t is Unimplemented),
{
    if bytes.len() >= 6 && bytes[5] == 3 && peer_up_faults(bytes) {
        None
    } else {
        parse_message(bytes)
    }
}

/// Whether routecore reads the bytes as a Route Monitoring message.
pub uninterp spec fn routecore_route_monitoring(bytes: Seq<u8>) -> bool;

/// Whether routecore reads the bytes as a Statistics Report.
pub uninterp spec fn routecore_statistics_report(bytes: Seq<u8>) -> bool;

/// Whether routecore reads the bytes as a Peer Down Notification.
pub uninterp spec fn routecore_peer_down(bytes: Seq<u8>) -> bool;

/// Whether routecore reads the bytes as a Peer Up Notification.
pub uninterp spec fn routecore_peer_up(bytes: Seq<u8>) -> bool;

/// Whether routecore reads the bytes as an Initiation Message.
pub uninterp spec fn routecore_initiation(bytes: Seq<u8>) -> bool;

/// Reads the bytes as a Route Monitoring message.
///
/// Trusted: calls routecore's `RouteMonitoring::from_octets` on a copy of
/// the bytes. The contract claims that the result depends on the bytes
/// alone, and that for bytes with the message type octet 0 it agrees with
/// `Message::from_octets`, which calls this function for them.
#[verifier::external_body]
fn parse_route_monitoring(bytes: &[u8]) -> (res: bool)
    ensures
        res == routecore_route_monitoring(bytes@),
        bytes@.len() >= 6 && bytes@[5] == 0 ==> (res <==> routecore_bmp_message(bytes@) == Some(
            MessageType::RouteMonitoring,
        )),
{
    routecore::bmp::message::RouteMonitoring::from_octets(Bytes::copy_from_slice(bytes)).is_ok()
}

/// Reads the bytes as a Statistics Report.
///
/// Trusted: calls routecore's `StatisticsReport::from_octets` on a copy of
/// the bytes. The contract claims that the result depends on the bytes
/// alone, and that for bytes with the message type octet 1 it agrees with
/// `Message::from_octets`, which calls this function for them.
#[verifier::external_body]
fn parse_statistics_report(bytes: &[u8]) -> (res: bool)
    ensures
        res == routecore_statistics_report(bytes@),
        bytes@.len() >= 6 && bytes@[5] == 1 ==> (res <==> routecore_bmp_message(bytes@) == Some(
            MessageType::StatisticsReport,
        )),
{
    routecore::bmp::message::StatisticsReport::from_octets(Bytes::copy_from_slice(bytes)).is_ok()
}

/// Reads the bytes as a Peer Down Notification.
///
/// Trusted: calls routecore's `PeerDownNotification::from_octets` on a copy
/// of the bytes. The contract claims that the result depends on the bytes
/// alone, and that for bytes with the message type octet 2 it agrees with
/// `Message::from_octets`, which calls this function for them.
#[verifier::external_body]
fn parse_peer_down(bytes: &[u8]) -> (res: bool)
    ensures
        res == routecore_peer_down(bytes@),
        bytes@.len() >= 6 && bytes@[5] == 2 ==> (res <==> routecore_bmp_message(bytes@) == Some(
            MessageType::PeerDownNotification,
        )),
{
    routecore::bmp::message::PeerDownNotification::from_octets(Bytes::copy_from_slice(bytes)).is_ok()
}

/// Reads the bytes as a Peer Up Notification.
///
/// Trusted: calls routecore's `PeerUpNotification::from_octets` on a copy
/// of the bytes. The contract claims that the result depends on the bytes
/// alone, and that for bytes with the message type octet 3 it agrees with
/// `Message::from_octets`, which calls this function for them. Bytes whose
/// OPEN messages hold a parameter fault are not admitted, as for
/// `parse_message`.
#[verifier::external_body]
fn parse_peer_up(bytes: &[u8]) -> (res: bool)
    requires
        !opens_fault(bytes@),
    ensures
        res == routecore_peer_up(bytes@),
        bytes@.len() >= 6 && bytes@[5] == 3 ==> (res <==> routecore_bmp_message(bytes@) == Some(
            MessageType::PeerUpNotification,
        )),
{
    routecore::bmp::message::PeerUpNotification::from_octets(Bytes::copy_from_slice(bytes)).is_ok()
}

/// Reads the bytes as an Initiation Message.
///
/// Trusted: calls routecore's `InitiationMessage::from_octets` on a copy of
/// the bytes. The contract claims that the result depends on the bytes
/// alone, and that for bytes with the message type octet 4 it agrees with
/// `Message::from_octets`, which calls this function for them.
#[verifier::external_body]
fn parse_initiation(bytes: &[u8]) -> (res: bool)
    ensures
        res == routecore_initiation(bytes@),
        bytes@.len() >= 6 && bytes@[5] == 4 ==> (res <==> routecore_bmp_message(bytes@) == Some(
            MessageType::InitiationMessage,
        )),
{
    routecore::bmp::message::InitiationMessage::from_octets(Bytes::copy_from_slice(bytes)).is_ok()
}

/// What a field of a variant of a BMP message is read from: nothing, where
/// the message is of another variant, or the lazy record of the variant,
/// whose bytes routecore read as a message of that variant.
#[derive(Clone, Copy, Debug, PartialEq, Eq, Structural)]
pub enum VariantField {
    Unknown,
    Lazy(LazyRecordTypeDef),
}

/// Whether routecore reads the bytes as a message of the kind that the
/// lazy record type stands for; `None` for the types without a reader.
pub open spec fn variant_read(variant: LazyRecordTypeDef, b: Seq<u8>) -> Option<bool> {
    match variant {
        LazyRecordTypeDef::RouteMonitoring => Some(routecore_route_monitoring(b)),
        LazyRecordTypeDef::PeerDownNotification => Some(routecore_peer_down(b)),
        LazyRecordTypeDef::PeerUpNotification => Some(!opens_fault(b) && routecore_peer_up(b)),
        LazyRecordTypeDef::InitiationMessage => Some(routecore_initiation(b)),
        LazyRecordTypeDef::StatisticsReport => Some(routecore_statistics_report(b)),
        _ => None,
    }
}

/// Errors of the virtual machine that runs a compiled Roto program.
#[derive(Clone, Copy, Debug, PartialEq, Eq, Structural)]
pub enum VmError {
    InvalidMsgType,
    InvalidPayload,
    InvalidMethodCall,
}

/// A BMP message of any kind.
#[derive(Clone, Copy, Debug, PartialEq, Eq, Structural)]
pub struct BmpMessage;

/// A BMP Route Monitoring message.
#[derive(Clone, Copy, Debug, PartialEq, Eq, Structural)]
pub struct RouteMonitoring;

/// A BMP Peer Up Notification.
#[derive(Clone, Copy, Debug, PartialEq, Eq, Structural)]
pub struct PeerUpNotification;

/// A BMP Peer Down Notification.
#[derive(Clone, Copy, Debug, PartialEq, Eq, Structural)]
pub struct PeerDownNotification;

/// A BMP Initiation Message.
#[derive(Clone, Copy, Debug, PartialEq, Eq, Structural)]
pub struct InitiationMessage;

/// A BMP Termination Message.
#[derive(Clone, Copy, Debug, PartialEq, Eq, Structural)]
pub struct TerminationMessage;

/// A BMP Statistics Report.
#[derive(Clone, Copy, Debug, PartialEq, Eq, Structural)]
pub struct StatisticsReport;

/// The raw bytes of a BMP message that routecore accepted, the kind of
/// message they hold, and the record type `T` they are read as.
#[derive(Debug)]
pub struct BytesRecord<T> {
    bytes: Vec<u8>,
    msg_type: MessageType,
    record: T,
}

impl<T> BytesRecord<T> {
    /// The bytes of the message.
    pub closed spec fn bytes(&self) -> Seq<u8> {
        self.bytes@
    }

    /// The kind of message the bytes hold.
    pub closed spec fn message_type(&self) -> MessageType {
        self.msg_type
    }

    /// routecore reads the bytes as a message of the recorded kind, and
    /// the common header shows it: version 3, and the kind's message type
    /// octet.
    pub open spec fn wf(&self) -> bool {
        &&& bmp_message_of(self.bytes()) == Some(self.message_type())
        &&& self.bytes().len() >= 6
        &&& self.bytes()[0] == 3
        &&& self.bytes()[5] == message_type_code(self.message_type())
    }

    /// The bytes of the message.
    pub fn as_bytes(&self) -> (res: &[u8])
        ensures
            res@ == self.bytes(),
    {
        self.bytes.as_slice()
    }

    /// The kind of message the bytes hold.
    pub fn msg_type(&self) -> (res: MessageType)
        ensures
            res == self.message_type(),
    {
        self.msg_type
    }
}

/// A record of the given kind: an error where routecore refuses the bytes,
/// or where they hold a message of another kind.
fn record_of_kind<T>(bytes: Vec<u8>, kind: MessageType, record: T) -> (res: Result<
    BytesRecord<T>,
    VmError,
>)
    ensures
        match bmp_message_of(bytes@) {
            Some(t) => if t == kind {
                res matches Ok(r) && r.bytes() == bytes@ && r.message_type() == kind && r.wf()
            } else {
                res == Err::<BytesRecord<T>, VmError>(VmError::InvalidMsgType)
            },
            None => res == Err::<BytesRecord<T>, VmError>(VmError::InvalidPayload),
        },
{
    match read_message(bytes.as_slice()) {
        Some(t) => if t == kind {
            Ok(BytesRecord { bytes, msg_type: t, record })
        } else {
            Err(VmError::InvalidMsgType)
        },
        None => Err(VmError::InvalidPayload),
    }
}

/// The lazy record type that a kind of message is read as, for the kinds
/// that have one.
pub open spec fn lazy_record_type(t: MessageType) -> Option<LazyRecordTypeDef> {
    match t {
        MessageType::RouteMonitoring => Some(LazyRecordTypeDef::RouteMonitoring),
        MessageType::StatisticsReport => Some(LazyRecordTypeDef::StatisticsReport),
        MessageType::PeerDownNotification => Some(LazyRecordTypeDef::PeerDownNotification),
        MessageType::PeerUpNotification => Some(LazyRecordTypeDef::PeerUpNotification),
        MessageType::InitiationMessage => Some(LazyRecordTypeDef::InitiationMessage),
        MessageType::TerminationMessage => Some(LazyRecordTypeDef::TerminationMessage),
        _ => None,
    }
}

/// A kind of message is read as the lazy record of its own variant: the
/// variant of that record is numbered by the kind's message type octet.
pub proof fn law_message_kind_is_read_as_its_own_variant(
    k: MessageType,
    l: LazyRecordTypeDef,
    name: Seq<char>,
    tok: BmpMessageToken,
)
    requires
        lazy_record_type(k) == Some(l),
        bmp_variant_named(name) == Some((l, tok)),
    ensures
        bmp_token_index(tok) == message_type_code(k),
{
}

/// No two kinds of message are read as the same lazy record.
pub proof fn law_message_kinds_have_distinct_records(k1: MessageType, k2: MessageType)
    requires
        lazy_record_type(k1) is Some,
        lazy_record_type(k1) == lazy_record_type(k2),
    ensures
        k1 == k2,
{
}

impl LazyRecordTypeDef {
    /// The lazy record type that a kind of message is read as; route
    /// mirroring messages and unknown kinds have none.
    pub fn from_message_type(value: MessageType) -> (res: LazyRecordTypeDef)
        requires
            lazy_record_type(value) is Some,
        ensures
            lazy_record_type(value) == Some(res),
    {
        match value {
            MessageType::RouteMonitoring => LazyRecordTypeDef::RouteMonitoring,
            MessageType::StatisticsReport => LazyRecordTypeDef::StatisticsReport,
            MessageType::PeerDownNotification => LazyRecordTypeDef::PeerDownNotification,
            MessageType::PeerUpNotification => LazyRecordTypeDef::PeerUpNotification,
            MessageType::InitiationMessage => LazyRecordTypeDef::InitiationMessage,
            MessageType::TerminationMessage => LazyRecordTypeDef::TerminationMessage,
            _ => LazyRecordTypeDef::TerminationMessage,
        }
    }
}

/// The variants of a BMP message, numbered as the compiler's variant
/// tokens number them.
#[derive(Clone, Copy, Debug, PartialEq, Eq, Structural)]
pub enum BmpMessageToken {
    RouteMonitoring,
    StatisticsReport,
    PeerDownNotification,
    PeerUpNotification,
    InitiationMessage,
    TerminationMessage,
}

pub open spec fn bmp_token_index(t: BmpMessageToken) -> usize {
    match t {
        BmpMessageToken::RouteMonitoring => 0,
        BmpMessageToken::StatisticsReport => 1,
        BmpMessageToken::PeerDownNotification => 2,
        BmpMessageToken::PeerUpNotification => 3,
        BmpMessageToken::InitiationMessage => 4,
        BmpMessageToken::TerminationMessage => 5,
    }
}

impl BmpMessageToken {
    /// The number of the variant.
    pub fn index(&self) -> (res: usize)
        ensures
            res == bmp_token_index(*self),
    {
        match self {
            BmpMessageToken::RouteMonitoring => 0,
            BmpMessageToken::StatisticsReport => 1,
            BmpMessageToken::PeerDownNotification => 2,
            BmpMessageToken::PeerUpNotification => 3,
            BmpMessageToken::InitiationMessage => 4,
            BmpMessageToken::TerminationMessage => 5,
        }
    }
}

/// The variant of a BMP message that a name in Roto source stands for: its
/// lazy record type and its number.
pub open spec fn bmp_variant_named(name: Seq<char>) -> Option<(LazyRecordTypeDef, BmpMessageToken)> {
    if name == "InitiationMessage"@ {
        Some((LazyRecordTypeDef::InitiationMessage, BmpMessageToken::InitiationMessage))
    } else if name == "RouteMonitoring"@ {
        Some((LazyRecordTypeDef::RouteMonitoring, BmpMessageToken::RouteMonitoring))
    } else if name == "PeerUpNotification"@ {
        Some((LazyRecordTypeDef::PeerUpNotification, BmpMessageToken::PeerUpNotification))
    } else if name == "PeerDownNotification"@ {
        Some((LazyRecordTypeDef::PeerDownNotification, BmpMessageToken::PeerDownNotification))
    } else if name == "StatisticsReport"@ {
        Some((LazyRecordTypeDef::StatisticsReport, BmpMessageToken::StatisticsReport))
    } else if name == "TerminationMessage"@ {
        Some((LazyRecordTypeDef::TerminationMessage, BmpMessageToken::TerminationMessage))
    } else {
        None
    }
}

impl BytesRecord<BmpMessage> {
    /// A record of a BMP message of any kind; an error where routecore
    /// refuses the bytes.
    pub fn new(bytes: Vec<u8>) -> (res: Result<Self, VmError>)
        ensures
            match bmp_message_of(bytes@) {
                Some(t) => res matches Ok(r) && r.bytes() == bytes@ && r.message_type() == t
                    && r.wf(),
                None => res == Err::<Self, VmError>(VmError::InvalidMsgType),
            },
    {
        match read_message(bytes.as_slice()) {
            Some(t) => Ok(BytesRecord { bytes, msg_type: t, record: BmpMessage }),
            None => Err(VmError::InvalidMsgType),
        }
    }

    /// The type and the variant token of the variant with the given name.
    pub fn get_props_for_variant(field_name: &Identifier) -> (res: Result<
        (TypeDef, Token),
        CompileError,
    >)
        ensures
            match bmp_variant_named(field_name.0@) {
                Some((l, t)) => res matches Ok(r) && r.0 == TypeDef::LazyRecord(l) && r.1
                    == Token::Variant(bmp_token_index(t)),
                None => res matches Err(e) && e.message@ == "No variant name "@ + field_name.0@
                    + " for BmpMessage"@,
            },
    {
        let name = field_name.0.as_str();
        let found = if str_eq(name, "InitiationMessage") {
            Some((LazyRecordTypeDef::InitiationMessage, BmpMessageToken::InitiationMessage))
        } else if str_eq(name, "RouteMonitoring") {
            Some((LazyRecordTypeDef::RouteMonitoring, BmpMessageToken::RouteMonitoring))
        } else if str_eq(name, "PeerUpNotification") {
            Some((LazyRecordTypeDef::PeerUpNotification, BmpMessageToken::PeerUpNotification))
        } else if str_eq(name, "PeerDownNotification") {
            Some((LazyRecordTypeDef::PeerDownNotification, BmpMessageToken::PeerDownNotification))
        } else if str_eq(name, "StatisticsReport") {
            Some((LazyRecordTypeDef::StatisticsReport, BmpMessageToken::StatisticsReport))
        } else if str_eq(name, "TerminationMessage") {
            Some((LazyRecordTypeDef::TerminationMessage, BmpMessageToken::TerminationMessage))
        } else {
            None
        };
        match found {
            Some((l, t)) => Ok((TypeDef::LazyRecord(l), Token::Variant(t.index()))),
            None => {
                let mut message = String::from_str("No variant name ");
                message.append(name);
                message.append(" for BmpMessage");
                Err(CompileError { message })
            },
        }
    }

    /// Where a field of the given variant is read from: an error for an
    /// empty field index, nothing where the message is of another variant,
    /// else the variant's lazy record, once routecore reads the bytes as a
    /// message of that variant; an invalid payload where it does not, and
    /// an invalid method call for variants without fields to read. Reading
    /// the field's value from the lazy record is done by the lazy record
    /// readers (`LazyRecord::get_field_by_index`), which are not part of
    /// this library; the caller reads it from the record given here.
    pub fn get_field_index_for_variant(
        &self,
        variant_token: LazyRecordTypeDef,
        field_index: &FieldIndex,
    ) -> (res: Result<VariantField, VmError>)
        requires
            field_index.0@.len() > 0 ==> lazy_record_type(self.message_type()) is Some,
        ensures
            field_index.0@.len() == 0 ==> res == Err::<VariantField, VmError>(
                VmError::InvalidMethodCall,
            ),
            field_index.0@.len() > 0 && lazy_record_type(self.message_type()) != Some(variant_token)
                ==> res == Ok::<VariantField, VmError>(VariantField::Unknown),
            field_index.0@.len() > 0 && lazy_record_type(self.message_type()) == Some(variant_token)
                ==> match variant_read(variant_token, self.bytes()) {
                Some(true) => res == Ok::<VariantField, VmError>(VariantField::Lazy(variant_token)),
                Some(false) => res == Err::<VariantField, VmError>(VmError::InvalidPayload),
                None => res == Err::<VariantField, VmError>(VmError::InvalidMethodCall),
            },
            self.wf() && field_index.0@.len() > 0 ==> res != Err::<VariantField, VmError>(
                VmError::InvalidPayload,
            ),
    {
        if field_index.0.len() == 0 {
            return Err(VmError::InvalidMethodCall);
        }
        if variant_token != self.get_variant() {
            return Ok(VariantField::Unknown);
        }
        let raw_bytes = self.bytes.as_slice();
        let read = match variant_token {
            LazyRecordTypeDef::RouteMonitoring => parse_route_monitoring(raw_bytes),
            LazyRecordTypeDef::PeerDownNotification => parse_peer_down(raw_bytes),
            LazyRecordTypeDef::PeerUpNotification => {
                !peer_up_faults(raw_bytes) && parse_peer_up(raw_bytes)
            },
            LazyRecordTypeDef::InitiationMessage => parse_initiation(raw_bytes),
            LazyRecordTypeDef::StatisticsReport => parse_statistics_report(raw_bytes),
            _ => {
                return Err(VmError::InvalidMethodCall);
            },
        };
        if read {
            Ok(VariantField::Lazy(variant_token))
        } else {
            Err(VmError::InvalidPayload)
        }
    }

    /// The lazy record type of the message the record holds; route
    /// mirroring messages have none.
    pub fn get_variant(&self) -> (res: LazyRecordTypeDef)
        requires
            lazy_record_type(self.message_type()) is Some,
        ensures
            lazy_record_type(self.message_type()) == Some(res),
    {
        LazyRecordTypeDef::from_message_type(self.msg_type)
    }
}

impl BytesRecord<RouteMonitoring> {
    /// A record of a Route Monitoring message; an error where routecore
    /// refuses the bytes, or where they hold another kind of message.
    pub fn new(bytes: Vec<u8>) -> (res: Result<Self, VmError>)
        ensures
            match bmp_message_of(bytes@) {
                Some(t) => if t == MessageType::RouteMonitoring {
                    res matches Ok(r) && r.bytes() == bytes@ && r.message_type() == t && r.wf()
                } else {
                    res == Err::<Self, VmError>(VmError::InvalidMsgType)
                },
                None => res == Err::<Self, VmError>(VmError::InvalidPayload),
            },
    {
        record_of_kind(bytes, MessageType::RouteMonitoring, RouteMonitoring)
    }
}

impl BytesRecord<PeerUpNotification> {
    /// A record of a Peer Up Notification; an error where routecore refuses
    /// the bytes, or where they hold another kind of message.
    pub fn new(bytes: Vec<u8>) -> (res: Result<Self, VmError>)
        ensures
            match bmp_message_of(bytes@) {
                Some(t) => if t == MessageType::PeerUpNotification {
                    res matches Ok(r) && r.bytes() == bytes@ && r.message_type() == t && r.wf()
                } else {
                    res == Err::<Self, VmError>(VmError::InvalidMsgType)
                },
                None => res == Err::<Self, VmError>(VmError::InvalidPayload),
            },
    {
        record_of_kind(bytes, MessageType::PeerUpNotification, PeerUpNotification)
    }
}

impl BytesRecord<PeerDownNotification> {
    /// A record of a Peer Down Notification; an error where routecore
    /// refuses the bytes, or where they hold another kind of message.
    pub fn new(bytes: Vec<u8>) -> (res: Result<Self, VmError>)
        ensures
            match bmp_message_of(bytes@) {
                Some(t) => if t == MessageType::PeerDownNotification {
                    res matches Ok(r) && r.bytes() == bytes@ && r.message_type() == t && r.wf()
                } else {
                    res == Err::<Self, VmError>(VmError::InvalidMsgType)
                },
                None => res == Err::<Self, VmError>(VmError::InvalidPayload),
            },
    {
        record_of_kind(bytes, MessageType::PeerDownNotification, PeerDownNotification)
    }
}

impl BytesRecord<InitiationMessage> {
    /// A record of an Initiation Message; an error where routecore refuses
    /// the bytes, or where they hold another kind of message.
    pub fn new(bytes: Vec<u8>) -> (res: Result<Self, VmError>)
        ensures
            match bmp_message_of(bytes@) {
                Some(t) => if t == MessageType::InitiationMessage {
                    res matches Ok(r) && r.bytes() == bytes@ && r.message_type() == t && r.wf()
                } else {
                    res == Err::<Self, VmError>(VmError::InvalidMsgType)
                },
                None => res == Err::<Self, VmError>(VmError::InvalidPayload),
            },
    {
        record_of_kind(bytes, MessageType::InitiationMessage, InitiationMessage)
    }
}

impl BytesRecord<TerminationMessage> {
    /// A record of a Termination Message; an error where routecore refuses
    /// the bytes, or where they hold another kind of message.
    pub fn new(bytes: Vec<u8>) -> (res: Result<Self, VmError>)
        ensures
            match bmp_message_of(bytes@) {
                Some(t) => if t == MessageType::TerminationMessage {
                    res matches Ok(r) && r.bytes() == bytes@ && r.message_type() == t && r.wf()
                } else {
                    res == Err::<Self, VmError>(VmError::InvalidMsgType)
                },
                None => res == Err::<Self, VmError>(VmError::InvalidPayload),
            },
    {
        record_of_kind(bytes, MessageType::TerminationMessage, TerminationMessage)
    }
}

impl BytesRecord<StatisticsReport> {
    /// A record of a Statistics Report; an error where routecore refuses the
    /// bytes, or where they hold another kind of message.
    pub fn new(bytes: Vec<u8>) -> (res: Result<Self, VmError>)
        ensures
            match bmp_message_of(bytes@) {
                Some(t) => if t == MessageType::StatisticsReport {
                    res matches Ok(r) && r.bytes() == bytes@ && r.message_type() == t && r.wf()
                } else {
                    res == Err::<Self, VmError>(VmError::InvalidMsgType)
                },
                None => res == Err::<Self, VmError>(VmError::InvalidPayload),
            },
    {
        record_of_kind(bytes, MessageType::StatisticsReport, StatisticsReport)
    }
}

} // verus!
