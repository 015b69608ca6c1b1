//! Type definitions of the Roto language: the built-in types, records with
//! sorted named fields, lists and the data-source types.

use vstd::prelude::*;

use crate::ast::Identifier;
use crate::syntax::TypeIdentifier;
use crate::text::str_eq;
use vstd::std_specs::cmp::PartialEqSpecImpl;
use vstd::string::StringExecFns;

use super::order::{
    compare_chars, compare_view, fields_sorted, lemma_compare_chars_antisymmetric,
    lemma_compare_chars_zero, lemma_fields_sorted_views, lemma_sorted_same_views, lemma_compare_chars_reflexive, lemma_compare_field_indexes_same,
    lemma_compare_fields_same, lemma_compare_usizes_reflexive, named_view, same_fields,
    same_type_def, sort_fields,
};

verus! {

/// An error found while compiling a Roto program.
#[derive(Debug)]
pub struct CompileError {
    pub message: String,
}

/// The path of indexes that leads to a (nested) field of a record.
#[derive(Debug, PartialEq, Eq, PartialOrd, Ord, Hash)]
pub struct FieldIndex(pub Vec<usize>);

/// The values of a Roto program that are read lazily from the raw bytes of a
/// message.
#[derive(Clone, Copy, Debug, PartialEq, Eq, PartialOrd, Ord, Hash, Structural)]
pub enum LazyRecordTypeDef {
    UpdateMessage,
    RouteMonitoring,
    PeerUpNotification,
    PeerDownNotification,
    InitiationMessage,
    TerminationMessage,
    StatisticsReport,
}

/// The built-in enums of the global namespace.
#[derive(Clone, Copy, Debug, PartialEq, Eq, PartialOrd, Ord, Hash, Structural)]
pub enum GlobalEnumTypeDef {
    BmpMessageType,
}

/// The verdict of a filter.
#[derive(Clone, Copy, Debug, PartialEq, Eq, PartialOrd, Ord, Hash, Structural)]
pub enum AcceptReject {
    Accept,
    Reject,
    NoReturn,
}

/// the type definition of the type that's stored in the RIB and the
/// vec of field_indexes that are used in the hash to calculate
/// uniqueness for an entry.
pub type RibTypeDef = (Box<TypeDef>, Option<Vec<FieldIndex>>);

/// A field name and the type of the field.
pub type NamedTypeDef = (String, Box<TypeDef>);

/// This struct mainly serves the purpose of making sure that all inner
/// `Vec<NamedTypeDef>` are being sorted at creation time, so that they
/// are comparable (for equivalence) at all times without the need to
/// ever sort them again.
#[derive(Debug, Eq, PartialOrd, Ord, Hash)]
pub struct RecordTypeDef(pub(crate) Vec<NamedTypeDef>);

#[derive(Debug, Eq, PartialEq, Default, Ord, PartialOrd, Hash)]
pub enum TypeDef {
    // Data Sources, the data field in the enum represents the contained
    // type.
    Rib(RibTypeDef),
    Table(Box<TypeDef>),
    OutputStream(Box<TypeDef>),
    // Collection Types
    List(Box<TypeDef>),
    // Record with sorted named fields
    Record(RecordTypeDef),
    // Built-in Enums in the global namespace
    GlobalEnum(GlobalEnumTypeDef),
    // The data field holds the name of the enum this variant belongs to.
    ConstEnumVariant(String),
    // A intermediate record where fields are only evaluated when called by
    // the VM, or when modified.
    LazyRecord(LazyRecordTypeDef),
    // Builtin Types
    U32,
    U16,
    U8,
    Bool,
    Prefix,
    PrefixLength, // A u8 prefixes by a /
    AfiSafi,
    PathId,
    IpAddr,
    Asn,
    PrefixRoute,
    FlowSpecRoute,
    RouteContext,
    AsPath,
    Hop,
    Community,
    Nlri,
    Origin,
    LocalPref,
    MultiExitDisc,
    NextHop,
    AtomicAggregate,
    AggregatorInfo,
    Provenance,
    NlriStatus,
    PeerId,
    PeerRibType,
    // Literals
    HexLiteral,
    IntegerLiteral,
    StringLiteral,
    AcceptReject(AcceptReject), // used in the apply section
    #[default]
    Unknown,
}

impl RecordTypeDef {
    /// The fields, in the order in which they are kept.
    pub closed spec fn fields(self) -> Seq<NamedTypeDef> {
        self.0@
    }

    /// A record type definition is larger than its fields, which lets
    /// definitions recurse into the fields.
    pub proof fn lemma_fields_decrease(self)
        ensures
            decreases_to!(self => self.fields()),
    {
        broadcast use vstd::std_specs::vec::axiom_vec_decreases_to_view;

        assert(decreases_to!(self => self.0));
        assert(decreases_to!(self.0 => self.0@));
    }

    /// The fields are kept in the order of their names, then of their types.
    pub open spec fn is_sorted(self) -> bool {
        fields_sorted(self.fields())
    }

    /// Makes a record type definition of the given fields, sorted.
    pub fn new(named_type_vec: Vec<NamedTypeDef>) -> (res: Self)
        ensures
            res.is_sorted(),
            res.fields().to_multiset() == named_type_vec@.to_multiset(),
            res.fields().map_values(|p: NamedTypeDef| named_view(p)).to_multiset()
                == named_type_vec@.map_values(|p: NamedTypeDef| named_view(p)).to_multiset(),
    {
        RecordTypeDef(sort_fields(named_type_vec))
    }

    /// Makes a record type definition of the given names and types, sorted.
    pub fn from_str_pairs(value: Vec<(&str, Box<TypeDef>)>) -> (res: Self)
        ensures
            res.is_sorted(),
            res.fields().map_values(|p: NamedTypeDef| named_view(p)).to_multiset()
                == value@.map_values(|p: (&str, Box<TypeDef>)| str_pair_view(p)).to_multiset(),
    {
        let ghost g = |p: (&str, Box<TypeDef>)| str_pair_view(p);
        let ghost f = |p: NamedTypeDef| named_view(p);
        let mut named: Vec<NamedTypeDef> = Vec::new();
        let mut rest = value;
        let ghost mut taken: Seq<(&str, Box<TypeDef>)> = Seq::empty();
        let ghost orig = rest@;
        while rest.len() > 0
            invariant
                f == (|p: NamedTypeDef| named_view(p)),
                g == (|p: (&str, Box<TypeDef>)| str_pair_view(p)),
                named@.map_values(f) == taken.map_values(g),
                taken.len() == named@.len(),
                taken + rest@.reverse() == orig.reverse(),
            decreases rest@.len(),
        {
            let ghost before = rest@;
            let (s, t) = rest.pop().unwrap();
            assert(before == rest@.push((s, t)));
            let ghost old_taken = taken;
            proof {
                taken = taken.push((s, t));
            }
            let owned = crate::text::to_owned_string(s);
            let ghost prev = named@;
            named.push((owned, t));
            assert(named@ == prev.push((owned, t)));
            assert(named@.map_values(f) =~= taken.map_values(g)) by {
                assert forall|k: int| 0 <= k < named@.len() implies #[trigger] named@.map_values(
                    f,
                )[k] == taken.map_values(g)[k] by {
                    if k < prev.len() {
                        assert(named@[k] == prev[k]);
                        assert(taken[k] == old_taken[k]);
                        assert(prev.map_values(f)[k] == old_taken.map_values(g)[k]);
                    } else {
                        assert(named@[k] == (owned, t));
                        assert(taken[k] == (s, t));
                    }
                }
            }
            assert(before.reverse() =~= seq![(s, t)] + rest@.reverse());
        }
        proof {
            assert(taken =~= orig.reverse());
            orig.lemma_reverse_to_multiset();
        }
        let res = RecordTypeDef::new(named);
        proof {
            lemma_reverse_map_multiset(orig, g);
        }
        res
    }

    /// The number of fields at the top level of the record.
    pub fn level_0_len(&self) -> (res: usize)
        ensures
            res == self.fields().len(),
    {
        self.0.len()
    }

    /// returns the number of all fields in the flattened record type.
    pub fn recursive_len(&self) -> (res: usize)
        requires
            flat_len(self.fields()) <= usize::MAX,
        ensures
            res == flat_len(self.fields()),
    {
        flat_len_of(&self.0)
    }

    /// The position of the first field with the given name.
    pub fn get_index_for_field_name(&self, name: &String) -> (res: Option<usize>)
        ensures
            match res {
                Some(i) => {
                    &&& i < self.fields().len()
                    &&& self.fields()[i as int].0@ == name@
                    &&& forall|j: int| 0 <= j < i ==> (#[trigger] self.fields()[j]).0@ != name@
                },
                None => forall|j: int|
                    0 <= j < self.fields().len() ==> (#[trigger] self.fields()[j]).0@ != name@,
            },
    {
        let mut i: usize = 0;
        while i < self.0.len()
            invariant
                i <= self.fields().len(),
                forall|j: int| 0 <= j < i ==> (#[trigger] self.fields()[j]).0@ != name@,
            decreases self.fields().len() - i,
        {
            if self.0[i].0 == *name {
                return Some(i);
            }
            i = i + 1;
        }
        None
    }

    /// The fields, handed over, in the order in which they are kept.
    pub fn into_fields(self) -> (res: Vec<NamedTypeDef>)
        ensures
            res@ == self.fields(),
    {
        self.0
    }

    /// The fields, in the order in which they are kept.
    pub fn iter(&self) -> (res: &Vec<NamedTypeDef>)
        ensures
            res@ == self.fields(),
    {
        &self.0
    }
}

/// The type of a field of a record type, or of the record type that an
/// output stream carries.
pub open spec fn field_of(t: TypeDef, name: Seq<char>) -> Option<TypeDef> {
    match t {
        TypeDef::Record(fields) => lookup_field(fields.fields(), name),
        TypeDef::OutputStream(inner) => match *inner {
            TypeDef::Record(fields) => lookup_field(fields.fields(), name),
            _ => None,
        },
        _ => None,
    }
}

/// Both absent, or both present with the same content.
pub open spec fn same_opt_type_def(a: Option<TypeDef>, b: Option<TypeDef>) -> bool {
    match (a, b) {
        (None, None) => true,
        (Some(x), Some(y)) => same_type_def(x, y),
        _ => false,
    }
}

/// The type definitions that are not built in: the data sources, lists and
/// records.
pub open spec fn is_builtin_type(t: TypeDef) -> bool {
    !(t is Rib || t is Table || t is List || t is Record)
}

/// A string with the given characters.
pub open spec fn string_of(chars: Seq<char>) -> String {
    choose|s: String| s@ == chars
}

/// The built-in type that a type name of a Roto program stands for.
pub open spec fn builtin_type_named(name: Seq<char>) -> Option<TypeDef> {
    if name == "U32"@ {
        Some(TypeDef::U32)
    } else if name == "U16"@ {
        Some(TypeDef::U16)
    } else if name == "U8"@ {
        Some(TypeDef::U8)
    } else if name == "IntegerLiteral"@ {
        Some(TypeDef::IntegerLiteral)
    } else if name == "String"@ {
        Some(TypeDef::StringLiteral)
    } else if name == "Bool"@ {
        Some(TypeDef::Bool)
    } else if name == "HexLiteral"@ {
        Some(TypeDef::HexLiteral)
    } else if name == "IpAddress"@ {
        Some(TypeDef::IpAddr)
    } else if name == "Prefix"@ {
        Some(TypeDef::Prefix)
    } else if name == "AfiSafi"@ {
        Some(TypeDef::AfiSafi)
    } else if name == "PathId"@ {
        Some(TypeDef::PathId)
    } else if name == "PrefixLength"@ {
        Some(TypeDef::PrefixLength)
    } else if name == "LocalPref"@ {
        Some(TypeDef::LocalPref)
    } else if name == "AtomicAggregate"@ {
        Some(TypeDef::AtomicAggregate)
    } else if name == "AggregatorInfo"@ {
        Some(TypeDef::AggregatorInfo)
    } else if name == "NextHop"@ {
        Some(TypeDef::NextHop)
    } else if name == "MultiExitDisc"@ {
        Some(TypeDef::MultiExitDisc)
    } else if name == "RouteStatus"@ {
        Some(TypeDef::NlriStatus)
    } else if name == "Community"@ {
        Some(TypeDef::Community)
    } else if name == "Nlri"@ {
        Some(TypeDef::Nlri)
    } else if name == "Asn"@ {
        Some(TypeDef::Asn)
    } else if name == "AsPath"@ {
        Some(TypeDef::AsPath)
    } else if name == "Hop"@ {
        Some(TypeDef::Hop)
    } else if name == "Origin"@ {
        Some(TypeDef::Origin)
    } else if name == "PrefixRoute"@ {
        Some(TypeDef::PrefixRoute)
    } else if name == "FlowSpecRoute"@ {
        Some(TypeDef::FlowSpecRoute)
    } else if name == "RouteContext"@ {
        Some(TypeDef::RouteContext)
    } else if name == "Provenance"@ {
        Some(TypeDef::Provenance)
    } else if name == "PeerId"@ {
        Some(TypeDef::PeerId)
    } else if name == "PeerRibType"@ {
        Some(TypeDef::PeerRibType)
    } else if name == "BgpUpdateMessage"@ {
        Some(TypeDef::LazyRecord(LazyRecordTypeDef::UpdateMessage))
    } else if name == "BmpMessage"@ {
        Some(TypeDef::GlobalEnum(GlobalEnumTypeDef::BmpMessageType))
    } else if name == "BmpRouteMonitoringMessage"@ {
        Some(TypeDef::LazyRecord(LazyRecordTypeDef::RouteMonitoring))
    } else if name == "BmpPeerDownNotification"@ {
        Some(TypeDef::LazyRecord(LazyRecordTypeDef::PeerDownNotification))
    } else if name == "BmpPeerUpNotification"@ {
        Some(TypeDef::LazyRecord(LazyRecordTypeDef::PeerUpNotification))
    } else if name == "BmpInitationMessage"@ {
        Some(TypeDef::LazyRecord(LazyRecordTypeDef::InitiationMessage))
    } else if name == "BmpTerminationMessage"@ {
        Some(TypeDef::LazyRecord(LazyRecordTypeDef::TerminationMessage))
    } else if name == "BmpStatisticsReport"@ {
        Some(TypeDef::LazyRecord(LazyRecordTypeDef::StatisticsReport))
    } else if name == "BmpMessageType"@ {
        Some(TypeDef::ConstEnumVariant(string_of("BMP_MESSAGE_TYPE"@)))
    } else {
        None
    }
}

/// A name-and-type pair as given by a caller: a field name and its type.
pub open spec fn str_pair_view(p: (&str, Box<TypeDef>)) -> (Seq<char>, TypeDef) {
    (p.0@, *p.1)
}

/// The type of the first field with the given name.
pub open spec fn lookup_field(s: Seq<NamedTypeDef>, name: Seq<char>) -> Option<TypeDef>
    decreases s.len(),
{
    if s.len() == 0 {
        None
    } else if s[0].0@ == name {
        Some(*s[0].1)
    } else {
        lookup_field(s.drop_first(), name)
    }
}

/// The number of fields of the flattened field list: a field that holds a
/// record counts as the fields of that record, flattened in turn.
pub open spec fn flat_len(s: Seq<NamedTypeDef>) -> int
    decreases s,
{
    if s.len() == 0 {
        0
    } else {
        flat_len(s.drop_last()) + match *s.last().1 {
            TypeDef::Record(r) => {
                proof {
                    r.lemma_fields_decrease();
                }
                flat_len(r.fields())
            },
            _ => 1,
        }
    }
}

/// The flattened count of a field list is never negative.
pub proof fn lemma_flat_len_nonneg(s: Seq<NamedTypeDef>)
    ensures
        flat_len(s) >= 0,
    decreases s,
{
    if s.len() > 0 {
        lemma_flat_len_nonneg(s.drop_last());
        if let TypeDef::Record(r) = *s.last().1 {
            r.lemma_fields_decrease();
            lemma_flat_len_nonneg(r.fields());
        }
    }
}

/// The flattened count of a prefix of a field list is no more than that of
/// the whole list.
proof fn lemma_flat_len_prefix(s: Seq<NamedTypeDef>, i: int)
    requires
        0 <= i <= s.len(),
    ensures
        flat_len(s.take(i)) <= flat_len(s),
    decreases s.len(),
{
    if i == s.len() {
        assert(s.take(i) =~= s);
    } else {
        assert(s.drop_last().take(i) =~= s.take(i));
        lemma_flat_len_prefix(s.drop_last(), i);
        if let TypeDef::Record(r) = *s.last().1 {
            lemma_flat_len_nonneg(r.fields());
        }
    }
}

/// The number of values that a value of the type takes.
pub open spec fn field_num(t: TypeDef) -> int
    decreases t,
{
    match t {
        TypeDef::Record(r) => flat_len(r.fields()),
        TypeDef::List(b) => field_num(*b),
        TypeDef::OutputStream(b) => field_num(*b),
        _ => 1,
    }
}

/// The number of values of the type is known here and fits in a `usize`.
/// Lazy records and routes keep their field counts with their byte
/// parsers, which are not part of this library.
pub open spec fn field_num_known(t: TypeDef) -> bool
    decreases t,
{
    match t {
        TypeDef::Record(r) => flat_len(r.fields()) <= usize::MAX,
        TypeDef::List(b) => field_num_known(*b),
        TypeDef::OutputStream(b) => field_num_known(*b),
        TypeDef::LazyRecord(_) | TypeDef::PrefixRoute => false,
        _ => true,
    }
}

proof fn lemma_reverse_map_multiset<A, B>(s: Seq<A>, f: spec_fn(A) -> B)
    ensures
        s.reverse().map_values(f).to_multiset() == s.map_values(f).to_multiset(),
{
    assert(s.reverse().map_values(f) =~= s.map_values(f).reverse());
    s.map_values(f).lemma_reverse_to_multiset();
}

/// A copy of a list of field indexes, index by index.
fn copy_field_indexes(v: &Vec<FieldIndex>) -> (res: Vec<FieldIndex>)
    ensures
        res@.len() == v@.len(),
        forall|i: int| 0 <= i < v@.len() ==> (#[trigger] res@[i]).0@ == v@[i].0@,
{
    let mut res: Vec<FieldIndex> = Vec::new();
    let mut i: usize = 0;
    while i < v.len()
        invariant
            i <= v@.len(),
            res@.len() == i,
            forall|j: int| 0 <= j < i ==> (#[trigger] res@[j]).0@ == v@[j].0@,
        decreases v@.len() - i,
    {
        let src = &v[i].0;
        let mut w: Vec<usize> = Vec::new();
        let mut k: usize = 0;
        while k < src.len()
            invariant
                k <= src@.len(),
                w@ == src@.take(k as int),
            decreases src@.len() - k,
        {
            w.push(src[k]);
            assert(src@.take(k + 1) =~= src@.take(k as int).push(src@[k as int]));
            k = k + 1;
        }
        assert(src@.take(k as int) =~= src@);
        res.push(FieldIndex(w));
        i = i + 1;
    }
    res
}

/// A copy of a type definition with the same content.
pub fn copy_type_def(t: &TypeDef) -> (res: TypeDef)
    ensures
        same_type_def(res, *t),
    decreases t,
{
    match t {
        TypeDef::Rib(x) => {
            let inner = copy_type_def(&x.0);
            let idx = match &x.1 {
                None => None,
                Some(v) => {
                    let w = copy_field_indexes(v);
                    proof {
                        lemma_compare_field_indexes_same(w@, v@);
                    }
                    Some(w)
                },
            };
            TypeDef::Rib((Box::new(inner), idx))
        },
        TypeDef::Table(x) => TypeDef::Table(Box::new(copy_type_def(x))),
        TypeDef::OutputStream(x) => TypeDef::OutputStream(Box::new(copy_type_def(x))),
        TypeDef::List(x) => TypeDef::List(Box::new(copy_type_def(x))),
        TypeDef::Record(r) => {
            let c = copy_record(r);
            TypeDef::Record(c)
        },
        TypeDef::GlobalEnum(g) => TypeDef::GlobalEnum(*g),
        TypeDef::ConstEnumVariant(s) => {
            proof {
                lemma_compare_chars_reflexive(s@);
            }
            TypeDef::ConstEnumVariant(s.clone())
        },
        TypeDef::LazyRecord(l) => TypeDef::LazyRecord(*l),
        TypeDef::U32 => TypeDef::U32,
        TypeDef::U16 => TypeDef::U16,
        TypeDef::U8 => TypeDef::U8,
        TypeDef::Bool => TypeDef::Bool,
        TypeDef::Prefix => TypeDef::Prefix,
        TypeDef::PrefixLength => TypeDef::PrefixLength,
        TypeDef::AfiSafi => TypeDef::AfiSafi,
        TypeDef::PathId => TypeDef::PathId,
        TypeDef::IpAddr => TypeDef::IpAddr,
        TypeDef::Asn => TypeDef::Asn,
        TypeDef::PrefixRoute => TypeDef::PrefixRoute,
        TypeDef::FlowSpecRoute => TypeDef::FlowSpecRoute,
        TypeDef::RouteContext => TypeDef::RouteContext,
        TypeDef::AsPath => TypeDef::AsPath,
        TypeDef::Hop => TypeDef::Hop,
        TypeDef::Community => TypeDef::Community,
        TypeDef::Nlri => TypeDef::Nlri,
        TypeDef::Origin => TypeDef::Origin,
        TypeDef::LocalPref => TypeDef::LocalPref,
        TypeDef::MultiExitDisc => TypeDef::MultiExitDisc,
        TypeDef::NextHop => TypeDef::NextHop,
        TypeDef::AtomicAggregate => TypeDef::AtomicAggregate,
        TypeDef::AggregatorInfo => TypeDef::AggregatorInfo,
        TypeDef::Provenance => TypeDef::Provenance,
        TypeDef::NlriStatus => TypeDef::NlriStatus,
        TypeDef::PeerId => TypeDef::PeerId,
        TypeDef::PeerRibType => TypeDef::PeerRibType,
        TypeDef::HexLiteral => TypeDef::HexLiteral,
        TypeDef::IntegerLiteral => TypeDef::IntegerLiteral,
        TypeDef::StringLiteral => TypeDef::StringLiteral,
        TypeDef::AcceptReject(a) => TypeDef::AcceptReject(*a),
        TypeDef::Unknown => TypeDef::Unknown,
    }
}

/// A copy of a record type definition with the same fields.
pub fn copy_record(r: &RecordTypeDef) -> (res: RecordTypeDef)
    ensures
        same_fields(res.fields(), r.fields()),
    decreases r,
{
    proof {
        r.lemma_fields_decrease();
    }
    let mut w: Vec<NamedTypeDef> = Vec::new();
    let mut i: usize = 0;
    while i < r.0.len()
        invariant
            i <= r.fields().len(),
            w@.len() == i,
            forall|j: int|
                0 <= j < i ==> (#[trigger] w@[j]).0@ == r.fields()[j].0@ && same_type_def(
                    *w@[j].1,
                    *r.fields()[j].1,
                ),
        decreases r.fields().len() - i,
    {
        proof {
            assert(decreases_to!(r.fields() => r.fields()[i as int]));
        }
        let name = r.0[i].0.clone();
        let ty = copy_type_def(&r.0[i].1);
        w.push((name, Box::new(ty)));
        i = i + 1;
    }
    proof {
        lemma_compare_fields_same(w@, r.fields());
    }
    RecordTypeDef(w)
}

impl Clone for TypeDef {
    fn clone(&self) -> (res: Self)
        ensures
            same_type_def(res, *self),
    {
        copy_type_def(self)
    }
}

impl Clone for RecordTypeDef {
    fn clone(&self) -> (res: Self)
        ensures
            same_fields(res.fields(), self.fields()),
    {
        copy_record(self)
    }
}

/// The names of two field lists agree at every position the two share;
/// for lists of the same length, the names are the same.
pub open spec fn names_agree(a: Seq<NamedTypeDef>, b: Seq<NamedTypeDef>) -> bool {
    forall|i: int| 0 <= i < a.len() && i < b.len() ==> (#[trigger] a[i]).0@ == b[i].0@
}

/// A record keeps its fields sorted, so that two records made of the same
/// fields, given in any order, have in each place a field of the same name
/// and of a type with the same content, and so compare equal, without ever
/// being sorted again.
pub proof fn law_records_of_the_same_fields_are_equal(a: RecordTypeDef, b: RecordTypeDef)
    requires
        a.is_sorted(),
        b.is_sorted(),
        a.fields().map_values(|p: NamedTypeDef| named_view(p)).to_multiset() == b.fields().map_values(
            |p: NamedTypeDef| named_view(p),
        ).to_multiset(),
    ensures
        a.fields().len() == b.fields().len(),
        names_agree(a.fields(), b.fields()),
        forall|i: int|
            0 <= i < a.fields().len() ==> same_type_def(
                *(#[trigger] a.fields()[i]).1,
                *b.fields()[i].1,
            ),
{
    let va = a.fields().map_values(|p: NamedTypeDef| named_view(p));
    let vb = b.fields().map_values(|p: NamedTypeDef| named_view(p));
    lemma_fields_sorted_views(a.fields());
    lemma_fields_sorted_views(b.fields());
    lemma_sorted_same_views(va, vb);
    assert forall|i: int| 0 <= i < a.fields().len() && i < b.fields().len() implies (
    #[trigger] a.fields()[i]).0@ == b.fields()[i].0@ && same_type_def(
        *a.fields()[i].1,
        *b.fields()[i].1,
    ) by {
        assert(compare_view(va[i], vb[i]) == 0);
        lemma_compare_chars_antisymmetric(va[i].0, vb[i].0);
        if compare_chars(va[i].0, vb[i].0) == 0 {
            lemma_compare_chars_zero(va[i].0, vb[i].0);
        }
    }
}

/// Equivalence of two RecordTypeDefs is defined as the two vectors being
/// completely the same, or the field names being the same. The types
/// of the fields are being left out of the equivalence comparison
/// here! That is the responsibility of the evaluator.
impl PartialEq for RecordTypeDef {
    fn eq(&self, other: &Self) -> (res: bool) {
        // Two identical field lists have the same names, so comparing the
        // names alone gives the same answer for them.
        if self.0.len() != other.0.len() {
            return false;
        }
        let n = self.0.len();
        let mut i: usize = 0;
        while i < n
            invariant
                n <= self.0@.len(),
                n <= other.0@.len(),
                i <= n,
                forall|j: int| 0 <= j < i ==> (#[trigger] self.0@[j]).0@ == other.0@[j].0@,
            decreases n - i,
        {
            if !(self.0[i].0 == other.0[i].0) {
                return false;
            }
            i = i + 1;
        }
        true
    }
}

impl PartialEqSpecImpl for RecordTypeDef {
    open spec fn obeys_eq_spec() -> bool {
        true
    }

    open spec fn eq_spec(&self, other: &RecordTypeDef) -> bool {
        self.fields().len() == other.fields().len() && names_agree(self.fields(), other.fields())
    }
}

impl TypeDef {
    /// Makes a record type of the given fields, sorted.
    pub fn new_record_type_from_short_string(type_ident_pairs: Vec<NamedTypeDef>) -> (res: Result<
        TypeDef,
        CompileError,
    >)
        ensures
            res matches Ok(TypeDef::Record(r)) && r.is_sorted() && r.fields().to_multiset()
                == type_ident_pairs@.to_multiset(),
    {
        let sorted = sort_fields(type_ident_pairs);
        Ok(TypeDef::Record(RecordTypeDef::new(sorted)))
    }

    // Gets the type of a field of a Record Type, which can be a primitive,
    // but it can also be an anonymous record type.
    pub fn get_field(&self, field: &str) -> (res: Option<TypeDef>)
        ensures
            same_opt_type_def(res, field_of(*self, field@)),
    {
        match self {
            TypeDef::Record(fields) => find_field(fields, field),
            TypeDef::OutputStream(type_def) => {
                if let TypeDef::Record(fields) = &(**type_def) {
                    find_field(fields, field)
                } else {
                    None
                }
            },
            _ => None,
        }
    }

    /// Whether this is a built-in type rather than a data source, list or
    /// record.
    pub fn is_builtin(&self) -> (res: bool)
        ensures
            res == is_builtin_type(*self),
    {
        !matches!(self, TypeDef::Rib(_) | TypeDef::Table(_) | TypeDef::List(_) | TypeDef::Record(_))
    }

    /// The number of values that a value of this type takes: the flattened
    /// number of fields of a record, and one for other types. Lazy records
    /// and routes count their fields with their byte parsers, which are not
    /// part of this library: they are not counted here.
    pub fn get_field_num(&self) -> (res: usize)
        requires
            field_num_known(*self),
        ensures
            res == field_num(*self),
        decreases self,
    {
        match self {
            TypeDef::Record(rec_type) => rec_type.recursive_len(),
            TypeDef::List(list) => list.get_field_num(),
            TypeDef::OutputStream(rec) => rec.get_field_num(),
            _ => 1,
        }
    }

    /// Makes a record type of the given names and types, sorted.
    pub fn new_record_type(type_ident_pairs: Vec<(&str, Box<TypeDef>)>) -> (res: Result<
        TypeDef,
        CompileError,
    >)
        ensures
            res matches Ok(TypeDef::Record(r)) && r.is_sorted() && r.fields().map_values(
                |p: NamedTypeDef| named_view(p),
            ).to_multiset() == type_ident_pairs@.map_values(
                |p: (&str, Box<TypeDef>)| str_pair_view(p),
            ).to_multiset(),
    {
        Ok(TypeDef::Record(RecordTypeDef::from_str_pairs(type_ident_pairs)))
    }

    /// The built-in type that a type name stands for; an error for a name
    /// that stands for no built-in type.
    pub fn from_identifier(ty: &Identifier) -> (res: Result<TypeDef, CompileError>)
        ensures
            match builtin_type_named(ty.0@) {
                Some(t) => res matches Ok(r) && same_type_def(r, t),
                None => res matches Err(e) && e.message@ == "Undefined type: "@ + ty.0@,
            },
    {
        type_named(ty.0.as_str())
    }

    /// The built-in type that a type name in a type position stands for;
    /// there a route is written `Route`. An error for a name that stands for
    /// no built-in type.
    pub fn from_type_identifier(ty: &TypeIdentifier) -> (res: Result<TypeDef, CompileError>)
        ensures
            match builtin_type_identified(ty.ident@) {
                Some(t) => res matches Ok(r) && same_type_def(r, t),
                None => res matches Err(e) && e.message@ == "Undefined type: "@ + ty.ident@,
            },
    {
        let n = ty.ident.as_str();
        if str_eq(n, "Route") {
            Ok(TypeDef::PrefixRoute)
        } else if str_eq(n, "PrefixRoute") || str_eq(n, "FlowSpecRoute") {
            Err(undefined_type(n))
        } else {
            type_named(n)
        }
    }
}

/// The built-in type with the given name; an error for a name that names no
/// built-in type.
fn type_named(n: &str) -> (res: Result<TypeDef, CompileError>)
    ensures
        match builtin_type_named(n@) {
            Some(t) => res matches Ok(r) && same_type_def(r, t),
            None => res matches Err(e) && e.message@ == "Undefined type: "@ + n@,
        },
{
    {
        if str_eq(n, "U32") {
            Ok(TypeDef::U32)
        } else if str_eq(n, "U16") {
            Ok(TypeDef::U16)
        } else if str_eq(n, "U8") {
            Ok(TypeDef::U8)
        } else if str_eq(n, "IntegerLiteral") {
            Ok(TypeDef::IntegerLiteral)
        } else if str_eq(n, "String") {
            Ok(TypeDef::StringLiteral)
        } else if str_eq(n, "Bool") {
            Ok(TypeDef::Bool)
        } else if str_eq(n, "HexLiteral") {
            Ok(TypeDef::HexLiteral)
        } else if str_eq(n, "IpAddress") {
            Ok(TypeDef::IpAddr)
        } else if str_eq(n, "Prefix") {
            Ok(TypeDef::Prefix)
        } else if str_eq(n, "AfiSafi") {
            Ok(TypeDef::AfiSafi)
        } else if str_eq(n, "PathId") {
            Ok(TypeDef::PathId)
        } else if str_eq(n, "PrefixLength") {
            Ok(TypeDef::PrefixLength)
        } else if str_eq(n, "LocalPref") {
            Ok(TypeDef::LocalPref)
        } else if str_eq(n, "AtomicAggregate") {
            Ok(TypeDef::AtomicAggregate)
        } else if str_eq(n, "AggregatorInfo") {
            Ok(TypeDef::AggregatorInfo)
        } else if str_eq(n, "NextHop") {
            Ok(TypeDef::NextHop)
        } else if str_eq(n, "MultiExitDisc") {
            Ok(TypeDef::MultiExitDisc)
        } else if str_eq(n, "RouteStatus") {
            Ok(TypeDef::NlriStatus)
        } else if str_eq(n, "Community") {
            Ok(TypeDef::Community)
        } else if str_eq(n, "Nlri") {
            Ok(TypeDef::Nlri)
        } else if str_eq(n, "Asn") {
            Ok(TypeDef::Asn)
        } else if str_eq(n, "AsPath") {
            Ok(TypeDef::AsPath)
        } else if str_eq(n, "Hop") {
            Ok(TypeDef::Hop)
        } else if str_eq(n, "Origin") {
            Ok(TypeDef::Origin)
        } else if str_eq(n, "PrefixRoute") {
            Ok(TypeDef::PrefixRoute)
        } else if str_eq(n, "FlowSpecRoute") {
            Ok(TypeDef::FlowSpecRoute)
        } else if str_eq(n, "RouteContext") {
            Ok(TypeDef::RouteContext)
        } else if str_eq(n, "Provenance") {
            Ok(TypeDef::Provenance)
        } else if str_eq(n, "PeerId") {
            Ok(TypeDef::PeerId)
        } else if str_eq(n, "PeerRibType") {
            Ok(TypeDef::PeerRibType)
        } else if str_eq(n, "BgpUpdateMessage") {
            Ok(TypeDef::LazyRecord(LazyRecordTypeDef::UpdateMessage))
        } else if str_eq(n, "BmpMessage") {
            Ok(TypeDef::GlobalEnum(GlobalEnumTypeDef::BmpMessageType))
        } else if str_eq(n, "BmpRouteMonitoringMessage") {
            Ok(TypeDef::LazyRecord(LazyRecordTypeDef::RouteMonitoring))
        } else if str_eq(n, "BmpPeerDownNotification") {
            Ok(TypeDef::LazyRecord(LazyRecordTypeDef::PeerDownNotification))
        } else if str_eq(n, "BmpPeerUpNotification") {
            Ok(TypeDef::LazyRecord(LazyRecordTypeDef::PeerUpNotification))
        } else if str_eq(n, "BmpInitationMessage") {
            Ok(TypeDef::LazyRecord(LazyRecordTypeDef::InitiationMessage))
        } else if str_eq(n, "BmpTerminationMessage") {
            Ok(TypeDef::LazyRecord(LazyRecordTypeDef::TerminationMessage))
        } else if str_eq(n, "BmpStatisticsReport") {
            Ok(TypeDef::LazyRecord(LazyRecordTypeDef::StatisticsReport))
        } else if str_eq(n, "BmpMessageType") {
            let name = String::from_str("BMP_MESSAGE_TYPE");
            proof {
                lemma_compare_chars_reflexive(name@);
            }
            Ok(TypeDef::ConstEnumVariant(name))
        } else {
            Err(undefined_type(n))
        }
    }
}

/// The built-in type that a name in a type position stands for: as
/// `builtin_type_named`, but a route is named `Route` there, and neither
/// `PrefixRoute` nor `FlowSpecRoute` names a type.
pub open spec fn builtin_type_identified(name: Seq<char>) -> Option<TypeDef> {
    if name == "Route"@ {
        Some(TypeDef::PrefixRoute)
    } else if name == "PrefixRoute"@ || name == "FlowSpecRoute"@ {
        None
    } else {
        builtin_type_named(name)
    }
}

/// A name in a type position and the same name as an identifier stand for
/// the same type, but for the names of routes.
pub proof fn law_type_names_agree(name: Seq<char>)
    requires
        name != "Route"@,
        name != "PrefixRoute"@,
        name != "FlowSpecRoute"@,
    ensures
        builtin_type_identified(name) == builtin_type_named(name),
{
}

/// Distinct names resolve to distinct built-in types.
pub proof fn law_type_names_are_distinct(a: Seq<char>, b: Seq<char>)
    requires
        builtin_type_named(a) is Some,
        builtin_type_named(a) == builtin_type_named(b),
    ensures
        a == b,
{
}

/// The error for a type name that names no type.
fn undefined_type(name: &str) -> (res: CompileError)
    ensures
        res.message@ == "Undefined type: "@ + name@,
{
    let mut message = String::from_str("Undefined type: ");
    message.append(name);
    CompileError { message }
}

/// The number of fields of the flattened field list.
fn flat_len_of(fields: &Vec<NamedTypeDef>) -> (res: usize)
    requires
        flat_len(fields@) <= usize::MAX,
    ensures
        res == flat_len(fields@),
    decreases fields@,
{
    let mut len: usize = 0;
    let mut i: usize = 0;
    while i < fields.len()
        invariant
            i <= fields@.len(),
            flat_len(fields@) <= usize::MAX,
            len == flat_len(fields@.take(i as int)),
        decreases fields@.len() - i,
    {
        let ghost s = fields@;
        proof {
            assert(s.take(i + 1).drop_last() =~= s.take(i as int));
            assert(s.take(i + 1).last() == s[i as int]);
            lemma_flat_len_prefix(s, i + 1);
            lemma_flat_len_nonneg(s.take(i as int));
            assert(decreases_to!(s => s[i as int]));
        }
        if let TypeDef::Record(rec_type) = &*(fields[i].1) {
            proof {
                rec_type.lemma_fields_decrease();
                lemma_flat_len_nonneg(rec_type.fields());
            }
            let inner = flat_len_of(&rec_type.0);
            len = len + inner;
        } else {
            len = len + 1;
        }
        i = i + 1;
    }
    assert(fields@.take(i as int) =~= fields@);
    len
}

/// The type of the first field of a record with the given name.
fn find_field(rec: &RecordTypeDef, field: &str) -> (res: Option<TypeDef>)
    ensures
        same_opt_type_def(res, lookup_field(rec.fields(), field@)),
{
    let fields = rec.iter();
    let mut i: usize = 0;
    assert(fields@.skip(0) =~= fields@);
    while i < fields.len()
        invariant
            fields@ == rec.fields(),
            i <= fields@.len(),
            lookup_field(fields@, field@) == lookup_field(fields@.skip(i as int), field@),
        decreases fields@.len() - i,
    {
        if str_eq(fields[i].0.as_str(), field) {
            return Some(copy_type_def(&fields[i].1));
        }
        assert(fields@.skip(i as int).drop_first() =~= fields@.skip(i + 1));
        i = i + 1;
    }
    None
}

//------------ MethodProps ----------------------------------------------------

/// The token that the compiler emits for a field access, a method or an enum
/// variant.
#[derive(Debug)]
pub enum Token {
    /// The path of field indexes that leads to a (nested) field.
    FieldAccess(Vec<u8>),
    Method(usize),
    Variant(usize),
    ConstEnumVariant,
}

/// What the compiler knows of a method: the type it returns, its token, the
/// types of its arguments and whether it consumes its receiver.
#[derive(Debug)]
pub struct MethodProps {
    pub return_type: TypeDef,
    pub method_token: Token,
    pub arg_types: Vec<TypeDef>,
    pub consume: bool,
}

impl MethodProps {
    pub fn new(return_type_value: TypeDef, method_token: usize, arg_types: Vec<TypeDef>) -> (res:
        Self)
        ensures
            res.return_type == return_type_value,
            res.method_token == Token::Method(method_token),
            res.arg_types == arg_types,
            !res.consume,
    {
        MethodProps {
            return_type: return_type_value,
            method_token: Token::Method(method_token),
            arg_types,
            consume: false,
        }
    }

    /// The same properties, for a method that consumes its receiver.
    pub fn consume_value(self) -> (res: Self)
        ensures
            res.return_type == self.return_type,
            res.method_token == self.method_token,
            res.arg_types == self.arg_types,
            res.consume,
    {
        let mut s = self;
        s.consume = true;
        s
    }
}

} // verus!
