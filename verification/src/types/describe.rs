//! The text by which a type definition is shown to a Roto programmer.

use vstd::prelude::*;

use vstd::string::StringExecFns;

use super::typedef::{builtin_type_named, NamedTypeDef, RecordTypeDef, TypeDef};

verus! {

/// The type holds no built-in enum and no lazy record, whose texts are
/// kept with their own definitions, which are not part of this library.
pub open spec fn describable(t: TypeDef) -> bool
    decreases t,
{
    match t {
        TypeDef::GlobalEnum(_) | TypeDef::LazyRecord(_) => false,
        TypeDef::Record(r) => {
            proof {
                r.lemma_fields_decrease();
            }
            fields_describable(r.fields())
        },
        TypeDef::List(b) => describable(*b),
        TypeDef::Rib(r) => describable(*r.0),
        TypeDef::Table(b) => describable(*b),
        TypeDef::OutputStream(b) => describable(*b),
        _ => true,
    }
}

pub open spec fn fields_describable(s: Seq<NamedTypeDef>) -> bool
    decreases s,
{
    if s.len() == 0 {
        true
    } else {
        fields_describable(s.drop_last()) && describable(*s.last().1)
    }
}

/// The name of a type that has no parts.
pub open spec fn plain_type_text(t: TypeDef) -> Seq<char> {
    match t {
        TypeDef::AsPath => "AsPath"@,
        TypeDef::Hop => "Hop"@,
        TypeDef::Prefix => "Prefix"@,
        TypeDef::AfiSafi => "AFI SAFI"@,
        TypeDef::PathId => "Path ID"@,
        TypeDef::U32 => "U32"@,
        TypeDef::U16 => "U16"@,
        TypeDef::Asn => "Asn"@,
        TypeDef::IpAddr => "IpAddress"@,
        TypeDef::PrefixRoute => "Prefix Route"@,
        TypeDef::FlowSpecRoute => "FlowSpec Route"@,
        TypeDef::RouteContext => "Route Context"@,
        TypeDef::Provenance => "Provenance Record"@,
        TypeDef::PrefixLength => "PrefixLength"@,
        TypeDef::IntegerLiteral => "IntegerLiteral"@,
        TypeDef::U8 => "U8"@,
        TypeDef::Bool => "Boolean"@,
        TypeDef::Community => "Community"@,
        TypeDef::Nlri => "NLRI"@,
        TypeDef::Origin => "Origin"@,
        TypeDef::NlriStatus => "RouteStatus"@,
        TypeDef::HexLiteral => "HexLiteral"@,
        TypeDef::StringLiteral => "String"@,
        TypeDef::AcceptReject(_) => "AcceptReject"@,
        TypeDef::LocalPref => "Local Preference"@,
        TypeDef::MultiExitDisc => "Multi Exit Discriminator"@,
        TypeDef::NextHop => "Next Hop"@,
        TypeDef::AtomicAggregate => "Atomic Aggregate"@,
        TypeDef::AggregatorInfo => "AggregatorInfo"@,
        TypeDef::PeerId => "PeerId"@,
        TypeDef::PeerRibType => "PeerRibType"@,
        _ => "Unknown"@,
    }
}

/// The built-in types that are shown by the name that resolves to them.
/// The others keep the longer texts they are shown by ("Boolean", "Next
/// Hop", ...), which name no type.
pub open spec fn shown_by_its_name(t: TypeDef) -> bool {
    match t {
        TypeDef::AsPath | TypeDef::Hop | TypeDef::Prefix | TypeDef::U32 | TypeDef::U16
        | TypeDef::U8 | TypeDef::Asn | TypeDef::IpAddr | TypeDef::PrefixLength
        | TypeDef::IntegerLiteral | TypeDef::Community | TypeDef::Origin | TypeDef::NlriStatus
        | TypeDef::HexLiteral | TypeDef::StringLiteral | TypeDef::AggregatorInfo
        | TypeDef::PeerId | TypeDef::PeerRibType => true,
        _ => false,
    }
}

/// A built-in type that is shown by a name is shown by the very name that
/// resolves to it: "Prefix" resolves to the prefix type, which is shown as
/// "Prefix".
pub proof fn law_type_shown_by_the_name_that_resolves_to_it(name: Seq<char>, t: TypeDef)
    requires
        builtin_type_named(name) == Some(t),
        shown_by_its_name(t),
    ensures
        type_def_text(t) == name,
{
}

/// The types that have no parts and a text of their own.
pub open spec fn plain_shown(t: TypeDef) -> bool {
    match t {
        TypeDef::AsPath | TypeDef::Hop | TypeDef::Prefix | TypeDef::AfiSafi | TypeDef::PathId
        | TypeDef::U32 | TypeDef::U16 | TypeDef::Asn | TypeDef::IpAddr | TypeDef::PrefixRoute
        | TypeDef::FlowSpecRoute | TypeDef::RouteContext | TypeDef::Provenance
        | TypeDef::PrefixLength | TypeDef::IntegerLiteral | TypeDef::U8 | TypeDef::Bool
        | TypeDef::Community | TypeDef::Nlri | TypeDef::Origin | TypeDef::NlriStatus
        | TypeDef::HexLiteral | TypeDef::StringLiteral | TypeDef::AcceptReject(_)
        | TypeDef::LocalPref | TypeDef::MultiExitDisc | TypeDef::NextHop
        | TypeDef::AtomicAggregate | TypeDef::AggregatorInfo | TypeDef::PeerId
        | TypeDef::PeerRibType => true,
        _ => false,
    }
}

/// Distinct plain types are shown by distinct texts (the verdict type is
/// shown as one, whatever the verdict).
#[verifier::rlimit(100)]
pub proof fn law_plain_types_have_distinct_texts(a: TypeDef, b: TypeDef)
    requires
        plain_shown(a),
        plain_shown(b),
        plain_type_text(a) == plain_type_text(b),
    ensures
        a == b || (a is AcceptReject && b is AcceptReject),
{
    reveal_strlit("AsPath");
    reveal_strlit("Hop");
    reveal_strlit("Prefix");
    reveal_strlit("AFI SAFI");
    reveal_strlit("Path ID");
    reveal_strlit("U32");
    reveal_strlit("U16");
    reveal_strlit("Asn");
    reveal_strlit("IpAddress");
    reveal_strlit("Prefix Route");
    reveal_strlit("FlowSpec Route");
    reveal_strlit("Route Context");
    reveal_strlit("Provenance Record");
    reveal_strlit("PrefixLength");
    reveal_strlit("IntegerLiteral");
    reveal_strlit("U8");
    reveal_strlit("Boolean");
    reveal_strlit("Community");
    reveal_strlit("NLRI");
    reveal_strlit("Origin");
    reveal_strlit("RouteStatus");
    reveal_strlit("HexLiteral");
    reveal_strlit("String");
    reveal_strlit("AcceptReject");
    reveal_strlit("Local Preference");
    reveal_strlit("Multi Exit Discriminator");
    reveal_strlit("Next Hop");
    reveal_strlit("Atomic Aggregate");
    reveal_strlit("AggregatorInfo");
    reveal_strlit("PeerId");
    reveal_strlit("PeerRibType");
    assert("AFI SAFI"@.len() == 8);
    assert("AFI SAFI"@[0] == 'A');
    assert("AcceptReject"@.len() == 12);
    assert("AcceptReject"@[0] == 'A');
    assert("AggregatorInfo"@.len() == 14);
    assert("AggregatorInfo"@[0] == 'A');
    assert("AsPath"@.len() == 6);
    assert("AsPath"@[0] == 'A');
    assert("Asn"@.len() == 3);
    assert("Asn"@[0] == 'A');
    assert("Atomic Aggregate"@.len() == 16);
    assert("Atomic Aggregate"@[0] == 'A');
    assert("Boolean"@.len() == 7);
    assert("Boolean"@[0] == 'B');
    assert("Community"@.len() == 9);
    assert("Community"@[0] == 'C');
    assert("FlowSpec Route"@.len() == 14);
    assert("FlowSpec Route"@[0] == 'F');
    assert("HexLiteral"@.len() == 10);
    assert("Hop"@.len() == 3);
    assert("Hop"@[0] == 'H');
    assert("IntegerLiteral"@.len() == 14);
    assert("IntegerLiteral"@[0] == 'I');
    assert("IpAddress"@.len() == 9);
    assert("IpAddress"@[0] == 'I');
    assert("Local Preference"@.len() == 16);
    assert("Local Preference"@[0] == 'L');
    assert("Multi Exit Discriminator"@.len() == 24);
    assert("NLRI"@.len() == 4);
    assert("Next Hop"@.len() == 8);
    assert("Next Hop"@[0] == 'N');
    assert("Origin"@.len() == 6);
    assert("Origin"@[0] == 'O');
    assert("Path ID"@.len() == 7);
    assert("Path ID"@[0] == 'P');
    assert("PeerId"@.len() == 6);
    assert("PeerId"@[0] == 'P');
    assert("PeerId"@[1] == 'e');
    assert("PeerRibType"@.len() == 11);
    assert("PeerRibType"@[0] == 'P');
    assert("Prefix Route"@.len() == 12);
    assert("Prefix Route"@[0] == 'P');
    assert("Prefix Route"@[6] == ' ');
    assert("Prefix"@.len() == 6);
    assert("Prefix"@[0] == 'P');
    assert("Prefix"@[1] == 'r');
    assert("PrefixLength"@.len() == 12);
    assert("PrefixLength"@[0] == 'P');
    assert("PrefixLength"@[6] == 'L');
    assert("Provenance Record"@.len() == 17);
    assert("Route Context"@.len() == 13);
    assert("RouteStatus"@.len() == 11);
    assert("RouteStatus"@[0] == 'R');
    assert("String"@.len() == 6);
    assert("String"@[0] == 'S');
    assert("U16"@.len() == 3);
    assert("U16"@[0] == 'U');
    assert("U16"@[1] == '1');
    assert("U32"@.len() == 3);
    assert("U32"@[0] == 'U');
    assert("U32"@[1] == '3');
    assert("U8"@.len() == 2);
}

/// The text of a type: its name, with the texts of its parts.
pub open spec fn type_def_text(t: TypeDef) -> Seq<char>
    decreases t,
{
    match t {
        TypeDef::Record(r) => {
            proof {
                r.lemma_fields_decrease();
            }
            "Record "@ + "{"@ + fields_text(r.fields()) + "}"@
        },
        TypeDef::List(b) => "List of "@ + type_def_text(*b),
        TypeDef::ConstEnumVariant(c) => "ConstU8EnumVariant('"@ + c@ + "')"@,
        TypeDef::Rib(r) => "Rib of "@ + type_def_text(*r.0),
        TypeDef::Table(b) => "Table of "@ + type_def_text(*b),
        TypeDef::OutputStream(b) => "Output Stream of "@ + type_def_text(*b),
        _ => plain_type_text(t),
    }
}

/// The texts of fields, each as `name: type, `.
pub open spec fn fields_text(s: Seq<NamedTypeDef>) -> Seq<char>
    decreases s,
{
    if s.len() == 0 {
        Seq::empty()
    } else {
        fields_text(s.drop_last()) + s.last().0@ + ": "@ + type_def_text(*s.last().1) + ", "@
    }
}

/// The name of a type that has no parts.
fn plain_type_name(t: &TypeDef) -> (res: &'static str)
    ensures
        res@ == plain_type_text(*t),
{
    match t {
        TypeDef::AsPath => "AsPath",
        TypeDef::Hop => "Hop",
        TypeDef::Prefix => "Prefix",
        TypeDef::AfiSafi => "AFI SAFI",
        TypeDef::PathId => "Path ID",
        TypeDef::U32 => "U32",
        TypeDef::U16 => "U16",
        TypeDef::Asn => "Asn",
        TypeDef::IpAddr => "IpAddress",
        TypeDef::PrefixRoute => "Prefix Route",
        TypeDef::FlowSpecRoute => "FlowSpec Route",
        TypeDef::RouteContext => "Route Context",
        TypeDef::Provenance => "Provenance Record",
        TypeDef::PrefixLength => "PrefixLength",
        TypeDef::IntegerLiteral => "IntegerLiteral",
        TypeDef::U8 => "U8",
        TypeDef::Bool => "Boolean",
        TypeDef::Community => "Community",
        TypeDef::Nlri => "NLRI",
        TypeDef::Origin => "Origin",
        TypeDef::NlriStatus => "RouteStatus",
        TypeDef::HexLiteral => "HexLiteral",
        TypeDef::StringLiteral => "String",
        TypeDef::AcceptReject(_) => "AcceptReject",
        TypeDef::LocalPref => "Local Preference",
        TypeDef::MultiExitDisc => "Multi Exit Discriminator",
        TypeDef::NextHop => "Next Hop",
        TypeDef::AtomicAggregate => "Atomic Aggregate",
        TypeDef::AggregatorInfo => "AggregatorInfo",
        TypeDef::PeerId => "PeerId",
        TypeDef::PeerRibType => "PeerRibType",
        _ => "Unknown",
    }
}

impl TypeDef {
    /// The text by which the type is shown. Built-in enums and lazy records
    /// are shown by texts kept with their own definitions, which are not
    /// part of this library: types that hold them are not described here.
    pub fn describe(&self) -> (res: String)
        requires
            describable(*self),
        ensures
            res@ == type_def_text(*self),
        decreases self,
    {
        match self {
            TypeDef::Record(rec_def) => {
                proof {
                    rec_def.lemma_fields_decrease();
                }
                let mut s = String::from_str("Record ");
                let fields = describe_fields(rec_def.iter());
                s.append(fields.as_str());
                s
            },
            TypeDef::List(list) => {
                let mut s = String::from_str("List of ");
                s.append(list.describe().as_str());
                s
            },
            TypeDef::ConstEnumVariant(c_enum) => {
                let mut s = String::from_str("ConstU8EnumVariant('");
                s.append(c_enum.as_str());
                s.append("')");
                s
            },
            TypeDef::Rib(rib) => {
                let mut s = String::from_str("Rib of ");
                s.append(rib.0.describe().as_str());
                s
            },
            TypeDef::Table(table) => {
                let mut s = String::from_str("Table of ");
                s.append(table.describe().as_str());
                s
            },
            TypeDef::OutputStream(stream) => {
                let mut s = String::from_str("Output Stream of ");
                s.append(stream.describe().as_str());
                s
            },
            _ => String::from_str(plain_type_name(self)),
        }
    }
}

impl RecordTypeDef {
    /// The text by which the record type is shown: its fields between
    /// curly brackets.
    pub fn describe(&self) -> (res: String)
        requires
            fields_describable(self.fields()),
        ensures
            res@ == "{"@ + fields_text(self.fields()) + "}"@,
    {
        describe_fields(self.iter())
    }
}

/// The fields between curly brackets, each as `name: type, `.
fn describe_fields(fields: &Vec<NamedTypeDef>) -> (res: String)
    requires
        fields_describable(fields@),
    ensures
        res@ == "{"@ + fields_text(fields@) + "}"@,
    decreases fields@,
{
    let mut s = String::from_str("{");
    let mut i: usize = 0;
    while i < fields.len()
        invariant
            i <= fields@.len(),
            fields_describable(fields@),
            s@ == "{"@ + fields_text(fields@.take(i as int)),
        decreases fields@.len() - i,
    {
        proof {
            lemma_fields_describable_at(fields@, i as int);
            assert(decreases_to!(fields@ => fields@[i as int]));
            assert(fields@.take(i + 1).drop_last() =~= fields@.take(i as int));
            assert(fields@.take(i + 1).last() == fields@[i as int]);
        }
        s.append(fields[i].0.as_str());
        s.append(": ");
        let ty = fields[i].1.describe();
        s.append(ty.as_str());
        s.append(", ");
        i = i + 1;
    }
    assert(fields@.take(i as int) =~= fields@);
    s.append("}");
    s
}

proof fn lemma_fields_describable_at(s: Seq<NamedTypeDef>, i: int)
    requires
        fields_describable(s),
        0 <= i < s.len(),
    ensures
        describable(*s[i].1),
    decreases s.len(),
{
    if i < s.len() - 1 {
        lemma_fields_describable_at(s.drop_last(), i);
    }
}

} // verus!
