//! The total order on type definitions in which the fields of a record are
//! kept: by field name, then by field type. Names compare character by
//! character; type definitions compare first by the position of their
//! variant in the declaration of `TypeDef`, then by their contents.

use vstd::prelude::*;

use vstd::multiset::Multiset;
use vstd::string::StrSliceExecFns;

use super::typedef::{AcceptReject, FieldIndex, LazyRecordTypeDef, NamedTypeDef, TypeDef};

verus! {

/// Three-way comparison of two integers: -1, 0 or 1.
pub open spec fn compare_int(a: int, b: int) -> int {
    if a < b {
        -1
    } else if a > b {
        1
    } else {
        0
    }
}

/// Lexicographic comparison of two character sequences.
pub open spec fn compare_chars(a: Seq<char>, b: Seq<char>) -> int
    decreases a.len(),
{
    if a.len() == 0 {
        if b.len() == 0 {
            0
        } else {
            -1
        }
    } else if b.len() == 0 {
        1
    } else if a[0] != b[0] {
        compare_int(a[0] as int, b[0] as int)
    } else {
        compare_chars(a.drop_first(), b.drop_first())
    }
}

/// Lexicographic comparison of two sequences of indexes.
pub open spec fn compare_usizes(a: Seq<usize>, b: Seq<usize>) -> int
    decreases a.len(),
{
    if a.len() == 0 {
        if b.len() == 0 {
            0
        } else {
            -1
        }
    } else if b.len() == 0 {
        1
    } else if a[0] != b[0] {
        compare_int(a[0] as int, b[0] as int)
    } else {
        compare_usizes(a.drop_first(), b.drop_first())
    }
}

/// Lexicographic comparison of two sequences of field indexes.
pub open spec fn compare_field_indexes(a: Seq<FieldIndex>, b: Seq<FieldIndex>) -> int
    decreases a.len(),
{
    if a.len() == 0 {
        if b.len() == 0 {
            0
        } else {
            -1
        }
    } else if b.len() == 0 {
        1
    } else if compare_usizes(a[0].0@, b[0].0@) != 0 {
        compare_usizes(a[0].0@, b[0].0@)
    } else {
        compare_field_indexes(a.drop_first(), b.drop_first())
    }
}

/// Comparison of the optional unique-field lists of two RIB types: absent
/// comes first.
pub open spec fn compare_opt_field_indexes(
    a: Option<Vec<FieldIndex>>,
    b: Option<Vec<FieldIndex>>,
) -> int {
    match (a, b) {
        (None, None) => 0,
        (None, Some(_)) => -1,
        (Some(_), None) => 1,
        (Some(x), Some(y)) => compare_field_indexes(x@, y@),
    }
}

/// The position of the variant of a type definition in the declaration of
/// `TypeDef`.
pub open spec fn rank(t: TypeDef) -> int {
    match t {
        TypeDef::Rib(_) => 0,
        TypeDef::Table(_) => 1,
        TypeDef::OutputStream(_) => 2,
        TypeDef::List(_) => 3,
        TypeDef::Record(_) => 4,
        TypeDef::GlobalEnum(_) => 5,
        TypeDef::ConstEnumVariant(_) => 6,
        TypeDef::LazyRecord(_) => 7,
        TypeDef::U32 => 8,
        TypeDef::U16 => 9,
        TypeDef::U8 => 10,
        TypeDef::Bool => 11,
        TypeDef::Prefix => 12,
        TypeDef::PrefixLength => 13,
        TypeDef::AfiSafi => 14,
        TypeDef::PathId => 15,
        TypeDef::IpAddr => 16,
        TypeDef::Asn => 17,
        TypeDef::PrefixRoute => 18,
        TypeDef::FlowSpecRoute => 19,
        TypeDef::RouteContext => 20,
        TypeDef::AsPath => 21,
        TypeDef::Hop => 22,
        TypeDef::Community => 23,
        TypeDef::Nlri => 24,
        TypeDef::Origin => 25,
        TypeDef::LocalPref => 26,
        TypeDef::MultiExitDisc => 27,
        TypeDef::NextHop => 28,
        TypeDef::AtomicAggregate => 29,
        TypeDef::AggregatorInfo => 30,
        TypeDef::Provenance => 31,
        TypeDef::NlriStatus => 32,
        TypeDef::PeerId => 33,
        TypeDef::PeerRibType => 34,
        TypeDef::HexLiteral => 35,
        TypeDef::IntegerLiteral => 36,
        TypeDef::StringLiteral => 37,
        TypeDef::AcceptReject(_) => 38,
        TypeDef::Unknown => 39,
    }
}

pub open spec fn lazy_rank(l: LazyRecordTypeDef) -> int {
    match l {
        LazyRecordTypeDef::UpdateMessage => 0,
        LazyRecordTypeDef::RouteMonitoring => 1,
        LazyRecordTypeDef::PeerUpNotification => 2,
        LazyRecordTypeDef::PeerDownNotification => 3,
        LazyRecordTypeDef::InitiationMessage => 4,
        LazyRecordTypeDef::TerminationMessage => 5,
        LazyRecordTypeDef::StatisticsReport => 6,
    }
}

pub open spec fn accept_reject_rank(a: AcceptReject) -> int {
    match a {
        AcceptReject::Accept => 0,
        AcceptReject::Reject => 1,
        AcceptReject::NoReturn => 2,
    }
}

/// Three-way comparison of two type definitions.
pub open spec fn compare_type_def(a: TypeDef, b: TypeDef) -> int
    decreases a,
{
    if rank(a) != rank(b) {
        compare_int(rank(a), rank(b))
    } else {
        match (a, b) {
            (TypeDef::Rib(x), TypeDef::Rib(y)) => {
                let c = compare_type_def(*x.0, *y.0);
                if c != 0 {
                    c
                } else {
                    compare_opt_field_indexes(x.1, y.1)
                }
            },
            (TypeDef::Table(x), TypeDef::Table(y)) => compare_type_def(*x, *y),
            (TypeDef::OutputStream(x), TypeDef::OutputStream(y)) => compare_type_def(*x, *y),
            (TypeDef::List(x), TypeDef::List(y)) => compare_type_def(*x, *y),
            (TypeDef::Record(x), TypeDef::Record(y)) => {
                proof {
                    x.lemma_fields_decrease();
                }
                compare_fields(x.fields(), y.fields())
            },
            (TypeDef::GlobalEnum(_), TypeDef::GlobalEnum(_)) => 0,
            (TypeDef::ConstEnumVariant(x), TypeDef::ConstEnumVariant(y)) => compare_chars(x@, y@),
            (TypeDef::LazyRecord(x), TypeDef::LazyRecord(y)) => compare_int(
                lazy_rank(x),
                lazy_rank(y),
            ),
            (TypeDef::AcceptReject(x), TypeDef::AcceptReject(y)) => compare_int(
                accept_reject_rank(x),
                accept_reject_rank(y),
            ),
            _ => 0,
        }
    }
}

/// Three-way comparison of two named fields: by name, then by type.
pub open spec fn compare_named(a: NamedTypeDef, b: NamedTypeDef) -> int {
    let c = compare_chars(a.0@, b.0@);
    if c != 0 {
        c
    } else {
        compare_type_def(*a.1, *b.1)
    }
}

/// Lexicographic comparison of two sequences of named fields.
pub open spec fn compare_fields(a: Seq<NamedTypeDef>, b: Seq<NamedTypeDef>) -> int
    decreases a,
{
    if a.len() == 0 {
        if b.len() == 0 {
            0
        } else {
            -1
        }
    } else if b.len() == 0 {
        1
    } else {
        let c = compare_chars(a[0].0@, b[0].0@);
        if c != 0 {
            c
        } else {
            let d = compare_type_def(*a[0].1, *b[0].1);
            if d != 0 {
                d
            } else {
                compare_fields(a.drop_first(), b.drop_first())
            }
        }
    }
}


/// Each element is ordered no later than the one after it.
pub open spec fn fields_sorted(s: Seq<NamedTypeDef>) -> bool {
    forall|i: int| 0 <= i < s.len() - 1 ==> compare_named(#[trigger] s[i], s[i + 1]) <= 0
}

/// Two type definitions have the same content: they stand at the same place
/// in the order.
pub open spec fn same_type_def(a: TypeDef, b: TypeDef) -> bool {
    compare_type_def(a, b) == 0
}

/// Two field lists have the same content.
pub open spec fn same_fields(a: Seq<NamedTypeDef>, b: Seq<NamedTypeDef>) -> bool {
    compare_fields(a, b) == 0
}

//------------ Reflexivity ---------------------------------------------------

pub proof fn lemma_compare_chars_reflexive(a: Seq<char>)
    ensures
        compare_chars(a, a) == 0,
    decreases a.len(),
{
    if a.len() > 0 {
        lemma_compare_chars_reflexive(a.drop_first());
    }
}

pub proof fn lemma_compare_usizes_reflexive(a: Seq<usize>)
    ensures
        compare_usizes(a, a) == 0,
    decreases a.len(),
{
    if a.len() > 0 {
        lemma_compare_usizes_reflexive(a.drop_first());
    }
}

/// Field-index lists whose indexes agree element by element are equal in
/// the order.
pub proof fn lemma_compare_field_indexes_same(a: Seq<FieldIndex>, b: Seq<FieldIndex>)
    requires
        a.len() == b.len(),
        forall|i: int| 0 <= i < a.len() ==> (#[trigger] a[i]).0@ == b[i].0@,
    ensures
        compare_field_indexes(a, b) == 0,
    decreases a.len(),
{
    if a.len() > 0 {
        lemma_compare_usizes_reflexive(a[0].0@);
        assert forall|i: int| 0 <= i < a.len() - 1 implies (#[trigger] a.drop_first()[i]).0@
            == b.drop_first()[i].0@ by {
            assert(a.drop_first()[i] == a[i + 1]);
            assert(b.drop_first()[i] == b[i + 1]);
        }
        lemma_compare_field_indexes_same(a.drop_first(), b.drop_first());
    }
}

/// Field lists whose names agree and whose types have the same content,
/// element by element, have the same content.
pub proof fn lemma_compare_fields_same(a: Seq<NamedTypeDef>, b: Seq<NamedTypeDef>)
    requires
        a.len() == b.len(),
        forall|i: int|
            0 <= i < a.len() ==> (#[trigger] a[i]).0@ == b[i].0@ && same_type_def(
                *a[i].1,
                *b[i].1,
            ),
    ensures
        compare_fields(a, b) == 0,
    decreases a.len(),
{
    if a.len() > 0 {
        lemma_compare_chars_reflexive(a[0].0@);
        assert forall|i: int| 0 <= i < a.len() - 1 implies (#[trigger] a.drop_first()[i]).0@
            == b.drop_first()[i].0@ && same_type_def(*a.drop_first()[i].1, *b.drop_first()[i].1) by {
            assert(a.drop_first()[i] == a[i + 1]);
            assert(b.drop_first()[i] == b[i + 1]);
        }
        lemma_compare_fields_same(a.drop_first(), b.drop_first());
    }
}

//------------ Antisymmetry --------------------------------------------------

pub proof fn lemma_compare_chars_antisymmetric(a: Seq<char>, b: Seq<char>)
    ensures
        compare_chars(a, b) == -compare_chars(b, a),
    decreases a.len(),
{
    if a.len() > 0 && b.len() > 0 && a[0] == b[0] {
        lemma_compare_chars_antisymmetric(a.drop_first(), b.drop_first());
    }
}

pub proof fn lemma_compare_usizes_antisymmetric(a: Seq<usize>, b: Seq<usize>)
    ensures
        compare_usizes(a, b) == -compare_usizes(b, a),
    decreases a.len(),
{
    if a.len() > 0 && b.len() > 0 && a[0] == b[0] {
        lemma_compare_usizes_antisymmetric(a.drop_first(), b.drop_first());
    }
}

pub proof fn lemma_compare_field_indexes_antisymmetric(a: Seq<FieldIndex>, b: Seq<FieldIndex>)
    ensures
        compare_field_indexes(a, b) == -compare_field_indexes(b, a),
    decreases a.len(),
{
    if a.len() > 0 && b.len() > 0 {
        lemma_compare_usizes_antisymmetric(a[0].0@, b[0].0@);
        lemma_compare_field_indexes_antisymmetric(a.drop_first(), b.drop_first());
    }
}

pub proof fn lemma_compare_type_def_antisymmetric(a: TypeDef, b: TypeDef)
    ensures
        compare_type_def(a, b) == -compare_type_def(b, a),
    decreases a,
{
    if rank(a) == rank(b) {
        match (a, b) {
            (TypeDef::Rib(x), TypeDef::Rib(y)) => {
                lemma_compare_type_def_antisymmetric(*x.0, *y.0);
                match (x.1, y.1) {
                    (Some(p), Some(q)) => lemma_compare_field_indexes_antisymmetric(p@, q@),
                    _ => {},
                }
            },
            (TypeDef::Table(x), TypeDef::Table(y)) => lemma_compare_type_def_antisymmetric(*x, *y),
            (TypeDef::OutputStream(x), TypeDef::OutputStream(y)) => {
                lemma_compare_type_def_antisymmetric(*x, *y)
            },
            (TypeDef::List(x), TypeDef::List(y)) => lemma_compare_type_def_antisymmetric(*x, *y),
            (TypeDef::Record(x), TypeDef::Record(y)) => {
                x.lemma_fields_decrease();
                lemma_compare_fields_antisymmetric(x.fields(), y.fields());
            },
            (TypeDef::ConstEnumVariant(x), TypeDef::ConstEnumVariant(y)) => {
                lemma_compare_chars_antisymmetric(x@, y@)
            },
            _ => {},
        }
    }
}

pub proof fn lemma_compare_fields_antisymmetric(a: Seq<NamedTypeDef>, b: Seq<NamedTypeDef>)
    ensures
        compare_fields(a, b) == -compare_fields(b, a),
    decreases a,
{
    if a.len() > 0 && b.len() > 0 {
        lemma_compare_chars_antisymmetric(a[0].0@, b[0].0@);
        lemma_compare_type_def_antisymmetric(*a[0].1, *b[0].1);
        lemma_compare_fields_antisymmetric(a.drop_first(), b.drop_first());
    }
}

pub proof fn lemma_compare_named_antisymmetric(a: NamedTypeDef, b: NamedTypeDef)
    ensures
        compare_named(a, b) == -compare_named(b, a),
{
    lemma_compare_chars_antisymmetric(a.0@, b.0@);
    lemma_compare_type_def_antisymmetric(*a.1, *b.1);
}


//------------ Sorted field lists ---------------------------------------------

/// Two character sequences in the same place of the order are the same.
pub proof fn lemma_compare_chars_zero(a: Seq<char>, b: Seq<char>)
    requires
        compare_chars(a, b) == 0,
    ensures
        a == b,
    decreases a.len(),
{
    if a.len() > 0 && b.len() > 0 {
        assert(a[0] == b[0]);
        lemma_compare_chars_zero(a.drop_first(), b.drop_first());
        assert(a.len() == b.len());
        assert forall|i: int| 0 <= i < a.len() implies a[i] == b[i] by {
            if i > 0 {
                assert(a[i] == a.drop_first()[i - 1]);
                assert(b[i] == b.drop_first()[i - 1]);
            }
        }
        assert(a =~= b);
    } else {
        assert(a =~= b);
    }
}

/// The order of character sequences is transitive.
pub proof fn lemma_compare_chars_transitive(a: Seq<char>, b: Seq<char>, c: Seq<char>)
    requires
        compare_chars(a, b) <= 0,
        compare_chars(b, c) <= 0,
    ensures
        compare_chars(a, c) <= 0,
    decreases a.len(),
{
    if a.len() > 0 && b.len() > 0 && c.len() > 0 && a[0] == b[0] && b[0] == c[0] {
        lemma_compare_chars_transitive(a.drop_first(), b.drop_first(), c.drop_first());
    }
}

//------------ The order of names -------------------------------------------

/// A name sorts before every longer name that it begins.
pub proof fn law_prefix_sorts_first(a: Seq<char>, b: Seq<char>)
    requires
        b.len() > 0,
    ensures
        compare_chars(a, a + b) == -1,
        compare_chars(a + b, a) == 1,
    decreases a.len(),
{
    if a.len() > 0 {
        assert((a + b)[0] == a[0]);
        assert((a + b).drop_first() =~= a.drop_first() + b);
        law_prefix_sorts_first(a.drop_first(), b);
    } else {
        assert(a + b =~= b);
    }
}

/// Two names that agree up to position `i` and differ there are ordered as
/// their characters at `i` are.
pub proof fn law_names_compare_at_first_difference(a: Seq<char>, b: Seq<char>, i: int)
    requires
        0 <= i < a.len(),
        i < b.len(),
        a.take(i) == b.take(i),
        a[i] != b[i],
    ensures
        compare_chars(a, b) == (if (a[i] as int) < (b[i] as int) {
            -1int
        } else {
            1int
        }),
    decreases i,
{
    if i > 0 {
        assert(a[0] == a.take(i)[0]);
        assert(b[0] == b.take(i)[0]);
        assert(a.drop_first().take(i - 1) =~= b.drop_first().take(i - 1)) by {
            assert forall|k: int| 0 <= k < i - 1 implies #[trigger] a.drop_first().take(i - 1)[k]
                == b.drop_first().take(i - 1)[k] by {
                assert(a.take(i)[k + 1] == b.take(i)[k + 1]);
                assert(a.take(i)[k + 1] == a[k + 1]);
                assert(b.take(i)[k + 1] == b[k + 1]);
                assert(a.drop_first()[k] == a[k + 1]);
                assert(b.drop_first()[k] == b[k + 1]);
            }
        }
        law_names_compare_at_first_difference(a.drop_first(), b.drop_first(), i - 1);
    }
}

//------------ Transitivity ---------------------------------------------------

/// `s`, `t` and `u` compare a with b, b with c and a with c: two steps down
/// (or up) end down (or up), and level only where both steps are level.
pub open spec fn chains(s: int, t: int, u: int) -> bool {
    &&& (s <= 0 && t <= 0 ==> u <= 0 && (u == 0 ==> s == 0 && t == 0))
    &&& (s >= 0 && t >= 0 ==> u >= 0 && (u == 0 ==> s == 0 && t == 0))
}

pub proof fn lemma_compare_chars_chains(a: Seq<char>, b: Seq<char>, c: Seq<char>)
    ensures
        chains(compare_chars(a, b), compare_chars(b, c), compare_chars(a, c)),
{
    lemma_compare_chars_antisymmetric(a, b);
    lemma_compare_chars_antisymmetric(b, c);
    lemma_compare_chars_antisymmetric(a, c);
    if compare_chars(a, b) <= 0 && compare_chars(b, c) <= 0 {
        lemma_compare_chars_transitive(a, b, c);
    }
    if compare_chars(a, b) >= 0 && compare_chars(b, c) >= 0 {
        lemma_compare_chars_transitive(c, b, a);
    }
    if compare_chars(a, c) == 0 {
        lemma_compare_chars_zero(a, c);
    }
}

pub proof fn lemma_compare_usizes_zero(a: Seq<usize>, b: Seq<usize>)
    requires
        compare_usizes(a, b) == 0,
    ensures
        a == b,
    decreases a.len(),
{
    if a.len() > 0 && b.len() > 0 {
        lemma_compare_usizes_zero(a.drop_first(), b.drop_first());
        assert forall|i: int| 0 <= i < a.len() implies a[i] == b[i] by {
            if i > 0 {
                assert(a[i] == a.drop_first()[i - 1]);
                assert(b[i] == b.drop_first()[i - 1]);
            }
        }
    }
    assert(a =~= b);
}

pub proof fn lemma_compare_usizes_transitive(a: Seq<usize>, b: Seq<usize>, c: Seq<usize>)
    requires
        compare_usizes(a, b) <= 0,
        compare_usizes(b, c) <= 0,
    ensures
        compare_usizes(a, c) <= 0,
    decreases a.len(),
{
    if a.len() > 0 && b.len() > 0 && c.len() > 0 && a[0] == b[0] && b[0] == c[0] {
        lemma_compare_usizes_transitive(a.drop_first(), b.drop_first(), c.drop_first());
    }
}

pub proof fn lemma_compare_usizes_chains(a: Seq<usize>, b: Seq<usize>, c: Seq<usize>)
    ensures
        chains(compare_usizes(a, b), compare_usizes(b, c), compare_usizes(a, c)),
{
    lemma_compare_usizes_antisymmetric(a, b);
    lemma_compare_usizes_antisymmetric(b, c);
    lemma_compare_usizes_antisymmetric(a, c);
    if compare_usizes(a, b) <= 0 && compare_usizes(b, c) <= 0 {
        lemma_compare_usizes_transitive(a, b, c);
    }
    if compare_usizes(a, b) >= 0 && compare_usizes(b, c) >= 0 {
        lemma_compare_usizes_transitive(c, b, a);
    }
    if compare_usizes(a, c) == 0 {
        lemma_compare_usizes_zero(a, c);
    }
}

pub proof fn lemma_compare_field_indexes_chains(
    a: Seq<FieldIndex>,
    b: Seq<FieldIndex>,
    c: Seq<FieldIndex>,
)
    ensures
        chains(
            compare_field_indexes(a, b),
            compare_field_indexes(b, c),
            compare_field_indexes(a, c),
        ),
    decreases a.len(),
{
    if a.len() > 0 && b.len() > 0 && c.len() > 0 {
        lemma_compare_usizes_chains(a[0].0@, b[0].0@, c[0].0@);
        lemma_compare_field_indexes_chains(a.drop_first(), b.drop_first(), c.drop_first());
    }
}

pub proof fn lemma_compare_type_def_chains(a: TypeDef, b: TypeDef, c: TypeDef)
    ensures
        chains(compare_type_def(a, b), compare_type_def(b, c), compare_type_def(a, c)),
    decreases a,
{
    if rank(a) == rank(b) && rank(b) == rank(c) {
        match (a, b, c) {
            (TypeDef::Rib(x), TypeDef::Rib(y), TypeDef::Rib(z)) => {
                lemma_compare_type_def_chains(*x.0, *y.0, *z.0);
                match (x.1, y.1, z.1) {
                    (Some(p), Some(q), Some(r)) => lemma_compare_field_indexes_chains(
                        p@,
                        q@,
                        r@,
                    ),
                    _ => {},
                }
            },
            (TypeDef::Table(x), TypeDef::Table(y), TypeDef::Table(z)) => {
                lemma_compare_type_def_chains(*x, *y, *z)
            },
            (TypeDef::OutputStream(x), TypeDef::OutputStream(y), TypeDef::OutputStream(z)) => {
                lemma_compare_type_def_chains(*x, *y, *z)
            },
            (TypeDef::List(x), TypeDef::List(y), TypeDef::List(z)) => {
                lemma_compare_type_def_chains(*x, *y, *z)
            },
            (TypeDef::Record(x), TypeDef::Record(y), TypeDef::Record(z)) => {
                x.lemma_fields_decrease();
                lemma_compare_fields_chains(x.fields(), y.fields(), z.fields());
            },
            (
                TypeDef::ConstEnumVariant(x),
                TypeDef::ConstEnumVariant(y),
                TypeDef::ConstEnumVariant(z),
            ) => lemma_compare_chars_chains(x@, y@, z@),
            _ => {},
        }
    }
}

pub proof fn lemma_compare_fields_chains(
    a: Seq<NamedTypeDef>,
    b: Seq<NamedTypeDef>,
    c: Seq<NamedTypeDef>,
)
    ensures
        chains(compare_fields(a, b), compare_fields(b, c), compare_fields(a, c)),
    decreases a,
{
    if a.len() > 0 && b.len() > 0 && c.len() > 0 {
        lemma_compare_chars_chains(a[0].0@, b[0].0@, c[0].0@);
        lemma_compare_type_def_chains(*a[0].1, *b[0].1, *c[0].1);
        lemma_compare_fields_chains(a.drop_first(), b.drop_first(), c.drop_first());
    }
}

/// The order of a field by its name and then its type, on plain values.
pub open spec fn compare_view(x: (Seq<char>, TypeDef), y: (Seq<char>, TypeDef)) -> int {
    let c = compare_chars(x.0, y.0);
    if c != 0 {
        c
    } else {
        compare_type_def(x.1, y.1)
    }
}

pub proof fn lemma_compare_view_chains(
    x: (Seq<char>, TypeDef),
    y: (Seq<char>, TypeDef),
    z: (Seq<char>, TypeDef),
)
    ensures
        chains(compare_view(x, y), compare_view(y, z), compare_view(x, z)),
{
    lemma_compare_chars_chains(x.0, y.0, z.0);
    lemma_compare_type_def_chains(x.1, y.1, z.1);
}

pub proof fn lemma_compare_view_antisymmetric(x: (Seq<char>, TypeDef), y: (Seq<char>, TypeDef))
    ensures
        compare_view(x, y) == -compare_view(y, x),
{
    lemma_compare_chars_antisymmetric(x.0, y.0);
    lemma_compare_type_def_antisymmetric(x.1, y.1);
}

/// Every field stands no later in the order than any field after it.
pub open spec fn views_sorted(v: Seq<(Seq<char>, TypeDef)>) -> bool {
    forall|i: int, j: int| 0 <= i < j < v.len() ==> compare_view(#[trigger] v[i], #[trigger] v[j]) <= 0
}

proof fn lemma_views_chain(v: Seq<(Seq<char>, TypeDef)>, i: int, j: int)
    requires
        0 <= i < j < v.len(),
        forall|k: int| 0 <= k < v.len() - 1 ==> compare_view(#[trigger] v[k], v[k + 1]) <= 0,
    ensures
        compare_view(v[i], v[j]) <= 0,
    decreases j - i,
{
    if j > i + 1 {
        lemma_views_chain(v, i, j - 1);
        assert(compare_view(v[j - 1], v[j]) <= 0);
        lemma_compare_view_chains(v[i], v[j - 1], v[j]);
    }
}

/// A sorted field list is sorted as plain values too.
pub proof fn lemma_fields_sorted_views(s: Seq<NamedTypeDef>)
    requires
        fields_sorted(s),
    ensures
        views_sorted(s.map_values(|p: NamedTypeDef| named_view(p))),
{
    let v = s.map_values(|p: NamedTypeDef| named_view(p));
    assert forall|k: int| 0 <= k < v.len() - 1 implies compare_view(#[trigger] v[k], v[k + 1])
        <= 0 by {
        assert(compare_named(s[k], s[k + 1]) <= 0);
    }
    assert forall|i: int, j: int| 0 <= i < j < v.len() implies compare_view(
        #[trigger] v[i],
        #[trigger] v[j],
    ) <= 0 by {
        lemma_views_chain(v, i, j);
    }
}

/// Two sorted lists that hold the same elements hold, position by
/// position, fields in the same place of the order.
pub proof fn lemma_sorted_same_views(v1: Seq<(Seq<char>, TypeDef)>, v2: Seq<(Seq<char>, TypeDef)>)
    requires
        views_sorted(v1),
        views_sorted(v2),
        v1.to_multiset() == v2.to_multiset(),
    ensures
        v1.len() == v2.len(),
        forall|i: int| 0 <= i < v1.len() ==> compare_view(#[trigger] v1[i], v2[i]) == 0,
    decreases v1.len(),
{
    broadcast use vstd::seq_lib::to_multiset_len, vstd::seq_lib::to_multiset_contains;

    assert(v1.len() == v1.to_multiset().len());
    assert(v2.len() == v2.to_multiset().len());
    if v1.len() > 0 {
        let x = v1[0];
        let y = v2[0];
        assert(v1.contains(x));
        assert(v1.to_multiset().count(x) > 0);
        assert(v2.contains(x));
        let j = choose|j: int| 0 <= j < v2.len() && v2[j] == x;
        assert(v2.contains(y));
        assert(v2.to_multiset().count(y) > 0);
        assert(v1.contains(y));
        let k = choose|k: int| 0 <= k < v1.len() && v1[k] == y;
        lemma_compare_view_antisymmetric(x, x);
        lemma_compare_view_antisymmetric(y, y);
        lemma_compare_view_antisymmetric(x, y);
        assert(compare_view(y, x) <= 0) by {
            if j > 0 {
                assert(compare_view(v2[0], v2[j]) <= 0);
            }
        }
        assert(compare_view(x, y) <= 0) by {
            if k > 0 {
                assert(compare_view(v1[0], v1[k]) <= 0);
            }
        }
        assert forall|m: int| 0 <= m <= j implies compare_view(#[trigger] v2[m], x) == 0 by {
            if 0 < m {
                assert(compare_view(v2[0], v2[m]) <= 0);
            }
            if m < j {
                assert(compare_view(v2[m], v2[j]) <= 0);
            }
            lemma_compare_view_antisymmetric(v2[m], v2[m]);
            lemma_compare_view_chains(y, v2[m], x);
        }
        let w1 = v1.remove(0);
        let w2 = v2.remove(j);
        vstd::seq_lib::to_multiset_remove(v1, 0);
        vstd::seq_lib::to_multiset_remove(v2, j);
        assert forall|a: int, b: int| 0 <= a < b < w1.len() implies compare_view(
            #[trigger] w1[a],
            #[trigger] w1[b],
        ) <= 0 by {
            assert(w1[a] == v1[a + 1] && w1[b] == v1[b + 1]);
        }
        assert forall|a: int, b: int| 0 <= a < b < w2.len() implies compare_view(
            #[trigger] w2[a],
            #[trigger] w2[b],
        ) <= 0 by {
            let a2 = if a < j { a } else { a + 1 };
            let b2 = if b < j { b } else { b + 1 };
            assert(w2[a] == v2[a2] && w2[b] == v2[b2]);
        }
        lemma_sorted_same_views(w1, w2);
        assert forall|i: int| 0 <= i < v1.len() implies compare_view(#[trigger] v1[i], v2[i]) == 0 by {
            if i > 0 {
                assert(v1[i] == w1[i - 1]);
                assert(compare_view(w1[i - 1], w2[i - 1]) == 0);
                if i - 1 < j {
                    assert(w2[i - 1] == v2[i - 1]);
                    assert(compare_view(v2[i - 1], x) == 0);
                    assert(compare_view(v2[i], x) == 0);
                    lemma_compare_view_antisymmetric(v2[i], x);
                    lemma_compare_view_chains(v2[i - 1], x, v2[i]);
                    lemma_compare_view_chains(v1[i], v2[i - 1], v2[i]);
                } else {
                    assert(w2[i - 1] == v2[i]);
                }
            }
        }
    }
}

//------------ Executable comparisons ----------------------------------------

fn compare_u64(a: u64, b: u64) -> (res: i8)
    ensures
        res == compare_int(a as int, b as int),
{
    if a < b {
        -1
    } else if a > b {
        1
    } else {
        0
    }
}

/// Compares two strings character by character.
pub fn compare_strings(a: &String, b: &String) -> (res: i8)
    ensures
        res == compare_chars(a@, b@),
{
    let sa = a.as_str();
    let sb = b.as_str();
    let la = sa.unicode_len();
    let lb = sb.unicode_len();
    let mut i: usize = 0;
    assert(a@.skip(0) =~= a@);
    assert(b@.skip(0) =~= b@);
    while i < la && i < lb
        invariant
            la == a@.len(),
            lb == b@.len(),
            sa@ == a@,
            sb@ == b@,
            i <= la,
            i <= lb,
            compare_chars(a@, b@) == compare_chars(a@.skip(i as int), b@.skip(i as int)),
        decreases la - i,
    {
        let ca = sa.get_char(i);
        let cb = sb.get_char(i);
        if ca != cb {
            return compare_u64(ca as u64, cb as u64);
        }
        assert(a@.skip(i as int).drop_first() =~= a@.skip(i + 1));
        assert(b@.skip(i as int).drop_first() =~= b@.skip(i + 1));
        i = i + 1;
    }
    if i == la {
        if i == lb {
            0
        } else {
            -1
        }
    } else {
        1
    }
}

fn compare_usize_vecs(a: &Vec<usize>, b: &Vec<usize>) -> (res: i8)
    ensures
        res == compare_usizes(a@, b@),
{
    let mut i: usize = 0;
    assert(a@.skip(0) =~= a@);
    assert(b@.skip(0) =~= b@);
    while i < a.len() && i < b.len()
        invariant
            i <= a@.len(),
            i <= b@.len(),
            compare_usizes(a@, b@) == compare_usizes(a@.skip(i as int), b@.skip(i as int)),
        decreases a@.len() - i,
    {
        if a[i] != b[i] {
            return compare_u64(a[i] as u64, b[i] as u64);
        }
        assert(a@.skip(i as int).drop_first() =~= a@.skip(i + 1));
        assert(b@.skip(i as int).drop_first() =~= b@.skip(i + 1));
        i = i + 1;
    }
    if i == a.len() {
        if i == b.len() {
            0
        } else {
            -1
        }
    } else {
        1
    }
}

fn compare_field_index_vecs(a: &Vec<FieldIndex>, b: &Vec<FieldIndex>) -> (res: i8)
    ensures
        res == compare_field_indexes(a@, b@),
{
    let mut i: usize = 0;
    assert(a@.skip(0) =~= a@);
    assert(b@.skip(0) =~= b@);
    while i < a.len() && i < b.len()
        invariant
            i <= a@.len(),
            i <= b@.len(),
            compare_field_indexes(a@, b@) == compare_field_indexes(
                a@.skip(i as int),
                b@.skip(i as int),
            ),
        decreases a@.len() - i,
    {
        let c = compare_usize_vecs(&a[i].0, &b[i].0);
        if c != 0 {
            return c;
        }
        assert(a@.skip(i as int).drop_first() =~= a@.skip(i + 1));
        assert(b@.skip(i as int).drop_first() =~= b@.skip(i + 1));
        i = i + 1;
    }
    if i == a.len() {
        if i == b.len() {
            0
        } else {
            -1
        }
    } else {
        1
    }
}

fn compare_opt_field_index_vecs(
    a: &Option<Vec<FieldIndex>>,
    b: &Option<Vec<FieldIndex>>,
) -> (res: i8)
    ensures
        res == compare_opt_field_indexes(*a, *b),
{
    match (a, b) {
        (None, None) => 0,
        (None, Some(_)) => -1,
        (Some(_), None) => 1,
        (Some(x), Some(y)) => compare_field_index_vecs(x, y),
    }
}

fn lazy_record_rank(l: &LazyRecordTypeDef) -> (res: u64)
    ensures
        res == lazy_rank(*l),
{
    match l {
        LazyRecordTypeDef::UpdateMessage => 0,
        LazyRecordTypeDef::RouteMonitoring => 1,
        LazyRecordTypeDef::PeerUpNotification => 2,
        LazyRecordTypeDef::PeerDownNotification => 3,
        LazyRecordTypeDef::InitiationMessage => 4,
        LazyRecordTypeDef::TerminationMessage => 5,
        LazyRecordTypeDef::StatisticsReport => 6,
    }
}

fn accept_reject_position(a: &AcceptReject) -> (res: u64)
    ensures
        res == accept_reject_rank(*a),
{
    match a {
        AcceptReject::Accept => 0,
        AcceptReject::Reject => 1,
        AcceptReject::NoReturn => 2,
    }
}

/// The position of the variant of a type definition in the declaration of
/// `TypeDef`.
pub fn type_def_rank(t: &TypeDef) -> (res: u64)
    ensures
        res == rank(*t),
{
    match t {
        TypeDef::Rib(_) => 0,
        TypeDef::Table(_) => 1,
        TypeDef::OutputStream(_) => 2,
        TypeDef::List(_) => 3,
        TypeDef::Record(_) => 4,
        TypeDef::GlobalEnum(_) => 5,
        TypeDef::ConstEnumVariant(_) => 6,
        TypeDef::LazyRecord(_) => 7,
        TypeDef::U32 => 8,
        TypeDef::U16 => 9,
        TypeDef::U8 => 10,
        TypeDef::Bool => 11,
        TypeDef::Prefix => 12,
        TypeDef::PrefixLength => 13,
        TypeDef::AfiSafi => 14,
        TypeDef::PathId => 15,
        TypeDef::IpAddr => 16,
        TypeDef::Asn => 17,
        TypeDef::PrefixRoute => 18,
        TypeDef::FlowSpecRoute => 19,
        TypeDef::RouteContext => 20,
        TypeDef::AsPath => 21,
        TypeDef::Hop => 22,
        TypeDef::Community => 23,
        TypeDef::Nlri => 24,
        TypeDef::Origin => 25,
        TypeDef::LocalPref => 26,
        TypeDef::MultiExitDisc => 27,
        TypeDef::NextHop => 28,
        TypeDef::AtomicAggregate => 29,
        TypeDef::AggregatorInfo => 30,
        TypeDef::Provenance => 31,
        TypeDef::NlriStatus => 32,
        TypeDef::PeerId => 33,
        TypeDef::PeerRibType => 34,
        TypeDef::HexLiteral => 35,
        TypeDef::IntegerLiteral => 36,
        TypeDef::StringLiteral => 37,
        TypeDef::AcceptReject(_) => 38,
        TypeDef::Unknown => 39,
    }
}

/// Compares two type definitions in the order in which record fields are
/// kept.
pub fn compare_type_defs(a: &TypeDef, b: &TypeDef) -> (res: i8)
    ensures
        res == compare_type_def(*a, *b),
    decreases a,
{
    let ra = type_def_rank(a);
    let rb = type_def_rank(b);
    if ra != rb {
        return compare_u64(ra, rb);
    }
    match (a, b) {
        (TypeDef::Rib(x), TypeDef::Rib(y)) => {
            let c = compare_type_defs(&x.0, &y.0);
            if c != 0 {
                c
            } else {
                compare_opt_field_index_vecs(&x.1, &y.1)
            }
        },
        (TypeDef::Table(x), TypeDef::Table(y)) => compare_type_defs(x, y),
        (TypeDef::OutputStream(x), TypeDef::OutputStream(y)) => compare_type_defs(x, y),
        (TypeDef::List(x), TypeDef::List(y)) => compare_type_defs(x, y),
        (TypeDef::Record(x), TypeDef::Record(y)) => {
            proof {
                x.lemma_fields_decrease();
            }
            compare_field_vecs(x.iter(), y.iter())
        },
        (TypeDef::GlobalEnum(_), TypeDef::GlobalEnum(_)) => 0,
        (TypeDef::ConstEnumVariant(x), TypeDef::ConstEnumVariant(y)) => compare_strings(x, y),
        (TypeDef::LazyRecord(x), TypeDef::LazyRecord(y)) => compare_u64(
            lazy_record_rank(x),
            lazy_record_rank(y),
        ),
        (TypeDef::AcceptReject(x), TypeDef::AcceptReject(y)) => compare_u64(
            accept_reject_position(x),
            accept_reject_position(y),
        ),
        _ => 0,
    }
}

/// Compares two field lists lexicographically.
pub fn compare_field_vecs(a: &Vec<NamedTypeDef>, b: &Vec<NamedTypeDef>) -> (res: i8)
    ensures
        res == compare_fields(a@, b@),
    decreases a@,
{
    let mut i: usize = 0;
    assert(a@.skip(0) =~= a@);
    assert(b@.skip(0) =~= b@);
    while i < a.len() && i < b.len()
        invariant
            i <= a@.len(),
            i <= b@.len(),
            compare_fields(a@, b@) == compare_fields(a@.skip(i as int), b@.skip(i as int)),
        decreases a@.len() - i,
    {
        let c = compare_strings(&a[i].0, &b[i].0);
        if c != 0 {
            return c;
        }
        proof {
            assert(decreases_to!(a@ => a@[i as int]));
        }
        let d = compare_type_defs(&a[i].1, &b[i].1);
        if d != 0 {
            return d;
        }
        assert(a@.skip(i as int).drop_first() =~= a@.skip(i + 1));
        assert(b@.skip(i as int).drop_first() =~= b@.skip(i + 1));
        i = i + 1;
    }
    if i == a.len() {
        if i == b.len() {
            0
        } else {
            -1
        }
    } else {
        1
    }
}

/// Compares two named fields: by name, then by type.
pub fn compare_named_fields(a: &NamedTypeDef, b: &NamedTypeDef) -> (res: i8)
    ensures
        res == compare_named(*a, *b),
{
    let c = compare_strings(&a.0, &b.0);
    if c != 0 {
        c
    } else {
        compare_type_defs(&a.1, &b.1)
    }
}

/// A named field as a name and a type.
pub open spec fn named_view(p: NamedTypeDef) -> (Seq<char>, TypeDef) {
    (p.0@, *p.1)
}

/// Sorts field definitions into the order in which a record keeps them.
pub fn sort_fields(v: Vec<NamedTypeDef>) -> (res: Vec<NamedTypeDef>)
    ensures
        fields_sorted(res@),
        res@.to_multiset() == v@.to_multiset(),
        res@.map_values(|p: NamedTypeDef| named_view(p)).to_multiset() == v@.map_values(
            |p: NamedTypeDef| named_view(p),
        ).to_multiset(),
{
    broadcast use vstd::seq_lib::group_to_multiset_ensures;

    let ghost orig = v@;
    let ghost f = |p: NamedTypeDef| named_view(p);
    let mut v = v;
    let mut res: Vec<NamedTypeDef> = Vec::new();
    while v.len() > 0
        invariant
            fields_sorted(res@),
            res@.to_multiset().add(v@.to_multiset()) == orig.to_multiset(),
            res@.map_values(f).to_multiset().add(v@.map_values(f).to_multiset())
                == orig.map_values(f).to_multiset(),
        decreases v@.len(),
    {
        let ghost before = v@;
        let x = v.pop().unwrap();
        assert(before == v@.push(x));
        let mut p: usize = 0;
        while p < res.len() && compare_named_fields(&x, &res[p]) >= 0
            invariant
                p <= res@.len(),
                forall|q: int| 0 <= q < p ==> compare_named(x, #[trigger] res@[q]) >= 0,
            decreases res@.len() - p,
        {
            p = p + 1;
        }
        let ghost old_res = res@;
        proof {
            if p > 0 {
                lemma_compare_named_antisymmetric(x, old_res[p - 1]);
            }
        }
        res.insert(p, x);
        assert(res@ == old_res.insert(p as int, x));
        assert forall|i: int| 0 <= i < res@.len() - 1 implies compare_named(
            #[trigger] res@[i],
            res@[i + 1],
        ) <= 0 by {
            if i + 1 < p {
                assert(res@[i] == old_res[i] && res@[i + 1] == old_res[i + 1]);
            } else if i + 1 == p {
                assert(res@[i] == old_res[i] && res@[i + 1] == x);
            } else if i == p {
                assert(res@[i] == x && res@[i + 1] == old_res[i]);
            } else {
                assert(res@[i] == old_res[i - 1] && res@[i + 1] == old_res[i]);
            }
        }
        proof {
            vstd::seq_lib::to_multiset_insert(old_res, p as int, x);
            vstd::seq_lib::to_multiset_build(v@, x);
            assert(res@.map_values(f) =~= old_res.map_values(f).insert(p as int, f(x)));
            assert(before.map_values(f) =~= v@.map_values(f).push(f(x)));
            vstd::seq_lib::to_multiset_insert(old_res.map_values(f), p as int, f(x));
            vstd::seq_lib::to_multiset_build(v@.map_values(f), f(x));
        }
        assert(res@.map_values(f).to_multiset().add(v@.map_values(f).to_multiset())
            =~= old_res.map_values(f).to_multiset().add(before.map_values(f).to_multiset()));
        assert(res@.to_multiset().add(v@.to_multiset()) =~= old_res.to_multiset().add(
            before.to_multiset(),
        ));
    }
    assert(v@.to_multiset() =~= Multiset::empty());
    assert(res@.to_multiset() =~= orig.to_multiset());
    assert(v@.map_values(f).to_multiset() =~= Multiset::empty());
    assert(res@.map_values(f).to_multiset() =~= orig.map_values(f).to_multiset());
    res
}

} // verus!
