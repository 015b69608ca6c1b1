//! Resolving a chain of field names, `a.b.c`, through record types: the
//! type that the chain ends at, and the field indexes that lead there.

use vstd::prelude::*;

use crate::ast::Identifier;
use crate::syntax::Spanned;
use vstd::string::StringExecFns;

use super::order::same_type_def;
use super::typedef::{
    copy_type_def, CompileError, GlobalEnumTypeDef, LazyRecordTypeDef, NamedTypeDef, RecordTypeDef,
    Token, TypeDef,
};

verus! {

/// The type that a chain of field names starts from: data sources hold
/// their records, and a rib without unique field indexes holds its type.
pub open spec fn chain_start(t: TypeDef) -> TypeDef {
    match t {
        TypeDef::Table(b) => *b,
        TypeDef::OutputStream(b) => *b,
        TypeDef::Rib(r) => if r.1 is None {
            *r.0
        } else {
            t
        },
        _ => t,
    }
}

/// Types whose fields are not record fields: the built-in types and lazy
/// records, whose fields a reader simulates, and the global enums, whose
/// variants are looked up.
pub open spec fn fields_elsewhere(t: TypeDef) -> bool {
    match t {
        TypeDef::PrefixRoute | TypeDef::RouteContext | TypeDef::Provenance | TypeDef::PeerId
        | TypeDef::LazyRecord(_) | TypeDef::GlobalEnum(_) => true,
        _ => false,
    }
}

/// `i` is the first position of a field with the given name.
pub open spec fn is_first_named(s: Seq<NamedTypeDef>, name: Seq<char>, i: int) -> bool {
    &&& 0 <= i < s.len()
    &&& s[i].0@ == name
    &&& forall|j: int| 0 <= j < i ==> (#[trigger] s[j]).0@ != name
}

/// The first position of a field with the given name.
pub open spec fn first_named(s: Seq<NamedTypeDef>, name: Seq<char>) -> Option<int> {
    if exists|i: int| is_first_named(s, name, i) {
        Some(choose|i: int| is_first_named(s, name, i))
    } else {
        None
    }
}

/// Why a chain of field names does not resolve.
pub enum ChainError {
    /// No field of this name where it was looked for.
    Missing(Seq<char>),
    /// The chain reaches a type whose fields a reader simulates, or a
    /// global enum: `chain_outcome` follows the chain there.
    Elsewhere,
}

/// Following the field names from type `t` through records alone, with the
/// indexes `path` taken so far: the type reached and the indexes that lead
/// there. Each index is the position of the field in its record, kept as an
/// octet.
pub open spec fn field_chain(t: TypeDef, names: Seq<Seq<char>>, path: Seq<u8>) -> Result<
    (TypeDef, Seq<u8>),
    ChainError,
>
    decreases names.len(),
{
    if names.len() == 0 {
        Ok((t, path))
    } else if fields_elsewhere(t) {
        Err(ChainError::Elsewhere)
    } else {
        match t {
            TypeDef::Record(r) => match first_named(r.fields(), names[0]) {
                Some(i) => field_chain(
                    *r.fields()[i].1,
                    names.drop_first(),
                    path.push((i % 256) as u8),
                ),
                None => Err(ChainError::Missing(names[0])),
            },
            _ => Err(ChainError::Missing(names[0])),
        }
    }
}

/// The names of a chain of field identifiers.
pub open spec fn chain_names(fields: Seq<Spanned<Identifier>>) -> Seq<Seq<char>> {
    fields.map_values(|f: Spanned<Identifier>| f.inner.0@)
}

/// The text of the error for a field name that the type has not.
pub open spec fn no_field_text(name: Seq<char>) -> Seq<char> {
    "No field named '"@ + name + "'"@
}

/// The text of the error for a field index added to a token that holds no
/// field indexes.
pub open spec fn not_a_path_text() -> Seq<char> {
    "Cannot add a field index to a token that is not a field access"@
}

/// The error for a field name that no record in the chain has.
fn no_field_named(name: &str) -> (res: CompileError)
    ensures
        res.message@ == no_field_text(name@),
{
    let mut message = String::from_str("No field named '");
    message.append(name);
    message.append("'");
    CompileError { message }
}

/// The types whose fields a reader simulates: the built-in route types and
/// the lazy records. The readers themselves (each type's table of fields)
/// are not part of this library; the chain walk takes them as an argument.
#[derive(Clone, Copy, Debug, PartialEq, Eq, Structural)]
pub enum FieldReader {
    PrefixRoute,
    RouteContext,
    Provenance,
    PeerId,
    Lazy(LazyRecordTypeDef),
}

/// The reader that simulates the fields of a type, if any does.
pub open spec fn reader_of(t: TypeDef) -> Option<FieldReader> {
    match t {
        TypeDef::PrefixRoute => Some(FieldReader::PrefixRoute),
        TypeDef::RouteContext => Some(FieldReader::RouteContext),
        TypeDef::Provenance => Some(FieldReader::Provenance),
        TypeDef::PeerId => Some(FieldReader::PeerId),
        TypeDef::LazyRecord(l) => Some(FieldReader::Lazy(l)),
        _ => None,
    }
}

/// The field indexes that a token holds, if it is a field access.
pub open spec fn token_path(t: Token) -> Option<Seq<u8>> {
    match t {
        Token::FieldAccess(v) => Some(v@),
        _ => None,
    }
}

/// Where a walk along a chain of field names stands: the type the next
/// name is looked up in and the indexes of its token, the type and the
/// indexes the chain resolves to so far (no indexes: an enum variant), and
/// the enum value found, if any.
pub struct ChainState<V> {
    pub parent: TypeDef,
    pub parent_path: Option<Seq<u8>>,
    pub reached: TypeDef,
    pub reached_path: Option<Seq<u8>>,
    pub existing: Option<V>,
}

/// The state before the first name: the start type, reached by no index.
pub open spec fn chain_begin<V>(t: TypeDef) -> ChainState<V> {
    ChainState {
        parent: t,
        parent_path: Some(Seq::empty()),
        reached: t,
        reached_path: Some(Seq::empty()),
        existing: None,
    }
}

/// The outcome of one step of the walk.
pub enum ChainStep<V> {
    /// The walk goes on from this state.
    Next(ChainState<V>),
    /// A reader refused the name with this error.
    Refused(CompileError),
    /// The walk stops with an error of this text.
    Failed(Seq<char>),
}

/// A step into a record: the first field of the name becomes both the
/// parent and the type reached, its position added to the parent's indexes.
pub open spec fn record_step<V>(s: ChainState<V>, rec: RecordTypeDef, name: Seq<char>) -> ChainStep<
    V,
> {
    match first_named(rec.fields(), name) {
        None => ChainStep::Failed(no_field_text(name)),
        Some(i) => match s.parent_path {
            Some(p) => ChainStep::Next(
                ChainState {
                    parent: *rec.fields()[i].1,
                    parent_path: Some(p.push((i % 256) as u8)),
                    reached: *rec.fields()[i].1,
                    reached_path: Some(p.push((i % 256) as u8)),
                    existing: s.existing,
                },
            ),
            None => ChainStep::Failed(not_a_path_text()),
        },
    }
}

/// A step through a reader that answered `out`. Where both the chain so far
/// and the reader's token are field accesses, the reader's indexes are added
/// to the chain's and its type is reached; a built-in type's reader then
/// also becomes the parent, with index 0 added. Otherwise a built-in type
/// leaves everything as it was, and a lazy record's reader still becomes
/// the parent, with its own token.
pub open spec fn reader_step<V>(
    s: ChainState<V>,
    r: FieldReader,
    out: Result<(TypeDef, Token), CompileError>,
) -> ChainStep<V> {
    match out {
        Err(e) => ChainStep::Refused(e),
        Ok((ty, tok)) => {
            let joined = match (s.reached_path, token_path(tok)) {
                (Some(a), Some(b)) => Some(a + b),
                _ => None,
            };
            if r is Lazy {
                match joined {
                    Some(p) => ChainStep::Next(
                        ChainState {
                            parent: ty,
                            parent_path: token_path(tok),
                            reached: ty,
                            reached_path: Some(p),
                            existing: s.existing,
                        },
                    ),
                    None => ChainStep::Next(
                        ChainState {
                            parent: ty,
                            parent_path: token_path(tok),
                            reached: s.reached,
                            reached_path: s.reached_path,
                            existing: s.existing,
                        },
                    ),
                }
            } else {
                match joined {
                    Some(p) => match s.parent_path {
                        Some(q) => ChainStep::Next(
                            ChainState {
                                parent: ty,
                                parent_path: Some(q.push(0u8)),
                                reached: ty,
                                reached_path: Some(p),
                                existing: s.existing,
                            },
                        ),
                        None => ChainStep::Failed(not_a_path_text()),
                    },
                    None => ChainStep::Next(s),
                }
            }
        },
    }
}

/// A step into a global enum that answered `out`: the variant's type is
/// reached, as an enum variant, and its value is kept; the parent stays.
pub open spec fn enum_step<V>(s: ChainState<V>, out: Result<(TypeDef, V), CompileError>) -> ChainStep<
    V,
> {
    match out {
        Err(e) => ChainStep::Refused(e),
        Ok((ty, v)) => ChainStep::Next(
            ChainState {
                parent: s.parent,
                parent_path: s.parent_path,
                reached: ty,
                reached_path: None,
                existing: Some(v),
            },
        ),
    }
}

/// `st` is a possible outcome of looking up `field` in the parent of `s`,
/// where `fr` holds of what the readers of simulated fields may answer and
/// `gr` of what the reader of enum variants may answer.
pub open spec fn chain_step<V>(
    s: ChainState<V>,
    field: Identifier,
    fr: spec_fn(FieldReader, Identifier, Result<(TypeDef, Token), CompileError>) -> bool,
    gr: spec_fn(GlobalEnumTypeDef, Identifier, Result<(TypeDef, V), CompileError>) -> bool,
    st: ChainStep<V>,
) -> bool {
    match s.parent {
        TypeDef::Record(rec) => st == record_step(s, rec, field.0@),
        TypeDef::GlobalEnum(e) => exists|out: Result<(TypeDef, V), CompileError>|
            #[trigger] gr(e, field, out) && st == enum_step(s, out),
        _ => match reader_of(s.parent) {
            Some(r) => exists|out: Result<(TypeDef, Token), CompileError>|
                #[trigger] fr(r, field, out) && st == reader_step(s, r, out),
            None => st == ChainStep::<V>::Failed(no_field_text(field.0@)),
        },
    }
}

/// `res` is a possible outcome of walking the fields from state `s`.
pub open spec fn chain_outcome<V>(
    s: ChainState<V>,
    fields: Seq<Spanned<Identifier>>,
    fr: spec_fn(FieldReader, Identifier, Result<(TypeDef, Token), CompileError>) -> bool,
    gr: spec_fn(GlobalEnumTypeDef, Identifier, Result<(TypeDef, V), CompileError>) -> bool,
    res: Result<(TypeDef, Token, Option<V>), CompileError>,
) -> bool
    decreases fields.len(),
{
    if fields.len() == 0 {
        &&& res matches Ok(r)
        &&& same_type_def(r.0, s.reached)
        &&& token_path(r.1) == s.reached_path
        &&& (s.reached_path is None ==> r.1 is ConstEnumVariant)
        &&& r.2 == s.existing
    } else {
        exists|st: ChainStep<V>|
            #[trigger] chain_step(s, fields[0].inner, fr, gr, st) && match st {
                ChainStep::Next(n) => chain_outcome(n, fields.drop_first(), fr, gr, res),
                ChainStep::Refused(e) => res == Err::<(TypeDef, Token, Option<V>), CompileError>(e),
                ChainStep::Failed(m) => res matches Err(e) && e.message@ == m,
            }
    }
}

/// A step that goes on: whatever the rest of the walk may give, the walk
/// from before the step may give too.
proof fn lemma_step_next<V>(
    s: ChainState<V>,
    fields: Seq<Spanned<Identifier>>,
    fr: spec_fn(FieldReader, Identifier, Result<(TypeDef, Token), CompileError>) -> bool,
    gr: spec_fn(GlobalEnumTypeDef, Identifier, Result<(TypeDef, V), CompileError>) -> bool,
    n: ChainState<V>,
)
    requires
        fields.len() > 0,
        chain_step(s, fields[0].inner, fr, gr, ChainStep::Next(n)),
    ensures
        forall|res| #[trigger]
            chain_outcome(n, fields.drop_first(), fr, gr, res) ==> chain_outcome(s, fields, fr, gr, res),
{
}

/// A step that stops with `res`.
proof fn lemma_step_stop<V>(
    s: ChainState<V>,
    fields: Seq<Spanned<Identifier>>,
    fr: spec_fn(FieldReader, Identifier, Result<(TypeDef, Token), CompileError>) -> bool,
    gr: spec_fn(GlobalEnumTypeDef, Identifier, Result<(TypeDef, V), CompileError>) -> bool,
    st: ChainStep<V>,
    res: Result<(TypeDef, Token, Option<V>), CompileError>,
)
    requires
        fields.len() > 0,
        chain_step(s, fields[0].inner, fr, gr, st),
        match st {
            ChainStep::Next(_) => false,
            ChainStep::Refused(e) => res == Err::<(TypeDef, Token, Option<V>), CompileError>(e),
            ChainStep::Failed(m) => res matches Err(e) && e.message@ == m,
        },
    ensures
        chain_outcome(s, fields, fr, gr, res),
{
}

/// On a chain that meets only records and other plain types, the walk's
/// outcome is the one that `field_chain` describes.
proof fn lemma_plain_chain<V>(
    s: ChainState<V>,
    fields: Seq<Spanned<Identifier>>,
    fr: spec_fn(FieldReader, Identifier, Result<(TypeDef, Token), CompileError>) -> bool,
    gr: spec_fn(GlobalEnumTypeDef, Identifier, Result<(TypeDef, V), CompileError>) -> bool,
    p: Seq<u8>,
    res: Result<(TypeDef, Token, Option<V>), CompileError>,
)
    requires
        s.reached == s.parent,
        s.parent_path == Some(p),
        s.reached_path == Some(p),
        s.existing is None,
        chain_outcome(s, fields, fr, gr, res),
    ensures
        match field_chain(s.parent, chain_names(fields), p) {
            Ok((t, path)) => res matches Ok(r) && same_type_def(r.0, t) && token_path(r.1) == Some(
                path,
            ) && r.2 is None,
            Err(ChainError::Missing(name)) => res matches Err(e) && e.message@ == no_field_text(
                name,
            ),
            Err(ChainError::Elsewhere) => true,
        },
    decreases fields.len(),
{
    let names = chain_names(fields);
    if fields.len() > 0 && !fields_elsewhere(s.parent) {
        assert(names[0] == fields[0].inner.0@);
        assert(chain_names(fields.drop_first()) =~= names.drop_first());
        let st = choose|st: ChainStep<V>|
            #[trigger] chain_step(s, fields[0].inner, fr, gr, st) && match st {
                ChainStep::Next(n) => chain_outcome(n, fields.drop_first(), fr, gr, res),
                ChainStep::Refused(e) => res == Err::<(TypeDef, Token, Option<V>), CompileError>(e),
                ChainStep::Failed(m) => res matches Err(e) && e.message@ == m,
            };
        if let ChainStep::Next(n) = st {
            if let TypeDef::Record(rec) = s.parent {
                let i = first_named(rec.fields(), names[0]).unwrap();
                lemma_plain_chain(n, fields.drop_first(), fr, gr, p.push((i % 256) as u8), res);
            }
        }
    }
}

/// A rib without unique field indexes, a table or an output stream that
/// holds a type resolves every chain of field names from that type, just as
/// the type itself does, provided the type is no such container itself.
pub proof fn law_containers_resolve_from_their_type(r: TypeDef)
    requires
        !(r is Table),
        !(r is OutputStream),
        !(r matches TypeDef::Rib(x) && x.1 is None),
    ensures
        chain_start(TypeDef::Table(Box::new(r))) == chain_start(r),
        chain_start(TypeDef::OutputStream(Box::new(r))) == chain_start(r),
        chain_start(TypeDef::Rib((Box::new(r), None))) == chain_start(r),
{
}

/// Following a chain of names in two parts: the second part continues from
/// the type and the indexes that the first part reached, and an error in the
/// first part is the error of the whole.
pub proof fn law_field_chain_in_two_parts(
    t: TypeDef,
    first: Seq<Seq<char>>,
    second: Seq<Seq<char>>,
    path: Seq<u8>,
)
    ensures
        field_chain(t, first + second, path) == match field_chain(t, first, path) {
            Ok((u, q)) => field_chain(u, second, q),
            Err(e) => Err(e),
        },
    decreases first.len(),
{
    if first.len() == 0 {
        assert(first + second =~= second);
    } else {
        assert((first + second)[0] == first[0]);
        assert((first + second).drop_first() =~= first.drop_first() + second);
        if !fields_elsewhere(t) {
            if let TypeDef::Record(r) = t {
                if let Some(i) = first_named(r.fields(), first[0]) {
                    law_field_chain_in_two_parts(
                        *r.fields()[i].1,
                        first.drop_first(),
                        second,
                        path.push((i % 256) as u8),
                    );
                }
            }
        }
    }
}

/// The type the walk stands at: inside the value the walk started from, or
/// one that a reader handed over.
enum Place<'a> {
    Within(&'a TypeDef),
    Held(TypeDef),
}

spec fn place_type<'a>(p: Place<'a>) -> TypeDef {
    match p {
        Place::Within(t) => *t,
        Place::Held(t) => t,
    }
}

fn place_ref<'a, 'b>(p: &'b Place<'a>) -> (res: &'b TypeDef)
    ensures
        *res == place_type(*p),
{
    match p {
        Place::Within(t) => t,
        Place::Held(t) => t,
    }
}

/// Moves from a record to the type of its field at position `i`.
fn descend<'a>(p: Place<'a>, i: usize) -> (res: Place<'a>)
    requires
        place_type(p) is Record,
        i < place_type(p)->Record_0.fields().len(),
    ensures
        place_type(res) == *place_type(p)->Record_0.fields()[i as int].1,
{
    match p {
        Place::Within(t) => match t {
            TypeDef::Record(rec) => {
                let fields = rec.iter();
                let field: &TypeDef = &fields[i].1;
                Place::Within(field)
            },
            _ => Place::Within(t),
        },
        Place::Held(t) => match t {
            TypeDef::Record(rec) => {
                let mut fields = rec.into_fields();
                let named = fields.remove(i);
                Place::Held(*named.1)
            },
            other => Place::Held(other),
        },
    }
}

/// Adds a field index to a token that is a field access.
fn push_index(tok: Token, i: u8) -> (res: Result<Token, CompileError>)
    ensures
        match token_path(tok) {
            Some(p) => res matches Ok(t) && token_path(t) == Some(p.push(i)),
            None => res matches Err(e) && e.message@ == not_a_path_text(),
        },
{
    match tok {
        Token::FieldAccess(mut v) => {
            v.push(i);
            Ok(Token::FieldAccess(v))
        },
        _ => Err(
            CompileError {
                message: String::from_str(
                    "Cannot add a field index to a token that is not a field access",
                ),
            },
        ),
    }
}

/// A field access with the indexes of `a` followed by those of `b`, where
/// both are field accesses.
fn join_paths(a: &Token, b: &Token) -> (res: Option<Token>)
    ensures
        match (token_path(*a), token_path(*b)) {
            (Some(x), Some(y)) => res matches Some(t) && token_path(t) == Some(x + y),
            _ => res is None,
        },
{
    match (a, b) {
        (Token::FieldAccess(x), Token::FieldAccess(y)) => {
            let mut v: Vec<u8> = Vec::new();
            let mut j: usize = 0;
            while j < x.len()
                invariant
                    j <= x.len(),
                    v@ == x@.subrange(0, j as int),
                decreases x.len() - j,
            {
                v.push(x[j]);
                j = j + 1;
            }
            let mut j: usize = 0;
            while j < y.len()
                invariant
                    j <= y.len(),
                    x@.len() == x.len(),
                    v@ == x@ + y@.subrange(0, j as int),
                decreases y.len() - j,
            {
                v.push(y[j]);
                j = j + 1;
            }
            assert(x@.subrange(0, x.len() as int) =~= x@);
            assert(y@.subrange(0, y.len() as int) =~= y@);
            Some(Token::FieldAccess(v))
        },
        _ => None,
    }
}

/// A field access with the same indexes as `t`.
fn same_path(t: &Token) -> (res: Token)
    requires
        t is FieldAccess,
    ensures
        res is FieldAccess,
        token_path(res) == token_path(*t),
{
    let empty = Token::FieldAccess(Vec::new());
    match join_paths(t, &empty) {
        Some(r) => {
            assert(token_path(*t).unwrap() + Seq::<u8>::empty() =~= token_path(*t).unwrap());
            r
        },
        None => empty,
    }
}

/// What the walk does with the type it stands at.
enum Lookup {
    /// A record, and the first position of a field of the name, if any.
    Record(Option<usize>),
    Reader(FieldReader),
    Enum(GlobalEnumTypeDef),
    Other,
}

fn lookup(t: &TypeDef, name: &String) -> (res: Lookup)
    ensures
        match res {
            Lookup::Record(o) => t is Record && match o {
                Some(i) => i < t->Record_0.fields().len() && first_named(t->Record_0.fields(), name@)
                    == Some(i as int),
                None => first_named(t->Record_0.fields(), name@) is None,
            },
            Lookup::Reader(r) => !(t is Record) && !(t is GlobalEnum) && reader_of(*t) == Some(r),
            Lookup::Enum(e) => *t == TypeDef::GlobalEnum(e),
            Lookup::Other => !(t is Record) && !(t is GlobalEnum) && reader_of(*t) is None,
        },
{
    match t {
        TypeDef::Record(rec) => match rec.get_index_for_field_name(name) {
            Some(i) => {
                assert(is_first_named(rec.fields(), name@, i as int));
                assert(first_named(rec.fields(), name@) == Some(i as int)) by {
                    let c = choose|c: int| is_first_named(rec.fields(), name@, c);
                    assert(is_first_named(rec.fields(), name@, c));
                    if c < i {
                        assert(rec.fields()[c].0@ != name@);
                    } else if c > i {
                        assert(rec.fields()[i as int].0@ != name@);
                    }
                }
                Lookup::Record(Some(i))
            },
            None => {
                assert(first_named(rec.fields(), name@) is None) by {
                    if exists|c: int| is_first_named(rec.fields(), name@, c) {
                        let c = choose|c: int| is_first_named(rec.fields(), name@, c);
                        assert(rec.fields()[c].0@ == name@);
                    }
                }
                Lookup::Record(None)
            },
        },
        TypeDef::GlobalEnum(e) => Lookup::Enum(*e),
        TypeDef::PrefixRoute => Lookup::Reader(FieldReader::PrefixRoute),
        TypeDef::RouteContext => Lookup::Reader(FieldReader::RouteContext),
        TypeDef::Provenance => Lookup::Reader(FieldReader::Provenance),
        TypeDef::PeerId => Lookup::Reader(FieldReader::PeerId),
        TypeDef::LazyRecord(l) => Lookup::Reader(FieldReader::Lazy(*l)),
        _ => Lookup::Other,
    }
}

/// The state of the walk, read from its variables.
spec fn walk_state<'a, V>(
    parent: Place<'a>,
    parent_tok: Token,
    reached: Option<Place<'a>>,
    reached_tok: Token,
    existing: Option<V>,
) -> ChainState<V> {
    ChainState {
        parent: place_type(parent),
        parent_path: token_path(parent_tok),
        reached: match reached {
            None => place_type(parent),
            Some(p) => place_type(p),
        },
        reached_path: token_path(reached_tok),
        existing,
    }
}

impl TypeDef {
    /// This function checks that the `fields` vec describes the fields
    /// present in `self`. If so it returns the positions in the vec of the
    /// corresponding fields, to serve as the token for each field.
    ///
    /// Record fields are looked up here. The fields of the built-in route
    /// types and of lazy records are simulated by readers, and global enums
    /// look up their variants: those readers are handed in, `field_props`
    /// and `enum_variant`, and what they answer is taken as it comes
    /// (the error for a missing enum variant is `enum_variant`'s). A field
    /// index is added only to a token that is a field access; a lazy
    /// record's reader may answer with another token, and a record reached
    /// through it then stops the walk with an error of this library's own
    /// (`not_a_path_text`).
    pub fn has_fields_chain<V, F, G>(
        &self,
        check_fields: &[Spanned<Identifier>],
        field_props: F,
        enum_variant: G,
    ) -> (res: Result<(TypeDef, Token, Option<V>), CompileError>) where
        F: Fn(FieldReader, &Identifier) -> Result<(TypeDef, Token), CompileError>,
        G: Fn(GlobalEnumTypeDef, &Identifier) -> Result<(TypeDef, V), CompileError>,

        requires
            forall|r: FieldReader, id: &Identifier| call_requires(field_props, (r, id)),
            forall|e: GlobalEnumTypeDef, id: &Identifier| call_requires(enum_variant, (e, id)),
        ensures
            chain_outcome(
                chain_begin(chain_start(*self)),
                check_fields@,
                (|r: FieldReader, id: Identifier, out: Result<(TypeDef, Token), CompileError>| call_ensures(field_props, (r, &id), out)),
                (|e: GlobalEnumTypeDef, id: Identifier, out: Result<(TypeDef, V), CompileError>| call_ensures(enum_variant, (e, &id), out)),
                res,
            ),
            match field_chain(chain_start(*self), chain_names(check_fields@), Seq::empty()) {
                Ok((t, path)) => res matches Ok(r) && same_type_def(r.0, t) && (r.1 matches Token::FieldAccess(v)
                    && v@ == path) && r.2 is None,
                Err(ChainError::Missing(name)) => res matches Err(e) && e.message@ == no_field_text(
                    name,
                ),
                Err(ChainError::Elsewhere) => true,
            },
    {
        let start: &TypeDef = match self {
            TypeDef::Table(rec) => rec,
            TypeDef::OutputStream(rec) => rec,
            TypeDef::Rib((rec, None)) => rec,
            _ => self,
        };
        let ghost begin = chain_begin::<V>(chain_start(*self));
        let ghost all = check_fields@;
        let ghost fr = (|r: FieldReader, id: Identifier, out: Result<(TypeDef, Token), CompileError>| call_ensures(field_props, (r, &id), out));
        let ghost gr = (|e: GlobalEnumTypeDef, id: Identifier, out: Result<(TypeDef, V), CompileError>| call_ensures(enum_variant, (e, &id), out));
        let mut parent: Place = Place::Within(start);
        let mut parent_tok = Token::FieldAccess(Vec::new());
        let mut reached: Option<Place> = None;
        let mut reached_tok = Token::FieldAccess(Vec::new());
        let mut existing: Option<V> = None;
        let mut k: usize = 0;
        assert(walk_state(parent, parent_tok, reached, reached_tok, existing) == begin);
        assert(all.skip(0) =~= all);
        while k < check_fields.len()
            invariant
                k <= all.len(),
                all == check_fields@,
                begin == chain_begin::<V>(chain_start(*self)),
                fr == (|r: FieldReader, id: Identifier, out: Result<(TypeDef, Token), CompileError>| call_ensures(field_props, (r, &id), out)),
                gr == (|e: GlobalEnumTypeDef, id: Identifier, out: Result<(TypeDef, V), CompileError>| call_ensures(enum_variant, (e, &id), out)),
                forall|r: FieldReader, id: &Identifier| call_requires(field_props, (r, id)),
                forall|e: GlobalEnumTypeDef, id: &Identifier| call_requires(enum_variant, (e, id)),
                reached_tok is FieldAccess || reached_tok is ConstEnumVariant,
                forall|res| #[trigger]
                    chain_outcome(
                        walk_state(parent, parent_tok, reached, reached_tok, existing),
                        all.skip(k as int),
                        fr,
                        gr,
                        res,
                    ) ==> chain_outcome(begin, all, fr, gr, res),
            decreases all.len() - k,
        {
            let field = &check_fields[k].inner;
            let ghost s = walk_state(parent, parent_tok, reached, reached_tok, existing);
            let ghost rest = all.skip(k as int);
            assert(rest[0] == all[k as int]);
            assert(rest.drop_first() =~= all.skip(k + 1));
            match lookup(place_ref(&parent), &field.0) {
                Lookup::Record(None) => {
                    let e = no_field_named(field.0.as_str());
                    proof {
                        lemma_step_stop(
                            s,
                            rest,
                            fr,
                            gr,
                            ChainStep::Failed(no_field_text(field.0@)),
                            Err(e),
                        );
                        lemma_plain_chain(begin, all, fr, gr, Seq::empty(), Err(e));
                    }
                    return Err(e);
                },
                Lookup::Other => {
                    let e = no_field_named(field.0.as_str());
                    proof {
                        lemma_step_stop(
                            s,
                            rest,
                            fr,
                            gr,
                            ChainStep::Failed(no_field_text(field.0@)),
                            Err(e),
                        );
                        lemma_plain_chain(begin, all, fr, gr, Seq::empty(), Err(e));
                    }
                    return Err(e);
                },
                Lookup::Record(Some(i)) => {
                    match push_index(parent_tok, (i % 256) as u8) {
                        Ok(t) => {
                            parent_tok = t;
                        },
                        Err(e) => {
                            proof {
                                lemma_step_stop(
                                    s,
                                    rest,
                                    fr,
                                    gr,
                                    ChainStep::Failed(not_a_path_text()),
                                    Err(e),
                                );
                                lemma_plain_chain(begin, all, fr, gr, Seq::empty(), Err(e));
                            }
                            return Err(e);
                        },
                    }
                    parent = descend(parent, i);
                    reached = None;
                    reached_tok = same_path(&parent_tok);
                },
                Lookup::Reader(r) => {
                    let out = field_props(r, field);
                    assert(fr(r, *field, out));
                    assert(chain_step(s, *field, fr, gr, reader_step(s, r, out)));
                    match out {
                        Err(e) => {
                            proof {
                                lemma_step_stop(
                                    s,
                                    rest,
                                    fr,
                                    gr,
                                    ChainStep::Refused(e),
                                    Err(e),
                                );
                                lemma_plain_chain(begin, all, fr, gr, Seq::empty(), Err(e));
                            }
                            return Err(e);
                        },
                        Ok((ty, tok)) => {
                            let joined = join_paths(&reached_tok, &tok);
                            match r {
                                FieldReader::Lazy(_) => {
                                    match joined {
                                        Some(j) => {
                                            reached = None;
                                            reached_tok = j;
                                        },
                                        None => {
                                            if reached.is_none() {
                                                reached = Some(parent);
                                            }
                                        },
                                    }
                                    parent = Place::Held(ty);
                                    parent_tok = tok;
                                },
                                _ => {
                                    match joined {
                                        Some(j) => {
                                            match push_index(parent_tok, 0u8) {
                                                Ok(t) => {
                                                    parent_tok = t;
                                                },
                                                Err(e) => {
                                                    proof {
                                                        lemma_step_stop(
                                                            s,
                                                            rest,
                                                            fr,
                                                            gr,
                                                            ChainStep::Failed(not_a_path_text()),
                                                            Err(e),
                                                        );
                                                        lemma_plain_chain(begin, all, fr, gr, Seq::empty(), Err(e));
                                                    }
                                                    return Err(e);
                                                },
                                            }
                                            parent = Place::Held(ty);
                                            reached = None;
                                            reached_tok = j;
                                        },
                                        None => {},
                                    }
                                },
                            }
                        },
                    }
                },
                Lookup::Enum(e) => {
                    let out = enum_variant(e, field);
                    assert(gr(e, *field, out));
                    assert(chain_step(s, *field, fr, gr, enum_step(s, out)));
                    match out {
                        Err(err) => {
                            proof {
                                lemma_step_stop(
                                    s,
                                    rest,
                                    fr,
                                    gr,
                                    ChainStep::Refused(err),
                                    Err(err),
                                );
                                lemma_plain_chain(begin, all, fr, gr, Seq::empty(), Err(err));
                            }
                            return Err(err);
                        },
                        Ok((ty, v)) => {
                            reached = Some(Place::Held(ty));
                            reached_tok = Token::ConstEnumVariant;
                            existing = Some(v);
                        },
                    }
                },
            }
            proof {
                let n = walk_state(parent, parent_tok, reached, reached_tok, existing);
                assert(chain_step(s, *field, fr, gr, ChainStep::Next(n)));
                lemma_step_next(s, rest, fr, gr, n);
            }
            k = k + 1;
        }
        assert(all.skip(k as int) =~= Seq::<Spanned<Identifier>>::empty());
        let ty = match reached {
            None => copy_type_def(place_ref(&parent)),
            Some(p) => copy_type_def(place_ref(&p)),
        };
        let res = Ok((ty, reached_tok, existing));
        proof {
            assert(chain_outcome(
                walk_state(parent, parent_tok, reached, reached_tok, existing),
                all.skip(k as int),
                fr,
                gr,
                res,
            ));
            lemma_plain_chain(begin, all, fr, gr, Seq::empty(), res);
        }
        res
    }
}

} // verus!
