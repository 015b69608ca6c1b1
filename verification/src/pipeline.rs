//! The stages of compiling and running a Roto program: loaded files, parsed
//! syntax trees, type-checked trees, the lowered program and its value.
//! Each stage gathers what was found for every file: the next stage where
//! nothing went wrong, else a report that holds each error in file order.
//! Reading files, parsing a file, type-checking a tree, lowering and
//! evaluating are done by the caller, who hands their results over.

use vstd::prelude::*;

use crate::ast::{MetaId, SyntaxTree};
use crate::parser::token::ParseError;
use crate::syntax::Span;
use crate::text::to_owned_string;
use vstd::string::StringExecFns;

verus! {

/// A source file: its name and its text.
#[derive(Debug)]
pub struct SourceFile {
    pub name: String,
    pub contents: String,
}

/// How grave a label of a type error is.
#[derive(Clone, Copy, Debug, PartialEq, Eq, Structural)]
pub enum Level {
    Error,
    Info,
}

/// A message attached to the syntax node with the given identity.
#[derive(Debug)]
pub struct Label {
    pub level: Level,
    pub id: MetaId,
    pub message: String,
}

/// An error found while type checking, with the node it concerns and the
/// labels that explain it.
#[derive(Debug)]
pub struct TypeError {
    pub description: String,
    pub location: MetaId,
    pub labels: Vec<Label>,
}

/// The spans of the syntax nodes, indexed by their identities.
#[derive(Debug)]
pub struct Spans {
    pub spans: Vec<Span>,
}

impl Spans {
    /// No spans at all.
    pub fn new() -> (res: Spans)
        ensures
            res.spans@ == Seq::<Span>::empty(),
    {
        Spans { spans: Vec::new() }
    }

    /// The span of the node with the given identity.
    pub fn get(&self, id: MetaId) -> (res: Span)
        requires
            id.0 < self.spans@.len(),
        ensures
            res == self.spans@[id.0 as int],
    {
        self.spans[id.0]
    }
}

/// An error of one of the stages.
#[derive(Debug)]
pub enum RotoError {
    /// A file that could not be read: its name and what went wrong.
    Read(String, String),
    Parse(ParseError),
    Type(TypeError),
}

/// The errors of a stage, with the files and the spans they refer to.
#[derive(Debug)]
pub struct RotoReport {
    pub files: Vec<SourceFile>,
    pub errors: Vec<RotoError>,
    pub spans: Spans,
}

impl RotoReport {
    /// The name of the file that a span lies in.
    pub fn filename(&self, s: Span) -> (res: String)
        requires
            s.file < self.files@.len(),
        ensures
            res@ == self.files@[s.file as int].name@,
    {
        self.files[s.file].name.clone()
    }
}

/// The files of a program, loaded.
#[derive(Debug)]
pub struct LoadedFiles {
    pub files: Vec<SourceFile>,
}

/// The files of a program and the syntax tree of each.
#[derive(Debug)]
pub struct Parsed {
    pub files: Vec<SourceFile>,
    pub trees: Vec<SyntaxTree>,
    pub spans: Spans,
}

/// The syntax trees of a program, with the types and the fully qualified
/// names that type checking found for each.
#[derive(Debug)]
pub struct TypeChecked<Ty, N> {
    pub trees: Vec<SyntaxTree>,
    pub expr_types: Vec<Ty>,
    pub fully_qualified_names: Vec<N>,
}

/// A program lowered to its intermediate representation.
#[derive(Debug)]
pub struct Lowered<P> {
    pub ir: P,
}

/// The value that a program evaluated to.
#[derive(Debug)]
pub struct Evaluated<V> {
    pub value: V,
}

/// A program of one file named `test` with the given text.
pub fn test_file(source: &str) -> (res: LoadedFiles)
    ensures
        res.files@.len() == 1,
        res.files@[0].name@ == "test"@,
        res.files@[0].contents@ == source@,
{
    let mut files = Vec::new();
    files.push(SourceFile { name: String::from_str("test"), contents: to_owned_string(source) });
    LoadedFiles { files }
}

/// The name and the text of a source file.
pub open spec fn file_view(f: SourceFile) -> (Seq<char>, Seq<char>) {
    (f.name@, f.contents@)
}

/// The names and texts of source files.
pub open spec fn files_view(s: Seq<SourceFile>) -> Seq<(Seq<char>, Seq<char>)> {
    s.map_values(|f: SourceFile| file_view(f))
}

/// The names and texts of the files that reads gave.
pub open spec fn loaded_views(r: Seq<(String, Result<String, String>)>) -> Seq<(Seq<char>, Seq<char>)> {
    r.map_values(|x: (String, Result<String, String>)| loaded_view(x))
}

/// The file that a read gives: its name and its text, or no text where it
/// could not be read.
pub open spec fn loaded_view(r: (String, Result<String, String>)) -> (Seq<char>, Seq<char>) {
    match r.1 {
        Ok(c) => (r.0@, c@),
        Err(_) => (r.0@, Seq::empty()),
    }
}

/// The errors of the files that could not be read, in file order.
pub open spec fn read_errors(r: Seq<(String, Result<String, String>)>) -> Seq<RotoError>
    decreases r.len(),
{
    if r.len() == 0 {
        Seq::empty()
    } else {
        let rest = read_errors(r.drop_last());
        match r.last().1 {
            Ok(_) => rest,
            Err(e) => rest.push(RotoError::Read(r.last().0, e)),
        }
    }
}

/// The loaded files, or the report of those that could not be read, from
/// the name of each file and the text read from it or what went wrong.
pub fn gather_files(results: Vec<(String, Result<String, String>)>) -> (res: Result<
    LoadedFiles,
    RotoReport,
>)
    ensures
        if read_errors(results@).len() == 0 {
            res matches Ok(l) && files_view(l.files@)
                == loaded_views(results@)
        } else {
            res matches Err(rep) && files_view(rep.files@)
                == loaded_views(results@)
                && rep.errors@ == read_errors(results@) && rep.spans.spans@.len() == 0
        },
{
    let mut files: Vec<SourceFile> = Vec::new();
    let mut errors: Vec<RotoError> = Vec::new();
    let mut i: usize = 0;
    while i < results.len()
        invariant
            i <= results@.len(),
            files_view(files@) == loaded_views(results@.take(i as int)),
            errors@ == read_errors(results@.take(i as int)),
        decreases results@.len() - i,
    {
        let name = results[i].0.clone();
        let ghost before = files@;
        assert(files_view(before).len() == before.len());
        assert(loaded_views(results@.take(i as int)).len() == i);
        let file = match &results[i].1 {
            Ok(contents) => SourceFile { name, contents: contents.clone() },
            Err(err) => {
                errors.push(RotoError::Read(name.clone(), err.clone()));
                SourceFile { name, contents: String::new() }
            },
        };
        assert(file_view(file) == loaded_view(results@[i as int]));
        files.push(file);
        assert(results@.take(i + 1).drop_last() =~= results@.take(i as int));
        assert(results@.take(i + 1).last() == results@[i as int]);
        assert(files@ == before.push(file));
        assert forall|j: int| 0 <= j < i + 1 implies #[trigger] file_view(files@[j]) == loaded_view(
            results@.take(i + 1)[j],
        ) by {
            if j < i {
                assert(files_view(before)[j] == loaded_views(results@.take(i as int))[j]);
            }
        }
        assert(files_view(files@) =~= loaded_views(results@.take(i + 1)));
        i = i + 1;
    }
    assert(results@.take(i as int) =~= results@);
    if errors.len() == 0 {
        Ok(LoadedFiles { files })
    } else {
        Err(RotoReport { files, errors, spans: Spans::new() })
    }
}

/// The syntax trees of the files that parsed, in file order.
pub open spec fn parsed_trees(r: Seq<Result<SyntaxTree, ParseError>>) -> Seq<SyntaxTree>
    decreases r.len(),
{
    if r.len() == 0 {
        Seq::empty()
    } else {
        let rest = parsed_trees(r.drop_last());
        match r.last() {
            Ok(t) => rest.push(t),
            Err(_) => rest,
        }
    }
}

/// The errors of the files that did not parse, in file order.
pub open spec fn parse_errors(r: Seq<Result<SyntaxTree, ParseError>>) -> Seq<RotoError>
    decreases r.len(),
{
    if r.len() == 0 {
        Seq::empty()
    } else {
        let rest = parse_errors(r.drop_last());
        match r.last() {
            Ok(_) => rest,
            Err(e) => rest.push(RotoError::Parse(e)),
        }
    }
}

/// Where no file failed, every file gave a tree.
pub proof fn lemma_parsed_all(r: Seq<Result<SyntaxTree, ParseError>>)
    ensures
        parse_errors(r).len() == 0 ==> parsed_trees(r).len() == r.len(),
        parsed_trees(r).len() + parse_errors(r).len() == r.len(),
    decreases r.len(),
{
    if r.len() > 0 {
        lemma_parsed_all(r.drop_last());
    }
}

impl LoadedFiles {
    /// The parsed program, or the report of the files that did not parse,
    /// from the result of parsing each file, in file order, and the spans
    /// that parsing recorded.
    pub fn parse(self, results: Vec<Result<SyntaxTree, ParseError>>, spans: Spans) -> (res: Result<
        Parsed,
        RotoReport,
    >)
        requires
            results@.len() == self.files@.len(),
        ensures
            if parse_errors(results@).len() == 0 {
                res matches Ok(p) && p.files@ == self.files@ && p.trees@ == parsed_trees(results@)
                    && p.spans == spans
            } else {
                res matches Err(rep) && rep.files@ == self.files@ && rep.errors@ == parse_errors(
                    results@,
                ) && rep.spans == spans
            },
    {
        let ghost all = results@;
        let n = results.len();
        let mut rest = results;
        let mut trees: Vec<SyntaxTree> = Vec::new();
        let mut errors: Vec<RotoError> = Vec::new();
        let mut k: usize = 0;
        assert(all.len() == n);
        while rest.len() > 0
            invariant
                k <= all.len(),
                all.len() <= usize::MAX,
                rest@ == all.skip(k as int),
                trees@ == parsed_trees(all.take(k as int)),
                errors@ == parse_errors(all.take(k as int)),
            decreases rest@.len(),
        {
            let r = rest.remove(0);
            assert(all.take(k + 1).drop_last() =~= all.take(k as int));
            assert(all.take(k + 1).last() == r);
            match r {
                Ok(tree) => trees.push(tree),
                Err(err) => errors.push(RotoError::Parse(err)),
            }
            assert(rest@ =~= all.skip(k + 1));
            k = k + 1;
        }
        assert(all.take(k as int) =~= all);
        if errors.len() == 0 {
            Ok(Parsed { trees, spans, files: self.files })
        } else {
            Err(RotoReport { files: self.files, errors, spans })
        }
    }
}

/// The types found for the trees that type checked, in file order.
pub open spec fn checked_types<Ty, N>(r: Seq<Result<(Ty, N), TypeError>>) -> Seq<Ty>
    decreases r.len(),
{
    if r.len() == 0 {
        Seq::empty()
    } else {
        let rest = checked_types(r.drop_last());
        match r.last() {
            Ok((t, _)) => rest.push(t),
            Err(_) => rest,
        }
    }
}

/// The names found for the trees that type checked, in file order.
pub open spec fn checked_names<Ty, N>(r: Seq<Result<(Ty, N), TypeError>>) -> Seq<N>
    decreases r.len(),
{
    if r.len() == 0 {
        Seq::empty()
    } else {
        let rest = checked_names(r.drop_last());
        match r.last() {
            Ok((_, n)) => rest.push(n),
            Err(_) => rest,
        }
    }
}

/// The errors of the trees that did not type check, in file order.
pub open spec fn type_errors<Ty, N>(r: Seq<Result<(Ty, N), TypeError>>) -> Seq<RotoError>
    decreases r.len(),
{
    if r.len() == 0 {
        Seq::empty()
    } else {
        let rest = type_errors(r.drop_last());
        match r.last() {
            Ok(_) => rest,
            Err(e) => rest.push(RotoError::Type(e)),
        }
    }
}

/// Every tree gives either types and names or an error: where none gave
/// an error, there are types and names for each tree, in tree order.
pub proof fn lemma_checked_all<Ty, N>(r: Seq<Result<(Ty, N), TypeError>>)
    ensures
        checked_types(r).len() == checked_names(r).len(),
        checked_types(r).len() + type_errors(r).len() == r.len(),
        type_errors(r).len() == 0 ==> checked_types(r).len() == r.len(),
    decreases r.len(),
{
    if r.len() > 0 {
        lemma_checked_all(r.drop_last());
    }
}

impl Parsed {
    /// The type-checked program, or the report of the trees that did not
    /// type check, from the result of type checking each tree, in file
    /// order: the types of its expressions and its fully qualified names.
    pub fn typecheck<Ty, N>(self, results: Vec<Result<(Ty, N), TypeError>>) -> (res: Result<
        TypeChecked<Ty, N>,
        RotoReport,
    >)
        requires
            results@.len() == self.trees@.len(),
        ensures
            if type_errors(results@).len() == 0 {
                res matches Ok(c) && c.trees@ == self.trees@ && c.expr_types@ == checked_types(
                    results@,
                ) && c.fully_qualified_names@ == checked_names(results@)
            } else {
                res matches Err(rep) && rep.files@ == self.files@ && rep.errors@ == type_errors(
                    results@,
                ) && rep.spans == self.spans
            },
    {
        let Parsed { files, trees, spans } = self;
        let ghost all = results@;
        let n = results.len();
        let mut rest = results;
        let mut expr_types: Vec<Ty> = Vec::new();
        let mut names: Vec<N> = Vec::new();
        let mut errors: Vec<RotoError> = Vec::new();
        let mut k: usize = 0;
        assert(all.len() == n);
        while rest.len() > 0
            invariant
                k <= all.len(),
                all.len() <= usize::MAX,
                rest@ == all.skip(k as int),
                expr_types@ == checked_types(all.take(k as int)),
                names@ == checked_names(all.take(k as int)),
                errors@ == type_errors(all.take(k as int)),
            decreases rest@.len(),
        {
            let r = rest.remove(0);
            assert(all.take(k + 1).drop_last() =~= all.take(k as int));
            assert(all.take(k + 1).last() == r);
            match r {
                Ok((type_map, name_map)) => {
                    expr_types.push(type_map);
                    names.push(name_map);
                },
                Err(err) => errors.push(RotoError::Type(err)),
            }
            assert(rest@ =~= all.skip(k + 1));
            k = k + 1;
        }
        assert(all.take(k as int) =~= all);
        if errors.len() == 0 {
            Ok(TypeChecked { trees, expr_types, fully_qualified_names: names })
        } else {
            Err(RotoReport { files, errors, spans })
        }
    }
}

impl<Ty, N> TypeChecked<Ty, N> {
    /// The program lowered from the first tree, its types and its names.
    pub fn lower<P, F: FnOnce(&SyntaxTree, Ty, N) -> P>(self, lower: F) -> (res: Lowered<P>)
        requires
            self.trees@.len() > 0,
            self.expr_types@.len() > 0,
            self.fully_qualified_names@.len() > 0,
            call_requires(
                lower,
                (&self.trees@[0], self.expr_types@[0], self.fully_qualified_names@[0]),
            ),
        ensures
            call_ensures(
                lower,
                (&self.trees@[0], self.expr_types@[0], self.fully_qualified_names@[0]),
                res.ir,
            ),
    {
        let TypeChecked { trees, expr_types, fully_qualified_names } = self;
        let mut expr_types = expr_types;
        let mut names = fully_qualified_names;
        let types = expr_types.swap_remove(0);
        let name_map = names.swap_remove(0);
        let ir = lower(&trees[0], types, name_map);
        Lowered { ir }
    }
}

impl<P> Lowered<P> {
    /// The value of the program's `main` filter for the given input.
    pub fn eval<V, F: FnOnce(&P, &str, V) -> V>(self, eval: F, rx: V) -> (res: Evaluated<V>)
        requires
            call_requires(eval, (&self.ir, "main", rx)),
        ensures
            call_ensures(eval, (&self.ir, "main", rx), res.value),
    {
        Evaluated { value: eval(&self.ir, "main", rx) }
    }
}

impl<V> Evaluated<V> {
    /// The value the program evaluated to.
    pub fn to_value(self) -> (res: V)
        ensures
            res == self.value,
    {
        self.value
    }
}

} // verus!
