use roto::pipeline::{Label, Level, RotoReport};
use roto::report::{report_items, Color, ReportItem};
use roto::ast::{MetaId, SyntaxTree};
use roto::parser::token::{ParseError, ParseErrorKind};
use roto::pipeline::{gather_files, test_file, LoadedFiles, RotoError, SourceFile, Spans, TypeError};
use roto::syntax::Span;

fn tree() -> SyntaxTree {
    SyntaxTree { expressions: vec![] }
}

fn spans() -> Spans {
    Spans { spans: vec![Span { file: 0, start: 1, end: 4 }] }
}

fn two_files() -> LoadedFiles {
    LoadedFiles {
        files: vec![
            SourceFile { name: "a".to_string(), contents: "x".to_string() },
            SourceFile { name: "b".to_string(), contents: "y".to_string() },
        ],
    }
}

#[test]
fn test_file_is_one_file_named_test() {
    let l = test_file("filter-map x {}");
    assert_eq!(l.files.len(), 1);
    assert_eq!(l.files[0].name, "test");
    assert_eq!(l.files[0].contents, "filter-map x {}");
}

#[test]
fn files_that_were_read_are_loaded() {
    let l = gather_files(vec![("a".to_string(), Ok("1".to_string())), ("b".to_string(), Ok("2".to_string()))]).unwrap();
    assert_eq!(l.files.len(), 2);
    assert_eq!(l.files[1].contents, "2");
}

#[test]
fn a_file_that_could_not_be_read_is_reported() {
    let r = gather_files(vec![
        ("a".to_string(), Ok("1".to_string())),
        ("b".to_string(), Err("no such file".to_string())),
    ])
    .unwrap_err();
    assert_eq!(r.files.len(), 2);
    assert_eq!(r.files[1].name, "b");
    assert_eq!(r.files[1].contents, "");
    assert_eq!(r.errors.len(), 1);
    assert!(matches!(&r.errors[0], RotoError::Read(n, e) if n == "b" && e == "no such file"));
    assert_eq!(r.filename(Span { file: 1, start: 0, end: 0 }), "b");
}

#[test]
fn parsing_every_file_gives_their_trees() {
    let p = two_files().parse(vec![Ok(tree()), Ok(tree())], spans()).unwrap();
    assert_eq!(p.trees.len(), 2);
    assert_eq!(p.files.len(), 2);
    assert_eq!(p.spans.get(MetaId(0)), Span { file: 0, start: 1, end: 4 });
}

#[test]
fn parse_errors_are_reported_in_file_order() {
    let err = |start| ParseError { kind: ParseErrorKind::EndOfInput, location: Span { file: 0, start, end: start } };
    let r = two_files().parse(vec![Err(err(7)), Err(err(9))], spans()).unwrap_err();
    assert_eq!(r.errors.len(), 2);
    assert!(matches!(&r.errors[0], RotoError::Parse(e) if e.location.start == 7));
    assert!(matches!(&r.errors[1], RotoError::Parse(e) if e.location.start == 9));
    assert_eq!(r.files.len(), 2);
}

#[test]
fn type_checking_every_tree_gives_their_types() {
    let p = two_files().parse(vec![Ok(tree()), Ok(tree())], spans()).unwrap();
    let c = p.typecheck(vec![Ok((1u32, "one")), Ok((2u32, "two"))]).unwrap();
    assert_eq!(c.expr_types, vec![1, 2]);
    assert_eq!(c.fully_qualified_names, vec!["one", "two"]);
    let lowered = c.lower(|_tree: &SyntaxTree, ty: u32, name: &str| format!("{name}:{ty}"));
    assert_eq!(lowered.ir, "one:1");
    let value = lowered.eval(|ir: &String, entry: &str, rx: u64| rx + ir.len() as u64 + entry.len() as u64, 10);
    assert_eq!(value.to_value(), 10 + 5 + 4);
}

#[test]
fn type_errors_are_reported() {
    let p = two_files().parse(vec![Ok(tree()), Ok(tree())], spans()).unwrap();
    let e = TypeError { description: "mismatch".to_string(), location: MetaId(0), labels: vec![] };
    let r = p.typecheck::<u32, u32>(vec![Ok((1, 1)), Err(e)]).unwrap_err();
    assert_eq!(r.errors.len(), 1);
    assert!(matches!(&r.errors[0], RotoError::Type(t) if t.description == "mismatch"));
    assert_eq!(r.spans.spans.len(), 1);
}

#[test]
fn report_items_for_each_error() {
    let report = RotoReport {
        files: vec![SourceFile { name: "f.roto".to_string(), contents: "abc".to_string() }],
        errors: vec![
            RotoError::Read("g".to_string(), "gone".to_string()),
            RotoError::Parse(ParseError {
                kind: ParseErrorKind::EndOfInput,
                location: Span { file: 0, start: 1, end: 2 },
            }),
            RotoError::Type(TypeError {
                description: "bad".to_string(),
                location: MetaId(0),
                labels: vec![Label { level: Level::Info, id: MetaId(0), message: "here".to_string() }],
            }),
        ],
        spans: spans(),
    };
    let items = report_items(&report);
    assert_eq!(items.len(), 3);
    assert!(matches!(&items[0], ReportItem::Text(t) if t == "could not open `g`: gone"));
    match &items[1] {
        ReportItem::Source { file, offset, message, labels } => {
            assert_eq!(file, "f.roto");
            assert_eq!(*offset, 1);
            assert_eq!(message, "Parse error: unexpected end of input");
            assert_eq!(labels[0].color, Color::Red);
        }
        other => panic!("{:?}", other),
    }
    match &items[2] {
        ReportItem::Source { offset, message, labels, .. } => {
            assert_eq!(*offset, 1);
            assert_eq!(message, "Type error: bad");
            assert_eq!((labels[0].start, labels[0].end), (1, 4));
            assert_eq!(labels[0].color, Color::Blue);
            assert_eq!(labels[0].message, "here");
        }
        other => panic!("{:?}", other),
    }
}
