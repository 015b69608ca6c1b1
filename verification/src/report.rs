//! What an error report shows for each error: the text for a file that
//! could not be read, and for parse and type errors the file, the offset,
//! the message and the labels, each with its stretch of source and colour.
//! Drawing them around the source text is left to the caller.

use vstd::prelude::*;

use crate::parser::token::{Expectation, ParseError, ParseErrorKind};
use crate::pipeline::{Label, Level, RotoError, RotoReport};
use vstd::string::StringExecFns;

verus! {

/// The colour of a label.
#[derive(Clone, Copy, Debug, PartialEq, Eq, Structural)]
pub enum Color {
    Red,
    Blue,
}

/// A label: the file, the stretch of it, the message and the colour.
#[derive(Debug)]
pub struct LabelItem {
    pub file: String,
    pub start: usize,
    pub end: usize,
    pub message: String,
    pub color: Color,
}

/// What is shown for one error.
#[derive(Debug)]
pub enum ReportItem {
    /// A plain line of text.
    Text(String),
    /// A report drawn over the source: the file and offset it starts at,
    /// its message and its labels.
    Source { file: String, offset: usize, message: String, labels: Vec<LabelItem> },
}

/// A label by its parts.
pub type LabelView = (Seq<char>, usize, usize, Seq<char>, Color);

/// What is shown for an error, by its parts.
pub enum ItemView {
    Text(Seq<char>),
    Source { file: Seq<char>, offset: usize, message: Seq<char>, labels: Seq<LabelView> },
}

pub open spec fn label_view(l: LabelItem) -> LabelView {
    (l.file@, l.start, l.end, l.message@, l.color)
}

pub open spec fn item_view(i: ReportItem) -> ItemView {
    match i {
        ReportItem::Text(t) => ItemView::Text(t@),
        ReportItem::Source { file, offset, message, labels } => ItemView::Source {
            file: file@,
            offset,
            message: message@,
            labels: labels@.map_values(|l: LabelItem| label_view(l)),
        },
    }
}

/// What a parse error says.
pub open spec fn parse_error_text(e: ParseError) -> Seq<char> {
    match e.kind {
        ParseErrorKind::EndOfInput => "unexpected end of input"@,
        ParseErrorKind::Expected { expected, .. } => match expected {
            Expectation::Token(_) => "unexpected token"@,
            Expectation::IpAddress => "expected an IP address"@,
            Expectation::Literal => "expected a literal"@,
            Expectation::Identifier => "expected an identifier"@,
        },
        ParseErrorKind::InvalidLiteral { .. } => "invalid literal"@,
        ParseErrorKind::Unsupported { .. } => "unsupported token"@,
    }
}

/// Every file and span that the errors of the report refer to is there.
pub open spec fn references_hold(r: RotoReport) -> bool {
    forall|i: int| 0 <= i < r.errors@.len() ==> error_references_hold(r, #[trigger] r.errors@[i])
}

pub open spec fn error_references_hold(r: RotoReport, e: RotoError) -> bool {
    match e {
        RotoError::Read(_, _) => true,
        RotoError::Parse(p) => p.location.file < r.files@.len(),
        RotoError::Type(t) => {
            &&& span_held(r, t.location.0)
            &&& forall|j: int| 0 <= j < t.labels@.len() ==> span_held(r, (#[trigger] t.labels@[j]).id.0)
        },
    }
}

/// The node has a span, in a file of the report.
pub open spec fn span_held(r: RotoReport, id: usize) -> bool {
    id < r.spans.spans@.len() && r.spans.spans@[id as int].file < r.files@.len()
}

/// The label shown for a label of a type error.
pub open spec fn type_label_view(r: RotoReport, l: Label) -> LabelView {
    let s = r.spans.spans@[l.id.0 as int];
    (
        r.files@[s.file as int].name@,
        s.start,
        s.end,
        l.message@,
        match l.level {
            Level::Error => Color::Red,
            Level::Info => Color::Blue,
        },
    )
}

/// What is shown for an error of the report.
pub open spec fn error_item(r: RotoReport, e: RotoError) -> ItemView {
    match e {
        RotoError::Read(name, io) => ItemView::Text(
            "could not open `"@ + name@ + "`: "@ + io@,
        ),
        RotoError::Parse(p) => ItemView::Source {
            file: r.files@[p.location.file as int].name@,
            offset: p.location.start,
            message: "Parse error: "@ + parse_error_text(p),
            labels: seq![
                (
                    r.files@[p.location.file as int].name@,
                    p.location.start,
                    p.location.end,
                    parse_error_text(p),
                    Color::Red,
                ),
            ],
        },
        RotoError::Type(t) => {
            let s = r.spans.spans@[t.location.0 as int];
            ItemView::Source {
                file: r.files@[s.file as int].name@,
                offset: s.start,
                message: "Type error: "@ + t.description@,
                labels: t.labels@.map_values(|l: Label| type_label_view(r, l)),
            }
        },
    }
}

/// What a parse error says.
pub fn parse_error_message(e: &ParseError) -> (res: String)
    ensures
        res@ == parse_error_text(*e),
{
    let text = match &e.kind {
        ParseErrorKind::EndOfInput => "unexpected end of input",
        ParseErrorKind::Expected { expected, .. } => match expected {
            Expectation::Token(_) => "unexpected token",
            Expectation::IpAddress => "expected an IP address",
            Expectation::Literal => "expected a literal",
            Expectation::Identifier => "expected an identifier",
        },
        ParseErrorKind::InvalidLiteral { .. } => "invalid literal",
        ParseErrorKind::Unsupported { .. } => "unsupported token",
    };
    String::from_str(text)
}

/// What is shown for one error of the report.
fn error_report_item(r: &RotoReport, e: &RotoError) -> (res: ReportItem)
    requires
        error_references_hold(*r, *e),
    ensures
        item_view(res) == error_item(*r, *e),
{
    match e {
        RotoError::Read(name, io) => {
            let mut s = String::from_str("could not open `");
            s.append(name.as_str());
            s.append("`: ");
            s.append(io.as_str());
            ReportItem::Text(s)
        },
        RotoError::Parse(p) => {
            let text = parse_error_message(p);
            let file = r.filename(p.location);
            let mut message = String::from_str("Parse error: ");
            message.append(text.as_str());
            let mut labels = Vec::new();
            labels.push(
                LabelItem {
                    file: file.clone(),
                    start: p.location.start,
                    end: p.location.end,
                    message: text,
                    color: Color::Red,
                },
            );
            assert(labels@.map_values(|l: LabelItem| label_view(l)) =~= seq![
                (file@, p.location.start, p.location.end, parse_error_text(*p), Color::Red),
            ]);
            ReportItem::Source { file, offset: p.location.start, message, labels }
        },
        RotoError::Type(t) => {
            let location = r.spans.get(t.location);
            let file = r.filename(location);
            let mut message = String::from_str("Type error: ");
            message.append(t.description.as_str());
            let mut labels: Vec<LabelItem> = Vec::new();
            let mut j: usize = 0;
            while j < t.labels.len()
                invariant
                    j <= t.labels@.len(),
                    error_references_hold(*r, RotoError::Type(*t)),
                    labels@.map_values(|l: LabelItem| label_view(l)) =~= t.labels@.take(
                        j as int,
                    ).map_values(|l: Label| type_label_view(*r, l)),
                decreases t.labels@.len() - j,
            {
                let l = &t.labels[j];
                assert(span_held(*r, t.labels@[j as int].id.0));
                let s = r.spans.get(l.id);
                let color = match l.level {
                    Level::Error => Color::Red,
                    Level::Info => Color::Blue,
                };
                let item = LabelItem {
                    file: r.filename(s),
                    start: s.start,
                    end: s.end,
                    message: l.message.clone(),
                    color,
                };
                let ghost before = labels@;
                labels.push(item);
                assert(labels@ == before.push(item));
                assert(t.labels@.take(j + 1) =~= t.labels@.take(j as int).push(t.labels@[j as int]));
                assert(labels@.map_values(|l: LabelItem| label_view(l)) =~= before.map_values(
                    |l: LabelItem| label_view(l),
                ).push(label_view(item)));
                j = j + 1;
            }
            assert(t.labels@.take(j as int) =~= t.labels@);
            ReportItem::Source { file, offset: location.start, message, labels }
        },
    }
}

/// What is shown for each error of the report, in order.
pub fn report_items(r: &RotoReport) -> (res: Vec<ReportItem>)
    requires
        references_hold(*r),
    ensures
        res@.len() == r.errors@.len(),
        forall|i: int| 0 <= i < res@.len() ==> item_view(#[trigger] res@[i]) == error_item(*r, r.errors@[i]),
{
    let mut items: Vec<ReportItem> = Vec::new();
    let mut i: usize = 0;
    while i < r.errors.len()
        invariant
            i <= r.errors@.len(),
            references_hold(*r),
            items@.len() == i,
            forall|k: int| 0 <= k < i ==> item_view(#[trigger] items@[k]) == error_item(*r, r.errors@[k]),
        decreases r.errors@.len() - i,
    {
        assert(error_references_hold(*r, r.errors@[i as int]));
        let item = error_report_item(r, &r.errors[i]);
        items.push(item);
        i = i + 1;
    }
    items
}

} // verus!
