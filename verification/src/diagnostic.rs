//! Diagnostics, and what the parser and the linter report.
//!
//! A raw failure names the buffer it was found in and a byte offset there.
//! Only failures in the primary buffer, the text under analysis, become
//! diagnostics; its path is the empty path. What was found in an included
//! file is dropped.

use crate::position::{get_line_end, get_position, line_breaks_before, line_end, line_start};
use crate::text::str_equal;
use vstd::prelude::*;
use vstd::string::StringSliceAdditionalSpecFns;

verus! {

/// How grave a diagnostic is.
#[derive(Clone, Copy, Debug, PartialEq, Eq)]
pub enum Severity {
    Error,
    Warning,
}

/// A zero-based line and column.
#[derive(Clone, Copy, Debug, PartialEq, Eq)]
pub struct Position {
    pub line: usize,
    pub character: usize,
}

/// The span from `start` up to, not including, `end`.
#[derive(Clone, Copy, Debug, PartialEq, Eq)]
pub struct Range {
    pub start: Position,
    pub end: Position,
}

/// One finding, placed in the text.
#[derive(Debug, PartialEq, Eq)]
pub struct Diagnostic {
    pub range: Range,
    pub severity: Severity,
    pub code: Option<String>,
    pub source: String,
    pub message: String,
}

/// Mathematical value of a [`Diagnostic`].
pub struct DiagnosticView {
    pub range: Range,
    pub severity: Severity,
    pub code: Option<Seq<char>>,
    pub source: Seq<char>,
    pub message: Seq<char>,
}

impl View for Diagnostic {
    type V = DiagnosticView;

    open spec fn view(&self) -> DiagnosticView {
        DiagnosticView {
            range: self.range,
            severity: self.severity,
            code: self.code.deep_view(),
            source: self.source@,
            message: self.message@,
        }
    }
}

impl DeepView for Diagnostic {
    type V = DiagnosticView;

    open spec fn deep_view(&self) -> DiagnosticView {
        self@
    }
}

/// A place in a buffer: the buffer's path and a byte offset in it.
#[derive(Debug, PartialEq, Eq)]
pub struct Location {
    pub path: String,
    pub offset: usize,
}

/// What an analysis pass found, before it is placed in the text.
#[derive(Debug, PartialEq, Eq)]
pub enum RawFailure {
    /// The parser gave up, at `location` if it could tell where.
    ParseFailure { location: Option<Location> },
    /// A rule was broken by `length` bytes from offset `begin` of `path`.
    RuleViolation { path: String, begin: usize, length: usize, name: String, hint: String },
}

/// Mathematical value of a [`Location`].
pub struct LocationView {
    pub path: Seq<char>,
    pub offset: usize,
}

/// Mathematical value of a [`RawFailure`].
pub enum RawFailureView {
    ParseFailure { location: Option<LocationView> },
    RuleViolation { path: Seq<char>, begin: usize, length: usize, name: Seq<char>, hint: Seq<char> },
}

impl View for Location {
    type V = LocationView;

    open spec fn view(&self) -> LocationView {
        LocationView { path: self.path@, offset: self.offset }
    }
}

impl DeepView for Location {
    type V = LocationView;

    open spec fn deep_view(&self) -> LocationView {
        self@
    }
}

impl View for RawFailure {
    type V = RawFailureView;

    open spec fn view(&self) -> RawFailureView {
        match self {
            RawFailure::ParseFailure { location } => RawFailureView::ParseFailure {
                location: location.deep_view(),
            },
            RawFailure::RuleViolation { path, begin, length, name, hint } => {
                RawFailureView::RuleViolation {
                    path: path@,
                    begin: *begin,
                    length: *length,
                    name: name@,
                    hint: hint@,
                }
            },
        }
    }
}

impl DeepView for RawFailure {
    type V = RawFailureView;

    open spec fn deep_view(&self) -> RawFailureView {
        self@
    }
}

/// The path of the primary buffer: the empty path, under which a text
/// that is not saved is parsed.
pub const PRIMARY_BUFFER: &'static str = "";

/// Whether `path` names the primary buffer.
pub open spec fn is_primary(path: Seq<char>) -> bool {
    path == PRIMARY_BUFFER@
}

/// The buffer that a failure was found in, if it names one.
pub open spec fn buffer_of(failure: RawFailureView) -> Option<Seq<char>> {
    match failure {
        RawFailureView::ParseFailure { location: Some(at) } => Some(at.path),
        RawFailureView::ParseFailure { location: None } => None,
        RawFailureView::RuleViolation { path, .. } => Some(path),
    }
}

/// The name under which every diagnostic of this library is filed.
pub open spec fn source_name() -> Seq<char> {
    "analysis-service"@
}

/// The message of a syntax error.
pub open spec fn parse_error_message() -> Seq<char> {
    "parse error"@
}

/// Line and column of byte offset `offset` in `text`.
pub open spec fn position_at(text: Seq<u8>, offset: int) -> Position {
    Position {
        line: line_breaks_before(text, offset) as usize,
        character: (offset - line_start(text, offset)) as usize,
    }
}

/// The span of `length` columns from `offset` on, on the line of `offset`.
pub open spec fn span_at(text: Seq<u8>, offset: int, length: int) -> Range {
    let start = position_at(text, offset);
    Range {
        start,
        end: Position { line: start.line, character: (start.character + length) as usize },
    }
}

/// Number of bytes from `offset` to the end of its line; none where the
/// offset lies behind the end of the text.
pub open spec fn rest_of_line(text: Seq<u8>, offset: int) -> int {
    if line_end(text, offset) >= offset {
        line_end(text, offset) - offset
    } else {
        0
    }
}

/// The diagnostic that a failure becomes, if it becomes one.
///
/// A syntax error without a place, a failure in another buffer than the
/// primary one, and a rule violation whose end column does not fit in
/// `usize` become none. A syntax error spans from its offset to the end
/// of its line; a rule violation spans its length on the line it starts
/// on.
pub open spec fn diagnostic_of(text: Seq<u8>, failure: RawFailureView) -> Option<DiagnosticView> {
    match failure {
        RawFailureView::ParseFailure { location: None } => None,
        RawFailureView::ParseFailure { location: Some(at) } => {
            if is_primary(at.path) {
                Some(
                    DiagnosticView {
                        range: span_at(
                            text,
                            at.offset as int,
                            rest_of_line(text, at.offset as int),
                        ),
                        severity: Severity::Error,
                        code: None,
                        source: source_name(),
                        message: parse_error_message(),
                    },
                )
            } else {
                None
            }
        },
        RawFailureView::RuleViolation { path, begin, length, name, hint } => {
            if is_primary(path) && position_at(text, begin as int).character + length
                <= usize::MAX {
                Some(
                    DiagnosticView {
                        range: span_at(text, begin as int, length as int),
                        severity: Severity::Warning,
                        code: Some(name),
                        source: source_name(),
                        message: hint,
                    },
                )
            } else {
                None
            }
        },
    }
}

/// The diagnostics of a list of failures: one for each failure that
/// becomes one, in the order of the failures.
pub open spec fn diagnostics_of(text: Seq<u8>, failures: Seq<RawFailureView>) -> Seq<
    DiagnosticView,
>
    decreases failures.len(),
{
    if failures.len() == 0 {
        Seq::empty()
    } else {
        let before = diagnostics_of(text, failures.drop_last());
        match diagnostic_of(text, failures.last()) {
            Some(d) => before.push(d),
            None => before,
        }
    }
}

/// Places one failure in `text`.
pub fn translate(text: &str, failure: &RawFailure) -> (r: Option<Diagnostic>)
    ensures
        r.deep_view() == diagnostic_of(text.spec_bytes(), failure@),
{
    match failure {
        RawFailure::ParseFailure { location: None } => None,
        RawFailure::ParseFailure { location: Some(at) } => {
            if !str_equal(at.path.as_str(), PRIMARY_BUFFER) {
                return None;
            }
            let (line, col) = get_position(text, at.offset);
            let end = get_line_end(text, at.offset);
            proof {
                crate::position::lemma_line_end(text.spec_bytes(), at.offset as int);
                crate::position::lemma_line_start(text.spec_bytes(), at.offset as int);
            }
            let len: usize = if end >= at.offset {
                end - at.offset
            } else {
                0
            };
            Some(
                Diagnostic {
                    range: Range {
                        start: Position { line, character: col },
                        end: Position { line, character: col + len },
                    },
                    severity: Severity::Error,
                    code: None,
                    source: "analysis-service".to_owned(),
                    message: "parse error".to_owned(),
                },
            )
        },
        RawFailure::RuleViolation { path, begin, length, name, hint } => {
            if !str_equal(path.as_str(), PRIMARY_BUFFER) {
                return None;
            }
            let (line, col) = get_position(text, *begin);
            proof {
                crate::position::lemma_line_start(text.spec_bytes(), *begin as int);
            }
            if *length > usize::MAX - col {
                return None;
            }
            Some(
                Diagnostic {
                    range: Range {
                        start: Position { line, character: col },
                        end: Position { line, character: col + *length },
                    },
                    severity: Severity::Warning,
                    code: Some(name.clone()),
                    source: "analysis-service".to_owned(),
                    message: hint.clone(),
                },
            )
        },
    }
}

/// Places the failures of one pass in `text`, in their order.
pub fn report(text: &str, failures: &Vec<RawFailure>) -> (r: Vec<Diagnostic>)
    ensures
        r.deep_view() == diagnostics_of(text.spec_bytes(), failures.deep_view()),
{
    let mut out: Vec<Diagnostic> = Vec::new();
    let mut i: usize = 0;
    while i < failures.len()
        invariant
            i <= failures@.len(),
            out.deep_view() == diagnostics_of(
                text.spec_bytes(),
                failures.deep_view().take(i as int),
            ),
        decreases failures@.len() - i,
    {
        let ghost before = out.deep_view();
        let found = translate(text, &failures[i]);
        proof {
            let all = failures.deep_view();
            assert(all.take(i + 1).drop_last() == all.take(i as int));
            assert(all.take(i + 1).last() == failures@[i as int]@);
        }
        match found {
            Some(d) => {
                out.push(d);
                assert(out.deep_view() == before.push(d@));
            },
            None => {},
        }
        i += 1;
    }
    assert(failures.deep_view().take(failures@.len() as int) == failures.deep_view());
    out
}

/// Whether a failure was found in the primary buffer.
pub open spec fn in_primary_buffer(failure: RawFailureView) -> bool {
    buffer_of(failure) matches Some(path) && is_primary(path)
}

/// A failure becomes a diagnostic only if it was found in the primary
/// buffer.
pub proof fn lemma_diagnostic_needs_primary_buffer(text: Seq<u8>, failure: RawFailureView)
    ensures
        diagnostic_of(text, failure) is Some ==> in_primary_buffer(failure),
{
}

/// Whether `d` is the diagnostic of one of `failures` that was found in
/// the primary buffer.
pub open spec fn reported_from(
    text: Seq<u8>,
    failures: Seq<RawFailureView>,
    d: DiagnosticView,
) -> bool {
    exists|j: int|
        0 <= j < failures.len() && in_primary_buffer(#[trigger] failures[j]) && diagnostic_of(
            text,
            failures[j],
        ) == Some(d)
}

/// Every diagnostic of a list of failures is the diagnostic of one of
/// them that was found in the primary buffer: what was found in an
/// included file is never reported.
pub proof fn lemma_only_primary_buffer_reported(text: Seq<u8>, failures: Seq<RawFailureView>)
    ensures
        forall|i: int|
            0 <= i < diagnostics_of(text, failures).len() ==> reported_from(
                text,
                failures,
                #[trigger] diagnostics_of(text, failures)[i],
            ),
    decreases failures.len(),
{
    if failures.len() > 0 {
        let init = failures.drop_last();
        lemma_only_primary_buffer_reported(text, init);
        let all = diagnostics_of(text, failures);
        assert forall|i: int| 0 <= i < all.len() implies reported_from(
            text,
            failures,
            #[trigger] all[i],
        ) by {
            if i < diagnostics_of(text, init).len() {
                assert(all[i] == diagnostics_of(text, init)[i]);
                assert(reported_from(text, init, diagnostics_of(text, init)[i]));
                let j = choose|j: int|
                    0 <= j < init.len() && in_primary_buffer(#[trigger] init[j]) && diagnostic_of(
                        text,
                        init[j],
                    ) == Some(diagnostics_of(text, init)[i]);
                assert(failures[j] == init[j]);
            } else {
                let j = failures.len() - 1;
                assert(diagnostic_of(text, failures[j]) == Some(all[i]));
                assert(in_primary_buffer(failures[j]));
            }
        }
    }
}

/// Failures that were all found in included files leave nothing to
/// report.
pub proof fn lemma_included_files_are_silent(text: Seq<u8>, failures: Seq<RawFailureView>)
    requires
        forall|j: int| 0 <= j < failures.len() ==> !in_primary_buffer(failures[j]),
    ensures
        diagnostics_of(text, failures).len() == 0,
    decreases failures.len(),
{
    if failures.len() > 0 {
        lemma_included_files_are_silent(text, failures.drop_last());
    }
}

/// The diagnostics keep the order of the failures: those of one list
/// followed by another are those of the first followed by those of the
/// second.
pub proof fn lemma_diagnostics_in_order(
    text: Seq<u8>,
    first: Seq<RawFailureView>,
    second: Seq<RawFailureView>,
)
    ensures
        diagnostics_of(text, first + second) == diagnostics_of(text, first) + diagnostics_of(
            text,
            second,
        ),
    decreases second.len(),
{
    if second.len() == 0 {
        assert(first + second == first);
        assert(diagnostics_of(text, first) + diagnostics_of(text, second) == diagnostics_of(
            text,
            first,
        ));
    } else {
        lemma_diagnostics_in_order(text, first, second.drop_last());
        assert((first + second).drop_last() == first + second.drop_last());
        assert((first + second).last() == second.last());
        match diagnostic_of(text, second.last()) {
            Some(d) => {
                assert((diagnostics_of(text, first) + diagnostics_of(
                    text,
                    second.drop_last(),
                )).push(d) == diagnostics_of(text, first) + diagnostics_of(
                    text,
                    second.drop_last(),
                ).push(d));
            },
            None => {},
        }
    }
}

/// A single rule violation in the primary buffer gives a single warning:
/// from the line and column of its offset, over its length on that line,
/// under the rule's name and with the rule's hint.
pub proof fn lemma_single_violation(
    text: Seq<u8>,
    begin: usize,
    length: usize,
    name: Seq<char>,
    hint: Seq<char>,
)
    requires
        position_at(text, begin as int).character + length <= usize::MAX,
    ensures
        diagnostics_of(
            text,
            seq![RawFailureView::RuleViolation { path: PRIMARY_BUFFER@, begin, length, name, hint }],
        ) == seq![
            DiagnosticView {
                range: Range {
                    start: position_at(text, begin as int),
                    end: Position {
                        line: position_at(text, begin as int).line,
                        character: (position_at(text, begin as int).character + length) as usize,
                    },
                },
                severity: Severity::Warning,
                code: Some(name),
                source: source_name(),
                message: hint,
            },
        ],
{
    let failure = RawFailureView::RuleViolation { path: PRIMARY_BUFFER@, begin, length, name, hint };
    let failures = seq![failure];
    assert(failures.drop_last() == Seq::<RawFailureView>::empty());
    assert(failures.last() == failure);
    assert(diagnostics_of(text, failures.drop_last()) == Seq::<DiagnosticView>::empty());
    assert(diagnostics_of(text, failures) == Seq::<DiagnosticView>::empty().push(
        diagnostic_of(text, failure)->0,
    ));
}

/// Every diagnostic is filed under the library's name; a rule violation
/// gives a warning and a syntax error an error.
pub proof fn lemma_diagnostic_kinds(text: Seq<u8>, failure: RawFailureView)
    ensures
        diagnostic_of(text, failure) matches Some(d) ==> {
            &&& d.source == source_name()
            &&& d.range.start.line == d.range.end.line
            &&& failure is RuleViolation <==> d.severity is Warning
            &&& failure is ParseFailure <==> d.severity is Error
        },
{
}

} // verus!
