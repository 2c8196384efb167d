//! One analysis pass: the parser, then the rules on what it parsed.
//!
//! The text is parsed as the primary buffer. What the parser makes of it
//! depends on the files that the text includes, so a pass is stated over
//! the parser's outcome: of a parse that failed, the syntax error is left;
//! on a text that parsed, the linter is asked event by event, in the order
//! of the traversal, and what it finds is kept in that order.

use crate::define::DefineTable;
use crate::diagnostic::{Location, RawFailure, RawFailureView, PRIMARY_BUFFER};
use crate::rules::rules_of;
use vstd::prelude::*;

verus! {

#[verifier::external_type_specification]
#[verifier::external_body]
pub struct ExSyntaxTree(sv_parser::SyntaxTree);

#[verifier::external_type_specification]
#[verifier::external_body]
pub struct ExNodeEvent<'a>(sv_parser::NodeEvent<'a>);

/// Included files are read, not passed over.
pub const IGNORE_INCLUDE: bool = false;

/// A text that ends in the middle of a construct is a syntax error.
pub const ALLOW_INCOMPLETE: bool = false;

/// Why a text could not be parsed.
pub enum ParseError {
    /// A syntax error, at `location` where the parser could tell.
    Syntax { location: Option<Location> },
    /// Any other failure: an included file could not be read, a macro is
    /// used that has no definition, and the like.
    Other,
}

/// Calls `sv_parser::parse_sv_str` on `text` as the buffer of the path
/// `path`, with the definitions, include paths and flags given.
///
/// Trusted: nothing is claimed of the outcome, which depends on the files
/// that the text includes.
#[verifier::external_body]
pub(crate) fn parse_text(
    text: &str,
    path: &str,
    defines: &Vec<crate::define::Define>,
    include_paths: &Vec<String>,
    ignore_include: bool,
    allow_incomplete: bool,
) -> Result<sv_parser::SyntaxTree, ParseError> {
    let pre: std::collections::HashMap<_, _> = defines.iter().map(|d| {
        let text = d.text.clone().map(|t| sv_parser::DefineText::new(t, None));
        (d.identifier.clone(), Some(sv_parser::Define::new(d.identifier.clone(), vec![], text)))
    }).collect();
    match sv_parser::parse_sv_str(text, path, &pre, include_paths, ignore_include, allow_incomplete) {
        Ok((tree, _)) => Ok(tree),
        Err(sv_parser::Error::Parse(at)) => Err(ParseError::Syntax {
            location: at.map(|(p, offset)| Location { path: p.to_string_lossy().into_owned(), offset }),
        }),
        Err(_) => Err(ParseError::Other),
    }
}

/// The events of the traversal of a tree, in order: each node is entered,
/// then its children are walked, then it is left.
pub uninterp spec fn events_of(tree: sv_parser::SyntaxTree) -> Seq<sv_parser::NodeEvent<'static>>;

/// What the linter finds at one event of a tree: the violations of its
/// rules, in the order of the rules.
pub uninterp spec fn found_at(
    linter: svlint::linter::Linter,
    tree: sv_parser::SyntaxTree,
    event: sv_parser::NodeEvent,
) -> Seq<RawFailureView>;

/// The linter after it was asked at one event of a tree: with the same
/// rules, and with what they noted for themselves.
pub uninterp spec fn linter_after(
    linter: svlint::linter::Linter,
    tree: sv_parser::SyntaxTree,
    event: sv_parser::NodeEvent,
) -> svlint::linter::Linter;

/// Walks the tree as `sv_parser`'s event iterator does and collects the
/// events, in order.
///
/// Trusted: the events depend on the tree alone.
#[verifier::external_body]
pub(crate) fn syntax_events<'a>(tree: &'a sv_parser::SyntaxTree) -> (r: Vec<
    sv_parser::NodeEvent<'a>,
>)
    ensures
        r@ == events_of(*tree),
{
    tree.into_iter().event().collect()
}

/// Calls `svlint::linter::Linter::check` for one event.
///
/// Trusted: what is found, and what the linter is afterwards, depend on
/// the linter, the tree and the event alone. The linter holds the same
/// rules afterwards; every item of the result is a rule violation that
/// carries the name of one of these rules.
#[verifier::external_body]
pub(crate) fn check_event(
    linter: &mut svlint::linter::Linter,
    tree: &sv_parser::SyntaxTree,
    event: &sv_parser::NodeEvent,
) -> (r: Vec<RawFailure>)
    ensures
        r.deep_view() == found_at(*old(linter), *tree, *event),
        *final(linter) == linter_after(*old(linter), *tree, *event),
        rules_of(*final(linter)) == rules_of(*old(linter)),
        forall|i: int| 0 <= i < r@.len() ==> violates(#[trigger] r@[i]@, rules_of(*old(linter))),
{
    linter.check(tree, event).into_iter().map(|f| RawFailure::RuleViolation {
        path: f.path.to_string_lossy().into_owned(),
        begin: f.beg,
        length: f.len,
        name: f.name,
        hint: f.hint,
    }).collect()
}

/// The linter after it was asked at the first `n` events of a tree.
pub open spec fn linter_at(
    linter: svlint::linter::Linter,
    tree: sv_parser::SyntaxTree,
    n: int,
) -> svlint::linter::Linter
    decreases n,
{
    if n <= 0 {
        linter
    } else {
        linter_after(linter_at(linter, tree, n - 1), tree, events_of(tree)[n - 1])
    }
}

/// What the linter finds at the first `n` events of a tree, event by
/// event.
pub open spec fn found_before(
    linter: svlint::linter::Linter,
    tree: sv_parser::SyntaxTree,
    n: int,
) -> Seq<RawFailureView>
    decreases n,
{
    if n <= 0 {
        Seq::empty()
    } else {
        found_before(linter, tree, n - 1) + found_at(
            linter_at(linter, tree, n - 1),
            tree,
            events_of(tree)[n - 1],
        )
    }
}

/// What the linter finds in a tree: what it finds at each event, in the
/// order of the traversal.
pub open spec fn found_in(linter: svlint::linter::Linter, tree: sv_parser::SyntaxTree) -> Seq<
    RawFailureView,
> {
    found_before(linter, tree, events_of(tree).len() as int)
}

/// The linter after it was asked at every event of a tree.
pub open spec fn linter_past(
    linter: svlint::linter::Linter,
    tree: sv_parser::SyntaxTree,
) -> svlint::linter::Linter {
    linter_at(linter, tree, events_of(tree).len() as int)
}

/// Whether `failure` is a rule violation under the name of one of
/// `rules`.
pub open spec fn violates(failure: RawFailureView, rules: Set<Seq<char>>) -> bool {
    failure matches RawFailureView::RuleViolation { name, .. } && rules.contains(name)
}

/// Checks every rule at every event of the tree, in the order of the
/// traversal.
///
/// What comes back is what the linter finds, event by event. The linter
/// holds the same rules afterwards, and each violation stands under the
/// name of one of them.
pub fn check_rules(linter: &mut svlint::linter::Linter, tree: &sv_parser::SyntaxTree) -> (r: Vec<
    RawFailure,
>)
    ensures
        r.deep_view() == found_in(*old(linter), *tree),
        *final(linter) == linter_past(*old(linter), *tree),
        rules_of(*final(linter)) == rules_of(*old(linter)),
        forall|i: int| 0 <= i < r@.len() ==> violates(#[trigger] r@[i]@, rules_of(*old(linter))),
{
    let events = syntax_events(tree);
    let mut out: Vec<RawFailure> = Vec::new();
    let mut i: usize = 0;
    assert(out.deep_view() =~= found_before(*old(linter), *tree, 0));
    while i < events.len()
        invariant
            i <= events@.len(),
            events@ == events_of(*tree),
            out.deep_view() == found_before(*old(linter), *tree, i as int),
            *linter == linter_at(*old(linter), *tree, i as int),
            rules_of(*linter) == rules_of(*old(linter)),
            forall|j: int|
                0 <= j < out@.len() ==> violates(#[trigger] out@[j]@, rules_of(*old(linter))),
        decreases events@.len() - i,
    {
        let ghost before = out.deep_view();
        let mut found = check_event(linter, tree, &events[i]);
        let ghost added = found.deep_view();
        out.append(&mut found);
        assert(out.deep_view() =~= before + added);
        i += 1;
    }
    out
}

/// The shape of what one pass finds: at most one syntax error and nothing
/// else, or rule violations only, and those only where the rules are
/// checked.
pub open spec fn pass_shape(failures: Seq<RawFailureView>, rules_checked: bool) -> bool {
    ||| failures.len() == 0
    ||| failures.len() == 1 && failures[0] is ParseFailure
    ||| rules_checked && forall|i: int| 0 <= i < failures.len() ==> failures[i] is RuleViolation
}

/// What a parse that failed leaves to report.
pub open spec fn failures_of(error: ParseError) -> Seq<RawFailureView> {
    match error {
        ParseError::Syntax { location } => seq![
            RawFailureView::ParseFailure { location: location.deep_view() },
        ],
        ParseError::Other => Seq::empty(),
    }
}

/// Turns a parse that failed into what is left to report: the syntax
/// error, or nothing for any other failure.
pub fn parse_failures(error: ParseError) -> (r: Vec<RawFailure>)
    ensures
        r.deep_view() == failures_of(error),
{
    let mut out: Vec<RawFailure> = Vec::new();
    match error {
        ParseError::Syntax { location } => {
            out.push(RawFailure::ParseFailure { location });
        },
        ParseError::Other => {},
    }
    assert(out.deep_view() =~= failures_of(error));
    out
}

/// Whether `failure`, if it is a rule violation, carries the name of one
/// of the rules that are checked.
pub open spec fn named_by(failure: RawFailureView, rules: Option<Set<Seq<char>>>) -> bool {
    failure is RuleViolation ==> match rules {
        Some(checked) => violates(failure, checked),
        None => false,
    }
}

/// The names of the rules that are checked: those of the linter, where
/// there is one.
pub open spec fn rules_checked(linter: Option<svlint::linter::Linter>) -> Option<Set<Seq<char>>> {
    match linter {
        Some(engine) => Some(rules_of(engine)),
        None => None,
    }
}

/// What a pass leaves to report, given what the parser made of the text:
/// of a parse that failed, its syntax error if it is one; of a text that
/// parsed, what the linter finds in the tree, and nothing without a
/// linter.
pub open spec fn failures_after(
    parsed: Result<sv_parser::SyntaxTree, ParseError>,
    linter: Option<svlint::linter::Linter>,
) -> Seq<RawFailureView> {
    match parsed {
        Err(error) => failures_of(error),
        Ok(tree) => match linter {
            Some(engine) => found_in(engine, tree),
            None => Seq::empty(),
        },
    }
}

/// The linter after a pass, given what the parser made of the text: as it
/// was after a parse that failed, and else after it was asked at every
/// event of the tree.
pub open spec fn linter_after_pass(
    parsed: Result<sv_parser::SyntaxTree, ParseError>,
    linter: Option<svlint::linter::Linter>,
) -> Option<svlint::linter::Linter> {
    match parsed {
        Err(_) => linter,
        Ok(tree) => match linter {
            Some(engine) => Some(linter_past(engine, tree)),
            None => None,
        },
    }
}

/// Whether `found` and `after` are what a pass with the linter `before`
/// may leave: what it leaves for some outcome of the parser.
pub open spec fn pass_of(
    before: Option<svlint::linter::Linter>,
    found: Seq<RawFailureView>,
    after: Option<svlint::linter::Linter>,
) -> bool {
    exists|parsed: Result<sv_parser::SyntaxTree, ParseError>|
        found == #[trigger] failures_after(parsed, before) && after == linter_after_pass(
            parsed,
            before,
        )
}

/// What is left to report once the parser is done with a text, and the
/// linter afterwards.
///
/// The rules are checked on a text that parsed only; the linter holds the
/// same rules afterwards.
pub fn pass_failures(
    parsed: Result<sv_parser::SyntaxTree, ParseError>,
    linter: &mut Option<svlint::linter::Linter>,
) -> (r: Vec<RawFailure>)
    ensures
        r.deep_view() == failures_after(parsed, *old(linter)),
        *final(linter) == linter_after_pass(parsed, *old(linter)),
        rules_checked(*final(linter)) == rules_checked(*old(linter)),
        pass_shape(r.deep_view(), *old(linter) is Some),
        forall|i: int|
            0 <= i < r@.len() ==> named_by(#[trigger] r@[i]@, rules_checked(*old(linter))),
{
    match parsed {
        Ok(tree) => match linter {
            Some(engine) => {
                let found = check_rules(engine, &tree);
                assert forall|i: int| 0 <= i < found.deep_view().len() implies found.deep_view()[i] is RuleViolation by {
                    assert(found.deep_view()[i] == found@[i]@);
                    assert(violates(found@[i]@, rules_of((*old(linter))->0)));
                }
                found
            },
            None => {
                let none: Vec<RawFailure> = Vec::new();
                assert(none.deep_view() =~= Seq::<RawFailureView>::empty());
                none
            },
        },
        Err(error) => parse_failures(error),
    }
}

/// Runs one pass over `text`: parses it as the primary buffer, with the
/// definitions and include paths given, and, where it parses and a linter
/// is given, checks the rules.
///
/// What comes back, and the linter afterwards, are what a pass leaves for
/// some outcome of the parser. The linter, where one is given, holds the
/// same rules afterwards, and every rule violation in the result carries
/// the name of one of them.
pub fn analyze(
    text: &str,
    defines: &DefineTable,
    include_paths: &Vec<String>,
    linter: &mut Option<svlint::linter::Linter>,
) -> (r: Vec<RawFailure>)
    requires
        defines.wf(),
    ensures
        pass_of(*old(linter), r.deep_view(), *final(linter)),
        rules_checked(*final(linter)) == rules_checked(*old(linter)),
        pass_shape(r.deep_view(), *old(linter) is Some),
        forall|i: int|
            0 <= i < r@.len() ==> named_by(#[trigger] r@[i]@, rules_checked(*old(linter))),
{
    let parsed = parse_text(
        text,
        PRIMARY_BUFFER,
        defines.entries(),
        include_paths,
        IGNORE_INCLUDE,
        ALLOW_INCOMPLETE,
    );
    pass_failures(parsed, linter)
}

} // verus!
