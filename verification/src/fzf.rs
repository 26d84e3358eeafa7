//! The selector: what it is given to choose from, and what a run of it
//! amounts to.

use crate::config::Config;
use crate::dockercompose::{services_view, Service};
use crate::error::{Error, ErrorView};
use crate::list::{
    all_determined, display_lines, entries_view, format_entries, resolve, resolved, resolves,
    shows,
};
use crate::text::{join, joined, signed_decimal, signed_decimal_text};
use vstd::prelude::*;
use vstd::string::*;

verus! {

/// The status with which the selector ends when the user leaves it without
/// a selection. It is no failure.
pub const CANCELLED: i32 = 130;

/// The key binding that the selector is run with: when the user accepts a
/// line, the selector runs the command of the line, which is all that
/// follows the second field, and ends.
pub const BINDING: &'static str = "enter:execute(eval {3..})+accept";

/// The selector, by the path of its binary.
pub struct Command<'a> {
    pub path: &'a str,
}

/// What came of running the selector.
pub enum Selection {
    /// The selector could not be started; the reason is given.
    NotStarted(String),
    /// The selector was started, but gave no handle to its input.
    NoInput,
    /// The list could not be written to the selector; the reason is given.
    NotWritten(String),
    /// The end of the selector could not be awaited; the reason is given.
    NotAwaited(String),
    /// The selector ended with this status (none where a signal ended it).
    Exited(Option<i32>),
}

/// A [`Selection`] as plain values.
pub enum SelectionView {
    NotStarted(Seq<char>),
    NoInput,
    NotWritten(Seq<char>),
    NotAwaited(Seq<char>),
    Exited(Option<i32>),
}

impl View for Selection {
    type V = SelectionView;

    open spec fn view(&self) -> SelectionView {
        match *self {
            Selection::NotStarted(reason) => SelectionView::NotStarted(reason@),
            Selection::NoInput => SelectionView::NoInput,
            Selection::NotWritten(reason) => SelectionView::NotWritten(reason@),
            Selection::NotAwaited(reason) => SelectionView::NotAwaited(reason@),
            Selection::Exited(status) => SelectionView::Exited(status),
        }
    }
}

/// The arguments that the selector is run with: they bind the key that
/// accepts a line.
pub open spec fn selector_arguments() -> Seq<Seq<char>> {
    seq!["--bind"@, BINDING@]
}

/// The result of a run of the selector as plain values.
pub open spec fn result_view(result: Result<(), Error>) -> Result<(), ErrorView> {
    match result {
        Ok(()) => Ok(()),
        Err(error) => Err(error@),
    }
}

/// The selector ended in one of the two ways that are no failure: with
/// status 0, or with the status of a cancellation.
pub open spec fn ended_normally(status: Option<i32>) -> bool {
    status == Some(0i32) || status == Some(CANCELLED)
}

/// Why a run of the selector counts as failed.
pub open spec fn failure(selection: SelectionView) -> Seq<char> {
    match selection {
        SelectionView::NotStarted(reason) => "failed to spawn fzf program: "@ + reason,
        SelectionView::NoInput => "failed to get STDIN handle for fzf program"@,
        SelectionView::NotWritten(reason) => "failed to write to fzf's STDIN: "@ + reason,
        SelectionView::NotAwaited(reason) => "failed to wait for fzf program to finish: "@
            + reason,
        SelectionView::Exited(Some(code)) => "fzf exited with code "@ + signed_decimal(
            code as int,
        ),
        SelectionView::Exited(None) => "fzf was terminated by a signal"@,
    }
}

/// What a run of the selector amounts to: success if the selector was
/// started, was given the list, and ended with status 0 or with the status
/// of a cancellation; a failure of the selector in every other case.
pub open spec fn concluded(selection: SelectionView) -> Result<(), ErrorView> {
    match selection {
        SelectionView::Exited(status) if ended_normally(status) => Ok(()),
        _ => Err(ErrorView::Fzf(failure(selection))),
    }
}

/// Of the statuses that the selector can end with, two are no failure: 0,
/// and the status of a cancellation. Every other status is a failure of
/// the selector, and so is the end by a signal.
pub proof fn lemma_exit_status(status: Option<i32>)
    ensures
        concluded(SelectionView::Exited(status)) is Ok <==> status == Some(0i32) || status == Some(
            CANCELLED,
        ),
        concluded(SelectionView::Exited(status)) matches Err(error) ==> error is Fzf,
{
}

impl<'a> Command<'a> {
    pub fn new(path: &'a str) -> (command: Self)
        ensures
            command.path == path,
    {
        Self { path }
    }

    /// The arguments that the selector is run with: they bind the key that
    /// accepts a line.
    pub fn arguments(&self) -> (arguments: Vec<String>)
        ensures
            arguments.deep_view() == selector_arguments(),
    {
        let mut arguments: Vec<String> = Vec::new();
        arguments.push(String::from_str("--bind"));
        arguments.push(String::from_str(BINDING));
        assert(arguments.deep_view() =~= selector_arguments());
        arguments
    }

    /// What the selector reads on its input: the suggestions, one on each
    /// line. No suggestions make an empty input.
    pub fn input(&self, suggestions: &[String]) -> (input: String)
        ensures
            input@ == joined(suggestions.deep_view()),
            suggestions@.len() == 0 ==> input@.len() == 0,
    {
        join(suggestions)
    }

    /// Whether a run of the selector succeeded, and if not, why. That the
    /// user left the selector without a selection is a success.
    pub fn execute(&self, selection: &Selection) -> (result: Result<(), Error>)
        ensures
            result_view(result) == concluded(selection@),
    {
        let failure = match selection {
            Selection::NotStarted(reason) => String::from_str(
                "failed to spawn fzf program: ",
            ).concat(reason.as_str()),
            Selection::NoInput => String::from_str("failed to get STDIN handle for fzf program"),
            Selection::NotWritten(reason) => String::from_str(
                "failed to write to fzf's STDIN: ",
            ).concat(reason.as_str()),
            Selection::NotAwaited(reason) => String::from_str(
                "failed to wait for fzf program to finish: ",
            ).concat(reason.as_str()),
            Selection::Exited(Some(code)) => {
                if *code == 0 || *code == CANCELLED {
                    return Ok(());
                }
                String::from_str("fzf exited with code ").concat(
                    signed_decimal_text(*code as i64).as_str(),
                )
            },
            Selection::Exited(None) => String::from_str("fzf was terminated by a signal"),
        };
        Err(Error::Fzf(failure))
    }
}

/// The list that is shown for the containers under a configuration: one
/// line for each published port, with the command resolved for it; the
/// lines aligned in columns, in ascending order, each of them once. No
/// containers, or none with a published port, give no lines.
pub fn format_commands(cfg: &Config, services: &[Service]) -> (shown: Vec<String>)
    ensures
        shows(cfg@, services_view(services@), shown.deep_view()),
        all_determined(cfg@, services_view(services@)) ==> shown.deep_view() == display_lines(
            resolved(cfg@, services_view(services@)),
        ),
        services@.len() == 0 ==> shown@.len() == 0,
        resolved(cfg@, services_view(services@)).len() == 0 ==> shown@.len() == 0,
{
    let entries = resolve(cfg, services);
    assert(entries@.len() == entries_view(entries@).len());
    let shown = format_entries(entries.as_slice());
    assert(resolves(cfg@, services_view(services@), entries_view(entries@)));
    shown
}

} // verus!
