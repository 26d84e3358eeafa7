//! The failures a run can end with.

use vstd::prelude::*;
use vstd::string::*;

verus! {

/// Why a run failed, with the detail reported by the step that failed.
#[derive(Debug, PartialEq, Eq)]
pub enum Error {
    /// The configuration document could not be read or decoded.
    Config(String),
    /// The services could not be listed.
    DockerCompose(String),
    /// The selector could not be run, or ended abnormally.
    Fzf(String),
}

/// An [`Error`] with its detail as a sequence of characters.
pub enum ErrorView {
    Config(Seq<char>),
    DockerCompose(Seq<char>),
    Fzf(Seq<char>),
}

impl View for Error {
    type V = ErrorView;

    open spec fn view(&self) -> ErrorView {
        match *self {
            Error::Config(detail) => ErrorView::Config(detail@),
            Error::DockerCompose(detail) => ErrorView::DockerCompose(detail@),
            Error::Fzf(detail) => ErrorView::Fzf(detail@),
        }
    }
}

impl ErrorView {
    /// The message shown to the user: what failed, a colon, and the detail.
    pub open spec fn message(self) -> Seq<char> {
        match self {
            ErrorView::Config(detail) => "failed to read configuration file: "@ + detail,
            ErrorView::DockerCompose(detail) => "failed to get processes from docker-compose: "@
                + detail,
            ErrorView::Fzf(detail) => "failed to execute fzf: "@ + detail,
        }
    }
}

impl Error {
    /// The message shown to the user.
    pub fn to_string(&self) -> (text: String)
        ensures
            text@ == self@.message(),
    {
        match self {
            Error::Config(detail) => String::from_str("failed to read configuration file: ").concat(
                detail.as_str(),
            ),
            Error::DockerCompose(detail) => String::from_str(
                "failed to get processes from docker-compose: ",
            ).concat(detail.as_str()),
            Error::Fzf(detail) => String::from_str("failed to execute fzf: ").concat(
                detail.as_str(),
            ),
        }
    }
}

} // verus!
