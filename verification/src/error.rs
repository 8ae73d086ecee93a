//! The library's error type.
use vstd::prelude::*;

verus! {

/// What went wrong, by the part of the system it concerns, with a message.
#[derive(Debug)]
pub enum HyprsechyError {
    HyprlandIpc(String),
    Systemd(String),
    Uwsm(String),
    Session(String),
    Config(String),
    Walker(String),
    Io(String),
    Json(String),
    Toml(String),
    DesktopEntry(String),
}

/// An error with its message taken as characters.
pub enum ErrorView {
    HyprlandIpc(Seq<char>),
    Systemd(Seq<char>),
    Uwsm(Seq<char>),
    Session(Seq<char>),
    Config(Seq<char>),
    Walker(Seq<char>),
    Io(Seq<char>),
    Json(Seq<char>),
    Toml(Seq<char>),
    DesktopEntry(Seq<char>),
}

impl View for HyprsechyError {
    type V = ErrorView;

    open spec fn view(&self) -> ErrorView {
        match self {
            HyprsechyError::HyprlandIpc(m) => ErrorView::HyprlandIpc(m@),
            HyprsechyError::Systemd(m) => ErrorView::Systemd(m@),
            HyprsechyError::Uwsm(m) => ErrorView::Uwsm(m@),
            HyprsechyError::Session(m) => ErrorView::Session(m@),
            HyprsechyError::Config(m) => ErrorView::Config(m@),
            HyprsechyError::Walker(m) => ErrorView::Walker(m@),
            HyprsechyError::Io(m) => ErrorView::Io(m@),
            HyprsechyError::Json(m) => ErrorView::Json(m@),
            HyprsechyError::Toml(m) => ErrorView::Toml(m@),
            HyprsechyError::DesktopEntry(m) => ErrorView::DesktopEntry(m@),
        }
    }
}

/// The result type of the library's fallible operations.
pub type Result<T> = core::result::Result<T, HyprsechyError>;

} // verus!
