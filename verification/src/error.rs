//! The error type of the library.

use crate::text::{cat2, owned};
use vstd::prelude::*;

verus! {

/// Result with the library's error.
pub type Result<T> = core::result::Result<T, Error>;

/// What went wrong, by the area it went wrong in.
#[derive(Clone, Debug, PartialEq, Eq)]
pub enum Error {
    /// A manifest or playlist that cannot be read.
    Protocol { message: String },
    /// A transport failure.
    Http { message: String },
    /// A file system failure, with its message.
    Io { message: String },
    /// A decryption failure.
    Decrypt { message: String },
    /// A merge or mux failure.
    Mux { message: String },
    /// A subtitle failure.
    Subtitle { message: String },
    /// A live recording failure.
    Live { message: String },
    /// Options that cannot be used.
    Config { message: String },
    /// The user cancelled the operation.
    UserCancelled,
    /// A behaviour that is not supported.
    Compatibility { message: String },
}

/// Model of `Error`.
pub enum ErrorView {
    Protocol(Seq<char>),
    Http(Seq<char>),
    Io(Seq<char>),
    Decrypt(Seq<char>),
    Mux(Seq<char>),
    Subtitle(Seq<char>),
    Live(Seq<char>),
    Config(Seq<char>),
    UserCancelled,
    Compatibility(Seq<char>),
}

impl DeepView for Error {
    type V = ErrorView;

    open spec fn deep_view(&self) -> ErrorView {
        match self {
            Error::Protocol { message } => ErrorView::Protocol(message@),
            Error::Http { message } => ErrorView::Http(message@),
            Error::Io { message } => ErrorView::Io(message@),
            Error::Decrypt { message } => ErrorView::Decrypt(message@),
            Error::Mux { message } => ErrorView::Mux(message@),
            Error::Subtitle { message } => ErrorView::Subtitle(message@),
            Error::Live { message } => ErrorView::Live(message@),
            Error::Config { message } => ErrorView::Config(message@),
            Error::UserCancelled => ErrorView::UserCancelled,
            Error::Compatibility { message } => ErrorView::Compatibility(message@),
        }
    }
}

impl ErrorView {
    /// The bare message, without the area.
    pub open spec fn message(self) -> Seq<char> {
        match self {
            ErrorView::Protocol(m) => m,
            ErrorView::Http(m) => m,
            ErrorView::Io(m) => m,
            ErrorView::Decrypt(m) => m,
            ErrorView::Mux(m) => m,
            ErrorView::Subtitle(m) => m,
            ErrorView::Live(m) => m,
            ErrorView::Config(m) => m,
            ErrorView::UserCancelled => "operation cancelled"@,
            ErrorView::Compatibility(m) => m,
        }
    }

    /// The message with the area in front.
    pub open spec fn display(self) -> Seq<char> {
        match self {
            ErrorView::Protocol(m) => "protocol error: "@ + m,
            ErrorView::Http(m) => "http error: "@ + m,
            ErrorView::Io(m) => "io error: "@ + m,
            ErrorView::Decrypt(m) => "decrypt error: "@ + m,
            ErrorView::Mux(m) => "mux error: "@ + m,
            ErrorView::Subtitle(m) => "subtitle error: "@ + m,
            ErrorView::Live(m) => "live error: "@ + m,
            ErrorView::Config(m) => "config error: "@ + m,
            ErrorView::UserCancelled => "operation cancelled"@,
            ErrorView::Compatibility(m) => "compatibility error: "@ + m,
        }
    }
}

impl Error {
    /// An error of a manifest or playlist.
    pub fn protocol(message: &str) -> (r: Self)
        ensures
            r.deep_view() == ErrorView::Protocol(message@),
    {
        Error::Protocol { message: owned(message) }
    }

    /// An error of the transport.
    pub fn http(message: &str) -> (r: Self)
        ensures
            r.deep_view() == ErrorView::Http(message@),
    {
        Error::Http { message: owned(message) }
    }

    /// An error of the file system.
    pub fn io(message: &str) -> (r: Self)
        ensures
            r.deep_view() == ErrorView::Io(message@),
    {
        Error::Io { message: owned(message) }
    }

    /// An error of decryption.
    pub fn decrypt(message: &str) -> (r: Self)
        ensures
            r.deep_view() == ErrorView::Decrypt(message@),
    {
        Error::Decrypt { message: owned(message) }
    }

    /// An error of merging or muxing.
    pub fn mux(message: &str) -> (r: Self)
        ensures
            r.deep_view() == ErrorView::Mux(message@),
    {
        Error::Mux { message: owned(message) }
    }

    /// An error of subtitle handling.
    pub fn subtitle(message: &str) -> (r: Self)
        ensures
            r.deep_view() == ErrorView::Subtitle(message@),
    {
        Error::Subtitle { message: owned(message) }
    }

    /// An error of live recording.
    pub fn live(message: &str) -> (r: Self)
        ensures
            r.deep_view() == ErrorView::Live(message@),
    {
        Error::Live { message: owned(message) }
    }

    /// An error of the options.
    pub fn config(message: &str) -> (r: Self)
        ensures
            r.deep_view() == ErrorView::Config(message@),
    {
        Error::Config { message: owned(message) }
    }

    /// An error of an unsupported behaviour.
    pub fn compatibility(message: &str) -> (r: Self)
        ensures
            r.deep_view() == ErrorView::Compatibility(message@),
    {
        Error::Compatibility { message: owned(message) }
    }

    /// The bare message, without the area.
    pub fn compatibility_message(&self) -> (r: String)
        ensures
            r@ == self.deep_view().message(),
    {
        match self {
            Error::Protocol { message } => message.clone(),
            Error::Http { message } => message.clone(),
            Error::Io { message } => message.clone(),
            Error::Decrypt { message } => message.clone(),
            Error::Mux { message } => message.clone(),
            Error::Subtitle { message } => message.clone(),
            Error::Live { message } => message.clone(),
            Error::Config { message } => message.clone(),
            Error::UserCancelled => owned("operation cancelled"),
            Error::Compatibility { message } => message.clone(),
        }
    }

    /// The message with the area in front.
    pub fn display(&self) -> (r: String)
        ensures
            r@ == self.deep_view().display(),
    {
        match self {
            Error::Protocol { message } => cat2("protocol error: ", message.as_str()),
            Error::Http { message } => cat2("http error: ", message.as_str()),
            Error::Io { message } => cat2("io error: ", message.as_str()),
            Error::Decrypt { message } => cat2("decrypt error: ", message.as_str()),
            Error::Mux { message } => cat2("mux error: ", message.as_str()),
            Error::Subtitle { message } => cat2("subtitle error: ", message.as_str()),
            Error::Live { message } => cat2("live error: ", message.as_str()),
            Error::Config { message } => cat2("config error: ", message.as_str()),
            Error::UserCancelled => owned("operation cancelled"),
            Error::Compatibility { message } => cat2("compatibility error: ", message.as_str()),
        }
    }
}

/// Model of a result: what it holds, or the model of the error.
pub open spec fn view_result<T: DeepView>(r: Result<T>) -> core::result::Result<T::V, ErrorView> {
    match r {
        Ok(v) => Ok(v.deep_view()),
        Err(e) => Err(e.deep_view()),
    }
}

} // verus!
