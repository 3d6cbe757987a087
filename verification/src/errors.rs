//! The host's error type: one kind per failure class, each carrying the
//! text that describes the failure.

use vstd::prelude::*;

verus! {

/// Why an operation of the host failed.
#[derive(Debug)]
pub enum ErrorKind {
    /// The guest call into an actor failed.
    Wapc(String),
    /// A call made on behalf of the host failed.
    HostCallFailure(String),
    /// An actor invoked a capability it holds no claim for.
    Authorization(String),
    /// A capability provider could not be registered or failed a call.
    CapabilityProvider(String),
    /// A failure of the host itself.
    MiscHost(String),
    /// A provider rejected its configuration.
    Plugin(String),
    /// A middleware hook failed.
    Middleware(String),
}

/// The mathematical value of an [`ErrorKind`]: the kind and the text it
/// carries.
pub enum ErrorKindView {
    Wapc(Seq<char>),
    HostCallFailure(Seq<char>),
    Authorization(Seq<char>),
    CapabilityProvider(Seq<char>),
    MiscHost(Seq<char>),
    Plugin(Seq<char>),
    Middleware(Seq<char>),
}

impl View for ErrorKind {
    type V = ErrorKindView;

    open spec fn view(&self) -> ErrorKindView {
        match self {
            ErrorKind::Wapc(s) => ErrorKindView::Wapc(s@),
            ErrorKind::HostCallFailure(s) => ErrorKindView::HostCallFailure(s@),
            ErrorKind::Authorization(s) => ErrorKindView::Authorization(s@),
            ErrorKind::CapabilityProvider(s) => ErrorKindView::CapabilityProvider(s@),
            ErrorKind::MiscHost(s) => ErrorKindView::MiscHost(s@),
            ErrorKind::Plugin(s) => ErrorKindView::Plugin(s@),
            ErrorKind::Middleware(s) => ErrorKindView::Middleware(s@),
        }
    }
}

/// The text an [`ErrorKindView`] carries.
pub open spec fn kind_text(k: ErrorKindView) -> Seq<char> {
    match k {
        ErrorKindView::Wapc(s) => s,
        ErrorKindView::HostCallFailure(s) => s,
        ErrorKindView::Authorization(s) => s,
        ErrorKindView::CapabilityProvider(s) => s,
        ErrorKindView::MiscHost(s) => s,
        ErrorKindView::Plugin(s) => s,
        ErrorKindView::Middleware(s) => s,
    }
}

/// An error of the host.
#[derive(Debug)]
pub struct Error(Box<ErrorKind>);

impl View for Error {
    type V = ErrorKindView;

    closed spec fn view(&self) -> ErrorKindView {
        self.0@
    }
}

/// Wraps a kind as an error.
pub fn new(kind: ErrorKind) -> (r: Error)
    ensures
        r@ == kind@,
{
    Error(Box::new(kind))
}

impl Error {
    /// The kind of the error.
    pub fn kind(&self) -> (r: &ErrorKind)
        ensures
            r@ == self@,
    {
        &self.0
    }

    /// The kind of the error, consuming it.
    pub fn into_kind(self) -> (r: ErrorKind)
        ensures
            r@ == self@,
    {
        *self.0
    }

    /// The text the error carries.
    pub fn message(&self) -> (r: String)
        ensures
            r@ == kind_text(self@),
    {
        match &*self.0 {
            ErrorKind::Wapc(s) => s.clone(),
            ErrorKind::HostCallFailure(s) => s.clone(),
            ErrorKind::Authorization(s) => s.clone(),
            ErrorKind::CapabilityProvider(s) => s.clone(),
            ErrorKind::MiscHost(s) => s.clone(),
            ErrorKind::Plugin(s) => s.clone(),
            ErrorKind::Middleware(s) => s.clone(),
        }
    }
}

} // verus!
