//! What can go wrong in a run, and how far each failure reaches.

use vstd::prelude::*;
use vstd::string::*;

verus! {

/// The four classes of failure.
#[derive(Debug, Clone, Copy, PartialEq, Eq, Structural)]
pub enum ErrorKind {
    /// A provider could not be reached.
    Transport,
    /// A page did not have the expected structure or fields.
    Parse,
    /// The configuration or the lock file is missing or unusable.
    Config,
    /// The file system refused a write.
    Storage,
}

/// How a provider's page failed to yield a version.
#[derive(Debug, Clone, Copy, PartialEq, Eq, Structural)]
pub enum ParseFault {
    /// The body is not well-formed UTF-8.
    NotUtf8,
    /// The body is longer than a page can be.
    PageTooLarge,
    /// An element that the page must hold is absent.
    MissingElement,
    /// The upload time is not a number.
    BadTimestamp,
    /// The date does not follow the provider's format.
    BadDate,
}

/// A failure of one operation.
#[derive(Debug, PartialEq, Eq)]
pub enum SyncError {
    Transport { reason: String },
    Parse { fault: ParseFault },
    UnknownProvider { provider: String },
    /// The configured number of operations under way at once is zero.
    ZeroLimit,
    Storage { reason: String },
}

/// A `SyncError` as plain values.
pub enum ErrorView {
    Transport { reason: Seq<char> },
    Parse { fault: ParseFault },
    UnknownProvider { provider: Seq<char> },
    ZeroLimit,
    Storage { reason: Seq<char> },
}

impl View for SyncError {
    type V = ErrorView;

    open spec fn view(&self) -> ErrorView {
        match self {
            SyncError::Transport { reason } => ErrorView::Transport { reason: reason@ },
            SyncError::Parse { fault } => ErrorView::Parse { fault: *fault },
            SyncError::UnknownProvider { provider } => ErrorView::UnknownProvider {
                provider: provider@,
            },
            SyncError::ZeroLimit => ErrorView::ZeroLimit,
            SyncError::Storage { reason } => ErrorView::Storage { reason: reason@ },
        }
    }
}

/// The class that an error belongs to.
pub open spec fn kind_of(e: ErrorView) -> ErrorKind {
    match e {
        ErrorView::Transport { .. } => ErrorKind::Transport,
        ErrorView::Parse { .. } => ErrorKind::Parse,
        ErrorView::UnknownProvider { .. } => ErrorKind::Config,
        ErrorView::ZeroLimit => ErrorKind::Config,
        ErrorView::Storage { .. } => ErrorKind::Storage,
    }
}

/// Whether an error of this class ends the whole run when it concerns a
/// single addon: only a configuration error does.
pub open spec fn kind_is_fatal(kind: ErrorKind) -> bool {
    kind == ErrorKind::Config
}

/// The sentence that names a parse fault.
pub open spec fn fault_text(fault: ParseFault) -> Seq<char> {
    match fault {
        ParseFault::NotUtf8 => "page is not valid UTF-8"@,
        ParseFault::PageTooLarge => "page is too large"@,
        ParseFault::MissingElement => "expected element is missing from the page"@,
        ParseFault::BadTimestamp => "upload time is not a number"@,
        ParseFault::BadDate => "date does not follow the expected format"@,
    }
}

/// The short reason shown for an error.
pub open spec fn described(e: ErrorView) -> Seq<char> {
    match e {
        ErrorView::Transport { reason } => "transport error: "@ + reason,
        ErrorView::Parse { fault } => "parse error: "@ + fault_text(fault),
        ErrorView::UnknownProvider { provider } => "config error: unknown provider "@ + provider,
        ErrorView::ZeroLimit => "config error: parallel must be at least 1"@,
        ErrorView::Storage { reason } => "storage error: "@ + reason,
    }
}

impl ParseFault {
    /// The sentence that names this fault.
    pub fn text(&self) -> (r: &'static str)
        ensures
            r@ == fault_text(*self),
    {
        match self {
            ParseFault::NotUtf8 => "page is not valid UTF-8",
            ParseFault::PageTooLarge => "page is too large",
            ParseFault::MissingElement => "expected element is missing from the page",
            ParseFault::BadTimestamp => "upload time is not a number",
            ParseFault::BadDate => "date does not follow the expected format",
        }
    }
}

impl ErrorKind {
    /// Whether an error of this class, met for one addon, ends the run.
    pub fn is_fatal(&self) -> (r: bool)
        ensures
            r == kind_is_fatal(*self),
    {
        match self {
            ErrorKind::Config => true,
            _ => false,
        }
    }
}

impl SyncError {
    /// The class of this error.
    pub fn kind(&self) -> (r: ErrorKind)
        ensures
            r == kind_of(self@),
    {
        match self {
            SyncError::Transport { .. } => ErrorKind::Transport,
            SyncError::Parse { .. } => ErrorKind::Parse,
            SyncError::UnknownProvider { .. } => ErrorKind::Config,
            SyncError::ZeroLimit => ErrorKind::Config,
            SyncError::Storage { .. } => ErrorKind::Storage,
        }
    }

    /// The short reason to show for this error.
    pub fn describe(&self) -> (r: String)
        ensures
            r@ == described(self@),
    {
        match self {
            SyncError::Transport { reason } => "transport error: ".to_owned().concat(
                reason.as_str(),
            ),
            SyncError::Parse { fault } => "parse error: ".to_owned().concat(fault.text()),
            SyncError::UnknownProvider { provider } => {
                "config error: unknown provider ".to_owned().concat(provider.as_str())
            },
            SyncError::ZeroLimit => "config error: parallel must be at least 1".to_owned(),
            SyncError::Storage { reason } => "storage error: ".to_owned().concat(reason.as_str()),
        }
    }
}

impl Clone for SyncError {
    fn clone(&self) -> (r: Self)
        ensures
            r == *self,
    {
        match self {
            SyncError::Transport { reason } => SyncError::Transport { reason: reason.clone() },
            SyncError::Parse { fault } => SyncError::Parse { fault: *fault },
            SyncError::UnknownProvider { provider } => SyncError::UnknownProvider {
                provider: provider.clone(),
            },
            SyncError::ZeroLimit => SyncError::ZeroLimit,
            SyncError::Storage { reason } => SyncError::Storage { reason: reason.clone() },
        }
    }
}

} // verus!
