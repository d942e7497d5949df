//! The providers: what to request from each content source, and how to read
//! what comes back.
//!
//! Every operation is a small machine. The caller polls it, performs the
//! request that the poll asks for, and polls again with the outcome, until
//! the poll is `Ready` or `Failed`. No machine touches the network or the
//! disk itself.

pub mod curse;
pub mod date;
pub mod page;
pub mod tuk;

use vstd::prelude::*;
use vstd::string::*;
use crate::addon::{provider_named, Addon, AddonLock, AddonView, LockView, Provider};
use crate::error::{ErrorView, SyncError};
use crate::progress::{ProgressUpdate, UpdateView};
use crate::providers::curse::{
    CurseDownloadFuture, CurseDownloadView, CurseLockFuture, CurseLockView, DownloadInnerView,
};
use crate::providers::tuk::{
    StageView, TukDownloadFuture, TukDownloadView, TukLockFuture, TukLockView,
};

verus! {

/// The directory in which downloaded archives are staged.
pub const TEMP_DIR: &'static str = ".wam-temp";

/// What the caller reports back for the request it was last given.
#[derive(Debug, PartialEq, Eq)]
pub enum Outcome {
    /// The response to `Open` has arrived: the address that redirects ended
    /// at, and the content-disposition header if there is one.
    Response { url: String, disposition: Option<String> },
    /// The body asked for by `Get` or `ReadBody`.
    Body { bytes: Vec<u8> },
    /// The file asked for by `Store` has been written.
    Stored,
    /// The request could not be carried out.
    Unreachable { reason: String },
    /// The file could not be written.
    Unwritable { reason: String },
}

/// An `Outcome` as plain values.
pub enum OutcomeView {
    Response { url: Seq<char>, disposition: Option<Seq<char>> },
    Body { bytes: Seq<u8> },
    Stored,
    Unreachable { reason: Seq<char> },
    Unwritable { reason: Seq<char> },
}

impl View for Outcome {
    type V = OutcomeView;

    open spec fn view(&self) -> OutcomeView {
        match self {
            Outcome::Response { url, disposition } => OutcomeView::Response {
                url: url@,
                disposition: match disposition {
                    Some(d) => Some(d@),
                    None => None,
                },
            },
            Outcome::Body { bytes } => OutcomeView::Body { bytes: bytes@ },
            Outcome::Stored => OutcomeView::Stored,
            Outcome::Unreachable { reason } => OutcomeView::Unreachable { reason: reason@ },
            Outcome::Unwritable { reason } => OutcomeView::Unwritable { reason: reason@ },
        }
    }
}

/// The view of what was handed to a poll.
pub open spec fn outcome_view(outcome: Option<Outcome>) -> Option<OutcomeView> {
    match outcome {
        Some(o) => Some(o@),
        None => None,
    }
}

/// What a machine asks of its caller, or what it has come to.
#[derive(Debug, PartialEq, Eq)]
pub enum Poll<T> {
    /// Nothing to do until the request under way reports.
    Pending,
    /// Request `url` and report its whole body.
    Get { url: String },
    /// Request `url` and report the response's address and headers.
    Open { url: String },
    /// Report the body of the response that was opened.
    ReadBody,
    /// Write `body` to the file at `path`.
    Store { path: String, body: Vec<u8> },
    /// The operation has succeeded.
    Ready(T),
    /// The operation has failed; this concerns its addon only.
    Failed(SyncError),
}

/// A `Poll` as plain values.
pub enum PollView<V> {
    Pending,
    Get { url: Seq<char> },
    Open { url: Seq<char> },
    ReadBody,
    Store { path: Seq<char>, body: Seq<u8> },
    Ready(V),
    Failed(ErrorView),
}

impl<T: View> View for Poll<T> {
    type V = PollView<T::V>;

    open spec fn view(&self) -> PollView<T::V> {
        match self {
            Poll::Pending => PollView::Pending,
            Poll::Get { url } => PollView::Get { url: url@ },
            Poll::Open { url } => PollView::Open { url: url@ },
            Poll::ReadBody => PollView::ReadBody,
            Poll::Store { path, body } => PollView::Store { path: path@, body: body@ },
            Poll::Ready(t) => PollView::Ready(t@),
            Poll::Failed(e) => PollView::Failed(e@),
        }
    }
}

/// One answer of a machine: the poll, and the lifecycle event to pass on to
/// the progress display, if any.
#[derive(Debug, PartialEq, Eq)]
pub struct Turn<T> {
    pub poll: Poll<T>,
    pub note: Option<ProgressUpdate>,
}

/// A `Turn` as plain values.
pub struct TurnView<V> {
    pub poll: PollView<V>,
    pub note: Option<UpdateView>,
}

impl<T: View> View for Turn<T> {
    type V = TurnView<T::V>;

    open spec fn view(&self) -> TurnView<T::V> {
        TurnView {
            poll: self.poll@,
            note: match self.note {
                Some(n) => Some(n@),
                None => None,
            },
        }
    }
}

/// The answer of a machine that waits for a body or a response, to an
/// outcome that is neither: a failure reported by the caller ends the
/// operation, anything else leaves it waiting.
pub open spec fn on_other<V>(outcome: Option<OutcomeView>) -> PollView<V> {
    match outcome {
        Some(OutcomeView::Unreachable { reason }) => PollView::Failed(
            ErrorView::Transport { reason },
        ),
        Some(OutcomeView::Unwritable { reason }) => PollView::Failed(
            ErrorView::Storage { reason },
        ),
        _ => PollView::Pending,
    }
}

/// Whether the outcome is a failure that the caller reports.
pub open spec fn is_failure(outcome: Option<OutcomeView>) -> bool {
    outcome matches Some(o) && (o is Unreachable || o is Unwritable)
}

/// Where an archive named `filename` is staged.
pub open spec fn staged_path(filename: Seq<char>) -> Seq<char> {
    TEMP_DIR@ + "/"@ + filename
}

/// The machine that resolves an addon: that of its provider.
#[derive(Debug, PartialEq, Eq)]
pub enum LockInner {
    CurseLockFuture(CurseLockFuture),
    TukLockFuture(TukLockFuture),
}

/// Resolves the version of an addon.
#[derive(Debug, PartialEq, Eq)]
pub struct AddonLockFuture {
    pub inner: LockInner,
}

/// An `AddonLockFuture` as plain values.
pub enum AddonLockView {
    Curse(CurseLockView),
    Tuk(TukLockView),
}

impl View for AddonLockFuture {
    type V = AddonLockView;

    open spec fn view(&self) -> AddonLockView {
        match self.inner {
            LockInner::CurseLockFuture(f) => AddonLockView::Curse(f@),
            LockInner::TukLockFuture(f) => AddonLockView::Tuk(f@),
        }
    }
}

/// The view of a lock that may be absent.
pub open spec fn lock_view(lock: Option<AddonLock>) -> Option<LockView> {
    match lock {
        Some(l) => Some(l@),
        None => None,
    }
}

/// The machine that resolves `addon`, before its first poll. A provider
/// that is not known is a configuration error, which names the provider.
/// Only Tukui makes use of the previous lock.
pub open spec fn lock_start(addon: AddonView, old_lock: Option<LockView>) -> Result<
    AddonLockView,
    ErrorView,
> {
    match provider_named(addon.provider) {
        Some(Provider::Curse) | Some(Provider::Ace) => Ok(
            AddonLockView::Curse(CurseLockView { inner: curse::LockInner::Idle, addon }),
        ),
        Some(Provider::Tukui) => Ok(AddonLockView::Tuk(tuk::lock_start(addon, old_lock))),
        None => Err(ErrorView::UnknownProvider { provider: addon.provider }),
    }
}

/// One step of resolving an addon: that of its provider's machine.
pub open spec fn lock_step(s: AddonLockView, outcome: Option<OutcomeView>) -> (
    AddonLockView,
    TurnView<(AddonView, LockView)>,
) {
    match s {
        AddonLockView::Curse(f) => (
            AddonLockView::Curse(curse::lock_step(f, outcome).0),
            curse::lock_step(f, outcome).1,
        ),
        AddonLockView::Tuk(f) => (
            AddonLockView::Tuk(tuk::lock_step(f, outcome).0),
            tuk::lock_step(f, outcome).1,
        ),
    }
}

/// A machine that resolves the version of an addon, given the lock of the
/// previous run if there is one. Where the provider is not known there is
/// no machine and nothing is requested: the result is the configuration
/// error that names the provider.
pub fn get_lock(all: (Addon, Option<AddonLock>)) -> (r: Result<AddonLockFuture, SyncError>)
    ensures
        match r {
            Ok(f) => lock_start(all.0@, lock_view(all.1)) == Ok::<AddonLockView, ErrorView>(f@),
            Err(e) => lock_start(all.0@, lock_view(all.1)) == Err::<AddonLockView, ErrorView>(e@),
        },
{
    let (addon, old_lock) = all;
    match addon.provider_kind() {
        Some(Provider::Curse) | Some(Provider::Ace) => Ok(
            AddonLockFuture { inner: LockInner::CurseLockFuture(curse::get_lock(addon)) },
        ),
        Some(Provider::Tukui) => Ok(
            AddonLockFuture { inner: LockInner::TukLockFuture(tuk::get_lock(addon, old_lock)) },
        ),
        None => Err(SyncError::UnknownProvider { provider: addon.provider }),
    }
}

impl AddonLockFuture {
    /// Takes the outcome of the last request and answers with the next one,
    /// or with the lock.
    pub fn poll(&mut self, outcome: Option<Outcome>) -> (turn: Turn<(Addon, AddonLock)>)
        ensures
            (final(self)@, turn@) == lock_step(old(self)@, outcome_view(outcome)),
    {
        match &mut self.inner {
            LockInner::CurseLockFuture(f) => f.poll(outcome),
            LockInner::TukLockFuture(f) => f.poll(outcome),
        }
    }
}

/// The machine that downloads an archive: that of the addon's provider.
#[derive(Debug, PartialEq, Eq)]
pub enum DownloadInner {
    CurseDownloadFuture(CurseDownloadFuture),
    TukDownloadFuture(TukDownloadFuture),
}

/// Downloads the archive of an addon.
#[derive(Debug, PartialEq, Eq)]
pub struct DownloadAddonFuture {
    pub inner: DownloadInner,
}

/// A `DownloadAddonFuture` as plain values.
pub enum DownloadAddonView {
    Curse(CurseDownloadView),
    Tuk(TukDownloadView),
}

impl View for DownloadAddonFuture {
    type V = DownloadAddonView;

    open spec fn view(&self) -> DownloadAddonView {
        match self.inner {
            DownloadInner::CurseDownloadFuture(f) => DownloadAddonView::Curse(f@),
            DownloadInner::TukDownloadFuture(f) => DownloadAddonView::Tuk(f@),
        }
    }
}

/// The machine that downloads the archive of `addon`, before its first
/// poll. A provider that is not known is a configuration error, which names
/// the provider.
pub open spec fn download_start(addon: AddonView, lock: LockView) -> Result<
    DownloadAddonView,
    ErrorView,
> {
    match provider_named(addon.provider) {
        Some(Provider::Curse) | Some(Provider::Ace) => Ok(
            DownloadAddonView::Curse(
                CurseDownloadView { inner: DownloadInnerView::Idle, addon, lock },
            ),
        ),
        Some(Provider::Tukui) => Ok(
            DownloadAddonView::Tuk(
                TukDownloadView {
                    kind: tuk::kind_of_download(addon.name),
                    inner: StageView::Idle,
                    addon,
                    lock,
                },
            ),
        ),
        None => Err(ErrorView::UnknownProvider { provider: addon.provider }),
    }
}

/// One step of a download: that of the provider's machine.
pub open spec fn download_step(s: DownloadAddonView, outcome: Option<OutcomeView>) -> (
    DownloadAddonView,
    TurnView<(Seq<char>, LockView)>,
) {
    match s {
        DownloadAddonView::Curse(f) => (
            DownloadAddonView::Curse(curse::download_step(f, outcome).0),
            curse::download_step(f, outcome).1,
        ),
        DownloadAddonView::Tuk(f) => (
            DownloadAddonView::Tuk(tuk::download_step(f, outcome).0),
            tuk::download_step(f, outcome).1,
        ),
    }
}

/// A machine that downloads the archive that the lock of an addon was
/// resolved to. Where the provider is not known there is no machine and
/// nothing is requested: the result is the configuration error that names
/// the provider.
pub fn download_addon(all: (Addon, AddonLock)) -> (r: Result<DownloadAddonFuture, SyncError>)
    ensures
        match r {
            Ok(f) => download_start(all.0@, all.1@) == Ok::<DownloadAddonView, ErrorView>(f@),
            Err(e) => download_start(all.0@, all.1@) == Err::<DownloadAddonView, ErrorView>(e@),
        },
{
    let (addon, lock) = all;
    match addon.provider_kind() {
        Some(Provider::Curse) | Some(Provider::Ace) => Ok(
            DownloadAddonFuture {
                inner: DownloadInner::CurseDownloadFuture(curse::download_addon(addon, lock)),
            },
        ),
        Some(Provider::Tukui) => Ok(
            DownloadAddonFuture {
                inner: DownloadInner::TukDownloadFuture(tuk::download_addon(addon, lock)),
            },
        ),
        None => Err(SyncError::UnknownProvider { provider: addon.provider }),
    }
}

impl DownloadAddonFuture {
    /// Takes the outcome of the last request and answers with the next one,
    /// or with the staged archive and its lock.
    pub fn poll(&mut self, outcome: Option<Outcome>) -> (turn: Turn<(String, AddonLock)>)
        ensures
            (final(self)@, turn@) == download_step(old(self)@, outcome_view(outcome)),
    {
        match &mut self.inner {
            DownloadInner::CurseDownloadFuture(f) => f.poll(outcome),
            DownloadInner::TukDownloadFuture(f) => f.poll(outcome),
        }
    }
}

} // verus!
