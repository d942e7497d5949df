//! The providers with stable project slugs: Curse and Ace.
//!
//! A version is resolved from the project's list of files, sorted by the
//! provider by release type so that releases come before alphas and betas;
//! the newest upload among the listed files is taken. The archive is the
//! provider's "latest file", named by the last segment of the address that
//! the request is redirected to.

use vstd::prelude::*;
use vstd::string::*;
use crate::addon::{key_of, Addon, AddonLock, AddonView, LockView};
use crate::error::{ErrorView, ParseFault, SyncError};
use crate::progress::{ProgressUpdate, UpdateView};
use crate::providers::page::{decode_page, listed_matches, page_of, read_matches, Matches};
use crate::providers::{
    is_failure, on_other, outcome_view, staged_path, Outcome, OutcomeView, Poll, PollView, Turn,
    TurnView, TEMP_DIR,
};
use crate::text::{after_last, concat3, parse_u64, parsed_u64, same_text, text_after_last};

verus! {

pub const CURSE_PROJECTS_URL: &'static str = "https://wow.curseforge.com/projects/";

pub const ACE_PROJECTS_URL: &'static str = "https://wowace.com/projects/";

/// The list of a project's files, releases first.
pub const FILES_PATH: &'static str = "/files?sort=releasetype";

/// The endpoint that redirects to a project's latest file.
pub const LATEST_FILE_PATH: &'static str = "/files/latest";

pub const ITEM_CLASS: &'static str = "project-file-list-item";

pub const NAME_CLASS: &'static str = "project-file-name";

pub const LINK_ATTR: &'static str = "data-action";

pub const LINK_VALUE: &'static str = "file-link";

pub const DATE_CLASS: &'static str = "project-file-date-uploaded";

pub const DATE_TAG: &'static str = "abbr";

pub const EPOCH_ATTR: &'static str = "data-epoch";

pub const STEP_METADATA: &'static str = "downloading metadata";

pub const STEP_FILENAME: &'static str = "reading filename";

pub const STEP_DOWNLOADING: &'static str = "downloading";

pub const STEP_WRITING: &'static str = "writing file";

/// Where the projects of a provider live: Curse's for `curse`, Ace's for
/// any other.
pub open spec fn projects_url(provider: Seq<char>) -> Seq<char> {
    if provider == "curse"@ {
        CURSE_PROJECTS_URL@
    } else {
        ACE_PROJECTS_URL@
    }
}

/// The address of the list of an addon's files.
pub open spec fn files_url(addon: AddonView) -> Seq<char> {
    projects_url(addon.provider) + addon.name + FILES_PATH@
}

/// The address that redirects to an addon's latest file.
pub open spec fn latest_file_url(addon: AddonView) -> Seq<char> {
    projects_url(addon.provider) + addon.name + LATEST_FILE_PATH@
}

/// A listed file as the page shows it: its version label and the attribute
/// that holds its upload time, each as far as the page has it.
pub type Row = (Option<Seq<char>>, Option<Seq<char>>);

/// The row of a listed item: its first label, and the attribute of its
/// first date.
pub open spec fn first_match(found: Matches) -> Row {
    (
        if found.0.len() > 0 {
            Some(found.0[0])
        } else {
            None
        },
        if found.1.len() > 0 {
            found.1[0]
        } else {
            None
        },
    )
}

/// The rows of the listed items.
pub open spec fn first_matches(found: Seq<Matches>) -> Seq<Row> {
    Seq::new(found.len(), |i: int| first_match(found[i]))
}

/// What a listed file says of itself: its version label and upload time.
pub open spec fn row_entry(row: Row) -> Result<(Seq<char>, u64), ParseFault> {
    match row.0 {
        None => Err(ParseFault::MissingElement),
        Some(version) => match row.1 {
            None => Err(ParseFault::MissingElement),
            Some(epoch) => match parsed_u64(epoch) {
                None => Err(ParseFault::BadTimestamp),
                Some(stamp) => Ok((version, stamp)),
            },
        },
    }
}

/// The best file so far stays ahead of `entry`: it is strictly newer.
pub open spec fn outranks(best: Option<(Seq<char>, u64)>, entry: (Seq<char>, u64)) -> bool {
    best matches Some(b) && b.1 > entry.1
}

/// The newest of the first `n` listed files, the later one where two are
/// equally new; the fault of the first file that cannot be read, if any.
pub open spec fn newest_upto(rows: Seq<Row>, n: int) -> Result<Option<(Seq<char>, u64)>, ParseFault>
    decreases n,
{
    if n <= 0 {
        Ok(None)
    } else {
        match newest_upto(rows, n - 1) {
            Err(fault) => Err(fault),
            Ok(best) => match row_entry(rows[n - 1]) {
                Err(fault) => Err(fault),
                Ok(entry) => if outranks(best, entry) {
                    Ok(best)
                } else {
                    Ok(Some(entry))
                },
            },
        }
    }
}

/// The newest listed file. A page that lists none is missing what it must
/// hold.
pub open spec fn newest(rows: Seq<Row>) -> Result<(Seq<char>, u64), ParseFault> {
    match newest_upto(rows, rows.len() as int) {
        Err(fault) => Err(fault),
        Ok(None) => Err(ParseFault::MissingElement),
        Ok(Some(entry)) => Ok(entry),
    }
}

/// The lock that the listed files resolve to.
pub open spec fn lock_of_rows(addon: AddonView, rows: Seq<Row>) -> Result<LockView, ErrorView> {
    match newest(rows) {
        Ok(entry) => Ok(
            LockView {
                name: key_of(addon.provider, addon.name),
                resolved: addon.name,
                version: entry.0,
                timestamp: entry.1,
            },
        ),
        Err(fault) => Err(ErrorView::Parse { fault }),
    }
}

/// The rows that the files page of these providers lists.
pub open spec fn rows_of_page(page: Seq<char>) -> Seq<Row> {
    first_matches(
        listed_matches(
            page,
            ITEM_CLASS@,
            NAME_CLASS@,
            LINK_ATTR@,
            LINK_VALUE@,
            DATE_CLASS@,
            DATE_TAG@,
            EPOCH_ATTR@,
        ),
    )
}

/// The lock that the body of a files page resolves to.
pub open spec fn lock_of_body(addon: AddonView, bytes: Seq<u8>) -> Result<LockView, ErrorView> {
    match page_of(bytes) {
        Err(fault) => Err(ErrorView::Parse { fault }),
        Ok(page) => lock_of_rows(addon, rows_of_page(page)),
    }
}

/// File `i` is the newest of the first `n`: every one of them can be read,
/// none is newer, and none after it is as new.
pub open spec fn is_newest_at(rows: Seq<Row>, n: int, i: int, entry: (Seq<char>, u64)) -> bool {
    &&& 0 <= i < n
    &&& row_entry(rows[i]) == Ok::<(Seq<char>, u64), ParseFault>(entry)
    &&& forall|j: int|
        0 <= j < n ==> (#[trigger] row_entry(rows[j])) is Ok && row_entry(rows[j])->Ok_0.1
            <= entry.1
    &&& forall|j: int| i < j < n ==> (#[trigger] row_entry(rows[j]))->Ok_0.1 < entry.1
}

/// File `i` is the first that cannot be read, and `fault` is why.
pub open spec fn is_first_fault_at(rows: Seq<Row>, n: int, i: int, fault: ParseFault) -> bool {
    &&& 0 <= i < n
    &&& row_entry(rows[i]) == Err::<(Seq<char>, u64), ParseFault>(fault)
    &&& forall|j: int| 0 <= j < i ==> (#[trigger] row_entry(rows[j])) is Ok
}

/// What `newest_upto` yields on the first `n` files is what the files say.
pub open spec fn upto_is_sound(rows: Seq<Row>, n: int) -> bool {
    match newest_upto(rows, n) {
        Ok(None) => n == 0,
        Ok(Some(entry)) => exists|i: int| is_newest_at(rows, n, i, entry),
        Err(fault) => exists|i: int| is_first_fault_at(rows, n, i, fault),
    }
}

proof fn lemma_newest_upto(rows: Seq<Row>, n: int)
    requires
        0 <= n <= rows.len(),
    ensures
        upto_is_sound(rows, n),
    decreases n,
{
    if n > 0 {
        let m = n - 1;
        lemma_newest_upto(rows, m);
        let prior = newest_upto(rows, m);
        let now = newest_upto(rows, n);
        match prior {
            Err(fault) => {
                let i = choose|i: int| is_first_fault_at(rows, m, i, fault);
                assert(is_first_fault_at(rows, n, i, fault));
            },
            Ok(best) => {
                match row_entry(rows[m]) {
                    Err(fault) => {
                        if best is Some {
                            let i = choose|i: int| is_newest_at(rows, m, i, best->0);
                            assert(is_newest_at(rows, m, i, best->0));
                        }
                        assert(is_first_fault_at(rows, n, m, fault));
                    },
                    Ok(entry) => {
                        if best is Some {
                            let i = choose|i: int| is_newest_at(rows, m, i, best->0);
                            assert(is_newest_at(rows, m, i, best->0));
                            if outranks(best, entry) {
                                assert(is_newest_at(rows, n, i, best->0));
                            } else {
                                assert(is_newest_at(rows, n, m, entry));
                                assert(now->Ok_0->Some_0 == entry);
                            }
                        } else {
                            assert(is_newest_at(rows, n, m, entry));
                            assert(now->Ok_0->Some_0 == entry);
                        }
                    },
                }
            },
        }
    }
}

/// Once a file cannot be read, the files after it change nothing.
proof fn lemma_fault_stays(rows: Seq<Row>, k: int, n: int)
    requires
        0 <= k <= n,
        newest_upto(rows, k) is Err,
    ensures
        newest_upto(rows, n) == newest_upto(rows, k),
    decreases n - k,
{
    if k < n {
        lemma_fault_stays(rows, k, n - 1);
    }
}

/// The version resolved is that of the file with the greatest upload time,
/// not the first in list order, and the last such file where several share
/// that time. It is resolved exactly when the page lists a file and every
/// listed file can be read; otherwise the fault is that of the first file
/// that cannot, or a missing element where none is listed.
pub proof fn lemma_newest_is_latest(rows: Seq<Row>)
    ensures
        match newest(rows) {
            Ok(entry) => exists|i: int| is_newest_at(rows, rows.len() as int, i, entry),
            Err(fault) => (rows.len() == 0 && fault == ParseFault::MissingElement) || exists|
                i: int,
            |
                is_first_fault_at(rows, rows.len() as int, i, fault),
        },
{
    lemma_newest_upto(rows, rows.len() as int);
}

/// The rows of the listed items: of each, the first label and the attribute
/// of the first date.
pub fn rows_from_matches(found: &Vec<(Vec<String>, Vec<Option<String>>)>) -> (rows: Vec<
    (Option<String>, Option<String>),
>)
    ensures
        rows.deep_view() == first_matches(found.deep_view()),
{
    let ghost all = found.deep_view();
    let mut rows: Vec<(Option<String>, Option<String>)> = Vec::new();
    let mut i: usize = 0;
    while i < found.len()
        invariant
            i <= found.len(),
            all == found.deep_view(),
            rows@.len() == i,
            forall|k: int| 0 <= k < i ==> (#[trigger] rows@[k]).deep_view() == first_match(all[k]),
        decreases found.len() - i,
    {
        let labels = &found[i].0;
        let dates = &found[i].1;
        assert(all[i as int] == (labels.deep_view(), dates.deep_view()));
        let label = if labels.len() > 0 {
            assert(labels.deep_view()[0] == labels@[0]@);
            Some(labels[0].clone())
        } else {
            None
        };
        let stamp = if dates.len() > 0 {
            assert(dates.deep_view()[0] == dates@[0].deep_view());
            match &dates[0] {
                Some(value) => Some(value.clone()),
                None => None,
            }
        } else {
            None
        };
        rows.push((label, stamp));
        i = i + 1;
    }
    assert(rows.deep_view() =~= first_matches(all));
    rows
}

/// When a listed file was uploaded, if the row can be read.
pub fn upload_time(row: &(Option<String>, Option<String>)) -> (r: Result<u64, ParseFault>)
    ensures
        match r {
            Ok(stamp) => row.0 is Some && row_entry(row.deep_view()) == Ok::<
                (Seq<char>, u64),
                ParseFault,
            >((row.0->0@, stamp)),
            Err(fault) => row_entry(row.deep_view()) == Err::<(Seq<char>, u64), ParseFault>(fault),
        },
{
    match &row.0 {
        None => Err(ParseFault::MissingElement),
        Some(_) => match &row.1 {
            None => Err(ParseFault::MissingElement),
            Some(epoch) => match parse_u64(epoch.as_str()) {
                None => Err(ParseFault::BadTimestamp),
                Some(stamp) => Ok(stamp),
            },
        },
    }
}

/// The newest of the listed files.
pub fn newest_file(rows: &Vec<(Option<String>, Option<String>)>) -> (r: Result<
    (String, u64),
    ParseFault,
>)
    ensures
        match r {
            Ok(entry) => newest(rows.deep_view()) == Ok::<(Seq<char>, u64), ParseFault>(
                (entry.0@, entry.1),
            ),
            Err(fault) => newest(rows.deep_view()) == Err::<(Seq<char>, u64), ParseFault>(fault),
        },
{
    let ghost all = rows.deep_view();
    let mut best: Option<usize> = None;
    let mut best_stamp: u64 = 0;
    let mut i: usize = 0;
    while i < rows.len()
        invariant
            i <= rows.len(),
            all == rows.deep_view(),
            match best {
                None => newest_upto(all, i as int) == Ok::<Option<(Seq<char>, u64)>, ParseFault>(
                    None,
                ),
                Some(b) => b < i && rows@[b as int].0 is Some && newest_upto(all, i as int) == Ok::<
                    Option<(Seq<char>, u64)>,
                    ParseFault,
                >(Some((rows@[b as int].0->0@, best_stamp))),
            },
        decreases rows.len() - i,
    {
        assert(all[i as int] == (rows@[i as int].0.deep_view(), rows@[i as int].1.deep_view()));
        let stamp = match upload_time(&rows[i]) {
            Err(fault) => {
                proof {
                    lemma_fault_stays(all, i + 1, rows.len() as int);
                }
                return Err(fault);
            },
            Ok(stamp) => stamp,
        };
        assert(row_entry(all[i as int]) == Ok::<(Seq<char>, u64), ParseFault>(
            (rows@[i as int].0->0@, stamp),
        ));
        if !(best.is_some() && best_stamp > stamp) {
            best = Some(i);
            best_stamp = stamp;
        }
        i = i + 1;
    }
    match best {
        None => Err(ParseFault::MissingElement),
        Some(b) => match &rows[b].0 {
            Some(version) => Ok((version.clone(), best_stamp)),
            None => Err(ParseFault::MissingElement),
        },
    }
}

/// The lock that the listed files of an addon resolve to.
pub fn lock_from_rows(addon: &Addon, rows: &Vec<(Option<String>, Option<String>)>) -> (r: Result<
    AddonLock,
    SyncError,
>)
    ensures
        match r {
            Ok(lock) => lock_of_rows(addon@, rows.deep_view()) == Ok::<LockView, ErrorView>(lock@),
            Err(e) => lock_of_rows(addon@, rows.deep_view()) == Err::<LockView, ErrorView>(e@),
        },
{
    match newest_file(rows) {
        Ok(entry) => Ok(
            AddonLock {
                name: addon.key(),
                resolved: addon.name.clone(),
                version: entry.0,
                timestamp: entry.1,
            },
        ),
        Err(fault) => Err(SyncError::Parse { fault }),
    }
}

/// The lock that the body of an addon's files page resolves to.
pub fn lock_from_body(addon: &Addon, bytes: Vec<u8>) -> (r: Result<AddonLock, SyncError>)
    ensures
        match r {
            Ok(lock) => lock_of_body(addon@, bytes@) == Ok::<LockView, ErrorView>(lock@),
            Err(e) => lock_of_body(addon@, bytes@) == Err::<LockView, ErrorView>(e@),
        },
{
    match decode_page(bytes) {
        Err(fault) => Err(SyncError::Parse { fault }),
        Ok(page) => {
            let found = read_matches(
                page.as_str(),
                ITEM_CLASS,
                NAME_CLASS,
                LINK_ATTR,
                LINK_VALUE,
                DATE_CLASS,
                DATE_TAG,
                EPOCH_ATTR,
            );
            let rows = rows_from_matches(&found);
            lock_from_rows(addon, &rows)
        },
    }
}

/// The root of the projects of the addon's provider.
fn projects_root(addon: &Addon) -> (r: &'static str)
    ensures
        r@ == projects_url(addon@.provider),
{
    if same_text(addon.provider.as_str(), "curse") {
        CURSE_PROJECTS_URL
    } else {
        ACE_PROJECTS_URL
    }
}

/// How far the resolution of a version has come.
#[derive(Debug, Clone, Copy, PartialEq, Eq, Structural)]
pub enum LockInner {
    Idle,
    Downloading,
    Finished,
}

/// Resolves the newest version of an addon of Curse or Ace.
#[derive(Debug, PartialEq, Eq)]
pub struct CurseLockFuture {
    pub inner: LockInner,
    pub addon: Addon,
}

/// A `CurseLockFuture` as plain values.
pub struct CurseLockView {
    pub inner: LockInner,
    pub addon: AddonView,
}

impl View for CurseLockFuture {
    type V = CurseLockView;

    open spec fn view(&self) -> CurseLockView {
        CurseLockView { inner: self.inner, addon: self.addon@ }
    }
}

/// One step of the resolution: the machine after the poll, and its answer.
///
/// At the start it asks for the files page. When the body arrives it
/// resolves the lock or fails. A failure reported by the caller ends it; any
/// other outcome leaves it waiting, and once finished it stays so.
pub open spec fn lock_step(s: CurseLockView, outcome: Option<OutcomeView>) -> (
    CurseLockView,
    TurnView<(AddonView, LockView)>,
) {
    let finished = CurseLockView { inner: LockInner::Finished, addon: s.addon };
    let done = Some(UpdateView::Done { subject: s.addon.name });
    match s.inner {
        LockInner::Idle => (
            CurseLockView { inner: LockInner::Downloading, addon: s.addon },
            TurnView {
                poll: PollView::Get { url: files_url(s.addon) },
                note: Some(UpdateView::Started { subject: s.addon.name, step: STEP_METADATA@ }),
            },
        ),
        LockInner::Downloading => match outcome {
            Some(OutcomeView::Body { bytes }) => (
                finished,
                TurnView {
                    poll: match lock_of_body(s.addon, bytes) {
                        Ok(lock) => PollView::Ready((s.addon, lock)),
                        Err(e) => PollView::Failed(e),
                    },
                    note: done,
                },
            ),
            _ => if is_failure(outcome) {
                (finished, TurnView { poll: on_other(outcome), note: done })
            } else {
                (s, TurnView { poll: PollView::Pending, note: None })
            },
        },
        LockInner::Finished => (s, TurnView { poll: PollView::Pending, note: None }),
    }
}

/// A machine that resolves the newest version of `addon`.
pub fn get_lock(addon: Addon) -> (r: CurseLockFuture)
    ensures
        r@ == (CurseLockView { inner: LockInner::Idle, addon: addon@ }),
{
    CurseLockFuture { inner: LockInner::Idle, addon }
}

impl CurseLockFuture {
    /// Takes the outcome of the last request and answers with the next one,
    /// or with the lock.
    pub fn poll(&mut self, outcome: Option<Outcome>) -> (turn: Turn<(Addon, AddonLock)>)
        ensures
            (final(self)@, turn@) == lock_step(old(self)@, outcome_view(outcome)),
    {
        match self.inner {
            LockInner::Idle => {
                let url = concat3(projects_root(&self.addon), self.addon.name.as_str(), FILES_PATH);
                self.inner = LockInner::Downloading;
                Turn {
                    poll: Poll::Get { url },
                    note: Some(
                        ProgressUpdate::Started {
                            subject: self.addon.name.clone(),
                            step: STEP_METADATA,
                        },
                    ),
                }
            },
            LockInner::Downloading => {
                let done = Some(ProgressUpdate::Done { subject: self.addon.name.clone() });
                match outcome {
                    Some(Outcome::Body { bytes }) => {
                        self.inner = LockInner::Finished;
                        match lock_from_body(&self.addon, bytes) {
                            Ok(lock) => Turn {
                                poll: Poll::Ready((self.addon.clone(), lock)),
                                note: done,
                            },
                            Err(e) => Turn { poll: Poll::Failed(e), note: done },
                        }
                    },
                    Some(Outcome::Unreachable { reason }) => {
                        self.inner = LockInner::Finished;
                        Turn { poll: Poll::Failed(SyncError::Transport { reason }), note: done }
                    },
                    Some(Outcome::Unwritable { reason }) => {
                        self.inner = LockInner::Finished;
                        Turn { poll: Poll::Failed(SyncError::Storage { reason }), note: done }
                    },
                    _ => Turn { poll: Poll::Pending, note: None },
                }
            },
            LockInner::Finished => Turn { poll: Poll::Pending, note: None },
        }
    }
}

/// How far the download of an archive has come.
#[derive(Debug, PartialEq, Eq)]
pub enum DownloadInner {
    Idle,
    ReadingFilename,
    /// The archive will be staged at `target`.
    Downloading { target: String },
    Writing { target: String },
    Finished,
}

/// A `DownloadInner` as plain values.
pub enum DownloadInnerView {
    Idle,
    ReadingFilename,
    Downloading { target: Seq<char> },
    Writing { target: Seq<char> },
    Finished,
}

impl View for DownloadInner {
    type V = DownloadInnerView;

    open spec fn view(&self) -> DownloadInnerView {
        match self {
            DownloadInner::Idle => DownloadInnerView::Idle,
            DownloadInner::ReadingFilename => DownloadInnerView::ReadingFilename,
            DownloadInner::Downloading { target } => DownloadInnerView::Downloading {
                target: target@,
            },
            DownloadInner::Writing { target } => DownloadInnerView::Writing { target: target@ },
            DownloadInner::Finished => DownloadInnerView::Finished,
        }
    }
}

/// Downloads the latest archive of an addon of Curse or Ace.
#[derive(Debug, PartialEq, Eq)]
pub struct CurseDownloadFuture {
    pub inner: DownloadInner,
    pub addon: Addon,
    pub lock: AddonLock,
}

/// A `CurseDownloadFuture` as plain values.
pub struct CurseDownloadView {
    pub inner: DownloadInnerView,
    pub addon: AddonView,
    pub lock: LockView,
}

impl View for CurseDownloadFuture {
    type V = CurseDownloadView;

    open spec fn view(&self) -> CurseDownloadView {
        CurseDownloadView { inner: self.inner@, addon: self.addon@, lock: self.lock@ }
    }
}

/// One step of the download: the machine after the poll, and its answer.
///
/// At the start it opens the latest-file endpoint. The archive is named by
/// the last path segment of the address that the response came from, and is
/// staged under that name once its body has arrived.
pub open spec fn download_step(s: CurseDownloadView, outcome: Option<OutcomeView>) -> (
    CurseDownloadView,
    TurnView<(Seq<char>, LockView)>,
) {
    let at = |inner: DownloadInnerView| CurseDownloadView { inner, addon: s.addon, lock: s.lock };
    let subject = s.addon.name;
    let done = Some(UpdateView::Done { subject });
    let waiting = if is_failure(outcome) {
        (at(DownloadInnerView::Finished), TurnView { poll: on_other(outcome), note: done })
    } else {
        (s, TurnView { poll: PollView::Pending, note: None })
    };
    match s.inner {
        DownloadInnerView::Idle => (
            at(DownloadInnerView::ReadingFilename),
            TurnView {
                poll: PollView::Open { url: latest_file_url(s.addon) },
                note: Some(UpdateView::Started { subject, step: STEP_FILENAME@ }),
            },
        ),
        DownloadInnerView::ReadingFilename => match outcome {
            Some(OutcomeView::Response { url, .. }) => (
                at(DownloadInnerView::Downloading { target: staged_path(after_last(url, "/"@)) }),
                TurnView {
                    poll: PollView::ReadBody,
                    note: Some(UpdateView::Progressed { subject, step: STEP_DOWNLOADING@ }),
                },
            ),
            _ => waiting,
        },
        DownloadInnerView::Downloading { target } => match outcome {
            Some(OutcomeView::Body { bytes }) => (
                at(DownloadInnerView::Writing { target }),
                TurnView {
                    poll: PollView::Store { path: target, body: bytes },
                    note: Some(UpdateView::Progressed { subject, step: STEP_WRITING@ }),
                },
            ),
            _ => waiting,
        },
        DownloadInnerView::Writing { target } => match outcome {
            Some(OutcomeView::Stored) => (
                at(DownloadInnerView::Finished),
                TurnView { poll: PollView::Ready((target, s.lock)), note: done },
            ),
            _ => waiting,
        },
        DownloadInnerView::Finished => (s, TurnView { poll: PollView::Pending, note: None }),
    }
}

/// A machine that downloads the archive that `lock` was resolved to.
pub fn download_addon(addon: Addon, lock: AddonLock) -> (r: CurseDownloadFuture)
    ensures
        r@ == (CurseDownloadView { inner: DownloadInnerView::Idle, addon: addon@, lock: lock@ }),
{
    CurseDownloadFuture { inner: DownloadInner::Idle, addon, lock }
}

impl CurseDownloadFuture {
    /// The answer to an outcome that the present stage has no use for.
    fn wait(&mut self, outcome: Option<Outcome>) -> (turn: Turn<(String, AddonLock)>)
        requires
            !(old(self).inner is Idle),
            !(old(self).inner is Finished),
        ensures
            final(self).addon == old(self).addon,
            final(self).lock == old(self).lock,
            is_failure(outcome_view(outcome)) ==> final(self).inner@ is Finished && turn@ == (
                TurnView::<(Seq<char>, LockView)> {
                    poll: on_other(outcome_view(outcome)),
                    note: Some(UpdateView::Done { subject: old(self).addon@.name }),
                }
            ),
            !is_failure(outcome_view(outcome)) ==> final(self).inner == old(self).inner && turn@
                == (TurnView::<(Seq<char>, LockView)> { poll: PollView::Pending, note: None }),
    {
        match outcome {
            Some(Outcome::Unreachable { reason }) => {
                self.inner = DownloadInner::Finished;
                Turn {
                    poll: Poll::Failed(SyncError::Transport { reason }),
                    note: Some(ProgressUpdate::Done { subject: self.addon.name.clone() }),
                }
            },
            Some(Outcome::Unwritable { reason }) => {
                self.inner = DownloadInner::Finished;
                Turn {
                    poll: Poll::Failed(SyncError::Storage { reason }),
                    note: Some(ProgressUpdate::Done { subject: self.addon.name.clone() }),
                }
            },
            _ => Turn { poll: Poll::Pending, note: None },
        }
    }

    /// Takes the outcome of the last request and answers with the next one,
    /// or with the staged archive and its lock.
    pub fn poll(&mut self, outcome: Option<Outcome>) -> (turn: Turn<(String, AddonLock)>)
        ensures
            (final(self)@, turn@) == download_step(old(self)@, outcome_view(outcome)),
    {
        let subject = self.addon.name.clone();
        match &self.inner {
            DownloadInner::Idle => {
                let url = concat3(
                    projects_root(&self.addon),
                    self.addon.name.as_str(),
                    LATEST_FILE_PATH,
                );
                self.inner = DownloadInner::ReadingFilename;
                Turn {
                    poll: Poll::Open { url },
                    note: Some(ProgressUpdate::Started { subject, step: STEP_FILENAME }),
                }
            },
            DownloadInner::ReadingFilename => match outcome {
                Some(Outcome::Response { url, .. }) => {
                    let filename = text_after_last(url.as_str(), "/");
                    let target = concat3(TEMP_DIR, "/", filename.as_str());
                    self.inner = DownloadInner::Downloading { target };
                    Turn {
                        poll: Poll::ReadBody,
                        note: Some(ProgressUpdate::Progressed { subject, step: STEP_DOWNLOADING }),
                    }
                },
                other => self.wait(other),
            },
            DownloadInner::Downloading { target } => match outcome {
                Some(Outcome::Body { bytes }) => {
                    let path = target.clone();
                    self.inner = DownloadInner::Writing { target: path.clone() };
                    Turn {
                        poll: Poll::Store { path, body: bytes },
                        note: Some(ProgressUpdate::Progressed { subject, step: STEP_WRITING }),
                    }
                },
                other => self.wait(other),
            },
            DownloadInner::Writing { target } => match outcome {
                Some(Outcome::Stored) => {
                    let path = target.clone();
                    self.inner = DownloadInner::Finished;
                    Turn {
                        poll: Poll::Ready((path, self.lock.clone())),
                        note: Some(ProgressUpdate::Done { subject }),
                    }
                },
                other => self.wait(other),
            },
            DownloadInner::Finished => Turn { poll: Poll::Pending, note: None },
        }
    }
}

} // verus!
