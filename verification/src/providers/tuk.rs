//! The Tukui provider.
//!
//! The two flagship interfaces, `tukui` and `elvui`, have a version page of
//! their own that dates a version to the day, and their archive is found by
//! scanning the home page for its link. Every other addon is known to the
//! provider by a number: it is looked up through the search page on the
//! first synchronisation, where the first result counts, and taken from the
//! previous lock afterwards. Its detail page gives date and time in separate
//! fields, and its archive is named by the content-disposition header.

use vstd::prelude::*;
use vstd::string::*;
use crate::addon::{key_of, Addon, AddonLock, AddonView, LockView};
use crate::error::{ErrorView, ParseFault, SyncError};
use crate::providers::date::{parse_utc_seconds, stamp_of, timestamp_of, utc_seconds};
use crate::providers::page::{
    all_links, decode_page, marked_texts, nested_links, page_of, read_all_links,
    read_marked_texts, read_nested_links,
};
use crate::providers::{
    is_failure, on_other, outcome_view, staged_path, Outcome, OutcomeView, Poll, PollView, Turn,
    TurnView, TEMP_DIR,
};
use crate::text::{
    after_last, concat3, ends_with, has_prefix, has_suffix, lowercase, replaced, same_text,
    spaces_to_plus, starts_with, text_after_last, to_lowercase,
};

verus! {

pub const PROVIDER: &'static str = "tukui";

pub const BASE_URL: &'static str = "https://www.tukui.org";

pub const HOME_URL: &'static str = "https://www.tukui.org/welcome.php";

pub const UI_URL: &'static str = "https://www.tukui.org/download.php?ui=";

pub const SEARCH_URL: &'static str = "https://www.tukui.org/addons.php?search=";

pub const ADDON_URL: &'static str = "https://www.tukui.org/addons.php?id=";

pub const ADDON_DOWNLOAD_URL: &'static str = "https://www.tukui.org/addons.php?download=";

/// How the version page of a flagship interface writes a day, once the
/// time of midnight has been put behind it.
pub const DAY_FORMAT: &'static str = "%Y-%m-%d %H:%M:%S";

pub const MIDNIGHT: &'static str = " 00:00:00";

/// How the detail page of an addon writes date and time, once the two
/// fields have been joined and the seconds put behind them.
pub const MOMENT_FORMAT: &'static str = "%b %e, %Y %H:%M:%S";

pub const NO_SECONDS: &'static str = ":00";

pub const DOWNLOADS_PATH: &'static str = "/downloads/";

pub const ARCHIVE_SUFFIX: &'static str = ".zip";

pub const ID_MARK: &'static str = "?id=";

pub const FILENAME_MARK: &'static str = "filename=";

/// Whether `name` is one of the two flagship interfaces.
pub open spec fn is_flagship(name: Seq<char>) -> bool {
    name == "tukui"@ || name == "elvui"@
}

/// The term to search the provider for an addon: lower case, with a plus
/// sign for each space.
pub open spec fn search_term(name: Seq<char>) -> Seq<char> {
    lowercase(replaced(name, ' ', '+'))
}

/// The version and the text of the moment it was published, as the first
/// two emphasised fields of a flagship's version page give them.
pub open spec fn day_fields(fields: Seq<Seq<char>>) -> Result<(Seq<char>, Seq<char>), ParseFault> {
    if fields.len() < 2 {
        Err(ParseFault::MissingElement)
    } else {
        Ok((fields[0], fields[1] + MIDNIGHT@))
    }
}

/// The version and the text of the moment it was published, as the first
/// three emphasised fields of an addon's detail page give them: version,
/// date and time.
pub open spec fn moment_fields(fields: Seq<Seq<char>>) -> Result<
    (Seq<char>, Seq<char>),
    ParseFault,
> {
    if fields.len() < 3 {
        Err(ParseFault::MissingElement)
    } else {
        Ok((fields[0], fields[1] + " "@ + fields[2] + NO_SECONDS@))
    }
}

/// The lock of `name` for a version published at `seconds`; a date that
/// could not be read resolves nothing.
pub open spec fn lock_of_seconds(
    name: Seq<char>,
    resolved: Seq<char>,
    version: Seq<char>,
    seconds: Option<i64>,
) -> Result<LockView, ErrorView> {
    match seconds {
        None => Err(ErrorView::Parse { fault: ParseFault::BadDate }),
        Some(t) => Ok(
            LockView { name: key_of(PROVIDER@, name), resolved, version, timestamp: stamp_of(t) },
        ),
    }
}

/// The lock that the fields of a page resolve to, read under `format`.
pub open spec fn lock_of_fields(
    name: Seq<char>,
    resolved: Seq<char>,
    fields: Result<(Seq<char>, Seq<char>), ParseFault>,
    format: Seq<char>,
) -> Result<LockView, ErrorView> {
    match fields {
        Err(fault) => Err(ErrorView::Parse { fault }),
        Ok(found) => lock_of_seconds(name, resolved, found.0, utc_seconds(found.1, format)),
    }
}

/// The lock that the body of a flagship's version page resolves to.
pub open spec fn flagship_lock_of_body(name: Seq<char>, bytes: Seq<u8>) -> Result<
    LockView,
    ErrorView,
> {
    match page_of(bytes) {
        Err(fault) => Err(ErrorView::Parse { fault }),
        Ok(page) => lock_of_fields(
            name,
            name,
            day_fields(marked_texts(page, "id"@, "version"@, "b"@, "Premium"@)),
            DAY_FORMAT@,
        ),
    }
}

/// The lock that the body of an addon's detail page resolves to.
pub open spec fn addon_lock_of_body(name: Seq<char>, resolved: Seq<char>, bytes: Seq<u8>) -> Result<
    LockView,
    ErrorView,
> {
    match page_of(bytes) {
        Err(fault) => Err(ErrorView::Parse { fault }),
        Ok(page) => lock_of_fields(
            name,
            resolved,
            moment_fields(marked_texts(page, "id"@, "extras"@, "b"@, "VIP"@)),
            MOMENT_FORMAT@,
        ),
    }
}

/// The provider's number for an addon, as the first link of the search
/// results gives it: what follows `?id=` in its address.
pub open spec fn id_of_links(links: Seq<Option<Seq<char>>>) -> Result<Seq<char>, ParseFault> {
    if links.len() == 0 {
        Err(ParseFault::MissingElement)
    } else {
        match links[0] {
            None => Err(ParseFault::MissingElement),
            Some(href) => Ok(after_last(href, ID_MARK@)),
        }
    }
}

/// The provider's number for an addon, as the body of the search page
/// gives it.
pub open spec fn id_of_body(bytes: Seq<u8>) -> Result<Seq<char>, ErrorView> {
    match page_of(bytes) {
        Err(fault) => Err(ErrorView::Parse { fault }),
        Ok(page) => {
            let links = nested_links(page, "addons"@, "addons-list"@, "a"@, "href"@);
            match id_of_links(links) {
                Err(fault) => Err(ErrorView::Parse { fault }),
                Ok(id) => Ok(id),
            }
        },
    }
}

/// Whether a link leads to an archive of `name`.
pub open spec fn is_archive_link(name: Seq<char>, link: Option<Seq<char>>) -> bool {
    link matches Some(href) && has_prefix(href, DOWNLOADS_PATH@ + name) && has_suffix(
        href,
        ARCHIVE_SUFFIX@,
    )
}

/// The last of the first `n` links that leads to an archive of `name`.
pub open spec fn archive_link_upto(
    name: Seq<char>,
    links: Seq<Option<Seq<char>>>,
    n: int,
) -> Option<Seq<char>>
    decreases n,
{
    if n <= 0 {
        None
    } else if is_archive_link(name, links[n - 1]) {
        links[n - 1]
    } else {
        archive_link_upto(name, links, n - 1)
    }
}

/// The link to the archive of `name` among the links of the home page: the
/// last one that leads to such an archive.
pub open spec fn archive_link(name: Seq<char>, links: Seq<Option<Seq<char>>>) -> Result<
    Seq<char>,
    ParseFault,
> {
    match archive_link_upto(name, links, links.len() as int) {
        None => Err(ParseFault::MissingElement),
        Some(href) => Ok(href),
    }
}

/// The link to the archive of `name` that the body of the home page holds.
pub open spec fn archive_link_of_body(name: Seq<char>, bytes: Seq<u8>) -> Result<
    Seq<char>,
    ErrorView,
> {
    match page_of(bytes) {
        Err(fault) => Err(ErrorView::Parse { fault }),
        Ok(page) => match archive_link(name, all_links(page, "a"@, "href"@)) {
            Err(fault) => Err(ErrorView::Parse { fault }),
            Ok(href) => Ok(href),
        },
    }
}

/// The archive link found is one that leads to an archive of `name`, and no
/// later link does; none is found exactly when no link does.
pub proof fn lemma_archive_link_is_last(name: Seq<char>, links: Seq<Option<Seq<char>>>, n: int)
    requires
        0 <= n <= links.len(),
    ensures
        match archive_link_upto(name, links, n) {
            Some(href) => exists|i: int|
                0 <= i < n && #[trigger] links[i] == Some(href) && is_archive_link(name, links[i])
                    && forall|j: int| i < j < n ==> !is_archive_link(name, #[trigger] links[j]),
            None => forall|j: int| 0 <= j < n ==> !is_archive_link(name, #[trigger] links[j]),
        },
    decreases n,
{
    if n > 0 {
        let m = n - 1;
        if is_archive_link(name, links[m]) {
            assert(links[m] == Some(links[m]->0));
        } else {
            lemma_archive_link_is_last(name, links, m);
            if archive_link_upto(name, links, m) is Some {
                let href = archive_link_upto(name, links, m)->0;
                let i = choose|i: int|
                    0 <= i < m && #[trigger] links[i] == Some(href) && is_archive_link(
                        name,
                        links[i],
                    ) && forall|j: int| i < j < m ==> !is_archive_link(name, #[trigger] links[j]);
                assert(links[i] == Some(href));
            }
        }
    }
}

/// The version and the text of its day, from the emphasised fields of a
/// flagship's version page.
pub fn read_day_fields(fields: &Vec<String>) -> (r: Result<(String, String), ParseFault>)
    ensures
        match r {
            Ok(found) => day_fields(fields.deep_view()) == Ok::<
                (Seq<char>, Seq<char>),
                ParseFault,
            >((found.0@, found.1@)),
            Err(fault) => day_fields(fields.deep_view()) == Err::<
                (Seq<char>, Seq<char>),
                ParseFault,
            >(fault),
        },
{
    if fields.len() < 2 {
        return Err(ParseFault::MissingElement);
    }
    assert(fields.deep_view()[0] == fields@[0]@);
    assert(fields.deep_view()[1] == fields@[1]@);
    let version = fields[0].clone();
    let day = fields[1].clone().concat(MIDNIGHT);
    Ok((version, day))
}

/// The version and the text of its moment, from the emphasised fields of an
/// addon's detail page.
pub fn read_moment_fields(fields: &Vec<String>) -> (r: Result<(String, String), ParseFault>)
    ensures
        match r {
            Ok(found) => moment_fields(fields.deep_view()) == Ok::<
                (Seq<char>, Seq<char>),
                ParseFault,
            >((found.0@, found.1@)),
            Err(fault) => moment_fields(fields.deep_view()) == Err::<
                (Seq<char>, Seq<char>),
                ParseFault,
            >(fault),
        },
{
    if fields.len() < 3 {
        return Err(ParseFault::MissingElement);
    }
    assert(fields.deep_view()[0] == fields@[0]@);
    assert(fields.deep_view()[1] == fields@[1]@);
    assert(fields.deep_view()[2] == fields@[2]@);
    let version = fields[0].clone();
    let moment = concat3(fields[1].as_str(), " ", fields[2].as_str()).concat(NO_SECONDS);
    Ok((version, moment))
}

/// The lock of `name` for a version published at `seconds`.
pub fn lock_from_seconds(name: &str, resolved: String, version: String, seconds: Option<i64>) -> (r:
    Result<AddonLock, SyncError>)
    ensures
        match r {
            Ok(lock) => lock_of_seconds(name@, resolved@, version@, seconds) == Ok::<
                LockView,
                ErrorView,
            >(lock@),
            Err(e) => lock_of_seconds(name@, resolved@, version@, seconds) == Err::<
                LockView,
                ErrorView,
            >(e@),
        },
{
    match seconds {
        None => Err(SyncError::Parse { fault: ParseFault::BadDate }),
        Some(t) => Ok(
            AddonLock {
                name: concat3(PROVIDER, "/", name),
                resolved,
                version,
                timestamp: timestamp_of(t),
            },
        ),
    }
}

/// The lock that the fields read from a page resolve to, their moment read
/// under `format`.
fn lock_from_fields(
    name: &str,
    resolved: String,
    fields: Result<(String, String), ParseFault>,
    format: &str,
) -> (r: Result<AddonLock, SyncError>)
    ensures
        ({
            let found: Result<(Seq<char>, Seq<char>), ParseFault> = match fields {
                Ok(f) => Ok((f.0@, f.1@)),
                Err(fault) => Err(fault),
            };
            match r {
                Ok(lock) => lock_of_fields(name@, resolved@, found, format@) == Ok::<
                    LockView,
                    ErrorView,
                >(lock@),
                Err(e) => lock_of_fields(name@, resolved@, found, format@) == Err::<
                    LockView,
                    ErrorView,
                >(e@),
            }
        }),
{
    match fields {
        Err(fault) => Err(SyncError::Parse { fault }),
        Ok(found) => {
            let seconds = parse_utc_seconds(found.1.as_str(), format);
            lock_from_seconds(name, resolved, found.0, seconds)
        },
    }
}

/// The lock that the body of a flagship's version page resolves to.
pub fn flagship_lock_from_body(name: &str, bytes: Vec<u8>) -> (r: Result<AddonLock, SyncError>)
    ensures
        match r {
            Ok(lock) => flagship_lock_of_body(name@, bytes@) == Ok::<LockView, ErrorView>(lock@),
            Err(e) => flagship_lock_of_body(name@, bytes@) == Err::<LockView, ErrorView>(e@),
        },
{
    match decode_page(bytes) {
        Err(fault) => Err(SyncError::Parse { fault }),
        Ok(page) => {
            let texts = read_marked_texts(page.as_str(), "id", "version", "b", "Premium");
            lock_from_fields(name, name.to_owned(), read_day_fields(&texts), DAY_FORMAT)
        },
    }
}

/// The lock that the body of an addon's detail page resolves to.
pub fn addon_lock_from_body(name: &str, resolved: String, bytes: Vec<u8>) -> (r: Result<
    AddonLock,
    SyncError,
>)
    ensures
        match r {
            Ok(lock) => addon_lock_of_body(name@, resolved@, bytes@) == Ok::<LockView, ErrorView>(
                lock@,
            ),
            Err(e) => addon_lock_of_body(name@, resolved@, bytes@) == Err::<LockView, ErrorView>(
                e@,
            ),
        },
{
    match decode_page(bytes) {
        Err(fault) => Err(SyncError::Parse { fault }),
        Ok(page) => {
            let texts = read_marked_texts(page.as_str(), "id", "extras", "b", "VIP");
            lock_from_fields(name, resolved, read_moment_fields(&texts), MOMENT_FORMAT)
        },
    }
}

/// The provider's number for an addon, from the links of the search
/// results.
pub fn id_from_links(links: &Vec<Option<String>>) -> (r: Result<String, ParseFault>)
    ensures
        match r {
            Ok(id) => id_of_links(links.deep_view()) == Ok::<Seq<char>, ParseFault>(id@),
            Err(fault) => id_of_links(links.deep_view()) == Err::<Seq<char>, ParseFault>(fault),
        },
{
    if links.len() == 0 {
        return Err(ParseFault::MissingElement);
    }
    assert(links.deep_view()[0] == links@[0].deep_view());
    match &links[0] {
        None => Err(ParseFault::MissingElement),
        Some(href) => Ok(text_after_last(href.as_str(), ID_MARK)),
    }
}

/// The provider's number for an addon, from the body of the search page.
pub fn id_from_body(bytes: Vec<u8>) -> (r: Result<String, SyncError>)
    ensures
        match r {
            Ok(id) => id_of_body(bytes@) == Ok::<Seq<char>, ErrorView>(id@),
            Err(e) => id_of_body(bytes@) == Err::<Seq<char>, ErrorView>(e@),
        },
{
    match decode_page(bytes) {
        Err(fault) => Err(SyncError::Parse { fault }),
        Ok(page) => {
            let links = read_nested_links(page.as_str(), "addons", "addons-list", "a", "href");
            match id_from_links(&links) {
                Err(fault) => Err(SyncError::Parse { fault }),
                Ok(id) => Ok(id),
            }
        },
    }
}

/// The link to the archive of `name` among the links of the home page.
pub fn find_archive_link(name: &str, links: &Vec<Option<String>>) -> (r: Result<String, ParseFault>)
    ensures
        match r {
            Ok(href) => archive_link(name@, links.deep_view()) == Ok::<Seq<char>, ParseFault>(
                href@,
            ),
            Err(fault) => archive_link(name@, links.deep_view()) == Err::<Seq<char>, ParseFault>(
                fault,
            ),
        },
{
    let ghost all = links.deep_view();
    let start = DOWNLOADS_PATH.to_owned().concat(name);
    let mut i: usize = links.len();
    while i > 0
        invariant
            i <= links.len(),
            all == links.deep_view(),
            start@ == DOWNLOADS_PATH@ + name@,
            archive_link_upto(name@, all, links@.len() as int) == archive_link_upto(
                name@,
                all,
                i as int,
            ),
        decreases i,
    {
        i = i - 1;
        assert(all[i as int] == links@[i as int].deep_view());
        match &links[i] {
            Some(href) => {
                if starts_with(href.as_str(), start.as_str()) && ends_with(
                    href.as_str(),
                    ARCHIVE_SUFFIX,
                ) {
                    return Ok(href.clone());
                }
            },
            None => {},
        }
    }
    Err(ParseFault::MissingElement)
}

/// The link to the archive of `name` that the body of the home page holds.
pub fn archive_link_from_body(name: &str, bytes: Vec<u8>) -> (r: Result<String, SyncError>)
    ensures
        match r {
            Ok(href) => archive_link_of_body(name@, bytes@) == Ok::<Seq<char>, ErrorView>(href@),
            Err(e) => archive_link_of_body(name@, bytes@) == Err::<Seq<char>, ErrorView>(e@),
        },
{
    match decode_page(bytes) {
        Err(fault) => Err(SyncError::Parse { fault }),
        Ok(page) => {
            let links = read_all_links(page.as_str(), "a", "href");
            match find_archive_link(name, &links) {
                Err(fault) => Err(SyncError::Parse { fault }),
                Ok(href) => Ok(href),
            }
        },
    }
}

/// Whether `name` is one of the two flagship interfaces.
pub fn flagship(name: &str) -> (r: bool)
    ensures
        r == is_flagship(name@),
{
    same_text(name, "tukui") || same_text(name, "elvui")
}

/// The answer of a machine that is done with an operation.
pub open spec fn settled<V>(addon: V, r: Result<LockView, ErrorView>) -> PollView<(V, LockView)> {
    match r {
        Ok(lock) => PollView::Ready((addon, lock)),
        Err(e) => PollView::Failed(e),
    }
}

/// A turn that passes no event on.
pub open spec fn quiet<V>(poll: PollView<V>) -> TurnView<V> {
    TurnView { poll, note: None }
}

/// How far the resolution of a flagship's version has come.
#[derive(Debug, Clone, Copy, PartialEq, Eq, Structural)]
pub enum HomeLockInner {
    Idle,
    Downloading,
    Finished,
}

/// Resolves the version of a flagship interface.
#[derive(Debug, PartialEq, Eq)]
pub struct HomeLockFuture {
    pub inner: HomeLockInner,
    pub addon: Addon,
}

/// A `HomeLockFuture` as plain values.
pub struct HomeLockView {
    pub inner: HomeLockInner,
    pub addon: AddonView,
}

impl View for HomeLockFuture {
    type V = HomeLockView;

    open spec fn view(&self) -> HomeLockView {
        HomeLockView { inner: self.inner, addon: self.addon@ }
    }
}

/// One step of resolving a flagship: ask for its version page, then read
/// the lock off the body.
pub open spec fn home_lock_step(s: HomeLockView, outcome: Option<OutcomeView>) -> (
    HomeLockView,
    TurnView<(AddonView, LockView)>,
) {
    let finished = HomeLockView { inner: HomeLockInner::Finished, addon: s.addon };
    match s.inner {
        HomeLockInner::Idle => (
            HomeLockView { inner: HomeLockInner::Downloading, addon: s.addon },
            quiet(PollView::Get { url: UI_URL@ + s.addon.name }),
        ),
        HomeLockInner::Downloading => match outcome {
            Some(OutcomeView::Body { bytes }) => (
                finished,
                quiet(settled(s.addon, flagship_lock_of_body(s.addon.name, bytes))),
            ),
            _ => if is_failure(outcome) {
                (finished, quiet(on_other(outcome)))
            } else {
                (s, quiet(PollView::Pending))
            },
        },
        HomeLockInner::Finished => (s, quiet(PollView::Pending)),
    }
}

impl HomeLockFuture {
    /// Takes the outcome of the last request and answers with the next one,
    /// or with the lock.
    pub fn poll(&mut self, outcome: Option<Outcome>) -> (turn: Turn<(Addon, AddonLock)>)
        ensures
            (final(self)@, turn@) == home_lock_step(old(self)@, outcome_view(outcome)),
    {
        match self.inner {
            HomeLockInner::Idle => {
                self.inner = HomeLockInner::Downloading;
                Turn {
                    poll: Poll::Get { url: UI_URL.to_owned().concat(self.addon.name.as_str()) },
                    note: None,
                }
            },
            HomeLockInner::Downloading => match outcome {
                Some(Outcome::Body { bytes }) => {
                    self.inner = HomeLockInner::Finished;
                    match flagship_lock_from_body(self.addon.name.as_str(), bytes) {
                        Ok(lock) => Turn {
                            poll: Poll::Ready((self.addon.clone(), lock)),
                            note: None,
                        },
                        Err(e) => Turn { poll: Poll::Failed(e), note: None },
                    }
                },
                Some(Outcome::Unreachable { reason }) => {
                    self.inner = HomeLockInner::Finished;
                    Turn { poll: Poll::Failed(SyncError::Transport { reason }), note: None }
                },
                Some(Outcome::Unwritable { reason }) => {
                    self.inner = HomeLockInner::Finished;
                    Turn { poll: Poll::Failed(SyncError::Storage { reason }), note: None }
                },
                _ => Turn { poll: Poll::Pending, note: None },
            },
            HomeLockInner::Finished => Turn { poll: Poll::Pending, note: None },
        }
    }
}

/// How far the resolution of an addon's version has come.
#[derive(Debug, PartialEq, Eq)]
pub enum AddonLockInner {
    Idle,
    /// The search page has been asked for.
    Resolving,
    /// The detail page of the addon numbered `resolved` has been asked for.
    Downloading { resolved: String },
    Finished,
}

/// An `AddonLockInner` as plain values.
pub enum AddonLockInnerView {
    Idle,
    Resolving,
    Downloading { resolved: Seq<char> },
    Finished,
}

impl View for AddonLockInner {
    type V = AddonLockInnerView;

    open spec fn view(&self) -> AddonLockInnerView {
        match self {
            AddonLockInner::Idle => AddonLockInnerView::Idle,
            AddonLockInner::Resolving => AddonLockInnerView::Resolving,
            AddonLockInner::Downloading { resolved } => AddonLockInnerView::Downloading {
                resolved: resolved@,
            },
            AddonLockInner::Finished => AddonLockInnerView::Finished,
        }
    }
}

/// Resolves the version of an addon that is not a flagship.
#[derive(Debug, PartialEq, Eq)]
pub struct AddonLockFuture {
    pub inner: AddonLockInner,
    pub addon: Addon,
    /// The provider's number for the addon, where the previous lock has it.
    pub resolved: Option<String>,
}

/// An `AddonLockFuture` as plain values.
pub struct AddonLockView {
    pub inner: AddonLockInnerView,
    pub addon: AddonView,
    pub resolved: Option<Seq<char>>,
}

impl View for AddonLockFuture {
    type V = AddonLockView;

    open spec fn view(&self) -> AddonLockView {
        AddonLockView {
            inner: self.inner@,
            addon: self.addon@,
            resolved: match self.resolved {
                Some(id) => Some(id@),
                None => None,
            },
        }
    }
}

/// One step of resolving an addon.
///
/// With a number from the previous lock the search is skipped and the
/// detail page of that number is asked for at once. Without one, the search
/// page is asked for first and the number is read off its first result.
pub open spec fn addon_lock_step(s: AddonLockView, outcome: Option<OutcomeView>) -> (
    AddonLockView,
    TurnView<(AddonView, LockView)>,
) {
    let at = |inner: AddonLockInnerView|
        AddonLockView { inner, addon: s.addon, resolved: s.resolved };
    let waiting = if is_failure(outcome) {
        (at(AddonLockInnerView::Finished), quiet(on_other(outcome)))
    } else {
        (s, quiet(PollView::Pending))
    };
    match s.inner {
        AddonLockInnerView::Idle => match s.resolved {
            Some(id) => (
                at(AddonLockInnerView::Downloading { resolved: id }),
                quiet(PollView::Get { url: ADDON_URL@ + id }),
            ),
            None => (
                at(AddonLockInnerView::Resolving),
                quiet(PollView::Get { url: SEARCH_URL@ + search_term(s.addon.name) }),
            ),
        },
        AddonLockInnerView::Resolving => match outcome {
            Some(OutcomeView::Body { bytes }) => match id_of_body(bytes) {
                Ok(id) => (
                    at(AddonLockInnerView::Downloading { resolved: id }),
                    quiet(PollView::Get { url: ADDON_URL@ + id }),
                ),
                Err(e) => (at(AddonLockInnerView::Finished), quiet(PollView::Failed(e))),
            },
            _ => waiting,
        },
        AddonLockInnerView::Downloading { resolved } => match outcome {
            Some(OutcomeView::Body { bytes }) => (
                at(AddonLockInnerView::Finished),
                quiet(settled(s.addon, addon_lock_of_body(s.addon.name, resolved, bytes))),
            ),
            _ => waiting,
        },
        AddonLockInnerView::Finished => (s, quiet(PollView::Pending)),
    }
}

impl AddonLockFuture {
    /// The answer to an outcome that the present stage has no use for.
    fn wait(&mut self, outcome: Option<Outcome>) -> (turn: Turn<(Addon, AddonLock)>)
        ensures
            final(self).addon == old(self).addon,
            final(self).resolved == old(self).resolved,
            is_failure(outcome_view(outcome)) ==> final(self).inner@ is Finished && turn@ == quiet::<
                (AddonView, LockView),
            >(on_other(outcome_view(outcome))),
            !is_failure(outcome_view(outcome)) ==> final(self).inner == old(self).inner && turn@
                == quiet::<(AddonView, LockView)>(PollView::Pending),
    {
        match outcome {
            Some(Outcome::Unreachable { reason }) => {
                self.inner = AddonLockInner::Finished;
                Turn { poll: Poll::Failed(SyncError::Transport { reason }), note: None }
            },
            Some(Outcome::Unwritable { reason }) => {
                self.inner = AddonLockInner::Finished;
                Turn { poll: Poll::Failed(SyncError::Storage { reason }), note: None }
            },
            _ => Turn { poll: Poll::Pending, note: None },
        }
    }

    /// Takes the outcome of the last request and answers with the next one,
    /// or with the lock.
    pub fn poll(&mut self, outcome: Option<Outcome>) -> (turn: Turn<(Addon, AddonLock)>)
        ensures
            (final(self)@, turn@) == addon_lock_step(old(self)@, outcome_view(outcome)),
    {
        match &self.inner {
            AddonLockInner::Idle => match &self.resolved {
                Some(id) => {
                    let url = ADDON_URL.to_owned().concat(id.as_str());
                    self.inner = AddonLockInner::Downloading { resolved: id.clone() };
                    Turn { poll: Poll::Get { url }, note: None }
                },
                None => {
                    let plus = spaces_to_plus(self.addon.name.as_str());
                    let term = to_lowercase(plus.as_str());
                    self.inner = AddonLockInner::Resolving;
                    Turn {
                        poll: Poll::Get { url: SEARCH_URL.to_owned().concat(term.as_str()) },
                        note: None,
                    }
                },
            },
            AddonLockInner::Resolving => match outcome {
                Some(Outcome::Body { bytes }) => match id_from_body(bytes) {
                    Ok(id) => {
                        let url = ADDON_URL.to_owned().concat(id.as_str());
                        self.inner = AddonLockInner::Downloading { resolved: id };
                        Turn { poll: Poll::Get { url }, note: None }
                    },
                    Err(e) => {
                        self.inner = AddonLockInner::Finished;
                        Turn { poll: Poll::Failed(e), note: None }
                    },
                },
                other => self.wait(other),
            },
            AddonLockInner::Downloading { resolved } => match outcome {
                Some(Outcome::Body { bytes }) => {
                    let id = resolved.clone();
                    self.inner = AddonLockInner::Finished;
                    match addon_lock_from_body(self.addon.name.as_str(), id, bytes) {
                        Ok(lock) => Turn {
                            poll: Poll::Ready((self.addon.clone(), lock)),
                            note: None,
                        },
                        Err(e) => Turn { poll: Poll::Failed(e), note: None },
                    }
                },
                other => self.wait(other),
            },
            AddonLockInner::Finished => Turn { poll: Poll::Pending, note: None },
        }
    }
}

/// The machine that resolves a Tukui addon: one of the two kinds.
#[derive(Debug, PartialEq, Eq)]
pub enum LockInner {
    HomeLockFuture(HomeLockFuture),
    AddonLockFuture(AddonLockFuture),
}

/// Resolves the version of a Tukui addon.
#[derive(Debug, PartialEq, Eq)]
pub struct TukLockFuture {
    pub inner: LockInner,
}

/// A `TukLockFuture` as plain values.
pub enum TukLockView {
    Home(HomeLockView),
    Addon(AddonLockView),
}

impl View for TukLockFuture {
    type V = TukLockView;

    open spec fn view(&self) -> TukLockView {
        match self.inner {
            LockInner::HomeLockFuture(f) => TukLockView::Home(f@),
            LockInner::AddonLockFuture(f) => TukLockView::Addon(f@),
        }
    }
}

/// The machine that resolves `addon`, before its first poll: the flagship's
/// for the two flagship names, else the addon's, with the number from the
/// previous lock if there is one.
pub open spec fn lock_start(addon: AddonView, old_lock: Option<LockView>) -> TukLockView {
    if is_flagship(addon.name) {
        TukLockView::Home(HomeLockView { inner: HomeLockInner::Idle, addon })
    } else {
        TukLockView::Addon(
            AddonLockView {
                inner: AddonLockInnerView::Idle,
                addon,
                resolved: match old_lock {
                    Some(lock) => Some(lock.resolved),
                    None => None,
                },
            },
        )
    }
}

/// One step of resolving a Tukui addon: that of the machine it holds.
pub open spec fn lock_step(s: TukLockView, outcome: Option<OutcomeView>) -> (
    TukLockView,
    TurnView<(AddonView, LockView)>,
) {
    match s {
        TukLockView::Home(f) => (
            TukLockView::Home(home_lock_step(f, outcome).0),
            home_lock_step(f, outcome).1,
        ),
        TukLockView::Addon(f) => (
            TukLockView::Addon(addon_lock_step(f, outcome).0),
            addon_lock_step(f, outcome).1,
        ),
    }
}

/// A machine that resolves the version of `addon`.
pub fn get_lock(addon: Addon, old_lock: Option<AddonLock>) -> (r: TukLockFuture)
    ensures
        r@ == lock_start(
            addon@,
            match old_lock {
                Some(lock) => Some(lock@),
                None => None,
            },
        ),
{
    let inner = if flagship(addon.name.as_str()) {
        LockInner::HomeLockFuture(HomeLockFuture { inner: HomeLockInner::Idle, addon })
    } else {
        let resolved = match old_lock {
            Some(lock) => Some(lock.resolved),
            None => None,
        };
        LockInner::AddonLockFuture(
            AddonLockFuture { inner: AddonLockInner::Idle, addon, resolved },
        )
    };
    TukLockFuture { inner }
}

impl TukLockFuture {
    /// Takes the outcome of the last request and answers with the next one,
    /// or with the lock.
    pub fn poll(&mut self, outcome: Option<Outcome>) -> (turn: Turn<(Addon, AddonLock)>)
        ensures
            (final(self)@, turn@) == lock_step(old(self)@, outcome_view(outcome)),
    {
        match &mut self.inner {
            LockInner::HomeLockFuture(f) => f.poll(outcome),
            LockInner::AddonLockFuture(f) => f.poll(outcome),
        }
    }
}

/// How far the download of an archive has come.
#[derive(Debug, PartialEq, Eq)]
pub enum StageInner {
    Idle,
    /// The page or response that names the archive has been asked for.
    Locating,
    /// The archive will be staged at `target`.
    Downloading { target: String },
    Writing { target: String },
    Finished,
}

/// A `StageInner` as plain values.
pub enum StageView {
    Idle,
    Locating,
    Downloading { target: Seq<char> },
    Writing { target: Seq<char> },
    Finished,
}

impl View for StageInner {
    type V = StageView;

    open spec fn view(&self) -> StageView {
        match self {
            StageInner::Idle => StageView::Idle,
            StageInner::Locating => StageView::Locating,
            StageInner::Downloading { target } => StageView::Downloading { target: target@ },
            StageInner::Writing { target } => StageView::Writing { target: target@ },
            StageInner::Finished => StageView::Finished,
        }
    }
}

/// Which of the two kinds of download a machine carries out.
#[derive(Debug, Clone, Copy, PartialEq, Eq, Structural)]
pub enum DownloadKind {
    /// A flagship interface: the archive's link is on the home page.
    Home,
    /// Any other addon: the archive comes from the download endpoint.
    Addon,
}

/// Downloads the archive of a Tukui addon.
#[derive(Debug, PartialEq, Eq)]
pub struct TukDownloadFuture {
    pub kind: DownloadKind,
    pub inner: StageInner,
    pub addon: Addon,
    pub lock: AddonLock,
}

/// A `TukDownloadFuture` as plain values.
pub struct TukDownloadView {
    pub kind: DownloadKind,
    pub inner: StageView,
    pub addon: AddonView,
    pub lock: LockView,
}

impl View for TukDownloadFuture {
    type V = TukDownloadView;

    open spec fn view(&self) -> TukDownloadView {
        TukDownloadView {
            kind: self.kind,
            inner: self.inner@,
            addon: self.addon@,
            lock: self.lock@,
        }
    }
}

/// The first request of a download.
///
/// For a flagship it is the home page, which is scanned anew at every
/// download because the archive has no lasting address. For any other addon
/// it is the download endpoint, keyed by the addon's name in lower case.
pub open spec fn first_request(kind: DownloadKind, addon: AddonView) -> PollView<
    (Seq<char>, LockView),
> {
    match kind {
        DownloadKind::Home => PollView::Get { url: HOME_URL@ },
        DownloadKind::Addon => PollView::Open { url: ADDON_DOWNLOAD_URL@ + lowercase(addon.name) },
    }
}

/// One step of a download.
///
/// A flagship's archive is named by the last path segment of its link on
/// the home page; any other archive by what follows `filename=` in the
/// content-disposition header of the response, which must be there.
pub open spec fn download_step(s: TukDownloadView, outcome: Option<OutcomeView>) -> (
    TukDownloadView,
    TurnView<(Seq<char>, LockView)>,
) {
    let at = |inner: StageView|
        TukDownloadView { kind: s.kind, inner, addon: s.addon, lock: s.lock };
    let waiting = if is_failure(outcome) {
        (at(StageView::Finished), quiet(on_other(outcome)))
    } else {
        (s, quiet(PollView::Pending))
    };
    match s.inner {
        StageView::Idle => (at(StageView::Locating), quiet(first_request(s.kind, s.addon))),
        StageView::Locating => match (s.kind, outcome) {
            (DownloadKind::Home, Some(OutcomeView::Body { bytes })) => match archive_link_of_body(
                s.addon.name,
                bytes,
            ) {
                Ok(href) => (
                    at(StageView::Downloading { target: staged_path(after_last(href, "/"@)) }),
                    quiet(PollView::Get { url: BASE_URL@ + href }),
                ),
                Err(e) => (at(StageView::Finished), quiet(PollView::Failed(e))),
            },
            (DownloadKind::Addon, Some(OutcomeView::Response { disposition, .. })) => {
                match disposition {
                    Some(header) => (
                        at(
                            StageView::Downloading {
                                target: staged_path(after_last(header, FILENAME_MARK@)),
                            },
                        ),
                        quiet(PollView::ReadBody),
                    ),
                    None => (
                        at(StageView::Finished),
                        quiet(
                            PollView::Failed(
                                ErrorView::Parse { fault: ParseFault::MissingElement },
                            ),
                        ),
                    ),
                }
            },
            _ => waiting,
        },
        StageView::Downloading { target } => match outcome {
            Some(OutcomeView::Body { bytes }) => (
                at(StageView::Writing { target }),
                quiet(PollView::Store { path: target, body: bytes }),
            ),
            _ => waiting,
        },
        StageView::Writing { target } => match outcome {
            Some(OutcomeView::Stored) => (
                at(StageView::Finished),
                quiet(PollView::Ready((target, s.lock))),
            ),
            _ => waiting,
        },
        StageView::Finished => (s, quiet(PollView::Pending)),
    }
}

/// The kind of download that `name` calls for.
pub open spec fn kind_of_download(name: Seq<char>) -> DownloadKind {
    if is_flagship(name) {
        DownloadKind::Home
    } else {
        DownloadKind::Addon
    }
}

/// A machine that downloads the archive that `lock` was resolved to.
pub fn download_addon(addon: Addon, lock: AddonLock) -> (r: TukDownloadFuture)
    ensures
        r@ == (TukDownloadView {
            kind: kind_of_download(addon@.name),
            inner: StageView::Idle,
            addon: addon@,
            lock: lock@,
        }),
{
    let kind = if flagship(addon.name.as_str()) {
        DownloadKind::Home
    } else {
        DownloadKind::Addon
    };
    TukDownloadFuture { kind, inner: StageInner::Idle, addon, lock }
}

impl TukDownloadFuture {
    /// The answer to an outcome that the present stage has no use for.
    fn wait(&mut self, outcome: Option<Outcome>) -> (turn: Turn<(String, AddonLock)>)
        ensures
            final(self).kind == old(self).kind,
            final(self).addon == old(self).addon,
            final(self).lock == old(self).lock,
            is_failure(outcome_view(outcome)) ==> final(self).inner@ is Finished && turn@ == quiet::<
                (Seq<char>, LockView),
            >(on_other(outcome_view(outcome))),
            !is_failure(outcome_view(outcome)) ==> final(self).inner == old(self).inner && turn@
                == quiet::<(Seq<char>, LockView)>(PollView::Pending),
    {
        match outcome {
            Some(Outcome::Unreachable { reason }) => {
                self.inner = StageInner::Finished;
                Turn { poll: Poll::Failed(SyncError::Transport { reason }), note: None }
            },
            Some(Outcome::Unwritable { reason }) => {
                self.inner = StageInner::Finished;
                Turn { poll: Poll::Failed(SyncError::Storage { reason }), note: None }
            },
            _ => Turn { poll: Poll::Pending, note: None },
        }
    }

    /// Takes what names the archive and answers with the request for it.
    fn locate(&mut self, outcome: Option<Outcome>) -> (turn: Turn<(String, AddonLock)>)
        requires
            old(self).inner is Locating,
        ensures
            (final(self)@, turn@) == download_step(old(self)@, outcome_view(outcome)),
    {
        match self.kind {
            DownloadKind::Home => match outcome {
                Some(Outcome::Body { bytes }) => match archive_link_from_body(
                    self.addon.name.as_str(),
                    bytes,
                ) {
                    Ok(href) => {
                        let filename = text_after_last(href.as_str(), "/");
                        let target = concat3(TEMP_DIR, "/", filename.as_str());
                        self.inner = StageInner::Downloading { target };
                        Turn {
                            poll: Poll::Get { url: BASE_URL.to_owned().concat(href.as_str()) },
                            note: None,
                        }
                    },
                    Err(e) => {
                        self.inner = StageInner::Finished;
                        Turn { poll: Poll::Failed(e), note: None }
                    },
                },
                other => self.wait(other),
            },
            DownloadKind::Addon => match outcome {
                Some(Outcome::Response { disposition, .. }) => match disposition {
                    Some(header) => {
                        let filename = text_after_last(header.as_str(), FILENAME_MARK);
                        let target = concat3(TEMP_DIR, "/", filename.as_str());
                        self.inner = StageInner::Downloading { target };
                        Turn { poll: Poll::ReadBody, note: None }
                    },
                    None => {
                        self.inner = StageInner::Finished;
                        Turn {
                            poll: Poll::Failed(
                                SyncError::Parse { fault: ParseFault::MissingElement },
                            ),
                            note: None,
                        }
                    },
                },
                other => self.wait(other),
            },
        }
    }

    /// Takes the outcome of the last request and answers with the next one,
    /// or with the staged archive and its lock.
    pub fn poll(&mut self, outcome: Option<Outcome>) -> (turn: Turn<(String, AddonLock)>)
        ensures
            (final(self)@, turn@) == download_step(old(self)@, outcome_view(outcome)),
    {
        match &self.inner {
            StageInner::Idle => {
                let poll = match self.kind {
                    DownloadKind::Home => Poll::Get { url: HOME_URL.to_owned() },
                    DownloadKind::Addon => {
                        let name = to_lowercase(self.addon.name.as_str());
                        Poll::Open { url: ADDON_DOWNLOAD_URL.to_owned().concat(name.as_str()) }
                    },
                };
                self.inner = StageInner::Locating;
                Turn { poll, note: None }
            },
            StageInner::Locating => self.locate(outcome),
            StageInner::Downloading { target } => match outcome {
                Some(Outcome::Body { bytes }) => {
                    let path = target.clone();
                    self.inner = StageInner::Writing { target: path.clone() };
                    Turn { poll: Poll::Store { path, body: bytes }, note: None }
                },
                other => self.wait(other),
            },
            StageInner::Writing { target } => match outcome {
                Some(Outcome::Stored) => {
                    let path = target.clone();
                    self.inner = StageInner::Finished;
                    Turn { poll: Poll::Ready((path, self.lock.clone())), note: None }
                },
                other => self.wait(other),
            },
            StageInner::Finished => Turn { poll: Poll::Pending, note: None },
        }
    }
}

} // verus!
