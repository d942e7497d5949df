use wam::addon::{Addon, AddonLock};
use wam::error::{ErrorKind, ParseFault, SyncError};
use wam::install::Summary;
use wam::lock::LockStore;
use wam::pipeline::{DownloadJob, Install, LockJob};
use wam::progress::Phase;
use wam::providers::{download_addon, get_lock, Outcome, Poll};

/// A provider that answers every request from a table of pages.
struct Site {
    pages: Vec<(String, Vec<u8>)>,
    redirects: Vec<(String, String)>,
    requested: Vec<String>,
    stored: Vec<String>,
    extracted: Vec<String>,
}

fn site() -> Site {
    Site {
        pages: Vec::new(),
        redirects: Vec::new(),
        requested: Vec::new(),
        stored: Vec::new(),
        extracted: Vec::new(),
    }
}

fn body_at(site: &mut Site, url: &str) -> Outcome {
    site.requested.push(url.to_string());
    match site.pages.iter().find(|p| p.0 == url) {
        Some(page) => Outcome::Body { bytes: page.1.clone() },
        None => Outcome::Unreachable { reason: format!("no answer from {}", url) },
    }
}

fn resolve(site: &mut Site, job: &LockJob) -> Result<AddonLock, SyncError> {
    let mut machine = get_lock((job.addon.clone(), job.old_lock.clone())).unwrap();
    let mut outcome = None;
    loop {
        match machine.poll(outcome.take()).poll {
            Poll::Get { url } => outcome = Some(body_at(site, &url)),
            Poll::Ready((_, lock)) => return Ok(lock),
            Poll::Failed(e) => return Err(e),
            other => panic!("unexpected request {:?}", other),
        }
    }
}

fn download(site: &mut Site, job: &DownloadJob) -> Result<(), SyncError> {
    let mut machine = download_addon((job.addon.clone(), job.lock.clone())).unwrap();
    let mut outcome = None;
    let mut opened = String::new();
    loop {
        match machine.poll(outcome.take()).poll {
            Poll::Get { url } => outcome = Some(body_at(site, &url)),
            Poll::Open { url } => {
                site.requested.push(url.clone());
                let target = site.redirects.iter().find(|r| r.0 == url).map(|r| r.1.clone());
                outcome = Some(match target {
                    Some(target) => {
                        opened = target.clone();
                        Outcome::Response { url: target, disposition: None }
                    }
                    None => Outcome::Unreachable { reason: "no answer".to_string() },
                });
            }
            Poll::ReadBody => outcome = Some(body_at(site, &opened.clone())),
            Poll::Store { path, body: _ } => {
                site.stored.push(path);
                outcome = Some(Outcome::Stored);
            }
            Poll::Ready((path, lock)) => {
                assert_eq!(lock, job.lock);
                site.extracted.push(path);
                return Ok(());
            }
            Poll::Failed(e) => return Err(e),
            Poll::Pending => panic!("nothing is under way"),
        }
    }
}

fn run_to_the_end(site: &mut Site, addons: &Vec<Addon>, store: LockStore, parallel: Option<usize>) -> (LockStore, Summary) {
    let mut run = Install::begin(addons, store, parallel).unwrap();
    let limit = parallel.unwrap_or(5);
    let mut waiting: Vec<LockJob> = Vec::new();
    loop {
        loop {
            let (next, job) = run.next_lock();
            run = next;
            match job {
                Some(job) => waiting.push(job),
                None => break,
            }
            assert!(run.in_flight() <= limit);
        }
        assert!(waiting.len() <= limit);
        assert_eq!(run.in_flight(), waiting.len());
        match waiting.pop() {
            Some(job) => {
                assert_eq!(site.stored.len(), 0);
                let result = resolve(site, &job);
                run = run.lock_done(job.op, result);
            }
            None => break,
        }
    }
    assert_eq!(run.phase(), Phase::Downloading);
    let mut fetching: Vec<DownloadJob> = Vec::new();
    loop {
        loop {
            let (next, job) = run.next_download();
            run = next;
            match job {
                Some(job) => fetching.push(job),
                None => break,
            }
        }
        assert!(fetching.len() <= limit);
        assert_eq!(run.in_flight(), fetching.len());
        if fetching.is_empty() {
            break;
        }
        let job = fetching.remove(0);
        let result = download(site, &job);
        run = run.download_done(job.op, result);
    }
    assert!(run.is_finished());
    run.finish()
}

fn files_listing(epoch: u64) -> Vec<u8> {
    format!(
        "<html><body><table><tbody><tr class=\"project-file-list-item\">\
         <td class=\"project-file-name\"><div><a data-action=\"file-link\" href=\"/f/1\">2.5.0</a></div></td>\
         <td class=\"project-file-date-uploaded\"><abbr data-epoch=\"{}\">x</abbr></td>\
         </tr></tbody></table></body></html>",
        epoch
    )
    .into_bytes()
}

fn curse(name: &str) -> Addon {
    Addon { name: name.to_string(), provider: "curse".to_string() }
}

fn curse_site(names: &[(&str, u64)]) -> Site {
    let mut s = site();
    for (name, epoch) in names {
        s.pages.push((
            format!("https://wow.curseforge.com/projects/{}/files?sort=releasetype", name),
            files_listing(*epoch),
        ));
        s.redirects.push((
            format!("https://wow.curseforge.com/projects/{}/files/latest", name),
            format!("https://media.forgecdn.net/files/1/2/{}-2.5.0.zip", name),
        ));
        s.pages.push((format!("https://media.forgecdn.net/files/1/2/{}-2.5.0.zip", name), vec![80, 75]));
    }
    s
}

fn weakauras_at(timestamp: u64) -> AddonLock {
    AddonLock {
        name: "curse/weakauras".to_string(),
        resolved: "weakauras".to_string(),
        version: "2.5.0".to_string(),
        timestamp,
    }
}

#[test]
fn first_sync_downloads_and_records_the_lock() {
    let mut site = curse_site(&[("weakauras", 1000)]);
    let addons = vec![curse("weakauras")];
    let (store, summary) = run_to_the_end(&mut site, &addons, LockStore::new(), None);
    assert_eq!(site.stored, vec![".wam-temp/weakauras-2.5.0.zip"]);
    assert_eq!(site.extracted, vec![".wam-temp/weakauras-2.5.0.zip"]);
    assert_eq!(store.entries(), &vec![weakauras_at(1000)]);
    assert_eq!(
        summary,
        Summary { updated: vec!["curse/weakauras".to_string()], current: Vec::new(), failed: Vec::new() }
    );
}

#[test]
fn equal_timestamp_downloads_nothing() {
    let mut site = curse_site(&[("weakauras", 1000)]);
    let addons = vec![curse("weakauras")];
    let before = LockStore::from_entries(&vec![AddonLock {
        name: "curse/weakauras".to_string(),
        resolved: "weakauras".to_string(),
        version: "older label".to_string(),
        timestamp: 1000,
    }]);
    let expected = before.entries().clone();
    let (store, summary) = run_to_the_end(&mut site, &addons, before, None);
    assert!(site.stored.is_empty());
    assert!(site.extracted.is_empty());
    assert_eq!(
        site.requested,
        vec!["https://wow.curseforge.com/projects/weakauras/files?sort=releasetype"]
    );
    assert_eq!(store.entries(), &expected);
    assert_eq!(
        summary,
        Summary { updated: Vec::new(), current: vec!["curse/weakauras".to_string()], failed: Vec::new() }
    );
}

#[test]
fn newer_timestamp_replaces_the_lock_in_place() {
    let mut site = curse_site(&[("weakauras", 1001)]);
    let addons = vec![curse("weakauras")];
    let other = AddonLock {
        name: "curse/dbm".to_string(),
        resolved: "dbm".to_string(),
        version: "8".to_string(),
        timestamp: 50,
    };
    let before = LockStore::from_entries(&vec![weakauras_at(1000), other.clone()]);
    let (store, summary) = run_to_the_end(&mut site, &addons, before, None);
    assert_eq!(site.extracted.len(), 1);
    assert_eq!(store.entries(), &vec![weakauras_at(1001), other]);
    assert_eq!(summary.updated, vec!["curse/weakauras"]);
}

#[test]
fn cached_id_goes_straight_to_the_detail_page() {
    let mut site = site();
    site.pages.push((
        "https://www.tukui.org/addons.php?id=42".to_string(),
        b"<div id=\"extras\"><b class=\"VIP\">1.2</b><b class=\"VIP\">Aug 14, 2018</b><b class=\"VIP\">13:45</b></div>".to_vec(),
    ));
    let addons = vec![Addon { name: "addonx".to_string(), provider: "tukui".to_string() }];
    let previous = AddonLock {
        name: "tukui/addonx".to_string(),
        resolved: "42".to_string(),
        version: "1.2".to_string(),
        timestamp: 1534254300,
    };
    let before = LockStore::from_entries(&vec![previous.clone()]);
    let (store, summary) = run_to_the_end(&mut site, &addons, before, None);
    assert_eq!(site.requested, vec!["https://www.tukui.org/addons.php?id=42"]);
    assert_eq!(store.entries(), &vec![previous]);
    assert_eq!(summary.current, vec!["tukui/addonx"]);
    assert!(summary.failed.is_empty());
}

#[test]
fn one_failure_does_not_lose_the_other_addon() {
    let mut site = curse_site(&[("weakauras", 1000)]);
    site.pages.push((
        "https://wow.curseforge.com/projects/broken/files?sort=releasetype".to_string(),
        b"<html><body>under maintenance</body></html>".to_vec(),
    ));
    let addons = vec![curse("broken"), curse("weakauras")];
    let (store, summary) = run_to_the_end(&mut site, &addons, LockStore::new(), None);
    assert_eq!(site.extracted, vec![".wam-temp/weakauras-2.5.0.zip"]);
    assert_eq!(store.entries(), &vec![weakauras_at(1000)]);
    assert_eq!(summary.updated, vec!["curse/weakauras"]);
    assert_eq!(
        summary.failed,
        vec![(
            "curse/broken".to_string(),
            "parse error: expected element is missing from the page".to_string()
        )]
    );
    assert_eq!(SyncError::Parse { fault: ParseFault::MissingElement }.kind(), ErrorKind::Parse);
    assert!(!ErrorKind::Parse.is_fatal());
}

#[test]
fn a_failed_download_keeps_the_previous_lock() {
    let mut site = curse_site(&[("weakauras", 2000), ("dbm", 3000)]);
    site.redirects.retain(|r| !r.0.contains("weakauras"));
    let addons = vec![curse("weakauras"), curse("dbm")];
    let before = LockStore::from_entries(&vec![weakauras_at(1000)]);
    let (store, summary) = run_to_the_end(&mut site, &addons, before, Some(1));
    assert_eq!(store.entries()[0], weakauras_at(1000));
    assert_eq!(store.entries()[1].name, "curse/dbm");
    assert_eq!(store.entries()[1].timestamp, 3000);
    assert_eq!(store.len(), 2);
    assert_eq!(summary.updated, vec!["curse/dbm"]);
    assert_eq!(
        summary.failed,
        vec![("curse/weakauras".to_string(), "transport error: no answer".to_string())]
    );
}

#[test]
fn a_run_without_addons_is_finished_at_once() {
    let run = Install::begin(&Vec::new(), LockStore::new(), None).unwrap();
    assert!(run.is_finished());
    assert_eq!(run.phase(), Phase::Downloading);
    assert_eq!(run.in_flight(), 0);
    let (run, job) = run.next_lock();
    assert_eq!(job, None);
    let (run, job) = run.next_download();
    assert_eq!(job, None);
    let (store, summary) = run.finish();
    assert_eq!(store.len(), 0);
    assert_eq!(summary, Summary { updated: Vec::new(), current: Vec::new(), failed: Vec::new() });
}

#[test]
fn an_unknown_provider_stops_the_run_before_it_begins() {
    let addons = vec![curse("weakauras"), Addon { name: "x".to_string(), provider: "nowhere".to_string() }];
    let error = Install::begin(&addons, LockStore::new(), None).unwrap_err();
    assert_eq!(error, SyncError::UnknownProvider { provider: "nowhere".to_string() });
    assert_eq!(error.kind(), ErrorKind::Config);
}

#[test]
fn no_download_starts_before_every_lock_is_resolved() {
    let addons = vec![curse("a"), curse("b"), curse("c")];
    let run = Install::begin(&addons, LockStore::new(), Some(2)).unwrap();
    assert_eq!(run.phase(), Phase::GettingLocks);
    let (run, download) = run.next_download();
    assert_eq!(download, None);
    let (run, first) = run.next_lock();
    let (run, second) = run.next_lock();
    let (run, third) = run.next_lock();
    assert_eq!(first.as_ref().map(|j| j.op), Some(0));
    assert_eq!(second.as_ref().map(|j| (j.op, j.addon.clone(), j.old_lock.clone())), Some((1, curse("b"), None)));
    assert_eq!(third, None);
    assert_eq!(run.in_flight(), 2);
    let lock_b = AddonLock { name: "curse/b".to_string(), resolved: "b".to_string(), version: "1".to_string(), timestamp: 9 };
    let run = run.lock_done(1, Ok(lock_b.clone()));
    let (run, download) = run.next_download();
    assert_eq!(download, None);
    assert_eq!(run.phase(), Phase::GettingLocks);
    let (run, third) = run.next_lock();
    assert_eq!(third.map(|j| j.op), Some(2));
    let run = run.lock_done(0, Err(SyncError::Transport { reason: "down".to_string() }));
    assert_eq!(run.phase(), Phase::GettingLocks);
    let run = run.lock_done(5, Ok(lock_b.clone()));
    let run = run.lock_done(1, Ok(lock_b.clone()));
    assert_eq!(run.in_flight(), 1);
    let run = run.lock_done(2, Err(SyncError::Parse { fault: ParseFault::BadTimestamp }));
    assert_eq!(run.phase(), Phase::Downloading);
    assert!(!run.is_finished());
    let (run, lock_job) = run.next_lock();
    assert_eq!(lock_job, None);
    let (run, download) = run.next_download();
    assert_eq!(download, Some(DownloadJob { op: 0, addon: curse("b"), lock: lock_b.clone() }));
    let run = run.lock_done(0, Ok(lock_b.clone()));
    assert_eq!(run.in_flight(), 1);
    let run = run.download_done(0, Ok(()));
    assert!(run.is_finished());
    let (store, summary) = run.finish();
    assert_eq!(store.entries(), &vec![lock_b]);
    assert_eq!(summary.updated, vec!["curse/b"]);
    assert_eq!(
        summary.failed,
        vec![
            ("curse/a".to_string(), "transport error: down".to_string()),
            ("curse/c".to_string(), "parse error: upload time is not a number".to_string()),
        ]
    );
}

#[test]
fn the_limit_holds_in_both_stages() {
    let names = ["a", "b", "c", "d", "e", "f", "g"];
    for limit in 1..4usize {
        let listed: Vec<(&str, u64)> = names.iter().map(|n| (*n, 10)).collect();
        let mut site = curse_site(&listed);
        let addons: Vec<Addon> = names.iter().map(|n| curse(n)).collect();
        let (store, summary) = run_to_the_end(&mut site, &addons, LockStore::new(), Some(limit));
        assert_eq!(store.len(), names.len());
        assert_eq!(summary.updated.len(), names.len());
        assert_eq!(site.extracted.len(), names.len());
    }
}

#[test]
fn a_limit_of_zero_is_a_configuration_error() {
    let addons = vec![curse("weakauras")];
    let error = Install::begin(&addons, LockStore::new(), Some(0)).unwrap_err();
    assert_eq!(error, SyncError::ZeroLimit);
    assert!(error.kind().is_fatal());
    let addons = vec![Addon { name: "x".to_string(), provider: "nowhere".to_string() }];
    assert_eq!(Install::begin(&addons, LockStore::new(), Some(0)).unwrap_err(), SyncError::ZeroLimit);
    assert_eq!(Install::begin(&Vec::new(), LockStore::new(), Some(0)).unwrap_err(), SyncError::ZeroLimit);
    assert!(Install::begin(&Vec::new(), LockStore::new(), Some(1)).is_ok());
}

#[test]
fn the_default_limit_is_five() {
    let addons: Vec<Addon> = ["a", "b", "c", "d", "e", "f", "g"].iter().map(|n| curse(n)).collect();
    let mut run = Install::begin(&addons, LockStore::new(), None).unwrap();
    let mut started = 0;
    loop {
        let (next, job) = run.next_lock();
        run = next;
        match job {
            Some(_) => started += 1,
            None => break,
        }
    }
    assert_eq!(started, 5);
    assert_eq!(run.in_flight(), 5);
}
