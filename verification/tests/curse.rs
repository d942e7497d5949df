use wam::addon::{Addon, AddonLock};
use wam::error::{ParseFault, SyncError};
use wam::progress::ProgressUpdate;
use wam::providers::curse::{
    download_addon, get_lock, lock_from_body, lock_from_rows, newest_file, rows_from_matches,
    upload_time, DownloadInner, LockInner,
};
use wam::providers::{Outcome, Poll, Turn};

fn curse_addon(name: &str) -> Addon {
    Addon { name: name.to_string(), provider: "curse".to_string() }
}

fn ace_addon(name: &str) -> Addon {
    Addon { name: name.to_string(), provider: "ace".to_string() }
}

fn row(version: &str, epoch: &str) -> (Option<String>, Option<String>) {
    (Some(version.to_string()), Some(epoch.to_string()))
}

fn files_page(files: &[(&str, &str)]) -> Vec<u8> {
    let mut page = String::from("<html><head><title>Files</title></head><body><ul class=\"listing\">");
    for (version, epoch) in files {
        page.push_str("<li class=\"project-file-list-item\">");
        page.push_str("<div class=\"project-file-release-type\"><div class=\"release-phase\"></div></div>");
        page.push_str("<div class=\"project-file-name\"><div class=\"project-file-name-container\">");
        page.push_str("<a class=\"overflow-tip twitch-link\" href=\"/projects/x/files/1\" data-action=\"file-link\">");
        page.push_str(version);
        page.push_str("</a></div></div>");
        page.push_str("<div class=\"project-file-date-uploaded\"><abbr class=\"tip standard-date\" title=\"then\" data-epoch=\"");
        page.push_str(epoch);
        page.push_str("\">some day</abbr></div></li>");
    }
    page.push_str("</ul></body></html>");
    page.into_bytes()
}

fn started_note(subject: &str, step: &'static str) -> Option<ProgressUpdate> {
    Some(ProgressUpdate::Started { subject: subject.to_string(), step })
}

fn progressed_note(subject: &str, step: &'static str) -> Option<ProgressUpdate> {
    Some(ProgressUpdate::Progressed { subject: subject.to_string(), step })
}

fn done_note(subject: &str) -> Option<ProgressUpdate> {
    Some(ProgressUpdate::Done { subject: subject.to_string() })
}

fn sample_lock() -> AddonLock {
    AddonLock {
        name: "curse/weakauras".to_string(),
        resolved: "weakauras".to_string(),
        version: "2.5.0".to_string(),
        timestamp: 1000,
    }
}

#[test]
fn newest_file_is_the_one_with_the_greatest_epoch() {
    let rows = vec![row("1.0-release", "100"), row("1.2-alpha", "300"), row("1.1-beta", "200")];
    assert_eq!(newest_file(&rows), Ok(("1.2-alpha".to_string(), 300)));
    let rows = vec![row("3", "3"), row("2", "2"), row("1", "1")];
    assert_eq!(newest_file(&rows), Ok(("3".to_string(), 3)));
    let rows = vec![row("only", "0")];
    assert_eq!(newest_file(&rows), Ok(("only".to_string(), 0)));
}

#[test]
fn of_equally_new_files_the_later_listed_wins() {
    let rows = vec![row("a", "5"), row("b", "7"), row("c", "7"), row("d", "6")];
    assert_eq!(newest_file(&rows), Ok(("c".to_string(), 7)));
    let expected = rows
        .iter()
        .map(|r| (r.0.clone().unwrap(), r.1.clone().unwrap().parse::<u64>().unwrap()))
        .max_by_key(|item| item.1);
    assert_eq!(newest_file(&rows).ok(), expected);
}

#[test]
fn a_page_without_files_resolves_nothing() {
    assert_eq!(newest_file(&Vec::new()), Err(ParseFault::MissingElement));
    assert_eq!(
        lock_from_rows(&curse_addon("x"), &Vec::new()),
        Err(SyncError::Parse { fault: ParseFault::MissingElement })
    );
}

#[test]
fn a_file_that_cannot_be_read_fails_the_resolution() {
    let rows = vec![row("a", "5"), (None, Some("9".to_string())), row("c", "x")];
    assert_eq!(newest_file(&rows), Err(ParseFault::MissingElement));
    let rows = vec![row("a", "5"), (Some("b".to_string()), None)];
    assert_eq!(newest_file(&rows), Err(ParseFault::MissingElement));
    let rows = vec![row("a", "5"), row("b", "soon"), (None, None)];
    assert_eq!(newest_file(&rows), Err(ParseFault::BadTimestamp));
    let rows = vec![row("a", "-5")];
    assert_eq!(newest_file(&rows), Err(ParseFault::BadTimestamp));
    let rows = vec![row("a", "")];
    assert_eq!(newest_file(&rows), Err(ParseFault::BadTimestamp));
    assert_eq!(upload_time(&row("a", "12")), Ok(12));
    assert_eq!(upload_time(&(None, None)), Err(ParseFault::MissingElement));
}

#[test]
fn of_several_labels_or_dates_in_an_item_the_first_counts() {
    let found = vec![
        (vec!["1.0".to_string(), "changelog".to_string()], vec![Some("5".to_string()), Some("9".to_string())]),
        (Vec::new(), vec![Some("6".to_string())]),
        (vec!["1.2".to_string()], Vec::new()),
        (vec!["1.3".to_string()], vec![None, Some("7".to_string())]),
    ];
    assert_eq!(
        rows_from_matches(&found),
        vec![
            row("1.0", "5"),
            (None, Some("6".to_string())),
            (Some("1.2".to_string()), None),
            (Some("1.3".to_string()), None),
        ]
    );
    assert_eq!(rows_from_matches(&Vec::new()), Vec::new());
    let body = b"<div class=\"project-file-list-item\"><div class=\"project-file-name\">\
        <a data-action=\"file-link\">first</a><a data-action=\"file-link\">second</a></div>\
        <div class=\"project-file-date-uploaded\"><abbr data-epoch=\"11\">a</abbr><abbr data-epoch=\"22\">b</abbr></div></div>"
        .to_vec();
    let lock = lock_from_body(&curse_addon("x"), body).unwrap();
    assert_eq!((lock.version.as_str(), lock.timestamp), ("first", 11));
}

#[test]
fn lock_names_the_addon_by_its_own_slug() {
    let rows = vec![row("2.4", "900"), row("2.5.0", "1000")];
    assert_eq!(lock_from_rows(&curse_addon("weakauras"), &rows), Ok(sample_lock()));
    let lock = lock_from_rows(&ace_addon("ace3"), &rows).unwrap();
    assert_eq!(lock.name, "ace/ace3");
    assert_eq!(lock.resolved, "ace3");
}

#[test]
fn lock_is_read_off_the_files_page() {
    let body = files_page(&[("2.5.0", "1000"), ("2.6.0-alpha", "1500"), ("2.4.9", "900")]);
    assert_eq!(
        lock_from_body(&curse_addon("weakauras"), body),
        Ok(AddonLock {
            name: "curse/weakauras".to_string(),
            resolved: "weakauras".to_string(),
            version: "2.6.0-alpha".to_string(),
            timestamp: 1500,
        })
    );
}

#[test]
fn a_page_of_another_structure_is_a_parse_error() {
    let body = b"<html><body><p>maintenance</p></body></html>".to_vec();
    assert_eq!(
        lock_from_body(&curse_addon("weakauras"), body),
        Err(SyncError::Parse { fault: ParseFault::MissingElement })
    );
    let body = b"<li class=\"project-file-list-item\"><div class=\"project-file-name\"><a data-action=\"file-link\">1.0</a></div></li>".to_vec();
    assert_eq!(
        lock_from_body(&curse_addon("weakauras"), body),
        Err(SyncError::Parse { fault: ParseFault::MissingElement })
    );
    let body = files_page(&[("1.0", "yesterday")]);
    assert_eq!(
        lock_from_body(&curse_addon("weakauras"), body),
        Err(SyncError::Parse { fault: ParseFault::BadTimestamp })
    );
    assert_eq!(
        lock_from_body(&curse_addon("weakauras"), Vec::new()),
        Err(SyncError::Parse { fault: ParseFault::MissingElement })
    );
}

#[test]
fn a_body_that_is_not_utf8_is_a_parse_error() {
    let mut body = files_page(&[("1.0", "5")]);
    body.push(0xff);
    assert_eq!(
        lock_from_body(&curse_addon("weakauras"), body),
        Err(SyncError::Parse { fault: ParseFault::NotUtf8 })
    );
    assert_eq!(
        lock_from_body(&curse_addon("weakauras"), vec![0xc3]),
        Err(SyncError::Parse { fault: ParseFault::NotUtf8 })
    );
}

#[test]
fn text_beyond_ascii_is_kept() {
    let body = files_page(&[("v1.0 – «bêta»", "5")]);
    assert_eq!(lock_from_body(&curse_addon("x"), body).unwrap().version, "v1.0 – «bêta»");
}

#[test]
fn resolution_asks_for_the_files_page_sorted_by_release_type() {
    let mut machine = get_lock(curse_addon("weakauras"));
    assert_eq!(machine.inner, LockInner::Idle);
    assert_eq!(
        machine.poll(None),
        Turn {
            poll: Poll::Get {
                url: "https://wow.curseforge.com/projects/weakauras/files?sort=releasetype"
                    .to_string()
            },
            note: started_note("weakauras", "downloading metadata"),
        }
    );
    assert_eq!(machine.inner, LockInner::Downloading);
    let mut machine = get_lock(ace_addon("ace3"));
    assert_eq!(
        machine.poll(None).poll,
        Poll::Get { url: "https://wowace.com/projects/ace3/files?sort=releasetype".to_string() }
    );
}

#[test]
fn resolution_ends_with_the_lock() {
    let mut machine = get_lock(curse_addon("weakauras"));
    machine.poll(None);
    assert_eq!(machine.poll(None), Turn { poll: Poll::Pending, note: None });
    assert_eq!(machine.poll(Some(Outcome::Stored)), Turn { poll: Poll::Pending, note: None });
    assert_eq!(machine.inner, LockInner::Downloading);
    let turn = machine.poll(Some(Outcome::Body { bytes: files_page(&[("2.5.0", "1000")]) }));
    assert_eq!(
        turn,
        Turn { poll: Poll::Ready((curse_addon("weakauras"), sample_lock())), note: done_note("weakauras") }
    );
    assert_eq!(machine.inner, LockInner::Finished);
    assert_eq!(machine.poll(None), Turn { poll: Poll::Pending, note: None });
    assert_eq!(
        machine.poll(Some(Outcome::Body { bytes: files_page(&[("2.5.0", "1000")]) })),
        Turn { poll: Poll::Pending, note: None }
    );
}

#[test]
fn resolution_fails_for_its_addon_only() {
    let mut machine = get_lock(curse_addon("weakauras"));
    machine.poll(None);
    let turn = machine.poll(Some(Outcome::Unreachable { reason: "connection refused".to_string() }));
    assert_eq!(
        turn,
        Turn {
            poll: Poll::Failed(SyncError::Transport { reason: "connection refused".to_string() }),
            note: done_note("weakauras"),
        }
    );
    assert_eq!(machine.inner, LockInner::Finished);
    let mut machine = get_lock(curse_addon("weakauras"));
    machine.poll(None);
    let turn = machine.poll(Some(Outcome::Body { bytes: b"<html></html>".to_vec() }));
    assert_eq!(
        turn.poll,
        Poll::Failed(SyncError::Parse { fault: ParseFault::MissingElement })
    );
    assert_eq!(turn.note, done_note("weakauras"));
}

#[test]
fn download_names_the_archive_after_the_redirected_address() {
    let mut machine = download_addon(curse_addon("weakauras"), sample_lock());
    assert_eq!(
        machine.poll(None),
        Turn {
            poll: Poll::Open {
                url: "https://wow.curseforge.com/projects/weakauras/files/latest".to_string()
            },
            note: started_note("weakauras", "reading filename"),
        }
    );
    assert_eq!(machine.inner, DownloadInner::ReadingFilename);
    assert_eq!(machine.poll(None), Turn { poll: Poll::Pending, note: None });
    let turn = machine.poll(Some(Outcome::Response {
        url: "https://media.forgecdn.net/files/2595/774/WeakAuras-2.5.0.zip".to_string(),
        disposition: Some("attachment; filename=other.zip".to_string()),
    }));
    assert_eq!(turn, Turn { poll: Poll::ReadBody, note: progressed_note("weakauras", "downloading") });
    assert_eq!(
        machine.inner,
        DownloadInner::Downloading { target: ".wam-temp/WeakAuras-2.5.0.zip".to_string() }
    );
    let turn = machine.poll(Some(Outcome::Body { bytes: vec![80, 75, 3, 4] }));
    assert_eq!(
        turn,
        Turn {
            poll: Poll::Store {
                path: ".wam-temp/WeakAuras-2.5.0.zip".to_string(),
                body: vec![80, 75, 3, 4]
            },
            note: progressed_note("weakauras", "writing file"),
        }
    );
    assert_eq!(machine.poll(None), Turn { poll: Poll::Pending, note: None });
    let turn = machine.poll(Some(Outcome::Stored));
    assert_eq!(
        turn,
        Turn {
            poll: Poll::Ready((".wam-temp/WeakAuras-2.5.0.zip".to_string(), sample_lock())),
            note: done_note("weakauras"),
        }
    );
    assert_eq!(machine.inner, DownloadInner::Finished);
    assert_eq!(machine.poll(Some(Outcome::Stored)), Turn { poll: Poll::Pending, note: None });
}

#[test]
fn download_from_ace_uses_its_own_host() {
    let mut machine = download_addon(ace_addon("ace3"), sample_lock());
    assert_eq!(
        machine.poll(None).poll,
        Poll::Open { url: "https://wowace.com/projects/ace3/files/latest".to_string() }
    );
}

#[test]
fn download_fails_when_the_file_cannot_be_written() {
    let mut machine = download_addon(curse_addon("weakauras"), sample_lock());
    machine.poll(None);
    machine.poll(Some(Outcome::Response { url: "https://host/a.zip".to_string(), disposition: None }));
    machine.poll(Some(Outcome::Body { bytes: vec![1] }));
    let turn = machine.poll(Some(Outcome::Unwritable { reason: "disk full".to_string() }));
    assert_eq!(
        turn,
        Turn {
            poll: Poll::Failed(SyncError::Storage { reason: "disk full".to_string() }),
            note: done_note("weakauras"),
        }
    );
    assert_eq!(machine.inner, DownloadInner::Finished);
    let mut machine = download_addon(curse_addon("weakauras"), sample_lock());
    machine.poll(None);
    let turn = machine.poll(Some(Outcome::Unreachable { reason: "no route".to_string() }));
    assert_eq!(turn.poll, Poll::Failed(SyncError::Transport { reason: "no route".to_string() }));
}
