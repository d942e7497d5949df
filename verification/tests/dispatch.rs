use wam::addon::{Addon, AddonLock};
use wam::error::{ErrorKind, SyncError};
use wam::providers::{download_addon, get_lock, DownloadInner, LockInner, Poll};

fn declared(provider: &str, name: &str) -> Addon {
    Addon { name: name.to_string(), provider: provider.to_string() }
}

fn resolved(key: &str, id: &str) -> AddonLock {
    AddonLock { name: key.to_string(), resolved: id.to_string(), version: "1".to_string(), timestamp: 1 }
}

#[test]
fn each_provider_has_its_machine() {
    let machine = get_lock((declared("curse", "dbm"), None)).unwrap();
    assert!(matches!(machine.inner, LockInner::CurseLockFuture(_)));
    let machine = get_lock((declared("ace", "ace3"), None)).unwrap();
    assert!(matches!(machine.inner, LockInner::CurseLockFuture(_)));
    let machine = get_lock((declared("tukui", "elvui"), None)).unwrap();
    assert!(matches!(machine.inner, LockInner::TukLockFuture(_)));
    let machine = download_addon((declared("curse", "dbm"), resolved("curse/dbm", "dbm"))).unwrap();
    assert!(matches!(machine.inner, DownloadInner::CurseDownloadFuture(_)));
    let machine = download_addon((declared("tukui", "x"), resolved("tukui/x", "4"))).unwrap();
    assert!(matches!(machine.inner, DownloadInner::TukDownloadFuture(_)));
}

#[test]
fn an_unknown_provider_is_a_declared_configuration_error() {
    for provider in ["wowinterface", "wowi", "", "CURSE", "Curse ", " tukui", "curse/"] {
        let expected = SyncError::UnknownProvider { provider: provider.to_string() };
        assert_eq!(get_lock((declared(provider, "dbm"), None)), Err(expected.clone()));
        assert_eq!(
            get_lock((declared(provider, "dbm"), Some(resolved("x/dbm", "42")))),
            Err(expected.clone())
        );
        assert_eq!(
            download_addon((declared(provider, "dbm"), resolved("x/dbm", "dbm"))),
            Err(expected.clone())
        );
        assert_eq!(expected.kind(), ErrorKind::Config);
        assert!(expected.kind().is_fatal());
    }
    assert_eq!(
        get_lock((declared("github", "dbm"), None)).unwrap_err().describe(),
        "config error: unknown provider github"
    );
}

#[test]
fn polls_go_to_the_machine_of_the_provider() {
    let mut machine = get_lock((declared("ace", "ace3"), None)).unwrap();
    assert_eq!(
        machine.poll(None).poll,
        Poll::Get { url: "https://wowace.com/projects/ace3/files?sort=releasetype".to_string() }
    );
    let mut machine =
        get_lock((declared("tukui", "addonx"), Some(resolved("tukui/addonx", "42")))).unwrap();
    assert_eq!(
        machine.poll(None).poll,
        Poll::Get { url: "https://www.tukui.org/addons.php?id=42".to_string() }
    );
    let mut machine =
        get_lock((declared("curse", "addonx"), Some(resolved("curse/addonx", "42")))).unwrap();
    assert_eq!(
        machine.poll(None).poll,
        Poll::Get {
            url: "https://wow.curseforge.com/projects/addonx/files?sort=releasetype".to_string()
        }
    );
    let mut machine = download_addon((declared("tukui", "tukui"), resolved("tukui/tukui", "tukui"))).unwrap();
    assert_eq!(
        machine.poll(None).poll,
        Poll::Get { url: "https://www.tukui.org/welcome.php".to_string() }
    );
    let mut machine = download_addon((declared("curse", "dbm"), resolved("curse/dbm", "dbm"))).unwrap();
    assert_eq!(
        machine.poll(None).poll,
        Poll::Open { url: "https://wow.curseforge.com/projects/dbm/files/latest".to_string() }
    );
}
