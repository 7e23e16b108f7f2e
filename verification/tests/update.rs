use neutun_control::update::{
    check_inner, compare_versions, offer, strip_leading_vs, Latest, Standing, Update,
    VersionError,
};

fn release(name: &str) -> Latest {
    Latest::Release(Update {
        html_url: "https://example.com/releases/latest".to_string(),
        name: name.to_string(),
    })
}

#[test]
fn no_release_is_no_update() {
    assert!(matches!(check_inner("1.0.0", Latest::NotFound), Ok(None)));
    // Not even the current version is read then.
    assert!(matches!(check_inner("garbage", Latest::NotFound), Ok(None)));
}

#[test]
fn newer_release_is_offered() {
    let r = check_inner("1.2.3", release("v1.2.4")).unwrap().unwrap();
    assert_eq!(r.name, "v1.2.4");
    assert_eq!(r.html_url, "https://example.com/releases/latest");
    assert!(check_inner("1.2.3", release("2.0.0")).unwrap().is_some());
    assert!(check_inner("1.5.0", release("v1.19.0")).unwrap().is_some());
    assert!(check_inner("1.0.0-alpha", release("v1.0.0")).unwrap().is_some());
}

#[test]
fn same_or_older_release_is_not_offered() {
    assert!(check_inner("1.2.3", release("v1.2.3")).unwrap().is_none());
    assert!(check_inner("1.2.3", release("v1.2.2")).unwrap().is_none());
    assert!(check_inner("1.19.0", release("1.5.0")).unwrap().is_none());
    assert!(check_inner("1.0.0", release("v1.0.0-rc.1")).unwrap().is_none());
}

#[test]
fn unreadable_versions_are_errors() {
    assert_eq!(check_inner("one", release("v1.0.0")).err(), Some(VersionError::Current));
    assert_eq!(check_inner("1.0.0", release("latest")).err(), Some(VersionError::Release));
    assert_eq!(check_inner("1.0.0", release("v")).err(), Some(VersionError::Release));
    assert_eq!(check_inner("1.0.0", release("V1.0.1")).err(), Some(VersionError::Release));
    assert_eq!(check_inner("1.0", release("1.0.1")).err(), Some(VersionError::Current));
    // The current version is read first.
    assert_eq!(check_inner("one", release("two")).err(), Some(VersionError::Current));
    // Only what the name begins with is stripped.
    assert_eq!(check_inner("v1.0.0", release("v1.0.1")).err(), Some(VersionError::Current));
}

#[test]
fn every_leading_v_is_stripped() {
    assert_eq!(strip_leading_vs("v1.2.3"), "1.2.3");
    assert_eq!(strip_leading_vs("vvv1.2.3"), "1.2.3");
    assert_eq!(strip_leading_vs("1.2.3v"), "1.2.3v");
    assert_eq!(strip_leading_vs("vvv"), "");
    assert_eq!(strip_leading_vs(""), "");
    assert_eq!(strip_leading_vs("V1"), "V1");
    assert_eq!(strip_leading_vs("v\u{e9}v"), "\u{e9}v");
    assert!(check_inner("1.0.0", release("vv1.0.1")).unwrap().is_some());
}

#[test]
fn clone_keeps_the_release() {
    let u = Update { html_url: "u".to_string(), name: "n".to_string() };
    let c = u.clone();
    assert_eq!(c.html_url, "u");
    assert_eq!(c.name, "n");
}

#[test]
fn versions_are_compared_as_versions() {
    assert_eq!(compare_versions("1.2.3", "1.2.4"), Standing::Newer);
    assert_eq!(compare_versions("1.2.3", "1.10.0"), Standing::Newer);
    assert_eq!(compare_versions("1.2.3", "1.2.3"), Standing::NotNewer);
    assert_eq!(compare_versions("1.2.3", "0.9.9"), Standing::NotNewer);
    assert_eq!(compare_versions("1.0.0-beta.2", "1.0.0-beta.11"), Standing::Newer);
    assert_eq!(compare_versions("x", "1.0.0"), Standing::CurrentUnreadable);
    assert_eq!(compare_versions("x", "y"), Standing::CurrentUnreadable);
    assert_eq!(compare_versions("1.0.0", "y"), Standing::ReleaseUnreadable);
    assert_eq!(compare_versions("1.0.0", ""), Standing::ReleaseUnreadable);
}

#[test]
fn offer_follows_the_standing() {
    let update = || Update { html_url: "u".to_string(), name: "n".to_string() };
    assert_eq!(offer(update(), Standing::Newer).unwrap().unwrap().name, "n");
    assert!(offer(update(), Standing::NotNewer).unwrap().is_none());
    assert_eq!(offer(update(), Standing::CurrentUnreadable).err(), Some(VersionError::Current));
    assert_eq!(offer(update(), Standing::ReleaseUnreadable).err(), Some(VersionError::Release));
}
