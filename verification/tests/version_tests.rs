use cs2_buttplug::version::{
    check_for_updates, check_repository, do_update_check, latest_version, read_versions, tag_versions,
    UpdateError, UpdateWarning,
};

const REPO: &str = "https://github.com/example/cs2-buttplug";

fn listing() -> String {
    [
        "1111111111111111111111111111111111111111 HEAD symref-target:refs/heads/main",
        "2222222222222222222222222222222222222222 refs/heads/main",
        "3333333333333333333333333333333333333333 refs/tags/v0.1.0",
        "4444444444444444444444444444444444444444 refs/tags/v0.4.0",
        "5555555555555555555555555555555555555555 refs/tags/v0.4.1 peeled:6666666666666666666666666666666666666666",
        "7777777777777777777777777777777777777777 refs/tags/v0.10.0-beta.1",
        "8888888888888888888888888888888888888888 refs/tags/release-2",
        "9999999999999999999999999999999999999999 refs/tags/vnext",
        "",
    ]
    .join("\n")
}

fn text(chars: &Vec<char>) -> String {
    chars.iter().collect()
}

#[test]
fn tag_versions_are_the_release_tags_without_their_prefix() {
    let t: Vec<String> = tag_versions(&listing()).iter().map(text).collect();
    assert_eq!(t, vec!["0.1.0", "0.4.0", "0.4.1", "0.10.0-beta.1", "next"]);
}

#[test]
fn tag_versions_take_the_second_word_of_each_line() {
    let data = "a\trefs/tags/v1.0.0\n  b   refs/tags/v2.0.0  extra\nrefs/tags/v3.0.0\n\nc refs/tags/v\nd\u{3000}refs/tags/v4.0.0";
    let t: Vec<String> = tag_versions(data).iter().map(text).collect();
    assert_eq!(t, vec!["1.0.0", "2.0.0", "", "4.0.0"]);
}

#[test]
fn unreadable_versions_are_skipped() {
    let texts: Vec<Vec<char>> = ["1.2.3", "next", "1.2", "v1.0.0", "2.0.0-rc.1+build.5"]
        .iter()
        .map(|s| s.chars().collect())
        .collect();
    let vs = read_versions(&texts);
    assert_eq!(vs.len(), 2);
    assert_eq!((vs[0].major(), vs[0].minor(), vs[0].patch()), (1, 2, 3));
    assert_eq!((vs[1].major(), vs[1].pre(), vs[1].build()), (2, "rc.1", "build.5"));
}

#[test]
fn versions_are_read_in_all_parts() {
    let texts: Vec<Vec<char>> = ["3.14.159-alpha.2+sha.abc", "3.14", ""].iter().map(|s| s.chars().collect()).collect();
    let vs = read_versions(&texts);
    assert_eq!(vs.len(), 1);
    let v = &vs[0];
    assert_eq!((v.major(), v.minor(), v.patch()), (3, 14, 159));
    assert_eq!(v.pre(), "alpha.2");
    assert_eq!(v.build(), "sha.abc");
}

#[test]
fn latest_is_the_greatest_in_semver_order() {
    let texts: Vec<Vec<char>> = ["0.9.0", "0.10.0", "1.0.0-rc.1", "0.2.0"]
        .iter()
        .map(|s| s.chars().collect())
        .collect();
    let v = latest_version(read_versions(&texts)).unwrap();
    assert_eq!((v.major(), v.minor(), v.patch(), v.pre()), (1, 0, 0, "rc.1"));
    assert!(latest_version(Vec::new()).is_none());
}

#[test]
fn a_release_beats_its_pre_release() {
    let texts: Vec<Vec<char>> = ["1.0.0", "1.0.0-rc.1"].iter().map(|s| s.chars().collect()).collect();
    let v = latest_version(read_versions(&texts)).unwrap();
    assert_eq!(v.pre(), "");
}

#[test]
fn of_equal_versions_the_last_is_the_latest() {
    let texts: Vec<Vec<char>> = ["1.0.0+a", "1.0.0+a"].iter().map(|s| s.chars().collect()).collect();
    let v = latest_version(read_versions(&texts)).unwrap();
    assert_eq!(v.build(), "a");
}

#[test]
fn newer_release_is_reported() {
    let r = do_update_check(REPO, Ok(Some(listing())), "0.4.0").unwrap().unwrap();
    assert_eq!((r.current.major(), r.current.minor(), r.current.patch()), (0, 4, 0));
    assert_eq!((r.latest.minor(), r.latest.patch(), r.latest.pre()), (10, 0, "beta.1"));
}

#[test]
fn up_to_date_gives_nothing() {
    assert!(do_update_check(REPO, Ok(Some(listing())), "0.10.0").unwrap().is_none());
    assert!(do_update_check(REPO, Ok(Some(listing())), "0.10.0-beta.1").unwrap().is_none());
    assert!(check_for_updates(REPO, Ok(Some(listing())), "1.0.0").is_none());
}

#[test]
fn each_failure_is_reported() {
    assert!(matches!(do_update_check("", Ok(Some(listing())), "0.4.0"), Err(UpdateError::RepositoryNotSet)));
    match do_update_check(REPO, Err("connection refused".to_string()), "0.4.0") {
        Err(UpdateError::Transport(m)) => assert_eq!(m, "connection refused"),
        _ => panic!("expected a transport error"),
    }
    assert!(matches!(do_update_check(REPO, Ok(None), "0.4.0"), Err(UpdateError::NoRefs)));
    assert!(matches!(
        do_update_check(REPO, Ok(Some("abc refs/heads/main\n".to_string())), "0.4.0"),
        Err(UpdateError::NoPublishedVersions)
    ));
    match do_update_check(REPO, Ok(Some(listing())), "0.4") {
        Err(UpdateError::InvalidCurrentVersion(reason)) => {
            assert_eq!(reason, semver::Version::parse("0.4").unwrap_err().to_string())
        }
        _ => panic!("expected an invalid current version"),
    }
}

#[test]
fn check_for_updates_warns_about_a_newer_release_or_a_failure() {
    match check_for_updates(REPO, Ok(Some(listing())), "0.1.0") {
        Some(UpdateWarning::NewerRelease(n)) => assert_eq!(n.latest.minor(), 10),
        _ => panic!("expected a newer release"),
    }
    assert!(matches!(
        check_for_updates("", Ok(None), "0.1.0"),
        Some(UpdateWarning::CheckFailed(UpdateError::RepositoryNotSet))
    ));
    assert!(matches!(
        check_for_updates(REPO, Ok(None), "0.1.0"),
        Some(UpdateWarning::CheckFailed(UpdateError::NoRefs))
    ));
}

fn std_tag_versions(data: &str) -> Vec<String> {
    data.split('\n')
        .filter_map(|line| line.split_whitespace().nth(1))
        .filter_map(|name| name.strip_prefix("refs/tags/v"))
        .map(|s| s.to_string())
        .collect()
}

#[test]
fn tag_versions_split_as_std_splits() {
    let cases = [
        "",
        "\n",
        "x refs/tags/v1\r\ny\trefs/tags/v2\r\n",
        "a\u{85}refs/tags/v1.0.0\nb\u{a0}refs/tags/v2.0.0\nc\u{2028}refs/tags/v3.0.0",
        "a\u{200b}refs/tags/v1.0.0\nb\u{feff}refs/tags/v2.0.0 x",
        "a\u{1680}refs/tags/v1\nb\u{2000}refs/tags/v2\nc\u{200a}refs/tags/v3\nd\u{202f}refs/tags/v4\ne\u{205f}refs/tags/v5\nf\u{3000}refs/tags/v6\ng\u{b}refs/tags/v7\nh\u{c}refs/tags/v8",
        "  \t refs/tags/v9.9.9",
        "one two three\nrefs/tags/v1 refs/tags/v2",
    ];
    for data in cases {
        let ours: Vec<String> = tag_versions(data).iter().map(text).collect();
        assert_eq!(ours, std_tag_versions(data), "{:?}", data);
    }
}

#[test]
fn only_a_named_repository_is_reached() {
    assert!(check_repository(REPO).is_ok());
    assert!(matches!(check_repository(""), Err(UpdateError::RepositoryNotSet)));
}
