use ci_mirrors::storage::{
    cdn_head_url, cdn_text_url, file_status, probe_exists, probe_sidecar, probe_start,
    read_status, sidecar_key, unexpected_status, unexpected_status_with, FileStatus, Lookup, Probe,
};

#[test]
fn the_hash_is_kept_beside_the_file() {
    assert_eq!(sidecar_key("tools/foo.tar"), "tools/foo.tar.sha256");
    assert_eq!(sidecar_key(""), ".sha256");
}

#[test]
fn a_probe_asks_for_the_hash_first() {
    assert_eq!(probe_start("tools/foo.tar"), Probe::GetText(String::from("tools/foo.tar.sha256")));
}

#[test]
fn a_hash_settles_the_status() {
    assert_eq!(
        probe_sidecar("tools/foo.tar", Some(String::from("def456\n"))),
        Probe::Done(FileStatus::Present { sha256: String::from("def456") })
    );
    assert_eq!(
        probe_sidecar("a", Some(String::from(""))),
        Probe::Done(FileStatus::Present { sha256: String::new() })
    );
}

#[test]
fn without_a_hash_the_file_is_asked_for() {
    assert_eq!(probe_sidecar("tools/foo.tar", None), Probe::Exists(String::from("tools/foo.tar")));
    assert_eq!(probe_exists(true), FileStatus::Legacy);
    assert_eq!(probe_exists(false), FileStatus::Missing);
}

#[test]
fn the_status_follows_from_both_answers() {
    assert_eq!(file_status(None, false), FileStatus::Missing);
    assert_eq!(file_status(None, true), FileStatus::Legacy);
    assert_eq!(
        file_status(Some(String::from("  abc  ")), false),
        FileStatus::Present { sha256: String::from("abc") }
    );
    assert_eq!(
        file_status(Some(String::from("abc")), true),
        FileStatus::Present { sha256: String::from("abc") }
    );
}

#[test]
fn cdn_urls_join_base_and_path() {
    assert_eq!(
        cdn_text_url("https://ci-mirrors.rust-lang.org", "gcc/g++.tar.sha256"),
        "https://ci-mirrors.rust-lang.org/gcc/g%2B%2B.tar.sha256"
    );
    assert_eq!(
        cdn_head_url("https://ci-mirrors.rust-lang.org", "gcc/g++.tar"),
        "https://ci-mirrors.rust-lang.org/gcc/g++.tar"
    );
    assert_eq!(cdn_text_url("", ""), "/");
}

#[test]
fn statuses_are_read_as_found_absent_or_unexpected() {
    assert_eq!(read_status(200), Lookup::Found);
    assert_eq!(read_status(404), Lookup::Absent);
    assert_eq!(read_status(403), Lookup::Absent);
    assert_eq!(read_status(500), Lookup::Unexpected);
    assert_eq!(read_status(204), Lookup::Unexpected);
    assert_eq!(read_status(301), Lookup::Unexpected);
    assert_eq!(read_status(0), Lookup::Unexpected);
}

#[test]
fn an_unexpected_status_is_named_with_its_reason() {
    assert_eq!(
        unexpected_status(500, "https://cdn/x"),
        "unexpected status 500 Internal Server Error when requesting https://cdn/x"
    );
    assert_eq!(
        unexpected_status(418, "u"),
        "unexpected status 418 I'm a teapot when requesting u"
    );
    assert_eq!(
        unexpected_status(599, "u"),
        "unexpected status 599 <unknown status code> when requesting u"
    );
}

#[test]
fn an_unexpected_status_agrees_with_how_the_status_shows_itself() {
    for code in [100u16, 201, 302, 400, 401, 429, 502, 503, 999] {
        let status = reqwest::StatusCode::from_u16(code).unwrap();
        assert_eq!(
            unexpected_status(code, "URL"),
            format!("unexpected status {status} when requesting URL")
        );
    }
}

#[test]
fn the_reason_can_be_given() {
    assert_eq!(
        unexpected_status_with(500, Some("Oops"), "u"),
        "unexpected status 500 Oops when requesting u"
    );
    assert_eq!(
        unexpected_status_with(7, None, "u"),
        "unexpected status 7 <unknown status code> when requesting u"
    );
}
