use ci_mirrors::entry::MirrorFile;
use ci_mirrors::source::{Source, SourceUrl};
use ci_mirrors::storage::FileStatus;
use ci_mirrors::upload::{
    check_status, plan_message, uploading_message, Action, Event, Outcome, Run, Stage,
};

fn managed(name: &str, sha256: &str, source: &str) -> MirrorFile {
    MirrorFile {
        name: String::from(name),
        sha256: String::from(sha256),
        source: Source::Url(SourceUrl::parse(source).unwrap()),
        rename_from: None,
    }
}

fn legacy(name: &str, sha256: &str) -> MirrorFile {
    MirrorFile {
        name: String::from(name),
        sha256: String::from(sha256),
        source: Source::Legacy,
        rename_from: None,
    }
}

fn present(sha256: &str) -> FileStatus {
    FileStatus::Present { sha256: String::from(sha256) }
}

fn foo() -> MirrorFile {
    managed("tools/foo.tar", "abc123", "https://example/foo.tar")
}

fn started(files: Vec<MirrorFile>, errors: Vec<String>, skip_upload: bool) -> Run {
    let mut run = Run::new(files, errors, skip_upload);
    assert_eq!(run.stage(), Stage::Fresh);
    assert_eq!(run.step(Event::Begin), Action::CheckStatuses);
    assert_eq!(run.stage(), Stage::Statuses);
    run
}

#[test]
fn a_missing_file_is_fetched_verified_and_written_with_its_hash() {
    let mut run = started(vec![foo()], vec![], false);
    assert_eq!(
        run.step(Event::Statuses(vec![FileStatus::Missing])),
        Action::Fetch { index: 0, url: String::from("https://example/foo.tar") }
    );
    assert_eq!(run.to_upload(), &vec![foo()]);
    assert_eq!(run.stage(), Stage::Fetching(0));
    assert_eq!(
        run.step(Event::Fetched(String::from("abc123"))),
        Action::PutContent { index: 0, key: String::from("tools/foo.tar") }
    );
    assert_eq!(
        run.step(Event::Written),
        Action::PutSidecar {
            key: String::from("tools/foo.tar.sha256"),
            contents: b"abc123".to_vec(),
        }
    );
    assert_eq!(run.step(Event::Written), Action::Finish(Outcome::Uploaded));
    assert_eq!(run.stage(), Stage::Done);
    assert!(run.errors().is_empty());
}

#[test]
fn content_with_another_hash_is_never_written() {
    let mut run = started(vec![foo()], vec![], false);
    run.step(Event::Statuses(vec![FileStatus::Missing]));
    let wrong = String::from("the hash of https://example/foo.tar doesn't match (expected abc123, downloaded 999)");
    assert_eq!(
        run.step(Event::Fetched(String::from("999"))),
        Action::Finish(Outcome::Failed(vec![wrong]))
    );
    assert_eq!(run.stage(), Stage::Done);
}

#[test]
fn other_content_in_the_store_fails_the_run_without_a_write() {
    let mut run = started(vec![foo()], vec![], false);
    let action = run.step(Event::Statuses(vec![present("def456")]));
    assert_eq!(
        action,
        Action::Finish(Outcome::Failed(vec![String::from(
            "file tools/foo.tar was already uploaded with different content"
        )]))
    );
    assert!(run.to_upload().is_empty());
    assert_eq!(run.stage(), Stage::Done);
}

#[test]
fn a_file_without_a_hash_in_the_store_fails_the_run() {
    let mut run = started(vec![foo()], vec![], false);
    assert_eq!(
        run.step(Event::Statuses(vec![FileStatus::Legacy])),
        Action::Finish(Outcome::Failed(vec![String::from(
            "file tools/foo.tar was already uploaded without this tool"
        )]))
    );
}

#[test]
fn a_store_that_has_everything_is_up_to_date() {
    let files = vec![foo(), legacy("old", "77")];
    let mut run = started(files, vec![], false);
    assert_eq!(
        run.step(Event::Statuses(vec![present("abc123"), present("77")])),
        Action::Finish(Outcome::UpToDate)
    );
    assert!(run.to_upload().is_empty());
}

#[test]
fn a_second_run_after_an_upload_writes_nothing() {
    let files = vec![foo(), managed("b", "0b", "https://example/b")];
    let mut first = started(files.clone(), vec![], false);
    let mut written: Vec<(String, Vec<u8>)> = Vec::new();
    let mut action = first.step(Event::Statuses(vec![FileStatus::Missing, FileStatus::Missing]));
    loop {
        action = match action {
            Action::Fetch { index, .. } => {
                first.step(Event::Fetched(first.to_upload()[index].sha256.clone()))
            }
            Action::PutContent { key, .. } => {
                written.push((key, b"content".to_vec()));
                first.step(Event::Written)
            }
            Action::PutSidecar { key, contents } => {
                written.push((key, contents));
                first.step(Event::Written)
            }
            Action::Finish(outcome) => {
                assert_eq!(outcome, Outcome::Uploaded);
                break;
            }
            Action::CheckStatuses => unreachable!(),
        };
    }
    assert_eq!(
        written.iter().map(|(key, _)| key.as_str()).collect::<Vec<_>>(),
        vec!["tools/foo.tar", "tools/foo.tar.sha256", "b", "b.sha256"]
    );
    // The store now answers with what was written.
    let statuses = files
        .iter()
        .map(|file| {
            let sidecar = written
                .iter()
                .find(|(key, _)| *key == ci_mirrors::storage::sidecar_key(&file.name))
                .map(|(_, contents)| String::from_utf8(contents.clone()).unwrap());
            let exists = written.iter().any(|(key, _)| *key == file.name);
            ci_mirrors::storage::file_status(sidecar, exists)
        })
        .collect();
    let mut second = started(files, vec![], false);
    assert_eq!(second.step(Event::Statuses(statuses)), Action::Finish(Outcome::UpToDate));
}

#[test]
fn with_skip_upload_nothing_is_written() {
    let mut run = started(vec![foo()], vec![], true);
    run.step(Event::Statuses(vec![FileStatus::Missing]));
    assert_eq!(run.step(Event::Fetched(String::from("abc123"))), Action::Finish(Outcome::Skipped));
    assert_eq!(run.stage(), Stage::Done);
}

#[test]
fn errors_from_loading_fail_the_run_after_all_checks() {
    let known = String::from("known before");
    let mut run = started(vec![foo()], vec![known.clone()], false);
    // The file is still fetched, so that everything wrong shows in one run.
    assert_eq!(
        run.step(Event::Statuses(vec![FileStatus::Missing])),
        Action::Fetch { index: 0, url: String::from("https://example/foo.tar") }
    );
    assert_eq!(
        run.step(Event::Fetched(String::from("abc123"))),
        Action::Finish(Outcome::Failed(vec![known]))
    );
}

#[test]
fn every_error_is_gathered_in_order() {
    let files = vec![
        managed("a", "1", "https://example/a"),
        managed("b", "2", "https://example/b"),
        legacy("c", "3"),
        managed("d", "4", "https://example/d"),
        managed("e", "5", "https://example/e"),
        managed("f", "6", "https://example/f"),
    ];
    let mut run = started(files, vec![String::from("from loading")], false);
    let action = run.step(Event::Statuses(vec![
        FileStatus::Legacy,
        FileStatus::Missing,
        FileStatus::Missing,
        present("other"),
        FileStatus::Missing,
        present("6"),
    ]));
    assert_eq!(run.to_upload().len(), 3);
    assert_eq!(action, Action::Fetch { index: 0, url: String::from("https://example/b") });
    // The legacy file that follows cannot be fetched; the run goes on to the next.
    assert_eq!(
        run.step(Event::FetchFailed(String::from("connection reset"))),
        Action::Fetch { index: 2, url: String::from("https://example/e") }
    );
    assert_eq!(
        run.step(Event::Fetched(String::from("5"))),
        Action::Finish(Outcome::Failed(vec![
            String::from("from loading"),
            String::from("file a was already uploaded without this tool"),
            String::from("file d was already uploaded with different content"),
            String::from("connection reset"),
            String::from("cannot download legacy file c"),
        ]))
    );
}

#[test]
fn files_are_written_one_after_the_other() {
    let files = vec![managed("a", "1", "https://example/a"), managed("b", "2", "https://example/b")];
    let mut run = started(files, vec![], false);
    run.step(Event::Statuses(vec![FileStatus::Missing, FileStatus::Missing]));
    assert_eq!(
        run.step(Event::Fetched(String::from("1"))),
        Action::Fetch { index: 1, url: String::from("https://example/b") }
    );
    assert_eq!(
        run.step(Event::Fetched(String::from("2"))),
        Action::PutContent { index: 0, key: String::from("a") }
    );
    assert_eq!(
        run.step(Event::Written),
        Action::PutSidecar { key: String::from("a.sha256"), contents: b"1".to_vec() }
    );
    assert_eq!(run.step(Event::Written), Action::PutContent { index: 1, key: String::from("b") });
    assert_eq!(run.stage(), Stage::Content(1));
    assert_eq!(
        run.step(Event::Written),
        Action::PutSidecar { key: String::from("b.sha256"), contents: b"2".to_vec() }
    );
    assert_eq!(run.stage(), Stage::Sidecar(1));
    assert_eq!(run.step(Event::Written), Action::Finish(Outcome::Uploaded));
}

#[test]
fn no_files_means_up_to_date() {
    let mut run = started(vec![], vec![], false);
    assert_eq!(run.step(Event::Statuses(vec![])), Action::Finish(Outcome::UpToDate));
}

#[test]
fn an_event_out_of_turn_ends_the_run() {
    let mut run = Run::new(vec![foo()], vec![], false);
    assert_eq!(run.step(Event::Written), Action::Finish(Outcome::Misused));
    assert_eq!(run.stage(), Stage::Done);
    assert_eq!(run.step(Event::Begin), Action::Finish(Outcome::Misused));

    let mut run = started(vec![foo()], vec![], false);
    assert_eq!(run.step(Event::Statuses(vec![])), Action::Finish(Outcome::Misused));

    let mut run = started(vec![foo()], vec![], false);
    run.step(Event::Statuses(vec![FileStatus::Missing]));
    assert_eq!(run.step(Event::Written), Action::Finish(Outcome::Misused));
    assert_eq!(run.files().len(), 1);
}

#[test]
fn statuses_are_judged_one_by_one() {
    assert_eq!(check_status(&foo(), &FileStatus::Missing), None);
    assert_eq!(check_status(&foo(), &present("abc123")), None);
    assert_eq!(
        check_status(&foo(), &present("ABC123")),
        Some(String::from("file tools/foo.tar was already uploaded with different content"))
    );
    assert_eq!(
        check_status(&foo(), &FileStatus::Legacy),
        Some(String::from("file tools/foo.tar was already uploaded without this tool"))
    );
}

#[test]
fn outcomes_are_reported_line_by_line() {
    assert_eq!(Outcome::UpToDate.report(), vec![String::from("everything is up to date!")]);
    assert_eq!(
        Outcome::Skipped.report(),
        vec![String::from("skipping upload due to --skip-upload")]
    );
    assert_eq!(Outcome::Uploaded.report(), Vec::<String>::new());
    assert_eq!(
        Outcome::Failed(vec![String::from("one"), String::from("two\nlines")]).report(),
        vec![
            String::from("Found 2 error(s)"),
            String::from("error: one"),
            String::from("error: two\nlines"),
        ]
    );
    assert_eq!(Outcome::Misused.report().len(), 1);
    assert!(Outcome::UpToDate.is_success());
    assert!(Outcome::Skipped.is_success());
    assert!(Outcome::Uploaded.is_success());
    assert!(!Outcome::Failed(vec![]).is_success());
    assert!(!Outcome::Misused.is_success());
}

#[test]
fn progress_is_announced() {
    assert_eq!(
        plan_message(12, 100),
        "calculating the changes to execute (12 files, 100 parallelism)..."
    );
    assert_eq!(uploading_message("tools/foo.tar"), "uploading tools/foo.tar...");
}
