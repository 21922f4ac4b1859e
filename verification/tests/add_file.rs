use ci_mirrors::add_file::{add_file, entry_block, new_entry, rename_hint};
use ci_mirrors::entry::{
    read_entry, read_legacy, read_managed, read_managed_with, ManifestFile, ManifestFileLegacy,
    ManifestFileManaged, MirrorFile,
};
use ci_mirrors::document::RawField;
use ci_mirrors::manifest::load_manifests;
use ci_mirrors::source::{Source, SourceUrl};
use ci_mirrors::utils::Sha256;

fn url(text: &str) -> SourceUrl {
    SourceUrl::parse(text).unwrap()
}

fn load_one(text: &str) -> (Vec<MirrorFile>, Vec<String>) {
    load_manifests(&vec![(String::from("new.toml"), String::from(text))]).unwrap()
}

#[test]
fn urls_are_kept_in_normal_form() {
    let parsed = url("HTTPS://Example.COM:443/a/../b/c.tar?q#f");
    assert_eq!(parsed.as_str(), "https://example.com/b/c.tar?q#f");
    assert_eq!(parsed.path(), "/b/c.tar");
    assert_eq!(parsed.file_name(), "c.tar");
    assert_eq!(url("https://example.com").path(), "/");
    assert_eq!(url("https://example.com").file_name(), "");
    assert!(SourceUrl::parse("not a url").is_none());
    assert!(SourceUrl::parse("").is_none());
    assert!(SourceUrl::parse("/relative/path").is_none());
}

#[test]
fn a_rename_hint_is_given_where_the_names_differ() {
    assert_eq!(rename_hint(&url("https://e.com/dl/foo.tar"), "tools/foo.tar"), None);
    assert_eq!(
        rename_hint(&url("https://e.com/dl/foo-1.0.tar"), "tools/foo.tar"),
        Some(String::from("foo-1.0.tar"))
    );
    assert_eq!(rename_hint(&url("https://e.com/foo.tar"), "foo.tar"), None);
    assert_eq!(rename_hint(&url("https://e.com/"), "foo.tar"), Some(String::new()));
}

#[test]
fn a_new_entry_is_written_as_a_block() {
    let mut hash = Sha256::new();
    hash.update(b"abc");
    let text = add_file(
        url("https://example.com/dl/abc-1.txt"),
        String::from("text/abc.txt"),
        &hash,
        Some(String::from("MIT")),
        true,
    )
    .unwrap();
    assert_eq!(
        text,
        "\n[[files]]\nname = \"text/abc.txt\"\nsha256 = \"ba7816bf8f01cfea414140de5dae2223b00361a396177a9cb410ff61f20015ad\"\nsource = \"https://example.com/dl/abc-1.txt\"\nlicense = \"MIT\"\nrename-from = \"abc-1.txt\"\n"
    );
}

#[test]
fn a_new_manifest_starts_with_the_heading() {
    let text = add_file(
        url("https://example.com/abc.txt"),
        String::from("abc.txt"),
        &Sha256::new(),
        None,
        false,
    )
    .unwrap();
    assert_eq!(
        text,
        "[[files]]\nname = \"abc.txt\"\nsha256 = \"e3b0c44298fc1c149afbf4c8996fb92427ae41e4649b934ca495991b7852b855\"\nsource = \"https://example.com/abc.txt\"\nlicense = \"\"\n"
    );
    assert_eq!(entry_block(false, "x = 1\n"), "[[files]]\nx = 1\n");
    assert_eq!(entry_block(true, "x = 1\n"), "\n[[files]]\nx = 1\n");
}

#[test]
fn what_was_written_loads_as_the_same_entry() {
    let cases = [
        ("tools/foo.tar", "abc123", "https://example.com/dl/foo.tar", "MIT"),
        ("tools/bar.tar", "00", "https://example.com/dl/foo.tar?a=b&c=d#frag", "Apache-2.0 OR MIT"),
        ("we\"ird\\na\tme/é.tar", "", "https://example.com/%C3%A9.tar", "line one\nline two"),
        ("x'y", "'''", "https://user:pw@example.com:8080/a%20b", "\"quoted\""),
    ];
    for (name, sha256, source, license) in cases {
        let entry = new_entry(url(source), String::from(name), String::from(sha256), Some(String::from(license)));
        let text = entry_block(false, &entry.to_toml().unwrap());
        let (files, errors) = load_one(&text);
        assert_eq!(errors, Vec::<String>::new(), "{text}");
        assert_eq!(
            files,
            vec![MirrorFile {
                name: String::from(name),
                sha256: String::from(sha256),
                source: Source::Url(url(source)),
                rename_from: rename_hint(&url(source), name),
            }]
        );
    }
}

#[test]
fn the_fields_of_an_entry_read_back_as_the_entry() {
    let entry = ManifestFileManaged::new(
        String::from("tools/bar.tar"),
        String::from("abc123"),
        url("https://example.com/dl/foo.tar"),
        String::from("MIT"),
        Some(String::from("foo.tar")),
    );
    let fields: Vec<(String, RawField)> =
        entry.fields().into_iter().map(|(key, value)| (key, RawField::Text(value))).collect();
    assert_eq!(fields.len(), 5);
    assert_eq!(read_entry(&fields), Some(ManifestFile::Managed(entry)));
}

#[test]
fn entries_appended_one_after_the_other_all_load() {
    let first = add_file(url("https://e.com/a"), String::from("a"), &Sha256::new(), None, false).unwrap();
    let mut hash = Sha256::new();
    hash.update(b"b");
    let second = add_file(url("https://e.com/b"), String::from("b"), &hash, None, true).unwrap();
    let (files, errors) = load_one(&format!("{first}{second}"));
    assert_eq!(errors, Vec::<String>::new());
    assert_eq!(files.len(), 2);
    assert_eq!(files[0].name, "a");
    assert_eq!(files[1].name, "b");
}

fn text(key: &str, value: &str) -> (String, RawField) {
    (String::from(key), RawField::Text(String::from(value)))
}

#[test]
fn a_managed_entry_takes_the_url_it_is_given() {
    let fields = vec![
        text("license", "MIT"),
        text("source", "anything"),
        text("sha256", "12"),
        text("name", "a"),
    ];
    let expected = ManifestFileManaged::new(
        String::from("a"),
        String::from("12"),
        url("https://example.com/a"),
        String::from("MIT"),
        None,
    );
    assert_eq!(read_managed_with(&fields, Some(url("https://example.com/a"))), Some(expected));
    assert_eq!(read_managed_with(&fields, None), None);
    // The text under `source` is no URL.
    assert_eq!(read_managed(&fields), None);
    // Without a `source` there is no managed entry, whatever URL is given.
    let without: Vec<(String, RawField)> = fields.into_iter().filter(|f| f.0 != "source").collect();
    assert_eq!(read_managed_with(&without, Some(url("https://example.com/a"))), None);
}

#[test]
fn fields_are_read_by_key_in_any_order() {
    let fields = vec![
        (String::from("skip-validation"), RawField::Flag(true)),
        text("sha256", "12"),
        (String::from("legacy"), RawField::Flag(true)),
        text("name", "a"),
    ];
    let expected = ManifestFileLegacy {
        name: String::from("a"),
        sha256: String::from("12"),
        skip_validation: true,
    };
    assert_eq!(read_legacy(&fields), Some(expected));
    assert_eq!(read_managed(&fields), None);
    assert_eq!(read_legacy(&vec![]), None);
    assert_eq!(read_entry(&vec![]), None);
    let other = vec![
        text("name", "a"),
        text("sha256", "12"),
        (String::from("legacy"), RawField::Other),
    ];
    assert_eq!(read_legacy(&other), None);
}
