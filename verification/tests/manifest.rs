use ci_mirrors::document::{RawField, RawTable};
use ci_mirrors::entry::MirrorFile;
use ci_mirrors::location::Span;
use ci_mirrors::manifest::{
    check_entry, entry_headlines, is_manifest_path, load_manifests, LoadError, Manifests,
};
use ci_mirrors::source::{Source, SourceUrl};

fn managed(name: &str, sha256: &str, source: &str, rename_from: Option<&str>) -> MirrorFile {
    MirrorFile {
        name: String::from(name),
        sha256: String::from(sha256),
        source: Source::Url(SourceUrl::parse(source).unwrap()),
        rename_from: rename_from.map(String::from),
    }
}

fn legacy(name: &str, sha256: &str) -> MirrorFile {
    MirrorFile {
        name: String::from(name),
        sha256: String::from(sha256),
        source: Source::Legacy,
        rename_from: None,
    }
}

fn load(files: &[(&str, &str)]) -> Result<(Vec<MirrorFile>, Vec<String>), (usize, LoadError)> {
    let files: Vec<(String, String)> =
        files.iter().map(|(path, text)| (String::from(*path), String::from(*text))).collect();
    load_manifests(&files)
}

const ONE_MANAGED: &str = r#"[[files]]
name = "tools/foo.tar"
sha256 = "abc123"
source = "https://example.com/foo.tar"
license = "MIT"
"#;

#[test]
fn a_managed_entry_is_loaded() {
    let (files, errors) = load(&[("files/a.toml", ONE_MANAGED)]).unwrap();
    assert_eq!(errors, Vec::<String>::new());
    assert_eq!(files, vec![managed("tools/foo.tar", "abc123", "https://example.com/foo.tar", None)]);
}

#[test]
fn a_legacy_entry_is_loaded() {
    let text = "[[files]]\nname = \"old/thing.zip\"\nsha256 = \"00ff\"\nlegacy = true\n";
    let (files, errors) = load(&[("files/a.toml", text)]).unwrap();
    assert_eq!(errors, Vec::<String>::new());
    assert_eq!(files, vec![legacy("old/thing.zip", "00ff")]);
}

#[test]
fn entries_keep_their_order_across_files() {
    let second = "[[files]]\nname = \"b\"\nsha256 = \"2\"\nlegacy = true\n\n[[files]]\nname = \"c\"\nsha256 = \"3\"\nlegacy = true\n";
    let first = "[[files]]\nname = \"a\"\nsha256 = \"1\"\nlegacy = true\n";
    let (files, errors) = load(&[("z.toml", first), ("a.toml", second)]).unwrap();
    assert_eq!(errors, Vec::<String>::new());
    assert_eq!(files, vec![legacy("a", "1"), legacy("b", "2"), legacy("c", "3")]);
}

#[test]
fn an_inline_array_of_tables_is_a_manifest_too() {
    let text = "files = [{ name = \"a\", sha256 = \"1\", legacy = true }]\n";
    let (files, errors) = load(&[("a.toml", text)]).unwrap();
    assert_eq!(errors, Vec::<String>::new());
    assert_eq!(files, vec![legacy("a", "1")]);
}

#[test]
fn no_files_at_all_loads_nothing() {
    let (files, errors) = load(&[]).unwrap();
    assert!(files.is_empty());
    assert!(errors.is_empty());
    let (files, errors) = load(&[("a.toml", "files = []\n")]).unwrap();
    assert!(files.is_empty());
    assert!(errors.is_empty());
}

#[test]
fn text_that_is_not_toml_is_refused() {
    let refused = load(&[("a.toml", ONE_MANAGED), ("b.toml", "[[files]\nname = ")]).unwrap_err();
    assert_eq!(refused.0, 1);
    assert!(matches!(refused.1, LoadError::Syntax(_)));
}

#[test]
fn a_document_without_files_is_refused() {
    assert_eq!(load(&[("a.toml", "")]).unwrap_err(), (0, LoadError::Shape));
    assert_eq!(load(&[("a.toml", "# nothing\n")]).unwrap_err(), (0, LoadError::Shape));
}

#[test]
fn an_unknown_top_level_key_is_refused() {
    let text = "[[files]]\nname = \"a\"\nsha256 = \"1\"\nlegacy = true\n\n[[extra]]\nname = \"b\"\n";
    assert_eq!(load(&[("a.toml", text)]).unwrap_err(), (0, LoadError::Shape));
    let text = "[[other]]\nname = \"a\"\nsha256 = \"1\"\nlegacy = true\n";
    assert_eq!(load(&[("a.toml", text)]).unwrap_err(), (0, LoadError::Shape));
    let text = "title = \"x\"\n[[files]]\nname = \"a\"\nsha256 = \"1\"\nlegacy = true\n";
    assert!(matches!(load(&[("a.toml", text)]).unwrap_err(), (0, LoadError::Syntax(_))));
}

fn refused_entry(fields: &str) -> (usize, LoadError) {
    let text = format!("[[files]]\nname = \"ok\"\nsha256 = \"1\"\nlegacy = true\n\n[[files]]\n{fields}");
    load(&[("a.toml", &text)]).unwrap_err()
}

#[test]
fn an_entry_of_neither_shape_is_refused() {
    let entry = (0, LoadError::Entry(1));
    // An unknown field, in either shape.
    assert_eq!(refused_entry("name = \"a\"\nsha256 = \"1\"\nlegacy = true\ncolor = \"red\"\n"), entry);
    assert_eq!(
        refused_entry("name = \"a\"\nsha256 = \"1\"\nsource = \"https://e.com/a\"\nlicense = \"MIT\"\nsize = 3\n"),
        entry
    );
    // Both shapes at once.
    assert_eq!(
        refused_entry("name = \"a\"\nsha256 = \"1\"\nsource = \"https://e.com/a\"\nlicense = \"MIT\"\nlegacy = true\n"),
        entry
    );
    // `legacy` has to be true.
    assert_eq!(refused_entry("name = \"a\"\nsha256 = \"1\"\nlegacy = false\n"), entry);
    // A managed entry has to state a license.
    assert_eq!(refused_entry("name = \"a\"\nsha256 = \"1\"\nsource = \"https://e.com/a\"\n"), entry);
    // Required fields.
    assert_eq!(refused_entry("sha256 = \"1\"\nlegacy = true\n"), entry);
    assert_eq!(refused_entry("name = \"a\"\nlegacy = true\n"), entry);
    assert_eq!(refused_entry("name = \"a\"\nsha256 = \"1\"\n"), entry);
    // Fields of the wrong kind.
    assert_eq!(refused_entry("name = 7\nsha256 = \"1\"\nlegacy = true\n"), entry);
    assert_eq!(refused_entry("name = \"a\"\nsha256 = \"1\"\nlegacy = \"true\"\n"), entry);
    assert_eq!(
        refused_entry("name = \"a\"\nsha256 = \"1\"\nlegacy = true\nskip-validation = \"yes\"\n"),
        entry
    );
    assert_eq!(
        refused_entry("name = \"a\"\nsha256 = \"1\"\nsource = \"https://e.com/a\"\nlicense = \"MIT\"\nrename-from = true\n"),
        entry
    );
    // The source has to be a URL.
    assert_eq!(
        refused_entry("name = \"a\"\nsha256 = \"1\"\nsource = \"not a url\"\nlicense = \"MIT\"\n"),
        entry
    );
}

#[test]
fn a_refused_file_leaves_nothing_behind() {
    let mut manifests = Manifests::new();
    manifests.load_file("a.toml", ONE_MANAGED).unwrap();
    let bad = "[[files]]\nname = \"/x\"\nsha256 = \"abc123\"\nlegacy = true\n\n[[files]]\nname = \"y\"\n";
    assert_eq!(manifests.load_file("b.toml", bad), Err(LoadError::Entry(1)));
    assert_eq!(manifests.len(), 1);
    let (files, errors) = manifests.finish();
    assert_eq!(files.len(), 1);
    assert_eq!(errors, Vec::<String>::new());
}

#[test]
fn a_name_with_a_leading_slash_is_reported_with_its_place() {
    let text = "# comment\n[[files]]\nname = \"/tools/foo.tar\"\nsha256 = \"1\"\nlegacy = true\n";
    let (files, errors) = load(&[("files/a.toml", text)]).unwrap();
    assert_eq!(files, vec![legacy("/tools/foo.tar", "1")]);
    assert_eq!(
        errors,
        vec![String::from(
            "Mirrored path cannot start with a slash (/):\n# files/a.toml (line 2)\n[[files]]\n"
        )]
    );
}

#[test]
fn a_skipped_entry_is_still_checked_by_itself() {
    let text = "[[files]]\nname = \"/a\"\nsha256 = \"1\"\nlegacy = true\nskip-validation = true\n";
    let (files, errors) = load(&[("a.toml", text)]).unwrap();
    assert_eq!(files, vec![legacy("/a", "1")]);
    assert_eq!(
        errors,
        vec![String::from("Mirrored path cannot start with a slash (/):\n# a.toml (line 1)\n[[files]]\n")]
    );
}

#[test]
fn rename_from_is_needed_where_the_names_differ() {
    let file = managed("tools/bar.tar", "1", "https://example.com/dl/foo.tar?x=1", None);
    assert_eq!(
        entry_headlines(&file),
        vec![String::from(
            "The name from the URL `https://example.com/dl/foo.tar?x=1` doesn't match the `name` field (`foo.tar` != `bar.tar`). Add `rename-from = \"foo.tar\"` to fix this error"
        )]
    );
}

#[test]
fn rename_from_is_accepted_where_it_is_the_name_at_the_origin() {
    let file = managed("tools/bar.tar", "1", "https://example.com/dl/foo.tar", Some("foo.tar"));
    assert_eq!(entry_headlines(&file), Vec::<String>::new());
    let file = managed("tools/foo.tar", "1", "https://example.com/dl/foo.tar", None);
    assert_eq!(entry_headlines(&file), Vec::<String>::new());
}

#[test]
fn rename_from_is_refused_where_the_names_match() {
    let file = managed("tools/foo.tar", "1", "https://example.com/dl/foo.tar", Some("foo.tar"));
    assert_eq!(
        entry_headlines(&file),
        vec![String::from(
            "`rename-from` field isn't needed since `source` and `name` field have the same file name (`foo.tar`)"
        )]
    );
}

#[test]
fn rename_from_is_refused_where_it_is_not_the_name_at_the_origin() {
    let file = managed("tools/bar.tar", "1", "https://example.com/dl/foo.tar", Some("baz.tar"));
    assert_eq!(
        entry_headlines(&file),
        vec![String::from(
            "`rename-from` field value doesn't match name from the URL `https://example.com/dl/foo.tar` (`foo.tar` != `baz.tar`)"
        )]
    );
}

#[test]
fn both_complaints_come_slash_first() {
    let file = managed("/bar.tar", "1", "https://example.com/foo.tar", None);
    let found = check_entry(&file, "QUOTED");
    assert_eq!(found.len(), 2);
    assert_eq!(found[0], "Mirrored path cannot start with a slash (/)");
    assert_eq!(
        found[1],
        "The name from the URL `https://example.com/foo.tar` doesn't match the `name` field (`foo.tar` != `bar.tar`). Add `rename-from = QUOTED` to fix this error"
    );
}

#[test]
fn the_quoted_name_is_escaped_as_debug_does() {
    let file = managed("x", "1", "foo:dir/a\\b", None);
    let found = entry_headlines(&file);
    assert_eq!(found.len(), 1);
    assert!(found[0].ends_with("Add `rename-from = \"a\\\\b\"` to fix this error"), "{}", found[0]);
}

#[test]
fn a_legacy_entry_needs_no_rename_from() {
    assert_eq!(entry_headlines(&legacy("a/b", "1")), Vec::<String>::new());
}

#[test]
fn distinct_entries_give_no_errors() {
    let first = "[[files]]\nname = \"a.tar\"\nsha256 = \"1\"\nsource = \"https://e.com/a.tar\"\nlicense = \"MIT\"\n\n[[files]]\nname = \"b.tar\"\nsha256 = \"2\"\nsource = \"https://e.com/b.tar\"\nlicense = \"MIT\"\n";
    let second = "[[files]]\nname = \"c\"\nsha256 = \"3\"\nlegacy = true\n";
    let (files, errors) = load(&[("a.toml", first), ("b.toml", second)]).unwrap();
    assert_eq!(files.len(), 3);
    assert_eq!(errors, Vec::<String>::new());
}

#[test]
fn a_shared_name_is_reported_once_with_both_places() {
    let first = "[[files]]\nname = \"tools/foo.tar\"\nsha256 = \"1\"\nlegacy = true\n";
    let second = "# second\n\n[[files]]\nname = \"tools/foo.tar\"\nsha256 = \"2\"\nlegacy = true\n";
    let (files, errors) = load(&[("files/b.toml", second), ("files/a.toml", first)]).unwrap();
    assert_eq!(files.len(), 2);
    assert_eq!(
        errors,
        vec![String::from(
            "The following entries share the same CDN path `tools/foo.tar`:\n# files/a.toml (line 1)\n[[files]]\n\n# files/b.toml (line 3)\n[[files]]\n\n"
        )]
    );
}

#[test]
fn a_shared_hash_is_reported_with_paths_lines_and_snippets() {
    let first = "[[files]]\nname = \"a\"\nsha256 = \"xyz\"\nlegacy = true\n";
    let second = "[[files]]\nname = \"b\"\nsha256 = \"1\"\nlegacy = true\n\n[[files]]\nname = \"c\"\nsha256 = \"xyz\"\nlegacy = true\n";
    let (_, errors) = load(&[("m/one.toml", first), ("m/two.toml", second)]).unwrap();
    assert_eq!(
        errors,
        vec![String::from(
            "The following entries share the same hash `xyz`:\n# m/one.toml (line 1)\n[[files]]\n\n# m/two.toml (line 6)\n[[files]]\n\n"
        )]
    );
}

#[test]
fn a_shared_url_is_reported_in_its_normal_form() {
    let text = "[[files]]\nname = \"a\"\nsha256 = \"1\"\nsource = \"https://EXAMPLE.com/a\"\nlicense = \"MIT\"\n\n[[files]]\nname = \"dir/a\"\nsha256 = \"2\"\nsource = \"https://example.com/a\"\nlicense = \"MIT\"\n";
    let (_, errors) = load(&[("a.toml", text)]).unwrap();
    assert_eq!(
        errors,
        vec![String::from(
            "The following entries share the same URL `https://example.com/a`:\n# a.toml (line 1)\n[[files]]\n\n# a.toml (line 7)\n[[files]]\n\n"
        )]
    );
}

#[test]
fn collisions_come_names_first_then_urls_then_hashes() {
    let text = "[[files]]\nname = \"a\"\nsha256 = \"1\"\nsource = \"https://e.com/a\"\nlicense = \"MIT\"\n\n[[files]]\nname = \"a\"\nsha256 = \"1\"\nsource = \"https://e.com/a\"\nlicense = \"MIT\"\n";
    let (_, errors) = load(&[("a.toml", text)]).unwrap();
    assert_eq!(errors.len(), 3);
    assert!(errors[0].starts_with("The following entries share the same CDN path `a`:\n"));
    assert!(errors[1].starts_with("The following entries share the same URL `https://e.com/a`:\n"));
    assert!(errors[2].starts_with("The following entries share the same hash `1`:\n"));
}

#[test]
fn what_is_wrong_with_entries_comes_before_collisions() {
    let text = "[[files]]\nname = \"/a\"\nsha256 = \"1\"\nlegacy = true\n\n[[files]]\nname = \"/a\"\nsha256 = \"2\"\nlegacy = true\n";
    let (_, errors) = load(&[("a.toml", text)]).unwrap();
    assert_eq!(errors.len(), 3);
    assert_eq!(errors[0], "Mirrored path cannot start with a slash (/):\n# a.toml (line 1)\n[[files]]\n");
    assert_eq!(errors[1], "Mirrored path cannot start with a slash (/):\n# a.toml (line 6)\n[[files]]\n");
    assert!(errors[2].starts_with("The following entries share the same CDN path `/a`:\n"));
}

#[test]
fn skipped_entries_are_not_held_against_others() {
    let text = "[[files]]\nname = \"a\"\nsha256 = \"1\"\nlegacy = true\nskip-validation = true\n\n[[files]]\nname = \"a\"\nsha256 = \"1\"\nlegacy = true\n\n[[files]]\nname = \"a\"\nsha256 = \"1\"\nlegacy = true\nskip-validation = true\n";
    let (files, errors) = load(&[("a.toml", text)]).unwrap();
    assert_eq!(files.len(), 3);
    assert_eq!(errors, Vec::<String>::new());
}

#[test]
fn entries_after_a_skipped_one_are_still_held_against_each_other() {
    let text = "[[files]]\nname = \"s\"\nsha256 = \"0\"\nlegacy = true\nskip-validation = true\n\n[[files]]\nname = \"a\"\nsha256 = \"1\"\nlegacy = true\n\n[[files]]\nname = \"a\"\nsha256 = \"2\"\nlegacy = true\n";
    let (_, errors) = load(&[("a.toml", text)]).unwrap();
    assert_eq!(errors.len(), 1);
    assert!(errors[0].starts_with("The following entries share the same CDN path `a`:\n"));
}

#[test]
fn three_places_of_one_name_are_listed_in_order() {
    let text = "[[files]]\nname = \"a\"\nsha256 = \"1\"\nlegacy = true\n";
    let (_, errors) = load(&[("d/c.toml", text), ("d-x.toml", text), ("d/a.toml", text)]).unwrap();
    assert_eq!(errors.len(), 2);
    assert_eq!(
        errors[0],
        "The following entries share the same CDN path `a`:\n# d/a.toml (line 1)\n[[files]]\n\n# d/c.toml (line 1)\n[[files]]\n\n# d-x.toml (line 1)\n[[files]]\n\n"
    );
}

#[test]
fn loaded_entries_can_be_inspected() {
    let mut manifests = Manifests::new();
    let text = "[[files]]\nname = \"a\"\nsha256 = \"1\"\nlegacy = true\nskip-validation = true\n";
    manifests.load_file("dir/a.toml", text).unwrap();
    assert_eq!(manifests.len(), 1);
    let entry = manifests.entry(0);
    assert_eq!(entry.file, legacy("a", "1"));
    assert!(!entry.validated);
    assert_eq!(entry.site.location.file, "dir/a.toml");
    assert_eq!(entry.site.location.span.start, 0);
    assert_eq!(entry.site.location.span.end, 9);
    assert_eq!(entry.site.source, 0);
}

#[test]
fn load_errors_say_what_is_wrong() {
    assert_eq!(LoadError::Syntax(String::from("expected `]`")).message(), "expected `]`");
    assert_eq!(LoadError::Shape.message(), "a manifest holds a single array `files`");
    assert_eq!(LoadError::Entry(0).message(), "files[0] is neither a legacy nor a managed file");
    assert_eq!(LoadError::Span(12).message(), "files[12] does not lie inside the manifest");
}

#[test]
fn a_span_outside_the_text_is_refused() {
    let fields = || {
        vec![
            (String::from("name"), RawField::Text(String::from("a"))),
            (String::from("sha256"), RawField::Text(String::from("1"))),
            (String::from("legacy"), RawField::Flag(true)),
        ]
    };
    let doc = |start, end| {
        vec![(String::from("files"), vec![RawTable { span: Span { start, end }, fields: fields() }])]
    };
    let mut manifests = Manifests::new();
    assert_eq!(manifests.load_parsed("a.toml", "é[[files]]", doc(0, 50)), Err(LoadError::Span(0)));
    assert_eq!(manifests.load_parsed("a.toml", "é[[files]]", doc(1, 11)), Err(LoadError::Span(0)));
    assert_eq!(manifests.load_parsed("a.toml", "é[[files]]", doc(5, 2)), Err(LoadError::Span(0)));
    assert_eq!(manifests.len(), 0);
    assert_eq!(manifests.load_parsed("a.toml", "é[[files]]", doc(2, 11)), Ok(()));
    assert_eq!(manifests.len(), 1);
    assert_eq!(manifests.load_parsed("b.toml", "", vec![]), Err(LoadError::Shape));
}

#[test]
fn manifests_are_told_by_their_extension() {
    assert!(is_manifest_path("files/a.toml"));
    assert!(is_manifest_path("a.toml"));
    assert!(is_manifest_path("dir.d/a.b.toml"));
    assert!(is_manifest_path("..toml"));
    assert!(!is_manifest_path(".toml"));
    assert!(!is_manifest_path("files/.toml"));
    assert!(!is_manifest_path("toml"));
    assert!(!is_manifest_path("a.TOML"));
    assert!(!is_manifest_path("a.toml/b"));
    assert!(!is_manifest_path("a.tomll"));
    assert!(!is_manifest_path("a.toml "));
    assert!(!is_manifest_path(""));
}

#[test]
fn manifests_are_told_as_std_tells_extensions() {
    let names = [
        "a.toml", ".toml", "..toml", "a..toml", "a.toml.bak", "atoml", "a.tom", "é.toml", "x.y.toml",
        "toml.toml", ".a.toml", "a.Toml", "a",
    ];
    for dir in ["", "files/", "a.toml/", "./", "../x/"] {
        for name in names {
            let path = format!("{dir}{name}");
            let expected = std::path::Path::new(&path).extension().and_then(|s| s.to_str())
                == Some("toml");
            assert_eq!(is_manifest_path(&path), expected, "{path}");
        }
    }
}
