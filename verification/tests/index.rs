use ci_mirrors::index::{conflict_text, place, push_conflicts, record, Group, Site, SourceFile};
use ci_mirrors::location::{Location, Span};

const TEXT: &str = "[[files]]\nname = \"a\"\n\n[[files]]\nname = \"b\"\n";

fn table() -> Vec<SourceFile> {
    vec![
        SourceFile { path: String::from("m/one.toml"), text: String::from(TEXT) },
        SourceFile { path: String::from("m/two.toml"), text: String::from(TEXT) },
    ]
}

fn site(source: usize, start: usize) -> Site {
    let path = if source == 0 { "m/one.toml" } else { "m/two.toml" };
    Site {
        location: Location { file: String::from(path), span: Span { start, end: start + 9 } },
        source,
    }
}

#[test]
fn sites_are_kept_in_listing_order_each_once() {
    let mut sites = Vec::new();
    place(&mut sites, site(1, 0));
    place(&mut sites, site(0, 22));
    place(&mut sites, site(1, 22));
    place(&mut sites, site(0, 0));
    place(&mut sites, site(0, 22));
    assert_eq!(sites, vec![site(0, 0), site(0, 22), site(1, 0), site(1, 22)]);
}

#[test]
fn keys_are_kept_in_the_order_in_which_they_came() {
    let mut groups = Vec::new();
    record(&mut groups, "b", site(0, 0));
    record(&mut groups, "a", site(0, 22));
    record(&mut groups, "b", site(1, 0));
    record(&mut groups, "b", site(1, 0));
    assert_eq!(
        groups,
        vec![
            Group { key: String::from("b"), sites: vec![site(0, 0), site(1, 0)] },
            Group { key: String::from("a"), sites: vec![site(0, 22)] },
        ]
    );
}

#[test]
fn only_keys_with_several_places_are_reported() {
    let mut groups = Vec::new();
    record(&mut groups, "x", site(0, 0));
    record(&mut groups, "y", site(0, 22));
    record(&mut groups, "y", site(1, 22));
    record(&mut groups, "z", site(1, 0));
    let mut errors = vec![String::from("before")];
    push_conflicts(&groups, "hash", &table(), &mut errors);
    assert_eq!(
        errors,
        vec![
            String::from("before"),
            String::from(
                "The following entries share the same hash `y`:\n# m/one.toml (line 4)\n[[files]]\n\n# m/two.toml (line 4)\n[[files]]\n\n"
            ),
        ]
    );
    assert_eq!(conflict_text(&groups[1], "hash", &table()), errors[1]);
}

#[test]
fn nothing_recorded_nothing_reported() {
    let mut errors = Vec::new();
    push_conflicts(&Vec::new(), "URL", &table(), &mut errors);
    assert!(errors.is_empty());
}
