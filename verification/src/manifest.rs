//! Loading manifests: every file is read into entries, each entry is
//! checked by itself, and its place is kept so that entries can be held
//! against each other once all files are in.

use crate::document::{read_toml, toml_document, RawDocument, RawDocumentView, RawTableView};
use crate::entry::{entry_of, read_entry, MirrorFileView};
pub use crate::entry::{ManifestFile, ManifestFileLegacy, ManifestFileManaged, MirrorFile};
use crate::index::{
    conflicts, groups_wf, lemma_groups_wf_grows, lemma_recorded_wf, lemma_tally_push,
    push_conflicts, record,
    recorded, site_fits, tally_of, Group, GroupView, Site, SiteView, SourceFile, SourceFileView,
};
use crate::location::{
    push_site_block, site_block_of, span_fits, span_fits_in, Location, LocationView, Span,
};
use crate::source::{SourceUrlView, SourceView};
use crate::text::{
    chars_of, decimal_digits, last_segment, last_segment_of, push_decimal, same_text,
};
use vstd::prelude::*;
use vstd::string::*;

pub use crate::location::span_info;
pub use crate::source::Source;

verus! {

/// Whether the file at `path` is taken for a manifest: its name, which is
/// what follows the last slash, ends in `.toml` and has something before it.
pub open spec fn manifest_path(path: Seq<char>) -> bool {
    let name = last_segment(path);
    name.len() > 5 && name.skip(name.len() - 5) == ".toml"@
}

/// Whether the file at `path` is taken for a manifest.
pub fn is_manifest_path(path: &str) -> (r: bool)
    ensures
        r == manifest_path(path@),
{
    let name = chars_of(last_segment_of(path));
    proof {
        reveal_strlit(".toml");
    }
    let n = name.len();
    if n <= 5 {
        return false;
    }
    let r = name[n - 5] == '.' && name[n - 4] == 't' && name[n - 3] == 'o' && name[n - 2] == 'm'
        && name[n - 1] == 'l';
    proof {
        let tail = name@.skip(n - 5);
        if r {
            assert(tail =~= ".toml"@);
        } else {
            assert(tail[0] == name@[n - 5]);
            assert(tail[1] == name@[n - 4]);
            assert(tail[2] == name@[n - 3]);
            assert(tail[3] == name@[n - 2]);
            assert(tail[4] == name@[n - 1]);
        }
    }
    r
}

/// What `{:?}` writes for a string: the string in double quotes, with the
/// escapes of `<str as Debug>::fmt`.
pub uninterp spec fn debug_text(s: Seq<char>) -> Seq<char>;

/// Formats `s` with `{:?}`, which is `<str as Debug>::fmt` of std. The
/// contract only gives the outcome a name.
#[verifier::external_body]
fn debug_quoted(s: &str) -> (r: String)
    ensures
        r@ == debug_text(s@),
{
    format!("{s:?}")
}

/// Whether `name` starts with a slash.
pub open spec fn starts_with_slash(name: Seq<char>) -> bool {
    name.len() > 0 && name[0] == '/'
}

/// The complaint about a name that starts with a slash.
pub open spec fn slash_headline() -> Seq<char> {
    "Mirrored path cannot start with a slash (/)"@
}

/// The complaint about a `rename-from` beside a name that already ends as
/// the URL does.
pub open spec fn unneeded_headline(file_name: Seq<char>) -> Seq<char> {
    "`rename-from` field isn't needed since `source` and `name` field have the same file name (`"@
        + file_name + "`)"@
}

/// The complaint about a `rename-from` that is not how the URL ends.
pub open spec fn mismatch_headline(
    url: Seq<char>,
    file_name: Seq<char>,
    rename_from: Seq<char>,
) -> Seq<char> {
    "`rename-from` field value doesn't match name from the URL `"@ + url + "` (`"@ + file_name
        + "` != `"@ + rename_from + "`)"@
}

/// The complaint about a name that ends otherwise than the URL, with no
/// `rename-from` to say so. `quoted` is the URL's file name as `{:?}`
/// writes it.
pub open spec fn missing_headline(
    url: Seq<char>,
    file_name: Seq<char>,
    path_name: Seq<char>,
    quoted: Seq<char>,
) -> Seq<char> {
    "The name from the URL `"@ + url + "` doesn't match the `name` field (`"@ + file_name
        + "` != `"@ + path_name + "`). Add `rename-from = "@ + quoted + "` to fix this error"@
}

/// What is wrong with the `rename-from` of an entry named `name` that is
/// fetched from `url`, if anything: the field has to be there, and to be
/// the URL's file name, exactly when the name ends otherwise than the URL.
pub open spec fn rename_headline(
    name: Seq<char>,
    url: SourceUrlView,
    rename_from: Option<Seq<char>>,
    quoted: Seq<char>,
) -> Option<Seq<char>> {
    let file_name = url.file_name();
    let path_name = last_segment(name);
    match rename_from {
        Some(given) => {
            if path_name == file_name {
                Some(unneeded_headline(file_name))
            } else if given != file_name {
                Some(mismatch_headline(url.text, file_name, given))
            } else {
                None
            }
        },
        None => {
            if path_name != file_name {
                Some(missing_headline(url.text, file_name, path_name, quoted))
            } else {
                None
            }
        },
    }
}

/// What is wrong with `file` by itself, one headline for each complaint.
/// `quoted` is the file name of its URL, if it has one, as `{:?}` writes it.
pub open spec fn headlines_with(file: MirrorFileView, quoted: Seq<char>) -> Seq<Seq<char>> {
    let slash = if starts_with_slash(file.name) {
        seq![slash_headline()]
    } else {
        Seq::empty()
    };
    match file.source {
        SourceView::Url(url) => match rename_headline(file.name, url, file.rename_from, quoted) {
            Some(headline) => slash.push(headline),
            None => slash,
        },
        SourceView::Legacy => slash,
    }
}

/// What is wrong with `file` by itself.
pub open spec fn headlines(file: MirrorFileView) -> Seq<Seq<char>> {
    match file.source {
        SourceView::Url(url) => headlines_with(file, debug_text(url.file_name())),
        SourceView::Legacy => headlines_with(file, Seq::empty()),
    }
}

/// What is wrong with `file` by itself. `quoted` is the file name of its
/// URL, if it has one, as `{:?}` writes it.
pub fn check_entry(file: &MirrorFile, quoted: &str) -> (r: Vec<String>)
    ensures
        r.deep_view() == headlines_with(file.deep_view(), quoted@),
{
    let mut found: Vec<String> = Vec::new();
    if !file.name.as_str().is_empty() && file.name.as_str().get_char(0) == '/' {
        found.push(String::from_str("Mirrored path cannot start with a slash (/)"));
    }
    if let Source::Url(url) = &file.source {
        let file_name = url.file_name();
        let path_name = last_segment_of(file.name.as_str());
        let complaint: Option<String> = match &file.rename_from {
            Some(given) => {
                if same_text(path_name, file_name) {
                    let mut text = String::from_str(
                        "`rename-from` field isn't needed since `source` and `name` field have the same file name (`",
                    );
                    text.append(file_name);
                    text.append("`)");
                    Some(text)
                } else if !same_text(given.as_str(), file_name) {
                    let mut text = String::from_str(
                        "`rename-from` field value doesn't match name from the URL `",
                    );
                    text.append(url.as_str());
                    text.append("` (`");
                    text.append(file_name);
                    text.append("` != `");
                    text.append(given.as_str());
                    text.append("`)");
                    Some(text)
                } else {
                    None
                }
            },
            None => {
                if !same_text(path_name, file_name) {
                    let mut text = String::from_str("The name from the URL `");
                    text.append(url.as_str());
                    text.append("` doesn't match the `name` field (`");
                    text.append(file_name);
                    text.append("` != `");
                    text.append(path_name);
                    text.append("`). Add `rename-from = ");
                    text.append(quoted);
                    text.append("` to fix this error");
                    Some(text)
                } else {
                    None
                }
            },
        };
        if let Some(text) = complaint {
            found.push(text);
        }
    }
    found
}

/// What is wrong with `file` by itself.
pub fn entry_headlines(file: &MirrorFile) -> (r: Vec<String>)
    ensures
        r.deep_view() == headlines(file.deep_view()),
{
    match &file.source {
        Source::Url(url) => {
            let quoted = debug_quoted(url.file_name());
            check_entry(file, quoted.as_str())
        },
        Source::Legacy => {
            let found = check_entry(file, "");
            found
        },
    }
}

/// An entry as it was loaded: the file it declares, where it stands, and
/// whether it is held against the others for collisions.
#[derive(Debug, PartialEq, Eq)]
pub struct Loaded {
    pub file: MirrorFile,
    pub site: Site,
    pub validated: bool,
}

/// What a [`Loaded`] stands for.
pub struct LoadedView {
    pub file: MirrorFileView,
    pub site: SiteView,
    pub validated: bool,
}

impl DeepView for Loaded {
    type V = LoadedView;

    open spec fn deep_view(&self) -> LoadedView {
        LoadedView {
            file: self.file.deep_view(),
            site: self.site.deep_view(),
            validated: self.validated,
        }
    }
}

/// Why a manifest could not be loaded.
#[derive(Debug, PartialEq, Eq)]
pub enum LoadError {
    /// The text is not TOML of the expected kind; the parser's message.
    Syntax(String),
    /// The document is not a single array `files`.
    Shape,
    /// The entry with this index has neither of the two shapes.
    Entry(usize),
    /// The span of the entry with this index cannot be cut out of the text.
    Span(usize),
}

/// What a [`LoadError`] stands for.
pub enum LoadErrorView {
    Syntax(Seq<char>),
    Shape,
    Entry(nat),
    Span(nat),
}

impl DeepView for LoadError {
    type V = LoadErrorView;

    open spec fn deep_view(&self) -> LoadErrorView {
        match self {
            LoadError::Syntax(message) => LoadErrorView::Syntax(message@),
            LoadError::Shape => LoadErrorView::Shape,
            LoadError::Entry(i) => LoadErrorView::Entry(*i as nat),
            LoadError::Span(i) => LoadErrorView::Span(*i as nat),
        }
    }
}

impl LoadErrorView {
    /// The error in words. Entries are counted from zero.
    pub open spec fn message(self) -> Seq<char> {
        match self {
            LoadErrorView::Syntax(message) => message,
            LoadErrorView::Shape => "a manifest holds a single array `files`"@,
            LoadErrorView::Entry(i) => "files["@ + decimal_digits(i)
                + "] is neither a legacy nor a managed file"@,
            LoadErrorView::Span(i) => "files["@ + decimal_digits(i)
                + "] does not lie inside the manifest"@,
        }
    }
}

impl LoadError {
    /// The error in words.
    pub fn message(&self) -> (r: String)
        ensures
            r@ == self.deep_view().message(),
    {
        match self {
            LoadError::Syntax(message) => message.clone(),
            LoadError::Shape => String::from_str("a manifest holds a single array `files`"),
            LoadError::Entry(i) => {
                let mut r = String::from_str("files[");
                push_decimal(&mut r, *i);
                r.append("] is neither a legacy nor a managed file");
                r
            },
            LoadError::Span(i) => {
                let mut r = String::from_str("files[");
                push_decimal(&mut r, *i);
                r.append("] does not lie inside the manifest");
                r
            },
        }
    }
}

/// The key under which an entry is held against the others for its name:
/// the name, where the entry is validated.
pub open spec fn name_key(entry: LoadedView) -> Option<Seq<char>> {
    if entry.validated {
        Some(entry.file.name)
    } else {
        None
    }
}

/// The key under which an entry is held against the others for its hash.
pub open spec fn hash_key(entry: LoadedView) -> Option<Seq<char>> {
    if entry.validated {
        Some(entry.file.sha256)
    } else {
        None
    }
}

/// The key under which an entry is held against the others for its URL.
pub open spec fn url_key(entry: LoadedView) -> Option<Seq<char>> {
    match entry.file.source {
        SourceView::Url(url) if entry.validated => Some(url.text),
        _ => None,
    }
}

/// The keys that `key_of` gives for `entries`, each with the entry's site,
/// in the order of the entries.
pub open spec fn records_by(
    entries: Seq<LoadedView>,
    key_of: spec_fn(LoadedView) -> Option<Seq<char>>,
) -> Seq<(Seq<char>, SiteView)>
    decreases entries.len(),
{
    if entries.len() == 0 {
        Seq::empty()
    } else {
        let rest = records_by(entries.drop_last(), key_of);
        match key_of(entries.last()) {
            Some(key) => rest.push((key, entries.last().site)),
            None => rest,
        }
    }
}

/// The names of the validated entries among `entries`, each with its site.
pub open spec fn name_records(entries: Seq<LoadedView>) -> Seq<(Seq<char>, SiteView)> {
    records_by(entries, |entry: LoadedView| name_key(entry))
}

/// The hashes of the validated entries among `entries`, each with its site.
pub open spec fn hash_records(entries: Seq<LoadedView>) -> Seq<(Seq<char>, SiteView)> {
    records_by(entries, |entry: LoadedView| hash_key(entry))
}

/// The URLs of the validated entries among `entries` that have one, each
/// with its site.
pub open spec fn url_records(entries: Seq<LoadedView>) -> Seq<(Seq<char>, SiteView)> {
    records_by(entries, |entry: LoadedView| url_key(entry))
}

/// The messages for what is wrong with `file` by itself: each headline with
/// the place of the entry below it.
pub open spec fn entry_errors(file: MirrorFileView, text: Seq<char>, location: LocationView) -> Seq<
    Seq<char>,
> {
    Seq::new(
        headlines(file).len(),
        |k: int| headlines(file)[k] + ":\n"@ + site_block_of(text, location),
    )
}

/// What went wrong with the table of index `i`, if anything.
pub open spec fn table_fault(text: Seq<char>, tables: Seq<RawTableView>, i: int) -> Option<
    LoadErrorView,
> {
    if entry_of(tables[i].fields) is None {
        Some(LoadErrorView::Entry(i as nat))
    } else if !span_fits(text, tables[i].start as int, tables[i].end as int) {
        Some(LoadErrorView::Span(i as nat))
    } else {
        None
    }
}

/// The first fault among the tables from index `i` on.
pub open spec fn fault_from(text: Seq<char>, tables: Seq<RawTableView>, i: int) -> Option<
    LoadErrorView,
>
    decreases tables.len() - i,
{
    if i < 0 || i >= tables.len() {
        None
    } else {
        match table_fault(text, tables, i) {
            Some(fault) => Some(fault),
            None => fault_from(text, tables, i + 1),
        }
    }
}

/// Whether `doc` is a single array `files`.
pub open spec fn has_shape(doc: RawDocumentView) -> bool {
    doc.len() == 1 && doc[0].0 == "files"@
}

/// Why `doc`, which was read from `text`, cannot be loaded, if it cannot.
pub open spec fn load_fault(text: Seq<char>, doc: RawDocumentView) -> Option<LoadErrorView> {
    if !has_shape(doc) {
        Some(LoadErrorView::Shape)
    } else {
        fault_from(text, doc[0].1, 0)
    }
}

/// What the loading of manifests has gathered.
pub struct ManifestsView {
    /// The manifests that were loaded.
    pub sources: Seq<SourceFileView>,
    /// Their entries, in the order in which they were loaded.
    pub entries: Seq<LoadedView>,
    /// What is wrong with entries by themselves.
    pub errors: Seq<Seq<char>>,
    /// Where each URL was declared.
    pub seen_urls: Seq<GroupView>,
    /// Where each hash was declared.
    pub seen_hashes: Seq<GroupView>,
    /// Where each name was declared.
    pub seen_paths: Seq<GroupView>,
}

impl ManifestsView {
    /// Whether the places kept are those of the validated entries, and every
    /// place points into a loaded manifest.
    pub open spec fn wf(self) -> bool {
        &&& groups_wf(self.seen_urls, self.sources)
        &&& groups_wf(self.seen_hashes, self.sources)
        &&& groups_wf(self.seen_paths, self.sources)
        &&& self.seen_urls == tally_of(url_records(self.entries))
        &&& self.seen_hashes == tally_of(hash_records(self.entries))
        &&& self.seen_paths == tally_of(name_records(self.entries))
    }

    /// The state after one more entry of the manifest loaded last, which
    /// stands at the bytes from `start` up to `end` of the file at `path`.
    pub open spec fn absorb(
        self,
        path: Seq<char>,
        start: nat,
        end: nat,
        entry: crate::entry::ManifestFileView,
    ) -> ManifestsView {
        let file = entry.mirror_file();
        let location = LocationView { file: path, start, end };
        let site = SiteView { location, source: (self.sources.len() - 1) as nat };
        let validated = entry.validated();
        ManifestsView {
            sources: self.sources,
            entries: self.entries.push(LoadedView { file, site, validated }),
            errors: self.errors + entry_errors(file, self.sources.last().text, location),
            seen_urls: match file.source {
                SourceView::Url(url) if validated => recorded(self.seen_urls, url.text, site),
                _ => self.seen_urls,
            },
            seen_hashes: if validated {
                recorded(self.seen_hashes, file.sha256, site)
            } else {
                self.seen_hashes
            },
            seen_paths: if validated {
                recorded(self.seen_paths, file.name, site)
            } else {
                self.seen_paths
            },
        }
    }

    /// The state after the entries that `tables` spell, in their order.
    pub open spec fn absorb_all(self, path: Seq<char>, tables: Seq<RawTableView>) -> ManifestsView
        decreases tables.len(),
    {
        if tables.len() == 0 {
            self
        } else {
            let table = tables.last();
            self.absorb_all(path, tables.drop_last()).absorb(
                path,
                table.start,
                table.end,
                entry_of(table.fields)->0,
            )
        }
    }

    /// The state after the manifest at `path`, with text `text` and entries
    /// as `tables` spell them.
    pub open spec fn loaded(
        self,
        path: Seq<char>,
        text: Seq<char>,
        tables: Seq<RawTableView>,
    ) -> ManifestsView {
        (ManifestsView {
            sources: self.sources.push(SourceFileView { path, text }),
            ..self
        }).absorb_all(path, tables)
    }

    /// The files that the entries declare, in loading order.
    pub open spec fn files(self) -> Seq<MirrorFileView> {
        Seq::new(self.entries.len(), |i: int| self.entries[i].file)
    }

    /// All that is wrong: what is wrong with entries by themselves, then
    /// the names, the URLs and the hashes that were declared more than once.
    pub open spec fn all_errors(self) -> Seq<Seq<char>> {
        self.errors + conflicts(self.seen_paths, "CDN path"@, self.sources) + conflicts(
            self.seen_urls,
            "URL"@,
            self.sources,
        ) + conflicts(self.seen_hashes, "hash"@, self.sources)
    }
}

/// The manifests loaded so far.
pub struct Manifests {
    sources: Vec<SourceFile>,
    entries: Vec<Loaded>,
    errors: Vec<String>,
    seen_urls: Vec<Group>,
    seen_hashes: Vec<Group>,
    seen_paths: Vec<Group>,
}

impl DeepView for Manifests {
    type V = ManifestsView;

    closed spec fn deep_view(&self) -> ManifestsView {
        ManifestsView {
            sources: self.sources.deep_view(),
            entries: self.entries.deep_view(),
            errors: self.errors.deep_view(),
            seen_urls: self.seen_urls.deep_view(),
            seen_hashes: self.seen_hashes.deep_view(),
            seen_paths: self.seen_paths.deep_view(),
        }
    }
}

impl Manifests {
    /// Nothing loaded yet.
    pub fn new() -> (r: Self)
        ensures
            r.deep_view().wf(),
            r.deep_view() == nothing_loaded(),
            r.deep_view().all_errors().len() == 0,
    {
        let r = Manifests {
            sources: Vec::new(),
            entries: Vec::new(),
            errors: Vec::new(),
            seen_urls: Vec::new(),
            seen_hashes: Vec::new(),
            seen_paths: Vec::new(),
        };
        assert(r.deep_view().sources =~= Seq::<SourceFileView>::empty());
        assert(r.deep_view().entries =~= Seq::<LoadedView>::empty());
        assert(r.deep_view().errors =~= Seq::<Seq<char>>::empty());
        assert(r.deep_view().seen_urls =~= Seq::<GroupView>::empty());
        r
    }

    fn absorb(&mut self, path: &str, text: &str, span: Span, entry: ManifestFile)
        requires
            old(self).deep_view().wf(),
            old(self).deep_view().sources.len() > 0,
            old(self).deep_view().sources.last() == (SourceFileView { path: path@, text: text@ }),
            span_fits(text@, span.start as int, span.end as int),
        ensures
            final(self).deep_view().wf(),
            final(self).deep_view() == old(self).deep_view().absorb(
                path@,
                span.start as nat,
                span.end as nat,
                entry.deep_view(),
            ),
    {
        let ghost before = self.deep_view();
        let validated = entry.validated();
        let file = entry.into_mirror_file();
        let site = Site {
            location: Location { file: String::from_str(path), span },
            source: self.sources.len() - 1,
        };
        proof {
            assert(site_fits(site.deep_view(), before.sources));
        }
        if validated {
            proof {
                lemma_recorded_wf(before.seen_hashes, file.sha256@, site.deep_view(), before.sources);
                lemma_recorded_wf(before.seen_paths, file.name@, site.deep_view(), before.sources);
            }
            record(&mut self.seen_hashes, file.sha256.as_str(), site.clone());
            record(&mut self.seen_paths, file.name.as_str(), site.clone());
            if let Source::Url(url) = &file.source {
                proof {
                    lemma_recorded_wf(
                        before.seen_urls,
                        url.deep_view().text,
                        site.deep_view(),
                        before.sources,
                    );
                }
                record(&mut self.seen_urls, url.as_str(), site.clone());
            }
        }
        let found = entry_headlines(&file);
        let ghost lines = entry_errors(file.deep_view(), text@, site.deep_view().location);
        let ghost urls = self.seen_urls.deep_view();
        let ghost hashes = self.seen_hashes.deep_view();
        let ghost paths = self.seen_paths.deep_view();
        let mut k: usize = 0;
        while k < found.len()
            invariant
                k <= found.len(),
                found.deep_view() == headlines(file.deep_view()),
                lines == entry_errors(file.deep_view(), text@, site.deep_view().location),
                span_fits(text@, span.start as int, span.end as int),
                site.location.span == span,
                self.errors.deep_view() == before.errors + lines.take(k as int),
                self.sources == old(self).sources,
                self.entries == old(self).entries,
                self.seen_urls.deep_view() == urls,
                self.seen_hashes.deep_view() == hashes,
                self.seen_paths.deep_view() == paths,
            decreases found.len() - k,
        {
            let mut message = found[k].clone();
            message.append(":\n");
            push_site_block(&mut message, text, &site.location);
            proof {
                assert(found.deep_view()[k as int] == found[k as int]@);
            }
            let ghost held = self.errors.deep_view();
            self.errors.push(message);
            assert(self.errors.deep_view() =~= held.push(message@));
            k += 1;
        }
        assert(lines.take(k as int) =~= lines);
        let ghost kept = self.entries.deep_view();
        let loaded = Loaded { file, site, validated };
        self.entries.push(loaded);
        proof {
            let after = self.deep_view();
            assert(after.entries =~= kept.push(loaded.deep_view()));
            assert(after.entries.drop_last() =~= before.entries);
            let view = loaded.deep_view();
            lemma_tally_push(hash_records(before.entries), view.file.sha256, view.site);
            lemma_tally_push(name_records(before.entries), view.file.name, view.site);
            if let SourceView::Url(url) = view.file.source {
                lemma_tally_push(url_records(before.entries), url.text, view.site);
            }
        }
    }
}

impl Manifests {
    /// Takes in the manifest at `path`, whose text `text` was read as `doc`.
    /// A document with a fault is refused and leaves nothing behind.
    pub fn load_parsed(&mut self, path: &str, text: &str, doc: RawDocument) -> (r: Result<
        (),
        LoadError,
    >)
        requires
            old(self).deep_view().wf(),
        ensures
            final(self).deep_view().wf(),
            match r {
                Ok(_) => load_fault(text@, doc.deep_view()) is None && final(self).deep_view()
                    == old(self).deep_view().loaded(path@, text@, doc.deep_view()[0].1),
                Err(fault) => load_fault(text@, doc.deep_view()) == Some(fault.deep_view())
                    && final(self).deep_view() == old(self).deep_view(),
            },
    {
        broadcast use vstd::std_specs::vec::group_vec_axioms;

        if doc.len() != 1 {
            return Err(LoadError::Shape);
        }
        if !same_text(doc[0].0.as_str(), "files") {
            return Err(LoadError::Shape);
        }
        let tables = &doc[0].1;
        let ghost spelled = tables.deep_view();
        let mut entries: Vec<ManifestFile> = Vec::new();
        let mut i: usize = 0;
        while i < tables.len()
            invariant
                i <= tables.len(),
                spelled == tables.deep_view(),
                spelled == doc.deep_view()[0].1,
                has_shape(doc.deep_view()),
                self.deep_view() == old(self).deep_view(),
                old(self).deep_view().wf(),
                entries.len() == i,
                fault_from(text@, spelled, 0) == fault_from(text@, spelled, i as int),
                forall|j: int|
                    0 <= j < i ==> {
                        &&& entry_of(spelled[j].fields) == Some((#[trigger] entries[j]).deep_view())
                        &&& span_fits(text@, spelled[j].start as int, spelled[j].end as int)
                    },
            decreases tables.len() - i,
        {
            match read_entry(&tables[i].fields) {
                None => {
                    return Err(LoadError::Entry(i));
                },
                Some(entry) => {
                    if !span_fits_in(text, tables[i].span) {
                        return Err(LoadError::Span(i));
                    }
                    entries.push(entry);
                },
            }
            i += 1;
        }
        let ghost before = self.deep_view();
        self.sources.push(SourceFile { path: String::from_str(path), text: String::from_str(text) });
        let ghost base = self.deep_view();
        proof {
            assert(base.sources =~= before.sources.push(SourceFileView { path: path@, text: text@ }));
            lemma_groups_wf_grows(before.seen_urls, before.sources, base.sources);
            lemma_groups_wf_grows(before.seen_hashes, before.sources, base.sources);
            lemma_groups_wf_grows(before.seen_paths, before.sources, base.sources);
        }
        let ghost read = entries@;
        let mut j: usize = 0;
        for entry in it: entries
            invariant
                j == it.index(),
                it.seq() == read,
                read.len() == tables.len(),
                spelled == tables.deep_view(),
                forall|k: int|
                    0 <= k < read.len() ==> {
                        &&& entry_of(spelled[k].fields) == Some((#[trigger] read[k]).deep_view())
                        &&& span_fits(text@, spelled[k].start as int, spelled[k].end as int)
                    },
                self.deep_view().wf(),
                self.deep_view().sources == base.sources,
                base.sources.len() > 0,
                base.sources.last() == (SourceFileView { path: path@, text: text@ }),
                self.deep_view() == base.absorb_all(path@, spelled.take(j as int)),
        {
            proof {
                assert(spelled.take(j + 1).drop_last() =~= spelled.take(j as int));
            }
            self.absorb(path, text, tables[j].span, entry);
            j += 1;
        }
        assert(spelled.take(j as int) =~= spelled);
        Ok(())
    }
}

/// The state after the manifest at `path` with text `text`, where it can
/// be loaded.
pub open spec fn file_outcome(state: ManifestsView, path: Seq<char>, text: Seq<char>) -> Option<
    ManifestsView,
> {
    match toml_document(text) {
        Some(doc) => {
            if load_fault(text, doc) is None {
                Some(state.loaded(path, text, doc[0].1))
            } else {
                None
            }
        },
        None => None,
    }
}

/// The state after `files`, each a path and a text, where all of them can
/// be loaded.
pub open spec fn load_all(state: ManifestsView, files: Seq<(Seq<char>, Seq<char>)>) -> Option<
    ManifestsView,
>
    decreases files.len(),
{
    if files.len() == 0 {
        Some(state)
    } else {
        match load_all(state, files.drop_last()) {
            Some(so_far) => file_outcome(so_far, files.last().0, files.last().1),
            None => None,
        }
    }
}

/// The state in which nothing is loaded.
pub open spec fn nothing_loaded() -> ManifestsView {
    ManifestsView {
        sources: Seq::empty(),
        entries: Seq::empty(),
        errors: Seq::empty(),
        seen_urls: Seq::empty(),
        seen_hashes: Seq::empty(),
        seen_paths: Seq::empty(),
    }
}

impl Manifests {
    /// Reads `text` as the manifest at `path` and takes it in. A text that
    /// is no manifest is refused and leaves nothing behind.
    pub fn load_file(&mut self, path: &str, text: &str) -> (r: Result<(), LoadError>)
        requires
            old(self).deep_view().wf(),
        ensures
            final(self).deep_view().wf(),
            match r {
                Ok(_) => file_outcome(old(self).deep_view(), path@, text@) == Some(
                    final(self).deep_view(),
                ),
                Err(fault) => {
                    &&& file_outcome(old(self).deep_view(), path@, text@) is None
                    &&& final(self).deep_view() == old(self).deep_view()
                    &&& match toml_document(text@) {
                        Some(doc) => load_fault(text@, doc) == Some(fault.deep_view()),
                        None => fault is Syntax,
                    }
                },
            },
    {
        match read_toml(text) {
            Ok(doc) => self.load_parsed(path, text, doc),
            Err(message) => Err(LoadError::Syntax(message)),
        }
    }

    /// How many entries were loaded.
    pub fn len(&self) -> (r: usize)
        ensures
            r == self.deep_view().entries.len(),
    {
        self.entries.len()
    }

    /// The entry of index `i`, in loading order.
    pub fn entry(&self, i: usize) -> (r: &Loaded)
        requires
            i < self.deep_view().entries.len(),
        ensures
            r.deep_view() == self.deep_view().entries[i as int],
    {
        &self.entries[i]
    }

    /// The files that were declared and all that is wrong with them: what
    /// is wrong with entries by themselves, in loading order, then a message
    /// for each name, for each URL and for each hash that was declared
    /// more than once.
    pub fn finish(self) -> (r: (Vec<MirrorFile>, Vec<String>))
        requires
            self.deep_view().wf(),
        ensures
            r.0.deep_view() == self.deep_view().files(),
            r.1.deep_view() == self.deep_view().all_errors(),
    {
        let Manifests { sources, entries, errors, seen_urls, seen_hashes, seen_paths } = self;
        let mut errors = errors;
        push_conflicts(&seen_paths, "CDN path", &sources, &mut errors);
        push_conflicts(&seen_urls, "URL", &sources, &mut errors);
        push_conflicts(&seen_hashes, "hash", &sources, &mut errors);
        let ghost loaded = entries@;
        let mut files: Vec<MirrorFile> = Vec::new();
        for entry in it: entries
            invariant
                it.seq() == loaded,
                files.len() == it.index(),
                forall|k: int|
                    0 <= k < files.len() ==> (#[trigger] files[k]).deep_view()
                        == loaded[k].deep_view().file,
        {
            files.push(entry.file);
        }
        (files, errors)
    }
}

/// Loads `files`, each a path and the text read from it, in their order.
/// The first file that cannot be loaded ends the loading: its index comes
/// back with the reason.
pub fn load_manifests(files: &Vec<(String, String)>) -> (r: Result<
    (Vec<MirrorFile>, Vec<String>),
    (usize, LoadError),
>)
    ensures
        match r {
            Ok(found) => {
                &&& load_all(nothing_loaded(), files.deep_view()) matches Some(state)
                &&& found.0.deep_view() == state.files()
                &&& found.1.deep_view() == state.all_errors()
            },
            Err(refused) => {
                &&& refused.0 < files.len()
                &&& load_all(nothing_loaded(), files.deep_view().take(refused.0 as int))
                    matches Some(state)
                &&& file_outcome(state, files[refused.0 as int].0@, files[refused.0 as int].1@)
                    is None
                &&& match toml_document(files[refused.0 as int].1@) {
                    Some(doc) => load_fault(files[refused.0 as int].1@, doc) == Some(
                        refused.1.deep_view(),
                    ),
                    None => refused.1 is Syntax,
                }
                &&& load_all(nothing_loaded(), files.deep_view()) is None
            },
        },
{
    let mut manifests = Manifests::new();
    let ghost all = files.deep_view();
    let mut i: usize = 0;
    while i < files.len()
        invariant
            i <= files.len(),
            all == files.deep_view(),
            manifests.deep_view().wf(),
            load_all(nothing_loaded(), all.take(i as int)) == Some(manifests.deep_view()),
        decreases files.len() - i,
    {
        proof {
            assert(all.take(i + 1).drop_last() =~= all.take(i as int));
        }
        match manifests.load_file(files[i].0.as_str(), files[i].1.as_str()) {
            Ok(_) => {},
            Err(fault) => {
                proof {
                    lemma_load_all_stops(nothing_loaded(), all, i as int + 1);
                }
                return Err((i, fault));
            },
        }
        i += 1;
    }
    assert(all.take(i as int) =~= all);
    Ok(manifests.finish())
}

/// Once a file is refused, no later file makes up for it.
pub proof fn lemma_load_all_stops(
    state: ManifestsView,
    files: Seq<(Seq<char>, Seq<char>)>,
    n: int,
)
    requires
        0 <= n <= files.len(),
        load_all(state, files.take(n)) is None,
    ensures
        load_all(state, files) is None,
    decreases files.len() - n,
{
    if n < files.len() {
        assert(files.take(n + 1).drop_last() =~= files.take(n));
        lemma_load_all_stops(state, files, n + 1);
    } else {
        assert(files.take(n) =~= files);
    }
}

} // verus!
