//! The entries of a manifest: the two shapes in which a file is declared, and
//! the one shape in which the rest of the library sees it.

use crate::document::{RawField, RawFieldView};
use crate::source::{source_url_of, Source, SourceUrl, SourceUrlView, SourceView};
use crate::text::same_text;
use vstd::prelude::*;
use vstd::string::*;

verus! {

/// One declared mirrored file.
#[derive(Debug, PartialEq, Eq)]
pub struct MirrorFile {
    /// The key under which the store serves the file.
    pub name: String,
    /// The SHA-256 of the content, in lower-case hex.
    pub sha256: String,
    /// Where the content comes from.
    pub source: Source,
    /// The file's name at the origin, kept where the key names it otherwise.
    pub rename_from: Option<String>,
}

/// What a [`MirrorFile`] stands for.
pub struct MirrorFileView {
    pub name: Seq<char>,
    pub sha256: Seq<char>,
    pub source: SourceView,
    pub rename_from: Option<Seq<char>>,
}

impl DeepView for MirrorFile {
    type V = MirrorFileView;

    open spec fn deep_view(&self) -> MirrorFileView {
        MirrorFileView {
            name: self.name@,
            sha256: self.sha256@,
            source: self.source.deep_view(),
            rename_from: self.rename_from.deep_view(),
        }
    }
}

fn clone_text(text: &Option<String>) -> (r: Option<String>)
    ensures
        r == *text,
{
    match text {
        Some(t) => Some(t.clone()),
        None => None,
    }
}

impl Clone for MirrorFile {
    fn clone(&self) -> (r: Self)
        ensures
            r == *self,
    {
        MirrorFile {
            name: self.name.clone(),
            sha256: self.sha256.clone(),
            source: self.source.clone(),
            rename_from: clone_text(&self.rename_from),
        }
    }
}

/// An entry for a file that was put in the store before hashes were tracked.
#[derive(Debug, PartialEq, Eq)]
pub struct ManifestFileLegacy {
    pub name: String,
    pub sha256: String,
    /// Whether the entry is left out when entries are held against each other.
    pub skip_validation: bool,
}

/// What a [`ManifestFileLegacy`] stands for.
pub struct LegacyView {
    pub name: Seq<char>,
    pub sha256: Seq<char>,
    pub skip_validation: bool,
}

impl DeepView for ManifestFileLegacy {
    type V = LegacyView;

    open spec fn deep_view(&self) -> LegacyView {
        LegacyView { name: self.name@, sha256: self.sha256@, skip_validation: self.skip_validation }
    }
}

/// An entry for a file that is fetched from a URL.
#[derive(Debug, PartialEq, Eq)]
pub struct ManifestFileManaged {
    name: String,
    sha256: String,
    source: SourceUrl,
    // Nothing reads the license: an entry has to state one so that whoever
    // adds a file has thought about it.
    license: String,
    rename_from: Option<String>,
}

/// What a [`ManifestFileManaged`] stands for.
pub struct ManagedView {
    pub name: Seq<char>,
    pub sha256: Seq<char>,
    pub source: SourceUrlView,
    pub license: Seq<char>,
    pub rename_from: Option<Seq<char>>,
}

impl DeepView for ManifestFileManaged {
    type V = ManagedView;

    closed spec fn deep_view(&self) -> ManagedView {
        ManagedView {
            name: self.name@,
            sha256: self.sha256@,
            source: self.source.deep_view(),
            license: self.license@,
            rename_from: self.rename_from.deep_view(),
        }
    }
}

impl ManagedView {
    /// The fields that spell the entry in a manifest, in the order in
    /// which they are written: a `rename-from` only where there is one.
    pub open spec fn fields(self) -> Seq<(Seq<char>, Seq<char>)> {
        let fixed = seq![
            ("name"@, self.name),
            ("sha256"@, self.sha256),
            ("source"@, self.source.text),
            ("license"@, self.license),
        ];
        match self.rename_from {
            Some(given) => fixed.push(("rename-from"@, given)),
            None => fixed,
        }
    }
}

impl ManifestFileManaged {
    /// The fields that spell the entry in a manifest.
    pub fn fields(&self) -> (r: Vec<(String, String)>)
        ensures
            r.deep_view() == self.deep_view().fields(),
    {
        let mut r: Vec<(String, String)> = Vec::new();
        r.push((String::from_str("name"), self.name.clone()));
        r.push((String::from_str("sha256"), self.sha256.clone()));
        r.push((String::from_str("source"), String::from_str(self.source.as_str())));
        r.push((String::from_str("license"), self.license.clone()));
        if let Some(given) = &self.rename_from {
            r.push((String::from_str("rename-from"), given.clone()));
        }
        r
    }

    /// The entry as TOML, as it stands below a `[[files]]` heading; `None`
    /// where the writer refuses it.
    pub fn to_toml(&self) -> (r: Option<String>)
        ensures
            r.deep_view() == crate::document::toml_text(self.deep_view().fields()),
    {
        crate::document::write_toml(&self.fields())
    }

    pub fn new(
        name: String,
        sha256: String,
        source: SourceUrl,
        license: String,
        rename_from: Option<String>,
    ) -> (r: Self)
        ensures
            r.deep_view() == (ManagedView {
                name: name@,
                sha256: sha256@,
                source: source.deep_view(),
                license: license@,
                rename_from: rename_from.deep_view(),
            }),
    {
        Self { name, sha256, source, license, rename_from }
    }
}

/// An entry of a manifest, in one of its two shapes.
#[derive(Debug, PartialEq, Eq)]
pub enum ManifestFile {
    Legacy(ManifestFileLegacy),
    Managed(ManifestFileManaged),
}

/// What a [`ManifestFile`] stands for.
pub enum ManifestFileView {
    Legacy(LegacyView),
    Managed(ManagedView),
}

impl DeepView for ManifestFile {
    type V = ManifestFileView;

    open spec fn deep_view(&self) -> ManifestFileView {
        match self {
            ManifestFile::Legacy(f) => ManifestFileView::Legacy(f.deep_view()),
            ManifestFile::Managed(f) => ManifestFileView::Managed(f.deep_view()),
        }
    }
}

impl ManifestFileView {
    /// The file that the entry declares.
    pub open spec fn mirror_file(self) -> MirrorFileView {
        match self {
            ManifestFileView::Legacy(f) => MirrorFileView {
                name: f.name,
                sha256: f.sha256,
                source: SourceView::Legacy,
                rename_from: None,
            },
            ManifestFileView::Managed(f) => MirrorFileView {
                name: f.name,
                sha256: f.sha256,
                source: SourceView::Url(f.source),
                rename_from: f.rename_from,
            },
        }
    }

    /// Whether the entry is held against the others for collisions.
    pub open spec fn validated(self) -> bool {
        match self {
            ManifestFileView::Legacy(f) => !f.skip_validation,
            ManifestFileView::Managed(_) => true,
        }
    }
}

impl ManifestFile {
    /// The file that the entry declares.
    pub fn into_mirror_file(self) -> (r: MirrorFile)
        ensures
            r.deep_view() == self.deep_view().mirror_file(),
    {
        match self {
            ManifestFile::Legacy(legacy) => MirrorFile {
                name: legacy.name,
                sha256: legacy.sha256,
                source: Source::Legacy,
                rename_from: None,
            },
            ManifestFile::Managed(managed) => MirrorFile {
                name: managed.name,
                sha256: managed.sha256,
                source: Source::Url(managed.source),
                rename_from: managed.rename_from,
            },
        }
    }

    /// Whether the entry is held against the others for collisions.
    pub fn validated(&self) -> (r: bool)
        ensures
            r == self.deep_view().validated(),
    {
        match self {
            ManifestFile::Legacy(legacy) => !legacy.skip_validation,
            ManifestFile::Managed(_) => true,
        }
    }
}

/// The fields of a table, by key.
pub type Fields = Seq<(Seq<char>, RawFieldView)>;

/// The value that `fields` holds under `key`: that of the first field with
/// this key.
pub open spec fn field_of(fields: Fields, key: Seq<char>) -> Option<RawFieldView>
    decreases fields.len(),
{
    if fields.len() == 0 {
        None
    } else if fields[0].0 == key {
        Some(fields[0].1)
    } else {
        field_of(fields.drop_first(), key)
    }
}

/// Whether every key of `fields` is one of `allowed`.
pub open spec fn keys_within(fields: Fields, allowed: Set<Seq<char>>) -> bool {
    forall|i: int| 0 <= i < fields.len() ==> allowed.contains(#[trigger] fields[i].0)
}

/// The keys that the legacy shape knows.
pub open spec fn legacy_keys() -> Set<Seq<char>> {
    set!["name"@, "sha256"@, "legacy"@, "skip-validation"@]
}

/// The keys that the managed shape knows.
pub open spec fn managed_keys() -> Set<Seq<char>> {
    set!["name"@, "sha256"@, "source"@, "license"@, "rename-from"@]
}

/// The text under `key`, where a text stands there.
pub open spec fn text_of(fields: Fields, key: Seq<char>) -> Option<Seq<char>> {
    match field_of(fields, key) {
        Some(RawFieldView::Text(text)) => Some(text),
        _ => None,
    }
}

/// Whether `key` is absent or holds a value of the kind that `wanted` tells.
pub open spec fn absent_or(
    fields: Fields,
    key: Seq<char>,
    wanted: spec_fn(RawFieldView) -> bool,
) -> bool {
    match field_of(fields, key) {
        Some(value) => wanted(value),
        None => true,
    }
}

/// The legacy entry that `fields` spell: a name, a hash, `legacy = true`,
/// perhaps `skip-validation`, and no other key.
pub open spec fn legacy_of(fields: Fields) -> Option<LegacyView> {
    if keys_within(fields, legacy_keys()) && text_of(fields, "name"@) is Some && text_of(
        fields,
        "sha256"@,
    ) is Some && field_of(fields, "legacy"@) == Some(RawFieldView::Flag(true)) && absent_or(
        fields,
        "skip-validation"@,
        |v: RawFieldView| v is Flag,
    ) {
        Some(
            LegacyView {
                name: text_of(fields, "name"@)->0,
                sha256: text_of(fields, "sha256"@)->0,
                skip_validation: field_of(fields, "skip-validation"@) == Some(
                    RawFieldView::Flag(true),
                ),
            },
        )
    } else {
        None
    }
}

/// The managed entry that `fields` spell where the text under `source` was
/// read as the URL `source`: a name, a hash, a source that is a URL, a
/// license, perhaps `rename-from`, and no other key.
pub open spec fn managed_with(fields: Fields, source: Option<SourceUrlView>) -> Option<
    ManagedView,
> {
    if keys_within(fields, managed_keys()) && text_of(fields, "name"@) is Some && text_of(
        fields,
        "sha256"@,
    ) is Some && text_of(fields, "source"@) is Some && source is Some && text_of(
        fields,
        "license"@,
    ) is Some && absent_or(fields, "rename-from"@, |v: RawFieldView| v is Text) {
        Some(
            ManagedView {
                name: text_of(fields, "name"@)->0,
                sha256: text_of(fields, "sha256"@)->0,
                source: source->0,
                license: text_of(fields, "license"@)->0,
                rename_from: text_of(fields, "rename-from"@),
            },
        )
    } else {
        None
    }
}

/// The URL that the text under `source` is read as, where there is one.
pub open spec fn source_of(fields: Fields) -> Option<SourceUrlView> {
    match text_of(fields, "source"@) {
        Some(text) => source_url_of(text),
        None => None,
    }
}

/// The managed entry that `fields` spell.
pub open spec fn managed_of(fields: Fields) -> Option<ManagedView> {
    managed_with(fields, source_of(fields))
}

/// The entry that `fields` spell: a legacy entry, else a managed one, else
/// none.
pub open spec fn entry_of(fields: Fields) -> Option<ManifestFileView> {
    match legacy_of(fields) {
        Some(legacy) => Some(ManifestFileView::Legacy(legacy)),
        None => match managed_of(fields) {
            Some(managed) => Some(ManifestFileView::Managed(managed)),
            None => None,
        },
    }
}

/// The value that `fields` holds under `key`.
pub fn lookup<'a>(fields: &'a Vec<(String, RawField)>, key: &str) -> (r: Option<&'a RawField>)
    ensures
        r.deep_view() == field_of(fields.deep_view(), key@),
{
    let mut i: usize = 0;
    assert(fields.deep_view().skip(0) =~= fields.deep_view());
    while i < fields.len()
        invariant
            i <= fields.len(),
            field_of(fields.deep_view(), key@) == field_of(fields.deep_view().skip(i as int), key@),
        decreases fields.len() - i,
    {
        if same_text(fields[i].0.as_str(), key) {
            return Some(&fields[i].1);
        }
        assert(fields.deep_view().skip(i as int).drop_first() =~= fields.deep_view().skip(i + 1));
        i += 1;
    }
    None
}

fn lookup_text<'a>(fields: &'a Vec<(String, RawField)>, key: &str) -> (r: Option<&'a String>)
    ensures
        r.deep_view() == text_of(fields.deep_view(), key@),
{
    match lookup(fields, key) {
        Some(RawField::Text(text)) => Some(text),
        _ => None,
    }
}

fn is_legacy_key(key: &str) -> (r: bool)
    ensures
        r == legacy_keys().contains(key@),
{
    same_text(key, "name") || same_text(key, "sha256") || same_text(key, "legacy") || same_text(
        key,
        "skip-validation",
    )
}

fn is_managed_key(key: &str) -> (r: bool)
    ensures
        r == managed_keys().contains(key@),
{
    same_text(key, "name") || same_text(key, "sha256") || same_text(key, "source") || same_text(
        key,
        "license",
    ) || same_text(key, "rename-from")
}

fn legacy_keys_only(fields: &Vec<(String, RawField)>) -> (r: bool)
    ensures
        r == keys_within(fields.deep_view(), legacy_keys()),
{
    let mut i: usize = 0;
    while i < fields.len()
        invariant
            i <= fields.len(),
            forall|j: int| 0 <= j < i ==> legacy_keys().contains(#[trigger] fields.deep_view()[j].0),
        decreases fields.len() - i,
    {
        if !is_legacy_key(fields[i].0.as_str()) {
            assert(!legacy_keys().contains(fields.deep_view()[i as int].0));
            return false;
        }
        i += 1;
    }
    true
}

fn managed_keys_only(fields: &Vec<(String, RawField)>) -> (r: bool)
    ensures
        r == keys_within(fields.deep_view(), managed_keys()),
{
    let mut i: usize = 0;
    while i < fields.len()
        invariant
            i <= fields.len(),
            forall|j: int| 0 <= j < i ==> managed_keys().contains(#[trigger] fields.deep_view()[j].0),
        decreases fields.len() - i,
    {
        if !is_managed_key(fields[i].0.as_str()) {
            assert(!managed_keys().contains(fields.deep_view()[i as int].0));
            return false;
        }
        i += 1;
    }
    true
}

/// Reads `fields` as a legacy entry.
pub fn read_legacy(fields: &Vec<(String, RawField)>) -> (r: Option<ManifestFileLegacy>)
    ensures
        r.deep_view() == legacy_of(fields.deep_view()),
{
    if !legacy_keys_only(fields) {
        return None;
    }
    let name = match lookup_text(fields, "name") {
        Some(text) => text.clone(),
        None => { return None; },
    };
    let sha256 = match lookup_text(fields, "sha256") {
        Some(text) => text.clone(),
        None => { return None; },
    };
    match lookup(fields, "legacy") {
        Some(RawField::Flag(true)) => {},
        _ => { return None; },
    }
    let skip_validation = match lookup(fields, "skip-validation") {
        Some(RawField::Flag(flag)) => *flag,
        Some(_) => { return None; },
        None => false,
    };
    Some(ManifestFileLegacy { name, sha256, skip_validation })
}

/// Reads `fields` as a managed entry, `source` being the URL that the text
/// under `source` was read as.
pub fn read_managed_with(fields: &Vec<(String, RawField)>, source: Option<SourceUrl>) -> (r:
    Option<ManifestFileManaged>)
    ensures
        r.deep_view() == managed_with(fields.deep_view(), source.deep_view()),
{
    if !managed_keys_only(fields) {
        return None;
    }
    let name = match lookup_text(fields, "name") {
        Some(text) => text.clone(),
        None => { return None; },
    };
    let sha256 = match lookup_text(fields, "sha256") {
        Some(text) => text.clone(),
        None => { return None; },
    };
    if lookup_text(fields, "source").is_none() {
        return None;
    }
    let source = match source {
        Some(url) => url,
        None => { return None; },
    };
    let license = match lookup_text(fields, "license") {
        Some(text) => text.clone(),
        None => { return None; },
    };
    let rename_from = match lookup(fields, "rename-from") {
        Some(RawField::Text(text)) => Some(text.clone()),
        Some(_) => { return None; },
        None => None,
    };
    Some(ManifestFileManaged::new(name, sha256, source, license, rename_from))
}

/// Reads `fields` as a managed entry.
pub fn read_managed(fields: &Vec<(String, RawField)>) -> (r: Option<ManifestFileManaged>)
    ensures
        r.deep_view() == managed_of(fields.deep_view()),
{
    let source = match lookup_text(fields, "source") {
        Some(text) => SourceUrl::parse(text.as_str()),
        None => None,
    };
    read_managed_with(fields, source)
}

/// Reads `fields` as an entry of a manifest.
pub fn read_entry(fields: &Vec<(String, RawField)>) -> (r: Option<ManifestFile>)
    ensures
        r.deep_view() == entry_of(fields.deep_view()),
{
    match read_legacy(fields) {
        Some(legacy) => Some(ManifestFile::Legacy(legacy)),
        None => match read_managed(fields) {
            Some(managed) => Some(ManifestFile::Managed(managed)),
            None => None,
        },
    }
}

/// The fields that a parser reads where `fields` were written as strings.
pub open spec fn as_texts(fields: Seq<(Seq<char>, Seq<char>)>) -> Fields {
    Seq::new(fields.len(), |i: int| (fields[i].0, RawFieldView::Text(fields[i].1)))
}

/// The fields that are written for a managed entry read back as that
/// entry: the same name, hash, source, license and `rename-from`.
pub proof fn lemma_managed_fields_read_back(entry: ManagedView)
    requires
        entry.source.wf(),
    ensures
        entry_of(as_texts(entry.fields())) == Some(ManifestFileView::Managed(entry)),
{
    reveal_strlit("name");
    reveal_strlit("sha256");
    reveal_strlit("source");
    reveal_strlit("license");
    reveal_strlit("rename-from");
    reveal_strlit("legacy");
    reveal_strlit("skip-validation");
    reveal_with_fuel(field_of, 7);
    let fields = as_texts(entry.fields());
    assert("name"@ != "sha256"@ && "name"@ != "source"@ && "name"@ != "license"@ && "name"@
        != "rename-from"@) by {
        assert("name"@.len() == 4);
    }
    assert("sha256"@ != "source"@ && "sha256"@ != "license"@ && "sha256"@ != "rename-from"@) by {
        assert("sha256"@[1] == 'h');
    }
    assert("source"@ != "license"@ && "source"@ != "rename-from"@ && "license"@
        != "rename-from"@) by {
        assert("source"@.len() == 6);
        assert("license"@.len() == 7);
    }
    assert("source"@ != "legacy"@ && "source"@ != "skip-validation"@) by {
        assert("source"@[0] == 's');
        assert("source"@.len() == 6);
    }
    assert(keys_within(fields, managed_keys())) by {
        assert forall|i: int| 0 <= i < fields.len() implies managed_keys().contains(
            #[trigger] fields[i].0,
        ) by {}
    }
    let rest = fields.drop_first().drop_first().drop_first().drop_first();
    match entry.rename_from {
        Some(given) => {
            assert(rest[0] == fields[4]);
        },
        None => {
            assert(rest.len() == 0);
        },
    }
}

} // verus!
