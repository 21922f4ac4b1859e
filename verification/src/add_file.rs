//! Declaring one more file: the entry for it, and the text that goes at the
//! end of a manifest.

use crate::document::toml_text;
use crate::entry::{ManagedView, ManifestFileManaged};
use crate::source::{SourceUrl, SourceUrlView};
use crate::text::{last_segment, last_segment_of, same_text};
use crate::utils::{absorbed, hex, sha256, to_hex, Sha256};
use vstd::prelude::*;
use vstd::string::*;

verus! {

/// The `rename-from` that an entry for `url` under the name `path` needs:
/// the URL's file name where the name ends otherwise, else none.
pub open spec fn rename_hint_of(url: SourceUrlView, path: Seq<char>) -> Option<Seq<char>> {
    if url.file_name() != last_segment(path) {
        Some(url.file_name())
    } else {
        None
    }
}

/// The `rename-from` that an entry for `url` under the name `path` needs.
pub fn rename_hint(url: &SourceUrl, path: &str) -> (r: Option<String>)
    ensures
        r.deep_view() == rename_hint_of(url.deep_view(), path@),
{
    let file_name = url.file_name();
    let path_name = last_segment_of(path);
    if !same_text(file_name, path_name) {
        Some(String::from_str(file_name))
    } else {
        None
    }
}

/// The entry that declares the file at `url` under the name `path`, with
/// content hash `sha256`. Without a license the entry states an empty one.
pub open spec fn new_entry_of(
    url: SourceUrlView,
    path: Seq<char>,
    sha256: Seq<char>,
    license: Option<Seq<char>>,
) -> ManagedView {
    ManagedView {
        name: path,
        sha256,
        source: url,
        license: match license {
            Some(text) => text,
            None => Seq::empty(),
        },
        rename_from: rename_hint_of(url, path),
    }
}

/// The entry that declares the file at `url` under the name `path`, with
/// content hash `sha256`.
pub fn new_entry(url: SourceUrl, path: String, sha256: String, license: Option<String>) -> (r:
    ManifestFileManaged)
    ensures
        r.deep_view() == new_entry_of(url.deep_view(), path@, sha256@, license.deep_view()),
{
    let rename_from = rename_hint(&url, path.as_str());
    let license = match license {
        Some(text) => text,
        None => String::new(),
    };
    ManifestFileManaged::new(path, sha256, url, license, rename_from)
}

/// What is written at the end of a manifest for one more entry: a blank
/// line where the manifest is there already, the heading, and the entry.
pub open spec fn entry_block_of(file_existed: bool, entry: Seq<char>) -> Seq<char> {
    (if file_existed {
        "\n"@
    } else {
        Seq::empty()
    }) + "[[files]]\n"@ + entry
}

/// What is written at the end of a manifest for one more entry, `entry`
/// being the entry as TOML.
pub fn entry_block(file_existed: bool, entry: &str) -> (r: String)
    ensures
        r@ == entry_block_of(file_existed, entry@),
{
    let mut r = String::new();
    if file_existed {
        r.append("\n");
    }
    r.append("[[files]]\n");
    r.append(entry);
    r
}

/// What is written at the end of a manifest to declare the file at `url`
/// under the name `path`, `hash` having been fed the content; `None` where
/// the entry cannot be written as TOML.
pub fn add_file(
    url: SourceUrl,
    path: String,
    hash: &Sha256,
    license: Option<String>,
    file_existed: bool,
) -> (r: Option<String>)
    ensures
        r.deep_view() == match toml_text(
            new_entry_of(
                url.deep_view(),
                path@,
                hex(sha256(absorbed(*hash))),
                license.deep_view(),
            ).fields(),
        ) {
            Some(entry) => Some(entry_block_of(file_existed, entry)),
            None => None,
        },
{
    let entry = new_entry(url, path, to_hex(hash), license);
    match entry.to_toml() {
        Some(text) => Some(entry_block(file_existed, text.as_str())),
        None => None,
    }
}

} // verus!
