//! What the store says of a file, and how it is asked.
//!
//! The store keeps the content of a file under its name and, for files that
//! this library has put there, the hash of the content under the name with
//! `.sha256` behind it. Asking takes two steps, which a caller carries out
//! one after the other: the hash first, the file itself only where there is
//! no hash.

use crate::text::{plus_escaped, push_decimal, push_plus_escaped, trim, trimmed, decimal_digits};
use vstd::prelude::*;
use vstd::string::*;

verus! {

/// What the store holds for a file.
#[derive(Debug, PartialEq, Eq)]
pub enum FileStatus {
    /// Neither the file nor its hash.
    Missing,
    /// The file, but no hash: it was put there before hashes were tracked.
    Legacy,
    /// A hash, which is this one.
    Present { sha256: String },
}

/// What a [`FileStatus`] stands for.
pub enum FileStatusView {
    Missing,
    Legacy,
    Present { sha256: Seq<char> },
}

impl DeepView for FileStatus {
    type V = FileStatusView;

    open spec fn deep_view(&self) -> FileStatusView {
        match self {
            FileStatus::Missing => FileStatusView::Missing,
            FileStatus::Legacy => FileStatusView::Legacy,
            FileStatus::Present { sha256 } => FileStatusView::Present { sha256: sha256@ },
        }
    }
}

/// The key under which the hash of the file named `path` is kept.
pub open spec fn sidecar_of(path: Seq<char>) -> Seq<char> {
    path + ".sha256"@
}

/// The key under which the hash of the file named `path` is kept.
pub fn sidecar_key(path: &str) -> (r: String)
    ensures
        r@ == sidecar_of(path@),
{
    let mut r = String::from_str(path);
    r.append(".sha256");
    r
}

/// The status of a file for which the store gave `sidecar` under the hash
/// key, and of which it said `exists`: the hash without the white space
/// around it where there is one, else whether the file is there.
pub open spec fn status_of(sidecar: Option<Seq<char>>, exists: bool) -> FileStatusView {
    match sidecar {
        Some(hash) => FileStatusView::Present { sha256: trimmed(hash) },
        None => if exists {
            FileStatusView::Legacy
        } else {
            FileStatusView::Missing
        },
    }
}

/// What to do next while the status of a file is being found out.
#[derive(Debug, PartialEq, Eq)]
pub enum Probe {
    /// Ask the store for the text under this key.
    GetText(String),
    /// Ask the store whether it holds this key.
    Exists(String),
    /// The status is known.
    Done(FileStatus),
}

/// What a [`Probe`] stands for.
pub enum ProbeView {
    GetText(Seq<char>),
    Exists(Seq<char>),
    Done(FileStatusView),
}

impl DeepView for Probe {
    type V = ProbeView;

    open spec fn deep_view(&self) -> ProbeView {
        match self {
            Probe::GetText(key) => ProbeView::GetText(key@),
            Probe::Exists(key) => ProbeView::Exists(key@),
            Probe::Done(status) => ProbeView::Done(status.deep_view()),
        }
    }
}

/// The first step for the file named `path`: ask for its hash.
pub fn probe_start(path: &str) -> (r: Probe)
    ensures
        r.deep_view() == ProbeView::GetText(sidecar_of(path@)),
{
    Probe::GetText(sidecar_key(path))
}

/// The step after the store answered `sidecar` for the hash of the file
/// named `path`: with a hash the status is known, without one the file
/// itself is asked for.
pub fn probe_sidecar(path: &str, sidecar: Option<String>) -> (r: Probe)
    ensures
        r.deep_view() == match sidecar {
            Some(hash) => ProbeView::Done(status_of(Some(hash@), false)),
            None => ProbeView::Exists(path@),
        },
{
    match sidecar {
        Some(hash) => Probe::Done(file_status(Some(hash), false)),
        None => Probe::Exists(String::from_str(path)),
    }
}

/// The status of a file without a hash, of which the store said `exists`.
pub fn probe_exists(exists: bool) -> (r: FileStatus)
    ensures
        r.deep_view() == status_of(None, exists),
{
    if exists {
        FileStatus::Legacy
    } else {
        FileStatus::Missing
    }
}

/// The status of a file from both answers of the store at once.
pub fn file_status(sidecar: Option<String>, exists: bool) -> (r: FileStatus)
    ensures
        r.deep_view() == status_of(sidecar.deep_view(), exists),
{
    match sidecar {
        Some(hash) => FileStatus::Present { sha256: String::from_str(trim(hash.as_str())) },
        None => probe_exists(exists),
    }
}

/// The URL at which a CDN under `cdn_url` serves the text of `path`: a `+`
/// in the path is written `%2B`.
pub open spec fn text_url_of(cdn_url: Seq<char>, path: Seq<char>) -> Seq<char> {
    cdn_url + "/"@ + plus_escaped(path)
}

/// The URL at which a CDN under `cdn_url` is asked whether it has `path`.
pub open spec fn head_url_of(cdn_url: Seq<char>, path: Seq<char>) -> Seq<char> {
    cdn_url + "/"@ + path
}

/// The URL at which a CDN under `cdn_url` serves the text of `path`.
pub fn cdn_text_url(cdn_url: &str, path: &str) -> (r: String)
    ensures
        r@ == text_url_of(cdn_url@, path@),
{
    let mut r = String::from_str(cdn_url);
    r.append("/");
    push_plus_escaped(&mut r, path);
    r
}

/// The URL at which a CDN under `cdn_url` is asked whether it has `path`.
pub fn cdn_head_url(cdn_url: &str, path: &str) -> (r: String)
    ensures
        r@ == head_url_of(cdn_url@, path@),
{
    let mut r = String::from_str(cdn_url);
    r.append("/");
    r.append(path);
    r
}

/// What an HTTP status says of the object that was asked for.
#[derive(Clone, Copy, Debug, PartialEq, Eq)]
pub enum Lookup {
    /// It is there: status 200.
    Found,
    /// It is not there: status 404, or 403, which a CDN gives for a key
    /// that it does not have.
    Absent,
    /// Something else happened.
    Unexpected,
}

/// What HTTP status `code` says of the object that was asked for.
pub open spec fn lookup_of(code: u16) -> Lookup {
    if code == 200 {
        Lookup::Found
    } else if code == 404 || code == 403 {
        Lookup::Absent
    } else {
        Lookup::Unexpected
    }
}

/// What HTTP status `code` says of the object that was asked for.
pub fn read_status(code: u16) -> (r: Lookup)
    ensures
        r == lookup_of(code),
{
    if code == 200 {
        Lookup::Found
    } else if code == 404 || code == 403 {
        Lookup::Absent
    } else {
        Lookup::Unexpected
    }
}

/// The reason phrase that `reqwest::StatusCode::canonical_reason` gives for
/// `code`; `None` where it gives none or `code` is no status code.
pub uninterp spec fn reason_phrase(code: u16) -> Option<Seq<char>>;

/// Calls `reqwest::StatusCode::from_u16` and, where that gives a status
/// code, `StatusCode::canonical_reason`. The contract only gives the
/// outcome a name.
#[verifier::external_body]
fn canonical_reason(code: u16) -> (r: Option<String>)
    ensures
        r.deep_view() == reason_phrase(code),
{
    match reqwest::StatusCode::from_u16(code) {
        Ok(status) => status.canonical_reason().map(str::to_owned),
        Err(_) => None,
    }
}

/// How a status is shown: the code, then the reason phrase, or a remark
/// where there is none.
pub open spec fn status_text(code: u16, reason: Option<Seq<char>>) -> Seq<char> {
    decimal_digits(code as nat) + " "@ + match reason {
        Some(phrase) => phrase,
        None => "<unknown status code>"@,
    }
}

/// The complaint about a status that is neither found nor absent.
pub open spec fn unexpected_status_text(
    code: u16,
    reason: Option<Seq<char>>,
    url: Seq<char>,
) -> Seq<char> {
    "unexpected status "@ + status_text(code, reason) + " when requesting "@ + url
}

/// The complaint about status `code`, whose reason phrase is `reason`, in
/// answer to a request for `url`.
pub fn unexpected_status_with(code: u16, reason: Option<&str>, url: &str) -> (r: String)
    ensures
        r@ == unexpected_status_text(code, reason.deep_view(), url@),
{
    let mut r = String::from_str("unexpected status ");
    push_decimal(&mut r, code as usize);
    r.append(" ");
    match reason {
        Some(phrase) => r.append(phrase),
        None => r.append("<unknown status code>"),
    }
    r.append(" when requesting ");
    r.append(url);
    r
}

/// The complaint about status `code` in answer to a request for `url`.
pub fn unexpected_status(code: u16, url: &str) -> (r: String)
    ensures
        r@ == unexpected_status_text(code, reason_phrase(code), url@),
{
    match canonical_reason(code) {
        Some(phrase) => unexpected_status_with(code, Some(phrase.as_str()), url),
        None => unexpected_status_with(code, None, url),
    }
}

} // verus!
