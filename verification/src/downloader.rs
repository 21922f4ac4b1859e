//! Fetching a file: what is asked of the origin, how the bytes are counted
//! and hashed while they pass, and what is said of the outcome.

use crate::entry::{MirrorFile, MirrorFileView};
use crate::source::{Source, SourceUrl, SourceView};
use crate::text::{decimal_digits, digit_char, digit_text, push_decimal, same_text};
use crate::utils::{absorbed, hex, sha256, to_hex, Sha256};
use vstd::prelude::*;
use vstd::string::*;

verus! {

/// Hashes and counts the bytes that a writer accepted, so that what is
/// hashed is what was written.
pub struct Sha256Writer {
    sha256: Sha256,
    len: usize,
}

impl Sha256Writer {
    /// The bytes that passed so far.
    pub closed spec fn written(&self) -> Seq<u8> {
        absorbed(self.sha256)
    }

    /// Whether the count is the number of bytes that passed.
    pub closed spec fn wf(&self) -> bool {
        self.len == absorbed(self.sha256).len()
    }

    /// A writer that nothing has passed yet.
    pub fn new() -> (r: Self)
        ensures
            r.wf(),
            r.written() == Seq::<u8>::empty(),
    {
        Sha256Writer { sha256: Sha256::new(), len: 0 }
    }

    /// Takes note that the first `written` bytes of `buf` were written.
    pub fn record(&mut self, buf: &[u8], written: usize)
        requires
            old(self).wf(),
            written <= buf@.len(),
            old(self).written().len() + written <= usize::MAX,
        ensures
            final(self).wf(),
            final(self).written() == old(self).written() + buf@.subrange(0, written as int),
    {
        let (accepted, _) = buf.split_at(written);
        self.sha256.update(accepted);
        self.len = self.len + written;
    }

    /// How many bytes passed.
    pub fn len(&self) -> (r: usize)
        requires
            self.wf(),
        ensures
            r == self.written().len(),
    {
        self.len
    }

    /// The running hash.
    pub fn sha256(&self) -> (r: &Sha256)
        ensures
            absorbed(*r) == self.written(),
    {
        &self.sha256
    }

    /// The running hash, the writer being done with.
    pub fn into_sha256(self) -> (r: Sha256)
        ensures
            absorbed(r) == self.written(),
    {
        self.sha256
    }

    /// The SHA-256 of the bytes that passed, in lower-case hex.
    pub fn hex_digest(&self) -> (r: String)
        ensures
            r@ == hex(sha256(self.written())),
    {
        to_hex(&self.sha256)
    }
}

/// One thousand to the power of `unit`.
pub open spec fn unit_size(unit: nat) -> nat
    decreases unit,
{
    if unit == 0 {
        1
    } else {
        1000 * unit_size((unit - 1) as nat)
    }
}

/// The unit in which `size` is shown: the first of bytes, kB, MB and GB in
/// which it stays below one thousand, TB where it does in none.
pub open spec fn unit_of(size: nat) -> nat {
    if size < 1000 {
        0
    } else if size < 1_000_000 {
        1
    } else if size < 1_000_000_000 {
        2
    } else if size < 1_000_000_000_000 {
        3
    } else {
        4
    }
}

/// The name of a unit.
pub open spec fn unit_name(unit: nat) -> Seq<char> {
    if unit == 0 {
        "bytes"@
    } else if unit == 1 {
        "kB"@
    } else if unit == 2 {
        "MB"@
    } else if unit == 3 {
        "GB"@
    } else {
        "TB"@
    }
}

/// `n / d` rounded to the nearest whole number, a tie to the even one.
pub open spec fn rounded(n: nat, d: nat) -> nat {
    let q = n / d;
    let r = n % d;
    if 2 * r > d || (2 * r == d && q % 2 == 1) {
        q + 1
    } else {
        q
    }
}

/// `hundredths` hundredths written with two decimals.
pub open spec fn two_decimals(hundredths: nat) -> Seq<char> {
    decimal_digits(hundredths / 100) + "."@ + seq![
        digit_char(hundredths % 100 / 10),
        digit_char(hundredths % 10),
    ]
}

/// How a size in bytes is shown: in the unit that suits it, with two
/// decimals.
pub open spec fn size_text(size: nat) -> Seq<char> {
    let unit = unit_of(size);
    two_decimals(rounded(size * 100, unit_size(unit))) + " "@ + unit_name(unit)
}

/// Shows a size in bytes.
pub fn format_size(size: usize) -> (r: String)
    ensures
        r@ == size_text(size as nat),
{
    let (unit, scale, name): (usize, u128, &str) = if size < 1000 {
        (0, 1, "bytes")
    } else if (size as u128) < 1_000_000 {
        (1, 1000, "kB")
    } else if (size as u128) < 1_000_000_000 {
        (2, 1_000_000, "MB")
    } else if (size as u128) < 1_000_000_000_000 {
        (3, 1_000_000_000, "GB")
    } else {
        (4, 1_000_000_000_000, "TB")
    };
    proof {
        reveal_with_fuel(unit_size, 5);
    }
    let total: u128 = size as u128 * 100;
    let q: u128 = total / scale;
    let rest: u128 = total % scale;
    let hundredths: u128 = if 2 * rest > scale || (2 * rest == scale && q % 2 == 1) {
        q + 1
    } else {
        q
    };
    let whole: usize = (hundredths / 100) as usize;
    let mut r = String::new();
    push_decimal(&mut r, whole);
    r.append(".");
    r.append(digit_text((hundredths % 100 / 10) as usize));
    r.append(digit_text((hundredths % 10) as usize));
    r.append(" ");
    r.append(name);
    r
}

/// What is said when a fetch starts.
pub open spec fn fetch_text(url: Seq<char>) -> Seq<char> {
    "downloading "@ + url + "..."@
}

/// What is said when a fetch of `len` bytes is done.
pub open spec fn fetched_text(len: nat) -> Seq<char> {
    "  -> success! the size is "@ + size_text(len)
}

/// The complaint about a file that cannot be fetched because it has no URL.
pub open spec fn legacy_fetch_text(name: Seq<char>) -> Seq<char> {
    "cannot download legacy file "@ + name
}

/// The complaint about content whose hash is not the declared one.
pub open spec fn mismatch_text(
    url: Seq<char>,
    expected: Seq<char>,
    downloaded: Seq<char>,
) -> Seq<char> {
    "the hash of "@ + url + " doesn't match (expected "@ + expected + ", downloaded "@
        + downloaded + ")"@
}

/// What is said when the fetch of `url` starts.
pub fn fetch_message(url: &str) -> (r: String)
    ensures
        r@ == fetch_text(url@),
{
    let mut r = String::from_str("downloading ");
    r.append(url);
    r.append("...");
    r
}

/// What is said when a fetch of `len` bytes is done.
pub fn fetched_message(len: usize) -> (r: String)
    ensures
        r@ == fetched_text(len as nat),
{
    let mut r = String::from_str("  -> success! the size is ");
    let size = format_size(len);
    r.append(size.as_str());
    r
}

/// The complaint about fetching the legacy file named `name`.
pub fn legacy_fetch_message(name: &str) -> (r: String)
    ensures
        r@ == legacy_fetch_text(name@),
{
    let mut r = String::from_str("cannot download legacy file ");
    r.append(name);
    r
}

/// Why a file was not fetched and verified.
#[derive(Debug, PartialEq, Eq)]
pub enum DownloadError {
    /// The file has no URL.
    Legacy { name: String },
    /// The content that came has another hash than the declared one.
    HashMismatch { url: String, expected: String, downloaded: String },
}

/// What a [`DownloadError`] stands for.
pub enum DownloadErrorView {
    Legacy { name: Seq<char> },
    HashMismatch { url: Seq<char>, expected: Seq<char>, downloaded: Seq<char> },
}

impl DeepView for DownloadError {
    type V = DownloadErrorView;

    open spec fn deep_view(&self) -> DownloadErrorView {
        match self {
            DownloadError::Legacy { name } => DownloadErrorView::Legacy { name: name@ },
            DownloadError::HashMismatch { url, expected, downloaded } => {
                DownloadErrorView::HashMismatch {
                    url: url@,
                    expected: expected@,
                    downloaded: downloaded@,
                }
            },
        }
    }
}

impl DownloadErrorView {
    /// The error as a message.
    pub open spec fn message(self) -> Seq<char> {
        match self {
            DownloadErrorView::Legacy { name } => legacy_fetch_text(name),
            DownloadErrorView::HashMismatch { url, expected, downloaded } => mismatch_text(
                url,
                expected,
                downloaded,
            ),
        }
    }
}

impl DownloadError {
    /// The error as a message.
    pub fn message(&self) -> (r: String)
        ensures
            r@ == self.deep_view().message(),
    {
        match self {
            DownloadError::Legacy { name } => legacy_fetch_message(name.as_str()),
            DownloadError::HashMismatch { url, expected, downloaded } => {
                let mut r = String::from_str("the hash of ");
                r.append(url.as_str());
                r.append(" doesn't match (expected ");
                r.append(expected.as_str());
                r.append(", downloaded ");
                r.append(downloaded.as_str());
                r.append(")");
                r
            },
        }
    }
}

/// What the check of fetched content says: nothing where `file` has a URL
/// and `downloaded` is its declared hash.
pub open spec fn download_fault(file: MirrorFileView, downloaded: Seq<char>) -> Option<
    DownloadErrorView,
> {
    match file.source {
        SourceView::Legacy => Some(DownloadErrorView::Legacy { name: file.name }),
        SourceView::Url(url) => {
            if downloaded == file.sha256 {
                None
            } else {
                Some(
                    DownloadErrorView::HashMismatch {
                        url: url.text,
                        expected: file.sha256,
                        downloaded,
                    },
                )
            }
        },
    }
}

/// The URL from which `file` is fetched.
pub fn download_url(file: &MirrorFile) -> (r: Result<&SourceUrl, DownloadError>)
    ensures
        match r {
            Ok(url) => file.deep_view().source == SourceView::Url(url.deep_view()),
            Err(fault) => file.deep_view().source is Legacy && fault.deep_view() == (
            DownloadErrorView::Legacy { name: file.name@ }),
        },
{
    match &file.source {
        Source::Url(url) => Ok(url),
        Source::Legacy => Err(DownloadError::Legacy { name: file.name.clone() }),
    }
}

/// Checks content that was fetched for `file` and has the hash
/// `downloaded`, in lower-case hex.
pub fn check_hash(file: &MirrorFile, downloaded: &str) -> (r: Result<(), DownloadError>)
    ensures
        match r {
            Ok(_) => download_fault(file.deep_view(), downloaded@) is None,
            Err(fault) => download_fault(file.deep_view(), downloaded@) == Some(fault.deep_view()),
        },
{
    match &file.source {
        Source::Legacy => Err(DownloadError::Legacy { name: file.name.clone() }),
        Source::Url(url) => {
            if same_text(downloaded, file.sha256.as_str()) {
                Ok(())
            } else {
                Err(
                    DownloadError::HashMismatch {
                        url: String::from_str(url.as_str()),
                        expected: file.sha256.clone(),
                        downloaded: String::from_str(downloaded),
                    },
                )
            }
        },
    }
}

/// Checks the content that passed through `writer` while `file` was
/// fetched: it is accepted exactly where its SHA-256 is the declared one.
pub fn check_download(file: &MirrorFile, writer: &Sha256Writer) -> (r: Result<(), DownloadError>)
    ensures
        match r {
            Ok(_) => download_fault(file.deep_view(), hex(sha256(writer.written()))) is None,
            Err(fault) => download_fault(file.deep_view(), hex(sha256(writer.written())))
                == Some(fault.deep_view()),
        },
{
    let downloaded = writer.hex_digest();
    check_hash(file, downloaded.as_str())
}

} // verus!
