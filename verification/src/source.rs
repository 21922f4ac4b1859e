//! Where the content of a mirrored file comes from.

use crate::text::{last_segment, last_segment_of};
use vstd::prelude::*;
use vstd::string::*;

verus! {

/// What `reqwest::Url::parse` makes of `raw`: the text of the URL in its
/// normal form and the path in it, or `None` where `raw` is no URL.
pub uninterp spec fn url_parts(raw: Seq<char>) -> Option<(Seq<char>, Seq<char>)>;

/// Calls `reqwest::Url::parse` and hands back what `Url::as_str` and
/// `Url::path` say of the URL. The contract only gives the pair a name:
/// nothing is claimed of which texts parse, nor of what a path looks like.
#[verifier::external_body]
fn parse_url(raw: &str) -> (r: Option<(String, String)>)
    ensures
        r matches Some(p) ==> url_parts(raw@) == Some((p.0@, p.1@)),
        r is None ==> url_parts(raw@) is None,
{
    match reqwest::Url::parse(raw) {
        Ok(url) => Some((url.as_str().to_owned(), url.path().to_owned())),
        Err(_) => None,
    }
}

/// A URL in its normal form, with the path in it.
#[derive(Debug, PartialEq, Eq)]
pub struct SourceUrl {
    text: String,
    path: String,
}

/// What a [`SourceUrl`] stands for.
pub struct SourceUrlView {
    pub text: Seq<char>,
    pub path: Seq<char>,
}

impl DeepView for SourceUrl {
    type V = SourceUrlView;

    closed spec fn deep_view(&self) -> SourceUrlView {
        SourceUrlView { text: self.text@, path: self.path@ }
    }
}

impl Clone for SourceUrl {
    fn clone(&self) -> (r: Self)
        ensures
            r == *self,
    {
        SourceUrl { text: self.text.clone(), path: self.path.clone() }
    }
}

impl SourceUrlView {
    /// Whether this is a URL in normal form: parsing its text gives it back.
    pub open spec fn wf(self) -> bool {
        url_parts(self.text) == Some((self.text, self.path))
    }

    /// The last segment of the path: the name of the file at the origin.
    pub open spec fn file_name(self) -> Seq<char> {
        last_segment(self.path)
    }
}

/// The URL that `raw` is taken for: its normal form, where parsing the
/// normal form gives the same URL again; `None` where `raw` is no URL.
pub open spec fn source_url_of(raw: Seq<char>) -> Option<SourceUrlView> {
    match url_parts(raw) {
        Some(parts) => {
            let url = SourceUrlView { text: parts.0, path: parts.1 };
            if url.wf() {
                Some(url)
            } else {
                None
            }
        },
        None => None,
    }
}

fn same_parts(a: &(String, String), b: &Option<(String, String)>) -> (r: bool)
    ensures
        r == (b matches Some(p) && p.0@ == a.0@ && p.1@ == a.1@),
{
    match b {
        Some(p) => p.0 == a.0 && p.1 == a.1,
        None => false,
    }
}

impl SourceUrl {
    /// Reads `raw` as a URL and keeps its normal form.
    pub fn parse(raw: &str) -> (r: Option<SourceUrl>)
        ensures
            r.deep_view() == source_url_of(raw@),
            r matches Some(url) ==> url.deep_view().wf(),
    {
        match parse_url(raw) {
            Some(parts) => {
                let again = parse_url(parts.0.as_str());
                if same_parts(&parts, &again) {
                    Some(SourceUrl { text: parts.0, path: parts.1 })
                } else {
                    None
                }
            },
            None => None,
        }
    }

    /// The URL as text.
    pub fn as_str(&self) -> (r: &str)
        ensures
            r@ == self.deep_view().text,
    {
        self.text.as_str()
    }

    /// The path of the URL.
    pub fn path(&self) -> (r: &str)
        ensures
            r@ == self.deep_view().path,
    {
        self.path.as_str()
    }

    /// The name of the file at the origin: the last segment of the path.
    pub fn file_name(&self) -> (r: &str)
        ensures
            r@ == self.deep_view().file_name(),
    {
        last_segment_of(self.path.as_str())
    }
}

/// Where the content of a mirrored file comes from.
#[derive(Debug, PartialEq, Eq)]
pub enum Source {
    /// It is fetched from this URL and verified.
    Url(SourceUrl),
    /// It was put in the store before hashes were tracked, and is never fetched.
    Legacy,
}

/// What a [`Source`] stands for.
pub enum SourceView {
    Url(SourceUrlView),
    Legacy,
}

impl DeepView for Source {
    type V = SourceView;

    open spec fn deep_view(&self) -> SourceView {
        match self {
            Source::Url(url) => SourceView::Url(url.deep_view()),
            Source::Legacy => SourceView::Legacy,
        }
    }
}

impl Clone for Source {
    fn clone(&self) -> (r: Self)
        ensures
            r == *self,
    {
        match self {
            Source::Url(url) => Source::Url(url.clone()),
            Source::Legacy => Source::Legacy,
        }
    }
}

} // verus!
