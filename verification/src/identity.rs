//! The identity of a source repository, derived from its URL.

use crate::error::Error;
use crate::text::{chars_of, string_of};
use vstd::prelude::*;

verus! {

/// Makes `url::ParseError` known as an opaque type.
#[verifier::external_type_specification]
#[verifier::external_body]
pub struct ExParseError(url::ParseError);

/// Owner, project and host of a source repository.
#[derive(Debug, PartialEq, Eq)]
pub struct Repo {
    pub author: String,
    pub name: String,
    pub host: String,
}

/// The model of a [`Repo`].
pub struct RepoView {
    pub author: Seq<char>,
    pub name: Seq<char>,
    pub host: Seq<char>,
}

impl View for Repo {
    type V = RepoView;

    open spec fn view(&self) -> RepoView {
        RepoView { author: self.author@, name: self.name@, host: self.host@ }
    }
}

impl Clone for Repo {
    fn clone(&self) -> (r: Self)
        ensures
            r@ == self@,
    {
        Repo { author: self.author.clone(), name: self.name.clone(), host: self.host.clone() }
    }
}

/// The parts of a parsed URL that identify a repository.
#[derive(Debug, PartialEq, Eq)]
pub struct UrlParts {
    /// The segments of the path, split at `/`; `None` for a URL that cannot
    /// be a base (`mailto:`, `data:`).
    pub path_segments: Option<Vec<String>>,
    /// The host, where the URL has one.
    pub host: Option<String>,
}

/// The model of [`UrlParts`].
pub struct UrlPartsView {
    pub path_segments: Option<Seq<Seq<char>>>,
    pub host: Option<Seq<char>>,
}

impl View for UrlParts {
    type V = UrlPartsView;

    open spec fn view(&self) -> UrlPartsView {
        UrlPartsView {
            path_segments: match self.path_segments {
                Some(segments) => Some(segments.deep_view()),
                None => None,
            },
            host: match self.host {
                Some(host) => Some(host@),
                None => None,
            },
        }
    }
}

/// What the `url` crate makes of a text: `None` where it is no absolute URL,
/// else the path segments and the host of the parsed URL.
pub uninterp spec fn parsed_url(text: Seq<char>) -> Option<UrlPartsView>;

/// Parses `text` with `url::Url::parse` and reads the result through
/// `Url::path_segments` and `Url::host_str`. The contract gives the outcome
/// its name and claims nothing else about it.
#[verifier::external_body]
fn parse_url(text: &str) -> (r: Result<UrlParts, url::ParseError>)
    ensures
        match r {
            Ok(parts) => parsed_url(text@) == Some(parts@),
            Err(_) => parsed_url(text@) is None,
        },
{
    let url = url::Url::parse(text)?;
    Ok(UrlParts {
        path_segments: url.path_segments().map(|segments| segments.map(String::from).collect()),
        host: url.host_str().map(String::from),
    })
}

/// The label that is stripped from the front of a host name.
pub open spec fn www_prefix() -> Seq<char> {
    seq!['w', 'w', 'w', '.']
}

/// A host name without its leading `www.` labels.
pub open spec fn without_www(host: Seq<char>) -> Seq<char>
    decreases host.len(),
{
    if www_prefix().is_prefix_of(host) {
        without_www(host.skip(4))
    } else {
        host
    }
}

/// What [`without_www`] removes consists of `www.` labels, and what it
/// leaves does not begin with one. The result is the number of labels
/// removed.
pub proof fn lemma_without_www(host: Seq<char>) -> (n: int)
    ensures
        0 <= 4 * n <= host.len(),
        without_www(host) == host.skip(4 * n),
        forall|k: int| 0 <= k < n ==> #[trigger] host.subrange(4 * k, 4 * k + 4) == www_prefix(),
        !www_prefix().is_prefix_of(without_www(host)),
    decreases host.len(),
{
    if www_prefix().is_prefix_of(host) {
        let rest = host.skip(4);
        let m = lemma_without_www(rest);
        assert(rest.skip(4 * m) == host.skip(4 * (m + 1)));
        assert forall|k: int| 0 <= k < m + 1 implies #[trigger] host.subrange(4 * k, 4 * k + 4)
            == www_prefix() by {
            if k > 0 {
                assert(host.subrange(4 * k, 4 * k + 4) == rest.subrange(4 * (k - 1), 4 * (k - 1) + 4));
            } else {
                assert(host.subrange(0, 4) == www_prefix());
            }
        }
        m + 1
    } else {
        assert(host.skip(0) == host);
        0
    }
}

/// The repository that a parsed URL names: the first two segments of its
/// path, neither of them empty, are the owner and the project.
pub open spec fn identity_of(parts: UrlPartsView) -> Option<RepoView> {
    match parts.path_segments {
        Some(segments) => if segments.len() >= 2 && segments[0].len() > 0 && segments[1].len() > 0 {
            Some(
                RepoView {
                    author: segments[0],
                    name: segments[1],
                    host: without_www(
                        match parts.host {
                            Some(host) => host,
                            None => Seq::empty(),
                        },
                    ),
                },
            )
        } else {
            None
        },
        None => None,
    }
}

/// The repository that a URL text names, if it names one.
pub open spec fn repo_of(text: Seq<char>) -> Option<RepoView> {
    match parsed_url(text) {
        Some(parts) => identity_of(parts),
        None => None,
    }
}

/// Removes every leading `www.` from a host name.
pub fn strip_www(host: &str) -> (r: String)
    ensures
        r@ == without_www(host@),
{
    let chars = chars_of(host);
    let mut start: usize = 0;
    assert(chars@.skip(0) == chars@);
    while chars.len() - start >= 4 && chars[start] == 'w' && chars[start + 1] == 'w' && chars[start
        + 2] == 'w' && chars[start + 3] == '.'
        invariant
            start <= chars.len(),
            without_www(chars@) == without_www(chars@.skip(start as int)),
        decreases chars.len() - start,
    {
        proof {
            let rest = chars@.skip(start as int);
            assert(www_prefix().is_prefix_of(rest));
            assert(rest.skip(4) == chars@.skip(start + 4));
        }
        start += 4;
    }
    let mut kept: Vec<char> = Vec::new();
    let mut i: usize = start;
    while i < chars.len()
        invariant
            start <= i <= chars.len(),
            kept@ == chars@.subrange(start as int, i as int),
        decreases chars.len() - i,
    {
        kept.push(chars[i]);
        i += 1;
    }
    string_of(&kept)
}

/// Derives the identity of a repository from the parts of its URL.
pub fn repo_from_parts(parts: &UrlParts) -> (r: Result<Repo, Error>)
    ensures
        match r {
            Ok(repo) => identity_of(parts@) == Some(repo@),
            Err(e) => e == Error::InvalidRepoUrl && identity_of(parts@) is None,
        },
{
    match &parts.path_segments {
        Some(segments) => {
            if segments.len() < 2 || segments[0].as_str().is_empty()
                || segments[1].as_str().is_empty() {
                return Err(Error::InvalidRepoUrl);
            }
            let host = match &parts.host {
                Some(host) => strip_www(host.as_str()),
                None => String::new(),
            };
            Ok(Repo { author: segments[0].clone(), name: segments[1].clone(), host })
        },
        None => Err(Error::InvalidRepoUrl),
    }
}

/// Derives the identity of the repository at `repo_url`.
///
/// The URL must be absolute and its path must begin with two non-empty
/// segments, the owner and the project; every other text is rejected.
pub fn repo_info(repo_url: &str) -> (r: Result<Repo, Error>)
    ensures
        match r {
            Ok(repo) => repo_of(repo_url@) == Some(repo@),
            Err(e) => e == Error::InvalidRepoUrl && repo_of(repo_url@) is None,
        },
{
    match parse_url(repo_url) {
        Ok(parts) => repo_from_parts(&parts),
        Err(_) => Err(Error::InvalidRepoUrl),
    }
}

} // verus!
