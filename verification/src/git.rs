//! Repository references: the name under which a repository is kept, and the version that a
//! reference asks for.

use crate::text::{
    chars_of, find_last, last_index_of, replace_all, replaced, slice_text, strip_suffix,
    without_suffix,
};
use vstd::prelude::*;

verus! {

/// The path segments of `url` parsed as an absolute URL: none where `url` is no absolute URL,
/// or is one that cannot be a base.
pub uninterp spec fn url_path_segments(url: Seq<char>) -> Option<Seq<Seq<char>>>;

/// `url::Url::parse` and, on the URL that it gives, `url::Url::path_segments`: the segments of
/// the path, in order, as `url` puts them; `None` where `parse` fails or `path_segments` gives
/// none.
#[verifier::external_body]
fn path_segments(url: &str) -> (segments: Option<Vec<String>>)
    ensures
        segments.deep_view() == url_path_segments(url@),
{
    let parsed = url::Url::parse(url).ok()?;
    let segments = parsed.path_segments()?;
    Some(segments.map(|segment| segment.to_string()).collect())
}

/// The name of the repository whose URL has the path `segments`: the first segment, a hyphen,
/// and the second segment without a `.git` at its end. A path of fewer than two segments has
/// no name.
pub open spec fn repo_name(segments: Option<Seq<Seq<char>>>) -> Option<Seq<char>> {
    match segments {
        Some(path) => if path.len() >= 2 {
            Some(
                path[0] + "-"@ + (match without_suffix(path[1], ".git"@) {
                    Some(stripped) => stripped,
                    None => path[1],
                }),
            )
        } else {
            None
        },
        None => None,
    }
}

/// The name of the repository whose URL has the path `segments`.
pub fn repo_name_from_segments(segments: &Option<Vec<String>>) -> (name: Option<String>)
    ensures
        name.deep_view() == repo_name(segments.deep_view()),
{
    match segments {
        Some(path) => {
            if path.len() < 2 {
                return None;
            }
            let username = path[0].as_str();
            let repo = path[1].as_str();
            let mut name = username.to_owned();
            name.append("-");
            match strip_suffix(repo, ".git") {
                Some(stripped) => {
                    name.append(stripped.as_str());
                },
                None => {
                    name.append(repo);
                },
            }
            Some(name)
        },
        None => None,
    }
}

/// The name under which the repository at `url` is kept: its owner and its name, joined by a
/// hyphen.
pub fn extract_repo_name(url: &str) -> (name: Option<String>)
    ensures
        name.deep_view() == repo_name(url_path_segments(url@)),
{
    let segments = path_segments(url);
    repo_name_from_segments(&segments)
}

/// A repository reference, split at its last `@` into the repository and the version that
/// follows it. A reference without `@` names no version; neither does one whose last `@`
/// only starts the owner's handle, which is so where what follows it is the whole reference
/// without the `https://tangled.sh/` in front and without any `@`.
pub open spec fn version_split(url: Seq<char>) -> (Seq<char>, Option<Seq<char>>) {
    match last_index_of(url, '@') {
        Some(at) => {
            let version = url.skip(at + 1);
            if version == replaced(replaced(url, "https://tangled.sh/"@, ""@), "@"@, ""@) {
                (url, None)
            } else {
                (url.take(at), Some(version))
            }
        },
        None => (url, None),
    }
}

/// Splits a repository reference into the repository and the version it asks for.
pub fn extract_version(url: &str) -> (out: (String, Option<String>))
    ensures
        out.deep_view() == version_split(url@),
{
    let without_host = replace_all(url, "https://tangled.sh/", "");
    let repo_name = replace_all(without_host.as_str(), "@", "");
    let chars = chars_of(url);
    match find_last(&chars, '@') {
        Some(idx) => {
            proof {
                assert(chars@.subrange(idx + 1, chars.len() as int) =~= url@.skip(idx + 1));
                assert(chars@.subrange(0, idx as int) =~= url@.take(idx as int));
            }
            let version = slice_text(&chars, idx + 1, chars.len());
            if version == repo_name {
                (url.to_owned(), None)
            } else {
                (slice_text(&chars, 0, idx), Some(version))
            }
        },
        None => (url.to_owned(), None),
    }
}

} // verus!
