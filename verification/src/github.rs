//! Reading the hosting-service CLI's answers: whether a listing is
//! nonempty, the URL and title of a listed PR, the identifier of an
//! existing status comment, and the API path for editing a comment.

use vstd::prelude::*;
use vstd::string::*;

use crate::error::StackError;
use crate::text::{
    find_char_spec, lemma_find_char_at, lemma_find_char_none, seq_views, split_char,
    split_char_spec, str_eq, strip_trailing, strip_trailing_spec, trim_spec, trim_str,
};

verus! {

/// Whether a PR listing reports at least one PR: the listing is printed
/// as a JSON array, so anything but blank output or a bare `[]` does.
pub open spec fn pr_list_nonempty_spec(out: Seq<char>) -> bool {
    trim_spec(out).len() != 0 && trim_spec(out) != "[]"@
}

/// Decides PR existence from the listing output; see
/// `pr_list_nonempty_spec`.
pub fn pr_list_nonempty(out: &str) -> (r: bool)
    ensures
        r == pr_list_nonempty_spec(out@),
{
    let t = trim_str(out);
    if t.unicode_len() == 0 {
        false
    } else {
        !str_eq(t, "[]")
    }
}

/// The identifier in a comment-filter listing: the first line of the
/// trimmed output, or nothing when the output is blank.
pub open spec fn first_comment_id_spec(out: Seq<char>) -> Option<Seq<char>> {
    let t = trim_spec(out);
    if t.len() == 0 {
        None
    } else {
        let i = find_char_spec(t, '\n');
        let line = if i < 0 {
            t
        } else {
            t.take(i)
        };
        if line.len() > 0 && line.last() == '\r' {
            Some(line.drop_last())
        } else {
            Some(line)
        }
    }
}

/// Extracts the first comment identifier from the filter output; see
/// `first_comment_id_spec`.
pub fn first_comment_id(out: &str) -> (r: Option<String>)
    ensures
        match r {
            Some(id) => first_comment_id_spec(out@) == Some(id@),
            None => first_comment_id_spec(out@) is None,
        },
{
    let t = trim_str(out);
    let n = t.unicode_len();
    if n == 0 {
        return None;
    }
    let mut i: usize = 0;
    while i < n && t.get_char(i) != '\n'
        invariant
            n == t@.len(),
            0 <= i <= n,
            forall|j: int| 0 <= j < i ==> t@[j] != '\n',
        decreases n - i,
    {
        i = i + 1;
    }
    proof {
        if i == n {
            lemma_find_char_none(t@, '\n');
            assert(t@.take(n as int) =~= t@);
        } else {
            lemma_find_char_at(t@, '\n', i as int);
        }
    }
    let line = t.substring_char(0, i);
    proof {
        assert(line@ =~= t@.take(i as int));
    }
    if i > 0 && t.get_char(i - 1) == '\r' {
        let clipped = t.substring_char(0, i - 1);
        proof {
            assert(clipped@ =~= line@.drop_last());
        }
        Some(String::from_str(clipped))
    } else {
        Some(String::from_str(line))
    }
}

/// The owner and repository named by a PR URL: with trailing slashes
/// removed and the URL cut at slashes, the fourth- and third-from-last
/// pieces, or nothing when fewer than five pieces remain.
pub open spec fn owner_repo_spec(url: Seq<char>) -> Option<(Seq<char>, Seq<char>)> {
    let parts = split_char_spec(strip_trailing_spec(url, '/'), '/');
    if parts.len() < 5 {
        None
    } else {
        Some((parts[parts.len() - 4], parts[parts.len() - 3]))
    }
}

/// Splits a PR URL into its owner and repository; see `owner_repo_spec`.
pub fn owner_repo_from_url(url: &str) -> (r: Option<(String, String)>)
    ensures
        match r {
            Some(p) => owner_repo_spec(url@) == Some((p.0@, p.1@)),
            None => owner_repo_spec(url@) is None,
        },
{
    let stripped = strip_trailing(url, '/');
    let parts = split_char(stripped, '/');
    if parts.len() < 5 {
        proof {
            assert(seq_views(parts@).len() == parts@.len());
        }
        None
    } else {
        let owner = parts[parts.len() - 4].clone();
        let repo = parts[parts.len() - 3].clone();
        proof {
            assert(seq_views(parts@)[parts@.len() - 4] == owner@);
            assert(seq_views(parts@)[parts@.len() - 3] == repo@);
        }
        Some((owner, repo))
    }
}

/// The API path for editing an issue comment of a repository.
pub open spec fn comment_endpoint_spec(
    owner: Seq<char>,
    repo: Seq<char>,
    comment_id: Seq<char>,
) -> Seq<char> {
    "/repos/"@ + owner + "/"@ + repo + "/issues/comments/"@ + comment_id
}

/// Builds the API path for editing a comment; see
/// `comment_endpoint_spec`.
pub fn comment_api_endpoint(owner: &str, repo: &str, comment_id: &str) -> (r: String)
    ensures
        r@ == comment_endpoint_spec(owner@, repo@, comment_id@),
{
    let mut s = String::new();
    s.append("/repos/");
    proof {
        assert(Seq::<char>::empty() + "/repos/"@ =~= "/repos/"@);
    }
    s.append(owner);
    s.append("/");
    s.append(repo);
    s.append("/issues/comments/");
    s.append(comment_id);
    s
}

// The name of what reading a PR listing extracts, a function of the
// text alone: the url and title string fields of the first element of
// the JSON array in `out`. The outer `None` stands for text that is not
// a JSON array of objects carrying those string fields; the inner
// `None` for an empty listing.
pub uninterp spec fn pr_info_of(out: Seq<char>) -> Option<Option<(Seq<char>, Seq<char>)>>;

/// Relies on `serde_json::from_str::<Value>`, `Value::as_array`,
/// `Value::get` and `Value::as_str`: parses `out` and reads the `url`
/// and `title` string fields of the listing's first element. Each
/// answer depends on the input text alone, so the combined result is
/// the named `pr_info_of`.
#[verifier::external_body]
fn read_pr_listing(out: &str) -> (r: Option<Option<(String, String)>>)
    ensures
        match r {
            None => pr_info_of(out@) is None,
            Some(None) => pr_info_of(out@) == Some(None::<(Seq<char>, Seq<char>)>),
            Some(Some(p)) => pr_info_of(out@) == Some(Some((p.0@, p.1@))),
        },
{
    let v: serde_json::Value = match serde_json::from_str(out) { Ok(v) => v, Err(_) => return None };
    let arr = match v.as_array() { Some(a) => a, None => return None };
    let first = match arr.first() { Some(f) => f, None => return Some(None) };
    let url = match first.get("url").and_then(serde_json::Value::as_str) { Some(s) => s.to_string(), None => return None };
    let title = match first.get("title").and_then(serde_json::Value::as_str) { Some(s) => s.to_string(), None => return None };
    Some(Some((url, title)))
}

/// Reads the URL and title of the first PR in a JSON listing, as the
/// hosting service prints it: a JSON array of objects with string `url`
/// and `title` fields, whose first element's fields come back verbatim.
/// Malformed JSON, a non-array document or missing fields are a parse
/// failure; an empty listing means the PR that was just reported to
/// exist is gone, which counts as the collaborator failing.
pub fn parse_pr_info(out: &str) -> (r: Result<(String, String), StackError>)
    ensures
        match pr_info_of(out@) {
            None => r == Err::<(String, String), StackError>(StackError::Parse),
            Some(None) => r == Err::<(String, String), StackError>(
                StackError::ExternalToolFailure,
            ),
            Some(Some(p)) => match r {
                Ok(q) => q.0@ == p.0 && q.1@ == p.1,
                Err(_) => false,
            },
        },
{
    match read_pr_listing(out) {
        None => Err(StackError::Parse),
        Some(None) => Err(StackError::ExternalToolFailure),
        Some(Some(p)) => Ok(p),
    }
}

} // verus!
