//! The comment linker: composes each pull request's "position in stack"
//! status comment, with a backward link to its predecessor and a forward
//! link to its successor, and decides whether an existing status comment
//! is edited in place or a new one is posted.

use vstd::prelude::*;
use vstd::string::*;

use crate::orchestrate::{pr_views, ProcessedPr, ProcessedPrV};
use crate::text::{dec_spec, u64_to_string};

verus! {

/// The heading that identifies a status comment; the upsert searches for
/// it, so repeated runs edit one comment instead of piling up new ones.
pub open spec fn marker_spec() -> Seq<char> {
    "## Stack Information"@
}

/// The marker heading as a string, for composing the comment filter that
/// locates an existing status comment.
pub fn marker_str() -> (r: &'static str)
    ensures
        r@ == marker_spec(),
{
    "## Stack Information"
}

/// The status comment for the PR at `i` among `prs`: the marker heading,
/// a "position `i + 1` of `total`" statement, a backward link to the
/// previous PR's title and URL when one exists, and a forward link to
/// the next PR's when one exists.
pub open spec fn comment_spec(prs: Seq<ProcessedPrV>, i: int) -> Seq<char> {
    let total = prs.len() as int;
    let head = marker_spec() + "\n\nThis PR is **"@ + dec_spec((i + 1) as nat)
        + " of "@ + dec_spec(total as nat) + "** in the stack.\n"@;
    let with_back = if i > 0 {
        head + "\n\u{2b07}\u{fe0f} Previous PR: ["@ + prs[i - 1].pr_title + "]("@ + prs[i
            - 1].pr_url + ")\n"@
    } else {
        head
    };
    if i < total - 1 {
        with_back + "\n\u{2b06}\u{fe0f} Next PR: ["@ + prs[i + 1].pr_title + "]("@ + prs[i
            + 1].pr_url + ")\n"@
    } else {
        with_back
    }
}

/// Builds the status comment for the PR at `index`; see `comment_spec`.
pub fn build_stack_comment(prs: &Vec<ProcessedPr>, index: usize) -> (r: String)
    requires
        index < prs@.len(),
    ensures
        r@ == comment_spec(pr_views(prs@), index as int),
{
    let total = prs.len();
    let mut s = String::new();
    s.append("## Stack Information");
    proof {
        assert(Seq::<char>::empty() + "## Stack Information"@ =~= "## Stack Information"@);
    }
    s.append("\n\nThis PR is **");
    let pos = u64_to_string((index as u64) + 1);
    s.append(pos.as_str());
    s.append(" of ");
    let tot = u64_to_string(total as u64);
    s.append(tot.as_str());
    s.append("** in the stack.\n");
    if index > 0 {
        let prev = &prs[index - 1];
        s.append("\n\u{2b07}\u{fe0f} Previous PR: [");
        s.append(prev.pr_title.as_str());
        s.append("](");
        s.append(prev.pr_url.as_str());
        s.append(")\n");
    }
    if index + 1 < total {
        let next = &prs[index + 1];
        s.append("\n\u{2b06}\u{fe0f} Next PR: [");
        s.append(next.pr_title.as_str());
        s.append("](");
        s.append(next.pr_url.as_str());
        s.append(")\n");
    }
    proof {
        assert(pr_views(prs@).len() == prs@.len());
        assert(s@ == comment_spec(pr_views(prs@), index as int));
    }
    s
}

/// How a status comment lands on a PR: posted anew, or edited in place
/// over an existing comment.
pub enum CommentUpsert {
    /// No status comment exists yet: post `body` as a new comment.
    Add(String),
    /// A status comment with this identifier exists: replace its body.
    Update(String, String),
}

/// Decides the upsert for one PR: when a comment carrying the marker
/// heading was found, its body is replaced in place; otherwise a new
/// comment is posted. Repeated runs therefore never accumulate duplicate
/// status comments.
pub fn add_or_update_stack_comment(existing_id: Option<String>, comment: String) -> (r:
    CommentUpsert)
    ensures
        match r {
            CommentUpsert::Add(b) => existing_id is None && b@ == comment@,
            CommentUpsert::Update(id, b) => {
                &&& existing_id is Some
                &&& match existing_id {
                    Some(e) => id@ == e@,
                    None => false,
                }
                &&& b@ == comment@
            },
        },
{
    match existing_id {
        Some(id) => CommentUpsert::Update(id, comment),
        None => CommentUpsert::Add(comment),
    }
}

} // verus!
