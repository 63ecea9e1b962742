use stackpr::comments::{add_or_update_stack_comment, build_stack_comment, CommentUpsert};
use stackpr::orchestrate::ProcessedPr;

fn pr(url: &str, title: &str) -> ProcessedPr {
    ProcessedPr { pr_url: url.to_string(), pr_title: title.to_string() }
}

#[test]
fn three_prs_link_forward_and_backward() {
    let prs = vec![pr("u1", "t1"), pr("u2", "t2"), pr("u3", "t3")];

    let first = build_stack_comment(&prs, 0);
    assert_eq!(
        first,
        "## Stack Information\n\nThis PR is **1 of 3** in the stack.\n\n\u{2b06}\u{fe0f} Next PR: [t2](u2)\n"
    );
    assert!(first.contains("1 of 3"));
    assert!(!first.contains("Previous PR"));

    let second = build_stack_comment(&prs, 1);
    assert_eq!(
        second,
        "## Stack Information\n\nThis PR is **2 of 3** in the stack.\n\n\u{2b07}\u{fe0f} Previous PR: [t1](u1)\n\n\u{2b06}\u{fe0f} Next PR: [t3](u3)\n"
    );

    let third = build_stack_comment(&prs, 2);
    assert_eq!(
        third,
        "## Stack Information\n\nThis PR is **3 of 3** in the stack.\n\n\u{2b07}\u{fe0f} Previous PR: [t2](u2)\n"
    );
    assert!(third.contains("3 of 3"));
    assert!(!third.contains("Next PR"));
}

#[test]
fn single_pr_has_no_links() {
    let prs = vec![pr("u1", "t1")];
    let only = build_stack_comment(&prs, 0);
    assert_eq!(
        only,
        "## Stack Information\n\nThis PR is **1 of 1** in the stack.\n"
    );
}

#[test]
fn two_digit_positions_render_in_decimal() {
    let prs: Vec<ProcessedPr> = (0..12).map(|i| pr(&format!("u{}", i), &format!("t{}", i))).collect();
    let tenth = build_stack_comment(&prs, 9);
    assert!(tenth.contains("**10 of 12**"));
}

#[test]
fn upsert_posts_new_comment_when_none_found() {
    match add_or_update_stack_comment(None, "body".to_string()) {
        CommentUpsert::Add(b) => assert_eq!(b, "body"),
        _ => panic!("must post a new comment"),
    }
}

#[test]
fn upsert_edits_existing_comment_in_place() {
    match add_or_update_stack_comment(Some("c-7".to_string()), "body".to_string()) {
        CommentUpsert::Update(id, b) => {
            assert_eq!(id, "c-7");
            assert_eq!(b, "body");
        }
        _ => panic!("must edit the existing comment"),
    }
}
