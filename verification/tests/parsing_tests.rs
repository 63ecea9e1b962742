use stackpr::change::{extract_auto_bookmark, parse_jj_log};
use stackpr::error::StackError;
use stackpr::github::{
    comment_api_endpoint, first_comment_id, owner_repo_from_url, parse_pr_info, pr_list_nonempty,
};
use stackpr::text::{contains_sub, find_sub, split_char, str_eq, strip_trailing, trim_str,
    u64_to_string, ws_tokens};

#[test]
fn log_blocks_become_changes() {
    let out = "abc123\nFirst change\nfeat-a\n---\ndef456\nSecond change\n\n---\n";
    let changes = parse_jj_log(out);
    assert_eq!(changes.len(), 2);
    assert_eq!(changes[0].change_id, "abc123");
    assert_eq!(changes[0].description, "First change");
    assert_eq!(changes[0].bookmark, Some("feat-a".to_string()));
    assert_eq!(changes[1].change_id, "def456");
    assert_eq!(changes[1].description, "Second change");
    assert_eq!(changes[1].bookmark, None);
}

#[test]
fn empty_log_yields_no_changes() {
    assert!(parse_jj_log("").is_empty());
    assert!(parse_jj_log("   \n---\n").is_empty());
}

#[test]
fn partial_log_block_defaults_missing_fields() {
    let changes = parse_jj_log("xyz789\n---\n");
    assert_eq!(changes.len(), 1);
    assert_eq!(changes[0].change_id, "xyz789");
    assert_eq!(changes[0].description, "");
    assert_eq!(changes[0].bookmark, None);
}

#[test]
fn first_of_comma_joined_bookmarks_taken() {
    // the bookmark line joins local bookmarks with commas; the first
    // name is the one used
    let changes = parse_jj_log("abc\ndesc\nfeat-a,feat-b\n---\n");
    assert_eq!(changes[0].bookmark, Some("feat-a".to_string()));
    let changes = parse_jj_log("abc\ndesc\nfeat-a, feat-b\n---\n");
    assert_eq!(changes[0].bookmark, Some("feat-a".to_string()));
}

#[test]
fn auto_bookmark_scraped_from_push_output() {
    let out = "Changes to push to origin:\nCreating bookmark push-xyzabc for revision def\n";
    assert_eq!(extract_auto_bookmark(out), Some("push-xyzabc".to_string()));
}

#[test]
fn auto_bookmark_absent_when_no_marker_line() {
    assert_eq!(extract_auto_bookmark("Nothing changed.\n"), None);
}

#[test]
fn auto_bookmark_needs_a_third_token() {
    assert_eq!(extract_auto_bookmark("Creating bookmark\n"), None);
    let out = "Creating bookmark\nCreating bookmark push-q for revision x\n";
    assert_eq!(extract_auto_bookmark(out), Some("push-q".to_string()));
}

#[test]
fn pr_listing_empty_and_nonempty() {
    assert!(!pr_list_nonempty(""));
    assert!(!pr_list_nonempty("  \n"));
    assert!(!pr_list_nonempty(" [] \n"));
    assert!(pr_list_nonempty("[{\"number\":1}]\n"));
}

#[test]
fn pr_info_read_from_listing_json() {
    let out = "[{\"url\":\"https://example.test/pull/7\",\"title\":\"Add parser\"}]";
    let (url, title) = parse_pr_info(out).expect("listing must parse");
    assert_eq!(url, "https://example.test/pull/7");
    assert_eq!(title, "Add parser");
}

#[test]
fn pr_info_errors_classified() {
    assert_eq!(parse_pr_info("not json").unwrap_err(), StackError::Parse);
    assert_eq!(parse_pr_info("{\"a\":1}").unwrap_err(), StackError::Parse);
    assert_eq!(parse_pr_info("[]").unwrap_err(), StackError::ExternalToolFailure);
    assert_eq!(
        parse_pr_info("[{\"url\":\"u\"}]").unwrap_err(),
        StackError::Parse
    );
    assert_eq!(
        parse_pr_info("[{\"url\":1,\"title\":\"t\"}]").unwrap_err(),
        StackError::Parse
    );
}

#[test]
fn comment_id_is_first_output_line() {
    assert_eq!(first_comment_id("\n"), None);
    assert_eq!(first_comment_id(""), None);
    assert_eq!(first_comment_id("12345\n"), Some("12345".to_string()));
    assert_eq!(first_comment_id("12345\n67890\n"), Some("12345".to_string()));
}

#[test]
fn owner_and_repo_read_from_pr_url() {
    let r = owner_repo_from_url("https://github.example/acme/widgets/pull/12");
    assert_eq!(r, Some(("acme".to_string(), "widgets".to_string())));
    let r = owner_repo_from_url("https://github.example/acme/widgets/pull/12///");
    assert_eq!(r, Some(("acme".to_string(), "widgets".to_string())));
    assert_eq!(owner_repo_from_url("no-slashes"), None);
}

#[test]
fn comment_endpoint_built_from_parts() {
    assert_eq!(
        comment_api_endpoint("acme", "widgets", "987"),
        "/repos/acme/widgets/issues/comments/987"
    );
}

#[test]
fn error_messages_name_each_failure() {
    assert_eq!(
        StackError::ExternalToolInvocation.message(),
        "failed to start an external tool"
    );
    assert_eq!(StackError::ExternalToolFailure.message(), "an external tool failed");
    assert_eq!(
        StackError::Parse.message(),
        "unexpected output from an external tool"
    );
    assert_eq!(
        StackError::Config.message(),
        "entry requires a bookmark but none is set"
    );
    assert_eq!(
        StackError::EditAbort.message(),
        "editor exited with non-zero status"
    );
}

#[test]
fn text_helpers_match_std_behaviour() {
    assert_eq!(trim_str("  a b \t\n"), "a b");
    assert_eq!(trim_str("   "), "");
    assert_eq!(split_char("a,b,,c", ','), vec!["a", "b", "", "c"]);
    assert_eq!(split_char("", ','), vec![""]);
    assert!(str_eq("same", "same"));
    assert!(!str_eq("same", "sane"));
    assert_eq!(strip_trailing("x///", '/'), "x");
    assert_eq!(find_sub("hello world", "o w"), Some(4));
    assert_eq!(find_sub("hello", "xyz"), None);
    assert!(contains_sub("a Creating bookmark b", "Creating bookmark"));
    assert_eq!(ws_tokens("  a\t bb  ccc "), vec!["a", "bb", "ccc"]);
    assert_eq!(u64_to_string(0), "0");
    assert_eq!(u64_to_string(42), "42");
    assert_eq!(u64_to_string(10_000), "10000");
}
