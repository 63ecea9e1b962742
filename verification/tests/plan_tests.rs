use stackpr::change::Change;
use stackpr::plan::{parse_stack_file, render_plan, Action};

fn change(id: &str, desc: &str, bookmark: Option<&str>) -> Change {
    Change {
        change_id: id.to_string(),
        description: desc.to_string(),
        bookmark: bookmark.map(|b| b.to_string()),
    }
}

const HEADER: &str = "# The following file represents your stack in the order it will applied, top to bottom.\n\
# The first column can be one of:\n\
# * \"skip\" or \"s\": to skip this change entirely (can also just delete the line)\n\
# * \"create-pr\" or \"pr\": to create the PR based on an already existing bookmark\n\
# * \"bookmark\" or \"b\": to create a named bookmark to then use for the PR\n\
# the other columns are:\n\
# * the change ID\n\
# * the change description\n\
# * if present, the bookmark\n";

#[test]
fn render_reverses_and_proposes_actions() {
    let changes = vec![
        change("bbb", "second change", None),
        change("aaa", "first change", Some("feat-a")),
    ];
    let text = render_plan(&changes);
    let expected = format!(
        "{}pr,aaa,first change,feat-a\nbookmark,bbb,second change,\n",
        HEADER
    );
    assert_eq!(text, expected);
}

#[test]
fn render_of_empty_list_is_header_only() {
    let text = render_plan(&vec![]);
    assert_eq!(text, HEADER);
}

#[test]
fn decode_of_encode_recovers_fields() {
    let changes = vec![
        change("abc", "first change", Some("feat-a")),
        change("def", "second change", None),
    ];
    let text = render_plan(&changes);
    let (entries, warnings) = parse_stack_file(&text);
    assert!(warnings.is_empty());
    assert_eq!(entries.len(), 2);
    // file order is the reverse of the given stack order
    assert_eq!(entries[0].change_id, "def");
    assert_eq!(entries[0].description, "second change");
    assert_eq!(entries[0].bookmark, None);
    assert_eq!(entries[0].action, Action::CreateBookmark);
    assert_eq!(entries[1].change_id, "abc");
    assert_eq!(entries[1].description, "first change");
    assert_eq!(entries[1].bookmark, Some("feat-a".to_string()));
    assert_eq!(entries[1].action, Action::CreatePr);
}

#[test]
fn unknown_action_token_warns_and_continues() {
    let text = "frobnicate,x,y\npr,a,b,c\n";
    let (entries, warnings) = parse_stack_file(text);
    assert_eq!(entries.len(), 1);
    assert_eq!(entries[0].change_id, "a");
    assert_eq!(entries[0].action, Action::CreatePr);
    assert_eq!(warnings, vec!["frobnicate".to_string()]);
}

#[test]
fn short_line_dropped_silently() {
    let text = "pr,onlyone\nskip,a,b\n";
    let (entries, warnings) = parse_stack_file(text);
    assert_eq!(entries.len(), 1);
    assert_eq!(entries[0].action, Action::Skip);
    assert_eq!(entries[0].change_id, "a");
    assert!(warnings.is_empty());
}

#[test]
fn comments_and_blank_lines_ignored() {
    let text = "# a comment\n\n   \ns,a,b\n";
    let (entries, warnings) = parse_stack_file(text);
    assert_eq!(entries.len(), 1);
    assert_eq!(entries[0].action, Action::Skip);
    assert!(warnings.is_empty());
}

#[test]
fn short_action_tokens_recognised() {
    let text = "s,a,b\nb,c,d\npr,e,f\ncreate-pr,g,h\nbookmark,i,j\nskip,k,l\n";
    let (entries, warnings) = parse_stack_file(text);
    assert!(warnings.is_empty());
    let actions: Vec<Action> = entries.iter().map(|e| e.action).collect();
    assert_eq!(
        actions,
        vec![
            Action::Skip,
            Action::CreateBookmark,
            Action::CreatePr,
            Action::CreatePr,
            Action::CreateBookmark,
            Action::Skip,
        ]
    );
}

#[test]
fn fields_are_trimmed_and_empty_bookmark_is_none() {
    let text = " pr , a1 ,  some description , \n";
    let (entries, warnings) = parse_stack_file(text);
    assert!(warnings.is_empty());
    assert_eq!(entries.len(), 1);
    assert_eq!(entries[0].change_id, "a1");
    assert_eq!(entries[0].description, "some description");
    assert_eq!(entries[0].bookmark, None);
}

#[test]
fn fourth_field_becomes_bookmark() {
    let text = "pr,a1,desc,feat-x\n";
    let (entries, _) = parse_stack_file(text);
    assert_eq!(entries[0].bookmark, Some("feat-x".to_string()));
}

#[test]
fn description_with_comma_shifts_columns() {
    // documented limitation: the format does not escape commas, so a
    // comma in the description bleeds into the bookmark column
    let text = "pr,a1,hello, world\n";
    let (entries, _) = parse_stack_file(text);
    assert_eq!(entries[0].description, "hello");
    assert_eq!(entries[0].bookmark, Some("world".to_string()));
}
