use stackpr::orchestrate::{begin_entry, entry_step, Begin, Cmd, Event, Step};
use stackpr::plan::{parse_stack_file, render_plan, Action, StackEntry};
use stackpr::change::Change;

fn entry(action: Action, id: &str, desc: &str, bookmark: Option<&str>) -> StackEntry {
    StackEntry {
        action,
        change_id: id.to_string(),
        description: desc.to_string(),
        bookmark: bookmark.map(|b| b.to_string()),
    }
}

#[test]
fn skip_entry_does_nothing() {
    let e = entry(Action::Skip, "aaa", "d", None);
    match begin_entry(&e, &None, "main") {
        Begin::Skipped => {}
        _ => panic!("skip entry must be skipped"),
    }
}

#[test]
fn create_bookmark_without_name_is_config_error() {
    let e = entry(Action::CreateBookmark, "aaa", "d", None);
    match begin_entry(&e, &None, "main") {
        Begin::MissingBookmark => {}
        _ => panic!("missing bookmark must be reported"),
    }
}

#[test]
fn existing_pr_is_reused_without_create() {
    // idempotent path: the PR already exists, so its URL and title are
    // taken verbatim and no create request is ever issued
    let e = entry(Action::CreatePr, "aaa", "local title", Some("feat-a"));
    let (m, c) = match begin_entry(&e, &None, "main") {
        Begin::Run(m, c) => (m, c),
        _ => panic!("create-pr entry must run"),
    };
    match &c {
        Cmd::QueryPrExists { head } => assert_eq!(head, "feat-a"),
        _ => panic!("must first ask whether the PR exists"),
    }
    let (m, c) = match entry_step(m, Event::PrExists(true)) {
        Step::Next(m, c) => (m, c),
        _ => panic!("must go on to fetch the PR info"),
    };
    match &c {
        Cmd::QueryPrInfo { head } => assert_eq!(head, "feat-a"),
        _ => panic!("must ask for the existing PR's info"),
    }
    match entry_step(
        m,
        Event::PrInfo { url: "https://example.test/pull/1".to_string(), title: "server title".to_string() },
    ) {
        Step::Done(pr, cursor) => {
            assert_eq!(pr.pr_url, "https://example.test/pull/1");
            // the existing PR's title is reused verbatim, not the local description
            assert_eq!(pr.pr_title, "server title");
            assert_eq!(cursor, "feat-a");
        }
        _ => panic!("reuse must finish the entry"),
    }
}

#[test]
fn second_run_repeats_the_same_dialogue() {
    // with the world unchanged, a second run over the same entry issues
    // the same requests and produces the same PR and cursor
    let e = entry(Action::CreatePr, "aaa", "t", Some("feat-a"));
    let mut results = Vec::new();
    for _ in 0..2 {
        let (m, _) = match begin_entry(&e, &None, "main") {
            Begin::Run(m, c) => (m, c),
            _ => panic!("must run"),
        };
        let (m, _) = match entry_step(m, Event::PrExists(true)) {
            Step::Next(m, c) => (m, c),
            _ => panic!("must continue"),
        };
        match entry_step(
            m,
            Event::PrInfo { url: "u".to_string(), title: "t".to_string() },
        ) {
            Step::Done(pr, cursor) => results.push((pr.pr_url, pr.pr_title, cursor)),
            _ => panic!("must finish"),
        }
    }
    assert_eq!(results[0], results[1]);
}

#[test]
fn missing_pr_with_local_bookmark_pushes_then_creates() {
    let e = entry(Action::CreatePr, "aaa", "my title", Some("feat-a"));
    let (m, _) = match begin_entry(&e, &Some("base-b".to_string()), "main") {
        Begin::Run(m, c) => (m, c),
        _ => panic!("must run"),
    };
    let (m, c) = match entry_step(m, Event::PrExists(false)) {
        Step::Next(m, c) => (m, c),
        _ => panic!("must try the publish"),
    };
    match &c {
        Cmd::PushBookmark { name } => assert_eq!(name, "feat-a"),
        _ => panic!("must publish the bookmark first"),
    }
    let (m, c) = match entry_step(m, Event::Pushed(true)) {
        Step::Next(m, c) => (m, c),
        _ => panic!("must create the PR"),
    };
    match &c {
        Cmd::CreatePr { head, base, title } => {
            assert_eq!(head, "feat-a");
            assert_eq!(base, "base-b");
            assert_eq!(title, "my title");
        }
        _ => panic!("must create the PR"),
    }
    match entry_step(m, Event::PrCreated { url: "u1".to_string() }) {
        Step::Done(pr, cursor) => {
            assert_eq!(pr.pr_url, "u1");
            assert_eq!(pr.pr_title, "my title");
            assert_eq!(cursor, "feat-a");
        }
        _ => panic!("must finish"),
    }
}

#[test]
fn absent_local_bookmark_is_created_before_the_pr() {
    let e = entry(Action::CreatePr, "ccc", "t", Some("feat-c"));
    let (m, _) = match begin_entry(&e, &None, "main") {
        Begin::Run(m, c) => (m, c),
        _ => panic!("must run"),
    };
    let (m, _) = match entry_step(m, Event::PrExists(false)) {
        Step::Next(m, c) => (m, c),
        _ => panic!("must probe the publish"),
    };
    // publish fails: the bookmark does not exist locally
    let (m, c) = match entry_step(m, Event::Pushed(false)) {
        Step::Next(m, c) => (m, c),
        _ => panic!("must fall back to creating the bookmark"),
    };
    match &c {
        Cmd::CreateBookmarkAt { change_id, name } => {
            assert_eq!(change_id, "ccc");
            assert_eq!(name, "feat-c");
        }
        _ => panic!("must create the bookmark"),
    }
    let (m, c) = match entry_step(m, Event::BookmarkCreated) {
        Step::Next(m, c) => (m, c),
        _ => panic!("must publish the new bookmark"),
    };
    assert!(matches!(c, Cmd::PushBookmark { .. }));
    // this second publish failing is fatal
    match entry_step(m.clone(), Event::Pushed(false)) {
        Step::Fatal => {}
        _ => panic!("publish failure after creation must be fatal"),
    }
    let (m, _) = match entry_step(m, Event::Pushed(true)) {
        Step::Next(m, c) => (m, c),
        _ => panic!("must create the PR"),
    };
    match entry_step(m, Event::PrCreated { url: "u".to_string() }) {
        Step::Done(_, cursor) => assert_eq!(cursor, "feat-c"),
        _ => panic!("must finish"),
    }
}

#[test]
fn unbound_change_takes_the_generated_name() {
    let e = entry(Action::CreatePr, "ddd", "t", None);
    let (m, c) = match begin_entry(&e, &Some("feat-c".to_string()), "main") {
        Begin::Run(m, c) => (m, c),
        _ => panic!("must run"),
    };
    match &c {
        Cmd::PushChangeAutoBookmark { change_id } => assert_eq!(change_id, "ddd"),
        _ => panic!("must publish the change directly"),
    }
    let (m, c) = match entry_step(m, Event::AutoName("push-xyzabc".to_string())) {
        Step::Next(m, c) => (m, c),
        _ => panic!("must create the PR"),
    };
    match &c {
        Cmd::CreatePr { head, base, .. } => {
            assert_eq!(head, "push-xyzabc");
            assert_eq!(base, "feat-c");
        }
        _ => panic!("must create the PR on the generated head"),
    }
    match entry_step(m, Event::PrCreated { url: "u".to_string() }) {
        Step::Done(_, cursor) => assert_eq!(cursor, "push-xyzabc"),
        _ => panic!("must finish"),
    }
}

#[test]
fn mismatched_event_is_fatal() {
    let e = entry(Action::CreatePr, "aaa", "t", Some("feat-a"));
    let (m, _) = match begin_entry(&e, &None, "main") {
        Begin::Run(m, c) => (m, c),
        _ => panic!("must run"),
    };
    match entry_step(m, Event::BookmarkCreated) {
        Step::Fatal => {}
        _ => panic!("an event that answers nothing must be fatal"),
    }
}

#[test]
fn two_change_stack_end_to_end() {
    // two changes, the one bound to feat-a at the top of the rendered
    // file; the plan proposes `pr` then `bookmark`, and after the edit
    // supplies a name for the unbound change, the orchestrator links
    // feat-a against the trunk and stacks the second change on it
    let changes = vec![
        Change {
            change_id: "bbb".to_string(),
            description: "second change".to_string(),
            bookmark: None,
        },
        Change {
            change_id: "aaa".to_string(),
            description: "first change".to_string(),
            bookmark: Some("feat-a".to_string()),
        },
    ];
    let text = render_plan(&changes);
    let data: Vec<&str> = text.lines().filter(|l| !l.starts_with('#')).collect();
    assert_eq!(
        data,
        vec!["pr,aaa,first change,feat-a", "bookmark,bbb,second change,"]
    );
    // the user confirms both lines, naming the new bookmark
    let edited = text.replace("bookmark,bbb,second change,", "bookmark,bbb,second change,feat-b");
    let (entries, warnings) = parse_stack_file(&edited);
    assert!(warnings.is_empty());
    assert_eq!(entries.len(), 2);

    let mut cursor: Option<String> = None;
    let mut processed: Vec<(String, String)> = Vec::new();
    let mut created: Vec<(String, String)> = Vec::new();

    // first entry: create-pr for feat-a; no PR exists yet, the bookmark
    // is local, so it is published and a PR opened against the trunk
    let (m, _) = match begin_entry(&entries[0], &cursor, "main") {
        Begin::Run(m, c) => (m, c),
        _ => panic!("must run"),
    };
    let (m, _) = match entry_step(m, Event::PrExists(false)) {
        Step::Next(m, c) => (m, c),
        _ => panic!("must publish"),
    };
    let (m, c) = match entry_step(m, Event::Pushed(true)) {
        Step::Next(m, c) => (m, c),
        _ => panic!("must create"),
    };
    if let Cmd::CreatePr { head, base, .. } = &c {
        created.push((head.clone(), base.clone()));
    } else {
        panic!("must create the first PR");
    }
    match entry_step(m, Event::PrCreated { url: "url-1".to_string() }) {
        Step::Done(pr, cur) => {
            processed.push((pr.pr_url, pr.pr_title));
            cursor = Some(cur);
        }
        _ => panic!("must finish the first entry"),
    }

    // second entry: bookmark feat-b is created at the change, published,
    // and its PR opened with feat-a as base
    let (m, _) = match begin_entry(&entries[1], &cursor, "main") {
        Begin::Run(m, c) => (m, c),
        _ => panic!("must run"),
    };
    let (m, _) = match entry_step(m, Event::BookmarkCreated) {
        Step::Next(m, c) => (m, c),
        _ => panic!("must publish"),
    };
    let (m, c) = match entry_step(m, Event::Pushed(true)) {
        Step::Next(m, c) => (m, c),
        _ => panic!("must create"),
    };
    if let Cmd::CreatePr { head, base, .. } = &c {
        created.push((head.clone(), base.clone()));
    } else {
        panic!("must create the second PR");
    }
    match entry_step(m, Event::PrCreated { url: "url-2".to_string() }) {
        Step::Done(pr, cur) => {
            processed.push((pr.pr_url, pr.pr_title));
            cursor = Some(cur);
        }
        _ => panic!("must finish the second entry"),
    }

    assert_eq!(
        created,
        vec![
            ("feat-a".to_string(), "main".to_string()),
            ("feat-b".to_string(), "feat-a".to_string()),
        ]
    );
    assert_eq!(
        processed,
        vec![
            ("url-1".to_string(), "first change".to_string()),
            ("url-2".to_string(), "second change".to_string()),
        ]
    );
    assert_eq!(cursor, Some("feat-b".to_string()));
}
