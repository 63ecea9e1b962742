//! The editable plan: rendering a change list as commented text, one data
//! line per change, and parsing the edited text back into stack entries.

use vstd::prelude::*;
use vstd::string::*;

use crate::change::{Change, ChangeV, change_views};
use crate::text::{is_ws_char, seq_views, split_char, split_char_spec, trim_spec, trim_str, str_eq};

verus! {

/// What one plan line asks for: leave the change alone, create a named
/// bookmark and a pull request on it, or create a pull request on a
/// bookmark that is expected to exist (or be generated).
#[derive(Clone, Copy, Debug, PartialEq, Eq, Structural)]
pub enum Action {
    Skip,
    CreateBookmark,
    CreatePr,
}

/// One confirmed line of the edited plan.
#[derive(Clone, Debug)]
pub struct StackEntry {
    pub action: Action,
    pub change_id: String,
    pub description: String,
    pub bookmark: Option<String>,
}

/// The mathematical value of a `StackEntry`.
pub struct EntryV {
    pub action: Action,
    pub change_id: Seq<char>,
    pub description: Seq<char>,
    pub bookmark: Option<Seq<char>>,
}

impl View for StackEntry {
    type V = EntryV;

    open spec fn view(&self) -> EntryV {
        EntryV {
            action: self.action,
            change_id: self.change_id@,
            description: self.description@,
            bookmark: match self.bookmark {
                Some(b) => Some(b@),
                None => None,
            },
        }
    }
}

/// The views of a sequence of stack entries.
pub open spec fn entry_views(es: Seq<StackEntry>) -> Seq<EntryV> {
    es.map_values(|e: StackEntry| e@)
}

/// The action a (trimmed) first field names, or nothing when the token is
/// not recognised.
pub open spec fn action_of_token(tok: Seq<char>) -> Option<Action> {
    if tok == "skip"@ || tok == "s"@ {
        Some(Action::Skip)
    } else if tok == "bookmark"@ || tok == "b"@ {
        Some(Action::CreateBookmark)
    } else if tok == "create-pr"@ || tok == "pr"@ {
        Some(Action::CreatePr)
    } else {
        None
    }
}

/// How the parser treats one line of the plan.
pub enum LineParse {
    /// Blank, or a `#` comment: ignored.
    Blank,
    /// Fewer than three comma-separated fields: dropped silently.
    Malformed,
    /// An unrecognised action token: dropped, the token kept for a warning.
    Unknown(Seq<char>),
    /// A well-formed entry.
    Entry(EntryV),
}

/// One line of the plan: trimmed, then split on commas into action token,
/// change id, description and optional bookmark.
pub open spec fn parse_plan_line(line: Seq<char>) -> LineParse {
    let t = trim_spec(line);
    if t.len() == 0 || t[0] == '#' {
        LineParse::Blank
    } else {
        let parts = split_char_spec(t, ',');
        if parts.len() < 3 {
            LineParse::Malformed
        } else {
            let tok = trim_spec(parts[0]);
            match action_of_token(tok) {
                None => LineParse::Unknown(tok),
                Some(a) => LineParse::Entry(
                    EntryV {
                        action: a,
                        change_id: trim_spec(parts[1]),
                        description: trim_spec(parts[2]),
                        bookmark: if parts.len() > 3 && trim_spec(parts[3]).len() > 0 {
                            Some(trim_spec(parts[3]))
                        } else {
                            None
                        },
                    },
                ),
            }
        }
    }
}

/// The entries and warning tokens that a sequence of lines yields, in
/// order.
pub open spec fn parse_plan_lines(lines: Seq<Seq<char>>) -> (Seq<EntryV>, Seq<Seq<char>>)
    decreases lines.len(),
{
    if lines.len() == 0 {
        (Seq::empty(), Seq::empty())
    } else {
        let r = parse_plan_lines(lines.drop_last());
        match parse_plan_line(lines.last()) {
            LineParse::Entry(e) => (r.0.push(e), r.1),
            LineParse::Unknown(tok) => (r.0, r.1.push(tok)),
            LineParse::Blank => r,
            LineParse::Malformed => r,
        }
    }
}

/// What parsing a whole plan text yields: its entries in line order, and
/// the unrecognised action tokens in line order.
pub open spec fn parse_plan_spec(text: Seq<char>) -> (Seq<EntryV>, Seq<Seq<char>>) {
    parse_plan_lines(split_char_spec(text, '\n'))
}

/// Parses an edited plan. Blank and `#`-comment lines are ignored; a line
/// with fewer than three comma-separated fields is dropped silently; a
/// line whose first field is not a recognised action token is dropped and
/// the token returned among the warnings; otherwise the trimmed fields
/// become an entry, with an absent or empty fourth field meaning no
/// bookmark.
pub fn parse_stack_file(content: &str) -> (r: (Vec<StackEntry>, Vec<String>))
    ensures
        entry_views(r.0@) == parse_plan_spec(content@).0,
        seq_views(r.1@) == parse_plan_spec(content@).1,
{
    let lines = split_char(content, '\n');
    let mut entries: Vec<StackEntry> = Vec::new();
    let mut warnings: Vec<String> = Vec::new();
    let mut idx: usize = 0;
    proof {
        assert(entry_views(entries@) =~~= parse_plan_lines(seq_views(lines@).take(0)).0);
        assert(seq_views(warnings@) =~~= parse_plan_lines(seq_views(lines@).take(0)).1);
    }
    while idx < lines.len()
        invariant
            seq_views(lines@) == split_char_spec(content@, '\n'),
            0 <= idx <= lines@.len(),
            entry_views(entries@) == parse_plan_lines(seq_views(lines@).take(idx as int)).0,
            seq_views(warnings@) == parse_plan_lines(seq_views(lines@).take(idx as int)).1,
        decreases lines@.len() - idx,
    {
        let ghost prior_entries = entry_views(entries@);
        let ghost prior_warnings = seq_views(warnings@);
        let ghost line_view = seq_views(lines@)[idx as int];
        let t = trim_str(lines[idx].as_str());
        let n = t.unicode_len();
        if n == 0 || t.get_char(0) == '#' {
            proof {
                assert(parse_plan_line(line_view) is Blank);
            }
        } else {
            let parts = split_char(t, ',');
            if parts.len() < 3 {
                proof {
                    assert(parse_plan_line(line_view) is Malformed);
                }
            } else {
                let tok = trim_str(parts[0].as_str());
                proof {
                    assert(seq_views(parts@)[0] == parts@[0]@);
                    assert(tok@ == trim_spec(split_char_spec(trim_spec(line_view), ',')[0]));
                }
                let action: Option<Action> = if str_eq(tok, "skip") || str_eq(tok, "s") {
                    Some(Action::Skip)
                } else if str_eq(tok, "bookmark") || str_eq(tok, "b") {
                    Some(Action::CreateBookmark)
                } else if str_eq(tok, "create-pr") || str_eq(tok, "pr") {
                    Some(Action::CreatePr)
                } else {
                    None
                };
                match action {
                    None => {
                        warnings.push(String::from_str(tok));
                        proof {
                            assert(parse_plan_line(line_view) == LineParse::Unknown(tok@));
                            assert(seq_views(warnings@) =~~= prior_warnings.push(tok@));
                        }
                    },
                    Some(a) => {
                        let change_id = String::from_str(trim_str(parts[1].as_str()));
                        let description = String::from_str(trim_str(parts[2].as_str()));
                        let bookmark = if parts.len() > 3 {
                            let b = trim_str(parts[3].as_str());
                            if b.unicode_len() > 0 {
                                Some(String::from_str(b))
                            } else {
                                None
                            }
                        } else {
                            None
                        };
                        let e = StackEntry { action: a, change_id, description, bookmark };
                        proof {
                            assert(seq_views(parts@)[1] == parts@[1]@);
                            assert(seq_views(parts@)[2] == parts@[2]@);
                            assert(parts@.len() > 3 ==> seq_views(parts@)[3] == parts@[3]@);
                            assert(parse_plan_line(line_view) == LineParse::Entry(e@));
                        }
                        entries.push(e);
                        proof {
                            assert(entry_views(entries@) =~~= prior_entries.push(e@));
                        }
                    },
                }
            }
        }
        idx = idx + 1;
        proof {
            assert(seq_views(lines@).take(idx as int).drop_last() =~~= seq_views(lines@).take(
                idx - 1,
            ));
            assert(seq_views(lines@).take(idx as int).last() == seq_views(lines@)[idx - 1]);
        }
    }
    proof {
        assert(seq_views(lines@).take(lines@.len() as int) =~~= seq_views(lines@));
    }
    (entries, warnings)
}

/// The plan's comment header: nine `#` lines documenting the recognised
/// action tokens and the column layout, each newline-terminated.
pub open spec fn plan_header_spec() -> Seq<char> {
    "# The following file represents your stack in the order it will applied, top to bottom.\n"@
        + "# The first column can be one of:\n"@
        + "# * \"skip\" or \"s\": to skip this change entirely (can also just delete the line)\n"@
        + "# * \"create-pr\" or \"pr\": to create the PR based on an already existing bookmark\n"@
        + "# * \"bookmark\" or \"b\": to create a named bookmark to then use for the PR\n"@
        + "# the other columns are:\n"@
        + "# * the change ID\n"@
        + "# * the change description\n"@
        + "# * if present, the bookmark\n"@
}

/// The comma-joined fields rendered for one change: proposed action,
/// change id, description and bookmark (or nothing). The proposed
/// action is `pr` when the change already carries a bookmark, else
/// `bookmark`.
pub open spec fn plan_fields_of(c: ChangeV) -> Seq<char> {
    let tok: Seq<char> = if c.bookmark is Some {
        "pr"@
    } else {
        "bookmark"@
    };
    let bm: Seq<char> = match c.bookmark {
        Some(b) => b,
        None => Seq::empty(),
    };
    tok + ","@ + c.change_id + ","@ + c.description + ","@ + bm
}

/// The data line rendered for one change: its fields, newline-terminated.
pub open spec fn plan_line_of(c: ChangeV) -> Seq<char> {
    plan_fields_of(c) + "\n"@
}

/// The data lines of the plan: the given changes in reverse order, so the
/// text reads top-of-stack first.
pub open spec fn plan_body_spec(changes: Seq<ChangeV>) -> Seq<char>
    decreases changes.len(),
{
    if changes.len() == 0 {
        Seq::empty()
    } else {
        plan_body_spec(changes.drop_first()) + plan_line_of(changes.first())
    }
}

/// The whole plan text for a change list.
pub open spec fn render_plan_spec(changes: Seq<ChangeV>) -> Seq<char> {
    plan_header_spec() + plan_body_spec(changes)
}

/// Renders the editable plan for a change list (given base-most first):
/// the comment header, then one data line per change, most recent first.
pub fn render_plan(changes: &Vec<Change>) -> (r: String)
    ensures
        r@ == render_plan_spec(change_views(changes@)),
{
    let mut s = String::new();
    s.append("# The following file represents your stack in the order it will applied, top to bottom.\n");
    s.append("# The first column can be one of:\n");
    s.append("# * \"skip\" or \"s\": to skip this change entirely (can also just delete the line)\n");
    s.append("# * \"create-pr\" or \"pr\": to create the PR based on an already existing bookmark\n");
    s.append("# * \"bookmark\" or \"b\": to create a named bookmark to then use for the PR\n");
    s.append("# the other columns are:\n");
    s.append("# * the change ID\n");
    s.append("# * the change description\n");
    s.append("# * if present, the bookmark\n");
    proof {
        assert(Seq::<char>::empty()
            + "# The following file represents your stack in the order it will applied, top to bottom.\n"@
            =~= "# The following file represents your stack in the order it will applied, top to bottom.\n"@);
        assert(s@ == plan_header_spec());
    }
    let ghost views = change_views(changes@);
    let mut j: usize = changes.len();
    proof {
        assert(views.skip(j as int) =~~= Seq::<ChangeV>::empty());
    }
    while j > 0
        invariant
            views == change_views(changes@),
            0 <= j <= changes@.len(),
            s@ == plan_header_spec() + plan_body_spec(views.skip(j as int)),
        decreases j,
    {
        j = j - 1;
        let c = &changes[j];
        let mut ln = String::new();
        if c.bookmark.is_some() {
            ln.append("pr");
            proof {
                assert(Seq::<char>::empty() + "pr"@ =~= "pr"@);
            }
        } else {
            ln.append("bookmark");
            proof {
                assert(Seq::<char>::empty() + "bookmark"@ =~= "bookmark"@);
            }
        }
        ln.append(",");
        ln.append(c.change_id.as_str());
        ln.append(",");
        ln.append(c.description.as_str());
        ln.append(",");
        let ghost pre_bm = ln@;
        match &c.bookmark {
            Some(b) => ln.append(b.as_str()),
            None => {
                proof {
                    assert(pre_bm + Seq::<char>::empty() =~= pre_bm);
                }
            },
        }
        ln.append("\n");
        proof {
            assert(views[j as int] == changes@[j as int]@);
            assert(ln@ == plan_line_of(views[j as int]));
        }
        s.append(ln.as_str());
        proof {
            assert(views.skip(j as int).drop_first() =~~= views.skip(j + 1));
            assert(views.skip(j as int).first() == views[j as int]);
            assert((plan_header_spec() + plan_body_spec(views.skip(j + 1))) + plan_line_of(
                views[j as int],
            ) =~= plan_header_spec() + (plan_body_spec(views.skip(j + 1)) + plan_line_of(
                views[j as int],
            )));
            assert(s@ == plan_header_spec() + plan_body_spec(views.skip(j as int)));
        }
    }
    proof {
        assert(views.skip(0) =~~= views);
    }
    s
}

/// No character of `s` is `c`.
pub open spec fn has_no_char(s: Seq<char>, c: char) -> bool {
    forall|i: int| 0 <= i < s.len() ==> s[i] != c
}

/// A field value that survives the plan's text format unchanged: free of
/// the comma that delimits columns and of newlines, and already trimmed,
/// so the parser's trimming gives it back as it is.
pub open spec fn plain_field(s: Seq<char>) -> bool {
    has_no_char(s, ',') && has_no_char(s, '\n') && trim_spec(s) == s
}

/// A change whose fields survive the round trip through the plan text:
/// plain fields throughout, and a nonempty bookmark when one is set (an
/// empty one would render as an absent fourth column).
pub open spec fn round_trip_ready(c: ChangeV) -> bool {
    &&& plain_field(c.change_id)
    &&& plain_field(c.description)
    &&& match c.bookmark {
        Some(b) => plain_field(b) && b.len() > 0,
        None => true,
    }
}

/// The entry that decoding a rendered change yields: the same fields,
/// under the action its rendered token names.
pub open spec fn expected_entry(c: ChangeV) -> EntryV {
    EntryV {
        action: if c.bookmark is Some {
            Action::CreatePr
        } else {
            Action::CreateBookmark
        },
        change_id: c.change_id,
        description: c.description,
        bookmark: c.bookmark,
    }
}

/// Line parsing distributes over concatenation of line lists.
proof fn lemma_parse_lines_app(a: Seq<Seq<char>>, b: Seq<Seq<char>>)
    ensures
        parse_plan_lines(a + b).0 == parse_plan_lines(a).0 + parse_plan_lines(b).0,
        parse_plan_lines(a + b).1 == parse_plan_lines(a).1 + parse_plan_lines(b).1,
    decreases b.len(),
{
    if b.len() == 0 {
        assert(a + b =~~= a);
        assert(parse_plan_lines(a).0 + parse_plan_lines(b).0 =~~= parse_plan_lines(a).0);
        assert(parse_plan_lines(a).1 + parse_plan_lines(b).1 =~~= parse_plan_lines(a).1);
    } else {
        lemma_parse_lines_app(a, b.drop_last());
        assert((a + b).drop_last() =~~= a + b.drop_last());
        assert((a + b).last() == b.last());
        match parse_plan_line(b.last()) {
            LineParse::Entry(e) => {
                assert(parse_plan_lines(a).0 + parse_plan_lines(b).0 =~~= (parse_plan_lines(a).0
                    + parse_plan_lines(b.drop_last()).0).push(e));
                assert(parse_plan_lines(a).1 + parse_plan_lines(b).1 =~~= parse_plan_lines(a).1
                    + parse_plan_lines(b.drop_last()).1);
            },
            LineParse::Unknown(tok) => {
                assert(parse_plan_lines(a).1 + parse_plan_lines(b).1 =~~= (parse_plan_lines(a).1
                    + parse_plan_lines(b.drop_last()).1).push(tok));
                assert(parse_plan_lines(a).0 + parse_plan_lines(b).0 =~~= parse_plan_lines(a).0
                    + parse_plan_lines(b.drop_last()).0);
            },
            LineParse::Blank => {
                assert(parse_plan_lines(a).0 + parse_plan_lines(b).0 =~~= parse_plan_lines(a).0
                    + parse_plan_lines(b.drop_last()).0);
                assert(parse_plan_lines(a).1 + parse_plan_lines(b).1 =~~= parse_plan_lines(a).1
                    + parse_plan_lines(b.drop_last()).1);
            },
            LineParse::Malformed => {
                assert(parse_plan_lines(a).0 + parse_plan_lines(b).0 =~~= parse_plan_lines(a).0
                    + parse_plan_lines(b.drop_last()).0);
                assert(parse_plan_lines(a).1 + parse_plan_lines(b).1 =~~= parse_plan_lines(a).1
                    + parse_plan_lines(b.drop_last()).1);
            },
        }
    }
}

/// Lines that all parse as blank contribute nothing.
proof fn lemma_parse_lines_all_blank(lines: Seq<Seq<char>>)
    requires
        forall|i: int| 0 <= i < lines.len() ==> parse_plan_line(#[trigger] lines[i]) is Blank,
    ensures
        parse_plan_lines(lines).0 == Seq::<EntryV>::empty(),
        parse_plan_lines(lines).1 == Seq::<Seq<char>>::empty(),
    decreases lines.len(),
{
    if lines.len() > 0 {
        lemma_parse_lines_all_blank(lines.drop_last());
    }
}

/// The body's leftmost text is the line of the last change.
proof fn lemma_body_last(changes: Seq<ChangeV>)
    requires
        changes.len() > 0,
    ensures
        plan_body_spec(changes) == plan_line_of(changes.last()) + plan_body_spec(
            changes.drop_last(),
        ),
    decreases changes.len(),
{
    if changes.len() == 1 {
        assert(changes.drop_first() =~= changes.drop_last());
        assert(plan_body_spec(changes.drop_last()) + plan_line_of(changes.first())
            =~= plan_line_of(changes.last()) + plan_body_spec(changes.drop_last()));
    } else {
        let df = changes.drop_first();
        lemma_body_last(df);
        assert(df.last() == changes.last());
        assert(df.drop_last() =~= changes.drop_last().drop_first());
        assert(changes.drop_last().first() == changes.first());
        assert((plan_line_of(changes.last()) + plan_body_spec(df.drop_last())) + plan_line_of(
            changes.first(),
        ) =~= plan_line_of(changes.last()) + (plan_body_spec(df.drop_last()) + plan_line_of(
            changes.first(),
        )));
    }
}

/// The rendered fields of a round-trip-ready change hold no newline.
proof fn lemma_fields_nl_free(c: ChangeV)
    requires
        round_trip_ready(c),
    ensures
        has_no_char(plan_fields_of(c), '\n'),
{
    reveal_strlit("pr");
    reveal_strlit("bookmark");
    reveal_strlit(",");
    let tok: Seq<char> = if c.bookmark is Some {
        "pr"@
    } else {
        "bookmark"@
    };
    let bm: Seq<char> = match c.bookmark {
        Some(b) => b,
        None => Seq::empty(),
    };
    let com = ","@;
    let f1 = tok + com;
    let f2 = f1 + c.change_id;
    let f3 = f2 + com;
    let f4 = f3 + c.description;
    let f5 = f4 + com;
    let f = plan_fields_of(c);
    assert(f == f5 + bm);
    assert(forall|j: int| 0 <= j < tok.len() ==> tok[j] != '\n');
    assert forall|j: int| 0 <= j < f.len() implies f[j] != '\n' by {
        if j < f5.len() {
            if j < f4.len() {
                if j < f3.len() {
                    if j < f2.len() {
                        if j < f1.len() {
                            if j < tok.len() {
                                assert(f[j] == tok[j]);
                            } else {
                                assert(f[j] == com[j - tok.len()]);
                            }
                        } else {
                            assert(f[j] == c.change_id[j - f1.len()]);
                        }
                    } else {
                        assert(f[j] == com[j - f2.len()]);
                    }
                } else {
                    assert(f[j] == c.description[j - f3.len()]);
                }
            } else {
                assert(f[j] == com[j - f4.len()]);
            }
        } else {
            assert(f[j] == bm[j - f5.len()]);
        }
    }
}

/// Decoding one rendered data line (without its newline) gives back the
/// change's fields, under the action its token names.
#[verifier::rlimit(100)]
proof fn lemma_fields_parse(c: ChangeV)
    requires
        round_trip_ready(c),
    ensures
        parse_plan_line(plan_fields_of(c)) == LineParse::Entry(expected_entry(c)),
{
    reveal_strlit("pr");
    reveal_strlit("bookmark");
    reveal_strlit(",");
    reveal_strlit("skip");
    reveal_strlit("s");
    reveal_strlit("b");
    reveal_strlit("create-pr");
    let tok: Seq<char> = if c.bookmark is Some {
        "pr"@
    } else {
        "bookmark"@
    };
    let bm: Seq<char> = match c.bookmark {
        Some(b) => b,
        None => Seq::empty(),
    };
    let com = ","@;
    let id = c.change_id;
    let desc = c.description;
    let f1 = tok + com;
    let f2 = f1 + id;
    let f3 = f2 + com;
    let f4 = f3 + desc;
    let f5 = f4 + com;
    let f = plan_fields_of(c);
    assert(f == f5 + bm);
    if c.bookmark is Some {
        crate::text::lemma_trim_fix_ends(bm);
    }
    assert(forall|j: int| 0 <= j < tok.len() ==> tok[j] != ',' && !is_ws_char(tok[j]));
    // the three commas stand right after the token, the id and the
    // description
    assert forall|j: int| 0 <= j < tok.len() implies f[j] == tok[j] by {
        assert(f[j] == f5[j]);
        assert(f5[j] == f4[j]);
        assert(f4[j] == f3[j]);
        assert(f3[j] == f2[j]);
        assert(f2[j] == f1[j]);
        assert(f1[j] == tok[j]);
    }
    assert(f[tok.len() as int] == ',') by {
        assert(f1[tok.len() as int] == com[0]);
        assert(f2[tok.len() as int] == f1[tok.len() as int]);
        assert(f3[tok.len() as int] == f2[tok.len() as int]);
        assert(f4[tok.len() as int] == f3[tok.len() as int]);
        assert(f5[tok.len() as int] == f4[tok.len() as int]);
        assert(f[tok.len() as int] == f5[tok.len() as int]);
    }
    crate::text::lemma_split_char_peel(f, ',', tok.len() as int);
    assert(f.take(tok.len() as int) =~= tok);
    let g1 = id + com;
    let g2 = g1 + desc;
    let g3 = g2 + com;
    let r1 = g3 + bm;
    assert(f.skip(tok.len() as int + 1) =~= r1);
    assert forall|j: int| 0 <= j < id.len() implies r1[j] == id[j] by {
        assert(r1[j] == g3[j]);
        assert(g3[j] == g2[j]);
        assert(g2[j] == g1[j]);
        assert(g1[j] == id[j]);
    }
    assert(r1[id.len() as int] == ',') by {
        assert(g1[id.len() as int] == com[0]);
        assert(g2[id.len() as int] == g1[id.len() as int]);
        assert(g3[id.len() as int] == g2[id.len() as int]);
        assert(r1[id.len() as int] == g3[id.len() as int]);
    }
    crate::text::lemma_split_char_peel(r1, ',', id.len() as int);
    assert(r1.take(id.len() as int) =~= id);
    let h1 = desc + com;
    let r2 = h1 + bm;
    assert(r1.skip(id.len() as int + 1) =~= r2);
    assert forall|j: int| 0 <= j < desc.len() implies r2[j] == desc[j] by {
        assert(r2[j] == h1[j]);
        assert(h1[j] == desc[j]);
    }
    assert(r2[desc.len() as int] == ',') by {
        assert(h1[desc.len() as int] == com[0]);
        assert(r2[desc.len() as int] == h1[desc.len() as int]);
    }
    crate::text::lemma_split_char_peel(r2, ',', desc.len() as int);
    assert(r2.take(desc.len() as int) =~= desc);
    assert(r2.skip(desc.len() as int + 1) =~= bm);
    crate::text::lemma_split_char_whole(bm, ',');
    let parts = split_char_spec(f, ',');
    assert(parts =~~= seq![tok, id, desc, bm]);
    // the whole line and each field are their own trimming
    assert(f[0] == tok[0]);
    if bm.len() > 0 {
        assert(f.last() == bm.last());
        crate::text::lemma_trim_fix(f);
    } else {
        assert(f.len() == f5.len());
        assert(f.last() == f5.last());
        assert(f5.last() == com[0]);
        crate::text::lemma_trim_fix(f);
    }
    crate::text::lemma_trim_fix(tok);
    if id.len() > 0 {
        crate::text::lemma_trim_fix_ends(id);
        crate::text::lemma_trim_fix(id);
    }
    if desc.len() > 0 {
        crate::text::lemma_trim_fix_ends(desc);
        crate::text::lemma_trim_fix(desc);
    }
    if bm.len() > 0 {
        crate::text::lemma_trim_fix(bm);
    }
    assert(trim_spec(f) == f);
    assert(f[0] != '#');
    assert(action_of_token(tok) == Some(expected_entry(c).action));
    assert(parse_plan_line(f) == LineParse::Entry(expected_entry(c)));
}

/// Decoding the rendered body gives back the changes, reversed into file
/// order, with no warnings.
proof fn lemma_body_parse(changes: Seq<ChangeV>)
    requires
        forall|i: int| 0 <= i < changes.len() ==> round_trip_ready(#[trigger] changes[i]),
    ensures
        ({
            let r = parse_plan_lines(split_char_spec(plan_body_spec(changes), '\n'));
            &&& r.1 == Seq::<Seq<char>>::empty()
            &&& r.0.len() == changes.len()
            &&& forall|i: int|
                0 <= i < changes.len() ==> r.0[i] == expected_entry(
                    changes[changes.len() - 1 - i],
                )
        }),
    decreases changes.len(),
{
    reveal_strlit("\n");
    if changes.len() == 0 {
        assert(plan_body_spec(changes) == Seq::<char>::empty());
        crate::text::lemma_split_char_whole(Seq::<char>::empty(), '\n');
        let lines = seq![Seq::<char>::empty()];
        assert(split_char_spec(plan_body_spec(changes), '\n') == lines);
        assert(lines.drop_last() =~~= Seq::<Seq<char>>::empty());
        assert(lines.last() == Seq::<char>::empty());
        assert(trim_spec(Seq::<char>::empty()).len() == 0);
        assert(parse_plan_line(Seq::<char>::empty()) is Blank);
        assert(parse_plan_lines(Seq::<Seq<char>>::empty()).0 =~~= Seq::<EntryV>::empty());
        assert(parse_plan_lines(Seq::<Seq<char>>::empty()).1 =~~= Seq::<Seq<char>>::empty());
        assert(parse_plan_lines(lines).0 =~~= Seq::<EntryV>::empty());
        assert(parse_plan_lines(lines).1 =~~= Seq::<Seq<char>>::empty());
    } else {
        let c = changes.last();
        lemma_body_last(changes);
        let f = plan_fields_of(c);
        lemma_fields_nl_free(c);
        let body = plan_body_spec(changes);
        let rest = plan_body_spec(changes.drop_last());
        assert(body == (f + "\n"@) + rest);
        assert("\n"@ =~= seq!['\n']);
        assert(body[f.len() as int] == '\n') by {
            assert((f + "\n"@)[f.len() as int] == "\n"@[0]);
        }
        assert forall|j: int| 0 <= j < f.len() implies body[j] != '\n' by {
            assert(body[j] == (f + "\n"@)[j]);
            assert((f + "\n"@)[j] == f[j]);
        }
        crate::text::lemma_split_char_peel(body, '\n', f.len() as int);
        assert(body.take(f.len() as int) =~= f);
        assert(body.skip(f.len() as int + 1) =~= rest);
        lemma_fields_parse(c);
        assert(forall|i: int|
            0 <= i < changes.drop_last().len() ==> changes.drop_last()[i] == changes[i]);
        lemma_body_parse(changes.drop_last());
        lemma_parse_lines_app(seq![f], split_char_spec(rest, '\n'));
        assert(seq![f] + split_char_spec(rest, '\n') =~~= split_char_spec(body, '\n'));
        assert(seq![f].drop_last() =~~= Seq::<Seq<char>>::empty());
        assert(seq![f].last() == f);
        assert(parse_plan_lines(Seq::<Seq<char>>::empty()).0 =~~= Seq::<EntryV>::empty());
        assert(parse_plan_lines(Seq::<Seq<char>>::empty()).1 =~~= Seq::<Seq<char>>::empty());
        assert(parse_plan_lines(seq![f]).0 =~~= parse_plan_lines(
            Seq::<Seq<char>>::empty(),
        ).0.push(expected_entry(c)));
        assert(parse_plan_lines(seq![f]).0 =~~= seq![expected_entry(c)]);
        assert(parse_plan_lines(seq![f]).1 =~~= Seq::<Seq<char>>::empty());
        let r = parse_plan_lines(split_char_spec(body, '\n'));
        let rr = parse_plan_lines(split_char_spec(rest, '\n'));
        assert(r.0 =~~= seq![expected_entry(c)] + rr.0);
        assert(r.1 =~~= Seq::<Seq<char>>::empty() + rr.1);
        assert(r.1 =~~= rr.1);
        assert forall|i: int| 0 <= i < changes.len() implies r.0[i] == expected_entry(
            changes[changes.len() - 1 - i],
        ) by {
            if i == 0 {
                assert(r.0[0] == expected_entry(c));
            } else {
                assert(r.0[i] == rr.0[i - 1]);
                assert(rr.0[i - 1] == expected_entry(
                    changes.drop_last()[changes.drop_last().len() - 1 - (i - 1)],
                ));
                assert(changes.drop_last()[changes.len() - 1 - i] == changes[changes.len() - 1
                    - i]);
            }
        }
    }
}

/// Peeling one newline-terminated comment line off the front of a text:
/// it splits off as one line that the parser ignores.
proof fn lemma_peel_comment_line(l: Seq<char>, rest: Seq<char>)
    requires
        l.len() >= 2,
        l[0] == '#',
        l.last() == '\n',
        forall|j: int| 0 <= j < l.len() - 1 ==> l[j] != '\n',
    ensures
        split_char_spec(l + rest, '\n') == seq![(l + rest).take(l.len() - 1)] + split_char_spec(
            rest,
            '\n',
        ),
        parse_plan_line((l + rest).take(l.len() - 1)) is Blank,
{
    let t = l + rest;
    let p = l.len() - 1;
    assert(t[p] == l[p]);
    assert(forall|j: int| 0 <= j < p ==> t[j] == l[j]);
    crate::text::lemma_split_char_peel(t, '\n', p);
    assert(t.skip(p + 1) =~= rest);
    let w = t.take(p);
    assert(w[0] == l[0]);
    crate::text::lemma_trim_first(w);
}

proof fn lemma_parse_single(l: Seq<char>)
    ensures
        parse_plan_line(l) is Entry ==> parse_plan_lines(seq![l]) == (
        seq![parse_plan_line(l)->Entry_0],
        Seq::<Seq<char>>::empty(),
        ),
        parse_plan_line(l) is Unknown ==> parse_plan_lines(seq![l]) == (
        Seq::<EntryV>::empty(),
        seq![parse_plan_line(l)->Unknown_0],
        ),
        parse_plan_line(l) is Blank || parse_plan_line(l) is Malformed ==> parse_plan_lines(
            seq![l],
        ) == (Seq::<EntryV>::empty(), Seq::<Seq<char>>::empty()),
{
    assert(seq![l].drop_last() =~~= Seq::<Seq<char>>::empty());
    assert(seq![l].last() == l);
    assert(parse_plan_lines(Seq::<Seq<char>>::empty()).0 =~~= Seq::<EntryV>::empty());
    assert(parse_plan_lines(Seq::<Seq<char>>::empty()).1 =~~= Seq::<Seq<char>>::empty());
    match parse_plan_line(l) {
        LineParse::Entry(e) => {
            assert(parse_plan_lines(seq![l]).0 =~~= seq![e]);
            assert(parse_plan_lines(seq![l]).1 =~~= Seq::<Seq<char>>::empty());
        },
        LineParse::Unknown(tok) => {
            assert(parse_plan_lines(seq![l]).0 =~~= Seq::<EntryV>::empty());
            assert(parse_plan_lines(seq![l]).1 =~~= seq![tok]);
        },
        LineParse::Blank => {
            assert(parse_plan_lines(seq![l]).0 =~~= Seq::<EntryV>::empty());
            assert(parse_plan_lines(seq![l]).1 =~~= Seq::<Seq<char>>::empty());
        },
        LineParse::Malformed => {
            assert(parse_plan_lines(seq![l]).0 =~~= Seq::<EntryV>::empty());
            assert(parse_plan_lines(seq![l]).1 =~~= Seq::<Seq<char>>::empty());
        },
    }
}

/// A line whose first field is no recognised action token is dropped
/// with a warning, and processing continues: the entries are exactly
/// those of the plan without that line, and the offending token stands
/// among the warnings, between those of the earlier and the later lines.
pub proof fn lemma_unknown_action_dropped(lines: Seq<Seq<char>>, k: int)
    requires
        0 <= k < lines.len(),
        ({
            let t = trim_spec(lines[k]);
            &&& t.len() > 0
            &&& t[0] != '#'
            &&& split_char_spec(t, ',').len() >= 3
            &&& action_of_token(trim_spec(split_char_spec(t, ',')[0])) is None
        }),
    ensures
        parse_plan_lines(lines).0 == parse_plan_lines(lines.remove(k)).0,
        parse_plan_lines(lines).1 == parse_plan_lines(lines.take(k)).1 + seq![
            trim_spec(split_char_spec(trim_spec(lines[k]), ',')[0]),
        ] + parse_plan_lines(lines.skip(k + 1)).1,
{
    let l = lines[k];
    let tok = trim_spec(split_char_spec(trim_spec(l), ',')[0]);
    assert(parse_plan_line(l) == LineParse::Unknown(tok));
    lemma_parse_single(l);
    assert(lines =~~= lines.take(k) + (seq![l] + lines.skip(k + 1)));
    lemma_parse_lines_app(seq![l], lines.skip(k + 1));
    lemma_parse_lines_app(lines.take(k), seq![l] + lines.skip(k + 1));
    assert(lines.remove(k) =~~= lines.take(k) + lines.skip(k + 1));
    lemma_parse_lines_app(lines.take(k), lines.skip(k + 1));
    assert(parse_plan_lines(seq![l] + lines.skip(k + 1)).0 =~~= parse_plan_lines(
        lines.skip(k + 1),
    ).0);
    assert(parse_plan_lines(lines).0 =~~= parse_plan_lines(lines.remove(k)).0);
    assert(parse_plan_lines(seq![l] + lines.skip(k + 1)).1 =~~= seq![tok] + parse_plan_lines(
        lines.skip(k + 1),
    ).1);
    assert(parse_plan_lines(lines).1 =~~= parse_plan_lines(lines.take(k)).1 + seq![tok]
        + parse_plan_lines(lines.skip(k + 1)).1);
}

/// A line with fewer than three comma-separated fields is dropped
/// silently: entries and warnings alike are exactly those of the plan
/// without that line.
pub proof fn lemma_short_line_dropped(lines: Seq<Seq<char>>, k: int)
    requires
        0 <= k < lines.len(),
        ({
            let t = trim_spec(lines[k]);
            &&& t.len() > 0
            &&& t[0] != '#'
            &&& split_char_spec(t, ',').len() < 3
        }),
    ensures
        parse_plan_lines(lines).0 == parse_plan_lines(lines.remove(k)).0,
        parse_plan_lines(lines).1 == parse_plan_lines(lines.remove(k)).1,
{
    let l = lines[k];
    assert(parse_plan_line(l) is Malformed);
    lemma_parse_single(l);
    assert(lines =~~= lines.take(k) + (seq![l] + lines.skip(k + 1)));
    lemma_parse_lines_app(seq![l], lines.skip(k + 1));
    lemma_parse_lines_app(lines.take(k), seq![l] + lines.skip(k + 1));
    assert(lines.remove(k) =~~= lines.take(k) + lines.skip(k + 1));
    lemma_parse_lines_app(lines.take(k), lines.skip(k + 1));
    assert(parse_plan_lines(seq![l] + lines.skip(k + 1)).0 =~~= parse_plan_lines(
        lines.skip(k + 1),
    ).0);
    assert(parse_plan_lines(seq![l] + lines.skip(k + 1)).1 =~~= parse_plan_lines(
        lines.skip(k + 1),
    ).1);
    assert(parse_plan_lines(lines).0 =~~= parse_plan_lines(lines.remove(k)).0);
    assert(parse_plan_lines(lines).1 =~~= parse_plan_lines(lines.remove(k)).1);
}

/// Decoding a rendered plan recovers every change: the entries come back
/// in file order (the reverse of the given stack order), each carrying
/// the same change id, description and bookmark, under the action the
/// renderer proposed — `pr` where a bookmark was set, else `bookmark` —
/// and no line is dropped or warned about.
#[verifier::rlimit(100)]
pub proof fn lemma_plan_round_trip(changes: Seq<ChangeV>)
    requires
        forall|i: int| 0 <= i < changes.len() ==> round_trip_ready(#[trigger] changes[i]),
    ensures
        ({
            let r = parse_plan_spec(render_plan_spec(changes));
            &&& r.1 == Seq::<Seq<char>>::empty()
            &&& r.0.len() == changes.len()
            &&& forall|i: int|
                0 <= i < changes.len() ==> r.0[i] == expected_entry(
                    changes[changes.len() - 1 - i],
                )
        }),
{
    reveal_strlit(
        "# The following file represents your stack in the order it will applied, top to bottom.\n",
    );
    reveal_strlit("# The first column can be one of:\n");
    reveal_strlit(
        "# * \"skip\" or \"s\": to skip this change entirely (can also just delete the line)\n",
    );
    reveal_strlit(
        "# * \"create-pr\" or \"pr\": to create the PR based on an already existing bookmark\n",
    );
    reveal_strlit("# * \"bookmark\" or \"b\": to create a named bookmark to then use for the PR\n");
    reveal_strlit("# the other columns are:\n");
    reveal_strlit("# * the change ID\n");
    reveal_strlit("# * the change description\n");
    reveal_strlit("# * if present, the bookmark\n");
    let l1 =
        "# The following file represents your stack in the order it will applied, top to bottom.\n"@;
    let l2 = "# The first column can be one of:\n"@;
    let l3 = "# * \"skip\" or \"s\": to skip this change entirely (can also just delete the line)\n"@;
    let l4 = "# * \"create-pr\" or \"pr\": to create the PR based on an already existing bookmark\n"@;
    let l5 = "# * \"bookmark\" or \"b\": to create a named bookmark to then use for the PR\n"@;
    let l6 = "# the other columns are:\n"@;
    let l7 = "# * the change ID\n"@;
    let l8 = "# * the change description\n"@;
    let l9 = "# * if present, the bookmark\n"@;
    let body = plan_body_spec(changes);
    let text = render_plan_spec(changes);
    let r9 = l9 + body;
    let r8 = l8 + r9;
    let r7 = l7 + r8;
    let r6 = l6 + r7;
    let r5 = l5 + r6;
    let r4 = l4 + r5;
    let r3 = l3 + r4;
    let r2 = l2 + r3;
    assert(text =~= l1 + r2);
    lemma_peel_comment_line(l1, r2);
    lemma_peel_comment_line(l2, r3);
    lemma_peel_comment_line(l3, r4);
    lemma_peel_comment_line(l4, r5);
    lemma_peel_comment_line(l5, r6);
    lemma_peel_comment_line(l6, r7);
    lemma_peel_comment_line(l7, r8);
    lemma_peel_comment_line(l8, r9);
    lemma_peel_comment_line(l9, body);
    let w1 = (l1 + r2).take(l1.len() - 1);
    let w2 = (l2 + r3).take(l2.len() - 1);
    let w3 = (l3 + r4).take(l3.len() - 1);
    let w4 = (l4 + r5).take(l4.len() - 1);
    let w5 = (l5 + r6).take(l5.len() - 1);
    let w6 = (l6 + r7).take(l6.len() - 1);
    let w7 = (l7 + r8).take(l7.len() - 1);
    let w8 = (l8 + r9).take(l8.len() - 1);
    let w9 = (l9 + body).take(l9.len() - 1);
    let header_lines = seq![w1, w2, w3, w4, w5, w6, w7, w8, w9];
    assert(split_char_spec(text, '\n') =~~= header_lines + split_char_spec(body, '\n'));
    lemma_parse_lines_all_blank(header_lines);
    lemma_parse_lines_app(header_lines, split_char_spec(body, '\n'));
    lemma_body_parse(changes);
    let r = parse_plan_spec(text);
    let rb = parse_plan_lines(split_char_spec(body, '\n'));
    assert(r.0 =~~= Seq::<EntryV>::empty() + rb.0);
    assert(r.0 =~~= rb.0);
    assert(r.1 =~~= Seq::<Seq<char>>::empty() + rb.1);
    assert(r.1 =~~= rb.1);
}

} // verus!
