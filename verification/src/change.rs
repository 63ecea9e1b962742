//! Changes as the version-control tool reports them, and the parser for its
//! textual log output: blocks of change id, description and bookmark lines,
//! separated by a fixed marker line.

use vstd::prelude::*;
use vstd::string::*;

use crate::text::{
    contains_sub, contains_sub_spec, seq_views, split_char, split_char_spec, split_sub,
    split_sub_spec, trim_spec, trim_str, ws_tokens, ws_tokens_spec,
};

verus! {

/// One unit of version history: a stable identifier, a one-line
/// description (possibly empty), and the bookmark bound to it, if any.
#[derive(Clone, Debug)]
pub struct Change {
    pub change_id: String,
    pub description: String,
    pub bookmark: Option<String>,
}

/// The mathematical value of a `Change`.
pub struct ChangeV {
    pub change_id: Seq<char>,
    pub description: Seq<char>,
    pub bookmark: Option<Seq<char>>,
}

impl View for Change {
    type V = ChangeV;

    open spec fn view(&self) -> ChangeV {
        ChangeV {
            change_id: self.change_id@,
            description: self.description@,
            bookmark: match self.bookmark {
                Some(b) => Some(b@),
                None => None,
            },
        }
    }
}

/// The views of a sequence of changes.
pub open spec fn change_views(cs: Seq<Change>) -> Seq<ChangeV> {
    cs.map_values(|c: Change| c@)
}

/// One block of the log output, already cut at the separators: the first
/// line is the change id, the second (if present) the description, the
/// third (if present) the comma-joined local bookmark names, of which the
/// first nonblank one is used. A blank block stands for nothing.
pub open spec fn parse_log_entry(entry: Seq<char>) -> Option<ChangeV> {
    let t = trim_spec(entry);
    if t.len() == 0 {
        None
    } else {
        let lines = split_char_spec(t, '\n');
        Some(
            ChangeV {
                change_id: trim_spec(lines[0]),
                description: if lines.len() > 1 {
                    trim_spec(lines[1])
                } else {
                    Seq::empty()
                },
                bookmark: if lines.len() > 2 && trim_spec(
                    split_char_spec(trim_spec(lines[2]), ',')[0],
                ).len() > 0 {
                    Some(trim_spec(split_char_spec(trim_spec(lines[2]), ',')[0]))
                } else {
                    None
                },
            },
        )
    }
}

pub open spec fn parse_log_entries(entries: Seq<Seq<char>>) -> Seq<ChangeV>
    decreases entries.len(),
{
    if entries.len() == 0 {
        Seq::empty()
    } else {
        let r = parse_log_entries(entries.drop_last());
        match parse_log_entry(entries.last()) {
            Some(c) => r.push(c),
            None => r,
        }
    }
}

/// What the log parser yields on the collaborator's whole output: the
/// changes of its nonblank blocks, in the order emitted.
pub open spec fn parse_log_spec(out: Seq<char>) -> Seq<ChangeV> {
    parse_log_entries(split_sub_spec(out, "---\n"@))
}

/// Parses the version-control tool's log output: blocks separated by a
/// `---` line, each holding a change id line, then optionally a
/// description line and a comma-joined bookmark-names line, whose first
/// name is used when several are listed. A block missing those lines
/// defaults them to empty rather than failing, and blank blocks are
/// dropped, so empty or trailing output parses cleanly.
pub fn parse_jj_log(output: &str) -> (r: Vec<Change>)
    ensures
        change_views(r@) == parse_log_spec(output@),
{
    proof {
        reveal_strlit("---\n");
    }
    let entries = split_sub(output, "---\n");
    let mut changes: Vec<Change> = Vec::new();
    let mut idx: usize = 0;
    proof {
        assert(change_views(changes@) =~~= parse_log_entries(
            seq_views(entries@).take(0),
        ));
    }
    while idx < entries.len()
        invariant
            seq_views(entries@) == split_sub_spec(output@, "---\n"@),
            0 <= idx <= entries@.len(),
            change_views(changes@) == parse_log_entries(seq_views(entries@).take(idx as int)),
        decreases entries@.len() - idx,
    {
        let ghost prior = change_views(changes@);
        let entry = trim_str(entries[idx].as_str());
        let n = entry.unicode_len();
        if n > 0 {
            let lines = split_char(entry, '\n');
            let change_id = String::from_str(trim_str(lines[0].as_str()));
            let description = if lines.len() > 1 {
                String::from_str(trim_str(lines[1].as_str()))
            } else {
                String::new()
            };
            let bookmark = if lines.len() > 2 {
                let names = split_char(trim_str(lines[2].as_str()), ',');
                proof {
                    assert(seq_views(names@).len() >= 1);
                    assert(names@[0]@ == seq_views(names@)[0]);
                }
                let b = trim_str(names[0].as_str());
                if b.unicode_len() > 0 {
                    Some(String::from_str(b))
                } else {
                    None
                }
            } else {
                None
            };
            let c = Change { change_id, description, bookmark };
            proof {
                assert(lines@[0]@ == seq_views(lines@)[0]);
                assert(parse_log_entry(seq_views(entries@)[idx as int]) == Some(c@));
            }
            changes.push(c);
            proof {
                assert(change_views(changes@) =~~= prior.push(c@));
            }
        } else {
            proof {
                assert(parse_log_entry(seq_views(entries@)[idx as int]) is None);
            }
        }
        idx = idx + 1;
        proof {
            assert(seq_views(entries@).take(idx as int).drop_last() =~~= seq_views(
                entries@,
            ).take(idx - 1));
            assert(seq_views(entries@).take(idx as int).last() == seq_views(entries@)[idx - 1]);
        }
    }
    proof {
        assert(seq_views(entries@).take(entries@.len() as int) =~~= seq_views(entries@));
    }
    changes
}

pub open spec fn auto_bookmark_lines(lines: Seq<Seq<char>>) -> Option<Seq<char>>
    decreases lines.len(),
{
    if lines.len() == 0 {
        None
    } else {
        let l = lines.first();
        if contains_sub_spec(l, "Creating bookmark"@) && ws_tokens_spec(l).len() > 2 {
            Some(ws_tokens_spec(l)[2])
        } else {
            auto_bookmark_lines(lines.drop_first())
        }
    }
}

/// The generated head name scraped from the publish command's output: on
/// the first line that mentions the fixed marker phrase and has a third
/// whitespace-separated token, that token.
pub open spec fn auto_bookmark_spec(out: Seq<char>) -> Option<Seq<char>> {
    auto_bookmark_lines(split_char_spec(out, '\n'))
}

/// Extracts the auto-generated bookmark name from the publish command's
/// human-readable output, scanning its lines for the marker phrase and
/// taking the third whitespace-separated token of the first such line.
pub fn extract_auto_bookmark(output: &str) -> (r: Option<String>)
    ensures
        match r {
            Some(b) => auto_bookmark_spec(output@) == Some(b@),
            None => auto_bookmark_spec(output@) is None,
        },
{
    let lines = split_char(output, '\n');
    let mut idx: usize = 0;
    proof {
        assert(seq_views(lines@).skip(0) =~~= seq_views(lines@));
    }
    while idx < lines.len()
        invariant
            seq_views(lines@) == split_char_spec(output@, '\n'),
            0 <= idx <= lines@.len(),
            auto_bookmark_lines(seq_views(lines@)) == auto_bookmark_lines(
                seq_views(lines@).skip(idx as int),
            ),
        decreases lines@.len() - idx,
    {
        let line = lines[idx].as_str();
        proof {
            assert(seq_views(lines@).skip(idx as int).first() == line@);
        }
        if contains_sub(line, "Creating bookmark") {
            let toks = ws_tokens(line);
            if toks.len() > 2 {
                let b = toks[2].clone();
                proof {
                    assert(seq_views(toks@)[2] == b@);
                }
                return Some(b);
            }
        }
        idx = idx + 1;
        proof {
            assert(seq_views(lines@).skip(idx - 1).drop_first() =~~= seq_views(lines@).skip(
                idx as int,
            ));
        }
    }
    proof {
        assert(seq_views(lines@).skip(idx as int).len() == 0);
    }
    None
}

} // verus!
