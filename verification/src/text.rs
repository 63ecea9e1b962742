//! Text primitives shared by the plan codec, the log parser and the comment
//! builder: whitespace trimming, splitting on a separator, substring search
//! and decimal rendering, each specified over `Seq<char>`.

use vstd::prelude::*;
use vstd::string::*;

verus! {

/// A character counts as whitespace exactly when `char::is_whitespace`
/// says so: the Unicode `White_Space` code points.
pub open spec fn is_ws_char(c: char) -> bool {
    let u = c as u32;
    (0x09 <= u && u <= 0x0d) || u == 0x20 || u == 0x85 || u == 0xa0 || u == 0x1680 || (0x2000
        <= u && u <= 0x200a) || u == 0x2028 || u == 0x2029 || u == 0x202f || u == 0x205f || u
        == 0x3000
}

/// Whitespace test on one character, the same set that `char::is_whitespace`
/// recognises.
pub fn is_ws(c: char) -> (r: bool)
    ensures
        r == is_ws_char(c),
{
    let u = c as u32;
    (0x09 <= u && u <= 0x0d) || u == 0x20 || u == 0x85 || u == 0xa0 || u == 0x1680 || (0x2000 <= u
        && u <= 0x200a) || u == 0x2028 || u == 0x2029 || u == 0x202f || u == 0x205f || u == 0x3000
}

/// The views of a sequence of owned strings.
pub open spec fn seq_views(ss: Seq<String>) -> Seq<Seq<char>> {
    ss.map_values(|s: String| s@)
}

pub open spec fn trim_start_spec(s: Seq<char>) -> Seq<char>
    decreases s.len(),
{
    if s.len() > 0 && is_ws_char(s[0]) {
        trim_start_spec(s.drop_first())
    } else {
        s
    }
}

pub open spec fn trim_end_spec(s: Seq<char>) -> Seq<char>
    decreases s.len(),
{
    if s.len() > 0 && is_ws_char(s.last()) {
        trim_end_spec(s.drop_last())
    } else {
        s
    }
}

/// What `str::trim` leaves: the input without leading and trailing
/// whitespace.
pub open spec fn trim_spec(s: Seq<char>) -> Seq<char> {
    trim_end_spec(trim_start_spec(s))
}

proof fn lemma_trim_start_is_skip(s: Seq<char>, i: int)
    requires
        0 <= i <= s.len(),
        forall|j: int| 0 <= j < i ==> is_ws_char(s[j]),
        i < s.len() ==> !is_ws_char(s[i]),
    ensures
        trim_start_spec(s) == s.skip(i),
    decreases i,
{
    if i == 0 {
        assert(s.skip(0) =~= s);
    } else {
        lemma_trim_start_is_skip(s.drop_first(), i - 1);
        assert(s.drop_first().skip(i - 1) =~= s.skip(i));
    }
}

proof fn lemma_trim_end_is_take(s: Seq<char>, k: int)
    requires
        0 <= k <= s.len(),
        forall|j: int| k <= j < s.len() ==> is_ws_char(s[j]),
        k > 0 ==> !is_ws_char(s[k - 1]),
    ensures
        trim_end_spec(s) == s.take(k),
    decreases s.len() - k,
{
    if k == s.len() {
        assert(s.take(k) =~= s);
    } else {
        lemma_trim_end_is_take(s.drop_last(), k);
        assert(s.drop_last().take(k) =~= s.take(k));
    }
}

/// Trimming whitespace from both ends, as `str::trim` does.
pub fn trim_str<'a>(s: &'a str) -> (r: &'a str)
    ensures
        r@ == trim_spec(s@),
{
    let n = s.unicode_len();
    let mut i: usize = 0;
    while i < n && is_ws(s.get_char(i))
        invariant
            n == s@.len(),
            0 <= i <= n,
            forall|j: int| 0 <= j < i ==> is_ws_char(s@[j]),
        decreases n - i,
    {
        i = i + 1;
    }
    proof {
        lemma_trim_start_is_skip(s@, i as int);
    }
    if i == n {
        proof {
            assert(s@.skip(i as int) =~= Seq::<char>::empty());
            reveal_strlit("");
            assert(""@ =~= Seq::<char>::empty());
        }
        ""
    } else {
        let mut k: usize = n;
        while k > i && is_ws(s.get_char(k - 1))
            invariant
                n == s@.len(),
                i < n,
                !is_ws_char(s@[i as int]),
                i < k <= n,
                forall|j: int| k <= j < n ==> is_ws_char(s@[j]),
            decreases k,
        {
            k = k - 1;
        }
        let r = s.substring_char(i, k);
        proof {
            lemma_trim_end_is_take(s@.skip(i as int), k - i);
            assert(s@.skip(i as int).take(k - i) =~= s@.subrange(i as int, k as int));
        }
        r
    }
}

/// The least index where `sep` occurs in `s`, or `-1` when it does not.
pub open spec fn find_char_spec(s: Seq<char>, sep: char) -> int
    decreases s.len(),
{
    if s.len() == 0 {
        -1
    } else if s[0] == sep {
        0
    } else {
        let r = find_char_spec(s.drop_first(), sep);
        if r < 0 {
            -1
        } else {
            r + 1
        }
    }
}

pub proof fn lemma_find_char_props(s: Seq<char>, sep: char)
    ensures
        find_char_spec(s, sep) == -1 ==> (forall|j: int| 0 <= j < s.len() ==> s[j] != sep),
        find_char_spec(s, sep) != -1 ==> {
            let i = find_char_spec(s, sep);
            &&& 0 <= i < s.len()
            &&& s[i] == sep
            &&& forall|j: int| 0 <= j < i ==> s[j] != sep
        },
    decreases s.len(),
{
    if s.len() == 0 {
    } else if s[0] == sep {
    } else {
        lemma_find_char_props(s.drop_first(), sep);
        assert(forall|j: int|
            0 <= j < s.drop_first().len() ==> s.drop_first()[j] == s[j + 1]);
        let r = find_char_spec(s.drop_first(), sep);
        if r >= 0 {
            assert(s.drop_first()[r] == sep);
            assert(forall|j: int| 1 <= j < r + 1 ==> s[j] == s.drop_first()[j - 1]);
        } else {
            assert(forall|j: int| 1 <= j < s.len() ==> s[j] == s.drop_first()[j - 1]);
        }
    }
}

pub proof fn lemma_find_char_at(s: Seq<char>, sep: char, i: int)
    requires
        0 <= i < s.len(),
        s[i] == sep,
        forall|j: int| 0 <= j < i ==> s[j] != sep,
    ensures
        find_char_spec(s, sep) == i,
    decreases i,
{
    if i > 0 {
        lemma_find_char_at(s.drop_first(), sep, i - 1);
    }
}

pub proof fn lemma_find_char_none(s: Seq<char>, sep: char)
    requires
        forall|j: int| 0 <= j < s.len() ==> s[j] != sep,
    ensures
        find_char_spec(s, sep) == -1,
    decreases s.len(),
{
    if s.len() > 0 {
        lemma_find_char_none(s.drop_first(), sep);
    }
}

/// What `str::split` on a one-character pattern yields: the (possibly
/// empty) stretches between occurrences of `sep`, in order.
pub open spec fn split_char_spec(s: Seq<char>, sep: char) -> Seq<Seq<char>>
    decreases s.len(),
    via split_char_spec_dec
{
    let i = find_char_spec(s, sep);
    if i < 0 {
        seq![s]
    } else {
        seq![s.take(i)] + split_char_spec(s.skip(i + 1), sep)
    }
}

#[via_fn]
proof fn split_char_spec_dec(s: Seq<char>, sep: char) {
    lemma_find_char_props(s, sep);
}

/// Splitting on a single character, as `str::split(sep)` does.
pub fn split_char(s: &str, sep: char) -> (r: Vec<String>)
    ensures
        seq_views(r@) == split_char_spec(s@, sep),
    decreases s@.len(),
{
    let n = s.unicode_len();
    let mut i: usize = 0;
    while i < n && s.get_char(i) != sep
        invariant
            n == s@.len(),
            0 <= i <= n,
            forall|j: int| 0 <= j < i ==> s@[j] != sep,
        decreases n - i,
    {
        i = i + 1;
    }
    if i == n {
        proof {
            lemma_find_char_none(s@, sep);
        }
        let mut v: Vec<String> = Vec::new();
        v.push(String::from_str(s));
        proof {
            assert(seq_views(v@) =~~= seq![s@]);
        }
        v
    } else {
        proof {
            lemma_find_char_at(s@, sep, i as int);
        }
        let first = s.substring_char(0, i);
        let rest = s.substring_char(i + 1, n);
        let mut v = split_char(rest, sep);
        v.insert(0, String::from_str(first));
        proof {
            assert(first@ =~= s@.take(i as int));
            assert(rest@ =~= s@.skip(i as int + 1));
            assert(seq_views(v@) =~~= seq![s@.take(i as int)] + split_char_spec(
                s@.skip(i as int + 1),
                sep,
            ));
        }
        v
    }
}

/// Character-for-character equality of two string slices.
pub fn str_eq(a: &str, b: &str) -> (r: bool)
    ensures
        r == (a@ == b@),
{
    let na = a.unicode_len();
    let nb = b.unicode_len();
    if na != nb {
        return false;
    }
    let mut i: usize = 0;
    while i < na
        invariant
            na == a@.len(),
            na == b@.len(),
            0 <= i <= na,
            forall|j: int| 0 <= j < i ==> a@[j] == b@[j],
        decreases na - i,
    {
        if a.get_char(i) != b.get_char(i) {
            return false;
        }
        i = i + 1;
    }
    proof {
        assert(a@ =~= b@);
    }
    true
}

/// Splitting cuts at the leftmost occurrence of the separator.
pub proof fn lemma_split_char_peel(s: Seq<char>, sep: char, i: int)
    requires
        0 <= i < s.len(),
        s[i] == sep,
        forall|j: int| 0 <= j < i ==> s[j] != sep,
    ensures
        split_char_spec(s, sep) == seq![s.take(i)] + split_char_spec(s.skip(i + 1), sep),
{
    lemma_find_char_at(s, sep, i);
}

/// Splitting text free of the separator yields just that text.
pub proof fn lemma_split_char_whole(s: Seq<char>, sep: char)
    requires
        forall|j: int| 0 <= j < s.len() ==> s[j] != sep,
    ensures
        split_char_spec(s, sep) == seq![s],
{
    lemma_find_char_none(s, sep);
}

proof fn lemma_trim_start_len(s: Seq<char>)
    ensures
        trim_start_spec(s).len() <= s.len(),
        trim_start_spec(s).len() == s.len() ==> trim_start_spec(s) == s,
    decreases s.len(),
{
    if s.len() > 0 && is_ws_char(s[0]) {
        lemma_trim_start_len(s.drop_first());
    }
}

proof fn lemma_trim_end_len(s: Seq<char>)
    ensures
        trim_end_spec(s).len() <= s.len(),
        trim_end_spec(s).len() == s.len() ==> trim_end_spec(s) == s,
    decreases s.len(),
{
    if s.len() > 0 && is_ws_char(s.last()) {
        lemma_trim_end_len(s.drop_last());
    }
}

/// Text without whitespace at either end is its own trimming.
pub proof fn lemma_trim_fix(s: Seq<char>)
    requires
        s.len() > 0,
        !is_ws_char(s[0]),
        !is_ws_char(s.last()),
    ensures
        trim_spec(s) == s,
{
    lemma_trim_start_is_skip(s, 0);
    assert(s.skip(0) =~= s);
    lemma_trim_end_is_take(s, s.len() as int);
    assert(s.take(s.len() as int) =~= s);
}

/// Conversely, text that is its own trimming has no whitespace at either
/// end.
pub proof fn lemma_trim_fix_ends(s: Seq<char>)
    requires
        trim_spec(s) == s,
        s.len() > 0,
    ensures
        !is_ws_char(s[0]),
        !is_ws_char(s.last()),
{
    lemma_trim_start_len(s);
    lemma_trim_end_len(trim_start_spec(s));
    if is_ws_char(s[0]) {
        lemma_trim_start_len(s.drop_first());
    }
    assert(trim_start_spec(s) == s);
    if is_ws_char(s.last()) {
        lemma_trim_end_len(s.drop_last());
    }
}

proof fn lemma_trim_end_first(s: Seq<char>)
    requires
        s.len() > 0,
        !is_ws_char(s[0]),
    ensures
        trim_end_spec(s).len() > 0,
        trim_end_spec(s)[0] == s[0],
    decreases s.len(),
{
    if s.len() > 0 && is_ws_char(s.last()) {
        lemma_trim_end_first(s.drop_last());
    }
}

/// Trimming text that opens with a non-whitespace character keeps that
/// character in front.
pub proof fn lemma_trim_first(s: Seq<char>)
    requires
        s.len() > 0,
        !is_ws_char(s[0]),
    ensures
        trim_spec(s).len() > 0,
        trim_spec(s)[0] == s[0],
{
    lemma_trim_start_is_skip(s, 0);
    assert(s.skip(0) =~= s);
    lemma_trim_end_first(s);
}

/// `pat` occurs in `s` starting at index `i`.
pub open spec fn match_at(s: Seq<char>, pat: Seq<char>, i: int) -> bool {
    0 <= i && i + pat.len() <= s.len() && s.subrange(i, i + pat.len()) == pat
}

/// The least index where `pat` occurs in `s`, or `-1` when it does not.
pub open spec fn find_sub_spec(s: Seq<char>, pat: Seq<char>) -> int
    decreases s.len(),
{
    if s.len() < pat.len() {
        -1
    } else if s.take(pat.len() as int) == pat {
        0
    } else if s.len() == 0 {
        -1
    } else {
        let r = find_sub_spec(s.drop_first(), pat);
        if r < 0 {
            -1
        } else {
            r + 1
        }
    }
}

pub proof fn lemma_find_sub_props(s: Seq<char>, pat: Seq<char>)
    ensures
        find_sub_spec(s, pat) == -1 ==> (forall|j: int| !match_at(s, pat, j)),
        find_sub_spec(s, pat) != -1 ==> {
            let i = find_sub_spec(s, pat);
            &&& 0 <= i
            &&& i + pat.len() <= s.len()
            &&& match_at(s, pat, i)
            &&& forall|j: int| 0 <= j < i ==> !match_at(s, pat, j)
        },
    decreases s.len(),
{
    if s.len() < pat.len() {
        assert(forall|j: int| j + pat.len() > s.len() || j < 0 ==> !match_at(s, pat, j));
    } else if s.take(pat.len() as int) == pat {
        assert(s.subrange(0, pat.len() as int) == s.take(pat.len() as int));
        assert(match_at(s, pat, 0));
    } else if s.len() == 0 {
        assert(pat.len() == 0);
        assert(s.take(0) =~= pat);
    } else {
        lemma_find_sub_props(s.drop_first(), pat);
        assert(!match_at(s, pat, 0)) by {
            if match_at(s, pat, 0) {
                assert(s.subrange(0, pat.len() as int) == pat);
                assert(s.take(pat.len() as int) == s.subrange(0, pat.len() as int));
            }
        }
        assert forall|j: int| 1 <= j && j + pat.len() <= s.len() implies (match_at(s, pat, j)
            <==> match_at(s.drop_first(), pat, j - 1)) by {
            assert(s.subrange(j, j + pat.len() as int) =~= s.drop_first().subrange(
                j - 1,
                j - 1 + pat.len() as int,
            ));
        }
        let r = find_sub_spec(s.drop_first(), pat);
        if r >= 0 {
            assert(match_at(s.drop_first(), pat, r));
            assert(match_at(s, pat, r + 1));
        }
    }
}

/// `pat` occurs somewhere in `s`, as `str::contains` reports.
pub open spec fn contains_sub_spec(s: Seq<char>, pat: Seq<char>) -> bool {
    find_sub_spec(s, pat) >= 0
}

/// What `str::split` on a multi-character pattern yields, splitting at each
/// leftmost occurrence in turn. Degenerates to the whole input when `pat`
/// is empty.
pub open spec fn split_sub_spec(s: Seq<char>, pat: Seq<char>) -> Seq<Seq<char>>
    decreases s.len(),
    via split_sub_spec_dec
{
    if pat.len() == 0 {
        seq![s]
    } else {
        let i = find_sub_spec(s, pat);
        if i < 0 {
            seq![s]
        } else {
            seq![s.take(i)] + split_sub_spec(s.skip(i + pat.len()), pat)
        }
    }
}

#[via_fn]
proof fn split_sub_spec_dec(s: Seq<char>, pat: Seq<char>) {
    lemma_find_sub_props(s, pat);
}

/// Whether `pat` occurs in `s` starting at position `i`.
fn match_at_exec(s: &str, pat: &str, i: usize) -> (r: bool)
    requires
        i + pat@.len() <= s@.len(),
    ensures
        r == match_at(s@, pat@, i as int),
{
    let n = s.unicode_len();
    let m = pat.unicode_len();
    let mut j: usize = 0;
    while j < m
        invariant
            n == s@.len(),
            m == pat@.len(),
            i + m <= n,
            0 <= j <= m,
            forall|k: int| 0 <= k < j ==> s@[i + k] == pat@[k],
        decreases m - j,
    {
        if s.get_char(i + j) != pat.get_char(j) {
            proof {
                assert(s@.subrange(i as int, i + m) != pat@) by {
                    if s@.subrange(i as int, i + m) == pat@ {
                        assert(s@.subrange(i as int, i + m)[j as int] == s@[i + j]);
                    }
                }
            }
            return false;
        }
        j = j + 1;
    }
    proof {
        assert(s@.subrange(i as int, i + m) =~= pat@);
    }
    true
}

/// The least start index of `pat` inside `s`, searching left to right.
pub fn find_sub(s: &str, pat: &str) -> (r: Option<usize>)
    ensures
        match r {
            Some(i) => find_sub_spec(s@, pat@) == i as int,
            None => find_sub_spec(s@, pat@) == -1,
        },
{
    let n = s.unicode_len();
    let m = pat.unicode_len();
    if m > n {
        proof {
            lemma_find_sub_props(s@, pat@);
        }
        return None;
    }
    if m == 0 {
        proof {
            assert(s@.take(0) =~= pat@);
        }
        return Some(0);
    }
    let mut i: usize = 0;
    while i <= n - m
        invariant
            n == s@.len(),
            m == pat@.len(),
            1 <= m <= n,
            0 <= i <= n - m + 1,
            forall|j: int| 0 <= j < i ==> !match_at(s@, pat@, j),
        decreases n - i,
    {
        if match_at_exec(s, pat, i) {
            proof {
                lemma_find_sub_props(s@, pat@);
            }
            return Some(i);
        }
        i = i + 1;
    }
    proof {
        assert(forall|j: int| !match_at(s@, pat@, j) || 0 <= j <= n - m);
        lemma_find_sub_props(s@, pat@);
    }
    None
}

/// Substring containment, as `str::contains` reports it.
pub fn contains_sub(s: &str, pat: &str) -> (r: bool)
    ensures
        r == contains_sub_spec(s@, pat@),
{
    match find_sub(s, pat) {
        Some(_) => true,
        None => false,
    }
}

/// Splitting on a multi-character separator, as `str::split(pat)` does.
pub fn split_sub(s: &str, pat: &str) -> (r: Vec<String>)
    requires
        pat@.len() > 0,
    ensures
        seq_views(r@) == split_sub_spec(s@, pat@),
    decreases s@.len(),
{
    let n = s.unicode_len();
    let m = pat.unicode_len();
    match find_sub(s, pat) {
        None => {
            let mut v: Vec<String> = Vec::new();
            v.push(String::from_str(s));
            proof {
                assert(seq_views(v@) =~~= seq![s@]);
            }
            v
        },
        Some(i) => {
            proof {
                lemma_find_sub_props(s@, pat@);
            }
            let first = s.substring_char(0, i);
            let rest = s.substring_char(i + m, n);
            let mut v = split_sub(rest, pat);
            v.insert(0, String::from_str(first));
            proof {
                assert(first@ =~= s@.take(i as int));
                assert(rest@ =~= s@.skip(i + pat@.len()));
                assert(seq_views(v@) =~~= seq![s@.take(i as int)] + split_sub_spec(
                    s@.skip(i + pat@.len()),
                    pat@,
                ));
            }
            v
        },
    }
}

/// The least index in `s` holding a whitespace character, or `s.len()`
/// when none does.
pub open spec fn find_ws_spec(s: Seq<char>) -> int
    decreases s.len(),
{
    if s.len() == 0 {
        0
    } else if is_ws_char(s[0]) {
        0
    } else {
        1 + find_ws_spec(s.drop_first())
    }
}

pub proof fn lemma_find_ws_props(s: Seq<char>)
    ensures
        0 <= find_ws_spec(s) <= s.len(),
        forall|j: int| 0 <= j < find_ws_spec(s) ==> !is_ws_char(s[j]),
        find_ws_spec(s) < s.len() ==> is_ws_char(s[find_ws_spec(s)]),
    decreases s.len(),
{
    if s.len() > 0 && !is_ws_char(s[0]) {
        lemma_find_ws_props(s.drop_first());
        assert(forall|j: int|
            0 <= j < s.drop_first().len() ==> s.drop_first()[j] == s[j + 1]);
        assert forall|j: int| 0 <= j < find_ws_spec(s) implies !is_ws_char(s[j]) by {
            if j > 0 {
                assert(s[j] == s.drop_first()[j - 1]);
            }
        }
    }
}

pub proof fn lemma_find_ws_at(s: Seq<char>, i: int)
    requires
        0 <= i <= s.len(),
        forall|j: int| 0 <= j < i ==> !is_ws_char(s[j]),
        i < s.len() ==> is_ws_char(s[i]),
    ensures
        find_ws_spec(s) == i,
    decreases i,
{
    if i > 0 {
        lemma_find_ws_at(s.drop_first(), i - 1);
    }
}

/// What `str::split_whitespace` yields: the maximal runs of
/// non-whitespace characters, in order.
pub open spec fn ws_tokens_spec(s: Seq<char>) -> Seq<Seq<char>>
    decreases s.len(),
    via ws_tokens_spec_dec
{
    if s.len() == 0 {
        Seq::empty()
    } else if is_ws_char(s[0]) {
        ws_tokens_spec(s.drop_first())
    } else {
        let i = find_ws_spec(s);
        seq![s.take(i)] + ws_tokens_spec(s.skip(i))
    }
}

#[via_fn]
proof fn ws_tokens_spec_dec(s: Seq<char>) {
    if s.len() > 0 && !is_ws_char(s[0]) {
        lemma_find_ws_props(s);
        assert(find_ws_spec(s) >= 1);
    }
}

/// Whitespace-separated tokens, as `str::split_whitespace` returns them.
pub fn ws_tokens(s: &str) -> (r: Vec<String>)
    ensures
        seq_views(r@) == ws_tokens_spec(s@),
    decreases s@.len(),
{
    let n = s.unicode_len();
    if n == 0 {
        let v: Vec<String> = Vec::new();
        proof {
            assert(seq_views(v@) =~~= ws_tokens_spec(s@));
        }
        return v;
    }
    if is_ws(s.get_char(0)) {
        let rest = s.substring_char(1, n);
        let v = ws_tokens(rest);
        proof {
            assert(rest@ =~= s@.drop_first());
        }
        return v;
    }
    let mut i: usize = 1;
    while i < n && !is_ws(s.get_char(i))
        invariant
            n == s@.len(),
            1 <= i <= n,
            forall|j: int| 0 <= j < i ==> !is_ws_char(s@[j]),
        decreases n - i,
    {
        i = i + 1;
    }
    proof {
        lemma_find_ws_at(s@, i as int);
    }
    let first = s.substring_char(0, i);
    let rest = s.substring_char(i, n);
    let mut v = ws_tokens(rest);
    v.insert(0, String::from_str(first));
    proof {
        assert(first@ =~= s@.take(i as int));
        assert(rest@ =~= s@.skip(i as int));
        assert(seq_views(v@) =~~= seq![s@.take(i as int)] + ws_tokens_spec(s@.skip(i as int)));
    }
    v
}

/// The input without any trailing copies of `c`, as
/// `str::trim_end_matches(c)` leaves it.
pub open spec fn strip_trailing_spec(s: Seq<char>, c: char) -> Seq<char>
    decreases s.len(),
{
    if s.len() > 0 && s.last() == c {
        strip_trailing_spec(s.drop_last(), c)
    } else {
        s
    }
}

/// Removes every trailing copy of `c`, as `str::trim_end_matches(c)` does.
pub fn strip_trailing<'a>(s: &'a str, c: char) -> (r: &'a str)
    ensures
        r@ == strip_trailing_spec(s@, c),
{
    let n = s.unicode_len();
    let mut k: usize = n;
    while k > 0 && s.get_char(k - 1) == c
        invariant
            n == s@.len(),
            0 <= k <= n,
            forall|j: int| k <= j < n ==> s@[j] == c,
        decreases k,
    {
        k = k - 1;
    }
    let r = s.substring_char(0, k);
    proof {
        lemma_strip_trailing_is_take(s@, c, k as int);
        assert(r@ =~= s@.take(k as int));
    }
    r
}

proof fn lemma_strip_trailing_is_take(s: Seq<char>, c: char, k: int)
    requires
        0 <= k <= s.len(),
        forall|j: int| k <= j < s.len() ==> s[j] == c,
        k > 0 ==> s[k - 1] != c,
    ensures
        strip_trailing_spec(s, c) == s.take(k),
    decreases s.len() - k,
{
    if k == s.len() {
        assert(s.take(k) =~= s);
    } else {
        lemma_strip_trailing_is_take(s.drop_last(), c, k);
        assert(s.drop_last().take(k) =~= s.take(k));
    }
}

/// The decimal digit character for `d`.
pub open spec fn digit_char(d: nat) -> char {
    if d == 0 {
        '0'
    } else if d == 1 {
        '1'
    } else if d == 2 {
        '2'
    } else if d == 3 {
        '3'
    } else if d == 4 {
        '4'
    } else if d == 5 {
        '5'
    } else if d == 6 {
        '6'
    } else if d == 7 {
        '7'
    } else if d == 8 {
        '8'
    } else {
        '9'
    }
}

/// The usual decimal rendering of `n`, most significant digit first and
/// without leading zeros (except for `n == 0` itself).
pub open spec fn dec_spec(n: nat) -> Seq<char>
    decreases n,
{
    if n < 10 {
        seq![digit_char(n)]
    } else {
        dec_spec(n / 10).push(digit_char(n % 10))
    }
}

fn digit_str(d: u64) -> (r: &'static str)
    requires
        d < 10,
    ensures
        r@ == seq![digit_char(d as nat)],
{
    proof {
        reveal_strlit("0");
        reveal_strlit("1");
        reveal_strlit("2");
        reveal_strlit("3");
        reveal_strlit("4");
        reveal_strlit("5");
        reveal_strlit("6");
        reveal_strlit("7");
        reveal_strlit("8");
        reveal_strlit("9");
    }
    let r = if d == 0 {
        "0"
    } else if d == 1 {
        "1"
    } else if d == 2 {
        "2"
    } else if d == 3 {
        "3"
    } else if d == 4 {
        "4"
    } else if d == 5 {
        "5"
    } else if d == 6 {
        "6"
    } else if d == 7 {
        "7"
    } else if d == 8 {
        "8"
    } else {
        "9"
    };
    proof {
        assert(r@ =~= seq![digit_char(d as nat)]);
    }
    r
}

/// Renders `n` in decimal, as the display formatting of an unsigned
/// integer does.
pub fn u64_to_string(n: u64) -> (r: String)
    ensures
        r@ == dec_spec(n as nat),
    decreases n,
{
    if n < 10 {
        String::from_str(digit_str(n))
    } else {
        let mut s = u64_to_string(n / 10);
        s.append(digit_str(n % 10));
        proof {
            assert(dec_spec((n / 10) as nat) + seq![digit_char((n % 10) as nat)] =~= dec_spec(
                (n / 10) as nat,
            ).push(digit_char((n % 10) as nat)));
        }
        s
    }
}

} // verus!
