//! The free-text argument mini-parser: recovers a (grid size, time period,
//! entry type, clean flag) tuple from an unordered, abbreviation-tolerant
//! phrase such as "clean 4 alltime" or "3 1m artist".
//!
//! The scan is greedy and first-match-wins: each token is offered, in
//! order, to whichever of the entry-type, size and period checks is still
//! unclaimed, and unrecognized tokens are ignored silently.

use vstd::prelude::*;
use crate::model::EntryType;
use crate::model::TimePeriod;
use crate::text::chars_contains_str;
use crate::text::chars_eq_str;
use crate::text::chars_parse_u64;
use crate::text::chars_starts_with;
use crate::text::contains_char;
use crate::text::contains_seq;
use crate::text::digit_val;
use crate::text::find_char;
use crate::text::find_first_char;
use crate::text::is_digit_char;
use crate::text::lemma_find_char;
use crate::text::spec_parse_u64;
use crate::text::starts_with_seq;
use crate::text::str_chars;
use crate::text::vec_subrange;
use vstd::string::StringExecFns;
use crate::text::digit_char;
use crate::text::all_digits;
use crate::text::dec_val;

verus! {

/// The running state of the single-pass token scan: current values and
/// which of the three slots have been claimed.
#[derive(Clone, Copy, Debug, PartialEq, Eq, Structural)]
pub struct ScanState {
    pub size: u32,
    pub period: TimePeriod,
    pub entry_type: EntryType,
    pub size_found: bool,
    pub period_found: bool,
    pub entry_type_found: bool,
}

/// The defaults before any token is classified: a 3x3 grid of albums over
/// all time.
pub open spec fn initial_scan_state() -> ScanState {
    ScanState {
        size: 3,
        period: TimePeriod::AllTime,
        entry_type: EntryType::Album,
        size_found: false,
        period_found: false,
        entry_type_found: false,
    }
}

/// `str::splitn(n, ' ')`: at most `n` pieces, the last one holding the
/// unsplit remainder.
pub open spec fn splitn_spaces(s: Seq<char>, n: nat) -> Seq<Seq<char>>
    decreases n,
{
    if n <= 1 {
        seq![s]
    } else {
        match find_char(s, ' ') {
            None => seq![s],
            Some(i) => seq![s.subrange(0, i)] + splitn_spaces(
                s.subrange(i + 1, s.len() as int),
                (n - 1) as nat,
            ),
        }
    }
}

pub open spec fn is_flag_token(t: Seq<char>) -> bool {
    t == "notext"@ || t == "nonames"@ || t == "clean"@
}

/// Any token being one of the flag words sets the clean flag, independent
/// of position.
pub open spec fn has_flag_token(tokens: Seq<Seq<char>>) -> bool {
    exists|i: int| 0 <= i < tokens.len() && is_flag_token(tokens[i])
}

/// An entry-type token is matched by prefix: "artist…", "album…", "track…".
pub open spec fn entry_of_token(t: Seq<char>) -> Option<EntryType> {
    if starts_with_seq(t, "artist"@) {
        Some(EntryType::Artist)
    } else if starts_with_seq(t, "album"@) {
        Some(EntryType::Album)
    } else if starts_with_seq(t, "track"@) {
        Some(EntryType::Track)
    } else {
        None
    }
}

/// Size and period classification look only at the first four characters
/// of a token.
pub open spec fn fragment_of(t: Seq<char>) -> Seq<char> {
    t.subrange(0, if t.len() < 4 { t.len() as int } else { 4 })
}

/// What `str::parse::<u32>` accepts.
pub open spec fn spec_parse_u32(s: Seq<char>) -> Option<u32> {
    match spec_parse_u64(s) {
        None => None,
        Some(v) => if v <= u32::MAX {
            Some(v as u32)
        } else {
            None
        },
    }
}

/// A size token: the fragment up to an optional 'x' (for "NxN" notation),
/// read as an integer in [1, 7].
pub open spec fn size_of_token(t: Seq<char>) -> Option<u32> {
    let frag = fragment_of(t);
    let first = match find_char(frag, 'x') {
        None => frag,
        Some(i) => frag.subrange(0, i),
    };
    match spec_parse_u32(first) {
        None => None,
        Some(v) => if 0 < v && v <= 7 {
            Some(v)
        } else {
            None
        },
    }
}

/// The period check: a token with a leading digit is matched on the digit
/// combined with the letters of its fragment (7d, 1w, 1m, 3m, 6m, 1y); one
/// without is matched on bare keyword letters (week, month, year, all-ish).
/// Later matches in the same token overwrite earlier ones, as the checks
/// run in sequence.
pub open spec fn period_scan(st: ScanState, t: Seq<char>) -> ScanState {
    let frag = fragment_of(t);
    let is_day = contains_char(frag, 'd');
    let is_week = contains_char(frag, 'w');
    let is_month = contains_char(frag, 'm');
    let is_year = contains_char(frag, 'y');
    let is_all = contains_char(frag, 'o') || contains_seq(frag, "all"@);
    if t.len() > 0 && is_digit_char(t[0]) {
        let fd = digit_val(t[0]);
        let st1 = if (is_day && fd == 7) || (is_week && fd == 1) {
            ScanState { period: TimePeriod::OneWeek, period_found: true, ..st }
        } else {
            st
        };
        let st2 = if (is_month && fd == 1) || fd == 3 || fd == 6 {
            ScanState {
                period: if fd == 1 {
                    TimePeriod::OneMonth
                } else if fd == 3 {
                    TimePeriod::ThreeMonths
                } else if fd == 6 {
                    TimePeriod::SixMonths
                } else {
                    st1.period
                },
                period_found: true,
                ..st1
            }
        } else {
            st1
        };
        if is_year && fd == 1 {
            ScanState { period: TimePeriod::OneYear, period_found: true, ..st2 }
        } else {
            st2
        }
    } else {
        if is_week || is_month || is_year || is_all {
            ScanState {
                period: if is_week {
                    TimePeriod::OneWeek
                } else if is_month {
                    TimePeriod::OneMonth
                } else if is_year {
                    TimePeriod::OneYear
                } else {
                    TimePeriod::AllTime
                },
                period_found: true,
                ..st
            }
        } else {
            st
        }
    }
}

/// One token offered to the unclaimed checks, in the fixed order:
/// entry type, then size, then period; a claim consumes the token.
pub open spec fn scan_token(st: ScanState, t: Seq<char>) -> ScanState {
    if !st.entry_type_found && entry_of_token(t) is Some {
        ScanState { entry_type: entry_of_token(t)->0, entry_type_found: true, ..st }
    } else {
        let st_s = if !st.size_found {
            match size_of_token(t) {
                Some(v) => ScanState { size: v, size_found: true, ..st },
                None => st,
            }
        } else {
            st
        };
        if !st.size_found && st_s.size_found {
            st_s
        } else if !st_s.period_found {
            period_scan(st_s, t)
        } else {
            st_s
        }
    }
}

pub open spec fn scan_tokens(st: ScanState, tokens: Seq<Seq<char>>) -> ScanState
    decreases tokens.len(),
{
    if tokens.len() == 0 {
        st
    } else {
        scan_tokens(scan_token(st, tokens[0]), tokens.drop_first())
    }
}

/// What `parse_collage_arg` returns for a whole phrase.
pub open spec fn spec_parse_collage_arg(s: Seq<char>) -> (u32, TimePeriod, EntryType, bool) {
    let tokens = splitn_spaces(s, 4);
    let st = scan_tokens(initial_scan_state(), tokens);
    (st.size, st.period, st.entry_type, has_flag_token(tokens))
}

fn splitn_spaces_exec(cs: Vec<char>, n: usize) -> (r: Vec<Vec<char>>)
    requires
        1 <= n,
    ensures
        r.deep_view() == splitn_spaces(cs@, n as nat),
    decreases n,
{
    let ghost spec_r = splitn_spaces(cs@, n as nat);
    if n == 1 {
        let mut r: Vec<Vec<char>> = Vec::new();
        r.push(cs);
        assert(r.deep_view() =~~= spec_r);
        return r;
    }
    match find_first_char(&cs, ' ') {
        None => {
            let mut r: Vec<Vec<char>> = Vec::new();
            r.push(cs);
            assert(r.deep_view() =~~= spec_r);
            r
        },
        Some(i) => {
            proof {
                lemma_find_char(cs@, ' ');
            }
            let head = vec_subrange(&cs, 0, i);
            let tail = vec_subrange(&cs, i + 1, cs.len());
            let mut rest = splitn_spaces_exec(tail, n - 1);
            let mut r: Vec<Vec<char>> = Vec::new();
            r.push(head);
            r.append(&mut rest);
            assert(r.deep_view() =~~= spec_r);
            r
        },
    }
}

fn has_flag_exec(tokens: &Vec<Vec<char>>) -> (r: bool)
    ensures
        r == has_flag_token(tokens.deep_view()),
{
    let mut i: usize = 0;
    while i < tokens.len()
        invariant
            i <= tokens@.len(),
            forall|k: int| 0 <= k < i ==> !is_flag_token(tokens.deep_view()[k]),
        decreases tokens@.len() - i,
    {
        let t = &tokens[i];
        if chars_eq_str(t, "notext") || chars_eq_str(t, "nonames") || chars_eq_str(t, "clean") {
            assert(tokens.deep_view()[i as int] =~= t@);
            assert(is_flag_token(tokens.deep_view()[i as int]));
            return true;
        }
        assert(tokens.deep_view()[i as int] =~= t@);
        i = i + 1;
    }
    false
}

fn scan_token_exec(st: ScanState, t: &Vec<char>) -> (r: ScanState)
    ensures
        r == scan_token(st, t@),
{
    if !st.entry_type_found {
        if chars_starts_with(t, "artist") {
            return ScanState { entry_type: EntryType::Artist, entry_type_found: true, ..st };
        } else if chars_starts_with(t, "album") {
            return ScanState { entry_type: EntryType::Album, entry_type_found: true, ..st };
        } else if chars_starts_with(t, "track") {
            return ScanState { entry_type: EntryType::Track, entry_type_found: true, ..st };
        }
    }
    let frag_to: usize = if t.len() < 4 {
        t.len()
    } else {
        4
    };
    let frag = vec_subrange(t, 0, frag_to);
    assert(frag@ == fragment_of(t@));
    let mut st_now = st;
    if !st.size_found {
        let first = match find_first_char(&frag, 'x') {
            None => vec_subrange(&frag, 0, frag.len()),
            Some(i) => {
                proof {
                    lemma_find_char(frag@, 'x');
                }
                vec_subrange(&frag, 0, i)
            },
        };
        proof {
            assert(frag@.subrange(0, frag@.len() as int) =~= frag@);
        }
        let parsed = chars_parse_u64(&first);
        match parsed {
            Some(v) => {
                if 0 < v && v <= 7 {
                    let r = ScanState { size: v as u32, size_found: true, ..st };
                    assert(size_of_token(t@) == Some(v as u32));
                    return r;
                }
                assert(size_of_token(t@) is None);
            },
            None => {
                assert(size_of_token(t@) is None);
            },
        }
    }
    if !st_now.period_found {
        let is_day = find_first_char(&frag, 'd').is_some();
        let is_week = find_first_char(&frag, 'w').is_some();
        let is_month = find_first_char(&frag, 'm').is_some();
        let is_year = find_first_char(&frag, 'y').is_some();
        let is_all = find_first_char(&frag, 'o').is_some() || chars_contains_str(&frag, "all");
        proof {
            lemma_find_char(frag@, 'd');
            lemma_find_char(frag@, 'w');
            lemma_find_char(frag@, 'm');
            lemma_find_char(frag@, 'y');
            lemma_find_char(frag@, 'o');
        }
        if t.len() > 0 && crate::text::is_digit_exec(t[0]) {
            let fd: u32 = t[0] as u32 - '0' as u32;
            if (is_day && fd == 7) || (is_week && fd == 1) {
                st_now = ScanState { period: TimePeriod::OneWeek, period_found: true, ..st_now };
            }
            if (is_month && fd == 1) || fd == 3 || fd == 6 {
                let p = if fd == 1 {
                    TimePeriod::OneMonth
                } else if fd == 3 {
                    TimePeriod::ThreeMonths
                } else if fd == 6 {
                    TimePeriod::SixMonths
                } else {
                    st_now.period
                };
                st_now = ScanState { period: p, period_found: true, ..st_now };
            }
            if is_year && fd == 1 {
                st_now = ScanState { period: TimePeriod::OneYear, period_found: true, ..st_now };
            }
        } else {
            if is_week || is_month || is_year || is_all {
                let p = if is_week {
                    TimePeriod::OneWeek
                } else if is_month {
                    TimePeriod::OneMonth
                } else if is_year {
                    TimePeriod::OneYear
                } else {
                    TimePeriod::AllTime
                };
                st_now = ScanState { period: p, period_found: true, ..st_now };
            }
        }
    }
    st_now
}

proof fn lemma_scan_tokens_snoc(st: ScanState, tokens: Seq<Seq<char>>, i: int)
    requires
        0 <= i < tokens.len(),
    ensures
        scan_tokens(st, tokens.subrange(0, i + 1)) == scan_token(
            scan_tokens(st, tokens.subrange(0, i)),
            tokens[i],
        ),
    decreases i,
{
    let pre = tokens.subrange(0, i);
    let post = tokens.subrange(0, i + 1);
    if i == 0 {
        assert(post.len() == 1);
        assert(post[0] == tokens[0]);
        assert(post.drop_first() =~= pre);
        assert(scan_tokens(st, post) == scan_tokens(scan_token(st, tokens[0]), pre));
    } else {
        assert(post[0] == tokens[0]);
        assert(pre[0] == tokens[0]);
        let st1 = scan_token(st, tokens[0]);
        assert(post.drop_first() =~= tokens.drop_first().subrange(0, i));
        assert(pre.drop_first() =~= tokens.drop_first().subrange(0, i - 1));
        lemma_scan_tokens_snoc(st1, tokens.drop_first(), i - 1);
        assert(tokens.drop_first()[i - 1] == tokens[i]);
    }
}

/// Parses a collage argument phrase: at most four whitespace-separated
/// tokens, scanned once; defaults are size 3, all time, albums, text on.
pub fn parse_collage_arg(arg: &str) -> (r: (u32, TimePeriod, EntryType, bool))
    ensures
        r == spec_parse_collage_arg(arg@),
{
    let cs = str_chars(arg);
    let tokens = splitn_spaces_exec(cs, 4);
    let no_text = has_flag_exec(&tokens);
    let ghost toks = tokens.deep_view();
    let mut st = ScanState {
        size: 3,
        period: TimePeriod::AllTime,
        entry_type: EntryType::Album,
        size_found: false,
        period_found: false,
        entry_type_found: false,
    };
    assert(st == initial_scan_state());
    let mut i: usize = 0;
    while i < tokens.len()
        invariant
            i <= tokens@.len(),
            toks == tokens.deep_view(),
            st == scan_tokens(initial_scan_state(), toks.subrange(0, i as int)),
        decreases tokens@.len() - i,
    {
        assert(toks.subrange(0, 0) =~= Seq::<Seq<char>>::empty());
        st = scan_token_exec(st, &tokens[i]);
        proof {
            lemma_scan_tokens_snoc(initial_scan_state(), toks, i as int);
            assert(toks[i as int] =~= tokens@[i as int]@);
        }
        i = i + 1;
    }
    proof {
        assert(toks.subrange(0, toks.len() as int) =~= toks);
    }
    (st.size, st.period, st.entry_type, no_text)
}


/// The canonical token for an entry type.
pub open spec fn spec_entry_token(e: EntryType) -> Seq<char> {
    match e {
        EntryType::Artist => "artist"@,
        EntryType::Album => "album"@,
        EntryType::Track => "track"@,
    }
}

/// The canonical token for a period.
pub open spec fn spec_period_token(p: TimePeriod) -> Seq<char> {
    match p {
        TimePeriod::OneWeek => "1w"@,
        TimePeriod::OneMonth => "1m"@,
        TimePeriod::ThreeMonths => "3m"@,
        TimePeriod::SixMonths => "6m"@,
        TimePeriod::OneYear => "1y"@,
        TimePeriod::AllTime => "all"@,
    }
}

/// The canonical phrase for a parsed tuple: entry type, size, period, and
/// the clean flag last, space separated.
pub open spec fn spec_render_collage_arg(
    size: u32,
    period: TimePeriod,
    entry_type: EntryType,
    clean: bool,
) -> Seq<char> {
    spec_entry_token(entry_type) + seq![' '] + seq![digit_char(size as nat)] + seq![' ']
        + spec_period_token(period) + if clean {
        seq![' '] + "clean"@
    } else {
        Seq::<char>::empty()
    }
}

/// Renders a parsed tuple back into a canonical phrase that the parser
/// maps to the same tuple.
pub fn render_collage_arg(
    size: u32,
    period: &TimePeriod,
    entry_type: &EntryType,
    clean: bool,
) -> (r: String)
    requires
        1 <= size <= 7,
    ensures
        r@ == spec_render_collage_arg(size, *period, *entry_type, clean),
{
    let mut r = String::from_str(match entry_type {
        EntryType::Artist => "artist",
        EntryType::Album => "album",
        EntryType::Track => "track",
    });
    crate::text::string_push(&mut r, ' ');
    crate::text::string_push(&mut r, crate::text::digit_char_exec(size as u64));
    crate::text::string_push(&mut r, ' ');
    r = r.concat(match period {
        TimePeriod::OneWeek => "1w",
        TimePeriod::OneMonth => "1m",
        TimePeriod::ThreeMonths => "3m",
        TimePeriod::SixMonths => "6m",
        TimePeriod::OneYear => "1y",
        TimePeriod::AllTime => "all",
    });
    if clean {
        crate::text::string_push(&mut r, ' ');
        r = r.concat("clean");
    }
    assert(r@ =~= spec_render_collage_arg(size, *period, *entry_type, clean));
    r
}

proof fn lemma_find_char_at(s: Seq<char>, c: char, i: int)
    requires
        0 <= i < s.len(),
        s[i] == c,
        forall|k: int| 0 <= k < i ==> s[k] != c,
    ensures
        find_char(s, c) == Some(i),
{
    lemma_find_char(s, c);
    match find_char(s, c) {
        None => {
            assert(contains_char(s, c));
        },
        Some(j) => {
            if j < i {
                assert(s[j] != c);
            }
            if j > i {
                assert(s[i] != c);
            }
        },
    }
}

proof fn lemma_find_char_none(s: Seq<char>, c: char)
    requires
        forall|k: int| 0 <= k < s.len() ==> s[k] != c,
    ensures
        find_char(s, c) is None,
{
    lemma_find_char(s, c);
    if find_char(s, c) is Some {
        let j = find_char(s, c)->0;
        assert(s[j] != c);
    }
}

proof fn lemma_splitn_step(t: Seq<char>, rest: Seq<char>, n: nat)
    requires
        n >= 2,
        forall|k: int| 0 <= k < t.len() ==> t[k] != ' ',
    ensures
        splitn_spaces(t + seq![' '] + rest, n) == seq![t] + splitn_spaces(rest, (n - 1) as nat),
{
    let s = t + seq![' '] + rest;
    assert(s[t.len() as int] == ' ');
    assert forall|k: int| 0 <= k < t.len() implies s[k] != ' ' by {
        assert(s[k] == t[k]);
    }
    lemma_find_char_at(s, ' ', t.len() as int);
    assert(s.subrange(0, t.len() as int) =~= t);
    assert(s.subrange(t.len() as int + 1, s.len() as int) =~= rest);
}

proof fn lemma_splitn_last(t: Seq<char>, n: nat)
    requires
        n >= 1,
        forall|k: int| 0 <= k < t.len() ==> t[k] != ' ',
    ensures
        splitn_spaces(t, n) == seq![t],
{
    if n >= 2 {
        lemma_find_char_none(t, ' ');
    }
}

proof fn lemma_entry_token_chars(e: EntryType)
    ensures
        forall|k: int| 0 <= k < spec_entry_token(e).len() ==> spec_entry_token(e)[k] != ' ',
        spec_entry_token(e)[0] != ' ',
        5 <= spec_entry_token(e).len() <= 6,
{
    reveal_strlit("artist");
    reveal_strlit("album");
    reveal_strlit("track");
    match e {
        EntryType::Artist => {
            assert(spec_entry_token(e) == "artist"@);
            assert forall|k: int| 0 <= k < spec_entry_token(e).len() implies spec_entry_token(e)[k]
                != ' ' by {
                let t = "artist"@;
                assert(t[0] == 'a' && t[1] == 'r' && t[2] == 't' && t[3] == 'i' && t[4] == 's'
                    && t[5] == 't');
            }
        },
        EntryType::Album => {
            assert forall|k: int| 0 <= k < spec_entry_token(e).len() implies spec_entry_token(e)[k]
                != ' ' by {
                let t = "album"@;
                assert(t[0] == 'a' && t[1] == 'l' && t[2] == 'b' && t[3] == 'u' && t[4] == 'm');
            }
        },
        EntryType::Track => {
            assert forall|k: int| 0 <= k < spec_entry_token(e).len() implies spec_entry_token(e)[k]
                != ' ' by {
                let t = "track"@;
                assert(t[0] == 't' && t[1] == 'r' && t[2] == 'a' && t[3] == 'c' && t[4] == 'k');
            }
        },
    }
}

proof fn lemma_period_token_chars(p: TimePeriod)
    ensures
        forall|k: int| 0 <= k < spec_period_token(p).len() ==> spec_period_token(p)[k] != ' ',
        2 <= spec_period_token(p).len() <= 3,
{
    reveal_strlit("1w");
    reveal_strlit("1m");
    reveal_strlit("3m");
    reveal_strlit("6m");
    reveal_strlit("1y");
    reveal_strlit("all");
    match p {
        TimePeriod::OneWeek => {
            assert forall|k: int| 0 <= k < spec_period_token(p).len() implies spec_period_token(p)[k]
                != ' ' by {
                let t = "1w"@;
                assert(t[0] == '1' && t[1] == 'w');
            }
        },
        TimePeriod::OneMonth => {
            assert forall|k: int| 0 <= k < spec_period_token(p).len() implies spec_period_token(p)[k]
                != ' ' by {
                let t = "1m"@;
                assert(t[0] == '1' && t[1] == 'm');
            }
        },
        TimePeriod::ThreeMonths => {
            assert forall|k: int| 0 <= k < spec_period_token(p).len() implies spec_period_token(p)[k]
                != ' ' by {
                let t = "3m"@;
                assert(t[0] == '3' && t[1] == 'm');
            }
        },
        TimePeriod::SixMonths => {
            assert forall|k: int| 0 <= k < spec_period_token(p).len() implies spec_period_token(p)[k]
                != ' ' by {
                let t = "6m"@;
                assert(t[0] == '6' && t[1] == 'm');
            }
        },
        TimePeriod::OneYear => {
            assert forall|k: int| 0 <= k < spec_period_token(p).len() implies spec_period_token(p)[k]
                != ' ' by {
                let t = "1y"@;
                assert(t[0] == '1' && t[1] == 'y');
            }
        },
        TimePeriod::AllTime => {
            assert forall|k: int| 0 <= k < spec_period_token(p).len() implies spec_period_token(p)[k]
                != ' ' by {
                let t = "all"@;
                assert(t[0] == 'a' && t[1] == 'l' && t[2] == 'l');
            }
        },
    }
}

proof fn lemma_digit_token_chars(size: u32)
    requires
        1 <= size <= 7,
    ensures
        digit_char(size as nat) != ' ',
        digit_char(size as nat) != 'x',
        digit_char(size as nat) != '+',
        is_digit_char(digit_char(size as nat)),
        digit_val(digit_char(size as nat)) == size as nat,
{
    if size == 1 {
        assert(digit_char(size as nat) == '1');
    } else if size == 2 {
        assert(digit_char(size as nat) == '2');
    } else if size == 3 {
        assert(digit_char(size as nat) == '3');
    } else if size == 4 {
        assert(digit_char(size as nat) == '4');
    } else if size == 5 {
        assert(digit_char(size as nat) == '5');
    } else if size == 6 {
        assert(digit_char(size as nat) == '6');
    } else {
        assert(digit_char(size as nat) == '7');
    }
}

/// The rendered phrase splits back into exactly its tokens.
proof fn lemma_split_rendered(size: u32, period: TimePeriod, entry_type: EntryType, clean: bool)
    requires
        1 <= size <= 7,
    ensures
        splitn_spaces(spec_render_collage_arg(size, period, entry_type, clean), 4) == (if clean {
            seq![
                spec_entry_token(entry_type),
                seq![digit_char(size as nat)],
                spec_period_token(period),
                "clean"@,
            ]
        } else {
            seq![spec_entry_token(entry_type), seq![digit_char(size as nat)], spec_period_token(period)]
        }),
{
    reveal_strlit("clean");
    let e = spec_entry_token(entry_type);
    let d = seq![digit_char(size as nat)];
    let p = spec_period_token(period);
    let tail = if clean {
        seq![' '] + "clean"@
    } else {
        Seq::<char>::empty()
    };
    let s = spec_render_collage_arg(size, period, entry_type, clean);
    lemma_entry_token_chars(entry_type);
    lemma_period_token_chars(period);
    lemma_digit_token_chars(size);
    let rest1 = d + seq![' '] + p + tail;
    assert(s =~= e + seq![' '] + rest1);
    lemma_splitn_step(e, rest1, 4);
    let rest2 = p + tail;
    assert(rest1 =~= d + seq![' '] + rest2);
    assert forall|k: int| 0 <= k < d.len() implies d[k] != ' ' by {
        assert(d[0] == digit_char(size as nat));
    }
    lemma_splitn_step(d, rest2, 3);
    if clean {
        assert(rest2 =~= p + seq![' '] + "clean"@);
        lemma_splitn_step(p, "clean"@, 2);
        assert(splitn_spaces("clean"@, 1) == seq!["clean"@]);
        assert(splitn_spaces(s, 4) =~= seq![e, d, p, "clean"@]);
    } else {
        assert(rest2 =~= p);
        lemma_splitn_last(p, 2);
        assert(splitn_spaces(s, 4) =~= seq![e, d, p]);
    }
}

proof fn lemma_scan_entry_token(st: ScanState, e: EntryType)
    requires
        !st.entry_type_found,
    ensures
        scan_token(st, spec_entry_token(e)) == (ScanState {
            entry_type: e,
            entry_type_found: true,
            ..st
        }),
{
    reveal_strlit("artist");
    reveal_strlit("album");
    reveal_strlit("track");
    let t = spec_entry_token(e);
    match e {
        EntryType::Artist => {
            assert(t.subrange(0, 6) =~= t);
            assert(starts_with_seq(t, "artist"@));
        },
        EntryType::Album => {
            assert(!starts_with_seq(t, "artist"@));
            assert(t.subrange(0, 5) =~= t);
            assert(starts_with_seq(t, "album"@));
        },
        EntryType::Track => {
            assert(!starts_with_seq(t, "artist"@));
            assert(t[0] == 't');
            assert("album"@[0] == 'a');
            if starts_with_seq(t, "album"@) {
                assert(t.subrange(0, 5)[0] == 't');
            }
            assert(t.subrange(0, 5) =~= t);
            assert(starts_with_seq(t, "track"@));
        },
    }
}

proof fn lemma_scan_size_token(st: ScanState, size: u32)
    requires
        st.entry_type_found,
        !st.size_found,
        1 <= size <= 7,
    ensures
        scan_token(st, seq![digit_char(size as nat)]) == (ScanState {
            size: size,
            size_found: true,
            ..st
        }),
{
    let t = seq![digit_char(size as nat)];
    lemma_digit_token_chars(size);
    let frag = fragment_of(t);
    assert(frag =~= t);
    assert(frag[0] == digit_char(size as nat));
    assert(frag[0] != 'x');
    assert forall|k: int| 0 <= k < frag.len() implies frag[k] != 'x' by {
        assert(k == 0);
    }
    lemma_find_char_none(frag, 'x');
    assert(t[0] != '+');
    assert(all_digits(t)) by {
        assert forall|k: int| 0 <= k < t.len() implies is_digit_char(t[k]) by {
            assert(k == 0);
            assert(t[0] == digit_char(size as nat));
        }
    }
    assert(t.drop_last() =~= Seq::<char>::empty());
    assert(dec_val(Seq::<char>::empty()) == 0);
    assert(t.last() == digit_char(size as nat));
    assert(dec_val(t) == digit_val(digit_char(size as nat)));
    assert(spec_parse_u64(t) == Some(size as u64));
    assert(size_of_token(t) == Some(size));
}

#[verifier::rlimit(100)]
#[verifier::spinoff_prover]
proof fn lemma_scan_period_token(st: ScanState, p: TimePeriod)
    requires
        st.entry_type_found,
        st.size_found,
        !st.period_found,
    ensures
        scan_token(st, spec_period_token(p)) == (ScanState {
            period: p,
            period_found: true,
            ..st
        }),
{
    reveal_strlit("1w");
    reveal_strlit("1m");
    reveal_strlit("3m");
    reveal_strlit("6m");
    reveal_strlit("1y");
    reveal_strlit("all");
    let t = spec_period_token(p);
    let frag = fragment_of(t);
    assert(frag =~= t);
    match p {
        TimePeriod::OneWeek => {
            assert(t[0] == '1' && t[1] == 'w');
            assert(!contains_char(frag, 'd')) by {
                assert forall|k: int| 0 <= k < frag.len() implies frag[k] != 'd' by {}
            }
            assert(contains_char(frag, 'w')) by {
                assert(frag[1] == 'w');
            }
            assert(!contains_char(frag, 'm'));
            assert(!contains_char(frag, 'y'));
            assert(is_digit_char(t[0]));
            assert(digit_val(t[0]) == 1);
        },
        TimePeriod::OneMonth => {
            assert(t[0] == '1' && t[1] == 'm');
            assert(!contains_char(frag, 'd'));
            assert(!contains_char(frag, 'w'));
            assert(contains_char(frag, 'm')) by {
                assert(frag[1] == 'm');
            }
            assert(!contains_char(frag, 'y'));
            assert(is_digit_char(t[0]));
            assert(digit_val(t[0]) == 1);
        },
        TimePeriod::ThreeMonths => {
            assert(t[0] == '3' && t[1] == 'm');
            assert(!contains_char(frag, 'd'));
            assert(!contains_char(frag, 'w'));
            assert(!contains_char(frag, 'y'));
            assert(is_digit_char(t[0]));
            assert(digit_val(t[0]) == 3);
        },
        TimePeriod::SixMonths => {
            assert(t[0] == '6' && t[1] == 'm');
            assert(!contains_char(frag, 'd'));
            assert(!contains_char(frag, 'w'));
            assert(!contains_char(frag, 'y'));
            assert(is_digit_char(t[0]));
            assert(digit_val(t[0]) == 6);
        },
        TimePeriod::OneYear => {
            assert(t[0] == '1' && t[1] == 'y');
            assert(!contains_char(frag, 'd'));
            assert(!contains_char(frag, 'w'));
            assert(!contains_char(frag, 'm'));
            assert(contains_char(frag, 'y')) by {
                assert(frag[1] == 'y');
            }
            assert(is_digit_char(t[0]));
            assert(digit_val(t[0]) == 1);
        },
        TimePeriod::AllTime => {
            assert(t[0] == 'a' && t[1] == 'l' && t[2] == 'l');
            assert(!is_digit_char(t[0]));
            assert(!contains_char(frag, 'w'));
            assert(!contains_char(frag, 'm'));
            assert(!contains_char(frag, 'y'));
            assert(contains_seq(frag, "all"@)) by {
                assert(frag.subrange(0, 3) =~= "all"@);
                assert(crate::text::matches_at(frag, "all"@, 0));
            }
        },
    }
}

proof fn lemma_scan_token_all_claimed(st: ScanState, t: Seq<char>)
    requires
        st.entry_type_found,
        st.size_found,
        st.period_found,
    ensures
        scan_token(st, t) == st,
{
}

proof fn lemma_rendered_tokens_not_flags(size: u32, period: TimePeriod, entry_type: EntryType)
    requires
        1 <= size <= 7,
    ensures
        !is_flag_token(spec_entry_token(entry_type)),
        !is_flag_token(seq![digit_char(size as nat)]),
        !is_flag_token(spec_period_token(period)),
{
    reveal_strlit("notext");
    reveal_strlit("nonames");
    reveal_strlit("clean");
    reveal_strlit("artist");
    reveal_strlit("album");
    reveal_strlit("track");
    reveal_strlit("1w");
    reveal_strlit("1m");
    reveal_strlit("3m");
    reveal_strlit("6m");
    reveal_strlit("1y");
    reveal_strlit("all");
    let e = spec_entry_token(entry_type);
    match entry_type {
        EntryType::Artist => {
            assert(e[0] == 'a');
            assert("notext"@[0] == 'n');
            assert("nonames"@.len() == 7);
            assert("clean"@.len() == 5);
        },
        EntryType::Album => {
            assert(e[0] == 'a');
            assert("notext"@.len() == 6);
            assert("nonames"@.len() == 7);
            assert("clean"@[0] == 'c');
        },
        EntryType::Track => {
            assert(e[0] == 't');
            assert("notext"@.len() == 6);
            assert("nonames"@.len() == 7);
            assert("clean"@[0] == 'c');
        },
    }
    assert(seq![digit_char(size as nat)].len() == 1);
    assert("notext"@.len() == 6);
    assert("nonames"@.len() == 7);
    assert("clean"@.len() == 5);
    let pt = spec_period_token(period);
    match period {
        TimePeriod::OneWeek => assert(pt.len() == 2),
        TimePeriod::OneMonth => assert(pt.len() == 2),
        TimePeriod::ThreeMonths => assert(pt.len() == 2),
        TimePeriod::SixMonths => assert(pt.len() == 2),
        TimePeriod::OneYear => assert(pt.len() == 2),
        TimePeriod::AllTime => assert(pt.len() == 3),
    }
}

/// Parsing a canonically rendered phrase recovers exactly the rendered
/// tuple: rendering loses nothing the parser reads, and a second
/// parse-render-parse pass is a fixed point.
pub proof fn lemma_parse_render_roundtrip(
    size: u32,
    period: TimePeriod,
    entry_type: EntryType,
    clean: bool,
)
    requires
        1 <= size <= 7,
    ensures
        spec_parse_collage_arg(spec_render_collage_arg(size, period, entry_type, clean)) == (
        size,
        period,
        entry_type,
        clean,
        ),
{
    reveal_strlit("clean");
    let s = spec_render_collage_arg(size, period, entry_type, clean);
    lemma_split_rendered(size, period, entry_type, clean);
    let e = spec_entry_token(entry_type);
    let d = seq![digit_char(size as nat)];
    let p = spec_period_token(period);
    let tokens = splitn_spaces(s, 4);
    let st0 = initial_scan_state();
    lemma_scan_entry_token(st0, entry_type);
    let st1 = scan_token(st0, e);
    lemma_scan_size_token(st1, size);
    let st2 = scan_token(st1, d);
    lemma_scan_period_token(st2, period);
    let st3 = scan_token(st2, p);
    lemma_rendered_tokens_not_flags(size, period, entry_type);
    if clean {
        assert(tokens == seq![e, d, p, "clean"@]);
        lemma_scan_token_all_claimed(st3, "clean"@);
        assert(tokens.drop_first() =~= seq![d, p, "clean"@]);
        assert(tokens.drop_first().drop_first() =~= seq![p, "clean"@]);
        assert(tokens.drop_first().drop_first().drop_first() =~= seq!["clean"@]);
        assert(tokens.drop_first().drop_first().drop_first().drop_first() =~= Seq::<
            Seq<char>,
        >::empty());
        assert(tokens[0] == e);
        assert(tokens.drop_first()[0] == d);
        assert(tokens.drop_first().drop_first()[0] == p);
        assert(tokens.drop_first().drop_first().drop_first()[0] == "clean"@);
        assert(scan_tokens(st0, tokens) == scan_tokens(st1, tokens.drop_first()));
        assert(scan_tokens(st1, tokens.drop_first()) == scan_tokens(
            st2,
            tokens.drop_first().drop_first(),
        ));
        assert(scan_tokens(st2, tokens.drop_first().drop_first()) == scan_tokens(
            st3,
            tokens.drop_first().drop_first().drop_first(),
        ));
        assert(scan_tokens(st3, tokens.drop_first().drop_first().drop_first()) == scan_tokens(
            st3,
            tokens.drop_first().drop_first().drop_first().drop_first(),
        ));
        assert(scan_tokens(st0, tokens) == st3);
        assert(is_flag_token("clean"@));
        assert(has_flag_token(tokens)) by {
            assert(tokens[3] == "clean"@);
        }
    } else {
        assert(tokens == seq![e, d, p]);
        assert(tokens.drop_first() =~= seq![d, p]);
        assert(tokens.drop_first().drop_first() =~= seq![p]);
        assert(tokens.drop_first().drop_first().drop_first() =~= Seq::<Seq<char>>::empty());
        assert(tokens[0] == e);
        assert(tokens.drop_first()[0] == d);
        assert(tokens.drop_first().drop_first()[0] == p);
        assert(scan_tokens(st0, tokens) == scan_tokens(st1, tokens.drop_first()));
        assert(scan_tokens(st1, tokens.drop_first()) == scan_tokens(
            st2,
            tokens.drop_first().drop_first(),
        ));
        assert(scan_tokens(st2, tokens.drop_first().drop_first()) == scan_tokens(
            st3,
            tokens.drop_first().drop_first().drop_first(),
        ));
        assert(scan_tokens(st0, tokens) == st3);
        assert(!has_flag_token(tokens)) by {
            assert forall|i: int| 0 <= i < tokens.len() implies !is_flag_token(tokens[i]) by {
                lemma_rendered_tokens_not_flags(size, period, entry_type);
            }
        }
    }
}

proof fn lemma_scan_size_range(st: ScanState, tokens: Seq<Seq<char>>)
    requires
        1 <= st.size <= 7,
    ensures
        1 <= scan_tokens(st, tokens).size <= 7,
    decreases tokens.len(),
{
    if tokens.len() > 0 {
        let st1 = scan_token(st, tokens[0]);
        assert(1 <= st1.size <= 7);
        lemma_scan_size_range(st1, tokens.drop_first());
    }
}

/// Parsing is idempotent through rendering: rendering a parse result and
/// parsing it again gives the same tuple as the original parse.
pub proof fn lemma_parse_idempotent(phrase: Seq<char>)
    ensures
        ({
            let parsed = spec_parse_collage_arg(phrase);
            spec_parse_collage_arg(
                spec_render_collage_arg(parsed.0, parsed.1, parsed.2, parsed.3),
            ) == parsed
        }),
{
    let parsed = spec_parse_collage_arg(phrase);
    lemma_scan_size_range(initial_scan_state(), splitn_spaces(phrase, 4));
    lemma_parse_render_roundtrip(parsed.0, parsed.1, parsed.2, parsed.3);
}

} // verus!
