//! Verified text utilities: character access, string equality, decimal
//! conversion in both directions, substring search, HTML escaping, and
//! UTF-16-indexed slicing.

use vstd::prelude::*;
use vstd::string::StrSliceExecFns;
use vstd::string::StringExecFns;

verus! {

/// Relies on String::push: appends one character at the end of the string.
#[verifier::external_body]
pub(crate) fn string_push(s: &mut String, c: char)
    ensures
        final(s)@ == old(s)@.push(c),
{
    s.push(c);
}

/// The characters of a string slice, in order.
pub fn str_chars(s: &str) -> (r: Vec<char>)
    ensures
        r@ == s@,
{
    let n = s.unicode_len();
    let mut r: Vec<char> = Vec::new();
    let mut i: usize = 0;
    while i < n
        invariant
            i <= n,
            n == s@.len(),
            r@ == s@.subrange(0, i as int),
        decreases n - i,
    {
        r.push(s.get_char(i));
        i = i + 1;
        assert(r@ =~= s@.subrange(0, i as int));
    }
    assert(r@ =~= s@);
    r
}

/// A string holding exactly the given characters, in order.
pub fn chars_to_string(v: &Vec<char>) -> (r: String)
    ensures
        r@ == v@,
{
    let mut r = String::new();
    let mut i: usize = 0;
    while i < v.len()
        invariant
            i <= v.len(),
            r@ == v@.subrange(0, i as int),
        decreases v.len() - i,
    {
        string_push(&mut r, v[i]);
        i = i + 1;
        assert(r@ =~= v@.subrange(0, i as int));
    }
    assert(r@ =~= v@);
    r
}

/// Character-wise string equality.
pub fn str_eq(a: &str, b: &str) -> (r: bool)
    ensures
        r == (a@ == b@),
{
    let n = a.unicode_len();
    if n != b.unicode_len() {
        return false;
    }
    let mut i: usize = 0;
    while i < n
        invariant
            i <= n,
            n == a@.len(),
            n == b@.len(),
            forall|k: int| 0 <= k < i ==> a@[k] == b@[k],
        decreases n - i,
    {
        if a.get_char(i) != b.get_char(i) {
            return false;
        }
        i = i + 1;
    }
    assert(a@ =~= b@);
    true
}

pub open spec fn is_digit_char(c: char) -> bool {
    ('0' as u32) <= (c as u32) && (c as u32) <= ('9' as u32)
}

pub open spec fn digit_val(c: char) -> nat {
    ((c as u32) - ('0' as u32)) as nat
}

/// Decimal-digit test on a single character.
pub fn is_digit_exec(c: char) -> (r: bool)
    ensures
        r == is_digit_char(c),
{
    let u = c as u32;
    '0' as u32 <= u && u <= '9' as u32
}

pub open spec fn all_digits(s: Seq<char>) -> bool {
    forall|i: int| 0 <= i < s.len() ==> is_digit_char(s[i])
}

/// The value of a string of decimal digits, most significant first.
pub open spec fn dec_val(s: Seq<char>) -> nat
    decreases s.len(),
{
    if s.len() == 0 {
        0
    } else {
        dec_val(s.drop_last()) * 10 + digit_val(s.last())
    }
}

/// What `str::parse::<u64>` accepts: an optional leading '+', then at least
/// one decimal digit, with a value that fits in 64 bits.
pub open spec fn spec_parse_u64(s: Seq<char>) -> Option<u64> {
    let digits = if s.len() > 0 && s[0] == '+' {
        s.drop_first()
    } else {
        s
    };
    if digits.len() > 0 && all_digits(digits) && dec_val(digits) <= u64::MAX {
        Some(dec_val(digits) as u64)
    } else {
        None
    }
}

proof fn lemma_dec_val_grows(s: Seq<char>, i: int)
    requires
        0 <= i <= s.len(),
    ensures
        dec_val(s.subrange(0, i)) <= dec_val(s),
    decreases s.len() - i,
{
    if i < s.len() {
        lemma_dec_val_grows(s, i + 1);
        assert(s.subrange(0, i + 1).drop_last() =~= s.subrange(0, i));
        assert(dec_val(s.subrange(0, i)) <= dec_val(s.subrange(0, i + 1)));
    } else {
        assert(s.subrange(0, i) =~= s);
    }
}

/// Decimal parsing of an entire string, as `str::parse::<u64>` does it.
pub fn parse_u64(s: &str) -> (r: Option<u64>)
    ensures
        r == spec_parse_u64(s@),
{
    let cs = str_chars(s);
    chars_parse_u64(&cs)
}

/// Decimal parsing of a character sequence, as `str::parse::<u64>` does it.
#[verifier::rlimit(50)]
#[verifier::loop_isolation(false)]
pub fn chars_parse_u64(v: &Vec<char>) -> (r: Option<u64>)
    ensures
        r == spec_parse_u64(v@),
{
    let start: usize = if v.len() > 0 && v[0] == '+' {
        1
    } else {
        0
    };
    let ghost digits = if v@.len() > 0 && v@[0] == '+' {
        v@.drop_first()
    } else {
        v@
    };
    proof {
        assert(digits =~= v@.subrange(start as int, v@.len() as int));
    }
    if v.len() == start {
        return None;
    }
    let mut acc: u64 = 0;
    let mut i: usize = start;
    while i < v.len()
        invariant
            start <= i <= v.len(),
            start < v.len(),
            digits == v@.subrange(start as int, v@.len() as int),
            all_digits(v@.subrange(start as int, i as int)),
            acc as nat == dec_val(v@.subrange(start as int, i as int)),
        decreases v.len() - i,
    {
        let ghost pre = v@.subrange(start as int, i as int);
        let ghost post = v@.subrange(start as int, i + 1);
        let c = v[i];
        let cu = c as u32;
        proof {
            assert(post.drop_last() =~= pre);
            assert(post.last() == c);
        }
        if cu < '0' as u32 || cu > '9' as u32 {
            proof {
                assert(digits[i - start] == c);
                assert(!all_digits(digits));
            }
            return None;
        }
        let d: u64 = (cu - '0' as u32) as u64;
        let wide: u128 = acc as u128 * 10 + d as u128;
        proof {
            assert(dec_val(post) == dec_val(pre) * 10 + digit_val(c));
            assert(forall|k: int| 0 <= k < post.len() ==> is_digit_char(#[trigger] post[k])) by {
                assert(forall|k: int| 0 <= k < pre.len() ==> is_digit_char(#[trigger] pre[k]));
                assert(forall|k: int| 0 <= k < post.len() - 1 ==> post[k] == pre[k]);
            }
        }
        if wide > u64::MAX as u128 {
            proof {
                lemma_dec_val_grows(digits, i + 1 - start);
                assert(digits.subrange(0, i + 1 - start) =~= post);
                assert(dec_val(digits) > u64::MAX);
            }
            return None;
        }
        acc = wide as u64;
        i = i + 1;
    }
    proof {
        assert(digits =~= v@.subrange(start as int, v@.len() as int));
        assert(digits.len() > 0);
        assert(all_digits(digits));
        assert(acc as nat == dec_val(digits));
    }
    Some(acc)
}

pub open spec fn digit_char(d: nat) -> char {
    if d == 0 {
        '0'
    } else if d == 1 {
        '1'
    } else if d == 2 {
        '2'
    } else if d == 3 {
        '3'
    } else if d == 4 {
        '4'
    } else if d == 5 {
        '5'
    } else if d == 6 {
        '6'
    } else if d == 7 {
        '7'
    } else if d == 8 {
        '8'
    } else {
        '9'
    }
}

/// The decimal rendering of a number, most significant digit first.
pub open spec fn dec_str(n: nat) -> Seq<char>
    decreases n,
{
    if n < 10 {
        seq![digit_char(n)]
    } else {
        dec_str(n / 10).push(digit_char(n % 10))
    }
}

/// The character of a single decimal digit.
pub fn digit_char_exec(d: u64) -> (r: char)
    requires
        d < 10,
    ensures
        r == digit_char(d as nat),
{
    if d == 0 {
        '0'
    } else if d == 1 {
        '1'
    } else if d == 2 {
        '2'
    } else if d == 3 {
        '3'
    } else if d == 4 {
        '4'
    } else if d == 5 {
        '5'
    } else if d == 6 {
        '6'
    } else if d == 7 {
        '7'
    } else if d == 8 {
        '8'
    } else {
        '9'
    }
}

/// Decimal rendering of a 64-bit number.
pub fn u64_to_dec_string(n: u64) -> (r: String)
    ensures
        r@ == dec_str(n as nat),
    decreases n,
{
    if n < 10 {
        let mut r = String::new();
        string_push(&mut r, digit_char_exec(n));
        assert(r@ =~= dec_str(n as nat));
        r
    } else {
        let mut r = u64_to_dec_string(n / 10);
        string_push(&mut r, digit_char_exec(n % 10));
        r
    }
}

/// A value below 60 rendered on exactly two digits, zero padded.
pub open spec fn two_digit_str(n: nat) -> Seq<char> {
    if n < 10 {
        seq!['0'].push(digit_char(n))
    } else {
        dec_str(n)
    }
}

/// Milliseconds rendered as "M:SS": whole minutes, then the seconds left
/// over, zero padded to two digits.
pub open spec fn spec_duration_str(ms: u64) -> Seq<char> {
    dec_str((ms / 60000) as nat) + seq![':'] + two_digit_str(((ms / 1000) % 60) as nat)
}

/// Track duration in milliseconds as minutes and seconds, "M:SS".
pub fn human_readable_duration(ms: u64) -> (r: String)
    ensures
        r@ == spec_duration_str(ms),
{
    let mut r = u64_to_dec_string(ms / 60000);
    string_push(&mut r, ':');
    let secs: u64 = (ms / 1000) % 60;
    if secs < 10 {
        string_push(&mut r, '0');
        string_push(&mut r, digit_char_exec(secs));
        assert(r@ =~= spec_duration_str(ms));
    } else {
        let tail = u64_to_dec_string(secs);
        r = r.concat(tail.as_str());
        assert(r@ =~= spec_duration_str(ms));
    }
    r
}

/// The needle occurs in the haystack starting at index `i`.
pub open spec fn matches_at(h: Seq<char>, n: Seq<char>, i: int) -> bool {
    0 <= i && i + n.len() <= h.len() && h.subrange(i, i + n.len() as int) == n
}

/// The needle occurs somewhere in the haystack.
pub open spec fn contains_seq(h: Seq<char>, n: Seq<char>) -> bool {
    exists|i: int| matches_at(h, n, i)
}

fn chars_match_at(h: &Vec<char>, n: &Vec<char>, pos: usize) -> (r: bool)
    requires
        pos + n@.len() <= h@.len(),
    ensures
        r == matches_at(h@, n@, pos as int),
{
    let hn = h.len();
    let mut j: usize = 0;
    while j < n.len()
        invariant
            j <= n@.len(),
            pos + n@.len() <= h@.len(),
            hn == h@.len(),
            forall|k: int| 0 <= k < j ==> h@[pos + k] == n@[k],
        decreases n@.len() - j,
    {
        if h[pos + j] != n[j] {
            assert(h@.subrange(pos as int, pos + n@.len()) != n@) by {
                assert(h@.subrange(pos as int, pos + n@.len())[j as int] != n@[j as int]);
            }
            return false;
        }
        j = j + 1;
    }
    assert(h@.subrange(pos as int, pos + n@.len()) =~= n@);
    true
}

/// Substring search, as `str::contains` decides it.
pub fn str_contains(h: &str, n: &str) -> (r: bool)
    ensures
        r == contains_seq(h@, n@),
{
    let hc = str_chars(h);
    let nc = str_chars(n);
    let hn = hc.len();
    let nn = nc.len();
    if nn > hn {
        assert(forall|i: int| !matches_at(h@, n@, i));
        return false;
    }
    if nn == 0 {
        assert(h@.subrange(0, 0) =~= n@);
        assert(matches_at(h@, n@, 0));
        return true;
    }
    let last: usize = hn - nn;
    let mut i: usize = 0;
    while i <= last
        invariant
            i <= last + 1,
            1 <= nn <= hn,
            hn == hc@.len(),
            nn == nc@.len(),
            last == hn - nn,
            hc@ == h@,
            nc@ == n@,
            forall|k: int| 0 <= k < i ==> !matches_at(h@, n@, k),
        decreases last + 1 - i,
    {
        if chars_match_at(&hc, &nc, i) {
            return true;
        }
        i = i + 1;
    }
    assert(forall|k: int| !matches_at(h@, n@, k));
    false
}

/// The string starts with the given prefix.
pub open spec fn starts_with_seq(s: Seq<char>, p: Seq<char>) -> bool {
    p.len() <= s.len() && s.subrange(0, p.len() as int) == p
}

/// How one character is written in HTML text: '&', '<' and '>' become
/// entities, everything else stands as itself.
pub open spec fn html_escape_char(c: char) -> Seq<char> {
    if c == '&' {
        "&amp;"@
    } else if c == '<' {
        "&lt;"@
    } else if c == '>' {
        "&gt;"@
    } else {
        seq![c]
    }
}

/// The whole string with every markup character escaped.
pub open spec fn spec_html_escape(s: Seq<char>) -> Seq<char>
    decreases s.len(),
{
    if s.len() == 0 {
        Seq::empty()
    } else {
        spec_html_escape(s.drop_last()) + html_escape_char(s.last())
    }
}

/// Escapes '&', '<' and '>' for embedding in HTML-formatted text.
pub fn replace_html_symbols(text: &str) -> (r: String)
    ensures
        r@ == spec_html_escape(text@),
{
    let cs = str_chars(text);
    let mut r = String::new();
    let mut i: usize = 0;
    while i < cs.len()
        invariant
            i <= cs.len(),
            cs@ == text@,
            r@ == spec_html_escape(text@.subrange(0, i as int)),
        decreases cs.len() - i,
    {
        let c = cs[i];
        if c == '&' {
            r = r.concat("&amp;");
        } else if c == '<' {
            r = r.concat("&lt;");
        } else if c == '>' {
            r = r.concat("&gt;");
        } else {
            string_push(&mut r, c);
        }
        i = i + 1;
        proof {
            assert(text@.subrange(0, i as int).drop_last() =~= text@.subrange(0, i - 1));
            assert(r@ =~= spec_html_escape(text@.subrange(0, i as int)));
        }
    }
    assert(text@.subrange(0, cs.len() as int) =~= text@);
    r
}

/// How many UTF-16 code units a character takes: two beyond the basic
/// multilingual plane, one otherwise.
pub open spec fn utf16_len_char(c: char) -> nat {
    if (c as u32) >= 0x10000 {
        2
    } else {
        1
    }
}

/// The UTF-16 length of the first `i` characters.
pub open spec fn utf16_cum(s: Seq<char>, i: int) -> nat
    decreases i,
{
    if i <= 0 {
        0
    } else {
        utf16_cum(s, i - 1) + utf16_len_char(s[i - 1])
    }
}

pub proof fn lemma_utf16_cum_strict(s: Seq<char>, i: int, j: int)
    requires
        0 <= i < j <= s.len(),
    ensures
        utf16_cum(s, i) < utf16_cum(s, j),
    decreases j - i,
{
    if i + 1 < j {
        lemma_utf16_cum_strict(s, i, j - 1);
    }
}

/// The first character index whose UTF-16 offset equals the target,
/// scanning from `k`; the scan stops early once the offset has passed
/// the target, as offsets only grow.
pub open spec fn find_utf16_pos(s: Seq<char>, target: nat, k: int) -> Option<int>
    decreases s.len() - k,
{
    if k < 0 || k >= s.len() {
        None
    } else if utf16_cum(s, k) == target {
        Some(k)
    } else if utf16_cum(s, k) > target {
        None
    } else {
        find_utf16_pos(s, target, k + 1)
    }
}

pub proof fn lemma_find_utf16_pos(s: Seq<char>, target: nat, k: int)
    requires
        0 <= k <= s.len(),
        forall|m: int| 0 <= m < k ==> utf16_cum(s, m) != target,
    ensures
        match find_utf16_pos(s, target, k) {
            Some(i) => 0 <= i < s.len() && utf16_cum(s, i) == target,
            None => forall|m: int| 0 <= m < s.len() ==> utf16_cum(s, m) != target,
        },
    decreases s.len() - k,
{
    if k >= s.len() {
    } else if utf16_cum(s, k) == target {
    } else if utf16_cum(s, k) > target {
        assert forall|m: int| 0 <= m < s.len() implies utf16_cum(s, m) != target by {
            if m >= k {
                if m > k {
                    lemma_utf16_cum_strict(s, k, m);
                }
            }
        }
    } else {
        lemma_find_utf16_pos(s, target, k + 1);
    }
}

/// What slicing at UTF-16 offsets yields: the characters between the
/// two matching character positions, or nothing when either offset
/// falls outside the text, inside a surrogate pair, or after its end,
/// or the bounds are reversed.
pub open spec fn spec_slice_tg(s: Seq<char>, start: nat, end: nat) -> Option<Seq<char>> {
    match (find_utf16_pos(s, start, 0), find_utf16_pos(s, end, 0)) {
        (Some(i), Some(j)) => if i <= j {
            Some(s.subrange(i, j))
        } else {
            None
        },
        _ => None,
    }
}

/// Slices a string by UTF-16 code-unit offsets, the unit in which chat
/// messages address their entities. Both offsets must land exactly on a
/// character boundary strictly inside the text.
#[verifier::rlimit(60)]
#[verifier::loop_isolation(false)]
pub fn slice_tg_string(s: String, start: usize, end: usize) -> (r: Option<String>)
    ensures
        r.deep_view() == spec_slice_tg(s@, start as nat, end as nat),
{
    let cs = str_chars(s.as_str());
    let n = cs.len();
    let mut start_pos: Option<usize> = None;
    let mut end_pos: Option<usize> = None;
    let mut cum: u128 = 0;
    let mut i: usize = 0;
    let mut done = false;
    while i < n && !done
        invariant
            i <= n,
            cum == utf16_cum(s@, i as int),
            cum <= 2 * (i as int),
            !done ==> end_pos is None,
            !done ==> forall|m: int| 0 <= m < i ==> utf16_cum(s@, m) != end as nat,
            !done ==> match start_pos {
                Some(p) => p < i && utf16_cum(s@, p as int) == start as nat,
                None => forall|m: int| 0 <= m < i ==> utf16_cum(s@, m) != start as nat,
            },
            done ==> i < n && end_pos == Some(i) && utf16_cum(s@, i as int) == end as nat && (
            forall|m: int| 0 <= m < i ==> utf16_cum(s@, m) != end as nat),
            done ==> match start_pos {
                Some(p) => p <= i && utf16_cum(s@, p as int) == start as nat,
                None => forall|m: int| 0 <= m <= i ==> utf16_cum(s@, m) != start as nat,
            },
        decreases n - i, (if done { 0int } else { 1int }),
    {
        if cum == start as u128 {
            start_pos = Some(i);
        }
        if cum == end as u128 {
            end_pos = Some(i);
            done = true;
        } else {
            let c = cs[i];
            let step: u128 = if (c as u32) >= 0x10000 {
                2
            } else {
                1
            };
            cum = cum + step;
            i = i + 1;
        }
    }
    proof {
        lemma_find_utf16_pos(s@, start as nat, 0);
        lemma_find_utf16_pos(s@, end as nat, 0);
    }
    if !done {
        proof {
            assert(i == n);
            assert(find_utf16_pos(s@, end as nat, 0) is None) by {
                match find_utf16_pos(s@, end as nat, 0) {
                    Some(je) => {
                        assert(utf16_cum(s@, je) != end as nat);
                    },
                    None => {},
                }
            }
        }
        return None;
    }
    let j = match end_pos {
        Some(j) => j,
        None => {
            proof {
                assert(false);
            }
            0
        },
    };
    proof {
        assert(find_utf16_pos(s@, end as nat, 0) == Some(j as int)) by {
            match find_utf16_pos(s@, end as nat, 0) {
                Some(je) => {
                    if je < j {
                        assert(utf16_cum(s@, je) != end as nat);
                    }
                    if je > j {
                        lemma_utf16_cum_strict(s@, j as int, je);
                    }
                },
                None => {
                    assert(utf16_cum(s@, j as int) == end as nat);
                },
            }
        }
    }
    match start_pos {
        Some(p) => {
            proof {
                assert(find_utf16_pos(s@, start as nat, 0) == Some(p as int)) by {
                    match find_utf16_pos(s@, start as nat, 0) {
                        Some(ps) => {
                            if ps < p {
                                lemma_utf16_cum_strict(s@, ps, p as int);
                            }
                            if ps > p {
                                lemma_utf16_cum_strict(s@, p as int, ps);
                            }
                        },
                        None => {
                            assert(utf16_cum(s@, p as int) == start as nat);
                        },
                    }
                }
            }
            let piece = vec_subrange(&cs, p, j);
            let out = chars_to_string(&piece);
            Some(out)
        },
        None => {
            proof {
                match find_utf16_pos(s@, start as nat, 0) {
                    Some(ps) => {
                        assert(ps > j) by {
                            if ps <= j {
                                assert(utf16_cum(s@, ps) != start as nat);
                            }
                        }
                    },
                    None => {},
                }
            }
            None
        },
    }
}

/// The index of the first occurrence of a character, if any.
pub open spec fn find_char(s: Seq<char>, c: char) -> Option<int>
    decreases s.len(),
{
    if s.len() == 0 {
        None
    } else if s[0] == c {
        Some(0)
    } else {
        match find_char(s.drop_first(), c) {
            None => None,
            Some(i) => Some(i + 1),
        }
    }
}

pub open spec fn contains_char(s: Seq<char>, c: char) -> bool {
    exists|i: int| 0 <= i < s.len() && s[i] == c
}

/// What `find_char` returns: the first occurrence, or nothing when the
/// character does not occur.
pub proof fn lemma_find_char(s: Seq<char>, c: char)
    ensures
        match find_char(s, c) {
            None => !contains_char(s, c),
            Some(i) => 0 <= i < s.len() && s[i] == c && forall|k: int| 0 <= k < i ==> s[k] != c,
        },
    decreases s.len(),
{
    if s.len() == 0 {
    } else if s[0] == c {
    } else {
        lemma_find_char(s.drop_first(), c);
        match find_char(s.drop_first(), c) {
            None => {
                assert forall|i: int| 0 <= i < s.len() implies s[i] != c by {
                    if i > 0 {
                        assert(s.drop_first()[i - 1] == s[i]);
                        assert(!contains_char(s.drop_first(), c));
                    }
                }
            },
            Some(j) => {
                assert(s.drop_first()[j] == s[j + 1]);
                assert forall|k: int| 0 <= k < j + 1 implies s[k] != c by {
                    if k > 0 {
                        assert(s.drop_first()[k - 1] == s[k]);
                    }
                }
            },
        }
    }
}

/// The first occurrence of a character in a vector, if any.
pub fn find_first_char(v: &Vec<char>, c: char) -> (r: Option<usize>)
    ensures
        r == match find_char(v@, c) {
            None => None::<usize>,
            Some(i) => Some(i as usize),
        },
{
    proof {
        lemma_find_char(v@, c);
    }
    let mut i: usize = 0;
    while i < v.len()
        invariant
            i <= v@.len(),
            forall|k: int| 0 <= k < i ==> v@[k] != c,
        decreases v@.len() - i,
    {
        if v[i] == c {
            proof {
                lemma_find_char(v@, c);
                match find_char(v@, c) {
                    None => {
                        assert(contains_char(v@, c));
                    },
                    Some(j) => {
                        assert(j <= i) by {
                            if j > i {
                                assert(v@[i as int] != c);
                            }
                        }
                        assert(j >= i);
                    },
                }
            }
            return Some(i);
        }
        i = i + 1;
    }
    proof {
        if find_char(v@, c) is Some {
            let j = find_char(v@, c)->0;
            assert(v@[j] != c);
        }
    }
    None
}

/// A copy of the characters between two positions.
pub fn vec_subrange(v: &Vec<char>, from: usize, to: usize) -> (r: Vec<char>)
    requires
        from <= to <= v@.len(),
    ensures
        r@ == v@.subrange(from as int, to as int),
{
    let mut r: Vec<char> = Vec::new();
    let mut i: usize = from;
    while i < to
        invariant
            from <= i <= to <= v@.len(),
            r@ == v@.subrange(from as int, i as int),
        decreases to - i,
    {
        r.push(v[i]);
        i = i + 1;
        assert(r@ =~= v@.subrange(from as int, i as int));
    }
    r
}

/// Character-wise equality of a vector against a string.
pub fn chars_eq_str(v: &Vec<char>, s: &str) -> (r: bool)
    ensures
        r == (v@ == s@),
{
    let sc = str_chars(s);
    if v.len() != sc.len() {
        return false;
    }
    let mut i: usize = 0;
    while i < v.len()
        invariant
            i <= v@.len(),
            v@.len() == sc@.len(),
            sc@ == s@,
            forall|k: int| 0 <= k < i ==> v@[k] == sc@[k],
        decreases v@.len() - i,
    {
        if v[i] != sc[i] {
            return false;
        }
        i = i + 1;
    }
    assert(v@ =~= s@);
    true
}

/// The vector starts with the given literal prefix.
pub fn chars_starts_with(v: &Vec<char>, p: &str) -> (r: bool)
    ensures
        r == starts_with_seq(v@, p@),
{
    let pc = str_chars(p);
    if pc.len() > v.len() {
        return false;
    }
    let r = chars_match_at(v, &pc, 0);
    assert(matches_at(v@, p@, 0) == starts_with_seq(v@, p@));
    r
}

/// The literal occurs somewhere in the vector.
pub fn chars_contains_str(v: &Vec<char>, n: &str) -> (r: bool)
    ensures
        r == contains_seq(v@, n@),
{
    let nc = str_chars(n);
    let hn = v.len();
    let nn = nc.len();
    if nn > hn {
        assert(forall|i: int| !matches_at(v@, n@, i));
        return false;
    }
    if nn == 0 {
        assert(v@.subrange(0, 0) =~= n@);
        assert(matches_at(v@, n@, 0));
        return true;
    }
    let last: usize = hn - nn;
    let mut i: usize = 0;
    while i <= last
        invariant
            i <= last + 1,
            1 <= nn <= hn,
            hn == v@.len(),
            nn == nc@.len(),
            last == hn - nn,
            nc@ == n@,
            forall|k: int| 0 <= k < i ==> !matches_at(v@, n@, k),
        decreases last + 1 - i,
    {
        if chars_match_at(v, &nc, i) {
            return true;
        }
        i = i + 1;
    }
    assert(forall|k: int| !matches_at(v@, n@, k));
    false
}

/// At most the first `max_chars` characters of the string.
pub fn truncate_str(s: &str, max_chars: usize) -> (r: &str)
    ensures
        r@ == s@.subrange(0, if s@.len() < max_chars { s@.len() as int } else { max_chars as int }),
{
    let n = s.unicode_len();
    let to: usize = if n < max_chars {
        n
    } else {
        max_chars
    };
    s.substring_char(0, to)
}

} // verus!
