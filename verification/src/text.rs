//! Verified utilities over `&str` and `String`: comparison, search,
//! trimming, splitting, decimal parsing and decimal rendering.

use vstd::prelude::*;
use vstd::string::*;

verus! {

// ---------------------------------------------------------------------------
// Character classes
// ---------------------------------------------------------------------------

pub open spec fn is_digit(c: char) -> bool {
    48 <= c as u32 <= 57
}

pub open spec fn digit_val(c: char) -> int {
    c as u32 - 48
}

/// The whitespace characters, as Rust's `char::is_whitespace` classes
/// them (the Unicode White_Space set).
pub open spec fn is_space(c: char) -> bool {
    c == ' ' || c == '\t' || c == '\n' || c == '\r' || c == '\u{000B}' || c == '\u{000C}'
        || c == '\u{0085}' || c == '\u{00A0}' || c == '\u{1680}' || (0x2000 <= c as u32
        <= 0x200A) || c == '\u{2028}' || c == '\u{2029}' || c == '\u{202F}' || c == '\u{205F}'
        || c == '\u{3000}'
}

pub open spec fn all_digits(s: Seq<char>) -> bool {
    forall|i: int| 0 <= i < s.len() ==> is_digit(#[trigger] s[i])
}

// ---------------------------------------------------------------------------
// Equality, prefix, suffix, search
// ---------------------------------------------------------------------------

/// Character-for-character string equality.
pub fn str_eq(a: &str, b: &str) -> (r: bool)
    ensures
        r == (a@ == b@),
{
    let alen = a.unicode_len();
    let blen = b.unicode_len();
    if alen != blen {
        return false;
    }
    let mut i: usize = 0;
    while i < alen
        invariant
            alen == a@.len(),
            blen == b@.len(),
            alen == blen,
            i <= alen,
            forall|j: int| 0 <= j < i ==> a@[j] == b@[j],
        decreases alen - i,
    {
        if a.get_char(i) != b.get_char(i) {
            return false;
        }
        i += 1;
    }
    proof {
        assert(a@ =~= b@);
    }
    true
}

/// Whether `s` carries `pat` starting at character position `at`.
pub open spec fn matches_at(s: Seq<char>, pat: Seq<char>, at: int) -> bool {
    0 <= at && at + pat.len() <= s.len() && s.subrange(at, at + pat.len() as int) == pat
}

fn check_match(s: &str, pat: &str, at: usize) -> (r: bool)
    requires
        at + pat@.len() <= s@.len(),
    ensures
        r == matches_at(s@, pat@, at as int),
{
    let slen = s.unicode_len();
    let plen = pat.unicode_len();
    proof {
        assert(at + plen <= slen);
    }
    let mut i: usize = 0;
    while i < plen
        invariant
            plen == pat@.len(),
            at + plen <= s@.len(),
            s@.len() <= usize::MAX,
            i <= plen,
            forall|j: int| 0 <= j < i ==> s@[at + j] == pat@[j],
        decreases plen - i,
    {
        if s.get_char(at + i) != pat.get_char(i) {
            proof {
                assert(s@.subrange(at as int, at + pat@.len() as int)[i as int] != pat@[i as int]);
            }
            return false;
        }
        i += 1;
    }
    proof {
        assert(s@.subrange(at as int, at + pat@.len() as int) =~= pat@);
    }
    true
}

/// Position of the first occurrence of `pat` in `s`, if any.
pub open spec fn find_sub(s: Seq<char>, pat: Seq<char>) -> Option<int>
    decreases s.len(),
{
    if pat.len() == 0 {
        Some(0)
    } else if pat.len() > s.len() {
        None
    } else if s.subrange(0, pat.len() as int) == pat {
        Some(0)
    } else {
        match find_sub(s.drop_first(), pat) {
            Some(k) => Some(k + 1),
            None => None,
        }
    }
}

pub proof fn lemma_find_sub_characterization(s: Seq<char>, pat: Seq<char>)
    ensures
        match find_sub(s, pat) {
            Some(k) => matches_at(s, pat, k) && forall|j: int|
                0 <= j < k ==> !matches_at(s, pat, j),
            None => forall|j: int| !matches_at(s, pat, j),
        },
    decreases s.len(),
{
    if pat.len() == 0 {
        assert(s.subrange(0, 0) =~= pat);
    } else if pat.len() > s.len() {
        assert(forall|j: int| !matches_at(s, pat, j));
    } else if s.subrange(0, pat.len() as int) == pat {
    } else {
        lemma_find_sub_characterization(s.drop_first(), pat);
        let t = s.drop_first();
        assert forall|j: int| 1 <= j && matches_at(s, pat, j) implies matches_at(t, pat, j - 1) by {
            assert(t.subrange(j - 1, j - 1 + pat.len() as int) =~= s.subrange(
                j,
                j + pat.len() as int,
            ));
        };
        assert forall|j: int| 0 <= j && matches_at(t, pat, j) implies matches_at(s, pat, j + 1) by {
            assert(s.subrange(j + 1, j + 1 + pat.len() as int) =~= t.subrange(
                j,
                j + pat.len() as int,
            ));
        };
        match find_sub(t, pat) {
            Some(k) => {
                assert(matches_at(s, pat, k + 1));
            },
            None => {},
        }
    }
}

/// Index of the first occurrence of `pat` in `s`, or `None`.
pub fn str_find(s: &str, pat: &str) -> (r: Option<usize>)
    ensures
        match r {
            Some(i) => find_sub(s@, pat@) == Some(i as int),
            None => find_sub(s@, pat@) is None,
        },
{
    proof {
        lemma_find_sub_characterization(s@, pat@);
    }
    let slen = s.unicode_len();
    let plen = pat.unicode_len();
    if plen > slen {
        return None;
    }
    let bound = slen - plen;
    let mut i: usize = 0;
    loop
        invariant
            slen == s@.len(),
            plen == pat@.len(),
            plen <= slen,
            bound == slen - plen,
            i <= bound + 1,
            forall|j: int| 0 <= j < i ==> !matches_at(s@, pat@, j),
            match find_sub(s@, pat@) {
                Some(k) => matches_at(s@, pat@, k) && forall|j: int|
                    0 <= j < k ==> !matches_at(s@, pat@, j),
                None => forall|j: int| !matches_at(s@, pat@, j),
            },
        decreases bound + 1 - i,
    {
        if i > bound {
            return None;
        }
        if check_match(s, pat, i) {
            return Some(i);
        }
        i += 1;
    }
}

pub open spec fn contains_sub(s: Seq<char>, pat: Seq<char>) -> bool {
    find_sub(s, pat) is Some
}

/// Whether `pat` occurs anywhere in `s`.
pub fn str_contains(s: &str, pat: &str) -> (r: bool)
    ensures
        r == contains_sub(s@, pat@),
{
    str_find(s, pat).is_some()
}

/// Whether `c` occurs in `s`.
pub fn str_contains_char(s: &str, c: char) -> (r: bool)
    ensures
        r == s@.contains(c),
{
    let len = s.unicode_len();
    let mut i: usize = 0;
    while i < len
        invariant
            len == s@.len(),
            i <= len,
            forall|j: int| 0 <= j < i ==> s@[j] != c,
        decreases len - i,
    {
        if s.get_char(i) == c {
            return true;
        }
        i += 1;
    }
    false
}

pub open spec fn starts_with(s: Seq<char>, pat: Seq<char>) -> bool {
    pat.len() <= s.len() && s.subrange(0, pat.len() as int) == pat
}

pub fn str_starts_with(s: &str, pat: &str) -> (r: bool)
    ensures
        r == starts_with(s@, pat@),
{
    let slen = s.unicode_len();
    let plen = pat.unicode_len();
    if plen > slen {
        return false;
    }
    check_match(s, pat, 0)
}

pub open spec fn ends_with(s: Seq<char>, pat: Seq<char>) -> bool {
    pat.len() <= s.len() && s.subrange(s.len() - pat.len(), s.len() as int) == pat
}

pub fn str_ends_with(s: &str, pat: &str) -> (r: bool)
    ensures
        r == ends_with(s@, pat@),
{
    let slen = s.unicode_len();
    let plen = pat.unicode_len();
    if plen > slen {
        return false;
    }
    check_match(s, pat, slen - plen)
}

// ---------------------------------------------------------------------------
// Trimming
// ---------------------------------------------------------------------------

pub open spec fn trim_front(s: Seq<char>) -> Seq<char>
    decreases s.len(),
{
    if s.len() > 0 && is_space(s[0]) {
        trim_front(s.drop_first())
    } else {
        s
    }
}

pub open spec fn trim_back(s: Seq<char>) -> Seq<char>
    decreases s.len(),
{
    if s.len() > 0 && is_space(s.last()) {
        trim_back(s.drop_last())
    } else {
        s
    }
}

/// `s` with leading and trailing whitespace removed.
pub open spec fn trim_spec(s: Seq<char>) -> Seq<char> {
    trim_back(trim_front(s))
}

proof fn lemma_trim_front_subrange(s: Seq<char>, i: int)
    requires
        0 <= i <= s.len(),
        forall|j: int| 0 <= j < i ==> is_space(s[j]),
        i < s.len() ==> !is_space(s[i]),
    ensures
        trim_front(s) =~= s.subrange(i, s.len() as int),
    decreases s.len(),
{
    if s.len() > 0 && is_space(s[0]) {
        assert(i >= 1);
        lemma_trim_front_subrange(s.drop_first(), i - 1);
        assert(s.drop_first().subrange(i - 1, s.drop_first().len() as int) =~= s.subrange(
            i,
            s.len() as int,
        ));
    }
}

proof fn lemma_trim_back_subrange(s: Seq<char>, i: int)
    requires
        0 <= i <= s.len(),
        forall|j: int| i <= j < s.len() ==> is_space(s[j]),
        i > 0 ==> !is_space(s[i - 1]),
    ensures
        trim_back(s) =~= s.subrange(0, i),
    decreases s.len(),
{
    if s.len() > 0 && is_space(s.last()) {
        assert(i < s.len());
        lemma_trim_back_subrange(s.drop_last(), i);
        assert(s.drop_last().subrange(0, i) =~= s.subrange(0, i));
    }
}

/// New string holding `s` without leading or trailing whitespace.
pub fn trim(s: &str) -> (r: String)
    ensures
        r@ == trim_spec(s@),
{
    let len = s.unicode_len();
    let mut from: usize = 0;
    while from < len && is_space_exec(s.get_char(from))
        invariant
            len == s@.len(),
            from <= len,
            forall|j: int| 0 <= j < from ==> is_space(s@[j]),
        decreases len - from,
    {
        from += 1;
    }
    proof {
        lemma_trim_front_subrange(s@, from as int);
    }
    let mut to: usize = len;
    while to > from && is_space_exec(s.get_char(to - 1))
        invariant
            len == s@.len(),
            from <= to <= len,
            forall|j: int| to <= j < len ==> is_space(s@[j]),
            trim_front(s@) =~= s@.subrange(from as int, len as int),
        decreases to,
    {
        to -= 1;
    }
    proof {
        let f = trim_front(s@);
        lemma_trim_back_subrange(f, to - from);
        assert(f.subrange(0, to - from) =~= s@.subrange(from as int, to as int));
    }
    s.substring_char(from, to).to_owned()
}

pub fn is_space_exec(c: char) -> (r: bool)
    ensures
        r == is_space(c),
{
    if c == ' ' || c == '\t' || c == '\n' || c == '\r' {
        return true;
    }
    let u = c as u32;
    u == 0x000B || u == 0x000C || u == 0x0085 || u == 0x00A0 || u == 0x1680 || (0x2000 <= u && u
        <= 0x200A) || u == 0x2028 || u == 0x2029 || u == 0x202F || u == 0x205F || u == 0x3000
}

// ---------------------------------------------------------------------------
// Splitting
// ---------------------------------------------------------------------------

/// The segments of `s` delimited by `sep`, as Rust's `split` yields them:
/// an empty input gives one empty segment, a trailing separator a trailing
/// empty segment.
pub open spec fn split_char(s: Seq<char>, sep: char) -> Seq<Seq<char>>
    decreases s.len(),
{
    if s.len() == 0 {
        seq![Seq::<char>::empty()]
    } else if s[0] == sep {
        seq![Seq::<char>::empty()] + split_char(s.drop_first(), sep)
    } else {
        let rest = split_char(s.drop_first(), sep);
        seq![seq![s[0]] + rest[0]] + rest.drop_first()
    }
}

proof fn lemma_split_char_len(s: Seq<char>, sep: char)
    ensures
        split_char(s, sep).len() >= 1,
    decreases s.len(),
{
    if s.len() == 0 {
    } else {
        lemma_split_char_len(s.drop_first(), sep);
    }
}

/// Appending one character extends the last segment, or starts a new one.
proof fn lemma_split_char_snoc(s: Seq<char>, sep: char, c: char)
    ensures
        split_char(s.push(c), sep) == if c == sep {
            split_char(s, sep).push(Seq::<char>::empty())
        } else {
            let segs = split_char(s, sep);
            segs.update(segs.len() - 1, segs.last().push(c))
        },
    decreases s.len(),
{
    lemma_split_char_len(s, sep);
    if s.len() == 0 {
        let one = s.push(c);
        assert(one.drop_first() =~= Seq::<char>::empty());
        assert(split_char(one.drop_first(), sep) =~~= seq![Seq::<char>::empty()]);
        if c == sep {
            assert(split_char(one, sep) =~~= split_char(s, sep).push(Seq::<char>::empty()));
        } else {
            assert(seq![one[0]] + split_char(one.drop_first(), sep)[0] =~= seq![c]);
            assert(split_char(one, sep) =~~= split_char(s, sep).update(
                0,
                split_char(s, sep).last().push(c),
            ));
        }
    } else {
        let t = s.drop_first();
        lemma_split_char_len(t, sep);
        lemma_split_char_snoc(t, sep, c);
        assert(s.push(c).drop_first() =~= t.push(c));
        let segs_t = split_char(t, sep);
        if s[0] == sep {
            if c == sep {
                assert(split_char(s.push(c), sep) =~~= split_char(s, sep).push(
                    Seq::<char>::empty(),
                ));
            } else {
                assert(split_char(s.push(c), sep) =~~= split_char(s, sep).update(
                    split_char(s, sep).len() - 1,
                    split_char(s, sep).last().push(c),
                ));
            }
        } else {
            if c == sep {
                assert(split_char(s.push(c), sep) =~~= split_char(s, sep).push(
                    Seq::<char>::empty(),
                ));
            } else {
                if segs_t.len() == 1 {
                    assert(split_char(s.push(c), sep) =~~= split_char(s, sep).update(
                        split_char(s, sep).len() - 1,
                        split_char(s, sep).last().push(c),
                    ));
                } else {
                    assert(split_char(s.push(c), sep) =~~= split_char(s, sep).update(
                        split_char(s, sep).len() - 1,
                        split_char(s, sep).last().push(c),
                    ));
                }
            }
        }
    }
}

/// Splits `s` at every occurrence of `sep`.
pub fn split(s: &str, sep: char) -> (r: Vec<String>)
    ensures
        r.deep_view() == split_char(s@, sep),
{
    let len = s.unicode_len();
    let mut out: Vec<String> = Vec::new();
    let mut cur = String::new();
    let mut i: usize = 0;
    while i < len
        invariant
            len == s@.len(),
            i <= len,
            split_char(s@.subrange(0, i as int), sep) == out.deep_view().push(cur@),
        decreases len - i,
    {
        let c = s.get_char(i);
        proof {
            assert(s@.subrange(0, i + 1) =~= s@.subrange(0, i as int).push(s@[i as int]));
            lemma_split_char_snoc(s@.subrange(0, i as int), sep, s@[i as int]);
        }
        if c == sep {
            out.push(cur);
            cur = String::new();
            proof {
                assert(out.deep_view().push(cur@) =~~= split_char(s@.subrange(0, i + 1), sep));
            }
        } else {
            cur.push(c);
            proof {
                let prev = split_char(s@.subrange(0, i as int), sep);
                assert(prev.len() == out.deep_view().push(cur@).len());
                assert(out.deep_view().push(cur@) =~~= split_char(s@.subrange(0, i + 1), sep));
            }
        }
        i += 1;
    }
    out.push(cur);
    proof {
        assert(s@.subrange(0, len as int) =~= s@);
        assert(out.deep_view() =~~= split_char(s@, sep));
    }
    out
}

/// The characters after the last occurrence of `sep`, or all of `s` when
/// `sep` does not occur.
pub open spec fn after_last(s: Seq<char>, sep: char) -> Seq<char>
    decreases s.len(),
{
    if s.len() == 0 {
        s
    } else if s.last() == sep {
        Seq::<char>::empty()
    } else {
        after_last(s.drop_last(), sep).push(s.last())
    }
}

proof fn lemma_after_last_no_sep(s: Seq<char>, sep: char)
    requires
        forall|j: int| 0 <= j < s.len() ==> s[j] != sep,
    ensures
        after_last(s, sep) =~= s,
    decreases s.len(),
{
    if s.len() > 0 {
        lemma_after_last_no_sep(s.drop_last(), sep);
    }
}

proof fn lemma_after_last_at(s: Seq<char>, sep: char, i: int)
    requires
        0 <= i < s.len(),
        s[i] == sep,
        forall|j: int| i < j < s.len() ==> s[j] != sep,
    ensures
        after_last(s, sep) =~= s.subrange(i + 1, s.len() as int),
    decreases s.len(),
{
    if s.last() == sep {
        assert(i == s.len() - 1);
    } else {
        lemma_after_last_at(s.drop_last(), sep, i);
        assert(s.drop_last().subrange(i + 1, s.len() - 1).push(s.last()) =~= s.subrange(
            i + 1,
            s.len() as int,
        ));
    }
}

/// The substring after the last occurrence of `sep`.
pub fn str_after_last(s: &str, sep: char) -> (r: String)
    ensures
        r@ == after_last(s@, sep),
{
    let len = s.unicode_len();
    let mut i: usize = len;
    while i > 0
        invariant
            len == s@.len(),
            i <= len,
            forall|j: int| i <= j < len ==> s@[j] != sep,
        decreases i,
    {
        if s.get_char(i - 1) == sep {
            proof {
                lemma_after_last_at(s@, sep, i - 1);
            }
            return s.substring_char(i, len).to_owned();
        }
        i -= 1;
    }
    proof {
        lemma_after_last_no_sep(s@, sep);
    }
    s.substring_char(0, len).to_owned()
}

// ---------------------------------------------------------------------------
// Entity decoding
// ---------------------------------------------------------------------------

pub open spec fn quot_entity() -> Seq<char> {
    seq!['&', 'q', 'u', 'o', 't', ';']
}

/// `s` with every `&quot;` entity replaced by a double quote, scanning
/// left to right.
pub open spec fn decode_quot_spec(s: Seq<char>) -> Seq<char>
    decreases s.len(),
{
    if s.len() == 0 {
        s
    } else if s.len() >= 6 && s.subrange(0, 6) == quot_entity() {
        seq!['"'] + decode_quot_spec(s.skip(6))
    } else {
        seq![s[0]] + decode_quot_spec(s.drop_first())
    }
}

/// Replaces every `&quot;` entity with a double quote.
pub fn decode_quot(s: &str) -> (r: String)
    ensures
        r@ == decode_quot_spec(s@),
{
    proof {
        reveal_strlit("&quot;");
        assert("&quot;"@ =~= quot_entity());
    }
    let len = s.unicode_len();
    let mut out = String::new();
    let mut i: usize = 0;
    proof {
        assert(s@.skip(0) =~= s@);
        assert(Seq::<char>::empty() + decode_quot_spec(s@) =~= decode_quot_spec(s@));
    }
    while i < len
        invariant
            len == s@.len(),
            i <= len,
            "&quot;"@ == quot_entity(),
            decode_quot_spec(s@) == out@ + decode_quot_spec(s@.skip(i as int)),
        decreases len - i,
    {
        let ghost rest = s@.skip(i as int);
        if len - i >= 6 && check_match(s, "&quot;", i) {
            proof {
                reveal_strlit("&quot;");
                assert("&quot;"@ =~= quot_entity());
                assert(rest.subrange(0, 6) =~= s@.subrange(i as int, i + 6));
                assert(s@.subrange(i as int, i + 6) =~= quot_entity());
                assert(rest.skip(6) =~= s@.skip(i + 6));
                assert(out@ + (seq!['"'] + decode_quot_spec(s@.skip(i + 6))) =~= out@.push('"')
                    + decode_quot_spec(s@.skip(i + 6)));
            }
            out.push('"');
            i += 6;
        } else {
            proof {
                reveal_strlit("&quot;");
                if rest.len() >= 6 {
                    assert("&quot;"@ =~= quot_entity());
                    assert(rest.subrange(0, 6) =~= s@.subrange(i as int, i + 6));
                }
                assert(rest[0] == s@[i as int]);
                assert(rest.drop_first() =~= s@.skip(i + 1));
                assert(out@ + (seq![s@[i as int]] + decode_quot_spec(s@.skip(i + 1))) =~= out@.push(
                    s@[i as int],
                ) + decode_quot_spec(s@.skip(i + 1)));
            }
            let c = s.get_char(i);
            out.push(c);
            i += 1;
        }
    }
    proof {
        assert(s@.skip(len as int) =~= Seq::<char>::empty());
        assert(out@ + Seq::<char>::empty() =~= out@);
    }
    out
}

// ---------------------------------------------------------------------------
// Decimal parsing
// ---------------------------------------------------------------------------

/// Value of a string of decimal digits, most significant first.
pub open spec fn dec_value(s: Seq<char>) -> int
    decreases s.len(),
{
    if s.len() == 0 {
        0
    } else {
        dec_value(s.drop_last()) * 10 + digit_val(s.last())
    }
}

pub proof fn lemma_dec_value_nonneg(s: Seq<char>)
    requires
        all_digits(s),
    ensures
        dec_value(s) >= 0,
    decreases s.len(),
{
    if s.len() > 0 {
        lemma_dec_value_nonneg(s.drop_last());
    }
}

/// Extending a digit string never lowers its value.
proof fn lemma_dec_value_prefix(s: Seq<char>, n: int)
    requires
        all_digits(s),
        0 <= n <= s.len(),
    ensures
        dec_value(s.subrange(0, n)) <= dec_value(s),
    decreases s.len() - n,
{
    if n < s.len() {
        let p = s.subrange(0, n + 1);
        assert(p.drop_last() =~= s.subrange(0, n));
        lemma_dec_value_nonneg(s.subrange(0, n));
        assert(dec_value(s.subrange(0, n)) <= dec_value(p));
        lemma_dec_value_prefix(s, n + 1);
    } else {
        assert(s.subrange(0, n) =~= s);
    }
}

/// Meaning of a decimal integer literal with an optional sign, as Rust's
/// integer `parse` reads it: `None` on an empty or non-digit body.
pub open spec fn parse_int_spec(s: Seq<char>) -> Option<int> {
    let body = if s.len() > 0 && (s[0] == '-' || s[0] == '+') {
        s.drop_first()
    } else {
        s
    };
    if body.len() > 0 && all_digits(body) {
        if s.len() > 0 && s[0] == '-' {
            Some(-dec_value(body))
        } else {
            Some(dec_value(body))
        }
    } else {
        None
    }
}

pub open spec fn parse_i64_spec(s: Seq<char>) -> Option<i64> {
    match parse_int_spec(s) {
        Some(v) => if i64::MIN <= v <= i64::MAX {
            Some(v as i64)
        } else {
            None
        },
        None => None,
    }
}

pub open spec fn parse_i32_spec(s: Seq<char>) -> Option<i32> {
    match parse_int_spec(s) {
        Some(v) => if i32::MIN <= v <= i32::MAX {
            Some(v as i32)
        } else {
            None
        },
        None => None,
    }
}

pub open spec fn parse_u32_spec(s: Seq<char>) -> Option<u32> {
    match parse_int_spec(s) {
        Some(v) => if 0 <= v <= u32::MAX {
            Some(v as u32)
        } else {
            None
        },
        None => None,
    }
}

fn is_digit_exec(c: char) -> (r: bool)
    ensures
        r == is_digit(c),
{
    let u = c as u32;
    48 <= u && u <= 57
}

/// Value of the digit characters of `s` between `from` and `to`;
/// `None` when a non-digit appears, the range is empty, or the value
/// exceeds `u64::MAX`.
fn parse_digit_range(s: &str, from: usize, to: usize) -> (r: Option<u64>)
    requires
        from <= to <= s@.len(),
    ensures
        ({
            let d = s@.subrange(from as int, to as int);
            match r {
                Some(v) => d.len() > 0 && all_digits(d) && v == dec_value(d),
                None => d.len() == 0 || !all_digits(d) || dec_value(d) > u64::MAX,
            }
        }),
{
    let ghost d = s@.subrange(from as int, to as int);
    if from == to {
        return None;
    }
    let mut acc: u64 = 0;
    let mut i: usize = from;
    while i < to
        invariant
            from <= i <= to <= s@.len(),
            d == s@.subrange(from as int, to as int),
            all_digits(d.subrange(0, i - from)),
            acc == dec_value(d.subrange(0, i - from)),
        decreases to - i,
    {
        let c = s.get_char(i);
        proof {
            assert(d[i - from] == s@[i as int]);
        }
        if !is_digit_exec(c) {
            return None;
        }
        let dv: u64 = (c as u32 / 1) as u64;
        let dv: u64 = dv - 48;
        let next = match acc.checked_mul(10) {
            Some(m) => m.checked_add(dv),
            None => None,
        };
        proof {
            let p = d.subrange(0, i - from + 1);
            assert(p.drop_last() =~= d.subrange(0, i - from));
            assert(p.last() == d[i - from]);
        }
        match next {
            Some(v) => {
                acc = v;
            },
            None => {
                proof {
                    let ghost n = i - from + 1;
                    assert(all_digits(d.subrange(0, n)));
                    assert(dec_value(d.subrange(0, n)) > u64::MAX);
                    if all_digits(d) {
                        lemma_dec_value_prefix(d, n);
                    }
                }
                return None;
            },
        }
        i += 1;
    }
    proof {
        assert(d.subrange(0, to - from) =~= d);
    }
    Some(acc)
}

/// Powers of ten.
pub open spec fn pow10(k: int) -> int
    decreases k,
{
    if k <= 0 {
        1
    } else {
        10 * pow10(k - 1)
    }
}

/// A digit string's value stays under ten to its length.
pub proof fn lemma_dec_value_bound(s: Seq<char>)
    requires
        all_digits(s),
    ensures
        0 <= dec_value(s) < pow10(s.len() as int),
    decreases s.len(),
{
    if s.len() > 0 {
        lemma_dec_value_bound(s.drop_last());
    }
}

/// Reads an unsigned decimal digit string; `None` when empty, when a
/// non-digit appears, or when the value exceeds `u64::MAX`.
pub fn parse_u64_digits(s: &str) -> (r: Option<u64>)
    ensures
        match r {
            Some(v) => s@.len() > 0 && all_digits(s@) && v == dec_value(s@),
            None => s@.len() == 0 || !all_digits(s@) || dec_value(s@) > u64::MAX,
        },
{
    let len = s.unicode_len();
    proof {
        assert(s@.subrange(0, len as int) =~= s@);
    }
    parse_digit_range(s, 0, len)
}

/// Reads a decimal `i64` with optional sign, as `str::parse::<i64>` does.
pub fn parse_i64(s: &str) -> (r: Option<i64>)
    ensures
        r == parse_i64_spec(s@),
{
    let len = s.unicode_len();
    if len == 0 {
        return None;
    }
    let c0 = s.get_char(0);
    let neg = c0 == '-';
    let from: usize = if neg || c0 == '+' {
        1
    } else {
        0
    };
    let ghost body = if neg || c0 == '+' {
        s@.drop_first()
    } else {
        s@
    };
    proof {
        assert(body =~= s@.subrange(from as int, len as int));
    }
    match parse_digit_range(s, from, len) {
        Some(mag) => {
            if neg {
                if mag <= 9223372036854775808u64 {
                    proof {
                        lemma_dec_value_nonneg(body);
                    }
                    if mag == 9223372036854775808u64 {
                        Some(i64::MIN)
                    } else {
                        Some(-(mag as i64))
                    }
                } else {
                    None
                }
            } else {
                if mag <= 9223372036854775807u64 {
                    Some(mag as i64)
                } else {
                    None
                }
            }
        },
        None => None,
    }
}

/// Reads a decimal `i32` with optional sign, as `str::parse::<i32>` does.
pub fn parse_i32(s: &str) -> (r: Option<i32>)
    ensures
        r == parse_i32_spec(s@),
{
    match parse_i64(s) {
        Some(v) => {
            if -2147483648i64 <= v && v <= 2147483647i64 {
                Some(v as i32)
            } else {
                None
            }
        },
        None => {
            proof {
                if parse_int_spec(s@) is Some {
                    let body = if s@.len() > 0 && (s@[0] == '-' || s@[0] == '+') {
                        s@.drop_first()
                    } else {
                        s@
                    };
                    lemma_dec_value_nonneg(body);
                }
            }
            None
        },
    }
}

/// Reads a decimal `u32` with optional sign, as `str::parse::<u32>` does
/// for in-range values.
pub fn parse_u32(s: &str) -> (r: Option<u32>)
    ensures
        r == parse_u32_spec(s@),
{
    match parse_i64(s) {
        Some(v) => {
            if 0i64 <= v && v <= 4294967295i64 {
                Some(v as u32)
            } else {
                None
            }
        },
        None => {
            proof {
                if parse_int_spec(s@) is Some {
                    let body = if s@.len() > 0 && (s@[0] == '-' || s@[0] == '+') {
                        s@.drop_first()
                    } else {
                        s@
                    };
                    lemma_dec_value_nonneg(body);
                }
            }
            None
        },
    }
}

// ---------------------------------------------------------------------------
// Duration texts
// ---------------------------------------------------------------------------

/// The characters a plain duration text may carry: digits, the duration
/// designators, and the two decimal separators. No sign, no exponent.
pub open spec fn duration_char(c: char) -> bool {
    is_digit(c) || c == 'P' || c == 'T' || c == 'Y' || c == 'M' || c == 'W' || c == 'D' || c == 'H'
        || c == 'S' || c == '.' || c == ','
}

/// A duration text that plain arithmetic can take: only plain component
/// characters, and no run of ten or more digits, so every numeric
/// component stays far below the range where calendar arithmetic on it
/// could overflow.
pub open spec fn duration_text_ok(s: Seq<char>) -> bool {
    (forall|i: int| 0 <= i < s.len() ==> duration_char(#[trigger] s[i])) && (forall|i: int|
        0 <= i && i + 10 <= s.len() ==> !all_digits(#[trigger] s.subrange(i, i + 10)))
}

fn duration_char_exec(c: char) -> (r: bool)
    ensures
        r == duration_char(c),
{
    is_digit_exec(c) || c == 'P' || c == 'T' || c == 'Y' || c == 'M' || c == 'W' || c == 'D' || c
        == 'H' || c == 'S' || c == '.' || c == ','
}

/// Checks that a duration text is plain and its components small: only
/// digits, designators and decimal separators, with every digit run
/// shorter than ten.
#[verifier::loop_isolation(false)]
pub fn duration_text_bounded(s: &str) -> (r: bool)
    ensures
        r == duration_text_ok(s@),
{
    let len = s.unicode_len();
    let mut run: usize = 0;
    let mut i: usize = 0;
    while i < len
        invariant
            i <= len,
            run <= 9,
            run <= i,
            forall|k: int| 0 <= k < i ==> duration_char(#[trigger] s@[k]),
            forall|k: int| i - run <= k < i ==> is_digit(#[trigger] s@[k]),
            i - run - 1 >= 0 ==> !is_digit(s@[i - run - 1]),
            forall|a: int| 0 <= a && a + 10 <= i ==> !all_digits(
                #[trigger] s@.subrange(a, a + 10),
            ),
        decreases len - i,
    {
        let c = s.get_char(i);
        if !duration_char_exec(c) {
            return false;
        }
        if is_digit_exec(c) {
            if run == 9 {
                proof {
                    let a = i - 9;
                    assert(all_digits(s@.subrange(a, a + 10))) by {
                        assert forall|j: int| 0 <= j < 10 implies is_digit(
                            #[trigger] s@.subrange(a, a + 10)[j],
                        ) by {
                            assert(s@.subrange(a, a + 10)[j] == s@[a + j]);
                        };
                    };
                    assert(!duration_text_ok(s@));
                }
                return false;
            }
            run += 1;
        } else {
            run = 0;
        }
        proof {
            assert forall|a: int| 0 <= a && a + 10 <= i + 1 implies !all_digits(
                #[trigger] s@.subrange(a, a + 10),
            ) by {
                if a + 10 == i + 1 {
                    if is_digit(s@[i as int]) {
                        assert(a <= i - run < a + 10);
                        assert(!is_digit(s@[i - run]));
                        assert(s@.subrange(a, a + 10)[i - run - a] == s@[i - run]);
                    } else {
                        assert(s@.subrange(a, a + 10)[i - a] == s@[i as int]);
                    }
                }
            };
        }
        i += 1;
    }
    true
}

// ---------------------------------------------------------------------------
// Decimal rendering
// ---------------------------------------------------------------------------

pub open spec fn digit_char(d: int) -> char {
    if d == 0 {
        '0'
    } else if d == 1 {
        '1'
    } else if d == 2 {
        '2'
    } else if d == 3 {
        '3'
    } else if d == 4 {
        '4'
    } else if d == 5 {
        '5'
    } else if d == 6 {
        '6'
    } else if d == 7 {
        '7'
    } else if d == 8 {
        '8'
    } else {
        '9'
    }
}

/// Decimal rendering of a nonnegative integer, no leading zeros.
pub open spec fn dec_str(n: int) -> Seq<char>
    decreases n,
{
    if n < 10 {
        seq![digit_char(n)]
    } else {
        dec_str(n / 10).push(digit_char(n % 10))
    }
}

/// Decimal rendering of a possibly negative integer.
pub open spec fn int_str(n: int) -> Seq<char> {
    if n < 0 {
        seq!['-'] + dec_str(-n)
    } else {
        dec_str(n)
    }
}

fn digit_char_exec(d: u64) -> (r: char)
    requires
        d < 10,
    ensures
        r == digit_char(d as int),
{
    if d == 0 {
        '0'
    } else if d == 1 {
        '1'
    } else if d == 2 {
        '2'
    } else if d == 3 {
        '3'
    } else if d == 4 {
        '4'
    } else if d == 5 {
        '5'
    } else if d == 6 {
        '6'
    } else if d == 7 {
        '7'
    } else if d == 8 {
        '8'
    } else {
        '9'
    }
}

fn push_u64_digits(n: u64, out: &mut String)
    ensures
        final(out)@ == old(out)@ + dec_str(n as int),
    decreases n,
{
    if n < 10 {
        out.push(digit_char_exec(n));
        proof {
            assert(old(out)@.push(digit_char(n as int)) =~= old(out)@ + dec_str(n as int));
        }
    } else {
        push_u64_digits(n / 10, out);
        out.push(digit_char_exec(n % 10));
        proof {
            assert((old(out)@ + dec_str(n as int / 10)).push(digit_char(n as int % 10)) =~= old(
                out,
            )@ + dec_str(n as int));
        }
    }
}

/// Decimal rendering of `n`.
pub fn u64_to_string(n: u64) -> (r: String)
    ensures
        r@ == dec_str(n as int),
{
    let mut out = String::new();
    push_u64_digits(n, &mut out);
    proof {
        assert(Seq::<char>::empty() + dec_str(n as int) =~= dec_str(n as int));
    }
    out
}

/// Decimal rendering of `n`, with a leading minus sign when negative.
pub fn i64_to_string(n: i64) -> (r: String)
    ensures
        r@ == int_str(n as int),
{
    if n >= 0 {
        u64_to_string(n as u64)
    } else {
        let mag: u64 = if n == i64::MIN {
            9223372036854775808u64
        } else {
            (-n) as u64
        };
        let mut out = String::new();
        out.push('-');
        push_u64_digits(mag, &mut out);
        proof {
            assert(Seq::<char>::empty().push('-') + dec_str(mag as int) =~= int_str(n as int));
        }
        out
    }
}

/// Decimal rendering of `n`.
pub fn i32_to_string(n: i32) -> (r: String)
    ensures
        r@ == int_str(n as int),
{
    i64_to_string(n as i64)
}

/// A value's characters with every single quote doubled.
pub open spec fn attr_quote_escaped(s: Seq<char>) -> Seq<char>
    decreases s.len(),
{
    if s.len() == 0 {
        s
    } else if s[0] == '\'' {
        seq!['\'', '\''] + attr_quote_escaped(s.drop_first())
    } else {
        seq![s[0]] + attr_quote_escaped(s.drop_first())
    }
}

/// The literals `true` / `false`.
pub open spec fn bool_str(b: bool) -> Seq<char> {
    if b {
        "true"@
    } else {
        "false"@
    }
}

/// Rendering of a boolean as the literals `true` / `false`.
pub fn bool_to_string(b: bool) -> (r: String)
    ensures
        r@ == bool_str(b),
{
    if b {
        "true".to_owned()
    } else {
        "false".to_owned()
    }
}

} // verus!
