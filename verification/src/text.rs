use vstd::prelude::*;
use vstd::string::StringSliceAdditionalSpecFns;

verus! {

/// Appends one character to a string (`String::push`).
#[verifier::external_body]
pub fn push_char(s: &mut String, c: char)
    ensures
        final(s)@ == old(s)@.push(c),
{
    s.push(c);
}

/// The characters of a string slice, in order.
pub fn chars_of(s: &str) -> (v: Vec<char>)
    ensures
        v@ == s@,
{
    let mut v: Vec<char> = Vec::new();
    for c in it: s.chars()
        invariant
            v@ == it.seq().take(it.index() as int),
            it.seq() == s@,
    {
        v.push(c);
    }
    v
}

} // verus!

verus! {

/// Builds a string out of `v[lo..hi]`.
pub fn string_from_chars(v: &Vec<char>, lo: usize, hi: usize) -> (s: String)
    requires
        lo <= hi <= v.len(),
    ensures
        s@ == v@.subrange(lo as int, hi as int),
{
    let mut s = String::new();
    let mut i = lo;
    while i < hi
        invariant
            lo <= i <= hi <= v.len(),
            s@ == v@.subrange(lo as int, i as int),
        decreases hi - i,
    {
        push_char(&mut s, v[i]);
        assert(v@.subrange(lo as int, i + 1) == v@.subrange(lo as int, i as int).push(v@[i as int]));
        i = i + 1;
    }
    s
}

/// Whether two string slices hold the same characters.
pub fn str_eq(a: &str, b: &str) -> (r: bool)
    ensures
        r == (a@ == b@),
{
    let va = chars_of(a);
    let vb = chars_of(b);
    if va.len() != vb.len() {
        return false;
    }
    let mut i: usize = 0;
    while i < va.len()
        invariant
            va@ == a@,
            vb@ == b@,
            va.len() == vb.len(),
            0 <= i <= va.len(),
            forall|j: int| 0 <= j < i ==> va@[j] == vb@[j],
        decreases va.len() - i,
    {
        if va[i] != vb[i] {
            return false;
        }
        i = i + 1;
    }
    assert(a@ =~= b@);
    true
}

/// The decimal digit `d` as a character.
pub open spec fn digit_char(d: nat) -> char {
    (48 + d) as char
}

/// The decimal representation of `n`, without leading zeros.
pub open spec fn decimal(n: nat) -> Seq<char>
    decreases n,
{
    if n < 10 {
        seq![digit_char(n)]
    } else {
        decimal(n / 10).push(digit_char(n % 10))
    }
}

/// Appends the decimal representation of `n` to `out`.
pub fn push_decimal(out: &mut String, n: u64)
    ensures
        final(out)@ == old(out)@ + decimal(n as nat),
    decreases n,
{
    if n >= 10 {
        push_decimal(out, n / 10);
    }
    let d = (n % 10) as u8;
    push_char(out, (48u8 + d) as char);
    assert(final(out)@ =~= old(out)@ + decimal(n as nat));
}

} // verus!

verus! {

/// Whether `c` is one of `0`..`9`.
pub open spec fn is_digit(c: char) -> bool {
    '0' <= c <= '9'
}

/// Whether every character of `s` is a decimal digit.
pub open spec fn all_digits(s: Seq<char>) -> bool {
    forall|i: int| 0 <= i < s.len() ==> is_digit(#[trigger] s[i])
}

/// The number that the digits of `s` spell.
pub open spec fn decimal_value(s: Seq<char>) -> nat
    decreases s.len(),
{
    if s.len() == 0 {
        0
    } else {
        decimal_value(s.drop_last()) * 10 + ((s.last() as int - 48) as nat)
    }
}

/// The digits of an unsigned number as Rust's `str::parse` reads them: one
/// leading `+` may stand before them.
pub open spec fn unsigned_digits(s: Seq<char>) -> Seq<char> {
    if s.len() > 0 && s[0] == '+' {
        s.drop_first()
    } else {
        s
    }
}

/// What `str::parse` gives for an unsigned integer type whose largest value
/// is `max`: the value, or `None` for an empty, non-numeric or too large text.
pub open spec fn parse_unsigned(s: Seq<char>, max: nat) -> Option<nat> {
    let d = unsigned_digits(s);
    if d.len() > 0 && all_digits(d) && decimal_value(d) <= max {
        Some(decimal_value(d))
    } else {
        None
    }
}

proof fn lemma_decimal_value_grows(s: Seq<char>, k: int)
    requires
        all_digits(s),
        0 <= k <= s.len(),
    ensures
        decimal_value(s.take(k)) <= decimal_value(s),
    decreases s.len() - k,
{
    if k < s.len() {
        lemma_decimal_value_grows(s, k + 1);
        assert(s.take(k + 1).drop_last() =~= s.take(k));
        assert(is_digit(s[k]));
    } else {
        assert(s.take(k) =~= s);
    }
}

/// Parses an unsigned decimal number no larger than `max`, as `str::parse`
/// does for an unsigned integer type whose largest value is `max`.
pub fn parse_unsigned_exec(s: &str, max: u64) -> (r: Option<u64>)
    ensures
        r matches Some(v) ==> parse_unsigned(s@, max as nat) == Some(v as nat),
        r is None ==> parse_unsigned(s@, max as nat) is None,
{
    let v = chars_of(s);
    let mut start: usize = 0;
    if v.len() > 0 && v[0] == '+' {
        start = 1;
    }
    let ghost d = unsigned_digits(s@);
    proof {
        assert(d =~= v@.subrange(start as int, v@.len() as int));
    }
    if start >= v.len() {
        return None;
    }
    let mut acc: u64 = 0;
    let mut i: usize = start;
    while i < v.len()
        invariant
            v@ == s@,
            start <= i <= v.len(),
            d == v@.subrange(start as int, v@.len() as int),
            d == unsigned_digits(s@),
            all_digits(d.take(i - start)),
            acc as nat == decimal_value(d.take(i - start)),
            acc <= max,
        decreases v.len() - i,
    {
        let c = v[i];
        if !('0' <= c && c <= '9') {
            proof {
                assert(d[i - start] == c);
                assert(!is_digit(d[i - start]));
                assert(!all_digits(d));
            }
            return None;
        }
        let digit = (c as u32 - 48) as u64;
        proof {
            assert(d.take(i - start + 1).drop_last() =~= d.take(i - start));
            assert(d.take(i - start + 1).last() == c);
        }
        if digit > max || acc > (max - digit) / 10 {
            proof {
                if digit <= max {
                    assert(acc * 10 + digit > max) by (nonlinear_arith)
                        requires
                            digit <= max,
                            acc > (max - digit) / 10,
                    ;
                }
                assert(decimal_value(d.take(i - start + 1)) > max);
                if all_digits(d) {
                    lemma_decimal_value_grows(d, i - start + 1);
                }
            }
            return None;
        }
        proof {
            assert(acc * 10 + digit <= max) by (nonlinear_arith)
                requires
                    digit <= max,
                    acc <= (max - digit) / 10,
            ;
        }
        acc = acc * 10 + digit;
        i = i + 1;
    }
    proof {
        assert(d.take(i - start) =~= d);
    }
    Some(acc)
}

} // verus!

verus! {

/// Whether `s` begins with `p`.
pub open spec fn starts_with(s: Seq<char>, p: Seq<char>) -> bool {
    p.len() <= s.len() && s.take(p.len() as int) == p
}

/// Whether `s` ends with `p`.
pub open spec fn ends_with(s: Seq<char>, p: Seq<char>) -> bool {
    p.len() <= s.len() && s.skip(s.len() - p.len()) == p
}

/// Whether `p` occurs in `s`.
pub open spec fn contains_seq(s: Seq<char>, p: Seq<char>) -> bool {
    exists|i: int| 0 <= i <= s.len() - p.len() && #[trigger] s.subrange(i, i + p.len()) == p
}

/// Whether `p` occurs in `v` at position `start`.
pub fn matches_at(v: &Vec<char>, start: usize, p: &Vec<char>) -> (r: bool)
    ensures
        r == (start + p.len() <= v.len() && v@.subrange(start as int, start + p.len()) == p@),
{
    if start > v.len() || p.len() > v.len() - start {
        return false;
    }
    let mut j: usize = 0;
    while j < p.len()
        invariant
            start + p.len() <= v.len(),
            0 <= j <= p.len(),
            forall|k: int| 0 <= k < j ==> v@[start + k] == p@[k],
        decreases p.len() - j,
    {
        if v[start + j] != p[j] {
            assert(v@.subrange(start as int, start + p.len())[j as int] != p@[j as int]);
            return false;
        }
        j = j + 1;
    }
    assert(v@.subrange(start as int, start + p.len()) =~= p@);
    true
}

/// Whether `v` begins with `p`.
pub fn vec_starts_with(v: &Vec<char>, p: &Vec<char>) -> (r: bool)
    ensures
        r == starts_with(v@, p@),
{
    let r = matches_at(v, 0, p);
    proof {
        if p@.len() <= v@.len() {
            assert(v@.take(p@.len() as int) =~= v@.subrange(0, p@.len() as int));
        }
    }
    r
}

/// Whether `v` ends with `p`.
pub fn vec_ends_with(v: &Vec<char>, p: &Vec<char>) -> (r: bool)
    ensures
        r == ends_with(v@, p@),
{
    if p.len() > v.len() {
        return false;
    }
    let r = matches_at(v, v.len() - p.len(), p);
    proof {
        assert(v@.skip(v@.len() - p@.len()) =~= v@.subrange(v@.len() - p@.len(), v@.len() as int));
    }
    r
}

/// Whether `p` occurs in `v`.
pub fn vec_contains(v: &Vec<char>, p: &Vec<char>) -> (r: bool)
    ensures
        r == contains_seq(v@, p@),
{
    if p.len() > v.len() {
        return false;
    }
    let last = v.len() - p.len();
    let mut i: usize = 0;
    loop
        invariant
            last == v.len() - p.len(),
            0 <= i <= last,
            forall|k: int| 0 <= k < i ==> #[trigger] v@.subrange(k, k + p@.len()) != p@,
        decreases last - i,
    {
        if matches_at(v, i, p) {
            return true;
        }
        if i == last {
            return false;
        }
        i = i + 1;
    }
}

/// Drops every trailing `c` from `s`.
pub open spec fn trim_end(s: Seq<char>, c: char) -> Seq<char>
    decreases s.len(),
{
    if s.len() > 0 && s.last() == c {
        trim_end(s.drop_last(), c)
    } else {
        s
    }
}

proof fn lemma_trim_end_take(s: Seq<char>, c: char, k: int)
    requires
        0 <= k <= s.len(),
        forall|j: int| k <= j < s.len() ==> s[j] == c,
    ensures
        trim_end(s, c) == trim_end(s.take(k), c),
    decreases s.len() - k,
{
    if k < s.len() {
        assert(s.drop_last().take(k) =~= s.take(k));
        lemma_trim_end_take(s.drop_last(), c, k);
    } else {
        assert(s.take(k) =~= s);
    }
}

/// `s` without its trailing `c` characters (`str::trim_end_matches`).
pub fn trim_end_char(s: &str, c: char) -> (r: String)
    ensures
        r@ == trim_end(s@, c),
{
    let v = chars_of(s);
    let mut n: usize = v.len();
    proof {
        assert(v@.take(n as int) =~= s@);
    }
    while n > 0 && v[n - 1] == c
        invariant
            v@ == s@,
            n <= v.len(),
            trim_end(s@, c) == trim_end(v@.take(n as int), c),
        decreases n,
    {
        proof {
            assert(v@.take(n as int).drop_last() =~= v@.take(n - 1));
        }
        n = n - 1;
    }
    proof {
        if n > 0 {
            assert(v@.take(n as int).last() == v@[n - 1]);
        }
    }
    string_from_chars(&v, 0, n)
}

} // verus!

verus! {

/// The index of the last `c` in `s`, or -1.
pub open spec fn last_index_of(s: Seq<char>, c: char) -> int
    decreases s.len(),
{
    if s.len() == 0 {
        -1
    } else if s.last() == c {
        s.len() - 1
    } else {
        last_index_of(s.drop_last(), c)
    }
}

pub proof fn lemma_last_index_of(s: Seq<char>, c: char)
    ensures
        -1 <= last_index_of(s, c) < s.len(),
        last_index_of(s, c) >= 0 ==> s[last_index_of(s, c)] == c,
        forall|j: int| last_index_of(s, c) < j < s.len() ==> s[j] != c,
    decreases s.len(),
{
    if s.len() > 0 && s.last() != c {
        lemma_last_index_of(s.drop_last(), c);
        assert forall|j: int| last_index_of(s, c) < j < s.len() implies s[j] != c by {
            if j < s.len() - 1 {
                assert(s.drop_last()[j] == s[j]);
            }
        }
    }
}

/// The pieces of `s` between occurrences of `c` (`str::split` with a
/// character): there is always at least one, and empty pieces are kept.
pub open spec fn split_on(s: Seq<char>, c: char) -> Seq<Seq<char>>
    decreases s.len(),
{
    let i = last_index_of(s, c);
    if i < 0 || i >= s.len() {
        seq![s]
    } else {
        split_on(s.take(i), c).push(s.skip(i + 1))
    }
}

pub proof fn lemma_split_on_nonempty(s: Seq<char>, c: char)
    ensures
        split_on(s, c).len() >= 1,
    decreases s.len(),
{
    lemma_last_index_of(s, c);
    let i = last_index_of(s, c);
    if 0 <= i < s.len() {
        lemma_split_on_nonempty(s.take(i), c);
    }
}

/// Splits `v[0..n]` at every `c` (see `split_on`).
fn split_prefix(v: &Vec<char>, n: usize, c: char) -> (r: Vec<String>)
    requires
        n <= v.len(),
    ensures
        r@.map_values(|s: String| s@) == split_on(v@.take(n as int), c),
    decreases n,
{
    let ghost s = v@.take(n as int);
    proof {
        lemma_last_index_of(s, c);
    }
    let mut i: usize = n;
    while i > 0 && v[i - 1] != c
        invariant
            s == v@.take(n as int),
            i <= n <= v.len(),
            forall|j: int| i <= j < n ==> v@[j] != c,
        decreases i,
    {
        i = i - 1;
    }
    let ghost li: int = i as int - 1;
    proof {
        assert(li == last_index_of(s, c)) by {
            let ls = last_index_of(s, c);
            if ls > li {
                assert(s[ls] == c);
                assert(v@[ls] == s[ls]);
            } else if ls < li {
                assert(s[li] == c);
            }
        }
    }
    let piece = string_from_chars(v, i, n);
    if i == 0 {
        let mut r: Vec<String> = Vec::new();
        r.push(piece);
        proof {
            assert(piece@ =~= s);
            assert(r@.map_values(|s: String| s@) =~= seq![s]);
        }
        r
    } else {
        let mut r = split_prefix(v, i - 1, c);
        proof {
            assert(v@.take(i - 1) =~= s.take(li));
            assert(piece@ =~= s.skip(li + 1));
        }
        let ghost before = r@.map_values(|s: String| s@);
        r.push(piece);
        proof {
            assert(r@.map_values(|s: String| s@) =~= before.push(piece@));
        }
        r
    }
}

/// Splits `s` at every `c` (see `split_on`).
pub fn split_char(s: &str, c: char) -> (r: Vec<String>)
    ensures
        r@.map_values(|p: String| p@) == split_on(s@, c),
{
    let v = chars_of(s);
    proof {
        assert(v@.take(v@.len() as int) =~= s@);
    }
    split_prefix(&v, v.len(), c)
}

/// A line without the `\r` of a `\r\n` ending.
pub open spec fn strip_cr(s: Seq<char>) -> Seq<char> {
    if s.len() > 0 && s.last() == '\r' {
        s.drop_last()
    } else {
        s
    }
}

/// The lines of `s` (`str::lines`): split at `\n`, a `\r` before the `\n`
/// removed, and no empty line after a final line ending.
pub open spec fn lines_of(s: Seq<char>) -> Seq<Seq<char>> {
    let segs = split_on(s, '\n');
    let n = segs.len();
    let all = Seq::new(
        n,
        |i: int|
            if i < n - 1 {
                strip_cr(segs[i])
            } else {
                segs[i]
            },
    );
    if n > 0 && segs[n - 1].len() == 0 {
        all.drop_last()
    } else {
        all
    }
}

/// The lines of `s` (see `lines_of`).
pub fn lines(s: &str) -> (r: Vec<String>)
    ensures
        r@.map_values(|p: String| p@) == lines_of(s@),
{
    let segs = split_char(s, '\n');
    let ghost sv = split_on(s@, '\n');
    proof {
        lemma_split_on_nonempty(s@, '\n');
    }
    let n = segs.len();
    let mut r: Vec<String> = Vec::new();
    let mut i: usize = 0;
    while i < n
        invariant
            n == segs@.len(),
            segs@.map_values(|p: String| p@) == sv,
            sv == split_on(s@, '\n'),
            0 <= i <= n,
            r@.len() == i,
            forall|j: int|
                0 <= j < i ==> #[trigger] r@[j]@ == (if j < n - 1 {
                    strip_cr(sv[j])
                } else {
                    sv[j]
                }),
        decreases n - i,
    {
        let seg = &segs[i];
        proof {
            assert(sv[i as int] == segs@[i as int]@);
        }
        if i < n - 1 {
            let v = chars_of(seg.as_str());
            if v.len() > 0 && v[v.len() - 1] == '\r' {
                let stripped = string_from_chars(&v, 0, v.len() - 1);
                proof {
                    assert(stripped@ =~= strip_cr(sv[i as int]));
                }
                r.push(stripped);
            } else {
                let copy = seg.clone();
                r.push(copy);
            }
        } else {
            let copy = seg.clone();
            r.push(copy);
        }
        i = i + 1;
    }
    let ghost all = Seq::new(
        n as nat,
        |j: int|
            if j < n - 1 {
                strip_cr(sv[j])
            } else {
                sv[j]
            },
    );
    proof {
        assert(r@.map_values(|p: String| p@) =~= all);
    }
    if n > 0 && segs[n - 1].as_str().is_empty() {
        r.pop();
        proof {
            assert(sv[n - 1] == segs@[n - 1]@);
            assert(r@.map_values(|p: String| p@) =~= all.drop_last());
        }
    }
    r
}

/// Whether `c` is white space (the Unicode `White_Space` property, as
/// `char::is_whitespace` has it).
pub open spec fn is_white(c: char) -> bool {
    ('\u{9}' <= c <= '\u{d}') || c == ' ' || c == '\u{85}' || c == '\u{a0}' || c == '\u{1680}'
        || ('\u{2000}' <= c <= '\u{200a}') || c == '\u{2028}' || c == '\u{2029}' || c
        == '\u{202f}' || c == '\u{205f}' || c == '\u{3000}'
}

pub fn is_white_exec(c: char) -> (r: bool)
    ensures
        r == is_white(c),
{
    ('\u{9}' <= c && c <= '\u{d}') || c == ' ' || c == '\u{85}' || c == '\u{a0}' || c
        == '\u{1680}' || ('\u{2000}' <= c && c <= '\u{200a}') || c == '\u{2028}' || c
        == '\u{2029}' || c == '\u{202f}' || c == '\u{205f}' || c == '\u{3000}'
}

/// Reading `s` from the left: the words completed so far and the word under
/// way (words are runs of characters that are not white space).
pub open spec fn words_scan(s: Seq<char>) -> (Seq<Seq<char>>, Seq<char>)
    decreases s.len(),
{
    if s.len() == 0 {
        (Seq::empty(), Seq::empty())
    } else {
        let (done, cur) = words_scan(s.drop_last());
        if is_white(s.last()) {
            if cur.len() > 0 {
                (done.push(cur), Seq::empty())
            } else {
                (done, cur)
            }
        } else {
            (done, cur.push(s.last()))
        }
    }
}

/// The words of `s`, in order (`str::split_whitespace`).
pub open spec fn words(s: Seq<char>) -> Seq<Seq<char>> {
    let (done, cur) = words_scan(s);
    if cur.len() > 0 {
        done.push(cur)
    } else {
        done
    }
}

/// The words of `s` (see `words`).
pub fn split_whitespace(s: &str) -> (r: Vec<String>)
    ensures
        r@.map_values(|w: String| w@) == words(s@),
{
    let v = chars_of(s);
    let mut done: Vec<String> = Vec::new();
    let mut start: usize = 0;
    let mut i: usize = 0;
    while i < v.len()
        invariant
            v@ == s@,
            start <= i <= v.len(),
            done@.map_values(|w: String| w@) == words_scan(v@.take(i as int)).0,
            v@.subrange(start as int, i as int) == words_scan(v@.take(i as int)).1,
        decreases v.len() - i,
    {
        proof {
            assert(v@.take(i + 1).drop_last() =~= v@.take(i as int));
            assert(v@.take(i + 1).last() == v@[i as int]);
        }
        if is_white_exec(v[i]) {
            if start < i {
                let w = string_from_chars(&v, start, i);
                let ghost before = done@.map_values(|w: String| w@);
                done.push(w);
                proof {
                    assert(done@.map_values(|w: String| w@) =~= before.push(w@));
                }
            }
            start = i + 1;
            proof {
                assert(v@.subrange(start as int, i + 1) =~= Seq::<char>::empty());
            }
        } else {
            proof {
                assert(v@.subrange(start as int, i + 1) =~= v@.subrange(start as int, i as int).push(v@[i as int]));
            }
        }
        i = i + 1;
    }
    proof {
        assert(v@.take(v.len() as int) =~= s@);
    }
    if start < v.len() {
        let w = string_from_chars(&v, start, v.len());
        let ghost before = done@.map_values(|w: String| w@);
        done.push(w);
        proof {
            assert(done@.map_values(|w: String| w@) =~= before.push(w@));
        }
    }
    done
}

/// `s` without leading and trailing white space (`str::trim`): the part
/// from the first to the last character that is not white space.
pub open spec fn is_trim_of(t: Seq<char>, s: Seq<char>) -> bool {
    exists|a: int, b: int|
        0 <= a <= b <= s.len() && t == s.subrange(a, b) && (forall|j: int|
            0 <= j < a ==> is_white(#[trigger] s[j])) && (forall|j: int|
            b <= j < s.len() ==> is_white(#[trigger] s[j])) && (a < b ==> !is_white(s[a])
            && !is_white(s[b - 1])) && (a == b ==> a == 0 && b == 0 || forall|j: int|
            0 <= j < s.len() ==> is_white(#[trigger] s[j]))
}

/// `s` without leading and trailing white space.
pub fn trim(s: &str) -> (r: String)
    ensures
        is_trim_of(r@, s@),
{
    let v = chars_of(s);
    let mut a: usize = 0;
    while a < v.len() && is_white_exec(v[a])
        invariant
            a <= v.len(),
            forall|j: int| 0 <= j < a ==> is_white(#[trigger] v@[j]),
        decreases v.len() - a,
    {
        a = a + 1;
    }
    let mut b: usize = v.len();
    while b > a && is_white_exec(v[b - 1])
        invariant
            a <= b <= v.len(),
            forall|j: int| b <= j < v.len() ==> is_white(#[trigger] v@[j]),
        decreases b,
    {
        b = b - 1;
    }
    let r = string_from_chars(&v, a, b);
    proof {
        if a == b && a > 0 {
            assert forall|j: int| 0 <= j < v@.len() implies is_white(#[trigger] v@[j]) by {
                if j >= b {
                } else {
                    assert(j < a);
                }
            }
        }
        assert(is_trim_of(r@, s@)) by {
            let aa = a as int;
            let bb = b as int;
            if a < b {
                assert(!is_white(v@[aa]));
                assert(!is_white(v@[bb - 1]));
            }
            if a == b && a == v.len() && a > 0 {
            }
        }
    }
    r
}

} // verus!
