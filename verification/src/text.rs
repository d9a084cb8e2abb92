//! Byte-level text utilities: the AT protocol is ASCII text over a serial
//! line, so every parser in this crate works on byte sequences.
use vstd::prelude::*;

verus! {

use vstd::string::StringSliceAdditionalSpecFns;

/// The bytes of an ASCII character sequence, one byte per character.
pub open spec fn ascii_of(s: Seq<char>) -> Seq<u8> {
    Seq::new(s.len(), |i: int| s[i] as u8)
}

/// The bytes of an ASCII string literal.
pub fn lit_bytes(s: &str) -> (r: &[u8])
    requires
        vstd::string::is_ascii(s),
    ensures
        r@ == ascii_of(s@),
{
    proof {
        vstd::string::is_ascii_spec_bytes(s);
        assert(s.spec_bytes() =~= ascii_of(s@));
    }
    s.as_bytes()
}

/// Exact equality of two byte strings.
pub fn bytes_eq(a: &[u8], b: &[u8]) -> (r: bool)
    ensures
        r == (a@ == b@),
{
    if a.len() != b.len() {
        return false;
    }
    let n = a.len();
    let mut i: usize = 0;
    while i < n
        invariant
            n == a@.len() == b@.len(),
            0 <= i <= n,
            forall|j: int| 0 <= j < i ==> a@[j] == b@[j],
        decreases n - i,
    {
        if a[i] != b[i] {
            return false;
        }
        i = i + 1;
    }
    proof {
        assert(a@ =~= b@);
    }
    true
}

/// A copy of `s[from..to]` as an owned vector.
pub fn subvec(s: &[u8], from: usize, to: usize) -> (r: Vec<u8>)
    requires
        0 <= from <= to <= s@.len(),
    ensures
        r@ == s@.subrange(from as int, to as int),
{
    let mut r: Vec<u8> = Vec::new();
    let mut i: usize = from;
    while i < to
        invariant
            from <= i <= to <= s@.len(),
            r@ == s@.subrange(from as int, i as int),
        decreases to - i,
    {
        r.push(s[i]);
        i = i + 1;
        proof {
            assert(r@ =~= s@.subrange(from as int, i as int));
        }
    }
    r
}

/// True when `p` is a prefix of `s`.
pub open spec fn spec_starts_with(s: Seq<u8>, p: Seq<u8>) -> bool {
    p.len() <= s.len() && s.subrange(0, p.len() as int) == p
}

pub fn bytes_starts_with(s: &[u8], p: &[u8]) -> (r: bool)
    ensures
        r == spec_starts_with(s@, p@),
{
    if p.len() > s.len() {
        return false;
    }
    let n = p.len();
    let mut i: usize = 0;
    while i < n
        invariant
            n == p@.len() <= s@.len(),
            0 <= i <= n,
            forall|j: int| 0 <= j < i ==> s@[j] == p@[j],
        decreases n - i,
    {
        if s[i] != p[i] {
            proof {
                assert(s@.subrange(0, n as int)[i as int] != p@[i as int]);
            }
            return false;
        }
        i = i + 1;
    }
    proof {
        assert(s@.subrange(0, n as int) =~= p@);
    }
    true
}

/// True when `p` occurs in `s` as a contiguous run.
pub open spec fn spec_contains(s: Seq<u8>, p: Seq<u8>) -> bool {
    exists|i: int|
        0 <= i && i + p.len() <= s.len() && #[trigger] s.subrange(i, i + p.len() as int) == p
}

fn match_at(s: &[u8], p: &[u8], at: usize) -> (r: bool)
    requires
        at + p@.len() <= s@.len(),
    ensures
        r == (s@.subrange(at as int, at + p@.len() as int) == p@),
{
    let n = p.len();
    let slen = s.len();
    let mut i: usize = 0;
    while i < n
        invariant
            n == p@.len(),
            at + n <= slen == s@.len(),
            0 <= i <= n,
            forall|j: int| 0 <= j < i ==> s@[at + j] == p@[j],
        decreases n - i,
    {
        if s[at + i] != p[i] {
            proof {
                assert(s@.subrange(at as int, at + p@.len() as int)[i as int] != p@[i as int]);
            }
            return false;
        }
        i = i + 1;
    }
    proof {
        assert(s@.subrange(at as int, at + p@.len() as int) =~= p@);
    }
    true
}

pub fn bytes_contains(s: &[u8], p: &[u8]) -> (r: bool)
    ensures
        r == spec_contains(s@, p@),
{
    if p.len() > s.len() {
        return false;
    }
    let last = s.len() - p.len();
    let mut i: usize = 0;
    while i <= last
        invariant
            p@.len() <= s@.len(),
            last == s@.len() - p@.len(),
            0 <= i <= last + 1,
            forall|j: int| 0 <= j < i ==> #[trigger] s@.subrange(j, j + p@.len() as int) != p@,
        decreases last - i,
    {
        if match_at(s, p, i) {
            return true;
        }
        if i == last {
            return false;
        }
        i = i + 1;
    }
    false
}

/// Whitespace as the engine understands it: the ASCII characters that a
/// text trim removes.
pub open spec fn is_space(b: u8) -> bool {
    b == 32 || b == 9 || b == 10 || b == 11 || b == 12 || b == 13
}

/// Index of the first byte at or after `i` that is not whitespace.
pub open spec fn trim_start_idx(s: Seq<u8>, i: int) -> int
    decreases s.len() - i,
{
    if i < 0 || i >= s.len() {
        s.len() as int
    } else if is_space(s[i]) {
        trim_start_idx(s, i + 1)
    } else {
        i
    }
}

/// One past the last byte before `i` that is not whitespace.
pub open spec fn trim_end_idx(s: Seq<u8>, i: int) -> int
    decreases i,
{
    if i <= 0 || i > s.len() {
        0
    } else if is_space(s[i - 1]) {
        trim_end_idx(s, i - 1)
    } else {
        i
    }
}

/// `s` with leading and trailing whitespace removed.
pub open spec fn spec_trim(s: Seq<u8>) -> Seq<u8> {
    let a = trim_start_idx(s, 0);
    let b = trim_end_idx(s, s.len() as int);
    if a <= b {
        s.subrange(a, b)
    } else {
        Seq::empty()
    }
}

pub fn trim_bytes(s: &[u8]) -> (r: Vec<u8>)
    ensures
        r@ == spec_trim(s@),
{
    let n = s.len();
    let mut a: usize = 0;
    while a < n && is_space_exec(s[a])
        invariant
            0 <= a <= n == s@.len(),
            trim_start_idx(s@, 0) == trim_start_idx(s@, a as int),
        decreases n - a,
    {
        a = a + 1;
    }
    proof {
        assert(trim_start_idx(s@, 0) == a);
    }
    let mut b: usize = n;
    while b > a && is_space_exec(s[b - 1])
        invariant
            a <= b <= n == s@.len(),
            trim_end_idx(s@, n as int) == trim_end_idx(s@, b as int),
        decreases b,
    {
        b = b - 1;
    }
    proof {
        lemma_trim_idx_bounds(s@);
        lemma_trim_end_bounds(s@, b as int);
        if b > a {
            assert(trim_end_idx(s@, n as int) == b);
        } else {
            assert(s@.subrange(a as int, b as int) =~= spec_trim(s@));
        }
    }
    subvec(s, a, b)
}

fn is_space_exec(b: u8) -> (r: bool)
    ensures
        r == is_space(b),
{
    b == 32 || b == 9 || b == 10 || b == 11 || b == 12 || b == 13
}

proof fn lemma_trim_start_bounds(s: Seq<u8>, i: int)
    requires
        0 <= i <= s.len(),
    ensures
        i <= trim_start_idx(s, i) <= s.len(),
        forall|j: int| i <= j < trim_start_idx(s, i) ==> is_space(s[j]),
        trim_start_idx(s, i) < s.len() ==> !is_space(s[trim_start_idx(s, i)]),
    decreases s.len() - i,
{
    if i < s.len() && is_space(s[i]) {
        lemma_trim_start_bounds(s, i + 1);
    }
}

proof fn lemma_trim_end_bounds(s: Seq<u8>, i: int)
    requires
        0 <= i <= s.len(),
    ensures
        0 <= trim_end_idx(s, i) <= i,
        forall|j: int| trim_end_idx(s, i) <= j < i ==> is_space(s[j]),
        trim_end_idx(s, i) > 0 ==> !is_space(s[trim_end_idx(s, i) - 1]),
    decreases i,
{
    if i > 0 && is_space(s[i - 1]) {
        lemma_trim_end_bounds(s, i - 1);
    }
}

proof fn lemma_trim_idx_bounds(s: Seq<u8>)
    ensures
        0 <= trim_start_idx(s, 0) <= s.len(),
        0 <= trim_end_idx(s, s.len() as int) <= s.len(),
{
    lemma_trim_start_bounds(s, 0);
    lemma_trim_end_bounds(s, s.len() as int);
}

/// `s` with every double-quote byte removed.
pub open spec fn spec_strip_quotes(s: Seq<u8>) -> Seq<u8>
    decreases s.len(),
{
    if s.len() == 0 {
        Seq::empty()
    } else if s.last() == 34 {
        spec_strip_quotes(s.drop_last())
    } else {
        spec_strip_quotes(s.drop_last()).push(s.last())
    }
}

pub fn strip_quotes(s: &[u8]) -> (r: Vec<u8>)
    ensures
        r@ == spec_strip_quotes(s@),
{
    let mut r: Vec<u8> = Vec::new();
    let mut i: usize = 0;
    while i < s.len()
        invariant
            0 <= i <= s@.len(),
            r@ == spec_strip_quotes(s@.take(i as int)),
        decreases s@.len() - i,
    {
        proof {
            assert(s@.take(i + 1).drop_last() =~= s@.take(i as int));
            assert(s@.take(i + 1).last() == s@[i as int]);
        }
        if s[i] != 34 {
            r.push(s[i]);
        }
        i = i + 1;
    }
    proof {
        assert(s@.take(s@.len() as int) =~= s@);
    }
    r
}

/// An owned copy of a byte vector.
pub fn copy_vec(s: &Vec<u8>) -> (r: Vec<u8>)
    ensures
        r@ == s@,
{
    let r = subvec(s.as_slice(), 0, s.len());
    proof {
        assert(s@.subrange(0, s@.len() as int) =~= s@);
    }
    r
}

/// Appends all of `src` to `dst`.
pub fn append_bytes(dst: &mut Vec<u8>, src: &[u8])
    ensures
        final(dst)@ == old(dst)@ + src@,
{
    let mut i: usize = 0;
    while i < src.len()
        invariant
            0 <= i <= src@.len(),
            dst@ == old(dst)@ + src@.take(i as int),
        decreases src@.len() - i,
    {
        dst.push(src[i]);
        i = i + 1;
        proof {
            assert(old(dst)@ + src@.take(i as int) =~= (old(dst)@ + src@.take(i - 1)).push(
                src@[i - 1],
            ));
        }
    }
    proof {
        assert(src@.take(src@.len() as int) =~= src@);
    }
}

/// Index of the first occurrence of `sep` at or after `i`, if any.
pub open spec fn find_from(s: Seq<u8>, sep: u8, i: int) -> Option<int>
    decreases s.len() - i,
{
    if i < 0 || i >= s.len() {
        None
    } else if s[i] == sep {
        Some(i)
    } else {
        find_from(s, sep, i + 1)
    }
}

pub proof fn lemma_find_from(s: Seq<u8>, sep: u8, i: int)
    requires
        0 <= i <= s.len(),
    ensures
        match find_from(s, sep, i) {
            Some(j) => i <= j < s.len() && s[j] == sep && forall|k: int|
                i <= k < j ==> s[k] != sep,
            None => forall|k: int| i <= k < s.len() ==> s[k] != sep,
        },
    decreases s.len() - i,
{
    if i < s.len() && s[i] != sep {
        lemma_find_from(s, sep, i + 1);
    }
}

/// The parts before and after the first occurrence of `sep`.
pub open spec fn spec_split_first(s: Seq<u8>, sep: u8) -> Option<(Seq<u8>, Seq<u8>)> {
    match find_from(s, sep, 0) {
        Some(i) => Some((s.subrange(0, i), s.subrange(i + 1, s.len() as int))),
        None => None,
    }
}

pub fn find_byte(s: &[u8], sep: u8) -> (r: Option<usize>)
    ensures
        match r {
            Some(i) => find_from(s@, sep, 0) == Some(i as int),
            None => find_from(s@, sep, 0) is None,
        },
{
    let n = s.len();
    let mut i: usize = 0;
    while i < n
        invariant
            0 <= i <= n == s@.len(),
            find_from(s@, sep, 0) == find_from(s@, sep, i as int),
        decreases n - i,
    {
        if s[i] == sep {
            return Some(i);
        }
        i = i + 1;
    }
    None
}

/// The two halves around the first `sep`, as owned vectors.
pub fn split_first_byte(s: &[u8], sep: u8) -> (r: Option<(Vec<u8>, Vec<u8>)>)
    ensures
        match r {
            Some(p) => spec_split_first(s@, sep) == Some((p.0@, p.1@)),
            None => spec_split_first(s@, sep) is None,
        },
{
    let n = s.len();
    match find_byte(s, sep) {
        Some(i) => {
            proof {
                lemma_find_from(s@, sep, 0);
            }
            let before = subvec(s, 0, i);
            let after = subvec(s, i + 1, n);
            Some((before, after))
        },
        None => None,
    }
}

/// The views of a sequence of byte vectors.
pub open spec fn seq_views(v: Seq<Vec<u8>>) -> Seq<Seq<u8>> {
    Seq::new(v.len(), |i: int| v[i]@)
}

/// The segments of `s` between occurrences of `sep`, scanning from `i`,
/// with `cur` the segment read so far.
pub open spec fn split_from(s: Seq<u8>, sep: u8, i: int, cur: Seq<u8>) -> Seq<Seq<u8>>
    decreases s.len() - i,
{
    if i < 0 || i >= s.len() {
        seq![cur]
    } else if s[i] == sep {
        seq![cur] + split_from(s, sep, i + 1, Seq::empty())
    } else {
        split_from(s, sep, i + 1, cur.push(s[i]))
    }
}

/// The segments of `s` separated by `sep`; always at least one segment.
pub open spec fn spec_split(s: Seq<u8>, sep: u8) -> Seq<Seq<u8>> {
    split_from(s, sep, 0, Seq::empty())
}

pub fn split_bytes(s: &[u8], sep: u8) -> (r: Vec<Vec<u8>>)
    ensures
        seq_views(r@) == spec_split(s@, sep),
{
    let ghost goal = spec_split(s@, sep);
    let mut done: Vec<Vec<u8>> = Vec::new();
    let mut cur: Vec<u8> = Vec::new();
    let mut i: usize = 0;
    while i < s.len()
        invariant
            0 <= i <= s@.len(),
            goal == spec_split(s@, sep),
            goal == seq_views(done@) + split_from(s@, sep, i as int, cur@),
        decreases s@.len() - i,
    {
        if s[i] == sep {
            let ghost prev_done = done@;
            let ghost prev_cur = cur@;
            done.push(cur);
            cur = Vec::new();
            proof {
                assert(seq_views(done@) =~= seq_views(prev_done).push(prev_cur));
                assert(seq_views(prev_done).push(prev_cur) + split_from(
                    s@,
                    sep,
                    i + 1,
                    Seq::empty(),
                ) =~= seq_views(prev_done) + (seq![prev_cur] + split_from(
                    s@,
                    sep,
                    i + 1,
                    Seq::empty(),
                )));
            }
        } else {
            cur.push(s[i]);
        }
        i = i + 1;
    }
    let ghost prev_done = done@;
    let ghost prev_cur = cur@;
    done.push(cur);
    proof {
        assert(seq_views(done@) =~= seq_views(prev_done).push(prev_cur));
        assert(seq_views(prev_done).push(prev_cur) =~= seq_views(prev_done) + seq![prev_cur]);
    }
    done
}

/// Each segment trimmed of surrounding whitespace.
pub open spec fn map_trim(ls: Seq<Seq<u8>>) -> Seq<Seq<u8>> {
    Seq::new(ls.len(), |i: int| spec_trim(ls[i]))
}

/// Split on `sep` and trim every field, as the response parsers do.
pub fn split_trim(s: &[u8], sep: u8) -> (r: Vec<Vec<u8>>)
    ensures
        seq_views(r@) == map_trim(spec_split(s@, sep)),
{
    let parts = split_bytes(s, sep);
    let mut out: Vec<Vec<u8>> = Vec::new();
    let mut i: usize = 0;
    while i < parts.len()
        invariant
            0 <= i <= parts@.len(),
            seq_views(parts@) == spec_split(s@, sep),
            seq_views(out@) == map_trim(spec_split(s@, sep)).take(i as int),
        decreases parts@.len() - i,
    {
        let ghost prev_out = out@;
        out.push(trim_bytes(parts[i].as_slice()));
        proof {
            assert(seq_views(out@) =~= seq_views(prev_out).push(spec_trim(parts@[i as int]@)));
            assert(map_trim(spec_split(s@, sep)).take(i + 1) =~= map_trim(
                spec_split(s@, sep),
            ).take(i as int).push(spec_trim(parts@[i as int]@)));
        }
        i = i + 1;
    }
    proof {
        assert(map_trim(spec_split(s@, sep)).take(parts@.len() as int) =~= map_trim(
            spec_split(s@, sep),
        ));
    }
    out
}

/// The segments of `s` separated by a carriage-return/line-feed pair,
/// scanning from `i`, with `cur` the segment read so far.
pub open spec fn split_crlf_from(s: Seq<u8>, i: int, cur: Seq<u8>) -> Seq<Seq<u8>>
    decreases s.len() - i,
{
    if i < 0 || i >= s.len() {
        seq![cur]
    } else if s[i] == 13 && i + 1 < s.len() && s[i + 1] == 10 {
        seq![cur] + split_crlf_from(s, i + 2, Seq::empty())
    } else {
        split_crlf_from(s, i + 1, cur.push(s[i]))
    }
}

/// The lines of `s` separated by carriage-return/line-feed pairs.
pub open spec fn spec_split_crlf(s: Seq<u8>) -> Seq<Seq<u8>> {
    split_crlf_from(s, 0, Seq::empty())
}

pub fn split_crlf(s: &[u8]) -> (r: Vec<Vec<u8>>)
    ensures
        seq_views(r@) == spec_split_crlf(s@),
{
    let ghost goal = spec_split_crlf(s@);
    let n = s.len();
    let mut done: Vec<Vec<u8>> = Vec::new();
    let mut cur: Vec<u8> = Vec::new();
    let mut i: usize = 0;
    while i < n
        invariant
            0 <= i <= n == s@.len(),
            goal == spec_split_crlf(s@),
            goal == seq_views(done@) + split_crlf_from(s@, i as int, cur@),
        decreases n - i,
    {
        if s[i] == 13 && i + 1 < n && s[i + 1] == 10 {
            let ghost prev_done = done@;
            let ghost prev_cur = cur@;
            done.push(cur);
            cur = Vec::new();
            proof {
                assert(seq_views(done@) =~= seq_views(prev_done).push(prev_cur));
                assert(seq_views(prev_done).push(prev_cur) + split_crlf_from(
                    s@,
                    i + 2,
                    Seq::empty(),
                ) =~= seq_views(prev_done) + (seq![prev_cur] + split_crlf_from(
                    s@,
                    i + 2,
                    Seq::empty(),
                )));
            }
            i = i + 2;
        } else {
            cur.push(s[i]);
            i = i + 1;
        }
    }
    let ghost prev_done = done@;
    let ghost prev_cur = cur@;
    done.push(cur);
    proof {
        assert(seq_views(done@) =~= seq_views(prev_done).push(prev_cur));
        assert(seq_views(prev_done).push(prev_cur) =~= seq_views(prev_done) + seq![prev_cur]);
    }
    done
}

/// The non-empty entries of `ls`, in order.
pub open spec fn drop_empty(ls: Seq<Seq<u8>>) -> Seq<Seq<u8>>
    decreases ls.len(),
{
    if ls.len() == 0 {
        Seq::empty()
    } else if ls.last().len() == 0 {
        drop_empty(ls.drop_last())
    } else {
        drop_empty(ls.drop_last()).push(ls.last())
    }
}

pub fn drop_empty_lines(ls: &Vec<Vec<u8>>) -> (r: Vec<Vec<u8>>)
    ensures
        seq_views(r@) == drop_empty(seq_views(ls@)),
{
    let mut out: Vec<Vec<u8>> = Vec::new();
    let mut i: usize = 0;
    while i < ls.len()
        invariant
            0 <= i <= ls@.len(),
            seq_views(out@) == drop_empty(seq_views(ls@).take(i as int)),
        decreases ls@.len() - i,
    {
        let ghost prev_out = out@;
        proof {
            assert(seq_views(ls@).take(i + 1).drop_last() =~= seq_views(ls@).take(i as int));
            assert(seq_views(ls@).take(i + 1).last() == ls@[i as int]@);
        }
        if ls[i].len() > 0 {
            out.push(copy_vec(&ls[i]));
            proof {
                assert(seq_views(out@) =~= seq_views(prev_out).push(ls@[i as int]@));
            }
        }
        i = i + 1;
    }
    proof {
        assert(seq_views(ls@).take(ls@.len() as int) =~= seq_views(ls@));
    }
    out
}

pub open spec fn is_digit(b: u8) -> bool {
    48 <= b && b <= 57
}

pub open spec fn all_digits(s: Seq<u8>) -> bool {
    forall|i: int| 0 <= i < s.len() ==> is_digit(#[trigger] s[i])
}

/// The number denoted by a run of decimal digits.
pub open spec fn digits_val(s: Seq<u8>) -> nat
    decreases s.len(),
{
    if s.len() == 0 {
        0
    } else {
        digits_val(s.drop_last()) * 10 + (s.last() - 48) as nat
    }
}

/// The number denoted by `s` under the integer syntax of the standard
/// library: an optional plus sign followed by one or more digits.
pub open spec fn spec_parse_unsigned(s: Seq<u8>) -> Option<nat> {
    let body = if s.len() > 0 && s[0] == 43 {
        s.drop_first()
    } else {
        s
    };
    if body.len() > 0 && all_digits(body) {
        Some(digits_val(body))
    } else {
        None
    }
}

/// As `spec_parse_unsigned`, with a leading minus sign also accepted.
pub open spec fn spec_parse_signed(s: Seq<u8>) -> Option<int> {
    if s.len() > 0 && s[0] == 45 {
        let body = s.drop_first();
        if body.len() > 0 && all_digits(body) {
            Some(-(digits_val(body) as int))
        } else {
            None
        }
    } else {
        match spec_parse_unsigned(s) {
            Some(n) => Some(n as int),
            None => None,
        }
    }
}

pub open spec fn pow10(n: nat) -> nat
    decreases n,
{
    if n == 0 {
        1
    } else {
        10 * pow10((n - 1) as nat)
    }
}

proof fn lemma_pow10_pos(n: nat)
    ensures
        pow10(n) >= 1,
    decreases n,
{
    if n > 0 {
        lemma_pow10_pos((n - 1) as nat);
    }
}

proof fn lemma_pow10_mono(a: nat, b: nat)
    requires
        a <= b,
    ensures
        1 <= pow10(a) <= pow10(b),
    decreases b,
{
    lemma_pow10_pos(a);
    if a < b {
        lemma_pow10_mono(a, (b - 1) as nat);
    }
}

proof fn lemma_digits_leading_zeros(s: Seq<u8>, k: int)
    requires
        0 <= k <= s.len(),
        forall|i: int| 0 <= i < k ==> s[i] == 48,
    ensures
        digits_val(s) == digits_val(s.skip(k)),
    decreases s.len(),
{
    if s.len() == k {
        lemma_digits_all_zero(s);
    } else {
        assert(s.skip(k).drop_last() =~= s.drop_last().skip(k));
        lemma_digits_leading_zeros(s.drop_last(), k);
    }
}

proof fn lemma_digits_all_zero(s: Seq<u8>)
    requires
        forall|i: int| 0 <= i < s.len() ==> s[i] == 48,
    ensures
        digits_val(s) == 0,
    decreases s.len(),
{
    if s.len() > 0 {
        lemma_digits_all_zero(s.drop_last());
    }
}

proof fn lemma_digits_lower(s: Seq<u8>)
    requires
        s.len() > 0,
        s[0] >= 49,
        all_digits(s),
    ensures
        digits_val(s) >= pow10((s.len() - 1) as nat),
    decreases s.len(),
{
    if s.len() > 1 {
        lemma_digits_lower(s.drop_last());
    }
}

proof fn lemma_digits_upper(s: Seq<u8>)
    requires
        all_digits(s),
    ensures
        digits_val(s) < pow10(s.len() as nat),
    decreases s.len(),
{
    if s.len() > 0 {
        lemma_digits_upper(s.drop_last());
    }
}

/// Digit-run parsing from `start`, with values over `cap` rejected as the
/// standard library rejects overflow.
fn parse_body(s: &[u8], start: usize, cap: u64) -> (r: Option<u64>)
    requires
        start <= s@.len(),
        cap < 10_000_000_000,
    ensures
        ({
            let body = s@.skip(start as int);
            match r {
                Some(v) => body.len() > 0 && all_digits(body) && digits_val(body) == v && v
                    <= cap,
                None => !(body.len() > 0 && all_digits(body) && digits_val(body) <= cap),
            }
        }),
{
    let ghost body = s@.skip(start as int);
    let n = s.len();
    if start == n {
        return None;
    }
    let mut i: usize = start;
    while i < n
        invariant
            start <= i <= n == s@.len(),
            forall|j: int| start <= j < i ==> is_digit(#[trigger] s@[j]),
        decreases n - i,
    {
        if s[i] < 48 || s[i] > 57 {
            proof {
                let j = i as int - start as int;
                assert(0 <= j < body.len());
                assert(body[j] == s@[j + start as int]);
                assert(!is_digit(body[j]));
            }
            return None;
        }
        i = i + 1;
    }
    proof {
        assert forall|j: int| 0 <= j < body.len() implies is_digit(body[j]) by {
            assert(body[j] == s@[j + start]);
        }
    }
    let mut z: usize = start;
    while z < n && s[z] == 48
        invariant
            start <= z <= n == s@.len(),
            forall|j: int| start <= j < z ==> s@[j] == 48,
        decreases n - z,
    {
        z = z + 1;
    }
    proof {
        assert forall|j: int| 0 <= j < z - start implies body[j] == 48 by {
            assert(body[j] == s@[j + start]);
        }
        lemma_digits_leading_zeros(body, z - start as int);
        assert(body.skip(z - start as int) =~= s@.skip(z as int));
    }
    let ghost rest = s@.skip(z as int);
    if n - z > 10 {
        proof {
            assert(rest[0] == s@[z as int]);
            assert forall|j: int| 0 <= j < rest.len() implies is_digit(rest[j]) by {
                assert(rest[j] == s@[j + z]);
            }
            lemma_digits_lower(rest);
            lemma_pow10_mono(10, (rest.len() - 1) as nat);
            assert(pow10(10) == 10_000_000_000) by {
                reveal_with_fuel(pow10, 12);
            }
        }
        return None;
    }
    let mut acc: u64 = 0;
    let mut j: usize = z;
    while j < n
        invariant
            z <= j <= n == s@.len(),
            n - z <= 10,
            rest == s@.skip(z as int),
            forall|k: int| 0 <= k < rest.len() ==> is_digit(#[trigger] rest[k]),
            acc == digits_val(s@.subrange(z as int, j as int)),
            acc < pow10((j - z) as nat),
        decreases n - j,
    {
        proof {
            assert(s@.subrange(z as int, j + 1).drop_last() =~= s@.subrange(z as int, j as int));
            assert(s@.subrange(z as int, j + 1).last() == s@[j as int]);
            assert(s@[j as int] == rest[j - z as int]);
            lemma_pow10_mono((j - z + 1) as nat, 10);
            assert(pow10(10) == 10_000_000_000) by {
                reveal_with_fuel(pow10, 12);
            }
        }
        acc = acc * 10 + ((s[j] - 48) as u64);
        j = j + 1;
    }
    proof {
        assert(s@.subrange(z as int, n as int) =~= rest);
    }
    if acc <= cap {
        Some(acc)
    } else {
        None
    }
}

/// Unsigned decimal parsing as `str::parse` for an unsigned type does:
/// `None` on an empty or malformed run and on any value over `max`.
pub fn parse_unsigned(s: &[u8], max: u64) -> (r: Option<u64>)
    requires
        max < 10_000_000_000,
    ensures
        match r {
            Some(v) => spec_parse_unsigned(s@) == Some(v as nat) && v <= max,
            None => match spec_parse_unsigned(s@) {
                Some(n) => n > max,
                None => true,
            },
        },
{
    let start: usize = if s.len() > 0 && s[0] == 43 {
        1
    } else {
        0
    };
    proof {
        if start == 1 {
            assert(s@.skip(1) =~= s@.drop_first());
        } else {
            assert(s@.skip(0) =~= s@);
        }
    }
    parse_body(s, start, max)
}

/// Signed decimal parsing as `str::parse` for a signed type does.
pub fn parse_signed(s: &[u8], min: i64, max: i64) -> (r: Option<i64>)
    requires
        -10_000_000_000 < min <= 0,
        0 <= max < 10_000_000_000,
    ensures
        match r {
            Some(v) => spec_parse_signed(s@) == Some(v as int) && min <= v <= max,
            None => match spec_parse_signed(s@) {
                Some(n) => n < min || n > max,
                None => true,
            },
        },
{
    if s.len() > 0 && s[0] == 45 {
        proof {
            assert(s@.skip(1) =~= s@.drop_first());
        }
        let cap: u64 = (-min) as u64;
        match parse_body(s, 1, cap) {
            Some(v) => Some(-(v as i64)),
            None => None,
        }
    } else {
        let start: usize = if s.len() > 0 && s[0] == 43 {
            1
        } else {
            0
        };
        proof {
            if start == 1 {
                assert(s@.skip(1) =~= s@.drop_first());
            } else {
                assert(s@.skip(0) =~= s@);
            }
        }
        match parse_body(s, start, max as u64) {
            Some(v) => Some(v as i64),
            None => None,
        }
    }
}

/// The value a parser takes from a field that should hold an unsigned
/// byte, with `d` standing in when the field does not parse.
pub open spec fn parse_u8_or(s: Seq<u8>, d: u8) -> u8 {
    match spec_parse_unsigned(s) {
        Some(v) => if v <= 255 {
            v as u8
        } else {
            d
        },
        None => d,
    }
}

pub fn parse_u8_field(s: &[u8], d: u8) -> (r: u8)
    ensures
        r == parse_u8_or(s@, d),
{
    match parse_unsigned(s, 255) {
        Some(v) => v as u8,
        None => d,
    }
}

/// The value a parser takes from a field that should hold a signed byte,
/// with `d` standing in when the field does not parse.
pub open spec fn parse_i8_or(s: Seq<u8>, d: int) -> int {
    match spec_parse_signed(s) {
        Some(v) => if -128 <= v <= 127 {
            v
        } else {
            d
        },
        None => d,
    }
}

pub fn parse_i8_field(s: &[u8], d: i8) -> (r: i8)
    ensures
        r as int == parse_i8_or(s@, d as int),
{
    match parse_signed(s, -128, 127) {
        Some(v) => v as i8,
        None => d,
    }
}

/// The value of a field parsed as a 32-bit signed integer, if it has one.
pub open spec fn spec_parse_i32(s: Seq<u8>) -> Option<int> {
    match spec_parse_signed(s) {
        Some(v) => if -2147483648 <= v <= 2147483647 {
            Some(v)
        } else {
            None
        },
        None => None,
    }
}

pub fn parse_i32_field(s: &[u8]) -> (r: Option<i32>)
    ensures
        match r {
            Some(v) => spec_parse_i32(s@) == Some(v as int),
            None => spec_parse_i32(s@) is None,
        },
{
    match parse_signed(s, -2147483648, 2147483647) {
        Some(v) => Some(v as i32),
        None => None,
    }
}

/// The decimal digits of `n`, most significant first.
pub open spec fn spec_decimal(n: nat) -> Seq<u8>
    decreases n,
{
    if n < 10 {
        seq![(48 + n) as u8]
    } else {
        spec_decimal(n / 10).push((48 + n % 10) as u8)
    }
}

pub fn decimal_bytes(n: u64) -> (r: Vec<u8>)
    ensures
        r@ == spec_decimal(n as nat),
    decreases n,
{
    if n < 10 {
        let mut r: Vec<u8> = Vec::new();
        r.push(48 + (n as u8));
        r
    } else {
        let mut r = decimal_bytes(n / 10);
        r.push(48 + ((n % 10) as u8));
        r
    }
}

/// Width of the well-formed UTF-8 scalar encoding starting at `i`, if any.
fn scalar_width_at(s: &[u8], i: usize) -> (r: Option<usize>)
    requires
        i < s@.len(),
    ensures
        ({
            let rest = s@.skip(i as int);
            match r {
                Some(w) => vstd::utf8::valid_first_scalar(rest)
                    && vstd::utf8::length_of_first_scalar(rest) == w && 1 <= w <= 4 && i + w
                    <= s@.len(),
                None => !vstd::utf8::valid_first_scalar(rest),
            }
        }),
{
    let ghost rest = s@.skip(i as int);
    let n = s.len();
    let b0 = s[i];
    proof {
        assert(rest[0] == s@[i as int]);
    }
    if b0 <= 0x7f {
        proof {
            assert(vstd::utf8::valid_leading_and_continuation_bytes_first_codepoint(rest));
            assert(((b0 & 0x7f) as u32) < 0xd800) by (bit_vector);
            assert(vstd::utf8::valid_first_scalar(rest));
        }
        Some(1)
    } else if 0xc0 <= b0 && b0 <= 0xdf {
        if n - i < 2 {
            proof {
                assert(!vstd::utf8::valid_leading_and_continuation_bytes_first_codepoint(rest));
            }
            return None;
        }
        let b1 = s[i + 1];
        proof {
            assert(rest[1] == s@[i as int + 1]);
        }
        if !(0x80 <= b1 && b1 <= 0xbf) {
            proof {
                assert(!vstd::utf8::valid_leading_and_continuation_bytes_first_codepoint(rest));
            }
            return None;
        }
        if b0 < 0xc2 {
            proof {
                assert((((b0 & 0x1f) as u32) << 6) | ((b1 & 0x3f) as u32) < 0x80) by (bit_vector)
                    requires
                        0xc0 <= b0 < 0xc2,
                ;
                assert(!vstd::utf8::not_overlong_encoding(
                    vstd::utf8::decode_first_codepoint(rest),
                    2,
                ));
            }
            None
        } else {
            proof {
                assert({
                    let c = (((b0 & 0x1f) as u32) << 6) | ((b1 & 0x3f) as u32);
                    0x80 <= c < 0xd800
                }) by (bit_vector)
                    requires
                        0xc2 <= b0 <= 0xdf,
                ;
                assert(vstd::utf8::valid_first_scalar(rest));
            }
            Some(2)
        }
    } else if 0xe0 <= b0 && b0 <= 0xef {
        if n - i < 3 {
            proof {
                assert(!vstd::utf8::valid_leading_and_continuation_bytes_first_codepoint(rest));
            }
            return None;
        }
        let b1 = s[i + 1];
        let b2 = s[i + 2];
        proof {
            assert(rest[1] == s@[i as int + 1]);
            assert(rest[2] == s@[i as int + 2]);
        }
        if !(0x80 <= b1 && b1 <= 0xbf) || !(0x80 <= b2 && b2 <= 0xbf) {
            proof {
                assert(!vstd::utf8::valid_leading_and_continuation_bytes_first_codepoint(rest));
            }
            return None;
        }
        if b0 == 0xe0 && b1 < 0xa0 {
            proof {
                assert((((b0 & 0x0f) as u32) << 12) | (((b1 & 0x3f) as u32) << 6) | ((b2
                    & 0x3f) as u32) < 0x800) by (bit_vector)
                    requires
                        b0 == 0xe0 && 0x80 <= b1 < 0xa0,
                ;
            }
            None
        } else if b0 == 0xed && b1 >= 0xa0 {
            proof {
                assert({
                    let c = (((b0 & 0x0f) as u32) << 12) | (((b1 & 0x3f) as u32) << 6) | ((b2
                        & 0x3f) as u32);
                    0xd800 <= c <= 0xdfff
                }) by (bit_vector)
                    requires
                        b0 == 0xed && 0xa0 <= b1 <= 0xbf && 0x80 <= b2 <= 0xbf,
                ;
            }
            None
        } else {
            proof {
                assert({
                    let c = (((b0 & 0x0f) as u32) << 12) | (((b1 & 0x3f) as u32) << 6) | ((b2
                        & 0x3f) as u32);
                    0x800 <= c && !(0xd800 <= c <= 0xdfff)
                }) by (bit_vector)
                    requires
                        0xe0 <= b0 <= 0xef && 0x80 <= b1 <= 0xbf && 0x80 <= b2 <= 0xbf && !(b0
                            == 0xe0 && b1 < 0xa0) && !(b0 == 0xed && b1 >= 0xa0),
                ;
                assert(vstd::utf8::valid_first_scalar(rest));
            }
            Some(3)
        }
    } else if 0xf0 <= b0 && b0 <= 0xf7 {
        if n - i < 4 {
            proof {
                assert(!vstd::utf8::valid_leading_and_continuation_bytes_first_codepoint(rest));
            }
            return None;
        }
        let b1 = s[i + 1];
        let b2 = s[i + 2];
        let b3 = s[i + 3];
        proof {
            assert(rest[1] == s@[i as int + 1]);
            assert(rest[2] == s@[i as int + 2]);
            assert(rest[3] == s@[i as int + 3]);
        }
        if !(0x80 <= b1 && b1 <= 0xbf) || !(0x80 <= b2 && b2 <= 0xbf) || !(0x80 <= b3 && b3
            <= 0xbf) {
            proof {
                assert(!vstd::utf8::valid_leading_and_continuation_bytes_first_codepoint(rest));
            }
            return None;
        }
        if (b0 == 0xf0 && b1 < 0x90) || b0 > 0xf4 || (b0 == 0xf4 && b1 > 0x8f) {
            proof {
                assert({
                    let c = (((b0 & 0x07) as u32) << 18) | (((b1 & 0x3f) as u32) << 12) | (((b2
                        & 0x3f) as u32) << 6) | ((b3 & 0x3f) as u32);
                    !(0x10000 <= c <= 0x10ffff)
                }) by (bit_vector)
                    requires
                        0xf0 <= b0 <= 0xf7 && 0x80 <= b1 <= 0xbf && ((b0 == 0xf0 && b1 < 0x90)
                            || b0 > 0xf4 || (b0 == 0xf4 && b1 > 0x8f)),
                ;
            }
            None
        } else {
            proof {
                assert({
                    let c = (((b0 & 0x07) as u32) << 18) | (((b1 & 0x3f) as u32) << 12) | (((b2
                        & 0x3f) as u32) << 6) | ((b3 & 0x3f) as u32);
                    0x10000 <= c <= 0x10ffff && !(0xd800 <= c <= 0xdfff)
                }) by (bit_vector)
                    requires
                        0xf0 <= b0 <= 0xf7 && 0x80 <= b1 <= 0xbf && 0x80 <= b2 <= 0xbf && 0x80
                            <= b3 <= 0xbf && !((b0 == 0xf0 && b1 < 0x90) || b0 > 0xf4 || (b0
                            == 0xf4 && b1 > 0x8f)),
                ;
                assert(vstd::utf8::valid_first_scalar(rest));
            }
            Some(4)
        }
    } else {
        proof {
            assert(!vstd::utf8::valid_leading_and_continuation_bytes_first_codepoint(rest));
        }
        None
    }
}

/// True when `s` is well-formed UTF-8, as `str::from_utf8` accepts it.
pub fn utf8_valid(s: &[u8]) -> (r: bool)
    ensures
        r == vstd::utf8::valid_utf8(s@),
{
    let n = s.len();
    let mut i: usize = 0;
    while i < n
        invariant
            0 <= i <= n == s@.len(),
            vstd::utf8::partial_valid_utf8(s@, i as int),
        decreases n - i,
    {
        match scalar_width_at(s, i) {
            Some(w) => {
                proof {
                    assert(s@.skip(i as int) =~= s@.subrange(i as int, n as int));
                    vstd::utf8::partial_valid_utf8_extend(s@, i as int);
                }
                i = i + w;
            },
            None => {
                proof {
                    assert(s@.skip(i as int) =~= s@.subrange(i as int, n as int));
                    assert(!vstd::utf8::valid_utf8(s@.subrange(i as int, n as int)));
                    vstd::utf8::partial_valid_partial_invalid_utf8(s@, i as int);
                }
                return false;
            },
        }
    }
    proof {
        assert(s@.subrange(0, n as int) =~= s@);
    }
    true
}

} // verus!
