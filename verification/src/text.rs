//! Character-level text utilities with exact specifications.
//!
//! Strings are handled as sequences of `char`; every function here states its
//! result over `Seq<char>` models.

use vstd::prelude::*;

verus! {

broadcast use vstd::string::group_string_axioms;

// ---------------------------------------------------------------------------
// Conversions between strings and character vectors
// ---------------------------------------------------------------------------

/// The characters of a string slice, in order.
pub fn chars_of(s: &str) -> (v: Vec<char>)
    ensures
        v@ == s@,
{
    let mut v: Vec<char> = Vec::new();
    for c in it: s.chars()
        invariant
            v@ == it.seq().take(it.index()),
            it.seq() == s@,
    {
        v.push(c);
    }
    v
}

/// Collects characters into an owned string (`FromIterator<char>` for `String`).
#[verifier::external_body]
pub(crate) fn string_of(v: &[char]) -> (s: String)
    ensures
        s@ == v@,
{
    v.iter().collect()
}

/// Appends every character of `s` to `out`.
pub fn push_all(out: &mut Vec<char>, s: &[char])
    ensures
        final(out)@ == old(out)@ + s@,
{
    let n = s.len();
    for i in 0..n
        invariant
            n == s@.len(),
            out@ == old(out)@ + s@.take(i as int),
    {
        out.push(s[i]);
        assert(s@.take(i + 1) == s@.take(i as int).push(s@[i as int]));
    }
    assert(s@.take(n as int) == s@);
}

/// Appends every character of `s` to `out`.
pub fn push_str(out: &mut Vec<char>, s: &str)
    ensures
        final(out)@ == old(out)@ + s@,
{
    let v = chars_of(s);
    push_all(out, v.as_slice());
}

/// Whether two character sequences are equal.
pub fn chars_eq(a: &[char], b: &[char]) -> (r: bool)
    ensures
        r == (a@ == b@),
{
    if a.len() != b.len() {
        return false;
    }
    let n = a.len();
    for i in 0..n
        invariant
            n == a@.len() == b@.len(),
            a@.take(i as int) == b@.take(i as int),
    {
        if a[i] != b[i] {
            assert(a@[i as int] != b@[i as int]);
            return false;
        }
        assert(a@.take(i + 1) == a@.take(i as int).push(a@[i as int]));
        assert(b@.take(i + 1) == b@.take(i as int).push(b@[i as int]));
    }
    assert(a@.take(n as int) == a@);
    assert(b@.take(n as int) == b@);
    true
}

// ---------------------------------------------------------------------------
// Whitespace and trimming
// ---------------------------------------------------------------------------

/// Unicode `White_Space` characters: exactly those for which
/// `char::is_whitespace` holds.
pub open spec fn is_ws(c: char) -> bool {
    ||| ('\u{9}' <= c && c <= '\u{d}')
    ||| c == ' '
    ||| c == '\u{85}'
    ||| c == '\u{a0}'
    ||| c == '\u{1680}'
    ||| ('\u{2000}' <= c && c <= '\u{200a}')
    ||| c == '\u{2028}'
    ||| c == '\u{2029}'
    ||| c == '\u{202f}'
    ||| c == '\u{205f}'
    ||| c == '\u{3000}'
}

/// Whether `c` is Unicode whitespace.
pub fn is_whitespace(c: char) -> (r: bool)
    ensures
        r == is_ws(c),
{
    ('\u{9}' <= c && c <= '\u{d}') || c == ' ' || c == '\u{85}' || c == '\u{a0}' || c
        == '\u{1680}' || ('\u{2000}' <= c && c <= '\u{200a}') || c == '\u{2028}' || c
        == '\u{2029}' || c == '\u{202f}' || c == '\u{205f}' || c == '\u{3000}'
}

/// `s` without its leading whitespace.
pub open spec fn trim_start(s: Seq<char>) -> Seq<char>
    decreases s.len(),
{
    if s.len() > 0 && is_ws(s[0]) {
        trim_start(s.drop_first())
    } else {
        s
    }
}

/// `s` without its trailing whitespace.
pub open spec fn trim_end(s: Seq<char>) -> Seq<char>
    decreases s.len(),
{
    if s.len() > 0 && is_ws(s.last()) {
        trim_end(s.drop_last())
    } else {
        s
    }
}

/// `s` without leading and trailing whitespace (`str::trim`).
pub open spec fn trim(s: Seq<char>) -> Seq<char> {
    trim_end(trim_start(s))
}

proof fn lemma_trim_start_skip(s: Seq<char>, i: int)
    requires
        0 <= i < s.len(),
        is_ws(s[i]),
    ensures
        trim_start(s.skip(i)) == trim_start(s.skip(i + 1)),
{
    assert(s.skip(i).drop_first() == s.skip(i + 1));
}

proof fn lemma_trim_end_sub(s: Seq<char>, i: int, j: int)
    requires
        0 <= i < j <= s.len(),
        is_ws(s[j - 1]),
    ensures
        trim_end(s.subrange(i, j)) == trim_end(s.subrange(i, j - 1)),
{
    assert(s.subrange(i, j).drop_last() == s.subrange(i, j - 1));
}

/// The bounds `(start, end)` of `v` with surrounding whitespace removed.
pub fn trim_bounds(v: &[char]) -> (r: (usize, usize))
    ensures
        r.0 <= r.1 <= v@.len(),
        v@.subrange(r.0 as int, r.1 as int) == trim(v@),
{
    let n = v.len();
    let mut i: usize = 0;
    assert(v@.skip(0) == v@);
    while i < n && is_whitespace(v[i])
        invariant
            i <= n == v@.len(),
            trim_start(v@) == trim_start(v@.skip(i as int)),
        decreases n - i,
    {
        proof {
            lemma_trim_start_skip(v@, i as int);
        }
        i = i + 1;
    }
    assert(trim_start(v@.skip(i as int)) == v@.skip(i as int));
    assert(v@.skip(i as int) == v@.subrange(i as int, n as int));
    let mut j: usize = n;
    while j > i && is_whitespace(v[j - 1])
        invariant
            i <= j <= n == v@.len(),
            trim(v@) == trim_end(v@.subrange(i as int, j as int)),
        decreases j,
    {
        proof {
            lemma_trim_end_sub(v@, i as int, j as int);
        }
        j = j - 1;
    }
    (i, j)
}

/// The characters of `v` with surrounding whitespace removed.
pub fn trimmed(v: &[char]) -> (r: Vec<char>)
    ensures
        r@ == trim(v@),
{
    let (a, b) = trim_bounds(v);
    let mut out: Vec<char> = Vec::new();
    push_all(&mut out, vstd::slice::slice_subrange(v, a, b));
    out
}

/// `s` with surrounding whitespace removed, as an owned string.
pub fn trim_string(s: &str) -> (r: String)
    ensures
        r@ == trim(s@),
{
    let v = chars_of(s);
    let (a, b) = trim_bounds(v.as_slice());
    string_of(vstd::slice::slice_subrange(v.as_slice(), a, b))
}

// ---------------------------------------------------------------------------
// Searching
// ---------------------------------------------------------------------------

/// Whether `n` occurs in `h` at position `i`.
pub open spec fn occurs_at(h: Seq<char>, n: Seq<char>, i: int) -> bool {
    0 <= i && i + n.len() <= h.len() && h.subrange(i, i + n.len()) == n
}

/// The first position at or after `i` where `n` occurs in `h` (`str::find`
/// for `i == 0`).
pub open spec fn find_from(h: Seq<char>, n: Seq<char>, i: int) -> Option<int>
    decreases h.len() + 1 - i,
{
    if i < 0 || i + n.len() > h.len() {
        None
    } else if h.subrange(i, i + n.len()) == n {
        Some(i)
    } else {
        find_from(h, n, i + 1)
    }
}

/// The first position where `n` occurs in `h`.
pub open spec fn find(h: Seq<char>, n: Seq<char>) -> Option<int> {
    find_from(h, n, 0)
}

/// Whether `n` occurs anywhere in `h` (`str::contains`).
pub open spec fn contains(h: Seq<char>, n: Seq<char>) -> bool {
    find(h, n) is Some
}

/// Whether `h` begins with `p` (`str::starts_with`).
pub open spec fn starts_with(h: Seq<char>, p: Seq<char>) -> bool {
    p.len() <= h.len() && h.take(p.len() as int) == p
}

/// `find_from` gives the first occurrence at or after `i`.
pub proof fn lemma_find_from(h: Seq<char>, n: Seq<char>, i: int)
    requires
        0 <= i,
    ensures
        find_from(h, n, i) matches Some(k) ==> {
            &&& i <= k
            &&& occurs_at(h, n, k)
            &&& forall|j: int| i <= j < k ==> !occurs_at(h, n, j)
        },
        find_from(h, n, i) is None ==> forall|j: int| i <= j ==> !occurs_at(h, n, j),
    decreases h.len() + 1 - i,
{
    if i + n.len() > h.len() {
    } else if h.subrange(i, i + n.len()) == n {
    } else {
        lemma_find_from(h, n, i + 1);
    }
}

/// Whether `n` occurs in `h` at position `i` (exec).
pub fn occurs_at_exec(h: &[char], n: &[char], i: usize) -> (r: bool)
    ensures
        r == occurs_at(h@, n@, i as int),
{
    if i > h.len() || n.len() > h.len() - i {
        return false;
    }
    let m = n.len();
    for k in 0..m
        invariant
            m == n@.len(),
            i + m <= h@.len(),
            i + m <= h.len(),
            h@.subrange(i as int, i + k) == n@.take(k as int),
    {
        if h[i + k] != n[k] {
            assert(h@.subrange(i as int, i + m)[k as int] != n@[k as int]);
            return false;
        }
        assert(h@.subrange(i as int, i + k + 1) == h@.subrange(i as int, i + k).push(h@[i + k]));
        assert(n@.take(k + 1) == n@.take(k as int).push(n@[k as int]));
    }
    assert(n@.take(m as int) == n@);
    true
}

/// The first position at or after `from` where `n` occurs in `h`.
pub fn find_chars(h: &[char], n: &[char], from: usize) -> (r: Option<usize>)
    ensures
        r matches Some(k) ==> find_from(h@, n@, from as int) == Some(k as int),
        r matches Some(k) ==> from <= k && k + n@.len() <= h@.len(),
        r is None ==> find_from(h@, n@, from as int) is None,
{
    proof {
        lemma_find_from(h@, n@, from as int);
    }
    let mut i = from;
    while i <= h.len() && n.len() <= h.len() - i
        invariant
            from <= i,
            find_from(h@, n@, from as int) == find_from(h@, n@, i as int),
        decreases h.len() - i,
    {
        if occurs_at_exec(h, n, i) {
            return Some(i);
        }
        assert(n@.len() == 0 ==> h@.subrange(i as int, i as int) =~= n@);
        i = i + 1;
    }
    None
}

/// Whether `n` occurs in `h`.
pub fn contains_chars(h: &[char], n: &[char]) -> (r: bool)
    ensures
        r == contains(h@, n@),
{
    find_chars(h, n, 0).is_some()
}

/// Whether `h` begins with `p`.
pub fn starts_with_chars(h: &[char], p: &[char]) -> (r: bool)
    ensures
        r == starts_with(h@, p@),
{
    let r = occurs_at_exec(h, p, 0);
    assert(h@.take(p@.len() as int) == h@.subrange(0, p@.len() as int));
    r
}

// ---------------------------------------------------------------------------
// ASCII case
// ---------------------------------------------------------------------------

/// `c` mapped by `char::to_ascii_lowercase`.
pub open spec fn ascii_lower(c: char) -> char {
    if 'A' <= c && c <= 'Z' {
        ((c as u32) + 32) as char
    } else {
        c
    }
}

/// `s` mapped by `str::to_ascii_lowercase`.
pub open spec fn ascii_lower_seq(s: Seq<char>) -> Seq<char> {
    s.map_values(|c: char| ascii_lower(c))
}

/// The ASCII-lowercased characters of `v`.
pub fn ascii_lowercase(v: &[char]) -> (r: Vec<char>)
    ensures
        r@ == ascii_lower_seq(v@),
{
    let mut out: Vec<char> = Vec::new();
    let n = v.len();
    for i in 0..n
        invariant
            n == v@.len(),
            out@ == ascii_lower_seq(v@.take(i as int)),
    {
        let c = v[i];
        let l = if 'A' <= c && c <= 'Z' {
            char_from_ascii_upper(c)
        } else {
            c
        };
        out.push(l);
        assert(v@.take(i + 1) == v@.take(i as int).push(c));
    }
    assert(v@.take(n as int) == v@);
    out
}

fn char_from_ascii_upper(c: char) -> (r: char)
    requires
        'A' <= c && c <= 'Z',
    ensures
        r == ascii_lower(c),
{
    let code: u32 = c as u32;
    let b: u8 = (code + 32) as u8;
    b as char
}

// ---------------------------------------------------------------------------
// Decimal numbers
// ---------------------------------------------------------------------------

/// Whether `c` is an ASCII decimal digit.
pub open spec fn is_digit(c: char) -> bool {
    '0' <= c && c <= '9'
}

/// The value of the decimal digit `c`.
pub open spec fn digit_value(c: char) -> nat {
    ((c as u32) - ('0' as u32)) as nat
}

/// Whether every character of `s` is a decimal digit.
pub open spec fn all_digits(s: Seq<char>) -> bool {
    forall|i: int| 0 <= i < s.len() ==> is_digit(#[trigger] s[i])
}

/// The value of the digit string `s`, read in base ten.
pub open spec fn decimal_value(s: Seq<char>) -> nat
    decreases s.len(),
{
    if s.len() == 0 {
        0
    } else {
        decimal_value(s.drop_last()) * 10 + digit_value(s.last())
    }
}

/// `s` without one leading `+` sign.
pub open spec fn unsigned_digits(s: Seq<char>) -> Seq<char> {
    if s.len() > 0 && s[0] == '+' {
        s.drop_first()
    } else {
        s
    }
}

/// What `str::parse::<u32>` gives: an optional `+`, then one or more digits
/// whose value fits in 32 bits.
pub open spec fn parse_u32_spec(s: Seq<char>) -> Option<u32> {
    let d = unsigned_digits(s);
    if d.len() > 0 && all_digits(d) && decimal_value(d) <= u32::MAX {
        Some(decimal_value(d) as u32)
    } else {
        None
    }
}

proof fn lemma_decimal_prefix_le(s: Seq<char>, j: int)
    requires
        0 <= j <= s.len(),
    ensures
        decimal_value(s.take(j)) <= decimal_value(s),
    decreases s.len(),
{
    if j < s.len() {
        lemma_decimal_prefix_le(s.drop_last(), j);
        assert(s.drop_last().take(j) == s.take(j));
    } else {
        assert(s.take(j) == s);
    }
}

/// Parses `v` as `str::parse::<u32>` does.
pub fn parse_u32(v: &[char]) -> (r: Option<u32>)
    ensures
        r == parse_u32_spec(v@),
{
    let n = v.len();
    let start: usize = if n > 0 && v[0] == '+' {
        1
    } else {
        0
    };
    let ghost d = unsigned_digits(v@);
    assert(d == v@.skip(start as int));
    if start == n {
        return None;
    }
    let mut acc: u64 = 0;
    let mut i = start;
    while i < n
        invariant
            start <= i <= n == v@.len(),
            d == v@.skip(start as int),
            d == unsigned_digits(v@),
            all_digits(d.take(i - start)),
            acc == decimal_value(d.take(i - start)),
            acc <= u32::MAX,
        decreases n - i,
    {
        let c = v[i];
        assert(d[i - start] == c);
        if !('0' <= c && c <= '9') {
            assert(!is_digit(d[i - start]));
            assert(!all_digits(d));
            assert(parse_u32_spec(v@) is None);
            return None;
        }
        let dv: u32 = (c as u32) - ('0' as u32);
        assert(d.take(i - start + 1).drop_last() == d.take(i - start));
        acc = acc * 10 + dv as u64;
        i = i + 1;
        if acc > 0xffff_ffffu64 {
            assert(decimal_value(d.take(i - start)) == acc);
            proof {
                if all_digits(d) {
                    lemma_decimal_prefix_le(d, i - start);
                }
            }
            assert(parse_u32_spec(v@) is None);
            return None;
        }
    }
    assert(d.take(n - start) == d);
    Some(acc as u32)
}

/// Parses a string slice as `str::parse::<u32>` does.
pub fn parse_u32_str(s: &str) -> (r: Option<u32>)
    ensures
        r == parse_u32_spec(s@),
{
    let v = chars_of(s);
    parse_u32(v.as_slice())
}

/// A digit string of length `k` is worth less than `10^k`.
pub proof fn lemma_decimal_bound(s: Seq<char>)
    requires
        all_digits(s),
        s.len() <= 3,
    ensures
        s.len() == 0 ==> decimal_value(s) == 0,
        s.len() == 1 ==> decimal_value(s) < 10,
        s.len() == 2 ==> decimal_value(s) < 100,
        s.len() == 3 ==> decimal_value(s) < 1000,
    decreases s.len(),
{
    if s.len() > 0 {
        assert(all_digits(s.drop_last()));
        lemma_decimal_bound(s.drop_last());
        assert(is_digit(s[s.len() - 1]));
    }
}

/// The ASCII digit for `d < 10`.
pub open spec fn digit_char(d: nat) -> char {
    (('0' as u32) + d) as char
}

/// The decimal representation of `n`, without leading zeros.
pub open spec fn decimal(n: nat) -> Seq<char>
    decreases n,
{
    if n < 10 {
        seq![digit_char(n)]
    } else {
        decimal(n / 10).push(digit_char(n % 10))
    }
}

fn digit_to_char(d: u32) -> (c: char)
    requires
        d < 10,
    ensures
        c == digit_char(d as nat),
{
    let b: u8 = (48 + d) as u8;
    b as char
}

/// The decimal representation of `n` (`u32::to_string`).
pub fn u32_chars(n: u32) -> (r: Vec<char>)
    ensures
        r@ == decimal(n as nat),
    decreases n,
{
    if n < 10 {
        let mut v: Vec<char> = Vec::new();
        v.push(digit_to_char(n));
        v
    } else {
        let mut v = u32_chars(n / 10);
        v.push(digit_to_char(n % 10));
        v
    }
}

/// The decimal representation of `n` (`u64::to_string`).
pub fn u64_chars(n: u64) -> (r: Vec<char>)
    ensures
        r@ == decimal(n as nat),
    decreases n,
{
    if n < 10 {
        let mut v: Vec<char> = Vec::new();
        v.push(digit_to_char(n as u32));
        v
    } else {
        let mut v = u64_chars(n / 10);
        v.push(digit_to_char((n % 10) as u32));
        v
    }
}

/// The decimal representation of a count (`usize::to_string`).
pub fn usize_chars(n: usize) -> (r: Vec<char>)
    ensures
        r@ == decimal(n as nat),
{
    u64_chars(n as u64)
}

/// A decimal representation is a non-empty string of digits.
pub proof fn lemma_decimal_digits(n: nat)
    ensures
        decimal(n).len() > 0,
        all_digits(decimal(n)),
    decreases n,
{
    if n >= 10 {
        lemma_decimal_digits(n / 10);
        assert(forall|i: int|
            0 <= i < decimal(n / 10).len() ==> decimal(n)[i] == #[trigger] decimal(n / 10)[i]);
    }
}

/// The decimal representation of `n` as an owned string.
pub fn u32_string(n: u32) -> (r: String)
    ensures
        r@ == decimal(n as nat),
{
    let v = u32_chars(n);
    string_of(v.as_slice())
}

// ---------------------------------------------------------------------------
// Whitespace-separated words
// ---------------------------------------------------------------------------

/// The pieces of `s` between the occurrences of `c` (`str::split`).
pub open spec fn split_char(s: Seq<char>, c: char) -> Seq<Seq<char>>
    decreases s.len(),
{
    if s.len() == 0 {
        seq![seq![]]
    } else {
        let ps = split_char(s.drop_last(), c);
        if s.last() == c {
            ps.push(seq![])
        } else {
            ps.update(ps.len() - 1, ps.last().push(s.last()))
        }
    }
}

/// `str::split` always yields at least one piece.
pub proof fn lemma_split_char_len(s: Seq<char>, c: char)
    ensures
        split_char(s, c).len() >= 1,
    decreases s.len(),
{
    if s.len() > 0 {
        lemma_split_char_len(s.drop_last(), c);
    }
}

/// The pieces of `v` between the occurrences of `c`.
pub fn split_char_exec(v: &[char], c: char) -> (r: Vec<Vec<char>>)
    ensures
        views(r@) == split_char(v@, c),
{
    let n = v.len();
    let mut done: Vec<Vec<char>> = Vec::new();
    let mut cur: Vec<char> = Vec::new();
    proof {
        assert(v@.take(0) == Seq::<char>::empty());
        assert(views(done@).push(cur@) =~= seq![Seq::<char>::empty()]);
    }
    for i in 0..n
        invariant
            n == v@.len(),
            views(done@).push(cur@) == split_char(v@.take(i as int), c),
    {
        let x = v[i];
        let ghost ps = split_char(v@.take(i as int), c);
        assert(v@.take(i + 1).drop_last() == v@.take(i as int));
        if x == c {
            let ghost old_done = done@;
            let piece = cur;
            done.push(piece);
            cur = Vec::new();
            assert(views(done@) =~= views(old_done).push(piece@));
            assert(views(done@).push(cur@) =~= ps.push(seq![]));
        } else {
            cur.push(x);
            assert(views(done@).push(cur@) =~= ps.update(ps.len() - 1, ps.last().push(x)));
        }
    }
    assert(v@.take(n as int) == v@);
    let ghost old_done = done@;
    let last = cur;
    done.push(last);
    assert(views(done@) =~= views(old_done).push(last@));
    done
}

/// The state of `str::split_whitespace` after reading `s`: the words that are
/// complete and the word in progress.
pub open spec fn scan_words(s: Seq<char>) -> (Seq<Seq<char>>, Seq<char>)
    decreases s.len(),
{
    if s.len() == 0 {
        (seq![], seq![])
    } else {
        let (ws, cur) = scan_words(s.drop_last());
        if is_ws(s.last()) {
            if cur.len() > 0 {
                (ws.push(cur), seq![])
            } else {
                (ws, cur)
            }
        } else {
            (ws, cur.push(s.last()))
        }
    }
}

/// The maximal runs of non-whitespace characters of `s`, in order
/// (`str::split_whitespace`).
pub open spec fn words(s: Seq<char>) -> Seq<Seq<char>> {
    let (ws, cur) = scan_words(s);
    if cur.len() > 0 {
        ws.push(cur)
    } else {
        ws
    }
}

/// The pieces of `ws` joined with `sep` between them (`[T]::join`).
pub open spec fn join(ws: Seq<Seq<char>>, sep: Seq<char>) -> Seq<char>
    decreases ws.len(),
{
    if ws.len() == 0 {
        seq![]
    } else if ws.len() == 1 {
        ws[0]
    } else {
        join(ws.drop_last(), sep) + sep + ws.last()
    }
}

/// The views of a vector of character vectors.
pub open spec fn views(v: Seq<Vec<char>>) -> Seq<Seq<char>> {
    v.map_values(|w: Vec<char>| w@)
}

/// The whitespace-separated words of `v`.
pub fn split_words(v: &[char]) -> (r: Vec<Vec<char>>)
    ensures
        views(r@) == words(v@),
{
    let mut ws: Vec<Vec<char>> = Vec::new();
    let mut cur: Vec<char> = Vec::new();
    let n = v.len();
    for i in 0..n
        invariant
            n == v@.len(),
            (views(ws@), cur@) == scan_words(v@.take(i as int)),
    {
        let c = v[i];
        assert(v@.take(i + 1).drop_last() == v@.take(i as int));
        if is_whitespace(c) {
            if cur.len() > 0 {
                let ghost old_ws = ws@;
                let done = cur;
                ws.push(done);
                cur = Vec::new();
                assert(views(ws@) == views(old_ws).push(done@));
                assert(cur@ == Seq::<char>::empty());
            }
        } else {
            cur.push(c);
        }
    }
    assert(v@.take(n as int) == v@);
    if cur.len() > 0 {
        let ghost old_ws = ws@;
        let done = cur;
        ws.push(done);
        assert(views(ws@) == views(old_ws).push(done@));
    }
    ws
}

/// The pieces of `ws` joined with `sep` between them.
pub fn join_chars(ws: &Vec<Vec<char>>, sep: &[char]) -> (r: Vec<char>)
    ensures
        r@ == join(views(ws@), sep@),
{
    let mut out: Vec<char> = Vec::new();
    let n = ws.len();
    for i in 0..n
        invariant
            n == ws@.len(),
            out@ == join(views(ws@).take(i as int), sep@),
    {
        assert(views(ws@).take(i + 1).drop_last() == views(ws@).take(i as int));
        if i > 0 {
            push_all(&mut out, sep);
        }
        push_all(&mut out, ws[i].as_slice());
        assert(views(ws@).take(i + 1).last() == ws@[i as int]@);
        assert(i == 0 ==> views(ws@).take(1) == seq![ws@[0]@]);
    }
    assert(views(ws@).take(n as int) == views(ws@));
    out
}

/// The words of `v` joined by single spaces.
pub fn collapse_whitespace(v: &[char]) -> (r: Vec<char>)
    ensures
        r@ == join(words(v@), seq![' ']),
{
    let ws = split_words(v);
    let mut sep: Vec<char> = Vec::new();
    sep.push(' ');
    join_chars(&ws, sep.as_slice())
}

/// The first `k` characters of `s`, or all of `s` when it is shorter
/// (`chars().take(k)`).
pub open spec fn prefix_upto(s: Seq<char>, k: nat) -> Seq<char> {
    if k < s.len() {
        s.take(k as int)
    } else {
        s
    }
}

/// The first `k` characters of `v` (all of them when it is shorter).
pub fn take_chars(v: &[char], k: usize) -> (r: Vec<char>)
    ensures
        r@ == prefix_upto(v@, k as nat),
{
    let m = if k < v.len() {
        k
    } else {
        v.len()
    };
    let mut out: Vec<char> = Vec::new();
    push_all(&mut out, vstd::slice::slice_subrange(v, 0, m));
    assert(v@.subrange(0, v@.len() as int) == v@);
    out
}

// ---------------------------------------------------------------------------
// Prefixes, suffixes and separators
// ---------------------------------------------------------------------------

/// `s` with every leading repetition of `p` removed (`str::trim_start_matches`).
pub open spec fn strip_repeated(s: Seq<char>, p: Seq<char>) -> Seq<char>
    decreases s.len(),
{
    if p.len() > 0 && starts_with(s, p) {
        strip_repeated(s.skip(p.len() as int), p)
    } else {
        s
    }
}

/// `s` with every leading repetition of `p` removed.
pub fn strip_repeated_chars(v: &[char], p: &[char]) -> (r: Vec<char>)
    ensures
        r@ == strip_repeated(v@, p@),
{
    let n = v.len();
    let mut i: usize = 0;
    assert(v@.skip(0) == v@);
    if p.len() > 0 {
        while i <= n && starts_with_chars(vstd::slice::slice_subrange(v, i, n), p)
            invariant
                i <= n == v@.len(),
                p@.len() > 0,
                strip_repeated(v@, p@) == strip_repeated(v@.skip(i as int), p@),
            decreases n - i,
        {
            assert(v@.subrange(i as int, n as int) == v@.skip(i as int));
            assert(v@.skip(i as int).skip(p@.len() as int) == v@.skip(i + p@.len()));
            i = i + p.len();
        }
    }
    assert(v@.subrange(i as int, n as int) == v@.skip(i as int));
    let mut out: Vec<char> = Vec::new();
    push_all(&mut out, vstd::slice::slice_subrange(v, i, n));
    out
}

/// The part of `s` before the first `c`, or all of `s`
/// (`s.split(c).next()`).
pub open spec fn before_char(s: Seq<char>, c: char) -> Seq<char> {
    match find(s, seq![c]) {
        Some(i) => s.take(i),
        None => s,
    }
}

/// The part of `v` before the first `c`, or all of `v`.
pub fn before_char_chars(v: &[char], c: char) -> (r: Vec<char>)
    ensures
        r@ == before_char(v@, c),
{
    let mut sep: Vec<char> = Vec::new();
    sep.push(c);
    assert(sep@ == seq![c]);
    let end = match find_chars(v, sep.as_slice(), 0) {
        Some(i) => i,
        None => v.len(),
    };
    let mut out: Vec<char> = Vec::new();
    push_all(&mut out, vstd::slice::slice_subrange(v, 0, end));
    assert(v@.subrange(0, v@.len() as int) == v@);
    out
}

/// The position of the last `c` in `s` (`str::rfind`).
pub open spec fn rfind_char(s: Seq<char>, c: char) -> Option<int>
    decreases s.len(),
{
    if s.len() == 0 {
        None
    } else if s.last() == c {
        Some(s.len() - 1)
    } else {
        rfind_char(s.drop_last(), c)
    }
}

/// The position of the last `c` in `v`.
pub fn rfind_char_exec(v: &[char], c: char) -> (r: Option<usize>)
    ensures
        r matches Some(k) ==> rfind_char(v@, c) == Some(k as int) && k < v@.len(),
        r is None ==> rfind_char(v@, c) is None,
{
    let mut j = v.len();
    assert(v@.take(j as int) == v@);
    while j > 0
        invariant
            j <= v@.len(),
            rfind_char(v@, c) == rfind_char(v@.take(j as int), c),
        decreases j,
    {
        assert(v@.take(j as int).drop_last() == v@.take(j - 1));
        if v[j - 1] == c {
            return Some(j - 1);
        }
        j = j - 1;
    }
    None
}

/// Whether every character of `v` is a decimal digit.
pub fn all_digits_exec(v: &[char]) -> (r: bool)
    ensures
        r == all_digits(v@),
{
    let n = v.len();
    for i in 0..n
        invariant
            n == v@.len(),
            forall|k: int| 0 <= k < i ==> is_digit(#[trigger] v@[k]),
    {
        if !('0' <= v[i] && v[i] <= '9') {
            assert(!is_digit(v@[i as int]));
            return false;
        }
    }
    true
}

/// The value of the digit string `v`, or `cap` when it is at least `cap`.
pub fn capped_decimal(v: &[char], cap: u64) -> (r: u64)
    requires
        all_digits(v@),
        cap <= 0xffff_ffff_ffff,
    ensures
        r == (if decimal_value(v@) < cap { decimal_value(v@) } else { cap as nat }),
{
    let n = v.len();
    let mut acc: u64 = 0;
    for i in 0..n
        invariant
            n == v@.len(),
            all_digits(v@),
            cap <= 0xffff_ffff_ffff,
            acc == (if decimal_value(v@.take(i as int)) < cap {
                decimal_value(v@.take(i as int))
            } else {
                cap as nat
            }),
    {
        assert(v@.take(i + 1).drop_last() == v@.take(i as int));
        assert(is_digit(v@[i as int]));
        let d: u64 = ((v[i] as u32) - ('0' as u32)) as u64;
        let next = acc * 10 + d;
        acc = if next < cap {
            next
        } else {
            cap
        };
    }
    assert(v@.take(n as int) == v@);
    acc
}

} // verus!
