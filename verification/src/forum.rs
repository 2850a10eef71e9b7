//! Reading a subject's thread list.

use vstd::prelude::*;

use crate::model::{opt_view, thread_views, Thread, ThreadView};
use crate::scrape::{
    scraped_attrs, scraped_inner_attrs, scraped_inner_text_attrs, scraped_inner_texts,
    scraped_texts, select_attrs, select_inner_attrs, select_inner_text_attrs, select_inner_texts,
    select_texts, string_views, text_attr_view, text_attrs_view, values_view,
};
use crate::text::{
    all_digits, all_digits_exec, ascii_lowercase, before_char, before_char_chars,
    capped_decimal, chars_eq, chars_of, decimal, decimal_value, is_digit, find, find_chars, parse_u32, parse_u32_spec, prefix_upto, push_all,
    push_str, rfind_char, rfind_char_exec, split_words, starts_with, starts_with_chars,
    string_of, strip_repeated, strip_repeated_chars, trim, trimmed, u32_chars, views, words,
};

verus! {

broadcast use vstd::string::group_string_axioms;

/// A thread row of the forum listing.
pub const THREAD_ITEM: &'static str = ".js-threadList > .structItem--thread";

/// The thread's title link (not the prefix label link).
pub const THREAD_TITLE: &'static str = ".structItem-title > a:not(.labelLink)";

/// The thread's prefix label.
pub const THREAD_PREFIX: &'static str = ".structItem-title .label";

/// The thread starter's name.
pub const THREAD_AUTHOR: &'static str = ".structItem-parts .username";

/// The reply count cell.
pub const THREAD_REPLIES: &'static str = ".structItem-cell--meta dd";

/// The numbered page links of the page navigation.
pub const PAGE_NAV: &'static str = ".pageNav-main li.pageNav-page:not(.pageNav-page--skip)";

/// The class that carries a thread row's id.
pub const THREAD_CLASS_PREFIX: &'static str = "js-threadListItem-";

/// The path prefix of thread links.
pub const THREADS_PATH: &'static str = "/threads/";

/// The class prefix of prefix-label colours.
pub const LABEL_CLASS_PREFIX: &'static str = "label--";

// ---------------------------------------------------------------------------
// Thread id
// ---------------------------------------------------------------------------

/// The id carried by one class name, when it is `js-threadListItem-<id>`.
pub open spec fn class_id(w: Seq<char>) -> Option<u32> {
    if starts_with(w, THREAD_CLASS_PREFIX@) {
        parse_u32_spec(w.skip(THREAD_CLASS_PREFIX@.len() as int))
    } else {
        None
    }
}

/// The id of the first class name in `ws` that carries one.
pub open spec fn first_class_id(ws: Seq<Seq<char>>) -> Option<u32>
    decreases ws.len(),
{
    if ws.len() == 0 {
        None
    } else {
        match class_id(ws[0]) {
            Some(id) => Some(id),
            None => first_class_id(ws.drop_first()),
        }
    }
}

/// A thread row's id, read from its class list (0 when none is found).
pub open spec fn thread_id_spec(classes: Seq<char>) -> u32 {
    match first_class_id(words(classes)) {
        Some(id) => id,
        None => 0,
    }
}

fn class_id_exec(w: &[char], prefix: &[char]) -> (r: Option<u32>)
    requires
        prefix@ == THREAD_CLASS_PREFIX@,
    ensures
        r == class_id(w@),
{
    if starts_with_chars(w, prefix) {
        let rest = vstd::slice::slice_subrange(w, prefix.len(), w.len());
        assert(rest@ == w@.skip(prefix@.len() as int));
        parse_u32(rest)
    } else {
        None
    }
}

/// A thread row's id, read from its class list (0 when none is found).
pub fn thread_id(classes: &str) -> (r: u32)
    ensures
        r == thread_id_spec(classes@),
{
    let v = chars_of(classes);
    let ws = split_words(v.as_slice());
    let prefix = chars_of(THREAD_CLASS_PREFIX);
    let n = ws.len();
    let ghost all = views(ws@);
    assert(all.skip(0) == all);
    for i in 0..n
        invariant
            n == ws@.len(),
            all == views(ws@),
            all == words(classes@),
            prefix@ == THREAD_CLASS_PREFIX@,
            first_class_id(all) == first_class_id(all.skip(i as int)),
    {
        assert(all.skip(i as int)[0] == ws@[i as int]@);
        assert(all.skip(i as int).drop_first() == all.skip(i + 1));
        if let Some(id) = class_id_exec(ws[i].as_slice(), prefix.as_slice()) {
            return id;
        }
    }
    assert(all.skip(n as int).len() == 0);
    0
}

// ---------------------------------------------------------------------------
// Thread slug
// ---------------------------------------------------------------------------

/// The first path segment of `href` after the leading repetitions of
/// `prefix`, split at its last dot: `(name, id text)`.
pub open spec fn split_segment(href: Seq<char>, prefix: Seq<char>) -> Option<(Seq<char>, Seq<char>)> {
    let segment = before_char(strip_repeated(href, prefix), '/');
    match rfind_char(segment, '.') {
        Some(k) => Some((segment.take(k), segment.skip(k + 1))),
        None => None,
    }
}

/// The first path segment of `href` after the leading repetitions of
/// `prefix`, split at its last dot.
pub fn split_segment_chars(href: &[char], prefix: &str) -> (r: Option<(Vec<char>, Vec<char>)>)
    ensures
        r matches Some((a, b)) ==> split_segment(href@, prefix@) == Some((a@, b@)),
        r is None ==> split_segment(href@, prefix@) is None,
{
    let p = chars_of(prefix);
    let stripped = strip_repeated_chars(href, p.as_slice());
    let segment = before_char_chars(stripped.as_slice(), '/');
    let sl = segment.len();
    match rfind_char_exec(segment.as_slice(), '.') {
        Some(k) => {
            let mut name: Vec<char> = Vec::new();
            push_all(&mut name, vstd::slice::slice_subrange(segment.as_slice(), 0, k));
            let mut rest: Vec<char> = Vec::new();
            push_all(&mut rest, vstd::slice::slice_subrange(segment.as_slice(), k + 1, sl));
            assert(segment@.subrange(k + 1, sl as int) == segment@.skip(k + 1));
            Some((name, rest))
        },
        None => None,
    }
}

/// The slug of a thread link `/threads/<slug>.<id>/...`: the first path
/// segment after the `/threads/` prefixes, up to its last dot.
pub open spec fn thread_slug_spec(href: Seq<char>) -> Option<Seq<char>> {
    match split_segment(href, THREADS_PATH@) {
        Some((slug, _)) => Some(slug),
        None => None,
    }
}

fn slug_chars(href: &[char]) -> (r: Option<Vec<char>>)
    ensures
        r matches Some(s) ==> thread_slug_spec(href@) == Some(s@),
        r is None ==> thread_slug_spec(href@) is None,
{
    match split_segment_chars(href, THREADS_PATH) {
        Some((slug, _)) => Some(slug),
        None => None,
    }
}

/// The slug of a thread link, when its first segment holds a dot.
pub fn thread_slug(href: &str) -> (r: Option<String>)
    ensures
        opt_view(r) == thread_slug_spec(href@),
{
    let v = chars_of(href);
    match slug_chars(v.as_slice()) {
        Some(s) => Some(string_of(s.as_slice())),
        None => None,
    }
}

// ---------------------------------------------------------------------------
// Reply counts
// ---------------------------------------------------------------------------

/// `s` without one leading sign.
pub open spec fn unsigned_part(s: Seq<char>) -> Seq<char> {
    if s.len() > 0 && (s[0] == '+' || s[0] == '-') {
        s.drop_first()
    } else {
        s
    }
}

/// The integer and fraction digits of a decimal `int[.frac]`.
pub open spec fn decimal_parts(b: Seq<char>) -> (Seq<char>, Seq<char>) {
    match find(b, seq!['.']) {
        Some(p) => (b.take(p), b.skip(p + 1)),
        None => (b, seq![]),
    }
}

/// Whether `c` introduces an exponent.
pub open spec fn is_exp_marker(c: char) -> bool {
    c == 'e' || c == 'E'
}

/// The position of the first `e` or `E` in `b`.
pub open spec fn exp_marker(b: Seq<char>) -> Option<int>
    decreases b.len(),
{
    if b.len() == 0 {
        None
    } else {
        match exp_marker(b.drop_last()) {
            Some(k) => Some(k),
            None => if is_exp_marker(b.last()) {
                Some(b.len() - 1)
            } else {
                None
            },
        }
    }
}

/// An exponent `[+|-]digits`: whether it is negative, and its magnitude.
pub open spec fn exponent_parts(t: Seq<char>) -> Option<(bool, nat)> {
    let d = unsigned_part(t);
    if d.len() > 0 && all_digits(d) {
        Some((t.len() > 0 && t[0] == '-', decimal_value(d)))
    } else {
        None
    }
}

/// An unsigned decimal `int[.frac][e[+|-]exp]`, as the digits `int frac`
/// and the position of the decimal point among them once the number is
/// multiplied by 1000.
pub open spec fn decimal_number(b: Seq<char>) -> Option<(Seq<char>, int)> {
    let mant = match exp_marker(b) {
        Some(k) => b.take(k),
        None => b,
    };
    let exp = match exp_marker(b) {
        Some(k) => exponent_parts(b.skip(k + 1)),
        None => Some((false, 0nat)),
    };
    let (ip, fp) = decimal_parts(mant);
    match exp {
        Some((neg, m)) => if ip.len() + fp.len() > 0 && all_digits(ip) && all_digits(fp) {
            Some(
                (
                    ip + fp,
                    ip.len() + 3 + (if neg {
                        -(m as int)
                    } else {
                        m as int
                    }),
                ),
            )
        } else {
            None
        },
        None => None,
    }
}

/// `10^n`.
pub open spec fn pow10(n: nat) -> nat
    decreases n,
{
    if n == 0 {
        1
    } else {
        10 * pow10((n - 1) as nat)
    }
}

/// The integer part of the number whose digits are `digits` with the
/// decimal point after the first `p` of them.
pub open spec fn scaled_value(digits: Seq<char>, p: int) -> nat {
    if p <= 0 {
        0
    } else if p <= digits.len() {
        decimal_value(digits.take(p))
    } else {
        decimal_value(digits) * pow10((p - digits.len()) as nat)
    }
}

/// A count written in thousands (`1.2` for 1200), as `str::parse::<f32>`
/// reads the number: an optional sign, then `inf`, `infinity` or `nan` in any
/// case, or a decimal with optional fraction and exponent. The count is the
/// number times 1000, truncated and saturated to `u32`: 0 for a negative,
/// NaN or malformed number, `u32::MAX` for infinity.
///
/// The number is taken exactly, where a binary32 float keeps 24 significant
/// bits: the two differ only for numbers with more significant digits than
/// that (`16777.217` gives 16777217 here, where the float gives 16777216).
pub open spec fn thousands_spec(s: Seq<char>) -> u32 {
    let negative = s.len() > 0 && s[0] == '-';
    let b = unsigned_part(s);
    let lower = crate::text::ascii_lower_seq(b);
    if lower == "inf"@ || lower == "infinity"@ {
        if negative {
            0
        } else {
            u32::MAX
        }
    } else if lower == "nan"@ {
        0
    } else {
        match decimal_number(b) {
            Some((digits, p)) => if negative {
                0
            } else {
                saturated(scaled_value(digits, p))
            },
            None => 0,
        }
    }
}

/// The reply count shown in a row: a plain number, or a number of thousands
/// with a `K` suffix; 0 when unreadable.
pub open spec fn replies_spec(text: Seq<char>) -> u32 {
    let t = trim(text);
    if t.len() > 0 && t.last() == 'K' {
        thousands_spec(trim(t.drop_last()))
    } else {
        match parse_u32_spec(t) {
            Some(n) => n,
            None => 0,
        }
    }
}

fn exp_marker_exec(b: &[char]) -> (r: Option<usize>)
    ensures
        r matches Some(k) ==> exp_marker(b@) == Some(k as int) && k < b@.len(),
        r is None ==> exp_marker(b@) is None,
{
    let n = b.len();
    for i in 0..n
        invariant
            n == b@.len(),
            exp_marker(b@.take(i as int)) is None,
    {
        assert(b@.take(i + 1).drop_last() == b@.take(i as int));
        if b[i] == 'e' || b[i] == 'E' {
            proof {
                lemma_exp_marker_prefix(b@, (i + 1) as int);
            }
            return Some(i);
        }
    }
    assert(b@.take(n as int) == b@);
    None
}

proof fn lemma_exp_marker_prefix(b: Seq<char>, j: int)
    requires
        0 <= j <= b.len(),
        exp_marker(b.take(j)) is Some,
    ensures
        exp_marker(b) == exp_marker(b.take(j)),
    decreases b.len() - j,
{
    if j < b.len() {
        assert(b.take(j + 1).drop_last() == b.take(j));
        lemma_exp_marker_prefix(b, j + 1);
    } else {
        assert(b.take(j) == b);
    }
}

/// Largest exponent magnitude taken as it is written; larger ones decide
/// the count by their sign alone.
pub const EXPONENT_CAP: u128 = 0x10_0000_0000_0000_0000_0000_0000;

fn capped_decimal_wide(v: &[char], cap: u128) -> (r: u128)
    requires
        all_digits(v@),
        cap <= EXPONENT_CAP,
    ensures
        r == (if decimal_value(v@) < cap { decimal_value(v@) } else { cap as nat }),
{
    let n = v.len();
    let mut acc: u128 = 0;
    for i in 0..n
        invariant
            n == v@.len(),
            all_digits(v@),
            cap <= EXPONENT_CAP,
            acc == (if decimal_value(v@.take(i as int)) < cap {
                decimal_value(v@.take(i as int))
            } else {
                cap as nat
            }),
    {
        assert(v@.take(i + 1).drop_last() == v@.take(i as int));
        assert(is_digit(v@[i as int]));
        let d: u128 = ((v[i] as u32) - ('0' as u32)) as u128;
        let next = acc * 10 + d;
        acc = if next < cap {
            next
        } else {
            cap
        };
    }
    assert(v@.take(n as int) == v@);
    acc
}

fn exponent_parts_exec(t: &[char]) -> (r: Option<(bool, u128)>)
    ensures
        r matches Some((neg, m)) ==> exponent_parts(t@) matches Some((neg2, m2)) && neg == neg2
            && m == (if m2 < EXPONENT_CAP { m2 } else { EXPONENT_CAP as nat }),
        r is None ==> exponent_parts(t@) is None,
{
    let n = t.len();
    let neg = n > 0 && t[0] == '-';
    let start: usize = if n > 0 && (t[0] == '+' || t[0] == '-') {
        1
    } else {
        0
    };
    let d = vstd::slice::slice_subrange(t, start, n);
    assert(d@ == unsigned_part(t@));
    if d.len() > 0 && all_digits_exec(d) {
        Some((neg, capped_decimal_wide(d, EXPONENT_CAP)))
    } else {
        None
    }
}

proof fn lemma_pow10_pos(z: nat)
    ensures
        pow10(z) >= 1,
    decreases z,
{
    if z > 0 {
        lemma_pow10_pos((z - 1) as nat);
    }
}

proof fn lemma_pow10_mono(a: nat, b: nat)
    requires
        a <= b,
    ensures
        pow10(a) <= pow10(b),
    decreases b,
{
    if a < b {
        lemma_pow10_mono(a, (b - 1) as nat);
        lemma_pow10_pos((b - 1) as nat);
    }
}

proof fn lemma_pow10_eleven()
    ensures
        pow10(10) == 10_000_000_000,
        pow10(11) == 100_000_000_000,
{
    reveal_with_fuel(pow10, 12);
}

fn pow10_exec(z: u128) -> (r: u128)
    requires
        z <= 10,
    ensures
        r == pow10(z as nat),
{
    let mut r: u128 = 1;
    let mut i: u128 = 0;
    while i < z
        invariant
            i <= z <= 10,
            r == pow10(i as nat),
        decreases z - i,
    {
        proof {
            lemma_pow10_eleven();
            lemma_pow10_mono((i + 1) as nat, 10);
        }
        r = r * 10;
        i = i + 1;
    }
    r
}

/// `n` saturated to `u32`.
pub open spec fn saturated(n: nat) -> u32 {
    if n > u32::MAX {
        u32::MAX
    } else {
        n as u32
    }
}

/// The largest count, plus one: where counts saturate.
const COUNT_CAP: u64 = 0x1_0000_0000;

/// Once the decimal point lies 11 or more places past the digits, the
/// integer part saturates or is 0, wherever exactly the point lies.
proof fn lemma_scaled_far(digits: Seq<char>, p: int, q: int)
    requires
        digits.len() + 11 <= q <= p,
    ensures
        saturated(scaled_value(digits, p)) == saturated(scaled_value(digits, q)),
        decimal_value(digits) == 0 ==> scaled_value(digits, q) == 0,
        decimal_value(digits) > 0 ==> scaled_value(digits, q) > u32::MAX,
{
    let zp = (p - digits.len()) as nat;
    let zq = (q - digits.len()) as nat;
    lemma_pow10_eleven();
    lemma_pow10_mono(11, zq);
    lemma_pow10_mono(11, zp);
    let d = decimal_value(digits);
    if d > 0 {
        assert(d * pow10(zq) >= pow10(zq)) by (nonlinear_arith)
            requires
                d >= 1,
        ;
        assert(d * pow10(zp) >= pow10(zp)) by (nonlinear_arith)
            requires
                d >= 1,
        ;
    } else {
        assert(d * pow10(zq) == 0 && d * pow10(zp) == 0) by (nonlinear_arith)
            requires
                d == 0,
        ;
    }
}

/// The integer part of `all` with the decimal point after its first
/// `point` digits, saturated to `u32`.
fn scaled_count(all: &[char], point: u128) -> (r: u32)
    requires
        all_digits(all@),
    ensures
        r == saturated(scaled_value(all@, point as int)),
{
    let len = all.len() as u128;
    if point == 0 {
        return 0;
    }
    if point <= len {
        let t = vstd::slice::slice_subrange(all, 0, point as usize);
        assert(t@ == all@.take(point as int));
        assert(all_digits(t@));
        let value = capped_decimal(t, COUNT_CAP);
        if value > 0xffff_ffffu64 {
            u32::MAX
        } else {
            value as u32
        }
    } else {
        let z = point - len;
        let d = capped_decimal(all, COUNT_CAP);
        let ghost dv = decimal_value(all@);
        let ghost pz = pow10(z as nat);
        proof {
            lemma_pow10_pos(z as nat);
        }
        if d == 0 {
            assert(dv == 0);
            assert(dv * pz == 0) by (nonlinear_arith)
                requires
                    dv == 0,
            ;
            0
        } else if z >= 11 {
            proof {
                lemma_scaled_far(all@, point as int, point as int);
            }
            u32::MAX
        } else if d >= COUNT_CAP {
            assert(dv * pz >= dv) by (nonlinear_arith)
                requires
                    pz >= 1,
                    dv >= 0,
            ;
            u32::MAX
        } else {
            let scale = pow10_exec(z);
            proof {
                lemma_pow10_eleven();
                lemma_pow10_mono(z as nat, 10);
            }
            assert(d as int * scale <= 0x1_0000_0000 * 10_000_000_000) by (nonlinear_arith)
                requires
                    d < 0x1_0000_0000,
                    scale <= 10_000_000_000,
            ;
            let value: u128 = d as u128 * scale;
            if value > 0xffff_ffffu128 {
                u32::MAX
            } else {
                value as u32
            }
        }
    }
}

/// The digits of `ip` followed by those of `fp`.
fn concat_chars(ip: &[char], fp: &[char]) -> (r: Vec<char>)
    ensures
        r@ == ip@ + fp@,
{
    let mut all: Vec<char> = Vec::new();
    push_all(&mut all, ip);
    push_all(&mut all, fp);
    all
}

/// The count of an unsigned number `b` that is neither infinite nor NaN.
fn finite_thousands(b: &[char]) -> (r: u32)
    ensures
        r == (match decimal_number(b@) {
            Some((digits, p)) => saturated(scaled_value(digits, p)),
            None => 0,
        }),
{
    let bl = b.len();
    let marker = exp_marker_exec(b);
    let mant = match marker {
        Some(k) => vstd::slice::slice_subrange(b, 0, k),
        None => b,
    };
    let exp: Option<(bool, u128)> = match marker {
        Some(k) => {
            let t = vstd::slice::slice_subrange(b, k + 1, bl);
            assert(t@ == b@.skip(k + 1));
            exponent_parts_exec(t)
        },
        None => Some((false, 0)),
    };
    let mut dot: Vec<char> = Vec::new();
    dot.push('.');
    assert(dot@ == seq!['.']);
    let ml = mant.len();
    let (ip, fp) = match find_chars(mant, dot.as_slice(), 0) {
        Some(p) => (
            vstd::slice::slice_subrange(mant, 0, p),
            vstd::slice::slice_subrange(mant, p + 1, ml),
        ),
        None => (mant, vstd::slice::slice_subrange(mant, ml, ml)),
    };
    assert(ip@ == decimal_parts(mant@).0);
    assert(fp@ == decimal_parts(mant@).1);
    let (eneg, emag) = match exp {
        Some(e) => e,
        None => {
            return 0;
        },
    };
    if ip.len() + fp.len() == 0 || !all_digits_exec(ip) || !all_digits_exec(fp) {
        return 0;
    }
    let ghost digits = ip@ + fp@;
    let ghost p = decimal_number(b@).unwrap().1;
    assert(decimal_number(b@) == Some((digits, p)));
    let all = concat_chars(ip, fp);
    assert(all_digits(all@));
    let head = ip.len() as u128 + 3;
    if eneg {
        if emag >= head {
            assert(p <= 0);
            return 0;
        }
        assert(p == head - emag);
        scaled_count(all.as_slice(), head - emag)
    } else {
        let point = head + emag;
        proof {
            if emag == EXPONENT_CAP {
                lemma_scaled_far(digits, p, point as int);
            }
        }
        scaled_count(all.as_slice(), point)
    }
}

fn thousands(v: &[char]) -> (r: u32)
    ensures
        r == thousands_spec(v@),
{
    let n = v.len();
    let negative = n > 0 && v[0] == '-';
    let start: usize = if n > 0 && (v[0] == '+' || v[0] == '-') {
        1
    } else {
        0
    };
    let b = vstd::slice::slice_subrange(v, start, n);
    assert(b@ == unsigned_part(v@));
    let lower = ascii_lowercase(b);
    let inf = chars_of("inf");
    let infinity = chars_of("infinity");
    let nan = chars_of("nan");
    if chars_eq(lower.as_slice(), inf.as_slice()) || chars_eq(
        lower.as_slice(),
        infinity.as_slice(),
    ) {
        return if negative {
            0
        } else {
            u32::MAX
        };
    }
    if chars_eq(lower.as_slice(), nan.as_slice()) {
        return 0;
    }
    if negative {
        0
    } else {
        finite_thousands(b)
    }
}

/// The reply count of a row's text: a plain `u32`, or a number of thousands
/// followed by `K` (`1.2K` is 1200, `1e3K` a million, `infK` saturates).
/// The thousands are read exactly as written; a binary32 float would round
/// numbers with more than about seven significant digits first (`16777.217K`
/// gives 16777217 here, where the float reading gives 16777216).
pub fn parse_replies(text: &str) -> (r: u32)
    ensures
        r == replies_spec(text@),
{
    let v = chars_of(text);
    let t = trimmed(v.as_slice());
    let tl = t.len();
    if tl > 0 && t[tl - 1] == 'K' {
        let k = vstd::slice::slice_subrange(t.as_slice(), 0, tl - 1);
        assert(k@ == t@.drop_last());
        let kt = trimmed(k);
        thousands(kt.as_slice())
    } else {
        match parse_u32(t.as_slice()) {
            Some(n) => n,
            None => 0,
        }
    }
}

// ---------------------------------------------------------------------------
// Thread rows
// ---------------------------------------------------------------------------

/// What the listing shows of one thread row, as scraped: the row's class
/// list, the title link's target and text, the prefix label's text with its
/// class list (when the label has one), the starter's name and the reply
/// cell's text.
#[derive(Debug)]
pub struct ThreadRow {
    pub class: Option<String>,
    pub href: Option<String>,
    pub title: Option<String>,
    pub label: Option<(String, Option<String>)>,
    pub author: Option<String>,
    pub replies: Option<String>,
}

/// The mathematical value of a [`ThreadRow`].
pub struct ThreadRowView {
    pub class: Option<Seq<char>>,
    pub href: Option<Seq<char>>,
    pub title: Option<Seq<char>>,
    pub label: Option<(Seq<char>, Option<Seq<char>>)>,
    pub author: Option<Seq<char>>,
    pub replies: Option<Seq<char>>,
}

impl View for ThreadRow {
    type V = ThreadRowView;

    open spec fn view(&self) -> ThreadRowView {
        ThreadRowView {
            class: opt_view(self.class),
            href: opt_view(self.href),
            title: opt_view(self.title),
            label: text_attr_view(self.label),
            author: opt_view(self.author),
            replies: opt_view(self.replies),
        }
    }
}

/// The trimmed text, or the empty string when there is none.
pub open spec fn trimmed_or_empty(o: Option<Seq<char>>) -> Seq<char> {
    match o {
        Some(t) => trim(t),
        None => seq![],
    }
}

/// The first class name in `ws` that names a label colour (`label--*`).
pub open spec fn first_label_class(ws: Seq<Seq<char>>) -> Option<Seq<char>>
    decreases ws.len(),
{
    if ws.len() == 0 {
        None
    } else if starts_with(ws[0], LABEL_CLASS_PREFIX@) {
        Some(ws[0])
    } else {
        first_label_class(ws.drop_first())
    }
}

/// The link of a thread: `/threads/<slug>.<id>/`.
pub open spec fn thread_url(slug: Seq<char>, id: u32) -> Seq<char> {
    THREADS_PATH@ + slug + seq!['.'] + decimal(id as nat) + seq!['/']
}

/// The thread a row describes.
pub open spec fn thread_spec(row: ThreadRowView) -> ThreadView {
    let id = match row.class {
        Some(c) => thread_id_spec(c),
        None => 0,
    };
    let slug = match row.href {
        Some(h) => match thread_slug_spec(h) {
            Some(s) => s,
            None => seq![],
        },
        None => seq![],
    };
    ThreadView {
        id,
        slug,
        title: trimmed_or_empty(row.title),
        prefix: match row.label {
            Some((l, _)) => Some(trim(l)),
            None => None,
        },
        prefix_class: match row.label {
            Some((_, Some(c))) => first_label_class(words(c)),
            _ => None,
        },
        author: trimmed_or_empty(row.author),
        replies: match row.replies {
            Some(t) => replies_spec(t),
            None => 0,
        },
        url: thread_url(slug, id),
    }
}

fn trimmed_string_or_empty(o: &Option<String>) -> (r: String)
    ensures
        r@ == trimmed_or_empty(opt_view(*o)),
{
    match o {
        Some(t) => crate::text::trim_string(t.as_str()),
        None => string_of(&[]),
    }
}

fn label_class_of(classes: &str) -> (r: Option<String>)
    ensures
        opt_view(r) == first_label_class(words(classes@)),
{
    let v = chars_of(classes);
    let ws = split_words(v.as_slice());
    let prefix = chars_of(LABEL_CLASS_PREFIX);
    let n = ws.len();
    let ghost all = views(ws@);
    assert(all.skip(0) == all);
    for i in 0..n
        invariant
            n == ws@.len(),
            all == views(ws@),
            all == words(classes@),
            prefix@ == LABEL_CLASS_PREFIX@,
            first_label_class(all) == first_label_class(all.skip(i as int)),
    {
        assert(all.skip(i as int)[0] == ws@[i as int]@);
        assert(all.skip(i as int).drop_first() == all.skip(i + 1));
        if starts_with_chars(ws[i].as_slice(), prefix.as_slice()) {
            return Some(string_of(ws[i].as_slice()));
        }
    }
    assert(all.skip(n as int).len() == 0);
    None
}

/// The thread that a scraped row describes.
pub fn thread_from_row(row: &ThreadRow) -> (r: Thread)
    ensures
        r@ == thread_spec(row@),
{
    let id = match &row.class {
        Some(c) => thread_id(c.as_str()),
        None => 0,
    };
    let slug: Vec<char> = match &row.href {
        Some(h) => {
            let hv = chars_of(h.as_str());
            match slug_chars(hv.as_slice()) {
                Some(s) => s,
                None => Vec::new(),
            }
        },
        None => Vec::new(),
    };
    let mut url: Vec<char> = Vec::new();
    push_str(&mut url, THREADS_PATH);
    push_all(&mut url, slug.as_slice());
    url.push('.');
    let digits = u32_chars(id);
    push_all(&mut url, digits.as_slice());
    url.push('/');
    assert(url@ == thread_url(slug@, id));
    let prefix = match &row.label {
        Some((l, _)) => Some(crate::text::trim_string(l.as_str())),
        None => None,
    };
    let prefix_class = match &row.label {
        Some((_, Some(c))) => label_class_of(c.as_str()),
        _ => None,
    };
    let replies = match &row.replies {
        Some(t) => parse_replies(t.as_str()),
        None => 0,
    };
    Thread {
        id,
        slug: string_of(slug.as_slice()),
        title: trimmed_string_or_empty(&row.title),
        prefix,
        prefix_class,
        author: trimmed_string_or_empty(&row.author),
        replies,
        url: string_of(url.as_slice()),
    }
}

// ---------------------------------------------------------------------------
// Scraping the listing
// ---------------------------------------------------------------------------

/// The `i`-th value of a scraped column, when the column exists and is long
/// enough.
pub open spec fn value_at(vals: Option<Seq<Option<Seq<char>>>>, i: int) -> Option<Seq<char>> {
    match vals {
        Some(s) => if 0 <= i < s.len() {
            s[i]
        } else {
            None
        },
        None => None,
    }
}

/// The `i`-th entry of a scraped column of texts with attributes, when the
/// column exists and is long enough.
pub open spec fn text_attr_at(vals: Option<Seq<Option<(Seq<char>, Option<Seq<char>>)>>>, i: int) -> Option<
    (Seq<char>, Option<Seq<char>>),
> {
    match vals {
        Some(s) => if 0 <= i < s.len() {
            s[i]
        } else {
            None
        },
        None => None,
    }
}

/// The `i`-th entry of a scraped column of texts with attributes.
pub fn text_attr_at_exec(vals: &Option<Vec<Option<(String, Option<String>)>>>, i: usize) -> (r: Option<
    (String, Option<String>),
>)
    ensures
        text_attr_view(r) == text_attr_at(text_attrs_view(*vals), i as int),
{
    match vals {
        Some(v) => if i < v.len() {
            match &v[i] {
                Some((t, a)) => Some(
                    (
                        t.clone(),
                        match a {
                            Some(s) => Some(s.clone()),
                            None => None,
                        },
                    ),
                ),
                None => None,
            }
        } else {
            None
        },
        None => None,
    }
}

/// The number of values in a scraped column (0 when it is missing).
pub open spec fn column_len(vals: Option<Seq<Option<Seq<char>>>>) -> nat {
    match vals {
        Some(s) => s.len(),
        None => 0,
    }
}

/// The `i`-th value of a scraped column.
pub fn value_at_exec(vals: &Option<Vec<Option<String>>>, i: usize) -> (r: Option<String>)
    ensures
        opt_view(r) == value_at(values_view(*vals), i as int),
{
    match vals {
        Some(v) => if i < v.len() {
            match &v[i] {
                Some(s) => Some(s.clone()),
                None => None,
            }
        } else {
            None
        },
        None => None,
    }
}

/// The number of values in a scraped column.
pub fn column_len_exec(vals: &Option<Vec<Option<String>>>) -> (r: usize)
    ensures
        r == column_len(values_view(*vals)),
{
    match vals {
        Some(v) => v.len(),
        None => 0,
    }
}

/// The rows of the thread listing `html`, one per match of [`THREAD_ITEM`].
pub open spec fn thread_rows(html: Seq<char>) -> Seq<ThreadRowView> {
    let classes = scraped_attrs(html, THREAD_ITEM@, "class"@);
    let hrefs = scraped_inner_attrs(html, THREAD_ITEM@, THREAD_TITLE@, "href"@);
    let titles = scraped_inner_texts(html, THREAD_ITEM@, THREAD_TITLE@);
    let labels = scraped_inner_text_attrs(html, THREAD_ITEM@, THREAD_PREFIX@, "class"@);
    let authors = scraped_inner_texts(html, THREAD_ITEM@, THREAD_AUTHOR@);
    let replies = scraped_inner_texts(html, THREAD_ITEM@, THREAD_REPLIES@);
    Seq::new(
        column_len(classes),
        |i: int|
            ThreadRowView {
                class: value_at(classes, i),
                href: value_at(hrefs, i),
                title: value_at(titles, i),
                label: text_attr_at(labels, i),
                author: value_at(authors, i),
                replies: value_at(replies, i),
            },
    )
}

/// The threads listed on a forum page, in the order the parser
/// created their elements.
pub open spec fn parse_threads_spec(html: Seq<char>) -> Seq<ThreadView> {
    thread_rows(html).map_values(|row: ThreadRowView| thread_spec(row))
}

/// The threads listed on a forum page, in the order the parser
/// created their elements.
pub fn parse_threads(html: &str) -> (r: Vec<Thread>)
    ensures
        thread_views(r@) == parse_threads_spec(html@),
{
    let classes = select_attrs(html, THREAD_ITEM, "class");
    let hrefs = select_inner_attrs(html, THREAD_ITEM, THREAD_TITLE, "href");
    let titles = select_inner_texts(html, THREAD_ITEM, THREAD_TITLE);
    let labels = select_inner_text_attrs(html, THREAD_ITEM, THREAD_PREFIX, "class");
    let authors = select_inner_texts(html, THREAD_ITEM, THREAD_AUTHOR);
    let replies = select_inner_texts(html, THREAD_ITEM, THREAD_REPLIES);
    let ghost rows = thread_rows(html@);
    let n = column_len_exec(&classes);
    let mut out: Vec<Thread> = Vec::new();
    for i in 0..n
        invariant
            n == rows.len(),
            rows == thread_rows(html@),
            values_view(classes) == scraped_attrs(html@, THREAD_ITEM@, "class"@),
            values_view(hrefs) == scraped_inner_attrs(html@, THREAD_ITEM@, THREAD_TITLE@, "href"@),
            values_view(titles) == scraped_inner_texts(html@, THREAD_ITEM@, THREAD_TITLE@),
            text_attrs_view(labels) == scraped_inner_text_attrs(
                html@,
                THREAD_ITEM@,
                THREAD_PREFIX@,
                "class"@,
            ),
            values_view(authors) == scraped_inner_texts(html@, THREAD_ITEM@, THREAD_AUTHOR@),
            values_view(replies) == scraped_inner_texts(html@, THREAD_ITEM@, THREAD_REPLIES@),
            thread_views(out@) == rows.take(i as int).map_values(
                |row: ThreadRowView| thread_spec(row),
            ),
    {
        let row = ThreadRow {
            class: value_at_exec(&classes, i),
            href: value_at_exec(&hrefs, i),
            title: value_at_exec(&titles, i),
            label: text_attr_at_exec(&labels, i),
            author: value_at_exec(&authors, i),
            replies: value_at_exec(&replies, i),
        };
        assert(row@ == rows[i as int]);
        let t = thread_from_row(&row);
        let ghost before = out@;
        out.push(t);
        assert(thread_views(out@) =~= thread_views(before).push(t@));
        assert(rows.take(i + 1) == rows.take(i as int).push(rows[i as int]));
        assert(rows.take(i + 1).map_values(|row: ThreadRowView| thread_spec(row)) =~= rows.take(
            i as int,
        ).map_values(|row: ThreadRowView| thread_spec(row)).push(thread_spec(rows[i as int])));
    }
    assert(rows.take(n as int) == rows);
    out
}

// ---------------------------------------------------------------------------
// Page count
// ---------------------------------------------------------------------------

/// The largest page number among the navigation labels `ts` (labels that are
/// not numbers are skipped).
pub open spec fn max_page(ts: Seq<Seq<char>>) -> Option<u32>
    decreases ts.len(),
{
    if ts.len() == 0 {
        None
    } else {
        let prev = max_page(ts.drop_last());
        match parse_u32_spec(trim(ts.last())) {
            Some(v) => match prev {
                Some(p) => Some(
                    if p >= v {
                        p
                    } else {
                        v
                    },
                ),
                None => Some(v),
            },
            None => prev,
        }
    }
}

/// The page count the navigation labels `ts` announce: their largest number,
/// or 1 when there is none.
pub open spec fn page_count_spec(ts: Seq<Seq<char>>) -> u32 {
    match max_page(ts) {
        Some(m) => m,
        None => 1,
    }
}

/// The page count of a forum page.
pub open spec fn total_pages_spec(html: Seq<char>) -> u32 {
    page_count_spec(
        match scraped_texts(html, PAGE_NAV@) {
            Some(t) => t,
            None => seq![],
        },
    )
}

/// The page count announced by the navigation labels `labels`.
pub fn page_count(labels: &Vec<String>) -> (r: u32)
    ensures
        r == page_count_spec(string_views(labels@)),
{
    let n = labels.len();
    let ghost ts = string_views(labels@);
    let mut best: Option<u32> = None;
    for i in 0..n
        invariant
            n == labels@.len(),
            ts == string_views(labels@),
            best == max_page(ts.take(i as int)),
    {
        assert(ts.take(i + 1).drop_last() == ts.take(i as int));
        assert(ts.take(i + 1).last() == labels@[i as int]@);
        let v = chars_of(labels[i].as_str());
        let t = trimmed(v.as_slice());
        match parse_u32(t.as_slice()) {
            Some(p) => {
                best = match best {
                    Some(b) => Some(
                        if b >= p {
                            b
                        } else {
                            p
                        },
                    ),
                    None => Some(p),
                };
            },
            None => {},
        }
    }
    assert(ts.take(n as int) == ts);
    match best {
        Some(m) => m,
        None => 1,
    }
}

/// The page count of a forum page: its largest page link, or 1.
pub fn total_pages(html: &str) -> (r: u32)
    ensures
        r == total_pages_spec(html@),
{
    match select_texts(html, PAGE_NAV) {
        Some(ts) => page_count(&ts),
        None => {
            let empty: Vec<String> = Vec::new();
            assert(string_views(empty@) == Seq::<Seq<char>>::empty());
            page_count(&empty)
        },
    }
}

} // verus!
