//! Character-level text model: the string operations that the parsers use,
//! each stated over `Seq<char>`.

use vstd::prelude::*;
use crate::trusted::{from_utf8_lossy, utf8_lossy};
use vstd::utf8::{decode_utf8, valid_utf8};

verus! {

// ---------------------------------------------------------------------------
// Spec model
// ---------------------------------------------------------------------------

/// Unicode `White_Space`, the set that `char::is_whitespace` tests.
pub open spec fn is_ws(c: char) -> bool {
    let u = c as u32;
    (9 <= u <= 13) || u == 32 || u == 0x85 || u == 0xA0 || u == 0x1680 || (0x2000 <= u <= 0x200A)
        || u == 0x2028 || u == 0x2029 || u == 0x202F || u == 0x205F || u == 0x3000
}

pub open spec fn is_digit(c: char) -> bool {
    '0' <= c && c <= '9'
}

pub open spec fn is_hex_digit(c: char) -> bool {
    ('0' <= c && c <= '9') || ('a' <= c && c <= 'f') || ('A' <= c && c <= 'F')
}

/// `s` with leading whitespace removed.
pub open spec fn trim_start(s: Seq<char>) -> Seq<char>
    decreases s.len(),
{
    if s.len() > 0 && is_ws(s[0]) {
        trim_start(s.drop_first())
    } else {
        s
    }
}

/// `s` with trailing whitespace removed.
pub open spec fn trim_end(s: Seq<char>) -> Seq<char>
    decreases s.len(),
{
    if s.len() > 0 && is_ws(s.last()) {
        trim_end(s.drop_last())
    } else {
        s
    }
}

/// `str::trim`.
pub open spec fn trim(s: Seq<char>) -> Seq<char> {
    trim_end(trim_start(s))
}

/// `str::split` on a single character: the pieces between separators,
/// empty pieces included; an empty text gives one empty piece.
pub open spec fn split(s: Seq<char>, sep: char) -> Seq<Seq<char>>
    decreases s.len(),
{
    if s.len() == 0 {
        seq![Seq::empty()]
    } else {
        let p = split(s.drop_last(), sep);
        if s.last() == sep {
            p.push(Seq::empty())
        } else {
            p.update(p.len() - 1, p.last().push(s.last()))
        }
    }
}

/// A line's trailing carriage return, dropped when the line ended in `\n`.
pub open spec fn strip_cr(l: Seq<char>) -> Seq<char> {
    if l.len() > 0 && l.last() == '\r' {
        l.drop_last()
    } else {
        l
    }
}

/// `str::lines`: pieces between `\n`, a `\r` before the `\n` dropped, and no
/// final empty line.
/// Each piece with its trailing carriage return dropped.
pub open spec fn strip_all(ps: Seq<Seq<char>>) -> Seq<Seq<char>>
    decreases ps.len(),
{
    if ps.len() == 0 {
        Seq::empty()
    } else {
        strip_all(ps.drop_last()).push(strip_cr(ps.last()))
    }
}

pub open spec fn lines(s: Seq<char>) -> Seq<Seq<char>> {
    let p = split(s, '\n');
    let body = strip_all(p.drop_last());
    if p.last().len() == 0 {
        body
    } else {
        body.push(p.last())
    }
}

/// `str::split_whitespace`: the maximal runs of non-whitespace characters.
pub open spec fn words(s: Seq<char>) -> Seq<Seq<char>>
    decreases s.len(),
{
    if s.len() == 0 {
        Seq::empty()
    } else {
        let w = words(s.drop_last());
        let c = s.last();
        if is_ws(c) {
            w
        } else if s.len() >= 2 && !is_ws(s[s.len() - 2]) {
            w.update(w.len() - 1, w.last().push(c))
        } else {
            w.push(seq![c])
        }
    }
}

/// `str::starts_with` for a text prefix.
pub open spec fn starts_with(s: Seq<char>, p: Seq<char>) -> bool {
    p.len() <= s.len() && s.subrange(0, p.len() as int) == p
}

/// `p` occurs in `s` at position `i`.
pub open spec fn occurs_at(s: Seq<char>, p: Seq<char>, i: int) -> bool {
    0 <= i && i + p.len() <= s.len() && s.subrange(i, i + p.len()) == p
}

/// The first position at or after `i` where `p` occurs in `s`.
pub open spec fn find_from(s: Seq<char>, p: Seq<char>, i: int) -> Option<int>
    decreases s.len() + 1 - i,
{
    if i < 0 || i + p.len() > s.len() {
        None
    } else if occurs_at(s, p, i) {
        Some(i)
    } else {
        find_from(s, p, i + 1)
    }
}

/// `str::find` for a text pattern, as a character position.
pub open spec fn find(s: Seq<char>, p: Seq<char>) -> Option<int> {
    find_from(s, p, 0)
}

/// `str::contains` for a text pattern.
pub open spec fn contains(s: Seq<char>, p: Seq<char>) -> bool {
    find(s, p) is Some
}

/// `s` with every `from` replaced by `to`.
pub open spec fn replace_char(s: Seq<char>, from: char, to: char) -> Seq<char> {
    s.map_values(|c: char| if c == from { to } else { c })
}

/// The value of a run of decimal digits.
pub open spec fn digits_value(d: Seq<char>) -> nat
    decreases d.len(),
{
    if d.len() == 0 {
        0
    } else {
        digits_value(d.drop_last()) * 10 + ((d.last() as u32) - 48) as nat
    }
}

pub open spec fn all_digits(d: Seq<char>) -> bool {
    forall|i: int| 0 <= i < d.len() ==> is_digit(#[trigger] d[i])
}

/// The digits of an unsigned number: one leading `+` is allowed.
pub open spec fn unsigned_digits(s: Seq<char>) -> Seq<char> {
    if s.len() > 0 && s[0] == '+' {
        s.drop_first()
    } else {
        s
    }
}

/// `str::parse` for an unsigned integer type whose largest value is `max`.
pub open spec fn parse_uint(s: Seq<char>, max: nat) -> Option<nat> {
    let d = unsigned_digits(s);
    if d.len() > 0 && all_digits(d) && digits_value(d) <= max {
        Some(digits_value(d))
    } else {
        None
    }
}

pub open spec fn parse_u64_spec(s: Seq<char>) -> Option<u64> {
    match parse_uint(s, u64::MAX as nat) {
        Some(v) => Some(v as u64),
        None => None,
    }
}

pub open spec fn digit_char(d: nat) -> char {
    ((d % 10) + 48) as char
}

/// The decimal form of `n`, as `to_string` writes it.
pub open spec fn decimal(n: nat) -> Seq<char>
    decreases n,
{
    if n < 10 {
        seq![digit_char(n)]
    } else {
        decimal(n / 10).push(digit_char(n % 10))
    }
}

/// The views of a sequence of strings.
pub open spec fn str_views(v: Seq<String>) -> Seq<Seq<char>> {
    v.map_values(|x: String| x@)
}

/// The views of a sequence of character vectors.
pub open spec fn views(v: Seq<Vec<char>>) -> Seq<Seq<char>> {
    v.map_values(|x: Vec<char>| x@)
}

/// `s` with leading copies of `c` removed.
pub open spec fn strip_start(s: Seq<char>, c: char) -> Seq<char>
    decreases s.len(),
{
    if s.len() > 0 && s[0] == c {
        strip_start(s.drop_first(), c)
    } else {
        s
    }
}

/// `s` with trailing copies of `c` removed.
pub open spec fn strip_end(s: Seq<char>, c: char) -> Seq<char>
    decreases s.len(),
{
    if s.len() > 0 && s.last() == c {
        strip_end(s.drop_last(), c)
    } else {
        s
    }
}

/// `str::trim_matches` for one character.
pub open spec fn trim_matches(s: Seq<char>, c: char) -> Seq<char> {
    strip_end(strip_start(s, c), c)
}

/// Every character of `s` satisfies `p`.
pub open spec fn all_chars(s: Seq<char>, p: spec_fn(char) -> bool) -> bool {
    forall|i: int| 0 <= i < s.len() ==> p(#[trigger] s[i])
}

pub open spec fn is_ascii_upper(c: char) -> bool {
    'A' <= c && c <= 'Z'
}

pub open spec fn ascii_char() -> spec_fn(char) -> bool {
    |c: char| (c as u32) < 128
}

pub open spec fn not_upper() -> spec_fn(char) -> bool {
    |c: char| !is_ascii_upper(c)
}

/// Only ASCII characters.
pub open spec fn ascii_text(s: Seq<char>) -> bool {
    all_chars(s, ascii_char())
}

/// No ASCII capital letter.
pub open spec fn no_upper(s: Seq<char>) -> bool {
    all_chars(s, not_upper())
}

/// `r` is `s` with each ASCII capital replaced by its small letter.
pub open spec fn ascii_lowered(s: Seq<char>, r: Seq<char>) -> bool {
    &&& r.len() == s.len()
    &&& forall|i: int|
        0 <= i < s.len() ==> if is_ascii_upper(#[trigger] s[i]) {
            r[i] as u32 == s[i] as u32 + 32
        } else {
            r[i] == s[i]
        }
}

// ---------------------------------------------------------------------------
// Lemmas
// ---------------------------------------------------------------------------

pub proof fn lemma_split_nonempty(s: Seq<char>, sep: char)
    ensures
        split(s, sep).len() >= 1,
    decreases s.len(),
{
    if s.len() > 0 {
        lemma_split_nonempty(s.drop_last(), sep);
    }
}

pub proof fn lemma_words_nonempty(s: Seq<char>)
    requires
        s.len() > 0,
        !is_ws(s.last()),
    ensures
        words(s).len() >= 1,
    decreases s.len(),
{
    if s.len() >= 2 && !is_ws(s[s.len() - 2]) {
        lemma_words_nonempty(s.drop_last());
    }
}

pub proof fn lemma_trim_start_sub(s: Seq<char>, i: int)
    requires
        0 <= i <= s.len(),
        forall|j: int| 0 <= j < i ==> is_ws(#[trigger] s[j]),
    ensures
        trim_start(s) == trim_start(s.subrange(i, s.len() as int)),
    decreases i,
{
    if i > 0 {
        assert(s.drop_first().subrange(i - 1, s.drop_first().len() as int) =~= s.subrange(
            i,
            s.len() as int,
        ));
        lemma_trim_start_sub(s.drop_first(), i - 1);
    } else {
        assert(s.subrange(0, s.len() as int) =~= s);
    }
}

pub proof fn lemma_trim_end_sub(s: Seq<char>, k: int)
    requires
        0 <= k <= s.len(),
        forall|j: int| k <= j < s.len() ==> is_ws(#[trigger] s[j]),
    ensures
        trim_end(s) == trim_end(s.subrange(0, k)),
    decreases s.len() - k,
{
    if k < s.len() {
        assert(s.drop_last().subrange(0, k) =~= s.subrange(0, k));
        lemma_trim_end_sub(s.drop_last(), k);
    } else {
        assert(s.subrange(0, k) =~= s);
    }
}

pub proof fn lemma_strip_start_sub(s: Seq<char>, c: char, i: int)
    requires
        0 <= i <= s.len(),
        forall|j: int| 0 <= j < i ==> #[trigger] s[j] == c,
    ensures
        strip_start(s, c) == strip_start(s.subrange(i, s.len() as int), c),
    decreases i,
{
    if i > 0 {
        assert(s.drop_first().subrange(i - 1, s.drop_first().len() as int) =~= s.subrange(
            i,
            s.len() as int,
        ));
        lemma_strip_start_sub(s.drop_first(), c, i - 1);
    } else {
        assert(s.subrange(0, s.len() as int) =~= s);
    }
}

pub proof fn lemma_strip_end_sub(s: Seq<char>, c: char, k: int)
    requires
        0 <= k <= s.len(),
        forall|j: int| k <= j < s.len() ==> #[trigger] s[j] == c,
    ensures
        strip_end(s, c) == strip_end(s.subrange(0, k), c),
    decreases s.len() - k,
{
    if k < s.len() {
        assert(s.drop_last().subrange(0, k) =~= s.subrange(0, k));
        lemma_strip_end_sub(s.drop_last(), c, k);
    } else {
        assert(s.subrange(0, k) =~= s);
    }
}

/// Each piece of a split text has the properties that every character of the
/// text has.
pub proof fn lemma_split_chars(s: Seq<char>, sep: char, p: spec_fn(char) -> bool)
    requires
        all_chars(s, p),
    ensures
        forall|k: int| 0 <= k < split(s, sep).len() ==> all_chars(#[trigger] split(s, sep)[k], p),
    decreases s.len(),
{
    if s.len() > 0 {
        let d = s.drop_last();
        assert forall|i: int| 0 <= i < d.len() implies p(#[trigger] d[i]) by {
            assert(d[i] == s[i]);
        }
        lemma_split_chars(d, sep, p);
        lemma_split_nonempty(d, sep);
        let w = split(d, sep);
        let c = s.last();
        assert(p(s[s.len() - 1]));
        if c != sep {
            let u = w.last().push(c);
            assert(all_chars(w[w.len() - 1], p));
            assert forall|i: int| 0 <= i < u.len() implies p(#[trigger] u[i]) by {
                if i < w.last().len() {
                    assert(u[i] == w[w.len() - 1][i]);
                }
            }
            assert forall|k: int| 0 <= k < split(s, sep).len() implies all_chars(#[trigger] split(s, sep)[k], p) by {
                if k < w.len() - 1 {
                    assert(split(s, sep)[k] == w[k]);
                } else {
                    assert(split(s, sep)[k] == u);
                }
            }
        } else {
            assert forall|k: int| 0 <= k < split(s, sep).len() implies all_chars(#[trigger] split(s, sep)[k], p) by {
                if k < w.len() {
                    assert(split(s, sep)[k] == w[k]);
                } else {
                    assert(split(s, sep)[k] =~= Seq::<char>::empty());
                }
            }
        }
    }
}

/// Replacing a character by one that has a property keeps the property.
pub proof fn lemma_replace_chars(s: Seq<char>, from: char, to: char, p: spec_fn(char) -> bool)
    requires
        all_chars(s, p),
        p(to),
    ensures
        all_chars(replace_char(s, from, to), p),
{
    let r = replace_char(s, from, to);
    assert forall|i: int| 0 <= i < r.len() implies p(#[trigger] r[i]) by {
        assert(p(s[i]));
    }
}

/// Prefix values grow: a longer run of digits is worth at least as much.
pub proof fn lemma_digits_value_mono(d: Seq<char>, k: int)
    requires
        0 <= k <= d.len(),
        all_digits(d),
    ensures
        digits_value(d.take(k)) <= digits_value(d),
    decreases d.len() - k,
{
    if k < d.len() {
        lemma_digits_value_mono(d, k + 1);
        assert(d.take(k + 1).drop_last() =~= d.take(k));
        assert(is_digit(d[k]));
    } else {
        assert(d.take(k) =~= d);
    }
}

// ---------------------------------------------------------------------------
// Executable operations
// ---------------------------------------------------------------------------

/// The characters of `s`, in order.
pub fn chars_of(s: &str) -> (res: Vec<char>)
    ensures
        res@ == s@,
{
    let mut res: Vec<char> = Vec::new();
    for c in it: s.chars()
        invariant
            res@ == it.seq().take(it.index()),
            it.seq() == s@,
    {
        res.push(c);
    }
    res
}

/// The string made of the characters of `v` (std's `String::from_iter`).
#[verifier::external_body]
pub(crate) fn string_of(v: &[char]) -> (res: String)
    ensures
        res@ == v@,
{
    v.iter().collect::<String>()
}

/// A copy of `s[from..to]`.
pub fn slice_copy(s: &[char], from: usize, to: usize) -> (res: Vec<char>)
    requires
        from <= to <= s@.len(),
    ensures
        res@ == s@.subrange(from as int, to as int),
{
    let mut res: Vec<char> = Vec::new();
    let mut i = from;
    while i < to
        invariant
            from <= i <= to <= s@.len(),
            res@ == s@.subrange(from as int, i as int),
        decreases to - i,
    {
        res.push(s[i]);
        i += 1;
        assert(res@ =~= s@.subrange(from as int, i as int));
    }
    res
}

pub fn char_is_ws(c: char) -> (b: bool)
    ensures
        b == is_ws(c),
{
    let u = c as u32;
    (9 <= u && u <= 13) || u == 32 || u == 0x85 || u == 0xA0 || u == 0x1680 || (0x2000 <= u && u
        <= 0x200A) || u == 0x2028 || u == 0x2029 || u == 0x202F || u == 0x205F || u == 0x3000
}

pub fn char_is_digit(c: char) -> (b: bool)
    ensures
        b == is_digit(c),
{
    '0' <= c && c <= '9'
}

pub fn char_is_hex_digit(c: char) -> (b: bool)
    ensures
        b == is_hex_digit(c),
{
    ('0' <= c && c <= '9') || ('a' <= c && c <= 'f') || ('A' <= c && c <= 'F')
}

/// `str::trim`.
pub fn trim_chars(s: &[char]) -> (res: Vec<char>)
    ensures
        res@ == trim(s@),
{
    let n = s.len();
    let mut i: usize = 0;
    while i < n && char_is_ws(s[i])
        invariant
            0 <= i <= n == s@.len(),
            forall|j: int| 0 <= j < i ==> is_ws(#[trigger] s@[j]),
        decreases n - i,
    {
        i += 1;
    }
    proof {
        lemma_trim_start_sub(s@, i as int);
    }
    let ghost t = s@.subrange(i as int, n as int);
    assert(t.len() == 0 || !is_ws(t[0]));
    assert(trim_start(t) == t);
    let mut k: usize = n;
    while k > i && char_is_ws(s[k - 1])
        invariant
            i <= k <= n == s@.len(),
            t == s@.subrange(i as int, n as int),
            forall|j: int| k <= j < n ==> is_ws(#[trigger] s@[j]),
        decreases k,
    {
        k -= 1;
    }
    proof {
        assert forall|j: int| (k - i) <= j < t.len() implies is_ws(#[trigger] t[j]) by {
            assert(t[j] == s@[j + i]);
        }
        lemma_trim_end_sub(t, k - i);
        assert(t.subrange(0, k - i) =~= s@.subrange(i as int, k as int));
        let u = s@.subrange(i as int, k as int);
        assert(u.len() == 0 || !is_ws(u.last()));
    }
    slice_copy(s, i, k)
}

/// `str::split` on one character.
pub fn split_chars(s: &[char], sep: char) -> (res: Vec<Vec<char>>)
    ensures
        views(res@) == split(s@, sep),
{
    let mut parts: Vec<Vec<char>> = Vec::new();
    let mut cur: Vec<char> = Vec::new();
    let n = s.len();
    for i in 0..n
        invariant
            n == s@.len(),
            views(parts@).push(cur@) == split(s@.take(i as int), sep),
    {
        let c = s[i];
        proof {
            assert(s@.take(i + 1).drop_last() =~= s@.take(i as int));
            lemma_split_nonempty(s@.take(i as int), sep);
        }
        if c == sep {
            let old_cur = cur;
            cur = Vec::new();
            parts.push(old_cur);
            assert(views(parts@).push(cur@) =~= split(s@.take(i + 1), sep));
        } else {
            cur.push(c);
            assert(views(parts@).push(cur@) =~= split(s@.take(i + 1), sep));
        }
    }
    assert(s@.take(n as int) =~= s@);
    parts.push(cur);
    assert(views(parts@) =~= split(s@, sep));
    parts
}

/// `str::lines`.
pub fn lines_of(s: &[char]) -> (res: Vec<Vec<char>>)
    ensures
        views(res@) == lines(s@),
{
    let p = split_chars(s, '\n');
    proof {
        lemma_split_nonempty(s@, '\n');
    }
    let ghost ps = split(s@, '\n');
    let m = p.len();
    let mut res: Vec<Vec<char>> = Vec::new();
    let mut i: usize = 0;
    while i + 1 < m
        invariant
            m == p@.len() >= 1,
            views(p@) == ps,
            0 <= i < m,
            views(res@) == strip_all(ps.take(i as int)),
        decreases m - i,
    {
        let l = &p[i];
        let k = l.len();
        assert(l@ == ps[i as int]);
        let piece = if k > 0 && l[k - 1] == '\r' {
            let r = slice_copy(l.as_slice(), 0, k - 1);
            assert(r@ =~= l@.drop_last());
            r
        } else {
            let r = slice_copy(l.as_slice(), 0, k);
            assert(r@ =~= l@);
            r
        };
        assert(piece@ == strip_cr(ps[i as int]));
        res.push(piece);
        assert(ps.take(i + 1).drop_last() =~= ps.take(i as int));
        i += 1;
        assert(views(res@) =~= strip_all(ps.take(i as int)));
    }
    assert(ps.take(i as int) =~= ps.drop_last());
    let last = &p[m - 1];
    if last.len() > 0 {
        let piece = slice_copy(last.as_slice(), 0, last.len());
        assert(piece@ =~= ps.last());
        res.push(piece);
        assert(views(res@) =~= lines(s@));
    }
    res
}

/// `str::split_whitespace`.
pub fn words_of(s: &[char]) -> (res: Vec<Vec<char>>)
    ensures
        views(res@) == words(s@),
{
    let mut done: Vec<Vec<char>> = Vec::new();
    let mut cur: Vec<char> = Vec::new();
    let n = s.len();
    for i in 0..n
        invariant
            n == s@.len(),
            cur@.len() > 0 ==> views(done@).push(cur@) == words(s@.take(i as int)),
            cur@.len() == 0 ==> views(done@) == words(s@.take(i as int)),
            cur@.len() > 0 <==> (i > 0 && !is_ws(s@[i - 1])),
    {
        let c = s[i];
        proof {
            assert(s@.take(i + 1).drop_last() =~= s@.take(i as int));
            assert(s@.take(i + 1).last() == c);
        }
        if char_is_ws(c) {
            if cur.len() > 0 {
                let old_cur = cur;
                cur = Vec::new();
                done.push(old_cur);
            }
        } else {
            if cur.len() > 0 {
                assert(s@.take(i + 1)[i - 1] == s@[i - 1]);
                cur.push(c);
                assert(views(done@).push(cur@) =~= words(s@.take(i + 1)));
            } else {
                cur.push(c);
                assert(cur@ =~= seq![c]);
                assert(views(done@).push(cur@) =~= words(s@.take(i + 1)));
            }
        }
    }
    assert(s@.take(n as int) =~= s@);
    if cur.len() > 0 {
        done.push(cur);
    }
    done
}

/// `str::starts_with` for a text prefix.
pub fn has_prefix(s: &[char], p: &[char]) -> (b: bool)
    ensures
        b == starts_with(s@, p@),
{
    if p.len() > s.len() {
        return false;
    }
    let m = p.len();
    for i in 0..m
        invariant
            m == p@.len() <= s@.len(),
            forall|j: int| 0 <= j < i ==> s@[j] == p@[j],
    {
        if s[i] != p[i] {
            assert(s@.subrange(0, m as int)[i as int] != p@[i as int]);
            return false;
        }
    }
    assert(s@.subrange(0, m as int) =~= p@);
    true
}

/// Whether `p` occurs in `s` at position `i`.
pub fn occurs_at_pos(s: &[char], p: &[char], i: usize) -> (b: bool)
    ensures
        b == occurs_at(s@, p@, i as int),
{
    if i > s.len() || p.len() > s.len() - i {
        return false;
    }
    let m = p.len();
    let n = s.len();
    for j in 0..m
        invariant
            m == p@.len(),
            n == s@.len(),
            i + m <= n,
            forall|k: int| 0 <= k < j ==> s@[i + k] == p@[k],
    {
        if s[i + j] != p[j] {
            assert(s@.subrange(i as int, i + m)[j as int] != p@[j as int]);
            return false;
        }
    }
    assert(s@.subrange(i as int, i + m) =~= p@);
    true
}

/// `str::find` for a text pattern, as a character position.
pub fn find_text(s: &[char], p: &[char]) -> (res: Option<usize>)
    ensures
        match res {
            Some(i) => find(s@, p@) == Some(i as int),
            None => find(s@, p@) is None,
        },
{
    if p.len() > s.len() {
        return None;
    }
    let last = s.len() - p.len();
    let mut i: usize = 0;
    loop
        invariant
            last + p@.len() == s@.len(),
            0 <= i <= last,
            find(s@, p@) == find_from(s@, p@, i as int),
        decreases last - i,
    {
        if occurs_at_pos(s, p, i) {
            return Some(i);
        }
        if i == last {
            assert(find_from(s@, p@, i + 1) is None);
            return None;
        }
        i += 1;
    }
}

/// `str::contains` for a text pattern.
pub fn contains_text(s: &[char], p: &[char]) -> (b: bool)
    ensures
        b == contains(s@, p@),
{
    find_text(s, p).is_some()
}

/// Whether `s` equals `t`.
pub fn same(s: &[char], t: &[char]) -> (b: bool)
    ensures
        b == (s@ == t@),
{
    if s.len() != t.len() {
        return false;
    }
    let n = s.len();
    for i in 0..n
        invariant
            n == s@.len() == t@.len(),
            forall|j: int| 0 <= j < i ==> s@[j] == t@[j],
    {
        if s[i] != t[i] {
            return false;
        }
    }
    assert(s@ =~= t@);
    true
}

/// `s` with every `from` replaced by `to`.
pub fn replace_chars(s: &[char], from: char, to: char) -> (res: Vec<char>)
    ensures
        res@ == replace_char(s@, from, to),
{
    let mut res: Vec<char> = Vec::new();
    let n = s.len();
    for i in 0..n
        invariant
            n == s@.len(),
            res@ == replace_char(s@.take(i as int), from, to),
    {
        let c = s[i];
        if c == from {
            res.push(to);
        } else {
            res.push(c);
        }
        assert(res@ =~= replace_char(s@.take(i + 1), from, to));
    }
    assert(s@.take(n as int) =~= s@);
    res
}

/// `str::parse::<u64>`.
pub fn parse_u64(s: &[char]) -> (res: Option<u64>)
    ensures
        res == parse_u64_spec(s@),
{
    let n = s.len();
    let start: usize = if n > 0 && s[0] == '+' {
        1
    } else {
        0
    };
    let ghost d = unsigned_digits(s@);
    assert(d =~= s@.subrange(start as int, n as int));
    if start == n {
        assert(parse_uint(s@, u64::MAX as nat) is None);
        return None;
    }
    let mut v: u64 = 0;
    let mut i: usize = start;
    while i < n
        invariant
            start <= i <= n == s@.len(),
            start < n,
            d == s@.subrange(start as int, n as int),
            d == unsigned_digits(s@),
            all_digits(d.take(i - start)),
            v as nat == digits_value(d.take(i - start)),
        decreases n - i,
    {
        let c = s[i];
        let ghost k = (i - start) as int;
        proof {
            assert(d.take(k + 1).drop_last() =~= d.take(k));
            assert(d.take(k + 1).last() == c);
        }
        assert(d[k] == s@[i as int]);
        if !char_is_digit(c) {
            assert(!is_digit(d[k]));
            assert(!all_digits(d));
            assert(parse_uint(s@, u64::MAX as nat) is None);
            return None;
        }
        let dv = (c as u32 - 48) as u64;
        if v > (u64::MAX - dv) / 10 {
            proof {
                assert(v * 10 + dv > u64::MAX) by (nonlinear_arith)
                    requires
                        v > (u64::MAX - dv) / 10,
                        dv <= 9,
                ;
                assert(digits_value(d.take(k + 1)) == digits_value(d.take(k)) * 10 + dv);
                assert(digits_value(d.take(k + 1)) > u64::MAX);
                if all_digits(d) {
                    lemma_digits_value_mono(d, k + 1);
                }
            }
            return None;
        }
        v = v * 10 + dv;
        i += 1;
        assert(all_digits(d.take(i - start)));
    }
    assert(d.take(n - start) =~= d);
    Some(v)
}

/// `str::parse::<u8>` succeeds.
pub fn parses_as_u8(s: &[char]) -> (b: bool)
    ensures
        b == (parse_uint(s@, 255) is Some),
{
    match parse_u64(s) {
        Some(v) => v <= 255,
        None => {
            proof {
                let d = unsigned_digits(s@);
                if d.len() > 0 && all_digits(d) && digits_value(d) <= 255 {
                    assert(parse_uint(s@, u64::MAX as nat) is Some);
                }
            }
            false
        },
    }
}

/// `str::parse::<u8>`.
pub fn parse_u8(s: &[char]) -> (res: Option<u8>)
    ensures
        match res {
            Some(v) => parse_uint(s@, 255) == Some(v as nat),
            None => parse_uint(s@, 255) is None,
        },
{
    match parse_u64(s) {
        Some(v) => if v <= 255 {
            Some(v as u8)
        } else {
            None
        },
        None => {
            proof {
                let d = unsigned_digits(s@);
                if d.len() > 0 && all_digits(d) && digits_value(d) <= 255 {
                    assert(parse_uint(s@, u64::MAX as nat) is Some);
                }
            }
            None
        },
    }
}

fn push_decimal(out: &mut Vec<char>, n: u64)
    ensures
        final(out)@ == old(out)@ + decimal(n as nat),
    decreases n,
{
    if n >= 10 {
        push_decimal(out, n / 10);
    }
    let d: u8 = (n % 10) as u8 + 48;
    let c = d as char;
    out.push(c);
    proof {
        assert(c == digit_char(n as nat));
        if n >= 10 {
            assert(old(out)@ + decimal((n / 10) as nat) + seq![c] =~= old(out)@ + decimal(
                n as nat,
            ));
        } else {
            assert(old(out)@.push(c) =~= old(out)@ + decimal(n as nat));
        }
    }
}

/// The decimal form of `n` (`u64::to_string`).
pub fn decimal_string(n: u64) -> (res: String)
    ensures
        res@ == decimal(n as nat),
{
    let mut v: Vec<char> = Vec::new();
    push_decimal(&mut v, n);
    assert(v@ =~= decimal(n as nat));
    string_of(v.as_slice())
}

/// `str::trim_matches` for one character.
pub fn trim_matches_chars(s: &[char], c: char) -> (res: Vec<char>)
    ensures
        res@ == trim_matches(s@, c),
{
    let n = s.len();
    let mut i: usize = 0;
    while i < n && s[i] == c
        invariant
            0 <= i <= n == s@.len(),
            forall|j: int| 0 <= j < i ==> #[trigger] s@[j] == c,
        decreases n - i,
    {
        i += 1;
    }
    proof {
        lemma_strip_start_sub(s@, c, i as int);
    }
    let ghost t = s@.subrange(i as int, n as int);
    assert(t.len() == 0 || t[0] != c);
    assert(strip_start(t, c) == t);
    let mut k: usize = n;
    while k > i && s[k - 1] == c
        invariant
            i <= k <= n == s@.len(),
            t == s@.subrange(i as int, n as int),
            forall|j: int| k <= j < n ==> #[trigger] s@[j] == c,
        decreases k,
    {
        k -= 1;
    }
    proof {
        assert forall|j: int| (k - i) <= j < t.len() implies #[trigger] t[j] == c by {
            assert(t[j] == s@[j + i]);
        }
        lemma_strip_end_sub(t, c, k - i);
        assert(t.subrange(0, k - i) =~= s@.subrange(i as int, k as int));
        let u = s@.subrange(i as int, k as int);
        assert(u.len() == 0 || u.last() != c);
    }
    slice_copy(s, i, k)
}

/// Whether `s` is the text `lit`.
pub fn eq_lit(s: &[char], lit: &str) -> (b: bool)
    ensures
        b == (s@ == lit@),
{
    let l = chars_of(lit);
    same(s, l.as_slice())
}

/// Whether `s` begins with the text `lit`.
pub fn starts_with_lit(s: &[char], lit: &str) -> (b: bool)
    ensures
        b == starts_with(s@, lit@),
{
    let l = chars_of(lit);
    has_prefix(s, l.as_slice())
}

/// Whether the text `lit` occurs in `s`.
pub fn contains_lit(s: &[char], lit: &str) -> (b: bool)
    ensures
        b == contains(s@, lit@),
{
    let l = chars_of(lit);
    contains_text(s, l.as_slice())
}

/// The number at position `i` of `w`, or 0 when there is none or it does
/// not parse.
pub open spec fn num_at(w: Seq<Seq<char>>, i: int) -> u64 {
    if 0 <= i < w.len() {
        match parse_u64_spec(w[i]) {
            Some(v) => v,
            None => 0,
        }
    } else {
        0
    }
}

pub fn num_at_of(w: &Vec<Vec<char>>, i: usize) -> (v: u64)
    ensures
        v == num_at(views(w@), i as int),
{
    if i < w.len() {
        assert(views(w@)[i as int] == w@[i as int]@);
        match parse_u64(w[i].as_slice()) {
            Some(v) => v,
            None => 0,
        }
    } else {
        0
    }
}

/// The view of element `i` of a vector of character vectors.
pub fn copy_at(w: &Vec<Vec<char>>, i: usize) -> (res: Vec<char>)
    requires
        i < w@.len(),
    ensures
        res@ == views(w@)[i as int],
{
    let r = slice_copy(w[i].as_slice(), 0, w[i].len());
    assert(r@ =~= w@[i as int]@);
    r
}

/// The text of a tool's output or a received datagram, invalid UTF-8
/// replaced (`String::from_utf8_lossy`).
pub fn decode_output(bytes: &[u8]) -> (res: String)
    ensures
        res@ == utf8_lossy(bytes@),
        valid_utf8(bytes@) ==> res@ == decode_utf8(bytes@),
{
    let v = from_utf8_lossy(bytes);
    string_of(v.as_slice())
}

} // verus!
