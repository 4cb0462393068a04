//! IPv4 and MAC address checks, and the parsing of ARP table lines as the
//! three desktop platforms print them.

use vstd::prelude::*;
use crate::text::{
    all_chars, char_is_digit, char_is_hex_digit, chars_of, find, find_from, find_text, is_digit,
    is_hex_digit, lemma_replace_chars, lemma_split_chars, no_upper, not_upper, occurs_at, parse_u8,
    parse_uint, parses_as_u8, replace_char, replace_chars, same, slice_copy, split, split_chars,
    string_of, trim, trim_chars, views, words, words_of,
};
use crate::trusted::{lowercase, to_lowercase};

verus! {

/// The desktop platforms the client runs on; the tools they ship print
/// their tables differently.
#[derive(Clone, Copy, Debug, PartialEq, Eq, Structural)]
pub enum Platform {
    Windows,
    Linux,
    MacOs,
}

// ---------------------------------------------------------------------------
// Spec model
// ---------------------------------------------------------------------------

/// Four dot-separated fields, each a `u8`.
pub open spec fn valid_ip(s: Seq<char>) -> bool {
    let p = split(s, '.');
    p.len() == 4 && forall|i: int| 0 <= i < 4 ==> (#[trigger] parse_uint(p[i], 255)) is Some
}

pub open spec fn hex_pair(p: Seq<char>) -> bool {
    p.len() == 2 && is_hex_digit(p[0]) && is_hex_digit(p[1])
}

/// Six colon-separated fields of two hex digits each.
pub open spec fn valid_mac(s: Seq<char>) -> bool {
    let p = split(s, ':');
    p.len() == 6 && forall|i: int| 0 <= i < 6 ==> #[trigger] hex_pair(p[i])
}

pub open spec fn octet_or_zero(s: Seq<char>) -> nat {
    match parse_uint(s, 255) {
        Some(v) => v,
        None => 0,
    }
}

/// In 10.0.0.0/8, 172.16.0.0/12 or 192.168.0.0/16 (judged on the first two
/// fields; an unparsable field counts as 0).
pub open spec fn vpn_ip(s: Seq<char>) -> bool {
    let p = split(s, '.');
    p.len() == 4 && {
        let a = octet_or_zero(p[0]);
        let b = octet_or_zero(p[1]);
        a == 10 || (a == 172 && 16 <= b <= 31) || (a == 192 && b == 168)
    }
}

/// The first three dot-separated fields, rejoined; the whole text when it
/// has fewer.
pub open spec fn subnet_prefix(s: Seq<char>) -> Seq<char> {
    let p = split(s, '.');
    if p.len() >= 3 {
        p[0] + seq!['.'] + p[1] + seq!['.'] + p[2]
    } else {
        s
    }
}

pub open spec fn ip_char(c: char) -> bool {
    is_digit(c) || c == '.'
}

/// Length of the leading run of digits and dots.
pub open spec fn ip_run_len(s: Seq<char>) -> nat
    decreases s.len(),
{
    if s.len() > 0 && ip_char(s[0]) {
        1 + ip_run_len(s.drop_first())
    } else {
        0
    }
}

/// The address that follows `prefix` in `line`: the run of digits and dots
/// after the first `prefix` and any whitespace, when it has four fields.
pub open spec fn ip_after(line: Seq<char>, prefix: Seq<char>) -> Option<Seq<char>> {
    match find(line, prefix) {
        None => None,
        Some(pos) => {
            let after = trim(line.subrange(pos + prefix.len(), line.len() as int));
            let ip = trim(after.take(ip_run_len(after) as int));
            if split(ip, '.').len() == 4 && (forall|i: int| 0 <= i < ip.len() ==> ip_char(#[trigger] ip[i])) {
                Some(ip)
            } else {
                None
            }
        },
    }
}

/// The last position of `c` in `s`.
pub open spec fn rfind_char(s: Seq<char>, c: char) -> Option<int>
    decreases s.len(),
{
    if s.len() == 0 {
        None
    } else if s.last() == c {
        Some(s.len() - 1)
    } else {
        rfind_char(s.drop_last(), c)
    }
}

/// The text before the last dot (`rsplitn(2, '.')`'s second part).
pub open spec fn before_last_dot(s: Seq<char>) -> Option<Seq<char>> {
    match rfind_char(s, '.') {
        Some(i) => Some(s.take(i)),
        None => None,
    }
}

/// The first position at or after `i` of a field that is a valid address.
pub open spec fn first_ip_field(w: Seq<Seq<char>>, i: int) -> Option<int>
    decreases w.len() - i,
{
    if i < 0 || i >= w.len() {
        None
    } else if valid_ip(w[i]) {
        Some(i)
    } else {
        first_ip_field(w, i + 1)
    }
}

/// The first position at or after `i` of a field equal to `x`.
pub open spec fn first_field(w: Seq<Seq<char>>, x: Seq<char>, i: int) -> Option<int>
    decreases w.len() - i,
{
    if i < 0 || i >= w.len() {
        None
    } else if w[i] == x {
        Some(i)
    } else {
        first_field(w, x, i + 1)
    }
}

pub open spec fn lladdr() -> Seq<char> {
    seq!['l', 'l', 'a', 'd', 'd', 'r']
}

/// `arp -a` on Windows: `10.0.0.1   00-ff-2a-12-ad-f5   dynamic`.
pub open spec fn arp_line_windows(t: Seq<char>) -> Option<(Seq<char>, Seq<char>)> {
    let w = words(t);
    if w.len() >= 2 {
        let mac = replace_char(lowercase(w[1]), '-', ':');
        if valid_ip(w[0]) && valid_mac(mac) {
            Some((w[0], mac))
        } else {
            None
        }
    } else {
        None
    }
}

/// `ip neigh` on Linux: `10.0.0.1 dev n2n0 lladdr 00:ff:2a:12:ad:f5 REACHABLE`.
pub open spec fn arp_line_linux(t: Seq<char>) -> Option<(Seq<char>, Seq<char>)> {
    let w = words(t);
    match (first_ip_field(w, 0), first_field(w, lladdr(), 0)) {
        (Some(ip_idx), Some(ll)) => if ll + 1 < w.len() && valid_mac(lowercase(w[ll + 1])) {
            Some((w[ip_idx], lowercase(w[ll + 1])))
        } else {
            None
        },
        _ => None,
    }
}

pub open spec fn at_sep() -> Seq<char> {
    seq![' ', 'a', 't', ' ']
}

/// A MAC field as macOS prints it may have one digit (`0:ff:...`); such a
/// field is padded to two.
pub open spec fn pad_field(f: Seq<char>) -> Seq<char> {
    if f.len() == 1 {
        seq!['0'] + f
    } else {
        f
    }
}

/// The fields joined with `:` between them.
pub open spec fn join_colon(fs: Seq<Seq<char>>) -> Seq<char>
    decreases fs.len(),
{
    if fs.len() == 0 {
        Seq::empty()
    } else if fs.len() == 1 {
        fs[0]
    } else {
        join_colon(fs.drop_last()) + seq![':'] + fs.last()
    }
}

/// A colon-separated MAC with each one-digit field padded to two digits.
pub open spec fn pad_mac(s: Seq<char>) -> Seq<char> {
    join_colon(split(s, ':').map_values(|f: Seq<char>| pad_field(f)))
}

/// `arp -a` on macOS: `? (10.0.0.1) at 0:ff:2a:12:ad:f5 on utun2 [ethernet]`.
/// A line whose first `)` does not come after its first `(` gives nothing.
pub open spec fn arp_line_macos(t: Seq<char>) -> Option<(Seq<char>, Seq<char>)> {
    match (find(t, seq!['(']), find(t, seq![')'])) {
        (Some(open), Some(close)) => if close <= open {
            None
        } else {
            let ip = t.subrange(open + 1, close);
            match find(t, at_sep()) {
                Some(at) => {
                    let after = t.subrange(at + 4, t.len() as int);
                    match find(after, seq![' ']) {
                        Some(sp) => {
                            let mac = pad_mac(
                                replace_char(
                                    replace_char(lowercase(after.take(sp)), '.', ':'),
                                    '-',
                                    ':',
                                ),
                            );
                            if valid_ip(ip) && valid_mac(mac) {
                                Some((ip, mac))
                            } else {
                                None
                            }
                        },
                        None => None,
                    }
                },
                None => None,
            }
        },
        _ => None,
    }
}

/// The (address, MAC) pair of one ARP table line, as the platform prints it.
pub open spec fn arp_line(platform: Platform, line: Seq<char>) -> Option<(Seq<char>, Seq<char>)> {
    let t = trim(line);
    if t.len() == 0 {
        None
    } else {
        match platform {
            Platform::Windows => arp_line_windows(t),
            Platform::Linux => arp_line_linux(t),
            Platform::MacOs => arp_line_macos(t),
        }
    }
}

/// What every pair that the parser gives has: a valid address, and a valid
/// MAC with no capital letter (lower-case hex digits and colons).
pub open spec fn normalised_pair(ip: Seq<char>, mac: Seq<char>) -> bool {
    &&& valid_ip(ip)
    &&& valid_mac(mac)
    &&& no_upper(mac)
}

// ---------------------------------------------------------------------------
// Executable checks
// ---------------------------------------------------------------------------

/// Whether `s` is a dotted IPv4 address: four fields, each a `u8`.
pub fn is_valid_ip(s: &str) -> (b: bool)
    ensures
        b == valid_ip(s@),
{
    let v = chars_of(s);
    ip_chars_valid(v.as_slice())
}

pub fn ip_chars_valid(s: &[char]) -> (b: bool)
    ensures
        b == valid_ip(s@),
{
    let p = split_chars(s, '.');
    if p.len() != 4 {
        return false;
    }
    for i in 0..4
        invariant
            p@.len() == 4,
            views(p@) == split(s@, '.'),
            forall|j: int| 0 <= j < i ==> (#[trigger] parse_uint(split(s@, '.')[j], 255)) is Some,
    {
        assert(p@[i as int]@ == split(s@, '.')[i as int]);
        if !parses_as_u8(p[i].as_slice()) {
            return false;
        }
    }
    true
}

/// Whether `s` is six colon-separated pairs of hex digits.
pub fn is_valid_mac(s: &str) -> (b: bool)
    ensures
        b == valid_mac(s@),
{
    let v = chars_of(s);
    mac_chars_valid(v.as_slice())
}

pub fn mac_chars_valid(s: &[char]) -> (b: bool)
    ensures
        b == valid_mac(s@),
{
    let p = split_chars(s, ':');
    if p.len() != 6 {
        return false;
    }
    for i in 0..6
        invariant
            p@.len() == 6,
            views(p@) == split(s@, ':'),
            forall|j: int| 0 <= j < i ==> #[trigger] hex_pair(split(s@, ':')[j]),
    {
        assert(p@[i as int]@ == split(s@, ':')[i as int]);
        let f = &p[i];
        if f.len() != 2 || !char_is_hex_digit(f[0]) || !char_is_hex_digit(f[1]) {
            assert(!hex_pair(split(s@, ':')[i as int]));
            return false;
        }
    }
    true
}

fn octet_or_zero_of(s: &[char]) -> (v: u8)
    ensures
        v as nat == octet_or_zero(s@),
{
    match parse_u8(s) {
        Some(v) => v,
        None => 0,
    }
}

/// Whether `ip` lies in one of the private ranges that VPNs use.
pub fn is_vpn_ip(ip: &str) -> (b: bool)
    ensures
        b == vpn_ip(ip@),
{
    let v = chars_of(ip);
    vpn_chars(v.as_slice())
}

pub fn vpn_chars(s: &[char]) -> (b: bool)
    ensures
        b == vpn_ip(s@),
{
    let p = split_chars(s, '.');
    if p.len() != 4 {
        return false;
    }
    assert(p@[0]@ == split(s@, '.')[0]);
    assert(p@[1]@ == split(s@, '.')[1]);
    let a = octet_or_zero_of(p[0].as_slice());
    let b = octet_or_zero_of(p[1].as_slice());
    a == 10 || (a == 172 && 16 <= b && b <= 31) || (a == 192 && b == 168)
}

/// The first three fields of a dotted address.
pub fn extract_subnet_prefix(ip: &str) -> (res: String)
    ensures
        res@ == subnet_prefix(ip@),
{
    let v = chars_of(ip);
    let r = subnet_prefix_chars(v.as_slice());
    string_of(r.as_slice())
}

pub fn subnet_prefix_chars(s: &[char]) -> (res: Vec<char>)
    ensures
        res@ == subnet_prefix(s@),
{
    let p = split_chars(s, '.');
    if p.len() >= 3 {
        assert(p@[0]@ == split(s@, '.')[0]);
        assert(p@[1]@ == split(s@, '.')[1]);
        assert(p@[2]@ == split(s@, '.')[2]);
        let mut r = slice_copy(p[0].as_slice(), 0, p[0].len());
        r.push('.');
        let mut i: usize = 0;
        let f1 = &p[1];
        let ghost r0 = r@;
        while i < f1.len()
            invariant
                0 <= i <= f1@.len(),
                r@ == r0 + f1@.take(i as int),
            decreases f1@.len() - i,
        {
            r.push(f1[i]);
            i += 1;
            assert(r@ =~= r0 + f1@.take(i as int));
        }
        r.push('.');
        let f2 = &p[2];
        let ghost r1 = r@;
        let mut j: usize = 0;
        while j < f2.len()
            invariant
                0 <= j <= f2@.len(),
                r@ == r1 + f2@.take(j as int),
            decreases f2@.len() - j,
        {
            r.push(f2[j]);
            j += 1;
            assert(r@ =~= r1 + f2@.take(j as int));
        }
        assert(f1@.take(f1@.len() as int) =~= f1@);
        assert(f2@.take(f2@.len() as int) =~= f2@);
        assert(r@ =~= subnet_prefix(s@));
        r
    } else {
        slice_copy(s, 0, s.len())
    }
}

fn ip_run_len_of(s: &[char]) -> (n: usize)
    ensures
        n as nat == ip_run_len(s@),
        n <= s@.len(),
{
    let len = s.len();
    let mut i: usize = 0;
    assert(s@.subrange(0, len as int) =~= s@);
    while i < len && (char_is_digit(s[i]) || s[i] == '.')
        invariant
            0 <= i <= len == s@.len(),
            ip_run_len(s@) == i + ip_run_len(s@.subrange(i as int, len as int)),
        decreases len - i,
    {
        assert(s@.subrange(i as int, len as int).drop_first() =~= s@.subrange(i + 1, len as int));
        i += 1;
    }
    assert(ip_run_len(s@.subrange(i as int, len as int)) == 0);
    assert(s@.subrange(0, len as int) =~= s@);
    i
}

/// The dotted address right after `prefix` in `line`, e.g. the address in
/// `created local tap device IP: 10.207.146.48, Mask: ...`.
pub fn extract_ip_after_colon(line: &str, prefix: &str) -> (res: Option<String>)
    ensures
        match res {
            Some(ip) => ip_after(line@, prefix@) == Some(ip@),
            None => ip_after(line@, prefix@) is None,
        },
{
    let l = chars_of(line);
    let p = chars_of(prefix);
    match ip_after_chars(l.as_slice(), p.as_slice()) {
        Some(v) => Some(string_of(v.as_slice())),
        None => None,
    }
}

pub fn ip_after_chars(line: &[char], prefix: &[char]) -> (res: Option<Vec<char>>)
    ensures
        match res {
            Some(ip) => ip_after(line@, prefix@) == Some(ip@),
            None => ip_after(line@, prefix@) is None,
        },
{
    let pos = match find_text(line, prefix) {
        Some(p) => p,
        None => return None,
    };
    assert(occurs_at(line@, prefix@, pos as int)) by {
        lemma_find_occurs(line@, prefix@, 0);
    }
    let ll = line.len();
    let rest = slice_copy(line, pos + prefix.len(), ll);
    let after = trim_chars(rest.as_slice());
    let end = ip_run_len_of(after.as_slice());
    let head = slice_copy(after.as_slice(), 0, end);
    assert(head@ =~= after@.take(end as int));
    let ip = trim_chars(head.as_slice());
    let parts = split_chars(ip.as_slice(), '.');
    if parts.len() != 4 {
        return None;
    }
    if all_ip_chars(ip.as_slice()) {
        Some(ip)
    } else {
        None
    }
}

fn all_ip_chars(s: &[char]) -> (b: bool)
    ensures
        b == (forall|i: int| 0 <= i < s@.len() ==> ip_char(#[trigger] s@[i])),
{
    let n = s.len();
    for i in 0..n
        invariant
            n == s@.len(),
            forall|j: int| 0 <= j < i ==> ip_char(#[trigger] s@[j]),
    {
        if !(char_is_digit(s[i]) || s[i] == '.') {
            assert(!ip_char(s@[i as int]));
            return false;
        }
    }
    true
}

/// Where `find_from` answers, the pattern occurs.
pub proof fn lemma_find_occurs(s: Seq<char>, p: Seq<char>, i: int)
    ensures
        find_from(s, p, i) matches Some(k) ==> occurs_at(s, p, k) && i <= k,
    decreases s.len() + 1 - i,
{
    if !(i < 0 || i + p.len() > s.len()) && !occurs_at(s, p, i) {
        lemma_find_occurs(s, p, i + 1);
    }
}

/// The text before the last dot of `s`, if it has one.
pub fn before_last_dot_chars(s: &[char]) -> (res: Option<Vec<char>>)
    ensures
        match res {
            Some(v) => before_last_dot(s@) == Some(v@),
            None => before_last_dot(s@) is None,
        },
{
    let mut i = s.len();
    assert(s@.take(i as int) =~= s@);
    while i > 0 && s[i - 1] != '.'
        invariant
            0 <= i <= s@.len(),
            rfind_char(s@, '.') == rfind_char(s@.take(i as int), '.'),
        decreases i,
    {
        assert(s@.take(i as int).drop_last() =~= s@.take(i - 1));
        i -= 1;
    }
    if i == 0 {
        assert(s@.take(0) =~= Seq::<char>::empty());
        None
    } else {
        assert(s@.take(i as int).last() == '.');
        Some(slice_copy(s, 0, i - 1))
    }
}

fn first_ip_field_of(w: &Vec<Vec<char>>) -> (res: Option<usize>)
    ensures
        match res {
            Some(i) => first_ip_field(views(w@), 0) == Some(i as int),
            None => first_ip_field(views(w@), 0) is None,
        },
{
    let n = w.len();
    for i in 0..n
        invariant
            n == w@.len(),
            first_ip_field(views(w@), 0) == first_ip_field(views(w@), i as int),
    {
        assert(views(w@)[i as int] == w@[i as int]@);
        if ip_chars_valid(w[i].as_slice()) {
            return Some(i);
        }
    }
    None
}

fn first_field_of(w: &Vec<Vec<char>>, x: &[char]) -> (res: Option<usize>)
    ensures
        match res {
            Some(i) => first_field(views(w@), x@, 0) == Some(i as int),
            None => first_field(views(w@), x@, 0) is None,
        },
{
    let n = w.len();
    for i in 0..n
        invariant
            n == w@.len(),
            first_field(views(w@), x@, 0) == first_field(views(w@), x@, i as int),
    {
        assert(views(w@)[i as int] == w@[i as int]@);
        if same(w[i].as_slice(), x) {
            return Some(i);
        }
    }
    None
}

fn arp_windows_chars(t: &[char]) -> (res: Option<(Vec<char>, Vec<char>)>)
    ensures
        match res {
            Some((ip, mac)) => arp_line_windows(t@) == Some((ip@, mac@)) && normalised_pair(ip@, mac@),
            None => arp_line_windows(t@) is None,
        },
{
    let w = words_of(t);
    if w.len() < 2 {
        return None;
    }
    assert(views(w@)[0] == w@[0]@);
    assert(views(w@)[1] == w@[1]@);
    let low = to_lowercase(w[1].as_slice());
    let mac = replace_chars(low.as_slice(), '-', ':');
    if ip_chars_valid(w[0].as_slice()) && mac_chars_valid(mac.as_slice()) {
        let ip = slice_copy(w[0].as_slice(), 0, w[0].len());
        assert(ip@ =~= w@[0]@);
        proof {
            lemma_replace_chars(low@, '-', ':', not_upper());
        }
        Some((ip, mac))
    } else {
        None
    }
}

fn arp_linux_chars(t: &[char]) -> (res: Option<(Vec<char>, Vec<char>)>)
    ensures
        match res {
            Some((ip, mac)) => arp_line_linux(t@) == Some((ip@, mac@)) && normalised_pair(ip@, mac@),
            None => arp_line_linux(t@) is None,
        },
{
    let w = words_of(t);
    let ip_idx = match first_ip_field_of(&w) {
        Some(i) => i,
        None => return None,
    };
    let ll: Vec<char> = vec!['l', 'l', 'a', 'd', 'd', 'r'];
    assert(ll@ =~= lladdr());
    let ll_idx = match first_field_of(&w, ll.as_slice()) {
        Some(i) => i,
        None => return None,
    };
    proof {
        lemma_first_ip_field_bound(views(w@), 0);
        lemma_first_field_bound(views(w@), lladdr(), 0);
    }
    if ll_idx + 1 >= w.len() {
        return None;
    }
    assert(views(w@)[ll_idx + 1] == w@[ll_idx + 1]@);
    assert(views(w@)[ip_idx as int] == w@[ip_idx as int]@);
    let mac = to_lowercase(w[ll_idx + 1].as_slice());
    if mac_chars_valid(mac.as_slice()) {
        let ip = slice_copy(w[ip_idx].as_slice(), 0, w[ip_idx].len());
        assert(ip@ =~= w@[ip_idx as int]@);
        Some((ip, mac))
    } else {
        None
    }
}

proof fn lemma_first_ip_field_bound(w: Seq<Seq<char>>, i: int)
    ensures
        first_ip_field(w, i) matches Some(k) ==> 0 <= k < w.len() && valid_ip(w[k]),
    decreases w.len() - i,
{
    if !(i < 0 || i >= w.len()) && !valid_ip(w[i]) {
        lemma_first_ip_field_bound(w, i + 1);
    }
}

proof fn lemma_first_field_bound(w: Seq<Seq<char>>, x: Seq<char>, i: int)
    ensures
        first_field(w, x, i) matches Some(k) ==> 0 <= k < w.len(),
    decreases w.len() - i,
{
    if !(i < 0 || i >= w.len()) && w[i] != x {
        lemma_first_field_bound(w, x, i + 1);
    }
}

fn find_char_in(s: &[char], c: char) -> (res: Option<usize>)
    ensures
        match res {
            Some(i) => find(s@, seq![c]) == Some(i as int) && i < s@.len(),
            None => find(s@, seq![c]) is None,
        },
{
    let pat: Vec<char> = vec![c];
    assert(pat@ =~= seq![c]);
    let r = find_text(s, pat.as_slice());
    proof {
        lemma_find_occurs(s@, seq![c], 0);
    }
    r
}

/// Each field of `s` padded; the fields joined again.
fn pad_mac_chars(s: &[char]) -> (res: Vec<char>)
    ensures
        res@ == pad_mac(s@),
{
    let p = split_chars(s, ':');
    let ghost padded = split(s@, ':').map_values(|f: Seq<char>| pad_field(f));
    let mut res: Vec<char> = Vec::new();
    let n = p.len();
    for i in 0..n
        invariant
            n == p@.len(),
            views(p@) == split(s@, ':'),
            padded == split(s@, ':').map_values(|f: Seq<char>| pad_field(f)),
            res@ == join_colon(padded.take(i as int)),
    {
        let ghost before = res@;
        assert(p@[i as int]@ == split(s@, ':')[i as int]);
        if i > 0 {
            res.push(':');
        }
        let f = &p[i];
        if f.len() == 1 {
            res.push('0');
        }
        let ghost mid = res@;
        let mut j: usize = 0;
        while j < f.len()
            invariant
                0 <= j <= f@.len(),
                res@ == mid + f@.take(j as int),
            decreases f@.len() - j,
        {
            res.push(f[j]);
            j += 1;
            assert(res@ =~= mid + f@.take(j as int));
        }
        proof {
            assert(f@.take(f@.len() as int) =~= f@);
            let q = padded.take(i + 1);
            assert(q.drop_last() =~= padded.take(i as int));
            assert(q.last() == pad_field(f@));
            if i > 0 {
                assert(res@ =~= before + seq![':'] + pad_field(f@));
            } else {
                assert(res@ =~= pad_field(f@));
            }
        }
    }
    assert(padded.take(n as int) =~= padded);
    res
}

/// Joining keeps a property that every character of every field, and the
/// colon, have.
proof fn lemma_join_chars(fs: Seq<Seq<char>>, p: spec_fn(char) -> bool)
    requires
        forall|k: int| 0 <= k < fs.len() ==> all_chars(#[trigger] fs[k], p),
        p(':'),
    ensures
        all_chars(join_colon(fs), p),
    decreases fs.len(),
{
    if fs.len() >= 2 {
        assert(all_chars(fs[fs.len() - 1], p));
        lemma_join_chars(fs.drop_last(), p);
        let a = join_colon(fs.drop_last());
        let r = join_colon(fs);
        assert forall|i: int| 0 <= i < r.len() implies p(#[trigger] r[i]) by {
            if i < a.len() {
                assert(r[i] == a[i]);
            } else if i == a.len() {
                assert(r[i] == ':');
            } else {
                assert(r[i] == fs.last()[i - a.len() - 1]);
            }
        }
    } else if fs.len() == 1 {
        assert(all_chars(fs[0], p));
    }
}

/// Padding keeps a property that every character, the colon and `0` have.
proof fn lemma_pad_mac_chars(s: Seq<char>, p: spec_fn(char) -> bool)
    requires
        all_chars(s, p),
        p(':'),
        p('0'),
    ensures
        all_chars(pad_mac(s), p),
{
    lemma_split_chars(s, ':', p);
    let fs = split(s, ':');
    let padded = fs.map_values(|f: Seq<char>| pad_field(f));
    assert forall|k: int| 0 <= k < padded.len() implies all_chars(#[trigger] padded[k], p) by {
        assert(all_chars(fs[k], p));
        let g = pad_field(fs[k]);
        assert forall|i: int| 0 <= i < g.len() implies p(#[trigger] g[i]) by {
            if fs[k].len() == 1 && i == 1 {
                assert(g[i] == fs[k][0]);
            }
        }
    }
    lemma_join_chars(padded, p);
}

fn arp_macos_chars(t: &[char]) -> (res: Option<(Vec<char>, Vec<char>)>)
    ensures
        match res {
            Some((ip, mac)) => arp_line_macos(t@) == Some((ip@, mac@)) && normalised_pair(ip@, mac@),
            None => arp_line_macos(t@) is None,
        },
{
    let open = match find_char_in(t, '(') {
        Some(i) => i,
        None => return None,
    };
    let close = match find_char_in(t, ')') {
        Some(i) => i,
        None => return None,
    };
    if close <= open {
        return None;
    }
    let ip = slice_copy(t, open + 1, close);
    let sep: Vec<char> = vec![' ', 'a', 't', ' '];
    assert(sep@ =~= at_sep());
    let at = match find_text(t, sep.as_slice()) {
        Some(i) => i,
        None => return None,
    };
    proof {
        lemma_find_occurs(t@, at_sep(), 0);
    }
    let tl = t.len();
    let after = slice_copy(t, at + 4, tl);
    let sp = match find_char_in(after.as_slice(), ' ') {
        Some(i) => i,
        None => return None,
    };
    let head = slice_copy(after.as_slice(), 0, sp);
    assert(head@ =~= after@.take(sp as int));
    let low = to_lowercase(head.as_slice());
    let m1 = replace_chars(low.as_slice(), '.', ':');
    let m2 = replace_chars(m1.as_slice(), '-', ':');
    let mac = pad_mac_chars(m2.as_slice());
    if ip_chars_valid(ip.as_slice()) && mac_chars_valid(mac.as_slice()) {
        proof {
            lemma_replace_chars(low@, '.', ':', not_upper());
            lemma_replace_chars(m1@, '-', ':', not_upper());
            lemma_pad_mac_chars(m2@, not_upper());
        }
        Some((ip, mac))
    } else {
        None
    }
}

/// The address and the normalised MAC (lower case, colon-separated, two
/// digits a field) of one ARP table line. Every pair it gives holds a valid
/// address and a valid MAC with no capital letter.
pub fn parse_arp_line(line: &str, platform: Platform) -> (res: Option<(String, String)>)
    ensures
        match res {
            Some((ip, mac)) => arp_line(platform, line@) == Some((ip@, mac@)) && normalised_pair(ip@, mac@),
            None => arp_line(platform, line@) is None,
        },
{
    let l = chars_of(line);
    match arp_line_chars(l.as_slice(), platform) {
        Some((ip, mac)) => Some((string_of(ip.as_slice()), string_of(mac.as_slice()))),
        None => None,
    }
}

pub fn arp_line_chars(line: &[char], platform: Platform) -> (res: Option<(Vec<char>, Vec<char>)>)
    ensures
        match res {
            Some((ip, mac)) => arp_line(platform, line@) == Some((ip@, mac@)) && normalised_pair(ip@, mac@),
            None => arp_line(platform, line@) is None,
        },
{
    let t = trim_chars(line);
    if t.len() == 0 {
        return None;
    }
    match platform {
        Platform::Windows => arp_windows_chars(t.as_slice()),
        Platform::Linux => arp_linux_chars(t.as_slice()),
        Platform::MacOs => arp_macos_chars(t.as_slice()),
    }
}

} // verus!
