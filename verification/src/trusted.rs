//! The calls into std and into outside crates that the verified code makes,
//! each with the contract that Verus takes on trust.

use vstd::prelude::*;
use vstd::utf8::{decode_utf8, valid_utf8};
use crate::strmap::{distinct_keys, map_of, pair_views};
use crate::text::{all_digits, ascii_lowered, ascii_text, is_digit, no_upper};

verus! {

/// What `String::from_utf8_lossy` makes of `bytes`.
pub uninterp spec fn utf8_lossy(bytes: Seq<u8>) -> Seq<char>;

/// What `str::to_lowercase` makes of `s` (Unicode lowercase mapping).
pub uninterp spec fn lowercase(s: Seq<char>) -> Seq<char>;

/// std's `String::from_utf8_lossy`: the text of `bytes`, with each invalid
/// sequence replaced by U+FFFD. Stated: the result is a function of the bytes,
/// and valid UTF-8 decodes to exactly its characters. What it gives for
/// invalid input is left unsaid.
#[verifier::external_body]
pub(crate) fn from_utf8_lossy(bytes: &[u8]) -> (res: Vec<char>)
    ensures
        res@ == utf8_lossy(bytes@),
        valid_utf8(bytes@) ==> res@ == decode_utf8(bytes@),
{
    String::from_utf8_lossy(bytes).chars().collect()
}

/// std's `str::to_lowercase`: the Unicode lowercase form of `s`. Stated: the
/// result is a function of `s`; it holds no ASCII capital `A`..`Z` (each is
/// lowered, and no character's lowercase mapping yields one); and an ASCII
/// text comes back with each capital replaced by its small letter and every
/// other character kept. The mapping of other characters is left unsaid.
#[verifier::external_body]
pub(crate) fn to_lowercase(s: &[char]) -> (res: Vec<char>)
    ensures
        res@ == lowercase(s@),
        no_upper(res@),
        ascii_text(s@) ==> ascii_lowered(s@, res@),
{
    let t: String = s.iter().collect();
    t.to_lowercase().chars().collect()
}

/// Two decimal digits at positions `i` and `i + 1` of `s`.
pub open spec fn two_digits_at(s: Seq<char>, i: int) -> bool {
    is_digit(s[i]) && is_digit(s[i + 1])
}

/// A year as chrono's `%Y` writes it: four digits for the years 0 to 9999,
/// otherwise a sign and at least four digits.
pub open spec fn year_text(y: Seq<char>) -> bool {
    ||| y.len() == 4 && all_digits(y)
    ||| y.len() >= 5 && (y[0] == '+' || y[0] == '-') && all_digits(y.drop_first())
}

/// `[<year>-<MM>-<DD>][<hh>:<mm>:<ss>]`: the date and time of a log entry,
/// each field but the year two digits.
pub open spec fn stamp_text(s: Seq<char>) -> bool {
    let n = s.len();
    &&& n >= 22
    &&& s[0] == '['
    &&& year_text(s.subrange(1, n - 17))
    &&& s[n - 17] == '-' && two_digits_at(s, n - 16)
    &&& s[n - 14] == '-' && two_digits_at(s, n - 13)
    &&& s[n - 11] == ']' && s[n - 10] == '['
    &&& two_digits_at(s, n - 9) && s[n - 7] == ':'
    &&& two_digits_at(s, n - 6) && s[n - 4] == ':'
    &&& two_digits_at(s, n - 3) && s[n - 1] == ']'
}

/// chrono's `Local::now().format("[%Y-%m-%d][%H:%M:%S]")`, as text. Stated:
/// its shape, which the format items fix (`%Y` as `year_text` says, the
/// other numeric items zero-padded to two digits). The date and time
/// themselves depend on the clock and the time zone and are left unsaid.
#[verifier::external_body]
pub(crate) fn local_timestamp() -> (res: String)
    ensures
        stamp_text(res@),
{
    chrono::Local::now().format("[%Y-%m-%d][%H:%M:%S]").to_string()
}

/// std's `SystemTime::now()` as whole seconds since the Unix epoch (0 for a
/// clock set before it). Nothing is stated of the result: it is the clock.
#[verifier::external_body]
pub(crate) fn unix_time_secs() -> (res: u64) {
    std::time::SystemTime::now().duration_since(std::time::UNIX_EPOCH).map(|d| d.as_secs()).unwrap_or(0)
}

/// The text form of a random UUID: 36 characters, hyphens at 8, 13, 18
/// and 23, lower-case hex digits elsewhere, version digit `4` at 14.
pub open spec fn uuid_v4_text(s: Seq<char>) -> bool {
    &&& s.len() == 36
    &&& forall|i: int|
        0 <= i < 36 ==> if i == 8 || i == 13 || i == 18 || i == 23 {
            #[trigger] s[i] == '-'
        } else {
            ('0' <= s[i] <= '9') || ('a' <= s[i] <= 'f')
        }
    &&& s[14] == '4'
}

/// uuid's `Uuid::new_v4()` in its `to_string` form (hyphenated, lower case).
/// The value is random; stated is only its shape, which `format_hyphenated`
/// and `new_v4`'s version bits fix. It panics if the system has no random
/// source, which is not stated.
#[verifier::external_body]
pub(crate) fn new_uuid_v4() -> (res: String)
    ensures
        uuid_v4_text(res@),
{
    uuid::Uuid::new_v4().to_string()
}

/// What `serde_json::from_str` makes of `text` read as a JSON object of
/// strings: the object's entries, or `None` when `text` is not such an object.
pub uninterp spec fn json_string_map(text: Seq<char>) -> Option<Map<Seq<char>, Seq<char>>>;

/// What `serde_json::to_string` writes for a map of strings (keys in order),
/// or `None` when it reports an error.
pub uninterp spec fn json_of_string_map(m: Map<Seq<char>, Seq<char>>) -> Option<Seq<char>>;

/// serde_json's `from_str` into a `BTreeMap<String, String>`, its entries
/// listed. Stated: the result is a function of the text, and the listed
/// keys are distinct (they come from a map). Which texts parse, and to
/// what, is left unsaid.
#[verifier::external_body]
pub(crate) fn parse_json_string_map(text: &str) -> (res: Option<Vec<(String, String)>>)
    ensures
        match res {
            Some(v) => distinct_keys(pair_views(v@)) && json_string_map(text@) == Some(
                map_of(pair_views(v@)),
            ),
            None => json_string_map(text@) is None,
        },
{
    serde_json::from_str::<std::collections::BTreeMap<String, String>>(text).ok().map(|m| m.into_iter().collect())
}

/// serde_json's `to_string` of the `BTreeMap<String, String>` that `pairs`
/// form. Stated: the result is a function of that map; it is never an error
/// (serde_json fails only on a failing `Serialize` impl or a non-string map
/// key, and writing into memory cannot fail); and `from_str` reads the text
/// back as the same map (each key and value is written as an escaped JSON
/// string, which the parser unescapes). The JSON text itself is left unsaid.
#[verifier::external_body]
pub(crate) fn string_map_json(pairs: &Vec<(String, String)>) -> (res: Option<String>)
    requires
        distinct_keys(pair_views(pairs@)),
    ensures
        match res {
            Some(t) => json_of_string_map(map_of(pair_views(pairs@))) == Some(t@),
            None => json_of_string_map(map_of(pair_views(pairs@))) is None,
        },
        res is Some,
        res matches Some(t) ==> json_string_map(t@) == Some(map_of(pair_views(pairs@))),
{
    let m: std::collections::BTreeMap<String, String> = pairs.iter().cloned().collect();
    serde_json::to_string(&m).ok()
}

/// What image's `load_from_memory(bytes)`, then `to_rgba8()`, gives: the
/// pixels as RGBA bytes with the width and height, or `None` when the bytes
/// are no image it can decode.
pub uninterp spec fn rgba_image(bytes: Seq<u8>) -> Option<(Seq<u8>, u32, u32)>;

/// image's `load_from_memory` followed by `to_rgba8`, `dimensions` and
/// `into_raw`. Stated only as a function of the bytes; the decoding is left
/// unsaid.
#[verifier::external_body]
pub(crate) fn decode_rgba(bytes: &[u8]) -> (res: Option<(Vec<u8>, u32, u32)>)
    ensures
        match res {
            Some((px, w, h)) => rgba_image(bytes@) == Some((px@, w, h)),
            None => rgba_image(bytes@) is None,
        },
{
    match image::load_from_memory(bytes) {
        Ok(img) => {
            let rgba = img.to_rgba8();
            let (w, h) = rgba.dimensions();
            Some((rgba.into_raw(), w, h))
        },
        Err(_) => None,
    }
}

} // verus!
