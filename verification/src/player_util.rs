//! Pure helpers of the player: the YouTube watch-URL parser, the French
//! publication-date tooltip, the subtitle language names and the list of
//! bundled shaders.

use vstd::prelude::*;
use vstd::string::*;
use vstd::utf8::*;
use crate::text::{
    append_decimal, chars_of, decimal, parse_unsigned, parse_unsigned_range, str_eq, string_of,
};

verus! {

broadcast use vstd::utf8::group_utf8_lib;

// ---------------------------------------------------------------------
// extract_video_id
// ---------------------------------------------------------------------

/// The marker that precedes the video id in a watch URL.
pub open spec fn watch_marker() -> Seq<char> {
    seq!['w', 'a', 't', 'c', 'h', '?', 'v', '=']
}

/// `watch?v=` starts at index `i` of `s`.
pub open spec fn marker_at(s: Seq<char>, i: int) -> bool {
    0 <= i && i + 8 <= s.len() && s.subrange(i, i + 8) == watch_marker()
}

/// Leftmost start of `watch?v=` at or after `from`.
pub open spec fn find_marker(s: Seq<char>, from: int) -> Option<int>
    decreases s.len() - from,
{
    if from < 0 || from + 8 > s.len() {
        None
    } else if marker_at(s, from) {
        Some(from)
    } else {
        find_marker(s, from + 1)
    }
}

/// The second piece of `s.split("watch?v=")`: what lies between the
/// first marker and the next one (or the end).
pub open spec fn after_marker(s: Seq<char>) -> Option<Seq<char>> {
    match find_marker(s, 0) {
        None => None,
        Some(i) => {
            let st = i + 8;
            let en = match find_marker(s, st) {
                Some(j) => j,
                None => s.len() as int,
            };
            Some(s.subrange(st, en))
        },
    }
}

/// Characters that end a video id inside a URL.
pub open spec fn id_stop(c: char) -> bool {
    c == '&' || c == '#'
}

/// Index of the first stop character of `p` at or after `from`, or `p.len()`.
pub open spec fn first_stop(p: Seq<char>, from: int) -> int
    decreases p.len() - from,
{
    if from < 0 || from >= p.len() {
        p.len() as int
    } else if id_stop(p[from]) {
        from
    } else {
        first_stop(p, from + 1)
    }
}

/// The id that `extract_video_id` reads from `url`: the characters after
/// the first `watch?v=` up to `&`, `#`, the next `watch?v=` or the end,
/// kept only when they are exactly 11 characters.
pub open spec fn video_id_of(url: Seq<char>) -> Option<Seq<char>> {
    match after_marker(url) {
        None => None,
        Some(p) => {
            let id = p.subrange(0, first_stop(p, 0));
            if id.len() == 11 {
                Some(id)
            } else {
                None
            }
        },
    }
}

proof fn lemma_find_marker_found(s: Seq<char>, from: int)
    ensures
        find_marker(s, from) matches Some(i) ==> from <= i && marker_at(s, i),
    decreases s.len() - from,
{
    if !(from < 0 || from + 8 > s.len()) && !marker_at(s, from) {
        lemma_find_marker_found(s, from + 1);
    }
}

fn marker_char(k: usize) -> (c: char)
    requires
        k < 8,
    ensures
        c == watch_marker()[k as int],
{
    match k {
        0 => 'w',
        1 => 'a',
        2 => 't',
        3 => 'c',
        4 => 'h',
        5 => '?',
        6 => 'v',
        _ => '=',
    }
}

fn marker_matches(v: &Vec<char>, i: usize) -> (r: bool)
    requires
        i + 8 <= v@.len(),
    ensures
        r == marker_at(v@, i as int),
{
    let n = v.len();
    let mut k: usize = 0;
    while k < 8
        invariant
            k <= 8,
            n == v@.len(),
            i + 8 <= n,
            forall|j: int| 0 <= j < k ==> v@[i + j] == watch_marker()[j],
        decreases 8 - k,
    {
        if v[i + k] != marker_char(k) {
            assert(v@.subrange(i as int, i + 8)[k as int] != watch_marker()[k as int]);
            return false;
        }
        k = k + 1;
    }
    assert(v@.subrange(i as int, i + 8) =~= watch_marker());
    true
}

fn find_marker_from(v: &Vec<char>, from: usize) -> (r: Option<usize>)
    requires
        from <= v@.len(),
    ensures
        r matches Some(i) ==> find_marker(v@, from as int) == Some(i as int),
        r is None ==> find_marker(v@, from as int) is None,
{
    let mut i = from;
    while i < v.len() && v.len() - i >= 8
        invariant
            from <= i <= v@.len(),
            find_marker(v@, from as int) == find_marker(v@, i as int),
        decreases v@.len() - i,
    {
        if marker_matches(v, i) {
            return Some(i);
        }
        i = i + 1;
    }
    None
}

/// The watch URL of a video: `https://www.youtube.com/watch?v=` + id.
pub open spec fn watch_url_spec(video_id: Seq<char>) -> Seq<char> {
    "https://www.youtube.com/watch?v="@ + video_id
}

/// `format!("https://www.youtube.com/watch?v={}", video_id)`.
pub fn watch_url(video_id: &str) -> (r: String)
    ensures
        r@ == watch_url_spec(video_id@),
{
    crate::text::concat_str("https://www.youtube.com/watch?v=", video_id)
}

/// Extract the YouTube video ID from a URL like
/// `https://www.youtube.com/watch?v=XXXXXXXXXXX`. Returns `None` for
/// channel handles or non-watch URLs. YouTube video IDs are always
/// exactly 11 characters; anything else is rejected.
pub fn extract_video_id(url: &str) -> (r: Option<String>)
    ensures
        r matches Some(id) ==> video_id_of(url@) == Some(id@),
        r is None ==> video_id_of(url@) is None,
{
    let v = chars_of(url);
    let first = match find_marker_from(&v, 0) {
        Some(i) => i,
        None => return None,
    };
    proof {
        lemma_find_marker_found(v@, 0);
    }
    let n = v.len();
    assert(first + 8 <= n);
    let st = first + 8;
    let en = match find_marker_from(&v, st) {
        Some(j) => j,
        None => v.len(),
    };
    proof {
        lemma_find_marker_found(v@, st as int);
    }
    let ghost p = v@.subrange(st as int, en as int);
    let mut k = st;
    while k < en && !(v[k] == '&' || v[k] == '#')
        invariant
            st <= k <= en <= v@.len(),
            p == v@.subrange(st as int, en as int),
            first_stop(p, 0) == first_stop(p, k - st),
        decreases en - k,
    {
        assert(p[k - st] == v@[k as int]);
        k = k + 1;
    }
    proof {
        if k < en {
            assert(p[k - st] == v@[k as int]);
        }
        assert(first_stop(p, k - st) == k - st);
    }
    let id = url.substring_char(st, k);
    assert(id@ =~= p.subrange(0, first_stop(p, 0)));
    if k - st == 11 {
        Some(string_of(id))
    } else {
        None
    }
}

// ---------------------------------------------------------------------
// lang_display_name
// ---------------------------------------------------------------------

/// Native display name of a two-letter language code; unknown codes map
/// to themselves.
pub open spec fn lang_name(code: Seq<char>) -> Seq<char> {
    if code == "fr"@ {
        "Français"@
    } else if code == "en"@ {
        "English"@
    } else if code == "de"@ {
        "Deutsch"@
    } else if code == "es"@ {
        "Español"@
    } else if code == "it"@ {
        "Italiano"@
    } else if code == "pt"@ {
        "Português"@
    } else if code == "ru"@ {
        "Русский"@
    } else if code == "ja"@ {
        "日本語"@
    } else if code == "ko"@ {
        "한국어"@
    } else if code == "zh"@ {
        "中文"@
    } else if code == "ar"@ {
        "العربية"@
    } else if code == "nl"@ {
        "Nederlands"@
    } else if code == "pl"@ {
        "Polski"@
    } else if code == "tr"@ {
        "Türkçe"@
    } else if code == "sv"@ {
        "Svenska"@
    } else if code == "no"@ {
        "Norsk"@
    } else if code == "da"@ {
        "Dansk"@
    } else if code == "fi"@ {
        "Suomi"@
    } else if code == "el"@ {
        "Ελληνικά"@
    } else if code == "he"@ {
        "עברית"@
    } else if code == "hi"@ {
        "हिन्दी"@
    } else if code == "th"@ {
        "ไทย"@
    } else if code == "vi"@ {
        "Tiếng Việt"@
    } else if code == "uk"@ {
        "Українська"@
    } else if code == "cs"@ {
        "Čeština"@
    } else if code == "hu"@ {
        "Magyar"@
    } else if code == "ro"@ {
        "Română"@
    } else if code == "id"@ {
        "Indonesia"@
    } else {
        code
    }
}

/// Map a 2-letter ISO-639-1 language code to a human-readable display
/// name (native). Falls through to the raw code if unknown.
pub fn lang_display_name<'a>(code: &'a str) -> (r: &'a str)
    ensures
        r@ == lang_name(code@),
{
    if str_eq(code, "fr") {
        "Français"
    } else if str_eq(code, "en") {
        "English"
    } else if str_eq(code, "de") {
        "Deutsch"
    } else if str_eq(code, "es") {
        "Español"
    } else if str_eq(code, "it") {
        "Italiano"
    } else if str_eq(code, "pt") {
        "Português"
    } else if str_eq(code, "ru") {
        "Русский"
    } else if str_eq(code, "ja") {
        "日本語"
    } else if str_eq(code, "ko") {
        "한국어"
    } else if str_eq(code, "zh") {
        "中文"
    } else if str_eq(code, "ar") {
        "العربية"
    } else if str_eq(code, "nl") {
        "Nederlands"
    } else if str_eq(code, "pl") {
        "Polski"
    } else if str_eq(code, "tr") {
        "Türkçe"
    } else if str_eq(code, "sv") {
        "Svenska"
    } else if str_eq(code, "no") {
        "Norsk"
    } else if str_eq(code, "da") {
        "Dansk"
    } else if str_eq(code, "fi") {
        "Suomi"
    } else if str_eq(code, "el") {
        "Ελληνικά"
    } else if str_eq(code, "he") {
        "עברית"
    } else if str_eq(code, "hi") {
        "हिन्दी"
    } else if str_eq(code, "th") {
        "ไทย"
    } else if str_eq(code, "vi") {
        "Tiếng Việt"
    } else if str_eq(code, "uk") {
        "Українська"
    } else if str_eq(code, "cs") {
        "Čeština"
    } else if str_eq(code, "hu") {
        "Magyar"
    } else if str_eq(code, "ro") {
        "Română"
    } else if str_eq(code, "id") {
        "Indonesia"
    } else {
        code
    }
}

// ---------------------------------------------------------------------
// format_published_tooltip
// ---------------------------------------------------------------------

/// What `iso.get(..10)` gives: the characters of the first ten bytes,
/// when the string has ten bytes and byte ten starts a character.
pub open spec fn date_part(bytes: Seq<u8>) -> Option<Seq<char>> {
    if bytes.len() >= 10 && is_char_boundary(bytes, 10) {
        Some(decode_utf8(bytes.subrange(0, 10)))
    } else {
        None
    }
}

/// Index of the first `c` in `s` at or after `from`.
pub open spec fn find_char(s: Seq<char>, c: char, from: int) -> Option<int>
    decreases s.len() - from,
{
    if from < 0 || from >= s.len() {
        None
    } else if s[from] == c {
        Some(from)
    } else {
        find_char(s, c, from + 1)
    }
}

/// `d.split('-')` when it yields exactly three pieces.
pub open spec fn split3_dash(d: Seq<char>) -> Option<(Seq<char>, Seq<char>, Seq<char>)> {
    match find_char(d, '-', 0) {
        None => None,
        Some(a) => match find_char(d, '-', a + 1) {
            None => None,
            Some(b) => if find_char(d, '-', b + 1) is None {
                Some((d.subrange(0, a), d.subrange(a + 1, b), d.subrange(b + 1, d.len() as int)))
            } else {
                None
            },
        },
    }
}

/// Gregorian leap year.
pub open spec fn is_leap_year(y: int) -> bool {
    (y % 4 == 0 && y % 100 != 0) || y % 400 == 0
}

/// Days in month `m` (1..=12) of year `y`.
pub open spec fn days_in_month(y: int, m: int) -> int {
    if m == 2 {
        if is_leap_year(y) { 29 } else { 28 }
    } else if m == 4 || m == 6 || m == 9 || m == 11 {
        30
    } else {
        31
    }
}

/// `(year, month, day)` read from the `YYYY-MM-DD` head of an ISO date:
/// the year as `i32`, month and day as `u32` (`str::parse`), with the
/// month in `1..=12` and the day a day of that month.
pub open spec fn parsed_date(bytes: Seq<u8>) -> Option<(nat, nat, nat)> {
    match date_part(bytes) {
        None => None,
        Some(d) => match split3_dash(d) {
            None => None,
            Some(parts) => {
                let y = parse_unsigned(parts.0, i32::MAX as nat);
                let m = parse_unsigned(parts.1, u32::MAX as nat);
                let dd = parse_unsigned(parts.2, u32::MAX as nat);
                if y is Some && m is Some && dd is Some && 1 <= m->0 <= 12 && 1 <= dd->0 <= days_in_month(
                    y->0 as int,
                    m->0 as int,
                ) {
                    Some((y->0, m->0, dd->0))
                } else {
                    None
                }
            },
        },
    }
}

/// Integer division truncating toward zero, as Rust's `/` on `i32`.
pub open spec fn tdiv(a: int, b: int) -> int {
    if a >= 0 {
        a / b
    } else {
        -((-a) / b)
    }
}

/// Sakamoto's month offsets.
pub open spec fn month_offset(m: int) -> int {
    if m == 1 {
        0
    } else if m == 2 {
        3
    } else if m == 3 {
        2
    } else if m == 4 {
        5
    } else if m == 5 {
        0
    } else if m == 6 {
        3
    } else if m == 7 {
        5
    } else if m == 8 {
        1
    } else if m == 9 {
        4
    } else if m == 10 {
        6
    } else if m == 11 {
        2
    } else {
        4
    }
}

/// Day of the week, Monday = 0 .. Sunday = 6 (Sakamoto's method).
pub open spec fn weekday_monday0(year: int, month: int, day: int) -> int {
    let y = if month < 3 {
        year - 1
    } else {
        year
    };
    let dow = (y + tdiv(y, 4) - tdiv(y, 100) + tdiv(y, 400) + month_offset(month) + day) % 7;
    if dow == 0 {
        6
    } else {
        dow - 1
    }
}

/// Capitalised French day names, Monday first.
pub open spec fn day_name_cap(i: int) -> Seq<char> {
    if i == 0 {
        "Lundi"@
    } else if i == 1 {
        "Mardi"@
    } else if i == 2 {
        "Mercredi"@
    } else if i == 3 {
        "Jeudi"@
    } else if i == 4 {
        "Vendredi"@
    } else if i == 5 {
        "Samedi"@
    } else {
        "Dimanche"@
    }
}

/// French month names.
pub open spec fn month_name_fr(m: int) -> Seq<char> {
    if m == 1 {
        "janvier"@
    } else if m == 2 {
        "février"@
    } else if m == 3 {
        "mars"@
    } else if m == 4 {
        "avril"@
    } else if m == 5 {
        "mai"@
    } else if m == 6 {
        "juin"@
    } else if m == 7 {
        "juillet"@
    } else if m == 8 {
        "août"@
    } else if m == 9 {
        "septembre"@
    } else if m == 10 {
        "octobre"@
    } else if m == 11 {
        "novembre"@
    } else {
        "décembre"@
    }
}

/// The calendar year of a Unix time in seconds (365.25-day years).
pub open spec fn year_of_secs(now: nat) -> int {
    (1970 + now / 31_557_600) as int
}

/// The month (1..=12) of a Unix time in seconds (30.4375-day months).
pub open spec fn month_of_secs(now: nat) -> int {
((now % 31_557_600) / 2_629_800 + 1) as int
}

/// "il y a …" part of the tooltip for a date of `year`/`month` seen at
/// `now` (seconds); a date in a later year than the clock's is "récente".
pub open spec fn ago_text(year: int, month: int, now: nat) -> Seq<char> {
    let diff_years = year_of_secs(now) - year;
    if diff_years < 0 {
        "récente"@
    } else if diff_years >= 2 {
        "il y a "@ + decimal(diff_years as nat) + " ans"@
    } else if diff_years == 1 {
        "il y a 1 an"@
    } else {
        let diff_months = if month_of_secs(now) > month {
            month_of_secs(now) - month
        } else {
            0
        };
        if diff_months > 1 {
            "il y a "@ + decimal(diff_months as nat) + " mois"@
        } else if diff_months == 1 {
            "il y a 1 mois"@
        } else {
            "récente"@
        }
    }
}

/// The tooltip text for the ISO date whose bytes are `bytes`, at Unix
/// time `now`: `"<Jour> <d> <mois> <année> — <il y a …>"`.
pub open spec fn published_tooltip(bytes: Seq<u8>, now: nat) -> Option<Seq<char>> {
    match parsed_date(bytes) {
        None => None,
        Some(ymd) => Some(
            day_name_cap(weekday_monday0(ymd.0 as int, ymd.1 as int, ymd.2 as int)) + " "@
                + decimal(ymd.2) + " "@ + month_name_fr(ymd.1 as int) + " "@ + decimal(ymd.0)
                + " — "@ + ago_text(ymd.0 as int, ymd.1 as int, now),
        ),
    }
}

fn find_char_from(v: &Vec<char>, c: char, from: usize) -> (r: Option<usize>)
    requires
        from <= v@.len(),
    ensures
        r matches Some(i) ==> find_char(v@, c, from as int) == Some(i as int) && from <= i < v@.len()
            && v@[i as int] == c,
        r is None ==> find_char(v@, c, from as int) is None,
{
    let mut i = from;
    while i < v.len()
        invariant
            from <= i <= v@.len(),
            find_char(v@, c, from as int) == find_char(v@, c, i as int),
        decreases v@.len() - i,
    {
        if v[i] == c {
            return Some(i);
        }
        i = i + 1;
    }
    None
}

/// Reads `(year, month, day)` from the head of an ISO date as
/// `format_published_tooltip` does.
fn days_in_month_exec(y: u64, m: u64) -> (r: u64)
    requires
        1 <= m <= 12,
    ensures
        r == days_in_month(y as int, m as int),
{
    if m == 2 {
        if (y % 4 == 0 && y % 100 != 0) || y % 400 == 0 {
            29
        } else {
            28
        }
    } else if m == 4 || m == 6 || m == 9 || m == 11 {
        30
    } else {
        31
    }
}

pub fn parse_published_date(iso: &str) -> (r: Option<(u64, u64, u64)>)
    ensures
        r matches Some(t) ==> parsed_date(iso.spec_bytes()) == Some((t.0 as nat, t.1 as nat, t.2 as nat)),
        r is None ==> parsed_date(iso.spec_bytes()) is None,
{
    let bytes = iso.as_bytes();
    if bytes.len() < 10 || !iso.is_char_boundary(10) {
        return None;
    }
    let (head, _rest) = iso.split_at(10);
    let d = chars_of(head);
    proof {
        assert(head.spec_bytes() =~= iso.spec_bytes().subrange(0, 10));
        assert(decode_utf8(encode_utf8(head@)) == head@);
        assert(date_part(iso.spec_bytes()) == Some(d@));
    }
    let a = match find_char_from(&d, '-', 0) {
        Some(a) => a,
        None => return None,
    };
    let b = match find_char_from(&d, '-', a + 1) {
        Some(b) => b,
        None => return None,
    };
    if find_char_from(&d, '-', b + 1).is_some() {
        return None;
    }
    let y = parse_unsigned_range(&d, 0, a, 2147483647);
    let m = parse_unsigned_range(&d, a + 1, b, 4294967295);
    let dd = parse_unsigned_range(&d, b + 1, d.len(), 4294967295);
    match (y, m, dd) {
        (Some(y), Some(m), Some(dd)) => {
            if 1 <= m && m <= 12 && 1 <= dd && dd <= days_in_month_exec(y, m) {
                Some((y, m, dd))
            } else {
                None
            }
        },
        _ => None,
    }
}

fn day_name_cap_str(i: u64) -> (s: &'static str)
    ensures
        s@ == day_name_cap(i as int),
{
    if i == 0 {
        "Lundi"
    } else if i == 1 {
        "Mardi"
    } else if i == 2 {
        "Mercredi"
    } else if i == 3 {
        "Jeudi"
    } else if i == 4 {
        "Vendredi"
    } else if i == 5 {
        "Samedi"
    } else {
        "Dimanche"
    }
}

fn month_name_fr_str(m: u64) -> (s: &'static str)
    ensures
        s@ == month_name_fr(m as int),
{
    if m == 1 {
        "janvier"
    } else if m == 2 {
        "février"
    } else if m == 3 {
        "mars"
    } else if m == 4 {
        "avril"
    } else if m == 5 {
        "mai"
    } else if m == 6 {
        "juin"
    } else if m == 7 {
        "juillet"
    } else if m == 8 {
        "août"
    } else if m == 9 {
        "septembre"
    } else if m == 10 {
        "octobre"
    } else if m == 11 {
        "novembre"
    } else {
        "décembre"
    }
}

fn month_offset_exec(m: u64) -> (r: u64)
    ensures
        r == month_offset(m as int),
{
    if m == 1 {
        0
    } else if m == 2 {
        3
    } else if m == 3 {
        2
    } else if m == 4 {
        5
    } else if m == 5 {
        0
    } else if m == 6 {
        3
    } else if m == 7 {
        5
    } else if m == 8 {
        1
    } else if m == 9 {
        4
    } else if m == 10 {
        6
    } else if m == 11 {
        2
    } else {
        4
    }
}

#[verifier::spinoff_prover]
#[verifier::rlimit(40)]
fn weekday_exec(year: u64, month: u64, day: u64) -> (r: u64)
    requires
        year <= i32::MAX,
        1 <= month <= 12,
        day <= u32::MAX,
    ensures
        r == weekday_monday0(year as int, month as int, day as int),
        r < 7,
{
    // y is at least -1; keep everything non-negative by adding 7 first.
    let base: u64;
    if month < 3 && year == 0 {
        // y == -1: y/4, y/100, y/400 truncate to 0.
        base = 7 - 1 + month_offset_exec(month) + day;
        assert(tdiv(-1, 4) == 0 && tdiv(-1, 100) == 0 && tdiv(-1, 400) == 0);
    } else {
        let y: u64 = if month < 3 {
            year - 1
        } else {
            year
        };
        base = 7 + y + y / 4 - y / 100 + y / 400 + month_offset_exec(month) + day;
    }
    let dow = base % 7;
    if dow == 0 {
        6
    } else {
        dow - 1
    }
}

fn append_ago(out: &mut String, year: u64, month: u64, now: u64)
    requires
        1 <= month <= 12,
    ensures
        final(out)@ == old(out)@ + ago_text(year as int, month as int, now as nat),
{
    let now_year: u64 = 1970 + now / 31_557_600;
    let ghost before = out@;
    if year > now_year {
        out.append("récente");
        return;
    }
    let diff_years = now_year - year;
    if diff_years >= 2 {
        out.append("il y a ");
        append_decimal(out, diff_years);
        out.append(" ans");
        assert(final(out)@ =~= before + ago_text(year as int, month as int, now as nat));
    } else if diff_years == 1 {
        out.append("il y a 1 an");
    } else {
        let now_month: u64 = (now % 31_557_600) / 2_629_800 + 1;
        let diff_months: u64 = if now_month > month {
            now_month - month
        } else {
            0
        };
        if diff_months > 1 {
            out.append("il y a ");
            append_decimal(out, diff_months);
            out.append(" mois");
            assert(final(out)@ =~= before + ago_text(year as int, month as int, now as nat));
        } else if diff_months == 1 {
            out.append("il y a 1 mois");
        } else {
            out.append("récente");
        }
    }
}

/// The tooltip for `iso` at the Unix time `now_secs`: `Some` exactly
/// when the `YYYY-MM-DD` head parses (see `parsed_date`).
pub fn published_tooltip_at(iso: &str, now_secs: u64) -> (r: Option<String>)
    ensures
        r matches Some(s) ==> published_tooltip(iso.spec_bytes(), now_secs as nat) == Some(s@),
        r is None ==> published_tooltip(iso.spec_bytes(), now_secs as nat) is None,
{
    let (year, month, day) = match parse_published_date(iso) {
        Some(t) => t,
        None => return None,
    };
    let wd = weekday_exec(year, month, day);
    let mut out = string_of(day_name_cap_str(wd));
    out.append(" ");
    append_decimal(&mut out, day);
    out.append(" ");
    out.append(month_name_fr_str(month));
    out.append(" ");
    append_decimal(&mut out, year);
    out.append(" — ");
    let ghost head = out@;
    append_ago(&mut out, year, month, now_secs);
    assert(out@ =~= published_tooltip(iso.spec_bytes(), now_secs as nat)->0);
    Some(out)
}

/// Format a `publishedAt` ISO-8601 string (e.g. `"2019-02-12T15:00:00Z"`)
/// into a French tooltip like `"Mardi 12 février 2019 — il y a 6 ans"`,
/// reading the clock for the "il y a …" part. Returns `None` exactly for
/// malformed input (see `parsed_date`).
pub fn format_published_tooltip(iso: &str) -> (r: Option<String>)
    ensures
        r matches Some(s) ==> exists|now: nat| published_tooltip(iso.spec_bytes(), now) == Some(s@),
        r is None <==> parsed_date(iso.spec_bytes()) is None,
{
    let now = crate::clock::now_unix_secs();
    published_tooltip_at(iso, now)
}

// ---------------------------------------------------------------------
// Bundled shaders
// ---------------------------------------------------------------------

/// A file name whose extension is `glsl` (a name that is only `.glsl`
/// is a hidden file without extension).
pub open spec fn is_shader_name(name: Seq<char>) -> bool {
    crate::chat::ends_with(name, ".glsl"@) && name.len() > 5
}

/// The paths of the shader files among `(file name, path)` entries, in
/// the entries' order.
pub open spec fn shader_files(entries: Seq<(Seq<char>, Seq<char>)>) -> Seq<Seq<char>>
    decreases entries.len(),
{
    if entries.len() == 0 {
        Seq::empty()
    } else if is_shader_name(entries.last().0) {
        shader_files(entries.drop_last()).push(entries.last().1)
    } else {
        shader_files(entries.drop_last())
    }
}

/// `parts` joined with `:`.
pub open spec fn join_colon(parts: Seq<Seq<char>>) -> Seq<char>
    decreases parts.len(),
{
    if parts.len() == 0 {
        Seq::empty()
    } else if parts.len() == 1 {
        parts[0]
    } else {
        join_colon(parts.drop_last()) + ":"@ + parts.last()
    }
}

pub open spec fn entries_view(v: Seq<(String, String)>) -> Seq<(Seq<char>, Seq<char>)> {
    v.map_values(|e: (String, String)| (e.0@, e.1@))
}

/// The value of mpv's `glsl-shaders` for the files of one shader
/// directory, given as `(file name, path)`: the paths of the `.glsl`
/// files, sorted, joined with `:`; `None` when there is none.
pub fn shader_list(entries: Vec<(String, String)>) -> (r: Option<String>)
    ensures
        ({
            let sorted = crate::chat::sort_strings(shader_files(entries_view(entries@)));
            &&& sorted.len() == 0 ==> r is None
            &&& sorted.len() > 0 ==> (r matches Some(s) && s@ == join_colon(sorted))
        }),
{
    let ghost ev = entries_view(entries@);
    let n = entries.len();
    let mut paths: Vec<String> = Vec::new();
    let mut k: usize = 0;
    while k < n
        invariant
            n == entries@.len(),
            ev == entries_view(entries@),
            k <= n,
            crate::player_tracks::strings_view(paths@) == crate::chat::sort_strings(shader_files(ev.take(k as int))),
        decreases n - k,
    {
        let name = entries[k].0.clone();
        let path = entries[k].1.clone();
        proof {
            assert(ev.take(k + 1).drop_last() =~= ev.take(k as int));
            assert(ev.take(k + 1).last() == (name@, path@));
        }
        let cv = chars_of(name.as_str());
        let keep = crate::chat::ends_with_exec(&cv, ".glsl") && cv.len() > 5;
        proof {
            reveal_strlit(".glsl");
        }
        if keep {
            let ghost pv = path@;
            crate::chat::insert_sorted(&mut paths, path);
            proof {
                let x = shader_files(ev.take(k as int));
                assert(x.push(pv).drop_last() =~= x);
            }
        }
        k = k + 1;
    }
    assert(ev.take(n as int) =~= ev);
    let ghost sorted = crate::player_tracks::strings_view(paths@);
    if paths.len() == 0 {
        return None;
    }
    let mut out = paths[0].clone();
    let mut i: usize = 1;
    assert(sorted.take(1) =~= seq![sorted[0]]);
    while i < paths.len()
        invariant
            sorted == crate::player_tracks::strings_view(paths@),
            1 <= i <= paths@.len(),
            out@ == join_colon(sorted.take(i as int)),
        decreases paths@.len() - i,
    {
        assert(sorted.take(i + 1).drop_last() =~= sorted.take(i as int));
        out.append(":");
        out.append(paths[i].as_str());
        i = i + 1;
        proof {
            reveal_strlit(":");
        }
    }
    assert(sorted.take(paths@.len() as int) =~= sorted);
    Some(out)
}

// ---------------------------------------------------------------------
// Laws
// ---------------------------------------------------------------------

/// Only the `YYYY-MM-DD` head of an ISO date matters: two strings with
/// the same first ten bytes (a character boundary after them) get the
/// same tooltip at the same time, whatever time of day or zone follows.
pub proof fn law_tooltip_reads_date_head(a: Seq<u8>, b: Seq<u8>, now: nat)
    requires
        date_part(a) is Some,
        date_part(a) == date_part(b),
    ensures
        published_tooltip(a, now) == published_tooltip(b, now),
{
}

proof fn lemma_no_marker_after(s: Seq<char>, from: int, k: int)
    requires
        find_marker(s, from) is None,
        0 <= from <= k,
    ensures
        !marker_at(s, k),
    decreases k - from,
{
    if from < k && from + 8 <= s.len() {
        lemma_no_marker_after(s, from + 1, k);
    }
}

proof fn lemma_marker_in_extended(u: Seq<char>, c: char, s: Seq<char>, i: int)
    requires
        id_stop(c),
        find_marker(s, 0) is None,
        0 <= i,
    ensures
        marker_at(u + seq![c] + s, i) == marker_at(u, i),
{
    let t = u + seq![c] + s;
    let l = u.len() as int;
    if i + 8 <= l {
        assert(t.subrange(i, i + 8) =~= u.subrange(i, i + 8));
    } else if i <= l {
        if marker_at(t, i) {
            assert(t.subrange(i, i + 8)[l - i] == t[l]);
            assert(t[l] == c);
            assert(watch_marker()[l - i] != c);
        }
    } else {
        if marker_at(t, i) {
            assert(t.subrange(i, i + 8) =~= s.subrange(i - l - 1, i - l - 1 + 8));
            lemma_no_marker_after(s, 0, i - l - 1);
        }
    }
}

proof fn lemma_find_marker_extended(u: Seq<char>, c: char, s: Seq<char>, from: int)
    requires
        id_stop(c),
        find_marker(s, 0) is None,
        0 <= from,
    ensures
        find_marker(u + seq![c] + s, from) == find_marker(u, from),
    decreases (u + seq![c] + s).len() - from,
{
    let t = u + seq![c] + s;
    if from + 8 <= t.len() {
        lemma_marker_in_extended(u, c, s, from);
        lemma_find_marker_extended(u, c, s, from + 1);
        if from + 8 > u.len() {
            assert(find_marker(u, from) is None);
        }
    }
}

proof fn lemma_first_stop_extended(p: Seq<char>, c: char, s: Seq<char>, k: int)
    requires
        id_stop(c),
        0 <= k <= p.len(),
    ensures
        first_stop(p + seq![c] + s, k) == first_stop(p, k),
    decreases p.len() - k,
{
    let q = p + seq![c] + s;
    if k < p.len() {
        assert(q[k] == p[k]);
        lemma_first_stop_extended(p, c, s, k + 1);
    } else {
        assert(q[k] == c);
    }
}

/// Appending query parameters (`&…`) or a fragment (`#…`) that hold no
/// `watch?v=` never changes the video id read from a URL.
pub proof fn law_suffix_keeps_video_id(url: Seq<char>, c: char, rest: Seq<char>)
    requires
        c == '&' || c == '#',
        find_marker(rest, 0) is None,
    ensures
        video_id_of(url + seq![c] + rest) == video_id_of(url),
{
    let t = url + seq![c] + rest;
    lemma_find_marker_extended(url, c, rest, 0);
    lemma_find_marker_found(url, 0);
    if let Some(i) = find_marker(url, 0) {
        let st = i + 8;
        lemma_find_marker_extended(url, c, rest, st);
        lemma_find_marker_found(url, st);
        match find_marker(url, st) {
            Some(j) => {
                assert(t.subrange(st, j) =~= url.subrange(st, j));
            },
            None => {
                let p = url.subrange(st, url.len() as int);
                assert(t.subrange(st, t.len() as int) =~= p + seq![c] + rest);
                lemma_first_stop_extended(p, c, rest, 0);
                let f = first_stop(p, 0);
                lemma_first_stop_le(p, 0);
                assert((p + seq![c] + rest).subrange(0, f) =~= p.subrange(0, f));
            },
        }
    }
}

proof fn lemma_first_stop_le(p: Seq<char>, k: int)
    requires
        0 <= k <= p.len(),
    ensures
        k <= first_stop(p, k) <= p.len(),
    decreases p.len() - k,
{
    if k < p.len() {
        lemma_first_stop_le(p, k + 1);
    }
}

/// How long ago a date was published, as the tooltip ends, for a date
/// of the clock's own year or earlier: in a past year, "il y a N ans"
/// (N years, "il y a 1 an" for one); in the clock's year, "il y a N
/// mois" when its month M (30.4375-day months) is after the date's
/// month m, N = M - m ("il y a 1 mois" for one), and "récente" only
/// when M is not after m.
pub proof fn law_tooltip_ago(bytes: Seq<u8>, now: nat, y: nat, m: nat, d: nat)
    requires
        parsed_date(bytes) == Some((y, m, d)),
    ensures
        ({
            let t = published_tooltip(bytes, now)->0;
            let now_year: int = (1970 + now / 31_557_600) as int;
            let now_month: int = ((now % 31_557_600) / 2_629_800 + 1) as int;
            &&& published_tooltip(bytes, now) is Some
            &&& now_year - y >= 2 ==> crate::chat::ends_with(t, "il y a "@ + decimal((now_year - y) as nat) + " ans"@)
            &&& now_year - y == 1 ==> crate::chat::ends_with(t, "il y a 1 an"@)
            &&& (now_year == y && now_month - m == 1) ==> crate::chat::ends_with(t, "il y a 1 mois"@)
            &&& (now_year == y && now_month - m > 1) ==> crate::chat::ends_with(
                t,
                "il y a "@ + decimal((now_month - m) as nat) + " mois"@,
            )
            &&& (now_year == y && now_month <= m) ==> crate::chat::ends_with(t, "récente"@)
            &&& now_year < y ==> crate::chat::ends_with(t, "récente"@)
        }),
{
    let t = published_tooltip(bytes, now)->0;
    let a = ago_text(y as int, m as int, now);
    let h = day_name_cap(weekday_monday0(y as int, m as int, d as int)) + " "@ + decimal(d) + " "@ + month_name_fr(
        m as int,
    ) + " "@ + decimal(y) + " — "@;
    assert(t =~= h + a);
    assert(t.subrange(t.len() - a.len(), t.len() as int) =~= a);
}

} // verus!
