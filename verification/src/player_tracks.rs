//! Subtitle / audio track lists and the popup menus of the player's
//! control bar: which tracks are offered, in which order and with which
//! labels, what each menu shows and selects, and what a click on a menu
//! row asks for. Track properties are read from the player by the caller.

use vstd::prelude::*;
use vstd::string::*;
use vstd::utf8::*;
use crate::text::{str_eq, string_of};
use crate::player_util::{lang_display_name, lang_name};
use crate::popup_menu::{MenuEvent, MenuKind};

verus! {

broadcast use vstd::utf8::group_utf8_lib;

/// One entry of the player's `track-list`, as read from its properties
/// (`type`, `id`, `lang`, `title`; unreadable strings read as empty, an
/// unreadable id as `None`), with the numbered fallback label the
/// interface shows for an audio track without language or title.
pub struct TrackInfo {
    pub kind: String,
    pub id: Option<i64>,
    pub lang: String,
    pub title: String,
    pub numbered_label: String,
}

/// Labels of the quality menu, in order.
pub open spec fn quality_label(i: int) -> Seq<char> {
    if i == 0 {
        "Auto"@
    } else if i == 1 {
        "1080p"@
    } else if i == 2 {
        "720p"@
    } else if i == 3 {
        "480p"@
    } else {
        "360p"@
    }
}

/// yt-dlp format selectors of the quality menu, in order.
pub open spec fn quality_format(i: int) -> Seq<char> {
    if i == 0 {
        "bestvideo[height<=1080][vcodec!*=av01]+bestaudio/best[height<=1080][vcodec!*=av01]/best[vcodec!*=av01]/best"@
    } else if i == 1 {
        "bestvideo[height<=1080][vcodec!*=av01]+bestaudio/best[height<=1080][vcodec!*=av01]"@
    } else if i == 2 {
        "bestvideo[height<=720][vcodec!*=av01]+bestaudio/best[height<=720][vcodec!*=av01]"@
    } else if i == 3 {
        "bestvideo[height<=480][vcodec!*=av01]+bestaudio/best[height<=480][vcodec!*=av01]"@
    } else {
        "bestvideo[height<=360][vcodec!*=av01]+bestaudio/best[height<=360][vcodec!*=av01]"@
    }
}

pub const QUALITY_COUNT: usize = 5;

/// The label and yt-dlp format selector of quality `i` (AV1 excluded:
/// older GPUs cannot decode it in hardware).
pub fn quality(i: usize) -> (r: (&'static str, &'static str))
    requires
        i < QUALITY_COUNT,
    ensures
        r.0@ == quality_label(i as int),
        r.1@ == quality_format(i as int),
{
    if i == 0 {
        (
            "Auto",
            "bestvideo[height<=1080][vcodec!*=av01]+bestaudio/best[height<=1080][vcodec!*=av01]/best[vcodec!*=av01]/best",
        )
    } else if i == 1 {
        ("1080p", "bestvideo[height<=1080][vcodec!*=av01]+bestaudio/best[height<=1080][vcodec!*=av01]")
    } else if i == 2 {
        ("720p", "bestvideo[height<=720][vcodec!*=av01]+bestaudio/best[height<=720][vcodec!*=av01]")
    } else if i == 3 {
        ("480p", "bestvideo[height<=480][vcodec!*=av01]+bestaudio/best[height<=480][vcodec!*=av01]")
    } else {
        ("360p", "bestvideo[height<=360][vcodec!*=av01]+bestaudio/best[height<=360][vcodec!*=av01]")
    }
}

/// The part of a language tag before its first `-` (`"fr-CA"` → `"fr"`).
pub open spec fn base_lang(lang: Seq<char>) -> Seq<char>
    decreases lang.len(),
{
    if lang.len() == 0 {
        lang
    } else if lang[0] == '-' {
        Seq::empty()
    } else {
        seq![lang[0]] + base_lang(lang.drop_first())
    }
}

/// One of the five languages the compact captions menu offers.
pub open spec fn is_common_lang(base: Seq<char>) -> bool {
    base == "fr"@ || base == "en"@ || base == "de"@ || base == "es"@ || base == "it"@
}

/// Track `t` is a subtitle track that can be offered.
pub open spec fn sub_candidate(t: TrackInfo, common_only: bool) -> bool {
    &&& t.kind@ == "sub"@
    &&& t.id is Some
    &&& t.lang@.len() > 0
    &&& (common_only ==> is_common_lang(base_lang(t.lang@)))
}

/// Subtitle tracks offered, in track order: one per base language (the
/// first track of each), labelled with the language's display name.
pub open spec fn sub_tracks_unsorted(tracks: Seq<TrackInfo>, common_only: bool) -> Seq<(i64, Seq<char>)>
    decreases tracks.len(),
{
    if tracks.len() == 0 {
        Seq::empty()
    } else {
        let prev = sub_tracks_unsorted(tracks.drop_last(), common_only);
        let t = tracks.last();
        if sub_candidate(t, common_only) && !(exists|j: int|
            0 <= j < tracks.len() - 1 && sub_candidate(#[trigger] tracks[j], common_only)
                && base_lang(tracks[j].lang@) == base_lang(t.lang@)) {
            prev.push((t.id->0, lang_name(base_lang(t.lang@))))
        } else {
            prev
        }
    }
}

/// Byte-wise lexicographic order, as `Ord` compares `String`s.
pub open spec fn lex_lt(a: Seq<u8>, b: Seq<u8>) -> bool
    decreases a.len(),
{
    if a.len() == 0 {
        b.len() > 0
    } else if b.len() == 0 {
        false
    } else if a[0] < b[0] {
        true
    } else if a[0] > b[0] {
        false
    } else {
        lex_lt(a.drop_first(), b.drop_first())
    }
}

/// `label(a) < label(b)` in `String` order.
pub open spec fn label_lt(a: (i64, Seq<char>), b: (i64, Seq<char>)) -> bool {
    lex_lt(encode_utf8(a.1), encode_utf8(b.1))
}

/// Index where a stable insertion puts `x` into `s`: before the first
/// element ordered after it.
pub open spec fn insert_pos(s: Seq<(i64, Seq<char>)>, x: (i64, Seq<char>), i: int) -> int
    decreases s.len() - i,
{
    if i < 0 || i >= s.len() {
        s.len() as int
    } else if label_lt(x, s[i]) {
        i
    } else {
        insert_pos(s, x, i + 1)
    }
}

/// `s` stably sorted by label (what `sort_by` on the labels gives).
pub open spec fn sort_by_label(s: Seq<(i64, Seq<char>)>) -> Seq<(i64, Seq<char>)>
    decreases s.len(),
{
    if s.len() == 0 {
        s
    } else {
        let sorted = sort_by_label(s.drop_last());
        sorted.insert(insert_pos(sorted, s.last(), 0), s.last())
    }
}

/// The subtitle menu's tracks: offered tracks sorted by label.
pub open spec fn sub_tracks(tracks: Seq<TrackInfo>, common_only: bool) -> Seq<(i64, Seq<char>)> {
    sort_by_label(sub_tracks_unsorted(tracks, common_only))
}

/// The views of a list of strings.
pub open spec fn strings_view(v: Seq<String>) -> Seq<Seq<char>> {
    v.map_values(|s: String| s@)
}

/// The labels of `(id, label)` pairs.
pub open spec fn labels_of(t: Seq<(i64, Seq<char>)>) -> Seq<Seq<char>> {
    t.map_values(|p: (i64, Seq<char>)| p.1)
}

/// The views of a list of `(id, label)` pairs.
pub open spec fn pairs_view(v: Seq<(i64, String)>) -> Seq<(i64, Seq<char>)> {
    v.map_values(|p: (i64, String)| (p.0, p.1@))
}

fn base_lang_exec(lang: &str) -> (r: &str)
    ensures
        r@ == base_lang(lang@),
{
    let n = lang.unicode_len();
    let mut i: usize = 0;
    while i < n && lang.get_char(i) != '-'
        invariant
            n == lang@.len(),
            i <= n,
            forall|k: int| 0 <= k < i ==> lang@[k] != '-',
        decreases n - i,
    {
        i = i + 1;
    }
    proof {
        lemma_base_lang(lang@, i as int);
    }
    lang.substring_char(0, i)
}

proof fn lemma_base_lang(s: Seq<char>, i: int)
    requires
        0 <= i <= s.len(),
        forall|k: int| 0 <= k < i ==> s[k] != '-',
        i < s.len() ==> s[i] == '-',
    ensures
        base_lang(s) == s.subrange(0, i),
    decreases i,
{
    if i == 0 {
        if s.len() > 0 {
            assert(s[0] == '-');
        }
        assert(s.subrange(0, 0) =~= Seq::<char>::empty());
    } else {
        lemma_base_lang(s.drop_first(), i - 1);
        assert(seq![s[0]] + s.drop_first().subrange(0, i - 1) =~= s.subrange(0, i));
    }
}

fn is_common_lang_exec(base: &str) -> (r: bool)
    ensures
        r == is_common_lang(base@),
{
    str_eq(base, "fr") || str_eq(base, "en") || str_eq(base, "de") || str_eq(base, "es") || str_eq(
        base,
        "it",
    )
}

fn is_sub_candidate(t: &TrackInfo, common_only: bool) -> (r: bool)
    ensures
        r == sub_candidate(*t, common_only),
{
    if !str_eq(t.kind.as_str(), "sub") || t.id.is_none() || t.lang.unicode_len() == 0 {
        return false;
    }
    if common_only {
        is_common_lang_exec(base_lang_exec(t.lang.as_str()))
    } else {
        true
    }
}

/// `a < b` in `String` order.
pub fn str_lt(a: &str, b: &str) -> (r: bool)
    ensures
        r == lex_lt(a.spec_bytes(), b.spec_bytes()),
{
    let ab = a.as_bytes();
    let bb = b.as_bytes();
    let mut i: usize = 0;
    assert(ab@.skip(0) =~= ab@);
    assert(bb@.skip(0) =~= bb@);
    loop
        invariant
            ab@ == a.spec_bytes(),
            bb@ == b.spec_bytes(),
            i <= ab@.len(),
            i <= bb@.len(),
            lex_lt(a.spec_bytes(), b.spec_bytes()) == lex_lt(ab@.skip(i as int), bb@.skip(i as int)),
        decreases ab@.len() - i,
    {
        let ghost sa = ab@.skip(i as int);
        let ghost sb = bb@.skip(i as int);
        if i == ab.len() {
            return i < bb.len();
        }
        if i == bb.len() {
            return false;
        }
        assert(sa[0] == ab@[i as int] && sb[0] == bb@[i as int]);
        if ab[i] < bb[i] {
            return true;
        }
        if ab[i] > bb[i] {
            return false;
        }
        assert(sa.drop_first() =~= ab@.skip(i + 1));
        assert(sb.drop_first() =~= bb@.skip(i + 1));
        i = i + 1;
    }
}

fn find_insert_pos(s: &Vec<(i64, String)>, x: &(i64, String)) -> (r: usize)
    ensures
        r == insert_pos(pairs_view(s@), (x.0, x.1@), 0),
        r <= s@.len(),
{
    let ghost sv = pairs_view(s@);
    let ghost xv = (x.0, x.1@);
    let mut i: usize = 0;
    while i < s.len()
        invariant
            sv == pairs_view(s@),
            xv == (x.0, x.1@),
            i <= s@.len(),
            insert_pos(sv, xv, 0) == insert_pos(sv, xv, i as int),
        decreases s@.len() - i,
    {
        assert(sv[i as int] == (s@[i as int].0, s@[i as int].1@));
        let xs = x.1.as_str();
        let ss = s[i].1.as_str();
        let lt = str_lt(xs, ss);
        assert(xs@ == xv.1 && ss@ == sv[i as int].1);
        assert(xs.spec_bytes() == encode_utf8(xv.1));
        assert(lt == label_lt(xv, sv[i as int]));
        if lt {
            assert(insert_pos(sv, xv, i as int) == i);
            return i;
        }
        assert(insert_pos(sv, xv, i as int) == insert_pos(sv, xv, i + 1));
        i = i + 1;
    }
    i
}

/// Stable sort by label.
pub fn sort_tracks_by_label(v: Vec<(i64, String)>) -> (out: Vec<(i64, String)>)
    ensures
        pairs_view(out@) == sort_by_label(pairs_view(v@)),
{
    let mut out: Vec<(i64, String)> = Vec::new();
    let n = v.len();
    let mut k: usize = 0;
    let ghost vv = pairs_view(v@);
    while k < n
        invariant
            n == v@.len(),
            vv == pairs_view(v@),
            k <= n,
            pairs_view(out@) == sort_by_label(vv.take(k as int)),
        decreases n - k,
    {
        let x = (v[k].0, v[k].1.clone());
        let pos = find_insert_pos(&out, &x);
        let ghost before = out@;
        out.insert(pos, x);
        proof {
            assert(vv.take(k + 1).drop_last() =~= vv.take(k as int));
            assert(vv.take(k + 1).last() == (x.0, x.1@));
            assert(pairs_view(out@) =~= pairs_view(before).insert(pos as int, (x.0, x.1@)));
        }
        k = k + 1;
    }
    assert(vv.take(n as int) =~= vv);
    out
}

/// The bases of the candidate tracks among the first `i` of `tracks`.
pub open spec fn seen_base(tracks: Seq<TrackInfo>, common_only: bool, i: int, b: Seq<char>) -> bool {
    exists|j: int| 0 <= j < i && sub_candidate(#[trigger] tracks[j], common_only) && base_lang(tracks[j].lang@) == b
}

/// `b` is one of the strings of `v`.
pub open spec fn has_string(v: Seq<String>, b: Seq<char>) -> bool {
    exists|k: int| 0 <= k < v.len() && #[trigger] v[k]@ == b
}

/// Subtitle tracks for the captions menu: `sub` tracks with an id and a
/// language, only the five common languages when `common_only`, one per
/// base language (`"fr-CA"` counts as `"fr"`), labelled with the
/// language's display name, sorted by label.
pub fn list_all_sub_tracks_filtered(tracks: &Vec<TrackInfo>, common_only: bool) -> (r: Vec<(i64, String)>)
    ensures
        pairs_view(r@) == sub_tracks(tracks@, common_only),
{
    let mut out: Vec<(i64, String)> = Vec::new();
    let mut seen: Vec<String> = Vec::new();
    let n = tracks.len();
    let mut i: usize = 0;
    while i < n
        invariant
            n == tracks@.len(),
            i <= n,
            pairs_view(out@) == sub_tracks_unsorted(tracks@.take(i as int), common_only),
            forall|b: Seq<char>| has_string(seen@, b) <==> seen_base(tracks@, common_only, i as int, b),
        decreases n - i,
    {
        let t = &tracks[i];
        let ghost pre = tracks@.take(i as int);
        let ghost pre1 = tracks@.take(i + 1);
        proof {
            assert(pre1.drop_last() =~= pre);
            assert(pre1.last() == tracks@[i as int]);
        }
        let ghost seen0 = seen@;
        if is_sub_candidate(t, common_only) {
            let base = base_lang_exec(t.lang.as_str());
            let mut found = false;
            let mut k: usize = 0;
            while k < seen.len()
                invariant
                    k <= seen@.len(),
                    found == exists|m: int| 0 <= m < k && #[trigger] seen@[m]@ == base@,
                decreases seen@.len() - k,
            {
                if str_eq(seen[k].as_str(), base) {
                    found = true;
                }
                k = k + 1;
            }
            proof {
                assert(found == has_string(seen@, base@));
                let dup = exists|j: int|
                    0 <= j < pre1.len() - 1 && sub_candidate(#[trigger] pre1[j], common_only)
                        && base_lang(pre1[j].lang@) == base_lang(t.lang@);
                if dup {
                    let j = choose|j: int|
                        0 <= j < pre1.len() - 1 && sub_candidate(#[trigger] pre1[j], common_only)
                            && base_lang(pre1[j].lang@) == base_lang(t.lang@);
                    assert(pre1[j] == tracks@[j]);
                    assert(seen_base(tracks@, common_only, i as int, base@));
                }
                if seen_base(tracks@, common_only, i as int, base@) {
                    let j = choose|j: int|
                        0 <= j < i && sub_candidate(#[trigger] tracks@[j], common_only) && base_lang(
                            tracks@[j].lang@,
                        ) == base@;
                    assert(pre1[j] == tracks@[j]);
                    assert(dup);
                }
                assert(found == dup);
            }
            if !found {
                let id = match t.id {
                    Some(x) => x,
                    None => 0,
                };
                let label = string_of(lang_display_name(base));
                let ghost before = out@;
                out.push((id, label));
                seen.push(string_of(base));
                proof {
                    assert(pairs_view(out@) =~= pairs_view(before).push((id, lang_name(base@))));
                    assert forall|b: Seq<char>| has_string(seen@, b) <==> seen_base(tracks@, common_only, i + 1, b) by {
                        if has_string(seen@, b) {
                            let k2 = choose|k2: int| 0 <= k2 < seen@.len() && #[trigger] seen@[k2]@ == b;
                            if k2 < seen0.len() {
                                assert(seen0[k2] == seen@[k2]);
                                assert(has_string(seen0, b));
                                assert(seen_base(tracks@, common_only, i as int, b));
                                let j = choose|j: int|
                                    0 <= j < i && sub_candidate(#[trigger] tracks@[j], common_only)
                                        && base_lang(tracks@[j].lang@) == b;
                                assert(seen_base(tracks@, common_only, i + 1, b));
                            } else {
                                assert(b == base@);
                                assert(sub_candidate(tracks@[i as int], common_only));
                                assert(seen_base(tracks@, common_only, i + 1, b));
                            }
                        }
                        if seen_base(tracks@, common_only, i + 1, b) {
                            let j = choose|j: int|
                                0 <= j < i + 1 && sub_candidate(#[trigger] tracks@[j], common_only) && base_lang(
                                    tracks@[j].lang@,
                                ) == b;
                            if j < i {
                                assert(seen_base(tracks@, common_only, i as int, b));
                                assert(has_string(seen0, b));
                                let k2 = choose|k2: int| 0 <= k2 < seen0.len() && #[trigger] seen0[k2]@ == b;
                                assert(seen@[k2] == seen0[k2]);
                                assert(has_string(seen@, b));
                            } else {
                                assert(seen@[seen@.len() - 1]@ == b);
                                assert(has_string(seen@, b));
                            }
                        }
                    }
                }
            } else {
                proof {
                    assert forall|b: Seq<char>| has_string(seen@, b) <==> seen_base(tracks@, common_only, i + 1, b) by {
                        if seen_base(tracks@, common_only, i + 1, b) {
                            let j = choose|j: int|
                                0 <= j < i + 1 && sub_candidate(#[trigger] tracks@[j], common_only) && base_lang(
                                    tracks@[j].lang@,
                                ) == b;
                            if j < i {
                                assert(seen_base(tracks@, common_only, i as int, b));
                            }
                        }
                        if seen_base(tracks@, common_only, i as int, b) {
                            let j = choose|j: int|
                                0 <= j < i && sub_candidate(#[trigger] tracks@[j], common_only) && base_lang(
                                    tracks@[j].lang@,
                                ) == b;
                            assert(seen_base(tracks@, common_only, i + 1, b));
                        }
                    }
                }
            }
        } else {
            proof {
                assert forall|b: Seq<char>| has_string(seen@, b) <==> seen_base(tracks@, common_only, i + 1, b) by {
                    if seen_base(tracks@, common_only, i + 1, b) {
                        let j = choose|j: int|
                            0 <= j < i + 1 && sub_candidate(#[trigger] tracks@[j], common_only) && base_lang(
                                tracks@[j].lang@,
                            ) == b;
                        assert(j < i);
                        assert(seen_base(tracks@, common_only, i as int, b));
                    }
                    if seen_base(tracks@, common_only, i as int, b) {
                        let j = choose|j: int|
                            0 <= j < i && sub_candidate(#[trigger] tracks@[j], common_only) && base_lang(
                                tracks@[j].lang@,
                            ) == b;
                        assert(seen_base(tracks@, common_only, i + 1, b));
                    }
                }
            }
        }
        i = i + 1;
    }
    assert(tracks@.take(n as int) =~= tracks@);
    sort_tracks_by_label(out)
}

/// Audio tracks for the audio menu, in track order: `audio` tracks with
/// an id, labelled with their language, else their title, else the
/// numbered fallback label.
pub open spec fn audio_tracks(tracks: Seq<TrackInfo>) -> Seq<(i64, Seq<char>)>
    decreases tracks.len(),
{
    if tracks.len() == 0 {
        Seq::empty()
    } else {
        let prev = audio_tracks(tracks.drop_last());
        let t = tracks.last();
        if t.kind@ == "audio"@ && t.id is Some {
            let label = if t.lang@.len() > 0 {
                t.lang@
            } else if t.title@.len() > 0 {
                t.title@
            } else {
                t.numbered_label@
            };
            prev.push((t.id->0, label))
        } else {
            prev
        }
    }
}

/// Enumerate the audio tracks (see `audio_tracks`).
pub fn list_audio_tracks(tracks: &Vec<TrackInfo>) -> (r: Vec<(i64, String)>)
    ensures
        pairs_view(r@) == audio_tracks(tracks@),
{
    let mut out: Vec<(i64, String)> = Vec::new();
    let n = tracks.len();
    let mut i: usize = 0;
    while i < n
        invariant
            n == tracks@.len(),
            i <= n,
            pairs_view(out@) == audio_tracks(tracks@.take(i as int)),
        decreases n - i,
    {
        let t = &tracks[i];
        proof {
            assert(tracks@.take(i + 1).drop_last() =~= tracks@.take(i as int));
            assert(tracks@.take(i + 1).last() == tracks@[i as int]);
        }
        if str_eq(t.kind.as_str(), "audio") {
            if let Some(id) = t.id {
                let label = if t.lang.unicode_len() > 0 {
                    t.lang.clone()
                } else if t.title.unicode_len() > 0 {
                    t.title.clone()
                } else {
                    t.numbered_label.clone()
                };
                let ghost before = out@;
                out.push((id, label));
                assert(pairs_view(out@) =~= pairs_view(before).push((id, label@)));
            }
        }
        i = i + 1;
    }
    assert(tracks@.take(n as int) =~= tracks@);
    out
}

/// Label of the entry with id `id` in `tracks` (the first one).
pub open spec fn label_of(tracks: Seq<(i64, Seq<char>)>, id: i64) -> Option<Seq<char>>
    decreases tracks.len(),
{
    if tracks.len() == 0 {
        None
    } else if tracks[0].0 == id {
        Some(tracks[0].1)
    } else {
        label_of(tracks.drop_first(), id)
    }
}

/// The label of track `id` in `tracks`, if listed.
pub fn find_label(tracks: &Vec<(i64, String)>, id: i64) -> (r: Option<String>)
    ensures
        r matches Some(l) ==> label_of(pairs_view(tracks@), id) == Some(l@),
        r is None ==> label_of(pairs_view(tracks@), id) is None,
{
    let n = tracks.len();
    let ghost all = pairs_view(tracks@);
    let mut i: usize = 0;
    assert(all.subrange(0, n as int) =~= all);
    while i < n
        invariant
            n == tracks@.len(),
            all == pairs_view(tracks@),
            i <= n,
            label_of(all, id) == label_of(all.subrange(i as int, n as int), id),
        decreases n - i,
    {
        let ghost rest = all.subrange(i as int, n as int);
        assert(rest[0] == (tracks@[i as int].0, tracks@[i as int].1@));
        if tracks[i].0 == id {
            return Some(tracks[i].1.clone());
        }
        assert(rest.drop_first() =~= all.subrange(i + 1, n as int));
        i = i + 1;
    }
    None
}

/// What a selection in a popup menu asks the player to do.
#[derive(Copy, Clone, PartialEq, Eq, Debug, Structural)]
pub enum MenuAction {
    /// Switch to quality `index`.
    SetQuality(usize),
    /// Set the subtitle track (`None` = off).
    SetSubTrack(Option<i64>),
    /// Toggle between the compact and the full captions list and reopen.
    ToggleMoreLangs,
    /// Switch to audio track `id`.
    SetAudioTrack(i64),
    /// The row matched nothing.
    Nothing,
}

/// The action of a selection, given the captions menu's tracks and the
/// audio menu's tracks: in the captions menu row 0 is "off", the rows
/// after it are the tracks, and the row after them is the more / fewer
/// languages toggle.
pub open spec fn menu_action_spec(ev: MenuEvent, subs: Seq<(i64, Seq<char>)>, audio: Seq<(i64, Seq<char>)>) -> MenuAction {
    match ev {
        MenuEvent::Selected { kind, index } => match kind {
            MenuKind::Quality => MenuAction::SetQuality(index),
            MenuKind::Captions => if index == 0 {
                MenuAction::SetSubTrack(None)
            } else if index == subs.len() + 1 {
                MenuAction::ToggleMoreLangs
            } else if index - 1 < subs.len() {
                MenuAction::SetSubTrack(Some(subs[index - 1].0))
            } else {
                MenuAction::Nothing
            },
            MenuKind::Audio => if index < audio.len() {
                MenuAction::SetAudioTrack(audio[index as int].0)
            } else {
                MenuAction::Nothing
            },
        },
    }
}

/// Rows of the quality menu.
pub open spec fn quality_rows() -> Seq<Seq<char>> {
    seq![quality_label(0), quality_label(1), quality_label(2), quality_label(3), quality_label(4)]
}

/// Rows and selected row of the quality menu.
pub fn quality_menu(quality_idx: usize) -> (r: (Vec<String>, Option<usize>))
    ensures
        strings_view(r.0@) == quality_rows(),
        r.1 == Some(quality_idx),
{
    let mut items: Vec<String> = Vec::new();
    let mut i: usize = 0;
    while i < QUALITY_COUNT
        invariant
            i <= QUALITY_COUNT,
            strings_view(items@) == quality_rows().take(i as int),
        decreases QUALITY_COUNT - i,
    {
        let ghost before = items@;
        let (label, _) = quality(i);
        items.push(crate::text::string_of(label));
        assert(strings_view(items@) =~= strings_view(before).push(label@));
        assert(quality_rows().take(i + 1) =~= quality_rows().take(i as int).push(quality_label(i as int)));
        i = i + 1;
    }
    assert(quality_rows().take(5) =~= quality_rows());
    (items, Some(quality_idx))
}

/// First index whose id is `id`.
pub open spec fn first_index_of_id(tracks: Seq<(i64, Seq<char>)>, id: Option<i64>) -> Option<int>
    decreases tracks.len(),
{
    if tracks.len() == 0 {
        None
    } else if id == Some(tracks[0].0) {
        Some(0)
    } else {
        match first_index_of_id(tracks.drop_first(), id) {
            Some(i) => Some(i + 1),
            None => None,
        }
    }
}

/// Rows and selected row of the audio menu: the track labels (or the
/// `none_label` row when there is no track), and the row of the current
/// track `current_aid`.
pub open spec fn audio_menu_spec(tracks: Seq<(i64, Seq<char>)>, current_aid: Option<i64>, none_label: Seq<char>) -> (Seq<Seq<char>>, Option<int>) {
    let rows = if tracks.len() == 0 {
        seq![none_label]
    } else {
        labels_of(tracks)
    };
    (rows, first_index_of_id(tracks, current_aid))
}

pub fn audio_menu(tracks: &Vec<(i64, String)>, current_aid: Option<i64>, none_label: &str) -> (r: (Vec<String>, Option<usize>))
    ensures
        ({
            let (rows, sel) = audio_menu_spec(pairs_view(tracks@), current_aid, none_label@);
            &&& strings_view(r.0@) == rows
            &&& (r.1 matches Some(i) ==> sel == Some(i as int))
            &&& (r.1 is None ==> sel is None)
        }),
{
    let ghost tv = pairs_view(tracks@);
    let n = tracks.len();
    let mut items: Vec<String> = Vec::new();
    let mut i: usize = 0;
    while i < n
        invariant
            n == tracks@.len(),
            tv == pairs_view(tracks@),
            i <= n,
            strings_view(items@) == labels_of(tv.take(i as int)),
        decreases n - i,
    {
        let ghost before = items@;
        let lab = tracks[i].1.clone();
        items.push(lab);
        proof {
            assert(tv.take(i + 1) =~= tv.take(i as int).push(tv[i as int]));
            assert(strings_view(items@) =~= strings_view(before).push(lab@));
            assert(labels_of(tv.take(i + 1)) =~= labels_of(tv.take(i as int)).push(lab@));
        }
        i = i + 1;
    }
    assert(tv.take(n as int) =~= tv);
    if n == 0 {
        items.push(crate::text::string_of(none_label));
        assert(strings_view(items@) =~= seq![none_label@]);
    }
    let ghost rows = audio_menu_spec(tv, current_aid, none_label@).0;
    assert(strings_view(items@) == rows);
    let mut sel: Option<usize> = None;
    let mut k: usize = 0;
    assert(tv.subrange(0, n as int) =~= tv);
    while k < n
        invariant
            strings_view(items@) == rows,
            rows == audio_menu_spec(tv, current_aid, none_label@).0,
            sel is None,
            n == tracks@.len(),
            tv == pairs_view(tracks@),
            k <= n,
            first_index_of_id(tv, current_aid) == match first_index_of_id(tv.subrange(k as int, n as int), current_aid) {
                Some(j) => Some(j + k),
                None => None,
            },
        decreases n - k,
    {
        let ghost rest = tv.subrange(k as int, n as int);
        assert(rest[0] == tv[k as int]);
        assert(tv[k as int].0 == tracks@[k as int].0);
        if current_aid == Some(tracks[k].0) {
            assert(first_index_of_id(rest, current_aid) == Some(0int));
            sel = Some(k);
            return (items, sel);
        }
        assert(rest.drop_first() =~= tv.subrange(k + 1, n as int));
        k = k + 1;
    }
    (items, sel)
}

pub fn menu_action(ev: MenuEvent, subs: &Vec<(i64, String)>, audio: &Vec<(i64, String)>) -> (r: MenuAction)
    ensures
        r == menu_action_spec(ev, pairs_view(subs@), pairs_view(audio@)),
{
    match ev {
        MenuEvent::Selected { kind, index } => match kind {
            MenuKind::Quality => MenuAction::SetQuality(index),
            MenuKind::Captions => {
                if index == 0 {
                    MenuAction::SetSubTrack(None)
                } else if index - 1 == subs.len() {
                    MenuAction::ToggleMoreLangs
                } else if index - 1 < subs.len() {
                    MenuAction::SetSubTrack(Some(subs[index - 1].0))
                } else {
                    MenuAction::Nothing
                }
            },
            MenuKind::Audio => {
                if index < audio.len() {
                    MenuAction::SetAudioTrack(audio[index].0)
                } else {
                    MenuAction::Nothing
                }
            },
        },
    }
}

/// Rows and selected row of the captions menu: "off" first, then the
/// tracks; the selection is "off" when captions are off, else the row of
/// the current track (`current_sid`); a last row offers more languages
/// in the compact list when the full list is longer
/// (`all_count` tracks), or fewer languages in the full list.
pub open spec fn captions_menu_spec(
    tracks: Seq<(i64, Seq<char>)>,
    captions_on: bool,
    current_sid: Option<i64>,
    show_all: bool,
    all_count: nat,
    off_label: Seq<char>,
    more_label: Seq<char>,
    fewer_label: Seq<char>,
) -> (Seq<Seq<char>>, Option<usize>) {
    let rows = seq![off_label] + labels_of(tracks);
    let rows = if !show_all {
        if all_count > tracks.len() {
            rows.push(more_label)
        } else {
            rows
        }
    } else {
        rows.push(fewer_label)
    };
    let sel = if !captions_on {
        Some(0usize)
    } else {
        match last_index_of_id(tracks, current_sid) {
            Some(i) => Some((i + 1) as usize),
            None => None,
        }
    };
    (rows, sel)
}

/// Last index whose id is `id`.
pub open spec fn last_index_of_id(tracks: Seq<(i64, Seq<char>)>, id: Option<i64>) -> Option<int>
    decreases tracks.len(),
{
    if tracks.len() == 0 {
        None
    } else if id == Some(tracks.last().0) {
        Some(tracks.len() - 1)
    } else {
        last_index_of_id(tracks.drop_last(), id)
    }
}

pub fn captions_menu(
    tracks: &Vec<(i64, String)>,
    captions_on: bool,
    current_sid: Option<i64>,
    show_all: bool,
    all_count: usize,
    off_label: &str,
    more_label: &str,
    fewer_label: &str,
) -> (r: (Vec<String>, Option<usize>))
    requires
        tracks@.len() < usize::MAX,
    ensures
        ({
            let (rows, sel) = captions_menu_spec(
                pairs_view(tracks@),
                captions_on,
                current_sid,
                show_all,
                all_count as nat,
                off_label@,
                more_label@,
                fewer_label@,
            );
            &&& strings_view(r.0@) == rows
            &&& r.1 == sel
        }),
{
    let ghost tv = pairs_view(tracks@);
    let mut items: Vec<String> = Vec::new();
    items.push(string_of(off_label));
    let mut selected: Option<usize> = if captions_on {
        None
    } else {
        Some(0)
    };
    let n = tracks.len();
    let mut i: usize = 0;
    while i < n
        invariant
            n == tracks@.len(),
            n < usize::MAX,
            tv == pairs_view(tracks@),
            i <= n,
            strings_view(items@) == seq![off_label@] + labels_of(tv.take(i as int)),
            selected == (if !captions_on {
                Some(0usize)
            } else {
                match last_index_of_id(tv.take(i as int), current_sid) {
                    Some(j) => Some((j + 1) as usize),
                    None => None,
                }
            }),
        decreases n - i,
    {
        let ghost before = items@;
        let lab = tracks[i].1.clone();
        items.push(lab);
        proof {
            assert(tv.take(i + 1).drop_last() =~= tv.take(i as int));
            assert(tv.take(i + 1).last() == tv[i as int]);
            assert(tv[i as int].1 == lab@);
            assert(strings_view(items@) =~= strings_view(before).push(lab@));
            assert(labels_of(tv.take(i + 1)) =~= labels_of(tv.take(i as int)).push(lab@));
        }
        if captions_on && current_sid == Some(tracks[i].0) {
            selected = Some(i + 1);
        }
        i = i + 1;
        assert(strings_view(items@) =~= seq![off_label@] + labels_of(tv.take(i as int)));
    }
    assert(tv.take(n as int) =~= tv);
    if !show_all {
        if all_count > n {
            items.push(string_of(more_label));
        }
    } else {
        items.push(string_of(fewer_label));
    }
    proof {
        let rows = seq![off_label@] + labels_of(tv);
        if !show_all {
            if all_count > n {
                assert(strings_view(items@) =~= rows.push(more_label@));
            }
        } else {
            assert(strings_view(items@) =~= rows.push(fewer_label@));
        }
    }
    (items, selected)
}

/// `lex_lt` is asymmetric.
pub proof fn lemma_lex_asym(a: Seq<u8>, b: Seq<u8>)
    ensures
        lex_lt(a, b) ==> !lex_lt(b, a),
    decreases a.len(),
{
    if a.len() > 0 && b.len() > 0 && a[0] == b[0] {
        lemma_lex_asym(a.drop_first(), b.drop_first());
    }
}

/// `lex_lt` is transitive.
pub proof fn lemma_lex_trans(a: Seq<u8>, b: Seq<u8>, c: Seq<u8>)
    requires
        lex_lt(a, b),
        lex_lt(b, c),
    ensures
        lex_lt(a, c),
    decreases a.len(),
{
    if a.len() > 0 && a[0] == b[0] && b[0] == c[0] {
        lemma_lex_trans(a.drop_first(), b.drop_first(), c.drop_first());
    }
}

/// Where `insert_pos` puts `x`: after every element not ordered after
/// it, before the first one ordered after it.
proof fn lemma_insert_pos(t: Seq<(i64, Seq<char>)>, x: (i64, Seq<char>), i: int)
    requires
        0 <= i <= t.len(),
    ensures
        i <= insert_pos(t, x, i) <= t.len(),
        forall|k: int| i <= k < insert_pos(t, x, i) ==> !label_lt(x, #[trigger] t[k]),
        insert_pos(t, x, i) < t.len() ==> label_lt(x, t[insert_pos(t, x, i)]),
    decreases t.len() - i,
{
    if i < t.len() && !label_lt(x, t[i]) {
        lemma_insert_pos(t, x, i + 1);
    }
}

/// No element of `t` is ordered before an earlier one.
pub open spec fn labels_sorted(t: Seq<(i64, Seq<char>)>) -> bool {
    forall|i: int, j: int| 0 <= i < j < t.len() ==> !label_lt(#[trigger] t[j], #[trigger] t[i])
}

/// The label sort orders the tracks by label and keeps every track: the
/// result is sorted and a permutation of the input.
pub proof fn law_sort_by_label(s: Seq<(i64, Seq<char>)>)
    ensures
        labels_sorted(sort_by_label(s)),
        sort_by_label(s).to_multiset() == s.to_multiset(),
    decreases s.len(),
{
    broadcast use vstd::seq_lib::to_multiset_build, vstd::seq_lib::to_multiset_insert;
    if s.len() > 0 {
        let t = sort_by_label(s.drop_last());
        let x = s.last();
        law_sort_by_label(s.drop_last());
        lemma_insert_pos(t, x, 0);
        let p = insert_pos(t, x, 0);
        let u = t.insert(p, x);
        assert(s.drop_last().push(x) =~= s);
        assert forall|i: int, j: int| 0 <= i < j < u.len() implies !label_lt(#[trigger] u[j], #[trigger] u[i]) by {
            if j < p {
                assert(u[i] == t[i] && u[j] == t[j]);
            } else if j == p {
                assert(u[i] == t[i] && u[j] == x);
                lemma_lex_asym(encode_utf8(t[i].1), encode_utf8(x.1));
            } else if i < p {
                assert(u[i] == t[i] && u[j] == t[j - 1]);
            } else if i == p {
                assert(u[i] == x && u[j] == t[j - 1]);
                assert(label_lt(x, t[p]));
                if j - 1 > p {
                    assert(!label_lt(t[j - 1], t[p]));
                    if label_lt(t[j - 1], x) {
                        lemma_lex_trans(encode_utf8(t[j - 1].1), encode_utf8(x.1), encode_utf8(t[p].1));
                    }
                } else {
                    lemma_lex_asym(encode_utf8(x.1), encode_utf8(t[p].1));
                }
            } else {
                assert(u[i] == t[i - 1] && u[j] == t[j - 1]);
            }
        }
    }
}

/// The tracks whose label encodes to `k`.
pub open spec fn label_is(k: Seq<u8>) -> spec_fn((i64, Seq<char>)) -> bool {
    |e: (i64, Seq<char>)| encode_utf8(e.1) == k
}

/// The label sort is stable: the tracks of any one label come out in
/// the order they came in.
pub proof fn law_sort_by_label_stable(s: Seq<(i64, Seq<char>)>, k: Seq<u8>)
    ensures
        sort_by_label(s).filter(label_is(k)) == s.filter(label_is(k)),
    decreases s.len(),
{
    reveal(Seq::filter);
    if s.len() > 0 {
        let pred = label_is(k);
        let t = sort_by_label(s.drop_last());
        let x = s.last();
        law_sort_by_label_stable(s.drop_last(), k);
        law_sort_by_label(s.drop_last());
        lemma_insert_pos(t, x, 0);
        let p = insert_pos(t, x, 0);
        let a = t.subrange(0, p);
        let b = t.subrange(p, t.len() as int);
        assert(t =~= a + b);
        assert(t.insert(p, x) =~= a + seq![x] + b);
        Seq::filter_distributes_over_add(a, b, pred);
        Seq::filter_distributes_over_add(a + seq![x], b, pred);
        Seq::filter_distributes_over_add(a, seq![x], pred);
        assert(seq![x].drop_last() =~= Seq::<(i64, Seq<char>)>::empty());
        assert(Seq::<(i64, Seq<char>)>::empty().filter(pred) =~= Seq::<(i64, Seq<char>)>::empty());
        if encode_utf8(x.1) == k {
            assert forall|j: int| 0 <= j < b.len() implies !pred(#[trigger] b[j]) by {
                assert(b[j] == t[p + j]);
                lemma_lex_asym(encode_utf8(x.1), encode_utf8(t[p].1));
                if j > 0 && pred(b[j]) {
                    assert(!label_lt(t[p + j], t[p]));
                }
            }
            b.lemma_all_neg_filter_empty(pred);
            assert(b.filter(pred) =~= Seq::<(i64, Seq<char>)>::empty());
            assert(seq![x].filter(pred) =~= seq![x]);
        } else {
            assert(seq![x].filter(pred) =~= Seq::<(i64, Seq<char>)>::empty());
        }
        assert(s.drop_last().push(x) =~= s);
    }
}

/// Picking a row of the audio menu selects the track of that row: row
/// `i` gives its track's id, so rows with different ids give different
/// actions; a row past the list does nothing.
pub proof fn law_audio_row_selects_its_track(
    subs: Seq<(i64, Seq<char>)>,
    audio: Seq<(i64, Seq<char>)>,
    i: usize,
    j: usize,
)
    ensures
        i < audio.len() ==> menu_action_spec(MenuEvent::Selected { kind: MenuKind::Audio, index: i }, subs, audio)
            == MenuAction::SetAudioTrack(audio[i as int].0),
        (i < audio.len() && j < audio.len() && audio[i as int].0 != audio[j as int].0) ==> menu_action_spec(
            MenuEvent::Selected { kind: MenuKind::Audio, index: i },
            subs,
            audio,
        ) != menu_action_spec(MenuEvent::Selected { kind: MenuKind::Audio, index: j }, subs, audio),
        i >= audio.len() ==> menu_action_spec(MenuEvent::Selected { kind: MenuKind::Audio, index: i }, subs, audio)
            == MenuAction::Nothing,
{
}

/// Picking a row of the captions menu: row 0 turns captions off, row
/// `i + 1` selects the `i`-th track, so rows with different ids give
/// different actions; the row after the tracks toggles the language
/// list.
pub proof fn law_caption_row_selects_its_track(
    subs: Seq<(i64, Seq<char>)>,
    audio: Seq<(i64, Seq<char>)>,
    i: usize,
    j: usize,
)
    requires
        i < usize::MAX,
        j < usize::MAX,
    ensures
        menu_action_spec(MenuEvent::Selected { kind: MenuKind::Captions, index: 0 }, subs, audio)
            == MenuAction::SetSubTrack(None),
        i < subs.len() ==> menu_action_spec(
            MenuEvent::Selected { kind: MenuKind::Captions, index: (i + 1) as usize },
            subs,
            audio,
        ) == MenuAction::SetSubTrack(Some(subs[i as int].0)),
        (i < subs.len() && j < subs.len() && subs[i as int].0 != subs[j as int].0) ==> menu_action_spec(
            MenuEvent::Selected { kind: MenuKind::Captions, index: (i + 1) as usize },
            subs,
            audio,
        ) != menu_action_spec(MenuEvent::Selected { kind: MenuKind::Captions, index: (j + 1) as usize }, subs, audio),
        i == subs.len() ==> menu_action_spec(
            MenuEvent::Selected { kind: MenuKind::Captions, index: (i + 1) as usize },
            subs,
            audio,
        ) == MenuAction::ToggleMoreLangs,
{
}

} // verus!
