//! The GIF tab of the chat picker: what is fetched (trending GIFs, or a
//! search), what the grid shows, and the throttling of preview
//! downloads (at most six at once, each URL once). Downloads and decoded
//! images belong to the caller.

use vstd::prelude::*;
use crate::text::{str_contains, str_contains_spec, str_eq};
use crate::chat::{trim, text_to_send};

verus! {

/// Preview downloads allowed at once.
pub const MAX_GIF_CONCURRENT: usize = 6;

/// A GIF of a search result.
pub struct GifResult {
    pub gif_url: String,
    pub preview_url: String,
}

/// A GIF tile was clicked: its GIF URL.
pub struct GifSelected(pub String);

/// What to fetch.
pub enum GifFetch {
    Trending,
    Search(String),
}

/// What the grid shows.
#[derive(Copy, Clone, PartialEq, Eq, Debug, Structural)]
pub enum GifBody {
    Loading,
    NoResults,
    Grid,
}

/// How a downloaded image is decoded.
#[derive(Copy, Clone, PartialEq, Eq, Debug, Structural)]
pub enum ImageKind {
    Gif,
    Png,
    Jpeg,
}

/// What to do for the preview of a tile.
#[derive(Copy, Clone, PartialEq, Eq, Debug, Structural)]
pub enum PreviewStep {
    /// The decoded preview is cached: show it.
    Cached,
    /// Not yet available (being fetched, or too many fetches running).
    Wait,
    /// Start fetching it now.
    Start,
}

/// The GIF picker's state.
pub struct GifPicker {
    pub gifs: Vec<GifResult>,
    pub search_text: String,
    pub loading: bool,
    /// Preview URLs being fetched.
    pub preview_pending: Vec<String>,
}

/// `url` is one of `v`.
pub open spec fn listed(v: Seq<String>, url: Seq<char>) -> bool {
    exists|i: int| 0 <= i < v.len() && #[trigger] v[i]@ == url
}

/// No URL is pending twice.
pub open spec fn no_repeats(v: Seq<String>) -> bool {
    forall|i: int, j: int| 0 <= i < j < v.len() ==> #[trigger] v[i]@ != #[trigger] v[j]@
}

/// The decoding of a downloaded preview, from its URL.
pub open spec fn image_kind_of(url: Seq<char>) -> ImageKind {
    if str_contains_spec(url, ".gif"@) {
        ImageKind::Gif
    } else if str_contains_spec(url, ".png"@) {
        ImageKind::Png
    } else {
        ImageKind::Jpeg
    }
}

pub fn image_kind(url: &str) -> (r: ImageKind)
    ensures
        r == image_kind_of(url@),
{
    if str_contains(url, ".gif") {
        ImageKind::Gif
    } else if str_contains(url, ".png") {
        ImageKind::Png
    } else {
        ImageKind::Jpeg
    }
}

pub(crate) fn position_of(v: &Vec<String>, url: &str) -> (r: Option<usize>)
    ensures
        r matches Some(i) ==> i < v@.len() && v@[i as int]@ == url@,
        r is None ==> !listed(v@, url@),
{
    let n = v.len();
    let mut i: usize = 0;
    while i < n
        invariant
            n == v@.len(),
            i <= n,
            forall|k: int| 0 <= k < i ==> v@[k]@ != url@,
        decreases n - i,
    {
        if str_eq(v[i].as_str(), url) {
            return Some(i);
        }
        i = i + 1;
    }
    None
}

/// Remove `url` from the list `v` of URLs without repeats.
pub(crate) fn remove_listed(v: &mut Vec<String>, url: &str)
    requires
        no_repeats(old(v)@),
    ensures
        no_repeats(final(v)@),
        forall|u: Seq<char>| listed(final(v)@, u) <==> (listed(old(v)@, u) && u != url@),
{
    let ghost old_v = v@;
    if let Some(i) = position_of(v, url) {
        v.remove(i);
        proof {
            let w = v@;
            assert(w =~= old_v.remove(i as int));
            assert forall|u: Seq<char>| listed(w, u) <==> (listed(old_v, u) && u != url@) by {
                if listed(w, u) {
                    let k = choose|k: int| 0 <= k < w.len() && #[trigger] w[k]@ == u;
                    if k < i {
                        assert(old_v[k] == w[k]);
                        assert(old_v[k]@ != old_v[i as int]@);
                    } else {
                        assert(old_v[k + 1] == w[k]);
                        assert(old_v[i as int]@ != old_v[k + 1]@);
                    }
                }
                if listed(old_v, u) && u != url@ {
                    let k = choose|k: int| 0 <= k < old_v.len() && #[trigger] old_v[k]@ == u;
                    if k < i {
                        assert(w[k] == old_v[k]);
                    } else {
                        assert(k != i);
                        assert(w[k - 1] == old_v[k]);
                    }
                }
            }
            assert forall|a: int, b: int| 0 <= a < b < w.len() implies #[trigger] w[a]@ != #[trigger] w[b]@ by {
                let oa = if a < i { a } else { a + 1 };
                let ob = if b < i { b } else { b + 1 };
                assert(w[a] == old_v[oa] && w[b] == old_v[ob]);
            }
        }
    }
}

impl GifPicker {
    /// A picker fetching the trending GIFs.
    pub fn new() -> (r: (Self, GifFetch))
        ensures
            r.0.gifs@.len() == 0,
            r.0.search_text@.len() == 0,
            r.0.loading,
            r.0.preview_pending@.len() == 0,
            no_repeats(r.0.preview_pending@),
            r.1 is Trending,
    {
        (GifPicker { gifs: Vec::new(), search_text: String::new(), loading: true, preview_pending: Vec::new() }, GifFetch::Trending)
    }

    /// The search field changed to `q`: search it, or show the trending
    /// GIFs for a blank query.
    pub fn set_search(&mut self, q: String) -> (r: GifFetch)
        ensures
            final(self).search_text == q,
            final(self).loading,
            trim(q@).len() == 0 ==> r is Trending,
            trim(q@).len() > 0 ==> (r matches GifFetch::Search(s) && s@ == q@),
            final(self).gifs == old(self).gifs,
            final(self).preview_pending == old(self).preview_pending,
    {
        let blank = text_to_send(q.as_str()).is_none();
        let r = if blank {
            GifFetch::Trending
        } else {
            GifFetch::Search(q.clone())
        };
        self.search_text = q;
        self.loading = true;
        r
    }

    /// A fetch answered (`None`: it failed, the grid empties).
    pub fn fetch_finished(&mut self, result: Option<Vec<GifResult>>)
        ensures
            !final(self).loading,
            result matches Some(g) ==> final(self).gifs == g,
            result is None ==> final(self).gifs@.len() == 0,
            final(self).preview_pending == old(self).preview_pending,
    {
        self.gifs = match result {
            Some(g) => g,
            None => Vec::new(),
        };
        self.loading = false;
    }

    /// A fetch gave no answer in time.
    pub fn fetch_timed_out(&mut self)
        ensures
            !final(self).loading,
            final(self).gifs == old(self).gifs,
    {
        self.loading = false;
    }

    /// Tile `i` of the grid was clicked.
    pub fn select_gif(&self, i: usize) -> (r: GifSelected)
        requires
            i < self.gifs@.len(),
        ensures
            r.0@ == self.gifs@[i as int].gif_url@,
    {
        GifSelected(self.gifs[i].gif_url.clone())
    }

    /// What the grid shows.
    pub fn body(&self) -> (r: GifBody)
        ensures
            r == (if self.loading {
                GifBody::Loading
            } else if self.gifs@.len() == 0 {
                GifBody::NoResults
            } else {
                GifBody::Grid
            }),
    {
        if self.loading {
            GifBody::Loading
        } else if self.gifs.len() == 0 {
            GifBody::NoResults
        } else {
            GifBody::Grid
        }
    }

    /// The preview `url` of a tile is wanted: shown if `cached`; else
    /// fetched unless already being fetched or `*in_flight` fetches are
    /// running (six at most). Starting a fetch counts it.
    pub fn request_preview(&mut self, url: &str, cached: bool, in_flight: &mut usize) -> (r: PreviewStep)
        ensures
            r == (if cached {
                PreviewStep::Cached
            } else if listed(old(self).preview_pending@, url@) || *old(in_flight) >= MAX_GIF_CONCURRENT {
                PreviewStep::Wait
            } else {
                PreviewStep::Start
            }),
            r == PreviewStep::Start ==> *final(in_flight) == *old(in_flight) + 1 && final(self).preview_pending@
                == old(self).preview_pending@.push(final(self).preview_pending@.last()) && final(self).preview_pending@.last()@
                == url@,
            r != PreviewStep::Start ==> *final(in_flight) == *old(in_flight) && final(self).preview_pending
                == old(self).preview_pending,
            no_repeats(old(self).preview_pending@) ==> no_repeats(final(self).preview_pending@),
            final(self).gifs == old(self).gifs,
            final(self).loading == old(self).loading,
    {
        if cached {
            return PreviewStep::Cached;
        }
        if position_of(&self.preview_pending, url).is_some() || *in_flight >= MAX_GIF_CONCURRENT {
            return PreviewStep::Wait;
        }
        *in_flight = *in_flight + 1;
        self.preview_pending.push(crate::text::string_of(url));
        PreviewStep::Start
    }

    /// The fetch of preview `url` ended (downloaded or timed out): it is
    /// no longer pending and no longer counted.
    pub fn preview_done(&mut self, url: &str, in_flight: &mut usize)
        requires
            no_repeats(old(self).preview_pending@),
        ensures
            *final(in_flight) == (if *old(in_flight) > 0 { *old(in_flight) - 1 } else { 0 }),
            no_repeats(final(self).preview_pending@),
            forall|u: Seq<char>| listed(final(self).preview_pending@, u) <==> (listed(old(self).preview_pending@, u)
                && u != url@),
            final(self).gifs == old(self).gifs,
            final(self).loading == old(self).loading,
    {
        if *in_flight > 0 {
            *in_flight = *in_flight - 1;
        }
        remove_listed(&mut self.preview_pending, url);
    }
}

} // verus!
