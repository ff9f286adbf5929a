//! The icon cache: rasterised, recoloured icons kept as PNG bytes, one
//! per (icon, size, colour), and the PNG encoding of a square RGBA
//! image through the `png` crate.

use vstd::prelude::*;

verus! {

/// The PNG file that the `png` crate's encoder writes for a `size × size`
/// RGBA image with 8-bit channels and default options.
pub uninterp spec fn encoded_png(rgba: Seq<u8>, size: u32) -> Seq<u8>;

/// `png::Encoder` on a `Vec`, colour type RGBA, depth 8: `write_header`,
/// `write_image_data`, `finish`. With a non-zero size and exactly
/// `size² × 4` bytes, none of these fails (the writer is a `Vec`); the
/// bytes written are named by `encoded_png`.
#[verifier::external_body]
fn png_rgba(rgba: &[u8], size: u32) -> (r: Option<Vec<u8>>)
    requires
        0 < size <= 32768,
        rgba@.len() == size as int * size as int * 4,
    ensures
        r is Some,
        r is Some ==> r->0@ == encoded_png(rgba@, size),
{
    let mut out = Vec::new();
    let mut encoder = png::Encoder::new(&mut out, size, size);
    encoder.set_color(png::ColorType::Rgba);
    encoder.set_depth(png::BitDepth::Eight);
    let mut writer = encoder.write_header().ok()?;
    writer.write_image_data(rgba).ok()?;
    writer.finish().ok()?;
    Some(out)
}

/// Encode a raw `size × size` RGBA buffer as PNG; `None` for an empty
/// size or a buffer of another length.
pub fn encode_png(rgba: &[u8], size: u32) -> (r: Option<Vec<u8>>)
    requires
        size <= 32768,
    ensures
        (size > 0 && rgba@.len() == size as int * size as int * 4) ==> (r matches Some(v) && v@ == encoded_png(
            rgba@,
            size,
        )),
        !(size > 0 && rgba@.len() == size as int * size as int * 4) ==> r is None,
{
    if size == 0 {
        return None;
    }
    assert(size as int * size as int * 4 <= 4 * 32768 * 32768) by (nonlinear_arith)
        requires
            size <= 32768,
    ;
    let need: u64 = (size as u64) * (size as u64) * 4;
    if rgba.len() as u64 != need {
        return None;
    }
    png_rgba(rgba, size)
}

/// The cached PNG of `key` in `entries` (the first entry of that key).
pub open spec fn icon_lookup(entries: Seq<((u32, u32, u32), Vec<u8>)>, key: (u32, u32, u32)) -> Option<Seq<u8>>
    decreases entries.len(),
{
    if entries.len() == 0 {
        None
    } else if entries[0].0 == key {
        Some(entries[0].1@)
    } else {
        icon_lookup(entries.drop_first(), key)
    }
}

/// Recoloured icons as PNG bytes, keyed by `(icon, size, colour)`.
pub struct IconCache {
    pub entries: Vec<((u32, u32, u32), Vec<u8>)>,
}

impl IconCache {
    pub fn new() -> (r: Self)
        ensures
            r.entries@.len() == 0,
    {
        IconCache { entries: Vec::new() }
    }

    /// The cached PNG of `key`, if any.
    pub fn get(&self, key: (u32, u32, u32)) -> (r: Option<Vec<u8>>)
        ensures
            match r {
                Some(v) => icon_lookup(self.entries@, key) == Some(v@),
                None => icon_lookup(self.entries@, key) is None,
            },
    {
        let n = self.entries.len();
        let mut i: usize = 0;
        assert(self.entries@.skip(0) =~= self.entries@);
        while i < n
            invariant
                n == self.entries@.len(),
                i <= n,
                icon_lookup(self.entries@, key) == icon_lookup(self.entries@.skip(i as int), key),
            decreases n - i,
        {
            let e = &self.entries[i];
            assert(self.entries@.skip(i as int)[0] == self.entries@[i as int]);
            assert(self.entries@.skip(i as int).drop_first() =~= self.entries@.skip(i + 1));
            if e.0.0 == key.0 && e.0.1 == key.1 && e.0.2 == key.2 {
                return Some(e.1.clone());
            }
            i = i + 1;
        }
        assert(self.entries@.skip(n as int).len() == 0);
        None
    }

    /// Cache `png` as the PNG of `key`: a later `get` of `key` gives it,
    /// and every other key keeps its entry.
    pub fn insert(&mut self, key: (u32, u32, u32), png: Vec<u8>)
        ensures
            icon_lookup(final(self).entries@, key) == Some(png@),
            forall|k: (u32, u32, u32)| k != key ==> icon_lookup(final(self).entries@, k) == icon_lookup(old(self).entries@, k),
    {
        let ghost old_e = self.entries@;
        self.entries.insert(0, (key, png));
        proof {
            assert(self.entries@.drop_first() =~= old_e);
        }
    }
}

} // verus!
