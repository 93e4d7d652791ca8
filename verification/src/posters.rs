//! Which posters the wall shows and which are being fetched, and what to do
//! for a movie whose poster is wanted: nothing, load the cached file, or
//! fetch the thumbnail once.
use vstd::prelude::*;

use crate::models::MediaItem;
use crate::plex::among;

verus! {

/// The rating keys whose posters are shown, and those whose thumbnails are
/// being fetched.
pub struct PosterState {
    shown: Vec<String>,
    pending: Vec<String>,
}

/// What to do for a movie whose poster is wanted.
#[derive(Debug)]
pub enum PosterStep {
    /// The poster is shown or on its way, or the movie has no thumbnail.
    Nothing,
    /// Load the poster from its cached file.
    LoadCached,
    /// Download the thumbnail `thumb_path` of `rating_key` into the cache.
    Fetch { rating_key: String, thumb_path: String },
}

/// What `image::load_from_memory` followed by `to_rgba8` makes of a poster
/// file's bytes: its width, height and pixels (red, green, blue and alpha
/// bytes, row by row), or `None` where the bytes are no image the crate
/// decodes.
pub uninterp spec fn decoded_rgba(bytes: Seq<u8>) -> Option<(u32, u32, Seq<u8>)>;

/// Trusted: calls `image::load_from_memory`, then `to_rgba8`, then takes the
/// width, height and raw pixels of the result; an error gives `None`. The
/// result depends on the bytes alone. `to_rgba8` writes into a new buffer
/// of `4 * width * height` bytes, which `into_raw` hands out.
#[verifier::external_body]
fn decode_rgba(bytes: &[u8]) -> (r: Option<(u32, u32, Vec<u8>)>)
    ensures
        decoded_rgba(bytes@) == (match r {
            Some(t) => Some((t.0, t.1, t.2@)),
            None => None,
        }),
        r matches Some(t) ==> t.2@.len() == 4 * t.0 * t.1,
{
    let image = image::load_from_memory(bytes).ok()?.to_rgba8();
    Some((image.width(), image.height(), image.into_raw()))
}

/// A decoded poster: its size in pixels and four bytes (red, green, blue,
/// alpha) per pixel, row by row.
pub struct PosterPixels {
    pub width: u32,
    pub height: u32,
    pub rgba: Vec<u8>,
}

/// The pixels of the poster file whose bytes are `bytes`, or `None` where
/// they are no image that can be decoded.
pub fn decode_poster(bytes: &[u8]) -> (r: Option<PosterPixels>)
    ensures
        decoded_rgba(bytes@) == (match r {
            Some(p) => Some((p.width, p.height, p.rgba@)),
            None => None,
        }),
        r matches Some(p) ==> p.rgba@.len() == 4 * p.width * p.height,
{
    match decode_rgba(bytes) {
        Some((width, height, rgba)) => Some(PosterPixels { width, height, rgba }),
        None => None,
    }
}

/// The texts of a list, as a set.
pub open spec fn key_set(keys: Seq<String>) -> Set<Seq<char>> {
    Set::new(|k: Seq<char>| among(keys, k))
}

/// `keys` without the texts equal to `key`.
fn without(keys: &Vec<String>, key: &str) -> (r: Vec<String>)
    ensures
        key_set(r@) == key_set(keys@).remove(key@),
{
    let mut r: Vec<String> = Vec::new();
    let mut i: usize = 0;
    while i < keys.len()
        invariant
            i <= keys@.len(),
            forall|k: Seq<char>| among(r@, k) <==> (among(keys@.take(i as int), k) && k != key@),
        decreases keys@.len() - i,
    {
        let ghost before = r@;
        let keep = !crate::text::same_text(keys[i].as_str(), key);
        if keep {
            r.push(keys[i].clone());
        }
        assert forall|k: Seq<char>|
            among(r@, k) <==> (among(keys@.take(i + 1), k) && k != key@) by {
            let t = keys@.take(i + 1);
            if among(r@, k) {
                let w = choose|w: int| 0 <= w < r@.len() && r@[w]@ == k;
                if w < before.len() {
                    assert(r@[w] == before[w]);
                    assert(among(before, k));
                    assert(among(keys@.take(i as int), k));
                    let v = choose|v: int|
                        0 <= v < keys@.take(i as int).len() && keys@.take(i as int)[v]@ == k;
                    assert(t[v] == keys@.take(i as int)[v]);
                } else {
                    assert(t[i as int] == keys@[i as int]);
                }
            }
            if among(t, k) && k != key@ {
                let v = choose|v: int| 0 <= v < t.len() && t[v]@ == k;
                if v < i {
                    assert(keys@.take(i as int)[v] == t[v]);
                    assert(among(keys@.take(i as int), k));
                    assert(among(before, k));
                    let w = choose|w: int| 0 <= w < before.len() && before[w]@ == k;
                    assert(r@[w] == before[w]);
                } else {
                    assert(r@[r@.len() - 1] == keys@[i as int]);
                }
            }
        }
        i += 1;
    }
    assert(keys@.take(keys@.len() as int) =~= keys@);
    assert(key_set(r@) =~= key_set(keys@).remove(key@));
    r
}

/// `keys` with `key` added where it is not among them yet.
fn with(keys: &mut Vec<String>, key: &str)
    ensures
        key_set(final(keys)@) == key_set(old(keys)@).insert(key@),
{
    let mut i: usize = 0;
    while i < keys.len()
        invariant
            i <= keys@.len(),
            forall|j: int| 0 <= j < i ==> keys@[j]@ != key@,
        decreases keys@.len() - i,
    {
        if crate::text::same_text(keys[i].as_str(), key) {
            assert(key_set(keys@).insert(key@) =~= key_set(keys@));
            return;
        }
        i += 1;
    }
    let ghost before = keys@;
    keys.push(String::from_str(key));
    assert forall|k: Seq<char>| #[trigger] key_set(keys@).contains(k) <==> key_set(before).insert(key@).contains(k) by {
        if among(keys@, k) {
            let w = choose|w: int| 0 <= w < keys@.len() && keys@[w]@ == k;
            if w < before.len() {
                assert(keys@[w] == before[w]);
            }
        }
        if among(before, k) {
            let w = choose|w: int| 0 <= w < before.len() && before[w]@ == k;
            assert(keys@[w] == before[w]);
        }
        if k == key@ {
            assert(keys@[keys@.len() - 1]@ == key@);
        }
    }
    assert(key_set(keys@) =~= key_set(before).insert(key@));
}

/// Decides whether `key` is among `keys`.
fn holds(keys: &Vec<String>, key: &str) -> (b: bool)
    ensures
        b == key_set(keys@).contains(key@),
{
    let mut i: usize = 0;
    while i < keys.len()
        invariant
            i <= keys@.len(),
            forall|j: int| 0 <= j < i ==> keys@[j]@ != key@,
        decreases keys@.len() - i,
    {
        if crate::text::same_text(keys[i].as_str(), key) {
            return true;
        }
        i += 1;
    }
    false
}

impl PosterState {
    /// The rating keys whose posters are shown.
    pub closed spec fn shown_keys(self) -> Set<Seq<char>> {
        key_set(self.shown@)
    }

    /// The rating keys whose thumbnails are being fetched.
    pub closed spec fn pending_keys(self) -> Set<Seq<char>> {
        key_set(self.pending@)
    }

    /// Nothing shown, nothing being fetched.
    pub fn new() -> (r: Self)
        ensures
            r.shown_keys() == Set::<Seq<char>>::empty(),
            r.pending_keys() == Set::<Seq<char>>::empty(),
    {
        let r = PosterState { shown: Vec::new(), pending: Vec::new() };
        assert(r.shown_keys() =~= Set::<Seq<char>>::empty());
        assert(r.pending_keys() =~= Set::<Seq<char>>::empty());
        r
    }

    /// Whether the poster of `key` is shown or being fetched.
    pub fn is_handled(&self, key: &str) -> (b: bool)
        ensures
            b == (self.shown_keys().contains(key@) || self.pending_keys().contains(key@)),
    {
        holds(&self.shown, key) || holds(&self.pending, key)
    }

    /// What to do for `item`, whose poster file is in the cache where
    /// `cached` says so: nothing while its poster is shown or being fetched;
    /// otherwise load the cached file; otherwise, where the movie has a
    /// thumbnail, fetch it once and count it as being fetched.
    pub fn step(&mut self, item: &MediaItem, cached: bool) -> (a: PosterStep)
        ensures
            old(self).shown_keys().contains(item.rating_key@) || old(self).pending_keys().contains(
                item.rating_key@,
            ) ==> a is Nothing && *final(self) == *old(self),
            !old(self).shown_keys().contains(item.rating_key@) && !old(self).pending_keys().contains(
                item.rating_key@,
            ) ==> {
                &&& cached ==> a is LoadCached && *final(self) == *old(self)
                &&& !cached && item.thumb is None ==> a is Nothing && *final(self) == *old(self)
                &&& !cached && item.thumb is Some ==> {
                    &&& a == PosterStep::Fetch {
                        rating_key: item.rating_key,
                        thumb_path: item.thumb->0,
                    }
                    &&& final(self).pending_keys() == old(self).pending_keys().insert(item.rating_key@)
                    &&& final(self).shown_keys() == old(self).shown_keys()
                }
            },
    {
        if self.is_handled(item.rating_key.as_str()) {
            return PosterStep::Nothing;
        }
        if cached {
            return PosterStep::LoadCached;
        }
        match &item.thumb {
            Some(thumb) => {
                with(&mut self.pending, item.rating_key.as_str());
                PosterStep::Fetch { rating_key: item.rating_key.clone(), thumb_path: thumb.clone() }
            },
            None => PosterStep::Nothing,
        }
    }

    /// Records that the poster of `key` is shown: it is no longer being
    /// fetched.
    pub fn texture_loaded(&mut self, key: &str)
        ensures
            final(self).shown_keys() == old(self).shown_keys().insert(key@),
            final(self).pending_keys() == old(self).pending_keys().remove(key@),
    {
        with(&mut self.shown, key);
        self.pending = without(&self.pending, key);
    }

    /// Records that fetching the thumbnail of `key` ended without a poster.
    pub fn fetch_failed(&mut self, key: &str)
        ensures
            final(self).shown_keys() == old(self).shown_keys(),
            final(self).pending_keys() == old(self).pending_keys().remove(key@),
    {
        self.pending = without(&self.pending, key);
    }

    /// Forgets every shown and pending poster, for a list that was emptied.
    pub fn clear(&mut self)
        ensures
            final(self).shown_keys() == Set::<Seq<char>>::empty(),
            final(self).pending_keys() == Set::<Seq<char>>::empty(),
    {
        self.shown = Vec::new();
        self.pending = Vec::new();
        assert(self.shown_keys() =~= Set::<Seq<char>>::empty());
        assert(self.pending_keys() =~= Set::<Seq<char>>::empty());
    }
}

} // verus!
