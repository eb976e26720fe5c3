//! A cache of rasterized glyph bitmaps keyed by character, size and font.
use vstd::prelude::*;

verus! {

/// Identifies one rasterized glyph: a character at one size in one font.
/// `size` is in 1/64 of a device pixel.
#[derive(Clone, Copy, Debug, PartialEq, Eq, Structural)]
pub struct RasterKey {
    pub c: char,
    pub size: u32,
    pub font: u64,
}

/// A rasterized glyph: its placement metrics and one coverage byte per pixel.
#[derive(Clone, Debug)]
pub struct CachedGlyph {
    pub xmin: i32,
    pub ymin: i32,
    pub width: usize,
    pub height: usize,
    pub coverage: Vec<u8>,
}

/// What a cached glyph holds, as mathematical values.
pub ghost struct GlyphData {
    pub xmin: int,
    pub ymin: int,
    pub width: nat,
    pub height: nat,
    pub coverage: Seq<u8>,
}

impl View for CachedGlyph {
    type V = GlyphData;

    open spec fn view(&self) -> GlyphData {
        GlyphData {
            xmin: self.xmin as int,
            ymin: self.ymin as int,
            width: self.width as nat,
            height: self.height as nat,
            coverage: self.coverage@,
        }
    }
}

/// The cache after looking `key` up: unchanged when the key is present,
/// otherwise extended by `fresh` under `key`.
pub open spec fn after_lookup(
    m: Map<RasterKey, GlyphData>,
    key: RasterKey,
    fresh: GlyphData,
) -> Map<RasterKey, GlyphData> {
    if m.contains_key(key) {
        m
    } else {
        m.insert(key, fresh)
    }
}

/// Glyph bitmaps by raster key. Entries are only ever added.
pub struct GlyphCache {
    entries: Vec<(RasterKey, CachedGlyph)>,
    map: Ghost<Map<RasterKey, GlyphData>>,
}

impl View for GlyphCache {
    type V = Map<RasterKey, GlyphData>;

    closed spec fn view(&self) -> Map<RasterKey, GlyphData> {
        self.map@
    }
}

impl GlyphCache {
    /// The stored entries agree with the map that the cache stands for.
    pub closed spec fn wf(&self) -> bool {
        &&& forall|i: int|
            0 <= i < self.entries@.len() ==> {
                &&& #[trigger] self.map@.contains_key(self.entries@[i].0)
                &&& self.map@[self.entries@[i].0] == self.entries@[i].1@
            }
        &&& forall|k: RasterKey|
            #[trigger] self.map@.contains_key(k) ==> exists|i: int|
                0 <= i < self.entries@.len() && #[trigger] self.entries@[i].0 == k
    }

    /// An empty cache.
    pub fn new() -> (c: GlyphCache)
        ensures
            c.wf(),
            c@ == Map::<RasterKey, GlyphData>::empty(),
    {
        GlyphCache { entries: Vec::new(), map: Ghost(Map::empty()) }
    }

    fn find(&self, key: RasterKey) -> (r: Option<usize>)
        requires
            self.wf(),
        ensures
            match r {
                Some(i) => i < self.entries@.len() && self.entries@[i as int].0 == key,
                None => !self@.contains_key(key),
            },
    {
        let mut i: usize = 0;
        while i < self.entries.len()
            invariant
                self.wf(),
                i <= self.entries@.len(),
                forall|j: int| 0 <= j < i ==> self.entries@[j].0 != key,
            decreases self.entries@.len() - i,
        {
            if self.entries[i].0 == key {
                return Some(i);
            }
            i = i + 1;
        }
        None
    }

    /// Whether a bitmap is stored under `key`.
    pub fn contains(&self, key: RasterKey) -> (r: bool)
        requires
            self.wf(),
        ensures
            r == self@.contains_key(key),
    {
        match self.find(key) {
            Some(_) => true,
            None => false,
        }
    }

    /// The bitmap stored under `key`, if any.
    pub fn get(&self, key: RasterKey) -> (r: Option<&CachedGlyph>)
        requires
            self.wf(),
        ensures
            r.is_some() == self@.contains_key(key),
            r.is_some() ==> r.unwrap()@ == self@[key],
    {
        match self.find(key) {
            Some(i) => {
                assert(self.map@.contains_key(self.entries@[i as int].0));
                Some(&self.entries[i].1)
            },
            None => None,
        }
    }

    /// Makes sure a bitmap is stored under `key`. When one is, nothing changes and
    /// `rasterize` is not called; otherwise `rasterize(key)` is called once and its
    /// result stored. Returns whether the key was already present.
    pub fn get_or_rasterize<F: Fn(RasterKey) -> CachedGlyph>(
        &mut self,
        key: RasterKey,
        rasterize: F,
    ) -> (hit: bool)
        requires
            old(self).wf(),
            rasterize.requires((key,)),
        ensures
            final(self).wf(),
            hit == old(self)@.contains_key(key),
            hit ==> final(self)@ == old(self)@,
            !hit ==> exists|g: CachedGlyph|
                rasterize.ensures((key,), g) && final(self)@ == old(self)@.insert(key, g@),
            exists|g: GlyphData| final(self)@ == after_lookup(old(self)@, key, g),
    {
        match self.find(key) {
            Some(i) => {
                assert(self.map@.contains_key(self.entries@[i as int].0));
                assert(self.map@ == after_lookup(old(self)@, key, self.map@[key]));
                true
            },
            None => {
                let g = rasterize(key);
                let ghost gv = g@;
                let ghost old_entries = self.entries@;
                self.entries.push((key, g));
                self.map = Ghost(self.map@.insert(key, gv));
                assert(self.entries@[old_entries.len() as int].0 == key);
                assert forall|k: RasterKey| #[trigger] self.map@.contains_key(k) implies exists|
                    i: int,
                |
                    0 <= i < self.entries@.len() && #[trigger] self.entries@[i].0 == k by {
                    if k != key {
                        let i = choose|i: int|
                            0 <= i < old_entries.len() && #[trigger] old_entries[i].0 == k;
                        assert(self.entries@[i] == old_entries[i]);
                    }
                }
                assert(self.map@ == after_lookup(old(self)@, key, gv));
                false
            },
        }
    }
}

/// Once a key has been looked up, a second lookup of it finds the same bitmap
/// and leaves the cache as it was, whatever a rasterizer would return then.
pub proof fn lemma_second_lookup_hits(
    m: Map<RasterKey, GlyphData>,
    key: RasterKey,
    first: GlyphData,
    second: GlyphData,
)
    ensures
        after_lookup(m, key, first).contains_key(key),
        after_lookup(after_lookup(m, key, first), key, second) == after_lookup(m, key, first),
        after_lookup(after_lookup(m, key, first), key, second)[key] == after_lookup(
            m,
            key,
            first,
        )[key],
{
}

} // verus!
