//! The backend: named fonts and glyph bitmaps kept across draw calls, the plan
//! of operations for one frame, glyph compositing and text measurement.
use vstd::prelude::*;
use crate::color::{Rgba8, coverage_pixel, tint_coverage};
use crate::fonts::FontTable;
use crate::glyph_cache::{CachedGlyph, GlyphCache, GlyphData, RasterKey};
use crate::scene::{
    DrawOp, DrawOpData, Font, HorizontalAlignment, Primitive, Rectangle, Translation,
    VerticalAlignment, emit, op_views, ops_of, text_run_of,
};

verus! {

/// The scale factor that leaves sizes unchanged, in 1/64 steps.
pub const SCALE_ONE: u16 = 64;

/// The size of overlay text, in logical pixels.
pub const OVERLAY_TEXT_SIZE: u32 = 14;

/// Where a text layout puts one glyph, in device pixels: the origin of its
/// box, the box's size and the glyph it shows.
#[derive(Clone, Copy, Debug, PartialEq, Eq, Structural)]
pub struct GlyphPlacement {
    pub x: i32,
    pub y: i32,
    pub width: u32,
    pub height: u32,
    pub key: RasterKey,
}

/// A tinted glyph bitmap to blit at `(x, y)`: `width * height` pixels in
/// `0xAARRGGBB`, row by row.
#[derive(Debug)]
pub struct GlyphBlit {
    pub x: i64,
    pub y: i64,
    pub width: usize,
    pub height: usize,
    pub data: Vec<u32>,
}

/// The blit of one placed glyph whose bitmap is `g`, tinted with `color`.
pub open spec fn blit_matches(b: GlyphBlit, pl: GlyphPlacement, g: GlyphData, color: Rgba8) -> bool {
    &&& b.x == pl.x as int
    &&& b.y == pl.y - pl.height
    &&& b.width == g.width
    &&& b.height == g.height
    &&& b.data@.len() == g.coverage.len()
    &&& forall|j: int|
        0 <= j < g.coverage.len() ==> b.data@[j] == coverage_pixel(color, #[trigger] g.coverage[j])
}

/// The overlay text primitive for one line, covering the whole viewport.
pub open spec fn overlay_ops(text: Seq<char>, width: u32, height: u32, scale: u16) -> Seq<
    DrawOpData,
> {
    seq![
        DrawOpData::Text {
            run: text_run_of(
                text,
                Rectangle { x: 0, y: 0, width: width as i32, height: height as i32 },
                Rgba8 { r: 255, g: 255, b: 255, a: 255 },
                OVERLAY_TEXT_SIZE,
                crate::scene::FontData::Default,
                HorizontalAlignment::Left,
                VerticalAlignment::Top,
                scale,
            ),
        },
    ]
}

/// The operations of the overlay lines, in order.
pub open spec fn overlays_ops(lines: Seq<String>, width: u32, height: u32, scale: u16) -> Seq<
    DrawOpData,
>
    decreases lines.len(),
{
    if lines.len() == 0 {
        seq![]
    } else {
        overlays_ops(lines.drop_last(), width, height, scale) + overlay_ops(
            lines.last()@,
            width,
            height,
            scale,
        )
    }
}

/// The identity transform.
pub open spec fn identity() -> Translation {
    Translation { dx: 0, dy: 0 }
}

/// The largest right edge among the placements, at least 0.
pub open spec fn extent_x(ps: Seq<GlyphPlacement>) -> int
    decreases ps.len(),
{
    if ps.len() == 0 {
        0
    } else {
        let rest = extent_x(ps.drop_last());
        let e = ps.last().x + ps.last().width;
        if e > rest {
            e
        } else {
            rest
        }
    }
}

/// The largest vertical origin among the placements, at least 0.
pub open spec fn extent_y(ps: Seq<GlyphPlacement>) -> int
    decreases ps.len(),
{
    if ps.len() == 0 {
        0
    } else {
        let rest = extent_y(ps.drop_last());
        let e = ps.last().y as int;
        if e > rest {
            e
        } else {
            rest
        }
    }
}

/// The state of a software rendering backend: fonts by name, parsed once,
/// and glyph bitmaps by raster key, rasterized once.
pub struct Backend<F> {
    pub fonts: FontTable<F>,
    pub glyph_cache: GlyphCache,
    pub default_text_size: u16,
}

impl<F> Backend<F> {
    /// Whether the font table and the glyph cache are well formed.
    pub open spec fn wf(&self) -> bool {
        self.fonts.wf() && self.glyph_cache.wf()
    }

    /// A backend with no fonts and no glyphs yet.
    pub fn new(default_text_size: u16) -> (b: Backend<F>)
        ensures
            b.wf(),
            b.fonts@ == Map::<Seq<char>, F>::empty(),
            b.glyph_cache@ == Map::<RasterKey, GlyphData>::empty(),
            b.default_text_size == default_text_size,
    {
        Backend { fonts: FontTable::new(), glyph_cache: GlyphCache::new(), default_text_size }
    }

    /// The text size used where none is given.
    pub fn default_size(&self) -> (r: u16)
        ensures
            r == self.default_text_size,
    {
        self.default_text_size
    }

    /// The operations that draw one frame: `primitive` from the identity
    /// transform, then each overlay line as white text over the whole viewport.
    pub fn draw(
        &self,
        primitive: &Primitive,
        scale: u16,
        viewport_width: u32,
        viewport_height: u32,
        overlay_text: &Vec<String>,
    ) -> (ops: Vec<DrawOp>)
        ensures
            op_views(ops@) == ops_of(*primitive, identity(), scale) + overlays_ops(
                overlay_text@,
                viewport_width,
                viewport_height,
                scale,
            ),
    {
        let mut ops: Vec<DrawOp> = Vec::new();
        assert(op_views(ops@) =~= Seq::<DrawOpData>::empty());
        emit(primitive, Translation { dx: 0, dy: 0 }, scale, &mut ops);
        let ghost base = op_views(ops@);
        let mut i: usize = 0;
        assert(overlay_text@.subrange(0, 0) =~= Seq::<String>::empty());
        assert(base + overlays_ops(overlay_text@.subrange(0, 0), viewport_width, viewport_height, scale) =~= base);
        while i < overlay_text.len()
            invariant
                i <= overlay_text@.len(),
                base == ops_of(*primitive, identity(), scale),
                op_views(ops@) == base + overlays_ops(
                    overlay_text@.subrange(0, i as int),
                    viewport_width,
                    viewport_height,
                    scale,
                ),
            decreases overlay_text@.len() - i,
        {
            let text = Primitive::Text {
                content: overlay_text[i].clone(),
                bounds: Rectangle {
                    x: 0,
                    y: 0,
                    width: viewport_width as i32,
                    height: viewport_height as i32,
                },
                color: Rgba8 { r: 255, g: 255, b: 255, a: 255 },
                size: OVERLAY_TEXT_SIZE,
                font: Font::Default,
                horizontal_alignment: HorizontalAlignment::Left,
                vertical_alignment: VerticalAlignment::Top,
            };
            emit(&text, Translation { dx: 0, dy: 0 }, scale, &mut ops);
            assert(overlay_text@.subrange(0, i + 1).drop_last() =~= overlay_text@.subrange(0, i as int));
            i = i + 1;
            assert(op_views(ops@) =~= base + overlays_ops(
                overlay_text@.subrange(0, i as int),
                viewport_width,
                viewport_height,
                scale,
            ));
        }
        assert(overlay_text@.subrange(0, overlay_text@.len() as int) =~= overlay_text@);
        ops
    }
}

/// Tinted bitmaps for laid-out glyphs, one per placement in order. A glyph
/// whose key is not cached yet is rasterized with `rasterize` and kept;
/// cached glyphs are reused as they are.
pub fn draw_glyphs<R: Fn(RasterKey) -> CachedGlyph>(
    cache: &mut GlyphCache,
    placements: &Vec<GlyphPlacement>,
    color: Rgba8,
    rasterize: R,
) -> (blits: Vec<GlyphBlit>)
    requires
        old(cache).wf(),
        forall|k: RasterKey| rasterize.requires((k,)),
    ensures
        final(cache).wf(),
        old(cache)@.submap_of(final(cache)@),
        blits@.len() == placements@.len(),
        forall|i: int|
            0 <= i < placements@.len() ==> {
                &&& final(cache)@.contains_key(#[trigger] placements@[i].key)
                &&& blit_matches(
                    blits@[i],
                    placements@[i],
                    final(cache)@[placements@[i].key],
                    color,
                )
            },
        forall|k: RasterKey|
            #[trigger] final(cache)@.contains_key(k) && !old(cache)@.contains_key(k) ==> exists|g: CachedGlyph|
                rasterize.ensures((k,), g) && final(cache)@[k] == g@,
{
    let mut blits: Vec<GlyphBlit> = Vec::new();
    let mut i: usize = 0;
    let ghost start = cache@;
    while i < placements.len()
        invariant
            cache.wf(),
            start == old(cache)@,
            forall|k: RasterKey| rasterize.requires((k,)),
            start.submap_of(cache@),
            i <= placements@.len(),
            blits@.len() == i,
            forall|j: int|
                0 <= j < i ==> {
                    &&& cache@.contains_key(#[trigger] placements@[j].key)
                    &&& blit_matches(
                        blits@[j],
                        placements@[j],
                        cache@[placements@[j].key],
                        color,
                    )
                },
            forall|k: RasterKey|
                #[trigger] cache@.contains_key(k) && !start.contains_key(k)
                    ==> exists|g: CachedGlyph|
                    rasterize.ensures((k,), g) && cache@[k] == g@,
        decreases placements@.len() - i,
    {
        let pl = placements[i];
        let ghost before = cache@;
        cache.get_or_rasterize(pl.key, &rasterize);
        assert(before.submap_of(cache@));
        assert forall|k: RasterKey| #[trigger] start.contains_key(k) implies cache@.contains_key(k)
            && cache@[k] == start[k] by {
            assert(before.contains_key(k));
        }
        assert(start.submap_of(cache@));
        match cache.get(pl.key) {
            Some(g) => {
                let data = tint_coverage(color, &g.coverage);
                blits.push(
                    GlyphBlit {
                        x: pl.x as i64,
                        y: pl.y as i64 - pl.height as i64,
                        width: g.width,
                        height: g.height,
                        data,
                    },
                );
            },
            None => {},
        }
        i = i + 1;
    }
    blits
}

/// The extent of laid-out text: the largest right edge and the largest
/// vertical origin among the placements, each at least 0.
pub fn measure(placements: &Vec<GlyphPlacement>) -> (r: (i64, i64))
    ensures
        r.0 == extent_x(placements@),
        r.1 == extent_y(placements@),
{
    let mut w: i64 = 0;
    let mut h: i64 = 0;
    let mut i: usize = 0;
    while i < placements.len()
        invariant
            i <= placements@.len(),
            w == extent_x(placements@.subrange(0, i as int)),
            h == extent_y(placements@.subrange(0, i as int)),
            0 <= w <= i32::MAX as int + u32::MAX as int,
            0 <= h <= i32::MAX,
        decreases placements@.len() - i,
    {
        let pl = placements[i];
        assert(placements@.subrange(0, i + 1).drop_last() =~= placements@.subrange(0, i as int));
        assert(placements@.subrange(0, i + 1).last() == pl);
        let e: i128 = pl.x as i128 + pl.width as i128;
        if e > w as i128 {
            w = e as i64;
        }
        if pl.y as i64 > h {
            h = pl.y as i64;
        }
        i = i + 1;
    }
    assert(placements@.subrange(0, placements@.len() as int) =~= placements@);
    (w, h)
}

} // verus!
