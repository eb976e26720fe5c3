use iced_raqote::backend::{draw_glyphs, measure, Backend, GlyphPlacement, SCALE_ONE};
use iced_raqote::color::{coverage_to_pixel, modulate_channel, pack_pixel, tint_coverage, Rgba8};
use iced_raqote::fonts::FontTable;
use iced_raqote::glyph_cache::{CachedGlyph, GlyphCache, RasterKey};
use iced_raqote::path::{rect_path, PathCmd};
use iced_raqote::scene::{
    copy_font, shift, DrawOp, Font, HorizontalAlignment, Primitive, Rectangle, Translation, Vector,
    VerticalAlignment,
};
use std::cell::Cell;

fn glyph(w: usize, h: usize, fill: u8) -> CachedGlyph {
    CachedGlyph { xmin: 0, ymin: 0, width: w, height: h, coverage: vec![fill; w * h] }
}

fn key(c: char) -> RasterKey {
    RasterKey { c, size: 16 * 64, font: 0 }
}

#[test]
fn half_coverage_of_opaque_red() {
    let p = coverage_to_pixel(Rgba8 { r: 255, g: 0, b: 0, a: 255 }, 128);
    assert_eq!(p >> 24, 128);
    assert_eq!((p >> 16) & 0xff, 128);
    assert_eq!((p >> 8) & 0xff, 0);
    assert_eq!(p & 0xff, 0);
    assert_eq!(p, 0x8080_0000);
}

#[test]
fn coverage_rounds_down() {
    assert_eq!(modulate_channel(100, 128), 50);
    assert_eq!(modulate_channel(255, 255), 255);
    assert_eq!(modulate_channel(0, 255), 0);
    assert_eq!(modulate_channel(200, 0), 0);
    assert_eq!(modulate_channel(1, 254), 0);
}

#[test]
fn pack_places_channels() {
    assert_eq!(pack_pixel(0x12, 0x34, 0x56, 0x78), 0x1234_5678);
}

#[test]
fn tint_whole_mask() {
    let color = Rgba8 { r: 255, g: 128, b: 0, a: 255 };
    let px = tint_coverage(color, &vec![0, 255, 51]);
    assert_eq!(px, vec![0, 0xffff_8000, 0x3333_1900]);
    assert!(tint_coverage(color, &Vec::new()).is_empty());
}

#[test]
fn second_lookup_does_not_rasterize() {
    let calls = Cell::new(0u32);
    let raster = |k: RasterKey| {
        calls.set(calls.get() + 1);
        glyph(2, 3, k.c as u8)
    };
    let mut cache = GlyphCache::new();
    assert!(!cache.contains(key('a')));
    assert!(!cache.get_or_rasterize(key('a'), &raster));
    let first = cache.get(key('a')).unwrap().clone();
    assert!(cache.get_or_rasterize(key('a'), &raster));
    let second = cache.get(key('a')).unwrap();
    assert_eq!(calls.get(), 1);
    assert_eq!(first.width, second.width);
    assert_eq!(first.height, second.height);
    assert_eq!(first.coverage, second.coverage);
    assert_eq!(second.coverage, vec![b'a'; 6]);
}

#[test]
fn keys_differ_by_size_and_font() {
    let calls = Cell::new(0u32);
    let raster = |_k: RasterKey| {
        calls.set(calls.get() + 1);
        glyph(1, 1, 9)
    };
    let mut cache = GlyphCache::new();
    cache.get_or_rasterize(RasterKey { c: 'x', size: 64, font: 0 }, &raster);
    cache.get_or_rasterize(RasterKey { c: 'x', size: 128, font: 0 }, &raster);
    cache.get_or_rasterize(RasterKey { c: 'x', size: 64, font: 1 }, &raster);
    cache.get_or_rasterize(RasterKey { c: 'x', size: 64, font: 0 }, &raster);
    assert_eq!(calls.get(), 3);
    assert!(cache.get(RasterKey { c: 'y', size: 64, font: 0 }).is_none());
}

#[test]
fn named_font_parsed_once() {
    let parses = Cell::new(0u32);
    let parse = |b: &Vec<u8>| {
        parses.set(parses.get() + 1);
        Some(b.len())
    };
    let mut table: FontTable<usize> = FontTable::new();
    let name = String::from("Icons");
    let bytes = vec![1u8, 2, 3];
    assert!(table.resolve(&name, &bytes, &parse));
    assert!(table.resolve(&name, &bytes, &parse));
    assert_eq!(parses.get(), 1);
    assert_eq!(table.get(&name), Some(&3));
}

#[test]
fn failed_parse_falls_back_and_is_not_kept() {
    let parses = Cell::new(0u32);
    let parse = |_b: &Vec<u8>| -> Option<usize> {
        parses.set(parses.get() + 1);
        None
    };
    let mut table: FontTable<usize> = FontTable::new();
    let name = String::from("Broken");
    assert!(!table.resolve(&name, &vec![0u8], &parse));
    assert!(table.get(&name).is_none());
    assert!(!table.resolve(&name, &vec![0u8], &parse));
    assert_eq!(parses.get(), 2);
}

#[test]
fn font_choice_falls_back() {
    let parse = |b: &Vec<u8>| if b.is_empty() { None } else { Some(b[0] as usize) };
    let mut table: FontTable<usize> = FontTable::new();
    assert_eq!(table.resolve_font(&Font::Default, &parse), None);
    let bad = Font::External { name: String::from("Bad"), bytes: Vec::new() };
    assert_eq!(table.resolve_font(&bad, &parse), None);
    let good = Font::External { name: String::from("Good"), bytes: vec![42] };
    assert_eq!(table.resolve_font(&good, &parse), Some(&42));
    let renamed = Font::External { name: String::from("Good"), bytes: vec![7] };
    assert_eq!(table.resolve_font(&renamed, &parse), Some(&42));
    assert!(table.get(&String::from("Bad")).is_none());
}

#[test]
fn square_corners_give_four_vertices() {
    let p = rect_path(0, 1, 2, 11, 22);
    assert_eq!(
        p,
        vec![
            PathCmd::MoveTo { x: 1, y: 2 },
            PathCmd::LineTo { x: 11, y: 2 },
            PathCmd::LineTo { x: 11, y: 22 },
            PathCmd::LineTo { x: 1, y: 22 },
            PathCmd::Close,
        ]
    );
}

fn bbox(p: &[PathCmd]) -> (i64, i64, i64, i64) {
    let mut pts = Vec::new();
    for c in p {
        match *c {
            PathCmd::MoveTo { x, y } | PathCmd::LineTo { x, y } => pts.push((x, y)),
            PathCmd::QuadTo { cx, cy, x, y } => {
                pts.push((cx, cy));
                pts.push((x, y));
            }
            PathCmd::Close => {}
        }
    }
    let x0 = pts.iter().map(|p| p.0).min().unwrap();
    let y0 = pts.iter().map(|p| p.1).min().unwrap();
    let x1 = pts.iter().map(|p| p.0).max().unwrap();
    let y1 = pts.iter().map(|p| p.1).max().unwrap();
    (x0, y0, x1, y1)
}

#[test]
fn rounding_keeps_bounding_box() {
    let square = rect_path(0, 10, 20, 50, 40);
    let round = rect_path(5, 10, 20, 50, 40);
    assert_eq!(round.len(), 9);
    assert_eq!(round[0], PathCmd::MoveTo { x: 10, y: 25 });
    assert_eq!(round[1], PathCmd::QuadTo { cx: 10, cy: 20, x: 15, y: 20 });
    assert_eq!(bbox(&square), (10, 20, 50, 40));
    assert_eq!(bbox(&round), bbox(&square));
}

fn quad(x: i32, y: i32) -> Primitive {
    Primitive::Quad {
        bounds: Rectangle { x, y, width: 10, height: 10 },
        background: Rgba8 { r: 0, g: 0, b: 255, a: 255 },
        border_radius: 0,
        border_width: 1,
        border_color: Rgba8 { r: 0, g: 0, b: 0, a: 255 },
    }
}

fn text(content: &str) -> Primitive {
    Primitive::Text {
        content: String::from(content),
        bounds: Rectangle { x: 2, y: 3, width: 100, height: 20 },
        color: Rgba8 { r: 255, g: 255, b: 255, a: 255 },
        size: 16,
        font: Font::Default,
        horizontal_alignment: HorizontalAlignment::Left,
        vertical_alignment: VerticalAlignment::Top,
    }
}

/// Replays the state-changing operations and returns the transform and clip
/// depth seen by each text operation.
fn states_at_text(ops: &[DrawOp]) -> Vec<(Translation, usize)> {
    let mut t = Translation { dx: 0, dy: 0 };
    let mut clips: Vec<(i64, i64, i64, i64)> = Vec::new();
    let mut seen = Vec::new();
    for op in ops {
        match op {
            DrawOp::PushClip { x0, y0, x1, y1 } => clips.push((*x0, *y0, *x1, *y1)),
            DrawOp::PopClip => {
                clips.pop();
            }
            DrawOp::SetTransform { transform } => t = *transform,
            DrawOp::Fill { .. } => {}
            DrawOp::Text { .. } => seen.push((t, clips.len())),
        }
    }
    seen
}

#[test]
fn probe_after_clip_sees_prior_state() {
    let tree = Primitive::Group {
        primitives: vec![
            Primitive::Clip {
                bounds: Rectangle { x: 5, y: 6, width: 30, height: 40 },
                offset: Vector { x: 1, y: 2 },
                content: Box::new(Primitive::Group { primitives: vec![quad(0, 0), text("in")] }),
            },
            text("probe"),
        ],
    };
    let backend: Backend<usize> = Backend::new(20);
    let ops = backend.draw(&tree, SCALE_ONE, 100, 100, &Vec::new());
    assert_eq!(ops.len(), 2 + 2 + 1 + 2 + 1);
    assert!(matches!(ops[0], DrawOp::PushClip { x0: 5, y0: 6, x1: 35, y1: 46 }));
    assert!(matches!(ops[1], DrawOp::SetTransform { transform: Translation { dx: 6, dy: 8 } }));
    let seen = states_at_text(&ops);
    assert_eq!(seen, vec![(Translation { dx: 6, dy: 8 }, 1), (Translation { dx: 0, dy: 0 }, 0)]);
}

#[test]
fn probe_after_translate_sees_prior_state() {
    let tree = Primitive::Translate {
        translation: Vector { x: 1, y: 1 },
        content: Box::new(Primitive::Group {
            primitives: vec![
                Primitive::Translate {
                    translation: Vector { x: 10, y: 5 },
                    content: Box::new(text("inner")),
                },
                text("probe"),
            ],
        }),
    };
    let backend: Backend<usize> = Backend::new(20);
    let ops = backend.draw(&tree, SCALE_ONE, 100, 100, &Vec::new());
    let seen = states_at_text(&ops);
    assert_eq!(seen, vec![(Translation { dx: 11, dy: 6 }, 0), (Translation { dx: 1, dy: 1 }, 0)]);
    assert!(matches!(ops.last(), Some(DrawOp::SetTransform { transform: Translation { dx: 0, dy: 0 } })));
}

#[test]
fn cached_and_stub_nodes() {
    let backend: Backend<usize> = Backend::new(20);
    let tree = Primitive::Group {
        primitives: vec![
            Primitive::Empty,
            Primitive::Image { bounds: Rectangle { x: 0, y: 0, width: 5, height: 5 } },
            Primitive::Svg { bounds: Rectangle { x: 0, y: 0, width: 5, height: 5 } },
            Primitive::Mesh2D,
            Primitive::Cached { cache: Box::new(quad(1, 1)) },
        ],
    };
    let ops = backend.draw(&tree, SCALE_ONE, 10, 10, &Vec::new());
    assert_eq!(ops.len(), 2);
    match &ops[1] {
        DrawOp::Fill { path, color } => {
            assert_eq!(*color, Rgba8 { r: 0, g: 0, b: 255, a: 255 });
            assert_eq!(path[0], PathCmd::MoveTo { x: 2, y: 2 });
            assert_eq!(path[2], PathCmd::LineTo { x: 10, y: 10 });
        }
        _ => panic!("expected a fill"),
    }
}

#[test]
fn quad_colors_are_premultiplied() {
    let backend: Backend<usize> = Backend::new(20);
    let tree = Primitive::Quad {
        bounds: Rectangle { x: 0, y: 0, width: 10, height: 10 },
        background: Rgba8 { r: 200, g: 100, b: 0, a: 0 },
        border_radius: 2,
        border_width: 1,
        border_color: Rgba8 { r: 255, g: 64, b: 0, a: 128 },
    };
    let ops = backend.draw(&tree, SCALE_ONE, 10, 10, &Vec::new());
    match (&ops[0], &ops[1]) {
        (DrawOp::Fill { color: border, path: outer }, DrawOp::Fill { color: inner_color, path: inner }) => {
            assert_eq!(*border, Rgba8 { r: 128, g: 32, b: 0, a: 128 });
            assert_eq!(*inner_color, Rgba8 { r: 0, g: 0, b: 0, a: 0 });
            assert_eq!(outer[0], PathCmd::MoveTo { x: 0, y: 2 });
            assert_eq!(inner[0], PathCmd::MoveTo { x: 1, y: 3 });
            assert_eq!(inner[3], PathCmd::QuadTo { cx: 9, cy: 1, x: 9, y: 3 });
        }
        _ => panic!("expected two fills"),
    }
}

#[test]
fn text_is_scaled() {
    let backend: Backend<usize> = Backend::new(20);
    let ops = backend.draw(&text("Hi"), 128, 10, 10, &Vec::new());
    match &ops[0] {
        DrawOp::Text { run } => {
            assert_eq!(run.content, "Hi");
            assert_eq!((run.x, run.y, run.max_width, run.max_height), (256, 384, 13056, 2944));
            assert_eq!(run.size, 2048);
        }
        _ => panic!("expected text"),
    }
}

#[test]
fn overlay_lines_follow_the_frame() {
    let backend: Backend<usize> = Backend::new(20);
    let lines = vec![String::from("fps 60"), String::from("debug")];
    let ops = backend.draw(&Primitive::Empty, SCALE_ONE, 320, 240, &lines);
    assert_eq!(ops.len(), 2);
    match &ops[1] {
        DrawOp::Text { run } => {
            assert_eq!(run.content, "debug");
            assert_eq!(run.size, 14 * 64);
            assert_eq!((run.max_width, run.max_height), (320 * 64, 240 * 64));
            assert_eq!(run.color, Rgba8 { r: 255, g: 255, b: 255, a: 255 });
        }
        _ => panic!("expected text"),
    }
    assert_eq!(backend.default_size(), 20);
}

#[test]
fn translation_clamps() {
    let t = shift(Translation { dx: i64::MAX - 1, dy: i64::MIN + 1 }, 5, -5);
    assert_eq!(t, Translation { dx: i64::MAX, dy: i64::MIN });
    assert_eq!(shift(Translation { dx: 3, dy: 4 }, -1, 2), Translation { dx: 2, dy: 6 });
}

#[test]
fn font_copy_keeps_name_and_bytes() {
    match copy_font(&Font::External { name: String::from("A"), bytes: vec![7, 8] }) {
        Font::External { name, bytes } => {
            assert_eq!(name, "A");
            assert_eq!(bytes, vec![7, 8]);
        }
        Font::Default => panic!("expected a named font"),
    }
}

#[test]
fn measure_takes_extremes() {
    let ps = vec![
        GlyphPlacement { x: 0, y: 12, width: 8, height: 10, key: key('H') },
        GlyphPlacement { x: 9, y: 14, width: 3, height: 11, key: key('i') },
    ];
    assert_eq!(measure(&ps), (12, 14));
    assert_eq!(measure(&Vec::new()), (0, 0));
}

#[test]
fn glyph_blits_hi_on_blank_surface() {
    let calls = Cell::new(0u32);
    let raster = |k: RasterKey| {
        calls.set(calls.get() + 1);
        if k.c == 'H' {
            glyph(8, 10, 255)
        } else {
            glyph(3, 11, 200)
        }
    };
    let ps = vec![
        GlyphPlacement { x: 1, y: 12, width: 8, height: 10, key: key('H') },
        GlyphPlacement { x: 11, y: 13, width: 3, height: 11, key: key('i') },
        GlyphPlacement { x: 20, y: 12, width: 8, height: 10, key: key('H') },
    ];
    let mut backend: Backend<usize> = Backend::new(16);
    let white = Rgba8 { r: 255, g: 255, b: 255, a: 255 };
    let blits = draw_glyphs(&mut backend.glyph_cache, &ps, white, &raster);
    assert_eq!(calls.get(), 2);
    assert_eq!(blits.len(), 3);
    assert_eq!((blits[0].x, blits[0].y, blits[0].width, blits[0].height), (1, 2, 8, 10));
    assert_eq!((blits[1].x, blits[1].y, blits[1].width, blits[1].height), (11, 2, 3, 11));
    assert_eq!(blits[0].data[0], 0xffff_ffff);
    assert_eq!(blits[1].data[0], 0xc8c8_c8c8);
    let mut surface = vec![0u32; 100 * 20];
    for b in &blits {
        for row in 0..b.height {
            for col in 0..b.width {
                let x = b.x as usize + col;
                let y = b.y as usize + row;
                surface[y * 100 + x] = b.data[row * b.width + col];
            }
        }
    }
    for y in 0..20usize {
        for x in 0..100usize {
            let inside = blits.iter().any(|b| {
                (x as i64) >= b.x
                    && (x as i64) < b.x + b.width as i64
                    && (y as i64) >= b.y
                    && (y as i64) < b.y + b.height as i64
            });
            if !inside {
                assert_eq!(surface[y * 100 + x], 0);
            }
        }
    }
}
