//! The primitive tree and the walk that turns it into rasterizer operations,
//! keeping clip and transform state scoped to each subtree.
use vstd::prelude::*;
use crate::color::{Rgba8, premultiplied, solid_source};
use crate::path::{PathCmd, rect_outline, rect_path};

verus! {

/// An axis-aligned rectangle in logical units.
#[derive(Clone, Copy, Debug, PartialEq, Eq, Structural)]
pub struct Rectangle {
    pub x: i32,
    pub y: i32,
    pub width: i32,
    pub height: i32,
}

/// A 2D offset in logical units.
#[derive(Clone, Copy, Debug, PartialEq, Eq, Structural)]
pub struct Vector {
    pub x: i32,
    pub y: i32,
}

/// Horizontal placement of text within its bounds.
#[derive(Clone, Copy, Debug, PartialEq, Eq, Structural)]
pub enum HorizontalAlignment {
    Left,
    Center,
    Right,
}

/// Vertical placement of text within its bounds.
#[derive(Clone, Copy, Debug, PartialEq, Eq, Structural)]
pub enum VerticalAlignment {
    Top,
    Center,
    Bottom,
}

/// The font of a text primitive: the built-in fallback font, or a named font
/// given by its bytes.
#[derive(Debug)]
pub enum Font {
    Default,
    External { name: String, bytes: Vec<u8> },
}

/// A font reference as mathematical values.
pub ghost enum FontData {
    Default,
    External { name: Seq<char>, bytes: Seq<u8> },
}

impl View for Font {
    type V = FontData;

    open spec fn view(&self) -> FontData {
        match self {
            Font::Default => FontData::Default,
            Font::External { name, bytes } => FontData::External { name: name@, bytes: bytes@ },
        }
    }
}

/// A node of the tree of things to draw.
#[derive(Debug)]
pub enum Primitive {
    Empty,
    Group { primitives: Vec<Primitive> },
    Text {
        content: String,
        bounds: Rectangle,
        color: Rgba8,
        size: u32,
        font: Font,
        horizontal_alignment: HorizontalAlignment,
        vertical_alignment: VerticalAlignment,
    },
    Quad {
        bounds: Rectangle,
        background: Rgba8,
        border_radius: u16,
        border_width: u16,
        border_color: Rgba8,
    },
    Image { bounds: Rectangle },
    Svg { bounds: Rectangle },
    Clip { bounds: Rectangle, offset: Vector, content: Box<Primitive> },
    Translate { translation: Vector, content: Box<Primitive> },
    Mesh2D,
    Cached { cache: Box<Primitive> },
}

/// A translation of the drawing coordinates, in device units.
#[derive(Clone, Copy, Debug, PartialEq, Eq, Structural)]
pub struct Translation {
    pub dx: i64,
    pub dy: i64,
}

/// A value clamped into the range of `i64`.
pub open spec fn clamp64(v: int) -> i64 {
    if v > i64::MAX {
        i64::MAX
    } else if v < i64::MIN {
        i64::MIN
    } else {
        v as i64
    }
}

/// `t` followed by a shift of `(x, y)`, clamped to the range of `i64`.
pub open spec fn shifted(t: Translation, x: int, y: int) -> Translation {
    Translation { dx: clamp64(t.dx + x), dy: clamp64(t.dy + y) }
}

/// The transform that a clip sets up for its content: a translation by the
/// clip's origin plus its offset.
pub open spec fn clip_translation(bounds: Rectangle, offset: Vector) -> Translation {
    Translation { dx: (bounds.x + offset.x) as i64, dy: (bounds.y + offset.y) as i64 }
}

/// One run of text to lay out and draw. Positions, extents and size are in
/// 1/64 of a device pixel: the logical values times the scale factor.
#[derive(Debug)]
pub struct TextRun {
    pub content: String,
    pub x: i64,
    pub y: i64,
    pub max_width: i64,
    pub max_height: i64,
    pub size: u64,
    pub color: Rgba8,
    pub font: Font,
    pub horizontal_alignment: HorizontalAlignment,
    pub vertical_alignment: VerticalAlignment,
}

/// A text run as mathematical values.
pub ghost struct TextRunData {
    pub content: Seq<char>,
    pub x: int,
    pub y: int,
    pub max_width: int,
    pub max_height: int,
    pub size: int,
    pub color: Rgba8,
    pub font: FontData,
    pub horizontal_alignment: HorizontalAlignment,
    pub vertical_alignment: VerticalAlignment,
}

impl View for TextRun {
    type V = TextRunData;

    open spec fn view(&self) -> TextRunData {
        TextRunData {
            content: self.content@,
            x: self.x as int,
            y: self.y as int,
            max_width: self.max_width as int,
            max_height: self.max_height as int,
            size: self.size as int,
            color: self.color,
            font: self.font@,
            horizontal_alignment: self.horizontal_alignment,
            vertical_alignment: self.vertical_alignment,
        }
    }
}

/// One operation on the rasterizer's surface and state.
#[derive(Debug)]
pub enum DrawOp {
    /// Narrows the clip to its intersection with this rectangle, remembering the
    /// clip before.
    PushClip { x0: i64, y0: i64, x1: i64, y1: i64 },
    /// Restores the clip that the matching `PushClip` narrowed.
    PopClip,
    /// Replaces the current transform.
    SetTransform { transform: Translation },
    /// Fills a path with a solid color, premultiplied by its alpha.
    Fill { path: Vec<PathCmd>, color: Rgba8 },
    /// Lays out a run of text and draws its glyphs.
    Text { run: TextRun },
}

/// A drawing operation as mathematical values.
pub ghost enum DrawOpData {
    PushClip { x0: int, y0: int, x1: int, y1: int },
    PopClip,
    SetTransform { transform: Translation },
    Fill { path: Seq<PathCmd>, color: Rgba8 },
    Text { run: TextRunData },
}

impl View for DrawOp {
    type V = DrawOpData;

    open spec fn view(&self) -> DrawOpData {
        match self {
            DrawOp::PushClip { x0, y0, x1, y1 } => DrawOpData::PushClip {
                x0: *x0 as int,
                y0: *y0 as int,
                x1: *x1 as int,
                y1: *y1 as int,
            },
            DrawOp::PopClip => DrawOpData::PopClip,
            DrawOp::SetTransform { transform } => DrawOpData::SetTransform { transform: *transform },
            DrawOp::Fill { path, color } => DrawOpData::Fill { path: path@, color: *color },
            DrawOp::Text { run } => DrawOpData::Text { run: run@ },
        }
    }
}

/// The operations of a list, as values.
pub open spec fn op_views(s: Seq<DrawOp>) -> Seq<DrawOpData> {
    s.map_values(|o: DrawOp| o@)
}

/// The text run that a text primitive asks for at scale `scale` (in 1/64).
pub open spec fn text_run_of(
    content: Seq<char>,
    bounds: Rectangle,
    color: Rgba8,
    size: u32,
    font: FontData,
    horizontal_alignment: HorizontalAlignment,
    vertical_alignment: VerticalAlignment,
    scale: u16,
) -> TextRunData {
    TextRunData {
        content,
        x: bounds.x * scale,
        y: bounds.y * scale,
        max_width: (bounds.x + bounds.width) * scale,
        max_height: (bounds.y + bounds.height) * scale,
        size: size * scale,
        color,
        font,
        horizontal_alignment,
        vertical_alignment,
    }
}

/// The two fills of a quad: its outline in the border color, then the outline
/// inset by the border width in the background color, both premultiplied.
pub open spec fn quad_ops(
    bounds: Rectangle,
    background: Rgba8,
    border_radius: u16,
    border_width: u16,
    border_color: Rgba8,
) -> Seq<DrawOpData> {
    seq![
        DrawOpData::Fill {
            path: rect_outline(
                border_radius as int,
                bounds.x as int,
                bounds.y as int,
                bounds.x + bounds.width,
                bounds.y + bounds.height,
            ),
            color: premultiplied(border_color),
        },
        DrawOpData::Fill {
            path: rect_outline(
                border_radius as int,
                bounds.x + border_width,
                bounds.y + border_width,
                bounds.x + bounds.width - border_width,
                bounds.y + bounds.height - border_width,
            ),
            color: premultiplied(background),
        },
    ]
}

/// The clip rectangle that a clip primitive pushes: its bounds.
pub open spec fn clip_push_of(bounds: Rectangle) -> DrawOpData {
    DrawOpData::PushClip {
        x0: bounds.x as int,
        y0: bounds.y as int,
        x1: bounds.x + bounds.width,
        y1: bounds.y + bounds.height,
    }
}

/// How many children a group has, plus one; zero for any other node.
pub open spec fn fan_out(p: Primitive) -> int {
    match p {
        Primitive::Group { primitives } => primitives@.len() as int + 1,
        _ => 0,
    }
}

/// The operations that drawing `p` under transform `t` performs.
pub open spec fn ops_of(p: Primitive, t: Translation, scale: u16) -> Seq<DrawOpData>
    decreases p, fan_out(p),
{
    match p {
        Primitive::Empty => seq![],
        Primitive::Group { primitives } => ops_of_children(p, primitives@.len() as int, t, scale),
        Primitive::Text {
            content,
            bounds,
            color,
            size,
            font,
            horizontal_alignment,
            vertical_alignment,
        } => seq![
            DrawOpData::Text {
                run: text_run_of(
                    content@,
                    bounds,
                    color,
                    size,
                    font@,
                    horizontal_alignment,
                    vertical_alignment,
                    scale,
                ),
            },
        ],
        Primitive::Quad { bounds, background, border_radius, border_width, border_color } =>
            quad_ops(bounds, background, border_radius, border_width, border_color),
        Primitive::Image { .. } => seq![],
        Primitive::Svg { .. } => seq![],
        Primitive::Clip { bounds, offset, content } => seq![
            clip_push_of(bounds),
            DrawOpData::SetTransform { transform: clip_translation(bounds, offset) },
        ] + ops_of(*content, clip_translation(bounds, offset), scale) + seq![
            DrawOpData::SetTransform { transform: t },
            DrawOpData::PopClip,
        ],
        Primitive::Translate { translation, content } => seq![
            DrawOpData::SetTransform { transform: shifted(t, translation.x as int, translation.y as int) },
        ] + ops_of(*content, shifted(t, translation.x as int, translation.y as int), scale) + seq![
            DrawOpData::SetTransform { transform: t },
        ],
        Primitive::Mesh2D => seq![],
        Primitive::Cached { cache } => ops_of(*cache, t, scale),
    }
}

/// The operations of the first `n` children of group `g`, in order.
pub open spec fn ops_of_children(g: Primitive, n: int, t: Translation, scale: u16) -> Seq<
    DrawOpData,
>
    decreases g, n,
{
    match g {
        Primitive::Group { primitives } => {
            if n <= 0 || n > primitives@.len() {
                seq![]
            } else {
                ops_of_children(g, n - 1, t, scale) + ops_of(primitives@[n - 1], t, scale)
            }
        },
        _ => seq![],
    }
}

/// The rasterizer state that operations act on: the current transform and the
/// stack of clip rectangles pushed so far.
pub ghost struct DrawState {
    pub transform: Translation,
    pub clips: Seq<(int, int, int, int)>,
}

/// The state after one operation. Fills and text leave it as it is.
pub open spec fn step(s: DrawState, op: DrawOpData) -> DrawState {
    match op {
        DrawOpData::PushClip { x0, y0, x1, y1 } => DrawState {
            transform: s.transform,
            clips: s.clips.push((x0, y0, x1, y1)),
        },
        DrawOpData::PopClip => if s.clips.len() > 0 {
            DrawState { transform: s.transform, clips: s.clips.drop_last() }
        } else {
            s
        },
        DrawOpData::SetTransform { transform } => DrawState { transform, clips: s.clips },
        _ => s,
    }
}

/// The state after a sequence of operations, applied in order.
pub open spec fn replay(s: DrawState, ops: Seq<DrawOpData>) -> DrawState
    decreases ops.len(),
{
    if ops.len() == 0 {
        s
    } else {
        step(replay(s, ops.drop_last()), ops.last())
    }
}

/// Replaying two sequences one after the other is replaying their concatenation.
pub proof fn lemma_replay_append(s: DrawState, a: Seq<DrawOpData>, b: Seq<DrawOpData>)
    ensures
        replay(s, a + b) == replay(replay(s, a), b),
    decreases b.len(),
{
    if b.len() == 0 {
        assert(a + b =~= a);
    } else {
        assert((a + b).drop_last() =~= a + b.drop_last());
        lemma_replay_append(s, a, b.drop_last());
    }
}

proof fn lemma_replay_inert(s: DrawState, ops: Seq<DrawOpData>)
    requires
        forall|i: int| 0 <= i < ops.len() ==> (#[trigger] ops[i] is Fill || ops[i] is Text),
    ensures
        replay(s, ops) == s,
    decreases ops.len(),
{
    if ops.len() > 0 {
        lemma_replay_inert(s, ops.drop_last());
    }
}

/// Drawing any subtree leaves the transform and the clip stack exactly as they
/// were before it: what the subtree's clips and translations set up is undone
/// when it ends.
pub proof fn lemma_subtree_restores_state(
    p: Primitive,
    t: Translation,
    scale: u16,
    clips: Seq<(int, int, int, int)>,
)
    ensures
        replay(DrawState { transform: t, clips }, ops_of(p, t, scale)) == (DrawState {
            transform: t,
            clips,
        }),
    decreases p, fan_out(p),
{
    let s = DrawState { transform: t, clips };
    match p {
        Primitive::Group { primitives } => {
            lemma_children_restore_state(p, primitives@.len() as int, t, scale, clips);
        },
        Primitive::Text { .. } => {
            lemma_replay_inert(s, ops_of(p, t, scale));
        },
        Primitive::Quad { .. } => {
            lemma_replay_inert(s, ops_of(p, t, scale));
        },
        Primitive::Clip { bounds, offset, content } => {
            let ct = clip_translation(bounds, offset);
            let head = seq![clip_push_of(bounds), DrawOpData::SetTransform { transform: ct }];
            let inner = ops_of(*content, ct, scale);
            let tail = seq![DrawOpData::SetTransform { transform: t }, DrawOpData::PopClip];
            let pushed = clips.push((bounds.x as int, bounds.y as int, bounds.x + bounds.width, bounds.y + bounds.height));
            lemma_replay_append(s, head + inner, tail);
            lemma_replay_append(s, head, inner);
            assert(head.drop_last() =~= seq![clip_push_of(bounds)]);
            assert(seq![clip_push_of(bounds)].drop_last() =~= Seq::<DrawOpData>::empty());
            assert(replay(s, Seq::<DrawOpData>::empty()) == s);
            assert(replay(s, seq![clip_push_of(bounds)]) == DrawState { transform: t, clips: pushed });
            assert(replay(s, head) == DrawState { transform: ct, clips: pushed });
            lemma_subtree_restores_state(*content, ct, scale, pushed);
            assert(tail.drop_last() =~= seq![DrawOpData::SetTransform { transform: t }]);
            assert(seq![DrawOpData::SetTransform { transform: t }].drop_last() =~= Seq::<DrawOpData>::empty());
            assert(pushed.drop_last() =~= clips);
            let mid = DrawState { transform: ct, clips: pushed };
            assert(replay(s, head + inner) == mid);
            assert(replay(mid, Seq::<DrawOpData>::empty()) == mid);
            assert(replay(mid, seq![DrawOpData::SetTransform { transform: t }]) == DrawState { transform: t, clips: pushed });
            assert(replay(mid, tail) == s);
            assert(ops_of(p, t, scale) == head + inner + tail);
            assert(replay(s, ops_of(p, t, scale)) == s);
        },
        Primitive::Translate { translation, content } => {
            let nt = shifted(t, translation.x as int, translation.y as int);
            let head = seq![DrawOpData::SetTransform { transform: nt }];
            let inner = ops_of(*content, nt, scale);
            let tail = seq![DrawOpData::SetTransform { transform: t }];
            lemma_replay_append(s, head + inner, tail);
            lemma_replay_append(s, head, inner);
            assert(head.drop_last() =~= Seq::<DrawOpData>::empty());
            lemma_subtree_restores_state(*content, nt, scale, clips);
            assert(tail.drop_last() =~= Seq::<DrawOpData>::empty());
            let mid = DrawState { transform: nt, clips };
            assert(replay(s, Seq::<DrawOpData>::empty()) == s);
            assert(replay(s, head) == mid);
            assert(replay(s, head + inner) == mid);
            assert(replay(mid, Seq::<DrawOpData>::empty()) == mid);
            assert(replay(mid, tail) == s);
            assert(ops_of(p, t, scale) == head + inner + tail);
            assert(replay(s, ops_of(p, t, scale)) == s);
        },
        Primitive::Cached { cache } => {
            lemma_subtree_restores_state(*cache, t, scale, clips);
        },
        _ => {
            assert(ops_of(p, t, scale) =~= Seq::<DrawOpData>::empty());
            assert(replay(s, Seq::<DrawOpData>::empty()) == s);
        },
    }
}

/// In a group, each child starts from the state that the group started from:
/// siblings never see each other's clips or translations.
pub proof fn lemma_children_restore_state(
    g: Primitive,
    n: int,
    t: Translation,
    scale: u16,
    clips: Seq<(int, int, int, int)>,
)
    ensures
        replay(DrawState { transform: t, clips }, ops_of_children(g, n, t, scale)) == (DrawState {
            transform: t,
            clips,
        }),
    decreases g, n,
{
    match g {
        Primitive::Group { primitives } => {
            if 0 < n <= primitives@.len() {
                let s = DrawState { transform: t, clips };
                lemma_children_restore_state(g, n - 1, t, scale, clips);
                lemma_replay_append(s, ops_of_children(g, n - 1, t, scale), ops_of(primitives@[n - 1], t, scale));
                lemma_subtree_restores_state(primitives@[n - 1], t, scale, clips);
            }
        },
        _ => {},
    }
}

/// `t` shifted by `(x, y)`, clamped to the range of `i64`.
pub fn shift(t: Translation, x: i32, y: i32) -> (r: Translation)
    ensures
        r == shifted(t, x as int, y as int),
{
    let dx: i128 = t.dx as i128 + x as i128;
    let dy: i128 = t.dy as i128 + y as i128;
    let cdx: i64 = if dx > i64::MAX as i128 {
        i64::MAX
    } else if dx < i64::MIN as i128 {
        i64::MIN
    } else {
        dx as i64
    };
    let cdy: i64 = if dy > i64::MAX as i128 {
        i64::MAX
    } else if dy < i64::MIN as i128 {
        i64::MIN
    } else {
        dy as i64
    };
    Translation { dx: cdx, dy: cdy }
}

fn scaled(v: i64, scale: u16) -> (r: i64)
    requires
        -0x2_0000_0000 <= v <= 0x2_0000_0000,
    ensures
        r == v * scale,
{
    proof {
        assert(-0x2_0000_0000 * 0x10000 <= v * scale <= 0x2_0000_0000 * 0x10000) by (nonlinear_arith)
            requires
                -0x2_0000_0000 <= v <= 0x2_0000_0000,
                0 <= scale <= 0xffff,
        ;
    }
    v * scale as i64
}

fn copy_bytes(b: &Vec<u8>) -> (r: Vec<u8>)
    ensures
        r@ == b@,
{
    let mut r: Vec<u8> = Vec::with_capacity(b.len());
    let mut i: usize = 0;
    while i < b.len()
        invariant
            i <= b@.len(),
            r@ == b@.subrange(0, i as int),
        decreases b@.len() - i,
    {
        r.push(b[i]);
        i = i + 1;
        assert(r@ =~= b@.subrange(0, i as int));
    }
    assert(b@.subrange(0, b@.len() as int) =~= b@);
    r
}

/// A copy of a font reference.
pub fn copy_font(f: &Font) -> (r: Font)
    ensures
        r@ == f@,
{
    match f {
        Font::Default => Font::Default,
        Font::External { name, bytes } => Font::External { name: name.clone(), bytes: copy_bytes(bytes) },
    }
}

fn push_op(ops: &mut Vec<DrawOp>, op: DrawOp)
    ensures
        op_views(final(ops)@) == op_views(old(ops)@).push(op@),
{
    let ghost before = ops@;
    let ghost v = op@;
    ops.push(op);
    assert(op_views(ops@) =~= op_views(before).push(v));
}

/// Appends the operations that drawing `p` under transform `t` performs, with
/// text scaled by `scale` (in 1/64).
pub fn emit(p: &Primitive, t: Translation, scale: u16, ops: &mut Vec<DrawOp>)
    ensures
        op_views(final(ops)@) == op_views(old(ops)@) + ops_of(*p, t, scale),
    decreases p, fan_out(*p),
{
    let ghost start = op_views(ops@);
    match p {
        Primitive::Group { primitives } => {
            let mut i: usize = 0;
            assert(start + ops_of_children(*p, 0, t, scale) =~= start);
            while i < primitives.len()
                invariant
                    i <= primitives@.len(),
                    *p == (Primitive::Group { primitives: *primitives }),
                    op_views(ops@) == start + ops_of_children(*p, i as int, t, scale),
                decreases primitives@.len() - i,
            {
                let ghost before = op_views(ops@);
                assert(decreases_to!(*primitives => primitives@[i as int]));
                emit(&primitives[i], t, scale, ops);
                i = i + 1;
                assert(op_views(ops@) =~= start + ops_of_children(*p, i as int, t, scale));
            }
        },
        Primitive::Text {
            content,
            bounds,
            color,
            size,
            font,
            horizontal_alignment,
            vertical_alignment,
        } => {
            let run = TextRun {
                content: content.clone(),
                x: scaled(bounds.x as i64, scale),
                y: scaled(bounds.y as i64, scale),
                max_width: scaled(bounds.x as i64 + bounds.width as i64, scale),
                max_height: scaled(bounds.y as i64 + bounds.height as i64, scale),
                size: scaled(*size as i64, scale) as u64,
                color: *color,
                font: copy_font(font),
                horizontal_alignment: *horizontal_alignment,
                vertical_alignment: *vertical_alignment,
            };
            push_op(ops, DrawOp::Text { run });
            assert(op_views(ops@) =~= start + ops_of(*p, t, scale));
        },
        Primitive::Quad { bounds, background, border_radius, border_width, border_color } => {
            let r = *border_radius as i64;
            let w = *border_width as i64;
            let x = bounds.x as i64;
            let y = bounds.y as i64;
            let xmax = x + bounds.width as i64;
            let ymax = y + bounds.height as i64;
            let outer = rect_path(r, x, y, xmax, ymax);
            push_op(ops, DrawOp::Fill { path: outer, color: solid_source(*border_color) });
            let inner = rect_path(r, x + w, y + w, xmax - w, ymax - w);
            push_op(ops, DrawOp::Fill { path: inner, color: solid_source(*background) });
            assert(op_views(ops@) =~= start + ops_of(*p, t, scale));
        },
        Primitive::Clip { bounds, offset, content } => {
            push_op(
                ops,
                DrawOp::PushClip {
                    x0: bounds.x as i64,
                    y0: bounds.y as i64,
                    x1: bounds.x as i64 + bounds.width as i64,
                    y1: bounds.y as i64 + bounds.height as i64,
                },
            );
            let ct = Translation {
                dx: bounds.x as i64 + offset.x as i64,
                dy: bounds.y as i64 + offset.y as i64,
            };
            push_op(ops, DrawOp::SetTransform { transform: ct });
            emit(content, ct, scale, ops);
            push_op(ops, DrawOp::SetTransform { transform: t });
            push_op(ops, DrawOp::PopClip);
            assert(op_views(ops@) =~= start + ops_of(*p, t, scale));
        },
        Primitive::Translate { translation, content } => {
            let nt = shift(t, translation.x, translation.y);
            push_op(ops, DrawOp::SetTransform { transform: nt });
            emit(content, nt, scale, ops);
            push_op(ops, DrawOp::SetTransform { transform: t });
            assert(op_views(ops@) =~= start + ops_of(*p, t, scale));
        },
        Primitive::Cached { cache } => {
            emit(cache, t, scale, ops);
        },
        _ => {
            assert(op_views(ops@) =~= start + ops_of(*p, t, scale));
        },
    }
}

} // verus!
