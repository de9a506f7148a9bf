use vstd::prelude::*;
use crate::animation::{Animation, frame_due};
use crate::batch::{Batch, DrawChunk, is_flush_of, point_vertex, quad_vertices, quad_vertices_at, refreshed};
use crate::text::{glyph_matches, text_glyphs, text_layout, upper_of};
use crate::texture_batch::TextureBatch;
use crate::vertex::{Color, Vertex};

verus! {

/// Drawing options shared by every shape call.
pub struct Options {
    pub use_pixel_space: bool,
    pub window_width: i32,
    pub window_height: i32,
}

impl Options {
    /// Pixel coordinates, on a window of the given size.
    pub fn new(window_width: i32, window_height: i32) -> (r: Self)
        ensures
            r.use_pixel_space,
            r.window_width == window_width,
            r.window_height == window_height,
    {
        Options { use_pixel_space: true, window_width, window_height }
    }
}

/// Opaque white, the tint of textured quads.
pub open spec fn white() -> Color {
    Color { r: 255, g: 255, b: 255 }
}

/// The four vertices of the triangle `a, b, c`: a flat-filled quad whose
/// fourth corner repeats the first.
pub open spec fn triangle_vertices(
    ax: int,
    ay: int,
    bx: int,
    by: int,
    cx: int,
    cy: int,
    color: Color,
    pixel_space: bool,
    w: i32,
    h: i32,
) -> Seq<Vertex> {
    seq![
        point_vertex(ax, ay, color, 0, pixel_space, 0, w, h, 0, 1),
        point_vertex(bx, by, color, 0, pixel_space, 0, w, h, 1, 1),
        point_vertex(cx, cy, color, 0, pixel_space, 0, w, h, 1, 0),
        point_vertex(ax, ay, color, 0, pixel_space, 0, w, h, 0, 0),
    ]
}

/// Triangle `m` of a triangulation: its three corner numbers are in range
/// of the points given as interleaved `x, y` pairs.
pub open spec fn triangle_in_range(points: Seq<i32>, triangles: Seq<usize>, m: int) -> bool {
    &&& 3 * m + 2 < triangles.len()
    &&& triangles[3 * m] < points.len() / 2
    &&& triangles[3 * m + 1] < points.len() / 2
    &&& triangles[3 * m + 2] < points.len() / 2
}

/// The vertices that the first `m` triangles of a triangulation lower to:
/// each triangle in range becomes one triangle of its three corners, each
/// one out of range is left out.
pub open spec fn polygon_vertices(
    points: Seq<i32>,
    triangles: Seq<usize>,
    m: int,
    color: Color,
    pixel_space: bool,
    w: i32,
    h: i32,
) -> Seq<Vertex>
    decreases m,
{
    if m <= 0 {
        Seq::empty()
    } else {
        let rest = polygon_vertices(points, triangles, m - 1, color, pixel_space, w, h);
        if triangle_in_range(points, triangles, m - 1) {
            let a = triangles[3 * (m - 1)] as int;
            let b = triangles[3 * (m - 1) + 1] as int;
            let c = triangles[3 * (m - 1) + 2] as int;
            rest + triangle_vertices(
                points[2 * a] as int,
                points[2 * a + 1] as int,
                points[2 * b] as int,
                points[2 * b + 1] as int,
                points[2 * c] as int,
                points[2 * c + 1] as int,
                color,
                pixel_space,
                w,
                h,
            )
        } else {
            rest
        }
    }
}

/// Some texture batch of `textures` is identified by `path`.
pub open spec fn has_texture(textures: Seq<TextureBatch>, path: Seq<char>) -> bool {
    exists|i: int| 0 <= i < textures.len() && (#[trigger] textures[i]).path_view() == path
}

/// What a texture quad for `path` does to the texture batches: afterwards one
/// batch has that path; a batch is added only where none had it before, and
/// every batch that was there keeps its place and its path.
pub open spec fn texture_step(before: App, after: App, path: Seq<char>) -> bool {
    &&& after.wf()
    &&& has_texture(after.textures(), path)
    &&& after.textures().len() == before.textures().len() + if has_texture(before.textures(), path) {
        0int
    } else {
        1int
    }
    &&& forall|i: int|
        0 <= i < before.textures().len() ==> (#[trigger] after.textures()[i]).path_view()
            == before.textures()[i].path_view()
}

/// `t` is a texture batch just registered for `path`, on a window of `w` by
/// `h` pixels.
pub open spec fn fresh_texture(t: TextureBatch, path: Seq<char>, w: i32, h: i32) -> bool {
    &&& t.wf()
    &&& t.path_view() == path
    &&& t.content().vertices() == Seq::<Vertex>::empty()
    &&& t.content().surface_width() == w
    &&& t.content().surface_height() == h
}

/// `after` is `before` with one white, flat quad more, its top-left corner at
/// `(px, py)`.
pub open spec fn textured_quad_added(
    after: TextureBatch,
    before: TextureBatch,
    px: int,
    py: int,
    width: i32,
    height: i32,
    pixel_space: bool,
) -> bool {
    &&& after.wf()
    &&& after.path_view() == before.path_view()
    &&& after.content().vertices() == before.content().vertices() + quad_vertices_at(
        px,
        py,
        width,
        height,
        white(),
        0,
        pixel_space,
        0,
        before.content().surface_width(),
        before.content().surface_height(),
    )
    &&& after.content().surface_width() == before.content().surface_width()
    &&& after.content().surface_height() == before.content().surface_height()
}

/// What a texture quad for `path` at `(px, py)` does to the texture batches
/// `before`, on a window of `w` by `h` pixels: where a batch has the path,
/// the quad is queued there and every other batch stays as it was; where
/// none has, a batch for the path is added last, holding just the quad.
pub open spec fn texture_quad_done(
    before: Seq<TextureBatch>,
    after: Seq<TextureBatch>,
    path: Seq<char>,
    px: int,
    py: int,
    width: i32,
    height: i32,
    pixel_space: bool,
    w: i32,
    h: i32,
) -> bool {
    &&& has_texture(before, path) ==> {
        &&& after.len() == before.len()
        &&& forall|i: int|
            0 <= i < before.len() ==> if before[i].path_view() == path {
                textured_quad_added(#[trigger] after[i], before[i], px, py, width, height, pixel_space)
            } else {
                after[i] == before[i]
            }
    }
    &&& !has_texture(before, path) ==> {
        &&& after.len() == before.len() + 1
        &&& after.drop_last() == before
        &&& after.last().wf()
        &&& after.last().path_view() == path
        &&& after.last().content().vertices() == quad_vertices_at(
            px,
            py,
            width,
            height,
            white(),
            0,
            pixel_space,
            0,
            w,
            h,
        )
        &&& after.last().content().surface_width() == w
        &&& after.last().content().surface_height() == h
    }
}

/// `after` is `before` flushed against a draw target of `fw` by `fh` pixels.
pub open spec fn flushed(after: Batch, before: Batch, fw: u32, fh: u32) -> bool {
    &&& after.wf()
    &&& after.vertices() == Seq::<Vertex>::empty()
    &&& after.surface_width() == refreshed(before.surface_width(), fw)
    &&& after.surface_height() == refreshed(before.surface_height(), fh)
}

/// `after` is texture batch `before` flushed against a draw target of `fw` by
/// `fh` pixels, and `chunks` is what that flush submitted.
pub open spec fn texture_flushed(
    after: TextureBatch,
    before: TextureBatch,
    chunks: Seq<DrawChunk>,
    fw: u32,
    fh: u32,
) -> bool {
    &&& flushed(after.content(), before.content(), fw, fh)
    &&& after.path_view() == before.path_view()
    &&& is_flush_of(chunks, before.content())
}

/// A path names one texture batch: two texture quads with the same path leave
/// exactly one batch with that path, made by the first call if by either; two
/// with different paths leave two distinct batches, one for each.
pub proof fn lemma_texture_identity(a0: App, a1: App, a2: App, p: Seq<char>, q: Seq<char>)
    requires
        a0.wf(),
        texture_step(a0, a1, p),
        texture_step(a1, a2, q),
    ensures
        p == q ==> a2.textures().len() == a1.textures().len(),
        p == q ==> a2.textures().len() <= a0.textures().len() + 1,
        forall|i: int, j: int|
            0 <= i < a2.textures().len() && 0 <= j < a2.textures().len() && (#[trigger] a2.textures()[i]).path_view() == p
                && (#[trigger] a2.textures()[j]).path_view() == p ==> i == j,
        p != q ==> exists|i: int, j: int|
            0 <= i < a2.textures().len() && 0 <= j < a2.textures().len() && i != j && (#[trigger] a2.textures()[i]).path_view() == p
                && (#[trigger] a2.textures()[j]).path_view() == q,
{
    let i = choose|i: int| 0 <= i < a1.textures().len() && (#[trigger] a1.textures()[i]).path_view() == p;
    assert(a2.textures()[i].path_view() == p);
    assert(has_texture(a2.textures(), p));
    if p != q {
        let j = choose|j: int| 0 <= j < a2.textures().len() && (#[trigger] a2.textures()[j]).path_view() == q;
        assert(i != j);
    }
}

/// Animation `i` is the first of `animations` named `name`.
pub open spec fn first_named(animations: Seq<Animation>, name: Seq<char>, i: int) -> bool {
    &&& 0 <= i < animations.len()
    &&& animations[i].name_view() == name
    &&& forall|k: int| 0 <= k < i ==> (#[trigger] animations[k]).name_view() != name
}

/// Some animation of `animations` is named `name`.
pub open spec fn has_animation(animations: Seq<Animation>, name: Seq<char>) -> bool {
    exists|i: int| 0 <= i < animations.len() && (#[trigger] animations[i]).name_view() == name
}

/// The quads that the first `n` glyphs of `layout` queue into the texture
/// batch of `path`, on a surface of `w` by `h` pixels, in order: one white,
/// flat square of side `size` per glyph showing that image.
pub open spec fn glyph_quads(
    layout: Seq<(int, int, Seq<char>)>,
    n: int,
    path: Seq<char>,
    size: i32,
    pixel_space: bool,
    w: i32,
    h: i32,
) -> Seq<Vertex>
    decreases n,
{
    if n <= 0 {
        Seq::empty()
    } else {
        let rest = glyph_quads(layout, n - 1, path, size, pixel_space, w, h);
        if layout[n - 1].2 == path {
            rest + quad_vertices_at(layout[n - 1].0, layout[n - 1].1, size, size, white(), 0, pixel_space, 0, w, h)
        } else {
            rest
        }
    }
}

proof fn lemma_glyph_quads_unused(
    layout: Seq<(int, int, Seq<char>)>,
    n: int,
    path: Seq<char>,
    size: i32,
    pixel_space: bool,
    w: i32,
    h: i32,
)
    requires
        forall|j: int| 0 <= j < n ==> (#[trigger] layout[j]).2 != path,
    ensures
        glyph_quads(layout, n, path, size, pixel_space, w, h) == Seq::<Vertex>::empty(),
    decreases n,
{
    if n > 0 {
        lemma_glyph_quads_unused(layout, n - 1, path, size, pixel_space, w, h);
    }
}

/// After the first `n` glyphs of `layout`, texture batch `t` is batch `b`
/// that was there before, with the quads of those glyphs that use its path.
pub open spec fn kept_with_glyphs(
    t: TextureBatch,
    b: TextureBatch,
    layout: Seq<(int, int, Seq<char>)>,
    n: int,
    size: i32,
    pixel_space: bool,
) -> bool {
    &&& t.wf()
    &&& t.path_view() == b.path_view()
    &&& t.content().surface_width() == b.content().surface_width()
    &&& t.content().surface_height() == b.content().surface_height()
    &&& t.content().vertices() == b.content().vertices() + glyph_quads(
        layout,
        n,
        b.path_view(),
        size,
        pixel_space,
        b.content().surface_width(),
        b.content().surface_height(),
    )
}

/// After the first `n` glyphs of `layout`, texture batch `t` is one that
/// they registered, on a window of `w` by `h` pixels, holding the quads of
/// those glyphs that use its path.
pub open spec fn made_for_glyphs(
    t: TextureBatch,
    layout: Seq<(int, int, Seq<char>)>,
    n: int,
    size: i32,
    pixel_space: bool,
    w: i32,
    h: i32,
) -> bool {
    &&& t.wf()
    &&& t.content().surface_width() == w
    &&& t.content().surface_height() == h
    &&& t.content().vertices() == glyph_quads(layout, n, t.path_view(), size, pixel_space, w, h)
}

/// What one frame submits: the chunks of the shape batch, then those of each
/// texture batch in the order the textures were registered.
pub struct FrameSubmission {
    pub batch: Vec<DrawChunk>,
    pub textures: Vec<Vec<DrawChunk>>,
}

/// The drawing state of one window: its options, the batch of flat shapes,
/// and one batch per texture, kept in registration order.
pub struct App {
    options: Options,
    batch: Batch,
    texture_batches: Vec<TextureBatch>,
    animations: Vec<Animation>,
}

impl App {
    pub closed spec fn use_pixel_space(&self) -> bool {
        self.options.use_pixel_space
    }

    pub closed spec fn window_width(&self) -> i32 {
        self.options.window_width
    }

    pub closed spec fn window_height(&self) -> i32 {
        self.options.window_height
    }

    /// The batch of flat shapes.
    pub closed spec fn shapes(&self) -> Batch {
        self.batch
    }

    /// The texture batches, in registration order.
    pub closed spec fn textures(&self) -> Seq<TextureBatch> {
        self.texture_batches@
    }

    /// The animations, in the order they were added.
    pub closed spec fn animations(&self) -> Seq<Animation> {
        self.animations@
    }

    /// The window is not empty, every batch is well formed, and no two
    /// texture batches share a path.
    pub open spec fn wf(&self) -> bool {
        &&& 0 < self.window_width()
        &&& 0 < self.window_height()
        &&& self.shapes().wf()
        &&& forall|i: int| 0 <= i < self.textures().len() ==> (#[trigger] self.textures()[i]).wf()
        &&& forall|i: int, j: int|
            0 <= i < j < self.textures().len() ==> (#[trigger] self.textures()[i]).path_view()
                != (#[trigger] self.textures()[j]).path_view()
    }

    proof fn lemma_same_textures(before: &App, after: &App)
        requires
            before.wf(),
            after.textures() == before.textures(),
            after.shapes().wf(),
            0 < after.window_width(),
            0 < after.window_height(),
        ensures
            after.wf(),
    {
        assert(forall|i: int| 0 <= i < after.textures().len() ==> after.textures()[i] == before.textures()[i]);
    }

    /// A window of `window_width` by `window_height` pixels, drawn in pixel
    /// coordinates, with nothing queued and no texture registered.
    pub fn new(window_width: u32, window_height: u32) -> (r: Self)
        requires
            0 < window_width <= i32::MAX,
            0 < window_height <= i32::MAX,
        ensures
            r.wf(),
            r.use_pixel_space(),
            r.window_width() == window_width,
            r.window_height() == window_height,
            r.shapes().vertices() == Seq::<Vertex>::empty(),
            r.shapes().surface_width() == window_width,
            r.shapes().surface_height() == window_height,
            r.textures() == Seq::<TextureBatch>::empty(),
            r.animations() == Seq::<Animation>::empty(),
    {
        let w = window_width as i32;
        let h = window_height as i32;
        App {
            options: Options::new(w, h),
            batch: Batch::new(w, h),
            texture_batches: Vec::new(),
            animations: Vec::new(),
        }
    }

    /// Chooses between pixel coordinates (`true`) and normalized ones.
    pub fn use_pixel_coords(&mut self, param: bool)
        requires
            old(self).wf(),
        ensures
            final(self).wf(),
            final(self).use_pixel_space() == param,
            final(self).window_width() == old(self).window_width(),
            final(self).window_height() == old(self).window_height(),
            final(self).shapes() == old(self).shapes(),
            final(self).textures() == old(self).textures(),
            final(self).animations() == old(self).animations(),
    {
        self.options.use_pixel_space = param;
        proof {
            Self::lemma_same_textures(old(self), self);
        }
    }

    /// The window size in pixels.
    pub fn get_dims(&self) -> (r: [u32; 2])
        requires
            self.wf(),
        ensures
            r[0] == self.window_width(),
            r[1] == self.window_height(),
    {
        [self.options.window_width as u32, self.options.window_height as u32]
    }

    /// The batch of flat shapes.
    pub fn batch(&self) -> (r: &Batch)
        ensures
            *r == self.shapes(),
    {
        &self.batch
    }

    /// The texture batches, in registration order.
    pub fn texture_batches(&self) -> (r: &Vec<TextureBatch>)
        ensures
            r@ == self.textures(),
    {
        &self.texture_batches
    }

    /// Whether positions are taken in pixels.
    pub fn uses_pixel_coords(&self) -> (r: bool)
        ensures
            r == self.use_pixel_space(),
    {
        self.options.use_pixel_space
    }

    /// Queues a flat-filled axis-aligned quad of the shape batch.
    fn shape_quad(&mut self, position: [i32; 2], width: i32, height: i32, color: Color, style: i32, variator: i32)
        requires
            old(self).wf(),
        ensures
            final(self).wf(),
            final(self).shapes().vertices() == old(self).shapes().vertices() + quad_vertices(
                position,
                width,
                height,
                color,
                style,
                old(self).use_pixel_space(),
                variator,
                old(self).shapes().surface_width(),
                old(self).shapes().surface_height(),
            ),
            final(self).shapes().surface_width() == old(self).shapes().surface_width(),
            final(self).shapes().surface_height() == old(self).shapes().surface_height(),
            final(self).use_pixel_space() == old(self).use_pixel_space(),
            final(self).window_width() == old(self).window_width(),
            final(self).window_height() == old(self).window_height(),
            final(self).textures() == old(self).textures(),
            final(self).animations() == old(self).animations(),
    {
        self.batch.add_quad(position, width, height, color, style, self.options.use_pixel_space, variator);
        proof {
            Self::lemma_same_textures(old(self), self);
        }
    }

    /// Queues the flat-filled triangle `p1, p2, p3`.
    pub fn triangle(&mut self, p1: [i32; 2], p2: [i32; 2], p3: [i32; 2], color: Color)
        requires
            old(self).wf(),
        ensures
            final(self).wf(),
            final(self).shapes().vertices() == old(self).shapes().vertices() + triangle_vertices(
                p1[0] as int,
                p1[1] as int,
                p2[0] as int,
                p2[1] as int,
                p3[0] as int,
                p3[1] as int,
                color,
                old(self).use_pixel_space(),
                old(self).shapes().surface_width(),
                old(self).shapes().surface_height(),
            ),
            final(self).shapes().surface_width() == old(self).shapes().surface_width(),
            final(self).shapes().surface_height() == old(self).shapes().surface_height(),
            final(self).use_pixel_space() == old(self).use_pixel_space(),
            final(self).window_width() == old(self).window_width(),
            final(self).window_height() == old(self).window_height(),
            final(self).textures() == old(self).textures(),
            final(self).animations() == old(self).animations(),
    {
        self.batch.raw_quad(p1, p2, p3, p1, color, 0, self.options.use_pixel_space, 0);
        proof {
            Self::lemma_same_textures(old(self), self);
            assert(self.batch.vertices() =~= old(self).shapes().vertices() + triangle_vertices(
                p1[0] as int,
                p1[1] as int,
                p2[0] as int,
                p2[1] as int,
                p3[0] as int,
                p3[1] as int,
                color,
                old(self).use_pixel_space(),
                old(self).shapes().surface_width(),
                old(self).shapes().surface_height(),
            ));
        }
    }
    /// Queues a flat-filled rectangle with its top-left corner at `position`.
    pub fn rect(&mut self, position: [i32; 2], width: i32, height: i32, color: Color)
        requires
            old(self).wf(),
        ensures
            final(self).wf(),
            final(self).shapes().vertices() == old(self).shapes().vertices() + quad_vertices(
                position,
                width,
                height,
                color,
                0,
                old(self).use_pixel_space(),
                0,
                old(self).shapes().surface_width(),
                old(self).shapes().surface_height(),
            ),
            final(self).shapes().surface_width() == old(self).shapes().surface_width(),
            final(self).shapes().surface_height() == old(self).shapes().surface_height(),
            final(self).use_pixel_space() == old(self).use_pixel_space(),
            final(self).window_width() == old(self).window_width(),
            final(self).window_height() == old(self).window_height(),
            final(self).textures() == old(self).textures(),
            final(self).animations() == old(self).animations(),
    {
        self.shape_quad(position, width, height, color, 0, 0);
    }

    /// Queues a circle: one circle-masked quad whose top-left corner is
    /// `radius` up and left of the center, `2 * radius` on each side.
    pub fn circle(&mut self, position: [i32; 2], radius: i32, color: Color)
        requires
            old(self).wf(),
            i32::MIN <= position[0] - radius <= i32::MAX,
            i32::MIN <= position[1] - radius <= i32::MAX,
            2 * radius <= i32::MAX,
            i32::MIN <= 2 * radius,
        ensures
            final(self).wf(),
            final(self).shapes().vertices() == old(self).shapes().vertices() + quad_vertices(
                [(position[0] - radius) as i32, (position[1] - radius) as i32],
                (2 * radius) as i32,
                (2 * radius) as i32,
                color,
                1,
                old(self).use_pixel_space(),
                0,
                old(self).shapes().surface_width(),
                old(self).shapes().surface_height(),
            ),
            final(self).shapes().surface_width() == old(self).shapes().surface_width(),
            final(self).shapes().surface_height() == old(self).shapes().surface_height(),
            final(self).use_pixel_space() == old(self).use_pixel_space(),
            final(self).window_width() == old(self).window_width(),
            final(self).window_height() == old(self).window_height(),
            final(self).textures() == old(self).textures(),
            final(self).animations() == old(self).animations(),
    {
        self.shape_quad([position[0] - radius, position[1] - radius], radius * 2, radius * 2, color, 1, 0);
        proof {
            assert(radius * 2 == 2 * radius);
        }
    }

    /// Queues a flat-filled square with its top-left corner at `position`.
    pub fn square(&mut self, position: [i32; 2], size: i32, color: Color)
        requires
            old(self).wf(),
        ensures
            final(self).wf(),
            final(self).shapes().vertices() == old(self).shapes().vertices() + quad_vertices(
                position,
                size,
                size,
                color,
                0,
                old(self).use_pixel_space(),
                0,
                old(self).shapes().surface_width(),
                old(self).shapes().surface_height(),
            ),
            final(self).shapes().surface_width() == old(self).shapes().surface_width(),
            final(self).shapes().surface_height() == old(self).shapes().surface_height(),
            final(self).use_pixel_space() == old(self).use_pixel_space(),
            final(self).window_width() == old(self).window_width(),
            final(self).window_height() == old(self).window_height(),
            final(self).textures() == old(self).textures(),
            final(self).animations() == old(self).animations(),
    {
        self.shape_quad(position, size, size, color, 0, 0);
    }

    /// Queues a line from `p1` to `p2`: one banded quad spanning the box
    /// between them, whose band is `width` thousandths wide.
    pub fn line(&mut self, p1: [i32; 2], p2: [i32; 2], width: i32, color: Color)
        requires
            old(self).wf(),
            i32::MIN <= p2[0] - p1[0] <= i32::MAX,
            i32::MIN <= p2[1] - p1[1] <= i32::MAX,
        ensures
            final(self).wf(),
            final(self).shapes().vertices() == old(self).shapes().vertices() + quad_vertices(
                p1,
                (p2[0] - p1[0]) as i32,
                (p2[1] - p1[1]) as i32,
                color,
                2,
                old(self).use_pixel_space(),
                width,
                old(self).shapes().surface_width(),
                old(self).shapes().surface_height(),
            ),
            final(self).shapes().surface_width() == old(self).shapes().surface_width(),
            final(self).shapes().surface_height() == old(self).shapes().surface_height(),
            final(self).use_pixel_space() == old(self).use_pixel_space(),
            final(self).window_width() == old(self).window_width(),
            final(self).window_height() == old(self).window_height(),
            final(self).textures() == old(self).textures(),
            final(self).animations() == old(self).animations(),
    {
        self.shape_quad(p1, p2[0] - p1[0], p2[1] - p1[1], color, 2, width);
    }

    /// Queues a polygon given as interleaved `x, y` pairs, with the
    /// triangulation `triangles` of it (three point numbers per triangle):
    /// each triangle is queued on its own, as `triangle` does, so that shared
    /// corners are repeated. A triangle that names a point out of range, and
    /// a trailing incomplete one, are left out.
    pub fn polygon(&mut self, points: Vec<i32>, triangles: Vec<usize>, color: Color)
        requires
            old(self).wf(),
        ensures
            final(self).wf(),
            final(self).shapes().vertices() == old(self).shapes().vertices() + polygon_vertices(
                points@,
                triangles@,
                triangles@.len() as int / 3,
                color,
                old(self).use_pixel_space(),
                old(self).shapes().surface_width(),
                old(self).shapes().surface_height(),
            ),
            final(self).shapes().surface_width() == old(self).shapes().surface_width(),
            final(self).shapes().surface_height() == old(self).shapes().surface_height(),
            final(self).use_pixel_space() == old(self).use_pixel_space(),
            final(self).window_width() == old(self).window_width(),
            final(self).window_height() == old(self).window_height(),
            final(self).textures() == old(self).textures(),
            final(self).animations() == old(self).animations(),
    {
        let pairs = points.len() / 2;
        let count = triangles.len() / 3;
        let mut m: usize = 0;
        while m < count
            invariant
                self.wf(),
                pairs == points.len() / 2,
                count == triangles.len() / 3,
                m <= count,
                self.shapes().vertices() == old(self).shapes().vertices() + polygon_vertices(
                    points@,
                    triangles@,
                    m as int,
                    color,
                    old(self).use_pixel_space(),
                    old(self).shapes().surface_width(),
                    old(self).shapes().surface_height(),
                ),
                self.shapes().surface_width() == old(self).shapes().surface_width(),
                self.shapes().surface_height() == old(self).shapes().surface_height(),
                self.use_pixel_space() == old(self).use_pixel_space(),
                self.window_width() == old(self).window_width(),
                self.window_height() == old(self).window_height(),
                self.textures() == old(self).textures(),
                self.animations() == old(self).animations(),
            decreases count - m,
        {
            let a = triangles[3 * m];
            let b = triangles[3 * m + 1];
            let c = triangles[3 * m + 2];
            if a < pairs && b < pairs && c < pairs {
                self.triangle(
                    [points[2 * a], points[2 * a + 1]],
                    [points[2 * b], points[2 * b + 1]],
                    [points[2 * c], points[2 * c + 1]],
                    color,
                );
                proof {
                    assert(self.shapes().vertices() =~= old(self).shapes().vertices() + polygon_vertices(
                        points@,
                        triangles@,
                        m + 1,
                        color,
                        old(self).use_pixel_space(),
                        old(self).shapes().surface_width(),
                        old(self).shapes().surface_height(),
                    ));
                }
            }
            m = m + 1;
        }
    }
    /// The position of the texture batch identified by `path`, if any.
    fn find_texture(&self, path: &String) -> (r: Option<usize>)
        requires
            self.wf(),
        ensures
            match r {
                Some(i) => i < self.textures().len() && self.textures()[i as int].path_view() == path@,
                None => !has_texture(self.textures(), path@),
            },
    {
        let mut i: usize = 0;
        while i < self.texture_batches.len()
            invariant
                i <= self.texture_batches.len(),
                forall|k: int| 0 <= k < i ==> (#[trigger] self.textures()[k]).path_view() != path@,
            decreases self.texture_batches.len() - i,
        {
            if self.texture_batches[i].path().eq(path) {
                return Some(i);
            }
            i = i + 1;
        }
        None
    }

    /// Registers a texture batch for `path`, which no batch has yet, and
    /// returns its position.
    fn register_texture(&mut self, path: String) -> (r: usize)
        requires
            old(self).wf(),
            !has_texture(old(self).textures(), path@),
        ensures
            final(self).wf(),
            r == old(self).textures().len(),
            final(self).textures().len() == old(self).textures().len() + 1,
            final(self).textures().drop_last() == old(self).textures(),
            fresh_texture(final(self).textures().last(), path@, old(self).window_width(), old(self).window_height()),
            final(self).shapes() == old(self).shapes(),
            final(self).animations() == old(self).animations(),
            final(self).use_pixel_space() == old(self).use_pixel_space(),
            final(self).window_width() == old(self).window_width(),
            final(self).window_height() == old(self).window_height(),
    {
        let r = self.texture_batches.len();
        let t = TextureBatch::new(self.options.window_width, self.options.window_height, path);
        self.texture_batches.push(t);
        proof {
            assert(self.textures().drop_last() =~= old(self).textures());
            assert forall|i: int, j: int|
                0 <= i < j < self.textures().len() implies (#[trigger] self.textures()[i]).path_view()
                != (#[trigger] self.textures()[j]).path_view() by {
                if j == r {
                    assert(self.textures()[i] == old(self).textures()[i]);
                } else {
                    assert(self.textures()[i] == old(self).textures()[i]);
                    assert(self.textures()[j] == old(self).textures()[j]);
                }
            }
            assert forall|i: int| 0 <= i < self.textures().len() implies (#[trigger] self.textures()[i]).wf() by {
                if i < r {
                    assert(self.textures()[i] == old(self).textures()[i]);
                }
            }
        }
        r
    }

    /// Queues a white, flat quad into texture batch `i`.
    fn quad_into_texture(&mut self, i: usize, position: [i32; 2], width: i32, height: i32)
        requires
            old(self).wf(),
            i < old(self).textures().len(),
        ensures
            final(self).wf(),
            final(self).shapes() == old(self).shapes(),
            final(self).use_pixel_space() == old(self).use_pixel_space(),
            final(self).window_width() == old(self).window_width(),
            final(self).window_height() == old(self).window_height(),
            final(self).animations() == old(self).animations(),
            final(self).textures().len() == old(self).textures().len(),
            textured_quad_added(
                final(self).textures()[i as int],
                old(self).textures()[i as int],
                position[0] as int,
                position[1] as int,
                width,
                height,
                old(self).use_pixel_space(),
            ),
            forall|a: int| 0 <= a < old(self).textures().len() && a != i ==> #[trigger] final(self).textures()[a] == old(self).textures()[a],
    {
        let ghost before = self.textures();
        let pixel = self.options.use_pixel_space;
        self.texture_batches[i].add_quad(position, width, height, Color { r: 255, g: 255, b: 255 }, 0, pixel, 0);
        proof {
            assert forall|a: int, b: int|
                0 <= a < b < self.textures().len() implies (#[trigger] self.textures()[a]).path_view()
                != (#[trigger] self.textures()[b]).path_view() by {
                assert(self.textures()[a].path_view() == before[a].path_view());
                assert(self.textures()[b].path_view() == before[b].path_view());
            }
            assert forall|a: int| 0 <= a < self.textures().len() implies (#[trigger] self.textures()[a]).wf() by {
                if a != i {
                    assert(self.textures()[a] == before[a]);
                }
            }
        }
    }

    /// Queues a white, flat quad sampled from the image at `texture_path`,
    /// with its top-left corner at `position`. The path identifies the
    /// texture batch: where one has it, the quad goes there and `None` is
    /// returned. Otherwise a batch for the path is registered last, the quad
    /// goes into it, and its position is returned, so that the caller decodes
    /// the image for it.
    pub fn texture_quad(&mut self, position: [i32; 2], width: i32, height: i32, texture_path: &str) -> (r: Option<usize>)
        requires
            old(self).wf(),
        ensures
            final(self).wf(),
            final(self).shapes() == old(self).shapes(),
            final(self).use_pixel_space() == old(self).use_pixel_space(),
            final(self).window_width() == old(self).window_width(),
            final(self).window_height() == old(self).window_height(),
            final(self).animations() == old(self).animations(),
            texture_step(*old(self), *final(self), texture_path@),
            texture_quad_done(
                old(self).textures(),
                final(self).textures(),
                texture_path@,
                position[0] as int,
                position[1] as int,
                width,
                height,
                old(self).use_pixel_space(),
                old(self).window_width(),
                old(self).window_height(),
            ),
            has_texture(old(self).textures(), texture_path@) ==> r is None,
            !has_texture(old(self).textures(), texture_path@) ==> r is Some && r->0 == old(self).textures().len(),
    {
        let key = texture_path.to_owned();
        let ghost before = self.textures();
        match self.find_texture(&key) {
            Some(i) => {
                self.quad_into_texture(i, position, width, height);
                proof {
                    assert forall|a: int| 0 <= a < before.len() implies if before[a].path_view() == texture_path@ {
                        textured_quad_added(
                            #[trigger] self.textures()[a],
                            before[a],
                            position[0] as int,
                            position[1] as int,
                            width,
                            height,
                            old(self).use_pixel_space(),
                        )
                    } else {
                        self.textures()[a] == before[a]
                    } by {
                        if a != i {
                            assert(before[a].path_view() != before[i as int].path_view() || a == i);
                        }
                    }
                    assert(self.textures()[i as int].path_view() == texture_path@);
                }
                None
            },
            None => {
                let i = self.register_texture(key);
                let ghost registered = self.textures();
                self.quad_into_texture(i, position, width, height);
                proof {
                    assert(self.textures().drop_last() =~= before) by {
                        assert forall|a: int| 0 <= a < before.len() implies self.textures()[a] == before[a] by {
                            assert(registered[a] == before[a]);
                        }
                    }
                    assert(self.textures().last() == self.textures()[i as int]);
                    assert(registered[i as int].content().vertices() =~= Seq::<Vertex>::empty());
                    assert(self.textures()[i as int].content().vertices() =~= quad_vertices_at(
                        position[0] as int,
                        position[1] as int,
                        width,
                        height,
                        white(),
                        0,
                        old(self).use_pixel_space(),
                        0,
                        old(self).window_width(),
                        old(self).window_height(),
                    ));
                    assert forall|a: int| 0 <= a < before.len() implies (#[trigger] self.textures()[a]).path_view()
                        == before[a].path_view() by {
                        assert(registered[a] == before[a]);
                    }
                    assert(self.textures()[i as int].path_view() == texture_path@);
                }
                Some(i)
            },
        }
    }

    /// Registers a texture batch for the image at `path`, unless one is
    /// registered already. The path is the identity of a texture; `name` is a
    /// label and takes no part in the lookup. Returns the position of a batch
    /// that this call registered.
    pub fn add_texture(&mut self, path: &str, name: &str) -> (r: Option<usize>)
        requires
            old(self).wf(),
        ensures
            final(self).wf(),
            final(self).shapes() == old(self).shapes(),
            final(self).use_pixel_space() == old(self).use_pixel_space(),
            final(self).window_width() == old(self).window_width(),
            final(self).window_height() == old(self).window_height(),
            has_texture(old(self).textures(), path@) ==> r is None && final(self).textures() == old(self).textures(),
            !has_texture(old(self).textures(), path@) ==> {
                &&& r is Some && r->0 == old(self).textures().len()
                &&& final(self).textures().drop_last() == old(self).textures()
                &&& final(self).textures().len() == old(self).textures().len() + 1
                &&& fresh_texture(
                    final(self).textures().last(),
                    path@,
                    old(self).window_width(),
                    old(self).window_height(),
                )
            },
    {
        let key = path.to_owned();
        match self.find_texture(&key) {
            Some(_) => None,
            None => Some(self.register_texture(key)),
        }
    }
    /// Ends a frame. A resize notification, if any, updates the window size
    /// (a zero or out-of-range dimension keeps the previous one). Then the
    /// shape batch, and after it every texture batch in registration order,
    /// is flushed against the live draw target of `framebuffer_width` by
    /// `framebuffer_height` pixels; what each flush submits is returned, and
    /// every batch ends empty.
    pub fn finish(&mut self, resized: Option<[u32; 2]>, framebuffer_width: u32, framebuffer_height: u32) -> (r:
        FrameSubmission)
        requires
            old(self).wf(),
        ensures
            final(self).wf(),
            final(self).use_pixel_space() == old(self).use_pixel_space(),
            final(self).animations() == old(self).animations(),
            final(self).window_width() == match resized {
                Some(d) => refreshed(old(self).window_width(), d[0]),
                None => old(self).window_width(),
            },
            final(self).window_height() == match resized {
                Some(d) => refreshed(old(self).window_height(), d[1]),
                None => old(self).window_height(),
            },
            flushed(final(self).shapes(), old(self).shapes(), framebuffer_width, framebuffer_height),
            is_flush_of(r.batch@, old(self).shapes()),
            final(self).textures().len() == old(self).textures().len(),
            r.textures@.len() == old(self).textures().len(),
            forall|t: int|
                0 <= t < old(self).textures().len() ==> texture_flushed(
                    #[trigger] final(self).textures()[t],
                    old(self).textures()[t],
                    r.textures@[t]@,
                    framebuffer_width,
                    framebuffer_height,
                ),
    {
        match resized {
            Some(d) => {
                if 0 < d[0] && d[0] <= i32::MAX as u32 {
                    self.options.window_width = d[0] as i32;
                }
                if 0 < d[1] && d[1] <= i32::MAX as u32 {
                    self.options.window_height = d[1] as i32;
                }
            },
            None => {},
        }
        let batch = self.batch.draw(framebuffer_width, framebuffer_height);
        let ghost before = self.textures();
        assert(before == old(self).textures());
        let mut textures: Vec<Vec<DrawChunk>> = Vec::new();
        let n = self.texture_batches.len();
        let mut t: usize = 0;
        while t < n
            invariant
                n == self.textures().len() == before.len(),
                t <= n,
                textures@.len() == t,
                0 < self.window_width(),
                0 < self.window_height(),
                self.shapes().wf(),
                forall|k: int| 0 <= k < n ==> (#[trigger] self.textures()[k]).path_view() == before[k].path_view(),
                forall|k: int| t <= k < n ==> #[trigger] self.textures()[k] == before[k],
                forall|k: int|
                    0 <= k < t ==> texture_flushed(
                        #[trigger] self.textures()[k],
                        before[k],
                        textures@[k]@,
                        framebuffer_width,
                        framebuffer_height,
                    ),
                forall|i: int| 0 <= i < n ==> (#[trigger] before[i]).wf(),
                forall|i: int, j: int|
                    0 <= i < j < n ==> (#[trigger] before[i]).path_view() != (#[trigger] before[j]).path_view(),
                self.use_pixel_space() == old(self).use_pixel_space(),
                self.animations() == old(self).animations(),
                self.window_width() == match resized {
                    Some(d) => refreshed(old(self).window_width(), d[0]),
                    None => old(self).window_width(),
                },
                self.window_height() == match resized {
                    Some(d) => refreshed(old(self).window_height(), d[1]),
                    None => old(self).window_height(),
                },
                flushed(self.shapes(), old(self).shapes(), framebuffer_width, framebuffer_height),
            decreases n - t,
        {
            assert(self.textures()[t as int] == before[t as int]);
            let chunks = self.texture_batches[t].draw(framebuffer_width, framebuffer_height);
            textures.push(chunks);
            t = t + 1;
        }
        proof {
            assert forall|i: int, j: int|
                0 <= i < j < n implies (#[trigger] self.textures()[i]).path_view()
                != (#[trigger] self.textures()[j]).path_view() by {
                assert(self.textures()[i].path_view() == before[i].path_view());
                assert(self.textures()[j].path_view() == before[j].path_view());
            }
            assert forall|i: int| 0 <= i < n implies (#[trigger] self.textures()[i]).wf() by {
                assert(texture_flushed(self.textures()[i], before[i], textures@[i]@, framebuffer_width, framebuffer_height));
            }
        }
        let ghost textures_view = textures@;
        let r = FrameSubmission { batch, textures };
        proof {
            assert forall|k: int| 0 <= k < old(self).textures().len() implies texture_flushed(
                #[trigger] self.textures()[k],
                old(self).textures()[k],
                r.textures@[k]@,
                framebuffer_width,
                framebuffer_height,
            ) by {
                assert(before[k] == old(self).textures()[k]);
                assert(r.textures@[k] == textures_view[k]);
                assert(texture_flushed(self.textures()[k], before[k], textures_view[k]@, framebuffer_width, framebuffer_height));
            }
        }
        r
    }
    fn find_animation(&self, name: &String) -> (r: Option<usize>)
        ensures
            match r {
                Some(i) => first_named(self.animations(), name@, i as int),
                None => !has_animation(self.animations(), name@),
            },
    {
        let mut i: usize = 0;
        while i < self.animations.len()
            invariant
                i <= self.animations.len(),
                forall|k: int| 0 <= k < i ==> (#[trigger] self.animations()[k]).name_view() != name@,
            decreases self.animations.len() - i,
        {
            if self.animations[i].name().eq(name) {
                return Some(i);
            }
            i = i + 1;
        }
        None
    }

    /// Adds an animation named `name` that shows the textures at the paths
    /// `textures` in turn, `frame_rate` frames a second, from its first frame
    /// at `now_us` (microseconds on a clock of the caller's). A name that is
    /// taken already leaves everything as it is.
    pub fn add_animation(&mut self, name: &str, frame_rate: u8, textures: Vec<&str>, now_us: u64)
        requires
            old(self).wf(),
        ensures
            final(self).wf(),
            final(self).shapes() == old(self).shapes(),
            final(self).textures() == old(self).textures(),
            final(self).use_pixel_space() == old(self).use_pixel_space(),
            final(self).window_width() == old(self).window_width(),
            final(self).window_height() == old(self).window_height(),
            has_animation(old(self).animations(), name@) ==> final(self).animations() == old(self).animations(),
            !has_animation(old(self).animations(), name@) ==> {
                let added = final(self).animations().last();
                &&& final(self).animations().len() == old(self).animations().len() + 1
                &&& final(self).animations().drop_last() == old(self).animations()
                &&& added.name_view() == name@
                &&& added.frames().len() == textures@.len()
                &&& forall|k: int| 0 <= k < textures@.len() ==> (#[trigger] added.frames()[k])@ == textures@[k]@
                &&& added.rate() == frame_rate
                &&& added.frame() == 0
                &&& added.changed_at() == now_us
            },
    {
        let key = name.to_owned();
        if self.find_animation(&key).is_some() {
            return;
        }
        let mut frames: Vec<String> = Vec::new();
        let mut k: usize = 0;
        while k < textures.len()
            invariant
                k <= textures.len(),
                frames@.len() == k,
                forall|j: int| 0 <= j < k ==> (#[trigger] frames@[j])@ == textures@[j]@,
            decreases textures.len() - k,
        {
            frames.push(textures[k].to_owned());
            k = k + 1;
        }
        self.animations.push(Animation::new(key, frame_rate, frames, now_us));
        proof {
            assert(self.animations().drop_last() =~= old(self).animations());
            Self::lemma_same_textures(old(self), self);
        }
    }

    /// Draws the current frame of the first animation named `animation`, as a
    /// texture quad at `position` (see `texture_quad`, whose result this
    /// returns: the quad is queued in every case), after
    /// moving the animation on to its next frame where one is due at `now_us`.
    /// An unknown name, or an animation without frames, draws nothing.
    pub fn animate(&mut self, position: [i32; 2], width: i32, height: i32, animation: &str, now_us: u64) -> (r:
        Option<usize>)
        requires
            old(self).wf(),
        ensures
            final(self).wf(),
            final(self).shapes() == old(self).shapes(),
            final(self).use_pixel_space() == old(self).use_pixel_space(),
            final(self).window_width() == old(self).window_width(),
            final(self).window_height() == old(self).window_height(),
            final(self).animations().len() == old(self).animations().len(),
            !has_animation(old(self).animations(), animation@) ==> r is None && final(self).textures()
                == old(self).textures() && final(self).animations() == old(self).animations(),
            forall|i: int|
                first_named(old(self).animations(), animation@, i) ==> {
                    let a = #[trigger] old(self).animations()[i];
                    let b = final(self).animations()[i];
                    &&& b.name_view() == a.name_view()
                    &&& b.frames() == a.frames()
                    &&& a.frame() < a.frames().len() ==> {
                        &&& texture_step(*old(self), *final(self), a.frames()[a.frame()]@)
                        &&& texture_quad_done(
                            old(self).textures(),
                            final(self).textures(),
                            a.frames()[a.frame()]@,
                            position[0] as int,
                            position[1] as int,
                            width,
                            height,
                            old(self).use_pixel_space(),
                            old(self).window_width(),
                            old(self).window_height(),
                        )
                        &&& if frame_due(a.changed_at(), now_us, a.rate()) {
                            b.frame() == (a.frame() + 1) % (a.frames().len() as int) && b.changed_at() == now_us
                        } else {
                            b.frame() == a.frame() && b.changed_at() == a.changed_at()
                        }
                    }
                },
    {
        let key = animation.to_owned();
        match self.find_animation(&key) {
            None => None,
            Some(i) => {
                let ghost before = *self;
                let shown = self.animations[i].advance(now_us);
                proof {
                    Self::lemma_same_textures(&before, self);
                }
                let ghost middle = *self;
                match shown {
                    None => None,
                    Some(path) => {
                        let r = self.texture_quad(position, width, height, path.as_str());
                        proof {
                            assert(middle.textures() == before.textures());
                            assert(texture_step(middle, *self, path@));
                            assert(texture_quad_done(
                                middle.textures(),
                                self.textures(),
                                path@,
                                position[0] as int,
                                position[1] as int,
                                width,
                                height,
                                middle.use_pixel_space(),
                                middle.window_width(),
                                middle.window_height(),
                            ));
                        }
                        r
                    },
                }
            },
        }
    }
    /// Writes `string` in upper case at `pos`: one texture quad of side
    /// `size` per glyph that `text_layout` gives, in order, exactly as
    /// `texture_quad` queues it. Afterwards each texture batch that was there
    /// holds its old quads and then those of the glyphs that show its image;
    /// each batch that this registered (its position is returned, so that the
    /// caller loads its image) holds the quads of its glyphs.
    pub fn text(&mut self, string: &str, pos: [i32; 2], size: i32) -> (r: Vec<usize>)
        requires
            old(self).wf(),
        ensures
            final(self).wf(),
            final(self).shapes() == old(self).shapes(),
            final(self).animations() == old(self).animations(),
            final(self).use_pixel_space() == old(self).use_pixel_space(),
            final(self).window_width() == old(self).window_width(),
            final(self).window_height() == old(self).window_height(),
            final(self).textures().len() >= old(self).textures().len(),
            forall|i: int|
                0 <= i < old(self).textures().len() ==> kept_with_glyphs(
                    #[trigger] final(self).textures()[i],
                    old(self).textures()[i],
                    text_glyphs(upper_of(string@), pos, size, upper_of(string@).len() as int),
                    text_glyphs(upper_of(string@), pos, size, upper_of(string@).len() as int).len() as int,
                    size,
                    old(self).use_pixel_space(),
                ),
            forall|i: int|
                old(self).textures().len() <= i < final(self).textures().len() ==> made_for_glyphs(
                    #[trigger] final(self).textures()[i],
                    text_glyphs(upper_of(string@), pos, size, upper_of(string@).len() as int),
                    text_glyphs(upper_of(string@), pos, size, upper_of(string@).len() as int).len() as int,
                    size,
                    old(self).use_pixel_space(),
                    old(self).window_width(),
                    old(self).window_height(),
                ),
            forall|k: int|
                0 <= k < text_glyphs(upper_of(string@), pos, size, upper_of(string@).len() as int).len()
                    ==> has_texture(
                    final(self).textures(),
                    (#[trigger] text_glyphs(upper_of(string@), pos, size, upper_of(string@).len() as int)[k]).2,
                ),
            r@.len() == final(self).textures().len() - old(self).textures().len(),
            forall|k: int| 0 <= k < r@.len() ==> #[trigger] r@[k] == old(self).textures().len() + k,
    {
        let glyphs = text_layout(string, pos, size);
        let ghost layout = text_glyphs(upper_of(string@), pos, size, upper_of(string@).len() as int);
        let ghost pixel = self.use_pixel_space();
        let ghost ww = self.window_width();
        let ghost wh = self.window_height();
        let ghost start = self.textures();
        let mut registered: Vec<usize> = Vec::new();
        let mut k: usize = 0;
        while k < glyphs.len()
            invariant
                self.wf(),
                k <= glyphs.len() == layout.len(),
                forall|j: int| 0 <= j < glyphs@.len() ==> glyph_matches(#[trigger] glyphs@[j], layout[j], size),
                self.shapes() == old(self).shapes(),
                self.animations() == old(self).animations(),
                self.use_pixel_space() == pixel,
                pixel == old(self).use_pixel_space(),
                self.window_width() == ww == old(self).window_width(),
                self.window_height() == wh == old(self).window_height(),
                start == old(self).textures(),
                self.textures().len() >= start.len(),
                forall|i: int|
                    0 <= i < start.len() ==> kept_with_glyphs(
                        #[trigger] self.textures()[i],
                        start[i],
                        layout,
                        k as int,
                        size,
                        pixel,
                    ),
                forall|i: int|
                    start.len() <= i < self.textures().len() ==> made_for_glyphs(
                        #[trigger] self.textures()[i],
                        layout,
                        k as int,
                        size,
                        pixel,
                        ww,
                        wh,
                    ),
                forall|j: int| 0 <= j < k ==> has_texture(self.textures(), (#[trigger] layout[j]).2),
                registered@.len() == self.textures().len() - start.len(),
                forall|j: int| 0 <= j < registered@.len() ==> #[trigger] registered@[j] == start.len() + j,
            decreases glyphs.len() - k,
        {
            let ghost before = self.textures();
            let g = &glyphs[k];
            let added = self.texture_quad(g.position, g.size, g.size, g.path.as_str());
            proof {
                let p = layout[k as int].2;
                assert(glyph_matches(glyphs@[k as int], layout[k as int], size));
                assert(g.path@ == p);
                let q = quad_vertices_at(layout[k as int].0, layout[k as int].1, size, size, white(), 0, pixel, 0, ww, wh);
                if has_texture(before, p) {
                    assert forall|i: int| 0 <= i < start.len() implies kept_with_glyphs(
                        #[trigger] self.textures()[i],
                        start[i],
                        layout,
                        k + 1,
                        size,
                        pixel,
                    ) by {
                        assert(kept_with_glyphs(before[i], start[i], layout, k as int, size, pixel));
                        if before[i].path_view() == p {
                            assert(self.textures()[i].content().vertices() =~= start[i].content().vertices()
                                + glyph_quads(layout, k + 1, start[i].path_view(), size, pixel,
                                start[i].content().surface_width(), start[i].content().surface_height()));
                        } else {
                            assert(self.textures()[i] == before[i]);
                        }
                    }
                    assert forall|i: int| start.len() <= i < self.textures().len() implies made_for_glyphs(
                        #[trigger] self.textures()[i],
                        layout,
                        k + 1,
                        size,
                        pixel,
                        ww,
                        wh,
                    ) by {
                        assert(made_for_glyphs(before[i], layout, k as int, size, pixel, ww, wh));
                        if before[i].path_view() == p {
                            assert(self.textures()[i].content().vertices() =~= glyph_quads(layout, k + 1,
                                self.textures()[i].path_view(), size, pixel, ww, wh));
                        } else {
                            assert(self.textures()[i] == before[i]);
                        }
                    }
                } else {
                    let n = before.len() as int;
                    assert forall|j: int| 0 <= j < k implies (#[trigger] layout[j]).2 != p by {
                        assert(has_texture(before, layout[j].2));
                    }
                    lemma_glyph_quads_unused(layout, k as int, p, size, pixel, ww, wh);
                    assert forall|i: int| 0 <= i < start.len() implies kept_with_glyphs(
                        #[trigger] self.textures()[i],
                        start[i],
                        layout,
                        k + 1,
                        size,
                        pixel,
                    ) by {
                        assert(self.textures()[i] == self.textures().drop_last()[i]);
                        assert(kept_with_glyphs(before[i], start[i], layout, k as int, size, pixel));
                        assert(before[i].path_view() != p);
                    }
                    assert forall|i: int| start.len() <= i < self.textures().len() implies made_for_glyphs(
                        #[trigger] self.textures()[i],
                        layout,
                        k + 1,
                        size,
                        pixel,
                        ww,
                        wh,
                    ) by {
                        if i < n {
                            assert(self.textures()[i] == self.textures().drop_last()[i]);
                            assert(made_for_glyphs(before[i], layout, k as int, size, pixel, ww, wh));
                            assert(before[i].path_view() != p);
                        } else {
                            assert(self.textures()[i] == self.textures().last());
                            assert(self.textures()[i].content().vertices() =~= glyph_quads(layout, k + 1, p, size,
                                pixel, ww, wh));
                        }
                    }
                }
                assert forall|j: int| 0 <= j <= k implies has_texture(self.textures(), (#[trigger] layout[j]).2) by {
                    if j < k {
                        let t = choose|t: int| 0 <= t < before.len() && (#[trigger] before[t]).path_view() == layout[j].2;
                        assert(self.textures()[t].path_view() == layout[j].2);
                    }
                }
            }
            let ghost prev = registered@;
            match added {
                Some(index) => {
                    registered.push(index);
                    assert(registered@.drop_last() == prev);
                },
                None => {},
            }
            proof {
                assert forall|j: int| 0 <= j < registered@.len() implies #[trigger] registered@[j] == start.len() + j by {
                    if j < prev.len() {
                        assert(registered@[j] == prev[j]);
                    }
                }
            }
            k = k + 1;
        }
        registered
    }
}

} // verus!
