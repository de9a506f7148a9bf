use vstd::arithmetic::div_mod::{
    lemma_add_mod_noop_right, lemma_mod_multiples_vanish, lemma_mod_twice, lemma_small_mod, lemma_sub_mod_noop,
};
use vstd::prelude::*;
use crate::vertex::{Color, Vertex, map_size, map_x, map_y, mapped_x, mapped_y};

verus! {

/// Offset, within its quad's block of four vertices, of the `j`-th of the six
/// indices that make the quad's two triangles `{0, 1, 2}` and `{0, 3, 2}`.
pub open spec fn quad_index_offset(j: int) -> int {
    if j == 0 {
        0
    } else if j == 1 {
        1
    } else if j == 2 {
        2
    } else if j == 3 {
        0
    } else if j == 4 {
        3
    } else {
        2
    }
}

/// The `i`-th index of content built from quads: the vertex it names, reduced
/// to 16 bits.
pub open spec fn quad_index(i: int) -> u16 {
    ((4 * (i / 6) + quad_index_offset(i % 6)) % 65536) as u16
}

/// The six indices that the quad numbered `q` appends.
pub open spec fn quad_indices(q: int) -> Seq<u16> {
    Seq::new(6, |j: int| quad_index(6 * q + j))
}

/// Most quads handed to the graphics API in one draw call: 16380 quads are
/// 65520 vertices, within the range of a 16-bit index.
pub const QUADS_PER_DRAW: usize = 16380;

/// One draw submission: a run of whole quads and their indices.
pub struct DrawChunk {
    pub vertices: Vec<Vertex>,
    pub indices: Vec<u16>,
}

/// The number of draw calls that `quads` quads take.
pub open spec fn chunk_count(quads: int) -> int {
    (quads + QUADS_PER_DRAW - 1) / QUADS_PER_DRAW as int
}

/// The first quad of chunk `c`.
pub open spec fn chunk_start(c: int) -> int {
    QUADS_PER_DRAW * c
}

/// `chunks` is what a flush of `before` submits: `chunk_count` chunks, the
/// `c`-th of them `is_chunk(c)`.
pub open spec fn is_flush_of(chunks: Seq<DrawChunk>, before: Batch) -> bool {
    &&& chunks.len() == chunk_count(before.quad_count())
    &&& forall|c: int|
        0 <= c < chunks.len() ==> is_chunk(#[trigger] chunks[c], c, before.vertices(), before.indices())
}

/// One past the last quad of chunk `c`, out of `quads` quads.
pub open spec fn chunk_end(c: int, quads: int) -> int {
    if QUADS_PER_DRAW * (c + 1) <= quads {
        QUADS_PER_DRAW * (c + 1)
    } else {
        quads
    }
}

/// Index `i` renumbered for a submission whose first vertex is vertex `base`
/// of the batch, in 16 bits.
pub open spec fn rebased(i: u16, base: int) -> u16 {
    ((i - base) % 65536) as u16
}

/// Chunk `c` of a flush of `vertices` and `indices`: the quads from
/// `chunk_start(c)` up to `chunk_end(c)`, whose indices are renumbered from
/// the chunk's own first vertex, since each chunk is submitted on its own.
pub open spec fn is_chunk(chunk: DrawChunk, c: int, vertices: Seq<Vertex>, indices: Seq<u16>) -> bool {
    let quads = vertices.len() as int / 4;
    &&& chunk.vertices@ == vertices.subrange(4 * chunk_start(c), 4 * chunk_end(c, quads))
    &&& chunk.indices@.len() == 6 * (chunk_end(c, quads) - chunk_start(c))
    &&& forall|t: int|
        0 <= t < chunk.indices@.len() ==> #[trigger] chunk.indices@[t] == rebased(
            indices[6 * chunk_start(c) + t],
            4 * chunk_start(c),
        )
}

/// The surface size that a flush keeps: the live size where it is a valid
/// one, the previous one where it is zero or out of range.
pub open spec fn refreshed(previous: i32, live: u32) -> i32 {
    if 0 < live <= i32::MAX {
        live as i32
    } else {
        previous
    }
}

fn copy_vertices(src: &Vec<Vertex>, lo: usize, hi: usize) -> (r: Vec<Vertex>)
    requires
        lo <= hi <= src.len(),
    ensures
        r@ == src@.subrange(lo as int, hi as int),
{
    let mut r: Vec<Vertex> = Vec::new();
    let mut i: usize = lo;
    while i < hi
        invariant
            lo <= i <= hi <= src.len(),
            r@ == src@.subrange(lo as int, i as int),
        decreases hi - i,
    {
        r.push(src[i]);
        i = i + 1;
        proof {
            assert(r@ =~= src@.subrange(lo as int, i as int));
        }
    }
    r
}

fn copy_rebased(src: &Vec<u16>, lo: usize, hi: usize, base: usize) -> (r: Vec<u16>)
    requires
        lo <= hi <= src.len(),
    ensures
        r@.len() == hi - lo,
        forall|t: int| 0 <= t < r@.len() ==> #[trigger] r@[t] == rebased(src@[lo + t], base as int),
{
    let b: u32 = (base % 65536) as u32;
    let mut r: Vec<u16> = Vec::new();
    let mut i: usize = lo;
    while i < hi
        invariant
            lo <= i <= hi <= src.len(),
            b == base % 65536,
            r@.len() == i - lo,
            forall|t: int| 0 <= t < r@.len() ==> #[trigger] r@[t] == rebased(src@[lo + t], base as int),
        decreases hi - i,
    {
        let v: u32 = src[i] as u32;
        let n: u16 = ((v + 65536 - b) % 65536) as u16;
        proof {
            let x = v as int;
            let q = base as int / 65536;
            assert(base as int == 65536 * q + b);
            lemma_mod_multiples_vanish(q + 1, x - base as int, 65536);
            assert(65536 * (q + 1) + (x - base as int) == x + 65536 - b);
        }
        r.push(n);
        proof {
            assert forall|t: int| 0 <= t < r@.len() implies #[trigger] r@[t] == rebased(src@[lo + t], base as int) by {
                if t == r@.len() - 1 {
                    assert(lo + t == i);
                }
            }
        }
        i = i + 1;
    }
    r
}

/// The vertices of `chunks` laid end to end, in submission order.
pub open spec fn flat_vertices(chunks: Seq<DrawChunk>) -> Seq<Vertex>
    decreases chunks.len(),
{
    if chunks.len() == 0 {
        Seq::empty()
    } else {
        flat_vertices(chunks.drop_last()) + chunks.last().vertices@
    }
}

/// The quads covered by the first `k` chunks.
pub open spec fn covered(k: int, quads: int) -> int {
    if QUADS_PER_DRAW * k <= quads {
        QUADS_PER_DRAW * k
    } else {
        quads
    }
}

proof fn lemma_prefix_of_chunks(chunks: Seq<DrawChunk>, vertices: Seq<Vertex>, indices: Seq<u16>, k: int)
    requires
        0 <= k <= chunks.len(),
        vertices.len() % 4 == 0,
        indices.len() == 6 * (vertices.len() / 4),
        chunks.len() == 0 || QUADS_PER_DRAW * (chunks.len() - 1) < vertices.len() / 4,
        forall|c: int| 0 <= c < chunks.len() ==> is_chunk(#[trigger] chunks[c], c, vertices, indices),
    ensures
        flat_vertices(chunks.take(k)) == vertices.subrange(0, 4 * covered(k, vertices.len() as int / 4)),
    decreases k,
{
    let quads = vertices.len() as int / 4;
    if k == 0 {
        assert(vertices.subrange(0, 0) =~= Seq::<Vertex>::empty());
    } else {
        lemma_prefix_of_chunks(chunks, vertices, indices, k - 1);
        let pre = chunks.take(k);
        assert(pre.drop_last() =~= chunks.take(k - 1));
        assert(pre.last() == chunks[k - 1]);
        assert(is_chunk(chunks[k - 1], k - 1, vertices, indices));
        assert(chunk_end(k - 1, quads) == covered(k, quads));
        assert(covered(k - 1, quads) == chunk_start(k - 1));
        assert(vertices.subrange(0, 4 * covered(k - 1, quads)) + vertices.subrange(
            4 * chunk_start(k - 1),
            4 * covered(k, quads),
        ) =~= vertices.subrange(0, 4 * covered(k, quads)));
    }
}

/// A flush loses, duplicates and reorders no vertex: the vertices of the
/// chunks that `draw` returns, laid end to end in submission order, are
/// exactly the vertices that were queued.
pub proof fn lemma_flush_reassembles(before: Batch, chunks: Seq<DrawChunk>)
    requires
        before.wf(),
        is_flush_of(chunks, before),
    ensures
        flat_vertices(chunks) == before.vertices(),
{
    let quads = before.quad_count();
    assert(chunks.len() == 0 || QUADS_PER_DRAW * (chunks.len() - 1) < quads);
    lemma_prefix_of_chunks(chunks, before.vertices(), before.indices(), chunks.len() as int);
    assert(chunks.take(chunks.len() as int) =~= chunks);
    assert(covered(chunks.len() as int, quads) == quads);
    assert(before.vertices().subrange(0, 4 * quads) =~= before.vertices());
}

/// Each chunk's indices name only the chunk's own vertices: over the chunk's
/// quads they run `0, 1, 2, 0, 3, 2, 4, 5, 6, 4, 7, 6, ...` from its first
/// vertex, and moved back by the chunk's first vertex they are the queued
/// indices.
pub proof fn lemma_chunk_indices_local(before: Batch, chunks: Seq<DrawChunk>)
    requires
        before.wf(),
        is_flush_of(chunks, before),
    ensures
        forall|c: int, t: int|
            0 <= c < chunks.len() && 0 <= t < chunks[c].indices@.len() ==> {
                &&& (#[trigger] chunks[c].indices@[t]) as int == 4 * (t / 6) + quad_index_offset(t % 6)
                &&& chunks[c].indices@[t] < chunks[c].vertices@.len()
                &&& (chunks[c].indices@[t] + 4 * chunk_start(c)) % 65536 == before.indices()[6 * chunk_start(c) + t]
            },
{
    let quads = before.quad_count();
    assert forall|c: int, t: int|
        0 <= c < chunks.len() && 0 <= t < chunks[c].indices@.len() implies {
            &&& (#[trigger] chunks[c].indices@[t]) as int == 4 * (t / 6) + quad_index_offset(t % 6)
            &&& chunks[c].indices@[t] < chunks[c].vertices@.len()
            &&& (chunks[c].indices@[t] + 4 * chunk_start(c)) % 65536 == before.indices()[6 * chunk_start(c) + t]
        } by {
        assert(is_chunk(chunks[c], c, before.vertices(), before.indices()));
        let s0 = chunk_start(c);
        let e0 = chunk_end(c, quads);
        assert(s0 <= e0 <= quads);
        assert(e0 - s0 <= QUADS_PER_DRAW);
        let i = 6 * s0 + t;
        assert(i < before.indices().len());
        assert(before.indices()[i] == quad_index(i));
        assert(i / 6 == s0 + t / 6);
        assert(i % 6 == t % 6);
        let off = quad_index_offset(t % 6);
        assert(0 <= off < 4);
        let x = 4 * (s0 + t / 6) + off;
        assert(t / 6 < e0 - s0);
        assert(0 <= 4 * (t / 6) + off < 4 * (e0 - s0));
        assert(4 * (e0 - s0) <= 65520);
        let m: int = 65536;
        assert(0 <= x % m < m);
        assert(quad_index(i) as int == x % m);
        lemma_sub_mod_noop(x % m, 4 * s0, m);
        lemma_sub_mod_noop(x, 4 * s0, m);
        lemma_mod_twice(x, m);
        assert(x - 4 * s0 == 4 * (t / 6) + off);
        lemma_small_mod((4 * (t / 6) + off) as nat, m as nat);
        assert((x % m - 4 * s0) % m == 4 * (t / 6) + off);
        assert(chunks[c].indices@[t] as int == 4 * (t / 6) + off);
        assert(chunks[c].vertices@.len() == 4 * (e0 - s0));
        lemma_add_mod_noop_right(4 * (t / 6) + off, 4 * s0, m);
        assert(4 * (t / 6) + off + 4 * s0 == x);
    }
}

/// A flush of more than `QUADS_PER_DRAW` quads makes `ceil(M / QUADS_PER_DRAW)`
/// submissions: every one of them full but the last, which holds the rest.
pub proof fn lemma_flush_chunk_sizes(before: Batch, chunks: Seq<DrawChunk>)
    requires
        before.wf(),
        is_flush_of(chunks, before),
    ensures
        forall|c: int|
            0 <= c < chunks.len() - 1 ==> (#[trigger] chunks[c]).vertices@.len() == 4 * QUADS_PER_DRAW
                && chunks[c].indices@.len() == 6 * QUADS_PER_DRAW,
        chunks.len() > 0 ==> chunks.last().vertices@.len() == 4 * (before.quad_count() - QUADS_PER_DRAW * (
        chunks.len() - 1)),
        chunks.len() > 0 ==> chunks.last().indices@.len() == 6 * (before.quad_count() - QUADS_PER_DRAW * (
        chunks.len() - 1)),
{
    let quads = before.quad_count();
    assert forall|c: int| 0 <= c < chunks.len() - 1 implies (#[trigger] chunks[c]).vertices@.len() == 4
        * QUADS_PER_DRAW && chunks[c].indices@.len() == 6 * QUADS_PER_DRAW by {
        assert(is_chunk(chunks[c], c, before.vertices(), before.indices()));
        assert(QUADS_PER_DRAW * (c + 1) <= quads);
    }
    if chunks.len() > 0 {
        let c = chunks.len() - 1;
        assert(is_chunk(chunks[c], c, before.vertices(), before.indices()));
        assert(chunk_end(c, quads) == quads);
    }
}

/// `after` is `before` with one quad more, as `add_quad` and `raw_quad`
/// leave it: four vertices and the six indices of the next quad.
pub open spec fn quad_added(after: Batch, before: Batch) -> bool {
    &&& after.wf()
    &&& after.vertices().len() == before.vertices().len() + 4
    &&& after.vertices().subrange(0, before.vertices().len() as int) == before.vertices()
    &&& after.indices() == before.indices() + quad_indices(before.quad_count())
}

/// A batch built from an empty one by `N` quad calls, with nothing else in
/// between, holds `4 * N` vertices and `6 * N` indices; while `4 * N` fits 16
/// bits, the `k`-th six indices are `4k, 4k+1, 4k+2, 4k, 4k+3, 4k+2`, so each
/// names only its own quad's vertices and the base grows by four per call.
pub proof fn lemma_quads_from_empty(steps: Seq<Batch>)
    requires
        steps.len() >= 1,
        steps[0].wf(),
        steps[0].vertices().len() == 0,
        forall|k: int| 0 <= k < steps.len() - 1 ==> quad_added(#[trigger] steps[k + 1], steps[k]),
    ensures
        steps.last().vertices().len() == 4 * (steps.len() - 1),
        steps.last().indices().len() == 6 * (steps.len() - 1),
        4 * (steps.len() - 1) <= 65536 ==> forall|k: int, j: int|
            0 <= k < steps.len() - 1 && 0 <= j < 6 ==> (#[trigger] steps.last().indices()[6 * k + j]) as int == 4 * k
                + quad_index_offset(j),
    decreases steps.len(),
{
    let n = steps.len() - 1;
    if n > 0 {
        let prefix = steps.drop_last();
        assert forall|k: int| 0 <= k < prefix.len() - 1 implies quad_added(#[trigger] prefix[k + 1], prefix[k]) by {
            assert(prefix[k + 1] == steps[k + 1]);
            assert(prefix[k] == steps[k]);
        }
        lemma_quads_from_empty(prefix);
        assert(quad_added(steps[(n - 1) + 1], steps[n - 1]));
    }
    let last = steps.last();
    assert(last.wf());
    if 4 * n <= 65536 {
        last.lemma_indices_stay_in_block();
        assert forall|k: int, j: int| 0 <= k < n && 0 <= j < 6 implies (#[trigger] last.indices()[6 * k + j]) as int == 4
            * k + quad_index_offset(j) by {
            assert((6 * k + j) / 6 == k);
            assert((6 * k + j) % 6 == j);
        }
    }
}

/// A vertex at the exact position `(x / w, y / h)`.
pub open spec fn corner(
    x: int,
    y: int,
    w: i32,
    h: i32,
    color: Color,
    style: i32,
    u: u8,
    v: u8,
    variator: i32,
) -> Vertex {
    Vertex { x: x as i64, y: y as i64, x_den: w, y_den: h, color, style, tex_u: u, tex_v: v, variator }
}

/// The four corners of an axis-aligned quad whose top-left corner is at
/// `(px, py)`, on a surface of `w` by `h` pixels: top-left, top-right,
/// bottom-right, bottom-left.
pub open spec fn quad_vertices_at(
    px: int,
    py: int,
    width: i32,
    height: i32,
    color: Color,
    style: i32,
    pixel_space: bool,
    variator: i32,
    w: i32,
    h: i32,
) -> Seq<Vertex> {
    let x0 = map_x(px, pixel_space, w as int);
    let y0 = map_y(py, pixel_space, h as int);
    let x1 = x0 + map_size(width as int, pixel_space, w as int);
    let y1 = y0 - map_size(height as int, pixel_space, h as int);
    seq![
        corner(x0, y0, w, h, color, style, 0, 1, variator),
        corner(x1, y0, w, h, color, style, 1, 1, variator),
        corner(x1, y1, w, h, color, style, 1, 0, variator),
        corner(x0, y1, w, h, color, style, 0, 0, variator),
    ]
}

/// `quad_vertices_at` the corner `position`.
pub open spec fn quad_vertices(
    position: [i32; 2],
    width: i32,
    height: i32,
    color: Color,
    style: i32,
    pixel_space: bool,
    variator: i32,
    w: i32,
    h: i32,
) -> Seq<Vertex> {
    quad_vertices_at(position[0] as int, position[1] as int, width, height, color, style, pixel_space, variator, w, h)
}

/// The vertex for a point `(px, py)` given by the caller.
pub open spec fn point_vertex(
    px: int,
    py: int,
    color: Color,
    style: i32,
    pixel_space: bool,
    variator: i32,
    w: i32,
    h: i32,
    u: u8,
    v: u8,
) -> Vertex {
    corner(
        map_x(px, pixel_space, w as int),
        map_y(py, pixel_space, h as int),
        w,
        h,
        color,
        style,
        u,
        v,
        variator,
    )
}

/// The four corners of a quad whose corners are given one by one.
pub open spec fn raw_quad_vertices(
    p1: [i32; 2],
    p2: [i32; 2],
    p3: [i32; 2],
    p4: [i32; 2],
    color: Color,
    style: i32,
    pixel_space: bool,
    variator: i32,
    w: i32,
    h: i32,
) -> Seq<Vertex> {
    seq![
        point_vertex(p1[0] as int, p1[1] as int, color, style, pixel_space, variator, w, h, 0, 1),
        point_vertex(p2[0] as int, p2[1] as int, color, style, pixel_space, variator, w, h, 1, 1),
        point_vertex(p3[0] as int, p3[1] as int, color, style, pixel_space, variator, w, h, 1, 0),
        point_vertex(p4[0] as int, p4[1] as int, color, style, pixel_space, variator, w, h, 0, 0),
    ]
}

/// The per-frame accumulator: vertices in draw order, and the 16-bit indices
/// that cut them into triangles, two per quad.
pub struct Batch {
    vertex_buffer: Vec<Vertex>,
    index_buffer: Vec<u16>,
    window_width: i32,
    window_height: i32,
}

impl Batch {
    /// The vertices queued since the last flush.
    pub closed spec fn vertices(&self) -> Seq<Vertex> {
        self.vertex_buffer@
    }

    /// The indices queued since the last flush.
    pub closed spec fn indices(&self) -> Seq<u16> {
        self.index_buffer@
    }

    /// Width in pixels of the surface that positions are mapped onto.
    pub closed spec fn surface_width(&self) -> i32 {
        self.window_width
    }

    /// Height in pixels of the surface that positions are mapped onto.
    pub closed spec fn surface_height(&self) -> i32 {
        self.window_height
    }

    /// The number of quads queued.
    pub open spec fn quad_count(&self) -> int {
        self.vertices().len() as int / 4
    }

    /// The surface is not empty, the content is whole quads, and the indices
    /// are exactly those that these quads append.
    pub open spec fn wf(&self) -> bool {
        &&& 0 < self.surface_width()
        &&& 0 < self.surface_height()
        &&& self.vertices().len() % 4 == 0
        &&& self.indices().len() == 6 * self.quad_count()
        &&& forall|i: int| 0 <= i < self.indices().len() ==> #[trigger] self.indices()[i] == quad_index(i)
    }

    /// While a batch holds at most 65536 vertices, the indices taken six at a
    /// time name only the four vertices of their own quad: the `i`-th index is
    /// `4 * (i / 6)` plus `0, 1, 2, 0, 3, 2` in turn, and `add_quad` keeps a batch
    /// so (it adds exactly four vertices and six indices).
    pub proof fn lemma_indices_stay_in_block(&self)
        requires
            self.wf(),
            self.vertices().len() <= 65536,
        ensures
            self.vertices().len() == 4 * self.quad_count(),
            self.indices().len() == 6 * self.quad_count(),
            forall|i: int|
                0 <= i < self.indices().len() ==> #[trigger] self.indices()[i] as int == 4 * (i / 6)
                    + quad_index_offset(i % 6) && 4 * (i / 6) <= self.indices()[i] < 4 * (i / 6) + 4,
    {
        assert forall|i: int| 0 <= i < self.indices().len() implies #[trigger] self.indices()[i] as int
            == 4 * (i / 6) + quad_index_offset(i % 6) && 4 * (i / 6) <= self.indices()[i] < 4 * (i / 6)
            + 4 by {
            assert(self.indices()[i] == quad_index(i));
            assert(i / 6 < self.quad_count());
            assert(0 <= quad_index_offset(i % 6) < 4);
            assert(4 * (i / 6) + quad_index_offset(i % 6) < 65536);
        }
    }

    /// An empty accumulator for a surface of `window_width` by `window_height`
    /// pixels.
    pub fn new(window_width: i32, window_height: i32) -> (r: Self)
        requires
            0 < window_width,
            0 < window_height,
        ensures
            r.wf(),
            r.vertices() == Seq::<Vertex>::empty(),
            r.surface_width() == window_width,
            r.surface_height() == window_height,
    {
        Batch { vertex_buffer: Vec::new(), index_buffer: Vec::new(), window_width, window_height }
    }

    /// The queued vertices.
    pub fn vertex_buffer(&self) -> (r: &Vec<Vertex>)
        ensures
            r@ == self.vertices(),
    {
        &self.vertex_buffer
    }

    /// The queued indices.
    pub fn index_buffer(&self) -> (r: &Vec<u16>)
        ensures
            r@ == self.indices(),
    {
        &self.index_buffer
    }

    pub fn window_width(&self) -> (r: i32)
        ensures
            r == self.surface_width(),
    {
        self.window_width
    }

    pub fn window_height(&self) -> (r: i32)
        ensures
            r == self.surface_height(),
    {
        self.window_height
    }

    /// Appends the six indices of the next quad, numbered from the current
    /// vertex count.
    fn push_quad_indices(&mut self)
        requires
            old(self).wf(),
        ensures
            final(self).indices() == old(self).indices() + quad_indices(old(self).quad_count()),
            final(self).vertices() == old(self).vertices(),
            final(self).surface_width() == old(self).surface_width(),
            final(self).surface_height() == old(self).surface_height(),
    {
        let base: u32 = (self.vertex_buffer.len() % 65536) as u32;
        let ghost q = self.quad_count();
        proof {
            assert(base == (4 * q) % 65536);
        }
        self.index_buffer.push(((base + 0) % 65536) as u16);
        self.index_buffer.push(((base + 1) % 65536) as u16);
        self.index_buffer.push(((base + 2) % 65536) as u16);
        self.index_buffer.push(((base + 0) % 65536) as u16);
        self.index_buffer.push(((base + 3) % 65536) as u16);
        self.index_buffer.push(((base + 2) % 65536) as u16);
        proof {
            let added = quad_indices(q);
            assert forall|j: int| 0 <= j < 6 implies #[trigger] added[j] == ((base + quad_index_offset(j)) % 65536) as u16 by {
                assert((6 * q + j) / 6 == q);
                assert((6 * q + j) % 6 == j);
                assert((4 * q + quad_index_offset(j)) % 65536 == ((4 * q) % 65536 + quad_index_offset(j)) % 65536);
            }
            assert(self.index_buffer@ =~= old(self).index_buffer@ + added);
        }
    }

    proof fn lemma_push_quad_keeps_wf(old_b: &Batch, b: &Batch, added: Seq<Vertex>)
        requires
            old_b.wf(),
            added.len() == 4,
            b.vertices() == old_b.vertices() + added,
            b.indices() == old_b.indices() + quad_indices(old_b.quad_count()),
            b.surface_width() == old_b.surface_width(),
            b.surface_height() == old_b.surface_height(),
        ensures
            b.wf(),
            b.quad_count() == old_b.quad_count() + 1,
            quad_added(*b, *old_b),
    {
        assert(b.vertices().subrange(0, old_b.vertices().len() as int) =~= old_b.vertices());
        let q = old_b.quad_count();
        assert(b.vertices().len() == 4 * q + 4);
        assert(b.quad_count() == q + 1);
        assert forall|i: int| 0 <= i < b.indices().len() implies #[trigger] b.indices()[i] == quad_index(i) by {
            if i >= old_b.indices().len() {
                let j = i - 6 * q;
                assert(6 * q + j == i);
                assert(b.indices()[i] == quad_indices(q)[j]);
            } else {
                assert(b.indices()[i] == old_b.indices()[i]);
            }
        }
    }

    /// Queues an axis-aligned quad with its top-left corner at `position`,
    /// `width` and `height` pixels in size: four vertices (top-left, top-right,
    /// bottom-right, bottom-left) and six indices, numbered from the current
    /// vertex count.
    pub fn add_quad(
        &mut self,
        position: [i32; 2],
        width: i32,
        height: i32,
        color: Color,
        style: i32,
        use_pixel_space: bool,
        variator: i32,
    )
        requires
            old(self).wf(),
        ensures
            final(self).wf(),
            final(self).vertices() == old(self).vertices() + quad_vertices(
                position,
                width,
                height,
                color,
                style,
                use_pixel_space,
                variator,
                old(self).surface_width(),
                old(self).surface_height(),
            ),
            final(self).indices() == old(self).indices() + quad_indices(old(self).quad_count()),
            quad_added(*final(self), *old(self)),
            final(self).surface_width() == old(self).surface_width(),
            final(self).surface_height() == old(self).surface_height(),
    {
        let ghost old_b = *self;
        let w = self.window_width;
        let h = self.window_height;
        let x0 = mapped_x(position[0], 0, use_pixel_space, w);
        let x1 = mapped_x(position[0], width, use_pixel_space, w);
        let y0 = mapped_y(position[1], 0, use_pixel_space, h);
        let y1 = mapped_y(position[1], height, use_pixel_space, h);
        self.push_quad_indices();
        self.vertex_buffer.push(Vertex { x: x0, y: y0, x_den: w, y_den: h, color, style, tex_u: 0, tex_v: 1, variator });
        self.vertex_buffer.push(Vertex { x: x1, y: y0, x_den: w, y_den: h, color, style, tex_u: 1, tex_v: 1, variator });
        self.vertex_buffer.push(Vertex { x: x1, y: y1, x_den: w, y_den: h, color, style, tex_u: 1, tex_v: 0, variator });
        self.vertex_buffer.push(Vertex { x: x0, y: y1, x_den: w, y_den: h, color, style, tex_u: 0, tex_v: 0, variator });
        proof {
            let added = quad_vertices(position, width, height, color, style, use_pixel_space, variator, w, h);
            assert(self.vertex_buffer@ =~= old_b.vertex_buffer@ + added);
            Self::lemma_push_quad_keeps_wf(&old_b, self, added);
        }
    }

    /// Queues a quad whose four corners are given one by one (a triangle
    /// repeats one of them), with the same indices as `add_quad`.
    pub fn raw_quad(
        &mut self,
        p1: [i32; 2],
        p2: [i32; 2],
        p3: [i32; 2],
        p4: [i32; 2],
        color: Color,
        style: i32,
        use_pixel_space: bool,
        variator: i32,
    )
        requires
            old(self).wf(),
        ensures
            final(self).wf(),
            final(self).vertices() == old(self).vertices() + raw_quad_vertices(
                p1,
                p2,
                p3,
                p4,
                color,
                style,
                use_pixel_space,
                variator,
                old(self).surface_width(),
                old(self).surface_height(),
            ),
            final(self).indices() == old(self).indices() + quad_indices(old(self).quad_count()),
            quad_added(*final(self), *old(self)),
            final(self).surface_width() == old(self).surface_width(),
            final(self).surface_height() == old(self).surface_height(),
    {
        let ghost old_b = *self;
        let w = self.window_width;
        let h = self.window_height;
        let v1 = Vertex {
            x: mapped_x(p1[0], 0, use_pixel_space, w),
            y: mapped_y(p1[1], 0, use_pixel_space, h),
            x_den: w,
            y_den: h,
            color,
            style,
            tex_u: 0,
            tex_v: 1,
            variator,
        };
        let v2 = Vertex {
            x: mapped_x(p2[0], 0, use_pixel_space, w),
            y: mapped_y(p2[1], 0, use_pixel_space, h),
            x_den: w,
            y_den: h,
            color,
            style,
            tex_u: 1,
            tex_v: 1,
            variator,
        };
        let v3 = Vertex {
            x: mapped_x(p3[0], 0, use_pixel_space, w),
            y: mapped_y(p3[1], 0, use_pixel_space, h),
            x_den: w,
            y_den: h,
            color,
            style,
            tex_u: 1,
            tex_v: 0,
            variator,
        };
        let v4 = Vertex {
            x: mapped_x(p4[0], 0, use_pixel_space, w),
            y: mapped_y(p4[1], 0, use_pixel_space, h),
            x_den: w,
            y_den: h,
            color,
            style,
            tex_u: 0,
            tex_v: 0,
            variator,
        };
        self.push_quad_indices();
        self.vertex_buffer.push(v1);
        self.vertex_buffer.push(v2);
        self.vertex_buffer.push(v3);
        self.vertex_buffer.push(v4);
        proof {
            let added = raw_quad_vertices(p1, p2, p3, p4, color, style, use_pixel_space, variator, w, h);
            assert(self.vertex_buffer@ =~= old_b.vertex_buffer@ + added);
            Self::lemma_push_quad_keeps_wf(&old_b, self, added);
        }
    }
    /// Flushes the accumulator. The surface size is first refreshed from the
    /// live draw target (a zero or out-of-range dimension keeps the previous
    /// one). The queued quads are then cut, in order, into chunks of at most
    /// `QUADS_PER_DRAW` quads, each returned as one draw submission with its
    /// vertices exactly as queued and its indices renumbered from the chunk's
    /// own first vertex; the accumulator ends empty.
    pub fn draw(&mut self, framebuffer_width: u32, framebuffer_height: u32) -> (chunks: Vec<DrawChunk>)
        requires
            old(self).wf(),
        ensures
            final(self).wf(),
            final(self).vertices() == Seq::<Vertex>::empty(),
            final(self).indices() == Seq::<u16>::empty(),
            final(self).surface_width() == refreshed(old(self).surface_width(), framebuffer_width),
            final(self).surface_height() == refreshed(old(self).surface_height(), framebuffer_height),
            is_flush_of(chunks@, *old(self)),
    {
        if 0 < framebuffer_width && framebuffer_width <= i32::MAX as u32 {
            self.window_width = framebuffer_width as i32;
        }
        if 0 < framebuffer_height && framebuffer_height <= i32::MAX as u32 {
            self.window_height = framebuffer_height as i32;
        }
        let quads = self.vertex_buffer.len() / 4;
        let mut chunks: Vec<DrawChunk> = Vec::new();
        let mut start: usize = 0;
        while start < quads
            invariant
                self.wf(),
                quads == self.quad_count(),
                start <= quads,
                start < quads ==> start == QUADS_PER_DRAW * chunks.len(),
                start <= QUADS_PER_DRAW * chunks.len(),
                self.vertex_buffer.len() == 4 * quads,
                self.index_buffer.len() == 6 * quads,
                chunks.len() == 0 || QUADS_PER_DRAW * (chunks.len() - 1) < quads,
                forall|c: int|
                    0 <= c < chunks.len() ==> is_chunk(
                        #[trigger] chunks@[c],
                        c,
                        self.vertices(),
                        self.indices(),
                    ),
            decreases quads - start,
        {
            let end: usize = if quads - start >= QUADS_PER_DRAW {
                start + QUADS_PER_DRAW
            } else {
                quads
            };
            assert(4 * end <= self.vertex_buffer.len());
            assert(6 * end <= self.index_buffer.len());
            let chunk = DrawChunk {
                vertices: copy_vertices(&self.vertex_buffer, 4 * start, 4 * end),
                indices: copy_rebased(&self.index_buffer, 6 * start, 6 * end, 4 * start),
            };
            proof {
                assert(end == chunk_end(chunks.len() as int, quads as int));
            }
            chunks.push(chunk);
            start = end;
        }
        proof {
            assert(chunks.len() == chunk_count(quads as int));
        }
        self.vertex_buffer = Vec::new();
        self.index_buffer = Vec::new();
        chunks
    }
}

} // verus!
