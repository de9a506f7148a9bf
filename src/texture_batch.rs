use vstd::prelude::*;
use crate::batch::{Batch, DrawChunk, is_flush_of, quad_indices, quad_vertices, raw_quad_vertices, refreshed};
use crate::vertex::{Color, Vertex};

verus! {

/// An accumulator for quads sampled from one image, identified by the image's
/// path. The decoded image itself is held by whoever submits the draws.
pub struct TextureBatch {
    batch: Batch,
    path: String,
}

impl TextureBatch {
    /// The geometry queued for this image.
    pub closed spec fn content(&self) -> Batch {
        self.batch
    }

    /// The path that identifies the image.
    pub closed spec fn path_view(&self) -> Seq<char> {
        self.path@
    }

    pub open spec fn wf(&self) -> bool {
        self.content().wf()
    }

    /// An empty accumulator for the image at `path`.
    pub fn new(window_width: i32, window_height: i32, path: String) -> (r: Self)
        requires
            0 < window_width,
            0 < window_height,
        ensures
            r.wf(),
            r.content().vertices() == Seq::<Vertex>::empty(),
            r.content().surface_width() == window_width,
            r.content().surface_height() == window_height,
            r.path_view() == path@,
    {
        TextureBatch { batch: Batch::new(window_width, window_height), path }
    }

    pub fn path(&self) -> (r: &String)
        ensures
            r@ == self.path_view(),
    {
        &self.path
    }

    /// The geometry queued for this image.
    pub fn batch(&self) -> (r: &Batch)
        ensures
            *r == self.content(),
    {
        &self.batch
    }

    /// Queues an axis-aligned quad, as `Batch::add_quad` does.
    pub fn add_quad(
        &mut self,
        position: [i32; 2],
        width: i32,
        height: i32,
        color: Color,
        style: i32,
        use_pixel_space: bool,
        variator: i32,
    )
        requires
            old(self).wf(),
        ensures
            final(self).wf(),
            final(self).path_view() == old(self).path_view(),
            final(self).content().vertices() == old(self).content().vertices() + quad_vertices(
                position,
                width,
                height,
                color,
                style,
                use_pixel_space,
                variator,
                old(self).content().surface_width(),
                old(self).content().surface_height(),
            ),
            final(self).content().indices() == old(self).content().indices() + quad_indices(
                old(self).content().quad_count(),
            ),
            final(self).content().surface_width() == old(self).content().surface_width(),
            final(self).content().surface_height() == old(self).content().surface_height(),
    {
        self.batch.add_quad(position, width, height, color, style, use_pixel_space, variator);
    }

    /// Queues a quad with four given corners, as `Batch::raw_quad` does.
    pub fn raw_quad(
        &mut self,
        p1: [i32; 2],
        p2: [i32; 2],
        p3: [i32; 2],
        p4: [i32; 2],
        color: Color,
        style: i32,
        use_pixel_space: bool,
        variator: i32,
    )
        requires
            old(self).wf(),
        ensures
            final(self).wf(),
            final(self).path_view() == old(self).path_view(),
            final(self).content().vertices() == old(self).content().vertices() + raw_quad_vertices(
                p1,
                p2,
                p3,
                p4,
                color,
                style,
                use_pixel_space,
                variator,
                old(self).content().surface_width(),
                old(self).content().surface_height(),
            ),
            final(self).content().indices() == old(self).content().indices() + quad_indices(
                old(self).content().quad_count(),
            ),
            final(self).content().surface_width() == old(self).content().surface_width(),
            final(self).content().surface_height() == old(self).content().surface_height(),
    {
        self.batch.raw_quad(p1, p2, p3, p4, color, style, use_pixel_space, variator);
    }

    /// Flushes the queued geometry, as `Batch::draw` does.
    pub fn draw(&mut self, framebuffer_width: u32, framebuffer_height: u32) -> (chunks: Vec<DrawChunk>)
        requires
            old(self).wf(),
        ensures
            final(self).wf(),
            final(self).path_view() == old(self).path_view(),
            final(self).content().vertices() == Seq::<Vertex>::empty(),
            final(self).content().surface_width() == refreshed(
                old(self).content().surface_width(),
                framebuffer_width,
            ),
            final(self).content().surface_height() == refreshed(
                old(self).content().surface_height(),
                framebuffer_height,
            ),
            is_flush_of(chunks@, old(self).content()),
    {
        self.batch.draw(framebuffer_width, framebuffer_height)
    }
}

} // verus!
