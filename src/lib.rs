//! Batched 2D drawing: shape builders lower quads, circles, lines, triangles and
//! polygons into per-frame vertex/index accumulators, and a flush engine splits
//! each accumulator into draw submissions that fit 16-bit indices.

pub mod animation;
pub mod batch;
pub mod canvas;
pub mod input;
pub mod text;
pub mod texture_batch;
pub mod ticker;
pub mod vertex;

pub use animation::Animation;
pub use batch::{Batch, DrawChunk, QUADS_PER_DRAW};
pub use canvas::{App, FrameSubmission, Options};
pub use input::InputState;
pub use text::{Glyph, layout_text, text_layout};
pub use texture_batch::TextureBatch;
pub use ticker::{LoopAction, LoopEvent, Ticker, TICK_NANOS};
pub use vertex::{Color, Vertex};
