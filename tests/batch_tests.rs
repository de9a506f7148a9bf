use blithaven::{Batch, Color, DrawChunk, Vertex, QUADS_PER_DRAW};

const RED: Color = Color { r: 255, g: 0, b: 0 };

fn block(q: u16) -> Vec<u16> {
    vec![4 * q, 4 * q + 1, 4 * q + 2, 4 * q, 4 * q + 3, 4 * q + 2]
}

#[test]
fn add_quad_counts_and_index_blocks() {
    let mut b = Batch::new(800, 600);
    for k in 0..25 {
        b.add_quad([k, 2 * k], 10, 20, RED, 0, true, 0);
    }
    assert_eq!(b.vertex_buffer().len(), 100);
    assert_eq!(b.index_buffer().len(), 150);
    for q in 0..25u16 {
        let six: Vec<u16> = b.index_buffer()[6 * q as usize..6 * q as usize + 6].to_vec();
        assert_eq!(six, block(q));
    }
}

#[test]
fn raw_quad_counts_and_index_blocks() {
    let mut b = Batch::new(100, 100);
    b.add_quad([0, 0], 1, 1, RED, 0, true, 0);
    b.raw_quad([0, 0], [10, 0], [10, 10], [0, 0], RED, 0, true, 0);
    assert_eq!(b.vertex_buffer().len(), 8);
    assert_eq!(b.index_buffer()[6..12].to_vec(), block(1));
    let v = b.vertex_buffer()[5];
    assert_eq!((v.x, v.y, v.x_den, v.y_den), (40, 0, 100, 100));
    assert_eq!((v.tex_u, v.tex_v), (1, 1));
}

#[test]
fn add_quad_pixel_space_corners() {
    let mut b = Batch::new(200, 100);
    b.add_quad([10, 20], 30, 40, RED, 1, true, 7);
    let v = b.vertex_buffer();
    let xs: Vec<i64> = v.iter().map(|p| p.x).collect();
    let ys: Vec<i64> = v.iter().map(|p| p.y).collect();
    assert_eq!(xs, vec![40, 160, 160, 40]);
    assert_eq!(ys, vec![-80, -80, -240, -240]);
    let tex: Vec<(u8, u8)> = v.iter().map(|p| (p.tex_u, p.tex_v)).collect();
    assert_eq!(tex, vec![(0, 1), (1, 1), (1, 0), (0, 0)]);
    assert!(v.iter().all(|p| p.style == 1 && p.variator == 7 && p.x_den == 200 && p.y_den == 100));
}

#[test]
fn add_quad_normalized_space_corners() {
    let mut b = Batch::new(200, 100);
    b.add_quad([1, -1], 50, 25, RED, 0, false, 0);
    let v = b.vertex_buffer();
    let xs: Vec<i64> = v.iter().map(|p| p.x).collect();
    let ys: Vec<i64> = v.iter().map(|p| p.y).collect();
    // Normalized sizes are taken as given: x runs from 1 to 51, y from -1 down to -26.
    assert_eq!(xs, vec![200, 10200, 10200, 200]);
    assert_eq!(ys, vec![-100, -100, -2600, -2600]);
}

#[test]
fn flush_empties_accumulator() {
    let mut b = Batch::new(640, 480);
    for k in 0..10 {
        b.add_quad([k, k], 5, 5, RED, 0, true, 0);
    }
    let chunks = b.draw(640, 480);
    assert_eq!(chunks.len(), 1);
    assert_eq!(b.vertex_buffer().len(), 0);
    assert_eq!(b.index_buffer().len(), 0);
    let again = b.draw(640, 480);
    assert!(again.is_empty());
}

#[test]
fn flush_of_empty_batch_submits_nothing() {
    let mut b = Batch::new(10, 10);
    assert!(b.draw(10, 10).is_empty());
}

#[test]
fn flush_refreshes_surface_size() {
    let mut b = Batch::new(100, 50);
    b.draw(300, 0);
    assert_eq!((b.window_width(), b.window_height()), (300, 50));
    b.draw(u32::MAX, 70);
    assert_eq!((b.window_width(), b.window_height()), (300, 70));
    b.add_quad([3, 0], 0, 0, RED, 0, true, 0);
    assert_eq!(b.vertex_buffer()[0].x_den, 300);
}

#[test]
fn single_red_quad_flush() {
    let mut b = Batch::new(100, 100);
    b.add_quad([0, 0], 10, 10, RED, 0, true, 0);
    let chunks = b.draw(100, 100);
    assert_eq!(chunks.len(), 1);
    assert_eq!(chunks[0].vertices.len(), 4);
    assert_eq!(chunks[0].indices, vec![0, 1, 2, 0, 3, 2]);
    assert!(chunks[0].vertices.iter().all(|v| v.color == RED));
    let pos: Vec<(i64, i64)> = chunks[0].vertices.iter().map(|v| (v.x, v.y)).collect();
    // A 10-pixel box anchored at the origin: 40/100 clip units on each side.
    assert_eq!(pos, vec![(0, 0), (40, 0), (40, -40), (0, -40)]);
    assert_eq!(b.vertex_buffer().len(), 0);
    assert_eq!(b.index_buffer().len(), 0);
}

fn flat(chunks: &[DrawChunk]) -> (Vec<Vertex>, Vec<u16>) {
    let mut v = Vec::new();
    let mut i = Vec::new();
    for c in chunks {
        v.extend_from_slice(&c.vertices);
        i.extend_from_slice(&c.indices);
    }
    (v, i)
}

#[test]
fn one_quad_over_chunk_boundary() {
    assert_eq!(QUADS_PER_DRAW, 16380);
    let mut b = Batch::new(1024, 768);
    for k in 0..16381 {
        b.add_quad([k % 1000, k / 1000], 2, 2, RED, 0, true, 0);
    }
    let before_v = b.vertex_buffer().clone();
    let before_i = b.index_buffer().clone();
    let chunks = b.draw(1024, 768);
    assert_eq!(chunks.len(), 2);
    assert_eq!(chunks[0].vertices.len(), 4 * 16380);
    assert_eq!(chunks[0].indices.len(), 6 * 16380);
    assert_eq!(chunks[1].vertices.len(), 4);
    assert_eq!(chunks[1].indices.len(), 6);
    let (v, _) = flat(&chunks);
    assert_eq!(v, before_v);
    // Each chunk is numbered from its own first vertex.
    assert_eq!(chunks[1].indices, vec![0, 1, 2, 0, 3, 2]);
    assert_eq!(chunks[0].indices[..], before_i[..6 * 16380]);
    assert!(chunks.iter().all(|c| c.indices.iter().all(|&i| (i as usize) < c.vertices.len())));
    assert_eq!(b.vertex_buffer().len(), 0);
}

#[test]
fn chunk_count_is_ceiling() {
    for &m in &[16380usize, 16379, 32760, 32761, 40000] {
        let mut b = Batch::new(64, 64);
        for _ in 0..m {
            b.add_quad([1, 1], 1, 1, RED, 0, true, 0);
        }
        let before_v = b.vertex_buffer().clone();
        let chunks = b.draw(64, 64);
        assert_eq!(chunks.len(), (m + QUADS_PER_DRAW - 1) / QUADS_PER_DRAW);
        for c in &chunks[..chunks.len() - 1] {
            assert_eq!(c.vertices.len(), 4 * QUADS_PER_DRAW);
        }
        let (v, _) = flat(&chunks);
        assert_eq!(v, before_v);
        for c in &chunks {
            for (t, &i) in c.indices.iter().enumerate() {
                assert_eq!(i as usize, 4 * (t / 6) + [0, 1, 2, 0, 3, 2][t % 6]);
                assert!((i as usize) < c.vertices.len());
            }
        }
    }
}

#[test]
fn indices_wrap_past_sixteen_bits() {
    let mut b = Batch::new(64, 64);
    for _ in 0..16385 {
        b.add_quad([0, 0], 1, 1, RED, 0, true, 0);
    }
    let n = b.index_buffer().len();
    assert_eq!(b.index_buffer()[n - 6..].to_vec(), block(0));
}
