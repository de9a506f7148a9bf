use vstd::prelude::*;
use vstd::string::StrSliceExecFns;

verus! {

/// What `str::to_uppercase` makes of a string.
pub uninterp spec fn upper_of(s: Seq<char>) -> Seq<char>;

/// Relies on `str::to_uppercase`: the upper-case form of `s`, which depends
/// on its characters alone.
#[verifier::external_body]
fn uppercase(s: &str) -> (r: String)
    ensures
        r@ == upper_of(s@),
{
    s.to_uppercase()
}

/// The font image of a character: one per letter `A` to `Z` and one for `!`.
pub open spec fn glyph_file(c: char) -> Option<Seq<char>> {
    match c {
        'A' => Some("src/assets/font/a.png"@),
        'B' => Some("src/assets/font/b.png"@),
        'C' => Some("src/assets/font/c.png"@),
        'D' => Some("src/assets/font/d.png"@),
        'E' => Some("src/assets/font/e.png"@),
        'F' => Some("src/assets/font/f.png"@),
        'G' => Some("src/assets/font/g.png"@),
        'H' => Some("src/assets/font/h.png"@),
        'I' => Some("src/assets/font/i.png"@),
        'J' => Some("src/assets/font/j.png"@),
        'K' => Some("src/assets/font/k.png"@),
        'L' => Some("src/assets/font/l.png"@),
        'M' => Some("src/assets/font/m.png"@),
        'N' => Some("src/assets/font/n.png"@),
        'O' => Some("src/assets/font/o.png"@),
        'P' => Some("src/assets/font/p.png"@),
        'Q' => Some("src/assets/font/q.png"@),
        'R' => Some("src/assets/font/r.png"@),
        'S' => Some("src/assets/font/s.png"@),
        'T' => Some("src/assets/font/t.png"@),
        'U' => Some("src/assets/font/u.png"@),
        'V' => Some("src/assets/font/v.png"@),
        'W' => Some("src/assets/font/w.png"@),
        'X' => Some("src/assets/font/x.png"@),
        'Y' => Some("src/assets/font/y.png"@),
        'Z' => Some("src/assets/font/z.png"@),
        '!' => Some("src/assets/font/!.png"@),
        _ => None,
    }
}

fn glyph_path(c: char) -> (r: Option<&'static str>)
    ensures
        match r {
            Some(p) => glyph_file(c) == Some(p@),
            None => glyph_file(c) is None,
        },
{
    match c {
        'A' => Some("src/assets/font/a.png"),
        'B' => Some("src/assets/font/b.png"),
        'C' => Some("src/assets/font/c.png"),
        'D' => Some("src/assets/font/d.png"),
        'E' => Some("src/assets/font/e.png"),
        'F' => Some("src/assets/font/f.png"),
        'G' => Some("src/assets/font/g.png"),
        'H' => Some("src/assets/font/h.png"),
        'I' => Some("src/assets/font/i.png"),
        'J' => Some("src/assets/font/j.png"),
        'K' => Some("src/assets/font/k.png"),
        'L' => Some("src/assets/font/l.png"),
        'M' => Some("src/assets/font/m.png"),
        'N' => Some("src/assets/font/n.png"),
        'O' => Some("src/assets/font/o.png"),
        'P' => Some("src/assets/font/p.png"),
        'Q' => Some("src/assets/font/q.png"),
        'R' => Some("src/assets/font/r.png"),
        'S' => Some("src/assets/font/s.png"),
        'T' => Some("src/assets/font/t.png"),
        'U' => Some("src/assets/font/u.png"),
        'V' => Some("src/assets/font/v.png"),
        'W' => Some("src/assets/font/w.png"),
        'X' => Some("src/assets/font/x.png"),
        'Y' => Some("src/assets/font/y.png"),
        'Z' => Some("src/assets/font/z.png"),
        '!' => Some("src/assets/font/!.png"),
        _ => None,
    }
}

/// One character of a line of text: the top-left corner and side of its
/// square, and the path of its font image.
pub struct Glyph {
    pub position: [i32; 2],
    pub size: i32,
    pub path: String,
}

/// Left edge of character `i` of a line that starts at `x` with characters
/// `size` pixels wide.
pub open spec fn glyph_x(x: i32, size: i32, i: int) -> int {
    x + size * i
}

/// The glyphs of the first `n` characters of `upper`, as
/// `(left edge, top edge, font image)`: one for each character that has a font
/// image and whose left edge is a valid coordinate.
pub open spec fn text_glyphs(upper: Seq<char>, pos: [i32; 2], size: i32, n: int) -> Seq<(int, int, Seq<char>)>
    decreases n,
{
    if n <= 0 {
        Seq::empty()
    } else {
        let rest = text_glyphs(upper, pos, size, n - 1);
        let x = glyph_x(pos[0], size, n - 1);
        match glyph_file(upper[n - 1]) {
            Some(f) => if i32::MIN <= x <= i32::MAX {
                rest.push((x, pos[1] as int, f))
            } else {
                rest
            },
            None => rest,
        }
    }
}

/// `g` is the glyph described by `t`, `size` pixels on a side.
pub open spec fn glyph_matches(g: Glyph, t: (int, int, Seq<char>), size: i32) -> bool {
    &&& g.position[0] == t.0
    &&& g.position[1] == t.1
    &&& g.path@ == t.2
    &&& g.size == size
}

/// Lays out a line of upper-case text: character `i` of `upper` becomes a
/// square of side `size` at `pos` moved `size * i` pixels right, showing its
/// font image. Characters without one take their place but show nothing.
pub fn layout_text(upper: &str, pos: [i32; 2], size: i32) -> (r: Vec<Glyph>)
    ensures
        r@.len() == text_glyphs(upper@, pos, size, upper@.len() as int).len(),
        forall|k: int|
            0 <= k < r@.len() ==> glyph_matches(
                #[trigger] r@[k],
                text_glyphs(upper@, pos, size, upper@.len() as int)[k],
                size,
            ),
{
    let n = upper.unicode_len();
    let mut r: Vec<Glyph> = Vec::new();
    let mut i: usize = 0;
    while i < n
        invariant
            n == upper@.len(),
            i <= n,
            r@.len() == text_glyphs(upper@, pos, size, i as int).len(),
            forall|k: int|
                0 <= k < r@.len() ==> glyph_matches(#[trigger] r@[k], text_glyphs(upper@, pos, size, i as int)[k], size),
        decreases n - i,
    {
        let c = upper.get_char(i);
        match glyph_path(c) {
            Some(p) => {
                proof {
                    assert((size as int) * (i as int) <= 0x8000_0000 * 0x1_0000_0000_0000_0000) by (nonlinear_arith)
                        requires
                            -0x8000_0000 <= size < 0x8000_0000,
                            0 <= i < 0x1_0000_0000_0000_0000,
                    ;
                    assert((size as int) * (i as int) >= -0x8000_0000 * 0x1_0000_0000_0000_0000) by (nonlinear_arith)
                        requires
                            -0x8000_0000 <= size < 0x8000_0000,
                            0 <= i < 0x1_0000_0000_0000_0000,
                    ;
                }
                let x: i128 = pos[0] as i128 + (size as i128) * (i as i128);
                if i32::MIN as i128 <= x && x <= i32::MAX as i128 {
                    r.push(Glyph { position: [x as i32, pos[1]], size, path: p.to_owned() });
                }
            },
            None => {},
        }
        i = i + 1;
    }
    r
}

/// The glyphs of `string` written in upper case at `pos`, as `layout_text`
/// lays them out.
pub fn text_layout(string: &str, pos: [i32; 2], size: i32) -> (r: Vec<Glyph>)
    ensures
        r@.len() == text_glyphs(upper_of(string@), pos, size, upper_of(string@).len() as int).len(),
        forall|k: int|
            0 <= k < r@.len() ==> glyph_matches(
                #[trigger] r@[k],
                text_glyphs(upper_of(string@), pos, size, upper_of(string@).len() as int)[k],
                size,
            ),
{
    let upper = uppercase(string);
    layout_text(upper.as_str(), pos, size)
}

} // verus!
