//! The 64 x 32 monochrome display and sprite drawing.

use vstd::prelude::*;

verus! {

/// Width of the display in pixels.
pub const WIDTH: usize = 64;

/// Height of the display in pixels.
pub const HEIGHT: usize = 32;

/// The display: `pixels[y][x]` is whether the pixel in column `x` of row `y`
/// is lit.
pub struct Display {
    pub pixels: [[bool; WIDTH]; HEIGHT],
}

impl View for Display {
    type V = Seq<Seq<bool>>;

    /// Row `y`, entry `x` of the view is whether pixel `(x, y)` is lit.
    open spec fn view(&self) -> Seq<Seq<bool>> {
        self.pixels@.map_values(|row: [bool; WIDTH]| row@)
    }
}

/// A display with every pixel dark.
pub open spec fn blank_screen() -> Seq<Seq<bool>> {
    Seq::new(HEIGHT as nat, |y: int| Seq::new(WIDTH as nat, |x: int| false))
}

/// Whether a pixel grid has the shape of the display.
pub open spec fn is_screen(p: Seq<Seq<bool>>) -> bool {
    &&& p.len() == HEIGHT
    &&& forall|y: int| 0 <= y < HEIGHT ==> #[trigger] p[y].len() == WIDTH
}

/// Whether bit `col` of a sprite row is set, counting from the most
/// significant bit (column 0) to the least significant (column 7).
pub open spec fn sprite_bit(byte: u8, col: int) -> bool {
    (byte >> ((7 - col) as u8)) & 1u8 == 1u8
}

/// The grid with pixel `(px, py)` flipped.
pub open spec fn flip(p: Seq<Seq<bool>>, px: int, py: int) -> Seq<Seq<bool>> {
    p.update(py, p[py].update(px, !p[py][px]))
}

/// Pixels and collision flag after XOR-drawing the first `ncols` columns of
/// the sprite row `byte` with its left end at column `x` of row `y`, both
/// wrapping around the screen edges.
pub open spec fn draw_row(p: Seq<Seq<bool>>, hit: bool, x: int, y: int, byte: u8, ncols: nat) -> (Seq<Seq<bool>>, bool)
    decreases ncols,
{
    if ncols == 0 {
        (p, hit)
    } else {
        let (q, h) = draw_row(p, hit, x, y, byte, (ncols - 1) as nat);
        let col = ncols - 1;
        if sprite_bit(byte, col) {
            let px = (x + col) % (WIDTH as int);
            let py = y % (HEIGHT as int);
            (flip(q, px, py), h || q[py][px])
        } else {
            (q, h)
        }
    }
}

/// Pixels and collision flag after XOR-drawing the first `nrows` rows of
/// `sprite` with its top-left corner at `(x, y)`; row `r` of the sprite goes
/// to screen row `y + r`.
pub open spec fn draw_rows(p: Seq<Seq<bool>>, hit: bool, x: int, y: int, sprite: Seq<u8>, nrows: nat) -> (Seq<Seq<bool>>, bool)
    decreases nrows,
{
    if nrows == 0 {
        (p, hit)
    } else {
        let (q, h) = draw_rows(p, hit, x, y, sprite, (nrows - 1) as nat);
        draw_row(q, h, x, y + nrows - 1, sprite[nrows - 1], 8)
    }
}

/// Pixels and collision flag after drawing the whole of `sprite` at `(x, y)`
/// on `p`.
pub open spec fn draw(p: Seq<Seq<bool>>, x: int, y: int, sprite: Seq<u8>) -> (Seq<Seq<bool>>, bool) {
    draw_rows(p, false, x, y, sprite, sprite.len())
}

proof fn lemma_draw_row_keeps_shape(p: Seq<Seq<bool>>, hit: bool, x: int, y: int, byte: u8, ncols: nat)
    requires
        is_screen(p),
    ensures
        is_screen(draw_row(p, hit, x, y, byte, ncols).0),
    decreases ncols,
{
    if ncols > 0 {
        lemma_draw_row_keeps_shape(p, hit, x, y, byte, (ncols - 1) as nat);
        let q = draw_row(p, hit, x, y, byte, (ncols - 1) as nat).0;
        let col = ncols - 1;
        if sprite_bit(byte, col) {
            let px = (x + col) % (WIDTH as int);
            let py = y % (HEIGHT as int);
            assert forall|yy: int| 0 <= yy < HEIGHT implies #[trigger] flip(q, px, py)[yy].len() == WIDTH by {
                if yy != py {
                    assert(flip(q, px, py)[yy] == q[yy]);
                }
            }
        }
    }
}


proof fn lemma_draw_rows_keeps_shape(p: Seq<Seq<bool>>, hit: bool, x: int, y: int, sprite: Seq<u8>, nrows: nat)
    requires
        is_screen(p),
    ensures
        is_screen(draw_rows(p, hit, x, y, sprite, nrows).0),
    decreases nrows,
{
    if nrows > 0 {
        lemma_draw_rows_keeps_shape(p, hit, x, y, sprite, (nrows - 1) as nat);
        let (q, h) = draw_rows(p, hit, x, y, sprite, (nrows - 1) as nat);
        lemma_draw_row_keeps_shape(q, h, x, y + nrows - 1, sprite[nrows - 1], 8);
    }
}

/// Drawing keeps the shape of the display.
pub proof fn lemma_draw_keeps_shape(p: Seq<Seq<bool>>, x: int, y: int, sprite: Seq<u8>)
    requires
        is_screen(p),
    ensures
        is_screen(draw(p, x, y, sprite).0),
{
    lemma_draw_rows_keeps_shape(p, false, x, y, sprite, sprite.len());
}

/// Whether some set bit among the first `ncols` columns of the sprite row
/// `byte`, placed with its left end at column `x`, lands in column `px`.
pub open spec fn row_covers(x: int, byte: u8, ncols: int, px: int) -> bool {
    exists|c: int| 0 <= c < ncols && sprite_bit(byte, c) && #[trigger] ((x + c) % (WIDTH as int)) == px
}

/// Whether some set bit of the first `nrows` rows of `sprite`, placed with
/// its top-left corner at `(x, y)`, lands on pixel `(px, py)`.
pub open spec fn covers(x: int, y: int, sprite: Seq<u8>, nrows: int, px: int, py: int) -> bool {
    exists|r: int| 0 <= r < nrows && #[trigger] ((y + r) % (HEIGHT as int)) == py && row_covers(x, sprite[r], 8, px)
}

/// Whether some set bit among the first `ncols` columns of `byte`, placed at
/// column `x` of row `y`, lands on a lit pixel of `p`.
pub open spec fn row_hits(p: Seq<Seq<bool>>, x: int, y: int, byte: u8, ncols: int) -> bool {
    exists|c: int| 0 <= c < ncols && sprite_bit(byte, c) && #[trigger] p[y % (HEIGHT as int)][(x + c) % (WIDTH as int)]
}

/// Whether some set bit of the first `nrows` rows of `sprite`, placed at
/// `(x, y)`, lands on a lit pixel of `p`.
pub open spec fn hits(p: Seq<Seq<bool>>, x: int, y: int, sprite: Seq<u8>, nrows: int) -> bool {
    exists|r: int| 0 <= r < nrows && #[trigger] row_hits(p, x, y + r, sprite[r], 8)
}

/// Positions less than a modulus apart have different remainders.
proof fn lemma_mod_apart(a: int, d: int, m: int)
    requires
        0 < d < m,
        m == WIDTH || m == HEIGHT,
    ensures
        a % m != (a + d) % m,
{
    if m == WIDTH {
        assert(a % 64 != (a + d) % 64);
    } else {
        assert(a % 32 != (a + d) % 32);
    }
}

proof fn lemma_draw_row_flips(q: Seq<Seq<bool>>, h: bool, x: int, yy: int, b: u8, n: nat)
    requires
        is_screen(q),
        n <= 8,
    ensures
        is_screen(draw_row(q, h, x, yy, b, n).0),
        forall|px: int, py: int| 0 <= px < WIDTH && 0 <= py < HEIGHT ==>
            #[trigger] draw_row(q, h, x, yy, b, n).0[py][px]
                == (q[py][px] != (py == yy % (HEIGHT as int) && row_covers(x, b, n as int, px))),
        draw_row(q, h, x, yy, b, n).1 == (h || row_hits(q, x, yy, b, n as int)),
    decreases n,
{
    lemma_draw_row_keeps_shape(q, h, x, yy, b, n);
    if n > 0 {
        let m = (n - 1) as nat;
        lemma_draw_row_flips(q, h, x, yy, b, m);
        let (r, hr) = draw_row(q, h, x, yy, b, m);
        let c0 = n - 1;
        let px0 = (x + c0) % (WIDTH as int);
        let py0 = yy % (HEIGHT as int);
        assert(!row_covers(x, b, m as int, px0)) by {
            if row_covers(x, b, m as int, px0) {
                let c = choose|c: int| 0 <= c < m && sprite_bit(b, c) && #[trigger] ((x + c) % (WIDTH as int)) == px0;
                lemma_mod_apart(x + c, c0 - c, WIDTH as int);
            }
        }
        let res = draw_row(q, h, x, yy, b, n);
        if sprite_bit(b, c0) {
            assert(r[py0][px0] == q[py0][px0]);
            assert forall|px: int, py: int| 0 <= px < WIDTH && 0 <= py < HEIGHT implies
                #[trigger] res.0[py][px] == (q[py][px] != (py == py0 && row_covers(x, b, n as int, px))) by {
                if row_covers(x, b, n as int, px) && !row_covers(x, b, m as int, px) {
                    let c = choose|c: int| 0 <= c < n && sprite_bit(b, c) && #[trigger] ((x + c) % (WIDTH as int)) == px;
                    assert(c == c0);
                }
                if px == px0 {
                    assert(row_covers(x, b, n as int, px)) by {
                        assert(0 <= c0 < n && sprite_bit(b, c0) && ((x + c0) % (WIDTH as int)) == px);
                    }
                }
                if row_covers(x, b, m as int, px) {
                    let c = choose|c: int| 0 <= c < m && sprite_bit(b, c) && #[trigger] ((x + c) % (WIDTH as int)) == px;
                    assert(0 <= c < n && sprite_bit(b, c) && ((x + c) % (WIDTH as int)) == px);
                }
            }
            assert(res.1 == (h || row_hits(q, x, yy, b, n as int))) by {
                if row_hits(q, x, yy, b, n as int) && !row_hits(q, x, yy, b, m as int) {
                    let c = choose|c: int| 0 <= c < n && sprite_bit(b, c) && #[trigger] q[yy % (HEIGHT as int)][(x + c) % (WIDTH as int)];
                    assert(c == c0);
                }
                if q[py0][px0] {
                    assert(0 <= c0 < n && sprite_bit(b, c0) && q[yy % (HEIGHT as int)][(x + c0) % (WIDTH as int)]);
                }
                if row_hits(q, x, yy, b, m as int) {
                    let c = choose|c: int| 0 <= c < m && sprite_bit(b, c) && #[trigger] q[yy % (HEIGHT as int)][(x + c) % (WIDTH as int)];
                    assert(0 <= c < n && sprite_bit(b, c) && q[yy % (HEIGHT as int)][(x + c) % (WIDTH as int)]);
                }
            }
        } else {
            assert forall|px: int, py: int| 0 <= px < WIDTH && 0 <= py < HEIGHT implies
                #[trigger] res.0[py][px] == (q[py][px] != (py == py0 && row_covers(x, b, n as int, px))) by {
                if row_covers(x, b, n as int, px) {
                    let c = choose|c: int| 0 <= c < n && sprite_bit(b, c) && #[trigger] ((x + c) % (WIDTH as int)) == px;
                    assert(0 <= c < m && sprite_bit(b, c) && ((x + c) % (WIDTH as int)) == px);
                }
                if row_covers(x, b, m as int, px) {
                    let c = choose|c: int| 0 <= c < m && sprite_bit(b, c) && #[trigger] ((x + c) % (WIDTH as int)) == px;
                    assert(0 <= c < n && sprite_bit(b, c) && ((x + c) % (WIDTH as int)) == px);
                }
            }
            assert(res.1 == (h || row_hits(q, x, yy, b, n as int))) by {
                if row_hits(q, x, yy, b, n as int) {
                    let c = choose|c: int| 0 <= c < n && sprite_bit(b, c) && #[trigger] q[yy % (HEIGHT as int)][(x + c) % (WIDTH as int)];
                    assert(0 <= c < m && sprite_bit(b, c) && q[yy % (HEIGHT as int)][(x + c) % (WIDTH as int)]);
                }
                if row_hits(q, x, yy, b, m as int) {
                    let c = choose|c: int| 0 <= c < m && sprite_bit(b, c) && #[trigger] q[yy % (HEIGHT as int)][(x + c) % (WIDTH as int)];
                    assert(0 <= c < n && sprite_bit(b, c) && q[yy % (HEIGHT as int)][(x + c) % (WIDTH as int)]);
                }
            }
        }
    }
}

proof fn lemma_draw_rows_flips(p: Seq<Seq<bool>>, h: bool, x: int, y: int, sprite: Seq<u8>, n: nat)
    requires
        is_screen(p),
        n <= sprite.len(),
        n <= HEIGHT,
    ensures
        is_screen(draw_rows(p, h, x, y, sprite, n).0),
        forall|px: int, py: int| 0 <= px < WIDTH && 0 <= py < HEIGHT ==>
            #[trigger] draw_rows(p, h, x, y, sprite, n).0[py][px] == (p[py][px] != covers(x, y, sprite, n as int, px, py)),
        draw_rows(p, h, x, y, sprite, n).1 == (h || hits(p, x, y, sprite, n as int)),
    decreases n,
{
    if n > 0 {
        let m = (n - 1) as nat;
        lemma_draw_rows_flips(p, h, x, y, sprite, m);
        let (q, hq) = draw_rows(p, h, x, y, sprite, m);
        let yy = y + m;
        let row = yy % (HEIGHT as int);
        lemma_draw_row_flips(q, hq, x, yy, sprite[m as int], 8);
        let res = draw_rows(p, h, x, y, sprite, n);
        assert forall|r: int| 0 <= r < m implies #[trigger] ((y + r) % (HEIGHT as int)) != row by {
            lemma_mod_apart(y + r, m - r, HEIGHT as int);
        }
        assert forall|px: int| 0 <= px < WIDTH implies #[trigger] q[row][px] == p[row][px] by {
            if covers(x, y, sprite, m as int, px, row) {
                let r = choose|r: int| 0 <= r < m && #[trigger] ((y + r) % (HEIGHT as int)) == row && row_covers(x, sprite[r], 8, px);
            }
        }
        assert forall|px: int, py: int| 0 <= px < WIDTH && 0 <= py < HEIGHT implies
            #[trigger] res.0[py][px] == (p[py][px] != covers(x, y, sprite, n as int, px, py)) by {
            if covers(x, y, sprite, n as int, px, py) {
                let r = choose|r: int| 0 <= r < n && #[trigger] ((y + r) % (HEIGHT as int)) == py && row_covers(x, sprite[r], 8, px);
                if r < m {
                    assert(covers(x, y, sprite, m as int, px, py));
                }
            }
            if covers(x, y, sprite, m as int, px, py) {
                let r = choose|r: int| 0 <= r < m && #[trigger] ((y + r) % (HEIGHT as int)) == py && row_covers(x, sprite[r], 8, px);
                assert(0 <= r < n && ((y + r) % (HEIGHT as int)) == py && row_covers(x, sprite[r], 8, px));
            }
            if py == row && row_covers(x, sprite[m as int], 8, px) {
                assert(0 <= m < n && ((y + m) % (HEIGHT as int)) == py && row_covers(x, sprite[m as int], 8, px));
            }
        }
        assert(row_hits(q, x, yy, sprite[m as int], 8) == row_hits(p, x, yy, sprite[m as int], 8)) by {
            if row_hits(q, x, yy, sprite[m as int], 8) {
                let c = choose|c: int| 0 <= c < 8 && sprite_bit(sprite[m as int], c) && #[trigger] q[yy % (HEIGHT as int)][(x + c) % (WIDTH as int)];
                assert(p[yy % (HEIGHT as int)][(x + c) % (WIDTH as int)]);
            }
            if row_hits(p, x, yy, sprite[m as int], 8) {
                let c = choose|c: int| 0 <= c < 8 && sprite_bit(sprite[m as int], c) && #[trigger] p[yy % (HEIGHT as int)][(x + c) % (WIDTH as int)];
                assert(q[yy % (HEIGHT as int)][(x + c) % (WIDTH as int)]);
            }
        }
        assert(res.1 == (h || hits(p, x, y, sprite, n as int))) by {
            if hits(p, x, y, sprite, n as int) {
                let r = choose|r: int| 0 <= r < n && #[trigger] row_hits(p, x, y + r, sprite[r], 8);
                if r < m {
                    assert(hits(p, x, y, sprite, m as int));
                }
            }
            if hits(p, x, y, sprite, m as int) {
                let r = choose|r: int| 0 <= r < m && #[trigger] row_hits(p, x, y + r, sprite[r], 8);
                assert(0 <= r < n && row_hits(p, x, y + r, sprite[r], 8));
            }
            if row_hits(p, x, yy, sprite[m as int], 8) {
                assert(0 <= m < n && row_hits(p, x, y + m, sprite[m as int], 8));
            }
        }
    }
}

/// Drawing a sprite of at most 32 rows flips exactly the pixels that its set
/// bits land on, and reports a collision exactly when one of those pixels
/// was lit.
pub proof fn lemma_draw_flips_covered(p: Seq<Seq<bool>>, x: int, y: int, sprite: Seq<u8>)
    requires
        is_screen(p),
        sprite.len() <= HEIGHT,
    ensures
        is_screen(draw(p, x, y, sprite).0),
        forall|px: int, py: int| 0 <= px < WIDTH && 0 <= py < HEIGHT ==>
            #[trigger] draw(p, x, y, sprite).0[py][px] == (p[py][px] != covers(x, y, sprite, sprite.len() as int, px, py)),
        draw(p, x, y, sprite).1 == exists|px: int, py: int|
            0 <= px < WIDTH && 0 <= py < HEIGHT && #[trigger] covers(x, y, sprite, sprite.len() as int, px, py) && p[py][px],
{
    let n = sprite.len();
    lemma_draw_rows_flips(p, false, x, y, sprite, n);
    let e = exists|px: int, py: int|
        0 <= px < WIDTH && 0 <= py < HEIGHT && #[trigger] covers(x, y, sprite, n as int, px, py) && p[py][px];
    if hits(p, x, y, sprite, n as int) {
        let r = choose|r: int| 0 <= r < n && #[trigger] row_hits(p, x, y + r, sprite[r], 8);
        let c = choose|c: int| 0 <= c < 8 && sprite_bit(sprite[r], c) && #[trigger] p[(y + r) % (HEIGHT as int)][(x + c) % (WIDTH as int)];
        let px = (x + c) % (WIDTH as int);
        let py = (y + r) % (HEIGHT as int);
        assert(row_covers(x, sprite[r], 8, px));
        assert(covers(x, y, sprite, n as int, px, py));
        assert(e);
    }
    if e {
        let (px, py) = choose|px: int, py: int|
            0 <= px < WIDTH && 0 <= py < HEIGHT && #[trigger] covers(x, y, sprite, n as int, px, py) && p[py][px];
        let r = choose|r: int| 0 <= r < n && #[trigger] ((y + r) % (HEIGHT as int)) == py && row_covers(x, sprite[r], 8, px);
        let c = choose|c: int| 0 <= c < 8 && sprite_bit(sprite[r], c) && #[trigger] ((x + c) % (WIDTH as int)) == px;
        assert(p[(y + r) % (HEIGHT as int)][(x + c) % (WIDTH as int)]);
        assert(row_hits(p, x, y + r, sprite[r], 8));
    }
}

/// Whether a pixel position lies on the display.
pub open spec fn on_screen(c: (int, int)) -> bool {
    0 <= c.0 < WIDTH && 0 <= c.1 < HEIGHT
}

/// The grid after flipping the pixels `cells`, one `(x, y)` position after
/// another.
pub open spec fn flip_all(p: Seq<Seq<bool>>, cells: Seq<(int, int)>) -> Seq<Seq<bool>>
    decreases cells.len(),
{
    if cells.len() == 0 {
        p
    } else {
        let c = cells.last();
        flip(flip_all(p, cells.drop_last()), c.0, c.1)
    }
}

/// The positions flipped by drawing the first `ncols` columns of the sprite
/// row `byte` at column `x` of row `y`, in drawing order.
pub open spec fn row_cells(x: int, y: int, byte: u8, ncols: nat) -> Seq<(int, int)>
    decreases ncols,
{
    if ncols == 0 {
        Seq::empty()
    } else {
        let col = ncols - 1;
        let before = row_cells(x, y, byte, (ncols - 1) as nat);
        if sprite_bit(byte, col) {
            before.push(((x + col) % (WIDTH as int), y % (HEIGHT as int)))
        } else {
            before
        }
    }
}

/// The positions flipped by drawing the first `nrows` rows of `sprite` at
/// `(x, y)`, in drawing order.
pub open spec fn sprite_cells(x: int, y: int, sprite: Seq<u8>, nrows: nat) -> Seq<(int, int)>
    decreases nrows,
{
    if nrows == 0 {
        Seq::empty()
    } else {
        sprite_cells(x, y, sprite, (nrows - 1) as nat) + row_cells(x, y + nrows - 1, sprite[nrows - 1], 8)
    }
}

proof fn lemma_row_cells_on_screen(x: int, y: int, byte: u8, ncols: nat)
    ensures
        forall|i: int| 0 <= i < row_cells(x, y, byte, ncols).len() ==> on_screen(#[trigger] row_cells(x, y, byte, ncols)[i]),
    decreases ncols,
{
    if ncols > 0 {
        lemma_row_cells_on_screen(x, y, byte, (ncols - 1) as nat);
        let col = ncols - 1;
        let c = ((x + col) % (WIDTH as int), y % (HEIGHT as int));
        assert(on_screen(c));
        let before = row_cells(x, y, byte, (ncols - 1) as nat);
        if sprite_bit(byte, col) {
            assert forall|i: int| 0 <= i < before.push(c).len() implies on_screen(#[trigger] before.push(c)[i]) by {
                if i < before.len() {
                    assert(before.push(c)[i] == before[i]);
                }
            }
        }
    }
}

proof fn lemma_sprite_cells_on_screen(x: int, y: int, sprite: Seq<u8>, nrows: nat)
    ensures
        forall|i: int| 0 <= i < sprite_cells(x, y, sprite, nrows).len() ==> on_screen(#[trigger] sprite_cells(x, y, sprite, nrows)[i]),
    decreases nrows,
{
    if nrows > 0 {
        let a = sprite_cells(x, y, sprite, (nrows - 1) as nat);
        let b = row_cells(x, y + nrows - 1, sprite[nrows - 1], 8);
        lemma_sprite_cells_on_screen(x, y, sprite, (nrows - 1) as nat);
        lemma_row_cells_on_screen(x, y + nrows - 1, sprite[nrows - 1], 8);
        assert forall|i: int| 0 <= i < (a + b).len() implies on_screen(#[trigger] (a + b)[i]) by {
            if i >= a.len() {
                assert((a + b)[i] == b[i - a.len()]);
            }
        }
    }
}

proof fn lemma_flip_all_append(p: Seq<Seq<bool>>, a: Seq<(int, int)>, b: Seq<(int, int)>)
    ensures
        flip_all(p, a + b) == flip_all(flip_all(p, a), b),
    decreases b.len(),
{
    if b.len() > 0 {
        lemma_flip_all_append(p, a, b.drop_last());
        assert((a + b).drop_last() =~= a + b.drop_last());
        assert((a + b).last() == b.last());
    } else {
        assert(a + b =~= a);
    }
}

proof fn lemma_draw_row_is_flip_all(q: Seq<Seq<bool>>, h: bool, x: int, y: int, byte: u8, ncols: nat)
    ensures
        draw_row(q, h, x, y, byte, ncols).0 == flip_all(q, row_cells(x, y, byte, ncols)),
    decreases ncols,
{
    if ncols > 0 {
        let before = row_cells(x, y, byte, (ncols - 1) as nat);
        lemma_draw_row_is_flip_all(q, h, x, y, byte, (ncols - 1) as nat);
        let col = ncols - 1;
        if sprite_bit(byte, col) {
            let c = ((x + col) % (WIDTH as int), y % (HEIGHT as int));
            assert(before.push(c).drop_last() =~= before);
        }
    }
}

proof fn lemma_draw_rows_is_flip_all(p: Seq<Seq<bool>>, h: bool, x: int, y: int, sprite: Seq<u8>, nrows: nat)
    ensures
        draw_rows(p, h, x, y, sprite, nrows).0 == flip_all(p, sprite_cells(x, y, sprite, nrows)),
    decreases nrows,
{
    if nrows > 0 {
        let m = (nrows - 1) as nat;
        lemma_draw_rows_is_flip_all(p, h, x, y, sprite, m);
        let (q, hq) = draw_rows(p, h, x, y, sprite, m);
        lemma_draw_row_is_flip_all(q, hq, x, y + nrows - 1, sprite[nrows - 1], 8);
        lemma_flip_all_append(p, sprite_cells(x, y, sprite, m), row_cells(x, y + nrows - 1, sprite[nrows - 1], 8));
    }
}

proof fn lemma_flip_keeps_shape(p: Seq<Seq<bool>>, c: (int, int))
    requires
        is_screen(p),
        on_screen(c),
    ensures
        is_screen(flip(p, c.0, c.1)),
{
    assert forall|yy: int| 0 <= yy < HEIGHT implies #[trigger] flip(p, c.0, c.1)[yy].len() == WIDTH by {
        if yy != c.1 {
            assert(flip(p, c.0, c.1)[yy] == p[yy]);
        }
    }
}

proof fn lemma_flip_twice(p: Seq<Seq<bool>>, c: (int, int))
    requires
        is_screen(p),
        on_screen(c),
    ensures
        flip(flip(p, c.0, c.1), c.0, c.1) == p,
{
    let q = flip(flip(p, c.0, c.1), c.0, c.1);
    assert(q[c.1] =~= p[c.1]);
    assert(q =~= p);
}

proof fn lemma_flips_commute(p: Seq<Seq<bool>>, a: (int, int), b: (int, int))
    requires
        is_screen(p),
        on_screen(a),
        on_screen(b),
    ensures
        flip(flip(p, a.0, a.1), b.0, b.1) == flip(flip(p, b.0, b.1), a.0, a.1),
{
    let l = flip(flip(p, a.0, a.1), b.0, b.1);
    let r = flip(flip(p, b.0, b.1), a.0, a.1);
    if a.1 == b.1 {
        assert(l[a.1] =~= r[a.1]);
    }
    assert(l =~= r);
}

proof fn lemma_flip_all_keeps_shape(p: Seq<Seq<bool>>, cells: Seq<(int, int)>)
    requires
        is_screen(p),
        forall|i: int| 0 <= i < cells.len() ==> on_screen(#[trigger] cells[i]),
    ensures
        is_screen(flip_all(p, cells)),
    decreases cells.len(),
{
    if cells.len() > 0 {
        lemma_flip_all_keeps_shape(p, cells.drop_last());
        lemma_flip_keeps_shape(flip_all(p, cells.drop_last()), cells.last());
    }
}

proof fn lemma_flip_moves_through(p: Seq<Seq<bool>>, c: (int, int), cells: Seq<(int, int)>)
    requires
        is_screen(p),
        on_screen(c),
        forall|i: int| 0 <= i < cells.len() ==> on_screen(#[trigger] cells[i]),
    ensures
        flip_all(flip(p, c.0, c.1), cells) == flip(flip_all(p, cells), c.0, c.1),
    decreases cells.len(),
{
    if cells.len() > 0 {
        let rest = cells.drop_last();
        let d = cells.last();
        lemma_flip_moves_through(p, c, rest);
        lemma_flip_all_keeps_shape(p, rest);
        lemma_flips_commute(flip_all(p, rest), c, d);
    }
}

proof fn lemma_flip_all_twice(p: Seq<Seq<bool>>, cells: Seq<(int, int)>)
    requires
        is_screen(p),
        forall|i: int| 0 <= i < cells.len() ==> on_screen(#[trigger] cells[i]),
    ensures
        flip_all(flip_all(p, cells), cells) == p,
    decreases cells.len(),
{
    if cells.len() > 0 {
        let rest = cells.drop_last();
        let c = cells.last();
        let once = flip_all(p, cells);
        lemma_flip_all_keeps_shape(p, rest);
        let q = flip_all(p, rest);
        lemma_flip_keeps_shape(q, c);
        lemma_flip_moves_through(once, c, rest);
        lemma_flip_twice(q, c);
        lemma_flip_all_keeps_shape(q, rest);
        lemma_flip_moves_through(q, c, rest);
        lemma_flip_all_twice(p, rest);
        assert(flip_all(once, cells) == flip(flip_all(once, rest), c.0, c.1));
        assert(flip_all(once, rest) == flip(flip_all(q, rest), c.0, c.1));
        lemma_flip_all_keeps_shape(q, rest);
        lemma_flip_twice(flip_all(q, rest), c);
    }
}

/// Drawing the same sprite twice at the same place gives back the display it
/// started from: drawing is an XOR, whatever the sprite's length.
pub proof fn lemma_draw_twice_restores(p: Seq<Seq<bool>>, x: int, y: int, sprite: Seq<u8>)
    requires
        is_screen(p),
    ensures
        draw(draw(p, x, y, sprite).0, x, y, sprite).0 == p,
{
    let n = sprite.len();
    let cells = sprite_cells(x, y, sprite, n);
    lemma_sprite_cells_on_screen(x, y, sprite, n);
    lemma_draw_rows_is_flip_all(p, false, x, y, sprite, n);
    lemma_draw_rows_is_flip_all(draw(p, x, y, sprite).0, false, x, y, sprite, n);
    lemma_flip_all_twice(p, cells);
}

/// When the same sprite of at most 32 rows is drawn twice at the same
/// place, the second drawing reports a collision exactly when the sprite
/// lands on a pixel that was dark before the first.
pub proof fn lemma_second_draw_collision(p: Seq<Seq<bool>>, x: int, y: int, sprite: Seq<u8>)
    requires
        is_screen(p),
        sprite.len() <= HEIGHT,
    ensures
        draw(draw(p, x, y, sprite).0, x, y, sprite).1 == exists|px: int, py: int|
            0 <= px < WIDTH && 0 <= py < HEIGHT && #[trigger] covers(x, y, sprite, sprite.len() as int, px, py) && !p[py][px],
{
    let n = sprite.len() as int;
    let once = draw(p, x, y, sprite).0;
    lemma_draw_flips_covered(p, x, y, sprite);
    lemma_draw_flips_covered(once, x, y, sprite);
    let e1 = exists|px: int, py: int|
        0 <= px < WIDTH && 0 <= py < HEIGHT && #[trigger] covers(x, y, sprite, n, px, py) && once[py][px];
    let e2 = exists|px: int, py: int|
        0 <= px < WIDTH && 0 <= py < HEIGHT && #[trigger] covers(x, y, sprite, n, px, py) && !p[py][px];
    if e1 {
        let (px, py) = choose|px: int, py: int|
            0 <= px < WIDTH && 0 <= py < HEIGHT && #[trigger] covers(x, y, sprite, n, px, py) && once[py][px];
        assert(once[py][px] == (p[py][px] != covers(x, y, sprite, n, px, py)));
        assert(e2);
    }
    if e2 {
        let (px, py) = choose|px: int, py: int|
            0 <= px < WIDTH && 0 <= py < HEIGHT && #[trigger] covers(x, y, sprite, n, px, py) && !p[py][px];
        assert(once[py][px] == (p[py][px] != covers(x, y, sprite, n, px, py)));
        assert(e1);
    }
}

impl Display {
    /// The view of a display is a grid of the display's shape.
    pub proof fn lemma_is_screen(&self)
        ensures
            is_screen(self@),
    {
    }

    /// A display with every pixel dark.
    pub fn new() -> (d: Self)
        ensures
            d@ == blank_screen(),
    {
        let d = Display { pixels: [[false; WIDTH]; HEIGHT] };
        assert(d@ =~= blank_screen()) by {
            assert forall|y: int| 0 <= y < HEIGHT implies d@[y] =~= blank_screen()[y] by {}
        }
        d
    }

    /// Turns every pixel dark.
    pub fn clear(&mut self)
        ensures
            final(self)@ == blank_screen(),
    {
        self.pixels = [[false; WIDTH]; HEIGHT];
        assert(self@ =~= blank_screen()) by {
            assert forall|y: int| 0 <= y < HEIGHT implies self@[y] =~= blank_screen()[y] by {}
        }
    }

    /// Whether the pixel in column `width` of row `height` is lit.
    pub fn is_on(&self, width: usize, height: usize) -> (b: bool)
        requires
            width < WIDTH,
            height < HEIGHT,
        ensures
            b == self@[height as int][width as int],
    {
        self.pixels[height][width]
    }

    /// XOR-draws `sprite` with its top-left corner at `(x, y)`, one byte per
    /// row and most significant bit leftmost, wrapping at the screen edges.
    /// Returns whether a lit pixel was turned dark.
    pub fn draw_sprite(&mut self, x: u8, y: u8, sprite: &[u8]) -> (collision: bool)
        ensures
            (final(self)@, collision) == draw(old(self)@, x as int, y as int, sprite@),
    {
        let mut collision = false;
        let start_x = x as usize;
        let start_y = y as usize;
        let mut sprite_row: usize = 0;
        while sprite_row < sprite.len()
            invariant
                sprite_row <= sprite@.len(),
                start_x == x,
                start_y == y,
                (self@, collision) == draw_rows(old(self)@, false, x as int, y as int, sprite@, sprite_row as nat),
            decreases sprite@.len() - sprite_row,
        {
            let sprite_byte = sprite[sprite_row];
            let ghost row_start = self@;
            let ghost hit_start = collision;
            let mut sprite_col: usize = 0;
            while sprite_col < 8
                invariant
                    sprite_col <= 8,
                    sprite_row < sprite@.len(),
                    sprite_byte == sprite@[sprite_row as int],
                    start_x == x,
                    start_y == y,
                    (self@, collision) == draw_row(row_start, hit_start, x as int, y + sprite_row, sprite_byte, sprite_col as nat),
                decreases 8 - sprite_col,
            {
                let shift: u8 = (7 - sprite_col) as u8;
                let bit = (sprite_byte >> shift) & 1;
                if bit != 0 {
                    assert(bit == 1) by (bit_vector)
                        requires
                            bit == (sprite_byte >> shift) & 1u8,
                            bit != 0;
                    let pos_x = (start_x + sprite_col) % WIDTH;
                    let pos_y = (start_y + sprite_row % HEIGHT) % HEIGHT;
                    proof {
                        vstd::arithmetic::div_mod::lemma_add_mod_noop_right(start_y as int, sprite_row as int, HEIGHT as int);
                    }
                    let ghost before = self@;
                    let mut row = self.pixels[pos_y];
                    let was_on = row[pos_x];
                    if was_on {
                        collision = true;
                    }
                    row[pos_x] = !was_on;
                    self.pixels[pos_y] = row;
                    assert(self@ =~= flip(before, pos_x as int, pos_y as int)) by {
                        assert(self@[pos_y as int] =~= flip(before, pos_x as int, pos_y as int)[pos_y as int]);
                    }
                } else {
                    assert(!sprite_bit(sprite_byte, sprite_col as int)) by (bit_vector)
                        requires
                            shift == 7 - sprite_col,
                            (sprite_byte >> shift) & 1u8 == 0;
                }
                sprite_col = sprite_col + 1;
            }
            sprite_row = sprite_row + 1;
        }
        collision
    }
}

} // verus!
