use vstd::prelude::*;

verus! {

/// Width of the framebuffer in pixels.
pub const DISPLAY_WIDTH: usize = 64;

/// Height of the framebuffer in pixels.
pub const DISPLAY_HEIGHT: usize = 32;

/// Number of pixels; the framebuffer is stored row by row.
pub const DISPLAY_SIZE: usize = 2048;

/// Width of a sprite row in pixels.
pub const SPRITE_WIDTH: usize = 8;

/// Pixel `c` (0 is leftmost) of the sprite row `row`, most significant bit first.
pub open spec fn row_pixel(row: u8, c: int) -> bool {
    (row >> ((7 - c) as u8)) & 1u8 == 1u8
}

/// Row of the sprite that lands on pixel `p` when drawn at (`sx`, `sy`).
pub open spec fn sprite_row_at(sy: int, p: int) -> int {
    (p / DISPLAY_WIDTH as int - sy) % DISPLAY_HEIGHT as int
}

/// Column of the sprite that lands on pixel `p` when drawn at (`sx`, `sy`).
pub open spec fn sprite_col_at(sx: int, p: int) -> int {
    (p % DISPLAY_WIDTH as int - sx) % DISPLAY_WIDTH as int
}

/// Whether the sprite `rows`, drawn at (`sx`, `sy`) with both coordinates
/// wrapping around the screen, sets pixel `p`.
pub open spec fn sprite_pixel(rows: Seq<u8>, sx: int, sy: int, p: int) -> bool {
    let r = sprite_row_at(sy, p);
    let c = sprite_col_at(sx, p);
    r < rows.len() && c < SPRITE_WIDTH as int && row_pixel(rows[r], c)
}

/// The framebuffer after XOR-ing the sprite `rows` onto `screen` at (`sx`, `sy`).
pub open spec fn blit(screen: Seq<bool>, rows: Seq<u8>, sx: int, sy: int) -> Seq<bool> {
    Seq::new(screen.len(), |p: int| screen[p] != sprite_pixel(rows, sx, sy, p))
}

/// Whether drawing the sprite turns off at least one lit pixel.
pub open spec fn collides(screen: Seq<bool>, rows: Seq<u8>, sx: int, sy: int) -> bool {
    exists|p: int| 0 <= p < screen.len() && screen[p] && #[trigger] sprite_pixel(rows, sx, sy, p)
}

/// Pixels already visited when the blit is at row `r`, column `c`.
spec fn visited(sx: int, sy: int, r: int, c: int, p: int) -> bool {
    sprite_row_at(sy, p) < r || (sprite_row_at(sy, p) == r && sprite_col_at(sx, p) < c)
}

/// The pixel the blit writes at row `r`, column `c` is the one whose
/// sprite coordinates are (`r`, `c`).
proof fn lemma_target(sx: int, sy: int, r: int, c: int, p: int)
    requires
        0 <= sx < 256,
        0 <= sy < 256,
        0 <= r < 32,
        0 <= c < 8,
        0 <= p < 2048,
    ensures
        p == ((sy + r) % 32) * 64 + (sx + c) % 64 <==> (sprite_row_at(sy, p) == r
            && sprite_col_at(sx, p) == c),
{
}

/// XORs the sprite `ram[start..start + n]` onto `screen` at (`sx`, `sy`), wrapping
/// around both edges, and reports whether a lit pixel was turned off.
pub fn draw_sprite(screen: &mut Vec<bool>, ram: &Vec<u8>, start: usize, n: usize, sx: u8, sy: u8) -> (collision: bool)
    requires
        old(screen)@.len() == DISPLAY_SIZE,
        n < 16,
        start + n <= ram@.len(),
    ensures
        final(screen)@ == blit(old(screen)@, ram@.subrange(start as int, start + n), sx as int, sy as int),
        collision == collides(old(screen)@, ram@.subrange(start as int, start + n), sx as int, sy as int),
{
    let ghost before = screen@;
    let ghost rows = ram@.subrange(start as int, start + n);
    let len = ram.len();
    let mut collision = false;
    let mut r: usize = 0;
    while r < n
        invariant
            r <= n < 16,
            start + n <= ram@.len(),
            ram@.len() == len,
            rows == ram@.subrange(start as int, start + n),
            screen@.len() == DISPLAY_SIZE,
            before.len() == DISPLAY_SIZE,
            forall|p: int| 0 <= p < DISPLAY_SIZE ==> #[trigger] screen@[p] == if visited(sx as int, sy as int, r as int, 0, p) {
                before[p] != sprite_pixel(rows, sx as int, sy as int, p)
            } else {
                before[p]
            },
            collision == exists|p: int| 0 <= p < DISPLAY_SIZE && visited(sx as int, sy as int, r as int, 0, p) && before[p] && #[trigger] sprite_pixel(rows, sx as int, sy as int, p),
        decreases n - r,
    {
        let row = ram[start + r];
        let y = (sy as usize + r) % DISPLAY_HEIGHT;
        let mut c: usize = 0;
        while c < SPRITE_WIDTH
            invariant
                r < n < 16,
                c <= SPRITE_WIDTH,
                start + n <= ram@.len(),
                rows == ram@.subrange(start as int, start + n),
                row == rows[r as int],
                y == (sy as int + r) % 32,
                screen@.len() == DISPLAY_SIZE,
                before.len() == DISPLAY_SIZE,
                forall|p: int| 0 <= p < DISPLAY_SIZE ==> #[trigger] screen@[p] == if visited(sx as int, sy as int, r as int, c as int, p) {
                    before[p] != sprite_pixel(rows, sx as int, sy as int, p)
                } else {
                    before[p]
                },
                collision == exists|p: int| 0 <= p < DISPLAY_SIZE && visited(sx as int, sy as int, r as int, c as int, p) && before[p] && #[trigger] sprite_pixel(rows, sx as int, sy as int, p),
            decreases SPRITE_WIDTH - c,
        {
            let x = (sx as usize + c) % DISPLAY_WIDTH;
            let idx = y * DISPLAY_WIDTH + x;
            let bit = (row >> (7 - c as u8)) & 1u8 == 1u8;
            let old_pixel = screen[idx];
            proof {
                assert forall|p: int| 0 <= p < DISPLAY_SIZE implies (p == idx <==> (sprite_row_at(sy as int, p) == r
                    && sprite_col_at(sx as int, p) == c)) by {
                    lemma_target(sx as int, sy as int, r as int, c as int, p);
                }
                assert(sprite_pixel(rows, sx as int, sy as int, idx as int) == bit);
            }
            screen.set(idx, old_pixel != bit);
            if old_pixel && bit {
                collision = true;
            }
            c = c + 1;
        }
        r = r + 1;
    }
    proof {
        assert(screen@ =~= blit(before, rows, sx as int, sy as int));
    }
    collision
}

} // verus!
