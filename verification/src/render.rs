//! Drawing a game into a buffer of RGBA pixels, four bytes to the pixel, row
//! by row.

use crate::game::{Game, GameView};
use vstd::prelude::*;

verus! {

/// Side of a cell in pixels.
pub const CELL_PX: u32 = 24;

/// Whether byte `i` of a frame `win_w` pixels wide belongs to a pixel of
/// the rectangle with corner `(x, y)` and size `w` by `h`, cut off at the
/// edges of the frame.
pub open spec fn in_rect(i: int, win_w: int, win_h: int, x: int, y: int, w: int, h: int) -> bool {
    let p = i / 4;
    &&& win_w > 0
    &&& x <= p % win_w < x + w
    &&& y <= p / win_w < y + h
    &&& p / win_w < win_h
}

/// The frame with that rectangle in the colour `rgba`.
pub open spec fn painted(
    frame: Seq<u8>,
    win_w: int,
    win_h: int,
    x: int,
    y: int,
    w: int,
    h: int,
    rgba: Seq<u8>,
) -> Seq<u8> {
    Seq::new(
        frame.len(),
        |i: int|
            if in_rect(i, win_w, win_h, x, y, w, h) {
                rgba[i % 4]
            } else {
                frame[i]
            },
    )
}

/// Every pixel of that rectangle lies within the first `len` bytes.
pub open spec fn rect_fits(len: int, win_w: int, win_h: int, x: int, y: int, w: int, h: int) -> bool {
    let x1 = if x + w < win_w {
        x + w
    } else {
        win_w
    };
    let y1 = if y + h < win_h {
        y + h
    } else {
        win_h
    };
    x < x1 && y < y1 ==> 4 * ((y1 - 1) * win_w + x1) <= len
}

/// Byte `i` belongs to a pixel in the columns `[x, x1)` of a row in
/// `[y, py)`, or of the row `py` before the column `px`.
spec fn filled(i: int, win_w: int, x: int, x1: int, y: int, py: int, px: int) -> bool {
    let c = (i / 4) % win_w;
    let r = (i / 4) / win_w;
    win_w > 0 && x <= c < x1 && (y <= r < py || (r == py && c < px))
}

/// The pixel in column `px` of row `py` is pixel `py * win_w + px`, and no
/// other.
proof fn pixel_at(p: int, win_w: int, px: int, py: int)
    requires
        win_w > 0,
        0 <= px < win_w,
        0 <= py,
        0 <= p,
    ensures
        p == py * win_w + px <==> (p / win_w == py && p % win_w == px),
{
    vstd::arithmetic::div_mod::lemma_fundamental_div_mod(p, win_w);
    if p == py * win_w + px {
        vstd::arithmetic::div_mod::lemma_fundamental_div_mod_converse(p, win_w, py, px);
    }
    assert(win_w * (p / win_w) == (p / win_w) * win_w) by (nonlinear_arith);
}

/// Paints the rectangle with corner `(x, y)` and size `w` by `h`, cut off
/// at the edges of the frame, in the colour `rgba`.
pub fn fill_rect(
    frame: &mut [u8],
    win_w: u32,
    win_h: u32,
    x: u32,
    y: u32,
    w: u32,
    h: u32,
    rgba: [u8; 4],
)
    requires
        x + w <= u32::MAX,
        y + h <= u32::MAX,
        rect_fits(
            old(frame)@.len() as int,
            win_w as int,
            win_h as int,
            x as int,
            y as int,
            w as int,
            h as int,
        ),
    ensures
        final(frame)@ == painted(
            old(frame)@,
            win_w as int,
            win_h as int,
            x as int,
            y as int,
            w as int,
            h as int,
            rgba@,
        ),
{
    let x1: u32 = if x + w < win_w {
        x + w
    } else {
        win_w
    };
    let y1: u32 = if y + h < win_h {
        y + h
    } else {
        win_h
    };
    let ghost before = frame@;
    let ghost len = frame@.len() as int;
    if x >= x1 || y >= y1 {
        assert(frame@ =~= painted(
            before,
            win_w as int,
            win_h as int,
            x as int,
            y as int,
            w as int,
            h as int,
            rgba@,
        ));
        return ;
    }
    assert(frame.len() == len);
    let mut py: u32 = y;
    while py < y1
        invariant
            y <= py <= y1,
            x < x1 <= win_w,
            y1 <= win_h,
            frame@.len() == len,
            before.len() == len,
            4 * ((y1 - 1) * win_w + x1) <= len,
            len <= usize::MAX,
            forall|i: int|
                0 <= i < len ==> #[trigger] frame@[i] == (if filled(
                    i,
                    win_w as int,
                    x as int,
                    x1 as int,
                    y as int,
                    py as int,
                    x as int,
                ) {
                    rgba@[i % 4]
                } else {
                    before[i]
                }),
        decreases y1 - py,
    {
        assert(4 * (py * win_w + x1) <= len) by (nonlinear_arith)
            requires
                py < y1,
                4 * ((y1 - 1) * win_w + x1) <= len,
                win_w >= 0,
        ;
        assert(py * win_w * 4 <= len) by (nonlinear_arith)
            requires
                4 * (py * win_w + x1) <= len,
                x1 >= 0,
        ;
        assert(py * win_w <= len) by (nonlinear_arith)
            requires
                py * win_w * 4 <= len,
                py * win_w >= 0,
        ;
        let row_off: usize = (py as usize) * (win_w as usize) * 4;
        let mut px: u32 = x;
        while px < x1
            invariant
                y <= py < y1,
                x <= px <= x1,
                x1 <= win_w,
                frame@.len() == len,
                before.len() == len,
                row_off == py * win_w * 4,
                4 * (py * win_w + x1) <= len,
                len <= usize::MAX,
                forall|i: int|
                    0 <= i < len ==> #[trigger] frame@[i] == (if filled(
                        i,
                        win_w as int,
                        x as int,
                        x1 as int,
                        y as int,
                        py as int,
                        px as int,
                    ) {
                        rgba@[i % 4]
                    } else {
                        before[i]
                    }),
            decreases x1 - px,
        {
            let off: usize = row_off + (px as usize) * 4;
            let ghost p = py * win_w + px;
            let ghost prev = frame@;
            assert(off == 4 * p) by (nonlinear_arith)
                requires
                    off == row_off + px * 4,
                    row_off == py * win_w * 4,
                    p == py * win_w + px,
            ;
            frame[off] = rgba[0];
            frame[off + 1] = rgba[1];
            frame[off + 2] = rgba[2];
            frame[off + 3] = rgba[3];
            assert forall|i: int| 0 <= i < len implies #[trigger] frame@[i] == (if filled(
                i,
                win_w as int,
                x as int,
                x1 as int,
                y as int,
                py as int,
                px + 1,
            ) {
                rgba@[i % 4]
            } else {
                before[i]
            }) by {
                pixel_at(i / 4, win_w as int, px as int, py as int);
                if i / 4 == p {
                    assert(i == off || i == off + 1 || i == off + 2 || i == off + 3);
                } else {
                    assert(frame@[i] == prev[i]);
                }
            }
            px += 1;
        }
        py += 1;
    }
    assert forall|i: int| 0 <= i < len implies filled(
        i,
        win_w as int,
        x as int,
        x1 as int,
        y as int,
        y1 as int,
        x as int,
    ) == in_rect(i, win_w as int, win_h as int, x as int, y as int, w as int, h as int) by {
        vstd::arithmetic::div_mod::lemma_mod_bound(i / 4, win_w as int);
    }
    assert(frame@ =~= painted(
        before,
        win_w as int,
        win_h as int,
        x as int,
        y as int,
        w as int,
        h as int,
        rgba@,
    ));
}

/// A frame that holds the whole window holds every rectangle cut off at
/// the window's edges.
pub proof fn window_fits(len: int, win_w: int, win_h: int, x: int, y: int, w: int, h: int)
    requires
        0 <= win_w,
        0 <= win_h,
        4 * (win_w * win_h) <= len,
        0 <= x,
        0 <= y,
    ensures
        rect_fits(len, win_w, win_h, x, y, w, h),
{
    let x1 = if x + w < win_w {
        x + w
    } else {
        win_w
    };
    let y1 = if y + h < win_h {
        y + h
    } else {
        win_h
    };
    if x < x1 && y < y1 {
        assert((y1 - 1) * win_w + x1 <= win_w * win_h) by (nonlinear_arith)
            requires
                0 < x1 <= win_w,
                0 < y1 <= win_h,
        ;
    }
}

/// Paints the cell `(cx, cy)` of the board.
pub fn draw_cell(frame: &mut [u8], win_w: u32, win_h: u32, cx: u32, cy: u32, rgba: [u8; 4])
    requires
        cx * CELL_PX + CELL_PX <= u32::MAX,
        cy * CELL_PX + CELL_PX <= u32::MAX,
        rect_fits(
            old(frame)@.len() as int,
            win_w as int,
            win_h as int,
            cx * CELL_PX,
            cy * CELL_PX,
            CELL_PX as int,
            CELL_PX as int,
        ),
    ensures
        final(frame)@ == painted(
            old(frame)@,
            win_w as int,
            win_h as int,
            cx * CELL_PX,
            cy * CELL_PX,
            CELL_PX as int,
            CELL_PX as int,
            rgba@,
        ),
{
    let x0: u32 = cx * CELL_PX;
    let y0: u32 = cy * CELL_PX;
    fill_rect(frame, win_w, win_h, x0, y0, CELL_PX, CELL_PX, rgba);
}

/// Colour of the background.
pub open spec fn background() -> Seq<u8> {
    seq![18u8, 18u8, 22u8, 255u8]
}

/// Colour of the grid lines.
pub open spec fn grid_colour() -> Seq<u8> {
    seq![30u8, 30u8, 36u8, 255u8]
}

/// Colour of the food.
pub open spec fn food_colour() -> Seq<u8> {
    seq![200u8, 60u8, 36u8, 255u8]
}

/// Colour of the snake's head.
pub open spec fn head_colour() -> Seq<u8> {
    seq![80u8, 220u8, 120u8, 255u8]
}

/// Colour of the rest of the snake.
pub open spec fn body_colour() -> Seq<u8> {
    seq![60u8, 180u8, 90u8, 255u8]
}

/// The frame with the first `n` vertical grid lines drawn.
pub open spec fn with_columns(frame: Seq<u8>, g: GameView, n: nat) -> Seq<u8>
    decreases n,
{
    if n == 0 {
        frame
    } else {
        painted(
            with_columns(frame, g, (n - 1) as nat),
            g.w * CELL_PX,
            g.h * CELL_PX,
            (n - 1) * CELL_PX,
            0,
            1,
            g.h * CELL_PX,
            grid_colour(),
        )
    }
}

/// The frame with the first `n` horizontal grid lines drawn.
pub open spec fn with_rows(frame: Seq<u8>, g: GameView, n: nat) -> Seq<u8>
    decreases n,
{
    if n == 0 {
        frame
    } else {
        painted(
            with_rows(frame, g, (n - 1) as nat),
            g.w * CELL_PX,
            g.h * CELL_PX,
            0,
            (n - 1) * CELL_PX,
            g.w * CELL_PX,
            1,
            grid_colour(),
        )
    }
}

/// The frame with the first `n` cells of the snake drawn, tail first, the
/// head brighter than the rest.
pub open spec fn with_snake(frame: Seq<u8>, g: GameView, n: nat) -> Seq<u8>
    decreases n,
{
    if n == 0 {
        frame
    } else {
        painted(
            with_snake(frame, g, (n - 1) as nat),
            g.w * CELL_PX,
            g.h * CELL_PX,
            g.snake.body[n - 1].0 * CELL_PX,
            g.snake.body[n - 1].1 * CELL_PX,
            CELL_PX as int,
            CELL_PX as int,
            if n == g.snake.body.len() {
                head_colour()
            } else {
                body_colour()
            },
        )
    }
}

/// The frame with the background laid.
pub open spec fn with_background(frame: Seq<u8>, g: GameView) -> Seq<u8> {
    painted(frame, g.w * CELL_PX, g.h * CELL_PX, 0, 0, g.w * CELL_PX, g.h * CELL_PX, background())
}

/// The frame with the food drawn.
pub open spec fn with_food(frame: Seq<u8>, g: GameView) -> Seq<u8> {
    painted(
        frame,
        g.w * CELL_PX,
        g.h * CELL_PX,
        g.food.0 * CELL_PX,
        g.food.1 * CELL_PX,
        CELL_PX as int,
        CELL_PX as int,
        food_colour(),
    )
}

/// The picture of a game: background, grid, food, then the snake.
pub open spec fn rendered(frame: Seq<u8>, g: GameView) -> Seq<u8> {
    with_snake(
        with_food(
            with_rows(with_columns(with_background(frame, g), g, g.w + 1), g, g.h + 1),
            g,
        ),
        g,
        g.snake.body.len(),
    )
}

/// The cell `c` has a corner in the window's coordinates: it lies neither
/// to the left of the board nor above it, and its far edges in pixels can
/// be stored.
pub open spec fn cell_drawable(c: (i32, i32)) -> bool {
    &&& 0 <= c.0
    &&& 0 <= c.1
    &&& c.0 * CELL_PX + CELL_PX <= u32::MAX
    &&& c.1 * CELL_PX + CELL_PX <= u32::MAX
}

/// The game can be drawn into a frame of `len` bytes: the window's sides
/// in pixels can be stored, the frame holds the window, and every cell of
/// the snake has a corner in the window's coordinates.
pub open spec fn drawable(g: GameView, len: nat) -> bool {
    &&& g.wf()
    &&& g.w * CELL_PX < u32::MAX
    &&& g.h * CELL_PX < u32::MAX
    &&& 4 * ((g.w * CELL_PX) * (g.h * CELL_PX)) <= len
    &&& forall|i: int| 0 <= i < g.snake.body.len() ==> cell_drawable(#[trigger] g.snake.body[i])
}

/// Painting keeps the length of a frame, paints every byte of the
/// rectangle and leaves every other byte.
pub proof fn painted_bytes(
    frame: Seq<u8>,
    win_w: int,
    win_h: int,
    x: int,
    y: int,
    w: int,
    h: int,
    rgba: Seq<u8>,
    i: int,
)
    requires
        0 <= i < frame.len(),
    ensures
        painted(frame, win_w, win_h, x, y, w, h, rgba).len() == frame.len(),
        in_rect(i, win_w, win_h, x, y, w, h) ==> painted(frame, win_w, win_h, x, y, w, h, rgba)[i]
            == rgba[i % 4],
        !in_rect(i, win_w, win_h, x, y, w, h) ==> painted(
            frame,
            win_w,
            win_h,
            x,
            y,
            w,
            h,
            rgba,
        )[i] == frame[i],
{
}

/// The head is drawn last: in the picture of a game every byte of the
/// head's cell has the colour of the head.
pub proof fn head_is_drawn_on_top(frame: Seq<u8>, g: GameView, i: int)
    requires
        g.snake.body.len() >= 1,
        0 <= i < frame.len(),
        in_rect(
            i,
            g.w * CELL_PX,
            g.h * CELL_PX,
            g.snake.head().0 * CELL_PX,
            g.snake.head().1 * CELL_PX,
            CELL_PX as int,
            CELL_PX as int,
        ),
    ensures
        rendered(frame, g).len() == frame.len(),
        rendered(frame, g)[i] == head_colour()[i % 4],
{
    let n = g.snake.body.len();
    let under = with_food(
        with_rows(with_columns(with_background(frame, g), g, g.w + 1), g, g.h + 1),
        g,
    );
    columns_keep_length(with_background(frame, g), g, g.w + 1);
    rows_keep_length(with_columns(with_background(frame, g), g, g.w + 1), g, g.h + 1);
    snake_keeps_length(under, g, (n - 1) as nat);
}

/// Drawing grid columns keeps the length of a frame.
proof fn columns_keep_length(frame: Seq<u8>, g: GameView, n: nat)
    ensures
        with_columns(frame, g, n).len() == frame.len(),
    decreases n,
{
    if n > 0 {
        columns_keep_length(frame, g, (n - 1) as nat);
    }
}

/// Drawing grid rows keeps the length of a frame.
proof fn rows_keep_length(frame: Seq<u8>, g: GameView, n: nat)
    ensures
        with_rows(frame, g, n).len() == frame.len(),
    decreases n,
{
    if n > 0 {
        rows_keep_length(frame, g, (n - 1) as nat);
    }
}

/// Drawing cells of the snake keeps the length of a frame.
proof fn snake_keeps_length(frame: Seq<u8>, g: GameView, n: nat)
    ensures
        with_snake(frame, g, n).len() == frame.len(),
    decreases n,
{
    if n > 0 {
        snake_keeps_length(frame, g, (n - 1) as nat);
    }
}

/// Whether the game can be drawn into a frame of `len` bytes.
pub fn can_draw(game: &Game, len: usize) -> (r: bool)
    requires
        game.wf(),
    ensures
        r == drawable(game@, len as nat),
{
    let w: u64 = game.width() as u64;
    let h: u64 = game.height() as u64;
    let cell: u64 = CELL_PX as u64;
    if w * cell >= u32::MAX as u64 || h * cell >= u32::MAX as u64 {
        return false;
    }
    let ww: u128 = (w * cell) as u128;
    let wh: u128 = (h * cell) as u128;
    assert(ww * wh <= 0xffff_ffff * 0xffff_ffff) by (nonlinear_arith)
        requires
            0 <= ww <= 0xffff_ffff,
            0 <= wh <= 0xffff_ffff,
    ;
    if 4 * (ww * wh) > len as u128 {
        return false;
    }
    let segs: Vec<(i32, i32)> = game.snake_segments();
    let n: usize = segs.len();
    let mut i: usize = 0;
    while i < n
        invariant
            i <= n,
            n == segs@.len(),
            segs@ == game@.snake.body,
            cell == CELL_PX,
            forall|k: int| 0 <= k < i ==> cell_drawable(#[trigger] game@.snake.body[k]),
        decreases n - i,
    {
        let (x, y) = segs[i];
        if x < 0 || y < 0 || x as u64 * cell + cell > u32::MAX as u64 || y as u64 * cell + cell
            > u32::MAX as u64 {
            assert(!cell_drawable(game@.snake.body[i as int]));
            return false;
        }
        i += 1;
    }
    true
}

/// Draws one full frame.
pub fn render_frame(frame: &mut [u8], game: &Game)
    requires
        drawable(game@, old(frame)@.len()),
    ensures
        final(frame)@ == rendered(old(frame)@, game@),
{
    let gw: u32 = game.width() as u32;
    let gh: u32 = game.height() as u32;
    let win_w: u32 = gw * CELL_PX;
    let win_h: u32 = gh * CELL_PX;
    let ghost g = game@;
    let ghost len = frame@.len() as int;
    proof {
        window_fits(len, win_w as int, win_h as int, 0, 0, win_w as int, win_h as int);
    }
    fill_rect(frame, win_w, win_h, 0, 0, win_w, win_h, [18, 18, 22, 255]);
    let ghost laid = frame@;
    assert(laid == with_background(old(frame)@, g));
    let mut gx: u32 = 0;
    while gx <= gw
        invariant
            gx <= gw + 1,
            gw == g.w,
            gh == g.h,
            win_w == g.w * CELL_PX,
            win_h == g.h * CELL_PX,
            win_w < u32::MAX,
            win_h < u32::MAX,
            frame@.len() == len,
            4 * (win_w * win_h) <= len,
            frame@ == with_columns(laid, g, gx as nat),
        decreases gw + 1 - gx,
    {
        let x: u32 = gx * CELL_PX;
        proof {
            window_fits(len, win_w as int, win_h as int, x as int, 0, 1, win_h as int);
        }
        fill_rect(frame, win_w, win_h, x, 0, 1, win_h, [30, 30, 36, 255]);
        gx += 1;
    }
    let ghost cols = frame@;
    let mut gy: u32 = 0;
    while gy <= gh
        invariant
            gy <= gh + 1,
            gw == g.w,
            gh == g.h,
            win_w == g.w * CELL_PX,
            win_h == g.h * CELL_PX,
            win_w < u32::MAX,
            win_h < u32::MAX,
            frame@.len() == len,
            4 * (win_w * win_h) <= len,
            frame@ == with_rows(cols, g, gy as nat),
        decreases gh + 1 - gy,
    {
        let y: u32 = gy * CELL_PX;
        proof {
            window_fits(len, win_w as int, win_h as int, 0, y as int, win_w as int, 1);
        }
        fill_rect(frame, win_w, win_h, 0, y, win_w, 1, [30, 30, 36, 255]);
        gy += 1;
    }
    let (fx, fy) = game.food_pos();
    proof {
        window_fits(
            len,
            win_w as int,
            win_h as int,
            fx * CELL_PX,
            fy * CELL_PX,
            CELL_PX as int,
            CELL_PX as int,
        );
    }
    draw_cell(frame, win_w, win_h, fx as u32, fy as u32, [200, 60, 36, 255]);
    let ghost fed = frame@;
    let segs: Vec<(i32, i32)> = game.snake_segments();
    let n: usize = segs.len();
    let mut i: usize = 0;
    while i < n
        invariant
            i <= n,
            n == segs@.len(),
            segs@ == g.snake.body,
            drawable(g, len as nat),
            gw == g.w,
            gh == g.h,
            win_w == g.w * CELL_PX,
            win_h == g.h * CELL_PX,
            frame@.len() == len,
            4 * (win_w * win_h) <= len,
            frame@ == with_snake(fed, g, i as nat),
        decreases n - i,
    {
        let (x, y) = segs[i];
        let is_head: bool = i + 1 == n;
        let col: [u8; 4] = if is_head {
            [80, 220, 120, 255]
        } else {
            [60, 180, 90, 255]
        };
        assert(cell_drawable(g.snake.body[i as int]));
        proof {
            window_fits(
                len,
                win_w as int,
                win_h as int,
                x * CELL_PX,
                y * CELL_PX,
                CELL_PX as int,
                CELL_PX as int,
            );
        }
        draw_cell(frame, win_w, win_h, x as u32, y as u32, col);
        i += 1;
    }
}

} // verus!
