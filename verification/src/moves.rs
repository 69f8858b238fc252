//! The movement patterns: how far a piece standing on a cell could travel or
//! capture along one direction, given what stands around it.
//!
//! No move lands on the outermost ring of the board: a target cell counts only
//! if it lies strictly inside the board.

use vstd::prelude::*;
use crate::direction::Direction;
use crate::grid::{cell_index, Grid, Square, BOARD_HEIGHT, BOARD_WIDTH};

verus! {

/// `(x, y)` lies on the board but not on its outermost ring.
pub open spec fn interior(x: int, y: int) -> bool {
    0 < x < BOARD_WIDTH - 1 && 0 < y < BOARD_HEIGHT - 1
}

/// The state of the cell `(x, y)` in a sequence of cells stored row by row.
pub open spec fn square_at(g: Seq<Square>, x: int, y: int) -> Square {
    g[cell_index(x, y)]
}

/// How many further interior cells lie ahead of `(x, y)` along `dir`, for a
/// cell from which the first step stays inside.
pub open spec fn room(x: int, y: int, dir: Direction) -> int {
    if dir.spec_dx() > 0 {
        BOARD_WIDTH - 2 - x
    } else if dir.spec_dx() < 0 {
        x - 1
    } else if dir.spec_dy() > 0 {
        BOARD_HEIGHT - 2 - y
    } else {
        y - 1
    }
}

/// What a piece gains by landing on `(x, y)`: one for an interior cell that is
/// empty or holds an opponent, nothing otherwise.
pub open spec fn landing(g: Seq<Square>, x: int, y: int) -> int {
    if interior(x, y) && square_at(g, x, y) != Square::Friendly {
        1
    } else {
        0
    }
}

/// The line-cast: cells reached by sliding up to `n` steps from `(x, y)` along
/// `dir`. An empty cell counts and the slide goes on, an opponent counts and
/// ends it, a friendly piece or the edge of the interior ends it uncounted.
pub open spec fn step_count(g: Seq<Square>, x: int, y: int, dir: Direction, n: int) -> int
    decreases n,
{
    let tx = x + dir.spec_dx();
    let ty = y + dir.spec_dy();
    if n <= 0 || !interior(tx, ty) {
        0
    } else {
        match square_at(g, tx, ty) {
            Square::Empty => 1 + step_count(g, tx, ty, dir, n - 1),
            Square::Friendly => 0,
            Square::Opponent => 1,
        }
    }
}

/// So many steps are as good as any number: no slide on the board is longer.
pub const WHOLE_BOARD: i64 = 36;

/// The line-cast without a step limit of its own.
pub open spec fn range_count(g: Seq<Square>, x: int, y: int, dir: Direction) -> int {
    step_count(g, x, y, dir, WHOLE_BOARD as int)
}

/// A line-cast never counts more cells than it may take steps, nor more than
/// lie ahead inside the board.
pub proof fn lemma_step_count_bounds(g: Seq<Square>, x: int, y: int, dir: Direction, n: int)
    ensures
        0 <= step_count(g, x, y, dir, n),
        step_count(g, x, y, dir, n) <= if n > 0 { n } else { 0 },
        step_count(g, x, y, dir, n) <= BOARD_WIDTH - 2,
        step_count(g, x, y, dir, n) > 0 ==> step_count(g, x, y, dir, n) <= room(x, y, dir),
    decreases n,
{
    let tx = x + dir.spec_dx();
    let ty = y + dir.spec_dy();
    if n > 0 && interior(tx, ty) {
        lemma_step_count_bounds(g, tx, ty, dir, n - 1);
    }
}

/// The cell reached from `(x, y)` by the offset `(dx, dy)`, if it lies
/// strictly inside the board.
pub open spec fn spec_try_add(x: i64, dx: i64, y: i64, dy: i64) -> Option<(i64, i64)> {
    if interior(x + dx, y + dy) {
        Some(((x + dx) as i64, (y + dy) as i64))
    } else {
        None
    }
}

/// The cell reached from `(x, y)` by the offset `(dx, dy)`, if it lies
/// strictly inside the board.
#[verifier::when_used_as_spec(spec_try_add)]
pub fn try_add(x: i64, dx: i64, y: i64, dy: i64) -> (target: Option<(i64, i64)>)
    ensures
        target == spec_try_add(x, dx, y, dy),
{
    match (x.checked_add(dx), y.checked_add(dy)) {
        (Some(tx), Some(ty)) => {
            if tx > 0 && ty > 0 && tx < 35 && ty < 35 {
                Some((tx, ty))
            } else {
                None
            }
        },
        _ => None,
    }
}

/// Reads an interior cell given by signed coordinates.
fn interior_square(grid: &Grid, x: i64, y: i64) -> (square: Square)
    requires
        interior(x as int, y as int),
    ensures
        square == square_at(grid@, x as int, y as int),
{
    grid.get(x as usize, y as usize)
}

/// Slides up to `n` steps from `(x, y)` along `dir` and counts the cells
/// reached.
pub fn step_n(grid: &Grid, x: i64, y: i64, dir: Direction, n: i64) -> (count: i64)
    ensures
        count == step_count(grid@, x as int, y as int, dir, n as int),
        0 <= count <= BOARD_WIDTH - 2,
        count <= if n > 0 { n } else { 0 },
{
    let dx = dir.dx();
    let dy = dir.dy();
    let mut cx = x;
    let mut cy = y;
    let mut left = n;
    let mut count: i64 = 0;
    proof {
        lemma_step_count_bounds(grid@, x as int, y as int, dir, n as int);
    }
    while left > 0
        invariant
            dx == dir.spec_dx(),
            dy == dir.spec_dy(),
            left <= n,
            0 <= count,
            n > 0 ==> count <= n - left,
            count + step_count(grid@, cx as int, cy as int, dir, left as int) == step_count(
                grid@,
                x as int,
                y as int,
                dir,
                n as int,
            ),
        decreases left,
    {
        match try_add(cx, dx, cy, dy) {
            None => {
                left = 0;
            },
            Some((tx, ty)) => {
                match interior_square(grid, tx, ty) {
                    Square::Empty => {
                        count = count + 1;
                        cx = tx;
                        cy = ty;
                        left = left - 1;
                    },
                    Square::Friendly => {
                        left = 0;
                    },
                    Square::Opponent => {
                        count = count + 1;
                        left = 0;
                    },
                }
            },
        }
    }
    count
}

/// Slides from `(x, y)` along `dir` until something stops the slide.
pub fn range(grid: &Grid, x: i64, y: i64, dir: Direction) -> (count: i64)
    ensures
        count == range_count(grid@, x as int, y as int, dir),
        0 <= count <= BOARD_WIDTH - 2,
{
    step_n(grid, x, y, dir, WHOLE_BOARD)
}

/// The single jump: what a piece gains by landing `n` steps away along `dir`,
/// whatever stands in between.
pub open spec fn jump_count(g: Seq<Square>, x: int, y: int, dir: Direction, n: int) -> int {
    landing(g, x + n * dir.spec_dx(), y + n * dir.spec_dy())
}

/// The knight-style jump: the two landings one file aside and two ranks north.
pub open spec fn knight_count(g: Seq<Square>, x: int, y: int) -> int {
    landing(g, x + 1, y - 2) + landing(g, x - 1, y - 2)
}

/// The leaping slide: like the line-cast, but the slide passes over occupied
/// cells as long as `jumps` is positive, at the price of one jump each. Every
/// cell reached counts, also the occupied cell that ends the slide.
pub open spec fn flying_jump_count(
    g: Seq<Square>,
    x: int,
    y: int,
    dir: Direction,
    n: int,
    jumps: int,
) -> int
    decreases n,
{
    let tx = x + dir.spec_dx();
    let ty = y + dir.spec_dy();
    if n <= 0 || !interior(tx, ty) {
        0
    } else if square_at(g, tx, ty) == Square::Empty {
        1 + flying_jump_count(g, tx, ty, dir, n - 1, jumps)
    } else if jumps > 0 {
        1 + flying_jump_count(g, tx, ty, dir, n - 1, jumps - 1)
    } else {
        1
    }
}

/// A leaping slide never counts more cells than it may take steps, nor more
/// than lie ahead inside the board.
pub proof fn lemma_flying_jump_count_bounds(
    g: Seq<Square>,
    x: int,
    y: int,
    dir: Direction,
    n: int,
    jumps: int,
)
    ensures
        0 <= flying_jump_count(g, x, y, dir, n, jumps),
        flying_jump_count(g, x, y, dir, n, jumps) <= if n > 0 { n } else { 0 },
        flying_jump_count(g, x, y, dir, n, jumps) <= BOARD_WIDTH - 2,
        flying_jump_count(g, x, y, dir, n, jumps) > 0 ==> flying_jump_count(g, x, y, dir, n, jumps)
            <= room(x, y, dir),
    decreases n,
{
    let tx = x + dir.spec_dx();
    let ty = y + dir.spec_dy();
    if n > 0 && interior(tx, ty) {
        lemma_flying_jump_count_bounds(g, tx, ty, dir, n - 1, jumps);
        lemma_flying_jump_count_bounds(g, tx, ty, dir, n - 1, jumps - 1);
    }
}

/// What a piece gains by landing on the cell `(x, y)`, given in wide integers.
pub(crate) fn land(grid: &Grid, x: i128, y: i128) -> (count: i64)
    ensures
        count == landing(grid@, x as int, y as int),
        0 <= count <= 1,
{
    if 0 < x && x < 35 && 0 < y && y < 35 {
        match interior_square(grid, x as i64, y as i64) {
            Square::Friendly => 0,
            _ => 1,
        }
    } else {
        0
    }
}

/// `n` steps of size `d`, for a step of -1, 0 or 1.
fn stride(n: i64, d: i64) -> (offset: i128)
    requires
        -1 <= d <= 1,
    ensures
        offset == n * d,
        -0x8000_0000_0000_0000 <= offset <= 0x8000_0000_0000_0000,
{
    if d > 0 {
        assert(n * d == n) by (nonlinear_arith)
            requires
                d == 1,
        ;
        n as i128
    } else if d < 0 {
        assert(n * d == -n) by (nonlinear_arith)
            requires
                d == -1,
        ;
        -(n as i128)
    } else {
        assert(n * d == 0) by (nonlinear_arith)
            requires
                d == 0,
        ;
        0
    }
}

/// Jumps `n` steps from `(x, y)` along `dir` and looks at the landing cell
/// only.
pub fn jump_n(grid: &Grid, x: i64, y: i64, dir: Direction, n: i64) -> (count: i64)
    ensures
        count == jump_count(grid@, x as int, y as int, dir, n as int),
        0 <= count <= 1,
{
    let tx: i128 = x as i128 + stride(n, dir.dx());
    let ty: i128 = y as i128 + stride(n, dir.dy());
    land(grid, tx, ty)
}

/// The two knight-style jumps from `(x, y)`, added up.
pub fn jump_knight(grid: &Grid, x: i64, y: i64) -> (count: i64)
    ensures
        count == knight_count(grid@, x as int, y as int),
        0 <= count <= 2,
{
    let ty: i128 = y as i128 - 2;
    land(grid, x as i128 + 1, ty) + land(grid, x as i128 - 1, ty)
}

/// Slides up to `n` steps from `(x, y)` along `dir`, leaping over up to
/// `jumps` occupied cells, and counts the cells reached.
pub fn flying_jump(grid: &Grid, x: i64, y: i64, dir: Direction, n: i64, jumps: i64) -> (count: i64)
    ensures
        count == flying_jump_count(grid@, x as int, y as int, dir, n as int, jumps as int),
        0 <= count <= BOARD_WIDTH - 2,
        count <= if n > 0 { n } else { 0 },
{
    let dx = dir.dx();
    let dy = dir.dy();
    let mut cx = x;
    let mut cy = y;
    let mut left = n;
    let mut budget = jumps;
    let mut count: i64 = 0;
    proof {
        lemma_flying_jump_count_bounds(grid@, x as int, y as int, dir, n as int, jumps as int);
    }
    while left > 0
        invariant
            dx == dir.spec_dx(),
            dy == dir.spec_dy(),
            left <= n,
            0 <= count,
            n > 0 ==> count <= n - left,
            count + flying_jump_count(
                grid@,
                cx as int,
                cy as int,
                dir,
                left as int,
                budget as int,
            ) == flying_jump_count(grid@, x as int, y as int, dir, n as int, jumps as int),
        decreases left,
    {
        match try_add(cx, dx, cy, dy) {
            None => {
                left = 0;
            },
            Some((tx, ty)) => {
                count = count + 1;
                match interior_square(grid, tx, ty) {
                    Square::Empty => {
                        cx = tx;
                        cy = ty;
                        left = left - 1;
                    },
                    _ => {
                        if budget > 0 {
                            budget = budget - 1;
                            cx = tx;
                            cy = ty;
                            left = left - 1;
                        } else {
                            left = 0;
                        }
                    },
                }
            },
        }
    }
    count
}

/// The occupied cells along the ray that leaves `(x, y)` in direction `dir`,
/// as far as the ray stays inside the board.
pub open spec fn pieces_count(g: Seq<Square>, x: int, y: int, dir: Direction) -> int
    decreases room(x, y, dir),
{
    let tx = x + dir.spec_dx();
    let ty = y + dir.spec_dy();
    if !interior(tx, ty) {
        0
    } else if square_at(g, tx, ty) == Square::Empty {
        pieces_count(g, tx, ty, dir)
    } else {
        1 + pieces_count(g, tx, ty, dir)
    }
}

/// The flying capture: every empty cell up to the first occupied one counts,
/// and from there on every occupied cell along the ray.
pub open spec fn flying_capture_count(g: Seq<Square>, x: int, y: int, dir: Direction) -> int
    decreases room(x, y, dir),
{
    let tx = x + dir.spec_dx();
    let ty = y + dir.spec_dy();
    if !interior(tx, ty) {
        0
    } else if square_at(g, tx, ty) == Square::Empty {
        1 + flying_capture_count(g, tx, ty, dir)
    } else {
        1 + pieces_count(g, tx, ty, dir)
    }
}

/// Neither count along a ray exceeds the cells that lie ahead inside the board.
pub proof fn lemma_ray_count_bounds(g: Seq<Square>, x: int, y: int, dir: Direction)
    ensures
        0 <= pieces_count(g, x, y, dir) <= BOARD_WIDTH - 2,
        0 <= flying_capture_count(g, x, y, dir) <= BOARD_WIDTH - 2,
        pieces_count(g, x, y, dir) <= flying_capture_count(g, x, y, dir),
        flying_capture_count(g, x, y, dir) > 0 ==> flying_capture_count(g, x, y, dir) <= room(
            x,
            y,
            dir,
        ),
    decreases room(x, y, dir),
{
    let tx = x + dir.spec_dx();
    let ty = y + dir.spec_dy();
    if interior(tx, ty) {
        lemma_ray_count_bounds(g, tx, ty, dir);
    }
}

/// The bent slide: a line-cast of up to `n` steps in which every empty cell
/// reached also counts what two unlimited line-casts from it reach, one to
/// either side of `dir`.
pub open spec fn hook_count(g: Seq<Square>, x: int, y: int, dir: Direction, n: int) -> int
    decreases n,
{
    let tx = x + dir.spec_dx();
    let ty = y + dir.spec_dy();
    if n <= 0 || !interior(tx, ty) {
        0
    } else {
        match square_at(g, tx, ty) {
            Square::Empty => 1 + hook_count(g, tx, ty, dir, n - 1) + range_count(
                g,
                tx,
                ty,
                dir.spec_turn_right(),
            ) + range_count(g, tx, ty, dir.spec_turn_left()),
            Square::Friendly => 0,
            Square::Opponent => 1,
        }
    }
}

/// Most that one bent slide can count: every interior cell of a line, each with
/// a full line to either side.
pub const HOOK_MAX: i64 = 2346;

/// A bent slide counts at most `2 * 34 + 1` cells for each step it takes.
pub proof fn lemma_hook_count_bounds(g: Seq<Square>, x: int, y: int, dir: Direction, n: int)
    ensures
        0 <= hook_count(g, x, y, dir, n) <= HOOK_MAX,
        hook_count(g, x, y, dir, n) > 0 ==> hook_count(g, x, y, dir, n) <= 69 * room(x, y, dir),
    decreases n,
{
    let tx = x + dir.spec_dx();
    let ty = y + dir.spec_dy();
    if n > 0 && interior(tx, ty) {
        lemma_hook_count_bounds(g, tx, ty, dir, n - 1);
        lemma_step_count_bounds(g, tx, ty, dir.spec_turn_right(), WHOLE_BOARD as int);
        lemma_step_count_bounds(g, tx, ty, dir.spec_turn_left(), WHOLE_BOARD as int);
    }
}

/// The jump followed by a slide: an unlimited line-cast from `(x, y)` and one
/// from the cell one step further along `dir`.
pub open spec fn jump_then_range_count(g: Seq<Square>, x: int, y: int, dir: Direction) -> int {
    range_count(g, x, y, dir) + range_count(g, x + dir.spec_dx(), y + dir.spec_dy(), dir)
}

/// The dove move: a line-cast of three steps that starts three steps away
/// along `dir`.
pub open spec fn dove_count(g: Seq<Square>, x: int, y: int, dir: Direction) -> int {
    step_count(g, x + 3 * dir.spec_dx(), y + 3 * dir.spec_dy(), dir, 3)
}

/// Counts the occupied cells along the ray that leaves `(x, y)` in direction
/// `dir`.
pub fn count_pieces(grid: &Grid, x: i64, y: i64, dir: Direction) -> (count: i64)
    ensures
        count == pieces_count(grid@, x as int, y as int, dir),
        0 <= count <= BOARD_WIDTH - 2,
{
    let dx = dir.dx();
    let dy = dir.dy();
    let mut cx = x;
    let mut cy = y;
    let mut count: i64 = 0;
    let mut target = try_add(cx, dx, cy, dy);
    proof {
        lemma_ray_count_bounds(grid@, x as int, y as int, dir);
    }
    while target.is_some()
        invariant
            dx == dir.spec_dx(),
            dy == dir.spec_dy(),
            target == try_add(cx, dx, cy, dy),
            0 <= count,
            count + pieces_count(grid@, cx as int, cy as int, dir) == pieces_count(
                grid@,
                x as int,
                y as int,
                dir,
            ),
            pieces_count(grid@, x as int, y as int, dir) <= BOARD_WIDTH - 2,
        decreases
                if interior(cx + dx, cy + dy) {
                    room(cx as int, cy as int, dir)
                } else {
                    0
                },
    {
        let (tx, ty) = target.unwrap();
        proof {
            lemma_ray_count_bounds(grid@, tx as int, ty as int, dir);
        }
        match interior_square(grid, tx, ty) {
            Square::Empty => {},
            _ => {
                count = count + 1;
            },
        }
        cx = tx;
        cy = ty;
        target = try_add(cx, dx, cy, dy);
    }
    count
}

/// Slides from `(x, y)` along `dir` to the first occupied cell and counts it,
/// the empty cells before it and every occupied cell behind it.
pub fn flying_capture(grid: &Grid, x: i64, y: i64, dir: Direction) -> (count: i64)
    ensures
        count == flying_capture_count(grid@, x as int, y as int, dir),
        0 <= count <= BOARD_WIDTH - 2,
{
    let dx = dir.dx();
    let dy = dir.dy();
    let mut cx = x;
    let mut cy = y;
    let mut count: i64 = 0;
    let mut target = try_add(cx, dx, cy, dy);
    proof {
        lemma_ray_count_bounds(grid@, x as int, y as int, dir);
    }
    while target.is_some()
        invariant
            dx == dir.spec_dx(),
            dy == dir.spec_dy(),
            target == try_add(cx, dx, cy, dy),
            0 <= count,
            count + flying_capture_count(grid@, cx as int, cy as int, dir) == flying_capture_count(
                grid@,
                x as int,
                y as int,
                dir,
            ),
            flying_capture_count(grid@, x as int, y as int, dir) <= BOARD_WIDTH - 2,
        decreases
                if interior(cx + dx, cy + dy) {
                    room(cx as int, cy as int, dir)
                } else {
                    0
                },
    {
        let (tx, ty) = target.unwrap();
        proof {
            lemma_ray_count_bounds(grid@, tx as int, ty as int, dir);
        }
        match interior_square(grid, tx, ty) {
            Square::Empty => {
                count = count + 1;
                cx = tx;
                cy = ty;
                target = try_add(cx, dx, cy, dy);
            },
            _ => {
                return count + 1 + count_pieces(grid, tx, ty, dir);
            },
        }
    }
    count
}

/// Slides up to `n` steps from `(x, y)` along `dir`, fanning out to either
/// side from every empty cell reached.
pub fn hook(grid: &Grid, x: i64, y: i64, dir: Direction, n: i64) -> (count: i64)
    ensures
        count == hook_count(grid@, x as int, y as int, dir, n as int),
        0 <= count <= HOOK_MAX,
{
    let dx = dir.dx();
    let dy = dir.dy();
    let right = dir.turn_right();
    let left_hand = dir.turn_left();
    let mut cx = x;
    let mut cy = y;
    let mut left = n;
    let mut count: i64 = 0;
    proof {
        lemma_hook_count_bounds(grid@, x as int, y as int, dir, n as int);
    }
    while left > 0
        invariant
            dx == dir.spec_dx(),
            dy == dir.spec_dy(),
            right == dir.spec_turn_right(),
            left_hand == dir.spec_turn_left(),
            0 <= count,
            count + hook_count(grid@, cx as int, cy as int, dir, left as int) == hook_count(
                grid@,
                x as int,
                y as int,
                dir,
                n as int,
            ),
            hook_count(grid@, x as int, y as int, dir, n as int) <= HOOK_MAX,
        decreases left,
    {
        proof {
            lemma_hook_count_bounds(grid@, cx as int, cy as int, dir, left as int);
        }
        match try_add(cx, dx, cy, dy) {
            None => {
                left = 0;
            },
            Some((tx, ty)) => {
                match interior_square(grid, tx, ty) {
                    Square::Empty => {
                        proof {
                            lemma_hook_count_bounds(grid@, tx as int, ty as int, dir, left - 1);
                        }
                        count = count + 1 + range(grid, tx, ty, right) + range(
                            grid,
                            tx,
                            ty,
                            left_hand,
                        );
                        cx = tx;
                        cy = ty;
                        left = left - 1;
                    },
                    Square::Friendly => {
                        left = 0;
                    },
                    Square::Opponent => {
                        count = count + 1;
                        left = 0;
                    },
                }
            },
        }
    }
    count
}

/// An unlimited slide from `(x, y)` along `dir`, and one from the next cell.
pub fn jump_then_range(grid: &Grid, x: i64, y: i64, dir: Direction) -> (count: i64)
    ensures
        count == jump_then_range_count(grid@, x as int, y as int, dir),
        0 <= count <= 2 * (BOARD_WIDTH - 2),
{
    let near = range(grid, x, y, dir);
    let far = match (x.checked_add(dir.dx()), y.checked_add(dir.dy())) {
        (Some(sx), Some(sy)) => range(grid, sx, sy, dir),
        _ => 0,
    };
    near + far
}

/// A slide of up to three steps along `dir` that starts three steps away from
/// `(x, y)`.
pub fn dove(grid: &Grid, x: i64, y: i64, dir: Direction) -> (count: i64)
    ensures
        count == dove_count(grid@, x as int, y as int, dir),
        0 <= count <= 3,
{
    match (x.checked_add(3 * dir.dx()), y.checked_add(3 * dir.dy())) {
        (Some(sx), Some(sy)) => step_n(grid, sx, sy, dir, 3),
        _ => 0,
    }
}

} // verus!
