//! The flow field: a grid of directions, stored row by row, that starts as
//! one full turn spread over the cells and is then redrawn from noise on
//! every tick.

use vstd::prelude::*;
use crate::fixed::{clamp_i64, fixed_mul, magnitude, multiply, saturate};
use crate::render::{Point, Segment};
use crate::vector::{Vec2, Vec3};

verus! {

/// A full turn, in millionths of a radian.
pub const FULL_TURN: i64 = 6_283_185;

/// How far the noise point moves along z on every update.
pub const DRIFT: i64 = 9_000;

/// The screen position of the first cell's glyph.
pub const GLYPH_LEFT: i64 = -780_000_000;

/// The screen position of the first row of glyphs.
pub const GLYPH_TOP: i64 = 450_000_000;

/// The number of columns of a field made by `VectorField::new`.
pub const DEFAULT_COLUMNS: u32 = 77;

/// The number of rows of a field made by `VectorField::new`.
pub const DEFAULT_ROWS: u32 = 44;

/// The step of the noise point from one cell to the next, for a field made
/// by `VectorField::new`.
pub const DEFAULT_INCREMENT: i32 = 100_000;

/// The position of the cell at `row` and `col` in a grid that is stored row
/// by row.
pub open spec fn cell_index(row: int, col: int, columns: int) -> int {
    row * columns + col
}

/// The row of the cell at position `k`.
pub open spec fn cell_row(k: int, columns: int) -> int {
    k / columns
}

/// The column of the cell at position `k`.
pub open spec fn cell_col(k: int, columns: int) -> int {
    k % columns
}

/// The angle of cell `k` among `n` cells that share one full turn.
pub open spec fn spiral_angle(k: int, n: int) -> int {
    (k * FULL_TURN) / n
}

/// Where the noise point stands along z after one more update: `DRIFT`
/// further, held at the limit of `i64`.
pub open spec fn drifted(z: int) -> int {
    if z + DRIFT > i64::MAX {
        i64::MAX as int
    } else {
        z + DRIFT
    }
}

/// `cell` is a direction that the two sources can give for the noise point
/// `point`: the noise value there, read as an angle, turned into a heading
/// and brought to length one.
pub open spec fn redrawn<N: Fn(Vec3) -> i64, H: Fn(i64) -> Vec2>(
    noise: N,
    heading: H,
    point: Vec3,
    cell: Vec2,
) -> bool {
    exists|angle: i64, raw: Vec2|
        call_ensures(noise, (point,), angle) && call_ensures(heading, (angle,), raw) && cell
            == raw.normalized()
}

/// A row and a column are found again from the cell's position.
pub proof fn lemma_cell_index_inverse(row: int, col: int, columns: int)
    requires
        0 <= col < columns,
    ensures
        cell_row(cell_index(row, col, columns), columns) == row,
        cell_col(cell_index(row, col, columns), columns) == col,
{
    vstd::arithmetic::div_mod::lemma_fundamental_div_mod_converse(
        cell_index(row, col, columns),
        columns,
        row,
        col,
    );
}

/// A grid of `columns` by `rows` directions.
#[derive(Clone, Debug)]
pub struct VectorField {
    pub columns: u32,
    pub rows: u32,
    pub scale_factor: i32,
    pub noise_seed: Vec3,
    pub vectors: Vec<Vec2>,
    pub increment: i32,
}

impl VectorField {
    /// The number of cells of the grid.
    pub open spec fn cell_count(&self) -> int {
        self.columns * self.rows
    }

    /// Every cell of the grid holds a direction.
    pub open spec fn is_filled(&self) -> bool {
        self.vectors@.len() == self.cell_count()
    }

    /// The noise point at which the cell at `row` and `col` is drawn on the
    /// next update.
    pub open spec fn sample_point(&self, row: int, col: int) -> Vec3 {
        Vec3 {
            x: (col * self.increment) as i64,
            y: (row * self.increment) as i64,
            z: self.noise_seed.z,
        }
    }

    /// The cell whose direction acts on a particle at `position`: the
    /// magnitude of `row + column * columns`, where `column` is `position.x`
    /// in cells and `row` is `position.y` in cells, rounded down and held
    /// within the grid. With a scale factor of zero the sum is infinitely
    /// many cells unless it is zero, and gets the last cell.
    pub open spec fn cell_for(&self, position: Vec2) -> int
        recommends
            self.vectors@.len() > 0,
    {
        let reach = magnitude(position.y + position.x * self.columns);
        let last = self.vectors@.len() - 1;
        if self.scale_factor == 0 {
            if reach == 0 {
                0
            } else {
                last
            }
        } else if reach / magnitude(self.scale_factor as int) > last {
            last
        } else {
            reach / magnitude(self.scale_factor as int)
        }
    }

    /// The line that shows cell `k` on the screen: it starts at the cell's
    /// place in the grid, `scale_factor` apart from its neighbours, and runs
    /// along the cell's direction for `scale_factor` times its length.
    pub open spec fn glyph(&self, k: int) -> Segment
        recommends
            0 <= k < self.vectors@.len(),
    {
        let col = cell_col(k, self.columns as int);
        let row = cell_row(k, self.columns as int);
        let x = col * self.scale_factor + GLYPH_LEFT;
        let y = GLYPH_TOP - row * self.scale_factor;
        Segment {
            start: Point { x: clamp_i64(x) as i64, y: clamp_i64(y) as i64 },
            end: Point {
                x: clamp_i64(x + fixed_mul(self.scale_factor as int, self.vectors@[k].x as int)) as i64,
                y: clamp_i64(y + fixed_mul(self.scale_factor as int, self.vectors@[k].y as int)) as i64,
            },
        }
    }

    /// A field of the default shape, with no direction in it yet.
    pub fn new(scale: i32) -> (field: VectorField)
        ensures
            field.columns == DEFAULT_COLUMNS,
            field.rows == DEFAULT_ROWS,
            field.scale_factor == scale,
            field.noise_seed == (Vec3 { x: 0, y: 0, z: 0 }),
            field.vectors@ == Seq::<Vec2>::empty(),
            field.increment == DEFAULT_INCREMENT,
    {
        VectorField {
            columns: DEFAULT_COLUMNS,
            rows: DEFAULT_ROWS,
            scale_factor: scale,
            noise_seed: Vec3 { x: 0, y: 0, z: 0 },
            vectors: Vec::new(),
            increment: DEFAULT_INCREMENT,
        }
    }

    /// A field of the given shape, with no direction in it yet.
    pub fn with_dimensions(columns: u32, rows: u32, scale: i32) -> (field: VectorField)
        ensures
            field.columns == columns,
            field.rows == rows,
            field.scale_factor == scale,
            field.noise_seed == (Vec3 { x: 0, y: 0, z: 0 }),
            field.vectors@ == Seq::<Vec2>::empty(),
            field.increment == DEFAULT_INCREMENT,
    {
        VectorField {
            columns,
            rows,
            scale_factor: scale,
            noise_seed: Vec3 { x: 0, y: 0, z: 0 },
            vectors: Vec::new(),
            increment: DEFAULT_INCREMENT,
        }
    }

    /// Fills the grid with one full turn: cell `k` of `n` gets the direction
    /// that `heading` gives for the angle `k` n-ths of a turn. What the grid
    /// held before is dropped.
    pub fn init_vectors<H: Fn(i64) -> Vec2>(&mut self, heading: H)
        requires
            forall|k: int|
                0 <= k < old(self).cell_count() ==> call_requires(
                    heading,
                    (#[trigger] spiral_angle(k, old(self).cell_count()) as i64,),
                ),
        ensures
            final(self).is_filled(),
            forall|k: int|
                0 <= k < old(self).cell_count() ==> call_ensures(
                    heading,
                    (spiral_angle(k, old(self).cell_count()) as i64,),
                    #[trigger] final(self).vectors@[k],
                ),
            final(self).columns == old(self).columns,
            final(self).rows == old(self).rows,
            final(self).scale_factor == old(self).scale_factor,
            final(self).noise_seed == old(self).noise_seed,
            final(self).increment == old(self).increment,
    {
        let columns: u64 = self.columns as u64;
        let rows: u64 = self.rows as u64;
        assert(columns * rows <= 0xffff_ffff * 0xffff_ffff) by (nonlinear_arith)
            requires
                0 <= columns <= 0xffff_ffff,
                0 <= rows <= 0xffff_ffff,
        ;
        let n: u64 = columns * rows;
        self.vectors = Vec::new();
        let mut k: u64 = 0;
        while k < n
            invariant
                k <= n,
                n == old(self).cell_count(),
                self.vectors@.len() == k,
                forall|i: int|
                    0 <= i < n ==> call_requires(heading, (#[trigger] spiral_angle(i, n as int) as i64,)),
                forall|i: int|
                    0 <= i < k ==> call_ensures(
                        heading,
                        (spiral_angle(i, n as int) as i64,),
                        #[trigger] self.vectors@[i],
                    ),
                self.columns == old(self).columns,
                self.rows == old(self).rows,
                self.scale_factor == old(self).scale_factor,
                self.noise_seed == old(self).noise_seed,
                self.increment == old(self).increment,
            decreases n - k,
        {
            let angle = spiral_turn(k, n);
            let direction = heading(angle);
            self.vectors.push(direction);
            k += 1;
        }
    }

    /// Redraws every cell from the noise. The noise point sweeps the grid
    /// row by row: x starts at zero in every row and grows by `increment`
    /// from cell to cell, y starts at zero and grows by `increment` from row
    /// to row, and z stays where the last update left it. At each cell the
    /// noise value is taken as an angle, `heading` turns the angle into a
    /// direction, and the direction is brought to length one. Afterwards z
    /// moves on by `DRIFT`.
    pub fn update<N: Fn(Vec3) -> i64, H: Fn(i64) -> Vec2>(&mut self, noise: N, heading: H)
        requires
            old(self).is_filled(),
            forall|row: int, col: int|
                0 <= row < old(self).rows && 0 <= col < old(self).columns ==> call_requires(
                    noise,
                    (#[trigger] old(self).sample_point(row, col),),
                ),
            forall|row: int, col: int, angle: i64|
                0 <= row < old(self).rows && 0 <= col < old(self).columns && #[trigger] call_ensures(
                    noise,
                    (old(self).sample_point(row, col),),
                    angle,
                ) ==> call_requires(heading, (angle,)),
        ensures
            final(self).is_filled(),
            forall|k: int|
                0 <= k < old(self).cell_count() ==> redrawn(
                    noise,
                    heading,
                    old(self).sample_point(
                        cell_row(k, old(self).columns as int),
                        cell_col(k, old(self).columns as int),
                    ),
                    #[trigger] final(self).vectors@[k],
                ),
            forall|k: int|
                0 <= k < old(self).cell_count() ==> (#[trigger] final(self).vectors@[k]).is_unit()
                    || final(self).vectors@[k] == Vec2::zero(),
            final(self).noise_seed.x == if old(self).rows > 0 {
                old(self).columns * old(self).increment
            } else {
                old(self).noise_seed.x as int
            },
            final(self).noise_seed.y == old(self).rows * old(self).increment,
            final(self).noise_seed.z == drifted(old(self).noise_seed.z as int),
            final(self).columns == old(self).columns,
            final(self).rows == old(self).rows,
            final(self).scale_factor == old(self).scale_factor,
            final(self).increment == old(self).increment,
    {
        let columns: u64 = self.columns as u64;
        let step: i64 = self.increment as i64;
        let ghost start = *self;
        let n: usize = self.vectors.len();
        assert(self.rows * columns == self.columns * self.rows) by (nonlinear_arith)
            requires
                columns == self.columns,
        ;
        self.noise_seed.y = 0;
        let mut i: u32 = 0;
        while i < self.rows
            invariant
                i <= self.rows,
                columns == self.columns,
                step == self.increment,
                start == *old(self),
                n == self.rows * columns,
                i * columns <= n,
                self.columns == start.columns,
                self.rows == start.rows,
                self.scale_factor == start.scale_factor,
                self.increment == start.increment,
                self.noise_seed.z == start.noise_seed.z,
                self.noise_seed.y == i * step,
                self.noise_seed.x == if i > 0 {
                    columns * step
                } else {
                    start.noise_seed.x as int
                },
                self.vectors@.len() == n,
                forall|row: int, col: int|
                    0 <= row < start.rows && 0 <= col < start.columns ==> call_requires(
                        noise,
                        (#[trigger] start.sample_point(row, col),),
                    ),
                forall|row: int, col: int, angle: i64|
                    0 <= row < start.rows && 0 <= col < start.columns && #[trigger] call_ensures(
                        noise,
                        (start.sample_point(row, col),),
                        angle,
                    ) ==> call_requires(heading, (angle,)),
                forall|k: int|
                    0 <= k < i * columns ==> redrawn(
                        noise,
                        heading,
                        start.sample_point(cell_row(k, columns as int), cell_col(k, columns as int)),
                        #[trigger] self.vectors@[k],
                    ),
                forall|k: int|
                    0 <= k < i * columns ==> (#[trigger] self.vectors@[k]).is_unit()
                        || self.vectors@[k] == Vec2::zero(),
            decreases self.rows - i,
        {
            self.noise_seed.x = 0;
            let mut j: u32 = 0;
            while j < self.columns
                invariant
                    i < self.rows,
                    j <= self.columns,
                    columns == self.columns,
                    step == self.increment,
                    n == self.rows * columns,
                    i * columns + j <= n,
                    self.columns == start.columns,
                    self.rows == start.rows,
                    self.scale_factor == start.scale_factor,
                    self.increment == start.increment,
                    self.noise_seed.z == start.noise_seed.z,
                    self.noise_seed.y == i * step,
                    self.noise_seed.x == j * step,
                    self.vectors@.len() == n,
                    forall|row: int, col: int|
                        0 <= row < start.rows && 0 <= col < start.columns ==> call_requires(
                            noise,
                            (#[trigger] start.sample_point(row, col),),
                        ),
                    forall|row: int, col: int, angle: i64|
                        0 <= row < start.rows && 0 <= col < start.columns && #[trigger] call_ensures(
                            noise,
                            (start.sample_point(row, col),),
                            angle,
                        ) ==> call_requires(heading, (angle,)),
                    forall|k: int|
                        0 <= k < i * columns + j ==> redrawn(
                            noise,
                            heading,
                            start.sample_point(cell_row(k, columns as int), cell_col(k, columns as int)),
                            #[trigger] self.vectors@[k],
                        ),
                    forall|k: int|
                        0 <= k < i * columns + j ==> (#[trigger] self.vectors@[k]).is_unit()
                            || self.vectors@[k] == Vec2::zero(),
                decreases self.columns - j,
            {
                proof {
                    lemma_cell_index_inverse(i as int, j as int, columns as int);
                    lemma_cell_within_grid(i as int, j as int, columns as int, self.rows as int);
                    lemma_sweep_fits(j as int, self.columns as int, step as int);
                    lemma_sweep_fits(i as int, self.rows as int, step as int);
                }
                let point = self.noise_seed;
                assert(point == start.sample_point(i as int, j as int));
                let angle = noise(point);
                let raw = heading(angle);
                let direction = raw.normalize();
                let index: u64 = i as u64 * columns + j as u64;
                self.vectors.set(index as usize, direction);
                self.noise_seed.x = self.noise_seed.x + step;
                j += 1;
            }
            proof {
                lemma_sweep_fits(i as int, self.rows as int, step as int);
                assert((i + 1) * columns == i * columns + columns) by (nonlinear_arith);
            }
            self.noise_seed.y = self.noise_seed.y + step;
            i += 1;
        }
        self.noise_seed.z = if self.noise_seed.z > i64::MAX - DRIFT {
            i64::MAX
        } else {
            self.noise_seed.z + DRIFT
        };
    }
}

impl VectorField {
    /// The cell whose direction acts on a particle at `position`, or `None`
    /// where the field has no cell.
    pub fn sample_index(&self, position: Vec2) -> (index: Option<usize>)
        ensures
            index is None <==> self.vectors@.len() == 0,
            index matches Some(k) ==> k == self.cell_for(position) && k < self.vectors@.len(),
    {
        let n: usize = self.vectors.len();
        if n == 0 {
            return None;
        }
        let last: usize = n - 1;
        assert(-0x8000_0000 * 0xffff_ffff <= position.x * self.columns <= 0x8000_0000
            * 0xffff_ffff) by (nonlinear_arith)
            requires
                -0x8000_0000 <= position.x <= 0x8000_0000,
                0 <= self.columns <= 0xffff_ffff,
        ;
        let sum: i128 = position.y as i128 + position.x as i128 * self.columns as i128;
        let reach: u128 = if sum < 0 {
            (-sum) as u128
        } else {
            sum as u128
        };
        let scale: i64 = self.scale_factor as i64;
        let cell_size: u128 = if scale < 0 {
            (-scale) as u128
        } else {
            scale as u128
        };
        if cell_size == 0 {
            if reach == 0 {
                Some(0)
            } else {
                Some(last)
            }
        } else {
            let cell: u128 = reach / cell_size;
            if cell > last as u128 {
                Some(last)
            } else {
                Some(cell as usize)
            }
        }
    }

    /// The lines that show the field on the screen, cell by cell.
    pub fn display(&self) -> (glyphs: Vec<Segment>)
        requires
            self.is_filled(),
        ensures
            glyphs@.len() == self.cell_count(),
            forall|k: int| 0 <= k < self.cell_count() ==> #[trigger] glyphs@[k] == self.glyph(k),
    {
        let columns: u64 = self.columns as u64;
        let n: usize = self.vectors.len();
        let mut glyphs: Vec<Segment> = Vec::new();
        assert(self.rows * columns == self.columns * self.rows) by (nonlinear_arith)
            requires
                columns == self.columns,
        ;
        let mut i: u32 = 0;
        while i < self.rows
            invariant
                i <= self.rows,
                columns == self.columns,
                n == self.vectors@.len(),
                n == self.rows * columns,
                glyphs@.len() == i * columns,
                i * columns <= n,
                forall|k: int| 0 <= k < i * columns ==> #[trigger] glyphs@[k] == self.glyph(k),
            decreases self.rows - i,
        {
            let mut j: u32 = 0;
            while j < self.columns
                invariant
                    i < self.rows,
                    j <= self.columns,
                    columns == self.columns,
                    n == self.vectors@.len(),
                    n == self.rows * columns,
                    glyphs@.len() == i * columns + j,
                    i * columns + j <= n,
                    forall|k: int|
                        0 <= k < i * columns + j ==> #[trigger] glyphs@[k] == self.glyph(k),
                decreases self.columns - j,
            {
                proof {
                    lemma_cell_index_inverse(i as int, j as int, columns as int);
                    lemma_cell_within_grid(i as int, j as int, columns as int, self.rows as int);
                    lemma_sweep_fits(j as int, self.columns as int, self.scale_factor as int);
                    lemma_sweep_fits(i as int, self.rows as int, self.scale_factor as int);
                }
                let index: u64 = i as u64 * columns + j as u64;
                let direction = self.vectors[index as usize];
                let x: i128 = j as i128 * self.scale_factor as i128 + GLYPH_LEFT as i128;
                let y: i128 = GLYPH_TOP as i128 - i as i128 * self.scale_factor as i128;
                let along: i128 = multiply(self.scale_factor, direction.x) as i128;
                let up: i128 = multiply(self.scale_factor, direction.y) as i128;
                glyphs.push(
                    Segment {
                        start: Point { x: saturate(x), y: saturate(y) },
                        end: Point { x: saturate(x + along), y: saturate(y + up) },
                    },
                );
                j += 1;
            }
            proof {
                assert((i + 1) * columns == i * columns + columns) by (nonlinear_arith);
            }
            i += 1;
        }
        glyphs
    }
}

/// A cell of the grid lies before the end of the grid.
pub proof fn lemma_cell_within_grid(row: int, col: int, columns: int, rows: int)
    requires
        0 <= row < rows,
        0 <= col < columns,
    ensures
        0 <= cell_index(row, col, columns) < columns * rows,
        columns * rows == rows * columns,
{
    assert(row * columns + columns <= rows * columns) by (nonlinear_arith)
        requires
            row + 1 <= rows,
            columns > 0,
    ;
    assert(row * columns >= 0) by (nonlinear_arith)
        requires
            row >= 0,
            columns > 0,
    ;
    assert(rows * columns == columns * rows) by (nonlinear_arith);
}

/// The cells of a grid and the numbers below `columns * rows` match one to
/// one: every cell has a position among them, no two cells share a position,
/// and every such number is the position of the cell whose row and column
/// are `cell_row` and `cell_col`.
pub proof fn lemma_cell_index_bijective(columns: nat, rows: nat)
    ensures
        forall|row: int, col: int|
            0 <= row < rows && 0 <= col < columns ==> 0 <= #[trigger] cell_index(
                row,
                col,
                columns as int,
            ) < columns * rows,
        forall|row: int, col: int, other_row: int, other_col: int|
            0 <= row < rows && 0 <= col < columns && 0 <= other_row < rows && 0 <= other_col
                < columns && #[trigger] cell_index(row, col, columns as int) == #[trigger] cell_index(
                other_row,
                other_col,
                columns as int,
            ) ==> row == other_row && col == other_col,
        forall|k: int|
            0 <= k < columns * rows ==> 0 <= #[trigger] cell_row(k, columns as int) < rows && 0
                <= cell_col(k, columns as int) < columns && cell_index(
                cell_row(k, columns as int),
                cell_col(k, columns as int),
                columns as int,
            ) == k,
{
    let c = columns as int;
    assert forall|row: int, col: int| 0 <= row < rows && 0 <= col < columns implies 0
        <= #[trigger] cell_index(row, col, c) < columns * rows by {
        lemma_cell_within_grid(row, col, c, rows as int);
    }
    assert forall|row: int, col: int, other_row: int, other_col: int|
        0 <= row < rows && 0 <= col < columns && 0 <= other_row < rows && 0 <= other_col < columns
            && #[trigger] cell_index(row, col, c) == #[trigger] cell_index(
            other_row,
            other_col,
            c,
        ) implies row == other_row && col == other_col by {
        lemma_cell_index_inverse(row, col, c);
        lemma_cell_index_inverse(other_row, other_col, c);
    }
    assert forall|k: int| 0 <= k < columns * rows implies 0 <= #[trigger] cell_row(k, c) < rows && 0
        <= cell_col(k, c) < columns && cell_index(cell_row(k, c), cell_col(k, c), c) == k by {
        assert(c > 0) by (nonlinear_arith)
            requires
                0 <= k < c * rows,
                c >= 0,
        ;
        vstd::arithmetic::div_mod::lemma_fundamental_div_mod(k, c);
        vstd::arithmetic::div_mod::lemma_mod_bound(k, c);
        vstd::arithmetic::div_mod::lemma_multiply_divide_lt(k, c, rows as int);
        vstd::arithmetic::div_mod::lemma_div_pos_is_pos(k, c);
        assert(c * (k / c) == (k / c) * c) by (nonlinear_arith);
    }
}

/// The cell that acts on a particle depends on nothing but the particle's
/// position and the field's shape: its scale factor, its number of columns
/// and its number of cells.
pub proof fn lemma_sample_index_deterministic(field: VectorField, other: VectorField, position: Vec2)
    requires
        field.scale_factor == other.scale_factor,
        field.columns == other.columns,
        field.vectors@.len() == other.vectors@.len(),
    ensures
        field.cell_for(position) == other.cell_for(position),
{
}

/// The noise point stays within `i64` while it sweeps: after `j` of `count`
/// steps it stands at `j * step`, and one step further is `(j + 1) * step`.
proof fn lemma_sweep_fits(j: int, count: int, step: int)
    requires
        0 <= j < count <= u32::MAX,
        i32::MIN <= step <= i32::MAX,
    ensures
        i64::MIN <= j * step <= i64::MAX,
        i64::MIN <= (j + 1) * step <= i64::MAX,
        (j + 1) * step == j * step + step,
{
    assert(-0xffff_ffff * 0x8000_0000 <= j * step <= 0xffff_ffff * 0x8000_0000)
        by (nonlinear_arith)
        requires
            0 <= j <= 0xffff_ffff,
            -0x8000_0000 <= step <= 0x8000_0000,
    ;
    assert(-0xffff_ffff * 0x8000_0000 <= (j + 1) * step <= 0xffff_ffff * 0x8000_0000 && (j + 1)
        * step == j * step + step) by (nonlinear_arith)
        requires
            0 <= j + 1 <= 0xffff_ffff,
            -0x8000_0000 <= step <= 0x8000_0000,
    ;
}

/// The angle of cell `k` among `n` cells that share one full turn.
pub fn spiral_turn(k: u64, n: u64) -> (angle: i64)
    requires
        k < n,
    ensures
        angle == spiral_angle(k as int, n as int),
        0 <= angle < FULL_TURN,
{
    let product: u128 = k as u128 * 6_283_185u128;
    let quotient: u128 = product / n as u128;
    proof {
        crate::fixed::lemma_quotient_bounds(k * FULL_TURN, n as int);
        let q = (k * FULL_TURN) / (n as int);
        assert(q < FULL_TURN) by (nonlinear_arith)
            requires
                q * n <= k * FULL_TURN,
                0 <= k < n,
                FULL_TURN > 0,
        ;
        assert(q >= 0) by (nonlinear_arith)
            requires
                k * FULL_TURN < (q + 1) * n,
                k >= 0,
                n > 0,
                FULL_TURN > 0,
        ;
    }
    quotient as i64
}

} // verus!
