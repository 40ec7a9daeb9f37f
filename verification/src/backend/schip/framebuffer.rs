//! The 64x32 monochrome display.

use array2d::Array2D;
use vstd::prelude::*;

use crate::terminal::Monochrome;

verus! {

/// Number of pixel rows.
pub const ROWS: usize = 32;

/// Number of pixel columns.
pub const COLUMNS: usize = 64;

/// `array2d::Array2D`, a grid of cells in rows and columns. Opaque: what it
/// holds is spoken of through `grid_cells`.
#[verifier::external_type_specification]
#[verifier::external_body]
#[verifier::reject_recursive_types(T)]
pub struct ExArray2D<T>(Array2D<T>);

/// The cells of a grid, keyed by `(row, column)`. The domain is the set of
/// positions that the grid has.
pub uninterp spec fn grid_cells(a: Array2D<Monochrome>) -> Map<(int, int), Monochrome>;

/// The positions of a grid of the given size.
pub open spec fn positions(num_rows: int, num_columns: int) -> Set<(int, int)> {
    Set::new(|p: (int, int)| 0 <= p.0 < num_rows && 0 <= p.1 < num_columns)
}

/// A display with every pixel `White`.
pub open spec fn blank() -> Map<(int, int), Monochrome> {
    Map::new(|p: (int, int)| positions(32, 64).contains(p), |p: (int, int)| Monochrome::White)
}

/// `Array2D::filled_with`: a grid of `num_rows` by `num_columns` cells, each
/// holding `element`. Trusted; the size is bounded so that the allocation of
/// `num_rows * num_columns` cells cannot overflow.
#[verifier::external_body]
fn grid_filled(element: Monochrome, num_rows: usize, num_columns: usize) -> (r: Array2D<Monochrome>)
    requires
        num_rows * num_columns <= isize::MAX,
    ensures
        grid_cells(r).dom() =~= positions(num_rows as int, num_columns as int),
        forall|p: (int, int)| #[trigger] grid_cells(r).dom().contains(p) ==> grid_cells(r)[p] == element,
{
    Array2D::filled_with(element, num_rows, num_columns)
}

/// `Array2D::get`: the cell at `(row, column)`, or `None` where the grid has
/// no such position. Trusted.
#[verifier::external_body]
fn grid_get(a: &Array2D<Monochrome>, row: usize, column: usize) -> (r: Option<Monochrome>)
    ensures
        r == (if grid_cells(*a).dom().contains((row as int, column as int)) {
            Some(grid_cells(*a)[(row as int, column as int)])
        } else {
            None
        }),
{
    a.get(row, column).copied()
}

/// `Array2D::set`: overwrites the cell at `(row, column)` and reports success,
/// or changes nothing and reports failure where the grid has no such
/// position. Trusted.
#[verifier::external_body]
fn grid_set(a: &mut Array2D<Monochrome>, row: usize, column: usize, element: Monochrome) -> (r: bool)
    ensures
        r == grid_cells(*old(a)).dom().contains((row as int, column as int)),
        r ==> grid_cells(*final(a)) == grid_cells(*old(a)).insert(
            (row as int, column as int),
            element,
        ),
        !r ==> grid_cells(*final(a)) == grid_cells(*old(a)),
{
    a.set(row, column, element).is_ok()
}

/// The display: 32 rows of 64 pixels.
pub struct Framebuffer(pub Array2D<Monochrome>);

impl View for Framebuffer {
    type V = Map<(int, int), Monochrome>;

    open spec fn view(&self) -> Map<(int, int), Monochrome> {
        grid_cells(self.0)
    }
}

impl Default for Framebuffer {
    /// A blank display.
    fn default() -> (r: Self)
        ensures
            r.wf(),
            r@ == blank(),
    {
        let r = Framebuffer(grid_filled(Monochrome::White, ROWS, COLUMNS));
        assert(r@ =~= blank());
        r
    }
}

impl Framebuffer {
    /// The display has exactly the positions of a 32x64 grid.
    pub open spec fn wf(&self) -> bool {
        self@.dom() == positions(32, 64)
    }

    /// Blanks the display.
    pub fn clear(&mut self)
        ensures
            final(self).wf(),
            final(self)@ == blank(),
    {
        *self = Self::default();
    }

    /// The pixel at `(row, column)`, or `None` off the display.
    pub fn get(&self, row: usize, column: usize) -> (r: Option<Monochrome>)
        requires
            self.wf(),
        ensures
            r == (if row < 32 && column < 64 {
                Some(self@[(row as int, column as int)])
            } else {
                None
            }),
    {
        grid_get(&self.0, row, column)
    }

    /// Flips the pixel at `(row, column)` and returns the colour it had; off
    /// the display nothing changes and `None` is returned.
    pub fn toggle(&mut self, row: usize, column: usize) -> (r: Option<Monochrome>)
        requires
            old(self).wf(),
        ensures
            final(self).wf(),
            r == (if row < 32 && column < 64 {
                Some(old(self)@[(row as int, column as int)])
            } else {
                None
            }),
            final(self)@ == (if row < 32 && column < 64 {
                old(self)@.insert(
                    (row as int, column as int),
                    old(self)@[(row as int, column as int)].flipped(),
                )
            } else {
                old(self)@
            }),
    {
        match grid_get(&self.0, row, column) {
            Some(c) => {
                let _ = grid_set(&mut self.0, row, column, c.toggled());
                assert(final(self)@.dom() =~= old(self)@.dom());
                Some(c)
            },
            None => None,
        }
    }
}

} // verus!
