use vstd::prelude::*;

verus! {

/// The cells of a grid stored as a vector of rows, row by row.
pub open spec fn cells<T>(data: Seq<Vec<T>>) -> Seq<Seq<T>> {
    data.map_values(|r: Vec<T>| r@)
}

/// `grid` with the cell at `i`, `j` replaced by `value`.
pub open spec fn with_cell<T>(grid: Seq<Seq<T>>, i: int, j: int, value: T) -> Seq<Seq<T>> {
    grid.update(i, grid[i].update(j, value))
}

/// `x` is a value that `T::default()` may return.
pub open spec fn is_default<T: Default>(x: T) -> bool {
    call_ensures(T::default, (), x)
}

/// The width of a row of `len` cells once padded to `columns`: rows are
/// widened, never shortened.
pub open spec fn padded_len(len: nat, columns: nat) -> nat {
    if len < columns {
        columns
    } else {
        len
    }
}

/// `row` is `orig` followed by default cells up to `columns` cells in all.
pub open spec fn is_padded_row<T: Default>(orig: Seq<T>, row: Seq<T>, columns: nat) -> bool {
    &&& row.len() == padded_len(orig.len(), columns)
    &&& row.subrange(0, orig.len() as int) == orig
    &&& forall|j: int| orig.len() <= j < row.len() ==> is_default(#[trigger] row[j])
}

/// `grid` holds the rows of `items`, in order, each padded to `columns`.
pub open spec fn is_padded_grid<T: Default>(
    items: Seq<Seq<T>>,
    grid: Seq<Seq<T>>,
    columns: nat,
) -> bool {
    &&& grid.len() == items.len()
    &&& forall|i: int| 0 <= i < items.len() ==> is_padded_row(items[i], #[trigger] grid[i], columns)
}

/// `grid` has `rows` rows of `columns` cells, each a copy of `value`.
pub open spec fn is_filled_grid<T: Clone>(grid: Seq<Seq<T>>, value: T, rows: nat, columns: nat) -> bool {
    &&& grid.len() == rows
    &&& forall|i: int| 0 <= i < rows ==> (#[trigger] grid[i]).len() == columns
    &&& forall|i: int, j: int|
        0 <= i < rows && 0 <= j < columns ==> cloned(value, #[trigger] grid[i][j])
}

/// Appends default cells to `row` until it holds `columns` cells.
fn pad_row<T: Default>(row: &mut Vec<T>, columns: usize)
    ensures
        is_padded_row(old(row)@, final(row)@, columns as nat),
{
    let ghost orig = row@;
    while row.len() < columns
        invariant
            orig.len() <= row@.len() <= padded_len(orig.len(), columns as nat),
            row@.subrange(0, orig.len() as int) == orig,
            forall|j: int| orig.len() <= j < row@.len() ==> is_default(#[trigger] row@[j]),
        decreases columns - row.len(),
    {
        let d = T::default();
        row.push(d);
    }
}

/// A `rows` by `columns` grid whose cells are copies of `value`.
fn filled<T: Clone>(value: &T, rows: usize, columns: usize) -> (r: Vec<Vec<T>>)
    ensures
        is_filled_grid(cells(r@), *value, rows as nat, columns as nat),
{
    let mut grid: Vec<Vec<T>> = Vec::with_capacity(rows);
    let mut i: usize = 0;
    while i < rows
        invariant
            i <= rows,
            is_filled_grid(cells(grid@), *value, i as nat, columns as nat),
        decreases rows - i,
    {
        let mut row: Vec<T> = Vec::with_capacity(columns);
        let mut j: usize = 0;
        while j < columns
            invariant
                j <= columns,
                row@.len() == j,
                forall|k: int| 0 <= k < j ==> cloned(*value, #[trigger] row@[k]),
            decreases columns - j,
        {
            row.push(value.clone());
            j = j + 1;
        }
        let ghost before = cells(grid@);
        grid.push(row);
        assert(cells(grid@) =~= before.push(row@));
        i = i + 1;
    }
    grid
}

/// Where no row of `items` is longer than `columns`, every padded row holds
/// exactly `columns` cells and starts with the cells of its original row, in
/// order.
pub proof fn lemma_short_rows_reach_width<T: Default>(
    items: Seq<Seq<T>>,
    grid: Seq<Seq<T>>,
    columns: nat,
)
    requires
        is_padded_grid(items, grid, columns),
        forall|i: int| 0 <= i < items.len() ==> (#[trigger] items[i]).len() <= columns,
    ensures
        forall|i: int| 0 <= i < grid.len() ==> (#[trigger] grid[i]).len() == columns,
        forall|i: int, j: int|
            0 <= i < items.len() && 0 <= j < items[i].len() ==> #[trigger] grid[i][j] == items[i][j],
{
    assert forall|i: int, j: int|
        0 <= i < items.len() && 0 <= j < items[i].len() implies #[trigger] grid[i][j] == items[i][j] by {
        assert(is_padded_row(items[i], grid[i], columns));
        assert(grid[i].subrange(0, items[i].len() as int)[j] == grid[i][j]);
    }
}

/// A row longer than `columns` is never shortened: padding gives it back as
/// it was.
pub proof fn lemma_long_rows_kept<T: Default>(items: Seq<Seq<T>>, grid: Seq<Seq<T>>, columns: nat)
    requires
        is_padded_grid(items, grid, columns),
    ensures
        forall|i: int| 0 <= i < items.len() && items[i].len() > columns ==> #[trigger] grid[i] == items[i],
{
    assert forall|i: int| 0 <= i < items.len() && items[i].len() > columns implies #[trigger] grid[i] == items[i] by {
        assert(is_padded_row(items[i], grid[i], columns));
        assert(grid[i].subrange(0, items[i].len() as int) =~= grid[i]);
    }
}

/// In a grid filled with copies of `value`, writing the first cell leaves
/// every other cell a copy of `value`, as it was.
pub proof fn lemma_fill_cells_independent<T: Clone>(
    grid: Seq<Seq<T>>,
    value: T,
    rows: nat,
    columns: nat,
    written: T,
)
    requires
        is_filled_grid(grid, value, rows, columns),
        rows > 0,
        columns > 0,
    ensures
        forall|i: int, j: int|
            0 <= i < rows && 0 <= j < columns && (i, j) != (0int, 0int) ==> {
                &&& #[trigger] with_cell(grid, 0, 0, written)[i][j] == grid[i][j]
                &&& cloned(value, with_cell(grid, 0, 0, written)[i][j])
            },
{
}

/// A grid of cells stored row by row, with a row count and a column count
/// declared by the caller.
///
/// The declared dimensions are metadata: they are kept as given and are not
/// checked against the shape of `data`.
pub struct Array<T: Default> {
    pub data: Vec<Vec<T>>,
    rows: usize,
    columns: usize,
}

impl<T: Default> View for Array<T> {
    type V = Seq<Seq<T>>;

    /// The cells, row by row.
    closed spec fn view(&self) -> Seq<Seq<T>> {
        cells(self.data@)
    }
}

impl<T: Default> Array<T> {
    /// The declared row count.
    pub closed spec fn spec_rows(&self) -> usize {
        self.rows
    }

    /// The declared column count.
    pub closed spec fn spec_columns(&self) -> usize {
        self.columns
    }

    /// Builds a grid from `items`, appending default cells to every row
    /// shorter than `columns`. Longer rows are kept whole. `rows` and
    /// `columns` are recorded as given.
    pub fn new(items: Vec<Vec<T>>, rows: usize, columns: usize) -> (a: Array<T>)
        where
            T: Clone,
        ensures
            is_padded_grid(cells(items@), a@, columns as nat),
            a.spec_rows() == rows,
            a.spec_columns() == columns,
    {
        let ghost orig = cells(items@);
        let mut data = items;
        let n = data.len();
        let mut i: usize = 0;
        while i < n
            invariant
                i <= n,
                data@.len() == n,
                orig.len() == n,
                forall|k: int| 0 <= k < i ==> is_padded_row(orig[k], #[trigger] data@[k]@, columns as nat),
                forall|k: int| i <= k < n ==> #[trigger] data@[k]@ == orig[k],
            decreases n - i,
        {
            let mut row: Vec<T> = Vec::new();
            data.set_and_swap(i, &mut row);
            pad_row(&mut row, columns);
            data.set_and_swap(i, &mut row);
            i = i + 1;
        }
        let a = Array { data, rows, columns };
        assert(a@.len() == orig.len());
        assert forall|k: int| 0 <= k < orig.len() implies is_padded_row(orig[k], #[trigger] a@[k], columns as nat) by {
            assert(a@[k] == a.data@[k]@);
        }
        a
    }

    /// The declared row count.
    #[verifier::when_used_as_spec(spec_rows)]
    pub fn rows(&self) -> (r: usize)
        ensures
            r == self.spec_rows(),
    {
        self.rows
    }

    /// The declared column count.
    #[verifier::when_used_as_spec(spec_columns)]
    pub fn columns(&self) -> (r: usize)
        ensures
            r == self.spec_columns(),
    {
        self.columns
    }

    /// The declared dimensions, rows first.
    pub fn dims(&self) -> (r: (usize, usize))
        ensures
            r == (self.spec_rows(), self.spec_columns()),
    {
        (self.rows, self.columns)
    }

    /// The cell at `row`, `column`.
    pub fn get(&self, row: usize, column: usize) -> (r: &T)
        requires
            row < self@.len(),
            column < self@[row as int].len(),
        ensures
            *r == self@[row as int][column as int],
    {
        &self.data[row][column]
    }

    /// Replaces the cell at `row`, `column` with `value`; every other cell,
    /// and the declared dimensions, stay as they were.
    pub fn set(&mut self, row: usize, column: usize, value: T)
        requires
            row < old(self)@.len(),
            column < old(self)@[row as int].len(),
        ensures
            final(self)@ == with_cell(old(self)@, row as int, column as int, value),
            final(self).spec_rows() == old(self).spec_rows(),
            final(self).spec_columns() == old(self).spec_columns(),
    {
        let mut cells_of_row: Vec<T> = Vec::new();
        self.data.set_and_swap(row, &mut cells_of_row);
        cells_of_row.set(column, value);
        self.data.set_and_swap(row, &mut cells_of_row);
        proof {
            assert(self@ =~= with_cell(old(self)@, row as int, column as int, value));
        }
    }
}

/// Builds a grid from `arr`, with as many rows as `arr` has, each row padded
/// with default cells to `max_items_in_a_row` cells.
pub fn init<T: Default>(arr: Vec<Vec<T>>, max_items_in_a_row: usize) -> (a: Array<T>)
    where
        T: Clone,
    ensures
        is_padded_grid(cells(arr@), a@, max_items_in_a_row as nat),
        a.spec_rows() == arr@.len(),
        a.spec_columns() == max_items_in_a_row,
{
    let rows = arr.len();
    Array::new(arr, rows, max_items_in_a_row)
}

/// Builds a `rows` by `columns` grid in which every cell is its own copy of
/// `value`.
pub fn init_all_with<T: Default>(value: T, rows: usize, columns: usize) -> (a: Array<T>)
    where
        T: Clone,
    ensures
        is_filled_grid(a@, value, rows as nat, columns as nat),
        a.spec_rows() == rows,
        a.spec_columns() == columns,
{
    let grid = filled(&value, rows, columns);
    let ghost g = cells(grid@);
    let a = Array::new(grid, rows, columns);
    assert forall|i: int| 0 <= i < rows implies (#[trigger] a@[i]) == g[i] by {
        assert(is_padded_row(g[i], a@[i], columns as nat));
        assert(a@[i].subrange(0, g[i].len() as int) =~= a@[i]);
    }
    a
}

} // verus!
