use vstd::prelude::*;
use crate::error::GeomError;

verus! {

/// A planar coordinate. The scalar type is left open: the library moves
/// coordinates around and never computes with them.
#[derive(Clone, Copy, Debug, PartialEq)]
pub struct Coord<T> {
    pub x: T,
    pub y: T,
}

/// A dense table of scalars, stored column by column: the cell in row `i`
/// and column `j` is `data[j * nrow + i]`.
#[derive(Debug, PartialEq)]
pub struct Table<T> {
    pub nrow: usize,
    pub ncol: usize,
    pub data: Vec<T>,
}

/// The mathematical content of a `Table`.
pub struct TableView<T> {
    pub nrow: nat,
    pub ncol: nat,
    pub cells: Seq<T>,
}

impl<T> TableView<T> {
    /// The table has exactly two columns, and as many cells as that takes.
    pub open spec fn is_xy(self) -> bool {
        self.ncol == 2 && self.cells.len() == 2 * self.nrow
    }
}

impl<T> View for Table<T> {
    type V = TableView<T>;

    open spec fn view(&self) -> TableView<T> {
        TableView { nrow: self.nrow as nat, ncol: self.ncol as nat, cells: self.data@ }
    }
}

/// The rows of a two-column table, in row order: column 0 is x, column 1 is y.
pub open spec fn coords_of<T>(t: TableView<T>) -> Seq<Coord<T>> {
    Seq::new(t.nrow, |i: int| Coord { x: t.cells[i], y: t.cells[t.nrow + i] })
}

/// The two-column table whose rows are `coords`, in order.
pub open spec fn table_of<T>(coords: Seq<Coord<T>>) -> TableView<T> {
    TableView {
        nrow: coords.len(),
        ncol: 2,
        cells: Seq::new(
            2 * coords.len(),
            |k: int| if k < coords.len() { coords[k].x } else { coords[k - coords.len()].y },
        ),
    }
}

/// Converts every row of a two-column table into a coordinate, in row order.
/// Any other shape is refused.
pub fn table_to_coordinates<T: Copy>(table: &Table<T>) -> (r: Result<Vec<Coord<T>>, GeomError>)
    ensures
        table@.is_xy() ==> r is Ok && r->Ok_0@ == coords_of(table@),
        !table@.is_xy() ==> r == Err::<Vec<Coord<T>>, GeomError>(GeomError::Shape),
{
    let n: usize = table.nrow;
    let len: usize = table.data.len();
    if table.ncol != 2 || len % 2 != 0 || len / 2 != n {
        return Err(GeomError::Shape);
    }
    let mut coords: Vec<Coord<T>> = Vec::new();
    let mut i: usize = 0;
    while i < n
        invariant
            i <= n,
            n == table.nrow,
            len == table.data@.len(),
            len == 2 * n,
            coords@.len() == i,
            forall|k: int| 0 <= k < i ==> coords@[k] == coords_of(table@)[k],
        decreases n - i,
    {
        let c = Coord { x: table.data[i], y: table.data[n + i] };
        coords.push(c);
        i += 1;
    }
    assert(coords@ =~= coords_of(table@));
    Ok(coords)
}

/// Writes coordinates as a two-column table, one row each, in order.
pub fn coordinates_to_table<T: Copy>(coords: &Vec<Coord<T>>) -> (r: Table<T>)
    ensures
        r@ == table_of(coords@),
        r@.is_xy(),
{
    let n: usize = coords.len();
    let mut data: Vec<T> = Vec::new();
    let mut i: usize = 0;
    while i < n
        invariant
            i <= n,
            n == coords@.len(),
            data@.len() == i,
            forall|k: int| 0 <= k < i ==> data@[k] == coords@[k].x,
        decreases n - i,
    {
        data.push(coords[i].x);
        i += 1;
    }
    let mut j: usize = 0;
    while j < n
        invariant
            j <= n,
            n == coords@.len(),
            data@.len() == n + j,
            forall|k: int| 0 <= k < n ==> data@[k] == coords@[k].x,
            forall|k: int| n <= k < n + j ==> data@[k] == coords@[k - n].y,
        decreases n - j,
    {
        data.push(coords[j].y);
        j += 1;
    }
    let r = Table { nrow: n, ncol: 2, data };
    assert(r@.cells =~= table_of(coords@).cells);
    r
}

/// Copies a path of coordinates.
pub fn copy_path<T: Copy>(coords: &Vec<Coord<T>>) -> (r: Vec<Coord<T>>)
    ensures
        r@ == coords@,
{
    let n: usize = coords.len();
    let mut out: Vec<Coord<T>> = Vec::new();
    let mut i: usize = 0;
    while i < n
        invariant
            i <= n,
            n == coords@.len(),
            out@ == coords@.subrange(0, i as int),
        decreases n - i,
    {
        out.push(coords[i]);
        assert(out@ =~= coords@.subrange(0, i + 1));
        i += 1;
    }
    assert(out@ =~= coords@);
    out
}

/// A two-column table survives the trip to coordinates and back unchanged.
pub proof fn table_round_trip<T>(t: TableView<T>)
    requires
        t.is_xy(),
    ensures
        table_of(coords_of(t)) == t,
{
    assert(table_of(coords_of(t)).cells =~= t.cells);
}

/// Coordinates survive the trip to a table and back unchanged.
pub proof fn coordinates_round_trip<T>(coords: Seq<Coord<T>>)
    ensures
        table_of(coords).is_xy(),
        coords_of(table_of(coords)) == coords,
{
    assert(coords_of(table_of(coords)) =~= coords);
}

} // verus!
