use vstd::prelude::*;
use crate::coords::{coords_of, copy_path, table_to_coordinates, Coord, Table};
use crate::error::GeomError;
use crate::geometry::{
    all_tagged, entries_view, paths_view, Collection, Geometry, GeometryView, Handle, Tag,
};

verus! {

/// The entries of a collection that holds one point for each coordinate.
pub open spec fn point_entries<T>(coords: Seq<Coord<T>>) -> Seq<Option<GeometryView<T>>> {
    Seq::new(coords.len(), |i: int| Some(GeometryView::Point(coords[i])))
}

/// The paths that a list of two-column tables holds, from table `from` on.
pub open spec fn table_paths<T>(tables: Seq<Table<T>>, from: int) -> Seq<Seq<Coord<T>>> {
    Seq::new((tables.len() - from) as nat, |i: int| coords_of(tables[from + i]@))
}

/// Every table of the list has exactly two columns.
pub open spec fn all_xy<T>(tables: Seq<Table<T>>) -> bool {
    forall|i: int| 0 <= i < tables.len() ==> (#[trigger] tables[i])@.is_xy()
}

/// The polygon that a list of rings describes: the first ring is the
/// exterior, the others are holes.
pub open spec fn polygon_of<T>(rings: Seq<Table<T>>) -> GeometryView<T> {
    GeometryView::Polygon(coords_of(rings[0]@), table_paths(rings, 1))
}

/// A list of rings describes a polygon: it is not empty, and every ring is
/// a two-column table.
pub open spec fn rings_ok<T>(rings: Seq<Table<T>>) -> bool {
    rings.len() > 0 && all_xy(rings)
}

/// A point at `(x, y)`.
pub fn make_point<T>(x: T, y: T) -> (r: Handle<T>)
    ensures
        r@ == GeometryView::Point(Coord { x, y }),
{
    Handle::wrap(Geometry::Point(Coord { x, y }))
}

/// One point handle for each coordinate, in order.
fn points_from<T: Copy>(coords: &Vec<Coord<T>>) -> (r: Collection<T>)
    ensures
        r.wf(),
        r.elem_tag() == Tag::Point,
        r.entries() == point_entries(coords@),
{
    let n: usize = coords.len();
    let mut items: Vec<Option<Handle<T>>> = Vec::new();
    let mut i: usize = 0;
    while i < n
        invariant
            i <= n,
            n == coords@.len(),
            items@.len() == i,
            forall|k: int|
                0 <= k < i ==> (#[trigger] items@[k]) is Some && items@[k]->Some_0@
                    == GeometryView::Point(coords@[k]),
        decreases n - i,
    {
        let c = coords[i];
        items.push(Some(make_point(c.x, c.y)));
        i += 1;
    }
    assert(entries_view(items@) =~= point_entries(coords@));
    assert(all_tagged(entries_view(items@), Tag::Point));
    Collection::of_tagged(Tag::Point, items)
}

/// One point handle for each row of a two-column table, in row order.
pub fn make_points<T: Copy>(table: &Table<T>) -> (r: Result<Collection<T>, GeomError>)
    ensures
        table@.is_xy() ==> r is Ok && r->Ok_0.wf() && r->Ok_0.elem_tag() == Tag::Point
            && r->Ok_0.entries() == point_entries(coords_of(table@)),
        !table@.is_xy() ==> r == Err::<Collection<T>, GeomError>(GeomError::Shape),
{
    match table_to_coordinates(table) {
        Ok(coords) => Ok(points_from(&coords)),
        Err(e) => Err(e),
    }
}

/// The points of a line string, one handle for each coordinate, in order.
/// A handle of another kind is refused.
pub fn line_string_to_points<T: Copy>(line: &Handle<T>) -> (r: Result<Collection<T>, GeomError>)
    ensures
        line@ is LineString ==> r is Ok && r->Ok_0.wf() && r->Ok_0.elem_tag() == Tag::Point
            && r->Ok_0.entries() == point_entries(line@->LineString_0),
        !(line@ is LineString) ==> r == Err::<Collection<T>, GeomError>(GeomError::TypeTag),
{
    match line.line_string() {
        Ok(coords) => Ok(points_from(coords)),
        Err(e) => Err(e),
    }
}

/// The line from `a` to `b`, each given as a pair `[x, y]`. A coordinate
/// that is not a pair is refused.
pub fn make_line<T: Copy>(a: &Vec<T>, b: &Vec<T>) -> (r: Result<Handle<T>, GeomError>)
    ensures
        a@.len() == 2 && b@.len() == 2 ==> r is Ok && r->Ok_0@ == GeometryView::Line(
            Coord { x: a@[0], y: a@[1] },
            Coord { x: b@[0], y: b@[1] },
        ),
        !(a@.len() == 2 && b@.len() == 2) ==> r == Err::<Handle<T>, GeomError>(GeomError::Shape),
{
    if a.len() != 2 || b.len() != 2 {
        return Err(GeomError::Shape);
    }
    let start = Coord { x: a[0], y: a[1] };
    let end = Coord { x: b[0], y: b[1] };
    Ok(Handle::wrap(Geometry::Line(start, end)))
}

/// The line string through the rows of a two-column table, in row order.
pub fn make_line_string<T: Copy>(table: &Table<T>) -> (r: Result<Handle<T>, GeomError>)
    ensures
        table@.is_xy() ==> r is Ok && r->Ok_0@ == GeometryView::LineString(coords_of(table@)),
        !table@.is_xy() ==> r == Err::<Handle<T>, GeomError>(GeomError::Shape),
{
    match table_to_coordinates(table) {
        Ok(coords) => Ok(Handle::wrap(Geometry::LineString(coords))),
        Err(e) => Err(e),
    }
}

/// The entries of a collection that holds one line string for each path.
pub open spec fn line_string_entries<T>(paths: Seq<Seq<Coord<T>>>) -> Seq<Option<GeometryView<T>>> {
    Seq::new(paths.len(), |i: int| Some(GeometryView::LineString(paths[i])))
}

/// One line string handle for each path, in order.
pub fn line_strings_from<T: Copy>(paths: Vec<Vec<Coord<T>>>) -> (r: Collection<T>)
    ensures
        r.wf(),
        r.elem_tag() == Tag::LineString,
        r.entries() == line_string_entries(paths_view(paths@)),
{
    let n: usize = paths.len();
    let mut items: Vec<Option<Handle<T>>> = Vec::new();
    let mut i: usize = 0;
    while i < n
        invariant
            i <= n,
            n == paths@.len(),
            items@.len() == i,
            forall|k: int|
                0 <= k < i ==> (#[trigger] items@[k]) is Some && items@[k]->Some_0@
                    == GeometryView::LineString(paths@[k]@),
        decreases n - i,
    {
        let p = copy_path(&paths[i]);
        items.push(Some(Handle::wrap(Geometry::LineString(p))));
        i += 1;
    }
    assert(entries_view(items@) =~= line_string_entries(paths_view(paths@)));
    assert(all_tagged(entries_view(items@), Tag::LineString));
    Collection::of_tagged(Tag::LineString, items)
}

/// The paths of the tables `from..`, in order. A table that does not have
/// exactly two columns is refused.
fn tables_to_paths<T: Copy>(tables: &Vec<Table<T>>, from: usize) -> (r: Result<
    Vec<Vec<Coord<T>>>,
    GeomError,
>)
    requires
        from <= tables@.len(),
        forall|i: int| 0 <= i < from ==> (#[trigger] tables@[i])@.is_xy(),
    ensures
        all_xy(tables@) ==> r is Ok && paths_view(r->Ok_0@) == table_paths(tables@, from as int),
        !all_xy(tables@) ==> r == Err::<Vec<Vec<Coord<T>>>, GeomError>(GeomError::Shape),
{
    let n: usize = tables.len();
    let mut out: Vec<Vec<Coord<T>>> = Vec::new();
    let mut i: usize = from;
    while i < n
        invariant
            from <= i <= n,
            n == tables@.len(),
            out@.len() == i - from,
            forall|k: int| 0 <= k < i ==> (#[trigger] tables@[k])@.is_xy(),
            forall|k: int| 0 <= k < i - from ==> (#[trigger] out@[k])@ == coords_of(tables@[from + k]@),
        decreases n - i,
    {
        match table_to_coordinates(&tables[i]) {
            Ok(coords) => {
                out.push(coords);
            },
            Err(e) => {
                assert(!tables@[i as int]@.is_xy());
                return Err(e);
            },
        }
        i += 1;
    }
    assert(paths_view(out@) =~= table_paths(tables@, from as int));
    Ok(out)
}

/// One line string handle for each table, in order. A table that does not
/// have exactly two columns is refused.
pub fn make_line_strings<T: Copy>(tables: &Vec<Table<T>>) -> (r: Result<Collection<T>, GeomError>)
    ensures
        all_xy(tables@) ==> r is Ok && r->Ok_0.wf() && r->Ok_0.elem_tag() == Tag::LineString
            && r->Ok_0.entries() == line_string_entries(table_paths(tables@, 0)),
        !all_xy(tables@) ==> r == Err::<Collection<T>, GeomError>(GeomError::Shape),
{
    match tables_to_paths(tables, 0) {
        Ok(paths) => Ok(line_strings_from(paths)),
        Err(e) => Err(e),
    }
}

/// The polygon whose exterior is the first ring and whose holes are the
/// others. An empty list, and a ring that does not have exactly two
/// columns, are refused.
pub fn make_polygon<T: Copy>(rings: &Vec<Table<T>>) -> (r: Result<Handle<T>, GeomError>)
    ensures
        rings_ok(rings@) ==> r is Ok && r->Ok_0@ == polygon_of(rings@),
        !rings_ok(rings@) ==> r == Err::<Handle<T>, GeomError>(GeomError::Shape),
{
    if rings.len() == 0 {
        return Err(GeomError::Shape);
    }
    let exterior = match table_to_coordinates(&rings[0]) {
        Ok(coords) => coords,
        Err(e) => {
            assert(!rings@[0]@.is_xy());
            return Err(e);
        },
    };
    match tables_to_paths(rings, 1) {
        Ok(holes) => Ok(Handle::wrap(Geometry::Polygon(exterior, holes))),
        Err(e) => Err(e),
    }
}

/// The entries of a collection that holds one polygon for each list of rings.
pub open spec fn polygon_entries<T>(lists: Seq<Vec<Table<T>>>) -> Seq<Option<GeometryView<T>>> {
    Seq::new(lists.len(), |i: int| Some(polygon_of(lists[i]@)))
}

/// Every list of rings describes a polygon.
pub open spec fn all_rings_ok<T>(lists: Seq<Vec<Table<T>>>) -> bool {
    forall|i: int| 0 <= i < lists.len() ==> rings_ok((#[trigger] lists[i])@)
}

/// One polygon handle for each list of rings, in order. A list that
/// `make_polygon` refuses is refused here.
pub fn make_polygons<T: Copy>(lists: &Vec<Vec<Table<T>>>) -> (r: Result<Collection<T>, GeomError>)
    ensures
        all_rings_ok(lists@) ==> r is Ok && r->Ok_0.wf() && r->Ok_0.elem_tag() == Tag::Polygon
            && r->Ok_0.entries() == polygon_entries(lists@),
        !all_rings_ok(lists@) ==> r == Err::<Collection<T>, GeomError>(GeomError::Shape),
{
    let n: usize = lists.len();
    let mut items: Vec<Option<Handle<T>>> = Vec::new();
    let mut i: usize = 0;
    while i < n
        invariant
            i <= n,
            n == lists@.len(),
            items@.len() == i,
            forall|k: int| 0 <= k < i ==> rings_ok((#[trigger] lists@[k])@),
            forall|k: int|
                0 <= k < i ==> (#[trigger] items@[k]) is Some && items@[k]->Some_0@ == polygon_of(
                    lists@[k]@,
                ),
        decreases n - i,
    {
        match make_polygon(&lists[i]) {
            Ok(h) => {
                items.push(Some(h));
            },
            Err(e) => {
                assert(!rings_ok(lists@[i as int]@));
                return Err(e);
            },
        }
        i += 1;
    }
    assert(entries_view(items@) =~= polygon_entries(lists@));
    assert(all_tagged(entries_view(items@), Tag::Polygon));
    Ok(Collection::of_tagged(Tag::Polygon, items))
}

/// Where the coordinates of one line of a multi line string come from.
#[derive(Debug, PartialEq)]
pub enum LineSource<T> {
    /// A two-column table of coordinates.
    Table(Table<T>),
    /// A handle that holds a line string.
    Line(Handle<T>),
}

/// The path that a source gives, or why it gives none: a table must have
/// exactly two columns, a handle must hold a line string.
pub open spec fn source_path<T>(s: LineSource<T>) -> Result<Seq<Coord<T>>, GeomError> {
    match s {
        LineSource::Table(t) => if t@.is_xy() {
            Ok(coords_of(t@))
        } else {
            Err(GeomError::Shape)
        },
        LineSource::Line(h) => if h@ is LineString {
            Ok(h@->LineString_0)
        } else {
            Err(GeomError::TypeTag)
        },
    }
}

/// Source `i` is the first of the list that gives no path, and `e` is why.
pub open spec fn refused_at<T>(sources: Seq<LineSource<T>>, i: int, e: GeomError) -> bool {
    &&& 0 <= i < sources.len()
    &&& source_path(sources[i]) == Err::<Seq<Coord<T>>, GeomError>(e)
    &&& forall|k: int| 0 <= k < i ==> source_path(#[trigger] sources[k]) is Ok
}

/// The paths of a list of sources that all give one.
pub open spec fn source_paths<T>(sources: Seq<LineSource<T>>) -> Seq<Seq<Coord<T>>> {
    Seq::new(sources.len(), |i: int| source_path(sources[i])->Ok_0)
}

/// The path of one source.
pub fn path_of_source<T: Copy>(s: &LineSource<T>) -> (r: Result<Vec<Coord<T>>, GeomError>)
    ensures
        r is Ok == source_path(*s) is Ok,
        r is Ok ==> r->Ok_0@ == source_path(*s)->Ok_0,
        r is Err ==> r->Err_0 == source_path(*s)->Err_0,
{
    match s {
        LineSource::Table(t) => table_to_coordinates(t),
        LineSource::Line(h) => match h.line_string() {
            Ok(coords) => Ok(copy_path(coords)),
            Err(e) => Err(e),
        },
    }
}

/// The multi line string of the paths of the sources, in order. The first
/// source that gives no path decides the error.
pub fn make_multi_line_string<T: Copy>(sources: &Vec<LineSource<T>>) -> (r: Result<
    Handle<T>,
    GeomError,
>)
    ensures
        match r {
            Ok(h) => (forall|i: int|
                0 <= i < sources@.len() ==> source_path(#[trigger] sources@[i]) is Ok) && h@
                == GeometryView::MultiLineString(source_paths(sources@)),
            Err(e) => exists|i: int| refused_at(sources@, i, e),
        },
{
    let n: usize = sources.len();
    let mut paths: Vec<Vec<Coord<T>>> = Vec::new();
    let mut i: usize = 0;
    while i < n
        invariant
            i <= n,
            n == sources@.len(),
            paths@.len() == i,
            forall|k: int| 0 <= k < i ==> source_path(#[trigger] sources@[k]) is Ok,
            forall|k: int| 0 <= k < i ==> (#[trigger] paths@[k])@ == source_path(sources@[k])->Ok_0,
        decreases n - i,
    {
        match path_of_source(&sources[i]) {
            Ok(p) => {
                paths.push(p);
            },
            Err(e) => {
                assert(refused_at(sources@, i as int, e));
                return Err(e);
            },
        }
        i += 1;
    }
    assert(paths_view(paths@) =~= source_paths(sources@));
    Ok(Handle::wrap(Geometry::MultiLineString(paths)))
}

/// The coordinates of a list of point entries, in order.
pub open spec fn points_of<T>(entries: Seq<Option<GeometryView<T>>>) -> Seq<Coord<T>> {
    Seq::new(entries.len(), |i: int| entries[i]->Some_0->Point_0)
}

/// No entry is absent.
pub open spec fn all_present<T>(entries: Seq<Option<GeometryView<T>>>) -> bool {
    forall|i: int| 0 <= i < entries.len() ==> (#[trigger] entries[i]) is Some
}

/// The multipoint of the points of a collection, in order. A collection of
/// another kind is refused as a whole; so is one with an absent entry,
/// since a multipoint has no place for a missing point.
pub fn make_multi_point<T: Copy>(points: &Collection<T>) -> (r: Result<Handle<T>, GeomError>)
    requires
        points.wf(),
    ensures
        points.elem_tag() != Tag::Point ==> r == Err::<Handle<T>, GeomError>(GeomError::TypeTag),
        points.elem_tag() == Tag::Point && !all_present(points.entries()) ==> r == Err::<
            Handle<T>,
            GeomError,
        >(GeomError::Shape),
        points.elem_tag() == Tag::Point && all_present(points.entries()) ==> r is Ok && r->Ok_0@
            == GeometryView::MultiPoint(points_of(points.entries())),
{
    if points.tag() != Tag::Point {
        return Err(GeomError::TypeTag);
    }
    let n: usize = points.len();
    let mut coords: Vec<Coord<T>> = Vec::new();
    let mut i: usize = 0;
    while i < n
        invariant
            i <= n,
            n == points.entries().len(),
            points.wf(),
            points.elem_tag() == Tag::Point,
            coords@.len() == i,
            forall|k: int| 0 <= k < i ==> (#[trigger] points.entries()[k]) is Some,
            forall|k: int| 0 <= k < i ==> coords@[k] == points_of(points.entries())[k],
        decreases n - i,
    {
        match points.get(i) {
            Some(h) => {
                assert(points.entries()[i as int] is Some);
                match h.point() {
                    Ok(c) => {
                        coords.push(c);
                    },
                    Err(e) => {
                        return Err(e);
                    },
                }
            },
            None => {
                assert(!(points.entries()[i as int] is Some));
                return Err(GeomError::Shape);
            },
        }
        i += 1;
    }
    assert(coords@ =~= points_of(points.entries()));
    Ok(Handle::wrap(Geometry::MultiPoint(coords)))
}

} // verus!
