use vstd::prelude::*;
use crate::construct::make_point;
use crate::coords::{copy_path, Coord};
use crate::error::GeomError;
use crate::geometry::{all_tagged, entries_view, Collection, GeometryView, Handle, Tag};

verus! {

/// For each entry the coordinate of the point there, or nothing where the
/// entry holds no point.
pub open spec fn point_values<T>(entries: Seq<Option<GeometryView<T>>>) -> Seq<Option<Coord<T>>> {
    Seq::new(
        entries.len(),
        |i: int|
            match entries[i] {
                Some(GeometryView::Point(c)) => Some(c),
                _ => None,
            },
    )
}

/// For each coordinate a point, and nothing where there is none.
pub open spec fn point_results<T>(values: Seq<Option<Coord<T>>>) -> Seq<Option<GeometryView<T>>> {
    Seq::new(
        values.len(),
        |i: int|
            match values[i] {
                Some(c) => Some(GeometryView::Point(c)),
                None => None,
            },
    )
}

/// The coordinates of a collection of points, entry by entry; an absent
/// entry stays absent. A collection of another kind is refused as a whole,
/// before any entry is read.
pub fn expect_points<T: Copy>(points: &Collection<T>) -> (r: Result<
    Vec<Option<Coord<T>>>,
    GeomError,
>)
    ensures
        points.elem_tag() == Tag::Point ==> r is Ok && r->Ok_0@ == point_values(points.entries()),
        points.elem_tag() != Tag::Point ==> r == Err::<Vec<Option<Coord<T>>>, GeomError>(
            GeomError::TypeTag,
        ),
{
    if points.tag() != Tag::Point {
        return Err(GeomError::TypeTag);
    }
    let n: usize = points.len();
    let mut out: Vec<Option<Coord<T>>> = Vec::new();
    let mut i: usize = 0;
    while i < n
        invariant
            i <= n,
            n == points.entries().len(),
            out@.len() == i,
            forall|k: int| 0 <= k < i ==> out@[k] == point_values(points.entries())[k],
        decreases n - i,
    {
        match points.get(i) {
            Some(h) => {
                assert(points.entries()[i as int] is Some);
                match h.point() {
                    Ok(c) => {
                        out.push(Some(c));
                    },
                    Err(_) => {
                        out.push(None);
                    },
                }
            },
            None => {
                out.push(None);
            },
        }
        i += 1;
    }
    assert(out@ =~= point_values(points.entries()));
    Ok(out)
}

/// `paths` holds, entry by entry, the coordinates of the line strings of
/// `entries`, and nothing where an entry holds no line string.
pub open spec fn holds_paths<T>(
    entries: Seq<Option<GeometryView<T>>>,
    paths: Seq<Option<Vec<Coord<T>>>>,
) -> bool {
    &&& paths.len() == entries.len()
    &&& forall|i: int|
        0 <= i < entries.len() ==> match #[trigger] entries[i] {
            Some(GeometryView::LineString(path)) => paths[i] is Some && paths[i]->Some_0@ == path,
            _ => paths[i] is None,
        }
}

/// The coordinates of a collection of line strings, entry by entry; an
/// absent entry stays absent. A collection of another kind is refused as a
/// whole, before any entry is read.
pub fn expect_line_strings<T: Copy>(lines: &Collection<T>) -> (r: Result<
    Vec<Option<Vec<Coord<T>>>>,
    GeomError,
>)
    ensures
        lines.elem_tag() == Tag::LineString ==> r is Ok && holds_paths(lines.entries(), r->Ok_0@),
        lines.elem_tag() != Tag::LineString ==> r == Err::<Vec<Option<Vec<Coord<T>>>>, GeomError>(
            GeomError::TypeTag,
        ),
{
    if lines.tag() != Tag::LineString {
        return Err(GeomError::TypeTag);
    }
    let n: usize = lines.len();
    let mut out: Vec<Option<Vec<Coord<T>>>> = Vec::new();
    let mut i: usize = 0;
    while i < n
        invariant
            i <= n,
            n == lines.entries().len(),
            out@.len() == i,
            forall|k: int|
                0 <= k < i ==> match #[trigger] lines.entries()[k] {
                    Some(GeometryView::LineString(path)) => out@[k] is Some && out@[k]->Some_0@
                        == path,
                    _ => out@[k] is None,
                },
        decreases n - i,
    {
        match lines.get(i) {
            Some(h) => {
                assert(lines.entries()[i as int] is Some);
                match h.line_string() {
                    Ok(coords) => {
                        out.push(Some(copy_path(coords)));
                    },
                    Err(_) => {
                        out.push(None);
                    },
                }
            },
            None => {
                out.push(None);
            },
        }
        i += 1;
    }
    Ok(out)
}

/// A collection of points from results computed entry by entry: a point
/// where there is a coordinate, an absent entry where there is none.
pub fn wrap_points<T: Copy>(values: &Vec<Option<Coord<T>>>) -> (r: Collection<T>)
    ensures
        r.wf(),
        r.elem_tag() == Tag::Point,
        r.entries() == point_results(values@),
{
    let n: usize = values.len();
    let mut items: Vec<Option<Handle<T>>> = Vec::new();
    let mut i: usize = 0;
    while i < n
        invariant
            i <= n,
            n == values@.len(),
            items@.len() == i,
            forall|k: int|
                0 <= k < i ==> match values@[k] {
                    Some(c) => (#[trigger] items@[k]) is Some && items@[k]->Some_0@
                        == GeometryView::Point(c),
                    None => items@[k] is None,
                },
        decreases n - i,
    {
        match values[i] {
            Some(c) => {
                items.push(Some(make_point(c.x, c.y)));
            },
            None => {
                items.push(None);
            },
        }
        i += 1;
    }
    assert(entries_view(items@) =~= point_results(values@));
    assert(all_tagged(entries_view(items@), Tag::Point));
    Collection::of_tagged(Tag::Point, items)
}

/// Whether two lists both hold a value at position `i`.
pub open spec fn present_in_both<A, B>(xs: Seq<Option<A>>, ys: Seq<Option<B>>, i: int) -> bool {
    xs[i] is Some && ys[i] is Some
}

/// For two lists that are worked on side by side, position by position up
/// to the end of the shorter: whether both hold a value there. Where one is
/// absent, the result for that position is absent too.
pub fn both_present<A, B>(xs: &Vec<Option<A>>, ys: &Vec<Option<B>>) -> (r: Vec<bool>)
    ensures
        r@.len() == if xs@.len() <= ys@.len() {
            xs@.len()
        } else {
            ys@.len()
        },
        forall|i: int| 0 <= i < r@.len() ==> #[trigger] r@[i] == present_in_both(xs@, ys@, i),
{
    let n: usize = if xs.len() <= ys.len() {
        xs.len()
    } else {
        ys.len()
    };
    let mut out: Vec<bool> = Vec::new();
    let mut i: usize = 0;
    while i < n
        invariant
            i <= n,
            n <= xs@.len(),
            n <= ys@.len(),
            out@.len() == i,
            forall|k: int| 0 <= k < i ==> #[trigger] out@[k] == present_in_both(xs@, ys@, k),
        decreases n - i,
    {
        let x_here = match &xs[i] {
            Some(_) => true,
            None => false,
        };
        let y_here = match &ys[i] {
            Some(_) => true,
            None => false,
        };
        out.push(x_here && y_here);
        i += 1;
    }
    out
}

/// Points that are taken out of a collection and wrapped again give the
/// same entries, absent ones included.
pub proof fn points_round_trip<T>(entries: Seq<Option<GeometryView<T>>>)
    requires
        all_tagged(entries, Tag::Point),
    ensures
        point_results(point_values(entries)) == entries,
{
    assert forall|i: int| 0 <= i < entries.len() implies point_results(point_values(entries))[i]
        == entries[i] by {
        if entries[i] is Some {
            assert(entries[i]->Some_0.tag() == Tag::Point);
        }
    }
    assert(point_results(point_values(entries)) =~= entries);
}

} // verus!
