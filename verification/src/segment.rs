use vstd::prelude::*;
use crate::construct::{line_string_entries, line_strings_from};
use crate::coords::{copy_path, Coord};
use crate::error::GeomError;
use crate::geometry::{paths_view, Collection, Geometry, GeometryView, Handle, Tag};

verus! {

/// Where on its segment a cut falls.
#[derive(Clone, Copy, Debug, PartialEq)]
pub enum CutAt<T> {
    /// At the given point, before the segment's end.
    Inside(Coord<T>),
    /// Exactly at the segment's end coordinate.
    End,
}

/// A boundary on a path: segment `segment` runs from coordinate `segment`
/// to coordinate `segment + 1` of the path.
#[derive(Clone, Copy, Debug, PartialEq)]
pub struct Cut<T> {
    pub segment: usize,
    pub at: CutAt<T>,
}

/// The coordinate at which a cut divides the path.
pub open spec fn boundary<T>(coords: Seq<Coord<T>>, c: Cut<T>) -> Coord<T> {
    match c.at {
        CutAt::Inside(p) => p,
        CutAt::End => coords[c.segment + 1],
    }
}

/// The index of the first coordinate of the path that lies after a cut.
pub open spec fn resume<T>(c: Cut<T>) -> int {
    match c.at {
        CutAt::Inside(_) => c.segment + 1,
        CutAt::End => c.segment + 2,
    }
}

/// A cut names a segment that the path has.
pub open spec fn cut_ok<T>(coords: Seq<Coord<T>>, c: Cut<T>) -> bool {
    c.segment + 1 < coords.len()
}

/// Every cut names a segment of the path, and the cuts advance along it:
/// none names a segment before that of the cut that precedes it.
pub open spec fn plan_ok<T>(coords: Seq<Coord<T>>, cuts: Seq<Cut<T>>) -> bool {
    &&& forall|j: int| 0 <= j < cuts.len() ==> cut_ok(coords, #[trigger] cuts[j])
    &&& forall|j: int| 0 < j < cuts.len() ==> cuts[j - 1].segment <= (#[trigger] cuts[j]).segment
}

/// The coordinates of the path from index `lo` up to, not including, `hi`;
/// none where `lo` lies beyond `hi`.
pub open spec fn between<T>(coords: Seq<Coord<T>>, lo: int, hi: int) -> Seq<Coord<T>> {
    if lo <= hi {
        coords.subrange(lo, hi)
    } else {
        Seq::empty()
    }
}

/// The prefix of a path that ends at a cut: the coordinates up to the start
/// of the cut's segment, then the boundary itself. A cut at the very start
/// of the path therefore gives the start coordinate twice.
pub open spec fn prefix_to<T>(coords: Seq<Coord<T>>, c: Cut<T>) -> Seq<Coord<T>> {
    coords.subrange(0, c.segment + 1).push(boundary(coords, c))
}

/// Piece `j` of a path divided at `cuts`: it starts at the previous boundary
/// (or at the path's start), runs over the coordinates between the two
/// boundaries, and ends at its own boundary (or at the path's end). A
/// boundary at a segment's end stands once in each of the two pieces it
/// divides: the end coordinate is not repeated after it.
/// Without cuts the only piece is the path.
pub open spec fn piece<T>(coords: Seq<Coord<T>>, cuts: Seq<Cut<T>>, j: int) -> Seq<Coord<T>> {
    if cuts.len() == 0 {
        coords
    } else {
        let head = if j == 0 { coords[0] } else { boundary(coords, cuts[j - 1]) };
        let lo = if j == 0 { 1 } else { resume(cuts[j - 1]) };
        if j < cuts.len() {
            (seq![head] + between(coords, lo, cuts[j].segment + 1)).push(boundary(coords, cuts[j]))
        } else {
            seq![head] + between(coords, lo, coords.len() as int)
        }
    }
}

/// All the pieces of a path divided at `cuts`, in order.
pub open spec fn pieces<T>(coords: Seq<Coord<T>>, cuts: Seq<Cut<T>>) -> Seq<Seq<Coord<T>>> {
    Seq::new(cuts.len() + 1, |j: int| piece(coords, cuts, j))
}

/// What splitting a path at a stop gives: without a stop the path, with a
/// stop on one of its segments the prefix up to it; any other stop is
/// refused.
pub open spec fn split_of<T>(coords: Seq<Coord<T>>, stop: Option<Cut<T>>) -> Result<
    Seq<Coord<T>>,
    GeomError,
> {
    match stop {
        None => Ok(coords),
        Some(c) => if cut_ok(coords, c) {
            Ok(prefix_to(coords, c))
        } else {
            Err(GeomError::Range)
        },
    }
}

/// A count of pieces and a plan of cuts go together on a path: there is at
/// least one piece, one cut between each two pieces, and the plan fits.
pub open spec fn partition_ok<T>(coords: Seq<Coord<T>>, n: int, cuts: Seq<Cut<T>>) -> bool {
    n >= 1 && cuts.len() == n - 1 && plan_ok(coords, cuts)
}

/// The boundary coordinate of a cut on a path.
fn boundary_of<T: Copy>(coords: &Vec<Coord<T>>, c: &Cut<T>) -> (r: Coord<T>)
    requires
        cut_ok(coords@, *c),
    ensures
        r == boundary(coords@, *c),
{
    let len: usize = coords.len();
    match c.at {
        CutAt::Inside(p) => p,
        CutAt::End => {
            assert(c.segment + 1 < len);
            coords[c.segment + 1]
        },
    }
}

/// Tells whether a cut names a segment of the path.
pub fn cut_in_range<T: Copy>(coords: &Vec<Coord<T>>, c: &Cut<T>) -> (r: bool)
    ensures
        r == cut_ok(coords@, *c),
{
    coords.len() >= 2 && c.segment <= coords.len() - 2
}

/// Tells whether a plan of cuts fits a path.
pub fn plan_fits<T: Copy>(coords: &Vec<Coord<T>>, cuts: &Vec<Cut<T>>) -> (r: bool)
    ensures
        r == plan_ok(coords@, cuts@),
{
    let m: usize = cuts.len();
    let mut j: usize = 0;
    while j < m
        invariant
            j <= m,
            m == cuts@.len(),
            plan_ok(coords@, cuts@.subrange(0, j as int)),
        decreases m - j,
    {
        let c = cuts[j];
        if !cut_in_range(coords, &c) {
            assert(!cut_ok(coords@, cuts@[j as int]));
            return false;
        }
        if j > 0 {
            let p = cuts[j - 1];
            if p.segment > c.segment {
                assert(!(cuts@[j - 1].segment <= cuts@[j as int].segment));
                return false;
            }
        }
        proof {
            let a = cuts@.subrange(0, j as int);
            let b = cuts@.subrange(0, j + 1);
            assert forall|k: int| 0 <= k < b.len() implies cut_ok(coords@, #[trigger] b[k]) by {
                if k < j {
                    assert(b[k] == a[k]);
                }
            }
            assert forall|k: int| 0 < k < b.len() implies b[k - 1].segment <= (#[trigger] b[k]).segment by {
                if k < j {
                    assert(b[k] == a[k]);
                    assert(b[k - 1] == a[k - 1]);
                }
            }
        }
        j += 1;
    }
    assert(cuts@.subrange(0, m as int) =~= cuts@);
    true
}

/// Appends the coordinates `lo..hi` of a path to `out`.
fn push_range<T: Copy>(out: &mut Vec<Coord<T>>, coords: &Vec<Coord<T>>, lo: usize, hi: usize)
    requires
        hi <= coords@.len(),
    ensures
        final(out)@ == old(out)@ + between(coords@, lo as int, hi as int),
{
    let mut i: usize = lo;
    assert(old(out)@ + Seq::<Coord<T>>::empty() =~= old(out)@);
    assert(lo <= hi ==> coords@.subrange(lo as int, lo as int) =~= Seq::<Coord<T>>::empty());
    while i < hi
        invariant
            lo <= i,
            hi <= coords@.len(),
            lo <= hi ==> i <= hi,
            lo <= hi ==> out@ == old(out)@ + coords@.subrange(lo as int, i as int),
            lo > hi ==> out@ == old(out)@,
        decreases hi - i,
    {
        out.push(coords[i]);
        assert(out@ =~= old(out)@ + coords@.subrange(lo as int, i + 1));
        i += 1;
    }
}

/// The prefix of a path up to `stop`; without a stop, the whole path.
/// A stop that names no segment of the path is refused.
pub fn split_path<T: Copy>(coords: &Vec<Coord<T>>, stop: &Option<Cut<T>>) -> (r: Result<
    Vec<Coord<T>>,
    GeomError,
>)
    ensures
        match split_of(coords@, *stop) {
            Ok(path) => r is Ok && r->Ok_0@ == path,
            Err(e) => r == Err::<Vec<Coord<T>>, GeomError>(e),
        },
{
    match stop {
        None => Ok(copy_path(coords)),
        Some(c) => {
            if !cut_in_range(coords, c) {
                return Err(GeomError::Range);
            }
            let len: usize = coords.len();
            assert(c.segment + 1 < len);
            let mut out: Vec<Coord<T>> = Vec::new();
            push_range(&mut out, coords, 0, c.segment + 1);
            out.push(boundary_of(coords, c));
            assert(out@ =~= prefix_to(coords@, *c));
            Ok(out)
        },
    }
}

/// Builds piece `j` of a path divided at `cuts`.
fn build_piece<T: Copy>(coords: &Vec<Coord<T>>, cuts: &Vec<Cut<T>>, j: usize) -> (r: Vec<Coord<T>>)
    requires
        plan_ok(coords@, cuts@),
        cuts@.len() > 0,
        j <= cuts@.len(),
    ensures
        r@ == piece(coords@, cuts@, j as int),
{
    let m: usize = cuts.len();
    let len: usize = coords.len();
    let mut out: Vec<Coord<T>> = Vec::new();
    let lo: usize;
    if j == 0 {
        assert(cut_ok(coords@, cuts@[0]));
        out.push(coords[0]);
        lo = 1;
    } else {
        let p = cuts[j - 1];
        assert(cut_ok(coords@, cuts@[j - 1]));
        assert(p.segment + 1 < len);
        out.push(boundary_of(coords, &p));
        lo = match p.at {
            CutAt::Inside(_) => p.segment + 1,
            CutAt::End => p.segment + 2,
        };
    }
    if j < m {
        let c = cuts[j];
        assert(cut_ok(coords@, cuts@[j as int]));
        assert(c.segment + 1 < len);
        push_range(&mut out, coords, lo, c.segment + 1);
        out.push(boundary_of(coords, &c));
    } else {
        push_range(&mut out, coords, lo, len);
    }
    assert(out@ =~= piece(coords@, cuts@, j as int));
    out
}

/// Divides a path into `n` consecutive pieces at the `n - 1` cuts of a plan.
/// Each piece but the first starts at the boundary that ends the piece
/// before it. Refused: `n == 0`, a plan that does not hold `n - 1` cuts, and
/// a plan that does not fit the path.
pub fn partition_path<T: Copy>(coords: &Vec<Coord<T>>, n: usize, cuts: &Vec<Cut<T>>) -> (r: Result<
    Vec<Vec<Coord<T>>>,
    GeomError,
>)
    ensures
        partition_ok(coords@, n as int, cuts@) ==> r is Ok && paths_view(r->Ok_0@) == pieces(
            coords@,
            cuts@,
        ),
        !partition_ok(coords@, n as int, cuts@) ==> r == Err::<Vec<Vec<Coord<T>>>, GeomError>(
            GeomError::Range,
        ),
{
    if n == 0 || cuts.len() != n - 1 || !plan_fits(coords, cuts) {
        return Err(GeomError::Range);
    }
    let mut out: Vec<Vec<Coord<T>>> = Vec::new();
    if n == 1 {
        out.push(copy_path(coords));
        assert(paths_view(out@) =~= pieces(coords@, cuts@));
        return Ok(out);
    }
    let mut j: usize = 0;
    while j < n
        invariant
            j <= n,
            n >= 2,
            cuts@.len() == n - 1,
            plan_ok(coords@, cuts@),
            out@.len() == j,
            forall|k: int| 0 <= k < j ==> (#[trigger] out@[k])@ == piece(coords@, cuts@, k),
        decreases n - j,
    {
        let p = build_piece(coords, cuts, j);
        out.push(p);
        j += 1;
    }
    assert(paths_view(out@) =~= pieces(coords@, cuts@));
    Ok(out)
}

/// The prefix of a line string up to `stop`, as a new line string; without
/// a stop, a copy of the whole. A handle of another kind is refused before
/// the stop is looked at; a stop that names no segment of the line is
/// refused after that.
pub fn split_line<T: Copy>(line: &Handle<T>, stop: &Option<Cut<T>>) -> (r: Result<
    Handle<T>,
    GeomError,
>)
    ensures
        !(line@ is LineString) ==> r == Err::<Handle<T>, GeomError>(GeomError::TypeTag),
        line@ is LineString ==> (match split_of(line@->LineString_0, *stop) {
            Ok(path) => r is Ok && r->Ok_0@ == GeometryView::LineString(path),
            Err(e) => r == Err::<Handle<T>, GeomError>(e),
        }),
{
    let coords = match line.line_string() {
        Ok(coords) => coords,
        Err(e) => {
            return Err(e);
        },
    };
    match split_path(coords, stop) {
        Ok(path) => Ok(Handle::wrap(Geometry::LineString(path))),
        Err(e) => Err(e),
    }
}

/// Divides a line string into `n` consecutive line strings at the `n - 1`
/// cuts of a plan. A handle of another kind is refused before anything
/// else; then `n == 0`, a plan that does not hold `n - 1` cuts, and a plan
/// that does not fit the line.
pub fn segmentize<T: Copy>(line: &Handle<T>, n: u32, cuts: &Vec<Cut<T>>) -> (r: Result<
    Collection<T>,
    GeomError,
>)
    ensures
        !(line@ is LineString) ==> r == Err::<Collection<T>, GeomError>(GeomError::TypeTag),
        line@ is LineString && !partition_ok(line@->LineString_0, n as int, cuts@) ==> r == Err::<
            Collection<T>,
            GeomError,
        >(GeomError::Range),
        line@ is LineString && partition_ok(line@->LineString_0, n as int, cuts@) ==> r is Ok
            && r->Ok_0.wf() && r->Ok_0.elem_tag() == Tag::LineString && r->Ok_0.entries()
            == line_string_entries(pieces(line@->LineString_0, cuts@)),
{
    let coords = match line.line_string() {
        Ok(coords) => coords,
        Err(e) => {
            return Err(e);
        },
    };
    match partition_path(coords, n as usize, cuts) {
        Ok(paths) => Ok(line_strings_from(paths)),
        Err(e) => Err(e),
    }
}

/// Where a target length falls on a path: on which segment, and whether
/// exactly at that segment's end.
#[derive(Clone, Copy, Debug, PartialEq, Eq, Structural)]
pub struct Mark {
    pub segment: usize,
    pub at_end: bool,
}

/// `m` marks `target` on a path walked from segment `from`, where `reach[i]`
/// is the length of the path up to the end of segment `i`: the mark is on
/// the first segment whose end reaches the target, and at its end where the
/// two are equal. A target that no segment reaches is marked at the end of
/// the last one.
pub open spec fn is_mark(reach: Seq<u64>, from: int, target: u64, m: Mark) -> bool {
    &&& 0 <= from <= m.segment < reach.len()
    &&& forall|k: int| from <= k < m.segment ==> #[trigger] reach[k] < target
    &&& if reach[m.segment as int] >= target {
        m.at_end == (reach[m.segment as int] == target)
    } else {
        m.segment == reach.len() - 1 && m.at_end
    }
}

/// Each target is marked on a walk that starts where the mark before it
/// was set; the first walk starts at the path's start.
pub open spec fn marks_ok(reach: Seq<u64>, targets: Seq<u64>, marks: Seq<Mark>) -> bool {
    &&& marks.len() == targets.len()
    &&& forall|j: int|
        0 <= j < marks.len() ==> is_mark(
            reach,
            if j == 0 {
                0
            } else {
                marks[j - 1].segment as int
            },
            targets[j],
            #[trigger] marks[j],
        )
}

/// Marks a target on a path that has segment `from`, walking from there.
fn mark_from(reach: &Vec<u64>, from: usize, target: u64) -> (r: Mark)
    requires
        from < reach@.len(),
    ensures
        is_mark(reach@, from as int, target, r),
{
    let n: usize = reach.len();
    let mut i: usize = from;
    while i < n
        invariant
            from <= i <= n,
            from < n,
            n == reach@.len(),
            forall|k: int| from <= k < i ==> #[trigger] reach@[k] < target,
        decreases n - i,
    {
        let here: u64 = reach[i];
        if here >= target {
            return Mark { segment: i, at_end: here == target };
        }
        i += 1;
    }
    Mark { segment: n - 1, at_end: true }
}

/// Marks a target on a path, walking from segment `from`. Lengths are
/// compared and never added here, so any unit will do whose order is that
/// of the integers. There is no mark where the walk has no segment.
pub fn locate(reach: &Vec<u64>, from: usize, target: u64) -> (r: Option<Mark>)
    ensures
        from < reach@.len() ==> r is Some && is_mark(reach@, from as int, target, r->Some_0),
        from >= reach@.len() ==> r is None,
{
    if from >= reach.len() {
        None
    } else {
        Some(mark_from(reach, from, target))
    }
}

/// Marks each target of a list on a path, in one walk forward: the walk
/// for a target starts on the segment of the mark before it. A path
/// without a segment has no place for a mark and is refused.
pub fn locate_marks(reach: &Vec<u64>, targets: &Vec<u64>) -> (r: Result<Vec<Mark>, GeomError>)
    ensures
        reach@.len() > 0 || targets@.len() == 0 ==> r is Ok && marks_ok(
            reach@,
            targets@,
            r->Ok_0@,
        ),
        reach@.len() == 0 && targets@.len() > 0 ==> r == Err::<Vec<Mark>, GeomError>(
            GeomError::Shape,
        ),
{
    let m: usize = targets.len();
    let mut marks: Vec<Mark> = Vec::new();
    if reach.len() == 0 {
        if m == 0 {
            return Ok(marks);
        }
        return Err(GeomError::Shape);
    }
    let mut from: usize = 0;
    let mut j: usize = 0;
    while j < m
        invariant
            j <= m,
            m == targets@.len(),
            reach@.len() > 0,
            from < reach@.len(),
            j == 0 ==> from == 0,
            j > 0 ==> from == marks@[j - 1].segment,
            marks_ok(reach@, targets@.subrange(0, j as int), marks@),
        decreases m - j,
    {
        let ghost before = marks@;
        let mark = mark_from(reach, from, targets[j]);
        marks.push(mark);
        from = mark.segment;
        proof {
            let ts = targets@.subrange(0, j + 1);
            assert forall|k: int| 0 <= k < marks@.len() implies is_mark(
                reach@,
                if k == 0 {
                    0
                } else {
                    marks@[k - 1].segment as int
                },
                ts[k],
                #[trigger] marks@[k],
            ) by {
                if k < j {
                    assert(marks@[k] == before[k]);
                    assert(ts[k] == targets@.subrange(0, j as int)[k]);
                    if k > 0 {
                        assert(marks@[k - 1] == before[k - 1]);
                    }
                }
            }
        }
        j += 1;
    }
    assert(targets@.subrange(0, m as int) =~= targets@);
    Ok(marks)
}

/// The cut that a mark stands for: at the segment's end, or inside the
/// segment at the point that was computed for it.
pub open spec fn cut_of<T>(mark: Mark, inside: Coord<T>) -> Cut<T> {
    Cut {
        segment: mark.segment,
        at: if mark.at_end {
            CutAt::End
        } else {
            CutAt::Inside(inside)
        },
    }
}

/// The cut that a mark stands for. The point is not looked at where the
/// mark is at its segment's end.
pub fn cut_at<T: Copy>(mark: &Mark, inside: Coord<T>) -> (r: Cut<T>)
    ensures
        r == cut_of(*mark, inside),
{
    if mark.at_end {
        Cut { segment: mark.segment, at: CutAt::End }
    } else {
        Cut { segment: mark.segment, at: CutAt::Inside(inside) }
    }
}

/// The cuts that a list of marks stands for, each with the point that was
/// computed for it. Lists of different lengths are refused.
pub fn cuts_at<T: Copy>(marks: &Vec<Mark>, inside: &Vec<Coord<T>>) -> (r: Result<
    Vec<Cut<T>>,
    GeomError,
>)
    ensures
        marks@.len() == inside@.len() ==> r is Ok && r->Ok_0@.len() == marks@.len() && forall|
            j: int,
        |
            0 <= j < marks@.len() ==> #[trigger] r->Ok_0@[j] == cut_of(marks@[j], inside@[j]),
        marks@.len() != inside@.len() ==> r == Err::<Vec<Cut<T>>, GeomError>(GeomError::Range),
{
    let n: usize = marks.len();
    if inside.len() != n {
        return Err(GeomError::Range);
    }
    let mut cuts: Vec<Cut<T>> = Vec::new();
    let mut j: usize = 0;
    while j < n
        invariant
            j <= n,
            n == marks@.len(),
            n == inside@.len(),
            cuts@.len() == j,
            forall|k: int| 0 <= k < j ==> #[trigger] cuts@[k] == cut_of(marks@[k], inside@[k]),
        decreases n - j,
    {
        cuts.push(cut_at(&marks[j], inside[j]));
        j += 1;
    }
    Ok(cuts)
}

} // verus!
