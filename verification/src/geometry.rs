use vstd::prelude::*;
use crate::coords::Coord;
use crate::error::GeomError;

verus! {

/// The kind of a geometry, as shown to a host for dispatch.
#[derive(Clone, Copy, Debug, PartialEq, Eq, Structural)]
pub enum Tag {
    Point,
    MultiPoint,
    Line,
    LineString,
    MultiLineString,
    Polygon,
}

impl Tag {
    /// The tag a single handle carries.
    pub fn name(&self) -> (r: &'static str)
        ensures
            r@ == (match *self {
                Tag::Point => "point"@,
                Tag::MultiPoint => "multipoint"@,
                Tag::Line => "line"@,
                Tag::LineString => "linestring"@,
                Tag::MultiLineString => "multilinestring"@,
                Tag::Polygon => "polygon"@,
            }),
    {
        match self {
            Tag::Point => "point",
            Tag::MultiPoint => "multipoint",
            Tag::Line => "line",
            Tag::LineString => "linestring",
            Tag::MultiLineString => "multilinestring",
            Tag::Polygon => "polygon",
        }
    }

    /// The tag a collection of such handles carries.
    pub fn collection_name(&self) -> (r: &'static str)
        ensures
            r@ == (match *self {
                Tag::Point => "rs_POINT"@,
                Tag::MultiPoint => "rs_MULTIPOINT"@,
                Tag::Line => "rs_LINE"@,
                Tag::LineString => "rs_LINESTRING"@,
                Tag::MultiLineString => "rs_MULTILINESTRING"@,
                Tag::Polygon => "rs_POLYGON"@,
            }),
    {
        match self {
            Tag::Point => "rs_POINT",
            Tag::MultiPoint => "rs_MULTIPOINT",
            Tag::Line => "rs_LINE",
            Tag::LineString => "rs_LINESTRING",
            Tag::MultiLineString => "rs_MULTILINESTRING",
            Tag::Polygon => "rs_POLYGON",
        }
    }
}

/// A planar geometry. Paths keep their coordinates in order; nothing is
/// deduplicated, closed or reoriented.
#[derive(Debug, PartialEq)]
pub enum Geometry<T> {
    Point(Coord<T>),
    MultiPoint(Vec<Coord<T>>),
    Line(Coord<T>, Coord<T>),
    LineString(Vec<Coord<T>>),
    MultiLineString(Vec<Vec<Coord<T>>>),
    /// The exterior ring, then the holes.
    Polygon(Vec<Coord<T>>, Vec<Vec<Coord<T>>>),
}

/// The mathematical content of a `Geometry`.
pub enum GeometryView<T> {
    Point(Coord<T>),
    MultiPoint(Seq<Coord<T>>),
    Line(Coord<T>, Coord<T>),
    LineString(Seq<Coord<T>>),
    MultiLineString(Seq<Seq<Coord<T>>>),
    Polygon(Seq<Coord<T>>, Seq<Seq<Coord<T>>>),
}

/// The contents of a list of paths.
pub open spec fn paths_view<T>(v: Seq<Vec<Coord<T>>>) -> Seq<Seq<Coord<T>>> {
    Seq::new(v.len(), |i: int| v[i]@)
}

impl<T> GeometryView<T> {
    /// The kind of the geometry.
    pub open spec fn tag(self) -> Tag {
        match self {
            GeometryView::Point(_) => Tag::Point,
            GeometryView::MultiPoint(_) => Tag::MultiPoint,
            GeometryView::Line(_, _) => Tag::Line,
            GeometryView::LineString(_) => Tag::LineString,
            GeometryView::MultiLineString(_) => Tag::MultiLineString,
            GeometryView::Polygon(_, _) => Tag::Polygon,
        }
    }
}

impl<T> View for Geometry<T> {
    type V = GeometryView<T>;

    open spec fn view(&self) -> GeometryView<T> {
        match *self {
            Geometry::Point(c) => GeometryView::Point(c),
            Geometry::MultiPoint(v) => GeometryView::MultiPoint(v@),
            Geometry::Line(a, b) => GeometryView::Line(a, b),
            Geometry::LineString(v) => GeometryView::LineString(v@),
            Geometry::MultiLineString(v) => GeometryView::MultiLineString(paths_view(v@)),
            Geometry::Polygon(e, h) => GeometryView::Polygon(e@, paths_view(h@)),
        }
    }
}

impl<T> Geometry<T> {
    /// The kind of the geometry.
    pub fn tag(&self) -> (r: Tag)
        ensures
            r == self@.tag(),
    {
        match self {
            Geometry::Point(_) => Tag::Point,
            Geometry::MultiPoint(_) => Tag::MultiPoint,
            Geometry::Line(_, _) => Tag::Line,
            Geometry::LineString(_) => Tag::LineString,
            Geometry::MultiLineString(_) => Tag::MultiLineString,
            Geometry::Polygon(_, _) => Tag::Polygon,
        }
    }
}

/// An owner of one geometry. A handle is never changed after it is made:
/// every operation on it gives a new handle.
#[derive(Debug, PartialEq)]
pub struct Handle<T> {
    geometry: Geometry<T>,
}

impl<T> View for Handle<T> {
    type V = GeometryView<T>;

    closed spec fn view(&self) -> GeometryView<T> {
        self.geometry@
    }
}

impl<T> Handle<T> {
    /// Puts a geometry behind a handle.
    pub fn wrap(geometry: Geometry<T>) -> (r: Handle<T>)
        ensures
            r@ == geometry@,
    {
        Handle { geometry }
    }

    /// The geometry, to read.
    pub fn geometry(&self) -> (r: &Geometry<T>)
        ensures
            r@ == self@,
    {
        &self.geometry
    }

    /// The kind of the geometry held.
    pub fn tag(&self) -> (r: Tag)
        ensures
            r == self@.tag(),
    {
        self.geometry.tag()
    }

    /// The coordinates of the line string held; any other kind is refused.
    pub fn line_string(&self) -> (r: Result<&Vec<Coord<T>>, GeomError>)
        ensures
            self@ is LineString ==> r is Ok && r->Ok_0@ == self@->LineString_0,
            !(self@ is LineString) ==> r == Err::<&Vec<Coord<T>>, GeomError>(GeomError::TypeTag),
    {
        match &self.geometry {
            Geometry::LineString(v) => Ok(v),
            _ => Err(GeomError::TypeTag),
        }
    }

    /// The coordinate of the point held; any other kind is refused.
    pub fn point(&self) -> (r: Result<Coord<T>, GeomError>) where T: Copy
        ensures
            self@ is Point ==> r == Ok::<Coord<T>, GeomError>(self@->Point_0),
            !(self@ is Point) ==> r == Err::<Coord<T>, GeomError>(GeomError::TypeTag),
    {
        match &self.geometry {
            Geometry::Point(c) => Ok(*c),
            _ => Err(GeomError::TypeTag),
        }
    }
}

/// What a list of entries holds: for each position the geometry there, or
/// nothing.
pub open spec fn entries_view<T>(items: Seq<Option<Handle<T>>>) -> Seq<Option<GeometryView<T>>> {
    Seq::new(
        items.len(),
        |i: int|
            match items[i] {
                Some(h) => Some(h@),
                None => None,
            },
    )
}

/// Every entry that is present has the given kind.
pub open spec fn all_tagged<T>(entries: Seq<Option<GeometryView<T>>>, tag: Tag) -> bool {
    forall|i: int| 0 <= i < entries.len() && (#[trigger] entries[i]) is Some ==> entries[i]->Some_0.tag() == tag
}

/// An ordered list of handles of one kind, some of which may be absent.
#[derive(Debug, PartialEq)]
pub struct Collection<T> {
    tag: Tag,
    items: Vec<Option<Handle<T>>>,
}

impl<T> Collection<T> {
    /// The kind that the entries have.
    pub closed spec fn elem_tag(&self) -> Tag {
        self.tag
    }

    /// The entries, in order.
    pub closed spec fn entries(&self) -> Seq<Option<GeometryView<T>>> {
        entries_view(self.items@)
    }

    /// The entries that are present all have the collection's kind.
    pub open spec fn wf(&self) -> bool {
        all_tagged(self.entries(), self.elem_tag())
    }

    /// Gathers entries under one kind. An entry of another kind is refused.
    pub fn of(tag: Tag, items: Vec<Option<Handle<T>>>) -> (r: Result<Collection<T>, GeomError>)
        ensures
            all_tagged(entries_view(items@), tag) ==> r is Ok && r->Ok_0.wf() && r->Ok_0.elem_tag()
                == tag && r->Ok_0.entries() == entries_view(items@),
            !all_tagged(entries_view(items@), tag) ==> r == Err::<Collection<T>, GeomError>(
                GeomError::TypeTag,
            ),
    {
        let n: usize = items.len();
        let mut i: usize = 0;
        while i < n
            invariant
                i <= n,
                n == items@.len(),
                forall|k: int|
                    0 <= k < i && (#[trigger] entries_view(items@)[k]) is Some ==> entries_view(
                        items@,
                    )[k]->Some_0.tag() == tag,
            decreases n - i,
        {
            match &items[i] {
                Some(h) => {
                    if h.tag() != tag {
                        assert(entries_view(items@)[i as int] is Some);
                        return Err(GeomError::TypeTag);
                    }
                },
                None => {},
            }
            i += 1;
        }
        Ok(Collection { tag, items })
    }

    /// Gathers entries that are known to have the kind.
    pub(crate) fn of_tagged(tag: Tag, items: Vec<Option<Handle<T>>>) -> (r: Collection<T>)
        requires
            all_tagged(entries_view(items@), tag),
        ensures
            r.wf(),
            r.elem_tag() == tag,
            r.entries() == entries_view(items@),
    {
        Collection { tag, items }
    }

    /// The kind that the entries have.
    pub fn tag(&self) -> (r: Tag)
        ensures
            r == self.elem_tag(),
    {
        self.tag
    }

    /// The number of entries, absent ones included.
    pub fn len(&self) -> (r: usize)
        ensures
            r == self.entries().len(),
    {
        self.items.len()
    }

    /// The entry at a position.
    pub fn get(&self, i: usize) -> (r: Option<&Handle<T>>)
        requires
            i < self.entries().len(),
        ensures
            r is Some == self.entries()[i as int] is Some,
            r is Some ==> r->Some_0@ == self.entries()[i as int]->Some_0,
    {
        match &self.items[i] {
            Some(h) => Some(h),
            None => None,
        }
    }

    /// Passes a collection of the wanted kind; any other is refused before
    /// any work is done on it.
    pub fn expect(&self, tag: Tag) -> (r: Result<(), GeomError>)
        ensures
            self.elem_tag() == tag ==> r is Ok,
            self.elem_tag() != tag ==> r == Err::<(), GeomError>(GeomError::TypeTag),
    {
        if self.tag == tag {
            Ok(())
        } else {
            Err(GeomError::TypeTag)
        }
    }
}

} // verus!
