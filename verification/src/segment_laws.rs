use vstd::prelude::*;
use crate::coords::Coord;
use crate::error::GeomError;
use crate::segment::{
    between, boundary, cut_ok, is_mark, marks_ok, piece, plan_ok, prefix_to, resume, split_of,
    Cut, CutAt, Mark,
};

verus! {

/// A target has one mark only on a walk.
pub proof fn mark_is_unique(reach: Seq<u64>, from: int, target: u64, a: Mark, b: Mark)
    requires
        is_mark(reach, from, target, a),
        is_mark(reach, from, target, b),
    ensures
        a == b,
{
    if a.segment < b.segment {
        assert(reach[a.segment as int] < target);
    } else if b.segment < a.segment {
        assert(reach[b.segment as int] < target);
    }
}

/// A larger target is never marked on an earlier segment.
pub proof fn mark_grows_with_target(
    reach: Seq<u64>,
    from: int,
    near: u64,
    far: u64,
    a: Mark,
    b: Mark,
)
    requires
        near <= far,
        is_mark(reach, from, near, a),
        is_mark(reach, from, far, b),
    ensures
        a.segment <= b.segment,
{
    if b.segment < a.segment {
        assert(reach[b.segment as int] < near);
    }
}

/// The marks of one walk over several targets never go back along the
/// path, so the cuts made at them are a plan that fits it.
pub proof fn marks_give_plan<T>(
    coords: Seq<Coord<T>>,
    reach: Seq<u64>,
    targets: Seq<u64>,
    marks: Seq<Mark>,
    cuts: Seq<Cut<T>>,
)
    requires
        reach.len() + 1 == coords.len(),
        marks_ok(reach, targets, marks),
        cuts.len() == marks.len(),
        forall|j: int| 0 <= j < cuts.len() ==> (#[trigger] cuts[j]).segment == marks[j].segment,
    ensures
        plan_ok(coords, cuts),
{
    assert forall|j: int| 0 <= j < cuts.len() implies cut_ok(coords, #[trigger] cuts[j]) by {
        assert(is_mark(reach, if j == 0 { 0 } else { marks[j - 1].segment as int }, targets[j], marks[j]));
    }
    assert forall|j: int| 0 < j < cuts.len() implies cuts[j - 1].segment <= (#[trigger] cuts[j]).segment by {
        assert(is_mark(reach, marks[j - 1].segment as int, targets[j], marks[j]));
        assert(cuts[j - 1].segment == marks[j - 1].segment);
    }
}

/// A target that only the last segment reaches, or none, and that is not
/// below the whole length, is marked at the end of the path.
pub proof fn full_target_marks_path_end(reach: Seq<u64>, target: u64, m: Mark)
    requires
        is_mark(reach, 0, target, m),
        forall|k: int| 0 <= k < reach.len() - 1 ==> #[trigger] reach[k] < target,
        reach[reach.len() - 1] <= target,
    ensures
        m.segment == reach.len() - 1,
        m.at_end,
{
    if m.segment < reach.len() - 1 {
        assert(reach[m.segment as int] < target);
    }
}

/// The prefix up to the end of the last segment is the whole path.
pub proof fn prefix_to_path_end_is_whole<T>(coords: Seq<Coord<T>>, c: Cut<T>)
    requires
        coords.len() >= 2,
        c.segment == coords.len() - 2,
        c.at == CutAt::<T>::End,
    ensures
        prefix_to(coords, c) == coords,
{
    assert(prefix_to(coords, c) =~= coords);
}

/// The coordinates of the path that a prefix runs over are also run over,
/// in the same places, by the prefix up to any cut on the same or a later
/// segment.
pub proof fn prefix_grows_with_cut<T>(coords: Seq<Coord<T>>, near: Cut<T>, far: Cut<T>)
    requires
        near.segment <= far.segment,
        cut_ok(coords, far),
    ensures
        prefix_to(coords, near).drop_last().is_prefix_of(prefix_to(coords, far).drop_last()),
{
    let a = prefix_to(coords, near).drop_last();
    let b = prefix_to(coords, far).drop_last();
    assert(a =~= coords.subrange(0, near.segment + 1));
    assert(b =~= coords.subrange(0, far.segment + 1));
    assert(a =~= b.subrange(0, a.len() as int));
}

/// The prefix up to a cut is the first piece of any partition that starts
/// with that cut.
pub proof fn prefix_is_first_piece<T>(coords: Seq<Coord<T>>, cuts: Seq<Cut<T>>)
    requires
        cuts.len() > 0,
        plan_ok(coords, cuts),
    ensures
        piece(coords, cuts, 0) == prefix_to(coords, cuts[0]),
{
    assert(cut_ok(coords, cuts[0]));
    assert(piece(coords, cuts, 0) =~= prefix_to(coords, cuts[0]));
}

/// Consecutive pieces meet: each piece ends at the very coordinate at
/// which the next one starts, the boundary between them.
pub proof fn pieces_are_continuous<T>(coords: Seq<Coord<T>>, cuts: Seq<Cut<T>>, j: int)
    requires
        plan_ok(coords, cuts),
        0 <= j < cuts.len(),
    ensures
        piece(coords, cuts, j).last() == boundary(coords, cuts[j]),
        piece(coords, cuts, j + 1).first() == boundary(coords, cuts[j]),
        piece(coords, cuts, j).last() == piece(coords, cuts, j + 1).first(),
{
}

/// The pieces cover the path from end to end: the first starts at the
/// path's first coordinate and the last ends at its last.
pub proof fn pieces_span_path<T>(coords: Seq<Coord<T>>, cuts: Seq<Cut<T>>)
    requires
        plan_ok(coords, cuts),
        coords.len() > 0,
    ensures
        piece(coords, cuts, 0).first() == coords.first(),
        piece(coords, cuts, cuts.len() as int).last() == coords.last(),
{
    if cuts.len() > 0 {
        let m = cuts.len() as int;
        assert(cut_ok(coords, cuts[m - 1]));
        assert(cut_ok(coords, cuts[0]));
    }
}

/// Every piece but the last holds at least two coordinates, and the last
/// at least one.
pub proof fn pieces_are_not_empty<T>(coords: Seq<Coord<T>>, cuts: Seq<Cut<T>>, j: int)
    requires
        plan_ok(coords, cuts),
        cuts.len() > 0,
        0 <= j <= cuts.len(),
    ensures
        j < cuts.len() ==> piece(coords, cuts, j).len() >= 2,
        piece(coords, cuts, j).len() >= 1,
{
}

/// A plan that fits and in which no cut lies on the end coordinate that the
/// cut before it has already taken: after a cut at a segment's end, the
/// next cut is on a later segment.
pub open spec fn plan_strict<T>(coords: Seq<Coord<T>>, cuts: Seq<Cut<T>>) -> bool {
    &&& plan_ok(coords, cuts)
    &&& forall|j: int| 0 < j < cuts.len() ==> resume(cuts[j - 1]) <= (#[trigger] cuts[j]).segment + 1
}

/// What piece `j` holds of the path itself after its first coordinate: the
/// piece without its start and without a boundary that was put inside a
/// segment.
pub open spec fn own<T>(coords: Seq<Coord<T>>, cuts: Seq<Cut<T>>, j: int) -> Seq<Coord<T>> {
    let rest = piece(coords, cuts, j).drop_first();
    if j < cuts.len() && cuts[j].at is Inside {
        rest.drop_last()
    } else {
        rest
    }
}

/// The path's first coordinate followed by what the first `j` pieces hold
/// of the path.
pub open spec fn joined<T>(coords: Seq<Coord<T>>, cuts: Seq<Cut<T>>, j: int) -> Seq<Coord<T>>
    decreases j,
{
    if j <= 0 {
        seq![coords[0]]
    } else {
        joined(coords, cuts, j - 1) + own(coords, cuts, j - 1)
    }
}

/// The first `j` pieces hold of the path exactly its coordinates up to the
/// place where piece `j` takes over.
#[verifier::spinoff_prover]
#[verifier::rlimit(50)]
pub proof fn joined_is_prefix<T>(coords: Seq<Coord<T>>, cuts: Seq<Cut<T>>, j: int)
    requires
        plan_strict(coords, cuts),
        cuts.len() > 0,
        0 <= j <= cuts.len(),
    ensures
        joined(coords, cuts, j) == coords.subrange(
            0,
            if j == 0 {
                1
            } else {
                resume(cuts[j - 1])
            },
        ),
    decreases j,
{
    assert(cut_ok(coords, cuts[0]));
    if j == 0 {
        assert(joined(coords, cuts, 0) =~= coords.subrange(0, 1));
    } else {
        joined_is_prefix(coords, cuts, j - 1);
        let c = cuts[j - 1];
        let k = c.segment as int;
        assert(cut_ok(coords, c));
        let lo = if j - 1 == 0 { 1 } else { resume(cuts[j - 2]) };
        assert(lo <= k + 1);
        let mid = coords.subrange(lo, k + 1);
        assert(between(coords, lo, k + 1) == mid);
        let rest = piece(coords, cuts, j - 1).drop_first();
        assert(rest =~= mid.push(boundary(coords, c)));
        let kept = own(coords, cuts, j - 1);
        match c.at {
            CutAt::Inside(_) => {
                assert(kept =~= mid);
            },
            CutAt::End => {
                assert(kept =~= mid.push(coords[k + 1]));
            },
        }
        assert(kept =~= coords.subrange(lo, resume(c)));
        let so_far = joined(coords, cuts, j - 1);
        assert(so_far == coords.subrange(0, lo));
        assert(joined(coords, cuts, j) == so_far + kept);
        assert(so_far + kept =~= coords.subrange(0, resume(c)));
    }
}

/// The pieces leave no gap and do not overlap: joined in order, each
/// without its first coordinate and without the boundaries that were put
/// inside segments, they give back the path coordinate by coordinate.
#[verifier::spinoff_prover]
pub proof fn pieces_rebuild_path<T>(coords: Seq<Coord<T>>, cuts: Seq<Cut<T>>)
    requires
        plan_strict(coords, cuts),
        coords.len() > 0,
    ensures
        joined(coords, cuts, cuts.len() as int + 1) == coords,
{
    let m = cuts.len() as int;
    if m == 0 {
        assert(joined(coords, cuts, 0) =~= seq![coords[0]]);
        assert(own(coords, cuts, 0) =~= coords.subrange(1, coords.len() as int));
        assert(joined(coords, cuts, 1) =~= coords);
    } else {
        joined_is_prefix(coords, cuts, m);
        assert(cut_ok(coords, cuts[m - 1]));
        assert(own(coords, cuts, m) =~= coords.subrange(resume(cuts[m - 1]), coords.len() as int));
        assert(joined(coords, cuts, m + 1) =~= coords);
    }
}

/// Targets that rise strictly and that the path reaches are marked so that
/// the cuts made at the marks are a strict plan.
pub proof fn rising_marks_give_strict_plan<T>(
    coords: Seq<Coord<T>>,
    reach: Seq<u64>,
    targets: Seq<u64>,
    marks: Seq<Mark>,
    cuts: Seq<Cut<T>>,
)
    requires
        reach.len() + 1 == coords.len(),
        marks_ok(reach, targets, marks),
        forall|j: int| 0 < j < targets.len() ==> targets[j - 1] < #[trigger] targets[j],
        forall|j: int| 0 <= j < targets.len() ==> #[trigger] targets[j] <= reach.last(),
        cuts.len() == marks.len(),
        forall|j: int|
            0 <= j < cuts.len() ==> (#[trigger] cuts[j]).segment == marks[j].segment && (cuts[j].at
                is End) == marks[j].at_end,
    ensures
        plan_strict(coords, cuts),
{
    marks_give_plan(coords, reach, targets, marks, cuts);
    assert forall|j: int| 0 < j < cuts.len() implies resume(cuts[j - 1]) <= (#[trigger] cuts[j]).segment + 1 by {
        let from = if j - 1 == 0 { 0 } else { marks[j - 2].segment as int };
        assert(is_mark(reach, from, targets[j - 1], marks[j - 1]));
        assert(is_mark(reach, marks[j - 1].segment as int, targets[j], marks[j]));
        assert(cuts[j - 1].segment == marks[j - 1].segment);
        assert((cuts[j - 1].at is End) == marks[j - 1].at_end);
        assert(targets[j - 1] < targets[j]);
        assert(targets[j] <= reach.last());
        assert(targets[j - 1] <= reach.last());
    }
}

/// Of two targets on one path, the prefix up to the smaller runs over no
/// coordinate of the path that the prefix up to the larger does not run
/// over, in the same place.
pub proof fn split_grows_with_target<T>(
    coords: Seq<Coord<T>>,
    reach: Seq<u64>,
    near: u64,
    far: u64,
    a: Mark,
    b: Mark,
    cut_a: Cut<T>,
    cut_b: Cut<T>,
)
    requires
        reach.len() + 1 == coords.len(),
        near <= far,
        is_mark(reach, 0, near, a),
        is_mark(reach, 0, far, b),
        cut_a.segment == a.segment,
        cut_b.segment == b.segment,
    ensures
        split_of(coords, Some(cut_a)) is Ok,
        split_of(coords, Some(cut_b)) is Ok,
        split_of(coords, Some(cut_a))->Ok_0.drop_last().is_prefix_of(
            split_of(coords, Some(cut_b))->Ok_0.drop_last(),
        ),
{
    mark_grows_with_target(reach, 0, near, far, a, b);
    prefix_grows_with_cut(coords, cut_a, cut_b);
}

/// A target that is not below the whole length, and that no segment before
/// the last reaches, gives the whole path as its prefix.
pub proof fn full_target_gives_whole_path<T>(
    coords: Seq<Coord<T>>,
    reach: Seq<u64>,
    target: u64,
    m: Mark,
    cut: Cut<T>,
)
    requires
        reach.len() + 1 == coords.len(),
        is_mark(reach, 0, target, m),
        forall|k: int| 0 <= k < reach.len() - 1 ==> #[trigger] reach[k] < target,
        reach[reach.len() - 1] <= target,
        cut.segment == m.segment,
        (cut.at is End) == m.at_end,
    ensures
        split_of(coords, Some(cut)) == Ok::<Seq<Coord<T>>, GeomError>(coords),
{
    full_target_marks_path_end(reach, target, m);
    prefix_to_path_end_is_whole(coords, cut);
}

/// The weight of a path under a measure of its segments: the sum of the
/// measures of its consecutive pairs of coordinates.
pub open spec fn path_weight<T>(w: spec_fn(Coord<T>, Coord<T>) -> int, path: Seq<Coord<T>>) -> int
    decreases path.len(),
{
    if path.len() < 2 {
        0
    } else {
        path_weight(w, path.drop_last()) + w(path[path.len() - 2], path[path.len() - 1])
    }
}

/// The first `j` pieces laid end to end, each boundary taken once.
pub open spec fn traced<T>(coords: Seq<Coord<T>>, cuts: Seq<Cut<T>>, j: int) -> Seq<Coord<T>>
    decreases j,
{
    if j <= 1 {
        piece(coords, cuts, 0)
    } else {
        traced(coords, cuts, j - 1) + piece(coords, cuts, j - 1).drop_first()
    }
}

/// The sum of the weights of the first `j` pieces.
pub open spec fn pieces_weight<T>(
    w: spec_fn(Coord<T>, Coord<T>) -> int,
    coords: Seq<Coord<T>>,
    cuts: Seq<Cut<T>>,
    j: int,
) -> int
    decreases j,
{
    if j <= 0 {
        0
    } else {
        pieces_weight(w, coords, cuts, j - 1) + path_weight(w, piece(coords, cuts, j - 1))
    }
}

/// Two paths that meet weigh together what the path through both weighs.
#[verifier::spinoff_prover]
pub proof fn weight_of_join<T>(
    w: spec_fn(Coord<T>, Coord<T>) -> int,
    a: Seq<Coord<T>>,
    b: Seq<Coord<T>>,
)
    requires
        a.len() >= 1,
        b.len() >= 1,
        a.last() == b.first(),
    ensures
        path_weight(w, a + b.drop_first()) == path_weight(w, a) + path_weight(w, b),
    decreases b.len(),
{
    let ab = a + b.drop_first();
    if b.len() == 1 {
        assert(ab =~= a);
    } else {
        let short = b.drop_last();
        weight_of_join(w, a, short);
        assert(ab.drop_last() =~= a + short.drop_first());
        assert(ab[ab.len() - 1] == b[b.len() - 1]);
        assert(ab[ab.len() - 2] == b[b.len() - 2]);
    }
}

/// Whatever the measure, the pieces weigh together what the path weighs
/// that they trace when laid end to end: no stretch of it is left out or
/// counted twice.
#[verifier::spinoff_prover]
#[verifier::rlimit(50)]
pub proof fn pieces_weigh_what_they_trace<T>(
    w: spec_fn(Coord<T>, Coord<T>) -> int,
    coords: Seq<Coord<T>>,
    cuts: Seq<Cut<T>>,
    j: int,
)
    requires
        plan_ok(coords, cuts),
        1 <= j <= cuts.len() + 1,
    ensures
        pieces_weight(w, coords, cuts, j) == path_weight(w, traced(coords, cuts, j)),
        j > 1 ==> traced(coords, cuts, j).len() >= 1 && traced(coords, cuts, j).last() == piece(
            coords,
            cuts,
            j - 1,
        ).last(),
    decreases j,
{
    assert(pieces_weight(w, coords, cuts, 0) == 0);
    if j == 1 {
        assert(pieces_weight(w, coords, cuts, 1) == pieces_weight(w, coords, cuts, 0) + path_weight(
            w,
            piece(coords, cuts, 0),
        ));
    } else {
        pieces_weigh_what_they_trace(w, coords, cuts, j - 1);
        pieces_are_continuous(coords, cuts, j - 2);
        let before = traced(coords, cuts, j - 1);
        let next = piece(coords, cuts, j - 1);
        assert(before.len() >= 1 && before.last() == piece(coords, cuts, j - 2).last()) by {
            if j - 1 == 1 {
                assert(before == piece(coords, cuts, 0));
            }
        }
        weight_of_join(w, before, next);
        let after = traced(coords, cuts, j);
        assert(after == before + next.drop_first());
        if next.len() == 1 {
            assert(after =~= before);
        } else {
            assert(after.last() == next.last());
        }
    }
}

/// The coordinate from which the stretch runs on which cut `j` falls: the
/// boundary before it where that lies on the same segment, else the
/// segment's start.
pub open spec fn cut_from<T>(coords: Seq<Coord<T>>, cuts: Seq<Cut<T>>, j: int) -> Coord<T> {
    if j > 0 && cuts[j - 1].segment == cuts[j].segment {
        boundary(coords, cuts[j - 1])
    } else {
        coords[cuts[j].segment as int]
    }
}

/// Under the measure, cut `j` divides its stretch into two parts that
/// together measure what the stretch does. A cut at a segment's end does.
pub open spec fn splits_evenly<T>(
    w: spec_fn(Coord<T>, Coord<T>) -> int,
    coords: Seq<Coord<T>>,
    cuts: Seq<Cut<T>>,
    j: int,
) -> bool {
    let from = cut_from(coords, cuts, j);
    let to = coords[cuts[j].segment + 1];
    match cuts[j].at {
        CutAt::Inside(p) => w(from, p) + w(p, to) == w(from, to),
        CutAt::End => true,
    }
}

/// The first `j` pieces laid end to end and carried on to the end of the
/// segment on which the last of them stops.
pub open spec fn completed<T>(coords: Seq<Coord<T>>, cuts: Seq<Cut<T>>, j: int) -> Seq<Coord<T>> {
    let c = cuts[j - 1];
    if c.at is Inside {
        traced(coords, cuts, j).push(coords[c.segment + 1])
    } else {
        traced(coords, cuts, j)
    }
}

/// A path with one more coordinate weighs what it did and what the new
/// segment measures.
pub proof fn weight_of_push<T>(w: spec_fn(Coord<T>, Coord<T>) -> int, a: Seq<Coord<T>>, x: Coord<T>)
    requires
        a.len() >= 1,
    ensures
        path_weight(w, a.push(x)) == path_weight(w, a) + w(a.last(), x),
{
    assert(a.push(x).drop_last() =~= a);
}

/// Two paths of one weight that end at one coordinate still have one
/// weight when both are carried on over the same coordinates.
#[verifier::spinoff_prover]
pub proof fn weight_of_extension<T>(
    w: spec_fn(Coord<T>, Coord<T>) -> int,
    a: Seq<Coord<T>>,
    b: Seq<Coord<T>>,
    e: Seq<Coord<T>>,
)
    requires
        a.len() >= 1,
        b.len() >= 1,
        a.last() == b.last(),
        path_weight(w, a) == path_weight(w, b),
    ensures
        path_weight(w, a + e) == path_weight(w, b + e),
        (a + e).last() == (b + e).last(),
    decreases e.len(),
{
    if e.len() == 0 {
        assert(a + e =~= a);
        assert(b + e =~= b);
    } else {
        let short = e.drop_last();
        weight_of_extension(w, a, b, short);
        assert(a + e =~= (a + short).push(e.last()));
        assert(b + e =~= (b + short).push(e.last()));
        weight_of_push(w, a + short, e.last());
        weight_of_push(w, b + short, e.last());
    }
}

/// Where every cut divides its stretch evenly, the first `j` pieces,
/// carried on to the end of the last one's segment, weigh what the path
/// weighs up to there.
#[verifier::spinoff_prover]
#[verifier::rlimit(50)]
pub proof fn completed_keeps_weight<T>(
    w: spec_fn(Coord<T>, Coord<T>) -> int,
    coords: Seq<Coord<T>>,
    cuts: Seq<Cut<T>>,
    j: int,
)
    requires
        plan_strict(coords, cuts),
        forall|i: int| 0 <= i < cuts.len() ==> splits_evenly(w, coords, cuts, i),
        1 <= j <= cuts.len(),
    ensures
        completed(coords, cuts, j).len() >= 1,
        completed(coords, cuts, j).last() == coords[cuts[j - 1].segment + 1],
        traced(coords, cuts, j).len() >= 1,
        traced(coords, cuts, j).last() == boundary(coords, cuts[j - 1]),
        path_weight(w, completed(coords, cuts, j)) == path_weight(
            w,
            coords.subrange(0, cuts[j - 1].segment + 2),
        ),
    decreases j,
{
    let c = cuts[j - 1];
    let k = c.segment as int;
    assert(cut_ok(coords, c));
    assert(splits_evenly(w, coords, cuts, j - 1));
    let upto = coords.subrange(0, k + 1);
    assert(coords.subrange(0, k + 2) =~= upto.push(coords[k + 1]));
    weight_of_push(w, upto, coords[k + 1]);
    if j == 1 {
        assert(traced(coords, cuts, 1) =~= upto.push(boundary(coords, c)));
        match c.at {
            CutAt::Inside(p) => {
                weight_of_push(w, upto, p);
                weight_of_push(w, upto.push(p), coords[k + 1]);
            },
            CutAt::End => {},
        }
    } else {
        completed_keeps_weight(w, coords, cuts, j - 1);
        let prev = cuts[j - 2];
        let kp = prev.segment as int;
        assert(cut_ok(coords, prev));
        assert(resume(prev) <= k + 1);
        let before = traced(coords, cuts, j - 1);
        let done = completed(coords, cuts, j - 1);
        assert(traced(coords, cuts, j) == before + piece(coords, cuts, j - 1).drop_first());
        if kp == k {
            assert(prev.at is Inside);
            assert(traced(coords, cuts, j) =~= before.push(boundary(coords, c)));
            assert(done == before.push(coords[k + 1]));
            weight_of_push(w, before, coords[k + 1]);
            match c.at {
                CutAt::Inside(p) => {
                    weight_of_push(w, before, p);
                    weight_of_push(w, before.push(p), coords[k + 1]);
                },
                CutAt::End => {},
            }
        } else {
            let gap = coords.subrange(kp + 2, k + 1);
            let run = done + gap;
            let base = coords.subrange(0, kp + 2);
            weight_of_extension(w, done, base, gap);
            assert(base + gap =~= upto);
            assert(run.last() == coords[k]);
            assert(traced(coords, cuts, j) =~= run.push(boundary(coords, c)));
            weight_of_push(w, run, coords[k + 1]);
            match c.at {
                CutAt::Inside(p) => {
                    weight_of_push(w, run, p);
                    weight_of_push(w, run.push(p), coords[k + 1]);
                },
                CutAt::End => {},
            }
        }
    }
}

/// Where every cut divides its stretch evenly under a measure, the pieces
/// weigh together exactly what the path weighs. Of lengths this holds as
/// far as the points put inside segments lie on them.
#[verifier::spinoff_prover]
#[verifier::rlimit(50)]
pub proof fn pieces_keep_weight<T>(
    w: spec_fn(Coord<T>, Coord<T>) -> int,
    coords: Seq<Coord<T>>,
    cuts: Seq<Cut<T>>,
)
    requires
        plan_strict(coords, cuts),
        forall|i: int| 0 <= i < cuts.len() ==> splits_evenly(w, coords, cuts, i),
    ensures
        pieces_weight(w, coords, cuts, cuts.len() as int + 1) == path_weight(w, coords),
{
    let m = cuts.len() as int;
    pieces_weigh_what_they_trace(w, coords, cuts, m + 1);
    if m > 0 {
        completed_keeps_weight(w, coords, cuts, m);
        let c = cuts[m - 1];
        let k = c.segment as int;
        assert(cut_ok(coords, c));
        let len = coords.len() as int;
        let done = completed(coords, cuts, m);
        let rest = coords.subrange(k + 2, len);
        let base = coords.subrange(0, k + 2);
        weight_of_extension(w, done, base, rest);
        assert(base + rest =~= coords);
        let all = traced(coords, cuts, m + 1);
        assert(all =~= done + rest) by {
            let so_far = traced(coords, cuts, m);
            let tail = piece(coords, cuts, m).drop_first();
            assert(all == so_far + tail);
            assert(between(coords, resume(c), len) == coords.subrange(resume(c), len));
            assert(tail =~= coords.subrange(resume(c), len));
            match c.at {
                CutAt::Inside(_) => {
                    assert(done == so_far.push(coords[k + 1]));
                    assert(tail =~= seq![coords[k + 1]] + rest);
                },
                CutAt::End => {
                    assert(done == so_far);
                    assert(tail =~= rest);
                },
            }
        }
    }
}

} // verus!
