use geo::{EuclideanLength, LineInterpolatePoint};
use planar_geom::construct::{make_line_string, make_point};
use planar_geom::coords::{Coord, Table};
use planar_geom::error::GeomError;
use planar_geom::geometry::{Collection, Geometry, Handle, Tag};
use planar_geom::segment::{
    cut_at, cut_in_range, cuts_at, locate, locate_marks, partition_path, plan_fits, segmentize,
    split_line, split_path, Cut, CutAt, Mark,
};

fn c(x: f64, y: f64) -> Coord<f64> {
    Coord { x, y }
}

fn line(rows: &[(f64, f64)]) -> Handle<f64> {
    let mut data: Vec<f64> = rows.iter().map(|r| r.0).collect();
    data.extend(rows.iter().map(|r| r.1));
    make_line_string(&Table { nrow: rows.len(), ncol: 2, data }).unwrap()
}

fn corner() -> Handle<f64> {
    line(&[(0.0, 0.0), (10.0, 0.0), (10.0, 10.0)])
}

fn segment_of(coords: &[Coord<f64>], i: usize) -> geo::Line<f64> {
    geo::Line::new(
        geo::Coord { x: coords[i].x, y: coords[i].y },
        geo::Coord { x: coords[i + 1].x, y: coords[i + 1].y },
    )
}

/// The length of each segment, and the running length at each segment's end.
fn measure(coords: &[Coord<f64>]) -> (Vec<f64>, Vec<f64>) {
    let mut lens = Vec::new();
    let mut reach = Vec::new();
    let mut run = 0.0;
    for i in 0..coords.len().saturating_sub(1) {
        let len = segment_of(coords, i).euclidean_length();
        run += len;
        lens.push(len);
        reach.push(run);
    }
    (lens, reach)
}

/// Lengths are never negative, so their bits order as they do.
fn key(x: f64) -> u64 {
    (x + 0.0).to_bits()
}

fn keys(v: &[f64]) -> Vec<u64> {
    v.iter().map(|x| key(*x)).collect()
}

fn cut_for(coords: &[Coord<f64>], lens: &[f64], reach: &[f64], m: &Mark, target: f64) -> Cut<f64> {
    let before = if m.segment == 0 { 0.0 } else { reach[m.segment - 1] };
    let inside = if m.at_end {
        coords[m.segment + 1]
    } else {
        let t = (target - before) / lens[m.segment];
        let p = segment_of(coords, m.segment).line_interpolate_point(t).unwrap();
        c(p.x(), p.y())
    };
    cut_at(m, inside)
}

fn split_by_fraction(l: &Handle<f64>, fraction: f64) -> Result<Handle<f64>, GeomError> {
    let coords = l.line_string()?;
    if !(0.0..=1.0).contains(&fraction) {
        return Err(GeomError::Range);
    }
    let (lens, reach) = measure(coords);
    let target = reach.last().copied().unwrap_or(0.0) * fraction;
    let stop = locate(&keys(&reach), 0, key(target))
        .map(|m| cut_for(coords, &lens, &reach, &m, target));
    split_line(l, &stop)
}

fn segmentize_by_count(l: &Handle<f64>, n: u32) -> Result<Collection<f64>, GeomError> {
    let coords = l.line_string()?;
    let (lens, reach) = measure(coords);
    let total = reach.last().copied().unwrap_or(0.0);
    let step = 1.0 / (n as f64);
    let mut fraction = step;
    let mut targets = Vec::new();
    for _ in 1..n {
        targets.push(total * fraction);
        fraction += step;
    }
    let marks = locate_marks(&keys(&reach), &keys(&targets))?;
    let inside: Vec<Coord<f64>> = marks
        .iter()
        .zip(targets.iter())
        .map(|(m, t)| match cut_for(coords, &lens, &reach, m, *t).at {
            CutAt::Inside(p) => p,
            CutAt::End => coords[m.segment + 1],
        })
        .collect();
    let cuts = cuts_at(&marks, &inside)?;
    segmentize(l, n, &cuts)
}

fn path_len(coords: &[Coord<f64>]) -> f64 {
    measure(coords).1.last().copied().unwrap_or(0.0)
}

fn pieces_of(col: &Collection<f64>) -> Vec<Vec<Coord<f64>>> {
    (0..col.len()).map(|i| col.get(i).unwrap().line_string().unwrap().clone()).collect()
}

#[test]
fn half_of_the_corner_ends_at_the_corner() {
    let r = split_by_fraction(&corner(), 0.5).unwrap();
    assert_eq!(r.geometry(), &Geometry::LineString(vec![c(0.0, 0.0), c(10.0, 0.0)]));
    assert_eq!(path_len(r.line_string().unwrap()), 10.0);
}

#[test]
fn two_pieces_of_the_corner() {
    let r = segmentize_by_count(&corner(), 2).unwrap();
    assert_eq!(r.tag(), Tag::LineString);
    let p = pieces_of(&r);
    assert_eq!(p, vec![vec![c(0.0, 0.0), c(10.0, 0.0)], vec![c(10.0, 0.0), c(10.0, 10.0)]]);
    assert_eq!(path_len(&p[0]), 10.0);
    assert_eq!(path_len(&p[1]), 10.0);
}

#[test]
fn four_pieces_of_the_corner() {
    let r = segmentize_by_count(&corner(), 4).unwrap();
    let p = pieces_of(&r);
    assert_eq!(
        p,
        vec![
            vec![c(0.0, 0.0), c(5.0, 0.0)],
            vec![c(5.0, 0.0), c(10.0, 0.0)],
            vec![c(10.0, 0.0), c(10.0, 5.0)],
            vec![c(10.0, 5.0), c(10.0, 10.0)],
        ]
    );
    for piece in &p {
        assert_eq!(path_len(piece), 5.0);
    }
}

#[test]
fn no_pieces_is_a_range_error() {
    assert_eq!(segmentize_by_count(&corner(), 0), Err(GeomError::Range));
    assert_eq!(segmentize(&corner(), 0, &vec![]), Err(GeomError::Range));
}

#[test]
fn one_piece_is_the_line() {
    let r = segmentize_by_count(&corner(), 1).unwrap();
    assert_eq!(pieces_of(&r), vec![vec![c(0.0, 0.0), c(10.0, 0.0), c(10.0, 10.0)]]);
}

#[test]
fn one_piece_of_an_empty_line() {
    let r = segmentize(&line(&[]), 1, &vec![]).unwrap();
    assert_eq!(pieces_of(&r), vec![vec![]]);
}

#[test]
fn three_pieces_cut_inside_segments() {
    let l = line(&[(0.0, 0.0), (3.0, 0.0), (3.0, 3.0), (9.0, 3.0)]);
    let p = pieces_of(&segmentize_by_count(&l, 3).unwrap());
    assert_eq!(p.len(), 3);
    assert_eq!(p[0], vec![c(0.0, 0.0), c(3.0, 0.0), c(3.0, 1.0)]);
    assert_eq!(p[1], vec![c(3.0, 1.0), c(3.0, 3.0), c(5.0, 3.0)]);
    assert_eq!(p[2], vec![c(5.0, 3.0), c(9.0, 3.0)]);
}

#[test]
fn pieces_meet_exactly() {
    let l = line(&[(0.0, 0.0), (1.0, 2.0), (4.0, -1.0), (4.5, 7.25), (10.0, 3.0)]);
    for n in 1..9u32 {
        let p = pieces_of(&segmentize_by_count(&l, n).unwrap());
        assert_eq!(p.len(), n as usize);
        for i in 0..p.len() - 1 {
            assert_eq!(p[i].last().unwrap(), p[i + 1].first().unwrap());
        }
        assert_eq!(p[0][0], c(0.0, 0.0));
        assert_eq!(*p[p.len() - 1].last().unwrap(), c(10.0, 3.0));
    }
}

#[test]
fn pieces_keep_the_length() {
    let l = line(&[(0.0, 0.0), (1.0, 2.0), (4.0, -1.0), (4.5, 7.25), (10.0, 3.0)]);
    let whole = path_len(l.line_string().unwrap());
    for n in 1..9u32 {
        let p = pieces_of(&segmentize_by_count(&l, n).unwrap());
        let sum: f64 = p.iter().map(|x| path_len(x)).sum();
        assert!((sum - whole).abs() < 1e-9);
        for piece in &p {
            assert!((path_len(piece) - whole / (n as f64)).abs() < 1e-9);
        }
    }
}

#[test]
fn fraction_zero_repeats_the_start() {
    let r = split_by_fraction(&corner(), 0.0).unwrap();
    assert_eq!(r.geometry(), &Geometry::LineString(vec![c(0.0, 0.0), c(0.0, 0.0)]));
}

#[test]
fn fraction_one_is_the_whole_line() {
    let r = split_by_fraction(&corner(), 1.0).unwrap();
    assert_eq!(
        r.geometry(),
        &Geometry::LineString(vec![c(0.0, 0.0), c(10.0, 0.0), c(10.0, 10.0)])
    );
    let l = line(&[(0.0, 0.0), (1.0, 2.0), (4.0, -1.0), (4.5, 7.25)]);
    let r = split_by_fraction(&l, 1.0).unwrap();
    assert_eq!(r.geometry(), l.geometry());
}

#[test]
fn fraction_inside_a_segment() {
    let r = split_by_fraction(&corner(), 0.25).unwrap();
    assert_eq!(r.geometry(), &Geometry::LineString(vec![c(0.0, 0.0), c(5.0, 0.0)]));
    let r = split_by_fraction(&corner(), 0.75).unwrap();
    assert_eq!(
        r.geometry(),
        &Geometry::LineString(vec![c(0.0, 0.0), c(10.0, 0.0), c(10.0, 5.0)])
    );
}

#[test]
fn larger_fraction_extends_the_prefix() {
    let l = line(&[(0.0, 0.0), (1.0, 2.0), (4.0, -1.0), (4.5, 7.25), (10.0, 3.0)]);
    let fractions = [0.0, 0.1, 0.3, 0.5, 0.55, 0.9, 1.0];
    for w in fractions.windows(2) {
        let a = split_by_fraction(&l, w[0]).unwrap();
        let b = split_by_fraction(&l, w[1]).unwrap();
        let a = a.line_string().unwrap();
        let b = b.line_string().unwrap();
        assert!(a.len() <= b.len());
        assert_eq!(a[..a.len() - 1], b[..a.len() - 1]);
        assert!(path_len(a) <= path_len(b));
    }
}

#[test]
fn fraction_outside_the_unit_range_is_refused() {
    assert_eq!(split_by_fraction(&corner(), -0.1), Err(GeomError::Range));
    assert_eq!(split_by_fraction(&corner(), 1.5), Err(GeomError::Range));
}

#[test]
fn only_line_strings_are_split() {
    let p = make_point(0.0, 0.0);
    assert_eq!(split_line(&p, &None), Err(GeomError::TypeTag));
    assert_eq!(segmentize(&p, 1, &vec![]), Err(GeomError::TypeTag));
    assert_eq!(segmentize(&p, 0, &vec![]), Err(GeomError::TypeTag));
    assert_eq!(split_by_fraction(&p, 0.5), Err(GeomError::TypeTag));
}

#[test]
fn split_without_a_stop_copies_the_line() {
    let r = split_line(&corner(), &None).unwrap();
    assert_eq!(r.geometry(), corner().geometry());
    assert_eq!(split_path::<f64>(&vec![], &None), Ok(vec![]));
}

#[test]
fn split_at_a_given_cut() {
    let coords = vec![c(0.0, 0.0), c(10.0, 0.0), c(10.0, 10.0)];
    let inside = Cut { segment: 1, at: CutAt::Inside(c(10.0, 2.0)) };
    assert_eq!(
        split_path(&coords, &Some(inside)),
        Ok(vec![c(0.0, 0.0), c(10.0, 0.0), c(10.0, 2.0)])
    );
    let end = Cut { segment: 1, at: CutAt::End };
    assert_eq!(split_path(&coords, &Some(end)), Ok(coords.clone()));
}

#[test]
fn a_stop_past_the_line_is_refused() {
    let coords = vec![c(0.0, 0.0), c(10.0, 0.0), c(10.0, 10.0)];
    let far = Cut { segment: 2, at: CutAt::End };
    assert_eq!(split_path(&coords, &Some(far)), Err(GeomError::Range));
    assert_eq!(split_line(&corner(), &Some(far)), Err(GeomError::Range));
    let huge = Cut { segment: usize::MAX, at: CutAt::Inside(c(0.0, 0.0)) };
    assert_eq!(split_path(&coords, &Some(huge)), Err(GeomError::Range));
    assert!(!cut_in_range(&coords, &far));
    assert!(cut_in_range(&coords, &Cut { segment: 1, at: CutAt::<f64>::End }));
    assert!(!cut_in_range(&vec![c(0.0, 0.0)], &Cut { segment: 0, at: CutAt::<f64>::End }));
}

#[test]
fn plans_that_do_not_fit_are_refused() {
    let coords = vec![c(0.0, 0.0), c(10.0, 0.0), c(10.0, 10.0)];
    let a = Cut { segment: 0, at: CutAt::Inside(c(5.0, 0.0)) };
    let b = Cut { segment: 1, at: CutAt::Inside(c(10.0, 5.0)) };
    assert!(plan_fits(&coords, &vec![a, b]));
    assert!(plan_fits(&coords, &vec![a, a]));
    assert!(!plan_fits(&coords, &vec![b, a]));
    assert_eq!(partition_path(&coords, 3, &vec![b, a]), Err(GeomError::Range));
    assert_eq!(partition_path(&coords, 3, &vec![a]), Err(GeomError::Range));
    assert_eq!(partition_path(&coords, 1, &vec![a]), Err(GeomError::Range));
    let far = Cut { segment: 2, at: CutAt::End };
    assert_eq!(partition_path(&coords, 2, &vec![far]), Err(GeomError::Range));
    assert_eq!(segmentize(&corner(), 3, &vec![b, a]), Err(GeomError::Range));
    assert_eq!(segmentize(&corner(), 2, &vec![]), Err(GeomError::Range));
}

#[test]
fn partition_at_given_cuts() {
    let coords = vec![c(0.0, 0.0), c(10.0, 0.0), c(10.0, 10.0), c(0.0, 10.0)];
    let a = Cut { segment: 0, at: CutAt::Inside(c(4.0, 0.0)) };
    let b = Cut { segment: 2, at: CutAt::Inside(c(7.0, 10.0)) };
    assert_eq!(
        partition_path(&coords, 3, &vec![a, b]),
        Ok(vec![
            vec![c(0.0, 0.0), c(4.0, 0.0)],
            vec![c(4.0, 0.0), c(10.0, 0.0), c(10.0, 10.0), c(7.0, 10.0)],
            vec![c(7.0, 10.0), c(0.0, 10.0)],
        ])
    );
}

#[test]
fn a_cut_at_the_path_end_leaves_a_single_coordinate() {
    let coords = vec![c(0.0, 0.0), c(10.0, 0.0)];
    let end = Cut { segment: 0, at: CutAt::End };
    assert_eq!(
        partition_path(&coords, 2, &vec![end]),
        Ok(vec![vec![c(0.0, 0.0), c(10.0, 0.0)], vec![c(10.0, 0.0)]])
    );
    assert_eq!(
        partition_path(&coords, 3, &vec![end, end]),
        Ok(vec![
            vec![c(0.0, 0.0), c(10.0, 0.0)],
            vec![c(10.0, 0.0), c(10.0, 0.0)],
            vec![c(10.0, 0.0)],
        ])
    );
}

#[test]
fn marks_fall_on_the_first_segment_that_reaches() {
    let reach: Vec<u64> = vec![10, 20, 20, 35];
    assert_eq!(locate(&reach, 0, 5), Some(Mark { segment: 0, at_end: false }));
    assert_eq!(locate(&reach, 0, 10), Some(Mark { segment: 0, at_end: true }));
    assert_eq!(locate(&reach, 0, 11), Some(Mark { segment: 1, at_end: false }));
    assert_eq!(locate(&reach, 0, 20), Some(Mark { segment: 1, at_end: true }));
    assert_eq!(locate(&reach, 2, 20), Some(Mark { segment: 2, at_end: true }));
    assert_eq!(locate(&reach, 0, 35), Some(Mark { segment: 3, at_end: true }));
    assert_eq!(locate(&reach, 0, 0), Some(Mark { segment: 0, at_end: false }));
}

#[test]
fn an_unreached_target_is_marked_at_the_path_end() {
    let reach: Vec<u64> = vec![10, 20];
    assert_eq!(locate(&reach, 0, 21), Some(Mark { segment: 1, at_end: true }));
    assert_eq!(locate(&reach, 1, u64::MAX), Some(Mark { segment: 1, at_end: true }));
}

#[test]
fn no_mark_without_a_segment() {
    assert_eq!(locate(&vec![], 0, 5), None);
    assert_eq!(locate(&vec![10, 20], 2, 5), None);
    assert_eq!(locate_marks(&vec![], &vec![1]), Err(GeomError::Shape));
    assert_eq!(locate_marks(&vec![], &vec![]), Ok(vec![]));
    assert_eq!(segmentize_by_count(&line(&[(1.0, 1.0)]), 2), Err(GeomError::Shape));
}

#[test]
fn marks_of_one_walk() {
    let reach: Vec<u64> = vec![10, 20];
    assert_eq!(
        locate_marks(&reach, &vec![5, 10, 15]),
        Ok(vec![
            Mark { segment: 0, at_end: false },
            Mark { segment: 0, at_end: true },
            Mark { segment: 1, at_end: false },
        ])
    );
    assert_eq!(
        locate_marks(&reach, &vec![15, 5]),
        Ok(vec![Mark { segment: 1, at_end: false }, Mark { segment: 1, at_end: false }])
    );
    assert_eq!(locate_marks(&reach, &vec![]), Ok(vec![]));
}

#[test]
fn a_mark_becomes_a_cut() {
    let m = Mark { segment: 3, at_end: false };
    assert_eq!(cut_at(&m, c(1.0, 2.0)), Cut { segment: 3, at: CutAt::Inside(c(1.0, 2.0)) });
    let m = Mark { segment: 4, at_end: true };
    assert_eq!(cut_at(&m, c(1.0, 2.0)), Cut { segment: 4, at: CutAt::End });
}

#[test]
fn a_line_of_no_length_is_divided_at_its_vertices() {
    let l = line(&[(2.0, 2.0), (2.0, 2.0)]);
    let p = pieces_of(&segmentize_by_count(&l, 3).unwrap());
    assert_eq!(
        p,
        vec![vec![c(2.0, 2.0), c(2.0, 2.0)], vec![c(2.0, 2.0), c(2.0, 2.0)], vec![c(2.0, 2.0)]]
    );
}

#[test]
fn pieces_rebuild_the_line() {
    let rows = [(0.0, 0.0), (3.0, 0.0), (3.0, 3.0), (9.0, 3.0)];
    let l = line(&rows);
    let p = pieces_of(&segmentize_by_count(&l, 3).unwrap());
    let inserted = [c(3.0, 1.0), c(5.0, 3.0)];
    let mut joined = vec![p[0][0]];
    for piece in &p {
        joined.extend(piece[1..].iter().filter(|x| !inserted.contains(*x)));
    }
    assert_eq!(&joined, l.line_string().unwrap());
    let q = pieces_of(&segmentize_by_count(&corner(), 2).unwrap());
    let mut joined = vec![q[0][0]];
    for piece in &q {
        joined.extend(piece[1..].iter());
    }
    assert_eq!(&joined, corner().line_string().unwrap());
}

#[test]
fn larger_targets_are_marked_later() {
    let reach: Vec<u64> = vec![3, 3, 9, 20, 20, 41];
    let mut last = 0;
    for target in 0..45u64 {
        let m = locate(&reach, 0, target).unwrap();
        assert!(last <= m.segment);
        last = m.segment;
    }
    assert_eq!(locate(&reach, 0, 41), Some(Mark { segment: 5, at_end: true }));
    assert_eq!(locate(&reach, 0, 44), Some(Mark { segment: 5, at_end: true }));
}

#[test]
fn pieces_keep_a_measure_on_integer_coordinates() {
    let at = |x: i64, y: i64| Coord { x, y };
    let coords = vec![at(0, 0), at(6, 0), at(6, 6), at(0, 6)];
    let cuts = vec![
        Cut { segment: 0, at: CutAt::Inside(at(2, 0)) },
        Cut { segment: 0, at: CutAt::Inside(at(5, 0)) },
        Cut { segment: 1, at: CutAt::End },
        Cut { segment: 2, at: CutAt::Inside(at(1, 6)) },
    ];
    let pieces = partition_path(&coords, 5, &cuts).unwrap();
    assert_eq!(
        pieces,
        vec![
            vec![at(0, 0), at(2, 0)],
            vec![at(2, 0), at(5, 0)],
            vec![at(5, 0), at(6, 0), at(6, 6)],
            vec![at(6, 6), at(1, 6)],
            vec![at(1, 6), at(0, 6)],
        ]
    );
    let weight = |p: &Vec<Coord<i64>>| -> i64 {
        p.windows(2).map(|s| (s[1].x - s[0].x).abs() + (s[1].y - s[0].y).abs()).sum()
    };
    let sum: i64 = pieces.iter().map(weight).sum();
    assert_eq!(sum, weight(&coords));
    assert_eq!(sum, 18);
}

#[test]
fn marks_become_cuts_in_order() {
    let marks = vec![Mark { segment: 0, at_end: false }, Mark { segment: 2, at_end: true }];
    let inside = vec![c(1.0, 0.0), c(9.0, 9.0)];
    assert_eq!(
        cuts_at(&marks, &inside),
        Ok(vec![
            Cut { segment: 0, at: CutAt::Inside(c(1.0, 0.0)) },
            Cut { segment: 2, at: CutAt::End },
        ])
    );
    assert_eq!(cuts_at(&marks, &vec![c(1.0, 0.0)]), Err(GeomError::Range));
    assert_eq!(cuts_at::<f64>(&vec![], &vec![]), Ok(vec![]));
}
