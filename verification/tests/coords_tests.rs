use planar_geom::coords::{coordinates_to_table, copy_path, table_to_coordinates, Coord, Table};
use planar_geom::error::GeomError;

fn c(x: f64, y: f64) -> Coord<f64> {
    Coord { x, y }
}

#[test]
fn three_rows_give_three_coordinates() {
    let t = Table { nrow: 3, ncol: 2, data: vec![0.0, 10.0, 10.0, 0.0, 0.0, 10.0] };
    let coords = table_to_coordinates(&t).unwrap();
    assert_eq!(coords, vec![c(0.0, 0.0), c(10.0, 0.0), c(10.0, 10.0)]);
}

#[test]
fn columns_map_to_x_and_y() {
    let t = Table { nrow: 2, ncol: 2, data: vec![1.5, 2.5, -3.0, 4.0] };
    let coords = table_to_coordinates(&t).unwrap();
    assert_eq!(coords[0].x, 1.5);
    assert_eq!(coords[0].y, -3.0);
    assert_eq!(coords[1].x, 2.5);
    assert_eq!(coords[1].y, 4.0);
}

#[test]
fn single_row_table_is_kept() {
    let t = Table { nrow: 1, ncol: 2, data: vec![7.0, 8.0] };
    assert_eq!(table_to_coordinates(&t), Ok(vec![c(7.0, 8.0)]));
}

#[test]
fn empty_two_column_table_gives_no_coordinates() {
    let t: Table<f64> = Table { nrow: 0, ncol: 2, data: vec![] };
    assert_eq!(table_to_coordinates(&t), Ok(vec![]));
}

#[test]
fn three_columns_are_a_shape_error() {
    let t = Table { nrow: 2, ncol: 3, data: vec![1.0, 2.0, 3.0, 4.0, 5.0, 6.0] };
    assert_eq!(table_to_coordinates(&t), Err(GeomError::Shape));
}

#[test]
fn one_column_is_a_shape_error() {
    let t = Table { nrow: 2, ncol: 1, data: vec![1.0, 2.0] };
    assert_eq!(table_to_coordinates(&t), Err(GeomError::Shape));
}

#[test]
fn wrong_cell_count_is_a_shape_error() {
    let t = Table { nrow: 2, ncol: 2, data: vec![1.0, 2.0, 3.0] };
    assert_eq!(table_to_coordinates(&t), Err(GeomError::Shape));
    let t = Table { nrow: 3, ncol: 2, data: vec![1.0, 2.0, 3.0, 4.0] };
    assert_eq!(table_to_coordinates(&t), Err(GeomError::Shape));
}

#[test]
fn coordinates_become_a_column_major_table() {
    let t = coordinates_to_table(&vec![c(0.0, 1.0), c(2.0, 3.0), c(4.0, 5.0)]);
    assert_eq!(t, Table { nrow: 3, ncol: 2, data: vec![0.0, 2.0, 4.0, 1.0, 3.0, 5.0] });
}

#[test]
fn no_coordinates_become_an_empty_table() {
    let t = coordinates_to_table::<f64>(&vec![]);
    assert_eq!(t, Table { nrow: 0, ncol: 2, data: vec![] });
}

#[test]
fn table_round_trip_on_values() {
    let t = Table { nrow: 4, ncol: 2, data: vec![1.0, 2.0, 3.0, 4.0, -1.0, -2.0, -3.0, -4.0] };
    let back = coordinates_to_table(&table_to_coordinates(&t).unwrap());
    assert_eq!(back, t);
}

#[test]
fn coordinates_round_trip_on_values() {
    let coords = vec![c(0.5, 0.25), c(1.0, 1.0), c(1.0, 1.0), c(-2.0, 9.0)];
    let back = table_to_coordinates(&coordinates_to_table(&coords)).unwrap();
    assert_eq!(back, coords);
}

#[test]
fn conversion_works_for_integer_cells() {
    let t: Table<i32> = Table { nrow: 2, ncol: 2, data: vec![1, 2, 3, 4] };
    let coords = table_to_coordinates(&t).unwrap();
    assert_eq!(coords, vec![Coord { x: 1, y: 3 }, Coord { x: 2, y: 4 }]);
}

#[test]
fn copy_path_keeps_every_coordinate() {
    let coords = vec![c(0.0, 0.0), c(1.0, 2.0), c(3.0, 4.0)];
    assert_eq!(copy_path(&coords), coords);
    assert_eq!(copy_path::<f64>(&vec![]), vec![]);
}

#[test]
fn error_names() {
    assert_eq!(GeomError::Shape.name(), "ShapeError");
    assert_eq!(GeomError::TypeTag.name(), "TypeTagError");
    assert_eq!(GeomError::Range.name(), "RangeError");
}
