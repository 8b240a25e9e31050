use stamp::QueryStampPart::{Any, Is, Not};
use stamp::StampPart::{Transparent, Use};
use stamp::{QueryStampPart, Stamp, StampError, StampPart};

fn sample() -> Stamp<StampPart<i32>> {
    Stamp::new(vec![
        vec![Use(1), Use(2), Use(3)],
        vec![Use(4), Use(5), Use(6)],
        vec![Use(7), Use(8), Use(9)],
        vec![Use(10), Use(11), Use(12)],
    ])
    .unwrap()
}

fn zeros(h: usize, w: usize) -> Stamp<StampPart<i32>> {
    Stamp::new(vec![vec![Use(0); w]; h]).unwrap()
}

#[test]
fn four_quarter_turns_restore_the_grid() {
    let mut g = sample();
    for _ in 0..4 {
        g.rotate_90();
    }
    assert_eq!(g, sample());
}

#[test]
fn half_turn_is_two_quarter_turns() {
    let mut a = sample();
    a.rotate_180();
    let mut b = sample();
    b.rotate_90();
    b.rotate_90();
    assert_eq!(a, b);
    let expected = Stamp::new(vec![
        vec![Use(12), Use(11), Use(10)],
        vec![Use(9), Use(8), Use(7)],
        vec![Use(6), Use(5), Use(4)],
        vec![Use(3), Use(2), Use(1)],
    ])
    .unwrap();
    assert_eq!(a, expected);
}

#[test]
fn quarter_turn_back_restores_the_grid() {
    let mut g = sample();
    g.rotate_90();
    assert_eq!(g.height(), 3);
    assert_eq!(g.width(), 4);
    g.rotate_n90();
    assert_eq!(g, sample());
}

#[test]
fn quarter_turn_moves_each_cell() {
    let mut g = sample();
    g.rotate_90();
    let expected = Stamp::new(vec![
        vec![Use(10), Use(7), Use(4), Use(1)],
        vec![Use(11), Use(8), Use(5), Use(2)],
        vec![Use(12), Use(9), Use(6), Use(3)],
    ])
    .unwrap();
    assert_eq!(g, expected);
}

#[test]
fn flipping_twice_restores_the_grid() {
    let mut g = sample();
    g.flip_horizontal();
    assert_eq!(g.get_at((0, 0)), Some(&Use(3)));
    g.flip_horizontal();
    assert_eq!(g, sample());
    g.flip_vertical();
    assert_eq!(g.get_at((0, 0)), Some(&Use(10)));
    g.flip_vertical();
    assert_eq!(g, sample());
}

#[test]
fn turning_an_empty_grid_gives_an_empty_grid() {
    let mut g: Stamp<StampPart<i32>> = Stamp::new(vec![]).unwrap();
    g.rotate_90();
    g.rotate_n90();
    g.rotate_180();
    g.flip_horizontal();
    g.flip_vertical();
    assert_eq!(g.height(), 0);
    assert_eq!(g.width(), 0);
}

#[test]
fn rows_of_unequal_length_are_refused() {
    let r = Stamp::new(vec![vec![Use(0), Use(0)], vec![Use(0)]]);
    assert_eq!(r, Err(StampError::IrregularShape));
}

#[test]
fn rows_of_zero_length_make_a_grid_of_width_zero() {
    let g: Stamp<StampPart<i32>> = Stamp::new(vec![vec![], vec![]]).unwrap();
    assert_eq!(g.height(), 2);
    assert_eq!(g.width(), 0);
    assert_eq!(g.get_at((0, 0)), None);
}

#[test]
fn transparent_overlay_changes_nothing() {
    let mut g = sample();
    let s = Stamp::new(vec![vec![Transparent, Transparent], vec![Transparent, Transparent]]).unwrap();
    assert_eq!(g.stamp(&s, 1, 1), Ok(()));
    assert_eq!(g, sample());
}

#[test]
fn occupied_overlay_replaces_the_footprint() {
    let mut g = zeros(4, 3);
    let s = Stamp::new(vec![vec![Use(1), Use(1)], vec![Use(1), Use(1)]]).unwrap();
    assert_eq!(g.stamp(&s, 1, 2), Ok(()));
    let expected = Stamp::new(vec![
        vec![Use(0), Use(0), Use(0)],
        vec![Use(0), Use(0), Use(0)],
        vec![Use(0), Use(1), Use(1)],
        vec![Use(0), Use(1), Use(1)],
    ])
    .unwrap();
    assert_eq!(g, expected);
}

#[test]
fn overlay_reaching_outside_is_refused_and_changes_nothing() {
    let mut g = zeros(4, 3);
    let s = Stamp::new(vec![vec![Use(1), Use(1)], vec![Use(1), Use(1)]]).unwrap();
    assert_eq!(g.stamp(&s, 2, 0), Err(StampError::OutOfBounds));
    assert_eq!(g.stamp(&s, 0, 3), Err(StampError::OutOfBounds));
    assert_eq!(g.stamp(&s, usize::MAX, usize::MAX), Err(StampError::OutOfBounds));
    assert_eq!(g, zeros(4, 3));
}

#[test]
fn overlay_of_the_whole_grid_fits() {
    let mut g = zeros(2, 2);
    let s = Stamp::new(vec![vec![Use(5), Transparent], vec![Transparent, Use(6)]]).unwrap();
    assert_eq!(g.stamp(&s, 0, 0), Ok(()));
    let expected = Stamp::new(vec![vec![Use(5), Use(0)], vec![Use(0), Use(6)]]).unwrap();
    assert_eq!(g, expected);
}

#[test]
fn setting_outside_is_refused_and_changes_nothing() {
    let mut g = sample();
    assert_eq!(g.set_at((3, 0), Use(0)), Err(StampError::OutOfBounds));
    assert_eq!(g.set_at((0, 4), Use(0)), Err(StampError::OutOfBounds));
    assert_eq!(g, sample());
    assert_eq!(g.set_at((2, 3), Use(0)), Ok(()));
    assert_eq!(g.get_at((2, 3)), Some(&Use(0)));
    assert_eq!(g.get_at((1, 3)), Some(&Use(11)));
}

#[test]
fn getting_reads_column_then_row() {
    let g = sample();
    assert_eq!(g.get_at((2, 0)), Some(&Use(3)));
    assert_eq!(g.get_at((0, 2)), Some(&Use(7)));
    assert_eq!(g.get_at((3, 0)), None);
}

#[test]
fn a_window_of_the_grid_is_found_at_its_anchor() {
    let g = sample();
    let q = Stamp::new(vec![
        vec![Is(Box::new([5])), Is(Box::new([6]))],
        vec![Is(Box::new([8])), Is(Box::new([9]))],
    ])
    .unwrap();
    assert_eq!(g.find(&q), vec![(1, 1)]);
}

#[test]
fn taller_or_wider_queries_are_found_nowhere() {
    let g = zeros(2, 2);
    let tall = Stamp::new(vec![vec![Any], vec![Any], vec![Any]]).unwrap();
    let wide = Stamp::new(vec![vec![Any, Any, Any]]).unwrap();
    assert_eq!(g.find(&tall), vec![]);
    assert_eq!(g.find(&wide), vec![]);
}

#[test]
fn a_query_without_cells_is_found_nowhere() {
    let g = zeros(2, 2);
    let empty: Stamp<QueryStampPart<i32>> = Stamp::new(vec![]).unwrap();
    assert_eq!(g.find(&empty), vec![]);
    let hollow: Stamp<QueryStampPart<i32>> = Stamp::new(vec![vec![], vec![]]).unwrap();
    assert_eq!(g.find(&hollow), vec![]);
    assert_eq!(g.find_at_xy(&empty, 0, 0), Ok(false));
    assert_eq!(g.find_at_y(&empty, 0), Ok(vec![]));
    assert_eq!(g.find_at_x(&hollow, 0), Ok(vec![]));
}

#[test]
fn the_grid_is_searched_in_row_major_order() {
    let g = Stamp::new(vec![
        vec![Use(1), Use(1), Use(0)],
        vec![Use(1), Use(0), Use(1)],
        vec![Use(0), Use(0), Use(1)],
        vec![Use(0), Use(0), Use(0)],
    ])
    .unwrap();
    let q = Stamp::new(vec![
        vec![Is(Box::new([1])), Is(Box::new([1]))],
        vec![Is(Box::new([1])), Is(Box::new([0]))],
    ])
    .unwrap();
    assert_eq!(g.find(&q), vec![(0, 0)]);
    let column = Stamp::new(vec![vec![Is(Box::new([1]))], vec![Is(Box::new([1]))]]).unwrap();
    assert_eq!(g.find(&column), vec![(0, 0), (2, 1)]);
    let zero = Stamp::new(vec![vec![Is(Box::new([0]))]]).unwrap();
    assert_eq!(
        g.find(&zero),
        vec![(2, 0), (1, 1), (0, 2), (1, 2), (0, 3), (1, 3), (2, 3)]
    );
}

#[test]
fn transparent_cells_match_exclusions_only() {
    let g = Stamp::new(vec![vec![Transparent, Use(3)]]).unwrap();
    let not3 = Stamp::new(vec![vec![Not(Box::new([3]))]]).unwrap();
    let is3 = Stamp::new(vec![vec![Is(Box::new([3, 4]))]]).unwrap();
    let any = Stamp::new(vec![vec![Any]]).unwrap();
    assert_eq!(g.find(&not3), vec![(0, 0)]);
    assert_eq!(g.find(&is3), vec![(1, 0)]);
    assert_eq!(g.find(&any), vec![(0, 0), (1, 0)]);
}

#[test]
fn anchored_searches_reaching_outside_are_refused() {
    let g = zeros(4, 3);
    let q = Stamp::new(vec![vec![Any, Any], vec![Any, Any]]).unwrap();
    assert_eq!(g.find_at_xy(&q, 2, 0), Err(StampError::OutOfBounds));
    assert_eq!(g.find_at_xy(&q, 0, 3), Err(StampError::OutOfBounds));
    assert_eq!(g.find_at_xy(&q, 1, 2), Ok(true));
    assert_eq!(g.find_at_y(&q, 3), Err(StampError::OutOfBounds));
    assert_eq!(g.find_at_y(&q, 2), Ok(vec![(0, 2), (1, 2)]));
    assert_eq!(g.find_at_x(&q, 2), Err(StampError::OutOfBounds));
    assert_eq!(g.find_at_x(&q, 1), Ok(vec![(1, 0), (1, 1), (1, 2)]));
}

#[test]
fn row_search_with_a_query_wider_than_the_grid_finds_nothing() {
    let g = zeros(2, 2);
    let wide = Stamp::new(vec![vec![Any, Any, Any]]).unwrap();
    assert_eq!(g.find_at_y(&wide, 1), Ok(vec![]));
    let tall = Stamp::new(vec![vec![Any], vec![Any], vec![Any]]).unwrap();
    assert_eq!(g.find_at_x(&tall, 1), Ok(vec![]));
}

#[test]
fn a_clone_equals_the_grid() {
    let g = sample();
    let c = g.clone();
    assert_eq!(c, g);
}

#[test]
fn a_query_without_cells_is_never_refused_by_row_or_column_search() {
    let g = zeros(4, 3);
    let empty: Stamp<QueryStampPart<i32>> = Stamp::new(vec![]).unwrap();
    let hollow: Stamp<QueryStampPart<i32>> = Stamp::new(vec![vec![], vec![]]).unwrap();
    assert_eq!(g.find_at_y(&empty, 4), Ok(vec![]));
    assert_eq!(g.find_at_y(&empty, usize::MAX), Ok(vec![]));
    assert_eq!(g.find_at_y(&hollow, 3), Ok(vec![]));
    assert_eq!(g.find_at_x(&empty, 7), Ok(vec![]));
    assert_eq!(g.find_at_x(&hollow, usize::MAX), Ok(vec![]));
}
