use snake_core::{limit, limit_point, Direction, Field};

fn find(grid: &Vec<Vec<char>>, c: char) -> Vec<(usize, usize)> {
    let mut out = Vec::new();
    for (y, row) in grid.iter().enumerate() {
        for (x, v) in row.iter().enumerate() {
            if *v == c {
                out.push((x, y));
            }
        }
    }
    out
}

#[test]
fn new_field() {
    let field = Field::new(3, 5, false, false, false, false, 3).unwrap();
    let field = field.get_field();

    assert_eq!(5, field.len());
    assert_eq!(3, field[0].len());

    for col in field.iter() {
        for item in col.iter() {
            let item = *item;
            assert_eq!(false, item);
        }
    }
}

#[test]
fn reset_field_test() {
    let mut field = Field::new(3, 5, false, false, false, false, 3).unwrap();

    field.set_point(0, 0, true);
    field.set_point(1, 3, true);
    field.set_point(2, 4, true);

    field.reset_field();

    for col in field.get_field().iter() {
        for item in col.iter() {
            let item = *item;
            assert_eq!(false, item);
        }
    }
}

#[test]
fn set_get_point_clamps() {
    let mut field = Field::new(3, 5, false, false, false, false, 3).unwrap();

    field.set_point(0, 0, true);
    assert_eq!(true, *field.get_point(0, 0));

    field.set_point(2, 4, true);
    assert_eq!(true, *field.get_point(2, 4));

    field.set_point(1, 4, false);
    field.set_point(3, 5, false);
    assert_eq!(false, *field.get_point(2, 4));
    field.set_point(100, 2, true);
    assert_eq!(true, *field.get_point(2, 2));
    assert_eq!(true, *field.get_point(7, 2));
    assert_eq!(false, *field.get_point(1, 2));
}

#[test]
fn limit_clamps() {
    assert_eq!(3, limit(5, 0, 3));
    assert_eq!(1, limit(0, 1, 3));
    assert_eq!(2, limit(2, 1, 3));
    assert_eq!((2, 4), limit_point((9, 9), 3, 5));
    assert_eq!((0, 4), limit_point((0, 7), 3, 5));
    assert_eq!((1, 1), limit_point((1, 1), 3, 5));
}

#[test]
fn construction_fits_or_fails() {
    let f = Field::new(10, 5, '.', 'X', 'O', 'G', 1).unwrap();
    assert_eq!(3, f.get_snake().get_points().len());
    assert_eq!(vec![(7, 2), (6, 2), (5, 2)], *f.get_snake().get_points());
    let f = Field::new(10, 5, '.', 'X', 'O', 'G', 6).unwrap();
    assert_eq!(6, f.get_snake().get_points().len());
    assert!(Field::new(3, 5, '.', 'X', 'O', 'G', 10).is_none());
    assert!(Field::new(3, 5, '.', 'X', 'O', 'G', 4).is_none());
    assert!(Field::new(2, 5, '.', 'X', 'O', 'G', 3).is_none());
    assert!(Field::new(4, 0, '.', 'X', 'O', 'G', 3).is_none());
    // a snake that fills the grid leaves no cell for the item
    assert!(Field::new(3, 1, '.', 'X', 'O', 'G', 3).is_none());
    let g = Field::new(4, 1, '.', 'X', 'O', 'G', 3).unwrap().get_field();
    assert_eq!(vec![(0, 0)], find(&g, 'G'));
    let g = Field::new(3, 2, '.', 'X', 'O', 'G', 3).unwrap().get_field();
    assert_eq!(1, find(&g, 'G').len());
    assert_eq!(0, find(&g, 'G')[0].1);
    assert_eq!(10, f.get_width());
    assert_eq!(5, f.get_height());
    assert_eq!('.', *f.default_val());
    assert_eq!('X', *f.get_snake_val());
    assert_eq!('O', *f.get_head_val());
}

#[test]
fn snapshot_shows_snake_and_item() {
    let mut f = Field::new(7, 5, '.', 'X', 'O', 'G', 3).unwrap();
    assert!(f.place_item(0, 0));
    let g = f.get_field();
    assert_eq!(vec![(4, 2)], find(&g, 'O'));
    assert_eq!(vec![(2, 2), (3, 2)], find(&g, 'X'));
    assert_eq!(vec![(0, 0)], find(&g, 'G'));
    assert_eq!(7 * 5 - 4, find(&g, '.').len());
    assert_eq!(
        vec![((2, 2), 'X'), ((3, 2), 'X'), ((4, 2), 'O')],
        f.get_snake_with_chars()
    );
}

#[test]
fn item_is_placed_off_the_snake() {
    for _ in 0..50 {
        let f = Field::new(5, 3, '.', 'X', 'O', 'G', 3).unwrap();
        let items = find(&f.get_field(), 'G');
        assert_eq!(1, items.len());
        assert!(!f.get_snake().contains(items[0].0, items[0].1));
    }
}

#[test]
fn item_cell_is_drawn_at_random() {
    let mut seen = Vec::new();
    for _ in 0..200 {
        let f = Field::new(7, 7, '.', 'X', 'O', 'G', 3).unwrap();
        let item = find(&f.get_field(), 'G')[0];
        if !seen.contains(&item) {
            seen.push(item);
        }
    }
    assert!(seen.len() > 5);
}

#[test]
fn place_item_refuses_snake_and_outside() {
    let mut f = Field::new(7, 5, '.', 'X', 'O', 'G', 3).unwrap();
    assert!(!f.place_item(3, 2));
    assert!(!f.place_item(7, 0));
    assert!(f.place_item(6, 4));
    assert_eq!(vec![(6, 4)], find(&f.get_field(), 'G'));
}

#[test]
fn tick_diff_moving_right() {
    let mut f = Field::new(7, 5, '.', 'X', 'O', 'G', 3).unwrap();
    assert_eq!(vec![(4, 2), (3, 2), (2, 2)], *f.get_snake().get_points());
    assert!(f.place_item(0, 0));
    let (diff, scored) = f.mov(Some(Direction::Right));
    assert_eq!(Some(vec![((2, 2), '.'), ((4, 2), 'X'), ((5, 2), 'O')]), diff);
    assert!(!scored);
}

#[test]
fn tick_death_by_self_collision() {
    let mut f = Field::new(5, 5, '.', 'X', 'O', 'G', 2).unwrap();
    assert_eq!(vec![(3, 2), (2, 2), (1, 2)], *f.get_snake().get_points());
    let (diff, scored) = f.mov(Some(Direction::Left));
    assert_eq!(None, diff);
    assert!(!scored);
    assert_eq!(vec![(3, 2), (2, 2), (1, 2)], *f.get_snake().get_points());
}

#[test]
fn tick_death_at_border() {
    let mut f = Field::new(3, 3, '.', 'X', 'O', 'G', 3).unwrap();
    assert_eq!(vec![(2, 1), (1, 1), (0, 1)], *f.get_snake().get_points());
    let (diff, scored) = f.mov(None);
    assert_eq!(None, diff);
    assert!(!scored);
    assert_eq!(vec![(2, 1), (1, 1), (0, 1)], *f.get_snake().get_points());
}

#[test]
fn tick_growth_scenario() {
    let mut f = Field::new(3, 3, '.', 'X', 'O', 'G', 3).unwrap();
    assert_eq!(vec![(2, 1), (1, 1), (0, 1)], *f.get_snake().get_points());
    assert!(f.place_item(2, 2));

    let (diff, scored) = f.mov(Some(Direction::Down));
    assert!(scored);
    let diff = diff.unwrap();
    assert_eq!(4, diff.len());
    assert_eq!(vec![((0, 1), '.'), ((2, 1), 'X'), ((2, 2), 'O')], diff[0..3].to_vec());
    let item = find(&f.get_field(), 'G');
    assert_eq!(vec![(diff[3].0, 'G')], vec![(item[0], diff[3].1)]);
    assert!(!f.get_snake().contains(item[0].0, item[0].1));
    assert_eq!(vec![(2, 2), (2, 1), (1, 1)], *f.get_snake().get_points());

    assert!(f.place_item(0, 0));
    let (diff, scored) = f.mov(Some(Direction::Left));
    assert_eq!(Some(vec![((1, 1), '.'), ((2, 2), 'X'), ((1, 2), 'O')]), diff);
    assert!(!scored);
    assert_eq!(vec![(1, 2), (2, 2), (2, 1)], *f.get_snake().get_points());

    let (diff, scored) = f.mov(None);
    assert!(diff.is_some());
    assert!(scored);
    assert_eq!(vec![(0, 2), (1, 2), (2, 2), (2, 1)], *f.get_snake().get_points());

    let (diff, scored) = f.mov(Some(Direction::Up));
    assert!(diff.is_some());
    assert!(!scored);
    assert_eq!(vec![(0, 1), (0, 2), (1, 2), (2, 2)], *f.get_snake().get_points());
}

#[test]
fn respawn_takes_first_free_draw() {
    let mut f = Field::new(7, 5, '.', 'X', 'O', 'G', 3).unwrap();
    // (3,2) is on the snake, (9,0) is outside, (1,4) is the first free draw
    f.respawn_item(&vec![(3, 2), (9, 0), (1, 4), (0, 0)]);
    assert_eq!(vec![(1, 4)], find(&f.get_field(), 'G'));
}

#[test]
fn respawn_without_free_draw_takes_first_free_cell() {
    let mut f = Field::new(7, 5, '.', 'X', 'O', 'G', 3).unwrap();
    f.respawn_item(&vec![(4, 2), (2, 2)]);
    assert_eq!(vec![(0, 0)], find(&f.get_field(), 'G'));
    let mut g = Field::new(4, 2, '.', 'X', 'O', 'G', 3).unwrap();
    g.respawn_item(&Vec::new());
    assert_eq!(vec![(0, 0)], find(&g.get_field(), 'G'));
}

#[test]
fn eating_scores_on_that_tick() {
    let mut f = Field::new(7, 5, '.', 'X', 'O', 'G', 3).unwrap();
    assert!(f.place_item(5, 2));
    let (diff, scored) = f.mov(Some(Direction::Right));
    assert!(scored);
    let diff = diff.unwrap();
    assert_eq!(4, diff.len());
    assert_eq!(((5, 2), 'O'), diff[2]);
    assert_eq!('G', diff[3].1);
    assert!(!f.get_snake().contains(diff[3].0 .0, diff[3].0 .1));
}
