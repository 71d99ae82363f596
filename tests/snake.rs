use snek::{adjust_term_size, generate_game, Direction, Pixel, Raster, Snake, INITIAL_LENGTH};

fn px(x: u16, y: u16) -> Pixel {
    Pixel { x, y }
}

fn cells(r: &Raster) -> Vec<(u16, u16)> {
    let mut out = Vec::new();
    for (y, xs) in r {
        for x in xs {
            out.push((*x, *y));
        }
    }
    out.sort();
    out
}

fn count(r: &Raster) -> usize {
    r.values().map(|xs| xs.len()).sum()
}

#[test]
fn new_body_is_straight_behind_the_head() {
    let s = Snake::new(px(5, 5));
    assert_eq!(s.head(), px(5, 5));
    assert_eq!(s.len(), 0);
    let r = s.rasterize(px(20, 20));
    assert_eq!(cells(&r), vec![(2, 5), (3, 5), (4, 5)]);
}

#[test]
fn straight_slide() {
    let size = px(20, 20);
    let mut s = Snake::new(px(5, 5));
    for _ in 0..3 {
        s.advance(size);
    }
    assert_eq!(s.head(), px(8, 5));
    let r = s.rasterize(size);
    assert_eq!(cells(&r), vec![(5, 5), (6, 5), (7, 5)]);
    assert_eq!(s.len(), 0);
}

#[test]
fn one_turn_makes_one_elbow() {
    let size = px(20, 20);
    let mut s = Snake::new(px(5, 5));
    for _ in 0..3 {
        s.advance(size);
    }
    s.turn(Direction::Down);
    s.advance(size);
    assert_eq!(s.head(), px(8, 6));
    let r = s.rasterize(size);
    assert_eq!(cells(&r), vec![(6, 5), (7, 5), (8, 5)]);
    assert_eq!(s.len(), 0);

    s.advance(size);
    assert_eq!(s.head(), px(8, 7));
    assert_eq!(cells(&s.rasterize(size)), vec![(7, 5), (8, 5), (8, 6)]);
}

#[test]
fn food_growth_then_rasterize() {
    let size = px(20, 20);
    let mut s = Snake::new(px(5, 5));
    s.grow();
    assert_eq!(s.head(), px(5, 5));
    s.advance(size);
    assert_eq!(s.len(), 1);
    let r = s.rasterize(size);
    assert_eq!(count(&r), 4);
    assert_eq!(cells(&r), vec![(2, 5), (3, 5), (4, 5), (5, 5)]);
}

#[test]
fn reversal_rejected() {
    let size = px(20, 20);
    let mut s = Snake::new(px(5, 5));
    s.turn(Direction::Left);
    s.advance(size);
    assert_eq!(s.head(), px(6, 5));
    assert_eq!(cells(&s.rasterize(size)), vec![(3, 5), (4, 5), (5, 5)]);
    s.turn(Direction::Right);
    s.advance(size);
    assert_eq!(s.head(), px(7, 5));
}

#[test]
fn length_kept_through_turns() {
    let size = px(20, 20);
    let mut s = Snake::new(px(5, 5));
    let turns = [
        Direction::Up,
        Direction::Left,
        Direction::Left,
        Direction::Down,
        Direction::Right,
        Direction::Up,
        Direction::Right,
        Direction::Down,
    ];
    for d in turns {
        s.turn(d);
        s.advance(size);
        assert_eq!(s.len(), 0);
        let r = s.rasterize(size);
        assert_eq!(count(&r), (INITIAL_LENGTH - 1) as usize);
    }
}

#[test]
fn grow_adds_one_and_keeps_head() {
    let size = px(30, 30);
    let mut s = Snake::new(px(10, 10));
    s.turn(Direction::Up);
    s.advance(size);
    for i in 1..=5u16 {
        let head = s.head();
        s.grow();
        assert_eq!(s.len(), i);
        assert_eq!(s.head(), head);
        s.advance(size);
        assert_eq!(count(&s.rasterize(size)), (s.len() + INITIAL_LENGTH - 1) as usize);
    }
}

#[test]
fn grow_on_bent_body_lengthens_the_tail() {
    let size = px(20, 20);
    let mut s = Snake::new(px(5, 5));
    s.turn(Direction::Down);
    s.advance(size);
    s.grow();
    assert_eq!(s.len(), 1);
    assert_eq!(cells(&s.rasterize(size)), vec![(2, 5), (3, 5), (4, 5), (5, 5)]);
}

#[test]
fn rasterize_wraps_across_the_edge() {
    let size = px(9, 9);
    let s = Snake::new(px(1, 0));
    assert_eq!(cells(&s.rasterize(size)), vec![(0, 0), (8, 0), (9, 0)]);
    let mut t = Snake::new(px(9, 0));
    t.advance(size);
    assert_eq!(t.head(), px(0, 0));
    assert_eq!(cells(&t.rasterize(size)), vec![(7, 0), (8, 0), (9, 0)]);
}

#[test]
fn rasterize_rows_are_ordered() {
    let size = px(20, 20);
    let mut s = Snake::new(px(5, 5));
    s.turn(Direction::Up);
    s.advance(size);
    s.advance(size);
    let r = s.rasterize(size);
    let row: Vec<u16> = r.get(&5).unwrap().iter().copied().collect();
    assert_eq!(row, vec![4, 5]);
    assert_eq!(r.get(&4).unwrap().len(), 1);
    assert_eq!(r.len(), 2);
}

#[test]
fn overlapping_body_counts_cells_once() {
    let size = px(0, 0);
    let s = Snake::new(px(0, 0));
    assert_eq!(cells(&s.rasterize(size)), vec![(0, 0)]);
}

#[test]
fn is_in_reports_occupied_cells() {
    let size = px(20, 20);
    let s = Snake::new(px(5, 5));
    let r = s.rasterize(size);
    assert!(px(4, 5).is_in(&r));
    assert!(px(2, 5).is_in(&r));
    assert!(!px(5, 5).is_in(&r));
    assert!(!px(1, 5).is_in(&r));
    assert!(!px(4, 6).is_in(&r));
}

#[test]
fn head_collides_after_a_loop() {
    let size = px(20, 20);
    let mut s = Snake::new(px(5, 5));
    for _ in 0..3 {
        s.grow();
    }
    s.turn(Direction::Down);
    s.advance(size);
    s.turn(Direction::Left);
    s.advance(size);
    s.turn(Direction::Up);
    s.advance(size);
    assert_eq!(s.head(), px(4, 5));
    assert!(s.head().is_in(&s.rasterize(size)));
}

#[test]
fn from_seed_takes_remainders() {
    assert_eq!(Pixel::from_seed(1_234_567_891, 1_234, px(10, 7)), px(1, 2));
    assert_eq!(Pixel::from_seed(0, 0, px(3, 3)), px(0, 0));
}

#[test]
fn randomize_stays_inside() {
    let size = px(7, 3);
    for _ in 0..50 {
        let p = Pixel::randomize(size);
        assert!(p.x < size.x && p.y < size.y);
    }
}

#[test]
fn generate_game_places_inside() {
    let size = px(12, 9);
    let (s, food) = generate_game(size);
    assert!(s.head().x < 12 && s.head().y < 9);
    assert!(food.x < 12 && food.y < 9);
    assert_eq!(s.len(), 0);
}

#[test]
fn adjust_term_size_halves_columns() {
    assert_eq!(adjust_term_size(80, 24), px(39, 23));
    assert_eq!(adjust_term_size(1, 1), px(0, 0));
}
