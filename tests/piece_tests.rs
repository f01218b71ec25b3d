use tetris::piece::{create_piece, rotate_piece, Piece};

fn snapshot(p: &Piece) -> ([[i32; 2]; 4], [usize; 4], i32) {
    (p.points, p.reach, p.rotation)
}

#[test]
fn catalog_holds_five_shapes() {
    for id in 0..5u8 {
        let p = create_piece(id).unwrap();
        assert_eq!(p.id, id);
        assert_eq!(p.rotation, 0);
    }
    assert!(create_piece(5).is_none());
    assert!(create_piece(255).is_none());
}

#[test]
fn catalog_line_shape() {
    let p = create_piece(0).unwrap();
    assert_eq!(p.points, [[-1, 0], [0, 0], [1, 0], [2, 0]]);
    assert_eq!(p.reach, [1, 0, 3, 1]);
}

#[test]
fn catalog_square_shape() {
    let p = create_piece(4).unwrap();
    assert_eq!(p.points, [[0, 0], [1, 0], [0, 1], [1, 1]]);
    assert_eq!(p.reach, [0, 0, 2, 2]);
}

#[test]
fn clockwise_turn_of_line() {
    let mut p = create_piece(0).unwrap();
    rotate_piece(&mut p, 1);
    assert_eq!(p.points, [[0, -1], [0, 0], [0, 1], [0, 2]]);
    assert_eq!(p.reach, [1, 1, 0, 3]);
    assert_eq!(p.rotation, 1);
}

#[test]
fn counter_clockwise_turn_of_line() {
    let mut p = create_piece(0).unwrap();
    rotate_piece(&mut p, -1);
    assert_eq!(p.points, [[0, 1], [0, 0], [0, -1], [0, -2]]);
    assert_eq!(p.reach, [0, 3, 1, 1]);
    assert_eq!(p.rotation, 3);
}

#[test]
fn clockwise_turn_of_s_shape() {
    let mut p = create_piece(1).unwrap();
    rotate_piece(&mut p, 1);
    assert_eq!(p.points, [[1, -1], [1, 0], [1, 1], [0, 0]]);
    assert_eq!(p.reach, [1, 1, 1, 2]);
}

#[test]
fn four_turns_each_way_give_back_the_piece() {
    for id in 0..4u8 {
        for dir in [1, -1] {
            let start = create_piece(id).unwrap();
            let mut p = start;
            for step in 0..4 {
                rotate_piece(&mut p, dir);
                if step < 3 {
                    assert_ne!(snapshot(&p), snapshot(&start));
                }
            }
            assert_eq!(snapshot(&p), snapshot(&start));
            assert_eq!(p, start);
        }
    }
}

#[test]
fn turn_and_turn_back_is_identity() {
    for id in 0..4u8 {
        let start = create_piece(id).unwrap();
        let mut p = start;
        rotate_piece(&mut p, 1);
        rotate_piece(&mut p, -1);
        assert_eq!(p, start);
        let mut q = start;
        rotate_piece(&mut q, -1);
        rotate_piece(&mut q, 1);
        assert_eq!(q, start);
    }
}
