use chess_attacks::dir::Dir;
use chess_attacks::square::{
    is_possible, Coordination, Squarable, A1, A2, A3, A7, A8, B3, B4, B6, B8, C1, C2, C3, D4, D6,
    E4, E8, F2, F8, G1, G3, G8, H1, H2, H7, H8,
};

const ALL_DIRS: [Dir; 16] = [
    Dir::Up,
    Dir::Down,
    Dir::Left,
    Dir::Right,
    Dir::UpLeft,
    Dir::UpRight,
    Dir::DownLeft,
    Dir::DownRight,
    Dir::HorseUpLeft,
    Dir::HorseUpRight,
    Dir::HorseRightUp,
    Dir::HorseRightDown,
    Dir::HorseDownRight,
    Dir::HorseDownLeft,
    Dir::HorseLeftDown,
    Dir::HorseLeftUp,
];

fn deltas(d: Dir) -> (i32, i32) {
    match d {
        Dir::Up => (0, 1),
        Dir::Down => (0, -1),
        Dir::Left => (-1, 0),
        Dir::Right => (1, 0),
        Dir::UpLeft => (-1, 1),
        Dir::UpRight => (1, 1),
        Dir::DownLeft => (-1, -1),
        Dir::DownRight => (1, -1),
        Dir::HorseUpLeft => (-1, 2),
        Dir::HorseUpRight => (1, 2),
        Dir::HorseRightUp => (2, 1),
        Dir::HorseRightDown => (2, -1),
        Dir::HorseDownRight => (1, -2),
        Dir::HorseDownLeft => (-1, -2),
        Dir::HorseLeftDown => (-2, -1),
        Dir::HorseLeftUp => (-2, 1),
    }
}

#[test]
fn coord() {
    let Coordination(file, rank) = B8.coord();

    assert_eq!(file, 1);
    assert_eq!(rank, 7);
}

#[test]
fn file() {
    assert_eq!(A7.file(), 0);
    assert_eq!(E4.file(), 4);
    assert_eq!(H2.file(), 7);
}

#[test]
fn rank() {
    assert_eq!(A1.rank(), 0);
    assert_eq!(C3.rank(), 2);
    assert_eq!(F8.rank(), 7);
}

#[test]
fn get() {
    assert_eq!(A2.get(&Dir::Left), None);
    assert_eq!(A2.get(&Dir::Up), Some(A3));
    assert_eq!(A2.get(&Dir::UpLeft), None);
    assert_eq!(A2.get(&Dir::UpRight), Some(B3));

    assert_eq!(A2.get(&Dir::HorseUpLeft), None);
    assert_eq!(B6.get(&Dir::HorseUpLeft), Some(A8));

    assert_eq!(H1.get(&Dir::HorseUpRight), None);
    assert_eq!(A2.get(&Dir::HorseUpRight), Some(B4));

    assert_eq!(G1.get(&Dir::HorseRightUp), None);
    assert_eq!(A2.get(&Dir::HorseRightUp), Some(C3));

    assert_eq!(G1.get(&Dir::HorseRightDown), None);
    assert_eq!(F8.get(&Dir::HorseRightDown), Some(H7));

    assert_eq!(C1.get(&Dir::HorseDownRight), None);
    assert_eq!(G3.get(&Dir::HorseDownRight), Some(H1));

    assert_eq!(C2.get(&Dir::HorseDownLeft), None);
    assert_eq!(E8.get(&Dir::HorseDownLeft), Some(D6));

    assert_eq!(H1.get(&Dir::HorseLeftDown), None);
    assert_eq!(C3.get(&Dir::HorseLeftDown), Some(A2));

    assert_eq!(G8.get(&Dir::HorseLeftUp), None);
    assert_eq!(H1.get(&Dir::HorseLeftUp), Some(F2));
}

#[test]
fn file_letters() {
    assert_eq!(A7.file_as_char(), 'A');
    assert_eq!(D4.file_as_char(), 'D');
    assert_eq!(H8.file_as_char(), 'H');
}

#[test]
fn every_step_matches_coordinates() {
    for s in 0u8..64 {
        let f = (s % 8) as i32;
        let r = (s / 8) as i32;
        for d in ALL_DIRS {
            let (df, dr) = deltas(d);
            let (nf, nr) = (f + df, r + dr);
            let expected = if (0..8).contains(&nf) && (0..8).contains(&nr) {
                Some((nr * 8 + nf) as u8)
            } else {
                None
            };
            assert_eq!(s.get(&d), expected, "square {} direction {:?}", s, d);
            assert_eq!(is_possible(s as i8, &d), expected.is_some());
        }
    }
}

#[test]
fn no_step_wraps_around_an_edge() {
    assert_eq!(A8.get(&Dir::HorseRightUp), None);
    assert_eq!(H2.get(&Dir::Right), None);
    assert_eq!(A3.get(&Dir::Left), None);
    assert_eq!(H7.get(&Dir::UpRight), None);
    assert_eq!(G3.get(&Dir::HorseRightUp), None);
}

#[test]
fn indices_off_the_board_are_impossible() {
    assert!(!is_possible(-1, &Dir::Up));
    assert!(!is_possible(64, &Dir::Down));
    assert!(!is_possible(i8::MIN, &Dir::Right));
    assert!(!is_possible(i8::MAX, &Dir::Left));
}

#[test]
fn orthogonal_neighbour_counts() {
    let orthogonal = [Dir::Up, Dir::Down, Dir::Left, Dir::Right];
    let count = |s: u8| orthogonal.iter().filter(|d| s.get(d).is_some()).count();
    assert_eq!(count(A1), 2);
    assert_eq!(count(H8), 2);
    assert_eq!(count(A8), 2);
    assert_eq!(count(H1), 2);
    assert_eq!(count(A3), 3);
    assert_eq!(count(C1), 3);
    assert_eq!(count(H7), 3);
    assert_eq!(count(E8), 3);
    assert_eq!(count(D4), 4);
    assert_eq!(count(B6), 4);
}

#[test]
fn knight_leaps_from_corner_and_centre() {
    let leaps = &ALL_DIRS[8..];
    let targets = |s: u8| -> Vec<u8> { leaps.iter().filter_map(|d| s.get(d)).collect() };
    let mut from_a1 = targets(A1);
    from_a1.sort();
    assert_eq!(from_a1, vec![C2, B3]);
    assert_eq!(targets(H8).len(), 2);
    assert_eq!(targets(D4).len(), 8);
    assert_eq!(targets(E4).len(), 8);
}
