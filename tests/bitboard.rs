use shogi_core::{Bitboard, Square};

fn sq(file: u8, rank: u8) -> Square {
    Square::new(file, rank).unwrap()
}

// '.': vacant, '*': occupied
fn from_strs(a: [&[u8; 9]; 9]) -> Bitboard {
    let mut result = Bitboard::empty();
    for rank in 1..=9 {
        for file in 1..=9 {
            if a[rank - 1][9 - file] == b'*' {
                result = result.or(Bitboard::single(sq(file as u8, rank as u8)));
            } else {
                assert_eq!(a[rank - 1][9 - file], b'.');
            }
        }
    }
    result
}

const INIT: [&[u8; 9]; 9] = [
    b"*.....***",
    b".......**",
    b"....*..**",
    b"*...*...*",
    b".........",
    b"*.*.*...*",
    b"**.......",
    b"***......",
    b"***....**",
];

#[test]
fn contains_works() {
    for file in 1..=9 {
        for rank in 1..=9 {
            let s = sq(file, rank);
            assert!(Bitboard::single(s).contains(s));
            for ofile in 1..=9 {
                for orank in 1..=9 {
                    let os = sq(ofile, orank);
                    assert_eq!(Bitboard::single(s).contains(os), s == os);
                }
            }
        }
    }
}

#[test]
fn bitboard_flip_works() {
    for file in 1..=9 {
        for rank in 1..=9 {
            let s = sq(file, rank);
            assert_eq!(Bitboard::single(s).flip(), Bitboard::single(s.flip()));
        }
    }
}

#[test]
fn pop_works() {
    for square in Square::all() {
        let mut bitboard = Bitboard::single(square);
        assert_eq!(bitboard.pop(), Some(square));
        assert!(bitboard.is_empty());
    }
    for sq1 in Square::all() {
        for sq2 in Square::all() {
            if sq1 == sq2 {
                continue;
            }
            let mut bitboard = Bitboard::single(sq1) | Bitboard::single(sq2);
            let result1 = bitboard.pop().unwrap();
            let result2 = bitboard.pop().unwrap();
            assert!((result1, result2) == (sq1, sq2) || (result1, result2) == (sq2, sq1));
            assert!(bitboard.is_empty());
        }
    }
}

#[test]
fn from_file_works() {
    for file in 1..=9 {
        for pattern in 0..512u16 {
            let result = Bitboard::from_file_unchecked(file, pattern);
            let mut inner = 0;
            for rank in 1..=9 {
                if result.contains(sq(file, rank)) {
                    inner |= 1 << (rank - 1);
                }
            }
            assert_eq!(pattern, inner);
            assert_eq!(result.count() as u32, pattern.count_ones());
            assert_eq!(result.get_file_unchecked(file), pattern);
        }
    }
}

#[test]
fn shift_down_works() {
    let init = from_strs(INIT);
    assert_eq!(init.shift_down(0), init);
    for i in 0..=9 {
        let mut expected = [b"........."; 9];
        expected[i..].copy_from_slice(&INIT[..9 - i]);
        let expected = from_strs(expected);
        let result = init.shift_down(i as u8);
        assert_eq!(result, expected);
    }
}

#[test]
fn shift_up_works() {
    let init = from_strs(INIT);
    assert_eq!(init.shift_up(0), init);
    for i in 0..=9 {
        let mut expected = [b"........."; 9];
        expected[..9 - i].copy_from_slice(&INIT[i..]);
        let expected = from_strs(expected);
        let result = init.shift_up(i as u8);
        assert_eq!(result, expected);
    }
}

#[test]
fn shift_left_works() {
    let init = from_strs([
        b"*.....***",
        b".......**",
        b"....*..**",
        b"*...*...*",
        b".........",
        b"*.*.*...*",
        b"**.......",
        b"****.....",
        b"***....**",
    ]);
    let result = init.shift_left(3);
    let expected = from_strs([
        b"...***...",
        b"....**...",
        b".*..**...",
        b".*...*...",
        b".........",
        b".*...*...",
        b".........",
        b"*........",
        b"....**...",
    ]);
    assert_eq!(result, expected);
    assert_eq!(init.shift_left(0), init);
    for i in 0..=9 {
        let result = init.shift_left(i);
        assert_eq!(result, result);
    }
}

#[test]
fn shift_right_works() {
    let init = from_strs(INIT);
    let result = init.shift_right(3);
    let expected = from_strs([
        b"...*.....",
        b".........",
        b".......*.",
        b"...*...*.",
        b".........",
        b"...*.*.*.",
        b"...**....",
        b"...***...",
        b"...***...",
    ]);
    assert_eq!(result, expected);
    assert_eq!(init.shift_right(0), init);
    for i in 0..=9 {
        let result = init.shift_right(i);
        assert_eq!(result, result);
    }
}

#[test]
fn shift_right_keeps_representation_valid() {
    // squares 1A of file 8 and 9 cross the word boundary when shifted right
    let b = Bitboard::single(sq(8, 1)).or(Bitboard::single(sq(9, 1)));
    assert_eq!(b.shift_right(0), b);
    assert_eq!(b.shift_right(1), Bitboard::single(sq(7, 1)).or(Bitboard::single(sq(8, 1))));
    assert_eq!(b.shift_right(1).count(), 2);
    assert_eq!(b.shift_right(8), Bitboard::single(sq(1, 1)));
    assert_eq!(b.shift_right(9), Bitboard::empty());
    assert_eq!(Bitboard::single(sq(1, 5)).shift_left(8), Bitboard::single(sq(9, 5)));
    assert_eq!(Bitboard::single(sq(7, 5)).shift_left(1), Bitboard::single(sq(8, 5)));
}

#[test]
fn shift_down_then_up_restores_rows_kept() {
    let init = from_strs(INIT);
    for d in 0..=9u8 {
        let back = init.shift_down(d).shift_up(d);
        let mut kept = Bitboard::empty();
        for s in Square::all() {
            if init.contains(s) && s.rank() + d <= 9 {
                kept = kept.or(Bitboard::single(s));
            }
        }
        assert_eq!(back, kept);
        let back = init.shift_up(d).shift_down(d);
        let mut kept = Bitboard::empty();
        for s in Square::all() {
            if init.contains(s) && s.rank() > d {
                kept = kept.or(Bitboard::single(s));
            }
        }
        assert_eq!(back, kept);
    }
}

#[test]
fn flip_twice_is_identity() {
    let init = from_strs(INIT);
    assert_eq!(init.flip().flip(), init);
    assert_eq!(Bitboard::single(sq(1, 1)).flip(), Bitboard::single(sq(9, 9)));
    assert_eq!(init.flip().count(), init.count());
}

#[test]
fn pop_all_yields_distinct_members() {
    let init = from_strs(INIT);
    let n = init.count();
    assert_eq!(n, 26);
    let mut b = init;
    let mut seen = Vec::new();
    for _ in 0..n {
        let s = b.pop().unwrap();
        assert!(init.contains(s));
        assert!(!seen.contains(&s));
        seen.push(s);
    }
    assert!(b.is_empty());
    assert_eq!(b.pop(), None);
    assert_eq!(b, Bitboard::empty());
    // the least index comes first
    assert_eq!(seen[0], sq(1, 1));
}

#[test]
fn boolean_algebra_works() {
    let a = Bitboard::single(sq(1, 1)).or(Bitboard::single(sq(5, 5)));
    let b = Bitboard::single(sq(5, 5)).or(Bitboard::single(sq(9, 9)));
    assert_eq!(a.and(b), Bitboard::single(sq(5, 5)));
    assert_eq!(a.xor(b), Bitboard::single(sq(1, 1)).or(Bitboard::single(sq(9, 9))));
    assert_eq!(a.andnot(b), Bitboard::single(sq(9, 9)));
    assert_eq!(Bitboard::empty().not().count(), 81);
    assert_eq!((!Bitboard::empty()).count(), 81);
    assert_eq!(a & b, a.and(b));
    assert_eq!(a ^ b, a.xor(b));
    assert_eq!(!a, a.not());
    assert_eq!(a.not().count(), 79);
    assert!(!a.not().contains(sq(1, 1)));
    assert!(Bitboard::empty().is_empty());
    assert!(!a.is_empty());
    assert_eq!(a.count(), 2);
}

#[test]
fn u128_and_byte_swap_round_trip() {
    let init = from_strs(INIT);
    let r = init.to_u128();
    assert_eq!(Bitboard::from_u128_unchecked(r), init);
    assert_eq!(Bitboard::single(sq(1, 1)).to_u128(), 1);
    assert_eq!(Bitboard::single(sq(9, 9)).to_u128(), 1u128 << 81);
    let swapped = init.swap_bytes();
    assert_ne!(swapped.to_u128(), r);
    assert_eq!(swapped.to_u128(), r.swap_bytes());
    assert_eq!(swapped.swap_bytes(), init);
    let other = Bitboard::single(sq(3, 3)).swap_bytes();
    assert_eq!(swapped.or(other).swap_bytes(), init.or(Bitboard::single(sq(3, 3))));
    assert_eq!(swapped.and(other).swap_bytes(), Bitboard::empty());
    assert_eq!(swapped.xor(swapped).swap_bytes(), Bitboard::empty());
    assert_eq!(other.andnot(swapped).swap_bytes(), init);
}
