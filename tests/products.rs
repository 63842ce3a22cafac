use cartesian::cartesian::{cartesian1, cartesian2, cartesian3, cartesian_with, Product};
use cartesian::product::Pairs;
use cartesian::TuplePrepend;

#[test]
fn two_combination() {
    let mut acc = String::new();

    for (a, b) in cartesian2(vec![0, 1], "xy".chars().collect()) {
        acc += &format!("{}{} ", a, b);
    }

    assert_eq!(acc, "0x 0y 1x 1y ");
}

#[test]
fn binary_numbers() {
    let mut acc = String::new();

    let range: Vec<i32> = (0..2).collect();
    let vec = vec![0, 1];
    let string = vec![String::from("0"), String::from("1")];

    for (a, b, c) in cartesian3(range, vec.iter().collect(), string.iter().collect()) {
        acc += &format!("{}{}{} ", a, b, c);
    }

    assert_eq!(acc, "000 001 010 011 100 101 110 111 ");
}

#[test]
fn trailing_commas() {
    let mut acc = String::new();

    for a in cartesian1((0..1).collect::<Vec<i32>>()) {
        acc += &format!("{} ", a);
    }

    for (a, b) in cartesian2((0..2).collect::<Vec<i32>>(), (0..2).collect::<Vec<i32>>()) {
        acc += &format!("{}{} ", a, b);
    }

    for (a, b, c) in cartesian3(
        (0..2).collect::<Vec<i32>>(),
        (0..2).collect::<Vec<i32>>(),
        (0..2).collect::<Vec<i32>>(),
    ) {
        acc += &format!("{}{}{} ", a, b, c);
    }

    assert_eq!(acc, "0 00 01 10 11 000 001 010 011 100 101 110 111 ");
}

#[test]
fn by_reference() {
    let mut acc = String::new();

    let outer = vec![String::from("a"), String::from("b")];
    let inner = vec![String::from("0"), String::from("1")];

    for (a, b) in cartesian2(outer.iter().collect(), inner.iter().collect()) {
        acc += &format!("{}{} ", a, b);
    }

    assert_eq!(acc, "a0 a1 b0 b1 ");
}

#[test]
fn by_reference_matches_by_value() {
    let outer = vec![1u8, 2];
    let inner = vec!['p', 'q', 'r'];
    let by_value = cartesian2(outer.clone(), inner.clone());
    let by_ref: Vec<(u8, char)> = cartesian2(outer.iter().collect(), inner.iter().collect())
        .into_iter()
        .map(|(a, b)| (*a, *b))
        .collect();
    assert_eq!(by_value, by_ref);
}

#[test]
fn single_sequence_passes_through() {
    assert_eq!(cartesian1(vec![7u32, 3, 5]), vec![7u32, 3, 5]);
    assert_eq!(cartesian1(Vec::<u32>::new()), Vec::<u32>::new());
}

#[test]
fn counts_multiply() {
    assert_eq!(cartesian2(vec![1u8, 2, 3], vec![4u8, 5]).len(), 6);
    assert_eq!(cartesian3(vec![1u8, 2], vec![3u8, 4, 5], vec![6u8, 7, 8, 9]).len(), 24);
}

#[test]
fn empty_sequence_empties_product() {
    assert!(cartesian2(Vec::<u8>::new(), vec![1u8, 2]).is_empty());
    assert!(cartesian2(vec![1u8, 2], Vec::<u8>::new()).is_empty());
    assert!(cartesian3(vec![1u8], Vec::<u8>::new(), vec![2u8]).is_empty());
    assert!(cartesian3(vec![1u8], vec![2u8], Vec::<u8>::new()).is_empty());
}

#[test]
fn triples_follow_nested_loops() {
    let a = vec![1u8, 2];
    let b = vec!['x', 'y', 'z'];
    let c = vec![true, false];
    let mut expected = Vec::new();
    for x in &a {
        for y in &b {
            for z in &c {
                expected.push((*x, *y, *z));
            }
        }
    }
    assert_eq!(cartesian3(a, b, c), expected);
}

#[test]
fn four_sequences_compose() {
    let r = cartesian_with(vec![0u8, 1], cartesian3(vec![0u8, 1], vec![0u8, 1], vec![0u8, 1]));
    assert_eq!(r.len(), 16);
    assert_eq!(r[0], (0, 0, 0, 0));
    assert_eq!(r[5], (0, 1, 0, 1));
    assert_eq!(r[10], (1, 0, 1, 0));
    assert_eq!(r[15], (1, 1, 1, 1));
}

#[test]
fn pairs_cursor_is_lazy_and_ends() {
    let mut p = Pairs::new(vec![1u8, 2], vec!['a']);
    assert_eq!(p.next(), Some((1, 'a')));
    assert_eq!(p.next(), Some((2, 'a')));
    assert_eq!(p.next(), None);
    assert_eq!(p.next(), None);
}

#[test]
fn product_cursor_flattens() {
    let mut p = Product::new(vec![9u8], vec![(1u8, 'a'), (2u8, 'b')]);
    assert_eq!(p.next(), Some((9, 1, 'a')));
    assert_eq!(p.next(), Some((9, 2, 'b')));
    assert_eq!(p.next(), None);
}

#[test]
fn prepend_puts_value_first() {
    assert_eq!(().prepend(1u8), (1u8,));
    assert_eq!((2u8,).prepend('a'), ('a', 2u8));
    assert_eq!((1u8, 'b', true).prepend(0i64), (0i64, 1u8, 'b', true));
    let t25 = (
        1u8, 2u8, 3u8, 4u8, 5u8, 6u8, 7u8, 8u8, 9u8, 10u8, 11u8, 12u8, 13u8, 14u8, 15u8, 16u8, 17u8,
        18u8, 19u8, 20u8, 21u8, 22u8, 23u8, 24u8, 25u8,
    );
    let r = t25.prepend(0u8);
    assert_eq!(r.0, 0);
    assert_eq!(r.1, 1);
    assert_eq!(r.25, 25);
}

#[test]
fn prepend_round_trip() {
    let t = (3u16, 'k', false);
    let (first, a, b, c) = t.prepend(42u32);
    assert_eq!(first, 42u32);
    assert_eq!((a, b, c), t);
}
