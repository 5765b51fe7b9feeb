use ssl_manager::dns::utils::rfind::RFindNth;

#[test]
fn rfind_nth_counts_from_the_end() {
    assert_eq!("a.b.c".rfind_nth('.', 0), Some(3));
    assert_eq!("a.b.c".rfind_nth('.', 1), Some(1));
    assert_eq!("a.b.c".rfind_nth('.', 2), None);
}

#[test]
fn rfind_nth_without_needle() {
    assert_eq!("localhost".rfind_nth('.', 0), None);
    assert_eq!("".rfind_nth('.', 0), None);
}

#[test]
fn rfind_nth_returns_byte_offsets() {
    // 'é' takes two bytes and '€' three in UTF-8.
    assert_eq!("é.x.y".rfind_nth('.', 1), Some(2));
    assert_eq!("€€.y".rfind_nth('.', 0), Some(6));
    assert_eq!("a€b€c".rfind_nth('€', 0), Some(5));
    assert_eq!("a€b€c".rfind_nth('€', 1), Some(1));
}

#[test]
fn rfind_nth_adjacent_needles() {
    assert_eq!("a..b".rfind_nth('.', 0), Some(2));
    assert_eq!("a..b".rfind_nth('.', 1), Some(1));
    assert_eq!("...".rfind_nth('.', 2), Some(0));
}

#[test]
fn rfind_nth_moves_left_as_n_grows() {
    let s = "a.b€.c.d";
    let mut last = usize::MAX;
    for n in 0..3 {
        let i = s.rfind_nth('.', n).unwrap();
        assert!(i < last);
        last = i;
    }
    assert_eq!(s.rfind_nth('.', 3), None);
    assert_eq!(s.rfind_nth('.', 4), None);
}

#[test]
fn rfind_nth_zero_is_rfind() {
    for s in ["a.b.c", "", "abc", "é.x€.y", "...", "€"] {
        for c in ['.', '€', 'a', 'z'] {
            assert_eq!(s.rfind_nth(c, 0), s.rfind(c));
        }
    }
}
