use xlsx_import::range::{cell_index_to_offsets, is_valid_address, offsets_to_address, Range};

#[test]
fn cell_to_offsets_test() {
    assert_eq!(cell_index_to_offsets(String::from("A24")), (0, 23));
    assert_eq!(cell_index_to_offsets(String::from("AB1")), (27, 0));
    assert_eq!(cell_index_to_offsets(String::from("ZZ100")), (701, 99));
}

#[test]
fn offsets_to_address_writes_canonical_addresses() {
    assert_eq!(offsets_to_address(0, 23), "A24");
    assert_eq!(offsets_to_address(27, 0), "AB1");
    assert_eq!(offsets_to_address(701, 99), "ZZ100");
    assert_eq!(offsets_to_address(25, 0), "Z1");
    assert_eq!(offsets_to_address(26, 9), "AA10");
}

#[test]
fn merged_range_decodes_to_corners() {
    let range = Range::new(String::from("B2:D4"));
    assert_eq!(range.first, (1, 1));
    assert_eq!(range.last, (3, 3));
    assert_eq!(range.get_max_offsets(), (4, 4));
}

#[test]
fn addresses_round_trip_through_their_canonical_text() {
    for (column, row) in [(0u32, 0u32), (25, 8), (26, 9), (701, 99), (702, 100), (16383, 1048575)] {
        let address = offsets_to_address(column, row);
        assert!(is_valid_address(&address));
        assert_eq!(cell_index_to_offsets(address), (column, row));
    }
    for address in ["A1", "Z9", "AA10", "XFD1048576", "ZZZ999"] {
        let (column, row) = cell_index_to_offsets(String::from(address));
        assert_eq!(offsets_to_address(column, row), address);
    }
}

#[test]
fn the_last_column_that_an_address_can_name() {
    assert_eq!(offsets_to_address(4294967294, 4294967294), "MWLQKWU4294967295");
    assert_eq!(
        cell_index_to_offsets(String::from("MWLQKWU4294967295")),
        (4294967294, 4294967294)
    );
    assert!(!is_valid_address("MWLQKWV1"));
    assert!(!is_valid_address("A4294967296"));
    assert_eq!(offsets_to_address(4294967295, 4294967295), "MWLQKWV4294967296");
}

#[test]
fn leading_zeros_of_a_row_are_read() {
    assert_eq!(cell_index_to_offsets(String::from("B007")), (1, 6));
}

#[test]
fn ill_formed_addresses_are_told_apart() {
    for address in ["", "A", "1", "1A", "a1", "A0", "A1B", "A-1", "A 1", "A1:B2", "\u{c4}1", "A\u{661}"] {
        assert!(!is_valid_address(address), "{}", address);
    }
    for address in ["A1", "AB12", "ZZ100", "A01"] {
        assert!(is_valid_address(address), "{}", address);
    }
}

#[test]
fn ranges_take_their_first_two_addresses() {
    let range = Range::parse("A1:C3:E5").unwrap();
    assert_eq!((range.first, range.last), ((0, 0), (2, 2)));
    assert!(Range::parse("A1").is_none());
    assert!(Range::parse("A1:").is_none());
    assert!(Range::parse(":A1").is_none());
    assert!(Range::parse("A1:b2").is_none());
    assert!(Range::parse("").is_none());
}
