use sdrr::utils::add_commas;

#[test]
fn commas_group_thousands() {
    assert_eq!(add_commas(0), "0");
    assert_eq!(add_commas(999), "999");
    assert_eq!(add_commas(1000), "1,000");
    assert_eq!(add_commas(12345), "12,345");
    assert_eq!(add_commas(1234567), "1,234,567");
    assert_eq!(add_commas(u64::MAX), "18,446,744,073,709,551,615");
}

#[test]
fn commas_removed_give_decimal() {
    for n in [0u64, 7, 100, 4096, 65536, 1_000_000, 987_654_321] {
        assert_eq!(add_commas(n).replace(',', ""), n.to_string());
    }
}
