use worktree_cleaner::size::{Amount, format_size};

#[test]
fn an_amount_with_nothing_to_report_has_no_label() {
    assert_eq!(Amount::default().label(), None);
}

#[test]
fn an_amount_sums_known_sizes() {
    let mut amount = Amount::default();
    amount.add(Some(1024));
    amount.add(Some(512));

    assert_eq!(amount.label().as_deref(), Some("1.5 KB"));
}

#[test]
fn an_amount_with_a_pending_size_is_reported_as_a_lower_bound() {
    let mut amount = Amount::default();
    amount.add(Some(1024));
    amount.add(None); // still being computed

    assert_eq!(amount.label().as_deref(), Some(">= 1.0 KB"));
}

#[test]
fn an_amount_of_only_pending_sizes_still_reports_a_lower_bound() {
    let mut amount = Amount::default();
    amount.add(None);

    assert_eq!(amount.label().as_deref(), Some(">= 0 B"));
}

#[test]
fn formats_sizes_human_readably() {
    assert_eq!(format_size(0), "0 B");
    assert_eq!(format_size(512), "512 B");
    assert_eq!(format_size(1024), "1.0 KB");
    assert_eq!(format_size(1536), "1.5 KB");
    assert_eq!(format_size(1024 * 1024), "1.0 MB");
    assert_eq!(format_size(5 * 1024 * 1024 * 1024), "5.0 GB");
}

#[test]
fn whole_bytes_are_shown_below_one_kilobyte() {
    assert_eq!(format_size(1), "1 B");
    assert_eq!(format_size(1023), "1023 B");
}

#[test]
fn halfway_tenths_round_to_the_even_digit() {
    // 1280 B is exactly 1.25 KB and 3840 B exactly 3.75 KB.
    assert_eq!(format_size(1280), "1.2 KB");
    assert_eq!(format_size(3840), "3.8 KB");
    assert_eq!(format_size(1331), "1.3 KB");
}

#[test]
fn a_value_just_below_the_next_unit_stays_in_the_smaller_one() {
    assert_eq!(format_size(1024 * 1024 - 1), "1024.0 KB");
}

#[test]
fn terabytes_are_the_largest_unit() {
    assert_eq!(format_size(1024u64.pow(4)), "1.0 TB");
    assert_eq!(format_size(1024u64.pow(5)), "1024.0 TB");
    assert_eq!(format_size(u64::MAX), "16777216.0 TB");
}

#[test]
fn an_amount_saturates_instead_of_overflowing() {
    let mut amount = Amount::new(u64::MAX, false);
    amount.add(Some(1));
    assert_eq!(amount.known_bytes(), u64::MAX);
    assert!(!amount.partial());
}

#[test]
fn an_amount_records_known_bytes_and_the_partial_flag() {
    let mut amount = Amount::new(10, false);
    amount.add(Some(5));
    assert_eq!(amount.known_bytes(), 15);
    assert!(!amount.partial());
    amount.add(None);
    assert_eq!(amount.known_bytes(), 15);
    assert!(amount.partial());
    assert_eq!(amount.label().as_deref(), Some(">= 15 B"));
}
