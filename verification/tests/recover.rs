use wildcard_dns::address::Ipv4Address;
use wildcard_dns::outcome::{Error, LookupOutcome};
use wildcard_dns::recover::{
    names_loopback, parse_ipv4_by_reversed_split, parse_ipv4_by_split, parse_quad, recover,
};

fn texts(items: &[&str]) -> Vec<Vec<u8>> {
    items.iter().map(|t| t.as_bytes().to_vec()).collect()
}

fn resolved(a: u8, b: u8, c: u8, d: u8) -> LookupOutcome {
    LookupOutcome::Resolved(Ipv4Address::new(a, b, c, d))
}

fn unresolved(reason: Error) -> LookupOutcome {
    LookupOutcome::Unresolved(reason)
}

#[test]
fn quad_reads_four_octets_in_order() {
    let t = texts(&["192", "168", "0", "1"]);
    assert_eq!(parse_quad(&t[0], &t[1], &t[2], &t[3]), Ok(Ipv4Address::new(192, 168, 0, 1)));
}

#[test]
fn quad_reports_the_first_bad_octet() {
    let t = texts(&["1", "x", "999", "4"]);
    assert_eq!(parse_quad(&t[0], &t[1], &t[2], &t[3]), Err(Error::NonNumericOctet));
    let t = texts(&["1", "999", "x", "4"]);
    assert_eq!(parse_quad(&t[0], &t[1], &t[2], &t[3]), Err(Error::OctetOutOfRange));
}

#[test]
fn split_parse_needs_four_parts() {
    assert_eq!(parse_ipv4_by_split(&texts(&[])), Err(Error::TooFewLabels));
    assert_eq!(parse_ipv4_by_split(&texts(&["1", "2", "3"])), Err(Error::TooFewLabels));
    assert_eq!(parse_ipv4_by_reversed_split(&texts(&["1", "2", "3"])), Err(Error::TooFewLabels));
}

#[test]
fn split_parse_reads_the_last_four_parts() {
    assert_eq!(parse_ipv4_by_split(&texts(&["1", "2", "3", "4"])), Ok(Ipv4Address::new(1, 2, 3, 4)));
    assert_eq!(
        parse_ipv4_by_split(&texts(&["xxx", "9", "1", "2", "3", "4"])),
        Ok(Ipv4Address::new(1, 2, 3, 4))
    );
    assert_eq!(parse_ipv4_by_split(&texts(&["1", "2", "3", "4", "x"])), Err(Error::NonNumericOctet));
}

#[test]
fn reversed_split_parse_reads_the_first_four_parts_backwards() {
    assert_eq!(
        parse_ipv4_by_reversed_split(&texts(&["4", "3", "2", "1"])),
        Ok(Ipv4Address::new(1, 2, 3, 4))
    );
    assert_eq!(
        parse_ipv4_by_reversed_split(&texts(&["4", "3", "2", "1", "xxx", "9"])),
        Ok(Ipv4Address::new(1, 2, 3, 4))
    );
    assert_eq!(
        parse_ipv4_by_reversed_split(&texts(&["x", "4", "3", "2", "1"])),
        Err(Error::NonNumericOctet)
    );
}

#[test]
fn loopback_names() {
    assert!(names_loopback(&b"local".to_vec()));
    assert!(names_loopback(&b"localhost".to_vec()));
    assert!(!names_loopback(&b"localhos".to_vec()));
    assert!(!names_loopback(&b"locals".to_vec()));
    assert!(!names_loopback(&b"".to_vec()));
    assert!(!names_loopback(&b"LOCAL".to_vec()));
}

#[test]
fn recover_without_labels_has_too_few() {
    assert_eq!(recover(&texts(&[])), unresolved(Error::TooFewLabels));
}

#[test]
fn recover_reads_four_labels() {
    // The label next to the root domain comes first: this is 1.2.3.4.<root>.
    assert_eq!(recover(&texts(&["4", "3", "2", "1"])), resolved(1, 2, 3, 4));
    assert_eq!(recover(&texts(&["255", "0", "168", "192"])), resolved(192, 168, 0, 255));
}

#[test]
fn recover_reads_the_four_labels_next_to_the_root() {
    assert_eq!(recover(&texts(&["4", "3", "2", "1", "www", "9"])), resolved(1, 2, 3, 4));
}

#[test]
fn recover_falls_through_from_labels_to_hyphens() {
    // 1.2.3.9-8-7-6.<root>: the four labels are no address, the nearest label is.
    assert_eq!(recover(&texts(&["9-8-7-6", "3", "2", "1"])), resolved(9, 8, 7, 6));
}

#[test]
fn recover_reads_a_hyphenated_label() {
    assert_eq!(recover(&texts(&["1-2-3-4"])), resolved(1, 2, 3, 4));
    assert_eq!(recover(&texts(&["0-0-0-0"])), resolved(0, 0, 0, 0));
    assert_eq!(recover(&texts(&["255-255-255-255"])), resolved(255, 255, 255, 255));
}

#[test]
fn recover_reads_the_last_four_parts_of_a_longer_label() {
    assert_eq!(recover(&texts(&["ip-10-0-0-1"])), resolved(10, 0, 0, 1));
    assert_eq!(recover(&texts(&["192.168.1-2-3-4"])), unresolved(Error::TooFewLabels));
    assert_eq!(recover(&texts(&["xxx-1-2-3-4"])), resolved(1, 2, 3, 4));
}

#[test]
fn recover_reads_only_the_label_next_to_the_root_for_hyphens() {
    assert_eq!(recover(&texts(&["1-2-3-4", "www"])), resolved(1, 2, 3, 4));
    assert_eq!(recover(&texts(&["www", "1-2-3-4"])), unresolved(Error::TooFewLabels));
}

#[test]
fn recover_reads_a_reversed_label_when_forward_fails() {
    assert_eq!(recover(&texts(&["4-3-2-1-xxx"])), resolved(1, 2, 3, 4));
    assert_eq!(recover(&texts(&["4-3-2-1-"])), resolved(1, 2, 3, 4));
    assert_eq!(recover(&texts(&["4-3-2-1-999"])), resolved(1, 2, 3, 4));
}

#[test]
fn recover_prefers_forward_to_reverse() {
    assert_eq!(recover(&texts(&["4-3-2-1"])), resolved(4, 3, 2, 1));
    assert_eq!(recover(&texts(&["1-1-1-1"])), resolved(1, 1, 1, 1));
    assert_eq!(recover(&texts(&["1-2-3-4-5"])), resolved(2, 3, 4, 5));
}

#[test]
fn recover_accepts_leading_zeros() {
    assert_eq!(recover(&texts(&["001-002-003-004"])), resolved(1, 2, 3, 4));
    assert_eq!(recover(&texts(&["04", "03", "02", "01"])), resolved(1, 2, 3, 4));
}

#[test]
fn recover_knows_the_loopback_aliases() {
    assert_eq!(recover(&texts(&["local"])), resolved(127, 0, 0, 1));
    assert_eq!(recover(&texts(&["localhost"])), resolved(127, 0, 0, 1));
    assert_eq!(recover(&texts(&["local", "www"])), resolved(127, 0, 0, 1));
    assert_eq!(recover(&texts(&["localhost", "c", "b", "a"])), resolved(127, 0, 0, 1));
}

#[test]
fn recover_takes_aliases_literally() {
    assert_eq!(recover(&texts(&["LOCAL"])), unresolved(Error::TooFewLabels));
    assert_eq!(recover(&texts(&["localhost1"])), unresolved(Error::TooFewLabels));
    assert_eq!(recover(&texts(&["www", "local"])), unresolved(Error::TooFewLabels));
}

#[test]
fn recover_reports_too_few_labels_below_four() {
    assert_eq!(recover(&texts(&["foo"])), unresolved(Error::TooFewLabels));
    assert_eq!(recover(&texts(&["bogus"])), unresolved(Error::TooFewLabels));
    assert_eq!(recover(&texts(&["1-2-3"])), unresolved(Error::TooFewLabels));
    assert_eq!(recover(&texts(&["3", "2", "1"])), unresolved(Error::TooFewLabels));
    assert_eq!(recover(&texts(&[""])), unresolved(Error::TooFewLabels));
}

#[test]
fn recover_falls_through_on_an_octet_above_255() {
    assert_eq!(recover(&texts(&["1-2-3-999"])), unresolved(Error::TooFewLabels));
    assert_eq!(recover(&texts(&["256-1-1-1"])), unresolved(Error::TooFewLabels));
    assert_eq!(recover(&texts(&["1-2-3-256", "www"])), unresolved(Error::TooFewLabels));
}

#[test]
fn recover_falls_through_on_an_empty_part() {
    assert_eq!(recover(&texts(&["1--2-3-4"])), unresolved(Error::TooFewLabels));
    assert_eq!(recover(&texts(&["1-2-3-"])), unresolved(Error::TooFewLabels));
}

#[test]
fn recover_reports_the_octet_that_stopped_the_labels() {
    assert_eq!(recover(&texts(&["x", "3", "2", "1"])), unresolved(Error::NonNumericOctet));
    assert_eq!(recover(&texts(&["999", "3", "2", "1"])), unresolved(Error::OctetOutOfRange));
    assert_eq!(recover(&texts(&["x", "3", "2", "256"])), unresolved(Error::OctetOutOfRange));
    assert_eq!(recover(&texts(&["256", "3", "2", "x"])), unresolved(Error::NonNumericOctet));
    assert_eq!(recover(&texts(&["4", "3", "2", "+1"])), unresolved(Error::NonNumericOctet));
}

#[test]
fn recover_reports_the_octet_that_stopped_the_reverse_reading() {
    // Four labels, and the nearest has five parts: forward stops at `x`,
    // reverse at `999`, which is reported.
    assert_eq!(
        recover(&texts(&["999-1-2-3-x", "3", "2", "1"])),
        unresolved(Error::OctetOutOfRange)
    );
    // With fewer than four parts in the nearest label the labels decide.
    assert_eq!(recover(&texts(&["1-2-999", "3", "2", "1"])), unresolved(Error::NonNumericOctet));
}

#[test]
fn recover_refuses_a_label_that_is_not_text() {
    assert_eq!(recover(&vec![vec![0xffu8]]), unresolved(Error::EncodingError));
    assert_eq!(recover(&vec![vec![b'1', b'-', b'2', b'-', b'3', b'-', b'4', 0xc3]]), unresolved(Error::EncodingError));
    assert_eq!(recover(&vec![vec![0xc0u8, 0x80u8]]), unresolved(Error::EncodingError));
}

#[test]
fn recover_refuses_any_of_the_four_nearest_labels_that_is_not_text() {
    let mut labels = texts(&["1-2-3-4", "x", "y", "z"]);
    labels[3] = vec![0xff];
    assert_eq!(recover(&labels), unresolved(Error::EncodingError));
    let mut labels = texts(&["4", "3", "2", "1"]);
    labels[1] = vec![0x80];
    assert_eq!(recover(&labels), unresolved(Error::EncodingError));
}

#[test]
fn recover_does_not_read_labels_beyond_the_four_nearest() {
    let mut labels = texts(&["4", "3", "2", "1", "far"]);
    labels[4] = vec![0xff];
    assert_eq!(recover(&labels), resolved(1, 2, 3, 4));
    let mut labels = texts(&["1-2-3-4", "far"]);
    labels[1] = vec![0xff];
    assert_eq!(recover(&labels), resolved(1, 2, 3, 4));
}

#[test]
fn recover_accepts_text_beyond_ascii() {
    assert_eq!(recover(&texts(&["caf\u{e9}-1-2-3-4"])), resolved(1, 2, 3, 4));
    assert_eq!(recover(&texts(&["caf\u{e9}"])), unresolved(Error::TooFewLabels));
    assert_eq!(recover(&texts(&["\u{0661}-\u{0662}-\u{0663}-\u{0664}"])), unresolved(Error::TooFewLabels));
}

#[test]
fn recover_gives_the_same_outcome_twice() {
    for labels in [texts(&["1-2-3-4"]), texts(&["foo"]), texts(&["4", "3", "2", "1"]), texts(&[])] {
        assert_eq!(recover(&labels), recover(&labels));
    }
}
