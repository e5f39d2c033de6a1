use riceathon::ledger::{read_submitted, submission_record};
use std::collections::HashSet;

fn by_the_standard_library(content: &str) -> HashSet<u64> {
    content.lines().filter_map(|line| line.parse::<u64>().ok()).collect()
}

#[test]
fn ids_are_read_line_by_line() {
    let ids = read_submitted("12\n7\r\n12\n+5");
    assert_eq!(ids, HashSet::from([12, 7, 5]));
}

#[test]
fn lines_that_hold_no_number_count_for_nothing() {
    let ids = read_submitted("\n x\n-1\n1_000\n 3\n18446744073709551616\n+\n++1\n4\r");
    assert_eq!(ids, HashSet::new());
}

#[test]
fn reading_agrees_with_the_standard_library() {
    for content in [
        "",
        "\n",
        "1",
        "1\n",
        "1\n\n2",
        "1\r\n2\r",
        "1\r\r\n2\n",
        "0007\n+0\n",
        "18446744073709551615\n18446744073709551616\n",
        "000000000000000000000000000001\n",
        "99999999999999999999999999999999999999999999x\n5\n",
        "１\n٣\n3\n",
        "+\n-\n+-1\n",
        "1\r2\n",
    ] {
        assert_eq!(read_submitted(content), by_the_standard_library(content), "{content:?}");
    }
}

#[test]
fn a_record_is_one_line() {
    assert_eq!(submission_record(0), "0\n");
    assert_eq!(submission_record(u64::MAX), "18446744073709551615\n");
}

#[test]
fn what_is_recorded_is_read_back() {
    let mut content = String::new();
    let mut ids = HashSet::new();
    for id in [3u64, 0, u64::MAX, 3, 1234567890] {
        content.push_str(&submission_record(id));
        ids.insert(id);
        assert_eq!(read_submitted(&content), ids);
    }
}

#[test]
fn a_record_behind_half_a_line_is_not_read_back() {
    let content = format!("12{}", submission_record(3));
    assert_eq!(read_submitted(&content), HashSet::from([123]));
}
