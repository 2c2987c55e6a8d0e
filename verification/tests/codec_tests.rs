use rusty_todo::codec::{line_to_priority, priority_to_str, TAG_WIDTH};

#[test]
fn tags_of_the_five_levels() {
    assert_eq!(priority_to_str(&Some(1)), "(!!) ");
    assert_eq!(priority_to_str(&Some(2)), " (!) ");
    assert_eq!(priority_to_str(&Some(3)), "     ");
    assert_eq!(priority_to_str(&Some(4)), " (-) ");
    assert_eq!(priority_to_str(&Some(5)), "(--) ");
}

#[test]
fn no_priority_has_no_tag() {
    assert_eq!(priority_to_str(&None), "");
}

#[test]
fn every_tag_has_the_tag_width() {
    for p in 1..=5 {
        assert_eq!(priority_to_str(&Some(p)).chars().count(), TAG_WIDTH);
    }
}

#[test]
fn priority_round_trips_through_its_tag() {
    for p in 1..=5 {
        assert_eq!(line_to_priority(priority_to_str(&Some(p))), Some(p));
        let line = format!("{}{}", priority_to_str(&Some(p)), "water the plants");
        assert_eq!(line_to_priority(&line), Some(p));
    }
}

#[test]
fn priority_is_read_from_the_first_four_characters() {
    assert_eq!(line_to_priority("(!!) buy milk"), Some(1));
    assert_eq!(line_to_priority(" (!) buy milk"), Some(2));
    assert_eq!(line_to_priority("     buy milk"), Some(3));
    assert_eq!(line_to_priority(" (-) buy milk"), Some(4));
    assert_eq!(line_to_priority("(--) buy milk"), Some(5));
    assert_eq!(line_to_priority("(!!)"), Some(1));
    assert_eq!(line_to_priority("(!!)x"), Some(1));
}

#[test]
fn unknown_head_has_no_priority() {
    assert_eq!(line_to_priority("buy milk"), None);
    assert_eq!(line_to_priority("(!?) buy milk"), None);
    assert_eq!(line_to_priority("(! ) buy milk"), None);
    assert_eq!(line_to_priority("[2024-01-02] - buy milk"), None);
}

#[test]
fn short_line_has_no_priority() {
    assert_eq!(line_to_priority(""), None);
    assert_eq!(line_to_priority("(!!"), None);
    assert_eq!(line_to_priority("   "), None);
}

#[test]
fn priority_is_read_by_characters_not_bytes() {
    assert_eq!(line_to_priority("é(!!) x"), None);
    assert_eq!(line_to_priority("(!!) émile"), Some(1));
    assert_eq!(line_to_priority("ééé"), None);
}
