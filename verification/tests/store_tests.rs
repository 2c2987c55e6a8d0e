use rusty_todo::store::{lines_from_text, text_from_lines};

fn strings(items: &[&str]) -> Vec<String> {
    items.iter().map(|s| s.to_string()).collect()
}

#[test]
fn empty_text_stores_no_record() {
    assert_eq!(lines_from_text(""), Vec::<String>::new());
}

#[test]
fn empty_list_is_stored_as_empty_text() {
    assert_eq!(text_from_lines(&Vec::new()), "");
}

#[test]
fn each_record_is_written_on_its_own_line() {
    assert_eq!(text_from_lines(&strings(&["(!!) a", " (-) b"])), "(!!) a\n (-) b\n");
    assert_eq!(text_from_lines(&strings(&["only"])), "only\n");
    assert_eq!(text_from_lines(&strings(&["", ""])), "\n\n");
}

#[test]
fn lines_are_read_in_order() {
    assert_eq!(lines_from_text("(!!) a\n (-) b\n"), strings(&["(!!) a", " (-) b"]));
}

#[test]
fn last_line_needs_no_newline() {
    assert_eq!(lines_from_text("a\nb"), strings(&["a", "b"]));
    assert_eq!(lines_from_text("a"), strings(&["a"]));
}

#[test]
fn empty_lines_are_records() {
    assert_eq!(lines_from_text("\n"), strings(&[""]));
    assert_eq!(lines_from_text("a\n\nb\n"), strings(&["a", "", "b"]));
    assert_eq!(lines_from_text("\n\n"), strings(&["", ""]));
}

#[test]
fn carriage_return_before_newline_is_dropped() {
    assert_eq!(lines_from_text("a\r\nb\r\n"), strings(&["a", "b"]));
    assert_eq!(lines_from_text("\r\n"), strings(&[""]));
    assert_eq!(lines_from_text("a\r\r\n"), strings(&["a\r"]));
}

#[test]
fn other_carriage_returns_stay() {
    assert_eq!(lines_from_text("a\rb\n"), strings(&["a\rb"]));
    assert_eq!(lines_from_text("a\r"), strings(&["a\r"]));
    assert_eq!(lines_from_text("\r"), strings(&["\r"]));
    assert_eq!(lines_from_text("x\n\r"), strings(&["x", "\r"]));
}

#[test]
fn reading_agrees_with_std_lines() {
    let texts = [
        "", "\n", "\r", "\r\n", "a", "a\n", "a\r\n", "a\nb", "a\n\nb", "a\r\rb\r\n\r", "\n\n\n",
        "(!!) buy milk\n      é è\r\n[2024-01-02] - done\n", "tail\r",
    ];
    for text in texts {
        let expected: Vec<String> = text.lines().map(|l| l.to_string()).collect();
        let expected_buf: Vec<String> =
            std::io::BufRead::lines(text.as_bytes()).map(|l| l.unwrap()).collect();
        let got = lines_from_text(text);
        assert_eq!(got, expected_buf, "text {:?}", text);
        if !text.ends_with('\r') {
            assert_eq!(got, expected, "text {:?}", text);
        }
    }
}

#[test]
fn stored_list_reads_back() {
    let lists = [
        strings(&[]),
        strings(&["(!!) a"]),
        strings(&["(!!) a", "", "     b", "[2024-01-02] - c", "é"]),
        strings(&["a\rb", " "]),
    ];
    for list in lists {
        assert_eq!(lines_from_text(&text_from_lines(&list)), list);
    }
}
