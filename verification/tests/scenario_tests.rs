use rusty_todo::codec::priority_to_str;
use rusty_todo::commands::{
    add_item, clear_list, done_item_on, list_todo, undone_item,
};
use rusty_todo::store::{lines_from_text, text_from_lines};

fn strings(items: &[&str]) -> Vec<String> {
    items.iter().map(|s| s.to_string()).collect()
}

fn shown(list: &Vec<String>) -> Vec<String> {
    list_todo(list)
        .iter()
        .map(|row| format!("[{}] -> {}{}", row.num, priority_to_str(&row.priority), row.text))
        .collect()
}

#[test]
fn add_to_an_empty_list_shows_one_record() {
    let mut pending = lines_from_text("");
    assert!(pending.is_empty());
    add_item(&mut pending, "buy milk", &Some(1));
    assert_eq!(pending.len(), 1);
    assert_eq!(shown(&pending), strings(&["[1] -> (!!) buy milk"]));
    assert_eq!(text_from_lines(&pending), "(!!) buy milk\n");
}

#[test]
fn listing_sorts_but_addresses_by_stored_order() {
    let pending = strings(&["(!!) a", " (-) b"]);
    assert_eq!(shown(&pending), strings(&["[1] -> (!!) a", "[2] ->  (-) b"]));
    let swapped = strings(&[" (-) b", "(!!) a"]);
    assert_eq!(shown(&swapped), strings(&["[2] -> (!!) a", "[1] ->  (-) b"]));
}

#[test]
fn done_and_undone_move_the_body() {
    let mut pending = strings(&["(!!) buy milk", " (-) other"]);
    let mut done = strings(&["[2020-02-02] - earlier"]);
    assert!(done_item_on(&mut pending, &mut done, &1, 2024, 5, 6));
    assert_eq!(pending, strings(&[" (-) other"]));
    assert_eq!(done, strings(&["[2020-02-02] - earlier", "[2024-05-06] - buy milk"]));
    assert!(undone_item(&mut pending, &mut done, &2));
    assert_eq!(pending, strings(&[" (-) other", "buy milk"]));
    assert_eq!(done, strings(&["[2020-02-02] - earlier"]));
    assert_eq!(shown(&pending), strings(&["[1] ->  (-) other", "[2] -> buy milk"]));
}

#[test]
fn clear_leaves_an_empty_file() {
    let mut pending = lines_from_text("(!!) a\n (-) b\n");
    assert_eq!(pending.len(), 2);
    clear_list(&mut pending);
    assert_eq!(text_from_lines(&pending), "");
    clear_list(&mut pending);
    assert_eq!(text_from_lines(&pending), "");
    assert!(lines_from_text(&text_from_lines(&pending)).is_empty());
}
