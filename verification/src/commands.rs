//! The operations on a list: each takes the records of the list it works on
//! and leaves them as its contract says.
//!
//! Records are addressed by their position in the stored order, counted from
//! 1. An operation that is handed a position outside the list reports
//! `false` and changes nothing.

use vstd::prelude::*;
use crate::codec::{
    body_of, encode, line_to_priority, priority_of, priority_to_str, valid_priority, TAG_WIDTH,
};
use crate::stamp::{date_stamp, stamp, stamp_comes_off, today, unstamped, STAMP_WIDTH};

verus! {

/// A position is valid for a list of `len` records when it is one of
/// `1..=len`.
pub open spec fn valid_index(len: nat, item_num: int) -> bool {
    1 <= item_num <= len
}

/// The record that `done_item` files for a pending record on a given date:
/// the date's stamp and the record's body, without its priority tag.
pub open spec fn done_record(line: Seq<char>, year: int, month: int, day: int) -> Seq<char> {
    stamp(year, month, day) + body_of(line)
}

/// One row of a listing: a record with the position it has in the stored
/// order.
#[derive(Debug)]
pub struct Line {
    /// Position of the record in the stored order, counted from 1.
    pub num: usize,
    /// Priority of the record, if it carries one.
    pub priority: Option<i32>,
    /// What is shown of the record: for a pending record its body, for a done
    /// record all of it.
    pub text: String,
}

/// Where a priority stands in a listing: level 1 first, level 5 after the
/// other levels, records without a priority last.
pub open spec fn rank(priority: Option<i32>) -> int {
    match priority {
        Some(p) => p as int,
        None => 6,
    }
}

/// The row shows a pending record of `records` under that record's own
/// position.
pub open spec fn shows_pending(row: Line, records: Seq<Seq<char>>) -> bool {
    &&& 1 <= row.num <= records.len()
    &&& row.priority == priority_of(records[row.num - 1])
    &&& row.text@ == body_of(records[row.num - 1])
}

/// Row `a` is listed before row `b`: it has the more urgent priority, or the
/// same priority and the earlier position.
pub open spec fn listed_before(a: Line, b: Line) -> bool {
    rank(a.priority) < rank(b.priority) || (rank(a.priority) == rank(b.priority) && a.num
        < b.num)
}

/// Some row of the listing stands for position `num`.
pub open spec fn lists_position(listing: Seq<Line>, num: int) -> bool {
    exists|k: int| 0 <= k < listing.len() && (#[trigger] listing[k]).num == num
}

/// Tells whether `item_num` addresses a record of a list of `num_lines`
/// records.
pub fn check_item_num(num_lines: usize, item_num: &i32) -> (ok: bool)
    ensures
        ok == valid_index(num_lines as nat, *item_num as int),
{
    *item_num >= 1 && (*item_num as usize) <= num_lines
}

/// The body of a stored pending record, as a string of its own.
pub fn record_body(line: &str) -> (body: String)
    ensures
        body@ == body_of(line@),
{
    if line_to_priority(line).is_some() {
        let len: usize = line.unicode_len();
        if len >= TAG_WIDTH {
            String::from_str(line.substring_char(TAG_WIDTH, len))
        } else {
            String::new()
        }
    } else {
        String::from_str(line)
    }
}

/// A done record without its stamp, as a string of its own.
pub fn strip_stamp(line: &str) -> (rest: String)
    ensures
        rest@ == unstamped(line@),
{
    let len: usize = line.unicode_len();
    if len >= STAMP_WIDTH {
        String::from_str(line.substring_char(STAMP_WIDTH, len))
    } else {
        String::new()
    }
}

/// Appends the record made of `priority` and `text` to the list.
pub fn add_item(lines: &mut Vec<String>, text: &str, priority: &Option<i32>)
    requires
        valid_priority(*priority),
    ensures
        final(lines).len() == old(lines).len() + 1,
        final(lines).deep_view() == old(lines).deep_view().push(encode(*priority, text@)),
{
    let mut record = String::from_str(priority_to_str(priority));
    record.append(text);
    lines.push(record);
    assert(lines.deep_view() =~= old(lines).deep_view().push(encode(*priority, text@)));
}

/// Puts the record made of `priority` and `text` at position `item_num`;
/// the record that stood there and all after it move one place down. The
/// position must address a record of the list as it is: there is no
/// inserting behind the last record.
pub fn insert_item(lines: &mut Vec<String>, text: &str, item_num: &i32, priority: &Option<i32>) -> (ok:
    bool)
    requires
        valid_priority(*priority),
    ensures
        ok == valid_index(old(lines).len() as nat, *item_num as int),
        ok ==> final(lines).deep_view() == old(lines).deep_view().insert(
            *item_num - 1,
            encode(*priority, text@),
        ),
        ok ==> final(lines).len() == old(lines).len() + 1,
        !ok ==> *final(lines) == *old(lines),
{
    if !check_item_num(lines.len(), item_num) {
        return false;
    }
    let mut record = String::from_str(priority_to_str(priority));
    record.append(text);
    lines.insert((*item_num as usize) - 1, record);
    assert(lines.deep_view() =~= old(lines).deep_view().insert(
        *item_num - 1,
        encode(*priority, text@),
    ));
    true
}

/// Takes the record at position `item_num` out of the list.
pub fn remove_item(lines: &mut Vec<String>, item_num: &i32) -> (ok: bool)
    ensures
        ok == valid_index(old(lines).len() as nat, *item_num as int),
        ok ==> final(lines).deep_view() == old(lines).deep_view().remove(*item_num - 1),
        ok ==> final(lines).len() == old(lines).len() - 1,
        !ok ==> *final(lines) == *old(lines),
{
    if !check_item_num(lines.len(), item_num) {
        return false;
    }
    lines.remove((*item_num as usize) - 1);
    assert(lines.deep_view() =~= old(lines).deep_view().remove(*item_num - 1));
    true
}

/// Empties the list.
pub fn clear_list(lines: &mut Vec<String>)
    ensures
        final(lines)@ == Seq::<String>::empty(),
{
    lines.clear();
}

/// Puts a record of neutral priority with the body `text` in the place of
/// the record at position `item_num`. The priority that the old record had
/// is not kept. The list keeps its length and every other record stays
/// where it is, also when the last record is the one replaced.
pub fn replace_item(lines: &mut Vec<String>, item_num: &i32, text: &str) -> (ok: bool)
    ensures
        ok == valid_index(old(lines).len() as nat, *item_num as int),
        ok ==> final(lines).deep_view() == old(lines).deep_view().update(
            *item_num - 1,
            encode(Some(3i32), text@),
        ),
        ok ==> final(lines).len() == old(lines).len(),
        !ok ==> *final(lines) == *old(lines),
{
    if !check_item_num(lines.len(), item_num) {
        return false;
    }
    let at: usize = (*item_num as usize) - 1;
    let mut record = String::from_str(priority_to_str(&Some(3)));
    record.append(text);
    lines[at] = record;
    assert(lines.deep_view() =~= old(lines).deep_view().update(
        *item_num - 1,
        encode(Some(3i32), text@),
    ));
    true
}

/// Marks the pending record at position `item_num` as done on the given
/// date: its body, under the date's stamp and without its priority tag, is
/// appended to the done list, and the record leaves the pending list.
pub fn done_item_on(
    todo: &mut Vec<String>,
    done: &mut Vec<String>,
    item_num: &i32,
    year: i32,
    month: u32,
    day: u32,
) -> (ok: bool)
    ensures
        ok == valid_index(old(todo).len() as nat, *item_num as int),
        ok ==> final(todo).deep_view() == old(todo).deep_view().remove(*item_num - 1),
        ok ==> final(done).deep_view() == old(done).deep_view().push(
            done_record(
                old(todo).deep_view()[*item_num - 1],
                year as int,
                month as int,
                day as int,
            ),
        ),
        !ok ==> *final(todo) == *old(todo) && *final(done) == *old(done),
{
    if !check_item_num(todo.len(), item_num) {
        return false;
    }
    let body = record_body(todo[(*item_num as usize) - 1].as_str());
    let mut record = date_stamp(year, month, day);
    record.append(body.as_str());
    done.push(record);
    remove_item(todo, item_num);
    assert(done.deep_view() =~= old(done).deep_view().push(
        done_record(old(todo).deep_view()[*item_num - 1], year as int, month as int, day as int),
    ));
    true
}

/// Marks the pending record at position `item_num` as done today. The date
/// is the local date of the machine's clock, so the contract names it only
/// as some date with a month of 1 to 12 and a day of 1 to 31; for a date
/// that is given, see `done_item_on`. The clock is read only once the
/// position is known to be valid.
pub fn done_item(todo: &mut Vec<String>, done: &mut Vec<String>, item_num: &i32) -> (ok: bool)
    ensures
        ok == valid_index(old(todo).len() as nat, *item_num as int),
        ok ==> final(todo).deep_view() == old(todo).deep_view().remove(*item_num - 1),
        ok ==> exists|year: i32, month: u32, day: u32|
            1 <= month <= 12 && 1 <= day <= 31 && final(done).deep_view() == old(
                done,
            ).deep_view().push(
                #[trigger] done_record(
                    old(todo).deep_view()[*item_num - 1],
                    year as int,
                    month as int,
                    day as int,
                ),
            ),
        !ok ==> *final(todo) == *old(todo) && *final(done) == *old(done),
{
    if !check_item_num(todo.len(), item_num) {
        return false;
    }
    let (year, month, day) = today();
    done_item_on(todo, done, item_num, year, month, day)
}

/// Takes the done record at position `item_num` back to the pending list:
/// what follows its stamp is appended there, without a priority tag, and the
/// record leaves the done list.
pub fn undone_item(todo: &mut Vec<String>, done: &mut Vec<String>, item_num: &i32) -> (ok: bool)
    ensures
        ok == valid_index(old(done).len() as nat, *item_num as int),
        ok ==> final(done).deep_view() == old(done).deep_view().remove(*item_num - 1),
        ok ==> final(todo).deep_view() == old(todo).deep_view().push(
            unstamped(old(done).deep_view()[*item_num - 1]),
        ),
        !ok ==> *final(todo) == *old(todo) && *final(done) == *old(done),
{
    if !check_item_num(done.len(), item_num) {
        return false;
    }
    let rest = strip_stamp(done[(*item_num as usize) - 1].as_str());
    add_item(todo, rest.as_str(), &None);
    remove_item(done, item_num);
    assert(todo.deep_view() =~= old(todo).deep_view().push(
        unstamped(old(done).deep_view()[*item_num - 1]),
    ));
    true
}

/// Gives the record at position `item_num` the tag of `priority` in place of
/// the tag it has, or in front of its body if it has none. The body stays as
/// it is.
pub fn change_priority(lines: &mut Vec<String>, item_num: &i32, priority: &Option<i32>) -> (ok:
    bool)
    requires
        valid_priority(*priority),
    ensures
        ok == valid_index(old(lines).len() as nat, *item_num as int),
        ok ==> final(lines).deep_view() == old(lines).deep_view().update(
            *item_num - 1,
            encode(*priority, body_of(old(lines).deep_view()[*item_num - 1])),
        ),
        !ok ==> *final(lines) == *old(lines),
{
    if !check_item_num(lines.len(), item_num) {
        return false;
    }
    let at: usize = (*item_num as usize) - 1;
    let body = record_body(lines[at].as_str());
    let mut record = String::from_str(priority_to_str(priority));
    record.append(body.as_str());
    lines[at] = record;
    assert(lines.deep_view() =~= old(lines).deep_view().update(
        *item_num - 1,
        encode(*priority, body_of(old(lines).deep_view()[*item_num - 1])),
    ));
    true
}

fn rank_of(priority: &Option<i32>) -> (r: i32)
    requires
        valid_priority(*priority),
    ensures
        r == rank(*priority),
{
    match priority {
        Some(p) => *p,
        None => 6,
    }
}

/// Lists the pending records for display, the most urgent first: by
/// priority from level 1 to level 5, then the records without one, and
/// within one priority in the stored order. Every record is listed once, and
/// under the position it has in the stored order, which is the position that
/// the other operations take. A record whose head spells no marker is
/// listed as a record without priority; none is refused.
pub fn list_todo(lines: &Vec<String>) -> (listing: Vec<Line>)
    ensures
        listing.len() == lines.len(),
        forall|k: int| 0 <= k < listing.len() ==> shows_pending(#[trigger] listing[k], lines.deep_view()),
        forall|j: int, k: int|
            0 <= j < k < listing.len() ==> listed_before(#[trigger] listing[j], #[trigger] listing[k]),
        forall|n: int| 1 <= n <= lines.len() ==> #[trigger] lists_position(listing@, n),
{
    let mut listing: Vec<Line> = Vec::new();
    let mut i: usize = 0;
    while i < lines.len()
        invariant
            i <= lines.len(),
            listing.len() == i,
            forall|k: int|
                0 <= k < i ==> shows_pending(#[trigger] listing[k], lines.deep_view())
                    && listing[k].num <= i,
            forall|j: int, k: int|
                0 <= j < k < i ==> listed_before(#[trigger] listing[j], #[trigger] listing[k]),
            forall|n: int| 1 <= n <= i ==> #[trigger] lists_position(listing@, n),
        decreases lines.len() - i,
    {
        let record = lines[i].as_str();
        let priority = line_to_priority(record);
        let text = record_body(record);
        let r = rank_of(&priority);
        let mut at: usize = 0;
        while at < listing.len() && rank_of(&listing[at].priority) <= r
            invariant
                at <= listing.len(),
                listing.len() == i,
                i < lines.len(),
                r == rank(priority),
                forall|k: int|
                    0 <= k < i ==> shows_pending(#[trigger] listing[k], lines.deep_view()),
                forall|k: int| 0 <= k < at ==> rank((#[trigger] listing[k]).priority) <= r,
            decreases listing.len() - at,
        {
            at = at + 1;
        }
        let ghost before = listing@;
        let row = Line { num: i + 1, priority, text };
        listing.insert(at, row);
        proof {
            let after = listing@;
            assert(lines.deep_view()[i as int] == lines[i as int]@);
            assert forall|k: int| 0 <= k < i + 1 implies shows_pending(
                #[trigger] after[k],
                lines.deep_view(),
            ) && after[k].num <= i + 1 by {
                if k < at {
                    assert(after[k] == before[k]);
                } else if k > at {
                    assert(after[k] == before[k - 1]);
                }
            }
            assert forall|j: int, k: int| 0 <= j < k < i + 1 implies listed_before(
                #[trigger] after[j],
                #[trigger] after[k],
            ) by {
                let a = if j < at { before[j] } else if j == at { row } else { before[j - 1] };
                let b = if k < at { before[k] } else if k == at { row } else { before[k - 1] };
                assert(after[j] == a && after[k] == b);
                if at < i {
                    assert(rank(before[at as int].priority) > r);
                    if k > at && k - 1 > at {
                        assert(listed_before(before[at as int], before[k - 1]));
                    }
                }
            }
            assert forall|n: int| 1 <= n <= i + 1 implies #[trigger] lists_position(after, n) by {
                if n == i + 1 {
                    assert(after[at as int].num == n);
                } else {
                    assert(lists_position(before, n));
                    let k0 = choose|k: int|
                        0 <= k < before.len() && (#[trigger] before[k]).num == n;
                    if k0 < at {
                        assert(after[k0].num == n);
                    } else {
                        assert(after[k0 + 1] == before[k0]);
                        assert(after[k0 + 1].num == n);
                    }
                }
            }
        }
        i = i + 1;
    }
    listing
}

/// Lists the done records for display: in the stored order, each under its
/// position and shown whole.
pub fn list_done(lines: &Vec<String>) -> (listing: Vec<Line>)
    ensures
        listing.len() == lines.len(),
        forall|k: int|
            0 <= k < listing.len() ==> (#[trigger] listing[k]).num == k + 1
                && listing[k].priority.is_none() && listing[k].text@ == lines[k]@,
{
    let mut listing: Vec<Line> = Vec::new();
    let mut i: usize = 0;
    while i < lines.len()
        invariant
            i <= lines.len(),
            listing.len() == i,
            forall|k: int|
                0 <= k < i ==> (#[trigger] listing[k]).num == k + 1
                    && listing[k].priority.is_none() && listing[k].text@ == lines[k]@,
        decreases lines.len() - i,
    {
        let text = lines[i].clone();
        listing.push(Line { num: i + 1, priority: None, text });
        i = i + 1;
    }
    listing
}

/// Taking a record out of a list and inserting its priority and body at the
/// same position gives the list back, as long as a record still stands at
/// that position once the record is out.
pub proof fn remove_then_insert_restores(
    records: Seq<Seq<char>>,
    item_num: int,
    priority: Option<i32>,
    body: Seq<char>,
)
    requires
        valid_priority(priority),
        1 <= item_num < records.len(),
        records[item_num - 1] == encode(priority, body),
    ensures
        valid_index(records.remove(item_num - 1).len(), item_num),
        records.remove(item_num - 1).insert(item_num - 1, encode(priority, body)) == records,
{
    assert(records.remove(item_num - 1).insert(item_num - 1, encode(priority, body))
        =~= records);
}

/// Once the last record of a list is out, its position addresses nothing,
/// so an insertion there is refused.
pub proof fn last_position_is_gone_after_remove(records: Seq<Seq<char>>)
    requires
        records.len() > 0,
    ensures
        valid_index(records.len(), records.len() as int),
        !valid_index(records.remove(records.len() - 1).len(), records.len() as int),
{
}

/// A record that was marked done on a date with a year of four digits comes
/// back from the done list as its body: without its priority tag and
/// without the stamp.
pub proof fn done_then_undone_gives_body(line: Seq<char>, year: int, month: int, day: int)
    requires
        0 <= year <= 9999,
        1 <= month <= 12,
        1 <= day <= 31,
    ensures
        unstamped(done_record(line, year, month, day)) == body_of(line),
{
    stamp_comes_off(year, month, day, body_of(line));
}

} // verus!
