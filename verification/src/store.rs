//! The stored form of a list: a text with one record on each line.

use vstd::prelude::*;
use crate::codec::{body_of, encode, valid_priority};
use crate::commands::done_record;
use crate::stamp::{digit, digits, decimal, stamp, unstamped, zero_padded};

verus! {

/// `std::string::String::push`, which appends one character to the string.
pub assume_specification[ String::push ](s: &mut String, c: char)
    ensures
        final(s)@ == old(s)@.push(c),
;

/// The text that stores a list: each record in turn, followed by a newline.
pub open spec fn joined(records: Seq<Seq<char>>) -> Seq<char>
    decreases records.len(),
{
    if records.len() == 0 {
        Seq::empty()
    } else {
        records.first() + seq!['\n'] + joined(records.drop_first())
    }
}

/// Number of characters of `text` that stand before its first newline; all
/// of them, if it has none.
pub open spec fn line_end(text: Seq<char>) -> int
    decreases text.len(),
{
    if text.len() == 0 || text.first() == '\n' {
        0
    } else {
        1 + line_end(text.drop_first())
    }
}

/// A line without the carriage return that may stand before its newline.
pub open spec fn without_return(line: Seq<char>) -> Seq<char> {
    if line.len() > 0 && line.last() == '\r' {
        line.drop_last()
    } else {
        line
    }
}

/// The records that a text stores: its lines in order, each without its
/// terminator, which is a newline or a carriage return and a newline. What
/// follows the last newline is a record too, unless nothing follows it; the
/// empty text stores no record.
pub open spec fn split(text: Seq<char>) -> Seq<Seq<char>>
    decreases text.len(),
{
    let end = line_end(text);
    if text.len() == 0 {
        Seq::empty()
    } else if end < 0 || end >= text.len() {
        seq![text]
    } else {
        seq![without_return(text.subrange(0, end))] + split(
            text.subrange(end + 1, text.len() as int),
        )
    }
}

/// A record can be stored on a line of its own: it holds no newline and does
/// not end in a carriage return.
pub open spec fn storable(record: Seq<char>) -> bool {
    &&& forall|i: int| 0 <= i < record.len() ==> record[i] != '\n'
    &&& without_return(record) == record
}

/// `line_end` finds the first newline.
pub proof fn line_end_is_first_newline(text: Seq<char>, end: int)
    requires
        0 <= end <= text.len(),
        forall|i: int| 0 <= i < end ==> text[i] != '\n',
        end < text.len() ==> text[end] == '\n',
    ensures
        line_end(text) == end,
    decreases end,
{
    if end > 0 {
        line_end_is_first_newline(text.drop_first(), end - 1);
    }
}

/// Writes the text that stores the list.
pub fn text_from_lines(lines: &Vec<String>) -> (text: String)
    ensures
        text@ == joined(lines.deep_view()),
{
    let mut text = String::new();
    let mut i: usize = 0;
    let ghost records = lines.deep_view();
    assert(records.subrange(0, records.len() as int) =~= records);
    while i < lines.len()
        invariant
            i <= lines.len(),
            records == lines.deep_view(),
            text@ + joined(records.subrange(i as int, records.len() as int)) == joined(records),
        decreases lines.len() - i,
    {
        proof {
            let rest = records.subrange(i as int, records.len() as int);
            assert(rest.drop_first() =~= records.subrange(i + 1, records.len() as int));
            assert(rest.first() == lines[i as int]@);
            assert((text@ + lines[i as int]@).push('\n') + joined(rest.drop_first()) =~= text@
                + joined(rest));
        }
        text.append(lines[i].as_str());
        text.push('\n');
        i = i + 1;
    }
    assert(text@ =~= text@ + joined(records.subrange(i as int, records.len() as int)));
    text
}

/// Reads the records that a text stores.
pub fn lines_from_text(text: &str) -> (lines: Vec<String>)
    ensures
        lines.deep_view() == split(text@),
{
    let mut lines: Vec<String> = Vec::new();
    let mut current = String::new();
    // A carriage return that was read and not yet written to `current`: it
    // is dropped if a newline comes next.
    let mut held_return = false;
    let ghost mut start: int = 0;
    let ghost whole = text@;
    assert(whole.subrange(0, whole.len() as int) =~= whole);
    for c in it: text.chars()
        invariant
            whole == text@,
            it.seq() == whole,
            0 <= start <= it.index() <= whole.len(),
            forall|i: int| start <= i < it.index() ==> whole[i] != '\n',
            lines.deep_view() + split(whole.subrange(start, whole.len() as int)) == split(whole),
            current@ + (if held_return { seq!['\r'] } else { Seq::<char>::empty() })
                == whole.subrange(start, it.index() as int),
            !held_return ==> without_return(current@) == current@,
    {
        let ghost pos = it.index() as int;
        let ghost tail = whole.subrange(start, whole.len() as int);
        if c == '\n' {
            proof {
                line_end_is_first_newline(tail, pos - start);
                let line = tail.subrange(0, pos - start);
                assert(line =~= whole.subrange(start, pos));
                assert(without_return(line) =~= current@);
                assert(tail.subrange(pos - start + 1, tail.len() as int) =~= whole.subrange(
                    pos + 1,
                    whole.len() as int,
                ));
                assert(lines.deep_view().push(current@) + split(
                    whole.subrange(pos + 1, whole.len() as int),
                ) =~= lines.deep_view() + split(tail));
            }
            let ghost before = lines.deep_view();
            lines.push(current);
            assert(lines.deep_view() =~= before.push(current@));
            current = String::new();
            held_return = false;
            proof {
                start = pos + 1;
            }
        } else {
            if held_return {
                current.push('\r');
            }
            if c == '\r' {
                held_return = true;
            } else {
                current.push(c);
                held_return = false;
            }
            assert(current@ + (if held_return { seq!['\r'] } else { Seq::<char>::empty() })
                =~= whole.subrange(start, pos + 1));
        }
    }
    let ghost tail = whole.subrange(start, whole.len() as int);
    if held_return {
        current.push('\r');
    }
    assert(current@ =~= tail);
    if !current.as_str().is_empty() {
        proof {
            line_end_is_first_newline(tail, tail.len() as int);
        }
        let ghost before = lines.deep_view();
        lines.push(current);
        assert(lines.deep_view() =~= before.push(tail));
        assert(lines.deep_view() =~= before + split(tail));
    } else {
        assert(lines.deep_view() =~= lines.deep_view() + split(tail));
    }
    lines
}

/// A list of storable records is read back from its stored text as it was
/// written.
pub proof fn stored_list_reads_back(records: Seq<Seq<char>>)
    requires
        forall|i: int| 0 <= i < records.len() ==> storable(#[trigger] records[i]),
    ensures
        split(joined(records)) == records,
    decreases records.len(),
{
    if records.len() > 0 {
        let first = records.first();
        let rest = records.drop_first();
        let text = joined(records);
        assert(storable(records[0]));
        assert forall|i: int| 0 <= i < rest.len() implies storable(#[trigger] rest[i]) by {
            assert(rest[i] == records[i + 1]);
        }
        stored_list_reads_back(rest);
        line_end_is_first_newline(text, first.len() as int);
        assert(text.subrange(0, first.len() as int) =~= first);
        assert(text.subrange(first.len() as int + 1, text.len() as int) =~= joined(rest));
        assert(seq![first] + rest =~= records);
    }
}

/// A record made of a priority and a storable body is storable.
pub proof fn encoded_record_is_storable(priority: Option<i32>, body: Seq<char>)
    requires
        valid_priority(priority),
        storable(body),
    ensures
        storable(encode(priority, body)),
{
}

/// The body of a storable record is storable, and so is what is left of it
/// without a stamp.
pub proof fn parts_of_a_storable_record_are_storable(line: Seq<char>)
    requires
        storable(line),
    ensures
        storable(body_of(line)),
        storable(unstamped(line)),
{
}

/// The record filed for a storable pending record is storable, whatever the
/// date.
pub proof fn done_record_is_storable(line: Seq<char>, year: int, month: int, day: int)
    requires
        storable(line),
    ensures
        storable(done_record(line, year, month, day)),
{
    let head = stamp(year, month, day);
    number_has_no_line_break(year, 4);
    number_has_no_line_break(month, 2);
    number_has_no_line_break(day, 2);
    assert(head.last() == ' ');
    assert forall|i: int| 0 <= i < head.len() implies head[i] != '\n' && head[i] != '\r' by {}
}

proof fn number_has_no_line_break(n: int, width: nat)
    ensures
        forall|i: int|
            0 <= i < zero_padded(decimal(n), width).len() ==> {
                let c = #[trigger] zero_padded(decimal(n), width)[i];
                c != '\n' && c != '\r'
            },
{
    if n < 0 {
        digits_have_no_line_break((-n) as nat);
    } else {
        digits_have_no_line_break(n as nat);
    }
}

proof fn digits_have_no_line_break(n: nat)
    ensures
        forall|i: int|
            0 <= i < digits(n).len() ==> {
                let c = #[trigger] digits(n)[i];
                c != '\n' && c != '\r'
            },
    decreases n,
{
    assert(digit((n % 10) as int) != '\n' && digit((n % 10) as int) != '\r');
    if n >= 10 {
        digits_have_no_line_break(n / 10);
    }
    assert forall|i: int| 0 <= i < digits(n).len() implies {
        let c = #[trigger] digits(n)[i];
        c != '\n' && c != '\r'
    } by {
        if n >= 10 && i < digits(n / 10).len() {
            assert(digits(n)[i] == digits(n / 10)[i]);
        }
    }
}

} // verus!
