//! Priority tags: how a priority is written at the head of a record and how
//! it is read back.

use vstd::prelude::*;

verus! {

/// Number of characters a priority tag occupies at the head of a record:
/// a four-character marker and one separating space.
pub const TAG_WIDTH: usize = 5;

/// A priority is either absent or one of the levels 1 (most urgent) to 5.
pub open spec fn valid_priority(priority: Option<i32>) -> bool {
    priority matches Some(p) ==> 1 <= p <= 5
}

/// The four-character marker of a priority level.
pub open spec fn marker(level: int) -> Seq<char>
    recommends
        1 <= level <= 5,
{
    if level == 1 {
        seq!['(', '!', '!', ')']
    } else if level == 2 {
        seq![' ', '(', '!', ')']
    } else if level == 3 {
        seq![' ', ' ', ' ', ' ']
    } else if level == 4 {
        seq![' ', '(', '-', ')']
    } else {
        seq!['(', '-', '-', ')']
    }
}

/// The tag written in front of a record's body: the marker of the level and
/// one space, or nothing at all when there is no priority.
pub open spec fn tag(priority: Option<i32>) -> Seq<char>
    recommends
        valid_priority(priority),
{
    match priority {
        Some(p) => marker(p as int).push(' '),
        None => Seq::empty(),
    }
}

/// The stored text of a record with the given priority and body.
pub open spec fn encode(priority: Option<i32>, body: Seq<char>) -> Seq<char>
    recommends
        valid_priority(priority),
{
    tag(priority) + body
}

/// The priority a stored record carries: the level whose marker its first
/// four characters spell, or none when they spell no marker (or the record
/// is shorter than that).
pub open spec fn priority_of(line: Seq<char>) -> Option<i32> {
    if marker(1).is_prefix_of(line) {
        Some(1i32)
    } else if marker(2).is_prefix_of(line) {
        Some(2i32)
    } else if marker(3).is_prefix_of(line) {
        Some(3i32)
    } else if marker(4).is_prefix_of(line) {
        Some(4i32)
    } else if marker(5).is_prefix_of(line) {
        Some(5i32)
    } else {
        None
    }
}

/// The body of a stored record. A record that carries a priority gives up
/// the `TAG_WIDTH` characters of its tag slot; a record without one is all
/// body.
pub open spec fn body_of(line: Seq<char>) -> Seq<char> {
    if priority_of(line) is Some {
        if line.len() >= TAG_WIDTH {
            line.subrange(TAG_WIDTH as int, line.len() as int)
        } else {
            Seq::empty()
        }
    } else {
        line
    }
}

/// Gives the tag for a priority: `"(!!) "`, `" (!) "`, five spaces,
/// `" (-) "`, `"(--) "` for the levels 1 to 5, and the empty string for no
/// priority.
pub fn priority_to_str(priority: &Option<i32>) -> (s: &'static str)
    requires
        valid_priority(*priority),
    ensures
        s@ == tag(*priority),
{
    proof {
        reveal_strlit("(!!) ");
        reveal_strlit(" (!) ");
        reveal_strlit("     ");
        reveal_strlit(" (-) ");
        reveal_strlit("(--) ");
        reveal_strlit("");
    }
    let s = match priority {
        Some(p) => {
            if *p == 1 {
                "(!!) "
            } else if *p == 2 {
                " (!) "
            } else if *p == 3 {
                "     "
            } else if *p == 4 {
                " (-) "
            } else {
                "(--) "
            }
        },
        None => "",
    };
    assert(s@ =~= tag(*priority));
    s
}

/// Reads the priority off the head of a stored record.
pub fn line_to_priority(line: &str) -> (priority: Option<i32>)
    ensures
        priority == priority_of(line@),
        valid_priority(priority),
{
    let mut head = line.chars();
    let c0 = match head.next() {
        Some(c) => c,
        None => { return None; },
    };
    let c1 = match head.next() {
        Some(c) => c,
        None => { return None; },
    };
    let c2 = match head.next() {
        Some(c) => c,
        None => { return None; },
    };
    let c3 = match head.next() {
        Some(c) => c,
        None => { return None; },
    };
    assert(line@.len() >= 4);
    assert(line@[0] == c0 && line@[1] == c1 && line@[2] == c2 && line@[3] == c3);
    let found = if c0 == '(' && c1 == '!' && c2 == '!' && c3 == ')' {
        Some(1i32)
    } else if c0 == ' ' && c1 == '(' && c2 == '!' && c3 == ')' {
        Some(2i32)
    } else if c0 == ' ' && c1 == ' ' && c2 == ' ' && c3 == ' ' {
        Some(3i32)
    } else if c0 == ' ' && c1 == '(' && c2 == '-' && c3 == ')' {
        Some(4i32)
    } else if c0 == '(' && c1 == '-' && c2 == '-' && c3 == ')' {
        Some(5i32)
    } else {
        None
    };
    found
}

/// A record written with a priority reads back with that priority and with
/// the body it was written with.
pub proof fn tagged_record_reads_back(level: i32, body: Seq<char>)
    requires
        1 <= level <= 5,
    ensures
        priority_of(tag(Some(level))) == Some(level),
        priority_of(encode(Some(level), body)) == Some(level),
        body_of(encode(Some(level), body)) == body,
{
    let line = encode(Some(level), body);
    assert(marker(level as int) =~= line.subrange(0, 4));
    assert(marker(level as int) =~= tag(Some(level)).subrange(0, 4));
    assert(marker(1)[1] != marker(2)[1] && marker(1)[0] != marker(3)[0] && marker(1)[0]
        != marker(4)[0] && marker(1)[1] != marker(5)[1]);
    assert(marker(2)[1] != marker(3)[1] && marker(2)[2] != marker(4)[2] && marker(2)[0]
        != marker(5)[0]);
    assert(marker(3)[1] != marker(4)[1] && marker(3)[0] != marker(5)[0]);
    assert(marker(4)[0] != marker(5)[0]);
    assert(line.subrange(TAG_WIDTH as int, line.len() as int) =~= body);
}

/// A record written without a priority is all body, and reads back without
/// one unless the body itself begins with a marker.
pub proof fn untagged_record_reads_back(body: Seq<char>)
    ensures
        encode(None, body) == body,
        priority_of(body) is None ==> body_of(encode(None, body)) == body,
{
    assert(encode(None, body) =~= body);
}

} // verus!
