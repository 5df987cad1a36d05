//! Rendering of a log record as a body line and composition of the final
//! output line from its date, time and body segments.

use vstd::prelude::*;
use vstd::string::*;
use crate::Level;
use crate::codecvt::{is_c_wstr, c_content};

verus! {

/// A log record as the sink receives it: a severity, a category string
/// with an optional module-path fallback, and an already rendered message.
pub struct Record {
    pub level: Level,
    pub target: String,
    pub module: Option<String>,
    pub message: String,
}

/// The level's display name padded with spaces to a minimum width of five.
pub open spec fn spec_padded_name(l: Level) -> Seq<char> {
    match l {
        Level::Error => "ERROR"@,
        Level::Warn => "WARN "@,
        Level::Info => "INFO "@,
        Level::Debug => "DEBUG"@,
        Level::Trace => "TRACE"@,
    }
}

/// The record's category: its target when non-empty, else its module path,
/// else the empty string.
pub open spec fn spec_category(r: Record) -> Seq<char> {
    if r.target@.len() > 0 {
        r.target@
    } else {
        match r.module {
            Some(m) => m@,
            None => Seq::empty(),
        }
    }
}

/// The body line of a record: the padded level name, the category in
/// square brackets, and the message, separated by single spaces.
pub open spec fn spec_body(r: Record) -> Seq<char> {
    spec_padded_name(r.level) + " ["@ + spec_category(r) + "] "@ + r.message@
}

impl Level {
    /// The display name of the level, padded with spaces to width five.
    pub fn padded_name(&self) -> (r: &'static str)
        ensures
            r@ == spec_padded_name(*self),
    {
        match self {
            Level::Error => "ERROR",
            Level::Warn => "WARN ",
            Level::Info => "INFO ",
            Level::Debug => "DEBUG",
            Level::Trace => "TRACE",
        }
    }
}

/// Renders the body line of a record:
/// `<level, padded to five> [<category>] <message>`.
pub fn format_body(record: &Record) -> (r: String)
    ensures
        r@ == spec_body(*record),
{
    let mut s = String::new();
    s.append(record.level.padded_name());
    s.append(" [");
    if !record.target.as_str().is_empty() {
        s.append(record.target.as_str());
    } else {
        match &record.module {
            Some(m) => s.append(m.as_str()),
            None => (),
        }
    }
    s.append("] ");
    s.append(record.message.as_str());
    proof {
        assert(s@ =~= spec_body(*record));
    }
    s
}

/// The text of the final line: date, time and body separated by single
/// spaces and terminated by one newline. Unit 32 is the space, 10 the
/// newline.
pub open spec fn spec_composed(date: Seq<u16>, time: Seq<u16>, body: Seq<u16>) -> Seq<u16> {
    date + seq![32u16] + time + seq![32u16] + body + seq![10u16]
}

/// Composes the final null-terminated line from the three null-terminated
/// segments, substituting them in order and appending one newline.
pub fn compose_line(date: &[u16], time: &[u16], body: &[u16]) -> (r: Vec<u16>)
    requires
        is_c_wstr(date@),
        is_c_wstr(time@),
        is_c_wstr(body@),
    ensures
        r@ == spec_composed(c_content(date@), c_content(time@), c_content(body@))
            + seq![0u16],
        is_c_wstr(r@),
{
    let mut out: Vec<u16> = Vec::new();
    append_content(&mut out, date);
    out.push(32);
    append_content(&mut out, time);
    out.push(32);
    append_content(&mut out, body);
    out.push(10);
    out.push(0);
    proof {
        assert(out@ =~= spec_composed(c_content(date@), c_content(time@), c_content(body@))
            + seq![0u16]);
        assert(forall|i: int| 0 <= i < out@.len() - 1 ==> out@[i] != 0) by {
            assert(forall|i: int| 0 <= i < c_content(date@).len() ==> c_content(date@)[i] != 0);
            assert(forall|i: int| 0 <= i < c_content(time@).len() ==> c_content(time@)[i] != 0);
            assert(forall|i: int| 0 <= i < c_content(body@).len() ==> c_content(body@)[i] != 0);
        }
    }
    out
}

/// Appends the units of a null-terminated wide string, without its
/// terminator, at the end of the buffer.
fn append_content(out: &mut Vec<u16>, w: &[u16])
    requires
        w@.len() >= 1,
    ensures
        final(out)@ == old(out)@ + c_content(w@),
{
    let end = w.len() - 1;
    let mut i: usize = 0;
    while i < end
        invariant
            i <= end,
            end == w@.len() - 1,
            out@ == old(out)@ + w@.take(i as int),
        decreases end - i,
    {
        out.push(w[i]);
        assert(out@ =~= old(out)@ + w@.take(i + 1));
        i += 1;
    }
    assert(out@ =~= old(out)@ + c_content(w@));
}

/// The composed line ends in exactly one newline and carries its three
/// segments — date, time, body — separated by single spaces, with the two
/// separating spaces being the first spaces outside the body. This holds
/// whenever the date and time contain no space and no segment contains a
/// newline.
pub proof fn lemma_composed_shape(date: Seq<u16>, time: Seq<u16>, body: Seq<u16>)
    requires
        forall|i: int| 0 <= i < date.len() ==> date[i] != 32 && date[i] != 10,
        forall|i: int| 0 <= i < time.len() ==> time[i] != 32 && time[i] != 10,
        forall|i: int| 0 <= i < body.len() ==> body[i] != 10,
    ensures
        spec_composed(date, time, body).len() == date.len() + time.len() + body.len() + 3,
        spec_composed(date, time, body).last() == 10,
        forall|i: int| 0 <= i < spec_composed(date, time, body).len() - 1
            ==> spec_composed(date, time, body)[i] != 10,
        spec_composed(date, time, body).subrange(0, date.len() as int) == date,
        spec_composed(date, time, body).subrange(
            date.len() + 1 as int,
            date.len() + 1 + time.len() as int,
        ) == time,
        spec_composed(date, time, body).subrange(
            date.len() + time.len() + 2 as int,
            spec_composed(date, time, body).len() - 1,
        ) == body,
        forall|i: int| 0 <= i < date.len() + time.len() + 2
            ==> (spec_composed(date, time, body)[i] == 32
                <==> (i == date.len() || i == date.len() + time.len() + 1)),
{
    let c = spec_composed(date, time, body);
    assert(c.len() == date.len() + time.len() + body.len() + 3);
    assert forall|i: int| 0 <= i < c.len() implies c[i] == index_value(date, time, body, i) by {
        lemma_composed_index(date, time, body, i);
    }
    assert(c.subrange(0, date.len() as int) =~= date);
    assert(c.subrange(date.len() + 1 as int, date.len() + 1 + time.len() as int) =~= time);
    assert(c.subrange(date.len() + time.len() + 2 as int, c.len() - 1) =~= body);
}

/// The unit at one position of the composed line, segment by segment.
spec fn index_value(date: Seq<u16>, time: Seq<u16>, body: Seq<u16>, i: int) -> u16 {
    if 0 <= i < date.len() {
        date[i]
    } else if i == date.len() {
        32
    } else if i < date.len() + 1 + time.len() {
        time[i - date.len() - 1]
    } else if i == date.len() + 1 + time.len() {
        32
    } else if i < date.len() + time.len() + 2 + body.len() {
        body[i - date.len() - time.len() - 2]
    } else {
        10
    }
}

/// Each position of the composed line holds the unit of the segment that
/// covers it.
proof fn lemma_composed_index(date: Seq<u16>, time: Seq<u16>, body: Seq<u16>, i: int)
    requires
        0 <= i < spec_composed(date, time, body).len(),
    ensures
        spec_composed(date, time, body)[i] == index_value(date, time, body, i),
{
}

} // verus!

