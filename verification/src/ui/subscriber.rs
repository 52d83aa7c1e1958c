//! The log of the program, as the user sees it.

use vstd::prelude::*;

use crate::text::push_text;

verus! {

/// How important an entry of the log is.
#[derive(Debug, Clone, Copy, PartialEq, Eq, Structural)]
pub enum Level {
    /// Something has failed.
    Error,
    /// Something is not as it should be.
    Warn,
    /// Something has happened.
    Info,
    /// Of interest when looking for mistakes.
    Debug,
    /// Of interest when looking very closely.
    Trace,
}

impl Level {
    /// How talkative the level is.
    pub open spec fn verbosity(self) -> int {
        match self {
            Level::Error => 1,
            Level::Warn => 2,
            Level::Info => 3,
            Level::Debug => 4,
            Level::Trace => 5,
        }
    }

    /// How talkative the level is.
    fn rank(self) -> (r: u8)
        ensures
            r == self.verbosity(),
    {
        match self {
            Level::Error => 1,
            Level::Warn => 2,
            Level::Info => 3,
            Level::Debug => 4,
            Level::Trace => 5,
        }
    }
}

/// The colour of a label.
#[derive(Debug, Clone, Copy, PartialEq, Eq, Structural)]
pub enum Color {
    Red,
    Yellow,
    Green,
    Cyan,
    Blue,
}

/// How the label of a level looks.
#[derive(Debug, Clone, Copy)]
pub struct Label {
    /// The text.
    pub text: &'static str,
    /// Its colour.
    pub color: Color,
    /// Whether it stands out.
    pub bold: bool,
}

/// The text, colour and weight of the label of a level.
pub open spec fn label_of(level: Level) -> (Seq<char>, Color, bool) {
    match level {
        Level::Error => ("ERROR "@, Color::Red, true),
        Level::Warn => ("WARN  "@, Color::Yellow, true),
        Level::Info => ("INFO  "@, Color::Green, false),
        Level::Debug => ("DEBUG "@, Color::Cyan, false),
        Level::Trace => ("TRACE "@, Color::Blue, false),
    }
}

/// The label of a level.
pub fn label(level: Level) -> (r: Label)
    ensures
        (r.text@, r.color, r.bold) == label_of(level),
{
    match level {
        Level::Error => Label { text: "ERROR ", color: Color::Red, bold: true },
        Level::Warn => Label { text: "WARN  ", color: Color::Yellow, bold: true },
        Level::Info => Label { text: "INFO  ", color: Color::Green, bold: false },
        Level::Debug => Label { text: "DEBUG ", color: Color::Cyan, bold: false },
        Level::Trace => Label { text: "TRACE ", color: Color::Blue, bold: false },
    }
}

/// An entry of the log.
#[derive(Debug)]
pub struct Line {
    /// How important it is.
    pub level: Level,
    /// What it says.
    pub body: String,
}

impl View for Line {
    type V = (Level, Seq<char>);

    open spec fn view(&self) -> (Level, Seq<char>) {
        (self.level, self.body@)
    }
}

/// Entries of the log, as text.
pub open spec fn line_views(lines: Seq<Line>) -> Seq<(Level, Seq<char>)> {
    lines.map_values(|l: Line| l@)
}

/// The log as it is kept: when there are more than a thousand entries, the oldest
/// seven hundred and fifty are dropped.
pub open spec fn kept<T>(lines: Seq<T>) -> Seq<T> {
    if lines.len() > 1000 {
        lines.skip(750)
    } else {
        lines
    }
}

/// The log.
#[derive(Debug)]
pub struct Inner {
    /// Its entries, oldest first.
    pub lines: Vec<Line>,
}

impl Inner {
    /// An empty log.
    pub fn new() -> (r: Inner)
        ensures
            r.lines@.len() == 0,
    {
        Inner { lines: Vec::new() }
    }

    /// Adds an entry.
    pub fn record(&mut self, line: Line)
        ensures
            final(self).lines@ == kept(old(self).lines@.push(line)),
    {
        self.lines.push(line);
        if self.lines.len() > 1000 {
            let recent = self.lines.split_off(750);
            assert(recent@ =~= old(self).lines@.push(line).skip(750));
            self.lines = recent;
        }
    }

    /// The newest entries, at most `count` of them, oldest first.
    pub fn newest(&self, count: usize) -> (r: Vec<Line>)
        ensures
            line_views(r@) == if count < self.lines@.len() {
                line_views(self.lines@).skip(self.lines@.len() - count)
            } else {
                line_views(self.lines@)
            },
    {
        let n: usize = self.lines.len();
        let first: usize = if count < n {
            n - count
        } else {
            0
        };
        let mut out: Vec<Line> = Vec::new();
        for i in first..n
            invariant
                n == self.lines@.len(),
                first <= n,
                line_views(out@) == line_views(self.lines@).subrange(first as int, i as int),
        {
            let line = Line { level: self.lines[i].level, body: self.lines[i].body.clone() };
            let ghost before = line_views(out@);
            out.push(line);
            assert(line_views(out@) =~= before.push(line@));
            assert(line_views(self.lines@)[i as int] == line@);
        }
        assert(line_views(self.lines@).subrange(first as int, n as int) =~= line_views(
            self.lines@,
        ).skip(first as int));
        assert(line_views(self.lines@).skip(0) =~= line_views(self.lines@));
        out
    }
}

/// Whether an entry is recorded: nothing that is more talkative than `Info`.
pub fn enabled(level: Level) -> (r: bool)
    ensures
        r == (level.verbosity() <= Level::Info.verbosity()),
{
    level.rank() <= Level::Info.rank()
}

/// Adds a value of an entry to its text, with a space behind it.
pub fn record_debug(buffer: &mut String, value: &str)
    ensures
        final(buffer)@ == old(buffer)@ + value@ + seq![' '],
{
    push_text(buffer, value);
    buffer.push(' ');
}

/// The log never holds more than a thousand entries, the newest is always there, and what is
/// there is what came last. Nothing is lost before the thousand are full; then all but the newest
/// two hundred and fifty-one are.
pub proof fn log_keeps_the_newest<T>(lines: Seq<T>, line: T)
    requires
        lines.len() <= 1000,
    ensures
        kept(lines.push(line)).len() <= 1000,
        kept(lines.push(line)).last() == line,
        exists|n: int|
            0 <= n <= lines.len() && kept(lines.push(line)) == #[trigger] lines.push(line).skip(n),
        lines.len() < 1000 ==> kept(lines.push(line)) == lines.push(line),
        lines.len() == 1000 ==> kept(lines.push(line)).len() == 251,
{
    if lines.len() < 1000 {
        assert(lines.push(line).skip(0) =~= lines.push(line));
    }
}

/// What [`Inner::record`] does: the entry is the newest one afterwards, and all older ones are still
/// there as long as there are fewer than a thousand.
pub proof fn entries_are_recorded(log: &mut Inner, line: Line)
    requires
        old(log).lines@.len() <= 1000,
        call_ensures(Inner::record, (log, line), ()),
    ensures
        final(log).lines@.len() > 0,
        final(log).lines@.last() == line,
        final(log).lines@.len() <= 1000,
        old(log).lines@.len() < 1000 ==> final(log).lines@ == old(log).lines@.push(line),
{
    log_keeps_the_newest(old(log).lines@, line);
}

/// What [`Inner::newest`] returns: the last entries, in their order, as many as were asked for or all
/// there are.
pub proof fn the_newest_come_last(log: Inner, count: usize, r: Vec<Line>, i: int)
    requires
        call_ensures(Inner::newest, (&log, count), r),
    ensures
        r@.len() <= count,
        r@.len() == count || r@.len() == log.lines@.len(),
        r@.len() <= log.lines@.len(),
        0 <= i < r@.len() ==> r@[i].level == log.lines@[log.lines@.len() - r@.len() + i].level,
        0 <= i < r@.len() ==> r@[i].body@ == log.lines@[log.lines@.len() - r@.len() + i].body@,
{
    assert(line_views(r@).len() == r@.len());
    assert(line_views(log.lines@).len() == log.lines@.len());
    if 0 <= i < r@.len() {
        assert(line_views(r@)[i] == r@[i]@);
        assert(line_views(log.lines@)[log.lines@.len() - r@.len() + i]
            == log.lines@[log.lines@.len() - r@.len() + i]@);
    }
}

/// What [`enabled`] and [`record_debug`] do: errors, warnings and what has happened are recorded, and
/// nothing else is; a value is added with a space behind it.
pub proof fn what_is_recorded(level: Level, r: bool, buffer: &mut String, value: &str)
    requires
        call_ensures(enabled, (level,), r),
        call_ensures(record_debug, (buffer, value), ()),
    ensures
        r <==> level is Error || level is Warn || level is Info,
        final(buffer)@.len() == old(buffer)@.len() + value@.len() + 1,
        final(buffer)@.take(old(buffer)@.len() as int) == old(buffer)@,
        final(buffer)@.skip(old(buffer)@.len() as int) == value@.push(' '),
{
    assert(final(buffer)@.take(old(buffer)@.len() as int) =~= old(buffer)@);
    assert(final(buffer)@.skip(old(buffer)@.len() as int) =~= value@.push(' '));
}

} // verus!
