use vstd::prelude::*;

use crate::entry::{is_timestamp, lemma_timestamp_chars, LogEntry};
use crate::format::{
    lemma_level_name_plain, level_token, message_token, rendered, timestamp_token,
    CustomFileFormatter, FormatterKind, LogFormatter,
};
use crate::text::{lacks, lemma_replaced_lacks, replaced};

verus! {

/// A write that a sink performs for one log entry.
pub enum SinkWrite {
    /// A line for standard output; the console sink ends it with its own newline.
    Stdout(String),
    /// Text to append to the file at `path`, which is created if absent.
    Append { path: String, text: String },
}

/// Consumes a log entry: formats it and names the write its sink performs.
pub trait LogHandler {
    /// `w` is a write that this handler may ask for `entry`.
    spec fn emits(&self, entry: LogEntry, w: SinkWrite) -> bool;

    fn handle(&self, entry: &LogEntry) -> (w: SinkWrite)
        ensures
            self.emits(*entry, w),
    ;
}

/// Writes each entry to standard output.
pub struct ConsoleHandler {
    pub formatter: FormatterKind,
}

impl ConsoleHandler {
    pub fn new(formatter: FormatterKind) -> (r: Self)
        ensures
            r.formatter == formatter,
    {
        ConsoleHandler { formatter }
    }
}

impl LogHandler for ConsoleHandler {
    open spec fn emits(&self, entry: LogEntry, w: SinkWrite) -> bool {
        match w {
            SinkWrite::Stdout(line) => self.formatter.renders(entry, line@),
            SinkWrite::Append { .. } => false,
        }
    }

    fn handle(&self, entry: &LogEntry) -> (w: SinkWrite) {
        SinkWrite::Stdout(self.formatter.format(entry))
    }
}

/// Appends each entry to the file at `file_path`.
pub struct FileHandler {
    pub file_path: String,
    pub formatter: FormatterKind,
}

impl FileHandler {
    pub fn new(file_path: &str, formatter: FormatterKind) -> (r: Self)
        ensures
            r.file_path@ == file_path@,
            r.formatter == formatter,
    {
        FileHandler { file_path: String::from_str(file_path), formatter }
    }
}

impl LogHandler for FileHandler {
    open spec fn emits(&self, entry: LogEntry, w: SinkWrite) -> bool {
        match w {
            SinkWrite::Stdout(_) => false,
            SinkWrite::Append { path, text } => path@ == self.file_path@
                && self.formatter.renders(entry, text@),
        }
    }

    fn handle(&self, entry: &LogEntry) -> (w: SinkWrite) {
        let text = self.formatter.format(entry);
        SinkWrite::Append { path: self.file_path.clone(), text }
    }
}

/// One of the handlers, as a logger holds it.
pub enum HandlerKind {
    Console(ConsoleHandler),
    File(FileHandler),
}

impl LogHandler for HandlerKind {
    open spec fn emits(&self, entry: LogEntry, w: SinkWrite) -> bool {
        match self {
            HandlerKind::Console(h) => h.emits(entry, w),
            HandlerKind::File(h) => h.emits(entry, w),
        }
    }

    fn handle(&self, entry: &LogEntry) -> (w: SinkWrite) {
        match self {
            HandlerKind::Console(h) => h.handle(entry),
            HandlerKind::File(h) => h.handle(entry),
        }
    }
}

/// How many times `c` occurs in `s`.
pub open spec fn count_of(s: Seq<char>, c: char) -> nat
    decreases s.len(),
{
    if s.len() == 0 {
        0
    } else {
        (if s[0] == c {
            1nat
        } else {
            0nat
        }) + count_of(s.skip(1), c)
    }
}

proof fn lemma_count_concat(a: Seq<char>, b: Seq<char>, c: char)
    ensures
        count_of(a + b, c) == count_of(a, c) + count_of(b, c),
    decreases a.len(),
{
    if a.len() == 0 {
        assert(a + b =~= b);
    } else {
        assert((a + b).skip(1) =~= a.skip(1) + b);
        lemma_count_concat(a.skip(1), b, c);
    }
}

proof fn lemma_count_lacks(s: Seq<char>, c: char)
    requires
        lacks(s, c),
    ensures
        count_of(s, c) == 0,
    decreases s.len(),
{
    if s.len() > 0 {
        lemma_count_lacks(s.skip(1), c);
    }
}

/// A file formatter's record for an entry is one line: it ends with a line
/// end and holds no other, as long as neither the template nor the message
/// holds one.
pub proof fn lemma_file_record_is_one_line(f: CustomFileFormatter, entry: LogEntry, out: Seq<char>)
    requires
        lacks(f.format_string@, '\n'),
        lacks(entry.message@, '\n'),
        is_timestamp(entry.timestamp@),
        f.renders(entry, out),
    ensures
        out.len() > 0,
        out.last() == '\n',
        lacks(out.drop_last(), '\n'),
        count_of(out, '\n') == 1,
{
    lemma_timestamp_chars(entry.timestamp@);
    lemma_level_name_plain(entry.level);
    let body = rendered(f.format_string@, entry.timestamp@, entry.level.name_spec(), entry.message@);
    let ts = timestamp_token();
    let lv = level_token();
    let s1 = replaced(f.format_string@, ts, entry.timestamp@);
    lemma_replaced_lacks(f.format_string@, ts, entry.timestamp@, '\n');
    let s2 = replaced(s1, lv, entry.level.name_spec());
    lemma_replaced_lacks(s1, lv, entry.level.name_spec(), '\n');
    lemma_replaced_lacks(s2, message_token(), entry.message@, '\n');
    assert(out.drop_last() =~= body);
    lemma_count_lacks(body, '\n');
    lemma_count_concat(body, seq!['\n'], '\n');
    let nl = seq!['\n'];
    assert(nl.skip(1) =~= Seq::<char>::empty());
    assert(count_of(nl.skip(1), '\n') == 0);
    assert(nl[0] == '\n');
    assert(count_of(nl, '\n') == 1);
}

/// Appending the records of a file handler for entries in turn gives a log
/// with exactly one line per entry, in the order of the entries, when
/// neither the template nor any message holds a line end.
pub proof fn lemma_file_log_lines(f: CustomFileFormatter, entries: Seq<LogEntry>, records: Seq<Seq<char>>)
    requires
        lacks(f.format_string@, '\n'),
        records.len() == entries.len(),
        forall|i: int| 0 <= i < entries.len() ==> lacks(#[trigger] entries[i].message@, '\n'),
        forall|i: int| 0 <= i < entries.len() ==> is_timestamp(#[trigger] entries[i].timestamp@),
        forall|i: int| 0 <= i < entries.len() ==> f.renders(#[trigger] entries[i], records[i]),
    ensures
        count_of(records.flatten(), '\n') == entries.len(),
        forall|i: int| 0 <= i < records.len() ==> (#[trigger] records[i]).last() == '\n'
            && lacks(records[i].drop_last(), '\n'),
    decreases entries.len(),
{
    assert forall|i: int| 0 <= i < records.len() implies (#[trigger] records[i]).last() == '\n'
        && lacks(records[i].drop_last(), '\n') by {
        lemma_file_record_is_one_line(f, entries[i], records[i]);
    }
    if entries.len() > 0 {
        let er = entries.drop_first();
        let rr = records.drop_first();
        assert forall|i: int| 0 <= i < er.len() implies lacks(#[trigger] er[i].message@, '\n') by {
            assert(er[i] == entries[i + 1]);
        }
        assert forall|i: int| 0 <= i < er.len() implies is_timestamp(#[trigger] er[i].timestamp@) by {
            assert(er[i] == entries[i + 1]);
        }
        assert forall|i: int| 0 <= i < er.len() implies f.renders(#[trigger] er[i], rr[i]) by {
            assert(er[i] == entries[i + 1]);
            assert(rr[i] == records[i + 1]);
        }
        lemma_file_log_lines(f, er, rr);
        lemma_file_record_is_one_line(f, entries[0], records[0]);
        lemma_count_concat(records[0], rr.flatten(), '\n');
    }
}

} // verus!
