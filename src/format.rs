use vstd::prelude::*;

use colored::Colorize;

use crate::entry::{is_timestamp, lemma_timestamp_chars, LogEntry};
use crate::level::{LogLevel, TermColor};
use crate::text::{
    lacks, lemma_replaced_lacks, lemma_replaced_match_prefix, lemma_replaced_plain_prefix,
    replace_all, replaced,
};

verus! {

pub open spec fn timestamp_token() -> Seq<char> {
    seq!['{', 't', 'i', 'm', 'e', 's', 't', 'a', 'm', 'p', '}']
}

pub open spec fn level_token() -> Seq<char> {
    seq!['{', 'l', 'e', 'v', 'e', 'l', '}']
}

pub open spec fn message_token() -> Seq<char> {
    seq!['{', 'm', 'e', 's', 's', 'a', 'g', 'e', '}']
}

/// `template` with `{timestamp}`, then `{level}`, then `{message}` replaced.
pub open spec fn rendered(
    template: Seq<char>,
    timestamp: Seq<char>,
    level: Seq<char>,
    message: Seq<char>,
) -> Seq<char> {
    replaced(
        replaced(replaced(template, timestamp_token(), timestamp), level_token(), level),
        message_token(),
        message,
    )
}

/// The terminal's code for a foreground colour.
pub open spec fn ansi_code(c: TermColor) -> Seq<char> {
    match c {
        TermColor::Red => seq!['3', '1'],
        TermColor::Yellow => seq!['3', '3'],
        TermColor::Green => seq!['3', '2'],
        TermColor::Blue => seq!['3', '4'],
        TermColor::Magenta => seq!['3', '5'],
    }
}

/// `text` between the escape sequence that sets colour `c` and the one that resets.
pub open spec fn painted(text: Seq<char>, c: TermColor) -> Seq<char> {
    seq!['\x1B', '['] + ansi_code(c) + seq!['m'] + text + seq!['\x1B', '[', '0', 'm']
}

/// Relies on colored: `Colorize::color` then `to_string` writes the text as it
/// is when colouring is switched off, and otherwise between the colour's
/// escape sequence and the reset sequence (escaping inner resets, which a
/// text without an escape character does not hold).
#[verifier::external_body]
fn paint(text: &str, c: TermColor) -> (r: String)
    requires
        lacks(text@, '\x1B'),
    ensures
        r@ == text@ || r@ == painted(text@, c),
{
    let color = match c {
        TermColor::Red => colored::Color::Red,
        TermColor::Yellow => colored::Color::Yellow,
        TermColor::Green => colored::Color::Green,
        TermColor::Blue => colored::Color::Blue,
        TermColor::Magenta => colored::Color::Magenta,
    };
    text.color(color).to_string()
}

/// Substitutes the three placeholders of `template`.
pub fn render(template: &str, timestamp: &str, level: &str, message: &str) -> (r: String)
    ensures
        r@ == rendered(template@, timestamp@, level@, message@),
{
    proof {
        reveal_strlit("{timestamp}");
        reveal_strlit("{level}");
        reveal_strlit("{message}");
        assert("{timestamp}"@ =~= timestamp_token());
        assert("{level}"@ =~= level_token());
        assert("{message}"@ =~= message_token());
    }
    let a = replace_all(template, "{timestamp}", timestamp);
    let b = replace_all(a.as_str(), "{level}", level);
    replace_all(b.as_str(), "{message}", message)
}

/// Turns a log entry into display text.
pub trait LogFormatter {
    /// `out` is a text that this formatter may produce for `entry`.
    spec fn renders(&self, entry: LogEntry, out: Seq<char>) -> bool;

    fn format(&self, entry: &LogEntry) -> (r: String)
        ensures
            self.renders(*entry, r@),
    ;
}

/// Formats for a terminal: placeholders substituted, the level's name painted
/// in its colour, no line end.
pub struct CustomConsoleFormatter {
    pub format_string: String,
}

impl CustomConsoleFormatter {
    pub fn new(format_string: String) -> (r: Self)
        ensures
            r.format_string@ == format_string@,
    {
        CustomConsoleFormatter { format_string }
    }

    /// The template with `level_text` standing for the level.
    pub fn render_with_level(&self, entry: &LogEntry, level_text: &str) -> (r: String)
        ensures
            r@ == rendered(self.format_string@, entry.timestamp@, level_text@, entry.message@),
    {
        render(self.format_string.as_str(), entry.timestamp.as_str(), level_text, entry.message.as_str())
    }
}

pub proof fn lemma_level_name_plain(level: LogLevel)
    ensures
        lacks(level.name_spec(), '\x1B'),
        lacks(level.name_spec(), '{'),
        lacks(level.name_spec(), '\n'),
{
}

impl LogFormatter for CustomConsoleFormatter {
    open spec fn renders(&self, entry: LogEntry, out: Seq<char>) -> bool {
        let name = entry.level.name_spec();
        let s = |lv: Seq<char>| rendered(self.format_string@, entry.timestamp@, lv, entry.message@);
        out == s(name) || out == s(painted(name, entry.level.color_spec()))
    }

    fn format(&self, entry: &LogEntry) -> (r: String) {
        let name = entry.level.name();
        proof {
            lemma_level_name_plain(entry.level);
        }
        let level_text = paint(name.as_str(), entry.level.color());
        self.render_with_level(entry, level_text.as_str())
    }
}

/// Formats for a file: placeholders substituted, plain level name, and a
/// line end after every record.
pub struct CustomFileFormatter {
    pub format_string: String,
}

impl CustomFileFormatter {
    pub fn new(format_string: String) -> (r: Self)
        ensures
            r.format_string@ == format_string@,
    {
        CustomFileFormatter { format_string }
    }
}

impl LogFormatter for CustomFileFormatter {
    open spec fn renders(&self, entry: LogEntry, out: Seq<char>) -> bool {
        out == rendered(
            self.format_string@,
            entry.timestamp@,
            entry.level.name_spec(),
            entry.message@,
        ) + seq!['\n']
    }

    fn format(&self, entry: &LogEntry) -> (r: String) {
        let name = entry.level.name();
        let mut out = render(
            self.format_string.as_str(),
            entry.timestamp.as_str(),
            name.as_str(),
            entry.message.as_str(),
        );
        proof {
            reveal_strlit("\n");
            assert("\n"@ =~= seq!['\n']);
        }
        out.append("\n");
        out
    }
}

/// One of the formatters, as a handler holds it.
pub enum FormatterKind {
    Console(CustomConsoleFormatter),
    File(CustomFileFormatter),
}

impl LogFormatter for FormatterKind {
    open spec fn renders(&self, entry: LogEntry, out: Seq<char>) -> bool {
        match self {
            FormatterKind::Console(f) => f.renders(entry, out),
            FormatterKind::File(f) => f.renders(entry, out),
        }
    }

    fn format(&self, entry: &LogEntry) -> (r: String) {
        match self {
            FormatterKind::Console(f) => f.format(entry),
            FormatterKind::File(f) => f.format(entry),
        }
    }
}

pub open spec fn is_token(p: Seq<char>) -> bool {
    p == timestamp_token() || p == level_token() || p == message_token()
}

/// A piece of a template: a placeholder, or text without `{`.
pub open spec fn is_template_part(p: Seq<char>) -> bool {
    is_token(p) || lacks(p, '{')
}

/// What a piece of a template becomes once the placeholders are filled.
pub open spec fn filled(
    p: Seq<char>,
    timestamp: Seq<char>,
    level: Seq<char>,
    message: Seq<char>,
) -> Seq<char> {
    if p == timestamp_token() {
        timestamp
    } else if p == level_token() {
        level
    } else if p == message_token() {
        message
    } else {
        p
    }
}

pub open spec fn swapped(p: Seq<char>, pat: Seq<char>, rep: Seq<char>) -> Seq<char> {
    if p == pat {
        rep
    } else {
        p
    }
}

pub open spec fn all_parts(parts: Seq<Seq<char>>) -> bool {
    forall|i: int| 0 <= i < parts.len() ==> is_template_part(#[trigger] parts[i])
}

proof fn lemma_other_token_prefix(q: Seq<char>, y: Seq<char>, pat: Seq<char>, rep: Seq<char>)
    requires
        is_token(q),
        is_token(pat),
        q != pat,
    ensures
        replaced(q + y, pat, rep) == q + replaced(y, pat, rep),
{
    let s = q + y;
    let tail = q.skip(1);
    assert(tail[0] != '{' && lacks(tail, '{'));
    if s.len() >= pat.len() {
        assert(s.take(pat.len() as int)[1] != pat[1]);
        assert(s.skip(1) =~= tail + y);
    }
    lemma_replaced_plain_prefix(tail, y, pat, rep);
    assert(q =~= seq![q[0]] + tail);
}

/// One replacement pass over a template made of pieces acts piece by piece.
proof fn lemma_pass(parts: Seq<Seq<char>>, pat: Seq<char>, rep: Seq<char>)
    requires
        is_token(pat),
        all_parts(parts),
    ensures
        replaced(parts.flatten(), pat, rep) == parts.map_values(|p: Seq<char>| swapped(p, pat, rep)).flatten(),
    decreases parts.len(),
{
    let f = |p: Seq<char>| swapped(p, pat, rep);
    if parts.len() == 0 {
        assert(parts.map_values(f).len() == 0);
    } else {
        let p = parts.first();
        let rest = parts.drop_first();
        assert(is_template_part(parts[0]));
        assert(all_parts(rest)) by {
            assert forall|i: int| 0 <= i < rest.len() implies is_template_part(#[trigger] rest[i]) by {
                assert(rest[i] == parts[i + 1]);
            }
        }
        lemma_pass(rest, pat, rep);
        assert(parts.map_values(f).drop_first() =~= rest.map_values(f));
        assert(parts.map_values(f).first() == f(p));
        if p == pat {
            lemma_replaced_match_prefix(rest.flatten(), pat, rep);
        } else if is_token(p) {
            lemma_other_token_prefix(p, rest.flatten(), pat, rep);
        } else {
            lemma_replaced_plain_prefix(p, rest.flatten(), pat, rep);
        }
    }
}

proof fn lemma_flatten_lacks(parts: Seq<Seq<char>>, c: char)
    requires
        forall|i: int| 0 <= i < parts.len() ==> lacks(#[trigger] parts[i], c),
    ensures
        lacks(parts.flatten(), c),
    decreases parts.len(),
{
    if parts.len() > 0 {
        let rest = parts.drop_first();
        assert forall|i: int| 0 <= i < rest.len() implies lacks(#[trigger] rest[i], c) by {
            assert(rest[i] == parts[i + 1]);
        }
        lemma_flatten_lacks(rest, c);
        assert(lacks(parts[0], c));
    }
}

/// Rendering fills each placeholder in place. For a template made of
/// placeholders and pieces of text without `{`, and a timestamp and level
/// text without `{`, the result is the template piece by piece with each
/// placeholder swapped for its value; and when the message holds no `{`
/// either, no `{` is left in the result, so no placeholder remains.
pub proof fn lemma_render_in_place(
    parts: Seq<Seq<char>>,
    timestamp: Seq<char>,
    level: Seq<char>,
    message: Seq<char>,
)
    requires
        all_parts(parts),
        lacks(timestamp, '{'),
        lacks(level, '{'),
    ensures
        rendered(parts.flatten(), timestamp, level, message) == parts.map_values(
            |p: Seq<char>| filled(p, timestamp, level, message),
        ).flatten(),
        lacks(message, '{') ==> lacks(rendered(parts.flatten(), timestamp, level, message), '{'),
{
    let ts = timestamp_token();
    let lv = level_token();
    let ms = message_token();
    assert(ts[0] == '{' && lv[0] == '{' && ms[0] == '{');
    assert(timestamp != ts && timestamp != lv && timestamp != ms) by {
        if timestamp.len() > 0 {
            assert(timestamp[0] != '{');
        }
    }
    assert(level != lv && level != ms) by {
        if level.len() > 0 {
            assert(level[0] != '{');
        }
    }
    let p1 = parts.map_values(|p: Seq<char>| swapped(p, ts, timestamp));
    let p2 = p1.map_values(|p: Seq<char>| swapped(p, lv, level));
    let p3 = p2.map_values(|p: Seq<char>| swapped(p, ms, message));
    lemma_pass(parts, ts, timestamp);
    assert(all_parts(p1)) by {
        assert forall|i: int| 0 <= i < p1.len() implies is_template_part(#[trigger] p1[i]) by {
            assert(is_template_part(parts[i]));
        }
    }
    lemma_pass(p1, lv, level);
    assert(all_parts(p2)) by {
        assert forall|i: int| 0 <= i < p2.len() implies is_template_part(#[trigger] p2[i]) by {
            assert(is_template_part(p1[i]));
        }
    }
    lemma_pass(p2, ms, message);
    let full = parts.map_values(|p: Seq<char>| filled(p, timestamp, level, message));
    assert(p3 =~= full) by {
        assert forall|i: int| 0 <= i < p3.len() implies p3[i] == full[i] by {
            let p = parts[i];
            assert(is_template_part(p));
            if !is_token(p) && p.len() > 0 {
                assert(p[0] != '{');
            }
        }
    }
    if lacks(message, '{') {
        assert forall|i: int| 0 <= i < full.len() implies lacks(#[trigger] full[i], '{') by {
            let p = parts[i];
            assert(is_template_part(p));
        }
        lemma_flatten_lacks(full, '{');
    }
}

proof fn lemma_painted_lacks_brace(text: Seq<char>, c: TermColor)
    requires
        lacks(text, '{'),
    ensures
        lacks(painted(text, c), '{'),
{
    let head = seq!['\x1B', '['] + ansi_code(c) + seq!['m'];
    let tail = seq!['\x1B', '[', '0', 'm'];
    assert(painted(text, c) == head + text + tail);
    assert forall|i: int| 0 <= i < painted(text, c).len() implies painted(text, c)[i] != '{' by {
        if i < head.len() {
            assert(painted(text, c)[i] == head[i]);
        } else if i < head.len() + text.len() {
            assert(painted(text, c)[i] == text[i - head.len()]);
        } else {
            assert(painted(text, c)[i] == tail[i - head.len() - text.len()]);
        }
    }
}

/// What the formatters write for an entry whose template is made of
/// placeholders and pieces of text without `{`: the template piece by piece,
/// with the timestamp, the level's name (painted or not, on a terminal) and
/// the message where their placeholders stood.
pub proof fn lemma_formatters_fill_in_place(
    parts: Seq<Seq<char>>,
    entry: LogEntry,
    console: CustomConsoleFormatter,
    file: CustomFileFormatter,
    console_out: Seq<char>,
    file_out: Seq<char>,
)
    requires
        all_parts(parts),
        console.format_string@ == parts.flatten(),
        file.format_string@ == parts.flatten(),
        is_timestamp(entry.timestamp@),
        console.renders(entry, console_out),
        file.renders(entry, file_out),
    ensures
        ({
            let ts = entry.timestamp@;
            let name = entry.level.name_spec();
            let msg = entry.message@;
            let plain = parts.map_values(|p: Seq<char>| filled(p, ts, name, msg)).flatten();
            let colored = parts.map_values(
                |p: Seq<char>| filled(p, ts, painted(name, entry.level.color_spec()), msg),
            ).flatten();
            &&& file_out == plain + seq!['\n']
            &&& console_out == plain || console_out == colored
        }),
{
    lemma_timestamp_chars(entry.timestamp@);
    lemma_level_name_plain(entry.level);
    let name = entry.level.name_spec();
    lemma_painted_lacks_brace(name, entry.level.color_spec());
    lemma_render_in_place(parts, entry.timestamp@, name, entry.message@);
    lemma_render_in_place(
        parts,
        entry.timestamp@,
        painted(name, entry.level.color_spec()),
        entry.message@,
    );
}

} // verus!
