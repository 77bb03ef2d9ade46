//! Logging of FMI calls and of the messages that an FMU reports: the lines
//! that a logger writes.
use vstd::prelude::*;
use colored::Colorize;
use crate::fmi3::{fmi3Status, is_success};
use crate::text::{chars_of, push_char};

verus! {

/// Receives the FMI calls that are made and the messages that the FMU logs.
pub trait Logger {
    /// Logs an FMI call and its status.
    fn log_call(&self, status: fmi3Status, message: &str);

    /// Logs a message of the FMU, with its status and category.
    fn log_message(&self, status: fmi3Status, category: &str, message: &str);
}

/// The formatting of log lines: with colored prefixes where the stream is a
/// terminal, plain otherwise.
#[derive(Debug, Clone, Copy, PartialEq, Eq)]
pub struct DefaultLogger {
    pub is_terminal: bool,
}

/// Whether a character is white space (the Unicode `White_Space` property, as
/// `char::is_whitespace` decides it).
pub open spec fn is_white_space(c: char) -> bool {
    ||| '\u{9}' <= c <= '\u{D}'
    ||| c == ' '
    ||| c == '\u{85}'
    ||| c == '\u{A0}'
    ||| c == '\u{1680}'
    ||| '\u{2000}' <= c <= '\u{200A}'
    ||| c == '\u{2028}'
    ||| c == '\u{2029}'
    ||| c == '\u{202F}'
    ||| c == '\u{205F}'
    ||| c == '\u{3000}'
}

/// `s` without its trailing white space (what `str::trim_end` gives).
pub open spec fn trimmed_end(s: Seq<char>) -> Seq<char>
    decreases s.len(),
{
    if s.len() > 0 && is_white_space(s.last()) {
        trimmed_end(s.drop_last())
    } else {
        s
    }
}

/// Trimming the end keeps a prefix, removes only white space, and leaves no
/// white space at the end.
pub proof fn lemma_trimmed_end_shape(s: Seq<char>)
    ensures
        trimmed_end(s).len() <= s.len(),
        trimmed_end(s) == s.take(trimmed_end(s).len() as int),
        forall|i: int| trimmed_end(s).len() <= i < s.len() ==> is_white_space(#[trigger] s[i]),
        trimmed_end(s).len() > 0 ==> !is_white_space(trimmed_end(s).last()),
    decreases s.len(),
{
    if s.len() > 0 && is_white_space(s.last()) {
        let q = s.drop_last();
        lemma_trimmed_end_shape(q);
        let n = trimmed_end(q).len() as int;
        assert(q.take(n) =~= s.take(n));
        assert forall|i: int| n <= i < s.len() implies is_white_space(#[trigger] s[i]) by {
            if i < q.len() {
                assert(q[i] == s[i]);
            }
        }
    } else {
        assert(s.take(s.len() as int) =~= s);
    }
}

/// The escape sequence that makes a terminal show `s` in the color with
/// ANSI code `code`, and resets the color after it.
pub open spec fn painted(code: Seq<char>, s: Seq<char>) -> Seq<char> {
    seq!['\u{1B}', '['] + code + seq!['m'] + s + seq!['\u{1B}', '[', '0', 'm']
}

/// The text of `s` as `colored` renders it in color `code`: colored where it
/// colors (this depends on the environment: `NO_COLOR`, `CLICOLOR`, ...),
/// plain otherwise.
pub open spec fn rendered(code: Seq<char>, s: Seq<char>, r: Seq<char>) -> bool {
    r == s || r == painted(code, s)
}

/// `Colorize::bright_black` of the `colored` crate, displayed. The result is
/// `s`, or `s` in escape codes for color 90 where `colored` colors; which one
/// is not stated (it depends on the environment). Shown for strings without
/// an escape character (`colored` rewrites reset sequences inside its input).
#[verifier::external_body]
fn bright_black(s: &str) -> (r: String)
    ensures
        !s@.contains('\u{1B}') ==> rendered("90"@, s@, r@),
{
    s.bright_black().to_string()
}

/// `Colorize::bright_blue` of the `colored` crate, displayed (color 94); as
/// `bright_black`.
#[verifier::external_body]
fn bright_blue(s: &str) -> (r: String)
    ensures
        !s@.contains('\u{1B}') ==> rendered("94"@, s@, r@),
{
    s.bright_blue().to_string()
}

/// `Colorize::bright_red` of the `colored` crate, displayed (color 91); as
/// `bright_black`.
#[verifier::external_body]
fn bright_red(s: &str) -> (r: String)
    ensures
        !s@.contains('\u{1B}') ==> rendered("91"@, s@, r@),
{
    s.bright_red().to_string()
}

/// `Colorize::yellow` of the `colored` crate, displayed (color 33); as
/// `bright_black`.
#[verifier::external_body]
fn yellow(s: &str) -> (r: String)
    ensures
        !s@.contains('\u{1B}') ==> rendered("33"@, s@, r@),
{
    s.yellow().to_string()
}

/// `Colorize::normal` of the `colored` crate, displayed: a string without
/// color or style is shown as it is.
#[verifier::external_body]
fn normal(s: &str) -> (r: String)
    ensures
        r@ == s@,
{
    s.normal().to_string()
}

/// The label of a status in a message line.
pub open spec fn status_label(status: fmi3Status) -> Seq<char> {
    match status {
        fmi3Status::fmi3OK => "[INFO]"@,
        fmi3Status::fmi3Warning => "[WARNING]"@,
        fmi3Status::fmi3Discard => "[DISCARD]"@,
        fmi3Status::fmi3Error => "[ERROR]"@,
        fmi3Status::fmi3Fatal => "[FATAL]"@,
    }
}

/// The color of a status label on a terminal: blue for OK, yellow for a
/// warning, red otherwise.
pub open spec fn status_color(status: fmi3Status) -> Seq<char> {
    match status {
        fmi3Status::fmi3OK => "94"@,
        fmi3Status::fmi3Warning => "33"@,
        _ => "91"@,
    }
}

/// The line of a logged call: the prefix `[FMI]` (dark gray on a terminal),
/// a space and the message.
pub open spec fn call_line_ok(is_terminal: bool, message: Seq<char>, line: Seq<char>) -> bool {
    let rest = seq![' '] + message;
    if is_terminal {
        exists|p: Seq<char>| rendered("90"@, "[FMI]"@, p) && line == p + rest
    } else {
        line == "[FMI]"@ + rest
    }
}

/// The line of a logged message: the status label (colored on a terminal),
/// the category in brackets, and the message without trailing white space.
pub open spec fn message_line_ok(
    is_terminal: bool,
    status: fmi3Status,
    category: Seq<char>,
    message: Seq<char>,
    line: Seq<char>,
) -> bool {
    let rest = " ["@ + category + "] "@ + trimmed_end(message);
    if is_terminal {
        exists|p: Seq<char>| rendered(status_color(status), status_label(status), p) && line == p + rest
    } else {
        line == status_label(status) + rest
    }
}

/// `s` without its trailing white space.
pub fn trim_end(s: &str) -> (r: String)
    ensures
        r@ == trimmed_end(s@),
        r@.len() <= s@.len(),
        r@ == s@.take(r@.len() as int),
        forall|i: int| r@.len() <= i < s@.len() ==> is_white_space(#[trigger] s@[i]),
        r@.len() > 0 ==> !is_white_space(r@.last()),
{
    proof {
        lemma_trimmed_end_shape(s@);
    }
    let cs = chars_of(s);
    let mut k: usize = cs.len();
    assert(cs@.take(k as int) =~= s@);
    while k > 0 && is_white_space_char(cs[k - 1])
        invariant
            0 <= k <= cs.len(),
            cs@ == s@,
            trimmed_end(s@) == trimmed_end(cs@.take(k as int)),
        decreases k,
    {
        assert(cs@.take(k as int).drop_last() =~= cs@.take(k - 1));
        k = k - 1;
    }
    assert(trimmed_end(cs@.take(k as int)) == cs@.take(k as int));
    let mut r = String::new();
    let mut i: usize = 0;
    while i < k
        invariant
            0 <= i <= k <= cs.len(),
            r@ == cs@.take(i as int),
        decreases k - i,
    {
        push_char(&mut r, cs[i]);
        assert(cs@.take(i + 1) =~= cs@.take(i as int).push(cs@[i as int]));
        i = i + 1;
    }
    r
}

fn is_white_space_char(c: char) -> (b: bool)
    ensures
        b == is_white_space(c),
{
    ('\u{9}' <= c && c <= '\u{D}') || c == ' ' || c == '\u{85}' || c == '\u{A0}' || c == '\u{1680}'
        || ('\u{2000}' <= c && c <= '\u{200A}') || c == '\u{2028}' || c == '\u{2029}'
        || c == '\u{202F}' || c == '\u{205F}' || c == '\u{3000}'
}

impl DefaultLogger {
    /// A logger for a stream that is a terminal or not.
    pub fn new(is_terminal: bool) -> (r: DefaultLogger)
        ensures
            r.is_terminal == is_terminal,
    {
        DefaultLogger { is_terminal }
    }

    /// The line that logs an FMI call (what `log_call` writes, without the
    /// line end).
    pub fn call_line(&self, message: &str) -> (line: String)
        ensures
            call_line_ok(self.is_terminal, message@, line@),
    {
        proof {
            reveal_strlit("[FMI]");
        }
        let mut line = if self.is_terminal {
            bright_black("[FMI]")
        } else {
            normal("[FMI]")
        };
        let ghost p = line@;
        push_char(&mut line, ' ');
        line.append(message);
        assert(line@ =~= p + (seq![' '] + message@));
        line
    }

    /// The line that logs a message of the FMU (what `log_message` writes,
    /// without the line end).
    pub fn message_line(&self, status: fmi3Status, category: &str, message: &str) -> (line: String)
        ensures
            message_line_ok(self.is_terminal, status, category@, message@, line@),
    {
        let trimmed = trim_end(message);
        proof {
            reveal_strlit("[INFO]");
            reveal_strlit("[WARNING]");
            reveal_strlit("[ERROR]");
            reveal_strlit("[DISCARD]");
            reveal_strlit("[FATAL]");
        }
        let mut line = if self.is_terminal {
            match status {
                fmi3Status::fmi3OK => bright_blue("[INFO]"),
                fmi3Status::fmi3Warning => yellow("[WARNING]"),
                fmi3Status::fmi3Error => bright_red("[ERROR]"),
                fmi3Status::fmi3Discard => bright_red("[DISCARD]"),
                fmi3Status::fmi3Fatal => bright_red("[FATAL]"),
            }
        } else {
            match status {
                fmi3Status::fmi3OK => String::from_str("[INFO]"),
                fmi3Status::fmi3Warning => String::from_str("[WARNING]"),
                fmi3Status::fmi3Error => String::from_str("[ERROR]"),
                fmi3Status::fmi3Discard => String::from_str("[DISCARD]"),
                fmi3Status::fmi3Fatal => String::from_str("[FATAL]"),
            }
        };
        let ghost p = line@;
        line.append(" [");
        line.append(category);
        line.append("] ");
        line.append(trimmed.as_str());
        assert(line@ =~= p + (" ["@ + category@ + "] "@ + trimmed_end(message@)));
        assert(self.is_terminal ==> rendered(status_color(status), status_label(status), p));
        line
    }
}

/// On a terminal a message line is the plain line, or the plain line with
/// its label (the part before the category) in color: removing the color
/// codes gives back the plain line.
pub proof fn lemma_terminal_line_is_colored_plain_line(
    status: fmi3Status,
    category: Seq<char>,
    message: Seq<char>,
    plain: Seq<char>,
    line: Seq<char>,
)
    requires
        message_line_ok(false, status, category, message, plain),
        message_line_ok(true, status, category, message, line),
    ensures
        line == plain || exists|label: Seq<char>, rest: Seq<char>|
            plain == label + rest && line == painted(status_color(status), label) + rest,
{
    let rest = " ["@ + category + "] "@ + trimmed_end(message);
    let p = choose|p: Seq<char>| rendered(status_color(status), status_label(status), p) && line == p + rest;
    if p != status_label(status) {
        assert(plain == status_label(status) + rest && line == painted(status_color(status), status_label(status)) + rest);
    }
}

/// A message line is the status label (painted in the status's color only on
/// a terminal), a space, the category in brackets, a space, and the message
/// with its trailing white space removed and nothing else changed.
pub proof fn lemma_message_line_parts(
    is_terminal: bool,
    status: fmi3Status,
    category: Seq<char>,
    message: Seq<char>,
    line: Seq<char>,
)
    requires
        message_line_ok(is_terminal, status, category, message, line),
    ensures
        exists|label: Seq<char>, kept: Seq<char>| {
            &&& line == label + " ["@ + category + "] "@ + kept
            &&& (label == status_label(status) || (is_terminal && label == painted(status_color(status), status_label(status))))
            &&& kept.len() <= message.len()
            &&& kept == message.take(kept.len() as int)
            &&& forall|i: int| kept.len() <= i < message.len() ==> is_white_space(#[trigger] message[i])
            &&& kept.len() > 0 ==> !is_white_space(kept.last())
        },
{
    lemma_trimmed_end_shape(message);
    let kept = trimmed_end(message);
    let rest = " ["@ + category + "] "@ + kept;
    let label = if is_terminal {
        choose|p: Seq<char>| rendered(status_color(status), status_label(status), p) && line == p + rest
    } else {
        status_label(status)
    };
    assert(line == label + " ["@ + category + "] "@ + kept);
}

/// On a terminal a call line is the plain line, or the plain line with its
/// `[FMI]` prefix in color.
pub proof fn lemma_terminal_call_line_is_colored_plain_line(message: Seq<char>, plain: Seq<char>, line: Seq<char>)
    requires
        call_line_ok(false, message, plain),
        call_line_ok(true, message, line),
    ensures
        line == plain || exists|label: Seq<char>, rest: Seq<char>|
            plain == label + rest && line == painted("90"@, label) + rest,
{
    let rest = seq![' '] + message;
    let p = choose|p: Seq<char>| rendered("90"@, "[FMI]"@, p) && line == p + rest;
    if p != "[FMI]"@ {
        assert(plain == "[FMI]"@ + rest && line == painted("90"@, "[FMI]"@) + rest);
    }
}

/// On a terminal every status that fails a call (Discard, Error, Fatal) is
/// shown in one color, which is neither that of OK nor that of Warning, and
/// OK and Warning differ too.
pub proof fn lemma_failure_statuses_share_color(s1: fmi3Status, s2: fmi3Status)
    requires
        !is_success(s1),
        !is_success(s2),
    ensures
        status_color(s1) == status_color(s2),
        status_color(s1) != status_color(fmi3Status::fmi3OK),
        status_color(s1) != status_color(fmi3Status::fmi3Warning),
        status_color(fmi3Status::fmi3OK) != status_color(fmi3Status::fmi3Warning),
{
    reveal_strlit("94");
    reveal_strlit("33");
    reveal_strlit("91");
    assert("94"@[1] != "33"@[1] && "94"@[1] != "91"@[1] && "91"@[1] != "33"@[1]);
}

/// Different statuses are logged with different labels.
pub proof fn lemma_status_labels_distinct(s1: fmi3Status, s2: fmi3Status)
    requires
        s1 != s2,
    ensures
        status_label(s1) != status_label(s2),
{
    reveal_strlit("[INFO]");
    reveal_strlit("[WARNING]");
    reveal_strlit("[ERROR]");
    reveal_strlit("[DISCARD]");
    reveal_strlit("[FATAL]");
    let i = "[INFO]"@;
    let w = "[WARNING]"@;
    let e = "[ERROR]"@;
    let d = "[DISCARD]"@;
    let f = "[FATAL]"@;
    assert(i.len() == 6 && w.len() == 9 && e.len() == 7 && d.len() == 9 && f.len() == 7);
    assert(w[1] != d[1]);
    assert(e[1] != f[1]);
    assert(w != d && e != f);
}

} // verus!
