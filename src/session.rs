//! The decisions of an interactive timing session: what a typed line means,
//! and the text shown when a task ends.
use vstd::prelude::*;
use crate::clock::{clock_text, duration_words};
use crate::timing::Task;

verus! {

/// A character with the Unicode White_Space property, as `char::is_whitespace`
/// lists them.
pub open spec fn is_white_space(c: char) -> bool {
    ('\u{9}' <= c <= '\u{d}') || c == ' ' || c == '\u{85}' || c == '\u{a0}' || c == '\u{1680}'
        || ('\u{2000}' <= c <= '\u{200a}') || c == '\u{2028}' || c == '\u{2029}' || c
        == '\u{202f}' || c == '\u{205f}' || c == '\u{3000}'
}

/// The text without its leading whitespace.
pub open spec fn trim_start(s: Seq<char>) -> Seq<char>
    decreases s.len(),
{
    if s.len() > 0 && is_white_space(s[0]) {
        trim_start(s.skip(1))
    } else {
        s
    }
}

/// The text without its trailing whitespace.
pub open spec fn trim_end(s: Seq<char>) -> Seq<char>
    decreases s.len(),
{
    if s.len() > 0 && is_white_space(s.last()) {
        trim_end(s.drop_last())
    } else {
        s
    }
}

/// The text with leading and trailing whitespace removed.
pub open spec fn trimmed(s: Seq<char>) -> Seq<char> {
    trim_end(trim_start(s))
}

/// Text that neither starts nor ends with whitespace is its own trim.
pub proof fn lemma_trimmed_unchanged(s: Seq<char>)
    requires
        s.len() == 0 || (!is_white_space(s[0]) && !is_white_space(s.last())),
    ensures
        trimmed(s) == s,
{
}

/// Relies on str::trim: the text without leading and trailing whitespace,
/// whitespace being the characters with the Unicode White_Space property.
#[verifier::external_body]
fn trim_text(s: &str) -> (r: &str)
    ensures
        r@ == trimmed(s@),
{
    s.trim()
}

/// What a line typed while a timer runs asks for.
#[derive(Clone, Copy, Debug, PartialEq, Eq, Structural)]
pub enum TimerCommand {
    /// `stop`: the timer ends.
    Stop,
    /// Anything else: the timer says so and runs on.
    Invalid,
}

/// What a line typed at the task prompt asks for.
#[derive(Clone, Debug, PartialEq, Eq)]
pub enum NameCommand {
    /// `exit`: the session ends.
    Exit,
    /// Any other text starts a task with that name.
    Start(String),
}

/// The word that stops a timer.
pub open spec fn stop_word() -> Seq<char> {
    seq!['s', 't', 'o', 'p']
}

/// The word that ends a session.
pub open spec fn exit_word() -> Seq<char> {
    seq!['e', 'x', 'i', 't']
}

/// The command of a line whose whitespace was trimmed.
pub fn timer_command_of_trimmed(line: &str) -> (r: TimerCommand)
    ensures
        r == if line@ == stop_word() {
            TimerCommand::Stop
        } else {
            TimerCommand::Invalid
        },
{
    proof {
        reveal_strlit("stop");
        assert("stop"@ =~= stop_word());
    }
    if text_equals(line, "stop") {
        TimerCommand::Stop
    } else {
        TimerCommand::Invalid
    }
}

/// The command of a line typed while a timer runs: `stop`, with any
/// surrounding whitespace, stops it.
pub fn timer_command(line: &str) -> (r: TimerCommand)
    ensures
        r == if trimmed(line@) == stop_word() {
            TimerCommand::Stop
        } else {
            TimerCommand::Invalid
        },
{
    timer_command_of_trimmed(trim_text(line))
}

/// The command of a task-prompt line whose whitespace was trimmed.
pub fn name_command_of_trimmed(line: &str) -> (r: NameCommand)
    ensures
        line@ == exit_word() ==> r == NameCommand::Exit,
        line@ != exit_word() ==> (r matches NameCommand::Start(name) && name@ == line@),
{
    proof {
        reveal_strlit("exit");
        assert("exit"@ =~= exit_word());
    }
    if text_equals(line, "exit") {
        NameCommand::Exit
    } else {
        NameCommand::Start(String::from_str(line))
    }
}

/// The command of a line typed at the task prompt: `exit` ends the session;
/// any other text, trimmed, names a task to start.
pub fn name_command(line: &str) -> (r: NameCommand)
    ensures
        trimmed(line@) == exit_word() ==> r == NameCommand::Exit,
        trimmed(line@) != exit_word() ==> (r matches NameCommand::Start(name) && name@ == trimmed(
            line@,
        )),
{
    name_command_of_trimmed(trim_text(line))
}

/// Whether two texts hold the same characters.
fn text_equals(a: &str, b: &str) -> (r: bool)
    ensures
        r == (a@ == b@),
{
    let n = a.unicode_len();
    if n != b.unicode_len() {
        return false;
    }
    let mut i: usize = 0;
    while i < n
        invariant
            i <= n == a@.len() == b@.len(),
            forall|j: int| 0 <= j < i ==> a@[j] == b@[j],
        decreases n - i,
    {
        if a.get_char(i) != b.get_char(i) {
            return false;
        }
        i = i + 1;
    }
    assert(a@ =~= b@);
    true
}

impl Task {
    /// The line that lists a finished task: `name: HH:MM:SS`.
    pub fn summary_line(&self) -> (r: String)
        ensures
            r@ == self.name@ + seq![':', ' '] + clock_text(self.seconds() as nat),
    {
        let mut out = self.name.clone();
        proof { reveal_strlit(": "); }
        out.append(": ");
        let clock = self.to_clock_string();
        out.append(clock.as_str());
        out
    }

    /// The message shown when a task starts: `Started task 'name', stop the task with 'stop'`.
    pub fn started_message(&self) -> (r: String)
        ensures
            r@ == "Started task '"@ + self.name@ + "', stop the task with 'stop'"@,
    {
        let mut out = String::from_str("Started task '");
        out.append(self.name.as_str());
        out.append("', stop the task with 'stop'");
        out
    }

    /// The message shown when a line other than `stop` is typed while the
    /// task's timer runs.
    pub fn invalid_input_message(&self) -> (r: String)
        ensures
            r@ == self.name@ + ": Invalid input. Please type 'stop' to stop the timer."@,
    {
        let mut out = self.name.clone();
        out.append(": Invalid input. Please type 'stop' to stop the timer.");
        out
    }

    /// The message shown when a task ends: `Task 'name' completed in 1 Minute.`
    pub fn completion_message(&self) -> (r: String)
        ensures
            r@ == "Task '"@ + self.name@ + "' completed in "@ + duration_words(self.seconds() as nat)
                + "."@,
    {
        let mut out = String::from_str("Task '");
        out.append(self.name.as_str());
        out.append("' completed in ");
        let words = self.time_tracked_string();
        out.append(words.as_str());
        out.append(".");
        out
    }
}

/// Each line on a line of its own, each after a line break.
pub open spec fn broken_lines(lines: Seq<Seq<char>>) -> Seq<char>
    decreases lines.len(),
{
    if lines.len() == 0 {
        Seq::empty()
    } else {
        broken_lines(lines.drop_last()) + "\n"@ + lines.last()
    }
}

/// The closing report of a session: a blank line pair, `Tasks completed:`,
/// then each finished task's line.
pub fn tasks_completed_report(lines: &Vec<String>) -> (r: String)
    ensures
        r@ == "\n\nTasks completed:"@ + broken_lines(lines@.map_values(|l: String| l@)),
{
    let ghost v = lines@.map_values(|l: String| l@);
    let mut out = String::from_str("\n\nTasks completed:");
    let mut i: usize = 0;
    assert(v.take(0) =~= Seq::<Seq<char>>::empty());
    while i < lines.len()
        invariant
            i <= lines@.len(),
            v == lines@.map_values(|l: String| l@),
            out@ == "\n\nTasks completed:"@ + broken_lines(v.take(i as int)),
        decreases lines@.len() - i,
    {
        out.append("\n");
        out.append(lines[i].as_str());
        assert(v.take(i as int + 1).drop_last() =~= v.take(i as int));
        i = i + 1;
    }
    assert(v.take(i as int) =~= v);
    out
}
} // verus!
