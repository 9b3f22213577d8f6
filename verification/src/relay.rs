//! The messages the background readers send while the tool runs, and how the
//! UI folds them into its log and status line.
//!
//! Ordinary output lines travel as they are, standard-error lines behind a
//! tag, and process termination as a single sentinel message: a fixed prefix
//! followed by the exit code. Draining applies the messages in order: an
//! ordinary line is appended to the log with a newline, a sentinel rewrites
//! the status line and leaves the log alone.

use vstd::prelude::*;

use crate::num::int_rep;
use crate::num::lemma_parse_int_rep;
use crate::num::parse_i32;
use crate::num::parse_i32_chars;
use crate::num::push_dec_i32;
use crate::text::chars_to_string;
use crate::text::push_str_chars;
use crate::text::starts_with_chars;
use crate::text::str_to_chars;
use vstd::string::StringExecFns;

verus! {

/// The fixed prefix that marks a sentinel message.
pub open spec fn exit_prefix() -> Seq<char> {
    "__EXIT_CODE__"@
}

/// The tag put before every standard-error line.
pub open spec fn stderr_tag() -> Seq<char> {
    "ERR: "@
}

/// The sentinel message for exit code `code`.
pub open spec fn spec_sentinel(code: int) -> Seq<char> {
    exit_prefix() + int_rep(code)
}

/// The status line shown once the tool has exited with `code`.
pub open spec fn exit_status_text(code: int) -> Seq<char> {
    "ps3dec exited with code "@ + int_rep(code)
}

/// The status line shown for a sentinel whose trailing text is no number.
pub open spec fn unknown_exit_status_text() -> Seq<char> {
    "ps3dec exited with unknown code"@
}

/// Builds the sentinel message for exit code `code`.
pub fn sentinel_message(code: i32) -> (r: String)
    ensures
        r@ == spec_sentinel(code as int),
{
    let mut out: Vec<char> = Vec::new();
    push_str_chars(&mut out, "__EXIT_CODE__");
    push_dec_i32(&mut out, code);
    chars_to_string(&out)
}

/// Puts the standard-error tag before a line read from that stream.
pub fn tag_stderr_line(line: &str) -> (r: String)
    ensures
        r@ == stderr_tag() + line@,
{
    let mut out: Vec<char> = Vec::new();
    push_str_chars(&mut out, "ERR: ");
    push_str_chars(&mut out, line);
    chars_to_string(&out)
}

/// The relay message reporting that the tool could not be started.
pub fn spawn_failure_message(detail: &str) -> (r: String)
    ensures
        r@ == "Failed to start ps3dec: "@ + detail@,
{
    let mut out: Vec<char> = Vec::new();
    push_str_chars(&mut out, "Failed to start ps3dec: ");
    push_str_chars(&mut out, detail);
    chars_to_string(&out)
}

/// The relay message reporting a failed read from the tool's standard
/// output.
pub fn stdout_error_message(detail: &str) -> (r: String)
    ensures
        r@ == "Error reading stdout: "@ + detail@,
{
    let mut out: Vec<char> = Vec::new();
    push_str_chars(&mut out, "Error reading stdout: ");
    push_str_chars(&mut out, detail);
    chars_to_string(&out)
}

/// The relay message reporting a failed read from the tool's standard
/// error.
pub fn stderr_error_message(detail: &str) -> (r: String)
    ensures
        r@ == "Error reading stderr: "@ + detail@,
{
    let mut out: Vec<char> = Vec::new();
    push_str_chars(&mut out, "Error reading stderr: ");
    push_str_chars(&mut out, detail);
    chars_to_string(&out)
}

/// Builds the status line for exit code `code`.
pub fn exit_status_message(code: i32) -> (r: String)
    ensures
        r@ == exit_status_text(code as int),
{
    let mut out: Vec<char> = Vec::new();
    push_str_chars(&mut out, "ps3dec exited with code ");
    push_dec_i32(&mut out, code);
    chars_to_string(&out)
}

/// What the UI keeps of a run: the accumulated log text and the one-line
/// status.
pub struct RunLog {
    pub output: String,
    pub status: String,
}

/// The mathematical content of a [`RunLog`].
pub struct RunLogView {
    pub output: Seq<char>,
    pub status: Seq<char>,
}

impl View for RunLog {
    type V = RunLogView;

    open spec fn view(&self) -> RunLogView {
        RunLogView { output: self.output@, status: self.status@ }
    }
}

impl RunLog {
    /// An empty log with an empty status, as at startup.
    pub fn new() -> (r: RunLog)
        ensures
            r@.output.len() == 0,
            r@.status.len() == 0,
    {
        RunLog { output: String::new(), status: String::new() }
    }

    /// The log at the moment a run starts: the invoked command line as its
    /// first line, and a status that says the tool is running.
    pub fn start(command_line: &str) -> (r: RunLog)
        ensures
            r@.output == command_line@ + seq!['\n'],
            r@.status == "Running ps3dec..."@,
    {
        let mut output = String::from_str(command_line);
        output.append("\n");
        proof {
            reveal_strlit("\n");
            assert("\n"@ =~= seq!['\n']);
        }
        RunLog { output, status: String::from_str("Running ps3dec...") }
    }
}

/// Whether a relay message is the termination sentinel.
pub open spec fn is_exit_line(m: Seq<char>) -> bool {
    exit_prefix().is_prefix_of(m)
}

/// One relay message folded into the log: a sentinel rewrites the status
/// from its trailing exit code, anything else is appended to the output with
/// a newline.
pub open spec fn apply_message_spec(l: RunLogView, m: Seq<char>) -> RunLogView {
    if is_exit_line(m) {
        match parse_i32(m.skip(exit_prefix().len() as int)) {
            Some(code) => RunLogView { output: l.output, status: exit_status_text(code as int) },
            None => RunLogView { output: l.output, status: unknown_exit_status_text() },
        }
    } else {
        RunLogView { output: l.output + m + seq!['\n'], status: l.status }
    }
}

/// A whole batch of relay messages folded into the log, in order.
pub open spec fn apply_all_spec(l: RunLogView, ms: Seq<Seq<char>>) -> RunLogView
    decreases ms.len(),
{
    if ms.len() == 0 {
        l
    } else {
        apply_message_spec(apply_all_spec(l, ms.drop_last()), ms.last())
    }
}

/// Folds one relay message into the log, as [`apply_message_spec`]
/// describes.
pub fn apply_message(log: &mut RunLog, line: &str)
    ensures
        final(log)@ == apply_message_spec(old(log)@, line@),
{
    let chars = str_to_chars(line);
    let prefix = str_to_chars("__EXIT_CODE__");
    proof {
        reveal_strlit("__EXIT_CODE__");
        assert(prefix@.len() == 13);
    }
    if starts_with_chars(&chars, &prefix) {
        match parse_i32_chars(&chars, 13) {
            Some(code) => {
                log.status = exit_status_message(code);
            },
            None => {
                log.status = String::from_str("ps3dec exited with unknown code");
            },
        }
    } else {
        log.output.append(line);
        log.output.append("\n");
        proof {
            reveal_strlit("\n");
            assert("\n"@ =~= seq!['\n']);
        }
    }
}

/// Folds a batch of relay messages into the log, first to last, as
/// [`apply_all_spec`] describes.
#[verifier::loop_isolation(false)]
pub fn drain_messages(log: &mut RunLog, msgs: &Vec<String>)
    ensures
        final(log)@ == apply_all_spec(old(log)@, msgs@.map_values(|s: String| s@)),
{
    let ghost vs = msgs@.map_values(|s: String| s@);
    proof {
        assert(vs.take(0) =~= Seq::<Seq<char>>::empty());
    }
    let mut i: usize = 0;
    while i < msgs.len()
        invariant
            i <= msgs@.len(),
            log@ == apply_all_spec(old(log)@, vs.take(i as int)),
        decreases msgs@.len() - i,
    {
        apply_message(log, msgs[i].as_str());
        proof {
            assert(vs.take(i + 1).drop_last() =~= vs.take(i as int));
            assert(vs.take(i + 1).last() == vs[i as int]);
        }
        i = i + 1;
    }
    proof {
        assert(vs.take(msgs@.len() as int) =~= vs);
    }
}

/// Folding a message in never shortens the output, and what was there stays
/// in place.
pub proof fn lemma_output_grows(l: RunLogView, m: Seq<char>)
    ensures
        l.output.is_prefix_of(apply_message_spec(l, m).output),
{
    let out = apply_message_spec(l, m).output;
    assert(l.output =~= out.subrange(0, l.output.len() as int));
}

/// An ordinary line among the drained messages stands in the final output,
/// its newline behind it.
pub proof fn lemma_drain_keeps_lines(l: RunLogView, ms: Seq<Seq<char>>, i: int)
    requires
        0 <= i < ms.len(),
        !is_exit_line(ms[i]),
    ensures
        exists|j: int|
            0 <= j && j + ms[i].len() + 1 <= apply_all_spec(l, ms).output.len()
                && #[trigger] apply_all_spec(l, ms).output.subrange(j, j + ms[i].len() + 1)
                == ms[i] + seq!['\n'],
    decreases ms.len(),
{
    let prev = apply_all_spec(l, ms.drop_last());
    let line = ms[i];
    if i == ms.len() - 1 {
        assert(ms.last() == line);
        let out = apply_all_spec(l, ms).output;
        assert(out == prev.output + line + seq!['\n']);
        let j = prev.output.len() as int;
        assert(out.subrange(j, j + line.len() + 1) =~= line + seq!['\n']);
    } else {
        assert(ms.drop_last()[i] == line);
        lemma_drain_keeps_lines(l, ms.drop_last(), i);
        let j = choose|j: int|
            0 <= j && j + line.len() + 1 <= prev.output.len()
                && #[trigger] prev.output.subrange(j, j + line.len() + 1) == line + seq!['\n'];
        lemma_output_grows(prev, ms.last());
        let fin = apply_all_spec(l, ms).output;
        assert(fin.subrange(j, j + line.len() + 1) =~= prev.output.subrange(
            j,
            j + line.len() + 1,
        )) by {
            assert(prev.output =~= fin.subrange(0, prev.output.len() as int));
        }
    }
}

/// Draining messages that end with the sentinel for `code` leaves the
/// status reporting exactly that exit code.
pub proof fn lemma_drain_exit_status(l: RunLogView, ms: Seq<Seq<char>>, code: i32)
    requires
        ms.len() > 0,
        ms.last() == spec_sentinel(code as int),
    ensures
        apply_all_spec(l, ms).status == exit_status_text(code as int),
{
    let m = ms.last();
    assert(is_exit_line(m)) by {
        assert(exit_prefix() =~= m.subrange(0, exit_prefix().len() as int));
    }
    assert(m.skip(exit_prefix().len() as int) =~= int_rep(code as int));
    lemma_parse_int_rep(code);
}

} // verus!
