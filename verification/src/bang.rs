//! Commands that the user runs in a shell.
use vstd::prelude::*;

use crate::text::{decimal, decimal_text, take_chars};

verus! {

/// How long a command may take, in seconds.
pub const TIMEOUT_SECS: u64 = 30;

/// The number of characters of the output that are kept.
pub const MAX_OUTPUT_CHARS: usize = 20_000;

/// What a command gave.
pub struct BangResult {
    pub output: String,
    pub success: bool,
}

/// How a command ended.
pub enum CommandEnd {
    /// It could not be started.
    NotStarted(String),
    /// It ran to its end.
    Done { stdout: String, stderr: String, success: bool },
    /// Its output could not be read.
    Failed(String),
    /// It took too long.
    TimedOut,
}

/// The output of a command as it is kept.
pub open spec fn kept_output(output: Seq<char>) -> Seq<char> {
    if output.len() > MAX_OUTPUT_CHARS {
        output.take(MAX_OUTPUT_CHARS as int) + "\n... (truncated to the first "@ + decimal(
            MAX_OUTPUT_CHARS as nat,
        ) + " characters)"@
    } else {
        output
    }
}

/// What a command gave, by how it ended.
pub open spec fn result_text(end: CommandEnd) -> (Seq<char>, bool) {
    match end {
        CommandEnd::NotStarted(e) => ("failed to spawn command: "@ + e@, false),
        CommandEnd::Done { stdout, stderr, success } => (
            kept_output(stdout@ + stderr@),
            success,
        ),
        CommandEnd::Failed(e) => ("command failed: "@ + e@, false),
        CommandEnd::TimedOut => (
            "command timed out after "@ + decimal(TIMEOUT_SECS as nat) + "s"@,
            false,
        ),
    }
}

/// What a command gave, by how it ended.
pub fn result_of(end: CommandEnd) -> (r: BangResult)
    ensures
        (r.output@, r.success) == result_text(end),
{
    match end {
        CommandEnd::NotStarted(e) => {
            let mut output = "failed to spawn command: ".to_owned();
            output.append(e.as_str());
            BangResult { output, success: false }
        },
        CommandEnd::Done { stdout, stderr, success } => {
            let mut all = stdout;
            all.append(stderr.as_str());
            let mut output = take_chars(all.as_str(), MAX_OUTPUT_CHARS);
            if all.as_str().unicode_len() > MAX_OUTPUT_CHARS {
                output.append("\n... (truncated to the first ");
                output.append(decimal_text(MAX_OUTPUT_CHARS as u64).as_str());
                output.append(" characters)");
            }
            BangResult { output, success }
        },
        CommandEnd::Failed(e) => {
            let mut output = "command failed: ".to_owned();
            output.append(e.as_str());
            BangResult { output, success: false }
        },
        CommandEnd::TimedOut => {
            let mut output = "command timed out after ".to_owned();
            output.append(decimal_text(TIMEOUT_SECS).as_str());
            output.append("s");
            BangResult { output, success: false }
        },
    }
}

/// What the agent is told of a command.
pub open spec fn told(command: Seq<char>, output: Seq<char>, success: bool) -> Seq<char> {
    "I ran `"@ + command + "`"@ + (if success {
        Seq::empty()
    } else {
        " (exit status: failed)"@
    }) + ", here's the output:\n\n```\n"@ + output + "\n```"@
}

/// What the agent is told of a command.
pub fn format_for_agent(command: &str, result: &BangResult) -> (r: String)
    ensures
        r@ == told(command@, result.output@, result.success),
{
    let mut r = "I ran `".to_owned();
    r.append(command);
    r.append("`");
    let mut status = String::new();
    if !result.success {
        status = " (exit status: failed)".to_owned();
    }
    r.append(status.as_str());
    assert(status@ =~= (if result.success {
        Seq::empty()
    } else {
        " (exit status: failed)"@
    }));
    r.append(", here's the output:\n\n```\n");
    r.append(result.output.as_str());
    r.append("\n```");
    r
}

} // verus!
