//! Running one tool invocation: what to run for a tool call, how captured
//! output is bounded, and which commands are flagged or refused.

use vstd::prelude::*;
use crate::config::{default_dangerous_patterns, default_patterns_spec, Config};
use crate::text::{
    byte_count, byte_len, char_width, chars_of, free_of, join_first, join_spec,
    lemma_byte_len_concat, lemma_byte_len_single, lemma_joined_lines_fit,
    lemma_joined_lines_prefix, lemma_lines_free_of_newline, lemma_lines_of_join, lines_of,
    split_lines, string_of_range, texts, utf8_width,
};
use crate::text::{decimal_of, decimal_text, first_word, first_word_of, same_text, trim, trim_spec};
use crate::tool_call::{ToolCall, ToolCallView};

verus! {

/// What came of running a tool.
#[derive(Debug, PartialEq, Eq)]
pub struct CommandResult {
    /// What the tool wrote to standard output, within the caps.
    pub stdout: String,
    /// What the tool wrote to standard error, within the caps.
    pub stderr: String,
    /// The exit code; -1 where the tool gave none.
    pub exit_code: i32,
    /// Whether the tool succeeded.
    pub success: bool,
    /// Whether either stream was cut.
    pub truncated: bool,
}

/// A result as plain values.
pub struct CommandResultView {
    pub stdout: Seq<char>,
    pub stderr: Seq<char>,
    pub exit_code: i32,
    pub success: bool,
    pub truncated: bool,
}

impl View for CommandResult {
    type V = CommandResultView;

    open spec fn view(&self) -> CommandResultView {
        CommandResultView {
            stdout: self.stdout@,
            stderr: self.stderr@,
            exit_code: self.exit_code,
            success: self.success,
            truncated: self.truncated,
        }
    }
}

impl Clone for CommandResult {
    fn clone(&self) -> (copy: Self)
        ensures
            copy == *self,
    {
        CommandResult {
            stdout: self.stdout.clone(),
            stderr: self.stderr.clone(),
            exit_code: self.exit_code,
            success: self.success,
            truncated: self.truncated,
        }
    }
}

impl CommandResult {
    /// Success goes with exit code 0, and only with it.
    pub open spec fn well_formed(&self) -> bool {
        self.success <==> self.exit_code == 0
    }
}

/// The notice that ends a stream that was cut.
pub open spec fn truncation_notice() -> Seq<char> {
    "\n\n[Output truncated due to size limits]"@
}

/// The number of leading characters of `s` that fit in `cap` bytes of
/// UTF-8.
pub open spec fn byte_prefix_len(s: Seq<char>, cap: nat) -> int
    decreases s.len(),
{
    if s.len() == 0 || utf8_width(s[0]) > cap {
        0
    } else {
        1 + byte_prefix_len(s.drop_first(), (cap - utf8_width(s[0])) as nat)
    }
}

/// A stream cut to the caps: first to the longest prefix of whole
/// characters within `max_bytes` bytes, if it has more; then to its first
/// `max_lines` lines, joined by line feeds, if it has more. The flag says
/// whether either cut was made, and then the notice is appended.
pub open spec fn truncate_spec(output: Seq<char>, max_bytes: nat, max_lines: nat) -> (
    Seq<char>,
    bool,
) {
    let over_bytes = byte_len(output) > max_bytes;
    let kept = if over_bytes {
        output.take(byte_prefix_len(output, max_bytes))
    } else {
        output
    };
    let lines = split_lines(kept);
    let over_lines = lines.len() > max_lines;
    let body = if over_lines {
        join_spec(lines.take(max_lines as int), "\n"@)
    } else {
        kept
    };
    if over_bytes || over_lines {
        (body + truncation_notice(), true)
    } else {
        (body, false)
    }
}

/// Bounds the output of tools and decides what to run for a tool call.
#[derive(Debug, Clone, Copy, PartialEq, Eq, Structural)]
pub struct CommandExecutor {
    max_output_bytes: usize,
    max_output_lines: usize,
}

fn byte_prefix(v: &[char], cap: usize) -> (count: usize)
    ensures
        count <= v.len(),
        count == byte_prefix_len(v@, cap as nat),
{
    let mut used: usize = 0;
    let mut i: usize = 0;
    proof {
        assert(v@.skip(0) == v@);
    }
    while i < v.len()
        invariant
            i <= v.len(),
            used <= cap,
            byte_prefix_len(v@, cap as nat) == i + byte_prefix_len(
                v@.skip(i as int),
                (cap - used) as nat,
            ),
        decreases v.len() - i,
    {
        let w = char_width(v[i]);
        proof {
            assert(v@.skip(i as int)[0] == v@[i as int]);
            assert(v@.skip(i as int).drop_first() == v@.skip(i + 1));
        }
        if w > cap - used {
            return i;
        }
        used += w;
        i += 1;
    }
    i
}

impl CommandExecutor {
    /// The byte cap.
    pub closed spec fn byte_cap(&self) -> nat {
        self.max_output_bytes as nat
    }

    /// The line cap.
    pub closed spec fn line_cap(&self) -> nat {
        self.max_output_lines as nat
    }

    /// An executor with the caps of `config`.
    pub fn new(config: &Config) -> (executor: Self)
        ensures
            executor.byte_cap() == config@.max_output_bytes,
            executor.line_cap() == config@.max_output_lines,
    {
        CommandExecutor {
            max_output_bytes: config.max_output_bytes,
            max_output_lines: config.max_output_lines,
        }
    }

    /// An executor with the given caps.
    pub fn with_limits(max_output_bytes: usize, max_output_lines: usize) -> (executor: Self)
        ensures
            executor.byte_cap() == max_output_bytes,
            executor.line_cap() == max_output_lines,
    {
        CommandExecutor { max_output_bytes, max_output_lines }
    }

    /// Cuts a captured stream to the caps, as `truncate_spec` defines it,
    /// and says whether it was cut.
    pub fn truncate_output(&self, output: String) -> (result: (String, bool))
        ensures
            (result.0@, result.1) == truncate_spec(output@, self.byte_cap(), self.line_cap()),
    {
        let chars = chars_of(output.as_str());
        let over_bytes = byte_count(chars.as_slice()) > self.max_output_bytes as u128;
        let kept_len = if over_bytes {
            byte_prefix(chars.as_slice(), self.max_output_bytes)
        } else {
            chars.len()
        };
        let all = chars.as_slice();
        let kept = &all[0..kept_len];
        proof {
            assert(kept@ == chars@.take(kept_len as int));
            if !over_bytes {
                assert(chars@.take(kept_len as int) == chars@);
            }
        }
        let lines = lines_of(kept);
        let over_lines = lines.len() > self.max_output_lines;
        let mut body = if over_lines {
            join_first(&lines, self.max_output_lines, "\n")
        } else {
            string_of_range(kept, 0, kept_len)
        };
        proof {
            assert(kept@.subrange(0, kept_len as int) == kept@);
            assert(texts(lines@).len() == lines@.len());
        }
        if over_bytes || over_lines {
            body.append("\n\n[Output truncated due to size limits]");
            (body, true)
        } else {
            (body, false)
        }
    }
}

/// The prefix that `byte_prefix_len` measures fits in the cap, and one
/// character more would not.
pub proof fn lemma_byte_prefix(s: Seq<char>, cap: nat)
    ensures
        0 <= byte_prefix_len(s, cap) <= s.len(),
        byte_len(s.take(byte_prefix_len(s, cap))) <= cap,
        byte_prefix_len(s, cap) < s.len() ==> byte_len(s.take(byte_prefix_len(s, cap) + 1)) > cap,
    decreases s.len(),
{
    if s.len() == 0 || utf8_width(s[0]) > cap {
        assert(s.take(0) == Seq::<char>::empty());
        if s.len() > 0 {
            assert(s.take(1) == seq![s[0]]);
            lemma_byte_len_single(s[0]);
        }
    } else {
        let rest = s.drop_first();
        let left = (cap - utf8_width(s[0])) as nat;
        lemma_byte_prefix(rest, left);
        let k = byte_prefix_len(rest, left);
        lemma_byte_len_single(s[0]);
        assert(s.take(k + 1) == seq![s[0]] + rest.take(k));
        lemma_byte_len_concat(seq![s[0]], rest.take(k));
        if k < rest.len() {
            assert(s.take(k + 2) == seq![s[0]] + rest.take(k + 1));
            lemma_byte_len_concat(seq![s[0]], rest.take(k + 1));
        }
    }
}

/// What is kept of a cut stream stays within both caps; the flag is set
/// exactly if what is kept differs from the stream; a cut stream ends with
/// the notice, and a stream within the caps is handed back as it is.
pub proof fn lemma_truncation_contract(output: Seq<char>, max_bytes: nat, max_lines: nat)
    ensures
        ({
            let (text, flag) = truncate_spec(output, max_bytes, max_lines);
            let body = if flag {
                text.take(text.len() - truncation_notice().len())
            } else {
                text
            };
            &&& byte_len(body) <= max_bytes
            &&& split_lines(body).len() <= max_lines
            &&& flag <==> body != output
            &&& flag ==> text == body + truncation_notice()
            &&& !flag ==> text == output
        }),
{
    let (text, flag) = truncate_spec(output, max_bytes, max_lines);
    let over_bytes = byte_len(output) > max_bytes;
    let kept = if over_bytes {
        output.take(byte_prefix_len(output, max_bytes))
    } else {
        output
    };
    let lines = split_lines(kept);
    let over_lines = lines.len() > max_lines;
    let inner = if over_lines {
        join_spec(lines.take(max_lines as int), "\n"@)
    } else {
        kept
    };
    lemma_byte_prefix(output, max_bytes);
    if over_lines {
        lemma_joined_lines_fit(kept, max_lines as int);
        lemma_lines_free_of_newline(kept);
        lemma_lines_of_join(lines.take(max_lines as int));
    }
    if flag {
        assert(text == inner + truncation_notice());
        assert(text.take(text.len() - truncation_notice().len()) == inner);
    }
}

/// A stream cut to the byte cap alone: the longest prefix of whole
/// characters within `max_bytes` bytes.
pub open spec fn byte_cut(output: Seq<char>, max_bytes: nat) -> Seq<char> {
    if byte_len(output) > max_bytes {
        output.take(byte_prefix_len(output, max_bytes))
    } else {
        output
    }
}

/// What is kept of a stream without carriage returns is a prefix of the
/// stream, whichever cut was made.
pub proof fn lemma_truncation_keeps_prefix(output: Seq<char>, max_bytes: nat, max_lines: nat)
    requires
        free_of(output, '\r'),
    ensures
        ({
            let (text, flag) = truncate_spec(output, max_bytes, max_lines);
            let body = if flag {
                text.take(text.len() - truncation_notice().len())
            } else {
                text
            };
            body.len() <= output.len() && body == output.take(body.len() as int)
        }),
{
    let (text, flag) = truncate_spec(output, max_bytes, max_lines);
    let kept = byte_cut(output, max_bytes);
    let lines = split_lines(kept);
    lemma_byte_prefix(output, max_bytes);
    assert(output.take(output.len() as int) == output);
    let inner = if lines.len() > max_lines {
        join_spec(lines.take(max_lines as int), "\n"@)
    } else {
        kept
    };
    if lines.len() > max_lines {
        lemma_joined_lines_prefix(kept, max_lines as int);
        assert(kept.take(inner.len() as int) =~= output.take(inner.len() as int));
    }
    if flag {
        assert(text == inner + truncation_notice());
        assert(text.take(text.len() - truncation_notice().len()) == inner);
    }
}

/// Where the stream, cut to the byte cap, has no more lines than the line
/// cap allows, what is kept of it is a prefix of the stream: the longest
/// one of whole characters within the byte cap.
pub proof fn lemma_byte_cut_keeps_longest_prefix(output: Seq<char>, max_bytes: nat, max_lines: nat)
    requires
        split_lines(byte_cut(output, max_bytes)).len() <= max_lines,
    ensures
        ({
            let (text, flag) = truncate_spec(output, max_bytes, max_lines);
            let body = if flag {
                text.take(text.len() - truncation_notice().len())
            } else {
                text
            };
            &&& body.len() <= output.len()
            &&& body == output.take(body.len() as int)
            &&& byte_len(body) <= max_bytes
            &&& body.len() < output.len() ==> byte_len(output.take(body.len() as int + 1)) > max_bytes
        }),
{
    let (text, flag) = truncate_spec(output, max_bytes, max_lines);
    let kept = byte_cut(output, max_bytes);
    lemma_byte_prefix(output, max_bytes);
    assert(output.take(output.len() as int) == output);
    if flag {
        assert(text == kept + truncation_notice());
        assert(text.take(text.len() - truncation_notice().len()) == kept);
    }
}

/// What has to be done to run a tool call.
#[derive(Debug, PartialEq, Eq)]
pub enum ToolPlan {
    /// Hand `command` to the system shell as one argument.
    Shell { command: String },
    /// Hand `code` to the Python interpreter as one argument.
    Python { code: String },
    /// Read the file at `path`.
    ReadFile { path: String },
    /// Write `content` to the file at `path`.
    WriteFile { path: String, content: String },
    /// Nothing is run: the result is already known.
    Finished(CommandResult),
}

/// A plan as plain values.
pub enum ToolPlanView {
    Shell { command: Seq<char> },
    Python { code: Seq<char> },
    ReadFile { path: Seq<char> },
    WriteFile { path: Seq<char>, content: Seq<char> },
    Finished(CommandResultView),
}

impl View for ToolPlan {
    type V = ToolPlanView;

    open spec fn view(&self) -> ToolPlanView {
        match self {
            ToolPlan::Shell { command } => ToolPlanView::Shell { command: command@ },
            ToolPlan::Python { code } => ToolPlanView::Python { code: code@ },
            ToolPlan::ReadFile { path } => ToolPlanView::ReadFile { path: path@ },
            ToolPlan::WriteFile { path, content } => ToolPlanView::WriteFile {
                path: path@,
                content: content@,
            },
            ToolPlan::Finished(result) => ToolPlanView::Finished(result@),
        }
    }
}

/// A failure that produced no output: the message on standard error, the
/// given exit code, nothing cut.
pub open spec fn failure(message: Seq<char>, exit_code: i32) -> CommandResultView {
    CommandResultView {
        stdout: Seq::empty(),
        stderr: message,
        exit_code,
        success: false,
        truncated: false,
    }
}

/// The shell command that searches `directory`, or the current directory
/// where that is empty, for files named like `pattern`, and lists at most
/// 100 of them.
pub open spec fn search_command(pattern: Seq<char>, directory: Seq<char>) -> Seq<char> {
    "find "@ + (if directory.len() == 0 {
        "."@
    } else {
        directory
    }) + " -name '"@ + pattern + "' 2>/dev/null | head -100"@
}

/// What to do for a tool call, by its discriminator.
pub open spec fn plan_spec(tool: ToolCallView) -> ToolPlanView {
    if tool.tool == "run_cmd"@ {
        ToolPlanView::Shell { command: tool.command }
    } else if tool.tool == "run_python"@ {
        ToolPlanView::Python { code: tool.code }
    } else if tool.tool == "read_file"@ {
        ToolPlanView::ReadFile { path: tool.path }
    } else if tool.tool == "write_file"@ {
        ToolPlanView::WriteFile { path: tool.path, content: tool.content }
    } else if tool.tool == "search"@ {
        ToolPlanView::Shell { command: search_command(tool.pattern, tool.directory) }
    } else {
        ToolPlanView::Finished(failure("Unknown tool: "@ + tool.tool, 1))
    }
}

/// The result of a process that ran: both streams cut to the caps, the
/// exit code or -1 where there is none, success exactly on exit code 0.
pub open spec fn capture_spec(
    stdout: Seq<char>,
    stderr: Seq<char>,
    exit_code: Option<i32>,
    max_bytes: nat,
    max_lines: nat,
) -> CommandResultView {
    let out = truncate_spec(stdout, max_bytes, max_lines);
    let err = truncate_spec(stderr, max_bytes, max_lines);
    CommandResultView {
        stdout: out.0,
        stderr: err.0,
        exit_code: match exit_code {
            Some(code) => code,
            None => -1i32,
        },
        success: exit_code == Some(0i32),
        truncated: out.1 || err.1,
    }
}

fn failed(message: String, exit_code: i32) -> (result: CommandResult)
    ensures
        result@ == failure(message@, exit_code),
{
    CommandResult {
        stdout: String::new(),
        stderr: message,
        exit_code,
        success: false,
        truncated: false,
    }
}

fn prefixed(prefix: &str, text: &str) -> (joined: String)
    ensures
        joined@ == prefix@ + text@,
{
    let mut joined = prefix.to_owned();
    joined.append(text);
    joined
}

impl CommandExecutor {
    /// What to do for `tool`: a shell command for `run_cmd` and `search`,
    /// the interpreter for `run_python`, a file read or write, and for any
    /// other discriminator the failure "Unknown tool: <name>" with exit
    /// code 1, without running anything.
    pub fn execute_tool(&self, tool: &ToolCall) -> (plan: ToolPlan)
        ensures
            plan@ == plan_spec(tool@),
    {
        if tool.is_run_cmd() {
            ToolPlan::Shell { command: tool.command.clone() }
        } else if tool.is_run_python() {
            ToolPlan::Python { code: tool.code.clone() }
        } else if tool.is_read_file() {
            ToolPlan::ReadFile { path: tool.path.clone() }
        } else if tool.is_write_file() {
            ToolPlan::WriteFile { path: tool.path.clone(), content: tool.content.clone() }
        } else if tool.is_search() {
            self.search(tool.pattern.as_str(), tool.directory.as_str())
        } else {
            ToolPlan::Finished(failed(prefixed("Unknown tool: ", tool.tool.as_str()), 1))
        }
    }

    /// The plan for a file search: the shell command of `search_command`.
    pub fn search(&self, pattern: &str, directory: &str) -> (plan: ToolPlan)
        ensures
            plan@ == (ToolPlanView::Shell { command: search_command(pattern@, directory@) }),
    {
        let mut command = String::from_str("find ");
        if directory.is_empty() {
            command.append(".");
        } else {
            command.append(directory);
        }
        command.append(" -name '");
        command.append(pattern);
        command.append("' 2>/dev/null | head -100");
        ToolPlan::Shell { command }
    }

    /// The result of a process that ran to its end, from what it wrote and
    /// how it exited.
    pub fn capture(&self, stdout: String, stderr: String, exit_code: Option<i32>) -> (result:
        CommandResult)
        ensures
            result@ == capture_spec(stdout@, stderr@, exit_code, self.byte_cap(), self.line_cap()),
            result.well_formed(),
    {
        let (out, out_cut) = self.truncate_output(stdout);
        let (err, err_cut) = self.truncate_output(stderr);
        let (code, success) = match exit_code {
            Some(code) => (code, code == 0),
            None => (-1, false),
        };
        CommandResult { stdout: out, stderr: err, exit_code: code, success, truncated: out_cut || err_cut }
    }

    /// The result where the shell could not be started: standard error
    /// says why, the exit code is -1.
    pub fn spawn_failed(&self, error: &str) -> (result: CommandResult)
        ensures
            result@ == failure("Failed to execute: "@ + error@, -1i32),
            result.well_formed(),
    {
        failed(prefixed("Failed to execute: ", error), -1)
    }

    /// The result where the interpreter could not be started: standard
    /// error says why, the exit code is -1.
    pub fn python_failed(&self, error: &str) -> (result: CommandResult)
        ensures
            result@ == failure("Python error: "@ + error@, -1i32),
            result.well_formed(),
    {
        failed(prefixed("Python error: ", error), -1)
    }

    /// The result of reading a file: its content, cut to the caps, on
    /// standard output; or the error on standard error with exit code 1.
    pub fn read_file(&self, outcome: Result<String, String>) -> (result: CommandResult)
        ensures
            result@ == (match outcome {
                Ok(content) => {
                    let cut = truncate_spec(content@, self.byte_cap(), self.line_cap());
                    CommandResultView {
                        stdout: cut.0,
                        stderr: Seq::empty(),
                        exit_code: 0,
                        success: true,
                        truncated: cut.1,
                    }
                },
                Err(error) => failure("Failed to read file: "@ + error@, 1),
            }),
            result.well_formed(),
    {
        match outcome {
            Ok(content) => {
                let (out, cut) = self.truncate_output(content);
                CommandResult {
                    stdout: out,
                    stderr: String::new(),
                    exit_code: 0,
                    success: true,
                    truncated: cut,
                }
            },
            Err(error) => failed(prefixed("Failed to read file: ", error.as_str()), 1),
        }
    }
}

/// What standard output says after a file was written.
pub open spec fn written_notice(path: Seq<char>, content: Seq<char>) -> Seq<char> {
    "wrote "@ + decimal_text(byte_len(content) as int) + " bytes to "@ + path
}

impl CommandExecutor {
    /// The result of writing a file: "wrote N bytes to <path>" on standard
    /// output, N being the byte length of the content; or the error on
    /// standard error with exit code 1.
    pub fn write_file(&self, path: &str, content: &str, outcome: Result<(), String>) -> (result:
        CommandResult)
        ensures
            result@ == (match outcome {
                Ok(_) => CommandResultView {
                    stdout: written_notice(path@, content@),
                    stderr: Seq::empty(),
                    exit_code: 0,
                    success: true,
                    truncated: false,
                },
                Err(error) => failure("Failed to write file: "@ + error@, 1),
            }),
            result.well_formed(),
    {
        match outcome {
            Ok(_) => {
                let chars = chars_of(content);
                let count = decimal_of(byte_count(chars.as_slice()));
                let mut notice = String::from_str("wrote ");
                notice.append(count.as_str());
                notice.append(" bytes to ");
                notice.append(path);
                CommandResult {
                    stdout: notice,
                    stderr: String::new(),
                    exit_code: 0,
                    success: true,
                    truncated: false,
                }
            },
            Err(error) => failed(prefixed("Failed to write file: ", error.as_str()), 1),
        }
    }
}

/// A name for whether `regex` accepts a text as a pattern.
pub uninterp spec fn regex_compiles(pattern: Seq<char>) -> bool;

/// A name for whether the regular expression compiled from `pattern`
/// matches somewhere in `text`.
pub uninterp spec fn regex_matches(pattern: Seq<char>, text: Seq<char>) -> bool;

/// `regex::Regex::new`: whether the pattern compiles.
#[verifier::external_body]
fn pattern_compiles(pattern: &str) -> (ok: bool)
    ensures
        ok == regex_compiles(pattern@),
{
    regex::Regex::new(pattern).is_ok()
}

/// `regex::Regex::is_match` on the expression compiled from `pattern`:
/// whether it matches anywhere in `text`. A pattern that does not compile
/// matches nothing.
#[verifier::external_body]
fn pattern_matches(pattern: &str, text: &str) -> (found: bool)
    ensures
        found == (regex_compiles(pattern@) && regex_matches(pattern@, text@)),
{
    match regex::Regex::new(pattern) {
        Ok(compiled) => compiled.is_match(text),
        Err(_) => false,
    }
}

/// Whether some pattern of the list matches `text`.
pub open spec fn any_matches(patterns: Seq<Seq<char>>, text: Seq<char>) -> bool {
    exists|i: int| 0 <= i < patterns.len() && regex_matches(#[trigger] patterns[i], text)
}

/// The patterns of the list that compile, in order.
pub open spec fn compiling(patterns: Seq<Seq<char>>) -> Seq<Seq<char>> {
    patterns.filter(|p: Seq<char>| regex_compiles(p))
}

/// The patterns of the list that match `text`, in order.
pub open spec fn matching(patterns: Seq<Seq<char>>, text: Seq<char>) -> Seq<Seq<char>> {
    patterns.filter(|p: Seq<char>| regex_matches(p, text))
}

fn keep_compiling(patterns: &[String]) -> (kept: Vec<String>)
    ensures
        texts(kept@) == compiling(texts(patterns@)),
        forall|i: int| 0 <= i < kept.len() ==> regex_compiles(#[trigger] kept[i]@),
{
    let ghost all = texts(patterns@);
    let ghost keep = |p: Seq<char>| regex_compiles(p);
    let mut kept: Vec<String> = Vec::new();
    let mut i: usize = 0;
    proof {
        assert(all.take(0) == Seq::<Seq<char>>::empty());
        assert(texts(kept@) == all.take(0).filter(keep));
    }
    while i < patterns.len()
        invariant
            i <= patterns.len(),
            all == texts(patterns@),
            keep == |p: Seq<char>| regex_compiles(p),
            texts(kept@) == all.take(i as int).filter(keep),
            forall|k: int| 0 <= k < kept.len() ==> regex_compiles(#[trigger] kept[k]@),
        decreases patterns.len() - i,
    {
        let ghost before = texts(kept@);
        proof {
            reveal(Seq::filter);
            assert(all.take(i + 1).drop_last() == all.take(i as int));
            assert(all.take(i + 1).last() == patterns@[i as int]@);
        }
        if pattern_compiles(patterns[i].as_str()) {
            kept.push(patterns[i].clone());
            proof {
                assert(texts(kept@) == before.push(patterns@[i as int]@));
            }
        }
        i += 1;
    }
    proof {
        assert(all.take(patterns.len() as int) == all);
    }
    kept
}

fn any_pattern_matches(patterns: &Vec<String>, text: &str) -> (found: bool)
    requires
        forall|i: int| 0 <= i < patterns.len() ==> regex_compiles(#[trigger] patterns[i]@),
    ensures
        found == any_matches(texts(patterns@), text@),
{
    let mut i: usize = 0;
    while i < patterns.len()
        invariant
            i <= patterns.len(),
            forall|k: int| 0 <= k < patterns.len() ==> regex_compiles(#[trigger] patterns[k]@),
            forall|k: int| 0 <= k < i ==> !regex_matches(#[trigger] texts(patterns@)[k], text@),
        decreases patterns.len() - i,
    {
        if pattern_matches(patterns[i].as_str(), text) {
            assert(regex_matches(texts(patterns@)[i as int], text@));
            return true;
        }
        i += 1;
    }
    false
}

/// Flags commands that match one of a set of regular expressions.
#[derive(Debug, PartialEq, Eq)]
pub struct DangerousCommandDetector {
    patterns: Vec<String>,
}

impl DangerousCommandDetector {
    #[verifier::type_invariant]
    spec fn all_compile(&self) -> bool {
        forall|i: int| 0 <= i < self.patterns.len() ==> regex_compiles(#[trigger] self.patterns[i]@)
    }

    /// The patterns in use, in order.
    pub closed spec fn patterns(&self) -> Seq<Seq<char>> {
        texts(self.patterns@)
    }

    /// A detector for the patterns of the list that compile; the others
    /// are dropped without notice.
    pub fn new(patterns: &[String]) -> (detector: Self)
        ensures
            detector.patterns() == compiling(texts(patterns@)),
    {
        DangerousCommandDetector { patterns: keep_compiling(patterns) }
    }

    /// A detector for the default set of patterns.
    pub fn with_defaults() -> (detector: Self)
        ensures
            detector.patterns() == compiling(default_patterns_spec()),
    {
        let defaults = default_dangerous_patterns();
        DangerousCommandDetector::new(defaults.as_slice())
    }

    /// Whether some pattern matches `command`. With no pattern, nothing is
    /// dangerous.
    pub fn is_dangerous(&self, command: &str) -> (dangerous: bool)
        ensures
            dangerous == any_matches(self.patterns(), command@),
    {
        proof {
            use_type_invariant(self);
        }
        any_pattern_matches(&self.patterns, command)
    }

    /// The patterns that match `command`, in order.
    pub fn matching_patterns(&self, command: &str) -> (matches: Vec<String>)
        ensures
            texts(matches@) == matching(self.patterns(), command@),
    {
        proof {
            use_type_invariant(self);
        }
        let ghost all = texts(self.patterns@);
        let ghost keep = |p: Seq<char>| regex_matches(p, command@);
        let mut matches: Vec<String> = Vec::new();
        let mut i: usize = 0;
        proof {
            assert(all.take(0) == Seq::<Seq<char>>::empty());
            assert(texts(matches@) == all.take(0).filter(keep));
        }
        while i < self.patterns.len()
            invariant
                i <= self.patterns.len(),
                all == texts(self.patterns@),
                keep == |p: Seq<char>| regex_matches(p, command@),
                texts(matches@) == all.take(i as int).filter(keep),
                forall|k: int|
                    0 <= k < self.patterns.len() ==> regex_compiles(#[trigger] self.patterns[k]@),
            decreases self.patterns.len() - i,
        {
            let ghost before = texts(matches@);
            proof {
                reveal(Seq::filter);
                assert(all.take(i + 1).drop_last() == all.take(i as int));
                assert(all.take(i + 1).last() == self.patterns@[i as int]@);
            }
            if pattern_matches(self.patterns[i].as_str(), command) {
                matches.push(self.patterns[i].clone());
                proof {
                    assert(texts(matches@) == before.push(self.patterns@[i as int]@));
                }
            }
            i += 1;
        }
        proof {
            assert(all.take(self.patterns.len() as int) == all);
        }
        matches
    }
}

/// The patterns of commands that need a terminal of their own: editors,
/// remote sessions, pagers and monitors, database shells, interpreters
/// started without arguments, and containers run with `-it`.
pub open spec fn interactive_patterns_spec() -> Seq<Seq<char>> {
    seq![
        "^(nano|vim?|emacs|pico|ne|joe)\\b"@,
        "^(ssh|telnet|ftp|sftp)\\b"@,
        "^(htop|top|less|more|man)\\b"@,
        "^(mysql|psql|sqlite3|mongo)\\b"@,
        "^(python|node|irb|ghci)$"@,
        "\\b(docker|podman)\\s+.*\\s-it\\b"@,
    ]
}

/// The advice for a command whose first word is `word`, if there is any.
pub open spec fn suggestion_spec(word: Seq<char>) -> Option<Seq<char>> {
    if word == "nano"@ || word == "vim"@ || word == "vi"@ || word == "emacs"@ {
        Some("Use /save or write_file tool instead"@)
    } else if word == "less"@ || word == "more"@ || word == "man"@ {
        Some("Use cat or read_file tool instead"@)
    } else if word == "ssh"@ || word == "telnet"@ {
        Some("Interactive sessions not supported"@)
    } else if word == "htop"@ || word == "top"@ {
        Some("Use 'ps aux' or 'ps aux | head' instead"@)
    } else {
        None
    }
}

/// Recognises commands that need a terminal of their own.
#[derive(Debug, PartialEq, Eq)]
pub struct InteractiveCommandDetector {
    patterns: Vec<String>,
}

impl InteractiveCommandDetector {
    #[verifier::type_invariant]
    spec fn all_compile(&self) -> bool {
        forall|i: int| 0 <= i < self.patterns.len() ==> regex_compiles(#[trigger] self.patterns[i]@)
    }

    /// The patterns in use, in order.
    pub closed spec fn patterns(&self) -> Seq<Seq<char>> {
        texts(self.patterns@)
    }

    /// A detector for the fixed set of patterns.
    pub fn new() -> (detector: Self)
        ensures
            detector.patterns() == compiling(interactive_patterns_spec()),
    {
        let mut fixed: Vec<String> = Vec::new();
        fixed.push("^(nano|vim?|emacs|pico|ne|joe)\\b".to_owned());
        fixed.push("^(ssh|telnet|ftp|sftp)\\b".to_owned());
        fixed.push("^(htop|top|less|more|man)\\b".to_owned());
        fixed.push("^(mysql|psql|sqlite3|mongo)\\b".to_owned());
        fixed.push("^(python|node|irb|ghci)$".to_owned());
        fixed.push("\\b(docker|podman)\\s+.*\\s-it\\b".to_owned());
        assert(texts(fixed@) == interactive_patterns_spec());
        InteractiveCommandDetector { patterns: keep_compiling(fixed.as_slice()) }
    }

    /// Whether some pattern matches the trimmed command.
    pub fn is_interactive(&self, command: &str) -> (interactive: bool)
        ensures
            interactive == any_matches(self.patterns(), trim_spec(command@)),
    {
        proof {
            use_type_invariant(self);
        }
        let trimmed = trim(command);
        any_pattern_matches(&self.patterns, trimmed.as_str())
    }

    /// What to do instead of a command, going by its first word: editors,
    /// pagers, remote shells and monitors have an advice, other commands
    /// have none.
    pub fn suggestion(&self, command: &str) -> (advice: Option<&'static str>)
        ensures
            match advice {
                Some(text) => suggestion_spec(first_word(command@)) == Some(text@),
                None => suggestion_spec(first_word(command@)) is None,
            },
    {
        let chars = chars_of(command);
        let word = first_word_of(chars.as_slice());
        let w = word.as_str();
        if same_text(w, "nano") || same_text(w, "vim") || same_text(w, "vi") || same_text(
            w,
            "emacs",
        ) {
            Some("Use /save or write_file tool instead")
        } else if same_text(w, "less") || same_text(w, "more") || same_text(w, "man") {
            Some("Use cat or read_file tool instead")
        } else if same_text(w, "ssh") || same_text(w, "telnet") {
            Some("Interactive sessions not supported")
        } else if same_text(w, "htop") || same_text(w, "top") {
            Some("Use 'ps aux' or 'ps aux | head' instead")
        } else {
            None
        }
    }
}

} // verus!
