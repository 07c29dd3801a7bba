//! The tools that work in a sandbox: `bash`, `read_file`, `write_file`,
//! `str_replace` and `ls`.
//!
//! Each tool reads its arguments into a request for the sandbox, and
//! turns the sandbox's answer into the text the model reads.  Talking to
//! the sandbox is the caller's part.
use crate::error::ToolError;
use crate::sandbox::{SandboxCommandResult, SandboxDirEntry, SandboxFileResult, entry_views, replace_all, replace_all_str, replace_first, replace_first_str, DirEntryModel};
use crate::text::{
    chars_of, concat2, concat3, concat4, decimal, fmt_i64, fmt_u64, join, join_strings, owned,
    push_str, signed_decimal, str_eq, string_of, views,
};
use vstd::prelude::*;

verus! {

// ---------------------------------------------------------------------
// Arguments
// ---------------------------------------------------------------------

/// An argument's value, as far as the tools read it: a string, an
/// unsigned integer, a boolean, or anything else.
#[derive(Debug)]
pub enum ArgValue {
    /// A JSON string.
    Str(String),
    /// A JSON number that is an unsigned integer.
    U64(u64),
    /// A JSON boolean.
    Bool(bool),
    /// Any other JSON value.
    Other,
}

/// A tool call's arguments: a JSON object by its fields, in order.
#[derive(Debug)]
pub struct ToolArgs {
    /// The fields.
    pub entries: Vec<(String, ArgValue)>,
}

/// The value of the first field named `key`.
pub open spec fn arg(e: Seq<(String, ArgValue)>, key: Seq<char>) -> Option<ArgValue>
    decreases e.len(),
{
    if e.len() == 0 {
        None
    } else if e[0].0@ == key {
        Some(e[0].1)
    } else {
        arg(e.drop_first(), key)
    }
}

/// The string under `key`, if there is one.
pub open spec fn arg_str(a: ToolArgs, key: Seq<char>) -> Option<Seq<char>> {
    match arg(a.entries@, key) {
        Some(ArgValue::Str(s)) => Some(s@),
        _ => None,
    }
}

/// The unsigned integer under `key`, if there is one.
pub open spec fn arg_u64(a: ToolArgs, key: Seq<char>) -> Option<u64> {
    match arg(a.entries@, key) {
        Some(ArgValue::U64(n)) => Some(n),
        _ => None,
    }
}

/// The boolean under `key`, if there is one.
pub open spec fn arg_bool(a: ToolArgs, key: Seq<char>) -> Option<bool> {
    match arg(a.entries@, key) {
        Some(ArgValue::Bool(b)) => Some(b),
        _ => None,
    }
}

impl ToolArgs {
    fn position(&self, key: &str) -> (r: Option<usize>)
        ensures
            r matches Some(i) ==> i < self.entries@.len() && arg(self.entries@, key@) == Some(
                self.entries@[i as int].1,
            ),
            r is None ==> arg(self.entries@, key@) is None,
    {
        let mut i: usize = 0;
        assert(self.entries@.skip(0) == self.entries@);
        while i < self.entries.len()
            invariant
                i <= self.entries@.len(),
                arg(self.entries@, key@) == arg(self.entries@.skip(i as int), key@),
            decreases self.entries.len() - i,
        {
            assert(self.entries@.skip(i as int).drop_first() == self.entries@.skip(i + 1));
            assert(self.entries@.skip(i as int)[0] == self.entries@[i as int]);
            if str_eq(self.entries[i].0.as_str(), key) {
                return Some(i);
            }
            i += 1;
        }
        None
    }

    /// The string under `key`.
    pub fn get_str(&self, key: &str) -> (r: Option<&str>)
        ensures
            match r {
                Some(s) => arg_str(*self, key@) == Some(s@),
                None => arg_str(*self, key@) is None,
            },
    {
        match self.position(key) {
            Some(i) => match &self.entries[i].1 {
                ArgValue::Str(s) => Some(s.as_str()),
                _ => None,
            },
            None => None,
        }
    }

    /// The unsigned integer under `key`.
    pub fn get_u64(&self, key: &str) -> (r: Option<u64>)
        ensures
            r == arg_u64(*self, key@),
    {
        match self.position(key) {
            Some(i) => match &self.entries[i].1 {
                ArgValue::U64(n) => Some(*n),
                _ => None,
            },
            None => None,
        }
    }

    /// The boolean under `key`.
    pub fn get_bool(&self, key: &str) -> (r: Option<bool>)
        ensures
            r == arg_bool(*self, key@),
    {
        match self.position(key) {
            Some(i) => match &self.entries[i].1 {
                ArgValue::Bool(b) => Some(*b),
                _ => None,
            },
            None => None,
        }
    }
}

/// The error of a sandbox operation that failed: `Failed to <what>:
/// <detail>`.
pub fn execution_failed(what: &str, detail: &str) -> (e: ToolError)
    ensures
        e matches ToolError::ExecutionFailed(m) && m@ == "Failed to "@ + what@ + ": "@ + detail@,
{
    let a = concat3("Failed to ", what, ": ");
    ToolError::ExecutionFailed(concat2(a.as_str(), detail))
}

/// The description of a tool for the model.
#[derive(Debug)]
pub struct ToolSchema {
    /// The tool's name.
    pub name: String,
    /// What it does.
    pub description: String,
    /// Its parameters, as a JSON schema's text.
    pub parameters: String,
    /// Its group.
    pub group: Option<String>,
}

/// A schema in group `sandbox`.
fn sandbox_schema(name: &str, description: &str, parameters: &str) -> (s: ToolSchema)
    ensures
        s.name@ == name@,
        s.description@ == description@,
        s.parameters@ == parameters@,
        s.group matches Some(g) && g@ == "sandbox"@,
{
    ToolSchema {
        name: owned(name),
        description: owned(description),
        parameters: owned(parameters),
        group: Some(owned("sandbox")),
    }
}

// ---------------------------------------------------------------------
// bash
// ---------------------------------------------------------------------

/// The `bash` tool: runs a command in the sandbox.
#[derive(Debug)]
pub struct BashTool {
    /// Its description for the model.
    pub schema: ToolSchema,
}

/// What `bash` asks of the sandbox.
#[derive(Debug)]
pub struct BashRequest {
    /// The command.
    pub command: String,
    /// The working directory.
    pub cwd: Option<String>,
    /// The time limit in seconds.
    pub timeout_secs: u64,
}

/// What `bash` reports of a run.
pub open spec fn bash_report(r: SandboxCommandResult, timeout_secs: u64) -> Seq<char> {
    if r.timed_out {
        "Command timed out after "@ + decimal(timeout_secs as nat) + " seconds\n\nSTDOUT:\n"@
            + r.stdout@ + "\n\nSTDERR:\n"@ + r.stderr@
    } else if r.exit_code == 0 {
        if r.stderr@.len() == 0 {
            r.stdout@
        } else {
            r.stdout@ + "\n\nSTDERR:\n"@ + r.stderr@
        }
    } else {
        "Command failed with exit code "@ + signed_decimal(r.exit_code as int) + "\n\nSTDOUT:\n"@
            + r.stdout@ + "\n\nSTDERR:\n"@ + r.stderr@
    }
}

impl BashTool {
    /// The tool, in group `sandbox`.
    pub fn new() -> (t: Self)
        ensures
            t.schema.name@ == "bash"@,
            t.schema.description@ == "Execute bash commands in the sandbox environment. Use this to run shell commands, scripts, and system utilities."@,
            t.schema.parameters@ == "{\"type\":\"object\",\"properties\":{\"command\":{\"type\":\"string\",\"description\":\"The bash command to execute\"},\"cwd\":{\"type\":\"string\",\"description\":\"Working directory relative to sandbox root\"},\"timeout\":{\"type\":\"integer\",\"description\":\"Timeout in seconds (default: 30)\",\"default\":30}},\"required\":[\"command\"]}"@,
            t.schema.group matches Some(g) && g@ == "sandbox"@,
    {
        BashTool {
            schema: sandbox_schema(
                "bash",
                "Execute bash commands in the sandbox environment. Use this to run shell commands, scripts, and system utilities.",
                "{\"type\":\"object\",\"properties\":{\"command\":{\"type\":\"string\",\"description\":\"The bash command to execute\"},\"cwd\":{\"type\":\"string\",\"description\":\"Working directory relative to sandbox root\"},\"timeout\":{\"type\":\"integer\",\"description\":\"Timeout in seconds (default: 30)\",\"default\":30}},\"required\":[\"command\"]}",
            ),
        }
    }

    /// Its schema.
    pub fn schema(&self) -> (r: &ToolSchema)
        ensures
            *r == self.schema,
    {
        &self.schema
    }

    /// The request of a call: the `command` (required), the `cwd`, and
    /// the `timeout` (30 seconds by default).
    pub fn plan(&self, args: &ToolArgs) -> (r: Result<BashRequest, ToolError>)
        ensures
            match arg_str(*args, "command"@) {
                Some(c) => r matches Ok(q) && q.command@ == c && crate::models::base::opt_view(q.cwd)
                    == arg_str(*args, "cwd"@) && q.timeout_secs == match arg_u64(*args, "timeout"@) {
                    Some(t) => t,
                    None => 30u64,
                },
                None => r matches Err(e) && e matches ToolError::InvalidArguments(m) && m@
                    == "Missing 'command' parameter"@,
            },
    {
        let command = match args.get_str("command") {
            Some(c) => owned(c),
            None => {
                return Err(ToolError::InvalidArguments(owned("Missing 'command' parameter")));
            },
        };
        let cwd = match args.get_str("cwd") {
            Some(c) => Some(owned(c)),
            None => None,
        };
        let timeout_secs = match args.get_u64("timeout") {
            Some(t) => t,
            None => 30,
        };
        Ok(BashRequest { command, cwd, timeout_secs })
    }

    /// The report of a run: its output, with the error output and the
    /// exit code or time limit where they matter.
    pub fn render(&self, result: &SandboxCommandResult, timeout_secs: u64) -> (r: String)
        ensures
            r@ == bash_report(*result, timeout_secs),
    {
        if result.timed_out {
            let n = fmt_u64(timeout_secs);
            let a = concat3("Command timed out after ", n.as_str(), " seconds\n\nSTDOUT:\n");
            let b = concat3(a.as_str(), result.stdout.as_str(), "\n\nSTDERR:\n");
            concat2(b.as_str(), result.stderr.as_str())
        } else if result.is_success() {
            if result.stderr.as_str().is_empty() {
                result.stdout.clone()
            } else {
                concat3(result.stdout.as_str(), "\n\nSTDERR:\n", result.stderr.as_str())
            }
        } else {
            let n = fmt_i64(result.exit_code as i64);
            let a = concat3("Command failed with exit code ", n.as_str(), "\n\nSTDOUT:\n");
            let b = concat3(a.as_str(), result.stdout.as_str(), "\n\nSTDERR:\n");
            concat2(b.as_str(), result.stderr.as_str())
        }
    }
}

// ---------------------------------------------------------------------
// read_file
// ---------------------------------------------------------------------

/// A line with its carriage return dropped.
pub open spec fn strip_cr(l: Seq<char>) -> Seq<char> {
    if l.len() > 0 && l.last() == '\r' {
        l.drop_last()
    } else {
        l
    }
}

/// The finished lines and the line being read, after reading `s`.
pub open spec fn line_scan(s: Seq<char>) -> (Seq<Seq<char>>, Seq<char>)
    decreases s.len(),
{
    if s.len() == 0 {
        (Seq::empty(), Seq::empty())
    } else {
        let acc = line_scan(s.drop_last());
        if s.last() == '\n' {
            (acc.0.push(strip_cr(acc.1)), Seq::empty())
        } else {
            (acc.0, acc.1.push(s.last()))
        }
    }
}

/// The lines of `s` (`str::lines`): split at `\n`, each line ended by
/// it without a carriage return before it, and no empty last line.
pub open spec fn lines(s: Seq<char>) -> Seq<Seq<char>> {
    let acc = line_scan(s);
    if acc.1.len() > 0 {
        acc.0.push(acc.1)
    } else {
        acc.0
    }
}

/// The lines of a text.
pub fn split_lines(s: &str) -> (r: Vec<String>)
    ensures
        views(r@) == lines(s@),
{
    let cs = chars_of(s);
    let mut done: Vec<String> = Vec::new();
    let mut cur: Vec<char> = Vec::new();
    let mut i: usize = 0;
    while i < cs.len()
        invariant
            i <= cs@.len(),
            cs@ == s@,
            views(done@) == line_scan(s@.take(i as int)).0,
            cur@ == line_scan(s@.take(i as int)).1,
        decreases cs.len() - i,
    {
        assert(s@.take(i + 1).drop_last() == s@.take(i as int));
        assert(s@.take(i + 1).last() == cs@[i as int]);
        let c = cs[i];
        if c == '\n' {
            let n = cur.len();
            let line = if n > 0 && cur[n - 1] == '\r' {
                crate::text::string_of_range(&cur, 0, n - 1)
            } else {
                string_of(&cur)
            };
            assert(line@ == strip_cr(cur@));
            let ghost before = views(done@);
            done.push(line);
            assert(views(done@) =~= before.push(strip_cr(cur@)));
            cur = Vec::new();
        } else {
            cur.push(c);
        }
        i += 1;
    }
    assert(s@.take(s@.len() as int) == s@);
    if cur.len() > 0 {
        let ghost before = views(done@);
        done.push(string_of(&cur));
        assert(views(done@) =~= before.push(cur@));
    }
    done
}

/// The `read_file` tool: reads a file, or some of its lines.
#[derive(Debug)]
pub struct ReadFileTool {
    /// Its description for the model.
    pub schema: ToolSchema,
}

/// What `read_file` asks for.
#[derive(Debug)]
pub struct ReadRequest {
    /// The path.
    pub path: String,
    /// The first line, counted from 1.
    pub start_line: Option<usize>,
    /// The last line.
    pub end_line: Option<usize>,
}

/// Whether a line range can be taken from `n` lines without failing:
/// the start counts from 1, and, with an end, does not pass it.
pub open spec fn range_ok(start: Option<usize>, end: Option<usize>, n: nat) -> bool {
    match start {
        Some(s) => s > n || (s >= 1 && match end {
            Some(e) => s - 1 <= (if e < n { e as nat } else { n }),
            None => true,
        }),
        None => true,
    }
}

/// What `read_file` reports.
pub open spec fn read_report(
    path: Seq<char>,
    r: SandboxFileResult,
    start: Option<usize>,
    end: Option<usize>,
) -> Seq<char> {
    let ls = lines(r.content@);
    if !r.exists {
        "File not found: "@ + path
    } else {
        match start {
            Some(s) => if s > ls.len() {
                "Start line "@ + decimal(s as nat) + " exceeds file length "@ + decimal(ls.len())
            } else {
                match end {
                    Some(e) => join(
                        ls.subrange(s - 1, if e < ls.len() { e as int } else { ls.len() as int }),
                        "\n"@,
                    ),
                    None => join(ls.subrange(s - 1, ls.len() as int), "\n"@),
                }
            },
            None => r.content@,
        }
    }
}

impl ReadFileTool {
    /// The tool, in group `sandbox`.
    pub fn new() -> (t: Self)
        ensures
            t.schema.name@ == "read_file"@,
            t.schema.description@ == "Read the contents of a file in the sandbox. Supports reading a specific range of lines."@,
            t.schema.parameters@ == "{\"type\":\"object\",\"properties\":{\"path\":{\"type\":\"string\",\"description\":\"Path to the file relative to sandbox root\"},\"start_line\":{\"type\":\"integer\",\"description\":\"Starting line number (1-indexed, inclusive)\"},\"end_line\":{\"type\":\"integer\",\"description\":\"Ending line number (1-indexed, inclusive)\"}},\"required\":[\"path\"]}"@,
            t.schema.group matches Some(g) && g@ == "sandbox"@,
    {
        ReadFileTool {
            schema: sandbox_schema(
                "read_file",
                "Read the contents of a file in the sandbox. Supports reading a specific range of lines.",
                "{\"type\":\"object\",\"properties\":{\"path\":{\"type\":\"string\",\"description\":\"Path to the file relative to sandbox root\"},\"start_line\":{\"type\":\"integer\",\"description\":\"Starting line number (1-indexed, inclusive)\"},\"end_line\":{\"type\":\"integer\",\"description\":\"Ending line number (1-indexed, inclusive)\"}},\"required\":[\"path\"]}",
            ),
        }
    }

    /// Its schema.
    pub fn schema(&self) -> (r: &ToolSchema)
        ensures
            *r == self.schema,
    {
        &self.schema
    }

    /// The request of a call: the `path` (required), and the optional
    /// `start_line` and `end_line`.
    pub fn plan(&self, args: &ToolArgs) -> (r: Result<ReadRequest, ToolError>)
        ensures
            match arg_str(*args, "path"@) {
                Some(p) => r matches Ok(q) && q.path@ == p && q.start_line == match arg_u64(
                    *args,
                    "start_line"@,
                ) {
                    Some(n) => Some(n as usize),
                    None => None,
                } && q.end_line == match arg_u64(*args, "end_line"@) {
                    Some(n) => Some(n as usize),
                    None => None,
                },
                None => r matches Err(e) && e matches ToolError::InvalidArguments(m) && m@
                    == "Missing 'path' parameter"@,
            },
    {
        let path = match args.get_str("path") {
            Some(p) => owned(p),
            None => {
                return Err(ToolError::InvalidArguments(owned("Missing 'path' parameter")));
            },
        };
        let start_line = match args.get_u64("start_line") {
            Some(n) => Some(n as usize),
            None => None,
        };
        let end_line = match args.get_u64("end_line") {
            Some(n) => Some(n as usize),
            None => None,
        };
        Ok(ReadRequest { path, start_line, end_line })
    }

    /// Whether a read of these lines can be reported: the file is
    /// missing, or the range starts past the end, or it starts at line 1
    /// or later and does not end before it starts.
    pub fn range_fits(&self, result: &SandboxFileResult, start_line: Option<usize>, end_line: Option<usize>) -> (b: bool)
        ensures
            b == (result.exists ==> range_ok(start_line, end_line, lines(result.content@).len())),
    {
        if !result.exists {
            return true;
        }
        match start_line {
            None => true,
            Some(s) => {
                let n = split_lines(result.content.as_str()).len();
                if s > n {
                    true
                } else if s < 1 {
                    false
                } else {
                    match end_line {
                        None => true,
                        Some(e) => s - 1 <= (if e < n {
                            e
                        } else {
                            n
                        }),
                    }
                }
            },
        }
    }

    /// The report of a read: `File not found` for a missing file, the
    /// lines asked for joined by `\n` (or a message when the start is
    /// past the end), or the whole content.
    pub fn render(
        &self,
        path: &str,
        result: &SandboxFileResult,
        start_line: Option<usize>,
        end_line: Option<usize>,
    ) -> (r: String)
        requires
            result.exists ==> range_ok(start_line, end_line, lines(result.content@).len()),
        ensures
            r@ == read_report(path@, *result, start_line, end_line),
    {
        if !result.exists {
            return concat2("File not found: ", path);
        }
        match start_line {
            None => result.content.clone(),
            Some(s) => {
                let ls = split_lines(result.content.as_str());
                let n = ls.len();
                if s > n {
                    let a = fmt_u64(s as u64);
                    let b = fmt_u64(n as u64);
                    return concat4("Start line ", a.as_str(), " exceeds file length ", b.as_str());
                }
                let stop = match end_line {
                    Some(e) => if e < n {
                        e
                    } else {
                        n
                    },
                    None => n,
                };
                let mut part: Vec<String> = Vec::new();
                let mut i: usize = s - 1;
                while i < stop
                    invariant
                        s >= 1,
                        s - 1 <= i <= stop <= ls@.len(),
                        views(part@) == views(ls@).subrange(s - 1, i as int),
                    decreases stop - i,
                {
                    let ghost before = views(part@);
                    part.push(ls[i].clone());
                    assert(views(part@) =~= before.push(ls@[i as int]@));
                    assert(views(ls@)[i as int] == ls@[i as int]@);
                    assert(views(part@) =~= views(ls@).subrange(s - 1, i + 1));
                    i += 1;
                }
                join_strings(&part, "\n")
            },
        }
    }
}

// ---------------------------------------------------------------------
// write_file
// ---------------------------------------------------------------------

/// The `write_file` tool: writes a file, creating its directories.
#[derive(Debug)]
pub struct WriteFileTool {
    /// Its description for the model.
    pub schema: ToolSchema,
}

/// What `write_file` asks for.
#[derive(Debug)]
pub struct WriteRequest {
    /// The path.
    pub path: String,
    /// The content.
    pub content: String,
    /// Whether to append.
    pub append: bool,
}

impl WriteFileTool {
    /// The tool, in group `sandbox`.
    pub fn new() -> (t: Self)
        ensures
            t.schema.name@ == "write_file"@,
            t.schema.description@ == "Write content to a file in the sandbox. Creates parent directories if they don't exist."@,
            t.schema.parameters@ == "{\"type\":\"object\",\"properties\":{\"path\":{\"type\":\"string\",\"description\":\"Path to the file relative to sandbox root\"},\"content\":{\"type\":\"string\",\"description\":\"Content to write to the file\"},\"append\":{\"type\":\"boolean\",\"description\":\"Whether to append to existing file (default: false)\",\"default\":false}},\"required\":[\"path\",\"content\"]}"@,
            t.schema.group matches Some(g) && g@ == "sandbox"@,
    {
        WriteFileTool {
            schema: sandbox_schema(
                "write_file",
                "Write content to a file in the sandbox. Creates parent directories if they don't exist.",
                "{\"type\":\"object\",\"properties\":{\"path\":{\"type\":\"string\",\"description\":\"Path to the file relative to sandbox root\"},\"content\":{\"type\":\"string\",\"description\":\"Content to write to the file\"},\"append\":{\"type\":\"boolean\",\"description\":\"Whether to append to existing file (default: false)\",\"default\":false}},\"required\":[\"path\",\"content\"]}",
            ),
        }
    }

    /// Its schema.
    pub fn schema(&self) -> (r: &ToolSchema)
        ensures
            *r == self.schema,
    {
        &self.schema
    }

    /// The request of a call: `path` and `content` (both required), and
    /// `append` (false by default).
    pub fn plan(&self, args: &ToolArgs) -> (r: Result<WriteRequest, ToolError>)
        ensures
            match (arg_str(*args, "path"@), arg_str(*args, "content"@)) {
                (Some(p), Some(c)) => r matches Ok(q) && q.path@ == p && q.content@ == c && q.append
                    == match arg_bool(*args, "append"@) {
                    Some(b) => b,
                    None => false,
                },
                (None, _) => r matches Err(e) && e matches ToolError::InvalidArguments(m) && m@
                    == "Missing 'path' parameter"@,
                (Some(_), None) => r matches Err(e) && e matches ToolError::InvalidArguments(m) && m@
                    == "Missing 'content' parameter"@,
            },
    {
        let path = match args.get_str("path") {
            Some(p) => owned(p),
            None => {
                return Err(ToolError::InvalidArguments(owned("Missing 'path' parameter")));
            },
        };
        let content = match args.get_str("content") {
            Some(c) => owned(c),
            None => {
                return Err(ToolError::InvalidArguments(owned("Missing 'content' parameter")));
            },
        };
        let append = match args.get_bool("append") {
            Some(b) => b,
            None => false,
        };
        Ok(WriteRequest { path, content, append })
    }

    /// The report of a write: how many bytes went to which path.
    pub fn render(&self, path: &str, content: &str) -> (r: String)
        ensures
            r@ == "Successfully wrote "@ + decimal(
                vstd::utf8::encode_utf8(content@).len() as usize as nat,
            ) + " bytes to "@ + path@,
    {
        let n = fmt_u64(content.len() as u64);
        concat4("Successfully wrote ", n.as_str(), " bytes to ", path)
    }
}

// ---------------------------------------------------------------------
// str_replace
// ---------------------------------------------------------------------

/// The `str_replace` tool: replaces text in a file.
#[derive(Debug)]
pub struct StrReplaceTool {
    /// Its description for the model.
    pub schema: ToolSchema,
}

/// What `str_replace` asks for.
#[derive(Debug)]
pub struct ReplaceRequest {
    /// The path.
    pub path: String,
    /// The text to replace.
    pub old: String,
    /// Its replacement.
    pub new: String,
    /// Whether to replace every occurrence.
    pub replace_all: bool,
}

/// What replacing gives: the new content, or `None` when it would not
/// change the file.
pub open spec fn replaced(content: Seq<char>, old: Seq<char>, new: Seq<char>, all: bool) -> Option<
    Seq<char>,
> {
    let c = if all {
        replace_all(content, old, new)
    } else {
        replace_first(content, old, new)
    };
    if c == content {
        None
    } else {
        Some(c)
    }
}

/// What a `str_replace` call does after reading its file.
#[derive(Debug)]
pub enum ReplaceOutcome {
    /// Nothing is written; the call gives this report.
    Report(String),
    /// The new content is written back, then the call gives the report.
    Write {
        /// The file's new content.
        content: String,
        /// The report of the replacement.
        report: String,
    },
}

impl StrReplaceTool {
    /// The tool, in group `sandbox`.
    pub fn new() -> (t: Self)
        ensures
            t.schema.name@ == "str_replace"@,
            t.schema.description@ == "Replace a substring in a file with new content. Supports replacing all occurrences or just the first."@,
            t.schema.parameters@ == "{\"type\":\"object\",\"properties\":{\"path\":{\"type\":\"string\",\"description\":\"Path to the file relative to sandbox root\"},\"old\":{\"type\":\"string\",\"description\":\"Substring to replace\"},\"new\":{\"type\":\"string\",\"description\":\"New content to replace with\"},\"replace_all\":{\"type\":\"boolean\",\"description\":\"Replace all occurrences (default: false)\",\"default\":false}},\"required\":[\"path\",\"old\",\"new\"]}"@,
            t.schema.group matches Some(g) && g@ == "sandbox"@,
    {
        StrReplaceTool {
            schema: sandbox_schema(
                "str_replace",
                "Replace a substring in a file with new content. Supports replacing all occurrences or just the first.",
                "{\"type\":\"object\",\"properties\":{\"path\":{\"type\":\"string\",\"description\":\"Path to the file relative to sandbox root\"},\"old\":{\"type\":\"string\",\"description\":\"Substring to replace\"},\"new\":{\"type\":\"string\",\"description\":\"New content to replace with\"},\"replace_all\":{\"type\":\"boolean\",\"description\":\"Replace all occurrences (default: false)\",\"default\":false}},\"required\":[\"path\",\"old\",\"new\"]}",
            ),
        }
    }

    /// Its schema.
    pub fn schema(&self) -> (r: &ToolSchema)
        ensures
            *r == self.schema,
    {
        &self.schema
    }

    /// The request of a call: `path`, `old` and `new` (all required),
    /// and `replace_all` (false by default).
    pub fn plan(&self, args: &ToolArgs) -> (r: Result<ReplaceRequest, ToolError>)
        ensures
            match (arg_str(*args, "path"@), arg_str(*args, "old"@), arg_str(*args, "new"@)) {
                (Some(p), Some(o), Some(n)) => r matches Ok(q) && q.path@ == p && q.old@ == o
                    && q.new@ == n && q.replace_all == match arg_bool(*args, "replace_all"@) {
                    Some(b) => b,
                    None => false,
                },
                (None, _, _) => r matches Err(e) && e matches ToolError::InvalidArguments(m) && m@
                    == "Missing 'path' parameter"@,
                (Some(_), None, _) => r matches Err(e) && e matches ToolError::InvalidArguments(m)
                    && m@ == "Missing 'old' parameter"@,
                (Some(_), Some(_), None) => r matches Err(e) && e matches ToolError::InvalidArguments(
                    m,
                ) && m@ == "Missing 'new' parameter"@,
            },
    {
        let path = match args.get_str("path") {
            Some(p) => owned(p),
            None => {
                return Err(ToolError::InvalidArguments(owned("Missing 'path' parameter")));
            },
        };
        let old = match args.get_str("old") {
            Some(o) => owned(o),
            None => {
                return Err(ToolError::InvalidArguments(owned("Missing 'old' parameter")));
            },
        };
        let new = match args.get_str("new") {
            Some(n) => owned(n),
            None => {
                return Err(ToolError::InvalidArguments(owned("Missing 'new' parameter")));
            },
        };
        let replace_all = match args.get_bool("replace_all") {
            Some(b) => b,
            None => false,
        };
        Ok(ReplaceRequest { path, old, new, replace_all })
    }

    /// The file's new content, or `None` when replacing changes nothing.
    pub fn replace(&self, content: &str, old: &str, new: &str, all: bool) -> (r: Option<String>)
        ensures
            match r {
                Some(c) => replaced(content@, old@, new@, all) == Some(c@),
                None => replaced(content@, old@, new@, all) is None,
            },
    {
        let c = if all {
            replace_all_str(content, old, new)
        } else {
            replace_first_str(content, old, new)
        };
        if str_eq(c.as_str(), content) {
            None
        } else {
            Some(c)
        }
    }

    /// The report when nothing was replaced.
    pub fn render_not_found(&self, path: &str, old: &str) -> (r: String)
        ensures
            r@ == "Substring '"@ + old@ + "' not found in "@ + path@,
    {
        concat4("Substring '", old, "' not found in ", path)
    }

    /// The report of a replacement.
    pub fn render_replaced(&self, path: &str, old: &str, new: &str) -> (r: String)
        ensures
            r@ == "Replaced '"@ + old@ + "' with '"@ + new@ + "' in "@ + path@,
    {
        let a = concat4("Replaced '", old, "' with '", new);
        concat3(a.as_str(), "' in ", path)
    }

    /// The report of a missing file.
    pub fn render_missing(&self, path: &str) -> (r: String)
        ensures
            r@ == "File not found: "@ + path@,
    {
        concat2("File not found: ", path)
    }

    /// What a call does once the file has been read: report a missing
    /// file; report that nothing was replaced; or write the new content
    /// back and report the replacement.
    pub fn decide(&self, req: &ReplaceRequest, result: &SandboxFileResult) -> (r: ReplaceOutcome)
        ensures
            !result.exists ==> (r matches ReplaceOutcome::Report(m) && m@ == "File not found: "@
                + req.path@),
            result.exists && replaced(result.content@, req.old@, req.new@, req.replace_all) is None
                ==> (r matches ReplaceOutcome::Report(m) && m@ == "Substring '"@ + req.old@
                + "' not found in "@ + req.path@),
            result.exists ==> match replaced(result.content@, req.old@, req.new@, req.replace_all) {
                Some(c) => r matches ReplaceOutcome::Write { content, report } && content@ == c
                    && report@ == "Replaced '"@ + req.old@ + "' with '"@ + req.new@ + "' in "@
                    + req.path@,
                None => true,
            },
    {
        if !result.exists {
            return ReplaceOutcome::Report(self.render_missing(req.path.as_str()));
        }
        match self.replace(
            result.content.as_str(),
            req.old.as_str(),
            req.new.as_str(),
            req.replace_all,
        ) {
            None => ReplaceOutcome::Report(self.render_not_found(req.path.as_str(), req.old.as_str())),
            Some(content) => ReplaceOutcome::Write {
                content,
                report: self.render_replaced(req.path.as_str(), req.old.as_str(), req.new.as_str()),
            },
        }
    }
}

// ---------------------------------------------------------------------
// ls
// ---------------------------------------------------------------------

/// The `ls` tool: lists a directory.
#[derive(Debug)]
pub struct ListDirectoryTool {
    /// Its description for the model.
    pub schema: ToolSchema,
}

/// What `ls` asks for.
#[derive(Debug)]
pub struct ListRequest {
    /// The directory.
    pub path: String,
    /// Whether to descend.
    pub recursive: bool,
    /// The depth limit (0 for none).
    pub max_depth: usize,
}

/// One line of a listing.
pub open spec fn entry_line(e: DirEntryModel) -> Seq<char> {
    (if e.is_dir {
        "[DIR] "@
    } else {
        "[FILE] "@
    }) + e.name + " ("@ + decimal(e.size as nat) + " bytes)\n"@
}

/// The lines of a listing, concatenated.
pub open spec fn listing(es: Seq<DirEntryModel>) -> Seq<char>
    decreases es.len(),
{
    if es.len() == 0 {
        Seq::empty()
    } else {
        listing(es.drop_last()) + entry_line(es.last())
    }
}

impl ListDirectoryTool {
    /// The tool, in group `sandbox`.
    pub fn new() -> (t: Self)
        ensures
            t.schema.name@ == "ls"@,
            t.schema.description@ == "List the contents of a directory in the sandbox. Supports recursive listing with depth control."@,
            t.schema.parameters@ == "{\"type\":\"object\",\"properties\":{\"path\":{\"type\":\"string\",\"description\":\"Path to the directory relative to sandbox root\",\"default\":\".\"},\"recursive\":{\"type\":\"boolean\",\"description\":\"List directories recursively\",\"default\":false},\"max_depth\":{\"type\":\"integer\",\"description\":\"Maximum recursion depth (0 = unlimited)\",\"default\":2}},\"required\":[]}"@,
            t.schema.group matches Some(g) && g@ == "sandbox"@,
    {
        ListDirectoryTool {
            schema: sandbox_schema(
                "ls",
                "List the contents of a directory in the sandbox. Supports recursive listing with depth control.",
                "{\"type\":\"object\",\"properties\":{\"path\":{\"type\":\"string\",\"description\":\"Path to the directory relative to sandbox root\",\"default\":\".\"},\"recursive\":{\"type\":\"boolean\",\"description\":\"List directories recursively\",\"default\":false},\"max_depth\":{\"type\":\"integer\",\"description\":\"Maximum recursion depth (0 = unlimited)\",\"default\":2}},\"required\":[]}",
            ),
        }
    }

    /// Its schema.
    pub fn schema(&self) -> (r: &ToolSchema)
        ensures
            *r == self.schema,
    {
        &self.schema
    }

    /// The request of a call: `path` (`.` by default), `recursive`
    /// (false by default) and `max_depth` (2 by default).
    pub fn plan(&self, args: &ToolArgs) -> (r: ListRequest)
        ensures
            r.path@ == match arg_str(*args, "path"@) {
                Some(p) => p,
                None => "."@,
            },
            r.recursive == match arg_bool(*args, "recursive"@) {
                Some(b) => b,
                None => false,
            },
            r.max_depth == match arg_u64(*args, "max_depth"@) {
                Some(n) => n as usize,
                None => 2usize,
            },
    {
        let path = match args.get_str("path") {
            Some(p) => owned(p),
            None => owned("."),
        };
        let recursive = match args.get_bool("recursive") {
            Some(b) => b,
            None => false,
        };
        let max_depth = match args.get_u64("max_depth") {
            Some(n) => n as usize,
            None => 2,
        };
        ListRequest { path, recursive, max_depth }
    }

    /// The report of a listing: one line per entry, or a message when
    /// there is none.
    pub fn render(&self, path: &str, entries: &Vec<SandboxDirEntry>) -> (r: String)
        ensures
            r@ == if entries@.len() == 0 {
                "Directory is empty or does not exist: "@ + path@
            } else {
                listing(entry_views(entries@))
            },
    {
        if entries.len() == 0 {
            return concat2("Directory is empty or does not exist: ", path);
        }
        let mut out = String::new();
        let mut i: usize = 0;
        while i < entries.len()
            invariant
                i <= entries@.len(),
                out@ == listing(entry_views(entries@).take(i as int)),
            decreases entries.len() - i,
        {
            assert(entry_views(entries@).take(i + 1).drop_last() == entry_views(entries@).take(
                i as int,
            ));
            assert(entry_views(entries@).take(i + 1).last() == entries@[i as int]@);
            let e = &entries[i];
            let prefix = if e.is_dir {
                "[DIR] "
            } else {
                "[FILE] "
            };
            let n = fmt_u64(e.size);
            let a = concat3(prefix, e.name.as_str(), " (");
            let line = concat3(a.as_str(), n.as_str(), " bytes)\n");
            push_str(&mut out, line.as_str());
            i += 1;
        }
        assert(entry_views(entries@).take(entries@.len() as int) == entry_views(entries@));
        out
    }
}

} // verus!
