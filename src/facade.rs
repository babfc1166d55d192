//! The facade a step uses: every operation of the protocol, writing its
//! lines to a sink and reaching variables through an environment.

use vstd::prelude::*;
use crate::command::{command_line, encode, named_line};
use crate::env::{self, env_key, looked_up, settable, Environment, VarError, Vars};
use crate::logger::{format_log, level_name, log_line, Log, LogLevel};
use crate::sink::Sink;
use crate::text::{push_char, push_text};

verus! {

/// A character of a stop token: a lower-case hex digit or a hyphen.
pub open spec fn is_token_char(c: char) -> bool {
    ('0' <= c && c <= '9') || ('a' <= c && c <= 'f') || c == '-'
}

/// A stop token: 36 lower-case hex digits and hyphens.
pub open spec fn is_token(t: Seq<char>) -> bool {
    t.len() == 36 && forall|i: int| 0 <= i < t.len() ==> is_token_char(#[trigger] t[i])
}

/// Relies on uuid's `Uuid::new_v4` and its `Display`: a random version 4
/// UUID, written hyphenated as 36 lower-case hex digits and hyphens.
#[verifier::external_body]
fn fresh_token() -> (r: String)
    ensures
        is_token(r@),
{
    uuid::Uuid::new_v4().to_string()
}

/// The line that stops command processing until `token` is seen.
pub open spec fn stop_line(token: Seq<char>) -> Seq<char> {
    seq![':', ':'] + "stop-commands"@ + seq![':', ':'] + token + seq!['\n']
}

/// The line that resumes command processing.
pub open spec fn resume_line(token: Seq<char>) -> Seq<char> {
    seq![':', ':'] + token + seq![':', ':', '\n']
}

/// Whether `after` is what a facade had written when it held `before` and
/// then tried to write `line`: the line was added where the sink accepted
/// it, and nothing otherwise.
pub open spec fn emitted(before: Seq<char>, after: Seq<char>, line: Seq<char>, ok: bool) -> bool {
    if ok {
        after == before + line
    } else {
        after == before
    }
}

/// The variable that holds the search path.
pub open spec fn path_key() -> Seq<char> {
    "PATH"@
}

/// The variables after `dir` is appended to the search path: after the
/// delimiter where the path holds text, as the whole path where it is not
/// set; a path that is not valid text is left as it is.
pub open spec fn path_added(vars: Vars, delimiter: char, dir: Seq<char>) -> Vars {
    if !vars.contains_key(path_key()) {
        vars.insert(path_key(), Some(dir))
    } else {
        match vars[path_key()] {
            Some(p) => vars.insert(path_key(), Some(p + seq![delimiter] + dir)),
            None => vars,
        }
    }
}

/// The entry of a search path after its last delimiter; the whole path
/// where it holds none.
pub open spec fn last_segment(path: Seq<char>, delimiter: char) -> Seq<char>
    decreases path.len(),
{
    if path.len() == 0 {
        path
    } else if path.last() == delimiter {
        seq![]
    } else {
        last_segment(path.drop_last(), delimiter).push(path.last())
    }
}

proof fn lemma_last_segment_after(head: Seq<char>, delimiter: char, dir: Seq<char>)
    requires
        !dir.contains(delimiter),
    ensures
        last_segment(head + dir, delimiter) == (if head.len() > 0 && head.last() == delimiter {
            dir
        } else {
            last_segment(head, delimiter) + dir
        }),
    decreases dir.len(),
{
    if dir.len() == 0 {
        assert(head + dir =~= head);
        if head.len() > 0 && head.last() == delimiter {
            assert(last_segment(head, delimiter) == Seq::<char>::empty());
        } else {
            assert(last_segment(head, delimiter) + dir =~= last_segment(head, delimiter));
        }
    } else {
        assert(dir.drop_last().contains(delimiter) ==> dir.contains(delimiter));
        assert(dir.contains(dir.last()));
        lemma_last_segment_after(head, delimiter, dir.drop_last());
        assert((head + dir).drop_last() =~= head + dir.drop_last());
        assert((head + dir).last() == dir.last());
        if head.len() > 0 && head.last() == delimiter {
            assert(dir.drop_last().push(dir.last()) =~= dir);
        } else {
            assert((last_segment(head, delimiter) + dir.drop_last()).push(dir.last()) =~= last_segment(
                head,
                delimiter,
            ) + dir);
        }
    }
}

/// Once a directory that holds no delimiter has been appended, the search
/// path is set and its last entry is that directory.
pub proof fn lemma_added_dir_is_last(vars: Vars, delimiter: char, dir: Seq<char>)
    requires
        !dir.contains(delimiter),
        vars.contains_key(path_key()) ==> vars[path_key()] is Some,
    ensures
        path_added(vars, delimiter, dir).contains_key(path_key()),
        path_added(vars, delimiter, dir)[path_key()] is Some,
        last_segment(path_added(vars, delimiter, dir)[path_key()]->Some_0, delimiter) == dir,
{
    if vars.contains_key(path_key()) {
        let p = vars[path_key()]->Some_0;
        let head = p + seq![delimiter];
        lemma_last_segment_after(head, delimiter, dir);
    } else {
        lemma_last_segment_after(seq![], delimiter, dir);
        assert(Seq::<char>::empty() + dir =~= dir);
    }
}

/// The facade: writes command lines to `out` and reads and sets variables in
/// `env`.
pub struct Core<W, E> {
    pub out: W,
    pub env: E,
    pub sent: Ghost<Seq<char>>,
}

impl<W, E> Core<W, E> {
    /// The text that this facade has handed to its sink and that the sink
    /// accepted, in order.
    pub open spec fn written(&self) -> Seq<char> {
        self.sent@
    }
}

impl<W: Sink, E: Environment> Core<W, E> {
    /// A facade over a sink and an environment.
    pub fn new(out: W, env: E) -> (r: Self)
        ensures
            r.out == out,
            r.env == env,
            r.written() == Seq::<char>::empty(),
    {
        Core { out, env, sent: Ghost(Seq::empty()) }
    }

    /// Writes one line to the sink.
    fn emit(&mut self, line: &str) -> (r: Result<(), std::io::Error>)
        ensures
            final(self).env == old(self).env,
            r is Ok ==> final(self).written() == old(self).written() + line@,
            r is Err ==> final(self).written() == old(self).written(),
    {
        let r = self.out.write_str(line);
        if r.is_ok() {
            self.sent = Ghost(self.sent@ + line@);
        }
        r
    }

    /// Writes a command without properties.
    fn issue(&mut self, command: &str, payload: &str) -> (r: Result<(), std::io::Error>)
        ensures
            final(self).env == old(self).env,
            emitted(old(self).written(), final(self).written(), command_line(
                command@,
                payload@,
            ), r is Ok),
    {
        let props: Vec<(&str, &str)> = Vec::new();
        let line = encode(command, props.as_slice(), payload);
        assert(crate::command::pairs_view(props@) =~= seq![]);
        self.emit(line.as_str())
    }

    /// Writes a command with the single property `name=<key>`.
    fn issue_named(&mut self, command: &str, key: &str, value: &str) -> (r: Result<
        (),
        std::io::Error,
    >)
        ensures
            final(self).env == old(self).env,
            emitted(old(self).written(), final(self).written(), named_line(
                command@,
                key@,
                value@,
            ), r is Ok),
    {
        let props: Vec<(&str, &str)> = vec![("name", key)];
        let line = encode(command, props.as_slice(), value);
        assert(crate::command::pairs_view(props@) =~= seq![("name"@, key@)]);
        self.emit(line.as_str())
    }

    /// Reads an input of the step.
    pub fn input(&self, name: &str) -> (r: Result<String, VarError>)
        ensures
            looked_up(self.env.vars(), env_key("INPUT"@, name@), r),
    {
        env::input(&self.env, name)
    }

    /// Sets an output of the step.
    pub fn set_output(&mut self, key: &str, value: &str) -> (r: Result<(), std::io::Error>)
        ensures
            final(self).env == old(self).env,
            emitted(old(self).written(), final(self).written(), named_line(
                "set-output"@,
                key@,
                value@,
            ), r is Ok),
    {
        self.issue_named("set-output", key, value)
    }

    /// Sets a variable for this step at once, and asks the runner to set it
    /// for the steps that follow.
    pub fn export_variable(&mut self, key: &str, value: &str) -> (r: Result<(), std::io::Error>)
        requires
            settable(key@, value@),
        ensures
            final(self).env.vars() == old(self).env.vars().insert(key@, Some(value@)),
            final(self).env.delimiter() == old(self).env.delimiter(),
            emitted(old(self).written(), final(self).written(), named_line(
                "set-env"@,
                key@,
                value@,
            ), r is Ok),
    {
        self.env.set_var(key, value);
        self.issue_named("set-env", key, value)
    }

    /// Asks the runner to mask a value in the log.
    pub fn set_secret(&mut self, value: &str) -> (r: Result<(), std::io::Error>)
        ensures
            final(self).env == old(self).env,
            emitted(old(self).written(), final(self).written(), command_line(
                "add-mask"@,
                value@,
            ), r is Ok),
    {
        self.issue("add-mask", value)
    }

    /// Asks the runner to add a directory to the search path of the steps
    /// that follow, then appends it to the search path of this step.
    pub fn add_path(&mut self, dir: &str) -> (r: Result<(), std::io::Error>)
        requires
            !dir@.contains('\0'),
        ensures
            final(self).env.delimiter() == old(self).env.delimiter(),
            r is Err ==> final(self).env == old(self).env,
            emitted(old(self).written(), final(self).written(), command_line(
                "add-path"@,
                dir@,
            ), r is Ok),
            r is Ok ==> final(self).env.vars() == path_added(
                old(self).env.vars(),
                old(self).env.delimiter(),
                dir@,
            ),
    {
        match self.issue("add-path", dir) {
            Ok(()) => {},
            Err(e) => {
                return Err(e);
            },
        }
        proof {
            reveal_strlit("PATH");
        }
        match self.env.var("PATH") {
            Ok(current) => {
                let delimiter = self.env.path_delimiter();
                let mut path = current;
                push_char(&mut path, delimiter);
                push_text(&mut path, dir);
                assert(path@ =~= current@ + seq![delimiter] + dir@);
                proof {
                    let p = path@;
                    assert forall|c: char| c == '\0' implies !p.contains(c) by {
                        if p.contains(c) {
                            let k = choose|k: int| 0 <= k < p.len() && p[k] == c;
                            let cur = current@;
                            if k < cur.len() {
                                assert(cur[k] == c);
                            } else if k > cur.len() {
                                assert(dir@[k - cur.len() - 1] == c);
                            }
                        }
                    }
                }
                self.env.set_var("PATH", path.as_str());
            },
            Err(VarError::NotPresent) => {
                self.env.set_var("PATH", dir);
            },
            Err(VarError::NotUnicode) => {},
        }
        Ok(())
    }

    /// Saves state for a later part of the step.
    pub fn save_state(&mut self, key: &str, value: &str) -> (r: Result<(), std::io::Error>)
        ensures
            final(self).env == old(self).env,
            emitted(old(self).written(), final(self).written(), named_line(
                "save-state"@,
                key@,
                value@,
            ), r is Ok),
    {
        self.issue_named("save-state", key, value)
    }

    /// Reads state saved by an earlier part of the step.
    pub fn get_state(&self, name: &str) -> (r: Result<String, VarError>)
        ensures
            looked_up(self.env.vars(), env_key("STATE"@, name@), r),
    {
        env::state(&self.env, name)
    }

    /// Runs `body` while the runner processes no commands: writes a stop line
    /// with a fresh token, runs the body, then writes the token's resume line.
    /// The body's result is handed back. The resume line is written only when
    /// the body returns; a body that panics leaves command processing stopped.
    pub fn stop_logging<F: FnOnce() -> T, T>(&mut self, body: F) -> (r: Result<T, std::io::Error>)
        requires
            body.requires(()),
        ensures
            final(self).env == old(self).env,
            r matches Ok(v) ==> body.ensures((), v),
            r is Ok ==> exists|token: Seq<char>|
                is_token(token) && final(self).written() == old(self).written()
                    + stop_line(token) + resume_line(token),
            r is Err ==> final(self).written() == old(self).written() || exists|token: Seq<char>|
                is_token(token) && final(self).written() == old(self).written() + stop_line(token),
    {
        let token = fresh_token();
        let ghost before = self.written();
        match self.issue("stop-commands", token.as_str()) {
            Ok(()) => {},
            Err(e) => {
                return Err(e);
            },
        }
        proof {
            let t = token@;
            assert forall|c: char| c == '%' || c == '\r' || c == '\n' implies !t.contains(c) by {
                if t.contains(c) {
                    let k = choose|k: int| 0 <= k < t.len() && t[k] == c;
                    assert(is_token_char(t[k]));
                }
            }
            crate::escape::lemma_plain_data_unchanged(t);
            assert(self.written() =~= before + stop_line(t));
        }
        let result = body();
        let ghost middle = self.written();
        match self.issue(token.as_str(), "") {
            Ok(()) => {},
            Err(e) => {
                return Err(e);
            },
        }
        proof {
            let t = token@;
            reveal_strlit("");
            assert(crate::escape::escaped_data(""@) =~= seq![]);
            assert(middle =~= before + stop_line(t));
            assert(self.written() =~= before + stop_line(t) + resume_line(t));
        }
        Ok(result)
    }

    /// Whether step debugging is on.
    pub fn is_debug(&self) -> (r: bool)
        ensures
            r == (self.env.vars().contains_key("RUNNER_DEBUG"@) && self.env.vars()["RUNNER_DEBUG"@]
                == Some("1"@)),
    {
        env::is_debug(&self.env)
    }

    /// Writes a message at a level; the message is escaped as data.
    pub fn log_message(&mut self, level: LogLevel, message: &str) -> (r: Result<
        (),
        std::io::Error,
    >)
        ensures
            final(self).env == old(self).env,
            emitted(old(self).written(), final(self).written(), command_line(
                level_name(level),
                message@,
            ), r is Ok),
    {
        self.issue(level.as_str(), message)
    }

    /// Writes a debug message.
    pub fn debug(&mut self, message: &str) -> (r: Result<(), std::io::Error>)
        ensures
            final(self).env == old(self).env,
            emitted(old(self).written(), final(self).written(), command_line(
                "debug"@,
                message@,
            ), r is Ok),
    {
        self.log_message(LogLevel::Debug, message)
    }

    /// Writes an error message.
    pub fn error(&mut self, message: &str) -> (r: Result<(), std::io::Error>)
        ensures
            final(self).env == old(self).env,
            emitted(old(self).written(), final(self).written(), command_line(
                "error"@,
                message@,
            ), r is Ok),
    {
        self.log_message(LogLevel::Error, message)
    }

    /// Writes a warning message.
    pub fn warning(&mut self, message: &str) -> (r: Result<(), std::io::Error>)
        ensures
            final(self).env == old(self).env,
            emitted(old(self).written(), final(self).written(), command_line(
                "warning"@,
                message@,
            ), r is Ok),
    {
        self.log_message(LogLevel::Warning, message)
    }

    /// Writes a log entry at a level; the message is written as it is.
    pub fn log(&mut self, level: LogLevel, log: Log) -> (r: Result<(), std::io::Error>)
        ensures
            final(self).env == old(self).env,
            emitted(old(self).written(), final(self).written(), log_line(level, log), r is Ok),
    {
        let line = format_log(level, &log);
        self.emit(line.as_str())
    }

    /// Writes a log entry at the debug level.
    pub fn log_debug(&mut self, log: Log) -> (r: Result<(), std::io::Error>)
        ensures
            final(self).env == old(self).env,
            emitted(old(self).written(), final(self).written(), log_line(
                LogLevel::Debug,
                log,
            ), r is Ok),
    {
        self.log(LogLevel::Debug, log)
    }

    /// Writes a log entry at the error level.
    pub fn log_error(&mut self, log: Log) -> (r: Result<(), std::io::Error>)
        ensures
            final(self).env == old(self).env,
            emitted(old(self).written(), final(self).written(), log_line(
                LogLevel::Error,
                log,
            ), r is Ok),
    {
        self.log(LogLevel::Error, log)
    }

    /// Writes a log entry at the warning level.
    pub fn log_warning(&mut self, log: Log) -> (r: Result<(), std::io::Error>)
        ensures
            final(self).env == old(self).env,
            emitted(old(self).written(), final(self).written(), log_line(
                LogLevel::Warning,
                log,
            ), r is Ok),
    {
        self.log(LogLevel::Warning, log)
    }
}

} // verus!
