//! What the process runner decides: whether a command may run, how it is
//! invoked, and what each line of its output means to a consumer.

use vstd::prelude::*;
use vstd::string::*;
use crate::security::{
    first_fault, is_allowed, validate_command_args, validate_manager_security, SecurityError,
    SecurityFault,
};
use crate::text::{
    chars_contain, chars_of, contains_text, is_blank, join_tokens, joined, str_trim, texts,
};
use crate::updater::{EventView, PackageManager, UpdateEvent};

verus! {

/// A program and the arguments it is started with.
#[derive(Debug, Clone, PartialEq, Eq)]
pub struct Invocation {
    pub program: String,
    pub args: Vec<String>,
}

/// An invocation with its texts as sequences of characters.
pub ghost struct InvocationView {
    pub program: Seq<char>,
    pub args: Seq<Seq<char>>,
}

impl View for Invocation {
    type V = InvocationView;

    open spec fn view(&self) -> InvocationView {
        InvocationView { program: self.program@, args: texts(self.args@) }
    }
}

/// How a command is started. With elevation the whole command, joined by
/// single spaces, is handed to the privilege helper as one shell line, so that
/// the user is asked once. Without it the first token is the program and the
/// rest are its arguments.
pub open spec fn invocation_for(cmd: Seq<Seq<char>>, needs_sudo: bool) -> InvocationView {
    if needs_sudo {
        InvocationView {
            program: "pkexec"@,
            args: seq!["--user"@, "root"@, "sh"@, "-c"@, joined(cmd, " "@)],
        }
    } else {
        InvocationView { program: cmd[0], args: cmd.skip(1) }
    }
}

/// Builds the invocation for a command.
pub fn build_invocation(cmd: &[String], needs_sudo: bool) -> (invocation: Invocation)
    requires
        needs_sudo || cmd@.len() > 0,
    ensures
        invocation@ == invocation_for(texts(cmd@), needs_sudo),
{
    if needs_sudo {
        let mut args: Vec<String> = Vec::new();
        args.push("--user".to_owned());
        args.push("root".to_owned());
        args.push("sh".to_owned());
        args.push("-c".to_owned());
        args.push(join_tokens(cmd, " "));
        let invocation = Invocation { program: "pkexec".to_owned(), args };
        assert(invocation@.args =~= invocation_for(texts(cmd@), needs_sudo).args);
        invocation
    } else {
        let mut args: Vec<String> = Vec::new();
        let mut i: usize = 1;
        while i < cmd.len()
            invariant
                1 <= i <= cmd@.len(),
                args@.len() == i - 1,
                forall|j: int| 0 <= j < i - 1 ==> args@[j]@ == cmd@[j + 1]@,
            decreases cmd@.len() - i,
        {
            args.push(cmd[i].clone());
            i += 1;
        }
        let invocation = Invocation { program: cmd[0].clone(), args };
        assert(invocation@.args =~= texts(cmd@).skip(1));
        invocation
    }
}

/// What is decided for a command of the manager called `name`: the manager is
/// checked first, then the arguments, and only a command that passes both is
/// given an invocation.
pub open spec fn planned(name: Seq<char>, cmd: Seq<Seq<char>>, needs_sudo: bool) -> Result<
    InvocationView,
    SecurityFault,
> {
    if !is_allowed(name) {
        Err(SecurityFault::UnauthorizedManager(name))
    } else if first_fault(cmd) is Some {
        Err(first_fault(cmd)->0)
    } else {
        Ok(invocation_for(cmd, needs_sudo))
    }
}

/// Checks the manager and the command, and plans the invocation. Nothing is
/// planned for a command that fails a check.
pub fn plan_command(cmd: &[String], needs_sudo: bool, manager: &PackageManager) -> (plan: Result<
    Invocation,
    SecurityError,
>)
    requires
        needs_sudo || cmd@.len() > 0,
    ensures
        match plan {
            Ok(invocation) => planned(manager.name@, texts(cmd@), needs_sudo) == Ok::<
                InvocationView,
                SecurityFault,
            >(invocation@),
            Err(e) => planned(manager.name@, texts(cmd@), needs_sudo) == Err::<
                InvocationView,
                SecurityFault,
            >(e@),
        },
{
    match validate_manager_security(manager) {
        Ok(_) => {},
        Err(e) => {
            return Err(e);
        },
    }
    match validate_command_args(cmd) {
        Ok(_) => {},
        Err(e) => {
            return Err(e);
        },
    }
    Ok(build_invocation(cmd, needs_sudo))
}

/// What a line on standard output means: progress, unless the line is blank.
pub open spec fn stdout_event(source: Seq<char>, line: Seq<char>) -> Option<EventView> {
    if is_blank(line) {
        None
    } else {
        Some(EventView::SourceProgress(source, line))
    }
}

/// The line asks for a credential.
pub open spec fn is_credential_prompt(line: Seq<char>) -> bool {
    contains_text(line, "password"@)
}

/// The line reports ordinary status although it came on standard error.
pub open spec fn is_benign_notice(line: Seq<char>) -> bool {
    ||| contains_text(line, "up to date"@)
    ||| contains_text(line, "Nothing to do"@)
    ||| contains_text(line, "info:"@)
}

/// What a line on standard error means: nothing when it is blank or asks for
/// a credential, progress when it is a benign notice, an error otherwise.
pub open spec fn stderr_event(source: Seq<char>, line: Seq<char>) -> Option<EventView> {
    if is_blank(line) || is_credential_prompt(line) {
        None
    } else if is_benign_notice(line) {
        Some(EventView::SourceProgress(source, line))
    } else {
        Some(EventView::SourceError(source, line))
    }
}

/// Whether nothing is left of the line after trimming.
pub fn line_is_blank(line: &str) -> (blank: bool)
    ensures
        blank == is_blank(line@),
{
    str_trim(line).is_empty()
}

/// Turns a line read from standard output into the event it stands for.
pub fn classify_stdout(source: &str, line: String) -> (event: Option<UpdateEvent>)
    ensures
        match event {
            Some(e) => stdout_event(source@, line@) == Some(e@),
            None => stdout_event(source@, line@) is None,
        },
{
    if line_is_blank(line.as_str()) {
        None
    } else {
        Some(UpdateEvent::SourceProgress(source.to_owned(), line))
    }
}

/// Turns a line read from standard error into the event it stands for.
pub fn classify_stderr(source: &str, line: String) -> (event: Option<UpdateEvent>)
    ensures
        match event {
            Some(e) => stderr_event(source@, line@) == Some(e@),
            None => stderr_event(source@, line@) is None,
        },
{
    if line_is_blank(line.as_str()) {
        return None;
    }
    let text = chars_of(line.as_str());
    if chars_contain(&text, "password") {
        return None;
    }
    if chars_contain(&text, "up to date") || chars_contain(&text, "Nothing to do")
        || chars_contain(&text, "info:") {
        Some(UpdateEvent::SourceProgress(source.to_owned(), line))
    } else {
        Some(UpdateEvent::SourceError(source.to_owned(), line))
    }
}

/// The text of the event for a command that could not be started.
pub open spec fn spawn_failure_text(source: Seq<char>, reason: Seq<char>) -> Seq<char> {
    "Failed to run "@ + source + ": "@ + reason
}

/// The event for a command that could not be started.
pub fn spawn_failure_event(source: &str, reason: &str) -> (event: UpdateEvent)
    ensures
        event@ == EventView::Error(spawn_failure_text(source@, reason@)),
{
    let mut text = "Failed to run ".to_owned();
    text.append(source);
    text.append(": ");
    text.append(reason);
    UpdateEvent::Error(text)
}

} // verus!
