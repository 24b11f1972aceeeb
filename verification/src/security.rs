//! The checks that a manager and its command must pass before anything runs.

use vstd::prelude::*;
use vstd::string::*;
use crate::text::{
    byte_len, chars_contain, chars_of, contains_text, decimal, decimal_string, str_eq, texts,
};
use crate::updater::PackageManager;

verus! {

/// The managers that may run commands, whatever a catalog holds.
pub const ALLOWED_MANAGERS: [&'static str; 11] = [
    "paru", "apt", "dnf", "zypper", "apk", "flatpak", "snap", "pipx", "npm", "rustup", "brew",
];

/// Longest argument that is accepted, in bytes.
pub const MAX_ARGUMENT_LEN: usize = 1000;

/// Why a manager or a command was refused.
#[derive(Debug, Clone, PartialEq, Eq)]
pub enum SecurityError {
    /// The manager of this name is not on the allow-list.
    UnauthorizedManager(String),
    /// This argument chains or substitutes commands.
    InjectionPattern(String),
    /// This argument writes into a device path.
    DangerousRedirect(String),
    /// An argument of this many bytes is over the ceiling.
    ArgumentTooLong(usize),
}

/// A refusal with its texts as sequences of characters.
pub ghost enum SecurityFault {
    UnauthorizedManager(Seq<char>),
    InjectionPattern(Seq<char>),
    DangerousRedirect(Seq<char>),
    ArgumentTooLong(nat),
}

impl View for SecurityError {
    type V = SecurityFault;

    open spec fn view(&self) -> SecurityFault {
        match self {
            SecurityError::UnauthorizedManager(name) => SecurityFault::UnauthorizedManager(name@),
            SecurityError::InjectionPattern(arg) => SecurityFault::InjectionPattern(arg@),
            SecurityError::DangerousRedirect(arg) => SecurityFault::DangerousRedirect(arg@),
            SecurityError::ArgumentTooLong(len) => SecurityFault::ArgumentTooLong(*len as nat),
        }
    }
}

/// The sentence that a consumer is shown for a refusal.
pub open spec fn fault_message(fault: SecurityFault) -> Seq<char> {
    match fault {
        SecurityFault::UnauthorizedManager(name) => "Unauthorized package manager: "@ + name
            + ". Only trusted managers are allowed."@,
        SecurityFault::InjectionPattern(arg) => "Invalid argument pattern detected: '"@ + arg
            + "'. Command injection patterns not allowed"@,
        SecurityFault::DangerousRedirect(arg) => "Dangerous file redirection detected: '"@ + arg
            + "'"@,
        SecurityFault::ArgumentTooLong(len) => "Argument too long (potential buffer overflow): "@
            + decimal(len) + " characters"@,
    }
}

impl SecurityError {
    /// The sentence that a consumer is shown for this refusal.
    pub fn message(&self) -> (text: String)
        ensures
            text@ == fault_message(self@),
    {
        match self {
            SecurityError::UnauthorizedManager(name) => {
                let mut text = "Unauthorized package manager: ".to_owned();
                text.append(name.as_str());
                text.append(". Only trusted managers are allowed.");
                text
            },
            SecurityError::InjectionPattern(arg) => {
                let mut text = "Invalid argument pattern detected: '".to_owned();
                text.append(arg.as_str());
                text.append("'. Command injection patterns not allowed");
                text
            },
            SecurityError::DangerousRedirect(arg) => {
                let mut text = "Dangerous file redirection detected: '".to_owned();
                text.append(arg.as_str());
                text.append("'");
                text
            },
            SecurityError::ArgumentTooLong(len) => {
                let mut text = "Argument too long (potential buffer overflow): ".to_owned();
                let digits = decimal_string(*len);
                text.append(digits.as_str());
                text.append(" characters");
                text
            },
        }
    }
}

/// The name is on the allow-list.
pub open spec fn is_allowed(name: Seq<char>) -> bool {
    exists|i: int| 0 <= i < ALLOWED_MANAGERS@.len() && #[trigger] ALLOWED_MANAGERS@[i]@ == name
}

/// Whether the name is on the allow-list.
pub fn manager_allowed(name: &str) -> (allowed: bool)
    ensures
        allowed == is_allowed(name@),
{
    let mut i: usize = 0;
    while i < ALLOWED_MANAGERS.len()
        invariant
            i <= ALLOWED_MANAGERS@.len(),
            forall|j: int| 0 <= j < i ==> #[trigger] ALLOWED_MANAGERS@[j]@ != name@,
        decreases ALLOWED_MANAGERS@.len() - i,
    {
        if str_eq(ALLOWED_MANAGERS[i], name) {
            return true;
        }
        i += 1;
    }
    false
}

/// Accepts the manager when its name is on the allow-list, and refuses it as
/// unauthorized otherwise.
pub fn validate_manager_security(manager: &PackageManager) -> (checked: Result<(), SecurityError>)
    ensures
        match checked {
            Ok(_) => is_allowed(manager.name@),
            Err(e) => !is_allowed(manager.name@) && e@ == SecurityFault::UnauthorizedManager(
                manager.name@,
            ),
        },
{
    if manager_allowed(manager.name.as_str()) {
        Ok(())
    } else {
        Err(SecurityError::UnauthorizedManager(manager.name.clone()))
    }
}

/// The argument chains or substitutes commands.
pub open spec fn has_injection(arg: Seq<char>) -> bool {
    ||| contains_text(arg, "&&"@)
    ||| contains_text(arg, "||"@)
    ||| contains_text(arg, ";"@)
    ||| contains_text(arg, "`"@)
    ||| contains_text(arg, "|"@)
}

/// The argument writes into a device path.
pub open spec fn has_device_redirect(arg: Seq<char>) -> bool {
    contains_text(arg, "> /dev/"@) || contains_text(arg, ">> /dev/"@)
}

/// The argument is longer than the ceiling.
pub open spec fn is_too_long(arg: Seq<char>) -> bool {
    byte_len(arg) > MAX_ARGUMENT_LEN
}

/// What is wrong with one argument, if anything: chaining is looked for first,
/// then a device redirect, then the length.
pub open spec fn argument_fault(arg: Seq<char>) -> Option<SecurityFault> {
    if has_injection(arg) {
        Some(SecurityFault::InjectionPattern(arg))
    } else if has_device_redirect(arg) {
        Some(SecurityFault::DangerousRedirect(arg))
    } else if is_too_long(arg) {
        Some(SecurityFault::ArgumentTooLong(byte_len(arg)))
    } else {
        None
    }
}

/// Checks one argument.
pub fn validate_argument(arg: &String) -> (checked: Result<(), SecurityError>)
    ensures
        match checked {
            Ok(_) => argument_fault(arg@) is None,
            Err(e) => argument_fault(arg@) == Some(e@),
        },
{
    let text = chars_of(arg.as_str());
    if chars_contain(&text, "&&") || chars_contain(&text, "||") || chars_contain(&text, ";")
        || chars_contain(&text, "`") || chars_contain(&text, "|") {
        return Err(SecurityError::InjectionPattern(arg.clone()));
    }
    if chars_contain(&text, "> /dev/") || chars_contain(&text, ">> /dev/") {
        return Err(SecurityError::DangerousRedirect(arg.clone()));
    }
    let len = arg.as_str().as_bytes().len();
    if len > MAX_ARGUMENT_LEN {
        return Err(SecurityError::ArgumentTooLong(len));
    }
    Ok(())
}

/// The fault of the first argument that has one.
pub open spec fn first_fault(args: Seq<Seq<char>>) -> Option<SecurityFault>
    decreases args.len(),
{
    if args.len() == 0 {
        None
    } else if argument_fault(args[0]) is Some {
        argument_fault(args[0])
    } else {
        first_fault(args.drop_first())
    }
}

/// Checks every argument in order and reports the first fault found.
pub fn validate_command_args(args: &[String]) -> (checked: Result<(), SecurityError>)
    ensures
        match checked {
            Ok(_) => first_fault(texts(args@)) is None,
            Err(e) => first_fault(texts(args@)) == Some(e@),
        },
{
    let mut i: usize = 0;
    assert(texts(args@).skip(0) =~= texts(args@));
    while i < args.len()
        invariant
            i <= args@.len(),
            first_fault(texts(args@)) == first_fault(texts(args@).skip(i as int)),
        decreases args@.len() - i,
    {
        proof {
            let rest = texts(args@).skip(i as int);
            assert(rest[0] == args@[i as int]@);
            assert(rest.drop_first() =~= texts(args@).skip(i + 1));
        }
        match validate_argument(&args[i]) {
            Ok(_) => {},
            Err(e) => {
                return Err(e);
            },
        }
        i += 1;
    }
    Ok(())
}

/// The first argument with a fault decides: where no argument
/// before position `at` has a fault and the one at `at` has, its fault is the
/// one reported.
pub proof fn first_fault_is_earliest(args: Seq<Seq<char>>, at: int)
    requires
        0 <= at < args.len(),
        forall|j: int| 0 <= j < at ==> argument_fault(#[trigger] args[j]) is None,
        argument_fault(args[at]) is Some,
    ensures
        first_fault(args) == argument_fault(args[at]),
    decreases args.len(),
{
    if at > 0 {
        let rest = args.drop_first();
        assert(argument_fault(args[0]) is None);
        assert forall|j: int| 0 <= j < at - 1 implies argument_fault(#[trigger] rest[j]) is None by {
            assert(rest[j] == args[j + 1]);
        }
        assert(rest[at - 1] == args[at]);
        first_fault_is_earliest(rest, at - 1);
    }
}

/// A command passes exactly when none of its arguments has a fault.
pub proof fn no_fault_iff_every_argument_clean(args: Seq<Seq<char>>)
    ensures
        first_fault(args) is None <==> forall|i: int|
            0 <= i < args.len() ==> argument_fault(#[trigger] args[i]) is None,
    decreases args.len(),
{
    if args.len() > 0 {
        let rest = args.drop_first();
        no_fault_iff_every_argument_clean(rest);
        if first_fault(args) is None {
            assert forall|i: int| 0 <= i < args.len() implies argument_fault(
                #[trigger] args[i],
            ) is None by {
                if i > 0 {
                    assert(rest[i - 1] == args[i]);
                }
            }
        }
        if forall|i: int| 0 <= i < args.len() ==> argument_fault(#[trigger] args[i]) is None {
            assert(argument_fault(args[0]) is None);
            assert forall|i: int| 0 <= i < rest.len() implies argument_fault(
                #[trigger] rest[i],
            ) is None by {
                assert(rest[i] == args[i + 1]);
            }
        }
    }
}

/// An argument that holds `&&`, `||`, `;`, a backtick or `|` is refused as an
/// injection pattern, whatever else is wrong with it, when no argument before
/// it has a fault.
pub proof fn injection_is_refused(args: Seq<Seq<char>>, at: int)
    requires
        0 <= at < args.len(),
        forall|j: int| 0 <= j < at ==> argument_fault(#[trigger] args[j]) is None,
        has_injection(args[at]),
    ensures
        first_fault(args) == Some(SecurityFault::InjectionPattern(args[at])),
{
    first_fault_is_earliest(args, at);
}

/// An argument that redirects into a device path, and holds no injection
/// pattern, is refused as a dangerous redirect when no argument before it has
/// a fault.
pub proof fn device_redirect_is_refused(args: Seq<Seq<char>>, at: int)
    requires
        0 <= at < args.len(),
        forall|j: int| 0 <= j < at ==> argument_fault(#[trigger] args[j]) is None,
        !has_injection(args[at]),
        has_device_redirect(args[at]),
    ensures
        first_fault(args) == Some(SecurityFault::DangerousRedirect(args[at])),
{
    first_fault_is_earliest(args, at);
}

/// An argument over the length ceiling, with no injection pattern and no
/// device redirect in it, is refused as too long when no argument before it
/// has a fault.
pub proof fn long_argument_is_refused(args: Seq<Seq<char>>, at: int)
    requires
        0 <= at < args.len(),
        forall|j: int| 0 <= j < at ==> argument_fault(#[trigger] args[j]) is None,
        !has_injection(args[at]),
        !has_device_redirect(args[at]),
        is_too_long(args[at]),
    ensures
        first_fault(args) == Some(SecurityFault::ArgumentTooLong(byte_len(args[at]))),
{
    first_fault_is_earliest(args, at);
}

} // verus!
