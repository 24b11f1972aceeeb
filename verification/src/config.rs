//! The user's settings: which sources are enabled, the custom commands, and
//! the rules that names and commands must meet before they are stored.

use std::path::PathBuf;
use vstd::prelude::*;
use vstd::string::*;
use crate::text::{
    byte_len, char_is_alphanumeric, chars_contain, chars_of, contains_text, str_eq,
    str_to_lowercase, str_trim, trimmed, unicode_alphanumeric, unicode_lowercase,
};

verus! {

/// Trusted: `std::path::PathBuf`, carried through as an opaque value.
#[verifier::external_type_specification]
#[verifier::external_body]
pub struct ExPathBuf(PathBuf);

/// Trusted: `PathBuf::clone`, which the derived `Clone` of the settings
/// calls. Nothing is claimed of the copy.
pub assume_specification[ <PathBuf as Clone>::clone ](path: &PathBuf) -> (copy: PathBuf);

/// Longest source name that is accepted, in bytes.
pub const MAX_SOURCE_NAME_LEN: usize = 50;

/// Longest name of a custom command that is accepted, in bytes.
pub const MAX_COMMAND_NAME_LEN: usize = 100;

/// Longest custom command that is accepted, in bytes.
pub const MAX_COMMAND_LEN: usize = 1000;

/// What a custom command may not hold, in any mix of upper and lower case.
pub const DANGEROUS_PATTERNS: [&'static str; 7] = [
    "rm -rf", "sudo rm", "dd if=", "mkfs", "fdisk", "parted", "> /dev/",
];

/// A shell command that the user added to the updates.
#[derive(Debug, Clone, PartialEq, Eq)]
pub struct CustomCommand {
    pub name: String,
    pub command: String,
    pub enabled: bool,
}

/// Why a name or a command was not accepted.
#[derive(Debug, Clone, PartialEq, Eq)]
pub enum ConfigError {
    /// The source name is empty once trimmed.
    EmptySourceName,
    /// The trimmed source name, which is over the length limit.
    SourceNameTooLong(String),
    /// The trimmed source name, which holds a character that is not allowed.
    InvalidSourceName(String),
    /// The name of the custom command is empty once trimmed.
    EmptyCommandName,
    /// The trimmed name of the custom command, which is over the length limit.
    CommandNameTooLong(String),
    /// The custom command is empty once trimmed.
    EmptyCommand,
    /// The custom command is over the length limit.
    CommandTooLong,
    /// The dangerous pattern that the custom command holds.
    DangerousPattern(String),
    /// The custom command chains commands.
    ShellInjection,
}

/// A refusal with its texts as sequences of characters.
pub ghost enum ConfigFault {
    EmptySourceName,
    SourceNameTooLong(Seq<char>),
    InvalidSourceName(Seq<char>),
    EmptyCommandName,
    CommandNameTooLong(Seq<char>),
    EmptyCommand,
    CommandTooLong,
    DangerousPattern(Seq<char>),
    ShellInjection,
}

impl View for ConfigError {
    type V = ConfigFault;

    open spec fn view(&self) -> ConfigFault {
        match self {
            ConfigError::EmptySourceName => ConfigFault::EmptySourceName,
            ConfigError::SourceNameTooLong(name) => ConfigFault::SourceNameTooLong(name@),
            ConfigError::InvalidSourceName(name) => ConfigFault::InvalidSourceName(name@),
            ConfigError::EmptyCommandName => ConfigFault::EmptyCommandName,
            ConfigError::CommandNameTooLong(name) => ConfigFault::CommandNameTooLong(name@),
            ConfigError::EmptyCommand => ConfigFault::EmptyCommand,
            ConfigError::CommandTooLong => ConfigFault::CommandTooLong,
            ConfigError::DangerousPattern(pattern) => ConfigFault::DangerousPattern(pattern@),
            ConfigError::ShellInjection => ConfigFault::ShellInjection,
        }
    }
}

/// The sentence that a user is shown for a refusal.
pub open spec fn config_fault_message(fault: ConfigFault) -> Seq<char> {
    match fault {
        ConfigFault::EmptySourceName => "Source name cannot be empty"@,
        ConfigFault::SourceNameTooLong(name) => "Source name too long (max 50 characters): "@
            + name,
        ConfigFault::InvalidSourceName(name) => "Invalid characters in source name: '"@ + name
            + "'. Only alphanumeric, hyphens, and underscores allowed"@,
        ConfigFault::EmptyCommandName => "Custom command name cannot be empty"@,
        ConfigFault::CommandNameTooLong(name) =>
            "Custom command name too long (max 100 characters): "@ + name,
        ConfigFault::EmptyCommand => "Custom command cannot be empty"@,
        ConfigFault::CommandTooLong => "Custom command too long (max 1000 characters)"@,
        ConfigFault::DangerousPattern(pattern) =>
            "Command contains potentially dangerous pattern: '"@ + pattern + "'"@,
        ConfigFault::ShellInjection => "Command contains shell injection patterns"@,
    }
}

impl ConfigError {
    /// The sentence that a user is shown for this refusal.
    pub fn message(&self) -> (text: String)
        ensures
            text@ == config_fault_message(self@),
    {
        match self {
            ConfigError::EmptySourceName => "Source name cannot be empty".to_owned(),
            ConfigError::SourceNameTooLong(name) => {
                let mut text = "Source name too long (max 50 characters): ".to_owned();
                text.append(name.as_str());
                text
            },
            ConfigError::InvalidSourceName(name) => {
                let mut text = "Invalid characters in source name: '".to_owned();
                text.append(name.as_str());
                text.append("'. Only alphanumeric, hyphens, and underscores allowed");
                text
            },
            ConfigError::EmptyCommandName => "Custom command name cannot be empty".to_owned(),
            ConfigError::CommandNameTooLong(name) => {
                let mut text = "Custom command name too long (max 100 characters): ".to_owned();
                text.append(name.as_str());
                text
            },
            ConfigError::EmptyCommand => "Custom command cannot be empty".to_owned(),
            ConfigError::CommandTooLong => "Custom command too long (max 1000 characters)".to_owned(),
            ConfigError::DangerousPattern(pattern) => {
                let mut text = "Command contains potentially dangerous pattern: '".to_owned();
                text.append(pattern.as_str());
                text.append("'");
                text
            },
            ConfigError::ShellInjection => "Command contains shell injection patterns".to_owned(),
        }
    }
}

/// A character that a source name may hold: a letter, a digit, a hyphen or an
/// underscore.
pub open spec fn is_name_char(c: char) -> bool {
    unicode_alphanumeric(c) || c == '-' || c == '_'
}

/// What is wrong with a trimmed source name, if anything: it is empty, or
/// longer than the limit, or holds a character that is not allowed.
pub open spec fn source_name_fault(name: Seq<char>) -> Option<ConfigFault> {
    if name.len() == 0 {
        Some(ConfigFault::EmptySourceName)
    } else if byte_len(name) > MAX_SOURCE_NAME_LEN {
        Some(ConfigFault::SourceNameTooLong(name))
    } else if !(forall|i: int| 0 <= i < name.len() ==> is_name_char(#[trigger] name[i])) {
        Some(ConfigFault::InvalidSourceName(name))
    } else {
        None
    }
}

/// Checks a source name that has been trimmed.
pub fn check_source_name(name: &str) -> (checked: Result<(), ConfigError>)
    ensures
        match checked {
            Ok(_) => source_name_fault(name@) is None,
            Err(e) => source_name_fault(name@) == Some(e@),
        },
{
    if name.is_empty() {
        return Err(ConfigError::EmptySourceName);
    }
    if name.as_bytes().len() > MAX_SOURCE_NAME_LEN {
        return Err(ConfigError::SourceNameTooLong(name.to_owned()));
    }
    let chars = chars_of(name);
    let mut i: usize = 0;
    while i < chars.len()
        invariant
            chars@ == name@,
            name@.len() != 0,
            byte_len(name@) <= MAX_SOURCE_NAME_LEN,
            i <= chars@.len(),
            forall|j: int| 0 <= j < i ==> is_name_char(#[trigger] name@[j]),
        decreases chars@.len() - i,
    {
        let c = chars[i];
        if !(char_is_alphanumeric(c) || c == '-' || c == '_') {
            assert(!is_name_char(name@[i as int]));
            return Err(ConfigError::InvalidSourceName(name.to_owned()));
        }
        i += 1;
    }
    Ok(())
}

/// Accepts a source name that, once trimmed, is not empty, is at most 50
/// bytes long, and holds only letters, digits, hyphens and underscores.
pub fn validate_source_name(name: &str) -> (checked: Result<(), ConfigError>)
    ensures
        match checked {
            Ok(_) => source_name_fault(trimmed(name@)) is None,
            Err(e) => source_name_fault(trimmed(name@)) == Some(e@),
        },
{
    check_source_name(str_trim(name))
}

/// The first dangerous pattern, from position `from` of the list on, that the
/// lowered command holds.
pub open spec fn first_dangerous(lowered: Seq<char>, from: int) -> Option<Seq<char>>
    decreases DANGEROUS_PATTERNS@.len() - from,
{
    if from < 0 || from >= DANGEROUS_PATTERNS@.len() {
        None
    } else if contains_text(lowered, DANGEROUS_PATTERNS@[from]@) {
        Some(DANGEROUS_PATTERNS@[from]@)
    } else {
        first_dangerous(lowered, from + 1)
    }
}

/// The command chains commands or pipes one into another.
pub open spec fn chains_commands(command: Seq<char>) -> bool {
    ||| contains_text(command, "&&"@)
    ||| contains_text(command, "||"@)
    ||| contains_text(command, ";"@)
    ||| contains_text(command, "|"@)
}

/// What is wrong with a custom command, if anything. `name` and `command`
/// are trimmed, and `lowered` is the command in lower case. The name is
/// looked at first, then the command's length, then the dangerous patterns in
/// the order of their list, then command chaining.
pub open spec fn custom_command_fault(
    name: Seq<char>,
    command: Seq<char>,
    lowered: Seq<char>,
) -> Option<ConfigFault> {
    if name.len() == 0 {
        Some(ConfigFault::EmptyCommandName)
    } else if byte_len(name) > MAX_COMMAND_NAME_LEN {
        Some(ConfigFault::CommandNameTooLong(name))
    } else if command.len() == 0 {
        Some(ConfigFault::EmptyCommand)
    } else if byte_len(command) > MAX_COMMAND_LEN {
        Some(ConfigFault::CommandTooLong)
    } else if first_dangerous(lowered, 0) is Some {
        Some(ConfigFault::DangerousPattern(first_dangerous(lowered, 0)->0))
    } else if chains_commands(command) {
        Some(ConfigFault::ShellInjection)
    } else {
        None
    }
}

/// Checks a custom command whose name and text have been trimmed; `lowered`
/// is the text in lower case.
pub fn check_custom_command(name: &str, command: &str, lowered: &str) -> (checked: Result<
    (),
    ConfigError,
>)
    ensures
        match checked {
            Ok(_) => custom_command_fault(name@, command@, lowered@) is None,
            Err(e) => custom_command_fault(name@, command@, lowered@) == Some(e@),
        },
{
    if name.is_empty() {
        return Err(ConfigError::EmptyCommandName);
    }
    if name.as_bytes().len() > MAX_COMMAND_NAME_LEN {
        return Err(ConfigError::CommandNameTooLong(name.to_owned()));
    }
    if command.is_empty() {
        return Err(ConfigError::EmptyCommand);
    }
    if command.as_bytes().len() > MAX_COMMAND_LEN {
        return Err(ConfigError::CommandTooLong);
    }
    let lowered_text = chars_of(lowered);
    let mut i: usize = 0;
    while i < DANGEROUS_PATTERNS.len()
        invariant
            lowered_text@ == lowered@,
            i <= DANGEROUS_PATTERNS@.len(),
            first_dangerous(lowered@, 0) == first_dangerous(lowered@, i as int),
            name@.len() != 0,
            byte_len(name@) <= MAX_COMMAND_NAME_LEN,
            command@.len() != 0,
            byte_len(command@) <= MAX_COMMAND_LEN,
        decreases DANGEROUS_PATTERNS@.len() - i,
    {
        if chars_contain(&lowered_text, DANGEROUS_PATTERNS[i]) {
            return Err(ConfigError::DangerousPattern(DANGEROUS_PATTERNS[i].to_owned()));
        }
        i += 1;
    }
    let text = chars_of(command);
    if chars_contain(&text, "&&") || chars_contain(&text, "||") || chars_contain(&text, ";")
        || chars_contain(&text, "|") {
        return Err(ConfigError::ShellInjection);
    }
    Ok(())
}

/// Accepts a custom command whose trimmed name is not empty and at most 100
/// bytes long, and whose trimmed text is not empty, at most 1000 bytes long,
/// free of the dangerous patterns in any mix of case, and free of command
/// chaining.
pub fn validate_custom_command(name: &str, command: &str) -> (checked: Result<(), ConfigError>)
    ensures
        match checked {
            Ok(_) => custom_command_fault(
                trimmed(name@),
                trimmed(command@),
                unicode_lowercase(trimmed(command@)),
            ) is None,
            Err(e) => custom_command_fault(
                trimmed(name@),
                trimmed(command@),
                unicode_lowercase(trimmed(command@)),
            ) == Some(e@),
        },
{
    let name = str_trim(name);
    let command = str_trim(command);
    let lowered = str_to_lowercase(command);
    check_custom_command(name, command, lowered.as_str())
}

/// The settings of the application.
#[derive(Debug, Clone)]
pub struct Config {
    /// Whether runs only check for updates unless told otherwise.
    pub dry_run: bool,
    /// For each source that was ever set, whether it is enabled; one entry
    /// per source.
    pub enabled_sources: Vec<(String, bool)>,
    /// The custom commands, in the order in which they were added.
    pub custom_commands: Vec<CustomCommand>,
    /// Whether logs are kept.
    pub save_logs: bool,
    /// Where logs are kept.
    pub logs_dir: PathBuf,
}

/// The settings of the sources as a map from name to flag; of two entries
/// for one name the later one counts.
pub open spec fn settings(entries: Seq<(String, bool)>) -> Map<Seq<char>, bool>
    decreases entries.len(),
{
    if entries.len() == 0 {
        Map::empty()
    } else {
        settings(entries.drop_last()).insert(entries.last().0@, entries.last().1)
    }
}

/// No two entries speak of the same source.
pub open spec fn keys_unique(entries: Seq<(String, bool)>) -> bool {
    forall|i: int, j: int|
        0 <= i < entries.len() && 0 <= j < entries.len() && i != j ==> (#[trigger] entries[i]).0@
            != (#[trigger] entries[j]).0@
}

/// The names of the entries whose flag is set, in the order of the entries.
pub open spec fn enabled_names(entries: Seq<(String, bool)>) -> Seq<Seq<char>>
    decreases entries.len(),
{
    if entries.len() == 0 {
        Seq::empty()
    } else if entries.last().1 {
        enabled_names(entries.drop_last()).push(entries.last().0@)
    } else {
        enabled_names(entries.drop_last())
    }
}

/// The commands that are enabled, in their order.
pub open spec fn enabled_commands(commands: Seq<CustomCommand>) -> Seq<CustomCommand>
    decreases commands.len(),
{
    if commands.len() == 0 {
        Seq::empty()
    } else if commands.last().enabled {
        enabled_commands(commands.drop_last()).push(commands.last())
    } else {
        enabled_commands(commands.drop_last())
    }
}

/// A source has a setting exactly when some entry speaks of it.
pub proof fn settings_domain(entries: Seq<(String, bool)>, name: Seq<char>)
    ensures
        settings(entries).contains_key(name) <==> exists|i: int|
            0 <= i < entries.len() && (#[trigger] entries[i]).0@ == name,
    decreases entries.len(),
{
    if entries.len() > 0 {
        let front = entries.drop_last();
        settings_domain(front, name);
        if exists|i: int| 0 <= i < front.len() && (#[trigger] front[i]).0@ == name {
            let i = choose|i: int| 0 <= i < front.len() && (#[trigger] front[i]).0@ == name;
            assert(entries[i].0@ == name);
        }
        if exists|i: int| 0 <= i < entries.len() && (#[trigger] entries[i]).0@ == name {
            let i = choose|i: int| 0 <= i < entries.len() && (#[trigger] entries[i]).0@ == name;
            if i < front.len() {
                assert(front[i].0@ == name);
            } else {
                assert(entries.last().0@ == name);
            }
        }
    }
}

/// Where no two entries speak of the same source, the setting of a source is
/// the flag of its entry.
pub proof fn settings_value(entries: Seq<(String, bool)>, at: int)
    requires
        keys_unique(entries),
        0 <= at < entries.len(),
    ensures
        settings(entries).contains_key(entries[at].0@),
        settings(entries)[entries[at].0@] == entries[at].1,
    decreases entries.len(),
{
    let front = entries.drop_last();
    if at < entries.len() - 1 {
        assert(keys_unique(front)) by {
            assert forall|i: int, j: int|
                0 <= i < front.len() && 0 <= j < front.len() && i != j implies (
            #[trigger] front[i]).0@ != (#[trigger] front[j]).0@ by {
                assert(entries[i].0@ != entries[j].0@);
            }
        }
        settings_value(front, at);
        assert(front[at] == entries[at]);
        assert(entries[entries.len() - 1].0@ != entries[at].0@);
    }
}

/// Where no two entries speak of the same source, changing the flag of one
/// entry sets the setting of its source and no other.
pub proof fn settings_update(entries: Seq<(String, bool)>, at: int, entry: (String, bool))
    requires
        keys_unique(entries),
        0 <= at < entries.len(),
        entry.0@ == entries[at].0@,
    ensures
        keys_unique(entries.update(at, entry)),
        settings(entries.update(at, entry)) == settings(entries).insert(entry.0@, entry.1),
    decreases entries.len(),
{
    let changed = entries.update(at, entry);
    assert(keys_unique(changed)) by {
        assert forall|i: int, j: int|
            0 <= i < changed.len() && 0 <= j < changed.len() && i != j implies (
        #[trigger] changed[i]).0@ != (#[trigger] changed[j]).0@ by {
            assert(changed[i].0@ == entries[i].0@);
            assert(changed[j].0@ == entries[j].0@);
        }
    }
    let front = entries.drop_last();
    if at == entries.len() - 1 {
        assert(changed.drop_last() =~= front);
        assert(settings(changed) =~= settings(entries).insert(entry.0@, entry.1));
    } else {
        assert(keys_unique(front)) by {
            assert forall|i: int, j: int|
                0 <= i < front.len() && 0 <= j < front.len() && i != j implies (
            #[trigger] front[i]).0@ != (#[trigger] front[j]).0@ by {
                assert(entries[i].0@ != entries[j].0@);
            }
        }
        assert(front[at] == entries[at]);
        settings_update(front, at, entry);
        assert(changed.drop_last() =~= front.update(at, entry));
        assert(changed.last() == entries.last());
        assert(entries[entries.len() - 1].0@ != entries[at].0@);
        assert(settings(changed) =~= settings(entries).insert(entry.0@, entry.1));
    }
}

/// Where no two entries speak of the same source, the names that are listed
/// as enabled are exactly the sources whose setting is set.
pub proof fn enabled_names_follow_settings(entries: Seq<(String, bool)>, name: Seq<char>)
    requires
        keys_unique(entries),
    ensures
        enabled_names(entries).contains(name) <==> settings(entries).contains_key(name)
            && settings(entries)[name],
    decreases entries.len(),
{
    if entries.len() > 0 {
        let front = entries.drop_last();
        let last = entries.last();
        assert(keys_unique(front)) by {
            assert forall|i: int, j: int|
                0 <= i < front.len() && 0 <= j < front.len() && i != j implies (
            #[trigger] front[i]).0@ != (#[trigger] front[j]).0@ by {
                assert(entries[i].0@ != entries[j].0@);
            }
        }
        enabled_names_follow_settings(front, name);
        settings_domain(front, name);
        vstd::seq_lib::lemma_seq_contains_after_push(enabled_names(front), last.0@, name);
        if last.0@ == name {
            if settings(front).contains_key(name) {
                let i = choose|i: int| 0 <= i < front.len() && (#[trigger] front[i]).0@ == name;
                assert(entries[i].0@ == entries[entries.len() - 1].0@);
            }
        }
    } else {
        assert(!enabled_names(entries).contains(name));
    }
}

/// Trusted: `dirs::data_dir`. The answer depends on the user's environment,
/// so nothing is claimed of it.
#[verifier::external_body]
fn data_dir() -> (dir: Option<PathBuf>) {
    dirs::data_dir()
}

/// Trusted: `PathBuf::from` on a string. Nothing is claimed of the path.
#[verifier::external_body]
fn path_from(text: &str) -> (path: PathBuf) {
    PathBuf::from(text)
}

/// Trusted: `Path::join`. Nothing is claimed of the path.
#[verifier::external_body]
fn path_join(base: &PathBuf, name: &str) -> (path: PathBuf) {
    base.join(name)
}

impl Default for Config {
    /// The settings of a first start: updates are applied, no source has a
    /// setting, there is no custom command, and logs are kept in the
    /// application's directory under the user's data directory, or under
    /// `/tmp` where the user has none.
    fn default() -> (config: Self)
        ensures
            !config.dry_run,
            config.save_logs,
            config.enabled_sources@.len() == 0,
            config.custom_commands@.len() == 0,
            config.wf(),
    {
        Config::with_data_dir(data_dir())
    }
}

impl Config {
    /// No two entries speak of the same source.
    pub open spec fn wf(&self) -> bool {
        keys_unique(self.enabled_sources@)
    }

    /// Whether no two entries speak of the same source.
    pub fn is_well_formed(&self) -> (ok: bool)
        ensures
            ok == self.wf(),
    {
        let mut i: usize = 0;
        while i < self.enabled_sources.len()
            invariant
                i <= self.enabled_sources@.len(),
                forall|a: int, b: int|
                    0 <= a < i && a < b < self.enabled_sources@.len() ==> (
                    #[trigger] self.enabled_sources@[a]).0@ != (#[trigger] self.enabled_sources@[b]).0@,
            decreases self.enabled_sources@.len() - i,
        {
            let mut j: usize = i + 1;
            while j < self.enabled_sources.len()
                invariant
                    i < j <= self.enabled_sources@.len(),
                    forall|b: int|
                        i < b < j ==> self.enabled_sources@[i as int].0@ != (
                        #[trigger] self.enabled_sources@[b]).0@,
                decreases self.enabled_sources@.len() - j,
            {
                if str_eq(self.enabled_sources[i].0.as_str(), self.enabled_sources[j].0.as_str()) {
                    assert(self.enabled_sources@[i as int].0@ == self.enabled_sources@[j as int].0@);
                    return false;
                }
                j += 1;
            }
            i += 1;
        }
        assert(keys_unique(self.enabled_sources@)) by {
            assert forall|a: int, b: int|
                0 <= a < self.enabled_sources@.len() && 0 <= b < self.enabled_sources@.len() && a
                    != b implies (#[trigger] self.enabled_sources@[a]).0@ != (
            #[trigger] self.enabled_sources@[b]).0@ by {
                if a < b {
                } else {
                    assert(self.enabled_sources@[b].0@ != self.enabled_sources@[a].0@);
                }
            }
        }
        true
    }

    /// The settings of the sources as a map from name to flag.
    pub open spec fn source_map(&self) -> Map<Seq<char>, bool> {
        settings(self.enabled_sources@)
    }

    /// The settings of a first start, with logs kept in the application's
    /// directory under `base`, or under `/tmp` where there is no `base`.
    pub fn with_data_dir(base: Option<PathBuf>) -> (config: Self)
        ensures
            !config.dry_run,
            config.save_logs,
            config.enabled_sources@.len() == 0,
            config.custom_commands@.len() == 0,
            config.wf(),
    {
        let base = match base {
            Some(dir) => dir,
            None => path_from("/tmp"),
        };
        Config {
            dry_run: false,
            enabled_sources: Vec::new(),
            custom_commands: Vec::new(),
            save_logs: true,
            logs_dir: path_join(&base, "uptodate"),
        }
    }

    /// The names of the sources that are enabled, in the order of their
    /// entries.
    pub fn get_enabled_sources(&self) -> (names: Vec<String>)
        ensures
            crate::text::texts(names@) == enabled_names(self.enabled_sources@),
    {
        let mut names: Vec<String> = Vec::new();
        let mut i: usize = 0;
        while i < self.enabled_sources.len()
            invariant
                i <= self.enabled_sources@.len(),
                crate::text::texts(names@) == enabled_names(self.enabled_sources@.take(i as int)),
            decreases self.enabled_sources@.len() - i,
        {
            proof {
                assert(self.enabled_sources@.take(i + 1).drop_last() =~= self.enabled_sources@.take(
                    i as int,
                ));
            }
            let ghost before = crate::text::texts(names@);
            if self.enabled_sources[i].1 {
                names.push(self.enabled_sources[i].0.clone());
                assert(crate::text::texts(names@) =~= before.push(self.enabled_sources@[i as int].0@));
            }
            i += 1;
        }
        proof {
            assert(self.enabled_sources@.take(i as int) =~= self.enabled_sources@);
        }
        names
    }

    /// Where the first entry of a source stands, if it has one.
    pub fn find_source(&self, source: &str) -> (found: Option<usize>)
        ensures
            match found {
                Some(k) => {
                    &&& k < self.enabled_sources@.len()
                    &&& self.enabled_sources@[k as int].0@ == source@
                    &&& forall|j: int|
                        0 <= j < k ==> (#[trigger] self.enabled_sources@[j]).0@ != source@
                },
                None => forall|j: int|
                    0 <= j < self.enabled_sources@.len() ==> (#[trigger] self.enabled_sources@[j]).0@
                        != source@,
            },
    {
        let mut i: usize = 0;
        while i < self.enabled_sources.len()
            invariant
                i <= self.enabled_sources@.len(),
                forall|j: int| 0 <= j < i ==> (#[trigger] self.enabled_sources@[j]).0@ != source@,
            decreases self.enabled_sources@.len() - i,
        {
            if str_eq(self.enabled_sources[i].0.as_str(), source) {
                return Some(i);
            }
            i += 1;
        }
        None
    }

    /// Enables or disables a source. A name that does not pass
    /// [`validate_source_name`] is refused and nothing changes; otherwise the
    /// source, under the name as given, has the new setting and every other
    /// source keeps its own.
    pub fn set_source_enabled(&mut self, source: &str, enabled: bool) -> (done: Result<
        (),
        ConfigError,
    >)
        requires
            old(self).wf(),
        ensures
            final(self).wf(),
            final(self).dry_run == old(self).dry_run,
            final(self).save_logs == old(self).save_logs,
            final(self).custom_commands == old(self).custom_commands,
            final(self).logs_dir == old(self).logs_dir,
            match done {
                Ok(_) => {
                    &&& source_name_fault(trimmed(source@)) is None
                    &&& final(self).source_map() == old(self).source_map().insert(source@, enabled)
                },
                Err(e) => {
                    &&& source_name_fault(trimmed(source@)) == Some(e@)
                    &&& final(self).enabled_sources == old(self).enabled_sources
                },
            },
    {
        match validate_source_name(source) {
            Ok(_) => {},
            Err(e) => {
                return Err(e);
            },
        }
        match self.find_source(source) {
            Some(k) => {
                let entry = (source.to_owned(), enabled);
                proof {
                    settings_update(self.enabled_sources@, k as int, entry);
                }
                self.enabled_sources.set(k, entry);
            },
            None => {
                let entry = (source.to_owned(), enabled);
                self.enabled_sources.push(entry);
                proof {
                    assert(self.enabled_sources@.drop_last() =~= old(self).enabled_sources@);
                }
            },
        }
        Ok(())
    }

    /// Whether a source is enabled; a source without a setting is.
    pub fn is_source_enabled(&self, source: &str) -> (enabled: bool)
        requires
            self.wf(),
        ensures
            enabled == if self.source_map().contains_key(source@) {
                self.source_map()[source@]
            } else {
                true
            },
    {
        proof {
            settings_domain(self.enabled_sources@, source@);
        }
        match self.find_source(source) {
            Some(k) => {
                proof {
                    settings_value(self.enabled_sources@, k as int);
                }
                self.enabled_sources[k].1
            },
            None => true,
        }
    }

    /// Adds a custom command, enabled, at the end of the list. A command that
    /// does not pass [`validate_custom_command`] is refused and nothing
    /// changes.
    pub fn add_custom_command(&mut self, name: String, command: String) -> (done: Result<
        (),
        ConfigError,
    >)
        ensures
            final(self).dry_run == old(self).dry_run,
            final(self).save_logs == old(self).save_logs,
            final(self).enabled_sources == old(self).enabled_sources,
            final(self).logs_dir == old(self).logs_dir,
            match done {
                Ok(_) => {
                    &&& custom_command_fault(
                        trimmed(name@),
                        trimmed(command@),
                        unicode_lowercase(trimmed(command@)),
                    ) is None
                    &&& final(self).custom_commands@ == old(self).custom_commands@.push(
                        CustomCommand { name, command, enabled: true },
                    )
                },
                Err(e) => {
                    &&& custom_command_fault(
                        trimmed(name@),
                        trimmed(command@),
                        unicode_lowercase(trimmed(command@)),
                    ) == Some(e@)
                    &&& final(self).custom_commands == old(self).custom_commands
                },
            },
    {
        match validate_custom_command(name.as_str(), command.as_str()) {
            Ok(_) => {},
            Err(e) => {
                return Err(e);
            },
        }
        self.custom_commands.push(CustomCommand { name, command, enabled: true });
        Ok(())
    }

    /// The custom commands that are enabled, in their order.
    pub fn get_enabled_custom_commands(&self) -> (commands: Vec<CustomCommand>)
        ensures
            commands@ == enabled_commands(self.custom_commands@),
    {
        let mut commands: Vec<CustomCommand> = Vec::new();
        let mut i: usize = 0;
        while i < self.custom_commands.len()
            invariant
                i <= self.custom_commands@.len(),
                commands@ == enabled_commands(self.custom_commands@.take(i as int)),
            decreases self.custom_commands@.len() - i,
        {
            proof {
                assert(self.custom_commands@.take(i + 1).drop_last() =~= self.custom_commands@.take(
                    i as int,
                ));
            }
            let entry = &self.custom_commands[i];
            if entry.enabled {
                commands.push(
                    CustomCommand {
                        name: entry.name.clone(),
                        command: entry.command.clone(),
                        enabled: entry.enabled,
                    },
                );
            }
            i += 1;
        }
        proof {
            assert(self.custom_commands@.take(i as int) =~= self.custom_commands@);
        }
        commands
    }
}

} // verus!
