//! The account, signing out, starting with the system, graphics, spelling,
//! the timeline, and the log files.

use vstd::prelude::*;

use crate::screens::settings::Effect;
use crate::sizes;
use crate::spellcheck_config::SpellcheckConfig;
use crate::text;

verus! {

/// What the timeline shows.
#[derive(Debug, Clone, Copy, PartialEq, Eq, Structural)]
pub struct ChatConfig {
    pub show_membership_events: bool,
}

/// How the window is drawn; read when the application starts.
#[derive(Debug, Clone, Copy, PartialEq, Eq, Structural)]
pub struct WindowConfig {
    pub prefer_integrated_gpu: bool,
    pub prefer_dx12_backend: bool,
}

/// How much is logged: a place in the list of levels. Read when the
/// application starts.
#[derive(Debug, Clone, Copy, PartialEq, Eq, Structural)]
pub struct LogConfig {
    pub level: u8,
}

/// How copying the log went.
#[derive(Debug)]
pub enum LogCopyStatus {
    Idle,
    Copying,
    Copied { bytes: usize },
    Failed(String),
}

/// How deleting the logs went.
#[derive(Debug)]
pub enum LogClearStatus {
    Idle,
    Clearing,
    Cleared(LogsCleared),
    Failed(String),
}

/// What one clear did. The file that is being written to is emptied rather
/// than removed, and reported apart from the others.
#[derive(Debug, Clone, Copy, PartialEq, Eq, Structural)]
pub struct LogsCleared {
    pub files: usize,
    pub emptied_active: bool,
    pub bytes: u64,
}

impl Default for LogsCleared {
    /// Nothing was cleared.
    fn default() -> (r: Self)
        ensures
            r == (LogsCleared { files: 0, emptied_active: false, bytes: 0 }),
    {
        LogsCleared { files: 0, emptied_active: false, bytes: 0 }
    }
}

/// The tab's state.
#[derive(Debug)]
pub struct State {
    pub confirm_logout: bool,
    /// Deleting the logs cannot be undone, so it asks first.
    pub confirm_log_clear: bool,
    pub autostart_enabled: bool,
    pub log_copy_status: LogCopyStatus,
    pub log_clear_status: LogClearStatus,
}

impl State {
    /// The tab as it opens, with what the system says of autostart.
    pub fn new(autostart_enabled: bool) -> (r: Self)
        ensures
            r == (State {
                confirm_logout: false,
                confirm_log_clear: false,
                autostart_enabled,
                log_copy_status: LogCopyStatus::Idle,
                log_clear_status: LogClearStatus::Idle,
            }),
    {
        State {
            confirm_logout: false,
            confirm_log_clear: false,
            autostart_enabled,
            log_copy_status: LogCopyStatus::Idle,
            log_clear_status: LogClearStatus::Idle,
        }
    }
}

/// The account, as far as it is known.
pub struct AccountInfo<'a> {
    pub user_id: Option<&'a str>,
    pub homeserver: Option<String>,
    pub device_id: Option<String>,
}

/// What the tab reacts to.
#[derive(Debug)]
pub enum Message {
    RequestLogout,
    ConfirmLogout,
    CancelLogout,
    AutostartToggled(bool),
    /// The system was asked to change autostart, and did or did not.
    AutostartChanged { enabled: bool, done: bool },
    PreferIntegratedGpuToggled(bool),
    PreferDx12BackendToggled(bool),
    WindowConfigSaved,
    SpellcheckToggled(bool),
    AutocorrectToggled(bool),
    ShowMembershipEventsToggled(bool),
    SpellcheckSaved,
    ChatConfigSaved,
    CopyLogRequested,
    LogCopyFinished(Result<usize, String>),
    LogLevelSelected(u8),
    LogConfigSaved,
    ClearLogsRequested,
    ClearLogsConfirmed,
    ClearLogsCancelled,
    ClearLogsFinished(Result<LogsCleared, String>),
}

/// What is to be done outside.
#[derive(Debug, Clone, Copy, PartialEq, Eq, Structural)]
pub enum Task {
    Nothing,
    SetAutostart(bool),
    SaveWindow,
    SaveSpellcheck,
    SaveChat,
    SaveLog,
    CopyLog,
    ClearLogs,
}

/// The settings that the tab edits.
#[derive(Debug, Clone, Copy, PartialEq, Eq, Structural)]
pub struct Configs {
    pub spellcheck: SpellcheckConfig,
    pub chat: ChatConfig,
    pub window: WindowConfig,
    pub log: LogConfig,
}

/// The settings after a message.
pub open spec fn configs_after(c: Configs, message: Message) -> Configs {
    match message {
        Message::PreferIntegratedGpuToggled(on) => Configs {
            window: WindowConfig { prefer_integrated_gpu: on, ..c.window },
            ..c
        },
        Message::PreferDx12BackendToggled(on) => Configs {
            window: WindowConfig { prefer_dx12_backend: on, ..c.window },
            ..c
        },
        Message::SpellcheckToggled(on) => Configs {
            spellcheck: SpellcheckConfig { enabled: on, ..c.spellcheck },
            ..c
        },
        Message::AutocorrectToggled(on) => Configs {
            spellcheck: SpellcheckConfig { autocorrect: on, ..c.spellcheck },
            ..c
        },
        Message::ShowMembershipEventsToggled(on) => Configs {
            chat: ChatConfig { show_membership_events: on },
            ..c
        },
        Message::LogLevelSelected(level) => Configs { log: LogConfig { level }, ..c },
        _ => c,
    }
}

/// The tab's state after a message.
pub open spec fn state_after(s: State, message: Message) -> State {
    match message {
        Message::RequestLogout => State { confirm_logout: true, ..s },
        Message::ConfirmLogout => State { confirm_logout: false, ..s },
        Message::CancelLogout => State { confirm_logout: false, ..s },
        Message::AutostartChanged { enabled, done } => if done {
            State { autostart_enabled: enabled, ..s }
        } else {
            s
        },
        Message::CopyLogRequested => State { log_copy_status: LogCopyStatus::Copying, ..s },
        Message::LogCopyFinished(Ok(bytes)) => State {
            log_copy_status: LogCopyStatus::Copied { bytes },
            ..s
        },
        Message::LogCopyFinished(Err(error)) => State {
            log_copy_status: LogCopyStatus::Failed(error),
            ..s
        },
        Message::ClearLogsRequested => State { confirm_log_clear: true, ..s },
        Message::ClearLogsCancelled => State { confirm_log_clear: false, ..s },
        Message::ClearLogsConfirmed => State {
            confirm_log_clear: false,
            log_clear_status: LogClearStatus::Clearing,
            log_copy_status: LogCopyStatus::Idle,
            ..s
        },
        Message::ClearLogsFinished(Ok(cleared)) => State {
            log_clear_status: LogClearStatus::Cleared(cleared),
            ..s
        },
        Message::ClearLogsFinished(Err(error)) => State {
            log_clear_status: LogClearStatus::Failed(error),
            ..s
        },
        _ => s,
    }
}

/// What a message asks to be done outside.
pub open spec fn task_of(message: Message) -> Task {
    match message {
        Message::AutostartToggled(on) => Task::SetAutostart(on),
        Message::PreferIntegratedGpuToggled(_) => Task::SaveWindow,
        Message::PreferDx12BackendToggled(_) => Task::SaveWindow,
        Message::SpellcheckToggled(_) => Task::SaveSpellcheck,
        Message::AutocorrectToggled(_) => Task::SaveSpellcheck,
        Message::ShowMembershipEventsToggled(_) => Task::SaveChat,
        Message::CopyLogRequested => Task::CopyLog,
        Message::LogLevelSelected(_) => Task::SaveLog,
        Message::ClearLogsConfirmed => Task::ClearLogs,
        _ => Task::Nothing,
    }
}

/// Reacts to a message. Signing out and deleting the logs happen only on the
/// second step; a copy that was reported before a clear is reported no longer.
pub fn update(state: &mut State, configs: &mut Configs, message: Message) -> (r: (Task, Effect))
    ensures
        *final(state) == state_after(*old(state), message),
        *final(configs) == configs_after(*old(configs), message),
        r.0 == task_of(message),
        r.1 == if message is ConfirmLogout {
            Effect::Logout
        } else {
            Effect::Nothing
        },
{
    match message {
        Message::RequestLogout => {
            state.confirm_logout = true;
        },
        Message::ConfirmLogout => {
            state.confirm_logout = false;
            return (Task::Nothing, Effect::Logout);
        },
        Message::CancelLogout => {
            state.confirm_logout = false;
        },
        Message::AutostartToggled(enabled) => {
            return (Task::SetAutostart(enabled), Effect::Nothing);
        },
        Message::AutostartChanged { enabled, done } => {
            if done {
                state.autostart_enabled = enabled;
            }
        },
        Message::PreferIntegratedGpuToggled(on) => {
            configs.window.prefer_integrated_gpu = on;
            return (Task::SaveWindow, Effect::Nothing);
        },
        Message::PreferDx12BackendToggled(on) => {
            configs.window.prefer_dx12_backend = on;
            return (Task::SaveWindow, Effect::Nothing);
        },
        Message::WindowConfigSaved => {},
        Message::SpellcheckToggled(on) => {
            configs.spellcheck.enabled = on;
            return (Task::SaveSpellcheck, Effect::Nothing);
        },
        Message::AutocorrectToggled(on) => {
            configs.spellcheck.autocorrect = on;
            return (Task::SaveSpellcheck, Effect::Nothing);
        },
        Message::ShowMembershipEventsToggled(on) => {
            configs.chat.show_membership_events = on;
            return (Task::SaveChat, Effect::Nothing);
        },
        Message::SpellcheckSaved => {},
        Message::ChatConfigSaved => {},
        Message::CopyLogRequested => {
            state.log_copy_status = LogCopyStatus::Copying;
            return (Task::CopyLog, Effect::Nothing);
        },
        Message::LogCopyFinished(result) => {
            state.log_copy_status =
            match result {
                Ok(bytes) => LogCopyStatus::Copied { bytes },
                Err(error) => LogCopyStatus::Failed(error),
            };
        },
        Message::LogLevelSelected(level) => {
            configs.log.level = level;
            return (Task::SaveLog, Effect::Nothing);
        },
        Message::LogConfigSaved => {},
        Message::ClearLogsRequested => {
            state.confirm_log_clear = true;
        },
        Message::ClearLogsCancelled => {
            state.confirm_log_clear = false;
        },
        Message::ClearLogsConfirmed => {
            state.confirm_log_clear = false;
            state.log_clear_status = LogClearStatus::Clearing;
            state.log_copy_status = LogCopyStatus::Idle;
            return (Task::ClearLogs, Effect::Nothing);
        },
        Message::ClearLogsFinished(result) => {
            state.log_clear_status =
            match result {
                Ok(cleared) => LogClearStatus::Cleared(cleared),
                Err(error) => LogClearStatus::Failed(error),
            };
        },
    }
    (Task::Nothing, Effect::Nothing)
}

// ---------------------------------------------------------------------------
// Clearing the log files.
// ---------------------------------------------------------------------------
/// What the names of the log files begin with.
pub const LOG_FILE_PREFIX: &'static str = "thornychat.log";

/// An entry of the log directory.
#[derive(Debug)]
pub struct LogEntry {
    pub path: String,
    /// The file's name, where it is text.
    pub name: Option<String>,
    pub is_file: bool,
    pub size: u64,
}

/// What is done with an entry.
#[derive(Debug, Clone, Copy, PartialEq, Eq, Structural)]
pub enum ClearStep {
    /// It is not one of the log files.
    Skip,
    /// It is being written to: it keeps its name and loses its contents.
    Empty,
    Remove,
}

/// What is done with an entry of the log directory.
pub open spec fn step_of(entry: LogEntry, active: Option<String>) -> ClearStep {
    if !(entry.is_file && (entry.name matches Some(n) && text::starts(n@, LOG_FILE_PREFIX@))) {
        ClearStep::Skip
    } else if text::opt_view(active) == Some(entry.path@) {
        ClearStep::Empty
    } else {
        ClearStep::Remove
    }
}

/// What is done with an entry of the log directory: only the log files are
/// touched, and the one that is being written to is emptied, not removed.
pub fn clear_step(entry: &LogEntry, active: &Option<String>) -> (r: ClearStep)
    ensures
        r == step_of(*entry, *active),
{
    let ours = match &entry.name {
        Some(name) => text::starts_with(name.as_str(), LOG_FILE_PREFIX),
        None => false,
    };
    if !entry.is_file || !ours {
        return ClearStep::Skip;
    }
    let is_active = match active {
        Some(path) => text::str_eq(path.as_str(), entry.path.as_str()),
        None => false,
    };
    if is_active {
        ClearStep::Empty
    } else {
        ClearStep::Remove
    }
}

/// A step that was taken: on what, and what came of it.
#[derive(Debug)]
pub struct ClearOutcome {
    pub name: String,
    pub step: ClearStep,
    pub size: u64,
    /// Why it failed.
    pub error: Option<String>,
}

/// Whether an outcome counts: a step was taken, and it worked.
pub open spec fn counts(o: ClearOutcome) -> bool {
    !(o.step is Skip) && o.error is None
}

/// How many of the first `n` outcomes removed a file.
pub open spec fn removed(os: Seq<ClearOutcome>, n: int) -> nat
    decreases n,
{
    if n <= 0 {
        0
    } else {
        removed(os, n - 1) + if counts(os[n - 1]) && os[n - 1].step is Remove {
            1nat
        } else {
            0nat
        }
    }
}

/// What the first `n` outcomes freed.
pub open spec fn freed(os: Seq<ClearOutcome>, n: int) -> nat
    decreases n,
{
    if n <= 0 {
        0
    } else {
        freed(os, n - 1) + if counts(os[n - 1]) {
            os[n - 1].size as nat
        } else {
            0nat
        }
    }
}

/// Whether one of the first `n` outcomes emptied the file in use.
pub open spec fn emptied(os: Seq<ClearOutcome>, n: int) -> bool {
    exists|i: int| 0 <= i < n && counts(#[trigger] os[i]) && os[i].step is Empty
}

/// What failed among the first `n` outcomes.
pub open spec fn failures(os: Seq<ClearOutcome>, n: int) -> Seq<Seq<char>>
    decreases n,
{
    if n <= 0 {
        Seq::empty()
    } else {
        let before = failures(os, n - 1);
        match os[n - 1].error {
            Some(e) => if os[n - 1].step is Skip {
                before
            } else {
                before.push(os[n - 1].name@ + ": "@ + e@)
            },
            None => before,
        }
    }
}

/// Some texts with a semicolon between them.
pub open spec fn with_semicolons(parts: Seq<Seq<char>>) -> Seq<char>
    decreases parts.len(),
{
    if parts.len() == 0 {
        Seq::empty()
    } else if parts.len() == 1 {
        parts[0]
    } else {
        with_semicolons(parts.drop_last()) + "; "@ + parts.last()
    }
}

/// Outcomes only add up.
proof fn lemma_freed(os: Seq<ClearOutcome>, m: int, n: int)
    requires
        0 <= m <= n,
    ensures
        freed(os, m) <= freed(os, n),
    decreases n - m,
{
    if m < n {
        lemma_freed(os, m, n - 1);
    }
}

/// What a clear did, from the outcomes of its steps: where any failed, all
/// the failures.
pub fn clear_log_files(outcomes: &Vec<ClearOutcome>) -> (r: Result<LogsCleared, String>)
    requires
        freed(outcomes@, outcomes@.len() as int) <= u64::MAX,
    ensures
        match r {
            Ok(c) => {
                &&& failures(outcomes@, outcomes@.len() as int).len() == 0
                &&& c.files == removed(outcomes@, outcomes@.len() as int)
                &&& c.emptied_active == emptied(outcomes@, outcomes@.len() as int)
                &&& c.bytes == freed(outcomes@, outcomes@.len() as int)
            },
            Err(e) => {
                &&& failures(outcomes@, outcomes@.len() as int).len() > 0
                &&& e@ == with_semicolons(failures(outcomes@, outcomes@.len() as int))
            },
        },
{
    let n: usize = outcomes.len();
    let mut cleared = LogsCleared::default();
    let mut failed: usize = 0;
    let mut errors = String::new();
    let mut i: usize = 0;
    while i < n
        invariant
            n == outcomes@.len(),
            i <= n,
            freed(outcomes@, n as int) <= u64::MAX,
            cleared.files == removed(outcomes@, i as int),
            cleared.files <= i,
            cleared.bytes == freed(outcomes@, i as int),
            cleared.emptied_active == emptied(outcomes@, i as int),
            failed == failures(outcomes@, i as int).len(),
            failed <= i,
            errors@ == with_semicolons(failures(outcomes@, i as int)),
        decreases n - i,
    {
        let o = &outcomes[i];
        let ghost before = failures(outcomes@, i as int);
        let ghost was_empty = emptied(outcomes@, i as int);
        proof {
            lemma_freed(outcomes@, i + 1, n as int);
            assert(emptied(outcomes@, i + 1) == (was_empty || (counts(outcomes@[i as int])
                && outcomes@[i as int].step is Empty))) by {
                if emptied(outcomes@, i + 1) {
                    let k = choose|k: int|
                        0 <= k < i + 1 && counts(#[trigger] outcomes@[k])
                            && outcomes@[k].step is Empty;
                    if k < i {
                        assert(was_empty);
                    }
                }
                if was_empty {
                    let k = choose|k: int|
                        0 <= k < i && counts(#[trigger] outcomes@[k]) && outcomes@[k].step is Empty;
                    assert(counts(outcomes@[k]));
                }
            }
        }
        match o.step {
            ClearStep::Skip => {},
            _ => match &o.error {
                Some(error) => {
                    let line = text::join3(o.name.as_str(), ": ", error.as_str());
                    if failed > 0 {
                        errors.append("; ");
                    }
                    errors.append(line.as_str());
                    failed = failed + 1;
                    proof {
                        let after = failures(outcomes@, i + 1);
                        assert(after == before.push(line@));
                        assert(after.drop_last() =~= before);
                        assert(after.last() == line@);
                        if before.len() == 0 {
                            assert(with_semicolons(before).len() == 0);
                            assert(errors@ =~= line@);
                        } else {
                            assert(errors@ =~= with_semicolons(before) + "; "@ + line@);
                        }
                    }
                },
                None => {
                    cleared.bytes = cleared.bytes + o.size;
                    match o.step {
                        ClearStep::Empty => {
                            cleared.emptied_active = true;
                        },
                        _ => {
                            cleared.files = cleared.files + 1;
                        },
                    }
                },
            },
        }
        i = i + 1;
    }
    if failed == 0 {
        Ok(cleared)
    } else {
        Err(errors)
    }
}

// ---------------------------------------------------------------------------
// What the tab says.
// ---------------------------------------------------------------------------
/// How many files a clear deleted, in words.
pub open spec fn files_text(n: nat) -> Seq<char> {
    if n == 0 {
        "No stored files to delete"@
    } else if n == 1 {
        "Deleted 1 log file"@
    } else {
        "Deleted "@ + text::decimal(n) + " log files"@
    }
}

/// What a clear did, in words.
pub open spec fn clear_text(c: LogsCleared) -> Seq<char> {
    if c.files == 0 && !c.emptied_active {
        "Nothing to delete — there are no log files."@
    } else {
        files_text(c.files as nat) + (if c.emptied_active {
            ", emptied today's"@
        } else {
            ""@
        }) + " — "@ + sizes::bytes_label(c.bytes as nat) + " freed."@
    }
}

/// What a clear did, in words. The file that is still being written to shows
/// apart from those that are gone: that it is still there is expected.
pub fn describe_clear(cleared: LogsCleared) -> (r: String)
    ensures
        r@ == clear_text(cleared),
{
    if cleared.files == 0 && !cleared.emptied_active {
        return "Nothing to delete — there are no log files.".to_owned();
    }
    let mut r = if cleared.files == 0 {
        "No stored files to delete".to_owned()
    } else if cleared.files == 1 {
        "Deleted 1 log file".to_owned()
    } else {
        let count = text::decimal_string(cleared.files as u64);
        text::join3("Deleted ", count.as_str(), " log files")
    };
    r.append(
        if cleared.emptied_active {
            ", emptied today's"
        } else {
            ""
        },
    );
    r.append(" — ");
    let size = sizes::format_bytes(cleared.bytes);
    r.append(size.as_str());
    r.append(" freed.");
    assert(r@ =~= clear_text(cleared));
    r
}

/// The line under the copy button.
pub open spec fn copy_text(s: LogCopyStatus) -> Seq<char> {
    match s {
        LogCopyStatus::Idle => ""@,
        LogCopyStatus::Copying => "Copying…"@,
        LogCopyStatus::Copied { bytes } => "Copied ("@ + text::decimal(bytes as nat)
            + " bytes) — paste it wherever you're sending it."@,
        LogCopyStatus::Failed(e) => "Couldn't copy the log: "@ + e@,
    }
}

/// The line under the copy button.
pub fn describe_copy(status: &LogCopyStatus) -> (r: String)
    ensures
        r@ == copy_text(*status),
{
    match status {
        LogCopyStatus::Idle => "".to_owned(),
        LogCopyStatus::Copying => "Copying…".to_owned(),
        LogCopyStatus::Copied { bytes } => {
            let n = text::decimal_string(*bytes as u64);
            text::join3(
                "Copied (",
                n.as_str(),
                " bytes) — paste it wherever you're sending it.",
            )
        },
        LogCopyStatus::Failed(error) => text::join2("Couldn't copy the log: ", error.as_str()),
    }
}

/// The line under the delete button.
pub open spec fn clear_status_text(s: LogClearStatus) -> Seq<char> {
    match s {
        LogClearStatus::Idle => ""@,
        LogClearStatus::Clearing => "Deleting…"@,
        LogClearStatus::Cleared(c) => clear_text(c),
        LogClearStatus::Failed(e) => "Couldn't delete the logs: "@ + e@,
    }
}

/// The line under the delete button.
pub fn describe_clear_status(status: &LogClearStatus) -> (r: String)
    ensures
        r@ == clear_status_text(*status),
{
    match status {
        LogClearStatus::Idle => "".to_owned(),
        LogClearStatus::Clearing => "Deleting…".to_owned(),
        LogClearStatus::Cleared(cleared) => describe_clear(*cleared),
        LogClearStatus::Failed(error) => text::join2("Couldn't delete the logs: ", error.as_str()),
    }
}

/// The question before signing out.
pub fn sign_out_question(account: &AccountInfo) -> (r: String)
    ensures
        r@ == "Sign out of "@ + (match account.user_id {
            Some(id) => id@,
            None => "this account"@,
        }) + "?"@,
{
    let who = match account.user_id {
        Some(id) => id,
        None => "this account",
    };
    text::join3("Sign out of ", who, "?")
}

/// What the account's rows show: the user, the homeserver and the device, a
/// dash for what is not known.
pub fn account_rows(account: &AccountInfo) -> (r: (String, String, String))
    ensures
        r.0@ == match account.user_id {
            Some(id) => id@,
            None => "-"@,
        },
        r.1@ == match account.homeserver {
            Some(s) => s@,
            None => "-"@,
        },
        r.2@ == match account.device_id {
            Some(s) => s@,
            None => "-"@,
        },
{
    let user = match account.user_id {
        Some(id) => id.to_owned(),
        None => "-".to_owned(),
    };
    let homeserver = match &account.homeserver {
        Some(s) => s.clone(),
        None => "-".to_owned(),
    };
    let device = match &account.device_id {
        Some(s) => s.clone(),
        None => "-".to_owned(),
    };
    (user, homeserver, device)
}

// ---------------------------------------------------------------------------
// Laws.
// ---------------------------------------------------------------------------
/// Nothing but the log files is ever touched: what is not a file, and what
/// does not carry the prefix, is left alone. And no file that is being
/// written to is removed.
pub proof fn law_foreign_files_are_left_alone(entry: LogEntry, active: Option<String>)
    ensures
        !entry.is_file ==> step_of(entry, active) is Skip,
        !(entry.name matches Some(n) && text::starts(n@, LOG_FILE_PREFIX@)) ==> step_of(
            entry,
            active,
        ) is Skip,
        text::opt_view(active) == Some(entry.path@) ==> !(step_of(entry, active) is Remove),
{
}

/// The logs are deleted only after the question was asked and answered: no
/// other message starts a clear, and the answer closes the question.
pub proof fn law_clearing_is_confirmed(s: State, message: Message)
    ensures
        task_of(message) == Task::ClearLogs ==> message is ClearLogsConfirmed,
        message is ClearLogsConfirmed ==> !state_after(s, message).confirm_log_clear,
{
}

/// The log that is being written to is emptied, every other log file is
/// removed.
pub proof fn law_log_files_are_cleared(entry: LogEntry, active: Option<String>, rest: Seq<char>)
    requires
        entry.is_file,
        entry.name matches Some(n) && n@ == LOG_FILE_PREFIX@ + rest,
    ensures
        active matches Some(p) ==> (step_of(entry, active) is Empty) == (p@ == entry.path@),
        active is None ==> step_of(entry, active) is Remove,
        active matches Some(p) ==> p@ != entry.path@ ==> step_of(entry, active) is Remove,
{
    let n = entry.name->0@;
    let p = LOG_FILE_PREFIX@;
    assert(n.subrange(0, p.len() as int) =~= p);
    assert(text::starts(n, p));
}

/// What copying and clearing report is what happened last; a clear that starts
/// takes back what was said of a copy.
pub proof fn law_what_the_log_section_says(s: State, message: Message)
    ensures
        message is CopyLogRequested ==> state_after(s, message).log_copy_status is Copying
            && task_of(message) == Task::CopyLog,
        message matches Message::LogCopyFinished(Ok(n)) ==> state_after(s, message).log_copy_status
            == (LogCopyStatus::Copied { bytes: n }),
        message matches Message::LogCopyFinished(Err(e)) ==> state_after(
            s,
            message,
        ).log_copy_status == LogCopyStatus::Failed(e),
        message is ClearLogsRequested ==> state_after(s, message).confirm_log_clear && task_of(
            message,
        ) == Task::Nothing,
        message is ClearLogsCancelled ==> !state_after(s, message).confirm_log_clear && task_of(
            message,
        ) == Task::Nothing,
        message is ClearLogsConfirmed ==> state_after(s, message).log_clear_status is Clearing
            && state_after(s, message).log_copy_status is Idle && task_of(message)
            == Task::ClearLogs,
        message matches Message::ClearLogsFinished(Ok(c)) ==> state_after(
            s,
            message,
        ).log_clear_status == LogClearStatus::Cleared(c),
        message matches Message::ClearLogsFinished(Err(e)) ==> state_after(
            s,
            message,
        ).log_clear_status == LogClearStatus::Failed(e),
{
}

/// What is freed and what failed adds up over the files.
pub proof fn law_a_clear_adds_up(os: Seq<ClearOutcome>, o: ClearOutcome)
    ensures
        ({
            let n = os.len() as int;
            let all = os.push(o);
            &&& freed(all, n + 1) == freed(os, n) + if o.error is None && !(o.step is Skip) {
                o.size as nat
            } else {
                0nat
            }
            &&& removed(all, n + 1) == removed(os, n) + if o.error is None && o.step is Remove {
                1nat
            } else {
                0nat
            }
            &&& failures(all, n + 1) == if o.error is Some && !(o.step is Skip) {
                failures(os, n).push(o.name@ + ": "@ + o.error->0@)
            } else {
                failures(os, n)
            }
        }),
{
    let n = os.len() as int;
    lemma_prefix(os, o, n);
}

proof fn lemma_prefix(os: Seq<ClearOutcome>, o: ClearOutcome, n: int)
    requires
        0 <= n <= os.len(),
    ensures
        freed(os.push(o), n) == freed(os, n),
        removed(os.push(o), n) == removed(os, n),
        failures(os.push(o), n) == failures(os, n),
    decreases n,
{
    if n > 0 {
        lemma_prefix(os, o, n - 1);
        assert(os.push(o)[n - 1] == os[n - 1]);
    }
}

/// What is said of a clear counts its files and names what was freed.
pub proof fn law_what_is_said_of_a_clear(c: LogsCleared)
    ensures
        c.files == 0 && !c.emptied_active ==> clear_text(c)
            == "Nothing to delete — there are no log files."@,
        c.files > 1 && !c.emptied_active ==> clear_text(c) == "Deleted "@ + text::decimal(
            c.files as nat,
        ) + " log files"@ + " — "@ + sizes::bytes_label(c.bytes as nat) + " freed."@,
        c.files == 1 && c.emptied_active ==> clear_text(c) == "Deleted 1 log file"@
            + ", emptied today's"@ + " — "@ + sizes::bytes_label(c.bytes as nat) + " freed."@,
{
    reveal_strlit("");
    let d = "Deleted "@ + text::decimal(c.files as nat) + " log files"@;
    assert(d + ""@ =~= d);
}

} // verus!
