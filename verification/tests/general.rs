//! The general settings: the log files, and what is said about them.

use thornychat_ui::screens::settings::general::{
    account_rows, clear_log_files, clear_step, describe_clear, describe_clear_status,
    describe_copy, sign_out_question, update, AccountInfo, ChatConfig, ClearOutcome, ClearStep,
    Configs, LogClearStatus, LogConfig, LogCopyStatus, LogEntry, LogsCleared, Message, State, Task,
    WindowConfig,
};
use thornychat_ui::screens::settings::Effect;
use thornychat_ui::sizes::{format_bytes, human_size};

/// A log directory in memory: names and sizes, and the directories in it.
struct LogsDir {
    files: Vec<(String, u64)>,
    directories: Vec<String>,
}

impl LogsDir {
    fn new() -> Self {
        LogsDir { files: vec![], directories: vec![] }
    }

    fn write(&mut self, name: &str, len: u64) -> String {
        self.files.push((name.to_string(), len));
        name.to_string()
    }

    fn entries(&self) -> Vec<LogEntry> {
        let files = self.files.iter().map(|(name, size)| LogEntry {
            path: name.clone(),
            name: Some(name.clone()),
            is_file: true,
            size: *size,
        });
        let directories = self.directories.iter().map(|name| LogEntry {
            path: name.clone(),
            name: Some(name.clone()),
            is_file: false,
            size: 0,
        });
        files.chain(directories).collect()
    }

    /// Takes every step, and reports what came of it.
    fn clear(&mut self, active: Option<&str>) -> Result<LogsCleared, String> {
        let active = active.map(|a| a.to_string());
        let mut outcomes = vec![];
        for entry in self.entries() {
            let step = clear_step(&entry, &active);
            match step {
                ClearStep::Skip => {},
                ClearStep::Empty => {
                    for file in self.files.iter_mut().filter(|f| f.0 == entry.path) {
                        file.1 = 0;
                    }
                },
                ClearStep::Remove => self.files.retain(|f| f.0 != entry.path),
            }
            outcomes.push(ClearOutcome {
                name: entry.name.unwrap(),
                step,
                size: entry.size,
                error: None,
            });
        }
        clear_log_files(&outcomes)
    }
}

/// The whole point of the button: rotated files go, and the space they took
/// is reported.
#[test]
fn rotated_files_are_deleted() {
    let mut dir = LogsDir::new();
    dir.write("thornychat.log.2026-09-01", 100);
    dir.write("thornychat.log.2026-09-02", 200);

    let cleared = dir.clear(None).expect("clear should succeed");

    assert_eq!(cleared.files, 2);
    assert!(!cleared.emptied_active);
    assert_eq!(cleared.bytes, 300);
    assert_eq!(dir.entries().len(), 0);
}

/// The file the appender still holds open must survive as an empty file:
/// unlinking it would send every line written before tomorrow's rollover to a
/// file with no name.
#[test]
fn the_active_file_is_emptied_not_removed() {
    let mut dir = LogsDir::new();
    dir.write("thornychat.log.2026-09-03", 500);
    let active = dir.write("thornychat.log.2026-09-04", 900);

    let cleared = dir.clear(Some(&active)).expect("clear should succeed");

    assert_eq!(cleared.files, 1, "only the rotated file is removed");
    assert!(cleared.emptied_active);
    assert_eq!(cleared.bytes, 1400, "both files' contents are reclaimed");
    assert_eq!(dir.files, vec![(active, 0)], "the appender's file must keep its name");
}

/// This deletes the app's log files, not whatever else happens to sit in the
/// directory.
#[test]
fn foreign_files_are_left_alone() {
    let mut dir = LogsDir::new();
    dir.write("thornychat.log.2026-09-01", 10);
    let other = dir.write("notes.txt", 10);
    dir.directories.push("thornychat.log.d".to_string());

    let cleared = dir.clear(None).expect("clear should succeed");

    assert_eq!(cleared.files, 1);
    assert_eq!(dir.files, vec![(other, 10)], "a file that isn't ours must not be deleted");
    assert_eq!(dir.directories.len(), 1, "a directory must not be deleted, prefix or not");
}

/// Logging off (or a first run) means no directory at all, and pressing the
/// button then is a no-op rather than an error.
#[test]
fn a_missing_directory_is_not_a_failure() {
    let cleared = clear_log_files(&vec![]).expect("a missing directory is fine");

    assert_eq!(cleared, LogsCleared::default());
    assert_eq!(describe_clear(cleared), "Nothing to delete — there are no log files.");
}

#[test]
fn the_result_line_says_what_happened() {
    let both = LogsCleared { files: 3, emptied_active: true, bytes: 2048 };
    assert_eq!(describe_clear(both), "Deleted 3 log files, emptied today's — 2.0 KB freed.");

    let only_active = LogsCleared { files: 0, emptied_active: true, bytes: 512 };
    assert_eq!(
        describe_clear(only_active),
        "No stored files to delete, emptied today's — 512 bytes freed."
    );

    let one = LogsCleared { files: 1, emptied_active: false, bytes: 1_048_576 };
    assert_eq!(describe_clear(one), "Deleted 1 log file — 1.0 MB freed.");
}

/// A cleared archive can be anything from a few kilobytes to gigabytes.
#[test]
fn byte_counts_stay_readable_at_every_scale() {
    assert_eq!(format_bytes(0), "0 bytes");
    assert_eq!(format_bytes(999), "999 bytes");
    assert_eq!(format_bytes(1024), "1.0 KB");
    assert_eq!(format_bytes(1024 * 1024), "1.0 MB");
    assert_eq!(format_bytes(17 * 1024 * 1024 * 1024), "17.00 GB");
}

fn samples() -> Vec<u64> {
    let mut all: Vec<u64> = vec![0, 1, 1023, 1024, 1075, 1126, 1280, 1536, 51_200 + 51, u64::MAX];
    let mut x: u64 = 0x9E37_79B9_7F4A_7C15;
    for i in 0..400 {
        x = x.wrapping_mul(6364136223846793005).wrapping_add(1442695040888963407);
        all.push(x >> (i % 64));
    }
    for shift in 10..63 {
        all.push(1 << shift);
        all.push((1 << shift) + (1 << (shift - 4)));
        all.push((1 << shift) - 1);
    }
    all
}

/// The labels are what double-precision division and formatting give.
#[test]
fn byte_counts_match_floating_point_formatting() {
    const KIB: u64 = 1024;
    const MIB: u64 = 1024 * KIB;
    const GIB: u64 = 1024 * MIB;
    for bytes in samples() {
        let expected = match bytes {
            b if b < KIB => format!("{b} bytes"),
            b if b < MIB => format!("{:.1} KB", b as f64 / KIB as f64),
            b if b < GIB => format!("{:.1} MB", b as f64 / MIB as f64),
            b => format!("{:.2} GB", b as f64 / GIB as f64),
        };
        assert_eq!(format_bytes(bytes), expected);
        let size = bytes as usize;
        let chip = if size >= 1024 * 1024 {
            format!("{:.1} MB", size as f64 / (1024.0 * 1024.0))
        } else if size >= 1024 {
            format!("{:.1} KB", size as f64 / 1024.0)
        } else {
            format!("{size} B")
        };
        assert_eq!(human_size(size), chip);
    }
}

#[test]
fn the_first_failure_is_reported_with_its_file() {
    let outcomes = vec![
        ClearOutcome {
            name: "thornychat.log.1".to_string(),
            step: ClearStep::Remove,
            size: 5,
            error: None,
        },
        ClearOutcome {
            name: "thornychat.log.2".to_string(),
            step: ClearStep::Remove,
            size: 7,
            error: Some("access denied".to_string()),
        },
    ];
    let failed = clear_log_files(&outcomes).unwrap_err();
    assert!(failed.contains("thornychat.log.2"), "{failed}");
    assert!(failed.contains("access denied"), "{failed}");
}

fn configs() -> Configs {
    Configs {
        spellcheck: thornychat_ui::spellcheck_config::SpellcheckConfig {
            enabled: true,
            autocorrect: true,
        },
        chat: ChatConfig { show_membership_events: true },
        window: WindowConfig { prefer_integrated_gpu: false, prefer_dx12_backend: false },
        log: LogConfig { level: 2 },
    }
}

#[test]
fn clearing_the_logs_is_asked_about_first() {
    let mut state = State::new(false);
    let mut all = configs();
    let (task, _) = update(&mut state, &mut all, Message::ClearLogsRequested);
    assert_eq!(task, Task::Nothing);
    assert!(state.confirm_log_clear);
    update(&mut state, &mut all, Message::ClearLogsCancelled);
    assert!(!state.confirm_log_clear);
    update(&mut state, &mut all, Message::ClearLogsRequested);
    let (task, _) = update(&mut state, &mut all, Message::ClearLogsConfirmed);
    assert_eq!(task, Task::ClearLogs);
    assert!(matches!(state.log_clear_status, LogClearStatus::Clearing));
    let done = LogsCleared { files: 2, emptied_active: false, bytes: 10 };
    update(&mut state, &mut all, Message::ClearLogsFinished(Ok(done)));
    assert!(matches!(state.log_clear_status, LogClearStatus::Cleared(c) if c == done));
}

#[test]
fn a_switch_is_set_and_saved() {
    let mut state = State::new(false);
    let mut all = configs();
    let (task, _) = update(&mut state, &mut all, Message::AutocorrectToggled(false));
    assert_eq!(task, Task::SaveSpellcheck);
    assert!(!all.spellcheck.autocorrect);
    let (task, _) = update(&mut state, &mut all, Message::LogLevelSelected(4));
    assert_eq!(task, Task::SaveLog);
    assert_eq!(all.log.level, 4);
    // Autostart shows as it is only once the system has taken it.
    let (task, _) = update(&mut state, &mut all, Message::AutostartToggled(true));
    assert_eq!(task, Task::SetAutostart(true));
    update(&mut state, &mut all, Message::AutostartChanged { enabled: true, done: false });
    assert!(!state.autostart_enabled);
    update(&mut state, &mut all, Message::AutostartChanged { enabled: true, done: true });
    assert!(state.autostart_enabled);
}

#[test]
fn signing_out_takes_a_second_step() {
    let mut state = State::new(false);
    let mut all = configs();
    let (_, effect) = update(&mut state, &mut all, Message::RequestLogout);
    assert!(matches!(effect, Effect::Nothing));
    assert!(state.confirm_logout);
    let (_, effect) = update(&mut state, &mut all, Message::ConfirmLogout);
    assert!(matches!(effect, Effect::Logout));
}

#[test]
fn statuses_are_spelled_out() {
    assert_eq!(describe_copy(&LogCopyStatus::Idle), "");
    assert_eq!(
        describe_copy(&LogCopyStatus::Copied { bytes: 12 }),
        "Copied (12 bytes) — paste it wherever you're sending it."
    );
    assert_eq!(
        describe_copy(&LogCopyStatus::Failed("busy".to_string())),
        "Couldn't copy the log: busy"
    );
    let done = LogsCleared { files: 1, emptied_active: false, bytes: 2048 };
    assert_eq!(describe_clear_status(&LogClearStatus::Cleared(done)), describe_clear(done));
    assert_eq!(
        describe_clear_status(&LogClearStatus::Failed("busy".to_string())),
        "Couldn't delete the logs: busy"
    );
}

#[test]
fn the_account_is_named_as_far_as_it_is_known() {
    let known = AccountInfo {
        user_id: Some("@ann:x"),
        homeserver: Some("https://x".to_string()),
        device_id: None,
    };
    assert_eq!(sign_out_question(&known), "Sign out of @ann:x?");
    assert_eq!(
        account_rows(&known),
        ("@ann:x".to_string(), "https://x".to_string(), "-".to_string())
    );
    let unknown = AccountInfo { user_id: None, homeserver: None, device_id: None };
    assert_eq!(sign_out_question(&unknown), "Sign out of this account?");
}
