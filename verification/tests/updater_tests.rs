use uptodate::detect::{Detection, PROBE_ORDER, SYSTEM_COUNT};
use uptodate::runner::Invocation;
use uptodate::catalog::builtin_managers;
use uptodate::run::UpdateRun;
use uptodate::updater::{
    check_updates, remove_pid, run_update, PackageManager, SourceState, UpdateError, UpdateEvent,
    Updater,
};

fn strings(tokens: &[&str]) -> Vec<String> {
    tokens.iter().map(|t| t.to_string()).collect()
}

fn detect_with(present: &[&str]) -> Vec<String> {
    let mut detection = Updater::new().detect_sources();
    let mut probes = 0;
    while let Some(name) = detection.next_probe() {
        detection.record(present.contains(&name));
        probes += 1;
        assert!(probes <= PROBE_ORDER.len());
    }
    detection.into_found()
}

#[test]
fn test_updater_creation() {
    let updater = Updater::new();

    assert!(!updater.is_running());
    assert!(!updater.managers.is_empty()); // Should have some predefined managers

    // Test some expected managers
    assert!(updater.get_manager_info("paru").is_some());
    assert!(updater.get_manager_info("flatpak").is_some());
    assert!(updater.get_manager_info("nonexistent").is_none());
}

#[test]
fn test_package_manager_creation() {
    let manager = PackageManager::new(
        "test",
        &["test", "--check"],
        &["test", "--update"],
        false,
        "Test Package Manager",
    );

    assert_eq!(manager.name, "test");
    assert_eq!(manager.description, "Test Package Manager");
    assert_eq!(manager.check_cmd, vec!["test", "--check"]);
    assert_eq!(manager.update_cmd, vec!["test", "--update"]);
    assert!(!manager.needs_sudo);
}

#[test]
fn test_update_event_variants() {
    let events = vec![
        UpdateEvent::Started,
        UpdateEvent::Progress("Test progress".to_string()),
        UpdateEvent::SourceStarted("flatpak".to_string()),
        UpdateEvent::SourceProgress("flatpak".to_string(), "Updating...".to_string()),
        UpdateEvent::SourceCompleted("flatpak".to_string(), true),
        UpdateEvent::SourceError("flatpak".to_string(), "Error occurred".to_string()),
        UpdateEvent::Completed(true),
        UpdateEvent::Error("General error".to_string()),
    ];

    // Verify they can be created and match
    for event in events {
        match event {
            UpdateEvent::Started => {}
            UpdateEvent::Progress(_) => {}
            UpdateEvent::SourceStarted(_) => {}
            UpdateEvent::SourceProgress(_, _) => {}
            UpdateEvent::SourceCompleted(_, _) => {}
            UpdateEvent::SourceError(_, _) => {}
            UpdateEvent::Completed(_) => {}
            UpdateEvent::Error(_) => {}
        }
    }
}

#[test]
fn test_source_state_variants() {
    let states = vec![
        SourceState::Idle,
        SourceState::Running,
        SourceState::Success,
        SourceState::Failed,
    ];

    // Verify all states can be created
    for state in states {
        match state {
            SourceState::Idle => {}
            SourceState::Running => {}
            SourceState::Success => {}
            SourceState::Failed => {}
        }
    }
}

#[test]
fn test_updater_is_not_running_initially() {
    let updater = Updater::new();
    assert!(!updater.is_running());
}

#[test]
fn catalog_holds_the_eleven_managers_in_order() {
    let managers = builtin_managers();
    let names: Vec<&str> = managers.iter().map(|m| m.name.as_str()).collect();
    assert_eq!(
        names,
        vec!["paru", "apt", "dnf", "zypper", "apk", "flatpak", "snap", "pipx", "npm", "rustup", "brew"]
    );
    assert_eq!(
        managers[1],
        PackageManager {
            description: "System packages".to_string(),
            check_cmd: strings(&["apt", "list", "--upgradable"]),
            update_cmd: strings(&["sh", "-c", "apt update && apt upgrade -y"]),
            needs_sudo: true,
            name: "apt".to_string(),
        }
    );
    assert_eq!(managers[6].update_cmd, strings(&["snap", "refresh"]));
    assert!(managers[6].needs_sudo);
    assert!(!managers[9].needs_sudo);
    assert_eq!(managers[10].description, "Homebrew packages");
}

#[test]
fn manager_info_by_name() {
    let updater = Updater::new();
    assert!(updater.get_manager_info("unknown-id").is_none());
    assert!(updater.get_manager_info("").is_none());
    assert!(updater.get_manager_info("Flatpak").is_none());
    let flatpak = updater.get_manager_info("flatpak").unwrap();
    assert_eq!(flatpak.name, "flatpak");
    assert_eq!(flatpak.check_cmd, strings(&["flatpak", "remote-ls", "--updates"]));
    assert_eq!(flatpak.description, "Flatpak applications");
    for manager in updater.managers.iter() {
        assert_eq!(updater.get_manager_info(&manager.name), Some(manager));
    }
}

#[test]
fn dry_run_of_flatpak_reports_progress_and_success() {
    let mut updater = Updater::new();
    let mut run = updater.run_updates(&strings(&["flatpak"]), true).unwrap();
    assert!(updater.is_running());

    let launch = updater.next_launch(&mut run);
    assert_eq!(
        launch,
        Some(Invocation {
            program: "flatpak".to_string(),
            args: strings(&["remote-ls", "--updates"]),
        })
    );
    updater.child_spawned(4242);
    assert_eq!(updater.child_pids, vec![4242]);
    run.stdout_line("org.example.App 1.2.3".to_string());
    updater.child_exited(&mut run, 4242, true);
    assert!(updater.child_pids.is_empty());

    assert_eq!(updater.next_launch(&mut run), None);
    assert!(run.finished);
    assert!(!updater.is_running());
    assert_eq!(
        run.events,
        vec![
            UpdateEvent::Started,
            UpdateEvent::SourceStarted("flatpak".to_string()),
            UpdateEvent::SourceProgress("flatpak".to_string(), "org.example.App 1.2.3".to_string()),
            UpdateEvent::SourceCompleted("flatpak".to_string(), true),
            UpdateEvent::Completed(true),
        ]
    );
}

#[test]
fn empty_selection_succeeds_at_once() {
    let mut updater = Updater::new();
    let mut run = updater.run_updates(&[], false).unwrap();
    assert_eq!(run.events, vec![UpdateEvent::Started]);
    assert_eq!(updater.next_launch(&mut run), None);
    assert_eq!(run.events, vec![UpdateEvent::Started, UpdateEvent::Completed(true)]);
    assert!(!updater.is_running());
}

#[test]
fn unknown_source_is_skipped_in_silence() {
    let mut updater = Updater::new();
    let mut run = updater.run_updates(&strings(&["unknown-id"]), false).unwrap();
    assert_eq!(updater.next_launch(&mut run), None);
    assert_eq!(run.events, vec![UpdateEvent::Started, UpdateEvent::Completed(true)]);
    assert_eq!(run.position, 1);
    assert!(!updater.is_running());
}

#[test]
fn second_run_is_refused_while_one_is_running() {
    let mut updater = Updater::new();
    let run = updater.run_updates(&strings(&["flatpak", "rustup"]), false).unwrap();
    updater.child_spawned(7);

    let refused = updater.run_updates(&strings(&["snap"]), true);
    assert!(matches!(refused, Err(UpdateError::AlreadyRunning)));
    assert!(updater.is_running());
    assert_eq!(updater.child_pids, vec![7]);
    assert_eq!(run.events, vec![UpdateEvent::Started]);
    assert_eq!(UpdateError::AlreadyRunning.message(), "Updates already running");
}

#[test]
fn run_can_start_again_after_the_end() {
    let mut updater = Updater::new();
    let mut run = updater.run_updates(&[], false).unwrap();
    assert_eq!(updater.next_launch(&mut run), None);
    assert!(updater.run_updates(&[], false).is_ok());
}

#[test]
fn stop_while_idle_signals_nothing() {
    let mut updater = Updater::new();
    updater.child_pids.push(99);
    assert_eq!(updater.stop(), Vec::<u32>::new());
    assert!(!updater.is_running());
    assert_eq!(updater.child_pids, vec![99]);
}

#[test]
fn stop_interrupts_tracked_processes() {
    let mut updater = Updater::new();
    let mut run = updater.run_updates(&strings(&["rustup"]), false).unwrap();
    assert!(updater.next_launch(&mut run).is_some());
    updater.child_spawned(11);
    updater.child_spawned(12);
    assert_eq!(updater.stop(), vec![11, 12]);
    assert!(!updater.is_running());
    // The processes stay tracked until they are gone.
    assert_eq!(updater.child_pids, vec![11, 12]);
    assert_eq!(updater.stop(), Vec::<u32>::new());
}

#[test]
fn stop_between_sources_skips_the_rest() {
    let mut updater = Updater::new();
    let mut run = updater.run_updates(&strings(&["flatpak", "rustup"]), false).unwrap();
    assert_eq!(
        updater.next_launch(&mut run),
        Some(Invocation { program: "flatpak".to_string(), args: strings(&["update", "-y"]) })
    );
    updater.child_spawned(5);
    assert_eq!(updater.stop(), vec![5]);
    updater.child_exited(&mut run, 5, false);
    assert_eq!(updater.next_launch(&mut run), None);
    assert_eq!(
        run.events,
        vec![
            UpdateEvent::Started,
            UpdateEvent::SourceStarted("flatpak".to_string()),
            UpdateEvent::SourceCompleted("flatpak".to_string(), false),
            UpdateEvent::Completed(false),
        ]
    );
    assert_eq!(run.position, 1);
}

#[test]
fn dry_run_uses_check_commands_and_real_run_update_commands() {
    let catalog = builtin_managers();
    for manager in catalog.iter() {
        let mut updater = Updater::new();
        let mut run = updater.run_updates(&[manager.name.clone()], true).unwrap();
        let launch = updater.next_launch(&mut run).unwrap();
        assert_eq!(launch.program, manager.check_cmd[0]);
        assert_eq!(launch.args, manager.check_cmd[1..].to_vec());
        assert_eq!(check_updates(manager), Ok(launch));
    }
    let mut updater = Updater::new();
    let mut run = updater.run_updates(&strings(&["snap"]), false).unwrap();
    assert_eq!(
        updater.next_launch(&mut run),
        Some(Invocation {
            program: "pkexec".to_string(),
            args: strings(&["--user", "root", "sh", "-c", "snap refresh"]),
        })
    );
    assert_eq!(
        run_update(updater.get_manager_info("rustup").unwrap()),
        Ok(Invocation { program: "rustup".to_string(), args: strings(&["update"]) })
    );
}

#[test]
fn refused_command_fails_its_source_and_the_run_goes_on() {
    let mut updater = Updater::new();
    let mut run = updater.run_updates(&strings(&["apt", "rustup"]), false).unwrap();
    assert_eq!(
        updater.next_launch(&mut run),
        Some(Invocation { program: "rustup".to_string(), args: strings(&["update"]) })
    );
    updater.child_spawned(1);
    updater.child_exited(&mut run, 1, true);
    assert_eq!(updater.next_launch(&mut run), None);
    assert_eq!(
        run.events,
        vec![
            UpdateEvent::Started,
            UpdateEvent::SourceStarted("apt".to_string()),
            UpdateEvent::SourceError(
                "apt".to_string(),
                "Invalid argument pattern detected: 'apt update && apt upgrade -y'. Command injection patterns not allowed".to_string()
            ),
            UpdateEvent::SourceCompleted("apt".to_string(), false),
            UpdateEvent::SourceStarted("rustup".to_string()),
            UpdateEvent::SourceCompleted("rustup".to_string(), true),
            UpdateEvent::Completed(false),
        ]
    );
}

#[test]
fn manager_outside_the_allow_list_is_refused() {
    let mut updater = Updater::new();
    updater.managers.push(PackageManager::new("rogue", &["rogue"], &["rogue"], false, "Rogue"));
    let mut run = updater.run_updates(&strings(&["rogue"]), true).unwrap();
    assert_eq!(updater.next_launch(&mut run), None);
    assert_eq!(
        run.events,
        vec![
            UpdateEvent::Started,
            UpdateEvent::SourceStarted("rogue".to_string()),
            UpdateEvent::SourceError(
                "rogue".to_string(),
                "Unauthorized package manager: rogue. Only trusted managers are allowed."
                    .to_string()
            ),
            UpdateEvent::SourceCompleted("rogue".to_string(), false),
            UpdateEvent::Completed(false),
        ]
    );
}

#[test]
fn spawn_failure_fails_the_source() {
    let mut updater = Updater::new();
    let mut run = updater.run_updates(&strings(&["brew", "flatpak"]), true).unwrap();
    assert!(updater.next_launch(&mut run).is_some());
    run.spawn_failed("No such file or directory (os error 2)");
    assert!(updater.child_pids.is_empty());
    assert!(updater.next_launch(&mut run).is_some());
    updater.child_spawned(3);
    run.stderr_line("error: unreachable remote".to_string());
    run.stderr_line("Nothing to do.".to_string());
    run.stderr_line("password:".to_string());
    run.stdout_line("   ".to_string());
    updater.child_exited(&mut run, 3, true);
    assert_eq!(updater.next_launch(&mut run), None);
    assert_eq!(
        run.events,
        vec![
            UpdateEvent::Started,
            UpdateEvent::SourceStarted("brew".to_string()),
            UpdateEvent::Error(
                "Failed to run brew: No such file or directory (os error 2)".to_string()
            ),
            UpdateEvent::SourceCompleted("brew".to_string(), false),
            UpdateEvent::SourceStarted("flatpak".to_string()),
            UpdateEvent::SourceError("flatpak".to_string(), "error: unreachable remote".to_string()),
            UpdateEvent::SourceProgress("flatpak".to_string(), "Nothing to do.".to_string()),
            UpdateEvent::SourceCompleted("flatpak".to_string(), true),
            UpdateEvent::Completed(false),
        ]
    );
}

#[test]
fn waiting_or_finished_run_does_not_move() {
    let mut updater = Updater::new();
    let mut run = updater.run_updates(&strings(&["rustup", "brew"]), true).unwrap();
    assert!(updater.next_launch(&mut run).is_some());
    let events = run.events.clone();
    assert_eq!(updater.next_launch(&mut run), None);
    assert_eq!(run.events, events);
    assert_eq!(run.position, 1);
    assert!(updater.is_running());
    assert!(!run.finished);
    // Lines without a source in flight are dropped.
    let mut idle = UpdateRun {
        sources: vec![],
        dry_run: false,
        position: 0,
        success: true,
        active: None,
        finished: false,
        events: vec![],
    };
    idle.stdout_line("text".to_string());
    idle.stderr_line("text".to_string());
    idle.spawn_failed("reason");
    idle.source_finished(false);
    assert!(idle.events.is_empty());
    assert!(idle.success);
}

#[test]
fn removing_a_pid_keeps_the_others_in_order() {
    assert_eq!(remove_pid(&vec![1, 2, 3, 2, 4], 2), vec![1, 3, 4]);
    assert_eq!(remove_pid(&vec![1, 2, 3], 9), vec![1, 2, 3]);
    assert_eq!(remove_pid(&vec![], 1), Vec::<u32>::new());
}

#[test]
fn detection_reports_the_first_system_manager_only() {
    assert_eq!(SYSTEM_COUNT, 5);
    assert_eq!(detect_with(&["apt", "dnf", "apk"]), strings(&["apt"]));
    assert_eq!(detect_with(&["apk"]), strings(&["apk"]));
    assert_eq!(
        detect_with(&["zypper", "paru", "brew", "flatpak"]),
        strings(&["paru", "flatpak", "brew"])
    );
}

#[test]
fn detection_reports_every_other_manager() {
    assert_eq!(
        detect_with(&["flatpak", "snap", "pipx", "npm", "rustup", "brew"]),
        strings(&["flatpak", "snap", "pipx", "npm", "rustup", "brew"])
    );
    assert_eq!(detect_with(&["npm"]), strings(&["npm"]));
}

#[test]
fn detection_of_nothing_is_empty() {
    assert_eq!(detect_with(&[]), Vec::<String>::new());
    assert_eq!(detect_with(&["pacman"]), Vec::<String>::new());
}

#[test]
fn detection_stops_probing_system_managers_at_the_first_hit() {
    let mut detection = Detection::new();
    assert_eq!(detection.next_probe(), Some("paru"));
    detection.record(false);
    assert_eq!(detection.next_probe(), Some("apt"));
    detection.record(true);
    assert_eq!(detection.next_probe(), Some("flatpak"));
    detection.record(false);
    assert_eq!(detection.next_probe(), Some("snap"));
    for _ in 0..5 {
        detection.record(true);
    }
    assert_eq!(detection.next_probe(), None);
    detection.record(true);
    assert_eq!(
        detection.into_found(),
        strings(&["apt", "snap", "pipx", "npm", "rustup", "brew"])
    );
}

#[test]
fn well_formed_tables() {
    let mut updater = Updater::default();
    assert!(updater.is_well_formed());
    assert_eq!(updater.managers, builtin_managers());

    updater.managers.push(PackageManager::new("snap", &["snap"], &["snap"], false, "Twice"));
    assert!(!updater.is_well_formed());
    updater.managers.pop();
    assert!(updater.is_well_formed());

    updater.managers.push(PackageManager::new("empty-check", &[], &["x"], false, "d"));
    assert!(!updater.is_well_formed());
    updater.managers.pop();

    updater.managers.push(PackageManager::new("empty-update", &["x"], &[], false, "d"));
    assert!(!updater.is_well_formed());
    updater.managers.pop();

    updater.managers.push(PackageManager::new("elevated", &["x"], &[], true, "d"));
    assert!(updater.is_well_formed());
}

#[test]
fn empty_table_is_filled_with_the_catalog() {
    let mut updater = Updater { running: true, child_pids: vec![8], managers: vec![] };
    updater.init_managers();
    assert!(updater.is_running());
    assert_eq!(updater.child_pids, vec![8]);
    assert_eq!(updater.managers, builtin_managers());
}

#[test]
fn elevated_empty_command_is_one_empty_shell_line() {
    let manager = PackageManager::new("snap", &["snap"], &[], true, "d");
    assert_eq!(
        run_update(&manager),
        Ok(Invocation {
            program: "pkexec".to_string(),
            args: strings(&["--user", "root", "sh", "-c", ""]),
        })
    );
}
