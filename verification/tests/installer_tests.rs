use flux::engine::{
    arp_entry, cleanup_command, desktop_folder, dir_removal_command, elevated_params,
    firewall_delete_args, install, install_base, install_dir, is_elevated, join_path, launch,
    pawnio_uninstall_string, relaunch_elevated_wait, sensor_service_running, size_estimate_kb,
    start_menu_folder, uninstall, ElevatedLaunch, EngineError, InstallAction, InstallOptions,
    KnownFolder, Report, Scope, UninstallAction, UninstallOptions,
};
use flux::payload::{flux_exe, is_bundled, raw_len};
use std::io::Write;

fn opts(desktop: bool, startup: bool, launch: bool) -> InstallOptions {
    InstallOptions { scope: Scope::PerUser, desktop_shortcut: desktop, run_at_startup: startup, launch_after: launch }
}

#[test]
fn scope_flags_round_trip() {
    assert_eq!(Scope::PerUser.as_flag(), "per-user");
    assert_eq!(Scope::AllUsers.as_flag(), "all-users");
    assert_eq!(Scope::parse("all-users"), Some(Scope::AllUsers));
    assert_eq!(Scope::parse(Scope::PerUser.as_flag()), Some(Scope::PerUser));
    assert_eq!(Scope::parse("All-Users"), None);
}

#[test]
fn folders_by_scope() {
    assert_eq!(install_base(Scope::PerUser), KnownFolder::LocalAppData);
    assert_eq!(install_base(Scope::AllUsers), KnownFolder::ProgramFiles);
    assert_eq!(start_menu_folder(Scope::AllUsers), KnownFolder::CommonPrograms);
    assert_eq!(desktop_folder(Scope::PerUser), KnownFolder::Desktop);
    assert_eq!(install_dir("C:\\Program Files"), "C:\\Program Files\\Flux");
    assert_eq!(join_path("C:\\x\\", "a.exe"), "C:\\x\\a.exe");
    assert_eq!(join_path("C:", "a.exe"), "C:a.exe");
    assert_eq!(join_path("", "a.exe"), "a.exe");
    let l = launch("C:\\Apps\\Flux");
    assert_eq!(l.program, "C:\\Apps\\Flux\\flux.exe");
    assert_eq!(l.working_dir, "C:\\Apps\\Flux");
}

#[test]
fn dev_build_refuses_to_install() {
    let e = install(opts(true, true, true), false, Ok("C:\\F".into()), false).unwrap_err();
    assert_eq!(
        e.0,
        "This is a development build with no bundled Flux payload. Build with scripts/Build-Setup.ps1 to produce an installable exe."
    );
    let e = install(opts(true, true, true), true, Err(EngineError("no folder".into())), false).unwrap_err();
    assert_eq!(e.message(), "no folder");
}

fn run_all(run: &mut flux::engine::InstallRun, fail: Option<InstallAction>) -> Vec<InstallAction> {
    let mut seen = Vec::new();
    while let Some(a) = run.next_action() {
        seen.push(a);
        let outcome = if Some(a) == fail { Err(format!("{a:?} failed")) } else { Ok(()) };
        run.complete(outcome);
    }
    seen
}

#[test]
fn full_install_runs_every_step_in_order() {
    let mut run = install(opts(true, true, true), true, Ok("C:\\F".into()), true).unwrap();
    let seen = run_all(&mut run, None);
    assert_eq!(
        seen,
        vec![
            InstallAction::StopSensorService, InstallAction::KillRunningWidget, InstallAction::RemoveLegacyInstall, InstallAction::CreateInstallDir, InstallAction::WriteWidgetExe,
            InstallAction::StartSensorService, InstallAction::CopyUninstaller, InstallAction::WriteLicense, InstallAction::CreateStartMenuShortcut,
            InstallAction::CreateDesktopShortcut, InstallAction::RegisterUninstaller, InstallAction::EnableRunAtStartup, InstallAction::LaunchWidget,
        ]
    );
    let report = run.finish().unwrap();
    assert_eq!(
        report.steps,
        vec![
            "Created C:\\F", "Installed flux.exe", "Restarted sensor service", "Installed uninstaller",
            "Created Start Menu shortcut", "Created desktop shortcut", "Registered in Add/Remove Programs",
            "Enabled start with Windows", "Launched Flux",
        ]
    );
}

#[test]
fn minimal_install_skips_optional_steps() {
    let mut run = install(opts(false, false, false), true, Ok("D:\\F".into()), false).unwrap();
    let seen = run_all(&mut run, None);
    assert_eq!(
        seen,
        vec![InstallAction::KillRunningWidget, InstallAction::RemoveLegacyInstall, InstallAction::CreateInstallDir, InstallAction::WriteWidgetExe, InstallAction::CopyUninstaller,
            InstallAction::WriteLicense, InstallAction::CreateStartMenuShortcut, InstallAction::RegisterUninstaller]
    );
    assert_eq!(run.finish().unwrap().steps.len(), 5);
}

#[test]
fn fatal_failure_ends_the_install() {
    let mut run = install(opts(true, false, true), true, Ok("C:\\F".into()), false).unwrap();
    let seen = run_all(&mut run, Some(InstallAction::CreateDesktopShortcut));
    assert_eq!(seen.last(), Some(&InstallAction::CreateDesktopShortcut));
    assert!(!seen.contains(&InstallAction::RegisterUninstaller));
    assert_eq!(run.finish().unwrap_err().0, "CreateDesktopShortcut failed");
}

#[test]
fn best_effort_failures_are_ignored() {
    let mut run = install(opts(false, false, false), true, Ok("C:\\F".into()), false).unwrap();
    let seen = run_all(&mut run, Some(InstallAction::KillRunningWidget));
    assert_eq!(seen.len(), 8);
    assert!(run.finish().is_ok());
}

#[test]
fn uninstall_reports_what_it_did() {
    let o = UninstallOptions { scope: Scope::PerUser, remove_settings: true };
    let mut run = uninstall(o, Ok("C:\\F".into())).unwrap();
    let mut seen = Vec::new();
    while let Some(a) = run.next_action() {
        seen.push(a);
        // No firewall rule existed; the settings folder was found.
        run.complete(a != UninstallAction::RemoveFirewallRule);
    }
    assert_eq!(seen.len(), 7);
    assert_eq!(
        run.finish().steps,
        vec![
            "Stopped Flux", "Removed shortcuts", "Removed registry entries", "Removed user settings",
            "Removed sensor service, shared data, and PawnIO driver", "Removed program files",
        ]
    );
    let o = UninstallOptions { scope: Scope::AllUsers, remove_settings: false };
    let mut run = uninstall(o, Ok("C:\\F".into())).unwrap();
    while run.next_action().is_some() {
        run.complete(true);
    }
    assert_eq!(run.finish().steps.len(), 5);
    assert!(uninstall(o, Err(EngineError("x".into()))).is_err());
}

#[test]
fn add_remove_programs_entry() {
    let e = arp_entry("C:\\Program Files\\Flux", Scope::AllUsers, "1.2.3", 2048);
    assert_eq!(e.display_name, "Flux");
    assert_eq!(e.display_version, "1.2.3");
    assert_eq!(e.publisher, "Matt Hakes");
    assert_eq!(e.display_icon, "C:\\Program Files\\Flux\\flux.exe");
    assert_eq!(e.uninstall_string, "\"C:\\Program Files\\Flux\\uninstall.exe\" --uninstall --scope all-users");
    assert_eq!(e.quiet_uninstall_string, format!("{} --silent", e.uninstall_string));
    assert_eq!(e.url_info_about, "https://github.com/DruidFluids/Flux");
    assert_eq!(e.estimated_size_kb, 2048);
}

#[test]
fn install_size_estimate() {
    assert_eq!(size_estimate_kb(10 * 1024 + 1023), 10);
    assert_eq!(size_estimate_kb(u64::MAX), u32::MAX);
}

#[test]
fn cleanup_commands() {
    assert_eq!(pawnio_uninstall_string(Some("q.exe /S".into()), Some("u.exe".into())), Some("q.exe /S".into()));
    assert_eq!(pawnio_uninstall_string(None, Some("u.exe".into())), Some("u.exe".into()));
    assert_eq!(pawnio_uninstall_string(Some("   ".into()), Some("u.exe".into())), None);
    assert_eq!(pawnio_uninstall_string(None, None), None);
    assert_eq!(
        cleanup_command(Some("pawnio_setup.exe -uninstall -silent".into())),
        "/c sc stop FluxSensorService >nul 2>&1 & sc delete FluxSensorService >nul 2>&1 & rmdir /s /q \"%ProgramData%\\Flux\" >nul 2>&1 & pawnio_setup.exe -uninstall -silent"
    );
    assert_eq!(
        cleanup_command(None),
        "/c sc stop FluxSensorService >nul 2>&1 & sc delete FluxSensorService >nul 2>&1 & rmdir /s /q \"%ProgramData%\\Flux\" >nul 2>&1"
    );
    assert_eq!(dir_removal_command("C:\\F"), "/C ping 127.0.0.1 -n 3 >nul & rmdir /S /Q \"C:\\F\"");
    assert_eq!(firewall_delete_args(), "advfirewall firewall delete rule name=\"Flux Remote Sensor\"");
}

#[test]
fn elevated_relaunch() {
    let args = vec!["--apply".to_string(), "--scope".into(), "all-users".into()];
    assert_eq!(elevated_params(&args), "--apply --scope all-users");
    assert_eq!(elevated_params(&vec![]), "");
    assert_eq!(relaunch_elevated_wait(ElevatedLaunch::Started { handle_valid: true, exit_code: 3 }).unwrap(), Some(3));
    assert_eq!(relaunch_elevated_wait(ElevatedLaunch::Started { handle_valid: true, exit_code: u32::MAX }).unwrap(), Some(-1));
    assert_eq!(
        relaunch_elevated_wait(ElevatedLaunch::Started { handle_valid: false, exit_code: 3 }).unwrap_err().0,
        "Could not start the elevated installer."
    );
    assert_eq!(relaunch_elevated_wait(ElevatedLaunch::Cancelled).unwrap(), None);
    assert_eq!(relaunch_elevated_wait(ElevatedLaunch::Failed).unwrap_err().0, "Could not start the elevated installer.");
}

#[test]
fn elevation_and_service_queries() {
    assert!(is_elevated(true, 1));
    assert!(!is_elevated(false, 1));
    assert!(!is_elevated(true, 0));
    assert!(sensor_service_running(Some(b"STATE : 4  RUNNING".to_vec())));
    assert!(!sensor_service_running(Some(b"STATE : 1  STOPPED".to_vec())));
    assert!(!sensor_service_running(None));
}

#[test]
fn report_steps_accumulate() {
    let mut r = Report::new();
    r.step("one".into());
    r.step("two".into());
    assert_eq!(r.steps, vec!["one", "two"]);
}

#[test]
fn payload_detection_and_unpacking() {
    assert!(!is_bundled(&[]));
    assert!(is_bundled(&[1]));
    assert_eq!(raw_len("123456"), 123456);
    assert_eq!(raw_len("+7"), 7);
    assert_eq!(raw_len(""), 0);
    assert_eq!(raw_len("12x"), 0);
    assert_eq!(raw_len("99999999999999999999999"), 0);
    let mut enc = flate2::write::GzEncoder::new(Vec::new(), flate2::Compression::default());
    enc.write_all(b"MZ widget bytes").unwrap();
    let gz = enc.finish().unwrap();
    assert_eq!(flux_exe(&gz).unwrap(), b"MZ widget bytes".to_vec());
    assert!(flux_exe(b"not gzip").is_none());
}
