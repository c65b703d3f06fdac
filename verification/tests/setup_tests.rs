use flux::engine::{EngineError, InstallOptions, Report, Scope};
use flux::setup::{
    after_elevated, after_launch, apply_needs_elevation, apply_options, elevated_exit_code,
    elevated_install_args, has, install_exit, install_route, is_silent, norm, outcome_of, scope,
    setup_mode, uninstall_exit, uninstall_options, value, AfterElevated, InstallRoute, Outcome,
    Page, SetupMode, Wizard, WizardMessage, WizardMode, WizardTask,
};

fn args(list: &[&str]) -> Vec<String> {
    list.iter().map(|s| s.to_string()).collect()
}

#[test]
fn switches_normalise() {
    assert_eq!(norm("--Silent"), "silent");
    assert_eq!(norm("/S"), "s");
    assert_eq!(norm("-/-no-Desktop"), "no-desktop");
    assert_eq!(norm("all-users"), "all-users");
}

#[test]
fn switch_lookup() {
    let a = args(&["/Q", "--scope", "all-users", "--Remove-Settings"]);
    assert!(has(&a, &["quiet", "q"]));
    assert!(is_silent(&a));
    assert!(!has(&a, &["apply"]));
    assert_eq!(value(&a, &["scope"]), Some("all-users"));
    assert_eq!(value(&args(&["--scope"]), &["scope"]), None);
    assert_eq!(scope(&a), Scope::AllUsers);
    assert_eq!(scope(&args(&["--scope", "everyone"])), Scope::PerUser);
    assert_eq!(scope(&args(&[])), Scope::PerUser);
    assert!(uninstall_options(&a).remove_settings);
}

#[test]
fn modes_from_switches() {
    assert_eq!(setup_mode(&args(&["/?"])), SetupMode::Help);
    assert_eq!(setup_mode(&args(&["--uninstall", "/S"])), SetupMode::SilentUninstall);
    assert_eq!(setup_mode(&args(&["--uninstall"])), SetupMode::UninstallWizard);
    assert_eq!(setup_mode(&args(&["--install"])), SetupMode::Apply);
    assert_eq!(setup_mode(&args(&["/S"])), SetupMode::Apply);
    assert_eq!(setup_mode(&args(&[])), SetupMode::Wizard);
}

#[test]
fn headless_install_options() {
    let o = apply_options(&args(&["--apply"]));
    assert!(o.desktop_shortcut && o.run_at_startup && o.launch_after);
    assert_eq!(o.scope, Scope::PerUser);
    let o = apply_options(&args(&["--apply", "/nodesktop", "-NO-STARTUP", "--nolaunch"]));
    assert!(!o.desktop_shortcut && !o.run_at_startup && !o.launch_after);
}

#[test]
fn elevated_worker_receives_the_choices() {
    for (d, s) in [(true, true), (true, false), (false, true), (false, false)] {
        let chosen = InstallOptions { scope: Scope::AllUsers, desktop_shortcut: d, run_at_startup: s, launch_after: true };
        let a = elevated_install_args(chosen);
        assert_eq!(setup_mode(&a), SetupMode::Apply);
        let got = apply_options(&a);
        assert_eq!(got.scope, Scope::AllUsers);
        assert_eq!(got.desktop_shortcut, d);
        assert_eq!(got.run_at_startup, s);
        assert!(!got.launch_after);
    }
    let a = elevated_install_args(InstallOptions { scope: Scope::AllUsers, desktop_shortcut: false, run_at_startup: true, launch_after: true });
    assert_eq!(a, args(&["--apply", "--scope", "all-users", "--no-launch", "--no-desktop"]));
}

#[test]
fn install_routes() {
    let per = InstallOptions { scope: Scope::PerUser, desktop_shortcut: true, run_at_startup: true, launch_after: true };
    assert!(matches!(install_route(per, false), InstallRoute::InProcess));
    let all = InstallOptions { scope: Scope::AllUsers, ..per };
    assert!(matches!(install_route(all, true), InstallRoute::InProcess));
    assert!(matches!(install_route(all, false), InstallRoute::Elevated(_)));
    assert!(apply_needs_elevation(true, false));
    assert!(!apply_needs_elevation(true, true));
    assert!(!apply_needs_elevation(false, false));
}

#[test]
fn elevated_worker_outcomes() {
    let o = InstallOptions { scope: Scope::AllUsers, desktop_shortcut: true, run_at_startup: true, launch_after: true };
    match after_elevated(o, Ok(Some(0))) {
        AfterElevated::Launch(steps) => {
            assert_eq!(steps, vec!["Installed Flux (administrator)"]);
            let done = after_launch(steps.clone(), Ok(()));
            assert!(done.ok);
            assert_eq!(done.steps, vec!["Installed Flux (administrator)", "Launched Flux"]);
            let failed = after_launch(steps, Err(EngineError("launch Flux: denied".into())));
            assert!(failed.ok);
            assert_eq!(failed.error.as_deref(), Some("launch Flux: denied"));
        }
        other => panic!("unexpected {other:?}"),
    }
    let no_launch = InstallOptions { launch_after: false, ..o };
    assert!(matches!(after_elevated(no_launch, Ok(Some(0))), AfterElevated::Finished(Outcome { ok: true, .. })));
    match after_elevated(o, Ok(Some(-5))) {
        AfterElevated::Finished(out) => assert_eq!(out.error.as_deref(), Some("The installer exited with code -5.")),
        other => panic!("unexpected {other:?}"),
    }
    match after_elevated(o, Ok(None)) {
        AfterElevated::Finished(out) => assert_eq!(out.error.as_deref(), Some("Administrator approval was declined.")),
        other => panic!("unexpected {other:?}"),
    }
    assert_eq!(elevated_exit_code(Ok(Some(7))), 7);
    assert_eq!(elevated_exit_code(Ok(None)), 1);
    assert_eq!(elevated_exit_code(Err(EngineError("x".into()))), 1);
}

#[test]
fn exit_codes_and_messages() {
    let ok = install_exit(Ok(Report::new()), false);
    assert_eq!(ok.code, 0);
    assert!(ok.message.is_none());
    let bad = install_exit(Err(EngineError("disk full".into())), false);
    assert_eq!(bad.code, 1);
    assert_eq!(bad.message, Some(("Install failed:\n\ndisk full".to_string(), true)));
    assert!(install_exit(Err(EngineError("x".into())), true).message.is_none());
    let u = uninstall_exit(Ok(Report::new()), false);
    assert_eq!(u.message, Some(("Flux has been uninstalled.".to_string(), false)));
    assert!(uninstall_exit(Ok(Report::new()), true).message.is_none());
    let ue = uninstall_exit(Err(EngineError("busy".into())), false);
    assert_eq!(ue.code, 1);
    assert_eq!(ue.message, Some(("Uninstall failed:\n\nbusy".to_string(), true)));
    let out = outcome_of(Err(EngineError("nope".into())));
    assert!(!out.ok && out.steps.is_empty());
    assert_eq!(out.error.as_deref(), Some("nope"));
}

#[test]
fn wizard_pages_and_tasks() {
    let mut w = Wizard::new(&args(&["setup.exe"]));
    assert_eq!(w.page, Page::Welcome);
    assert_eq!(w.mode, WizardMode::Install);
    assert_eq!(w.step(), (0, 4));
    assert!(matches!(w.update(WizardMessage::Next), WizardTask::Nothing));
    assert_eq!(w.page, Page::Options);
    w.update(WizardMessage::SetScope(Scope::AllUsers));
    w.update(WizardMessage::ToggleDesktop(false));
    match w.update(WizardMessage::StartInstall) {
        WizardTask::Install(o) => {
            assert_eq!(o.scope, Scope::AllUsers);
            assert!(!o.desktop_shortcut && o.run_at_startup && o.launch_after);
        }
        other => panic!("unexpected {other:?}"),
    }
    assert_eq!(w.step(), (2, 4));
    w.update(WizardMessage::Installed(Outcome { ok: true, steps: vec![], error: None }));
    assert_eq!(w.page, Page::Done);
    assert!(matches!(w.update(WizardMessage::Finish), WizardTask::Exit));

    let mut u = Wizard::new(&args(&["uninstall.exe", "--uninstall", "--scope", "all-users"]));
    assert_eq!(u.mode, WizardMode::Uninstall);
    assert_eq!(u.page, Page::ConfirmUninstall);
    assert_eq!(u.scope, Scope::AllUsers);
    assert_eq!(u.step(), (0, 3));
    match u.update(WizardMessage::StartUninstall) {
        WizardTask::Uninstall(o) => assert!(o.remove_settings),
        other => panic!("unexpected {other:?}"),
    }

    let qa = Wizard::new(&args(&["setup.exe", "--page", "done"]));
    assert!(qa.qa);
    assert_eq!(qa.page, Page::Done);
    assert_eq!(qa.outcome.as_ref().unwrap().steps.len(), 8);
}
