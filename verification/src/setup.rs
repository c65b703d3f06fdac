//! The setup program's decisions: its command line (every switch accepts
//! `--flag`, `-flag` and `/flag`, in any case), the mode it runs in, the
//! options a headless install or uninstall takes from the switches, the
//! arguments of the elevated worker an all-users install relaunches, the
//! outcome shown at the end, the exit codes, and the wizard's pages.

use vstd::prelude::*;
use crate::engine::{
    flag_of, scope_of, views, EngineError, InstallOptions, Report, Scope, UninstallOptions,
};
use crate::text::{
    chars_of, decimal_text, eq_str, i32_text, lower_seq, lower_vec, string_of, trim_start_in,
    trim_start_in_vec,
};

verus! {

// ---------------------------------------------------------------------
// Command line

/// The characters a switch may start with.
pub open spec fn switch_prefix() -> Seq<char> {
    seq!['-', '/']
}

/// A switch normalised for comparison: leading `-` and `/` removed, ASCII
/// lowercased.
pub open spec fn norm_of(a: Seq<char>) -> Seq<char> {
    lower_seq(trim_start_in(a, switch_prefix()))
}

pub fn norm(a: &str) -> (r: String)
    ensures
        r@ == norm_of(a@),
{
    let cs = chars_of(a);
    let set = vec!['-', '/'];
    assert(set@ =~= switch_prefix());
    let t = trim_start_in_vec(cs.as_slice(), set.as_slice());
    let l = lower_vec(t.as_slice());
    string_of(l.as_slice())
}

/// `n` is one of `names`.
pub open spec fn is_named(n: Seq<char>, names: Seq<&str>) -> bool {
    exists|j: int| 0 <= j < names.len() && n == (#[trigger] names[j])@
}

/// Argument `i` is one of the switches `names`.
pub open spec fn arg_named(args: Seq<Seq<char>>, names: Seq<&str>, i: int) -> bool {
    0 <= i < args.len() && is_named(norm_of(args[i]), names)
}

/// Some argument is one of the switches `names`.
pub open spec fn has_arg(args: Seq<Seq<char>>, names: Seq<&str>) -> bool {
    exists|i: int| arg_named(args, names, i)
}

/// The first argument at or after `i` that is one of `names`.
pub open spec fn first_named_from(args: Seq<Seq<char>>, names: Seq<&str>, i: int) -> Option<int>
    decreases args.len() - i,
{
    if i < 0 || i >= args.len() {
        None
    } else if arg_named(args, names, i) {
        Some(i)
    } else {
        first_named_from(args, names, i + 1)
    }
}

/// The argument after the first one that is one of `names`.
pub open spec fn value_of(args: Seq<Seq<char>>, names: Seq<&str>) -> Option<Seq<char>> {
    match first_named_from(args, names, 0) {
        Some(i) => if i + 1 < args.len() {
            Some(args[i + 1])
        } else {
            None
        },
        None => None,
    }
}

fn named(n: &[char], names: &[&str]) -> (r: bool)
    ensures
        r == is_named(n@, names@),
{
    let mut j: usize = 0;
    while j < names.len()
        invariant
            j <= names@.len(),
            forall|k: int| 0 <= k < j ==> n@ != (#[trigger] names@[k])@,
        decreases names@.len() - j,
    {
        if eq_str(n, names[j]) {
            return true;
        }
        j = j + 1;
    }
    false
}

fn position(args: &[String], names: &[&str]) -> (r: Option<usize>)
    ensures
        match r {
            Some(i) => i < args@.len() && first_named_from(views(args@), names@, 0) == Some(
                i as int,
            ),
            None => first_named_from(views(args@), names@, 0) is None,
        },
{
    let ghost a = views(args@);
    let mut i: usize = 0;
    while i < args.len()
        invariant
            i <= args@.len(),
            a == views(args@),
            first_named_from(a, names@, 0) == first_named_from(a, names@, i as int),
        decreases args@.len() - i,
    {
        let n = norm(args[i].as_str());
        let nc = chars_of(n.as_str());
        assert(a[i as int] == args@[i as int]@);
        if named(nc.as_slice(), names) {
            return Some(i);
        }
        i = i + 1;
    }
    None
}

/// Whether any argument is one of the switches `names` (given normalised:
/// lowercase, without prefix).
pub fn has(args: &[String], names: &[&str]) -> (r: bool)
    ensures
        r == has_arg(views(args@), names@),
{
    let r = position(args, names);
    proof {
        let a = views(args@);
        if r is None {
            assert forall|i: int| !arg_named(a, names@, i) by {
                if arg_named(a, names@, i) {
                    lemma_first_named_exists(a, names@, 0, i);
                }
            }
        } else {
            let i = r->0 as int;
            lemma_first_named_is_named(a, names@, 0);
            assert(arg_named(a, names@, i));
        }
    }
    r.is_some()
}

proof fn lemma_first_named_exists(args: Seq<Seq<char>>, names: Seq<&str>, from: int, i: int)
    requires
        0 <= from <= i,
        arg_named(args, names, i),
    ensures
        first_named_from(args, names, from) is Some,
    decreases i - from,
{
    if !arg_named(args, names, from) {
        lemma_first_named_exists(args, names, from + 1, i);
    }
}

proof fn lemma_first_named_is_named(args: Seq<Seq<char>>, names: Seq<&str>, from: int)
    ensures
        match first_named_from(args, names, from) {
            Some(i) => arg_named(args, names, i) && from <= i,
            None => true,
        },
    decreases args.len() - from,
{
    if 0 <= from < args.len() && !arg_named(args, names, from) {
        lemma_first_named_is_named(args, names, from + 1);
    }
}

/// The argument that follows the first occurrence of any of `names`.
pub fn value<'a>(args: &'a [String], names: &[&str]) -> (r: Option<&'a str>)
    ensures
        match r {
            Some(v) => value_of(views(args@), names@) == Some(v@),
            None => value_of(views(args@), names@) is None,
        },
{
    match position(args, names) {
        Some(i) => {
            if i < args.len() - 1 {
                assert(views(args@)[i + 1] == args@[i + 1]@);
                Some(args[i + 1].as_str())
            } else {
                None
            }
        },
        None => None,
    }
}

/// The silent switches.
pub open spec fn silent_names() -> Seq<&'static str> {
    seq!["s", "silent", "q", "quiet"]
}

/// `/S`, `/q`, `--silent`, `--quiet`: no wizard and no message boxes.
pub fn is_silent(args: &[String]) -> (r: bool)
    ensures
        r == has_arg(views(args@), silent_names()),
{
    let names = ["s", "silent", "q", "quiet"];
    assert(names@ =~= silent_names());
    has(args, names.as_slice())
}

/// The scope named after `--scope`; per-user when absent or unknown.
pub open spec fn scope_arg(args: Seq<Seq<char>>) -> Scope {
    match value_of(args, seq!["scope"]) {
        Some(v) => match scope_of(v) {
            Some(s) => s,
            None => Scope::PerUser,
        },
        None => Scope::PerUser,
    }
}

pub fn scope(args: &[String]) -> (r: Scope)
    ensures
        r == scope_arg(views(args@)),
{
    let names = ["scope"];
    assert(names@ =~= seq!["scope"]);
    match value(args, names.as_slice()) {
        Some(v) => match Scope::parse(v) {
            Some(s) => s,
            None => Scope::PerUser,
        },
        None => Scope::PerUser,
    }
}

// ---------------------------------------------------------------------
// Modes and headless runs

/// What the setup program does, by its switches.
#[derive(Debug, PartialEq, Eq, Structural)]
pub enum SetupMode {
    Help,
    /// Uninstall with no windows at all.
    SilentUninstall,
    /// The wizard, opened on its uninstall page.
    UninstallWizard,
    /// Install without the wizard.
    Apply,
    /// The install wizard.
    Wizard,
}

/// Help first; then uninstall (silent or with the wizard); then a headless
/// install when asked for or when silent on its own; else the wizard.
pub open spec fn mode_of(args: Seq<Seq<char>>) -> SetupMode {
    if has_arg(args, seq!["help", "h", "?"]) {
        SetupMode::Help
    } else if has_arg(args, seq!["uninstall"]) {
        if has_arg(args, silent_names()) {
            SetupMode::SilentUninstall
        } else {
            SetupMode::UninstallWizard
        }
    } else if has_arg(args, seq!["apply", "install"]) || has_arg(args, silent_names()) {
        SetupMode::Apply
    } else {
        SetupMode::Wizard
    }
}

/// The mode for the program's arguments (without the program name).
pub fn setup_mode(args: &[String]) -> (r: SetupMode)
    ensures
        r == mode_of(views(args@)),
{
    let help = ["help", "h", "?"];
    assert(help@ =~= seq!["help", "h", "?"]);
    if has(args, help.as_slice()) {
        return SetupMode::Help;
    }
    let un = ["uninstall"];
    assert(un@ =~= seq!["uninstall"]);
    if has(args, un.as_slice()) {
        if is_silent(args) {
            return SetupMode::SilentUninstall;
        }
        return SetupMode::UninstallWizard;
    }
    let apply = ["apply", "install"];
    assert(apply@ =~= seq!["apply", "install"]);
    if has(args, apply.as_slice()) || is_silent(args) {
        SetupMode::Apply
    } else {
        SetupMode::Wizard
    }
}

/// The options of a headless install: everything unless opted out.
pub open spec fn apply_options_of(args: Seq<Seq<char>>) -> InstallOptions {
    InstallOptions {
        scope: scope_arg(args),
        desktop_shortcut: !has_arg(args, seq!["no-desktop", "nodesktop"]),
        run_at_startup: !has_arg(args, seq!["no-startup", "nostartup"]),
        launch_after: !has_arg(args, seq!["no-launch", "nolaunch"]),
    }
}

pub fn apply_options(args: &[String]) -> (r: InstallOptions)
    ensures
        r == apply_options_of(views(args@)),
{
    let nd = ["no-desktop", "nodesktop"];
    let ns = ["no-startup", "nostartup"];
    let nl = ["no-launch", "nolaunch"];
    assert(nd@ =~= seq!["no-desktop", "nodesktop"]);
    assert(ns@ =~= seq!["no-startup", "nostartup"]);
    assert(nl@ =~= seq!["no-launch", "nolaunch"]);
    let no_desktop = has(args, nd.as_slice());
    let no_startup = has(args, ns.as_slice());
    let no_launch = has(args, nl.as_slice());
    InstallOptions {
        scope: scope(args),
        desktop_shortcut: !no_desktop,
        run_at_startup: !no_startup,
        launch_after: !no_launch,
    }
}

/// The options of a headless uninstall.
pub fn uninstall_options(args: &[String]) -> (r: UninstallOptions)
    ensures
        r.scope == scope_arg(views(args@)),
        r.remove_settings == has_arg(views(args@), seq!["remove-settings", "removesettings"]),
{
    let rs = ["remove-settings", "removesettings"];
    assert(rs@ =~= seq!["remove-settings", "removesettings"]);
    UninstallOptions { scope: scope(args), remove_settings: has(args, rs.as_slice()) }
}

/// A headless install relaunches itself elevated when the sensor service
/// exists (stopping and starting it needs elevation) and it is not
/// elevated already.
pub fn apply_needs_elevation(service_exists: bool, elevated: bool) -> (r: bool)
    ensures
        r == (service_exists && !elevated),
{
    service_exists && !elevated
}

/// The exit code after an elevated relaunch: the worker's, or 1 when the
/// user declined or it could not start.
pub fn elevated_exit_code(r: Result<Option<i32>, EngineError>) -> (code: i32)
    ensures
        code == match r {
            Ok(Some(c)) => c,
            _ => 1i32,
        },
{
    match r {
        Ok(Some(c)) => c,
        _ => 1,
    }
}

/// How a headless run ends: the exit code, and the message box to show
/// (its text and whether it reports an error), if any.
#[derive(Debug)]
pub struct CliExit {
    pub code: i32,
    pub message: Option<(String, bool)>,
}

/// The end of a headless install: 0, or 1 with an error box unless silent.
pub fn install_exit(result: Result<Report, EngineError>, silent: bool) -> (r: CliExit)
    ensures
        match result {
            Ok(_) => r.code == 0 && r.message is None,
            Err(e) => r.code == 1 && if silent {
                r.message is None
            } else {
                r.message matches Some(m) && m.1 && m.0@ == "Install failed:\n\n"@ + e.0@
            },
        },
{
    match result {
        Ok(_) => CliExit { code: 0, message: None },
        Err(e) => {
            if silent {
                CliExit { code: 1, message: None }
            } else {
                let mut t = String::new();
                t.append("Install failed:\n\n");
                t.append(e.0.as_str());
                CliExit { code: 1, message: Some((t, true)) }
            }
        },
    }
}

/// The end of a headless uninstall: 0 with a confirmation, or 1 with an
/// error box; no box when silent.
pub fn uninstall_exit(result: Result<Report, EngineError>, silent: bool) -> (r: CliExit)
    ensures
        match result {
            Ok(_) => r.code == 0 && if silent {
                r.message is None
            } else {
                r.message matches Some(m) && !m.1 && m.0@ == "Flux has been uninstalled."@
            },
            Err(e) => r.code == 1 && if silent {
                r.message is None
            } else {
                r.message matches Some(m) && m.1 && m.0@ == "Uninstall failed:\n\n"@ + e.0@
            },
        },
{
    match result {
        Ok(_) => {
            if silent {
                CliExit { code: 0, message: None }
            } else {
                CliExit { code: 0, message: Some(("Flux has been uninstalled.".to_owned(), false)) }
            }
        },
        Err(e) => {
            if silent {
                CliExit { code: 1, message: None }
            } else {
                let mut t = String::new();
                t.append("Uninstall failed:\n\n");
                t.append(e.0.as_str());
                CliExit { code: 1, message: Some((t, true)) }
            }
        },
    }
}

// ---------------------------------------------------------------------
// The install flow of the wizard

/// The result the wizard shows at the end of an install or uninstall.
#[derive(Debug)]
pub struct Outcome {
    pub ok: bool,
    pub steps: Vec<String>,
    pub error: Option<String>,
}

/// The arguments of the elevated worker for an all-users install: a
/// headless all-users install that never launches the widget (the wizard
/// does that, unelevated), with each unchecked option negated.
pub open spec fn elevated_args_of(opts: InstallOptions) -> Seq<Seq<char>> {
    seq!["--apply"@, "--scope"@, "all-users"@, "--no-launch"@] + (if !opts.desktop_shortcut {
        seq!["--no-desktop"@]
    } else {
        Seq::empty()
    }) + (if !opts.run_at_startup {
        seq!["--no-startup"@]
    } else {
        Seq::empty()
    })
}

pub fn elevated_install_args(opts: InstallOptions) -> (r: Vec<String>)
    ensures
        views(r@) == elevated_args_of(opts),
{
    let mut v: Vec<String> = Vec::new();
    v.push("--apply".to_owned());
    v.push("--scope".to_owned());
    v.push("all-users".to_owned());
    v.push("--no-launch".to_owned());
    if !opts.desktop_shortcut {
        v.push("--no-desktop".to_owned());
    }
    if !opts.run_at_startup {
        v.push("--no-startup".to_owned());
    }
    assert(views(v@) =~= elevated_args_of(opts));
    v
}

/// Where an install from the wizard runs.
#[derive(Debug)]
pub enum InstallRoute {
    /// In this process: a per-user install, or the wizard is elevated.
    InProcess,
    /// In an elevated copy of the installer, with these arguments.
    Elevated(Vec<String>),
}

pub fn install_route(opts: InstallOptions, elevated: bool) -> (r: InstallRoute)
    ensures
        match r {
            InstallRoute::InProcess => opts.scope == Scope::PerUser || elevated,
            InstallRoute::Elevated(args) => !(opts.scope == Scope::PerUser || elevated) && views(
                args@,
            ) == elevated_args_of(opts),
        },
{
    if opts.scope == Scope::PerUser || elevated {
        InstallRoute::InProcess
    } else {
        InstallRoute::Elevated(elevated_install_args(opts))
    }
}

/// The outcome of an install or uninstall run in this process.
pub fn outcome_of(result: Result<Report, EngineError>) -> (r: Outcome)
    ensures
        match result {
            Ok(rep) => r.ok && views(r.steps@) == views(rep.steps@) && r.error is None,
            Err(e) => !r.ok && r.steps@.len() == 0 && (r.error matches Some(m) && m@ == e.0@),
        },
{
    match result {
        Ok(rep) => Outcome { ok: true, steps: rep.steps, error: None },
        Err(e) => Outcome { ok: false, steps: Vec::new(), error: Some(e.0) },
    }
}

/// What follows the elevated worker: the final outcome, or launching the
/// widget with these report lines so far.
#[derive(Debug)]
pub enum AfterElevated {
    Finished(Outcome),
    Launch(Vec<String>),
}

/// The line reporting an elevated install.
pub open spec fn elevated_done_line() -> Seq<char> {
    "Installed Flux (administrator)"@
}

/// Continue after the elevated worker: on exit code 0 the install is done
/// (and the widget launched next if asked for); any other code, a declined
/// prompt or a failed start is a failed install with its message.
pub fn after_elevated(opts: InstallOptions, result: Result<Option<i32>, EngineError>) -> (r: AfterElevated)
    ensures
        match result {
            Ok(Some(code)) => if code == 0 {
                if opts.launch_after {
                    r matches AfterElevated::Launch(steps) && views(steps@) == seq![
                        elevated_done_line(),
                    ]
                } else {
                    r matches AfterElevated::Finished(o) && o.ok && views(o.steps@) == seq![
                        elevated_done_line(),
                    ] && o.error is None
                }
            } else {
                r matches AfterElevated::Finished(o) && !o.ok && o.steps@.len() == 0 && (
                o.error matches Some(m) && m@ == "The installer exited with code "@ + decimal_text(
                    code as int,
                ) + "."@)
            },
            Ok(None) => r matches AfterElevated::Finished(o) && !o.ok && o.steps@.len() == 0 && (
            o.error matches Some(m) && m@ == "Administrator approval was declined."@),
            Err(e) => r matches AfterElevated::Finished(o) && !o.ok && o.steps@.len() == 0 && (
            o.error matches Some(m) && m@ == e.0@),
        },
{
    match result {
        Ok(Some(code)) => {
            if code == 0 {
                let mut steps: Vec<String> = Vec::new();
                steps.push("Installed Flux (administrator)".to_owned());
                assert(views(steps@) =~= seq![elevated_done_line()]);
                if opts.launch_after {
                    AfterElevated::Launch(steps)
                } else {
                    AfterElevated::Finished(Outcome { ok: true, steps, error: None })
                }
            } else {
                let mut m = String::new();
                m.append("The installer exited with code ");
                let c = i32_text(code);
                m.append(c.as_str());
                m.append(".");
                AfterElevated::Finished(Outcome { ok: false, steps: Vec::new(), error: Some(m) })
            }
        },
        Ok(None) => AfterElevated::Finished(
            Outcome {
                ok: false,
                steps: Vec::new(),
                error: Some("Administrator approval was declined.".to_owned()),
            },
        ),
        Err(e) => AfterElevated::Finished(Outcome { ok: false, steps: Vec::new(), error: Some(e.0) }),
    }
}

/// The outcome after launching the widget: the launch is reported when it
/// worked; when it failed the install still counts as done, with the
/// launch error shown.
pub fn after_launch(steps: Vec<String>, result: Result<(), EngineError>) -> (r: Outcome)
    ensures
        r.ok,
        match result {
            Ok(()) => views(r.steps@) == views(steps@).push("Launched Flux"@) && r.error is None,
            Err(e) => views(r.steps@) == views(steps@) && (r.error matches Some(m) && m@ == e.0@),
        },
{
    match result {
        Ok(()) => {
            let mut s = steps;
            let ghost before = views(s@);
            let line = "Launched Flux".to_owned();
            s.push(line);
            assert(views(s@) =~= before.push("Launched Flux"@));
            Outcome { ok: true, steps: s, error: None }
        },
        Err(e) => Outcome { ok: true, steps, error: Some(e.0) },
    }
}

// ---------------------------------------------------------------------
// The wizard

#[derive(Debug, Clone, Copy, PartialEq, Eq, Structural)]
pub enum WizardMode {
    Install,
    Uninstall,
}

#[derive(Debug, Clone, Copy, PartialEq, Eq, Structural)]
pub enum Page {
    Welcome,
    Options,
    Installing,
    Done,
    /// The first page of an uninstall: confirmation and "remove all".
    ConfirmUninstall,
}

/// What the user did in the wizard, or what a finished task reported.
#[derive(Debug)]
pub enum WizardMessage {
    Next,
    Back,
    SetScope(Scope),
    ToggleDesktop(bool),
    ToggleStartup(bool),
    ToggleLaunch(bool),
    StartInstall,
    Installed(Outcome),
    ToggleRemoveSettings(bool),
    StartUninstall,
    Uninstalled(Outcome),
    Finish,
}

/// The work a wizard step hands off.
#[derive(Debug)]
pub enum WizardTask {
    Nothing,
    Install(InstallOptions),
    Uninstall(UninstallOptions),
    Exit,
}

#[derive(Debug)]
pub struct Wizard {
    pub mode: WizardMode,
    pub page: Page,
    pub scope: Scope,
    pub desktop: bool,
    pub startup: bool,
    pub launch: bool,
    /// Uninstall: also remove settings, the sensor service and the driver.
    pub remove_settings: bool,
    pub outcome: Option<Outcome>,
    /// Opened on a given page for screenshots: placeholder paths are shown.
    pub qa: bool,
}

/// The report lines shown by the sample "done" page.
pub open spec fn sample_done_steps() -> Seq<Seq<char>> {
    seq![
        "Created C:\\Users\\you\\AppData\\Local\\Flux"@,
        "Installed flux.exe"@,
        "Installed uninstaller"@,
        "Created Start Menu shortcut"@,
        "Created desktop shortcut"@,
        "Registered in Add/Remove Programs"@,
        "Enabled start with Windows"@,
        "Launched Flux"@,
    ]
}

/// The page a wizard opens on: the page named after `--page` (`options`,
/// `installing`, `done`), else the uninstall confirmation when uninstalling,
/// else the welcome page.
pub open spec fn start_page(page_arg: Option<Seq<char>>, uninstall: bool) -> Page {
    if page_arg == Some("options"@) {
        Page::Options
    } else if page_arg == Some("installing"@) {
        Page::Installing
    } else if page_arg == Some("done"@) {
        Page::Done
    } else if uninstall {
        Page::ConfirmUninstall
    } else {
        Page::Welcome
    }
}

impl Wizard {
    /// The wizard for the program's full argument list (the program name
    /// first). Every option starts on; the scope comes from `--scope`.
    pub fn new(args: &[String]) -> (r: Wizard)
        requires
            args@.len() >= 1,
        ensures
            ({
                let a = views(args@);
                let rest = a.drop_first();
                let uninstall = has_arg(rest, seq!["uninstall"]);
                &&& r.qa == (value_of(a, seq!["page"]) is Some)
                &&& r.mode == (if uninstall {
                    WizardMode::Uninstall
                } else {
                    WizardMode::Install
                })
                &&& r.page == start_page(value_of(a, seq!["page"]), uninstall)
                &&& r.scope == scope_arg(rest)
                &&& r.desktop && r.startup && r.launch && r.remove_settings
                &&& (r.page == Page::Done ==> (r.outcome matches Some(o) && o.ok && views(o.steps@)
                    == sample_done_steps() && o.error is None))
                &&& (r.page != Page::Done ==> r.outcome is None)
            }),
    {
        let page_names = ["page"];
        assert(page_names@ =~= seq!["page"]);
        let page_arg = value(args, page_names.as_slice());
        let qa = page_arg.is_some();
        let mut rest_v: Vec<String> = Vec::new();
        let mut i: usize = 1;
        while i < args.len()
            invariant
                1 <= i <= args@.len(),
                views(rest_v@) == views(args@).subrange(1, i as int),
            decreases args@.len() - i,
        {
            let ghost before = rest_v@;
            rest_v.push(args[i].clone());
            assert(views(rest_v@) =~= views(before).push(args@[i as int]@));
            i = i + 1;
            assert(views(rest_v@) =~= views(args@).subrange(1, i as int));
        }
        let rest = rest_v.as_slice();
        assert(views(rest@) =~= views(args@).drop_first());
        let un = ["uninstall"];
        assert(un@ =~= seq!["uninstall"]);
        let uninstall = has(rest, un.as_slice());
        let ghost pa = match page_arg {
            Some(p) => Some(p@),
            None => None::<Seq<char>>,
        };
        let (page, outcome) = match page_arg {
            Some(p) => {
                if eq_str_str(p, "options") {
                    (Page::Options, None)
                } else if eq_str_str(p, "installing") {
                    (Page::Installing, None)
                } else if eq_str_str(p, "done") {
                    let mut steps: Vec<String> = Vec::new();
                    steps.push("Created C:\\Users\\you\\AppData\\Local\\Flux".to_owned());
                    steps.push("Installed flux.exe".to_owned());
                    steps.push("Installed uninstaller".to_owned());
                    steps.push("Created Start Menu shortcut".to_owned());
                    steps.push("Created desktop shortcut".to_owned());
                    steps.push("Registered in Add/Remove Programs".to_owned());
                    steps.push("Enabled start with Windows".to_owned());
                    steps.push("Launched Flux".to_owned());
                    assert(views(steps@) =~= sample_done_steps());
                    (Page::Done, Some(Outcome { ok: true, steps, error: None }))
                } else if uninstall {
                    (Page::ConfirmUninstall, None)
                } else {
                    (Page::Welcome, None)
                }
            },
            None => {
                if uninstall {
                    (Page::ConfirmUninstall, None)
                } else {
                    (Page::Welcome, None)
                }
            },
        };
        proof {
            reveal_strlit("options");
            reveal_strlit("installing");
            reveal_strlit("done");
            assert("options"@.len() == 7 && "installing"@.len() == 10 && "done"@.len() == 4);
        }
        Wizard {
            mode: if uninstall {
                WizardMode::Uninstall
            } else {
                WizardMode::Install
            },
            page,
            scope: scope(rest),
            desktop: true,
            startup: true,
            launch: true,
            remove_settings: true,
            outcome,
            qa,
        }
    }

    /// The install options chosen on the options page.
    pub fn options(&self) -> (r: InstallOptions)
        ensures
            r.scope == self.scope,
            r.desktop_shortcut == self.desktop,
            r.run_at_startup == self.startup,
            r.launch_after == self.launch,
    {
        InstallOptions {
            scope: self.scope,
            desktop_shortcut: self.desktop,
            run_at_startup: self.startup,
            launch_after: self.launch,
        }
    }

    /// Apply a message: move between pages, change an option, start the
    /// install or uninstall with the chosen options, show its outcome, or
    /// exit.
    pub fn update(&mut self, message: WizardMessage) -> (task: WizardTask)
        ensures
            final(self).mode == old(self).mode,
            final(self).qa == old(self).qa,
            match message {
                WizardMessage::Next => task is Nothing && final(self).page == Page::Options
                    && final(self).scope == old(self).scope,
                WizardMessage::Back => task is Nothing && final(self).page == Page::Welcome,
                WizardMessage::SetScope(s) => task is Nothing && final(self).scope == s
                    && final(self).page == old(self).page,
                WizardMessage::ToggleDesktop(v) => task is Nothing && final(self).desktop == v
                    && final(self).page == old(self).page,
                WizardMessage::ToggleStartup(v) => task is Nothing && final(self).startup == v
                    && final(self).page == old(self).page,
                WizardMessage::ToggleLaunch(v) => task is Nothing && final(self).launch == v
                    && final(self).page == old(self).page,
                WizardMessage::StartInstall => final(self).page == Page::Installing && (
                task matches WizardTask::Install(o) && o.scope == old(self).scope
                    && o.desktop_shortcut == old(self).desktop && o.run_at_startup == old(self).startup && o.launch_after == old(self).launch),
                WizardMessage::Installed(o) => task is Nothing && final(self).page == Page::Done
                    && final(self).outcome == Some(o),
                WizardMessage::ToggleRemoveSettings(v) => task is Nothing && final(self).remove_settings == v && final(self).page == old(self).page,
                WizardMessage::StartUninstall => final(self).page == Page::Installing && (
                task matches WizardTask::Uninstall(o) && o.scope == old(self).scope
                    && o.remove_settings == old(self).remove_settings),
                WizardMessage::Uninstalled(o) => task is Nothing && final(self).page == Page::Done
                    && final(self).outcome == Some(o),
                WizardMessage::Finish => task is Exit && final(self).page == old(self).page,
            },
    {
        match message {
            WizardMessage::Next => {
                self.page = Page::Options;
                WizardTask::Nothing
            },
            WizardMessage::Back => {
                self.page = Page::Welcome;
                WizardTask::Nothing
            },
            WizardMessage::SetScope(s) => {
                self.scope = s;
                WizardTask::Nothing
            },
            WizardMessage::ToggleDesktop(v) => {
                self.desktop = v;
                WizardTask::Nothing
            },
            WizardMessage::ToggleStartup(v) => {
                self.startup = v;
                WizardTask::Nothing
            },
            WizardMessage::ToggleLaunch(v) => {
                self.launch = v;
                WizardTask::Nothing
            },
            WizardMessage::StartInstall => {
                self.page = Page::Installing;
                WizardTask::Install(self.options())
            },
            WizardMessage::Installed(o) => {
                self.outcome = Some(o);
                self.page = Page::Done;
                WizardTask::Nothing
            },
            WizardMessage::ToggleRemoveSettings(v) => {
                self.remove_settings = v;
                WizardTask::Nothing
            },
            WizardMessage::StartUninstall => {
                self.page = Page::Installing;
                WizardTask::Uninstall(
                    UninstallOptions { scope: self.scope, remove_settings: self.remove_settings },
                )
            },
            WizardMessage::Uninstalled(o) => {
                self.outcome = Some(o);
                self.page = Page::Done;
                WizardTask::Nothing
            },
            WizardMessage::Finish => WizardTask::Exit,
        }
    }

    /// The step indicator: the current step and the number of steps (four
    /// for an install, three for an uninstall).
    pub fn step(&self) -> (r: (usize, usize))
        ensures
            r.1 == (if self.mode == WizardMode::Install {
                4usize
            } else {
                3usize
            }),
            r.0 == match (self.mode, self.page) {
                (WizardMode::Install, Page::Welcome) => 0usize,
                (WizardMode::Install, Page::Options) => 1,
                (WizardMode::Install, Page::Installing) => 2,
                (WizardMode::Install, Page::Done) => 3,
                (WizardMode::Uninstall, Page::ConfirmUninstall) => 0,
                (WizardMode::Uninstall, Page::Installing) => 1,
                (WizardMode::Uninstall, Page::Done) => 2,
                _ => 0,
            },
            r.0 < r.1,
    {
        let total: usize = match self.mode {
            WizardMode::Install => 4,
            WizardMode::Uninstall => 3,
        };
        let step: usize = match (self.mode, self.page) {
            (WizardMode::Install, Page::Welcome) => 0,
            (WizardMode::Install, Page::Options) => 1,
            (WizardMode::Install, Page::Installing) => 2,
            (WizardMode::Install, Page::Done) => 3,
            (WizardMode::Uninstall, Page::ConfirmUninstall) => 0,
            (WizardMode::Uninstall, Page::Installing) => 1,
            (WizardMode::Uninstall, Page::Done) => 2,
            _ => 0,
        };
        (step, total)
    }
}

/// Equality of two string slices.
fn eq_str_str(a: &str, b: &str) -> (r: bool)
    ensures
        r == (a@ == b@),
{
    crate::text::str_eq(a, b)
}

// ---------------------------------------------------------------------
// The elevated worker receives the wizard's choices

proof fn lemma_norm_of_switch(full: Seq<char>, body: Seq<char>)
    requires
        full == seq!['-', '-'] + body,
        body.len() > 0,
        body[0] != '-' && body[0] != '/',
        forall|i: int| 0 <= i < body.len() ==> !('A' <= #[trigger] body[i] <= 'Z'),
    ensures
        norm_of(full) == body,
{
    assert(switch_prefix()[0] == '-');
    assert(full[0] == '-' && full[1] == '-');
    assert(full[2] == body[0]);
    crate::text::lemma_lead_in_unique(full, switch_prefix(), 2);
    assert(full.skip(2) =~= body);
    assert(lower_seq(body) =~= body);
}

proof fn lemma_norm_of_plain(body: Seq<char>)
    requires
        body.len() > 0,
        body[0] != '-' && body[0] != '/',
        forall|i: int| 0 <= i < body.len() ==> !('A' <= #[trigger] body[i] <= 'Z'),
    ensures
        norm_of(body) == body,
{
    crate::text::lemma_lead_in_unique(body, switch_prefix(), 0);
    assert(body.skip(0) =~= body);
    assert(lower_seq(body) =~= body);
}

proof fn lemma_not_named(n: Seq<char>, names: Seq<&str>)
    requires
        forall|j: int| 0 <= j < names.len() ==> n != (#[trigger] names[j])@,
    ensures
        !is_named(n, names),
{
}

/// Some argument is the switch `name` (after its leading `-`/`/` and
/// lowercasing).
pub open spec fn switch_given(args: Seq<Seq<char>>, name: Seq<char>) -> bool {
    exists|i: int| 0 <= i < args.len() && #[trigger] norm_of(args[i]) == name
}

proof fn lemma_switch_named(args: Seq<Seq<char>>, names: Seq<&str>, j: int)
    requires
        0 <= j < names.len(),
    ensures
        switch_given(args, names[j]@) ==> has_arg(args, names),
{
    if switch_given(args, names[j]@) {
        let i = choose|i: int| 0 <= i < args.len() && #[trigger] norm_of(args[i]) == names[j]@;
        assert(arg_named(args, names, i));
    }
}

proof fn lemma_named_switch(args: Seq<Seq<char>>, names: Seq<&str>)
    ensures
        has_arg(args, names) ==> exists|j: int| 0 <= j < names.len() && switch_given(args, #[trigger] names[j]@),
{
    if has_arg(args, names) {
        let i = choose|i: int| arg_named(args, names, i);
        let j = choose|j: int| 0 <= j < names.len() && norm_of(args[i]) == (#[trigger] names[j])@;
        assert(switch_given(args, names[j]@));
    }
}

/// The mode the switches select: any help switch (`help`, `h`, `?`) shows
/// the help; otherwise `uninstall` with any of the silent switches `s`,
/// `silent`, `q`, `quiet` (as the registered quiet uninstall command
/// passes) uninstalls headless, and `uninstall` without one opens the
/// uninstall wizard; otherwise `apply`, `install` or a silent switch alone
/// installs headless, and no such switch opens the wizard.
pub proof fn law_setup_mode_by_switches(args: Seq<Seq<char>>)
    ensures
        ({
            let help = switch_given(args, "help"@) || switch_given(args, "h"@) || switch_given(args, "?"@);
            let un = switch_given(args, "uninstall"@);
            let silent = switch_given(args, "s"@) || switch_given(args, "silent"@) || switch_given(
                args,
                "q"@,
            ) || switch_given(args, "quiet"@);
            let apply = switch_given(args, "apply"@) || switch_given(args, "install"@);
            &&& help ==> mode_of(args) == SetupMode::Help
            &&& !help && un && silent ==> mode_of(args) == SetupMode::SilentUninstall
            &&& !help && un && !silent ==> mode_of(args) == SetupMode::UninstallWizard
            &&& !help && !un && (apply || silent) ==> mode_of(args) == SetupMode::Apply
            &&& !help && !un && !apply && !silent ==> mode_of(args) == SetupMode::Wizard
        }),
{
    let hn = seq!["help", "h", "?"];
    let un = seq!["uninstall"];
    let sn = seq!["s", "silent", "q", "quiet"];
    let an = seq!["apply", "install"];
    assert(silent_names() =~= sn);
    lemma_named_switch(args, hn);
    lemma_named_switch(args, un);
    lemma_named_switch(args, sn);
    lemma_named_switch(args, an);
    lemma_switch_named(args, hn, 0);
    lemma_switch_named(args, hn, 1);
    lemma_switch_named(args, hn, 2);
    lemma_switch_named(args, un, 0);
    lemma_switch_named(args, sn, 0);
    lemma_switch_named(args, sn, 1);
    lemma_switch_named(args, sn, 2);
    lemma_switch_named(args, sn, 3);
    lemma_switch_named(args, an, 0);
    lemma_switch_named(args, an, 1);
    if has_arg(args, hn) {
        let j = choose|j: int| 0 <= j < hn.len() && switch_given(args, #[trigger] hn[j]@);
        assert(j == 0 || j == 1 || j == 2);
    }
    if has_arg(args, sn) {
        let j = choose|j: int| 0 <= j < sn.len() && switch_given(args, #[trigger] sn[j]@);
        assert(j == 0 || j == 1 || j == 2 || j == 3);
    }
    if has_arg(args, an) {
        let j = choose|j: int| 0 <= j < an.len() && switch_given(args, #[trigger] an[j]@);
        assert(j == 0 || j == 1);
    }
    if has_arg(args, un) {
        let j = choose|j: int| 0 <= j < un.len() && switch_given(args, #[trigger] un[j]@);
        assert(j == 0);
    }
}

/// The arguments the wizard gives its elevated worker select a headless
/// install for all users with the wizard's desktop and startup choices, and
/// no launch (the wizard launches the widget itself, unelevated).
pub proof fn law_elevated_worker_gets_choices(opts: InstallOptions)
    ensures
        mode_of(elevated_args_of(opts)) == SetupMode::Apply,
        apply_options_of(elevated_args_of(opts)) == (InstallOptions {
            scope: Scope::AllUsers,
            desktop_shortcut: opts.desktop_shortcut,
            run_at_startup: opts.run_at_startup,
            launch_after: false,
        }),
{
    reveal_strlit("--apply");
    reveal_strlit("apply");
    reveal_strlit("--scope");
    reveal_strlit("scope");
    reveal_strlit("all-users");
    reveal_strlit("per-user");
    reveal_strlit("--no-launch");
    reveal_strlit("no-launch");
    reveal_strlit("--no-desktop");
    reveal_strlit("no-desktop");
    reveal_strlit("--no-startup");
    reveal_strlit("no-startup");
    reveal_strlit("help");
    reveal_strlit("h");
    reveal_strlit("?");
    reveal_strlit("uninstall");
    reveal_strlit("s");
    reveal_strlit("silent");
    reveal_strlit("q");
    reveal_strlit("quiet");
    reveal_strlit("install");
    reveal_strlit("nodesktop");
    reveal_strlit("nostartup");
    reveal_strlit("nolaunch");
    let a = elevated_args_of(opts);
    assert("--apply"@ =~= seq!['-', '-'] + "apply"@);
    lemma_norm_of_switch("--apply"@, "apply"@);
    assert("--scope"@ =~= seq!['-', '-'] + "scope"@);
    lemma_norm_of_switch("--scope"@, "scope"@);
    lemma_norm_of_plain("all-users"@);
    assert("--no-launch"@ =~= seq!['-', '-'] + "no-launch"@);
    lemma_norm_of_switch("--no-launch"@, "no-launch"@);
    assert("--no-desktop"@ =~= seq!['-', '-'] + "no-desktop"@);
    lemma_norm_of_switch("--no-desktop"@, "no-desktop"@);
    assert("--no-startup"@ =~= seq!['-', '-'] + "no-startup"@);
    lemma_norm_of_switch("--no-startup"@, "no-startup"@);
    assert(a[0] == "--apply"@ && a[1] == "--scope"@ && a[2] == "all-users"@ && a[3]
        == "--no-launch"@);
    let d: int = if opts.desktop_shortcut {
        0
    } else {
        1
    };
    if !opts.desktop_shortcut {
        assert(a[4] == "--no-desktop"@);
    }
    if !opts.run_at_startup {
        assert(a[4 + d] == "--no-startup"@);
    }
    assert(a.len() == 4 + d + (if opts.run_at_startup {
        0int
    } else {
        1int
    }));
    // The normalised arguments are these words.
    assert forall|i: int| 0 <= i < a.len() implies {
        ||| norm_of(a[i]) == "apply"@
        ||| norm_of(a[i]) == "scope"@
        ||| norm_of(a[i]) == "all-users"@
        ||| norm_of(a[i]) == "no-launch"@
        ||| (norm_of(a[i]) == "no-desktop"@ && !opts.desktop_shortcut)
        ||| (norm_of(a[i]) == "no-startup"@ && !opts.run_at_startup)
    } by {
        if i >= 4 {
            if !opts.desktop_shortcut && i == 4 {
            } else {
                assert(a[i] == "--no-startup"@);
            }
        }
    }
    assert("uninstall"@[0] != "all-users"@[0] && "uninstall"@[0] != "no-launch"@[0]);
    assert("quiet"@[0] != "apply"@[0] && "quiet"@[0] != "scope"@[0]);
    assert("no-desktop"@[3] != "no-startup"@[3]);
    assert("nodesktop"@[0] != "all-users"@[0] && "nodesktop"@[2] != "no-launch"@[2]);
    assert("nostartup"@[0] != "all-users"@[0] && "nostartup"@[2] != "no-launch"@[2]);
    assert("apply"@[0] != "scope"@[0]);
    assert("install"@.len() == 7);
    assert forall|i: int| !arg_named(a, seq!["help", "h", "?"], i) by {
        if 0 <= i < a.len() {
            lemma_not_named(norm_of(a[i]), seq!["help", "h", "?"]);
        }
    }
    assert forall|i: int| !arg_named(a, seq!["uninstall"], i) by {
        if 0 <= i < a.len() {
            lemma_not_named(norm_of(a[i]), seq!["uninstall"]);
        }
    }
    assert(silent_names()[0]@ == "s"@ && silent_names()[1]@ == "silent"@ && silent_names()[2]@
        == "q"@ && silent_names()[3]@ == "quiet"@);
    assert forall|i: int| !arg_named(a, silent_names(), i) by {
        if 0 <= i < a.len() {
            lemma_not_named(norm_of(a[i]), silent_names());
        }
    }
    assert(seq!["apply", "install"][0]@ == norm_of(a[0]));
    assert(arg_named(a, seq!["apply", "install"], 0));
    assert(seq!["no-launch", "nolaunch"][0]@ == norm_of(a[3]));
    assert(arg_named(a, seq!["no-launch", "nolaunch"], 3));
    if opts.desktop_shortcut {
        assert forall|i: int| !arg_named(a, seq!["no-desktop", "nodesktop"], i) by {
            if 0 <= i < a.len() {
                lemma_not_named(norm_of(a[i]), seq!["no-desktop", "nodesktop"]);
            }
        }
    } else {
        assert(seq!["no-desktop", "nodesktop"][0]@ == norm_of(a[4]));
        assert(arg_named(a, seq!["no-desktop", "nodesktop"], 4));
    }
    if opts.run_at_startup {
        assert forall|i: int| !arg_named(a, seq!["no-startup", "nostartup"], i) by {
            if 0 <= i < a.len() {
                lemma_not_named(norm_of(a[i]), seq!["no-startup", "nostartup"]);
            }
        }
    } else {
        assert(seq!["no-startup", "nostartup"][0]@ == norm_of(a[4 + d]));
        assert(arg_named(a, seq!["no-startup", "nostartup"], 4 + d));
    }
    lemma_not_named(norm_of(a[0]), seq!["scope"]);
    assert(!arg_named(a, seq!["scope"], 0));
    assert(seq!["scope"][0]@ == norm_of(a[1]));
    assert(arg_named(a, seq!["scope"], 1));
    reveal_with_fuel(first_named_from, 3);
    assert(first_named_from(a, seq!["scope"], 0) == Some(1int));
    assert(value_of(a, seq!["scope"]) == Some("all-users"@));
    assert("all-users"@.len() != "per-user"@.len());
}

} // verus!
