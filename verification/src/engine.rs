//! The installer's engine: install scopes and options, the ordered steps of
//! an install and of an uninstall with the report each leaves, and the
//! commands and registry entries the steps write. The caller performs each
//! step (files, registry, shell) and reports how it went; these functions
//! decide what comes next and what the user is told.

use vstd::prelude::*;
use crate::text::{
    chars_of, contains, contains_str, join, join_vec, lossy_text, opt_view, str_eq, string_of, trim, trim_vec,
    utf8_lossy,
};

verus! {

/// Display name, and the name of the install directory and shortcuts.
pub const APP_NAME: &'static str = "Flux";
/// File name of the installed widget.
pub const EXE_NAME: &'static str = "flux.exe";
/// File name the installer copies itself to, to act as the uninstaller.
pub const UNINSTALL_EXE: &'static str = "uninstall.exe";
pub const PUBLISHER: &'static str = "Matt Hakes";

/// Where Flux is installed, and so which registry hive and shell folders
/// are used.
#[derive(Debug, Clone, Copy, PartialEq, Eq, Structural)]
pub enum Scope {
    /// `%LOCALAPPDATA%\Flux`, the current user's hive, no elevation.
    PerUser,
    /// `%ProgramFiles%\Flux`, the machine hive, needs elevation.
    AllUsers,
}

/// The command-line spelling of a scope.
pub open spec fn flag_of(s: Scope) -> Seq<char> {
    match s {
        Scope::PerUser => "per-user"@,
        Scope::AllUsers => "all-users"@,
    }
}

/// The scope a command-line value names.
pub open spec fn scope_of(t: Seq<char>) -> Option<Scope> {
    if t == "per-user"@ {
        Some(Scope::PerUser)
    } else if t == "all-users"@ {
        Some(Scope::AllUsers)
    } else {
        None
    }
}

impl Scope {
    pub fn as_flag(self) -> (r: &'static str)
        ensures
            r@ == flag_of(self),
    {
        match self {
            Scope::PerUser => "per-user",
            Scope::AllUsers => "all-users",
        }
    }

    pub fn parse(s: &str) -> (r: Option<Scope>)
        ensures
            r == scope_of(s@),
    {
        if str_eq(s, "per-user") {
            Some(Scope::PerUser)
        } else if str_eq(s, "all-users") {
            Some(Scope::AllUsers)
        } else {
            None
        }
    }
}

/// A scope's flag parses back to it, and only its flag does.
pub proof fn law_scope_flag_round_trip(s: Scope, t: Seq<char>)
    ensures
        scope_of(flag_of(s)) == Some(s),
        scope_of(t) == Some(s) ==> t == flag_of(s),
{
    reveal_strlit("per-user");
    reveal_strlit("all-users");
    assert("per-user"@.len() == 8 && "all-users"@.len() == 9);
}

#[derive(Debug, Clone, Copy)]
pub struct InstallOptions {
    pub scope: Scope,
    pub desktop_shortcut: bool,
    pub run_at_startup: bool,
    pub launch_after: bool,
}

#[derive(Debug, Clone, Copy)]
pub struct UninstallOptions {
    pub scope: Scope,
    /// Also delete the user's settings, themes and skins, the sensor service,
    /// the shared data and the temperature driver.
    pub remove_settings: bool,
}

/// The step-by-step log shown to the user.
#[derive(Debug)]
pub struct Report {
    pub steps: Vec<String>,
}

/// The views of a list of strings.
pub open spec fn views(v: Seq<String>) -> Seq<Seq<char>> {
    v.map_values(|s: String| s@)
}

impl Report {
    pub fn new() -> (r: Report)
        ensures
            r.steps@.len() == 0,
    {
        Report { steps: Vec::new() }
    }

    pub fn step(&mut self, msg: String)
        ensures
            final(self).steps@ == old(self).steps@.push(msg),
    {
        self.steps.push(msg);
    }
}

/// An installer failure, with the message shown to the user.
#[derive(Debug)]
pub struct EngineError(pub String);

impl EngineError {
    pub fn message(&self) -> (r: String)
        ensures
            r@ == self.0@,
    {
        self.0.clone()
    }
}

pub fn err(msg: String) -> (r: EngineError)
    ensures
        r.0@ == msg@,
{
    EngineError(msg)
}

// ---------------------------------------------------------------------
// Paths

/// A path joined with a relative name the way Windows paths are: a
/// backslash goes between them unless the base is empty, already ends with
/// a separator, or is a bare drive (`C:`).
pub open spec fn path_join(base: Seq<char>, name: Seq<char>) -> Seq<char> {
    if base.len() == 0 || base.last() == '\\' || base.last() == '/' || (base.len() == 2
        && base[1] == ':') {
        base + name
    } else {
        base + seq!['\\'] + name
    }
}

pub fn join_path(base: &str, name: &str) -> (r: String)
    ensures
        r@ == path_join(base@, name@),
{
    let b = chars_of(base);
    let mut out = String::new();
    out.append(base);
    let n = b.len();
    if !(n == 0 || b[n - 1] == '\\' || b[n - 1] == '/' || (n == 2 && b[1] == ':')) {
        out.append("\\");
        proof {
            reveal_strlit("\\");
        }
    }
    out.append(name);
    assert(out@ =~= path_join(base@, name@));
    out
}

/// The shell folders the installer uses.
#[derive(Debug, Clone, Copy, PartialEq, Eq, Structural)]
pub enum KnownFolder {
    LocalAppData,
    ProgramFiles,
    Programs,
    CommonPrograms,
    Desktop,
    PublicDesktop,
    RoamingAppData,
}

/// The folder an install goes under.
pub fn install_base(scope: Scope) -> (r: KnownFolder)
    ensures
        r == match scope {
            Scope::PerUser => KnownFolder::LocalAppData,
            Scope::AllUsers => KnownFolder::ProgramFiles,
        },
{
    match scope {
        Scope::PerUser => KnownFolder::LocalAppData,
        Scope::AllUsers => KnownFolder::ProgramFiles,
    }
}

/// The Start Menu programs folder of a scope.
pub fn start_menu_folder(scope: Scope) -> (r: KnownFolder)
    ensures
        r == match scope {
            Scope::PerUser => KnownFolder::Programs,
            Scope::AllUsers => KnownFolder::CommonPrograms,
        },
{
    match scope {
        Scope::PerUser => KnownFolder::Programs,
        Scope::AllUsers => KnownFolder::CommonPrograms,
    }
}

/// The desktop folder of a scope.
pub fn desktop_folder(scope: Scope) -> (r: KnownFolder)
    ensures
        r == match scope {
            Scope::PerUser => KnownFolder::Desktop,
            Scope::AllUsers => KnownFolder::PublicDesktop,
        },
{
    match scope {
        Scope::PerUser => KnownFolder::Desktop,
        Scope::AllUsers => KnownFolder::PublicDesktop,
    }
}

/// The install directory under its base folder.
pub fn install_dir(base: &str) -> (r: String)
    ensures
        r@ == path_join(base@, APP_NAME@),
{
    join_path(base, APP_NAME)
}

/// What starting the installed widget runs, and where.
#[derive(Debug)]
pub struct LaunchCommand {
    pub program: String,
    pub working_dir: String,
}

/// Start the installed widget from its install directory.
pub fn launch(dir: &str) -> (r: LaunchCommand)
    ensures
        r.program@ == path_join(dir@, EXE_NAME@),
        r.working_dir@ == dir@,
{
    LaunchCommand { program: join_path(dir, EXE_NAME), working_dir: dir.to_owned() }
}

// ---------------------------------------------------------------------
// Installing

/// The steps of an install.
#[derive(Debug, Clone, Copy, PartialEq, Eq, Structural)]
pub enum InstallAction {
    /// Stop the sensor service, which holds the widget exe open.
    StopSensorService,
    /// Force-close a running widget (current and former name).
    KillRunningWidget,
    /// Remove an install left under the former product name.
    RemoveLegacyInstall,
    CreateInstallDir,
    WriteWidgetExe,
    /// Start the sensor service stopped earlier, now on the new exe.
    StartSensorService,
    CopyUninstaller,
    WriteLicense,
    CreateStartMenuShortcut,
    CreateDesktopShortcut,
    RegisterUninstaller,
    EnableRunAtStartup,
    LaunchWidget,
}

/// One step when `b` holds, none otherwise.
pub open spec fn step_if(b: bool, a: InstallAction) -> Seq<InstallAction> {
    if b {
        seq![a]
    } else {
        Seq::empty()
    }
}

/// The first steps of an install: a running sensor service is stopped
/// before the running widget is closed and the exe written, and started
/// again after.
pub open spec fn install_head(restart_service: bool) -> Seq<InstallAction> {
    step_if(restart_service, InstallAction::StopSensorService) + seq![
        InstallAction::KillRunningWidget,
        InstallAction::RemoveLegacyInstall,
        InstallAction::CreateInstallDir,
        InstallAction::WriteWidgetExe,
    ] + step_if(restart_service, InstallAction::StartSensorService)
}

/// The remaining steps, the optional ones following the options.
pub open spec fn install_tail(opts: InstallOptions) -> Seq<InstallAction> {
    seq![
        InstallAction::CopyUninstaller,
        InstallAction::WriteLicense,
        InstallAction::CreateStartMenuShortcut,
    ] + step_if(opts.desktop_shortcut, InstallAction::CreateDesktopShortcut) + seq![
        InstallAction::RegisterUninstaller,
    ] + step_if(opts.run_at_startup, InstallAction::EnableRunAtStartup) + step_if(
        opts.launch_after,
        InstallAction::LaunchWidget,
    )
}

/// The steps of an install, in order.
pub open spec fn install_plan(opts: InstallOptions, restart_service: bool) -> Seq<InstallAction> {
    install_head(restart_service) + install_tail(opts)
}

/// A failure of this step ends the install with its error; the others are
/// best effort.
pub open spec fn is_fatal(a: InstallAction) -> bool {
    match a {
        InstallAction::StopSensorService => false,
        InstallAction::KillRunningWidget => false,
        InstallAction::RemoveLegacyInstall => false,
        InstallAction::StartSensorService => false,
        InstallAction::WriteLicense => false,
        _ => true,
    }
}

/// The report line a finished step leaves.
pub open spec fn install_message(a: InstallAction, dir: Seq<char>) -> Option<Seq<char>> {
    match a {
        InstallAction::CreateInstallDir => Some("Created "@ + dir),
        InstallAction::WriteWidgetExe => Some("Installed flux.exe"@),
        InstallAction::StartSensorService => Some("Restarted sensor service"@),
        InstallAction::CopyUninstaller => Some("Installed uninstaller"@),
        InstallAction::CreateStartMenuShortcut => Some("Created Start Menu shortcut"@),
        InstallAction::CreateDesktopShortcut => Some("Created desktop shortcut"@),
        InstallAction::RegisterUninstaller => Some("Registered in Add/Remove Programs"@),
        InstallAction::EnableRunAtStartup => Some("Enabled start with Windows"@),
        InstallAction::LaunchWidget => Some("Launched Flux"@),
        _ => None,
    }
}

/// The report lines of a sequence of finished steps.
pub open spec fn install_messages(done: Seq<InstallAction>, dir: Seq<char>) -> Seq<Seq<char>>
    decreases done.len(),
{
    if done.len() == 0 {
        Seq::empty()
    } else {
        let prev = install_messages(done.drop_last(), dir);
        match install_message(done.last(), dir) {
            Some(m) => prev.push(m),
            None => prev,
        }
    }
}

/// The refusal of a build that carries no widget to install.
pub open spec fn dev_build_message() -> Seq<char> {
    "This is a development build with no bundled Flux payload. Build with scripts/Build-Setup.ps1 to produce an installable exe."@
}

fn plan_vec(opts: InstallOptions, restart_service: bool) -> (r: Vec<InstallAction>)
    ensures
        r@ == install_plan(opts, restart_service),
{
    let mut v: Vec<InstallAction> = Vec::new();
    if restart_service {
        v.push(InstallAction::StopSensorService);
    }
    v.push(InstallAction::KillRunningWidget);
    v.push(InstallAction::RemoveLegacyInstall);
    v.push(InstallAction::CreateInstallDir);
    v.push(InstallAction::WriteWidgetExe);
    if restart_service {
        v.push(InstallAction::StartSensorService);
    }
    v.push(InstallAction::CopyUninstaller);
    v.push(InstallAction::WriteLicense);
    v.push(InstallAction::CreateStartMenuShortcut);
    if opts.desktop_shortcut {
        v.push(InstallAction::CreateDesktopShortcut);
    }
    v.push(InstallAction::RegisterUninstaller);
    if opts.run_at_startup {
        v.push(InstallAction::EnableRunAtStartup);
    }
    if opts.launch_after {
        v.push(InstallAction::LaunchWidget);
    }
    assert(v@ =~= install_plan(opts, restart_service));
    v
}

fn message_of(a: InstallAction, dir: &str) -> (r: Option<String>)
    ensures
        match r {
            Some(m) => install_message(a, dir@) == Some(m@),
            None => install_message(a, dir@) is None,
        },
{
    match a {
        InstallAction::CreateInstallDir => {
            let mut m = String::new();
            m.append("Created ");
            m.append(dir);
            Some(m)
        },
        InstallAction::WriteWidgetExe => Some("Installed flux.exe".to_owned()),
        InstallAction::StartSensorService => Some("Restarted sensor service".to_owned()),
        InstallAction::CopyUninstaller => Some("Installed uninstaller".to_owned()),
        InstallAction::CreateStartMenuShortcut => Some("Created Start Menu shortcut".to_owned()),
        InstallAction::CreateDesktopShortcut => Some("Created desktop shortcut".to_owned()),
        InstallAction::RegisterUninstaller => Some("Registered in Add/Remove Programs".to_owned()),
        InstallAction::EnableRunAtStartup => Some("Enabled start with Windows".to_owned()),
        InstallAction::LaunchWidget => Some("Launched Flux".to_owned()),
        _ => None,
    }
}

fn fatal(a: InstallAction) -> (r: bool)
    ensures
        r == is_fatal(a),
{
    match a {
        InstallAction::StopSensorService => false,
        InstallAction::KillRunningWidget => false,
        InstallAction::RemoveLegacyInstall => false,
        InstallAction::StartSensorService => false,
        InstallAction::WriteLicense => false,
        _ => true,
    }
}

/// An install in progress: its steps, how many are done, the report so
/// far, and the error that ended it, if one did.
#[derive(Debug)]
pub struct InstallRun {
    plan: Vec<InstallAction>,
    done: usize,
    dir: String,
    steps: Vec<String>,
    failure: Option<String>,
}

impl InstallRun {
    pub closed spec fn plan(&self) -> Seq<InstallAction> {
        self.plan@
    }

    pub closed spec fn done(&self) -> nat {
        self.done as nat
    }

    pub closed spec fn dir(&self) -> Seq<char> {
        self.dir@
    }

    pub closed spec fn report(&self) -> Seq<Seq<char>> {
        views(self.steps@)
    }

    pub closed spec fn failure(&self) -> Option<Seq<char>> {
        match self.failure {
            Some(e) => Some(e@),
            None => None,
        }
    }

    /// The report holds the lines of the finished steps, and a failure
    /// stands at a fatal step.
    pub open spec fn wf(&self) -> bool {
        &&& self.done() <= self.plan().len()
        &&& self.report() == install_messages(self.plan().take(self.done() as int), self.dir())
        &&& (self.failure() is Some ==> self.done() < self.plan().len() && is_fatal(
            self.plan()[self.done() as int],
        ))
    }

    /// Whether the install has ended, by completing every step or by a
    /// fatal failure.
    pub open spec fn finished(&self) -> bool {
        self.failure() is Some || self.done() == self.plan().len()
    }

    /// The step to perform next, if the install has not ended.
    pub fn next_action(&self) -> (r: Option<InstallAction>)
        requires
            self.wf(),
        ensures
            match r {
                Some(a) => !self.finished() && a == self.plan()[self.done() as int],
                None => self.finished(),
            },
    {
        if self.failure.is_some() || self.done >= self.plan.len() {
            None
        } else {
            Some(self.plan[self.done])
        }
    }

    /// Record how the next step went: a fatal step that failed ends the
    /// install with its error; otherwise the step is done and its report
    /// line, if it has one, is added.
    pub fn complete(&mut self, outcome: Result<(), String>)
        requires
            old(self).wf(),
            !old(self).finished(),
        ensures
            final(self).wf(),
            final(self).plan() == old(self).plan(),
            final(self).dir() == old(self).dir(),
            match outcome {
                Err(e) => if is_fatal(old(self).plan()[old(self).done() as int]) {
                    &&& final(self).failure() == Some(e@)
                    &&& final(self).done() == old(self).done()
                    &&& final(self).report() == old(self).report()
                } else {
                    &&& final(self).failure() is None
                    &&& final(self).done() == old(self).done() + 1
                },
                Ok(()) => {
                    &&& final(self).failure() is None
                    &&& final(self).done() == old(self).done() + 1
                },
            },
    {
        let n = self.plan.len();
        assert(self.done < n);
        let a = self.plan[self.done];
        match outcome {
            Err(e) => {
                if fatal(a) {
                    self.failure = Some(e);
                    return ;
                }
            },
            Ok(()) => {},
        }
        let ghost before = self.steps@;
        let ghost t = self.plan@.take(self.done + 1);
        assert(t.drop_last() =~= self.plan@.take(self.done as int));
        assert(t.last() == a);
        match message_of(a, self.dir.as_str()) {
            Some(m) => {
                self.steps.push(m);
                assert(views(self.steps@) =~= views(before).push(m@));
            },
            None => {},
        }
        self.done = self.done + 1;
    }

    /// The result of an ended install: the error that ended it, or the
    /// report of every step.
    pub fn finish(self) -> (r: Result<Report, EngineError>)
        requires
            self.wf(),
            self.finished(),
        ensures
            match self.failure() {
                Some(m) => r matches Err(e) && e.0@ == m,
                None => r matches Ok(rep) && views(rep.steps@) == install_messages(
                    self.plan(),
                    self.dir(),
                ),
            },
    {
        match self.failure {
            Some(m) => Err(EngineError(m)),
            None => {
                assert(self.plan@.take(self.plan@.len() as int) =~= self.plan@);
                Ok(Report { steps: self.steps })
            },
        }
    }
}

/// Begin an install: refused for a build without the widget payload, or
/// when the install directory could not be resolved; otherwise the run of
/// the install's steps for these options.
pub fn install(
    opts: InstallOptions,
    bundled: bool,
    dir: Result<String, EngineError>,
    restart_service: bool,
) -> (r: Result<InstallRun, EngineError>)
    ensures
        !bundled ==> (r matches Err(e) && e.0@ == dev_build_message()),
        bundled ==> match dir {
            Err(e) => r matches Err(e2) && e2.0@ == e.0@,
            Ok(d) => r matches Ok(run) && {
                &&& run.wf()
                &&& run.plan() == install_plan(opts, restart_service)
                &&& run.done() == 0
                &&& run.dir() == d@
                &&& run.failure() is None
            },
        },
{
    if !bundled {
        return Err(
            EngineError(
                "This is a development build with no bundled Flux payload. Build with scripts/Build-Setup.ps1 to produce an installable exe.".to_owned(),
            ),
        );
    }
    let d = match dir {
        Ok(d) => d,
        Err(e) => {
            return Err(e);
        },
    };
    let plan = plan_vec(opts, restart_service);
    let run = InstallRun { plan, done: 0, dir: d, steps: Vec::new(), failure: None };
    assert(run.plan@.take(0) =~= Seq::<InstallAction>::empty());
    assert(views(run.steps@) =~= Seq::<Seq<char>>::empty());
    Ok(run)
}

/// A step of the tail of an install.
pub open spec fn is_tail_action(a: InstallAction) -> bool {
    match a {
        InstallAction::CopyUninstaller => true,
        InstallAction::WriteLicense => true,
        InstallAction::CreateStartMenuShortcut => true,
        InstallAction::CreateDesktopShortcut => true,
        InstallAction::RegisterUninstaller => true,
        InstallAction::EnableRunAtStartup => true,
        InstallAction::LaunchWidget => true,
        _ => false,
    }
}

proof fn lemma_tail_actions(opts: InstallOptions)
    ensures
        forall|k: int|
            0 <= k < install_tail(opts).len() ==> is_tail_action(#[trigger] install_tail(opts)[k]),
{
    let a = seq![
        InstallAction::CopyUninstaller,
        InstallAction::WriteLicense,
        InstallAction::CreateStartMenuShortcut,
    ];
    let b = a + step_if(opts.desktop_shortcut, InstallAction::CreateDesktopShortcut);
    let c = b + seq![InstallAction::RegisterUninstaller];
    let d = c + step_if(opts.run_at_startup, InstallAction::EnableRunAtStartup);
    let e = d + step_if(opts.launch_after, InstallAction::LaunchWidget);
    assert(forall|k: int| 0 <= k < a.len() ==> is_tail_action(#[trigger] a[k]));
    assert(forall|k: int| 0 <= k < b.len() ==> is_tail_action(#[trigger] b[k]));
    assert(forall|k: int| 0 <= k < c.len() ==> is_tail_action(#[trigger] c[k]));
    assert(forall|k: int| 0 <= k < d.len() ==> is_tail_action(#[trigger] d[k]));
    assert(forall|k: int| 0 <= k < e.len() ==> is_tail_action(#[trigger] e[k]));
    assert(e == install_tail(opts));
}

/// The widget exe is written only after the running widget is closed, and
/// when the sensor service was running, after it is stopped and before it
/// is started again.
pub proof fn law_exe_written_after_stops(opts: InstallOptions, restart_service: bool, i: int, j: int)
    requires
        0 <= i < install_plan(opts, restart_service).len(),
        0 <= j < install_plan(opts, restart_service).len(),
    ensures
        ({
            let p = install_plan(opts, restart_service);
            &&& (p[i] == InstallAction::KillRunningWidget && p[j] == InstallAction::WriteWidgetExe)
                ==> i < j
            &&& (p[i] == InstallAction::StopSensorService && p[j] == InstallAction::WriteWidgetExe)
                ==> i < j
            &&& (p[i] == InstallAction::WriteWidgetExe && p[j] == InstallAction::StartSensorService)
                ==> i < j
        }),
{
    let h = install_head(restart_service);
    let t = install_tail(opts);
    lemma_tail_actions(opts);
    if restart_service {
        assert(h =~= seq![
            InstallAction::StopSensorService,
            InstallAction::KillRunningWidget,
            InstallAction::RemoveLegacyInstall,
            InstallAction::CreateInstallDir,
            InstallAction::WriteWidgetExe,
            InstallAction::StartSensorService,
        ]);
    } else {
        assert(h =~= seq![
            InstallAction::KillRunningWidget,
            InstallAction::RemoveLegacyInstall,
            InstallAction::CreateInstallDir,
            InstallAction::WriteWidgetExe,
        ]);
    }
    if i >= h.len() {
        assert(is_tail_action(t[i - h.len()]));
    }
    if j >= h.len() {
        assert(is_tail_action(t[j - h.len()]));
    }
}

/// The optional steps are there exactly when their option is on, the
/// service steps exactly when the service was running, and a launch comes
/// last.
pub proof fn law_install_follows_options(opts: InstallOptions, restart_service: bool)
    ensures
        ({
            let p = install_plan(opts, restart_service);
            &&& p.contains(InstallAction::CreateDesktopShortcut) == opts.desktop_shortcut
            &&& p.contains(InstallAction::EnableRunAtStartup) == opts.run_at_startup
            &&& p.contains(InstallAction::LaunchWidget) == opts.launch_after
            &&& p.contains(InstallAction::StopSensorService) == restart_service
            &&& p.contains(InstallAction::StartSensorService) == restart_service
            &&& opts.launch_after ==> p.last() == InstallAction::LaunchWidget
            &&& p.contains(InstallAction::WriteWidgetExe)
        }),
{
    let h = install_head(restart_service);
    let a = seq![
        InstallAction::CopyUninstaller,
        InstallAction::WriteLicense,
        InstallAction::CreateStartMenuShortcut,
    ];
    let b = a + step_if(opts.desktop_shortcut, InstallAction::CreateDesktopShortcut);
    let c = b + seq![InstallAction::RegisterUninstaller];
    let d = c + step_if(opts.run_at_startup, InstallAction::EnableRunAtStartup);
    let e = d + step_if(opts.launch_after, InstallAction::LaunchWidget);
    let p = install_plan(opts, restart_service);
    assert(p == h + e);
    if restart_service {
        assert(h =~= seq![
            InstallAction::StopSensorService,
            InstallAction::KillRunningWidget,
            InstallAction::RemoveLegacyInstall,
            InstallAction::CreateInstallDir,
            InstallAction::WriteWidgetExe,
            InstallAction::StartSensorService,
        ]);
        assert(p[0] == InstallAction::StopSensorService);
        assert(p[5] == InstallAction::StartSensorService);
    } else {
        assert(h =~= seq![
            InstallAction::KillRunningWidget,
            InstallAction::RemoveLegacyInstall,
            InstallAction::CreateInstallDir,
            InstallAction::WriteWidgetExe,
        ]);
    }
    assert(p[h.len() - 1 - (if restart_service { 1int } else { 0int })] == InstallAction::WriteWidgetExe);
    lemma_tail_actions(opts);
    assert forall|k: int| 0 <= k < p.len() && (#[trigger] p[k] == InstallAction::StopSensorService
        || p[k] == InstallAction::StartSensorService) implies restart_service by {
        if k >= h.len() {
            assert(is_tail_action(e[k - h.len()]));
        }
    }
    assert forall|k: int| 0 <= k < p.len() && #[trigger] p[k] == InstallAction::CreateDesktopShortcut
        implies opts.desktop_shortcut by {
        if k >= h.len() {
            let m = k - h.len();
            if m >= b.len() {
                assert(e[m] == d[m]);
                assert(d[m] == c[m] || m >= c.len());
            }
        }
    }
    assert forall|k: int| 0 <= k < p.len() && #[trigger] p[k] == InstallAction::EnableRunAtStartup
        implies opts.run_at_startup by {
        if k >= h.len() {
            let m = k - h.len();
            if m >= d.len() {
                assert(e[m] == step_if(opts.launch_after, InstallAction::LaunchWidget)[m - d.len()]);
            } else {
                assert(e[m] == d[m]);
            }
        }
    }
    assert forall|k: int| 0 <= k < p.len() && #[trigger] p[k] == InstallAction::LaunchWidget
        implies opts.launch_after by {
        if k >= h.len() {
            let m = k - h.len();
            if m < d.len() {
                assert(e[m] == d[m]);
            }
        }
    }
    if opts.desktop_shortcut {
        assert(p[h.len() + 3int] == InstallAction::CreateDesktopShortcut);
    }
    if opts.run_at_startup {
        assert(p[(h.len() + c.len()) as int] == InstallAction::EnableRunAtStartup);
    }
    if opts.launch_after {
        assert(p[p.len() - 1] == InstallAction::LaunchWidget);
    }
}

// ---------------------------------------------------------------------
// Uninstalling

/// The steps of an uninstall. None of them can fail the uninstall.
#[derive(Debug, Clone, Copy, PartialEq, Eq, Structural)]
pub enum UninstallAction {
    /// Close the widget and remove the sensor service.
    StopFlux,
    RemoveShortcuts,
    /// The startup entry and the Add/Remove Programs entry.
    RemoveRegistryEntries,
    RemoveFirewallRule,
    RemoveUserSettings,
    /// The sensor service, the shared data and the temperature driver, in one
    /// elevated command.
    RemoveSharedData,
    /// The widget exe now, the install directory once the uninstaller exits.
    RemoveProgramFiles,
}

/// The steps of an uninstall, in order.
pub open spec fn uninstall_plan(opts: UninstallOptions) -> Seq<UninstallAction> {
    seq![
        UninstallAction::StopFlux,
        UninstallAction::RemoveShortcuts,
        UninstallAction::RemoveRegistryEntries,
        UninstallAction::RemoveFirewallRule,
    ] + (if opts.remove_settings {
        seq![UninstallAction::RemoveUserSettings, UninstallAction::RemoveSharedData]
    } else {
        Seq::empty()
    }) + seq![UninstallAction::RemoveProgramFiles]
}

/// The report line of an uninstall step.
pub open spec fn uninstall_message(a: UninstallAction) -> Seq<char> {
    match a {
        UninstallAction::StopFlux => "Stopped Flux"@,
        UninstallAction::RemoveShortcuts => "Removed shortcuts"@,
        UninstallAction::RemoveRegistryEntries => "Removed registry entries"@,
        UninstallAction::RemoveFirewallRule => "Removed firewall rule"@,
        UninstallAction::RemoveUserSettings => "Removed user settings"@,
        UninstallAction::RemoveSharedData => "Removed sensor service, shared data, and PawnIO driver"@,
        UninstallAction::RemoveProgramFiles => "Removed program files"@,
    }
}

/// Steps that are reported only when they found something to act on: a
/// firewall rule that existed, a settings folder that was located.
pub open spec fn reported_if_applied(a: UninstallAction) -> bool {
    a == UninstallAction::RemoveFirewallRule || a == UninstallAction::RemoveUserSettings
}

fn uninstall_plan_vec(opts: UninstallOptions) -> (r: Vec<UninstallAction>)
    ensures
        r@ == uninstall_plan(opts),
{
    let mut v: Vec<UninstallAction> = Vec::new();
    v.push(UninstallAction::StopFlux);
    v.push(UninstallAction::RemoveShortcuts);
    v.push(UninstallAction::RemoveRegistryEntries);
    v.push(UninstallAction::RemoveFirewallRule);
    if opts.remove_settings {
        v.push(UninstallAction::RemoveUserSettings);
        v.push(UninstallAction::RemoveSharedData);
    }
    v.push(UninstallAction::RemoveProgramFiles);
    assert(v@ =~= uninstall_plan(opts));
    v
}

fn uninstall_message_of(a: UninstallAction) -> (r: String)
    ensures
        r@ == uninstall_message(a),
{
    match a {
        UninstallAction::StopFlux => "Stopped Flux".to_owned(),
        UninstallAction::RemoveShortcuts => "Removed shortcuts".to_owned(),
        UninstallAction::RemoveRegistryEntries => "Removed registry entries".to_owned(),
        UninstallAction::RemoveFirewallRule => "Removed firewall rule".to_owned(),
        UninstallAction::RemoveUserSettings => "Removed user settings".to_owned(),
        UninstallAction::RemoveSharedData => "Removed sensor service, shared data, and PawnIO driver".to_owned(),
        UninstallAction::RemoveProgramFiles => "Removed program files".to_owned(),
    }
}

/// An uninstall in progress.
#[derive(Debug)]
pub struct UninstallRun {
    plan: Vec<UninstallAction>,
    done: usize,
    steps: Vec<String>,
}

impl UninstallRun {
    pub closed spec fn plan(&self) -> Seq<UninstallAction> {
        self.plan@
    }

    pub closed spec fn done(&self) -> nat {
        self.done as nat
    }

    pub closed spec fn report(&self) -> Seq<Seq<char>> {
        views(self.steps@)
    }

    pub open spec fn wf(&self) -> bool {
        self.done() <= self.plan().len()
    }

    /// The step to perform next, if any is left.
    pub fn next_action(&self) -> (r: Option<UninstallAction>)
        requires
            self.wf(),
        ensures
            match r {
                Some(a) => self.done() < self.plan().len() && a == self.plan()[self.done() as int],
                None => self.done() == self.plan().len(),
            },
    {
        if self.done < self.plan.len() {
            Some(self.plan[self.done])
        } else {
            None
        }
    }

    /// Record that the next step was performed; `applied` tells whether it
    /// found something to act on. Its report line is added unless it is a
    /// step reported only when applied and it was not.
    pub fn complete(&mut self, applied: bool)
        requires
            old(self).wf(),
            old(self).done() < old(self).plan().len(),
        ensures
            final(self).wf(),
            final(self).plan() == old(self).plan(),
            final(self).done() == old(self).done() + 1,
            ({
                let a = old(self).plan()[old(self).done() as int];
                final(self).report() == if applied || !reported_if_applied(a) {
                    old(self).report().push(uninstall_message(a))
                } else {
                    old(self).report()
                }
            }),
    {
        let n = self.plan.len();
        assert(self.done < n);
        let a = self.plan[self.done];
        let conditional = match a {
            UninstallAction::RemoveFirewallRule => true,
            UninstallAction::RemoveUserSettings => true,
            _ => false,
        };
        if applied || !conditional {
            let ghost before = self.steps@;
            let m = uninstall_message_of(a);
            self.steps.push(m);
            assert(views(self.steps@) =~= views(before).push(m@));
        }
        self.done = self.done + 1;
    }

    /// The report of a finished uninstall.
    pub fn finish(self) -> (r: Report)
        requires
            self.wf(),
            self.done() == self.plan().len(),
        ensures
            views(r.steps@) == self.report(),
    {
        Report { steps: self.steps }
    }
}

/// Begin an uninstall: refused only when the install directory could not be
/// resolved.
pub fn uninstall(opts: UninstallOptions, dir: Result<String, EngineError>) -> (r: Result<
    UninstallRun,
    EngineError,
>)
    ensures
        match dir {
            Err(e) => r matches Err(e2) && e2.0@ == e.0@,
            Ok(_) => r matches Ok(run) && {
                &&& run.wf()
                &&& run.plan() == uninstall_plan(opts)
                &&& run.done() == 0
                &&& run.report().len() == 0
            },
        },
{
    match dir {
        Err(e) => Err(e),
        Ok(_) => {
            let run = UninstallRun { plan: uninstall_plan_vec(opts), done: 0, steps: Vec::new() };
            assert(views(run.steps@) =~= Seq::<Seq<char>>::empty());
            Ok(run)
        },
    }
}

// ---------------------------------------------------------------------
// Commands and registry entries

/// The Add/Remove Programs uninstall command: the quoted uninstaller, the
/// uninstall switch and the scope.
pub open spec fn uninstall_command_of(uninstaller: Seq<char>, scope: Scope) -> Seq<char> {
    "\""@ + uninstaller + "\" --uninstall --scope "@ + flag_of(scope)
}

/// The Add/Remove Programs entry for an install.
#[derive(Debug)]
pub struct ArpEntry {
    pub display_name: String,
    pub display_version: String,
    pub publisher: String,
    pub display_icon: String,
    pub install_location: String,
    pub uninstall_string: String,
    pub quiet_uninstall_string: String,
    pub url_info_about: String,
    pub estimated_size_kb: u32,
}

/// The Add/Remove Programs entry for an install in `dir`: the uninstall
/// command runs the uninstaller copied there with the install's scope, and
/// the quiet one adds the silent switch.
pub fn arp_entry(dir: &str, scope: Scope, version: &str, size_kb: u32) -> (r: ArpEntry)
    ensures
        r.display_name@ == APP_NAME@,
        r.display_version@ == version@,
        r.publisher@ == PUBLISHER@,
        r.display_icon@ == path_join(dir@, EXE_NAME@),
        r.install_location@ == dir@,
        r.uninstall_string@ == uninstall_command_of(path_join(dir@, UNINSTALL_EXE@), scope),
        r.quiet_uninstall_string@ == uninstall_command_of(path_join(dir@, UNINSTALL_EXE@), scope)
            + " --silent"@,
        r.url_info_about@ == "https://github.com/DruidFluids/Flux"@,
        r.estimated_size_kb == size_kb,
{
    let uninstaller = join_path(dir, UNINSTALL_EXE);
    let mut cmd = String::new();
    cmd.append("\"");
    cmd.append(uninstaller.as_str());
    cmd.append("\" --uninstall --scope ");
    cmd.append(scope.as_flag());
    assert(cmd@ =~= uninstall_command_of(uninstaller@, scope));
    let mut quiet = cmd.clone();
    quiet.append(" --silent");
    ArpEntry {
        display_name: APP_NAME.to_owned(),
        display_version: version.to_owned(),
        publisher: PUBLISHER.to_owned(),
        display_icon: join_path(dir, EXE_NAME),
        install_location: dir.to_owned(),
        uninstall_string: cmd,
        quiet_uninstall_string: quiet,
        url_info_about: "https://github.com/DruidFluids/Flux".to_owned(),
        estimated_size_kb: size_kb,
    }
}

/// The install size reported to Add/Remove Programs: the total in KiB,
/// capped to 32 bits.
pub fn size_estimate_kb(total_bytes: u64) -> (r: u32)
    ensures
        r == if total_bytes / 1024 > u32::MAX {
            u32::MAX as int
        } else {
            (total_bytes / 1024) as int
        },
{
    let kb = total_bytes / 1024;
    if kb > 0xFFFF_FFFF {
        0xFFFF_FFFF
    } else {
        kb as u32
    }
}

/// The temperature driver's silent uninstall command, if it is installed:
/// its quiet uninstall string, else its plain one, unless blank.
pub fn pawnio_uninstall_string(quiet: Option<String>, plain: Option<String>) -> (r: Option<String>)
    ensures
        ({
            let chosen = match quiet {
                Some(q) => Some(q),
                None => plain,
            };
            match chosen {
                Some(s) => if trim(s@).len() == 0 {
                    r is None
                } else {
                    r matches Some(t) && t@ == s@
                },
                None => r is None,
            }
        }),
{
    let chosen = match quiet {
        Some(q) => Some(q),
        None => plain,
    };
    match chosen {
        Some(s) => {
            let cs = chars_of(s.as_str());
            let t = trim_vec(cs.as_slice());
            if t.len() == 0 {
                None
            } else {
                Some(s)
            }
        },
        None => None,
    }
}

/// The fixed parts of the elevated clean-up: stop and delete the sensor
/// service, delete the shared data folder.
pub open spec fn cleanup_parts(pawnio: Option<Seq<char>>) -> Seq<Seq<char>> {
    let fixed = seq![
        "sc stop FluxSensorService >nul 2>&1"@,
        "sc delete FluxSensorService >nul 2>&1"@,
        "rmdir /s /q \"%ProgramData%\\Flux\" >nul 2>&1"@,
    ];
    match pawnio {
        Some(u) => fixed.push(u),
        None => fixed,
    }
}

/// The command-interpreter parameters of the elevated clean-up: every part
/// joined with ` & `, after `/c `; the driver's uninstall command last.
pub fn cleanup_command(pawnio: Option<String>) -> (r: String)
    ensures
        r@ == "/c "@ + join(cleanup_parts(opt_view(pawnio)), " & "@),
{
    let mut parts: Vec<Vec<char>> = Vec::new();
    parts.push(chars_of("sc stop FluxSensorService >nul 2>&1"));
    parts.push(chars_of("sc delete FluxSensorService >nul 2>&1"));
    parts.push(chars_of("rmdir /s /q \"%ProgramData%\\Flux\" >nul 2>&1"));
    let ghost pv = opt_view(pawnio);
    match &pawnio {
        Some(u) => {
            parts.push(chars_of(u.as_str()));
        },
        None => {},
    }
    assert(parts@.map_values(|v: Vec<char>| v@) =~= cleanup_parts(pv));
    let sep = chars_of(" & ");
    let joined = join_vec(&parts, sep.as_slice());
    let mut out = String::new();
    out.append("/c ");
    let j = string_of(joined.as_slice());
    out.append(j.as_str());
    out
}

/// The detached command that deletes the install directory a moment after
/// the uninstaller exits.
pub fn dir_removal_command(dir: &str) -> (r: String)
    ensures
        r@ == "/C ping 127.0.0.1 -n 3 >nul & rmdir /S /Q \""@ + dir@ + "\""@,
{
    let mut out = String::new();
    out.append("/C ping 127.0.0.1 -n 3 >nul & rmdir /S /Q \"");
    out.append(dir);
    out.append("\"");
    out
}

/// The name of the remote-monitoring firewall rule.
pub const FIREWALL_RULE: &'static str = "Flux Remote Sensor";

/// The `netsh` arguments that delete the remote-monitoring firewall rule.
pub fn firewall_delete_args() -> (r: String)
    ensures
        r@ == "advfirewall firewall delete rule name=\""@ + FIREWALL_RULE@ + "\""@,
{
    let mut out = String::new();
    out.append("advfirewall firewall delete rule name=\"");
    out.append(FIREWALL_RULE);
    out.append("\"");
    out
}

/// The parameters an elevated relaunch passes: the arguments joined by
/// spaces.
pub fn elevated_params(args: &Vec<String>) -> (r: String)
    ensures
        r@ == join(views(args@), " "@),
{
    let mut parts: Vec<Vec<char>> = Vec::new();
    let mut i: usize = 0;
    while i < args.len()
        invariant
            i <= args@.len(),
            parts@.map_values(|v: Vec<char>| v@) == views(args@).take(i as int),
        decreases args@.len() - i,
    {
        let c = chars_of(args[i].as_str());
        assert(c@ == views(args@)[i as int]);
        let ghost before = parts@;
        parts.push(c);
        assert(parts@.map_values(|v: Vec<char>| v@) =~= before.map_values(|v: Vec<char>| v@).push(
            c@,
        ));
        i = i + 1;
        assert(parts@.map_values(|v: Vec<char>| v@) =~= views(args@).take(i as int));
    }
    assert(views(args@).take(args@.len() as int) =~= views(args@));
    let sep = chars_of(" ");
    let j = join_vec(&parts, sep.as_slice());
    string_of(j.as_slice())
}

/// How an elevated relaunch went.
#[derive(Debug)]
pub enum ElevatedLaunch {
    /// It started; `handle_valid` tells whether its process handle was
    /// valid, and then it was waited for and exited with `exit_code`.
    Started { handle_valid: bool, exit_code: u32 },
    /// The user declined the elevation prompt.
    Cancelled,
    /// It could not be started for another reason.
    Failed,
}

/// The elevated child's exit code (a code reinterpreted as signed), once it
/// has exited; nothing when the user declined. A child that cannot be
/// waited on (no process handle) is a launch failure: no code is reported
/// for a child that was not waited for.
pub fn relaunch_elevated_wait(launch: ElevatedLaunch) -> (r: Result<Option<i32>, EngineError>)
    ensures
        match launch {
            ElevatedLaunch::Started { handle_valid, exit_code } => if handle_valid {
                r == Ok::<Option<i32>, EngineError>(Some(exit_code as i32))
            } else {
                r matches Err(e) && e.0@ == "Could not start the elevated installer."@
            },
            ElevatedLaunch::Cancelled => r == Ok::<Option<i32>, EngineError>(None),
            ElevatedLaunch::Failed => r matches Err(e) && e.0@
                == "Could not start the elevated installer."@,
        },
{
    match launch {
        ElevatedLaunch::Started { handle_valid, exit_code } => {
            if handle_valid {
                Ok(Some(exit_code as i32))
            } else {
                Err(EngineError("Could not start the elevated installer.".to_owned()))
            }
        },
        ElevatedLaunch::Cancelled => Ok(None),
        ElevatedLaunch::Failed => Err(EngineError("Could not start the elevated installer.".to_owned())),
    }
}

/// Whether the process runs elevated: the token query worked and its
/// elevation flag is set.
pub fn is_elevated(token_query_ok: bool, token_is_elevated: u32) -> (r: bool)
    ensures
        r == (token_query_ok && token_is_elevated != 0),
{
    token_query_ok && token_is_elevated != 0
}

/// Whether the sensor service runs, from the service manager's query
/// output (nothing when the query could not run).
pub fn sensor_service_running(query_output: Option<Vec<u8>>) -> (r: bool)
    ensures
        r == match query_output {
            Some(o) => contains(lossy_text(o@), "RUNNING"@),
            None => false,
        },
{
    match query_output {
        Some(o) => {
            let s = utf8_lossy(o.as_slice());
            let cs = chars_of(s.as_str());
            contains_str(cs.as_slice(), "RUNNING")
        },
        None => false,
    }
}

} // verus!
