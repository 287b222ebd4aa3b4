//! The operation pipelines. Each is an ordered list of steps; the caller
//! performs the action of the running step and reports its outcome, and the
//! pipeline decides, by its own table of fail-fast steps, whether to go on.
use vstd::prelude::*;
use crate::num::{decimal, push_decimal};

verus! {

/// The operation a pipeline carries out.
#[derive(Clone, Copy, Debug, PartialEq, Eq, Structural)]
pub enum InstallerMode {
    Install,
    Uninstall,
    Repair,
}

/// The work of one step.
#[derive(Clone, Copy, Debug, PartialEq, Eq, Structural)]
pub enum StepKind {
    /// Terminate the target if it runs.
    CloseTarget,
    /// Locate the target executable.
    Locate,
    /// Deploy the payload files.
    Deploy,
    /// Write every environment channel.
    Configure,
    /// Ask the asset patcher to install.
    PatchInstall,
    /// Ask the asset patcher to uninstall.
    PatchUninstall,
    /// Ask the asset patcher to repair.
    PatchRepair,
    /// Delete the target's settings files.
    ResetSettings,
    /// Remove the configuration from every channel.
    RemoveEnvironment,
    /// Delete the install directory.
    RemoveFiles,
    /// Recompute the detection result and check it.
    Verify,
}

/// What the caller must do next.
#[derive(Clone, Copy, Debug, PartialEq, Eq, Structural)]
pub enum Action {
    Run(StepKind),
    Finish,
}

/// The result of a step's work, as the caller reports it.
pub enum Outcome {
    /// The target was not running.
    NotRunning,
    /// The target ran and this many instances were terminated.
    Closed(u32),
    /// The target executable exists.
    Found,
    /// The target executable is absent from this path.
    NotFound(String),
    /// The work succeeded.
    Succeeded,
    /// This many settings files were deleted.
    Removed(u32),
    /// The work failed with this message.
    Failed(String),
    /// Verification found the hook incomplete.
    Unverified,
}

pub enum OutcomeView {
    NotRunning,
    Closed(nat),
    Found,
    NotFound(Seq<char>),
    Succeeded,
    Removed(nat),
    Failed(Seq<char>),
    Unverified,
}

impl View for Outcome {
    type V = OutcomeView;

    open spec fn view(&self) -> OutcomeView {
        match self {
            Outcome::NotRunning => OutcomeView::NotRunning,
            Outcome::Closed(n) => OutcomeView::Closed(*n as nat),
            Outcome::Found => OutcomeView::Found,
            Outcome::NotFound(p) => OutcomeView::NotFound(p@),
            Outcome::Succeeded => OutcomeView::Succeeded,
            Outcome::Removed(n) => OutcomeView::Removed(*n as nat),
            Outcome::Failed(m) => OutcomeView::Failed(m@),
            Outcome::Unverified => OutcomeView::Unverified,
        }
    }
}

/// A step's progress.
pub enum StepStatus {
    Pending,
    Running,
    Done,
    Failed(String),
}

pub enum StatusView {
    Pending,
    Running,
    Done,
    Failed(Seq<char>),
}

/// One step as shown to the user.
pub struct Step {
    pub label: String,
    pub status: StepStatus,
}

pub struct StepView {
    pub label: Seq<char>,
    pub status: StatusView,
}

impl View for Step {
    type V = StepView;

    open spec fn view(&self) -> StepView {
        StepView {
            label: self.label@,
            status: match self.status {
                StepStatus::Pending => StatusView::Pending,
                StepStatus::Running => StatusView::Running,
                StepStatus::Done => StatusView::Done,
                StepStatus::Failed(m) => StatusView::Failed(m@),
            },
        }
    }
}

impl Step {
    /// A pending step.
    pub fn new(label: &str) -> (r: Step)
        ensures
            r@ == (StepView { label: label@, status: StatusView::Pending }),
    {
        Step { label: String::from_str(label), status: StepStatus::Pending }
    }
}

/// A pipeline's externally observable state.
pub struct AppState {
    pub mode: InstallerMode,
    pub steps: Vec<Step>,
    pub title: String,
    /// The index of the running step, or of the last one run once finished.
    pub current: usize,
    pub finished: bool,
    pub success: bool,
    pub message: String,
}

pub struct StateView {
    pub mode: InstallerMode,
    pub steps: Seq<StepView>,
    pub title: Seq<char>,
    pub current: nat,
    pub finished: bool,
    pub success: bool,
    pub message: Seq<char>,
}

impl View for AppState {
    type V = StateView;

    open spec fn view(&self) -> StateView {
        StateView {
            mode: self.mode,
            steps: self.steps@.map_values(|s: Step| s@),
            title: self.title@,
            current: self.current as nat,
            finished: self.finished,
            success: self.success,
            message: self.message@,
        }
    }
}

// ---------------------------------------------------------------- tables

/// The steps of each operation, in order.
pub open spec fn kinds(m: InstallerMode) -> Seq<StepKind> {
    match m {
        InstallerMode::Install => seq![
            StepKind::CloseTarget,
            StepKind::Locate,
            StepKind::Deploy,
            StepKind::Configure,
            StepKind::PatchInstall,
            StepKind::Verify,
        ],
        InstallerMode::Uninstall => seq![
            StepKind::CloseTarget,
            StepKind::RemoveEnvironment,
            StepKind::PatchUninstall,
            StepKind::ResetSettings,
            StepKind::RemoveFiles,
        ],
        InstallerMode::Repair => seq![
            StepKind::CloseTarget,
            StepKind::ResetSettings,
            StepKind::Deploy,
            StepKind::Configure,
            StepKind::PatchRepair,
            StepKind::Verify,
        ],
    }
}

pub open spec fn labels(m: InstallerMode) -> Seq<Seq<char>> {
    match m {
        InstallerMode::Install => seq![
            "Check for running Root process"@,
            "Detect Root installation"@,
            "Deploy hook files"@,
            "Set environment variables"@,
            "Patch HTML files"@,
            "Verify installation"@,
        ],
        InstallerMode::Uninstall => seq![
            "Check for running Root process"@,
            "Remove environment variables"@,
            "Restore HTML files"@,
            "Remove settings files"@,
            "Remove deployed files"@,
        ],
        InstallerMode::Repair => seq![
            "Check for running Root process"@,
            "Reset settings (plugins, themes, preferences)"@,
            "Re-deploy hook files"@,
            "Set environment variables"@,
            "Re-patch HTML files"@,
            "Verify installation"@,
        ],
    }
}

pub open spec fn title_spec(m: InstallerMode) -> Seq<char> {
    match m {
        InstallerMode::Install => "Install"@,
        InstallerMode::Uninstall => "Uninstall"@,
        InstallerMode::Repair => "Repair (resets all settings)"@,
    }
}

/// Whether a failure of step `k` ends the operation `m`.
pub open spec fn aborts(m: InstallerMode, k: StepKind) -> bool {
    match m {
        InstallerMode::Install => k != StepKind::CloseTarget && k != StepKind::Verify,
        InstallerMode::Uninstall => k == StepKind::RemoveEnvironment || k == StepKind::RemoveFiles,
        InstallerMode::Repair => k != StepKind::CloseTarget && k != StepKind::Verify,
    }
}

/// The closing message of an operation ended by a failure of step `k`.
pub open spec fn abort_message(m: InstallerMode, k: StepKind) -> Seq<char> {
    match m {
        InstallerMode::Install => "Installation failed."@,
        InstallerMode::Uninstall => if k == StepKind::RemoveFiles {
            "Uninstall had errors."@
        } else {
            "Uninstall failed."@
        },
        InstallerMode::Repair => "Repair failed."@,
    }
}

/// The closing message of an operation that ran to its end.
pub open spec fn done_message(m: InstallerMode) -> Seq<char> {
    match m {
        InstallerMode::Install => "Patch active \u{2014} restart Root to load Uprooted."@,
        InstallerMode::Uninstall => "Uprooted removed."@,
        InstallerMode::Repair => "Repair complete \u{2014} restart Root to load Uprooted."@,
    }
}

pub open spec fn plural(n: nat, suffix: Seq<char>) -> Seq<char> {
    if n == 1 {
        Seq::empty()
    } else {
        suffix
    }
}

pub open spec fn closed_label(n: nat) -> Seq<char> {
    "Closed Root ("@ + decimal(n) + " process"@ + plural(n, "es"@) + ")"@
}

pub open spec fn reset_label(m: InstallerMode, n: nat) -> Seq<char> {
    if m == InstallerMode::Repair {
        "Settings reset ("@ + decimal(n) + " file"@ + plural(n, "s"@) + " removed)"@
    } else {
        "Settings removed ("@ + decimal(n) + " file"@ + plural(n, "s"@) + ")"@
    }
}

/// The label a step shows once its outcome is known.
pub open spec fn label_after(m: InstallerMode, k: StepKind, label: Seq<char>, o: OutcomeView) -> Seq<
    char,
> {
    match k {
        StepKind::CloseTarget => match o {
            OutcomeView::Closed(n) => closed_label(n),
            _ => "Root is not running"@,
        },
        StepKind::ResetSettings => match o {
            OutcomeView::Removed(n) => reset_label(m, n),
            _ => label,
        },
        _ => label,
    }
}

/// The message of a failed step, or `None` where the outcome is a success.
/// Terminating the target never fails.
pub open spec fn failure(k: StepKind, o: OutcomeView) -> Option<Seq<char>> {
    if k == StepKind::CloseTarget {
        None
    } else {
        match o {
            OutcomeView::NotFound(p) => Some("Root not found at "@ + p),
            OutcomeView::Failed(msg) => Some(msg),
            OutcomeView::Unverified => Some("Verification found issues"@),
            _ => None,
        }
    }
}

/// The state with step `i` done and the next one running, or the
/// operation completed where `i` was the last.
pub open spec fn proceed(s: StateView, steps: Seq<StepView>, i: int) -> StateView {
    if i + 1 < steps.len() {
        StateView {
            steps: steps.update(
                i + 1,
                StepView { label: steps[i + 1].label, status: StatusView::Running },
            ),
            current: (i + 1) as nat,
            ..s
        }
    } else {
        StateView {
            steps,
            finished: true,
            success: true,
            message: done_message(s.mode),
            ..s
        }
    }
}

/// The state after the running step reported `o`.
pub open spec fn advance_spec(s: StateView, o: OutcomeView) -> StateView {
    if s.finished {
        s
    } else {
        let i = s.current as int;
        let k = kinds(s.mode)[i];
        let label = label_after(s.mode, k, s.steps[i].label, o);
        match failure(k, o) {
            Some(msg) => {
                let steps = s.steps.update(
                    i,
                    StepView { label, status: StatusView::Failed(msg) },
                );
                if aborts(s.mode, k) {
                    StateView {
                        steps,
                        finished: true,
                        success: false,
                        message: abort_message(s.mode, k),
                        ..s
                    }
                } else if s.mode == InstallerMode::Install && k == StepKind::Verify {
                    StateView {
                        steps,
                        finished: true,
                        success: true,
                        message: "Installed with warnings."@,
                        ..s
                    }
                } else {
                    proceed(s, steps, i)
                }
            },
            None => proceed(
                s,
                s.steps.update(i, StepView { label, status: StatusView::Done }),
                i,
            ),
        }
    }
}

/// The pipeline of `m` before its first outcome: the first step running.
pub open spec fn start_spec(m: InstallerMode) -> StateView {
    StateView {
        mode: m,
        steps: Seq::new(
            labels(m).len(),
            |j: int|
                StepView {
                    label: labels(m)[j],
                    status: if j == 0 {
                        StatusView::Running
                    } else {
                        StatusView::Pending
                    },
                },
        ),
        title: title_spec(m),
        current: 0,
        finished: false,
        success: false,
        message: Seq::empty(),
    }
}

pub open spec fn next_action_spec(s: StateView) -> Action {
    if s.finished {
        Action::Finish
    } else {
        Action::Run(kinds(s.mode)[s.current as int])
    }
}

impl AppState {
    pub open spec fn wf(&self) -> bool {
        &&& self.steps@.len() == kinds(self.mode).len()
        &&& self.current < self.steps@.len()
    }

    /// The action the caller must perform next.
    pub fn next_action(&self) -> (r: Action)
        requires
            self.wf(),
        ensures
            r == next_action_spec(self@),
    {
        if self.finished {
            Action::Finish
        } else {
            Action::Run(kind_of(self.mode, self.current))
        }
    }
}

fn kind_of(m: InstallerMode, i: usize) -> (r: StepKind)
    requires
        i < kinds(m).len(),
    ensures
        r == kinds(m)[i as int],
{
    match m {
        InstallerMode::Install => if i == 0 {
            StepKind::CloseTarget
        } else if i == 1 {
            StepKind::Locate
        } else if i == 2 {
            StepKind::Deploy
        } else if i == 3 {
            StepKind::Configure
        } else if i == 4 {
            StepKind::PatchInstall
        } else {
            StepKind::Verify
        },
        InstallerMode::Uninstall => if i == 0 {
            StepKind::CloseTarget
        } else if i == 1 {
            StepKind::RemoveEnvironment
        } else if i == 2 {
            StepKind::PatchUninstall
        } else if i == 3 {
            StepKind::ResetSettings
        } else {
            StepKind::RemoveFiles
        },
        InstallerMode::Repair => if i == 0 {
            StepKind::CloseTarget
        } else if i == 1 {
            StepKind::ResetSettings
        } else if i == 2 {
            StepKind::Deploy
        } else if i == 3 {
            StepKind::Configure
        } else if i == 4 {
            StepKind::PatchRepair
        } else {
            StepKind::Verify
        },
    }
}

fn plural_exec(r: &mut String, n: u32, suffix: &str)
    ensures
        final(r)@ == old(r)@ + plural(n as nat, suffix@),
{
    if n != 1 {
        r.append(suffix);
    } else {
        assert(old(r)@ =~= old(r)@ + Seq::<char>::empty());
    }
}

fn label_after_exec(m: InstallerMode, k: StepKind, label: &String, o: &Outcome) -> (r: String)
    ensures
        r@ == label_after(m, k, label@, o@),
{
    match k {
        StepKind::CloseTarget => match o {
            Outcome::Closed(n) => {
                let mut r = String::from_str("Closed Root (");
                push_decimal(&mut r, *n as u64);
                r.append(" process");
                plural_exec(&mut r, *n, "es");
                r.append(")");
                r
            },
            _ => String::from_str("Root is not running"),
        },
        StepKind::ResetSettings => match o {
            Outcome::Removed(n) => {
                if m == InstallerMode::Repair {
                    let mut r = String::from_str("Settings reset (");
                    push_decimal(&mut r, *n as u64);
                    r.append(" file");
                    plural_exec(&mut r, *n, "s");
                    r.append(" removed)");
                    r
                } else {
                    let mut r = String::from_str("Settings removed (");
                    push_decimal(&mut r, *n as u64);
                    r.append(" file");
                    plural_exec(&mut r, *n, "s");
                    r.append(")");
                    r
                }
            },
            _ => label.clone(),
        },
        _ => label.clone(),
    }
}

fn failure_exec(k: StepKind, o: &Outcome) -> (r: Option<String>)
    ensures
        crate::envconf::opt_view(r) == failure(k, o@),
{
    if k == StepKind::CloseTarget {
        None
    } else {
        match o {
            Outcome::NotFound(p) => {
                let mut r = String::from_str("Root not found at ");
                r.append(p.as_str());
                Some(r)
            },
            Outcome::Failed(msg) => Some(msg.clone()),
            Outcome::Unverified => Some(String::from_str("Verification found issues")),
            _ => None,
        }
    }
}

fn aborts_exec(m: InstallerMode, k: StepKind) -> (r: bool)
    ensures
        r == aborts(m, k),
{
    match m {
        InstallerMode::Install => k != StepKind::CloseTarget && k != StepKind::Verify,
        InstallerMode::Uninstall => k == StepKind::RemoveEnvironment || k == StepKind::RemoveFiles,
        InstallerMode::Repair => k != StepKind::CloseTarget && k != StepKind::Verify,
    }
}

fn abort_message_exec(m: InstallerMode, k: StepKind) -> (r: &'static str)
    ensures
        r@ == abort_message(m, k),
{
    match m {
        InstallerMode::Install => "Installation failed.",
        InstallerMode::Uninstall => if k == StepKind::RemoveFiles {
            "Uninstall had errors."
        } else {
            "Uninstall failed."
        },
        InstallerMode::Repair => "Repair failed.",
    }
}

fn done_message_exec(m: InstallerMode) -> (r: &'static str)
    ensures
        r@ == done_message(m),
{
    match m {
        InstallerMode::Install => "Patch active \u{2014} restart Root to load Uprooted.",
        InstallerMode::Uninstall => "Uprooted removed.",
        InstallerMode::Repair => "Repair complete \u{2014} restart Root to load Uprooted.",
    }
}

fn set_step(s: &mut AppState, i: usize, st: Step)
    requires
        i < old(s).steps@.len(),
    ensures
        final(s)@ == (StateView { steps: old(s)@.steps.update(i as int, st@), ..old(s)@ }),
        final(s).steps@.len() == old(s).steps@.len(),
{
    let ghost before = s.steps@;
    s.steps.set(i, st);
    assert(s.steps@.map_values(|x: Step| x@) =~= before.map_values(|x: Step| x@).update(
        i as int,
        st@,
    ));
}

fn proceed_exec(s: &mut AppState, i: usize)
    requires
        old(s).wf(),
        i == old(s).current,
    ensures
        final(s).wf(),
        final(s)@ == proceed(old(s)@, old(s)@.steps, i as int),
{
    if i + 1 < s.steps.len() {
        let lbl = s.steps[i + 1].label.clone();
        set_step(s, i + 1, Step { label: lbl, status: StepStatus::Running });
        s.current = i + 1;
    } else {
        s.finished = true;
        s.success = true;
        s.message = String::from_str(done_message_exec(s.mode));
    }
}

/// Applies the running step's outcome, whatever the operation.
fn advance(s: &mut AppState, o: Outcome)
    requires
        old(s).wf(),
    ensures
        final(s).wf(),
        final(s)@ == advance_spec(old(s)@, o@),
{
    if s.finished {
        return;
    }
    let i = s.current;
    let k = kind_of(s.mode, i);
    let label = label_after_exec(s.mode, k, &s.steps[i].label, &o);
    match failure_exec(k, &o) {
        Some(msg) => {
            set_step(s, i, Step { label, status: StepStatus::Failed(msg) });
            if aborts_exec(s.mode, k) {
                s.finished = true;
                s.success = false;
                s.message = String::from_str(abort_message_exec(s.mode, k));
            } else if s.mode == InstallerMode::Install && k == StepKind::Verify {
                s.finished = true;
                s.success = true;
                s.message = String::from_str("Installed with warnings.");
            } else {
                proceed_exec(s, i);
            }
        },
        None => {
            set_step(s, i, Step { label, status: StepStatus::Done });
            proceed_exec(s, i);
        },
    }
}

impl AppState {
    /// The pipeline of `mode` with its first step running.
    pub fn start(mode: InstallerMode) -> (r: AppState)
        ensures
            r.wf(),
            r@ == start_spec(mode),
    {
        let mut steps: Vec<Step> = Vec::new();
        let title = match mode {
            InstallerMode::Install => {
                steps.push(Step { label: String::from_str("Check for running Root process"), status: StepStatus::Running });
                steps.push(Step::new("Detect Root installation"));
                steps.push(Step::new("Deploy hook files"));
                steps.push(Step::new("Set environment variables"));
                steps.push(Step::new("Patch HTML files"));
                steps.push(Step::new("Verify installation"));
                "Install"
            },
            InstallerMode::Uninstall => {
                steps.push(Step { label: String::from_str("Check for running Root process"), status: StepStatus::Running });
                steps.push(Step::new("Remove environment variables"));
                steps.push(Step::new("Restore HTML files"));
                steps.push(Step::new("Remove settings files"));
                steps.push(Step::new("Remove deployed files"));
                "Uninstall"
            },
            InstallerMode::Repair => {
                steps.push(Step { label: String::from_str("Check for running Root process"), status: StepStatus::Running });
                steps.push(Step::new("Reset settings (plugins, themes, preferences)"));
                steps.push(Step::new("Re-deploy hook files"));
                steps.push(Step::new("Set environment variables"));
                steps.push(Step::new("Re-patch HTML files"));
                steps.push(Step::new("Verify installation"));
                "Repair (resets all settings)"
            },
        };
        let r = AppState {
            mode,
            steps,
            title: String::from_str(title),
            current: 0,
            finished: false,
            success: false,
            message: String::new(),
        };
        assert(r@.steps =~= start_spec(mode).steps);
        r
    }
}

/// Applies the outcome of the install pipeline's running step: terminate
/// the target, locate it, deploy, configure, patch and verify, stopping at
/// the first failure but for verification, which only warns.
pub fn run_install(state: &mut AppState, outcome: Outcome)
    requires
        old(state).wf(),
        old(state).mode == InstallerMode::Install,
    ensures
        final(state).wf(),
        final(state)@ == advance_spec(old(state)@, outcome@),
{
    advance(state, outcome)
}

/// Applies the outcome of the uninstall pipeline's running step: terminate
/// the target, remove the environment, restore the assets, reset settings
/// and delete the files; only the environment and the files stop it.
pub fn run_uninstall(state: &mut AppState, outcome: Outcome)
    requires
        old(state).wf(),
        old(state).mode == InstallerMode::Uninstall,
    ensures
        final(state).wf(),
        final(state)@ == advance_spec(old(state)@, outcome@),
{
    advance(state, outcome)
}

/// Applies the outcome of the repair pipeline's running step: terminate
/// the target, reset settings, deploy, configure, repair the assets and
/// verify; every failure but verification's stops it.
pub fn run_repair(state: &mut AppState, outcome: Outcome)
    requires
        old(state).wf(),
        old(state).mode == InstallerMode::Repair,
    ensures
        final(state).wf(),
        final(state)@ == advance_spec(old(state)@, outcome@),
{
    advance(state, outcome)
}

} // verus!
