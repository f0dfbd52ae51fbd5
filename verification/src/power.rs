//! Power management: which power actions the session offers, the commands
//! that carry an action out and the order in which to try them, scheduled
//! shutdowns, and the inhibitors that `systemd-inhibit` lists.
use vstd::prelude::*;
use crate::text::{
    append, append_str, chars_of, contains, contains_str, decimal, decimal_of, lines,
    lines_of, split_ws, string_from, string_of, string_views, views, words, joined, eq_str,
};

verus! {

/// Power action type
#[derive(Debug, Clone, Copy, PartialEq, Eq, Structural)]
pub enum PowerAction {
    /// Log out the current session
    Logout,
    /// Lock the screen
    Lock,
    /// Suspend to RAM
    Suspend,
    /// Hibernate to disk
    Hibernate,
    /// Hybrid sleep (suspend + hibernate)
    HybridSleep,
    /// Reboot the system
    Reboot,
    /// Power off the system
    PowerOff,
}

/// Power capabilities - what actions are available
#[derive(Debug, Clone, Copy, PartialEq, Eq, Structural)]
pub struct PowerCapabilities {
    pub can_suspend: bool,
    pub can_hibernate: bool,
    pub can_hybrid_sleep: bool,
    pub can_reboot: bool,
    pub can_power_off: bool,
}

/// Power backend
pub struct PowerBackend;

/// The session properties that say whether each action is available.
pub const CAN_SUSPEND: &'static str = "CanSuspend";
pub const CAN_HIBERNATE: &'static str = "CanHibernate";
pub const CAN_HYBRID_SLEEP: &'static str = "CanHybridSleep";
pub const CAN_REBOOT: &'static str = "CanReboot";
pub const CAN_POWER_OFF: &'static str = "CanPowerOff";

/// Whether a capability is available: the output of `loginctl
/// show-session -p` for it says `=yes`; when `loginctl` could not be run,
/// every capability that the backend knows counts as available.
pub open spec fn capability_of(capability: Seq<char>, output: Option<Seq<char>>) -> bool {
    match output {
        Some(o) => contains(o, "=yes"@),
        None => capability == "CanSuspend"@ || capability == "CanHibernate"@ || capability
            == "CanHybridSleep"@ || capability == "CanReboot"@ || capability == "CanPowerOff"@,
    }
}

/// One attempt at carrying out a power action.
#[derive(Debug, Clone)]
pub enum PowerStep {
    /// Run the command (program first); the action is done when it
    /// succeeds. When it cannot be started, the action fails if
    /// `fatal_if_missing`, else the next step is tried.
    Run { command: Vec<String>, fatal_if_missing: bool },
    /// When `which` finds the program, start it; the action is then done.
    SpawnIfInstalled { program: String },
}

/// How to carry out a power action: the steps to try in order, and the
/// error when none succeeds. With `report_stderr`, the error of the last
/// command is appended after a colon.
#[derive(Debug, Clone)]
pub struct PowerPlan {
    pub steps: Vec<PowerStep>,
    pub failure: String,
    pub report_stderr: bool,
}

/// What a step says.
pub enum StepView {
    Run { command: Seq<Seq<char>>, fatal_if_missing: bool },
    SpawnIfInstalled { program: Seq<char> },
}

impl View for PowerStep {
    type V = StepView;

    open spec fn view(&self) -> StepView {
        match self {
            PowerStep::Run { command, fatal_if_missing } => StepView::Run {
                command: string_views(command@),
                fatal_if_missing: *fatal_if_missing,
            },
            PowerStep::SpawnIfInstalled { program } => StepView::SpawnIfInstalled {
                program: program@,
            },
        }
    }
}

/// The views of a sequence of steps.
pub open spec fn step_views(v: Seq<PowerStep>) -> Seq<StepView> {
    v.map_values(|s: PowerStep| s@)
}

/// The `systemctl` verb of an action that `systemctl` carries out.
pub open spec fn systemctl_verb(a: PowerAction) -> Option<Seq<char>> {
    match a {
        PowerAction::Suspend => Some("suspend"@),
        PowerAction::Hibernate => Some("hibernate"@),
        PowerAction::HybridSleep => Some("hybrid-sleep"@),
        PowerAction::Reboot => Some("reboot"@),
        PowerAction::PowerOff => Some("poweroff"@),
        _ => None,
    }
}

/// The steps of an action: logging out terminates the session, else the
/// user's sessions; locking locks the session, else starts the first
/// screen locker installed; the others go through `systemctl`, then through
/// `pkexec systemctl`.
pub open spec fn plan_steps(a: PowerAction, session: Option<Seq<char>>, user: Option<Seq<char>>) -> Seq<
    StepView,
> {
    match a {
        PowerAction::Logout => {
            let s1 = match session {
                Some(s) => seq![
                    StepView::Run {
                        command: seq!["loginctl"@, "terminate-session"@, s],
                        fatal_if_missing: true,
                    },
                ],
                None => Seq::<StepView>::empty(),
            };
            let s2 = match user {
                Some(u) => seq![
                    StepView::Run {
                        command: seq!["loginctl"@, "terminate-user"@, u],
                        fatal_if_missing: true,
                    },
                ],
                None => Seq::<StepView>::empty(),
            };
            s1 + s2
        },
        PowerAction::Lock => {
            let s1 = match session {
                Some(s) => seq![
                    StepView::Run {
                        command: seq!["loginctl"@, "lock-session"@, s],
                        fatal_if_missing: false,
                    },
                ],
                None => Seq::<StepView>::empty(),
            };
            s1 + seq![
                StepView::SpawnIfInstalled { program: "swaylock"@ },
                StepView::SpawnIfInstalled { program: "waylock"@ },
                StepView::SpawnIfInstalled { program: "gtklock"@ },
            ]
        },
        _ => {
            let verb = systemctl_verb(a)->Some_0;
            seq![
                StepView::Run { command: seq!["systemctl"@, verb], fatal_if_missing: true },
                StepView::Run {
                    command: seq!["pkexec"@, "systemctl"@, verb],
                    fatal_if_missing: true,
                },
            ]
        },
    }
}

/// The error of an action when no step succeeds.
pub open spec fn plan_failure(a: PowerAction) -> Seq<char> {
    match a {
        PowerAction::Logout => "Could not find a way to logout. Please close the compositor manually."@,
        PowerAction::Lock => "No screen locker found. Install swaylock, waylock, or gtklock."@,
        _ => "Failed to "@ + systemctl_verb(a)->Some_0,
    }
}

fn run2(a: &str, b: &str, fatal_if_missing: bool) -> (r: PowerStep)
    ensures
        r@ == (StepView::Run { command: seq![a@, b@], fatal_if_missing }),
{
    let mut c: Vec<String> = Vec::new();
    c.push(string_from(a));
    c.push(string_from(b));
    assert(string_views(c@) =~= seq![a@, b@]);
    PowerStep::Run { command: c, fatal_if_missing }
}

fn run3(a: &str, b: &str, x: &str, fatal_if_missing: bool) -> (r: PowerStep)
    ensures
        r@ == (StepView::Run { command: seq![a@, b@, x@], fatal_if_missing }),
{
    let mut c: Vec<String> = Vec::new();
    c.push(string_from(a));
    c.push(string_from(b));
    c.push(string_from(x));
    assert(string_views(c@) =~= seq![a@, b@, x@]);
    PowerStep::Run { command: c, fatal_if_missing }
}

impl PowerBackend {
    /// Whether a capability is available, from the output of `loginctl
    /// show-session -p` for it, or `None` when `loginctl` could not be run.
    pub fn check_capability(capability: &str, output: Option<&str>) -> (r: bool)
        ensures
            r == capability_of(
                capability@,
                match output {
                    Some(o) => Some(o@),
                    None => None,
                },
            ),
    {
        match output {
            Some(o) => contains_str(chars_of(o).as_slice(), "=yes"),
            None => {
                let c = chars_of(capability);
                let c = c.as_slice();
                crate::text::eq_str(c, "CanSuspend") || crate::text::eq_str(c, "CanHibernate")
                    || crate::text::eq_str(c, "CanHybridSleep") || crate::text::eq_str(
                    c,
                    "CanReboot",
                ) || crate::text::eq_str(c, "CanPowerOff")
            },
        }
    }

    /// The available power actions, from the outputs of `loginctl
    /// show-session -p` for each capability.
    pub fn capabilities(
        suspend: Option<&str>,
        hibernate: Option<&str>,
        hybrid_sleep: Option<&str>,
        reboot: Option<&str>,
        power_off: Option<&str>,
    ) -> (r: PowerCapabilities)
        ensures
            r.can_suspend == capability_of(
                "CanSuspend"@,
                match suspend {
                    Some(o) => Some(o@),
                    None => None,
                },
            ),
            r.can_hibernate == capability_of(
                "CanHibernate"@,
                match hibernate {
                    Some(o) => Some(o@),
                    None => None,
                },
            ),
            r.can_hybrid_sleep == capability_of(
                "CanHybridSleep"@,
                match hybrid_sleep {
                    Some(o) => Some(o@),
                    None => None,
                },
            ),
            r.can_reboot == capability_of(
                "CanReboot"@,
                match reboot {
                    Some(o) => Some(o@),
                    None => None,
                },
            ),
            r.can_power_off == capability_of(
                "CanPowerOff"@,
                match power_off {
                    Some(o) => Some(o@),
                    None => None,
                },
            ),
    {
        PowerCapabilities {
            can_suspend: Self::check_capability(CAN_SUSPEND, suspend),
            can_hibernate: Self::check_capability(CAN_HIBERNATE, hibernate),
            can_hybrid_sleep: Self::check_capability(CAN_HYBRID_SLEEP, hybrid_sleep),
            can_reboot: Self::check_capability(CAN_REBOOT, reboot),
            can_power_off: Self::check_capability(CAN_POWER_OFF, power_off),
        }
    }

    /// How to carry out a power action, given the session id and the user
    /// name of the environment, where set.
    pub fn execute(action: PowerAction, session_id: Option<&str>, user: Option<&str>) -> (r:
        PowerPlan)
        ensures
            step_views(r.steps@) == plan_steps(
                action,
                match session_id {
                    Some(s) => Some(s@),
                    None => None,
                },
                match user {
                    Some(u) => Some(u@),
                    None => None,
                },
            ),
            r.failure@ == plan_failure(action),
            r.report_stderr == !(action == PowerAction::Logout || action == PowerAction::Lock),
    {
        let ghost sess = match session_id {
            Some(s) => Some(s@),
            None => None,
        };
        let ghost usr = match user {
            Some(u) => Some(u@),
            None => None,
        };
        let mut steps: Vec<PowerStep> = Vec::new();
        match action {
            PowerAction::Logout => {
                if let Some(s) = session_id {
                    steps.push(run3("loginctl", "terminate-session", s, true));
                }
                let ghost after1 = step_views(steps@);
                if let Some(u) = user {
                    steps.push(run3("loginctl", "terminate-user", u, true));
                }
                assert(step_views(steps@) =~= plan_steps(action, sess, usr));
                PowerPlan {
                    steps,
                    failure: string_from(
                        "Could not find a way to logout. Please close the compositor manually.",
                    ),
                    report_stderr: false,
                }
            },
            PowerAction::Lock => {
                if let Some(s) = session_id {
                    steps.push(run3("loginctl", "lock-session", s, false));
                }
                steps.push(PowerStep::SpawnIfInstalled { program: string_from("swaylock") });
                steps.push(PowerStep::SpawnIfInstalled { program: string_from("waylock") });
                steps.push(PowerStep::SpawnIfInstalled { program: string_from("gtklock") });
                assert(step_views(steps@) =~= plan_steps(action, sess, usr));
                PowerPlan {
                    steps,
                    failure: string_from(
                        "No screen locker found. Install swaylock, waylock, or gtklock.",
                    ),
                    report_stderr: false,
                }
            },
            _ => {
                let verb: &str = match action {
                    PowerAction::Suspend => "suspend",
                    PowerAction::Hibernate => "hibernate",
                    PowerAction::HybridSleep => "hybrid-sleep",
                    PowerAction::Reboot => "reboot",
                    _ => "poweroff",
                };
                assert(systemctl_verb(action) == Some(verb@));
                steps.push(run2("systemctl", verb, true));
                steps.push(run3("pkexec", "systemctl", verb, true));
                assert(step_views(steps@) =~= plan_steps(action, sess, usr));
                let mut f = chars_of("Failed to ");
                append_str(&mut f, verb);
                PowerPlan { steps, failure: string_of(f.as_slice()), report_stderr: true }
            },
        }
    }

    /// The arguments of `shutdown` that schedule a reboot or a power-off
    /// `delay_minutes` from now; other actions cannot be scheduled.
    pub fn schedule(action: PowerAction, delay_minutes: u32) -> (r: Result<Vec<String>, String>)
        ensures
            match action {
                PowerAction::Reboot | PowerAction::PowerOff => r matches Ok(args) && string_views(
                    args@,
                ) == seq![
                    systemctl_verb(action)->Some_0,
                    if delay_minutes == 0 {
                        "now"@
                    } else {
                        "+"@ + decimal(delay_minutes as nat)
                    },
                ],
                _ => r matches Err(e) && e@ == "Can only schedule reboot or poweroff"@,
            },
    {
        let verb: &str = match action {
            PowerAction::Reboot => "reboot",
            PowerAction::PowerOff => "poweroff",
            _ => {
                return Err(string_from("Can only schedule reboot or poweroff"));
            },
        };
        let delay = if delay_minutes == 0 {
            string_from("now")
        } else {
            let mut d = chars_of("+");
            let n = decimal_of(delay_minutes as u64);
            append(&mut d, n.as_slice());
            string_of(d.as_slice())
        };
        let mut args: Vec<String> = Vec::new();
        args.push(string_from(verb));
        args.push(delay);
        assert(string_views(args@) =~= seq![
            systemctl_verb(action)->Some_0,
            if delay_minutes == 0 {
                "now"@
            } else {
                "+"@ + decimal(delay_minutes as nat)
            },
        ]);
        Ok(args)
    }

    /// The inhibitors that `systemd-inhibit --list` lists, one per line
    /// after the header with at least five words.
    pub fn list_inhibitors(output: &str) -> (r: Vec<Inhibitor>)
        ensures
            inhibitor_views(r@) == inhibitors_of(lines(output@)),
    {
        let ls = lines_of(chars_of(output).as_slice());
        let mut r: Vec<Inhibitor> = Vec::new();
        let mut i: usize = 0;
        assert(inhibitor_views(r@) =~= Seq::<InhibitorView>::empty());
        while i < ls.len()
            invariant
                i <= ls@.len(),
                views(ls@) == lines(output@),
                inhibitor_views(r@) == inhibitors_of(views(ls@).take(i as int)),
            decreases ls@.len() - i,
        {
            assert(views(ls@).take(i + 1).drop_last() =~= views(ls@).take(i as int));
            assert(views(ls@)[i as int] == ls@[i as int]@);
            if i >= 1 {
                let p = split_ws(ls[i].as_slice());
                if p.len() >= 5 {
                    let n = p.len();
                    assert(forall|k: int| 0 <= k < n ==> views(p@)[k] == p@[k]@);
                    let mut why: Vec<char> = Vec::new();
                    let mut k: usize = 2;
                    assert(views(p@).subrange(2, 2) =~= Seq::<Seq<char>>::empty());
                    while k < n - 2
                        invariant
                            n == p@.len(),
                            n >= 5,
                            2 <= k <= n - 2,
                            why@ == joined(views(p@).subrange(2, k as int)),
                        decreases n - 2 - k,
                    {
                        assert(views(p@).subrange(2, k + 1).drop_last() =~= views(p@).subrange(
                            2,
                            k as int,
                        ));
                        if k > 2 {
                            append_str(&mut why, " ");
                        }
                        append(&mut why, p[k].as_slice());
                        k = k + 1;
                    }
                    let ghost before = r@;
                    let inh = Inhibitor {
                        what: string_of(p[0].as_slice()),
                        who: string_of(p[1].as_slice()),
                        why: string_of(why.as_slice()),
                        mode: string_of(p[n - 1].as_slice()),
                    };
                    r.push(inh);
                    assert(inhibitor_views(r@) =~= inhibitor_views(before).push(inh@));
                }
            }
            i = i + 1;
        }
        assert(views(ls@).take(i as int) =~= views(ls@));
        r
    }
}

/// System inhibitor
#[derive(Debug, Clone)]
pub struct Inhibitor {
    /// What is being inhibited (shutdown, sleep, etc.)
    pub what: String,
    /// Who is inhibiting
    pub who: String,
    /// Why it's being inhibited
    pub why: String,
    /// Inhibit mode (block or delay)
    pub mode: String,
}

/// What an inhibitor holds.
pub struct InhibitorView {
    pub what: Seq<char>,
    pub who: Seq<char>,
    pub why: Seq<char>,
    pub mode: Seq<char>,
}

impl View for Inhibitor {
    type V = InhibitorView;

    open spec fn view(&self) -> InhibitorView {
        InhibitorView { what: self.what@, who: self.who@, why: self.why@, mode: self.mode@ }
    }
}

/// The views of a sequence of inhibitors.
pub open spec fn inhibitor_views(v: Seq<Inhibitor>) -> Seq<InhibitorView> {
    v.map_values(|i: Inhibitor| i@)
}

/// The inhibitor that a line of `systemd-inhibit --list` with at least
/// five words describes: what, who, the reason (the words from the third to
/// the third-last) and the mode (the last word).
pub open spec fn inhibitor_of(line: Seq<char>) -> Option<InhibitorView> {
    let w = words(line);
    if w.len() >= 5 {
        Some(
            InhibitorView {
                what: w[0],
                who: w[1],
                why: joined(w.subrange(2, w.len() - 2)),
                mode: w[w.len() - 1],
            },
        )
    } else {
        None
    }
}

/// The inhibitors that the lines `ls` list, the first line being the
/// header.
pub open spec fn inhibitors_of(ls: Seq<Seq<char>>) -> Seq<InhibitorView>
    decreases ls.len(),
{
    if ls.len() <= 1 {
        Seq::<InhibitorView>::empty()
    } else {
        let prev = inhibitors_of(ls.drop_last());
        match inhibitor_of(ls.last()) {
            Some(x) => prev.push(x),
            None => prev,
        }
    }
}

/// What happened when a step was tried.
#[derive(Debug, Clone)]
pub enum StepOutcome {
    /// The command ran and succeeded, or the program was found and started.
    Succeeded,
    /// The command ran and failed, with what it wrote to its error output;
    /// for a program to start, it was not found.
    Failed { stderr: String },
    /// The command, or the program that was found, could not be started.
    NotStarted,
}

/// What an outcome says.
pub enum OutcomeView {
    Succeeded,
    Failed(Seq<char>),
    NotStarted,
}

impl View for StepOutcome {
    type V = OutcomeView;

    open spec fn view(&self) -> OutcomeView {
        match self {
            StepOutcome::Succeeded => OutcomeView::Succeeded,
            StepOutcome::Failed { stderr } => OutcomeView::Failed(stderr@),
            StepOutcome::NotStarted => OutcomeView::NotStarted,
        }
    }
}

/// What to do next in carrying out a plan.
#[derive(Debug, Clone)]
pub enum PowerDecision {
    /// Try the step at this position.
    Try { step: usize },
    /// The action is carried out.
    Done,
    /// The action failed, with this error.
    Fail { message: String },
}

/// What a decision says.
pub enum DecisionView {
    Try(usize),
    Done,
    Fail(Seq<char>),
}

impl View for PowerDecision {
    type V = DecisionView;

    open spec fn view(&self) -> DecisionView {
        match self {
            PowerDecision::Try { step } => DecisionView::Try(*step),
            PowerDecision::Done => DecisionView::Done,
            PowerDecision::Fail { message } => DecisionView::Fail(message@),
        }
    }
}

/// Whether a step that could not be started ends the action: a command
/// marked so, and a program that was found.
pub open spec fn ends_when_not_started(s: StepView) -> bool {
    match s {
        StepView::Run { fatal_if_missing, .. } => fatal_if_missing,
        StepView::SpawnIfInstalled { .. } => true,
    }
}

/// The error when a step cannot be started: the program, with its first
/// argument except for `loginctl`.
pub open spec fn not_started_message(s: StepView) -> Seq<char> {
    match s {
        StepView::Run { command, .. } => "Failed to run "@ + if command.len() == 0 {
            Seq::<char>::empty()
        } else if command.len() > 1 && command[0] != "loginctl"@ {
            command[0] + " "@ + command[1]
        } else {
            command[0]
        },
        StepView::SpawnIfInstalled { program } => "Failed to run "@ + program,
    }
}

/// The error when no step succeeds: the plan's failure, with the error
/// output of the last command when the plan reports it.
pub open spec fn failure_message(failure: Seq<char>, report_stderr: bool, stderr: Seq<char>) -> Seq<
    char,
> {
    if report_stderr {
        failure + ": "@ + stderr
    } else {
        failure
    }
}

/// The first decision of a plan: its first step, or its failure when it
/// has none.
pub open spec fn first_decision(steps: Seq<StepView>, failure: Seq<char>) -> DecisionView {
    if steps.len() > 0 {
        DecisionView::Try(0)
    } else {
        DecisionView::Fail(failure)
    }
}

/// The decision after step `index` had `outcome`: a success ends the
/// action; a failure goes on to the next step, or fails the action after
/// the last; a step that cannot be started fails the action when it is
/// marked so, else counts as a failure without error output.
pub open spec fn decision_after(
    steps: Seq<StepView>,
    failure: Seq<char>,
    report_stderr: bool,
    index: int,
    outcome: OutcomeView,
) -> DecisionView {
    match outcome {
        OutcomeView::Succeeded => DecisionView::Done,
        OutcomeView::Failed(e) => if index + 1 < steps.len() {
            DecisionView::Try((index + 1) as usize)
        } else {
            DecisionView::Fail(failure_message(failure, report_stderr, e))
        },
        OutcomeView::NotStarted => if ends_when_not_started(steps[index]) {
            DecisionView::Fail(not_started_message(steps[index]))
        } else if index + 1 < steps.len() {
            DecisionView::Try((index + 1) as usize)
        } else {
            DecisionView::Fail(failure_message(failure, report_stderr, Seq::<char>::empty()))
        },
    }
}

impl PowerPlan {
    /// Where carrying out the plan begins.
    pub fn start(&self) -> (r: PowerDecision)
        ensures
            r@ == first_decision(step_views(self.steps@), self.failure@),
    {
        if self.steps.len() > 0 {
            PowerDecision::Try { step: 0 }
        } else {
            PowerDecision::Fail { message: self.failure.clone() }
        }
    }

    /// What to do after the step at `index` had `outcome`.
    pub fn after(&self, index: usize, outcome: &StepOutcome) -> (r: PowerDecision)
        requires
            index < self.steps@.len(),
        ensures
            r@ == decision_after(
                step_views(self.steps@),
                self.failure@,
                self.report_stderr,
                index as int,
                outcome@,
            ),
    {
        let ghost steps = step_views(self.steps@);
        assert(steps[index as int] == self.steps@[index as int]@);
        let n = self.steps.len();
        match outcome {
            StepOutcome::Succeeded => PowerDecision::Done,
            StepOutcome::Failed { stderr } => {
                if index + 1 < n {
                    PowerDecision::Try { step: index + 1 }
                } else {
                    PowerDecision::Fail { message: self.failure_with(stderr.as_str()) }
                }
            },
            StepOutcome::NotStarted => {
                match &self.steps[index] {
                    PowerStep::Run { command, fatal_if_missing } => {
                        if *fatal_if_missing {
                            let mut m = chars_of("Failed to run ");
                            proof {
                                assert(string_views(command@).len() == command@.len());
                            }
                            let ghost cv = string_views(command@);
                            assert(steps[index as int] == (StepView::Run {
                                command: cv,
                                fatal_if_missing: true,
                            }));
                            if command.len() > 0 {
                                assert(cv[0] == command@[0]@);
                                let first = chars_of(command[0].as_str());
                                append(&mut m, first.as_slice());
                                if command.len() > 1 && !eq_str(first.as_slice(), "loginctl") {
                                    assert(cv[1] == command@[1]@);
                                    append_str(&mut m, " ");
                                    append(&mut m, chars_of(command[1].as_str()).as_slice());
                                    assert(m@ =~= "Failed to run "@ + (cv[0] + " "@ + cv[1]));
                                } else {
                                    assert(m@ =~= "Failed to run "@ + cv[0]);
                                }
                            } else {
                                assert(m@ =~= "Failed to run "@ + Seq::<char>::empty());
                            }
                            return PowerDecision::Fail { message: string_of(m.as_slice()) };
                        }
                    },
                    PowerStep::SpawnIfInstalled { program } => {
                        let mut m = chars_of("Failed to run ");
                        append(&mut m, chars_of(program.as_str()).as_slice());
                        assert(m@ =~= "Failed to run "@ + program@);
                        return PowerDecision::Fail { message: string_of(m.as_slice()) };
                    },
                }
                if index + 1 < n {
                    PowerDecision::Try { step: index + 1 }
                } else {
                    proof {
                        reveal_strlit("");
                    }
                    PowerDecision::Fail { message: self.failure_with("") }
                }
            },
        }
    }

    fn failure_with(&self, stderr: &str) -> (r: String)
        ensures
            r@ == failure_message(self.failure@, self.report_stderr, stderr@),
    {
        let mut m = chars_of(self.failure.as_str());
        if self.report_stderr {
            append_str(&mut m, ": ");
            append(&mut m, chars_of(stderr).as_slice());
            assert(m@ =~= self.failure@ + ": "@ + stderr@);
        }
        string_of(m.as_slice())
    }
}

/// A `systemctl` action goes on to `pkexec systemctl` exactly when
/// `systemctl` ran and failed, and is carried out exactly when a command
/// succeeds; when `pkexec` fails too, the error carries what it wrote.
pub proof fn law_systemctl_then_pkexec(
    a: PowerAction,
    session: Option<Seq<char>>,
    user: Option<Seq<char>>,
    first: OutcomeView,
    second: OutcomeView,
)
    requires
        systemctl_verb(a) is Some,
    ensures
        ({
            let steps = plan_steps(a, session, user);
            let f = plan_failure(a);
            &&& first_decision(steps, f) == DecisionView::Try(0)
            &&& (decision_after(steps, f, true, 0, first) == DecisionView::Try(1)) == (first is Failed)
            &&& (decision_after(steps, f, true, 0, first) == DecisionView::Done) == (first is Succeeded)
            &&& (decision_after(steps, f, true, 1, second) == DecisionView::Done) == (second is Succeeded)
            &&& second matches OutcomeView::Failed(e) ==> decision_after(steps, f, true, 1, second)
                == DecisionView::Fail(f + ": "@ + e)
        }),
{
    let steps = plan_steps(a, session, user);
    assert(steps.len() == 2);
}

} // verus!
