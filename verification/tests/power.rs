use osvwm::power::{PowerAction, PowerBackend, PowerDecision, PowerStep, StepOutcome};

fn commands(plan: &[PowerStep]) -> Vec<String> {
    plan.iter()
        .map(|s| match s {
            PowerStep::Run { command, fatal_if_missing } => {
                format!("{}{}", command.join(" "), if *fatal_if_missing { "" } else { " ?" })
            }
            PowerStep::SpawnIfInstalled { program } => format!("spawn {}", program),
        })
        .collect()
}

#[test]
fn capabilities_from_loginctl() {
    assert!(PowerBackend::check_capability("CanSuspend", Some("CanSuspend=yes\n")));
    assert!(!PowerBackend::check_capability("CanSuspend", Some("CanSuspend=no\n")));
    assert!(PowerBackend::check_capability("CanReboot", None));
    assert!(!PowerBackend::check_capability("CanFly", None));
    let c = PowerBackend::capabilities(Some("CanSuspend=yes"), Some("CanHibernate=na"), None, None, None);
    assert!(c.can_suspend);
    assert!(!c.can_hibernate);
    assert!(c.can_reboot);
}

#[test]
fn plans_of_power_actions() {
    let lock = PowerBackend::execute(PowerAction::Lock, Some("3"), Some("ada"));
    assert_eq!(
        commands(&lock.steps),
        vec!["loginctl lock-session 3 ?", "spawn swaylock", "spawn waylock", "spawn gtklock"]
    );
    assert_eq!(lock.failure, "No screen locker found. Install swaylock, waylock, or gtklock.");
    assert!(!lock.report_stderr);

    let logout = PowerBackend::execute(PowerAction::Logout, None, Some("ada"));
    assert_eq!(commands(&logout.steps), vec!["loginctl terminate-user ada"]);

    let reboot = PowerBackend::execute(PowerAction::Reboot, None, None);
    assert_eq!(commands(&reboot.steps), vec!["systemctl reboot", "pkexec systemctl reboot"]);
    assert_eq!(reboot.failure, "Failed to reboot");
    assert!(reboot.report_stderr);
    let hybrid = PowerBackend::execute(PowerAction::HybridSleep, None, None);
    assert_eq!(commands(&hybrid.steps)[0], "systemctl hybrid-sleep");
}

#[test]
fn scheduling() {
    assert_eq!(
        PowerBackend::schedule(PowerAction::PowerOff, 0),
        Ok(vec!["poweroff".to_string(), "now".to_string()])
    );
    assert_eq!(
        PowerBackend::schedule(PowerAction::Reboot, 15),
        Ok(vec!["reboot".to_string(), "+15".to_string()])
    );
    assert_eq!(
        PowerBackend::schedule(PowerAction::Suspend, 5),
        Err("Can only schedule reboot or poweroff".to_string())
    );
}

#[test]
fn inhibitors() {
    let out = "WHO            UID  USER PID   COMM           WHAT         WHY                      MODE\nsleep ModemManager 0 root 812 ModemManager sleep ModemManager needs to reset devices delay\nshort line\n";
    let i = PowerBackend::list_inhibitors(out);
    assert_eq!(i.len(), 1);
    assert_eq!(i[0].what, "sleep");
    assert_eq!(i[0].who, "ModemManager");
    assert_eq!(i[0].mode, "delay");
    assert_eq!(i[0].why, "0 root 812 ModemManager sleep ModemManager needs to reset");
}

fn failed(e: &str) -> StepOutcome {
    StepOutcome::Failed { stderr: e.to_string() }
}

#[test]
fn systemctl_then_pkexec_decisions() {
    let plan = PowerBackend::execute(PowerAction::Reboot, None, None);
    assert!(matches!(plan.start(), PowerDecision::Try { step: 0 }));
    assert!(matches!(plan.after(0, &StepOutcome::Succeeded), PowerDecision::Done));
    assert!(matches!(plan.after(0, &failed("denied")), PowerDecision::Try { step: 1 }));
    assert!(matches!(plan.after(1, &StepOutcome::Succeeded), PowerDecision::Done));
    match plan.after(1, &failed("not authorized")) {
        PowerDecision::Fail { message } => assert_eq!(message, "Failed to reboot: not authorized"),
        _ => panic!("expected a failure"),
    }
    match plan.after(0, &StepOutcome::NotStarted) {
        PowerDecision::Fail { message } => assert_eq!(message, "Failed to run systemctl reboot"),
        _ => panic!("expected a failure"),
    }
    match plan.after(1, &StepOutcome::NotStarted) {
        PowerDecision::Fail { message } => assert_eq!(message, "Failed to run pkexec systemctl"),
        _ => panic!("expected a failure"),
    }
}

#[test]
fn logout_and_lock_decisions() {
    let none = PowerBackend::execute(PowerAction::Logout, None, None);
    match none.start() {
        PowerDecision::Fail { message } => {
            assert_eq!(message, "Could not find a way to logout. Please close the compositor manually.")
        }
        _ => panic!("expected a failure"),
    }
    let logout = PowerBackend::execute(PowerAction::Logout, Some("3"), Some("ann"));
    assert!(matches!(logout.after(0, &failed("x")), PowerDecision::Try { step: 1 }));
    match logout.after(0, &StepOutcome::NotStarted) {
        PowerDecision::Fail { message } => assert_eq!(message, "Failed to run loginctl"),
        _ => panic!("expected a failure"),
    }
    match logout.after(1, &failed("x")) {
        PowerDecision::Fail { message } => {
            assert_eq!(message, "Could not find a way to logout. Please close the compositor manually.")
        }
        _ => panic!("expected a failure"),
    }
    let lock = PowerBackend::execute(PowerAction::Lock, Some("3"), None);
    assert!(matches!(lock.after(0, &StepOutcome::NotStarted), PowerDecision::Try { step: 1 }));
    assert!(matches!(lock.after(1, &failed("")), PowerDecision::Try { step: 2 }));
    assert!(matches!(lock.after(2, &StepOutcome::Succeeded), PowerDecision::Done));
    match lock.after(2, &StepOutcome::NotStarted) {
        PowerDecision::Fail { message } => assert_eq!(message, "Failed to run waylock"),
        _ => panic!("expected a failure"),
    }
    match lock.after(3, &failed("")) {
        PowerDecision::Fail { message } => {
            assert_eq!(message, "No screen locker found. Install swaylock, waylock, or gtklock.")
        }
        _ => panic!("expected a failure"),
    }
}
