use twoinone::executor::{Invocation, PrivilegeContext, SpawnError};
use twoinone::mode::Mode;
use twoinone::orchestrator::{
    plan_commands, plan_writes, resolve_patterns, AbortReason, Config, Effect, Event, Phase, Run,
};
use twoinone::resolver::ResolutionError;
use twoinone::switcher::WriteRequest;

fn texts(list: &[&str]) -> Vec<String> {
    list.iter().map(|s| s.to_string()).collect()
}

fn root() -> PrivilegeContext {
    PrivilegeContext {
        superuser: true,
        orig_user: Some("alice".to_string()),
        session_bus: Some("unix:path=/run/user/1000/bus".to_string()),
    }
}

fn user() -> PrivilegeContext {
    PrivilegeContext { superuser: false, orig_user: None, session_bus: None }
}

fn shell(command: &str) -> Effect {
    Effect::Spawn(Invocation { program: "bash".to_string(), args: texts(&["-c", command]) })
}

fn as_alice(command: &str) -> Effect {
    Effect::Spawn(Invocation {
        program: "sudo".to_string(),
        args: texts(&[
            "-u",
            "alice",
            "DBUS_SESSION_BUS_ADDRESS=unix:path=/run/user/1000/bus",
            "bash",
            "-c",
            command,
        ]),
    })
}

fn proceed(run: &mut Run) -> Vec<Effect> {
    run.step(Event::Proceed)
}

#[test]
fn wildcard_device_is_resolved_and_bound() {
    let config = Config {
        devices: texts(&["/sys/bus/usb/drivers/foo/*"]),
        laptop_commands: texts(&[]),
        tablet_commands: texts(&[]),
    };
    let mut run = Run::new(config, root());
    assert_eq!(run.phase(), Phase::Idle);
    assert_eq!(run.directories(), vec![Some("/sys/bus/usb/devices".to_string())]);

    let effects = run.step(Event::Listings(vec![Some(texts(&["bar"]))]));
    assert!(effects.is_empty());
    assert_eq!(run.phase(), Phase::DevicesResolved);
    assert_eq!(run.devices(), &texts(&["/sys/bus/usb/drivers/foo/bar"]));
    assert_eq!(run.first_device(), Some("/sys/bus/usb/drivers/foo/bar"));

    let effects =
        run.step(Event::ModeInput { wanted: "laptop".to_string(), first_present: false });
    assert!(effects.is_empty());
    assert_eq!(run.phase(), Phase::ModeDetermined);
    assert_eq!(run.target(), Some(Mode::Laptop));

    assert!(proceed(&mut run).is_empty());
    assert_eq!(run.phase(), Phase::PreCommandsRun);

    assert_eq!(
        proceed(&mut run),
        vec![Effect::Write(WriteRequest {
            target: "/sys/bus/usb/drivers/foo/bind".to_string(),
            line: "bar\n".to_string(),
            notice: "binding \"bar\" to /sys/bus/usb/drivers/foo".to_string(),
        })]
    );
    assert_eq!(run.phase(), Phase::DevicesSwitched);

    assert!(proceed(&mut run).is_empty());
    assert_eq!(run.phase(), Phase::PostCommandsRun);
    assert!(proceed(&mut run).is_empty());
    assert_eq!(run.phase(), Phase::Done);
    assert!(run.is_finished());
}

#[test]
fn without_a_wanted_mode_a_laptop_becomes_a_tablet() {
    let config = Config {
        devices: texts(&["/sys/bus/serio/drivers/atkbd/serio0"]),
        laptop_commands: texts(&["xrandr --rotate normal"]),
        tablet_commands: texts(&["xrandr --rotate left", "sudo rfkill block bluetooth"]),
    };
    let mut run = Run::new(config, root());
    assert_eq!(run.directories(), vec![None]);
    assert!(run.step(Event::Listings(vec![None])).is_empty());
    assert!(run
        .step(Event::ModeInput { wanted: String::new(), first_present: true })
        .is_empty());
    assert_eq!(run.target(), Some(Mode::Tablet));

    assert_eq!(
        proceed(&mut run),
        vec![as_alice("xrandr --rotate left"), shell("sudo rfkill block bluetooth")]
    );
    assert_eq!(run.phase(), Phase::PreCommandsRun);
    assert_eq!(
        proceed(&mut run),
        vec![Effect::Write(WriteRequest {
            target: "/sys/bus/serio/drivers/atkbd/unbind".to_string(),
            line: "serio0\n".to_string(),
            notice: "unbinding \"serio0\" from /sys/bus/serio/drivers/atkbd".to_string(),
        })]
    );
    assert_eq!(run.phase(), Phase::DevicesSwitched);
    assert!(proceed(&mut run).is_empty());
    assert!(proceed(&mut run).is_empty());
    assert_eq!(run.phase(), Phase::Done);
}

#[test]
fn without_a_wanted_mode_a_tablet_becomes_a_laptop() {
    let config = Config {
        devices: texts(&["/sys/bus/serio/drivers/atkbd/serio0"]),
        laptop_commands: texts(&["xrandr --rotate normal"]),
        tablet_commands: texts(&["xrandr --rotate left"]),
    };
    let mut run = Run::new(config, user());
    run.step(Event::Listings(vec![None]));
    run.step(Event::ModeInput { wanted: String::new(), first_present: false });
    assert_eq!(run.target(), Some(Mode::Laptop));
    assert!(proceed(&mut run).is_empty());
    let writes = proceed(&mut run);
    assert_eq!(
        writes,
        vec![Effect::Write(WriteRequest {
            target: "bind".to_string(),
            line: "serio0\n".to_string(),
            notice: "binding \"serio0\" to /sys/bus/serio/drivers/atkbd".to_string(),
        })]
    );
    assert_eq!(proceed(&mut run), vec![shell("xrandr --rotate normal")]);
    assert_eq!(run.phase(), Phase::PostCommandsRun);
    assert!(proceed(&mut run).is_empty());
    assert_eq!(run.phase(), Phase::Done);
}

#[test]
fn unknown_wanted_mode_gives_the_run_up_before_anything_happens() {
    let config = Config {
        devices: texts(&["/sys/bus/serio/drivers/atkbd/serio0"]),
        laptop_commands: texts(&["xrandr --rotate normal"]),
        tablet_commands: texts(&["xrandr --rotate left"]),
    };
    let mut run = Run::new(config, root());
    assert!(run.step(Event::Listings(vec![None])).is_empty());
    let effects =
        run.step(Event::ModeInput { wanted: "banana".to_string(), first_present: true });
    assert!(effects.is_empty());
    assert_eq!(run.phase(), Phase::Aborted(AbortReason::InvalidMode));
    assert!(run.is_finished());
    assert_eq!(run.target(), None);
    assert!(proceed(&mut run).is_empty());
    assert!(proceed(&mut run).is_empty());
    assert_eq!(run.phase(), Phase::Aborted(AbortReason::InvalidMode));
}

#[test]
fn pattern_that_does_not_resolve_is_dropped_and_the_run_goes_on() {
    let config = Config {
        devices: texts(&[
            "/sys/bus/usb/drivers/usbhid/9-*",
            "/sys/bus/serio/drivers/atkbd/serio*",
            "/sys/bus/i2c/drivers/i2c_hid/*",
        ]),
        laptop_commands: texts(&[]),
        tablet_commands: texts(&[]),
    };
    let mut run = Run::new(config, root());
    assert_eq!(
        run.directories(),
        vec![
            Some("/sys/bus/usb/devices".to_string()),
            Some("/sys/bus/serio/devices".to_string()),
            Some("/sys/bus/i2c/devices".to_string()),
        ]
    );
    let effects = run.step(Event::Listings(vec![
        Some(texts(&["1-1:1.0"])),
        Some(texts(&["serio1", "serio0"])),
        None,
    ]));
    assert_eq!(
        effects,
        vec![
            Effect::Dropped {
                pattern: "/sys/bus/usb/drivers/usbhid/9-*".to_string(),
                error: ResolutionError::NoMatch("9-*".to_string()),
            },
            Effect::Dropped {
                pattern: "/sys/bus/i2c/drivers/i2c_hid/*".to_string(),
                error: ResolutionError::BusNotFound,
            },
        ]
    );
    assert_eq!(run.devices(), &texts(&["/sys/bus/serio/drivers/atkbd/serio1"]));
    assert_eq!(run.phase(), Phase::DevicesResolved);
}

#[test]
fn malformed_first_device_gives_up_where_the_current_mode_is_needed() {
    let config = Config {
        devices: texts(&["/sys/bus/serio/atkbd/serio0"]),
        laptop_commands: texts(&[]),
        tablet_commands: texts(&["onboard"]),
    };
    let mut run = Run::new(config, root());
    run.step(Event::Listings(vec![None]));
    let effects = run.step(Event::ModeInput { wanted: String::new(), first_present: true });
    assert!(effects.is_empty());
    assert_eq!(run.phase(), Phase::Aborted(AbortReason::InvalidDevice));
    assert!(proceed(&mut run).is_empty());
}

#[test]
fn empty_configuration_without_a_wanted_mode_gives_up() {
    let mut run = Run::new(Config::empty(), root());
    assert!(run.directories().is_empty());
    assert!(run.step(Event::Listings(vec![])).is_empty());
    assert_eq!(run.first_device(), None);
    run.step(Event::ModeInput { wanted: String::new(), first_present: false });
    assert_eq!(run.phase(), Phase::Aborted(AbortReason::InvalidDevice));
}

#[test]
fn empty_configuration_with_a_wanted_mode_does_nothing() {
    let mut run = Run::new(Config::empty(), root());
    assert!(run.step(Event::Listings(vec![])).is_empty());
    run.step(Event::ModeInput { wanted: "tablet".to_string(), first_present: false });
    assert!(proceed(&mut run).is_empty());
    assert!(proceed(&mut run).is_empty());
    assert!(proceed(&mut run).is_empty());
    assert!(proceed(&mut run).is_empty());
    assert_eq!(run.phase(), Phase::Done);
}

#[test]
fn malformed_device_ends_the_switch_and_the_run() {
    let config = Config {
        devices: texts(&[
            "/sys/bus/serio/drivers/atkbd/serio0",
            "/sys/bus/usb/usbhid/1-1:1.0",
            "/sys/bus/i2c/drivers/i2c_hid/i2c-ELAN0000:00",
        ]),
        laptop_commands: texts(&["xrandr --rotate normal"]),
        tablet_commands: texts(&[]),
    };
    let mut run = Run::new(config, root());
    run.step(Event::Listings(vec![None, None, None]));
    run.step(Event::ModeInput { wanted: "laptop".to_string(), first_present: false });
    assert!(proceed(&mut run).is_empty());
    let effects = proceed(&mut run);
    assert_eq!(
        effects,
        vec![Effect::Write(WriteRequest {
            target: "/sys/bus/serio/drivers/atkbd/bind".to_string(),
            line: "serio0\n".to_string(),
            notice: "binding \"serio0\" to /sys/bus/serio/drivers/atkbd".to_string(),
        })]
    );
    assert_eq!(run.phase(), Phase::Aborted(AbortReason::InvalidDevice));
    assert!(proceed(&mut run).is_empty());
    assert_eq!(run.phase(), Phase::Aborted(AbortReason::InvalidDevice));
}

#[test]
fn command_that_cannot_be_started_does_not_end_the_run() {
    let config = Config {
        devices: texts(&["/sys/bus/serio/drivers/atkbd/serio0"]),
        laptop_commands: texts(&[]),
        tablet_commands: texts(&["onboard", "sudo true"]),
    };
    let context = PrivilegeContext { superuser: true, orig_user: None, session_bus: None };
    let mut run = Run::new(config, context);
    run.step(Event::Listings(vec![None]));
    run.step(Event::ModeInput { wanted: "tablet".to_string(), first_present: true });
    assert_eq!(
        proceed(&mut run),
        vec![
            Effect::CommandFailed {
                command: "onboard".to_string(),
                failure: SpawnError::MissingContext,
            },
            shell("sudo true"),
        ]
    );
    assert_eq!(run.phase(), Phase::PreCommandsRun);
    assert_eq!(proceed(&mut run).len(), 1);
    assert_eq!(run.phase(), Phase::DevicesSwitched);
}

#[test]
fn event_that_the_phase_does_not_wait_for_changes_nothing() {
    let config = Config {
        devices: texts(&["/sys/bus/serio/drivers/atkbd/serio0"]),
        laptop_commands: texts(&[]),
        tablet_commands: texts(&[]),
    };
    let mut run = Run::new(config, root());
    assert!(proceed(&mut run).is_empty());
    assert_eq!(run.phase(), Phase::Idle);
    assert!(run
        .step(Event::ModeInput { wanted: "laptop".to_string(), first_present: true })
        .is_empty());
    assert_eq!(run.phase(), Phase::Idle);
    run.step(Event::Listings(vec![None]));
    assert!(run.step(Event::Listings(vec![None])).is_empty());
    assert_eq!(run.phase(), Phase::DevicesResolved);
    assert!(proceed(&mut run).is_empty());
    assert_eq!(run.phase(), Phase::DevicesResolved);
}

#[test]
fn missing_listing_counts_as_unread() {
    let config = Config {
        devices: texts(&["/sys/bus/serio/drivers/atkbd/serio0", "/sys/bus/usb/drivers/foo/*"]),
        laptop_commands: texts(&[]),
        tablet_commands: texts(&[]),
    };
    let mut run = Run::new(config, root());
    let effects = run.step(Event::Listings(vec![]));
    assert_eq!(
        effects,
        vec![Effect::Dropped {
            pattern: "/sys/bus/usb/drivers/foo/*".to_string(),
            error: ResolutionError::BusNotFound,
        }]
    );
    assert_eq!(run.devices(), &texts(&["/sys/bus/serio/drivers/atkbd/serio0"]));
}

#[test]
fn resolve_patterns_keeps_what_resolves_in_order() {
    let patterns = texts(&["/sys/bus/a/drivers/x/*", "/sys/bus/b/drivers/y/z", "/sys/bus/c/drivers/w/q*"]);
    let listings = vec![Some(texts(&["one"])), None, Some(texts(&["p", "q2", "q1"]))];
    let (devices, dropped) = resolve_patterns(&patterns, &listings);
    assert_eq!(
        devices,
        texts(&["/sys/bus/a/drivers/x/one", "/sys/bus/b/drivers/y/z", "/sys/bus/c/drivers/w/q2"])
    );
    assert!(dropped.is_empty());
}

#[test]
fn plan_commands_keeps_the_order() {
    assert_eq!(plan_commands(&texts(&["a", "b", "sudo c"]), &user()), vec![shell("a"), shell("b"), shell("sudo c")]);
    assert_eq!(
        plan_commands(&texts(&["a", "sudo c"]), &root()),
        vec![as_alice("a"), shell("sudo c")]
    );
    assert!(plan_commands(&texts(&[]), &root()).is_empty());
}

#[test]
fn plan_writes_wraps_each_request() {
    let request = WriteRequest {
        target: "t".to_string(),
        line: "l\n".to_string(),
        notice: "n".to_string(),
    };
    assert_eq!(plan_writes(&vec![request.clone(), request.clone()]), vec![
        Effect::Write(request.clone()),
        Effect::Write(request),
    ]);
}
