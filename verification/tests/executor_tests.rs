use twoinone::executor::{smart_execute, Invocation, PrivilegeContext, SpawnError};

fn args(list: &[&str]) -> Vec<String> {
    list.iter().map(|s| s.to_string()).collect()
}

fn root_with_session() -> PrivilegeContext {
    PrivilegeContext {
        superuser: true,
        orig_user: Some("alice".to_string()),
        session_bus: Some("unix:path=/run/user/1000/bus".to_string()),
    }
}

#[test]
fn superuser_hands_a_command_to_the_desktop_user() {
    assert_eq!(
        smart_execute("xrandr --rotate left", &root_with_session()),
        Ok(Invocation {
            program: "sudo".to_string(),
            args: args(&[
                "-u",
                "alice",
                "DBUS_SESSION_BUS_ADDRESS=unix:path=/run/user/1000/bus",
                "bash",
                "-c",
                "xrandr --rotate left",
            ]),
        })
    );
}

#[test]
fn superuser_runs_a_sudo_command_as_it_is() {
    assert_eq!(
        smart_execute("sudo systemctl restart iio-sensor-proxy", &root_with_session()),
        Ok(Invocation {
            program: "bash".to_string(),
            args: args(&["-c", "sudo systemctl restart iio-sensor-proxy"]),
        })
    );
}

#[test]
fn sudo_prefix_needs_its_blank() {
    let planned = smart_execute("sudoku", &root_with_session()).unwrap();
    assert_eq!(planned.program, "sudo");
    assert_eq!(planned.args[5], "sudoku");
}

#[test]
fn anyone_else_runs_a_command_as_it_is() {
    let context = PrivilegeContext { superuser: false, orig_user: None, session_bus: None };
    assert_eq!(
        smart_execute("xrandr --rotate left", &context),
        Ok(Invocation { program: "bash".to_string(), args: args(&["-c", "xrandr --rotate left"]) })
    );
}

#[test]
fn superuser_without_user_or_session_cannot_hand_over() {
    let no_user = PrivilegeContext {
        superuser: true,
        orig_user: None,
        session_bus: Some("unix:path=/run/user/1000/bus".to_string()),
    };
    assert_eq!(smart_execute("onboard", &no_user), Err(SpawnError::MissingContext));
    let no_bus =
        PrivilegeContext { superuser: true, orig_user: Some("alice".to_string()), session_bus: None };
    assert_eq!(smart_execute("onboard", &no_bus), Err(SpawnError::MissingContext));
    let neither = PrivilegeContext { superuser: true, orig_user: None, session_bus: None };
    assert_eq!(smart_execute("onboard", &neither), Err(SpawnError::MissingContext));
}

#[test]
fn sudo_command_needs_no_user_or_session() {
    let neither = PrivilegeContext { superuser: true, orig_user: None, session_bus: None };
    assert_eq!(
        smart_execute("sudo true", &neither),
        Ok(Invocation { program: "bash".to_string(), args: args(&["-c", "sudo true"]) })
    );
}
