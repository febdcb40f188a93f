use twoinone::device_path::ShapeError;
use twoinone::mode::{
    determine_current_mode, parse_requested_mode, target_mode, Mode, ModeError, TargetError,
};

fn devices(list: &[&str]) -> Vec<String> {
    list.iter().map(|s| s.to_string()).collect()
}

#[test]
fn present_device_means_laptop() {
    let list = devices(&["/sys/bus/usb/drivers/foo/bar"]);
    assert_eq!(determine_current_mode(&list, true), Ok(Mode::Laptop));
}

#[test]
fn absent_device_means_tablet() {
    let list = devices(&["/sys/bus/usb/drivers/foo/bar"]);
    assert_eq!(determine_current_mode(&list, false), Ok(Mode::Tablet));
}

#[test]
fn presence_flips_the_current_mode() {
    let list = devices(&["/sys/bus/usb/drivers/foo/bar", "not a device"]);
    let with = determine_current_mode(&list, true).unwrap();
    let without = determine_current_mode(&list, false).unwrap();
    assert_eq!(with.toggled(), without);
    assert_eq!(without.toggled(), with);
}

#[test]
fn only_the_first_device_is_looked_at() {
    let list = devices(&["/sys/bus/usb/drivers/foo/bar", "not a device"]);
    assert_eq!(determine_current_mode(&list, true), Ok(Mode::Laptop));
    let list = devices(&["not a device", "/sys/bus/usb/drivers/foo/bar"]);
    assert_eq!(determine_current_mode(&list, true), Err(ShapeError::InvalidDevice));
}

#[test]
fn malformed_or_missing_first_device_has_no_mode() {
    assert_eq!(
        determine_current_mode(&devices(&["/sys/bus/usb/foo/bar"]), true),
        Err(ShapeError::InvalidDevice)
    );
    assert_eq!(determine_current_mode(&devices(&[]), true), Err(ShapeError::InvalidDevice));
    assert_eq!(determine_current_mode(&devices(&[]), false), Err(ShapeError::InvalidDevice));
}

#[test]
fn requested_mode_is_read_letter_for_letter() {
    assert_eq!(parse_requested_mode("laptop"), Ok(Some(Mode::Laptop)));
    assert_eq!(parse_requested_mode("tablet"), Ok(Some(Mode::Tablet)));
    assert_eq!(parse_requested_mode(""), Ok(None));
    assert_eq!(parse_requested_mode("Laptop"), Err(ModeError::Invalid));
    assert_eq!(parse_requested_mode("TABLET"), Err(ModeError::Invalid));
    assert_eq!(parse_requested_mode(" tablet"), Err(ModeError::Invalid));
    assert_eq!(parse_requested_mode("foo"), Err(ModeError::Invalid));
}

#[test]
fn target_mode_laptop() {
    let list = devices(&["/sys/bus/usb/drivers/foo/bar"]);
    assert_eq!(target_mode("laptop", &list, true), Ok(Mode::Laptop));
    assert_eq!(target_mode("laptop", &list, false), Ok(Mode::Laptop));
    assert_eq!(target_mode("laptop", &devices(&[]), false), Ok(Mode::Laptop));
}

#[test]
fn target_mode_tablet() {
    let list = devices(&["/sys/bus/usb/drivers/foo/bar"]);
    assert_eq!(target_mode("tablet", &list, true), Ok(Mode::Tablet));
    assert_eq!(target_mode("tablet", &list, false), Ok(Mode::Tablet));
    assert_eq!(target_mode("tablet", &devices(&["junk"]), false), Ok(Mode::Tablet));
}

#[test]
fn target_mode_empty_is_the_other_than_current() {
    let list = devices(&["/sys/bus/usb/drivers/foo/bar"]);
    assert_eq!(target_mode("", &list, true), Ok(Mode::Tablet));
    assert_eq!(target_mode("", &list, false), Ok(Mode::Laptop));
}

#[test]
fn target_mode_foo_is_invalid() {
    let list = devices(&["/sys/bus/usb/drivers/foo/bar"]);
    assert_eq!(target_mode("foo", &list, true), Err(TargetError::Mode(ModeError::Invalid)));
    assert_eq!(target_mode("banana", &list, false), Err(TargetError::Mode(ModeError::Invalid)));
    assert_eq!(
        target_mode("foo", &devices(&["junk"]), true),
        Err(TargetError::Mode(ModeError::Invalid))
    );
}

#[test]
fn target_mode_empty_needs_a_well_formed_first_device() {
    assert_eq!(
        target_mode("", &devices(&["junk"]), true),
        Err(TargetError::Shape(ShapeError::InvalidDevice))
    );
    assert_eq!(
        target_mode("", &devices(&[]), true),
        Err(TargetError::Shape(ShapeError::InvalidDevice))
    );
}
