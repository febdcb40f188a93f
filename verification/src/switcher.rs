//! Binding devices to their drivers and unbinding them.
//!
//! The kernel binds a device when its name is written to the file `bind` in
//! the driver's directory, and unbinds it through `unbind`. This module says
//! what is to be written where; the caller writes it.

use vstd::prelude::*;
use vstd::string::*;
use crate::device_path::{
    device_path_text, driver_dir_text, has_device_shape, is_device_path, leaf_of,
    lemma_parent_and_leaf, parent_of, parse_device_path, valid_segment, DevicePath,
    DevicePathView,
};
use crate::text::{begins_with, starts_with, texts_of};

verus! {

/// What is asked of the kernel.
#[derive(Debug, Clone, Copy, PartialEq, Eq, Structural)]
pub enum SwitchAction {
    Bind,
    Unbind,
}

impl SwitchAction {
    /// The name of the action, which is also the name of its control file.
    pub open spec fn verb(self) -> Seq<char> {
        match self {
            SwitchAction::Bind => "bind"@,
            SwitchAction::Unbind => "unbind"@,
        }
    }

    /// The word that joins device and driver in a notice.
    pub open spec fn preposition(self) -> Seq<char> {
        match self {
            SwitchAction::Bind => "to"@,
            SwitchAction::Unbind => "from"@,
        }
    }

    /// The name of the action.
    pub fn as_str(self) -> (r: &'static str)
        ensures
            r@ == self.verb(),
    {
        match self {
            SwitchAction::Bind => "bind",
            SwitchAction::Unbind => "unbind",
        }
    }

    /// The word that joins device and driver in a notice.
    pub fn preposition_str(self) -> (r: &'static str)
        ensures
            r@ == self.preposition(),
    {
        match self {
            SwitchAction::Bind => "to",
            SwitchAction::Unbind => "from",
        }
    }
}

/// One write to a control file, with the line that announces it.
#[derive(Debug, PartialEq, Eq)]
pub struct WriteRequest {
    /// The file to append to.
    pub target: String,
    /// What to append: the device's name and a line feed.
    pub line: String,
    /// The progress line to show before the write.
    pub notice: String,
}

/// A write request as a mathematical value.
pub struct WriteRequestView {
    pub target: Seq<char>,
    pub line: Seq<char>,
    pub notice: Seq<char>,
}

impl Clone for WriteRequest {
    fn clone(&self) -> (r: Self)
        ensures
            r@ == self@,
    {
        WriteRequest {
            target: self.target.clone(),
            line: self.line.clone(),
            notice: self.notice.clone(),
        }
    }
}

impl View for WriteRequest {
    type V = WriteRequestView;

    open spec fn view(&self) -> WriteRequestView {
        WriteRequestView { target: self.target@, line: self.line@, notice: self.notice@ }
    }
}

/// The control file of `action` for the device at `path`: in the directory of
/// its driver, named as the action is.
pub open spec fn control_file(path: Seq<char>, action: SwitchAction) -> Seq<char> {
    parent_of(path) + "/"@ + action.verb()
}

/// Where the device's name goes. The superuser writes to the control file.
/// Anyone else writes to a file named as the action is, in the working
/// directory.
pub open spec fn write_target(path: Seq<char>, action: SwitchAction, superuser: bool) -> Seq<char> {
    if superuser {
        control_file(path, action)
    } else {
        action.verb()
    }
}

/// The progress line: the action, the device's name in double quotes, and the
/// driver's directory.
pub open spec fn notice_text(path: Seq<char>, action: SwitchAction) -> Seq<char> {
    action.verb() + "ing \""@ + leaf_of(path) + "\" "@ + action.preposition() + " "@ + parent_of(
        path,
    )
}

/// The write that carries out `action` on the device at `path`.
pub open spec fn request_for(path: Seq<char>, action: SwitchAction, superuser: bool) -> WriteRequestView {
    WriteRequestView {
        target: write_target(path, action, superuser),
        line: leaf_of(path) + "\n"@,
        notice: notice_text(path, action),
    }
}

/// The write that carries out `action` on `device`.
pub fn write_request(device: &DevicePath, action: SwitchAction, superuser: bool) -> (r: WriteRequest)
    ensures
        r@ == request_for(device@.text(), action, superuser),
{
    let dir = device.driver_dir();
    let name = device.device();
    let target = if superuser {
        let mut t = dir.clone();
        t.append("/");
        t.append(action.as_str());
        t
    } else {
        String::from_str(action.as_str())
    };
    let mut line = String::from_str(name);
    line.append("\n");
    let mut notice = String::from_str(action.as_str());
    notice.append("ing \"");
    notice.append(name);
    notice.append("\" ");
    notice.append(action.preposition_str());
    notice.append(" ");
    notice.append(dir.as_str());
    WriteRequest { target, line, notice }
}

/// Why switching stopped.
#[derive(Debug, Clone, Copy, PartialEq, Eq, Structural)]
pub enum FatalError {
    /// A device in the list is not of the shape
    /// `/sys/bus/{bus}/drivers/{driver}/{device}`.
    InvalidDevice,
}

/// What switching a list of devices comes to: the writes to make, in order,
/// and whether the list was gone through to its end.
#[derive(Debug, PartialEq, Eq)]
pub struct SwitchPlan {
    /// One write for each device before the first malformed one.
    pub requests: Vec<WriteRequest>,
    /// `Err` where a malformed device ended the run.
    pub outcome: Result<(), FatalError>,
}

/// The offset of the first device at or after `from` that is not of the shape
/// `/sys/bus/{bus}/drivers/{driver}/{device}`, or the length of the list where
/// all from there on are.
pub open spec fn first_malformed_from(devices: Seq<Seq<char>>, from: int) -> int
    decreases devices.len() - from,
{
    if from < 0 || from >= devices.len() {
        devices.len() as int
    } else if !has_device_shape(devices[from]) {
        from
    } else {
        first_malformed_from(devices, from + 1)
    }
}

/// The offset of the first malformed device, or the length of the list.
pub open spec fn first_malformed(devices: Seq<Seq<char>>) -> int {
    first_malformed_from(devices, 0)
}

/// The writes that switching `devices` comes to: one for each device before
/// the first malformed one, in order.
pub open spec fn planned_requests(devices: Seq<Seq<char>>, action: SwitchAction, superuser: bool) -> Seq<
    WriteRequestView,
> {
    Seq::new(
        first_malformed(devices) as nat,
        |j: int| request_for(devices[j], action, superuser),
    )
}

/// How switching `devices` ends: in failure exactly where a malformed device
/// is among them.
pub open spec fn planned_outcome(devices: Seq<Seq<char>>) -> Result<(), FatalError> {
    if first_malformed(devices) == devices.len() {
        Ok(())
    } else {
        Err(FatalError::InvalidDevice)
    }
}

/// The views of the requests in `v`.
pub open spec fn requests_of(v: Seq<WriteRequest>) -> Seq<WriteRequestView> {
    v.map_values(|r: WriteRequest| r@)
}

/// What `first_malformed_from` finds is malformed, and every device between
/// `from` and it is well formed.
pub proof fn lemma_first_malformed_from(devices: Seq<Seq<char>>, from: int)
    requires
        0 <= from <= devices.len(),
    ensures
        ({
            let at = first_malformed_from(devices, from);
            &&& from <= at <= devices.len()
            &&& at < devices.len() ==> !has_device_shape(devices[at])
            &&& forall|j: int| from <= j < at ==> has_device_shape(#[trigger] devices[j])
        }),
    decreases devices.len() - from,
{
    if from < devices.len() && has_device_shape(devices[from]) {
        lemma_first_malformed_from(devices, from + 1);
    }
}

/// Switching goes device by device and stops at the first malformed one: the
/// devices before the one at `at` get their writes, in order, and no device
/// from it on gets one; the outcome is failure.
pub proof fn lemma_switch_stops_at_first_malformed(
    devices: Seq<Seq<char>>,
    action: SwitchAction,
    superuser: bool,
    at: int,
)
    requires
        0 <= at < devices.len(),
        !has_device_shape(devices[at]),
        forall|j: int| 0 <= j < at ==> has_device_shape(#[trigger] devices[j]),
    ensures
        planned_requests(devices, action, superuser).len() == at,
        forall|j: int|
            0 <= j < at ==> #[trigger] planned_requests(devices, action, superuser)[j]
                == request_for(devices[j], action, superuser),
        planned_outcome(devices) == Err::<(), FatalError>(FatalError::InvalidDevice),
{
    lemma_first_malformed_from(devices, 0);
    let found = first_malformed(devices);
    assert(found == at) by {
        if found < at {
            assert(has_device_shape(devices[found]));
        }
    }
}

/// Where every device is well formed, each gets its write and the outcome is
/// success.
pub proof fn lemma_switch_reaches_every_device(
    devices: Seq<Seq<char>>,
    action: SwitchAction,
    superuser: bool,
)
    requires
        forall|j: int| 0 <= j < devices.len() ==> has_device_shape(#[trigger] devices[j]),
    ensures
        planned_requests(devices, action, superuser).len() == devices.len(),
        forall|j: int|
            0 <= j < devices.len() ==> #[trigger] planned_requests(devices, action, superuser)[j]
                == request_for(devices[j], action, superuser),
        planned_outcome(devices) == Ok::<(), FatalError>(()),
{
    lemma_first_malformed_from(devices, 0);
}

/// The write for a device path that the superuser makes: the device's name
/// and a line feed, to the control file in the driver's directory.
pub proof fn lemma_superuser_request(
    bus: Seq<char>,
    driver: Seq<char>,
    device: Seq<char>,
    action: SwitchAction,
)
    requires
        valid_segment(bus),
        valid_segment(driver),
        valid_segment(device),
    ensures
        request_for(device_path_text(bus, driver, device), action, true).target
            == driver_dir_text(bus, driver) + "/"@ + action.verb(),
        request_for(device_path_text(bus, driver, device), action, true).line == device + "\n"@,
        request_for(device_path_text(bus, driver, device), action, false).target == action.verb(),
{
    lemma_parent_and_leaf(DevicePathView { bus, driver, device });
}

/// Plans `action` on each of `devices`, in order. A device that is not of the
/// shape `/sys/bus/{bus}/drivers/{driver}/{device}` ends the plan: the devices
/// before it keep their writes, it and those behind it get none.
pub fn switch_devices(devices: &Vec<String>, action: SwitchAction, superuser: bool) -> (plan:
    SwitchPlan)
    ensures
        requests_of(plan.requests@) == planned_requests(texts_of(devices@), action, superuser),
        plan.outcome == planned_outcome(texts_of(devices@)),
{
    let mut requests: Vec<WriteRequest> = Vec::new();
    let mut i: usize = 0;
    while i < devices.len()
        invariant
            i <= devices.len(),
            requests.len() == i,
            first_malformed(texts_of(devices@)) == first_malformed_from(
                texts_of(devices@),
                i as int,
            ),
            forall|j: int|
                0 <= j < i ==> (#[trigger] requests[j])@ == request_for(
                    devices[j]@,
                    action,
                    superuser,
                ),
        decreases devices.len() - i,
    {
        match parse_device_path(devices[i].as_str()) {
            Err(_) => {
                proof {
                    assert(texts_of(devices@)[i as int] == devices[i as int]@);
                    assert(requests_of(requests@) =~= planned_requests(
                        texts_of(devices@),
                        action,
                        superuser,
                    ));
                }
                return SwitchPlan { requests, outcome: Err(FatalError::InvalidDevice) };
            },
            Ok(device) => {
                proof {
                    assert(is_device_path(
                        devices[i as int]@,
                        device@.bus,
                        device@.driver,
                        device@.device,
                    ));
                    assert(texts_of(devices@)[i as int] == devices[i as int]@);
                }
                requests.push(write_request(&device, action, superuser));
            },
        }
        i += 1;
    }
    proof {
        assert(requests_of(requests@) =~= planned_requests(
            texts_of(devices@),
            action,
            superuser,
        ));
    }
    SwitchPlan { requests, outcome: Ok(()) }
}

/// The offset of the first of `devices` that is not of the shape
/// `/sys/bus/{bus}/drivers/{driver}/{device}`: the one that ends a switch.
/// Nothing where every device is well formed.
pub fn first_malformed_device(devices: &Vec<String>) -> (r: Option<usize>)
    ensures
        match r {
            Some(at) => at < devices.len() && at == first_malformed(texts_of(devices@)),
            None => first_malformed(texts_of(devices@)) == devices.len(),
        },
{
    let mut i: usize = 0;
    while i < devices.len()
        invariant
            i <= devices.len(),
            first_malformed(texts_of(devices@)) == first_malformed_from(
                texts_of(devices@),
                i as int,
            ),
        decreases devices.len() - i,
    {
        proof {
            assert(texts_of(devices@)[i as int] == devices[i as int]@);
        }
        match parse_device_path(devices[i].as_str()) {
            Err(_) => {
                return Some(i);
            },
            Ok(device) => {
                proof {
                    assert(is_device_path(
                        devices[i as int]@,
                        device@.bus,
                        device@.driver,
                        device@.device,
                    ));
                }
            },
        }
        i += 1;
    }
    None
}

/// How a failed write is taken.
#[derive(Debug, Clone, Copy, PartialEq, Eq, Structural)]
pub enum WriteFailure {
    /// The device was in the wanted state already: nothing to tell.
    Benign,
    /// Anything else: to be shown, and the run goes on.
    Reported,
}

/// The kernel's answer for a device that is in the wanted state already:
/// "No such device" on unbinding what is not bound, "Device or resource busy"
/// on binding what is bound.
pub open spec fn is_benign(message: Seq<char>) -> bool {
    begins_with(message, "No such device"@) || begins_with(message, "Device or resource busy"@)
}

/// A message that the kernel begins with one of its two refusals is benign,
/// whatever follows: to unbind what is unbound, or bind what is bound, a
/// second time raises nothing to report.
pub proof fn lemma_kernel_refusals_are_benign(rest: Seq<char>)
    ensures
        is_benign("No such device"@ + rest),
        is_benign("Device or resource busy"@ + rest),
{
    let gone = "No such device"@;
    let busy = "Device or resource busy"@;
    assert((gone + rest).subrange(0, gone.len() as int) =~= gone);
    assert((busy + rest).subrange(0, busy.len() as int) =~= busy);
}

/// Takes the message of a failed write: benign where it begins with
/// "No such device" or "Device or resource busy", reported otherwise.
pub fn classify_write_failure(message: &str) -> (r: WriteFailure)
    ensures
        r == if is_benign(message@) {
            WriteFailure::Benign
        } else {
            WriteFailure::Reported
        },
{
    if starts_with(message, "No such device") || starts_with(message, "Device or resource busy") {
        WriteFailure::Benign
    } else {
        WriteFailure::Reported
    }
}

} // verus!
