//! The two modes, and which of them is current and which is wanted.
//!
//! The kernel keeps an entry for a device in the directory of the driver it
//! is bound to. So the machine is in laptop mode while the first device's path
//! exists, and in tablet mode once it is gone.

use vstd::prelude::*;
use vstd::string::*;
use crate::device_path::{has_device_shape, parse_device_path, ShapeError};
use crate::text::{same_text, texts_of};

verus! {

/// The configuration the machine is in, or is to be put in.
#[derive(Debug, Clone, Copy, PartialEq, Eq, Structural)]
pub enum Mode {
    /// Keyboard and touchpad bound to their drivers.
    Laptop,
    /// Keyboard and touchpad unbound.
    Tablet,
}

impl Mode {
    /// The other mode.
    pub open spec fn other(self) -> Mode {
        match self {
            Mode::Laptop => Mode::Tablet,
            Mode::Tablet => Mode::Laptop,
        }
    }

    /// The other mode.
    pub fn toggled(self) -> (r: Mode)
        ensures
            r == self.other(),
    {
        match self {
            Mode::Laptop => Mode::Tablet,
            Mode::Tablet => Mode::Laptop,
        }
    }
}

/// Why a wanted mode was not accepted.
#[derive(Debug, Clone, Copy, PartialEq, Eq, Structural)]
pub enum ModeError {
    /// The text is neither `laptop` nor `tablet` nor empty.
    Invalid,
}

/// Why no target mode could be found.
#[derive(Debug, Clone, Copy, PartialEq, Eq, Structural)]
pub enum TargetError {
    /// The wanted mode was not accepted.
    Mode(ModeError),
    /// The current mode was needed, and the first device is no device path.
    Shape(ShapeError),
}

/// The current mode, read off the first of `devices`: laptop where its path
/// exists, tablet where it does not. A list whose first device is missing or
/// malformed has no current mode.
pub open spec fn current_mode(devices: Seq<Seq<char>>, first_present: bool) -> Result<
    Mode,
    ShapeError,
> {
    if devices.len() == 0 || !has_device_shape(devices[0]) {
        Err(ShapeError::InvalidDevice)
    } else if first_present {
        Ok(Mode::Laptop)
    } else {
        Ok(Mode::Tablet)
    }
}

/// What a wanted-mode text asks for: a mode, nothing (the empty text), or
/// something that is no mode.
pub open spec fn requested_mode(wanted: Seq<char>) -> Result<Option<Mode>, ModeError> {
    if wanted == "laptop"@ {
        Ok(Some(Mode::Laptop))
    } else if wanted == "tablet"@ {
        Ok(Some(Mode::Tablet))
    } else if wanted.len() == 0 {
        Ok(None)
    } else {
        Err(ModeError::Invalid)
    }
}

/// The mode to switch to: the wanted one where one is named, else the other
/// than the current one.
pub open spec fn target_of(wanted: Seq<char>, devices: Seq<Seq<char>>, first_present: bool) -> Result<
    Mode,
    TargetError,
> {
    match requested_mode(wanted) {
        Err(e) => Err(TargetError::Mode(e)),
        Ok(Some(mode)) => Ok(mode),
        Ok(None) => match current_mode(devices, first_present) {
            Ok(mode) => Ok(mode.other()),
            Err(e) => Err(TargetError::Shape(e)),
        },
    }
}

/// The current mode. `first_present` says whether the path of the first
/// device exists; no other device is looked at.
pub fn determine_current_mode(devices: &Vec<String>, first_present: bool) -> (r: Result<
    Mode,
    ShapeError,
>)
    ensures
        r == current_mode(texts_of(devices@), first_present),
{
    if devices.len() == 0 {
        return Err(ShapeError::InvalidDevice);
    }
    match parse_device_path(devices[0].as_str()) {
        Err(e) => Err(e),
        Ok(device) => {
            proof {
                assert(crate::device_path::is_device_path(
                    devices[0]@,
                    device@.bus,
                    device@.driver,
                    device@.device,
                ));
            }
            if first_present {
                Ok(Mode::Laptop)
            } else {
                Ok(Mode::Tablet)
            }
        },
    }
}

/// Reads a wanted-mode text. `laptop` and `tablet` name a mode, letter for
/// letter; the empty text names none; any other text is an error.
pub fn parse_requested_mode(wanted: &str) -> (r: Result<Option<Mode>, ModeError>)
    ensures
        r == requested_mode(wanted@),
{
    if same_text(wanted, "laptop") {
        Ok(Some(Mode::Laptop))
    } else if same_text(wanted, "tablet") {
        Ok(Some(Mode::Tablet))
    } else if wanted.unicode_len() == 0 {
        Ok(None)
    } else {
        Err(ModeError::Invalid)
    }
}

/// The mode to switch to. A wanted mode wins; without one the machine goes to
/// the other mode than the one it is in.
pub fn target_mode(wanted: &str, devices: &Vec<String>, first_present: bool) -> (r: Result<
    Mode,
    TargetError,
>)
    ensures
        r == target_of(wanted@, texts_of(devices@), first_present),
{
    match parse_requested_mode(wanted) {
        Err(e) => Err(TargetError::Mode(e)),
        Ok(Some(mode)) => Ok(mode),
        Ok(None) => match determine_current_mode(devices, first_present) {
            Ok(mode) => Ok(mode.toggled()),
            Err(e) => Err(TargetError::Shape(e)),
        },
    }
}

/// Whether the first device's path exists decides the current mode, and
/// nothing else does: present is laptop, absent is tablet, and a change of
/// presence changes the mode.
pub proof fn lemma_presence_decides_mode(devices: Seq<Seq<char>>, first_present: bool)
    requires
        devices.len() > 0,
        has_device_shape(devices[0]),
    ensures
        current_mode(devices, true) == Ok::<Mode, ShapeError>(Mode::Laptop),
        current_mode(devices, false) == Ok::<Mode, ShapeError>(Mode::Tablet),
        current_mode(devices, !first_present) == Ok::<Mode, ShapeError>(
            current_mode(devices, first_present)->Ok_0.other(),
        ),
{
}

/// A named mode is the target whatever the devices are; without one the
/// target is the other mode than the current one.
pub proof fn lemma_target_mode(devices: Seq<Seq<char>>, first_present: bool)
    ensures
        target_of("laptop"@, devices, first_present) == Ok::<Mode, TargetError>(Mode::Laptop),
        target_of("tablet"@, devices, first_present) == Ok::<Mode, TargetError>(Mode::Tablet),
        current_mode(devices, first_present) is Ok ==> target_of(
            Seq::empty(),
            devices,
            first_present,
        ) == Ok::<Mode, TargetError>(current_mode(devices, first_present)->Ok_0.other()),
{
    reveal_strlit("laptop");
    reveal_strlit("tablet");
    assert("laptop"@ != "tablet"@) by {
        assert("laptop"@[0] != "tablet"@[0]);
    }
}

/// A text that names no mode and is not empty is refused, whatever the
/// devices are.
pub proof fn lemma_unknown_mode_is_refused(
    wanted: Seq<char>,
    devices: Seq<Seq<char>>,
    first_present: bool,
)
    requires
        wanted != "laptop"@,
        wanted != "tablet"@,
        wanted.len() > 0,
    ensures
        target_of(wanted, devices, first_present) == Err::<Mode, TargetError>(
            TargetError::Mode(ModeError::Invalid),
        ),
{
}

} // verus!
