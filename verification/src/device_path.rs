//! The shape of a device path: `/sys/bus/{bus}/drivers/{driver}/{device}`.
//!
//! A path is taken apart once, by [`parse_device_path`]. What comes out is a
//! [`DevicePath`], which cannot hold anything but three well-formed segments,
//! so whoever is handed one need not look at the text again.

use vstd::prelude::*;
use vstd::string::*;
use crate::text::{
    begins_with, contains_char, index_of_char_from, lemma_next_index_is, lemma_next_index_of,
    matches_at, next_index_of, occurs_at, slice_text, starts_with,
};

verus! {

/// A segment is not empty and holds no slash and no quote character, double
/// or single.
pub open spec fn valid_segment(s: Seq<char>) -> bool {
    &&& s.len() > 0
    &&& !s.contains('/')
    &&& !s.contains('"')
    &&& !s.contains('\'')
}

/// The directory of the driver `driver` on the bus `bus`.
pub open spec fn driver_dir_text(bus: Seq<char>, driver: Seq<char>) -> Seq<char> {
    "/sys/bus/"@ + bus + "/drivers/"@ + driver
}

/// The path of the device `device` below the driver `driver` of the bus `bus`.
pub open spec fn device_path_text(bus: Seq<char>, driver: Seq<char>, device: Seq<char>) -> Seq<
    char,
> {
    driver_dir_text(bus, driver) + "/"@ + device
}

/// `path` is the device path made of these three segments.
pub open spec fn is_device_path(
    path: Seq<char>,
    bus: Seq<char>,
    driver: Seq<char>,
    device: Seq<char>,
) -> bool {
    &&& valid_segment(bus)
    &&& valid_segment(driver)
    &&& valid_segment(device)
    &&& path == device_path_text(bus, driver, device)
}

/// `path` has the shape of a device path.
pub open spec fn has_device_shape(path: Seq<char>) -> bool {
    exists|bus: Seq<char>, driver: Seq<char>, device: Seq<char>|
        is_device_path(path, bus, driver, device)
}

/// Why a text is no device path.
#[derive(Debug, Clone, Copy, PartialEq, Eq, Structural)]
pub enum ShapeError {
    /// The text is not of the shape `/sys/bus/{bus}/drivers/{driver}/{device}`.
    InvalidDevice,
}

/// The three segments of a device path, as a mathematical value.
pub struct DevicePathView {
    pub bus: Seq<char>,
    pub driver: Seq<char>,
    pub device: Seq<char>,
}

impl DevicePathView {
    /// The path these segments spell.
    pub open spec fn text(self) -> Seq<char> {
        device_path_text(self.bus, self.driver, self.device)
    }

    /// The directory of the driver.
    pub open spec fn driver_dir(self) -> Seq<char> {
        driver_dir_text(self.bus, self.driver)
    }

    /// All three segments are well formed.
    pub open spec fn well_formed(self) -> bool {
        &&& valid_segment(self.bus)
        &&& valid_segment(self.driver)
        &&& valid_segment(self.device)
    }
}

/// A device path that has passed the shape check.
#[derive(Debug, PartialEq, Eq)]
pub struct DevicePath {
    bus: String,
    driver: String,
    device: String,
}

impl View for DevicePath {
    type V = DevicePathView;

    closed spec fn view(&self) -> DevicePathView {
        DevicePathView { bus: self.bus@, driver: self.driver@, device: self.device@ }
    }
}

impl Clone for DevicePath {
    fn clone(&self) -> (r: Self)
        ensures
            r@ == self@,
    {
        proof {
            use_type_invariant(self);
        }
        DevicePath {
            bus: self.bus.clone(),
            driver: self.driver.clone(),
            device: self.device.clone(),
        }
    }
}

impl DevicePath {
    #[verifier::type_invariant]
    closed spec fn segments_valid(self) -> bool {
        self@.well_formed()
    }

    /// The name of the bus.
    pub fn bus(&self) -> (r: &str)
        ensures
            r@ == self@.bus,
            self@.well_formed(),
    {
        proof {
            use_type_invariant(self);
        }
        self.bus.as_str()
    }

    /// The name of the driver.
    pub fn driver(&self) -> (r: &str)
        ensures
            r@ == self@.driver,
            self@.well_formed(),
    {
        proof {
            use_type_invariant(self);
        }
        self.driver.as_str()
    }

    /// The name of the device: the last segment of the path.
    pub fn device(&self) -> (r: &str)
        ensures
            r@ == self@.device,
            r@ == leaf_of(self@.text()),
            self@.well_formed(),
    {
        proof {
            use_type_invariant(self);
            lemma_parent_and_leaf(self@);
        }
        self.device.as_str()
    }

    /// The directory of the driver: the path without its last segment.
    pub fn driver_dir(&self) -> (r: String)
        ensures
            r@ == self@.driver_dir(),
            r@ == parent_of(self@.text()),
            self@.well_formed(),
    {
        proof {
            use_type_invariant(self);
            lemma_parent_and_leaf(self@);
        }
        let mut out = String::from_str("/sys/bus/");
        out.append(self.bus.as_str());
        out.append("/drivers/");
        out.append(self.driver.as_str());
        out
    }

    /// The whole path.
    pub fn to_text(&self) -> (r: String)
        ensures
            r@ == self@.text(),
            self@.well_formed(),
    {
        let mut out = self.driver_dir();
        out.append("/");
        out.append(self.device.as_str());
        out
    }
}

/// The offset of the last `c` in `s`, or -1 where `s` holds none.
pub open spec fn last_index_of(s: Seq<char>, c: char) -> int
    decreases s.len(),
{
    if s.len() == 0 {
        -1
    } else if s.last() == c {
        s.len() - 1
    } else {
        last_index_of(s.drop_last(), c)
    }
}

/// What stands before the last slash of `path`; nothing where it has no slash.
pub open spec fn parent_of(path: Seq<char>) -> Seq<char> {
    let at = last_index_of(path, '/');
    if at < 0 {
        Seq::empty()
    } else {
        path.subrange(0, at)
    }
}

/// What stands behind the last slash of `path`; all of it where it has no slash.
pub open spec fn leaf_of(path: Seq<char>) -> Seq<char> {
    path.subrange(last_index_of(path, '/') + 1, path.len() as int)
}

/// The last slash of `head + "/" + tail` is the one between the two, where
/// `tail` holds none.
pub proof fn lemma_last_slash(head: Seq<char>, tail: Seq<char>)
    requires
        !tail.contains('/'),
    ensures
        last_index_of(head + seq!['/'] + tail, '/') == head.len(),
    decreases tail.len(),
{
    let whole = head + seq!['/'] + tail;
    if tail.len() == 0 {
        assert(whole.last() == '/');
    } else {
        assert(whole.last() == tail.last());
        assert(tail.contains(tail.last()));
        assert(!tail.drop_last().contains('/')) by {
            if tail.drop_last().contains('/') {
                let j = choose|j: int| 0 <= j < tail.drop_last().len() && tail.drop_last()[j] == '/';
                assert(tail[j] == '/');
            }
        }
        assert(whole.drop_last() =~= head + seq!['/'] + tail.drop_last());
        lemma_last_slash(head, tail.drop_last());
    }
}

/// The driver's directory is the parent of a device path, and the device its
/// last segment.
pub proof fn lemma_parent_and_leaf(v: DevicePathView)
    requires
        v.well_formed(),
    ensures
        parent_of(v.text()) == v.driver_dir(),
        leaf_of(v.text()) == v.device,
{
    reveal_strlit("/");
    assert("/"@ =~= seq!['/']);
    lemma_last_slash(v.driver_dir(), v.device);
    let cut = v.driver_dir().len() as int;
    assert(v.text().subrange(0, cut) =~= v.driver_dir());
    assert(v.text().subrange(cut + 1, v.text().len() as int) =~= v.device);
}

/// The segments stand in `path` where a scan from the left finds them: the bus
/// after the fixed prefix and up to the next slash, `/drivers/` behind it, the
/// driver up to the next slash, and the device in what is left.
pub open spec fn segments_located(
    path: Seq<char>,
    bus: Seq<char>,
    driver: Seq<char>,
    device: Seq<char>,
) -> bool {
    let b = bus.len() as int;
    let d = driver.len() as int;
    &&& path.len() == 19 + b + d + device.len()
    &&& begins_with(path, "/sys/bus/"@)
    &&& next_index_of(path, '/', 9) == 9 + b
    &&& bus == path.subrange(9, 9 + b)
    &&& occurs_at(path, "/drivers/"@, 9 + b)
    &&& next_index_of(path, '/', 18 + b) == 18 + b + d
    &&& driver == path.subrange(18 + b, 18 + b + d)
    &&& device == path.subrange(19 + b + d, path.len() as int)
}

/// In a device path the segments stand where the scan of the text finds them.
pub proof fn lemma_device_path_layout(
    path: Seq<char>,
    bus: Seq<char>,
    driver: Seq<char>,
    device: Seq<char>,
)
    requires
        is_device_path(path, bus, driver, device),
    ensures
        segments_located(path, bus, driver, device),
{
    reveal_strlit("/sys/bus/");
    reveal_strlit("/drivers/");
    reveal_strlit("/");
    let b = bus.len() as int;
    let d = driver.len() as int;
    assert(path.subrange(0, 9) =~= "/sys/bus/"@);
    assert(path.subrange(9, 9 + b) =~= bus);
    assert(path.subrange(9 + b, 18 + b) =~= "/drivers/"@);
    assert(path.subrange(18 + b, 18 + b + d) =~= driver);
    assert(path.subrange(19 + b + d, path.len() as int) =~= device);
    assert forall|j: int| 9 <= j < 9 + b implies path[j] != '/' by {
        assert(path[j] == bus[j - 9]);
    }
    assert(path[9 + b] == '/');
    lemma_next_index_is(path, '/', 9, 9 + b);
    assert forall|j: int| 18 + b <= j < 18 + b + d implies path[j] != '/' by {
        assert(path[j] == driver[j - 18 - b]);
    }
    assert(path[18 + b + d] == '/');
    lemma_next_index_is(path, '/', 18 + b, 18 + b + d);
}

/// Whether `text` holds a quote character, double or single.
fn has_quote(text: &str) -> (r: bool)
    ensures
        r == (text@.contains('"') || text@.contains('\'')),
{
    contains_char(text, '"') || contains_char(text, '\'')
}

/// Takes `path` apart. It succeeds on the texts of the shape
/// `/sys/bus/{bus}/drivers/{driver}/{device}` and on no others, and what it
/// returns spells `path` again.
pub fn parse_device_path(path: &str) -> (r: Result<DevicePath, ShapeError>)
    ensures
        match r {
            Ok(p) => p@.well_formed() && p@.text() == path@,
            Err(e) => e == ShapeError::InvalidDevice && !has_device_shape(path@),
        },
{
    proof {
        reveal_strlit("/sys/bus/");
        reveal_strlit("/drivers/");
        reveal_strlit("/");
        assert forall|b: Seq<char>, d: Seq<char>, v: Seq<char>|
            is_device_path(path@, b, d, v) implies segments_located(path@, b, d, v) by {
            lemma_device_path_layout(path@, b, d, v);
        }
    }
    let n = path.unicode_len();
    if !starts_with(path, "/sys/bus/") {
        return Err(ShapeError::InvalidDevice);
    }
    let bus_end = index_of_char_from(path, '/', 9);
    proof {
        lemma_next_index_of(path@, '/', 9);
    }
    if bus_end == 9 || bus_end == n {
        return Err(ShapeError::InvalidDevice);
    }
    let bus = slice_text(path, 9, bus_end);
    if has_quote(bus.as_str()) {
        return Err(ShapeError::InvalidDevice);
    }
    if !matches_at(path, "/drivers/", bus_end) {
        return Err(ShapeError::InvalidDevice);
    }
    let driver_start = bus_end + 9;
    let driver_end = index_of_char_from(path, '/', driver_start);
    proof {
        lemma_next_index_of(path@, '/', driver_start as int);
    }
    if driver_end == driver_start || driver_end == n {
        return Err(ShapeError::InvalidDevice);
    }
    let driver = slice_text(path, driver_start, driver_end);
    if has_quote(driver.as_str()) {
        return Err(ShapeError::InvalidDevice);
    }
    let device_start = driver_end + 1;
    if device_start == n {
        return Err(ShapeError::InvalidDevice);
    }
    let device = slice_text(path, device_start, n);
    if contains_char(device.as_str(), '/') || has_quote(device.as_str()) {
        return Err(ShapeError::InvalidDevice);
    }
    proof {
        assert(!bus@.contains('/')) by {
            assert forall|j: int| 0 <= j < bus@.len() implies bus@[j] != '/' by {
                assert(bus@[j] == path@[9 + j]);
            }
        }
        assert(!driver@.contains('/')) by {
            assert forall|j: int| 0 <= j < driver@.len() implies driver@[j] != '/' by {
                assert(driver@[j] == path@[driver_start + j]);
            }
        }
        assert(path@.subrange(0, 9) == "/sys/bus/"@);
        assert(path@.subrange(bus_end as int, bus_end + 9) == "/drivers/"@);
        assert(path@ =~= device_path_text(bus@, driver@, device@));
    }
    Ok(DevicePath { bus, driver, device })
}

} // verus!
