//! Input devices: what `libinput list-devices` reports, what the kernel's
//! input class lists, and the pointing devices among them.
use vstd::prelude::*;
use crate::text::{
    append_str, chars_of, contains, contains_str, lines, lines_of, lowercase, lowercase_of,
    starts_with, starts_with_str, string_of, strip_prefix_str, trim, trimmed, views,
};

verus! {

/// Input device type
#[derive(Debug, Clone, Copy, PartialEq, Eq, Structural)]
pub enum InputDeviceType {
    Mouse,
    Touchpad,
    Trackball,
    Tablet,
    Keyboard,
    Unknown,
}

/// Scroll method for pointing devices
#[derive(Debug, Clone, Copy, PartialEq, Eq, Structural)]
pub enum ScrollMethod {
    /// No scrolling
    NoScroll,
    /// Two-finger scroll (touchpad)
    TwoFinger,
    /// Edge scrolling (touchpad)
    Edge,
    /// Button-based scrolling (mouse)
    OnButtonDown,
}

impl Default for ScrollMethod {
    /// Scrolling while a button is held.
    fn default() -> (r: Self)
        ensures
            r == ScrollMethod::OnButtonDown,
    {
        ScrollMethod::OnButtonDown
    }
}

/// Click method for touchpads
#[derive(Debug, Clone, Copy, PartialEq, Eq, Structural)]
pub enum ClickMethod {
    /// Button areas (bottom of touchpad)
    ButtonAreas,
    /// Click fingers (1 finger = left, 2 = right, 3 = middle)
    ClickFinger,
}

impl Default for ClickMethod {
    /// Button areas.
    fn default() -> (r: Self)
        ensures
            r == ClickMethod::ButtonAreas,
    {
        ClickMethod::ButtonAreas
    }
}

/// Acceleration profile
#[derive(Debug, Clone, Copy, PartialEq, Eq, Structural)]
pub enum AccelProfile {
    /// Pointer acceleration
    Adaptive,
    /// No acceleration (flat)
    Flat,
}

impl Default for AccelProfile {
    /// Adaptive acceleration.
    fn default() -> (r: Self)
        ensures
            r == AccelProfile::Adaptive,
    {
        AccelProfile::Adaptive
    }
}

/// Input device information
#[derive(Debug, Clone)]
pub struct InputDevice {
    /// Device name
    pub name: String,
    /// Device path (e.g., /dev/input/event0)
    pub path: String,
    /// Device type
    pub device_type: InputDeviceType,
    /// Device vendor ID
    pub vendor_id: Option<u16>,
    /// Device product ID
    pub product_id: Option<u16>,
    /// Whether device supports tap
    pub supports_tap: bool,
    /// Whether device supports natural scroll
    pub supports_natural_scroll: bool,
    /// Whether device supports left-handed mode
    pub supports_left_handed: bool,
}

/// What an input device record holds.
pub struct InputDeviceView {
    pub name: Seq<char>,
    pub path: Seq<char>,
    pub device_type: InputDeviceType,
    pub vendor_id: Option<u16>,
    pub product_id: Option<u16>,
    pub supports_tap: bool,
    pub supports_natural_scroll: bool,
    pub supports_left_handed: bool,
}

impl View for InputDevice {
    type V = InputDeviceView;

    open spec fn view(&self) -> InputDeviceView {
        InputDeviceView {
            name: self.name@,
            path: self.path@,
            device_type: self.device_type,
            vendor_id: self.vendor_id,
            product_id: self.product_id,
            supports_tap: self.supports_tap,
            supports_natural_scroll: self.supports_natural_scroll,
            supports_left_handed: self.supports_left_handed,
        }
    }
}

/// One entry of the kernel's input class directory: its name, whether it
/// has a `device` directory, and the content of `device/name` when that
/// could be read.
#[derive(Debug, Clone)]
pub struct SysInputEntry {
    pub name: String,
    pub has_device: bool,
    pub device_name: Option<String>,
}

/// What an entry of the input class directory holds.
pub struct SysInputEntryView {
    pub name: Seq<char>,
    pub has_device: bool,
    pub device_name: Option<Seq<char>>,
}

impl View for SysInputEntry {
    type V = SysInputEntryView;

    open spec fn view(&self) -> SysInputEntryView {
        SysInputEntryView {
            name: self.name@,
            has_device: self.has_device,
            device_name: match self.device_name {
                Some(s) => Some(s@),
                None => None,
            },
        }
    }
}

/// The views of a sequence of devices.
pub open spec fn device_views(v: Seq<InputDevice>) -> Seq<InputDeviceView> {
    v.map_values(|d: InputDevice| d@)
}

/// A device that a `Device:` line opens: only its name is known.
pub open spec fn new_device(name: Seq<char>) -> InputDeviceView {
    InputDeviceView {
        name,
        path: Seq::<char>::empty(),
        device_type: InputDeviceType::Unknown,
        vendor_id: None,
        product_id: None,
        supports_tap: false,
        supports_natural_scroll: false,
        supports_left_handed: false,
    }
}

/// A pointer device, told apart by its name: a touchpad taps and scrolls
/// naturally, a trackball is only that, anything else is a mouse that
/// scrolls naturally and can be left-handed.
pub open spec fn pointer_device(d: InputDeviceView) -> InputDeviceView {
    if contains(lowercase(d.name), "touchpad"@) {
        InputDeviceView {
            device_type: InputDeviceType::Touchpad,
            supports_tap: true,
            supports_natural_scroll: true,
            ..d
        }
    } else if contains(lowercase(d.name), "trackball"@) {
        InputDeviceView { device_type: InputDeviceType::Trackball, ..d }
    } else {
        InputDeviceView {
            device_type: InputDeviceType::Mouse,
            supports_natural_scroll: true,
            supports_left_handed: true,
            ..d
        }
    }
}

/// What a trimmed line of `libinput list-devices` tells of the device
/// being described.
pub open spec fn device_line(d: InputDeviceView, t: Seq<char>) -> InputDeviceView {
    let d1 = if starts_with(t, "Kernel:"@) {
        InputDeviceView { path: trim(t.skip("Kernel:"@.len() as int)), ..d }
    } else {
        d
    };
    let d2 = if contains(t, "pointer"@) {
        pointer_device(d1)
    } else {
        d1
    };
    let d3 = if contains(t, "Tap-to-click:"@) {
        InputDeviceView { supports_tap: true, ..d2 }
    } else {
        d2
    };
    let d4 = if contains(t, "Natural Scroll:"@) {
        InputDeviceView { supports_natural_scroll: true, ..d3 }
    } else {
        d3
    };
    if contains(t, "Left-handed:"@) {
        InputDeviceView { supports_left_handed: true, ..d4 }
    } else {
        d4
    }
}

/// The devices completed after these lines, and the one being described.
pub open spec fn libinput_scan(ls: Seq<Seq<char>>) -> (Seq<InputDeviceView>, Option<InputDeviceView>)
    decreases ls.len(),
{
    if ls.len() == 0 {
        (Seq::<InputDeviceView>::empty(), None)
    } else {
        let prev = libinput_scan(ls.drop_last());
        let t = trim(ls.last());
        let opened = if starts_with(t, "Device:"@) {
            (
                match prev.1 {
                    Some(d) => prev.0.push(d),
                    None => prev.0,
                },
                Some(new_device(trim(t.skip("Device:"@.len() as int)))),
            )
        } else {
            prev
        };
        (
            opened.0,
            match opened.1 {
                Some(d) => Some(device_line(d, t)),
                None => None,
            },
        )
    }
}

/// The devices that `libinput list-devices` describes, in order.
pub open spec fn libinput_devices(output: Seq<char>) -> Seq<InputDeviceView> {
    let s = libinput_scan(lines(output));
    match s.1 {
        Some(d) => s.0.push(d),
        None => s.0,
    }
}

/// The type that a device's name suggests.
pub open spec fn name_type(n: Seq<char>) -> InputDeviceType {
    if contains(lowercase(n), "touchpad"@) {
        InputDeviceType::Touchpad
    } else if contains(lowercase(n), "mouse"@) {
        InputDeviceType::Mouse
    } else if contains(lowercase(n), "keyboard"@) {
        InputDeviceType::Keyboard
    } else {
        InputDeviceType::Unknown
    }
}

/// The device that an entry of the input class stands for: named by its
/// `device/name` (trimmed) or else by the entry, with the abilities its type
/// suggests.
pub open spec fn sys_device(e: SysInputEntryView) -> InputDeviceView {
    let n = match e.device_name {
        Some(c) => trim(c),
        None => e.name,
    };
    let t = name_type(n);
    InputDeviceView {
        name: n,
        path: "/dev/input/"@ + e.name,
        device_type: t,
        vendor_id: None,
        product_id: None,
        supports_tap: t == InputDeviceType::Touchpad,
        supports_natural_scroll: t == InputDeviceType::Mouse || t == InputDeviceType::Touchpad,
        supports_left_handed: t == InputDeviceType::Mouse,
    }
}

/// Whether an entry of the input class is an event device with a device.
pub open spec fn is_event_device(e: SysInputEntryView) -> bool {
    starts_with(e.name, "event"@) && e.has_device
}

/// The devices of the event entries that have one, in order.
pub open spec fn sys_devices(es: Seq<SysInputEntryView>) -> Seq<InputDeviceView>
    decreases es.len(),
{
    if es.len() == 0 {
        Seq::<InputDeviceView>::empty()
    } else if is_event_device(es.last()) {
        sys_devices(es.drop_last()).push(sys_device(es.last()))
    } else {
        sys_devices(es.drop_last())
    }
}

/// The devices of one type, in order.
pub open spec fn of_type(s: Seq<InputDeviceView>, t: InputDeviceType) -> Seq<InputDeviceView>
    decreases s.len(),
{
    if s.len() == 0 {
        s
    } else if s.last().device_type == t {
        of_type(s.drop_last(), t).push(s.last())
    } else {
        of_type(s.drop_last(), t)
    }
}

/// The device list that an enumeration finds: what `libinput` lists, or,
/// when it lists nothing, the kernel's event devices (or the error reading
/// them).
pub open spec fn enumerated(
    libinput: Option<Seq<char>>,
    sys: Result<Seq<SysInputEntryView>, Seq<char>>,
) -> Result<Seq<InputDeviceView>, Seq<char>> {
    let listed = match libinput {
        Some(o) => libinput_devices(o),
        None => Seq::<InputDeviceView>::empty(),
    };
    if listed.len() > 0 {
        Ok(listed)
    } else {
        match sys {
            Ok(es) => Ok(sys_devices(es)),
            Err(e) => Err(e),
        }
    }
}

/// Input settings backend: the devices found last.
#[derive(Debug)]
pub struct InputBackend {
    /// Cached device list
    devices: Vec<InputDevice>,
}

impl Default for InputBackend {
    /// A backend that knows no device yet.
    fn default() -> (r: Self)
        ensures
            r.devices().len() == 0,
    {
        Self::new()
    }
}

fn device_copy(d: &InputDevice) -> (r: InputDevice)
    ensures
        r@ == d@,
{
    InputDevice {
        name: d.name.clone(),
        path: d.path.clone(),
        device_type: d.device_type,
        vendor_id: d.vendor_id,
        product_id: d.product_id,
        supports_tap: d.supports_tap,
        supports_natural_scroll: d.supports_natural_scroll,
        supports_left_handed: d.supports_left_handed,
    }
}

fn devices_copy(v: &Vec<InputDevice>) -> (r: Vec<InputDevice>)
    ensures
        device_views(r@) == device_views(v@),
{
    let mut r: Vec<InputDevice> = Vec::new();
    let mut i: usize = 0;
    while i < v.len()
        invariant
            i <= v@.len(),
            device_views(r@) == device_views(v@).take(i as int),
        decreases v@.len() - i,
    {
        let ghost before = r@;
        r.push(device_copy(&v[i]));
        assert(device_views(r@) =~= device_views(before).push(v@[i as int]@));
        assert(device_views(v@).take(i + 1) =~= device_views(v@).take(i as int).push(
            v@[i as int]@,
        ));
        i = i + 1;
    }
    assert(device_views(v@).take(i as int) =~= device_views(v@));
    r
}

/// The device after one more line of its description.
fn apply_device_line(d: InputDevice, t: &[char]) -> (r: InputDevice)
    ensures
        r@ == device_line(d@, t@),
{
    let mut d = d;
    match strip_prefix_str(t, "Kernel:") {
        Some(rest) => {
            d.path = string_of(trimmed(rest.as_slice()).as_slice());
        },
        None => {},
    }
    if contains_str(t, "pointer") {
        let lower = lowercase_of(chars_of(d.name.as_str()).as_slice());
        if contains_str(lower.as_slice(), "touchpad") {
            d.device_type = InputDeviceType::Touchpad;
            d.supports_tap = true;
            d.supports_natural_scroll = true;
        } else if contains_str(lower.as_slice(), "trackball") {
            d.device_type = InputDeviceType::Trackball;
        } else {
            d.device_type = InputDeviceType::Mouse;
            d.supports_natural_scroll = true;
            d.supports_left_handed = true;
        }
    }
    if contains_str(t, "Tap-to-click:") {
        d.supports_tap = true;
    }
    if contains_str(t, "Natural Scroll:") {
        d.supports_natural_scroll = true;
    }
    if contains_str(t, "Left-handed:") {
        d.supports_left_handed = true;
    }
    d
}

/// The device that an entry of the input class stands for.
fn device_of_entry(e: &SysInputEntry) -> (r: InputDevice)
    ensures
        r@ == sys_device(e@),
{
    let n: Vec<char> = match &e.device_name {
        Some(c) => trimmed(chars_of(c.as_str()).as_slice()),
        None => chars_of(e.name.as_str()),
    };
    let lower = lowercase_of(n.as_slice());
    let t = if contains_str(lower.as_slice(), "touchpad") {
        InputDeviceType::Touchpad
    } else if contains_str(lower.as_slice(), "mouse") {
        InputDeviceType::Mouse
    } else if contains_str(lower.as_slice(), "keyboard") {
        InputDeviceType::Keyboard
    } else {
        InputDeviceType::Unknown
    };
    let mut path: Vec<char> = Vec::new();
    append_str(&mut path, "/dev/input/");
    let en = chars_of(e.name.as_str());
    crate::text::append(&mut path, en.as_slice());
    InputDevice {
        name: string_of(n.as_slice()),
        path: string_of(path.as_slice()),
        device_type: t,
        vendor_id: None,
        product_id: None,
        supports_tap: t == InputDeviceType::Touchpad,
        supports_natural_scroll: t == InputDeviceType::Mouse || t == InputDeviceType::Touchpad,
        supports_left_handed: t == InputDeviceType::Mouse,
    }
}

impl InputBackend {
    /// The devices found last.
    pub closed spec fn devices(&self) -> Seq<InputDeviceView> {
        device_views(self.devices@)
    }

    /// Create a new input backend
    pub fn new() -> (r: Self)
        ensures
            r.devices().len() == 0,
    {
        InputBackend { devices: Vec::new() }
    }

    /// The devices that the output of `libinput list-devices` describes: a
    /// `Device:` line opens one, and the lines up to the next tell its
    /// kernel path and abilities.
    pub fn parse_libinput_list(output: &str) -> (r: Vec<InputDevice>)
        ensures
            device_views(r@) == libinput_devices(output@),
    {
        let ls = lines_of(chars_of(output).as_slice());
        let mut devices: Vec<InputDevice> = Vec::new();
        let mut current: Option<InputDevice> = None;
        let mut i: usize = 0;
        assert(views(ls@).take(0) =~= Seq::<Seq<char>>::empty());
        assert(device_views(devices@) =~= Seq::<InputDeviceView>::empty());
        while i < ls.len()
            invariant
                i <= ls@.len(),
                views(ls@) == lines(output@),
                libinput_scan(views(ls@).take(i as int)) == (
                    device_views(devices@),
                    match current {
                        Some(d) => Some(d@),
                        None => None::<InputDeviceView>,
                    },
                ),
            decreases ls@.len() - i,
        {
            assert(views(ls@).take(i + 1).drop_last() =~= views(ls@).take(i as int));
            assert(views(ls@)[i as int] == ls@[i as int]@);
            let t = trimmed(ls[i].as_slice());
            match strip_prefix_str(t.as_slice(), "Device:") {
                Some(rest) => {
                    match current {
                        Some(d) => {
                            let ghost before = devices@;
                            devices.push(d);
                            assert(device_views(devices@) =~= device_views(before).push(d@));
                        },
                        None => {},
                    }
                    current = Some(
                        InputDevice {
                            name: string_of(trimmed(rest.as_slice()).as_slice()),
                            path: String::new(),
                            device_type: InputDeviceType::Unknown,
                            vendor_id: None,
                            product_id: None,
                            supports_tap: false,
                            supports_natural_scroll: false,
                            supports_left_handed: false,
                        },
                    );
                },
                None => {},
            }
            current = match current {
                Some(d) => Some(apply_device_line(d, t.as_slice())),
                None => None,
            };
            i = i + 1;
        }
        assert(views(ls@).take(i as int) =~= views(ls@));
        match current {
            Some(d) => {
                let ghost before = devices@;
                devices.push(d);
                assert(device_views(devices@) =~= device_views(before).push(d@));
            },
            None => {},
        }
        devices
    }

    /// The devices of the kernel's input class: each event entry that has a
    /// device, typed by its name.
    pub fn scan_sys_input(entries: &[SysInputEntry]) -> (r: Vec<InputDevice>)
        ensures
            device_views(r@) == sys_devices(entries@.map_values(|e: SysInputEntry| e@)),
    {
        let ghost es = entries@.map_values(|e: SysInputEntry| e@);
        let mut r: Vec<InputDevice> = Vec::new();
        let mut i: usize = 0;
        let n = entries.len();
        assert(es.take(0) =~= Seq::<SysInputEntryView>::empty());
        assert(device_views(r@) =~= Seq::<InputDeviceView>::empty());
        while i < n
            invariant
                i <= n,
                n == entries@.len(),
                es == entries@.map_values(|e: SysInputEntry| e@),
                device_views(r@) == sys_devices(es.take(i as int)),
            decreases n - i,
        {
            assert(es.take(i + 1).drop_last() =~= es.take(i as int));
            assert(es[i as int] == entries@[i as int]@);
            let e = &entries[i];
            let en = chars_of(e.name.as_str());
            if starts_with_str(en.as_slice(), "event") && e.has_device {
                let d = device_of_entry(e);
                let ghost before = r@;
                r.push(d);
                assert(device_views(r@) =~= device_views(before).push(d@));
            }
            i = i + 1;
        }
        assert(es.take(i as int) =~= es);
        r
    }

    /// Enumerate input devices: those that `libinput list-devices` printed
    /// (when it ran), or else the kernel's event devices; the list is kept
    /// for the getters below, and an error reading the kernel's list is
    /// passed on with the list left as it was.
    pub fn enumerate_devices(
        &mut self,
        libinput_stdout: Option<&str>,
        sys: Result<Vec<SysInputEntry>, String>,
    ) -> (r: Result<Vec<InputDevice>, String>)
        ensures
            ({
                let want = enumerated(
                    match libinput_stdout {
                        Some(o) => Some(o@),
                        None => None,
                    },
                    match sys {
                        Ok(es) => Ok(es@.map_values(|e: SysInputEntry| e@)),
                        Err(e) => Err(e@),
                    },
                );
                match want {
                    Ok(ds) => r matches Ok(v) && device_views(v@) == ds && final(self).devices()
                        == ds,
                    Err(e) => r matches Err(m) && m@ == e && final(self).devices()
                        == old(self).devices(),
                }
            }),
    {
        let listed = match libinput_stdout {
            Some(o) => Self::parse_libinput_list(o),
            None => {
                let v: Vec<InputDevice> = Vec::new();
                assert(device_views(v@) =~= Seq::<InputDeviceView>::empty());
                v
            },
        };
        let devices = if listed.len() > 0 {
            listed
        } else {
            match sys {
                Ok(es) => Self::scan_sys_input(es.as_slice()),
                Err(e) => {
                    return Err(e);
                },
            }
        };
        self.devices = devices_copy(&devices);
        Ok(devices)
    }

    /// Get mouse devices
    pub fn get_mice(&self) -> (r: Vec<&InputDevice>)
        ensures
            r@.map_values(|d: &InputDevice| d@) == of_type(
                self.devices(),
                InputDeviceType::Mouse,
            ),
    {
        self.devices_of(InputDeviceType::Mouse)
    }

    /// Get touchpad devices
    pub fn get_touchpads(&self) -> (r: Vec<&InputDevice>)
        ensures
            r@.map_values(|d: &InputDevice| d@) == of_type(
                self.devices(),
                InputDeviceType::Touchpad,
            ),
    {
        self.devices_of(InputDeviceType::Touchpad)
    }

    fn devices_of(&self, t: InputDeviceType) -> (r: Vec<&InputDevice>)
        ensures
            r@.map_values(|d: &InputDevice| d@) == of_type(self.devices(), t),
    {
        let mut r: Vec<&InputDevice> = Vec::new();
        let mut i: usize = 0;
        assert(self.devices().take(0) =~= Seq::<InputDeviceView>::empty());
        assert(r@.map_values(|d: &InputDevice| d@) =~= Seq::<InputDeviceView>::empty());
        while i < self.devices.len()
            invariant
                i <= self.devices@.len(),
                r@.map_values(|d: &InputDevice| d@) == of_type(
                    self.devices().take(i as int),
                    t,
                ),
            decreases self.devices@.len() - i,
        {
            assert(self.devices().take(i + 1).drop_last() =~= self.devices().take(i as int));
            assert(self.devices()[i as int] == self.devices@[i as int]@);
            let d = &self.devices[i];
            if d.device_type == t {
                let ghost before = r@;
                r.push(d);
                assert(r@.map_values(|d: &InputDevice| d@) =~= before.map_values(
                    |d: &InputDevice| d@,
                ).push(d@));
            }
            i = i + 1;
        }
        assert(self.devices().take(i as int) =~= self.devices());
        r
    }
}

} // verus!
