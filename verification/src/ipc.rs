//! Types for communicating with osvwm via IPC, and the parsing of their
//! command-line forms.
use vstd::prelude::*;
use core::str::FromStr;
use crate::duration::{duration_secs, duration_subsec_nanos};
use crate::text::{
    all_ascii, ascii_lower, chars_of, eq_str, parse_int, parse_signed, parse_uint,
    parse_unsigned, split_once, split_once_exec, string_from, string_of,
};

verus! {

/// Overview information.
#[derive(Debug, Clone, Copy, PartialEq, Eq, Structural)]
pub struct Overview {
    /// Whether the overview is currently open.
    pub is_open: bool,
}

/// Workspace reference (id, index or name) to operate on.
#[derive(Debug, Clone, PartialEq, Eq)]
pub enum WorkspaceReferenceArg {
    /// Id of the workspace.
    Id(u64),
    /// Index of the workspace.
    Index(u8),
    /// Name of the workspace.
    Name(String),
}

/// Layout to switch to.
#[derive(Debug, Clone, Copy, PartialEq, Eq, Structural)]
pub enum LayoutSwitchTarget {
    /// The next configured layout.
    Next,
    /// The previous configured layout.
    Prev,
    /// The specific layout by index.
    Index(u8),
}

/// Output VRR to set.
#[derive(Debug, Clone, Copy, PartialEq, Eq, Structural)]
pub struct VrrToSet {
    /// Whether to enable variable refresh rate.
    pub vrr: bool,
    /// Only enable when the output shows a window matching the variable-refresh-rate window rule.
    pub on_demand: bool,
}

/// Output mode.
#[derive(Debug, Clone, Copy, PartialEq, Eq, Structural)]
pub struct Mode {
    /// Width in physical pixels.
    pub width: u16,
    /// Height in physical pixels.
    pub height: u16,
    /// Refresh rate in millihertz.
    pub refresh_rate: u32,
    /// Whether this mode is preferred by the monitor.
    pub is_preferred: bool,
}

/// Output transform, which goes counter-clockwise.
#[derive(Debug, Clone, Copy, PartialEq, Eq, Structural)]
pub enum Transform {
    /// Untransformed.
    Normal,
    /// Rotated by 90°.
    _90,
    /// Rotated by 180°.
    _180,
    /// Rotated by 270°.
    _270,
    /// Flipped horizontally.
    Flipped,
    /// Rotated by 90° and flipped horizontally.
    Flipped90,
    /// Flipped vertically.
    Flipped180,
    /// Rotated by 270° and flipped horizontally.
    Flipped270,
}

/// A moment in time.
#[derive(Debug, Clone, Copy, PartialEq, Eq, Structural)]
pub struct Timestamp {
    /// Number of whole seconds.
    pub secs: u64,
    /// Fractional part of the timestamp in nanoseconds.
    pub nanos: u32,
}

/// Output configuration change result.
#[derive(Debug, Clone, Copy, PartialEq, Eq, Structural)]
pub enum OutputConfigChanged {
    /// The target output was connected and the change was applied.
    Applied,
    /// The target output was not found, the change will be applied when it is connected.
    OutputWasMissing,
}

/// A workspace.
#[derive(Debug, Clone, PartialEq, Eq)]
pub struct Workspace {
    /// Unique id of this workspace.
    pub id: u64,
    /// Index of the workspace on its monitor.
    pub idx: u8,
    /// Optional name of the workspace.
    pub name: Option<String>,
    /// Name of the output that the workspace is on.
    pub output: Option<String>,
    /// Whether the workspace currently has an urgent window in its output.
    pub is_urgent: bool,
    /// Whether the workspace is currently active on its output.
    pub is_active: bool,
    /// Whether the workspace is currently focused.
    pub is_focused: bool,
    /// Id of the active window on this workspace, if any.
    pub active_window_id: Option<u64>,
}

/// Configured keyboard layouts.
#[derive(Debug, Clone, PartialEq, Eq)]
pub struct KeyboardLayouts {
    /// XKB names of the configured layouts.
    pub names: Vec<String>,
    /// Index of the currently active layout in `names`.
    pub current_idx: u8,
}

/// A layer-shell layer.
#[derive(Debug, Clone, Copy, PartialEq, Eq, PartialOrd, Ord, Structural)]
pub enum Layer {
    /// The background layer.
    Background,
    /// The bottom layer.
    Bottom,
    /// The top layer.
    Top,
    /// The overlay layer.
    Overlay,
}

/// Keyboard interactivity modes for a layer-shell surface.
#[derive(Debug, Clone, Copy, PartialEq, Eq, Structural)]
pub enum LayerSurfaceKeyboardInteractivity {
    /// Surface cannot receive keyboard focus.
    NoFocus,
    /// Surface receives keyboard focus whenever possible.
    Exclusive,
    /// Surface receives keyboard focus on demand, e.g. when clicked.
    OnDemand,
}

/// A layer-shell surface.
#[derive(Debug, Clone, PartialEq, Eq)]
pub struct LayerSurface {
    /// Namespace provided by the layer-shell client.
    pub namespace: String,
    /// Name of the output the surface is on.
    pub output: String,
    /// Layer that the surface is on.
    pub layer: Layer,
    /// The surface's keyboard interactivity mode.
    pub keyboard_interactivity: LayerSurfaceKeyboardInteractivity,
}

/// The timestamp of a duration.
pub open spec fn timestamp_of(d: core::time::Duration) -> Timestamp {
    Timestamp { secs: duration_secs(d), nanos: duration_subsec_nanos(d) }
}

impl From<core::time::Duration> for Timestamp {
    fn from(value: core::time::Duration) -> (r: Self) {
        Timestamp { secs: value.as_secs(), nanos: value.subsec_nanos() }
    }
}

impl vstd::std_specs::convert::FromSpecImpl<core::time::Duration> for Timestamp {
    open spec fn obeys_from_spec() -> bool {
        true
    }

    open spec fn from_spec(v: core::time::Duration) -> Self {
        timestamp_of(v)
    }
}

impl Timestamp {
    /// The duration of this timestamp; nanoseconds beyond a second carry
    /// into the seconds.
    pub fn to_duration(&self) -> (r: core::time::Duration)
        requires
            self.secs + self.nanos / 1_000_000_000 <= u64::MAX,
        ensures
            duration_secs(r) == self.secs + self.nanos / 1_000_000_000,
            duration_subsec_nanos(r) == self.nanos % 1_000_000_000,
    {
        core::time::Duration::new(self.secs, self.nanos)
    }
}

/// A timestamp whose nanoseconds are under a second comes back unchanged
/// from its duration.
pub proof fn law_timestamp_round_trip(t: Timestamp, d: core::time::Duration)
    requires
        t.nanos < 1_000_000_000,
        duration_secs(d) == t.secs + t.nanos / 1_000_000_000,
        duration_subsec_nanos(d) == t.nanos % 1_000_000_000,
    ensures
        timestamp_of(d) == t,
{
}

/// The message of a workspace index out of range.
pub open spec fn index_range_error() -> Seq<char> {
    "workspace index must be between 0 and 255"@
}

/// The message of an unknown layout action.
pub open spec fn layout_error() -> Seq<char> {
    "invalid layout action, can be \"next\", \"prev\" or a layout index"@
}

/// The message of an unknown transform.
pub open spec fn transform_error() -> Seq<char> {
    "invalid transform, can be \"90\", \"180\", \"270\", \"flipped\", \"flipped-90\", \"flipped-180\" or \"flipped-270\""@
}

impl WorkspaceReferenceArg {
    /// The workspace that `s` refers to: an index when it is a decimal
    /// number, which must be between 0 and 255, else a name.
    pub fn parse(s: &str) -> (r: Result<Self, &'static str>)
        ensures
            match parse_signed(s@, 10, i32::MIN as int, i32::MAX as nat) {
                Some(v) => if 0 <= v <= 255 {
                    r == Ok::<WorkspaceReferenceArg, &str>(WorkspaceReferenceArg::Index(v as u8))
                } else {
                    r matches Err(e) && e@ == index_range_error()
                },
                None => r matches Ok(WorkspaceReferenceArg::Name(n)) && n@ == s@,
            },
    {
        match parse_int(chars_of(s).as_slice(), 10, -2147483648, 2147483647) {
            Some(v) => if 0 <= v && v <= 255 {
                Ok(WorkspaceReferenceArg::Index(v as u8))
            } else {
                Err("workspace index must be between 0 and 255")
            },
            None => Ok(WorkspaceReferenceArg::Name(string_from(s))),
        }
    }
}

impl FromStr for WorkspaceReferenceArg {
    type Err = &'static str;

    fn from_str(s: &str) -> (r: Result<Self, Self::Err>)
        ensures
            match parse_signed(s@, 10, i32::MIN as int, i32::MAX as nat) {
                Some(v) => if 0 <= v <= 255 {
                    r == Ok::<WorkspaceReferenceArg, &str>(WorkspaceReferenceArg::Index(v as u8))
                } else {
                    r matches Err(e) && e@ == index_range_error()
                },
                None => r matches Ok(WorkspaceReferenceArg::Name(n)) && n@ == s@,
            },
    {
        Self::parse(s)
    }
}

impl LayoutSwitchTarget {
    /// The layout that `s` names: `next`, `prev`, or a layout index.
    pub fn parse(s: &str) -> (r: Result<Self, &'static str>)
        ensures
            if s@ == "next"@ {
                r == Ok::<LayoutSwitchTarget, &str>(LayoutSwitchTarget::Next)
            } else if s@ == "prev"@ {
                r == Ok::<LayoutSwitchTarget, &str>(LayoutSwitchTarget::Prev)
            } else {
                match parse_unsigned(s@, 10, u8::MAX as nat) {
                    Some(v) => r == Ok::<LayoutSwitchTarget, &str>(LayoutSwitchTarget::Index(v as u8)),
                    None => r matches Err(e) && e@ == layout_error(),
                }
            },
    {
        let c = chars_of(s);
        if eq_str(c.as_slice(), "next") {
            Ok(LayoutSwitchTarget::Next)
        } else if eq_str(c.as_slice(), "prev") {
            Ok(LayoutSwitchTarget::Prev)
        } else {
            match parse_uint(c.as_slice(), 10, 0xff) {
                Some(v) => Ok(LayoutSwitchTarget::Index(v as u8)),
                None => Err("invalid layout action, can be \"next\", \"prev\" or a layout index"),
            }
        }
    }
}

impl FromStr for LayoutSwitchTarget {
    type Err = &'static str;

    fn from_str(s: &str) -> (r: Result<Self, Self::Err>)
        ensures
            if s@ == "next"@ {
                r == Ok::<LayoutSwitchTarget, &str>(LayoutSwitchTarget::Next)
            } else if s@ == "prev"@ {
                r == Ok::<LayoutSwitchTarget, &str>(LayoutSwitchTarget::Prev)
            } else {
                match parse_unsigned(s@, 10, u8::MAX as nat) {
                    Some(v) => r == Ok::<LayoutSwitchTarget, &str>(LayoutSwitchTarget::Index(v as u8)),
                    None => r matches Err(e) && e@ == layout_error(),
                }
            },
    {
        Self::parse(s)
    }
}

/// The name of a transform on the command line.
pub open spec fn transform_name(t: Transform) -> Seq<char> {
    match t {
        Transform::Normal => "normal"@,
        Transform::_90 => "90"@,
        Transform::_180 => "180"@,
        Transform::_270 => "270"@,
        Transform::Flipped => "flipped"@,
        Transform::Flipped90 => "flipped-90"@,
        Transform::Flipped180 => "flipped-180"@,
        Transform::Flipped270 => "flipped-270"@,
    }
}

impl Transform {
    /// The transform that `s` names exactly.
    pub fn parse(s: &str) -> (r: Result<Self, &'static str>)
        ensures
            match r {
                Ok(t) => transform_name(t) == s@,
                Err(e) => e@ == transform_error() && forall|t: Transform| transform_name(t) != s@,
            },
    {
        let c = chars_of(s);
        let c = c.as_slice();
        if eq_str(c, "normal") {
            Ok(Transform::Normal)
        } else if eq_str(c, "90") {
            Ok(Transform::_90)
        } else if eq_str(c, "180") {
            Ok(Transform::_180)
        } else if eq_str(c, "270") {
            Ok(Transform::_270)
        } else if eq_str(c, "flipped") {
            Ok(Transform::Flipped)
        } else if eq_str(c, "flipped-90") {
            Ok(Transform::Flipped90)
        } else if eq_str(c, "flipped-180") {
            Ok(Transform::Flipped180)
        } else if eq_str(c, "flipped-270") {
            Ok(Transform::Flipped270)
        } else {
            assert forall|t: Transform| transform_name(t) != s@ by {
                match t {
                    Transform::Normal => {},
                    Transform::_90 => {},
                    Transform::_180 => {},
                    Transform::_270 => {},
                    Transform::Flipped => {},
                    Transform::Flipped90 => {},
                    Transform::Flipped180 => {},
                    Transform::Flipped270 => {},
                }
            }
            Err(
                "invalid transform, can be \"90\", \"180\", \"270\", \"flipped\", \"flipped-90\", \"flipped-180\" or \"flipped-270\"",
            )
        }
    }
}

impl FromStr for Transform {
    type Err = &'static str;

    fn from_str(s: &str) -> (r: Result<Self, Self::Err>)
        ensures
            match r {
                Ok(t) => transform_name(t) == s@,
                Err(e) => e@ == transform_error() && forall|t: Transform| transform_name(t) != s@,
            },
    {
        Self::parse(s)
    }
}

/// Every transform is read back from its name.
pub proof fn law_transform_names(t: Transform, u: Transform)
    ensures
        transform_name(t) == transform_name(u) ==> t == u,
{
    reveal_strlit("normal");
    reveal_strlit("90");
    reveal_strlit("180");
    reveal_strlit("270");
    reveal_strlit("flipped");
    reveal_strlit("flipped-90");
    reveal_strlit("flipped-180");
    reveal_strlit("flipped-270");
    if transform_name(t) == transform_name(u) && t != u {
        let a = transform_name(t);
        let b = transform_name(u);
        assert(a.len() == b.len());
        if a.len() == 3 {
            assert(a[0] != b[0]);
        } else if a.len() == 11 {
            assert(a[8] != b[8]);
        }
    }
}

/// A size change as its text gives it; proportions are left as the text of
/// a number.
#[derive(Debug, Clone, PartialEq, Eq)]
pub enum SizeChangeText {
    /// Set the size in logical pixels.
    SetFixed(i32),
    /// Set the size as a proportion of the working area, in percent.
    SetProportion(String),
    /// Add or subtract to the current size in logical pixels.
    AdjustFixed(i32),
    /// Add or subtract to the current size as a proportion, in percent.
    AdjustProportion(String),
}

/// What a size change argument says: a value ending in `%` is a
/// proportion, and nothing may follow the `%`; a value with a sign adjusts
/// the size, one without sets it.
pub open spec fn size_change_of(s: Seq<char>) -> Result<(bool, bool, Seq<char>), Seq<char>> {
    match split_once(s, '%') {
        Some((value, rest)) => if rest.len() > 0 {
            Err("trailing characters after '%' are not allowed"@)
        } else if value.len() == 0 {
            Err("value is missing"@)
        } else {
            Ok((true, value[0] == '-' || value[0] == '+', value))
        },
        None => if s.len() == 0 {
            Err("value is missing"@)
        } else {
            Ok((false, s[0] == '-' || s[0] == '+', s))
        },
    }
}

impl SizeChangeText {
    /// The size change that `s` describes; a fixed size must be an `i32`.
    pub fn parse(s: &str) -> (r: Result<Self, &'static str>)
        ensures
            match size_change_of(s@) {
                Ok((proportion, adjust, value)) => if proportion {
                    if adjust {
                        r matches Ok(SizeChangeText::AdjustProportion(v)) && v@ == value
                    } else {
                        r matches Ok(SizeChangeText::SetProportion(v)) && v@ == value
                    }
                } else {
                    match parse_signed(value, 10, i32::MIN as int, i32::MAX as nat) {
                        Some(n) => if adjust {
                            r == Ok::<SizeChangeText, &str>(SizeChangeText::AdjustFixed(n as i32))
                        } else {
                            r == Ok::<SizeChangeText, &str>(SizeChangeText::SetFixed(n as i32))
                        },
                        None => r matches Err(e) && e@ == "error parsing value"@,
                    }
                },
                Err(m) => r matches Err(e) && e@ == m,
            },
    {
        let c = chars_of(s);
        match split_once_exec(c.as_slice(), '%') {
            Some((value, rest)) => {
                if rest.len() > 0 {
                    return Err("trailing characters after '%' are not allowed");
                }
                if value.len() == 0 {
                    return Err("value is missing");
                }
                let text = string_of(value.as_slice());
                if value[0] == '-' || value[0] == '+' {
                    Ok(SizeChangeText::AdjustProportion(text))
                } else {
                    Ok(SizeChangeText::SetProportion(text))
                }
            },
            None => {
                if c.len() == 0 {
                    return Err("value is missing");
                }
                let adjust = c[0] == '-' || c[0] == '+';
                match parse_int(c.as_slice(), 10, -2147483648, 2147483647) {
                    Some(n) => if adjust {
                        Ok(SizeChangeText::AdjustFixed(n as i32))
                    } else {
                        Ok(SizeChangeText::SetFixed(n as i32))
                    },
                    None => Err("error parsing value"),
                }
            },
        }
    }
}

/// Whether `s` is `auto` in any ASCII letter case, as
/// `str::eq_ignore_ascii_case` compares.
pub open spec fn is_auto(s: Seq<char>) -> bool {
    ascii_lower(s) == "auto"@
}

fn is_auto_exec(s: &[char]) -> (r: bool)
    ensures
        r == is_auto(s@),
{
    let mut l: Vec<char> = Vec::new();
    let mut i: usize = 0;
    while i < s.len()
        invariant
            i <= s@.len(),
            l@ == ascii_lower(s@.take(i as int)),
        decreases s@.len() - i,
    {
        let c = s[i];
        let lc = if 'A' <= c && c <= 'Z' {
            ((c as u8) + 32) as char
        } else {
            c
        };
        l.push(lc);
        i = i + 1;
        assert(l@ =~= ascii_lower(s@.take(i as int)));
    }
    assert(s@.take(i as int) =~= s@);
    eq_str(l.as_slice(), "auto")
}

/// An output mode as the command line gives it: the width and height, and
/// the text of the refresh rate after `@`, if any.
#[derive(Debug, Clone, PartialEq, Eq)]
pub struct ModeText {
    pub width: u16,
    pub height: u16,
    pub refresh: Option<String>,
}

/// What a mode argument `WIDTHxHEIGHT[@REFRESH]` says.
pub open spec fn mode_of(s: Seq<char>) -> Result<(u16, u16, Option<Seq<char>>), Seq<char>> {
    match split_once(s, 'x') {
        Some((w, rest)) => {
            let (h, refresh) = match split_once(rest, '@') {
                Some((h, r)) => (h, Some(r)),
                None => (rest, None),
            };
            match parse_unsigned(w, 10, u16::MAX as nat) {
                Some(wv) => match parse_unsigned(h, 10, u16::MAX as nat) {
                    Some(hv) => Ok((wv as u16, hv as u16, refresh)),
                    None => Err("error parsing height"@),
                },
                None => Err("error parsing width"@),
            }
        },
        None => Err("no 'x' separator found"@),
    }
}

impl ModeText {
    /// The mode that `s` gives; `None` for `auto`, in any ASCII letter
    /// case.
    pub fn parse(s: &str) -> (r: Result<Option<Self>, &'static str>)
        ensures
            is_auto(s@) ==> r matches Ok(None),
            !is_auto(s@) ==> match mode_of(s@) {
                Ok((w, h, refresh)) => r matches Ok(Some(m)) && m.width == w && m.height == h
                    && match refresh {
                    Some(t) => m.refresh matches Some(x) && x@ == t,
                    None => m.refresh is None,
                },
                Err(msg) => r matches Err(e) && e@ == msg,
            },
    {
        let c = chars_of(s);
        if is_auto_exec(c.as_slice()) {
            return Ok(None);
        }
        let (w, rest) = match split_once_exec(c.as_slice(), 'x') {
            Some(p) => p,
            None => {
                return Err("no 'x' separator found");
            },
        };
        let (h, refresh) = match split_once_exec(rest.as_slice(), '@') {
            Some((h, r)) => (h, Some(string_of(r.as_slice()))),
            None => (rest, None),
        };
        let width = match parse_uint(w.as_slice(), 10, 0xffff) {
            Some(v) => v as u16,
            None => {
                return Err("error parsing width");
            },
        };
        let height = match parse_uint(h.as_slice(), 10, 0xffff) {
            Some(v) => v as u16,
            None => {
                return Err("error parsing height");
            },
        };
        Ok(Some(ModeText { width, height, refresh }))
    }
}

/// Whether a scale argument asks for the automatic scale.
pub fn scale_is_auto(s: &str) -> (r: bool)
    ensures
        r == is_auto(s@),
{
    is_auto_exec(chars_of(s).as_slice())
}

} // verus!
