//! Display outputs: their arrangement, rotation and modes, read from the
//! text that the `wlr-randr` tool prints.
use vstd::prelude::*;
use crate::order::{lemma_text_order, sort_by_key, stable_sort, text_lt, text_lt_exec, views_of, SortKey};
use crate::text::{
    all_ascii, ascii_lower, split_ws, words, chars_of, contains, contains_str, eq_str, lines, lines_of,
    lowercase, lowercase_of, parse_signed, parse_int, parse_uint, parse_unsigned, split,
    split_on, split_once, split_once_exec, starts_with, starts_with_str, string_of,
    strip_prefix_str, strip_suffixes, trim, trim_char, trim_char_exec, trim_end_matches_str,
    trimmed, views, opt_view, lemma_split_nonempty, string_from, slice_of, padded_i64,
    signed_padded, append, append_str,
};

verus! {

/// Position on the virtual screen
#[derive(Debug, Clone, Copy, PartialEq, Eq, Structural)]
pub struct Position {
    pub x: i32,
    pub y: i32,
}

impl Default for Position {
    fn default() -> (r: Self)
        ensures
            r == (Position { x: 0, y: 0 }),
    {
        Position { x: 0, y: 0 }
    }
}

/// Physical dimensions
#[derive(Debug, Clone, Copy, PartialEq, Eq, Structural)]
pub struct PhysicalSize {
    pub width_mm: u32,
    pub height_mm: u32,
}

impl Default for PhysicalSize {
    fn default() -> (r: Self)
        ensures
            r == (PhysicalSize { width_mm: 0, height_mm: 0 }),
    {
        PhysicalSize { width_mm: 0, height_mm: 0 }
    }
}

/// Display transform/rotation
#[derive(Debug, Clone, Copy, PartialEq, Eq, Structural)]
pub enum Transform {
    Normal,
    Rotate90,
    Rotate180,
    Rotate270,
    Flipped,
    Flipped90,
    Flipped180,
    Flipped270,
}

impl Default for Transform {
    fn default() -> (r: Self)
        ensures
            r == Transform::Normal,
    {
        Transform::Normal
    }
}

/// The argument of `wlr-randr --transform` for a transform.
pub open spec fn wlr_randr_name(t: Transform) -> Seq<char> {
    match t {
        Transform::Normal => "normal"@,
        Transform::Rotate90 => "90"@,
        Transform::Rotate180 => "180"@,
        Transform::Rotate270 => "270"@,
        Transform::Flipped => "flipped"@,
        Transform::Flipped90 => "flipped-90"@,
        Transform::Flipped180 => "flipped-180"@,
        Transform::Flipped270 => "flipped-270"@,
    }
}

/// The transform a lower-case name stands for; any other name is `Normal`.
pub open spec fn transform_named(t: Seq<char>) -> Transform {
    if t == "90"@ || t == "rotate90"@ {
        Transform::Rotate90
    } else if t == "180"@ || t == "rotate180"@ {
        Transform::Rotate180
    } else if t == "270"@ || t == "rotate270"@ {
        Transform::Rotate270
    } else if t == "flipped"@ {
        Transform::Flipped
    } else if t == "flipped-90"@ || t == "flipped90"@ {
        Transform::Flipped90
    } else if t == "flipped-180"@ || t == "flipped180"@ {
        Transform::Flipped180
    } else if t == "flipped-270"@ || t == "flipped270"@ {
        Transform::Flipped270
    } else {
        Transform::Normal
    }
}

impl Transform {
    pub fn to_wlr_randr(&self) -> (r: &'static str)
        ensures
            r@ == wlr_randr_name(*self),
    {
        match self {
            Transform::Normal => "normal",
            Transform::Rotate90 => "90",
            Transform::Rotate180 => "180",
            Transform::Rotate270 => "270",
            Transform::Flipped => "flipped",
            Transform::Flipped90 => "flipped-90",
            Transform::Flipped180 => "flipped-180",
            Transform::Flipped270 => "flipped-270",
        }
    }

    /// The transform named by `s`, in any letter case.
    pub fn from_str(s: &str) -> (r: Self)
        ensures
            r == transform_named(lowercase(s@)),
            all_ascii(s@) ==> r == transform_named(ascii_lower(s@)),
    {
        Self::from_chars(chars_of(s).as_slice())
    }

    /// The transform named by the characters `s`, in any letter case.
    pub fn from_chars(s: &[char]) -> (r: Self)
        ensures
            r == transform_named(lowercase(s@)),
            all_ascii(s@) ==> r == transform_named(ascii_lower(s@)),
    {
        let lower = lowercase_of(s);
        let l = lower.as_slice();
        if eq_str(l, "90") || eq_str(l, "rotate90") {
            Transform::Rotate90
        } else if eq_str(l, "180") || eq_str(l, "rotate180") {
            Transform::Rotate180
        } else if eq_str(l, "270") || eq_str(l, "rotate270") {
            Transform::Rotate270
        } else if eq_str(l, "flipped") {
            Transform::Flipped
        } else if eq_str(l, "flipped-90") || eq_str(l, "flipped90") {
            Transform::Flipped90
        } else if eq_str(l, "flipped-180") || eq_str(l, "flipped180") {
            Transform::Flipped180
        } else if eq_str(l, "flipped-270") || eq_str(l, "flipped270") {
            Transform::Flipped270
        } else {
            Transform::Normal
        }
    }
}

/// Reading back the name that `to_wlr_randr` gives a transform yields the
/// same transform: the names are plain ASCII, already in lower case, and
/// each is recognised by `from_str`.
pub proof fn law_transform_round_trip(t: Transform)
    ensures
        all_ascii(wlr_randr_name(t)),
        ascii_lower(wlr_randr_name(t)) == wlr_randr_name(t),
        transform_named(ascii_lower(wlr_randr_name(t))) == t,
{
    reveal_strlit("normal");
    reveal_strlit("90");
    reveal_strlit("180");
    reveal_strlit("270");
    reveal_strlit("flipped");
    reveal_strlit("flipped-90");
    reveal_strlit("flipped-180");
    reveal_strlit("flipped-270");
    reveal_strlit("rotate90");
    reveal_strlit("rotate180");
    reveal_strlit("rotate270");
    reveal_strlit("flipped90");
    reveal_strlit("flipped180");
    reveal_strlit("flipped270");
    let n = wlr_randr_name(t);
    assert(ascii_lower(n) =~= n);
    match t {
        Transform::Normal => {
            assert(n != "90"@ && n != "rotate90"@ && n != "180"@ && n != "rotate180"@);
            assert(n != "270"@ && n != "rotate270"@ && n != "flipped"@);
            assert(n != "flipped-90"@ && n != "flipped90"@ && n != "flipped-180"@);
            assert(n != "flipped180"@ && n != "flipped-270"@ && n != "flipped270"@);
        },
        Transform::Flipped90 => {
            assert(n != "90"@ && n != "rotate90"@ && n != "180"@ && n != "rotate180"@);
            assert(n != "270"@ && n != "rotate270"@ && n != "flipped"@);
        },
        Transform::Flipped180 => {
            assert(n != "90"@ && n != "rotate90"@ && n != "180"@ && n != "rotate180"@);
            assert(n != "270"@ && n != "rotate270"@ && n != "flipped"@);
            assert(n != "flipped-90"@ && n != "flipped90"@);
        },
        Transform::Flipped270 => {
            assert(n != "90"@ && n != "rotate90"@ && n != "180"@ && n != "rotate180"@);
            assert(n != "270"@ && n != "rotate270"@ && n != "flipped"@);
            assert(n[8] != "flipped-180"@[8]);
            assert(n != "flipped-90"@ && n != "flipped90"@ && n != "flipped-180"@);
            assert(n != "flipped180"@);
        },
        Transform::Flipped => {
            assert(n != "90"@ && n != "rotate90"@ && n != "180"@ && n != "rotate180"@);
            assert(n != "270"@ && n != "rotate270"@);
        },
        Transform::Rotate180 => {
            assert(n != "90"@ && n != "rotate90"@);
        },
        Transform::Rotate270 => {
            assert(n[0] != "180"@[0]);
            assert(n != "90"@ && n != "rotate90"@ && n != "180"@ && n != "rotate180"@);
        },
        Transform::Rotate90 => {},
    }
}

/// How to display the wallpaper
#[derive(Debug, Clone, Copy, PartialEq, Eq, Structural)]
pub enum WallpaperMode {
    Fill,
    Fit,
    Stretch,
    Center,
    Tile,
}

impl Default for WallpaperMode {
    fn default() -> (r: Self)
        ensures
            r == WallpaperMode::Fill,
    {
        WallpaperMode::Fill
    }
}

/// Wallpaper info
#[derive(Debug, Clone)]
pub struct Wallpaper {
    /// Path to the wallpaper image
    pub path: String,
    /// Display mode
    pub mode: WallpaperMode,
}

/// Display mode (resolution + refresh rate)
#[derive(Debug)]
pub struct DisplayMode {
    /// Width in pixels
    pub width: u32,
    /// Height in pixels
    pub height: u32,
    /// Refresh rate in Hz as printed, without its unit, when the mode line
    /// gives one
    pub refresh: Option<String>,
    /// Whether this is the preferred mode
    pub preferred: bool,
}

/// What a display mode holds.
pub struct ModeView {
    pub width: u32,
    pub height: u32,
    pub refresh: Option<Seq<char>>,
    pub preferred: bool,
}

impl View for DisplayMode {
    type V = ModeView;

    open spec fn view(&self) -> ModeView {
        ModeView {
            width: self.width,
            height: self.height,
            refresh: opt_view(self.refresh),
            preferred: self.preferred,
        }
    }
}

impl DisplayMode {
    /// A copy of this mode.
    pub fn duplicate(&self) -> (r: Self)
        ensures
            r@ == self@,
    {
        let refresh = match &self.refresh {
            Some(t) => Some(t.clone()),
            None => None,
        };
        DisplayMode { width: self.width, height: self.height, refresh, preferred: self.preferred }
    }
}

/// Display/output information
#[derive(Debug)]
pub struct Display {
    /// Output name (e.g., "DP-1", "HDMI-A-1")
    pub name: String,
    /// Make/manufacturer
    pub make: String,
    /// Model name
    pub model: String,
    /// Serial number
    pub serial: String,
    /// Whether this output is enabled
    pub enabled: bool,
    /// Current mode (resolution and refresh rate)
    pub current_mode: Option<DisplayMode>,
    /// Available modes
    pub modes: Vec<DisplayMode>,
    /// Current position
    pub position: Position,
    /// Current transform/rotation
    pub transform: Transform,
    /// Current scale factor, as printed, when a scale was given
    pub scale: Option<String>,
    /// Physical size in mm
    pub physical_size: PhysicalSize,
}

/// What a display holds.
pub struct DisplayView {
    pub name: Seq<char>,
    pub make: Seq<char>,
    pub model: Seq<char>,
    pub serial: Seq<char>,
    pub enabled: bool,
    pub current_mode: Option<ModeView>,
    pub modes: Seq<ModeView>,
    pub position: Position,
    pub transform: Transform,
    pub scale: Option<Seq<char>>,
    pub physical_size: PhysicalSize,
}

/// The view of an optional mode.
pub open spec fn opt_mode(m: Option<DisplayMode>) -> Option<ModeView> {
    match m {
        Some(x) => Some(x@),
        None => None,
    }
}

/// The views of a sequence of modes.
pub open spec fn mode_views(v: Seq<DisplayMode>) -> Seq<ModeView> {
    v.map_values(|m: DisplayMode| m@)
}

impl View for Display {
    type V = DisplayView;

    open spec fn view(&self) -> DisplayView {
        DisplayView {
            name: self.name@,
            make: self.make@,
            model: self.model@,
            serial: self.serial@,
            enabled: self.enabled,
            current_mode: opt_mode(self.current_mode),
            modes: mode_views(self.modes@),
            position: self.position,
            transform: self.transform,
            scale: opt_view(self.scale),
            physical_size: self.physical_size,
        }
    }
}

/// The views of a sequence of displays.
pub open spec fn display_views(v: Seq<Display>) -> Seq<DisplayView> {
    v.map_values(|d: Display| d@)
}

/// The mode a `wlr-randr` mode line such as
/// `1920x1080 px, 60.000000 Hz (preferred, current)` describes: the
/// resolution before the first comma, and the refresh rate, the first word
/// after it without its `Hz` unit.
pub open spec fn mode_of_line(line: Seq<char>) -> Option<ModeView> {
    let parts = split(line, ',');
    let res = split(strip_suffixes(trim(parts[0]), " px"@), 'x');
    if res.len() != 2 {
        None
    } else {
        match (
            parse_unsigned(trim(res[0]), 10, u32::MAX as nat),
            parse_unsigned(trim(res[1]), 10, u32::MAX as nat),
        ) {
            (Some(w), Some(h)) => Some(
                ModeView {
                    width: w as u32,
                    height: h as u32,
                    refresh: if parts.len() > 1 && words(parts[1]).len() > 0 {
                        Some(strip_suffixes(words(parts[1])[0], "Hz"@))
                    } else {
                        None
                    },
                    preferred: contains(line, "preferred"@),
                },
            ),
            _ => None,
        }
    }
}

/// Display backend
pub struct DisplayBackend;

impl DisplayBackend {
    /// Parse a mode line from wlr-randr text output
    pub fn parse_mode_line(line: &str) -> (r: Option<DisplayMode>)
        ensures
            opt_mode(r) == mode_of_line(line@),
    {
        mode_from_chars(chars_of(line).as_slice())
    }
}

fn mode_from_chars(line: &[char]) -> (r: Option<DisplayMode>)
    ensures
        opt_mode(r) == mode_of_line(line@),
{
    let parts = split_on(line, ',');
    proof {
        lemma_split_nonempty(line@, ',');
    }
    assert(views(parts@)[0] == parts@[0]@);
    let p0 = trimmed(parts[0].as_slice());
    let res_part = trim_end_matches_str(p0.as_slice(), " px");
    let res = split_on(res_part.as_slice(), 'x');
    if res.len() != 2 {
        return None;
    }
    assert(views(res@)[0] == res@[0]@);
    assert(views(res@)[1] == res@[1]@);
    let w = parse_uint(trimmed(res[0].as_slice()).as_slice(), 10, 0xffff_ffff);
    let h = parse_uint(trimmed(res[1].as_slice()).as_slice(), 10, 0xffff_ffff);
    match (w, h) {
        (Some(width), Some(height)) => {
            let refresh = if parts.len() > 1 {
                assert(views(parts@)[1] == parts@[1]@);
                let ws = split_ws(parts[1].as_slice());
                if ws.len() > 0 {
                    assert(views(ws@)[0] == ws@[0]@);
                    let rate = trim_end_matches_str(ws[0].as_slice(), "Hz");
                    Some(string_of(rate.as_slice()))
                } else {
                    None
                }
            } else {
                None
            };
            let preferred = contains_str(line, "preferred");
            Some(DisplayMode { width: width as u32, height: height as u32, refresh, preferred })
        },
        _ => None,
    }
}


/// The value of a decimal `i32` field, 0 when it does not parse.
pub open spec fn i32_or_zero(s: Seq<char>) -> i32 {
    match parse_signed(s, 10, i32::MIN as int, i32::MAX as nat) {
        Some(v) => v as i32,
        None => 0,
    }
}

/// The value of a decimal `u32` field, 0 when it does not parse.
pub open spec fn u32_or_zero(s: Seq<char>) -> u32 {
    match parse_unsigned(s, 10, u32::MAX as nat) {
        Some(v) => v as u32,
        None => 0,
    }
}

/// The display that an unindented line such as `DP-1 "Make Model Serial"`
/// introduces: the name up to the first space, then make, model and serial
/// from the quoted description.
pub open spec fn display_header(t: Seq<char>) -> DisplayView {
    let (name, description) = match split_once(t, ' ') {
        Some((a, b)) => (a, trim_char(b, '"')),
        None => (t, Seq::<char>::empty()),
    };
    let d = split(description, ' ');
    DisplayView {
        name,
        make: d[0],
        model: if d.len() > 1 {
            d[1]
        } else {
            "Unknown"@
        },
        serial: if d.len() > 2 {
            d[2]
        } else {
            Seq::<char>::empty()
        },
        enabled: true,
        current_mode: None,
        modes: Seq::<ModeView>::empty(),
        position: Position { x: 0, y: 0 },
        transform: Transform::Normal,
        scale: None,
        physical_size: PhysicalSize { width_mm: 0, height_mm: 0 },
    }
}

/// A display after one of its indented property lines `t` (trimmed), and
/// whether the lines that follow list modes.
pub open spec fn display_property(d: DisplayView, in_modes: bool, t: Seq<char>) -> (
    DisplayView,
    bool,
) {
    if starts_with(t, "Enabled:"@) {
        (DisplayView { enabled: contains(t, "yes"@), ..d }, in_modes)
    } else if starts_with(t, "Position:"@) {
        let coords = split(trim(t.skip(9)), ',');
        if coords.len() == 2 {
            (
                DisplayView {
                    position: Position {
                        x: i32_or_zero(trim(coords[0])),
                        y: i32_or_zero(trim(coords[1])),
                    },
                    ..d
                },
                in_modes,
            )
        } else {
            (d, in_modes)
        }
    } else if starts_with(t, "Transform:"@) {
        (DisplayView { transform: transform_named(lowercase(trim(t.skip(10)))), ..d }, in_modes)
    } else if starts_with(t, "Scale:"@) {
        (DisplayView { scale: Some(trim(t.skip(6))), ..d }, in_modes)
    } else if starts_with(t, "Physical size:"@) {
        let parts = split(trim(t.skip(14)), 'x');
        if parts.len() == 2 {
            (
                DisplayView {
                    physical_size: PhysicalSize {
                        width_mm: u32_or_zero(strip_suffixes(trim(parts[0]), "mm"@)),
                        height_mm: u32_or_zero(trim(strip_suffixes(trim(parts[1]), "mm"@))),
                    },
                    ..d
                },
                in_modes,
            )
        } else {
            (d, in_modes)
        }
    } else if t == "Modes:"@ {
        (d, true)
    } else if in_modes && contains(t, "px"@) {
        match mode_of_line(t) {
            Some(m) => (
                DisplayView {
                    current_mode: if contains(t, "current"@) {
                        Some(m)
                    } else {
                        d.current_mode
                    },
                    modes: d.modes.push(m),
                    ..d
                },
                in_modes,
            ),
            None => (d, in_modes),
        }
    } else {
        (d, in_modes)
    }
}

/// Where the reading of `wlr-randr` output stands: the displays done, the
/// display being read, and whether its mode list is being read.
pub struct ScanState {
    pub done: Seq<DisplayView>,
    pub current: Option<DisplayView>,
    pub in_modes: bool,
}

/// The state after one more line: an unindented, non-blank line starts a
/// display; any other line describes the current one.
pub open spec fn scan_line(st: ScanState, line: Seq<char>) -> ScanState {
    let t = trim(line);
    if !(line.len() > 0 && (line[0] == ' ' || line[0] == '\t')) && t.len() > 0 {
        ScanState {
            done: match st.current {
                Some(d) => st.done.push(d),
                None => st.done,
            },
            current: Some(display_header(t)),
            in_modes: false,
        }
    } else {
        match st.current {
            Some(d) => {
                let (nd, m) = display_property(d, st.in_modes, t);
                ScanState { done: st.done, current: Some(nd), in_modes: m }
            },
            None => st,
        }
    }
}

/// The state after the lines `ls`.
pub open spec fn scan_lines(ls: Seq<Seq<char>>) -> ScanState
    decreases ls.len(),
{
    if ls.len() == 0 {
        ScanState { done: Seq::<DisplayView>::empty(), current: None, in_modes: false }
    } else {
        scan_line(scan_lines(ls.drop_last()), ls.last())
    }
}

/// The displays that the text output of `wlr-randr` describes, in order.
pub open spec fn displays_of(out: Seq<char>) -> Seq<DisplayView> {
    let st = scan_lines(lines(out));
    match st.current {
        Some(d) => st.done.push(d),
        None => st.done,
    }
}

fn header_display(t: &[char]) -> (r: Display)
    ensures
        r@ == display_header(t@),
{
    let (name, description) = match split_once_exec(t, ' ') {
        Some((a, b)) => (a, trim_char_exec(b.as_slice(), '"')),
        None => (slice_of(t, 0, t.len()), Vec::new()),
    };
    assert(t@.subrange(0, t@.len() as int) =~= t@);
    assert(name@ == (match split_once(t@, ' ') {
        Some((a, b)) => a,
        None => t@,
    }));
    assert(description@ == (match split_once(t@, ' ') {
        Some((a, b)) => trim_char(b, '"'),
        None => Seq::<char>::empty(),
    }));
    let d = split_on(description.as_slice(), ' ');
    proof {
        lemma_split_nonempty(description@, ' ');
    }
    assert(views(d@)[0] == d@[0]@);
    let make = string_of(d[0].as_slice());
    let model = if d.len() > 1 {
        assert(views(d@)[1] == d@[1]@);
        string_of(d[1].as_slice())
    } else {
        string_from("Unknown")
    };
    let serial = if d.len() > 2 {
        assert(views(d@)[2] == d@[2]@);
        string_of(d[2].as_slice())
    } else {
        String::new()
    };
    let r = Display {
        name: string_of(name.as_slice()),
        make,
        model,
        serial,
        enabled: true,
        current_mode: None,
        modes: Vec::new(),
        position: Position { x: 0, y: 0 },
        transform: Transform::Normal,
        scale: None,
        physical_size: PhysicalSize { width_mm: 0, height_mm: 0 },
    };
    assert(mode_views(r.modes@) =~= Seq::<ModeView>::empty());
    r
}

fn i32_field(s: &[char]) -> (r: i32)
    ensures
        r == i32_or_zero(s@),
{
    match parse_int(s, 10, -2147483648, 2147483647) {
        Some(v) => v as i32,
        None => 0,
    }
}

fn u32_field(s: &[char]) -> (r: u32)
    ensures
        r == u32_or_zero(s@),
{
    match parse_uint(s, 10, 0xffff_ffff) {
        Some(v) => v as u32,
        None => 0,
    }
}

fn apply_property(d: Display, in_modes: bool, t: &[char]) -> (r: (Display, bool))
    ensures
        (r.0@, r.1) == display_property(d@, in_modes, t@),
{
    let mut d = d;
    if starts_with_str(t, "Enabled:") {
        d.enabled = contains_str(t, "yes");
        return (d, in_modes);
    }
    if let Some(pos) = strip_prefix_str(t, "Position:") {
        proof {
            reveal_strlit("Position:");
        }
        let coords = split_on(trimmed(pos.as_slice()).as_slice(), ',');
        if coords.len() == 2 {
            assert(views(coords@)[0] == coords@[0]@);
            assert(views(coords@)[1] == coords@[1]@);
            let x = i32_field(trimmed(coords[0].as_slice()).as_slice());
            let y = i32_field(trimmed(coords[1].as_slice()).as_slice());
            d.position = Position { x, y };
        }
        return (d, in_modes);
    }
    if let Some(tr) = strip_prefix_str(t, "Transform:") {
        proof {
            reveal_strlit("Transform:");
        }
        d.transform = Transform::from_chars(trimmed(tr.as_slice()).as_slice());
        return (d, in_modes);
    }
    if let Some(sc) = strip_prefix_str(t, "Scale:") {
        proof {
            reveal_strlit("Scale:");
        }
        d.scale = Some(string_of(trimmed(sc.as_slice()).as_slice()));
        return (d, in_modes);
    }
    if let Some(size) = strip_prefix_str(t, "Physical size:") {
        proof {
            reveal_strlit("Physical size:");
        }
        let parts = split_on(trimmed(size.as_slice()).as_slice(), 'x');
        if parts.len() == 2 {
            assert(views(parts@)[0] == parts@[0]@);
            assert(views(parts@)[1] == parts@[1]@);
            let w = trim_end_matches_str(trimmed(parts[0].as_slice()).as_slice(), "mm");
            let h = trim_end_matches_str(trimmed(parts[1].as_slice()).as_slice(), "mm");
            let width_mm = u32_field(w.as_slice());
            let height_mm = u32_field(trimmed(h.as_slice()).as_slice());
            d.physical_size = PhysicalSize { width_mm, height_mm };
        }
        return (d, in_modes);
    }
    if eq_str(t, "Modes:") {
        return (d, true);
    }
    if in_modes && contains_str(t, "px") {
        if let Some(mode) = mode_from_chars(t) {
            let ghost old_modes = d.modes@;
            if contains_str(t, "current") {
                d.current_mode = Some(mode.duplicate());
            }
            d.modes.push(mode);
            assert(mode_views(d.modes@) =~= mode_views(old_modes).push(mode@));
        }
    }
    (d, in_modes)
}

impl DisplayBackend {
    /// The displays that the text output of `wlr-randr` describes.
    pub fn list_displays_text(stdout: &str) -> (r: Vec<Display>)
        ensures
            display_views(r@) == displays_of(stdout@),
    {
        let ls = lines_of(chars_of(stdout).as_slice());
        let mut displays: Vec<Display> = Vec::new();
        let mut current: Option<Display> = None;
        let mut in_modes = false;
        let mut i: usize = 0;
        assert(lines(stdout@).take(0) =~= Seq::<Seq<char>>::empty());
        assert(display_views(displays@) =~= Seq::<DisplayView>::empty());
        while i < ls.len()
            invariant
                i <= ls@.len(),
                views(ls@) == lines(stdout@),
                scan_lines(lines(stdout@).take(i as int)) == (ScanState {
                    done: display_views(displays@),
                    current: opt_display(current),
                    in_modes,
                }),
            decreases ls@.len() - i,
        {
            let ghost prev = lines(stdout@).take(i as int);
            assert(lines(stdout@).take(i + 1).drop_last() =~= prev);
            assert(views(ls@)[i as int] == ls@[i as int]@);
            let line = ls[i].as_slice();
            let t = trimmed(line);
            let indented = line.len() > 0 && (line[0] == ' ' || line[0] == '\t');
            if !indented && t.len() > 0 {
                let ghost old_done = displays@;
                match current {
                    Some(d) => {
                        displays.push(d);
                        assert(display_views(displays@) =~= display_views(old_done).push(d@));
                    },
                    None => {},
                }
                current = Some(header_display(t.as_slice()));
                in_modes = false;
            } else {
                current = match current {
                    Some(d) => {
                        let (nd, m) = apply_property(d, in_modes, t.as_slice());
                        in_modes = m;
                        Some(nd)
                    },
                    None => None,
                };
            }
            i = i + 1;
        }
        assert(lines(stdout@).take(i as int) =~= lines(stdout@));
        let ghost old_done = displays@;
        match current {
            Some(d) => {
                displays.push(d);
                assert(display_views(displays@) =~= display_views(old_done).push(d@));
            },
            None => {},
        }
        displays
    }
}

/// The view of an optional display.
pub open spec fn opt_display(d: Option<Display>) -> Option<DisplayView> {
    match d {
        Some(x) => Some(x@),
        None => None,
    }
}


/// A file found in a wallpaper directory: its path, its file name and its
/// extension, where it has them.
#[derive(Debug, Clone)]
pub struct ImageFile {
    pub path: String,
    pub file_name: Option<String>,
    pub extension: Option<String>,
}

/// What a found file holds.
pub struct ImageFileView {
    pub path: Seq<char>,
    pub file_name: Option<Seq<char>>,
    pub extension: Option<Seq<char>>,
}

impl View for ImageFile {
    type V = ImageFileView;

    open spec fn view(&self) -> ImageFileView {
        ImageFileView {
            path: self.path@,
            file_name: opt_view(self.file_name),
            extension: opt_view(self.extension),
        }
    }
}

/// File names in order, a missing one first.
pub open spec fn file_name_lt(a: Option<Seq<char>>, b: Option<Seq<char>>) -> bool {
    match (a, b) {
        (None, Some(_)) => true,
        (Some(x), Some(y)) => text_lt(x, y),
        _ => false,
    }
}

impl SortKey for ImageFile {
    /// Files go by name.
    open spec fn precedes(a: ImageFileView, b: ImageFileView) -> bool {
        file_name_lt(a.file_name, b.file_name)
    }

    fn precedes_exec(&self, other: &Self) -> (r: bool) {
        match (&self.file_name, &other.file_name) {
            (None, Some(_)) => true,
            (Some(x), Some(y)) => {
                let a = chars_of(x.as_str());
                let b = chars_of(y.as_str());
                text_lt_exec(a.as_slice(), b.as_slice())
            },
            _ => false,
        }
    }

    proof fn lemma_strict_weak_order(a: ImageFileView, b: ImageFileView, c: ImageFileView) {
        let e = Seq::<char>::empty();
        let x = match a.file_name {
            Some(v) => v,
            None => e,
        };
        let y = match b.file_name {
            Some(v) => v,
            None => e,
        };
        let z = match c.file_name {
            Some(v) => v,
            None => e,
        };
        lemma_text_order(x, y, z);
    }
}

/// Whether an extension, in lower case, is that of a wallpaper image.
pub open spec fn wallpaper_extension(e: Seq<char>) -> bool {
    e == "png"@ || e == "jpg"@ || e == "jpeg"@ || e == "webp"@ || e == "bmp"@
}

/// The files with a wallpaper image's extension, in order.
pub open spec fn wallpaper_files(f: Seq<ImageFileView>) -> Seq<ImageFileView>
    decreases f.len(),
{
    if f.len() == 0 {
        f
    } else {
        let prev = wallpaper_files(f.drop_last());
        match f.last().extension {
            Some(e) => if wallpaper_extension(lowercase(e)) {
                prev.push(f.last())
            } else {
                prev
            },
            None => prev,
        }
    }
}

impl DisplayBackend {
    /// The argument of `wlr-randr --pos` that places an output at `x`, `y`.
    pub fn position_argument(x: i32, y: i32) -> (r: String)
        ensures
            r@ == signed_padded(x as int, 0) + ","@ + signed_padded(y as int, 0),
    {
        let mut p = padded_i64(x as i64, 0);
        append_str(&mut p, ",");
        let ys = padded_i64(y as i64, 0);
        append(&mut p, ys.as_slice());
        string_of(p.as_slice())
    }

    /// The wallpapers among the files found in the wallpaper directories:
    /// the images by extension (whatever its letter case), sorted by file
    /// name.
    pub fn list_wallpapers(found: &[ImageFile]) -> (r: Vec<String>)
        ensures
            r@.map_values(|p: String| p@) == sort_by_key::<ImageFile>(
                wallpaper_files(views_of(found@)),
            ).map_values(|f: ImageFileView| f.path),
    {
        let mut images: Vec<ImageFile> = Vec::new();
        let mut i: usize = 0;
        let n = found.len();
        assert(views_of(found@).take(0) =~= Seq::<ImageFileView>::empty());
        assert(views_of(images@) =~= Seq::<ImageFileView>::empty());
        while i < n
            invariant
                i <= n,
                n == found@.len(),
                views_of(images@) == wallpaper_files(views_of(found@).take(i as int)),
            decreases n - i,
        {
            assert(views_of(found@).take(i + 1).drop_last() =~= views_of(found@).take(i as int));
            assert(views_of(found@)[i as int] == found@[i as int]@);
            let f = &found[i];
            if let Some(e) = &f.extension {
                let lower = lowercase_of(chars_of(e.as_str()).as_slice());
                let l = lower.as_slice();
                if eq_str(l, "png") || eq_str(l, "jpg") || eq_str(l, "jpeg") || eq_str(l, "webp")
                    || eq_str(l, "bmp") {
                    let copy = ImageFile {
                        path: f.path.clone(),
                        file_name: match &f.file_name {
                            Some(x) => Some(x.clone()),
                            None => None,
                        },
                        extension: Some(e.clone()),
                    };
                    let ghost before = views_of(images@);
                    images.push(copy);
                    assert(views_of(images@) =~= before.push(f@));
                }
            }
            i = i + 1;
        }
        assert(views_of(found@).take(i as int) =~= views_of(found@));
        let sorted = stable_sort(images);
        let ghost sv = views_of(sorted@);
        let mut r: Vec<String> = Vec::new();
        let mut j: usize = 0;
        while j < sorted.len()
            invariant
                j <= sorted@.len(),
                sv == views_of(sorted@),
                r@.map_values(|p: String| p@) == sv.take(j as int).map_values(
                    |f: ImageFileView| f.path,
                ),
            decreases sorted@.len() - j,
        {
            assert(sv[j as int] == sorted@[j as int]@);
            let ghost before = r@;
            let p = sorted[j].path.clone();
            assert(p@ == sv[j as int].path);
            r.push(p);
            assert(r@.map_values(|p: String| p@) =~= before.map_values(|p: String| p@).push(
                sv[j as int].path,
            ));
            assert(sv.take(j + 1) =~= sv.take(j as int).push(sv[j as int]));
            assert(r@.map_values(|p: String| p@) =~= sv.take(j + 1).map_values(
                |f: ImageFileView| f.path,
            ));
            j = j + 1;
        }
        assert(sv.take(j as int) =~= sv);
        r
    }
}

} // verus!
