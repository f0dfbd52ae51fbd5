//! Keyboard settings: the layout and its variant as `localectl` or
//! `setxkbmap` report them, their display names, and key repeat settings as
//! `xset` reports them.
use vstd::prelude::*;
use crate::text::{
    append, append_str, chars_of, contains, contains_str, eq_str, lemma_split_at_sep, lines,
    lines_of, parse_uint, parse_unsigned, split, split_on, split_ws, starts_with,
    starts_with_str, string_from, string_of, string_views, trim, trimmed, views, words,
};

verus! {

/// Keyboard layout information
#[derive(Debug, Clone)]
pub struct KeyboardLayout {
    /// Layout code (e.g., "us", "gb", "de")
    pub code: String,
    /// Display name (e.g., "English (US)")
    pub name: String,
    /// Variant (e.g., "dvorak", "colemak")
    pub variant: Option<String>,
}

/// What a keyboard layout holds.
pub struct LayoutView {
    pub code: Seq<char>,
    pub name: Seq<char>,
    pub variant: Option<Seq<char>>,
}

/// The view of an optional string.
pub open spec fn opt_text(o: Option<String>) -> Option<Seq<char>> {
    match o {
        Some(s) => Some(s@),
        None => None,
    }
}

impl View for KeyboardLayout {
    type V = LayoutView;

    open spec fn view(&self) -> LayoutView {
        LayoutView { code: self.code@, name: self.name@, variant: opt_text(self.variant) }
    }
}

/// Key repeat settings
#[derive(Debug, Clone, Copy, PartialEq, Eq, Structural)]
pub struct KeyRepeatSettings {
    /// Delay before key repeat starts (milliseconds)
    pub delay: u32,
    /// Key repeat rate (keys per second)
    pub rate: u32,
}

impl Default for KeyRepeatSettings {
    fn default() -> (r: Self)
        ensures
            r == (KeyRepeatSettings { delay: 500, rate: 25 }),
    {
        Self { delay: 500, rate: 25 }
    }
}

/// Complete keyboard settings
#[derive(Debug, Clone)]
pub struct KeyboardSettings {
    /// Current keyboard layout
    pub layout: KeyboardLayout,
    /// Key repeat configuration
    pub repeat: KeyRepeatSettings,
    /// Caps lock indicator enabled
    pub caps_lock_indicator: bool,
    /// Num lock state on startup
    pub num_lock_on_startup: bool,
}

/// Keyboard settings backend
pub struct KeyboardBackend;

impl Default for KeyboardBackend {
    fn default() -> (r: Self) {
        Self::new()
    }
}

/// The display name of a layout code; an unknown code stands for itself.
pub open spec fn base_name(code: Seq<char>) -> Seq<char> {
    if code == "us"@ {
        "English (US)"@
    } else if code == "gb"@ {
        "English (UK)"@
    } else if code == "de"@ {
        "German"@
    } else if code == "fr"@ {
        "French"@
    } else if code == "es"@ {
        "Spanish"@
    } else if code == "it"@ {
        "Italian"@
    } else if code == "pt"@ {
        "Portuguese"@
    } else if code == "ru"@ {
        "Russian"@
    } else if code == "jp"@ {
        "Japanese"@
    } else if code == "kr"@ {
        "Korean"@
    } else if code == "cn"@ {
        "Chinese"@
    } else if code == "br"@ {
        "Portuguese (Brazil)"@
    } else if code == "ca"@ {
        "Canadian"@
    } else if code == "ch"@ {
        "Swiss"@
    } else if code == "se"@ {
        "Swedish"@
    } else if code == "no"@ {
        "Norwegian"@
    } else if code == "dk"@ {
        "Danish"@
    } else if code == "fi"@ {
        "Finnish"@
    } else if code == "pl"@ {
        "Polish"@
    } else if code == "cz"@ {
        "Czech"@
    } else if code == "hu"@ {
        "Hungarian"@
    } else if code == "ro"@ {
        "Romanian"@
    } else if code == "tr"@ {
        "Turkish"@
    } else if code == "gr"@ {
        "Greek"@
    } else if code == "il"@ {
        "Hebrew"@
    } else if code == "ara"@ {
        "Arabic"@
    } else if code == "th"@ {
        "Thai"@
    } else if code == "vn"@ {
        "Vietnamese"@
    } else {
        code
    }
}

/// The display name of a layout and its variant: the known variants by
/// name, any other non-empty variant as it is, in brackets after the
/// layout's name.
pub open spec fn layout_name(code: Seq<char>, variant: Option<Seq<char>>) -> Seq<char> {
    let b = base_name(code);
    match variant {
        Some(v) => if v == "dvorak"@ {
            b + " (Dvorak)"@
        } else if v == "colemak"@ {
            b + " (Colemak)"@
        } else if v == "mac"@ {
            b + " (Mac)"@
        } else if v == "intl"@ {
            b + " (International)"@
        } else if v.len() > 0 {
            b + " ("@ + v + ")"@
        } else {
            b
        },
        None => b,
    }
}

fn base_name_of(code: &[char]) -> (r: Vec<char>)
    ensures
        r@ == base_name(code@),
{
    let name: &str = if eq_str(code, "us") {
        "English (US)"
    } else if eq_str(code, "gb") {
        "English (UK)"
    } else if eq_str(code, "de") {
        "German"
    } else if eq_str(code, "fr") {
        "French"
    } else if eq_str(code, "es") {
        "Spanish"
    } else if eq_str(code, "it") {
        "Italian"
    } else if eq_str(code, "pt") {
        "Portuguese"
    } else if eq_str(code, "ru") {
        "Russian"
    } else if eq_str(code, "jp") {
        "Japanese"
    } else if eq_str(code, "kr") {
        "Korean"
    } else if eq_str(code, "cn") {
        "Chinese"
    } else if eq_str(code, "br") {
        "Portuguese (Brazil)"
    } else if eq_str(code, "ca") {
        "Canadian"
    } else if eq_str(code, "ch") {
        "Swiss"
    } else if eq_str(code, "se") {
        "Swedish"
    } else if eq_str(code, "no") {
        "Norwegian"
    } else if eq_str(code, "dk") {
        "Danish"
    } else if eq_str(code, "fi") {
        "Finnish"
    } else if eq_str(code, "pl") {
        "Polish"
    } else if eq_str(code, "cz") {
        "Czech"
    } else if eq_str(code, "hu") {
        "Hungarian"
    } else if eq_str(code, "ro") {
        "Romanian"
    } else if eq_str(code, "tr") {
        "Turkish"
    } else if eq_str(code, "gr") {
        "Greek"
    } else if eq_str(code, "il") {
        "Hebrew"
    } else if eq_str(code, "ara") {
        "Arabic"
    } else if eq_str(code, "th") {
        "Thai"
    } else if eq_str(code, "vn") {
        "Vietnamese"
    } else {
        let mut r: Vec<char> = Vec::new();
        append(&mut r, code);
        return r;
    };
    chars_of(name)
}

fn layout_name_of(code: &[char], variant: Option<&[char]>) -> (r: String)
    ensures
        r@ == layout_name(
            code@,
            match variant {
                Some(v) => Some(v@),
                None => None,
            },
        ),
{
    let mut b = base_name_of(code);
    match variant {
        Some(v) => {
            if eq_str(v, "dvorak") {
                append_str(&mut b, " (Dvorak)");
            } else if eq_str(v, "colemak") {
                append_str(&mut b, " (Colemak)");
            } else if eq_str(v, "mac") {
                append_str(&mut b, " (Mac)");
            } else if eq_str(v, "intl") {
                append_str(&mut b, " (International)");
            } else if v.len() > 0 {
                append_str(&mut b, " (");
                append(&mut b, v);
                append_str(&mut b, ")");
            }
        },
        None => {},
    }
    string_of(b.as_slice())
}

/// The layout code and variant after a trimmed line of `localectl status`:
/// `X11 Layout:` and `VC Keymap:` set the code, a non-empty `X11 Variant:`
/// sets the variant, each to the trimmed text after the first colon.
pub open spec fn localectl_line(st: (Seq<char>, Option<Seq<char>>), t: Seq<char>) -> (
    Seq<char>,
    Option<Seq<char>>,
) {
    let code = if starts_with(t, "X11 Layout:"@) || starts_with(t, "VC Keymap:"@) {
        trim(split(t, ':')[1])
    } else {
        st.0
    };
    let variant = if starts_with(t, "X11 Variant:"@) && trim(split(t, ':')[1]).len() > 0 {
        Some(trim(split(t, ':')[1]))
    } else {
        st.1
    };
    (code, variant)
}

/// The layout code and variant that the lines `ls` of `localectl status`
/// give; the code is `us` when none does.
pub open spec fn localectl_scan(ls: Seq<Seq<char>>) -> (Seq<char>, Option<Seq<char>>)
    decreases ls.len(),
{
    if ls.len() == 0 {
        ("us"@, None)
    } else {
        localectl_line(localectl_scan(ls.drop_last()), trim(ls.last()))
    }
}

/// The layout code and variant after a line of `setxkbmap -query`: the
/// word after `layout:` or `variant:` when the line has two words or more.
pub open spec fn setxkbmap_line(st: (Seq<char>, Option<Seq<char>>), l: Seq<char>) -> (
    Seq<char>,
    Option<Seq<char>>,
) {
    let w = words(l);
    if w.len() >= 2 && w[0] == "layout:"@ {
        (w[1], st.1)
    } else if w.len() >= 2 && w[0] == "variant:"@ {
        (st.0, Some(w[1]))
    } else {
        st
    }
}

/// The layout code and variant that the lines `ls` of `setxkbmap -query`
/// give; the code is `us` when none does.
pub open spec fn setxkbmap_scan(ls: Seq<Seq<char>>) -> (Seq<char>, Option<Seq<char>>)
    decreases ls.len(),
{
    if ls.len() == 0 {
        ("us"@, None)
    } else {
        setxkbmap_line(setxkbmap_scan(ls.drop_last()), ls.last())
    }
}

/// The layout with this code and variant, and its display name.
pub open spec fn layout_of(st: (Seq<char>, Option<Seq<char>>)) -> LayoutView {
    LayoutView { code: st.0, name: layout_name(st.0, st.1), variant: st.1 }
}

/// The repeat delay and rate after reading the words of an `xset q` line
/// up to position `i`: the word after `delay:` and after `rate:`, 500 and
/// 25 where those do not parse.
pub open spec fn xset_words(w: Seq<Seq<char>>, i: int) -> (u32, u32)
    decreases i,
{
    if i <= 0 || i > w.len() {
        (500, 25)
    } else {
        let prev = xset_words(w, i - 1);
        let k = i - 1;
        let d = if w[k] == "delay:"@ && k + 1 < w.len() {
            match parse_unsigned(w[k + 1], 10, u32::MAX as nat) {
                Some(v) => v as u32,
                None => 500,
            }
        } else {
            prev.0
        };
        let r = if w[k] == "rate:"@ && k + 1 < w.len() {
            match parse_unsigned(w[k + 1], 10, u32::MAX as nat) {
                Some(v) => v as u32,
                None => 25,
            }
        } else {
            prev.1
        };
        (d, r)
    }
}

/// The repeat settings of the first line of `xset q` that mentions the
/// auto repeat delay, if there is one.
pub open spec fn xset_settings(ls: Seq<Seq<char>>) -> Option<KeyRepeatSettings>
    decreases ls.len(),
{
    if ls.len() == 0 {
        None
    } else if contains(ls[0], "auto repeat delay:"@) {
        let w = words(ls[0]);
        let s = xset_words(w, w.len() as int);
        Some(KeyRepeatSettings { delay: s.0, rate: s.1 })
    } else {
        xset_settings(ls.drop_first())
    }
}

/// The non-empty lines of `ls`, in order.
pub open spec fn nonempty_lines(ls: Seq<Seq<char>>) -> Seq<Seq<char>>
    decreases ls.len(),
{
    if ls.len() == 0 {
        ls
    } else if ls.last().len() > 0 {
        nonempty_lines(ls.drop_last()).push(ls.last())
    } else {
        nonempty_lines(ls.drop_last())
    }
}

/// The views of a sequence of layouts.
pub open spec fn layout_views(v: Seq<KeyboardLayout>) -> Seq<LayoutView> {
    v.map_values(|l: KeyboardLayout| l@)
}

/// The text after the first colon of `t`, trimmed; `t` holds a colon.
fn after_colon(t: &[char]) -> (r: Vec<char>)
    requires
        split(t@, ':').len() >= 2,
    ensures
        r@ == trim(split(t@, ':')[1]),
{
    let p = split_on(t, ':');
    assert(views(p@)[1] == p@[1]@);
    trimmed(p[1].as_slice())
}

fn layout_from(code: Vec<char>, variant: Option<Vec<char>>) -> (r: KeyboardLayout)
    ensures
        r@ == layout_of(
            (
                code@,
                match variant {
                    Some(v) => Some(v@),
                    None => None,
                },
            ),
        ),
{
    let name = match &variant {
        Some(v) => layout_name_of(code.as_slice(), Some(v.as_slice())),
        None => layout_name_of(code.as_slice(), None),
    };
    KeyboardLayout {
        code: string_of(code.as_slice()),
        name,
        variant: match variant {
            Some(v) => Some(string_of(v.as_slice())),
            None => None,
        },
    }
}

impl KeyboardBackend {
    /// Create a new keyboard backend
    pub fn new() -> (r: Self) {
        Self
    }

    /// The keyboard settings with this layout and repeat settings.
    pub fn get_settings(&self, layout: KeyboardLayout, repeat: KeyRepeatSettings) -> (r:
        KeyboardSettings)
        ensures
            r.layout@ == layout@,
            r.repeat == repeat,
            r.caps_lock_indicator,
            !r.num_lock_on_startup,
    {
        KeyboardSettings { layout, repeat, caps_lock_indicator: true, num_lock_on_startup: false }
    }

    /// The current layout: from `localectl status` when it succeeded, else
    /// from `setxkbmap -query` when that succeeded, else US English.
    pub fn get_current_layout(localectl: Option<&str>, setxkbmap: Option<&str>) -> (r:
        KeyboardLayout)
        ensures
            r@ == (match localectl {
                Some(o) => layout_of(localectl_scan(lines(o@))),
                None => match setxkbmap {
                    Some(o) => layout_of(setxkbmap_scan(lines(o@))),
                    None => LayoutView { code: "us"@, name: "English (US)"@, variant: None },
                },
            }),
    {
        match localectl {
            Some(o) => Self::parse_localectl_output(o),
            None => match setxkbmap {
                Some(o) => Self::parse_setxkbmap_output(o),
                None => KeyboardLayout {
                    code: string_from("us"),
                    name: string_from("English (US)"),
                    variant: None,
                },
            },
        }
    }

    /// The layout that the output of `localectl status` gives.
    pub fn parse_localectl_output(output: &str) -> (r: KeyboardLayout)
        ensures
            r@ == layout_of(localectl_scan(lines(output@))),
    {
        let ls = lines_of(chars_of(output).as_slice());
        let mut code = chars_of("us");
        let mut variant: Option<Vec<char>> = None;
        let mut i: usize = 0;
        assert(views(ls@).take(0) =~= Seq::<Seq<char>>::empty());
        while i < ls.len()
            invariant
                i <= ls@.len(),
                views(ls@) == lines(output@),
                localectl_scan(views(ls@).take(i as int)) == (
                    code@,
                    match variant {
                        Some(v) => Some(v@),
                        None => None,
                    },
                ),
            decreases ls@.len() - i,
        {
            assert(views(ls@).take(i + 1).drop_last() =~= views(ls@).take(i as int));
            assert(views(ls@)[i as int] == ls@[i as int]@);
            let t = trimmed(ls[i].as_slice());
            let t = t.as_slice();
            proof {
                reveal_strlit("X11 Layout:");
                reveal_strlit("VC Keymap:");
                reveal_strlit("X11 Variant:");
            }
            if starts_with_str(t, "X11 Layout:") || starts_with_str(t, "VC Keymap:") {
                proof {
                    if starts_with(t@, "X11 Layout:"@) {
                        assert(t@[10] == "X11 Layout:"@[10]);
                        lemma_split_at_sep(t@, ':', 10);
                    } else {
                        assert(t@[9] == "VC Keymap:"@[9]);
                        lemma_split_at_sep(t@, ':', 9);
                    }
                }
                code = after_colon(t);
            }
            if starts_with_str(t, "X11 Variant:") {
                proof {
                    assert(t@[11] == "X11 Variant:"@[11]);
                    lemma_split_at_sep(t@, ':', 11);
                }
                let v = after_colon(t);
                if v.len() > 0 {
                    variant = Some(v);
                }
            }
            i = i + 1;
        }
        assert(views(ls@).take(i as int) =~= views(ls@));
        layout_from(code, variant)
    }

    /// The layout that the output of `setxkbmap -query` gives.
    pub fn parse_setxkbmap_output(output: &str) -> (r: KeyboardLayout)
        ensures
            r@ == layout_of(setxkbmap_scan(lines(output@))),
    {
        let ls = lines_of(chars_of(output).as_slice());
        let mut code = chars_of("us");
        let mut variant: Option<Vec<char>> = None;
        let mut i: usize = 0;
        assert(views(ls@).take(0) =~= Seq::<Seq<char>>::empty());
        while i < ls.len()
            invariant
                i <= ls@.len(),
                views(ls@) == lines(output@),
                setxkbmap_scan(views(ls@).take(i as int)) == (
                    code@,
                    match variant {
                        Some(v) => Some(v@),
                        None => None,
                    },
                ),
            decreases ls@.len() - i,
        {
            assert(views(ls@).take(i + 1).drop_last() =~= views(ls@).take(i as int));
            assert(views(ls@)[i as int] == ls@[i as int]@);
            let w = split_ws(ls[i].as_slice());
            if w.len() >= 2 {
                assert(views(w@)[0] == w@[0]@);
                assert(views(w@)[1] == w@[1]@);
                if eq_str(w[0].as_slice(), "layout:") {
                    code = w[1].clone();
                } else if eq_str(w[0].as_slice(), "variant:") {
                    variant = Some(w[1].clone());
                }
            }
            i = i + 1;
        }
        assert(views(ls@).take(i as int) =~= views(ls@));
        layout_from(code, variant)
    }

    /// The display name of a layout and its variant.
    pub fn layout_code_to_name(code: &str, variant: Option<&str>) -> (r: String)
        ensures
            r@ == layout_name(
                code@,
                match variant {
                    Some(v) => Some(v@),
                    None => None,
                },
            ),
    {
        let c = chars_of(code);
        match variant {
            Some(v) => {
                let vc = chars_of(v);
                layout_name_of(c.as_slice(), Some(vc.as_slice()))
            },
            None => layout_name_of(c.as_slice(), None),
        }
    }

    /// The repeat settings that the output of `xset q` gives, or the
    /// defaults when there is none.
    pub fn get_repeat_settings(xset: Option<&str>) -> (r: KeyRepeatSettings)
        ensures
            r == (match xset {
                Some(o) => match xset_settings(lines(o@)) {
                    Some(s) => s,
                    None => KeyRepeatSettings { delay: 500, rate: 25 },
                },
                None => KeyRepeatSettings { delay: 500, rate: 25 },
            }),
    {
        match xset {
            Some(o) => match Self::parse_xset_output(o) {
                Some(s) => s,
                None => KeyRepeatSettings::default(),
            },
            None => KeyRepeatSettings::default(),
        }
    }

    /// The repeat settings of the first line of `xset q` that mentions the
    /// auto repeat delay.
    pub fn parse_xset_output(output: &str) -> (r: Option<KeyRepeatSettings>)
        ensures
            r == xset_settings(lines(output@)),
    {
        let ls = lines_of(chars_of(output).as_slice());
        let mut i: usize = 0;
        assert(views(ls@).skip(0) =~= views(ls@));
        while i < ls.len()
            invariant
                i <= ls@.len(),
                views(ls@) == lines(output@),
                xset_settings(lines(output@)) == xset_settings(views(ls@).skip(i as int)),
            decreases ls@.len() - i,
        {
            assert(views(ls@).skip(i as int)[0] == ls@[i as int]@);
            assert(views(ls@).skip(i as int).drop_first() =~= views(ls@).skip(i + 1));
            let line = ls[i].as_slice();
            if contains_str(line, "auto repeat delay:") {
                let parts = split_ws(line);
                let ghost w = views(parts@);
                let mut delay: u32 = 500;
                let mut rate: u32 = 25;
                let mut k: usize = 0;
                while k < parts.len()
                    invariant
                        k <= parts@.len(),
                        w == views(parts@),
                        xset_words(w, k as int) == (delay, rate),
                    decreases parts@.len() - k,
                {
                    assert(w[k as int] == parts@[k as int]@);
                    let part = parts[k].as_slice();
                    let is_delay = eq_str(part, "delay:");
                    let is_rate = eq_str(part, "rate:");
                    if is_delay && k + 1 < parts.len() {
                        assert(w[k + 1] == parts@[k + 1]@);
                        delay = match parse_uint(parts[k + 1].as_slice(), 10, 0xffff_ffff) {
                            Some(v) => v as u32,
                            None => 500,
                        };
                    }
                    if is_rate && k + 1 < parts.len() {
                        assert(w[k + 1] == parts@[k + 1]@);
                        rate = match parse_uint(parts[k + 1].as_slice(), 10, 0xffff_ffff) {
                            Some(v) => v as u32,
                            None => 25,
                        };
                    }
                    k = k + 1;
                }
                return Some(KeyRepeatSettings { delay, rate });
            }
            i = i + 1;
        }
        None
    }

    /// The layouts that `localectl list-x11-keymap-layouts` lists, one per
    /// non-empty line, when it succeeded.
    pub fn list_layouts(output: Option<&str>) -> (r: Vec<KeyboardLayout>)
        ensures
            layout_views(r@) == (match output {
                Some(o) => nonempty_lines(lines(o@)).map_values(
                    |c: Seq<char>| layout_of((c, None)),
                ),
                None => Seq::<LayoutView>::empty(),
            }),
    {
        let mut r: Vec<KeyboardLayout> = Vec::new();
        assert(layout_views(r@) =~= Seq::<LayoutView>::empty());
        if let Some(o) = output {
            let ls = lines_of(chars_of(o).as_slice());
            let mut i: usize = 0;
            assert(views(ls@).take(0) =~= Seq::<Seq<char>>::empty());
            while i < ls.len()
                invariant
                    i <= ls@.len(),
                    views(ls@) == lines(o@),
                    layout_views(r@) == nonempty_lines(views(ls@).take(i as int)).map_values(
                        |c: Seq<char>| layout_of((c, None)),
                    ),
                decreases ls@.len() - i,
            {
                assert(views(ls@).take(i + 1).drop_last() =~= views(ls@).take(i as int));
                assert(views(ls@)[i as int] == ls@[i as int]@);
                if ls[i].len() > 0 {
                    let ghost before = r@;
                    let l = layout_from(ls[i].clone(), None);
                    r.push(l);
                    assert(layout_views(r@) =~= layout_views(before).push(l@));
                    assert(nonempty_lines(views(ls@).take(i + 1)).map_values(
                        |c: Seq<char>| layout_of((c, None)),
                    ) =~= nonempty_lines(views(ls@).take(i as int)).map_values(
                        |c: Seq<char>| layout_of((c, None)),
                    ).push(layout_of((ls@[i as int]@, None))));
                }
                i = i + 1;
            }
            assert(views(ls@).take(i as int) =~= views(ls@));
        }
        r
    }

    /// The variants that `localectl list-x11-keymap-variants` lists, one per
    /// non-empty line, when it succeeded.
    pub fn list_variants(output: Option<&str>) -> (r: Vec<String>)
        ensures
            string_views(r@) == (match output {
                Some(o) => nonempty_lines(lines(o@)),
                None => Seq::<Seq<char>>::empty(),
            }),
    {
        let mut r: Vec<String> = Vec::new();
        assert(string_views(r@) =~= Seq::<Seq<char>>::empty());
        if let Some(o) = output {
            let ls = lines_of(chars_of(o).as_slice());
            let mut i: usize = 0;
            assert(views(ls@).take(0) =~= Seq::<Seq<char>>::empty());
            while i < ls.len()
                invariant
                    i <= ls@.len(),
                    views(ls@) == lines(o@),
                    string_views(r@) == nonempty_lines(views(ls@).take(i as int)),
                decreases ls@.len() - i,
            {
                assert(views(ls@).take(i + 1).drop_last() =~= views(ls@).take(i as int));
                assert(views(ls@)[i as int] == ls@[i as int]@);
                if ls[i].len() > 0 {
                    let ghost before = r@;
                    let s = string_of(ls[i].as_slice());
                    r.push(s);
                    assert(string_views(r@) =~= string_views(before).push(s@));
                }
                i = i + 1;
            }
            assert(views(ls@).take(i as int) =~= views(ls@));
        }
        r
    }

    /// The arguments of `localectl` that set a layout and its variant.
    pub fn localectl_layout_args(code: &str, variant: Option<&str>) -> (r: Vec<String>)
        ensures
            string_views(r@) == (match variant {
                Some(v) => seq!["set-x11-keymap"@, code@, v@],
                None => seq!["set-x11-keymap"@, code@],
            }),
    {
        let mut r: Vec<String> = Vec::new();
        r.push(string_from("set-x11-keymap"));
        r.push(string_from(code));
        if let Some(v) = variant {
            r.push(string_from(v));
        }
        assert(string_views(r@) =~= (match variant {
            Some(v) => seq!["set-x11-keymap"@, code@, v@],
            None => seq!["set-x11-keymap"@, code@],
        }));
        r
    }

    /// The arguments of `setxkbmap` that set a layout and its variant for
    /// the session.
    pub fn setxkbmap_layout_args(code: &str, variant: Option<&str>) -> (r: Vec<String>)
        ensures
            string_views(r@) == (match variant {
                Some(v) => seq!["-layout"@, code@, "-variant"@, v@],
                None => seq!["-layout"@, code@],
            }),
    {
        let mut r: Vec<String> = Vec::new();
        r.push(string_from("-layout"));
        r.push(string_from(code));
        if let Some(v) = variant {
            r.push(string_from("-variant"));
            r.push(string_from(v));
        }
        assert(string_views(r@) =~= (match variant {
            Some(v) => seq!["-layout"@, code@, "-variant"@, v@],
            None => seq!["-layout"@, code@],
        }));
        r
    }
}

} // verus!
