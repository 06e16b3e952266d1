use vstd::prelude::*;

use crate::config::{Config, OsdConfig};
use crate::events::OsdEvent;
use crate::text::{
    chars_of, fold_case, is_white_space, lemma_same_but_case_colour_text, lemma_trimmed_ends,
    same_but_case, strip_leading, strip_leading_from, trim, trim_bounds, trim_end, trim_start,
};

verus! {

/// What the drawing area paints: a bare lock panel, or a bar filled to a level.
#[derive(Clone, Copy, Debug, PartialEq, Eq, Structural)]
pub enum DrawMode {
    Lock,
    Value { level: u8 },
}

/// The drawing state shared with the paint callbacks. A bar level is never
/// above 100.
#[derive(Clone, Copy, Debug)]
pub struct DrawState {
    mode: DrawMode,
}

impl View for DrawState {
    type V = DrawMode;

    closed spec fn view(&self) -> DrawMode {
        self.mode
    }
}

impl DrawState {
    #[verifier::type_invariant]
    closed spec fn level_in_range(self) -> bool {
        self.mode matches DrawMode::Value { level } ==> level <= 100
    }

    /// An empty bar.
    pub fn new() -> (state: DrawState)
        ensures
            state@ == (DrawMode::Value { level: 0 }),
    {
        DrawState { mode: DrawMode::Value { level: 0 } }
    }

    /// What to paint; a bar level is at most 100.
    pub fn mode(&self) -> (mode: DrawMode)
        ensures
            mode == self@,
            mode matches DrawMode::Value { level } ==> level <= 100,
    {
        proof {
            use_type_invariant(self);
        }
        self.mode
    }

    /// Paint the lock panel.
    pub fn set_lock(&mut self)
        ensures
            final(self)@ == DrawMode::Lock,
    {
        self.mode = DrawMode::Lock;
    }

    /// Paint a bar filled to `level`, capped at 100.
    pub fn set_level(&mut self, level: u8)
        ensures
            final(self)@ == (DrawMode::Value { level: if level <= 100 { level } else { 100 } }),
    {
        let capped = if level <= 100 {
            level
        } else {
            100
        };
        self.mode = DrawMode::Value { level: capped };
    }

    /// Paint what an event shows: a bar for volume and brightness, the lock
    /// panel for lock keys.
    pub fn show_event(&mut self, event: &OsdEvent)
        ensures
            final(self)@ == draw_mode_for(*event),
    {
        match event {
            OsdEvent::Volume { level, .. } => self.set_level(*level),
            OsdEvent::Brightness { level } => self.set_level(*level),
            OsdEvent::CapsLock { .. } => self.set_lock(),
            OsdEvent::NumLock { .. } => self.set_lock(),
        }
    }
}

/// What the drawing area paints for an event.
pub open spec fn draw_mode_for(event: OsdEvent) -> DrawMode {
    match event {
        OsdEvent::Volume { level, .. } => DrawMode::Value {
            level: if level <= 100 { level } else { 100 },
        },
        OsdEvent::Brightness { level } => DrawMode::Value {
            level: if level <= 100 { level } else { 100 },
        },
        _ => DrawMode::Lock,
    }
}

/// The window shape: a wide bar window or a square lock window.
#[derive(Clone, Copy, Debug, PartialEq, Eq, Structural)]
pub enum LayoutKind {
    Lock,
    Value,
}

/// The icons the display uses.
#[derive(Clone, Copy, Debug, PartialEq, Eq, Structural)]
pub enum Icon {
    VolumeMuted,
    VolumeLow,
    VolumeMedium,
    VolumeHigh,
    Brightness,
    CapsLock,
    Keyboard,
}

/// How an event is presented: window shape, icon, and whether the icon is dimmed.
#[derive(Clone, Copy, Debug, PartialEq, Eq, Structural)]
pub struct Presentation {
    pub layout: LayoutKind,
    pub icon: Icon,
    pub dimmed: bool,
}

/// The volume icon: muted for a muted sink or level 0, then low below 35,
/// medium below 70, high from 70.
pub open spec fn volume_icon(level: u8, muted: bool) -> Icon {
    if muted || level == 0 {
        Icon::VolumeMuted
    } else if level < 35 {
        Icon::VolumeLow
    } else if level < 70 {
        Icon::VolumeMedium
    } else {
        Icon::VolumeHigh
    }
}

/// How an event is presented. A muted volume or level 0 dims the icon, and so
/// does a lock key that is off.
pub open spec fn presentation_for(event: OsdEvent) -> Presentation {
    match event {
        OsdEvent::Volume { level, muted } => Presentation {
            layout: LayoutKind::Value,
            icon: volume_icon(level, muted),
            dimmed: muted || level == 0,
        },
        OsdEvent::Brightness { .. } => Presentation {
            layout: LayoutKind::Value,
            icon: Icon::Brightness,
            dimmed: false,
        },
        OsdEvent::CapsLock { on } => Presentation {
            layout: LayoutKind::Lock,
            icon: Icon::CapsLock,
            dimmed: !on,
        },
        OsdEvent::NumLock { on } => Presentation {
            layout: LayoutKind::Lock,
            icon: Icon::Keyboard,
            dimmed: !on,
        },
    }
}

/// A volume icon is dimmed exactly when the sink is muted or at level 0, and
/// exactly when its icon is the muted one; a muted volume is dimmed at every
/// level. Brightness is never dimmed; a lock key is dimmed exactly when off.
pub proof fn lemma_dimmed_follows_mute(level: u8, muted: bool, on: bool)
    ensures
        presentation_for(OsdEvent::Volume { level, muted }).dimmed == (muted || level == 0),
        presentation_for(OsdEvent::Volume { level, muted }).dimmed == (presentation_for(
            OsdEvent::Volume { level, muted },
        ).icon == Icon::VolumeMuted),
        presentation_for(OsdEvent::Volume { level, muted: true }).dimmed,
        !presentation_for(OsdEvent::Brightness { level }).dimmed,
        presentation_for(OsdEvent::CapsLock { on }).dimmed == !on,
        presentation_for(OsdEvent::NumLock { on }).dimmed == !on,
{
}

/// Volume and brightness use the bar window and lock keys the square one;
/// brightness, caps lock and num lock have their own icons; an unmuted volume
/// above 0 gets the low icon below 35, the medium one from 35 below 70, and
/// the high one from 70.
pub proof fn lemma_presentation_shape_and_icons(level: u8, muted: bool, on: bool)
    ensures
        presentation_for(OsdEvent::Volume { level, muted }).layout == LayoutKind::Value,
        presentation_for(OsdEvent::Brightness { level }).layout == LayoutKind::Value,
        presentation_for(OsdEvent::CapsLock { on }).layout == LayoutKind::Lock,
        presentation_for(OsdEvent::NumLock { on }).layout == LayoutKind::Lock,
        presentation_for(OsdEvent::Brightness { level }).icon == Icon::Brightness,
        presentation_for(OsdEvent::CapsLock { on }).icon == Icon::CapsLock,
        presentation_for(OsdEvent::NumLock { on }).icon == Icon::Keyboard,
        !muted && level > 0 ==> (presentation_for(OsdEvent::Volume { level, muted }).icon
            == Icon::VolumeLow <==> level < 35),
        !muted && level > 0 ==> (presentation_for(OsdEvent::Volume { level, muted }).icon
            == Icon::VolumeMedium <==> 35 <= level < 70),
        !muted && level > 0 ==> (presentation_for(OsdEvent::Volume { level, muted }).icon
            == Icon::VolumeHigh <==> level >= 70),
{
}

/// A volume event fills the bar to its level, capped at 100, exactly as a
/// brightness event of that level does, and whatever the mute state; only
/// lock keys paint the lock panel.
pub proof fn lemma_bar_follows_level(level: u8, muted: bool, event: OsdEvent)
    ensures
        draw_mode_for(OsdEvent::Volume { level, muted }) == (DrawMode::Value {
            level: if level <= 100 { level } else { 100 },
        }),
        draw_mode_for(OsdEvent::Volume { level, muted }) == draw_mode_for(
            OsdEvent::Brightness { level },
        ),
        (draw_mode_for(event) == DrawMode::Lock) <==> (event is CapsLock || event is NumLock),
        draw_mode_for(event) matches DrawMode::Value { level: l } ==> l <= 100,
{
}

/// How to present an event.
pub fn present(event: &OsdEvent) -> (p: Presentation)
    ensures
        p == presentation_for(*event),
{
    match event {
        OsdEvent::Volume { level, muted } => {
            let icon = if *muted || *level == 0 {
                Icon::VolumeMuted
            } else if *level < 35 {
                Icon::VolumeLow
            } else if *level < 70 {
                Icon::VolumeMedium
            } else {
                Icon::VolumeHigh
            };
            Presentation { layout: LayoutKind::Value, icon, dimmed: *muted || *level == 0 }
        },
        OsdEvent::Brightness { .. } => Presentation {
            layout: LayoutKind::Value,
            icon: Icon::Brightness,
            dimmed: false,
        },
        OsdEvent::CapsLock { on } => Presentation {
            layout: LayoutKind::Lock,
            icon: Icon::CapsLock,
            dimmed: !*on,
        },
        OsdEvent::NumLock { on } => Presentation {
            layout: LayoutKind::Lock,
            icon: Icon::Keyboard,
            dimmed: !*on,
        },
    }
}

/// The icon theme name of an icon.
pub open spec fn icon_name_spec(icon: Icon) -> Seq<char> {
    match icon {
        Icon::VolumeMuted => "audio-volume-muted-symbolic"@,
        Icon::VolumeLow => "audio-volume-low-symbolic"@,
        Icon::VolumeMedium => "audio-volume-medium-symbolic"@,
        Icon::VolumeHigh => "audio-volume-high-symbolic"@,
        Icon::Brightness => "display-brightness-symbolic"@,
        Icon::CapsLock => "caps-lock-symbolic"@,
        Icon::Keyboard => "input-keyboard-symbolic"@,
    }
}

/// The icon theme name of an icon.
pub fn icon_name(icon: Icon) -> (name: &'static str)
    ensures
        name@ == icon_name_spec(icon),
{
    match icon {
        Icon::VolumeMuted => "audio-volume-muted-symbolic",
        Icon::VolumeLow => "audio-volume-low-symbolic",
        Icon::VolumeMedium => "audio-volume-medium-symbolic",
        Icon::VolumeHigh => "audio-volume-high-symbolic",
        Icon::Brightness => "display-brightness-symbolic",
        Icon::CapsLock => "caps-lock-symbolic",
        Icon::Keyboard => "input-keyboard-symbolic",
    }
}

/// The icon to use instead when the theme lacks one: some icon themes ship no
/// caps lock symbol, and the keyboard stands in for it.
pub fn icon_fallback(icon: Icon) -> (fallback: Option<Icon>)
    ensures
        fallback == (if icon == Icon::CapsLock {
            Some(Icon::Keyboard)
        } else {
            None::<Icon>
        }),
{
    match icon {
        Icon::CapsLock => Some(Icon::Keyboard),
        _ => None,
    }
}

/// The window size for a layout: the configured bar window, or a square of
/// the lock size.
pub fn layout_size(osd: &OsdConfig, kind: LayoutKind) -> (size: (i32, i32))
    ensures
        size == (match kind {
            LayoutKind::Value => (osd.width, osd.height),
            LayoutKind::Lock => (osd.lock_size, osd.lock_size),
        }),
{
    match kind {
        LayoutKind::Value => (osd.width, osd.height),
        LayoutKind::Lock => (osd.lock_size, osd.lock_size),
    }
}

/// Whether the bar is visible in a layout: only in the bar window.
pub fn bar_visible(kind: LayoutKind) -> (visible: bool)
    ensures
        visible == (kind == LayoutKind::Value),
{
    match kind {
        LayoutKind::Value => true,
        LayoutKind::Lock => false,
    }
}

/// The left margin that centres a window on a monitor. The window is anchored
/// to the left edge, so the margin is half of the free width, and 0 when the
/// window is wider than the monitor.
pub fn centered_margin(monitor_width: i32, width: i32) -> (margin: i32)
    requires
        i32::MIN <= monitor_width - width <= i32::MAX,
    ensures
        margin == (if monitor_width - width > 0 {
            (monitor_width - width) / 2
        } else {
            0
        }),
{
    let free = monitor_width - width;
    let free = if free > 0 {
        free
    } else {
        0
    };
    free / 2
}

/// The width the bar gets: the window width less the padding on both sides,
/// the icon and the gap after it, and never below 80.
pub open spec fn bar_width_spec(config: Config) -> int {
    let w = config.osd.width - config.theme.padding * 2 - config.theme.icon_size - 18;
    if w >= 80 {
        w
    } else {
        80
    }
}

/// Whether every step of the bar width arithmetic stays within 32 bits.
pub open spec fn bar_width_fits(config: Config) -> bool {
    let p2 = config.theme.padding * 2;
    let a = config.osd.width - p2;
    let b = a - config.theme.icon_size;
    &&& i32::MIN <= p2 <= i32::MAX
    &&& i32::MIN <= a <= i32::MAX
    &&& i32::MIN <= b <= i32::MAX
    &&& i32::MIN <= b - 18 <= i32::MAX
}

/// Whether the bar width can be computed in 32 bits.
pub fn bar_width_in_range(config: &Config) -> (fits: bool)
    ensures
        fits == bar_width_fits(*config),
{
    let p2 = (config.theme.padding as i64) * 2;
    let a = (config.osd.width as i64) - p2;
    let b = a - (config.theme.icon_size as i64);
    let lo = i32::MIN as i64;
    let hi = i32::MAX as i64;
    lo <= p2 && p2 <= hi && lo <= a && a <= hi && lo <= b && b <= hi && lo <= b - 18 && b - 18
        <= hi
}

/// The bar is never narrower than 80; above that it is the window width less
/// both paddings, the icon and the 18-pixel gap, so a wider window gives a
/// bar at least as wide.
pub proof fn lemma_bar_width_floor(config: Config, wider: Config)
    ensures
        bar_width_spec(config) >= 80,
        bar_width_spec(config) > 80 ==> bar_width_spec(config) == config.osd.width
            - config.theme.padding * 2 - config.theme.icon_size - 18,
        wider.theme.padding == config.theme.padding && wider.theme.icon_size
            == config.theme.icon_size && wider.osd.width >= config.osd.width ==> bar_width_spec(
            wider,
        ) >= bar_width_spec(config),
{
}

/// The width of the bar area.
pub fn bar_width(config: &Config) -> (width: i32)
    requires
        bar_width_fits(*config),
    ensures
        width == bar_width_spec(*config),
{
    let w = config.osd.width - config.theme.padding * 2 - config.theme.icon_size - 18;
    if w >= 80 {
        w
    } else {
        80
    }
}

/// The height of the bar: the configured height, at least 1.
pub fn bar_height(osd: &OsdConfig) -> (height: i32)
    ensures
        height == (if osd.bar_height >= 1 {
            osd.bar_height
        } else {
            1
        }),
{
    if osd.bar_height >= 1 {
        osd.bar_height
    } else {
        1
    }
}

/// Whether a byte is an ASCII hexadecimal digit.
pub open spec fn is_hex_byte(b: u8) -> bool {
    (0x30 <= b <= 0x39) || (0x61 <= b <= 0x66) || (0x41 <= b <= 0x46)
}

/// The value of a hexadecimal digit byte.
pub open spec fn hex_byte_value(b: u8) -> int {
    if 0x30 <= b <= 0x39 {
        b - 0x30
    } else if 0x61 <= b <= 0x66 {
        b - 0x61 + 10
    } else {
        b - 0x41 + 10
    }
}

/// What `u8::from_str_radix(_, 16)` gives for a two-byte text: two hex
/// digits, or `+` and one hex digit.
pub open spec fn hex_pair(b0: u8, b1: u8) -> Option<u8> {
    if b0 == 0x2b {
        if is_hex_byte(b1) {
            Some(hex_byte_value(b1) as u8)
        } else {
            None
        }
    } else if is_hex_byte(b0) && is_hex_byte(b1) {
        Some((hex_byte_value(b0) * 16 + hex_byte_value(b1)) as u8)
    } else {
        None
    }
}

/// The channel written by the `k`-th pair of bytes.
pub open spec fn pair_at(b: Seq<u8>, k: int) -> Option<u8> {
    hex_pair(b[2 * k], b[2 * k + 1])
}

/// The text a colour is read from: trimmed, with leading `#`s removed.
pub open spec fn colour_text(value: Seq<char>) -> Seq<char> {
    strip_leading(trim(value), '#')
}

/// The channels of a colour written as `rrggbb` or `rrggbbaa` in UTF-8 bytes;
/// opaque when no alpha is given.
pub open spec fn rgba_from_bytes(b: Seq<u8>) -> Option<(u8, u8, u8, u8)> {
    if b.len() == 6 {
        match (pair_at(b, 0), pair_at(b, 1), pair_at(b, 2)) {
            (Some(r), Some(g), Some(bl)) => Some((r, g, bl, 255u8)),
            _ => None,
        }
    } else if b.len() == 8 {
        match (pair_at(b, 0), pair_at(b, 1), pair_at(b, 2), pair_at(b, 3)) {
            (Some(r), Some(g), Some(bl), Some(a)) => Some((r, g, bl, a)),
            _ => None,
        }
    } else {
        None
    }
}

/// Whether slicing the colour text into byte pairs would cut a character:
/// the pairs are read in order, and a pair is only sliced when the ones before
/// it were read.
pub open spec fn colour_slicing_cuts_char(b: Seq<u8>) -> bool {
    &&& (b.len() == 6 || b.len() == 8)
    &&& exists|k: int|
        0 <= k && 2 * k + 2 < b.len() && (forall|j: int| 0 <= j < k ==> #[trigger] pair_at(b, j)
            is Some) && vstd::utf8::is_continuation_byte(#[trigger] b[2 * k + 2])
}

/// The red, green, blue and alpha channels of a theme colour such as
/// `#181818cc`. Text whose byte pairs would cut a character is left out.
pub fn rgba_channels(value: &str) -> (channels: Option<(u8, u8, u8, u8)>)
    requires
        !colour_slicing_cuts_char(vstd::utf8::encode_utf8(colour_text(value@))),
    ensures
        channels == rgba_from_bytes(vstd::utf8::encode_utf8(colour_text(value@))),
{
    let chars = chars_of(value);
    let (a, b) = trim_bounds(chars.as_slice());
    let start = strip_leading_from(chars.as_slice(), a, b, '#');
    let text = value.substring_char(start, b);
    assert(text@ == colour_text(value@));
    let bytes = text.as_bytes();
    let n = bytes.len();
    if n != 6 && n != 8 {
        return None;
    }
    let r = match hex_pair_exec(bytes[0], bytes[1]) {
        Some(v) => v,
        None => return None,
    };
    let g = match hex_pair_exec(bytes[2], bytes[3]) {
        Some(v) => v,
        None => return None,
    };
    let bl = match hex_pair_exec(bytes[4], bytes[5]) {
        Some(v) => v,
        None => return None,
    };
    if n == 6 {
        return Some((r, g, bl, 255));
    }
    let al = match hex_pair_exec(bytes[6], bytes[7]) {
        Some(v) => v,
        None => return None,
    };
    Some((r, g, bl, al))
}

/// Whether reading a theme colour would cut a character when it slices the
/// text into byte pairs; `rgba_channels` leaves such text out.
pub fn colour_cuts_char(value: &str) -> (cuts: bool)
    ensures
        cuts == colour_slicing_cuts_char(vstd::utf8::encode_utf8(colour_text(value@))),
{
    let chars = chars_of(value);
    let (a, b) = trim_bounds(chars.as_slice());
    let start = strip_leading_from(chars.as_slice(), a, b, '#');
    let text = value.substring_char(start, b);
    let bytes = text.as_bytes();
    let ghost bs = bytes@;
    assert(bs == vstd::utf8::encode_utf8(colour_text(value@)));
    let n = bytes.len();
    if n != 6 && n != 8 {
        return false;
    }
    let pairs = n / 2;
    let mut k: usize = 0;
    while k < pairs
        invariant
            n == bs.len(),
            bs == bytes@,
            bs == vstd::utf8::encode_utf8(colour_text(value@)),
            n == 6 || n == 8,
            pairs == n / 2,
            k <= pairs,
            forall|j: int| 0 <= j < k ==> #[trigger] pair_at(bs, j) is Some,
            forall|j: int|
                0 <= j < k && 2 * j + 2 < n ==> !vstd::utf8::is_continuation_byte(
                    #[trigger] bs[2 * j + 2],
                ),
        decreases pairs - k,
    {
        if 2 * k + 2 < n && 0x80 <= bytes[2 * k + 2] && bytes[2 * k + 2] <= 0xbf {
            assert(vstd::utf8::is_continuation_byte(bs[2 * k + 2]));
            assert(colour_slicing_cuts_char(bs)) by {
                let w = k as int;
                assert(0 <= w && 2 * w + 2 < bs.len() && (forall|j: int|
                    0 <= j < w ==> #[trigger] pair_at(bs, j) is Some)
                    && vstd::utf8::is_continuation_byte(bs[2 * w + 2]));
            }
            return true;
        }
        if hex_pair_exec(bytes[2 * k], bytes[2 * k + 1]).is_none() {
            assert(pair_at(bs, k as int) is None);
            assert forall|m: int|
                0 <= m && 2 * m + 2 < bs.len() && (forall|j: int|
                    0 <= j < m ==> #[trigger] pair_at(bs, j) is Some) implies
                !vstd::utf8::is_continuation_byte(#[trigger] bs[2 * m + 2]) by {
                if m > k {
                    assert(pair_at(bs, k as int) is Some);
                }
            }
            return false;
        }
        k = k + 1;
    }
    assert forall|m: int|
        0 <= m && 2 * m + 2 < bs.len() && (forall|j: int| 0 <= j < m ==> #[trigger] pair_at(bs, j) is Some)
            implies !vstd::utf8::is_continuation_byte(#[trigger] bs[2 * m + 2]) by {
        assert(m < pairs);
    }
    false
}

/// A hexadecimal digit written as a character, in lower or upper case.
pub open spec fn hex_char(d: int, upper: bool) -> char {
    if d < 10 {
        (0x30 + d) as char
    } else if upper {
        (0x41 + d - 10) as char
    } else {
        (0x61 + d - 10) as char
    }
}

/// A byte written as two hexadecimal digits, as `{:02x}` or `{:02X}` writes it.
pub open spec fn hex2(v: u8, upper: bool) -> Seq<char> {
    seq![hex_char(v as int / 16, upper), hex_char(v as int % 16, upper)]
}

/// A colour written as `#rrggbbaa` in lower case.
pub open spec fn rgba_hex_text(r: u8, g: u8, b: u8, a: u8) -> Seq<char> {
    seq!['#'] + hex2(r, false) + hex2(g, false) + hex2(b, false) + hex2(a, false)
}

/// A colour written as `RRGGBB` in upper case, without `#`.
pub open spec fn rgb_hex_text_upper(r: u8, g: u8, b: u8) -> Seq<char> {
    hex2(r, true) + hex2(g, true) + hex2(b, true)
}

proof fn lemma_hex_char(d: int, upper: bool)
    requires
        0 <= d < 16,
    ensures
        (hex_char(d, upper) as u32) < 0x80,
        (hex_char(d, upper) as u8) as u32 == hex_char(d, upper) as u32,
        is_hex_byte(hex_char(d, upper) as u8),
        hex_byte_value(hex_char(d, upper) as u8) == d,
        !is_white_space(hex_char(d, upper)),
        hex_char(d, upper) != '#',
{
    if hex_char(d, upper) == '#' {
        assert(hex_char(d, upper) as u32 == 0x23);
    }
}

/// The colour text of hex digits, with or without one leading `#`, is the digits.
proof fn lemma_colour_text_of_digits(h: Seq<char>, hash: bool)
    requires
        h.len() > 0,
        forall|i: int| 0 <= i < h.len() ==> !is_white_space(#[trigger] h[i]) && h[i] != '#',
    ensures
        colour_text(if hash { seq!['#'] + h } else { h }) == h,
{
    let t = if hash {
        seq!['#'] + h
    } else {
        h
    };
    assert(t.last() == h.last());
    assert(!is_white_space(t[0]));
    assert(trim_start(t) == t);
    assert(trim_end(t) == t);
    if hash {
        assert(t.drop_first() =~= h);
        assert(strip_leading(h, '#') == h);
    }
}

/// The bytes of hex digit text read back as the bytes it writes.
proof fn lemma_hex_pairs(vals: Seq<u8>, h: Seq<char>, upper: bool)
    requires
        h.len() == 2 * vals.len(),
        forall|k: int|
            0 <= k < vals.len() ==> h[2 * k] == hex_char((#[trigger] vals[k]) as int / 16, upper) && h[2
                * k + 1] == hex_char(vals[k] as int % 16, upper),
    ensures
        vstd::utf8::encode_utf8(h).len() == h.len(),
        forall|k: int|
            0 <= k < vals.len() ==> #[trigger] pair_at(vstd::utf8::encode_utf8(h), k) == Some(
                vals[k],
            ),
        forall|i: int|
            0 <= i < h.len() ==> !vstd::utf8::is_continuation_byte(
                #[trigger] vstd::utf8::encode_utf8(h)[i],
            ),
        forall|i: int| 0 <= i < h.len() ==> !is_white_space(#[trigger] h[i]) && h[i] != '#',
{
    assert forall|i: int| 0 <= i < h.len() implies (#[trigger] h[i] as u32) < 0x80 && (h[i] as u8)
        as u32 == h[i] as u32 && !is_white_space(h[i]) && h[i] != '#' by {
        let k = i / 2;
        assert(vals[k] == vals[k]);
        if i % 2 == 0 {
            assert(i == 2 * k);
            lemma_hex_char(vals[k] as int / 16, upper);
        } else {
            assert(i == 2 * k + 1);
            lemma_hex_char(vals[k] as int % 16, upper);
        }
    }
    assert forall|i: int| 0 <= i < h.len() implies '\0' <= #[trigger] h[i] <= '\u{7f}' by {
        lemma_ascii_char_bound(h[i]);
    }
    assert(vstd::utf8::is_ascii_chars(h));
    vstd::utf8::is_ascii_chars_encode_utf8(h);
    let bytes = vstd::utf8::encode_utf8(h);
    assert forall|k: int| 0 <= k < vals.len() implies #[trigger] pair_at(bytes, k) == Some(
        vals[k],
    ) by {
        lemma_hex_char(vals[k] as int / 16, upper);
        lemma_hex_char(vals[k] as int % 16, upper);
        assert(bytes[2 * k] == h[2 * k] as u8);
        assert(bytes[2 * k + 1] == h[2 * k + 1] as u8);
    }
    assert forall|i: int| 0 <= i < h.len() implies !vstd::utf8::is_continuation_byte(
        #[trigger] bytes[i],
    ) by {
        assert(bytes[i] == h[i] as u8);
    }
}

/// A colour written as `#rrggbbaa` reads back as its channels, and reading it
/// never cuts a character.
pub proof fn lemma_rgba_hex_round_trip(r: u8, g: u8, b: u8, a: u8)
    ensures
        rgba_from_bytes(vstd::utf8::encode_utf8(colour_text(rgba_hex_text(r, g, b, a)))) == Some(
            (r, g, b, a),
        ),
        !colour_slicing_cuts_char(vstd::utf8::encode_utf8(colour_text(rgba_hex_text(r, g, b, a)))),
{
    let h = hex2(r, false) + hex2(g, false) + hex2(b, false) + hex2(a, false);
    let vals = seq![r, g, b, a];
    assert forall|k: int| 0 <= k < vals.len() implies h[2 * k] == hex_char(
        (#[trigger] vals[k]) as int / 16,
        false,
    ) && h[2 * k + 1] == hex_char(vals[k] as int % 16, false) by {}
    lemma_hex_pairs(vals, h, false);
    assert(rgba_hex_text(r, g, b, a) =~= seq!['#'] + h);
    lemma_colour_text_of_digits(h, true);
    let bytes = vstd::utf8::encode_utf8(h);
    assert(pair_at(bytes, 0) == Some(vals[0]));
    assert(pair_at(bytes, 1) == Some(vals[1]));
    assert(pair_at(bytes, 2) == Some(vals[2]));
    assert(pair_at(bytes, 3) == Some(vals[3]));
}

/// A colour written as `RRGGBB` reads back as its channels, opaque, and
/// reading it never cuts a character.
pub proof fn lemma_rgb_hex_upper_round_trip(r: u8, g: u8, b: u8)
    ensures
        rgba_from_bytes(vstd::utf8::encode_utf8(colour_text(rgb_hex_text_upper(r, g, b)))) == Some(
            (r, g, b, 255u8),
        ),
        !colour_slicing_cuts_char(vstd::utf8::encode_utf8(colour_text(rgb_hex_text_upper(r, g, b)))),
{
    let h = rgb_hex_text_upper(r, g, b);
    let vals = seq![r, g, b];
    assert forall|k: int| 0 <= k < vals.len() implies h[2 * k] == hex_char(
        (#[trigger] vals[k]) as int / 16,
        true,
    ) && h[2 * k + 1] == hex_char(vals[k] as int % 16, true) by {}
    lemma_hex_pairs(vals, h, true);
    lemma_colour_text_of_digits(h, false);
    let bytes = vstd::utf8::encode_utf8(h);
    assert(pair_at(bytes, 0) == Some(vals[0]));
    assert(pair_at(bytes, 1) == Some(vals[1]));
    assert(pair_at(bytes, 2) == Some(vals[2]));
}

/// White space around a colour and a `#` before it do not change what it
/// reads as: for a text that `trim` leaves as it is, `"  #" + s + "\n"` reads
/// as `s` does, and cuts a character exactly when `s` does.
pub proof fn lemma_colour_ignores_padding(s: Seq<char>)
    requires
        trim(s) == s,
    ensures
        colour_text(seq![' ', ' ', '#'] + s + seq!['\n']) == colour_text(s),
        rgba_from_bytes(vstd::utf8::encode_utf8(colour_text(seq![' ', ' ', '#'] + s + seq!['\n'])))
            == rgba_from_bytes(vstd::utf8::encode_utf8(colour_text(s))),
        colour_slicing_cuts_char(vstd::utf8::encode_utf8(colour_text(seq![' ', ' ', '#'] + s + seq!['\n'])))
            == colour_slicing_cuts_char(vstd::utf8::encode_utf8(colour_text(s))),
{
    lemma_trimmed_ends(s);
    let t = seq![' ', ' ', '#'] + s + seq!['\n'];
    let hs = seq!['#'] + s;
    assert(t.drop_first().drop_first() =~= hs + seq!['\n']);
    assert(trim_start(t) == trim_start(t.drop_first()));
    assert(trim_start(t.drop_first()) == trim_start(hs + seq!['\n']));
    assert((hs + seq!['\n'])[0] == '#');
    assert(trim_start(t) == hs + seq!['\n']);
    assert((hs + seq!['\n']).drop_last() =~= hs);
    assert(trim_end(hs + seq!['\n']) == trim_end(hs));
    assert(hs.last() == if s.len() > 0 { s.last() } else { '#' });
    assert(trim_end(hs) == hs);
    assert(trim(t) == hs);
    assert(hs.drop_first() =~= s);
    assert(strip_leading(hs, '#') == strip_leading(s, '#'));
}

/// The case of letters does not change what an ASCII colour reads as: two
/// ASCII texts that differ only in the case of letters (such as a text and its
/// `to_ascii_uppercase`) give the same channels, and neither cuts a character.
pub proof fn lemma_colour_ignores_case(s: Seq<char>, t: Seq<char>)
    requires
        vstd::utf8::is_ascii_chars(s),
        same_but_case(s, t),
    ensures
        rgba_from_bytes(vstd::utf8::encode_utf8(colour_text(t))) == rgba_from_bytes(
            vstd::utf8::encode_utf8(colour_text(s)),
        ),
        !colour_slicing_cuts_char(vstd::utf8::encode_utf8(colour_text(s))),
        !colour_slicing_cuts_char(vstd::utf8::encode_utf8(colour_text(t))),
{
    lemma_same_but_case_colour_text(s, t);
    let cs = colour_text(s);
    let ct = colour_text(t);
    lemma_colour_text_ascii(s);
    assert forall|i: int| 0 <= i < ct.len() implies ('\0' <= #[trigger] ct[i] <= '\u{7f}') by {
        assert(fold_case(cs[i] as u32) == fold_case(ct[i] as u32));
        assert('\0' <= cs[i] <= '\u{7f}');
        lemma_ascii_char_bound(cs[i]);
        lemma_ascii_char_bound(ct[i]);
    }
    assert(vstd::utf8::is_ascii_chars(ct));
    vstd::utf8::is_ascii_chars_encode_utf8(cs);
    vstd::utf8::is_ascii_chars_encode_utf8(ct);
    let bs = vstd::utf8::encode_utf8(cs);
    let bt = vstd::utf8::encode_utf8(ct);
    assert forall|k: int| 0 <= 2 * k && 2 * k + 1 < bs.len() implies #[trigger] pair_at(bs, k)
        == pair_at(bt, k) by {
        assert(bs[2 * k] == cs[2 * k] as u8);
        assert(bt[2 * k] == ct[2 * k] as u8);
        assert(bs[2 * k + 1] == cs[2 * k + 1] as u8);
        assert(bt[2 * k + 1] == ct[2 * k + 1] as u8);
        assert(fold_case(cs[2 * k] as u32) == fold_case(ct[2 * k] as u32));
        assert(fold_case(cs[2 * k + 1] as u32) == fold_case(ct[2 * k + 1] as u32));
    }
    assert forall|i: int| 0 <= i < bs.len() implies !vstd::utf8::is_continuation_byte(
        #[trigger] bs[i],
    ) by {
        assert(bs[i] == cs[i] as u8);
    }
    assert forall|i: int| 0 <= i < bt.len() implies !vstd::utf8::is_continuation_byte(
        #[trigger] bt[i],
    ) by {
        assert(bt[i] == ct[i] as u8);
    }
    if bs.len() == 6 || bs.len() == 8 {
        assert(pair_at(bs, 0) == pair_at(bt, 0));
        assert(pair_at(bs, 1) == pair_at(bt, 1));
        assert(pair_at(bs, 2) == pair_at(bt, 2));
        if bs.len() == 8 {
            assert(pair_at(bs, 3) == pair_at(bt, 3));
        }
    }
}

/// A character is ASCII exactly when its scalar value is below 0x80.
proof fn lemma_ascii_char_bound(c: char)
    ensures
        ('\0' <= c <= '\u{7f}') <==> ((c as u32) < 0x80),
{
}

/// The colour text of an ASCII text is ASCII.
proof fn lemma_colour_text_ascii(s: Seq<char>)
    requires
        vstd::utf8::is_ascii_chars(s),
    ensures
        vstd::utf8::is_ascii_chars(colour_text(s)),
{
    crate::text::lemma_trim_start_suffix(s);
    crate::text::lemma_trim_end_prefix(trim_start(s));
    let ts = trim_start(s);
    assert forall|i: int| 0 <= i < ts.len() implies ('\0' <= #[trigger] ts[i] <= '\u{7f}') by {
        assert(ts[i] == s[s.len() - ts.len() + i]);
    }
    let tr = trim(s);
    assert forall|i: int| 0 <= i < tr.len() implies ('\0' <= #[trigger] tr[i] <= '\u{7f}') by {
        assert(tr[i] == ts[i]);
    }
    lemma_strip_suffix(tr);
    let st = strip_leading(tr, '#');
    assert forall|i: int| 0 <= i < st.len() implies ('\0' <= #[trigger] st[i] <= '\u{7f}') by {
        assert(st[i] == tr[tr.len() - st.len() + i]);
    }
}

proof fn lemma_strip_suffix(x: Seq<char>)
    ensures
        strip_leading(x, '#').len() <= x.len(),
        strip_leading(x, '#') == x.skip(x.len() - strip_leading(x, '#').len()),
    decreases x.len(),
{
    if x.len() > 0 && x[0] == '#' {
        lemma_strip_suffix(x.drop_first());
        assert(x.drop_first().skip(x.drop_first().len() - strip_leading(x, '#').len()) =~= x.skip(
            x.len() - strip_leading(x, '#').len(),
        ));
    } else {
        assert(x.skip(0) =~= x);
    }
}

/// The value of a hexadecimal digit byte, if it is one.
fn hex_digit(b: u8) -> (v: Option<u8>)
    ensures
        v is Some <==> is_hex_byte(b),
        v matches Some(x) ==> x == hex_byte_value(b) && x < 16,
{
    if 0x30 <= b && b <= 0x39 {
        Some(b - 0x30)
    } else if 0x61 <= b && b <= 0x66 {
        Some(b - 0x61 + 10)
    } else if 0x41 <= b && b <= 0x46 {
        Some(b - 0x41 + 10)
    } else {
        None
    }
}

/// `hex_pair` on two bytes.
fn hex_pair_exec(b0: u8, b1: u8) -> (v: Option<u8>)
    ensures
        v == hex_pair(b0, b1),
{
    if b0 == 0x2b {
        return hex_digit(b1);
    }
    match (hex_digit(b0), hex_digit(b1)) {
        (Some(hi), Some(lo)) => Some(hi * 16 + lo),
        _ => None,
    }
}

} // verus!
