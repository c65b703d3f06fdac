//! The widget's settings rules: which tiles show and in what order, the
//! orientation in game mode, the cycling choices, per-tile field switches,
//! display text helpers, and the window kinds whose positions are kept.

use vstd::prelude::*;
use crate::settings::{Orientation, UpdateMode};
use crate::crypto::{base64_decode, base64_decoding, base64_encode, base64_encoding};
use crate::protocol::{decode_handshake_key, decode_key};
use crate::settings::PresetSlot;
use crate::text::{
    utf8_text, chars_of, copy_chars, decimal_text, digits_of, i32_text, i64_text, is_ws, join,
    lemma_split_fields_nonempty, opt_view, slice_range, split_fields, split_vec, starts_with,
    starts_with_seq, str_eq, string_of, trim, trim_end, trim_vec, u64_text,
};
use crate::updates::CheckResult;
use crate::json::{distinct_keys, field_view, fields_view, json_field, json_object, json_object_text, json_string_field};

verus! {

// ---------------------------------------------------------------------
// Windows

#[derive(Debug, Clone, Copy, PartialEq, Eq, Structural)]
pub enum WindowKind {
    Widget,
    Settings,
    Alerts,
    GameMode,
    Help,
    WidgetMenu,
    Popout,
    Utilities,
    WindowPicker,
    ThemeStore,
    PopoutConfig,
    CpuDriver,
    Picker,
    ConfirmDelete,
}

/// The key a popup's last position is saved under. The widget and the
/// settings window keep dedicated fields; the context menu always opens at
/// the cursor.
pub open spec fn kind_key_of(kind: WindowKind) -> Option<Seq<char>> {
    match kind {
        WindowKind::Alerts => Some("alerts"@),
        WindowKind::GameMode => Some("gamemode"@),
        WindowKind::Help => Some("help"@),
        WindowKind::Utilities => Some("utilities"@),
        WindowKind::WindowPicker => Some("windowpicker"@),
        WindowKind::ThemeStore => Some("themestore"@),
        WindowKind::PopoutConfig => Some("popoutconfig"@),
        WindowKind::CpuDriver => Some("cpudriver"@),
        WindowKind::Picker => Some("picker"@),
        WindowKind::ConfirmDelete => Some("confirmdelete"@),
        WindowKind::Popout => Some("popout"@),
        _ => None,
    }
}

pub fn kind_key(kind: WindowKind) -> (r: Option<&'static str>)
    ensures
        match r {
            Some(k) => kind_key_of(kind) == Some(k@),
            None => kind_key_of(kind) is None,
        },
{
    match kind {
        WindowKind::Alerts => Some("alerts"),
        WindowKind::GameMode => Some("gamemode"),
        WindowKind::Help => Some("help"),
        WindowKind::Utilities => Some("utilities"),
        WindowKind::WindowPicker => Some("windowpicker"),
        WindowKind::ThemeStore => Some("themestore"),
        WindowKind::PopoutConfig => Some("popoutconfig"),
        WindowKind::CpuDriver => Some("cpudriver"),
        WindowKind::Picker => Some("picker"),
        WindowKind::ConfirmDelete => Some("confirmdelete"),
        WindowKind::Popout => Some("popout"),
        WindowKind::Widget | WindowKind::Settings | WindowKind::WidgetMenu => None,
    }
}

// ---------------------------------------------------------------------
// Text helpers

/// `s` cut to at most `max` characters: when longer, its first `max - 1`
/// characters and an ellipsis.
pub open spec fn truncated(s: Seq<char>, max: nat) -> Seq<char> {
    if s.len() <= max {
        s
    } else {
        s.take(if max >= 1 {
            max - 1
        } else {
            0
        }) + seq!['\u{2026}']
    }
}

pub fn truncate(s: &str, max: usize) -> (r: String)
    ensures
        r@ == truncated(s@, max as nat),
{
    let cs = chars_of(s);
    if cs.len() <= max {
        return s.to_owned();
    }
    let keep: usize = if max >= 1 {
        max - 1
    } else {
        0
    };
    let mut t = slice_range(cs.as_slice(), 0, keep);
    t.push('\u{2026}');
    assert(t@ =~= truncated(s@, max as nat));
    string_of(t.as_slice())
}

/// A lowercase hexadecimal digit for `n` in `0..16`.
pub open spec fn hex_char(n: nat) -> char {
    if n < 10 {
        ((n + 48) as u32) as char
    } else {
        ((n + 87) as u32) as char
    }
}

/// Lowercase hexadecimal without leading zeros (as `{:x}`).
pub open spec fn hex_text(n: nat) -> Seq<char>
    decreases n,
{
    if n < 16 {
        seq![hex_char(n)]
    } else {
        hex_text(n / 16) + seq![hex_char(n % 16)]
    }
}

fn hex_vec(n: u64) -> (r: Vec<char>)
    ensures
        r@ == hex_text(n as nat),
    decreases n,
{
    let d = (n % 16) as u8;
    let c = if d < 10 {
        (d + 48) as char
    } else {
        (d + 87) as char
    };
    if n < 16 {
        let r = vec![c];
        assert(r@ =~= hex_text(n as nat));
        r
    } else {
        let mut r = hex_vec(n / 16);
        r.push(c);
        assert(r@ =~= hex_text(n as nat));
        r
    }
}

/// A remote device's id: the clock reading in nanoseconds and a per-run
/// counter, both in lowercase hex, one after the other.
pub fn device_id(nanos: u64, counter: u64) -> (r: String)
    ensures
        r@ == hex_text(nanos as nat) + hex_text(counter as nat),
{
    let mut a = hex_vec(nanos);
    let b = hex_vec(counter);
    let ghost a0 = a@;
    let mut i: usize = 0;
    while i < b.len()
        invariant
            i <= b@.len(),
            a@ == a0 + b@.take(i as int),
        decreases b@.len() - i,
    {
        a.push(b[i]);
        i = i + 1;
        assert(a@ =~= a0 + b@.take(i as int));
    }
    assert(b@.take(b@.len() as int) =~= b@);
    string_of(a.as_slice())
}

/// A font-size offset in points: positive ones carry a `+`.
pub fn signed(v: i32) -> (r: String)
    ensures
        r@ == (if v > 0 {
            "+"@
        } else {
            Seq::<char>::empty()
        }) + decimal_text(v as int) + "pt"@,
{
    let mut s = String::new();
    if v > 0 {
        s.append("+");
    }
    let d = i32_text(v);
    s.append(d.as_str());
    s.append("pt");
    s
}

// ---------------------------------------------------------------------
// Layout

/// The orientation in use: in game mode, the game-mode setting when it names
/// one; otherwise the normal one.
pub open spec fn orientation_in_use(game_mode: bool, game_orientation: Seq<char>, orientation: Orientation) -> Orientation {
    if game_mode && game_orientation == "Horizontal"@ {
        Orientation::Horizontal
    } else if game_mode && game_orientation == "Vertical"@ {
        Orientation::Vertical
    } else {
        orientation
    }
}

pub fn effective_orientation(game_mode: bool, game_orientation: &str, orientation: Orientation) -> (r: Orientation)
    ensures
        r == orientation_in_use(game_mode, game_orientation@, orientation),
{
    if game_mode {
        if str_eq(game_orientation, "Horizontal") {
            return Orientation::Horizontal;
        }
        if str_eq(game_orientation, "Vertical") {
            return Orientation::Vertical;
        }
    }
    orientation
}

/// The tiles in their fixed display order.
pub open spec fn canonical_tiles() -> Seq<Seq<char>> {
    seq!["Clock"@, "CPU"@, "GPU"@, "RAM"@, "Network"@, "Disk"@]
}

/// The tiles of `order` that are enabled, in the order of `order`.
pub open spec fn enabled_in(order: Seq<Seq<char>>, enabled: Seq<Seq<char>>) -> Seq<Seq<char>>
    decreases order.len(),
{
    if order.len() == 0 {
        Seq::empty()
    } else {
        let prev = enabled_in(order.drop_last(), enabled);
        if enabled.contains(order.last()) {
            prev.push(order.last())
        } else {
            prev
        }
    }
}

/// The views of a list of strings.
pub open spec fn string_views(v: Seq<String>) -> Seq<Seq<char>> {
    v.map_values(|s: String| s@)
}

fn contains_string(list: &Vec<String>, item: &str) -> (r: bool)
    ensures
        r == string_views(list@).contains(item@),
{
    let mut i: usize = 0;
    while i < list.len()
        invariant
            i <= list@.len(),
            forall|j: int| 0 <= j < i ==> list@[j]@ != item@,
        decreases list@.len() - i,
    {
        if str_eq(list[i].as_str(), item) {
            assert(string_views(list@)[i as int] == item@);
            return true;
        }
        i = i + 1;
    }
    proof {
        if string_views(list@).contains(item@) {
            let k = choose|k: int| 0 <= k < string_views(list@).len() && string_views(list@)[k]
                == item@;
            assert(list@[k]@ == item@);
        }
    }
    false
}

/// The tiles shown: the enabled ones (the game-mode set in game mode), in
/// the fixed order Clock, CPU, GPU, RAM, Network, Disk.
pub fn current_tiles(game_mode: bool, game_mode_tiles: &Vec<String>, visible_tiles: &Vec<String>) -> (r: Vec<String>)
    ensures
        string_views(r@) == enabled_in(
            canonical_tiles(),
            string_views(
                if game_mode {
                    game_mode_tiles@
                } else {
                    visible_tiles@
                },
            ),
        ),
{
    let enabled = if game_mode {
        game_mode_tiles
    } else {
        visible_tiles
    };
    let canon: Vec<&'static str> = vec!["Clock", "CPU", "GPU", "RAM", "Network", "Disk"];
    let ghost cv = canon@.map_values(|s: &str| s@);
    assert(cv =~= canonical_tiles());
    let mut out: Vec<String> = Vec::new();
    let mut i: usize = 0;
    while i < canon.len()
        invariant
            i <= canon@.len(),
            cv == canon@.map_values(|s: &str| s@),
            string_views(out@) == enabled_in(cv.take(i as int), string_views(enabled@)),
        decreases canon@.len() - i,
    {
        assert(cv.take(i + 1).drop_last() =~= cv.take(i as int));
        assert(cv.take(i + 1).last() == canon@[i as int]@);
        if contains_string(enabled, canon[i]) {
            let ghost before = string_views(out@);
            out.push(canon[i].to_owned());
            assert(string_views(out@) =~= before.push(canon@[i as int]@));
        }
        i = i + 1;
    }
    assert(cv.take(canon@.len() as int) =~= cv);
    out
}

/// The shown tiles are the fixed order filtered by the enabled set.
pub proof fn law_tiles_are_filtered_order(order: Seq<Seq<char>>, enabled: Seq<Seq<char>>)
    ensures
        enabled_in(order, enabled) == order.filter(|t: Seq<char>| enabled.contains(t)),
    decreases order.len(),
{
    reveal(Seq::filter);
    if order.len() > 0 {
        law_tiles_are_filtered_order(order.drop_last(), enabled);
    }
}

/// A tile is shown exactly when it is in the order and enabled.
proof fn lemma_enabled_in_contains(order: Seq<Seq<char>>, enabled: Seq<Seq<char>>, t: Seq<char>)
    ensures
        enabled_in(order, enabled).contains(t) <==> (order.contains(t) && enabled.contains(t)),
    decreases order.len(),
{
    if order.len() > 0 {
        lemma_enabled_in_contains(order.drop_last(), enabled, t);
        let prev = enabled_in(order.drop_last(), enabled);
        if order.contains(t) && enabled.contains(t) {
            let k = choose|k: int| 0 <= k < order.len() && order[k] == t;
            if k < order.len() - 1 {
                assert(order.drop_last()[k] == t);
            }
        }
        if order.drop_last().contains(t) {
            let k = choose|k: int| 0 <= k < order.drop_last().len() && order.drop_last()[k] == t;
            assert(order[k] == t);
        }
        if enabled.contains(order.last()) {
            assert(prev.push(order.last()).last() == order.last());
            if prev.push(order.last()).contains(t) {
                let k = choose|k: int| 0 <= k < prev.push(order.last()).len() && prev.push(order.last())[k] == t;
                if k < prev.len() {
                    assert(prev[k] == t);
                }
            }
            if prev.contains(t) {
                let k = choose|k: int| 0 <= k < prev.len() && prev[k] == t;
                assert(prev.push(order.last())[k] == t);
            }
        }
    }
}

/// The tiles shown are the enabled ones among Clock, CPU, GPU, RAM,
/// Network and Disk, in that order: every enabled one of the six is shown,
/// nothing else is, and the order is that fixed one.
pub proof fn law_enabled_tiles_shown(enabled: Seq<Seq<char>>, t: Seq<char>)
    ensures
        seq!["Clock"@, "CPU"@, "GPU"@, "RAM"@, "Network"@, "Disk"@].contains(t) && enabled.contains(t)
            ==> enabled_in(canonical_tiles(), enabled).contains(t),
        enabled_in(canonical_tiles(), enabled).contains(t) ==> enabled.contains(t) && seq![
            "Clock"@,
            "CPU"@,
            "GPU"@,
            "RAM"@,
            "Network"@,
            "Disk"@,
        ].contains(t),
        enabled_in(canonical_tiles(), enabled) == seq![
            "Clock"@,
            "CPU"@,
            "GPU"@,
            "RAM"@,
            "Network"@,
            "Disk"@,
        ].filter(|x: Seq<char>| enabled.contains(x)),
{
    let l = seq!["Clock"@, "CPU"@, "GPU"@, "RAM"@, "Network"@, "Disk"@];
    assert(canonical_tiles() =~= l);
    lemma_enabled_in_contains(l, enabled, t);
    law_tiles_are_filtered_order(l, enabled);
}

// ---------------------------------------------------------------------
// Cycling choices

/// The network-traffic indicator modes, in cycling order.
pub open spec fn traffic_modes() -> Seq<Seq<char>> {
    seq!["Off"@, "Blink"@, "Fade"@, "Glow"@]
}

/// The disk label styles, in cycling order.
pub open spec fn disk_label_styles() -> Seq<Seq<char>> {
    seq!["Letter"@, "Model"@, "Both"@]
}

/// The first position at or after `i` of `cur` among `choices`, or 0 when
/// it is none of them.
pub open spec fn position_from(choices: Seq<Seq<char>>, cur: Seq<char>, i: int) -> int
    decreases choices.len() - i,
{
    if i < 0 || i >= choices.len() {
        0
    } else if choices[i] == cur {
        i
    } else {
        position_from(choices, cur, i + 1)
    }
}

/// The choice after `cur` (after the first one when `cur` is unknown),
/// wrapping around.
pub open spec fn next_choice(choices: Seq<Seq<char>>, cur: Seq<char>) -> Seq<char> {
    choices[(position_from(choices, cur, 0) + 1) % (choices.len() as int)]
}

proof fn lemma_position_in_range(choices: Seq<Seq<char>>, cur: Seq<char>, i: int)
    ensures
        0 <= position_from(choices, cur, i) && (choices.len() > 0 ==> position_from(
            choices,
            cur,
            i,
        ) < choices.len()),
    decreases choices.len() - i,
{
    if 0 <= i < choices.len() && choices[i] != cur {
        lemma_position_in_range(choices, cur, i + 1);
    }
}

fn cycle(choices: &Vec<&'static str>, cur: &str) -> (r: String)
    requires
        choices@.len() > 0,
    ensures
        r@ == next_choice(choices@.map_values(|s: &str| s@), cur@),
{
    let ghost cv = choices@.map_values(|s: &str| s@);
    let mut i: usize = 0;
    while i < choices.len()
        invariant
            i <= choices@.len(),
            cv == choices@.map_values(|s: &str| s@),
            position_from(cv, cur@, 0) == position_from(cv, cur@, i as int),
        decreases choices@.len() - i,
    {
        if str_eq(choices[i], cur) {
            assert(cv[i as int] == cur@);
            let next = (i + 1) % choices.len();
            return choices[next].to_owned();
        }
        i = i + 1;
    }
    proof {
        lemma_position_in_range(cv, cur@, 0);
    }
    let next = 1 % choices.len();
    choices[next].to_owned()
}

/// The traffic indicator mode after `cur`: Off, Blink, Fade, Glow, and
/// round again.
pub fn traffic_cycle(cur: &str) -> (r: String)
    ensures
        r@ == next_choice(traffic_modes(), cur@),
{
    let modes: Vec<&'static str> = vec!["Off", "Blink", "Fade", "Glow"];
    proof {
        reveal_strlit("Off");
        reveal_strlit("Blink");
        reveal_strlit("Fade");
        reveal_strlit("Glow");
        assert(modes@.map_values(|s: &str| s@) =~= traffic_modes());
    }
    cycle(&modes, cur)
}

/// The disk label style after `cur`: Letter, Model, Both, and round again.
pub fn disk_label_cycle(cur: &str) -> (r: String)
    ensures
        r@ == next_choice(disk_label_styles(), cur@),
{
    let styles: Vec<&'static str> = vec!["Letter", "Model", "Both"];
    proof {
        reveal_strlit("Letter");
        reveal_strlit("Model");
        reveal_strlit("Both");
        assert(styles@.map_values(|s: &str| s@) =~= disk_label_styles());
    }
    cycle(&styles, cur)
}

/// The update-check mode a setting names; anything but `Auto` and `Off` is
/// manual.
pub fn update_mode_of(s: &str) -> (r: UpdateMode)
    ensures
        r == (if s@ == "Auto"@ {
            UpdateMode::Auto
        } else if s@ == "Off"@ {
            UpdateMode::Off
        } else {
            UpdateMode::Manual
        }),
{
    if str_eq(s, "Auto") {
        UpdateMode::Auto
    } else if str_eq(s, "Off") {
        UpdateMode::Off
    } else {
        UpdateMode::Manual
    }
}

/// The network adapter setting for a choice: "All adapters" is stored as
/// empty.
pub fn adapter_setting(choice: String) -> (r: String)
    ensures
        r@ == (if choice@ == "All adapters"@ {
            Seq::<char>::empty()
        } else {
            choice@
        }),
{
    if str_eq(choice.as_str(), "All adapters") {
        String::new()
    } else {
        choice
    }
}

/// Cycling the traffic indicator four times from any of its modes comes
/// back to that mode.
pub proof fn law_traffic_cycle_returns(m: Seq<char>)
    requires
        traffic_modes().contains(m),
    ensures
        next_choice(
            traffic_modes(),
            next_choice(traffic_modes(), next_choice(traffic_modes(), next_choice(traffic_modes(), m))),
        ) == m,
{
    reveal_strlit("Off");
    reveal_strlit("Blink");
    reveal_strlit("Fade");
    reveal_strlit("Glow");
    let t = traffic_modes();
    assert("Off"@.len() == 3 && "Blink"@.len() == 5 && "Fade"@.len() == 4 && "Glow"@.len() == 4);
    assert("Fade"@[0] != "Glow"@[0]);
    reveal_with_fuel(position_from, 5);
    assert(t[0] == "Off"@ && t[1] == "Blink"@ && t[2] == "Fade"@ && t[3] == "Glow"@);
    assert(position_from(t, "Off"@, 0) == 0);
    assert(position_from(t, "Blink"@, 1) == 1);
    assert(position_from(t, "Blink"@, 0) == 1);
    assert(position_from(t, "Fade"@, 2) == 2);
    assert(position_from(t, "Fade"@, 1) == 2);
    assert(position_from(t, "Fade"@, 0) == 2);
    assert(position_from(t, "Glow"@, 3) == 3);
    assert(position_from(t, "Glow"@, 2) == 3);
    assert(position_from(t, "Glow"@, 1) == 3);
    assert(position_from(t, "Glow"@, 0) == 3);
    assert(next_choice(t, "Off"@) == "Blink"@);
    assert(next_choice(t, "Blink"@) == "Fade"@);
    assert(next_choice(t, "Fade"@) == "Glow"@);
    assert(next_choice(t, "Glow"@) == "Off"@);
}

// ---------------------------------------------------------------------
// Tiles and their fields

/// The per-tile field switches (all on by default).
#[derive(Debug, Clone, Copy)]
pub struct TileFields {
    pub cpu_show_temp: bool,
    pub cpu_show_clock: bool,
    pub gpu_show_temp: bool,
    pub gpu_show_clock: bool,
    pub gpu_show_vram: bool,
    pub ram_show_speed: bool,
    pub ram_show_details: bool,
    pub net_show_down: bool,
    pub net_show_up: bool,
    pub disk_show_read: bool,
    pub disk_show_write: bool,
    pub clock_show_date: bool,
}

/// The number of the field switch a key names (12 for an unknown key).
pub open spec fn field_number(key: Seq<char>) -> u8 {
    if key == "cpu_temp"@ {
        0
    } else if key == "cpu_clock"@ {
        1
    } else if key == "gpu_temp"@ {
        2
    } else if key == "gpu_clock"@ {
        3
    } else if key == "gpu_vram"@ {
        4
    } else if key == "ram_speed"@ {
        5
    } else if key == "ram_details"@ {
        6
    } else if key == "net_down"@ {
        7
    } else if key == "net_up"@ {
        8
    } else if key == "disk_read"@ {
        9
    } else if key == "disk_write"@ {
        10
    } else if key == "clock_date"@ {
        11
    } else {
        12
    }
}

/// The field switches with switch number `n` set to `on`; any other
/// number changes nothing.
pub open spec fn with_field_number(f: TileFields, n: u8, on: bool) -> TileFields {
    match n {
        0 => TileFields { cpu_show_temp: on, ..f },
        1 => TileFields { cpu_show_clock: on, ..f },
        2 => TileFields { gpu_show_temp: on, ..f },
        3 => TileFields { gpu_show_clock: on, ..f },
        4 => TileFields { gpu_show_vram: on, ..f },
        5 => TileFields { ram_show_speed: on, ..f },
        6 => TileFields { ram_show_details: on, ..f },
        7 => TileFields { net_show_down: on, ..f },
        8 => TileFields { net_show_up: on, ..f },
        9 => TileFields { disk_show_read: on, ..f },
        10 => TileFields { disk_show_write: on, ..f },
        11 => TileFields { clock_show_date: on, ..f },
        _ => f,
    }
}

/// The field switches with the one named by `key` set to `on`; an unknown
/// key changes nothing.
pub open spec fn with_field(f: TileFields, key: Seq<char>, on: bool) -> TileFields {
    with_field_number(f, field_number(key), on)
}

fn field_number_exec(key: &str) -> (r: u8)
    ensures
        r == field_number(key@),
{
    if str_eq(key, "cpu_temp") {
        0
    } else if str_eq(key, "cpu_clock") {
        1
    } else if str_eq(key, "gpu_temp") {
        2
    } else if str_eq(key, "gpu_clock") {
        3
    } else if str_eq(key, "gpu_vram") {
        4
    } else if str_eq(key, "ram_speed") {
        5
    } else if str_eq(key, "ram_details") {
        6
    } else if str_eq(key, "net_down") {
        7
    } else if str_eq(key, "net_up") {
        8
    } else if str_eq(key, "disk_read") {
        9
    } else if str_eq(key, "disk_write") {
        10
    } else if str_eq(key, "clock_date") {
        11
    } else {
        12
    }
}

impl TileFields {
    pub fn all_on() -> (r: TileFields)
        ensures
            r.cpu_show_temp && r.cpu_show_clock && r.gpu_show_temp && r.gpu_show_clock
                && r.gpu_show_vram && r.ram_show_speed && r.ram_show_details && r.net_show_down
                && r.net_show_up && r.disk_show_read && r.disk_show_write && r.clock_show_date,
    {
        TileFields {
            cpu_show_temp: true,
            cpu_show_clock: true,
            gpu_show_temp: true,
            gpu_show_clock: true,
            gpu_show_vram: true,
            ram_show_speed: true,
            ram_show_details: true,
            net_show_down: true,
            net_show_up: true,
            disk_show_read: true,
            disk_show_write: true,
            clock_show_date: true,
        }
    }

    /// Set the field switch named by `key`.
    pub fn set_field(&mut self, key: &str, on: bool)
        ensures
            *final(self) == with_field(*old(self), key@, on),
    {
        let n = field_number_exec(key);
        let f = *self;
        let g = match n {
            0 => TileFields { cpu_show_temp: on, ..f },
            1 => TileFields { cpu_show_clock: on, ..f },
            2 => TileFields { gpu_show_temp: on, ..f },
            3 => TileFields { gpu_show_clock: on, ..f },
            4 => TileFields { gpu_show_vram: on, ..f },
            5 => TileFields { ram_show_speed: on, ..f },
            6 => TileFields { ram_show_details: on, ..f },
            7 => TileFields { net_show_down: on, ..f },
            8 => TileFields { net_show_up: on, ..f },
            9 => TileFields { disk_show_read: on, ..f },
            10 => TileFields { disk_show_write: on, ..f },
            11 => TileFields { clock_show_date: on, ..f },
            _ => f,
        };
        *self = g;
    }
}

/// `list` without any entry equal to `name`.
pub open spec fn without(list: Seq<Seq<char>>, name: Seq<char>) -> Seq<Seq<char>> {
    list.filter(|t: Seq<char>| t != name)
}

/// `list` with `name` added at the end, unless it is already there.
pub open spec fn with_entry(list: Seq<Seq<char>>, name: Seq<char>) -> Seq<Seq<char>> {
    if list.contains(name) {
        list
    } else {
        list.push(name)
    }
}

fn add_entry(list: &mut Vec<String>, name: &String)
    ensures
        string_views(final(list)@) == with_entry(string_views(old(list)@), name@),
{
    if !contains_string(list, name.as_str()) {
        let ghost before = string_views(list@);
        list.push(name.clone());
        assert(string_views(list@) =~= before.push(name@));
    }
}

fn remove_entries(list: &mut Vec<String>, name: &str)
    ensures
        string_views(final(list)@) == without(string_views(old(list)@), name@),
{
    let ghost orig = string_views(list@);
    let mut kept: Vec<String> = Vec::new();
    let mut i: usize = 0;
    while i < list.len()
        invariant
            i <= list@.len(),
            orig == string_views(list@),
            string_views(kept@) == without(orig.take(i as int), name@),
        decreases list@.len() - i,
    {
        proof {
            reveal(Seq::filter);
            assert(orig.take(i + 1).drop_last() =~= orig.take(i as int));
            assert(orig.take(i + 1).last() == list@[i as int]@);
        }
        if !str_eq(list[i].as_str(), name) {
            let ghost before = string_views(kept@);
            kept.push(list[i].clone());
            assert(string_views(kept@) =~= before.push(list@[i as int]@));
        }
        i = i + 1;
    }
    assert(orig.take(orig.len() as int) =~= orig);
    *list = kept;
}

/// Switch a tile on (added to the visible tiles and the tile order when
/// missing) or off (removed from the visible tiles).
pub fn toggle_tile(visible: &mut Vec<String>, order: &mut Vec<String>, name: String, on: bool)
    ensures
        on ==> string_views(final(visible)@) == with_entry(string_views(old(visible)@), name@)
            && string_views(final(order)@) == with_entry(string_views(old(order)@), name@),
        !on ==> string_views(final(visible)@) == without(string_views(old(visible)@), name@)
            && final(order)@ == old(order)@,
{
    if on {
        add_entry(visible, &name);
        add_entry(order, &name);
    } else {
        remove_entries(visible, name.as_str());
    }
}

/// Switch a tile of the game-mode overlay on or off.
pub fn toggle_game_mode_tile(tiles: &mut Vec<String>, name: String, on: bool)
    ensures
        on ==> string_views(final(tiles)@) == with_entry(string_views(old(tiles)@), name@),
        !on ==> string_views(final(tiles)@) == without(string_views(old(tiles)@), name@),
{
    if on {
        add_entry(tiles, &name);
    } else {
        remove_entries(tiles, name.as_str());
    }
}

/// A tile switched off is no longer shown.
pub proof fn law_tile_off_not_visible(visible: Seq<Seq<char>>, name: Seq<char>)
    ensures
        !without(visible, name).contains(name),
{
    reveal(Seq::filter);
    let w = without(visible, name);
    if w.contains(name) {
        let k = choose|k: int| 0 <= k < w.len() && w[k] == name;
        visible.lemma_filter_pred(|t: Seq<char>| t != name, k);
    }
}

// ---------------------------------------------------------------------
// Appearance, its undo stack, fonts and preset slots

/// The colours, skin and fonts of the widget.
#[derive(Debug)]
pub struct Appearance {
    pub bg: String,
    pub tile: String,
    pub accent: String,
    pub text: String,
    pub muted: String,
    pub skin: String,
    pub primary_font: Option<String>,
    pub secondary_font: Option<String>,
    pub indicator_font: Option<String>,
}

/// How many appearance changes can be undone.
pub const UNDO_LIMIT: usize = 5;

/// The undo stack after recording `a`: the oldest entry drops out beyond
/// the limit.
pub open spec fn pushed_undo(stack: Seq<Appearance>, a: Appearance) -> Seq<Appearance> {
    let s = stack.push(a);
    if s.len() > UNDO_LIMIT {
        s.drop_first()
    } else {
        s
    }
}

/// Record the appearance before a change.
pub fn push_undo(stack: &mut Vec<Appearance>, a: Appearance)
    ensures
        final(stack)@ == pushed_undo(old(stack)@, a),
{
    stack.push(a);
    if stack.len() > UNDO_LIMIT {
        let _ = stack.remove(0);
        assert(stack@ =~= pushed_undo(old(stack)@, a));
    }
}

/// Take back the latest recorded appearance, if any.
pub fn pop_undo(stack: &mut Vec<Appearance>) -> (r: Option<Appearance>)
    ensures
        old(stack)@.len() == 0 ==> r is None && final(stack)@ == old(stack)@,
        old(stack)@.len() > 0 ==> r == Some(old(stack)@.last()) && final(stack)@
            == old(stack)@.drop_last(),
{
    stack.pop()
}

fn copy_font(o: &Option<String>) -> (r: Option<String>)
    ensures
        r == *o,
{
    match o {
        Some(f) => Some(f.clone()),
        None => None,
    }
}

/// A copy of the current appearance, as recorded before a change.
pub fn snapshot_appearance(a: &Appearance) -> (r: Appearance)
    ensures
        r == *a,
{
    Appearance {
        bg: a.bg.clone(),
        tile: a.tile.clone(),
        accent: a.accent.clone(),
        text: a.text.clone(),
        muted: a.muted.clone(),
        skin: a.skin.clone(),
        primary_font: copy_font(&a.primary_font),
        secondary_font: copy_font(&a.secondary_font),
        indicator_font: copy_font(&a.indicator_font),
    }
}

/// Change the appearance (a theme, skin, colour or preset change),
/// recording the current one for undo first.
pub fn change_appearance(current: &mut Appearance, undo: &mut Vec<Appearance>, next: Appearance)
    ensures
        *final(current) == next,
        final(undo)@ == pushed_undo(old(undo)@, *old(current)),
{
    let before = snapshot_appearance(current);
    push_undo(undo, before);
    *current = next;
}

/// Undo the last change: the appearance recorded last comes back; nothing
/// changes when nothing is recorded.
pub fn undo_appearance(current: &mut Appearance, undo: &mut Vec<Appearance>) -> (r: bool)
    ensures
        r == (old(undo)@.len() > 0),
        r ==> *final(current) == old(undo)@.last() && final(undo)@ == old(undo)@.drop_last(),
        !r ==> *final(current) == *old(current) && final(undo)@ == old(undo)@,
{
    match pop_undo(undo) {
        Some(a) => {
            *current = a;
            true
        },
        None => false,
    }
}

/// A change followed by an undo gives back the appearance from before the
/// change, and the undo stack as it was (unless it was full, when its
/// oldest entry is gone).
pub proof fn law_undo_restores(before: Appearance, stack: Seq<Appearance>)
    requires
        stack.len() <= UNDO_LIMIT,
    ensures
        pushed_undo(stack, before).len() > 0,
        pushed_undo(stack, before).last() == before,
        pushed_undo(stack, before).drop_last() == (if stack.len() == UNDO_LIMIT {
            stack.drop_first()
        } else {
            stack
        }),
{
    law_undo_bounded(stack, before);
}

/// The undo stack never holds more than five appearances, and undo gives
/// back the one recorded last.
pub proof fn law_undo_bounded(stack: Seq<Appearance>, a: Appearance)
    requires
        stack.len() <= UNDO_LIMIT,
    ensures
        pushed_undo(stack, a).len() <= UNDO_LIMIT,
        pushed_undo(stack, a).last() == a,
        pushed_undo(stack, a).drop_last() == (if stack.len() == UNDO_LIMIT {
            stack.drop_first()
        } else {
            stack
        }),
{
    let s = stack.push(a);
    if s.len() > UNDO_LIMIT {
        assert(s.drop_first().drop_last() =~= stack.drop_first());
    } else {
        assert(s.drop_last() =~= stack);
    }
}

/// The three font choices.
#[derive(Debug)]
pub struct Fonts {
    pub primary: Option<String>,
    pub secondary: Option<String>,
    pub indicator: Option<String>,
}

/// Choose a font (empty means the default). With synced fonts every slot
/// takes it; otherwise slot 0, 1, or the indicator slot for any other
/// number.
pub fn set_font(fonts: &mut Fonts, sync: bool, slot: u8, name: String)
    ensures
        ({
            let v = if name@.len() == 0 {
                None::<Seq<char>>
            } else {
                Some(name@)
            };
            if sync {
                opt_view(final(fonts).primary) == v && opt_view(final(fonts).secondary) == v
                    && opt_view(final(fonts).indicator) == v
            } else if slot == 0 {
                opt_view(final(fonts).primary) == v && final(fonts).secondary == old(
                    fonts,
                ).secondary && final(fonts).indicator == old(fonts).indicator
            } else if slot == 1 {
                opt_view(final(fonts).secondary) == v && final(fonts).primary == old(
                    fonts,
                ).primary && final(fonts).indicator == old(fonts).indicator
            } else {
                opt_view(final(fonts).indicator) == v && final(fonts).primary == old(
                    fonts,
                ).primary && final(fonts).secondary == old(fonts).secondary
            }
        }),
{
    let val = if name.as_str().is_empty() {
        None
    } else {
        Some(name)
    };
    if sync {
        fonts.primary = val.clone();
        fonts.secondary = val.clone();
        fonts.indicator = val;
    } else if slot == 0 {
        fonts.primary = val;
    } else if slot == 1 {
        fonts.secondary = val;
    } else {
        fonts.indicator = val;
    }
}

/// An empty preset slot.
pub fn blank_slot() -> (r: PresetSlot)
    ensures
        r.name@.len() == 0 && r.bg@.len() == 0 && r.tile@.len() == 0 && r.accent@.len() == 0
            && r.text@.len() == 0 && r.muted@.len() == 0 && r.skin@.len() == 0,
{
    PresetSlot {
        name: String::new(),
        bg: String::new(),
        tile: String::new(),
        accent: String::new(),
        text: String::new(),
        muted: String::new(),
        skin: String::new(),
    }
}

/// A slot holds a saved theme when its accent colour is set.
pub open spec fn is_saved(p: PresetSlot) -> bool {
    p.accent@.len() > 0
}

/// Slot `idx` filled from an appearance: named `Slot n` (counting from 1),
/// with its colours and skin.
pub open spec fn slot_from(a: Appearance, idx: nat, p: PresetSlot) -> bool {
    &&& p.name@ == "Slot "@ + digits_of(idx + 1)
    &&& p.bg@ == a.bg@ && p.tile@ == a.tile@ && p.accent@ == a.accent@
    &&& p.text@ == a.text@ && p.muted@ == a.muted@ && p.skin@ == a.skin@
}

/// Save an appearance into preset slot `idx`, first adding empty slots up
/// to it; the other slots are kept.
pub fn save_to_slot(presets: &mut Vec<PresetSlot>, idx: usize, a: &Appearance)
    requires
        idx < usize::MAX,
    ensures
        final(presets)@.len() == if old(presets)@.len() > idx {
            old(presets)@.len() as int
        } else {
            idx + 1
        },
        slot_from(*a, idx as nat, final(presets)@[idx as int]),
        forall|j: int|
            0 <= j < old(presets)@.len() && j != idx ==> final(presets)@[j] == old(presets)@[j],
        forall|j: int|
            old(presets)@.len() <= j < idx ==> !is_saved(#[trigger] final(presets)@[j]),
{
    while presets.len() <= idx
        invariant
            idx < usize::MAX,
            old(presets)@.len() <= presets@.len() <= (if old(presets)@.len() > idx {
                old(presets)@.len() as int
            } else {
                idx + 1
            }),
            forall|j: int| 0 <= j < old(presets)@.len() ==> presets@[j] == old(presets)@[j],
            forall|j: int|
                old(presets)@.len() <= j < presets@.len() ==> !is_saved(#[trigger] presets@[j]),
        decreases idx + 1 - presets@.len(),
    {
        presets.push(blank_slot());
    }
    let n = u64_text((idx as u64) + 1);
    let mut name = String::new();
    name.append("Slot ");
    name.append(n.as_str());
    let slot = PresetSlot {
        name,
        bg: a.bg.clone(),
        tile: a.tile.clone(),
        accent: a.accent.clone(),
        text: a.text.clone(),
        muted: a.muted.clone(),
        skin: a.skin.clone(),
    };
    presets.set(idx, slot);
}

/// What a click on preset slot `slot` does: save into an armed slot, apply
/// a saved one, or arm an empty one.
#[derive(Debug, PartialEq, Eq, Structural)]
pub enum SlotClick {
    Save,
    Apply,
    Arm,
}

pub fn slot_click(presets: &Vec<PresetSlot>, arming: Option<u8>, slot: u8) -> (r: SlotClick)
    ensures
        r == if arming == Some(slot) {
            SlotClick::Save
        } else if (slot as int) < presets@.len() && is_saved(presets@[slot as int]) {
            SlotClick::Apply
        } else {
            SlotClick::Arm
        },
{
    let idx = slot as usize;
    let saved = idx < presets.len() && !presets[idx].accent.as_str().is_empty();
    if arming == Some(slot) {
        SlotClick::Save
    } else if saved {
        SlotClick::Apply
    } else {
        SlotClick::Arm
    }
}

/// Apply a saved preset: its colours and skin; the fonts stay.
pub fn apply_preset(a: &mut Appearance, p: &PresetSlot)
    ensures
        final(a).bg@ == p.bg@ && final(a).tile@ == p.tile@ && final(a).accent@ == p.accent@
            && final(a).text@ == p.text@ && final(a).muted@ == p.muted@ && final(a).skin@
            == p.skin@,
        final(a).primary_font == old(a).primary_font && final(a).secondary_font == old(
            a,
        ).secondary_font && final(a).indicator_font == old(a).indicator_font,
{
    a.bg = p.bg.clone();
    a.tile = p.tile.clone();
    a.accent = p.accent.clone();
    a.text = p.text.clone();
    a.muted = p.muted.clone();
    a.skin = p.skin.clone();
}

/// The slots without the unsaved ones at the end.
pub open spec fn trim_unsaved(s: Seq<PresetSlot>) -> Seq<PresetSlot>
    decreases s.len(),
{
    if s.len() > 0 && !is_saved(s.last()) {
        trim_unsaved(s.drop_last())
    } else {
        s
    }
}

/// Delete preset slot `idx`: it is emptied, then the unsaved slots at the
/// end are dropped.
pub fn delete_preset(presets: &mut Vec<PresetSlot>, idx: usize)
    ensures
        idx >= old(presets)@.len() ==> final(presets)@ == old(presets)@,
        idx < old(presets)@.len() ==> exists|b: PresetSlot|
            !is_saved(b) && final(presets)@ == trim_unsaved(old(presets)@.update(idx as int, b)),
{
    if idx < presets.len() {
        let b = blank_slot();
        let ghost gb = b;
        presets.set(idx, b);
        let ghost after_set = presets@;
        assert(after_set == old(presets)@.update(idx as int, gb));
        while presets.len() > 0 && presets[presets.len() - 1].accent.as_str().is_empty()
            invariant
                trim_unsaved(after_set) == trim_unsaved(presets@),
            decreases presets@.len(),
        {
            let _ = presets.pop();
        }
        assert(trim_unsaved(presets@) == presets@);
        assert(!is_saved(gb) && presets@ == trim_unsaved(old(presets)@.update(idx as int, gb)));
    }
}

/// After a deletion no unsaved slot is left at the end.
pub proof fn law_no_trailing_unsaved(s: Seq<PresetSlot>)
    ensures
        trim_unsaved(s).len() == 0 || is_saved(trim_unsaved(s).last()),
        trim_unsaved(s).len() <= s.len(),
        forall|j: int| 0 <= j < trim_unsaved(s).len() ==> trim_unsaved(s)[j] == s[j],
    decreases s.len(),
{
    if s.len() > 0 && !is_saved(s.last()) {
        law_no_trailing_unsaved(s.drop_last());
        assert forall|j: int| 0 <= j < trim_unsaved(s).len() implies trim_unsaved(s)[j] == s[j] by {
            assert(trim_unsaved(s) == trim_unsaved(s.drop_last()));
            assert(s.drop_last()[j] == s[j]);
        }
    }
}

// ---------------------------------------------------------------------
// Remote devices

/// A remote machine the widget can show.
#[derive(Debug)]
pub struct RemoteDevice {
    pub id: String,
    pub name: String,
    pub host: String,
    pub port: u16,
    pub key: String,
}

/// How many remote devices can be added.
pub const MAX_DEVICES: usize = 5;

/// The add-device form, checked: name, address and key trimmed; refused
/// when the name or the address is empty or the key is not a valid
/// handshake key.
pub fn check_device_form(name: &str, ip: &str, key: &str) -> (r: Option<(String, String, String)>)
    ensures
        match r {
            Some(t) => t.0@ == trim(name@) && t.1@ == trim(ip@) && t.2@ == trim(key@) && trim(
                name@,
            ).len() > 0 && trim(ip@).len() > 0 && decode_key(trim(key@)) is Some,
            None => trim(name@).len() == 0 || trim(ip@).len() == 0 || decode_key(trim(key@)) is None,
        },
{
    let n = trim_vec(chars_of(name).as_slice());
    let i = trim_vec(chars_of(ip).as_slice());
    let k = trim_vec(chars_of(key).as_slice());
    if n.len() == 0 || i.len() == 0 {
        return None;
    }
    let ks = string_of(k.as_slice());
    if decode_handshake_key(ks.as_str()).is_none() {
        return None;
    }
    Some((string_of(n.as_slice()), string_of(i.as_slice()), ks))
}

/// Whether another device can be added.
pub fn can_add_device(devices: &Vec<RemoteDevice>) -> (r: bool)
    ensures
        r == (devices@.len() < MAX_DEVICES),
{
    devices.len() < MAX_DEVICES
}

/// Add a device unless the list is full; tells whether it was added.
pub fn save_device(devices: &mut Vec<RemoteDevice>, dev: RemoteDevice) -> (added: bool)
    ensures
        added == (old(devices)@.len() < MAX_DEVICES),
        added ==> final(devices)@ == old(devices)@.push(dev),
        !added ==> final(devices)@ == old(devices)@,
        final(devices)@.len() <= if old(devices)@.len() < MAX_DEVICES {
            MAX_DEVICES as int
        } else {
            old(devices)@.len() as int
        },
{
    if devices.len() >= MAX_DEVICES {
        return false;
    }
    devices.push(dev);
    true
}

/// How saving the add-device form went.
#[derive(Debug, PartialEq, Eq, Structural)]
pub enum FormSave {
    /// Five devices are configured already: nothing changes.
    ListFull,
    /// A field is missing or the key is not valid: the panel shows
    /// `Fill in all fields first`.
    Incomplete,
    /// The device was added and the form closed.
    Saved,
}

/// The device the form describes: a fresh id, the trimmed name, address
/// and key, and the configured feed port.
pub open spec fn form_device(d: RemoteDevice, name: Seq<char>, ip: Seq<char>, key: Seq<char>, port: u16, nanos: u64, counter: u64) -> bool {
    &&& d.id@ == hex_text(nanos as nat) + hex_text(counter as nat)
    &&& d.name@ == trim(name)
    &&& d.host@ == trim(ip)
    &&& d.key@ == trim(key)
    &&& d.port == port
}

/// Save the add-device form: refused when five devices are configured,
/// or when the form is incomplete or its key invalid; otherwise the device
/// (with the id made from the clock reading `nanos` and the per-run
/// `counter`, and the configured `port`) is added and the form closed.
pub fn save_device_form(
    devices: &mut Vec<RemoteDevice>,
    form_open: &mut bool,
    name: &str,
    ip: &str,
    key: &str,
    port: u16,
    nanos: u64,
    counter: u64,
) -> (r: FormSave)
    ensures
        r == FormSave::ListFull <==> old(devices)@.len() >= MAX_DEVICES,
        r == FormSave::Incomplete <==> (old(devices)@.len() < MAX_DEVICES && (trim(name@).len() == 0
            || trim(ip@).len() == 0 || decode_key(trim(key@)) is None)),
        r != FormSave::Saved ==> final(devices)@ == old(devices)@ && *final(form_open)
            == *old(form_open),
        r == FormSave::Saved ==> {
            &&& final(devices)@.len() == old(devices)@.len() + 1
            &&& final(devices)@.drop_last() == old(devices)@
            &&& form_device(final(devices)@.last(), name@, ip@, key@, port, nanos, counter)
            &&& !*final(form_open)
        },
{
    if !can_add_device(devices) {
        return FormSave::ListFull;
    }
    match check_device_form(name, ip, key) {
        None => FormSave::Incomplete,
        Some((n, h, k)) => {
            let dev = RemoteDevice { id: device_id(nanos, counter), name: n, host: h, port, key: k };
            let added = save_device(devices, dev);
            assert(added);
            assert(devices@.drop_last() =~= old(devices)@);
            *form_open = false;
            FormSave::Saved
        },
    }
}

/// The ids of the devices.
pub open spec fn device_ids(d: Seq<RemoteDevice>) -> Seq<Seq<char>> {
    d.map_values(|x: RemoteDevice| x.id@)
}

/// The devices without the one with id `id`.
pub open spec fn devices_without(d: Seq<RemoteDevice>, id: Seq<char>) -> Seq<RemoteDevice> {
    d.filter(|x: RemoteDevice| x.id@ != id)
}

/// Remove the device with id `id`; the widget goes back to this PC when it
/// was showing that device.
pub fn remove_device(devices: &mut Vec<RemoteDevice>, widget_device: &mut Option<String>, id: &str)
    ensures
        final(devices)@ == devices_without(old(devices)@, id@),
        opt_view(*final(widget_device)) == after_removal(opt_view(*old(widget_device)), id@),
{
    let ghost orig = devices@;
    let mut taken: Vec<RemoteDevice> = Vec::new();
    std::mem::swap(devices, &mut taken);
    let mut kept: Vec<RemoteDevice> = Vec::new();
    assert(orig.take(0) =~= Seq::<RemoteDevice>::empty());
    assert(orig.skip(0) =~= orig);
    proof {
        reveal(Seq::filter);
    }
    while taken.len() > 0
        invariant
            taken@.len() <= orig.len(),
            taken@ == orig.skip(orig.len() - taken@.len()),
            kept@ == devices_without(orig.take(orig.len() - taken@.len()), id@),
        decreases taken@.len(),
    {
        let ghost k = orig.len() - taken@.len();
        let d = taken.remove(0);
        proof {
            reveal(Seq::filter);
            assert(d == orig[k]);
            assert(taken@ =~= orig.skip(k + 1));
            assert(orig.take(k + 1).drop_last() =~= orig.take(k));
            assert(orig.take(k + 1).last() == orig[k]);
        }
        if !str_eq(d.id.as_str(), id) {
            kept.push(d);
        }
    }
    assert(orig.take(orig.len() as int) =~= orig);
    *devices = kept;
    let clear = match widget_device {
        Some(w) => str_eq(w.as_str(), id),
        None => false,
    };
    if clear {
        *widget_device = None;
    }
}

/// Whether some device has id `id`.
pub fn has_device(devices: &Vec<RemoteDevice>, id: &str) -> (r: bool)
    ensures
        r == device_ids(devices@).contains(id@),
{
    let mut i: usize = 0;
    while i < devices.len()
        invariant
            i <= devices@.len(),
            forall|j: int| 0 <= j < i ==> devices@[j].id@ != id@,
        decreases devices@.len() - i,
    {
        if str_eq(devices[i].id.as_str(), id) {
            assert(device_ids(devices@)[i as int] == id@);
            return true;
        }
        i = i + 1;
    }
    proof {
        if device_ids(devices@).contains(id@) {
            let k = choose|k: int| 0 <= k < device_ids(devices@).len() && device_ids(devices@)[k]
                == id@;
            assert(devices@[k].id@ == id@);
        }
    }
    false
}

/// The device the widget shows: an unknown id means this PC.
pub fn switch_widget_device(devices: &Vec<RemoteDevice>, dev: Option<String>) -> (r: Option<String>)
    ensures
        opt_view(r) == switched_device(devices@, opt_view(dev)),
{
    match dev {
        Some(d) => {
            if has_device(devices, d.as_str()) {
                Some(d)
            } else {
                None
            }
        },
        None => None,
    }
}

/// The widget shows this PC (no id) or a configured remote device.
pub open spec fn widget_device_known(devs: Seq<RemoteDevice>, w: Option<Seq<char>>) -> bool {
    match w {
        Some(id) => device_ids(devs).contains(id),
        None => true,
    }
}

/// The device the widget shows after switching to `dev`.
pub open spec fn switched_device(devs: Seq<RemoteDevice>, dev: Option<Seq<char>>) -> Option<Seq<char>> {
    match dev {
        Some(d) => if device_ids(devs).contains(d) {
            Some(d)
        } else {
            None
        },
        None => None,
    }
}

/// The device the widget shows after device `id` is removed.
pub open spec fn after_removal(w: Option<Seq<char>>, id: Seq<char>) -> Option<Seq<char>> {
    if w == Some(id) {
        None
    } else {
        w
    }
}

/// The widget's device stays this PC or a configured device: switching
/// lands on a configured device or this PC (an unknown id gives this PC),
/// removing a device moves the widget off it, and saving a device keeps the
/// widget's device known.
pub proof fn law_widget_device_stays_known(
    devs: Seq<RemoteDevice>,
    w: Option<Seq<char>>,
    dev: Option<Seq<char>>,
    id: Seq<char>,
    added: RemoteDevice,
)
    ensures
        widget_device_known(devs, switched_device(devs, dev)),
        widget_device_known(devs, w) ==> widget_device_known(devices_without(devs, id), after_removal(w, id)),
        widget_device_known(devs, w) ==> widget_device_known(devs.push(added), w),
{
    if widget_device_known(devs, w) {
        if let Some(x) = w {
            let k = choose|k: int| 0 <= k < device_ids(devs).len() && device_ids(devs)[k] == x;
            assert(device_ids(devs.push(added))[k] == x);
            if x != id {
                let f = devices_without(devs, id);
                reveal(Seq::filter);
                devs.filter_lemma(|d: RemoteDevice| d.id@ != id);
                assert(f.contains(devs[k]));
                let m = choose|m: int| 0 <= m < f.len() && f[m] == devs[k];
                assert(device_ids(f)[m] == x);
            }
        }
    }
}

// ---------------------------------------------------------------------
// Snap blocklist

/// The blocklist rules of an edited text: its lines, trimmed, without the
/// empty ones. (Splitting at every line break gives the lines of
/// `str::lines`, plus an empty last one where the text ends with a break;
/// trimming removes a carriage return.)
pub open spec fn rules_of(lines: Seq<Seq<char>>) -> Seq<Seq<char>>
    decreases lines.len(),
{
    if lines.len() == 0 {
        Seq::empty()
    } else {
        let prev = rules_of(lines.drop_last());
        let t = trim(lines.last());
        if t.len() > 0 {
            prev.push(t)
        } else {
            prev
        }
    }
}

pub fn blocklist_rules(text: &str) -> (r: Vec<String>)
    ensures
        string_views(r@) == rules_of(split_fields(text@, seq!['\n'])),
{
    let cs = chars_of(text);
    let nl = vec!['\n'];
    assert(nl@ =~= seq!['\n']);
    let lines = split_vec(cs.as_slice(), nl.as_slice());
    let ghost l = lines@.map_values(|x: Vec<char>| x@);
    let mut out: Vec<String> = Vec::new();
    let mut i: usize = 0;
    while i < lines.len()
        invariant
            i <= lines@.len(),
            l == lines@.map_values(|x: Vec<char>| x@),
            string_views(out@) == rules_of(l.take(i as int)),
        decreases lines@.len() - i,
    {
        assert(l.take(i + 1).drop_last() =~= l.take(i as int));
        assert(l.take(i + 1).last() == lines@[i as int]@);
        let t = trim_vec(lines[i].as_slice());
        if t.len() > 0 {
            let ghost before = string_views(out@);
            let ts = string_of(t.as_slice());
            out.push(ts);
            assert(string_views(out@) =~= before.push(t@));
        }
        i = i + 1;
    }
    assert(l.take(lines@.len() as int) =~= l);
    out
}

/// The confirmation after saving the blocklist: `Saved (n rules)`, or
/// `rule` for one.
pub fn blocklist_saved_text(n: usize) -> (r: String)
    ensures
        r@ == "Saved ("@ + digits_of(n as nat) + (if n == 1 {
            " rule)"@
        } else {
            " rules)"@
        }),
{
    let mut s = String::new();
    s.append("Saved (");
    let d = u64_text(n as u64);
    s.append(d.as_str());
    if n == 1 {
        s.append(" rule)");
    } else {
        s.append(" rules)");
    }
    s
}

/// The editor text after picking a window title: the title on a new line
/// after the text without its trailing whitespace, or alone when that is
/// empty.
pub fn add_blocklist_title(text: &str, title: String) -> (r: String)
    ensures
        r@ == if trim_end(text@).len() == 0 {
            title@
        } else {
            trim_end(text@) + seq!['\n'] + title@
        },
{
    let cs = chars_of(text);
    let t = crate::text::trim_end_vec(cs.as_slice());
    if t.len() == 0 {
        title
    } else {
        let mut out = string_of(t.as_slice());
        out.append("\n");
        out.append(title.as_str());
        proof {
            reveal_strlit("\n");
        }
        out
    }
}

// ---------------------------------------------------------------------
// Appearance share codes

/// The share-code prefix `FMA1:`.
pub open spec fn share_prefix() -> Seq<char> {
    seq!['F', 'M', 'A', '1', ':']
}

/// The share code of an appearance document (its JSON text as bytes):
/// the prefix and the Base64 of the bytes.
pub fn share_code(json: &[u8]) -> (r: String)
    ensures
        r@ == share_prefix() + base64_encoding(json@),
        share_payload_of(r@) == Some(json@),
{
    let mut s = String::new();
    s.append("FMA1:");
    proof {
        reveal_strlit("FMA1:");
    }
    let b = base64_encode(json);
    s.append(b.as_str());
    proof {
        assert(s@ =~= share_prefix() + base64_encoding(json@));
        assert(base64_decoding(base64_encoding(json@)) == Some(json@));
        law_share_code_round_trip(json@);
    }
    s
}

/// The document bytes a share code carries: the trimmed code must start
/// with the prefix and the rest be Base64.
pub open spec fn share_payload_of(code: Seq<char>) -> Option<Seq<u8>> {
    let t = trim(code);
    if crate::text::starts_with(t, share_prefix()) {
        base64_decoding(t.skip(5))
    } else {
        None
    }
}

pub fn share_code_payload(code: &str) -> (r: Option<Vec<u8>>)
    ensures
        match r {
            Some(b) => share_payload_of(code@) == Some(b@),
            None => share_payload_of(code@) is None,
        },
{
    let cs = chars_of(code);
    let t = trim_vec(cs.as_slice());
    let pre = vec!['F', 'M', 'A', '1', ':'];
    assert(pre@ =~= share_prefix());
    if !starts_with_seq(t.as_slice(), pre.as_slice()) {
        return None;
    }
    let rest = slice_range(t.as_slice(), 5, t.len());
    assert(rest@ =~= t@.skip(5));
    let rs = string_of(rest.as_slice());
    match base64_decode(rs.as_str()) {
        Ok(v) => Some(v),
        Err(_) => None,
    }
}

/// The JSON text a share code carries: its payload read as UTF-8.
pub open spec fn share_text_of(code: Seq<char>) -> Option<Seq<char>> {
    match share_payload_of(code) {
        Some(b) => if vstd::utf8::valid_utf8(b) {
            Some(vstd::utf8::decode_utf8(b))
        } else {
            None
        },
        None => None,
    }
}

/// The fields of an appearance in its share code, in order: `bg`, `tile`,
/// `accent`, `text`, `muted`, `skin`, and the fonts `pf`, `sf`, `if`
/// (null for the default font).
pub open spec fn appearance_fields(a: Appearance) -> Seq<(Seq<char>, Option<Seq<char>>)> {
    seq![
        ("bg"@, Some(a.bg@)),
        ("tile"@, Some(a.tile@)),
        ("accent"@, Some(a.accent@)),
        ("text"@, Some(a.text@)),
        ("muted"@, Some(a.muted@)),
        ("skin"@, Some(a.skin@)),
        ("pf"@, opt_view(a.primary_font)),
        ("sf"@, opt_view(a.secondary_font)),
        ("if"@, opt_view(a.indicator_font)),
    ]
}

fn clone_opt(o: &Option<String>) -> (r: Option<String>)
    ensures
        opt_view(r) == opt_view(*o),
{
    match o {
        Some(s) => Some(s.clone()),
        None => None,
    }
}

/// The keys of an appearance's share-code fields are distinct.
proof fn lemma_appearance_keys_distinct(a: Appearance)
    ensures
        distinct_keys(appearance_fields(a)),
{
    reveal_strlit("bg");
    reveal_strlit("tile");
    reveal_strlit("accent");
    reveal_strlit("text");
    reveal_strlit("muted");
    reveal_strlit("skin");
    reveal_strlit("pf");
    reveal_strlit("sf");
    reveal_strlit("if");
    let f = appearance_fields(a);
    assert forall|i: int, j: int| 0 <= i < j < f.len() implies #[trigger] f[i].0 != #[trigger] f[j].0 by {
        let k = f[i].0;
        let l = f[j].0;
        if k.len() == l.len() {
            assert(k[0] != l[0] || k[1] != l[1]);
        }
    }
}

/// What an exported share code is: its payload is the UTF-8 of the JSON
/// object of the appearance's fields, and each field reads back from it.
pub open spec fn exported_code(a: Appearance, code: Seq<char>) -> bool {
    &&& share_text_of(code) == Some(json_object_text(appearance_fields(a)))
    &&& forall|i: int|
        0 <= i < appearance_fields(a).len() ==> json_string_field(
            json_object_text(appearance_fields(a)),
            #[trigger] appearance_fields(a)[i].0,
        ) == Ok::<Option<Seq<char>>, Seq<char>>(appearance_fields(a)[i].1)
}

/// The share code of an appearance: the JSON object of its fields, as
/// UTF-8, behind the share prefix in Base64.
pub fn appearance_share_code(a: &Appearance) -> (r: String)
    ensures
        r@ == share_prefix() + base64_encoding(vstd::utf8::encode_utf8(json_object_text(appearance_fields(*a)))),
        exported_code(*a, r@),
{
    let mut fields: Vec<(String, Option<String>)> = Vec::new();
    fields.push(("bg".to_owned(), Some(a.bg.clone())));
    fields.push(("tile".to_owned(), Some(a.tile.clone())));
    fields.push(("accent".to_owned(), Some(a.accent.clone())));
    fields.push(("text".to_owned(), Some(a.text.clone())));
    fields.push(("muted".to_owned(), Some(a.muted.clone())));
    fields.push(("skin".to_owned(), Some(a.skin.clone())));
    fields.push(("pf".to_owned(), clone_opt(&a.primary_font)));
    fields.push(("sf".to_owned(), clone_opt(&a.secondary_font)));
    fields.push(("if".to_owned(), clone_opt(&a.indicator_font)));
    assert(fields_view(fields@) =~= appearance_fields(*a));
    proof {
        lemma_appearance_keys_distinct(*a);
    }
    let json = json_object(fields);
    let r = share_code(json.as_str().as_bytes());
    proof {
        vstd::utf8::encode_utf8_valid_utf8(json@);
        vstd::utf8::encode_utf8_decode_utf8(json@);
    }
    r
}

/// The keys a share code's fields are read from.
pub open spec fn share_keys() -> Seq<Seq<char>> {
    seq!["bg"@, "tile"@, "accent"@, "text"@, "muted"@, "skin"@, "pf"@, "sf"@, "if"@]
}

/// The field `key` of a JSON text, when it reads as JSON.
pub open spec fn field_of(t: Seq<char>, key: Seq<char>) -> Option<Seq<char>> {
    match json_string_field(t, key) {
        Ok(v) => v,
        Err(_) => None,
    }
}

/// What an imported share code gives: nothing when the code has no UTF-8
/// payload or the payload is not JSON; else the string fields it names.
pub open spec fn share_fields_of(code: Seq<char>, f: ShareFields) -> bool {
    match share_text_of(code) {
        Some(t) => {
            &&& forall|i: int| 0 <= i < share_keys().len() ==> json_string_field(t, #[trigger] share_keys()[i]) is Ok
            &&& opt_view(f.bg) == field_of(t, "bg"@)
            &&& opt_view(f.tile) == field_of(t, "tile"@)
            &&& opt_view(f.accent) == field_of(t, "accent"@)
            &&& opt_view(f.text) == field_of(t, "text"@)
            &&& opt_view(f.muted) == field_of(t, "muted"@)
            &&& opt_view(f.skin) == field_of(t, "skin"@)
            &&& opt_view(f.primary_font) == field_of(t, "pf"@)
            &&& opt_view(f.secondary_font) == field_of(t, "sf"@)
            &&& opt_view(f.indicator_font) == field_of(t, "if"@)
        },
        None => false,
    }
}

/// The fields of an imported share code; nothing when it is not one, its
/// payload is not UTF-8 or not JSON.
pub fn share_fields(code: &str) -> (r: Option<ShareFields>)
    ensures
        match r {
            Some(f) => share_fields_of(code@, f),
            None => match share_text_of(code@) {
                Some(t) => exists|i: int| 0 <= i < share_keys().len() && json_string_field(t, #[trigger] share_keys()[i]) is Err,
                None => true,
            },
        },
{
    let bytes = match share_code_payload(code) {
        Some(b) => b,
        None => return None,
    };
    let t = match utf8_text(bytes) {
        Some(t) => t,
        None => return None,
    };
    let ts = t.as_str();
    proof {
        reveal_strlit("bg");
        reveal_strlit("tile");
        reveal_strlit("accent");
        reveal_strlit("text");
        reveal_strlit("muted");
        reveal_strlit("skin");
        reveal_strlit("pf");
        reveal_strlit("sf");
        reveal_strlit("if");
    }
    let ghost keys = share_keys();
    let bg = match json_field(ts, "bg") {
        Ok(v) => v,
        Err(_) => {
            assert(json_string_field(t@, keys[0]) is Err);
            return None;
        },
    };
    let tile = match json_field(ts, "tile") {
        Ok(v) => v,
        Err(_) => {
            assert(json_string_field(t@, keys[1]) is Err);
            return None;
        },
    };
    let accent = match json_field(ts, "accent") {
        Ok(v) => v,
        Err(_) => {
            assert(json_string_field(t@, keys[2]) is Err);
            return None;
        },
    };
    let text = match json_field(ts, "text") {
        Ok(v) => v,
        Err(_) => {
            assert(json_string_field(t@, keys[3]) is Err);
            return None;
        },
    };
    let muted = match json_field(ts, "muted") {
        Ok(v) => v,
        Err(_) => {
            assert(json_string_field(t@, keys[4]) is Err);
            return None;
        },
    };
    let skin = match json_field(ts, "skin") {
        Ok(v) => v,
        Err(_) => {
            assert(json_string_field(t@, keys[5]) is Err);
            return None;
        },
    };
    let primary_font = match json_field(ts, "pf") {
        Ok(v) => v,
        Err(_) => {
            assert(json_string_field(t@, keys[6]) is Err);
            return None;
        },
    };
    let secondary_font = match json_field(ts, "sf") {
        Ok(v) => v,
        Err(_) => {
            assert(json_string_field(t@, keys[7]) is Err);
            return None;
        },
    };
    let indicator_font = match json_field(ts, "if") {
        Ok(v) => v,
        Err(_) => {
            assert(json_string_field(t@, keys[8]) is Err);
            return None;
        },
    };
    assert forall|i: int| 0 <= i < keys.len() implies json_string_field(t@, #[trigger] keys[i]) is Ok by {
        assert(i == 0 || i == 1 || i == 2 || i == 3 || i == 4 || i == 5 || i == 6 || i == 7 || i == 8);
    }
    Some(
        ShareFields {
            bg,
            tile,
            accent,
            text,
            muted,
            skin,
            primary_font,
            secondary_font,
            indicator_font,
        },
    )
}

/// Importing an exported share code gives back the appearance it was made
/// from: every field reads, so the import succeeds, and the imported fields
/// are the appearance's colours, skin and fonts.
pub proof fn law_share_code_imports(a: Appearance, code: Seq<char>, f: ShareFields)
    requires
        exported_code(a, code),
    ensures
        share_text_of(code) matches Some(t) && forall|i: int|
            0 <= i < share_keys().len() ==> json_string_field(t, #[trigger] share_keys()[i]) is Ok,
        share_fields_of(code, f) ==> {
            &&& opt_view(f.bg) == Some(a.bg@)
            &&& opt_view(f.tile) == Some(a.tile@)
            &&& opt_view(f.accent) == Some(a.accent@)
            &&& opt_view(f.text) == Some(a.text@)
            &&& opt_view(f.muted) == Some(a.muted@)
            &&& opt_view(f.skin) == Some(a.skin@)
            &&& opt_view(f.primary_font) == opt_view(a.primary_font)
            &&& opt_view(f.secondary_font) == opt_view(a.secondary_font)
            &&& opt_view(f.indicator_font) == opt_view(a.indicator_font)
        },
{
    let af = appearance_fields(a);
    let t = json_object_text(af);
    assert(af.len() == 9);
    assert forall|i: int| 0 <= i < share_keys().len() implies json_string_field(t, #[trigger] share_keys()[i]) is Ok by {
        assert(share_keys()[i] == af[i].0);
        assert(json_string_field(t, af[i].0) == Ok::<Option<Seq<char>>, Seq<char>>(af[i].1));
    }
    assert(json_string_field(t, af[0].0) == Ok::<Option<Seq<char>>, Seq<char>>(af[0].1));
    assert(json_string_field(t, af[1].0) == Ok::<Option<Seq<char>>, Seq<char>>(af[1].1));
    assert(json_string_field(t, af[2].0) == Ok::<Option<Seq<char>>, Seq<char>>(af[2].1));
    assert(json_string_field(t, af[3].0) == Ok::<Option<Seq<char>>, Seq<char>>(af[3].1));
    assert(json_string_field(t, af[4].0) == Ok::<Option<Seq<char>>, Seq<char>>(af[4].1));
    assert(json_string_field(t, af[5].0) == Ok::<Option<Seq<char>>, Seq<char>>(af[5].1));
    assert(json_string_field(t, af[6].0) == Ok::<Option<Seq<char>>, Seq<char>>(af[6].1));
    assert(json_string_field(t, af[7].0) == Ok::<Option<Seq<char>>, Seq<char>>(af[7].1));
    assert(json_string_field(t, af[8].0) == Ok::<Option<Seq<char>>, Seq<char>>(af[8].1));
}

/// The text a share code is made of comes back out of it: UTF-8 survives
/// the Base64 round trip.
pub proof fn law_share_text_round_trip(t: Seq<char>)
    requires
        base64_decoding(base64_encoding(vstd::utf8::encode_utf8(t))) == Some(vstd::utf8::encode_utf8(t)),
        forall|i: int|
            0 <= i < base64_encoding(vstd::utf8::encode_utf8(t)).len() ==> crate::crypto::is_base64_char(
                #[trigger] base64_encoding(vstd::utf8::encode_utf8(t))[i],
            ),
    ensures
        share_text_of(share_prefix() + base64_encoding(vstd::utf8::encode_utf8(t))) == Some(t),
{
    let b = vstd::utf8::encode_utf8(t);
    law_share_code_round_trip(b);
    vstd::utf8::encode_utf8_valid_utf8(t);
    vstd::utf8::encode_utf8_decode_utf8(t);
}

/// A share code gives back the document it was made from.
pub proof fn law_share_code_round_trip(json: Seq<u8>)
    requires
        base64_decoding(base64_encoding(json)) == Some(json),
        forall|i: int|
            0 <= i < base64_encoding(json).len() ==> crate::crypto::is_base64_char(
                #[trigger] base64_encoding(json)[i],
            ),
    ensures
        share_payload_of(share_prefix() + base64_encoding(json)) == Some(json),
{
    let code = share_prefix() + base64_encoding(json);
    assert forall|i: int| 0 <= i < code.len() implies !is_ws(#[trigger] code[i]) by {
        if i >= 5 {
            assert(crate::crypto::is_base64_char(base64_encoding(json)[i - 5]));
        }
    }
    crate::protocol::lemma_trim_no_ws(code);
    assert(code.subrange(0, 5) =~= share_prefix());
    assert(code.skip(5) =~= base64_encoding(json));
}

/// The appearance fields read from a share code's document: each is the
/// field's text when it is a string.
#[derive(Debug)]
pub struct ShareFields {
    pub bg: Option<String>,
    pub tile: Option<String>,
    pub accent: Option<String>,
    pub text: Option<String>,
    pub muted: Option<String>,
    pub skin: Option<String>,
    pub primary_font: Option<String>,
    pub secondary_font: Option<String>,
    pub indicator_font: Option<String>,
}

/// Apply an imported appearance: a missing colour or skin keeps the
/// current one; the fonts are taken as they are (missing means default).
pub fn apply_share_fields(a: &mut Appearance, f: ShareFields)
    ensures
        final(a).bg@ == match f.bg {
            Some(v) => v@,
            None => old(a).bg@,
        },
        final(a).tile@ == match f.tile {
            Some(v) => v@,
            None => old(a).tile@,
        },
        final(a).accent@ == match f.accent {
            Some(v) => v@,
            None => old(a).accent@,
        },
        final(a).text@ == match f.text {
            Some(v) => v@,
            None => old(a).text@,
        },
        final(a).muted@ == match f.muted {
            Some(v) => v@,
            None => old(a).muted@,
        },
        final(a).skin@ == match f.skin {
            Some(v) => v@,
            None => old(a).skin@,
        },
        final(a).primary_font == f.primary_font,
        final(a).secondary_font == f.secondary_font,
        final(a).indicator_font == f.indicator_font,
{
    match f.bg {
        Some(v) => a.bg = v,
        None => {},
    }
    match f.tile {
        Some(v) => a.tile = v,
        None => {},
    }
    match f.accent {
        Some(v) => a.accent = v,
        None => {},
    }
    match f.text {
        Some(v) => a.text = v,
        None => {},
    }
    match f.muted {
        Some(v) => a.muted = v,
        None => {},
    }
    match f.skin {
        Some(v) => a.skin = v,
        None => {},
    }
    a.primary_font = f.primary_font;
    a.secondary_font = f.secondary_font;
    a.indicator_font = f.indicator_font;
}

// ---------------------------------------------------------------------
// Status texts

/// The update line after a check, and its tone (0 neutral, 1 good, 2 bad).
pub fn update_check_status(result: &CheckResult) -> (r: (String, u8))
    ensures
        match result {
            CheckResult::UpToDate => r.0@ == "Up to date"@ && r.1 == 1,
            CheckResult::Available(_) => r.0@.len() == 0 && r.1 == 0,
            CheckResult::Failed(_) => r.0@ == "Check failed \u{2014} try again later"@ && r.1 == 2,
        },
{
    match result {
        CheckResult::UpToDate => ("Up to date".to_owned(), 1),
        CheckResult::Available(_) => (String::new(), 0),
        CheckResult::Failed(_) => ("Check failed \u{2014} try again later".to_owned(), 2),
    }
}

/// The update line after a failed download.
pub fn download_failed_status(e: &str) -> (r: String)
    ensures
        r@ == "Download failed: "@ + e@,
{
    let mut s = String::new();
    s.append("Download failed: ");
    s.append(e);
    s
}

/// When the last update check ran, relative to now: minutes and whole
/// hours since then, and its date as `Mon DD`.
#[derive(Debug)]
pub struct CheckedAgo {
    pub minutes: i64,
    pub hours: i64,
    pub date: String,
}

/// The "last checked" line: never (no or unreadable time), just now, in
/// minutes below an hour, in hours below a day, else the date.
pub fn last_checked_label(ago: Option<CheckedAgo>) -> (r: String)
    ensures
        r@ == match ago {
            None => "Last checked: never"@,
            Some(a) => if a.minutes < 1 {
                "Last checked: just now"@
            } else if a.minutes < 60 {
                "Last checked: "@ + decimal_text(a.minutes as int) + " min ago"@
            } else if a.hours < 24 {
                "Last checked: "@ + decimal_text(a.hours as int) + "h ago"@
            } else {
                "Last checked: "@ + a.date@
            },
        },
{
    match ago {
        None => "Last checked: never".to_owned(),
        Some(a) => {
            if a.minutes < 1 {
                "Last checked: just now".to_owned()
            } else if a.minutes < 60 {
                let mut s = String::new();
                s.append("Last checked: ");
                let d = i64_text(a.minutes);
                s.append(d.as_str());
                s.append(" min ago");
                s
            } else if a.hours < 24 {
                let mut s = String::new();
                s.append("Last checked: ");
                let d = i64_text(a.hours);
                s.append(d.as_str());
                s.append("h ago");
                s
            } else {
                let mut s = String::new();
                s.append("Last checked: ");
                s.append(a.date.as_str());
                s
            }
        },
    }
}

/// The text of a hotkey field: waiting for keys, unset, or the combination.
pub fn hotkey_label(combo: &str, capturing: bool) -> (r: String)
    ensures
        r@ == if capturing {
            "(press keys\u{2026})"@
        } else if combo@.len() == 0 {
            "(click to set)"@
        } else {
            combo@
        },
{
    if capturing {
        "(press keys\u{2026})".to_owned()
    } else if combo.is_empty() {
        "(click to set)".to_owned()
    } else {
        combo.to_owned()
    }
}

/// How the temperature-driver installer or uninstaller ended.
#[derive(Debug)]
pub enum DriverResult {
    Installed,
    AlreadyPresent,
    Cancelled,
    Failed,
}

/// The panel the temperature-driver dialog shows.
#[derive(Debug)]
pub enum DriverStage {
    Primary,
    Info,
    Progress(String),
    Done { ok: bool, title: String, body: String, show_fallback: bool },
}

/// The dialog after installing the driver: done, back to the start when
/// the user declined, or failed with the fallback offered.
pub fn driver_install_stage(result: DriverResult, detail: String) -> (r: DriverStage)
    ensures
        match result {
            DriverResult::Installed | DriverResult::AlreadyPresent => r matches DriverStage::Done {
                ok,
                title,
                body,
                show_fallback,
            } && ok && !show_fallback && title@ == "CPU temperature is on"@ && body@
                == "The sensor driver is installed. Your CPU temperature now appears on the widget."@,
            DriverResult::Cancelled => r is Primary,
            DriverResult::Failed => r matches DriverStage::Done { ok, title, body, show_fallback }
                && !ok && show_fallback && title@ == "Automatic setup didn't finish"@ && body@ == (
            if detail@.len() == 0 {
                "The automatic install didn't complete."@
            } else {
                detail@
            }),
        },
{
    match result {
        DriverResult::Installed | DriverResult::AlreadyPresent => DriverStage::Done {
            ok: true,
            title: "CPU temperature is on".to_owned(),
            body: "The sensor driver is installed. Your CPU temperature now appears on the widget.".to_owned(),
            show_fallback: false,
        },
        DriverResult::Cancelled => DriverStage::Primary,
        DriverResult::Failed => DriverStage::Done {
            ok: false,
            title: "Automatic setup didn't finish".to_owned(),
            body: if detail.as_str().is_empty() {
                "The automatic install didn't complete.".to_owned()
            } else {
                detail
            },
            show_fallback: true,
        },
    }
}

/// The dialog after removing the driver.
pub fn driver_uninstall_stage(result: DriverResult, detail: String) -> (r: DriverStage)
    ensures
        match result {
            DriverResult::Installed | DriverResult::AlreadyPresent => r matches DriverStage::Done {
                ok,
                title,
                body,
                show_fallback,
            } && ok && !show_fallback && title@ == "Sensor driver removed"@ && body@
                == "The CPU sensor driver was removed. CPU temperature returns to the opt-in hint."@,
            DriverResult::Cancelled => r is Primary,
            DriverResult::Failed => r matches DriverStage::Done { ok, title, body, show_fallback }
                && !ok && !show_fallback && title@ == "Couldn't remove the driver"@ && body@ == (
            if detail@.len() == 0 {
                "The uninstaller didn't complete."@
            } else {
                detail@
            }),
        },
{
    match result {
        DriverResult::Installed | DriverResult::AlreadyPresent => DriverStage::Done {
            ok: true,
            title: "Sensor driver removed".to_owned(),
            body: "The CPU sensor driver was removed. CPU temperature returns to the opt-in hint.".to_owned(),
            show_fallback: false,
        },
        DriverResult::Cancelled => DriverStage::Primary,
        DriverResult::Failed => DriverStage::Done {
            ok: false,
            title: "Couldn't remove the driver".to_owned(),
            body: if detail.as_str().is_empty() {
                "The uninstaller didn't complete.".to_owned()
            } else {
                detail
            },
            show_fallback: false,
        },
    }
}

// ---------------------------------------------------------------------
// Views handed to the settings panel

/// The remote-monitoring part of the settings panel.
#[derive(Debug)]
pub struct RemoteView {
    pub feed_on: bool,
    pub handshake_key: String,
    pub devices: Vec<RemoteDevice>,
    /// Connection state by device id.
    pub conn: std::collections::HashMap<String, bool>,
    pub add_open: bool,
    pub new_name: String,
    pub new_ip: String,
    pub new_key: String,
    pub test_status: String,
    pub test_ok: bool,
}

/// The updates part of the settings panel.
#[derive(Debug)]
pub struct UpdateView {
    pub current_version: String,
    pub mode: UpdateMode,
    pub last_checked: String,
    pub status: String,
    /// 0 neutral, 1 good, 2 bad.
    pub status_kind: u8,
    /// Version and changelog of an available update.
    pub available: Option<(String, String)>,
}

} // verus!
