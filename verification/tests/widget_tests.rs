use flux::settings::{Orientation, PresetSlot, UpdateMode};
use flux::updates::{CheckResult, PendingUpdate};
use flux::widget::{
    add_blocklist_title, adapter_setting, appearance_share_code, apply_preset, change_appearance,
    snapshot_appearance, undo_appearance, save_device_form, FormSave, apply_share_fields, blank_slot,
    blocklist_rules, blocklist_saved_text, can_add_device, check_device_form, current_tiles,
    delete_preset, device_id, disk_label_cycle, download_failed_status, driver_install_stage,
    driver_uninstall_stage, effective_orientation, hotkey_label, kind_key, last_checked_label,
    pop_undo, push_undo, remove_device, save_device, save_to_slot, set_font, share_code,
    share_code_payload, share_fields, signed, slot_click, switch_widget_device, toggle_game_mode_tile,
    toggle_tile, traffic_cycle, truncate, update_check_status, update_mode_of, Appearance,
    CheckedAgo, DriverResult, DriverStage, Fonts, RemoteDevice, ShareFields, SlotClick,
    TileFields, WindowKind, MAX_DEVICES, UNDO_LIMIT,
};

fn s(v: &[&str]) -> Vec<String> {
    v.iter().map(|x| x.to_string()).collect()
}

fn appearance(tag: &str) -> Appearance {
    Appearance {
        bg: format!("bg-{tag}"),
        tile: format!("tile-{tag}"),
        accent: format!("accent-{tag}"),
        text: format!("text-{tag}"),
        muted: format!("muted-{tag}"),
        skin: format!("skin-{tag}"),
        primary_font: None,
        secondary_font: Some("Mono".into()),
        indicator_font: None,
    }
}

fn device(id: &str, host: &str) -> RemoteDevice {
    RemoteDevice { id: id.into(), name: format!("dev {id}"), host: host.into(), port: 5199, key: "k".into() }
}

#[test]
fn popup_position_keys() {
    assert_eq!(kind_key(WindowKind::Alerts), Some("alerts"));
    assert_eq!(kind_key(WindowKind::ConfirmDelete), Some("confirmdelete"));
    assert_eq!(kind_key(WindowKind::Widget), None);
    assert_eq!(kind_key(WindowKind::WidgetMenu), None);
}

#[test]
fn text_helpers() {
    assert_eq!(truncate("Network", 10), "Network");
    assert_eq!(truncate("Ethernet adapter", 8), "Etherne\u{2026}");
    assert_eq!(truncate("abc", 0), "\u{2026}");
    assert_eq!(device_id(0x1a2b, 0), "1a2b0");
    assert_eq!(device_id(255, 16), "ff10");
    assert_eq!(signed(3), "+3pt");
    assert_eq!(signed(0), "0pt");
    assert_eq!(signed(-2), "-2pt");
}

#[test]
fn orientation_in_game_mode() {
    assert!(matches!(effective_orientation(true, "Horizontal", Orientation::Vertical), Orientation::Horizontal));
    assert!(matches!(effective_orientation(true, "Current", Orientation::Vertical), Orientation::Vertical));
    assert!(matches!(effective_orientation(false, "Horizontal", Orientation::Vertical), Orientation::Vertical));
}

#[test]
fn tiles_show_in_fixed_order() {
    let visible = s(&["Disk", "CPU", "Nonsense", "GPU", "CPU"]);
    let game = s(&["RAM"]);
    assert_eq!(current_tiles(false, &game, &visible), s(&["CPU", "GPU", "Disk"]));
    assert_eq!(current_tiles(true, &game, &visible), s(&["RAM"]));
    assert_eq!(current_tiles(false, &game, &vec![]), Vec::<String>::new());
}

#[test]
fn cycling_choices() {
    assert_eq!(traffic_cycle("Off"), "Blink");
    assert_eq!(traffic_cycle("Glow"), "Off");
    assert_eq!(traffic_cycle("weird"), "Blink");
    let mut m = "Fade".to_string();
    for _ in 0..4 {
        m = traffic_cycle(&m);
    }
    assert_eq!(m, "Fade");
    assert_eq!(disk_label_cycle("Letter"), "Model");
    assert_eq!(disk_label_cycle("Both"), "Letter");
    assert!(matches!(update_mode_of("Auto"), UpdateMode::Auto));
    assert!(matches!(update_mode_of("Off"), UpdateMode::Off));
    assert!(matches!(update_mode_of("auto"), UpdateMode::Manual));
    assert_eq!(adapter_setting("All adapters".into()), "");
    assert_eq!(adapter_setting("Wi-Fi".into()), "Wi-Fi");
}

#[test]
fn tile_field_switches() {
    let mut f = TileFields::all_on();
    f.set_field("gpu_vram", false);
    assert!(!f.gpu_show_vram);
    assert!(f.gpu_show_clock && f.cpu_show_temp);
    f.set_field("unknown", false);
    f.set_field("clock_date", false);
    assert!(!f.clock_show_date);
}

#[test]
fn toggling_tiles() {
    let mut visible = s(&["CPU"]);
    let mut order = s(&["CPU"]);
    toggle_tile(&mut visible, &mut order, "GPU".into(), true);
    toggle_tile(&mut visible, &mut order, "GPU".into(), true);
    assert_eq!(visible, s(&["CPU", "GPU"]));
    assert_eq!(order, s(&["CPU", "GPU"]));
    toggle_tile(&mut visible, &mut order, "CPU".into(), false);
    assert_eq!(visible, s(&["GPU"]));
    assert_eq!(order, s(&["CPU", "GPU"]));
    let mut game = s(&["RAM", "CPU", "RAM"]);
    toggle_game_mode_tile(&mut game, "RAM".into(), false);
    assert_eq!(game, s(&["CPU"]));
}

#[test]
fn undo_keeps_the_last_five() {
    let mut stack = Vec::new();
    for i in 0..7 {
        push_undo(&mut stack, appearance(&i.to_string()));
        assert!(stack.len() <= UNDO_LIMIT);
    }
    assert_eq!(stack.len(), 5);
    assert_eq!(stack[0].bg, "bg-2");
    assert_eq!(pop_undo(&mut stack).unwrap().bg, "bg-6");
    assert_eq!(stack.len(), 4);
    let mut empty: Vec<Appearance> = Vec::new();
    assert!(pop_undo(&mut empty).is_none());
}

#[test]
fn font_choices() {
    let mut f = Fonts { primary: None, secondary: None, indicator: None };
    set_font(&mut f, true, 1, "Inter".into());
    assert_eq!((f.primary.as_deref(), f.secondary.as_deref(), f.indicator.as_deref()), (Some("Inter"), Some("Inter"), Some("Inter")));
    set_font(&mut f, false, 0, "".into());
    assert_eq!((f.primary.as_deref(), f.secondary.as_deref()), (None, Some("Inter")));
    set_font(&mut f, false, 9, "Mono".into());
    assert_eq!(f.indicator.as_deref(), Some("Mono"));
}

#[test]
fn preset_slots() {
    let mut presets: Vec<PresetSlot> = Vec::new();
    save_to_slot(&mut presets, 2, &appearance("a"));
    assert_eq!(presets.len(), 3);
    assert_eq!(presets[2].name, "Slot 3");
    assert_eq!(presets[2].accent, "accent-a");
    assert!(presets[0].accent.is_empty() && presets[1].name.is_empty());
    assert_eq!(slot_click(&presets, None, 2), SlotClick::Apply);
    assert_eq!(slot_click(&presets, None, 0), SlotClick::Arm);
    assert_eq!(slot_click(&presets, Some(0), 0), SlotClick::Save);
    assert_eq!(slot_click(&presets, None, 7), SlotClick::Arm);
    let mut a = appearance("b");
    apply_preset(&mut a, &presets[2]);
    assert_eq!(a.skin, "skin-a");
    assert_eq!(a.secondary_font.as_deref(), Some("Mono"));
    save_to_slot(&mut presets, 0, &appearance("c"));
    delete_preset(&mut presets, 2);
    assert_eq!(presets.len(), 1);
    assert_eq!(presets[0].accent, "accent-c");
    delete_preset(&mut presets, 5);
    assert_eq!(presets.len(), 1);
    delete_preset(&mut presets, 0);
    assert!(presets.is_empty());
    assert!(blank_slot().accent.is_empty());
}

#[test]
fn remote_device_list() {
    let key = flux::protocol::encode_handshake_key(&[1; 32], &[2; 32]);
    let form = check_device_form("  Desk ", " 10.0.0.5 ", &format!(" {key} ")).unwrap();
    assert_eq!(form, ("Desk".to_string(), "10.0.0.5".to_string(), key.clone()));
    assert!(check_device_form("", "10.0.0.5", &key).is_none());
    assert!(check_device_form("Desk", "10.0.0.5", "FM1:AAAA").is_none());

    let mut devices = Vec::new();
    for i in 0..MAX_DEVICES {
        assert!(can_add_device(&devices));
        assert!(save_device(&mut devices, device(&i.to_string(), "h")));
    }
    assert!(!can_add_device(&devices));
    assert!(!save_device(&mut devices, device("x", "h")));
    assert_eq!(devices.len(), MAX_DEVICES);

    let mut shown = Some("3".to_string());
    remove_device(&mut devices, &mut shown, "3");
    assert_eq!(shown, None);
    assert_eq!(devices.len(), 4);
    let mut other = Some("1".to_string());
    remove_device(&mut devices, &mut other, "4");
    assert_eq!(other.as_deref(), Some("1"));
    assert_eq!(switch_widget_device(&devices, Some("1".into())).as_deref(), Some("1"));
    assert_eq!(switch_widget_device(&devices, Some("3".into())), None);
    assert_eq!(switch_widget_device(&devices, None), None);
}

#[test]
fn snap_blocklist_editing() {
    assert_eq!(blocklist_rules("  Steam \r\n\n Discord\n"), s(&["Steam", "Discord"]));
    assert!(blocklist_rules("   ").is_empty());
    assert_eq!(blocklist_saved_text(1), "Saved (1 rule)");
    assert_eq!(blocklist_saved_text(3), "Saved (3 rules)");
    assert_eq!(add_blocklist_title("Steam\n  ", "Discord".into()), "Steam\nDiscord");
    assert_eq!(add_blocklist_title(" \n", "Discord".into()), "Discord");
}

#[test]
fn share_codes_round_trip() {
    let json = br##"{"accent":"#FF00A8FF","bg":"#E61E1E22"}"##;
    let code = share_code(json);
    assert!(code.starts_with("FMA1:"));
    assert_eq!(share_code_payload(&format!("  {code}\n")).unwrap(), json.to_vec());
    assert!(share_code_payload("FMA2:abc").is_none());
    assert!(share_code_payload("FMA1:***").is_none());
    let mut a = appearance("z");
    apply_share_fields(
        &mut a,
        ShareFields {
            bg: Some("#000".into()),
            tile: None,
            accent: None,
            text: None,
            muted: None,
            skin: Some("Neon".into()),
            primary_font: Some("Inter".into()),
            secondary_font: None,
            indicator_font: None,
        },
    );
    assert_eq!(a.bg, "#000");
    assert_eq!(a.tile, "tile-z");
    assert_eq!(a.skin, "Neon");
    assert_eq!(a.primary_font.as_deref(), Some("Inter"));
    assert_eq!(a.secondary_font, None);
}

#[test]
fn status_lines() {
    assert_eq!(update_check_status(&CheckResult::UpToDate), ("Up to date".to_string(), 1));
    assert_eq!(update_check_status(&CheckResult::Failed("x".into())), ("Check failed \u{2014} try again later".to_string(), 2));
    let u = PendingUpdate { version: "1".into(), changelog: String::new(), url: String::new(), sha256: None };
    assert_eq!(update_check_status(&CheckResult::Available(u)), (String::new(), 0));
    assert_eq!(download_failed_status("HTTP 404"), "Download failed: HTTP 404");
    assert_eq!(last_checked_label(None), "Last checked: never");
    let ago = |m: i64, h: i64| Some(CheckedAgo { minutes: m, hours: h, date: "Mar 04".into() });
    assert_eq!(last_checked_label(ago(0, 0)), "Last checked: just now");
    assert_eq!(last_checked_label(ago(42, 0)), "Last checked: 42 min ago");
    assert_eq!(last_checked_label(ago(125, 2)), "Last checked: 2h ago");
    assert_eq!(last_checked_label(ago(3000, 50)), "Last checked: Mar 04");
    assert_eq!(hotkey_label("Ctrl+Alt+G", true), "(press keys\u{2026})");
    assert_eq!(hotkey_label("", false), "(click to set)");
    assert_eq!(hotkey_label("Ctrl+Alt+G", false), "Ctrl+Alt+G");
}

#[test]
fn driver_dialog_stages() {
    match driver_install_stage(DriverResult::Installed, String::new()) {
        DriverStage::Done { ok, title, show_fallback, .. } => {
            assert!(ok && !show_fallback);
            assert_eq!(title, "CPU temperature is on");
        }
        other => panic!("unexpected {other:?}"),
    }
    assert!(matches!(driver_install_stage(DriverResult::Cancelled, String::new()), DriverStage::Primary));
    match driver_install_stage(DriverResult::Failed, String::new()) {
        DriverStage::Done { ok, body, show_fallback, .. } => {
            assert!(!ok && show_fallback);
            assert_eq!(body, "The automatic install didn't complete.");
        }
        other => panic!("unexpected {other:?}"),
    }
    match driver_uninstall_stage(DriverResult::Failed, "exit 5".into()) {
        DriverStage::Done { ok, body, title, show_fallback } => {
            assert!(!ok && !show_fallback);
            assert_eq!(title, "Couldn't remove the driver");
            assert_eq!(body, "exit 5");
        }
        other => panic!("unexpected {other:?}"),
    }
    match driver_uninstall_stage(DriverResult::AlreadyPresent, String::new()) {
        DriverStage::Done { title, .. } => assert_eq!(title, "Sensor driver removed"),
        other => panic!("unexpected {other:?}"),
    }
}

#[test]
fn appearance_share_code_round_trips() {
    let mut src = appearance("ü \"quoted\"");
    src.primary_font = Some("Fira Sans".into());
    let code = appearance_share_code(&src);
    assert!(code.starts_with("FMA1:"));
    let payload = share_code_payload(&code).unwrap();
    let json: serde_json::Value = serde_json::from_slice(&payload).unwrap();
    assert_eq!(json["bg"], "bg-ü \"quoted\"");
    assert_eq!(json["if"], serde_json::Value::Null);

    let fields = share_fields(&code).unwrap();
    let mut target = appearance("old");
    apply_share_fields(&mut target, fields);
    assert_eq!(target.bg, src.bg);
    assert_eq!(target.tile, src.tile);
    assert_eq!(target.accent, src.accent);
    assert_eq!(target.text, src.text);
    assert_eq!(target.muted, src.muted);
    assert_eq!(target.skin, src.skin);
    assert_eq!(target.primary_font, src.primary_font);
    assert_eq!(target.secondary_font, src.secondary_font);
    assert_eq!(target.indicator_font, None);
}

#[test]
fn share_fields_refusals() {
    // Not a share code, not Base64, not UTF-8, not JSON.
    assert!(share_fields("hello").is_none());
    assert!(share_fields("FMA1:***").is_none());
    assert!(share_fields(&share_code(&[0xff, 0xfe])).is_none());
    assert!(share_fields(&share_code(b"not json")).is_none());
    // JSON with only some fields: the others are missing.
    let f = share_fields(&share_code(br##"{"accent":"#112233","pf":7}"##)).unwrap();
    assert_eq!(f.accent.as_deref(), Some("#112233"));
    assert_eq!(f.bg, None);
    assert_eq!(f.primary_font, None);
}

#[test]
fn change_then_undo_restores_appearance() {
    let mut cur = appearance("a");
    let mut undo: Vec<Appearance> = Vec::new();
    change_appearance(&mut cur, &mut undo, appearance("b"));
    change_appearance(&mut cur, &mut undo, appearance("c"));
    assert_eq!(cur.bg, "bg-c");
    assert_eq!(undo.len(), 2);
    assert!(undo_appearance(&mut cur, &mut undo));
    assert_eq!(cur.bg, "bg-b");
    assert!(undo_appearance(&mut cur, &mut undo));
    assert_eq!(cur.skin, "skin-a");
    assert_eq!(cur.secondary_font.as_deref(), Some("Mono"));
    assert!(!undo_appearance(&mut cur, &mut undo));
    assert_eq!(cur.bg, "bg-a");
    for i in 0..8 {
        change_appearance(&mut cur, &mut undo, appearance(&i.to_string()));
    }
    assert_eq!(undo.len(), UNDO_LIMIT);
    let snap = snapshot_appearance(&cur);
    assert_eq!(snap.bg, cur.bg);
    assert_eq!(snap.indicator_font, cur.indicator_font);
}

#[test]
fn saving_the_device_form() {
    let key = flux::protocol::encode_handshake_key(&[1; 32], &[2; 32]);
    let mut devices: Vec<RemoteDevice> = Vec::new();
    let mut open = true;
    assert_eq!(save_device_form(&mut devices, &mut open, " ", "10.0.0.2", &key, 5199, 1, 2), FormSave::Incomplete);
    assert!(open && devices.is_empty());
    assert_eq!(save_device_form(&mut devices, &mut open, "Den", "10.0.0.2", "FM1:AAAA", 5199, 1, 2), FormSave::Incomplete);
    let padded = format!("  {key}\n");
    assert_eq!(save_device_form(&mut devices, &mut open, " Den ", " 10.0.0.2 ", &padded, 5200, 255, 1), FormSave::Saved);
    assert!(!open);
    assert_eq!(devices.len(), 1);
    assert_eq!(devices[0].id, "ff1");
    assert_eq!(devices[0].name, "Den");
    assert_eq!(devices[0].host, "10.0.0.2");
    assert_eq!(devices[0].key, key);
    assert_eq!(devices[0].port, 5200);
    for i in 0..4 {
        open = true;
        assert_eq!(save_device_form(&mut devices, &mut open, "x", "h", &key, 5199, i, 0), FormSave::Saved);
    }
    open = true;
    assert_eq!(save_device_form(&mut devices, &mut open, "x", "h", &key, 5199, 9, 0), FormSave::ListFull);
    assert!(open);
    assert_eq!(devices.len(), MAX_DEVICES);
}
