//! Profile codec and translation tests: encoding to write segments,
//! decoding memory images, and the user/raw round trip.

use lamzu_cfg::atlantis::Atlantis;
use lamzu_cfg::data::Action;
use lamzu_cfg::data::Color;
use lamzu_cfg::data::Dpi;
use lamzu_cfg::data::Key;
use lamzu_cfg::data::KeyEvent;
use lamzu_cfg::data::KeyState;
use lamzu_cfg::data::MacroEvent;
use lamzu_cfg::data::Modifier;
use lamzu_cfg::device::Product;
use lamzu_cfg::profile::MacroDef;
use lamzu_cfg::raw_data::dpi_from_raw;
use lamzu_cfg::raw_data::dpi_to_raw;
use lamzu_cfg::raw_profile::Segment;
use lamzu_cfg::Error;
use lamzu_cfg::Profile;
use lamzu_cfg::RawProfile;

const DATA_END: usize = 0x1b00;
const NUM_BUTTONS: u8 = 6;

/// Applies write segments to a memory image, as the device would.
fn apply(img: &mut [u8], segments: &[Segment]) {
    for segment in segments {
        img[segment.address..segment.address + segment.bytes.len()]
            .copy_from_slice(&segment.bytes);
    }
}

/// Stores `content` at `img[off..]` followed by its checksum under `seed`.
fn put_slot(img: &mut [u8], off: usize, seed: u8, content: &[u8]) {
    let mut c = seed;
    for (i, b) in content.iter().enumerate() {
        img[off + i] = *b;
        c = c.wrapping_sub(*b);
    }
    img[off + content.len()] = c;
}

fn key_a() -> Key {
    Key::Hid(0x04)
}

fn key_b() -> Key {
    Key::Hid(0x05)
}

#[test]
fn empty_profile_writes_nothing() {
    // A default profile has every setting absent: every slot is skipped
    // and no bytes at all are written to the device.
    let raw = RawProfile::from_profile(&Profile::default()).unwrap();
    let segments = raw.encode();
    assert!(segments.is_empty());
}

#[test]
fn poll_rate_encoding() {
    // poll_rate = 500 writes byte 0x02 at offset 0x00, followed by the
    // checksum byte (171 - 2) mod 256 = 169 at offset 0x01.
    let profile = Profile { poll_rate: Some(500), ..Profile::default() };
    let segments = RawProfile::from_profile(&profile).unwrap().encode();
    assert_eq!(segments.len(), 1);
    assert_eq!(segments[0].address, 0x00);
    assert_eq!(segments[0].bytes, vec![0x02, 169]);
}

#[test]
fn poll_rate_table() {
    for (hz, byte) in [(1000u16, 1u8), (500, 2), (250, 4), (125, 8)] {
        let profile = Profile { poll_rate: Some(hz), ..Profile::default() };
        let segments = RawProfile::from_profile(&profile).unwrap().encode();
        assert_eq!(segments[0].bytes[0], byte);
    }
}

#[test]
fn unsupported_poll_rate_rejected() {
    let profile = Profile { poll_rate: Some(2000), ..Profile::default() };
    assert!(matches!(
        RawProfile::from_profile(&profile),
        Err(Error::InvalidConversion(_))
    ));
}

#[test]
fn invalid_raw_poll_rate_rejected() {
    let raw = RawProfile { poll_rate: Some(3), ..absent_raw() };
    assert!(matches!(
        Profile::from_raw(&raw),
        Err(Error::InvalidConversion(_))
    ));
}

fn absent_raw() -> RawProfile {
    RawProfile {
        poll_rate: None,
        dpi_count: None,
        current_dpi_index: None,
        lift_off_distance: None,
        dpis: Vec::new(),
        dpi_colors: Vec::new(),
        button_actions: Vec::new(),
        debounce_ms: None,
        motion_sync: None,
        angle_snapping: None,
        ripple_control: None,
        peak_performance: None,
        peak_performance_time: None,
        high_performance: None,
        combos: Vec::new(),
        macros: Vec::new(),
    }
}

#[test]
fn dpi_round_trip_slots() {
    // dpis = [Linked(1600), Independent(800, 1200)] encodes dpi_count = 2
    // and slot bytes {0x1F, 0x1F, 0x00} and {0x0F, 0x17, 0x00}.
    let profile = Profile {
        dpis: vec![Dpi::Linked(1600), Dpi::Independent(800, 1200)],
        dpi_colors: vec![
            Color { red: 0, green: 0, blue: 0 },
            Color { red: 255, green: 0, blue: 0 },
        ],
        ..Profile::default()
    };
    let segments = RawProfile::from_profile(&profile).unwrap().encode();
    let count = segments.iter().find(|s| s.address == 0x02).unwrap();
    assert_eq!(count.bytes[0], 2);
    let slot0 = segments.iter().find(|s| s.address == 0x0c).unwrap();
    assert_eq!(&slot0.bytes[..3], &[0x1f, 0x1f, 0x00]);
    let slot1 = segments.iter().find(|s| s.address == 0x10).unwrap();
    assert_eq!(&slot1.bytes[..3], &[0x0f, 0x17, 0x00]);
    let color1 = segments.iter().find(|s| s.address == 0x30).unwrap();
    assert_eq!(&color1.bytes[..3], &[255, 0, 0]);

    // The full translation round-trips.
    let raw = RawProfile::from_profile(&profile).unwrap();
    let back = Profile::from_raw(&raw).unwrap();
    assert!(matches!(back.dpis[0], Dpi::Linked(1600)));
    assert!(matches!(back.dpis[1], Dpi::Independent(800, 1200)));
}

#[test]
fn dpi_byte_formula() {
    // Any DPI round-trips as ((dpi / 50).saturating_sub(1) + 1) * 50.
    for dpi in [50u16, 100, 800, 1200, 1600, 12800] {
        assert_eq!(dpi_from_raw(dpi_to_raw(dpi)), dpi);
    }
    assert_eq!(dpi_to_raw(1600), 0x1f);
    assert_eq!(dpi_from_raw(0), 50);
    // Below 100 the raw byte saturates at 0, above 12800 it clamps at 255.
    assert_eq!(dpi_from_raw(dpi_to_raw(30)), 50);
    assert_eq!(dpi_from_raw(dpi_to_raw(1234)), 1200);
    assert_eq!(dpi_from_raw(dpi_to_raw(65535)), 12800);
}

#[test]
fn macro_and_combo_encoding() {
    // button_actions = [MiddleClick, Macro{"x"}, Combo{[A down, A up]}]
    // encodes action payloads {01 04}, {06 00} and {05}; combo slot 2
    // holds two key events; macro slot 0 holds the name "x" and one event
    // with a big-endian delay of 0x0064.
    let profile = Profile {
        button_actions: vec![
            Action::MiddleClick,
            Action::Macro { name: "x".to_string() },
            Action::Combo {
                events: vec![
                    KeyEvent { key: key_a(), state: KeyState::Pressed },
                    KeyEvent { key: key_a(), state: KeyState::Released },
                ],
            },
        ],
        macros: vec![MacroDef {
            name: "x".to_string(),
            events: vec![MacroEvent {
                key_event: KeyEvent { key: key_b(), state: KeyState::Pressed },
                delay_ms: 100,
            }],
        }],
        ..Profile::default()
    };
    let segments = RawProfile::from_profile(&profile).unwrap().encode();

    let action0 = segments.iter().find(|s| s.address == 0x60).unwrap();
    assert_eq!(&action0.bytes[..3], &[0x01, 0x04, 0x00]);
    let action1 = segments.iter().find(|s| s.address == 0x64).unwrap();
    assert_eq!(&action1.bytes[..3], &[0x06, 0x00, 0x00]);
    let action2 = segments.iter().find(|s| s.address == 0x68).unwrap();
    assert_eq!(&action2.bytes[..3], &[0x05, 0x00, 0x00]);

    // Combo slot 2 at 0x100 + 2 * 32: two 3-byte events after the count.
    let combo = segments.iter().find(|s| s.address == 0x140).unwrap();
    assert_eq!(combo.bytes[0], 2);
    assert_eq!(&combo.bytes[1..4], &[0x81, 0x04, 0x00]);
    assert_eq!(&combo.bytes[4..7], &[0x41, 0x04, 0x00]);

    // Macro slot 0 at 0x300: name length, 30-byte name field, event
    // count, then one event with big-endian delay 0x0064.
    let mac = segments.iter().find(|s| s.address == 0x300).unwrap();
    assert_eq!(mac.bytes[0], 1);
    assert_eq!(mac.bytes[1], b'x');
    assert!(mac.bytes[2..31].iter().all(|b| *b == 0));
    assert_eq!(mac.bytes[31], 1);
    assert_eq!(&mac.bytes[32..37], &[0x81, 0x05, 0x00, 0x00, 0x64]);

    // The whole profile survives a write to an image and a read back.
    let mut img = vec![0u8; DATA_END];
    apply(&mut img, &segments);
    // Decode as many action slots as the profile configured.
    let decoded = RawProfile::decode_image(&img, 3).unwrap();
    let back = Profile::from_raw(&decoded).unwrap();
    assert!(matches!(back.button_actions[0], Action::MiddleClick));
    assert!(matches!(&back.button_actions[1], Action::Macro { name } if name == "x"));
    match &back.button_actions[2] {
        Action::Combo { events } => {
            assert_eq!(events.len(), 2);
            assert_eq!(events[0], KeyEvent { key: key_a(), state: KeyState::Pressed });
        }
        other => panic!("expected a combo action, got {:?}", other),
    }
    assert_eq!(back.macros.len(), 1);
    assert_eq!(back.macros[0].name, "x");
    assert_eq!(back.macros[0].events[0].delay_ms, 100);
}

#[test]
fn modifier_wire_form() {
    // A modifier key event's wire tag is 0x80 on press and 0x40 on
    // release, and its modifier field has exactly one bit set.
    let profile = Profile {
        button_actions: vec![Action::Combo {
            events: vec![
                KeyEvent { key: Key::Modifier(Modifier::ShiftLeft), state: KeyState::Pressed },
                KeyEvent { key: Key::Modifier(Modifier::MetaRight), state: KeyState::Released },
            ],
        }],
        ..Profile::default()
    };
    let segments = RawProfile::from_profile(&profile).unwrap().encode();
    let combo = segments.iter().find(|s| s.address == 0x100).unwrap();
    assert_eq!(&combo.bytes[1..4], &[0x80, 0x02, 0x00]);
    assert_eq!(&combo.bytes[4..7], &[0x40, 0x80, 0x00]);
    assert_eq!(u16::from(combo.bytes[2]).count_ones(), 1);
    assert_eq!(u16::from(combo.bytes[5]).count_ones(), 1);
}

#[test]
fn absent_slot_tolerance() {
    // An image whose poll-rate checksum is wrong but whose other header
    // slots validate decodes with poll_rate = None and everything else
    // populated; no error is raised.
    let mut img = vec![0u8; DATA_END];
    // poll_rate slot: value 2 with a wrong checksum byte.
    img[0x00] = 0x02;
    img[0x01] = 0x00;
    put_slot(&mut img, 0x02, 171, &[1]); // dpi_count = 1
    put_slot(&mut img, 0x04, 171, &[3]); // current_dpi_index = 3
    put_slot(&mut img, 0x08, 171, &[1]); // lift_off_distance = 1
    put_slot(&mut img, 0x0c, 171, &[0x1f, 0x1f, 0x00]); // one DPI stage
    put_slot(&mut img, 0x2c, 171, &[10, 20, 30]); // one colour
    put_slot(&mut img, 0xa9, 171, &[7]); // debounce_ms
    put_slot(&mut img, 0xab, 171, &[1]); // motion_sync
    put_slot(&mut img, 0xaf, 171, &[0]); // angle_snapping
    put_slot(&mut img, 0xb1, 171, &[1]); // ripple_control
    put_slot(&mut img, 0xb5, 171, &[0]); // peak_performance
    put_slot(&mut img, 0xb7, 171, &[25]); // peak_performance_time
    put_slot(&mut img, 0xb9, 171, &[1]); // high_performance
    for i in 0..NUM_BUTTONS as usize {
        put_slot(&mut img, 0x60 + 4 * i, 171, &[0x01, 0x01, 0x00]);
    }

    let raw = RawProfile::decode_image(&img, NUM_BUTTONS).unwrap();
    assert_eq!(raw.poll_rate, None);
    assert_eq!(raw.dpi_count, Some(1));
    assert_eq!(raw.current_dpi_index, Some(3));

    let profile = Profile::from_raw(&raw).unwrap();
    assert_eq!(profile.poll_rate, None);
    assert_eq!(profile.current_dpi_index, Some(3));
    assert_eq!(profile.lift_off_distance, Some(1));
    assert_eq!(profile.debounce_ms, Some(7));
    assert_eq!(profile.motion_sync, Some(true));
    assert_eq!(profile.angle_snapping, Some(false));
    assert_eq!(profile.ripple_control, Some(true));
    assert_eq!(profile.peak_performance, Some(false));
    assert_eq!(profile.peak_performance_time, Some(250));
    assert_eq!(profile.high_performance, Some(true));
    assert!(matches!(profile.dpis[0], Dpi::Linked(1600)));
    assert_eq!(profile.dpi_colors[0], Color { red: 10, green: 20, blue: 30 });
    assert!(profile.button_actions.iter().all(|a| matches!(a, Action::LeftClick)));
}

#[test]
fn absent_expected_slot_is_bad_checksum() {
    // A present dpi_count demands that many DPI slots; an absent DPI slot
    // is then a checksum error.
    let mut img = vec![0u8; DATA_END];
    put_slot(&mut img, 0x02, 171, &[2]); // dpi_count = 2, but no DPI slots
    for i in 0..NUM_BUTTONS as usize {
        put_slot(&mut img, 0x60 + 4 * i, 171, &[0x00, 0x00, 0x00]);
    }
    let raw = RawProfile::decode_image(&img, NUM_BUTTONS).unwrap();
    assert!(matches!(Profile::from_raw(&raw), Err(Error::BadChecksum)));
}

#[test]
fn unknown_action_bytes_rejected() {
    // A present action slot with an unknown tag fails the image decode.
    let mut img = vec![0u8; DATA_END];
    put_slot(&mut img, 0x60, 171, &[0x99, 0x00, 0x00]);
    assert!(matches!(
        RawProfile::decode_image(&img, NUM_BUTTONS),
        Err(Error::InvalidConversion(_))
    ));
}

#[test]
fn unknown_button_id_rejected() {
    let mut img = vec![0u8; DATA_END];
    put_slot(&mut img, 0x60, 171, &[0x01, 0x03, 0x00]);
    let raw = RawProfile::decode_image(&img, NUM_BUTTONS).unwrap();
    assert!(matches!(
        Profile::from_raw(&raw),
        Err(Error::InvalidConversion(_))
    ));
}

#[test]
fn dangling_macro_reference_rejected() {
    let profile = Profile {
        button_actions: vec![Action::Macro { name: "missing".to_string() }],
        ..Profile::default()
    };
    assert!(matches!(
        RawProfile::from_profile(&profile),
        Err(Error::InvalidConversion(_))
    ));
}

#[test]
fn out_of_range_scalars_rejected() {
    for profile in [
        Profile { current_dpi_index: Some(8), ..Profile::default() },
        Profile { lift_off_distance: Some(2), ..Profile::default() },
        Profile { debounce_ms: Some(16), ..Profile::default() },
        Profile { peak_performance_time: Some(2551), ..Profile::default() },
        Profile { dpis: vec![Dpi::Linked(800); 9], ..Profile::default() },
        Profile { button_actions: vec![Action::Disabled; 17], ..Profile::default() },
    ] {
        assert!(matches!(
            RawProfile::from_profile(&profile),
            Err(Error::InvalidConversion(_))
        ));
    }
}

#[test]
fn full_profile_round_trip() {
    // A profile using every field survives user -> raw -> user.
    let profile = Profile {
        poll_rate: Some(1000),
        current_dpi_index: Some(2),
        lift_off_distance: Some(1),
        debounce_ms: Some(8),
        motion_sync: Some(true),
        angle_snapping: Some(false),
        ripple_control: Some(true),
        peak_performance: Some(true),
        peak_performance_time: Some(1500),
        high_performance: Some(false),
        dpis: vec![Dpi::Linked(400), Dpi::Independent(800, 1600), Dpi::Linked(3200)],
        dpi_colors: vec![
            Color { red: 1, green: 2, blue: 3 },
            Color { red: 4, green: 5, blue: 6 },
            Color { red: 7, green: 8, blue: 9 },
        ],
        button_actions: vec![
            Action::LeftClick,
            Action::RightClick,
            Action::DpiLock { dpi: 1200 },
            Action::Fire { interval: 10, repeat: 3 },
            Action::Macro { name: "burst".to_string() },
            Action::WheelDown,
        ],
        macros: vec![MacroDef {
            name: "burst".to_string(),
            events: vec![
                MacroEvent {
                    key_event: KeyEvent { key: key_a(), state: KeyState::Pressed },
                    delay_ms: 10,
                },
                MacroEvent {
                    key_event: KeyEvent { key: key_a(), state: KeyState::Released },
                    delay_ms: 500,
                },
            ],
        }],
    };
    let raw = RawProfile::from_profile(&profile).unwrap();
    let back = Profile::from_raw(&raw).unwrap();
    assert_eq!(back.poll_rate, profile.poll_rate);
    assert_eq!(back.current_dpi_index, profile.current_dpi_index);
    assert_eq!(back.lift_off_distance, profile.lift_off_distance);
    assert_eq!(back.debounce_ms, profile.debounce_ms);
    assert_eq!(back.motion_sync, profile.motion_sync);
    assert_eq!(back.angle_snapping, profile.angle_snapping);
    assert_eq!(back.ripple_control, profile.ripple_control);
    assert_eq!(back.peak_performance, profile.peak_performance);
    assert_eq!(back.peak_performance_time, profile.peak_performance_time);
    assert_eq!(back.high_performance, profile.high_performance);
    assert_eq!(format!("{:?}", back.dpis), format!("{:?}", profile.dpis));
    assert_eq!(back.dpi_colors, profile.dpi_colors);
    assert_eq!(
        format!("{:?}", back.button_actions),
        format!("{:?}", profile.button_actions)
    );
    assert_eq!(back.macros.len(), 1);
    assert_eq!(back.macros[0].name, "burst");
    assert_eq!(back.macros[0].events, profile.macros[0].events);
}

#[test]
fn image_round_trip_preserves_valid_slots() {
    // Writing the decoded profile back reproduces the image at every slot
    // that was valid: the canonical image written by the encoder itself.
    let profile = Profile {
        poll_rate: Some(125),
        debounce_ms: Some(5),
        dpis: vec![Dpi::Linked(800)],
        dpi_colors: vec![Color { red: 9, green: 9, blue: 9 }],
        button_actions: vec![Action::Disabled, Action::WheelUp],
        ..Profile::default()
    };
    let segments = RawProfile::from_profile(&profile).unwrap().encode();
    let mut img = vec![0u8; DATA_END];
    apply(&mut img, &segments);

    let decoded = RawProfile::decode_image(&img, 2).unwrap();
    let back = Profile::from_raw(&decoded).unwrap();
    let again = RawProfile::from_profile(&back).unwrap().encode();
    let mut img2 = vec![0u8; DATA_END];
    apply(&mut img2, &again);
    assert_eq!(img, img2);
}

#[test]
fn facade_clamps_poll_rate() {
    let atlantis = Atlantis::new(Product::AtlantisWired);
    let profile = Profile { poll_rate: Some(4000), ..Profile::default() };
    let (clamped, warned) = atlantis.clamp_poll_rate(profile);
    assert!(warned);
    assert_eq!(clamped.poll_rate, Some(1000));

    let profile = Profile { poll_rate: Some(500), ..Profile::default() };
    let (kept, warned) = atlantis.clamp_poll_rate(profile);
    assert!(!warned);
    assert_eq!(kept.poll_rate, Some(500));
}

#[test]
fn facade_validates_profile_index() {
    let atlantis = Atlantis::new(Product::default());
    for index in 0..4 {
        let request = atlantis.set_active_profile_request(index).unwrap();
        let bytes = request.encode();
        assert_eq!(bytes[1], 15);
        assert_eq!(bytes[6], index as u8);
    }
    assert!(matches!(
        atlantis.set_active_profile_request(4),
        Err(Error::InvalidConversion(_))
    ));
}

#[test]
fn macro_name_survives_utf8() {
    // The macro name travels as UTF-8 bytes in the 30-byte name field and
    // comes back intact, multi-byte characters included.
    let profile = Profile {
        button_actions: vec![Action::Macro { name: "héllo".to_string() }],
        macros: vec![MacroDef { name: "héllo".to_string(), events: Vec::new() }],
        ..Profile::default()
    };
    let segments = RawProfile::from_profile(&profile).unwrap().encode();
    let mut img = vec![0u8; DATA_END];
    apply(&mut img, &segments);
    let decoded = RawProfile::decode_image(&img, 1).unwrap();
    let back = Profile::from_raw(&decoded).unwrap();
    assert_eq!(back.macros[0].name, "héllo");

    // A macro slot whose name bytes are not valid UTF-8 is absent, and the
    // action referring to it cannot be decoded.
    let mac = segments.iter().find(|s| s.address == 0x300).unwrap();
    let mut broken = mac.bytes.clone();
    broken[1] = 0xff; // invalid UTF-8 lead byte
    let sum_delta = mac.bytes[1].wrapping_sub(0xff);
    let last = broken.len() - 1;
    broken[last] = broken[last].wrapping_add(sum_delta);
    let mut img2 = img.clone();
    img2[0x300..0x300 + broken.len()].copy_from_slice(&broken);
    let decoded2 = RawProfile::decode_image(&img2, 1).unwrap();
    assert!(decoded2.macros[0].is_none());
    assert!(matches!(
        Profile::from_raw(&decoded2),
        Err(Error::InvalidConversion(_))
    ));
}
