use remap_config::{
    AbsoluteAxis, AbsoluteAxisBit, Bus, Config, ConfigError, DeviceKind, DevicePreset, ErrorKind,
    ForceFeedback, Key, RelativeAxis, Segment,
};

fn load(text: &str) -> Config {
    match Config::load_from_str(text) {
        Ok(config) => config,
        Err(error) => panic!("the load failed: {:?}", error),
    }
}

fn fail(text: &str) -> ConfigError {
    match Config::load_from_str(text) {
        Ok(_) => panic!("the load succeeded"),
        Err(error) => error,
    }
}

fn key(name: &str) -> Segment {
    Segment::Key(name.to_string())
}

fn same_path(path: &[Segment], expected: &[Segment]) -> bool {
    path.len() == expected.len()
        && path.iter().zip(expected.iter()).all(|pair| match pair {
            (Segment::Key(a), Segment::Key(b)) => a == b,
            (Segment::Index(a), Segment::Index(b)) => a == b,
            _ => false,
        })
}

#[test]
fn empty_document_gives_empty_config() {
    let config = load("");
    assert_eq!(config.device_filters.len(), 0);
    assert_eq!(config.virtual_devices.len(), 0);
    assert_eq!(config.scripts.len(), 0);
}

#[test]
fn full_filter_round_trips() {
    let config = load(
        "[[device-filter]]\n\
         ref = \"pad\"\n\
         name = \"Some Gamepad\"\n\
         bus = \"USB\"\n\
         vendor = 0x045e\n\
         not_vendor = 7\n\
         product = 0x028e\n\
         version = 272\n\
         kind = \"gamepad\"\n\
         exclusive = true\n\
         chmod = 0o660\n",
    );
    assert_eq!(config.device_filters.len(), 1);
    let (name, filter) = config.device_filters.get_index(0).unwrap();
    assert_eq!(name, "pad");
    assert_eq!(filter.name, Some("Some Gamepad".to_string()));
    assert_eq!(filter.bus, Some(Bus::Named(3)));
    assert_eq!(filter.vendor, Some(0x045e));
    assert_eq!(filter.not_vendor, Some(7));
    assert_eq!(filter.product, Some(0x028e));
    assert_eq!(filter.version, Some(272));
    assert_eq!(filter.kind, Some(DeviceKind::Gamepad));
    assert!(filter.exclusive);
    assert_eq!(filter.chmod, Some(0o660));
}

#[test]
fn absent_filter_fields_are_none() {
    let config = load("[[device-filter]]\nref = \"bare\"\n");
    let filter = config.device_filters.get("bare").unwrap();
    assert_eq!(filter.kind, None);
    assert_eq!(filter.bus, None);
    assert_eq!(filter.vendor, None);
    assert_eq!(filter.not_vendor, None);
    assert_eq!(filter.product, None);
    assert_eq!(filter.version, None);
    assert_eq!(filter.name, None);
    assert!(!filter.exclusive);
    assert_eq!(filter.chmod, None);
}

#[test]
fn filter_falls_back_to_its_name() {
    let config = load("[[device-filter]]\nname = \"Keyboard X\"\nkind = \"keyboard\"\n");
    let filter = config.device_filters.get("Keyboard X").unwrap();
    assert_eq!(filter.name, Some("Keyboard X".to_string()));
    assert_eq!(filter.kind, Some(DeviceKind::Keyboard));
}

#[test]
fn filter_without_ref_or_name_is_missing_ref() {
    let error = fail("[[device-filter]]\nvendor = 1\n\n[[device-filter]]\nvendor = 2\nref = \"x\"\n");
    assert_eq!(error.kind, ErrorKind::Missing);
    assert!(same_path(&error.path, &[key("device-filter"), Segment::Index(0), key("ref")]));
}

#[test]
fn full_virtual_device_round_trips() {
    let config = load(
        "[[device-filter]]\n\
         ref = \"real\"\n\
         \n\
         [[virtual-device]]\n\
         ref = \"virt\"\n\
         preset = \"mouse\"\n\
         bus = 6\n\
         name = \"Virtual Pad\"\n\
         vendor = 1\n\
         product = 2\n\
         version = 3\n\
         chmod = 420\n\
         keys = [\"A\", \"PadSouth\", 700]\n\
         rel = [\"Wheel\", 9]\n\
         force-feedback = [\"Rumble\", 81]\n\
         redirect-force-feedback-to = \"real\"\n\
         \n\
         [virtual-device.abs.X]\n\
         minimum = -100\n\
         maximum = 100\n\
         initial-value = 5\n\
         noise-threshold = 1\n\
         deadzone = 2\n\
         resolution = 3\n",
    );
    let (name, device) = config.virtual_devices.get_index(0).unwrap();
    assert_eq!(name, "virt");
    assert_eq!(device.preset, Some(DevicePreset::Mouse));
    assert_eq!(device.bus, Some(Bus::Other(6)));
    assert_eq!(device.name, Some("Virtual Pad".to_string()));
    assert_eq!(device.vendor, Some(1));
    assert_eq!(device.product, Some(2));
    assert_eq!(device.version, Some(3));
    assert_eq!(device.chmod, Some(420));
    assert_eq!(device.key_bits, vec![Key::Named(30), Key::Named(0x130), Key::Other(700)]);
    assert_eq!(device.rel_bits, vec![RelativeAxis::Named(8), RelativeAxis::Other(9)]);
    assert_eq!(device.ff_bits, vec![ForceFeedback::Named(0x50), ForceFeedback::Other(81)]);
    assert_eq!(device.redirect_force_feedback_to, Some("real".to_string()));
    assert_eq!(
        device.abs_bits,
        vec![AbsoluteAxisBit {
            axis: AbsoluteAxis::Named(0),
            initial_value: 5,
            minimum: -100,
            maximum: 100,
            noise_threshold: 1,
            deadzone: 2,
            resolution: 3,
        }]
    );
}

#[test]
fn absent_device_fields_are_none() {
    let config = load("[[virtual-device]]\nname = \"v\"\n");
    let device = config.virtual_devices.get("v").unwrap();
    assert_eq!(device.preset, None);
    assert_eq!(device.bus, None);
    assert_eq!(device.vendor, None);
    assert_eq!(device.product, None);
    assert_eq!(device.version, None);
    assert_eq!(device.chmod, None);
    assert!(device.key_bits.is_empty());
    assert!(device.rel_bits.is_empty());
    assert!(device.abs_bits.is_empty());
    assert!(device.ff_bits.is_empty());
    assert_eq!(device.redirect_force_feedback_to, None);
}

#[test]
fn axis_with_only_bounds_takes_defaults() {
    let config = load("[[virtual-device]]\nref = \"v\"\n[virtual-device.abs.Y]\nminimum = 0\nmaximum = 255\n");
    let device = config.virtual_devices.get("v").unwrap();
    assert_eq!(
        device.abs_bits,
        vec![AbsoluteAxisBit {
            axis: AbsoluteAxis::Named(1),
            initial_value: 0,
            minimum: 0,
            maximum: 255,
            noise_threshold: 0,
            deadzone: 0,
            resolution: 0,
        }]
    );
}

#[test]
fn initial_value_defaults_to_the_minimum() {
    let config = load("[[virtual-device]]\nref = \"v\"\n[virtual-device.abs.Z]\nmin = -7\nmax = 9\n");
    let device = config.virtual_devices.get("v").unwrap();
    assert_eq!(device.abs_bits.len(), 1);
    assert_eq!(device.abs_bits[0].axis, AbsoluteAxis::Named(2));
    assert_eq!(device.abs_bits[0].initial_value, -7);
    assert_eq!(device.abs_bits[0].minimum, -7);
    assert_eq!(device.abs_bits[0].maximum, 9);
}

#[test]
fn numeric_axis_keys_resolve() {
    let config = load(
        "[[virtual-device]]\nref = \"v\"\n\
         [virtual-device.abs.\"0x1f\"]\nminimum = 0\nmaximum = 1\n\
         [virtual-device.abs.15]\nminimum = 0\nmaximum = 1\n",
    );
    let device = config.virtual_devices.get("v").unwrap();
    let axes: Vec<AbsoluteAxis> = device.abs_bits.iter().map(|bit| bit.axis).collect();
    assert_eq!(axes.len(), 2);
    assert!(axes.contains(&AbsoluteAxis::Other(31)));
    assert!(axes.contains(&AbsoluteAxis::Other(15)));
}

#[test]
fn unknown_axis_name_fails() {
    let error = fail("[[virtual-device]]\nref = \"v\"\n[virtual-device.abs.Sideways]\nminimum = 0\nmaximum = 1\n");
    assert_eq!(error.kind, ErrorKind::InvalidAxisName);
    assert!(same_path(
        &error.path,
        &[key("virtual-device"), Segment::Index(0), key("abs"), key("Sideways")]
    ));
}

#[test]
fn axis_missing_maximum_names_the_axis() {
    let error = fail("[[virtual-device]]\nref = \"v\"\n[virtual-device.abs.RX]\nminimum = 0\n");
    assert_eq!(error.kind, ErrorKind::Missing);
    assert!(same_path(
        &error.path,
        &[key("virtual-device"), Segment::Index(0), key("abs"), key("RX"), key("maximum")]
    ));
}

#[test]
fn axis_missing_minimum_names_the_axis() {
    let error = fail("[[virtual-device]]\nref = \"v\"\n[virtual-device.abs.RX]\nmaximum = 0\n");
    assert_eq!(error.kind, ErrorKind::Missing);
    assert!(same_path(
        &error.path,
        &[key("virtual-device"), Segment::Index(0), key("abs"), key("RX"), key("minimum")]
    ));
}

#[test]
fn axis_value_outside_32_bits_is_out_of_range() {
    let error = fail("[[virtual-device]]\nref = \"v\"\n[virtual-device.abs.X]\nminimum = 0\nmaximum = 2147483648\n");
    assert_eq!(error.kind, ErrorKind::OutOfRange);
    assert!(same_path(
        &error.path,
        &[key("virtual-device"), Segment::Index(0), key("abs"), key("X"), key("maximum")]
    ));
    let config = load("[[virtual-device]]\nref = \"v\"\n[virtual-device.abs.X]\nminimum = -2147483648\nmaximum = 2147483647\n");
    let device = config.virtual_devices.get("v").unwrap();
    assert_eq!(device.abs_bits[0].minimum, i32::MIN);
    assert_eq!(device.abs_bits[0].maximum, i32::MAX);
}

#[test]
fn script_round_trips() {
    let config = load(
        "[[device-filter]]\nref = \"kbd\"\n\n\
         [[script]]\ndevice = \"kbd\"\nscript = \"fn on_event() {}\"\n\n\
         [[script]]\ndevice = \"kbd\"\nscript = \"second\"\n",
    );
    assert_eq!(config.scripts.len(), 2);
    assert_eq!(config.scripts[0].device, "kbd");
    assert_eq!(config.scripts[0].code, "fn on_event() {}");
    assert_eq!(config.scripts[1].device, "kbd");
    assert_eq!(config.scripts[1].code, "second");
}

#[test]
fn script_for_unknown_device_names_it() {
    let error = fail("[[script]]\ndevice = \"nosuch\"\nscript = \"x\"\n");
    assert_eq!(error.kind, ErrorKind::UnknownScriptDevice);
    assert_eq!(error.detail, "nosuch");
    assert!(error.path.is_empty());
}

#[test]
fn script_missing_a_key_fails() {
    let error = fail("[[script]]\nscript = \"x\"\n");
    assert_eq!(error.kind, ErrorKind::Missing);
    assert!(same_path(&error.path, &[key("script"), Segment::Index(0), key("device")]));
    let error = fail("[[device-filter]]\nref = \"a\"\n[[script]]\ndevice = \"a\"\nscript = \"x\"\n[[script]]\ndevice = \"a\"\n");
    assert_eq!(error.kind, ErrorKind::Missing);
    assert!(same_path(&error.path, &[key("script"), Segment::Index(1), key("script")]));
}

#[test]
fn same_name_for_filter_and_device_collides() {
    let error = fail("[[virtual-device]]\nref = \"X\"\n\n[[device-filter]]\nref = \"X\"\n");
    assert_eq!(error.kind, ErrorKind::NameCollision);
    assert_eq!(error.detail, "X");
}

#[test]
fn redirect_to_unknown_filter_fails() {
    let error = fail("[[virtual-device]]\nref = \"v\"\nredirect-force-feedback-to = \"gone\"\n");
    assert_eq!(error.kind, ErrorKind::UnknownRedirectTarget);
    assert_eq!(error.detail, "gone");
}

#[test]
fn unknown_script_device_is_reported_before_a_collision() {
    let error = fail(
        "[[virtual-device]]\nref = \"X\"\n\n[[device-filter]]\nref = \"X\"\n\n[[script]]\ndevice = \"Y\"\nscript = \"\"\n",
    );
    assert_eq!(error.kind, ErrorKind::UnknownScriptDevice);
    assert_eq!(error.detail, "Y");
}

#[test]
fn unrecognized_keys_fail_at_every_level() {
    let error = fail("[[device-filter]]\nref = \"a\"\n\n[extra]\nvalue = 1\n");
    assert_eq!(error.kind, ErrorKind::UnrecognizedKey);
    assert!(same_path(&error.path, &[key("extra")]));

    let error = fail("[[device-filter]]\nref = \"a\"\ncolour = \"red\"\n");
    assert_eq!(error.kind, ErrorKind::UnrecognizedKey);
    assert!(same_path(&error.path, &[key("device-filter"), Segment::Index(0), key("colour")]));

    let error = fail("[[virtual-device]]\nref = \"a\"\nkind = \"mouse\"\n");
    assert_eq!(error.kind, ErrorKind::UnrecognizedKey);
    assert!(same_path(&error.path, &[key("virtual-device"), Segment::Index(0), key("kind")]));

    let error = fail("[[script]]\ndevice = \"a\"\nscript = \"\"\nlanguage = \"x\"\n");
    assert_eq!(error.kind, ErrorKind::UnrecognizedKey);
    assert!(same_path(&error.path, &[key("script"), Segment::Index(0), key("language")]));

    let error = fail("[[virtual-device]]\nref = \"a\"\n[virtual-device.abs.X]\nminimum = 0\nmaximum = 1\nflat = 0\n");
    assert_eq!(error.kind, ErrorKind::UnrecognizedKey);
    assert!(same_path(
        &error.path,
        &[key("virtual-device"), Segment::Index(0), key("abs"), key("X"), key("flat")]
    ));
}

#[test]
fn later_filter_with_same_ref_replaces_the_earlier() {
    let config = load(
        "[[device-filter]]\nref = \"a\"\nvendor = 1\nproduct = 5\n\n\
         [[device-filter]]\nref = \"b\"\n\n\
         [[device-filter]]\nref = \"a\"\nvendor = 2\n",
    );
    assert_eq!(config.device_filters.len(), 2);
    let (first, filter) = config.device_filters.get_index(0).unwrap();
    assert_eq!(first, "a");
    assert_eq!(filter.vendor, Some(2));
    assert_eq!(filter.product, None);
    let (second, _) = config.device_filters.get_index(1).unwrap();
    assert_eq!(second, "b");
}

#[test]
fn later_device_with_same_ref_replaces_the_earlier() {
    let config = load(
        "[[virtual-device]]\nref = \"a\"\nvendor = 1\nkeys = [1]\n\n\
         [[virtual-device]]\nref = \"a\"\nproduct = 2\n",
    );
    assert_eq!(config.virtual_devices.len(), 1);
    let device = config.virtual_devices.get("a").unwrap();
    assert_eq!(device.vendor, None);
    assert_eq!(device.product, Some(2));
    assert!(device.key_bits.is_empty());
}

#[test]
fn entries_keep_document_order() {
    let config = load(
        "[[device-filter]]\nref = \"zeta\"\n\n[[device-filter]]\nref = \"alpha\"\n\n[[device-filter]]\nref = \"mid\"\n\n\
         [[virtual-device]]\nref = \"v9\"\n\n[[virtual-device]]\nref = \"v1\"\n\n[[virtual-device]]\nref = \"v5\"\n",
    );
    let filters: Vec<&str> = config.device_filters.keys().map(|name| name.as_str()).collect();
    assert_eq!(filters, vec!["zeta", "alpha", "mid"]);
    let devices: Vec<&str> = config.virtual_devices.keys().map(|name| name.as_str()).collect();
    assert_eq!(devices, vec!["v9", "v1", "v5"]);
}

#[test]
fn wrong_shapes_are_reported_with_their_path() {
    let error = fail("device-filter = 3\n");
    assert_eq!(error.kind, ErrorKind::NotAnArray);
    assert!(same_path(&error.path, &[key("device-filter")]));

    let error = fail("virtual-device = \"x\"\n");
    assert_eq!(error.kind, ErrorKind::NotAnArray);
    assert!(same_path(&error.path, &[key("virtual-device")]));

    let error = fail("script = [1]\n");
    assert_eq!(error.kind, ErrorKind::NotATable);
    assert!(same_path(&error.path, &[key("script"), Segment::Index(0)]));

    let error = fail("[[device-filter]]\nref = 5\n");
    assert_eq!(error.kind, ErrorKind::NotAString);
    assert!(same_path(&error.path, &[key("device-filter"), Segment::Index(0), key("ref")]));

    let error = fail("[[device-filter]]\nref = \"a\"\nvendor = \"5\"\n");
    assert_eq!(error.kind, ErrorKind::NotAnInteger);
    assert!(same_path(&error.path, &[key("device-filter"), Segment::Index(0), key("vendor")]));

    let error = fail("[[device-filter]]\nref = \"a\"\nexclusive = 1\n");
    assert_eq!(error.kind, ErrorKind::NotABoolean);
    assert!(same_path(&error.path, &[key("device-filter"), Segment::Index(0), key("exclusive")]));

    let error = fail("[[virtual-device]]\nref = \"a\"\nkeys = \"A\"\n");
    assert_eq!(error.kind, ErrorKind::NotAnArray);
    assert!(same_path(&error.path, &[key("virtual-device"), Segment::Index(0), key("keys")]));

    let error = fail("[[virtual-device]]\nref = \"a\"\nabs = 1\n");
    assert_eq!(error.kind, ErrorKind::NotATable);
    assert!(same_path(&error.path, &[key("virtual-device"), Segment::Index(0), key("abs")]));

    let error = fail("[[virtual-device]]\nref = \"a\"\n[virtual-device.abs]\nX = 1\n");
    assert_eq!(error.kind, ErrorKind::NotATable);
    assert!(same_path(
        &error.path,
        &[key("virtual-device"), Segment::Index(0), key("abs"), key("X")]
    ));
}

#[test]
fn out_of_range_fields_fail() {
    let error = fail("[[device-filter]]\nref = \"a\"\nvendor = 65536\n");
    assert_eq!(error.kind, ErrorKind::OutOfRange);
    assert!(same_path(&error.path, &[key("device-filter"), Segment::Index(0), key("vendor")]));
    let error = fail("[[device-filter]]\nref = \"a\"\nchmod = -1\n");
    assert_eq!(error.kind, ErrorKind::OutOfRange);
    let config = load("[[device-filter]]\nref = \"a\"\nvendor = 65535\nproduct = 0\n");
    let filter = config.device_filters.get("a").unwrap();
    assert_eq!(filter.vendor, Some(65535));
    assert_eq!(filter.product, Some(0));
}

#[test]
fn invalid_values_fail() {
    let error = fail("[[device-filter]]\nref = \"a\"\nkind = \"joystick\"\n");
    assert_eq!(error.kind, ErrorKind::InvalidValue);
    assert!(same_path(&error.path, &[key("device-filter"), Segment::Index(0), key("kind")]));

    let error = fail("[[virtual-device]]\nref = \"a\"\npreset = \"gamepad\"\n");
    assert_eq!(error.kind, ErrorKind::InvalidValue);

    let error = fail("[[device-filter]]\nref = \"a\"\nbus = \"usb\"\n");
    assert_eq!(error.kind, ErrorKind::InvalidValue);
    assert!(same_path(&error.path, &[key("device-filter"), Segment::Index(0), key("bus")]));

    let error = fail("[[device-filter]]\nref = \"a\"\nbus = true\n");
    assert_eq!(error.kind, ErrorKind::InvalidValue);

    let error = fail("[[virtual-device]]\nref = \"a\"\nkeys = [\"A\", \"NoSuchKey\"]\n");
    assert_eq!(error.kind, ErrorKind::InvalidValue);
    assert!(same_path(
        &error.path,
        &[key("virtual-device"), Segment::Index(0), key("keys"), Segment::Index(1)]
    ));

    let error = fail("[[virtual-device]]\nref = \"a\"\nrel = [65536]\n");
    assert_eq!(error.kind, ErrorKind::InvalidValue);
    assert!(same_path(
        &error.path,
        &[key("virtual-device"), Segment::Index(0), key("rel"), Segment::Index(0)]
    ));

    let error = fail("[[virtual-device]]\nref = \"a\"\nforce-feedback = [-1]\n");
    assert_eq!(error.kind, ErrorKind::InvalidValue);
    assert!(same_path(
        &error.path,
        &[key("virtual-device"), Segment::Index(0), key("force-feedback"), Segment::Index(0)]
    ));
}

#[test]
fn malformed_text_is_a_syntax_error() {
    let error = fail("[[device-filter]\nref = \n");
    assert_eq!(error.kind, ErrorKind::Syntax);
    assert!(!error.detail.is_empty());
    assert!(error.path.is_empty());
}

#[test]
fn fault_in_second_entry_carries_its_index() {
    let error = fail("[[device-filter]]\nref = \"a\"\n\n[[device-filter]]\nref = \"b\"\nversion = 70000\n");
    assert_eq!(error.kind, ErrorKind::OutOfRange);
    assert!(same_path(&error.path, &[key("device-filter"), Segment::Index(1), key("version")]));
}

#[test]
fn two_spellings_of_one_axis_give_one_record() {
    let config = load(
        "[[virtual-device]]\nref = \"v\"\n\
         [virtual-device.abs.\"0x1f\"]\nminimum = 0\nmaximum = 1\n\
         [virtual-device.abs.31]\nminimum = 2\nmaximum = 3\n\
         [virtual-device.abs.X]\nminimum = 4\nmaximum = 5\n\
         [virtual-device.abs.0]\nminimum = 6\nmaximum = 7\n",
    );
    let device = config.virtual_devices.get("v").unwrap();
    assert_eq!(
        device.abs_bits,
        vec![
            AbsoluteAxisBit {
                axis: AbsoluteAxis::Named(0),
                initial_value: 4,
                minimum: 4,
                maximum: 5,
                noise_threshold: 0,
                deadzone: 0,
                resolution: 0,
            },
            AbsoluteAxisBit {
                axis: AbsoluteAxis::Other(31),
                initial_value: 2,
                minimum: 2,
                maximum: 3,
                noise_threshold: 0,
                deadzone: 0,
                resolution: 0,
            },
        ]
    );
}

#[test]
fn axes_of_a_loaded_device_have_different_numbers() {
    let config = load(
        "[[virtual-device]]\nref = \"v\"\n\
         [virtual-device.abs.007]\nmin = 0\nmax = 1\n\
         [virtual-device.abs.7]\nmin = 0\nmax = 2\n\
         [virtual-device.abs.\"0x7\"]\nmin = 0\nmax = 3\n\
         [virtual-device.abs.Hat0X]\nmin = 0\nmax = 4\n\
         [virtual-device.abs.16]\nmin = 0\nmax = 5\n\
         [virtual-device.abs.RZ]\nmin = 0\nmax = 6\n",
    );
    let device = config.virtual_devices.get("v").unwrap();
    let codes: Vec<u16> = device.abs_bits.iter().map(|bit| bit.axis.code()).collect();
    assert_eq!(codes.len(), 3);
    for (i, code) in codes.iter().enumerate() {
        assert!(!codes[..i].contains(code));
    }
    assert!(codes.contains(&7));
    assert!(codes.contains(&16));
    assert!(codes.contains(&5));
}

#[test]
fn sign_behind_the_hexadecimal_prefix_is_no_axis() {
    let error = fail("[[virtual-device]]\nref = \"v\"\n[virtual-device.abs.\"0x+1f\"]\nminimum = 0\nmaximum = 1\n");
    assert_eq!(error.kind, ErrorKind::InvalidAxisName);
    assert!(same_path(
        &error.path,
        &[key("virtual-device"), Segment::Index(0), key("abs"), key("0x+1f")]
    ));
}
