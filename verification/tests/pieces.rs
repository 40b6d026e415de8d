use remap_config::codes::{
    try_into_abs_s, try_into_bus_value, try_into_ff_value, try_into_key_value, try_into_rel_value,
};
use remap_config::axis::{parse_axes, record_axis};
use remap_config::text::{digit_of, parse_number};
use remap_config::{
    AbsoluteAxis, AbsoluteAxisBit, Bus, Config, ConfigError, DeviceKind, DevicePreset, ErrorKind, ForceFeedback,
    Key, Node, RelativeAxis, Segment,
};

fn text(value: &str) -> Node {
    Node::String(value.to_string())
}

#[test]
fn device_kind_reads_its_three_names() {
    assert_eq!(DeviceKind::try_from_str("keyboard"), Some(DeviceKind::Keyboard));
    assert_eq!(DeviceKind::try_from_str("mouse"), Some(DeviceKind::Mouse));
    assert_eq!(DeviceKind::try_from_str("gamepad"), Some(DeviceKind::Gamepad));
    assert_eq!(DeviceKind::try_from_str("Keyboard"), None);
    assert_eq!(DeviceKind::try_from_str(""), None);
}

#[test]
fn device_kind_name_reads_back() {
    for kind in [DeviceKind::Keyboard, DeviceKind::Mouse, DeviceKind::Gamepad] {
        assert_eq!(DeviceKind::try_from_str(kind.name()), Some(kind));
    }
    assert_eq!(DeviceKind::Gamepad.name(), "gamepad");
}

#[test]
fn device_preset_reads_its_two_names() {
    assert_eq!(DevicePreset::try_from_str("keyboard"), Some(DevicePreset::Keyboard));
    assert_eq!(DevicePreset::try_from_str("mouse"), Some(DevicePreset::Mouse));
    assert_eq!(DevicePreset::try_from_str("gamepad"), None);
}

#[test]
fn integers_in_range_are_bare_codes() {
    for number in [0i64, 1, 3, 0x50, 0xFFFF] {
        let node = Node::Integer(number);
        assert_eq!(try_into_bus_value(&node), Some(Bus::Other(number as u16)));
        assert_eq!(try_into_key_value(&node), Some(Key::Other(number as u16)));
        assert_eq!(try_into_rel_value(&node), Some(RelativeAxis::Other(number as u16)));
        assert_eq!(try_into_ff_value(&node), Some(ForceFeedback::Other(number as u16)));
    }
}

#[test]
fn integers_out_of_range_are_no_codes() {
    for number in [0x10000i64, -1, i64::MIN, i64::MAX] {
        let node = Node::Integer(number);
        assert_eq!(try_into_bus_value(&node), None);
        assert_eq!(try_into_key_value(&node), None);
        assert_eq!(try_into_rel_value(&node), None);
        assert_eq!(try_into_ff_value(&node), None);
    }
}

#[test]
fn other_shapes_are_no_codes() {
    for node in [Node::Boolean(true), Node::Float, Node::Datetime, Node::Array(Vec::new()), Node::Table(Vec::new())] {
        assert_eq!(try_into_bus_value(&node), None);
        assert_eq!(try_into_key_value(&node), None);
        assert_eq!(try_into_rel_value(&node), None);
        assert_eq!(try_into_ff_value(&node), None);
    }
}

#[test]
fn bus_names_resolve_to_their_codes() {
    let table = [
        ("PCI", 0x01u16),
        ("USB", 0x03),
        ("HIL", 0x04),
        ("Bluetooth", 0x05),
        ("Virtual", 0x06),
        ("ISA", 0x10),
        ("Host", 0x19),
    ];
    for (name, code) in table {
        assert_eq!(try_into_bus_value(&text(name)), Some(Bus::Named(code)));
    }
    assert_eq!(try_into_bus_value(&text("usb")), None);
    assert_eq!(try_into_bus_value(&text("3")), None);
    assert_eq!(try_into_bus_value(&text("")), None);
}

#[test]
fn key_names_resolve_to_their_codes() {
    assert_eq!(try_into_key_value(&text("Escape")), Some(Key::Named(1)));
    assert_eq!(try_into_key_value(&text("A")), Some(Key::Named(30)));
    assert_eq!(try_into_key_value(&text("MouseLeft")), Some(Key::Named(0x110)));
    assert_eq!(try_into_key_value(&text("TriggerHappy")), Some(Key::Named(0x2c0)));
    assert_eq!(try_into_key_value(&text("a")), None);
    assert_eq!(try_into_key_value(&text("30")), None);
}

#[test]
fn relative_axis_names_resolve_to_their_codes() {
    let table = [
        ("X", 0u16),
        ("Y", 1),
        ("Z", 2),
        ("RX", 3),
        ("RY", 4),
        ("RZ", 5),
        ("Wheel", 8),
        ("WheelHiRes", 11),
    ];
    for (name, code) in table {
        assert_eq!(try_into_rel_value(&text(name)), Some(RelativeAxis::Named(code)));
    }
    assert_eq!(try_into_rel_value(&text("Hat0X")), None);
}

#[test]
fn force_feedback_names_resolve_to_their_codes() {
    assert_eq!(try_into_ff_value(&text("Rumble")), Some(ForceFeedback::Named(0x50)));
    assert_eq!(try_into_ff_value(&text("rumble")), None);
}

#[test]
fn absolute_axis_names_resolve_to_their_codes() {
    let table = [
        ("X", 0u16),
        ("Y", 1),
        ("Z", 2),
        ("RX", 3),
        ("RY", 4),
        ("RZ", 5),
        ("Hat0X", 16),
        ("Hat0Y", 17),
        ("Hat1X", 18),
        ("Hat1Y", 19),
        ("Hat2X", 20),
        ("Hat2Y", 21),
        ("Misc", 40),
    ];
    for (name, code) in table {
        assert_eq!(try_into_abs_s(name), Some(AbsoluteAxis::Named(code)));
    }
}

#[test]
fn absolute_axis_numbers_resolve() {
    assert_eq!(try_into_abs_s("0x1f"), Some(AbsoluteAxis::Other(31)));
    assert_eq!(try_into_abs_s("15"), Some(AbsoluteAxis::Other(15)));
    assert_eq!(try_into_abs_s("0"), Some(AbsoluteAxis::Other(0)));
    assert_eq!(try_into_abs_s("007"), Some(AbsoluteAxis::Other(7)));
    assert_eq!(try_into_abs_s("65535"), Some(AbsoluteAxis::Other(65535)));
    assert_eq!(try_into_abs_s("0xFFFF"), Some(AbsoluteAxis::Other(65535)));
    assert_eq!(try_into_abs_s("0xffff"), Some(AbsoluteAxis::Other(65535)));
    assert_eq!(try_into_abs_s("0x0"), Some(AbsoluteAxis::Other(0)));
}

#[test]
fn absolute_axis_rejects_what_is_no_axis() {
    for name in [
        "", "Sideways", "x", "65536", "99999999999999999999", "0x", "0x+", "0x10000", "0xg",
        "0X1f", "-1", "+1", "1 ", " 1", "1_0", "0x-1", "0x++1", "x1f", "١٥", "0x+1f", "0x+1F",
        "0x+a", "0x 1", "0x1 ",
    ] {
        assert_eq!(try_into_abs_s(name), None, "{:?}", name);
    }
}

#[test]
fn absolute_axis_agrees_with_the_standard_parsers() {
    let samples = [
        "0", "9", "10", "255", "65535", "65536", "000001", "0x1", "0xabc", "0xABC",
        "0x00001", "0x10000", "0xfffff", "12a", "0x1g", "",
    ];
    for name in samples {
        let all_digits = !name.is_empty() && name.bytes().all(|byte| byte.is_ascii_digit());
        let expected = if all_digits {
            name.parse::<u16>().ok()
        } else if name.starts_with("0x") {
            u16::from_str_radix(&name[2..], 16).ok()
        } else {
            None
        };
        assert_eq!(try_into_abs_s(name), expected.map(AbsoluteAxis::Other), "{:?}", name);
    }
}

#[test]
fn digits_have_their_values() {
    assert_eq!(digit_of('0', 10), Some(0));
    assert_eq!(digit_of('9', 10), Some(9));
    assert_eq!(digit_of('a', 10), None);
    assert_eq!(digit_of('a', 16), Some(10));
    assert_eq!(digit_of('F', 16), Some(15));
    assert_eq!(digit_of('g', 16), None);
    assert_eq!(digit_of('/', 16), None);
    assert_eq!(digit_of(':', 10), None);
}

#[test]
fn numbers_are_read_from_a_position() {
    assert_eq!(parse_number("abc123", 3, 10), Some(123));
    assert_eq!(parse_number("123", 3, 10), None);
    assert_eq!(parse_number("12x", 0, 10), None);
    assert_eq!(parse_number("ff", 0, 16), Some(255));
    assert_eq!(parse_number("ff", 0, 10), None);
    assert_eq!(parse_number("65535", 0, 10), Some(65535));
    assert_eq!(parse_number("65536", 0, 10), None);
    assert_eq!(parse_number("é12", 1, 10), Some(12));
}

#[test]
fn accessors_tell_shapes_apart() {
    assert_eq!(text("a").expect_str().unwrap(), "a");
    assert_eq!(Node::Integer(1).expect_str().unwrap_err().kind, ErrorKind::NotAString);
    assert_eq!(Node::Integer(-4).expect_integer().unwrap(), -4);
    assert_eq!(text("1").expect_integer().unwrap_err().kind, ErrorKind::NotAnInteger);
    assert_eq!(Node::Integer(65535).expect_u16().unwrap(), 65535);
    assert_eq!(Node::Integer(65536).expect_u16().unwrap_err().kind, ErrorKind::OutOfRange);
    assert_eq!(Node::Integer(-1).expect_u16().unwrap_err().kind, ErrorKind::OutOfRange);
    assert_eq!(Node::Boolean(true).expect_u16().unwrap_err().kind, ErrorKind::NotAnInteger);
    assert_eq!(Node::Integer(-2147483648).expect_i32().unwrap(), i32::MIN);
    assert_eq!(Node::Integer(2147483647).expect_i32().unwrap(), i32::MAX);
    assert_eq!(Node::Integer(2147483648).expect_i32().unwrap_err().kind, ErrorKind::OutOfRange);
    assert_eq!(Node::Integer(-2147483649).expect_i32().unwrap_err().kind, ErrorKind::OutOfRange);
    assert_eq!(Node::Float.expect_i32().unwrap_err().kind, ErrorKind::NotAnInteger);
    assert!(Node::Boolean(true).expect_bool().unwrap());
    assert_eq!(Node::Integer(1).expect_bool().unwrap_err().kind, ErrorKind::NotABoolean);
    assert_eq!(Node::Array(vec![Node::Integer(1)]).expect_array().unwrap().len(), 1);
    assert_eq!(Node::Table(Vec::new()).expect_array().unwrap_err().kind, ErrorKind::NotAnArray);
    assert_eq!(Node::Table(Vec::new()).expect_table().unwrap().len(), 0);
    assert_eq!(Node::Array(Vec::new()).expect_table().unwrap_err().kind, ErrorKind::NotATable);
}

#[test]
fn errors_grow_their_path_from_the_inside() {
    let error = ConfigError::at_key(ErrorKind::Missing, "maximum").under("X").under("abs").item(4).under("virtual-device");
    assert_eq!(error.kind, ErrorKind::Missing);
    assert_eq!(error.path.len(), 5);
    assert!(matches!(&error.path[0], Segment::Key(name) if name == "virtual-device"));
    assert!(matches!(&error.path[1], Segment::Index(4)));
    assert!(matches!(&error.path[2], Segment::Key(name) if name == "abs"));
    assert!(matches!(&error.path[3], Segment::Key(name) if name == "X"));
    assert!(matches!(&error.path[4], Segment::Key(name) if name == "maximum"));
    let error = ConfigError::at_index(ErrorKind::InvalidValue, 2);
    assert!(matches!(&error.path[0], Segment::Index(2)));
    let error = ConfigError::about(ErrorKind::NameCollision, "n");
    assert_eq!(error.detail, "n");
    assert!(ConfigError::here(ErrorKind::NotATable).path.is_empty());
}

#[test]
fn document_root_must_be_a_table() {
    let error = match Config::load_from_document(&Node::Array(Vec::new())) {
        Ok(_) => panic!("the load succeeded"),
        Err(error) => error,
    };
    assert_eq!(error.kind, ErrorKind::NotATable);
    assert!(error.path.is_empty());
}

#[test]
fn document_built_by_hand_loads() {
    let filter = Node::Table(vec![
        ("ref".to_string(), text("first")),
        ("vendor".to_string(), Node::Integer(1)),
        ("vendor".to_string(), Node::Integer(2)),
    ]);
    let device = Node::Table(vec![
        ("keys".to_string(), Node::Array(vec![Node::Integer(1), Node::Integer(2)])),
        ("keys".to_string(), Node::Array(vec![Node::Integer(3)])),
        ("name".to_string(), text("second")),
    ]);
    let script = Node::Table(vec![
        ("device".to_string(), text("first")),
        ("script".to_string(), text("body")),
    ]);
    let root = Node::Table(vec![
        ("script".to_string(), Node::Array(vec![script])),
        ("virtual-device".to_string(), Node::Array(vec![device])),
        ("device-filter".to_string(), Node::Array(vec![filter])),
    ]);
    let config = match Config::load_from_document(&root) {
        Ok(config) => config,
        Err(error) => panic!("the load failed: {:?}", error),
    };
    assert_eq!(config.device_filters.get("first").unwrap().vendor, Some(2));
    assert_eq!(config.virtual_devices.get("second").unwrap().key_bits, vec![Key::Other(3)]);
    assert_eq!(config.scripts.len(), 1);
    assert!(config.validate().is_ok());
}

#[test]
fn validate_finds_faults_between_sections() {
    let mut config = match Config::load_from_str("[[device-filter]]\nref = \"a\"\n[[virtual-device]]\nref = \"b\"\n") {
        Ok(config) => config,
        Err(error) => panic!("the load failed: {:?}", error),
    };
    assert!(config.validate().is_ok());
    config.scripts.push(remap_config::Script { device: "b".to_string(), code: String::new() });
    let error = config.validate().unwrap_err();
    assert_eq!(error.kind, ErrorKind::UnknownScriptDevice);
    assert_eq!(error.detail, "b");
}

fn bit(axis: AbsoluteAxis, maximum: i32) -> AbsoluteAxisBit {
    AbsoluteAxisBit {
        axis,
        initial_value: 0,
        minimum: 0,
        maximum,
        noise_threshold: 0,
        deadzone: 0,
        resolution: 0,
    }
}

#[test]
fn axis_codes_ignore_the_spelling() {
    assert_eq!(AbsoluteAxis::Named(16).code(), 16);
    assert_eq!(AbsoluteAxis::Other(16).code(), 16);
    assert_eq!(AbsoluteAxis::Other(0).code(), 0);
    assert_eq!(AbsoluteAxis::Named(65535).code(), 65535);
}

#[test]
fn recording_an_axis_replaces_in_place_or_appends() {
    let mut bits = Vec::new();
    record_axis(&mut bits, bit(AbsoluteAxis::Named(0), 1));
    record_axis(&mut bits, bit(AbsoluteAxis::Other(31), 2));
    record_axis(&mut bits, bit(AbsoluteAxis::Named(1), 3));
    assert_eq!(
        bits,
        vec![
            bit(AbsoluteAxis::Named(0), 1),
            bit(AbsoluteAxis::Other(31), 2),
            bit(AbsoluteAxis::Named(1), 3),
        ]
    );
    record_axis(&mut bits, bit(AbsoluteAxis::Other(0), 4));
    assert_eq!(
        bits,
        vec![
            bit(AbsoluteAxis::Other(0), 4),
            bit(AbsoluteAxis::Other(31), 2),
            bit(AbsoluteAxis::Named(1), 3),
        ]
    );
    record_axis(&mut bits, bit(AbsoluteAxis::Other(31), 5));
    assert_eq!(bits[1], bit(AbsoluteAxis::Other(31), 5));
    assert_eq!(bits.len(), 3);
}

#[test]
fn later_entry_of_an_axis_replaces_the_earlier() {
    let calibration = |maximum: i64| {
        Node::Table(vec![
            ("minimum".to_string(), Node::Integer(0)),
            ("maximum".to_string(), Node::Integer(maximum)),
        ])
    };
    let table = Node::Table(vec![
        ("31".to_string(), calibration(1)),
        ("Y".to_string(), calibration(2)),
        ("0x1f".to_string(), calibration(3)),
        ("1".to_string(), calibration(4)),
        ("0x01".to_string(), calibration(5)),
    ]);
    let bits = match parse_axes(&table) {
        Ok(bits) => bits,
        Err(error) => panic!("the table failed: {:?}", error),
    };
    assert_eq!(bits, vec![bit(AbsoluteAxis::Other(31), 3), bit(AbsoluteAxis::Other(1), 5)]);
}
