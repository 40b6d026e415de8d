use remap_config::render::{decimal_text, digit_text};
use remap_config::{Config, ConfigError, ErrorKind};

fn fail(text: &str) -> ConfigError {
    match Config::load_from_str(text) {
        Ok(_) => panic!("the load succeeded"),
        Err(error) => error,
    }
}

#[test]
fn digits_are_written_as_characters() {
    let expected = ["0", "1", "2", "3", "4", "5", "6", "7", "8", "9"];
    for digit in 0..10 {
        assert_eq!(digit_text(digit), expected[digit]);
    }
}

#[test]
fn numbers_are_written_in_decimal() {
    assert_eq!(decimal_text(0), "0");
    assert_eq!(decimal_text(7), "7");
    assert_eq!(decimal_text(10), "10");
    assert_eq!(decimal_text(109), "109");
    assert_eq!(decimal_text(65535), "65535");
    assert_eq!(decimal_text(usize::MAX), usize::MAX.to_string());
}

#[test]
fn location_is_the_dotted_path() {
    let error = fail("[[virtual-device]]\nref = \"a\"\n\n[[virtual-device]]\nref = \"v\"\n[virtual-device.abs.RX]\nminimum = 0\n");
    assert_eq!(error.location(), "virtual-device.1.abs.RX.maximum");
    let error = fail("[[script]]\ndevice = \"nosuch\"\nscript = \"x\"\n");
    assert_eq!(error.location(), "");
    let error = fail("other = 1\n");
    assert_eq!(error.location(), "other");
    let error = ConfigError::at_index(ErrorKind::InvalidValue, 12).under("keys").item(345).under("virtual-device");
    assert_eq!(error.location(), "virtual-device.345.keys.12");
}

#[test]
fn messages_name_their_subject() {
    assert_eq!(
        fail("[[device-filter]]\nref = 1\n").message(),
        "\"device-filter.0.ref\" is not a string"
    );
    assert_eq!(
        fail("[[device-filter]]\nref = \"a\"\nvendor = true\n").message(),
        "\"device-filter.0.vendor\" is not an integer"
    );
    assert_eq!(
        fail("[[device-filter]]\nref = \"a\"\nexclusive = 0\n").message(),
        "\"device-filter.0.exclusive\" is not a boolean"
    );
    assert_eq!(fail("script = 1\n").message(), "\"script\" is not an array");
    assert_eq!(fail("device-filter = [1]\n").message(), "\"device-filter.0\" is not a table");
    assert_eq!(
        fail("[[device-filter]]\nref = \"a\"\nproduct = 65536\n").message(),
        "\"device-filter.0.product\" is out of range"
    );
    assert_eq!(
        fail("[[device-filter]]\nref = \"a\"\nbus = \"Serial\"\n").message(),
        "\"device-filter.0.bus\" has an invalid value"
    );
    assert_eq!(
        fail("[[virtual-device]]\nref = \"a\"\n[virtual-device.abs.Tilt]\nmin = 0\nmax = 1\n").message(),
        "\"virtual-device.0.abs.Tilt\" is not the name of an absolute axis"
    );
    assert_eq!(fail("colour = 1\n").message(), "unrecognized key: \"colour\"");
    assert_eq!(
        fail("[[device-filter]]\nvendor = 1\n").message(),
        "missing \"device-filter.0.ref\""
    );
    assert_eq!(
        fail("[[virtual-device]]\nref = \"a\"\n[virtual-device.abs.X]\nmin = 0\n").message(),
        "missing \"virtual-device.0.abs.X.maximum\""
    );
    assert_eq!(
        fail("[[script]]\ndevice = \"nosuch\"\nscript = \"\"\n").message(),
        "[[script]] refers to a non-existing device filter: \"nosuch\""
    );
    assert_eq!(
        fail("[[device-filter]]\nref = \"X\"\n[[virtual-device]]\nref = \"X\"\n").message(),
        "same name used as a device filter and a virtual device: \"X\""
    );
    assert_eq!(
        fail("[[virtual-device]]\nref = \"v\"\nredirect-force-feedback-to = \"gone\"\n").message(),
        "[[virtual-device]]'s 'redirect-force-feedback-to' refers to a non-existing device filter: \"gone\""
    );
}

#[test]
fn syntax_message_is_the_reader_s_own() {
    let error = fail("a = \n");
    assert_eq!(error.kind, ErrorKind::Syntax);
    assert_eq!(error.message(), error.detail);
    assert!(!error.message().is_empty());
}
