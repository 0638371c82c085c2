use traxat::angle::Angle;
use traxat::message::Message;

fn decode(line: &str) -> Message {
    Message::from_str(line).unwrap()
}

fn degrees(whole: i32) -> Angle {
    Angle::from_degrees(whole)
}

#[test]
fn decode_position_set() {
    assert_eq!(decode("P 90 45"), Message::PSet(degrees(90), degrees(45)));
    assert_eq!(
        decode("P 180.50 -12.25"),
        Message::PSet(Angle { microdegrees: 180_500_000 }, Angle { microdegrees: -12_250_000 })
    );
}

#[test]
fn decode_position_get() {
    assert_eq!(decode("p"), Message::PGet);
    assert_eq!(decode("p\n"), Message::PGet);
}

#[test]
fn decode_step_test() {
    assert_eq!(decode("s 10"), Message::StepTest(10));
    assert_eq!(decode("s -10"), Message::StepTest(-10));
    assert_eq!(decode("s 0"), Message::StepTest(0));
}

#[test]
fn decode_step_test_cuts_decimal_places() {
    assert_eq!(decode("s 3.7"), Message::StepTest(3));
    assert_eq!(decode("s -3.7"), Message::StepTest(-3));
    assert_eq!(decode("s 0.999999"), Message::StepTest(0));
}

#[test]
fn decode_step_test_stays_within_i32() {
    assert_eq!(decode("s 2147483647"), Message::StepTest(i32::MAX));
    assert_eq!(decode("s 2147483648"), Message::StepTest(i32::MAX));
    assert_eq!(decode("s 99999999999"), Message::StepTest(i32::MAX));
    assert_eq!(decode("s -2147483648"), Message::StepTest(i32::MIN));
    assert_eq!(decode("s -99999999999"), Message::StepTest(i32::MIN));
}

#[test]
fn decode_powers_of_ten() {
    assert_eq!(decode("P 9e1 4.5E1"), Message::PSet(degrees(90), degrees(45)));
    assert_eq!(decode("s 1e3"), Message::StepTest(1000));
    assert_eq!(decode("s 25e-1"), Message::StepTest(2));
}

#[test]
fn decode_close() {
    assert_eq!(decode("q"), Message::Close);
    assert_eq!(decode(" q "), Message::Close);
}

#[test]
fn decode_empty_input() {
    assert_eq!(decode(""), Message::NotACommand);
    assert_eq!(decode(" "), Message::NotACommand);
    assert_eq!(decode("\n"), Message::NotACommand);
    assert_eq!(decode(" \t\r\n\x0b\x0c"), Message::NotACommand);
}

#[test]
fn decode_unknown_command() {
    assert_eq!(decode("x"), Message::NotACommand);
    assert_eq!(decode("pp"), Message::NotACommand);
    assert_eq!(decode("Q"), Message::NotACommand);
    assert_eq!(decode("S 10"), Message::NotACommand);
    assert_eq!(decode("set_pos 90 45"), Message::NotACommand);
    assert_eq!(decode("90 45"), Message::NotACommand);
    assert_eq!(decode("P90 45"), Message::NotACommand);
}

#[test]
fn decode_too_few_parameters() {
    assert_eq!(decode("P"), Message::NotACommand);
    assert_eq!(decode("P 90"), Message::NotACommand);
    assert_eq!(decode("s"), Message::NotACommand);
}

#[test]
fn decode_malformed_parameter() {
    assert_eq!(decode("P 90 abc"), Message::NotACommand);
    assert_eq!(decode("P abc 45"), Message::NotACommand);
    assert_eq!(decode("P 90 45 abc"), Message::NotACommand);
    assert_eq!(decode("s ten"), Message::NotACommand);
    assert_eq!(decode("s 1e"), Message::NotACommand);
    assert_eq!(decode("P inf 0"), Message::NotACommand);
    assert_eq!(decode("P 0 NaN"), Message::NotACommand);
    assert_eq!(decode("p abc"), Message::NotACommand);
    assert_eq!(decode("q now"), Message::NotACommand);
    assert_eq!(decode("P 90 99999999999999999999"), Message::NotACommand);
}

#[test]
fn decode_ignores_spare_parameters() {
    assert_eq!(decode("p 1 2 3"), Message::PGet);
    assert_eq!(decode("q 1"), Message::Close);
    assert_eq!(decode("s 5 6"), Message::StepTest(5));
    assert_eq!(decode("P 1 2 3"), Message::PSet(degrees(1), degrees(2)));
}

#[test]
fn decode_splits_at_any_white_space() {
    assert_eq!(decode("\tP\n90\r45 "), Message::PSet(degrees(90), degrees(45)));
    assert_eq!(decode("P   90     45\n"), Message::PSet(degrees(90), degrees(45)));
    assert_eq!(decode("P\x0b90\x0c45"), Message::PSet(degrees(90), degrees(45)));
}

#[test]
fn decode_takes_raw_bytes() {
    assert_eq!(Message::decode(b"P 90 45\n"), Message::PSet(degrees(90), degrees(45)));
    assert_eq!(Message::decode(&[0xff, 0xfe]), Message::NotACommand);
    assert_eq!(Message::decode(&[b'p', b' ', 0xff]), Message::NotACommand);
    assert_eq!(Message::decode(&[]), Message::NotACommand);
    assert_eq!(Message::decode(&[0]), Message::NotACommand);
}

#[test]
fn decode_is_total() {
    let alphabet: [u8; 9] = [b'P', b'p', b's', b'q', b' ', b'1', b'.', b'-', b'x'];
    let mut line: Vec<u8> = Vec::new();
    for a in alphabet {
        for b in alphabet {
            for c in alphabet {
                for d in alphabet {
                    line.clear();
                    line.push(a);
                    line.push(b);
                    line.push(c);
                    line.push(d);
                    let first = Message::decode(&line);
                    let second = Message::decode(&line);
                    assert_eq!(first, second);
                }
            }
        }
    }
}

#[test]
fn from_str_never_fails() {
    for line in ["", "P", "P 1", "P 1 2", "p", "s", "s 1", "q", "?", "P x y", "\u{00e9}"] {
        assert!(Message::from_str(line).is_ok());
    }
}
