use techmino_replay_toolkit::InputParseMode;
use techmino_replay_toolkit::InputParseMode::{Absolute, Relative};

#[test]
fn test_inferred_mode() {
    let cases = [
        ("Techmino is fun!", None),
        ("Alpha v0.15.1", Some(Relative)),
        ("V0.16.2", Some(Relative)),
        ("0.17.22", Some(Absolute)),
        ("v0.17.6@26fc", Some(Relative)),
        ("v 1.2.3", Some(Absolute)),
        ("WTF", Some(Relative)),
        ("Unofficial Expansion v0.2.1", Some(Relative)),
        ("V0.17.22 IRSv1.1 PASSTHROUGHFIXv1.0 KOSv1.2beta TE:Cv1.0", Some(Absolute)),
        ("V0.17.22 + IRSv1.1.1", Some(Absolute)),
        ("V0.17.22 IRSv1.1 PASSTHROUGHFIXv1.0 KOCv0.1beta TE:Cv1.0", Some(Absolute)),
    ];

    for (input, expected) in cases {
        assert_eq!(InputParseMode::try_infer_from_version(input), expected);
    }
}

#[test]
fn threshold_is_the_first_absolute_version() {
    assert_eq!(InputParseMode::ABSOLUTE_TIMING_START, (0, 17, 22));
    assert_eq!(InputParseMode::try_infer_from_version("0.17.21"), Some(Relative));
    assert_eq!(InputParseMode::try_infer_from_version("0.17.22"), Some(Absolute));
    assert_eq!(InputParseMode::try_infer_from_version("0.17.23"), Some(Absolute));
    assert_eq!(InputParseMode::try_infer_from_version("0.18.0"), Some(Absolute));
    assert_eq!(InputParseMode::try_infer_from_version("0.16.99"), Some(Relative));
    assert_eq!(InputParseMode::try_infer_from_version("1.0.0"), Some(Absolute));
    assert_eq!(InputParseMode::try_infer_from_version("0.0.0"), Some(Relative));
}

#[test]
fn numbers_are_compared_as_numbers() {
    assert_eq!(InputParseMode::try_infer_from_version("0.17.3"), Some(Relative));
    assert_eq!(InputParseMode::try_infer_from_version("0.9.100"), Some(Relative));
    assert_eq!(InputParseMode::try_infer_from_version("0.100.0"), Some(Absolute));
}

#[test]
fn what_is_no_version_tells_nothing() {
    assert_eq!(InputParseMode::try_infer_from_version(""), None);
    assert_eq!(InputParseMode::try_infer_from_version("1.2"), None);
    assert_eq!(InputParseMode::try_infer_from_version("1.2.3.4"), None);
    assert_eq!(InputParseMode::try_infer_from_version("0.17.022"), None);
    assert_eq!(InputParseMode::try_infer_from_version("99999999999999999999.0.0"), None);
    assert_eq!(InputParseMode::try_infer_from_version(" "), None);
}

#[test]
fn leading_marks_are_dropped() {
    assert_eq!(InputParseMode::try_infer_from_version("vvV0.17.22"), Some(Absolute));
    assert_eq!(InputParseMode::try_infer_from_version("alphaALPHA0.16.0"), Some(Relative));
    assert_eq!(InputParseMode::try_infer_from_version("v \t\n0.17.22"), Some(Absolute));
    // whitespace goes last, so a `v` behind it stays: it is no numeric character
    assert_eq!(InputParseMode::try_infer_from_version(" v0.17.22"), Some(Absolute));
    // whitespace behind `v` goes, whitespace behind that ends the number
    assert_eq!(InputParseMode::try_infer_from_version("v 0.17.22 0"), Some(Absolute));
    assert_eq!(InputParseMode::try_infer_from_version("v 0.17 .22"), None);
}

#[test]
fn fork_marks_decide_before_any_number() {
    assert_eq!(InputParseMode::try_infer_from_version("0.17.22 wtf"), Some(Relative));
    assert_eq!(InputParseMode::try_infer_from_version("9.9.9@wTf"), Some(Relative));
    assert_eq!(InputParseMode::try_infer_from_version("v unofficial expansion 9.9.9"), Some(Relative));
    // the second mark counts only at the start
    assert_eq!(InputParseMode::try_infer_from_version("0.17.22 unofficial expansion"), Some(Absolute));
}

#[test]
fn only_numeric_characters_and_dots_are_read() {
    assert_eq!(InputParseMode::try_infer_from_version("0.17.22beta"), Some(Absolute));
    assert_eq!(InputParseMode::try_infer_from_version("0.17-rc.22"), Some(Absolute));
    assert_eq!(InputParseMode::try_infer_from_version("0.17.22@1.2.3"), Some(Absolute));
    // a numeric character that is no ASCII digit is kept, and is no version
    assert_eq!(InputParseMode::try_infer_from_version("0.17.22\u{b2}"), None);
    assert_eq!(InputParseMode::try_infer_from_version("0.17.2\u{ff12}"), None);
}
