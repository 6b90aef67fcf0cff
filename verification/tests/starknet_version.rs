use katana_storage::starknet_version::{
    InvalidVersionError, ParseVersionError, ProtocolRelease, SegmentError, StarknetVersion,
};

#[test]
fn parse_version_valid() {
    let version = "1.9.0.0";
    let parsed = StarknetVersion::parse(version).unwrap();
    assert_eq!(parsed.segments(), [1, 9, 0, 0]);
    assert_eq!(String::from("1.9.0"), parsed.to_text());
}

#[test]
fn parse_version_missing_parts() {
    let version = "1.9.0";
    let parsed = StarknetVersion::parse(version).unwrap();
    assert_eq!(parsed.segments(), [1, 9, 0, 0]);
    assert_eq!("1.9.0", parsed.to_text());
}

#[test]
fn parse_version_invalid_digit_should_fail() {
    let version = "0.fv.1.0";
    assert!(StarknetVersion::parse(version).is_err());
    assert_eq!(
        StarknetVersion::parse(version),
        Err(ParseVersionError::ParseSegment(SegmentError::InvalidDigit))
    );
}

#[test]
fn parse_version_missing_digit_default_zero() {
    let version = "1...";
    let parsed = StarknetVersion::parse(version).unwrap();
    assert_eq!(parsed.segments(), [1, 0, 0, 0]);
    assert_eq!("1.0.0", parsed.to_text());
}

#[test]
fn parse_version_many_parts_should_succeed() {
    let version = "1.2.3.4";
    let parsed = StarknetVersion::parse(version).unwrap();
    assert_eq!(parsed.segments(), [1, 2, 3, 4]);
    assert_eq!("1.2.3.4", parsed.to_text());
}

#[test]
fn parse_invalid_formats() {
    let version = "";
    assert!(StarknetVersion::parse(version).is_err());
    let version = "1.2.3.4.5";
    assert!(StarknetVersion::parse(version).is_err());
    assert_eq!(StarknetVersion::parse(""), Err(ParseVersionError::InvalidFormat));
    assert_eq!(StarknetVersion::parse("1.2.3.4.5"), Err(ParseVersionError::InvalidFormat));
    assert_eq!(StarknetVersion::parse("x.2.3.4.5"), Err(ParseVersionError::InvalidFormat));
    assert_eq!(StarknetVersion::parse("...."), Err(ParseVersionError::InvalidFormat));
}

#[test]
fn parse_agrees_with_the_standard_number_parser() {
    let texts = [
        "0", "7", "255", "256", "0255", "00000001", "999", "1000", "+", "+5", "++5", "-1", "-",
        "1 ", " 1", "1a", "a1", "25a", "260", "99999999999999999999x", "2x9", "\u{e9}", "1\u{e9}",
    ];
    for text in texts {
        let expected = match text.parse::<u8>() {
            Ok(n) => Ok([n, 0, 0, 0]),
            Err(e) => Err(match e.kind() {
                std::num::IntErrorKind::PosOverflow => SegmentError::PosOverflow,
                _ => SegmentError::InvalidDigit,
            }),
        };
        let actual = match StarknetVersion::parse(text) {
            Ok(v) => Ok(v.segments()),
            Err(ParseVersionError::ParseSegment(e)) => Err(e),
            Err(ParseVersionError::InvalidFormat) => panic!("format of {text}"),
        };
        assert_eq!(actual, expected, "{}", text);
    }
}

#[test]
fn parse_reports_the_first_bad_segment() {
    assert_eq!(
        StarknetVersion::parse("1.256.x"),
        Err(ParseVersionError::ParseSegment(SegmentError::PosOverflow))
    );
    assert_eq!(
        StarknetVersion::parse("1.x.256"),
        Err(ParseVersionError::ParseSegment(SegmentError::InvalidDigit))
    );
    assert_eq!(StarknetVersion::parse(".5").map(|v| v.segments()), Ok([0, 5, 0, 0]));
    assert_eq!(StarknetVersion::parse(".").map(|v| v.segments()), Ok([0, 0, 0, 0]));
    assert_eq!(StarknetVersion::parse("...7").map(|v| v.segments()), Ok([0, 0, 0, 7]));
    assert_eq!(
        StarknetVersion::parse_bytes(b"255.255.255.255").map(|v| v.segments()),
        Ok([255, 255, 255, 255])
    );
}

#[test]
fn version_text_drops_a_zero_fourth_part() {
    assert_eq!(StarknetVersion::new([1, 2, 3, 4]).to_text(), "1.2.3.4");
    assert_eq!(StarknetVersion::new([1, 2, 3, 0]).to_text(), "1.2.3");
    assert_eq!(StarknetVersion::new([0, 2, 3, 0]).to_text(), "0.2.3");
    assert_eq!(StarknetVersion::new([0, 0, 0, 0]).to_text(), "0.0.0");
    assert_eq!(StarknetVersion::new([255, 100, 10, 9]).to_text(), "255.100.10.9");
}

#[test]
fn text_round_trip() {
    for segments in [[0, 13, 1, 1], [1, 2, 3, 0], [255, 255, 255, 255], [0, 0, 0, 0]] {
        let version = StarknetVersion::new(segments);
        assert_eq!(StarknetVersion::parse(&version.to_text()), Ok(version));
        assert_eq!(StarknetVersion::from_string(version.to_text()), Ok(version));
    }
}

#[test]
fn current_and_default_version() {
    assert_eq!(StarknetVersion::current().segments(), [0, 13, 1, 1]);
    assert_eq!(StarknetVersion::default(), StarknetVersion::current());
}

#[test]
fn official_releases() {
    let release = |s: [u8; 4]| StarknetVersion::new(s).release();
    assert_eq!(release([0, 9, 1, 0]), Ok(ProtocolRelease::V0_9_1));
    assert_eq!(release([0, 11, 0, 2]), Ok(ProtocolRelease::V0_11_0_2));
    assert_eq!(release([0, 13, 1, 0]), Ok(ProtocolRelease::V0_13_1));
    assert_eq!(release([0, 13, 1, 1]), Ok(ProtocolRelease::V0_13_3));
    assert_eq!(release([0, 13, 2, 1]), Ok(ProtocolRelease::V0_13_2_1));
    assert_eq!(release([0, 13, 3, 0]), Ok(ProtocolRelease::V0_13_3));
    assert_eq!(release([0, 14, 0, 0]), Ok(ProtocolRelease::V0_14_0));
    let odd = StarknetVersion::new([1, 9, 1, 0]);
    assert_eq!(odd.release(), Err(InvalidVersionError(odd)));
    assert_eq!(odd.release().unwrap_err().message(), "invalid version: 1.9.1");
    assert!(release([0, 9, 0, 0]).is_err());
    assert!(release([0, 14, 0, 1]).is_err());
}

#[test]
fn parse_error_words() {
    assert_eq!(ParseVersionError::InvalidFormat.message(), "invalid version format");
    assert_eq!(
        ParseVersionError::ParseSegment(SegmentError::InvalidDigit).message(),
        "failed to parse segment: invalid digit found in string"
    );
    assert_eq!(
        ParseVersionError::ParseSegment(SegmentError::PosOverflow).message(),
        "failed to parse segment: number too large to fit in target type"
    );
}
