use katana_storage::version::{
    decode_version, encode_version, is_block_compatible_version, plan_open, DatabaseVersionError,
    OpenPlan, StampAction, Version, VersionProbe, CURRENT_DB_VERSION, DB_VERSION_FILE_NAME,
};

#[test]
fn test_current_version() {
    assert_eq!(CURRENT_DB_VERSION, 7, "Invalid current database version");
    assert_eq!(Version::current().0, 7, "Invalid current database version");
}

#[test]
fn initialize_db_in_empty_dir() {
    let plan = plan_open(VersionProbe::Empty).unwrap();
    assert_eq!(plan.action, StampAction::CreateDirectoryAndWrite);
    assert_eq!(plan.version, Version::new(CURRENT_DB_VERSION));
    assert_eq!(encode_version(plan.version), [0, 0, 0, 7]);
    let actual_version = decode_version(&encode_version(plan.version)).unwrap();
    assert_eq!(actual_version, Version::new(7));
}

#[test]
fn initialize_db_in_existing_db_dir() {
    let first = plan_open(VersionProbe::Empty).unwrap();
    let version = first.version;
    let stamp = encode_version(version).to_vec();

    let second = plan_open(VersionProbe::Stamp(stamp)).unwrap();
    let same_version = second.version;

    assert_eq!(version, same_version);
    assert_eq!(second.action, StampAction::Keep);
}

#[test]
fn initialize_db_with_malformed_version_file() {
    let err = plan_open(VersionProbe::Stamp(b"malformed".to_vec())).unwrap_err();
    assert_eq!(err, DatabaseVersionError::MalformedContent);
    assert!(err.message().contains("Malformed database version file"));
}

#[test]
fn initialize_db_with_mismatch_version() {
    let err = plan_open(VersionProbe::Stamp(99u32.to_be_bytes().to_vec())).unwrap_err();
    assert_eq!(
        err,
        DatabaseVersionError::MismatchVersion { expected: Version::new(7), found: Version::new(99) }
    );
    assert!(err.message().contains("Database version mismatch"));
    assert_eq!(
        err.message(),
        "Database version mismatch. Expected version 7, found version 99."
    );
}

#[test]
fn initialize_db_with_missing_version_file() {
    let plan = plan_open(VersionProbe::NoStamp).unwrap();
    assert_eq!(plan, OpenPlan { version: Version::new(7), action: StampAction::Write });
    let actual_version = decode_version(&encode_version(plan.version)).unwrap();
    assert_eq!(actual_version, Version::new(CURRENT_DB_VERSION));
}

#[test]
fn open_with_older_compatible_version() {
    for old in [5u32, 6u32] {
        let plan = plan_open(VersionProbe::Stamp(old.to_be_bytes().to_vec())).unwrap();
        assert_eq!(plan, OpenPlan { version: Version::new(old), action: StampAction::Keep });
        assert_ne!(plan.version.get(), CURRENT_DB_VERSION);
    }
}

#[test]
fn open_outside_the_window_is_refused() {
    for bad in [0u32, 4, 8, 99, u32::MAX] {
        let err = plan_open(VersionProbe::Stamp(bad.to_be_bytes().to_vec())).unwrap_err();
        assert_eq!(
            err,
            DatabaseVersionError::MismatchVersion {
                expected: Version::new(7),
                found: Version::new(bad)
            }
        );
    }
}

#[test]
fn open_with_truncated_stamp_is_malformed() {
    for bytes in [vec![], vec![0u8], vec![0, 0, 7], vec![0, 0, 0, 0, 7]] {
        assert_eq!(
            plan_open(VersionProbe::Stamp(bytes)),
            Err(DatabaseVersionError::MalformedContent)
        );
    }
}

#[test]
fn unreadable_stamp_passes_the_system_words_on() {
    let err = plan_open(VersionProbe::Unreadable(String::from("permission denied"))).unwrap_err();
    assert_eq!(err, DatabaseVersionError::Io(String::from("permission denied")));
    assert_eq!(err.message(), "permission denied");
}

#[test]
fn block_compatibility_window() {
    assert!(!is_block_compatible_version(&Version::new(4)));
    assert!(is_block_compatible_version(&Version::new(5)));
    assert!(is_block_compatible_version(&Version::new(6)));
    assert!(is_block_compatible_version(&Version::new(7)));
    assert!(!is_block_compatible_version(&Version::new(8)));
}

#[test]
fn stamp_is_big_endian() {
    assert_eq!(encode_version(Version::new(0x0102_0304)), [1, 2, 3, 4]);
    assert_eq!(decode_version(&[1, 2, 3, 4]), Ok(Version::new(0x0102_0304)));
    assert_eq!(decode_version(&[0xff, 0xff, 0xff, 0xff]), Ok(Version::new(u32::MAX)));
    assert_eq!(encode_version(Version::new(u32::MAX)), [0xff; 4]);
    assert_eq!(Version::new(1234567890).to_text(), "1234567890");
    assert_eq!(Version::new(0).to_text(), "0");
}

#[test]
fn error_words() {
    assert_eq!(DatabaseVersionError::FileNotFound.message(), "Database version file not found.");
    assert_eq!(DB_VERSION_FILE_NAME, "db.version");
}
