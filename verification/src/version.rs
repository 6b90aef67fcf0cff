//! On-disk format version of the database: the version stamp, its
//! compatibility window, and what opening a database does about it.

use vstd::prelude::*;
use vstd::string::StringExecFns;
use crate::codec::{
    be_digits, be_number, lemma_be_digits, lemma_be_number_below_span,
    lemma_byte_order_is_number_order, span,
};
use crate::text::{append_decimal, decimal};

verus! {

/// The number of the format version written by this library.
pub const CURRENT_DB_VERSION: u32 = 7;

/// The oldest format version whose block data can still be read.
pub const MIN_BLOCK_COMPATIBLE_VERSION: u32 = 5;

/// Name of the version file.
pub const DB_VERSION_FILE_NAME: &'static str = "db.version";

/// A database format version.
#[derive(Debug, Clone, Copy, PartialEq, Eq, Structural)]
pub struct Version(pub u32);

impl Version {
    /// The number behind the version.
    pub open spec fn value(self) -> u32 {
        self.0
    }

    pub fn new(version: u32) -> (v: Self)
        ensures
            v.value() == version,
    {
        Version(version)
    }

    /// The format version written by this library.
    pub fn current() -> (v: Self)
        ensures
            v.value() == CURRENT_DB_VERSION,
    {
        Version(CURRENT_DB_VERSION)
    }

    /// The number behind the version.
    pub fn get(&self) -> (n: u32)
        ensures
            n == self.value(),
    {
        self.0
    }

    /// The version as decimal text.
    pub fn to_text(&self) -> (s: String)
        ensures
            s@ == decimal(self.value() as nat),
    {
        let mut s = String::new();
        append_decimal(&mut s, self.0 as u64);
        proof {
            assert(Seq::<char>::empty() + decimal(self.value() as nat) =~= decimal(
                self.value() as nat,
            ));
        }
        s
    }
}

/// Why the version of a database could not be had.
#[derive(Debug, Clone, PartialEq, Eq)]
pub enum DatabaseVersionError {
    /// The version file is not there.
    FileNotFound,
    /// Reading or writing the version file failed, with the system's words.
    Io(String),
    /// The version file does not hold exactly four bytes.
    MalformedContent,
    /// The database was written under a version that cannot be read.
    MismatchVersion { expected: Version, found: Version },
}

impl DatabaseVersionError {
    /// The words of the error.
    pub open spec fn message_text(self) -> Seq<char> {
        match self {
            DatabaseVersionError::FileNotFound => "Database version file not found."@,
            DatabaseVersionError::Io(words) => words@,
            DatabaseVersionError::MalformedContent => "Malformed database version file: could not convert slice to array"@,
            DatabaseVersionError::MismatchVersion { expected, found } =>
                "Database version mismatch. Expected version "@ + decimal(expected.value() as nat)
                    + ", found version "@ + decimal(found.value() as nat) + "."@,
        }
    }

    /// The words of the error.
    pub fn message(&self) -> (s: String)
        ensures
            s@ == self.message_text(),
    {
        match self {
            DatabaseVersionError::FileNotFound => String::from_str(
                "Database version file not found.",
            ),
            DatabaseVersionError::Io(words) => words.clone(),
            DatabaseVersionError::MalformedContent => String::from_str(
                "Malformed database version file: could not convert slice to array",
            ),
            DatabaseVersionError::MismatchVersion { expected, found } => {
                let mut s = String::from_str("Database version mismatch. Expected version ");
                append_decimal(&mut s, expected.0 as u64);
                s.append(", found version ");
                append_decimal(&mut s, found.0 as u64);
                s.append(".");
                s
            },
        }
    }
}

/// Whether block data written under `version` can be read by this library:
/// the version lies in the window from 5 to the current version.
pub open spec fn block_compatible(version: Version) -> bool {
    5 <= version.value() <= 7
}

/// Check if database version is compatible for block data access.
pub fn is_block_compatible_version(version: &Version) -> (b: bool)
    ensures
        b == block_compatible(*version),
{
    MIN_BLOCK_COMPATIBLE_VERSION <= version.0 && version.0 <= CURRENT_DB_VERSION
}

/// The number that the bytes of a stamp stand for, most significant byte
/// first.
pub open spec fn be_value(bytes: Seq<u8>) -> int {
    be_number(bytes) as int
}

/// The four bytes of a number, most significant byte first.
pub open spec fn be_bytes(value: u32) -> Seq<u8> {
    be_digits(value as nat, 4)
}

/// Four bytes take `2^32` values.
pub proof fn lemma_span_of_stamp()
    ensures
        span(4) == 0x1_0000_0000,
{
    reveal_with_fuel(span, 5);
}

/// The bytes of a number stand for that number: a stamp that was written
/// is read back as the version that was written.
pub proof fn lemma_stamp_round_trip(value: u32)
    ensures
        be_bytes(value).len() == 4,
        be_value(be_bytes(value)) == value,
{
    lemma_span_of_stamp();
    lemma_be_digits(value as nat, 4);
}

/// Four bytes are the bytes of the number that they stand for.
pub proof fn lemma_stamp_bytes_determined(bytes: Seq<u8>)
    requires
        bytes.len() == 4,
    ensures
        0 <= be_value(bytes) <= u32::MAX,
        be_bytes(be_value(bytes) as u32) == bytes,
{
    lemma_span_of_stamp();
    lemma_be_number_below_span(bytes);
    let value = be_number(bytes);
    lemma_be_digits(value, 4);
    lemma_byte_order_is_number_order(be_digits(value, 4), bytes);
}

/// What the version file of a database at `version` holds.
pub fn encode_version(version: Version) -> (bytes: [u8; 4])
    ensures
        bytes@ == be_bytes(version.value()),
{
    let v = version.0;
    let b3 = (v % 256) as u8;
    let r2 = v / 256;
    let b2 = (r2 % 256) as u8;
    let r1 = r2 / 256;
    let b1 = (r1 % 256) as u8;
    let r0 = r1 / 256;
    let b0 = (r0 % 256) as u8;
    let bytes = [b0, b1, b2, b3];
    proof {
        reveal_with_fuel(be_digits, 5);
        assert(bytes@ =~= be_bytes(version.value()));
    }
    bytes
}

/// What reading a version file that holds `bytes` gives.
pub open spec fn decoded(bytes: Seq<u8>) -> Result<Version, DatabaseVersionError> {
    if bytes.len() == 4 {
        Ok(Version(be_value(bytes) as u32))
    } else {
        Err(DatabaseVersionError::MalformedContent)
    }
}

/// The version that a version file with the content `bytes` names. The
/// content has to be four bytes.
pub fn decode_version(bytes: &[u8]) -> (r: Result<Version, DatabaseVersionError>)
    ensures
        r == decoded(bytes@),
{
    if bytes.len() != 4 {
        return Err(DatabaseVersionError::MalformedContent);
    }
    let b0 = bytes[0] as u32;
    let b1 = bytes[1] as u32;
    let b2 = bytes[2] as u32;
    let b3 = bytes[3] as u32;
    proof {
        let s = bytes@;
        let s3 = s.drop_last();
        let s2 = s3.drop_last();
        let s1 = s2.drop_last();
        reveal_with_fuel(be_number, 5);
        assert(be_number(s1) == s[0]);
        assert(be_number(s2) == s[0] * 256 + s[1]);
        assert(be_number(s3) == (s[0] * 256 + s[1]) * 256 + s[2]);
        assert(be_number(s) == ((s[0] * 256 + s[1]) * 256 + s[2]) * 256 + s[3]);
    }
    Ok(Version(((b0 * 256 + b1) * 256 + b2) * 256 + b3))
}

/// What was found where a database is to be opened.
#[derive(Debug, Clone, PartialEq, Eq)]
pub enum VersionProbe {
    /// The directory is missing or holds nothing.
    Empty,
    /// The directory holds a database, and the version file these bytes.
    Stamp(Vec<u8>),
    /// The directory holds a database and no version file.
    NoStamp,
    /// The version file is there and could not be read.
    Unreadable(String),
}

/// What opening does to the version file.
#[derive(Debug, Clone, Copy, PartialEq, Eq, Structural)]
pub enum StampAction {
    /// Create the directory, then write the version file.
    CreateDirectoryAndWrite,
    /// Write the version file.
    Write,
    /// Leave the version file as it is.
    Keep,
}

/// How a database is opened: under which version, and what is done to the
/// version file before the environment is opened.
#[derive(Debug, Clone, Copy, PartialEq, Eq, Structural)]
pub struct OpenPlan {
    pub version: Version,
    pub action: StampAction,
}

/// What opening a database does, from what was found. A fresh directory
/// and a database without a version file are stamped with the current
/// version. A stamp is kept where it names the current version or one of
/// the block-compatible window; any other stamp, a stamp of the wrong
/// length and a file that cannot be read end the opening.
pub open spec fn open_outcome(probe: VersionProbe) -> Result<OpenPlan, DatabaseVersionError> {
    match probe {
        VersionProbe::Empty => Ok(
            OpenPlan { version: Version(7), action: StampAction::CreateDirectoryAndWrite },
        ),
        VersionProbe::NoStamp => Ok(OpenPlan { version: Version(7), action: StampAction::Write }),
        VersionProbe::Unreadable(words) => Err(DatabaseVersionError::Io(words)),
        VersionProbe::Stamp(bytes) => match decoded(bytes@) {
            Ok(version) => if block_compatible(version) {
                Ok(OpenPlan { version, action: StampAction::Keep })
            } else {
                Err(
                    DatabaseVersionError::MismatchVersion {
                        expected: Version(7),
                        found: version,
                    },
                )
            },
            Err(e) => Err(e),
        },
    }
}

/// Decides how a database is opened, from what was found at its place.
pub fn plan_open(probe: VersionProbe) -> (r: Result<OpenPlan, DatabaseVersionError>)
    ensures
        r == open_outcome(probe),
{
    match probe {
        VersionProbe::Empty => Ok(
            OpenPlan { version: Version::current(), action: StampAction::CreateDirectoryAndWrite },
        ),
        VersionProbe::NoStamp => Ok(
            OpenPlan { version: Version::current(), action: StampAction::Write },
        ),
        VersionProbe::Unreadable(words) => Err(DatabaseVersionError::Io(words)),
        VersionProbe::Stamp(bytes) => {
            match decode_version(bytes.as_slice()) {
                Ok(version) => {
                    if version.0 != CURRENT_DB_VERSION {
                        if !is_block_compatible_version(&version) {
                            return Err(
                                DatabaseVersionError::MismatchVersion {
                                    expected: Version::current(),
                                    found: version,
                                },
                            );
                        }
                        Ok(OpenPlan { version, action: StampAction::Keep })
                    } else {
                        Ok(OpenPlan { version, action: StampAction::Keep })
                    }
                },
                Err(err) => Err(err),
            }
        },
    }
}

/// Whether a database opened under `version` has to be migrated: its
/// version is not the current one.
pub open spec fn migration_required(version: Version) -> bool {
    version.value() != CURRENT_DB_VERSION
}

/// What the version file holds after a database was opened: the stamp
/// that was there where it was kept, else the stamp of the version that
/// was written.
pub open spec fn stamp_after_open(probe: VersionProbe) -> Seq<u8> {
    match (probe, open_outcome(probe)) {
        (VersionProbe::Stamp(bytes), Ok(plan)) => bytes@,
        (_, Ok(plan)) => be_bytes(plan.version.value()),
        (VersionProbe::Stamp(bytes), Err(_)) => bytes@,
        (_, Err(_)) => Seq::<u8>::empty(),
    }
}

/// Idempotence: where a database was opened, the version file holds the
/// stamp of the version it was opened under, and opening it again opens
/// under the same version and leaves the version file alone.
pub proof fn law_open_is_idempotent(probe: VersionProbe, again: Vec<u8>)
    requires
        open_outcome(probe) is Ok,
        again@ == stamp_after_open(probe),
    ensures
        again@ == be_bytes(open_outcome(probe)->Ok_0.version.value()),
        open_outcome(VersionProbe::Stamp(again)) == Ok::<OpenPlan, DatabaseVersionError>(
            OpenPlan { version: open_outcome(probe)->Ok_0.version, action: StampAction::Keep },
        ),
{
    let version = open_outcome(probe)->Ok_0.version;
    lemma_stamp_round_trip(version.value());
    match probe {
        VersionProbe::Stamp(bytes) => {
            lemma_stamp_bytes_determined(bytes@);
        },
        _ => {},
    }
}

/// A database is opened exactly when it is fresh, has no stamp, or has a
/// stamp of four bytes that names a version of the block-compatible
/// window.
pub proof fn law_open_window(probe: VersionProbe)
    ensures
        open_outcome(probe) is Ok <==> (probe is Empty || probe is NoStamp || (probe matches VersionProbe::Stamp(
            bytes,
        ) && bytes@.len() == 4 && 5 <= be_value(bytes@) <= 7)),
        open_outcome(probe) matches Ok(plan) ==> block_compatible(plan.version),
{
    match probe {
        VersionProbe::Stamp(bytes) => {
            if bytes@.len() == 4 {
                lemma_stamp_bytes_determined(bytes@);
            }
        },
        _ => {},
    }
}

} // verus!
