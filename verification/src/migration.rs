//! Snapshot schema versions. A snapshot older than the oldest supported
//! version cannot be loaded; one newer than this build understands is
//! loaded with a warning (fields it does not know are skipped). Stored
//! files are never rewritten.

use vstd::prelude::*;

use crate::amount::{nat_digits, push_digits};
use crate::snapshot::Snapshot;
use crate::text::{chars_of, string_of};

verus! {

/// The schema version this build writes and fully understands.
pub const CURRENT_SCHEMA_VERSION: u32 = 1;

/// The oldest schema version this build can still load.
pub const OLDEST_SUPPORTED_VERSION: u32 = 1;

/// Why a stored snapshot could not be loaded.
#[derive(Debug)]
pub enum MigrationError {
    /// No `schema_version`, or not a whole number.
    MissingVersion,
    UnsupportedVersion { found: u32, oldest: u32 },
    /// The file is not a snapshot; the parser's message.
    Parse(String),
}

/// A loaded snapshot, with a warning when a newer build wrote it.
#[derive(Debug)]
pub struct LoadedSnapshot {
    pub snapshot: Snapshot,
    pub forward_compat_warning: Option<String>,
}

/// The schema version a stored number is read as: its low 32 bits.
pub open spec fn version_of(raw: u64) -> u32 {
    (raw % 0x1_0000_0000) as u32
}

/// The warning for a snapshot written by schema version `v`.
pub open spec fn newer_version_warning(v: u32) -> Seq<char> {
    "snapshot was written by a newer schema version ("@ + nat_digits(v as nat)
        + ") than this build fully understands (1); some fields may have been skipped"@
}

/// What a stored `schema_version` allows: an error when it is missing or
/// too old, otherwise the warning to show (if any) before loading.
pub open spec fn schema_verdict(raw: Option<u64>) -> Result<Option<Seq<char>>, (u32, u32)> {
    match raw {
        None => Err((0, 0)),
        Some(n) => {
            let v = version_of(n);
            if v < OLDEST_SUPPORTED_VERSION {
                Err((v, OLDEST_SUPPORTED_VERSION))
            } else if v > CURRENT_SCHEMA_VERSION {
                Ok(Some(newer_version_warning(v)))
            } else {
                Ok(None)
            }
        },
    }
}

/// Checks a stored snapshot's `schema_version` (`None` when it is
/// missing or not a whole number): too old is an error, newer than this
/// build gives a warning.
pub fn check_schema_version(raw: Option<u64>) -> (r: Result<Option<String>, MigrationError>)
    ensures
        raw is None <==> r matches Err(MigrationError::MissingVersion),
        raw matches Some(n) ==> match schema_verdict(raw) {
            Err((found, oldest)) => r matches Err(MigrationError::UnsupportedVersion { found: f, oldest: o })
                && f == found && o == oldest,
            Ok(None) => r matches Ok(None),
            Ok(Some(w)) => r matches Ok(Some(s)) && s@ == w,
        },
{
    let n = match raw {
        None => {
            return Err(MigrationError::MissingVersion);
        },
        Some(n) => n,
    };
    let v = (n % 0x1_0000_0000) as u32;
    if v < OLDEST_SUPPORTED_VERSION {
        return Err(MigrationError::UnsupportedVersion { found: v, oldest: OLDEST_SUPPORTED_VERSION });
    }
    if v > CURRENT_SCHEMA_VERSION {
        let mut out = chars_of("snapshot was written by a newer schema version (");
        push_digits(v as u64, &mut out);
        let mut tail = chars_of(
            ") than this build fully understands (1); some fields may have been skipped",
        );
        out.append(&mut tail);
        return Ok(Some(string_of(&out)));
    }
    Ok(None)
}

} // verus!
