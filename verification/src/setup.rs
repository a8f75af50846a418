//! What a session is set up with: where the store is, which backup is meant,
//! and the credentials to present.

use crate::errors::SessionError;
use crate::PROXMOX_BACKUP_DEFAULT_CHUNK_SIZE;
use chrono::TimeZone;
use vstd::prelude::*;

verus! {

/// Earliest UNIX timestamp with a UTC calendar time: midnight of 1 January of
/// the year -262143.
pub const MIN_UTC_TIMESTAMP: i64 = -8_334_601_228_800;

/// Latest UNIX timestamp with a UTC calendar time: the last second of the
/// year 262142.
pub const MAX_UTC_TIMESTAMP: i64 = 8_210_266_876_799;

/// Whether `secs` seconds since the epoch name a UTC calendar time.
pub open spec fn utc_representable(secs: i64) -> bool {
    MIN_UTC_TIMESTAMP <= secs <= MAX_UTC_TIMESTAMP
}

/// Trusted: calls `timestamp_opt` of `chrono::TimeZone` on `chrono::Utc`, with
/// zero nanoseconds. chrono builds the calendar time from the day number
/// `secs div 86400 + 719163` and gives `Single` exactly when that day lies in
/// a year from -262143 to 262142, `None` otherwise; the two constants are the
/// first second of the first such day and the last second of the last one.
#[verifier::external_body]
fn utc_time_exists(secs: i64) -> (exists: bool)
    ensures
        exists == utc_representable(secs),
{
    match chrono::Utc.timestamp_opt(secs, 0) {
        chrono::LocalResult::Single(_) => true,
        chrono::LocalResult::Ambiguous(_, _) => false,
        chrono::LocalResult::None => false,
    }
}

/// The signed reading of an unsigned 64-bit timestamp: values above
/// `i64::MAX` stand for the negative number with the same bit pattern.
pub open spec fn signed_seconds_spec(raw: u64) -> int {
    if raw <= i64::MAX {
        raw as int
    } else {
        raw - 0x1_0000_0000_0000_0000
    }
}

/// Reads an unsigned 64-bit timestamp as a signed one, bit for bit.
pub fn signed_seconds(raw: u64) -> (secs: i64)
    ensures
        secs == signed_seconds_spec(raw),
{
    if raw <= 0x7fff_ffff_ffff_ffff {
        raw as i64
    } else {
        let below: u64 = u64::MAX - raw;
        -(below as i64) - 1
    }
}

/// The chunk size a session works with: the caller's choice, or the default
/// where the caller passed zero.
pub open spec fn effective_chunk_size_spec(chunk_size: u64) -> u64 {
    if chunk_size > 0 {
        chunk_size
    } else {
        PROXMOX_BACKUP_DEFAULT_CHUNK_SIZE
    }
}

/// Returns `chunk_size`, or the default chunk size if `chunk_size` is zero.
pub fn effective_chunk_size(chunk_size: u64) -> (size: u64)
    ensures
        size == effective_chunk_size_spec(chunk_size),
        size > 0,
{
    if chunk_size > 0 {
        chunk_size
    } else {
        PROXMOX_BACKUP_DEFAULT_CHUNK_SIZE
    }
}

/// A parsed repository location.
#[derive(Clone, Debug, PartialEq, Eq)]
pub struct Repository {
    pub host: String,
    pub user: String,
    pub store: String,
}

/// A parsed snapshot identifier.
#[derive(Clone, Debug, PartialEq, Eq)]
pub struct Snapshot {
    pub backup_type: String,
    pub backup_id: String,
    /// Seconds since the epoch.
    pub backup_time: i64,
}

/// Everything a session needs to know before it connects. A setup is made
/// once and never changed.
#[derive(Clone, Debug, PartialEq, Eq)]
pub struct BackupSetup {
    pub host: String,
    pub store: String,
    pub user: String,
    pub chunk_size: u64,
    pub backup_id: String,
    /// Seconds since the epoch.
    pub backup_time: i64,
    pub password: Option<String>,
    pub keyfile: Option<String>,
    pub key_password: Option<String>,
    pub fingerprint: Option<String>,
}

impl BackupSetup {
    /// A setup is well formed when its chunk size is positive and its backup
    /// time is a UTC calendar time.
    pub open spec fn wf(self) -> bool {
        &&& self.chunk_size > 0
        &&& utc_representable(self.backup_time)
    }

    /// What `for_backup` returns.
    pub open spec fn for_backup_spec(
        repo: Option<Repository>,
        backup_id: Option<String>,
        backup_time: u64,
        chunk_size: u64,
        password: Option<String>,
        keyfile: Option<String>,
        key_password: Option<String>,
        fingerprint: Option<String>,
    ) -> Result<BackupSetup, SessionError> {
        if repo is None {
            Err(SessionError::MissingRepository)
        } else if backup_id is None {
            Err(SessionError::MissingBackupId)
        } else if !utc_representable(signed_seconds_spec(backup_time) as i64) {
            Err(SessionError::InvalidBackupTime)
        } else {
            Ok(
                BackupSetup {
                    host: repo->0.host,
                    store: repo->0.store,
                    user: repo->0.user,
                    chunk_size: effective_chunk_size_spec(chunk_size),
                    backup_id: backup_id->0,
                    backup_time: signed_seconds_spec(backup_time) as i64,
                    password,
                    keyfile,
                    key_password,
                    fingerprint,
                },
            )
        }
    }

    /// Makes the setup of a backup session. Fails without a repository,
    /// without a backup identifier, or with a backup time that has no UTC
    /// calendar time; a chunk size of zero selects the default.
    pub fn for_backup(
        repo: Option<Repository>,
        backup_id: Option<String>,
        backup_time: u64,
        chunk_size: u64,
        password: Option<String>,
        keyfile: Option<String>,
        key_password: Option<String>,
        fingerprint: Option<String>,
    ) -> (made: Result<BackupSetup, SessionError>)
        ensures
            made == Self::for_backup_spec(
                repo,
                backup_id,
                backup_time,
                chunk_size,
                password,
                keyfile,
                key_password,
                fingerprint,
            ),
            made matches Ok(setup) ==> setup.wf(),
    {
        let repo = match repo {
            Some(repo) => repo,
            None => {
                return Err(SessionError::MissingRepository);
            },
        };
        let backup_id = match backup_id {
            Some(backup_id) => backup_id,
            None => {
                return Err(SessionError::MissingBackupId);
            },
        };
        let secs = signed_seconds(backup_time);
        if !utc_time_exists(secs) {
            return Err(SessionError::InvalidBackupTime);
        }
        Ok(
            BackupSetup {
                host: repo.host,
                store: repo.store,
                user: repo.user,
                chunk_size: effective_chunk_size(chunk_size),
                backup_id,
                backup_time: secs,
                password,
                keyfile,
                key_password,
                fingerprint,
            },
        )
    }

    /// What `for_restore` returns.
    pub open spec fn for_restore_spec(
        repo: Option<Repository>,
        snapshot: Option<Snapshot>,
        password: Option<String>,
        keyfile: Option<String>,
        key_password: Option<String>,
        fingerprint: Option<String>,
    ) -> Result<BackupSetup, SessionError> {
        if repo is None {
            Err(SessionError::MissingRepository)
        } else if snapshot is None {
            Err(SessionError::MissingSnapshot)
        } else if snapshot->0.backup_type@ != "vm"@ {
            Err(SessionError::WrongBackupType(snapshot->0.backup_type))
        } else if !utc_representable(snapshot->0.backup_time) {
            Err(SessionError::InvalidBackupTime)
        } else {
            Ok(
                BackupSetup {
                    host: repo->0.host,
                    store: repo->0.store,
                    user: repo->0.user,
                    chunk_size: PROXMOX_BACKUP_DEFAULT_CHUNK_SIZE,
                    backup_id: snapshot->0.backup_id,
                    backup_time: snapshot->0.backup_time,
                    password,
                    keyfile,
                    key_password,
                    fingerprint,
                },
            )
        }
    }

    /// Makes the setup of a restore session from a snapshot. Fails without a
    /// repository, without a snapshot, with a snapshot whose backup type is
    /// not `vm`, or with a snapshot time that has no UTC calendar time.
    pub fn for_restore(
        repo: Option<Repository>,
        snapshot: Option<Snapshot>,
        password: Option<String>,
        keyfile: Option<String>,
        key_password: Option<String>,
        fingerprint: Option<String>,
    ) -> (made: Result<BackupSetup, SessionError>)
        ensures
            made == Self::for_restore_spec(
                repo,
                snapshot,
                password,
                keyfile,
                key_password,
                fingerprint,
            ),
            made matches Ok(setup) ==> setup.wf(),
    {
        let repo = match repo {
            Some(repo) => repo,
            None => {
                return Err(SessionError::MissingRepository);
            },
        };
        let snapshot = match snapshot {
            Some(snapshot) => snapshot,
            None => {
                return Err(SessionError::MissingSnapshot);
            },
        };
        let expected = String::from_str("vm");
        if !(snapshot.backup_type == expected) {
            return Err(SessionError::WrongBackupType(snapshot.backup_type));
        }
        if !utc_time_exists(snapshot.backup_time) {
            return Err(SessionError::InvalidBackupTime);
        }
        Ok(
            BackupSetup {
                host: repo.host,
                store: repo.store,
                user: repo.user,
                chunk_size: PROXMOX_BACKUP_DEFAULT_CHUNK_SIZE,
                backup_id: snapshot.backup_id,
                backup_time: snapshot.backup_time,
                password,
                keyfile,
                key_password,
                fingerprint,
            },
        )
    }
}

} // verus!
