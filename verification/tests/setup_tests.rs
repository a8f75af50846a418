use proxmox_backup_qemu::errors::{ErrorKind, SessionError};
use proxmox_backup_qemu::setup::{
    effective_chunk_size, signed_seconds, BackupSetup, Repository, Snapshot, MAX_UTC_TIMESTAMP,
    MIN_UTC_TIMESTAMP,
};
use proxmox_backup_qemu::PROXMOX_BACKUP_DEFAULT_CHUNK_SIZE;

fn repo() -> Repository {
    Repository {
        host: String::from("pbs.example.org"),
        user: String::from("backup@pbs"),
        store: String::from("tank"),
    }
}

fn snapshot(backup_type: &str, backup_time: i64) -> Snapshot {
    Snapshot {
        backup_type: String::from(backup_type),
        backup_id: String::from("100"),
        backup_time,
    }
}

#[test]
fn default_chunk_size_is_four_mebibytes() {
    assert_eq!(PROXMOX_BACKUP_DEFAULT_CHUNK_SIZE, 4_194_304);
}

#[test]
fn zero_chunk_size_selects_default() {
    assert_eq!(effective_chunk_size(0), 4 * 1024 * 1024);
    assert_eq!(effective_chunk_size(1), 1);
    assert_eq!(effective_chunk_size(65_536), 65_536);
    assert_eq!(effective_chunk_size(u64::MAX), u64::MAX);
}

#[test]
fn signed_seconds_reads_bit_pattern() {
    assert_eq!(signed_seconds(0), 0);
    assert_eq!(signed_seconds(1_600_000_000), 1_600_000_000);
    assert_eq!(signed_seconds(i64::MAX as u64), i64::MAX);
    assert_eq!(signed_seconds(i64::MAX as u64 + 1), i64::MIN);
    assert_eq!(signed_seconds(u64::MAX), -1);
    assert_eq!(signed_seconds(u64::MAX - 41), -42);
}

#[test]
fn backup_setup_takes_every_field() {
    let setup = BackupSetup::for_backup(
        Some(repo()),
        Some(String::from("vm-100")),
        1_600_000_000,
        0,
        Some(String::from("secret")),
        Some(String::from("/etc/key.json")),
        Some(String::from("phrase")),
        Some(String::from("ab:cd")),
    )
    .unwrap();
    assert_eq!(setup.host, "pbs.example.org");
    assert_eq!(setup.user, "backup@pbs");
    assert_eq!(setup.store, "tank");
    assert_eq!(setup.chunk_size, 4_194_304);
    assert_eq!(setup.backup_id, "vm-100");
    assert_eq!(setup.backup_time, 1_600_000_000);
    assert_eq!(setup.password.as_deref(), Some("secret"));
    assert_eq!(setup.keyfile.as_deref(), Some("/etc/key.json"));
    assert_eq!(setup.key_password.as_deref(), Some("phrase"));
    assert_eq!(setup.fingerprint.as_deref(), Some("ab:cd"));
}

#[test]
fn backup_setup_keeps_chosen_chunk_size() {
    let setup =
        BackupSetup::for_backup(Some(repo()), Some(String::from("a")), 0, 1 << 20, None, None, None, None)
            .unwrap();
    assert_eq!(setup.chunk_size, 1 << 20);
    assert_eq!(setup.password, None);
    assert_eq!(setup.keyfile, None);
    assert_eq!(setup.key_password, None);
    assert_eq!(setup.fingerprint, None);
}

#[test]
fn backup_setup_needs_repository() {
    let made = BackupSetup::for_backup(None, None, 0, 0, None, None, None, None);
    assert_eq!(made, Err(SessionError::MissingRepository));
}

#[test]
fn backup_setup_needs_backup_id() {
    let made = BackupSetup::for_backup(Some(repo()), None, u64::MAX / 2, 0, None, None, None, None);
    assert_eq!(made, Err(SessionError::MissingBackupId));
}

#[test]
fn backup_time_range_ends_with_year_262142() {
    let id = || Some(String::from("a"));
    let last = MAX_UTC_TIMESTAMP as u64;
    assert_eq!(last, 8_210_266_876_799);
    let made = BackupSetup::for_backup(Some(repo()), id(), last, 0, None, None, None, None);
    assert_eq!(made.unwrap().backup_time, 8_210_266_876_799);
    let made = BackupSetup::for_backup(Some(repo()), id(), last + 1, 0, None, None, None, None);
    assert_eq!(made, Err(SessionError::InvalidBackupTime));
    let made = BackupSetup::for_backup(Some(repo()), id(), i64::MAX as u64, 0, None, None, None, None);
    assert_eq!(made, Err(SessionError::InvalidBackupTime));
}

#[test]
fn backup_time_range_starts_with_year_minus_262143() {
    let id = || Some(String::from("a"));
    assert_eq!(MIN_UTC_TIMESTAMP, -8_334_601_228_800);
    let first = MIN_UTC_TIMESTAMP as u64;
    let made = BackupSetup::for_backup(Some(repo()), id(), first, 0, None, None, None, None);
    assert_eq!(made.unwrap().backup_time, -8_334_601_228_800);
    let made = BackupSetup::for_backup(Some(repo()), id(), first - 1, 0, None, None, None, None);
    assert_eq!(made, Err(SessionError::InvalidBackupTime));
    let made = BackupSetup::for_backup(Some(repo()), id(), u64::MAX, 0, None, None, None, None);
    assert_eq!(made.unwrap().backup_time, -1);
    let made = BackupSetup::for_backup(Some(repo()), id(), 1 << 63, 0, None, None, None, None);
    assert_eq!(made, Err(SessionError::InvalidBackupTime));
}

#[test]
fn restore_setup_from_vm_snapshot() {
    let setup = BackupSetup::for_restore(
        Some(repo()),
        Some(snapshot("vm", 1_600_000_000)),
        Some(String::from("secret")),
        None,
        None,
        None,
    )
    .unwrap();
    assert_eq!(setup.host, "pbs.example.org");
    assert_eq!(setup.user, "backup@pbs");
    assert_eq!(setup.store, "tank");
    assert_eq!(setup.chunk_size, PROXMOX_BACKUP_DEFAULT_CHUNK_SIZE);
    assert_eq!(setup.backup_id, "100");
    assert_eq!(setup.backup_time, 1_600_000_000);
    assert_eq!(setup.password.as_deref(), Some("secret"));
}

#[test]
fn restore_setup_needs_repository_and_snapshot() {
    let made = BackupSetup::for_restore(None, Some(snapshot("vm", 0)), None, None, None, None);
    assert_eq!(made, Err(SessionError::MissingRepository));
    let made = BackupSetup::for_restore(Some(repo()), None, None, None, None, None);
    assert_eq!(made, Err(SessionError::MissingSnapshot));
}

#[test]
fn restore_setup_rejects_other_backup_types() {
    let made = BackupSetup::for_restore(Some(repo()), Some(snapshot("ct", 0)), None, None, None, None);
    assert_eq!(made, Err(SessionError::WrongBackupType(String::from("ct"))));
    let error = made.unwrap_err();
    assert_eq!(error.kind(), ErrorKind::Setup);
    assert_eq!(error.message(), "wrong backup type (ct != vm)");
    let made = BackupSetup::for_restore(Some(repo()), Some(snapshot("host", 0)), None, None, None, None);
    assert_eq!(made, Err(SessionError::WrongBackupType(String::from("host"))));
    let made = BackupSetup::for_restore(Some(repo()), Some(snapshot("", 0)), None, None, None, None);
    assert_eq!(made, Err(SessionError::WrongBackupType(String::new())));
}

#[test]
fn restore_setup_checks_snapshot_time() {
    let made = BackupSetup::for_restore(
        Some(repo()),
        Some(snapshot("vm", MAX_UTC_TIMESTAMP + 1)),
        None,
        None,
        None,
        None,
    );
    assert_eq!(made, Err(SessionError::InvalidBackupTime));
    let made = BackupSetup::for_restore(
        Some(repo()),
        Some(snapshot("vm", MIN_UTC_TIMESTAMP)),
        None,
        None,
        None,
        None,
    );
    assert_eq!(made.unwrap().backup_time, MIN_UTC_TIMESTAMP);
    let made = BackupSetup::for_restore(Some(repo()), Some(snapshot("vm", i64::MIN)), None, None, None, None);
    assert_eq!(made, Err(SessionError::InvalidBackupTime));
}
