use rip::relocation::{after, first_step, EntryKind, Next, RelocationError, Step};
use rip::item::{order_newest_first, TrashItem};
use rip::naming::{absolute_path, join_path, new_trashed_name, restored_path, trashed_name, ID_LEN};
use rip::policy::{default_keep_policy, parse_keep_policy, policy_from_normalized, KeepPolicy, PolicyError};
use rip::retention::{answer_is_yes, confirms, expired, plan_cleanup, positions_to_purge, CleanupPlan};
use rip::sidecar::{
    decode_sidecar, encode_sidecar, parse_deletion_date, read_fields, render_sidecar,
    resolve_deletion_time, SidecarRecord, YEAR_0_START, YEAR_9999_END,
};
use rip::store::{
    admit_sidecar, files_dir, info_dir, info_file_name, restore_target, select_item, trash_root,
    trashed_name_of, RestoreError,
};

const DAY: i64 = 86400;
const NOW: i64 = 1_705_314_600;

fn item(name: &str, t: i64) -> TrashItem {
    TrashItem {
        original_path: format!("/home/u/{name}"),
        deletion_time: t,
        trashed_name: format!("{name}_id"),
        info_path: format!("/trash/info/{name}_id.trashinfo"),
    }
}

#[test]
fn policy_words() {
    assert_eq!(parse_keep_policy("never"), Ok(KeepPolicy::Never));
    assert_eq!(parse_keep_policy("ask"), Ok(KeepPolicy::AskBeforeDelete));
    assert_eq!(parse_keep_policy("  ASK \n"), Ok(KeepPolicy::AskBeforeDelete));
    assert_eq!(parse_keep_policy("Never"), Ok(KeepPolicy::Never));
}

#[test]
fn policy_day_counts() {
    assert_eq!(parse_keep_policy("30d"), Ok(KeepPolicy::Days(30)));
    assert_eq!(parse_keep_policy(" 90D "), Ok(KeepPolicy::Days(90)));
    assert_eq!(parse_keep_policy("007d"), Ok(KeepPolicy::Days(7)));
    assert_eq!(parse_keep_policy("9223372036854775807d"), Ok(KeepPolicy::Days(i64::MAX)));
    assert_eq!(policy_from_normalized("12d"), Ok(KeepPolicy::Days(12)));
}

#[test]
fn policy_errors() {
    assert_eq!(parse_keep_policy("abcd"), Err(PolicyError::InvalidDayCount));
    assert_eq!(parse_keep_policy("0d"), Err(PolicyError::InvalidDayCount));
    assert_eq!(parse_keep_policy("-5d"), Err(PolicyError::InvalidDayCount));
    assert_eq!(parse_keep_policy("+7d"), Err(PolicyError::InvalidDayCount));
    assert_eq!(parse_keep_policy("30dd"), Err(PolicyError::InvalidDayCount));
    assert_eq!(parse_keep_policy("3 d"), Err(PolicyError::InvalidDayCount));
    assert_eq!(parse_keep_policy("d"), Err(PolicyError::InvalidDayCount));
    assert_eq!(parse_keep_policy("3x4d"), Err(PolicyError::InvalidDayCount));
    assert_eq!(parse_keep_policy("9223372036854775808d"), Err(PolicyError::InvalidDayCount));
    assert_eq!(parse_keep_policy("99999999999999999999999d"), Err(PolicyError::InvalidDayCount));
    assert_eq!(parse_keep_policy("forever"), Err(PolicyError::Unrecognized));
    assert_eq!(parse_keep_policy(""), Err(PolicyError::Unrecognized));
    assert_eq!(parse_keep_policy("30"), Err(PolicyError::Unrecognized));
    assert_eq!(policy_from_normalized("NEVER"), Err(PolicyError::Unrecognized));
}

#[test]
fn thirty_day_retention() {
    let p = KeepPolicy::Days(30);
    assert!(expired(p, NOW, NOW - 31 * DAY));
    assert!(!expired(p, NOW, NOW - 29 * DAY));
    assert!(!expired(p, NOW, NOW - 30 * DAY));
    assert!(expired(p, NOW, NOW - 30 * DAY - 1));
}

#[test]
fn never_and_ask_cutoffs() {
    assert!(expired(KeepPolicy::Never, NOW, NOW - 1));
    assert!(!expired(KeepPolicy::Never, NOW, NOW));
    assert!(expired(KeepPolicy::AskBeforeDelete, NOW, NOW - 31 * DAY));
    assert!(!expired(KeepPolicy::AskBeforeDelete, NOW, NOW - 29 * DAY));
    assert!(!expired(KeepPolicy::Days(i64::MAX), NOW, i64::MIN));
}

#[test]
fn cleanup_plans() {
    let items = vec![item("a", NOW - 31 * DAY), item("b", NOW - 29 * DAY), item("c", NOW - 40 * DAY)];
    match plan_cleanup(KeepPolicy::Days(30), NOW, &items) {
        CleanupPlan::Purge(v) => assert_eq!(v, vec![0, 2]),
        other => panic!("unexpected plan {other:?}"),
    }
    match plan_cleanup(KeepPolicy::AskBeforeDelete, NOW, &items) {
        CleanupPlan::Confirm(v) => assert_eq!(v, vec![0, 2]),
        other => panic!("unexpected plan {other:?}"),
    }
    match plan_cleanup(KeepPolicy::Never, NOW, &items) {
        CleanupPlan::Purge(v) => assert_eq!(v, vec![0, 1, 2]),
        other => panic!("unexpected plan {other:?}"),
    }
    assert!(matches!(plan_cleanup(KeepPolicy::Days(90), NOW, &items), CleanupPlan::Nothing));
    assert!(matches!(plan_cleanup(KeepPolicy::Never, NOW, &Vec::new()), CleanupPlan::Nothing));
}

#[test]
fn cleanup_answers() {
    assert!(confirms("yes"));
    assert!(confirms("  YeS\n"));
    assert!(!confirms("y"));
    assert!(!confirms(""));
    assert!(!confirms("no"));
    assert!(answer_is_yes("yes"));
    assert!(!answer_is_yes("YES"));
    assert_eq!(positions_to_purge(CleanupPlan::Confirm(vec![1, 3]), true), vec![1, 3]);
    assert_eq!(positions_to_purge(CleanupPlan::Confirm(vec![1, 3]), false), Vec::<usize>::new());
    assert_eq!(positions_to_purge(CleanupPlan::Purge(vec![2]), false), vec![2]);
    assert_eq!(positions_to_purge(CleanupPlan::Nothing, true), Vec::<usize>::new());
}

#[test]
fn sidecar_text_layout() {
    assert_eq!(
        render_sidecar("%2Fa", "2024-01-15T10:30:00Z"),
        "[Trash Info]\nPath=%2Fa\nDeletionDate=2024-01-15T10:30:00Z\n"
    );
}

#[test]
fn sidecar_round_trip_with_reserved_characters() {
    let text = encode_sidecar("/tmp/a b&c?.txt", NOW).unwrap();
    assert_eq!(
        text,
        "[Trash Info]\nPath=%2Ftmp%2Fa%20b%26c%3F.txt\nDeletionDate=2024-01-15T10:30:00Z\n"
    );
    let rec = decode_sidecar(&text, 0).unwrap();
    assert_eq!(rec.original_path, "/tmp/a b&c?.txt");
    assert_eq!(rec.deletion_time, NOW);
    let odd = encode_sidecar("/tmp/ünï%20cödé#[x]\n", NOW - 5).unwrap();
    let rec = decode_sidecar(&odd, 0).unwrap();
    assert_eq!(rec.original_path, "/tmp/ünï%20cödé#[x]\n");
    assert_eq!(rec.deletion_time, NOW - 5);
}

#[test]
fn sidecar_round_trip_at_year_bounds() {
    for t in [YEAR_0_START, YEAR_9999_END, 0, -1] {
        let text = encode_sidecar("/x/y z", t).unwrap();
        let rec = decode_sidecar(&text, 99).unwrap();
        assert_eq!(rec.original_path, "/x/y z");
        assert_eq!(rec.deletion_time, t);
    }
}

#[test]
fn default_policy_is_thirty_days() {
    assert_eq!(default_keep_policy(), KeepPolicy::Days(30));
}

#[test]
fn sidecar_fields_last_line_wins() {
    let (p, d) = read_fields("Path=one\r\nDeletionDate=x\nPath=two\r\nextra=1");
    assert_eq!(p.as_deref(), Some("two"));
    assert_eq!(d.as_deref(), Some("x"));
    let (p, d) = read_fields("[Trash Info]\nDeletionDate=2024-01-15T10:30:00Z\r");
    assert_eq!(p, None);
    assert_eq!(d.as_deref(), Some("2024-01-15T10:30:00Z\r"));
}

#[test]
fn sidecar_without_path_is_rejected() {
    let text = "[Trash Info]\nDeletionDate=2024-01-15T10:30:00Z\n";
    assert!(decode_sidecar(text, NOW).is_none());
    assert!(admit_sidecar("x".to_string(), "/t/info/x.trashinfo".to_string(), decode_sidecar(text, NOW), true).is_none());
    assert!(decode_sidecar("[Trash Info]\nPath=%2Fa\n", NOW).is_none());
    assert!(decode_sidecar("Path=%FF%FE\nDeletionDate=2024-01-15T10:30:00Z\n", NOW).is_none());
}

#[test]
fn lenient_deletion_dates() {
    assert_eq!(parse_deletion_date("2024-01-15T10:30:00Z", 7), NOW);
    assert_eq!(parse_deletion_date("2024-01-15T10:30:00", 7), NOW);
    assert_eq!(parse_deletion_date("2024-01-15T12:30:00+02:00", 7), NOW);
    assert_eq!(parse_deletion_date("yesterday", 7), 7);
    assert_eq!(resolve_deletion_time(Some(1), Some(2), 3), 1);
    assert_eq!(resolve_deletion_time(None, Some(2), 3), 2);
    assert_eq!(resolve_deletion_time(None, None, 3), 3);
    let rec = decode_sidecar("Path=%2Fa\nDeletionDate=garbage\n", 42).unwrap();
    assert_eq!(rec.deletion_time, 42);
}

#[test]
fn stored_names() {
    assert_eq!(trashed_name("/home/u/report.txt", "abcdefghij"), "report_abcdefghij.txt");
    assert_eq!(trashed_name("report", "abcdefghij"), "report_abcdefghij");
    assert_eq!(trashed_name("/a/.bashrc", "X"), ".bashrc_X");
    assert_eq!(trashed_name("/a/dir/", "X"), "dir_X");
    assert_eq!(trashed_name("archive.tar.gz", "X"), "archive.tar_X.gz");
    assert_eq!(trashed_name("name.", "X"), "name_X");
    assert_eq!(trashed_name("..", "X"), "file_X");
    assert_eq!(trashed_name("/a/b/.", "X"), "b_X");
    assert_eq!(trashed_name("/a/b/./", "X"), "b_X");
    assert_eq!(trashed_name("/.", "X"), "file_X");
}

#[test]
fn fresh_names_differ() {
    let a = new_trashed_name("/one/report.txt");
    let b = new_trashed_name("/two/report.txt");
    assert_ne!(a, b);
    assert!(a.starts_with("report_") && a.ends_with(".txt"));
    assert_eq!(a.len(), "report_".len() + ID_LEN + ".txt".len());
}

#[test]
fn collision_safe_restore_name() {
    assert_eq!(
        restored_path("/home/u/report.txt", "2024-01-15"),
        "/home/u/report (restored 2024-01-15).txt"
    );
    assert_eq!(
        restored_path("/home/u/archive.tar.gz", "2024-01-15"),
        "/home/u/archive.tar (restored 2024-01-15).gz"
    );
    assert_eq!(restored_path("/home/u/notes", "2024-01-15"), "/home/u/notes (restored 2024-01-15)");
    assert_eq!(
        restore_target("/home/u/report.txt", false, true, "2024-01-15").as_deref(),
        Ok("/home/u/report.txt")
    );
    assert_eq!(
        restore_target("/home/u/report.txt", true, false, "2024-01-15").as_deref(),
        Ok("/home/u/report (restored 2024-01-15).txt")
    );
    assert_eq!(
        restore_target("/home/u/report.txt", true, true, "2024-01-15"),
        Err(RestoreError::DestinationTaken)
    );
    assert_eq!(restored_path("/home/u/.", "D"), "/home/u (restored D)");
}

#[test]
fn paths_and_layout() {
    assert_eq!(absolute_path("a.txt", "/home/u"), "/home/u/a.txt");
    assert_eq!(absolute_path("a.txt", "/"), "/a.txt");
    assert_eq!(absolute_path("/x/y", "/home/u"), "/x/y");
    assert_eq!(join_path("/r/", "files"), "/r/files");
    assert_eq!(trash_root(Some("/data"), Some("/home/u")).as_deref(), Some("/data/Trash"));
    assert_eq!(trash_root(Some(""), Some("/home/u")).as_deref(), Some("/home/u/.local/share/Trash"));
    assert_eq!(trash_root(None, Some("/home/u")).as_deref(), Some("/home/u/.local/share/Trash"));
    assert_eq!(trash_root(None, None), None);
    assert_eq!(files_dir("/r"), "/r/files");
    assert_eq!(info_dir("/r"), "/r/info");
    assert_eq!(info_file_name("a_X.txt"), "a_X.txt.trashinfo");
    assert_eq!(trashed_name_of("a_X.txt.trashinfo").as_deref(), Some("a_X.txt"));
    assert_eq!(trashed_name_of(".trashinfo"), None);
    assert_eq!(trashed_name_of("notes.txt"), None);
}

#[test]
fn scan_admission() {
    let rec = SidecarRecord { original_path: "/a".to_string(), deletion_time: 5 };
    let kept = admit_sidecar("a_X".to_string(), "/t/info/a_X.trashinfo".to_string(), Some(rec.clone()), true).unwrap();
    assert_eq!(kept.original_path, "/a");
    assert_eq!(kept.deletion_time, 5);
    assert_eq!(kept.trashed_name, "a_X");
    assert!(admit_sidecar("a_X".to_string(), "i".to_string(), Some(rec), false).is_none());
}

#[test]
fn listing_order_is_newest_first() {
    let listed = order_newest_first(vec![item("a", 10), item("b", 20), item("c", 30)]);
    let names: Vec<&str> = listed.iter().map(|i| i.trashed_name.as_str()).collect();
    assert_eq!(names, vec!["c_id", "b_id", "a_id"]);
    let tied = order_newest_first(vec![item("x", 5), item("y", 9), item("z", 5)]);
    assert_eq!(tied[0].trashed_name, "y_id");
    assert_eq!(tied.len(), 3);
    assert!(order_newest_first(Vec::new()).is_empty());
}

#[test]
fn restore_index_selection() {
    assert_eq!(select_item(3, 1), Ok(0));
    assert_eq!(select_item(3, 3), Ok(2));
    assert_eq!(select_item(3, 0), Err(RestoreError::NoSuchItem));
    assert_eq!(select_item(3, 4), Err(RestoreError::NoSuchItem));
    assert_eq!(select_item(0, 1), Err(RestoreError::NoSuchItem));
}

#[test]
fn relocation_steps() {
    assert_eq!(first_step(EntryKind::Symlink), Step::Relink);
    assert_eq!(first_step(EntryKind::Directory), Step::CopyTree);
    assert_eq!(first_step(EntryKind::File), Step::Rename);
    assert_eq!(after(Step::Rename, true), Next::Run(Step::WriteSidecar));
    assert_eq!(after(Step::Rename, false), Next::Run(Step::CopyFile));
    assert_eq!(after(Step::CopyFile, false), Next::Failed(RelocationError::NotMoved));
    assert_eq!(after(Step::CopyTree, true), Next::Run(Step::RemoveOriginal));
    assert_eq!(after(Step::Relink, true), Next::Run(Step::RemoveOriginal));
    assert_eq!(after(Step::RemoveOriginal, false), Next::Failed(RelocationError::CopiedNotRemoved));
    assert_eq!(after(Step::WriteSidecar, true), Next::Finished);
    assert_eq!(after(Step::WriteSidecar, false), Next::Failed(RelocationError::SidecarNotWritten));
}
