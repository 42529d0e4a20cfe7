use aura_sync::cache::{
    backup, backup_plan, backup_target, copy, file_version, info, label_width, report, search,
    size, CacheInfo, CacheSize, Installed, TransferProgress,
};
use aura_sync::report::{Notice, Tone};

fn strings(words: &[&str]) -> Vec<String> {
    words.iter().map(|w| w.to_string()).collect()
}

fn entry(size: u64) -> CacheInfo {
    CacheInfo {
        name: "linux".to_string(),
        version: "6.1.1-1".to_string(),
        created: 1_700_000_000,
        signature: true,
        size,
        available: strings(&["6.1.1-1", "6.0.9-1", "5.19-2"]),
    }
}

#[test]
fn what_is_told_of_a_cached_package() {
    let out = info(&entry(3 * 1024 * 1024 + 140_000), None);
    assert_eq!(out.name, "linux");
    assert_eq!(out.version, "6.1.1-1");
    assert!(matches!(out.installed, Installed::No));
    assert_eq!(out.created, 1_700_000_000);
    assert!(out.signature);
    assert_eq!(out.size, "3.13MiB");
    assert_eq!(out.available, "6.1.1-1, 6.0.9-1, 5.19-2");
}

#[test]
fn sizes_come_in_the_unit_that_suits_them() {
    assert_eq!(info(&entry(0), None).size, "0B");
    assert_eq!(info(&entry(999), None).size, "999B");
    assert_eq!(info(&entry(323_000), None).size, "323kB");
    assert_eq!(info(&entry(1024), None).size, "1KiB");
    assert_eq!(info(&entry(7_231_000), None).size, "6.90MiB");
}

#[test]
fn the_installed_version_is_set_against_the_cached_one() {
    assert!(matches!(info(&entry(1), Some("6.1.1-1")).installed, Installed::Same));
    let other = info(&entry(1), Some("6.0.9-1")).installed;
    assert!(matches!(other, Installed::Other(v) if v == "6.0.9-1"));
}

#[test]
fn a_report_takes_the_size_as_it_is_given() {
    let mut e = entry(5);
    e.available = Vec::new();
    e.signature = false;
    let out = report(&e, "five".to_string(), None);
    assert_eq!(out.size, "five");
    assert_eq!(out.available, "");
    assert!(!out.signature);
}

#[test]
fn the_label_column_is_as_wide_as_the_longest_label() {
    assert_eq!(label_width(&strings(&["Name", "Latest", "Created", "Signature", "Size"])), 9);
    assert_eq!(label_width(&strings(&["名前", "abc"])), 6);
    assert_eq!(label_width(&Vec::new()), 0);
}

#[test]
fn files_are_found_by_a_part_of_their_name() {
    let names = strings(&[
        "linux-6.1.1-1-x86_64.pkg.tar.zst",
        "firefox-108.0-1-x86_64.pkg.tar.zst",
        "linux-headers-6.1.1-1-x86_64.pkg.tar.zst",
        "Linux-docs-6.1.1-1-any.pkg.tar.zst",
    ]);
    assert_eq!(
        search(&names, "linux"),
        strings(&[
            "linux-6.1.1-1-x86_64.pkg.tar.zst",
            "linux-headers-6.1.1-1-x86_64.pkg.tar.zst"
        ])
    );
    assert_eq!(search(&names, "").len(), 4);
    assert!(search(&names, "emacs").is_empty());
    assert!(search(&Vec::new(), "linux").is_empty());
}

#[test]
fn the_size_of_a_cache() {
    assert_eq!(size(&vec![3, 4, 5]), Some(CacheSize { files: 3, bytes: 12 }));
    assert_eq!(size(&Vec::new()), Some(CacheSize { files: 0, bytes: 0 }));
    assert_eq!(size(&vec![u64::MAX]), Some(CacheSize { files: 1, bytes: u64::MAX }));
    assert_eq!(size(&vec![u64::MAX, 0, 1]), None);
}

#[test]
fn where_a_backup_goes() {
    assert_eq!(backup_target("/mnt/backup", "/home/me"), "/mnt/backup");
    assert_eq!(backup_target("backup", "/home/me"), "/home/me/backup");
    assert_eq!(backup_target("a/b", "/"), "/a/b");
    assert_eq!(backup_target("", "/home/me"), "/home/me/");
}

#[test]
fn a_backup_onto_a_file_is_turned_down() {
    let failure = backup("/mnt/file", true, CacheSize { files: 3, bytes: 12 }, 0).unwrap_err();
    assert!(matches!(&failure.notice, Notice::BackupFile { target } if target == "/mnt/file"));
    assert_eq!(failure.notice.tone(), Tone::Red);
    assert_eq!(failure.notice.key(), "cache-backup-file");
    assert!(failure.names.is_empty());
    assert_eq!(failure.error.message(), "");
}

#[test]
fn a_backup_into_an_empty_target() {
    let plan = backup("/mnt/b", false, CacheSize { files: 3, bytes: 3_000_000 }, 0).unwrap();
    assert_eq!(plan.file_count, 3);
    assert_eq!(plan.notices.len(), 2);
    assert!(matches!(&plan.notices[0], Notice::BackupSize { size } if size == "3MB"));
    assert!(matches!(&plan.notices[1], Notice::BackupTarget { target } if target == "/mnt/b"));
    assert_eq!(plan.notices[1].tone(), Tone::Plain);
}

#[test]
fn a_backup_into_a_target_that_holds_something() {
    let plan = backup_plan("/mnt/b", false, "12B".to_string(), 7, 2).unwrap();
    assert_eq!(plan.file_count, 7);
    assert!(matches!(&plan.notices[0], Notice::BackupSize { size } if size == "12B"));
    assert!(matches!(&plan.notices[1], Notice::BackupNonempty { target } if target == "/mnt/b"));
    assert_eq!(plan.notices[1].tone(), Tone::Yellow);
    assert_eq!(plan.notices[1].key(), "cache-backup-nonempty");
}

#[test]
fn each_file_goes_to_the_target_under_its_own_name() {
    let transfers = copy("/var/cache/pacman/pkg", &strings(&["a.zst", "b.zst"]), "/mnt/b/");
    assert_eq!(transfers.len(), 2);
    assert_eq!(transfers[0].from, "/var/cache/pacman/pkg/a.zst");
    assert_eq!(transfers[0].to, "/mnt/b/a.zst");
    assert_eq!(transfers[1].from, "/var/cache/pacman/pkg/b.zst");
    assert_eq!(transfers[1].to, "/mnt/b/b.zst");
    assert!(copy("/a", &Vec::new(), "/b").is_empty());
}

#[test]
fn only_copies_that_were_made_are_counted() {
    let mut progress = TransferProgress::new(4);
    for copied in [true, false, true, true] {
        progress.record(copied);
    }
    assert_eq!(progress.done(), 3);
    assert_eq!(progress.total(), 4);
}

#[test]
fn the_count_never_passes_the_total() {
    let mut progress = TransferProgress::new(2);
    assert!(progress.inc());
    assert!(progress.inc());
    assert!(!progress.inc());
    progress.record(true);
    assert_eq!(progress.done(), 2);
    let mut none = TransferProgress::new(0);
    assert!(!none.inc());
    assert_eq!(none.done(), 0);
}

#[test]
fn the_version_in_a_file_name() {
    let v = |file: &str, package: &str| file_version(file, package);
    assert_eq!(v("linux-6.1.1-1-x86_64.pkg.tar.zst", "linux"), Some("6.1.1-1".to_string()));
    assert_eq!(v("aura-bin-3.2.9-1-x86_64.pkg.tar.xz", "aura-bin"), Some("3.2.9-1".to_string()));
    assert_eq!(v("aura-bin-3.2.9-1-x86_64.pkg.tar.xz", "aura"), None);
    assert_eq!(v("linux-headers-6.1.1-1-x86_64.pkg.tar.zst", "linux"), None);
    assert_eq!(v("ttf-font-1:2.0-3-any.pkg.tar", "ttf-font"), Some("1:2.0-3".to_string()));
    assert_eq!(v("a-1-any.pkg.tar.zst", "a"), Some("1".to_string()));
}

#[test]
fn names_that_are_no_package_files() {
    let v = |file: &str, package: &str| file_version(file, package);
    assert_eq!(v("linux-6.1.1-1-x86_64.tar.zst", "linux"), None);
    assert_eq!(v("linux", "linux"), None);
    assert_eq!(v("linux-", "linux"), None);
    assert_eq!(v("linux-.pkg.tar", "linux"), None);
    assert_eq!(v("linux-x86_64.pkg.tar", "linux"), None);
    assert_eq!(v("linux--x86_64.pkg.tar", "linux"), None);
    assert_eq!(v("linux-1-x86_64", "linux"), None);
    assert_eq!(v("", ""), None);
    assert_eq!(v("-1-a.pkg.tar", ""), Some("1".to_string()));
    assert_eq!(v("linux-6.1-1-x86_64.pkg.tar.zst.pkg.tar", "linux"), Some("6.1-1".to_string()));
}
