use aura_sync::aur::{info, info_rows, listing, package_url, Error, Package};
use aura_sync::report::{Field, Notice, Tone};

fn strings(words: &[&str]) -> Vec<String> {
    words.iter().map(|w| w.to_string()).collect()
}

fn aura() -> Package {
    Package {
        name: "aura".to_string(),
        version: "3.2.9-1".to_string(),
        description: Some("A package manager for Arch Linux and its AUR".to_string()),
        url: Some("https://github.com/fosskers/aura".to_string()),
        num_votes: 1234,
        popularity: "1.03".to_string(),
        out_of_date: None,
        maintainer: Some("fosskers".to_string()),
        first_submitted: 1_340_000_000,
        last_modified: 1_650_000_000,
        license: strings(&["GPL3"]),
        groups: Vec::new(),
        provides: strings(&["aura"]),
        depends: strings(&["gmp", "pacman", "git"]),
        make_depends: strings(&["stack"]),
        opt_depends: Vec::new(),
        check_depends: Vec::new(),
        keywords: strings(&["aur", "helper"]),
    }
}

fn bare() -> Package {
    Package {
        name: "orphan".to_string(),
        version: "0.1-1".to_string(),
        description: None,
        url: None,
        num_votes: 0,
        popularity: "0.00".to_string(),
        out_of_date: Some(1_600_000_000),
        maintainer: None,
        first_submitted: 0,
        last_modified: 86_399,
        license: Vec::new(),
        groups: Vec::new(),
        provides: Vec::new(),
        depends: Vec::new(),
        make_depends: Vec::new(),
        opt_depends: Vec::new(),
        check_depends: Vec::new(),
        keywords: Vec::new(),
    }
}

#[test]
fn a_package_is_described_in_twenty_lines() {
    let rows = info(&aura()).unwrap();
    let expected: Vec<(Field, &str, Tone)> = vec![
        (Field::Repo, "aur", Tone::Magenta),
        (Field::Name, "aura", Tone::Bold),
        (Field::Version, "3.2.9-1", Tone::Plain),
        (Field::Status, "Up to Date", Tone::Green),
        (Field::Maintainer, "fosskers", Tone::Plain),
        (Field::ProjectUrl, "https://github.com/fosskers/aura", Tone::Cyan),
        (Field::AurUrl, "https://aur.archlinux.org/packages/aura", Tone::Plain),
        (Field::License, "GPL3", Tone::Plain),
        (Field::Groups, "", Tone::Plain),
        (Field::Provides, "aura", Tone::Plain),
        (Field::Depends, "gmp pacman git", Tone::Plain),
        (Field::MakeDepends, "stack", Tone::Plain),
        (Field::OptDepends, "", Tone::Plain),
        (Field::CheckDepends, "", Tone::Plain),
        (Field::Votes, "1234", Tone::Yellow),
        (Field::Popularity, "1.03", Tone::Yellow),
        (Field::Description, "A package manager for Arch Linux and its AUR", Tone::Plain),
        (Field::Keywords, "aur helper", Tone::Cyan),
        (Field::Submitted, "2012-06-18", Tone::Plain),
        (Field::Updated, "2022-04-15", Tone::Plain),
    ];
    assert_eq!(rows.len(), expected.len());
    for (row, (field, text, tone)) in rows.iter().zip(expected) {
        assert_eq!(row.field, field);
        assert_eq!(row.text, text, "{:?}", field);
        assert_eq!(row.tone, tone, "{:?}", field);
    }
}

#[test]
fn what_a_package_lacks_is_shown_in_red() {
    let rows = info(&bare()).unwrap();
    assert_eq!((rows[3].text.as_str(), rows[3].tone), ("Out of Date!", Tone::Red));
    assert_eq!((rows[4].text.as_str(), rows[4].tone), ("None", Tone::Red));
    assert_eq!((rows[5].text.as_str(), rows[5].tone), ("None", Tone::Red));
    assert_eq!(rows[14].text, "0");
    assert_eq!((rows[16].text.as_str(), rows[16].tone), ("None", Tone::Red));
    assert_eq!(rows[18].text, "1970-01-01");
    assert_eq!(rows[19].text, "1970-01-01");
}

#[test]
fn days_go_by_universal_time() {
    let mut p = bare();
    p.first_submitted = -1;
    p.last_modified = 86_400;
    let rows = info(&p).unwrap();
    assert_eq!(rows[18].text, "1969-12-31");
    assert_eq!(rows[19].text, "1970-01-02");
}

#[test]
fn a_moment_without_a_day_leaves_no_description() {
    let mut p = bare();
    p.last_modified = i64::MAX;
    assert!(info(&p).is_none());
    let mut q = bare();
    q.first_submitted = i64::MIN;
    assert!(info(&q).is_none());
}

#[test]
fn rows_take_the_days_as_they_are_given() {
    let rows = info_rows(&aura(), "then".to_string(), "now".to_string());
    assert_eq!(rows[18].text, "then");
    assert_eq!(rows[19].text, "now");
    assert_eq!(rows[18].field.key(), "A-i-submitted");
    assert_eq!(rows[1].field.key(), "common-name");
}

#[test]
fn the_page_of_a_package() {
    assert_eq!(package_url("yay"), "https://aur.archlinux.org/packages/yay");
    assert_eq!(package_url(""), "https://aur.archlinux.org/packages/");
}

#[test]
fn a_listing_marks_what_is_out_of_date() {
    let fresh = listing(&aura(), true);
    assert_eq!(fresh.name, "aura");
    assert_eq!(fresh.version, "3.2.9-1");
    assert_eq!(fresh.version_tone, Tone::Green);
    assert_eq!(fresh.votes, "1234");
    assert_eq!(fresh.popularity, "1.03");
    assert!(fresh.installed);
    assert_eq!(fresh.description, "A package manager for Arch Linux and its AUR");
    let stale = listing(&bare(), false);
    assert_eq!(stale.version_tone, Tone::Red);
    assert_eq!(stale.description, "");
    assert!(!stale.installed);
}

#[test]
fn each_error_shows_its_words() {
    assert_eq!(Error::Raur("no answer".to_string()).message(), "no answer");
    assert_eq!(Error::Dirs("no home".to_string()).message(), "no home");
    assert_eq!(Error::Io("denied".to_string()).message(), "denied");
    assert_eq!(Error::Git("clone failed".to_string()).message(), "clone failed");
    assert_eq!(Error::Silent.message(), "");
}

#[test]
fn notices_have_their_tone_and_their_key() {
    let all = vec![
        (Notice::Done, "common-done", Tone::Green),
        (Notice::Cloning { package: "a".to_string() }, "A-w", Tone::Plain),
        (Notice::CloneFailed, "A-w-fail", Tone::Red),
        (Notice::PullFailed, "A-y", Tone::Red),
        (Notice::NoPackages, "common-no-packages", Tone::Red),
        (Notice::NoValid, "common-no-valid", Tone::Red),
        (Notice::Unreal { pkg: "a".to_string() }, "A-unreal", Tone::Yellow),
        (Notice::BackupFile { target: "t".to_string() }, "cache-backup-file", Tone::Red),
        (Notice::BackupSize { size: "1B".to_string() }, "cache-backup-size", Tone::Plain),
        (Notice::BackupNonempty { target: "t".to_string() }, "cache-backup-nonempty", Tone::Yellow),
        (Notice::BackupTarget { target: "t".to_string() }, "cache-backup-target", Tone::Plain),
    ];
    for (notice, key, tone) in all {
        assert_eq!(notice.key(), key);
        assert_eq!(notice.tone(), tone);
    }
}
