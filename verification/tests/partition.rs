use aura_sync::aur::{install, real_packages};
use aura_sync::aur::Error;
use aura_sync::partition::{inventory, is_listed, partition_aur_pkgs, uncloned, Listing};
use aura_sync::report::Notice;

fn strings(words: &[&str]) -> Vec<String> {
    words.iter().map(|w| w.to_string()).collect()
}

#[test]
fn real_and_bogus_without_clones() {
    let part = partition_aur_pkgs(
        &Vec::new(),
        &strings(&["real-pkg"]),
        &strings(&["real-pkg", "bogus-pkg"]),
    );
    assert!(part.cloned.is_empty());
    assert_eq!(part.to_clone, strings(&["real-pkg"]));
    assert_eq!(part.not_real, strings(&["bogus-pkg"]));
}

#[test]
fn a_clone_counts_whatever_the_aur_knows() {
    let inventory = strings(&["gone-from-aur", "yay"]);
    let part = partition_aur_pkgs(&inventory, &Vec::new(), &strings(&["yay", "gone-from-aur"]));
    assert_eq!(part.cloned, strings(&["yay", "gone-from-aur"]));
    assert!(part.to_clone.is_empty());
    assert!(part.not_real.is_empty());
}

#[test]
fn every_name_lands_in_one_group_and_keeps_its_place() {
    let inventory = strings(&["b", "e"]);
    let known = strings(&["a", "b", "d"]);
    let asked = strings(&["a", "b", "c", "d", "e", "f", "a"]);
    let part = partition_aur_pkgs(&inventory, &known, &asked);
    assert_eq!(part.cloned, strings(&["b", "e"]));
    assert_eq!(part.to_clone, strings(&["a", "d", "a"]));
    assert_eq!(part.not_real, strings(&["c", "f"]));
    let mut all = part.cloned.clone();
    all.extend(part.to_clone.clone());
    all.extend(part.not_real.clone());
    all.sort();
    let mut expected = asked.clone();
    expected.sort();
    assert_eq!(all, expected);
}

#[test]
fn nothing_asked_gives_three_empty_groups() {
    let part = partition_aur_pkgs(&strings(&["x"]), &strings(&["y"]), &Vec::new());
    assert!(part.cloned.is_empty() && part.to_clone.is_empty() && part.not_real.is_empty());
}

#[test]
fn names_are_compared_letter_for_letter() {
    let part = partition_aur_pkgs(&strings(&["Yay"]), &strings(&["YAY"]), &strings(&["yay"]));
    assert_eq!(part.not_real, strings(&["yay"]));
}

#[test]
fn a_second_run_has_nothing_left_to_clone() {
    let asked = strings(&["a", "b"]);
    let first = partition_aur_pkgs(&Vec::new(), &asked, &asked);
    assert_eq!(first.to_clone, asked);
    let second = partition_aur_pkgs(&first.to_clone, &asked, &asked);
    assert_eq!(second.cloned, asked);
    assert!(second.to_clone.is_empty());
}

#[test]
fn only_the_uncloned_are_asked_about() {
    let rest = uncloned(&strings(&["b"]), &strings(&["a", "b", "c"]));
    assert_eq!(rest, strings(&["a", "c"]));
    assert!(uncloned(&strings(&["b"]), &Vec::new()).is_empty());
}

#[test]
fn listed_names() {
    let names = strings(&["a", "bc"]);
    assert!(is_listed(&names, &"bc".to_string()));
    assert!(!is_listed(&names, &"b".to_string()));
    assert!(!is_listed(&Vec::new(), &"".to_string()));
    assert!(!is_listed(&names, &"A".to_string()));
}

#[test]
fn nothing_valid_is_an_end_of_its_own() {
    let part = partition_aur_pkgs(&Vec::new(), &Vec::new(), &strings(&["bogus"]));
    let failure = real_packages(part).unwrap_err();
    assert!(matches!(failure.notice, Notice::NoValid));
    assert!(failure.names.is_empty());
    assert_eq!(failure.error.message(), "");
}

#[test]
fn the_unreal_are_warned_of_in_order() {
    let part = partition_aur_pkgs(
        &strings(&["c"]),
        &strings(&["a"]),
        &strings(&["x", "a", "y", "c"]),
    );
    let valid = real_packages(part).unwrap();
    assert_eq!(valid.cloned, strings(&["c"]));
    assert_eq!(valid.to_clone, strings(&["a"]));
    assert_eq!(valid.warnings.len(), 2);
    assert!(matches!(&valid.warnings[0], Notice::Unreal { pkg } if pkg == "x"));
    assert!(matches!(&valid.warnings[1], Notice::Unreal { pkg } if pkg == "y"));
}

#[test]
fn install_without_packages() {
    let failure = install(&Vec::new(), "/clones", &strings(&["a"]), &strings(&["b"])).unwrap_err();
    assert!(matches!(failure.notice, Notice::NoPackages));
    assert_eq!(failure.notice.key(), "common-no-packages");
}

#[test]
fn install_with_nothing_valid() {
    let failure = install(&strings(&["bogus"]), "/clones", &Vec::new(), &Vec::new()).unwrap_err();
    assert!(matches!(failure.notice, Notice::NoValid));
}

#[test]
fn install_plans_a_clone_for_each_known_package() {
    let plan = install(
        &strings(&["a", "b", "zz", "c"]),
        "/home/me/.cache/aura/packages",
        &strings(&["b"]),
        &strings(&["a", "c"]),
    )
    .unwrap();
    assert_eq!(plan.cloned, strings(&["b"]));
    assert_eq!(plan.jobs.len(), 2);
    let first = plan.jobs[0].as_ref().unwrap();
    assert_eq!(first.package, "a");
    assert_eq!(first.url, "https://aur.archlinux.org/a.git");
    assert_eq!(first.path, "/home/me/.cache/aura/packages/a");
    let second = plan.jobs[1].as_ref().unwrap();
    assert_eq!(second.path, "/home/me/.cache/aura/packages/c");
    assert_eq!(plan.warnings.len(), 1);
    assert!(matches!(&plan.warnings[0], Notice::Unreal { pkg } if pkg == "zz"));
}

#[test]
fn a_clone_directory_that_is_not_there_holds_no_clone() {
    assert_eq!(inventory(Listing::Absent).ok(), Some(Vec::new()));
    assert_eq!(inventory(Listing::Entries(strings(&["a", "b"]))).ok(), Some(strings(&["a", "b"])));
}

#[test]
fn a_clone_directory_that_cannot_be_read_is_an_error() {
    let end = inventory(Listing::Unreadable("permission denied".to_string()));
    assert!(matches!(end, Err(Error::Io(words)) if words == "permission denied"));
}
