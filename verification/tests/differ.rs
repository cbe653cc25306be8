use oh_my_droid::config::{Configuration, OhMyPosh, SshConfig};
use oh_my_droid::diff::{
    compare_bool, compare_configurations, compare_hashmap, compare_oh_my_posh,
    compare_ssh_config, compare_vec, Diff,
};
use oh_my_droid::mapping::Mapping;

fn mapping(pairs: &[(&str, &str)]) -> Mapping {
    let mut out = Mapping::new();
    for (key, value) in pairs {
        out.insert(key.to_string(), value.to_string());
    }
    out
}

fn list(items: &[&str]) -> Vec<String> {
    items.iter().map(|item| item.to_string()).collect()
}

fn shown(diffs: &[Diff]) -> Vec<String> {
    diffs.iter().map(|diff| format!("{:?}", diff)).collect()
}

#[test]
fn mapping_diff_reports_removed_changed_and_added() {
    let old = Some(mapping(&[("a", "1"), ("b", "2")]));
    let new = Some(mapping(&[("a", "1"), ("c", "3")]));
    let diffs = compare_hashmap("mise", &old, &new);
    assert_eq!(
        shown(&diffs),
        vec![
            r#"Removed("mise", "b", "2")"#.to_string(),
            r#"Added("mise", "c", "3")"#.to_string(),
        ]
    );
}

#[test]
fn mapping_diff_reports_changed_values() {
    let old = Some(mapping(&[("node", "20"), ("bun", "1")]));
    let new = Some(mapping(&[("bun", "1"), ("node", "22")]));
    let diffs = compare_hashmap("mise", &old, &new);
    assert_eq!(shown(&diffs), vec![r#"Changed("mise", "node", "20", "22")"#.to_string()]);
}

#[test]
fn mapping_diff_of_absent_and_present() {
    let present = Some(mapping(&[("a", "1"), ("b", "2")]));
    assert_eq!(
        shown(&compare_hashmap("nix", &None, &present)),
        vec![
            r#"Added("nix", "a", "1")"#.to_string(),
            r#"Added("nix", "b", "2")"#.to_string()
        ]
    );
    assert_eq!(
        shown(&compare_hashmap("nix", &present, &None)),
        vec![
            r#"Removed("nix", "a", "1")"#.to_string(),
            r#"Removed("nix", "b", "2")"#.to_string()
        ]
    );
    assert!(compare_hashmap("nix", &None, &None).is_empty());
    assert!(compare_hashmap("nix", &present, &present).is_empty());
}

#[test]
fn an_empty_mapping_that_appears_has_nothing_to_report() {
    let empty = Some(Mapping::new());
    assert!(compare_hashmap("nix", &None, &empty).is_empty());
    assert!(compare_hashmap("nix", &empty, &None).is_empty());
}

#[test]
fn list_diff_is_a_set_difference() {
    let old = Some(list(&["x", "y"]));
    let new = Some(list(&["y", "z"]));
    let diffs = compare_vec("apt-get", &old, &new);
    assert_eq!(
        shown(&diffs),
        vec![
            r#"Added("apt-get", "", "z")"#.to_string(),
            r#"Removed("apt-get", "", "x")"#.to_string(),
        ]
    );
}

#[test]
fn list_diff_collapses_duplicates_once_both_sides_are_present() {
    let old = Some(list(&["a", "a", "b"]));
    let new = Some(list(&["c", "b", "c", "b"]));
    let diffs = compare_vec("apt-get", &old, &new);
    assert_eq!(
        shown(&diffs),
        vec![
            r#"Added("apt-get", "", "c")"#.to_string(),
            r#"Removed("apt-get", "", "a")"#.to_string(),
        ]
    );
    assert!(compare_vec("apt-get", &old, &Some(list(&["b", "a"]))).is_empty());
}

#[test]
fn list_diff_of_absent_and_present_names_every_item_once() {
    let present = Some(list(&["git", "curl", "git"]));
    assert_eq!(
        shown(&compare_vec("apt-get", &None, &present)),
        vec![
            r#"Added("apt-get", "", "git")"#.to_string(),
            r#"Added("apt-get", "", "curl")"#.to_string(),
        ]
    );
    assert_eq!(
        shown(&compare_vec("apt-get", &present, &None)),
        vec![
            r#"Removed("apt-get", "", "git")"#.to_string(),
            r#"Removed("apt-get", "", "curl")"#.to_string(),
        ]
    );
    assert!(compare_vec("apt-get", &None, &None).is_empty());
}

#[test]
fn a_list_that_holds_one_item_twice_gives_one_record() {
    let twice = Some(list(&["a", "a"]));
    assert_eq!(
        shown(&compare_vec("apt-get", &None, &twice)),
        vec![r#"Added("apt-get", "", "a")"#.to_string()]
    );
    assert_eq!(
        shown(&compare_vec("apt-get", &twice, &None)),
        vec![r#"Removed("apt-get", "", "a")"#.to_string()]
    );
    assert!(compare_vec("apt-get", &twice, &Some(list(&["a"]))).is_empty());
    assert!(compare_vec("apt-get", &None, &Some(vec![])).is_empty());
    assert!(compare_vec("apt-get", &Some(vec![]), &None).is_empty());
}

#[test]
fn ssh_keys_that_appear_are_named_once() {
    let group = Some(SshConfig { port: None, authorized_keys: Some(list(&["k1", "k2", "k1"])) });
    assert_eq!(
        shown(&compare_ssh_config(&None, &group)),
        vec![concat_nested(
            "ssh",
            &[
                r#"Added("ssh", "authorized_keys", "k1")"#,
                r#"Added("ssh", "authorized_keys", "k2")"#,
            ]
        )]
    );
    assert_eq!(
        shown(&compare_ssh_config(&group, &None)),
        vec![concat_nested(
            "ssh",
            &[
                r#"Removed("ssh", "authorized_keys", "k1")"#,
                r#"Removed("ssh", "authorized_keys", "k2")"#,
            ]
        )]
    );
    let bare = Some(SshConfig { port: None, authorized_keys: None });
    assert_eq!(
        shown(&compare_ssh_config(&bare, &group)),
        shown(&compare_ssh_config(&None, &group))
    );
}

#[test]
fn flag_diff_tells_absent_from_false() {
    assert_eq!(
        shown(&compare_bool("zoxide", &None, &Some(false))),
        vec![r#"Added("zoxide", "", "false")"#.to_string()]
    );
    assert_eq!(
        shown(&compare_bool("zoxide", &Some(true), &None)),
        vec![r#"Removed("zoxide", "", "true")"#.to_string()]
    );
    assert_eq!(
        shown(&compare_bool("zoxide", &Some(true), &Some(false))),
        vec![r#"Changed("zoxide", "", "true", "false")"#.to_string()]
    );
    assert!(compare_bool("zoxide", &Some(true), &Some(true)).is_empty());
    assert!(compare_bool("zoxide", &None, &None).is_empty());
}

#[test]
fn nested_group_wraps_its_changes() {
    let old = Some(SshConfig { port: Some(22), authorized_keys: None });
    let new = Some(SshConfig { port: Some(2222), authorized_keys: Some(list(&["k1"])) });
    let diffs = compare_ssh_config(&old, &new);
    assert_eq!(
        shown(&diffs),
        vec![concat_nested(
            "ssh",
            &[
                r#"Changed("ssh", "port", "22", "2222")"#,
                r#"Added("ssh", "authorized_keys", "k1")"#,
            ]
        )]
    );
}

fn concat_nested(parent: &str, inner: &[&str]) -> String {
    format!("Nested({:?}, [{}])", parent, inner.join(", "))
}

#[test]
fn ssh_group_appears_and_disappears() {
    let group = Some(SshConfig { port: Some(8022), authorized_keys: Some(list(&["k1", "k2"])) });
    assert_eq!(
        shown(&compare_ssh_config(&None, &group)),
        vec![concat_nested(
            "ssh",
            &[
                r#"Added("ssh", "port", "8022")"#,
                r#"Added("ssh", "authorized_keys", "k1")"#,
                r#"Added("ssh", "authorized_keys", "k2")"#,
            ]
        )]
    );
    assert_eq!(
        shown(&compare_ssh_config(&group, &None)),
        vec![concat_nested(
            "ssh",
            &[
                r#"Removed("ssh", "port", "8022")"#,
                r#"Removed("ssh", "authorized_keys", "k1")"#,
                r#"Removed("ssh", "authorized_keys", "k2")"#,
            ]
        )]
    );
    assert!(compare_ssh_config(&group, &group).is_empty());
    let bare = Some(SshConfig { port: None, authorized_keys: None });
    assert!(compare_ssh_config(&None, &bare).is_empty());
    let no_keys = Some(SshConfig { port: Some(0), authorized_keys: Some(vec![]) });
    assert_eq!(
        shown(&compare_ssh_config(&bare, &no_keys)),
        vec![concat_nested("ssh", &[r#"Added("ssh", "port", "0")"#])]
    );
}

#[test]
fn ssh_keys_are_compared_as_a_set() {
    let old = Some(SshConfig { port: Some(22), authorized_keys: Some(list(&["a", "b"])) });
    let new = Some(SshConfig { port: Some(22), authorized_keys: Some(list(&["b", "c"])) });
    assert_eq!(
        shown(&compare_ssh_config(&old, &new)),
        vec![concat_nested(
            "ssh",
            &[
                r#"Added("ssh", "authorized_keys", "c")"#,
                r#"Removed("ssh", "authorized_keys", "a")"#,
            ]
        )]
    );
}

#[test]
fn prompt_group_reports_its_theme() {
    let old = Some(OhMyPosh { theme: Some("a".to_string()) });
    let new = Some(OhMyPosh { theme: Some("b".to_string()) });
    assert_eq!(
        shown(&compare_oh_my_posh(&old, &new)),
        vec![concat_nested("oh_my_posh", &[r#"Changed("oh_my_posh", "theme", "a", "b")"#])]
    );
    assert_eq!(
        shown(&compare_oh_my_posh(&None, &new)),
        vec![concat_nested("oh_my_posh", &[r#"Added("oh_my_posh", "theme", "b")"#])]
    );
    assert_eq!(
        shown(&compare_oh_my_posh(&old, &Some(OhMyPosh { theme: None }))),
        vec![concat_nested("oh_my_posh", &[r#"Removed("oh_my_posh", "theme", "a")"#])]
    );
    assert!(compare_oh_my_posh(&None, &Some(OhMyPosh { theme: None })).is_empty());
    assert!(compare_oh_my_posh(&old, &old).is_empty());
}

#[test]
fn a_snapshot_does_not_differ_from_itself() {
    let snapshot = Configuration::default();
    assert!(compare_configurations(&snapshot, &snapshot).is_empty());
    let empty = Configuration::empty();
    assert!(compare_configurations(&empty, &empty).is_empty());
}

#[test]
fn fields_are_compared_in_a_fixed_order() {
    let mut new = Configuration::empty();
    new.ssh = Some(SshConfig { port: Some(1), authorized_keys: None });
    new.neofetch = Some(true);
    new.blesh = Some(true);
    new.apt_get = Some(list(&["git"]));
    new.alias = Some(mapping(&[("ls", "eza")]));
    new.stow = Some(mapping(&[("git", "github:me/dotfiles")]));
    new.doppler = Some(true);
    let diffs = compare_configurations(&Configuration::empty(), &new);
    assert_eq!(
        shown(&diffs),
        vec![
            r#"Added("stow", "git", "github:me/dotfiles")"#.to_string(),
            r#"Added("alias", "ls", "eza")"#.to_string(),
            r#"Added("apt-get", "", "git")"#.to_string(),
            r#"Added("blesh", "", "true")"#.to_string(),
            r#"Added("neofetch", "", "true")"#.to_string(),
            r#"Added("doppler", "", "true")"#.to_string(),
            concat_nested("ssh", &[r#"Added("ssh", "port", "1")"#]),
        ]
    );
}

#[test]
fn the_differ_gives_the_same_records_for_the_same_snapshots() {
    let old = Configuration::default();
    let mut new = Configuration::default();
    new.zoxide = None;
    new.mise = Some(mapping(&[("node", "22"), ("bun", "latest")]));
    let first = shown(&compare_configurations(&old, &new));
    let second = shown(&compare_configurations(&old, &new));
    assert_eq!(first, second);
    assert_eq!(
        first,
        vec![
            r#"Changed("mise", "node", "latest", "22")"#.to_string(),
            r#"Added("mise", "bun", "latest")"#.to_string(),
            r#"Removed("zoxide", "", "true")"#.to_string(),
        ]
    );
}
