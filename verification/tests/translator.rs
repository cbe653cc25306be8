use oh_my_droid::apply::{SetupStep, StepKind};
use oh_my_droid::config::{Configuration, OhMyPosh, SshConfig};
use oh_my_droid::diff::{compare_configurations, Diff};
use oh_my_droid::mapping::Mapping;

fn mapping(pairs: &[(&str, &str)]) -> Mapping {
    let mut out = Mapping::new();
    for (key, value) in pairs {
        out.insert(key.to_string(), value.to_string());
    }
    out
}

fn list(items: &[&str]) -> Vec<String> {
    items.iter().map(|item| item.to_string()).collect()
}

fn added(parent: &str, child: &str, value: &str) -> Diff {
    Diff::Added(parent.to_string(), child.to_string(), value.to_string())
}

fn removed(parent: &str, child: &str, value: &str) -> Diff {
    Diff::Removed(parent.to_string(), child.to_string(), value.to_string())
}

fn changed(parent: &str, child: &str, old: &str, new: &str) -> Diff {
    Diff::Changed(parent.to_string(), child.to_string(), old.to_string(), new.to_string())
}

fn kinds(steps: &[SetupStep]) -> Vec<StepKind> {
    steps.iter().map(|step| step.kind()).collect()
}

fn full_snapshot() -> Configuration {
    let mut snapshot = Configuration::empty();
    snapshot.stow = Some(mapping(&[("git", "github:me/dotfiles")]));
    snapshot.mise = Some(mapping(&[("node", "22"), ("bun", "latest")]));
    snapshot.nix = Some(mapping(&[("hello", "latest")]));
    snapshot.apt_get = Some(list(&["git", "curl"]));
    snapshot.pkgx = Some(mapping(&[("jq", "latest")]));
    snapshot.curl = Some(mapping(&[("bun", "https://bun.sh/install")]));
    snapshot.oh_my_posh = Some(OhMyPosh { theme: Some("dracula".to_string()) });
    snapshot.zoxide = Some(true);
    snapshot.alias = Some(mapping(&[("ls", "eza -lh"), ("ll", "ls -l")]));
    snapshot.tailscale = Some(false);
    snapshot.ssh = Some(SshConfig { port: Some(8022), authorized_keys: Some(list(&["k1", "k2"])) });
    snapshot
}

#[test]
fn no_change_gives_the_base_paths_alone() {
    let desired = full_snapshot();
    let steps = desired.diffs_to_setup_steps(vec![]);
    assert_eq!(kinds(&steps), vec![StepKind::Paths]);
}

#[test]
fn first_run_gives_one_operation_for_each_field() {
    let desired = full_snapshot();
    let diffs = compare_configurations(&Configuration::empty(), &desired);
    let steps = desired.diffs_to_setup_steps(diffs);
    assert_eq!(
        kinds(&steps),
        vec![
            StepKind::Paths,
            StepKind::Stow,
            StepKind::Mise,
            StepKind::Nix,
            StepKind::Pkgx,
            StepKind::Curl,
            StepKind::Alias,
            StepKind::AptGet,
            StepKind::Zoxide,
            StepKind::Tailscale,
            StepKind::OhMyPosh,
            StepKind::Ssh,
        ]
    );
    for step in &steps {
        match step {
            SetupStep::Paths => {}
            SetupStep::Stow(map) => assert_eq!(map.get("git").unwrap(), "github:me/dotfiles"),
            SetupStep::Mise(map) => {
                assert_eq!(map.len(), 2);
                assert_eq!(map.get("node").unwrap(), "22");
                assert_eq!(map.get("bun").unwrap(), "latest");
            }
            SetupStep::Nix(map) => assert_eq!(map.get("hello").unwrap(), "latest"),
            SetupStep::Pkgx(map) => assert_eq!(map.get("jq").unwrap(), "latest"),
            SetupStep::Curl(map) => assert_eq!(map.get("bun").unwrap(), "https://bun.sh/install"),
            SetupStep::Alias(map) => {
                assert_eq!(map.len(), 2);
                assert_eq!(map.get("ll").unwrap(), "ls -l");
            }
            SetupStep::AptGet(packages) => assert_eq!(packages.to_vec(), list(&["git", "curl"])),
            SetupStep::Zoxide(enabled) => assert!(*enabled),
            SetupStep::Tailscale(enabled) => assert!(!*enabled),
            SetupStep::OhMyPosh(theme) => assert_eq!(*theme, "dracula"),
            SetupStep::Ssh(settings) => {
                assert_eq!(settings.port, Some(8022));
                assert_eq!(settings.authorized_keys, Some(list(&["k1", "k2"])));
            }
            SetupStep::BleSh(_) => panic!("no operation for ble.sh was asked for"),
        }
    }
}

#[test]
fn first_run_of_the_default_snapshot() {
    let desired = Configuration::default();
    let diffs = compare_configurations(&Configuration::empty(), &desired);
    let steps = desired.diffs_to_setup_steps(diffs);
    assert_eq!(
        kinds(&steps),
        vec![
            StepKind::Paths,
            StepKind::Stow,
            StepKind::Mise,
            StepKind::Pkgx,
            StepKind::Curl,
            StepKind::Alias,
            StepKind::AptGet,
            StepKind::BleSh,
            StepKind::Zoxide,
            StepKind::Tailscale,
            StepKind::OhMyPosh,
            StepKind::Ssh,
        ]
    );
    assert!(diffs_hold(&Configuration::default(), "neofetch"));
    assert!(diffs_hold(&Configuration::default(), "doppler"));
}

fn diffs_hold(desired: &Configuration, field: &str) -> bool {
    compare_configurations(&Configuration::empty(), desired)
        .iter()
        .any(|diff| matches!(diff, Diff::Added(parent, _, _) if parent == field))
}

#[test]
fn fields_that_hold_nothing_or_are_not_known_give_no_operation() {
    let mut desired = Configuration::empty();
    desired.stow = Some(Mapping::new());
    desired.apt_get = Some(vec![]);
    desired.oh_my_posh = Some(OhMyPosh { theme: None });
    desired.ssh = Some(SshConfig { port: None, authorized_keys: Some(vec![]) });
    desired.neofetch = Some(true);
    desired.doppler = Some(true);
    let diffs = compare_configurations(&Configuration::empty(), &desired);
    let steps = desired.diffs_to_setup_steps(diffs);
    assert_eq!(kinds(&steps), vec![StepKind::Paths]);
}

#[test]
fn two_changes_in_one_group_give_one_operation() {
    let mut old = Configuration::empty();
    old.ssh = Some(SshConfig { port: Some(22), authorized_keys: None });
    let mut new = Configuration::empty();
    new.ssh = Some(SshConfig { port: Some(2222), authorized_keys: Some(list(&["k1"])) });
    let diffs = compare_configurations(&old, &new);
    assert_eq!(
        diffs,
        vec![Diff::Nested(
            "ssh".to_string(),
            vec![changed("ssh", "port", "22", "2222"), added("ssh", "authorized_keys", "k1")]
        )]
    );
    let steps = new.diffs_to_setup_steps(diffs);
    assert_eq!(kinds(&steps), vec![StepKind::Paths, StepKind::Ssh]);
}

#[test]
fn scattered_records_of_one_kind_give_one_operation_at_its_first_place() {
    let desired = full_snapshot();
    let diffs = vec![
        added("mise", "node", "22"),
        added("alias", "ls", "eza -lh"),
        changed("mise", "bun", "1", "latest"),
        added("zoxide", "", "true"),
        added("alias", "ll", "ls -l"),
        added("mise", "deno", "2"),
    ];
    let steps = desired.diffs_to_setup_steps(diffs);
    assert_eq!(
        kinds(&steps),
        vec![StepKind::Paths, StepKind::Mise, StepKind::Alias, StepKind::Zoxide]
    );
}

#[test]
fn removed_fields_give_no_operation() {
    let old = full_snapshot();
    let mut new = full_snapshot();
    new.mise = None;
    new.zoxide = None;
    new.ssh = None;
    new.apt_get = None;
    let diffs = compare_configurations(&old, &new);
    assert!(!diffs.is_empty());
    let steps = new.diffs_to_setup_steps(diffs);
    assert_eq!(kinds(&steps), vec![StepKind::Paths]);
}

#[test]
fn a_removed_entry_gives_no_operation_but_a_changed_one_does() {
    let old = full_snapshot();
    let mut new = full_snapshot();
    new.mise = Some(mapping(&[("node", "22")]));
    let diffs = compare_configurations(&old, &new);
    assert_eq!(diffs, vec![removed("mise", "bun", "latest")]);
    assert_eq!(kinds(&new.diffs_to_setup_steps(diffs)), vec![StepKind::Paths]);

    new.mise = Some(mapping(&[("node", "23"), ("bun", "latest")]));
    let diffs = compare_configurations(&old, &new);
    assert_eq!(diffs, vec![changed("mise", "node", "22", "23")]);
    assert_eq!(kinds(&new.diffs_to_setup_steps(diffs)), vec![StepKind::Paths, StepKind::Mise]);
}

#[test]
fn an_operation_is_bound_to_the_desired_value_not_to_the_record() {
    let desired = full_snapshot();
    let steps = desired.diffs_to_setup_steps(vec![
        added("apt-get", "", "something-else"),
        changed("oh_my_posh", "theme", "a", "b"),
    ]);
    assert_eq!(kinds(&steps), vec![StepKind::Paths, StepKind::AptGet, StepKind::OhMyPosh]);
    match &steps[1] {
        SetupStep::AptGet(packages) => assert_eq!(packages.to_vec(), list(&["git", "curl"])),
        other => panic!("expected the packages, found {:?}", other),
    }
    match &steps[2] {
        SetupStep::OhMyPosh(theme) => assert_eq!(*theme, "dracula"),
        other => panic!("expected the prompt, found {:?}", other),
    }
}

#[test]
fn a_record_for_a_field_that_the_desired_snapshot_lacks_gives_no_operation() {
    let desired = Configuration::empty();
    let steps = desired.diffs_to_setup_steps(vec![
        added("apt-get", "", "git"),
        added("mise", "node", "22"),
        Diff::Nested("ssh".to_string(), vec![added("ssh", "port", "22")]),
    ]);
    assert_eq!(kinds(&steps), vec![StepKind::Paths]);
}

#[test]
fn unknown_field_names_are_ignored() {
    let mut desired = full_snapshot();
    desired.blesh = Some(true);
    desired.neofetch = Some(true);
    let steps = desired.diffs_to_setup_steps(vec![
        added("ble-sh", "", "true"),
        added("neofetch", "", "true"),
        added("doppler", "", "true"),
        added("", "", ""),
        added("APT-GET", "", "git"),
        added("some-future-field", "x", "y"),
    ]);
    assert_eq!(kinds(&steps), vec![StepKind::Paths]);
}

#[test]
fn the_translator_knows_ble_sh_by_both_of_its_names() {
    let mut desired = Configuration::empty();
    desired.blesh = Some(true);
    for name in ["ble.sh", "blesh"] {
        let steps = desired.diffs_to_setup_steps(vec![added(name, "", "true")]);
        assert_eq!(kinds(&steps), vec![StepKind::Paths, StepKind::BleSh]);
        match &steps[1] {
            SetupStep::BleSh(enabled) => assert!(*enabled),
            other => panic!("expected ble.sh, found {:?}", other),
        }
    }
    let diffs = compare_configurations(&Configuration::empty(), &desired);
    assert_eq!(diffs, vec![added("blesh", "", "true")]);
    assert_eq!(
        kinds(&desired.diffs_to_setup_steps(diffs)),
        vec![StepKind::Paths, StepKind::BleSh]
    );
}

#[test]
fn a_prompt_without_a_theme_gets_the_default_theme() {
    let mut desired = Configuration::empty();
    desired.oh_my_posh = Some(OhMyPosh { theme: None });
    let steps = desired.diffs_to_setup_steps(vec![Diff::Nested(
        "oh_my_posh".to_string(),
        vec![added("oh_my_posh", "theme", "old")],
    )]);
    assert_eq!(kinds(&steps), vec![StepKind::Paths, StepKind::OhMyPosh]);
    match &steps[1] {
        SetupStep::OhMyPosh(theme) => assert_eq!(*theme, "tokyonight_storm"),
        other => panic!("expected the prompt, found {:?}", other),
    }
}

#[test]
fn a_group_asks_for_what_its_records_ask_for() {
    let desired = full_snapshot();
    let steps = desired.diffs_to_setup_steps(vec![Diff::Nested(
        "ssh".to_string(),
        vec![
            removed("ssh", "port", "22"),
            added("zoxide", "", "true"),
            Diff::Nested("alias".to_string(), vec![added("mise", "node", "22")]),
        ],
    )]);
    assert_eq!(kinds(&steps), vec![StepKind::Paths, StepKind::Zoxide, StepKind::Mise]);
}

#[test]
fn a_group_in_which_everything_was_removed_gives_no_operation() {
    let mut old = Configuration::empty();
    old.ssh = Some(SshConfig { port: Some(22), authorized_keys: Some(list(&["k1"])) });
    let mut new = Configuration::empty();
    new.ssh = Some(SshConfig { port: None, authorized_keys: None });
    let diffs = compare_configurations(&old, &new);
    assert_eq!(
        diffs,
        vec![Diff::Nested(
            "ssh".to_string(),
            vec![removed("ssh", "port", "22"), removed("ssh", "authorized_keys", "k1")]
        )]
    );
    assert_eq!(kinds(&new.diffs_to_setup_steps(diffs)), vec![StepKind::Paths]);
}

#[test]
fn add_setup_step_for_parent_appends_at_most_one_operation() {
    let desired = full_snapshot();
    let mut steps = Vec::new();
    desired.add_setup_step_for_parent(&mut steps, "curl");
    desired.add_setup_step_for_parent(&mut steps, "curl");
    desired.add_setup_step_for_parent(&mut steps, "nothing");
    desired.add_setup_step_for_parent(&mut steps, "ble.sh");
    desired.add_setup_step_for_parent(&mut steps, "tailscale");
    assert_eq!(kinds(&steps), vec![StepKind::Curl, StepKind::Curl, StepKind::Tailscale]);
}

#[test]
fn setup_steps_for_agrees_with_diffs_to_setup_steps() {
    let old = Configuration::default();
    let new = full_snapshot();
    let diffs = compare_configurations(&old, &new);
    let by_reference = kinds(&new.setup_steps_for(&diffs));
    let by_value = kinds(&new.diffs_to_setup_steps(diffs));
    assert_eq!(by_reference, by_value);
}

#[test]
fn cloning_a_snapshot_keeps_what_it_holds() {
    let snapshot = full_snapshot();
    let copy = snapshot.clone();
    assert!(compare_configurations(&snapshot, &copy).is_empty());
    assert!(compare_configurations(&copy, &snapshot).is_empty());
    assert_eq!(copy.ssh.unwrap().authorized_keys, Some(list(&["k1", "k2"])));
}
