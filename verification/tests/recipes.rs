use oh_my_droid::apply::{
    enable_blesh, enable_tailscale, enable_zoxide, install_apt, install_pkgx,
    run_curl_installers, setup_alias, setup_mise, setup_nix, setup_oh_my_posh, setup_paths,
    setup_ssh, setup_stow, SetupStep,
};
use oh_my_droid::cmd::setup::{checkout_plan, clone_repo};
use oh_my_droid::command::{
    absolute, args_of, args_of_strings, bash, bash_or, if_exists, in_home, run, run_or,
    run_plainly_or, run_with, Action, Arg, Command, Location,
};
use oh_my_droid::config::SshConfig;
use oh_my_droid::mapping::Mapping;

fn mapping(pairs: &[(&str, &str)]) -> Mapping {
    let mut out = Mapping::new();
    for (key, value) in pairs {
        out.insert(key.to_string(), value.to_string());
    }
    out
}

fn list(items: &[&str]) -> Vec<String> {
    items.iter().map(|item| item.to_string()).collect()
}

fn texts(items: &[&str]) -> Vec<Arg> {
    items.iter().map(|item| Arg::Text(item.to_string())).collect()
}

fn command(program: &str, args: &[&str], context: Option<&str>, local_path: bool) -> Action {
    Action::Run(Command {
        program: program.to_string(),
        args: texts(args),
        context: context.map(|text| text.to_string()),
        local_path,
    })
}

fn shell(script: &str, context: Option<&str>) -> Action {
    command("bash", &["-c", script], context, true)
}

fn home(path: &str) -> Location {
    Location::Home(path.to_string())
}

fn root(path: &str) -> Location {
    Location::Absolute(path.to_string())
}

#[test]
fn builders_make_what_they_say() {
    assert_eq!(run("rm", &["-f", "x"]), command("rm", &["-f", "x"], None, true));
    assert_eq!(run("true", &[]), command("true", &[], None, true));
    assert_eq!(run_or("rm", &["x"], "why"), command("rm", &["x"], Some("why"), true));
    assert_eq!(
        run_plainly_or("make", &["-C", "d"], "why"),
        command("make", &["-C", "d"], Some("why"), false)
    );
    assert_eq!(bash("echo hi"), shell("echo hi", None));
    assert_eq!(bash_or("echo hi", "why"), shell("echo hi", Some("why")));
    assert_eq!(args_of(&["a", "b"]), texts(&["a", "b"]));
    assert_eq!(args_of_strings(&list(&["a", "b"])), texts(&["a", "b"]));
    assert_eq!(
        run_with("chmod", vec![Arg::Text("700".to_string()), Arg::Path(home(".ssh"))], None),
        Action::Run(Command {
            program: "chmod".to_string(),
            args: vec![Arg::Text("700".to_string()), Arg::Path(home(".ssh"))],
            context: None,
            local_path: true,
        })
    );
    assert_eq!(absolute("/etc"), root("/etc"));
    assert_eq!(in_home(".ssh"), home(".ssh"));
    assert_eq!(
        if_exists(home("x"), vec![bash("a")], vec![]),
        Action::IfExists { path: home("x"), then: vec![shell("a", None)], otherwise: vec![] }
    );
}

#[test]
fn apt_installs_nothing_for_no_packages() {
    assert_eq!(install_apt(&[]), vec![]);
}

#[test]
fn apt_adds_missing_sources_and_installs_the_packages() {
    let update = command("sudo", &["apt-get", "update"], Some("Failed to run apt-get update"), true);
    let plan = install_apt(&list(&["git", "curl"]));
    assert_eq!(plan.len(), 5);
    assert_eq!(plan[0], update);
    assert_eq!(
        plan[1],
        Action::IfExists {
            path: root("/etc/apt/sources.list.d/vscode.list"),
            then: vec![],
            otherwise: vec![
                command("sudo", &["apt-get", "install", "-y", "wget", "curl", "gpg"], None, true),
                shell(
                    "wget -qO- https://packages.microsoft.com/keys/microsoft.asc | sudo gpg --dearmor > packages.microsoft.gpg",
                    None
                ),
                command(
                    "sudo",
                    &[
                        "install",
                        "-D",
                        "-o",
                        "root",
                        "-g",
                        "root",
                        "-m",
                        "644",
                        "packages.microsoft.gpg",
                        "/etc/apt/keyrings/packages.microsoft.gpg",
                    ],
                    None,
                    true
                ),
                shell(
                    "echo 'deb [arch=amd64,arm64,armhf signed-by=/etc/apt/keyrings/packages.microsoft.gpg] https://packages.microsoft.com/repos/code stable main' | sudo tee /etc/apt/sources.list.d/vscode.list",
                    None
                ),
                command("rm", &["-f", "packages.microsoft.gpg"], None, true),
                command("sudo", &["apt-get", "update"], Some("Failed to run apt-get update"), true),
            ],
        }
    );
    assert_eq!(
        plan[2],
        Action::IfExists {
            path: root("/etc/apt/sources.list.d/mise.list"),
            then: vec![],
            otherwise: vec![
                shell(
                    "wget -qO - https://mise.jdx.dev/gpg-key.pub | gpg --dearmor | sudo tee /etc/apt/keyrings/mise-archive-keyring.gpg 1> /dev/null\n",
                    None
                ),
                shell(
                    "echo 'deb [signed-by=/etc/apt/keyrings/mise-archive-keyring.gpg arch=amd64,arm64] https://mise.jdx.dev/deb stable main' | sudo tee /etc/apt/sources.list.d/mise.list",
                    None
                ),
                command("sudo", &["apt-get", "update"], Some("Failed to run apt-get update"), true),
            ],
        }
    );
    assert_eq!(
        plan[3],
        command(
            "sudo",
            &["apt-get", "install", "-y", "git", "curl"],
            Some("Failed to run apt-get install"),
            true
        )
    );
    assert_eq!(
        plan[4],
        command("sudo", &["rm", "-rf", "/etc/apt/sources.list.d/vscode.list"], None, true)
    );
}

#[test]
fn pkgx_installs_each_tool_and_removes_curl() {
    let plan = install_pkgx(&mapping(&[("jq", "latest"), ("rg", "14")]));
    assert_eq!(
        plan,
        vec![
            command("pkgm", &["install", "jq@latest"], Some("Failed to install jq via pkgx"), true),
            command("pkgm", &["install", "rg@14"], Some("Failed to install rg via pkgx"), true),
            command("pkgm", &["uninstall", "curl"], Some("Failed to uninstall curl via pkgx"), true),
        ]
    );
    assert_eq!(
        install_pkgx(&Mapping::new()),
        vec![command(
            "pkgm",
            &["uninstall", "curl"],
            Some("Failed to uninstall curl via pkgx"),
            true
        )]
    );
}

#[test]
fn curl_installers_are_fetched_and_run() {
    let plan = run_curl_installers(&mapping(&[("bun", "https://bun.sh/install")]));
    assert_eq!(
        plan,
        vec![shell(
            "curl -fsSL https://bun.sh/install | bash -s",
            Some("Failed to run curl installer for bun")
        )]
    );
    assert_eq!(run_curl_installers(&Mapping::new()), vec![]);
}

#[test]
fn mise_is_installed_activated_and_used() {
    let plan = setup_mise(&mapping(&[("node", "22")]));
    assert_eq!(
        plan,
        vec![
            Action::IfExists {
                path: root("/usr/bin/mise"),
                then: vec![],
                otherwise: vec![command(
                    "sudo",
                    &["apt-get", "install", "-y", "mise"],
                    Some("Failed to install mise"),
                    true
                )],
            },
            shell(
                "sed -i '/mise /d' ~/.bashrc || echo 'No existing mise line found in .bashrc'",
                None
            ),
            shell("echo '\neval \"$(mise activate bash)\"' | tee -a ~/.bashrc", None),
            command(
                "mise",
                &["use", "-g", "node@22"],
                Some("Failed to configure node via mise"),
                true
            ),
        ]
    );
    assert_eq!(setup_mise(&Mapping::new()).len(), 3);
}

#[test]
fn blesh_is_fetched_only_where_enabled_and_missing() {
    assert_eq!(enable_blesh(false), vec![Action::RequireHome]);
    assert_eq!(
        enable_blesh(true),
        vec![
            Action::RequireHome,
            Action::IfExists {
                path: home("ble.sh"),
                then: vec![],
                otherwise: vec![
                    command(
                        "bash",
                        &[
                            "-c",
                            "rm -rf ~/.local/bin/gettext* && git clone --recursive --depth 1 --shallow-submodules https://github.com/akinomyoga/ble.sh.git"
                        ],
                        Some("Failed to clone ble.sh repository"),
                        false
                    ),
                    command("make", &["-C", "ble.sh"], Some("Failed to build ble.sh"), false),
                    command(
                        "bash",
                        &[
                            "-c",
                            "grep 'source ble' ~/.bashrc || echo '\nsource ble.sh/out/ble.sh' | tee -a ~/.bashrc"
                        ],
                        Some("Failed to add ble.sh to .bashrc"),
                        false
                    ),
                ],
            },
        ]
    );
}

#[test]
fn zoxide_is_installed_where_enabled() {
    assert_eq!(enable_zoxide(false), vec![]);
    assert_eq!(
        enable_zoxide(true),
        vec![
            shell(
                "curl -sSL https://raw.githubusercontent.com/ajeetdsouza/zoxide/main/install.sh | bash",
                Some("Failed to install zoxide")
            ),
            shell(
                "grep zoxide ~/.bashrc || echo '\neval \"$(zoxide init bash)\"' | tee -a ~/.bashrc",
                Some("Failed to add zoxide initialization to .bashrc")
            ),
        ]
    );
}

#[test]
fn nix_is_installed_whatever_is_named() {
    let expected = vec![shell(
        "type nix || curl -fsSL https://install.determinate.systems/nix | sh -s -- install --determinate",
        Some("Failed to install nix"),
    )];
    assert_eq!(setup_nix(&Mapping::new()), expected);
    assert_eq!(setup_nix(&mapping(&[("hello", "latest")])), expected);
}

fn stow_plan_for(url: &str) -> Vec<Action> {
    vec![
        Action::RequireHome,
        Action::IfExists {
            path: home(".dotfiles"),
            then: vec![shell(
                "git -C ~/.dotfiles pull",
                Some("Failed to update dotfiles repository"),
            )],
            otherwise: vec![shell(
                &format!("git clone {} ~/.dotfiles", url),
                Some("Failed to clone dotfiles repository"),
            )],
        },
        shell("stow -d ~/.dotfiles -t ~ -- .", Some("Failed to stow dotfiles")),
    ]
}

#[test]
fn stow_needs_a_repository() {
    assert_eq!(setup_stow(&Mapping::new()), vec![]);
    assert_eq!(
        setup_stow(&mapping(&[("other", "x")])),
        vec![Action::Fail("No repo specified for stow".to_string())]
    );
}

#[test]
fn stow_resolves_the_repository_reference() {
    assert_eq!(
        setup_stow(&mapping(&[("git", "github:tsirysndr/android-dotfiles")])),
        stow_plan_for("https://github.com/tsirysndr/android-dotfiles")
    );
    assert_eq!(
        setup_stow(&mapping(&[("x", "y"), ("git", "tangled:@me/dotfiles")])),
        stow_plan_for("https://tangled.sh/@me/dotfiles")
    );
    assert_eq!(
        setup_stow(&mapping(&[("git", "https://example.com/me/dotfiles.git")])),
        stow_plan_for("https://example.com/me/dotfiles.git")
    );
    assert_eq!(
        setup_stow(&mapping(&[("git", "github:me/github:x")])),
        stow_plan_for("https://github.com/me/https://github.com/x")
    );
}

#[test]
fn the_prompt_is_started_with_the_theme() {
    assert_eq!(
        setup_oh_my_posh("tokyonight_storm"),
        vec![
            shell(
                "sed -i '/oh-my-posh/d' ~/.bashrc || echo 'No existing oh-my-posh line found in .bashrc'",
                None
            ),
            shell(
                "echo 'eval \"$(oh-my-posh init bash --config $HOME/.cache/oh-my-posh/themes/tokyonight_storm.omp.json)\"' >> ~/.bashrc",
                Some("Failed to set up Oh My Posh")
            ),
        ]
    );
}

#[test]
fn aliases_are_forgotten_then_defined() {
    assert_eq!(
        setup_alias(&mapping(&[("ls", "eza -lh"), ("ll", "ls -l")])),
        vec![
            shell("sed -i '/alias ls/d' ~/.bashrc", None),
            shell(
                "echo 'alias ls=\"eza -lh\"' >> ~/.bashrc",
                Some("Failed to set up alias ls for command eza -lh")
            ),
            shell("sed -i '/alias ll/d' ~/.bashrc", None),
            shell(
                "echo 'alias ll=\"ls -l\"' >> ~/.bashrc",
                Some("Failed to set up alias ll for command ls -l")
            ),
        ]
    );
    assert_eq!(setup_alias(&Mapping::new()), vec![]);
}

#[test]
fn paths_are_made_and_put_on_the_search_path() {
    assert_eq!(
        setup_paths(),
        vec![
            Action::RequireHome,
            Action::IfExists {
                path: home(".local/bin"),
                then: vec![],
                otherwise: vec![Action::CreateDir {
                    path: home(".local/bin"),
                    context: Some("Failed to create ~/.local/bin directory".to_string()),
                }],
            },
            shell(
                "grep -q 'export PATH=\"$HOME/.local/bin:$PATH\"' ~/.bashrc || echo 'export PATH=\"$HOME/.local/bin:$PATH\"' >> ~/.bashrc",
                Some("Failed to add ~/.local/bin to PATH in .bashrc")
            ),
        ]
    );
}

fn ssh_directory() -> Action {
    Action::IfExists {
        path: home(".ssh"),
        then: vec![],
        otherwise: vec![
            Action::CreateDir {
                path: home(".ssh"),
                context: Some("Failed to create ~/.ssh directory".to_string()),
            },
            Action::Run(Command {
                program: "chmod".to_string(),
                args: vec![Arg::Text("700".to_string()), Arg::Path(home(".ssh"))],
                context: Some("Failed to set permissions for ~/.ssh directory".to_string()),
                local_path: true,
            }),
        ],
    }
}

fn ssh_key_pair() -> Action {
    Action::IfExists {
        path: home(".ssh/id_ed25519"),
        then: vec![Action::Print("SSH key already exists. Skipping key generation.".to_string())],
        otherwise: vec![command(
            "ssh-keygen",
            &["-t", "ed25519"],
            Some("Failed to generate SSH key"),
            true,
        )],
    }
}

#[test]
fn ssh_without_settings_makes_the_directory_and_a_key_pair() {
    let bare = SshConfig { port: None, authorized_keys: None };
    assert_eq!(setup_ssh(&bare), vec![Action::RequireHome, ssh_directory(), ssh_key_pair()]);
    let no_keys = SshConfig { port: None, authorized_keys: Some(vec![]) };
    assert_eq!(setup_ssh(&no_keys), vec![Action::RequireHome, ssh_directory(), ssh_key_pair()]);
}

#[test]
fn ssh_sets_the_port_and_writes_the_keys() {
    let settings = SshConfig { port: Some(8022), authorized_keys: Some(list(&["k1", "k2"])) };
    assert_eq!(
        setup_ssh(&settings),
        vec![
            Action::RequireHome,
            ssh_directory(),
            shell(
                "sudo sed -i -E '/^[#[:space:]]*Port[[:space:]]+[0-9]+/d' /etc/ssh/sshd_config && echo \"Port 8022\" | sudo tee -a /etc/ssh/sshd_config >/dev/null && sudo sshd -t",
                Some("Failed to update SSH config with port")
            ),
            command(
                "sudo",
                &["systemctl", "reload", "ssh"],
                Some("Failed to restart SSH service"),
                true
            ),
            shell("echo 'k1' > ~/.ssh/authorized_keys", None),
            shell("echo 'k2' > ~/.ssh/authorized_keys", None),
            ssh_key_pair(),
        ]
    );
}

#[test]
fn tailscale_is_installed_where_enabled() {
    assert_eq!(enable_tailscale(false), vec![]);
    assert_eq!(
        enable_tailscale(true),
        vec![
            shell(
                "curl -fsSL https://tailscale.com/install.sh | sh",
                Some("Failed to install Tailscale")
            ),
            shell("sudo tailscale up", Some("Failed to enable Tailscale")),
            shell("sudo tailscale ip", Some("Failed to check Tailscale status")),
        ]
    );
}

#[test]
fn run_plans_the_operation_of_its_kind() {
    let map = mapping(&[("a", "b")]);
    let packages = list(&["git"]);
    let settings = SshConfig { port: Some(22), authorized_keys: None };
    assert_eq!(SetupStep::AptGet(&packages).run(), install_apt(&packages));
    assert_eq!(SetupStep::Pkgx(&map).run(), install_pkgx(&map));
    assert_eq!(SetupStep::Curl(&map).run(), run_curl_installers(&map));
    assert_eq!(SetupStep::Mise(&map).run(), setup_mise(&map));
    assert_eq!(SetupStep::BleSh(true).run(), enable_blesh(true));
    assert_eq!(SetupStep::Nix(&map).run(), setup_nix(&map));
    assert_eq!(SetupStep::Stow(&map).run(), setup_stow(&map));
    assert_eq!(SetupStep::OhMyPosh("t").run(), setup_oh_my_posh("t"));
    assert_eq!(SetupStep::Zoxide(true).run(), enable_zoxide(true));
    assert_eq!(SetupStep::Alias(&map).run(), setup_alias(&map));
    assert_eq!(SetupStep::Ssh(&settings).run(), setup_ssh(&settings));
    assert_eq!(SetupStep::Paths.run(), setup_paths());
    assert_eq!(SetupStep::Tailscale(true).run(), enable_tailscale(true));
}

fn git(args: Vec<Arg>) -> Action {
    Action::Run(Command { program: "git".to_string(), args, context: None, local_path: true })
}

fn text(item: &str) -> Arg {
    Arg::Text(item.to_string())
}

#[test]
fn checkout_plan_clones_or_updates_and_checks_for_the_file() {
    let dest = || Arg::Path(home(".oh-my-droid/cache/tsirysndr-pkgs"));
    let plan = checkout_plan(
        "https://github.com/tsirysndr/pkgs",
        &Some("main".to_string()),
        &Some("tsirysndr-pkgs".to_string()),
    )
    .unwrap();
    assert_eq!(plan.config, home(".oh-my-droid/cache/tsirysndr-pkgs/oh-my-droid.toml"));
    assert_eq!(
        plan.actions,
        vec![
            Action::RequireHome,
            Action::CreateDir { path: home(".oh-my-droid/cache"), context: None },
            shell("type git || (apt update && apt install -y git)", None),
            Action::IfExists {
                path: home(".oh-my-droid/cache/tsirysndr-pkgs"),
                then: vec![git(vec![text("-C"), dest(), text("pull")])],
                otherwise: vec![git(vec![
                    text("clone"),
                    text("https://github.com/tsirysndr/pkgs"),
                    dest(),
                ])],
            },
            git(vec![text("-C"), dest(), text("fetch"), text("--all")]),
            git(vec![text("-C"), dest(), text("checkout"), text("main")]),
            Action::IfExists {
                path: home(".oh-my-droid/cache/tsirysndr-pkgs/oh-my-droid.toml"),
                then: vec![],
                otherwise: vec![Action::Fail(
                    "The repository does not contain an oh-my-droid.toml configuration file."
                        .to_string()
                )],
            },
        ]
    );
}

#[test]
fn checkout_plan_without_a_version_checks_nothing_out() {
    let plan =
        checkout_plan("https://github.com/a/b", &None, &Some("a-b".to_string())).unwrap();
    assert_eq!(plan.actions.len(), 5);
    assert_eq!(plan.config, home(".oh-my-droid/cache/a-b/oh-my-droid.toml"));
}

#[test]
fn checkout_plan_refuses_what_it_cannot_fetch() {
    assert_eq!(
        checkout_plan("oh-my-droid.toml", &None, &Some("x".to_string())).unwrap_err(),
        "Unsupported repository URL. Only HTTPS URLs are supported."
    );
    assert_eq!(
        checkout_plan("http://github.com/a/b", &None, &None).unwrap_err(),
        "Unsupported repository URL. Only HTTPS URLs are supported."
    );
    assert_eq!(
        checkout_plan("https://github.com", &None, &None).unwrap_err(),
        "Failed to extract repository name"
    );
}

#[test]
fn clone_repo_names_the_repository_by_its_url() {
    let plan = clone_repo("https://github.com/tsirysndr/pkgs.git", &None).unwrap();
    assert_eq!(plan.config, home(".oh-my-droid/cache/tsirysndr-pkgs/oh-my-droid.toml"));
    assert_eq!(
        clone_repo("https://github.com/tsirysndr", &None).unwrap_err(),
        "Failed to extract repository name"
    );
    assert_eq!(
        clone_repo("github.com/tsirysndr/pkgs", &None).unwrap_err(),
        "Unsupported repository URL. Only HTTPS URLs are supported."
    );
}
