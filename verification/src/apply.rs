//! Setup steps: the operations that bring a host to the desired snapshot.

use crate::command::{
    absolute, args_of_strings, bash, bash_or, branch, if_exists, in_home, invoke, invoke_plainly,
    run, run_or, run_plainly_or, run_with, shell, text_args, Action, ActionView, Arg, ArgView,
    CommandView, LocationView,
};
use crate::config::{SshConfig, SshConfigView};
use crate::mapping::{lookup, Entries, Mapping, Text};
use crate::style::{
    blue, bold, cyan, green, italic, paint_blue, paint_bold, paint_cyan, paint_green, paint_italic,
};
use crate::text::{
    bool_string, bool_text, decimal, decimal_text, has_prefix, join, joined, replace_all,
    replaced, starts_with,
};
use vstd::prelude::*;

verus! {

/// One operation, bound to the part of the desired snapshot that it acts on.
#[derive(Debug, Clone, Copy)]
pub enum SetupStep<'a> {
    AptGet(&'a [String]),
    Pkgx(&'a Mapping),
    Curl(&'a Mapping),
    Mise(&'a Mapping),
    BleSh(bool),
    Nix(&'a Mapping),
    Stow(&'a Mapping),
    OhMyPosh(&'a str),
    Zoxide(bool),
    Alias(&'a Mapping),
    Ssh(&'a SshConfig),
    Paths,
    Tailscale(bool),
}

/// What a `SetupStep` holds.
pub enum StepView {
    AptGet(Seq<Text>),
    Pkgx(Entries),
    Curl(Entries),
    Mise(Entries),
    BleSh(bool),
    Nix(Entries),
    Stow(Entries),
    OhMyPosh(Text),
    Zoxide(bool),
    Alias(Entries),
    Ssh(SshConfigView),
    Paths,
    Tailscale(bool),
}

/// The kind of an operation: what it does, whatever it is bound to.
#[derive(Debug, Clone, Copy, PartialEq, Eq, Structural)]
pub enum StepKind {
    AptGet,
    Pkgx,
    Curl,
    Mise,
    BleSh,
    Nix,
    Stow,
    OhMyPosh,
    Zoxide,
    Alias,
    Ssh,
    Paths,
    Tailscale,
}

impl StepView {
    /// The kind of the operation.
    pub open spec fn kind(self) -> StepKind {
        match self {
            StepView::AptGet(_) => StepKind::AptGet,
            StepView::Pkgx(_) => StepKind::Pkgx,
            StepView::Curl(_) => StepKind::Curl,
            StepView::Mise(_) => StepKind::Mise,
            StepView::BleSh(_) => StepKind::BleSh,
            StepView::Nix(_) => StepKind::Nix,
            StepView::Stow(_) => StepKind::Stow,
            StepView::OhMyPosh(_) => StepKind::OhMyPosh,
            StepView::Zoxide(_) => StepKind::Zoxide,
            StepView::Alias(_) => StepKind::Alias,
            StepView::Ssh(_) => StepKind::Ssh,
            StepView::Paths => StepKind::Paths,
            StepView::Tailscale(_) => StepKind::Tailscale,
        }
    }
}

impl<'a> DeepView for SetupStep<'a> {
    type V = StepView;

    open spec fn deep_view(&self) -> StepView {
        match self {
            SetupStep::AptGet(packages) => StepView::AptGet(packages.deep_view()),
            SetupStep::Pkgx(entries) => StepView::Pkgx(entries.deep_view()),
            SetupStep::Curl(entries) => StepView::Curl(entries.deep_view()),
            SetupStep::Mise(entries) => StepView::Mise(entries.deep_view()),
            SetupStep::BleSh(enabled) => StepView::BleSh(*enabled),
            SetupStep::Nix(entries) => StepView::Nix(entries.deep_view()),
            SetupStep::Stow(entries) => StepView::Stow(entries.deep_view()),
            SetupStep::OhMyPosh(theme) => StepView::OhMyPosh(theme@),
            SetupStep::Zoxide(enabled) => StepView::Zoxide(*enabled),
            SetupStep::Alias(entries) => StepView::Alias(entries.deep_view()),
            SetupStep::Ssh(settings) => StepView::Ssh(settings.deep_view()),
            SetupStep::Paths => StepView::Paths,
            SetupStep::Tailscale(enabled) => StepView::Tailscale(*enabled),
        }
    }
}

impl<'a> View for SetupStep<'a> {
    type V = StepView;

    open spec fn view(&self) -> StepView {
        self.deep_view()
    }
}

impl<'a> SetupStep<'a> {
    /// The kind of the operation.
    pub fn kind(&self) -> (kind: StepKind)
        ensures
            kind == self@.kind(),
    {
        match self {
            SetupStep::AptGet(_) => StepKind::AptGet,
            SetupStep::Pkgx(_) => StepKind::Pkgx,
            SetupStep::Curl(_) => StepKind::Curl,
            SetupStep::Mise(_) => StepKind::Mise,
            SetupStep::BleSh(_) => StepKind::BleSh,
            SetupStep::Nix(_) => StepKind::Nix,
            SetupStep::Stow(_) => StepKind::Stow,
            SetupStep::OhMyPosh(_) => StepKind::OhMyPosh,
            SetupStep::Zoxide(_) => StepKind::Zoxide,
            SetupStep::Alias(_) => StepKind::Alias,
            SetupStep::Ssh(_) => StepKind::Ssh,
            SetupStep::Paths => StepKind::Paths,
            SetupStep::Tailscale(_) => StepKind::Tailscale,
        }
    }
}

/// The heading of a preview: the operation's name in bold blue, then what it does in italics.
pub open spec fn heading(name: Text, about: Text) -> Text {
    bold(blue(name)) + " "@ + italic(about)
}

/// The preview line of one entry of a mapping.
pub open spec fn entry_line(entry: (Text, Text)) -> Text {
    "  - "@ + green(entry.0) + ": "@ + cyan(entry.1)
}

/// The preview lines of the entries of a mapping, in order.
pub open spec fn entry_lines(entries: Entries) -> Seq<Text> {
    Seq::new(entries.len(), |i: int| entry_line(entries[i]))
}

/// The preview lines of the items of a list: each item in green after `indent`.
pub open spec fn item_lines(indent: Text, items: Seq<Text>) -> Seq<Text> {
    Seq::new(items.len(), |i: int| indent + green(items[i]))
}

/// The preview of an operation on a mapping.
pub open spec fn mapping_preview(name: Text, about: Text, entries: Entries) -> Text {
    heading(name, about) + "\n"@ + joined(entry_lines(entries), "\n"@)
}

/// The preview of an operation that a flag switches.
pub open spec fn flag_preview(name: Text, about: Text, enabled: bool) -> Text {
    heading(name, about) + "\n  - Enabled: "@ + green(bool_text(enabled))
}

/// The preview of an operation: a heading, then the values that the operation would act on.
pub open spec fn dry_run_text(step: StepView) -> Text {
    match step {
        StepView::AptGet(packages) => heading(
            "AptGet"@,
            "(Install system packages via apt-get)"@,
        ) + "\n"@ + joined(item_lines("  - "@, packages), "\n"@),
        StepView::Pkgx(entries) => mapping_preview("Pkgx"@, "(Install tools via pkgx)"@, entries),
        StepView::Curl(entries) => mapping_preview(
            "Curl"@,
            "(Run curl-based installers)"@,
            entries,
        ),
        StepView::Mise(entries) => mapping_preview(
            "Mise"@,
            "(Configure tools via mise)"@,
            entries,
        ),
        StepView::BleSh(enabled) => flag_preview(
            "BleSh"@,
            "(Enable ble.sh shell enhancements)"@,
            enabled,
        ),
        StepView::Zoxide(enabled) => flag_preview(
            "Zoxide"@,
            "(Enable zoxide for directory navigation)"@,
            enabled,
        ),
        StepView::Nix(entries) => mapping_preview("Nix"@, "(Install tools via nix)"@, entries),
        StepView::Stow(entries) => mapping_preview(
            "Stow"@,
            "(Manage dotfiles via stow)"@,
            entries,
        ),
        StepView::OhMyPosh(theme) => heading("OhMyPosh"@, "(Setup Oh My Posh for shell prompt)"@)
            + "\n  - Theme: "@ + green(theme),
        StepView::Alias(entries) => mapping_preview("Alias"@, "(Setup shell aliases)"@, entries),
        StepView::Paths => heading("Paths"@, "(Setup paths for binaries)"@) + "\n"@ + green(
            "  - ~/.local/bin"@,
        ),
        StepView::Ssh(settings) => heading("SSH"@, "(Setup SSH keys and configuration)"@)
            + "\n  - Port: "@ + green(
            decimal_text(
                match settings.port {
                    Some(port) => port,
                    None => 0,
                },
            ),
        ) + "\n  - Authorized Keys: "@ + (match settings.authorized_keys {
            Some(keys) => joined(item_lines("    - "@, keys), "\n"@),
            None => "    - None"@,
        }),
        StepView::Tailscale(enabled) => flag_preview(
            "Tailscale"@,
            "(Install and configure Tailscale VPN)"@,
            enabled,
        ),
    }
}

/// The heading of a preview.
fn heading_text(name: &str, about: &str) -> (out: String)
    ensures
        out@ == heading(name@, about@),
{
    let mut out = paint_bold(paint_blue(name).as_str());
    out.append(" ");
    out.append(paint_italic(about).as_str());
    out
}

/// The preview lines of the entries of a mapping.
fn entry_line_texts(entries: &Mapping) -> (lines: Vec<String>)
    ensures
        lines.deep_view() == entry_lines(entries@),
{
    let mut lines: Vec<String> = Vec::new();
    let mut i: usize = 0;
    while i < entries.len()
        invariant
            i <= entries@.len(),
            lines.len() == i,
            forall|j: int| 0 <= j < i ==> lines[j]@ == entry_line(entries@[j]),
        decreases entries@.len() - i,
    {
        let mut line = "  - ".to_owned();
        line.append(paint_green(entries.key_at(i).as_str()).as_str());
        line.append(": ");
        line.append(paint_cyan(entries.value_at(i).as_str()).as_str());
        lines.push(line);
        i += 1;
    }
    assert(lines.deep_view() =~= entry_lines(entries@));
    lines
}

/// The preview lines of the items of a list.
fn item_line_texts(indent: &str, items: &[String]) -> (lines: Vec<String>)
    ensures
        lines.deep_view() == item_lines(indent@, items.deep_view()),
{
    let mut lines: Vec<String> = Vec::new();
    let mut i: usize = 0;
    while i < items.len()
        invariant
            i <= items.len(),
            lines.len() == i,
            forall|j: int| 0 <= j < i ==> lines[j]@ == indent@ + green(items[j]@),
        decreases items.len() - i,
    {
        let mut line = indent.to_owned();
        line.append(paint_green(items[i].as_str()).as_str());
        lines.push(line);
        i += 1;
    }
    assert(lines.deep_view() =~= item_lines(indent@, items.deep_view()));
    lines
}

/// The preview of an operation on a mapping.
fn mapping_preview_text(name: &str, about: &str, entries: &Mapping) -> (out: String)
    ensures
        out@ == mapping_preview(name@, about@, entries@),
{
    let mut out = heading_text(name, about);
    out.append("\n");
    out.append(join(&entry_line_texts(entries), "\n").as_str());
    out
}

/// The preview of an operation that a flag switches.
fn flag_preview_text(name: &str, about: &str, enabled: bool) -> (out: String)
    ensures
        out@ == flag_preview(name@, about@, enabled),
{
    let mut out = heading_text(name, about);
    out.append("\n  - Enabled: ");
    out.append(paint_green(bool_string(enabled).as_str()).as_str());
    out
}

impl<'a> SetupStep<'a> {
    /// Describes what running the operation would do, with the values it would act on.
    pub fn format_dry_run(&self) -> (out: String)
        ensures
            out@ == dry_run_text(self@),
    {
        match self {
            SetupStep::AptGet(pkgs) => {
                let mut out = heading_text("AptGet", "(Install system packages via apt-get)");
                out.append("\n");
                out.append(join(&item_line_texts("  - ", pkgs), "\n").as_str());
                out
            },
            SetupStep::Pkgx(map) => mapping_preview_text("Pkgx", "(Install tools via pkgx)", map),
            SetupStep::Curl(map) => mapping_preview_text(
                "Curl",
                "(Run curl-based installers)",
                map,
            ),
            SetupStep::Mise(map) => mapping_preview_text("Mise", "(Configure tools via mise)", map),
            SetupStep::BleSh(enabled) => flag_preview_text(
                "BleSh",
                "(Enable ble.sh shell enhancements)",
                *enabled,
            ),
            SetupStep::Zoxide(enabled) => flag_preview_text(
                "Zoxide",
                "(Enable zoxide for directory navigation)",
                *enabled,
            ),
            SetupStep::Nix(map) => mapping_preview_text("Nix", "(Install tools via nix)", map),
            SetupStep::Stow(map) => mapping_preview_text("Stow", "(Manage dotfiles via stow)", map),
            SetupStep::OhMyPosh(theme) => {
                let mut out = heading_text("OhMyPosh", "(Setup Oh My Posh for shell prompt)");
                out.append("\n  - Theme: ");
                out.append(paint_green(theme).as_str());
                out
            },
            SetupStep::Alias(map) => mapping_preview_text("Alias", "(Setup shell aliases)", map),
            SetupStep::Paths => {
                let mut out = heading_text("Paths", "(Setup paths for binaries)");
                out.append("\n");
                out.append(paint_green("  - ~/.local/bin").as_str());
                out
            },
            SetupStep::Ssh(config) => {
                let mut out = heading_text("SSH", "(Setup SSH keys and configuration)");
                out.append("\n  - Port: ");
                let port: usize = match config.port {
                    Some(port) => port,
                    None => 0,
                };
                out.append(paint_green(decimal(port).as_str()).as_str());
                out.append("\n  - Authorized Keys: ");
                match &config.authorized_keys {
                    Some(keys) => {
                        out.append(join(&item_line_texts("    - ", keys.as_slice()), "\n").as_str());
                    },
                    None => {
                        out.append("    - None");
                    },
                }
                out
            },
            SetupStep::Tailscale(enabled) => flag_preview_text(
                "Tailscale",
                "(Install and configure Tailscale VPN)",
                *enabled,
            ),
        }
    }
}

/// What installing packages with apt-get does: nothing for no packages; else it refreshes the
/// package lists, adds the package sources that are missing, and installs the packages.
pub open spec fn apt_plan(packages: Seq<Text>) -> Seq<ActionView> {
    if packages.len() == 0 {
        Seq::empty()
    } else {
        seq![
            apt_update(),
            branch(
                LocationView::Absolute("/etc/apt/sources.list.d/vscode.list"@),
                Seq::empty(),
                seq![
                    invoke(
                        "sudo"@,
                        seq!["apt-get"@, "install"@, "-y"@, "wget"@, "curl"@, "gpg"@],
                        None,
                    ),
                    shell(
                        "wget -qO- https://packages.microsoft.com/keys/microsoft.asc | sudo gpg --dearmor > packages.microsoft.gpg"@,
                        None,
                    ),
                    invoke(
                        "sudo"@,
                        seq![
                            "install"@,
                            "-D"@,
                            "-o"@,
                            "root"@,
                            "-g"@,
                            "root"@,
                            "-m"@,
                            "644"@,
                            "packages.microsoft.gpg"@,
                            "/etc/apt/keyrings/packages.microsoft.gpg"@,
                        ],
                        None,
                    ),
                    shell(
                        "echo 'deb [arch=amd64,arm64,armhf signed-by=/etc/apt/keyrings/packages.microsoft.gpg] https://packages.microsoft.com/repos/code stable main' | sudo tee /etc/apt/sources.list.d/vscode.list"@,
                        None,
                    ),
                    invoke("rm"@, seq!["-f"@, "packages.microsoft.gpg"@], None),
                    apt_update(),
                ],
            ),
            branch(
                LocationView::Absolute("/etc/apt/sources.list.d/mise.list"@),
                Seq::empty(),
                seq![
                    shell(
                        "wget -qO - https://mise.jdx.dev/gpg-key.pub | gpg --dearmor | sudo tee /etc/apt/keyrings/mise-archive-keyring.gpg 1> /dev/null\n"@,
                        None,
                    ),
                    shell(
                        "echo 'deb [signed-by=/etc/apt/keyrings/mise-archive-keyring.gpg arch=amd64,arm64] https://mise.jdx.dev/deb stable main' | sudo tee /etc/apt/sources.list.d/mise.list"@,
                        None,
                    ),
                    apt_update(),
                ],
            ),
            invoke(
                "sudo"@,
                seq!["apt-get"@, "install"@, "-y"@] + packages,
                Some("Failed to run apt-get install"@),
            ),
            invoke("sudo"@, seq!["rm"@, "-rf"@, "/etc/apt/sources.list.d/vscode.list"@], None),
        ]
    }
}

/// Refreshing the package lists.
pub open spec fn apt_update() -> ActionView {
    invoke("sudo"@, seq!["apt-get"@, "update"@], Some("Failed to run apt-get update"@))
}

/// The action that refreshes the package lists.
fn apt_update_action() -> (action: Action)
    ensures
        action.deep_view() == apt_update(),
{
    let action = run_or("sudo", &["apt-get", "update"], "Failed to run apt-get update");
    assert(action.deep_view() =~~= apt_update());
    action
}

/// No actions.
fn nothing() -> (plan: Vec<Action>)
    ensures
        plan.deep_view() == Seq::<ActionView>::empty(),
{
    let plan: Vec<Action> = Vec::new();
    assert(plan.deep_view() =~= Seq::<ActionView>::empty());
    plan
}

/// Plans the installation of packages with apt-get.
pub fn install_apt(pkgs: &[String]) -> (plan: Vec<Action>)
    ensures
        plan.deep_view() == apt_plan(pkgs.deep_view()),
{
    if pkgs.len() == 0 {
        return nothing();
    }
    let tools = run("sudo", &["apt-get", "install", "-y", "wget", "curl", "gpg"]);
    assert(tools.deep_view() =~~= invoke(
        "sudo"@,
        seq!["apt-get"@, "install"@, "-y"@, "wget"@, "curl"@, "gpg"@],
        None,
    ));
    let keyring = run(
        "sudo",
        &[
            "install",
            "-D",
            "-o",
            "root",
            "-g",
            "root",
            "-m",
            "644",
            "packages.microsoft.gpg",
            "/etc/apt/keyrings/packages.microsoft.gpg",
        ],
    );
    assert(keyring.deep_view() =~~= invoke(
        "sudo"@,
        seq![
            "install"@,
            "-D"@,
            "-o"@,
            "root"@,
            "-g"@,
            "root"@,
            "-m"@,
            "644"@,
            "packages.microsoft.gpg"@,
            "/etc/apt/keyrings/packages.microsoft.gpg"@,
        ],
        None,
    ));
    let tidy = run("rm", &["-f", "packages.microsoft.gpg"]);
    assert(tidy.deep_view() =~~= invoke("rm"@, seq!["-f"@, "packages.microsoft.gpg"@], None));

    let mut vscode: Vec<Action> = Vec::new();
    vscode.push(tools);
    vscode.push(
        bash(
            "wget -qO- https://packages.microsoft.com/keys/microsoft.asc | sudo gpg --dearmor > packages.microsoft.gpg",
        ),
    );
    vscode.push(keyring);
    vscode.push(
        bash(
            "echo 'deb [arch=amd64,arm64,armhf signed-by=/etc/apt/keyrings/packages.microsoft.gpg] https://packages.microsoft.com/repos/code stable main' | sudo tee /etc/apt/sources.list.d/vscode.list",
        ),
    );
    vscode.push(tidy);
    vscode.push(apt_update_action());
    assert(vscode.deep_view() =~= apt_plan(pkgs.deep_view())[1]->IfExists_otherwise);

    let mut mise: Vec<Action> = Vec::new();
    mise.push(
        bash(
            "wget -qO - https://mise.jdx.dev/gpg-key.pub | gpg --dearmor | sudo tee /etc/apt/keyrings/mise-archive-keyring.gpg 1> /dev/null\n",
        ),
    );
    mise.push(
        bash(
            "echo 'deb [signed-by=/etc/apt/keyrings/mise-archive-keyring.gpg arch=amd64,arm64] https://mise.jdx.dev/deb stable main' | sudo tee /etc/apt/sources.list.d/mise.list",
        ),
    );
    mise.push(apt_update_action());
    assert(mise.deep_view() =~= apt_plan(pkgs.deep_view())[2]->IfExists_otherwise);

    let mut args: Vec<String> = Vec::new();
    args.push("apt-get".to_owned());
    args.push("install".to_owned());
    args.push("-y".to_owned());
    let mut i: usize = 0;
    while i < pkgs.len()
        invariant
            i <= pkgs.len(),
            args.len() == 3 + i,
            args[0]@ == "apt-get"@,
            args[1]@ == "install"@,
            args[2]@ == "-y"@,
            forall|j: int| 0 <= j < i ==> args[3 + j]@ == pkgs[j]@,
        decreases pkgs.len() - i,
    {
        args.push(pkgs[i].clone());
        i += 1;
    }
    assert(args.deep_view() =~= seq!["apt-get"@, "install"@, "-y"@] + pkgs.deep_view());
    let remove = run("sudo", &["rm", "-rf", "/etc/apt/sources.list.d/vscode.list"]);
    assert(remove.deep_view() =~~= invoke(
        "sudo"@,
        seq!["rm"@, "-rf"@, "/etc/apt/sources.list.d/vscode.list"@],
        None,
    ));

    let mut plan: Vec<Action> = Vec::new();
    plan.push(apt_update_action());
    plan.push(if_exists(absolute("/etc/apt/sources.list.d/vscode.list"), nothing(), vscode));
    plan.push(if_exists(absolute("/etc/apt/sources.list.d/mise.list"), nothing(), mise));
    plan.push(
        run_with(
            "sudo",
            args_of_strings(&args),
            Some("Failed to run apt-get install".to_owned()),
        ),
    );
    plan.push(remove);
    assert(plan.deep_view() =~= apt_plan(pkgs.deep_view()));
    plan
}

/// Installing one tool with pkgx.
pub open spec fn pkgx_install(entry: (Text, Text)) -> ActionView {
    invoke(
        "pkgm"@,
        seq!["install"@, entry.0 + "@"@ + entry.1],
        Some("Failed to install "@ + entry.0 + " via pkgx"@),
    )
}

/// What installing tools with pkgx does: it installs each tool at its version, then removes
/// the `curl` that pkgx brought.
pub open spec fn pkgx_plan(entries: Entries) -> Seq<ActionView> {
    Seq::new(entries.len(), |i: int| pkgx_install(entries[i])).push(
        invoke("pkgm"@, seq!["uninstall"@, "curl"@], Some("Failed to uninstall curl via pkgx"@)),
    )
}

/// The arguments `first` and `second`.
fn two_args(first: &str, second: String) -> (args: Vec<Arg>)
    ensures
        args.deep_view() == text_args(seq![first@, second@]),
{
    let mut args: Vec<Arg> = Vec::new();
    args.push(Arg::Text(first.to_owned()));
    args.push(Arg::Text(second));
    assert(args.deep_view() =~= text_args(seq![first@, second@]));
    args
}

/// `tool`, an `@`, and `version`.
fn at_version(tool: &str, version: &str) -> (out: String)
    ensures
        out@ == tool@ + "@"@ + version@,
{
    let mut out = tool.to_owned();
    out.append("@");
    out.append(version);
    out
}

/// `before`, `name` and `after`, in a row.
fn around(before: &str, name: &str, after: &str) -> (out: String)
    ensures
        out@ == before@ + name@ + after@,
{
    let mut out = before.to_owned();
    out.append(name);
    out.append(after);
    out
}

/// Plans the installation of tools with pkgx.
pub fn install_pkgx(map: &Mapping) -> (plan: Vec<Action>)
    ensures
        plan.deep_view() == pkgx_plan(map@),
{
    let mut plan: Vec<Action> = Vec::new();
    let mut i: usize = 0;
    while i < map.len()
        invariant
            i <= map@.len(),
            plan.len() == i,
            forall|j: int| 0 <= j < i ==> plan[j].deep_view() == pkgx_install(map@[j]),
        decreases map@.len() - i,
    {
        let name = map.key_at(i).as_str();
        let ver = map.value_at(i).as_str();
        plan.push(
            run_with(
                "pkgm",
                two_args("install", at_version(name, ver)),
                Some(around("Failed to install ", name, " via pkgx")),
            ),
        );
        i += 1;
    }
    let last = run_or("pkgm", &["uninstall", "curl"], "Failed to uninstall curl via pkgx");
    assert(last.deep_view() =~~= invoke(
        "pkgm"@,
        seq!["uninstall"@, "curl"@],
        Some("Failed to uninstall curl via pkgx"@),
    ));
    plan.push(last);
    assert(plan.deep_view() =~= pkgx_plan(map@));
    plan
}

/// Running one installer that is fetched with curl.
pub open spec fn curl_install(entry: (Text, Text)) -> ActionView {
    shell(
        "curl -fsSL "@ + entry.1 + " | bash -s"@,
        Some("Failed to run curl installer for "@ + entry.0),
    )
}

/// What running the curl installers does: it fetches and runs each, in order.
pub open spec fn curl_plan(entries: Entries) -> Seq<ActionView> {
    Seq::new(entries.len(), |i: int| curl_install(entries[i]))
}

/// Plans the run of the installers that are fetched with curl.
pub fn run_curl_installers(map: &Mapping) -> (plan: Vec<Action>)
    ensures
        plan.deep_view() == curl_plan(map@),
{
    let mut plan: Vec<Action> = Vec::new();
    let mut i: usize = 0;
    while i < map.len()
        invariant
            i <= map@.len(),
            plan.len() == i,
            forall|j: int| 0 <= j < i ==> plan[j].deep_view() == curl_install(map@[j]),
        decreases map@.len() - i,
    {
        let name = map.key_at(i).as_str();
        let url = map.value_at(i).as_str();
        let mut context = "Failed to run curl installer for ".to_owned();
        context.append(name);
        plan.push(bash_or(around("curl -fsSL ", url, " | bash -s").as_str(), context.as_str()));
        i += 1;
    }
    assert(plan.deep_view() =~= curl_plan(map@));
    plan
}

/// Making one tool available with mise.
pub open spec fn mise_use(entry: (Text, Text)) -> ActionView {
    invoke(
        "mise"@,
        seq!["use"@, "-g"@, entry.0 + "@"@ + entry.1],
        Some("Failed to configure "@ + entry.0 + " via mise"@),
    )
}

/// Installing mise where it is missing, and activating it in the shell's start-up file.
pub open spec fn mise_itself() -> Seq<ActionView> {
    seq![
        branch(
            LocationView::Absolute("/usr/bin/mise"@),
            Seq::empty(),
            seq![
                invoke(
                    "sudo"@,
                    seq!["apt-get"@, "install"@, "-y"@, "mise"@],
                    Some("Failed to install mise"@),
                ),
            ],
        ),
        shell(
            "sed -i '/mise /d' ~/.bashrc || echo 'No existing mise line found in .bashrc'"@,
            None,
        ),
        shell("echo '\neval \"$(mise activate bash)\"' | tee -a ~/.bashrc"@, None),
    ]
}

/// What setting up mise does: it installs mise where it is missing, activates it in the
/// shell's start-up file, and makes each tool available at its version.
pub open spec fn mise_plan(entries: Entries) -> Seq<ActionView> {
    mise_itself() + Seq::new(entries.len(), |i: int| mise_use(entries[i]))
}

/// Plans the setup of mise.
pub fn setup_mise(map: &Mapping) -> (plan: Vec<Action>)
    ensures
        plan.deep_view() == mise_plan(map@),
{
    let install = run_or("sudo", &["apt-get", "install", "-y", "mise"], "Failed to install mise");
    assert(install.deep_view() =~~= invoke(
        "sudo"@,
        seq!["apt-get"@, "install"@, "-y"@, "mise"@],
        Some("Failed to install mise"@),
    ));
    let mut missing: Vec<Action> = Vec::new();
    missing.push(install);
    assert(missing.deep_view() =~= mise_itself()[0]->IfExists_otherwise);

    let mut plan: Vec<Action> = Vec::new();
    plan.push(if_exists(absolute("/usr/bin/mise"), nothing(), missing));
    plan.push(
        bash("sed -i '/mise /d' ~/.bashrc || echo 'No existing mise line found in .bashrc'"),
    );
    plan.push(bash("echo '\neval \"$(mise activate bash)\"' | tee -a ~/.bashrc"));
    assert(plan.deep_view() =~= mise_itself());
    let mut i: usize = 0;
    while i < map.len()
        invariant
            i <= map@.len(),
            plan.len() == 3 + i,
            forall|j: int| 0 <= j < 3 ==> plan[j].deep_view() == mise_itself()[j],
            forall|j: int| 0 <= j < i ==> plan[3 + j].deep_view() == mise_use(map@[j]),
        decreases map@.len() - i,
    {
        let tool = map.key_at(i).as_str();
        let ver = map.value_at(i).as_str();
        let mut args: Vec<Arg> = Vec::new();
        args.push(Arg::Text("use".to_owned()));
        args.push(Arg::Text("-g".to_owned()));
        args.push(Arg::Text(at_version(tool, ver)));
        assert(args.deep_view() =~= text_args(seq!["use"@, "-g"@, tool@ + "@"@ + ver@]));
        plan.push(run_with("mise", args, Some(around("Failed to configure ", tool, " via mise"))));
        i += 1;
    }
    assert(plan.deep_view() =~= mise_plan(map@));
    plan
}

/// What enabling ble.sh does: where it is switched on and not yet there, it fetches and builds
/// ble.sh and loads it from the shell's start-up file.
pub open spec fn blesh_plan(enabled: bool) -> Seq<ActionView> {
    if enabled {
        seq![
            ActionView::RequireHome,
            branch(
                LocationView::Home("ble.sh"@),
                Seq::empty(),
                seq![
                    invoke_plainly(
                        "bash"@,
                        seq![
                            "-c"@,
                            "rm -rf ~/.local/bin/gettext* && git clone --recursive --depth 1 --shallow-submodules https://github.com/akinomyoga/ble.sh.git"@,
                        ],
                        Some("Failed to clone ble.sh repository"@),
                    ),
                    invoke_plainly(
                        "make"@,
                        seq!["-C"@, "ble.sh"@],
                        Some("Failed to build ble.sh"@),
                    ),
                    invoke_plainly(
                        "bash"@,
                        seq![
                            "-c"@,
                            "grep 'source ble' ~/.bashrc || echo '\nsource ble.sh/out/ble.sh' | tee -a ~/.bashrc"@,
                        ],
                        Some("Failed to add ble.sh to .bashrc"@),
                    ),
                ],
            ),
        ]
    } else {
        seq![ActionView::RequireHome]
    }
}

/// Plans the enabling of ble.sh.
pub fn enable_blesh(enabled: bool) -> (plan: Vec<Action>)
    ensures
        plan.deep_view() == blesh_plan(enabled),
{
    let mut plan: Vec<Action> = Vec::new();
    plan.push(Action::RequireHome);
    if enabled {
        let fetch = run_plainly_or(
            "bash",
            &[
                "-c",
                "rm -rf ~/.local/bin/gettext* && git clone --recursive --depth 1 --shallow-submodules https://github.com/akinomyoga/ble.sh.git",
            ],
            "Failed to clone ble.sh repository",
        );
        assert(fetch.deep_view() =~~= blesh_plan(true)[1]->IfExists_otherwise[0]);
        let build = run_plainly_or("make", &["-C", "ble.sh"], "Failed to build ble.sh");
        assert(build.deep_view() =~~= blesh_plan(true)[1]->IfExists_otherwise[1]);
        let load = run_plainly_or(
            "bash",
            &[
                "-c",
                "grep 'source ble' ~/.bashrc || echo '\nsource ble.sh/out/ble.sh' | tee -a ~/.bashrc",
            ],
            "Failed to add ble.sh to .bashrc",
        );
        assert(load.deep_view() =~~= blesh_plan(true)[1]->IfExists_otherwise[2]);
        let mut missing: Vec<Action> = Vec::new();
        missing.push(fetch);
        missing.push(build);
        missing.push(load);
        assert(missing.deep_view() =~= blesh_plan(true)[1]->IfExists_otherwise);
        plan.push(if_exists(in_home("ble.sh"), nothing(), missing));
    }
    assert(plan.deep_view() =~= blesh_plan(enabled));
    plan
}

/// What enabling zoxide does: where it is switched on, it installs zoxide and starts it from
/// the shell's start-up file.
pub open spec fn zoxide_plan(enabled: bool) -> Seq<ActionView> {
    if enabled {
        seq![
            shell(
                "curl -sSL https://raw.githubusercontent.com/ajeetdsouza/zoxide/main/install.sh | bash"@,
                Some("Failed to install zoxide"@),
            ),
            shell(
                "grep zoxide ~/.bashrc || echo '\neval \"$(zoxide init bash)\"' | tee -a ~/.bashrc"@,
                Some("Failed to add zoxide initialization to .bashrc"@),
            ),
        ]
    } else {
        Seq::empty()
    }
}

/// Plans the enabling of zoxide.
pub fn enable_zoxide(enabled: bool) -> (plan: Vec<Action>)
    ensures
        plan.deep_view() == zoxide_plan(enabled),
{
    let mut plan: Vec<Action> = Vec::new();
    if enabled {
        plan.push(
            bash_or(
                "curl -sSL https://raw.githubusercontent.com/ajeetdsouza/zoxide/main/install.sh | bash",
                "Failed to install zoxide",
            ),
        );
        plan.push(
            bash_or(
                "grep zoxide ~/.bashrc || echo '\neval \"$(zoxide init bash)\"' | tee -a ~/.bashrc",
                "Failed to add zoxide initialization to .bashrc",
            ),
        );
    }
    assert(plan.deep_view() =~= zoxide_plan(enabled));
    plan
}

/// What setting up nix does: it installs nix where it is missing, whatever tools are named.
pub open spec fn nix_plan(entries: Entries) -> Seq<ActionView> {
    seq![
        shell(
            "type nix || curl -fsSL https://install.determinate.systems/nix | sh -s -- install --determinate"@,
            Some("Failed to install nix"@),
        ),
    ]
}

/// Plans the setup of nix.
pub fn setup_nix(map: &Mapping) -> (plan: Vec<Action>)
    ensures
        plan.deep_view() == nix_plan(map@),
{
    let mut plan: Vec<Action> = Vec::new();
    plan.push(
        bash_or(
            "type nix || curl -fsSL https://install.determinate.systems/nix | sh -s -- install --determinate",
            "Failed to install nix",
        ),
    );
    assert(plan.deep_view() =~= nix_plan(map@));
    plan
}

/// The URL of the repository that a dotfiles reference names: `github:` and `tangled:` stand
/// for their hosts.
pub open spec fn dotfiles_url(reference: Text) -> Text {
    if has_prefix(reference, "github:"@) {
        replaced(reference, "github:"@, "https://github.com/"@)
    } else if has_prefix(reference, "tangled:"@) {
        replaced(reference, "tangled:"@, "https://tangled.sh/"@)
    } else {
        reference
    }
}

/// What managing dotfiles with stow does: nothing for an empty mapping; else it needs the
/// repository under the key `git`, fetches or updates it, and links its files into the home
/// directory.
pub open spec fn stow_plan(entries: Entries) -> Seq<ActionView> {
    if entries.len() == 0 {
        Seq::empty()
    } else {
        match lookup(entries, "git"@) {
            None => seq![ActionView::Fail("No repo specified for stow"@)],
            Some(reference) => seq![
                ActionView::RequireHome,
                branch(
                    LocationView::Home(".dotfiles"@),
                    seq![
                        shell(
                            "git -C ~/.dotfiles pull"@,
                            Some("Failed to update dotfiles repository"@),
                        ),
                    ],
                    seq![
                        shell(
                            "git clone "@ + dotfiles_url(reference) + " ~/.dotfiles"@,
                            Some("Failed to clone dotfiles repository"@),
                        ),
                    ],
                ),
                shell("stow -d ~/.dotfiles -t ~ -- ."@, Some("Failed to stow dotfiles"@)),
            ],
        }
    }
}

/// Plans the management of dotfiles with stow.
pub fn setup_stow(map: &Mapping) -> (plan: Vec<Action>)
    ensures
        plan.deep_view() == stow_plan(map@),
{
    if map.is_empty() {
        return nothing();
    }
    let mut plan: Vec<Action> = Vec::new();
    let repo = match map.get("git") {
        Some(repo) => repo,
        None => {
            plan.push(Action::Fail("No repo specified for stow".to_owned()));
            assert(plan.deep_view() =~= stow_plan(map@));
            return plan;
        },
    };
    let repo: String = if starts_with(repo.as_str(), "github:") {
        replace_all(repo.as_str(), "github:", "https://github.com/")
    } else if starts_with(repo.as_str(), "tangled:") {
        replace_all(repo.as_str(), "tangled:", "https://tangled.sh/")
    } else {
        repo.clone()
    };
    let mut there: Vec<Action> = Vec::new();
    there.push(bash_or("git -C ~/.dotfiles pull", "Failed to update dotfiles repository"));
    assert(there.deep_view() =~= stow_plan(map@)[1]->IfExists_then);
    let mut missing: Vec<Action> = Vec::new();
    missing.push(
        bash_or(
            around("git clone ", repo.as_str(), " ~/.dotfiles").as_str(),
            "Failed to clone dotfiles repository",
        ),
    );
    assert(missing.deep_view() =~= stow_plan(map@)[1]->IfExists_otherwise);
    plan.push(Action::RequireHome);
    plan.push(if_exists(in_home(".dotfiles"), there, missing));
    plan.push(bash_or("stow -d ~/.dotfiles -t ~ -- .", "Failed to stow dotfiles"));
    assert(plan.deep_view() =~= stow_plan(map@));
    plan
}

/// What setting up the prompt does: it drops the line that started the prompt from the
/// shell's start-up file and adds one that starts it with the theme.
pub open spec fn oh_my_posh_plan(theme: Text) -> Seq<ActionView> {
    seq![
        shell(
            "sed -i '/oh-my-posh/d' ~/.bashrc || echo 'No existing oh-my-posh line found in .bashrc'"@,
            None,
        ),
        shell(
            "echo 'eval \"$(oh-my-posh init bash --config $HOME/.cache/oh-my-posh/themes/"@ + theme
                + ".omp.json)\"' >> ~/.bashrc"@,
            Some("Failed to set up Oh My Posh"@),
        ),
    ]
}

/// Plans the setup of the prompt.
pub fn setup_oh_my_posh(theme: &str) -> (plan: Vec<Action>)
    ensures
        plan.deep_view() == oh_my_posh_plan(theme@),
{
    let mut plan: Vec<Action> = Vec::new();
    plan.push(
        bash(
            "sed -i '/oh-my-posh/d' ~/.bashrc || echo 'No existing oh-my-posh line found in .bashrc'",
        ),
    );
    plan.push(
        bash_or(
            around(
                "echo 'eval \"$(oh-my-posh init bash --config $HOME/.cache/oh-my-posh/themes/",
                theme,
                ".omp.json)\"' >> ~/.bashrc",
            ).as_str(),
            "Failed to set up Oh My Posh",
        ),
    );
    assert(plan.deep_view() =~= oh_my_posh_plan(theme@));
    plan
}

/// Dropping the line that defined an alias from the shell's start-up file.
pub open spec fn alias_forget(entry: (Text, Text)) -> ActionView {
    shell("sed -i '/alias "@ + entry.0 + "/d' ~/.bashrc"@, None)
}

/// Defining an alias in the shell's start-up file.
pub open spec fn alias_define(entry: (Text, Text)) -> ActionView {
    shell(
        "echo 'alias "@ + entry.0 + "=\""@ + entry.1 + "\"' >> ~/.bashrc"@,
        Some("Failed to set up alias "@ + entry.0 + " for command "@ + entry.1),
    )
}

/// What setting up aliases does: for each alias in order, it drops the old definition and
/// adds the new one.
pub open spec fn alias_plan(entries: Entries) -> Seq<ActionView>
    decreases entries.len(),
{
    if entries.len() == 0 {
        Seq::empty()
    } else {
        alias_plan(entries.drop_last()).push(alias_forget(entries.last())).push(
            alias_define(entries.last()),
        )
    }
}

/// Plans the setup of aliases.
pub fn setup_alias(map: &Mapping) -> (plan: Vec<Action>)
    ensures
        plan.deep_view() == alias_plan(map@),
{
    let mut plan: Vec<Action> = Vec::new();
    let mut i: usize = 0;
    assert(plan.deep_view() =~= alias_plan(map@.take(0)));
    while i < map.len()
        invariant
            i <= map@.len(),
            plan.deep_view() == alias_plan(map@.take(i as int)),
        decreases map@.len() - i,
    {
        let ghost before = plan.deep_view();
        proof {
            assert(map@.take(i + 1).drop_last() =~= map@.take(i as int));
            assert(map@.take(i + 1).last() == map@[i as int]);
        }
        let alias = map.key_at(i).as_str();
        let command = map.value_at(i).as_str();
        let forget = bash(around("sed -i '/alias ", alias, "/d' ~/.bashrc").as_str());
        let mut script = around("echo 'alias ", alias, "=\"");
        script.append(command);
        script.append("\"' >> ~/.bashrc");
        let mut context = around("Failed to set up alias ", alias, " for command ");
        context.append(command);
        let define = bash_or(script.as_str(), context.as_str());
        let ghost first = forget.deep_view();
        let ghost second = define.deep_view();
        plan.push(forget);
        plan.push(define);
        assert(plan.deep_view() =~= before.push(first).push(second));
        i += 1;
    }
    assert(map@.take(i as int) =~= map@);
    plan
}

/// What setting up the paths does: it makes the user's own directory of programs and puts it
/// on the search path in the shell's start-up file.
pub open spec fn paths_plan() -> Seq<ActionView> {
    seq![
        ActionView::RequireHome,
        branch(
            LocationView::Home(".local/bin"@),
            Seq::empty(),
            seq![
                ActionView::CreateDir {
                    path: LocationView::Home(".local/bin"@),
                    context: Some("Failed to create ~/.local/bin directory"@),
                },
            ],
        ),
        shell(
            "grep -q 'export PATH=\"$HOME/.local/bin:$PATH\"' ~/.bashrc || echo 'export PATH=\"$HOME/.local/bin:$PATH\"' >> ~/.bashrc"@,
            Some("Failed to add ~/.local/bin to PATH in .bashrc"@),
        ),
    ]
}

/// Plans the setup of the paths.
pub fn setup_paths() -> (plan: Vec<Action>)
    ensures
        plan.deep_view() == paths_plan(),
{
    let mut missing: Vec<Action> = Vec::new();
    missing.push(
        Action::CreateDir {
            path: in_home(".local/bin"),
            context: Some("Failed to create ~/.local/bin directory".to_owned()),
        },
    );
    assert(missing.deep_view() =~= paths_plan()[1]->IfExists_otherwise);
    let mut plan: Vec<Action> = Vec::new();
    plan.push(Action::RequireHome);
    plan.push(if_exists(in_home(".local/bin"), nothing(), missing));
    plan.push(
        bash_or(
            "grep -q 'export PATH=\"$HOME/.local/bin:$PATH\"' ~/.bashrc || echo 'export PATH=\"$HOME/.local/bin:$PATH\"' >> ~/.bashrc",
            "Failed to add ~/.local/bin to PATH in .bashrc",
        ),
    );
    assert(plan.deep_view() =~= paths_plan());
    plan
}

/// Making the directory that holds the SSH keys, for its owner alone.
pub open spec fn ssh_directory() -> ActionView {
    branch(
        LocationView::Home(".ssh"@),
        Seq::empty(),
        seq![
            ActionView::CreateDir {
                path: LocationView::Home(".ssh"@),
                context: Some("Failed to create ~/.ssh directory"@),
            },
            ActionView::Run(
                CommandView {
                    program: "chmod"@,
                    args: seq![ArgView::Text("700"@), ArgView::Path(LocationView::Home(".ssh"@))],
                    context: Some("Failed to set permissions for ~/.ssh directory"@),
                    local_path: true,
                },
            ),
        ],
    )
}

/// Setting the port of the SSH server, where one is named.
pub open spec fn ssh_port(port: Option<nat>) -> Seq<ActionView> {
    match port {
        Some(port) => seq![
            shell(
                "sudo sed -i -E '/^[#[:space:]]*Port[[:space:]]+[0-9]+/d' /etc/ssh/sshd_config && echo \"Port "@
                    + decimal_text(port)
                    + "\" | sudo tee -a /etc/ssh/sshd_config >/dev/null && sudo sshd -t"@,
                Some("Failed to update SSH config with port"@),
            ),
            invoke(
                "sudo"@,
                seq!["systemctl"@, "reload"@, "ssh"@],
                Some("Failed to restart SSH service"@),
            ),
        ],
        None => Seq::empty(),
    }
}

/// Writing one authorized key.
pub open spec fn ssh_authorize(key: Text) -> ActionView {
    shell("echo '"@ + key + "' > ~/.ssh/authorized_keys"@, None)
}

/// Writing the authorized keys, where any are named: each in turn.
pub open spec fn ssh_keys(keys: Option<Seq<Text>>) -> Seq<ActionView> {
    match keys {
        Some(keys) => Seq::new(keys.len(), |i: int| ssh_authorize(keys[i])),
        None => Seq::empty(),
    }
}

/// Making a key pair, unless there is one.
pub open spec fn ssh_key_pair() -> ActionView {
    branch(
        LocationView::Home(".ssh/id_ed25519"@),
        seq![ActionView::Print("SSH key already exists. Skipping key generation."@)],
        seq![
            invoke(
                "ssh-keygen"@,
                seq!["-t"@, "ed25519"@],
                Some("Failed to generate SSH key"@),
            ),
        ],
    )
}

/// What setting up SSH does: it makes the directory for the keys, sets the server's port,
/// writes the authorized keys, and makes a key pair unless there is one.
pub open spec fn ssh_plan(settings: SshConfigView) -> Seq<ActionView> {
    seq![ActionView::RequireHome, ssh_directory()] + ssh_port(settings.port) + ssh_keys(
        settings.authorized_keys,
    ) + seq![ssh_key_pair()]
}

/// The action that makes the directory for the SSH keys.
fn ssh_directory_action() -> (action: Action)
    ensures
        action.deep_view() == ssh_directory(),
{
    let mut args: Vec<Arg> = Vec::new();
    args.push(Arg::Text("700".to_owned()));
    args.push(Arg::Path(in_home(".ssh")));
    assert(args.deep_view() =~= seq![
        ArgView::Text("700"@),
        ArgView::Path(LocationView::Home(".ssh"@)),
    ]);
    let mut missing: Vec<Action> = Vec::new();
    missing.push(
        Action::CreateDir {
            path: in_home(".ssh"),
            context: Some("Failed to create ~/.ssh directory".to_owned()),
        },
    );
    missing.push(
        run_with(
            "chmod",
            args,
            Some("Failed to set permissions for ~/.ssh directory".to_owned()),
        ),
    );
    assert(missing.deep_view() =~= ssh_directory()->IfExists_otherwise);
    if_exists(in_home(".ssh"), nothing(), missing)
}

/// The action that makes a key pair unless there is one.
fn ssh_key_pair_action() -> (action: Action)
    ensures
        action.deep_view() == ssh_key_pair(),
{
    let mut there: Vec<Action> = Vec::new();
    there.push(Action::Print("SSH key already exists. Skipping key generation.".to_owned()));
    assert(there.deep_view() =~= ssh_key_pair()->IfExists_then);
    let generate = run_or("ssh-keygen", &["-t", "ed25519"], "Failed to generate SSH key");
    assert(generate.deep_view() =~~= ssh_key_pair()->IfExists_otherwise[0]);
    let mut missing: Vec<Action> = Vec::new();
    missing.push(generate);
    assert(missing.deep_view() =~= ssh_key_pair()->IfExists_otherwise);
    if_exists(in_home(".ssh/id_ed25519"), there, missing)
}

/// Plans the setup of SSH.
pub fn setup_ssh(config: &SshConfig) -> (plan: Vec<Action>)
    ensures
        plan.deep_view() == ssh_plan(config@),
{
    let mut plan: Vec<Action> = Vec::new();
    plan.push(Action::RequireHome);
    plan.push(ssh_directory_action());
    assert(plan.deep_view() =~= seq![ActionView::RequireHome, ssh_directory()]);
    if let Some(port) = config.port {
        let ghost before = plan.deep_view();
        let script = around(
            "sudo sed -i -E '/^[#[:space:]]*Port[[:space:]]+[0-9]+/d' /etc/ssh/sshd_config && echo \"Port ",
            decimal(port).as_str(),
            "\" | sudo tee -a /etc/ssh/sshd_config >/dev/null && sudo sshd -t",
        );
        let reload = run_or(
            "sudo",
            &["systemctl", "reload", "ssh"],
            "Failed to restart SSH service",
        );
        assert(reload.deep_view() =~~= ssh_port(config@.port)[1]);
        plan.push(bash_or(script.as_str(), "Failed to update SSH config with port"));
        plan.push(reload);
        assert(plan.deep_view() =~= before + ssh_port(config@.port));
    }
    let ghost head = seq![ActionView::RequireHome, ssh_directory()] + ssh_port(config@.port);
    assert(plan.deep_view() =~= head);
    if let Some(authorized_keys) = &config.authorized_keys {
        let ghost keys = authorized_keys.deep_view();
        let mut i: usize = 0;
        while i < authorized_keys.len()
            invariant
                i <= authorized_keys.len(),
                keys == authorized_keys.deep_view(),
                plan.len() == head.len() + i,
                forall|j: int| 0 <= j < head.len() ==> plan[j].deep_view() == head[j],
                forall|j: int|
                    0 <= j < i ==> plan[head.len() + j].deep_view() == ssh_authorize(keys[j]),
            decreases authorized_keys.len() - i,
        {
            let key = authorized_keys[i].as_str();
            plan.push(bash(around("echo '", key, "' > ~/.ssh/authorized_keys").as_str()));
            i += 1;
        }
    }
    assert(plan.deep_view() =~= head + ssh_keys(config@.authorized_keys));
    let ghost before = plan.deep_view();
    plan.push(ssh_key_pair_action());
    assert(plan.deep_view() =~= before + seq![ssh_key_pair()]);
    plan
}

/// What enabling Tailscale does: where it is switched on, it installs Tailscale, brings it up
/// and asks for its address.
pub open spec fn tailscale_plan(enabled: bool) -> Seq<ActionView> {
    if enabled {
        seq![
            shell(
                "curl -fsSL https://tailscale.com/install.sh | sh"@,
                Some("Failed to install Tailscale"@),
            ),
            shell("sudo tailscale up"@, Some("Failed to enable Tailscale"@)),
            shell("sudo tailscale ip"@, Some("Failed to check Tailscale status"@)),
        ]
    } else {
        Seq::empty()
    }
}

/// Plans the enabling of Tailscale.
pub fn enable_tailscale(enabled: bool) -> (plan: Vec<Action>)
    ensures
        plan.deep_view() == tailscale_plan(enabled),
{
    let mut plan: Vec<Action> = Vec::new();
    if enabled {
        plan.push(
            bash_or(
                "curl -fsSL https://tailscale.com/install.sh | sh",
                "Failed to install Tailscale",
            ),
        );
        plan.push(bash_or("sudo tailscale up", "Failed to enable Tailscale"));
        plan.push(bash_or("sudo tailscale ip", "Failed to check Tailscale status"));
    }
    assert(plan.deep_view() =~= tailscale_plan(enabled));
    plan
}

/// What running an operation does, as the actions that carry it out.
pub open spec fn plan_of(step: StepView) -> Seq<ActionView> {
    match step {
        StepView::AptGet(packages) => apt_plan(packages),
        StepView::Pkgx(entries) => pkgx_plan(entries),
        StepView::Curl(entries) => curl_plan(entries),
        StepView::Mise(entries) => mise_plan(entries),
        StepView::BleSh(enabled) => blesh_plan(enabled),
        StepView::Nix(entries) => nix_plan(entries),
        StepView::Stow(entries) => stow_plan(entries),
        StepView::OhMyPosh(theme) => oh_my_posh_plan(theme),
        StepView::Zoxide(enabled) => zoxide_plan(enabled),
        StepView::Alias(entries) => alias_plan(entries),
        StepView::Ssh(settings) => ssh_plan(settings),
        StepView::Paths => paths_plan(),
        StepView::Tailscale(enabled) => tailscale_plan(enabled),
    }
}

impl<'a> SetupStep<'a> {
    /// Plans the run of the operation: the actions that carry it out, in order. The caller
    /// performs them one by one and stops at the first that fails.
    pub fn run(&self) -> (plan: Vec<Action>)
        ensures
            plan.deep_view() == plan_of(self@),
    {
        match self {
            SetupStep::AptGet(pkgs) => install_apt(pkgs),
            SetupStep::Pkgx(map) => install_pkgx(map),
            SetupStep::Curl(map) => run_curl_installers(map),
            SetupStep::Mise(map) => setup_mise(map),
            SetupStep::BleSh(enabled) => enable_blesh(*enabled),
            SetupStep::Nix(map) => setup_nix(map),
            SetupStep::Stow(map) => setup_stow(map),
            SetupStep::OhMyPosh(theme) => setup_oh_my_posh(theme),
            SetupStep::Zoxide(enabled) => enable_zoxide(*enabled),
            SetupStep::Alias(map) => setup_alias(map),
            SetupStep::Ssh(config) => setup_ssh(config),
            SetupStep::Paths => setup_paths(),
            SetupStep::Tailscale(enabled) => enable_tailscale(*enabled),
        }
    }
}

} // verus!
