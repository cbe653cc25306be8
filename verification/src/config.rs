//! The snapshot of everything that can be configured, and its translation into setup steps.

use crate::apply::{SetupStep, StepKind, StepView};
use crate::diff::{configuration_diff, lemma_nested_view, Diff, DiffView};
use crate::mapping::{distinct_keys, entries_of, Entries, Mapping, Text};
use vstd::prelude::*;

verus! {

/// Settings of the shell prompt.
#[derive(Debug)]
pub struct OhMyPosh {
    pub theme: Option<String>,
}

/// What an `OhMyPosh` holds.
pub struct OhMyPoshView {
    pub theme: Option<Text>,
}

impl DeepView for OhMyPosh {
    type V = OhMyPoshView;

    open spec fn deep_view(&self) -> OhMyPoshView {
        OhMyPoshView { theme: self.theme.deep_view() }
    }
}

impl View for OhMyPosh {
    type V = OhMyPoshView;

    open spec fn view(&self) -> OhMyPoshView {
        self.deep_view()
    }
}

/// Settings of the SSH server.
#[derive(Debug)]
pub struct SshConfig {
    pub port: Option<usize>,
    pub authorized_keys: Option<Vec<String>>,
}

/// What an `SshConfig` holds.
pub struct SshConfigView {
    pub port: Option<nat>,
    pub authorized_keys: Option<Seq<Text>>,
}

impl DeepView for SshConfig {
    type V = SshConfigView;

    open spec fn deep_view(&self) -> SshConfigView {
        SshConfigView {
            port: match self.port {
                Some(port) => Some(port as nat),
                None => None,
            },
            authorized_keys: self.authorized_keys.deep_view(),
        }
    }
}

impl View for SshConfig {
    type V = SshConfigView;

    open spec fn view(&self) -> SshConfigView {
        self.deep_view()
    }
}

/// A snapshot: every feature is either absent (not managed) or present with its value.
#[derive(Debug)]
pub struct Configuration {
    pub stow: Option<Mapping>,
    pub mise: Option<Mapping>,
    pub nix: Option<Mapping>,
    pub apt_get: Option<Vec<String>>,
    pub pkgx: Option<Mapping>,
    pub curl: Option<Mapping>,
    pub blesh: Option<bool>,
    pub oh_my_posh: Option<OhMyPosh>,
    pub zoxide: Option<bool>,
    pub alias: Option<Mapping>,
    pub tailscale: Option<bool>,
    pub ssh: Option<SshConfig>,
    pub neofetch: Option<bool>,
    pub doppler: Option<bool>,
}

/// What a `Configuration` holds.
pub struct ConfigurationView {
    pub stow: Option<Entries>,
    pub mise: Option<Entries>,
    pub nix: Option<Entries>,
    pub apt_get: Option<Seq<Text>>,
    pub pkgx: Option<Entries>,
    pub curl: Option<Entries>,
    pub blesh: Option<bool>,
    pub oh_my_posh: Option<OhMyPoshView>,
    pub zoxide: Option<bool>,
    pub alias: Option<Entries>,
    pub tailscale: Option<bool>,
    pub ssh: Option<SshConfigView>,
    pub neofetch: Option<bool>,
    pub doppler: Option<bool>,
}

/// A copy of a list of texts.
fn clone_texts(texts: &Vec<String>) -> (out: Vec<String>)
    ensures
        out.deep_view() == texts.deep_view(),
{
    let mut out: Vec<String> = Vec::new();
    let mut i: usize = 0;
    while i < texts.len()
        invariant
            i <= texts.len(),
            out.len() == i,
            forall|j: int| 0 <= j < i ==> out[j]@ == texts[j]@,
        decreases texts.len() - i,
    {
        out.push(texts[i].clone());
        i += 1;
    }
    assert(out.deep_view() =~= texts.deep_view());
    out
}

/// A copy of a mapping field.
fn clone_field(field: &Option<Mapping>) -> (out: Option<Mapping>)
    ensures
        out.deep_view() == field.deep_view(),
{
    match field {
        Some(mapping) => Some(mapping.clone()),
        None => None,
    }
}

impl Clone for OhMyPosh {
    fn clone(&self) -> (out: Self)
        ensures
            out@ == self@,
    {
        OhMyPosh {
            theme: match &self.theme {
                Some(theme) => Some(theme.clone()),
                None => None,
            },
        }
    }
}

impl Clone for SshConfig {
    fn clone(&self) -> (out: Self)
        ensures
            out@ == self@,
    {
        SshConfig {
            port: self.port,
            authorized_keys: match &self.authorized_keys {
                Some(keys) => Some(clone_texts(keys)),
                None => None,
            },
        }
    }
}

impl Clone for Configuration {
    fn clone(&self) -> (out: Self)
        ensures
            out@ == self@,
    {
        Configuration {
            stow: clone_field(&self.stow),
            mise: clone_field(&self.mise),
            nix: clone_field(&self.nix),
            apt_get: match &self.apt_get {
                Some(packages) => Some(clone_texts(packages)),
                None => None,
            },
            pkgx: clone_field(&self.pkgx),
            curl: clone_field(&self.curl),
            blesh: self.blesh,
            oh_my_posh: match &self.oh_my_posh {
                Some(settings) => Some(settings.clone()),
                None => None,
            },
            zoxide: self.zoxide,
            alias: clone_field(&self.alias),
            tailscale: self.tailscale,
            ssh: match &self.ssh {
                Some(settings) => Some(settings.clone()),
                None => None,
            },
            neofetch: self.neofetch,
            doppler: self.doppler,
        }
    }
}

/// A mapping that is present has unique keys.
pub open spec fn valid_entries(field: Option<Entries>) -> bool {
    match field {
        Some(entries) => distinct_keys(entries),
        None => true,
    }
}

impl ConfigurationView {
    /// The snapshot in which every feature is absent.
    pub open spec fn empty() -> ConfigurationView {
        ConfigurationView {
            stow: None,
            mise: None,
            nix: None,
            apt_get: None,
            pkgx: None,
            curl: None,
            blesh: None,
            oh_my_posh: None,
            zoxide: None,
            alias: None,
            tailscale: None,
            ssh: None,
            neofetch: None,
            doppler: None,
        }
    }

    /// Every mapping of the snapshot has unique keys. This holds of the view of every
    /// `Configuration`.
    pub open spec fn well_formed(self) -> bool {
        &&& valid_entries(self.stow)
        &&& valid_entries(self.mise)
        &&& valid_entries(self.nix)
        &&& valid_entries(self.pkgx)
        &&& valid_entries(self.curl)
        &&& valid_entries(self.alias)
    }
}

impl DeepView for Configuration {
    type V = ConfigurationView;

    open spec fn deep_view(&self) -> ConfigurationView {
        ConfigurationView {
            stow: self.stow.deep_view(),
            mise: self.mise.deep_view(),
            nix: self.nix.deep_view(),
            apt_get: self.apt_get.deep_view(),
            pkgx: self.pkgx.deep_view(),
            curl: self.curl.deep_view(),
            blesh: self.blesh,
            oh_my_posh: self.oh_my_posh.deep_view(),
            zoxide: self.zoxide,
            alias: self.alias.deep_view(),
            tailscale: self.tailscale,
            ssh: self.ssh.deep_view(),
            neofetch: self.neofetch,
            doppler: self.doppler,
        }
    }
}

impl View for Configuration {
    type V = ConfigurationView;

    open spec fn view(&self) -> ConfigurationView {
        self.deep_view()
    }
}

impl Configuration {
    /// The snapshot in which every feature is absent.
    pub fn empty() -> (out: Self)
        ensures
            out@ == ConfigurationView::empty(),
    {
        Self {
            stow: None,
            mise: None,
            nix: None,
            apt_get: None,
            pkgx: None,
            curl: None,
            blesh: None,
            oh_my_posh: None,
            zoxide: None,
            alias: None,
            tailscale: None,
            ssh: None,
            neofetch: None,
            doppler: None,
        }
    }

    /// The mappings of a snapshot have unique keys.
    pub fn is_well_formed(&self)
        ensures
            self@.well_formed(),
    {
        Self::field_is_valid(&self.stow);
        Self::field_is_valid(&self.mise);
        Self::field_is_valid(&self.nix);
        Self::field_is_valid(&self.pkgx);
        Self::field_is_valid(&self.curl);
        Self::field_is_valid(&self.alias);
    }

    fn field_is_valid(field: &Option<Mapping>)
        ensures
            valid_entries(field.deep_view()),
    {
        if let Some(mapping) = field {
            mapping.keys_are_distinct();
        }
    }
}

/// The theme that the prompt gets where the snapshot names none.
pub open spec fn default_theme() -> Text {
    "tokyonight_storm"@
}

/// The operation that a change record for field `parent` asks for, bound to the desired value
/// of that field: none where the field is absent from `desired` or the name is not known.
/// The flag for ble.sh is known by the name of the tool and by the name of its field.
pub open spec fn step_for(desired: ConfigurationView, parent: Text) -> Seq<StepView> {
    if parent == "apt-get"@ {
        match desired.apt_get {
            Some(packages) => seq![StepView::AptGet(packages)],
            None => Seq::empty(),
        }
    } else if parent == "pkgx"@ {
        match desired.pkgx {
            Some(entries) => seq![StepView::Pkgx(entries)],
            None => Seq::empty(),
        }
    } else if parent == "curl"@ {
        match desired.curl {
            Some(entries) => seq![StepView::Curl(entries)],
            None => Seq::empty(),
        }
    } else if parent == "mise"@ {
        match desired.mise {
            Some(entries) => seq![StepView::Mise(entries)],
            None => Seq::empty(),
        }
    } else if parent == "ble.sh"@ || parent == "blesh"@ {
        match desired.blesh {
            Some(enabled) => seq![StepView::BleSh(enabled)],
            None => Seq::empty(),
        }
    } else if parent == "nix"@ {
        match desired.nix {
            Some(entries) => seq![StepView::Nix(entries)],
            None => Seq::empty(),
        }
    } else if parent == "stow"@ {
        match desired.stow {
            Some(entries) => seq![StepView::Stow(entries)],
            None => Seq::empty(),
        }
    } else if parent == "oh_my_posh"@ {
        match desired.oh_my_posh {
            Some(settings) => seq![
                StepView::OhMyPosh(
                    match settings.theme {
                        Some(theme) => theme,
                        None => default_theme(),
                    },
                ),
            ],
            None => Seq::empty(),
        }
    } else if parent == "zoxide"@ {
        match desired.zoxide {
            Some(enabled) => seq![StepView::Zoxide(enabled)],
            None => Seq::empty(),
        }
    } else if parent == "alias"@ {
        match desired.alias {
            Some(entries) => seq![StepView::Alias(entries)],
            None => Seq::empty(),
        }
    } else if parent == "ssh"@ {
        match desired.ssh {
            Some(settings) => seq![StepView::Ssh(settings)],
            None => Seq::empty(),
        }
    } else if parent == "tailscale"@ {
        match desired.tailscale {
            Some(enabled) => seq![StepView::Tailscale(enabled)],
            None => Seq::empty(),
        }
    } else {
        Seq::empty()
    }
}

/// The operations that one change record asks for. A removal asks for none; a group asks for
/// what the records inside it ask for.
pub open spec fn steps_for_record(desired: ConfigurationView, record: DiffView) -> Seq<StepView>
    decreases record,
{
    match record {
        DiffView::Added(parent, _, _) => step_for(desired, parent),
        DiffView::Changed(parent, _, _, _) => step_for(desired, parent),
        DiffView::Nested(_, inner) => steps_for_records(desired, inner),
        DiffView::Removed(_, _, _) => Seq::empty(),
    }
}

/// The operations that the change records ask for, record by record.
pub open spec fn steps_for_records(desired: ConfigurationView, records: Seq<DiffView>) -> Seq<
    StepView,
>
    decreases records,
{
    if records.len() == 0 {
        Seq::empty()
    } else {
        steps_for_records(desired, records.drop_last()) + steps_for_record(desired, records.last())
    }
}

/// Whether one of `steps` is of kind `kind`.
pub open spec fn has_kind(steps: Seq<StepView>, kind: StepKind) -> bool {
    exists|i: int| 0 <= i < steps.len() && #[trigger] steps[i].kind() == kind
}

/// `steps` without every operation that has an earlier one of its kind before it.
pub open spec fn first_of_each_kind(steps: Seq<StepView>) -> Seq<StepView>
    decreases steps.len(),
{
    if steps.len() == 0 {
        Seq::empty()
    } else if has_kind(steps.drop_last(), steps.last().kind()) {
        first_of_each_kind(steps.drop_last())
    } else {
        first_of_each_kind(steps.drop_last()).push(steps.last())
    }
}

/// The operations of a run: the base paths first, then what the change records ask for, each
/// kind once.
pub open spec fn setup_steps(desired: ConfigurationView, diffs: Seq<DiffView>) -> Seq<StepView> {
    first_of_each_kind(seq![StepView::Paths] + steps_for_records(desired, diffs))
}

/// Removing repeated kinds keeps every kind, loses no first occurrence, and leaves each kind once.
pub proof fn lemma_first_of_each_kind(steps: Seq<StepView>)
    ensures
        forall|kind: StepKind|
            has_kind(first_of_each_kind(steps), kind) == has_kind(steps, kind),
        forall|i: int, j: int|
            0 <= i < j < first_of_each_kind(steps).len() ==> first_of_each_kind(steps)[i].kind()
                != first_of_each_kind(steps)[j].kind(),
        first_of_each_kind(steps).len() <= steps.len(),
        steps.len() > 0 ==> first_of_each_kind(steps).len() > 0 && first_of_each_kind(steps)[0]
            == steps[0],
        forall|k: int|
            0 <= k < first_of_each_kind(steps).len() ==> steps.contains(
                #[trigger] first_of_each_kind(steps)[k],
            ),
    decreases steps.len(),
{
    if steps.len() > 0 {
        let shorter = steps.drop_last();
        let last = steps.last();
        let before = first_of_each_kind(shorter);
        let after = first_of_each_kind(steps);
        lemma_first_of_each_kind(shorter);
        assert forall|kind: StepKind| has_kind(after, kind) == has_kind(steps, kind) by {
            if has_kind(steps, kind) {
                let i = choose|i: int| 0 <= i < steps.len() && #[trigger] steps[i].kind() == kind;
                if i < shorter.len() {
                    assert(shorter[i].kind() == kind);
                    assert(has_kind(shorter, kind));
                    assert(has_kind(before, kind));
                    let k = choose|k: int| 0 <= k < before.len() && #[trigger] before[k].kind() == kind;
                    assert(after[k].kind() == kind);
                } else {
                    if has_kind(shorter, kind) {
                        assert(has_kind(before, kind));
                        let k = choose|k: int| 0 <= k < before.len() && #[trigger] before[k].kind() == kind;
                        assert(after[k].kind() == kind);
                    } else {
                        assert(after[after.len() - 1].kind() == kind);
                    }
                }
            }
            if has_kind(after, kind) {
                let k = choose|k: int| 0 <= k < after.len() && #[trigger] after[k].kind() == kind;
                if k < before.len() {
                    assert(before[k].kind() == kind);
                    assert(has_kind(before, kind));
                    assert(has_kind(shorter, kind));
                    let i = choose|i: int| 0 <= i < shorter.len() && #[trigger] shorter[i].kind() == kind;
                    assert(steps[i].kind() == kind);
                } else {
                    assert(steps[steps.len() - 1].kind() == kind);
                }
            }
        }
        assert forall|i: int, j: int| 0 <= i < j < after.len() implies after[i].kind()
            != after[j].kind() by {
            if j < before.len() {
                assert(before[i].kind() != before[j].kind());
            } else {
                assert(!has_kind(shorter, last.kind()));
                assert(!has_kind(before, last.kind()));
                assert(before[i].kind() == after[i].kind());
            }
        }
        if shorter.len() > 0 {
            assert(shorter[0].kind() == shorter[0].kind());
            assert(has_kind(shorter, shorter[0].kind()));
        }
        assert forall|k: int| 0 <= k < after.len() implies steps.contains(#[trigger] after[k]) by {
            if k < before.len() {
                assert(shorter.contains(before[k]));
                let i = choose|i: int| 0 <= i < shorter.len() && shorter[i] == before[k];
                assert(steps[i] == after[k]);
            } else {
                assert(steps[steps.len() - 1] == after[k]);
            }
        }
    }
}

/// The operation of kind `kind` bound to what `desired` holds: none where the field that the
/// kind stands for is absent.
pub open spec fn binding(desired: ConfigurationView, kind: StepKind) -> Option<StepView> {
    match kind {
        StepKind::AptGet => match desired.apt_get {
            Some(packages) => Some(StepView::AptGet(packages)),
            None => None,
        },
        StepKind::Pkgx => match desired.pkgx {
            Some(entries) => Some(StepView::Pkgx(entries)),
            None => None,
        },
        StepKind::Curl => match desired.curl {
            Some(entries) => Some(StepView::Curl(entries)),
            None => None,
        },
        StepKind::Mise => match desired.mise {
            Some(entries) => Some(StepView::Mise(entries)),
            None => None,
        },
        StepKind::BleSh => match desired.blesh {
            Some(enabled) => Some(StepView::BleSh(enabled)),
            None => None,
        },
        StepKind::Nix => match desired.nix {
            Some(entries) => Some(StepView::Nix(entries)),
            None => None,
        },
        StepKind::Stow => match desired.stow {
            Some(entries) => Some(StepView::Stow(entries)),
            None => None,
        },
        StepKind::OhMyPosh => match desired.oh_my_posh {
            Some(settings) => Some(
                StepView::OhMyPosh(
                    match settings.theme {
                        Some(theme) => theme,
                        None => default_theme(),
                    },
                ),
            ),
            None => None,
        },
        StepKind::Zoxide => match desired.zoxide {
            Some(enabled) => Some(StepView::Zoxide(enabled)),
            None => None,
        },
        StepKind::Alias => match desired.alias {
            Some(entries) => Some(StepView::Alias(entries)),
            None => None,
        },
        StepKind::Ssh => match desired.ssh {
            Some(settings) => Some(StepView::Ssh(settings)),
            None => None,
        },
        StepKind::Paths => Some(StepView::Paths),
        StepKind::Tailscale => match desired.tailscale {
            Some(enabled) => Some(StepView::Tailscale(enabled)),
            None => None,
        },
    }
}

/// Every operation in `steps` is the one of its kind that is bound to `desired`.
pub open spec fn all_bound(desired: ConfigurationView, steps: Seq<StepView>) -> bool {
    forall|i: int| 0 <= i < steps.len() ==> binding(desired, steps[i].kind()) == Some(steps[i])
}

/// What the change records ask for is bound to the desired snapshot, whatever the records say.
pub proof fn lemma_steps_for_records_bound(desired: ConfigurationView, records: Seq<DiffView>)
    ensures
        all_bound(desired, steps_for_records(desired, records)),
    decreases records,
{
    reveal_with_fuel(steps_for_records, 2);
    if records.len() > 0 {
        lemma_steps_for_records_bound(desired, records.drop_last());
        lemma_steps_for_record_bound(desired, records.last());
    }
}

/// What one change record asks for is bound to the desired snapshot.
pub proof fn lemma_steps_for_record_bound(desired: ConfigurationView, record: DiffView)
    ensures
        all_bound(desired, steps_for_record(desired, record)),
    decreases record,
{
    reveal_with_fuel(steps_for_record, 2);
    match record {
        DiffView::Nested(parent, inner) => {
            lemma_steps_for_records_bound(desired, inner);
        },
        _ => {},
    }
}

/// Every operation of a run reflects the desired snapshot: it is the operation of its kind
/// bound to the value that the snapshot holds now, never to a value out of a change record.
pub proof fn lemma_setup_steps_bound(desired: ConfigurationView, diffs: Seq<DiffView>)
    ensures
        all_bound(desired, setup_steps(desired, diffs)),
{
    let raw = seq![StepView::Paths] + steps_for_records(desired, diffs);
    lemma_steps_for_records_bound(desired, diffs);
    assert(all_bound(desired, raw)) by {
        assert forall|i: int| 0 <= i < raw.len() implies binding(desired, raw[i].kind()) == Some(
            raw[i],
        ) by {
            if i > 0 {
                assert(raw[i] == steps_for_records(desired, diffs)[i - 1]);
            }
        }
    }
    lemma_first_of_each_kind(raw);
    let steps = setup_steps(desired, diffs);
    assert forall|k: int| 0 <= k < steps.len() implies binding(desired, steps[k].kind()) == Some(
        steps[k],
    ) by {
        assert(raw.contains(steps[k]));
        let i = choose|i: int| 0 <= i < raw.len() && raw[i] == steps[k];
        assert(binding(desired, raw[i].kind()) == Some(raw[i]));
    }
}

/// A run starts with the base paths and holds each kind of operation at most once, however
/// many change records ask for it.
pub proof fn lemma_setup_steps_once_per_kind(desired: ConfigurationView, diffs: Seq<DiffView>)
    ensures
        setup_steps(desired, diffs).len() > 0,
        setup_steps(desired, diffs)[0] == StepView::Paths,
        forall|i: int, j: int|
            0 <= i < j < setup_steps(desired, diffs).len() ==> setup_steps(desired, diffs)[i].kind()
                != setup_steps(desired, diffs)[j].kind(),
{
    lemma_first_of_each_kind(seq![StepView::Paths] + steps_for_records(desired, diffs));
}

/// Additivity: a run holds no operation for a field that the desired snapshot lacks, whatever
/// the previous snapshot held.
pub proof fn lemma_no_step_for_absent_field(
    previous: ConfigurationView,
    desired: ConfigurationView,
    kind: StepKind,
)
    requires
        binding(desired, kind) is None,
    ensures
        !has_kind(setup_steps(desired, configuration_diff(previous, desired)), kind),
{
    lemma_setup_steps_bound(desired, configuration_diff(previous, desired));
}

impl Configuration {
    /// Appends the operation that a change record for field `parent` asks for, if any.
    pub fn add_setup_step_for_parent<'a>(&'a self, steps: &mut Vec<SetupStep<'a>>, parent: &str)
        ensures
            final(steps).deep_view() == old(steps).deep_view() + step_for(self@, parent@),
    {
        let ghost start = steps.deep_view();
        if parent.eq("apt-get") {
            if let Some(apt_packages) = &self.apt_get {
                steps.push(SetupStep::AptGet(apt_packages.as_slice()));
            }
        } else if parent.eq("pkgx") {
            if let Some(pkgx_packages) = &self.pkgx {
                steps.push(SetupStep::Pkgx(pkgx_packages));
            }
        } else if parent.eq("curl") {
            if let Some(curl_installers) = &self.curl {
                steps.push(SetupStep::Curl(curl_installers));
            }
        } else if parent.eq("mise") {
            if let Some(mise_tools) = &self.mise {
                steps.push(SetupStep::Mise(mise_tools));
            }
        } else if parent.eq("ble.sh") || parent.eq("blesh") {
            if let Some(blesh_enabled) = self.blesh {
                steps.push(SetupStep::BleSh(blesh_enabled));
            }
        } else if parent.eq("nix") {
            if let Some(nix_packages) = &self.nix {
                steps.push(SetupStep::Nix(nix_packages));
            }
        } else if parent.eq("stow") {
            if let Some(stow_configs) = &self.stow {
                steps.push(SetupStep::Stow(stow_configs));
            }
        } else if parent.eq("oh_my_posh") {
            if let Some(oh_my_posh) = &self.oh_my_posh {
                let theme: &str = match &oh_my_posh.theme {
                    Some(theme) => theme.as_str(),
                    None => "tokyonight_storm",
                };
                steps.push(SetupStep::OhMyPosh(theme));
            }
        } else if parent.eq("zoxide") {
            if let Some(zoxide_enabled) = self.zoxide {
                steps.push(SetupStep::Zoxide(zoxide_enabled));
            }
        } else if parent.eq("alias") {
            if let Some(aliases) = &self.alias {
                steps.push(SetupStep::Alias(aliases));
            }
        } else if parent.eq("ssh") {
            if let Some(ssh_config) = &self.ssh {
                steps.push(SetupStep::Ssh(ssh_config));
            }
        } else if parent.eq("tailscale") {
            if let Some(tailscale_enabled) = self.tailscale {
                steps.push(SetupStep::Tailscale(tailscale_enabled));
            }
        }
        assert(steps.deep_view() =~= start + step_for(self@, parent@));
    }

    /// Appends the operations that the change records `diffs` ask for.
    pub fn add_setup_steps<'a>(&'a self, steps: &mut Vec<SetupStep<'a>>, diffs: &Vec<Diff>)
        ensures
            final(steps).deep_view() == old(steps).deep_view() + steps_for_records(
                self@,
                diffs.deep_view(),
            ),
        decreases diffs,
    {
        let ghost start = steps.deep_view();
        let ghost records = diffs.deep_view();
        let mut i: usize = 0;
        proof {
            reveal_with_fuel(steps_for_records, 2);
            assert(records.take(0) =~= Seq::<DiffView>::empty());
            assert(steps.deep_view() =~= start + steps_for_records(self@, records.take(0)));
        }
        while i < diffs.len()
            invariant
                i <= diffs.len(),
                records == diffs.deep_view(),
                steps.deep_view() == start + steps_for_records(self@, records.take(i as int)),
            decreases diffs.len() - i,
        {
            let ghost before = steps.deep_view();
            proof {
                reveal_with_fuel(steps_for_records, 2);
                reveal_with_fuel(steps_for_record, 2);
                assert(records.take(i + 1).drop_last() =~= records.take(i as int));
                assert(records.take(i + 1).last() == diffs[i as int].deep_view());
            }
            match &diffs[i] {
                Diff::Added(parent, _child, _value) => {
                    self.add_setup_step_for_parent(steps, parent.as_str());
                },
                Diff::Changed(parent, _child, _old, _new) => {
                    self.add_setup_step_for_parent(steps, parent.as_str());
                },
                Diff::Nested(_parent, nested_diffs) => {
                    proof {
                        lemma_nested_view(diffs[i as int]);
                    }
                    self.add_setup_steps(steps, nested_diffs);
                },
                Diff::Removed(_parent, _child, _value) => {},
            }
            assert(steps.deep_view() =~= before + steps_for_record(
                self@,
                diffs[i as int].deep_view(),
            ));
            assert(steps.deep_view() =~= start + steps_for_records(self@, records.take(i + 1)));
            i += 1;
        }
        assert(records.take(i as int) =~= records);
    }

    /// Translates change records into the operations of a run: the base paths first, then the
    /// operation of every field that was added or changed, each kind once, bound to what
    /// this snapshot holds.
    pub fn diffs_to_setup_steps<'a>(&'a self, diffs: Vec<Diff>) -> (steps: Vec<SetupStep<'a>>)
        ensures
            steps.deep_view() == setup_steps(self@, diffs.deep_view()),
            steps.len() > 0,
            steps.deep_view()[0] == StepView::Paths,
            forall|i: int, j: int|
                0 <= i < j < steps.len() ==> steps.deep_view()[i].kind() != steps.deep_view()[j].kind(),
            all_bound(self@, steps.deep_view()),
    {
        proof {
            lemma_setup_steps_once_per_kind(self@, diffs.deep_view());
            lemma_setup_steps_bound(self@, diffs.deep_view());
        }
        self.setup_steps_for(&diffs)
    }

    /// Translates change records that the caller keeps; see `diffs_to_setup_steps`.
    pub fn setup_steps_for<'a>(&'a self, diffs: &Vec<Diff>) -> (steps: Vec<SetupStep<'a>>)
        ensures
            steps.deep_view() == setup_steps(self@, diffs.deep_view()),
    {
        let mut all: Vec<SetupStep<'a>> = Vec::new();
        all.push(SetupStep::Paths);
        assert(all.deep_view() =~= seq![StepView::Paths]);
        self.add_setup_steps(&mut all, diffs);
        dedup_by_kind(&all)
    }
}

/// Whether one of `steps` is of kind `kind`.
fn contains_kind<'a>(steps: &Vec<SetupStep<'a>>, kind: StepKind) -> (r: bool)
    ensures
        r == has_kind(steps.deep_view(), kind),
{
    let mut i: usize = 0;
    while i < steps.len()
        invariant
            i <= steps.len(),
            forall|j: int| 0 <= j < i ==> steps.deep_view()[j].kind() != kind,
        decreases steps.len() - i,
    {
        if steps[i].kind() == kind {
            assert(steps.deep_view()[i as int].kind() == kind);
            return true;
        }
        i += 1;
    }
    false
}

/// Keeps the first operation of each kind.
fn dedup_by_kind<'a>(steps: &Vec<SetupStep<'a>>) -> (out: Vec<SetupStep<'a>>)
    ensures
        out.deep_view() == first_of_each_kind(steps.deep_view()),
{
    let mut out: Vec<SetupStep<'a>> = Vec::new();
    let ghost all = steps.deep_view();
    let mut i: usize = 0;
    assert(out.deep_view() =~= first_of_each_kind(all.take(0)));
    while i < steps.len()
        invariant
            i <= steps.len(),
            all == steps.deep_view(),
            out.deep_view() == first_of_each_kind(all.take(i as int)),
        decreases steps.len() - i,
    {
        let ghost before = out.deep_view();
        proof {
            assert(all.take(i + 1).drop_last() =~= all.take(i as int));
            assert(all.take(i + 1).last() == steps[i as int].deep_view());
            lemma_first_of_each_kind(all.take(i as int));
        }
        let step = steps[i];
        if !contains_kind(&out, step.kind()) {
            out.push(step);
            assert(out.deep_view() =~= before.push(step.deep_view()));
        }
        i += 1;
    }
    assert(all.take(i as int) =~= all);
    out
}

/// The packages that the default snapshot installs with apt-get.
pub open spec fn default_packages() -> Seq<Text> {
    seq![
        "build-essential"@,
        "curl"@,
        "git"@,
        "gawk"@,
        "wget"@,
        "unzip"@,
        "autoconf"@,
        "automake"@,
        "cmake"@,
        "tmux"@,
        "openssh-server"@,
        "openssh-client"@,
        "httpie"@,
        "code"@,
        "neofetch"@,
        "stow"@,
    ]
}

/// The tools that the default snapshot installs with pkgx.
pub open spec fn default_pkgx() -> Seq<(Text, Text)> {
    seq![
        ("tig"@, "latest"@),
        ("rg"@, "latest"@),
        ("jq"@, "latest"@),
        ("neovim.io"@, "latest"@),
        ("fzf"@, "latest"@),
        ("zellij"@, "latest"@),
        ("glow"@, "latest"@),
        ("gh"@, "latest"@),
        ("eza"@, "latest"@),
    ]
}

/// The installers that the default snapshot runs.
pub open spec fn default_curl() -> Seq<(Text, Text)> {
    seq![
        ("oh-my-posh"@, "https://ohmyposh.dev/install.sh"@),
        ("atuin"@, "https://setup.atuin.sh"@),
        ("bun"@, "https://bun.sh/install"@),
        ("deno"@, "https://deno.land/install.sh"@),
        ("pkgx"@, "https://pkgx.sh"@),
    ]
}

/// The default snapshot: what a host gets where no desired snapshot is written down.
pub open spec fn default_configuration() -> ConfigurationView {
    ConfigurationView {
        apt_get: Some(default_packages()),
        pkgx: Some(entries_of(default_pkgx())),
        curl: Some(entries_of(default_curl())),
        mise: Some(entries_of(seq![("node"@, "latest"@)])),
        blesh: Some(true),
        zoxide: Some(true),
        nix: None,
        stow: Some(entries_of(seq![("git"@, "github:tsirysndr/android-dotfiles"@)])),
        oh_my_posh: Some(OhMyPoshView { theme: Some("tokyonight_storm"@) }),
        alias: Some(entries_of(seq![("ls"@, "eza -lh"@)])),
        tailscale: Some(false),
        ssh: Some(SshConfigView { port: Some(8022), authorized_keys: Some(Seq::empty()) }),
        neofetch: Some(true),
        doppler: Some(false),
    }
}

/// A pair of owned texts.
fn pair(key: &str, value: &str) -> (out: (String, String))
    ensures
        out.0@ == key@,
        out.1@ == value@,
{
    (key.to_owned(), value.to_owned())
}

/// The packages that the default snapshot installs with apt-get.
fn default_package_list() -> (out: Vec<String>)
    ensures
        out.deep_view() == default_packages(),
{
    let mut out: Vec<String> = Vec::new();
    out.push("build-essential".to_owned());
    out.push("curl".to_owned());
    out.push("git".to_owned());
    out.push("gawk".to_owned());
    out.push("wget".to_owned());
    out.push("unzip".to_owned());
    out.push("autoconf".to_owned());
    out.push("automake".to_owned());
    out.push("cmake".to_owned());
    out.push("tmux".to_owned());
    out.push("openssh-server".to_owned());
    out.push("openssh-client".to_owned());
    out.push("httpie".to_owned());
    out.push("code".to_owned());
    out.push("neofetch".to_owned());
    out.push("stow".to_owned());
    assert(out.deep_view() =~= default_packages());
    out
}

/// The tools that the default snapshot installs with pkgx.
fn default_pkgx_mapping() -> (out: Mapping)
    ensures
        out@ == entries_of(default_pkgx()),
{
    let mut pairs: Vec<(String, String)> = Vec::new();
    pairs.push(pair("tig", "latest"));
    pairs.push(pair("rg", "latest"));
    pairs.push(pair("jq", "latest"));
    pairs.push(pair("neovim.io", "latest"));
    pairs.push(pair("fzf", "latest"));
    pairs.push(pair("zellij", "latest"));
    pairs.push(pair("glow", "latest"));
    pairs.push(pair("gh", "latest"));
    pairs.push(pair("eza", "latest"));
    assert(pairs.deep_view() =~= default_pkgx());
    Mapping::from_pairs(pairs)
}

/// The installers that the default snapshot runs.
fn default_curl_mapping() -> (out: Mapping)
    ensures
        out@ == entries_of(default_curl()),
{
    let mut pairs: Vec<(String, String)> = Vec::new();
    pairs.push(pair("oh-my-posh", "https://ohmyposh.dev/install.sh"));
    pairs.push(pair("atuin", "https://setup.atuin.sh"));
    pairs.push(pair("bun", "https://bun.sh/install"));
    pairs.push(pair("deno", "https://deno.land/install.sh"));
    pairs.push(pair("pkgx", "https://pkgx.sh"));
    assert(pairs.deep_view() =~= default_curl());
    Mapping::from_pairs(pairs)
}

/// A mapping with one entry.
fn single(key: &str, value: &str) -> (out: Mapping)
    ensures
        out@ == entries_of(seq![(key@, value@)]),
{
    let mut pairs: Vec<(String, String)> = Vec::new();
    pairs.push(pair(key, value));
    assert(pairs.deep_view() =~= seq![(key@, value@)]);
    Mapping::from_pairs(pairs)
}

impl Default for Configuration {
    fn default() -> (out: Self)
        ensures
            out@ == default_configuration(),
    {
        let no_keys: Vec<String> = Vec::new();
        assert(no_keys.deep_view() =~= Seq::<Text>::empty());
        Configuration {
            apt_get: Some(default_package_list()),
            pkgx: Some(default_pkgx_mapping()),
            curl: Some(default_curl_mapping()),
            mise: Some(single("node", "latest")),
            blesh: Some(true),
            zoxide: Some(true),
            nix: None,
            stow: Some(single("git", "github:tsirysndr/android-dotfiles")),
            oh_my_posh: Some(OhMyPosh { theme: Some("tokyonight_storm".to_owned()) }),
            alias: Some(single("ls", "eza -lh")),
            tailscale: Some(false),
            ssh: Some(SshConfig { port: Some(8022), authorized_keys: Some(no_keys) }),
            neofetch: Some(true),
            doppler: Some(false),
        }
    }
}

} // verus!
