//! What the differ and the translator do together.

use crate::apply::{StepKind, StepView};
use crate::config::{
    binding, first_of_each_kind, has_kind, setup_steps, step_for, steps_for_record,
    steps_for_records, ConfigurationView, OhMyPoshView, SshConfigView,
};
use crate::diff::{
    added_items, configuration_diff, flag_diff, items_of, keys_of, list_diff, mapping_diff,
    nested, oh_my_posh_diff, only_in, port_diff, port_of, ssh_diff, theme_diff, theme_of,
    DiffView,
};
use crate::mapping::{Entries, Text};
use vstd::prelude::*;

verus! {

/// `unit`, `n` times in a row.
pub open spec fn repeated(unit: Seq<StepView>, n: nat) -> Seq<StepView>
    decreases n,
{
    if n == 0 {
        Seq::empty()
    } else {
        repeated(unit, (n - 1) as nat) + unit
    }
}

/// The operation of kind `kind` bound to `desired`, as a sequence of one or none.
pub open spec fn bound_step(desired: ConfigurationView, kind: StepKind) -> Seq<StepView> {
    match binding(desired, kind) {
        Some(step) => seq![step],
        None => Seq::empty(),
    }
}

/// The place of a kind in the order in which a snapshot's fields are compared.
pub open spec fn rank(kind: StepKind) -> int {
    match kind {
        StepKind::Paths => 0,
        StepKind::Stow => 1,
        StepKind::Mise => 2,
        StepKind::Nix => 3,
        StepKind::Pkgx => 4,
        StepKind::Curl => 5,
        StepKind::Alias => 6,
        StepKind::AptGet => 7,
        StepKind::BleSh => 8,
        StepKind::Zoxide => 9,
        StepKind::Tailscale => 10,
        StepKind::OhMyPosh => 11,
        StepKind::Ssh => 12,
    }
}

/// Every operation in `steps` is of a kind that comes before place `r`.
pub open spec fn ranks_below(steps: Seq<StepView>, r: int) -> bool {
    forall|i: int| 0 <= i < steps.len() ==> rank(#[trigger] steps[i].kind()) < r
}

/// Every record in `records` is an addition to field `parent`.
pub open spec fn all_added_to(records: Seq<DiffView>, parent: Text) -> bool {
    forall|i: int|
        0 <= i < records.len() ==> (#[trigger] records[i]) is Added && records[i]->Added_0
            == parent
}

/// The operations for two runs of records are those for the first, then those for the second.
proof fn lemma_steps_for_concat(desired: ConfigurationView, a: Seq<DiffView>, b: Seq<DiffView>)
    ensures
        steps_for_records(desired, a + b) == steps_for_records(desired, a) + steps_for_records(
            desired,
            b,
        ),
    decreases b.len(),
{
    reveal_with_fuel(steps_for_records, 2);
    if b.len() == 0 {
        assert(a + b =~= a);
        assert(steps_for_records(desired, a) + steps_for_records(desired, b)
            =~= steps_for_records(desired, a));
    } else {
        lemma_steps_for_concat(desired, a, b.drop_last());
        assert((a + b).drop_last() =~= a + b.drop_last());
        assert((a + b).last() == b.last());
        assert(steps_for_records(desired, a + b) =~= steps_for_records(desired, a)
            + steps_for_records(desired, b));
    }
}

/// Records that all add to one field ask for that field's operation, once each.
proof fn lemma_steps_for_added(desired: ConfigurationView, records: Seq<DiffView>, parent: Text)
    requires
        all_added_to(records, parent),
    ensures
        steps_for_records(desired, records) == repeated(step_for(desired, parent), records.len()),
    decreases records.len(),
{
    reveal_with_fuel(steps_for_records, 2);
    reveal_with_fuel(steps_for_record, 2);
    if records.len() > 0 {
        let shorter = records.drop_last();
        assert(all_added_to(shorter, parent)) by {
            assert forall|i: int| 0 <= i < shorter.len() implies (#[trigger] shorter[i]) is Added
                && shorter[i]->Added_0 == parent by {
                assert(shorter[i] == records[i]);
            }
        }
        lemma_steps_for_added(desired, shorter, parent);
        assert(records.last() == records[records.len() - 1]);
    }
}

/// A group whose records all add to the group asks for the group's operation once for each
/// record, and not at all where it holds no record.
proof fn lemma_steps_for_nested(desired: ConfigurationView, parent: Text, inner: Seq<DiffView>)
    requires
        all_added_to(inner, parent),
    ensures
        steps_for_records(desired, nested(parent, inner)) == repeated(
            step_for(desired, parent),
            inner.len(),
        ),
{
    reveal_with_fuel(steps_for_records, 3);
    reveal_with_fuel(steps_for_record, 2);
    if inner.len() > 0 {
        lemma_steps_for_added(desired, inner, parent);
        let block = nested(parent, inner);
        assert(block.drop_last() =~= Seq::<DiffView>::empty());
        assert(block.last() == DiffView::Nested(parent, inner));
        assert(steps_for_records(desired, block) =~= repeated(
            step_for(desired, parent),
            inner.len(),
        ));
    }
}

/// Nothing, however often repeated, is nothing.
proof fn lemma_repeated_nothing(unit: Seq<StepView>, n: nat)
    requires
        unit.len() == 0,
    ensures
        repeated(unit, n) == Seq::<StepView>::empty(),
    decreases n,
{
    if n > 0 {
        lemma_repeated_nothing(unit, (n - 1) as nat);
        assert(repeated(unit, n) =~= Seq::<StepView>::empty());
    }
}

/// Adding any number of copies of one operation, of a kind not seen before, adds the operation
/// once to what is kept.
proof fn lemma_absorb(acc: Seq<StepView>, unit: Seq<StepView>, n: nat, r: int)
    requires
        unit.len() <= 1,
        unit.len() == 1 ==> rank(unit[0].kind()) == r,
        ranks_below(acc, r),
    ensures
        first_of_each_kind(acc + repeated(unit, n)) == first_of_each_kind(acc) + (if n > 0 {
            unit
        } else {
            Seq::empty()
        }),
        ranks_below(acc + repeated(unit, n), r + 1),
    decreases n,
{
    if n == 0 {
        assert(acc + repeated(unit, n) =~= acc);
        assert(first_of_each_kind(acc) + Seq::<StepView>::empty() =~= first_of_each_kind(acc));
    } else if unit.len() == 0 {
        lemma_repeated_nothing(unit, n);
        assert(first_of_each_kind(acc) + unit =~= first_of_each_kind(acc));
        assert(acc + repeated(unit, n) =~= acc);
    } else {
        let x = unit[0];
        let shorter = acc + repeated(unit, (n - 1) as nat);
        let whole = acc + repeated(unit, n);
        lemma_absorb(acc, unit, (n - 1) as nat, r);
        assert(unit =~= seq![x]);
        assert(whole =~= shorter.push(x));
        assert(whole.drop_last() =~= shorter);
        assert(whole.last() == x);
        if n - 1 > 0 {
            assert(repeated(unit, (n - 1) as nat) =~= repeated(unit, (n - 2) as nat) + unit);
            assert(shorter[shorter.len() - 1] == x);
            assert(has_kind(shorter, x.kind()));
            assert(first_of_each_kind(whole) =~= first_of_each_kind(acc) + unit);
        } else {
            assert(shorter =~= acc);
            assert(!has_kind(acc, x.kind()));
            assert(first_of_each_kind(whole) =~= first_of_each_kind(acc) + unit);
        }
        assert forall|i: int| 0 <= i < whole.len() implies rank(#[trigger] whole[i].kind()) < r
            + 1 by {
            if i < shorter.len() {
                assert(whole[i] == shorter[i]);
            }
        }
    }
}

/// The names under which the differ reports the fields, and what the translator makes of each:
/// the operation of the field's kind, except for `neofetch` and `doppler`, which it does not
/// know.
pub proof fn lemma_field_names(desired: ConfigurationView)
    ensures
        step_for(desired, "stow"@) == bound_step(desired, StepKind::Stow),
        step_for(desired, "mise"@) == bound_step(desired, StepKind::Mise),
        step_for(desired, "nix"@) == bound_step(desired, StepKind::Nix),
        step_for(desired, "pkgx"@) == bound_step(desired, StepKind::Pkgx),
        step_for(desired, "curl"@) == bound_step(desired, StepKind::Curl),
        step_for(desired, "alias"@) == bound_step(desired, StepKind::Alias),
        step_for(desired, "apt-get"@) == bound_step(desired, StepKind::AptGet),
        step_for(desired, "zoxide"@) == bound_step(desired, StepKind::Zoxide),
        step_for(desired, "tailscale"@) == bound_step(desired, StepKind::Tailscale),
        step_for(desired, "oh_my_posh"@) == bound_step(desired, StepKind::OhMyPosh),
        step_for(desired, "ssh"@) == bound_step(desired, StepKind::Ssh),
        step_for(desired, "ble.sh"@) == bound_step(desired, StepKind::BleSh),
        step_for(desired, "blesh"@) == bound_step(desired, StepKind::BleSh),
        step_for(desired, "neofetch"@) == Seq::<StepView>::empty(),
        step_for(desired, "doppler"@) == Seq::<StepView>::empty(),
{
    reveal_strlit("doppler");
    assert("doppler"@.len() == 7 && "doppler"@[0] == 'd');
    assert("apt-get"@[0] == 'a') by {
        reveal_strlit("apt-get");
    }
    reveal_strlit("stow");
    reveal_strlit("mise");
    reveal_strlit("nix");
    reveal_strlit("pkgx");
    reveal_strlit("curl");
    reveal_strlit("alias");
    reveal_strlit("apt-get");
    reveal_strlit("zoxide");
    reveal_strlit("tailscale");
    reveal_strlit("oh_my_posh");
    reveal_strlit("ssh");
    reveal_strlit("ble.sh");
    reveal_strlit("blesh");
    reveal_strlit("neofetch");
    assert("nix"@.len() == 3 && "nix"@[0] == 'n');
    assert("ssh"@.len() == 3 && "ssh"@[0] == 's');
    assert("pkgx"@.len() == 4 && "pkgx"@[0] == 'p');
    assert("curl"@.len() == 4 && "curl"@[0] == 'c');
    assert("mise"@.len() == 4 && "mise"@[0] == 'm');
    assert("stow"@.len() == 4 && "stow"@[0] == 's');
    assert("alias"@.len() == 5 && "alias"@[0] == 'a');
    assert("blesh"@.len() == 5 && "blesh"@[0] == 'b');
    assert("ble.sh"@.len() == 6 && "ble.sh"@[0] == 'b');
    assert("zoxide"@.len() == 6 && "zoxide"@[0] == 'z');
    assert("apt-get"@.len() == 7);
    assert("neofetch"@.len() == 8);
    assert("tailscale"@.len() == 9);
    assert("oh_my_posh"@.len() == 10);
}

/// How many entries a mapping field holds; an absent one holds none.
pub open spec fn entry_count(field: Option<Entries>) -> nat {
    match field {
        Some(entries) => entries.len(),
        None => 0,
    }
}

/// How many different items a list field holds; an absent one holds none.
pub open spec fn item_count(field: Option<Seq<Text>>) -> nat {
    only_in(items_of(field), Seq::empty()).len()
}

/// A mapping field that appears asks for its operation once for each entry.
proof fn lemma_new_mapping(desired: ConfigurationView, parent: Text, field: Option<Entries>)
    ensures
        steps_for_records(desired, mapping_diff(parent, None, field)) == repeated(
            step_for(desired, parent),
            entry_count(field),
        ),
{
    let records = mapping_diff(parent, None, field);
    assert(all_added_to(records, parent));
    assert(records.len() == entry_count(field));
    lemma_steps_for_added(desired, records, parent);
}

/// A list field that appears asks for its operation once for each different item.
proof fn lemma_new_list(
    desired: ConfigurationView,
    parent: Text,
    child: Text,
    field: Option<Seq<Text>>,
)
    ensures
        all_added_to(list_diff(parent, child, None, field), parent),
        list_diff(parent, child, None, field).len() == item_count(field),
        steps_for_records(desired, list_diff(parent, child, None, field)) == repeated(
            step_for(desired, parent),
            item_count(field),
        ),
{
    let records = list_diff(parent, child, None, field);
    let additions = added_items(parent, child, only_in(items_of(field), Seq::empty()));
    assert(only_in(Seq::<Text>::empty(), items_of(field)) =~= Seq::<Text>::empty());
    assert(records =~= additions);
    assert(all_added_to(records, parent));
    lemma_steps_for_added(desired, records, parent);
}

/// A flag that appears asks for its operation once.
proof fn lemma_new_flag(desired: ConfigurationView, parent: Text, field: Option<bool>)
    ensures
        steps_for_records(desired, flag_diff(parent, None, field)) == repeated(
            step_for(desired, parent),
            if field is Some {
                1
            } else {
                0
            },
        ),
{
    let records = flag_diff(parent, None, field);
    assert(all_added_to(records, parent));
    lemma_steps_for_added(desired, records, parent);
}

/// How many records the appearance of the prompt group holds.
pub open spec fn prompt_records(field: Option<OhMyPoshView>) -> nat {
    if theme_of(field) is Some {
        1
    } else {
        0
    }
}

/// How many records the appearance of the SSH group holds.
pub open spec fn ssh_records(field: Option<SshConfigView>) -> nat {
    (if port_of(field) is Some {
        1nat
    } else {
        0nat
    }) + item_count(keys_of(field))
}

/// The prompt group, where it appears, asks for its operation for its theme.
proof fn lemma_new_prompt(desired: ConfigurationView, field: Option<OhMyPoshView>)
    ensures
        steps_for_records(desired, oh_my_posh_diff(None, field)) == repeated(
            step_for(desired, "oh_my_posh"@),
            prompt_records(field),
        ),
{
    let inner = theme_diff(None, theme_of(field));
    assert(all_added_to(inner, "oh_my_posh"@));
    lemma_steps_for_nested(desired, "oh_my_posh"@, inner);
}

/// The SSH group, where it appears, asks for its operation for each record inside it.
proof fn lemma_new_ssh(desired: ConfigurationView, field: Option<SshConfigView>)
    ensures
        steps_for_records(desired, ssh_diff(None, field)) == repeated(
            step_for(desired, "ssh"@),
            ssh_records(field),
        ),
{
    let port = port_diff(None, port_of(field));
    let keys = list_diff("ssh"@, "authorized_keys"@, None, keys_of(field));
    let inner = port + keys;
    lemma_new_list(desired, "ssh"@, "authorized_keys"@, keys_of(field));
    assert(all_added_to(inner, "ssh"@)) by {
        assert forall|i: int| 0 <= i < inner.len() implies (#[trigger] inner[i]) is Added
            && inner[i]->Added_0 == "ssh"@ by {
            if i >= port.len() {
                assert(inner[i] == keys[i - port.len()]);
            }
        }
    }
    lemma_steps_for_nested(desired, "ssh"@, inner);
}

/// `unit` where `shown` holds, nothing otherwise.
pub open spec fn when(shown: bool, unit: Seq<StepView>) -> Seq<StepView> {
    if shown {
        unit
    } else {
        Seq::empty()
    }
}

/// The operations of a first run: the base paths, then, in the order in which the fields are
/// compared, the operation of every field that holds something and that the translator knows.
pub open spec fn first_run_steps(desired: ConfigurationView) -> Seq<StepView> {
    first_run_steps_of_collections(desired) + when(
        desired.blesh is Some,
        bound_step(desired, StepKind::BleSh),
    ) + when(desired.zoxide is Some, bound_step(desired, StepKind::Zoxide)) + when(
        desired.tailscale is Some,
        bound_step(desired, StepKind::Tailscale),
    ) + when(prompt_records(desired.oh_my_posh) > 0, bound_step(desired, StepKind::OhMyPosh))
        + when(ssh_records(desired.ssh) > 0, bound_step(desired, StepKind::Ssh))
}

/// Where a first run stands once the records `records` are translated: `kept` is what the
/// run holds, and all of it is of kinds before place `r`.
#[verifier::opaque]
pub open spec fn stands_at(
    desired: ConfigurationView,
    records: Seq<DiffView>,
    kept: Seq<StepView>,
    r: int,
) -> bool {
    &&& first_of_each_kind(seq![StepView::Paths] + steps_for_records(desired, records)) == kept
    &&& ranks_below(seq![StepView::Paths] + steps_for_records(desired, records), r)
}

/// Before any record, a run holds the base paths.
proof fn lemma_stands_at_start(desired: ConfigurationView)
    ensures
        stands_at(desired, Seq::empty(), seq![StepView::Paths], 1),
{
    reveal(stands_at);
    reveal_with_fuel(steps_for_records, 2);
    reveal_with_fuel(first_of_each_kind, 2);
    let start = seq![StepView::Paths];
    assert(start + steps_for_records(desired, Seq::empty()) =~= start);
    assert(start.drop_last() =~= Seq::<StepView>::empty());
    assert(first_of_each_kind(start) =~= start);
}

/// The records of one more field add the field's operation once, if there are any.
proof fn lemma_stands_at_next(
    desired: ConfigurationView,
    records: Seq<DiffView>,
    kept: Seq<StepView>,
    more: Seq<DiffView>,
    kind: StepKind,
    n: nat,
)
    requires
        stands_at(desired, records, kept, rank(kind)),
        steps_for_records(desired, more) == repeated(bound_step(desired, kind), n),
    ensures
        stands_at(
            desired,
            records + more,
            kept + when(n > 0, bound_step(desired, kind)),
            rank(kind) + 1,
        ),
{
    reveal(stands_at);
    let acc = seq![StepView::Paths] + steps_for_records(desired, records);
    lemma_steps_for_concat(desired, records, more);
    lemma_absorb(acc, bound_step(desired, kind), n, rank(kind));
    assert(acc + steps_for_records(desired, more) =~= seq![StepView::Paths] + steps_for_records(
        desired,
        records + more,
    ));
}

/// The records of a field that the translator does not know add nothing.
proof fn lemma_stands_at_skip(
    desired: ConfigurationView,
    records: Seq<DiffView>,
    kept: Seq<StepView>,
    more: Seq<DiffView>,
    n: nat,
    r: int,
    later: int,
)
    requires
        stands_at(desired, records, kept, r),
        steps_for_records(desired, more) == repeated(Seq::<StepView>::empty(), n),
        r <= later,
    ensures
        stands_at(desired, records + more, kept, later),
{
    reveal(stands_at);
    lemma_steps_for_concat(desired, records, more);
    lemma_repeated_nothing(Seq::<StepView>::empty(), n);
    assert(steps_for_records(desired, records) + Seq::<StepView>::empty()
        =~= steps_for_records(desired, records));
}

/// Where a run stands after all records is what the run holds.
proof fn lemma_stands_at_end(
    desired: ConfigurationView,
    records: Seq<DiffView>,
    kept: Seq<StepView>,
    r: int,
)
    requires
        stands_at(desired, records, kept, r),
    ensures
        setup_steps(desired, records) == kept,
{
    reveal(stands_at);
}

/// What a first run holds once the mappings and the package list are translated.
pub open spec fn first_run_steps_of_collections(desired: ConfigurationView) -> Seq<StepView> {
    seq![StepView::Paths] + when(
        entry_count(desired.stow) > 0,
        bound_step(desired, StepKind::Stow),
    ) + when(entry_count(desired.mise) > 0, bound_step(desired, StepKind::Mise)) + when(
        entry_count(desired.nix) > 0,
        bound_step(desired, StepKind::Nix),
    ) + when(entry_count(desired.pkgx) > 0, bound_step(desired, StepKind::Pkgx)) + when(
        entry_count(desired.curl) > 0,
        bound_step(desired, StepKind::Curl),
    ) + when(entry_count(desired.alias) > 0, bound_step(desired, StepKind::Alias)) + when(
        item_count(desired.apt_get) > 0,
        bound_step(desired, StepKind::AptGet),
    )
}

/// The records of a first run for the mappings and the package list.
pub open spec fn first_run_records_of_collections(desired: ConfigurationView) -> Seq<DiffView> {
    mapping_diff("stow"@, None, desired.stow) + mapping_diff("mise"@, None, desired.mise)
        + mapping_diff("nix"@, None, desired.nix) + mapping_diff("pkgx"@, None, desired.pkgx)
        + mapping_diff("curl"@, None, desired.curl) + mapping_diff("alias"@, None, desired.alias)
        + list_diff("apt-get"@, Seq::empty(), None, desired.apt_get)
}

/// The first half of a first run: the mappings and the package list.
proof fn lemma_first_run_collections(desired: ConfigurationView)
    ensures
        stands_at(
            desired,
            first_run_records_of_collections(desired),
            first_run_steps_of_collections(desired),
            8,
        ),
{
    let d = desired;
    lemma_field_names(d);

    let b1 = mapping_diff("stow"@, None, d.stow);
    let b2 = mapping_diff("mise"@, None, d.mise);
    let b3 = mapping_diff("nix"@, None, d.nix);
    let b4 = mapping_diff("pkgx"@, None, d.pkgx);
    let b5 = mapping_diff("curl"@, None, d.curl);
    let b6 = mapping_diff("alias"@, None, d.alias);
    let b7 = list_diff("apt-get"@, Seq::empty(), None, d.apt_get);

    let k0 = seq![StepView::Paths];
    let seen0 = Seq::<DiffView>::empty();
    lemma_stands_at_start(d);

    lemma_new_mapping(d, "stow"@, d.stow);
    let k1 = k0 + when(entry_count(d.stow) > 0, bound_step(d, StepKind::Stow));
    lemma_stands_at_next(d, seen0, k0, b1, StepKind::Stow, entry_count(d.stow));
    assert(seen0 + b1 =~= b1);

    lemma_new_mapping(d, "mise"@, d.mise);
    let k2 = k1 + when(entry_count(d.mise) > 0, bound_step(d, StepKind::Mise));
    lemma_stands_at_next(d, b1, k1, b2, StepKind::Mise, entry_count(d.mise));

    lemma_new_mapping(d, "nix"@, d.nix);
    let k3 = k2 + when(entry_count(d.nix) > 0, bound_step(d, StepKind::Nix));
    lemma_stands_at_next(d, b1 + b2, k2, b3, StepKind::Nix, entry_count(d.nix));

    lemma_new_mapping(d, "pkgx"@, d.pkgx);
    let k4 = k3 + when(entry_count(d.pkgx) > 0, bound_step(d, StepKind::Pkgx));
    lemma_stands_at_next(d, b1 + b2 + b3, k3, b4, StepKind::Pkgx, entry_count(d.pkgx));

    lemma_new_mapping(d, "curl"@, d.curl);
    let k5 = k4 + when(entry_count(d.curl) > 0, bound_step(d, StepKind::Curl));
    lemma_stands_at_next(d, b1 + b2 + b3 + b4, k4, b5, StepKind::Curl, entry_count(d.curl));

    lemma_new_mapping(d, "alias"@, d.alias);
    let k6 = k5 + when(entry_count(d.alias) > 0, bound_step(d, StepKind::Alias));
    lemma_stands_at_next(d, b1 + b2 + b3 + b4 + b5, k5, b6, StepKind::Alias, entry_count(d.alias));

    lemma_new_list(d, "apt-get"@, Seq::empty(), d.apt_get);
    let seen6 = b1 + b2 + b3 + b4 + b5 + b6;
    lemma_stands_at_next(d, seen6, k6, b7, StepKind::AptGet, item_count(d.apt_get));
}

/// The first run: reconciling a snapshot against the snapshot in which every field is absent
/// gives the base paths and one operation for every field that holds something and that the
/// translator knows, each bound to the snapshot's value of the field.
pub proof fn lemma_first_run(desired: ConfigurationView)
    ensures
        setup_steps(desired, configuration_diff(ConfigurationView::empty(), desired))
            == first_run_steps(desired),
{
    let d = desired;
    lemma_field_names(d);
    lemma_first_run_collections(d);

    let seen7 = first_run_records_of_collections(d);
    let k7 = first_run_steps_of_collections(d);
    let b8 = flag_diff("blesh"@, None, d.blesh);
    let b9 = flag_diff("zoxide"@, None, d.zoxide);
    let b10 = flag_diff("tailscale"@, None, d.tailscale);
    let b11 = flag_diff("neofetch"@, None, d.neofetch);
    let b11b = flag_diff("doppler"@, None, d.doppler);
    let b12 = oh_my_posh_diff(None, d.oh_my_posh);
    let b13 = ssh_diff(None, d.ssh);

    lemma_new_flag(d, "blesh"@, d.blesh);
    let k8 = k7 + when(d.blesh is Some, bound_step(d, StepKind::BleSh));
    lemma_stands_at_next(d, seen7, k7, b8, StepKind::BleSh, if d.blesh is Some { 1 } else { 0 });

    lemma_new_flag(d, "zoxide"@, d.zoxide);
    let k9 = k8 + when(d.zoxide is Some, bound_step(d, StepKind::Zoxide));
    let seen8 = seen7 + b8;
    lemma_stands_at_next(d, seen8, k8, b9, StepKind::Zoxide, if d.zoxide is Some { 1 } else { 0 });

    lemma_new_flag(d, "tailscale"@, d.tailscale);
    let k10 = k9 + when(d.tailscale is Some, bound_step(d, StepKind::Tailscale));
    let seen9 = seen8 + b9;
    lemma_stands_at_next(
        d,
        seen9,
        k9,
        b10,
        StepKind::Tailscale,
        if d.tailscale is Some { 1 } else { 0 },
    );

    lemma_new_flag(d, "neofetch"@, d.neofetch);
    let seen10 = seen9 + b10;
    lemma_stands_at_skip(d, seen10, k10, b11, if d.neofetch is Some { 1 } else { 0 }, 11, 11);

    lemma_new_flag(d, "doppler"@, d.doppler);
    lemma_stands_at_skip(
        d,
        seen10 + b11,
        k10,
        b11b,
        if d.doppler is Some { 1 } else { 0 },
        11,
        11,
    );

    lemma_new_prompt(d, d.oh_my_posh);
    let k12 = k10 + when(prompt_records(d.oh_my_posh) > 0, bound_step(d, StepKind::OhMyPosh));
    let seen11 = seen10 + b11 + b11b;
    lemma_stands_at_next(
        d,
        seen11,
        k10,
        b12,
        StepKind::OhMyPosh,
        prompt_records(d.oh_my_posh),
    );

    lemma_new_ssh(d, d.ssh);
    let k13 = k12 + when(ssh_records(d.ssh) > 0, bound_step(d, StepKind::Ssh));
    let seen12 = seen11 + b12;
    lemma_stands_at_next(d, seen12, k12, b13, StepKind::Ssh, ssh_records(d.ssh));

    lemma_stands_at_end(d, seen12 + b13, k13, 13);
}

/// Every field that the snapshot holds shows in a first run: it holds something that the
/// differ reports, and the translator has an operation for it. This leaves out a mapping or a
/// list without items, a group without sub-fields, and the fields `neofetch` and `doppler`,
/// for which there is no operation.
pub open spec fn every_field_shows(desired: ConfigurationView) -> bool {
    &&& desired.stow is Some ==> entry_count(desired.stow) > 0
    &&& desired.mise is Some ==> entry_count(desired.mise) > 0
    &&& desired.nix is Some ==> entry_count(desired.nix) > 0
    &&& desired.pkgx is Some ==> entry_count(desired.pkgx) > 0
    &&& desired.curl is Some ==> entry_count(desired.curl) > 0
    &&& desired.alias is Some ==> entry_count(desired.alias) > 0
    &&& desired.apt_get is Some ==> item_count(desired.apt_get) > 0
    &&& desired.oh_my_posh is Some ==> prompt_records(desired.oh_my_posh) > 0
    &&& desired.ssh is Some ==> ssh_records(desired.ssh) > 0
    &&& desired.neofetch is None
    &&& desired.doppler is None
}

/// The base paths, then one operation for each field that the snapshot holds, bound to the
/// field's value, in the order in which the fields are compared.
pub open spec fn populated_steps(desired: ConfigurationView) -> Seq<StepView> {
    seq![StepView::Paths] + bound_step(desired, StepKind::Stow) + bound_step(
        desired,
        StepKind::Mise,
    ) + bound_step(desired, StepKind::Nix) + bound_step(desired, StepKind::Pkgx) + bound_step(
        desired,
        StepKind::Curl,
    ) + bound_step(desired, StepKind::Alias) + bound_step(desired, StepKind::AptGet) + bound_step(
        desired,
        StepKind::BleSh,
    ) + bound_step(desired, StepKind::Zoxide) + bound_step(desired, StepKind::Tailscale)
        + bound_step(desired, StepKind::OhMyPosh) + bound_step(desired, StepKind::Ssh)
}

/// Round trip: where every field that the snapshot holds shows, reconciling the snapshot
/// against the snapshot in which every field is absent gives the base paths and exactly one
/// operation for each field that the snapshot holds, bound to the snapshot's value of it.
pub proof fn lemma_round_trip(desired: ConfigurationView)
    requires
        every_field_shows(desired),
    ensures
        setup_steps(desired, configuration_diff(ConfigurationView::empty(), desired))
            == populated_steps(desired),
{
    let d = desired;
    lemma_first_run(d);
    assert(when(entry_count(d.stow) > 0, bound_step(d, StepKind::Stow)) == bound_step(
        d,
        StepKind::Stow,
    ));
    assert(when(entry_count(d.mise) > 0, bound_step(d, StepKind::Mise)) == bound_step(
        d,
        StepKind::Mise,
    ));
    assert(when(entry_count(d.nix) > 0, bound_step(d, StepKind::Nix)) == bound_step(
        d,
        StepKind::Nix,
    ));
    assert(when(entry_count(d.pkgx) > 0, bound_step(d, StepKind::Pkgx)) == bound_step(
        d,
        StepKind::Pkgx,
    ));
    assert(when(entry_count(d.curl) > 0, bound_step(d, StepKind::Curl)) == bound_step(
        d,
        StepKind::Curl,
    ));
    assert(when(entry_count(d.alias) > 0, bound_step(d, StepKind::Alias)) == bound_step(
        d,
        StepKind::Alias,
    ));
    assert(when(item_count(d.apt_get) > 0, bound_step(d, StepKind::AptGet)) == bound_step(
        d,
        StepKind::AptGet,
    ));
    assert(when(d.blesh is Some, bound_step(d, StepKind::BleSh)) == bound_step(
        d,
        StepKind::BleSh,
    ));
    assert(when(d.zoxide is Some, bound_step(d, StepKind::Zoxide)) == bound_step(
        d,
        StepKind::Zoxide,
    ));
    assert(when(d.tailscale is Some, bound_step(d, StepKind::Tailscale)) == bound_step(
        d,
        StepKind::Tailscale,
    ));
    assert(when(prompt_records(d.oh_my_posh) > 0, bound_step(d, StepKind::OhMyPosh))
        == bound_step(d, StepKind::OhMyPosh));
    assert(when(ssh_records(d.ssh) > 0, bound_step(d, StepKind::Ssh)) == bound_step(
        d,
        StepKind::Ssh,
    ));
}

} // verus!
