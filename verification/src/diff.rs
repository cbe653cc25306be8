//! The structural differ: compares two snapshots field by field.

use crate::config::{
    valid_entries, Configuration, ConfigurationView, OhMyPosh, OhMyPoshView, SshConfig,
    SshConfigView,
};
use crate::mapping::{
    distinct_keys, lemma_lookup_own_entry, lemma_position, lookup, position, Entries, Mapping, Text,
};
use crate::style::{green, magenta, paint_green, paint_magenta};
use crate::text::{bool_string, bool_text, decimal, decimal_text};
use vstd::prelude::*;

verus! {

/// One detected difference between two snapshots.
/// The texts are the field, the sub-field (empty where the field has none) and the value or
/// values; `Nested` wraps the differences inside a structured group.
#[derive(Debug, PartialEq, Eq)]
pub enum Diff {
    Added(String, String, String),
    Removed(String, String, String),
    Changed(String, String, String, String),
    Nested(String, Vec<Diff>),
}

/// What a `Diff` holds.
pub enum DiffView {
    Added(Text, Text, Text),
    Removed(Text, Text, Text),
    Changed(Text, Text, Text, Text),
    Nested(Text, Seq<DiffView>),
}

impl DeepView for Diff {
    type V = DiffView;

    open spec fn deep_view(&self) -> DiffView
        decreases self,
    {
        match self {
            Diff::Added(parent, child, value) => DiffView::Added(parent@, child@, value@),
            Diff::Removed(parent, child, value) => DiffView::Removed(parent@, child@, value@),
            Diff::Changed(parent, child, old, new) => DiffView::Changed(
                parent@,
                child@,
                old@,
                new@,
            ),
            Diff::Nested(parent, inner) => DiffView::Nested(parent@, views_of(inner@)),
        }
    }
}

/// The views of `records`, in order.
pub open spec fn views_of(records: Seq<Diff>) -> Seq<DiffView>
    decreases records,
{
    if records.len() == 0 {
        Seq::empty()
    } else {
        views_of(records.drop_last()).push(records.last().deep_view())
    }
}

impl View for Diff {
    type V = DiffView;

    open spec fn view(&self) -> DiffView {
        self.deep_view()
    }
}

/// `views_of` gives each record's view at the record's place.
pub proof fn lemma_views_of(records: Seq<Diff>)
    ensures
        views_of(records).len() == records.len(),
        forall|i: int| 0 <= i < records.len() ==> views_of(records)[i] == records[i].deep_view(),
    decreases records.len(),
{
    reveal_with_fuel(views_of, 2);
    if records.len() > 0 {
        lemma_views_of(records.drop_last());
        assert(views_of(records) == views_of(records.drop_last()).push(records.last().deep_view()));
    } else {
        assert(views_of(records) == Seq::<DiffView>::empty());
    }
}

/// The view of a `Nested` record holds the views of the records inside it.
pub proof fn lemma_nested_view(record: Diff)
    requires
        record is Nested,
    ensures
        record.deep_view() == DiffView::Nested(record->Nested_0@, record->Nested_1.deep_view()),
{
    lemma_views_of(record->Nested_1@);
    assert(views_of(record->Nested_1@) =~= record->Nested_1.deep_view());
}

/// One `Added` record for each entry, in order.
pub open spec fn added_entries(parent: Text, entries: Entries) -> Seq<DiffView> {
    Seq::new(entries.len(), |i: int| DiffView::Added(parent, entries[i].0, entries[i].1))
}

/// One `Removed` record for each entry, in order.
pub open spec fn removed_entries(parent: Text, entries: Entries) -> Seq<DiffView> {
    Seq::new(entries.len(), |i: int| DiffView::Removed(parent, entries[i].0, entries[i].1))
}

/// What became of an old entry: `Removed` where `new` lacks its key, `Changed` where `new` gives
/// the key another value, nothing where `new` has the same entry.
pub open spec fn entry_change(parent: Text, entry: (Text, Text), new: Entries) -> Seq<DiffView> {
    match lookup(new, entry.0) {
        None => seq![DiffView::Removed(parent, entry.0, entry.1)],
        Some(value) => if value != entry.1 {
            seq![DiffView::Changed(parent, entry.0, entry.1, value)]
        } else {
            Seq::empty()
        },
    }
}

/// The records for the entries of `old`, in order.
pub open spec fn changed_entries(parent: Text, old: Entries, new: Entries) -> Seq<DiffView>
    decreases old.len(),
{
    if old.len() == 0 {
        Seq::empty()
    } else {
        changed_entries(parent, old.drop_last(), new) + entry_change(parent, old.last(), new)
    }
}

/// `Added` for a new entry whose key `old` lacks, nothing otherwise.
pub open spec fn entry_addition(parent: Text, entry: (Text, Text), old: Entries) -> Seq<DiffView> {
    match lookup(old, entry.0) {
        None => seq![DiffView::Added(parent, entry.0, entry.1)],
        Some(_) => Seq::empty(),
    }
}

/// The records for the entries of `new` whose keys are new, in order.
pub open spec fn new_entries(parent: Text, old: Entries, new: Entries) -> Seq<DiffView>
    decreases new.len(),
{
    if new.len() == 0 {
        Seq::empty()
    } else {
        new_entries(parent, old, new.drop_last()) + entry_addition(parent, new.last(), old)
    }
}

/// The differences between two states of a mapping field.
pub open spec fn mapping_diff(parent: Text, old: Option<Entries>, new: Option<Entries>) -> Seq<
    DiffView,
> {
    match (old, new) {
        (None, Some(entries)) => added_entries(parent, entries),
        (Some(entries), None) => removed_entries(parent, entries),
        (Some(before), Some(after)) => changed_entries(parent, before, after) + new_entries(
            parent,
            before,
            after,
        ),
        (None, None) => Seq::empty(),
    }
}

/// One `Added` record for each item, in order.
pub open spec fn added_items(parent: Text, child: Text, items: Seq<Text>) -> Seq<DiffView> {
    Seq::new(items.len(), |i: int| DiffView::Added(parent, child, items[i]))
}

/// One `Removed` record for each item, in order.
pub open spec fn removed_items(parent: Text, child: Text, items: Seq<Text>) -> Seq<DiffView> {
    Seq::new(items.len(), |i: int| DiffView::Removed(parent, child, items[i]))
}

/// The items of `a` that `b` lacks, each once, in the order of their first occurrence in `a`.
pub open spec fn only_in(a: Seq<Text>, b: Seq<Text>) -> Seq<Text>
    decreases a.len(),
{
    if a.len() == 0 {
        Seq::empty()
    } else {
        let before = only_in(a.drop_last(), b);
        if !b.contains(a.last()) && !a.drop_last().contains(a.last()) {
            before.push(a.last())
        } else {
            before
        }
    }
}

/// The items that a list field holds; an absent list holds none.
pub open spec fn items_of(field: Option<Seq<Text>>) -> Seq<Text> {
    match field {
        Some(items) => items,
        None => Seq::empty(),
    }
}

/// The differences between two states of a list field. A list is compared as a set, in
/// every case: the items that only the new state holds are added, then the items that only
/// the old state holds are removed, each item once however often the list holds it, in the
/// order of first occurrence. An absent list holds no items.
pub open spec fn list_diff(
    parent: Text,
    child: Text,
    old: Option<Seq<Text>>,
    new: Option<Seq<Text>>,
) -> Seq<DiffView> {
    added_items(parent, child, only_in(items_of(new), items_of(old))) + removed_items(
        parent,
        child,
        only_in(items_of(old), items_of(new)),
    )
}

/// The difference between two states of a flag.
pub open spec fn flag_diff(parent: Text, old: Option<bool>, new: Option<bool>) -> Seq<DiffView> {
    match (old, new) {
        (None, Some(value)) => seq![DiffView::Added(parent, Seq::empty(), bool_text(value))],
        (Some(value), None) => seq![DiffView::Removed(parent, Seq::empty(), bool_text(value))],
        (Some(before), Some(after)) => if before != after {
            seq![DiffView::Changed(parent, Seq::empty(), bool_text(before), bool_text(after))]
        } else {
            Seq::empty()
        },
        (None, None) => Seq::empty(),
    }
}

/// The difference between two states of the prompt's theme.
pub open spec fn theme_diff(old: Option<Text>, new: Option<Text>) -> Seq<DiffView> {
    match (old, new) {
        (None, Some(theme)) => seq![DiffView::Added("oh_my_posh"@, "theme"@, theme)],
        (Some(theme), None) => seq![DiffView::Removed("oh_my_posh"@, "theme"@, theme)],
        (Some(before), Some(after)) => if before != after {
            seq![DiffView::Changed("oh_my_posh"@, "theme"@, before, after)]
        } else {
            Seq::empty()
        },
        (None, None) => Seq::empty(),
    }
}

/// The difference between two states of the SSH port.
pub open spec fn port_diff(old: Option<nat>, new: Option<nat>) -> Seq<DiffView> {
    match (old, new) {
        (None, Some(port)) => seq![DiffView::Added("ssh"@, "port"@, decimal_text(port))],
        (Some(port), None) => seq![DiffView::Removed("ssh"@, "port"@, decimal_text(port))],
        (Some(before), Some(after)) => if before != after {
            seq![DiffView::Changed("ssh"@, "port"@, decimal_text(before), decimal_text(after))]
        } else {
            Seq::empty()
        },
        (None, None) => Seq::empty(),
    }
}

/// The differences inside a group, wrapped into one `Nested` record unless there are none.
pub open spec fn nested(parent: Text, inner: Seq<DiffView>) -> Seq<DiffView> {
    if inner.len() > 0 {
        seq![DiffView::Nested(parent, inner)]
    } else {
        Seq::empty()
    }
}

/// The theme of a prompt group; an absent group has none.
pub open spec fn theme_of(group: Option<OhMyPoshView>) -> Option<Text> {
    match group {
        Some(settings) => settings.theme,
        None => None,
    }
}

/// The port of an SSH group; an absent group has none.
pub open spec fn port_of(group: Option<SshConfigView>) -> Option<nat> {
    match group {
        Some(settings) => settings.port,
        None => None,
    }
}

/// The authorized keys of an SSH group; an absent group has none.
pub open spec fn keys_of(group: Option<SshConfigView>) -> Option<Seq<Text>> {
    match group {
        Some(settings) => settings.authorized_keys,
        None => None,
    }
}

/// The differences between two states of the prompt group. An absent group differs from a
/// present one by the sub-fields that the present one holds.
pub open spec fn oh_my_posh_diff(old: Option<OhMyPoshView>, new: Option<OhMyPoshView>) -> Seq<
    DiffView,
> {
    nested("oh_my_posh"@, theme_diff(theme_of(old), theme_of(new)))
}

/// The differences between two states of the SSH group: the port, then the authorized keys.
pub open spec fn ssh_diff(old: Option<SshConfigView>, new: Option<SshConfigView>) -> Seq<
    DiffView,
> {
    nested(
        "ssh"@,
        port_diff(port_of(old), port_of(new)) + list_diff(
            "ssh"@,
            "authorized_keys"@,
            keys_of(old),
            keys_of(new),
        ),
    )
}

/// The differences between two snapshots, field by field in a fixed order.
pub open spec fn configuration_diff(old: ConfigurationView, new: ConfigurationView) -> Seq<
    DiffView,
> {
    mapping_diff("stow"@, old.stow, new.stow) + mapping_diff("mise"@, old.mise, new.mise)
        + mapping_diff("nix"@, old.nix, new.nix) + mapping_diff("pkgx"@, old.pkgx, new.pkgx)
        + mapping_diff("curl"@, old.curl, new.curl) + mapping_diff("alias"@, old.alias, new.alias)
        + list_diff("apt-get"@, Seq::empty(), old.apt_get, new.apt_get) + flag_diff(
        "blesh"@,
        old.blesh,
        new.blesh,
    ) + flag_diff("zoxide"@, old.zoxide, new.zoxide) + flag_diff(
        "tailscale"@,
        old.tailscale,
        new.tailscale,
    ) + flag_diff("neofetch"@, old.neofetch, new.neofetch) + flag_diff(
        "doppler"@,
        old.doppler,
        new.doppler,
    ) + oh_my_posh_diff(old.oh_my_posh, new.oh_my_posh) + ssh_diff(old.ssh, new.ssh)
}

/// Whether one of the first `upto` items of `items` is `item`.
fn occurs_before(items: &Vec<String>, upto: usize, item: &str) -> (r: bool)
    requires
        upto <= items.len(),
    ensures
        r == items.deep_view().take(upto as int).contains(item@),
{
    let ghost prefix = items.deep_view().take(upto as int);
    let mut k: usize = 0;
    while k < upto
        invariant
            k <= upto <= items.len(),
            prefix == items.deep_view().take(upto as int),
            forall|j: int| 0 <= j < k ==> prefix[j] != item@,
        decreases upto - k,
    {
        if items[k].as_str().eq(item) {
            assert(prefix[k as int] == item@);
            return true;
        }
        k += 1;
    }
    false
}

/// Appends one record for each item of `a` that `b` lacks, each item once.
fn push_only_in(
    diffs: &mut Vec<Diff>,
    parent: &str,
    child: &str,
    a: &Vec<String>,
    b: &Vec<String>,
    added: bool,
)
    ensures
        final(diffs).deep_view() == old(diffs).deep_view() + (if added {
            added_items(parent@, child@, only_in(a.deep_view(), b.deep_view()))
        } else {
            removed_items(parent@, child@, only_in(a.deep_view(), b.deep_view()))
        }),
{
    let ghost start = diffs.deep_view();
    let ghost all = a.deep_view();
    let ghost other = b.deep_view();
    let mut i: usize = 0;
    assert(diffs.deep_view() =~= start + added_items(parent@, child@, only_in(all.take(0), other)));
    assert(diffs.deep_view() =~= start + removed_items(
        parent@,
        child@,
        only_in(all.take(0), other),
    ));
    while i < a.len()
        invariant
            i <= a.len(),
            all == a.deep_view(),
            other == b.deep_view(),
            diffs.deep_view() == start + (if added {
                added_items(parent@, child@, only_in(all.take(i as int), other))
            } else {
                removed_items(parent@, child@, only_in(all.take(i as int), other))
            }),
        decreases a.len() - i,
    {
        let ghost before = diffs.deep_view();
        proof {
            assert(all.take(i + 1).drop_last() =~= all.take(i as int));
            assert(all.take(i + 1).last() == a[i as int]@);
            assert(other.take(b.len() as int) =~= other);
        }
        let item = a[i].as_str();
        if !occurs_before(b, b.len(), item) && !occurs_before(a, i, item) {
            if added {
                diffs.push(Diff::Added(parent.to_owned(), child.to_owned(), item.to_owned()));
                assert(diffs.deep_view() =~= before.push(
                    DiffView::Added(parent@, child@, item@),
                ));
                assert(diffs.deep_view() =~= start + added_items(
                    parent@,
                    child@,
                    only_in(all.take(i + 1), other),
                ));
            } else {
                diffs.push(Diff::Removed(parent.to_owned(), child.to_owned(), item.to_owned()));
                assert(diffs.deep_view() =~= before.push(
                    DiffView::Removed(parent@, child@, item@),
                ));
                assert(diffs.deep_view() =~= start + removed_items(
                    parent@,
                    child@,
                    only_in(all.take(i + 1), other),
                ));
            }
        }
        i += 1;
    }
    assert(all.take(i as int) =~= all);
}

/// The items of a list field that may be absent.
fn items_in<'a>(field: &'a Option<Vec<String>>, none: &'a Vec<String>) -> (items: &'a Vec<String>)
    requires
        none.len() == 0,
    ensures
        items.deep_view() == items_of(field.deep_view()),
{
    match field {
        Some(items) => items,
        None => {
            assert(none.deep_view() =~= Seq::<Text>::empty());
            none
        },
    }
}

/// Appends to `diffs` the differences between two states of a list; `child` names the sub-field
/// that holds the list, and is empty where the field itself is the list.
pub fn compare_list(
    diffs: &mut Vec<Diff>,
    parent: &str,
    child: &str,
    old_items: &Option<Vec<String>>,
    new_items: &Option<Vec<String>>,
)
    ensures
        final(diffs).deep_view() == old(diffs).deep_view() + list_diff(
            parent@,
            child@,
            old_items.deep_view(),
            new_items.deep_view(),
        ),
{
    let ghost start = diffs.deep_view();
    let none: Vec<String> = Vec::new();
    let old_vec = items_in(old_items, &none);
    let new_vec = items_in(new_items, &none);
    push_only_in(diffs, parent, child, new_vec, old_vec, true);
    push_only_in(diffs, parent, child, old_vec, new_vec, false);
    assert(diffs.deep_view() =~= start + list_diff(
        parent@,
        child@,
        old_items.deep_view(),
        new_items.deep_view(),
    ));
}

/// The differences between two states of a list field.
pub fn compare_vec(parent: &str, old: &Option<Vec<String>>, new: &Option<Vec<String>>) -> (diffs:
    Vec<Diff>)
    ensures
        diffs.deep_view() == list_diff(
            parent@,
            Seq::empty(),
            old.deep_view(),
            new.deep_view(),
        ),
{
    let mut diffs: Vec<Diff> = Vec::new();
    let ghost start = diffs.deep_view();
    compare_list(&mut diffs, parent, "", old, new);
    proof {
        reveal_strlit("");
        assert(""@ =~= Seq::<char>::empty());
        assert(start =~= Seq::<DiffView>::empty());
        assert(diffs.deep_view() =~= list_diff(
            parent@,
            Seq::empty(),
            old.deep_view(),
            new.deep_view(),
        ));
    }
    diffs
}

/// Appends one record for each entry of `entries`.
fn push_entries(diffs: &mut Vec<Diff>, parent: &str, entries: &Mapping, added: bool)
    ensures
        final(diffs).deep_view() == old(diffs).deep_view() + (if added {
            added_entries(parent@, entries@)
        } else {
            removed_entries(parent@, entries@)
        }),
{
    let ghost start = diffs.deep_view();
    let mut i: usize = 0;
    assert(diffs.deep_view() =~= start + added_entries(parent@, entries@.take(0)));
    assert(diffs.deep_view() =~= start + removed_entries(parent@, entries@.take(0)));
    while i < entries.len()
        invariant
            i <= entries@.len(),
            diffs.deep_view() == start + (if added {
                added_entries(parent@, entries@.take(i as int))
            } else {
                removed_entries(parent@, entries@.take(i as int))
            }),
        decreases entries@.len() - i,
    {
        let ghost before = diffs.deep_view();
        let key = entries.key_at(i);
        let value = entries.value_at(i);
        if added {
            diffs.push(Diff::Added(parent.to_owned(), key.clone(), value.clone()));
            assert(diffs.deep_view() =~= before.push(DiffView::Added(parent@, key@, value@)));
            assert(diffs.deep_view() =~= start + added_entries(parent@, entries@.take(i + 1)));
        } else {
            diffs.push(Diff::Removed(parent.to_owned(), key.clone(), value.clone()));
            assert(diffs.deep_view() =~= before.push(DiffView::Removed(parent@, key@, value@)));
            assert(diffs.deep_view() =~= start + removed_entries(parent@, entries@.take(i + 1)));
        }
        i += 1;
    }
    assert(entries@.take(i as int) =~= entries@);
}

/// The differences between two states of a mapping field.
pub fn compare_hashmap(parent: &str, old: &Option<Mapping>, new: &Option<Mapping>) -> (diffs: Vec<
    Diff,
>)
    ensures
        diffs.deep_view() == mapping_diff(parent@, old.deep_view(), new.deep_view()),
{
    let mut diffs: Vec<Diff> = Vec::new();
    let ghost start = diffs.deep_view();
    assert(start =~= Seq::<DiffView>::empty());
    match (old, new) {
        (None, Some(new_map)) => {
            push_entries(&mut diffs, parent, new_map, true);
            assert(diffs.deep_view() =~= added_entries(parent@, new_map@));
        },
        (Some(old_map), None) => {
            push_entries(&mut diffs, parent, old_map, false);
            assert(diffs.deep_view() =~= removed_entries(parent@, old_map@));
        },
        (Some(old_map), Some(new_map)) => {
            let mut i: usize = 0;
            assert(old_map@.take(0) =~= Entries::empty());
            while i < old_map.len()
                invariant
                    i <= old_map@.len(),
                    diffs.deep_view() == changed_entries(
                        parent@,
                        old_map@.take(i as int),
                        new_map@,
                    ),
                decreases old_map@.len() - i,
            {
                let ghost before = diffs.deep_view();
                proof {
                    assert(old_map@.take(i + 1).drop_last() =~= old_map@.take(i as int));
                    assert(old_map@.take(i + 1).last() == old_map@[i as int]);
                }
                let key = old_map.key_at(i);
                let old_value = old_map.value_at(i);
                match new_map.get(key.as_str()) {
                    None => {
                        diffs.push(
                            Diff::Removed(parent.to_owned(), key.clone(), old_value.clone()),
                        );
                        assert(diffs.deep_view() =~= before.push(
                            DiffView::Removed(parent@, key@, old_value@),
                        ));
                    },
                    Some(new_value) => {
                        if !(*new_value == *old_value) {
                            diffs.push(
                                Diff::Changed(
                                    parent.to_owned(),
                                    key.clone(),
                                    old_value.clone(),
                                    new_value.clone(),
                                ),
                            );
                            assert(diffs.deep_view() =~= before.push(
                                DiffView::Changed(parent@, key@, old_value@, new_value@),
                            ));
                        }
                    },
                }
                assert(diffs.deep_view() =~= changed_entries(
                    parent@,
                    old_map@.take(i + 1),
                    new_map@,
                ));
                i += 1;
            }
            assert(old_map@.take(i as int) =~= old_map@);
            let ghost changes = diffs.deep_view();
            let mut j: usize = 0;
            assert(new_map@.take(0) =~= Entries::empty());
            assert(diffs.deep_view() =~= changes + new_entries(
                parent@,
                old_map@,
                new_map@.take(0),
            ));
            while j < new_map.len()
                invariant
                    j <= new_map@.len(),
                    diffs.deep_view() == changes + new_entries(
                        parent@,
                        old_map@,
                        new_map@.take(j as int),
                    ),
                decreases new_map@.len() - j,
            {
                let ghost before = diffs.deep_view();
                proof {
                    assert(new_map@.take(j + 1).drop_last() =~= new_map@.take(j as int));
                    assert(new_map@.take(j + 1).last() == new_map@[j as int]);
                }
                let key = new_map.key_at(j);
                if !old_map.contains_key(key.as_str()) {
                    let new_value = new_map.value_at(j);
                    diffs.push(Diff::Added(parent.to_owned(), key.clone(), new_value.clone()));
                    assert(diffs.deep_view() =~= before.push(
                        DiffView::Added(parent@, key@, new_value@),
                    ));
                }
                assert(diffs.deep_view() =~= changes + new_entries(
                    parent@,
                    old_map@,
                    new_map@.take(j + 1),
                ));
                j += 1;
            }
            assert(new_map@.take(j as int) =~= new_map@);
        },
        (None, None) => {},
    }
    diffs
}

/// The difference between two states of a flag.
pub fn compare_bool(parent: &str, old: &Option<bool>, new: &Option<bool>) -> (diffs: Vec<Diff>)
    ensures
        diffs.deep_view() == flag_diff(parent@, *old, *new),
{
    let mut diffs: Vec<Diff> = Vec::new();
    assert(diffs.deep_view() =~= Seq::<DiffView>::empty());
    match (old, new) {
        (None, Some(new_val)) => {
            diffs.push(Diff::Added(parent.to_owned(), String::new(), bool_string(*new_val)));
        },
        (Some(old_val), None) => {
            diffs.push(Diff::Removed(parent.to_owned(), String::new(), bool_string(*old_val)));
        },
        (Some(old_val), Some(new_val)) => {
            if *old_val != *new_val {
                diffs.push(
                    Diff::Changed(
                        parent.to_owned(),
                        String::new(),
                        bool_string(*old_val),
                        bool_string(*new_val),
                    ),
                );
            }
        },
        (None, None) => {},
    }
    assert(diffs.deep_view() =~= flag_diff(parent@, *old, *new));
    diffs
}

/// Wraps the differences inside a group into one record, unless there are none.
fn wrap_nested(parent: &str, inner: Vec<Diff>) -> (diffs: Vec<Diff>)
    ensures
        diffs.deep_view() == nested(parent@, inner.deep_view()),
{
    let mut diffs: Vec<Diff> = Vec::new();
    assert(diffs.deep_view() =~= Seq::<DiffView>::empty());
    if inner.len() > 0 {
        let ghost inside = inner.deep_view();
        let record = Diff::Nested(parent.to_owned(), inner);
        proof {
            lemma_nested_view(record);
        }
        diffs.push(record);
        assert(diffs.deep_view() =~= seq![DiffView::Nested(parent@, inside)]);
    }
    diffs
}

/// The differences between two states of the prompt group.
pub fn compare_oh_my_posh(old: &Option<OhMyPosh>, new: &Option<OhMyPosh>) -> (diffs: Vec<Diff>)
    ensures
        diffs.deep_view() == oh_my_posh_diff(old.deep_view(), new.deep_view()),
{
    let mut inner: Vec<Diff> = Vec::new();
    assert(inner.deep_view() =~= Seq::<DiffView>::empty());
    let old_theme: Option<&String> = match old {
        Some(settings) => settings.theme.as_ref(),
        None => None,
    };
    let new_theme: Option<&String> = match new {
        Some(settings) => settings.theme.as_ref(),
        None => None,
    };
    match (old_theme, new_theme) {
        (None, Some(theme)) => {
            inner.push(Diff::Added("oh_my_posh".to_owned(), "theme".to_owned(), theme.clone()));
        },
        (Some(theme), None) => {
            inner.push(Diff::Removed("oh_my_posh".to_owned(), "theme".to_owned(), theme.clone()));
        },
        (Some(old_theme), Some(new_theme)) => {
            if !(*old_theme == *new_theme) {
                inner.push(
                    Diff::Changed(
                        "oh_my_posh".to_owned(),
                        "theme".to_owned(),
                        old_theme.clone(),
                        new_theme.clone(),
                    ),
                );
            }
        },
        (None, None) => {},
    }
    assert(inner.deep_view() =~= theme_diff(theme_of(old.deep_view()), theme_of(new.deep_view())));
    wrap_nested("oh_my_posh", inner)
}

/// The differences between two states of the SSH group.
pub fn compare_ssh_config(old: &Option<SshConfig>, new: &Option<SshConfig>) -> (diffs: Vec<Diff>)
    ensures
        diffs.deep_view() == ssh_diff(old.deep_view(), new.deep_view()),
{
    let mut inner: Vec<Diff> = Vec::new();
    assert(inner.deep_view() =~= Seq::<DiffView>::empty());
    let no_keys: Option<Vec<String>> = None;
    let old_port: Option<usize> = match old {
        Some(settings) => settings.port,
        None => None,
    };
    let new_port: Option<usize> = match new {
        Some(settings) => settings.port,
        None => None,
    };
    let old_keys: &Option<Vec<String>> = match old {
        Some(settings) => &settings.authorized_keys,
        None => &no_keys,
    };
    let new_keys: &Option<Vec<String>> = match new {
        Some(settings) => &settings.authorized_keys,
        None => &no_keys,
    };
    match (old_port, new_port) {
        (None, Some(port)) => {
            inner.push(Diff::Added("ssh".to_owned(), "port".to_owned(), decimal(port)));
        },
        (Some(port), None) => {
            inner.push(Diff::Removed("ssh".to_owned(), "port".to_owned(), decimal(port)));
        },
        (Some(old_port), Some(new_port)) => {
            if old_port != new_port {
                inner.push(
                    Diff::Changed(
                        "ssh".to_owned(),
                        "port".to_owned(),
                        decimal(old_port),
                        decimal(new_port),
                    ),
                );
            }
        },
        (None, None) => {},
    }
    assert(inner.deep_view() =~= port_diff(port_of(old.deep_view()), port_of(new.deep_view())));
    assert(old_keys.deep_view() == keys_of(old.deep_view()));
    assert(new_keys.deep_view() == keys_of(new.deep_view()));
    compare_list(&mut inner, "ssh", "authorized_keys", old_keys, new_keys);
    wrap_nested("ssh", inner)
}

/// Appends `more` to `diffs`.
fn extend(diffs: &mut Vec<Diff>, more: Vec<Diff>)
    ensures
        final(diffs).deep_view() == old(diffs).deep_view() + more.deep_view(),
{
    let ghost start = diffs.deep_view();
    let ghost added = more.deep_view();
    let mut more = more;
    diffs.append(&mut more);
    assert(diffs.deep_view() =~= start + added);
}

/// The differences between two snapshots.
pub fn compare_configurations(old: &Configuration, new: &Configuration) -> (diffs: Vec<Diff>)
    ensures
        diffs.deep_view() == configuration_diff(old@, new@),
        old@ == new@ ==> diffs.len() == 0,
{
    old.is_well_formed();
    proof {
        if old@ == new@ {
            lemma_diff_of_same_snapshot(old@);
        }
    }
    let mut diffs: Vec<Diff> = Vec::new();
    assert(diffs.deep_view() =~= Seq::<DiffView>::empty());

    extend(&mut diffs, compare_hashmap("stow", &old.stow, &new.stow));
    extend(&mut diffs, compare_hashmap("mise", &old.mise, &new.mise));
    extend(&mut diffs, compare_hashmap("nix", &old.nix, &new.nix));
    extend(&mut diffs, compare_hashmap("pkgx", &old.pkgx, &new.pkgx));
    extend(&mut diffs, compare_hashmap("curl", &old.curl, &new.curl));
    extend(&mut diffs, compare_hashmap("alias", &old.alias, &new.alias));

    extend(&mut diffs, compare_vec("apt-get", &old.apt_get, &new.apt_get));

    extend(&mut diffs, compare_bool("blesh", &old.blesh, &new.blesh));
    extend(&mut diffs, compare_bool("zoxide", &old.zoxide, &new.zoxide));
    extend(&mut diffs, compare_bool("tailscale", &old.tailscale, &new.tailscale));
    extend(&mut diffs, compare_bool("neofetch", &old.neofetch, &new.neofetch));
    extend(&mut diffs, compare_bool("doppler", &old.doppler, &new.doppler));

    extend(&mut diffs, compare_oh_my_posh(&old.oh_my_posh, &new.oh_my_posh));
    extend(&mut diffs, compare_ssh_config(&old.ssh, &new.ssh));

    assert(diffs.deep_view() =~= configuration_diff(old@, new@));
    diffs
}

/// No entry of a mapping with unique keys differs from the mapping itself.
proof fn lemma_changed_entries_same(parent: Text, entries: Entries, n: int)
    requires
        distinct_keys(entries),
        0 <= n <= entries.len(),
    ensures
        changed_entries(parent, entries.take(n), entries) == Seq::<DiffView>::empty(),
        new_entries(parent, entries, entries.take(n)) == Seq::<DiffView>::empty(),
    decreases n,
{
    if n > 0 {
        lemma_changed_entries_same(parent, entries, n - 1);
        assert(entries.take(n).drop_last() =~= entries.take(n - 1));
        assert(entries.take(n).last() == entries[n - 1]);
        lemma_lookup_own_entry(entries, n - 1);
        assert(changed_entries(parent, entries.take(n), entries) =~= Seq::<DiffView>::empty());
        assert(new_entries(parent, entries, entries.take(n)) =~= Seq::<DiffView>::empty());
    }
}

/// No item of a list is missing from the list itself.
proof fn lemma_only_in_same(items: Seq<Text>, n: int)
    requires
        0 <= n <= items.len(),
    ensures
        only_in(items.take(n), items) == Seq::<Text>::empty(),
    decreases n,
{
    if n > 0 {
        lemma_only_in_same(items, n - 1);
        assert(items.take(n).drop_last() =~= items.take(n - 1));
        assert(items.take(n).last() == items[n - 1]);
        assert(items.contains(items[n - 1]));
    }
}

/// A mapping field with unique keys does not differ from itself.
pub proof fn lemma_mapping_diff_same(parent: Text, field: Option<Entries>)
    requires
        valid_entries(field),
    ensures
        mapping_diff(parent, field, field) == Seq::<DiffView>::empty(),
{
    if let Some(entries) = field {
        lemma_changed_entries_same(parent, entries, entries.len() as int);
        assert(entries.take(entries.len() as int) =~= entries);
    }
}

/// A list field does not differ from itself.
pub proof fn lemma_list_diff_same(parent: Text, child: Text, field: Option<Seq<Text>>)
    ensures
        list_diff(parent, child, field, field) == Seq::<DiffView>::empty(),
{
    let items = items_of(field);
    lemma_only_in_same(items, items.len() as int);
    assert(items.take(items.len() as int) =~= items);
    assert(list_diff(parent, child, field, field) =~= Seq::<DiffView>::empty());
}

/// Idempotence: a snapshot does not differ from itself.
pub proof fn lemma_diff_of_same_snapshot(snapshot: ConfigurationView)
    requires
        snapshot.well_formed(),
    ensures
        configuration_diff(snapshot, snapshot) == Seq::<DiffView>::empty(),
{
    lemma_mapping_diff_same("stow"@, snapshot.stow);
    lemma_mapping_diff_same("mise"@, snapshot.mise);
    lemma_mapping_diff_same("nix"@, snapshot.nix);
    lemma_mapping_diff_same("pkgx"@, snapshot.pkgx);
    lemma_mapping_diff_same("curl"@, snapshot.curl);
    lemma_mapping_diff_same("alias"@, snapshot.alias);
    lemma_list_diff_same("apt-get"@, Seq::empty(), snapshot.apt_get);
    lemma_list_diff_same("ssh"@, "authorized_keys"@, keys_of(snapshot.ssh));
    assert(configuration_diff(snapshot, snapshot) =~= Seq::<DiffView>::empty());
}

/// A record as text: a line that starts with `+` for what is added, with `-` for what is
/// removed, both for what changed; the sub-field, where there is one, on a line of its own.
/// A group is its name, a colon, and each inner record on lines of its own.
pub open spec fn rendered(record: DiffView) -> Text
    decreases record,
{
    match record {
        DiffView::Added(parent, child, value) => if child.len() == 0 {
            "+ "@ + green(parent) + ": "@ + green(value)
        } else {
            "+ "@ + green(parent) + ":\n  + "@ + green(child) + ": "@ + green(value)
        },
        DiffView::Removed(parent, child, value) => if child.len() == 0 {
            "- "@ + magenta(parent) + ": "@ + magenta(value)
        } else {
            "- "@ + magenta(parent) + ":\n  - "@ + magenta(child) + ": "@ + magenta(value)
        },
        DiffView::Changed(parent, child, old, new) => if child.len() == 0 {
            "- "@ + magenta(parent) + ": "@ + magenta(old) + "\n+ "@ + green(parent) + ": "@
                + green(new)
        } else {
            "- "@ + magenta(parent) + ":\n  - "@ + magenta(child) + ": "@ + magenta(old)
                + "\n+ "@ + green(parent) + ":\n  + "@ + green(child) + ": "@ + green(new)
        },
        DiffView::Nested(parent, inner) => parent + ":"@ + rendered_inner(inner),
    }
}

/// The records inside a group as text: each starts on a new line, after two spaces.
pub open spec fn rendered_inner(records: Seq<DiffView>) -> Text
    decreases records,
{
    if records.len() == 0 {
        Seq::empty()
    } else {
        rendered_inner(records.drop_last()) + "\n  "@ + rendered(records.last())
    }
}

impl Diff {
    /// The record as text, for a terminal.
    pub fn render(&self) -> (out: String)
        ensures
            out@ == rendered(self@),
        decreases self,
    {
        proof {
            reveal_with_fuel(rendered, 2);
        }
        match self {
            Diff::Added(parent, child, value) => {
                let mut out = "+ ".to_owned();
                out.append(paint_green(parent.as_str()).as_str());
                if child.as_str().is_empty() {
                    out.append(": ");
                } else {
                    out.append(":\n  + ");
                    out.append(paint_green(child.as_str()).as_str());
                    out.append(": ");
                }
                out.append(paint_green(value.as_str()).as_str());
                out
            },
            Diff::Removed(parent, child, value) => {
                let mut out = "- ".to_owned();
                out.append(paint_magenta(parent.as_str()).as_str());
                if child.as_str().is_empty() {
                    out.append(": ");
                } else {
                    out.append(":\n  - ");
                    out.append(paint_magenta(child.as_str()).as_str());
                    out.append(": ");
                }
                out.append(paint_magenta(value.as_str()).as_str());
                out
            },
            Diff::Changed(parent, child, old_value, new_value) => {
                let mut out = "- ".to_owned();
                out.append(paint_magenta(parent.as_str()).as_str());
                if child.as_str().is_empty() {
                    out.append(": ");
                    out.append(paint_magenta(old_value.as_str()).as_str());
                    out.append("\n+ ");
                    out.append(paint_green(parent.as_str()).as_str());
                    out.append(": ");
                } else {
                    out.append(":\n  - ");
                    out.append(paint_magenta(child.as_str()).as_str());
                    out.append(": ");
                    out.append(paint_magenta(old_value.as_str()).as_str());
                    out.append("\n+ ");
                    out.append(paint_green(parent.as_str()).as_str());
                    out.append(":\n  + ");
                    out.append(paint_green(child.as_str()).as_str());
                    out.append(": ");
                }
                out.append(paint_green(new_value.as_str()).as_str());
                out
            },
            Diff::Nested(parent, diffs) => {
                proof {
                    lemma_nested_view(*self);
                }
                let ghost records = diffs.deep_view();
                let mut inside = String::new();
                let mut i: usize = 0;
                proof {
                    reveal_with_fuel(rendered_inner, 2);
                    assert(records.take(0) =~= Seq::<DiffView>::empty());
                }
                while i < diffs.len()
                    invariant
                        i <= diffs.len(),
                        records == diffs.deep_view(),
                        self is Nested,
                        self->Nested_1 == diffs,
                        inside@ == rendered_inner(records.take(i as int)),
                    decreases diffs.len() - i,
                {
                    proof {
                        reveal_with_fuel(rendered_inner, 2);
                        assert(records.take(i + 1).drop_last() =~= records.take(i as int));
                        assert(records.take(i + 1).last() == diffs[i as int].deep_view());
                    }
                    inside.append("\n  ");
                    inside.append(diffs[i].render().as_str());
                    i += 1;
                }
                proof {
                    assert(records.take(i as int) =~= records);
                }
                let mut out = parent.clone();
                out.append(":");
                out.append(inside.as_str());
                out
            },
        }
    }
}

/// An entry is in a mapping with unique keys exactly when it is what the mapping holds
/// under the entry's key.
pub proof fn lemma_entry_is_looked_up(entries: Entries, key: Text, value: Text)
    requires
        distinct_keys(entries),
    ensures
        entries.contains((key, value)) <==> lookup(entries, key) == Some(value),
{
    lemma_position(entries, key);
    if entries.contains((key, value)) {
        let i = choose|i: int| 0 <= i < entries.len() && entries[i] == (key, value);
        lemma_lookup_own_entry(entries, i);
    }
    if lookup(entries, key) == Some(value) {
        let i = position(entries, key).unwrap();
        assert(entries[i] == (key, value));
    }
}

/// A record is among those for the entries of `old` exactly when one of the entries gives it.
proof fn lemma_changed_entries_contains(parent: Text, old: Entries, new: Entries, record: DiffView)
    ensures
        changed_entries(parent, old, new).contains(record) <==> exists|i: int|
            0 <= i < old.len() && #[trigger] entry_change(parent, old[i], new).contains(record),
    decreases old.len(),
{
    if old.len() > 0 {
        let shorter = old.drop_last();
        let before = changed_entries(parent, shorter, new);
        let last = entry_change(parent, old.last(), new);
        let all = changed_entries(parent, old, new);
        lemma_changed_entries_contains(parent, shorter, new, record);
        assert(all == before + last);
        if all.contains(record) {
            let k = choose|k: int| 0 <= k < all.len() && all[k] == record;
            if k < before.len() {
                assert(before[k] == record);
                assert(before.contains(record));
                let i = choose|i: int|
                    0 <= i < shorter.len() && #[trigger] entry_change(
                        parent,
                        shorter[i],
                        new,
                    ).contains(record);
                assert(shorter[i] == old[i]);
                assert(entry_change(parent, old[i], new).contains(record));
            } else {
                assert(last[k - before.len()] == record);
                assert(last.contains(record));
                assert(entry_change(parent, old[old.len() - 1], new).contains(record));
            }
        }
        if exists|i: int|
            0 <= i < old.len() && #[trigger] entry_change(parent, old[i], new).contains(record) {
            let i = choose|i: int|
                0 <= i < old.len() && #[trigger] entry_change(parent, old[i], new).contains(
                    record,
                );
            if i < shorter.len() {
                assert(shorter[i] == old[i]);
                assert(entry_change(parent, shorter[i], new).contains(record));
                assert(before.contains(record));
                let k = choose|k: int| 0 <= k < before.len() && before[k] == record;
                assert(all[k] == record);
            } else {
                let k = choose|k: int| 0 <= k < last.len() && last[k] == record;
                assert(all[before.len() + k] == record);
            }
        }
    }
}

/// A record is among those for the new entries exactly when one of the entries gives it.
proof fn lemma_new_entries_contains(parent: Text, old: Entries, new: Entries, record: DiffView)
    ensures
        new_entries(parent, old, new).contains(record) <==> exists|i: int|
            0 <= i < new.len() && #[trigger] entry_addition(parent, new[i], old).contains(record),
    decreases new.len(),
{
    if new.len() > 0 {
        let shorter = new.drop_last();
        let before = new_entries(parent, old, shorter);
        let last = entry_addition(parent, new.last(), old);
        let all = new_entries(parent, old, new);
        lemma_new_entries_contains(parent, old, shorter, record);
        assert(all == before + last);
        if all.contains(record) {
            let k = choose|k: int| 0 <= k < all.len() && all[k] == record;
            if k < before.len() {
                assert(before[k] == record);
                assert(before.contains(record));
                let i = choose|i: int|
                    0 <= i < shorter.len() && #[trigger] entry_addition(
                        parent,
                        shorter[i],
                        old,
                    ).contains(record);
                assert(shorter[i] == new[i]);
                assert(entry_addition(parent, new[i], old).contains(record));
            } else {
                assert(last[k - before.len()] == record);
                assert(last.contains(record));
                assert(entry_addition(parent, new[new.len() - 1], old).contains(record));
            }
        }
        if exists|i: int|
            0 <= i < new.len() && #[trigger] entry_addition(parent, new[i], old).contains(record) {
            let i = choose|i: int|
                0 <= i < new.len() && #[trigger] entry_addition(parent, new[i], old).contains(
                    record,
                );
            if i < shorter.len() {
                assert(shorter[i] == new[i]);
                assert(entry_addition(parent, shorter[i], old).contains(record));
                assert(before.contains(record));
                let k = choose|k: int| 0 <= k < before.len() && before[k] == record;
                assert(all[k] == record);
            } else {
                let k = choose|k: int| 0 <= k < last.len() && last[k] == record;
                assert(all[before.len() + k] == record);
            }
        }
    }
}

/// The differences between two present states of a mapping, key by key: a key is reported as
/// removed exactly where only the old state has it, as added exactly where only the new state
/// has it, and as changed exactly where both have it with different values. A key that both
/// hold with one value is not reported.
pub proof fn lemma_mapping_diff_by_key(
    parent: Text,
    old: Entries,
    new: Entries,
    key: Text,
    value: Text,
    other: Text,
)
    requires
        distinct_keys(old),
        distinct_keys(new),
    ensures
        mapping_diff(parent, Some(old), Some(new)).contains(DiffView::Removed(parent, key, value))
            <==> lookup(old, key) == Some(value) && lookup(new, key) is None,
        mapping_diff(parent, Some(old), Some(new)).contains(DiffView::Added(parent, key, value))
            <==> lookup(new, key) == Some(value) && lookup(old, key) is None,
        mapping_diff(parent, Some(old), Some(new)).contains(
            DiffView::Changed(parent, key, value, other),
        ) <==> lookup(old, key) == Some(value) && lookup(new, key) == Some(other) && value
            != other,
{
    let changes = changed_entries(parent, old, new);
    let additions = new_entries(parent, old, new);
    let all = mapping_diff(parent, Some(old), Some(new));
    assert(all == changes + additions);
    let removed = DiffView::Removed(parent, key, value);
    let added = DiffView::Added(parent, key, value);
    let changed = DiffView::Changed(parent, key, value, other);
    lemma_concat_contains(changes, additions, removed);
    lemma_concat_contains(changes, additions, added);
    lemma_concat_contains(changes, additions, changed);
    lemma_changed_entries_contains(parent, old, new, removed);
    lemma_changed_entries_contains(parent, old, new, added);
    lemma_changed_entries_contains(parent, old, new, changed);
    lemma_new_entries_contains(parent, old, new, removed);
    lemma_new_entries_contains(parent, old, new, added);
    lemma_new_entries_contains(parent, old, new, changed);
    lemma_entry_is_looked_up(old, key, value);
    lemma_entry_is_looked_up(new, key, value);
    lemma_position(old, key);
    lemma_position(new, key);

    assert forall|i: int| 0 <= i < old.len() implies (#[trigger] entry_change(
        parent,
        old[i],
        new,
    ).contains(removed) <==> old[i] == (key, value) && lookup(new, key) is None) by {
        let given = entry_change(parent, old[i], new);
        if given.contains(removed) {
            let k = choose|k: int| 0 <= k < given.len() && given[k] == removed;
            assert(given[k] == removed);
        }
        if old[i] == (key, value) && lookup(new, key) is None {
            assert(given[0] == removed);
        }
    }
    assert forall|i: int| 0 <= i < old.len() implies (#[trigger] entry_change(
        parent,
        old[i],
        new,
    ).contains(changed) <==> old[i] == (key, value) && lookup(new, key) == Some(other) && value
        != other) by {
        let given = entry_change(parent, old[i], new);
        if given.contains(changed) {
            let k = choose|k: int| 0 <= k < given.len() && given[k] == changed;
            assert(given[k] == changed);
        }
        if old[i] == (key, value) && lookup(new, key) == Some(other) && value != other {
            assert(given[0] == changed);
        }
    }
    assert forall|i: int| 0 <= i < old.len() implies !(#[trigger] entry_change(
        parent,
        old[i],
        new,
    ).contains(added)) by {
        let given = entry_change(parent, old[i], new);
        if given.contains(added) {
            let k = choose|k: int| 0 <= k < given.len() && given[k] == added;
            assert(given[k] == added);
        }
    }
    assert forall|i: int| 0 <= i < new.len() implies (#[trigger] entry_addition(
        parent,
        new[i],
        old,
    ).contains(added) <==> new[i] == (key, value) && lookup(old, key) is None) by {
        let given = entry_addition(parent, new[i], old);
        if given.contains(added) {
            let k = choose|k: int| 0 <= k < given.len() && given[k] == added;
            assert(given[k] == added);
        }
        if new[i] == (key, value) && lookup(old, key) is None {
            assert(given[0] == added);
        }
    }
    assert forall|i: int| 0 <= i < new.len() implies !(#[trigger] entry_addition(
        parent,
        new[i],
        old,
    ).contains(removed)) && !entry_addition(parent, new[i], old).contains(changed) by {
        let given = entry_addition(parent, new[i], old);
        if given.contains(removed) {
            let k = choose|k: int| 0 <= k < given.len() && given[k] == removed;
            assert(given[k] == removed);
        }
        if given.contains(changed) {
            let k = choose|k: int| 0 <= k < given.len() && given[k] == changed;
            assert(given[k] == changed);
        }
    }

    if lookup(old, key) == Some(value) {
        let i = position(old, key).unwrap();
        assert(old[i] == (key, value));
        assert(entry_change(parent, old[i], new).contains(removed) <==> lookup(new, key) is None);
        assert(entry_change(parent, old[i], new).contains(changed) <==> lookup(new, key) == Some(
            other,
        ) && value != other);
    }
    if lookup(new, key) == Some(value) {
        let i = position(new, key).unwrap();
        assert(new[i] == (key, value));
        assert(entry_addition(parent, new[i], old).contains(added) <==> lookup(old, key) is None);
    }
}

/// A value is in two sequences laid end to end exactly when it is in one of them.
proof fn lemma_concat_contains(a: Seq<DiffView>, b: Seq<DiffView>, record: DiffView)
    ensures
        (a + b).contains(record) <==> a.contains(record) || b.contains(record),
{
    let all = a + b;
    if all.contains(record) {
        let k = choose|k: int| 0 <= k < all.len() && all[k] == record;
        if k < a.len() {
            assert(a[k] == record);
        } else {
            assert(b[k - a.len()] == record);
        }
    }
    if a.contains(record) {
        let k = choose|k: int| 0 <= k < a.len() && a[k] == record;
        assert(all[k] == record);
    }
    if b.contains(record) {
        let k = choose|k: int| 0 <= k < b.len() && b[k] == record;
        assert(all[a.len() + k] == record);
    }
}

/// What `only_in` keeps: the items of `a` that `b` lacks, and each of them once.
pub proof fn lemma_only_in(a: Seq<Text>, b: Seq<Text>)
    ensures
        forall|item: Text|
            #[trigger] only_in(a, b).contains(item) <==> a.contains(item) && !b.contains(item),
        only_in(a, b).no_duplicates(),
    decreases a.len(),
{
    if a.len() > 0 {
        let shorter = a.drop_last();
        let last = a.last();
        let before = only_in(shorter, b);
        let kept = only_in(a, b);
        lemma_only_in(shorter, b);
        assert forall|item: Text| #[trigger]
            kept.contains(item) <==> a.contains(item) && !b.contains(item) by {
            assert(before.contains(item) <==> shorter.contains(item) && !b.contains(item));
            if kept.contains(item) {
                let k = choose|k: int| 0 <= k < kept.len() && kept[k] == item;
                if k < before.len() {
                    assert(before[k] == item);
                    assert(before.contains(item));
                    let i = choose|i: int| 0 <= i < shorter.len() && shorter[i] == item;
                    assert(a[i] == item);
                } else {
                    assert(a[a.len() - 1] == item);
                }
            }
            if a.contains(item) && !b.contains(item) {
                let i = choose|i: int| 0 <= i < a.len() && a[i] == item;
                if i < shorter.len() {
                    assert(shorter[i] == item);
                    assert(shorter.contains(item));
                    assert(before.contains(item));
                    let k = choose|k: int| 0 <= k < before.len() && before[k] == item;
                    assert(kept[k] == item);
                } else if shorter.contains(item) {
                    assert(before.contains(item));
                    let k = choose|k: int| 0 <= k < before.len() && before[k] == item;
                    assert(kept[k] == item);
                } else {
                    assert(kept[kept.len() - 1] == item);
                }
            }
        }
        assert forall|i: int, j: int| 0 <= i < j < kept.len() implies kept[i] != kept[j] by {
            if j < before.len() {
                assert(before[i] != before[j]);
            } else {
                assert(before[i] == kept[i]);
                assert(before.contains(before[i]));
                assert(shorter.contains(before[i]));
            }
        }
    }
}

/// The differences between two states of a list, item by item: an item is reported as added
/// exactly where only the new state has it, as removed exactly where only the old state has
/// it, and no item is reported twice on either side.
pub proof fn lemma_list_diff_by_item(
    parent: Text,
    child: Text,
    old: Option<Seq<Text>>,
    new: Option<Seq<Text>>,
    item: Text,
)
    ensures
        list_diff(parent, child, old, new).contains(DiffView::Added(parent, child, item))
            <==> items_of(new).contains(item) && !items_of(old).contains(item),
        list_diff(parent, child, old, new).contains(DiffView::Removed(parent, child, item))
            <==> items_of(old).contains(item) && !items_of(new).contains(item),
        only_in(items_of(new), items_of(old)).no_duplicates(),
        only_in(items_of(old), items_of(new)).no_duplicates(),
{
    let before = items_of(old);
    let after = items_of(new);
    lemma_only_in(after, before);
    lemma_only_in(before, after);
    let additions = added_items(parent, child, only_in(after, before));
    let removals = removed_items(parent, child, only_in(before, after));
    let added = DiffView::Added(parent, child, item);
    let removed = DiffView::Removed(parent, child, item);
    lemma_concat_contains(additions, removals, added);
    lemma_concat_contains(additions, removals, removed);
    if additions.contains(added) {
        let k = choose|k: int| 0 <= k < additions.len() && additions[k] == added;
        assert(only_in(after, before)[k] == item);
    }
    if only_in(after, before).contains(item) {
        let k = choose|k: int|
            0 <= k < only_in(after, before).len() && only_in(after, before)[k] == item;
        assert(additions[k] == added);
    }
    if removals.contains(removed) {
        let k = choose|k: int| 0 <= k < removals.len() && removals[k] == removed;
        assert(only_in(before, after)[k] == item);
    }
    if only_in(before, after).contains(item) {
        let k = choose|k: int|
            0 <= k < only_in(before, after).len() && only_in(before, after)[k] == item;
        assert(removals[k] == removed);
    }
    if additions.contains(removed) {
        let k = choose|k: int| 0 <= k < additions.len() && additions[k] == removed;
        assert(additions[k] == removed);
    }
    if removals.contains(added) {
        let k = choose|k: int| 0 <= k < removals.len() && removals[k] == added;
        assert(removals[k] == added);
    }
}

} // verus!
