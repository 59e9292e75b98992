//! Importing the assets of a legacy bundle: the valve category, one machine per zone and
//! one item per valve.
use vstd::prelude::*;

use crate::bundle::{ImportAdditions, LegacyBundle, LegacyOrder, LegacyValve, LEGACY_CATEGORY_ID};
use crate::fingerprint::{hash, hash_text};
use crate::legacy::{count_of_machine, of_machine, push_value, value_of, value_texts, valve_field_definitions, valve_fields};
use crate::policy::{normalize_reference, normalize_tag, normalized_identifier};
use crate::lookup::{first_index, is_first, lemma_first_index, lemma_first_index_exists, some_has_id, contains_id};
use crate::model::{
    copy_text, ComplexityLevel, FieldValue, InstalledComponent, ItemCategory, Machine, MachineItem,
    MaintenanceGuide, OperationalStatus, ReplacementSpecification,
};
use crate::text::{
    blank, chars_of, clean_optional, clean_spec, concat2, concat3, is_prefix, lemma_trim_empty_iff_blank, opt_view, owned, starts_with,
    str_equal, to_uppercase, trim, trimmed, uppercase_of,
};
use crate::text_order::{is_sorted_set, sorted_set, views};

verus! {

/// The category every imported valve belongs to.
pub open spec fn is_legacy_category(c: ItemCategory, now: u64) -> bool {
    &&& c.id@ == LEGACY_CATEGORY_ID@
    &&& c.code@ == "VALVE"@
    &&& c.code_normalized@ == "VALVE"@
    &&& c.name@ == "Valve"@
    &&& opt_view(c.description) == Some("Category imported from the previous PROEXEL model"@)
    &&& opt_view(c.icon) == Some("circle-dot"@)
    &&& c.default_complexity_level.value() == 3
    &&& c.maintenance_guide.version == 1
    &&& c.maintenance_guide.steps@.len() == 0
    &&& valve_fields(c.custom_field_definitions@, "legacy-field-"@)
    &&& c.recommended_parts@.len() == 0
    &&& c.active
    &&& c.created_at_ms == now
    &&& c.updated_at_ms == now
}

/// Adds the valve category unless the state or the additions already hold it.
pub fn ensure_legacy_category(
    categories: &Vec<ItemCategory>,
    added: &mut ImportAdditions,
    now: u64,
)
    ensures
        if some_has_id(categories@ + old(added).item_categories@, LEGACY_CATEGORY_ID@) {
            *final(added) == *old(added)
        } else {
            &&& *final(added) == (ImportAdditions {
                item_categories: final(added).item_categories,
                ..*old(added)
            })
            &&& final(added).item_categories@ == old(added).item_categories@.push(
                final(added).item_categories@.last(),
            )
            &&& is_legacy_category(final(added).item_categories@.last(), now)
        },
{
    let ghost all = categories@ + added.item_categories@;
    let in_state = contains_id(categories, LEGACY_CATEGORY_ID);
    let in_added = contains_id(&added.item_categories, LEGACY_CATEGORY_ID);
    proof {
        if in_state {
            let k = choose|k: int| 0 <= k < categories@.len() && (#[trigger] categories@[k]).id@
                == LEGACY_CATEGORY_ID@;
            assert(all[k] == categories@[k]);
        }
        if in_added {
            let k = choose|k: int| 0 <= k < added.item_categories@.len() && (
            #[trigger] added.item_categories@[k]).id@ == LEGACY_CATEGORY_ID@;
            assert(all[categories@.len() + k] == added.item_categories@[k]);
        }
        if some_has_id(all, LEGACY_CATEGORY_ID@) {
            let k = choose|k: int| 0 <= k < all.len() && (#[trigger] all[k]).id@ == LEGACY_CATEGORY_ID@;
            if k < categories@.len() {
                assert(categories@[k] == all[k]);
            } else {
                assert(added.item_categories@[k - categories@.len()] == all[k]);
            }
        }
    }
    if in_state || in_added {
        return;
    }
    let category = ItemCategory {
        id: owned(LEGACY_CATEGORY_ID),
        code: owned("VALVE"),
        code_normalized: owned("VALVE"),
        name: owned("Valve"),
        description: Some(owned("Category imported from the previous PROEXEL model")),
        icon: Some(owned("circle-dot")),
        default_complexity_level: ComplexityLevel::intermediate(),
        maintenance_guide: MaintenanceGuide { version: 1, steps: Vec::new() },
        custom_field_definitions: valve_field_definitions("legacy-field-"),
        recommended_parts: Vec::new(),
        active: true,
        created_at_ms: now,
        updated_at_ms: now,
    };
    added.item_categories.push(category);
}

/// The zones of a bundle, trimmed, from its valves and then its orders, without blank
/// ones.
pub open spec fn bundle_zones(valves: Seq<LegacyValve>, orders: Seq<LegacyOrder>) -> Seq<Seq<char>> {
    (valves.map_values(|v: LegacyValve| trim(v.zone@)) + orders.map_values(
        |o: LegacyOrder| trim(o.zone@),
    )).filter(|z: Seq<char>| z.len() > 0)
}

/// `m` is a machine generated for the zone whose uppercase spelling is `key`: its own
/// zone reads `key` uppercased and its code starts with `LEGACY-`.
pub open spec fn is_zone_machine_for(m: Machine, key: Seq<char>) -> bool {
    uppercase_of(m.zone@) == key && is_prefix("LEGACY-"@, m.code@)
}

/// The test "generated machine of zone key `key`".
pub open spec fn zone_machine_test(key: Seq<char>) -> spec_fn(Machine) -> bool {
    |m: Machine| is_zone_machine_for(m, key)
}

/// The position of the generated machine of a zone (trimmed and uppercased before the
/// lookup), if there is one.
pub open spec fn machine_for_zone(machines: Seq<Machine>, zone: Seq<char>) -> Option<int> {
    first_index(machines, zone_machine_test(uppercase_of(trim(zone))))
}

/// Finds the generated machine of a zone.
pub fn find_machine_for_zone(machines: &Vec<Machine>, zone: &str) -> (r: Option<usize>)
    ensures
        match r {
            Some(i) => machine_for_zone(machines@, zone@) == Some(i as int) && i < machines@.len(),
            None => machine_for_zone(machines@, zone@) is None,
        },
{
    let t = trimmed(zone);
    let key = to_uppercase(t.as_str());
    let ghost p = zone_machine_test(key@);
    let mut i: usize = 0;
    while i < machines.len()
        invariant
            i <= machines@.len(),
            p == zone_machine_test(key@),
            key@ == uppercase_of(trim(zone@)),
            forall|j: int| 0 <= j < i ==> !p(#[trigger] machines@[j]),
        decreases machines@.len() - i,
    {
        let z = to_uppercase(machines[i].zone.as_str());
        if str_equal(z.as_str(), key.as_str()) && starts_with(machines[i].code.as_str(), "LEGACY-") {
            proof {
                assert(is_first(machines@, p, i as int));
                lemma_first_index(machines@, p);
            }
            return Some(i);
        }
        i += 1;
    }
    proof {
        lemma_first_index(machines@, p);
    }
    None
}

/// Some machine of `machines` is the generated machine of zone key `key`.
pub open spec fn has_zone_machine(machines: Seq<Machine>, key: Seq<char>) -> bool {
    exists|k: int| 0 <= k < machines.len() && is_zone_machine_for(#[trigger] machines[k], key)
}

fn any_zone_machine(machines: &Vec<Machine>, key: &str) -> (r: bool)
    ensures
        r == has_zone_machine(machines@, key@),
{
    let mut i: usize = 0;
    while i < machines.len()
        invariant
            i <= machines@.len(),
            forall|j: int| 0 <= j < i ==> !is_zone_machine_for(#[trigger] machines@[j], key@),
        decreases machines@.len() - i,
    {
        let z = to_uppercase(machines[i].zone.as_str());
        if str_equal(z.as_str(), key) && starts_with(machines[i].code.as_str(), "LEGACY-") {
            assert(is_zone_machine_for(machines@[i as int], key@));
            return true;
        }
        i += 1;
    }
    false
}

/// The zones that get a machine, in order: each zone of `zones` whose uppercase spelling
/// has no generated machine among `machines` nor among the zones taken before it.
pub open spec fn zones_taken(machines: Seq<Machine>, zones: Seq<Seq<char>>) -> Seq<Seq<char>>
    decreases zones.len(),
{
    if zones.len() == 0 {
        Seq::empty()
    } else {
        let prev = zones_taken(machines, zones.drop_last());
        let key = uppercase_of(zones.last());
        if has_zone_machine(machines, key) || exists|k: int|
            0 <= k < prev.len() && uppercase_of(#[trigger] prev[k]) == key {
            prev
        } else {
            prev.push(zones.last())
        }
    }
}

/// `m` is the machine generated for zone `zone`.
pub open spec fn is_legacy_zone_machine(m: Machine, zone: Seq<char>, now: u64) -> bool {
    let h = hash_text(uppercase_of(zone));
    &&& m.id@ == "legacy-machine-"@ + h
    &&& m.code@ == "LEGACY-"@ + h.take(8)
    &&& m.code_normalized@ == "LEGACY-"@ + h.take(8)
    &&& m.name@ == "Legacy assets - "@ + zone
    &&& opt_view(m.description) == Some("Machine generated while migrating legacy zone assets"@)
    &&& m.zone@ == zone
    &&& m.location is None
    &&& m.manufacturer is None
    &&& m.model is None
    &&& m.serial_number is None
    &&& m.status == OperationalStatus::Unknown
    &&& m.main_photo_id is None
    &&& m.active
    &&& m.created_at_ms == now
    &&& m.updated_at_ms == now
}

/// The sorted set of the bundle's zones (iterating a `BTreeSet` of them).
pub open spec fn sorted_bundle_zones(valves: Seq<LegacyValve>, orders: Seq<LegacyOrder>) -> Seq<Seq<char>> {
    choose|zs: Seq<Seq<char>>| is_sorted_set(bundle_zones(valves, orders), zs)
}

fn zone_texts(bundle: &LegacyBundle) -> (r: Vec<String>)
    ensures
        views(r@) == bundle_zones(bundle.valves@, bundle.orders@),
{
    let ghost vz = bundle.valves@.map_values(|v: LegacyValve| trim(v.zone@));
    let ghost oz = bundle.orders@.map_values(|o: LegacyOrder| trim(o.zone@));
    let ghost p = |z: Seq<char>| z.len() > 0;
    let mut out: Vec<String> = Vec::new();
    let mut i: usize = 0;
    while i < bundle.valves.len()
        invariant
            i <= bundle.valves@.len(),
            vz == bundle.valves@.map_values(|v: LegacyValve| trim(v.zone@)),
            p == (|z: Seq<char>| z.len() > 0),
            views(out@) == vz.take(i as int).filter(p),
        decreases bundle.valves@.len() - i,
    {
        proof {
            let t = vz.take(i + 1);
            assert(t.drop_last() == vz.take(i as int));
            reveal(Seq::filter);
        }
        proof {
            lemma_trim_empty_iff_blank(bundle.valves@[i as int].zone@);
        }
        if !blank(bundle.valves[i].zone.as_str()) {
            out.push(trimmed(bundle.valves[i].zone.as_str()));
        }
        i += 1;
    }
    assert(vz.take(i as int) == vz);
    let mut j: usize = 0;
    while j < bundle.orders.len()
        invariant
            j <= bundle.orders@.len(),
            vz == bundle.valves@.map_values(|v: LegacyValve| trim(v.zone@)),
            oz == bundle.orders@.map_values(|o: LegacyOrder| trim(o.zone@)),
            p == (|z: Seq<char>| z.len() > 0),
            views(out@) == (vz + oz.take(j as int)).filter(p),
        decreases bundle.orders@.len() - j,
    {
        proof {
            let t = vz + oz.take(j + 1);
            assert(t.drop_last() == vz + oz.take(j as int));
            reveal(Seq::filter);
        }
        proof {
            lemma_trim_empty_iff_blank(bundle.orders@[j as int].zone@);
        }
        if !blank(bundle.orders[j].zone.as_str()) {
            out.push(trimmed(bundle.orders[j].zone.as_str()));
        }
        j += 1;
    }
    assert(vz + oz.take(j as int) == vz + oz);
    out
}

fn legacy_zone_machine(zone: &str, now: u64) -> (r: Machine)
    ensures
        is_legacy_zone_machine(r, zone@, now),
{
    let key = to_uppercase(zone);
    let h = hash(key.as_str());
    proof {
        crate::fingerprint::lemma_hex_digits_len(
            crate::fingerprint::fnv1a(vstd::utf8::encode_utf8(key@)) as int,
            16,
        );
    }
    let digits = crate::text::chars_of(h.as_str());
    let short = crate::text::string_of_range(&digits, 0, 8);
    Machine {
        id: concat2("legacy-machine-", h.as_str()),
        code: concat2("LEGACY-", short.as_str()),
        code_normalized: concat2("LEGACY-", short.as_str()),
        name: concat2("Legacy assets - ", zone),
        description: Some(owned("Machine generated while migrating legacy zone assets")),
        zone: owned(zone),
        location: None,
        manufacturer: None,
        model: None,
        serial_number: None,
        status: OperationalStatus::Unknown,
        main_photo_id: None,
        active: true,
        created_at_ms: now,
        updated_at_ms: now,
    }
}

/// Adds a machine for each zone of the bundle, taken in the order of the zone texts, whose
/// uppercase spelling has no generated machine yet.
pub fn import_machines(bundle: &LegacyBundle, machines: &Vec<Machine>, added: &mut ImportAdditions, now: u64)
    ensures
        *final(added) == (ImportAdditions { machines: final(added).machines, ..*old(added) }),
        ({
            let zs = zones_taken(
                machines@ + old(added).machines@,
                sorted_bundle_zones(bundle.valves@, bundle.orders@),
            );
            let n = old(added).machines@.len();
            &&& final(added).machines@.len() == n + zs.len()
            &&& final(added).machines@.take(n as int) == old(added).machines@
            &&& forall|k: int|
                0 <= k < zs.len() ==> is_legacy_zone_machine(
                    #[trigger] final(added).machines@[n + k],
                    zs[k],
                    now,
                )
        }),
{
    let texts = zone_texts(bundle);
    let zones = sorted_set(&texts);
    let ghost zv = views(zones@);
    proof {
        let all = bundle_zones(bundle.valves@, bundle.orders@);
        assert(is_sorted_set(all, zv));
        let c = sorted_bundle_zones(bundle.valves@, bundle.orders@);
        assert(is_sorted_set(all, c));
        crate::text_order::lemma_sorted_set_unique(c, zv);
        reveal_strlit("LEGACY-");
    }
    let ghost start = *added;
    let ghost n = added.machines@.len();
    let ghost existing = machines@ + added.machines@;
    let mut i: usize = 0;
    while i < zones.len()
        invariant
            i <= zones@.len(),
            zv == views(zones@),
            zv == sorted_bundle_zones(bundle.valves@, bundle.orders@),
            n == start.machines@.len(),
            existing == machines@ + start.machines@,
            "LEGACY-"@.len() == 7,
            *added == (ImportAdditions { machines: added.machines, ..start }),
            added.machines@.len() == n + zones_taken(existing, zv.take(i as int)).len(),
            added.machines@.take(n as int) == start.machines@,
            forall|k: int|
                0 <= k < zones_taken(existing, zv.take(i as int)).len() ==> is_legacy_zone_machine(
                    #[trigger] added.machines@[n + k],
                    zones_taken(existing, zv.take(i as int))[k],
                    now,
                ),
        decreases zones@.len() - i,
    {
        let ghost prev = zones_taken(existing, zv.take(i as int));
        let z = &zones[i];
        let key = to_uppercase(z.as_str());
        proof {
            let t = zv.take(i + 1);
            assert(t.drop_last() == zv.take(i as int));
            assert(t.last() == z@);
        }
        let in_state = any_zone_machine(machines, key.as_str());
        let in_added = any_zone_machine(&added.machines, key.as_str());
        proof {
            let am = added.machines@;
            assert(am == start.machines@ + am.skip(n as int));
            if has_zone_machine(existing, key@) {
                let k = choose|k: int| 0 <= k < existing.len() && is_zone_machine_for(#[trigger] existing[k], key@);
                if k < machines@.len() {
                    assert(machines@[k] == existing[k]);
                } else {
                    assert(am[k - machines@.len()] == existing[k]);
                }
            }
            if in_state {
                let k = choose|k: int| 0 <= k < machines@.len() && is_zone_machine_for(#[trigger] machines@[k], key@);
                assert(existing[k] == machines@[k]);
            }
            if in_added {
                let k = choose|k: int| 0 <= k < am.len() && is_zone_machine_for(#[trigger] am[k], key@);
                if k < n {
                    assert(existing[machines@.len() + k] == am[k]);
                } else {
                    assert(is_legacy_zone_machine(am[n + (k - n)], prev[k - n], now));
                    assert(uppercase_of(prev[k - n]) == key@);
                }
            }
            if exists|k: int| 0 <= k < prev.len() && uppercase_of(#[trigger] prev[k]) == key@ {
                let k = choose|k: int| 0 <= k < prev.len() && uppercase_of(#[trigger] prev[k]) == key@;
                let m = am[n + k];
                assert(is_legacy_zone_machine(m, prev[k], now));
                assert(m.code@.take(7) == "LEGACY-"@);
                assert(is_zone_machine_for(m, key@));
            }
        }
        if !in_state && !in_added {
            let m = legacy_zone_machine(z.as_str(), now);
            let ghost before = added.machines@;
            added.machines.push(m);
            proof {
                assert(added.machines@ == before.push(m));
                assert(added.machines@.take(n as int) == start.machines@);
                let now_taken = zones_taken(existing, zv.take(i + 1));
                assert(now_taken == prev.push(z@));
                assert forall|k: int| 0 <= k < now_taken.len() implies is_legacy_zone_machine(
                    #[trigger] added.machines@[n + k],
                    now_taken[k],
                    now,
                ) by {
                    if k < prev.len() {
                        assert(added.machines@[n + k] == before[n + k]);
                    }
                }
            }
        }
        i += 1;
    }
    proof {
        assert(zv.take(i as int) == zv);
    }
}

/// The custom values of an imported valve, by key in alphabetical order.
pub open spec fn bundle_valve_values(v: LegacyValve) -> Seq<(Seq<char>, Option<Seq<char>>)> {
    value_of("actuator"@, v.actuator) + value_of("dn"@, v.dn) + value_of(
        "last_kit_changed_at"@,
        v.last_kit_changed_at,
    ) + value_of("last_maintenance_at"@, v.last_maintenance_at) + value_of(
        "manufactured_at"@,
        v.manufactured_at,
    ) + value_of("seat"@, v.seat) + value_of("valve_type"@, v.valve_type)
}

/// The part number an imported valve's kit reference gives: the normalized reference,
/// unless it is empty.
pub open spec fn kit_part(kit: Option<String>) -> Option<Seq<char>> {
    match kit {
        Some(k) => if normalized_identifier(k@).len() > 0 {
            Some(normalized_identifier(k@))
        } else {
            None
        },
        None => None,
    }
}

/// A planned item: the valve, the identifier of its machine, its tag and its position.
pub type ItemEntry = (LegacyValve, Seq<char>, Seq<char>, u32);

/// The test "planned for machine `mid`".
pub open spec fn entry_of_machine(mid: Seq<char>) -> spec_fn(ItemEntry) -> bool {
    |e: ItemEntry| e.1 == mid
}

/// An item with tag `tag` already stands on machine `mid`, among `items` or the planned
/// ones.
pub open spec fn item_known(items: Seq<MachineItem>, plan: Seq<ItemEntry>, mid: Seq<char>, tag: Seq<char>) -> bool {
    ||| exists|k: int|
        0 <= k < items.len() && (#[trigger] items[k]).machine_id@ == mid && items[k].code_normalized@ == tag
    ||| exists|k: int| 0 <= k < plan.len() && (#[trigger] plan[k]).1 == mid && plan[k].2 == tag
}

/// How many items stand on machine `mid`, among `items` and the planned ones.
pub open spec fn item_count(items: Seq<MachineItem>, plan: Seq<ItemEntry>, mid: Seq<char>) -> nat {
    items.filter(of_machine(mid)).len() + plan.filter(entry_of_machine(mid)).len()
}

/// The items the valves become and the warnings for the valves skipped, in order: a valve
/// with a blank tag or zone, or whose zone has no generated machine, is skipped with a
/// warning; one whose tag already stands on its machine is skipped silently.
pub open spec fn item_plan(
    machines: Seq<Machine>,
    items: Seq<MachineItem>,
    valves: Seq<LegacyValve>,
) -> (Seq<ItemEntry>, Seq<Seq<char>>)
    decreases valves.len(),
{
    if valves.len() == 0 {
        (Seq::empty(), Seq::empty())
    } else {
        let (plan, warnings) = item_plan(machines, items, valves.drop_last());
        let v = valves.last();
        let tag = normalized_identifier(v.tag@);
        let zone = trim(v.zone@);
        if tag.len() == 0 || zone.len() == 0 {
            (plan, warnings.push("asset skipped: empty TAG or zone ("@ + v.tag@ + ")"@))
        } else {
            match machine_for_zone(machines, zone) {
                None => (plan, warnings.push("asset "@ + tag + " skipped: generated machine not found"@)),
                Some(k) => {
                    let mid = machines[k].id@;
                    if item_known(items, plan, mid, tag) {
                        (plan, warnings)
                    } else {
                        (plan.push((v, mid, tag, item_count(items, plan, mid) as u32)), warnings)
                    }
                },
            }
        }
    }
}

/// `item` is the item planned as `e`.
pub open spec fn is_imported_item(item: MachineItem, e: ItemEntry, now: u64) -> bool {
    let v = e.0;
    let h = hash_text(uppercase_of(trim(v.zone@)) + "|"@ + e.2);
    &&& item.id@ == "legacy-machine-item-"@ + h
    &&& item.machine_id@ == e.1
    &&& item.category_id@ == LEGACY_CATEGORY_ID@
    &&& item.name@ == e.2
    &&& item.code@ == e.2
    &&& item.code_normalized@ == e.2
    &&& item.complexity_level.value() == 3
    &&& item.status == OperationalStatus::Unknown
    &&& item.position == e.3
    &&& item.location_description is None
    &&& value_texts(item.custom_field_values@) == bundle_valve_values(v)
    &&& item.maintenance_guide_override is None
    &&& if v.manufacturer is Some || v.serial is Some {
        item.installed_component matches Some(c) && c.installation_id@ == "legacy-installation-"@ + h
            && opt_view(c.manufacturer) == clean_spec(opt_view(v.manufacturer)) && c.model is None
            && c.part_number is None && opt_view(c.serial_number) == clean_spec(opt_view(v.serial))
            && c.installed_at is None && c.technical_specifications@.len() == 0
    } else {
        item.installed_component is None
    }
    &&& opt_view(item.replacement_specification.part_number) == kit_part(v.kit_reference)
    &&& item.replacement_specification.manufacturer is None
    &&& item.replacement_specification.model is None
    &&& item.replacement_specification.serial_number is None
    &&& item.replacement_specification.technical_specifications@.len() == 0
    &&& item.replacement_specification.compatibility_notes is None
    &&& item.replacement_specification.equivalent_parts@.len() == 0
    &&& item.replacement_specification.supplier_reference is None
    &&& item.replacement_specification.photo_ids@.len() == 0
    &&& item.notes is None
    &&& item.active
    &&& item.removed_at_ms is None
    &&& item.created_at_ms == now
    &&& item.updated_at_ms == now
}

fn item_exists(items: &Vec<MachineItem>, mid: &str, tag: &str) -> (r: bool)
    ensures
        r == exists|k: int|
            0 <= k < items@.len() && (#[trigger] items@[k]).machine_id@ == mid@
                && items@[k].code_normalized@ == tag@,
{
    let mut i: usize = 0;
    while i < items.len()
        invariant
            i <= items@.len(),
            forall|k: int|
                0 <= k < i ==> !((#[trigger] items@[k]).machine_id@ == mid@ && items@[k].code_normalized@
                    == tag@),
        decreases items@.len() - i,
    {
        if str_equal(items[i].machine_id.as_str(), mid) && str_equal(
            items[i].code_normalized.as_str(),
            tag,
        ) {
            return true;
        }
        i += 1;
    }
    false
}

proof fn lemma_count_planned(new: Seq<MachineItem>, plan: Seq<ItemEntry>, mid: Seq<char>)
    requires
        new.len() == plan.len(),
        forall|k: int| 0 <= k < new.len() ==> (#[trigger] new[k]).machine_id@ == plan[k].1,
    ensures
        new.filter(of_machine(mid)).len() == plan.filter(entry_of_machine(mid)).len(),
    decreases new.len(),
{
    reveal(Seq::filter);
    if new.len() > 0 {
        lemma_count_planned(new.drop_last(), plan.drop_last(), mid);
    }
}

fn kit_part_number(kit: &Option<String>) -> (r: Option<String>)
    ensures
        opt_view(r) == kit_part(*kit),
{
    match kit {
        Some(k) => {
            let n = normalize_reference(k.as_str());
            if chars_of(n.as_str()).len() > 0 {
                Some(n)
            } else {
                None
            }
        },
        None => None,
    }
}

fn imported_item(v: &LegacyValve, mid: &str, tag: &str, position: u32, now: u64) -> (r: MachineItem)
    requires
        tag@ == normalized_identifier(v.tag@),
    ensures
        is_imported_item(r, (*v, mid@, tag@, position), now),
{
    let zone = trimmed(v.zone.as_str());
    let key = to_uppercase(zone.as_str());
    let h = hash(concat3(key.as_str(), "|", tag).as_str());
    let mut values: Vec<(String, FieldValue)> = Vec::new();
    assert(value_texts(values@) == Seq::<(Seq<char>, Option<Seq<char>>)>::empty());
    push_value(&mut values, "actuator", &v.actuator);
    push_value(&mut values, "dn", &v.dn);
    push_value(&mut values, "last_kit_changed_at", &v.last_kit_changed_at);
    push_value(&mut values, "last_maintenance_at", &v.last_maintenance_at);
    push_value(&mut values, "manufactured_at", &v.manufactured_at);
    push_value(&mut values, "seat", &v.seat);
    push_value(&mut values, "valve_type", &v.valve_type);
    assert(value_texts(values@) =~= bundle_valve_values(*v));
    let installed = if v.manufacturer.is_some() || v.serial.is_some() {
        Some(
            InstalledComponent {
                installation_id: concat2("legacy-installation-", h.as_str()),
                manufacturer: clean_optional(copy_text(&v.manufacturer)),
                model: None,
                part_number: None,
                serial_number: clean_optional(copy_text(&v.serial)),
                installed_at: None,
                technical_specifications: Vec::new(),
            },
        )
    } else {
        None
    };
    MachineItem {
        id: concat2("legacy-machine-item-", h.as_str()),
        machine_id: owned(mid),
        category_id: owned(LEGACY_CATEGORY_ID),
        name: owned(tag),
        code: owned(tag),
        code_normalized: owned(tag),
        complexity_level: ComplexityLevel::intermediate(),
        status: OperationalStatus::Unknown,
        position,
        location_description: None,
        custom_field_values: values,
        maintenance_guide_override: None,
        installed_component: installed,
        replacement_specification: ReplacementSpecification {
            manufacturer: None,
            part_number: kit_part_number(&v.kit_reference),
            model: None,
            serial_number: None,
            technical_specifications: Vec::new(),
            compatibility_notes: None,
            equivalent_parts: Vec::new(),
            supplier_reference: None,
            photo_ids: Vec::new(),
        },
        notes: None,
        active: true,
        removed_at_ms: None,
        created_at_ms: now,
        updated_at_ms: now,
    }
}

/// Finds the generated machine of a zone among the machines of the state, then among
/// those added.
fn zone_machine_id(machines: &Vec<Machine>, more: &Vec<Machine>, zone: &str) -> (r: Option<String>)
    ensures
        match machine_for_zone(machines@ + more@, zone@) {
            Some(k) => r matches Some(id) && id@ == (machines@ + more@)[k].id@,
            None => r is None,
        },
{
    proof {
        crate::lookup::lemma_first_index_concat(
            machines@,
            more@,
            zone_machine_test(uppercase_of(trim(zone@))),
        );
    }
    match find_machine_for_zone(machines, zone) {
        Some(i) => Some(machines[i].id.clone()),
        None => match find_machine_for_zone(more, zone) {
            Some(j) => {
                assert((machines@ + more@)[machines@.len() + j] == more@[j as int]);
                Some(more[j].id.clone())
            },
            None => None,
        },
    }
}

/// Adds an item for each valve of the bundle that is not on its machine yet, and a
/// warning for each valve skipped (see `item_plan`).
pub fn import_machine_items(
    bundle: &LegacyBundle,
    machines: &Vec<Machine>,
    items: &Vec<MachineItem>,
    added: &mut ImportAdditions,
    warnings: &mut Vec<String>,
    now: u64,
)
    ensures
        *final(added) == (ImportAdditions { machine_items: final(added).machine_items, ..*old(added) }),
        ({
            let (plan, ws) = item_plan(
                machines@ + old(added).machines@,
                items@ + old(added).machine_items@,
                bundle.valves@,
            );
            let n = old(added).machine_items@.len();
            &&& final(added).machine_items@.len() == n + plan.len()
            &&& final(added).machine_items@.take(n as int) == old(added).machine_items@
            &&& forall|k: int|
                0 <= k < plan.len() ==> is_imported_item(#[trigger] final(added).machine_items@[n + k], plan[k], now)
            &&& views(final(warnings)@) == views(old(warnings)@) + ws
        }),
{
    let ghost start = *added;
    let ghost w0 = views(warnings@);
    let ghost n = added.machine_items@.len();
    let ghost all_machines = machines@ + added.machines@;
    let ghost existing = items@ + added.machine_items@;
    let valves = &bundle.valves;
    let mut i: usize = 0;
    while i < valves.len()
        invariant
            i <= valves@.len(),
            valves@ == bundle.valves@,
            n == start.machine_items@.len(),
            all_machines == machines@ + start.machines@,
            existing == items@ + start.machine_items@,
            *added == (ImportAdditions { machine_items: added.machine_items, ..start }),
            added.machine_items@.len() == n + item_plan(all_machines, existing, valves@.take(i as int)).0.len(),
            added.machine_items@.take(n as int) == start.machine_items@,
            forall|k: int|
                0 <= k < item_plan(all_machines, existing, valves@.take(i as int)).0.len() ==> is_imported_item(
                    #[trigger] added.machine_items@[n + k],
                    item_plan(all_machines, existing, valves@.take(i as int)).0[k],
                    now,
                ),
            views(warnings@) == w0 + item_plan(all_machines, existing, valves@.take(i as int)).1,
        decreases valves@.len() - i,
    {
        let ghost plan = item_plan(all_machines, existing, valves@.take(i as int)).0;
        let ghost ws = item_plan(all_machines, existing, valves@.take(i as int)).1;
        let v = &valves[i];
        proof {
            let t = valves@.take(i + 1);
            assert(t.drop_last() == valves@.take(i as int));
            assert(t.last() == *v);
            lemma_trim_empty_iff_blank(v.zone@);
        }
        let tag = normalize_tag(v.tag.as_str());
        let tag_empty = chars_of(tag.as_str()).len() == 0;
        if tag_empty || blank(v.zone.as_str()) {
            let ghost wv = views(warnings@);
            warnings.push(concat3("asset skipped: empty TAG or zone (", v.tag.as_str(), ")"));
            proof {
                assert(views(warnings@) == wv.push(views(warnings@).last()));
            }
        } else {
            let zone = trimmed(v.zone.as_str());
            match zone_machine_id(machines, &added.machines, zone.as_str()) {
                None => {
                    let ghost wv = views(warnings@);
                    warnings.push(
                        concat3("asset ", tag.as_str(), " skipped: generated machine not found"),
                    );
                    proof {
                        assert(views(warnings@) == wv.push(views(warnings@).last()));
                    }
                },
                Some(mid) => {
                    let am = &added.machine_items;
                    let known = item_exists(items, mid.as_str(), tag.as_str()) || item_exists(
                        am,
                        mid.as_str(),
                        tag.as_str(),
                    );
                    proof {
                        let a = am@;
                        assert(a == start.machine_items@ + a.skip(n as int));
                        let known_spec = item_known(existing, plan, mid@, tag@);
                        if known_spec {
                            if exists|k: int|
                                0 <= k < existing.len() && (#[trigger] existing[k]).machine_id@ == mid@
                                    && existing[k].code_normalized@ == tag@ {
                                let k = choose|k: int|
                                    0 <= k < existing.len() && (#[trigger] existing[k]).machine_id@ == mid@
                                        && existing[k].code_normalized@ == tag@;
                                if k < items@.len() {
                                    assert(items@[k] == existing[k]);
                                } else {
                                    assert(a[k - items@.len()] == existing[k]);
                                }
                            } else {
                                let k = choose|k: int|
                                    0 <= k < plan.len() && (#[trigger] plan[k]).1 == mid@ && plan[k].2 == tag@;
                                assert(is_imported_item(a[n + k], plan[k], now));
                            }
                        }
                        if known {
                            if exists|k: int|
                                0 <= k < items@.len() && (#[trigger] items@[k]).machine_id@ == mid@
                                    && items@[k].code_normalized@ == tag@ {
                                let k = choose|k: int|
                                    0 <= k < items@.len() && (#[trigger] items@[k]).machine_id@ == mid@
                                        && items@[k].code_normalized@ == tag@;
                                assert(existing[k] == items@[k]);
                            } else {
                                let k = choose|k: int|
                                    0 <= k < a.len() && (#[trigger] a[k]).machine_id@ == mid@
                                        && a[k].code_normalized@ == tag@;
                                if k < n {
                                    assert(existing[items@.len() + k] == a[k]);
                                } else {
                                    assert(is_imported_item(a[n + (k - n)], plan[k - n], now));
                                    assert(plan[k - n].1 == mid@ && plan[k - n].2 == tag@);
                                }
                            }
                        }
                    }
                    if !known {
                        let c1 = count_of_machine(items, mid.as_str());
                        let c2 = count_of_machine(am, mid.as_str());
                        proof {
                            let a = am@;
                            assert(a == start.machine_items@ + a.skip(n as int));
                            Seq::filter_distributes_over_add(items@, start.machine_items@, of_machine(mid@));
                            Seq::filter_distributes_over_add(start.machine_items@, a.skip(n as int), of_machine(mid@));
                            assert forall|k: int| 0 <= k < a.skip(n as int).len() implies (
                            #[trigger] a.skip(n as int)[k]).machine_id@ == plan[k].1 by {
                                assert(is_imported_item(a[n + k], plan[k], now));
                            }
                            lemma_count_planned(a.skip(n as int), plan, mid@);
                        }
                        let total: u128 = c1 as u128 + c2 as u128;
                        let position = total as u32;
                        let item = imported_item(v, mid.as_str(), tag.as_str(), position, now);
                        let ghost before = added.machine_items@;
                        added.machine_items.push(item);
                        proof {
                            assert(added.machine_items@ == before.push(item));
                            assert(added.machine_items@.take(n as int) == start.machine_items@);
                            let p2 = item_plan(all_machines, existing, valves@.take(i + 1)).0;
                            assert(p2 == plan.push((*v, mid@, tag@, position)));
                            assert forall|k: int| 0 <= k < p2.len() implies is_imported_item(
                                #[trigger] added.machine_items@[n + k],
                                p2[k],
                                now,
                            ) by {
                                if k < plan.len() {
                                    assert(added.machine_items@[n + k] == before[n + k]);
                                }
                            }
                        }
                    }
                },
            }
        }
        i += 1;
    }
    proof {
        assert(valves@.take(i as int) == valves@);
    }
}

} // verus!
