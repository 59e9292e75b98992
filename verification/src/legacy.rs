//! The persisted layout of schema 1 (valves grouped by zone) and its migration to the
//! current layout (machines, items, inspections and orders).
use vstd::prelude::*;

use crate::accounts::default_repair_level;
use crate::calendar::{date_ms, date_to_ms};
use crate::copies::{DeepCopy, Duplicate};
use crate::fingerprint::{hash, hash_text};
use crate::lookup::{index_of_id, position_of_id};
use crate::machines::{machine_statuses, statuses_of};
use crate::policy::{derive_machine_status, derived_status};
use crate::state::{ApplicationState, SCHEMA_VERSION};
use crate::model::{
    copy_text, AuditEvent, AuditRecord, ComplexityLevel, CustomFieldDefinition, CustomFieldType,
    FieldValue, InspectionStatus, InstalledComponent, ItemCategory, ItemCategorySnapshot,
    ItemInspection, Machine, MachineItem, MachineItemSnapshot, MachineSnapshot, MaintenanceGuide,
    OperationalStatus, PhotoAsset, PhotoOwnerType, PhotoPurpose, ReplacementSpecification,
    RestockRequest, ServiceOrder, ServiceOrderPriority, ServiceOrderStatus, ServiceOrderTask,
    ServiceOrderTaskStatus, StockItem, StockMovement, Supplier, UserAccount,
};
use crate::text::{
    append_str, clean_optional, clean_spec, concat2, concat3, is_blank, lowercase_of, opt_view,
    owned, str_equal, to_lowercase, to_uppercase, trim, trimmed, uppercase_of, decimal_string,
    decimal_text,
};

verus! {

/// The identifier of the category every migrated valve belongs to.
pub const MIGRATED_CATEGORY_ID: &'static str = "migrated-category-valve";

/// A valve of schema 1.
#[derive(Debug, Clone)]
pub struct LegacyValve {
    pub id: String,
    pub tag: String,
    pub tag_normalized: String,
    pub zone: String,
    pub manufacturer: Option<String>,
    pub serial: Option<String>,
    pub kit_reference: Option<String>,
    pub seat: Option<String>,
    pub dn: Option<String>,
    pub valve_type: Option<String>,
    pub actuator: Option<String>,
    pub manufactured_at: Option<String>,
    pub last_kit_changed_at: Option<String>,
    pub last_maintenance_at: Option<String>,
    pub created_at_ms: u64,
    pub updated_at_ms: u64,
}

/// A maintenance record of schema 1; its type is kept as the JSON text it was stored as.
#[derive(Debug, Clone)]
pub struct LegacyMaintenance {
    pub id: String,
    pub valve_id: String,
    pub valve_tag_snapshot: String,
    pub performed_at: String,
    pub technician: String,
    pub maintenance_type: String,
    pub service: String,
    pub notes: Option<String>,
    pub signature_ref: Option<String>,
    pub kit_changed: bool,
    pub kit_reference_snapshot: Option<String>,
    pub stock_consumed: bool,
    pub stock_consumption_pending: bool,
    pub created_at_ms: u64,
}

/// The states of an order of schema 1.
#[derive(Debug, Clone, Copy, PartialEq, Eq, Structural)]
pub enum LegacyOrderStatus {
    Pending,
    InProgress,
    Completed,
}

/// A service order of schema 1, kept by zone and optionally by valve.
#[derive(Debug, Clone)]
pub struct LegacyOrder {
    pub id: String,
    pub zone: String,
    pub valve_id: Option<String>,
    pub valve_tag_snapshot: Option<String>,
    pub description: String,
    pub priority: ServiceOrderPriority,
    pub status: LegacyOrderStatus,
    pub created_by: String,
    pub technician: Option<String>,
    pub scheduled_for: Option<String>,
    pub created_at_ms: u64,
    pub updated_at_ms: u64,
}

/// A valve photo of schema 1.
#[derive(Debug, Clone)]
pub struct LegacyPhoto {
    pub id: String,
    pub valve_id: String,
    pub legacy_tag: Option<String>,
    pub blob_ref: String,
}

/// The whole persisted state of schema 1.
#[derive(Debug, Clone)]
pub struct LegacyStateV1 {
    pub valves: Vec<LegacyValve>,
    pub maintenance_records: Vec<LegacyMaintenance>,
    pub service_orders: Vec<LegacyOrder>,
    pub restock_requests: Vec<RestockRequest>,
    pub stock_items: Vec<StockItem>,
    pub stock_movements: Vec<StockMovement>,
    pub suppliers: Vec<Supplier>,
    pub valve_photos: Vec<LegacyPhoto>,
    pub user_accounts: Vec<UserAccount>,
    pub audit_events: Vec<AuditEvent>,
}

/// The lines joined by line breaks.
pub open spec fn join_lines(lines: Seq<Seq<char>>) -> Seq<char>
    decreases lines.len(),
{
    if lines.len() == 0 {
        Seq::empty()
    } else if lines.len() == 1 {
        lines[0]
    } else {
        join_lines(lines.drop_last()) + "\n"@ + lines.last()
    }
}

/// The characters of each text.
pub open spec fn texts_view(v: Seq<String>) -> Seq<Seq<char>> {
    v.map_values(|t: String| t@)
}

/// Joins texts with line breaks.
pub fn join_with_newlines(lines: &Vec<String>) -> (r: String)
    ensures
        r@ == join_lines(texts_view(lines@)),
{
    let mut out = String::new();
    let mut i: usize = 0;
    while i < lines.len()
        invariant
            i <= lines@.len(),
            out@ == join_lines(texts_view(lines@.take(i as int))),
        decreases lines@.len() - i,
    {
        proof {
            assert(texts_view(lines@.take(i + 1)).drop_last() == texts_view(lines@.take(i as int)));
            assert(texts_view(lines@.take(i + 1)).last() == lines@[i as int]@);
        }
        if i > 0 {
            append_str(&mut out, "\n");
        } else {
            assert(texts_view(lines@.take(1)) == seq![lines@[0]@]);
        }
        append_str(&mut out, lines[i].as_str());
        i += 1;
    }
    assert(lines@.take(lines@.len() as int) == lines@);
    out
}

/// One line when the condition holds.
pub open spec fn line_if(cond: bool, line: Seq<char>) -> Seq<Seq<char>> {
    if cond {
        seq![line]
    } else {
        Seq::empty()
    }
}

/// One line made of `prefix` and the text, when there is a text.
pub open spec fn line_of(prefix: Seq<char>, value: Option<Seq<char>>) -> Seq<Seq<char>> {
    match value {
        Some(v) => seq![prefix + v],
        None => Seq::empty(),
    }
}

/// The notes a migrated maintenance record keeps: its notes, then what it recorded.
pub open spec fn maintenance_lines(m: LegacyMaintenance) -> Seq<Seq<char>> {
    line_of(""@, opt_view(m.notes)) + seq![
        "Previous type: "@ + m.maintenance_type@,
        "Previous item: "@ + m.valve_tag_snapshot@,
    ] + line_if(m.kit_changed, "Previous kit replacement: yes"@) + line_of(
        "Previous kit: "@,
        opt_view(m.kit_reference_snapshot),
    ) + line_of("Previous signature: "@, opt_view(m.signature_ref)) + line_if(
        m.stock_consumed,
        "Previous stock consumption: completed"@,
    ) + line_if(m.stock_consumption_pending, "Previous stock consumption: pending"@) + seq![
        "Previous performed at: "@ + m.performed_at@,
    ]
}

pub(crate) fn push_line_of(lines: &mut Vec<String>, prefix: &str, value: &Option<String>)
    ensures
        texts_view(final(lines)@) == texts_view(old(lines)@) + line_of(prefix@, opt_view(*value)),
{
    let ghost before = texts_view(lines@);
    if let Some(v) = value {
        lines.push(concat2(prefix, v.as_str()));
        assert(texts_view(lines@) == before.push(prefix@ + v@));
    } else {
        assert(before + Seq::<Seq<char>>::empty() == before);
    }
}

pub(crate) fn push_line_if(lines: &mut Vec<String>, cond: bool, line: &str)
    ensures
        texts_view(final(lines)@) == texts_view(old(lines)@) + line_if(cond, line@),
{
    let ghost before = texts_view(lines@);
    if cond {
        lines.push(owned(line));
        assert(texts_view(lines@) == before.push(line@));
    } else {
        assert(before + Seq::<Seq<char>>::empty() == before);
    }
}

pub(crate) fn push_line(lines: &mut Vec<String>, prefix: &str, value: &str)
    ensures
        texts_view(final(lines)@) == texts_view(old(lines)@).push(prefix@ + value@),
{
    let ghost before = texts_view(lines@);
    lines.push(concat2(prefix, value));
    assert(texts_view(lines@) == before.push(prefix@ + value@));
}

/// The notes of a migrated maintenance record.
pub fn maintenance_notes(m: &LegacyMaintenance) -> (r: String)
    ensures
        r@ == join_lines(maintenance_lines(*m)),
{
    let mut lines: Vec<String> = Vec::new();
    push_line_of(&mut lines, "", &m.notes);
    push_line(&mut lines, "Previous type: ", m.maintenance_type.as_str());
    push_line(&mut lines, "Previous item: ", m.valve_tag_snapshot.as_str());
    push_line_if(&mut lines, m.kit_changed, "Previous kit replacement: yes");
    push_line_of(&mut lines, "Previous kit: ", &m.kit_reference_snapshot);
    push_line_of(&mut lines, "Previous signature: ", &m.signature_ref);
    push_line_if(&mut lines, m.stock_consumed, "Previous stock consumption: completed");
    push_line_if(&mut lines, m.stock_consumption_pending, "Previous stock consumption: pending");
    push_line(&mut lines, "Previous performed at: ", m.performed_at.as_str());
    proof {
        let l0 = line_of(""@, opt_view(m.notes));
        assert(texts_view(lines@) =~= maintenance_lines(*m));
    }
    join_with_newlines(&lines)
}

/// The description of a migrated order: its own, then its technician and its valve.
pub open spec fn order_lines(o: LegacyOrder) -> Seq<Seq<char>> {
    seq![o.description@] + line_of("Previous technician: "@, clean_spec(opt_view(o.technician)))
        + line_of("Previous item: "@, clean_spec(opt_view(o.valve_tag_snapshot)))
}

/// The description of a migrated order.
pub fn order_description(o: &LegacyOrder) -> (r: String)
    ensures
        r@ == join_lines(order_lines(*o)),
{
    let mut lines: Vec<String> = Vec::new();
    lines.push(o.description.clone());
    assert(texts_view(lines@) == seq![o.description@]);
    let technician = clean_optional(copy_text(&o.technician));
    push_line_of(&mut lines, "Previous technician: ", &technician);
    let tag = clean_optional(copy_text(&o.valve_tag_snapshot));
    push_line_of(&mut lines, "Previous item: ", &tag);
    assert(texts_view(lines@) =~= order_lines(*o));
    join_with_newlines(&lines)
}

/// The key and text of each custom value, in order.
pub open spec fn value_texts(values: Seq<(String, FieldValue)>) -> Seq<(Seq<char>, Option<Seq<char>>)> {
    values.map_values(
        |p: (String, FieldValue)|
            (
                p.0@,
                match p.1 {
                    FieldValue::Text(t) => Some(t@),
                    _ => None,
                },
            ),
    )
}

/// One custom value when the legacy text is present and not blank.
pub open spec fn value_of(key: Seq<char>, value: Option<String>) -> Seq<(Seq<char>, Option<Seq<char>>)> {
    match clean_spec(opt_view(value)) {
        Some(v) => seq![(key, Some(v))],
        None => Seq::empty(),
    }
}

/// The custom values of a migrated valve, by key in alphabetical order.
pub open spec fn valve_values(v: LegacyValve) -> Seq<(Seq<char>, Option<Seq<char>>)> {
    value_of("actuator"@, v.actuator) + value_of("dn"@, v.dn) + value_of(
        "last_kit_changed_at"@,
        v.last_kit_changed_at,
    ) + value_of("last_maintenance_at"@, v.last_maintenance_at) + value_of(
        "manufactured_at"@,
        v.manufactured_at,
    ) + value_of("seat"@, v.seat) + value_of("valve_type"@, v.valve_type)
}

pub(crate) fn push_value(values: &mut Vec<(String, FieldValue)>, key: &str, value: &Option<String>)
    ensures
        value_texts(final(values)@) == value_texts(old(values)@) + value_of(key@, *value),
{
    let ghost before = value_texts(values@);
    match clean_optional(copy_text(value)) {
        Some(v) => {
            let ghost vv = v@;
            values.push((owned(key), FieldValue::Text(v)));
            assert(value_texts(values@) == before.push((key@, Some(vv))));
        },
        None => {
            assert(before + Seq::<(Seq<char>, Option<Seq<char>>)>::empty() == before);
        },
    }
}

/// The custom values of a migrated valve.
pub fn valve_custom_values(v: &LegacyValve) -> (r: Vec<(String, FieldValue)>)
    ensures
        value_texts(r@) == valve_values(*v),
{
    let mut values: Vec<(String, FieldValue)> = Vec::new();
    assert(value_texts(values@) == Seq::<(Seq<char>, Option<Seq<char>>)>::empty());
    push_value(&mut values, "actuator", &v.actuator);
    push_value(&mut values, "dn", &v.dn);
    push_value(&mut values, "last_kit_changed_at", &v.last_kit_changed_at);
    push_value(&mut values, "last_maintenance_at", &v.last_maintenance_at);
    push_value(&mut values, "manufactured_at", &v.manufactured_at);
    push_value(&mut values, "seat", &v.seat);
    push_value(&mut values, "valve_type", &v.valve_type);
    assert(value_texts(values@) =~= valve_values(*v));
    values
}

/// `c` is the custom field `key` of a valve category whose field identifiers start with
/// `prefix`.
pub open spec fn valve_field(
    c: CustomFieldDefinition,
    prefix: Seq<char>,
    key: Seq<char>,
    label: Seq<char>,
    kind: CustomFieldType,
    order: u32,
) -> bool {
    &&& c.id@ == prefix + key
    &&& c.key@ == key
    &&& c.label@ == label
    &&& c.field_type == kind
    &&& !c.required
    &&& c.unit is None
    &&& c.options@.len() == 0
    &&& c.minimum is None
    &&& c.maximum is None
    &&& c.order == order
}

/// The custom fields of a valve category, in order: what a valve of the legacy model
/// recorded besides its identity.
pub open spec fn valve_fields(f: Seq<CustomFieldDefinition>, prefix: Seq<char>) -> bool {
    &&& f.len() == 7
    &&& valve_field(f[0], prefix, "seat"@, "Seat"@, CustomFieldType::Text, 0)
    &&& valve_field(f[1], prefix, "dn"@, "Nominal diameter"@, CustomFieldType::Text, 1)
    &&& valve_field(f[2], prefix, "valve_type"@, "Type"@, CustomFieldType::Text, 2)
    &&& valve_field(f[3], prefix, "actuator"@, "Actuator"@, CustomFieldType::Text, 3)
    &&& valve_field(f[4], prefix, "manufactured_at"@, "Manufactured at"@, CustomFieldType::Date, 4)
    &&& valve_field(f[5], prefix, "last_kit_changed_at"@, "Last kit change"@, CustomFieldType::Date, 5)
    &&& valve_field(f[6], prefix, "last_maintenance_at"@, "Last maintenance"@, CustomFieldType::Date, 6)
}

/// The category every migrated valve belongs to.
pub open spec fn is_migrated_category(c: ItemCategory) -> bool {
    &&& c.id@ == MIGRATED_CATEGORY_ID@
    &&& c.code@ == "VALVE"@
    &&& c.code_normalized@ == "VALVE"@
    &&& c.name@ == "Valve"@
    &&& opt_view(c.description) == Some("Category migrated from schema 1"@)
    &&& opt_view(c.icon) == Some("circle-dot"@)
    &&& c.default_complexity_level.value() == 3
    &&& c.maintenance_guide.version == 1
    &&& c.maintenance_guide.steps@.len() == 0
    &&& valve_fields(c.custom_field_definitions@, "migrated-field-"@)
    &&& c.recommended_parts@.len() == 0
    &&& c.active
    &&& c.created_at_ms == 0
    &&& c.updated_at_ms == 0
}

fn field(prefix: &str, key: &str, label: &str, kind: CustomFieldType, order: u32) -> (r:
    CustomFieldDefinition)
    ensures
        valve_field(r, prefix@, key@, label@, kind, order),
{
    CustomFieldDefinition {
        id: concat2(prefix, key),
        key: owned(key),
        label: owned(label),
        field_type: kind,
        required: false,
        unit: None,
        options: Vec::new(),
        minimum: None,
        maximum: None,
        order,
    }
}

/// The custom fields of a valve category, with identifiers starting with `prefix`.
pub fn valve_field_definitions(prefix: &str) -> (r: Vec<CustomFieldDefinition>)
    ensures
        valve_fields(r@, prefix@),
{
    let mut fields: Vec<CustomFieldDefinition> = Vec::new();
    fields.push(field(prefix, "seat", "Seat", CustomFieldType::Text, 0));
    fields.push(field(prefix, "dn", "Nominal diameter", CustomFieldType::Text, 1));
    fields.push(field(prefix, "valve_type", "Type", CustomFieldType::Text, 2));
    fields.push(field(prefix, "actuator", "Actuator", CustomFieldType::Text, 3));
    fields.push(field(prefix, "manufactured_at", "Manufactured at", CustomFieldType::Date, 4));
    fields.push(field(prefix, "last_kit_changed_at", "Last kit change", CustomFieldType::Date, 5));
    fields.push(field(prefix, "last_maintenance_at", "Last maintenance", CustomFieldType::Date, 6));
    fields
}

/// The category every migrated valve belongs to.
pub fn migrated_category() -> (r: ItemCategory)
    ensures
        is_migrated_category(r),
{
    let fields = valve_field_definitions("migrated-field-");
    ItemCategory {
        id: owned(MIGRATED_CATEGORY_ID),
        code: owned("VALVE"),
        code_normalized: owned("VALVE"),
        name: owned("Valve"),
        description: Some(owned("Category migrated from schema 1")),
        icon: Some(owned("circle-dot")),
        default_complexity_level: ComplexityLevel::intermediate(),
        maintenance_guide: MaintenanceGuide { version: 1, steps: Vec::new() },
        custom_field_definitions: fields,
        recommended_parts: Vec::new(),
        active: true,
        created_at_ms: 0,
        updated_at_ms: 0,
    }
}

/// The zones of schema 1, trimmed, from the valves and then the orders, without blank ones.
pub open spec fn zone_list(valves: Seq<LegacyValve>, orders: Seq<LegacyOrder>) -> Seq<Seq<char>> {
    (valves.map_values(|v: LegacyValve| trim(v.zone@)) + orders.map_values(
        |o: LegacyOrder| trim(o.zone@),
    )).filter(|z: Seq<char>| z.len() > 0)
}

/// Whether some zone of `reps` reads `key` once uppercased.
pub open spec fn zone_known(reps: Seq<Seq<char>>, key: Seq<char>) -> bool {
    exists|k: int| 0 <= k < reps.len() && uppercase_of(#[trigger] reps[k]) == key
}

/// The first zone of each uppercase spelling, in order of first appearance.
pub open spec fn zone_representatives(zones: Seq<Seq<char>>) -> Seq<Seq<char>>
    decreases zones.len(),
{
    if zones.len() == 0 {
        Seq::empty()
    } else {
        let prev = zone_representatives(zones.drop_last());
        if zone_known(prev, uppercase_of(zones.last())) {
            prev
        } else {
            prev.push(zones.last())
        }
    }
}

/// The machine that groups the items of a zone of uppercase spelling `key`.
pub open spec fn zone_machine_id(key: Seq<char>) -> Seq<char> {
    "migrated-machine-"@ + hash_text(key)
}

/// `m` is the machine created for zone `zone`.
pub open spec fn is_zone_machine(m: Machine, zone: Seq<char>) -> bool {
    &&& m.id@ == zone_machine_id(uppercase_of(zone))
    &&& m.code@ == "MIG-"@ + hash_text(zone).take(8)
    &&& m.code_normalized@ == "MIG-"@ + hash_text(zone).take(8)
    &&& m.name@ == "Migrated assets - "@ + zone
    &&& opt_view(m.description) == Some("Generated from the schema 1 zone grouping"@)
    &&& m.zone@ == zone
    &&& m.location is None
    &&& m.manufacturer is None
    &&& m.model is None
    &&& m.serial_number is None
    &&& m.main_photo_id is None
    &&& m.active
    &&& m.created_at_ms == 0
    &&& m.updated_at_ms == 0
}

fn zone_machine(zone: &str) -> (r: Machine)
    ensures
        is_zone_machine(r, zone@),
        r.status == OperationalStatus::Unknown,
{
    let key = to_uppercase(zone);
    let id_hash = hash(key.as_str());
    let zone_hash = hash(zone);
    let chars = crate::text::chars_of(zone_hash.as_str());
    proof {
        crate::fingerprint::lemma_hex_digits_len(
            crate::fingerprint::fnv1a(vstd::utf8::encode_utf8(zone@)) as int,
            16,
        );
    }
    let short = crate::text::string_of_range(&chars, 0, 8);
    let code = concat2("MIG-", short.as_str());
    Machine {
        id: concat2("migrated-machine-", id_hash.as_str()),
        code: code.clone(),
        code_normalized: code,
        name: concat2("Migrated assets - ", zone),
        description: Some(owned("Generated from the schema 1 zone grouping")),
        zone: owned(zone),
        location: None,
        manufacturer: None,
        model: None,
        serial_number: None,
        status: OperationalStatus::Unknown,
        main_photo_id: None,
        active: true,
        created_at_ms: 0,
        updated_at_ms: 0,
    }
}

fn known_key(keys: &Vec<String>, key: &str) -> (r: bool)
    ensures
        r == exists|k: int| 0 <= k < keys@.len() && (#[trigger] keys@[k])@ == key@,
{
    let mut k: usize = 0;
    while k < keys.len()
        invariant
            k <= keys@.len(),
            forall|j: int| 0 <= j < k ==> (#[trigger] keys@[j])@ != key@,
        decreases keys@.len() - k,
    {
        if str_equal(keys[k].as_str(), key) {
            assert(keys@[k as int]@ == key@);
            return true;
        }
        k += 1;
    }
    false
}

/// The zone representatives and machines of the zones seen so far.
pub open spec fn zones_absorbed(machines: Seq<Machine>, keys: Seq<String>, reps: Seq<Seq<char>>) -> bool {
    &&& machines.len() == reps.len()
    &&& keys.len() == reps.len()
    &&& forall|k: int| 0 <= k < reps.len() ==> is_zone_machine(#[trigger] machines[k], reps[k])
    &&& forall|k: int| 0 <= k < reps.len() ==> (#[trigger] machines[k]).status == OperationalStatus::Unknown
    &&& forall|k: int| 0 <= k < reps.len() ==> (#[trigger] keys[k])@ == uppercase_of(reps[k])
}

fn absorb_zone(
    machines: &mut Vec<Machine>,
    keys: &mut Vec<String>,
    raw: &str,
    zones: Ghost<Seq<Seq<char>>>,
)
    requires
        zones_absorbed(old(machines)@, old(keys)@, zone_representatives(zones@)),
    ensures
        zones_absorbed(
            final(machines)@,
            final(keys)@,
            zone_representatives(
                if trim(raw@).len() > 0 {
                    zones@.push(trim(raw@))
                } else {
                    zones@
                },
            ),
        ),
{
    proof {
        crate::text::lemma_trim_empty_iff_blank(raw@);
    }
    if !crate::text::blank(raw) {
        let zone = trimmed(raw);
        let key = to_uppercase(zone.as_str());
        let known = known_key(keys, key.as_str());
        let ghost reps = zone_representatives(zones@);
        proof {
            assert(zones@.push(zone@).drop_last() =~= zones@);
            if known {
                let k = choose|k: int| 0 <= k < keys@.len() && (#[trigger] keys@[k])@ == key@;
                assert(uppercase_of(reps[k]) == key@);
            } else {
                assert forall|k: int| 0 <= k < reps.len() implies uppercase_of(#[trigger] reps[k]) != key@ by {
                    assert(keys@[k]@ == uppercase_of(reps[k]));
                }
            }
        }
        if !known {
            machines.push(zone_machine(zone.as_str()));
            keys.push(key);
        }
    }
}

/// The machines of the zones of schema 1, one per uppercase spelling, with the uppercase
/// spelling of each.
fn zone_machines(valves: &Vec<LegacyValve>, orders: &Vec<LegacyOrder>) -> (r: (Vec<Machine>, Vec<String>))
    ensures
        zones_absorbed(r.0@, r.1@, zone_representatives(zone_list(valves@, orders@))),
{
    let ghost vz = valves@.map_values(|v: LegacyValve| trim(v.zone@));
    let ghost oz = orders@.map_values(|o: LegacyOrder| trim(o.zone@));
    let ghost p = |z: Seq<char>| z.len() > 0;
    let mut machines: Vec<Machine> = Vec::new();
    let mut keys: Vec<String> = Vec::new();
    let mut i: usize = 0;
    while i < valves.len()
        invariant
            i <= valves@.len(),
            vz == valves@.map_values(|v: LegacyValve| trim(v.zone@)),
            p == (|z: Seq<char>| z.len() > 0),
            zones_absorbed(machines@, keys@, zone_representatives(vz.take(i as int).filter(p))),
        decreases valves@.len() - i,
    {
        proof {
            let t = vz.take(i + 1);
            assert(t.drop_last() == vz.take(i as int));
            assert(t.last() == trim(valves@[i as int].zone@));
            reveal(Seq::filter);
        }
        absorb_zone(&mut machines, &mut keys, valves[i].zone.as_str(), Ghost(vz.take(i as int).filter(p)));
        i += 1;
    }
    assert(vz.take(i as int) == vz);
    let mut j: usize = 0;
    while j < orders.len()
        invariant
            j <= orders@.len(),
            vz == valves@.map_values(|v: LegacyValve| trim(v.zone@)),
            oz == orders@.map_values(|o: LegacyOrder| trim(o.zone@)),
            p == (|z: Seq<char>| z.len() > 0),
            zones_absorbed(machines@, keys@, zone_representatives((vz + oz.take(j as int)).filter(p))),
        decreases orders@.len() - j,
    {
        proof {
            let t = vz + oz.take(j + 1);
            assert(t.drop_last() == vz + oz.take(j as int));
            assert(t.last() == trim(orders@[j as int].zone@));
            reveal(Seq::filter);
        }
        absorb_zone(
            &mut machines,
            &mut keys,
            orders[j].zone.as_str(),
            Ghost((vz + oz.take(j as int)).filter(p)),
        );
        j += 1;
    }
    assert(vz + oz.take(j as int) == vz + oz);
    (machines, keys)
}

/// A valve migrates when the uppercase spelling of its trimmed zone has a machine.
pub open spec fn valve_migrates(reps: Seq<Seq<char>>, v: LegacyValve) -> bool {
    zone_known(reps, uppercase_of(trim(v.zone@)))
}

/// The valves that migrate, in order.
pub open spec fn migrated_valves(valves: Seq<LegacyValve>, reps: Seq<Seq<char>>) -> Seq<LegacyValve> {
    valves.filter(|v: LegacyValve| valve_migrates(reps, v))
}

/// The identifier of the item a valve becomes.
pub open spec fn item_id_of(old_id: Seq<char>) -> Seq<char> {
    "migrated-machine-item-"@ + hash_text(old_id)
}

/// The test "belongs to machine `machine_id`".
pub open spec fn of_machine(machine_id: Seq<char>) -> spec_fn(MachineItem) -> bool {
    |it: MachineItem| it.machine_id@ == machine_id
}

/// `item` is the item valve `v` becomes, at `position` among its machine's items.
pub open spec fn is_migrated_item(item: MachineItem, v: LegacyValve, position: u32) -> bool {
    &&& item.id@ == item_id_of(v.id@)
    &&& item.machine_id@ == zone_machine_id(uppercase_of(trim(v.zone@)))
    &&& item.category_id@ == MIGRATED_CATEGORY_ID@
    &&& item.name == v.tag
    &&& item.code == v.tag
    &&& item.code_normalized == v.tag_normalized
    &&& item.complexity_level.value() == 3
    &&& item.status == OperationalStatus::Unknown
    &&& item.position == position
    &&& item.location_description is None
    &&& value_texts(item.custom_field_values@) == valve_values(v)
    &&& item.maintenance_guide_override is None
    &&& if v.manufacturer is Some || v.serial is Some {
        item.installed_component matches Some(c) && c.installation_id@ == "migrated-installation-"@
            + hash_text(v.id@) && c.manufacturer == v.manufacturer && c.model is None
            && c.part_number is None && c.serial_number == v.serial && c.installed_at is None
            && c.technical_specifications@.len() == 0
    } else {
        item.installed_component is None
    }
    &&& item.replacement_specification.part_number == v.kit_reference
    &&& item.replacement_specification.manufacturer is None
    &&& item.replacement_specification.model is None
    &&& item.replacement_specification.serial_number is None
    &&& item.replacement_specification.technical_specifications@.len() == 0
    &&& item.replacement_specification.compatibility_notes is None
    &&& item.replacement_specification.equivalent_parts@.len() == 0
    &&& item.replacement_specification.supplier_reference is None
    &&& item.replacement_specification.photo_ids@.len() == 0
    &&& item.notes is None
    &&& item.active
    &&& item.removed_at_ms is None
    &&& item.created_at_ms == v.created_at_ms
    &&& item.updated_at_ms == v.updated_at_ms
}

/// The items migrated valves become, each placed after its machine's earlier ones.
pub open spec fn items_migrated(items: Seq<MachineItem>, valves: Seq<LegacyValve>) -> bool {
    &&& items.len() == valves.len()
    &&& forall|j: int|
        0 <= j < items.len() ==> is_migrated_item(
            #[trigger] items[j],
            valves[j],
            (items.take(j).filter(of_machine(items[j].machine_id@)).len() + 1) as u32,
        )
}

pub(crate) fn count_of_machine(items: &Vec<MachineItem>, machine_id: &str) -> (r: usize)
    ensures
        r == items@.filter(of_machine(machine_id@)).len(),
{
    let ghost p = of_machine(machine_id@);
    let mut count: usize = 0;
    let mut i: usize = 0;
    while i < items.len()
        invariant
            i <= items@.len(),
            p == of_machine(machine_id@),
            count == items@.take(i as int).filter(p).len(),
            count <= i,
        decreases items@.len() - i,
    {
        proof {
            let t = items@.take(i + 1);
            assert(t.drop_last() == items@.take(i as int));
            assert(t.last() == items@[i as int]);
            reveal(Seq::filter);
        }
        if str_equal(items[i].machine_id.as_str(), machine_id) {
            count += 1;
        }
        i += 1;
    }
    assert(items@.take(i as int) == items@);
    count
}

fn migrate_valve(v: &LegacyValve, key: &str, position: u32) -> (r: MachineItem)
    requires
        key@ == uppercase_of(trim(v.zone@)),
    ensures
        is_migrated_item(r, *v, position),
{
    let machine_hash = hash(key);
    let valve_hash = hash(v.id.as_str());
    let installed = if v.manufacturer.is_some() || v.serial.is_some() {
        Some(
            InstalledComponent {
                installation_id: concat2("migrated-installation-", valve_hash.as_str()),
                manufacturer: copy_text(&v.manufacturer),
                model: None,
                part_number: None,
                serial_number: copy_text(&v.serial),
                installed_at: None,
                technical_specifications: Vec::new(),
            },
        )
    } else {
        None
    };
    MachineItem {
        id: concat2("migrated-machine-item-", valve_hash.as_str()),
        machine_id: concat2("migrated-machine-", machine_hash.as_str()),
        category_id: owned(MIGRATED_CATEGORY_ID),
        name: v.tag.clone(),
        code: v.tag.clone(),
        code_normalized: v.tag_normalized.clone(),
        complexity_level: ComplexityLevel::intermediate(),
        status: OperationalStatus::Unknown,
        position,
        location_description: None,
        custom_field_values: valve_custom_values(v),
        maintenance_guide_override: None,
        installed_component: installed,
        replacement_specification: ReplacementSpecification {
            manufacturer: None,
            part_number: copy_text(&v.kit_reference),
            model: None,
            serial_number: None,
            technical_specifications: Vec::new(),
            compatibility_notes: None,
            equivalent_parts: Vec::new(),
            supplier_reference: None,
            photo_ids: Vec::new(),
        },
        notes: None,
        active: true,
        removed_at_ms: None,
        created_at_ms: v.created_at_ms,
        updated_at_ms: v.updated_at_ms,
    }
}

/// The items the valves become, with the old identifiers of the migrated valves.
fn migrate_valves(valves: &Vec<LegacyValve>, keys: &Vec<String>, reps: Ghost<Seq<Seq<char>>>) -> (r: (
    Vec<MachineItem>,
    Vec<String>,
))
    requires
        keys@.len() == reps@.len(),
        forall|k: int| 0 <= k < reps@.len() ==> (#[trigger] keys@[k])@ == uppercase_of(reps@[k]),
        valves@.len() < u32::MAX,
    ensures
        items_migrated(r.0@, migrated_valves(valves@, reps@)),
        r.1@.len() == r.0@.len(),
        forall|j: int| 0 <= j < r.1@.len() ==> (#[trigger] r.1@[j])@ == migrated_valves(valves@, reps@)[j].id@,
{
    let ghost p = |v: LegacyValve| valve_migrates(reps@, v);
    let mut items: Vec<MachineItem> = Vec::new();
    let mut old_ids: Vec<String> = Vec::new();
    let mut i: usize = 0;
    while i < valves.len()
        invariant
            i <= valves@.len(),
            valves@.len() < u32::MAX,
            keys@.len() == reps@.len(),
            forall|k: int| 0 <= k < reps@.len() ==> (#[trigger] keys@[k])@ == uppercase_of(reps@[k]),
            p == (|v: LegacyValve| valve_migrates(reps@, v)),
            items_migrated(items@, valves@.take(i as int).filter(p)),
            items@.len() <= i,
            old_ids@.len() == items@.len(),
            forall|j: int| 0 <= j < old_ids@.len() ==> (#[trigger] old_ids@[j])@ == valves@.take(i as int).filter(p)[j].id@,
        decreases valves@.len() - i,
    {
        let ghost before = valves@.take(i as int).filter(p);
        proof {
            let t = valves@.take(i + 1);
            assert(t.drop_last() == valves@.take(i as int));
            assert(t.last() == valves@[i as int]);
            reveal(Seq::filter);
        }
        let v = &valves[i];
        let zone = trimmed(v.zone.as_str());
        let key = to_uppercase(zone.as_str());
        let known = known_key(keys, key.as_str());
        proof {
            if known {
                let k = choose|k: int| 0 <= k < keys@.len() && (#[trigger] keys@[k])@ == key@;
                assert(uppercase_of(reps@[k]) == key@);
            } else {
                assert forall|k: int| 0 <= k < reps@.len() implies uppercase_of(#[trigger] reps@[k]) != key@ by {
                    assert(keys@[k]@ == uppercase_of(reps@[k]));
                }
            }
        }
        if known {
            let machine_id = concat2("migrated-machine-", hash(key.as_str()).as_str());
            let count = count_of_machine(&items, machine_id.as_str());
            let item = migrate_valve(v, key.as_str(), count as u32 + 1);
            let ghost old_items = items@;
            items.push(item);
            old_ids.push(v.id.clone());
            proof {
                assert(before.push(*v) == valves@.take(i + 1).filter(p));
                assert(items@.take(old_items.len() as int) == old_items);
                assert forall|j: int| 0 <= j < items@.len() implies is_migrated_item(
                    #[trigger] items@[j],
                    valves@.take(i + 1).filter(p)[j],
                    (items@.take(j).filter(of_machine(items@[j].machine_id@)).len() + 1) as u32,
                ) by {
                    if j < old_items.len() {
                        assert(items@.take(j) == old_items.take(j));
                        assert(items@[j] == old_items[j]);
                    }
                }
            }
        } else {
            proof {
                assert(before == valves@.take(i + 1).filter(p));
            }
        }
        i += 1;
    }
    assert(valves@.take(i as int) == valves@);
    (items, old_ids)
}

/// Some migrated valve had identifier `old_id`.
pub open spec fn old_id_migrated(migrated: Seq<LegacyValve>, old_id: Seq<char>) -> bool {
    exists|j: int| 0 <= j < migrated.len() && (#[trigger] migrated[j]).id@ == old_id
}

/// `snap` freezes `category` as migrated orders and inspections see it: no photos.
pub open spec fn is_category_snapshot(snap: ItemCategorySnapshot, category: ItemCategory) -> bool {
    &&& snap.id == category.id
    &&& snap.code == category.code
    &&& snap.name == category.name
    &&& snap.guide_version == category.maintenance_guide.version
    &&& category.maintenance_guide.same_as(&snap.maintenance_guide)
    &&& snap.guide_reference_photos@.len() == 0
}

pub(crate) fn category_snapshot(category: &ItemCategory) -> (r: ItemCategorySnapshot)
    ensures
        is_category_snapshot(r, *category),
{
    ItemCategorySnapshot {
        id: category.id.clone(),
        code: category.code.clone(),
        name: category.name.clone(),
        guide_version: category.maintenance_guide.version,
        maintenance_guide: category.maintenance_guide.deep_copy(),
        guide_reference_photos: Vec::new(),
    }
}

/// When a migrated maintenance record was performed: its date, else when it was recorded.
pub open spec fn performed_at(m: LegacyMaintenance) -> u64 {
    match date_ms(m.performed_at@) {
        Some(x) => x as u64,
        None => m.created_at_ms,
    }
}

/// A maintenance record migrates when its valve did and that valve's item is found.
pub open spec fn record_migrates(migrated: Seq<LegacyValve>, items: Seq<MachineItem>, m: LegacyMaintenance) -> bool {
    old_id_migrated(migrated, m.valve_id@) && index_of_id(items, item_id_of(m.valve_id@)) is Some
}

/// `insp` is the completed inspection record `m` of `item` becomes.
pub open spec fn is_migrated_inspection(
    insp: ItemInspection,
    m: LegacyMaintenance,
    item: MachineItem,
    category: ItemCategory,
) -> bool {
    &&& insp.id@ == "migrated-inspection-"@ + hash_text(m.id@)
    &&& insp.service_order_task_id is None
    &&& insp.service_order_id is None
    &&& insp.machine_id == item.machine_id
    &&& insp.machine_item_id == item.id
    &&& is_category_snapshot(insp.category_snapshot, category)
    &&& insp.operator_id@ == "migrated-operator-"@ + hash_text(lowercase_of(m.technician@))
    &&& insp.operator_name == m.technician
    &&& insp.status == InspectionStatus::Completed
    &&& insp.started_at_ms == performed_at(m)
    &&& insp.completed_at_ms == Some(performed_at(m))
    &&& insp.status_before == OperationalStatus::Unknown
    &&& insp.status_after == Some(OperationalStatus::Unknown)
    &&& insp.step_results@.len() == 0
    &&& insp.findings@.len() == 0
    &&& insp.photo_ids@.len() == 0
    &&& insp.notes matches Some(n) && n@ == join_lines(maintenance_lines(m))
    &&& opt_view(insp.maintenance_action) == clean_spec(Some(m.service@))
}

/// The inspections the migrating records become, in order.
pub open spec fn inspections_migrated(
    inspections: Seq<ItemInspection>,
    records: Seq<LegacyMaintenance>,
    items: Seq<MachineItem>,
    category: ItemCategory,
) -> bool {
    &&& inspections.len() == records.len()
    &&& forall|j: int|
        0 <= j < records.len() ==> is_migrated_inspection(
            #[trigger] inspections[j],
            records[j],
            items[index_of_id(items, item_id_of(records[j].valve_id@))->0],
            category,
        )
}

fn migrate_records(
    records: &Vec<LegacyMaintenance>,
    old_ids: &Vec<String>,
    items: &Vec<MachineItem>,
    category: &ItemCategory,
    migrated: Ghost<Seq<LegacyValve>>,
) -> (r: Vec<ItemInspection>)
    requires
        old_ids@.len() == migrated@.len(),
        forall|j: int| 0 <= j < old_ids@.len() ==> (#[trigger] old_ids@[j])@ == migrated@[j].id@,
    ensures
        inspections_migrated(
            r@,
            records@.filter(|m: LegacyMaintenance| record_migrates(migrated@, items@, m)),
            items@,
            *category,
        ),
{
    let ghost p = |m: LegacyMaintenance| record_migrates(migrated@, items@, m);
    let mut out: Vec<ItemInspection> = Vec::new();
    let mut i: usize = 0;
    while i < records.len()
        invariant
            i <= records@.len(),
            old_ids@.len() == migrated@.len(),
            forall|j: int| 0 <= j < old_ids@.len() ==> (#[trigger] old_ids@[j])@ == migrated@[j].id@,
                p == (|m: LegacyMaintenance| record_migrates(migrated@, items@, m)),
            inspections_migrated(out@, records@.take(i as int).filter(p), items@, *category),
        decreases records@.len() - i,
    {
        let ghost before = records@.take(i as int).filter(p);
        proof {
            let t = records@.take(i + 1);
            assert(t.drop_last() == records@.take(i as int));
            assert(t.last() == records@[i as int]);
            reveal(Seq::filter);
        }
        let m = &records[i];
        let known = known_key(old_ids, m.valve_id.as_str());
        proof {
            if known {
                let k = choose|k: int| 0 <= k < old_ids@.len() && (#[trigger] old_ids@[k])@ == m.valve_id@;
                assert(migrated@[k].id@ == m.valve_id@);
            } else {
                assert forall|k: int| 0 <= k < migrated@.len() implies (#[trigger] migrated@[k]).id@ != m.valve_id@ by {
                    assert(old_ids@[k]@ == migrated@[k].id@);
                }
            }
        }
        let item_id = concat2("migrated-machine-item-", hash(m.valve_id.as_str()).as_str());
        let found = if known {
            position_of_id(items, item_id.as_str())
        } else {
            None
        };
        match found {
            Some(k) => {
                let item = &items[k];
                let performed = match date_to_ms(m.performed_at.as_str()) {
                    Some(x) => x,
                    None => m.created_at_ms,
                };
                let technician_key = to_lowercase(m.technician.as_str());
                let inspection = ItemInspection {
                    id: concat2("migrated-inspection-", hash(m.id.as_str()).as_str()),
                    service_order_task_id: None,
                    service_order_id: None,
                    machine_id: item.machine_id.clone(),
                    machine_item_id: item.id.clone(),
                    category_snapshot: category_snapshot(category),
                    operator_id: concat2("migrated-operator-", hash(technician_key.as_str()).as_str()),
                    operator_name: m.technician.clone(),
                    status: InspectionStatus::Completed,
                    started_at_ms: performed,
                    completed_at_ms: Some(performed),
                    status_before: OperationalStatus::Unknown,
                    status_after: Some(OperationalStatus::Unknown),
                    step_results: Vec::new(),
                    findings: Vec::new(),
                    photo_ids: Vec::new(),
                    notes: Some(maintenance_notes(m)),
                    maintenance_action: clean_optional(Some(m.service.clone())),
                };
                out.push(inspection);
                proof {
                    assert(before.push(*m) == records@.take(i + 1).filter(p));
                }
            },
            None => {
                proof {
                    assert(before == records@.take(i + 1).filter(p));
                }
            },
        }
        i += 1;
    }
    assert(records@.take(i as int) == records@);
    out
}

/// The status a migrated order takes.
pub open spec fn order_status_of(status: LegacyOrderStatus) -> ServiceOrderStatus {
    match status {
        LegacyOrderStatus::Pending => ServiceOrderStatus::Pending,
        LegacyOrderStatus::InProgress => ServiceOrderStatus::InProgress,
        LegacyOrderStatus::Completed => ServiceOrderStatus::Completed,
    }
}

/// The status the tasks of a migrated order take.
pub open spec fn task_status_of(status: ServiceOrderStatus) -> ServiceOrderTaskStatus {
    match status {
        ServiceOrderStatus::Completed => ServiceOrderTaskStatus::Completed,
        ServiceOrderStatus::InProgress => ServiceOrderTaskStatus::InProgress,
        _ => ServiceOrderTaskStatus::Pending,
    }
}

/// The position of the machine of a legacy order's zone, if it has one.
pub open spec fn order_machine(o: LegacyOrder, reps: Seq<Seq<char>>, machines: Seq<Machine>) -> Option<int> {
    let key = uppercase_of(trim(o.zone@));
    if zone_known(reps, key) {
        index_of_id(machines, zone_machine_id(key))
    } else {
        None
    }
}

/// The test "active item of machine `machine_id`".
pub open spec fn active_of(machine_id: Seq<char>) -> spec_fn(MachineItem) -> bool {
    |it: MachineItem| it.machine_id@ == machine_id && it.active
}

/// The items a migrated order covers: its valve's item, or every active item of its
/// machine.
pub open spec fn order_items(
    o: LegacyOrder,
    migrated: Seq<LegacyValve>,
    items: Seq<MachineItem>,
    machine: Machine,
) -> Seq<MachineItem> {
    match o.valve_id {
        Some(v) => if old_id_migrated(migrated, v@) {
            match index_of_id(items, item_id_of(v@)) {
                Some(k) => seq![items[k]],
                None => Seq::empty(),
            }
        } else {
            Seq::empty()
        },
        None => items.filter(active_of(machine.id@)),
    }
}

/// A legacy order migrates when its zone has a machine and it covers some item.
pub open spec fn order_migrates(
    o: LegacyOrder,
    reps: Seq<Seq<char>>,
    machines: Seq<Machine>,
    migrated: Seq<LegacyValve>,
    items: Seq<MachineItem>,
) -> bool {
    match order_machine(o, reps, machines) {
        Some(k) => order_items(o, migrated, items, machines[k]).len() > 0,
        None => false,
    }
}

/// `snap` freezes `item` of `category` as a migrated order sees it.
pub open spec fn is_legacy_item_snapshot(snap: MachineItemSnapshot, item: MachineItem, category: ItemCategory) -> bool {
    &&& snap.id == item.id
    &&& snap.machine_id == item.machine_id
    &&& is_category_snapshot(snap.category, category)
    &&& snap.name == item.name
    &&& snap.code == item.code
    &&& snap.complexity_level == item.complexity_level
    &&& crate::copies::same_opt(item.installed_component, snap.installed_component)
}

/// `t` is the task of migrated order `o` for `item`.
pub open spec fn is_migrated_task(t: ServiceOrderTask, o: LegacyOrder, item: MachineItem, category: ItemCategory) -> bool {
    let status = task_status_of(order_status_of(o.status));
    &&& t.id@ == "migrated-task-"@ + hash_text(o.id@) + "-"@ + hash_text(item.id@)
    &&& t.machine_item_id == item.id
    &&& is_legacy_item_snapshot(t.item_snapshot, item, category)
    &&& t.complexity_snapshot == item.complexity_level
    &&& t.assigned_operator_id is None
    &&& t.status == status
    &&& t.started_at_ms == if status != ServiceOrderTaskStatus::Pending {
        Some(o.updated_at_ms)
    } else {
        None
    }
    &&& t.completed_at_ms == if status == ServiceOrderTaskStatus::Completed {
        Some(o.updated_at_ms)
    } else {
        None
    }
    &&& t.inspection_id is None
}

/// `order` is what legacy order `o` becomes on `machine`, with tasks for `selected`.
pub open spec fn is_migrated_order(
    order: ServiceOrder,
    o: LegacyOrder,
    machine: Machine,
    selected: Seq<MachineItem>,
    category: ItemCategory,
) -> bool {
    let status = order_status_of(o.status);
    &&& order.id@ == "migrated-order-"@ + hash_text(o.id@)
    &&& order.machine_id == machine.id
    &&& order.machine_snapshot == MachineSnapshot {
        id: machine.id,
        code: machine.code,
        name: machine.name,
        zone: machine.zone,
        location: machine.location,
    }
    &&& order.description@ == join_lines(order_lines(o))
    &&& order.priority == o.priority
    &&& order.status == status
    &&& order.created_by == o.created_by
    &&& order.scheduled_for == o.scheduled_for
    &&& order.tasks@.len() == selected.len()
    &&& forall|j: int| 0 <= j < selected.len() ==> is_migrated_task(#[trigger] order.tasks@[j], o, selected[j], category)
    &&& order.created_at_ms == o.created_at_ms
    &&& order.started_at_ms == if status != ServiceOrderStatus::Pending {
        Some(o.updated_at_ms)
    } else {
        None
    }
    &&& order.completed_at_ms == if status == ServiceOrderStatus::Completed {
        Some(o.updated_at_ms)
    } else {
        None
    }
    &&& order.updated_at_ms == o.updated_at_ms
}

pub(crate) fn legacy_item_snapshot(item: &MachineItem, category: &ItemCategory) -> (r: MachineItemSnapshot)
    ensures
        is_legacy_item_snapshot(r, *item, *category),
{
    MachineItemSnapshot {
        id: item.id.clone(),
        machine_id: item.machine_id.clone(),
        category: category_snapshot(category),
        name: item.name.clone(),
        code: item.code.clone(),
        complexity_level: item.complexity_level,
        installed_component: crate::copies::deep_copy_opt(&item.installed_component),
    }
}

fn active_items_of(items: &Vec<MachineItem>, machine_id: &str) -> (r: Vec<usize>)
    ensures
        r@.len() == items@.filter(active_of(machine_id@)).len(),
        forall|j: int| 0 <= j < r@.len() ==> (#[trigger] r@[j]) < items@.len() && items@[r@[j] as int] == items@.filter(active_of(machine_id@))[j],
{
    let ghost p = active_of(machine_id@);
    let mut out: Vec<usize> = Vec::new();
    let mut i: usize = 0;
    while i < items.len()
        invariant
            i <= items@.len(),
            p == active_of(machine_id@),
            out@.len() == items@.take(i as int).filter(p).len(),
            forall|j: int| 0 <= j < out@.len() ==> (#[trigger] out@[j]) < items@.len() && items@[out@[j] as int] == items@.take(i as int).filter(p)[j],
        decreases items@.len() - i,
    {
        let ghost before = items@.take(i as int).filter(p);
        proof {
            let t = items@.take(i + 1);
            assert(t.drop_last() == items@.take(i as int));
            assert(t.last() == items@[i as int]);
            reveal(Seq::filter);
        }
        if items[i].active && str_equal(items[i].machine_id.as_str(), machine_id) {
            out.push(i);
            proof {
                assert(before.push(items@[i as int]) == items@.take(i + 1).filter(p));
            }
        } else {
            proof {
                assert(before == items@.take(i + 1).filter(p));
            }
        }
        i += 1;
    }
    assert(items@.take(i as int) == items@);
    out
}

fn order_selection(
    o: &LegacyOrder,
    old_ids: &Vec<String>,
    items: &Vec<MachineItem>,
    machine: &Machine,
    migrated: Ghost<Seq<LegacyValve>>,
) -> (r: Vec<usize>)
    requires
        old_ids@.len() == migrated@.len(),
        forall|j: int| 0 <= j < old_ids@.len() ==> (#[trigger] old_ids@[j])@ == migrated@[j].id@,
    ensures
        r@.len() == order_items(*o, migrated@, items@, *machine).len(),
        forall|j: int| 0 <= j < r@.len() ==> (#[trigger] r@[j]) < items@.len() && items@[r@[j] as int] == order_items(*o, migrated@, items@, *machine)[j],
{
    match &o.valve_id {
        Some(v) => {
            let known = known_key(old_ids, v.as_str());
            proof {
                if known {
                    let k = choose|k: int| 0 <= k < old_ids@.len() && (#[trigger] old_ids@[k])@ == v@;
                    assert(migrated@[k].id@ == v@);
                } else {
                    assert forall|k: int| 0 <= k < migrated@.len() implies (#[trigger] migrated@[k]).id@ != v@ by {
                        assert(old_ids@[k]@ == migrated@[k].id@);
                    }
                }
            }
            let mut out: Vec<usize> = Vec::new();
            if known {
                let item_id = concat2("migrated-machine-item-", hash(v.as_str()).as_str());
                if let Some(k) = position_of_id(items, item_id.as_str()) {
                    out.push(k);
                }
            }
            out
        },
        None => active_items_of(items, machine.id.as_str()),
    }
}

/// The orders the migrating legacy orders become, in order.
pub open spec fn orders_migrated(
    orders: Seq<ServiceOrder>,
    legacy: Seq<LegacyOrder>,
    reps: Seq<Seq<char>>,
    machines: Seq<Machine>,
    migrated: Seq<LegacyValve>,
    items: Seq<MachineItem>,
    category: ItemCategory,
) -> bool {
    &&& orders.len() == legacy.len()
    &&& forall|j: int|
        0 <= j < legacy.len() ==> {
            let machine = machines[order_machine(legacy[j], reps, machines)->0];
            is_migrated_order(
                #[trigger] orders[j],
                legacy[j],
                machine,
                order_items(legacy[j], migrated, items, machine),
                category,
            )
        }
}

fn migrate_order(
    o: &LegacyOrder,
    machine: &Machine,
    items: &Vec<MachineItem>,
    selected: &Vec<usize>,
    category: &ItemCategory,
    wanted: Ghost<Seq<MachineItem>>,
) -> (r: ServiceOrder)
    requires
        selected@.len() == wanted@.len(),
        forall|j: int| 0 <= j < selected@.len() ==> (#[trigger] selected@[j]) < items@.len() && items@[selected@[j] as int] == wanted@[j],
    ensures
        is_migrated_order(r, *o, *machine, wanted@, *category),
{
    let status = match o.status {
        LegacyOrderStatus::Pending => ServiceOrderStatus::Pending,
        LegacyOrderStatus::InProgress => ServiceOrderStatus::InProgress,
        LegacyOrderStatus::Completed => ServiceOrderStatus::Completed,
    };
    let task_status = match status {
        ServiceOrderStatus::Completed => ServiceOrderTaskStatus::Completed,
        ServiceOrderStatus::InProgress => ServiceOrderTaskStatus::InProgress,
        _ => ServiceOrderTaskStatus::Pending,
    };
    let order_hash = hash(o.id.as_str());
    let mut tasks: Vec<ServiceOrderTask> = Vec::new();
    let mut j: usize = 0;
    while j < selected.len()
        invariant
            j <= selected@.len(),
            selected@.len() == wanted@.len(),
            forall|q: int| 0 <= q < selected@.len() ==> (#[trigger] selected@[q]) < items@.len() && items@[selected@[q] as int] == wanted@[q],
            status == order_status_of(o.status),
            task_status == task_status_of(status),
            order_hash@ == hash_text(o.id@),
            tasks@.len() == j,
            forall|q: int| 0 <= q < j ==> is_migrated_task(#[trigger] tasks@[q], *o, wanted@[q], *category),
        decreases selected@.len() - j,
    {
        let item = &items[selected[j]];
        let task = ServiceOrderTask {
            id: concat3("migrated-task-", order_hash.as_str(), "-"),
            machine_item_id: item.id.clone(),
            item_snapshot: legacy_item_snapshot(item, category),
            complexity_snapshot: item.complexity_level,
            assigned_operator_id: None,
            status: task_status,
            started_at_ms: if task_status != ServiceOrderTaskStatus::Pending {
                Some(o.updated_at_ms)
            } else {
                None
            },
            completed_at_ms: if task_status == ServiceOrderTaskStatus::Completed {
                Some(o.updated_at_ms)
            } else {
                None
            },
            inspection_id: None,
        };
        let mut task = task;
        append_str(&mut task.id, hash(item.id.as_str()).as_str());
        tasks.push(task);
        j += 1;
    }
    ServiceOrder {
        id: concat2("migrated-order-", order_hash.as_str()),
        machine_id: machine.id.clone(),
        machine_snapshot: MachineSnapshot {
            id: machine.id.clone(),
            code: machine.code.clone(),
            name: machine.name.clone(),
            zone: machine.zone.clone(),
            location: copy_text(&machine.location),
        },
        description: order_description(o),
        priority: o.priority,
        status,
        created_by: o.created_by.clone(),
        scheduled_for: copy_text(&o.scheduled_for),
        tasks,
        created_at_ms: o.created_at_ms,
        started_at_ms: if status != ServiceOrderStatus::Pending {
            Some(o.updated_at_ms)
        } else {
            None
        },
        completed_at_ms: if status == ServiceOrderStatus::Completed {
            Some(o.updated_at_ms)
        } else {
            None
        },
        updated_at_ms: o.updated_at_ms,
    }
}

fn migrate_orders(
    legacy: &Vec<LegacyOrder>,
    keys: &Vec<String>,
    machines: &Vec<Machine>,
    old_ids: &Vec<String>,
    items: &Vec<MachineItem>,
    category: &ItemCategory,
    reps: Ghost<Seq<Seq<char>>>,
    migrated: Ghost<Seq<LegacyValve>>,
) -> (r: Vec<ServiceOrder>)
    requires
        keys@.len() == reps@.len(),
        forall|k: int| 0 <= k < reps@.len() ==> (#[trigger] keys@[k])@ == uppercase_of(reps@[k]),
        old_ids@.len() == migrated@.len(),
        forall|j: int| 0 <= j < old_ids@.len() ==> (#[trigger] old_ids@[j])@ == migrated@[j].id@,
    ensures
        orders_migrated(
            r@,
            legacy@.filter(|o: LegacyOrder| order_migrates(o, reps@, machines@, migrated@, items@)),
            reps@,
            machines@,
            migrated@,
            items@,
            *category,
        ),
{
    let ghost p = |o: LegacyOrder| order_migrates(o, reps@, machines@, migrated@, items@);
    let mut out: Vec<ServiceOrder> = Vec::new();
    let mut i: usize = 0;
    while i < legacy.len()
        invariant
            i <= legacy@.len(),
            keys@.len() == reps@.len(),
            forall|k: int| 0 <= k < reps@.len() ==> (#[trigger] keys@[k])@ == uppercase_of(reps@[k]),
            old_ids@.len() == migrated@.len(),
            forall|j: int| 0 <= j < old_ids@.len() ==> (#[trigger] old_ids@[j])@ == migrated@[j].id@,
            p == (|o: LegacyOrder| order_migrates(o, reps@, machines@, migrated@, items@)),
            orders_migrated(out@, legacy@.take(i as int).filter(p), reps@, machines@, migrated@, items@, *category),
        decreases legacy@.len() - i,
    {
        let ghost before = legacy@.take(i as int).filter(p);
        proof {
            let t = legacy@.take(i + 1);
            assert(t.drop_last() == legacy@.take(i as int));
            assert(t.last() == legacy@[i as int]);
            reveal(Seq::filter);
        }
        let o = &legacy[i];
        let zone = trimmed(o.zone.as_str());
        let key = to_uppercase(zone.as_str());
        let known = known_key(keys, key.as_str());
        proof {
            if known {
                let k = choose|k: int| 0 <= k < keys@.len() && (#[trigger] keys@[k])@ == key@;
                assert(uppercase_of(reps@[k]) == key@);
            } else {
                assert forall|k: int| 0 <= k < reps@.len() implies uppercase_of(#[trigger] reps@[k]) != key@ by {
                    assert(keys@[k]@ == uppercase_of(reps@[k]));
                }
            }
        }
        let position = if known {
            let machine_id = concat2("migrated-machine-", hash(key.as_str()).as_str());
            position_of_id(machines, machine_id.as_str())
        } else {
            None
        };
        let mut taken = false;
        if let Some(m) = position {
            let machine = &machines[m];
            let selected = order_selection(o, old_ids, items, machine, migrated);
            if selected.len() > 0 {
                let order = migrate_order(
                    o,
                    machine,
                    items,
                    &selected,
                    category,
                    Ghost(order_items(*o, migrated@, items@, *machine)),
                );
                out.push(order);
                taken = true;
                proof {
                    assert(before.push(*o) == legacy@.take(i + 1).filter(p));
                }
            }
        }
        if !taken {
            proof {
                assert(before == legacy@.take(i + 1).filter(p));
            }
        }
        i += 1;
    }
    assert(legacy@.take(i as int) == legacy@);
    out
}

/// `p` is the reference photo of the migrated item that legacy photo `old` becomes.
pub open spec fn is_migrated_photo(p: PhotoAsset, old: LegacyPhoto) -> bool {
    &&& p.id@ == "migrated-photo-"@ + hash_text(old.id@)
    &&& p.owner_type == PhotoOwnerType::MachineItem
    &&& p.owner_id@ == item_id_of(old.valve_id@)
    &&& p.purpose == PhotoPurpose::Reference
    &&& p.blob_ref == old.blob_ref
    &&& opt_view(p.description) == match old.legacy_tag {
        Some(tag) => Some("Migrated reference photo for "@ + tag@),
        None => None,
    }
    &&& p.created_by@ == "schema-migration"@
    &&& p.created_at_ms == 0
}

/// A legacy photo migrates when its valve did.
pub open spec fn photo_migrates(migrated: Seq<LegacyValve>, old: LegacyPhoto) -> bool {
    old_id_migrated(migrated, old.valve_id@)
}

/// The photos the migrating legacy photos become, in order.
pub open spec fn photos_migrated(photos: Seq<PhotoAsset>, legacy: Seq<LegacyPhoto>) -> bool {
    &&& photos.len() == legacy.len()
    &&& forall|j: int| 0 <= j < legacy.len() ==> is_migrated_photo(#[trigger] photos[j], legacy[j])
}

fn migrate_photos(legacy: &Vec<LegacyPhoto>, old_ids: &Vec<String>, migrated: Ghost<Seq<LegacyValve>>) -> (r: Vec<
    PhotoAsset,
>)
    requires
        old_ids@.len() == migrated@.len(),
        forall|j: int| 0 <= j < old_ids@.len() ==> (#[trigger] old_ids@[j])@ == migrated@[j].id@,
    ensures
        photos_migrated(r@, legacy@.filter(|p: LegacyPhoto| photo_migrates(migrated@, p))),
{
    let ghost p = |ph: LegacyPhoto| photo_migrates(migrated@, ph);
    let mut out: Vec<PhotoAsset> = Vec::new();
    let mut i: usize = 0;
    while i < legacy.len()
        invariant
            i <= legacy@.len(),
            old_ids@.len() == migrated@.len(),
            forall|j: int| 0 <= j < old_ids@.len() ==> (#[trigger] old_ids@[j])@ == migrated@[j].id@,
            p == (|ph: LegacyPhoto| photo_migrates(migrated@, ph)),
            photos_migrated(out@, legacy@.take(i as int).filter(p)),
        decreases legacy@.len() - i,
    {
        let ghost before = legacy@.take(i as int).filter(p);
        proof {
            let t = legacy@.take(i + 1);
            assert(t.drop_last() == legacy@.take(i as int));
            assert(t.last() == legacy@[i as int]);
            reveal(Seq::filter);
        }
        let old = &legacy[i];
        let known = known_key(old_ids, old.valve_id.as_str());
        proof {
            if known {
                let k = choose|k: int| 0 <= k < old_ids@.len() && (#[trigger] old_ids@[k])@ == old.valve_id@;
                assert(migrated@[k].id@ == old.valve_id@);
            } else {
                assert forall|k: int| 0 <= k < migrated@.len() implies (#[trigger] migrated@[k]).id@ != old.valve_id@ by {
                    assert(old_ids@[k]@ == migrated@[k].id@);
                }
            }
        }
        if known {
            let description = match &old.legacy_tag {
                Some(tag) => Some(concat2("Migrated reference photo for ", tag.as_str())),
                None => None,
            };
            out.push(PhotoAsset {
                id: concat2("migrated-photo-", hash(old.id.as_str()).as_str()),
                owner_type: PhotoOwnerType::MachineItem,
                owner_id: concat2("migrated-machine-item-", hash(old.valve_id.as_str()).as_str()),
                purpose: PhotoPurpose::Reference,
                blob_ref: old.blob_ref.clone(),
                description,
                created_by: owned("schema-migration"),
                created_at_ms: 0,
            });
            proof {
                assert(before.push(*old) == legacy@.take(i + 1).filter(p));
            }
        } else {
            proof {
                assert(before == legacy@.take(i + 1).filter(p));
            }
        }
        i += 1;
    }
    assert(legacy@.take(i as int) == legacy@);
    out
}

/// The repair level a migrated account gets from its role.
pub open spec fn default_level_of(role: Seq<char>) -> u8 {
    if role == "admin"@ || role == "chefe"@ {
        5u8
    } else {
        3u8
    }
}

/// `after` is account `before` with the repair level its role gives.
pub open spec fn is_level_reset(after: UserAccount, before: UserAccount) -> bool {
    &&& after == (UserAccount { maximum_repair_level: after.maximum_repair_level, ..before })
    &&& after.maximum_repair_level.value() == default_level_of(before.role@)
}

fn reset_repair_levels(users: &mut Vec<UserAccount>)
    ensures
        final(users)@.len() == old(users)@.len(),
        forall|j: int| 0 <= j < old(users)@.len() ==> is_level_reset(#[trigger] final(users)@[j], old(users)@[j]),
{
    let ghost start = users@;
    let mut i: usize = 0;
    while i < users.len()
        invariant
            i <= users@.len(),
            users@.len() == start.len(),
            forall|j: int| 0 <= j < i ==> is_level_reset(#[trigger] users@[j], start[j]),
            forall|j: int| i <= j < users@.len() ==> #[trigger] users@[j] == start[j],
        decreases users@.len() - i,
    {
        let mut user = users.remove(i);
        user.maximum_repair_level = default_repair_level(user.role.as_str());
        users.insert(i, user);
        i += 1;
    }
}

fn refresh_statuses(machines: &mut Vec<Machine>, items: &Vec<MachineItem>)
    ensures
        final(machines)@.len() == old(machines)@.len(),
        forall|k: int|
            0 <= k < old(machines)@.len() ==> #[trigger] final(machines)@[k] == (Machine {
                status: derived_status(machine_statuses(items@, old(machines)@[k].id@)),
                ..old(machines)@[k]
            }),
{
    let ghost start = machines@;
    let mut k: usize = 0;
    while k < machines.len()
        invariant
            k <= machines@.len(),
            machines@.len() == start.len(),
            forall|j: int|
                0 <= j < k ==> #[trigger] machines@[j] == (Machine {
                    status: derived_status(machine_statuses(items@, start[j].id@)),
                    ..start[j]
                }),
            forall|j: int| k <= j < machines@.len() ==> #[trigger] machines@[j] == start[j],
        decreases machines@.len() - k,
    {
        let statuses = statuses_of(items, machines[k].id.as_str());
        let derived = derive_machine_status(statuses.as_slice());
        let mut machine = machines.remove(k);
        machine.status = derived;
        machines.insert(k, machine);
        k += 1;
    }
}

/// `e` records the migration itself.
pub open spec fn is_migration_event(e: AuditEvent) -> bool {
    &&& e.id@ == "audit-schema-v1-v2"@
    &&& e.actor@ == "schema-migration"@
    &&& e.role@ == "system"@
    &&& e.operation@ == "proexel.schema.migrate_v1_v2"@
    &&& e.aggregate@ == "application_state"@
    &&& e.aggregate_id@ == "schema-2"@
    &&& opt_view(e.description) == Some("Migrated persisted state from schema 1 to schema 2"@)
    &&& e.trace_id is None
    &&& e.before_json matches Some(AuditRecord::Encoded(b)) && b@ == "{\"schema_version\":1}"@
    &&& e.after_json matches Some(AuditRecord::Encoded(a)) && a@ == "{\"schema_version\":2}"@
    &&& e.result@ == "success"@
    &&& e.created_at_ms == 0
}

fn migration_event() -> (r: AuditEvent)
    ensures
        is_migration_event(r),
{
    AuditEvent {
        id: owned("audit-schema-v1-v2"),
        actor: owned("schema-migration"),
        role: owned("system"),
        operation: owned("proexel.schema.migrate_v1_v2"),
        aggregate: owned("application_state"),
        aggregate_id: owned("schema-2"),
        description: Some(owned("Migrated persisted state from schema 1 to schema 2")),
        trace_id: None,
        before_json: Some(AuditRecord::Encoded(owned("{\"schema_version\":1}"))),
        after_json: Some(AuditRecord::Encoded(owned("{\"schema_version\":2}"))),
        result: owned("success"),
        created_at_ms: 0,
    }
}

/// The zones of a schema 1 state that get a machine, one per uppercase spelling.
pub open spec fn legacy_zones(legacy: LegacyStateV1) -> Seq<Seq<char>> {
    zone_representatives(zone_list(legacy.valves@, legacy.service_orders@))
}

/// The valves of a schema 1 state that become items.
pub open spec fn legacy_migrated(legacy: LegacyStateV1) -> Seq<LegacyValve> {
    migrated_valves(legacy.valves@, legacy_zones(legacy))
}

/// What the schema 1 state `legacy` becomes.
///
/// Records kept as they were (restock requests, stock, suppliers) are moved over; each
/// account gets the repair level its role gives; each zone becomes a machine whose status
/// is derived from its items; each valve of such a zone becomes an item of the migrated
/// category; maintenance records, orders and photos of migrated valves follow them, the
/// first two only when there was a valve at all; and one audit event records the
/// migration.
pub open spec fn is_migrated_state(r: ApplicationState, legacy: LegacyStateV1) -> bool {
    let reps = legacy_zones(legacy);
    let migrated = legacy_migrated(legacy);
    let items = r.machine_items@;
    &&& r.schema_version == SCHEMA_VERSION
    &&& r.restock_requests == legacy.restock_requests
    &&& r.stock_items == legacy.stock_items
    &&& r.stock_movements == legacy.stock_movements
    &&& r.suppliers == legacy.suppliers
    &&& r.user_accounts@.len() == legacy.user_accounts@.len()
    &&& forall|j: int|
        0 <= j < legacy.user_accounts@.len() ==> is_level_reset(
            #[trigger] r.user_accounts@[j],
            legacy.user_accounts@[j],
        )
    &&& r.audit_events@.len() == legacy.audit_events@.len() + 1
    &&& r.audit_events@.drop_last() == legacy.audit_events@
    &&& is_migration_event(r.audit_events@.last())
    &&& r.machines@.len() == reps.len()
    &&& forall|k: int|
        0 <= k < reps.len() ==> {
            &&& is_zone_machine(#[trigger] r.machines@[k], reps[k])
            &&& r.machines@[k].status == derived_status(machine_statuses(items, r.machines@[k].id@))
        }
    &&& items_migrated(items, migrated)
    &&& r.machine_item_replacements@.len() == 0
    &&& photos_migrated(r.photos@, legacy.valve_photos@.filter(|p: LegacyPhoto| photo_migrates(migrated, p)))
    &&& r.processed_commands@.len() == 0
    &&& if legacy.valves@.len() == 0 {
        &&& r.item_categories@.len() == 0
        &&& r.inspections@.len() == 0
        &&& r.service_orders@.len() == 0
    } else {
        let category = r.item_categories@[0];
        &&& r.item_categories@.len() == 1
        &&& is_migrated_category(category)
        &&& inspections_migrated(
            r.inspections@,
            legacy.maintenance_records@.filter(|m: LegacyMaintenance| record_migrates(migrated, items, m)),
            items,
            category,
        )
        &&& orders_migrated(
            r.service_orders@,
            legacy.service_orders@.filter(
                |o: LegacyOrder| order_migrates(o, reps, r.machines@, migrated, items),
            ),
            reps,
            r.machines@,
            migrated,
            items,
            category,
        )
    }
}

/// Migrates a state persisted under schema 1 to the current schema.
pub fn migrate_v1(legacy: LegacyStateV1) -> (r: ApplicationState)
    requires
        legacy.valves@.len() < u32::MAX,
    ensures
        is_migrated_state(r, legacy),
{
    let ghost reps = legacy_zones(legacy);
    let ghost migrated = legacy_migrated(legacy);
    let (mut machines, keys) = zone_machines(&legacy.valves, &legacy.service_orders);
    let (items, old_ids) = migrate_valves(&legacy.valves, &keys, Ghost(reps));
    let ghost zone_built = machines@;
    refresh_statuses(&mut machines, &items);
    assert forall|k: int| 0 <= k < reps.len() implies is_zone_machine(#[trigger] machines@[k], reps[k]) by {
        assert(is_zone_machine(zone_built[k], reps[k]));
    }
    let mut categories: Vec<ItemCategory> = Vec::new();
    let mut inspections: Vec<ItemInspection> = Vec::new();
    let mut orders: Vec<ServiceOrder> = Vec::new();
    if legacy.valves.len() > 0 {
        let category = migrated_category();
        inspections = migrate_records(
            &legacy.maintenance_records,
            &old_ids,
            &items,
            &category,
            Ghost(migrated),
        );
        orders = migrate_orders(
            &legacy.service_orders,
            &keys,
            &machines,
            &old_ids,
            &items,
            &category,
            Ghost(reps),
            Ghost(migrated),
        );
        categories.push(category);
    }
    let photos = migrate_photos(&legacy.valve_photos, &old_ids, Ghost(migrated));
    let mut users = legacy.user_accounts;
    reset_repair_levels(&mut users);
    let mut audit_events = legacy.audit_events;
    audit_events.push(migration_event());
    assert(audit_events@.drop_last() == legacy.audit_events@);
    let r = ApplicationState {
        schema_version: SCHEMA_VERSION,
        item_categories: categories,
        machines,
        machine_items: items,
        machine_item_replacements: Vec::new(),
        photos,
        service_orders: orders,
        inspections,
        restock_requests: legacy.restock_requests,
        stock_items: legacy.stock_items,
        stock_movements: legacy.stock_movements,
        suppliers: legacy.suppliers,
        user_accounts: users,
        audit_events,
        processed_commands: Vec::new(),
    };
    assert(r.schema_version == SCHEMA_VERSION);
    assert(r.audit_events@.drop_last() == legacy.audit_events@);
    assert(items_migrated(r.machine_items@, migrated));
    assert(photos_migrated(r.photos@, legacy.valve_photos@.filter(|p: LegacyPhoto| photo_migrates(migrated, p))));
    assert(legacy.valves@.len() != 0 ==> is_migrated_category(r.item_categories@[0]));
    r
}

/// How a persisted state is read: as the current layout, or as schema 1 to migrate.
#[derive(Debug, Clone, Copy, PartialEq, Eq, Structural)]
pub enum PersistedLayout {
    Current,
    SchemaV1,
}

/// The schema a persisted state declares: its `schema_version` field taken as a 32-bit
/// number, or 1 when it has none.
pub open spec fn declared_schema(version: Option<u64>) -> u32 {
    (match version {
        Some(v) => v,
        None => 1u64,
    }) as u32
}

/// How a state declaring `version` is read: the current schema or a later one as is,
/// schema 1 through the migration, any other schema refused.
pub open spec fn layout_of(version: Option<u64>) -> Result<PersistedLayout, Seq<char>> {
    let v = declared_schema(version);
    if v >= SCHEMA_VERSION {
        Ok(PersistedLayout::Current)
    } else if v != 1 {
        Err("unsupported_schema_version:"@ + decimal_text(v as nat))
    } else {
        Ok(PersistedLayout::SchemaV1)
    }
}

/// Decides from the declared schema version how a persisted state is read.
pub fn persisted_layout(version: Option<u64>) -> (r: Result<PersistedLayout, String>)
    ensures
        match layout_of(version) {
            Ok(l) => r == Ok::<PersistedLayout, String>(l),
            Err(e) => r matches Err(x) && x@ == e,
        },
{
    let raw: u64 = match version {
        Some(v) => v,
        None => 1,
    };
    let declared = raw as u32;
    if declared >= SCHEMA_VERSION {
        Ok(PersistedLayout::Current)
    } else if declared != 1 {
        Err(concat2("unsupported_schema_version:", decimal_string(declared as u64).as_str()))
    } else {
        Ok(PersistedLayout::SchemaV1)
    }
}

} // verus!
