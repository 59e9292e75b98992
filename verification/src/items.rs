//! Machine items: their custom values, creation, updates, order, removal and the
//! replacement of their physical unit.
use vstd::prelude::*;

use crate::commands::{
    CommandData, InstalledComponentInput, MachineItemInput, ReorderMachineItems, ReplaceMachineItem,
    UpdateMachineItem,
};
use crate::copies::DeepCopy;
use crate::lookup::{first_index, index_of_id, is_first, lemma_first_index, position_of_id};
use crate::machines::refreshed_machines;
use crate::model::{
    AuditRecord, CustomFieldDefinition, CustomFieldType, FieldValue, InstalledComponent, ItemCategory,
    MachineItem, MachineItemReplacement, NumberBits, OperationalStatus, ReplacementSpecification,
    ServiceOrder, ServiceOrderStatus, ServiceOrderTaskStatus,
};
use crate::numbers::{is_nan, less_than, number_lt};
use crate::orders::{active_item_of, active_machine_is};
use crate::permissions::{allowed, require_permission, Role};
use crate::policy::{normalize_identifier, normalized_identifier};
use crate::state::{
    domain_action, event_is, invalid_data, require_text, supplemental_event_ok, Action, Actor,
    ApplicationState,
};
use crate::text::{
    blank, clean_optional, clean_spec, concat2, distinct_texts, has_duplicate_texts, is_blank,
    opt_view, owned, str_equal, trim, trimmed,
};

verus! {

/// The test "named pair with key `key`".
pub open spec fn pair_is(key: Seq<char>) -> spec_fn((String, FieldValue)) -> bool {
    |p: (String, FieldValue)| p.0@ == key
}

/// The value given for `key`, if any.
pub open spec fn value_for(values: Seq<(String, FieldValue)>, key: Seq<char>) -> Option<FieldValue> {
    match first_index(values, pair_is(key)) {
        Some(k) => Some(values[k].1),
        None => None,
    }
}

/// Null, or text that is blank.
pub open spec fn is_empty_value(v: FieldValue) -> bool {
    match v {
        FieldValue::Null => true,
        FieldValue::Text(t) => is_blank(t@),
        _ => false,
    }
}

/// `a >= b` as numbers; false when either is NaN.
pub open spec fn number_ge(a: NumberBits, b: NumberBits) -> bool {
    !is_nan(a.bits) && !is_nan(b.bits) && !number_lt(a, b)
}

/// Whether a non-empty value fits the field.
pub open spec fn custom_value_ok(field: CustomFieldDefinition, v: FieldValue) -> bool {
    match field.field_type {
        CustomFieldType::Text | CustomFieldType::Date => v is Text,
        CustomFieldType::Boolean => v is Bool,
        CustomFieldType::Choice => match v {
            FieldValue::Text(selected) => exists|o: int|
                0 <= o < field.options@.len() && (#[trigger] field.options@[o])@ == selected@,
            _ => false,
        },
        CustomFieldType::Number => match v {
            FieldValue::Number { value, .. } => (match field.minimum {
                Some(lo) => number_ge(value, lo),
                None => true,
            }) && (match field.maximum {
                Some(hi) => number_ge(hi, value),
                None => true,
            }),
            _ => false,
        },
    }
}

/// Why the values fail one field, if they do.
pub open spec fn custom_field_check(field: CustomFieldDefinition, values: Seq<(String, FieldValue)>) -> Option<
    Seq<char>,
> {
    match value_for(values, field.key@) {
        None => if field.required {
            Some("custom_field_required:"@ + field.key@)
        } else {
            None
        },
        Some(v) => if is_empty_value(v) {
            if field.required {
                Some("custom_field_required:"@ + field.key@)
            } else {
                None
            }
        } else if !custom_value_ok(field, v) {
            Some("custom_field_value_invalid:"@ + field.key@)
        } else {
            None
        },
    }
}

/// The test "the values fail this field".
pub open spec fn field_fails(values: Seq<(String, FieldValue)>) -> spec_fn(CustomFieldDefinition) -> bool {
    |f: CustomFieldDefinition| custom_field_check(f, values) is Some
}

/// Some field of `defs` has this key.
pub open spec fn key_defined(defs: Seq<CustomFieldDefinition>, key: Seq<char>) -> bool {
    exists|f: int| 0 <= f < defs.len() && (#[trigger] defs[f]).key@ == key
}

/// Some value names a field the category does not define.
pub open spec fn value_unknown(category: ItemCategory, values: Seq<(String, FieldValue)>) -> bool {
    exists|k: int|
        0 <= k < values.len() && !key_defined(category.custom_field_definitions@, (#[trigger] values[k]).0@)
}

/// Why an item's custom values are refused, if they are: an unknown field first, then
/// the first field of the category that the values fail.
pub open spec fn custom_values_error(category: ItemCategory, values: Seq<(String, FieldValue)>) -> Option<
    Seq<char>,
> {
    if value_unknown(category, values) {
        Some("custom_field_unknown"@)
    } else {
        match first_index(category.custom_field_definitions@, field_fails(values)) {
            Some(i) => custom_field_check(category.custom_field_definitions@[i], values),
            None => None,
        }
    }
}

fn position_of_pair(values: &Vec<(String, FieldValue)>, key: &str) -> (r: Option<usize>)
    ensures
        match r {
            Some(i) => first_index(values@, pair_is(key@)) == Some(i as int) && i < values@.len(),
            None => first_index(values@, pair_is(key@)) is None,
        },
{
    let ghost p = pair_is(key@);
    let mut i: usize = 0;
    while i < values.len()
        invariant
            i <= values@.len(),
            p == pair_is(key@),
            forall|j: int| 0 <= j < i ==> !p(#[trigger] values@[j]),
        decreases values@.len() - i,
    {
        if str_equal(values[i].0.as_str(), key) {
            proof {
                assert(is_first(values@, p, i as int));
                lemma_first_index(values@, p);
            }
            return Some(i);
        }
        i += 1;
    }
    proof {
        lemma_first_index(values@, p);
    }
    None
}

fn empty_value(v: &FieldValue) -> (r: bool)
    ensures
        r == is_empty_value(*v),
{
    match v {
        FieldValue::Null => true,
        FieldValue::Text(t) => blank(t.as_str()),
        _ => false,
    }
}

fn greater_or_equal(a: NumberBits, b: NumberBits) -> (r: bool)
    ensures
        r == number_ge(a, b),
{
    let a_nan = !(a.bits / 0x10000000000000 % 0x800 != 0x7FF || a.bits % 0x10000000000000 == 0);
    let b_nan = !(b.bits / 0x10000000000000 % 0x800 != 0x7FF || b.bits % 0x10000000000000 == 0);
    !a_nan && !b_nan && !less_than(a, b)
}

fn option_listed(options: &Vec<String>, selected: &str) -> (r: bool)
    ensures
        r == exists|o: int| 0 <= o < options@.len() && (#[trigger] options@[o])@ == selected@,
{
    let mut o: usize = 0;
    while o < options.len()
        invariant
            o <= options@.len(),
            forall|q: int| 0 <= q < o ==> (#[trigger] options@[q])@ != selected@,
        decreases options@.len() - o,
    {
        if str_equal(options[o].as_str(), selected) {
            assert(options@[o as int]@ == selected@);
            return true;
        }
        o += 1;
    }
    false
}

fn value_fits(field: &CustomFieldDefinition, v: &FieldValue) -> (r: bool)
    ensures
        r == custom_value_ok(*field, *v),
{
    match field.field_type {
        CustomFieldType::Text | CustomFieldType::Date => match v {
            FieldValue::Text(_) => true,
            _ => false,
        },
        CustomFieldType::Boolean => match v {
            FieldValue::Bool(_) => true,
            _ => false,
        },
        CustomFieldType::Choice => match v {
            FieldValue::Text(selected) => option_listed(&field.options, selected.as_str()),
            _ => false,
        },
        CustomFieldType::Number => match v {
            FieldValue::Number { value, .. } => {
                let low = match field.minimum {
                    Some(lo) => greater_or_equal(*value, lo),
                    None => true,
                };
                let high = match field.maximum {
                    Some(hi) => greater_or_equal(hi, *value),
                    None => true,
                };
                low && high
            },
            _ => false,
        },
    }
}

fn check_custom_field(field: &CustomFieldDefinition, values: &Vec<(String, FieldValue)>) -> (r: Result<
    (),
    String,
>)
    ensures
        custom_field_check(*field, values@) matches Some(e) ==> (r matches Err(x) && x@ == e),
        custom_field_check(*field, values@) is None ==> r is Ok,
{
    match position_of_pair(values, field.key.as_str()) {
        None => {
            if field.required {
                return Err(concat2("custom_field_required:", field.key.as_str()));
            }
            Ok(())
        },
        Some(k) => {
            let v = &values[k].1;
            if empty_value(v) {
                if field.required {
                    return Err(concat2("custom_field_required:", field.key.as_str()));
                }
                return Ok(());
            }
            if !value_fits(field, v) {
                return Err(concat2("custom_field_value_invalid:", field.key.as_str()));
            }
            Ok(())
        },
    }
}

/// Checks an item's custom values against its category's fields.
pub fn validate_custom_values(category: &ItemCategory, values: &Vec<(String, FieldValue)>) -> (r:
    Result<(), String>)
    ensures
        custom_values_error(*category, values@) matches Some(e) ==> (r matches Err(x) && x@ == e),
        custom_values_error(*category, values@) is None ==> r is Ok,
{
    let defs = &category.custom_field_definitions;
    let mut k: usize = 0;
    while k < values.len()
        invariant
            k <= values@.len(),
            *defs == category.custom_field_definitions,
            forall|q: int| 0 <= q < k ==> key_defined(defs@, (#[trigger] values@[q]).0@),
        decreases values@.len() - k,
    {
        let mut f: usize = 0;
        let mut found = false;
        while f < defs.len()
            invariant
                k < values@.len(),
                f <= defs@.len(),
                !found ==> forall|t: int| 0 <= t < f ==> (#[trigger] defs@[t]).key@ != values@[k as int].0@,
                found ==> exists|t: int| 0 <= t < defs@.len() && (#[trigger] defs@[t]).key@ == values@[k as int].0@,
            decreases defs@.len() - f,
        {
            if !found && str_equal(defs[f].key.as_str(), values[k].0.as_str()) {
                found = true;
                assert(defs@[f as int].key@ == values@[k as int].0@);
            }
            f += 1;
        }
        if !found {
            proof {
                assert(!(exists|t: int| 0 <= t < defs@.len() && (#[trigger] defs@[t]).key@ == values@[k as int].0@));
            }
            return Err(owned("custom_field_unknown"));
        }
        k += 1;
    }
    let ghost p = field_fails(values@);
    let mut i: usize = 0;
    while i < defs.len()
        invariant
            i <= defs@.len(),
            *defs == category.custom_field_definitions,
            !value_unknown(*category, values@),
            p == field_fails(values@),
            forall|t: int| 0 <= t < i ==> !p(#[trigger] defs@[t]),
        decreases defs@.len() - i,
    {
        match check_custom_field(&defs[i], values) {
            Ok(()) => {},
            Err(e) => {
                proof {
                    assert(is_first(defs@, p, i as int));
                    lemma_first_index(defs@, p);
                }
                return Err(e);
            },
        }
        i += 1;
    }
    proof {
        lemma_first_index(defs@, p);
    }
    Ok(())
}

/// The test "active item with identifier `id`".
pub open spec fn active_item_id_is(id: Seq<char>) -> spec_fn(MachineItem) -> bool {
    |it: MachineItem| it.id@ == id && it.active
}

/// The highest of the numbers (zero for none).
pub open spec fn max_u32(s: Seq<u32>) -> u32
    decreases s.len(),
{
    if s.len() == 0 {
        0
    } else {
        let rest = max_u32(s.drop_last());
        if s.last() > rest {
            s.last()
        } else {
            rest
        }
    }
}

/// The position a new item of the machine takes: after its active items.
pub open spec fn next_position(items: Seq<MachineItem>, machine_id: Seq<char>) -> u32 {
    let highest = max_u32(items.filter(active_item_of(machine_id)).map_values(|it: MachineItem| it.position));
    if highest == u32::MAX {
        u32::MAX
    } else {
        (highest + 1) as u32
    }
}

/// `c` is the unit entered in `input`, installed under `installation_id`.
pub open spec fn is_installed_from(c: InstalledComponent, input: InstalledComponentInput, installation_id: Seq<char>) -> bool {
    &&& c.installation_id@ == installation_id
    &&& opt_view(c.manufacturer) == clean_spec(opt_view(input.manufacturer))
    &&& opt_view(c.model) == clean_spec(opt_view(input.model))
    &&& opt_view(c.part_number) == clean_spec(opt_view(input.part_number))
    &&& opt_view(c.serial_number) == clean_spec(opt_view(input.serial_number))
    &&& opt_view(c.installed_at) == clean_spec(opt_view(input.installed_at))
    &&& c.technical_specifications == input.technical_specifications
}

/// An empty replacement specification.
pub open spec fn is_empty_specification(r: ReplacementSpecification) -> bool {
    &&& r.manufacturer is None
    &&& r.part_number is None
    &&& r.model is None
    &&& r.serial_number is None
    &&& r.technical_specifications@.len() == 0
    &&& r.compatibility_notes is None
    &&& r.equivalent_parts@.len() == 0
    &&& r.supplier_reference is None
    &&& r.photo_ids@.len() == 0
}

/// Another active item of the machine has this normalized code.
pub open spec fn item_code_taken(
    items: Seq<MachineItem>,
    except_id: Option<Seq<char>>,
    machine_id: Seq<char>,
    code: Seq<char>,
) -> bool {
    exists|j: int|
        0 <= j < items.len() && (#[trigger] items[j]).machine_id@ == machine_id && items[j].active
            && items[j].code_normalized@ == code && match except_id {
            Some(id) => items[j].id@ != id,
            None => true,
        }
}

fn item_code_in_use(items: &Vec<MachineItem>, except_id: Option<&str>, machine_id: &str, code: &str) -> (r:
    bool)
    ensures
        r == item_code_taken(
            items@,
            match except_id {
                Some(id) => Some(id@),
                None => None,
            },
            machine_id@,
            code@,
        ),
{
    let ghost except = match except_id {
        Some(id) => Some(id@),
        None => None::<Seq<char>>,
    };
    let mut j: usize = 0;
    while j < items.len()
        invariant
            j <= items@.len(),
            except == match except_id {
                Some(id) => Some(id@),
                None => None::<Seq<char>>,
            },
            forall|k: int|
                0 <= k < j ==> !((#[trigger] items@[k]).machine_id@ == machine_id@ && items@[k].active
                    && items@[k].code_normalized@ == code@ && match except {
                    Some(id) => items@[k].id@ != id,
                    None => true,
                }),
        decreases items@.len() - j,
    {
        let it = &items[j];
        let other = match except_id {
            Some(id) => !str_equal(it.id.as_str(), id),
            None => true,
        };
        if other && it.active && str_equal(it.machine_id.as_str(), machine_id) && str_equal(
            it.code_normalized.as_str(),
            code,
        ) {
            assert(items@[j as int].machine_id@ == machine_id@);
            return true;
        }
        j += 1;
    }
    false
}

fn position_of_active_item(items: &Vec<MachineItem>, id: &str) -> (r: Option<usize>)
    ensures
        match r {
            Some(i) => first_index(items@, active_item_id_is(id@)) == Some(i as int) && i < items@.len(),
            None => first_index(items@, active_item_id_is(id@)) is None,
        },
{
    let ghost p = active_item_id_is(id@);
    let mut i: usize = 0;
    while i < items.len()
        invariant
            i <= items@.len(),
            p == active_item_id_is(id@),
            forall|j: int| 0 <= j < i ==> !p(#[trigger] items@[j]),
        decreases items@.len() - i,
    {
        if items[i].active && str_equal(items[i].id.as_str(), id) {
            proof {
                assert(is_first(items@, p, i as int));
                lemma_first_index(items@, p);
            }
            return Some(i);
        }
        i += 1;
    }
    proof {
        lemma_first_index(items@, p);
    }
    None
}

fn next_position_of(items: &Vec<MachineItem>, machine_id: &str) -> (r: u32)
    ensures
        r == next_position(items@, machine_id@),
{
    let ghost p = active_item_of(machine_id@);
    let ghost f = |it: MachineItem| it.position;
    let mut highest: u32 = 0;
    let mut i: usize = 0;
    while i < items.len()
        invariant
            i <= items@.len(),
            p == active_item_of(machine_id@),
            f == (|it: MachineItem| it.position),
            highest == max_u32(items@.take(i as int).filter(p).map_values(f)),
        decreases items@.len() - i,
    {
        let ghost before = items@.take(i as int).filter(p);
        proof {
            let t = items@.take(i + 1);
            assert(t.drop_last() == items@.take(i as int));
            assert(t.last() == items@[i as int]);
            reveal(Seq::filter);
        }
        if items[i].active && str_equal(items[i].machine_id.as_str(), machine_id) {
            proof {
                assert(items@.take(i + 1).filter(p) == before.push(items@[i as int]));
                assert(before.push(items@[i as int]).map_values(f).drop_last() == before.map_values(f));
            }
            if items[i].position > highest {
                highest = items[i].position;
            }
        } else {
            proof {
                assert(items@.take(i + 1).filter(p) == before);
            }
        }
        i += 1;
    }
    assert(items@.take(items@.len() as int) == items@);
    highest.saturating_add(1)
}

/// Installs the unit entered in `input` under `installation_id`.
pub fn into_installed(input: InstalledComponentInput, installation_id: String) -> (r: InstalledComponent)
    ensures
        is_installed_from(r, input, installation_id@),
{
    InstalledComponent {
        installation_id,
        manufacturer: clean_optional(input.manufacturer),
        model: clean_optional(input.model),
        part_number: clean_optional(input.part_number),
        serial_number: clean_optional(input.serial_number),
        installed_at: clean_optional(input.installed_at),
        technical_specifications: input.technical_specifications,
    }
}

/// Why adding an item fails, if it does.
pub open spec fn add_item_error(s: ApplicationState, role: Role, data: CommandData) -> Option<Seq<char>> {
    if !allowed(role, "machine_item.manage"@) {
        Some("forbidden"@)
    } else {
        match data {
            CommandData::MachineItem(input) => {
                let code = normalized_identifier(input.code@);
                if first_index(s.machines@, active_machine_is(input.machine_id@)) is None {
                    Some("machine_not_found"@)
                } else {
                    match index_of_id(s.item_categories@, input.category_id@) {
                        None => Some("category_not_found"@),
                        Some(c) => if !s.item_categories@[c].active {
                            Some("category_inactive"@)
                        } else if is_blank(input.name@) {
                            Some("machine_item_name_required"@)
                        } else if is_blank(code) {
                            Some("machine_item_code_required"@)
                        } else if item_code_taken(s.machine_items@, None, input.machine_id@, code) {
                            Some("machine_item_code_already_exists"@)
                        } else {
                            custom_values_error(s.item_categories@[c], input.custom_field_values@)
                        },
                    }
                }
            },
            _ => Some("invalid_command_data"@),
        }
    }
}

/// `item` is the new item of `input` for command `command_id`.
pub open spec fn is_new_item(
    item: MachineItem,
    input: MachineItemInput,
    category: ItemCategory,
    items: Seq<MachineItem>,
    command_id: Seq<char>,
    now: u64,
) -> bool {
    &&& item.id@ == "machine-item-"@ + command_id
    &&& item.machine_id == input.machine_id
    &&& item.category_id == input.category_id
    &&& item.name@ == trim(input.name@)
    &&& item.code@ == normalized_identifier(input.code@)
    &&& item.code_normalized@ == normalized_identifier(input.code@)
    &&& item.complexity_level == match input.complexity_level {
        Some(l) => l,
        None => category.default_complexity_level,
    }
    &&& item.status == match input.status {
        Some(st) => st,
        None => OperationalStatus::Unknown,
    }
    &&& item.position == next_position(items, input.machine_id@)
    &&& opt_view(item.location_description) == clean_spec(opt_view(input.location_description))
    &&& item.custom_field_values == input.custom_field_values
    &&& item.maintenance_guide_override is None
    &&& match input.installed_component {
        Some(ci) => item.installed_component matches Some(c) && is_installed_from(
            c,
            ci,
            "installation-"@ + command_id,
        ),
        None => item.installed_component is None,
    }
    &&& match input.replacement_specification {
        Some(r) => item.replacement_specification == r,
        None => is_empty_specification(item.replacement_specification),
    }
    &&& opt_view(item.notes) == clean_spec(opt_view(input.notes))
    &&& item.active
    &&& item.removed_at_ms is None
    &&& item.created_at_ms == now
    &&& item.updated_at_ms == now
}

impl ApplicationState {
    /// What `add_machine_item` gives: the state `new_state` it leaves and its result `r`, from
    /// the state `old_state`.
    pub open spec fn add_machine_item_outcome(
        old_state: ApplicationState,
        new_state: ApplicationState,
        command_id: &str,
        now: u64,
        actor: &Actor,
        data: CommandData,
        r: Result<Action, String>,
    ) -> bool {
        &&& (add_item_error(old_state, actor.role, data) matches Some(e) ==> (r matches Err(x) && x@
                == e))
        &&& (r is Err ==> new_state == old_state)
        &&& (r matches Ok(a) ==> allowed(actor.role, a.permission@))
        &&& (add_item_error(old_state, actor.role, data) is None ==> (r matches Ok(a)
                && data matches CommandData::MachineItem(input) && {
                let c = index_of_id(old_state.item_categories@, input.category_id@)->0;
                let item = new_state.machine_items@.last();
                &&& new_state == ApplicationState {
                    machine_items: new_state.machine_items,
                    machines: new_state.machines,
                    ..old_state
                }
                &&& new_state.machine_items@ == old_state.machine_items@.push(item)
                &&& is_new_item(
                    item,
                    input,
                    old_state.item_categories@[c],
                    old_state.machine_items@,
                    command_id@,
                    now,
                )
                &&& new_state.machines@ == refreshed_machines(
                    old_state.machines@,
                    new_state.machine_items@,
                    input.machine_id@,
                    now,
                )
                &&& event_is(
                    a,
                    "machine_item.manage"@,
                    "machine_item.created"@,
                    "machine_item"@,
                    item.id@,
                    "Machine item created"@,
                )
                &&& a.before is None
                &&& a.after matches Some(AuditRecord::Item(x)) && item.same_as(&x)
            }))
    }

    /// A supervisor adds an item to an active machine, after its category's other items;
    /// the machine's status is derived again.
    pub fn add_machine_item(&mut self, command_id: &str, now: u64, actor: &Actor, data: CommandData)
        -> (r: Result<Action, String>)
        ensures
            Self::add_machine_item_outcome(*old(self), *final(self), command_id, now, actor, data, r),
    {
        require_permission(actor.role, "machine_item.manage")?;
        let input = match data {
            CommandData::MachineItem(input) => input,
            _ => return Err(invalid_data()),
        };
        let mut m: usize = 0;
        let mut found = false;
        let ghost p = active_machine_is(input.machine_id@);
        while m < self.machines.len()
            invariant
                m <= self.machines@.len(),
                p == active_machine_is(input.machine_id@),
                !found ==> forall|j: int| 0 <= j < m ==> !p(#[trigger] self.machines@[j]),
                found ==> first_index(self.machines@, p) is Some,
            decreases self.machines@.len() - m,
        {
            if !found && self.machines[m].active && str_equal(
                self.machines[m].id.as_str(),
                input.machine_id.as_str(),
            ) {
                found = true;
                proof {
                    assert(is_first(self.machines@, p, m as int));
                    lemma_first_index(self.machines@, p);
                }
            }
            m += 1;
        }
        if !found {
            proof {
                lemma_first_index(self.machines@, p);
            }
            return Err(owned("machine_not_found"));
        }
        let c = match position_of_id(&self.item_categories, input.category_id.as_str()) {
            Some(c) => c,
            None => return Err(owned("category_not_found")),
        };
        if !self.item_categories[c].active {
            return Err(owned("category_inactive"));
        }
        require_text(input.name.as_str(), "machine_item_name_required")?;
        let code = normalize_identifier(input.code.as_str());
        require_text(code.as_str(), "machine_item_code_required")?;
        if item_code_in_use(&self.machine_items, None, input.machine_id.as_str(), code.as_str()) {
            return Err(owned("machine_item_code_already_exists"));
        }
        validate_custom_values(&self.item_categories[c], &input.custom_field_values)?;
        let complexity = match input.complexity_level {
            Some(l) => l,
            None => self.item_categories[c].default_complexity_level,
        };
        let position = next_position_of(&self.machine_items, input.machine_id.as_str());
        let id = concat2("machine-item-", command_id);
        let MachineItemInput {
            machine_id,
            category_id,
            name,
            code: _,
            complexity_level: _,
            status,
            location_description,
            custom_field_values,
            installed_component,
            replacement_specification,
            notes,
        } = input;
        let installed = match installed_component {
            Some(ci) => Some(into_installed(ci, concat2("installation-", command_id))),
            None => None,
        };
        let specification = match replacement_specification {
            Some(r) => r,
            None => ReplacementSpecification {
                manufacturer: None,
                part_number: None,
                model: None,
                serial_number: None,
                technical_specifications: Vec::new(),
                compatibility_notes: None,
                equivalent_parts: Vec::new(),
                supplier_reference: None,
                photo_ids: Vec::new(),
            },
        };
        let item = MachineItem {
            id: id.clone(),
            machine_id: machine_id.clone(),
            category_id,
            name: trimmed(name.as_str()),
            code: code.clone(),
            code_normalized: code,
            complexity_level: complexity,
            status: match status {
                Some(st) => st,
                None => OperationalStatus::Unknown,
            },
            position,
            location_description: clean_optional(location_description),
            custom_field_values,
            maintenance_guide_override: None,
            installed_component: installed,
            replacement_specification: specification,
            notes: clean_optional(notes),
            active: true,
            removed_at_ms: None,
            created_at_ms: now,
            updated_at_ms: now,
        };
        let after = item.deep_copy();
        self.machine_items.push(item);
        self.refresh_machine_status(machine_id.as_str(), now);
        Ok(
            domain_action(
                "machine_item.manage",
                "machine_item.created",
                "machine_item",
                id,
                None,
                Some(AuditRecord::Item(after)),
                "Machine item created",
            ),
        )
    }
}

/// Why updating an item fails, if it does.
pub open spec fn update_item_error(s: ApplicationState, role: Role, data: CommandData) -> Option<Seq<char>> {
    if !allowed(role, "machine_item.manage"@) {
        Some("forbidden"@)
    } else {
        match data {
            CommandData::UpdateMachineItem(input) => match first_index(
                s.machine_items@,
                active_item_id_is(input.id@),
            ) {
                None => Some("machine_item_not_found"@),
                Some(i) => {
                    let code = normalized_identifier(input.code@);
                    let machine_id = s.machine_items@[i].machine_id@;
                    match index_of_id(s.item_categories@, input.category_id@) {
                        None => Some("category_not_found"@),
                        Some(c) => if !s.item_categories@[c].active {
                            Some("category_inactive"@)
                        } else if is_blank(input.name@) {
                            Some("machine_item_name_required"@)
                        } else if is_blank(code) {
                            Some("machine_item_code_required"@)
                        } else if item_code_taken(s.machine_items@, Some(input.id@), machine_id, code) {
                            Some("machine_item_code_already_exists"@)
                        } else {
                            custom_values_error(s.item_categories@[c], input.custom_field_values@)
                        },
                    }
                },
            },
            _ => Some("invalid_command_data"@),
        }
    }
}

/// `after` is `before` with the fields of `input`.
pub open spec fn is_updated_item(after: MachineItem, before: MachineItem, input: UpdateMachineItem, now: u64) -> bool {
    &&& after == MachineItem {
        category_id: input.category_id,
        name: after.name,
        code: after.code,
        code_normalized: after.code_normalized,
        complexity_level: input.complexity_level,
        status: input.status,
        location_description: after.location_description,
        custom_field_values: input.custom_field_values,
        replacement_specification: input.replacement_specification,
        notes: after.notes,
        updated_at_ms: now,
        ..before
    }
    &&& after.name@ == trim(input.name@)
    &&& after.code@ == normalized_identifier(input.code@)
    &&& after.code_normalized@ == normalized_identifier(input.code@)
    &&& opt_view(after.location_description) == clean_spec(opt_view(input.location_description))
    &&& opt_view(after.notes) == clean_spec(opt_view(input.notes))
}

/// Some active item of the machine has identifier `id`.
pub open spec fn is_active_item_of(items: Seq<MachineItem>, machine_id: Seq<char>, id: Seq<char>) -> bool {
    exists|k: int|
        0 <= k < items.len() && active_item_of(machine_id)(#[trigger] items[k]) && items[k].id@ == id
}

/// Some requested identifier reads `id`.
pub open spec fn is_requested(requested: Seq<String>, id: Seq<char>) -> bool {
    exists|q: int| 0 <= q < requested.len() && (#[trigger] requested[q])@ == id
}

/// Every requested identifier is an active item of the machine, every active item of the
/// machine is requested, and no identifier is requested twice.
pub open spec fn reorder_matches(items: Seq<MachineItem>, machine_id: Seq<char>, requested: Seq<String>) -> bool {
    &&& distinct_texts(requested)
    &&& forall|q: int|
        0 <= q < requested.len() ==> is_active_item_of(items, machine_id, (#[trigger] requested[q])@)
    &&& forall|k: int|
        0 <= k < items.len() && active_item_of(machine_id)(#[trigger] items[k]) ==> is_requested(
            requested,
            items[k].id@,
        )
}

/// Why reordering fails, if it does.
pub open spec fn reorder_error(s: ApplicationState, role: Role, data: CommandData) -> Option<Seq<char>> {
    if !allowed(role, "machine_item.manage"@) {
        Some("forbidden"@)
    } else {
        match data {
            CommandData::ReorderMachineItems(input) => if reorder_matches(
                s.machine_items@,
                input.machine_id@,
                input.item_ids@,
            ) {
                None
            } else {
                Some("machine_item_reorder_invalid"@)
            },
            _ => Some("invalid_command_data"@),
        }
    }
}

/// Item `k` after the first `upto` requested identifiers took their positions: the item
/// that identifier `q` names takes position `q + 1`.
pub open spec fn reordered_item(
    items: Seq<MachineItem>,
    requested: Seq<String>,
    upto: int,
    now: u64,
    k: int,
) -> MachineItem {
    if exists|q: int| 0 <= q < upto && index_of_id(items, (#[trigger] requested[q])@) == Some(k) {
        let q = choose|q: int| 0 <= q < upto && index_of_id(items, (#[trigger] requested[q])@) == Some(k);
        MachineItem { position: (q + 1) as u32, updated_at_ms: now, ..items[k] }
    } else {
        items[k]
    }
}

/// The positions of the active items of a machine, as recorded before a reorder.
pub open spec fn item_positions(items: Seq<MachineItem>, machine_id: Seq<char>) -> Seq<(String, u32)> {
    items.filter(active_item_of(machine_id)).map_values(|it: MachineItem| (it.id, it.position))
}

/// An open order has an unfinished task on the item.
pub open spec fn has_open_task_on(orders: Seq<ServiceOrder>, item_id: Seq<char>) -> bool {
    exists|o: int, t: int|
        0 <= o < orders.len() && 0 <= t < orders[o].tasks@.len() && (#[trigger] orders[o]).status
            != ServiceOrderStatus::Completed && orders[o].status != ServiceOrderStatus::Cancelled
            && (#[trigger] orders[o].tasks@[t]).machine_item_id@ == item_id && orders[o].tasks@[t].status
            != ServiceOrderTaskStatus::Completed
}

/// Why removing an item fails, if it does.
pub open spec fn remove_item_error(s: ApplicationState, role: Role, data: CommandData) -> Option<Seq<char>> {
    if !allowed(role, "machine_item.manage"@) {
        Some("forbidden"@)
    } else {
        match data {
            CommandData::ById(input) => if has_open_task_on(s.service_orders@, input.id@) {
                Some("machine_item_has_open_tasks"@)
            } else if first_index(s.machine_items@, active_item_id_is(input.id@)) is None {
                Some("machine_item_not_found"@)
            } else {
                None
            },
            _ => Some("invalid_command_data"@),
        }
    }
}

/// Why replacing an item's unit fails, if it does.
pub open spec fn replace_item_error(s: ApplicationState, role: Role, data: CommandData) -> Option<Seq<char>> {
    if !allowed(role, "machine_item.manage"@) {
        Some("forbidden"@)
    } else {
        match data {
            CommandData::ReplaceMachineItem(input) => if is_blank(input.reason@) {
                Some("replacement_reason_required"@)
            } else if first_index(s.machine_items@, active_item_id_is(input.id@)) is None {
                Some("machine_item_not_found"@)
            } else {
                None
            },
            _ => Some("invalid_command_data"@),
        }
    }
}

fn requested_are_active(items: &Vec<MachineItem>, machine_id: &str, requested: &Vec<String>) -> (r: bool)
    ensures
        r == forall|q: int|
            0 <= q < requested@.len() ==> is_active_item_of(items@, machine_id@, (#[trigger] requested@[q])@),
{
    let mut q: usize = 0;
    while q < requested.len()
        invariant
            q <= requested@.len(),
            forall|a: int|
                0 <= a < q ==> is_active_item_of(items@, machine_id@, (#[trigger] requested@[a])@),
        decreases requested@.len() - q,
    {
        let mut k: usize = 0;
        let mut found = false;
        while k < items.len()
            invariant
                q < requested@.len(),
                k <= items@.len(),
                !found ==> forall|b: int|
                    0 <= b < k ==> !(active_item_of(machine_id@)(#[trigger] items@[b]) && items@[b].id@
                        == requested@[q as int]@),
                found ==> is_active_item_of(items@, machine_id@, requested@[q as int]@),
            decreases items@.len() - k,
        {
            let it = &items[k];
            if !found && it.active && str_equal(it.machine_id.as_str(), machine_id) && str_equal(
                it.id.as_str(),
                requested[q].as_str(),
            ) {
                found = true;
                assert(active_item_of(machine_id@)(items@[k as int]));
            }
            k += 1;
        }
        if !found {
            assert(!is_active_item_of(items@, machine_id@, requested@[q as int]@));
            return false;
        }
        q += 1;
    }
    true
}

fn active_are_requested(items: &Vec<MachineItem>, machine_id: &str, requested: &Vec<String>) -> (r: bool)
    ensures
        r == forall|k: int|
            0 <= k < items@.len() && active_item_of(machine_id@)(#[trigger] items@[k]) ==> is_requested(
                requested@,
                items@[k].id@,
            ),
{
    let mut k: usize = 0;
    while k < items.len()
        invariant
            k <= items@.len(),
            forall|a: int|
                0 <= a < k && active_item_of(machine_id@)(#[trigger] items@[a]) ==> is_requested(
                    requested@,
                    items@[a].id@,
                ),
        decreases items@.len() - k,
    {
        let it = &items[k];
        if it.active && str_equal(it.machine_id.as_str(), machine_id) {
            let mut q: usize = 0;
            let mut found = false;
            while q < requested.len()
                invariant
                    k < items@.len(),
                    q <= requested@.len(),
                    !found ==> forall|b: int| 0 <= b < q ==> (#[trigger] requested@[b])@ != items@[k as int].id@,
                    found ==> is_requested(requested@, items@[k as int].id@),
                decreases requested@.len() - q,
            {
                if !found && str_equal(requested[q].as_str(), items[k].id.as_str()) {
                    found = true;
                    assert(requested@[q as int]@ == items@[k as int].id@);
                }
                q += 1;
            }
            if !found {
                assert(active_item_of(machine_id@)(items@[k as int]));
                assert(!is_requested(requested@, items@[k as int].id@));
                return false;
            }
        }
        k += 1;
    }
    true
}

fn positions_of(items: &Vec<MachineItem>, machine_id: &str) -> (r: Vec<(String, u32)>)
    ensures
        r@ == item_positions(items@, machine_id@),
{
    let ghost p = active_item_of(machine_id@);
    let ghost f = |it: MachineItem| (it.id, it.position);
    let mut out: Vec<(String, u32)> = Vec::new();
    let mut i: usize = 0;
    while i < items.len()
        invariant
            i <= items@.len(),
            p == active_item_of(machine_id@),
            f == (|it: MachineItem| (it.id, it.position)),
            out@ == items@.take(i as int).filter(p).map_values(f),
        decreases items@.len() - i,
    {
        let ghost before = items@.take(i as int).filter(p);
        proof {
            let t = items@.take(i + 1);
            assert(t.drop_last() == items@.take(i as int));
            assert(t.last() == items@[i as int]);
            reveal(Seq::filter);
        }
        if items[i].active && str_equal(items[i].machine_id.as_str(), machine_id) {
            out.push((items[i].id.clone(), items[i].position));
            proof {
                assert(items@.take(i + 1).filter(p) == before.push(items@[i as int]));
                assert(out@ == items@.take(i + 1).filter(p).map_values(f));
            }
        } else {
            proof {
                assert(items@.take(i + 1).filter(p) == before);
            }
        }
        i += 1;
    }
    assert(items@.take(items@.len() as int) == items@);
    out
}

fn open_task_on(orders: &Vec<ServiceOrder>, item_id: &str) -> (r: bool)
    ensures
        r == has_open_task_on(orders@, item_id@),
{
    let mut o: usize = 0;
    while o < orders.len()
        invariant
            o <= orders@.len(),
            forall|a: int, t: int|
                0 <= a < o && 0 <= t < orders@[a].tasks@.len() ==> !((#[trigger] orders@[a]).status
                    != ServiceOrderStatus::Completed && orders@[a].status != ServiceOrderStatus::Cancelled
                    && (#[trigger] orders@[a].tasks@[t]).machine_item_id@ == item_id@
                    && orders@[a].tasks@[t].status != ServiceOrderTaskStatus::Completed),
        decreases orders@.len() - o,
    {
        let order = &orders[o];
        if order.status != ServiceOrderStatus::Completed && order.status != ServiceOrderStatus::Cancelled {
            let mut t: usize = 0;
            while t < order.tasks.len()
                invariant
                    o < orders@.len(),
                    *order == orders@[o as int],
                    order.status != ServiceOrderStatus::Completed,
                    order.status != ServiceOrderStatus::Cancelled,
                    t <= order.tasks@.len(),
                    forall|b: int|
                        0 <= b < t ==> !((#[trigger] order.tasks@[b]).machine_item_id@ == item_id@
                            && order.tasks@[b].status != ServiceOrderTaskStatus::Completed),
                decreases order.tasks@.len() - t,
            {
                if str_equal(order.tasks[t].machine_item_id.as_str(), item_id) && order.tasks[t].status
                    != ServiceOrderTaskStatus::Completed {
                    assert(orders@[o as int].tasks@[t as int].machine_item_id@ == item_id@);
                    return true;
                }
                t += 1;
            }
        }
        o += 1;
    }
    false
}

proof fn lemma_index_of_id_names<T: crate::lookup::Identified>(s: Seq<T>, id: Seq<char>, k: int)
    requires
        index_of_id(s, id) == Some(k),
    ensures
        0 <= k < s.len(),
        s[k].id_view() == id,
{
    lemma_first_index(s, crate::lookup::id_is::<T>(id));
}

impl ApplicationState {
    /// What `update_machine_item` gives: the state `new_state` it leaves and its result `r`, from
    /// the state `old_state`.
    pub open spec fn update_machine_item_outcome(
        old_state: ApplicationState,
        new_state: ApplicationState,
        now: u64,
        actor: &Actor,
        data: CommandData,
        r: Result<Action, String>,
    ) -> bool {
        &&& (update_item_error(old_state, actor.role, data) matches Some(e) ==> (r matches Err(x) && x@
                == e))
        &&& (r is Err ==> new_state == old_state)
        &&& (r matches Ok(a) ==> allowed(actor.role, a.permission@))
        &&& (update_item_error(old_state, actor.role, data) is None ==> (r matches Ok(a)
                && data matches CommandData::UpdateMachineItem(input) && {
                let i = first_index(old_state.machine_items@, active_item_id_is(input.id@))->0;
                let before = old_state.machine_items@[i];
                let after = new_state.machine_items@[i];
                let items = old_state.machine_items@.update(i, after);
                &&& new_state.machine_items@ == items
                &&& is_updated_item(after, before, input, now)
                &&& new_state.machines@ == refreshed_machines(
                    old_state.machines@,
                    items,
                    before.machine_id@,
                    now,
                )
                &&& before.status != input.status ==> {
                    let ev = new_state.audit_events@.last();
                    &&& new_state == ApplicationState {
                        machine_items: new_state.machine_items,
                        machines: new_state.machines,
                        audit_events: new_state.audit_events,
                        ..old_state
                    }
                    &&& new_state.audit_events@ == old_state.audit_events@.push(ev)
                    &&& supplemental_event_ok(
                        ev,
                        *actor,
                        now,
                        "item.status_changed"@,
                        "machine_item"@,
                        input.id@,
                        Some(AuditRecord::Status(before.status)),
                        Some(AuditRecord::Status(input.status)),
                        "Machine item status changed"@,
                    )
                }
                &&& before.status == input.status ==> new_state == ApplicationState {
                    machine_items: new_state.machine_items,
                    machines: new_state.machines,
                    ..old_state
                }
                &&& event_is(
                    a,
                    "machine_item.manage"@,
                    "machine_item.updated"@,
                    "machine_item"@,
                    input.id@,
                    "Machine item updated"@,
                )
                &&& a.before matches Some(AuditRecord::Item(x)) && before.same_as(&x)
                &&& a.after matches Some(AuditRecord::Item(x)) && after.same_as(&x)
            }))
    }

    /// A supervisor replaces the fields of an active item; a change of status is audited
    /// of its own, and the machine's status is derived again.
    pub fn update_machine_item(&mut self, now: u64, actor: &Actor, data: CommandData) -> (r: Result<
        Action,
        String,
    >)
        ensures
            Self::update_machine_item_outcome(*old(self), *final(self), now, actor, data, r),
    {
        require_permission(actor.role, "machine_item.manage")?;
        let input = match data {
            CommandData::UpdateMachineItem(input) => input,
            _ => return Err(invalid_data()),
        };
        let i = match position_of_active_item(&self.machine_items, input.id.as_str()) {
            Some(i) => i,
            None => return Err(owned("machine_item_not_found")),
        };
        let machine_id = self.machine_items[i].machine_id.clone();
        let c = match position_of_id(&self.item_categories, input.category_id.as_str()) {
            Some(c) => c,
            None => return Err(owned("category_not_found")),
        };
        if !self.item_categories[c].active {
            return Err(owned("category_inactive"));
        }
        require_text(input.name.as_str(), "machine_item_name_required")?;
        let code = normalize_identifier(input.code.as_str());
        require_text(code.as_str(), "machine_item_code_required")?;
        if item_code_in_use(
            &self.machine_items,
            Some(input.id.as_str()),
            machine_id.as_str(),
            code.as_str(),
        ) {
            return Err(owned("machine_item_code_already_exists"));
        }
        validate_custom_values(&self.item_categories[c], &input.custom_field_values)?;
        let before = self.machine_items[i].deep_copy();
        let previous_status = self.machine_items[i].status;
        let UpdateMachineItem {
            id,
            category_id,
            name,
            code: _,
            complexity_level,
            status,
            location_description,
            custom_field_values,
            replacement_specification,
            notes,
        } = input;
        let ghost old_items = self.machine_items@;
        let mut item = self.machine_items.remove(i);
        item.category_id = category_id;
        item.name = trimmed(name.as_str());
        item.code = code.clone();
        item.code_normalized = code;
        item.complexity_level = complexity_level;
        item.status = status;
        item.location_description = clean_optional(location_description);
        item.custom_field_values = custom_field_values;
        item.replacement_specification = replacement_specification;
        item.notes = clean_optional(notes);
        item.updated_at_ms = now;
        let after = item.deep_copy();
        self.machine_items.insert(i, item);
        assert(self.machine_items@ =~= old_items.update(i as int, self.machine_items@[i as int]));
        if previous_status != status {
            self.push_supplemental_audit(
                actor,
                now,
                "item.status_changed",
                "machine_item",
                id.as_str(),
                Some(AuditRecord::Status(previous_status)),
                Some(AuditRecord::Status(status)),
                "Machine item status changed",
            );
        }
        self.refresh_machine_status(machine_id.as_str(), now);
        Ok(
            domain_action(
                "machine_item.manage",
                "machine_item.updated",
                "machine_item",
                id,
                Some(AuditRecord::Item(before)),
                Some(AuditRecord::Item(after)),
                "Machine item updated",
            ),
        )
    }

    /// What `reorder_machine_items` gives: the state `new_state` it leaves and its result `r`, from
    /// the state `old_state`.
    pub open spec fn reorder_machine_items_outcome(
        old_state: ApplicationState,
        new_state: ApplicationState,
        now: u64,
        actor: &Actor,
        data: CommandData,
        r: Result<Action, String>,
    ) -> bool {
        &&& (reorder_error(old_state, actor.role, data) matches Some(e) ==> (r matches Err(x) && x@
                == e))
        &&& (r is Err ==> new_state == old_state)
        &&& (r matches Ok(a) ==> allowed(actor.role, a.permission@))
        &&& (reorder_error(old_state, actor.role, data) is None ==> (r matches Ok(a)
                && data matches CommandData::ReorderMachineItems(input) && {
                &&& new_state == ApplicationState {
                    machine_items: new_state.machine_items,
                    ..old_state
                }
                &&& new_state.machine_items@.len() == old_state.machine_items@.len()
                &&& forall|k: int|
                    0 <= k < old_state.machine_items@.len() ==> (#[trigger] new_state.machine_items@[k])
                        == reordered_item(
                        old_state.machine_items@,
                        input.item_ids@,
                        input.item_ids@.len() as int,
                        now,
                        k,
                    )
                &&& event_is(
                    a,
                    "machine_item.manage"@,
                    "machine_item.updated"@,
                    "machine"@,
                    input.machine_id@,
                    "Machine items reordered"@,
                )
                &&& a.before matches Some(AuditRecord::ItemPositions(p)) && p@ == item_positions(
                    old_state.machine_items@,
                    input.machine_id@,
                )
                &&& a.after == Some(AuditRecord::ItemIds(input.item_ids))
            }))
    }

    /// A supervisor sets the order of a machine's active items: the requested identifiers
    /// must be exactly those items, each once, and the item named `q`-th takes position
    /// `q + 1`.
    pub fn reorder_machine_items(&mut self, now: u64, actor: &Actor, data: CommandData) -> (r: Result<
        Action,
        String,
    >)
        ensures
            Self::reorder_machine_items_outcome(*old(self), *final(self), now, actor, data, r),
    {
        require_permission(actor.role, "machine_item.manage")?;
        let input = match data {
            CommandData::ReorderMachineItems(input) => input,
            _ => return Err(invalid_data()),
        };
        if has_duplicate_texts(&input.item_ids) || !requested_are_active(
            &self.machine_items,
            input.machine_id.as_str(),
            &input.item_ids,
        ) || !active_are_requested(&self.machine_items, input.machine_id.as_str(), &input.item_ids) {
            return Err(owned("machine_item_reorder_invalid"));
        }
        let before = positions_of(&self.machine_items, input.machine_id.as_str());
        let ghost start = self.machine_items@;
        let ghost requested = input.item_ids@;
        let mut q: usize = 0;
        while q < input.item_ids.len()
            invariant
                q <= requested.len(),
                requested == input.item_ids@,
                distinct_texts(requested),
                reorder_matches(start, input.machine_id@, requested),
                self.machine_items@.len() == start.len(),
                *self == (ApplicationState { machine_items: self.machine_items, ..*old(self) }),
                start == old(self).machine_items@,
                forall|k: int|
                    0 <= k < start.len() ==> (#[trigger] self.machine_items@[k]) == reordered_item(
                        start,
                        requested,
                        q as int,
                        now,
                        k,
                    ),
            decreases requested.len() - q,
        {
            let ghost current = self.machine_items@;
            if let Some(k) = position_of_id(&self.machine_items, input.item_ids[q].as_str()) {
                proof {
                    assert forall|j: int| 0 <= j < start.len() implies (#[trigger] start[j]).id@
                        == current[j].id@ by {
                        assert(current[j] == reordered_item(start, requested, q as int, now, j));
                    }
                    assert(index_of_id(start, requested[q as int]@) == Some(k as int)) by {
                        let p = crate::lookup::id_is::<MachineItem>(requested[q as int]@);
                        lemma_first_index(current, p);
                        lemma_first_index(start, p);
                        assert(crate::lookup::is_first(start, p, k as int));
                    }
                    assert(!exists|b: int|
                        0 <= b < q && index_of_id(start, (#[trigger] requested[b])@) == Some(k as int)) by {
                        if exists|b: int|
                            0 <= b < q && index_of_id(start, (#[trigger] requested[b])@) == Some(k as int) {
                            let b = choose|b: int|
                                0 <= b < q && index_of_id(start, (#[trigger] requested[b])@) == Some(k as int);
                            lemma_index_of_id_names(start, requested[b]@, k as int);
                            lemma_index_of_id_names(start, requested[q as int]@, k as int);
                        }
                    }
                }
                let ghost old_items = self.machine_items@;
                let mut item = self.machine_items.remove(k);
                item.position = #[verifier::truncate] ((q as u64 + 1) as u32);
                item.updated_at_ms = now;
                self.machine_items.insert(k, item);
                proof {
                    assert(self.machine_items@ =~= old_items.update(k as int, self.machine_items@[k as int]));
                    assert forall|j: int| 0 <= j < start.len() implies (#[trigger] self.machine_items@[j])
                        == reordered_item(start, requested, q + 1, now, j) by {
                        if j == k {
                            let w = choose|b: int|
                                0 <= b < q + 1 && index_of_id(start, (#[trigger] requested[b])@) == Some(j);
                            if w != q {
                                lemma_index_of_id_names(start, requested[w]@, j);
                                lemma_index_of_id_names(start, requested[q as int]@, j);
                            }
                        } else {
                            if exists|b: int|
                                0 <= b < q + 1 && index_of_id(start, (#[trigger] requested[b])@) == Some(j) {
                                let w = choose|b: int|
                                    0 <= b < q + 1 && index_of_id(start, (#[trigger] requested[b])@) == Some(j);
                                assert(w != q);
                            }
                        }
                    }
                }
            } else {
                proof {
                    assert(is_active_item_of(start, input.machine_id@, requested[q as int]@));
                    let k0 = choose|k: int|
                        0 <= k < start.len() && active_item_of(input.machine_id@)(#[trigger] start[k])
                            && start[k].id@ == requested[q as int]@;
                    assert(current[k0] == reordered_item(start, requested, q as int, now, k0));
                    let p = crate::lookup::id_is::<MachineItem>(requested[q as int]@);
                    assert(p(current[k0]));
                    crate::lookup::lemma_first_index_exists(current, p, k0);
                    assert(false);
                }
            }
            q += 1;
        }
        Ok(
            domain_action(
                "machine_item.manage",
                "machine_item.updated",
                "machine",
                input.machine_id,
                Some(AuditRecord::ItemPositions(before)),
                Some(AuditRecord::ItemIds(input.item_ids)),
                "Machine items reordered",
            ),
        )
    }

    /// What `remove_machine_item` gives: the state `new_state` it leaves and its result `r`, from
    /// the state `old_state`.
    pub open spec fn remove_machine_item_outcome(
        old_state: ApplicationState,
        new_state: ApplicationState,
        now: u64,
        actor: &Actor,
        data: &CommandData,
        r: Result<Action, String>,
    ) -> bool {
        &&& (remove_item_error(old_state, actor.role, *data) matches Some(e) ==> (r matches Err(x) && x@
                == e))
        &&& (r is Err ==> new_state == old_state)
        &&& (r matches Ok(a) ==> allowed(actor.role, a.permission@))
        &&& (remove_item_error(old_state, actor.role, *data) is None ==> (r matches Ok(a)
                && data matches CommandData::ById(input) && {
                let i = first_index(old_state.machine_items@, active_item_id_is(input.id@))->0;
                let before = old_state.machine_items@[i];
                let after = MachineItem {
                    active: false,
                    status: OperationalStatus::Disabled,
                    removed_at_ms: Some(now),
                    updated_at_ms: now,
                    ..before
                };
                let items = old_state.machine_items@.update(i, after);
                &&& new_state == ApplicationState {
                    machine_items: new_state.machine_items,
                    machines: new_state.machines,
                    ..old_state
                }
                &&& new_state.machine_items@ == items
                &&& new_state.machines@ == refreshed_machines(
                    old_state.machines@,
                    items,
                    before.machine_id@,
                    now,
                )
                &&& event_is(
                    a,
                    "machine_item.manage"@,
                    "machine_item.removed"@,
                    "machine_item"@,
                    input.id@,
                    "Machine item removed"@,
                )
                &&& a.before matches Some(AuditRecord::Item(x)) && before.same_as(&x)
                &&& a.after matches Some(AuditRecord::Item(x)) && after.same_as(&x)
            }))
    }

    /// A supervisor removes an item without open tasks: it is kept, inactive and
    /// disabled, and the machine's status is derived again.
    pub fn remove_machine_item(&mut self, now: u64, actor: &Actor, data: &CommandData) -> (r: Result<
        Action,
        String,
    >)
        ensures
            Self::remove_machine_item_outcome(*old(self), *final(self), now, actor, data, r),
    {
        require_permission(actor.role, "machine_item.manage")?;
        let input = match data {
            CommandData::ById(input) => input,
            _ => return Err(invalid_data()),
        };
        if open_task_on(&self.service_orders, input.id.as_str()) {
            return Err(owned("machine_item_has_open_tasks"));
        }
        let i = match position_of_active_item(&self.machine_items, input.id.as_str()) {
            Some(i) => i,
            None => return Err(owned("machine_item_not_found")),
        };
        let before = self.machine_items[i].deep_copy();
        let ghost old_items = self.machine_items@;
        let mut item = self.machine_items.remove(i);
        let machine_id = item.machine_id.clone();
        item.active = false;
        item.status = OperationalStatus::Disabled;
        item.removed_at_ms = Some(now);
        item.updated_at_ms = now;
        let after = item.deep_copy();
        self.machine_items.insert(i, item);
        assert(self.machine_items@ =~= old_items.update(i as int, self.machine_items@[i as int]));
        self.refresh_machine_status(machine_id.as_str(), now);
        Ok(
            domain_action(
                "machine_item.manage",
                "machine_item.removed",
                "machine_item",
                input.id.clone(),
                Some(AuditRecord::Item(before)),
                Some(AuditRecord::Item(after)),
                "Machine item removed",
            ),
        )
    }

    /// What `replace_machine_item` gives: the state `new_state` it leaves and its result `r`, from
    /// the state `old_state`.
    pub open spec fn replace_machine_item_outcome(
        old_state: ApplicationState,
        new_state: ApplicationState,
        command_id: &str,
        now: u64,
        actor: &Actor,
        data: CommandData,
        r: Result<Action, String>,
    ) -> bool {
        &&& (replace_item_error(old_state, actor.role, data) matches Some(e) ==> (r matches Err(x) && x@
                == e))
        &&& (r is Err ==> new_state == old_state)
        &&& (r matches Ok(a) ==> allowed(actor.role, a.permission@))
        &&& (replace_item_error(old_state, actor.role, data) is None ==> (r matches Ok(a)
                && data matches CommandData::ReplaceMachineItem(input) && {
                let i = first_index(old_state.machine_items@, active_item_id_is(input.id@))->0;
                let before = old_state.machine_items@[i];
                let after = new_state.machine_items@[i];
                let rep = new_state.machine_item_replacements@.last();
                &&& new_state == ApplicationState {
                    machine_items: new_state.machine_items,
                    machine_item_replacements: new_state.machine_item_replacements,
                    ..old_state
                }
                &&& new_state.machine_items@ == old_state.machine_items@.update(i, after)
                &&& after == MachineItem {
                    installed_component: after.installed_component,
                    updated_at_ms: now,
                    ..before
                }
                &&& after.installed_component matches Some(c) && rep.current.same_as(&c)
                &&& new_state.machine_item_replacements@ == old_state.machine_item_replacements@.push(rep)
                &&& rep.id@ == "replacement-"@ + command_id@
                &&& rep.machine_item_id == input.id
                &&& rep.previous == before.installed_component
                &&& is_installed_from(
                    rep.current,
                    input.installed_component,
                    "installation-"@ + command_id@,
                )
                &&& rep.reason@ == trim(input.reason@)
                &&& rep.replaced_by == actor.name
                &&& rep.replaced_at_ms == now
                &&& event_is(
                    a,
                    "machine_item.manage"@,
                    "machine_item.replaced"@,
                    "machine_item"@,
                    input.id@,
                    "Machine item physical unit replaced"@,
                )
                &&& a.before matches Some(AuditRecord::Item(x)) && before.same_as(&x)
                &&& a.after matches Some(AuditRecord::Item(x)) && after.same_as(&x)
            }))
    }

    /// A supervisor records that an item's physical unit was replaced: the item gets the
    /// new unit and the replacement keeps both units and the reason.
    pub fn replace_machine_item(&mut self, command_id: &str, now: u64, actor: &Actor, data: CommandData)
        -> (r: Result<Action, String>)
        ensures
            Self::replace_machine_item_outcome(*old(self), *final(self), command_id, now, actor, data, r),
    {
        require_permission(actor.role, "machine_item.manage")?;
        let input = match data {
            CommandData::ReplaceMachineItem(input) => input,
            _ => return Err(invalid_data()),
        };
        require_text(input.reason.as_str(), "replacement_reason_required")?;
        let i = match position_of_active_item(&self.machine_items, input.id.as_str()) {
            Some(i) => i,
            None => return Err(owned("machine_item_not_found")),
        };
        let before = self.machine_items[i].deep_copy();
        let ReplaceMachineItem { id, reason, installed_component } = input;
        let current = into_installed(installed_component, concat2("installation-", command_id));
        let ghost old_items = self.machine_items@;
        let mut item = self.machine_items.remove(i);
        let previous = item.installed_component;
        item.installed_component = Some(current.deep_copy());
        item.updated_at_ms = now;
        let after = item.deep_copy();
        self.machine_items.insert(i, item);
        assert(self.machine_items@ =~= old_items.update(i as int, self.machine_items@[i as int]));
        self.machine_item_replacements.push(
            MachineItemReplacement {
                id: concat2("replacement-", command_id),
                machine_item_id: id.clone(),
                previous,
                current,
                reason: trimmed(reason.as_str()),
                replaced_by: actor.name.clone(),
                replaced_at_ms: now,
            },
        );
        Ok(
            domain_action(
                "machine_item.manage",
                "machine_item.replaced",
                "machine_item",
                id,
                Some(AuditRecord::Item(before)),
                Some(AuditRecord::Item(after)),
                "Machine item physical unit replaced",
            ),
        )
    }
}

} // verus!
