//! Machines: creation, updates and the status derived from their items.
use vstd::prelude::*;

use crate::commands::{CommandData, MachineInput};
use crate::copies::Duplicate;
use crate::lookup::{index_of_id, position_of_id};
use crate::model::{copy_text, AuditRecord, Machine, MachineItem, OperationalStatus};
use crate::orders::active_item_of;
use crate::permissions::{allowed, require_permission, Role};
use crate::policy::{derive_machine_status, derived_status, normalize_identifier, normalized_identifier};
use crate::state::{domain_action, event_is, invalid_data, require_text, Action, Actor, ApplicationState};
use crate::text::{clean_optional, clean_spec, concat2, is_blank, opt_view, owned, str_equal, trim, trimmed};

verus! {

/// The statuses of a machine's active items, in order.
pub open spec fn machine_statuses(items: Seq<MachineItem>, machine_id: Seq<char>) -> Seq<OperationalStatus> {
    items.filter(active_item_of(machine_id)).map_values(|it: MachineItem| it.status)
}

/// The machines after the status of `machine_id` is derived again from its active items.
pub open spec fn refreshed_machines(
    machines: Seq<Machine>,
    items: Seq<MachineItem>,
    machine_id: Seq<char>,
    now: u64,
) -> Seq<Machine> {
    match index_of_id(machines, machine_id) {
        Some(k) => machines.update(
            k,
            Machine {
                status: derived_status(machine_statuses(items, machine_id)),
                updated_at_ms: now,
                ..machines[k]
            },
        ),
        None => machines,
    }
}

pub(crate) fn statuses_of(items: &Vec<MachineItem>, machine_id: &str) -> (r: Vec<OperationalStatus>)
    ensures
        r@ == machine_statuses(items@, machine_id@),
{
    let ghost p = active_item_of(machine_id@);
    let mut out: Vec<OperationalStatus> = Vec::new();
    let mut i: usize = 0;
    while i < items.len()
        invariant
            i <= items@.len(),
            p == active_item_of(machine_id@),
            out@ == items@.take(i as int).filter(p).map_values(|it: MachineItem| it.status),
        decreases items@.len() - i,
    {
        let ghost before = items@.take(i as int).filter(p);
        proof {
            let t = items@.take(i + 1);
            assert(t.drop_last() == items@.take(i as int));
            assert(t.last() == items@[i as int]);
            reveal(Seq::filter);
        }
        if items[i].active && str_equal(items[i].machine_id.as_str(), machine_id) {
            out.push(items[i].status);
            proof {
                assert(items@.take(i + 1).filter(p) == before.push(items@[i as int]));
                assert(out@ == items@.take(i + 1).filter(p).map_values(|it: MachineItem| it.status));
            }
        } else {
            proof {
                assert(items@.take(i + 1).filter(p) == before);
            }
        }
        i += 1;
    }
    assert(items@.take(items@.len() as int) == items@);
    out
}

/// The `machine_code_already_exists` test: another machine has this normalized code.
pub open spec fn code_taken(machines: Seq<Machine>, except_id: Option<Seq<char>>, code: Seq<char>) -> bool {
    exists|j: int|
        0 <= j < machines.len() && (#[trigger] machines[j]).code_normalized@ == code && match except_id {
            Some(id) => machines[j].id@ != id,
            None => true,
        }
}

fn machine_code_taken(machines: &Vec<Machine>, except_id: Option<&str>, code: &str) -> (r: bool)
    ensures
        r == code_taken(
            machines@,
            match except_id {
                Some(id) => Some(id@),
                None => None,
            },
            code@,
        ),
{
    let ghost except = match except_id {
        Some(id) => Some(id@),
        None => None::<Seq<char>>,
    };
    let mut j: usize = 0;
    while j < machines.len()
        invariant
            j <= machines@.len(),
            except == match except_id {
                Some(id) => Some(id@),
                None => None::<Seq<char>>,
            },
            forall|k: int|
                0 <= k < j ==> !((#[trigger] machines@[k]).code_normalized@ == code@ && match except {
                    Some(id) => machines@[k].id@ != id,
                    None => true,
                }),
        decreases machines@.len() - j,
    {
        let m = &machines[j];
        let other = match except_id {
            Some(id) => !str_equal(m.id.as_str(), id),
            None => true,
        };
        if other && str_equal(m.code_normalized.as_str(), code) {
            assert(machines@[j as int].code_normalized@ == code@);
            return true;
        }
        j += 1;
    }
    false
}

/// Why a machine's fields are refused, if they are.
pub open spec fn machine_input_error(input: MachineInput) -> Option<Seq<char>> {
    if is_blank(normalized_identifier(input.code@)) {
        Some("machine_code_required"@)
    } else if is_blank(input.name@) {
        Some("machine_name_required"@)
    } else if is_blank(input.zone@) {
        Some("zone_required"@)
    } else {
        None
    }
}

/// `m` holds the cleaned fields of `input`.
pub open spec fn machine_fields(m: Machine, input: MachineInput) -> bool {
    &&& m.code@ == normalized_identifier(input.code@)
    &&& m.code_normalized@ == normalized_identifier(input.code@)
    &&& m.name@ == trim(input.name@)
    &&& opt_view(m.description) == clean_spec(opt_view(input.description))
    &&& m.zone@ == trim(input.zone@)
    &&& opt_view(m.location) == clean_spec(opt_view(input.location))
    &&& opt_view(m.manufacturer) == clean_spec(opt_view(input.manufacturer))
    &&& opt_view(m.model) == clean_spec(opt_view(input.model))
    &&& opt_view(m.serial_number) == clean_spec(opt_view(input.serial_number))
    &&& m.active == input.active
}

/// Why creating a machine fails, if it does.
pub open spec fn create_machine_error(machines: Seq<Machine>, role: Role, data: CommandData) -> Option<
    Seq<char>,
> {
    if !allowed(role, "machine.create"@) {
        Some("forbidden"@)
    } else {
        match data {
            CommandData::Machine(input) => match machine_input_error(input) {
                Some(e) => Some(e),
                None => if code_taken(machines, None, normalized_identifier(input.code@)) {
                    Some("machine_code_already_exists"@)
                } else {
                    None
                },
            },
            _ => Some("invalid_command_data"@),
        }
    }
}

/// Why updating a machine fails, if it does.
pub open spec fn update_machine_error(machines: Seq<Machine>, role: Role, data: CommandData) -> Option<
    Seq<char>,
> {
    if !allowed(role, "machine.update"@) {
        Some("forbidden"@)
    } else {
        match data {
            CommandData::UpdateMachine(input) => match machine_input_error(input.machine) {
                Some(e) => Some(e),
                None => if index_of_id(machines, input.id@) is None {
                    Some("machine_not_found"@)
                } else if code_taken(
                    machines,
                    Some(input.id@),
                    normalized_identifier(input.machine.code@),
                ) {
                    Some("machine_code_already_exists"@)
                } else {
                    None
                },
            },
            _ => Some("invalid_command_data"@),
        }
    }
}

fn check_machine_input(input: &MachineInput) -> (r: Result<String, String>)
    ensures
        machine_input_error(*input) matches Some(e) ==> (r matches Err(x) && x@ == e),
        machine_input_error(*input) is None ==> (r matches Ok(code) && code@ == normalized_identifier(
            input.code@,
        )),
{
    let code = normalize_identifier(input.code.as_str());
    require_text(code.as_str(), "machine_code_required")?;
    require_text(input.name.as_str(), "machine_name_required")?;
    require_text(input.zone.as_str(), "zone_required")?;
    Ok(code)
}

impl ApplicationState {
    /// Derives again the status of a machine from the statuses of its active items.
    pub fn refresh_machine_status(&mut self, machine_id: &str, now: u64)
        ensures
            *final(self) == (ApplicationState { machines: final(self).machines, ..*old(self) }),
            final(self).machines@ == refreshed_machines(
                old(self).machines@,
                old(self).machine_items@,
                machine_id@,
                now,
            ),
    {
        let statuses = statuses_of(&self.machine_items, machine_id);
        let derived = derive_machine_status(statuses.as_slice());
        if let Some(k) = position_of_id(&self.machines, machine_id) {
            let ghost old_machines = self.machines@;
            let mut machine = self.machines.remove(k);
            machine.status = derived;
            machine.updated_at_ms = now;
            self.machines.insert(k, machine);
            assert(self.machines@ =~= old_machines.update(k as int, self.machines@[k as int]));
        }
    }

    /// What `create_machine` gives: the state `new_state` it leaves and its result `r`, from
    /// the state `old_state`.
    pub open spec fn create_machine_outcome(
        old_state: ApplicationState,
        new_state: ApplicationState,
        command_id: &str,
        now: u64,
        actor: &Actor,
        data: &CommandData,
        r: Result<Action, String>,
    ) -> bool {
        &&& (create_machine_error(old_state.machines@, actor.role, *data) matches Some(e) ==> (r matches Err(
                x,
            ) && x@ == e))
        &&& (r is Err ==> new_state == old_state)
        &&& (r matches Ok(a) ==> allowed(actor.role, a.permission@))
        &&& (create_machine_error(old_state.machines@, actor.role, *data) is None ==> (r matches Ok(a)
                && data matches CommandData::Machine(input) && {
                let m = new_state.machines@.last();
                &&& new_state == ApplicationState { machines: new_state.machines, ..old_state }
                &&& new_state.machines@ == old_state.machines@.push(m)
                &&& m.id@ == "machine-"@ + command_id@
                &&& machine_fields(m, *input)
                &&& m.status == OperationalStatus::Unknown
                &&& m.main_photo_id is None
                &&& m.created_at_ms == now
                &&& m.updated_at_ms == now
                &&& event_is(a, "machine.create"@, "machine.created"@, "machine"@, m.id@, "Machine created"@)
                &&& a.before is None
                &&& a.after == Some(AuditRecord::Machine(m))
            }))
    }

    /// A supervisor registers a machine; its status is unknown until it has items.
    pub fn create_machine(&mut self, command_id: &str, now: u64, actor: &Actor, data: &CommandData)
        -> (r: Result<Action, String>)
        ensures
            Self::create_machine_outcome(*old(self), *final(self), command_id, now, actor, data, r),
    {
        require_permission(actor.role, "machine.create")?;
        let input = match data {
            CommandData::Machine(input) => input,
            _ => return Err(invalid_data()),
        };
        let code = check_machine_input(input)?;
        if machine_code_taken(&self.machines, None, code.as_str()) {
            return Err(owned("machine_code_already_exists"));
        }
        let id = concat2("machine-", command_id);
        let machine = Machine {
            id: id.clone(),
            code: code.clone(),
            code_normalized: code,
            name: trimmed(input.name.as_str()),
            description: clean_optional(copy_text(&input.description)),
            zone: trimmed(input.zone.as_str()),
            location: clean_optional(copy_text(&input.location)),
            manufacturer: clean_optional(copy_text(&input.manufacturer)),
            model: clean_optional(copy_text(&input.model)),
            serial_number: clean_optional(copy_text(&input.serial_number)),
            status: OperationalStatus::Unknown,
            main_photo_id: None,
            active: input.active,
            created_at_ms: now,
            updated_at_ms: now,
        };
        let after = machine.duplicate();
        self.machines.push(machine);
        Ok(
            domain_action(
                "machine.create",
                "machine.created",
                "machine",
                id,
                None,
                Some(AuditRecord::Machine(after)),
                "Machine created",
            ),
        )
    }

    /// What `update_machine` gives: the state `new_state` it leaves and its result `r`, from
    /// the state `old_state`.
    pub open spec fn update_machine_outcome(
        old_state: ApplicationState,
        new_state: ApplicationState,
        now: u64,
        actor: &Actor,
        data: &CommandData,
        r: Result<Action, String>,
    ) -> bool {
        &&& (update_machine_error(old_state.machines@, actor.role, *data) matches Some(e) ==> (r matches Err(
                x,
            ) && x@ == e))
        &&& (r is Err ==> new_state == old_state)
        &&& (r matches Ok(a) ==> allowed(actor.role, a.permission@))
        &&& (update_machine_error(old_state.machines@, actor.role, *data) is None ==> (r matches Ok(a)
                && data matches CommandData::UpdateMachine(input) && {
                let i = index_of_id(old_state.machines@, input.id@)->0;
                let before = old_state.machines@[i];
                let after = new_state.machines@[i];
                &&& new_state == ApplicationState { machines: new_state.machines, ..old_state }
                &&& new_state.machines@ == old_state.machines@.update(i, after)
                &&& after == Machine {
                    code: after.code,
                    code_normalized: after.code_normalized,
                    name: after.name,
                    description: after.description,
                    zone: after.zone,
                    location: after.location,
                    manufacturer: after.manufacturer,
                    model: after.model,
                    serial_number: after.serial_number,
                    active: after.active,
                    updated_at_ms: now,
                    ..before
                }
                &&& machine_fields(after, input.machine)
                &&& event_is(a, "machine.update"@, "machine.updated"@, "machine"@, input.id@, "Machine updated"@)
                &&& a.before == Some(AuditRecord::Machine(before))
                &&& a.after == Some(AuditRecord::Machine(after))
            }))
    }

    /// A supervisor replaces a machine's fields; its status and photo stay.
    pub fn update_machine(&mut self, now: u64, actor: &Actor, data: &CommandData) -> (r: Result<
        Action,
        String,
    >)
        ensures
            Self::update_machine_outcome(*old(self), *final(self), now, actor, data, r),
    {
        require_permission(actor.role, "machine.update")?;
        let input = match data {
            CommandData::UpdateMachine(input) => input,
            _ => return Err(invalid_data()),
        };
        let fields = &input.machine;
        let code = check_machine_input(fields)?;
        let i = match position_of_id(&self.machines, input.id.as_str()) {
            Some(i) => i,
            None => return Err(owned("machine_not_found")),
        };
        if machine_code_taken(&self.machines, Some(input.id.as_str()), code.as_str()) {
            return Err(owned("machine_code_already_exists"));
        }
        let before = self.machines[i].duplicate();
        let ghost old_machines = self.machines@;
        let mut machine = self.machines.remove(i);
        machine.code = code.clone();
        machine.code_normalized = code;
        machine.name = trimmed(fields.name.as_str());
        machine.description = clean_optional(copy_text(&fields.description));
        machine.zone = trimmed(fields.zone.as_str());
        machine.location = clean_optional(copy_text(&fields.location));
        machine.manufacturer = clean_optional(copy_text(&fields.manufacturer));
        machine.model = clean_optional(copy_text(&fields.model));
        machine.serial_number = clean_optional(copy_text(&fields.serial_number));
        machine.active = fields.active;
        machine.updated_at_ms = now;
        let after = machine.duplicate();
        self.machines.insert(i, machine);
        assert(self.machines@ =~= old_machines.update(i as int, self.machines@[i as int]));
        Ok(
            domain_action(
                "machine.update",
                "machine.updated",
                "machine",
                input.id.clone(),
                Some(AuditRecord::Machine(before)),
                Some(AuditRecord::Machine(after)),
                "Machine updated",
            ),
        )
    }
}

} // verus!
