//! The supplier directory.
use vstd::prelude::*;

use crate::accounts::{opt_str_view, supplier_email_ok, supplier_website_ok, validate_supplier_links};
use crate::commands::{CommandData, SupplierInput};
use crate::lookup::{index_of_id, position_of_id};
use crate::model::{copy_text, AuditRecord, Supplier};
use crate::permissions::{allowed, require_permission, Role};
use crate::state::{action, action_is, invalid_data, require_text, Action, Actor, ApplicationState};
use crate::text::{clean_optional, clean_spec, concat2, is_blank, opt_view, owned, trim, trimmed};

verus! {

/// Why a supplier's fields are refused, if they are.
pub open spec fn supplier_input_error(input: SupplierInput) -> Option<Seq<char>> {
    if is_blank(input.name@) {
        Some("supplier_name_required"@)
    } else if is_blank(input.contact@) {
        Some("supplier_contact_required"@)
    } else if !supplier_email_ok(opt_view(input.email)) {
        Some("supplier_email_invalid"@)
    } else if !supplier_website_ok(opt_view(input.website)) {
        Some("supplier_website_invalid"@)
    } else {
        None
    }
}

/// `s` holds the cleaned fields of `input`.
pub open spec fn supplier_fields(s: Supplier, input: SupplierInput) -> bool {
    &&& s.name@ == trim(input.name@)
    &&& s.contact@ == trim(input.contact@)
    &&& opt_view(s.email) == clean_spec(opt_view(input.email))
    &&& opt_view(s.website) == clean_spec(opt_view(input.website))
    &&& opt_view(s.notes) == clean_spec(opt_view(input.notes))
}

/// Why creating a supplier fails, if it does.
pub open spec fn create_supplier_error(role: Role, data: CommandData) -> Option<Seq<char>> {
    if !allowed(role, "supplier.create_update_delete"@) {
        Some("forbidden"@)
    } else {
        match data {
            CommandData::Supplier(input) => supplier_input_error(input),
            _ => Some("invalid_command_data"@),
        }
    }
}

/// Why updating a supplier fails, if it does.
pub open spec fn update_supplier_error(suppliers: Seq<Supplier>, role: Role, data: CommandData) -> Option<
    Seq<char>,
> {
    if !allowed(role, "supplier.create_update_delete"@) {
        Some("forbidden"@)
    } else {
        match data {
            CommandData::UpdateSupplier(input) => match supplier_input_error(input.supplier) {
                Some(e) => Some(e),
                None => if index_of_id(suppliers, input.id@) is None {
                    Some("supplier_not_found"@)
                } else {
                    None
                },
            },
            _ => Some("invalid_command_data"@),
        }
    }
}

/// Why deleting a supplier fails, if it does.
pub open spec fn delete_supplier_error(suppliers: Seq<Supplier>, role: Role, data: CommandData) -> Option<
    Seq<char>,
> {
    if !allowed(role, "supplier.create_update_delete"@) {
        Some("forbidden"@)
    } else {
        match data {
            CommandData::ById(input) => if index_of_id(suppliers, input.id@) is None {
                Some("supplier_not_found"@)
            } else {
                None
            },
            _ => Some("invalid_command_data"@),
        }
    }
}

/// Checks a supplier's fields in the order the rules name them.
fn check_supplier_input(input: &SupplierInput) -> (r: Result<(), String>)
    ensures
        supplier_input_error(*input) matches Some(e) ==> (r matches Err(x) && x@ == e),
        supplier_input_error(*input) is None ==> r is Ok,
{
    require_text(input.name.as_str(), "supplier_name_required")?;
    require_text(input.contact.as_str(), "supplier_contact_required")?;
    let email = match &input.email {
        Some(e) => Some(e.as_str()),
        None => None,
    };
    let website = match &input.website {
        Some(w) => Some(w.as_str()),
        None => None,
    };
    assert(opt_str_view(email) == opt_view(input.email));
    assert(opt_str_view(website) == opt_view(input.website));
    validate_supplier_links(email, website)
}

impl ApplicationState {
    /// What `create_supplier` gives: the state `new_state` it leaves and its result `r`, from
    /// the state `old_state`.
    pub open spec fn create_supplier_outcome(
        old_state: ApplicationState,
        new_state: ApplicationState,
        command_id: &str,
        now: u64,
        actor: &Actor,
        data: &CommandData,
        r: Result<Action, String>,
    ) -> bool {
        &&& (create_supplier_error(actor.role, *data) matches Some(e) ==> (r matches Err(x) && x@
                == e))
        &&& (r is Err ==> new_state == old_state)
        &&& (r matches Ok(a) ==> allowed(actor.role, a.permission@))
        &&& (create_supplier_error(actor.role, *data) is None ==> (r matches Ok(a)
                && data matches CommandData::Supplier(input) && {
                let s = new_state.suppliers@.last();
                &&& new_state == ApplicationState { suppliers: new_state.suppliers, ..old_state }
                &&& new_state.suppliers@ == old_state.suppliers@.push(s)
                &&& s.id@ == "supplier-"@ + command_id@
                &&& supplier_fields(s, *input)
                &&& s.created_by == actor.name
                &&& s.created_at_ms == now
                &&& s.updated_at_ms == now
                &&& action_is(
                    a,
                    "supplier.create_update_delete"@,
                    "supplier"@,
                    s.id@,
                    None,
                    Some(AuditRecord::Supplier(s)),
                    "Supplier created"@,
                )
            }))
    }

    /// An administrator adds a supplier.
    pub fn create_supplier(&mut self, command_id: &str, now: u64, actor: &Actor, data: &CommandData)
        -> (r: Result<Action, String>)
        ensures
            Self::create_supplier_outcome(*old(self), *final(self), command_id, now, actor, data, r),
    {
        require_permission(actor.role, "supplier.create_update_delete")?;
        let input = match data {
            CommandData::Supplier(input) => input,
            _ => return Err(invalid_data()),
        };
        check_supplier_input(input)?;
        let id = concat2("supplier-", command_id);
        let supplier = Supplier {
            id: id.clone(),
            name: trimmed(input.name.as_str()),
            contact: trimmed(input.contact.as_str()),
            email: clean_optional(copy_text(&input.email)),
            website: clean_optional(copy_text(&input.website)),
            notes: clean_optional(copy_text(&input.notes)),
            created_by: actor.name.clone(),
            created_at_ms: now,
            updated_at_ms: now,
        };
        let after = supplier.duplicate();
        self.suppliers.push(supplier);
        Ok(
            action(
                "supplier.create_update_delete",
                "supplier",
                id,
                None,
                Some(AuditRecord::Supplier(after)),
                "Supplier created",
            ),
        )
    }

    /// What `update_supplier` gives: the state `new_state` it leaves and its result `r`, from
    /// the state `old_state`.
    pub open spec fn update_supplier_outcome(
        old_state: ApplicationState,
        new_state: ApplicationState,
        now: u64,
        actor: &Actor,
        data: &CommandData,
        r: Result<Action, String>,
    ) -> bool {
        &&& (update_supplier_error(old_state.suppliers@, actor.role, *data) matches Some(e) ==> (r matches Err(
                x,
            ) && x@ == e))
        &&& (r is Err ==> new_state == old_state)
        &&& (r matches Ok(a) ==> allowed(actor.role, a.permission@))
        &&& (update_supplier_error(old_state.suppliers@, actor.role, *data) is None ==> (r matches Ok(a)
                && data matches CommandData::UpdateSupplier(input) && {
                let i = index_of_id(old_state.suppliers@, input.id@)->0;
                let before = old_state.suppliers@[i];
                let after = new_state.suppliers@[i];
                &&& new_state == ApplicationState { suppliers: new_state.suppliers, ..old_state }
                &&& new_state.suppliers@ == old_state.suppliers@.update(i, after)
                &&& after == Supplier {
                    name: after.name,
                    contact: after.contact,
                    email: after.email,
                    website: after.website,
                    notes: after.notes,
                    updated_at_ms: now,
                    ..before
                }
                &&& supplier_fields(after, input.supplier)
                &&& action_is(
                    a,
                    "supplier.create_update_delete"@,
                    "supplier"@,
                    input.id@,
                    Some(AuditRecord::Supplier(before)),
                    Some(AuditRecord::Supplier(after)),
                    "Supplier updated"@,
                )
            }))
    }

    /// An administrator replaces a supplier's fields.
    pub fn update_supplier(&mut self, now: u64, actor: &Actor, data: &CommandData) -> (r: Result<
        Action,
        String,
    >)
        ensures
            Self::update_supplier_outcome(*old(self), *final(self), now, actor, data, r),
    {
        require_permission(actor.role, "supplier.create_update_delete")?;
        let input = match data {
            CommandData::UpdateSupplier(input) => input,
            _ => return Err(invalid_data()),
        };
        check_supplier_input(&input.supplier)?;
        let i = match position_of_id(&self.suppliers, input.id.as_str()) {
            Some(i) => i,
            None => return Err(owned("supplier_not_found")),
        };
        let fields = &input.supplier;
        let before = self.suppliers[i].duplicate();
        let mut supplier = self.suppliers[i].duplicate();
        supplier.name = trimmed(fields.name.as_str());
        supplier.contact = trimmed(fields.contact.as_str());
        supplier.email = clean_optional(copy_text(&fields.email));
        supplier.website = clean_optional(copy_text(&fields.website));
        supplier.notes = clean_optional(copy_text(&fields.notes));
        supplier.updated_at_ms = now;
        let after = supplier.duplicate();
        self.suppliers.set(i, supplier);
        Ok(
            action(
                "supplier.create_update_delete",
                "supplier",
                input.id.clone(),
                Some(AuditRecord::Supplier(before)),
                Some(AuditRecord::Supplier(after)),
                "Supplier updated",
            ),
        )
    }

    /// What `delete_supplier` gives: the state `new_state` it leaves and its result `r`, from
    /// the state `old_state`.
    pub open spec fn delete_supplier_outcome(
        old_state: ApplicationState,
        new_state: ApplicationState,
        actor: &Actor,
        data: &CommandData,
        r: Result<Action, String>,
    ) -> bool {
        &&& (delete_supplier_error(old_state.suppliers@, actor.role, *data) matches Some(e) ==> (r matches Err(
                x,
            ) && x@ == e))
        &&& (r is Err ==> new_state == old_state)
        &&& (r matches Ok(a) ==> allowed(actor.role, a.permission@))
        &&& (delete_supplier_error(old_state.suppliers@, actor.role, *data) is None ==> (r matches Ok(a)
                && data matches CommandData::ById(input) && {
                let i = index_of_id(old_state.suppliers@, input.id@)->0;
                let removed = old_state.suppliers@[i];
                &&& new_state == ApplicationState { suppliers: new_state.suppliers, ..old_state }
                &&& new_state.suppliers@ == old_state.suppliers@.remove(i)
                &&& action_is(
                    a,
                    "supplier.create_update_delete"@,
                    "supplier"@,
                    removed.id@,
                    Some(AuditRecord::Supplier(removed)),
                    None,
                    "Supplier deleted"@,
                )
            }))
    }

    /// An administrator removes a supplier.
    pub fn delete_supplier(&mut self, actor: &Actor, data: &CommandData) -> (r: Result<
        Action,
        String,
    >)
        ensures
            Self::delete_supplier_outcome(*old(self), *final(self), actor, data, r),
    {
        require_permission(actor.role, "supplier.create_update_delete")?;
        let input = match data {
            CommandData::ById(input) => input,
            _ => return Err(invalid_data()),
        };
        let i = match position_of_id(&self.suppliers, input.id.as_str()) {
            Some(i) => i,
            None => return Err(owned("supplier_not_found")),
        };
        let supplier = self.suppliers.remove(i);
        let id = supplier.id.clone();
        Ok(
            action(
                "supplier.create_update_delete",
                "supplier",
                id,
                Some(AuditRecord::Supplier(supplier)),
                None,
                "Supplier deleted",
            ),
        )
    }
}

} // verus!
