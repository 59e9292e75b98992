//! Restock requests and stock items.
use vstd::prelude::*;

use crate::commands::CommandData;
use crate::lookup::{first_index, index_of_id, is_first, lemma_first_index, position_of_id};
use crate::model::{
    copy_text, AuditRecord, RestockRequest, RestockStatus, StockItem, StockMovement,
    StockMovementKind,
};
use crate::permissions::{allowed, require_permission, Role};
use crate::policy::{adjust_stock, normalize_reference, normalized_identifier};
use crate::state::{action, action_is, invalid_data, require_text, Action, Actor, ApplicationState};
use crate::text::{
    clean_optional, clean_spec, concat2, is_blank, opt_view, owned, str_equal, trim, trimmed,
};

verus! {

/// Why creating a restock request fails, if it does.
pub open spec fn create_restock_error(role: Role, data: CommandData) -> Option<Seq<char>> {
    if !allowed(role, "restock.create_suggestion"@) {
        Some("forbidden"@)
    } else {
        match data {
            CommandData::CreateRestockRequest(input) => if is_blank(
                normalized_identifier(input.reference@),
            ) {
                Some("reference_required"@)
            } else if is_blank(input.reason@) {
                Some("reason_required"@)
            } else {
                None
            },
            _ => Some("invalid_command_data"@),
        }
    }
}

/// A new pending request for `reference`, suggested by `actor`.
pub open spec fn new_restock_request(
    req: RestockRequest,
    command_id: Seq<char>,
    now: u64,
    actor: Actor,
    reference: Seq<char>,
    reason: Seq<char>,
) -> bool {
    &&& req.id@ == "restock-"@ + command_id
    &&& req.reference@ == normalized_identifier(reference)
    &&& req.reason@ == trim(reason)
    &&& req.requested_by == actor.name
    &&& req.status == RestockStatus::Pending
    &&& req.reviewed_by is None
    &&& req.reviewed_at_ms is None
    &&& req.created_at_ms == now
}

/// Why reviewing a restock request fails, if it does.
pub open spec fn review_restock_error(
    requests: Seq<RestockRequest>,
    role: Role,
    data: CommandData,
) -> Option<Seq<char>> {
    if !allowed(role, "restock.approve_reject"@) {
        Some("forbidden"@)
    } else {
        match data {
            CommandData::ReviewRestockRequest(input) => if input.status == RestockStatus::Pending {
                Some("review_status_must_be_final"@)
            } else {
                match index_of_id(requests, input.id@) {
                    None => Some("restock_request_not_found"@),
                    Some(i) => if requests[i].status != RestockStatus::Pending {
                        Some("restock_request_already_reviewed"@)
                    } else {
                        None
                    },
                }
            },
            _ => Some("invalid_command_data"@),
        }
    }
}

/// Why deleting a restock request fails, if it does.
pub open spec fn delete_restock_error(
    requests: Seq<RestockRequest>,
    role: Role,
    data: CommandData,
) -> Option<Seq<char>> {
    if !allowed(role, "restock.delete"@) {
        Some("forbidden"@)
    } else {
        match data {
            CommandData::ById(input) => match index_of_id(requests, input.id@) {
                None => Some("restock_request_not_found"@),
                Some(i) => if requests[i].status == RestockStatus::Approved {
                    Some("approved_restock_cannot_be_deleted"@)
                } else {
                    None
                },
            },
            _ => Some("invalid_command_data"@),
        }
    }
}

/// Why a stock adjustment fails, if it does.
pub open spec fn adjust_stock_error(items: Seq<StockItem>, role: Role, data: CommandData) -> Option<
    Seq<char>,
> {
    if !allowed(role, "stock.adjust_quantity"@) {
        Some("forbidden"@)
    } else {
        match data {
            CommandData::AdjustStock(input) => if is_blank(input.reason@) {
                Some("adjustment_reason_required"@)
            } else if input.delta == 0 {
                Some("adjustment_delta_cannot_be_zero"@)
            } else {
                match index_of_id(items, input.id@) {
                    None => Some("stock_item_not_found"@),
                    Some(i) => if items[i].quantity + input.delta < 0 {
                        Some("stock_cannot_be_negative"@)
                    } else if items[i].quantity + input.delta > u32::MAX {
                        Some("stock_quantity_overflow"@)
                    } else {
                        None
                    },
                }
            },
            _ => Some("invalid_command_data"@),
        }
    }
}

/// The test "has normalized reference `reference`".
pub open spec fn reference_is(reference: Seq<char>) -> spec_fn(StockItem) -> bool {
    |item: StockItem| item.reference_normalized@ == reference
}

/// Why adding or updating a stock item fails, if it does.
pub open spec fn upsert_stock_error(role: Role, data: CommandData) -> Option<Seq<char>> {
    if !allowed(role, "stock.add_or_increment"@) {
        Some("forbidden"@)
    } else {
        match data {
            CommandData::UpsertStock(input) => if is_blank(
                normalized_identifier(input.reference@),
            ) {
                Some("reference_required"@)
            } else {
                None
            },
            _ => Some("invalid_command_data"@),
        }
    }
}

/// Why deleting a stock item fails, if it does.
pub open spec fn delete_stock_error(items: Seq<StockItem>, role: Role, data: CommandData) -> Option<
    Seq<char>,
> {
    if !allowed(role, "stock.delete"@) {
        Some("forbidden"@)
    } else {
        match data {
            CommandData::ById(input) => match index_of_id(items, input.id@) {
                None => Some("stock_item_not_found"@),
                Some(i) => if items[i].quantity > 0 {
                    Some("stock_item_not_empty"@)
                } else {
                    None
                },
            },
            _ => Some("invalid_command_data"@),
        }
    }
}

/// Finds the first stock item with the given normalized reference.
fn position_of_reference(items: &Vec<StockItem>, reference: &str) -> (r: Option<usize>)
    ensures
        match r {
            Some(i) => first_index(items@, reference_is(reference@)) == Some(i as int),
            None => first_index(items@, reference_is(reference@)) is None,
        },
{
    let ghost p = reference_is(reference@);
    let mut i: usize = 0;
    while i < items.len()
        invariant
            i <= items@.len(),
            p == reference_is(reference@),
            forall|j: int| 0 <= j < i ==> !p(#[trigger] items@[j]),
        decreases items@.len() - i,
    {
        if str_equal(items[i].reference_normalized.as_str(), reference) {
            proof {
                assert(is_first(items@, p, i as int));
                lemma_first_index(items@, p);
            }
            return Some(i);
        }
        i += 1;
    }
    proof {
        lemma_first_index(items@, p);
    }
    None
}

impl ApplicationState {
    /// What `create_restock_request` gives: the state `new_state` it leaves and its result `r`, from
    /// the state `old_state`.
    pub open spec fn create_restock_request_outcome(
        old_state: ApplicationState,
        new_state: ApplicationState,
        command_id: &str,
        now: u64,
        actor: &Actor,
        data: &CommandData,
        r: Result<Action, String>,
    ) -> bool {
        &&& (create_restock_error(actor.role, *data) matches Some(e) ==> (r matches Err(x) && x@
                == e))
        &&& (r is Err ==> new_state == old_state)
        &&& (r matches Ok(a) ==> allowed(actor.role, a.permission@))
        &&& (create_restock_error(actor.role, *data) is None ==> (r matches Ok(a) && {
                let req = new_state.restock_requests@.last();
                &&& new_state == ApplicationState {
                    restock_requests: new_state.restock_requests,
                    ..old_state
                }
                &&& new_state.restock_requests@ == old_state.restock_requests@.push(req)
                &&& data matches CommandData::CreateRestockRequest(input) && new_restock_request(
                    req,
                    command_id@,
                    now,
                    *actor,
                    input.reference@,
                    input.reason@,
                )
                &&& action_is(
                    a,
                    "restock.create_suggestion"@,
                    "restock_request"@,
                    req.id@,
                    None,
                    Some(AuditRecord::Restock(req)),
                    "Restock requested"@,
                )
            }))
    }

    /// A technician suggests buying more of a part: a pending request is added.
    pub fn create_restock_request(
        &mut self,
        command_id: &str,
        now: u64,
        actor: &Actor,
        data: &CommandData,
    ) -> (r: Result<Action, String>)
        ensures
            Self::create_restock_request_outcome(*old(self), *final(self), command_id, now, actor, data, r),
    {
        require_permission(actor.role, "restock.create_suggestion")?;
        let input = match data {
            CommandData::CreateRestockRequest(input) => input,
            _ => return Err(invalid_data()),
        };
        let reference = normalize_reference(input.reference.as_str());
        require_text(reference.as_str(), "reference_required")?;
        require_text(input.reason.as_str(), "reason_required")?;
        let id = concat2("restock-", command_id);
        let request = RestockRequest {
            id: id.clone(),
            reference,
            reason: trimmed(input.reason.as_str()),
            requested_by: actor.name.clone(),
            status: RestockStatus::Pending,
            reviewed_by: None,
            reviewed_at_ms: None,
            created_at_ms: now,
        };
        let after = request.duplicate();
        self.restock_requests.push(request);
        Ok(
            action(
                "restock.create_suggestion",
                "restock_request",
                id,
                None,
                Some(AuditRecord::Restock(after)),
                "Restock requested",
            ),
        )
    }

    /// What `review_restock_request` gives: the state `new_state` it leaves and its result `r`, from
    /// the state `old_state`.
    pub open spec fn review_restock_request_outcome(
        old_state: ApplicationState,
        new_state: ApplicationState,
        now: u64,
        actor: &Actor,
        data: &CommandData,
        r: Result<Action, String>,
    ) -> bool {
        &&& (review_restock_error(old_state.restock_requests@, actor.role, *data) matches Some(e)
                ==> (r matches Err(x) && x@ == e))
        &&& (r is Err ==> new_state == old_state)
        &&& (r matches Ok(a) ==> allowed(actor.role, a.permission@))
        &&& (review_restock_error(old_state.restock_requests@, actor.role, *data) is None ==> (r matches Ok(a)
                && data matches CommandData::ReviewRestockRequest(input) && {
                let i = index_of_id(old_state.restock_requests@, input.id@)->0;
                let before = old_state.restock_requests@[i];
                let after = RestockRequest {
                    status: input.status,
                    reviewed_by: Some(actor.name),
                    reviewed_at_ms: Some(now),
                    ..before
                };
                &&& new_state == ApplicationState {
                    restock_requests: new_state.restock_requests,
                    ..old_state
                }
                &&& new_state.restock_requests@ == old_state.restock_requests@.update(i, after)
                &&& action_is(
                    a,
                    "restock.approve_reject"@,
                    "restock_request"@,
                    input.id@,
                    Some(AuditRecord::Restock(before)),
                    Some(AuditRecord::Restock(after)),
                    "Restock request reviewed"@,
                )
            }))
    }

    /// A supervisor approves or rejects a pending restock request.
    pub fn review_restock_request(&mut self, now: u64, actor: &Actor, data: &CommandData) -> (r:
        Result<Action, String>)
        ensures
            Self::review_restock_request_outcome(*old(self), *final(self), now, actor, data, r),
    {
        require_permission(actor.role, "restock.approve_reject")?;
        let input = match data {
            CommandData::ReviewRestockRequest(input) => input,
            _ => return Err(invalid_data()),
        };
        if input.status == RestockStatus::Pending {
            return Err(owned("review_status_must_be_final"));
        }
        let i = match position_of_id(&self.restock_requests, input.id.as_str()) {
            Some(i) => i,
            None => return Err(owned("restock_request_not_found")),
        };
        if self.restock_requests[i].status != RestockStatus::Pending {
            return Err(owned("restock_request_already_reviewed"));
        }
        let before = self.restock_requests[i].duplicate();
        let mut request = self.restock_requests[i].duplicate();
        request.status = input.status;
        request.reviewed_by = Some(actor.name.clone());
        request.reviewed_at_ms = Some(now);
        let after = request.duplicate();
        self.restock_requests.set(i, request);
        Ok(
            action(
                "restock.approve_reject",
                "restock_request",
                input.id.clone(),
                Some(AuditRecord::Restock(before)),
                Some(AuditRecord::Restock(after)),
                "Restock request reviewed",
            ),
        )
    }

    /// What `delete_restock_request` gives: the state `new_state` it leaves and its result `r`, from
    /// the state `old_state`.
    pub open spec fn delete_restock_request_outcome(
        old_state: ApplicationState,
        new_state: ApplicationState,
        actor: &Actor,
        data: &CommandData,
        r: Result<Action, String>,
    ) -> bool {
        &&& (delete_restock_error(old_state.restock_requests@, actor.role, *data) matches Some(e)
                ==> (r matches Err(x) && x@ == e))
        &&& (r is Err ==> new_state == old_state)
        &&& (r matches Ok(a) ==> allowed(actor.role, a.permission@))
        &&& (delete_restock_error(old_state.restock_requests@, actor.role, *data) is None ==> (r matches Ok(a)
                && data matches CommandData::ById(input) && {
                let i = index_of_id(old_state.restock_requests@, input.id@)->0;
                let removed = old_state.restock_requests@[i];
                &&& new_state == ApplicationState {
                    restock_requests: new_state.restock_requests,
                    ..old_state
                }
                &&& new_state.restock_requests@ == old_state.restock_requests@.remove(i)
                &&& action_is(
                    a,
                    "restock.delete"@,
                    "restock_request"@,
                    removed.id@,
                    Some(AuditRecord::Restock(removed)),
                    None,
                    "Restock request deleted"@,
                )
            }))
    }

    /// A supervisor deletes a restock request that was not approved.
    pub fn delete_restock_request(&mut self, actor: &Actor, data: &CommandData) -> (r: Result<
        Action,
        String,
    >)
        ensures
            Self::delete_restock_request_outcome(*old(self), *final(self), actor, data, r),
    {
        require_permission(actor.role, "restock.delete")?;
        let input = match data {
            CommandData::ById(input) => input,
            _ => return Err(invalid_data()),
        };
        let i = match position_of_id(&self.restock_requests, input.id.as_str()) {
            Some(i) => i,
            None => return Err(owned("restock_request_not_found")),
        };
        if self.restock_requests[i].status == RestockStatus::Approved {
            return Err(owned("approved_restock_cannot_be_deleted"));
        }
        let request = self.restock_requests.remove(i);
        let id = request.id.clone();
        Ok(
            action(
                "restock.delete",
                "restock_request",
                id,
                Some(AuditRecord::Restock(request)),
                None,
                "Restock request deleted",
            ),
        )
    }

    /// What `adjust_stock_item` gives: the state `new_state` it leaves and its result `r`, from
    /// the state `old_state`.
    pub open spec fn adjust_stock_item_outcome(
        old_state: ApplicationState,
        new_state: ApplicationState,
        command_id: &str,
        idempotency_key: &str,
        now: u64,
        actor: &Actor,
        data: &CommandData,
        r: Result<Action, String>,
    ) -> bool {
        &&& (adjust_stock_error(old_state.stock_items@, actor.role, *data) matches Some(e) ==> (r matches Err(
                x,
            ) && x@ == e))
        &&& (r is Err ==> new_state == old_state)
        &&& (r matches Ok(a) ==> allowed(actor.role, a.permission@))
        &&& (adjust_stock_error(old_state.stock_items@, actor.role, *data) is None ==> (r matches Ok(a)
                && data matches CommandData::AdjustStock(input) && {
                let i = index_of_id(old_state.stock_items@, input.id@)->0;
                let before = old_state.stock_items@[i];
                let after = StockItem {
                    quantity: (before.quantity + input.delta) as u32,
                    updated_at_ms: now,
                    ..before
                };
                let movement = new_state.stock_movements@.last();
                &&& new_state == ApplicationState {
                    stock_items: new_state.stock_items,
                    stock_movements: new_state.stock_movements,
                    ..old_state
                }
                &&& new_state.stock_items@ == old_state.stock_items@.update(i, after)
                &&& new_state.stock_movements@ == old_state.stock_movements@.push(movement)
                &&& movement.id@ == "movement-"@ + command_id@
                &&& movement.stock_item_id == before.id
                &&& movement.kind == StockMovementKind::Correction
                &&& movement.delta == input.delta
                &&& movement.balance_after == after.quantity
                &&& movement.reason == input.reason
                &&& movement.actor == actor.name
                &&& movement.idempotency_key@ == idempotency_key@
                &&& movement.created_at_ms == now
                &&& action_is(
                    a,
                    "stock.adjust_quantity"@,
                    "stock_item"@,
                    input.id@,
                    Some(AuditRecord::Stock(before)),
                    Some(AuditRecord::Stock(after)),
                    "Stock adjusted"@,
                )
            }))
    }

    /// Corrects a stock quantity by a signed delta and records the movement; the quantity
    /// never becomes negative.
    pub fn adjust_stock_item(
        &mut self,
        command_id: &str,
        idempotency_key: &str,
        now: u64,
        actor: &Actor,
        data: &CommandData,
    ) -> (r: Result<Action, String>)
        ensures
            Self::adjust_stock_item_outcome(*old(self), *final(self), command_id, idempotency_key, now, actor, data, r),
    {
        require_permission(actor.role, "stock.adjust_quantity")?;
        let input = match data {
            CommandData::AdjustStock(input) => input,
            _ => return Err(invalid_data()),
        };
        require_text(input.reason.as_str(), "adjustment_reason_required")?;
        if input.delta == 0 {
            return Err(owned("adjustment_delta_cannot_be_zero"));
        }
        let i = match position_of_id(&self.stock_items, input.id.as_str()) {
            Some(i) => i,
            None => return Err(owned("stock_item_not_found")),
        };
        let quantity = match adjust_stock(self.stock_items[i].quantity, input.delta) {
            Ok(q) => q,
            Err(e) => return Err(owned(e)),
        };
        let before = self.stock_items[i].duplicate();
        let mut item = self.stock_items[i].duplicate();
        item.quantity = quantity;
        item.updated_at_ms = now;
        let after = item.duplicate();
        let movement = StockMovement {
            id: concat2("movement-", command_id),
            stock_item_id: item.id.clone(),
            kind: StockMovementKind::Correction,
            delta: input.delta,
            balance_after: item.quantity,
            reason: input.reason.clone(),
            actor: actor.name.clone(),
            idempotency_key: owned(idempotency_key),
            created_at_ms: now,
        };
        self.stock_items.set(i, item);
        self.stock_movements.push(movement);
        Ok(
            action(
                "stock.adjust_quantity",
                "stock_item",
                input.id.clone(),
                Some(AuditRecord::Stock(before)),
                Some(AuditRecord::Stock(after)),
                "Stock adjusted",
            ),
        )
    }

    /// What `upsert_stock_item` gives: the state `new_state` it leaves and its result `r`, from
    /// the state `old_state`.
    pub open spec fn upsert_stock_item_outcome(
        old_state: ApplicationState,
        new_state: ApplicationState,
        command_id: &str,
        now: u64,
        actor: &Actor,
        data: &CommandData,
        r: Result<Action, String>,
    ) -> bool {
        &&& (upsert_stock_error(actor.role, *data) matches Some(e) ==> (r matches Err(x) && x@ == e))
        &&& (r is Err ==> new_state == old_state)
        &&& (r matches Ok(a) ==> allowed(actor.role, a.permission@))
        &&& (upsert_stock_error(actor.role, *data) is None ==> (r matches Ok(a)
                && data matches CommandData::UpsertStock(input) && {
                let reference = normalized_identifier(input.reference@);
                &&& new_state == ApplicationState {
                    stock_items: new_state.stock_items,
                    ..old_state
                }
                &&& match first_index(old_state.stock_items@, reference_is(reference)) {
                    Some(i) => {
                        let before = old_state.stock_items@[i];
                        let after = new_state.stock_items@[i];
                        &&& new_state.stock_items@ == old_state.stock_items@.update(i, after)
                        &&& after == StockItem {
                            minimum_quantity: input.minimum_quantity,
                            manufacturer: after.manufacturer,
                            location: after.location,
                            updated_at_ms: now,
                            ..before
                        }
                        &&& opt_view(after.manufacturer) == clean_spec(opt_view(input.manufacturer))
                        &&& opt_view(after.location) == clean_spec(opt_view(input.location))
                        &&& action_is(
                            a,
                            "stock.add_or_increment"@,
                            "stock_item"@,
                            before.id@,
                            Some(AuditRecord::Stock(before)),
                            Some(AuditRecord::Stock(after)),
                            "Stock item updated"@,
                        )
                    },
                    None => {
                        let item = new_state.stock_items@.last();
                        &&& new_state.stock_items@ == old_state.stock_items@.push(item)
                        &&& item.id@ == "stock-"@ + command_id@
                        &&& item.reference@ == reference
                        &&& item.reference_normalized@ == reference
                        &&& item.quantity == 0
                        &&& item.minimum_quantity == input.minimum_quantity
                        &&& opt_view(item.manufacturer) == clean_spec(opt_view(input.manufacturer))
                        &&& opt_view(item.location) == clean_spec(opt_view(input.location))
                        &&& item.created_at_ms == now
                        &&& item.updated_at_ms == now
                        &&& action_is(
                            a,
                            "stock.add_or_increment"@,
                            "stock_item"@,
                            item.id@,
                            None,
                            Some(AuditRecord::Stock(item)),
                            "Stock item created"@,
                        )
                    },
                }
            }))
    }

    /// Creates a stock item for a new reference, or updates the minimum, manufacturer and
    /// location of the item that has it; the quantity only changes by adjustments.
    pub fn upsert_stock_item(&mut self, command_id: &str, now: u64, actor: &Actor, data: &CommandData)
        -> (r: Result<Action, String>)
        ensures
            Self::upsert_stock_item_outcome(*old(self), *final(self), command_id, now, actor, data, r),
    {
        require_permission(actor.role, "stock.add_or_increment")?;
        let input = match data {
            CommandData::UpsertStock(input) => input,
            _ => return Err(invalid_data()),
        };
        let reference = normalize_reference(input.reference.as_str());
        require_text(reference.as_str(), "reference_required")?;
        if let Some(i) = position_of_reference(&self.stock_items, reference.as_str()) {
            let before = self.stock_items[i].duplicate();
            let mut item = self.stock_items[i].duplicate();
            item.minimum_quantity = input.minimum_quantity;
            item.manufacturer = clean_optional(copy_text(&input.manufacturer));
            item.location = clean_optional(copy_text(&input.location));
            item.updated_at_ms = now;
            let after = item.duplicate();
            let id = item.id.clone();
            self.stock_items.set(i, item);
            return Ok(
                action(
                    "stock.add_or_increment",
                    "stock_item",
                    id,
                    Some(AuditRecord::Stock(before)),
                    Some(AuditRecord::Stock(after)),
                    "Stock item updated",
                ),
            );
        }
        let id = concat2("stock-", command_id);
        let item = StockItem {
            id: id.clone(),
            reference: reference.clone(),
            reference_normalized: reference,
            quantity: 0,
            minimum_quantity: input.minimum_quantity,
            manufacturer: clean_optional(copy_text(&input.manufacturer)),
            location: clean_optional(copy_text(&input.location)),
            created_at_ms: now,
            updated_at_ms: now,
        };
        let after = item.duplicate();
        self.stock_items.push(item);
        Ok(
            action(
                "stock.add_or_increment",
                "stock_item",
                id,
                None,
                Some(AuditRecord::Stock(after)),
                "Stock item created",
            ),
        )
    }

    /// What `delete_stock_item` gives: the state `new_state` it leaves and its result `r`, from
    /// the state `old_state`.
    pub open spec fn delete_stock_item_outcome(
        old_state: ApplicationState,
        new_state: ApplicationState,
        actor: &Actor,
        data: &CommandData,
        r: Result<Action, String>,
    ) -> bool {
        &&& (delete_stock_error(old_state.stock_items@, actor.role, *data) matches Some(e) ==> (r matches Err(
                x,
            ) && x@ == e))
        &&& (r is Err ==> new_state == old_state)
        &&& (r matches Ok(a) ==> allowed(actor.role, a.permission@))
        &&& (delete_stock_error(old_state.stock_items@, actor.role, *data) is None ==> (r matches Ok(a)
                && data matches CommandData::ById(input) && {
                let i = index_of_id(old_state.stock_items@, input.id@)->0;
                let removed = old_state.stock_items@[i];
                &&& new_state == ApplicationState {
                    stock_items: new_state.stock_items,
                    ..old_state
                }
                &&& new_state.stock_items@ == old_state.stock_items@.remove(i)
                &&& action_is(
                    a,
                    "stock.delete"@,
                    "stock_item"@,
                    removed.id@,
                    Some(AuditRecord::Stock(removed)),
                    None,
                    "Stock item deleted"@,
                )
            }))
    }

    /// Deletes a stock item whose quantity is zero.
    pub fn delete_stock_item(&mut self, actor: &Actor, data: &CommandData) -> (r: Result<
        Action,
        String,
    >)
        ensures
            Self::delete_stock_item_outcome(*old(self), *final(self), actor, data, r),
    {
        require_permission(actor.role, "stock.delete")?;
        let input = match data {
            CommandData::ById(input) => input,
            _ => return Err(invalid_data()),
        };
        let i = match position_of_id(&self.stock_items, input.id.as_str()) {
            Some(i) => i,
            None => return Err(owned("stock_item_not_found")),
        };
        if self.stock_items[i].quantity > 0 {
            return Err(owned("stock_item_not_empty"));
        }
        let item = self.stock_items.remove(i);
        let id = item.id.clone();
        Ok(
            action(
                "stock.delete",
                "stock_item",
                id,
                Some(AuditRecord::Stock(item)),
                None,
                "Stock item deleted",
            ),
        )
    }
}


/// Reviewing decides a pending restock request once: a review succeeds only on a request
/// that is still pending, gives it the final status asked for, and leaves the other
/// requests as they were; an approved or rejected request stays as it is.
pub proof fn lemma_review_decides_pending_requests_once(
    old_state: ApplicationState,
    new_state: ApplicationState,
    now: u64,
    actor: Actor,
    data: CommandData,
    a: Action,
)
    requires
        ApplicationState::review_restock_request_outcome(old_state, new_state, now, &actor, &data, Ok::<Action, String>(a)),
    ensures
        data matches CommandData::ReviewRestockRequest(input) && index_of_id(old_state.restock_requests@, input.id@) matches Some(
            i,
        ) && {
            &&& 0 <= i < old_state.restock_requests@.len()
            &&& old_state.restock_requests@[i].status == RestockStatus::Pending
            &&& input.status != RestockStatus::Pending
            &&& new_state.restock_requests@.len() == old_state.restock_requests@.len()
            &&& new_state.restock_requests@[i].status == input.status
            &&& forall|k: int|
                0 <= k < old_state.restock_requests@.len() && k != i ==> new_state.restock_requests@[k]
                    == #[trigger] old_state.restock_requests@[k]
        },
{
    assert(review_restock_error(old_state.restock_requests@, actor.role, data) is None);
    if let CommandData::ReviewRestockRequest(input) = data {
        let p = crate::lookup::id_is::<RestockRequest>(input.id@);
        lemma_first_index(old_state.restock_requests@, p);
    }
}

} // verus!
