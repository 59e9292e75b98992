//! The application state and the command pipeline: replay of processed commands,
//! validation of the actor, dispatch, permission check and the audit trail.
use vstd::prelude::*;

use crate::commands::CommandData;
use crate::model::{
    AuditEvent, AuditRecord, ItemCategory, ItemInspection, Machine, MachineItem,
    MachineItemReplacement, PhotoAsset, RestockRequest, ServiceOrder, StockItem, StockMovement,
    Supplier, UserAccount,
};
use crate::permissions::{allowed, can, role_name, role_text, Role};
use crate::permissions::{
    ADD_MACHINE_ITEM, ADD_PHOTO, ADJUST_STOCK, ASSIGN_ORDER_TASK, COMPLETE_INSPECTION,
    COMPLETE_SERVICE_ORDER, CREATE_ITEM_CATEGORY, CREATE_MACHINE, CREATE_RESTOCK_REQUEST,
    CREATE_SERVICE_ORDER, CREATE_SUPPLIER, CREATE_USER, DELETE_PHOTO, DELETE_RESTOCK_REQUEST,
    DELETE_SERVICE_ORDER, DELETE_STOCK_ITEM, DELETE_SUPPLIER, REMOVE_MACHINE_ITEM,
    REORDER_MACHINE_ITEMS, REPLACE_MACHINE_ITEM, RESET_USER_CREDENTIALS, REVIEW_RESTOCK_REQUEST,
    START_INSPECTION, START_SERVICE_ORDER, UPDATE_ITEM_CATEGORY, UPDATE_MACHINE,
    UPDATE_MACHINE_ITEM, UPDATE_SUPPLIER, UPDATE_USER, UPSERT_STOCK_ITEM,
};
use crate::text::{append_str, blank, concat2, decimal_string, decimal_text, is_blank, owned, str_equal};

verus! {

/// The persisted layout this library writes.
pub const SCHEMA_VERSION: u32 = 2;

/// The person issuing a command.
#[derive(Debug, Clone)]
pub struct Actor {
    pub id: String,
    pub name: String,
    pub role: Role,
}

/// A command's envelope: who issues it and its decoded data.
#[derive(Debug, Clone)]
pub struct CommandPayload {
    pub actor: Actor,
    pub data: CommandData,
}

/// What an accepted command changed, and the event it raised.
#[derive(Debug, Clone)]
pub struct ExecutionReceipt {
    pub aggregate: String,
    pub aggregate_id: String,
    pub event_name: String,
    pub replayed: bool,
}

impl ExecutionReceipt {
    /// An equal copy.
    pub fn duplicate(&self) -> (r: Self)
        ensures
            r == *self,
    {
        ExecutionReceipt {
            aggregate: self.aggregate.clone(),
            aggregate_id: self.aggregate_id.clone(),
            event_name: self.event_name.clone(),
            replayed: self.replayed,
        }
    }
}

/// What a command handler decided: the permission it needed, its receipt, the audit
/// values before and after, and a description.
#[derive(Debug, Clone)]
pub struct Action {
    pub permission: &'static str,
    pub receipt: ExecutionReceipt,
    pub before: Option<AuditRecord>,
    pub after: Option<AuditRecord>,
    pub description: String,
}

/// Everything the application keeps.
#[derive(Debug, Clone)]
pub struct ApplicationState {
    pub schema_version: u32,
    pub item_categories: Vec<ItemCategory>,
    pub machines: Vec<Machine>,
    pub machine_items: Vec<MachineItem>,
    pub machine_item_replacements: Vec<MachineItemReplacement>,
    pub photos: Vec<PhotoAsset>,
    pub service_orders: Vec<ServiceOrder>,
    pub inspections: Vec<ItemInspection>,
    pub restock_requests: Vec<RestockRequest>,
    pub stock_items: Vec<StockItem>,
    pub stock_movements: Vec<StockMovement>,
    pub suppliers: Vec<Supplier>,
    pub user_accounts: Vec<UserAccount>,
    pub audit_events: Vec<AuditEvent>,
    pub processed_commands: Vec<(String, ExecutionReceipt)>,
}

impl Default for ApplicationState {
    fn default() -> (r: Self)
        ensures
            r.schema_version == SCHEMA_VERSION,
            r.item_categories@.len() == 0,
            r.machines@.len() == 0,
            r.machine_items@.len() == 0,
            r.machine_item_replacements@.len() == 0,
            r.photos@.len() == 0,
            r.service_orders@.len() == 0,
            r.inspections@.len() == 0,
            r.restock_requests@.len() == 0,
            r.stock_items@.len() == 0,
            r.stock_movements@.len() == 0,
            r.suppliers@.len() == 0,
            r.user_accounts@.len() == 0,
            r.audit_events@.len() == 0,
            r.processed_commands@.len() == 0,
    {
        ApplicationState {
            schema_version: SCHEMA_VERSION,
            item_categories: Vec::new(),
            machines: Vec::new(),
            machine_items: Vec::new(),
            machine_item_replacements: Vec::new(),
            photos: Vec::new(),
            service_orders: Vec::new(),
            inspections: Vec::new(),
            restock_requests: Vec::new(),
            stock_items: Vec::new(),
            stock_movements: Vec::new(),
            suppliers: Vec::new(),
            user_accounts: Vec::new(),
            audit_events: Vec::new(),
            processed_commands: Vec::new(),
        }
    }
}

/// The receipt stored under an idempotency key: the first entry with that key.
pub open spec fn receipt_for(s: Seq<(String, ExecutionReceipt)>, key: Seq<char>) -> Option<
    ExecutionReceipt,
>
    decreases s.len(),
{
    if s.len() == 0 {
        None
    } else {
        match receipt_for(s.drop_last(), key) {
            Some(r) => Some(r),
            None => if s.last().0@ == key {
                Some(s.last().1)
            } else {
                None
            },
        }
    }
}

/// Adding an entry under a new key makes it the stored receipt and keeps the others.
pub proof fn lemma_receipt_for_push(
    s: Seq<(String, ExecutionReceipt)>,
    entry: (String, ExecutionReceipt),
    key: Seq<char>,
)
    ensures
        receipt_for(s, key) is Some ==> receipt_for(s.push(entry), key) == receipt_for(s, key),
        receipt_for(s, key) is None && entry.0@ == key ==> receipt_for(s.push(entry), key) == Some(
            entry.1,
        ),
        receipt_for(s, key) is None && entry.0@ != key ==> receipt_for(s.push(entry), key) is None,
{
    assert(s.push(entry).drop_last() == s);
}

/// The event name of a plain change of an aggregate.
pub open spec fn changed_event(aggregate: Seq<char>) -> Seq<char> {
    aggregate + ".changed"@
}

/// An action raising `<aggregate>.changed`.
pub fn action(
    permission: &'static str,
    aggregate: &str,
    aggregate_id: String,
    before: Option<AuditRecord>,
    after: Option<AuditRecord>,
    description: &str,
) -> (r: Action)
    ensures
        r.permission == permission,
        r.receipt.aggregate@ == aggregate@,
        r.receipt.aggregate_id == aggregate_id,
        r.receipt.event_name@ == changed_event(aggregate@),
        !r.receipt.replayed,
        r.before == before,
        r.after == after,
        r.description@ == description@,
{
    let event = concat2(aggregate, ".changed");
    domain_action(permission, event.as_str(), aggregate, aggregate_id, before, after, description)
}

/// An action raising the named domain event.
pub fn domain_action(
    permission: &'static str,
    event_name: &str,
    aggregate: &str,
    aggregate_id: String,
    before: Option<AuditRecord>,
    after: Option<AuditRecord>,
    description: &str,
) -> (r: Action)
    ensures
        r.permission == permission,
        r.receipt.aggregate@ == aggregate@,
        r.receipt.aggregate_id == aggregate_id,
        r.receipt.event_name@ == event_name@,
        !r.receipt.replayed,
        r.before == before,
        r.after == after,
        r.description@ == description@,
{
    Action {
        permission,
        receipt: ExecutionReceipt {
            aggregate: owned(aggregate),
            aggregate_id,
            event_name: owned(event_name),
            replayed: false,
        },
        before,
        after,
        description: owned(description),
    }
}

/// `a` is the action of a plain change with these values.
pub open spec fn action_is(
    a: Action,
    permission: Seq<char>,
    aggregate: Seq<char>,
    aggregate_id: Seq<char>,
    before: Option<AuditRecord>,
    after: Option<AuditRecord>,
    description: Seq<char>,
) -> bool {
    &&& a.permission@ == permission
    &&& a.receipt.aggregate@ == aggregate
    &&& a.receipt.aggregate_id@ == aggregate_id
    &&& a.receipt.event_name@ == changed_event(aggregate)
    &&& !a.receipt.replayed
    &&& a.before == before
    &&& a.after == after
    &&& a.description@ == description
}

/// `a` is the action raising domain event `event` on an aggregate; what it records
/// before and after is stated apart.
pub open spec fn event_is(
    a: Action,
    permission: Seq<char>,
    event: Seq<char>,
    aggregate: Seq<char>,
    aggregate_id: Seq<char>,
    description: Seq<char>,
) -> bool {
    &&& a.permission@ == permission
    &&& a.receipt.aggregate@ == aggregate
    &&& a.receipt.aggregate_id@ == aggregate_id
    &&& a.receipt.event_name@ == event
    &&& !a.receipt.replayed
    &&& a.description@ == description
}

/// `Err(error)` when `value` is blank, else `Ok`.
pub fn require_text(value: &str, error: &str) -> (r: Result<(), String>)
    ensures
        r is Ok <==> !is_blank(value@),
        r matches Err(e) ==> e@ == error@,
{
    if blank(value) {
        Err(owned(error))
    } else {
        Ok(())
    }
}

/// The actor must have an id and a name.
pub fn validate_actor(actor: &Actor) -> (r: Result<(), String>)
    ensures
        r is Ok <==> !is_blank(actor.id@) && !is_blank(actor.name@),
        is_blank(actor.id@) ==> (r matches Err(e) && e@ == "actor_id_required"@),
        !is_blank(actor.id@) && is_blank(actor.name@) ==> (r matches Err(e) && e@
            == "actor_name_required"@),
{
    require_text(actor.id.as_str(), "actor_id_required")?;
    require_text(actor.name.as_str(), "actor_name_required")
}

/// The error of a command whose data does not fit it.
pub fn invalid_data() -> (r: String)
    ensures
        r@ == "invalid_command_data"@,
{
    owned("invalid_command_data")
}

/// The audit entry recorded for an accepted command.
pub open spec fn command_audit_ok(
    e: AuditEvent,
    command_name: Seq<char>,
    command_id: Seq<char>,
    actor: Actor,
    receipt: ExecutionReceipt,
    now: u64,
) -> bool {
    &&& e.id@ == "audit-"@ + command_id
    &&& e.actor@ == actor.name@
    &&& e.role@ == role_text(actor.role)
    &&& e.operation@ == command_name
    &&& e.aggregate@ == receipt.aggregate@
    &&& e.aggregate_id@ == receipt.aggregate_id@
    &&& e.trace_id matches Some(t) && t@ == command_id
    &&& e.result@ == "success"@
    &&& e.created_at_ms == now
}

/// What the handler of command `name` gives: the state `new_state` it leaves and its
/// result `r`, from the state `old_state`.
pub open spec fn command_outcome(
    name: Seq<char>,
    old_state: ApplicationState,
    new_state: ApplicationState,
    command_id: &str,
    idempotency_key: &str,
    now: u64,
    actor: &Actor,
    data: CommandData,
    r: Result<Action, String>,
) -> bool {
    if name == CREATE_ITEM_CATEGORY@ {
        ApplicationState::create_item_category_outcome(old_state, new_state, command_id, now, actor, data, r)
    } else if name == UPDATE_ITEM_CATEGORY@ {
        ApplicationState::update_item_category_outcome(old_state, new_state, now, actor, data, r)
    } else if name == CREATE_MACHINE@ {
        ApplicationState::create_machine_outcome(old_state, new_state, command_id, now, actor, &data, r)
    } else if name == UPDATE_MACHINE@ {
        ApplicationState::update_machine_outcome(old_state, new_state, now, actor, &data, r)
    } else if name == ADD_MACHINE_ITEM@ {
        ApplicationState::add_machine_item_outcome(old_state, new_state, command_id, now, actor, data, r)
    } else if name == UPDATE_MACHINE_ITEM@ {
        ApplicationState::update_machine_item_outcome(old_state, new_state, now, actor, data, r)
    } else if name == REORDER_MACHINE_ITEMS@ {
        ApplicationState::reorder_machine_items_outcome(old_state, new_state, now, actor, data, r)
    } else if name == REMOVE_MACHINE_ITEM@ {
        ApplicationState::remove_machine_item_outcome(old_state, new_state, now, actor, &data, r)
    } else if name == REPLACE_MACHINE_ITEM@ {
        ApplicationState::replace_machine_item_outcome(old_state, new_state, command_id, now, actor, data, r)
    } else if name == ADD_PHOTO@ {
        ApplicationState::add_photo_outcome(old_state, new_state, command_id, now, actor, &data, r)
    } else if name == DELETE_PHOTO@ {
        ApplicationState::delete_photo_outcome(old_state, new_state, actor, &data, r)
    } else if name == CREATE_SERVICE_ORDER@ {
        ApplicationState::create_service_order_outcome(old_state, new_state, command_id, now, actor, &data, r)
    } else if name == START_SERVICE_ORDER@ {
        ApplicationState::start_service_order_outcome(old_state, new_state, now, actor, &data, r)
    } else if name == ASSIGN_ORDER_TASK@ {
        ApplicationState::assign_order_task_outcome(old_state, new_state, now, actor, &data, r)
    } else if name == DELETE_SERVICE_ORDER@ {
        ApplicationState::delete_service_order_outcome(old_state, new_state, actor, &data, r)
    } else if name == COMPLETE_SERVICE_ORDER@ {
        ApplicationState::complete_service_order_outcome(old_state, new_state, now, actor, &data, r)
    } else if name == START_INSPECTION@ {
        ApplicationState::start_inspection_outcome(old_state, new_state, command_id, now, actor, &data, r)
    } else if name == COMPLETE_INSPECTION@ {
        ApplicationState::complete_inspection_outcome(old_state, new_state, now, actor, &data, r)
    } else if name == CREATE_RESTOCK_REQUEST@ {
        ApplicationState::create_restock_request_outcome(old_state, new_state, command_id, now, actor, &data, r)
    } else if name == REVIEW_RESTOCK_REQUEST@ {
        ApplicationState::review_restock_request_outcome(old_state, new_state, now, actor, &data, r)
    } else if name == DELETE_RESTOCK_REQUEST@ {
        ApplicationState::delete_restock_request_outcome(old_state, new_state, actor, &data, r)
    } else if name == ADJUST_STOCK@ {
        ApplicationState::adjust_stock_item_outcome(old_state, new_state, command_id, idempotency_key, now, actor, &data, r)
    } else if name == UPSERT_STOCK_ITEM@ {
        ApplicationState::upsert_stock_item_outcome(old_state, new_state, command_id, now, actor, &data, r)
    } else if name == DELETE_STOCK_ITEM@ {
        ApplicationState::delete_stock_item_outcome(old_state, new_state, actor, &data, r)
    } else if name == CREATE_SUPPLIER@ {
        ApplicationState::create_supplier_outcome(old_state, new_state, command_id, now, actor, &data, r)
    } else if name == UPDATE_SUPPLIER@ {
        ApplicationState::update_supplier_outcome(old_state, new_state, now, actor, &data, r)
    } else if name == DELETE_SUPPLIER@ {
        ApplicationState::delete_supplier_outcome(old_state, new_state, actor, &data, r)
    } else if name == CREATE_USER@ {
        ApplicationState::create_user_outcome(old_state, new_state, command_id, now, actor, &data, r)
    } else if name == UPDATE_USER@ {
        ApplicationState::update_user_outcome(old_state, new_state, now, actor, &data, r)
    } else if name == RESET_USER_CREDENTIALS@ {
        ApplicationState::reset_user_credentials_outcome(old_state, new_state, now, actor, &data, r)
    } else {
        false
    }
}

/// What executing a command gives: the state `new_state` it leaves and its result `r`,
/// from the state `old_state`. A key that was already processed replays its receipt and
/// changes nothing; otherwise the payload and the actor are checked, the command's
/// handler decides (see `command_outcome`), and an accepted command is audited and
/// remembered under its key. A rejected command changes nothing.
pub open spec fn execution_outcome(
    old_state: ApplicationState,
    new_state: ApplicationState,
    command_name: &str,
    command_id: &str,
    idempotency_key: &str,
    issued_at_ms: u64,
    payload: Option<CommandPayload>,
    r: Result<ExecutionReceipt, String>,
) -> bool {
    &&& (receipt_for(old_state.processed_commands@, idempotency_key@) matches Some(stored) ==> {
        &&& r == Ok::<ExecutionReceipt, String>(
            ExecutionReceipt { replayed: true, ..stored },
        )
        &&& new_state == old_state
    })
    &&& (r is Err ==> new_state == old_state)
    &&& (receipt_for(old_state.processed_commands@, idempotency_key@) is None && payload is None
        ==> (r matches Err(e) && e@ == "invalid_json_payload"@))
    &&& (receipt_for(old_state.processed_commands@, idempotency_key@) is None
        && (payload matches Some(p) && validate_actor_fails(p.actor)) ==> (r matches Err(e) && e@ == if is_blank(
        payload->0.actor.id@,
    ) {
        "actor_id_required"@
    } else {
        "actor_name_required"@
    }))
    &&& (receipt_for(old_state.processed_commands@, idempotency_key@) is None
        && (payload matches Some(p) && !validate_actor_fails(p.actor)) && !is_command_name(
        command_name@,
    ) ==> (r matches Err(e) && e@ == "unknown_command"@))
    &&& (receipt_for(old_state.processed_commands@, idempotency_key@) is None ==> (r matches Ok(
        receipt,
    ) ==> {
        &&& payload matches Some(p) && !validate_actor_fails(p.actor)
        &&& is_command_name(command_name@)
        &&& !receipt.replayed
        &&& new_state.schema_version == SCHEMA_VERSION
        &&& new_state.processed_commands@ == old_state.processed_commands@.push(
            (new_state.processed_commands@.last().0, receipt),
        )
        &&& new_state.processed_commands@.last().0@ == idempotency_key@
        &&& receipt_for(new_state.processed_commands@, idempotency_key@) == Some(receipt)
        &&& new_state.audit_events@.len() > old_state.audit_events@.len()
        &&& command_audit_ok(
            new_state.audit_events@.last(),
            command_name@,
            command_id@,
            payload->0.actor,
            receipt,
            issued_at_ms,
        )
    }))
    &&& (receipt_for(old_state.processed_commands@, idempotency_key@) is None && (payload matches Some(p)
        && !validate_actor_fails(p.actor)) && is_command_name(command_name@) ==> match r {
        Ok(receipt) => exists|mid: ApplicationState, a: Action|
            #[trigger] command_outcome(
                command_name@,
                old_state,
                mid,
                command_id,
                idempotency_key,
                issued_at_ms,
                &payload->0.actor,
                payload->0.data,
                Ok::<Action, String>(a),
            ) && receipt == a.receipt && new_state == (ApplicationState {
                schema_version: SCHEMA_VERSION,
                audit_events: new_state.audit_events,
                processed_commands: new_state.processed_commands,
                ..mid
            }) && new_state.audit_events@ == mid.audit_events@.push(new_state.audit_events@.last())
                && new_state.audit_events@.last().description == Some(a.description)
                && new_state.audit_events@.last().before_json == a.before
                && new_state.audit_events@.last().after_json == a.after
                && new_state.processed_commands@ == mid.processed_commands@.push(
                new_state.processed_commands@.last(),
            ),
        Err(e) => command_outcome(
            command_name@,
            old_state,
            old_state,
            command_id,
            idempotency_key,
            issued_at_ms,
            &payload->0.actor,
            payload->0.data,
            Err::<Action, String>(e),
        ),
    })
}

impl ApplicationState {
    fn find_processed(&self, key: &str) -> (r: Option<usize>)
        ensures
            match r {
                Some(i) => i < self.processed_commands@.len() && receipt_for(
                    self.processed_commands@,
                    key@,
                ) == Some(self.processed_commands@[i as int].1),
                None => receipt_for(self.processed_commands@, key@) is None,
            },
    {
        let mut i: usize = 0;
        while i < self.processed_commands.len()
            invariant
                i <= self.processed_commands@.len(),
                receipt_for(self.processed_commands@.take(i as int), key@) is None,
            decreases self.processed_commands@.len() - i,
        {
            let ghost s = self.processed_commands@;
            proof {
                lemma_receipt_for_push(s.take(i as int), s[i as int], key@);
                assert(s.take(i + 1) == s.take(i as int).push(s[i as int]));
            }
            if str_equal(self.processed_commands[i].0.as_str(), key) {
                proof {
                    lemma_receipt_for_prefix(s, i as int + 1, key@);
                }
                return Some(i);
            }
            i += 1;
        }
        assert(self.processed_commands@.take(i as int) == self.processed_commands@);
        None
    }

    /// Executes one command. A key that was already processed replays its receipt and
    /// changes nothing; otherwise the payload and the actor are checked, the command's
    /// handler decides, and an accepted command is audited and remembered under its key.
    /// A rejected command changes nothing.
    pub fn execute(
        &mut self,
        command_name: &str,
        command_id: &str,
        idempotency_key: &str,
        issued_at_ms: u64,
        payload: Option<CommandPayload>,
    ) -> (r: Result<ExecutionReceipt, String>)
        ensures
            execution_outcome(
                *old(self),
                *final(self),
                command_name,
                command_id,
                idempotency_key,
                issued_at_ms,
                payload,
                r,
            ),
    {
        if let Some(i) = self.find_processed(idempotency_key) {
            let stored = self.processed_commands[i].1.duplicate();
            return Ok(ExecutionReceipt { replayed: true, ..stored });
        }
        let payload = match payload {
            Some(p) => p,
            None => return Err(owned("invalid_json_payload")),
        };
        validate_actor(&payload.actor)?;
        let ghost data_view = payload.data;
        let CommandPayload { actor, data } = payload;
        let actor = &actor;
        let now = issued_at_ms;
        let name = command_name;
        let action = if str_equal(name, CREATE_ITEM_CATEGORY) {
            self.create_item_category(command_id, now, actor, data)?
        } else if str_equal(name, UPDATE_ITEM_CATEGORY) {
            self.update_item_category(now, actor, data)?
        } else if str_equal(name, CREATE_MACHINE) {
            self.create_machine(command_id, now, actor, &data)?
        } else if str_equal(name, UPDATE_MACHINE) {
            self.update_machine(now, actor, &data)?
        } else if str_equal(name, ADD_MACHINE_ITEM) {
            self.add_machine_item(command_id, now, actor, data)?
        } else if str_equal(name, UPDATE_MACHINE_ITEM) {
            self.update_machine_item(now, actor, data)?
        } else if str_equal(name, REORDER_MACHINE_ITEMS) {
            self.reorder_machine_items(now, actor, data)?
        } else if str_equal(name, REMOVE_MACHINE_ITEM) {
            self.remove_machine_item(now, actor, &data)?
        } else if str_equal(name, REPLACE_MACHINE_ITEM) {
            self.replace_machine_item(command_id, now, actor, data)?
        } else if str_equal(name, ADD_PHOTO) {
            self.add_photo(command_id, now, actor, &data)?
        } else if str_equal(name, DELETE_PHOTO) {
            self.delete_photo(actor, &data)?
        } else if str_equal(name, CREATE_SERVICE_ORDER) {
            self.create_service_order(command_id, now, actor, &data)?
        } else if str_equal(name, START_SERVICE_ORDER) {
            self.start_service_order(now, actor, &data)?
        } else if str_equal(name, ASSIGN_ORDER_TASK) {
            self.assign_order_task(now, actor, &data)?
        } else if str_equal(name, DELETE_SERVICE_ORDER) {
            self.delete_service_order(actor, &data)?
        } else if str_equal(name, COMPLETE_SERVICE_ORDER) {
            self.complete_service_order(now, actor, &data)?
        } else if str_equal(name, START_INSPECTION) {
            self.start_inspection(command_id, now, actor, &data)?
        } else if str_equal(name, COMPLETE_INSPECTION) {
            self.complete_inspection(now, actor, &data)?
        } else if str_equal(name, CREATE_RESTOCK_REQUEST) {
            self.create_restock_request(command_id, now, actor, &data)?
        } else if str_equal(name, REVIEW_RESTOCK_REQUEST) {
            self.review_restock_request(now, actor, &data)?
        } else if str_equal(name, DELETE_RESTOCK_REQUEST) {
            self.delete_restock_request(actor, &data)?
        } else if str_equal(name, ADJUST_STOCK) {
            self.adjust_stock_item(command_id, idempotency_key, now, actor, &data)?
        } else if str_equal(name, UPSERT_STOCK_ITEM) {
            self.upsert_stock_item(command_id, now, actor, &data)?
        } else if str_equal(name, DELETE_STOCK_ITEM) {
            self.delete_stock_item(actor, &data)?
        } else if str_equal(name, CREATE_SUPPLIER) {
            self.create_supplier(command_id, now, actor, &data)?
        } else if str_equal(name, UPDATE_SUPPLIER) {
            self.update_supplier(now, actor, &data)?
        } else if str_equal(name, DELETE_SUPPLIER) {
            self.delete_supplier(actor, &data)?
        } else if str_equal(name, CREATE_USER) {
            self.create_user(command_id, now, actor, &data)?
        } else if str_equal(name, UPDATE_USER) {
            self.update_user(now, actor, &data)?
        } else if str_equal(name, RESET_USER_CREDENTIALS) {
            self.reset_user_credentials(now, actor, &data)?
        } else {
            return Err(owned("unknown_command"));
        };
        let ghost mid = *self;
        let ghost done = action;
        assert(command_outcome(
            command_name@,
            *old(self),
            mid,
            command_id,
            idempotency_key,
            issued_at_ms,
            actor,
            data_view,
            Ok::<Action, String>(done),
        ));
        if !can(actor.role, action.permission) {
            return Err(owned("forbidden"));
        }
        let receipt = action.receipt;
        self.schema_version = SCHEMA_VERSION;
        let event = AuditEvent {
            id: concat2("audit-", command_id),
            actor: actor.name.clone(),
            role: owned(role_name(actor.role)),
            operation: owned(command_name),
            aggregate: receipt.aggregate.clone(),
            aggregate_id: receipt.aggregate_id.clone(),
            description: Some(action.description),
            trace_id: Some(owned(command_id)),
            before_json: action.before,
            after_json: action.after,
            result: owned("success"),
            created_at_ms: issued_at_ms,
        };
        self.audit_events.push(event);
        let stored = receipt.duplicate();
        let ghost old_processed = self.processed_commands@;
        let entry = (owned(idempotency_key), stored);
        proof {
            lemma_receipt_for_push(old_processed, entry, idempotency_key@);
        }
        self.processed_commands.push(entry);
        Ok(receipt)
    }
}

/// Extending a prefix that already holds the key does not change the stored receipt.
proof fn lemma_receipt_for_prefix(s: Seq<(String, ExecutionReceipt)>, n: int, key: Seq<char>)
    requires
        0 <= n <= s.len(),
        receipt_for(s.take(n), key) is Some,
    ensures
        receipt_for(s, key) == receipt_for(s.take(n), key),
    decreases s.len() - n,
{
    if n == s.len() {
        assert(s.take(n) == s);
    } else {
        lemma_receipt_for_push(s.take(n), s[n], key);
        assert(s.take(n + 1) == s.take(n).push(s[n]));
        lemma_receipt_for_prefix(s, n + 1, key);
    }
}

/// The extra audit entry a domain step records beside its command's own entry.
pub open spec fn supplemental_event_ok(
    e: AuditEvent,
    actor: Actor,
    now: u64,
    operation: Seq<char>,
    aggregate: Seq<char>,
    aggregate_id: Seq<char>,
    before: Option<AuditRecord>,
    after: Option<AuditRecord>,
    description: Seq<char>,
) -> bool {
    &&& e.id@ == "audit-domain-"@ + operation + "-"@ + aggregate_id + "-"@ + decimal_text(
        now as nat,
    )
    &&& e.actor@ == actor.name@
    &&& e.role@ == role_text(actor.role)
    &&& e.operation@ == operation
    &&& e.aggregate@ == aggregate
    &&& e.aggregate_id@ == aggregate_id
    &&& e.description matches Some(d) && d@ == description
    &&& e.trace_id is None
    &&& e.before_json == before
    &&& e.after_json == after
    &&& e.result@ == "success"@
    &&& e.created_at_ms == now
}

impl ApplicationState {
    /// Records a domain step of a command in the audit trail.
    pub fn push_supplemental_audit(
        &mut self,
        actor: &Actor,
        now: u64,
        operation: &str,
        aggregate: &str,
        aggregate_id: &str,
        before: Option<AuditRecord>,
        after: Option<AuditRecord>,
        description: &str,
    )
        ensures
            *final(self) == (ApplicationState { audit_events: final(self).audit_events, ..*old(self) }),
            final(self).audit_events@ == old(self).audit_events@.push(
                final(self).audit_events@.last(),
            ),
            supplemental_event_ok(
                final(self).audit_events@.last(),
                *actor,
                now,
                operation@,
                aggregate@,
                aggregate_id@,
                before,
                after,
                description@,
            ),
    {
        let mut id = owned("audit-domain-");
        append_str(&mut id, operation);
        append_str(&mut id, "-");
        append_str(&mut id, aggregate_id);
        append_str(&mut id, "-");
        let stamp = decimal_string(now);
        append_str(&mut id, stamp.as_str());
        self.audit_events.push(
            AuditEvent {
                id,
                actor: actor.name.clone(),
                role: owned(role_name(actor.role)),
                operation: owned(operation),
                aggregate: owned(aggregate),
                aggregate_id: owned(aggregate_id),
                description: Some(owned(description)),
                trace_id: None,
                before_json: before,
                after_json: after,
                result: owned("success"),
                created_at_ms: now,
            },
        );
    }
}

/// The actor lacks an id or a name.
pub open spec fn validate_actor_fails(actor: Actor) -> bool {
    is_blank(actor.id@) || is_blank(actor.name@)
}

/// The names of the commands this library executes.
pub open spec fn is_command_name(n: Seq<char>) -> bool {
    ||| n == CREATE_ITEM_CATEGORY@
    ||| n == UPDATE_ITEM_CATEGORY@
    ||| n == CREATE_MACHINE@
    ||| n == UPDATE_MACHINE@
    ||| n == ADD_MACHINE_ITEM@
    ||| n == UPDATE_MACHINE_ITEM@
    ||| n == REORDER_MACHINE_ITEMS@
    ||| n == REMOVE_MACHINE_ITEM@
    ||| n == REPLACE_MACHINE_ITEM@
    ||| n == ADD_PHOTO@
    ||| n == DELETE_PHOTO@
    ||| n == CREATE_SERVICE_ORDER@
    ||| n == START_SERVICE_ORDER@
    ||| n == ASSIGN_ORDER_TASK@
    ||| n == DELETE_SERVICE_ORDER@
    ||| n == COMPLETE_SERVICE_ORDER@
    ||| n == START_INSPECTION@
    ||| n == COMPLETE_INSPECTION@
    ||| n == CREATE_RESTOCK_REQUEST@
    ||| n == REVIEW_RESTOCK_REQUEST@
    ||| n == DELETE_RESTOCK_REQUEST@
    ||| n == ADJUST_STOCK@
    ||| n == UPSERT_STOCK_ITEM@
    ||| n == DELETE_STOCK_ITEM@
    ||| n == CREATE_SUPPLIER@
    ||| n == UPDATE_SUPPLIER@
    ||| n == DELETE_SUPPLIER@
    ||| n == CREATE_USER@
    ||| n == UPDATE_USER@
    ||| n == RESET_USER_CREDENTIALS@
}

impl ApplicationState {
    /// Handles a command as the service receives it: a command without an idempotency key
    /// is rejected and changes nothing; any other is executed under its key.
    pub fn handle_command(
        &mut self,
        command_name: &str,
        command_id: &str,
        idempotency_key: Option<&str>,
        issued_at_ms: u64,
        payload: Option<CommandPayload>,
    ) -> (r: Result<ExecutionReceipt, String>)
        ensures
            idempotency_key is None ==> (r matches Err(e) && e@ == "idempotency_key_required"@ && *final(self)
                == *old(self)),
            idempotency_key matches Some(k) ==> execution_outcome(
                *old(self),
                *final(self),
                command_name,
                command_id,
                k,
                issued_at_ms,
                payload,
                r,
            ),
    {
        match idempotency_key {
            None => Err(owned("idempotency_key_required")),
            Some(key) => self.execute(command_name, command_id, key, issued_at_ms, payload),
        }
    }
}

} // verus!
