//! Service orders: creation with frozen item snapshots, start, task assignment,
//! deletion and completion.
use vstd::prelude::*;

use crate::commands::{CommandData, CreateServiceOrder};
use crate::copies::{DeepCopy};
use crate::lookup::{first_index, index_of_id, is_first, lemma_first_index, position_of_id};
use crate::model::{
    copy_text, AuditRecord, ComplexityLevel, ItemCategory, Machine, MachineItem, MachineSnapshot,
    PhotoAsset, ServiceOrder, ServiceOrderStatus, ServiceOrderTask, ServiceOrderTaskStatus,
    UserAccount,
};
use crate::permissions::{allowed, require_permission, Role};
use crate::policy::order_transition_allowed;
use crate::snapshots::{is_item_snapshot, item_snapshot};
use crate::state::{domain_action, event_is, invalid_data, require_text, Action, Actor, ApplicationState};
use crate::text::{
    blank, clean_optional, clean_spec, concat2, concat3, decimal_string, decimal_text,
    distinct_texts, has_duplicate_texts, is_blank, opt_view, owned, str_equal, trim, trimmed,
};

verus! {

/// The test "active account with identifier `id`".
pub open spec fn active_user_is(id: Seq<char>) -> spec_fn(UserAccount) -> bool {
    |u: UserAccount| u.id@ == id && u.active
}

/// Why `operator_id` may not do work of level `required`, if they may not: there must be
/// an active account with that identifier whose repair level reaches `required`.
pub open spec fn operator_level_error(users: Seq<UserAccount>, operator_id: Seq<char>, required: int) -> Option<
    Seq<char>,
> {
    match first_index(users, active_user_is(operator_id)) {
        None => Some("operator_not_found_or_inactive"@),
        Some(i) => if users[i].maximum_repair_level.value() < required {
            Some("operator_repair_level_insufficient"@)
        } else {
            None
        },
    }
}

/// An actor may act for `operator_id` when it is themselves, or when they are an
/// administrator or supervisor.
pub open spec fn may_act_as(actor: Actor, operator_id: Seq<char>) -> bool {
    actor.id@ == operator_id || actor.role == Role::Admin || actor.role == Role::Chefe
}

/// The operator a command names, else the actor.
pub open spec fn operator_or_actor(operator_id: Option<String>, actor: Actor) -> Seq<char> {
    match operator_id {
        Some(o) => o@,
        None => actor.id@,
    }
}

/// The highest complexity among the tasks (zero for none).
pub open spec fn max_task_level(tasks: Seq<ServiceOrderTask>) -> int
    decreases tasks.len(),
{
    if tasks.len() == 0 {
        0
    } else {
        let rest = max_task_level(tasks.drop_last());
        let last = tasks.last().complexity_snapshot.value() as int;
        if last > rest {
            last
        } else {
            rest
        }
    }
}

/// The test "active machine with identifier `id`".
pub open spec fn active_machine_is(id: Seq<char>) -> spec_fn(Machine) -> bool {
    |m: Machine| m.id@ == id && m.active
}

/// The test "active item of machine `machine_id`".
pub open spec fn active_item_of(machine_id: Seq<char>) -> spec_fn(MachineItem) -> bool {
    |it: MachineItem| it.machine_id@ == machine_id && it.active
}

/// The test "active item `item_id` of machine `machine_id`".
pub open spec fn order_item_is(item_id: Seq<char>, machine_id: Seq<char>) -> spec_fn(MachineItem) -> bool {
    |it: MachineItem| it.id@ == item_id && it.machine_id@ == machine_id && it.active
}

/// The items an order covers: every active item of the machine, in order, or the ones
/// the input names.
pub open spec fn selected_items(items: Seq<MachineItem>, input: CreateServiceOrder) -> Seq<String> {
    if input.all_items {
        items.filter(active_item_of(input.machine_id@)).map_values(|it: MachineItem| it.id)
    } else {
        input.item_ids@
    }
}

/// Why the task for `item_id` cannot be planned, if it cannot.
pub open spec fn task_error(
    s: ApplicationState,
    machine_id: Seq<char>,
    item_id: Seq<char>,
    operator: Option<String>,
) -> Option<Seq<char>> {
    match first_index(s.machine_items@, order_item_is(item_id, machine_id)) {
        None => Some("machine_item_machine_mismatch"@),
        Some(k) => match index_of_id(s.item_categories@, s.machine_items@[k].category_id@) {
            None => Some("category_not_found"@),
            Some(c) => match operator {
                Some(op) => operator_level_error(
                    s.user_accounts@,
                    op@,
                    s.machine_items@[k].complexity_level.value() as int,
                ),
                None => None,
            },
        },
    }
}

/// Item `j` of the selection is the first whose task cannot be planned.
pub open spec fn first_failing_task(
    s: ApplicationState,
    input: CreateServiceOrder,
    selected: Seq<String>,
    j: int,
) -> bool {
    &&& 0 <= j < selected.len()
    &&& task_error(s, input.machine_id@, selected[j]@, input.assigned_operator_id) is Some
    &&& forall|m: int|
        0 <= m < j ==> task_error(
            s,
            input.machine_id@,
            (#[trigger] selected[m])@,
            input.assigned_operator_id,
        ) is None
}

/// Why creating a service order fails, if it does.
pub open spec fn create_order_error(s: ApplicationState, role: Role, data: CommandData) -> Option<
    Seq<char>,
> {
    if !allowed(role, "order.create"@) {
        Some("forbidden"@)
    } else {
        match data {
            CommandData::CreateServiceOrder(input) => {
                let selected = selected_items(s.machine_items@, input);
                if is_blank(input.description@) {
                    Some("description_required"@)
                } else if first_index(s.machines@, active_machine_is(input.machine_id@)) is None {
                    Some("machine_not_found"@)
                } else if selected.len() == 0 || !distinct_texts(selected) {
                    Some("service_order_items_required"@)
                } else if exists|j: int| first_failing_task(s, input, selected, j) {
                    task_error(
                        s,
                        input.machine_id@,
                        selected[choose|j: int| first_failing_task(s, input, selected, j)]@,
                        input.assigned_operator_id,
                    )
                } else {
                    None
                }
            },
            _ => Some("invalid_command_data"@),
        }
    }
}

/// Task `j` of order `command_id` for the selected item, planned with a frozen snapshot.
pub open spec fn is_planned_task(
    task: ServiceOrderTask,
    s: ApplicationState,
    input: CreateServiceOrder,
    command_id: Seq<char>,
    item_id: Seq<char>,
    j: int,
) -> bool {
    let k = first_index(s.machine_items@, order_item_is(item_id, input.machine_id@))->0;
    let item = s.machine_items@[k];
    let category = s.item_categories@[index_of_id(s.item_categories@, item.category_id@)->0];
    &&& task.id@ == "task-"@ + command_id + "-"@ + decimal_text(j as nat)
    &&& task.machine_item_id == item.id
    &&& is_item_snapshot(task.item_snapshot, item, category, s.photos@)
    &&& task.complexity_snapshot == item.complexity_level
    &&& task.assigned_operator_id == input.assigned_operator_id
    &&& task.status == ServiceOrderTaskStatus::Pending
    &&& task.started_at_ms is None
    &&& task.completed_at_ms is None
    &&& task.inspection_id is None
}

/// `order` is the new pending order of the input, with one planned task per selected
/// item.
pub open spec fn is_new_order(
    order: ServiceOrder,
    s: ApplicationState,
    input: CreateServiceOrder,
    command_id: Seq<char>,
    actor: Actor,
    now: u64,
) -> bool {
    let machine = s.machines@[first_index(s.machines@, active_machine_is(input.machine_id@))->0];
    let selected = selected_items(s.machine_items@, input);
    &&& order.id@ == "order-"@ + command_id
    &&& order.machine_id == machine.id
    &&& order.machine_snapshot == MachineSnapshot {
        id: machine.id,
        code: machine.code,
        name: machine.name,
        zone: machine.zone,
        location: machine.location,
    }
    &&& order.description@ == trim(input.description@)
    &&& order.priority == input.priority
    &&& order.status == ServiceOrderStatus::Pending
    &&& order.created_by == actor.name
    &&& opt_view(order.scheduled_for) == clean_spec(opt_view(input.scheduled_for))
    &&& order.tasks@.len() == selected.len()
    &&& forall|j: int|
        0 <= j < selected.len() ==> is_planned_task(
            #[trigger] order.tasks@[j],
            s,
            input,
            command_id,
            selected[j]@,
            j,
        )
    &&& order.created_at_ms == now
    &&& order.started_at_ms is None
    &&& order.completed_at_ms is None
    &&& order.updated_at_ms == now
}

/// Why starting an order fails, if it does.
pub open spec fn start_order_error(s: ApplicationState, actor: Actor, data: CommandData) -> Option<
    Seq<char>,
> {
    if !allowed(actor.role, "inspection.execute"@) {
        Some("forbidden"@)
    } else {
        match data {
            CommandData::OrderOperator(input) => match index_of_id(s.service_orders@, input.id@) {
                None => Some("order_not_found"@),
                Some(i) => {
                    let order = s.service_orders@[i];
                    let operator = operator_or_actor(input.operator_id, actor);
                    if order.tasks@.len() == 0 {
                        Some("service_order_items_required"@)
                    } else if !may_act_as(actor, operator) {
                        Some("operator_identity_mismatch"@)
                    } else if operator_level_error(
                        s.user_accounts@,
                        operator,
                        max_task_level(order.tasks@),
                    ) is Some {
                        operator_level_error(s.user_accounts@, operator, max_task_level(order.tasks@))
                    } else if order.status != ServiceOrderStatus::Pending {
                        Some("service_order_not_pending"@)
                    } else {
                        None
                    }
                },
            },
            _ => Some("invalid_command_data"@),
        }
    }
}

/// Why assigning a task fails, if it does.
pub open spec fn assign_task_error(s: ApplicationState, role: Role, data: CommandData) -> Option<
    Seq<char>,
> {
    if !allowed(role, "order.manage"@) {
        Some("forbidden"@)
    } else {
        match data {
            CommandData::AssignOrderTask(input) => match index_of_id(
                s.service_orders@,
                input.order_id@,
            ) {
                None => Some("order_not_found"@),
                Some(i) => match index_of_id(s.service_orders@[i].tasks@, input.task_id@) {
                    None => Some("service_order_task_not_found"@),
                    Some(t) => {
                        let task = s.service_orders@[i].tasks@[t];
                        if operator_level_error(
                            s.user_accounts@,
                            input.operator_id@,
                            task.complexity_snapshot.value() as int,
                        ) is Some {
                            operator_level_error(
                                s.user_accounts@,
                                input.operator_id@,
                                task.complexity_snapshot.value() as int,
                            )
                        } else if task.status != ServiceOrderTaskStatus::Pending {
                            Some("service_order_task_already_started"@)
                        } else {
                            None
                        }
                    },
                },
            },
            _ => Some("invalid_command_data"@),
        }
    }
}

/// Why deleting an order fails, if it does.
pub open spec fn delete_order_error(s: ApplicationState, role: Role, data: CommandData) -> Option<
    Seq<char>,
> {
    if !allowed(role, "order.delete"@) {
        Some("forbidden"@)
    } else {
        match data {
            CommandData::ById(input) => match index_of_id(s.service_orders@, input.id@) {
                None => Some("order_not_found"@),
                Some(i) => if s.service_orders@[i].status != ServiceOrderStatus::Pending {
                    Some("started_order_cannot_be_deleted"@)
                } else {
                    None
                },
            },
            _ => Some("invalid_command_data"@),
        }
    }
}

/// Every task of the order is completed.
pub open spec fn all_tasks_completed(tasks: Seq<ServiceOrderTask>) -> bool {
    forall|k: int| 0 <= k < tasks.len() ==> (#[trigger] tasks[k]).status == ServiceOrderTaskStatus::Completed
}

/// Why completing an order fails, if it does; the order and the operator are checked
/// before the permission.
pub open spec fn complete_order_error(s: ApplicationState, actor: Actor, data: CommandData) -> Option<
    Seq<char>,
> {
    match data {
        CommandData::OrderOperator(input) => match index_of_id(s.service_orders@, input.id@) {
            None => Some("order_not_found"@),
            Some(i) => {
                let order = s.service_orders@[i];
                if !may_act_as(actor, operator_or_actor(input.operator_id, actor)) {
                    Some("operator_identity_mismatch"@)
                } else if !allowed(actor.role, "inspection.execute"@) {
                    Some("forbidden"@)
                } else if order.status != ServiceOrderStatus::InProgress {
                    Some("service_order_not_in_progress"@)
                } else if !all_tasks_completed(order.tasks@) {
                    Some("service_order_has_pending_tasks"@)
                } else {
                    None
                }
            },
        },
        _ => Some("invalid_command_data"@),
    }
}

fn position_of_active_machine(machines: &Vec<Machine>, id: &str) -> (r: Option<usize>)
    ensures
        match r {
            Some(i) => first_index(machines@, active_machine_is(id@)) == Some(i as int),
            None => first_index(machines@, active_machine_is(id@)) is None,
        },
{
    let ghost p = active_machine_is(id@);
    let mut i: usize = 0;
    while i < machines.len()
        invariant
            i <= machines@.len(),
            p == active_machine_is(id@),
            forall|j: int| 0 <= j < i ==> !p(#[trigger] machines@[j]),
        decreases machines@.len() - i,
    {
        if machines[i].active && str_equal(machines[i].id.as_str(), id) {
            proof {
                assert(is_first(machines@, p, i as int));
                lemma_first_index(machines@, p);
            }
            return Some(i);
        }
        i += 1;
    }
    proof {
        lemma_first_index(machines@, p);
    }
    None
}

fn position_of_order_item(items: &Vec<MachineItem>, item_id: &str, machine_id: &str) -> (r: Option<
    usize,
>)
    ensures
        match r {
            Some(i) => first_index(items@, order_item_is(item_id@, machine_id@)) == Some(i as int),
            None => first_index(items@, order_item_is(item_id@, machine_id@)) is None,
        },
{
    let ghost p = order_item_is(item_id@, machine_id@);
    let mut i: usize = 0;
    while i < items.len()
        invariant
            i <= items@.len(),
            p == order_item_is(item_id@, machine_id@),
            forall|j: int| 0 <= j < i ==> !p(#[trigger] items@[j]),
        decreases items@.len() - i,
    {
        let it = &items[i];
        if it.active && str_equal(it.id.as_str(), item_id) && str_equal(
            it.machine_id.as_str(),
            machine_id,
        ) {
            proof {
                assert(is_first(items@, p, i as int));
                lemma_first_index(items@, p);
            }
            return Some(i);
        }
        i += 1;
    }
    proof {
        lemma_first_index(items@, p);
    }
    None
}

/// The identifiers of the active items of a machine, in order.
fn active_item_ids(items: &Vec<MachineItem>, machine_id: &str) -> (r: Vec<String>)
    ensures
        r@ == items@.filter(active_item_of(machine_id@)).map_values(|it: MachineItem| it.id),
{
    let ghost p = active_item_of(machine_id@);
    let mut out: Vec<String> = Vec::new();
    let mut i: usize = 0;
    while i < items.len()
        invariant
            i <= items@.len(),
            p == active_item_of(machine_id@),
            out@ == items@.take(i as int).filter(p).map_values(|it: MachineItem| it.id),
        decreases items@.len() - i,
    {
        let ghost before = items@.take(i as int).filter(p);
        proof {
            let t = items@.take(i + 1);
            assert(t.drop_last() == items@.take(i as int));
            assert(t.last() == items@[i as int]);
            reveal(Seq::filter);
        }
        if items[i].active && str_equal(items[i].machine_id.as_str(), machine_id) {
            out.push(items[i].id.clone());
            proof {
                assert(items@.take(i + 1).filter(p) == before.push(items@[i as int]));
                assert(out@ == items@.take(i + 1).filter(p).map_values(|it: MachineItem| it.id));
            }
        } else {
            proof {
                assert(items@.take(i + 1).filter(p) == before);
            }
        }
        i += 1;
    }
    assert(items@.take(items@.len() as int) == items@);
    out
}

fn position_of_active_user(users: &Vec<UserAccount>, id: &str) -> (r: Option<usize>)
    ensures
        match r {
            Some(i) => first_index(users@, active_user_is(id@)) == Some(i as int),
            None => first_index(users@, active_user_is(id@)) is None,
        },
{
    let ghost p = active_user_is(id@);
    let mut i: usize = 0;
    while i < users.len()
        invariant
            i <= users@.len(),
            p == active_user_is(id@),
            forall|j: int| 0 <= j < i ==> !p(#[trigger] users@[j]),
        decreases users@.len() - i,
    {
        if users[i].active && str_equal(users[i].id.as_str(), id) {
            proof {
                assert(is_first(users@, p, i as int));
                lemma_first_index(users@, p);
            }
            return Some(i);
        }
        i += 1;
    }
    proof {
        lemma_first_index(users@, p);
    }
    None
}

fn max_level_of(tasks: &Vec<ServiceOrderTask>) -> (r: u8)
    ensures
        r == max_task_level(tasks@),
{
    let mut best: u8 = 0;
    let mut i: usize = 0;
    while i < tasks.len()
        invariant
            i <= tasks@.len(),
            best == max_task_level(tasks@.take(i as int)),
        decreases tasks@.len() - i,
    {
        proof {
            assert(tasks@.take(i + 1).drop_last() == tasks@.take(i as int));
        }
        let level = tasks[i].complexity_snapshot.get();
        if level > best {
            best = level;
        }
        i += 1;
    }
    assert(tasks@.take(tasks@.len() as int) == tasks@);
    best
}

/// Checks that the actor may act for `operator_id`.
pub fn ensure_actor_may_act_as(actor: &Actor, operator_id: &str) -> (r: Result<(), String>)
    ensures
        r is Ok <==> may_act_as(*actor, operator_id@),
        r matches Err(e) ==> e@ == "operator_identity_mismatch"@,
{
    if str_equal(actor.id.as_str(), operator_id) || actor.role == Role::Admin || actor.role
        == Role::Chefe {
        Ok(())
    } else {
        Err(owned("operator_identity_mismatch"))
    }
}

impl ApplicationState {
    /// Checks that an active operator with that identifier reaches the required level.
    pub fn ensure_operator_level(&self, operator_id: &str, required: u8) -> (r: Result<usize, String>)
        ensures
            operator_level_error(self.user_accounts@, operator_id@, required as int) matches Some(e)
                ==> (r matches Err(x) && x@ == e),
            operator_level_error(self.user_accounts@, operator_id@, required as int) is None ==> r is Ok,
            r matches Ok(u) ==> u < self.user_accounts@.len() && first_index(
                self.user_accounts@,
                active_user_is(operator_id@),
            ) == Some(u as int),
    {
        let i = match position_of_active_user(&self.user_accounts, operator_id) {
            Some(i) => i,
            None => return Err(owned("operator_not_found_or_inactive")),
        };
        if self.user_accounts[i].maximum_repair_level.get() < required {
            return Err(owned("operator_repair_level_insufficient"));
        }
        Ok(i)
    }

    /// Finds a task of an order.
    pub fn find_task(&self, order_id: &str, task_id: &str) -> (r: Result<(usize, usize), String>)
        ensures
            index_of_id(self.service_orders@, order_id@) is None ==> (r matches Err(e) && e@
                == "order_not_found"@),
            index_of_id(self.service_orders@, order_id@) matches Some(i) ==> match index_of_id(
                self.service_orders@[i].tasks@,
                task_id@,
            ) {
                None => r matches Err(e) && e@ == "service_order_task_not_found"@,
                Some(t) => r == Ok::<(usize, usize), String>((i as usize, t as usize)),
            },
            r matches Ok((i, t)) ==> i < self.service_orders@.len() && t
                < self.service_orders@[i as int].tasks@.len() && index_of_id(
                self.service_orders@,
                order_id@,
            ) == Some(i as int) && index_of_id(self.service_orders@[i as int].tasks@, task_id@)
                == Some(t as int),
    {
        let i = match position_of_id(&self.service_orders, order_id) {
            Some(i) => i,
            None => return Err(owned("order_not_found")),
        };
        let t = match position_of_id(&self.service_orders[i].tasks, task_id) {
            Some(t) => t,
            None => return Err(owned("service_order_task_not_found")),
        };
        Ok((i, t))
    }
}

/// The first failing item is unique, so the error names exactly it.
proof fn lemma_first_failing_task(
    s: ApplicationState,
    input: CreateServiceOrder,
    selected: Seq<String>,
    j: int,
)
    requires
        first_failing_task(s, input, selected, j),
    ensures
        (choose|k: int| first_failing_task(s, input, selected, k)) == j,
{
    let k = choose|k: int| first_failing_task(s, input, selected, k);
    assert(first_failing_task(s, input, selected, k));
    if k < j {
        assert(task_error(s, input.machine_id@, selected[k]@, input.assigned_operator_id) is None);
    }
    if j < k {
        assert(task_error(s, input.machine_id@, selected[j]@, input.assigned_operator_id) is None);
    }
}

/// Whether some task is not completed.
fn has_open_task(tasks: &Vec<ServiceOrderTask>) -> (r: bool)
    ensures
        r == !all_tasks_completed(tasks@),
{
    let mut k: usize = 0;
    while k < tasks.len()
        invariant
            k <= tasks@.len(),
            forall|m: int| 0 <= m < k ==> (#[trigger] tasks@[m]).status == ServiceOrderTaskStatus::Completed,
        decreases tasks@.len() - k,
    {
        if tasks[k].status != ServiceOrderTaskStatus::Completed {
            return true;
        }
        k += 1;
    }
    false
}

impl ApplicationState {
    /// What `create_service_order` gives: the state `new_state` it leaves and its result `r`, from
    /// the state `old_state`.
    pub open spec fn create_service_order_outcome(
        old_state: ApplicationState,
        new_state: ApplicationState,
        command_id: &str,
        now: u64,
        actor: &Actor,
        data: &CommandData,
        r: Result<Action, String>,
    ) -> bool {
        &&& (create_order_error(old_state, actor.role, *data) matches Some(e) ==> (r matches Err(x)
                && x@ == e))
        &&& (r is Err ==> new_state == old_state)
        &&& (r matches Ok(a) ==> allowed(actor.role, a.permission@))
        &&& (create_order_error(old_state, actor.role, *data) is None ==> (r matches Ok(a)
                && data matches CommandData::CreateServiceOrder(input) && {
                let order = new_state.service_orders@.last();
                &&& new_state == ApplicationState {
                    service_orders: new_state.service_orders,
                    ..old_state
                }
                &&& new_state.service_orders@ == old_state.service_orders@.push(order)
                &&& is_new_order(order, old_state, *input, command_id@, *actor, now)
                &&& event_is(
                    a,
                    "order.create"@,
                    "service_order.created"@,
                    "service_order"@,
                    order.id@,
                    "Service order created with immutable item snapshots"@,
                )
                &&& a.before is None
                &&& a.after matches Some(AuditRecord::Order(o)) && order.same_as(&o)
            }))
    }

    /// A supervisor plans work on a machine: one pending task per selected active item,
    /// each with a frozen snapshot of the item, its category and its operational guide.
    #[verifier::loop_isolation(false)]
    pub fn create_service_order(
        &mut self,
        command_id: &str,
        now: u64,
        actor: &Actor,
        data: &CommandData,
    ) -> (r: Result<Action, String>)
        ensures
            Self::create_service_order_outcome(*old(self), *final(self), command_id, now, actor, data, r),
    {
        require_permission(actor.role, "order.create")?;
        let input = match data {
            CommandData::CreateServiceOrder(input) => input,
            _ => return Err(invalid_data()),
        };
        require_text(input.description.as_str(), "description_required")?;
        let m = match position_of_active_machine(&self.machines, input.machine_id.as_str()) {
            Some(m) => m,
            None => return Err(owned("machine_not_found")),
        };
        let selected: Vec<String> = if input.all_items {
            active_item_ids(&self.machine_items, input.machine_id.as_str())
        } else {
            input.item_ids.clone()
        };
        assert(selected@ == selected_items(self.machine_items@, *input));
        if selected.len() == 0 || has_duplicate_texts(&selected) {
            return Err(owned("service_order_items_required"));
        }
        let mut tasks: Vec<ServiceOrderTask> = Vec::new();
        let mut j: usize = 0;
        while j < selected.len()
            invariant
                j <= selected@.len(),
                tasks@.len() == j,
                forall|q: int|
                    0 <= q < j ==> task_error(
                        *self,
                        input.machine_id@,
                        (#[trigger] selected@[q])@,
                        input.assigned_operator_id,
                    ) is None,
                forall|q: int|
                    0 <= q < j ==> is_planned_task(
                        #[trigger] tasks@[q],
                        *self,
                        *input,
                        command_id@,
                        selected@[q]@,
                        q,
                    ),
            decreases selected@.len() - j,
        {
            let k = match position_of_order_item(
                &self.machine_items,
                selected[j].as_str(),
                input.machine_id.as_str(),
            ) {
                Some(k) => k,
                None => {
                    proof {
                        assert(first_failing_task(*self, *input, selected@, j as int));
                        lemma_first_failing_task(*self, *input, selected@, j as int);
                    }
                    return Err(owned("machine_item_machine_mismatch"));
                },
            };
            let item = &self.machine_items[k];
            let c = match position_of_id(&self.item_categories, item.category_id.as_str()) {
                Some(c) => c,
                None => {
                    proof {
                        assert(first_failing_task(*self, *input, selected@, j as int));
                        lemma_first_failing_task(*self, *input, selected@, j as int);
                    }
                    return Err(owned("category_not_found"));
                },
            };
            if let Some(op) = &input.assigned_operator_id {
                match self.ensure_operator_level(op.as_str(), item.complexity_level.get()) {
                    Ok(_) => {},
                    Err(e) => {
                        proof {
                            assert(first_failing_task(*self, *input, selected@, j as int));
                            lemma_first_failing_task(*self, *input, selected@, j as int);
                        }
                        return Err(e);
                    },
                }
            }
            let prefix = concat3("task-", command_id, "-");
            let index = decimal_string(j as u64);
            let task = ServiceOrderTask {
                id: concat2(prefix.as_str(), index.as_str()),
                machine_item_id: item.id.clone(),
                item_snapshot: item_snapshot(item, &self.item_categories[c], &self.photos),
                complexity_snapshot: item.complexity_level,
                assigned_operator_id: copy_text(&input.assigned_operator_id),
                status: ServiceOrderTaskStatus::Pending,
                started_at_ms: None,
                completed_at_ms: None,
                inspection_id: None,
            };
            tasks.push(task);
            j += 1;
        }
        proof {
            assert(!exists|q: int| first_failing_task(*self, *input, selected@, q));
        }
        let machine = &self.machines[m];
        let id = concat2("order-", command_id);
        let order = ServiceOrder {
            id: id.clone(),
            machine_id: machine.id.clone(),
            machine_snapshot: MachineSnapshot {
                id: machine.id.clone(),
                code: machine.code.clone(),
                name: machine.name.clone(),
                zone: machine.zone.clone(),
                location: copy_text(&machine.location),
            },
            description: trimmed(input.description.as_str()),
            priority: input.priority,
            status: ServiceOrderStatus::Pending,
            created_by: actor.name.clone(),
            scheduled_for: clean_optional(copy_text(&input.scheduled_for)),
            tasks,
            created_at_ms: now,
            started_at_ms: None,
            completed_at_ms: None,
            updated_at_ms: now,
        };
        let after = order.deep_copy();
        self.service_orders.push(order);
        Ok(
            domain_action(
                "order.create",
                "service_order.created",
                "service_order",
                id,
                None,
                Some(AuditRecord::Order(after)),
                "Service order created with immutable item snapshots",
            ),
        )
    }

    /// What `start_service_order` gives: the state `new_state` it leaves and its result `r`, from
    /// the state `old_state`.
    pub open spec fn start_service_order_outcome(
        old_state: ApplicationState,
        new_state: ApplicationState,
        now: u64,
        actor: &Actor,
        data: &CommandData,
        r: Result<Action, String>,
    ) -> bool {
        &&& (start_order_error(old_state, *actor, *data) matches Some(e) ==> (r matches Err(x) && x@
                == e))
        &&& (r is Err ==> new_state == old_state)
        &&& (r matches Ok(a) ==> allowed(actor.role, a.permission@))
        &&& (start_order_error(old_state, *actor, *data) is None ==> (r matches Ok(a)
                && data matches CommandData::OrderOperator(input) && {
                let i = index_of_id(old_state.service_orders@, input.id@)->0;
                let before = old_state.service_orders@[i];
                let after = ServiceOrder {
                    status: ServiceOrderStatus::InProgress,
                    started_at_ms: Some(now),
                    updated_at_ms: now,
                    ..before
                };
                &&& new_state == ApplicationState {
                    service_orders: new_state.service_orders,
                    ..old_state
                }
                &&& new_state.service_orders@ == old_state.service_orders@.update(i, after)
                &&& order_transition_allowed(before.status, after.status)
                &&& event_is(
                    a,
                    "inspection.execute"@,
                    "service_order.started"@,
                    "service_order"@,
                    input.id@,
                    "Service order started"@,
                )
                &&& a.before matches Some(AuditRecord::Order(b)) && before.same_as(&b)
                &&& a.after matches Some(AuditRecord::Order(x)) && after.same_as(&x)
            }))
    }

    /// Starts a pending order; the operator (the actor unless named) must be allowed to
    /// act and reach the highest complexity among its tasks.
    pub fn start_service_order(&mut self, now: u64, actor: &Actor, data: &CommandData) -> (r:
        Result<Action, String>)
        ensures
            Self::start_service_order_outcome(*old(self), *final(self), now, actor, data, r),
    {
        require_permission(actor.role, "inspection.execute")?;
        let input = match data {
            CommandData::OrderOperator(input) => input,
            _ => return Err(invalid_data()),
        };
        let i = match position_of_id(&self.service_orders, input.id.as_str()) {
            Some(i) => i,
            None => return Err(owned("order_not_found")),
        };
        if self.service_orders[i].tasks.len() == 0 {
            return Err(owned("service_order_items_required"));
        }
        let maximum = max_level_of(&self.service_orders[i].tasks);
        let operator: &str = match &input.operator_id {
            Some(o) => o.as_str(),
            None => actor.id.as_str(),
        };
        ensure_actor_may_act_as(actor, operator)?;
        self.ensure_operator_level(operator, maximum)?;
        if self.service_orders[i].status != ServiceOrderStatus::Pending {
            return Err(owned("service_order_not_pending"));
        }
        let before = self.service_orders[i].deep_copy();
        let ghost old_orders = self.service_orders@;
        let mut order = self.service_orders.remove(i);
        order.status = ServiceOrderStatus::InProgress;
        order.started_at_ms = Some(now);
        order.updated_at_ms = now;
        let after = order.deep_copy();
        self.service_orders.insert(i, order);
        assert(self.service_orders@ =~= old_orders.update(i as int, self.service_orders@[i as int]));
        Ok(
            domain_action(
                "inspection.execute",
                "service_order.started",
                "service_order",
                input.id.clone(),
                Some(AuditRecord::Order(before)),
                Some(AuditRecord::Order(after)),
                "Service order started",
            ),
        )
    }

    /// What `assign_order_task` gives: the state `new_state` it leaves and its result `r`, from
    /// the state `old_state`.
    pub open spec fn assign_order_task_outcome(
        old_state: ApplicationState,
        new_state: ApplicationState,
        now: u64,
        actor: &Actor,
        data: &CommandData,
        r: Result<Action, String>,
    ) -> bool {
        &&& (assign_task_error(old_state, actor.role, *data) matches Some(e) ==> (r matches Err(x)
                && x@ == e))
        &&& (r is Err ==> new_state == old_state)
        &&& (r matches Ok(a) ==> allowed(actor.role, a.permission@))
        &&& (assign_task_error(old_state, actor.role, *data) is None ==> (r matches Ok(a)
                && data matches CommandData::AssignOrderTask(input) && {
                let i = index_of_id(old_state.service_orders@, input.order_id@)->0;
                let order = old_state.service_orders@[i];
                let t = index_of_id(order.tasks@, input.task_id@)->0;
                let before = order.tasks@[t];
                let after = ServiceOrderTask {
                    assigned_operator_id: Some(input.operator_id),
                    ..before
                };
                let new_order = new_state.service_orders@[i];
                &&& new_state == ApplicationState {
                    service_orders: new_state.service_orders,
                    ..old_state
                }
                &&& new_state.service_orders@ == old_state.service_orders@.update(i, new_order)
                &&& new_order == ServiceOrder {
                    tasks: new_order.tasks,
                    updated_at_ms: now,
                    ..order
                }
                &&& new_order.tasks@ == order.tasks@.update(t, after)
                &&& event_is(
                    a,
                    "order.manage"@,
                    "service_order.updated"@,
                    "service_order_task"@,
                    input.task_id@,
                    "Service order task assigned"@,
                )
                &&& a.before matches Some(AuditRecord::Task(b)) && before.same_as(&b)
                &&& a.after matches Some(AuditRecord::Task(x)) && after.same_as(&x)
            }))
    }

    /// Assigns a pending task to an operator who reaches its complexity.
    pub fn assign_order_task(&mut self, now: u64, actor: &Actor, data: &CommandData) -> (r: Result<
        Action,
        String,
    >)
        ensures
            Self::assign_order_task_outcome(*old(self), *final(self), now, actor, data, r),
    {
        require_permission(actor.role, "order.manage")?;
        let input = match data {
            CommandData::AssignOrderTask(input) => input,
            _ => return Err(invalid_data()),
        };
        let found = self.find_task(input.order_id.as_str(), input.task_id.as_str());
        let (i, t) = match found {
            Ok(p) => p,
            Err(e) => return Err(e),
        };
        let required = self.service_orders[i].tasks[t].complexity_snapshot.get();
        self.ensure_operator_level(input.operator_id.as_str(), required)?;
        if self.service_orders[i].tasks[t].status != ServiceOrderTaskStatus::Pending {
            return Err(owned("service_order_task_already_started"));
        }
        let before = self.service_orders[i].tasks[t].deep_copy();
        let ghost old_orders = self.service_orders@;
        let mut order = self.service_orders.remove(i);
        let ghost old_tasks = order.tasks@;
        let mut task = order.tasks.remove(t);
        task.assigned_operator_id = Some(input.operator_id.clone());
        let after = task.deep_copy();
        order.tasks.insert(t, task);
        assert(order.tasks@ =~= old_tasks.update(t as int, order.tasks@[t as int]));
        order.updated_at_ms = now;
        self.service_orders.insert(i, order);
        assert(self.service_orders@ =~= old_orders.update(i as int, self.service_orders@[i as int]));
        Ok(
            domain_action(
                "order.manage",
                "service_order.updated",
                "service_order_task",
                input.task_id.clone(),
                Some(AuditRecord::Task(before)),
                Some(AuditRecord::Task(after)),
                "Service order task assigned",
            ),
        )
    }

    /// What `delete_service_order` gives: the state `new_state` it leaves and its result `r`, from
    /// the state `old_state`.
    pub open spec fn delete_service_order_outcome(
        old_state: ApplicationState,
        new_state: ApplicationState,
        actor: &Actor,
        data: &CommandData,
        r: Result<Action, String>,
    ) -> bool {
        &&& (delete_order_error(old_state, actor.role, *data) matches Some(e) ==> (r matches Err(x)
                && x@ == e))
        &&& (r is Err ==> new_state == old_state)
        &&& (r matches Ok(a) ==> allowed(actor.role, a.permission@))
        &&& (delete_order_error(old_state, actor.role, *data) is None ==> (r matches Ok(a)
                && data matches CommandData::ById(input) && {
                let i = index_of_id(old_state.service_orders@, input.id@)->0;
                let removed = old_state.service_orders@[i];
                &&& new_state == ApplicationState {
                    service_orders: new_state.service_orders,
                    ..old_state
                }
                &&& new_state.service_orders@ == old_state.service_orders@.remove(i)
                &&& event_is(
                    a,
                    "order.delete"@,
                    "service_order.deleted"@,
                    "service_order"@,
                    removed.id@,
                    "Service order deleted"@,
                )
                &&& a.before == Some(AuditRecord::Order(removed))
                &&& a.after is None
            }))
    }

    /// Deletes an order that has not started.
    pub fn delete_service_order(&mut self, actor: &Actor, data: &CommandData) -> (r: Result<
        Action,
        String,
    >)
        ensures
            Self::delete_service_order_outcome(*old(self), *final(self), actor, data, r),
    {
        require_permission(actor.role, "order.delete")?;
        let input = match data {
            CommandData::ById(input) => input,
            _ => return Err(invalid_data()),
        };
        let i = match position_of_id(&self.service_orders, input.id.as_str()) {
            Some(i) => i,
            None => return Err(owned("order_not_found")),
        };
        if self.service_orders[i].status != ServiceOrderStatus::Pending {
            return Err(owned("started_order_cannot_be_deleted"));
        }
        let order = self.service_orders.remove(i);
        let id = order.id.clone();
        Ok(
            domain_action(
                "order.delete",
                "service_order.deleted",
                "service_order",
                id,
                Some(AuditRecord::Order(order)),
                None,
                "Service order deleted",
            ),
        )
    }

    /// What `complete_service_order` gives: the state `new_state` it leaves and its result `r`, from
    /// the state `old_state`.
    pub open spec fn complete_service_order_outcome(
        old_state: ApplicationState,
        new_state: ApplicationState,
        now: u64,
        actor: &Actor,
        data: &CommandData,
        r: Result<Action, String>,
    ) -> bool {
        &&& (complete_order_error(old_state, *actor, *data) matches Some(e) ==> (r matches Err(x)
                && x@ == e))
        &&& (r is Err ==> new_state == old_state)
        &&& (r matches Ok(a) ==> allowed(actor.role, a.permission@))
        &&& (complete_order_error(old_state, *actor, *data) is None ==> (r matches Ok(a)
                && data matches CommandData::OrderOperator(input) && {
                let i = index_of_id(old_state.service_orders@, input.id@)->0;
                let before = old_state.service_orders@[i];
                let after = ServiceOrder {
                    status: ServiceOrderStatus::Completed,
                    completed_at_ms: Some(now),
                    updated_at_ms: now,
                    ..before
                };
                &&& new_state == ApplicationState {
                    service_orders: new_state.service_orders,
                    ..old_state
                }
                &&& new_state.service_orders@ == old_state.service_orders@.update(i, after)
                &&& order_transition_allowed(before.status, after.status)
                &&& event_is(
                    a,
                    "inspection.execute"@,
                    "service_order.completed"@,
                    "service_order"@,
                    input.id@,
                    "Service order completed"@,
                )
                &&& a.before matches Some(AuditRecord::Order(b)) && before.same_as(&b)
                &&& a.after matches Some(AuditRecord::Order(x)) && after.same_as(&x)
            }))
    }

    /// Completes an order in progress whose tasks are all completed. The order and the
    /// operator are checked before the permission.
    pub fn complete_service_order(&mut self, now: u64, actor: &Actor, data: &CommandData) -> (r:
        Result<Action, String>)
        ensures
            Self::complete_service_order_outcome(*old(self), *final(self), now, actor, data, r),
    {
        let input = match data {
            CommandData::OrderOperator(input) => input,
            _ => return Err(invalid_data()),
        };
        let i = match position_of_id(&self.service_orders, input.id.as_str()) {
            Some(i) => i,
            None => return Err(owned("order_not_found")),
        };
        let operator: &str = match &input.operator_id {
            Some(o) => o.as_str(),
            None => actor.id.as_str(),
        };
        ensure_actor_may_act_as(actor, operator)?;
        require_permission(actor.role, "inspection.execute")?;
        if self.service_orders[i].status != ServiceOrderStatus::InProgress {
            return Err(owned("service_order_not_in_progress"));
        }
        if has_open_task(&self.service_orders[i].tasks) {
            return Err(owned("service_order_has_pending_tasks"));
        }
        let before = self.service_orders[i].deep_copy();
        let ghost old_orders = self.service_orders@;
        let mut order = self.service_orders.remove(i);
        order.status = ServiceOrderStatus::Completed;
        order.completed_at_ms = Some(now);
        order.updated_at_ms = now;
        let after = order.deep_copy();
        self.service_orders.insert(i, order);
        assert(self.service_orders@ =~= old_orders.update(i as int, self.service_orders@[i as int]));
        Ok(
            domain_action(
                "inspection.execute",
                "service_order.completed",
                "service_order",
                input.id.clone(),
                Some(AuditRecord::Order(before)),
                Some(AuditRecord::Order(after)),
                "Service order completed",
            ),
        )
    }
}


/// An order is completed only when it is in progress and every one of its tasks is
/// completed; the order then becomes completed at that time, with its tasks unchanged.
pub proof fn lemma_completion_needs_every_task_done(
    old_state: ApplicationState,
    new_state: ApplicationState,
    now: u64,
    actor: Actor,
    data: CommandData,
    a: Action,
)
    requires
        ApplicationState::complete_service_order_outcome(old_state, new_state, now, &actor, &data, Ok::<Action, String>(a)),
    ensures
        data matches CommandData::OrderOperator(input) && index_of_id(old_state.service_orders@, input.id@) matches Some(
            i,
        ) && {
            let order = old_state.service_orders@[i];
            &&& 0 <= i < old_state.service_orders@.len()
            &&& order.status == ServiceOrderStatus::InProgress
            &&& forall|k: int|
                0 <= k < order.tasks@.len() ==> (#[trigger] order.tasks@[k]).status
                    == ServiceOrderTaskStatus::Completed
            &&& new_state.service_orders@.len() == old_state.service_orders@.len()
            &&& new_state.service_orders@[i].status == ServiceOrderStatus::Completed
            &&& new_state.service_orders@[i].tasks == order.tasks
            &&& new_state.service_orders@[i].completed_at_ms == Some(now)
        },
{
    assert(complete_order_error(old_state, actor, data) is None);
    if let CommandData::OrderOperator(input) = data {
        let p = crate::lookup::id_is::<ServiceOrder>(input.id@);
        lemma_first_index(old_state.service_orders@, p);
    }
}

} // verus!
