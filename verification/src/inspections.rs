//! Guided inspections: the answers a guide accepts, and starting and completing an
//! inspection of one task of an order.
use vstd::prelude::*;

use crate::commands::{CommandData, CompleteInspection, StartInspection};
use crate::copies::{copy_texts, copy_vec, deep_copy_vec, same_seq, DeepCopy};
use crate::lookup::{first_index, index_of_id, is_first, lemma_first_index, position_of_id};
use crate::machines::refreshed_machines;
use crate::model::{
    copy_text, AuditRecord, FieldValue, GuideStepType, InspectionStatus, InspectionStepResult,
    ItemInspection, MachineItem, MaintenanceGuide, MaintenanceGuideStep, OperationalStatus, PhotoAsset,
    PhotoOwnerType, ServiceOrder, ServiceOrderStatus, ServiceOrderTask, ServiceOrderTaskStatus,
};
use crate::orders::{
    active_user_is, ensure_actor_may_act_as, may_act_as, operator_level_error, operator_or_actor,
};
use crate::permissions::{allowed, require_permission};
use crate::state::{
    domain_action, event_is, invalid_data, supplemental_event_ok, Action, Actor, ApplicationState,
};
use crate::text::{blank, clean_optional, clean_spec, concat2, is_blank, opt_view, owned, str_equal};

verus! {

/// The test "answers step `id`".
pub open spec fn result_is(id: Seq<char>) -> spec_fn(InspectionStepResult) -> bool {
    |r: InspectionStepResult| r.step_id@ == id
}

/// Whether the answer's value fits the kind of step.
pub open spec fn value_ok(step: MaintenanceGuideStep, result: InspectionStepResult) -> bool {
    match step.step_type {
        GuideStepType::Information | GuideStepType::Warning => true,
        GuideStepType::Confirmation | GuideStepType::Boolean => result.value is Bool,
        GuideStepType::Choice => match result.value {
            FieldValue::Text(selected) => exists|o: int|
                0 <= o < step.options@.len() && (#[trigger] step.options@[o])@ == selected@,
            _ => false,
        },
        GuideStepType::Numeric | GuideStepType::Measurement => result.value is Number,
        GuideStepType::Text => match result.value {
            FieldValue::Text(text) => !is_blank(text@),
            _ => false,
        },
        GuideStepType::Photo => result.photo_ids@.len() > 0,
    }
}

/// The unit a measurement step expects, if any.
pub open spec fn expected_unit(step: MaintenanceGuideStep) -> Option<Seq<char>> {
    match step.expected_value {
        Some(e) => opt_view(e.unit),
        None => None,
    }
}

/// A photo of this inspection has identifier `photo_id`.
pub open spec fn inspection_photo_ok(photos: Seq<PhotoAsset>, photo_id: Seq<char>, inspection_id: Seq<char>) -> bool {
    exists|p: int|
        0 <= p < photos.len() && (#[trigger] photos[p]).id@ == photo_id && photos[p].owner_type
            == PhotoOwnerType::Inspection && photos[p].owner_id@ == inspection_id
}

/// Why the answers fail one step of the guide, if they do.
pub open spec fn step_check(
    step: MaintenanceGuideStep,
    results: Seq<InspectionStepResult>,
    photos: Seq<PhotoAsset>,
    inspection_id: Seq<char>,
) -> Option<Seq<char>> {
    match first_index(results, result_is(step.id@)) {
        None => if step.required {
            Some("inspection_step_required:"@ + step.id@)
        } else {
            None
        },
        Some(k) => {
            let result = results[k];
            if !value_ok(step, result) {
                Some("inspection_step_value_invalid:"@ + step.id@)
            } else if step.step_type == GuideStepType::Measurement && expected_unit(step) != opt_view(
                result.unit,
            ) {
                Some("inspection_measurement_unit_invalid:"@ + step.id@)
            } else if !(forall|j: int|
                0 <= j < result.photo_ids@.len() ==> inspection_photo_ok(
                    photos,
                    (#[trigger] result.photo_ids@[j])@,
                    inspection_id,
                )) {
                Some("inspection_photo_invalid:"@ + step.id@)
            } else {
                None
            }
        },
    }
}

/// The test "the answers fail this step".
pub open spec fn step_fails(
    results: Seq<InspectionStepResult>,
    photos: Seq<PhotoAsset>,
    inspection_id: Seq<char>,
) -> spec_fn(MaintenanceGuideStep) -> bool {
    |step: MaintenanceGuideStep| step_check(step, results, photos, inspection_id) is Some
}

/// Two answers name the same step.
pub open spec fn results_repeat(results: Seq<InspectionStepResult>) -> bool {
    exists|a: int, b: int|
        0 <= a < b < results.len() && (#[trigger] results[a]).step_id@ == (
        #[trigger] results[b]).step_id@
}

/// Some answer names a step the guide does not have.
pub open spec fn result_unknown(guide: MaintenanceGuide, results: Seq<InspectionStepResult>) -> bool {
    exists|k: int|
        0 <= k < results.len() && !(exists|s: int|
            0 <= s < guide.steps@.len() && (#[trigger] guide.steps@[s]).id@ == (
            #[trigger] results[k]).step_id@)
}

/// Why the answers of an inspection are refused, if they are: a repeated step first, then
/// an unknown step, then the first step of the guide that the answers fail.
pub open spec fn step_results_error(
    guide: MaintenanceGuide,
    results: Seq<InspectionStepResult>,
    photos: Seq<PhotoAsset>,
    inspection_id: Seq<char>,
) -> Option<Seq<char>> {
    if results_repeat(results) {
        Some("inspection_step_result_duplicate"@)
    } else if result_unknown(guide, results) {
        Some("inspection_step_unknown"@)
    } else {
        match first_index(guide.steps@, step_fails(results, photos, inspection_id)) {
            Some(k) => step_check(guide.steps@[k], results, photos, inspection_id),
            None => None,
        }
    }
}

fn position_of_result(results: &Vec<InspectionStepResult>, id: &str) -> (r: Option<usize>)
    ensures
        match r {
            Some(i) => first_index(results@, result_is(id@)) == Some(i as int) && i < results@.len(),
            None => first_index(results@, result_is(id@)) is None,
        },
{
    let ghost p = result_is(id@);
    let mut i: usize = 0;
    while i < results.len()
        invariant
            i <= results@.len(),
            p == result_is(id@),
            forall|j: int| 0 <= j < i ==> !p(#[trigger] results@[j]),
        decreases results@.len() - i,
    {
        if str_equal(results[i].step_id.as_str(), id) {
            proof {
                assert(is_first(results@, p, i as int));
                lemma_first_index(results@, p);
            }
            return Some(i);
        }
        i += 1;
    }
    proof {
        lemma_first_index(results@, p);
    }
    None
}

fn option_matches(options: &Vec<String>, selected: &str) -> (r: bool)
    ensures
        r == exists|o: int| 0 <= o < options@.len() && (#[trigger] options@[o])@ == selected@,
{
    let mut o: usize = 0;
    while o < options.len()
        invariant
            o <= options@.len(),
            forall|q: int| 0 <= q < o ==> (#[trigger] options@[q])@ != selected@,
        decreases options@.len() - o,
    {
        if str_equal(options[o].as_str(), selected) {
            assert(options@[o as int]@ == selected@);
            return true;
        }
        o += 1;
    }
    false
}

fn check_value(step: &MaintenanceGuideStep, result: &InspectionStepResult) -> (r: bool)
    ensures
        r == value_ok(*step, *result),
{
    match step.step_type {
        GuideStepType::Information | GuideStepType::Warning => true,
        GuideStepType::Confirmation | GuideStepType::Boolean => match &result.value {
            FieldValue::Bool(_) => true,
            _ => false,
        },
        GuideStepType::Choice => match &result.value {
            FieldValue::Text(selected) => option_matches(&step.options, selected.as_str()),
            _ => false,
        },
        GuideStepType::Numeric | GuideStepType::Measurement => match &result.value {
            FieldValue::Number { .. } => true,
            _ => false,
        },
        GuideStepType::Text => match &result.value {
            FieldValue::Text(text) => !blank(text.as_str()),
            _ => false,
        },
        GuideStepType::Photo => result.photo_ids.len() > 0,
    }
}

fn same_optional_text(a: Option<&String>, b: &Option<String>) -> (r: bool)
    ensures
        r == ((match a {
            Some(x) => Some(x@),
            None => None,
        }) == opt_view(*b)),
{
    match (a, b) {
        (Some(x), Some(y)) => str_equal(x.as_str(), y.as_str()),
        (None, None) => true,
        _ => false,
    }
}

fn photo_of_inspection(photos: &Vec<PhotoAsset>, photo_id: &str, inspection_id: &str) -> (r: bool)
    ensures
        r == inspection_photo_ok(photos@, photo_id@, inspection_id@),
{
    let mut p: usize = 0;
    while p < photos.len()
        invariant
            p <= photos@.len(),
            forall|q: int|
                0 <= q < p ==> !((#[trigger] photos@[q]).id@ == photo_id@ && photos@[q].owner_type
                    == PhotoOwnerType::Inspection && photos@[q].owner_id@ == inspection_id@),
        decreases photos@.len() - p,
    {
        let photo = &photos[p];
        if str_equal(photo.id.as_str(), photo_id) && photo.owner_type == PhotoOwnerType::Inspection
            && str_equal(photo.owner_id.as_str(), inspection_id) {
            assert(photos@[p as int].id@ == photo_id@);
            return true;
        }
        p += 1;
    }
    false
}

#[verifier::loop_isolation(false)]
fn check_step(
    step: &MaintenanceGuideStep,
    results: &Vec<InspectionStepResult>,
    photos: &Vec<PhotoAsset>,
    inspection_id: &str,
) -> (r: Result<(), String>)
    ensures
        step_check(*step, results@, photos@, inspection_id@) matches Some(e) ==> (r matches Err(x)
            && x@ == e),
        step_check(*step, results@, photos@, inspection_id@) is None ==> r is Ok,
{
    let k = match position_of_result(results, step.id.as_str()) {
        Some(k) => k,
        None => {
            if step.required {
                return Err(concat2("inspection_step_required:", step.id.as_str()));
            }
            return Ok(());
        },
    };
    let result = &results[k];
    if !check_value(step, result) {
        return Err(concat2("inspection_step_value_invalid:", step.id.as_str()));
    }
    if step.step_type == GuideStepType::Measurement {
        let expected = match &step.expected_value {
            Some(e) => match &e.unit {
                Some(u) => Some(u),
                None => None,
            },
            None => None,
        };
        if !same_optional_text(expected, &result.unit) {
            return Err(concat2("inspection_measurement_unit_invalid:", step.id.as_str()));
        }
    }
    let mut j: usize = 0;
    while j < result.photo_ids.len()
        invariant
            j <= result.photo_ids@.len(),
            forall|q: int|
                0 <= q < j ==> inspection_photo_ok(
                    photos@,
                    (#[trigger] result.photo_ids@[q])@,
                    inspection_id@,
                ),
        decreases result.photo_ids@.len() - j,
    {
        if !photo_of_inspection(photos, result.photo_ids[j].as_str(), inspection_id) {
            assert(!inspection_photo_ok(photos@, result.photo_ids@[j as int]@, inspection_id@));
            return Err(concat2("inspection_photo_invalid:", step.id.as_str()));
        }
        j += 1;
    }
    Ok(())
}

/// Checks the answers of an inspection against its guide.
pub fn validate_step_results(
    guide: &MaintenanceGuide,
    results: &Vec<InspectionStepResult>,
    photos: &Vec<PhotoAsset>,
    inspection_id: &str,
) -> (r: Result<(), String>)
    ensures
        step_results_error(*guide, results@, photos@, inspection_id@) matches Some(e) ==> (r matches Err(
            x,
        ) && x@ == e),
        step_results_error(*guide, results@, photos@, inspection_id@) is None ==> r is Ok,
{
    let n = results.len();
    let mut a: usize = 0;
    while a < n
        invariant
            n == results@.len(),
            a <= n,
            forall|x: int, y: int|
                0 <= x < y < n && x < a ==> (#[trigger] results@[x]).step_id@ != (
                #[trigger] results@[y]).step_id@,
        decreases n - a,
    {
        let mut b: usize = a + 1;
        while b < n
            invariant
                n == results@.len(),
                a < n,
                a < b <= n,
                forall|x: int, y: int|
                    0 <= x < y < n && x < a ==> (#[trigger] results@[x]).step_id@ != (
                    #[trigger] results@[y]).step_id@,
                forall|y: int| a < y < b ==> results@[a as int].step_id@ != (#[trigger] results@[y]).step_id@,
            decreases n - b,
        {
            if str_equal(results[a].step_id.as_str(), results[b].step_id.as_str()) {
                assert(results@[a as int].step_id@ == results@[b as int].step_id@);
                return Err(owned("inspection_step_result_duplicate"));
            }
            b += 1;
        }
        a += 1;
    }
    let mut k: usize = 0;
    while k < n
        invariant
            n == results@.len(),
            k <= n,
            !results_repeat(results@),
            forall|q: int|
                0 <= q < k ==> exists|s: int|
                    0 <= s < guide.steps@.len() && (#[trigger] guide.steps@[s]).id@ == (
                    #[trigger] results@[q]).step_id@,
        decreases n - k,
    {
        let mut s: usize = 0;
        let mut found = false;
        while s < guide.steps.len()
            invariant
                k < n,
                n == results@.len(),
                s <= guide.steps@.len(),
                !found ==> forall|t: int| 0 <= t < s ==> (#[trigger] guide.steps@[t]).id@ != results@[k as int].step_id@,
                found ==> exists|t: int|
                    0 <= t < guide.steps@.len() && (#[trigger] guide.steps@[t]).id@ == results@[k as int].step_id@,
            decreases guide.steps@.len() - s,
        {
            if !found && str_equal(guide.steps[s].id.as_str(), results[k].step_id.as_str()) {
                found = true;
                assert(guide.steps@[s as int].id@ == results@[k as int].step_id@);
            }
            s += 1;
        }
        if !found {
            proof {
                assert(!(exists|t: int|
                    0 <= t < guide.steps@.len() && (#[trigger] guide.steps@[t]).id@ == results@[k as int].step_id@));
            }
            return Err(owned("inspection_step_unknown"));
        }
        k += 1;
    }
    let ghost p = step_fails(results@, photos@, inspection_id@);
    let mut s: usize = 0;
    while s < guide.steps.len()
        invariant
            s <= guide.steps@.len(),
            !results_repeat(results@),
            !result_unknown(*guide, results@),
            p == step_fails(results@, photos@, inspection_id@),
            forall|t: int| 0 <= t < s ==> !p(#[trigger] guide.steps@[t]),
        decreases guide.steps@.len() - s,
    {
        match check_step(&guide.steps[s], results, photos, inspection_id) {
            Ok(()) => {},
            Err(e) => {
                proof {
                    assert(is_first(guide.steps@, p, s as int));
                    lemma_first_index(guide.steps@, p);
                }
                return Err(e);
            },
        }
        s += 1;
    }
    proof {
        lemma_first_index(guide.steps@, p);
    }
    Ok(())
}

/// Why starting an inspection fails, if it does.
pub open spec fn start_inspection_error(s: ApplicationState, actor: Actor, data: CommandData) -> Option<
    Seq<char>,
> {
    if !allowed(actor.role, "inspection.execute"@) {
        Some("forbidden"@)
    } else {
        match data {
            CommandData::StartInspection(input) => match index_of_id(
                s.service_orders@,
                input.order_id@,
            ) {
                None => Some("order_not_found"@),
                Some(i) => match index_of_id(s.service_orders@[i].tasks@, input.task_id@) {
                    None => Some("service_order_task_not_found"@),
                    Some(t) => {
                        let order = s.service_orders@[i];
                        let task = order.tasks@[t];
                        let op = operator_or_actor(input.operator_id, actor);
                        let level = task.complexity_snapshot.value() as int;
                        if order.status != ServiceOrderStatus::InProgress {
                            Some("service_order_not_in_progress"@)
                        } else if !may_act_as(actor, op) {
                            Some("operator_identity_mismatch"@)
                        } else if operator_level_error(s.user_accounts@, op, level) is Some {
                            operator_level_error(s.user_accounts@, op, level)
                        } else if task.status != ServiceOrderTaskStatus::Pending {
                            Some("service_order_task_already_started"@)
                        } else if task.assigned_operator_id matches Some(a) && a@ != op {
                            Some("service_order_task_assigned_to_other_operator"@)
                        } else if index_of_id(s.machine_items@, task.machine_item_id@) is None {
                            Some("machine_item_not_found"@)
                        } else {
                            None
                        }
                    },
                },
            },
            _ => Some("invalid_command_data"@),
        }
    }
}

/// `insp` is the new inspection of `task` of `order` by `operator`.
pub open spec fn is_started_inspection(
    insp: ItemInspection,
    input: StartInspection,
    command_id: Seq<char>,
    order: ServiceOrder,
    task: ServiceOrderTask,
    operator_id: String,
    operator_name: String,
    status_before: OperationalStatus,
    now: u64,
) -> bool {
    &&& insp.id@ == "inspection-"@ + command_id
    &&& insp.service_order_task_id == Some(input.task_id)
    &&& insp.service_order_id == Some(input.order_id)
    &&& insp.machine_id == order.machine_id
    &&& insp.machine_item_id == task.machine_item_id
    &&& task.item_snapshot.category.same_as(&insp.category_snapshot)
    &&& insp.operator_id == operator_id
    &&& insp.operator_name == operator_name
    &&& insp.status == InspectionStatus::InProgress
    &&& insp.started_at_ms == now
    &&& insp.completed_at_ms is None
    &&& insp.status_before == status_before
    &&& insp.status_after is None
    &&& insp.step_results@.len() == 0
    &&& insp.findings@.len() == 0
    &&& insp.photo_ids@.len() == 0
    &&& insp.notes is None
    &&& insp.maintenance_action is None
}

/// Why completing an inspection fails, if it does.
pub open spec fn complete_inspection_error(s: ApplicationState, actor: Actor, data: CommandData) -> Option<
    Seq<char>,
> {
    if !allowed(actor.role, "inspection.execute"@) {
        Some("forbidden"@)
    } else {
        match data {
            CommandData::CompleteInspection(input) => match index_of_id(s.inspections@, input.id@) {
                None => Some("inspection_not_found"@),
                Some(j) => {
                    let insp = s.inspections@[j];
                    let checked = step_results_error(
                        insp.category_snapshot.maintenance_guide,
                        input.step_results@,
                        s.photos@,
                        input.id@,
                    );
                    if insp.status != InspectionStatus::InProgress {
                        Some("inspection_already_completed"@)
                    } else if !may_act_as(actor, insp.operator_id@) {
                        Some("operator_identity_mismatch"@)
                    } else if checked is Some {
                        checked
                    } else {
                        match (insp.service_order_id, insp.service_order_task_id) {
                            (None, _) => Some("inspection_order_missing"@),
                            (Some(_), None) => Some("inspection_task_missing"@),
                            (Some(order_id), Some(task_id)) => match index_of_id(
                                s.service_orders@,
                                order_id@,
                            ) {
                                None => Some("order_not_found"@),
                                Some(i) => if index_of_id(
                                    s.service_orders@[i].tasks@,
                                    task_id@,
                                ) is None {
                                    Some("service_order_task_not_found"@)
                                } else if index_of_id(s.machine_items@, insp.machine_item_id@) is None {
                                    Some("machine_item_not_found"@)
                                } else {
                                    None
                                },
                            },
                        }
                    }
                },
            },
            _ => Some("invalid_command_data"@),
        }
    }
}

/// `after` is `before` completed with the answers of `input`.
pub open spec fn is_completed_inspection(
    after: ItemInspection,
    before: ItemInspection,
    input: CompleteInspection,
    now: u64,
) -> bool {
    &&& after == ItemInspection {
        status: InspectionStatus::Completed,
        completed_at_ms: Some(now),
        status_after: Some(input.status_after),
        step_results: after.step_results,
        findings: after.findings,
        photo_ids: after.photo_ids,
        notes: after.notes,
        maintenance_action: after.maintenance_action,
        ..before
    }
    &&& same_seq(input.step_results@, after.step_results@)
    &&& after.findings@ == input.findings@
    &&& after.photo_ids@ == input.photo_ids@
    &&& opt_view(after.notes) == clean_spec(opt_view(input.notes))
    &&& opt_view(after.maintenance_action) == clean_spec(opt_view(input.maintenance_action))
}

impl ApplicationState {
    /// What `start_inspection` gives: the state `new_state` it leaves and its result `r`, from
    /// the state `old_state`.
    pub open spec fn start_inspection_outcome(
        old_state: ApplicationState,
        new_state: ApplicationState,
        command_id: &str,
        now: u64,
        actor: &Actor,
        data: &CommandData,
        r: Result<Action, String>,
    ) -> bool {
        &&& (start_inspection_error(old_state, *actor, *data) matches Some(e) ==> (r matches Err(x)
                && x@ == e))
        &&& (r is Err ==> new_state == old_state)
        &&& (r matches Ok(a) ==> allowed(actor.role, a.permission@))
        &&& (start_inspection_error(old_state, *actor, *data) is None ==> (r matches Ok(a)
                && data matches CommandData::StartInspection(input) && {
                let i = index_of_id(old_state.service_orders@, input.order_id@)->0;
                let order = old_state.service_orders@[i];
                let t = index_of_id(order.tasks@, input.task_id@)->0;
                let task = order.tasks@[t];
                let op = operator_or_actor(input.operator_id, *actor);
                let operator = old_state.user_accounts@[first_index(
                    old_state.user_accounts@,
                    active_user_is(op),
                )->0];
                let k = index_of_id(old_state.machine_items@, task.machine_item_id@)->0;
                let item = old_state.machine_items@[k];
                let insp = new_state.inspections@.last();
                let new_task = ServiceOrderTask {
                    status: ServiceOrderTaskStatus::InProgress,
                    assigned_operator_id: Some(operator.id),
                    started_at_ms: Some(now),
                    inspection_id: Some(insp.id),
                    ..task
                };
                let new_order = new_state.service_orders@[i];
                let items = old_state.machine_items@.update(
                    k,
                    MachineItem {
                        status: OperationalStatus::UnderMaintenance,
                        updated_at_ms: now,
                        ..item
                    },
                );
                let ev = new_state.audit_events@.last();
                &&& new_state == ApplicationState {
                    inspections: new_state.inspections,
                    service_orders: new_state.service_orders,
                    machine_items: new_state.machine_items,
                    machines: new_state.machines,
                    audit_events: new_state.audit_events,
                    ..old_state
                }
                &&& new_state.inspections@ == old_state.inspections@.push(insp)
                &&& is_started_inspection(
                    insp,
                    *input,
                    command_id@,
                    order,
                    task,
                    operator.id,
                    operator.name,
                    item.status,
                    now,
                )
                &&& new_state.service_orders@ == old_state.service_orders@.update(i, new_order)
                &&& new_order == ServiceOrder { tasks: new_order.tasks, updated_at_ms: now, ..order }
                &&& new_order.tasks@ == order.tasks@.update(t, new_task)
                &&& new_state.machine_items@ == items
                &&& new_state.machines@ == refreshed_machines(
                    old_state.machines@,
                    items,
                    order.machine_id@,
                    now,
                )
                &&& new_state.audit_events@ == old_state.audit_events@.push(ev)
                &&& supplemental_event_ok(
                    ev,
                    *actor,
                    now,
                    "service_order_task.started"@,
                    "service_order_task"@,
                    input.task_id@,
                    None,
                    ev.after_json,
                    "Service order task started"@,
                )
                &&& ev.after_json matches Some(AuditRecord::Task(x)) && new_task.same_as(&x)
                &&& event_is(
                    a,
                    "inspection.execute"@,
                    "inspection.started"@,
                    "inspection"@,
                    insp.id@,
                    "Inspection started"@,
                )
                &&& a.before is None
                &&& a.after matches Some(AuditRecord::Inspection(x)) && insp.same_as(&x)
            }))
    }

    /// An operator starts the inspection of a pending task of an order in progress: the
    /// inspection freezes the task's category snapshot, the task moves to in progress and
    /// is assigned to the operator, the item goes under maintenance and the machine's
    /// status is derived again.
    pub fn start_inspection(&mut self, command_id: &str, now: u64, actor: &Actor, data: &CommandData)
        -> (r: Result<Action, String>)
        ensures
            Self::start_inspection_outcome(*old(self), *final(self), command_id, now, actor, data, r),
    {
        require_permission(actor.role, "inspection.execute")?;
        let input = match data {
            CommandData::StartInspection(input) => input,
            _ => return Err(invalid_data()),
        };
        let found = self.find_task(input.order_id.as_str(), input.task_id.as_str());
        let (i, t) = match found {
            Ok(p) => p,
            Err(e) => return Err(e),
        };
        if self.service_orders[i].status != ServiceOrderStatus::InProgress {
            return Err(owned("service_order_not_in_progress"));
        }
        let operator: &str = match &input.operator_id {
            Some(o) => o.as_str(),
            None => actor.id.as_str(),
        };
        ensure_actor_may_act_as(actor, operator)?;
        let level = self.service_orders[i].tasks[t].complexity_snapshot.get();
        let u = match self.ensure_operator_level(operator, level) {
            Ok(u) => u,
            Err(e) => return Err(e),
        };
        if self.service_orders[i].tasks[t].status != ServiceOrderTaskStatus::Pending {
            return Err(owned("service_order_task_already_started"));
        }
        if let Some(assigned) = &self.service_orders[i].tasks[t].assigned_operator_id {
            if !str_equal(assigned.as_str(), operator) {
                return Err(owned("service_order_task_assigned_to_other_operator"));
            }
        }
        let k = match position_of_id(
            &self.machine_items,
            self.service_orders[i].tasks[t].machine_item_id.as_str(),
        ) {
            Some(k) => k,
            None => return Err(owned("machine_item_not_found")),
        };
        let status_before = self.machine_items[k].status;
        let operator_id = self.user_accounts[u].id.clone();
        let operator_name = self.user_accounts[u].name.clone();
        let inspection_id = concat2("inspection-", command_id);
        let inspection = ItemInspection {
            id: inspection_id.clone(),
            service_order_task_id: Some(input.task_id.clone()),
            service_order_id: Some(input.order_id.clone()),
            machine_id: self.service_orders[i].machine_id.clone(),
            machine_item_id: self.service_orders[i].tasks[t].machine_item_id.clone(),
            category_snapshot: self.service_orders[i].tasks[t].item_snapshot.category.deep_copy(),
            operator_id: operator_id.clone(),
            operator_name,
            status: InspectionStatus::InProgress,
            started_at_ms: now,
            completed_at_ms: None,
            status_before,
            status_after: None,
            step_results: Vec::new(),
            findings: Vec::new(),
            photo_ids: Vec::new(),
            notes: None,
            maintenance_action: None,
        };
        let after = inspection.deep_copy();
        self.inspections.push(inspection);
        let ghost old_orders = self.service_orders@;
        let mut order = self.service_orders.remove(i);
        let ghost old_tasks = order.tasks@;
        let mut task = order.tasks.remove(t);
        task.status = ServiceOrderTaskStatus::InProgress;
        task.assigned_operator_id = Some(operator_id);
        task.started_at_ms = Some(now);
        task.inspection_id = Some(inspection_id.clone());
        let task_after = task.deep_copy();
        order.tasks.insert(t, task);
        assert(order.tasks@ =~= old_tasks.update(t as int, order.tasks@[t as int]));
        order.updated_at_ms = now;
        let machine_id = order.machine_id.clone();
        self.service_orders.insert(i, order);
        assert(self.service_orders@ =~= old_orders.update(i as int, self.service_orders@[i as int]));
        let ghost old_items = self.machine_items@;
        let mut item = self.machine_items.remove(k);
        item.status = OperationalStatus::UnderMaintenance;
        item.updated_at_ms = now;
        self.machine_items.insert(k, item);
        assert(self.machine_items@ =~= old_items.update(k as int, self.machine_items@[k as int]));
        self.refresh_machine_status(machine_id.as_str(), now);
        self.push_supplemental_audit(
            actor,
            now,
            "service_order_task.started",
            "service_order_task",
            input.task_id.as_str(),
            None,
            Some(AuditRecord::Task(task_after)),
            "Service order task started",
        );
        assert(self.inspections@ == old(self).inspections@.push(self.inspections@.last()));
        assert(self.service_orders@ == old(self).service_orders@.update(i as int, self.service_orders@[i as int]));
        assert(self.machine_items@ == old(self).machine_items@.update(k as int, self.machine_items@[k as int]));
        Ok(
            domain_action(
                "inspection.execute",
                "inspection.started",
                "inspection",
                inspection_id,
                None,
                Some(AuditRecord::Inspection(after)),
                "Inspection started",
            ),
        )
    }

    /// What `complete_inspection` gives: the state `new_state` it leaves and its result `r`, from
    /// the state `old_state`.
    pub open spec fn complete_inspection_outcome(
        old_state: ApplicationState,
        new_state: ApplicationState,
        now: u64,
        actor: &Actor,
        data: &CommandData,
        r: Result<Action, String>,
    ) -> bool {
        &&& (complete_inspection_error(old_state, *actor, *data) matches Some(e) ==> (r matches Err(x)
                && x@ == e))
        &&& (r is Err ==> new_state == old_state)
        &&& (r matches Ok(a) ==> allowed(actor.role, a.permission@))
        &&& (complete_inspection_error(old_state, *actor, *data) is None ==> (r matches Ok(a)
                && data matches CommandData::CompleteInspection(input) && {
                let j = index_of_id(old_state.inspections@, input.id@)->0;
                let before = old_state.inspections@[j];
                let after = new_state.inspections@[j];
                let i = index_of_id(old_state.service_orders@, before.service_order_id->0@)->0;
                let order = old_state.service_orders@[i];
                let t = index_of_id(order.tasks@, before.service_order_task_id->0@)->0;
                let task = order.tasks@[t];
                let new_task = ServiceOrderTask {
                    status: ServiceOrderTaskStatus::Completed,
                    completed_at_ms: Some(now),
                    ..task
                };
                let new_order = new_state.service_orders@[i];
                let k = index_of_id(old_state.machine_items@, before.machine_item_id@)->0;
                let item = old_state.machine_items@[k];
                let items = old_state.machine_items@.update(
                    k,
                    MachineItem { status: input.status_after, updated_at_ms: now, ..item },
                );
                let n = old_state.audit_events@.len() as int;
                let task_event = new_state.audit_events@[n];
                let status_event = new_state.audit_events@[n + 1int];
                &&& new_state == ApplicationState {
                    inspections: new_state.inspections,
                    service_orders: new_state.service_orders,
                    machine_items: new_state.machine_items,
                    machines: new_state.machines,
                    audit_events: new_state.audit_events,
                    ..old_state
                }
                &&& new_state.inspections@ == old_state.inspections@.update(j, after)
                &&& is_completed_inspection(after, before, *input, now)
                &&& new_state.service_orders@ == old_state.service_orders@.update(i, new_order)
                &&& new_order == ServiceOrder { tasks: new_order.tasks, updated_at_ms: now, ..order }
                &&& new_order.tasks@ == order.tasks@.update(t, new_task)
                &&& new_state.machine_items@ == items
                &&& new_state.machines@ == refreshed_machines(
                    old_state.machines@,
                    items,
                    before.machine_id@,
                    now,
                )
                &&& new_state.audit_events@ == old_state.audit_events@.push(task_event).push(
                    status_event,
                )
                &&& supplemental_event_ok(
                    task_event,
                    *actor,
                    now,
                    "service_order_task.completed"@,
                    "service_order_task"@,
                    task.id@,
                    None,
                    task_event.after_json,
                    "Service order task completed"@,
                )
                &&& task_event.after_json matches Some(AuditRecord::Task(x)) && new_task.same_as(&x)
                &&& supplemental_event_ok(
                    status_event,
                    *actor,
                    now,
                    "item.status_changed"@,
                    "machine_item"@,
                    before.machine_item_id@,
                    Some(AuditRecord::Status(item.status)),
                    Some(AuditRecord::Status(input.status_after)),
                    "Machine item status changed after inspection"@,
                )
                &&& event_is(
                    a,
                    "inspection.execute"@,
                    "inspection.completed"@,
                    "inspection"@,
                    input.id@,
                    "Inspection completed"@,
                )
                &&& a.before matches Some(AuditRecord::Inspection(x)) && before.same_as(&x)
                &&& a.after matches Some(AuditRecord::Inspection(x)) && after.same_as(&x)
            }))
    }

    /// The operator of an inspection in progress records its answers: they are checked
    /// against the frozen guide, the inspection completes, its task completes, the item
    /// takes the status found and the machine's status is derived again.
    pub fn complete_inspection(&mut self, now: u64, actor: &Actor, data: &CommandData) -> (r: Result<
        Action,
        String,
    >)
        ensures
            Self::complete_inspection_outcome(*old(self), *final(self), now, actor, data, r),
    {
        require_permission(actor.role, "inspection.execute")?;
        let input = match data {
            CommandData::CompleteInspection(input) => input,
            _ => return Err(invalid_data()),
        };
        let j = match position_of_id(&self.inspections, input.id.as_str()) {
            Some(j) => j,
            None => return Err(owned("inspection_not_found")),
        };
        if self.inspections[j].status != InspectionStatus::InProgress {
            return Err(owned("inspection_already_completed"));
        }
        ensure_actor_may_act_as(actor, self.inspections[j].operator_id.as_str())?;
        validate_step_results(
            &self.inspections[j].category_snapshot.maintenance_guide,
            &input.step_results,
            &self.photos,
            input.id.as_str(),
        )?;
        let order_id = match &self.inspections[j].service_order_id {
            Some(o) => o.clone(),
            None => return Err(owned("inspection_order_missing")),
        };
        let task_id = match &self.inspections[j].service_order_task_id {
            Some(t) => t.clone(),
            None => return Err(owned("inspection_task_missing")),
        };
        let found = self.find_task(order_id.as_str(), task_id.as_str());
        let (i, t) = match found {
            Ok(p) => p,
            Err(e) => return Err(e),
        };
        let k = match position_of_id(&self.machine_items, self.inspections[j].machine_item_id.as_str()) {
            Some(k) => k,
            None => return Err(owned("machine_item_not_found")),
        };
        let machine_id = self.inspections[j].machine_id.clone();
        let machine_item_id = self.inspections[j].machine_item_id.clone();
        let before = self.inspections[j].deep_copy();
        let ghost old_inspections = self.inspections@;
        let mut inspection = self.inspections.remove(j);
        inspection.status = InspectionStatus::Completed;
        inspection.completed_at_ms = Some(now);
        inspection.status_after = Some(input.status_after);
        inspection.step_results = deep_copy_vec(&input.step_results);
        inspection.findings = copy_vec(&input.findings);
        inspection.photo_ids = copy_texts(&input.photo_ids);
        inspection.notes = clean_optional(copy_text(&input.notes));
        inspection.maintenance_action = clean_optional(copy_text(&input.maintenance_action));
        let after = inspection.deep_copy();
        self.inspections.insert(j, inspection);
        assert(self.inspections@ =~= old_inspections.update(j as int, self.inspections@[j as int]));
        let ghost old_orders = self.service_orders@;
        let mut order = self.service_orders.remove(i);
        let ghost old_tasks = order.tasks@;
        let mut task = order.tasks.remove(t);
        task.status = ServiceOrderTaskStatus::Completed;
        task.completed_at_ms = Some(now);
        let task_after = task.deep_copy();
        order.tasks.insert(t, task);
        assert(order.tasks@ =~= old_tasks.update(t as int, order.tasks@[t as int]));
        order.updated_at_ms = now;
        self.service_orders.insert(i, order);
        assert(self.service_orders@ =~= old_orders.update(i as int, self.service_orders@[i as int]));
        let previous_status = self.machine_items[k].status;
        let ghost old_items = self.machine_items@;
        let mut item = self.machine_items.remove(k);
        item.status = input.status_after;
        item.updated_at_ms = now;
        self.machine_items.insert(k, item);
        assert(self.machine_items@ =~= old_items.update(k as int, self.machine_items@[k as int]));
        self.refresh_machine_status(machine_id.as_str(), now);
        self.push_supplemental_audit(
            actor,
            now,
            "service_order_task.completed",
            "service_order_task",
            task_id.as_str(),
            None,
            Some(AuditRecord::Task(task_after)),
            "Service order task completed",
        );
        self.push_supplemental_audit(
            actor,
            now,
            "item.status_changed",
            "machine_item",
            machine_item_id.as_str(),
            Some(AuditRecord::Status(previous_status)),
            Some(AuditRecord::Status(input.status_after)),
            "Machine item status changed after inspection",
        );
        Ok(
            domain_action(
                "inspection.execute",
                "inspection.completed",
                "inspection",
                input.id.clone(),
                Some(AuditRecord::Inspection(before)),
                Some(AuditRecord::Inspection(after)),
                "Inspection completed",
            ),
        )
    }
}


/// Accepted answers fit their steps: when the answers of an inspection are accepted,
/// every answer to a choice step is a text equal to one of that step's options, every
/// answer to a confirmation or yes/no step is a flag, every answer to a numeric or
/// measurement step is a number, every answer to a text step is a text that is not blank,
/// and every answer to a photo step names a photo.
pub proof fn lemma_accepted_choices_are_options(
    guide: MaintenanceGuide,
    results: Seq<InspectionStepResult>,
    photos: Seq<PhotoAsset>,
    inspection_id: Seq<char>,
)
    requires
        step_results_error(guide, results, photos, inspection_id) is None,
    ensures
        forall|s: int, k: int|
            0 <= s < guide.steps@.len() && 0 <= k < results.len() && (#[trigger] guide.steps@[s]).step_type
                == GuideStepType::Choice && (#[trigger] results[k]).step_id@ == guide.steps@[s].id@
                ==> (results[k].value matches FieldValue::Text(t) && exists|o: int|
                0 <= o < guide.steps@[s].options@.len() && (#[trigger] guide.steps@[s].options@[o])@ == t@),
        forall|s: int, k: int|
            0 <= s < guide.steps@.len() && 0 <= k < results.len() && ((#[trigger] guide.steps@[s]).step_type
                == GuideStepType::Confirmation || guide.steps@[s].step_type == GuideStepType::Boolean) && (#[trigger] results[k]).step_id@ == guide.steps@[s].id@
                ==> results[k].value is Bool,
        forall|s: int, k: int|
            0 <= s < guide.steps@.len() && 0 <= k < results.len() && ((#[trigger] guide.steps@[s]).step_type
                == GuideStepType::Numeric || guide.steps@[s].step_type == GuideStepType::Measurement) && (#[trigger] results[k]).step_id@ == guide.steps@[s].id@
                ==> results[k].value is Number,
        forall|s: int, k: int|
            0 <= s < guide.steps@.len() && 0 <= k < results.len() && ((#[trigger] guide.steps@[s]).step_type
                == GuideStepType::Text) && (#[trigger] results[k]).step_id@ == guide.steps@[s].id@
                ==> (results[k].value matches FieldValue::Text(t) && !is_blank(t@)),
        forall|s: int, k: int|
            0 <= s < guide.steps@.len() && 0 <= k < results.len() && ((#[trigger] guide.steps@[s]).step_type
                == GuideStepType::Photo) && (#[trigger] results[k]).step_id@ == guide.steps@[s].id@
                ==> results[k].photo_ids@.len() > 0,
{
    let fails = step_fails(results, photos, inspection_id);
    lemma_first_index(guide.steps@, fails);
    assert forall|s: int, k: int|
        0 <= s < guide.steps@.len() && 0 <= k < results.len() && (#[trigger] results[k]).step_id@
            == (#[trigger] guide.steps@[s]).id@ implies value_ok(guide.steps@[s], results[k]) by {
        let step = guide.steps@[s];
        if fails(step) {
            crate::lookup::lemma_first_index_exists(guide.steps@, fails, s);
            let f = first_index(guide.steps@, fails)->0;
            assert(is_first(guide.steps@, fails, f));
            assert(step_check(guide.steps@[f], results, photos, inspection_id) is Some);
            assert(false);
        }
        let p = result_is(step.id@);
        lemma_first_index(results, p);
        assert(p(results[k]));
        crate::lookup::lemma_first_index_exists(results, p, k);
        let k0 = first_index(results, p)->0;
        assert(is_first(results, p, k0));
        if k0 != k {
            if k0 < k {
                assert(results[k0].step_id@ == results[k].step_id@);
            } else {
                assert(!p(results[k]));
            }
        }
    }
}

/// An inspection is completed only with answers that fit the steps of its guide: a choice
/// among the step's options, a flag, a number, a text that is not blank, or photos, as
/// each kind of step asks.
pub proof fn lemma_completed_inspection_choices_are_options(
    old_state: ApplicationState,
    new_state: ApplicationState,
    now: u64,
    actor: Actor,
    data: CommandData,
    a: Action,
)
    requires
        ApplicationState::complete_inspection_outcome(old_state, new_state, now, &actor, &data, Ok::<Action, String>(a)),
    ensures
        data matches CommandData::CompleteInspection(input) && index_of_id(old_state.inspections@, input.id@) matches Some(
            j,
        ) && {
            let guide = old_state.inspections@[j].category_snapshot.maintenance_guide;
            let results = input.step_results@;
            &&& forall|s: int, k: int|
                0 <= s < guide.steps@.len() && 0 <= k < results.len() && (#[trigger] guide.steps@[s]).step_type
                    == GuideStepType::Choice && (#[trigger] results[k]).step_id@ == guide.steps@[s].id@
                    ==> (results[k].value matches FieldValue::Text(t) && exists|o: int|
                    0 <= o < guide.steps@[s].options@.len() && (#[trigger] guide.steps@[s].options@[o])@ == t@)
            &&& forall|s: int, k: int|
                0 <= s < guide.steps@.len() && 0 <= k < results.len() && ((#[trigger] guide.steps@[s]).step_type
                    == GuideStepType::Confirmation || guide.steps@[s].step_type == GuideStepType::Boolean) && (#[trigger] results[k]).step_id@ == guide.steps@[s].id@
                    ==> results[k].value is Bool
            &&& forall|s: int, k: int|
                0 <= s < guide.steps@.len() && 0 <= k < results.len() && ((#[trigger] guide.steps@[s]).step_type
                    == GuideStepType::Numeric || guide.steps@[s].step_type == GuideStepType::Measurement) && (#[trigger] results[k]).step_id@ == guide.steps@[s].id@
                    ==> results[k].value is Number
            &&& forall|s: int, k: int|
                0 <= s < guide.steps@.len() && 0 <= k < results.len() && ((#[trigger] guide.steps@[s]).step_type
                    == GuideStepType::Text) && (#[trigger] results[k]).step_id@ == guide.steps@[s].id@
                    ==> (results[k].value matches FieldValue::Text(t) && !is_blank(t@))
            &&& forall|s: int, k: int|
                0 <= s < guide.steps@.len() && 0 <= k < results.len() && ((#[trigger] guide.steps@[s]).step_type
                    == GuideStepType::Photo) && (#[trigger] results[k]).step_id@ == guide.steps@[s].id@
                    ==> results[k].photo_ids@.len() > 0
        },
{
    assert(complete_inspection_error(old_state, actor, data) is None);
    if let CommandData::CompleteInspection(input) = data {
        let j = index_of_id(old_state.inspections@, input.id@)->0;
        lemma_accepted_choices_are_options(
            old_state.inspections@[j].category_snapshot.maintenance_guide,
            input.step_results@,
            old_state.photos@,
            input.id@,
        );
    }
}

} // verus!
