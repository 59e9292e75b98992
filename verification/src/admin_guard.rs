//! Commands never take away the last active administrator: a state with one keeps one,
//! whatever command runs and whatever it answers.
use vstd::prelude::*;

use crate::commands::CommandData;
use crate::lookup::{index_of_id, lemma_first_index};
use crate::model::UserAccount;
use crate::permissions::{
    ADD_MACHINE_ITEM, ADD_PHOTO, ADJUST_STOCK, ASSIGN_ORDER_TASK, COMPLETE_INSPECTION, COMPLETE_SERVICE_ORDER, CREATE_ITEM_CATEGORY, CREATE_MACHINE, CREATE_RESTOCK_REQUEST, CREATE_SERVICE_ORDER, CREATE_SUPPLIER, CREATE_USER, DELETE_PHOTO, DELETE_RESTOCK_REQUEST, DELETE_SERVICE_ORDER, DELETE_STOCK_ITEM, DELETE_SUPPLIER, REMOVE_MACHINE_ITEM, REORDER_MACHINE_ITEMS, REPLACE_MACHINE_ITEM, RESET_USER_CREDENTIALS, REVIEW_RESTOCK_REQUEST, START_INSPECTION, START_SERVICE_ORDER, UPDATE_ITEM_CATEGORY, UPDATE_MACHINE, UPDATE_MACHINE_ITEM, UPDATE_SUPPLIER, UPDATE_USER, UPSERT_STOCK_ITEM,
};
use crate::state::{
    command_outcome, execution_outcome, receipt_for, Action, Actor, ApplicationState, CommandPayload,
    ExecutionReceipt,
};
use crate::users::{active_admin_count, is_active_admin, lemma_active_admin_count_update};

verus! {

/// Adding an account never lowers the count of active administrators.
proof fn lemma_active_admin_count_push(s: Seq<UserAccount>, u: UserAccount)
    ensures
        active_admin_count(s.push(u)) >= active_admin_count(s),
{
    assert(s.push(u).drop_last() == s);
}

/// An account updated in place at the position of identifier `id` changes the count by
/// what the two versions contribute; the position is that of the first account with it.
proof fn lemma_account_updated(users: Seq<UserAccount>, id: Seq<char>, updated: Seq<UserAccount>)
    requires
        index_of_id(users, id) is Some,
        updated == users.update(index_of_id(users, id)->0, updated[index_of_id(users, id)->0]),
        ({
            let i = index_of_id(users, id)->0;
            is_active_admin(users[i]) ==> is_active_admin(updated[i]) || active_admin_count(users) > 1
        }),
        active_admin_count(users) >= 1,
    ensures
        active_admin_count(updated) >= 1,
{
    lemma_first_index(users, crate::lookup::id_is::<UserAccount>(id));
    let i = index_of_id(users, id)->0;
    lemma_active_admin_count_update(users, i, updated[i]);
}

/// The handler of any command keeps an active administrator when there is one.
proof fn lemma_handler_keeps_an_active_admin(
    name: Seq<char>,
    old_state: ApplicationState,
    new_state: ApplicationState,
    command_id: &str,
    idempotency_key: &str,
    now: u64,
    actor: &Actor,
    data: CommandData,
    a: Action,
)
    requires
        command_outcome(name, old_state, new_state, command_id, idempotency_key, now, actor, data, Ok::<Action, String>(a)),
        active_admin_count(old_state.user_accounts@) >= 1,
    ensures
        active_admin_count(new_state.user_accounts@) >= 1,
{
    let users = old_state.user_accounts@;
    if name == CREATE_ITEM_CATEGORY@ {
        assert(new_state.user_accounts == old_state.user_accounts);
    } else if name == UPDATE_ITEM_CATEGORY@ {
        assert(new_state.user_accounts == old_state.user_accounts);
    } else if name == CREATE_MACHINE@ {
        assert(new_state.user_accounts == old_state.user_accounts);
    } else if name == UPDATE_MACHINE@ {
        assert(new_state.user_accounts == old_state.user_accounts);
    } else if name == ADD_MACHINE_ITEM@ {
        assert(new_state.user_accounts == old_state.user_accounts);
    } else if name == UPDATE_MACHINE_ITEM@ {
        assert(new_state.user_accounts == old_state.user_accounts);
    } else if name == REORDER_MACHINE_ITEMS@ {
        assert(new_state.user_accounts == old_state.user_accounts);
    } else if name == REMOVE_MACHINE_ITEM@ {
        assert(new_state.user_accounts == old_state.user_accounts);
    } else if name == REPLACE_MACHINE_ITEM@ {
        assert(new_state.user_accounts == old_state.user_accounts);
    } else if name == ADD_PHOTO@ {
        assert(new_state.user_accounts == old_state.user_accounts);
    } else if name == DELETE_PHOTO@ {
        assert(new_state.user_accounts == old_state.user_accounts);
    } else if name == CREATE_SERVICE_ORDER@ {
        assert(new_state.user_accounts == old_state.user_accounts);
    } else if name == START_SERVICE_ORDER@ {
        assert(new_state.user_accounts == old_state.user_accounts);
    } else if name == ASSIGN_ORDER_TASK@ {
        assert(new_state.user_accounts == old_state.user_accounts);
    } else if name == DELETE_SERVICE_ORDER@ {
        assert(new_state.user_accounts == old_state.user_accounts);
    } else if name == COMPLETE_SERVICE_ORDER@ {
        assert(new_state.user_accounts == old_state.user_accounts);
    } else if name == START_INSPECTION@ {
        assert(new_state.user_accounts == old_state.user_accounts);
    } else if name == COMPLETE_INSPECTION@ {
        assert(new_state.user_accounts == old_state.user_accounts);
    } else if name == CREATE_RESTOCK_REQUEST@ {
        assert(new_state.user_accounts == old_state.user_accounts);
    } else if name == REVIEW_RESTOCK_REQUEST@ {
        assert(new_state.user_accounts == old_state.user_accounts);
    } else if name == DELETE_RESTOCK_REQUEST@ {
        assert(new_state.user_accounts == old_state.user_accounts);
    } else if name == ADJUST_STOCK@ {
        assert(new_state.user_accounts == old_state.user_accounts);
    } else if name == UPSERT_STOCK_ITEM@ {
        assert(new_state.user_accounts == old_state.user_accounts);
    } else if name == DELETE_STOCK_ITEM@ {
        assert(new_state.user_accounts == old_state.user_accounts);
    } else if name == CREATE_SUPPLIER@ {
        assert(new_state.user_accounts == old_state.user_accounts);
    } else if name == UPDATE_SUPPLIER@ {
        assert(new_state.user_accounts == old_state.user_accounts);
    } else if name == DELETE_SUPPLIER@ {
        assert(new_state.user_accounts == old_state.user_accounts);
    } else if name == CREATE_USER@ {
        lemma_active_admin_count_push(users, new_state.user_accounts@.last());
    } else if name == UPDATE_USER@ {
        let input = data->UpdateUser_0;
        assert(crate::users::update_user_error(users, actor.role, data) is None);
        lemma_account_updated(users, input.id@, new_state.user_accounts@);
    } else if name == RESET_USER_CREDENTIALS@ {
        let input = data->ResetUserCredentials_0;
        assert(crate::users::reset_credentials_error(users, actor.role, data) is None);
        lemma_account_updated(users, input.id@, new_state.user_accounts@);
    }
}

/// Executing a command never leaves a state without an active administrator when it had
/// one: a replayed or rejected command changes nothing, creating an account adds one,
/// resetting credentials keeps roles and flags, and an update that would demote or
/// deactivate the last active administrator is refused.
pub proof fn lemma_commands_keep_an_active_admin(
    old_state: ApplicationState,
    new_state: ApplicationState,
    command_name: &str,
    command_id: &str,
    idempotency_key: &str,
    issued_at_ms: u64,
    payload: Option<CommandPayload>,
    r: Result<ExecutionReceipt, String>,
)
    requires
        execution_outcome(old_state, new_state, command_name, command_id, idempotency_key, issued_at_ms, payload, r),
        active_admin_count(old_state.user_accounts@) >= 1,
    ensures
        active_admin_count(new_state.user_accounts@) >= 1,
{
    if receipt_for(old_state.processed_commands@, idempotency_key@) is None && r is Ok {
        let p = payload->0;
        let (mid, a) = choose|mid: ApplicationState, a: Action|
            #[trigger] command_outcome(
                command_name@,
                old_state,
                mid,
                command_id,
                idempotency_key,
                issued_at_ms,
                &p.actor,
                p.data,
                Ok::<Action, String>(a),
            ) && r->Ok_0 == a.receipt && new_state == (ApplicationState {
                schema_version: crate::state::SCHEMA_VERSION,
                audit_events: new_state.audit_events,
                processed_commands: new_state.processed_commands,
                ..mid
            }) && new_state.audit_events@ == mid.audit_events@.push(new_state.audit_events@.last())
                && new_state.processed_commands@ == mid.processed_commands@.push(
                new_state.processed_commands@.last(),
            );
        lemma_handler_keeps_an_active_admin(
            command_name@,
            old_state,
            mid,
            command_id,
            idempotency_key,
            issued_at_ms,
            &p.actor,
            p.data,
            a,
        );
    }
}

} // verus!
