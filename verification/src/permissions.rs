//! Who may do what: roles, permissions and the names of commands and queries.
use vstd::prelude::*;

use crate::text::{owned, str_equal};

verus! {

/// The roles of the plant's staff.
#[derive(Debug, Clone, Copy, PartialEq, Eq, Structural)]
pub enum Role {
    Admin,
    Chefe,
    Compras,
    Tecnico,
}

/// Admin, supervisor or technician: those who work on the machines.
pub open spec fn is_floor_role(role: Role) -> bool {
    role == Role::Admin || role == Role::Chefe || role == Role::Tecnico
}

/// Admin or supervisor.
pub open spec fn is_manager(role: Role) -> bool {
    role == Role::Admin || role == Role::Chefe
}

/// Admin, supervisor or purchasing.
pub open spec fn is_stock_role(role: Role) -> bool {
    role == Role::Admin || role == Role::Chefe || role == Role::Compras
}

/// The permission table: which roles hold each permission; unknown permissions are held
/// by nobody.
pub open spec fn allowed(role: Role, p: Seq<char>) -> bool {
    if p == "item_category.read"@ || p == "machine.read"@ {
        is_floor_role(role)
    } else if p == "item_category.manage"@ {
        role == Role::Admin
    } else if p == "machine.create"@ || p == "machine.update"@ || p == "machine_item.manage"@ {
        is_manager(role)
    } else if p == "photo.manage_reference"@ {
        is_manager(role)
    } else if p == "inspection.execute"@ {
        is_floor_role(role)
    } else if p == "inspection.read"@ {
        is_floor_role(role)
    } else if p == "order.read"@ {
        is_floor_role(role)
    } else if p == "operator.read"@ {
        is_manager(role)
    } else if p == "order.create"@ || p == "order.manage"@ || p == "order.delete"@ {
        is_manager(role)
    } else if p == "restock.create_suggestion"@ {
        role == Role::Tecnico
    } else if p == "restock.read"@ {
        is_stock_role(role)
    } else if p == "restock.approve_reject"@ || p == "restock.delete"@ {
        is_manager(role)
    } else if p == "stock.read"@ || p == "stock.add_or_increment"@ || p
        == "stock.adjust_quantity"@ || p == "stock.delete"@ {
        is_stock_role(role)
    } else if p == "supplier.read"@ || p == "supplier.create_update_delete"@ {
        role == Role::Admin
    } else if p == "report.read"@ {
        is_manager(role)
    } else if p == "audit.read"@ {
        is_manager(role)
    } else if p == "admin.manage"@ || p == "admin.users.manage"@ {
        role == Role::Admin
    } else {
        false
    }
}

/// Whether `role` holds `permission`.
pub fn can(role: Role, permission: &str) -> (r: bool)
    ensures
        r == allowed(role, permission@),
{
    let floor = role == Role::Admin || role == Role::Chefe || role == Role::Tecnico;
    let manager = role == Role::Admin || role == Role::Chefe;
    let stock = role == Role::Admin || role == Role::Chefe || role == Role::Compras;
    let p = permission;
    if str_equal(p, "item_category.read") || str_equal(p, "machine.read") {
        floor
    } else if str_equal(p, "item_category.manage") {
        role == Role::Admin
    } else if str_equal(p, "machine.create") || str_equal(p, "machine.update") || str_equal(
        p,
        "machine_item.manage",
    ) {
        manager
    } else if str_equal(p, "photo.manage_reference") {
        manager
    } else if str_equal(p, "inspection.execute") {
        floor
    } else if str_equal(p, "inspection.read") {
        floor
    } else if str_equal(p, "order.read") {
        floor
    } else if str_equal(p, "operator.read") {
        manager
    } else if str_equal(p, "order.create") || str_equal(p, "order.manage") || str_equal(
        p,
        "order.delete",
    ) {
        manager
    } else if str_equal(p, "restock.create_suggestion") {
        role == Role::Tecnico
    } else if str_equal(p, "restock.read") {
        stock
    } else if str_equal(p, "restock.approve_reject") || str_equal(p, "restock.delete") {
        manager
    } else if str_equal(p, "stock.read") || str_equal(p, "stock.add_or_increment") || str_equal(
        p,
        "stock.adjust_quantity",
    ) || str_equal(p, "stock.delete") {
        stock
    } else if str_equal(p, "supplier.read") || str_equal(p, "supplier.create_update_delete") {
        role == Role::Admin
    } else if str_equal(p, "report.read") {
        manager
    } else if str_equal(p, "audit.read") {
        manager
    } else if str_equal(p, "admin.manage") || str_equal(p, "admin.users.manage") {
        role == Role::Admin
    } else {
        false
    }
}

/// `Ok` when the role holds the permission, else the error `forbidden`.
pub fn require_permission(role: Role, permission: &str) -> (r: Result<(), String>)
    ensures
        r is Ok <==> allowed(role, permission@),
        r matches Err(e) ==> e@ == "forbidden"@,
{
    if can(role, permission) {
        Ok(())
    } else {
        Err(owned("forbidden"))
    }
}

/// The stored name of a role.
pub open spec fn role_text(role: Role) -> Seq<char> {
    match role {
        Role::Admin => "admin"@,
        Role::Chefe => "chefe"@,
        Role::Compras => "compras"@,
        Role::Tecnico => "tecnico"@,
    }
}

/// The stored name of a role.
pub fn role_name(role: Role) -> (r: &'static str)
    ensures
        r@ == role_text(role),
{
    match role {
        Role::Admin => "admin",
        Role::Chefe => "chefe",
        Role::Compras => "compras",
        Role::Tecnico => "tecnico",
    }
}

pub const CREATE_ITEM_CATEGORY: &'static str = "proexel.item_categories.create";
pub const UPDATE_ITEM_CATEGORY: &'static str = "proexel.item_categories.update";
pub const CREATE_MACHINE: &'static str = "proexel.machines.create";
pub const UPDATE_MACHINE: &'static str = "proexel.machines.update";
pub const ADD_MACHINE_ITEM: &'static str = "proexel.machine_items.add";
pub const UPDATE_MACHINE_ITEM: &'static str = "proexel.machine_items.update";
pub const REORDER_MACHINE_ITEMS: &'static str = "proexel.machine_items.reorder";
pub const REMOVE_MACHINE_ITEM: &'static str = "proexel.machine_items.remove";
pub const REPLACE_MACHINE_ITEM: &'static str = "proexel.machine_items.replace";
pub const ADD_PHOTO: &'static str = "proexel.photos.add";
pub const DELETE_PHOTO: &'static str = "proexel.photos.delete";
pub const CREATE_SERVICE_ORDER: &'static str = "proexel.orders.create";
pub const START_SERVICE_ORDER: &'static str = "proexel.orders.start";
pub const ASSIGN_ORDER_TASK: &'static str = "proexel.orders.assign_task";
pub const DELETE_SERVICE_ORDER: &'static str = "proexel.orders.delete";
pub const COMPLETE_SERVICE_ORDER: &'static str = "proexel.orders.complete";
pub const START_INSPECTION: &'static str = "proexel.inspections.start";
pub const COMPLETE_INSPECTION: &'static str = "proexel.inspections.complete";
pub const CREATE_RESTOCK_REQUEST: &'static str = "proexel.purchasing.create_restock_request";
pub const REVIEW_RESTOCK_REQUEST: &'static str = "proexel.purchasing.review_restock_request";
pub const DELETE_RESTOCK_REQUEST: &'static str = "proexel.purchasing.delete_restock_request";
pub const ADJUST_STOCK: &'static str = "proexel.stock.adjust";
pub const UPSERT_STOCK_ITEM: &'static str = "proexel.stock.upsert_item";
pub const DELETE_STOCK_ITEM: &'static str = "proexel.stock.delete_item";
pub const CREATE_SUPPLIER: &'static str = "proexel.suppliers.create";
pub const UPDATE_SUPPLIER: &'static str = "proexel.suppliers.update";
pub const DELETE_SUPPLIER: &'static str = "proexel.suppliers.delete";
pub const CREATE_USER: &'static str = "proexel.admin.users.create";
pub const UPDATE_USER: &'static str = "proexel.admin.users.update";
pub const RESET_USER_CREDENTIALS: &'static str = "proexel.admin.users.reset_credentials";
pub const GET_OVERVIEW: &'static str = "proexel.overview.get";
pub const LIST_ITEM_CATEGORIES: &'static str = "proexel.item_categories.list";
pub const LIST_MACHINES: &'static str = "proexel.machines.list";
pub const LIST_SERVICE_ORDERS: &'static str = "proexel.orders.list";
pub const LIST_INSPECTIONS: &'static str = "proexel.inspections.list";
pub const LIST_RESTOCK_REQUESTS: &'static str = "proexel.purchasing.list_restock_requests";
pub const LIST_STOCK: &'static str = "proexel.stock.list";
pub const LIST_SUPPLIERS: &'static str = "proexel.suppliers.list";
pub const LIST_AUDIT: &'static str = "proexel.audit.list";
pub const GET_REPORTS: &'static str = "proexel.reports.get";
pub const LIST_USERS: &'static str = "proexel.admin.users.list";
pub const LIST_OPERATORS: &'static str = "proexel.operators.list";
pub const RESOLVE_IDENTITY: &'static str = "proexel.identity.resolve";

/// The registered command names, in registration order.
pub open spec fn command_names() -> Seq<Seq<char>> {
    seq![
        CREATE_ITEM_CATEGORY@,
        UPDATE_ITEM_CATEGORY@,
        CREATE_MACHINE@,
        UPDATE_MACHINE@,
        ADD_MACHINE_ITEM@,
        UPDATE_MACHINE_ITEM@,
        REORDER_MACHINE_ITEMS@,
        REMOVE_MACHINE_ITEM@,
        REPLACE_MACHINE_ITEM@,
        ADD_PHOTO@,
        DELETE_PHOTO@,
        CREATE_SERVICE_ORDER@,
        START_SERVICE_ORDER@,
        ASSIGN_ORDER_TASK@,
        DELETE_SERVICE_ORDER@,
        COMPLETE_SERVICE_ORDER@,
        START_INSPECTION@,
        COMPLETE_INSPECTION@,
        CREATE_RESTOCK_REQUEST@,
        REVIEW_RESTOCK_REQUEST@,
        DELETE_RESTOCK_REQUEST@,
        ADJUST_STOCK@,
        UPSERT_STOCK_ITEM@,
        DELETE_STOCK_ITEM@,
        CREATE_SUPPLIER@,
        UPDATE_SUPPLIER@,
        DELETE_SUPPLIER@,
        CREATE_USER@,
        UPDATE_USER@,
        RESET_USER_CREDENTIALS@,
    ]
}

/// The registered command names.
pub fn commands() -> (r: Vec<&'static str>)
    ensures
        r@.len() == command_names().len(),
        forall|i: int| 0 <= i < r@.len() ==> r@[i]@ == #[trigger] command_names()[i],
{
    let r = vec![
        CREATE_ITEM_CATEGORY,
        UPDATE_ITEM_CATEGORY,
        CREATE_MACHINE,
        UPDATE_MACHINE,
        ADD_MACHINE_ITEM,
        UPDATE_MACHINE_ITEM,
        REORDER_MACHINE_ITEMS,
        REMOVE_MACHINE_ITEM,
        REPLACE_MACHINE_ITEM,
        ADD_PHOTO,
        DELETE_PHOTO,
        CREATE_SERVICE_ORDER,
        START_SERVICE_ORDER,
        ASSIGN_ORDER_TASK,
        DELETE_SERVICE_ORDER,
        COMPLETE_SERVICE_ORDER,
        START_INSPECTION,
        COMPLETE_INSPECTION,
        CREATE_RESTOCK_REQUEST,
        REVIEW_RESTOCK_REQUEST,
        DELETE_RESTOCK_REQUEST,
        ADJUST_STOCK,
        UPSERT_STOCK_ITEM,
        DELETE_STOCK_ITEM,
        CREATE_SUPPLIER,
        UPDATE_SUPPLIER,
        DELETE_SUPPLIER,
        CREATE_USER,
        UPDATE_USER,
        RESET_USER_CREDENTIALS,
    ];
    r
}

/// The registered query names, in registration order.
pub open spec fn query_names() -> Seq<Seq<char>> {
    seq![
        GET_OVERVIEW@,
        LIST_ITEM_CATEGORIES@,
        LIST_MACHINES@,
        LIST_SERVICE_ORDERS@,
        LIST_INSPECTIONS@,
        LIST_RESTOCK_REQUESTS@,
        LIST_STOCK@,
        LIST_SUPPLIERS@,
        LIST_AUDIT@,
        GET_REPORTS@,
        LIST_USERS@,
        LIST_OPERATORS@,
        RESOLVE_IDENTITY@,
    ]
}

/// The registered query names.
pub fn queries() -> (r: Vec<&'static str>)
    ensures
        r@.len() == query_names().len(),
        forall|i: int| 0 <= i < r@.len() ==> r@[i]@ == #[trigger] query_names()[i],
{
    let r = vec![
        GET_OVERVIEW,
        LIST_ITEM_CATEGORIES,
        LIST_MACHINES,
        LIST_SERVICE_ORDERS,
        LIST_INSPECTIONS,
        LIST_RESTOCK_REQUESTS,
        LIST_STOCK,
        LIST_SUPPLIERS,
        LIST_AUDIT,
        GET_REPORTS,
        LIST_USERS,
        LIST_OPERATORS,
        RESOLVE_IDENTITY,
    ];
    r
}

/// The permission a query needs: none for the overview and for resolving an identity,
/// and the marker `unknown` for names that are no query.
pub open spec fn query_permission_spec(name: Seq<char>) -> Option<Seq<char>> {
    if name == GET_OVERVIEW@ {
        None
    } else if name == LIST_ITEM_CATEGORIES@ {
        Some("item_category.read"@)
    } else if name == LIST_MACHINES@ {
        Some("machine.read"@)
    } else if name == LIST_SERVICE_ORDERS@ {
        Some("order.read"@)
    } else if name == LIST_INSPECTIONS@ {
        Some("inspection.read"@)
    } else if name == LIST_RESTOCK_REQUESTS@ {
        Some("restock.read"@)
    } else if name == LIST_STOCK@ {
        Some("stock.read"@)
    } else if name == LIST_SUPPLIERS@ {
        Some("supplier.read"@)
    } else if name == LIST_AUDIT@ {
        Some("audit.read"@)
    } else if name == GET_REPORTS@ {
        Some("report.read"@)
    } else if name == LIST_USERS@ {
        Some("admin.users.manage"@)
    } else if name == LIST_OPERATORS@ {
        Some("operator.read"@)
    } else if name == RESOLVE_IDENTITY@ {
        None
    } else {
        Some("unknown"@)
    }
}

/// Every registered query has a permission mapping: none of them falls to the `unknown`
/// marker that only names that are no query get.
pub proof fn lemma_every_query_is_mapped()
    ensures
        forall|i: int| 0 <= i < query_names().len() ==> query_permission_spec(#[trigger] query_names()[i]) != Some(
            "unknown"@,
        ),
{
    reveal_strlit("unknown");
    assert("unknown"@.len() == 7);
    reveal_strlit("item_category.read");
    assert("item_category.read"@.len() == 18);
    reveal_strlit("machine.read");
    assert("machine.read"@.len() == 12);
    reveal_strlit("order.read");
    assert("order.read"@.len() == 10);
    reveal_strlit("inspection.read");
    assert("inspection.read"@.len() == 15);
    reveal_strlit("restock.read");
    assert("restock.read"@.len() == 12);
    reveal_strlit("stock.read");
    assert("stock.read"@.len() == 10);
    reveal_strlit("supplier.read");
    assert("supplier.read"@.len() == 13);
    reveal_strlit("audit.read");
    assert("audit.read"@.len() == 10);
    reveal_strlit("report.read");
    assert("report.read"@.len() == 11);
    reveal_strlit("admin.users.manage");
    assert("admin.users.manage"@.len() == 18);
    reveal_strlit("operator.read");
    assert("operator.read"@.len() == 13);
    reveal_strlit("proexel.overview.get");
    assert(GET_OVERVIEW@ == "proexel.overview.get"@);
    reveal_strlit("proexel.item_categories.list");
    assert(LIST_ITEM_CATEGORIES@ == "proexel.item_categories.list"@);
    reveal_strlit("proexel.machines.list");
    assert(LIST_MACHINES@ == "proexel.machines.list"@);
    reveal_strlit("proexel.orders.list");
    assert(LIST_SERVICE_ORDERS@ == "proexel.orders.list"@);
    reveal_strlit("proexel.inspections.list");
    assert(LIST_INSPECTIONS@ == "proexel.inspections.list"@);
    reveal_strlit("proexel.purchasing.list_restock_requests");
    assert(LIST_RESTOCK_REQUESTS@ == "proexel.purchasing.list_restock_requests"@);
    reveal_strlit("proexel.stock.list");
    assert(LIST_STOCK@ == "proexel.stock.list"@);
    reveal_strlit("proexel.suppliers.list");
    assert(LIST_SUPPLIERS@ == "proexel.suppliers.list"@);
    reveal_strlit("proexel.audit.list");
    assert(LIST_AUDIT@ == "proexel.audit.list"@);
    reveal_strlit("proexel.reports.get");
    assert(GET_REPORTS@ == "proexel.reports.get"@);
    reveal_strlit("proexel.admin.users.list");
    assert(LIST_USERS@ == "proexel.admin.users.list"@);
    reveal_strlit("proexel.operators.list");
    assert(LIST_OPERATORS@ == "proexel.operators.list"@);
    reveal_strlit("proexel.identity.resolve");
    assert(RESOLVE_IDENTITY@ == "proexel.identity.resolve"@);
    assert(query_permission_spec(GET_OVERVIEW@) != Some("unknown"@));
    assert(query_permission_spec(LIST_ITEM_CATEGORIES@) != Some("unknown"@));
    assert(query_permission_spec(LIST_MACHINES@) != Some("unknown"@));
    assert(query_permission_spec(LIST_SERVICE_ORDERS@) != Some("unknown"@));
    assert(query_permission_spec(LIST_INSPECTIONS@) != Some("unknown"@));
    assert(query_permission_spec(LIST_RESTOCK_REQUESTS@) != Some("unknown"@));
    assert(query_permission_spec(LIST_STOCK@) != Some("unknown"@));
    assert(query_permission_spec(LIST_SUPPLIERS@) != Some("unknown"@));
    assert(query_permission_spec(LIST_AUDIT@) != Some("unknown"@));
    assert(query_permission_spec(GET_REPORTS@) != Some("unknown"@));
    assert(query_permission_spec(LIST_USERS@) != Some("unknown"@));
    assert(query_permission_spec(LIST_OPERATORS@) != Some("unknown"@));
    assert(query_permission_spec(RESOLVE_IDENTITY@) != Some("unknown"@));
    assert forall|i: int| 0 <= i < query_names().len() implies query_permission_spec(
        #[trigger] query_names()[i],
    ) != Some("unknown"@) by {
        let q = query_names();
        assert(q[0] == GET_OVERVIEW@ && q[1] == LIST_ITEM_CATEGORIES@ && q[2] == LIST_MACHINES@);
        assert(q[3] == LIST_SERVICE_ORDERS@ && q[4] == LIST_INSPECTIONS@ && q[5] == LIST_RESTOCK_REQUESTS@);
        assert(q[6] == LIST_STOCK@ && q[7] == LIST_SUPPLIERS@ && q[8] == LIST_AUDIT@);
        assert(q[9] == GET_REPORTS@ && q[10] == LIST_USERS@ && q[11] == LIST_OPERATORS@);
        assert(q[12] == RESOLVE_IDENTITY@);
    }
}

fn some_text(p: &'static str) -> (r: Option<&'static str>)
    ensures
        r matches Some(t) && t@ == p@,
{
    Some(p)
}

/// The permission a query needs.
pub fn query_permission(name: &str) -> (r: Option<&'static str>)
    ensures
        match r {
            Some(p) => query_permission_spec(name@) == Some(p@),
            None => query_permission_spec(name@) is None,
        },
{
    if str_equal(name, GET_OVERVIEW) {
        None
    } else if str_equal(name, LIST_ITEM_CATEGORIES) {
        some_text("item_category.read")
    } else if str_equal(name, LIST_MACHINES) {
        some_text("machine.read")
    } else if str_equal(name, LIST_SERVICE_ORDERS) {
        some_text("order.read")
    } else if str_equal(name, LIST_INSPECTIONS) {
        some_text("inspection.read")
    } else if str_equal(name, LIST_RESTOCK_REQUESTS) {
        some_text("restock.read")
    } else if str_equal(name, LIST_STOCK) {
        some_text("stock.read")
    } else if str_equal(name, LIST_SUPPLIERS) {
        some_text("supplier.read")
    } else if str_equal(name, LIST_AUDIT) {
        some_text("audit.read")
    } else if str_equal(name, GET_REPORTS) {
        some_text("report.read")
    } else if str_equal(name, LIST_USERS) {
        some_text("admin.users.manage")
    } else if str_equal(name, LIST_OPERATORS) {
        some_text("operator.read")
    } else if str_equal(name, RESOLVE_IDENTITY) {
        None
    } else {
        some_text("unknown")
    }
}

} // verus!
