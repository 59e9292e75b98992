use vstd::prelude::*;

pub mod accounts;
pub mod admin_guard;
pub mod calendar;
pub mod categories;
pub mod bundle;
pub mod bundle_import;
pub mod commands;
pub mod copies;
pub mod fingerprint;
pub mod import_agreement;
pub mod import_assets;
pub mod import_inventory;
pub mod import_work;
pub mod inspections;
pub mod inventory;
pub mod legacy;
pub mod items;
pub mod legacy_terms;
pub mod lookup;
pub mod machines;
pub mod migration_cli;
pub mod model;
pub mod numbers;
pub mod orders;
pub mod ordering;
pub mod permissions;
pub mod photos;
pub mod policy;
pub mod positions;
pub mod query_assets;
pub mod query_operations;
pub mod query_summary;
pub mod query_support;
pub mod reimport;
pub mod snapshots;
pub mod state;
pub mod suppliers;
pub mod text;
pub mod text_order;
pub mod users;

verus! {

} // verus!
