//! Records exported from the previous PROEXEL application (valves grouped by zone, their
//! maintenance, orders, stock, suppliers and photos) and the report of importing them.
use vstd::prelude::*;

use crate::model::{
    ItemCategory, ItemInspection, Machine, MachineItem, PhotoAsset, RestockRequest, ServiceOrder,
    StockItem, Supplier,
};
use crate::text::owned;

verus! {

/// The name of the system legacy bundles come from.
pub const LEGACY_SOURCE_NAME: &'static str = "PROEXEL-main";

/// The identifier of the category imported valves belong to.
pub const LEGACY_CATEGORY_ID: &'static str = "legacy-category-valve";

/// A valve of the previous application.
#[derive(Debug, Clone)]
pub struct LegacyValve {
    pub tag: String,
    pub zone: String,
    pub manufacturer: Option<String>,
    pub serial: Option<String>,
    pub kit_reference: Option<String>,
    pub seat: Option<String>,
    pub dn: Option<String>,
    pub valve_type: Option<String>,
    pub actuator: Option<String>,
    pub manufactured_at: Option<String>,
    pub last_kit_changed_at: Option<String>,
    pub last_maintenance_at: Option<String>,
}

/// A maintenance record of the previous application.
#[derive(Debug, Clone)]
pub struct LegacyMaintenance {
    pub tag: String,
    pub performed_at: String,
    pub technician: String,
    pub maintenance_type: String,
    pub service: String,
    pub kit_changed: bool,
    pub notes: Option<String>,
    pub signature_ref: Option<String>,
}

/// A service order of the previous application, for a zone or one valve of it.
#[derive(Debug, Clone)]
pub struct LegacyOrder {
    pub zone: String,
    pub valve_tag: Option<String>,
    pub description: String,
    pub priority: String,
    pub status: String,
    pub created_by: Option<String>,
    pub technician: Option<String>,
    pub scheduled_for: Option<String>,
}

/// A restock request of the previous application.
#[derive(Debug, Clone)]
pub struct LegacyRestock {
    pub reference: String,
    pub reason: String,
    pub requested_by: Option<String>,
    pub status: String,
}

/// A stock entry of the previous application.
#[derive(Debug, Clone)]
pub struct LegacyStock {
    pub reference: String,
    pub quantity: u32,
    pub min_quantity: u32,
    pub manufacturer: Option<String>,
    pub brand: Option<String>,
    pub location: Option<String>,
}

/// A supplier of the previous application.
#[derive(Debug, Clone)]
pub struct LegacySupplier {
    pub name: String,
    pub contact: String,
    pub email: Option<String>,
    pub website: Option<String>,
    pub notes: Option<String>,
    pub created_by: Option<String>,
}

/// A valve photo of the previous application.
#[derive(Debug, Clone)]
pub struct LegacyPhoto {
    pub tag: String,
    pub blob_ref: String,
}

/// Everything exported from the previous application.
#[derive(Debug, Clone)]
pub struct LegacyBundle {
    pub valves: Vec<LegacyValve>,
    pub maintenance_records: Vec<LegacyMaintenance>,
    pub orders: Vec<LegacyOrder>,
    pub restock_requests: Vec<LegacyRestock>,
    pub stock: Vec<LegacyStock>,
    pub suppliers: Vec<LegacySupplier>,
    pub valve_photos: Vec<LegacyPhoto>,
}

impl LegacyBundle {
    /// A bundle with no records.
    pub fn empty() -> (r: Self)
        ensures
            r.valves@.len() == 0,
            r.maintenance_records@.len() == 0,
            r.orders@.len() == 0,
            r.restock_requests@.len() == 0,
            r.stock@.len() == 0,
            r.suppliers@.len() == 0,
            r.valve_photos@.len() == 0,
    {
        LegacyBundle {
            valves: Vec::new(),
            maintenance_records: Vec::new(),
            orders: Vec::new(),
            restock_requests: Vec::new(),
            stock: Vec::new(),
            suppliers: Vec::new(),
            valve_photos: Vec::new(),
        }
    }
}

/// How many records of each kind a bundle holds.
#[derive(Debug, Clone, Copy, PartialEq, Eq, Structural)]
pub struct SourceCounts {
    pub maintenance_records: usize,
    pub orders: usize,
    pub restock_requests: usize,
    pub stock: usize,
    pub suppliers: usize,
    pub valve_photos: usize,
    pub valves: usize,
}

/// Counts the records of each kind in a bundle.
pub fn source_counts(bundle: &LegacyBundle) -> (r: SourceCounts)
    ensures
        r == (SourceCounts {
            maintenance_records: bundle.maintenance_records@.len() as usize,
            orders: bundle.orders@.len() as usize,
            restock_requests: bundle.restock_requests@.len() as usize,
            stock: bundle.stock@.len() as usize,
            suppliers: bundle.suppliers@.len() as usize,
            valve_photos: bundle.valve_photos@.len() as usize,
            valves: bundle.valves@.len() as usize,
        }),
{
    SourceCounts {
        maintenance_records: bundle.maintenance_records.len(),
        orders: bundle.orders.len(),
        restock_requests: bundle.restock_requests.len(),
        stock: bundle.stock.len(),
        suppliers: bundle.suppliers.len(),
        valve_photos: bundle.valve_photos.len(),
        valves: bundle.valves.len(),
    }
}

/// The name of each kind of record with its count, in the order of the names.
pub open spec fn source_entries(c: SourceCounts) -> Seq<(Seq<char>, usize)> {
    seq![
        ("maintenance_records"@, c.maintenance_records),
        ("orders"@, c.orders),
        ("restock_requests"@, c.restock_requests),
        ("stock"@, c.stock),
        ("suppliers"@, c.suppliers),
        ("valve_photos"@, c.valve_photos),
        ("valves"@, c.valves),
    ]
}

/// The texts of named counts.
pub open spec fn entry_views(v: Seq<(String, usize)>) -> Seq<(Seq<char>, usize)> {
    v.map_values(|e: (String, usize)| (e.0@, e.1))
}

impl SourceCounts {
    /// The name of each kind of record with its count, in the order of the names.
    pub fn entries(&self) -> (r: Vec<(String, usize)>)
        ensures
            entry_views(r@) == source_entries(*self),
    {
        let r = vec![
            (owned("maintenance_records"), self.maintenance_records),
            (owned("orders"), self.orders),
            (owned("restock_requests"), self.restock_requests),
            (owned("stock"), self.stock),
            (owned("suppliers"), self.suppliers),
            (owned("valve_photos"), self.valve_photos),
            (owned("valves"), self.valves),
        ];
        assert(entry_views(r@) =~= source_entries(*self));
        r
    }
}

/// How many records of each kind an import added.
#[derive(Debug, Clone, Copy, PartialEq, Eq, Structural)]
pub struct ImportCounts {
    pub inspections: usize,
    pub item_categories: usize,
    pub machine_items: usize,
    pub machines: usize,
    pub photos: usize,
    pub restock_requests: usize,
    pub service_orders: usize,
    pub stock_items: usize,
    pub suppliers: usize,
}

/// One named count, when it is not zero.
pub open spec fn entry_if(name: Seq<char>, n: usize) -> Seq<(Seq<char>, usize)> {
    if n > 0 {
        seq![(name, n)]
    } else {
        Seq::empty()
    }
}

/// The kinds of record an import added, with how many, in the order of their names.
pub open spec fn import_entries(c: ImportCounts) -> Seq<(Seq<char>, usize)> {
    entry_if("inspections"@, c.inspections) + entry_if("item_categories"@, c.item_categories)
        + entry_if("machine_items"@, c.machine_items) + entry_if("machines"@, c.machines)
        + entry_if("photos"@, c.photos) + entry_if("restock_requests"@, c.restock_requests)
        + entry_if("service_orders"@, c.service_orders) + entry_if("stock_items"@, c.stock_items)
        + entry_if("suppliers"@, c.suppliers)
}

/// The number of records an import added.
pub open spec fn import_total(c: ImportCounts) -> int {
    c.inspections + c.item_categories + c.machine_items + c.machines + c.photos
        + c.restock_requests + c.service_orders + c.stock_items + c.suppliers
}

/// The count of the kind named `name`, when the import added any.
pub open spec fn import_count_of(c: ImportCounts, name: Seq<char>) -> Option<usize> {
    let n = if name == "inspections"@ {
        c.inspections
    } else if name == "item_categories"@ {
        c.item_categories
    } else if name == "machine_items"@ {
        c.machine_items
    } else if name == "machines"@ {
        c.machines
    } else if name == "photos"@ {
        c.photos
    } else if name == "restock_requests"@ {
        c.restock_requests
    } else if name == "service_orders"@ {
        c.service_orders
    } else if name == "stock_items"@ {
        c.stock_items
    } else if name == "suppliers"@ {
        c.suppliers
    } else {
        0
    };
    if n > 0 {
        Some(n)
    } else {
        None
    }
}

fn push_entry(v: &mut Vec<(String, usize)>, name: &str, n: usize)
    ensures
        entry_views(final(v)@) == entry_views(old(v)@) + entry_if(name@, n),
{
    let ghost before = entry_views(v@);
    if n > 0 {
        v.push((owned(name), n));
        assert(entry_views(v@) =~= before + entry_if(name@, n));
    } else {
        assert(entry_views(v@) =~= before + entry_if(name@, n));
    }
}

impl ImportCounts {
    /// Nothing imported yet.
    pub fn none() -> (r: Self)
        ensures
            import_total(r) == 0,
            r == (ImportCounts {
                inspections: 0,
                item_categories: 0,
                machine_items: 0,
                machines: 0,
                photos: 0,
                restock_requests: 0,
                service_orders: 0,
                stock_items: 0,
                suppliers: 0,
            }),
    {
        ImportCounts {
            inspections: 0,
            item_categories: 0,
            machine_items: 0,
            machines: 0,
            photos: 0,
            restock_requests: 0,
            service_orders: 0,
            stock_items: 0,
            suppliers: 0,
        }
    }

    /// How many records of the kind named `name` the import added, when it added any.
    pub fn get(&self, name: &str) -> (r: Option<usize>)
        ensures
            r == import_count_of(*self, name@),
    {
        let n = if crate::text::str_equal(name, "inspections") {
            self.inspections
        } else if crate::text::str_equal(name, "item_categories") {
            self.item_categories
        } else if crate::text::str_equal(name, "machine_items") {
            self.machine_items
        } else if crate::text::str_equal(name, "machines") {
            self.machines
        } else if crate::text::str_equal(name, "photos") {
            self.photos
        } else if crate::text::str_equal(name, "restock_requests") {
            self.restock_requests
        } else if crate::text::str_equal(name, "service_orders") {
            self.service_orders
        } else if crate::text::str_equal(name, "stock_items") {
            self.stock_items
        } else if crate::text::str_equal(name, "suppliers") {
            self.suppliers
        } else {
            0
        };
        if n > 0 {
            Some(n)
        } else {
            None
        }
    }

    /// The number of records the import added.
    pub fn total(&self) -> (r: u128)
        ensures
            r == import_total(*self),
    {
        self.inspections as u128 + self.item_categories as u128 + self.machine_items as u128
            + self.machines as u128 + self.photos as u128 + self.restock_requests as u128
            + self.service_orders as u128 + self.stock_items as u128 + self.suppliers as u128
    }

    /// The kinds of record the import added, with how many, in the order of their names.
    pub fn entries(&self) -> (r: Vec<(String, usize)>)
        ensures
            entry_views(r@) == import_entries(*self),
    {
        let mut v: Vec<(String, usize)> = Vec::new();
        assert(entry_views(v@) =~= Seq::<(Seq<char>, usize)>::empty());
        push_entry(&mut v, "inspections", self.inspections);
        push_entry(&mut v, "item_categories", self.item_categories);
        push_entry(&mut v, "machine_items", self.machine_items);
        push_entry(&mut v, "machines", self.machines);
        push_entry(&mut v, "photos", self.photos);
        push_entry(&mut v, "restock_requests", self.restock_requests);
        push_entry(&mut v, "service_orders", self.service_orders);
        push_entry(&mut v, "stock_items", self.stock_items);
        push_entry(&mut v, "suppliers", self.suppliers);
        assert(entry_views(v@) =~= import_entries(*self));
        v
    }
}

/// What importing a bundle did, or would do in a dry run.
#[derive(Debug, Clone)]
pub struct MigrationReport {
    pub source: String,
    pub batch_id: String,
    pub checksum: String,
    pub dry_run: bool,
    pub source_counts: SourceCounts,
    pub imported_counts: ImportCounts,
    pub warnings: Vec<String>,
}

/// The records an import adds to the state, by kind, in the order they are added.
#[derive(Debug, Clone)]
pub struct ImportAdditions {
    pub item_categories: Vec<ItemCategory>,
    pub machines: Vec<Machine>,
    pub machine_items: Vec<MachineItem>,
    pub stock_items: Vec<StockItem>,
    pub inspections: Vec<ItemInspection>,
    pub service_orders: Vec<ServiceOrder>,
    pub restock_requests: Vec<RestockRequest>,
    pub suppliers: Vec<Supplier>,
    pub photos: Vec<PhotoAsset>,
}

impl ImportAdditions {
    /// Nothing added yet.
    pub fn none() -> (r: Self)
        ensures
            r.item_categories@.len() == 0,
            r.machines@.len() == 0,
            r.machine_items@.len() == 0,
            r.stock_items@.len() == 0,
            r.inspections@.len() == 0,
            r.service_orders@.len() == 0,
            r.restock_requests@.len() == 0,
            r.suppliers@.len() == 0,
            r.photos@.len() == 0,
    {
        ImportAdditions {
            item_categories: Vec::new(),
            machines: Vec::new(),
            machine_items: Vec::new(),
            stock_items: Vec::new(),
            inspections: Vec::new(),
            service_orders: Vec::new(),
            restock_requests: Vec::new(),
            suppliers: Vec::new(),
            photos: Vec::new(),
        }
    }

    /// How many records of each kind are added.
    pub fn counts(&self) -> (r: ImportCounts)
        ensures
            r == additions_counts(*self),
    {
        ImportCounts {
            inspections: self.inspections.len(),
            item_categories: self.item_categories.len(),
            machine_items: self.machine_items.len(),
            machines: self.machines.len(),
            photos: self.photos.len(),
            restock_requests: self.restock_requests.len(),
            service_orders: self.service_orders.len(),
            stock_items: self.stock_items.len(),
            suppliers: self.suppliers.len(),
        }
    }
}

/// How many records of each kind `a` adds.
pub open spec fn additions_counts(a: ImportAdditions) -> ImportCounts {
    ImportCounts {
        inspections: a.inspections@.len() as usize,
        item_categories: a.item_categories@.len() as usize,
        machine_items: a.machine_items@.len() as usize,
        machines: a.machines@.len() as usize,
        photos: a.photos@.len() as usize,
        restock_requests: a.restock_requests@.len() as usize,
        service_orders: a.service_orders@.len() as usize,
        stock_items: a.stock_items@.len() as usize,
        suppliers: a.suppliers@.len() as usize,
    }
}

} // verus!
