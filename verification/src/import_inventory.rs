//! Importing the inventory of a legacy bundle: stock entries (and an empty entry for each
//! part number its items name), restock requests and suppliers.
use vstd::prelude::*;

use crate::bundle::{ImportAdditions, LegacyBundle, LegacyRestock, LegacyStock, LegacySupplier};
use crate::fingerprint::{hash, hash_text};
use crate::legacy_terms::{legacy_word, restock_status, restock_status_for};
use crate::lookup::{contains_id, some_has_id};
use crate::model::{copy_text, MachineItem, RestockRequest, RestockStatus, StockItem, Supplier};
use crate::policy::{normalize_reference, normalized_identifier};
use crate::text::{
    blank, chars_of, clean_optional, clean_spec, concat2, concat3, is_blank, opt_view, owned,
    str_equal, to_uppercase, trim, trimmed, uppercase_of,
};
use crate::text_order::{is_sorted_set, sorted_set, views};

verus! {

/// Some stock entry of `stock` has normalized reference `reference`.
pub open spec fn stock_has(stock: Seq<StockItem>, reference: Seq<char>) -> bool {
    exists|k: int| 0 <= k < stock.len() && (#[trigger] stock[k]).reference_normalized@ == reference
}

fn any_stock(stock: &Vec<StockItem>, reference: &str) -> (r: bool)
    ensures
        r == stock_has(stock@, reference@),
{
    let mut i: usize = 0;
    while i < stock.len()
        invariant
            i <= stock@.len(),
            forall|k: int| 0 <= k < i ==> (#[trigger] stock@[k]).reference_normalized@ != reference@,
        decreases stock@.len() - i,
    {
        if str_equal(stock[i].reference_normalized.as_str(), reference) {
            return true;
        }
        i += 1;
    }
    false
}

/// A planned stock entry: the legacy entry and its normalized reference.
pub type StockEntry = (LegacyStock, Seq<char>);

/// The stock entries the legacy entries become and the warnings they raise, in order: an
/// entry with an empty reference is skipped with a warning, one whose reference is in
/// stock already is skipped silently, and one whose brand stands in for a missing
/// manufacturer while it has a location is kept with a warning.
pub open spec fn stock_plan(stock: Seq<StockItem>, records: Seq<LegacyStock>) -> (Seq<StockEntry>, Seq<Seq<char>>)
    decreases records.len(),
{
    if records.len() == 0 {
        (Seq::empty(), Seq::empty())
    } else {
        let (plan, warnings) = stock_plan(stock, records.drop_last());
        let old = records.last();
        let reference = normalized_identifier(old.reference@);
        if reference.len() == 0 {
            (plan, warnings.push("stock skipped: empty reference"@))
        } else if stock_has(stock, reference) || exists|k: int|
            0 <= k < plan.len() && (#[trigger] plan[k]).1 == reference {
            (plan, warnings)
        } else if old.manufacturer is None && old.brand is Some && old.location is Some {
            (
                plan.push((old, reference)),
                warnings.push(
                    "stock "@ + reference + ": brand mapped to manufacturer; location preserved"@,
                ),
            )
        } else {
            (plan.push((old, reference)), warnings)
        }
    }
}

/// `s` is the stock entry planned as `e`.
pub open spec fn is_imported_stock(s: StockItem, e: StockEntry, now: u64) -> bool {
    &&& s.id@ == "legacy-stock-"@ + hash_text(e.1)
    &&& s.reference@ == e.1
    &&& s.reference_normalized@ == e.1
    &&& s.quantity == e.0.quantity
    &&& s.minimum_quantity == e.0.min_quantity
    &&& opt_view(s.manufacturer) == match clean_spec(opt_view(e.0.manufacturer)) {
        Some(m) => Some(m),
        None => clean_spec(opt_view(e.0.brand)),
    }
    &&& opt_view(s.location) == clean_spec(opt_view(e.0.location))
    &&& s.created_at_ms == now
    &&& s.updated_at_ms == now
}

/// The part numbers the items name, in order.
pub open spec fn part_numbers(items: Seq<MachineItem>) -> Seq<Seq<char>> {
    items.filter(|it: MachineItem| it.replacement_specification.part_number is Some).map_values(
        |it: MachineItem| it.replacement_specification.part_number->0@,
    )
}

/// The part numbers that get an empty stock entry, in order: each of `refs` that is not in
/// `stock`, among the `planned` entries, nor among the references taken before it.
pub open spec fn refs_taken(stock: Seq<StockItem>, planned: Seq<StockEntry>, refs: Seq<Seq<char>>) -> Seq<
    Seq<char>,
>
    decreases refs.len(),
{
    if refs.len() == 0 {
        Seq::empty()
    } else {
        let prev = refs_taken(stock, planned, refs.drop_last());
        let r = refs.last();
        if stock_has(stock, r) || (exists|k: int| 0 <= k < planned.len() && (#[trigger] planned[k]).1 == r)
            || prev.contains(r) {
            prev
        } else {
            prev.push(r)
        }
    }
}

/// `s` is the empty stock entry made for part number `reference`.
pub open spec fn is_auto_stock(s: StockItem, reference: Seq<char>, now: u64) -> bool {
    &&& s.id@ == "legacy-stock-auto-"@ + hash_text(reference)
    &&& s.reference@ == reference
    &&& s.reference_normalized@ == reference
    &&& s.quantity == 0
    &&& s.minimum_quantity == 0
    &&& s.manufacturer is None
    &&& s.location is None
    &&& s.created_at_ms == now
    &&& s.updated_at_ms == now
}

/// The sorted set of the part numbers the items name.
pub open spec fn sorted_part_numbers(items: Seq<MachineItem>) -> Seq<Seq<char>> {
    choose|zs: Seq<Seq<char>>| is_sorted_set(part_numbers(items), zs)
}

fn push_part_numbers(items: &Vec<MachineItem>, out: &mut Vec<String>)
    ensures
        views(final(out)@) == views(old(out)@) + part_numbers(items@),
{
    let ghost p = |it: MachineItem| it.replacement_specification.part_number is Some;
    let ghost f = |it: MachineItem| it.replacement_specification.part_number->0@;
    let ghost start = views(out@);
    let mut i: usize = 0;
    while i < items.len()
        invariant
            i <= items@.len(),
            p == (|it: MachineItem| it.replacement_specification.part_number is Some),
            f == (|it: MachineItem| it.replacement_specification.part_number->0@),
            views(out@) == start + items@.take(i as int).filter(p).map_values(f),
        decreases items@.len() - i,
    {
        proof {
            let t = items@.take(i + 1);
            assert(t.drop_last() == items@.take(i as int));
            reveal(Seq::filter);
        }
        let it = &items[i];
        let ghost before = items@.take(i as int).filter(p);
        if let Some(part) = &it.replacement_specification.part_number {
            let ghost o = views(out@);
            out.push(part.clone());
            proof {
                assert(items@.take(i + 1).filter(p) == before.push(*it));
                assert(views(out@) =~= o.push(part@));
                assert(before.push(*it).map_values(f) =~= before.map_values(f).push(f(*it)));
            }
        } else {
            proof {
                assert(items@.take(i + 1).filter(p) == before);
            }
        }
        i += 1;
    }
    proof {
        assert(items@.take(i as int) == items@);
    }
}

fn part_number_texts(items: &Vec<MachineItem>, more: &Vec<MachineItem>) -> (r: Vec<String>)
    ensures
        views(r@) == part_numbers(items@ + more@),
{
    let mut out: Vec<String> = Vec::new();
    assert(views(out@) =~= Seq::<Seq<char>>::empty());
    push_part_numbers(items, &mut out);
    push_part_numbers(more, &mut out);
    proof {
        let p = |it: MachineItem| it.replacement_specification.part_number is Some;
        let f = |it: MachineItem| it.replacement_specification.part_number->0@;
        Seq::filter_distributes_over_add(items@, more@, p);
        assert((items@.filter(p) + more@.filter(p)).map_values(f) =~= items@.filter(p).map_values(f)
            + more@.filter(p).map_values(f));
        assert(Seq::<Seq<char>>::empty() + part_numbers(items@) =~= part_numbers(items@));
    }
    out
}

fn imported_stock(old: &LegacyStock, reference: &str, now: u64) -> (r: StockItem)
    ensures
        is_imported_stock(r, (*old, reference@), now),
{
    let manufacturer = match clean_optional(copy_text(&old.manufacturer)) {
        Some(m) => Some(m),
        None => clean_optional(copy_text(&old.brand)),
    };
    StockItem {
        id: concat2("legacy-stock-", hash(reference).as_str()),
        reference: owned(reference),
        reference_normalized: owned(reference),
        quantity: old.quantity,
        minimum_quantity: old.min_quantity,
        manufacturer,
        location: clean_optional(copy_text(&old.location)),
        created_at_ms: now,
        updated_at_ms: now,
    }
}

fn auto_stock(reference: &str, now: u64) -> (r: StockItem)
    ensures
        is_auto_stock(r, reference@, now),
{
    StockItem {
        id: concat2("legacy-stock-auto-", hash(reference).as_str()),
        reference: owned(reference),
        reference_normalized: owned(reference),
        quantity: 0,
        minimum_quantity: 0,
        manufacturer: None,
        location: None,
        created_at_ms: now,
        updated_at_ms: now,
    }
}

/// Adds a stock entry for each legacy entry whose reference is not in stock yet, then an
/// empty entry for each part number the items name that is still not in stock (see
/// `stock_plan` and `refs_taken`).
pub fn import_stock(
    bundle: &LegacyBundle,
    stock: &Vec<StockItem>,
    items: &Vec<MachineItem>,
    added: &mut ImportAdditions,
    warnings: &mut Vec<String>,
    now: u64,
)
    ensures
        *final(added) == (ImportAdditions { stock_items: final(added).stock_items, ..*old(added) }),
        ({
            let existing = stock@ + old(added).stock_items@;
            let (plan, ws) = stock_plan(existing, bundle.stock@);
            let autos = refs_taken(
                existing,
                plan,
                sorted_part_numbers(items@ + old(added).machine_items@),
            );
            let n = old(added).stock_items@.len();
            let out = final(added).stock_items@;
            &&& out.len() == n + plan.len() + autos.len()
            &&& out.take(n as int) == old(added).stock_items@
            &&& forall|k: int| 0 <= k < plan.len() ==> is_imported_stock(#[trigger] out[n + k], plan[k], now)
            &&& forall|k: int|
                0 <= k < autos.len() ==> is_auto_stock(#[trigger] out[n + plan.len() + k], autos[k], now)
            &&& views(final(warnings)@) == views(old(warnings)@) + ws
        }),
{
    let ghost start = *added;
    let ghost w0 = views(warnings@);
    let ghost n = added.stock_items@.len();
    let ghost existing = stock@ + added.stock_items@;
    let records = &bundle.stock;
    let mut i: usize = 0;
    while i < records.len()
        invariant
            i <= records@.len(),
            records@ == bundle.stock@,
            n == start.stock_items@.len(),
            existing == stock@ + start.stock_items@,
            *added == (ImportAdditions { stock_items: added.stock_items, ..start }),
            added.stock_items@.len() == n + stock_plan(existing, records@.take(i as int)).0.len(),
            added.stock_items@.take(n as int) == start.stock_items@,
            forall|k: int|
                0 <= k < stock_plan(existing, records@.take(i as int)).0.len() ==> is_imported_stock(
                    #[trigger] added.stock_items@[n + k],
                    stock_plan(existing, records@.take(i as int)).0[k],
                    now,
                ),
            views(warnings@) == w0 + stock_plan(existing, records@.take(i as int)).1,
        decreases records@.len() - i,
    {
        let ghost plan = stock_plan(existing, records@.take(i as int)).0;
        let old_entry = &records[i];
        proof {
            let t = records@.take(i + 1);
            assert(t.drop_last() == records@.take(i as int));
            assert(t.last() == *old_entry);
        }
        let reference = normalize_reference(old_entry.reference.as_str());
        if chars_of(reference.as_str()).len() == 0 {
            let ghost wv = views(warnings@);
            warnings.push(owned("stock skipped: empty reference"));
            proof {
                assert(views(warnings@) == wv.push(views(warnings@).last()));
            }
        } else {
            let known = any_stock(stock, reference.as_str()) || any_stock(
                &added.stock_items,
                reference.as_str(),
            );
            proof {
                let a = added.stock_items@;
                assert(a == start.stock_items@ + a.skip(n as int));
                if stock_has(existing, reference@) {
                    let k = choose|k: int| 0 <= k < existing.len() && (#[trigger] existing[k]).reference_normalized@ == reference@;
                    if k < stock@.len() {
                        assert(stock@[k] == existing[k]);
                    } else {
                        assert(a[k - stock@.len()] == existing[k]);
                    }
                }
                if exists|k: int| 0 <= k < plan.len() && (#[trigger] plan[k]).1 == reference@ {
                    let k = choose|k: int| 0 <= k < plan.len() && (#[trigger] plan[k]).1 == reference@;
                    assert(is_imported_stock(a[n + k], plan[k], now));
                }
                if known {
                    if stock_has(stock@, reference@) {
                        let k = choose|k: int| 0 <= k < stock@.len() && (#[trigger] stock@[k]).reference_normalized@ == reference@;
                        assert(existing[k] == stock@[k]);
                    } else {
                        let k = choose|k: int| 0 <= k < a.len() && (#[trigger] a[k]).reference_normalized@ == reference@;
                        if k < n {
                            assert(existing[stock@.len() + k] == a[k]);
                        } else {
                            assert(is_imported_stock(a[n + (k - n)], plan[k - n], now));
                        }
                    }
                }
            }
            if !known {
                if old_entry.manufacturer.is_none() && old_entry.brand.is_some()
                    && old_entry.location.is_some() {
                    let ghost wv = views(warnings@);
                    warnings.push(
                        concat3(
                            "stock ",
                            reference.as_str(),
                            ": brand mapped to manufacturer; location preserved",
                        ),
                    );
                    proof {
                        assert(views(warnings@) == wv.push(views(warnings@).last()));
                    }
                }
                let entry = imported_stock(old_entry, reference.as_str(), now);
                let ghost before = added.stock_items@;
                added.stock_items.push(entry);
                proof {
                    assert(added.stock_items@ == before.push(entry));
                    assert(added.stock_items@.take(n as int) == start.stock_items@);
                    let p2 = stock_plan(existing, records@.take(i + 1)).0;
                    assert(p2 == plan.push((*old_entry, reference@)));
                    assert forall|k: int| 0 <= k < p2.len() implies is_imported_stock(
                        #[trigger] added.stock_items@[n + k],
                        p2[k],
                        now,
                    ) by {
                        if k < plan.len() {
                            assert(added.stock_items@[n + k] == before[n + k]);
                        }
                    }
                }
            }
        }
        i += 1;
    }
    proof {
        assert(records@.take(i as int) == records@);
    }
    let ghost plan = stock_plan(existing, bundle.stock@).0;
    let ghost m = n + plan.len();
    let texts = part_number_texts(items, &added.machine_items);
    let refs = sorted_set(&texts);
    let ghost rv = views(refs@);
    proof {
        let all = part_numbers(items@ + start.machine_items@);
        let c = sorted_part_numbers(items@ + start.machine_items@);
        assert(is_sorted_set(all, rv));
        assert(is_sorted_set(all, c));
        crate::text_order::lemma_sorted_set_unique(c, rv);
    }
    let mut j: usize = 0;
    while j < refs.len()
        invariant
            j <= refs@.len(),
            rv == views(refs@),
            rv == sorted_part_numbers(items@ + start.machine_items@),
            n == start.stock_items@.len(),
            plan == stock_plan(existing, bundle.stock@).0,
            m == n + plan.len(),
            existing == stock@ + start.stock_items@,
            *added == (ImportAdditions { stock_items: added.stock_items, ..start }),
            added.stock_items@.len() == m + refs_taken(existing, plan, rv.take(j as int)).len(),
            added.stock_items@.take(n as int) == start.stock_items@,
            forall|k: int| 0 <= k < plan.len() ==> is_imported_stock(#[trigger] added.stock_items@[n + k], plan[k], now),
            forall|k: int|
                0 <= k < refs_taken(existing, plan, rv.take(j as int)).len() ==> is_auto_stock(
                    #[trigger] added.stock_items@[m + k],
                    refs_taken(existing, plan, rv.take(j as int))[k],
                    now,
                ),
            views(warnings@) == w0 + stock_plan(existing, bundle.stock@).1,
        decreases refs@.len() - j,
    {
        let ghost prev = refs_taken(existing, plan, rv.take(j as int));
        let r = &refs[j];
        proof {
            let t = rv.take(j + 1);
            assert(t.drop_last() == rv.take(j as int));
            assert(t.last() == r@);
        }
        let known = any_stock(stock, r.as_str()) || any_stock(&added.stock_items, r.as_str());
        proof {
            let a = added.stock_items@;
            assert(a == start.stock_items@ + a.skip(n as int));
            let in_plan = exists|k: int| 0 <= k < plan.len() && (#[trigger] plan[k]).1 == r@;
            if stock_has(existing, r@) {
                let k = choose|k: int| 0 <= k < existing.len() && (#[trigger] existing[k]).reference_normalized@ == r@;
                if k < stock@.len() {
                    assert(stock@[k] == existing[k]);
                } else {
                    assert(a[k - stock@.len()] == existing[k]);
                }
            }
            if in_plan {
                let k = choose|k: int| 0 <= k < plan.len() && (#[trigger] plan[k]).1 == r@;
                assert(is_imported_stock(a[n + k], plan[k], now));
            }
            if prev.contains(r@) {
                let k = choose|k: int| 0 <= k < prev.len() && prev[k] == r@;
                assert(is_auto_stock(a[m + k], prev[k], now));
            }
            if known {
                if stock_has(stock@, r@) {
                    let k = choose|k: int| 0 <= k < stock@.len() && (#[trigger] stock@[k]).reference_normalized@ == r@;
                    assert(existing[k] == stock@[k]);
                } else {
                    let k = choose|k: int| 0 <= k < a.len() && (#[trigger] a[k]).reference_normalized@ == r@;
                    if k < n {
                        assert(existing[stock@.len() + k] == a[k]);
                    } else if k < m {
                        assert(is_imported_stock(a[n + (k - n)], plan[k - n], now));
                    } else {
                        assert(is_auto_stock(a[m + (k - m)], prev[k - m], now));
                        assert(prev[k - m] == r@);
                    }
                }
            }
        }
        if !known {
            let entry = auto_stock(r.as_str(), now);
            let ghost before = added.stock_items@;
            added.stock_items.push(entry);
            proof {
                assert(added.stock_items@ == before.push(entry));
                assert(added.stock_items@.take(n as int) == start.stock_items@);
                let p2 = refs_taken(existing, plan, rv.take(j + 1));
                assert(p2 == prev.push(r@));
                assert forall|k: int| 0 <= k < plan.len() implies is_imported_stock(
                    #[trigger] added.stock_items@[n + k],
                    plan[k],
                    now,
                ) by {
                    assert(added.stock_items@[n + k] == before[n + k]);
                }
                assert forall|k: int| 0 <= k < p2.len() implies is_auto_stock(
                    #[trigger] added.stock_items@[m + k],
                    p2[k],
                    now,
                ) by {
                    if k < prev.len() {
                        assert(added.stock_items@[m + k] == before[m + k]);
                    }
                }
            }
        }
        j += 1;
    }
    proof {
        assert(rv.take(j as int) == rv);
    }
}

/// The identifier an imported restock request gets.
pub open spec fn restock_id(old: LegacyRestock) -> Seq<char> {
    "legacy-restock-"@ + hash_text(normalized_identifier(old.reference@) + "|"@ + old.reason@)
}

/// The legacy requests imported, in order: each whose identifier is not taken by a request
/// of `requests` nor by one imported before it.
pub open spec fn restock_plan(requests: Seq<RestockRequest>, records: Seq<LegacyRestock>) -> Seq<LegacyRestock>
    decreases records.len(),
{
    if records.len() == 0 {
        Seq::empty()
    } else {
        let prev = restock_plan(requests, records.drop_last());
        let id = restock_id(records.last());
        if some_has_id(requests, id) || exists|k: int| 0 <= k < prev.len() && restock_id(#[trigger] prev[k]) == id {
            prev
        } else {
            prev.push(records.last())
        }
    }
}

/// `r` is the request legacy request `old` becomes.
pub open spec fn is_imported_restock(r: RestockRequest, old: LegacyRestock, now: u64) -> bool {
    &&& r.id@ == restock_id(old)
    &&& r.reference@ == normalized_identifier(old.reference@)
    &&& r.reason == old.reason
    &&& r.requested_by@ == match old.requested_by {
        Some(by) => by@,
        None => "legacy"@,
    }
    &&& r.status == restock_status_for(legacy_word(old.status@))
    &&& r.reviewed_by is None
    &&& r.reviewed_at_ms is None
    &&& r.created_at_ms == now
}

fn text_or_legacy(value: &Option<String>) -> (r: String)
    ensures
        r@ == match value {
            Some(v) => v@,
            None => "legacy"@,
        },
{
    match value {
        Some(v) => v.clone(),
        None => owned("legacy"),
    }
}

/// Adds each legacy restock request whose identifier is not taken yet.
pub fn import_restock(
    bundle: &LegacyBundle,
    requests: &Vec<RestockRequest>,
    added: &mut ImportAdditions,
    now: u64,
)
    ensures
        *final(added) == (ImportAdditions { restock_requests: final(added).restock_requests, ..*old(added) }),
        ({
            let plan = restock_plan(requests@ + old(added).restock_requests@, bundle.restock_requests@);
            let n = old(added).restock_requests@.len();
            let out = final(added).restock_requests@;
            &&& out.len() == n + plan.len()
            &&& out.take(n as int) == old(added).restock_requests@
            &&& forall|k: int| 0 <= k < plan.len() ==> is_imported_restock(#[trigger] out[n + k], plan[k], now)
        }),
{
    let ghost start = *added;
    let ghost n = added.restock_requests@.len();
    let ghost existing = requests@ + added.restock_requests@;
    let records = &bundle.restock_requests;
    let mut i: usize = 0;
    while i < records.len()
        invariant
            i <= records@.len(),
            records@ == bundle.restock_requests@,
            n == start.restock_requests@.len(),
            existing == requests@ + start.restock_requests@,
            *added == (ImportAdditions { restock_requests: added.restock_requests, ..start }),
            added.restock_requests@.len() == n + restock_plan(existing, records@.take(i as int)).len(),
            added.restock_requests@.take(n as int) == start.restock_requests@,
            forall|k: int|
                0 <= k < restock_plan(existing, records@.take(i as int)).len() ==> is_imported_restock(
                    #[trigger] added.restock_requests@[n + k],
                    restock_plan(existing, records@.take(i as int))[k],
                    now,
                ),
        decreases records@.len() - i,
    {
        let ghost plan = restock_plan(existing, records@.take(i as int));
        let old_entry = &records[i];
        proof {
            let t = records@.take(i + 1);
            assert(t.drop_last() == records@.take(i as int));
            assert(t.last() == *old_entry);
        }
        let reference = normalize_reference(old_entry.reference.as_str());
        let id = concat2(
            "legacy-restock-",
            hash(concat3(reference.as_str(), "|", old_entry.reason.as_str()).as_str()).as_str(),
        );
        let known = contains_id(requests, id.as_str()) || contains_id(&added.restock_requests, id.as_str());
        proof {
            let a = added.restock_requests@;
            assert(a == start.restock_requests@ + a.skip(n as int));
            if some_has_id(existing, id@) {
                let k = choose|k: int| 0 <= k < existing.len() && (#[trigger] existing[k]).id@ == id@;
                if k < requests@.len() {
                    assert(requests@[k] == existing[k]);
                } else {
                    assert(a[k - requests@.len()] == existing[k]);
                }
            }
            if exists|k: int| 0 <= k < plan.len() && restock_id(#[trigger] plan[k]) == id@ {
                let k = choose|k: int| 0 <= k < plan.len() && restock_id(#[trigger] plan[k]) == id@;
                assert(is_imported_restock(a[n + k], plan[k], now));
            }
            if known {
                if some_has_id(requests@, id@) {
                    let k = choose|k: int| 0 <= k < requests@.len() && (#[trigger] requests@[k]).id@ == id@;
                    assert(existing[k] == requests@[k]);
                } else {
                    let k = choose|k: int| 0 <= k < a.len() && (#[trigger] a[k]).id@ == id@;
                    if k < n {
                        assert(existing[requests@.len() + k] == a[k]);
                    } else {
                        assert(is_imported_restock(a[n + (k - n)], plan[k - n], now));
                    }
                }
            }
        }
        if !known {
            let request = RestockRequest {
                id,
                reference,
                reason: old_entry.reason.clone(),
                requested_by: text_or_legacy(&old_entry.requested_by),
                status: restock_status(old_entry.status.as_str()),
                reviewed_by: None,
                reviewed_at_ms: None,
                created_at_ms: now,
            };
            let ghost before = added.restock_requests@;
            added.restock_requests.push(request);
            proof {
                assert(added.restock_requests@ == before.push(request));
                assert(added.restock_requests@.take(n as int) == start.restock_requests@);
                let p2 = restock_plan(existing, records@.take(i + 1));
                assert(p2 == plan.push(*old_entry));
                assert forall|k: int| 0 <= k < p2.len() implies is_imported_restock(
                    #[trigger] added.restock_requests@[n + k],
                    p2[k],
                    now,
                ) by {
                    if k < plan.len() {
                        assert(added.restock_requests@[n + k] == before[n + k]);
                    }
                }
            }
        }
        i += 1;
    }
    proof {
        assert(records@.take(i as int) == records@);
    }
}

/// The identifier an imported supplier gets.
pub open spec fn supplier_id(old: LegacySupplier) -> Seq<char> {
    "legacy-supplier-"@ + hash_text(uppercase_of(trim(old.name@)))
}

/// The legacy suppliers imported and the warnings for those skipped, in order: a supplier
/// with a blank name or contact is skipped with a warning, one whose identifier is taken
/// is skipped silently.
pub open spec fn supplier_plan(suppliers: Seq<Supplier>, records: Seq<LegacySupplier>) -> (Seq<LegacySupplier>, Seq<Seq<char>>)
    decreases records.len(),
{
    if records.len() == 0 {
        (Seq::empty(), Seq::empty())
    } else {
        let (prev, warnings) = supplier_plan(suppliers, records.drop_last());
        let old = records.last();
        if is_blank(old.name@) || is_blank(old.contact@) {
            (prev, warnings.push("supplier skipped: name/contact required ("@ + old.name@ + ")"@))
        } else if some_has_id(suppliers, supplier_id(old)) || exists|k: int|
            0 <= k < prev.len() && supplier_id(#[trigger] prev[k]) == supplier_id(old) {
            (prev, warnings)
        } else {
            (prev.push(old), warnings)
        }
    }
}

/// `s` is the supplier legacy supplier `old` becomes.
pub open spec fn is_imported_supplier(s: Supplier, old: LegacySupplier, now: u64) -> bool {
    &&& s.id@ == supplier_id(old)
    &&& s.name@ == trim(old.name@)
    &&& s.contact@ == trim(old.contact@)
    &&& opt_view(s.email) == clean_spec(opt_view(old.email))
    &&& opt_view(s.website) == clean_spec(opt_view(old.website))
    &&& opt_view(s.notes) == clean_spec(opt_view(old.notes))
    &&& s.created_by@ == match old.created_by {
        Some(by) => by@,
        None => "legacy"@,
    }
    &&& s.created_at_ms == now
    &&& s.updated_at_ms == now
}

/// Adds each legacy supplier with a name and a contact whose identifier is not taken
/// yet, and a warning for each supplier without them.
pub fn import_suppliers(
    bundle: &LegacyBundle,
    suppliers: &Vec<Supplier>,
    added: &mut ImportAdditions,
    warnings: &mut Vec<String>,
    now: u64,
)
    ensures
        *final(added) == (ImportAdditions { suppliers: final(added).suppliers, ..*old(added) }),
        ({
            let (plan, ws) = supplier_plan(suppliers@ + old(added).suppliers@, bundle.suppliers@);
            let n = old(added).suppliers@.len();
            let out = final(added).suppliers@;
            &&& out.len() == n + plan.len()
            &&& out.take(n as int) == old(added).suppliers@
            &&& forall|k: int| 0 <= k < plan.len() ==> is_imported_supplier(#[trigger] out[n + k], plan[k], now)
            &&& views(final(warnings)@) == views(old(warnings)@) + ws
        }),
{
    let ghost start = *added;
    let ghost w0 = views(warnings@);
    let ghost n = added.suppliers@.len();
    let ghost existing = suppliers@ + added.suppliers@;
    let records = &bundle.suppliers;
    let mut i: usize = 0;
    while i < records.len()
        invariant
            i <= records@.len(),
            records@ == bundle.suppliers@,
            n == start.suppliers@.len(),
            existing == suppliers@ + start.suppliers@,
            *added == (ImportAdditions { suppliers: added.suppliers, ..start }),
            added.suppliers@.len() == n + supplier_plan(existing, records@.take(i as int)).0.len(),
            added.suppliers@.take(n as int) == start.suppliers@,
            forall|k: int|
                0 <= k < supplier_plan(existing, records@.take(i as int)).0.len() ==> is_imported_supplier(
                    #[trigger] added.suppliers@[n + k],
                    supplier_plan(existing, records@.take(i as int)).0[k],
                    now,
                ),
            views(warnings@) == w0 + supplier_plan(existing, records@.take(i as int)).1,
        decreases records@.len() - i,
    {
        let ghost plan = supplier_plan(existing, records@.take(i as int)).0;
        let old_entry = &records[i];
        proof {
            let t = records@.take(i + 1);
            assert(t.drop_last() == records@.take(i as int));
            assert(t.last() == *old_entry);
        }
        if blank(old_entry.name.as_str()) || blank(old_entry.contact.as_str()) {
            let ghost wv = views(warnings@);
            warnings.push(
                concat3("supplier skipped: name/contact required (", old_entry.name.as_str(), ")"),
            );
            proof {
                assert(views(warnings@) == wv.push(views(warnings@).last()));
            }
        } else {
            let name = trimmed(old_entry.name.as_str());
            let id = concat2("legacy-supplier-", hash(to_uppercase(name.as_str()).as_str()).as_str());
            let known = contains_id(suppliers, id.as_str()) || contains_id(&added.suppliers, id.as_str());
            proof {
                let a = added.suppliers@;
                assert(a == start.suppliers@ + a.skip(n as int));
                if some_has_id(existing, id@) {
                    let k = choose|k: int| 0 <= k < existing.len() && (#[trigger] existing[k]).id@ == id@;
                    if k < suppliers@.len() {
                        assert(suppliers@[k] == existing[k]);
                    } else {
                        assert(a[k - suppliers@.len()] == existing[k]);
                    }
                }
                if exists|k: int| 0 <= k < plan.len() && supplier_id(#[trigger] plan[k]) == id@ {
                    let k = choose|k: int| 0 <= k < plan.len() && supplier_id(#[trigger] plan[k]) == id@;
                    assert(is_imported_supplier(a[n + k], plan[k], now));
                }
                if known {
                    if some_has_id(suppliers@, id@) {
                        let k = choose|k: int| 0 <= k < suppliers@.len() && (#[trigger] suppliers@[k]).id@ == id@;
                        assert(existing[k] == suppliers@[k]);
                    } else {
                        let k = choose|k: int| 0 <= k < a.len() && (#[trigger] a[k]).id@ == id@;
                        if k < n {
                            assert(existing[suppliers@.len() + k] == a[k]);
                        } else {
                            assert(is_imported_supplier(a[n + (k - n)], plan[k - n], now));
                        }
                    }
                }
            }
            if !known {
                let supplier = Supplier {
                    id,
                    name,
                    contact: trimmed(old_entry.contact.as_str()),
                    email: clean_optional(copy_text(&old_entry.email)),
                    website: clean_optional(copy_text(&old_entry.website)),
                    notes: clean_optional(copy_text(&old_entry.notes)),
                    created_by: text_or_legacy(&old_entry.created_by),
                    created_at_ms: now,
                    updated_at_ms: now,
                };
                let ghost before = added.suppliers@;
                added.suppliers.push(supplier);
                proof {
                    assert(added.suppliers@ == before.push(supplier));
                    assert(added.suppliers@.take(n as int) == start.suppliers@);
                    let p2 = supplier_plan(existing, records@.take(i + 1)).0;
                    assert(p2 == plan.push(*old_entry));
                    assert forall|k: int| 0 <= k < p2.len() implies is_imported_supplier(
                        #[trigger] added.suppliers@[n + k],
                        p2[k],
                        now,
                    ) by {
                        if k < plan.len() {
                            assert(added.suppliers@[n + k] == before[n + k]);
                        }
                    }
                }
            }
        }
        i += 1;
    }
    proof {
        assert(records@.take(i as int) == records@);
    }
}

} // verus!
