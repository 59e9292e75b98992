//! Reading the assets: the machines (filtered, sorted by zone and code, a page at a time,
//! each with its items, their categories, photos and replacement history) and the
//! categories (filtered, sorted by name, each with the photos of its guide).
use vstd::prelude::*;

use crate::lookup::{index_of_id, position_of_id};
use crate::model::{ItemCategory, Machine, MachineItem, MachineItemReplacement, PhotoAsset, PhotoOwnerType};
use crate::positions::{pair_views, sort_by_pairs, sorted_by_pairs};
use crate::query_support::{
    contains_text, is_empty_text, operational_status_name, photo_positions, photos_of, positions_where,
    status_name, text_contains,
};
use crate::state::ApplicationState;
use crate::text::{str_equal, to_uppercase, uppercase_of};
use crate::text_order::{is_sorted_set, sorted_set, views};

verus! {

/// What the machine list is asked for: texts are already trimmed (the search also
/// uppercased) and empty when not given.
#[derive(Debug, Clone)]
pub struct MachineFilter {
    pub id: String,
    pub search: String,
    pub zone: String,
    pub status: String,
    pub page: usize,
    pub page_size: usize,
    pub include_removed: bool,
}

/// Machine `m` passes the filter.
pub open spec fn machine_selected(m: Machine, f: MachineFilter) -> bool {
    &&& (f.id@.len() == 0 || m.id@ == f.id@)
    &&& (f.search@.len() == 0 || text_contains(m.code_normalized@, f.search@) || text_contains(
        uppercase_of(m.name@),
        f.search@,
    ) || text_contains(uppercase_of(m.zone@), f.search@))
    &&& (f.zone@.len() == 0 || m.zone@ == f.zone@)
    &&& (f.status@.len() == 0 || status_name(m.status) == f.status@)
}

/// The positions of the machines that pass the filter.
pub open spec fn selected_machines(machines: Seq<Machine>, f: MachineFilter) -> Seq<usize> {
    positions_where(machines.len(), |i: int| machine_selected(machines[i], f))
}

/// The zone and code of each selected machine, the order of the list.
pub open spec fn machine_keys(machines: Seq<Machine>, sel: Seq<usize>) -> Seq<(Seq<char>, Seq<char>)> {
    sel.map_values(|k: usize| (machines[k as int].zone@, machines[k as int].code_normalized@))
}

/// How many of `total` rows a page skips: `(page - 1) * size`, both saturating, at most
/// `total`.
pub open spec fn page_start(page: usize, size: usize, total: nat) -> int {
    let before = if page == 0 {
        0
    } else {
        page - 1
    };
    let skip = if before * size > usize::MAX {
        usize::MAX as int
    } else {
        before * size
    };
    if skip < total {
        skip
    } else {
        total as int
    }
}

/// Where a page of `size` rows starting at `start` ends.
pub open spec fn page_end(start: int, size: usize, total: nat) -> int {
    if start + size < total {
        start + size
    } else {
        total as int
    }
}

pub(crate) fn page_bounds(page: usize, size: usize, total: usize) -> (r: (usize, usize))
    ensures
        r.0 == page_start(page, size, total as nat),
        r.1 == page_end(r.0 as int, size, total as nat),
{
    let before = if page == 0 {
        0
    } else {
        page - 1
    };
    let skip = match before.checked_mul(size) {
        Some(x) => x,
        None => usize::MAX,
    };
    let start = if skip < total {
        skip
    } else {
        total
    };
    let end = if size < total - start {
        start + size
    } else {
        total
    };
    (start, end)
}

/// A replacement of an item, with the positions of its photos.
#[derive(Debug, Clone)]
pub struct ReplacementRow {
    pub replacement: usize,
    pub photos: Vec<usize>,
}

/// An item of a listed machine: its position, its category's, its photos' and its
/// replacements'.
#[derive(Debug, Clone)]
pub struct ItemRow {
    pub item: usize,
    pub category: Option<usize>,
    pub photos: Vec<usize>,
    pub replacements: Vec<ReplacementRow>,
}

/// A listed machine: its position, its items and its photos.
#[derive(Debug, Clone)]
pub struct MachineRow {
    pub machine: usize,
    pub items: Vec<ItemRow>,
    pub photos: Vec<usize>,
}

/// One page of the machine list, the number of machines that pass the filter, the page
/// asked for, and every zone (the facet).
#[derive(Debug, Clone)]
pub struct MachinesPage {
    pub rows: Vec<MachineRow>,
    pub total: usize,
    pub page: usize,
    pub page_size: usize,
    pub zones: Vec<String>,
}

/// The replacements of item `item_id`.
pub open spec fn replacements_of(repl: Seq<MachineItemReplacement>, item_id: Seq<char>) -> Seq<usize> {
    positions_where(repl.len(), |i: int| repl[i].machine_item_id@ == item_id)
}

/// The items of machine `machine_id` the list shows: the active ones, or all of them.
pub open spec fn items_shown(items: Seq<MachineItem>, machine_id: Seq<char>, include_removed: bool) -> Seq<usize> {
    positions_where(items.len(), |i: int| items[i].machine_id@ == machine_id && (include_removed || items[i].active))
}

/// `row` shows item `k` of the state.
pub open spec fn is_item_row(row: ItemRow, s: ApplicationState, k: usize) -> bool {
    let item = s.machine_items@[k as int];
    let repl = replacements_of(s.machine_item_replacements@, item.id@);
    &&& row.item == k
    &&& match index_of_id(s.item_categories@, item.category_id@) {
        Some(c) => row.category == Some(c as usize),
        None => row.category is None,
    }
    &&& row.photos@ == photos_of(s.photos@, PhotoOwnerType::MachineItem, item.id@)
    &&& row.replacements@.len() == repl.len()
    &&& forall|j: int|
        0 <= j < repl.len() ==> (#[trigger] row.replacements@[j]).replacement == repl[j]
            && row.replacements@[j].photos@ == photos_of(
            s.photos@,
            PhotoOwnerType::Replacement,
            s.machine_item_replacements@[repl[j] as int].id@,
        )
}

/// `row` shows machine `k` of the state.
pub open spec fn is_machine_row(row: MachineRow, s: ApplicationState, include_removed: bool, k: usize) -> bool {
    let m = s.machines@[k as int];
    let shown = items_shown(s.machine_items@, m.id@, include_removed);
    &&& row.machine == k
    &&& row.photos@ == photos_of(s.photos@, PhotoOwnerType::Machine, m.id@)
    &&& row.items@.len() == shown.len()
    &&& forall|j: int| 0 <= j < shown.len() ==> is_item_row(#[trigger] row.items@[j], s, shown[j])
}

fn machine_passes(m: &Machine, f: &MachineFilter) -> (r: bool)
    ensures
        r == machine_selected(*m, *f),
{
    (is_empty_text(f.id.as_str()) || str_equal(m.id.as_str(), f.id.as_str())) && (is_empty_text(
        f.search.as_str(),
    ) || contains_text(m.code_normalized.as_str(), f.search.as_str()) || contains_text(
        to_uppercase(m.name.as_str()).as_str(),
        f.search.as_str(),
    ) || contains_text(to_uppercase(m.zone.as_str()).as_str(), f.search.as_str())) && (is_empty_text(
        f.zone.as_str(),
    ) || str_equal(m.zone.as_str(), f.zone.as_str())) && (is_empty_text(f.status.as_str()) || str_equal(
        operational_status_name(m.status),
        f.status.as_str(),
    ))
}

fn replacement_rows(s: &ApplicationState, item_id: &str) -> (r: Vec<ReplacementRow>)
    ensures
        ({
            let repl = replacements_of(s.machine_item_replacements@, item_id@);
            &&& r@.len() == repl.len()
            &&& forall|j: int|
                0 <= j < repl.len() ==> (#[trigger] r@[j]).replacement == repl[j] && r@[j].photos@ == photos_of(
                    s.photos@,
                    PhotoOwnerType::Replacement,
                    s.machine_item_replacements@[repl[j] as int].id@,
                )
        }),
{
    let ghost rv = s.machine_item_replacements@;
    let ghost p = |i: int| rv[i].machine_item_id@ == item_id@;
    let mut out: Vec<ReplacementRow> = Vec::new();
    let mut i: usize = 0;
    while i < s.machine_item_replacements.len()
        invariant
            i <= rv.len(),
            rv == s.machine_item_replacements@,
            p == (|i: int| rv[i].machine_item_id@ == item_id@),
            out@.len() == positions_where(i as nat, p).len(),
            forall|j: int|
                0 <= j < positions_where(i as nat, p).len() ==> (#[trigger] out@[j]).replacement == positions_where(
                    i as nat,
                    p,
                )[j] && out@[j].photos@ == photos_of(
                    s.photos@,
                    PhotoOwnerType::Replacement,
                    rv[positions_where(i as nat, p)[j] as int].id@,
                ),
        decreases rv.len() - i,
    {
        let rep = &s.machine_item_replacements[i];
        if str_equal(rep.machine_item_id.as_str(), item_id) {
            let photos = photo_positions(&s.photos, PhotoOwnerType::Replacement, rep.id.as_str());
            out.push(ReplacementRow { replacement: i, photos });
        }
        i += 1;
    }
    out
}

fn item_row(s: &ApplicationState, k: usize) -> (r: ItemRow)
    requires
        k < s.machine_items@.len(),
    ensures
        is_item_row(r, *s, k),
{
    let item = &s.machine_items[k];
    let category = position_of_id(&s.item_categories, item.category_id.as_str());
    let photos = photo_positions(&s.photos, PhotoOwnerType::MachineItem, item.id.as_str());
    let replacements = replacement_rows(s, item.id.as_str());
    ItemRow { item: k, category, photos, replacements }
}

fn machine_row(s: &ApplicationState, include_removed: bool, k: usize) -> (r: MachineRow)
    requires
        k < s.machines@.len(),
    ensures
        is_machine_row(r, *s, include_removed, k),
{
    let m = &s.machines[k];
    let ghost items = s.machine_items@;
    let ghost p = |i: int| items[i].machine_id@ == m.id@ && (include_removed || items[i].active);
    let mut rows: Vec<ItemRow> = Vec::new();
    let mut i: usize = 0;
    while i < s.machine_items.len()
        invariant
            i <= items.len(),
            items == s.machine_items@,
            p == (|i: int| items[i].machine_id@ == m.id@ && (include_removed || items[i].active)),
            rows@.len() == positions_where(i as nat, p).len(),
            forall|j: int|
                0 <= j < positions_where(i as nat, p).len() ==> is_item_row(
                    #[trigger] rows@[j],
                    *s,
                    positions_where(i as nat, p)[j],
                ),
        decreases items.len() - i,
    {
        if str_equal(s.machine_items[i].machine_id.as_str(), m.id.as_str()) && (include_removed
            || s.machine_items[i].active) {
            rows.push(item_row(s, i));
        }
        i += 1;
    }
    let photos = photo_positions(&s.photos, PhotoOwnerType::Machine, m.id.as_str());
    MachineRow { machine: k, items: rows, photos }
}

/// The zones of the machines.
pub open spec fn machine_zones(machines: Seq<Machine>) -> Seq<Seq<char>> {
    machines.map_values(|m: Machine| m.zone@)
}

/// `page` is the machine list for filter `f`: the machines that pass it, sorted by zone
/// then code (a stable sort), the page asked for, each machine with the items shown, and
/// every zone once, in order.
pub open spec fn is_machines_page(page: MachinesPage, s: ApplicationState, f: MachineFilter) -> bool {
    let sel = selected_machines(s.machines@, f);
    let keys = machine_keys(s.machines@, sel);
    let start = page_start(f.page, f.page_size, sel.len());
    let end = page_end(start, f.page_size, sel.len());
    &&& page.total == sel.len()
    &&& page.page == f.page
    &&& page.page_size == f.page_size
    &&& is_sorted_set(machine_zones(s.machines@), views(page.zones@))
    &&& page.rows@.len() == end - start
    &&& exists|o: Seq<usize>|
        #[trigger] sorted_by_pairs(keys, o) && forall|r: int|
            0 <= r < end - start ==> is_machine_row(
                #[trigger] page.rows@[r],
                s,
                f.include_removed,
                sel[o[start + r] as int],
            )
}

/// Lists the machines for a filter.
pub fn machines_query(s: &ApplicationState, f: &MachineFilter) -> (r: MachinesPage)
    ensures
        is_machines_page(r, *s, *f),
{
    let ghost machines = s.machines@;
    let ghost p = |i: int| machine_selected(machines[i], *f);
    let mut sel: Vec<usize> = Vec::new();
    let mut keys: Vec<(String, String)> = Vec::new();
    let mut zone_texts: Vec<String> = Vec::new();
    let mut i: usize = 0;
    while i < s.machines.len()
        invariant
            i <= machines.len(),
            machines == s.machines@,
            p == (|i: int| machine_selected(machines[i], *f)),
            sel@ == positions_where(i as nat, p),
            pair_views(keys@) == machine_keys(machines, sel@),
            views(zone_texts@) == machine_zones(machines.take(i as int)),
        decreases machines.len() - i,
    {
        let m = &s.machines[i];
        if machine_passes(m, f) {
            let ghost kb = pair_views(keys@);
            sel.push(i);
            keys.push((m.zone.clone(), m.code_normalized.clone()));
            proof {
                assert(pair_views(keys@) =~= kb.push((m.zone@, m.code_normalized@)));
                assert(machine_keys(machines, sel@) =~= machine_keys(machines, sel@.drop_last()).push(
                    (m.zone@, m.code_normalized@),
                ));
                assert(sel@.drop_last() == positions_where(i as nat, p));
            }
        }
        let ghost zb = views(zone_texts@);
        zone_texts.push(m.zone.clone());
        proof {
            assert(views(zone_texts@) =~= zb.push(m.zone@));
            assert(machines.take(i + 1) == machines.take(i as int).push(*m));
            assert(machine_zones(machines.take(i + 1)) =~= machine_zones(machines.take(i as int)).push(m.zone@));
        }
        i += 1;
    }
    proof {
        assert(machines.take(i as int) == machines);
    }
    let order = sort_by_pairs(&keys);
    let total = sel.len();
    proof {
        crate::query_support::lemma_positions_where(machines.len(), p);
    }
    let (start, end) = page_bounds(f.page, f.page_size, total);
    let mut rows: Vec<MachineRow> = Vec::new();
    let mut r: usize = start;
    while r < end
        invariant
            start <= r <= end <= total,
            total == sel@.len(),
            order@.len() == total,
            forall|a: int| 0 <= a < order@.len() ==> (#[trigger] order@[a]) < total,
            sel@ == positions_where(machines.len(), p),
            forall|a: int| 0 <= a < sel@.len() ==> (#[trigger] sel@[a]) < machines.len(),
            machines == s.machines@,
            rows@.len() == r - start,
            forall|q: int|
                0 <= q < r - start ==> is_machine_row(
                    #[trigger] rows@[q],
                    *s,
                    f.include_removed,
                    sel@[order@[start + q] as int],
                ),
        decreases end - r,
    {
        assert(order@[r as int] < total);
        let k = sel[order[r]];
        rows.push(machine_row(s, f.include_removed, k));
        r += 1;
    }
    let zones = sorted_set(&zone_texts);
    let page = MachinesPage { rows, total, page: f.page, page_size: f.page_size, zones };
    proof {
        assert(sorted_by_pairs(machine_keys(machines, sel@), order@));
    }
    page
}

/// What the category list is asked for: the search is trimmed and uppercased, empty when
/// not given.
#[derive(Debug, Clone)]
pub struct CategoryFilter {
    pub search: String,
    pub active: Option<bool>,
}

/// Category `c` passes the filter.
pub open spec fn category_selected(c: ItemCategory, f: CategoryFilter) -> bool {
    &&& (f.search@.len() == 0 || text_contains(c.code_normalized@, f.search@) || text_contains(
        uppercase_of(c.name@),
        f.search@,
    ))
    &&& match f.active {
        Some(a) => c.active == a,
        None => true,
    }
}

/// The positions of the categories that pass the filter.
pub open spec fn selected_categories(categories: Seq<ItemCategory>, f: CategoryFilter) -> Seq<usize> {
    positions_where(categories.len(), |i: int| category_selected(categories[i], f))
}

/// The name of each selected category, the order of the list.
pub open spec fn category_keys(categories: Seq<ItemCategory>, sel: Seq<usize>) -> Seq<(Seq<char>, Seq<char>)> {
    sel.map_values(|k: usize| (categories[k as int].name@, Seq::<char>::empty()))
}

/// A photo of a guide step of category `c`.
pub open spec fn is_guide_photo(p: PhotoAsset, c: ItemCategory) -> bool {
    p.owner_type == PhotoOwnerType::GuideStep && exists|j: int|
        0 <= j < c.maintenance_guide.steps@.len() && (#[trigger] c.maintenance_guide.steps@[j]).id@ == p.owner_id@
}

/// A listed category: its position and the positions of the photos of its guide.
#[derive(Debug, Clone)]
pub struct CategoryRow {
    pub category: usize,
    pub guide_photos: Vec<usize>,
}

/// `row` shows category `k` of the state.
pub open spec fn is_category_row(row: CategoryRow, s: ApplicationState, k: usize) -> bool {
    &&& row.category == k
    &&& row.guide_photos@ == positions_where(
        s.photos@.len(),
        |i: int| is_guide_photo(s.photos@[i], s.item_categories@[k as int]),
    )
}

fn step_of(c: &ItemCategory, id: &str) -> (r: bool)
    ensures
        r == exists|j: int| 0 <= j < c.maintenance_guide.steps@.len() && (#[trigger] c.maintenance_guide.steps@[j]).id@ == id@,
{
    let mut j: usize = 0;
    while j < c.maintenance_guide.steps.len()
        invariant
            j <= c.maintenance_guide.steps@.len(),
            forall|q: int| 0 <= q < j ==> (#[trigger] c.maintenance_guide.steps@[q]).id@ != id@,
        decreases c.maintenance_guide.steps@.len() - j,
    {
        if str_equal(c.maintenance_guide.steps[j].id.as_str(), id) {
            return true;
        }
        j += 1;
    }
    false
}

fn category_row(s: &ApplicationState, k: usize) -> (r: CategoryRow)
    requires
        k < s.item_categories@.len(),
    ensures
        is_category_row(r, *s, k),
{
    let c = &s.item_categories[k];
    let ghost photos = s.photos@;
    let ghost p = |i: int| is_guide_photo(photos[i], *c);
    let mut out: Vec<usize> = Vec::new();
    let mut i: usize = 0;
    while i < s.photos.len()
        invariant
            i <= photos.len(),
            photos == s.photos@,
            p == (|i: int| is_guide_photo(photos[i], *c)),
            out@ == positions_where(i as nat, p),
        decreases photos.len() - i,
    {
        let ph = &s.photos[i];
        if ph.owner_type == PhotoOwnerType::GuideStep && step_of(c, ph.owner_id.as_str()) {
            out.push(i);
        }
        i += 1;
    }
    CategoryRow { category: k, guide_photos: out }
}

/// `rows` is the category list for filter `f`: the categories that pass it, sorted by name
/// (a stable sort), each with the photos of its guide.
pub open spec fn is_category_list(rows: Seq<CategoryRow>, s: ApplicationState, f: CategoryFilter) -> bool {
    let sel = selected_categories(s.item_categories@, f);
    &&& rows.len() == sel.len()
    &&& exists|o: Seq<usize>|
        #[trigger] sorted_by_pairs(category_keys(s.item_categories@, sel), o) && forall|r: int|
            0 <= r < sel.len() ==> is_category_row(#[trigger] rows[r], s, sel[o[r] as int])
}

/// Lists the categories for a filter.
pub fn categories_query(s: &ApplicationState, f: &CategoryFilter) -> (r: Vec<CategoryRow>)
    ensures
        is_category_list(r@, *s, *f),
{
    let ghost cats = s.item_categories@;
    let ghost p = |i: int| category_selected(cats[i], *f);
    let mut sel: Vec<usize> = Vec::new();
    let mut keys: Vec<(String, String)> = Vec::new();
    let mut i: usize = 0;
    while i < s.item_categories.len()
        invariant
            i <= cats.len(),
            cats == s.item_categories@,
            p == (|i: int| category_selected(cats[i], *f)),
            sel@ == positions_where(i as nat, p),
            pair_views(keys@) == category_keys(cats, sel@),
        decreases cats.len() - i,
    {
        let c = &s.item_categories[i];
        let passes = (is_empty_text(f.search.as_str()) || contains_text(
            c.code_normalized.as_str(),
            f.search.as_str(),
        ) || contains_text(to_uppercase(c.name.as_str()).as_str(), f.search.as_str())) && match f.active {
            Some(a) => c.active == a,
            None => true,
        };
        if passes {
            let ghost kb = pair_views(keys@);
            sel.push(i);
            keys.push((c.name.clone(), String::new()));
            proof {
                assert(pair_views(keys@) =~= kb.push((c.name@, Seq::<char>::empty())));
                assert(category_keys(cats, sel@) =~= category_keys(cats, sel@.drop_last()).push(
                    (c.name@, Seq::<char>::empty()),
                ));
                assert(sel@.drop_last() == positions_where(i as nat, p));
            }
        }
        i += 1;
    }
    proof {
        crate::query_support::lemma_positions_where(cats.len(), p);
    }
    let order = sort_by_pairs(&keys);
    let mut rows: Vec<CategoryRow> = Vec::new();
    let mut r: usize = 0;
    while r < order.len()
        invariant
            r <= order@.len(),
            order@.len() == sel@.len(),
            forall|a: int| 0 <= a < order@.len() ==> (#[trigger] order@[a]) < sel@.len(),
            forall|a: int| 0 <= a < sel@.len() ==> (#[trigger] sel@[a]) < cats.len(),
            cats == s.item_categories@,
            rows@.len() == r,
            forall|q: int| 0 <= q < r ==> is_category_row(#[trigger] rows@[q], *s, sel@[order@[q] as int]),
        decreases order@.len() - r,
    {
        assert(order@[r as int] < sel@.len());
        let k = sel[order[r]];
        rows.push(category_row(s, k));
        r += 1;
    }
    proof {
        let sel_spec = selected_categories(s.item_categories@, *f);
        assert(sel@ == sel_spec);
        assert(sorted_by_pairs(category_keys(cats, sel@), order@));
        assert(forall|q: int| 0 <= q < sel_spec.len() ==> is_category_row(#[trigger] rows@[q], *s, sel_spec[order@[q] as int]));
        assert(is_category_list(rows@, *s, *f));
    }
    rows
}

} // verus!
