//! What the read side shares: reading filters, naming statuses, counting them, finding
//! text within text, and listing the positions of the records that pass a test.
use vstd::prelude::*;

use crate::model::{OperationalStatus, PhotoAsset, PhotoOwnerType, ServiceOrder, ServiceOrderStatus};
use crate::text::{chars_of, owned, str_equal, to_uppercase, trim, trimmed, uppercase_of};

verus! {

/// The page number or page size a filter asks for: the given number (else `default`),
/// at least 1 and at most `maximum`.
pub open spec fn page_value(raw: Option<u64>, default: usize, maximum: usize) -> int {
    let v = match raw {
        Some(x) => x as int,
        None => default as int,
    };
    let v = if v < 1 {
        1
    } else {
        v
    };
    if v > maximum {
        maximum as int
    } else {
        v
    }
}

/// Reads a page number or page size from a filter's value.
pub fn page_filter(raw: Option<u64>, default: usize, maximum: usize) -> (r: usize)
    ensures
        r == page_value(raw, default, maximum),
{
    let v: u64 = match raw {
        Some(x) => x,
        None => default as u64,
    };
    let v: u64 = if v < 1 {
        1
    } else {
        v
    };
    if v > maximum as u64 {
        maximum
    } else {
        v as usize
    }
}

/// A text filter: the given text trimmed, or empty.
pub fn text_filter(raw: Option<&str>) -> (r: String)
    ensures
        r@ == match raw {
            Some(t) => trim(t@),
            None => Seq::empty(),
        },
{
    match raw {
        Some(t) => trimmed(t),
        None => String::new(),
    }
}

/// A text filter compared with normalized codes: trimmed and uppercased.
pub fn normalized_filter(raw: Option<&str>) -> (r: String)
    ensures
        r@ == uppercase_of(
            match raw {
                Some(t) => trim(t@),
                None => Seq::empty(),
            },
        ),
{
    let t = text_filter(raw);
    to_uppercase(t.as_str())
}

/// Whether a text is empty.
pub fn is_empty_text(s: &str) -> (r: bool)
    ensures
        r == (s@.len() == 0),
{
    chars_of(s).len() == 0
}

/// The name of an operational status.
pub open spec fn status_name(s: OperationalStatus) -> Seq<char> {
    match s {
        OperationalStatus::Unknown => "unknown"@,
        OperationalStatus::Okay => "ok"@,
        OperationalStatus::Attention => "attention"@,
        OperationalStatus::Critical => "critical"@,
        OperationalStatus::MaintenanceRequired => "maintenance_required"@,
        OperationalStatus::UnderMaintenance => "under_maintenance"@,
        OperationalStatus::Disabled => "disabled"@,
    }
}

/// The name of an operational status.
pub fn operational_status_name(status: OperationalStatus) -> (r: &'static str)
    ensures
        r@ == status_name(status),
{
    match status {
        OperationalStatus::Unknown => "unknown",
        OperationalStatus::Okay => "ok",
        OperationalStatus::Attention => "attention",
        OperationalStatus::Critical => "critical",
        OperationalStatus::MaintenanceRequired => "maintenance_required",
        OperationalStatus::UnderMaintenance => "under_maintenance",
        OperationalStatus::Disabled => "disabled",
    }
}

/// The name of an order status.
pub open spec fn order_status_text(s: ServiceOrderStatus) -> Seq<char> {
    match s {
        ServiceOrderStatus::Pending => "pending"@,
        ServiceOrderStatus::InProgress => "in_progress"@,
        ServiceOrderStatus::Completed => "completed"@,
        ServiceOrderStatus::Cancelled => "cancelled"@,
    }
}

/// The name of an order status.
pub fn order_status_name(status: ServiceOrderStatus) -> (r: &'static str)
    ensures
        r@ == order_status_text(status),
{
    match status {
        ServiceOrderStatus::Pending => "pending",
        ServiceOrderStatus::InProgress => "in_progress",
        ServiceOrderStatus::Completed => "completed",
        ServiceOrderStatus::Cancelled => "cancelled",
    }
}

/// `needle` occurs in `hay`.
pub open spec fn text_contains(hay: Seq<char>, needle: Seq<char>) -> bool {
    exists|i: int| 0 <= i && i + needle.len() <= hay.len() && #[trigger] hay.subrange(i, i + needle.len()) == needle
}

/// Whether `needle` occurs in `hay` (`str::contains`: in valid UTF-8 a match of the bytes
/// is a match of the characters).
pub fn contains_text(hay: &str, needle: &str) -> (r: bool)
    ensures
        r == text_contains(hay@, needle@),
{
    let h = chars_of(hay);
    let n = chars_of(needle);
    if n.len() > h.len() {
        return false;
    }
    let mut i: usize = 0;
    while i <= h.len() - n.len()
        invariant
            h@ == hay@,
            n@ == needle@,
            n@.len() <= h@.len(),
            i <= h@.len() - n@.len() + 1,
            forall|j: int| 0 <= j < i ==> #[trigger] h@.subrange(j, j + n@.len()) != n@,
        decreases h@.len() - n@.len() + 1 - i,
    {
        let mut k: usize = 0;
        let mut same = true;
        while same && k < n.len()
            invariant
                k <= n@.len(),
                i + n@.len() <= h@.len(),
                h@.len() <= usize::MAX,
                forall|m: int| 0 <= m < k ==> h@[i + m] == n@[m],
                !same ==> k < n@.len() && h@[i + k] != n@[k as int],
            decreases n@.len() - k + (if same {
                1int
            } else {
                0int
            }),
        {
            if h[i + k] == n[k] {
                k += 1;
            } else {
                same = false;
            }
        }
        if k == n.len() {
            assert(h@.subrange(i as int, i + n@.len()) =~= n@);
            return true;
        }
        assert(h@.subrange(i as int, i + n@.len())[k as int] != n@[k as int]);
        i += 1;
    }
    proof {
        assert forall|j: int| 0 <= j && j + needle@.len() <= hay@.len() implies #[trigger] hay@.subrange(
            j,
            j + needle@.len(),
        ) != needle@ by {
            assert(j < i);
        }
    }
    false
}

/// The positions below `n` that pass `p`, in increasing order.
pub open spec fn positions_where(n: nat, p: spec_fn(int) -> bool) -> Seq<usize>
    decreases n,
{
    if n == 0 {
        Seq::empty()
    } else if p(n - 1) {
        positions_where((n - 1) as nat, p).push((n - 1) as usize)
    } else {
        positions_where((n - 1) as nat, p)
    }
}

/// The listed positions are below `n`, increasing, and exactly those that pass `p`.
pub proof fn lemma_positions_where(n: nat, p: spec_fn(int) -> bool)
    requires
        n <= usize::MAX,
    ensures
        forall|a: int| 0 <= a < positions_where(n, p).len() ==> (#[trigger] positions_where(n, p)[a]) < n,
        forall|a: int, b: int|
            0 <= a < b < positions_where(n, p).len() ==> #[trigger] positions_where(n, p)[a]
                < #[trigger] positions_where(n, p)[b],
        forall|a: int| 0 <= a < positions_where(n, p).len() ==> p(#[trigger] positions_where(n, p)[a] as int),
        positions_where(n, p).len() <= n,
    decreases n,
{
    if n > 0 {
        let prev = positions_where((n - 1) as nat, p);
        let cur = positions_where(n, p);
        lemma_positions_where((n - 1) as nat, p);
        if p(n - 1) {
            assert(cur == prev.push((n - 1) as usize));
            assert forall|a: int, b: int| 0 <= a < b < cur.len() implies #[trigger] cur[a] < #[trigger] cur[b] by {
                assert(cur[a] == prev[a]);
                if b < prev.len() {
                    assert(cur[b] == prev[b]);
                }
            }
            assert forall|a: int| 0 <= a < cur.len() implies p(#[trigger] cur[a] as int) by {
                if a < prev.len() {
                    assert(cur[a] == prev[a]);
                }
            }
        }
    }
}

/// A photo attached to `owner_id` as an owner of this type.
pub open spec fn is_photo_of(p: PhotoAsset, owner_type: PhotoOwnerType, owner_id: Seq<char>) -> bool {
    p.owner_type == owner_type && p.owner_id@ == owner_id
}

/// The positions of the photos attached to `owner_id` as an owner of this type.
pub open spec fn photos_of(photos: Seq<PhotoAsset>, owner_type: PhotoOwnerType, owner_id: Seq<char>) -> Seq<usize> {
    positions_where(photos.len(), |i: int| is_photo_of(photos[i], owner_type, owner_id))
}

/// Lists the photos attached to `owner_id` as an owner of this type.
pub fn photo_positions(photos: &Vec<PhotoAsset>, owner_type: PhotoOwnerType, owner_id: &str) -> (r: Vec<usize>)
    ensures
        r@ == photos_of(photos@, owner_type, owner_id@),
{
    let ghost p = |i: int| is_photo_of(photos@[i], owner_type, owner_id@);
    let mut out: Vec<usize> = Vec::new();
    let mut i: usize = 0;
    while i < photos.len()
        invariant
            i <= photos@.len(),
            p == (|i: int| is_photo_of(photos@[i], owner_type, owner_id@)),
            out@ == positions_where(i as nat, p),
        decreases photos@.len() - i,
    {
        if photos[i].owner_type == owner_type && str_equal(photos[i].owner_id.as_str(), owner_id) {
            out.push(i);
        }
        i += 1;
    }
    out
}

/// How many of the statuses are `s`.
pub open spec fn count_of(statuses: Seq<OperationalStatus>, s: OperationalStatus) -> nat {
    statuses.filter(|t: OperationalStatus| t == s).len()
}

/// How many times each operational status occurs.
#[derive(Debug, Clone, Copy, PartialEq, Eq, Structural)]
pub struct StatusCounts {
    pub attention: usize,
    pub critical: usize,
    pub disabled: usize,
    pub maintenance_required: usize,
    pub ok: usize,
    pub under_maintenance: usize,
    pub unknown: usize,
}

/// `c` counts the statuses.
pub open spec fn counts_statuses(c: StatusCounts, statuses: Seq<OperationalStatus>) -> bool {
    &&& c.attention == count_of(statuses, OperationalStatus::Attention)
    &&& c.critical == count_of(statuses, OperationalStatus::Critical)
    &&& c.disabled == count_of(statuses, OperationalStatus::Disabled)
    &&& c.maintenance_required == count_of(statuses, OperationalStatus::MaintenanceRequired)
    &&& c.ok == count_of(statuses, OperationalStatus::Okay)
    &&& c.under_maintenance == count_of(statuses, OperationalStatus::UnderMaintenance)
    &&& c.unknown == count_of(statuses, OperationalStatus::Unknown)
}

/// Counts how many times each status occurs.
pub fn status_counts(statuses: &Vec<OperationalStatus>) -> (r: StatusCounts)
    ensures
        counts_statuses(r, statuses@),
{
    let mut c = StatusCounts {
        attention: 0,
        critical: 0,
        disabled: 0,
        maintenance_required: 0,
        ok: 0,
        under_maintenance: 0,
        unknown: 0,
    };
    let mut i: usize = 0;
    while i < statuses.len()
        invariant
            i <= statuses@.len(),
            counts_statuses(c, statuses@.take(i as int)),
            c.attention + c.critical + c.disabled + c.maintenance_required + c.ok + c.under_maintenance
                + c.unknown == i,
        decreases statuses@.len() - i,
    {
        let s = statuses[i];
        proof {
            let t = statuses@.take(i + 1);
            assert(t.drop_last() == statuses@.take(i as int));
            reveal(Seq::filter);
        }
        match s {
            OperationalStatus::Attention => c.attention = c.attention + 1,
            OperationalStatus::Critical => c.critical = c.critical + 1,
            OperationalStatus::Disabled => c.disabled = c.disabled + 1,
            OperationalStatus::MaintenanceRequired => c.maintenance_required = c.maintenance_required + 1,
            OperationalStatus::Okay => c.ok = c.ok + 1,
            OperationalStatus::UnderMaintenance => c.under_maintenance = c.under_maintenance + 1,
            OperationalStatus::Unknown => c.unknown = c.unknown + 1,
        }
        i += 1;
    }
    assert(statuses@.take(i as int) == statuses@);
    c
}

/// The statuses that occur, by name, with their counts.
pub open spec fn status_entries(c: StatusCounts) -> Seq<(Seq<char>, usize)> {
    crate::bundle::entry_if("attention"@, c.attention) + crate::bundle::entry_if("critical"@, c.critical)
        + crate::bundle::entry_if("disabled"@, c.disabled) + crate::bundle::entry_if(
        "maintenance_required"@,
        c.maintenance_required,
    ) + crate::bundle::entry_if("ok"@, c.ok) + crate::bundle::entry_if(
        "under_maintenance"@,
        c.under_maintenance,
    ) + crate::bundle::entry_if("unknown"@, c.unknown)
}

fn push_nonzero(v: &mut Vec<(String, usize)>, name: &str, n: usize)
    ensures
        crate::bundle::entry_views(final(v)@) == crate::bundle::entry_views(old(v)@) + crate::bundle::entry_if(
            name@,
            n,
        ),
{
    let ghost before = crate::bundle::entry_views(v@);
    if n > 0 {
        v.push((owned(name), n));
    }
    assert(crate::bundle::entry_views(v@) =~= before + crate::bundle::entry_if(name@, n));
}

impl StatusCounts {
    /// The statuses that occur, by name, with their counts (a map from name to count).
    pub fn entries(&self) -> (r: Vec<(String, usize)>)
        ensures
            crate::bundle::entry_views(r@) == status_entries(*self),
    {
        let mut v: Vec<(String, usize)> = Vec::new();
        assert(crate::bundle::entry_views(v@) =~= Seq::<(Seq<char>, usize)>::empty());
        push_nonzero(&mut v, "attention", self.attention);
        push_nonzero(&mut v, "critical", self.critical);
        push_nonzero(&mut v, "disabled", self.disabled);
        push_nonzero(&mut v, "maintenance_required", self.maintenance_required);
        push_nonzero(&mut v, "ok", self.ok);
        push_nonzero(&mut v, "under_maintenance", self.under_maintenance);
        push_nonzero(&mut v, "unknown", self.unknown);
        assert(crate::bundle::entry_views(v@) =~= status_entries(*self));
        v
    }

    /// How many times the status named `name` occurs, when it occurs.
    pub fn get(&self, name: &str) -> (r: Option<usize>)
        ensures
            r == (if name@ == "attention"@ && self.attention > 0 {
                Some(self.attention)
            } else if name@ == "critical"@ && self.critical > 0 {
                Some(self.critical)
            } else if name@ == "disabled"@ && self.disabled > 0 {
                Some(self.disabled)
            } else if name@ == "maintenance_required"@ && self.maintenance_required > 0 {
                Some(self.maintenance_required)
            } else if name@ == "ok"@ && self.ok > 0 {
                Some(self.ok)
            } else if name@ == "under_maintenance"@ && self.under_maintenance > 0 {
                Some(self.under_maintenance)
            } else if name@ == "unknown"@ && self.unknown > 0 {
                Some(self.unknown)
            } else {
                None
            }),
    {
        if str_equal(name, "attention") && self.attention > 0 {
            Some(self.attention)
        } else if str_equal(name, "critical") && self.critical > 0 {
            Some(self.critical)
        } else if str_equal(name, "disabled") && self.disabled > 0 {
            Some(self.disabled)
        } else if str_equal(name, "maintenance_required") && self.maintenance_required > 0 {
            Some(self.maintenance_required)
        } else if str_equal(name, "ok") && self.ok > 0 {
            Some(self.ok)
        } else if str_equal(name, "under_maintenance") && self.under_maintenance > 0 {
            Some(self.under_maintenance)
        } else if str_equal(name, "unknown") && self.unknown > 0 {
            Some(self.unknown)
        } else {
            None
        }
    }
}

/// How many orders are in each state; every state is listed, with zero when no order is
/// in it.
#[derive(Debug, Clone, Copy, PartialEq, Eq, Structural)]
pub struct OrderStatusCounts {
    pub cancelled: usize,
    pub completed: usize,
    pub in_progress: usize,
    pub pending: usize,
}

/// How many orders are in state `s`.
pub open spec fn orders_in(orders: Seq<ServiceOrder>, s: ServiceOrderStatus) -> nat {
    orders.filter(|o: ServiceOrder| o.status == s).len()
}

/// Counts the orders in each state.
pub fn order_status_counts(orders: &Vec<ServiceOrder>) -> (r: OrderStatusCounts)
    ensures
        r.cancelled == orders_in(orders@, ServiceOrderStatus::Cancelled),
        r.completed == orders_in(orders@, ServiceOrderStatus::Completed),
        r.in_progress == orders_in(orders@, ServiceOrderStatus::InProgress),
        r.pending == orders_in(orders@, ServiceOrderStatus::Pending),
{
    let mut c = OrderStatusCounts { cancelled: 0, completed: 0, in_progress: 0, pending: 0 };
    let mut i: usize = 0;
    while i < orders.len()
        invariant
            i <= orders@.len(),
            c.cancelled == orders_in(orders@.take(i as int), ServiceOrderStatus::Cancelled),
            c.completed == orders_in(orders@.take(i as int), ServiceOrderStatus::Completed),
            c.in_progress == orders_in(orders@.take(i as int), ServiceOrderStatus::InProgress),
            c.pending == orders_in(orders@.take(i as int), ServiceOrderStatus::Pending),
            c.cancelled + c.completed + c.in_progress + c.pending == i,
        decreases orders@.len() - i,
    {
        proof {
            let t = orders@.take(i + 1);
            assert(t.drop_last() == orders@.take(i as int));
            reveal(Seq::filter);
        }
        match orders[i].status {
            ServiceOrderStatus::Cancelled => c.cancelled = c.cancelled + 1,
            ServiceOrderStatus::Completed => c.completed = c.completed + 1,
            ServiceOrderStatus::InProgress => c.in_progress = c.in_progress + 1,
            ServiceOrderStatus::Pending => c.pending = c.pending + 1,
        }
        i += 1;
    }
    assert(orders@.take(i as int) == orders@);
    c
}

impl OrderStatusCounts {
    /// The count of the state named `name`; every state has one.
    pub fn get(&self, name: &str) -> (r: Option<usize>)
        ensures
            r == (if name@ == "cancelled"@ {
                Some(self.cancelled)
            } else if name@ == "completed"@ {
                Some(self.completed)
            } else if name@ == "in_progress"@ {
                Some(self.in_progress)
            } else if name@ == "pending"@ {
                Some(self.pending)
            } else {
                None
            }),
    {
        if str_equal(name, "cancelled") {
            Some(self.cancelled)
        } else if str_equal(name, "completed") {
            Some(self.completed)
        } else if str_equal(name, "in_progress") {
            Some(self.in_progress)
        } else if str_equal(name, "pending") {
            Some(self.pending)
        } else {
            None
        }
    }
}

} // verus!
