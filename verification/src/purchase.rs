//! Purchases, and the slice of a time-ordered purchase list that falls into a
//! time span.

use vstd::prelude::*;
use crate::search::{first_true, lemma_first_true_at, lemma_first_true_none};

verus! {

/// One consumption. A free-for-all purchase is charged to the donor of the
/// freeby it draws on.
#[derive(Debug)]
pub enum Purchase {
    FFAPurchase { unique_id: u64, timestamp_epoch_millis: i64, item_id: u32, freeby_id: u64, donor: u32 },
    SimplePurchase { unique_id: u64, timestamp_epoch_millis: i64, item_id: u32, consumer_id: u32 },
    SpecialPurchase {
        unique_id: u64,
        timestamp_epoch_millis: i64,
        special_name: String,
        specialcost: Option<u32>,
        consumer_id: u32,
    },
}

/// What a `Purchase` stands for.
pub ghost enum PurchaseView {
    FFAPurchase { unique_id: u64, timestamp_epoch_millis: i64, item_id: u32, freeby_id: u64, donor: u32 },
    SimplePurchase { unique_id: u64, timestamp_epoch_millis: i64, item_id: u32, consumer_id: u32 },
    SpecialPurchase {
        unique_id: u64,
        timestamp_epoch_millis: i64,
        special_name: Seq<char>,
        specialcost: Option<u32>,
        consumer_id: u32,
    },
}

impl PurchaseView {
    pub open spec fn unique_id(self) -> u64 {
        match self {
            PurchaseView::FFAPurchase { unique_id, .. } => unique_id,
            PurchaseView::SimplePurchase { unique_id, .. } => unique_id,
            PurchaseView::SpecialPurchase { unique_id, .. } => unique_id,
        }
    }

    pub open spec fn timestamp(self) -> i64 {
        match self {
            PurchaseView::FFAPurchase { timestamp_epoch_millis, .. } => timestamp_epoch_millis,
            PurchaseView::SimplePurchase { timestamp_epoch_millis, .. } => timestamp_epoch_millis,
            PurchaseView::SpecialPurchase { timestamp_epoch_millis, .. } => timestamp_epoch_millis,
        }
    }

    /// The user who is charged: the consumer, or the donor of a free-for-all.
    pub open spec fn user_id(self) -> u32 {
        match self {
            PurchaseView::FFAPurchase { donor, .. } => donor,
            PurchaseView::SimplePurchase { consumer_id, .. } => consumer_id,
            PurchaseView::SpecialPurchase { consumer_id, .. } => consumer_id,
        }
    }

    /// The item bought; a special has none.
    pub open spec fn item_id(self) -> Option<u32> {
        match self {
            PurchaseView::FFAPurchase { item_id, .. } => Some(item_id),
            PurchaseView::SimplePurchase { item_id, .. } => Some(item_id),
            PurchaseView::SpecialPurchase { .. } => None,
        }
    }

    pub open spec fn is_special(self) -> bool {
        self is SpecialPurchase
    }

    /// The price of a special; `None` for one without a price and for every
    /// other purchase.
    pub open spec fn special_price(self) -> Option<u32> {
        match self {
            PurchaseView::SpecialPurchase { specialcost, .. } => specialcost,
            _ => None,
        }
    }

    /// The purchase with its price set, if it is a special; else unchanged.
    pub open spec fn with_price(self, price: u32) -> PurchaseView {
        match self {
            PurchaseView::SpecialPurchase {
                unique_id,
                timestamp_epoch_millis,
                special_name,
                specialcost,
                consumer_id,
            } => PurchaseView::SpecialPurchase {
                unique_id,
                timestamp_epoch_millis,
                special_name,
                specialcost: Some(price),
                consumer_id,
            },
            other => other,
        }
    }
}

impl View for Purchase {
    type V = PurchaseView;

    open spec fn view(&self) -> PurchaseView {
        match self {
            Purchase::FFAPurchase { unique_id, timestamp_epoch_millis, item_id, freeby_id, donor } =>
                PurchaseView::FFAPurchase {
                    unique_id: *unique_id,
                    timestamp_epoch_millis: *timestamp_epoch_millis,
                    item_id: *item_id,
                    freeby_id: *freeby_id,
                    donor: *donor,
                },
            Purchase::SimplePurchase { unique_id, timestamp_epoch_millis, item_id, consumer_id } =>
                PurchaseView::SimplePurchase {
                    unique_id: *unique_id,
                    timestamp_epoch_millis: *timestamp_epoch_millis,
                    item_id: *item_id,
                    consumer_id: *consumer_id,
                },
            Purchase::SpecialPurchase {
                unique_id,
                timestamp_epoch_millis,
                special_name,
                specialcost,
                consumer_id,
            } => PurchaseView::SpecialPurchase {
                unique_id: *unique_id,
                timestamp_epoch_millis: *timestamp_epoch_millis,
                special_name: special_name@,
                specialcost: *specialcost,
                consumer_id: *consumer_id,
            },
        }
    }
}

impl Clone for Purchase {
    fn clone(&self) -> (copy: Self)
        ensures
            copy == *self,
    {
        match self {
            Purchase::FFAPurchase { unique_id, timestamp_epoch_millis, item_id, freeby_id, donor } =>
                Purchase::FFAPurchase {
                    unique_id: *unique_id,
                    timestamp_epoch_millis: *timestamp_epoch_millis,
                    item_id: *item_id,
                    freeby_id: *freeby_id,
                    donor: *donor,
                },
            Purchase::SimplePurchase { unique_id, timestamp_epoch_millis, item_id, consumer_id } =>
                Purchase::SimplePurchase {
                    unique_id: *unique_id,
                    timestamp_epoch_millis: *timestamp_epoch_millis,
                    item_id: *item_id,
                    consumer_id: *consumer_id,
                },
            Purchase::SpecialPurchase {
                unique_id,
                timestamp_epoch_millis,
                special_name,
                specialcost,
                consumer_id,
            } => Purchase::SpecialPurchase {
                unique_id: *unique_id,
                timestamp_epoch_millis: *timestamp_epoch_millis,
                special_name: special_name.clone(),
                specialcost: *specialcost,
                consumer_id: *consumer_id,
            },
        }
    }
}

/// What can be read off a purchase.
pub trait PurchaseFunctions {
    /// The purchase that the value stands for.
    spec fn purchase(&self) -> PurchaseView;

    fn get_unique_id(&self) -> (id: u64)
        ensures
            id == self.purchase().unique_id(),
    ;

    fn has_unique_id(&self, other: u64) -> (same: bool)
        ensures
            same == (self.purchase().unique_id() == other),
    ;

    /// The user who is charged.
    fn get_user_id(&self) -> (id: &u32)
        ensures
            *id == self.purchase().user_id(),
    ;

    /// Every purchase is charged to someone.
    fn has_user_id(&self) -> (has: bool)
        ensures
            has,
    ;

    /// The item bought; a special has none and is left out.
    fn get_item_id(&self) -> (id: &u32)
        requires
            !self.purchase().is_special(),
        ensures
            Some(*id) == self.purchase().item_id(),
    ;

    fn has_item_id(&self) -> (has: bool)
        ensures
            has == !self.purchase().is_special(),
    ;

    fn get_timestamp(&self) -> (millis: &i64)
        ensures
            *millis == self.purchase().timestamp(),
    ;

    /// The price set for a special; asked of specials only.
    fn get_special_set_price(&self) -> (price: Option<u32>)
        requires
            self.purchase().is_special(),
        ensures
            price == self.purchase().special_price(),
    ;

    fn is_special(&self) -> (special: bool)
        ensures
            special == self.purchase().is_special(),
    ;
}

impl PurchaseFunctions for Purchase {
    open spec fn purchase(&self) -> PurchaseView {
        self@
    }

    fn get_unique_id(&self) -> (id: u64) {
        match self {
            Purchase::SpecialPurchase { unique_id, .. } => *unique_id,
            Purchase::SimplePurchase { unique_id, .. } => *unique_id,
            Purchase::FFAPurchase { unique_id, .. } => *unique_id,
        }
    }

    fn has_unique_id(&self, other: u64) -> (same: bool) {
        self.get_unique_id() == other
    }

    fn get_user_id(&self) -> (id: &u32) {
        match self {
            Purchase::SpecialPurchase { consumer_id, .. } => consumer_id,
            Purchase::SimplePurchase { consumer_id, .. } => consumer_id,
            Purchase::FFAPurchase { donor, .. } => donor,
        }
    }

    fn has_user_id(&self) -> (has: bool) {
        true
    }

    fn get_item_id(&self) -> (id: &u32) {
        match self {
            Purchase::SpecialPurchase { .. } => unreached(),
            Purchase::SimplePurchase { item_id, .. } => item_id,
            Purchase::FFAPurchase { item_id, .. } => item_id,
        }
    }

    fn has_item_id(&self) -> (has: bool) {
        match self {
            Purchase::SpecialPurchase { .. } => false,
            _ => true,
        }
    }

    fn get_timestamp(&self) -> (millis: &i64) {
        match self {
            Purchase::SpecialPurchase { timestamp_epoch_millis, .. } => timestamp_epoch_millis,
            Purchase::SimplePurchase { timestamp_epoch_millis, .. } => timestamp_epoch_millis,
            Purchase::FFAPurchase { timestamp_epoch_millis, .. } => timestamp_epoch_millis,
        }
    }

    fn get_special_set_price(&self) -> (price: Option<u32>) {
        match self {
            Purchase::SpecialPurchase { specialcost, .. } => *specialcost,
            _ => None,
        }
    }

    fn is_special(&self) -> (special: bool) {
        match self {
            Purchase::SpecialPurchase { .. } => true,
            _ => false,
        }
    }
}

/// The views of a list of purchases.
pub open spec fn purchase_views(purchases: Seq<Purchase>) -> Seq<PurchaseView> {
    purchases.map_values(|p: Purchase| p@)
}

/// The position of the first purchase with the id `id`; the length of the
/// list if there is none.
pub open spec fn purchase_at(purchases: Seq<PurchaseView>, id: u64) -> int {
    first_true(Seq::new(purchases.len(), |i: int| purchases[i].unique_id() == id))
}

/// The position of the first purchase with the id `id`, if there is one.
pub fn find_purchase(purchases: &Vec<Purchase>, id: u64) -> (found: Option<usize>)
    ensures
        found matches Some(at) ==> at == purchase_at(purchase_views(purchases@), id) && at
            < purchases.len() && purchases[at as int]@.unique_id() == id,
        found.is_none() ==> purchase_at(purchase_views(purchases@), id) == purchases.len(),
{
    let ghost views = purchase_views(purchases@);
    let ghost flags = Seq::new(views.len(), |i: int| views[i].unique_id() == id);
    let mut i: usize = 0;
    while i < purchases.len()
        invariant
            i <= purchases.len(),
            views == purchase_views(purchases@),
            flags == Seq::new(views.len(), |i: int| views[i].unique_id() == id),
            forall|j: int| 0 <= j < i ==> !flags[j],
        decreases purchases.len() - i,
    {
        if purchases[i].has_unique_id(id) {
            proof {
                assert(flags[i as int]);
                lemma_first_true_at(flags, i as int);
            }
            return Some(i);
        }
        assert(!flags[i as int]);
        i += 1;
    }
    proof {
        lemma_first_true_none(flags);
    }
    None
}

/// No purchase of the list is older than one before it.
pub open spec fn ordered_by_time(purchases: Seq<PurchaseView>) -> bool {
    forall|i: int, j: int|
        0 <= i <= j < purchases.len() ==> (#[trigger] purchases[i]).timestamp() <= (
        #[trigger] purchases[j]).timestamp()
}

/// How many purchases of a time-ordered list are older than `millis`: the
/// position of the first one that is not.
pub open spec fn count_before(purchases: Seq<PurchaseView>, millis: i64) -> nat
    decreases purchases.len(),
{
    if purchases.len() == 0 || purchases[0].timestamp() >= millis {
        0
    } else {
        1 + count_before(purchases.skip(1), millis)
    }
}

/// In a time-ordered list exactly the purchases before `count_before` are
/// older than `millis`.
pub proof fn lemma_count_before(purchases: Seq<PurchaseView>, millis: i64)
    requires
        ordered_by_time(purchases),
    ensures
        count_before(purchases, millis) <= purchases.len(),
        forall|i: int|
            0 <= i < purchases.len() ==> ((#[trigger] purchases[i]).timestamp() < millis <==> i
                < count_before(purchases, millis)),
    decreases purchases.len(),
{
    if purchases.len() == 0 || purchases[0].timestamp() >= millis {
        assert forall|i: int| 0 <= i < purchases.len() implies !((#[trigger] purchases[i]).timestamp()
            < millis) by {
            assert(purchases[0].timestamp() <= purchases[i].timestamp());
        }
    } else {
        let rest = purchases.skip(1);
        assert forall|i: int, j: int| 0 <= i <= j < rest.len() implies (#[trigger] rest[i]).timestamp() <= (
        #[trigger] rest[j]).timestamp() by {
            assert(rest[i] == purchases[i + 1] && rest[j] == purchases[j + 1]);
        }
        lemma_count_before(rest, millis);
        assert forall|i: int| 0 <= i < purchases.len() implies ((#[trigger] purchases[i]).timestamp()
            < millis <==> i < count_before(purchases, millis)) by {
            if i > 0 {
                assert(rest[i - 1] == purchases[i]);
            }
        }
    }
}

/// The position of the first purchase that is not older than `millis`.
fn first_not_before(purchases: &[Purchase], millis: i64) -> (at: usize)
    requires
        ordered_by_time(purchase_views(purchases@)),
    ensures
        at == count_before(purchase_views(purchases@), millis),
        at <= purchases.len(),
{
    let ghost views = purchase_views(purchases@);
    proof {
        lemma_count_before(views, millis);
    }
    let mut lo: usize = 0;
    let mut hi: usize = purchases.len();
    while lo < hi
        invariant
            lo <= hi <= purchases.len(),
            views == purchase_views(purchases@),
            forall|i: int| 0 <= i < lo ==> (#[trigger] views[i]).timestamp() < millis,
            forall|i: int| hi <= i < views.len() ==> (#[trigger] views[i]).timestamp() >= millis,
            ordered_by_time(views),
        decreases hi - lo,
    {
        let mid: usize = lo + (hi - lo) / 2;
        assert(views[mid as int] == purchases[mid as int]@);
        if *purchases[mid].get_timestamp() < millis {
            assert forall|i: int| 0 <= i < mid + 1 implies (#[trigger] views[i]).timestamp() < millis by {
                assert(views[i].timestamp() <= views[mid as int].timestamp());
            }
            lo = mid + 1;
        } else {
            assert forall|i: int| mid <= i < views.len() implies (#[trigger] views[i]).timestamp()
                >= millis by {
                assert(views[mid as int].timestamp() <= views[i].timestamp());
            }
            hi = mid;
        }
    }
    proof {
        let n = count_before(views, millis) as int;
        if lo < n {
            assert(views[lo as int].timestamp() < millis);
        }
        if n < lo {
            assert(views[n].timestamp() < millis);
        }
    }
    lo
}

/// The bounds `(lo, hi)` of the purchases of a time-ordered list that fall
/// into `[millis_start_inclusive, millis_end_exclusive)`: `lo` purchases are
/// older than the start, and the purchases from `lo` up to `hi` are older
/// than the end. An empty span gives `hi == lo`.
pub fn find_purchase_indices(
    purchases: &[Purchase],
    millis_start_inclusive: i64,
    millis_end_exclusive: i64,
) -> (bounds: (usize, usize))
    requires
        ordered_by_time(purchase_views(purchases@)),
    ensures
        bounds.0 == count_before(purchase_views(purchases@), millis_start_inclusive),
        bounds.1 == if millis_start_inclusive <= millis_end_exclusive {
            count_before(purchase_views(purchases@), millis_end_exclusive)
        } else {
            count_before(purchase_views(purchases@), millis_start_inclusive)
        },
        bounds.0 <= bounds.1 <= purchases.len(),
        forall|i: int|
            0 <= i < purchases.len() ==> (bounds.0 <= i < bounds.1 <==> millis_start_inclusive <= (
            #[trigger] purchases[i])@.timestamp() < millis_end_exclusive),
{
    let first = first_not_before(purchases, millis_start_inclusive);
    let last = if millis_start_inclusive <= millis_end_exclusive {
        first_not_before(purchases, millis_end_exclusive)
    } else {
        first
    };
    proof {
        let views = purchase_views(purchases@);
        lemma_count_before(views, millis_start_inclusive);
        lemma_count_before(views, millis_end_exclusive);
        if first > last {
            assert(views[last as int].timestamp() < millis_start_inclusive);
        }
        assert forall|i: int| 0 <= i < purchases.len() implies (first <= i < last
            <==> millis_start_inclusive <= (#[trigger] purchases[i])@.timestamp()
            < millis_end_exclusive) by {
            assert(views[i] == purchases[i]@);
        }
    }
    (first, last)
}

} // verus!
