use vstd::prelude::*;
use vstd::string::StringExecFns;

verus! {

/// Earliest timestamp an item may carry: the Unix epoch.
pub const MIN_TIMESTAMP: i64 = 0;

/// Latest timestamp an item may carry: the last second of year 9999,
/// the last year the time formatter can render.
pub const MAX_TIMESTAMP: i64 = 253_402_300_799;

/// A timestamp the time formatter accepts.
pub open spec fn ts_valid(ts: i64) -> bool {
    MIN_TIMESTAMP <= ts <= MAX_TIMESTAMP
}

/// One lifecycle event of an item: a status word (such as "created")
/// and the moment it happened, as seconds since the Unix epoch.
pub struct HistoryEntry {
    pub status: String,
    pub at: i64,
}

/// One stack entry: its text payload and its lifecycle history,
/// earliest event first.
pub struct Item {
    pub contents: String,
    pub history: Vec<HistoryEntry>,
}

/// The mathematical value of an item: its text and its history
/// as sequences of characters and plain timestamps.
pub ghost struct ItemView {
    pub contents: Seq<char>,
    pub history: Seq<(Seq<char>, i64)>,
}

impl View for HistoryEntry {
    type V = (Seq<char>, i64);

    open spec fn view(&self) -> (Seq<char>, i64) {
        (self.status@, self.at)
    }
}

impl View for Item {
    type V = ItemView;

    open spec fn view(&self) -> ItemView {
        ItemView {
            contents: self.contents@,
            history: self.history@.map_values(|h: HistoryEntry| h@),
        }
    }
}

/// The mathematical value of a whole stack: the sequence of item views,
/// the end of the sequence being the most recent ("top") item.
pub open spec fn stack_view(items: Seq<Item>) -> Seq<ItemView> {
    items.map_values(|i: Item| i@)
}

/// An item is well formed when every history timestamp is one the
/// time formatter accepts.
pub open spec fn item_wf(i: ItemView) -> bool {
    forall|k: int| 0 <= k < i.history.len() ==> ts_valid(#[trigger] i.history[k].1)
}

/// A stack is well formed when each of its items is.
pub open spec fn stack_wf(s: Seq<ItemView>) -> bool {
    forall|k: int| 0 <= k < s.len() ==> item_wf(#[trigger] s[k])
}

/// The timestamp of the first history event whose status is "created",
/// if any.
pub open spec fn created_timestamp(history: Seq<(Seq<char>, i64)>) -> Option<i64>
    decreases history.len(),
{
    if history.len() == 0 {
        None
    } else if history[0].0 == "created"@ {
        Some(history[0].1)
    } else {
        created_timestamp(history.skip(1))
    }
}

impl Item {
    /// The timestamp of this item's first "created" history event, if any.
    pub fn created_at(&self) -> (r: Option<i64>)
        ensures
            r == created_timestamp(self@.history),
    {
        let created = String::from_str("created");
        let mut k: usize = 0;
        proof {
            assert(self@.history.skip(0) =~= self@.history);
        }
        while k < self.history.len()
            invariant
                0 <= k <= self.history.len(),
                created@ == "created"@,
                created_timestamp(self@.history) == created_timestamp(self@.history.skip(k as int)),
            decreases self.history.len() - k,
        {
            proof {
                assert(self@.history.skip(k as int)[0] == self@.history[k as int]);
                assert(self@.history.skip(k as int).skip(1) =~= self@.history.skip(k as int + 1));
            }
            if self.history[k].status == created {
                return Some(self.history[k].at);
            }
            k = k + 1;
        }
        proof {
            assert(self@.history.skip(k as int).len() == 0);
        }
        None
    }
}

} // verus!
