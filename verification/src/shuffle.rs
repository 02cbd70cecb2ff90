use vstd::prelude::*;
use vstd::multiset::Multiset;
use vstd::string::StringExecFns;

use crate::items::{item_wf, stack_view, stack_wf, Item, ItemView};
use crate::output::OutputFormat;
use crate::views::{list_lines, peek_lines, Head, Peek};

verus! {

/// Swapping the two most-recent items; a stack with fewer than two is
/// left as it is.
pub open spec fn swap_step(s: Seq<ItemView>) -> Seq<ItemView> {
    if s.len() < 2 {
        s
    } else {
        let len = s.len() as int;
        s.update(len - 2, s[len - 1]).update(len - 1, s[len - 2])
    }
}

/// Rotating the three most-recent items: with top-to-bottom order
/// a, b, c they are pushed back as a, c, b, making b the new top; a
/// stack with fewer than three gets Swap's transformation instead.
pub open spec fn rot_step(s: Seq<ItemView>) -> Seq<ItemView> {
    if s.len() < 3 {
        swap_step(s)
    } else {
        let len = s.len() as int;
        s.update(len - 3, s[len - 1]).update(len - 2, s[len - 3]).update(len - 1, s[len - 2])
    }
}

/// Cycling: the most-recent item moves to the very front (least-recent
/// position); an empty stack is left as it is.
pub open spec fn next_step(s: Seq<ItemView>) -> Seq<ItemView> {
    if s.len() == 0 {
        s
    } else {
        seq![s.last()] + s.drop_last()
    }
}

/// What a reordering effect produced: the reordered items to persist —
/// none when the effect was a no-op and nothing may be written — and
/// the lines its display step prints.
pub struct ShuffleOutcome {
    pub new_items: Option<Vec<Item>>,
    pub lines: Vec<String>,
}

/// Swap the two most-recent items.
pub struct Swap {
    pub stack: String,
}

impl Swap {
    /// With at least two items: swap the last two and display the top
    /// two of the result. With fewer: a no-op that displays nothing.
    pub fn run(&self, items: Vec<Item>, output: OutputFormat) -> (r: ShuffleOutcome)
        requires
            stack_wf(stack_view(items@)),
        ensures
            ({
                let s = stack_view(items@);
                if s.len() < 2 {
                    r.new_items is None && r.lines@ == Seq::<String>::empty()
                } else {
                    &&& r.new_items matches Some(v) && stack_view(v@) == swap_step(s)
                        && stack_wf(swap_step(s))
                    &&& r.lines.deep_view() == list_lines(swap_step(s), 0, Some(2), false, output)
                }
            }),
    {
        let ghost s = stack_view(items@);
        let mut items = items;
        if items.len() < 2 {
            return ShuffleOutcome { new_items: None, lines: Vec::new() };
        }
        let a = items.pop().unwrap();
        let b = items.pop().unwrap();
        items.push(a);
        items.push(b);
        proof {
            assert(stack_view(items@) =~= swap_step(s));
            assert(stack_wf(swap_step(s)));
        }
        let lines = Head { stack: self.stack.clone(), n: Some(2) }.run(&items, output);
        ShuffleOutcome { new_items: Some(items), lines }
    }
}

/// Rotate the three most-recent items.
pub struct Rot {
    pub stack: String,
}

impl Rot {
    /// With at least three items: rotate the last three and display
    /// the top three of the result. With fewer: exactly Swap's
    /// behavior, its no-op rule included.
    pub fn run(&self, items: Vec<Item>, output: OutputFormat) -> (r: ShuffleOutcome)
        requires
            stack_wf(stack_view(items@)),
        ensures
            ({
                let s = stack_view(items@);
                if s.len() < 2 {
                    r.new_items is None && r.lines@ == Seq::<String>::empty()
                } else if s.len() < 3 {
                    &&& r.new_items matches Some(v) && stack_view(v@) == swap_step(s)
                        && stack_wf(swap_step(s))
                    &&& r.lines.deep_view() == list_lines(swap_step(s), 0, Some(2), false, output)
                } else {
                    &&& r.new_items matches Some(v) && stack_view(v@) == rot_step(s)
                        && stack_wf(rot_step(s))
                    &&& r.lines.deep_view() == list_lines(rot_step(s), 0, Some(3), false, output)
                }
            }),
    {
        let ghost s = stack_view(items@);
        let mut items = items;
        if items.len() < 3 {
            return Swap { stack: self.stack.clone() }.run(items, output);
        }
        let a = items.pop().unwrap();
        let b = items.pop().unwrap();
        let c = items.pop().unwrap();
        items.push(a);
        items.push(c);
        items.push(b);
        proof {
            assert(stack_view(items@) =~= rot_step(s));
            assert(stack_wf(rot_step(s)));
        }
        let lines = Head { stack: self.stack.clone(), n: Some(3) }.run(&items, output);
        ShuffleOutcome { new_items: Some(items), lines }
    }
}

/// Make the next item the most-recent item.
/// The previously most-recent item is sent to the end of the stack.
pub struct Next {
    pub stack: String,
}

impl Next {
    /// With at least one item: move the top item to the front and
    /// display the new top via Peek. With none: a no-op that displays
    /// nothing.
    pub fn run(&self, items: Vec<Item>, output: OutputFormat) -> (r: ShuffleOutcome)
        requires
            stack_wf(stack_view(items@)),
        ensures
            ({
                let s = stack_view(items@);
                if s.len() == 0 {
                    r.new_items is None && r.lines@ == Seq::<String>::empty()
                } else {
                    &&& r.new_items matches Some(v) && stack_view(v@) == next_step(s)
                        && stack_wf(next_step(s))
                    &&& r.lines.deep_view() == peek_lines(next_step(s), output)
                }
            }),
    {
        let ghost s = stack_view(items@);
        let mut items = items;
        if items.len() == 0 {
            return ShuffleOutcome { new_items: None, lines: Vec::new() };
        }
        let to_the_back = items.pop().unwrap();
        items.insert(0, to_the_back);
        proof {
            assert(stack_view(items@) =~= next_step(s));
            assert(stack_wf(next_step(s)));
        }
        let lines = Peek { stack: self.stack.clone() }.run(&items, output);
        ShuffleOutcome { new_items: Some(items), lines }
    }
}

/// On a stack with fewer than two items Swap changes nothing, so the
/// stack's file content stays as it was.
pub proof fn lemma_swap_small_identity(s: Seq<ItemView>)
    requires
        s.len() < 2,
    ensures
        swap_step(s) == s,
{
}

/// Swap is its own inverse: applying it twice to a stack of at least
/// two items restores the original order.
pub proof fn lemma_swap_involutive(s: Seq<ItemView>)
    requires
        s.len() >= 2,
    ensures
        swap_step(swap_step(s)) == s,
{
    assert(swap_step(swap_step(s)) =~= s);
}

/// Rot applied three times to a stack of at least three items restores
/// the original order of the top three, and one application never
/// moves an item below the top three.
pub proof fn lemma_rot_thrice(s: Seq<ItemView>)
    requires
        s.len() >= 3,
    ensures
        rot_step(rot_step(rot_step(s))) == s,
        forall|i: int| 0 <= i < s.len() - 3 ==> rot_step(s)[i] == s[i],
{
    assert(rot_step(rot_step(rot_step(s))) =~= s);
}

/// On a stack with zero or one items Rot behaves exactly as Swap does:
/// both leave it unchanged.
pub proof fn lemma_rot_eq_swap_small(s: Seq<ItemView>)
    requires
        s.len() <= 1,
    ensures
        rot_step(s) == swap_step(s),
        swap_step(s) == s,
{
}

/// Two items in either order hold the same multiset.
proof fn lemma_pair_multiset(a: ItemView, b: ItemView)
    ensures
        seq![a, b].to_multiset() == seq![b, a].to_multiset(),
{
    broadcast use vstd::seq_lib::group_to_multiset_ensures;

    assert(seq![a, b] =~= Seq::<ItemView>::empty().push(a).push(b));
    assert(seq![b, a] =~= Seq::<ItemView>::empty().push(b).push(a));
    assert(Seq::<ItemView>::empty().to_multiset() =~= Multiset::<ItemView>::empty());
    assert(seq![a, b].to_multiset() =~= seq![b, a].to_multiset());
}

/// Three items in any of the rotated orders hold the same multiset.
proof fn lemma_triple_multiset(a: ItemView, b: ItemView, c: ItemView)
    ensures
        seq![c, b, a].to_multiset() == seq![a, c, b].to_multiset(),
{
    broadcast use vstd::seq_lib::group_to_multiset_ensures;

    assert(seq![c, b, a] =~= Seq::<ItemView>::empty().push(c).push(b).push(a));
    assert(seq![a, c, b] =~= Seq::<ItemView>::empty().push(a).push(c).push(b));
    assert(Seq::<ItemView>::empty().to_multiset() =~= Multiset::<ItemView>::empty());
    assert(seq![c, b, a].to_multiset() =~= seq![a, c, b].to_multiset());
}

/// No reordering effect creates, destroys or alters an item: each
/// preserves the multiset of items exactly, only positions change.
pub proof fn lemma_reordering_preserves_items(s: Seq<ItemView>)
    ensures
        swap_step(s).to_multiset() == s.to_multiset(),
        rot_step(s).to_multiset() == s.to_multiset(),
        next_step(s).to_multiset() == s.to_multiset(),
{
    broadcast use vstd::seq_lib::group_to_multiset_ensures;

    let len = s.len() as int;
    if s.len() >= 2 {
        let pre = s.take(len - 2);
        let before = seq![s[len - 2], s[len - 1]];
        let after = seq![s[len - 1], s[len - 2]];
        assert(s =~= pre + before);
        assert(swap_step(s) =~= pre + after);
        vstd::seq_lib::lemma_multiset_commutative(pre, before);
        vstd::seq_lib::lemma_multiset_commutative(pre, after);
        lemma_pair_multiset(s[len - 2], s[len - 1]);
        assert(swap_step(s).to_multiset() =~= s.to_multiset());
    }
    if s.len() >= 3 {
        let pre = s.take(len - 3);
        let before = seq![s[len - 3], s[len - 2], s[len - 1]];
        let after = seq![s[len - 1], s[len - 3], s[len - 2]];
        assert(s =~= pre + before);
        assert(rot_step(s) =~= pre + after);
        vstd::seq_lib::lemma_multiset_commutative(pre, before);
        vstd::seq_lib::lemma_multiset_commutative(pre, after);
        lemma_triple_multiset(s[len - 1], s[len - 2], s[len - 3]);
        assert(rot_step(s).to_multiset() =~= s.to_multiset());
    }
    if s.len() >= 1 {
        let pre = s.drop_last();
        let last = seq![s[len - 1]];
        assert(s =~= pre + last);
        assert(next_step(s) =~= last + pre);
        vstd::seq_lib::lemma_multiset_commutative(pre, last);
        vstd::seq_lib::lemma_multiset_commutative(last, pre);
        assert(next_step(s).to_multiset() =~= s.to_multiset());
    }
}

/// Cycling applied n times.
pub open spec fn next_step_n(s: Seq<ItemView>, n: nat) -> Seq<ItemView>
    decreases n,
{
    if n == 0 {
        s
    } else {
        next_step(next_step_n(s, (n - 1) as nat))
    }
}

/// After k cycles the stack is its last k items followed by the rest.
proof fn lemma_next_rotation(s: Seq<ItemView>, k: nat)
    requires
        s.len() >= 1,
        k <= s.len(),
    ensures
        next_step_n(s, k) == s.skip(s.len() - k) + s.take(s.len() - k),
    decreases k,
{
    let len = s.len() as int;
    if k == 0 {
        assert(s.skip(len) + s.take(len) =~= s);
    } else {
        lemma_next_rotation(s, (k - 1) as nat);
        let prev = s.skip(len - k + 1) + s.take(len - k + 1);
        assert(prev.len() == len);
        assert(prev.last() == s[len - k]);
        assert(next_step(prev) =~= s.skip(len - k) + s.take(len - k));
    }
}

/// Next applied as many times as the stack holds items returns a
/// non-empty stack to its original order.
pub proof fn lemma_next_cycle(s: Seq<ItemView>)
    requires
        s.len() >= 1,
    ensures
        next_step_n(s, s.len()) == s,
{
    lemma_next_rotation(s, s.len());
    assert(s.skip(0) + s.take(0) =~= s);
}

} // verus!
