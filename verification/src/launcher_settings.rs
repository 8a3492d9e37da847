//! Pure helpers of the launcher settings tab: power-action ordering and the
//! hidden-app list.

use vstd::prelude::*;

use crate::power::PowerAction;
use crate::tabs::views;
use crate::text;

verus! {

/// Move an action one slot up/down. Bounds-clamped; `false` when the move is
/// out of range (so the click is a no-op instead of a silent wrap).
pub fn move_action(order: &mut Vec<PowerAction>, index: usize, delta: isize) -> (r: bool)
    requires
        0 <= index + delta < old(order).len() ==> index < old(order).len(),
    ensures
        r == (0 <= index + delta < old(order).len()),
        r ==> final(order)@ == old(order)@.remove(index as int).insert(
            index + delta,
            old(order)@[index as int],
        ),
        !r ==> final(order)@ == old(order)@,
{
    let new: i128 = index as i128 + delta as i128;
    if new < 0 || new >= order.len() as i128 {
        return false;
    }
    let action = order.remove(index);
    order.insert(new as usize, action);
    true
}

/// `names` without the entries equal to `id`.
pub open spec fn without(names: Seq<Seq<char>>, id: Seq<char>) -> Seq<Seq<char>>
    decreases names.len(),
{
    if names.len() == 0 {
        Seq::empty()
    } else {
        let prev = without(names.drop_last(), id);
        if names.last() == id {
            prev
        } else {
            prev.push(names.last())
        }
    }
}

/// `without` drops something exactly when `id` occurs.
pub proof fn lemma_without_len(names: Seq<Seq<char>>, id: Seq<char>)
    ensures
        without(names, id).len() <= names.len(),
        (without(names, id).len() == names.len()) <==> !names.contains(id),
        !without(names, id).contains(id),
    decreases names.len(),
{
    if names.len() > 0 {
        let d = names.drop_last();
        lemma_without_len(d, id);
        if names.contains(id) && names.last() != id {
            let i = choose|i: int| 0 <= i < names.len() && names[i] == id;
            assert(d[i] == id);
        }
        if d.contains(id) {
            let i = choose|i: int| 0 <= i < d.len() && d[i] == id;
            assert(names[i] == id);
        }
        if names.last() == id {
            assert(names.contains(id));
        }
        if without(names, id).contains(id) {
            let i = choose|i: int| 0 <= i < without(names, id).len() && without(names, id)[i] == id;
            if i < without(d, id).len() {
                assert(without(d, id)[i] == id);
            }
        }
    }
}

/// Moving an entry by `delta` and then back by `-delta` restores the order.
pub proof fn lemma_move_action_undo(order: Seq<PowerAction>, index: int, delta: int)
    requires
        0 <= index < order.len(),
        0 <= index + delta < order.len(),
    ensures
        ({
            let moved = order.remove(index).insert(index + delta, order[index]);
            moved.remove(index + delta).insert(index, moved[index + delta]) == order
        }),
{
    let moved = order.remove(index).insert(index + delta, order[index]);
    assert(moved[index + delta] == order[index]);
    assert(moved.remove(index + delta) =~= order.remove(index));
    assert(order.remove(index).insert(index, order[index]) =~= order);
}

/// Unhiding twice is unhiding once: the id is gone after the first call.
pub proof fn lemma_unhide_idempotent(names: Seq<Seq<char>>, id: Seq<char>)
    ensures
        without(without(names, id), id) == without(names, id),
        !without(names, id).contains(id),
{
    lemma_without_len(names, id);
    lemma_without_absent(without(names, id), id);
}

/// `without` leaves a list without `id` unchanged.
pub proof fn lemma_without_absent(names: Seq<Seq<char>>, id: Seq<char>)
    requires
        !names.contains(id),
    ensures
        without(names, id) == names,
    decreases names.len(),
{
    if names.len() > 0 {
        assert(!names.drop_last().contains(id)) by {
            if names.drop_last().contains(id) {
                let i = choose|i: int| 0 <= i < names.drop_last().len() && names.drop_last()[i] == id;
                assert(names[i] == id);
            }
        }
        lemma_without_absent(names.drop_last(), id);
        assert(names[names.len() - 1] != id) by {
            if names[names.len() - 1] == id {
                assert(names.contains(id));
            }
        }
        assert(names.drop_last().push(names.last()) =~= names);
    }
}

/// Remove `id` from a hidden list. Returns true when it was actually
/// removed.
pub fn unhide(hidden: &mut Vec<String>, id: &str) -> (r: bool)
    ensures
        views(final(hidden)@) == without(views(old(hidden)@), id@),
        r == views(old(hidden)@).contains(id@),
{
    let ghost hv = views(hidden@);
    let key = text::chars_of(id);
    let mut kept: Vec<String> = Vec::new();
    let mut i: usize = 0;
    let n = hidden.len();
    while i < n
        invariant
            i <= n,
            n == hidden.len(),
            hv == views(hidden@),
            key@ == id@,
            views(kept@) == without(hv.take(i as int), id@),
        decreases n - i,
    {
        assert(hv.take(i + 1).drop_last() =~= hv.take(i as int));
        let h = text::chars_of(hidden[i].as_str());
        if !text::eq_chars(&h, &key) {
            kept.push(text::string_of(&h));
            assert(views(kept@) =~= without(hv.take(i + 1), id@));
        }
        i = i + 1;
    }
    assert(hv.take(n as int) =~= hv);
    proof {
        lemma_without_len(hv, id@);
    }
    let before = hidden.len();
    *hidden = kept;
    hidden.len() != before
}

/// Launcher grid columns.
pub const COLUMNS_MIN: usize = 1;
pub const COLUMNS_MAX: usize = 12;
/// Launcher grid rows.
pub const ROWS_MIN: usize = 1;
pub const ROWS_MAX: usize = 10;
/// Launcher icon size in pixels, stepped by 4.
pub const ICON_MIN: usize = 16;
pub const ICON_MAX: usize = 64;

/// `v` held within `min..=max`.
pub open spec fn clamped(v: int, min: int, max: int) -> int {
    if v < min {
        min
    } else if v > max {
        max
    } else {
        v
    }
}

/// A grid setting after its `-` (`up == false`) or `+` button: one `step`
/// down (not below zero) or up, then held within `min..=max`.
pub fn grid_step(value: usize, step: usize, up: bool, min: usize, max: usize) -> (r: usize)
    requires
        min <= max,
    ensures
        r == clamped(
            if up {
                value + step
            } else if value >= step {
                value - step
            } else {
                0
            },
            min as int,
            max as int,
        ),
{
    if up {
        if value > max || step > max - value {
            max
        } else if value + step < min {
            min
        } else {
            value + step
        }
    } else {
        let v = if value >= step { value - step } else { 0 };
        if v < min {
            min
        } else if v > max {
            max
        } else {
            v
        }
    }
}

} // verus!
