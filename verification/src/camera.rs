//! Selection of the actively controlled actor: cycling through the
//! candidates in stable order with wrap-around, and the activation flags
//! that decide which candidates may be selected at all.

use vstd::prelude::*;
use crate::time::ActionableObject;

verus! {

/// Candidate `i` exists and is the selected one.
pub open spec fn is_selected_at(s: Seq<ActionableObject>, i: int) -> bool {
    0 <= i < s.len() && s[i].selected
}

/// Candidate `i` exists and is the designated player actor.
pub open spec fn is_player_at(s: Seq<ActionableObject>, i: int) -> bool {
    0 <= i < s.len() && s[i].is_player
}

/// At most one candidate is selected.
pub open spec fn unique_selection(s: Seq<ActionableObject>) -> bool {
    forall|i: int, j: int| is_selected_at(s, i) && is_selected_at(s, j) ==> i == j
}

/// Exactly one candidate is the designated player actor: the fallback of
/// every cycle always exists and is unambiguous.
pub open spec fn unique_player(s: Seq<ActionableObject>) -> bool {
    &&& exists|i: int| is_player_at(s, i)
    &&& forall|i: int, j: int| is_player_at(s, i) && is_player_at(s, j) ==> i == j
}

/// The candidate list's basic shape: exactly one candidate is selected and
/// exactly one is the player.
pub open spec fn selection_wf(s: Seq<ActionableObject>) -> bool {
    &&& exists|i: int| is_selected_at(s, i)
    &&& unique_selection(s)
    &&& unique_player(s)
}

/// The selection invariant: exactly one candidate is selected, and the
/// selected one can be controlled — it is active, or it is the player.
pub open spec fn valid_selection(s: Seq<ActionableObject>) -> bool {
    &&& selection_wf(s)
    &&& forall|i: int| is_selected_at(s, i) ==> s[i].active || s[i].is_player
}

/// The index of the selected candidate.
pub open spec fn selected_index(s: Seq<ActionableObject>) -> int {
    choose|i: int| is_selected_at(s, i)
}

/// The index of the player candidate.
pub open spec fn player_index(s: Seq<ActionableObject>) -> int {
    choose|i: int| is_player_at(s, i)
}

/// The index `k` steps away from `c` in cyclic candidate order, forward or
/// backward.  Meaningful for `0 <= c < len` and `0 <= k <= len`.
pub open spec fn wrap_step(len: int, c: int, k: int, reversed: bool) -> int {
    if reversed {
        if c - k >= 0 { c - k } else { c - k + len }
    } else {
        if c + k < len { c + k } else { c + k - len }
    }
}

/// The first active candidate at least `k` cyclic steps away from `c`, in
/// the chosen direction; the player candidate when a full turn finds none.
pub open spec fn search_active(s: Seq<ActionableObject>, c: int, reversed: bool, k: int) -> int
    decreases s.len() - k,
{
    if k >= s.len() {
        player_index(s)
    } else if s[wrap_step(s.len() as int, c, k, reversed)].active {
        wrap_step(s.len() as int, c, k, reversed)
    } else {
        search_active(s, c, reversed, k + 1)
    }
}

/// The candidate a cycle moves the selection to: the nearest active
/// candidate strictly after (or, reversed, before) the currently selected
/// one in cyclic order, skipping inactive candidates and never settling for
/// the current one; the player when no other candidate is active.
pub open spec fn cycle_target(s: Seq<ActionableObject>, reversed: bool) -> int {
    search_active(s, selected_index(s), reversed, 1)
}

/// The candidate list with exactly candidate `t` selected and every other
/// flag untouched.
pub open spec fn select_only(s: Seq<ActionableObject>, t: int) -> Seq<ActionableObject> {
    Seq::new(s.len(), |i: int| ActionableObject { selected: i == t, ..s[i] })
}

/// The candidate list after one cycle.
pub open spec fn cycle_tr(s: Seq<ActionableObject>, reversed: bool) -> Seq<ActionableObject> {
    select_only(s, cycle_target(s, reversed))
}

/// The candidate list with candidate `i`'s activation flag set to `a`.
pub open spec fn set_active(s: Seq<ActionableObject>, i: int, a: bool) -> Seq<ActionableObject> {
    s.update(i, ActionableObject { active: a, ..s[i] })
}

/// The candidate list after deactivating candidate `i`: its activation flag
/// drops, and deactivating the selected candidate cycles the selection away
/// from it.
pub open spec fn deactivate_tr(s: Seq<ActionableObject>, i: int) -> Seq<ActionableObject> {
    let dropped = set_active(s, i, false);
    if s[i].selected {
        cycle_tr(dropped, false)
    } else {
        dropped
    }
}

/// The search lands inside the candidate list, on an active candidate or on
/// the player.
proof fn lemma_search_result(s: Seq<ActionableObject>, c: int, reversed: bool, k: int)
    requires
        unique_player(s),
        0 <= c < s.len(),
        1 <= k,
    ensures
        ({
            let r = search_active(s, c, reversed, k);
            0 <= r < s.len() && (s[r].active || s[r].is_player)
        }),
    decreases s.len() - k,
{
    if k >= s.len() {
        assert(is_player_at(s, player_index(s)));
    } else if !s[wrap_step(s.len() as int, c, k, reversed)].active {
        lemma_search_result(s, c, reversed, k + 1);
    }
}

/// Skipping a prefix of inactive candidates does not change what the search
/// finds.
proof fn lemma_search_skip(s: Seq<ActionableObject>, c: int, reversed: bool, k: int)
    requires
        1 <= k <= s.len(),
        forall|j: int| 1 <= j < k ==> !s[wrap_step(s.len() as int, c, j, reversed)].active,
    ensures
        search_active(s, c, reversed, 1) == search_active(s, c, reversed, k),
    decreases k,
{
    if k > 1 {
        lemma_search_skip(s, c, reversed, k - 1);
    }
}

/// Selecting only an existing candidate that is active or the player yields
/// a valid selection, and never touches who the player is.
proof fn lemma_select_only_valid(s: Seq<ActionableObject>, t: int)
    requires
        unique_player(s),
        0 <= t < s.len(),
        s[t].active || s[t].is_player,
    ensures
        valid_selection(select_only(s, t)),
{
    let sel = select_only(s, t);
    assert(is_selected_at(sel, t));
    assert forall|i: int| is_player_at(s, i) implies is_player_at(sel, i) by {}
    assert forall|i: int| is_player_at(sel, i) implies is_player_at(s, i) by {}
    assert(is_player_at(s, player_index(s)));
}

/// A cycle from any single-selection state restores the full selection
/// invariant: exactly one candidate ends up selected, and it is active or
/// the player.
pub proof fn lemma_cycle_tr_valid(s: Seq<ActionableObject>, reversed: bool)
    requires
        selection_wf(s),
    ensures
        valid_selection(cycle_tr(s, reversed)),
        cycle_tr(s, reversed).len() == s.len(),
{
    assert(is_selected_at(s, selected_index(s)));
    lemma_search_result(s, selected_index(s), reversed, 1);
    lemma_select_only_valid(s, cycle_target(s, reversed));
}

/// Find the index of the selected candidate.
fn find_selected(objects: &Vec<ActionableObject>) -> (c: usize)
    requires
        exists|i: int| is_selected_at(objects@, i),
        unique_selection(objects@),
    ensures
        c < objects@.len(),
        objects@[c as int].selected,
        c == selected_index(objects@),
{
    let ghost w = choose|i: int| is_selected_at(objects@, i);
    let n = objects.len();
    let mut c: usize = 0;
    while !objects[c].selected
        invariant
            n == objects@.len(),
            0 <= c < n,
            is_selected_at(objects@, w),
            forall|m: int| 0 <= m < c ==> !objects@[m].selected,
        decreases n - c,
    {
        assert(c + 1 <= w);
        c = c + 1;
    }
    assert(is_selected_at(objects@, c as int));
    c
}

/// Find the index of the player candidate.
fn find_player(objects: &Vec<ActionableObject>) -> (p: usize)
    requires
        unique_player(objects@),
    ensures
        p < objects@.len(),
        objects@[p as int].is_player,
        p == player_index(objects@),
{
    let ghost w = choose|i: int| is_player_at(objects@, i);
    let n = objects.len();
    let mut p: usize = 0;
    while !objects[p].is_player
        invariant
            n == objects@.len(),
            0 <= p < n,
            is_player_at(objects@, w),
            forall|m: int| 0 <= m < p ==> !objects@[m].is_player,
        decreases n - p,
    {
        assert(p + 1 <= w);
        p = p + 1;
    }
    assert(is_player_at(objects@, p as int));
    p
}

/// Move the selection to the next (or, `reversed`, previous) active
/// candidate in stable order with wrap-around, skipping inactive candidates;
/// when no other candidate is active, fall back to the player.
pub fn cycle(objects: &mut Vec<ActionableObject>, reversed: bool)
    requires
        selection_wf(old(objects)@),
    ensures
        final(objects)@ == cycle_tr(old(objects)@, reversed),
        valid_selection(final(objects)@),
{
    let ghost s = old(objects)@;
    let len = objects.len();
    let c = find_selected(objects);
    objects[c].selected = false;

    let mut k: usize = 1;
    let mut target: Option<usize> = None;
    while k < len && target.is_none()
        invariant
            objects@.len() == s.len(),
            len == s.len(),
            0 <= c < len,
            c == selected_index(s),
            1 <= k <= len,
            forall|i: int| 0 <= i < s.len() && i != c ==> objects@[i] == s[i],
            objects@[c as int] == (ActionableObject { selected: false, ..s[c as int] }),
            target is None ==> forall|j: int| 1 <= j < k ==> !s[wrap_step(s.len() as int, c as int, j, reversed)].active,
            target matches Some(t) ==> t < len && t == search_active(s, c as int, reversed, 1)
                && s[t as int].active,
        decreases len - k,
    {
        let idx = if reversed {
            if c >= k { c - k } else { len - (k - c) }
        } else {
            if k < len - c { c + k } else { k - (len - c) }
        };
        assert(idx == wrap_step(s.len() as int, c as int, k as int, reversed));
        assert(idx != c);
        if objects[idx].active {
            proof {
                lemma_search_skip(s, c as int, reversed, k as int);
            }
            assert(s[idx as int].active);
            target = Some(idx);
        } else {
            assert(!s[idx as int].active);
        }
        k = k + 1;
    }
    let t = match target {
        Some(t) => t,
        None => {
            proof {
                lemma_search_skip(s, c as int, reversed, len as int);
                assert forall|i: int| is_player_at(objects@, i) implies is_player_at(s, i) by {}
                assert forall|i: int| is_player_at(s, i) implies is_player_at(objects@, i) by {}
                assert(is_player_at(s, player_index(s)));
                assert(is_player_at(objects@, player_index(s)));
                assert forall|i: int, j: int|
                    is_player_at(objects@, i) && is_player_at(objects@, j) implies i == j by {
                    assert(is_player_at(s, i));
                    assert(is_player_at(s, j));
                }
                assert(unique_player(objects@));
            }
            let p = find_player(objects);
            proof {
                assert(is_player_at(s, p as int));
                assert(p == player_index(s));
            }
            p
        },
    };
    objects[t].selected = true;
    proof {
        assert(t == cycle_target(s, reversed));
        assert forall|i: int| 0 <= i < s.len() implies objects@[i] == cycle_tr(s, reversed)[i] by {
            if i != c && i != t {
                assert(!is_selected_at(s, i));
                assert(objects@[i] == s[i]);
            }
        }
        assert(objects@ =~= cycle_tr(s, reversed));
        lemma_cycle_tr_valid(s, reversed);
    }
}

/// Activating a candidate preserves the selection invariant: the selection
/// does not move, and the set of controllable candidates only grows.
pub proof fn lemma_activate_tr_valid(s: Seq<ActionableObject>, i: int)
    requires
        valid_selection(s),
        0 <= i < s.len(),
    ensures
        valid_selection(set_active(s, i, true)),
{
    let s2 = set_active(s, i, true);
    assert forall|j: int| is_selected_at(s2, j) implies is_selected_at(s, j) by {}
    assert forall|j: int| is_selected_at(s, j) implies is_selected_at(s2, j) by {}
    assert forall|j: int| is_player_at(s2, j) implies is_player_at(s, j) by {}
    assert forall|j: int| is_player_at(s, j) implies is_player_at(s2, j) by {}
    assert(is_selected_at(s, selected_index(s)));
    assert(is_player_at(s, player_index(s)));
    assert(is_selected_at(s2, selected_index(s)));
    assert(is_player_at(s2, player_index(s)));
    assert forall|j: int| is_selected_at(s2, j) implies s2[j].active || s2[j].is_player by {
        assert(is_selected_at(s, j));
    }
}

/// Deactivating a candidate preserves the selection invariant: if it was the
/// selected one, the implicit cycle moves the selection to a candidate that
/// can still be controlled.
pub proof fn lemma_deactivate_tr_valid(s: Seq<ActionableObject>, i: int)
    requires
        valid_selection(s),
        0 <= i < s.len(),
    ensures
        valid_selection(deactivate_tr(s, i)),
{
    let dropped = set_active(s, i, false);
    assert forall|j: int| is_selected_at(dropped, j) implies is_selected_at(s, j) by {}
    assert forall|j: int| is_selected_at(s, j) implies is_selected_at(dropped, j) by {}
    assert forall|j: int| is_player_at(dropped, j) implies is_player_at(s, j) by {}
    assert forall|j: int| is_player_at(s, j) implies is_player_at(dropped, j) by {}
    assert(is_selected_at(s, selected_index(s)));
    assert(is_player_at(s, player_index(s)));
    assert(is_selected_at(dropped, selected_index(s)));
    assert(is_player_at(dropped, player_index(s)));
    assert(selection_wf(dropped));
    if s[i].selected {
        lemma_cycle_tr_valid(dropped, false);
    } else {
        assert forall|j: int| is_selected_at(dropped, j) implies dropped[j].active || dropped[j].is_player by {
            assert(is_selected_at(s, j));
            assert(is_selected_at(s, i) ==> i == j);
        }
    }
}

/// Mark candidate `i` as controllable (for instance once its activation
/// button has been triggered); the selection does not move.
pub fn activate(objects: &mut Vec<ActionableObject>, i: usize)
    requires
        i < old(objects)@.len(),
        valid_selection(old(objects)@),
    ensures
        final(objects)@ == set_active(old(objects)@, i as int, true),
        valid_selection(final(objects)@),
{
    let ghost s = old(objects)@;
    objects[i].active = true;
    proof {
        assert(objects@ =~= set_active(s, i as int, true));
        lemma_activate_tr_valid(s, i as int);
    }
}

/// Mark candidate `i` as no longer controllable; deactivating the selected
/// candidate implicitly cycles the selection to the next active candidate,
/// or back to the player.
pub fn deactivate(objects: &mut Vec<ActionableObject>, i: usize)
    requires
        i < old(objects)@.len(),
        valid_selection(old(objects)@),
    ensures
        final(objects)@ == deactivate_tr(old(objects)@, i as int),
        valid_selection(final(objects)@),
{
    let ghost s = old(objects)@;
    let was_selected = objects[i].selected;
    objects[i].active = false;
    proof {
        let dropped = set_active(s, i as int, false);
        assert(objects@ =~= dropped);
        assert forall|j: int| is_selected_at(dropped, j) implies is_selected_at(s, j) by {}
        assert forall|j: int| is_selected_at(s, j) implies is_selected_at(dropped, j) by {}
        assert forall|j: int| is_player_at(dropped, j) implies is_player_at(s, j) by {}
        assert forall|j: int| is_player_at(s, j) implies is_player_at(dropped, j) by {}
        assert(is_selected_at(s, selected_index(s)));
        assert(is_player_at(s, player_index(s)));
        assert(is_selected_at(dropped, selected_index(s)));
        assert(is_player_at(dropped, player_index(s)));
        assert(selection_wf(dropped));
    }
    if was_selected {
        cycle(objects, false);
    } else {
        proof {
            lemma_deactivate_tr_valid(s, i as int);
        }
    }
}

/// One step of the selection logic, as the host drives it each tick.
pub enum SelOp {
    Cycle(bool),
    Activate(usize),
    Deactivate(usize),
}

/// The candidate list after one selection step; a step naming a candidate
/// that does not exist changes nothing.
pub open spec fn apply_op(s: Seq<ActionableObject>, op: SelOp) -> Seq<ActionableObject> {
    match op {
        SelOp::Cycle(reversed) => cycle_tr(s, reversed),
        SelOp::Activate(i) => if i < s.len() { set_active(s, i as int, true) } else { s },
        SelOp::Deactivate(i) => if i < s.len() { deactivate_tr(s, i as int) } else { s },
    }
}

/// The candidate list after a whole sequence of selection steps.
pub open spec fn apply_ops(s: Seq<ActionableObject>, ops: Seq<SelOp>) -> Seq<ActionableObject>
    decreases ops.len(),
{
    if ops.len() == 0 {
        s
    } else {
        apply_ops(apply_op(s, ops[0]), ops.skip(1))
    }
}

/// Selection invariant: after any sequence of cycle, activate and deactivate
/// steps, exactly one candidate is selected, and the selected one is active
/// or is the player.
pub proof fn lemma_selection_invariant(s: Seq<ActionableObject>, ops: Seq<SelOp>)
    requires
        valid_selection(s),
    ensures
        valid_selection(apply_ops(s, ops)),
    decreases ops.len(),
{
    if ops.len() > 0 {
        match ops[0] {
            SelOp::Cycle(reversed) => lemma_cycle_tr_valid(s, reversed),
            SelOp::Activate(i) => {
                if i < s.len() {
                    lemma_activate_tr_valid(s, i as int);
                }
            },
            SelOp::Deactivate(i) => {
                if i < s.len() {
                    lemma_deactivate_tr_valid(s, i as int);
                }
            },
        }
        lemma_selection_invariant(apply_op(s, ops[0]), ops.skip(1));
    }
}

} // verus!
