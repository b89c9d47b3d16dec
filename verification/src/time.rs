//! The bounded per-tick history stack and the cursor bookkeeping that tracks
//! how far into the past the simulation currently stands.

use vstd::prelude::*;
use crate::player;

verus! {

/// Capacity of the history stack: the number of ticks that can be recorded.
pub const STACK_MAX_SIZE: usize = 900;

/// Errors of the history stack.  `OutOfRange` reports a request for a slot
/// index at or beyond the current length of the recorded history; it means
/// the caller broke the driving protocol, never a normal boundary condition.
#[derive(Debug, PartialEq, Eq, Structural, Clone, Copy)]
pub enum Error {
    OutOfRange,
}

/// The history stack and the cursor into it.
///
/// `physics_state` holds one snapshot per recorded tick, newest first, at
/// most [`STACK_MAX_SIZE`] of them; slot `i` is the simulation state captured
/// `i` ticks before the newest recorded one.  The snapshot payload `S` is
/// opaque to the engine.
pub struct Stack<S> {
    /// Recorded snapshots, newest first.
    pub physics_state: Vec<Option<S>>,
    /// Ticks spent at the present since the level began; never decreases.
    pub count: usize,
    /// Ticks currently rewound into the past; `0` means the live present.
    pub index: usize,
    /// Highest index up to which the current branch has already been cut.
    pub index_cleared: usize,
    /// Rewind depth still unlocked (earned minus permanently consumed).
    pub index_max: usize,
    /// Depth consumed so far in the rewind session now running.  A session's
    /// exit clears this counter, so every session — also one entered again
    /// before the cursor returned to the present — starts counting at zero.
    pub di: usize,
}

/// One controllable candidate as the selection logic sees it: whether it can
/// currently be taken control of, whether it is the one the player drives
/// this tick, whether it is the always-available player actor, and the
/// texture its selection tile is drawn with.
#[derive(Debug, Clone, Copy)]
pub struct ActionableObject {
    pub active: bool,
    pub selected: bool,
    pub is_player: bool,
    pub tile_texture_name: &'static str,
}

/// Mathematical model of a [`Stack`]: the recorded history as a sequence and
/// the five cursor counters as unbounded naturals.
pub ghost struct StackView<S> {
    pub hist: Seq<Option<S>>,
    pub count: nat,
    pub index: nat,
    pub index_cleared: nat,
    pub index_max: nat,
    pub di: nat,
}

impl<S> View for Stack<S> {
    type V = StackView<S>;

    open spec fn view(&self) -> StackView<S> {
        StackView {
            hist: self.physics_state@,
            count: self.count as nat,
            index: self.index as nat,
            index_cleared: self.index_cleared as nat,
            index_max: self.index_max as nat,
            di: self.di as nat,
        }
    }
}

/// Well-formedness of the cursor state: the history never exceeds capacity,
/// the cursor never points past the recorded history, the branch-cut marker
/// never passes the cursor, and the depth consumed in the running session
/// never exceeds the unlocked depth.
pub open spec fn wf<S>(v: StackView<S>) -> bool {
    &&& v.hist.len() <= STACK_MAX_SIZE
    &&& v.index <= v.hist.len()
    &&& v.index_cleared <= v.index
    &&& v.di <= v.index_max
}

/// The history sequence after one per-tick write: at the present (cursor
/// `index == 0`) the new element becomes the newest slot, otherwise it
/// overwrites the slot the cursor rests on; then the oldest slots are
/// evicted until at most [`STACK_MAX_SIZE`] remain.
pub open spec fn stack_update<T>(s: Seq<Option<T>>, e: Option<T>, index: nat) -> Seq<Option<T>> {
    let written = if index == 0 {
        seq![e] + s
    } else {
        s.update(index - 1, e)
    };
    if written.len() > STACK_MAX_SIZE {
        written.take(STACK_MAX_SIZE as int)
    } else {
        written
    }
}

/// An action stream with the slots in `[from, to)` cut out: those slots hold
/// no recorded action any more, every other slot is untouched.
pub open spec fn clear_range<T>(s: Seq<Option<T>>, from: nat, to: nat) -> Seq<Option<T>> {
    Seq::new(s.len(), |i: int| if from <= i < to { None } else { s[i] })
}

/// Write one tick into a history buffer: prepend at the present, overwrite
/// at slot `index - 1` when rewound, then evict the oldest slots beyond
/// capacity.
pub fn update_stack<T>(stack: &mut Vec<Option<T>>, new_element: Option<T>, index: usize)
    requires
        index == 0 || index - 1 < old(stack).len(),
    ensures
        final(stack)@ == stack_update(old(stack)@, new_element, index as nat),
{
    let ghost written = if index == 0 { seq![new_element] + old(stack)@ } else { old(stack)@.update(index - 1, new_element) };
    if index == 0 {
        stack.insert(0, new_element);
    } else {
        stack[index - 1] = new_element;
    }
    assert(stack@ =~= written.take(stack.len() as int));
    while stack.len() > STACK_MAX_SIZE
        invariant
            stack@ =~= written.take(stack.len() as int),
            stack.len() <= written.len(),
            stack.len() >= STACK_MAX_SIZE || stack.len() == written.len(),
        decreases stack.len(),
    {
        stack.pop();
        assert(stack@ =~= written.take(stack.len() as int));
    }
    assert(stack@ =~= stack_update(old(stack)@, new_element, index as nat));
}

impl<S> Default for Stack<S> {
    /// The stack a level starts with: empty history, all counters zeroed.
    fn default() -> (s: Stack<S>)
        ensures
            s@.hist == Seq::<Option<S>>::empty(),
            s@.count == 0 && s@.index == 0 && s@.index_cleared == 0,
            s@.index_max == 0 && s@.di == 0,
            wf(s@),
    {
        Stack::new()
    }
}

impl<S> Stack<S> {
    /// An empty history with all counters zeroed, as created at level start.
    pub fn new() -> (s: Self)
        ensures
            s@.hist == Seq::<Option<S>>::empty(),
            s@.count == 0 && s@.index == 0 && s@.index_cleared == 0,
            s@.index_max == 0 && s@.di == 0,
            wf(s@),
    {
        Stack {
            physics_state: Vec::new(),
            count: 0,
            index: 0,
            index_cleared: 0,
            index_max: 0,
            di: 0,
        }
    }

    /// The recorded slot `index` ticks before the newest one, or
    /// `Error::OutOfRange` exactly when no such tick is recorded.
    pub fn get(&self, index: usize) -> (r: Result<&Option<S>, Error>)
        ensures
            index < self@.hist.len() ==> (r matches Ok(s) && *s == self@.hist[index as int]),
            index >= self@.hist.len() ==> (r matches Err(e) && e == Error::OutOfRange),
    {
        if index < self.physics_state.len() {
            Ok(&self.physics_state[index])
        } else {
            Err(Error::OutOfRange)
        }
    }

    /// Unlock `extra` additional ticks of rewind depth.  Nothing else ever
    /// increases `index_max`, and only a rewind session's exit decreases it.
    pub fn grant(&mut self, extra: usize)
        requires
            old(self).index_max + extra <= usize::MAX,
        ensures
            final(self)@ == (StackView { index_max: (old(self)@.index_max + extra) as nat, ..old(self)@ }),
            wf(old(self)@) ==> wf(final(self)@),
    {
        self.index_max = self.index_max + extra;
    }
}

/// The history stack after one recording step: this tick's snapshot written
/// at the cursor, the cursor and counters untouched.
pub open spec fn record_tr<S>(v: StackView<S>, snapshot: Option<S>) -> StackView<S> {
    StackView { hist: stack_update(v.hist, snapshot, v.index), ..v }
}

/// One actor's state after the recording step: the chosen action moved out
/// of `current_action` and written into its stream at the cursor.
pub open spec fn recorded_actor(p: player::StateView, index: nat) -> player::StateView {
    player::StateView {
        current_action: None,
        action_stack: stack_update(p.action_stack, p.current_action, index),
    }
}

/// Whether activating the rewind input starts a rewind session: only when
/// some unlocked depth remains; with `index_max == 0` activation is a no-op.
pub open spec fn begins_rewind<S>(v: StackView<S>, activated: bool) -> bool {
    activated && v.index_max > 0
}

/// Whether this rewind step is the session's last: the input was released or
/// is no longer held, the recorded past is exhausted, or the unlocked depth
/// is used up.  The checks see the cursor and consumption after the step.
pub open spec fn rewind_exits<S>(v: StackView<S>, deactivated: bool, held: bool) -> bool {
    deactivated || !held || v.index + 1 >= v.hist.len() || v.di + 1 >= v.index_max
}

/// The stack after one rewind step: the cursor moves one tick into the past
/// and one tick of depth is consumed; when the step ends the session, the
/// consumed depth is permanently spent (`index_max` shrinks by it) and the
/// session counter resets.
pub open spec fn rewind_tr<S>(v: StackView<S>, deactivated: bool, held: bool) -> StackView<S> {
    let stepped = StackView { index: v.index + 1, di: v.di + 1, ..v };
    if rewind_exits(v, deactivated, held) {
        StackView { index_max: (stepped.index_max - stepped.di) as nat, di: 0, ..stepped }
    } else {
        stepped
    }
}

/// The stack after one replay step: in the past the cursor moves one tick
/// toward the present, at the present the tick counter advances; the
/// branch-cut boundary is clamped so it never passes the cursor.
pub open spec fn replay_tr<S>(v: StackView<S>) -> StackView<S> {
    let stepped = if v.index > 0 {
        StackView { index: (v.index - 1) as nat, ..v }
    } else {
        StackView { count: v.count + 1, ..v }
    };
    if stepped.index_cleared > stepped.index {
        StackView { index_cleared: stepped.index, ..stepped }
    } else {
        stepped
    }
}

/// One actor's state after the replay step from cursor `index_before`: while
/// the stepped cursor still sits in the past, the action recorded just below
/// it is put forward for ghost playback; otherwise the actor is untouched.
pub open spec fn replayed_actor(p: player::StateView, index_before: nat) -> player::StateView {
    if index_before > 1 {
        player::StateView { current_action: p.action_stack[index_before - 2], ..p }
    } else {
        p
    }
}

/// Every actor's recorded stream has exactly one slot per recorded snapshot.
pub open spec fn synced<S>(v: StackView<S>, players: Seq<player::State>) -> bool {
    forall|i: int| 0 <= i < players.len() ==> #[trigger] players[i]@.action_stack.len() == v.hist.len()
}

/// The recording step, run once per tick at the present or during replay:
/// write this tick's snapshot and every actor's chosen action into the
/// history at the cursor, evicting the oldest slots beyond capacity, and
/// report whether a rewind session begins (rewind input activated and some
/// unlocked depth left).
pub fn update_stacks<S>(
    stack: &mut Stack<S>,
    snapshot: Option<S>,
    players: &mut Vec<player::State>,
    activated: bool,
) -> (begin_rewind: bool)
    requires
        wf(old(stack)@),
        synced(old(stack)@, old(players)@),
    ensures
        final(stack)@ == record_tr(old(stack)@, snapshot),
        wf(final(stack)@),
        final(players)@.len() == old(players)@.len(),
        forall|i: int| 0 <= i < old(players)@.len()
            ==> #[trigger] final(players)@[i]@ == recorded_actor(old(players)@[i]@, old(stack)@.index),
        synced(final(stack)@, final(players)@),
        begin_rewind == begins_rewind(old(stack)@, activated),
{
    let index = stack.index;
    update_stack(&mut stack.physics_state, snapshot, index);
    let n = players.len();
    for i in 0..n
        invariant
            n == players@.len() == old(players)@.len(),
            index == old(stack)@.index,
            stack@ == record_tr(old(stack)@, snapshot),
            forall|j: int| i <= j < n ==> players@[j] == old(players)@[j],
            forall|j: int| 0 <= j < i
                ==> #[trigger] players@[j]@ == recorded_actor(old(players)@[j]@, old(stack)@.index),
            synced(old(stack)@, old(players)@),
            index == 0 || index - 1 < old(stack)@.hist.len(),
    {
        assert(players@[i as int]@.action_stack.len() == old(stack)@.hist.len());
        let taken = players[i].current_action.take();
        update_stack(&mut players[i].action_stack, taken, index);
    }
    proof {
        lemma_stack_update_len(old(stack)@.hist, snapshot, index as nat);
        assert forall|i: int| 0 <= i < players@.len()
            implies #[trigger] players@[i]@.action_stack.len() == stack@.hist.len() by {
            lemma_stack_update_len(old(players)@[i]@.action_stack, old(players)@[i]@.current_action, index as nat);
        }
    }
    activated && stack.index_max > 0
}

/// Two parallel streams of equal length keep equal lengths across one
/// recording step at the same cursor.
proof fn lemma_stack_update_len<T>(s: Seq<Option<T>>, e: Option<T>, index: nat)
    requires
        s.len() <= STACK_MAX_SIZE,
        index == 0 || index - 1 < s.len(),
    ensures
        stack_update(s, e, index).len() == if index == 0 {
            if s.len() + 1 > STACK_MAX_SIZE { STACK_MAX_SIZE as nat } else { (s.len() + 1) as nat }
        } else {
            s.len()
        },
{
}

/// One rewind step: move the cursor one tick deeper into the past and
/// consume one tick of unlocked depth.  Returns the slot the host must
/// restore the physics collaborator from, and whether the session ends with
/// this step (on exit the consumed depth is permanently deducted).
pub fn rewind<S>(stack: &mut Stack<S>, deactivated: bool, held: bool) -> (r: (usize, bool))
    requires
        wf(old(stack)@),
        old(stack)@.index < old(stack)@.hist.len(),
        old(stack)@.di < old(stack)@.index_max,
    ensures
        final(stack)@ == rewind_tr(old(stack)@, deactivated, held),
        wf(final(stack)@),
        r.0 == old(stack)@.index,
        r.0 < final(stack)@.hist.len(),
        r.1 == rewind_exits(old(stack)@, deactivated, held),
{
    stack.index = stack.index + 1;
    stack.di = stack.di + 1;
    let restore = stack.index - 1;
    let exit = deactivated || !held || stack.index >= stack.physics_state.len() || stack.di >= stack.index_max;
    if exit {
        stack.index_max = stack.index_max - stack.di;
        stack.di = 0;
    }
    (restore, exit)
}

/// One replay step, run each tick while recording: while the cursor is in
/// the past it moves one tick toward the present and every actor receives
/// the action recorded below the stepped cursor for ghost playback; at the
/// present the tick counter advances instead.  The branch-cut boundary never
/// passes the cursor.
pub fn replay<S>(stack: &mut Stack<S>, players: &mut Vec<player::State>)
    requires
        wf(old(stack)@),
        synced(old(stack)@, old(players)@),
        old(stack)@.index > 0 || old(stack)@.count < usize::MAX,
    ensures
        final(stack)@ == replay_tr(old(stack)@),
        wf(final(stack)@),
        final(players)@.len() == old(players)@.len(),
        forall|i: int| 0 <= i < old(players)@.len()
            ==> #[trigger] final(players)@[i]@ == replayed_actor(old(players)@[i]@, old(stack)@.index),
        synced(final(stack)@, final(players)@),
{
    if stack.index > 0 {
        stack.index = stack.index - 1;
        if stack.index > 0 {
            let slot = stack.index - 1;
            let n = players.len();
            for i in 0..n
                invariant
                    n == players@.len() == old(players)@.len(),
                    slot == old(stack)@.index - 2,
                    old(stack)@.index > 1,
                    old(stack)@.index <= old(stack)@.hist.len(),
                    stack@ == (StackView { index: (old(stack)@.index - 1) as nat, ..old(stack)@ }),
                    forall|j: int| i <= j < n ==> players@[j] == old(players)@[j],
                    forall|j: int| 0 <= j < i
                        ==> #[trigger] players@[j]@ == replayed_actor(old(players)@[j]@, old(stack)@.index),
                    synced(old(stack)@, old(players)@),
            {
                let ghost before = players@[i as int]@;
                assert(players@[i as int]@.action_stack.len() == old(stack)@.hist.len());
                let a = players[i].action_stack[slot];
                players[i].current_action = a;
                assert(players@[i as int]@ == replayed_actor(before, old(stack)@.index));
            }
        }
    } else {
        stack.count = stack.count + 1;
    }
    if stack.index_cleared > stack.index {
        stack.index_cleared = stack.index;
    }
}

/// The stack after a grant of `extra` ticks of rewind depth.
pub open spec fn grant_tr<S>(v: StackView<S>, extra: nat) -> StackView<S> {
    StackView { index_max: v.index_max + extra, ..v }
}

/// The stack after `snaps` successive recording steps.
pub open spec fn apply_records<S>(v: StackView<S>, snaps: Seq<Option<S>>) -> StackView<S>
    decreases snaps.len(),
{
    if snaps.len() == 0 {
        v
    } else {
        apply_records(record_tr(v, snaps[0]), snaps.skip(1))
    }
}

/// The stack after `n` rewind steps with the rewind input held throughout.
pub open spec fn rewind_steps<S>(v: StackView<S>, n: nat) -> StackView<S>
    decreases n,
{
    if n == 0 {
        v
    } else {
        rewind_steps(rewind_tr(v, false, true), (n - 1) as nat)
    }
}

/// One recording step keeps the stack well formed.
pub proof fn lemma_record_preserves_wf<S>(v: StackView<S>, snapshot: Option<S>)
    requires
        wf(v),
    ensures
        wf(record_tr(v, snapshot)),
{
    lemma_stack_update_len(v.hist, snapshot, v.index);
}

/// Capacity invariant: whatever sequence of recording steps runs, the
/// history never holds more than [`STACK_MAX_SIZE`] slots and the stack
/// stays well formed.
pub proof fn lemma_capacity_invariant<S>(v: StackView<S>, snaps: Seq<Option<S>>)
    requires
        wf(v),
    ensures
        wf(apply_records(v, snaps)),
        apply_records(v, snaps).hist.len() <= STACK_MAX_SIZE,
    decreases snaps.len(),
{
    if snaps.len() > 0 {
        lemma_record_preserves_wf(v, snaps[0]);
        lemma_capacity_invariant(record_tr(v, snaps[0]), snaps.skip(1));
    }
}

/// Eviction order: recording at the present with a full history drops
/// exactly the oldest slot; every younger slot survives in order.
pub proof fn lemma_eviction_order<S>(v: StackView<S>, snapshot: Option<S>)
    requires
        v.index == 0,
        v.hist.len() == STACK_MAX_SIZE,
    ensures
        record_tr(v, snapshot).hist =~= seq![snapshot] + v.hist.take(STACK_MAX_SIZE - 1),
{
}

/// Recording at the present only prepends: an existing slot keeps its value
/// and moves one position deeper per recorded tick, as long as it is not
/// evicted; the cursor stays at the present.
proof fn lemma_records_shift<S>(v: StackView<S>, snaps: Seq<Option<S>>, k: int)
    requires
        wf(v),
        v.index == 0,
        0 <= k < v.hist.len(),
        k + snaps.len() < STACK_MAX_SIZE,
    ensures
        wf(apply_records(v, snaps)),
        apply_records(v, snaps).index == 0,
        apply_records(v, snaps).hist.len() > k + snaps.len(),
        apply_records(v, snaps).hist[k + snaps.len()] == v.hist[k],
    decreases snaps.len(),
{
    if snaps.len() > 0 {
        lemma_record_preserves_wf(v, snaps[0]);
        lemma_records_shift(record_tr(v, snaps[0]), snaps.skip(1), k + 1);
    }
}

/// A rewind step never touches the recorded history, and moves the cursor
/// one tick deeper whether or not the step ends the session.
pub proof fn lemma_rewind_cursor<S>(v: StackView<S>, n: nat)
    ensures
        rewind_steps(v, n).hist == v.hist,
        rewind_steps(v, n).index == v.index + n,
    decreases n,
{
    if n > 0 {
        lemma_rewind_cursor(rewind_tr(v, false, true), (n - 1) as nat);
    }
}

/// While a rewind session keeps running (history and budget strictly not
/// exhausted), no step ends it: each of the `n` steps consumes exactly one
/// tick of depth and nothing is deducted from the unlocked depth yet.
pub proof fn lemma_rewind_session<S>(v: StackView<S>, n: nat)
    requires
        v.index + n < v.hist.len(),
        v.di + n < v.index_max,
    ensures
        rewind_steps(v, n).di == v.di + n,
        rewind_steps(v, n).index == v.index + n,
        rewind_steps(v, n).index_max == v.index_max,
        rewind_steps(v, n).count == v.count,
        rewind_steps(v, n).index_cleared == v.index_cleared,
        rewind_steps(v, n).hist == v.hist,
    decreases n,
{
    if n > 0 {
        assert(!rewind_exits(v, false, true));
        lemma_rewind_session(rewind_tr(v, false, true), (n - 1) as nat);
    }
}

/// Restore fidelity: record a snapshot at the present, record `later` more
/// ticks, then rewind `later.len() + 1` steps.  The history is untouched by
/// the rewind, the cursor stands exactly that many ticks in the past, and
/// the slot the final rewind step restores from still holds that snapshot:
/// what comes back out of the history is what was captured that many ticks
/// before the present.
pub proof fn lemma_restore_fidelity<S>(v: StackView<S>, snapshot: Option<S>, later: Seq<Option<S>>)
    requires
        wf(v),
        v.index == 0,
        later.len() + 1 <= STACK_MAX_SIZE,
    ensures
        ({
            let recorded = apply_records(record_tr(v, snapshot), later);
            let n = later.len() + 1;
            &&& recorded.hist[n - 1] == snapshot
            &&& rewind_steps(recorded, n).hist == recorded.hist
            &&& rewind_steps(recorded, n).index == n
            // the slot restored by the n-th step is the one below the
            // cursor the step starts from
            &&& rewind_steps(recorded, (n - 1) as nat).index == n - 1
        }),
{
    lemma_record_preserves_wf(v, snapshot);
    lemma_records_shift(record_tr(v, snapshot), later, 0);
    let recorded = apply_records(record_tr(v, snapshot), later);
    lemma_rewind_cursor(recorded, later.len() + 1);
    lemma_rewind_cursor(recorded, later.len());
}

/// Budget conservation: with `index_max == M` and a fresh session, rewinding
/// `k <= M` ticks and releasing the input on the last one leaves
/// `index_max == M - k` with the session counter reset, and a later grant of
/// `g` leaves `index_max == M - k + g`.
pub proof fn lemma_budget_conservation<S>(v: StackView<S>, k: nat, g: nat)
    requires
        wf(v),
        v.di == 0,
        1 <= k <= v.index_max,
        v.index + k <= v.hist.len(),
    ensures
        ({
            let session = rewind_tr(rewind_steps(v, (k - 1) as nat), true, true);
            &&& session.index_max == v.index_max - k
            &&& session.di == 0
            &&& grant_tr(session, g).index_max == v.index_max - k + g
        }),
{
    if k > 1 {
        lemma_rewind_session(v, (k - 1) as nat);
    }
}

/// Under the per-tick driving order — a replay step, then a recording step —
/// the cursor always ends up on a recorded slot.  With unlocked depth at
/// hand this is exactly what the first step of a rewind session begun on
/// this tick requires.
pub proof fn lemma_tick_enables_rewind<S>(v: StackView<S>, snapshot: Option<S>)
    requires
        wf(v),
    ensures
        wf(record_tr(replay_tr(v), snapshot)),
        record_tr(replay_tr(v), snapshot).index < record_tr(replay_tr(v), snapshot).hist.len(),
{
    let v1 = replay_tr(v);
    lemma_record_preserves_wf(v1, snapshot);
    lemma_stack_update_len(v1.hist, snapshot, v1.index);
}

/// A rewind step that does not end the session leaves the cursor on a
/// recorded slot with depth still to spare: the next step's preconditions
/// hold again, so a running session can always take its next step.
pub proof fn lemma_rewind_continues<S>(v: StackView<S>, deactivated: bool, held: bool)
    requires
        wf(v),
        v.index < v.hist.len(),
        v.di < v.index_max,
        !rewind_exits(v, deactivated, held),
    ensures
        ({
            let w = rewind_tr(v, deactivated, held);
            wf(w) && w.index < w.hist.len() && w.di < w.index_max
        }),
{
}

/// Branch-cut: cutting an actor's stream at cursor `p` leaves every slot
/// from the old boundary up to `p` without a recorded action and every slot
/// outside that range untouched; a cleared slot replays as "no action"; and
/// once the boundary stands at `p`, cutting again at the same cursor changes
/// nothing.
pub proof fn lemma_branch_cut(acts: Seq<Option<player::Action>>, from: nat, p: nat)
    requires
        from <= p <= acts.len(),
    ensures
        forall|i: int| from <= i < p ==> clear_range(acts, from, p)[i] is None,
        forall|i: int| 0 <= i < acts.len() && !(from <= i < p) ==> clear_range(acts, from, p)[i] == acts[i],
        forall|cur: Option<player::Action>, j: nat|
            from + 2 <= j <= p + 1 ==> replayed_actor(
                player::StateView { current_action: cur, action_stack: clear_range(acts, from, p) },
                j,
            ).current_action is None,
        clear_range(clear_range(acts, from, p), p, p) =~= clear_range(acts, from, p),
{
}

} // verus!
