//! What holds of the kernel as a whole: stepping is deterministic and keeps
//! distinct seeds distinct, and a log replays to the state it was recorded
//! from.

use vstd::prelude::*;
use vstd::arithmetic::div_mod::{lemma_mul_mod_noop_left, lemma_mod_multiples_vanish, lemma_small_mod};
use crate::common::{EntityId, Transform};
use crate::kernel::world::{spec_splitmix64, WorldEvent, WorldState, WorldView};

verus! {

/// The seed reached from `seed` by `n` splitmix64 steps.
pub open spec fn seed_after(seed: u64, n: nat) -> u64
    decreases n,
{
    if n == 0 {
        seed
    } else {
        spec_splitmix64(seed_after(seed, (n - 1) as nat))
    }
}

/// The world reached from `w` by `n` steps.
pub open spec fn steps(w: WorldView, n: nat) -> WorldView
    decreases n,
{
    if n == 0 {
        w
    } else {
        steps(w, (n - 1) as nat).step()
    }
}

/// Where `n` steps lead: the tick has grown by `n`, the seed has been mixed
/// `n` times, and the entities are untouched.
pub proof fn lemma_steps_state(w: WorldView, n: nat)
    requires
        w.state.tick + n <= u64::MAX,
    ensures
        steps(w, n).state.tick == w.state.tick + n,
        steps(w, n).state.seed == seed_after(w.state.seed, n),
        steps(w, n).state.entities == w.state.entities,
    decreases n,
{
    if n > 0 {
        lemma_steps_state(w, (n - 1) as nat);
    }
}

/// Determinism: two worlds that agree on entities, tick and seed still agree
/// on them, and so on the state hash, after the same number of steps. What
/// their logs held before does not matter.
pub proof fn lemma_step_determinism(a: WorldView, b: WorldView, n: nat)
    requires
        a.state == b.state,
    ensures
        steps(a, n).state == steps(b, n).state,
        steps(a, n).state.tick == steps(b, n).state.tick,
        steps(a, n).state.seed == steps(b, n).state.seed,
        steps(a, n).state.hash() == steps(b, n).state.hash(),
    decreases n,
{
    if n > 0 {
        lemma_step_determinism(a, b, (n - 1) as nat);
    }
}

/// Determinism from a seed: a world created with seed `seed` and stepped `n`
/// times is at tick `n` with the seed mixed `n` times and no entities, so any
/// two such worlds have the same tick, seed and state hash.
pub proof fn lemma_seeded_run(seed: u64, n: nat)
    requires
        n <= u64::MAX,
    ensures
        steps(WorldView::fresh(seed), n).state == (WorldState {
            entities: Map::empty(),
            tick: n as u64,
            seed: seed_after(seed, n),
        }),
{
    lemma_steps_state(WorldView::fresh(seed), n);
}

proof fn lemma_xorshift_injective(a: u64, b: u64, k: u64)
    requires
        k == 27 || k == 30 || k == 31,
        a ^ (a >> k) == b ^ (b >> k),
    ensures
        a == b,
{
    assert(a == b) by (bit_vector)
        requires
            k == 27 || k == 30 || k == 31,
            a ^ (a >> k) == b ^ (b >> k),
    ;
}

proof fn lemma_odd_multiply_injective(a: u64, b: u64, m: u64, inverse: u64, carry: int)
    requires
        m * inverse == carry * 0x1_0000_0000_0000_0000 + 1,
        a.wrapping_mul(m) == b.wrapping_mul(m),
    ensures
        a == b,
{
    let n = 0x1_0000_0000_0000_0000int;
    let am = (a * m) % n;
    let bm = (b * m) % n;
    assert(am == bm);
    assert forall|x: u64| #[trigger] (((x * m) % n) * inverse) % n == x by {
        lemma_mul_mod_noop_left(x * m, inverse as int, n);
        assert(x * m * inverse == x * (m * inverse)) by (nonlinear_arith);
        assert(x * (carry * n + 1) == n * (x * carry) + x) by (nonlinear_arith);
        lemma_mod_multiples_vanish(x * carry, x as int, n);
        lemma_small_mod(x as nat, n as nat);
    }
    assert((am * inverse) % n == a);
    assert((bm * inverse) % n == b);
}

/// splitmix64 never maps two seeds to one.
pub proof fn lemma_splitmix64_injective(s1: u64, s2: u64)
    requires
        s1 != s2,
    ensures
        spec_splitmix64(s1) != spec_splitmix64(s2),
{
    let a0 = s1.wrapping_add(0x9e37_79b9_7f4a_7c15);
    let b0 = s2.wrapping_add(0x9e37_79b9_7f4a_7c15);
    assert(a0 != b0);
    let a1 = a0 ^ (a0 >> 30);
    let b1 = b0 ^ (b0 >> 30);
    if a1 == b1 {
        lemma_xorshift_injective(a0, b0, 30);
    }
    let a2 = a1.wrapping_mul(0xbf58_476d_1ce4_e5b9);
    let b2 = b1.wrapping_mul(0xbf58_476d_1ce4_e5b9);
    if a2 == b2 {
        lemma_odd_multiply_injective(
            a1,
            b1,
            0xbf58_476d_1ce4_e5b9,
            0x96de_1b17_3f11_9089,
            8125545580553827436,
        );
    }
    let a3 = a2 ^ (a2 >> 27);
    let b3 = b2 ^ (b2 >> 27);
    if a3 == b3 {
        lemma_xorshift_injective(a2, b2, 27);
    }
    let a4 = a3.wrapping_mul(0x94d0_49bb_1331_11eb);
    let b4 = b3.wrapping_mul(0x94d0_49bb_1331_11eb);
    if a4 == b4 {
        lemma_odd_multiply_injective(
            a3,
            b3,
            0x94d0_49bb_1331_11eb,
            0x3196_42b2_d24d_8ec3,
            2077064247507883091,
        );
    }
    if (a4 ^ (a4 >> 31)) == (b4 ^ (b4 >> 31)) {
        lemma_xorshift_injective(a4, b4, 31);
    }
}

/// Divergence: two worlds whose seeds differ have different seeds after one
/// step each.
pub proof fn lemma_different_seeds_diverge(a: WorldView, b: WorldView)
    requires
        a.state.seed != b.state.seed,
    ensures
        a.step().state.seed != b.step().state.seed,
{
    lemma_splitmix64_injective(a.state.seed, b.state.seed);
}

/// A logged operation on the world.
pub enum Operation {
    /// Spawn an entity under the given identifier.
    Spawn { id: EntityId, transform: Transform },
    /// Despawn an entity.
    Despawn { id: EntityId },
    /// Move an entity.
    SetTransform { id: EntityId, new: Transform },
    /// Advance the simulation by one tick.
    Step,
}

/// The world after one operation.
pub open spec fn perform(w: WorldView, op: Operation) -> WorldView {
    match op {
        Operation::Spawn { id, transform } => w.spawn_with_id(id, transform),
        Operation::Despawn { id } => w.despawn(id),
        Operation::SetTransform { id, new } => w.set_transform(id, new),
        Operation::Step => w.step(),
    }
}

/// The world after a sequence of operations.
pub open spec fn perform_all(w: WorldView, ops: Seq<Operation>) -> WorldView
    decreases ops.len(),
{
    if ops.len() == 0 {
        w
    } else {
        perform(perform_all(w, ops.drop_last()), ops.last())
    }
}

/// Operation implies event: an operation either leaves the world as it was,
/// log included, or logs exactly one event, and then the state it leaves is
/// the state that the event produces from the state it found. Tick and seed
/// change only with a step, which raises the tick by exactly one.
pub proof fn lemma_operation_implies_event(w: WorldView, op: Operation)
    ensures
        perform(w, op) == w || (perform(w, op).events == w.events.push(
            perform(w, op).events.last(),
        ) && perform(w, op).state == w.state.apply(perform(w, op).events.last())),
        perform(w, op).events == w.events ==> perform(w, op).state == w.state,
        !(op is Step) ==> perform(w, op).state.tick == w.state.tick && perform(w, op).state.seed
            == w.state.seed,
        op is Step && w.state.tick < u64::MAX ==> perform(w, op).state.tick == w.state.tick + 1
            && perform(w, op).state.seed == spec_splitmix64(w.state.seed),
{
    let after = perform(w, op);
    if after != w {
        let event = after.events.last();
        assert(after == w.log(event));
    }
    if after.events == w.events {
        if after != w {
            assert(after.events.len() == w.events.len() + 1);
        }
    }
}

/// The operations include a step.
pub open spec fn has_step(ops: Seq<Operation>) -> bool {
    exists|i: int| 0 <= i < ops.len() && #[trigger] ops[i] is Step
}

/// The events include a `Stepped` record.
pub open spec fn has_stepped(events: Seq<WorldEvent>) -> bool {
    exists|i: int| 0 <= i < events.len() && #[trigger] events[i] is Stepped
}

/// The state of `w` is what its log produces from a fresh world with seed
/// `seed`: nothing has changed the world without being logged, and nothing
/// has been drained from the log.
pub open spec fn recorded_since(w: WorldView, seed: u64) -> bool {
    w.state == WorldState::initial(seed).apply_all(w.events)
}

/// Logging a mutation keeps the log faithful to the state.
pub proof fn lemma_log_keeps_record(w: WorldView, seed: u64, event: WorldEvent)
    requires
        recorded_since(w, seed),
    ensures
        recorded_since(w.log(event), seed),
{
    assert(w.events.push(event).drop_last() =~= w.events);
}

/// Every operation keeps the log faithful to the state, and a step leaves a
/// `Stepped` record in the log.
pub proof fn lemma_perform_keeps_record(w: WorldView, seed: u64, op: Operation)
    requires
        recorded_since(w, seed),
    ensures
        recorded_since(perform(w, op), seed),
        has_stepped(w.events) ==> has_stepped(perform(w, op).events),
        op is Step ==> has_stepped(perform(w, op).events),
{
    let after = perform(w, op);
    if after != w {
        let event = after.events.last();
        assert(after == w.log(event));
        lemma_log_keeps_record(w, seed, event);
        if has_stepped(w.events) {
            let i = choose|i: int| 0 <= i < w.events.len() && #[trigger] w.events[i] is Stepped;
            assert(after.events[i] is Stepped);
        }
        if op is Step {
            assert(after.events[after.events.len() - 1] is Stepped);
        }
    } else {
        assert(!(op is Step)) by {
            if op is Step {
                assert(w.step().events.len() == w.events.len() + 1);
            }
        }
    }
}

/// Operations performed on a fresh world keep its log faithful to its state.
pub proof fn lemma_perform_all_keeps_record(seed: u64, ops: Seq<Operation>)
    ensures
        recorded_since(perform_all(WorldView::fresh(seed), ops), seed),
        has_step(ops) ==> has_stepped(perform_all(WorldView::fresh(seed), ops).events),
    decreases ops.len(),
{
    if ops.len() > 0 {
        let before = perform_all(WorldView::fresh(seed), ops.drop_last());
        lemma_perform_all_keeps_record(seed, ops.drop_last());
        lemma_perform_keeps_record(before, seed, ops.last());
        if has_step(ops) {
            let i = choose|i: int| 0 <= i < ops.len() && #[trigger] ops[i] is Step;
            if i < ops.len() - 1 {
                assert(ops.drop_last()[i] is Step);
            }
        }
    }
}

/// Applying the same events to two states with the same entities gives states
/// with the same entities. Tick and seed agree as well if they agreed before
/// or if the events include a `Stepped` record, which overwrites both.
pub proof fn lemma_apply_all_converges(a: WorldState, b: WorldState, events: Seq<WorldEvent>)
    requires
        a.entities == b.entities,
    ensures
        a.apply_all(events).entities == b.apply_all(events).entities,
        (a.tick == b.tick && a.seed == b.seed) || has_stepped(events) ==> a.apply_all(events)
            == b.apply_all(events),
    decreases events.len(),
{
    if events.len() > 0 {
        let head = events.drop_last();
        lemma_apply_all_converges(a, b, head);
        if has_stepped(events) && !(events.last() is Stepped) {
            let i = choose|i: int| 0 <= i < events.len() && #[trigger] events[i] is Stepped;
            assert(head[i] is Stepped);
        }
    }
}

/// Replay equivalence for a faithful log: if the state of `w` is what its log
/// produces from a fresh world with seed `seed`, then replaying the log
/// rebuilds the entities of `w`; it rebuilds tick and seed, and so the state
/// hash, if the seed was 0 or the log has a `Stepped` record.
pub proof fn lemma_replay_rebuilds(w: WorldView, seed: u64)
    requires
        recorded_since(w, seed),
    ensures
        WorldState::replay(w.events).entities == w.state.entities,
        seed == 0 || has_stepped(w.events) ==> WorldState::replay(w.events) == w.state,
        seed == 0 || has_stepped(w.events) ==> WorldState::replay(w.events).hash()
            == w.state.hash(),
{
    lemma_apply_all_converges(WorldState::initial(0), WorldState::initial(seed), w.events);
}

/// Replay equivalence: after any sequence of spawn, despawn, set-transform and
/// step operations on a world created with seed `seed`, replaying the world's
/// events gives the world's state, and so its state hash.
///
/// A replay starts from seed 0 and learns the seed only from `Stepped`
/// records, so this needs the seed to be 0 or a step among the operations.
/// The entities are rebuilt in any case.
pub proof fn lemma_replay_equivalence(seed: u64, ops: Seq<Operation>)
    ensures
        ({
            let w = perform_all(WorldView::fresh(seed), ops);
            &&& WorldState::replay(w.events).entities == w.state.entities
            &&& seed == 0 || has_step(ops) ==> WorldState::replay(w.events) == w.state
            &&& seed == 0 || has_step(ops) ==> WorldState::replay(w.events).hash()
                == w.state.hash()
        }),
{
    lemma_perform_all_keeps_record(seed, ops);
    lemma_replay_rebuilds(perform_all(WorldView::fresh(seed), ops), seed);
}

} // verus!
