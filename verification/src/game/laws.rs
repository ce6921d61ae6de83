//! What holds of the world across its operations.
use vstd::prelude::*;

use super::{
    AspectRatio, GameSimulation, Object, ObjectInfo, ToGame, frame_of, has_mesh,
    ratio_after_message, ratio_after_messages, swap_removed,
};
use crate::render::{FrameObjectData, IPooledInstance};

verus! {

/// Registering an object keeps one entry per object in every per-object
/// sequence and leaves its mesh path registered; an object without a mesh
/// (empty path) requests no load.
pub proof fn law_register_keeps_alignment<L, C>(
    before: GameSimulation<L, C>,
    after: GameSimulation<L, C>,
    object: Object,
    custom: C,
)
    requires
        before.aligned(),
        before.registers(after, object, custom),
    ensures
        after.aligned(),
        after.objects().len() == before.objects().len() + 1,
        has_mesh(object) ==> after.meshes().contains_key(object.mesh_path@),
        !has_mesh(object) ==> after.pending_loads() == before.pending_loads()
            && after.meshes() == before.meshes(),
{
}

/// Killing an object keeps one entry per object in every per-object
/// sequence.
pub proof fn law_kill_keeps_alignment<L, C>(
    before: GameSimulation<L, C>,
    after: GameSimulation<L, C>,
    index: int,
)
    requires
        before.aligned(),
        0 <= index < before.infos().len(),
        before.kills(after, index),
    ensures
        after.aligned(),
{
}

/// Killing an object that was killed already changes nothing more.
pub proof fn law_kill_is_idempotent<L, C>(
    g0: GameSimulation<L, C>,
    g1: GameSimulation<L, C>,
    g2: GameSimulation<L, C>,
    index: int,
)
    requires
        0 <= index < g0.infos().len(),
        g0.kills(g1, index),
        g1.kills(g2, index),
    ensures
        g2.infos() == g1.infos(),
        g2.objects() == g1.objects(),
        g2.customs() == g1.customs(),
        g2.frames() == g1.frames(),
        g1.same_setting(g2),
{
    assert(g2.infos() =~= g1.infos());
}

/// A mesh path is queued for loading once: registering a second object with
/// the same mesh path requests no load and leaves the mesh registry as it is.
pub proof fn law_mesh_requested_once<L, C>(
    g0: GameSimulation<L, C>,
    g1: GameSimulation<L, C>,
    g2: GameSimulation<L, C>,
    first: Object,
    first_custom: C,
    second: Object,
    second_custom: C,
)
    requires
        g0.registers(g1, first, first_custom),
        g1.registers(g2, second, second_custom),
        first.mesh_path@ == second.mesh_path@,
    ensures
        g2.pending_loads() == g1.pending_loads(),
        g2.meshes() == g1.meshes(),
{
}

/// An update step of the object at `index` (taking it out, then settling it
/// with whatever its behaviour made of it) keeps one entry per object in
/// every per-object sequence; the object stays exactly when it is alive.
pub proof fn law_update_step_keeps_alignment<L, C>(
    before: GameSimulation<L, C>,
    detached: GameSimulation<L, C>,
    after: GameSimulation<L, C>,
    index: int,
    custom: C,
    object: Object,
    frame: FrameObjectData,
    updated_object: Object,
    updated_custom: C,
    drawn: Option<IPooledInstance>,
)
    requires
        before.aligned(),
        0 <= index < before.objects().len(),
        before.detaches_for_update(detached, index, custom, object, frame),
        detached.settles_after_update(after, index, updated_object, updated_custom, frame, drawn),
    ensures
        after.aligned(),
        after.objects().len() == if before.infos()[index].is_alive {
            before.objects().len() as int
        } else {
            before.objects().len() - 1
        },
{
}

/// A killed object leaves the world at its next update step, and is not
/// drawn.
pub proof fn law_killed_object_leaves_at_update<L, C>(
    g0: GameSimulation<L, C>,
    killed: GameSimulation<L, C>,
    detached: GameSimulation<L, C>,
    after: GameSimulation<L, C>,
    index: int,
    custom: C,
    object: Object,
    frame: FrameObjectData,
    updated_object: Object,
    updated_custom: C,
    drawn: Option<IPooledInstance>,
)
    requires
        g0.aligned(),
        0 <= index < g0.objects().len(),
        g0.kills(killed, index),
        killed.detaches_for_update(detached, index, custom, object, frame),
        detached.settles_after_update(after, index, updated_object, updated_custom, frame, drawn),
    ensures
        drawn is None,
        after.objects() == swap_removed(g0.objects(), index),
        after.aligned(),
{
}

/// A start step of the object at `index` that leaves it alive keeps one
/// entry per object in every per-object sequence. (An object that dies during
/// its own start leaves its frame behind: see the second clause.)
pub proof fn law_start_step_alignment<L, C>(
    before: GameSimulation<L, C>,
    detached: GameSimulation<L, C>,
    after: GameSimulation<L, C>,
    index: int,
    custom: C,
    object: Object,
    started_object: Object,
    started_custom: C,
    kept: bool,
)
    requires
        before.aligned(),
        0 <= index < before.objects().len(),
        before.detaches_for_start(detached, index, custom, object),
        detached.settles_after_start(after, index, started_object, started_custom, kept),
    ensures
        kept ==> after.aligned(),
        !kept ==> after.frames().len() == after.objects().len() + 1,
{
}

/// The objects of `objects` whose records in `infos` say alive, last first.
pub open spec fn survivors_reversed(objects: Seq<Object>, infos: Seq<ObjectInfo>) -> Seq<Object>
    decreases objects.len(),
{
    if objects.len() == 0 || infos.len() == 0 {
        Seq::empty()
    } else {
        let rest = survivors_reversed(objects.drop_first(), infos.drop_first());
        if infos[0].is_alive {
            rest.push(objects[0])
        } else {
            rest
        }
    }
}

/// Step `k` of a start pass over `n` objects: the object at `n - 1 - k` is
/// taken out of `states[2k]` and settled, unchanged, into `states[2k + 2]`,
/// its behaviour changing nothing in between.
pub open spec fn start_pass_step<L, C>(
    states: Seq<GameSimulation<L, C>>,
    customs: Seq<C>,
    objects: Seq<Object>,
    kept: Seq<bool>,
    n: int,
    k: int,
) -> bool {
    &&& states[2 * k].detaches_for_start(states[2 * k + 1], n - 1 - k, customs[k], objects[k])
    &&& states[2 * k + 1].settles_after_start(
        states[2 * k + 2],
        n - 1 - k,
        objects[k],
        customs[k],
        kept[k],
    )
}

/// After `k` steps of a start pass, the objects not visited yet are where
/// they were, and the survivors among the visited ones follow them, last
/// first, each with an alive record.
pub open spec fn start_pass_done<L, C>(
    first: GameSimulation<L, C>,
    now: GameSimulation<L, C>,
    m: int,
) -> bool {
    let survivors = survivors_reversed(first.objects().skip(m), first.infos().skip(m));
    &&& now.objects() == first.objects().take(m) + survivors
    &&& now.infos() == first.infos().take(m) + Seq::new(
        survivors.len(),
        |i: int| ObjectInfo { is_alive: true },
    )
}

proof fn lemma_start_pass_prefix<L, C>(
    states: Seq<GameSimulation<L, C>>,
    customs: Seq<C>,
    objects: Seq<Object>,
    kept: Seq<bool>,
    n: int,
    k: int,
)
    requires
        n == states[0].objects().len(),
        states[0].infos().len() == n,
        0 <= k <= n,
        states.len() == 2 * n + 1,
        forall|j: int| 0 <= j < k ==> start_pass_step(states, customs, objects, kept, n, j),
    ensures
        start_pass_done(states[0], states[2 * k], n - k),
    decreases k,
{
    let first = states[0];
    if k == 0 {
        assert(first.objects().skip(n) =~= Seq::<Object>::empty());
        assert(first.infos().skip(n) =~= Seq::<ObjectInfo>::empty());
        assert(first.objects().take(n) =~= first.objects());
        assert(first.infos().take(n) =~= first.infos());
        assert(states[0].infos() =~= first.infos().take(n) + Seq::new(
            0,
            |i: int| ObjectInfo { is_alive: true },
        ));
    } else {
        lemma_start_pass_prefix(states, customs, objects, kept, n, k - 1);
        assert(start_pass_step(states, customs, objects, kept, n, k - 1));
        let m = n - k + 1;
        let idx = m - 1;
        let before = states[2 * (k - 1)];
        let detached = states[2 * (k - 1) + 1];
        let after = states[2 * (k - 1) + 2];
        assert(2 * (k - 1) + 2 == 2 * k);
        let old_survivors = survivors_reversed(first.objects().skip(m), first.infos().skip(m));
        let new_survivors = survivors_reversed(first.objects().skip(idx), first.infos().skip(idx));
        assert(first.objects().skip(idx).drop_first() =~= first.objects().skip(m));
        assert(first.infos().skip(idx).drop_first() =~= first.infos().skip(m));
        assert(first.objects().skip(idx)[0] == first.objects()[idx]);
        assert(first.infos().skip(idx)[0] == first.infos()[idx]);
        assert(before.objects()[idx] == first.objects()[idx]);
        assert(before.infos()[idx] == first.infos()[idx]);
        assert(detached.objects() =~= first.objects().take(idx) + old_survivors);
        let alive_tail = Seq::new(old_survivors.len(), |i: int| ObjectInfo { is_alive: true });
        assert(detached.infos().remove(idx) =~= first.infos().take(idx) + alive_tail);
        if first.infos()[idx].is_alive {
            assert(new_survivors == old_survivors.push(first.objects()[idx]));
            assert(after.objects() =~= first.objects().take(idx) + new_survivors);
            assert(detached.infos()[idx] == ObjectInfo { is_alive: true });
            assert(after.infos() =~= first.infos().take(idx) + Seq::new(
                new_survivors.len(),
                |i: int| ObjectInfo { is_alive: true },
            ));
        } else {
            assert(new_survivors == old_survivors);
            assert(after.objects() =~= first.objects().take(idx) + new_survivors);
            assert(after.infos() =~= first.infos().take(idx) + Seq::new(
                new_survivors.len(),
                |i: int| ObjectInfo { is_alive: true },
            ));
        }
    }
}

/// A start pass — every object taken out and settled once, from the last
/// to the first, with behaviours that change neither their object nor the
/// world — keeps exactly the objects that are alive, in reverse order, each
/// with an alive record.
pub proof fn law_start_pass_reverses_survivors<L, C>(
    states: Seq<GameSimulation<L, C>>,
    customs: Seq<C>,
    objects: Seq<Object>,
    kept: Seq<bool>,
)
    requires
        states.len() == 2 * states[0].objects().len() + 1,
        states[0].aligned(),
        forall|k: int|
            0 <= k < states[0].objects().len() ==> start_pass_step(
                states,
                customs,
                objects,
                kept,
                states[0].objects().len() as int,
                k,
            ),
    ensures
        states.last().objects() == survivors_reversed(states[0].objects(), states[0].infos()),
        states.last().infos().len() == states.last().objects().len(),
        forall|i: int|
            0 <= i < states.last().infos().len() ==> #[trigger] states.last().infos()[i].is_alive,
{
    let n = states[0].objects().len() as int;
    lemma_start_pass_prefix(states, customs, objects, kept, n, n);
    assert(states[0].objects().skip(0) =~= states[0].objects());
    assert(states[0].infos().skip(0) =~= states[0].infos());
    assert(states[0].objects().take(0) =~= Seq::<Object>::empty());
    assert(states[0].infos().take(0) =~= Seq::<ObjectInfo>::empty());
    assert(states.last() == states[2 * n]);
    assert(states.last().objects() =~= survivors_reversed(states[0].objects(), states[0].infos()));
}

/// `s` with its last element moved to the front.
pub open spec fn rotated_last_first<T>(s: Seq<T>) -> Seq<T> {
    if s.len() == 0 {
        s
    } else {
        seq![s.last()] + s.drop_last()
    }
}

/// The survivors, one entry of `items` each, after `k` steps of an update
/// pass over as many objects as `items` has: each step moves the last
/// survivor to the front (its place filled by the one taken out) and puts
/// the object just visited at the end if it is alive.
pub open spec fn update_survivors<T>(items: Seq<T>, infos: Seq<ObjectInfo>, k: nat) -> Seq<T>
    decreases k,
{
    if k == 0 {
        Seq::empty()
    } else {
        let prev = update_survivors(items, infos, (k - 1) as nat);
        let idx = items.len() - k;
        if infos[idx].is_alive {
            rotated_last_first(prev).push(items[idx])
        } else {
            rotated_last_first(prev)
        }
    }
}

/// How many of the last `k` of `n` records say alive.
pub open spec fn alive_among_last(infos: Seq<ObjectInfo>, n: int, k: nat) -> nat
    decreases k,
{
    if k == 0 {
        0
    } else {
        alive_among_last(infos, n, (k - 1) as nat) + if infos[n - k].is_alive {
            1nat
        } else {
            0nat
        }
    }
}

/// `n` records that all say alive.
pub open spec fn all_alive(n: nat) -> Seq<ObjectInfo> {
    Seq::new(n, |i: int| ObjectInfo { is_alive: true })
}

proof fn lemma_update_survivors_len<A, B>(a: Seq<A>, b: Seq<B>, infos: Seq<ObjectInfo>, k: nat)
    requires
        a.len() == b.len(),
        k <= a.len(),
    ensures
        update_survivors(a, infos, k).len() == update_survivors(b, infos, k).len(),
        update_survivors(a, infos, k).len() == alive_among_last(infos, a.len() as int, k),
    decreases k,
{
    if k > 0 {
        lemma_update_survivors_len(a, b, infos, (k - 1) as nat);
    }
}

proof fn lemma_update_survivors_map<A, B>(
    a: Seq<A>,
    infos: Seq<ObjectInfo>,
    f: spec_fn(A) -> B,
    k: nat,
)
    requires
        k <= a.len(),
    ensures
        update_survivors(a.map_values(f), infos, k) == update_survivors(a, infos, k).map_values(f),
    decreases k,
{
    if k > 0 {
        lemma_update_survivors_map(a, infos, f, (k - 1) as nat);
        let b = a.map_values(f);
        let pa = update_survivors(a, infos, (k - 1) as nat);
        let pb = update_survivors(b, infos, (k - 1) as nat);
        assert(rotated_last_first(pb) =~= rotated_last_first(pa).map_values(f));
        let idx = a.len() - k;
        assert(rotated_last_first(pb).push(b[idx]) =~= rotated_last_first(pa).push(a[idx]).map_values(f));
    }
}

/// Step `k` of an update pass over `n` objects: the object at `n - 1 - k` is
/// taken out of `states[2k]` and settled, unchanged, into `states[2k + 2]`,
/// its behaviour changing nothing in between.
pub open spec fn update_pass_step<L, C>(
    states: Seq<GameSimulation<L, C>>,
    customs: Seq<C>,
    objects: Seq<Object>,
    frames: Seq<FrameObjectData>,
    drawn: Seq<Option<IPooledInstance>>,
    n: int,
    k: int,
) -> bool {
    &&& states[2 * k].detaches_for_update(
        states[2 * k + 1],
        n - 1 - k,
        customs[k],
        objects[k],
        frames[k],
    )
    &&& states[2 * k + 1].settles_after_update(
        states[2 * k + 2],
        n - 1 - k,
        objects[k],
        customs[k],
        frames[k],
        drawn[k],
    )
}

/// After `k` steps of an update pass over `n` objects, the objects not
/// visited yet are where they were, and the survivors follow them.
pub open spec fn update_pass_done<L, C>(
    first: GameSimulation<L, C>,
    now: GameSimulation<L, C>,
    n: int,
    k: nat,
) -> bool {
    let m = n - k;
    let o = first.objects();
    let i = first.infos();
    &&& now.objects() == o.take(m) + update_survivors(o, i, k)
    &&& now.customs() == first.customs().take(m) + update_survivors(first.customs(), i, k)
    &&& now.frames() == first.frames().take(m) + update_survivors(
        o.map_values(|x: Object| frame_of(x)),
        i,
        k,
    )
    &&& now.infos() == i.take(m) + all_alive(update_survivors(o, i, k).len())
}

proof fn lemma_swap_removed_prefix<T>(p: Seq<T>, s: Seq<T>)
    requires
        p.len() > 0,
    ensures
        swap_removed(p + s, p.len() - 1) == p.drop_last() + rotated_last_first(s),
{
    let idx = p.len() - 1;
    if s.len() == 0 {
        assert(p + s =~= p);
        assert(swap_removed(p, idx) =~= p.drop_last() + rotated_last_first(s));
    } else {
        assert(swap_removed(p + s, idx) =~= p.drop_last() + rotated_last_first(s));
    }
}

proof fn lemma_update_pass_prefix<L, C>(
    states: Seq<GameSimulation<L, C>>,
    customs: Seq<C>,
    objects: Seq<Object>,
    frames: Seq<FrameObjectData>,
    drawn: Seq<Option<IPooledInstance>>,
    n: int,
    k: nat,
)
    requires
        n == states[0].objects().len(),
        states[0].aligned(),
        k <= n,
        states.len() == 2 * n + 1,
        forall|j: int| 0 <= j < k ==> update_pass_step(states, customs, objects, frames, drawn, n, j),
    ensures
        update_pass_done(states[0], states[2 * (k as int)], n, k),
    decreases k,
{
    let first = states[0];
    let o = first.objects();
    let i = first.infos();
    let c = first.customs();
    let fo = o.map_values(|x: Object| frame_of(x));
    if k == 0 {
        assert(o.take(n) =~= o);
        assert(c.take(n) =~= c);
        assert(i.take(n) =~= i);
        assert(first.frames().take(n) =~= first.frames());
        assert(states[0].objects() =~= o.take(n) + update_survivors(o, i, 0));
        assert(states[0].customs() =~= c.take(n) + update_survivors(c, i, 0));
        assert(states[0].frames() =~= first.frames().take(n) + update_survivors(fo, i, 0));
        assert(states[0].infos() =~= i.take(n) + all_alive(0));
    } else {
        lemma_update_pass_prefix(states, customs, objects, frames, drawn, n, (k - 1) as nat);
        let j = k - 1;
        assert(update_pass_step(states, customs, objects, frames, drawn, n, j));
        let m = n - j;
        let idx = m - 1;
        let before = states[2 * j];
        let detached = states[2 * j + 1];
        let after = states[2 * j + 2];
        assert(2 * j + 2 == 2 * k);
        let so = update_survivors(o, i, j as nat);
        let sc = update_survivors(c, i, j as nat);
        let sf = update_survivors(fo, i, j as nat);
        lemma_update_survivors_len(o, c, i, j as nat);
        lemma_update_survivors_len(o, fo, i, j as nat);
        lemma_update_survivors_len(o, c, i, k);
        lemma_update_survivors_len(o, fo, i, k);
        assert(o.take(m).drop_last() =~= o.take(idx));
        assert(c.take(m).drop_last() =~= c.take(idx));
        assert(first.frames().take(m).drop_last() =~= first.frames().take(idx));
        assert(i.take(m).drop_last() =~= i.take(idx));
        lemma_swap_removed_prefix(o.take(m), so);
        lemma_swap_removed_prefix(c.take(m), sc);
        lemma_swap_removed_prefix(first.frames().take(m), sf);
        lemma_swap_removed_prefix(i.take(m), all_alive(so.len()));
        assert(rotated_last_first(all_alive(so.len())) =~= all_alive(so.len()));
        assert(objects[j] == o[idx]);
        assert(customs[j] == c[idx]);
        assert(before.infos()[idx] == i[idx]);
        assert(fo[idx] == frame_of(o[idx]));
        if i[idx].is_alive {
            assert(all_alive(so.len()).push(i[idx]) =~= all_alive(so.len() + 1));
        }
        assert(after.objects() =~= o.take(idx) + update_survivors(o, i, k));
        assert(after.customs() =~= c.take(idx) + update_survivors(c, i, k));
        assert(after.frames() =~= first.frames().take(idx) + update_survivors(fo, i, k));
        assert(after.infos() =~= i.take(idx) + all_alive(update_survivors(o, i, k).len()));
    }
}

/// An update pass — every object taken out and settled once, from the last
/// to the first, with behaviours that change neither their object nor the
/// world — keeps exactly as many objects as were alive, each with an alive
/// record, its behaviour, and as its frame the state it is in.
pub proof fn law_update_pass_keeps_survivors_aligned<L, C>(
    states: Seq<GameSimulation<L, C>>,
    customs: Seq<C>,
    objects: Seq<Object>,
    frames: Seq<FrameObjectData>,
    drawn: Seq<Option<IPooledInstance>>,
)
    requires
        states.len() == 2 * states[0].objects().len() + 1,
        states[0].aligned(),
        forall|k: int|
            0 <= k < states[0].objects().len() ==> update_pass_step(
                states,
                customs,
                objects,
                frames,
                drawn,
                states[0].objects().len() as int,
                k,
            ),
    ensures
        states.last().aligned(),
        states.last().objects() == update_survivors(
            states[0].objects(),
            states[0].infos(),
            states[0].objects().len(),
        ),
        states.last().objects().len() == alive_among_last(
            states[0].infos(),
            states[0].objects().len() as int,
            states[0].objects().len(),
        ),
        forall|i: int|
            0 <= i < states.last().infos().len() ==> #[trigger] states.last().infos()[i].is_alive,
        forall|i: int|
            0 <= i < states.last().objects().len() ==> #[trigger] states.last().frames()[i]
                == frame_of(states.last().objects()[i]),
{
    let n = states[0].objects().len();
    let first = states[0];
    let o = first.objects();
    let fo = o.map_values(|x: Object| frame_of(x));
    lemma_update_pass_prefix(states, customs, objects, frames, drawn, n as int, n);
    lemma_update_survivors_len(o, first.customs(), first.infos(), n);
    lemma_update_survivors_len(o, fo, first.infos(), n);
    lemma_update_survivors_map(o, first.infos(), |x: Object| frame_of(x), n);
    assert(o.take(0) =~= Seq::<Object>::empty());
    assert(first.customs().take(0) =~= Seq::<C>::empty());
    assert(first.frames().take(0) =~= Seq::<FrameObjectData>::empty());
    assert(first.infos().take(0) =~= Seq::<ObjectInfo>::empty());
    let last = states[2 * n as int];
    assert(states.last() == last);
    assert(last.objects() =~= update_survivors(o, first.infos(), n));
    assert(last.customs() =~= update_survivors(first.customs(), first.infos(), n));
    assert(last.frames() =~= update_survivors(fo, first.infos(), n));
    assert(last.infos() =~= all_alive(update_survivors(o, first.infos(), n).len()));
}

/// `next` is `self` with some of the records at positions up to `index`
/// marked dead (possibly none) and nothing else changed: what behaviours
/// may do to the world during a pass step at `index` in the general pass
/// laws below.
pub open spec fn only_kills_up_to<L, C>(
    self_: GameSimulation<L, C>,
    next: GameSimulation<L, C>,
    index: int,
) -> bool {
    &&& next.infos().len() == self_.infos().len()
    &&& forall|i: int|
        0 <= i < self_.infos().len() ==> (#[trigger] next.infos()[i] == self_.infos()[i] || (i
            <= index && next.infos()[i] == ObjectInfo { is_alive: false }))
    &&& next.objects() == self_.objects()
    &&& next.customs() == self_.customs()
    &&& next.frames() == self_.frames()
    &&& self_.same_setting(next)
    &&& next.camera_spec() == self_.camera_spec()
}

/// Doing nothing, and killing the object at a position up to `index`, are
/// such changes, and such changes one after the other are one too.
pub proof fn lemma_only_kills_up_to<L, C>(
    g0: GameSimulation<L, C>,
    g1: GameSimulation<L, C>,
    g2: GameSimulation<L, C>,
    index: int,
    killed: int,
)
    ensures
        only_kills_up_to(g0, g0, index),
        0 <= killed <= index && killed < g0.infos().len() && g0.kills(g1, killed) ==> only_kills_up_to(
            g0,
            g1,
            index,
        ),
        only_kills_up_to(g0, g1, index) && only_kills_up_to(g1, g2, index) ==> only_kills_up_to(
            g0,
            g2,
            index,
        ),
{
    if 0 <= killed <= index && killed < g0.infos().len() && g0.kills(g1, killed) {
        assert forall|i: int| 0 <= i < g0.infos().len() implies (#[trigger] g1.infos()[i]
            == g0.infos()[i] || (i <= index && g1.infos()[i] == ObjectInfo { is_alive: false })) by {
            if i != killed {
                assert(g1.infos()[i] == g0.infos()[i]);
            }
        }
    }
    if only_kills_up_to(g0, g1, index) && only_kills_up_to(g1, g2, index) {
        assert forall|i: int| 0 <= i < g0.infos().len() implies (#[trigger] g2.infos()[i]
            == g0.infos()[i] || (i <= index && g2.infos()[i] == ObjectInfo { is_alive: false })) by {
            assert(g1.infos()[i] == g0.infos()[i] || (i <= index && g1.infos()[i]
                == ObjectInfo { is_alive: false }));
            assert(g2.infos()[i] == g1.infos()[i] || (i <= index && g2.infos()[i]
                == ObjectInfo { is_alive: false }));
        }
    }
}

/// How many of the first `k` flags are set.
pub open spec fn count_kept(kept: Seq<bool>, k: nat) -> nat
    decreases k,
{
    if k == 0 {
        0
    } else {
        count_kept(kept, (k - 1) as nat) + if kept[k - 1] {
            1nat
        } else {
            0nat
        }
    }
}

/// The entries of `items` (one per step) whose step kept its object, in
/// step order: the survivors after `k` steps of a start pass.
pub open spec fn start_pass_survivors<T>(items: Seq<T>, kept: Seq<bool>, k: nat) -> Seq<T>
    decreases k,
{
    if k == 0 {
        Seq::empty()
    } else {
        let prev = start_pass_survivors(items, kept, (k - 1) as nat);
        if kept[k - 1] {
            prev.push(items[k - 1])
        } else {
            prev
        }
    }
}

/// The survivors after `k` steps of an update pass, `items` holding one
/// entry per step: each step moves the last survivor to the front (its
/// place filled by the one taken out) and puts the object of the step at the
/// end if it was kept.
pub open spec fn update_pass_survivors<T>(items: Seq<T>, kept: Seq<bool>, k: nat) -> Seq<T>
    decreases k,
{
    if k == 0 {
        Seq::empty()
    } else {
        let prev = rotated_last_first(update_pass_survivors(items, kept, (k - 1) as nat));
        if kept[k - 1] {
            prev.push(items[k - 1])
        } else {
            prev
        }
    }
}

proof fn lemma_pass_survivors_len<A, B>(a: Seq<A>, b: Seq<B>, kept: Seq<bool>, k: nat)
    ensures
        start_pass_survivors(a, kept, k).len() == count_kept(kept, k),
        start_pass_survivors(b, kept, k).len() == count_kept(kept, k),
        update_pass_survivors(a, kept, k).len() == count_kept(kept, k),
        update_pass_survivors(b, kept, k).len() == count_kept(kept, k),
    decreases k,
{
    if k > 0 {
        lemma_pass_survivors_len(a, b, kept, (k - 1) as nat);
    }
}

proof fn lemma_update_pass_survivors_map<A, B>(a: Seq<A>, kept: Seq<bool>, f: spec_fn(A) -> B, k: nat)
    requires
        k <= a.len(),
    ensures
        update_pass_survivors(a.map_values(f), kept, k) == update_pass_survivors(a, kept, k).map_values(f),
    decreases k,
{
    if k > 0 {
        lemma_update_pass_survivors_map(a, kept, f, (k - 1) as nat);
        let b = a.map_values(f);
        let pa = rotated_last_first(update_pass_survivors(a, kept, (k - 1) as nat));
        let pb = rotated_last_first(update_pass_survivors(b, kept, (k - 1) as nat));
        assert(pb =~= pa.map_values(f));
        assert(pb.push(b[k - 1]) =~= pa.push(a[k - 1]).map_values(f));
    }
}

/// `infos` has `m` records before the survivors' records, which all say
/// alive.
pub open spec fn alive_after(infos: Seq<ObjectInfo>, m: int) -> bool {
    forall|i: int| m <= i < infos.len() ==> #[trigger] infos[i].is_alive
}

/// Step `k` of a start pass over `n` objects in which behaviours may change
/// their own object and kill objects not visited yet: the object at
/// `n - 1 - k` is taken out of `states[3k]`, its behaviour runs (changing
/// the world only as `only_kills_up_to` allows) giving `states[3k + 2]`, and
/// the started object `started[k]` is settled into `states[3k + 3]`; `kept[k]`
/// tells whether it stayed.
pub open spec fn general_start_step<L, C>(
    states: Seq<GameSimulation<L, C>>,
    customs: Seq<C>,
    objects: Seq<Object>,
    started: Seq<Object>,
    started_customs: Seq<C>,
    kept: Seq<bool>,
    n: int,
    k: int,
) -> bool {
    let idx = n - 1 - k;
    &&& states[3 * k].detaches_for_start(states[3 * k + 1], idx, customs[k], objects[k])
    &&& only_kills_up_to(states[3 * k + 1], states[3 * k + 2], idx)
    &&& states[3 * k + 2].settles_after_start(
        states[3 * k + 3],
        idx,
        started[k],
        started_customs[k],
        kept[k],
    )
}

proof fn lemma_general_start_prefix<L, C>(
    states: Seq<GameSimulation<L, C>>,
    customs: Seq<C>,
    objects: Seq<Object>,
    started: Seq<Object>,
    started_customs: Seq<C>,
    kept: Seq<bool>,
    n: int,
    k: nat,
)
    requires
        n == states[0].objects().len(),
        states[0].aligned(),
        k <= n,
        states.len() == 3 * n + 1,
        forall|j: int|
            0 <= j < k ==> general_start_step(
                states,
                customs,
                objects,
                started,
                started_customs,
                kept,
                n,
                j,
            ),
    ensures
        ({
            let now = states[3 * (k as int)];
            let first = states[0];
            let m = n - k;
            &&& now.objects() == first.objects().take(m) + start_pass_survivors(started, kept, k)
            &&& now.customs() == first.customs().take(m) + start_pass_survivors(
                started_customs,
                kept,
                k,
            )
            &&& now.frames() == first.frames()
            &&& now.infos().len() == m + count_kept(kept, k)
            &&& alive_after(now.infos(), m)
        }),
    decreases k,
{
    let first = states[0];
    let o = first.objects();
    let c = first.customs();
    lemma_pass_survivors_len(started, started_customs, kept, k);
    if k == 0 {
        assert(o.take(n) =~= o);
        assert(c.take(n) =~= c);
        assert(states[0].objects() =~= o.take(n) + start_pass_survivors(started, kept, 0));
        assert(states[0].customs() =~= c.take(n) + start_pass_survivors(started_customs, kept, 0));
    } else {
        lemma_general_start_prefix(
            states,
            customs,
            objects,
            started,
            started_customs,
            kept,
            n,
            (k - 1) as nat,
        );
        lemma_pass_survivors_len(started, started_customs, kept, (k - 1) as nat);
        let j = k - 1;
        assert(general_start_step(states, customs, objects, started, started_customs, kept, n, j));
        let m = n - j;
        let idx = m - 1;
        let before = states[3 * j];
        let detached = states[3 * j + 1];
        let killed = states[3 * j + 2];
        let after = states[3 * j + 3];
        assert(3 * j + 3 == 3 * k);
        let so = start_pass_survivors(started, kept, j as nat);
        let sc = start_pass_survivors(started_customs, kept, j as nat);
        assert((o.take(m) + so).remove(idx) =~= o.take(idx) + so);
        assert((c.take(m) + sc).remove(idx) =~= c.take(idx) + sc);
        assert(killed.infos().len() == before.infos().len());
        assert forall|i: int| m <= i < killed.infos().len() implies #[trigger] killed.infos()[i].is_alive by {
            assert(detached.infos()[i] == before.infos()[i]);
            assert(killed.infos()[i] == detached.infos()[i] || (i <= idx && killed.infos()[i]
                == ObjectInfo { is_alive: false }));
        }
        let rest = killed.infos().remove(idx);
        assert forall|i: int| idx <= i < rest.len() implies #[trigger] rest[i].is_alive by {
            assert(rest[i] == killed.infos()[i + 1]);
        }
        if kept[j] {
            assert(after.objects() =~= o.take(idx) + start_pass_survivors(started, kept, k));
            assert(after.customs() =~= c.take(idx) + start_pass_survivors(started_customs, kept, k));
            assert forall|i: int| idx <= i < after.infos().len() implies #[trigger] after.infos()[i].is_alive by {
                if i < rest.len() {
                    assert(after.infos()[i] == rest[i]);
                }
            }
        } else {
            assert(after.objects() =~= o.take(idx) + start_pass_survivors(started, kept, k));
            assert(after.customs() =~= c.take(idx) + start_pass_survivors(started_customs, kept, k));
        }
    }
}

/// A start pass — every object taken out and settled once, from the last
/// to the first — in which each behaviour may change its own object in any
/// way and may kill itself or objects not visited yet: the objects that
/// remain are the started objects that stayed, in the order they were
/// visited, each with its behaviour and an alive record. (Frames are not
/// touched, so they fall out of step with the objects when one is dropped.)
pub proof fn law_general_start_pass<L, C>(
    states: Seq<GameSimulation<L, C>>,
    customs: Seq<C>,
    objects: Seq<Object>,
    started: Seq<Object>,
    started_customs: Seq<C>,
    kept: Seq<bool>,
)
    requires
        states.len() == 3 * states[0].objects().len() + 1,
        states[0].aligned(),
        forall|k: int|
            0 <= k < states[0].objects().len() ==> general_start_step(
                states,
                customs,
                objects,
                started,
                started_customs,
                kept,
                states[0].objects().len() as int,
                k,
            ),
    ensures
        states.last().objects() == start_pass_survivors(started, kept, states[0].objects().len()),
        states.last().customs() == start_pass_survivors(
            started_customs,
            kept,
            states[0].objects().len(),
        ),
        states.last().objects().len() == count_kept(kept, states[0].objects().len()),
        states.last().infos().len() == states.last().objects().len(),
        states.last().customs().len() == states.last().objects().len(),
        forall|i: int|
            0 <= i < states.last().infos().len() ==> #[trigger] states.last().infos()[i].is_alive,
        states.last().frames() == states[0].frames(),
{
    let n = states[0].objects().len();
    lemma_general_start_prefix(states, customs, objects, started, started_customs, kept, n as int, n);
    lemma_pass_survivors_len(started, started_customs, kept, n);
    assert(states.last() == states[3 * n as int]);
    assert(states[0].objects().take(0) =~= Seq::<Object>::empty());
    assert(states[0].customs().take(0) =~= Seq::<C>::empty());
    assert(states.last().objects() =~= start_pass_survivors(started, kept, n));
    assert(states.last().customs() =~= start_pass_survivors(started_customs, kept, n));
}

/// Step `k` of an update pass over `n` objects in which behaviours may
/// change their own object and kill objects not visited yet: the object at
/// `n - 1 - k` is taken out of `states[3k]` with its last frame, its
/// behaviour runs (changing the world only as `only_kills_up_to` allows)
/// giving `states[3k + 2]`, and the updated object `updated[k]` is settled
/// into `states[3k + 3]`; `kept[k]` tells whether its record was alive then.
pub open spec fn general_update_step<L, C>(
    states: Seq<GameSimulation<L, C>>,
    customs: Seq<C>,
    objects: Seq<Object>,
    frames: Seq<FrameObjectData>,
    updated: Seq<Object>,
    updated_customs: Seq<C>,
    drawn: Seq<Option<IPooledInstance>>,
    kept: Seq<bool>,
    n: int,
    k: int,
) -> bool {
    let idx = n - 1 - k;
    &&& states[3 * k].detaches_for_update(states[3 * k + 1], idx, customs[k], objects[k], frames[k])
    &&& only_kills_up_to(states[3 * k + 1], states[3 * k + 2], idx)
    &&& kept[k] == states[3 * k + 2].infos()[idx].is_alive
    &&& states[3 * k + 2].settles_after_update(
        states[3 * k + 3],
        idx,
        updated[k],
        updated_customs[k],
        frames[k],
        drawn[k],
    )
}

proof fn lemma_general_update_prefix<L, C>(
    states: Seq<GameSimulation<L, C>>,
    customs: Seq<C>,
    objects: Seq<Object>,
    frames: Seq<FrameObjectData>,
    updated: Seq<Object>,
    updated_customs: Seq<C>,
    drawn: Seq<Option<IPooledInstance>>,
    kept: Seq<bool>,
    n: int,
    k: nat,
)
    requires
        n == states[0].objects().len(),
        states[0].aligned(),
        k <= n,
        updated.len() == n,
        states.len() == 3 * n + 1,
        forall|j: int|
            0 <= j < k ==> general_update_step(
                states,
                customs,
                objects,
                frames,
                updated,
                updated_customs,
                drawn,
                kept,
                n,
                j,
            ),
    ensures
        ({
            let now = states[3 * (k as int)];
            let first = states[0];
            let m = n - k;
            let fu = updated.map_values(|x: Object| frame_of(x));
            &&& now.objects() == first.objects().take(m) + update_pass_survivors(updated, kept, k)
            &&& now.customs() == first.customs().take(m) + update_pass_survivors(
                updated_customs,
                kept,
                k,
            )
            &&& now.frames() == first.frames().take(m) + update_pass_survivors(fu, kept, k)
            &&& now.infos().len() == m + count_kept(kept, k)
            &&& alive_after(now.infos(), m)
        }),
    decreases k,
{
    let first = states[0];
    let o = first.objects();
    let c = first.customs();
    let f = first.frames();
    let fu = updated.map_values(|x: Object| frame_of(x));
    lemma_pass_survivors_len(updated, updated_customs, kept, k);
    lemma_pass_survivors_len(fu, updated_customs, kept, k);
    if k == 0 {
        assert(o.take(n) =~= o);
        assert(c.take(n) =~= c);
        assert(f.take(n) =~= f);
        assert(states[0].objects() =~= o.take(n) + update_pass_survivors(updated, kept, 0));
        assert(states[0].customs() =~= c.take(n) + update_pass_survivors(updated_customs, kept, 0));
        assert(states[0].frames() =~= f.take(n) + update_pass_survivors(fu, kept, 0));
    } else {
        lemma_general_update_prefix(
            states,
            customs,
            objects,
            frames,
            updated,
            updated_customs,
            drawn,
            kept,
            n,
            (k - 1) as nat,
        );
        lemma_pass_survivors_len(updated, updated_customs, kept, (k - 1) as nat);
        lemma_pass_survivors_len(fu, updated_customs, kept, (k - 1) as nat);
        let j = k - 1;
        assert(general_update_step(
            states,
            customs,
            objects,
            frames,
            updated,
            updated_customs,
            drawn,
            kept,
            n,
            j,
        ));
        let m = n - j;
        let idx = m - 1;
        let before = states[3 * j];
        let detached = states[3 * j + 1];
        let killed = states[3 * j + 2];
        let after = states[3 * j + 3];
        assert(3 * j + 3 == 3 * k);
        let so = update_pass_survivors(updated, kept, j as nat);
        let sc = update_pass_survivors(updated_customs, kept, j as nat);
        let sf = update_pass_survivors(fu, kept, j as nat);
        assert(o.take(m).drop_last() =~= o.take(idx));
        assert(c.take(m).drop_last() =~= c.take(idx));
        assert(f.take(m).drop_last() =~= f.take(idx));
        lemma_swap_removed_prefix(o.take(m), so);
        lemma_swap_removed_prefix(c.take(m), sc);
        lemma_swap_removed_prefix(f.take(m), sf);
        assert(killed.infos().len() == before.infos().len());
        assert forall|i: int| m <= i < killed.infos().len() implies #[trigger] killed.infos()[i].is_alive by {
            assert(detached.infos()[i] == before.infos()[i]);
            assert(killed.infos()[i] == detached.infos()[i] || (i <= idx && killed.infos()[i]
                == ObjectInfo { is_alive: false }));
        }
        let rest = swap_removed(killed.infos(), idx);
        assert forall|i: int| idx <= i < rest.len() implies #[trigger] rest[i].is_alive by {
            if i == idx {
                assert(rest[i] == killed.infos().last());
            } else {
                assert(rest[i] == killed.infos()[i]);
            }
        }
        assert(fu[j] == frame_of(updated[j]));
        assert(after.objects() =~= o.take(idx) + update_pass_survivors(updated, kept, k));
        assert(after.customs() =~= c.take(idx) + update_pass_survivors(updated_customs, kept, k));
        assert(after.frames() =~= f.take(idx) + update_pass_survivors(fu, kept, k));
        assert forall|i: int| idx <= i < after.infos().len() implies #[trigger] after.infos()[i].is_alive by {
            if i < rest.len() {
                assert(after.infos()[i] == rest[i]);
            }
        }
    }
}

/// An update pass — every object taken out and settled once, from the last
/// to the first — in which each behaviour may change its own object in any
/// way and may kill itself or objects not visited yet: the objects that
/// remain are the updated objects that were still alive when settled, each
/// with its behaviour, an alive record and, as its frame, the state it was
/// left in; one entry per object in every per-object sequence.
pub proof fn law_general_update_pass<L, C>(
    states: Seq<GameSimulation<L, C>>,
    customs: Seq<C>,
    objects: Seq<Object>,
    frames: Seq<FrameObjectData>,
    updated: Seq<Object>,
    updated_customs: Seq<C>,
    drawn: Seq<Option<IPooledInstance>>,
    kept: Seq<bool>,
)
    requires
        states.len() == 3 * states[0].objects().len() + 1,
        states[0].aligned(),
        updated.len() == states[0].objects().len(),
        forall|k: int|
            0 <= k < states[0].objects().len() ==> general_update_step(
                states,
                customs,
                objects,
                frames,
                updated,
                updated_customs,
                drawn,
                kept,
                states[0].objects().len() as int,
                k,
            ),
    ensures
        states.last().aligned(),
        states.last().objects() == update_pass_survivors(
            updated,
            kept,
            states[0].objects().len(),
        ),
        states.last().customs() == update_pass_survivors(
            updated_customs,
            kept,
            states[0].objects().len(),
        ),
        states.last().objects().len() == count_kept(kept, states[0].objects().len()),
        forall|i: int|
            0 <= i < states.last().infos().len() ==> #[trigger] states.last().infos()[i].is_alive,
        forall|i: int|
            0 <= i < states.last().objects().len() ==> #[trigger] states.last().frames()[i]
                == frame_of(states.last().objects()[i]),
{
    let n = states[0].objects().len();
    let fu = updated.map_values(|x: Object| frame_of(x));
    lemma_general_update_prefix(
        states,
        customs,
        objects,
        frames,
        updated,
        updated_customs,
        drawn,
        kept,
        n as int,
        n,
    );
    lemma_pass_survivors_len(updated, updated_customs, kept, n);
    lemma_pass_survivors_len(fu, updated_customs, kept, n);
    lemma_update_pass_survivors_map(updated, kept, |x: Object| frame_of(x), n);
    assert(states.last() == states[3 * n as int]);
    let last = states.last();
    assert(states[0].objects().take(0) =~= Seq::<Object>::empty());
    assert(states[0].customs().take(0) =~= Seq::<C>::empty());
    assert(states[0].frames().take(0) =~= Seq::<FrameObjectData>::empty());
    assert(last.objects() =~= update_pass_survivors(updated, kept, n));
    assert(last.customs() =~= update_pass_survivors(updated_customs, kept, n));
    assert(last.frames() =~= update_pass_survivors(fu, kept, n));
}

/// The frame of an object is the object's own state: its position, scale and
/// rotation, field by field.
pub proof fn law_frame_of_is_object_state(object: Object)
    ensures
        frame_of(object).position == object.position,
        frame_of(object).scale == object.scale,
        frame_of(object).rotation == object.rotation,
{
}

/// Registering an object records, as its first frame, the object's own
/// position, scale and rotation.
pub proof fn law_register_records_object_state<L, C>(
    before: GameSimulation<L, C>,
    after: GameSimulation<L, C>,
    object: Object,
    custom: C,
)
    requires
        before.registers(after, object, custom),
    ensures
        after.frames().len() == before.frames().len() + 1,
        after.frames().last().position == object.position,
        after.frames().last().scale == object.scale,
        after.frames().last().rotation == object.rotation,
        after.objects().last() == object,
        after.infos().last().is_alive,
{
}

/// Settling an object that is still alive after its update records, as its
/// new frame, the updated object's own position, scale and rotation; what is
/// drawn moves from the frame it had to that state.
pub proof fn law_update_records_object_state<L, C>(
    before: GameSimulation<L, C>,
    after: GameSimulation<L, C>,
    index: int,
    object: Object,
    custom: C,
    previous_frame: FrameObjectData,
    drawn: Option<IPooledInstance>,
)
    requires
        0 <= index < before.infos().len(),
        before.infos()[index].is_alive,
        before.settles_after_update(after, index, object, custom, previous_frame, drawn),
    ensures
        after.frames().len() == before.frames().len() + 1,
        after.frames().last().position == object.position,
        after.frames().last().scale == object.scale,
        after.frames().last().rotation == object.rotation,
        after.objects().last() == object,
        drawn matches Some(inst) ==> {
            &&& inst.obj.previous_frame == previous_frame
            &&& inst.obj.current_frame.position == object.position
            &&& inst.obj.current_frame.scale == object.scale
            &&& inst.obj.current_frame.rotation == object.rotation
        },
{
}

/// In a batch of messages without `Stop`, the camera's aspect ratio ends as
/// the ratio of the last resize in the batch, or as it was if there is none.
pub proof fn law_stop_free_batch_ends_with_last_resize(msgs: Seq<ToGame>, ratio: AspectRatio)
    requires
        forall|i: int| 0 <= i < msgs.len() ==> msgs[i] != ToGame::Stop,
    ensures
        forall|j: int|
            #![trigger msgs[j]]
            0 <= j < msgs.len() && msgs[j] is UpdateCameraAspectRatio && (forall|i: int|
                j < i < msgs.len() ==> !(msgs[i] is UpdateCameraAspectRatio)) ==> ratio_after_messages(
                msgs,
                ratio,
            ) == msgs[j]->UpdateCameraAspectRatio_0,
        (forall|i: int| 0 <= i < msgs.len() ==> !(msgs[i] is UpdateCameraAspectRatio))
            ==> ratio_after_messages(msgs, ratio) == ratio,
    decreases msgs.len(),
{
    if msgs.len() > 0 {
        let rest = msgs.drop_first();
        let next = ratio_after_message(msgs[0], ratio);
        law_stop_free_batch_ends_with_last_resize(rest, next);
        assert forall|j: int|
            #![trigger msgs[j]]
            0 <= j < msgs.len() && msgs[j] is UpdateCameraAspectRatio && (forall|i: int|
                j < i < msgs.len() ==> !(msgs[i] is UpdateCameraAspectRatio)) implies ratio_after_messages(
            msgs,
            ratio,
        ) == msgs[j]->UpdateCameraAspectRatio_0 by {
            if j == 0 {
                assert forall|i: int| 0 <= i < rest.len() implies !(rest[i] is UpdateCameraAspectRatio) by {
                    assert(rest[i] == msgs[i + 1]);
                }
            } else {
                assert(rest[j - 1] == msgs[j]);
                assert forall|i: int| j - 1 < i < rest.len() implies !(rest[i] is UpdateCameraAspectRatio) by {
                    assert(rest[i] == msgs[i + 1]);
                }
            }
        }
        if forall|i: int| 0 <= i < msgs.len() ==> !(msgs[i] is UpdateCameraAspectRatio) {
            assert(!(msgs[0] is UpdateCameraAspectRatio));
            assert forall|i: int| 0 <= i < rest.len() implies !(rest[i] is UpdateCameraAspectRatio) by {
                assert(rest[i] == msgs[i + 1]);
            }
        }
    }
}

/// Handling a batch is handling its parts one after the other: for a first
/// part without `Stop`, the ratio after the whole batch is the ratio after
/// the second part, started from the ratio after the first.
pub proof fn law_batch_is_handled_in_order(
    first: Seq<ToGame>,
    second: Seq<ToGame>,
    ratio: AspectRatio,
)
    requires
        forall|i: int| 0 <= i < first.len() ==> first[i] != ToGame::Stop,
    ensures
        ratio_after_messages(first + second, ratio) == ratio_after_messages(
            second,
            ratio_after_messages(first, ratio),
        ),
    decreases first.len(),
{
    if first.len() == 0 {
        assert(first + second =~= second);
    } else {
        let whole = first + second;
        assert(whole[0] == first[0]);
        assert(whole.drop_first() =~= first.drop_first() + second);
        law_batch_is_handled_in_order(first.drop_first(), second, ratio_after_message(first[0], ratio));
    }
}

/// Nothing after the first `Stop` of a batch reaches the camera.
pub proof fn law_stop_ends_batch(first: Seq<ToGame>, rest: Seq<ToGame>, ratio: AspectRatio)
    requires
        forall|i: int| 0 <= i < first.len() ==> first[i] != ToGame::Stop,
    ensures
        ratio_after_messages(first.push(ToGame::Stop) + rest, ratio) == ratio_after_messages(
            first,
            ratio,
        ),
{
    let tail = seq![ToGame::Stop] + rest;
    assert(first.push(ToGame::Stop) + rest =~= first + tail);
    law_batch_is_handled_in_order(first, tail, ratio);
    assert(tail[0] == ToGame::Stop);
}

} // verus!
