//! The dependency-ordered scheduler.
//!
//! Each system declares the shared resources and component tables it reads
//! and writes. The scheduler produces an execution order in which no system
//! reads a value before that frame's writer has produced it, places the one
//! thread-local terminal consumer last, and reports a cyclic configuration
//! as a setup error rather than a runtime condition.

use vstd::prelude::*;
use crate::error::CustomError;

verus! {

/// A shared resource or component table a system may read or write.
#[derive(Copy, Clone, Debug, PartialEq, Eq, Structural)]
pub enum ResourceId {
    DeltaTime,
    SimulationSpeed,
    CameraState,
    ControlState,
    PositionData,
    VelocityData,
    AccelerationData,
    MassData,
}

/// One system's declared footprint, plus whether it is the frame's
/// terminal thread-local consumer (the render boundary).
///
/// A resource in `independent` is one the system reads but explicitly
/// declares satisfied by the values standing when the frame begins: a
/// same-frame writer of it imposes no ordering on this system.
pub struct SystemDecl {
    pub reads: Vec<ResourceId>,
    pub writes: Vec<ResourceId>,
    pub independent: Vec<ResourceId>,
    pub thread_local: bool,
}

/// Whether system `a` must run before system `b` in a frame: `a` writes
/// something `b` reads, or `b` is a thread-local terminal and `a` is not.
#[verifier::opaque]
pub open spec fn must_precede(decls: Seq<SystemDecl>, a: int, b: int) -> bool {
    &&& 0 <= a < decls.len()
    &&& 0 <= b < decls.len()
    &&& a != b
    &&& ((exists|x: ResourceId|
        decls[a].writes@.contains(x) && decls[b].reads@.contains(x)
            && !decls[b].independent@.contains(x)) || (decls[b].thread_local
        && !decls[a].thread_local))
}

/// An order is valid when it is a duplicate-free arrangement of system
/// indices in which nothing that must precede comes later.
pub open spec fn respects(decls: Seq<SystemDecl>, order: Seq<usize>) -> bool {
    &&& order.len() == decls.len()
    &&& forall|k: int| 0 <= k < order.len() ==> (#[trigger] order[k] as int) < decls.len()
    &&& forall|k1: int, k2: int|
        0 <= k1 < k2 < order.len() ==> order[k1] != order[k2]
    &&& forall|k1: int, k2: int|
        0 <= k1 < k2 < order.len() ==> !must_precede(
            decls,
            order[k2] as int,
            order[k1] as int,
        )
}

/// The index `i` occurs somewhere in the order.
pub open spec fn appears(order: Seq<usize>, i: int) -> bool {
    exists|k: int| 0 <= k < order.len() && order[k] == i
}

/// Every system index appears somewhere in the order.
pub open spec fn complete(order: Seq<usize>, n: int) -> bool {
    forall|i: int| 0 <= i < n ==> #[trigger] appears(order, i)
}

/// A witness that the configuration is cyclic: a placement state under
/// which some system is still waiting and every waiting system waits on
/// another waiting system.
pub open spec fn stuck_state(decls: Seq<SystemDecl>, placed: Seq<bool>) -> bool {
    &&& placed.len() == decls.len()
    &&& exists|i: int| 0 <= i < placed.len() && !placed[i]
    &&& forall|i: int|
        0 <= i < placed.len() && !(#[trigger] placed[i]) ==> exists|j: int|
            0 <= j < placed.len() && !placed[j] && must_precede(decls, j, i)
}

/// The declarations admit no dependency-respecting order: some circle of
/// systems each waits on another member of the circle.
pub open spec fn blocked(decls: Seq<SystemDecl>) -> bool {
    exists|p: Seq<bool>| stuck_state(decls, p)
}

/// Whether the resource list holds `x`.
fn contains_res(v: &Vec<ResourceId>, x: ResourceId) -> (r: bool)
    ensures
        r == v@.contains(x),
{
    let mut k: usize = 0;
    while k < v.len()
        invariant
            k <= v@.len(),
            forall|t: int| 0 <= t < k ==> v@[t] != x,
        decreases v@.len() - k,
    {
        if v[k] == x {
            return true;
        }
        k = k + 1;
    }
    false
}

/// Whether the two resource lists share an element.
fn share_res(a: &Vec<ResourceId>, b: &Vec<ResourceId>) -> (r: bool)
    ensures
        r == exists|x: ResourceId| a@.contains(x) && b@.contains(x),
{
    let mut k: usize = 0;
    while k < a.len()
        invariant
            k <= a@.len(),
            forall|t: int| 0 <= t < k ==> !b@.contains(#[trigger] a@[t]),
        decreases a@.len() - k,
    {
        if contains_res(b, a[k]) {
            return true;
        }
        k = k + 1;
    }
    proof {
        assert forall|x: ResourceId| !(a@.contains(x) && b@.contains(x)) by {
            if a@.contains(x) {
                let t = choose|t: int| 0 <= t < a@.len() && a@[t] == x;
                assert(!b@.contains(a@[t]));
            }
        }
    }
    false
}

/// Executable [`must_precede`].
fn edge(decls: &Vec<SystemDecl>, a: usize, b: usize) -> (r: bool)
    requires
        a < decls@.len(),
        b < decls@.len(),
    ensures
        r == must_precede(decls@, a as int, b as int),
{
    proof {
        reveal(must_precede);
    }
    if a == b {
        return false;
    }
    if decls[b].thread_local && !decls[a].thread_local {
        return true;
    }
    let wa = &decls[a].writes;
    let mut k: usize = 0;
    while k < wa.len()
        invariant
            a < decls@.len(),
            b < decls@.len(),
            a != b,
            wa == &decls@[a as int].writes,
            k <= wa@.len(),
            forall|t: int|
                0 <= t < k ==> !(decls@[b as int].reads@.contains(#[trigger] wa@[t])
                    && !decls@[b as int].independent@.contains(wa@[t])),
        decreases wa@.len() - k,
    {
        let x = wa[k];
        if contains_res(&decls[b].reads, x) && !contains_res(&decls[b].independent, x) {
            proof {
                assert(must_precede(decls@, a as int, b as int)) by {
                    reveal(must_precede);
                    assert(decls@[a as int].writes@[k as int] == x);
                    assert(decls@[a as int].writes@.contains(x));
                }
            }
            return true;
        }
        k = k + 1;
    }
    proof {
        reveal(must_precede);
        assert(!(decls@[b as int].thread_local && !decls@[a as int].thread_local));
        assert forall|x: ResourceId|
            !(decls@[a as int].writes@.contains(x) && decls@[b as int].reads@.contains(x)
                && !decls@[b as int].independent@.contains(x)) by {
            if decls@[a as int].writes@.contains(x) {
                let t = choose|t: int|
                    0 <= t < decls@[a as int].writes@.len() && decls@[a as int].writes@[t] == x;
                assert(!(decls@[b as int].reads@.contains(wa@[t])
                    && !decls@[b as int].independent@.contains(wa@[t])));
            }
        }
    }
    false
}

/// Two systems may run concurrently: neither writes anything the other
/// reads or writes.
pub fn independent(decls: &Vec<SystemDecl>, a: usize, b: usize) -> (r: bool)
    requires
        a < decls@.len(),
        b < decls@.len(),
    ensures
        r == (!(exists|x: ResourceId|
            decls@[a as int].writes@.contains(x) && (decls@[b as int].reads@.contains(x)
                || decls@[b as int].writes@.contains(x))) && !(exists|x: ResourceId|
            decls@[b as int].writes@.contains(x) && decls@[a as int].reads@.contains(x))),
{
    let wr = share_res(&decls[a].writes, &decls[b].reads);
    let ww = share_res(&decls[a].writes, &decls[b].writes);
    let rw = share_res(&decls[b].writes, &decls[a].reads);
    proof {
        if !wr && !ww {
            assert forall|x: ResourceId|
                !(decls@[a as int].writes@.contains(x) && (decls@[b as int].reads@.contains(x)
                    || decls@[b as int].writes@.contains(x))) by {}
        }
    }
    !wr && !ww && !rw
}

/// Whether some still-unplaced system must precede `i`.
fn has_unplaced_pred(decls: &Vec<SystemDecl>, placed: &Vec<bool>, i: usize) -> (r: bool)
    requires
        placed@.len() == decls@.len(),
        i < decls@.len(),
    ensures
        r == exists|j: int|
            0 <= j < decls@.len() && !placed@[j] && must_precede(decls@, j, i as int),
{
    let n = decls.len();
    let mut j: usize = 0;
    while j < n
        invariant
            j <= n,
            n == decls@.len(),
            placed@.len() == n,
            i < n,
            forall|t: int| 0 <= t < j ==> !(!placed@[t] && must_precede(decls@, t, i as int)),
        decreases n - j,
    {
        if !placed[j] && edge(decls, j, i) {
            return true;
        }
        j = j + 1;
    }
    false
}

/// Find a system that is still unplaced and waits on nothing unplaced.
fn find_ready(decls: &Vec<SystemDecl>, placed: &Vec<bool>) -> (r: Option<usize>)
    requires
        placed@.len() == decls@.len(),
    ensures
        match r {
            Some(i) => i < decls@.len() && !placed@[i as int] && forall|j: int|
                0 <= j < decls@.len() && !placed@[j] ==> !must_precede(decls@, j, i as int),
            None => forall|i: int|
                0 <= i < decls@.len() && !placed@[i] ==> exists|j: int|
                    0 <= j < decls@.len() && !placed@[j] && must_precede(decls@, j, i),
        },
{
    let n = decls.len();
    let mut i: usize = 0;
    while i < n
        invariant
            i <= n,
            n == decls@.len(),
            placed@.len() == n,
            forall|t: int|
                0 <= t < i && !placed@[t] ==> exists|j: int|
                    0 <= j < n && !placed@[j] && must_precede(decls@, j, t),
        decreases n - i,
    {
        if !placed[i] {
            if !has_unplaced_pred(decls, placed, i) {
                return Some(i);
            }
        }
        i = i + 1;
    }
    None
}

/// How many slots are still unplaced.
pub open spec fn unplaced_count(placed: Seq<bool>) -> nat
    decreases placed.len(),
{
    if placed.len() == 0 {
        0
    } else {
        unplaced_count(placed.drop_last()) + (if placed.last() {
            0nat
        } else {
            1nat
        })
    }
}

/// Marking an unplaced slot placed lowers the count by one.
proof fn lemma_unplaced_update(placed: Seq<bool>, i: int)
    requires
        0 <= i < placed.len(),
        !placed[i],
    ensures
        unplaced_count(placed) == unplaced_count(placed.update(i, true)) + 1,
    decreases placed.len(),
{
    let u = placed.update(i, true);
    if i == placed.len() - 1 {
        assert(u.drop_last() =~= placed.drop_last());
    } else {
        assert(u.drop_last() =~= placed.drop_last().update(i, true));
        lemma_unplaced_update(placed.drop_last(), i);
    }
}

/// A positive count means some slot is unplaced.
proof fn lemma_unplaced_nonzero(placed: Seq<bool>)
    requires
        unplaced_count(placed) > 0,
    ensures
        exists|i: int| 0 <= i < placed.len() && !placed[i],
    decreases placed.len(),
{
    if placed.len() > 0 {
        if !placed.last() {
            assert(!placed[placed.len() - 1]);
        } else {
            lemma_unplaced_nonzero(placed.drop_last());
            let i = choose|i: int| 0 <= i < placed.len() - 1 && !placed.drop_last()[i];
            assert(!placed[i]);
        }
    }
}

/// Every slot still unplaced means the count cannot be zero.
proof fn lemma_unplaced_positive(placed: Seq<bool>, i: int)
    requires
        0 <= i < placed.len(),
        !placed[i],
    ensures
        unplaced_count(placed) > 0,
    decreases placed.len(),
{
    if i == placed.len() - 1 {
    } else {
        lemma_unplaced_positive(placed.drop_last(), i);
    }
}

/// Produce an execution order for the declared systems in which every
/// reader runs after each same-frame writer of what it reads, and the
/// thread-local terminal consumer, if declared, runs after everything
/// else. A configuration whose dependencies are cyclic is refused, as a
/// setup error.
#[verifier::rlimit(60)]
pub fn schedule(decls: &Vec<SystemDecl>) -> (r: Result<Vec<usize>, CustomError>)
    ensures
        match r {
            Ok(order) => respects(decls@, order@) && complete(order@, decls@.len() as int),
            Err(_) => blocked(decls@),
        },
{
    let n = decls.len();
    let mut placed: Vec<bool> = Vec::new();
    let mut k: usize = 0;
    while k < n
        invariant
            k <= n,
            placed@.len() == k,
            forall|t: int| 0 <= t < k ==> !placed@[t],
            unplaced_count(placed@) == k,
        decreases n - k,
    {
        let ghost p0 = placed@;
        placed.push(false);
        proof {
            assert(placed@.drop_last() =~= p0);
        }
        k = k + 1;
    }

    let mut order: Vec<usize> = Vec::new();
    let mut count: usize = 0;
    let ghost mut pos_of: Map<int, int> = Map::empty();
    while count < n
        invariant
            count <= n,
            n == decls@.len(),
            placed@.len() == n,
            order@.len() == count,
            unplaced_count(placed@) == n - count,
            forall|t: int|
                0 <= t < count ==> (#[trigger] order@[t] as int) < n && placed@[order@[t] as int],
            forall|x: int|
                0 <= x < n && #[trigger] placed@[x] ==> pos_of.dom().contains(x) && 0 <= pos_of[x]
                    < count && order@[pos_of[x]] == x,
            forall|t1: int, t2: int| 0 <= t1 < t2 < count ==> order@[t1] != order@[t2],
            forall|t1: int, t2: int|
                0 <= t1 < t2 < count ==> !must_precede(decls@, order@[t2] as int, order@[t1] as int),
            forall|t: int, j: int|
                0 <= t < count && 0 <= j < n && !placed@[j] ==> !must_precede(
                    decls@,
                    j,
                    order@[t] as int,
                ),
        decreases n - count,
    {
        match find_ready(decls, &placed) {
            Some(i) => {
                proof {
                    lemma_unplaced_update(placed@, i as int);
                    pos_of = pos_of.insert(i as int, count as int);
                }
                placed.set(i, true);
                order.push(i);
                count = count + 1;
            },
            None => {
                proof {
                    lemma_unplaced_nonzero(placed@);
                    assert(stuck_state(decls@, placed@));
                }
                return Err(CustomError::new("cyclic system dependencies".to_string()));
            },
        }
    }
    proof {
        assert forall|i: int| 0 <= i < n implies placed@[i] by {
            if !placed@[i] {
                lemma_unplaced_positive(placed@, i);
            }
        }
        assert forall|i: int| 0 <= i < n implies #[trigger] appears(order@, i) by {
            assert(placed@[i]);
            assert(order@[pos_of[i]] == i);
        }
    }
    Ok(order)
}

/// The position of the first still-waiting system in the order.
proof fn first_waiting_position(
    decls: Seq<SystemDecl>,
    placed: Seq<bool>,
    order: Seq<usize>,
    k: int,
)
 -> (res: int)
    requires
        respects(decls, order),
        placed.len() == decls.len(),
        0 <= k <= order.len(),
        exists|t: int| k <= t < order.len() && !placed[#[trigger] order[t] as int],
    ensures
        k <= res < order.len(),
        !placed[order[res] as int],
        forall|t: int| k <= t < res ==> placed[#[trigger] order[t] as int],
    decreases order.len() - k,
{
    if !placed[order[k] as int] {
        k
    } else {
        let t0 = choose|t: int| k <= t < order.len() && !placed[#[trigger] order[t] as int];
        assert(t0 != k);
        first_waiting_position(decls, placed, order, k + 1)
    }
}

/// A stuck placement refutes every complete valid order: the waiting
/// system standing earliest would need a waiting predecessor even earlier.
/// With [`schedule`]'s contract this makes the error exact: the
/// declarations are refused precisely when no valid order exists.
pub proof fn lemma_stuck_refutes_order(
    decls: Seq<SystemDecl>,
    placed: Seq<bool>,
    order: Seq<usize>,
)
    requires
        stuck_state(decls, placed),
        respects(decls, order),
    ensures
        !complete(order, decls.len() as int),
{
    if complete(order, decls.len() as int) {
        assert(exists|t: int| 0 <= t < order.len() && !placed[#[trigger] order[t] as int]) by {
            let i0 = choose|i: int| 0 <= i < placed.len() && !placed[i];
            assert(appears(order, i0));
            let t0 = choose|t: int| 0 <= t < order.len() && order[t] == i0;
            assert(!placed[order[t0] as int]);
        }
        let k0 = first_waiting_position(decls, placed, order, 0);
        let i = order[k0] as int;
        let j = choose|j: int| 0 <= j < placed.len() && !placed[j] && must_precede(decls, j, i);
        assert(j != i) by {
            reveal(must_precede);
        }
        assert(appears(order, j));
        let kj = choose|t: int| 0 <= t < order.len() && order[t] == j;
        assert(kj != k0);
        if kj < k0 {
            assert(placed[order[kj] as int]);
        } else {
            assert(!must_precede(decls, order[kj] as int, order[k0] as int));
        }
        assert(false);
    }
}

/// In any valid order, a system that must precede another stands earlier.
pub proof fn lemma_writer_precedes_reader(
    decls: Seq<SystemDecl>,
    order: Seq<usize>,
    ka: int,
    kb: int,
)
    requires
        respects(decls, order),
        0 <= ka < order.len(),
        0 <= kb < order.len(),
        must_precede(decls, order[ka] as int, order[kb] as int),
    ensures
        ka < kb,
{
    reveal(must_precede);
    if kb < ka {
        assert(!must_precede(decls, order[ka] as int, order[kb] as int));
    }
    if kb == ka {
        assert(order[ka] == order[kb]);
    }
}

/// The core pipeline's ordering guarantee: with the timer writing the
/// frame delta, gravity writing accelerations, and the integrator reading
/// both, every valid execution order runs the timer before the integrator
/// and gravity before the integrator.
pub proof fn lemma_core_pipeline_order(
    decls: Seq<SystemDecl>,
    order: Seq<usize>,
    kt: int,
    kg: int,
    km: int,
)
    requires
        respects(decls, order),
        0 <= kt < order.len(),
        0 <= kg < order.len(),
        0 <= km < order.len(),
        order[kt] != order[km],
        order[kg] != order[km],
        decls[order[kt] as int].writes@.contains(ResourceId::DeltaTime),
        decls[order[km] as int].reads@.contains(ResourceId::DeltaTime),
        decls[order[kg] as int].writes@.contains(ResourceId::AccelerationData),
        decls[order[km] as int].reads@.contains(ResourceId::AccelerationData),
        !decls[order[km] as int].independent@.contains(ResourceId::DeltaTime),
        !decls[order[km] as int].independent@.contains(ResourceId::AccelerationData),
    ensures
        kt < km,
        kg < km,
{
    reveal(must_precede);
    assert(must_precede(decls, order[kt] as int, order[km] as int));
    assert(must_precede(decls, order[kg] as int, order[km] as int));
    lemma_writer_precedes_reader(decls, order, kt, km);
    lemma_writer_precedes_reader(decls, order, kg, km);
}

} // verus!
