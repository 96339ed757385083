//! Identifiers shared by every component, and small helpers.

use vstd::prelude::*;
use vstd::seq_lib::to_multiset_contains;
use vstd::slice::slice_to_vec;
use crate::comm::{Message, MessageType};

verus! {

/// A unique identifier for an object stored on one of the workers.
pub type ObjRef = u64;

/// A unique identifier for a worker.
pub type WorkerID = usize;

/// The object references in `s` ascend from front to back, none twice.
pub open spec fn ascending_refs(s: Seq<ObjRef>) -> bool {
    forall|i: int, j: int| 0 <= i < j < s.len() ==> s[i] < s[j]
}

/// The worker ids in `s` ascend from front to back, none twice.
pub open spec fn ascending_workers(s: Seq<WorkerID>) -> bool {
    forall|i: int, j: int| 0 <= i < j < s.len() ==> s[i] < s[j]
}

/// Two ascending sequences with the same elements are the same sequence:
/// what [`args_to_send`] says of its result leaves one result only where
/// the predicate gives one answer for each object.
pub proof fn lemma_ascending_unique(a: Seq<ObjRef>, b: Seq<ObjRef>)
    requires
        ascending_refs(a),
        ascending_refs(b),
        forall|x: ObjRef| a.contains(x) <==> b.contains(x),
    ensures
        a == b,
    decreases a.len(),
{
    if a.len() == 0 {
        if b.len() > 0 {
            assert(b.contains(b[0]));
        }
    } else {
        let top = a.last();
        assert(a.contains(top));
        let j = choose|j: int| 0 <= j < b.len() && b[j] == top;
        if j < b.len() - 1 {
            assert(b.contains(b.last()));
            let i = choose|i: int| 0 <= i < a.len() && a[i] == b.last();
            assert(a[i] <= top);
        }
        let a0 = a.drop_last();
        let b0 = b.drop_last();
        assert forall|x: ObjRef| a0.contains(x) <==> b0.contains(x) by {
            if a0.contains(x) {
                let i = choose|i: int| 0 <= i < a0.len() && a0[i] == x;
                assert(a[i] == x && a.contains(x));
                let k = choose|k: int| 0 <= k < b.len() && b[k] == x;
                assert(a[i] < a[a.len() - 1]);
                assert(b0[k] == x);
            }
            if b0.contains(x) {
                let k = choose|k: int| 0 <= k < b0.len() && b0[k] == x;
                assert(b[k] == x && b.contains(x));
                let i = choose|i: int| 0 <= i < a.len() && a[i] == x;
                assert(b[k] < b[b.len() - 1]);
                assert(a0[i] == x);
            }
        }
        lemma_ascending_unique(a0, b0);
        assert(a =~= a0.push(top));
        assert(b =~= b0.push(top));
    }
}

/// `<[T]>::sort` of std, on object references. Claimed of it: afterwards
/// the vector holds what it held before, each reference as often as
/// before, and no reference stands before a smaller one.
#[verifier::external_body]
fn sort_refs(v: &mut Vec<ObjRef>)
    ensures
        final(v)@.to_multiset() == old(v)@.to_multiset(),
        forall|i: int, j: int| 0 <= i <= j < final(v)@.len() ==> final(v)@[i] <= final(v)@[j],
{
    v.sort();
}

/// Given a predicate `absent` that can test if an object is unavailable on
/// the client, computes which objects from `args` still need to be sent so
/// that the function call can be invoked: the objects of `args` that are
/// absent, in ascending order, each once.
///
/// The predicate is asked once for each object that occurs in `args`. An
/// object is in the result exactly if the predicate said `true` of it.
pub fn args_to_send<F: Fn(ObjRef) -> bool>(args: &[ObjRef], absent: F) -> (res: Vec<ObjRef>)
    requires
        forall|i: int| 0 <= i < args@.len() ==> call_requires(absent, (#[trigger] args@[i],)),
    ensures
        ascending_refs(res@),
        forall|x: ObjRef|
            res@.contains(x) ==> args@.contains(x) && call_ensures(absent, (x,), true),
        forall|x: ObjRef|
            args@.contains(x) && !res@.contains(x) ==> call_ensures(absent, (x,), false),
{
    let mut scratch = slice_to_vec(args);
    sort_refs(&mut scratch);
    let ghost sorted = scratch@;
    let n = scratch.len();
    proof {
        assert forall|x: ObjRef| sorted.contains(x) <==> args@.contains(x) by {
            to_multiset_contains(sorted, x);
            to_multiset_contains(args@, x);
        }
        assert forall|k: int| 0 <= k < n implies call_requires(absent, (#[trigger] sorted[k],)) by {
            assert(sorted.contains(sorted[k]));
            let i = choose|i: int| 0 <= i < args@.len() && args@[i] == sorted[k];
            assert(call_requires(absent, (args@[i],)));
        }
    }
    // deduplicate
    let mut curr: usize = 0;
    let mut i: usize = 0;
    while i < n
        invariant
            curr <= i <= n,
            n == sorted.len(),
            scratch@.len() == n,
            forall|a: int, b: int| 0 <= a <= b < n ==> sorted[a] <= sorted[b],
            forall|k: int| 0 <= k < n ==> call_requires(absent, (#[trigger] sorted[k],)),
            forall|k: int| i <= k < n ==> scratch@[k] == sorted[k],
            i > 0 ==> scratch@[i - 1] == sorted[i - 1] || curr == i,
            i > 0 && curr == i ==> scratch@[i - 1] == sorted[i - 1],
            ascending_refs(scratch@.take(curr as int)),
            forall|a: int|
                0 <= a < curr ==> exists|k: int|
                    0 <= k < i && sorted[k] == #[trigger] scratch@[a] && call_ensures(
                        absent,
                        (sorted[k],),
                        true,
                    ),
            forall|k: int|
                0 <= k < i ==> scratch@.take(curr as int).contains(#[trigger] sorted[k])
                    || call_ensures(absent, (sorted[k],), false),
        decreases n - i,
    {
        let arg = scratch[i];
        let ghost before = scratch@;
        let ghost kept = scratch@.take(curr as int);
        if i > 0 && arg == scratch[i - 1] {
            assert(sorted[i as int] == sorted[i - 1]);
        } else {
            assert(call_requires(absent, (sorted[i as int],)));
            let send = absent(arg);
            if send {
                scratch.set(curr, arg);
                curr += 1;
                proof {
                    let now = scratch@.take(curr as int);
                    assert(now =~= kept.push(arg));
                    assert forall|a: int, b: int| 0 <= a < b < now.len() implies now[a]
                        < now[b] by {
                        if b == now.len() - 1 {
                            let k = choose|k: int|
                                0 <= k < i && sorted[k] == before[a] && call_ensures(
                                    absent,
                                    (sorted[k],),
                                    true,
                                );
                            assert(sorted[k] <= sorted[i - 1]);
                            assert(sorted[i - 1] <= sorted[i as int]);
                        } else {
                            assert(kept[a] < kept[b]);
                        }
                    }
                    assert(now.last() == arg);
                    assert forall|k: int| 0 <= k < i + 1 implies now.contains(
                        #[trigger] sorted[k],
                    ) || call_ensures(absent, (sorted[k],), false) by {
                        if k < i && kept.contains(sorted[k]) {
                            let a = choose|a: int| 0 <= a < kept.len() && kept[a] == sorted[k];
                            assert(now[a] == sorted[k]);
                        }
                    }
                }
            } else {
                assert(scratch@.take(curr as int) =~= kept);
            }
        }
        i += 1;
    }
    let ghost full = scratch@;
    scratch.truncate(curr);
    proof {
        assert(scratch@ =~= full.take(curr as int));
        assert forall|x: ObjRef| scratch@.contains(x) implies args@.contains(x) && call_ensures(
            absent,
            (x,),
            true,
        ) by {
            let a = choose|a: int| 0 <= a < scratch@.len() && scratch@[a] == x;
            let k = choose|k: int|
                0 <= k < n && sorted[k] == full[a] && call_ensures(absent, (sorted[k],), true);
            assert(sorted.contains(sorted[k]));
        }
        assert forall|x: ObjRef| args@.contains(x) && !scratch@.contains(x) implies call_ensures(
            absent,
            (x,),
            false,
        ) by {
            assert(sorted.contains(x));
            let k = choose|k: int| 0 <= k < n && sorted[k] == x;
            assert(full.take(curr as int).contains(sorted[k]) || call_ensures(
                absent,
                (sorted[k],),
                false,
            ));
        }
    }
    scratch
}

/// Whether `message` is an acknowledgement.
pub fn is_ack(message: &Message) -> (res: bool)
    ensures
        res == (message@.field_type == MessageType::Ack),
{
    match message.field_type {
        MessageType::Ack => true,
        _ => false,
    }
}

} // verus!
