//! The function table: for each function name, the workers that can run
//! the function, in ascending order.

use vstd::prelude::*;
use vstd::hash_map::StringHashMap;
use crate::utils::{ascending_workers, WorkerID};

verus! {

/// The workers registered for `name`; none where the table has no entry.
pub open spec fn workers_of(table: Map<Seq<char>, Seq<WorkerID>>, name: Seq<char>) -> Seq<
    WorkerID,
> {
    if table.contains_key(name) {
        table[name]
    } else {
        Seq::empty()
    }
}

/// Worker `workerid` has registered the function `name`.
pub open spec fn can_execute(
    table: Map<Seq<char>, Seq<WorkerID>>,
    name: Seq<char>,
    workerid: WorkerID,
) -> bool {
    workers_of(table, name).contains(workerid)
}

/// The number of workers in `s` that are smaller than `workerid`.
pub open spec fn rank(s: Seq<WorkerID>, workerid: WorkerID) -> int
    decreases s.len(),
{
    if s.len() == 0 {
        0
    } else {
        rank(s.drop_last(), workerid) + if s.last() < workerid {
            1int
        } else {
            0int
        }
    }
}

/// `s` with `workerid` in its place; `s` itself where it holds the worker
/// already.
pub open spec fn insert_sorted(s: Seq<WorkerID>, workerid: WorkerID) -> Seq<WorkerID> {
    if s.contains(workerid) {
        s
    } else {
        s.insert(rank(s, workerid), workerid)
    }
}

/// The table after worker `workerid` has registered the function `name`.
pub open spec fn register_function(
    table: Map<Seq<char>, Seq<WorkerID>>,
    name: Seq<char>,
    workerid: WorkerID,
) -> Map<Seq<char>, Seq<WorkerID>> {
    table.insert(name, insert_sorted(workers_of(table, name), workerid))
}

/// Every entry of the table ascends, so no worker occurs twice in it.
pub open spec fn sorted_table(table: Map<Seq<char>, Seq<WorkerID>>) -> bool {
    forall|name: Seq<char>| table.contains_key(name) ==> ascending_workers(#[trigger] table[name])
}

/// The rank of a worker lies within the sequence.
pub proof fn lemma_rank_bounds(s: Seq<WorkerID>, workerid: WorkerID)
    ensures
        0 <= rank(s, workerid) <= s.len(),
    decreases s.len(),
{
    if s.len() > 0 {
        lemma_rank_bounds(s.drop_last(), workerid);
    }
}

/// In an ascending sequence the rank of a worker is the place where the
/// smaller workers end.
pub proof fn lemma_rank_is_split(s: Seq<WorkerID>, workerid: WorkerID, k: int)
    requires
        0 <= k <= s.len(),
        forall|i: int| 0 <= i < k ==> s[i] < workerid,
        forall|i: int| k <= i < s.len() ==> s[i] >= workerid,
    ensures
        rank(s, workerid) == k,
    decreases s.len(),
{
    if s.len() > 0 {
        if k == s.len() {
            lemma_rank_is_split(s.drop_last(), workerid, k - 1);
        } else {
            lemma_rank_is_split(s.drop_last(), workerid, k);
        }
    }
}

/// Inserting a worker keeps an ascending sequence ascending, and adds the
/// worker to its elements and nothing else.
pub proof fn lemma_insert_sorted(s: Seq<WorkerID>, workerid: WorkerID)
    requires
        ascending_workers(s),
    ensures
        ascending_workers(insert_sorted(s, workerid)),
        forall|w: WorkerID|
            insert_sorted(s, workerid).contains(w) <==> (s.contains(w) || w == workerid),
{
    let t = insert_sorted(s, workerid);
    if s.contains(workerid) {
    } else {
        let k = rank(s, workerid);
        lemma_rank_bounds(s, workerid);
        lemma_rank_splits(s, workerid);
        assert(t[k] == workerid);
        assert forall|w: WorkerID| t.contains(w) <==> (s.contains(w) || w == workerid) by {
            if t.contains(w) {
                let i = choose|i: int| 0 <= i < t.len() && t[i] == w;
                if i < k {
                    assert(s[i] == w);
                } else if i > k {
                    assert(s[i - 1] == w);
                }
            }
            if s.contains(w) {
                let i = choose|i: int| 0 <= i < s.len() && s[i] == w;
                if i < k {
                    assert(t[i] == w);
                } else {
                    assert(t[i + 1] == w);
                }
            }
        }
    }
}

/// In an ascending sequence that lacks `workerid`, the workers before its
/// rank are smaller and the others are greater.
pub proof fn lemma_rank_splits(s: Seq<WorkerID>, workerid: WorkerID)
    requires
        ascending_workers(s),
    ensures
        forall|i: int| 0 <= i < rank(s, workerid) ==> s[i] < workerid,
        forall|i: int| rank(s, workerid) <= i < s.len() ==> s[i] >= workerid,
    decreases s.len(),
{
    lemma_rank_bounds(s, workerid);
    if s.len() > 0 {
        let p = s.drop_last();
        lemma_rank_splits(p, workerid);
        lemma_rank_bounds(p, workerid);
        if s.last() < workerid {
            assert forall|i: int| 0 <= i < rank(s, workerid) implies s[i] < workerid by {
                if i < s.len() - 1 {
                    assert(s[i] < s[s.len() - 1]);
                }
            }
        } else {
            assert forall|i: int| rank(s, workerid) <= i < s.len() implies s[i] >= workerid by {
                if i < s.len() - 1 {
                    assert(p[i] == s[i]);
                }
            }
            assert forall|i: int| 0 <= i < rank(s, workerid) implies s[i] < workerid by {
                assert(p[i] == s[i]);
            }
        }
    }
}

/// Registering keeps every entry of the table ascending.
pub proof fn lemma_register_keeps_sorted(
    table: Map<Seq<char>, Seq<WorkerID>>,
    name: Seq<char>,
    workerid: WorkerID,
)
    requires
        sorted_table(table),
    ensures
        sorted_table(register_function(table, name, workerid)),
        can_execute(register_function(table, name, workerid), name, workerid),
{
    let list = workers_of(table, name);
    lemma_insert_sorted(list, workerid);
    let after = register_function(table, name, workerid);
    assert forall|f: Seq<char>| after.contains_key(f) implies ascending_workers(
        #[trigger] after[f],
    ) by {
        if f != name {
            assert(table.contains_key(f));
            assert(after[f] == table[f]);
        }
    }
}

/// Registration is idempotent: a worker that registers a function twice
/// leaves the table as after the first registration.
pub proof fn lemma_register_idempotent(
    table: Map<Seq<char>, Seq<WorkerID>>,
    name: Seq<char>,
    workerid: WorkerID,
)
    ensures
        register_function(register_function(table, name, workerid), name, workerid)
            == register_function(table, name, workerid),
{
    let list = workers_of(table, name);
    let once = register_function(table, name, workerid);
    lemma_rank_bounds(list, workerid);
    if !list.contains(workerid) {
        assert(list.insert(rank(list, workerid), workerid)[rank(list, workerid)] == workerid);
    }
    assert(insert_sorted(list, workerid).contains(workerid));
    assert(workers_of(once, name) == insert_sorted(list, workerid));
    assert(register_function(once, name, workerid) =~= once);
}

/// Looks for `workerid` in the ascending vector `v`, halving the range at
/// each step. `Ok` carries the index at which the worker stands; `Err`
/// carries the index at which it would have to be inserted.
pub fn binary_search(v: &Vec<WorkerID>, workerid: WorkerID) -> (res: Result<usize, usize>)
    requires
        ascending_workers(v@),
    ensures
        match res {
            Ok(i) => i < v@.len() && v@[i as int] == workerid,
            Err(i) => !v@.contains(workerid) && i == rank(v@, workerid),
        },
{
    let mut lo: usize = 0;
    let mut hi: usize = v.len();
    while lo < hi
        invariant
            lo <= hi <= v@.len(),
            ascending_workers(v@),
            forall|i: int| 0 <= i < lo ==> v@[i] < workerid,
            forall|i: int| hi <= i < v@.len() ==> v@[i] > workerid,
        decreases hi - lo,
    {
        let mid = lo + (hi - lo) / 2;
        let x = v[mid];
        if x == workerid {
            return Ok(mid);
        } else if x < workerid {
            lo = mid + 1;
        } else {
            hi = mid;
        }
    }
    proof {
        lemma_rank_is_split(v@, workerid, lo as int);
    }
    Err(lo)
}

/// For each function name, the ascending list of the workers that have
/// registered the function.
pub struct FnTable {
    table: StringHashMap<Vec<WorkerID>>,
}

impl View for FnTable {
    type V = Map<Seq<char>, Seq<WorkerID>>;

    closed spec fn view(&self) -> Map<Seq<char>, Seq<WorkerID>> {
        self.table@.map_values(|v: Vec<WorkerID>| v@)
    }
}

impl FnTable {
    /// Every entry ascends.
    pub open spec fn wf(&self) -> bool {
        sorted_table(self@)
    }

    /// The table without functions.
    pub fn new() -> (table: FnTable)
        ensures
            table@ == Map::<Seq<char>, Seq<WorkerID>>::empty(),
            table.wf(),
    {
        let table = FnTable { table: StringHashMap::new() };
        assert(table@ =~= Map::<Seq<char>, Seq<WorkerID>>::empty());
        table
    }

    /// The workers that have registered `name`, in ascending order.
    pub fn workers(&self, name: &str) -> (res: Vec<WorkerID>)
        ensures
            res@ == workers_of(self@, name@),
    {
        match self.table.get(name) {
            Some(list) => list.clone(),
            None => Vec::new(),
        }
    }

    /// Whether worker `workerid` has registered the function `name`.
    pub fn can_execute(&self, name: &str, workerid: WorkerID) -> (res: bool)
        requires
            self.wf(),
        ensures
            res == can_execute(self@, name@, workerid),
    {
        match self.table.get(name) {
            Some(list) => {
                assert(self@[name@] == list@);
                match binary_search(list, workerid) {
                    Ok(i) => true,
                    Err(_) => false,
                }
            },
            None => false,
        }
    }

    /// Records that worker `workerid` can run the function `name`. The
    /// entry is created where the name is new; a worker that is registered
    /// already is not added again.
    pub fn register_function(&mut self, name: &str, workerid: WorkerID)
        requires
            old(self).wf(),
        ensures
            final(self).wf(),
            final(self)@ == register_function(old(self)@, name@, workerid),
    {
        let mut list = self.workers(name);
        proof {
            lemma_insert_sorted(list@, workerid);
            lemma_rank_bounds(list@, workerid);
        }
        match binary_search(&list, workerid) {
            Ok(_) => {},
            Err(idx) => {
                list.insert(idx, workerid);
            },
        }
        self.table.insert(name.to_owned(), list);
        assert(self@ =~= register_function(old(self)@, name@, workerid));
    }
}

} // verus!
