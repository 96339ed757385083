//! The object table: for each object, the workers that hold it.

use vstd::prelude::*;
use crate::utils::{ObjRef, WorkerID};

verus! {

/// The object `objref` is registered in `table` and at least one worker
/// holds it.
pub open spec fn available(table: Seq<Seq<WorkerID>>, objref: ObjRef) -> bool {
    objref < table.len() && table[objref as int].len() > 0
}

/// The object `objref` is registered in `table` and `workerid` is among its
/// holders.
pub open spec fn holds(table: Seq<Seq<WorkerID>>, objref: ObjRef, workerid: WorkerID) -> bool {
    objref < table.len() && table[objref as int].contains(workerid)
}

/// No worker occurs twice among the holders of an object, and every holder
/// is one of the first `workers` workers.
pub open spec fn valid_holders(table: Seq<Seq<WorkerID>>, workers: nat) -> bool {
    forall|r: int|
        0 <= r < table.len() ==> (#[trigger] table[r]).no_duplicates() && forall|k: int|
            0 <= k < table[r].len() ==> table[r][k] < workers
}

/// A table of valid holders stays one when a registered worker is appended
/// to the holders of an object that it did not hold yet, when a new object
/// is registered, and when the number of workers grows.
pub proof fn lemma_valid_holders(
    table: Seq<Seq<WorkerID>>,
    workers: nat,
    objref: ObjRef,
    workerid: WorkerID,
    more: nat,
)
    requires
        valid_holders(table, workers),
        workers <= more,
    ensures
        valid_holders(table.push(Seq::empty()), workers),
        valid_holders(table, more),
        objref < table.len() && workerid < workers && !holds(table, objref, workerid)
            ==> valid_holders(
            table.update(objref as int, table[objref as int].push(workerid)),
            workers,
        ),
{
    let grown = table.push(Seq::<WorkerID>::empty());
    assert forall|r: int| 0 <= r < grown.len() implies (#[trigger] grown[r]).no_duplicates()
        && forall|k: int| 0 <= k < grown[r].len() ==> grown[r][k] < workers by {
        if r < table.len() {
            assert(grown[r] == table[r]);
        }
    }
    if objref < table.len() && workerid < workers && !holds(table, objref, workerid) {
        let list = table[objref as int];
        let after = table.update(objref as int, list.push(workerid));
        assert forall|r: int| 0 <= r < after.len() implies (#[trigger] after[r]).no_duplicates()
            && forall|k: int| 0 <= k < after[r].len() ==> after[r][k] < workers by {
            if r != objref {
                assert(after[r] == table[r]);
            } else {
                assert(table[r].no_duplicates());
                assert(!list.contains(workerid));
                assert forall|i: int, j: int|
                    0 <= i < after[r].len() && 0 <= j < after[r].len() && i != j implies after[r][i]
                    != after[r][j] by {
                    if i < list.len() {
                        assert(list.contains(list[i]));
                    }
                    if j < list.len() {
                        assert(list.contains(list[j]));
                    }
                }
                assert forall|k: int| 0 <= k < after[r].len() implies after[r][k] < workers by {
                    if k < list.len() {
                        assert(after[r][k] == table[r][k]);
                    }
                }
            }
        }
    }
}

/// For each object, the workers known to hold it, in the order in which
/// they reported it. The index into the table is the object's reference.
pub struct ObjTable {
    holders: Vec<Vec<WorkerID>>,
}

impl View for ObjTable {
    type V = Seq<Seq<WorkerID>>;

    closed spec fn view(&self) -> Seq<Seq<WorkerID>> {
        Seq::new(self.holders@.len(), |i: int| self.holders@[i]@)
    }
}

impl ObjTable {
    /// The table without objects.
    pub fn new() -> (table: ObjTable)
        ensures
            table@ == Seq::<Seq<WorkerID>>::empty(),
    {
        let table = ObjTable { holders: Vec::new() };
        assert(table@ =~= Seq::<Seq<WorkerID>>::empty());
        table
    }

    /// The number of registered objects.
    pub fn len(&self) -> (n: usize)
        ensures
            n == self@.len(),
    {
        self.holders.len()
    }

    /// Registers a new object, held by nobody yet, and returns its
    /// reference: the number of objects registered before it.
    pub fn register_new_object(&mut self) -> (objref: ObjRef)
        ensures
            objref == old(self)@.len(),
            final(self)@ == old(self)@.push(Seq::empty()),
    {
        let objref = self.holders.len() as u64;
        self.holders.push(Vec::new());
        assert(self@ =~= old(self)@.push(Seq::empty()));
        objref
    }

    /// Records that `workerid` holds `objref`: the worker is appended to the
    /// object's holders.
    pub fn register_result(&mut self, objref: ObjRef, workerid: WorkerID)
        requires
            objref < old(self)@.len(),
        ensures
            final(self)@ == old(self)@.update(
                objref as int,
                old(self)@[objref as int].push(workerid),
            ),
    {
        assert(old(self)@.len() == old(self).holders.len());
        let i = objref as usize;
        self.holders[i].push(workerid);
        assert(self@ =~= old(self)@.update(
            objref as int,
            old(self)@[objref as int].push(workerid),
        ));
    }

    /// The holders of `objref`.
    pub fn holders(&self, objref: ObjRef) -> (res: &Vec<WorkerID>)
        requires
            objref < self@.len(),
        ensures
            res@ == self@[objref as int],
    {
        assert(self@.len() == self.holders.len());
        &self.holders[objref as usize]
    }

    /// Whether `objref` is registered and held by at least one worker.
    pub fn is_available(&self, objref: ObjRef) -> (res: bool)
        ensures
            res == available(self@, objref),
    {
        assert(self@.len() == self.holders@.len());
        if objref < self.holders.len() as u64 {
            self.holders[objref as usize].len() > 0
        } else {
            false
        }
    }

    /// Whether `objref` is registered and `workerid` is one of its holders.
    pub fn holds(&self, objref: ObjRef, workerid: WorkerID) -> (res: bool)
        ensures
            res == holds(self@, objref, workerid),
    {
        assert(self@.len() == self.holders@.len());
        if objref >= self.holders.len() as u64 {
            return false;
        }
        let list = &self.holders[objref as usize];
        let mut i: usize = 0;
        while i < list.len()
            invariant
                i <= list@.len(),
                objref < self@.len(),
                list@ == self@[objref as int],
                forall|k: int| 0 <= k < i ==> list@[k] != workerid,
            decreases list.len() - i,
        {
            if list[i] == workerid {
                return true;
            }
            i += 1;
        }
        false
    }
}

} // verus!
