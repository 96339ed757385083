//! The computation graph: object vertices, and the calls that read and
//! produce them.

use vstd::prelude::*;
use vstd::slice::slice_to_vec;
use crate::comm::{calls_view, Call, CallView};
use crate::utils::ObjRef;

verus! {

/// What a [`CompGraph`] stands for in contracts.
pub struct CompGraphView {
    /// For each object vertex, the index of the call that was last added
    /// with the object as its result, if any.
    pub producers: Seq<Option<usize>>,
    /// The calls, in the order in which they were added.
    pub ops: Seq<CallView>,
}

impl CompGraphView {
    /// The graph without vertices and calls.
    pub open spec fn empty() -> CompGraphView {
        CompGraphView { producers: Seq::empty(), ops: Seq::empty() }
    }

    /// The graph with one more object vertex, which no call produces yet.
    pub open spec fn add_obj(self) -> CompGraphView {
        CompGraphView { producers: self.producers.push(None), ..self }
    }

    /// The graph with one more call, which leads from `args` to `result`.
    /// Where `result` is a vertex of the graph, the call becomes its
    /// producer.
    pub open spec fn add_op(self, name: Seq<char>, args: Seq<ObjRef>, result: ObjRef) -> CompGraphView {
        CompGraphView {
            producers: if result < self.producers.len() {
                self.producers.update(result as int, Some(self.ops.len() as usize))
            } else {
                self.producers
            },
            ops: self.ops.push(CallView { name, args, result }),
        }
    }
}

/// A graph of object vertices and calls. Nothing is ever removed from it.
pub struct CompGraph {
    producers: Vec<Option<usize>>,
    ops: Vec<Call>,
}

impl View for CompGraph {
    type V = CompGraphView;

    closed spec fn view(&self) -> CompGraphView {
        CompGraphView { producers: self.producers@, ops: calls_view(self.ops@) }
    }
}

impl CompGraph {
    /// The graph without vertices and calls.
    pub fn new() -> (graph: CompGraph)
        ensures
            graph@ == CompGraphView::empty(),
    {
        let graph = CompGraph { producers: Vec::new(), ops: Vec::new() };
        assert(graph@.ops =~= Seq::empty());
        graph
    }

    /// Allocates a new object vertex and returns its reference: the number
    /// of vertices allocated before it.
    pub fn add_obj(&mut self) -> (objref: ObjRef)
        ensures
            objref == old(self)@.producers.len(),
            final(self)@ == old(self)@.add_obj(),
    {
        let objref = self.producers.len() as u64;
        self.producers.push(None);
        objref
    }

    /// Appends the call of `name` that reads `args` and produces `result`.
    pub fn add_op(&mut self, name: String, args: &[ObjRef], result: ObjRef)
        ensures
            final(self)@ == old(self)@.add_op(name@, args@, result),
    {
        let index = self.ops.len();
        if result < self.producers.len() as u64 {
            self.producers.set(result as usize, Some(index));
        }
        self.ops.push(Call { name, args: slice_to_vec(args), result });
        assert(self@.ops =~= old(self)@.ops.push(CallView { name: name@, args: args@, result }));
    }

    /// The number of object vertices.
    pub fn num_objects(&self) -> (n: usize)
        ensures
            n == self@.producers.len(),
    {
        self.producers.len()
    }

    /// The number of calls.
    pub fn num_ops(&self) -> (n: usize)
        ensures
            n == self@.ops.len(),
    {
        self.ops.len()
    }

    /// The call that was added as the `index`-th.
    pub fn op(&self, index: usize) -> (call: &Call)
        requires
            index < self@.ops.len(),
        ensures
            call@ == self@.ops[index as int],
    {
        &self.ops[index]
    }

    /// The index of the call that produces `objref`; `None` where the
    /// object is no vertex or no call produces it.
    pub fn producer(&self, objref: ObjRef) -> (res: Option<usize>)
        ensures
            res == if objref < self@.producers.len() {
                self@.producers[objref as int]
            } else {
                None
            },
    {
        if objref < self.producers.len() as u64 {
            self.producers[objref as usize]
        } else {
            None
        }
    }
}

} // verus!
