//! The worker pool and the request front end.
//!
//! The pool keeps the registry of workers and decides what is published to
//! them: the greeting and the introductions when a worker joins, the
//! deliveries when a worker needs an object. The front end takes one
//! request at a time, updates the tables and the graph, and says what is to
//! be replied and what the scheduler is to be told.

use rand::distributions::{IndependentSample, Range};
use vstd::prelude::*;
use vstd::slice::slice_to_vec;
use crate::comm::{Call, CallView, Message, MessageType, MessageView};
use crate::fntable::{register_function, FnTable};
use crate::graph::{CompGraph, CompGraphView};
use crate::objtable::{holds, ObjTable};
use crate::scheduler::{ChannelId, Directive, DirectiveView, Event, EventView, directives_view};
use crate::utils::{ObjRef, WorkerID};

verus! {

/// Contains information about a worker.
#[derive(Debug, PartialEq, Eq)]
pub struct Worker {
    addr: String,
}

impl View for Worker {
    type V = Seq<char>;

    /// The address at which the worker listens.
    closed spec fn view(&self) -> Seq<char> {
        self.addr@
    }
}

impl Worker {
    /// The worker that listens at `addr`.
    pub fn new(addr: String) -> (worker: Worker)
        ensures
            worker@ == addr@,
    {
        Worker { addr }
    }

    /// The address at which the worker listens.
    pub fn addr(&self) -> (addr: &str)
        ensures
            addr@ == self@,
    {
        self.addr.as_str()
    }
}

/// The directive that greets worker `workerid`.
pub open spec fn hello_directive(workerid: WorkerID) -> DirectiveView {
    DirectiveView { worker: workerid, message: MessageView::hello() }
}

/// The directive that tells worker `workerid` of a peer at `address`.
pub open spec fn introduction(workerid: WorkerID, address: Seq<char>) -> DirectiveView {
    DirectiveView { worker: workerid, message: MessageView::register_client(address) }
}

/// The directive that asks worker `pullid` to send `objref` to the worker at
/// `address`.
pub open spec fn deliver_directive(pullid: WorkerID, address: Seq<char>, objref: ObjRef) -> DirectiveView {
    DirectiveView { worker: pullid, message: MessageView::deliver(objref, address) }
}

/// The introductions that make worker `workerid`, at `addr`, known to the
/// registered workers and them to it: for each registered worker `i`, in
/// ascending order, first the new worker is told the address of `i`, then
/// `i` is told the address of the new worker.
pub open spec fn introductions(workers: Seq<Seq<char>>, addr: Seq<char>, workerid: WorkerID) -> Seq<
    DirectiveView,
> {
    Seq::new(
        2 * workers.len(),
        |k: int|
            if k % 2 == 0 {
                introduction(workerid, workers[k / 2])
            } else {
                introduction((k / 2) as WorkerID, addr)
            },
    )
}

/// What one round of the bootstrap of worker `workerid` publishes. As long
/// as the worker has not replied it is greeted again; once it has replied
/// the introductions follow.
pub open spec fn connect(
    workers: Seq<Seq<char>>,
    addr: Seq<char>,
    workerid: WorkerID,
    replied: bool,
) -> Seq<DirectiveView> {
    if replied {
        introductions(workers, addr, workerid)
    } else {
        seq![hello_directive(workerid)]
    }
}

/// The objects among `args` that worker `workerid` does not hold, in the
/// order of `args`, each as often as it occurs.
pub open spec fn missing(objtable: Seq<Seq<WorkerID>>, workerid: WorkerID, args: Seq<ObjRef>) -> Seq<
    ObjRef,
> {
    args.filter(|objref: ObjRef| !holds(objtable, objref, workerid))
}

/// What a worker's executor does with a directive from the scheduler.
#[derive(Debug, PartialEq, Eq)]
pub enum Execution {
    /// Send the request to the worker over its own connection, wait for its
    /// acknowledgement, then have each object delivered to it.
    Invoke { request: Message, args: Vec<ObjRef> },
    /// Have the object delivered to the worker.
    Deliver { objref: ObjRef },
    /// Publish the directive as it is.
    Publish { directive: Directive },
    /// Nothing.
    Ignore,
}

/// What an [`Execution`] stands for in contracts.
pub enum ExecutionView {
    Invoke { request: MessageView, args: Seq<ObjRef> },
    Deliver { objref: ObjRef },
    Publish { directive: DirectiveView },
    Ignore,
}

impl View for Execution {
    type V = ExecutionView;

    open spec fn view(&self) -> ExecutionView {
        match *self {
            Execution::Invoke { request, args } => ExecutionView::Invoke {
                request: request@,
                args: args@,
            },
            Execution::Deliver { objref } => ExecutionView::Deliver { objref },
            Execution::Publish { directive } => ExecutionView::Publish { directive: directive@ },
            Execution::Ignore => ExecutionView::Ignore,
        }
    }
}

/// The request that asks a worker to run the function `name` on `args` and
/// to store what it returns as `result`.
pub open spec fn function_call(name: Seq<char>, args: Seq<ObjRef>, result: ObjRef) -> MessageView {
    MessageView::invoke(CallView { name, args, result })
}

/// What the executor of worker `workerid` does with `request`.
pub open spec fn execution(workerid: WorkerID, request: MessageView) -> ExecutionView {
    match request.field_type {
        MessageType::Invoke => ExecutionView::Invoke {
            request: function_call(request.call.name, request.call.args, request.call.result),
            args: request.call.args,
        },
        MessageType::Pull => ExecutionView::Deliver { objref: request.objref },
        MessageType::Debug => ExecutionView::Publish {
            directive: DirectiveView { worker: workerid, message: request },
        },
        _ => ExecutionView::Ignore,
    }
}

/// The request for function execution that is sent to a worker.
pub fn send_function_call(name: &str, arguments: &[ObjRef], result: ObjRef) -> (message: Message)
    ensures
        message@ == function_call(name@, arguments@, result),
{
    Message::invoke(Call::new(name.to_owned(), slice_to_vec(arguments), result))
}

/// `rand::thread_rng`, `Range::new` and `Range::ind_sample` of the crate
/// rand, in this order: a number drawn from the numbers below `n`. Claimed
/// of it: the number is below `n`. Which number comes is left open.
#[verifier::external_body]
fn random_index(n: usize) -> (idx: usize)
    requires
        n > 0,
    ensures
        idx < n,
{
    let mut rng = rand::thread_rng();
    let range = Range::new(0, n);
    range.ind_sample(&mut rng)
}

/// A group of workers that are managed and scheduled together. The index
/// of a worker in the registry is its id.
pub struct WorkerPool {
    workers: Vec<Worker>,
}

impl View for WorkerPool {
    type V = Seq<Seq<char>>;

    /// The addresses of the registered workers, by worker id.
    closed spec fn view(&self) -> Seq<Seq<char>> {
        self.workers@.map_values(|w: Worker| w@)
    }
}

impl WorkerPool {
    /// Creates a new `WorkerPool` without workers.
    pub fn new() -> (pool: WorkerPool)
        ensures
            pool@ == Seq::<Seq<char>>::empty(),
    {
        let pool = WorkerPool { workers: Vec::new() };
        assert(pool@ =~= Seq::<Seq<char>>::empty());
        pool
    }

    /// The event that adds `job` to the scheduler's queue.
    pub fn queue_job(&self, job: Call) -> (event: Event)
        ensures
            event@ == EventView::Job(job@),
    {
        Event::Job(job)
    }

    /// Returns the number of workers in the pool.
    pub fn len(&self) -> (n: usize)
        ensures
            n == self@.len(),
    {
        self.workers.len()
    }

    /// The address of worker `workerid`.
    pub fn addr(&self, workerid: WorkerID) -> (addr: &str)
        requires
            workerid < self@.len(),
        ensures
            addr@ == self@[workerid as int],
    {
        self.workers[workerid].addr()
    }

    /// One round of connecting the new worker `workerid`, which listens at
    /// `addr`, to the workers already in the pool. `replied` says whether
    /// the new worker has answered a greeting. Until it has, the round
    /// publishes one more greeting. Once it has, the round publishes the
    /// introductions: the new worker is told of every worker in the pool,
    /// and every worker in the pool is told of the new one.
    pub fn connect(&self, addr: &str, workerid: WorkerID, replied: bool) -> (out: Vec<Directive>)
        ensures
            directives_view(out@) == connect(self@, addr@, workerid, replied),
    {
        let mut out: Vec<Directive> = Vec::new();
        if !replied {
            out.push(Directive { worker: workerid, message: Message::hello() });
            assert(directives_view(out@) =~= connect(self@, addr@, workerid, replied));
            return out;
        }
        let mut i: usize = 0;
        while i < self.workers.len()
            invariant
                i <= self.workers@.len(),
                self@.len() == self.workers@.len(),
                out@.len() == 2 * i,
                forall|k: int|
                    0 <= k < 2 * i ==> (#[trigger] out@[k])@ == introductions(
                        self@,
                        addr@,
                        workerid,
                    )[k],
            decreases self.workers@.len() - i,
        {
            let other_party = self.workers[i].addr().to_owned();
            assert(other_party@ == self@[i as int]);
            out.push(Directive { worker: workerid, message: Message::register_client(other_party) });
            out.push(Directive { worker: i, message: Message::register_client(addr.to_owned()) });
            i += 1;
        }
        assert(directives_view(out@) =~= connect(self@, addr@, workerid, replied));
        out
    }

    /// The directive that tells worker `pullid` to deliver the object
    /// `objref` to the worker at `addr`.
    pub fn send_deliver_request(pullid: WorkerID, addr: &str, objref: ObjRef) -> (directive:
        Directive)
        ensures
            directive@ == deliver_directive(pullid, addr@, objref),
    {
        Directive { worker: pullid, message: Message::deliver(objref, addr.to_owned()) }
    }

    /// The delivery of `objref` to worker `workerid` by the holder that stands
    /// at `idx` among the holders of the object.
    pub fn deliver_from(&self, idx: usize, workerid: WorkerID, objref: ObjRef, objtable: &ObjTable) -> (directive:
        Directive)
        requires
            objref < objtable@.len(),
            idx < objtable@[objref as int].len(),
            workerid < self@.len(),
        ensures
            directive@ == deliver_directive(
                objtable@[objref as int][idx as int],
                self@[workerid as int],
                objref,
            ),
    {
        let pullid = objtable.holders(objref)[idx];
        WorkerPool::send_deliver_request(pullid, self.addr(workerid), objref)
    }

    /// Has the object `objref` delivered to worker `workerid`. Where the
    /// worker holds the object already nothing is to be done. Else one of
    /// the holders of the object, drawn at random, is asked to send it to
    /// the worker.
    pub fn deliver_object(&self, workerid: WorkerID, objref: ObjRef, objtable: &ObjTable) -> (res:
        Option<Directive>)
        requires
            objref < objtable@.len(),
            holds(objtable@, objref, workerid) || (objtable@[objref as int].len() > 0 && workerid
                < self@.len()),
        ensures
            res is None <==> holds(objtable@, objref, workerid),
            res matches Some(directive) ==> exists|idx: int|
                0 <= idx < objtable@[objref as int].len() && directive@ == deliver_directive(
                    #[trigger] objtable@[objref as int][idx],
                    self@[workerid as int],
                    objref,
                ),
    {
        if !objtable.holds(objref, workerid) {
            let idx = random_index(objtable.holders(objref).len());
            let directive = self.deliver_from(idx, workerid, objref, objtable);
            assert(directive@ == deliver_directive(
                objtable@[objref as int][idx as int],
                self@[workerid as int],
                objref,
            ));
            Some(directive)
        } else {
            None
        }
    }

    /// Has every object of `args` delivered to worker `workerid`, one after
    /// the other: a call was sent to the worker and it needs its arguments.
    /// For each argument that the worker lacks, in the order of `args`, one
    /// holder of the argument is asked to send it.
    pub fn deliver_arguments(&self, workerid: WorkerID, args: &[ObjRef], objtable: &ObjTable) -> (out:
        Vec<Directive>)
        requires
            forall|k: int|
                0 <= k < args@.len() ==> (#[trigger] args@[k]) < objtable@.len() && (holds(
                    objtable@,
                    args@[k],
                    workerid,
                ) || (objtable@[args@[k] as int].len() > 0 && workerid < self@.len())),
        ensures
            out@.len() == missing(objtable@, workerid, args@).len(),
            forall|k: int|
                0 <= k < out@.len() ==> {
                    let objref = missing(objtable@, workerid, args@)[k];
                    &&& objtable@[objref as int].contains((#[trigger] out@[k]).worker)
                    &&& out@[k]@ == deliver_directive(
                        out@[k].worker,
                        self@[workerid as int],
                        objref,
                    )
                },
    {
        let ghost lacks = |objref: ObjRef| !holds(objtable@, objref, workerid);
        let mut out: Vec<Directive> = Vec::new();
        let mut i: usize = 0;
        assert(args@.take(0).filter(lacks) =~= Seq::empty()) by {
            reveal(Seq::filter);
        }
        while i < args.len()
            invariant
                i <= args@.len(),
                lacks == (|objref: ObjRef| !holds(objtable@, objref, workerid)),
                forall|k: int|
                    0 <= k < args@.len() ==> (#[trigger] args@[k]) < objtable@.len() && (holds(
                        objtable@,
                        args@[k],
                        workerid,
                    ) || (objtable@[args@[k] as int].len() > 0 && workerid < self@.len())),
                out@.len() == args@.take(i as int).filter(lacks).len(),
                forall|k: int|
                    0 <= k < out@.len() ==> {
                        let objref = args@.take(i as int).filter(lacks)[k];
                        &&& objtable@[objref as int].contains((#[trigger] out@[k]).worker)
                        &&& out@[k]@ == deliver_directive(
                            out@[k].worker,
                            self@[workerid as int],
                            objref,
                        )
                    },
            decreases args@.len() - i,
        {
            let objref = args[i];
            proof {
                assert(args@.take(i + 1) =~= args@.take(i as int).push(objref));
                args@.take(i as int).lemma_filter_push(objref, lacks);
            }
            match self.deliver_object(workerid, objref, objtable) {
                Some(directive) => {
                    out.push(directive);
                },
                None => {},
            }
            i += 1;
        }
        assert(args@.take(args@.len() as int) =~= args@);
        out
    }

    /// What the executor of worker `workerid` does with a directive from
    /// the scheduler: a call is sent on to the worker and its arguments are
    /// delivered, a pull has the object delivered, a debug snapshot is
    /// published, and every other message is dropped.
    pub fn execute(workerid: WorkerID, request: Message) -> (res: Execution)
        ensures
            res@ == execution(workerid, request@),
    {
        match request.field_type {
            MessageType::Invoke => {
                let args = request.call.args.clone();
                let message = send_function_call(
                    request.call.name.as_str(),
                    request.call.args.as_slice(),
                    request.call.result,
                );
                Execution::Invoke { request: message, args }
            },
            MessageType::Pull => Execution::Deliver { objref: request.objref },
            MessageType::Debug => Execution::Publish {
                directive: Directive { worker: workerid, message: request },
            },
            _ => Execution::Ignore,
        }
    }

    /// Registers a new worker, which listens at `addr` and whose executor
    /// is reached through `channel`. The worker gets the next id. The
    /// events tell the scheduler of the channel and that the worker is
    /// idle.
    pub fn register(&mut self, addr: &str, channel: ChannelId) -> (res: (WorkerID, Vec<Event>))
        ensures
            res.0 == old(self)@.len(),
            final(self)@ == old(self)@.push(addr@),
            final(self)@.len() == old(self)@.len() + 1,
            res.1@.len() == 2,
            res.1@[0]@ == EventView::Register(res.0, channel),
            res.1@[1]@ == EventView::Worker(res.0),
    {
        let workerid = self.workers.len();
        self.workers.push(Worker::new(addr.to_owned()));
        assert(self@ =~= old(self)@.push(addr@));
        let mut events: Vec<Event> = Vec::new();
        events.push(Event::Register(workerid, channel));
        events.push(Event::Worker(workerid));
        (workerid, events)
    }
}

/// Why a request was turned down.
#[derive(Clone, Copy, Debug, PartialEq, Eq, Structural)]
pub enum RequestError {
    /// A message of this kind is not a request.
    NotAllowed(MessageType),
    /// A worker reported a result for an object that was never registered.
    UnknownObject(ObjRef),
}

/// What the front end asks its surroundings to do for a request.
#[derive(Debug, PartialEq, Eq)]
pub enum Action {
    /// Send the message to the client as the reply to its request.
    Reply(Message),
    /// Hand the event to the scheduler.
    Notify(Event),
    /// Run the registration of the worker that listens at this address.
    Register(String),
}

/// What an [`Action`] stands for in contracts.
pub enum ActionView {
    Reply(MessageView),
    Notify(EventView),
    Register(Seq<char>),
}

impl View for Action {
    type V = ActionView;

    open spec fn view(&self) -> ActionView {
        match *self {
            Action::Reply(message) => ActionView::Reply(message@),
            Action::Notify(event) => ActionView::Notify(event@),
            Action::Register(address) => ActionView::Register(address@),
        }
    }
}

/// The views of the actions in `actions`, in the same order.
pub open spec fn actions_view(actions: Seq<Action>) -> Seq<ActionView> {
    actions.map_values(|a: Action| a@)
}

/// What a [`Server`] stands for in contracts.
pub struct ServerView {
    /// For each object, its holders.
    pub objtable: Seq<Seq<WorkerID>>,
    /// For each function name, the workers that can run the function.
    pub fntable: Map<Seq<char>, Seq<WorkerID>>,
    /// The computation graph.
    pub graph: CompGraphView,
    /// The addresses of the registered workers, by worker id.
    pub workers: Seq<Seq<char>>,
}

/// The object table after `workerid` has reported that it holds `objref`.
pub open spec fn register_result(
    objtable: Seq<Seq<WorkerID>>,
    objref: ObjRef,
    workerid: WorkerID,
) -> Seq<Seq<WorkerID>> {
    objtable.update(objref as int, objtable[objref as int].push(workerid))
}

impl ServerView {
    /// The server before any request.
    pub open spec fn initial() -> ServerView {
        ServerView {
            objtable: Seq::empty(),
            fntable: Map::empty(),
            graph: CompGraphView::empty(),
            workers: Seq::empty(),
        }
    }

    /// The graph has one vertex for each object of the object table, and
    /// every entry of the function table ascends.
    pub open spec fn wf(self) -> bool {
        &&& self.graph.producers.len() == self.objtable.len()
        &&& crate::fntable::sorted_table(self.fntable)
    }

    /// The reference that the next new object gets.
    pub open spec fn next_object(self) -> ObjRef {
        self.objtable.len() as ObjRef
    }

    /// The server after a new object was registered.
    pub open spec fn register_new_object(self) -> ServerView {
        ServerView {
            objtable: self.objtable.push(Seq::empty()),
            graph: self.graph.add_obj(),
            ..self
        }
    }

    /// The server after the call of `name` on `args` was added: a new object
    /// is registered for its result, and the call enters the graph.
    pub open spec fn add_call(self, name: Seq<char>, args: Seq<ObjRef>) -> ServerView {
        let registered = self.register_new_object();
        ServerView {
            graph: registered.graph.add_op(name, args, self.next_object()),
            ..registered
        }
    }
}

/// The kinds of message that are requests.
pub open spec fn is_request(t: MessageType) -> bool {
    match t {
        MessageType::Invoke
        | MessageType::RegisterClient
        | MessageType::RegisterFunction
        | MessageType::Pull
        | MessageType::Done
        | MessageType::Debug => true,
        _ => false,
    }
}

/// What the front end does with one request: the server after it and the
/// actions it asks for, in order; or the reason why it turns the request
/// down, and then the server stays as it was.
///
/// - `Invoke`: the call is added, its result object being new; the
///   scheduler is told of the job, and the client is told the call with its
///   result.
/// - `RegisterClient`: the client is told the id that it will have, which
///   is the number of workers in the pool; then the registration is run.
/// - `RegisterFunction`: the worker is entered for the function.
/// - `Pull`: after the acknowledgement the scheduler is told of the pull.
/// - `Done`: the worker is appended to the holders of the result; after the
///   acknowledgement the scheduler is told first that the worker is idle,
///   then that the object exists.
/// - `Debug`: after the acknowledgement the scheduler is asked for a
///   snapshot.
pub open spec fn process(s: ServerView, msg: MessageView) -> Result<
    (ServerView, Seq<ActionView>),
    RequestError,
> {
    match msg.field_type {
        MessageType::Invoke => {
            let call = CallView { result: s.next_object(), ..msg.call };
            Ok(
                (
                    s.add_call(msg.call.name, msg.call.args),
                    seq![
                        ActionView::Notify(EventView::Job(call)),
                        ActionView::Reply(MessageView::done(call)),
                    ],
                ),
            )
        },
        MessageType::RegisterClient => Ok(
            (
                s,
                seq![
                    ActionView::Reply(MessageView::ack_worker(s.workers.len() as WorkerID)),
                    ActionView::Register(msg.address),
                ],
            ),
        ),
        MessageType::RegisterFunction => Ok(
            (
                ServerView {
                    fntable: register_function(s.fntable, msg.fnname, msg.workerid),
                    ..s
                },
                seq![ActionView::Reply(MessageView::ack())],
            ),
        ),
        MessageType::Pull => Ok(
            (
                s,
                seq![
                    ActionView::Reply(MessageView::ack()),
                    ActionView::Notify(EventView::Pull(msg.workerid, msg.objref)),
                ],
            ),
        ),
        MessageType::Done => if msg.call.result < s.objtable.len() {
            Ok(
                (
                    ServerView {
                        objtable: register_result(s.objtable, msg.call.result, msg.workerid),
                        ..s
                    },
                    seq![
                        ActionView::Reply(MessageView::ack()),
                        ActionView::Notify(EventView::Worker(msg.workerid)),
                        ActionView::Notify(EventView::Obj(msg.call.result)),
                    ],
                ),
            )
        } else {
            Err(RequestError::UnknownObject(msg.call.result))
        },
        MessageType::Debug => Ok(
            (
                s,
                seq![
                    ActionView::Reply(MessageView::ack()),
                    ActionView::Notify(EventView::Debug(msg.workerid)),
                ],
            ),
        ),
        _ => Err(RequestError::NotAllowed(msg.field_type)),
    }
}

/// The server orchestrates the computation: it keeps the tables, the graph
/// and the pool, and handles the requests of the clients.
pub struct Server {
    /// For each object reference, the list of workers that hold the object.
    objtable: ObjTable,
    /// The mapping from function names to the workers that can execute the
    /// function (sorted).
    fntable: FnTable,
    /// Computation graph for this server.
    graph: CompGraph,
    /// A pool of workers that are managed by this server.
    workerpool: WorkerPool,
}

impl View for Server {
    type V = ServerView;

    closed spec fn view(&self) -> ServerView {
        ServerView {
            objtable: self.objtable@,
            fntable: self.fntable@,
            graph: self.graph@,
            workers: self.workerpool@,
        }
    }
}

impl Server {
    /// The server holds what it should: see [`ServerView::wf`].
    pub open spec fn wf(&self) -> bool {
        self@.wf()
    }

    /// Creates a new server: no objects, no functions, no workers.
    pub fn new() -> (server: Server)
        ensures
            server@ == ServerView::initial(),
            server.wf(),
    {
        Server {
            objtable: ObjTable::new(),
            fntable: FnTable::new(),
            graph: CompGraph::new(),
            workerpool: WorkerPool::new(),
        }
    }

    /// The object table.
    pub fn objtable(&self) -> (table: &ObjTable)
        ensures
            table@ == self@.objtable,
    {
        &self.objtable
    }

    /// The function table.
    pub fn fntable(&self) -> (table: &FnTable)
        ensures
            table@ == self@.fntable,
            self.wf() ==> table.wf(),
    {
        &self.fntable
    }

    /// The computation graph.
    pub fn graph(&self) -> (graph: &CompGraph)
        ensures
            graph@ == self@.graph,
    {
        &self.graph
    }

    /// The worker pool.
    pub fn workerpool(&self) -> (pool: &WorkerPool)
        ensures
            pool@ == self@.workers,
    {
        &self.workerpool
    }

    /// Adds a new object to the computation graph and the object table,
    /// and returns its reference.
    pub fn register_new_object(&mut self) -> (objref: ObjRef)
        requires
            old(self).wf(),
        ensures
            final(self).wf(),
            objref == old(self)@.next_object(),
            objref == old(self)@.objtable.len(),
            final(self)@ == old(self)@.register_new_object(),
    {
        let objref = self.graph.add_obj();
        let index = self.objtable.register_new_object();
        assert(objref == index);
        objref
    }

    /// Tells the server that a worker holds a certain object.
    pub fn register_result(&mut self, objref: ObjRef, workerid: WorkerID)
        requires
            old(self).wf(),
            objref < old(self)@.objtable.len(),
        ensures
            final(self).wf(),
            final(self)@ == (ServerView {
                objtable: register_result(old(self)@.objtable, objref, workerid),
                ..old(self)@
            }),
    {
        self.objtable.register_result(objref, workerid);
    }

    /// Adds a new call to the computation graph, and returns the reference
    /// of the object that will hold its result.
    pub fn add_call(&mut self, fnname: String, args: &[ObjRef]) -> (result: ObjRef)
        requires
            old(self).wf(),
        ensures
            final(self).wf(),
            result == old(self)@.next_object(),
            final(self)@ == old(self)@.add_call(fnname@, args@),
    {
        let result = self.register_new_object();
        self.graph.add_op(fnname, args, result);
        result
    }

    /// Adds a worker's request for evaluation to the computation graph.
    /// Returns the event that notifies the scheduler of the job, and the
    /// message that tells the client the call with its result.
    pub fn add_request(&mut self, call: &Call) -> (res: (Event, Message))
        requires
            old(self).wf(),
        ensures
            final(self).wf(),
            final(self)@ == old(self)@.add_call(call@.name, call@.args),
            res.0@ == EventView::Job(CallView { result: old(self)@.next_object(), ..call@ }),
            res.1@ == MessageView::done(CallView { result: old(self)@.next_object(), ..call@ }),
    {
        let objref = self.add_call(call.name.clone(), call.args.as_slice());
        let mut call = call.clone();
        call.result = objref;
        let event = self.workerpool.queue_job(call.clone());
        (event, Message::done(call))
    }

    /// Registers a worker with the pool, once it has answered the greeting:
    /// see [`WorkerPool::register`].
    pub fn register_worker(&mut self, addr: &str, channel: ChannelId) -> (res: (WorkerID, Vec<Event>))
        requires
            old(self).wf(),
        ensures
            final(self).wf(),
            res.0 == old(self)@.workers.len(),
            final(self)@ == (ServerView { workers: old(self)@.workers.push(addr@), ..old(self)@ }),
            res.1@.len() == 2,
            res.1@[0]@ == EventView::Register(res.0, channel),
            res.1@[1]@ == EventView::Worker(res.0),
    {
        self.workerpool.register(addr, channel)
    }

    /// Processes a request by a client. Returns what is to be done for it,
    /// in order; or, for a message that is no request, or that reports a
    /// result for an object that was never registered, the reason why it
    /// is turned down. A request that is turned down changes nothing.
    pub fn process_request(&mut self, msg: &Message) -> (res: Result<Vec<Action>, RequestError>)
        requires
            old(self).wf(),
        ensures
            final(self).wf(),
            match res {
                Ok(actions) => process(old(self)@, msg@) == Ok::<
                    (ServerView, Seq<ActionView>),
                    RequestError,
                >((final(self)@, actions_view(actions@))),
                Err(e) => process(old(self)@, msg@) == Err::<
                    (ServerView, Seq<ActionView>),
                    RequestError,
                >(e) && final(self)@ == old(self)@,
            },
    {
        let mut actions: Vec<Action> = Vec::new();
        let ghost expected = process(old(self)@, msg@);
        match msg.field_type {
            MessageType::Invoke => {
                let (event, message) = self.add_request(&msg.call);
                actions.push(Action::Notify(event));
                actions.push(Action::Reply(message));
                assert(actions_view(actions@) =~= expected->Ok_0.1);
            },
            MessageType::RegisterClient => {
                let workerid = self.workerpool.len();
                actions.push(Action::Reply(Message::ack_worker(workerid)));
                actions.push(Action::Register(msg.address.clone()));
                assert(actions_view(actions@) =~= expected->Ok_0.1);
            },
            MessageType::RegisterFunction => {
                self.fntable.register_function(msg.fnname.as_str(), msg.workerid);
                actions.push(Action::Reply(Message::ack()));
                assert(actions_view(actions@) =~= expected->Ok_0.1);
            },
            MessageType::Pull => {
                actions.push(Action::Reply(Message::ack()));
                actions.push(Action::Notify(Event::Pull(msg.workerid, msg.objref)));
                assert(actions_view(actions@) =~= expected->Ok_0.1);
            },
            MessageType::Done => {
                let result = msg.call.result;
                if result >= self.objtable.len() as u64 {
                    return Err(RequestError::UnknownObject(result));
                }
                actions.push(Action::Reply(Message::ack()));
                self.register_result(result, msg.workerid);
                actions.push(Action::Notify(Event::Worker(msg.workerid)));
                actions.push(Action::Notify(Event::Obj(result)));
                assert(actions_view(actions@) =~= expected->Ok_0.1);
            },
            MessageType::Debug => {
                actions.push(Action::Reply(Message::ack()));
                actions.push(Action::Notify(Event::Debug(msg.workerid)));
                assert(actions_view(actions@) =~= expected->Ok_0.1);
            },
            _ => {
                return Err(RequestError::NotAllowed(msg.field_type));
            },
        }
        Ok(actions)
    }
}

} // verus!
