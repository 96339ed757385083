//! The messages that travel between clients, server and workers.
//!
//! A [`Message`] is a flat record: its kind, and one slot for each field
//! that some kind of message carries. A slot that a kind does not use holds
//! the empty value of its type.

use vstd::prelude::*;
use crate::utils::{ObjRef, WorkerID};

verus! {

/// The kind of a message.
#[derive(Clone, Copy, Debug, PartialEq, Eq, Structural)]
pub enum MessageType {
    Ack,
    RegisterClient,
    RegisterFunction,
    Invoke,
    Pull,
    Done,
    Hello,
    Deliver,
    Debug,
}

/// A function invocation: the function's name, the objects it reads, and
/// the object that will hold its result.
#[derive(Debug, PartialEq, Eq)]
pub struct Call {
    pub name: String,
    pub args: Vec<ObjRef>,
    pub result: ObjRef,
}

/// What a [`Call`] stands for in contracts.
pub struct CallView {
    pub name: Seq<char>,
    pub args: Seq<ObjRef>,
    pub result: ObjRef,
}

impl View for Call {
    type V = CallView;

    open spec fn view(&self) -> CallView {
        CallView { name: self.name@, args: self.args@, result: self.result }
    }
}

impl Clone for Call {
    fn clone(&self) -> (res: Self)
        ensures
            res@ == self@,
    {
        Call { name: self.name.clone(), args: self.args.clone(), result: self.result }
    }
}

impl Call {
    /// A call of `name` on `args` whose result goes to `result`.
    pub fn new(name: String, args: Vec<ObjRef>, result: ObjRef) -> (call: Call)
        ensures
            call@ == (CallView { name: name@, args: args@, result }),
    {
        Call { name, args, result }
    }
}

/// The views of the calls in `calls`, in the same order.
pub open spec fn calls_view(calls: Seq<Call>) -> Seq<CallView> {
    calls.map_values(|c: Call| c@)
}

/// A copy of `calls`, call by call.
pub fn clone_calls(calls: &Vec<Call>) -> (res: Vec<Call>)
    ensures
        calls_view(res@) == calls_view(calls@),
{
    let mut res: Vec<Call> = Vec::new();
    let mut i: usize = 0;
    while i < calls.len()
        invariant
            i <= calls.len(),
            res@.len() == i,
            forall|k: int| 0 <= k < i ==> res@[k]@ == calls@[k]@,
        decreases calls.len() - i,
    {
        res.push(calls[i].clone());
        i += 1;
    }
    assert(calls_view(res@) =~= calls_view(calls@));
    res
}

/// A snapshot of the scheduler's queues, as a debug message carries it.
#[derive(Debug, PartialEq, Eq)]
pub struct SchedulerInfo {
    pub worker_queue: Vec<WorkerID>,
    pub job_queue: Vec<Call>,
}

/// What a [`SchedulerInfo`] stands for in contracts.
pub struct SchedulerInfoView {
    pub worker_queue: Seq<WorkerID>,
    pub job_queue: Seq<CallView>,
}

impl View for SchedulerInfo {
    type V = SchedulerInfoView;

    open spec fn view(&self) -> SchedulerInfoView {
        SchedulerInfoView {
            worker_queue: self.worker_queue@,
            job_queue: calls_view(self.job_queue@),
        }
    }
}

impl Clone for SchedulerInfo {
    fn clone(&self) -> (res: Self)
        ensures
            res@ == self@,
    {
        SchedulerInfo {
            worker_queue: self.worker_queue.clone(),
            job_queue: clone_calls(&self.job_queue),
        }
    }
}

impl SchedulerInfoView {
    /// The snapshot of two empty queues.
    pub open spec fn empty() -> SchedulerInfoView {
        SchedulerInfoView { worker_queue: Seq::empty(), job_queue: Seq::empty() }
    }
}

impl CallView {
    /// The call that a message without a call carries: no name, no
    /// arguments, result 0.
    pub open spec fn empty() -> CallView {
        CallView { name: Seq::empty(), args: Seq::empty(), result: 0 }
    }
}

/// A message: its kind and the fields that the kinds carry.
#[derive(Debug, PartialEq, Eq)]
pub struct Message {
    pub field_type: MessageType,
    pub call: Call,
    pub workerid: WorkerID,
    pub objref: ObjRef,
    pub address: String,
    pub fnname: String,
    pub scheduler_info: SchedulerInfo,
}

/// What a [`Message`] stands for in contracts.
pub struct MessageView {
    pub field_type: MessageType,
    pub call: CallView,
    pub workerid: WorkerID,
    pub objref: ObjRef,
    pub address: Seq<char>,
    pub fnname: Seq<char>,
    pub scheduler_info: SchedulerInfoView,
}

impl View for Message {
    type V = MessageView;

    open spec fn view(&self) -> MessageView {
        MessageView {
            field_type: self.field_type,
            call: self.call@,
            workerid: self.workerid,
            objref: self.objref,
            address: self.address@,
            fnname: self.fnname@,
            scheduler_info: self.scheduler_info@,
        }
    }
}

impl Clone for Message {
    fn clone(&self) -> (res: Self)
        ensures
            res@ == self@,
    {
        Message {
            field_type: self.field_type,
            call: self.call.clone(),
            workerid: self.workerid,
            objref: self.objref,
            address: self.address.clone(),
            fnname: self.fnname.clone(),
            scheduler_info: self.scheduler_info.clone(),
        }
    }
}

impl MessageView {
    /// The message of kind `t` with every field empty.
    pub open spec fn of_type(t: MessageType) -> MessageView {
        MessageView {
            field_type: t,
            call: CallView::empty(),
            workerid: 0,
            objref: 0,
            address: Seq::empty(),
            fnname: Seq::empty(),
            scheduler_info: SchedulerInfoView::empty(),
        }
    }

    /// A plain acknowledgement.
    pub open spec fn ack() -> MessageView {
        Self::of_type(MessageType::Ack)
    }

    /// The acknowledgement of a registration, which tells the new worker
    /// its id.
    pub open spec fn ack_worker(workerid: WorkerID) -> MessageView {
        MessageView { workerid, ..Self::of_type(MessageType::Ack) }
    }

    /// The greeting that is repeated until a new worker answers.
    pub open spec fn hello() -> MessageView {
        Self::of_type(MessageType::Hello)
    }

    /// Tells a worker the address of a peer.
    pub open spec fn register_client(address: Seq<char>) -> MessageView {
        MessageView { address, ..Self::of_type(MessageType::RegisterClient) }
    }

    /// Asks a worker to run `call`.
    pub open spec fn invoke(call: CallView) -> MessageView {
        MessageView { call, ..Self::of_type(MessageType::Invoke) }
    }

    /// Tells a client which object will hold the result of its call.
    pub open spec fn done(call: CallView) -> MessageView {
        MessageView { call, ..Self::of_type(MessageType::Done) }
    }

    /// Asks for `objref` to be brought to worker `workerid`.
    pub open spec fn pull(workerid: WorkerID, objref: ObjRef) -> MessageView {
        MessageView { workerid, objref, ..Self::of_type(MessageType::Pull) }
    }

    /// Asks a holder of `objref` to send it to the worker at `address`.
    pub open spec fn deliver(objref: ObjRef, address: Seq<char>) -> MessageView {
        MessageView { objref, address, ..Self::of_type(MessageType::Deliver) }
    }

    /// Carries a snapshot of the scheduler's queues.
    pub open spec fn debug(info: SchedulerInfoView) -> MessageView {
        MessageView { scheduler_info: info, ..Self::of_type(MessageType::Debug) }
    }
}

impl Message {
    /// The message of kind `t` with every field empty.
    pub fn new(t: MessageType) -> (msg: Message)
        ensures
            msg@ == MessageView::of_type(t),
    {
        let msg = Message {
            field_type: t,
            call: Call { name: String::new(), args: Vec::new(), result: 0 },
            workerid: 0,
            objref: 0,
            address: String::new(),
            fnname: String::new(),
            scheduler_info: SchedulerInfo { worker_queue: Vec::new(), job_queue: Vec::new() },
        };
        assert(msg.scheduler_info@.job_queue =~= Seq::empty());
        msg
    }

    /// A plain acknowledgement.
    pub fn ack() -> (msg: Message)
        ensures
            msg@ == MessageView::ack(),
    {
        Message::new(MessageType::Ack)
    }

    /// The acknowledgement of a registration.
    pub fn ack_worker(workerid: WorkerID) -> (msg: Message)
        ensures
            msg@ == MessageView::ack_worker(workerid),
    {
        let mut msg = Message::new(MessageType::Ack);
        msg.workerid = workerid;
        msg
    }

    /// The greeting for a new worker.
    pub fn hello() -> (msg: Message)
        ensures
            msg@ == MessageView::hello(),
    {
        Message::new(MessageType::Hello)
    }

    /// Tells a worker the address of a peer.
    pub fn register_client(address: String) -> (msg: Message)
        ensures
            msg@ == MessageView::register_client(address@),
    {
        let mut msg = Message::new(MessageType::RegisterClient);
        msg.address = address;
        msg
    }

    /// Asks a worker to run `call`.
    pub fn invoke(call: Call) -> (msg: Message)
        ensures
            msg@ == MessageView::invoke(call@),
    {
        let mut msg = Message::new(MessageType::Invoke);
        msg.call = call;
        msg
    }

    /// Tells a client which object will hold the result of its call.
    pub fn done(call: Call) -> (msg: Message)
        ensures
            msg@ == MessageView::done(call@),
    {
        let mut msg = Message::new(MessageType::Done);
        msg.call = call;
        msg
    }

    /// Asks for `objref` to be brought to worker `workerid`.
    pub fn pull(workerid: WorkerID, objref: ObjRef) -> (msg: Message)
        ensures
            msg@ == MessageView::pull(workerid, objref),
    {
        let mut msg = Message::new(MessageType::Pull);
        msg.workerid = workerid;
        msg.objref = objref;
        msg
    }

    /// Asks a holder of `objref` to send it to the worker at `address`.
    pub fn deliver(objref: ObjRef, address: String) -> (msg: Message)
        ensures
            msg@ == MessageView::deliver(objref, address@),
    {
        let mut msg = Message::new(MessageType::Deliver);
        msg.objref = objref;
        msg.address = address;
        msg
    }

    /// Carries a snapshot of the scheduler's queues.
    pub fn debug(info: SchedulerInfo) -> (msg: Message)
        ensures
            msg@ == MessageView::debug(info@),
    {
        let mut msg = Message::new(MessageType::Debug);
        msg.scheduler_info = info;
        msg
    }
}

} // verus!
