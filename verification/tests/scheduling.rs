use orchestra::comm::{Call, Message, MessageType, SchedulerInfo};
use orchestra::fntable::FnTable;
use orchestra::objtable::ObjTable;
use orchestra::scheduler::{Directive, Event, Scheduler};
use orchestra::server::{send_function_call, Action, Execution, RequestError, Server, WorkerPool};

fn call(name: &str, args: &[u64], result: u64) -> Call {
    Call::new(name.to_string(), args.to_vec(), result)
}

fn invoke_request(name: &str, args: &[u64]) -> Message {
    Message::invoke(call(name, args, 0))
}

fn register_function_request(workerid: usize, name: &str) -> Message {
    let mut msg = Message::new(MessageType::RegisterFunction);
    msg.workerid = workerid;
    msg.fnname = name.to_string();
    msg
}

fn done_request(workerid: usize, done: Call) -> Message {
    let mut msg = Message::done(done);
    msg.workerid = workerid;
    msg
}

fn debug_request(workerid: usize) -> Message {
    let mut msg = Message::new(MessageType::Debug);
    msg.workerid = workerid;
    msg
}

/// Hands every event that the actions name to the scheduler, and collects
/// the directives.
fn notify(scheduler: &mut Scheduler, server: &Server, actions: Vec<Action>) -> Vec<Directive> {
    let mut out = Vec::new();
    for action in actions {
        if let Action::Notify(event) = action {
            out.extend(scheduler.handle_event(event, server.objtable(), server.fntable()));
        }
    }
    out
}

/// Registers a worker at `addr` and tells the scheduler of it.
fn join(server: &mut Server, scheduler: &mut Scheduler, addr: &str) -> usize {
    let mut request = Message::new(MessageType::RegisterClient);
    request.address = addr.to_string();
    let expected = server.workerpool().len();
    let actions = server.process_request(&request).unwrap();
    assert_eq!(
        actions,
        vec![Action::Reply(Message::ack_worker(expected)), Action::Register(addr.to_string())]
    );
    let (workerid, events) = server.register_worker(addr, expected);
    assert_eq!(workerid, expected);
    assert_eq!(events, vec![Event::Register(workerid, expected), Event::Worker(workerid)]);
    for event in events {
        let out = scheduler.handle_event(event, server.objtable(), server.fntable());
        assert!(out.is_empty());
    }
    workerid
}

#[test]
fn single_worker_single_call() {
    let mut server = Server::new();
    let mut scheduler = Scheduler::start();
    let w0 = join(&mut server, &mut scheduler, "tcp://a");
    assert_eq!(w0, 0);
    assert_eq!(server.workerpool().addr(0), "tcp://a");
    assert_eq!(scheduler.worker_queue(), vec![0]);
    assert_eq!(scheduler.channel(0), Some(0));

    let actions = server.process_request(&register_function_request(0, "fn")).unwrap();
    assert_eq!(actions, vec![Action::Reply(Message::ack())]);

    let actions = server.process_request(&invoke_request("fn", &[])).unwrap();
    let r0 = call("fn", &[], 0);
    assert_eq!(
        actions,
        vec![Action::Notify(Event::Job(r0.clone())), Action::Reply(Message::done(r0.clone()))]
    );
    let out = notify(&mut scheduler, &server, actions);
    assert_eq!(out, vec![Directive { worker: 0, message: Message::invoke(r0.clone()) }]);
    assert!(scheduler.worker_queue().is_empty());
    assert!(scheduler.job_queue().is_empty());

    let actions = server.process_request(&done_request(0, r0)).unwrap();
    assert_eq!(
        actions,
        vec![
            Action::Reply(Message::ack()),
            Action::Notify(Event::Worker(0)),
            Action::Notify(Event::Obj(0)),
        ]
    );
    let out = notify(&mut scheduler, &server, actions);
    assert!(out.is_empty());
    assert_eq!(*server.objtable().holders(0), vec![0]);
    assert_eq!(scheduler.worker_queue(), vec![0]);
    assert!(scheduler.job_queue().is_empty());
}

#[test]
fn data_dependency_defers_dispatch() {
    let mut server = Server::new();
    let mut scheduler = Scheduler::start();
    join(&mut server, &mut scheduler, "tcp://a");
    join(&mut server, &mut scheduler, "tcp://b");
    for w in 0..2 {
        for name in ["producer", "consumer"] {
            server.process_request(&register_function_request(w, name)).unwrap();
        }
    }
    let actions = server.process_request(&invoke_request("producer", &[])).unwrap();
    let out = notify(&mut scheduler, &server, actions);
    let produce = call("producer", &[], 0);
    assert_eq!(out, vec![Directive { worker: 0, message: Message::invoke(produce.clone()) }]);

    let actions = server.process_request(&invoke_request("consumer", &[0])).unwrap();
    let out = notify(&mut scheduler, &server, actions);
    let consume = call("consumer", &[0], 1);
    assert!(out.is_empty());
    assert_eq!(scheduler.job_queue(), vec![consume.clone()]);
    assert_eq!(scheduler.worker_queue(), vec![1]);

    let actions = server.process_request(&done_request(0, produce)).unwrap();
    let out = notify(&mut scheduler, &server, actions);
    assert_eq!(out, vec![Directive { worker: 0, message: Message::invoke(consume) }]);
    assert!(scheduler.job_queue().is_empty());
    assert_eq!(scheduler.worker_queue(), vec![1]);
}

#[test]
fn cross_worker_delivery() {
    let mut server = Server::new();
    let mut scheduler = Scheduler::start();
    join(&mut server, &mut scheduler, "tcp://a");
    server.process_request(&register_function_request(0, "f")).unwrap();
    let actions = server.process_request(&invoke_request("f", &[])).unwrap();
    notify(&mut scheduler, &server, actions);
    join(&mut server, &mut scheduler, "tcp://b");
    server.process_request(&register_function_request(1, "g")).unwrap();
    // W0 produced r0, but is kept busy: it does not report idle
    server.register_result(0, 0);

    let actions = server.process_request(&invoke_request("g", &[0])).unwrap();
    let out = notify(&mut scheduler, &server, actions);
    let g = call("g", &[0], 1);
    assert_eq!(out, vec![Directive { worker: 1, message: Message::invoke(g.clone()) }]);

    let execution = WorkerPool::execute(1, out[0].message.clone());
    assert_eq!(
        execution,
        Execution::Invoke { request: send_function_call("g", &[0], 1), args: vec![0] }
    );
    let deliveries = server.workerpool().deliver_arguments(1, &[0], server.objtable());
    assert_eq!(
        deliveries,
        vec![Directive { worker: 0, message: Message::deliver(0, "tcp://b".to_string()) }]
    );

    server.process_request(&done_request(1, g)).unwrap();
    assert_eq!(*server.objtable().holders(0), vec![0]);
    assert_eq!(*server.objtable().holders(1), vec![1]);
}

#[test]
fn pull_before_obj() {
    let mut server = Server::new();
    let mut scheduler = Scheduler::start();
    for addr in ["tcp://a", "tcp://b", "tcp://c", "tcp://d"] {
        join(&mut server, &mut scheduler, addr);
    }
    for _ in 0..10 {
        server.register_new_object();
    }
    let mut pull = Message::pull(2, 9);
    pull.field_type = MessageType::Pull;
    let actions = server.process_request(&pull).unwrap();
    assert_eq!(
        actions,
        vec![Action::Reply(Message::ack()), Action::Notify(Event::Pull(2, 9))]
    );
    let out = notify(&mut scheduler, &server, actions);
    assert!(out.is_empty());
    assert_eq!(scheduler.pull_queue(), vec![(2, 9)]);

    let actions = server.process_request(&done_request(3, call("h", &[], 9))).unwrap();
    let out = notify(&mut scheduler, &server, actions);
    assert_eq!(out, vec![Directive { worker: 2, message: Message::pull(2, 9) }]);
    assert!(scheduler.pull_queue().is_empty());

    assert_eq!(
        WorkerPool::execute(2, out[0].message.clone()),
        Execution::Deliver { objref: 9 }
    );
    let delivery = server.workerpool().deliver_object(2, 9, server.objtable());
    assert_eq!(
        delivery,
        Some(Directive { worker: 3, message: Message::deliver(9, "tcp://c".to_string()) })
    );
}

#[test]
fn registration_race() {
    let mut pool = WorkerPool::new();
    let (w0, _) = pool.register("tcp://a", 0);
    assert_eq!(w0, 0);
    let hello = vec![Directive { worker: 1, message: Message::hello() }];
    // three greetings are lost, the fourth is answered
    for _ in 0..4 {
        assert_eq!(pool.connect("tcp://b", 1, false), hello);
    }
    let introductions = pool.connect("tcp://b", 1, true);
    assert_eq!(
        introductions,
        vec![
            Directive { worker: 1, message: Message::register_client("tcp://a".to_string()) },
            Directive { worker: 0, message: Message::register_client("tcp://b".to_string()) },
        ]
    );
    let (w1, events) = pool.register("tcp://b", 7);
    assert_eq!(w1, 1);
    assert_eq!(events, vec![Event::Register(1, 7), Event::Worker(1)]);
    assert_eq!(pool.len(), 2);
}

#[test]
fn first_worker_meets_nobody() {
    let pool = WorkerPool::new();
    assert!(pool.connect("tcp://a", 0, true).is_empty());
}

#[test]
fn third_worker_meets_both() {
    let mut pool = WorkerPool::new();
    pool.register("tcp://a", 0);
    pool.register("tcp://b", 1);
    let out = pool.connect("tcp://c", 2, true);
    let introduce =
        |worker: usize, addr: &str| Directive { worker, message: Message::register_client(addr.to_string()) };
    assert_eq!(
        out,
        vec![
            introduce(2, "tcp://a"),
            introduce(0, "tcp://c"),
            introduce(2, "tcp://b"),
            introduce(1, "tcp://c"),
        ]
    );
}

#[test]
fn debug_snapshot() {
    let mut server = Server::new();
    let mut scheduler = Scheduler::start();
    join(&mut server, &mut scheduler, "tcp://a");
    let j0 = call("j0", &[], 0);
    let j1 = call("j1", &[], 1);
    for name in ["j0", "j1"] {
        let actions = server.process_request(&invoke_request(name, &[])).unwrap();
        assert!(notify(&mut scheduler, &server, actions).is_empty());
    }
    assert_eq!(scheduler.job_queue(), vec![j0.clone(), j1.clone()]);
    assert_eq!(scheduler.worker_queue(), vec![0]);

    let actions = server.process_request(&debug_request(0)).unwrap();
    assert_eq!(
        actions,
        vec![Action::Reply(Message::ack()), Action::Notify(Event::Debug(0))]
    );
    let out = notify(&mut scheduler, &server, actions);
    let info = SchedulerInfo { worker_queue: vec![0], job_queue: vec![j0, j1] };
    assert_eq!(out, vec![Directive { worker: 0, message: Message::debug(info) }]);
    assert_eq!(
        WorkerPool::execute(0, out[0].message.clone()),
        Execution::Publish { directive: out[0].clone() }
    );
}

#[test]
fn a_message_that_is_no_request_is_turned_down() {
    let mut server = Server::new();
    for kind in [MessageType::Ack, MessageType::Hello, MessageType::Deliver] {
        assert_eq!(
            server.process_request(&Message::new(kind)),
            Err(RequestError::NotAllowed(kind))
        );
    }
    assert_eq!(server.objtable().len(), 0);
    assert_eq!(server.workerpool().len(), 0);
}

#[test]
fn a_result_for_an_unknown_object_is_turned_down() {
    let mut server = Server::new();
    server.register_new_object();
    assert_eq!(
        server.process_request(&done_request(0, call("f", &[], 1))),
        Err(RequestError::UnknownObject(1))
    );
    assert!(server.objtable().holders(0).is_empty());
}

#[test]
fn worker_takes_the_first_job_it_can_run() {
    let mut objtable = ObjTable::new();
    let mut fntable = FnTable::new();
    objtable.register_new_object();
    fntable.register_function("c", 5);
    let mut scheduler = Scheduler::start();
    let a = call("a", &[], 1);
    let b = call("b", &[], 2);
    let c = call("c", &[], 3);
    let d = call("c", &[0], 4);
    for job in [&a, &b, &d, &c] {
        let out = scheduler.handle_event(Event::Job(job.clone()), &objtable, &fntable);
        assert!(out.is_empty());
    }
    assert_eq!(scheduler.find_next_job(5, &objtable, &fntable), Some(3));
    assert_eq!(scheduler.find_next_job(4, &objtable, &fntable), None);
    let out = scheduler.handle_event(Event::Worker(5), &objtable, &fntable);
    assert_eq!(out, vec![Directive { worker: 5, message: Message::invoke(c) }]);
    // the front job has taken the place of the job that left
    assert_eq!(scheduler.job_queue(), vec![b.clone(), d.clone(), a.clone()]);
    assert!(scheduler.worker_queue().is_empty());

    objtable.register_result(0, 9);
    let out = scheduler.handle_event(Event::Worker(5), &objtable, &fntable);
    assert_eq!(out, vec![Directive { worker: 5, message: Message::invoke(d) }]);
    assert_eq!(scheduler.job_queue(), vec![b, a]);
}

#[test]
fn job_takes_the_first_worker_that_can_run_it() {
    let objtable = ObjTable::new();
    let mut fntable = FnTable::new();
    fntable.register_function("f", 2);
    fntable.register_function("f", 3);
    let mut scheduler = Scheduler::start();
    for w in [0, 1, 3, 2] {
        scheduler.handle_event(Event::Worker(w), &objtable, &fntable);
    }
    let f = call("f", &[], 0);
    assert_eq!(scheduler.find_next_worker(&f, &objtable, &fntable), Some(2));
    let out = scheduler.handle_event(Event::Job(f.clone()), &objtable, &fntable);
    assert_eq!(out, vec![Directive { worker: 3, message: Message::invoke(f.clone()) }]);
    assert_eq!(scheduler.worker_queue(), vec![1, 0, 2]);
    let g = call("g", &[], 1);
    assert_eq!(scheduler.find_next_worker(&g, &objtable, &fntable), None);
    assert!(scheduler.handle_event(Event::Job(g.clone()), &objtable, &fntable).is_empty());
    assert_eq!(scheduler.job_queue(), vec![g]);
}

#[test]
fn a_job_with_an_unavailable_argument_cannot_run() {
    let mut objtable = ObjTable::new();
    objtable.register_new_object();
    objtable.register_new_object();
    objtable.register_result(0, 1);
    assert!(Scheduler::can_run(&call("f", &[], 5), &objtable));
    assert!(Scheduler::can_run(&call("f", &[0, 0], 5), &objtable));
    assert!(!Scheduler::can_run(&call("f", &[0, 1], 5), &objtable));
    assert!(!Scheduler::can_run(&call("f", &[7], 5), &objtable));
}

#[test]
fn an_object_answers_every_pull_that_waits_for_it() {
    let objtable = ObjTable::new();
    let fntable = FnTable::new();
    let mut scheduler = Scheduler::start();
    for (w, r) in [(1, 4), (2, 5), (3, 4), (1, 6), (1, 4)] {
        assert!(scheduler.handle_event(Event::Pull(w, r), &objtable, &fntable).is_empty());
    }
    let out = scheduler.handle_event(Event::Obj(4), &objtable, &fntable);
    let pull = |w: usize| Directive { worker: w, message: Message::pull(w, 4) };
    assert_eq!(out, vec![pull(1), pull(3), pull(1)]);
    assert_eq!(scheduler.pull_queue(), vec![(2, 5), (1, 6)]);
    // a second announcement of the object pulls nothing again
    assert!(scheduler.handle_event(Event::Obj(4), &objtable, &fntable).is_empty());
    assert_eq!(scheduler.pull_queue(), vec![(2, 5), (1, 6)]);
}

#[test]
fn a_pull_for_an_available_object_is_answered_at_once() {
    let mut objtable = ObjTable::new();
    objtable.register_new_object();
    objtable.register_result(0, 3);
    let fntable = FnTable::new();
    let mut scheduler = Scheduler::start();
    let out = scheduler.handle_event(Event::Pull(1, 0), &objtable, &fntable);
    assert_eq!(out, vec![Directive { worker: 1, message: Message::pull(1, 0) }]);
    assert!(scheduler.pull_queue().is_empty());
}

#[test]
fn registering_a_channel_grows_the_table() {
    let objtable = ObjTable::new();
    let fntable = FnTable::new();
    let mut scheduler = Scheduler::start();
    assert_eq!(scheduler.channel(0), None);
    scheduler.handle_event(Event::Register(2, 7), &objtable, &fntable);
    assert_eq!(scheduler.channel(0), Some(7));
    assert_eq!(scheduler.channel(1), Some(7));
    assert_eq!(scheduler.channel(2), Some(7));
    assert_eq!(scheduler.channel(3), None);
    scheduler.handle_event(Event::Register(1, 8), &objtable, &fntable);
    assert_eq!(scheduler.channel(0), Some(7));
    assert_eq!(scheduler.channel(1), Some(8));
    assert_eq!(scheduler.channel(2), Some(7));
}

#[test]
fn delivery_comes_from_a_holder() {
    let mut pool = WorkerPool::new();
    for addr in ["tcp://a", "tcp://b", "tcp://c"] {
        pool.register(addr, 0);
    }
    let mut objtable = ObjTable::new();
    objtable.register_new_object();
    objtable.register_result(0, 0);
    objtable.register_result(0, 2);
    assert_eq!(pool.deliver_object(0, 0, &objtable), None);
    assert_eq!(pool.deliver_object(2, 0, &objtable), None);
    let mut seen = [false, false, false];
    for _ in 0..200 {
        let directive = pool.deliver_object(1, 0, &objtable).unwrap();
        assert_eq!(directive.message, Message::deliver(0, "tcp://b".to_string()));
        seen[directive.worker] = true;
    }
    assert_eq!(seen, [true, false, true]);
    assert_eq!(
        pool.deliver_from(1, 1, 0, &objtable),
        Directive { worker: 2, message: Message::deliver(0, "tcp://b".to_string()) }
    );
}

#[test]
fn arguments_that_the_worker_holds_are_not_delivered() {
    let mut pool = WorkerPool::new();
    pool.register("tcp://a", 0);
    pool.register("tcp://b", 1);
    let mut objtable = ObjTable::new();
    for _ in 0..3 {
        objtable.register_new_object();
    }
    objtable.register_result(0, 0);
    objtable.register_result(1, 1);
    objtable.register_result(2, 0);
    let out = pool.deliver_arguments(1, &[0, 1, 2, 0], &objtable);
    let deliver =
        |objref: u64| Directive { worker: 0, message: Message::deliver(objref, "tcp://b".to_string()) };
    assert_eq!(out, vec![deliver(0), deliver(2), deliver(0)]);
}

#[test]
fn executor_drops_what_is_no_directive() {
    assert_eq!(WorkerPool::execute(0, Message::ack()), Execution::Ignore);
    assert_eq!(WorkerPool::execute(0, Message::hello()), Execution::Ignore);
}

#[test]
fn queue_job_wraps_the_call() {
    let pool = WorkerPool::new();
    let f = call("f", &[1], 2);
    assert_eq!(pool.queue_job(f.clone()), Event::Job(f));
}

#[test]
fn add_call_registers_the_result() {
    let mut server = Server::new();
    assert_eq!(server.add_call("f".to_string(), &[]), 0);
    assert_eq!(server.add_call("g".to_string(), &[0]), 1);
    assert_eq!(server.objtable().len(), 2);
    assert_eq!(server.graph().num_objects(), 2);
    assert_eq!(server.graph().num_ops(), 2);
    assert_eq!(*server.graph().op(1), call("g", &[0], 1));
    assert_eq!(server.graph().producer(1), Some(1));
    let (event, reply) = server.add_request(&call("h", &[1, 0], 77));
    let h = call("h", &[1, 0], 2);
    assert_eq!(event, Event::Job(h.clone()));
    assert_eq!(reply, Message::done(h));
}
