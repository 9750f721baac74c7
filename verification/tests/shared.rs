use std::rc::Rc;

use timely_dataplane::allocator::{Pusher, Thread};
use timely_dataplane::channels::pushers::TeeCore;
use timely_dataplane::channels::Message;
use timely_dataplane::communication::{Pull, Push};
use timely_dataplane::container::Container;
use timely_dataplane::operators::{Concatenate, SharedStream};

type Shared = Rc<Vec<Result<i32, ()>>>;

#[test]
fn test_shared() {
    let shared = vec![Ok(0), Err(())].shared();
    let (mut tee, mut helper) = TeeCore::<u64, Shared, Pusher<Message<u64, Shared>>>::new();
    let mut readers = Vec::new();
    for name in ["read shared 1", "read shared 2"] {
        let (pusher, puller) = Thread::new().pipeline::<Message<u64, Shared>>();
        helper.add_pusher(pusher);
        readers.push((name, puller));
    }
    tee.connect(&mut helper);
    tee.send(Message::new(0, shared, 0, 0));
    tee.done();
    let mut outputs = Vec::new();
    for (_name, puller) in readers.iter_mut() {
        let mut output = Vec::new();
        while let Some(message) = puller.recv() {
            assert_eq!(message.data.len(), 2);
            output.push(message.data.as_ptr() as usize);
        }
        outputs.push(output);
    }
    let mut output = Vec::new().concatenate(outputs);
    assert_eq!(output.len(), 2);
    output.sort();
    output.dedup();
    assert_eq!(output.len(), 1);
}

#[test]
fn boxed_endpoints_work_as_their_contents() {
    let (pusher, puller) = Thread::new().pipeline::<Message<u64, Vec<u8>>>();
    let mut pusher = Box::new(pusher);
    let mut puller = Box::new(puller);
    pusher.send(Message::new(1, vec![7], 0, 0));
    pusher.done();
    let (message, slot) = puller.pull();
    assert_eq!(message.map(|message| message.data), Some(vec![7]));
    assert!(slot.is_none());
    assert!(puller.recv().is_none());
}
