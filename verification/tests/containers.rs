use std::rc::Rc;
use std::sync::Arc;

use timely_dataplane::container::{Container, IntoAllocated, PushContainer, PushInto};
use timely_dataplane::message::RefOrMut;

#[test]
fn unit_and_integers_count_as_one_record() {
    assert_eq!(Container::len(&()), 1);
    assert!(!Container::is_empty(&()));
    assert_eq!(Container::len(&7usize), 1);
    assert!(!Container::is_empty(&7usize));
    Container::hollow(7usize);
}

#[test]
fn vectors_count_their_records_and_hollow_keeps_capacity() {
    let mut batch: Vec<u64> = Vec::with_capacity(64);
    batch.extend([1, 2, 3]);
    assert_eq!(Container::len(&batch), 3);
    assert!(!Container::is_empty(&batch));
    let shell = batch.hollow();
    assert_eq!(shell.len(), 0);
    assert!(shell.capacity() >= 64);
    assert!(Container::is_empty(&shell));
}

#[test]
fn strings_count_bytes_and_hollow_keeps_capacity() {
    let mut text = String::with_capacity(32);
    text.push_str("héllo");
    assert_eq!(Container::len(&text), 6);
    assert!(!Container::is_empty(&text));
    let shell = text.hollow();
    assert_eq!(shell, "");
    assert!(shell.capacity() >= 32);
    assert!(Container::is_empty(&String::new()));
}

#[test]
fn tuples_delegate_to_their_parts() {
    let one = (vec![1u8, 2],);
    assert_eq!(one.len(), 2);
    assert!(!one.is_empty());
    let two = (vec![1u8, 2], vec![3u16]);
    assert_eq!(two.len(), 3);
    assert!(!two.is_empty());
    let three = (vec![1u8], Vec::<u8>::new(), vec![3u8, 4]);
    assert_eq!(three.len(), 3);
    let four = (Vec::<u8>::new(), Vec::<u8>::new(), Vec::<u8>::new(), Vec::<u8>::new());
    assert_eq!(four.len(), 0);
    assert!(four.is_empty());
    let shells = (vec![1u8, 2], String::from("abc")).hollow();
    assert!(shells.0.is_empty());
    assert!(shells.1.is_empty());
}

#[test]
fn tuple_length_stops_at_the_largest_number() {
    let many = (vec![(); usize::MAX], vec![(); 5]);
    assert_eq!(many.len(), usize::MAX);
}

#[test]
fn shared_containers_count_what_they_share() {
    let shared = Rc::new(vec![1u8, 2, 3]);
    assert_eq!(Container::len(&shared), 3);
    assert!(!Container::is_empty(&shared));
    Container::hollow(shared);
    let shared = Arc::new(Vec::<u8>::new());
    assert_eq!(Container::len(&shared), 0);
    assert!(Container::is_empty(&shared));
}

#[test]
fn swap_clones_from_a_shared_source() {
    let source = vec![1, 2, 3];
    let mut element = vec![9];
    RefOrMut::Ref(&source).swap(&mut element);
    assert_eq!(element, vec![1, 2, 3]);
    assert_eq!(source, vec![1, 2, 3]);
}

#[test]
fn swap_exchanges_with_a_mutable_source() {
    let mut source = vec![1, 2, 3];
    let mut element = vec![9];
    RefOrMut::Mut(&mut source).swap(&mut element);
    assert_eq!(element, vec![1, 2, 3]);
    assert_eq!(source, vec![9]);
}

#[test]
fn replace_returns_the_contents() {
    let mut source = String::from("contents");
    let taken = RefOrMut::Mut(&mut source).replace(String::from("left"));
    assert_eq!(taken, "contents");
    assert_eq!(source, "left");
    let kept = String::from("kept");
    let copy = RefOrMut::Ref(&kept).replace(String::new());
    assert_eq!(copy, "kept");
}

#[test]
fn deref_reads_through_both_kinds() {
    let mut value = 5u32;
    assert_eq!(*RefOrMut::Ref(&value).deref(), 5);
    assert_eq!(*RefOrMut::Mut(&mut value).deref(), 5);
}

#[test]
fn assemble_uses_the_allocation_and_empties_the_slot() {
    let mut source = vec![1u64, 2, 3];
    let mut slot: Option<Vec<u64>> = Some(Vec::with_capacity(100));
    let assembled = RefOrMut::Mut(&mut source).assemble(&mut slot);
    assert_eq!(assembled, vec![1, 2, 3]);
    assert!(slot.is_none());
    assert!(source.is_empty());
    assert!(source.capacity() >= 100);
}

#[test]
fn assemble_copies_a_shared_source() {
    let source = vec![String::from("a"), String::from("b")];
    let mut slot: Option<Vec<String>> = None;
    let assembled = RefOrMut::Ref(&source).assemble(&mut slot);
    assert_eq!(assembled, source);
    assert!(slot.is_none());
}

#[test]
fn assemble_new_leaves_a_mutable_source_empty() {
    let mut source = vec![4u8, 5];
    let assembled = <Vec<u8> as IntoAllocated<Vec<u8>>>::assemble_new(RefOrMut::Mut(&mut source));
    assert_eq!(assembled, vec![4, 5]);
    assert!(source.is_empty());
    let mut text = String::from("text");
    let assembled = <String as IntoAllocated<String>>::assemble_new(RefOrMut::Mut(&mut text));
    assert_eq!(assembled, "text");
    assert_eq!(text, "");
}

#[test]
fn pairs_assemble_part_by_part() {
    let mut source = (vec![1u8], String::from("x"));
    let allocation = (Vec::<u8>::new(), String::new());
    let assembled = allocation.assemble(RefOrMut::Mut(&mut source));
    assert_eq!(assembled, (vec![1u8], String::from("x")));
    assert!(source.0.is_empty());
    assert!(source.1.is_empty());
    assert_eq!(().assemble(RefOrMut::Ref(&12usize)), 12);
}

#[test]
fn vectors_push_and_prefer_the_default_capacity() {
    let mut target: Vec<u32> = Vec::new();
    5u32.push_into(&mut target);
    6u32.push_into(&mut target);
    assert_eq!(target, vec![5, 6]);
    assert_eq!(<Vec<u32> as PushContainer<u32>>::preferred_capacity(), 2048);
    PushContainer::reserve(&mut target, 100);
    assert!(<Vec<u32> as PushContainer<u32>>::capacity(&target) >= 102);
    assert_eq!(target, vec![5, 6]);
}
