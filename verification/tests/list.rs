use urcu::linked_list;
use urcu::list::RcuList;

#[test]
fn peek() {
    let mut list = RcuList::<u32>::new();

    assert_eq!(list.back(), None);
    assert_eq!(list.front(), None);
    assert!(list.is_empty());

    list.push_back(10);
    assert_eq!(list.back(), Some(&10));
    assert_eq!(list.front(), Some(&10));
    assert!(!list.is_empty());

    list.push_back(20);
    assert_eq!(list.back(), Some(&20));
    assert_eq!(list.front(), Some(&10));
    assert!(!list.is_empty());

    list.push_front(30);
    assert_eq!(list.back(), Some(&20));
    assert_eq!(list.front(), Some(&30));
    assert!(!list.is_empty());

    list.push_back(40);
    assert_eq!(list.back(), Some(&40));
    assert_eq!(list.front(), Some(&30));
    assert!(!list.is_empty());

    list.push_front(50);
    assert_eq!(list.back(), Some(&40));
    assert_eq!(list.front(), Some(&50));
    assert!(!list.is_empty());

    list.pop_back().unwrap().take_ownership();
    assert_eq!(list.back(), Some(&20));
    assert_eq!(list.front(), Some(&50));
    assert!(!list.is_empty());

    list.pop_front().unwrap().take_ownership();
    assert_eq!(list.back(), Some(&20));
    assert_eq!(list.front(), Some(&30));
    assert!(!list.is_empty());

    list.pop_front().unwrap().take_ownership();
    assert_eq!(list.back(), Some(&20));
    assert_eq!(list.front(), Some(&10));
    assert!(!list.is_empty());

    list.pop_back().unwrap().take_ownership();
    assert_eq!(list.back(), Some(&10));
    assert_eq!(list.front(), Some(&10));
    assert!(!list.is_empty());

    list.pop_back().unwrap().take_ownership();
    assert_eq!(list.back(), None);
    assert_eq!(list.front(), None);
    assert!(list.is_empty());
}

#[test]
fn list_iter() {
    let mut list = RcuList::<u32>::new();

    assert_eq!(list.iter_forward().to_vec(), Vec::<u32>::new());
    assert_eq!(list.iter_reverse().to_vec(), Vec::<u32>::new());

    list.push_back(140);
    list.push_back(128);
    list.push_back(174);
    list.push_front(184);
    list.push_back(150);
    list.push_back(147);
    list.push_front(105);
    list.push_front(160);
    list.push_back(120);
    list.push_back(183);

    assert_eq!(
        list.iter_forward().to_vec(),
        vec![183, 120, 147, 150, 174, 128, 140, 184, 105, 160]
    );

    assert_eq!(
        list.iter_reverse().to_vec(),
        vec![160, 105, 184, 140, 128, 174, 150, 147, 120, 183]
    );

    list.pop_back().unwrap();
    list.pop_back().unwrap();
    list.pop_back().unwrap();
    list.pop_front().unwrap();
    list.pop_back().unwrap();

    assert_eq!(list.iter_forward().to_vec(), vec![174, 128, 140, 184, 105]);
    assert_eq!(list.iter_reverse().to_vec(), vec![105, 184, 140, 128, 174]);

    list.pop_front().unwrap();
    list.pop_back().unwrap();
    list.pop_back().unwrap();
    list.pop_front().unwrap();
    list.push_back(142);

    assert_eq!(list.iter_forward().to_vec(), vec![142, 140]);
    assert_eq!(list.iter_reverse().to_vec(), vec![140, 142]);

    list.pop_front().unwrap();
    list.pop_front().unwrap();

    assert_eq!(list.iter_forward().to_vec(), Vec::<u32>::new());
    assert_eq!(list.iter_reverse().to_vec(), Vec::<u32>::new());
}

#[test]
fn list_pops_return_the_removed_elements() {
    let mut list = RcuList::<u32>::new();
    assert!(list.pop_back().is_none());
    assert!(list.pop_front().is_none());

    list.push_back(1);
    list.push_back(2);
    list.push_front(0);

    assert_eq!(*list.pop_back().unwrap().get(), 2);
    assert_eq!(list.pop_front().unwrap().take_ownership().into_inner(), 0);
    assert_eq!(*list.pop_front().unwrap().take_ownership().get(), 1);
    assert!(list.pop_front().is_none());
    assert!(list.is_empty());
}

#[test]
fn list_contains() {
    let mut list = RcuList::<u32>::new();
    assert!(!list.contains(&7));

    list.push_back(7);
    list.push_front(3);
    assert!(list.contains(&7));
    assert!(list.contains(&3));
    assert!(!list.contains(&5));

    list.pop_back().unwrap();
    assert!(!list.contains(&7));
    assert!(list.contains(&3));
}

#[test]
fn list_iterator_steps_one_element_at_a_time() {
    let mut list = RcuList::<u32>::new();
    list.push_back(1);
    list.push_back(2);

    let mut iter = list.iter_forward();
    assert_eq!(iter.next(), Some(&2));
    assert_eq!(iter.next(), Some(&1));
    assert_eq!(iter.next(), None);
    assert_eq!(iter.next(), None);
}

#[test]
fn linked_list_reader_and_writer() {
    let mut list = linked_list::RcuList::<u32>::new();
    {
        let mut writer = list.writer();
        writer.push_back(2);
        writer.push_back(3);
        writer.push_front(1);
    }
    {
        let reader = list.reader();
        assert_eq!(reader.iter_forward().to_vec(), vec![1, 2, 3]);
        assert_eq!(reader.iter_reverse().to_vec(), vec![3, 2, 1]);
    }
    {
        let mut writer = list.writer();
        assert_eq!(*writer.pop_back().unwrap().get(), 3);
        assert_eq!(*writer.pop_front().unwrap().get(), 1);
        assert_eq!(*writer.pop_front().unwrap().get(), 2);
        assert!(writer.pop_front().is_none());
        assert!(writer.pop_back().is_none());
    }
    assert_eq!(list.reader().iter_forward().to_vec(), Vec::<u32>::new());
}

#[test]
fn linked_list_entries() {
    let mut list = linked_list::RcuList::<u32>::new();
    {
        let mut writer = list.writer();
        writer.push_back(10);
        writer.push_back(30);
    }
    {
        let mut entry = linked_list::Entry::new(&mut list, 1);
        assert_eq!(*entry.get(), 30);
        entry.insert_before(20);
        assert_eq!(*entry.get(), 30);
        entry.insert_after(40);
        assert_eq!(*entry.get(), 30);
    }
    assert_eq!(list.reader().iter_forward().to_vec(), vec![10, 20, 30, 40]);
    {
        let entry = linked_list::Entry::new(&mut list, 0);
        assert_eq!(*entry.remove().get(), 10);
    }
    assert_eq!(list.reader().iter_forward().to_vec(), vec![20, 30, 40]);
    assert_eq!(list.reader().iter_reverse().to_vec(), vec![40, 30, 20]);
}

#[test]
fn linked_list_iterators_from_a_chosen_element() {
    let mut list = linked_list::RcuList::<u32>::new();
    {
        let mut writer = list.writer();
        writer.push_back(1);
        writer.push_back(2);
        writer.push_back(3);
        writer.push_back(4);
    }
    let reader = list.reader();
    assert_eq!(linked_list::Iter::new_forward(&reader, Some(1)).to_vec(), vec![2, 3, 4]);
    assert_eq!(linked_list::Iter::new_reverse(&reader, Some(2)).to_vec(), vec![3, 2, 1]);
    assert_eq!(linked_list::Iter::new_forward(&reader, None).to_vec(), Vec::<u32>::new());
    assert_eq!(linked_list::Iter::new_reverse(&reader, None).to_vec(), Vec::<u32>::new());
}

#[test]
fn list_contains_on_empty_list() {
    let list = RcuList::<u32>::new();
    assert!(!list.contains(&0));
}

#[test]
fn linked_list_writer_walks_entries() {
    let mut list = linked_list::RcuList::<u32>::new();
    let mut writer = list.writer();
    writer.push_back(1);
    writer.push_back(3);
    writer.push_back(5);

    let mut forward = writer.entries_forward();
    assert_eq!(forward.next(), Some(0));
    assert_eq!(forward.next(), Some(1));
    assert_eq!(forward.next(), Some(2));
    assert_eq!(forward.next(), None);

    let mut reverse = writer.entries_reverse();
    let mut seen = Vec::new();
    while let Some(position) = reverse.next() {
        let entry = writer.entry(position).unwrap();
        seen.push(*entry.get());
    }
    assert_eq!(seen, vec![5, 3, 1]);

    // insert an even number after each odd one, walking from the tail
    let mut reverse = writer.entries_reverse();
    while let Some(position) = reverse.next() {
        let mut entry = writer.entry(position).unwrap();
        let value = *entry.get();
        entry.insert_after(value + 1);
    }
    assert!(writer.entry(6).is_none());
    assert_eq!(list.reader().iter_forward().to_vec(), vec![1, 2, 3, 4, 5, 6]);
}
