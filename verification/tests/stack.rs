use urcu::stack::RcuStack;

#[test]
fn test_peek() {
    let mut stack = RcuStack::<u32>::new();

    assert_eq!(stack.peek(), None);
    assert!(stack.is_empty());

    stack.push(10);
    assert_eq!(stack.peek(), Some(&10));
    assert!(!stack.is_empty());

    stack.push(20);
    assert_eq!(stack.peek(), Some(&20));
    assert!(!stack.is_empty());

    stack.push(30);
    assert_eq!(stack.peek(), Some(&30));
    assert!(!stack.is_empty());

    stack.pop().unwrap().take_ownership();
    assert_eq!(stack.peek(), Some(&20));
    assert!(!stack.is_empty());

    stack.pop().unwrap().take_ownership();
    assert_eq!(stack.peek(), Some(&10));
    assert!(!stack.is_empty());

    stack.push(40);
    assert_eq!(stack.peek(), Some(&40));
    assert!(!stack.is_empty());

    stack.pop().unwrap().take_ownership();
    assert_eq!(stack.peek(), Some(&10));
    assert!(!stack.is_empty());

    stack.pop().unwrap().take_ownership();
    assert_eq!(stack.peek(), None);
    assert!(stack.is_empty());
}

#[test]
fn iter() {
    let mut stack = RcuStack::<u32>::new();

    assert_eq!(stack.iter().to_vec(), Vec::<u32>::new());

    stack.push(140);
    stack.push(128);
    stack.push(174);
    stack.push(184);
    stack.push(150);
    stack.push(147);
    stack.push(105);
    stack.push(160);
    stack.push(120);
    stack.push(183);

    assert_eq!(
        stack.iter().to_vec(),
        vec![183, 120, 160, 105, 147, 150, 184, 174, 128, 140]
    );

    stack.pop().unwrap();
    stack.pop().unwrap();
    stack.pop().unwrap();
    stack.pop().unwrap();
    stack.pop().unwrap();

    assert_eq!(stack.iter().to_vec(), vec![150, 184, 174, 128, 140]);

    stack.pop().unwrap();
    stack.pop().unwrap();
    stack.pop().unwrap();
    stack.push(142);

    assert_eq!(stack.iter().to_vec(), vec![142, 128, 140]);

    stack.pop().unwrap();
    stack.pop().unwrap();
    stack.pop().unwrap();

    assert_eq!(stack.iter().to_vec(), Vec::<u32>::new());
}

#[test]
fn iter_ref() {
    fn pop_all_nodes(stack: &mut RcuStack<u32>) -> Vec<u32> {
        stack
            .pop_all()
            .collect()
            .into_iter()
            .map(|r| *r.take_ownership().get())
            .collect::<Vec<_>>()
    }

    let mut stack = RcuStack::<u32>::new();

    assert_eq!(pop_all_nodes(&mut stack), Vec::<u32>::new());

    stack.push(140);
    stack.push(128);
    stack.push(174);
    stack.push(184);
    stack.push(150);
    stack.push(147);
    stack.push(105);
    stack.push(160);
    stack.push(120);
    stack.push(183);

    assert_eq!(
        pop_all_nodes(&mut stack),
        vec![183, 120, 160, 105, 147, 150, 184, 174, 128, 140]
    );
    assert!(stack.is_empty());
}

#[test]
fn stack_pop_is_last_in_first_out() {
    let mut stack = RcuStack::<u32>::new();
    assert!(stack.pop().is_none());
    stack.push(1);
    stack.push(2);
    assert_eq!(*stack.pop().unwrap().get(), 2);
    stack.push(3);
    assert_eq!(*stack.pop().unwrap().get(), 3);
    assert_eq!(*stack.pop().unwrap().get(), 1);
    assert!(stack.pop().is_none());
}

#[test]
fn stack_pop_all_hands_out_one_by_one() {
    let mut stack = RcuStack::<u32>::new();
    stack.push(1);
    stack.push(2);
    let mut all = stack.pop_all();
    assert!(stack.is_empty());
    assert_eq!(*all.next().unwrap().get(), 2);
    assert_eq!(*all.next().unwrap().get(), 1);
    assert!(all.next().is_none());
}
