use amlang::environment::append_vec::AppendVec;

#[test]
fn basic_copy() {
    let mut v = AppendVec::<usize>::new(2);
    assert!(v.push(10).is_none());
    assert!(v.push(20).is_none());
    let new = v.push(30).unwrap();

    assert_eq!(v.len(), 2);
    assert_eq!(new.len(), 3);

    assert_eq!(v.get(1), new.get(1));

    let mut iter = new.iter().into_iter();
    assert_eq!(iter.next().cloned(), Some(10));
    assert_eq!(iter.next().cloned(), Some(20));
    assert_eq!(iter.next().cloned(), Some(30));
    assert_eq!(iter.next().cloned(), None);
}

#[test]
fn basic_no_copy() {
    let mut v = AppendVec::<String>::new(2);
    assert!(v.push("hello".to_string()).is_none());
    assert!(v.push("bye".to_string()).is_none());
    let new = v.push("t".to_string()).unwrap();

    assert_eq!(v.len(), 2);
    assert_eq!(new.len(), 3);

    assert_eq!(v.get(1), new.get(1));

    let mut iter = new.iter().into_iter();
    assert_eq!(iter.next().cloned(), Some("hello".to_string()));
    assert_eq!(iter.next().cloned(), Some("bye".to_string()));
    assert_eq!(iter.next().cloned(), Some("t".to_string()));
    assert_eq!(iter.next().cloned(), None);
}

#[test]
fn append_fits_and_grows() {
    let mut v = AppendVec::<usize>::new(4);
    assert!(v.append(&[1, 2]).is_none());
    assert_eq!(v.len(), 2);
    // Two more would leave no spare room: a larger vector is made.
    let new = v.append(&[3, 4]).unwrap();
    assert_eq!(v.len(), 2);
    assert_eq!(new.len(), 4);
    assert_eq!(*new.get(3), 4);
}
