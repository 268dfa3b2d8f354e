use ownership_model::registry::{BindingState, OwnershipError, Registry};

fn with_hello() -> (Registry, usize) {
    let mut r = Registry::new();
    let b = r.create(String::from("hello"));
    (r, b)
}

#[test]
fn create_gives_owned_binding() {
    let (r, b) = with_hello();
    assert_eq!(b, 0);
    assert_eq!(r.len(), 1);
    assert_eq!(r.state(b), BindingState::Owned);
    assert_eq!(r.content(b), Ok(String::from("hello")));
}

#[test]
fn clone_then_append_leaves_original() {
    let (mut r, s1) = with_hello();
    let s2 = r.clone_value(s1).unwrap();
    assert_eq!(s2, 1);
    assert_eq!(r.push_str(s2, " world"), Ok(()));
    assert_eq!(r.content(s1), Ok(String::from("hello")));
    assert_eq!(r.content(s2), Ok(String::from("hello world")));
}

#[test]
fn appending_to_original_leaves_clone() {
    let (mut r, s1) = with_hello();
    let s2 = r.clone_value(s1).unwrap();
    assert_eq!(r.push_str(s1, "!"), Ok(()));
    assert_eq!(r.content(s1), Ok(String::from("hello!")));
    assert_eq!(r.content(s2), Ok(String::from("hello")));
}

#[test]
fn move_then_append_in_new_owner() {
    let (mut r, s) = with_hello();
    let moved = r.move_value(s).unwrap();
    assert_eq!(r.push_str(moved, ", world!"), Ok(()));
    assert_eq!(r.content(moved), Ok(String::from("hello, world!")));
    assert_eq!(r.content(s), Err(OwnershipError::UseAfterMove));
    assert_eq!(r.state(s), BindingState::MovedOut);
}

#[test]
fn moved_binding_rejects_every_use() {
    let (mut r, s) = with_hello();
    let moved = r.move_value(s).unwrap();
    assert_eq!(r.content(s), Err(OwnershipError::UseAfterMove));
    assert_eq!(r.clone_value(s), Err(OwnershipError::UseAfterMove));
    assert_eq!(r.move_value(s), Err(OwnershipError::UseAfterMove));
    assert_eq!(r.push_str(s, "x"), Err(OwnershipError::UseAfterMove));
    assert_eq!(r.borrow_shared(s), Err(OwnershipError::UseAfterMove));
    assert_eq!(r.borrow_exclusive(s), Err(OwnershipError::UseAfterMove));
    assert_eq!(r.release(s), Ok(()));
    assert_eq!(r.state(s), BindingState::MovedOut);
    assert_eq!(r.content(moved), Ok(String::from("hello")));
    assert_eq!(r.len(), 2);
}

#[test]
fn exclusive_borrows_in_sequence() {
    let (mut r, s) = with_hello();
    assert_eq!(r.borrow_exclusive(s), Ok(()));
    r.push_str_through_borrow(s, ", world");
    r.end_exclusive(s);
    assert_eq!(r.state(s), BindingState::Owned);
    assert_eq!(r.borrow_exclusive(s), Ok(()));
    assert_eq!(r.content_through_borrow(s), "hello, world");
    r.end_exclusive(s);
    assert_eq!(r.content(s), Ok(String::from("hello, world")));
}

#[test]
fn two_live_exclusive_borrows_conflict() {
    let (mut r, s) = with_hello();
    assert_eq!(r.borrow_exclusive(s), Ok(()));
    assert_eq!(r.borrow_exclusive(s), Err(OwnershipError::BorrowConflict));
    assert_eq!(r.state(s), BindingState::Exclusive);
}

#[test]
fn shared_borrows_coexist() {
    let (mut r, s) = with_hello();
    assert_eq!(r.borrow_shared(s), Ok(()));
    assert_eq!(r.borrow_shared(s), Ok(()));
    assert_eq!(r.state(s), BindingState::Shared(2));
    assert_eq!(r.content_through_borrow(s), "hello");
    assert_eq!(r.content(s), Ok(String::from("hello")));
    r.end_shared(s);
    assert_eq!(r.state(s), BindingState::Shared(1));
    r.end_shared(s);
    assert_eq!(r.state(s), BindingState::Owned);
}

#[test]
fn shared_and_exclusive_never_mix() {
    let (mut r, s) = with_hello();
    assert_eq!(r.borrow_shared(s), Ok(()));
    assert_eq!(r.borrow_exclusive(s), Err(OwnershipError::BorrowConflict));
    assert_eq!(r.push_str(s, "x"), Err(OwnershipError::BorrowConflict));
    assert_eq!(r.move_value(s), Err(OwnershipError::BorrowConflict));
    assert_eq!(r.clone_value(s), Ok(1));
    r.end_shared(s);
    assert_eq!(r.borrow_exclusive(s), Ok(()));
    assert_eq!(r.borrow_shared(s), Err(OwnershipError::BorrowConflict));
    assert_eq!(r.content(s), Err(OwnershipError::BorrowConflict));
    assert_eq!(r.clone_value(s), Err(OwnershipError::BorrowConflict));
    assert_eq!(r.state(s), BindingState::Exclusive);
}

#[test]
fn release_ends_the_value_once() {
    let (mut r, s) = with_hello();
    assert_eq!(r.release(s), Ok(()));
    assert_eq!(r.state(s), BindingState::Released);
    assert_eq!(r.content(s), Err(OwnershipError::UseAfterMove));
    assert_eq!(r.release(s), Ok(()));
    assert_eq!(r.state(s), BindingState::Released);
}

#[test]
fn release_with_live_borrow_conflicts() {
    let (mut r, s) = with_hello();
    assert_eq!(r.borrow_shared(s), Ok(()));
    assert_eq!(r.release(s), Err(OwnershipError::BorrowConflict));
    r.end_shared(s);
    assert_eq!(r.borrow_exclusive(s), Ok(()));
    assert_eq!(r.release(s), Err(OwnershipError::BorrowConflict));
    r.end_exclusive(s);
    assert_eq!(r.release(s), Ok(()));
}
