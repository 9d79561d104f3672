use minitokio::current::Current;

#[test]
fn nothing_is_current_outside_of_a_scope() {
    let mut current = Current::new();
    assert_eq!(current.get(), None);
    current.enter("outer");
    assert_eq!(current.get(), Some(&"outer"));
    current.enter("inner");
    assert_eq!(current.get(), Some(&"inner"));
    assert_eq!(current.leave(), Some("inner"));
    assert_eq!(current.get(), None);
    assert_eq!(current.leave(), None);
}
