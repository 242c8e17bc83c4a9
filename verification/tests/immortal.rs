use zerotier_utils::immortal::Immortal;

#[test]
fn test_new() {
    let immortal = Immortal::new(10);
    assert_eq!(*immortal.as_ref(), 10);
}

#[test]
fn test_deref() {
    let immortal = Immortal::new(10);
    assert_eq!(*immortal, 10);
}

#[test]
fn test_as_ref() {
    let immortal = Immortal::new(10);
    assert_eq!(*immortal.as_ref(), 10);
}

#[test]
fn immortal_copies_lead_to_one_value() {
    let a = Immortal::new(String::from("kept"));
    let b = a;
    let c = a.clone();
    assert_eq!(a.as_ref(), "kept");
    assert_eq!(b.len(), 4);
    assert!(std::ptr::eq(a.as_ref(), c.as_ref()));
}
