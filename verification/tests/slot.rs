use sim7000::slot::Slot;

#[test]
fn slot() {
    let mut slot = Slot::new(());

    for _ in 0..3 {
        assert!(!slot.is_claimed());
        assert!(!slot.is_claimed());
        assert!(slot.claim().is_some());
        assert!(slot.is_claimed());
        assert!(slot.is_claimed());
        assert!(slot.claim().is_none());
        assert!(slot.is_claimed());
        slot.release();
    }
}

#[test]
fn slot_keeps_its_content() {
    let mut slot = Slot::new(7u32);
    assert_eq!(slot.claim(), Some(&7));
    assert_eq!(*slot.peek(), 7);
    slot.release();
    assert_eq!(*slot.peek(), 7);
}
