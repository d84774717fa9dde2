use antarc_protocol::sequence::Sequence;

#[test]
fn sequence_new_refuses_zero() {
    assert!(Sequence::new(0).is_none());
    assert_eq!(Sequence::new(7).map(|s| s.get()), Some(7));
}
