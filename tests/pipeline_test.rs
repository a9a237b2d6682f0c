#[test]
fn test_should_pass() {
    assert_eq!(2 + 2, 4);
}
