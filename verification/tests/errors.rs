use foundry_judge::server::MyError;

#[test]
fn my_error_keeps_message_and_code() {
    let e = MyError::new("Empty file", 2);
    assert_eq!(e.err_msg, "Empty file");
    assert_eq!(e.err_code, 2);
}
