use fanout_join::message::thread_message;

#[test]
fn message_single_digit() {
    assert_eq!(thread_message(0), "this is thread number 0");
    assert_eq!(thread_message(9), "this is thread number 9");
}

#[test]
fn message_several_digits() {
    assert_eq!(thread_message(10), "this is thread number 10");
    assert_eq!(thread_message(305), "this is thread number 305");
}

#[test]
fn message_largest_index() {
    assert_eq!(thread_message(u32::MAX), "this is thread number 4294967295");
}

#[test]
fn messages_of_distinct_indices_differ() {
    let lines: Vec<String> = (0..100).map(thread_message).collect();
    for i in 0..lines.len() {
        for j in (i + 1)..lines.len() {
            assert_ne!(lines[i], lines[j]);
        }
    }
}
