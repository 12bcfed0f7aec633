use koyori_task::text::decimal_text;

#[test]
fn integers_are_written_as_to_string_writes_them() {
    for n in [0i64, 7, 10, 618, -3, -10, i64::MAX, i64::MIN] {
        assert_eq!(decimal_text(n), n.to_string());
    }
}
