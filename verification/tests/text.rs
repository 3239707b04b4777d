use nrf54_audio::text::{push_i32, push_u64};

#[test]
fn numbers_in_decimal() {
    for n in [0, 1, 9, 10, 19, 99, 100, 1005, u32::MAX as u64, u64::MAX] {
        let mut out = String::from("n=");
        push_u64(&mut out, n);
        assert_eq!(out, format!("n={n}"));
    }
    for n in [0, -1, 7, -10, i32::MAX, i32::MIN] {
        let mut out = String::from("n=");
        push_i32(&mut out, n);
        assert_eq!(out, format!("n={n}"));
    }
}
