use nemet::driver::frame_operand;
use nemet::text::{padding_right, u64_string};

#[test]
fn decimal_rendering_is_exact() {
    assert_eq!(u64_string(0), "0");
    assert_eq!(u64_string(7), "7");
    assert_eq!(u64_string(10), "10");
    assert_eq!(u64_string(12), "12");
    assert_eq!(u64_string(100), "100");
    assert_eq!(u64_string(65536), "65536");
    assert_eq!(u64_string(u64::MAX), "18446744073709551615");
}

#[test]
fn frame_operands_address_below_the_frame_pointer() {
    assert_eq!(frame_operand(-8), "[rbp-8]");
    assert_eq!(frame_operand(-12), "[rbp-12]");
    assert_eq!(frame_operand(-1), "[rbp-1]");
    assert_eq!(frame_operand(i32::MIN + 1), "[rbp-2147483647]");
}

#[test]
fn padding_right_pads_to_twenty_columns() {
    assert_eq!(padding_right("help"), "help                ");
    assert_eq!(padding_right("help").len(), 20);
    assert_eq!(padding_right(""), " ".repeat(20));
    assert_eq!(padding_right("--version"), "--version           ");
}
