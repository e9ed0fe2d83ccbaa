use code_hunt::arith::{parse_i32, pow_three, sled_id, xor_pow_three};
use code_hunt::{ok_response, respond_internal_server_error, AppError};

#[test]
fn cube_of_small_numbers() {
    assert_eq!(pow_three(0), "0");
    assert_eq!(pow_three(1), "1");
    assert_eq!(pow_three(2), "8");
    assert_eq!(pow_three(10), "1000");
    assert_eq!(pow_three(-5), "-125");
}

#[test]
fn cube_of_extreme_numbers() {
    assert_eq!(pow_three(1290), "2146689000");
    assert_eq!(pow_three(i32::MAX), "9903520300447984150353281023");
    assert_eq!(pow_three(i32::MIN), "-9903520314283042199192993792");
}

#[test]
fn cube_of_xor() {
    assert_eq!(xor_pow_three(4, 8), "1728");
    assert_eq!(xor_pow_three(10, 10), "0");
    assert_eq!(xor_pow_three(-3, 3), "-8");
}

#[test]
fn sled_id_of_trailing_path() {
    assert_eq!(sled_id(4, 5, b"8/10").unwrap(), "27");
    assert_eq!(sled_id(4, 8, b"4").unwrap(), "512");
    assert_eq!(sled_id(0, 0, b"0").unwrap(), "0");
    assert_eq!(sled_id(1, 2, b"4/8/16/32/64").unwrap(), "2048383");
    assert_eq!(sled_id(5, -7, b"-3/12").unwrap(), "2197");
    assert_eq!(sled_id(1, 1, b"+2").unwrap(), "8");
}

#[test]
fn sled_id_rejects_bad_segments() {
    assert!(sled_id(1, 2, b"").is_err());
    assert!(sled_id(1, 2, b"abc").is_err());
    assert!(sled_id(1, 2, b"3/x/5").is_err());
    assert!(sled_id(1, 2, b"3//5").is_err());
    assert!(sled_id(1, 2, b"2147483648").is_err());
}

#[test]
fn parse_i32_accepts_decimal_integers() {
    assert_eq!(parse_i32(b"12"), Some(12));
    assert_eq!(parse_i32(b"+7"), Some(7));
    assert_eq!(parse_i32(b"-0"), Some(0));
    assert_eq!(parse_i32(b"007"), Some(7));
    assert_eq!(parse_i32(b"2147483647"), Some(2147483647));
    assert_eq!(parse_i32(b"-2147483648"), Some(-2147483648));
}

#[test]
fn parse_i32_rejects_malformed_input() {
    assert_eq!(parse_i32(b""), None);
    assert_eq!(parse_i32(b"+"), None);
    assert_eq!(parse_i32(b"-"), None);
    assert_eq!(parse_i32(b"1a"), None);
    assert_eq!(parse_i32(b" 1"), None);
    assert_eq!(parse_i32(b"2147483648"), None);
    assert_eq!(parse_i32(b"-2147483649"), None);
    assert_eq!(parse_i32(b"99999999999999999999"), None);
}

#[test]
fn fixed_status_routes() {
    assert_eq!(ok_response(), 200);
    let (status, body) = respond_internal_server_error();
    assert_eq!(status, 500);
    assert_eq!(body, "Internal Server Error");
    assert_eq!(AppError::new().message(), "Something went wrong");
}
