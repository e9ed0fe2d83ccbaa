use code_hunt::text::{cube_i32, i128_to_string, u128_to_string};

#[test]
fn renders_unsigned_decimals() {
    assert_eq!(u128_to_string(0), "0");
    assert_eq!(u128_to_string(7), "7");
    assert_eq!(u128_to_string(1000), "1000");
    assert_eq!(u128_to_string(90210), "90210");
    assert_eq!(
        u128_to_string(u128::MAX),
        "340282366920938463463374607431768211455"
    );
}

#[test]
fn renders_signed_decimals() {
    assert_eq!(i128_to_string(-1), "-1");
    assert_eq!(i128_to_string(0), "0");
    assert_eq!(i128_to_string(-90210), "-90210");
    assert_eq!(
        i128_to_string(i128::MIN + 1),
        "-170141183460469231731687303715884105727"
    );
}

#[test]
fn cubes_exactly() {
    assert_eq!(cube_i32(0), 0);
    assert_eq!(cube_i32(-7), -343);
    assert_eq!(cube_i32(1291), 2151685171);
    assert_eq!(cube_i32(i32::MIN), -9903520314283042199192993792);
}
