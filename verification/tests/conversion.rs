use embedded_time::duration::units::{Milliseconds, Seconds};
use embedded_time::fixed_point::{convert, ConversionError, FixedPoint, Rounding};
use embedded_time::fraction::Fraction;

fn second() -> Fraction {
    Fraction::new(1, 1)
}

fn milli() -> Fraction {
    Fraction::new(1, 1_000)
}

#[test]
fn seconds_to_milliseconds() {
    assert_eq!(Milliseconds::<u32>::convert_ticks(3, second()), Ok(3_000));
    assert_eq!(Milliseconds::<u64>::convert_ticks(0, second()), Ok(0));
}

#[test]
fn convert_ticks_drops_the_remainder() {
    assert_eq!(Seconds::<u32>::convert_ticks(1_500, milli()), Ok(1));
    assert_eq!(Seconds::<u32>::convert_ticks(999, milli()), Ok(0));
    assert_eq!(Seconds::<u32>::convert_ticks(2_000, milli()), Ok(2));
}

#[test]
fn exact_conversion_refuses_a_remainder() {
    assert_eq!(
        Seconds::<u32>::convert_ticks_with(1_500, milli(), Rounding::Exact),
        Err(ConversionError::ExactRequired)
    );
    assert_eq!(Seconds::<u32>::convert_ticks_with(2_000, milli(), Rounding::Exact), Ok(2));
}

#[test]
fn ceiling_rounds_up_only_a_remainder() {
    assert_eq!(Seconds::<u32>::convert_ticks_with(1_500, milli(), Rounding::Ceil), Ok(2));
    assert_eq!(Seconds::<u32>::convert_ticks_with(1_001, milli(), Rounding::Ceil), Ok(2));
    assert_eq!(Seconds::<u32>::convert_ticks_with(2_000, milli(), Rounding::Ceil), Ok(2));
    assert_eq!(Seconds::<u32>::convert_ticks_with(0, milli(), Rounding::Ceil), Ok(0));
}

#[test]
fn correction_adds_one_tick_or_two() {
    assert_eq!(Seconds::<u32>::convert_ticks_with(2_000, milli(), Rounding::Corrected), Ok(3));
    assert_eq!(Seconds::<u32>::convert_ticks_with(1_500, milli(), Rounding::Corrected), Ok(3));
    assert_eq!(Seconds::<u32>::convert_ticks_with(0, milli(), Rounding::Corrected), Ok(1));
    assert_eq!(Seconds::<u32>::convert_ticks_with(1, milli(), Rounding::Corrected), Ok(2));
}

#[test]
fn floor_rounding_is_convert_ticks() {
    let values: [u32; 5] = [0, 1, 999, 1_000, 123_456];
    for v in values {
        assert_eq!(
            Seconds::<u32>::convert_ticks_with(v, milli(), Rounding::Floor),
            Seconds::<u32>::convert_ticks(v, milli())
        );
    }
}

#[test]
fn overflow_is_reported_not_wrapped() {
    assert_eq!(
        Milliseconds::<u32>::convert_ticks(u32::MAX, second()),
        Err(ConversionError::Overflow)
    );
    assert_eq!(Milliseconds::<u32>::convert_ticks(4_294_967, second()), Ok(4_294_967_000));
    assert_eq!(
        Milliseconds::<u32>::convert_ticks(4_294_968, second()),
        Err(ConversionError::Overflow)
    );
    assert_eq!(
        Milliseconds::<u64>::convert_ticks(u64::MAX, second()),
        Err(ConversionError::Overflow)
    );
    assert_eq!(
        Milliseconds::<u64>::convert_ticks(u64::MAX / 1_000, second()),
        Ok(18_446_744_073_709_551_000)
    );
}

#[test]
fn largest_operands_do_not_overflow_the_intermediate() {
    let widest = Fraction::new(u32::MAX, 1);
    let narrowest = Fraction::new(1, u32::MAX);
    let r: Result<u64, ConversionError> = convert(u64::MAX, widest, narrowest, Rounding::Floor);
    assert_eq!(r, Err(ConversionError::Overflow));
    let back: Result<u64, ConversionError> = convert(u64::MAX, narrowest, widest, Rounding::Floor);
    assert_eq!(back, Ok(1));
    let kept: Result<u64, ConversionError> = convert(u64::MAX, widest, widest, Rounding::Exact);
    assert_eq!(kept, Ok(u64::MAX));
}

#[test]
fn overflow_comes_before_exactness() {
    // 4_294_967_295_001 / 2 leaves a remainder and exceeds 32 bits.
    let half_milli = Fraction::new(2, 1_000);
    let r: Result<u32, ConversionError> =
        convert(4_294_967_295_001_u64, milli(), half_milli, Rounding::Exact);
    assert_eq!(r, Err(ConversionError::Overflow));
}

#[test]
fn correction_can_overflow_where_the_floor_fits() {
    let r: Result<u32, ConversionError> = convert(u32::MAX, milli(), milli(), Rounding::Floor);
    assert_eq!(r, Ok(u32::MAX));
    let c: Result<u32, ConversionError> = convert(u32::MAX, milli(), milli(), Rounding::Corrected);
    assert_eq!(c, Err(ConversionError::Overflow));
    let up: Result<u32, ConversionError> =
        convert(4_294_967_295_001_u64, milli(), second(), Rounding::Ceil);
    assert_eq!(up, Err(ConversionError::Overflow));
    let down: Result<u32, ConversionError> =
        convert(4_294_967_295_001_u64, milli(), second(), Rounding::Floor);
    assert_eq!(down, Ok(u32::MAX));
}

#[test]
fn conversion_between_widths() {
    let wide: Result<u64, ConversionError> = convert(u32::MAX, second(), milli(), Rounding::Exact);
    assert_eq!(wide, Ok(4_294_967_295_000));
    let narrow: Result<u32, ConversionError> =
        convert(4_294_967_295_000_u64, milli(), second(), Rounding::Exact);
    assert_eq!(narrow, Ok(u32::MAX));
}

#[test]
fn unreduced_factors_convert_alike() {
    let a: Result<u32, ConversionError> =
        convert(1_500u32, Fraction::new(2, 2_000), second(), Rounding::Floor);
    let b: Result<u32, ConversionError> = convert(1_500u32, milli(), second(), Rounding::Floor);
    assert_eq!(a, b);
    let same: Result<u32, ConversionError> =
        convert(1_234u32, Fraction::new(3, 3_000), milli(), Rounding::Exact);
    assert_eq!(same, Ok(1_234));
}

#[test]
fn factors_with_a_numerator() {
    // 7 ticks of 3/4 s are 5.25 s.
    let tick = Fraction::new(3, 4);
    let floor: Result<u32, ConversionError> = convert(7u32, tick, second(), Rounding::Floor);
    assert_eq!(floor, Ok(5));
    let ceil: Result<u32, ConversionError> = convert(7u32, tick, second(), Rounding::Ceil);
    assert_eq!(ceil, Ok(6));
    // 5 s are 6 2/3 ticks of 3/4 s.
    let back: Result<u32, ConversionError> = convert(5u32, second(), tick, Rounding::Floor);
    assert_eq!(back, Ok(6));
    let exact: Result<u32, ConversionError> = convert(6u32, second(), tick, Rounding::Exact);
    assert_eq!(exact, Ok(8));
}

#[test]
fn exact_round_trip_returns_the_value() {
    let values: [u32; 6] = [0, 1, 2, 999, 4_294_967, 1_000_000];
    for v in values {
        let there: u32 = Milliseconds::<u32>::convert_ticks_with(v, second(), Rounding::Exact).unwrap();
        let back: u32 = Seconds::<u32>::convert_ticks_with(there, milli(), Rounding::Exact).unwrap();
        assert_eq!(back, v);
    }
}

#[test]
fn exact_round_trip_from_the_finer_unit() {
    let there: u32 = Seconds::<u32>::convert_ticks_with(7_000, milli(), Rounding::Exact).unwrap();
    assert_eq!(there, 7);
    let back: u32 = Milliseconds::<u32>::convert_ticks_with(there, second(), Rounding::Exact).unwrap();
    assert_eq!(back, 7_000);
}

#[test]
fn scaling_factors_of_the_units() {
    assert_eq!(Seconds::<u32>::scaling_factor(), Fraction::new(1, 1));
    assert_eq!(Milliseconds::<u64>::scaling_factor(), Fraction::new(1, 1_000));
    assert_eq!(Milliseconds::<u32>::SCALING_NUMERATOR, 1);
    assert_eq!(Milliseconds::<u32>::SCALING_DENOMINATOR, 1_000);
}

#[test]
fn a_factor_with_a_zero_part_converts_nothing() {
    let no_length = Fraction { numerator: 0, denominator: 1_000 };
    let no_denominator = Fraction { numerator: 1, denominator: 0 };
    let factors: [Fraction; 2] = [no_length, no_denominator];
    let roundings: [Rounding; 4] =
        [Rounding::Exact, Rounding::Floor, Rounding::Ceil, Rounding::Corrected];
    for broken in factors {
        for rounding in roundings {
            let to: Result<u32, ConversionError> = convert(5u32, milli(), broken, rounding);
            assert_eq!(to, Err(ConversionError::Overflow));
            let from: Result<u64, ConversionError> = convert(0u32, broken, milli(), rounding);
            assert_eq!(from, Err(ConversionError::Overflow));
            let both: Result<u64, ConversionError> = convert(1u64, broken, broken, rounding);
            assert_eq!(both, Err(ConversionError::Overflow));
        }
    }
    assert_eq!(Seconds::<u32>::convert_ticks(5, no_denominator), Err(ConversionError::Overflow));
    assert_eq!(Seconds::<u32>::convert_ticks(5, no_length), Err(ConversionError::Overflow));
}
