use jpeg_quant::quantization::{DEFAULT_CHROMA_TABLE, DEFAULT_LUMA_TABLE};
use jpeg_quant::{QuantizationTable, QuantizationTableType};

#[test]
fn test_new_100() {
    let q = QuantizationTable::new_with_quality(&QuantizationTableType::Default, 100, true);

    for &v in &q.steps() {
        assert_eq!(v, 1 << 3);
    }

    let q = QuantizationTable::new_with_quality(&QuantizationTableType::Default, 100, false);

    for &v in &q.steps() {
        assert_eq!(v, 1 << 3);
    }
}

#[test]
fn test_new_100_quantize() {
    let q = QuantizationTable::new_with_quality(&QuantizationTableType::Default, 100, true);

    for i in -255..255 {
        assert_eq!(i, q.quantize(i << 3, 0));
    }
}

#[test]
fn full_quality_gets_one_everywhere() {
    for luma in [true, false] {
        let q = QuantizationTable::new_with_quality(&QuantizationTableType::Default, 100, luma);
        for i in 0..64 {
            assert_eq!(q.get(i), 1);
        }
    }
}

#[test]
fn full_quality_round_trip_every_index() {
    for luma in [true, false] {
        let q = QuantizationTable::new_with_quality(&QuantizationTableType::Default, 100, luma);
        for i in 0..64 {
            for x in -255i16..=255 {
                assert_eq!(q.quantize(x << 3, i), x);
            }
        }
    }
}

#[test]
fn half_quality_keeps_reference_values() {
    let q = QuantizationTable::new_with_quality(&QuantizationTableType::Default, 50, true);
    assert_eq!(q.get(0), 16);
    for i in 0..64 {
        assert_eq!(q.get(i), DEFAULT_LUMA_TABLE[i]);
    }
    let q = QuantizationTable::new_with_quality(&QuantizationTableType::Default, 50, false);
    for i in 0..64 {
        assert_eq!(q.get(i), DEFAULT_CHROMA_TABLE[i]);
    }
}

#[test]
fn lower_quality_gives_coarser_steps() {
    for luma in [true, false] {
        for q1 in 0u8..=101 {
            let a = QuantizationTable::new_with_quality(&QuantizationTableType::Default, q1, luma);
            let b = QuantizationTable::new_with_quality(&QuantizationTableType::Default, q1 + 1, luma);
            for i in 0..64 {
                assert!(a.get(i) >= b.get(i));
            }
        }
    }
}

#[test]
fn out_of_range_quality_is_clamped() {
    for luma in [true, false] {
        let zero = QuantizationTable::new_with_quality(&QuantizationTableType::Default, 0, luma);
        let one = QuantizationTable::new_with_quality(&QuantizationTableType::Default, 1, luma);
        assert_eq!(zero.steps(), one.steps());
        let hundred = QuantizationTable::new_with_quality(&QuantizationTableType::Default, 100, luma);
        for quality in [101u8, 200, 255] {
            let over = QuantizationTable::new_with_quality(&QuantizationTableType::Default, quality, luma);
            assert_eq!(over.steps(), hundred.steps());
        }
    }
}

#[test]
fn custom_zero_acts_as_one() {
    let mut with_zero = [7u8; 64];
    with_zero[3] = 0;
    let mut with_one = [7u8; 64];
    with_one[3] = 1;
    let a = QuantizationTable::new_with_quality(&QuantizationTableType::Custom(Box::new(with_zero)), 50, true);
    let b = QuantizationTable::new_with_quality(&QuantizationTableType::Custom(Box::new(with_one)), 50, true);
    assert_eq!(a.steps(), b.steps());
    assert_eq!(a.get(3), 1);
    assert_eq!(a.steps()[3], 8);
    assert_eq!(a.get(4), 7);
}

#[test]
fn custom_table_ignores_quality() {
    let mut table = [0u8; 64];
    for i in 0..64 {
        table[i] = (i as u8) * 4;
    }
    let source = QuantizationTableType::Custom(Box::new(table));
    for quality in [1u8, 50, 100] {
        let q = QuantizationTable::new_with_quality(&source, quality, false);
        assert_eq!(q.get(0), 1);
        assert_eq!(q.get(2), 8);
        assert_eq!(q.get(63), 252);
        assert_eq!(q.steps()[10], 320);
    }
}

#[test]
fn scale_formula_values() {
    // quality 25: scale 200, 16 -> 32
    let q = QuantizationTable::new_with_quality(&QuantizationTableType::Default, 25, true);
    assert_eq!(q.get(0), 32);
    assert_eq!(q.steps()[0], 256);
    // quality 75: scale 50, (16 * 50 + 50) / 100 = 8, (11 * 50 + 50) / 100 = 6
    let q = QuantizationTable::new_with_quality(&QuantizationTableType::Default, 75, true);
    assert_eq!(q.get(0), 8);
    assert_eq!(q.get(1), 6);
    // quality 1: scale 5000, clamped at 255
    let q = QuantizationTable::new_with_quality(&QuantizationTableType::Default, 1, true);
    assert_eq!(q.get(0), 255);
    // quality 98: scale 4, (10 * 4 + 50) / 100 = 0, raised to 1
    let q = QuantizationTable::new_with_quality(&QuantizationTableType::Default, 98, true);
    assert_eq!(q.get(2), 1);
    // quality 49: scale 102, (99 * 102 + 50) / 100 = 101
    let q = QuantizationTable::new_with_quality(&QuantizationTableType::Default, 49, false);
    assert_eq!(q.get(63), 101);
}

#[test]
fn rounding_ties_away_from_zero() {
    let q = QuantizationTable::new_with_quality(&QuantizationTableType::Default, 50, true);
    // step at index 0 is 16 * 8 = 128
    assert_eq!(q.quantize(64, 0), 1);
    assert_eq!(q.quantize(63, 0), 0);
    assert_eq!(q.quantize(-64, 0), -1);
    assert_eq!(q.quantize(-63, 0), 0);
    assert_eq!(q.quantize(191, 0), 1);
    assert_eq!(q.quantize(192, 0), 2);
    assert_eq!(q.quantize(-192, 0), -2);
    assert_eq!(q.quantize(0, 0), 0);
}

#[test]
fn negation_negates_quantized_value() {
    for quality in [1u8, 30, 50, 80, 100] {
        let q = QuantizationTable::new_with_quality(&QuantizationTableType::Default, quality, true);
        for i in 0..64 {
            for v in (-32767i16..=32767).step_by(97) {
                assert_eq!(q.quantize(-v, i), -q.quantize(v, i));
            }
        }
    }
}

#[test]
fn extreme_coefficients_do_not_overflow() {
    let q = QuantizationTable::new_with_quality(&QuantizationTableType::Default, 100, true);
    assert_eq!(q.quantize(i16::MIN, 0), -4096);
    assert_eq!(q.quantize(i16::MAX, 0), 4096);
    let q = QuantizationTable::new_with_quality(&QuantizationTableType::Default, 1, false);
    for i in 0..64 {
        let g = q.get(i);
        assert!(g >= 1);
        assert!(q.quantize(i16::MIN, i) <= 0);
    }
}
