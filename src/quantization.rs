use vstd::prelude::*;

verus! {

/// The source of a quantization table.
#[derive(Debug, Clone)]
pub enum QuantizationTableType {
    /// The sample tables of Annex K (Clause K.1) of Recommendation ITU-T T.81 (1992) | ISO/IEC 10918-1:1994,
    /// scaled by the quality factor.
    Default,
    /// A caller supplied table of sensitivities, taken as the final steps.
    Custom(Box<[u8; 64]>),
}

/// Base sensitivities of the luminance channel.
pub const DEFAULT_LUMA_TABLE: [u8; 64] = [
    16, 11, 10, 16, 24, 40, 51, 61,
    12, 12, 14, 19, 26, 58, 60, 55,
    14, 13, 16, 24, 40, 57, 69, 56,
    14, 17, 22, 29, 51, 87, 80, 62,
    18, 22, 37, 56, 68, 109, 103, 77,
    24, 35, 55, 64, 81, 104, 113, 92,
    49, 64, 78, 87, 103, 121, 120, 101,
    72, 92, 95, 98, 112, 100, 103, 99,
];

/// Base sensitivities of the chrominance channels.
pub const DEFAULT_CHROMA_TABLE: [u8; 64] = [
    17, 18, 24, 47, 99, 99, 99, 99,
    18, 21, 26, 66, 99, 99, 99, 99,
    24, 26, 56, 99, 99, 99, 99, 99,
    47, 66, 99, 99, 99, 99, 99, 99,
    99, 99, 99, 99, 99, 99, 99, 99,
    99, 99, 99, 99, 99, 99, 99, 99,
    99, 99, 99, 99, 99, 99, 99, 99,
    99, 99, 99, 99, 99, 99, 99, 99,
];

/// The premultiply factor that matches the scaling of the forward transform.
pub open spec fn premultiplied(step: int) -> int {
    8 * step
}

/// The quality factor clamped to [1, 100].
pub open spec fn clamped_quality(quality: int) -> int {
    if quality < 1 {
        1
    } else if quality > 100 {
        100
    } else {
        quality
    }
}

/// The scale, in percent, that a quality factor applies to the base sensitivities.
pub open spec fn quality_scale(quality: int) -> int {
    let q: int = clamped_quality(quality);
    if q < 50 {
        5000int / q
    } else {
        200 - 2 * q
    }
}

/// A base sensitivity scaled by the quality factor, rounded, and clamped to [1, 255].
pub open spec fn scaled_step(v: u8, quality: int) -> int {
    let s = (v * quality_scale(quality) + 50) / 100;
    if s < 1 {
        1
    } else if s > 255 {
        255
    } else {
        s
    }
}

/// The base sensitivities of a channel kind.
pub open spec fn reference_table(luma: bool) -> Seq<u8> {
    if luma {
        DEFAULT_LUMA_TABLE@
    } else {
        DEFAULT_CHROMA_TABLE@
    }
}

/// The premultiplied steps of a table built from `source` at `quality` for a channel kind.
pub open spec fn built_steps(source: QuantizationTableType, quality: int, luma: bool) -> Seq<int> {
    Seq::new(
        64,
        |i: int|
            match source {
                QuantizationTableType::Custom(t) => premultiplied(custom_step(t@[i])),
                QuantizationTableType::Default => premultiplied(
                    scaled_step(reference_table(luma)[i], quality),
                ),
            },
    )
}

/// `v / q` rounded to the nearest integer, ties away from zero, symmetric in the sign of `v`.
pub open spec fn rounded_quotient(v: int, q: int) -> int {
    if v < 0 {
        -((-v + q / 2) / q)
    } else {
        (v + q / 2) / q
    }
}

/// A custom sensitivity with zero raised to one.
pub open spec fn custom_step(v: u8) -> int {
    if v == 0 { 1 } else { v as int }
}

/// `steps` holds the premultiplied steps of the custom sensitivities `table`.
pub open spec fn custom_steps_ok(table: Seq<u8>, steps: Seq<u16>) -> bool {
    &&& steps.len() == 64
    &&& table.len() == 64
    &&& forall|i: int| 0 <= i < 64 ==> steps[i] as int == premultiplied(custom_step(#[trigger] table[i]))
}

/// A premultiplied step: a nonzero multiple of 8 whose unscaled step fits in a byte.
pub open spec fn valid_step(q: int) -> bool {
    &&& 8 <= q <= 2040
    &&& q % 8 == 0
}

/// Sixty-four valid premultiplied steps.
pub open spec fn valid_steps(steps: Seq<u16>) -> bool {
    &&& steps.len() == 64
    &&& forall|i: int| 0 <= i < 64 ==> valid_step(#[trigger] steps[i] as int)
}

/// A scaled step fits in a byte, and the quality scale stays within [0, 5000].
proof fn lemma_scaled_step_bounds(v: u8, quality: int)
    ensures
        1 <= scaled_step(v, quality) <= 255,
        0 <= quality_scale(quality) <= 5000,
{
    let q: int = clamped_quality(quality);
    if q < 50 {
        assert(5000int / q <= 5000) by (nonlinear_arith)
            requires
                1 <= q,
        ;
        assert(5000int / q >= 0) by (nonlinear_arith)
            requires
                1 <= q,
        ;
    }
}

/// A table of 64 quantization steps, each premultiplied by 8.
pub struct QuantizationTable {
    table: [u16; 64],
}

impl View for QuantizationTable {
    type V = Seq<u16>;

    /// The 64 premultiplied steps.
    closed spec fn view(&self) -> Seq<u16> {
        self.table@
    }
}

impl QuantizationTable {
    /// Every step is a nonzero multiple of 8 no larger than 8 * 255.
    #[verifier::type_invariant]
    spec fn steps_valid(&self) -> bool {
        valid_steps(self.table@)
    }

    /// Builds the steps for one channel kind from `table` and a quality factor in [1, 100];
    /// a quality outside that range is clamped, and a custom table ignores it.
    pub fn new_with_quality(table: &QuantizationTableType, quality: u8, luma: bool) -> (r:
        QuantizationTable)
        ensures
            r@.len() == 64,
            forall|i: int|
                0 <= i < 64 ==> #[trigger] r@[i] as int == built_steps(*table, quality as int, luma)[i],
            valid_steps(r@),
    {
        let table = match table {
            QuantizationTableType::Custom(table) => {
                let t = Self::get_user_table(table);
                assert forall|i: int| 0 <= i < 64 implies valid_step(#[trigger] t@[i] as int) by {
                    assert(custom_step(table@[i]) <= 255);
                }
                t
            },
            QuantizationTableType::Default => {
                let table = if luma {
                    &DEFAULT_LUMA_TABLE
                } else {
                    &DEFAULT_CHROMA_TABLE
                };
                Self::get_with_quality(table, quality)
            },
        };
        QuantizationTable { table }
    }

    /// Premultiplied steps of a custom table, with each zero sensitivity raised to one.
    fn get_user_table(table: &[u8; 64]) -> (r: [u16; 64])
        ensures
            custom_steps_ok(table@, r@),
    {
        let mut q_table: [u16; 64] = [8u16; 64];
        let mut i: usize = 0;
        while i < 64
            invariant
                i <= 64,
                q_table@.len() == 64,
                forall|j: int| 0 <= j < i ==> q_table@[j] as int == premultiplied(custom_step(table@[j])),
            decreases 64 - i,
        {
            let v: u8 = table[i];
            let v: u16 = if v < 1 { 1 } else { v as u16 };
            q_table[i] = v * 8;
            i += 1;
        }
        q_table
    }

    /// Premultiplied steps of a base table scaled by a quality factor.
    fn get_with_quality(table: &[u8; 64], quality: u8) -> (r: [u16; 64])
        ensures
            forall|i: int|
                0 <= i < 64 ==> r@[i] as int == premultiplied(#[trigger] scaled_step(table@[i], quality as int)),
            valid_steps(r@),
    {
        let q: u32 = if quality < 1 {
            1
        } else if quality > 100 {
            100
        } else {
            quality as u32
        };
        let scale: u32 = if q < 50 {
            5000 / q
        } else {
            200 - q * 2
        };
        proof {
            lemma_scaled_step_bounds(0, quality as int);
        }
        let mut q_table: [u16; 64] = [8u16; 64];
        let mut i: usize = 0;
        while i < 64
            invariant
                i <= 64,
                q_table@.len() == 64,
                scale as int == quality_scale(quality as int),
                scale <= 5000,
                forall|j: int|
                    0 <= j < i ==> q_table@[j] as int == premultiplied(#[trigger] scaled_step(table@[j], quality as int)),
                forall|j: int| 0 <= j < i ==> valid_step(#[trigger] q_table@[j] as int),
            decreases 64 - i,
        {
            let v: u32 = table[i] as u32;
            assert(v * scale <= 255 * 5000) by (nonlinear_arith)
                requires
                    v <= 255,
                    scale <= 5000,
            ;
            let v: u32 = (v * scale + 50) / 100;
            let v: u16 = if v < 1 {
                1
            } else if v > 255 {
                255
            } else {
                v as u16
            };
            q_table[i] = v * 8;
            i += 1;
        }
        q_table
    }

    /// The step at `index` without the premultiply, as written into a table definition record.
    pub fn get(&self, index: usize) -> (r: u8)
        requires
            index < 64,
        ensures
            r as int * 8 == self@[index as int],
            1 <= r <= 255,
    {
        proof {
            use_type_invariant(self);
        }
        (self.table[index] / 8) as u8
    }

    /// The 64 premultiplied steps.
    pub fn steps(&self) -> (r: [u16; 64])
        ensures
            r@ == self@,
    {
        self.table
    }

    /// Divides a premultiplied coefficient by the step at `index`, rounding to the nearest
    /// integer with ties away from zero.
    pub fn quantize(&self, value: i16, index: usize) -> (r: i16)
        requires
            index < 64,
        ensures
            r as int == rounded_quotient(value as int, self@[index as int] as int),
            -4096 <= r <= 4096,
    {
        proof {
            use_type_invariant(self);
        }
        let q: i32 = self.table[index] as i32;
        let v: i32 = value as i32;
        let a: i32 = if v < 0 {
            -v
        } else {
            v
        };
        assert((a as int + q as int / 2) / (q as int) <= 4096) by (nonlinear_arith)
            requires
                0 <= a <= 32768,
                8 <= q,
        ;
        let m: i32 = (a + q / 2) / q;
        if v < 0 {
            -m as i16
        } else {
            m as i16
        }
    }
}

/// At quality 100 every default step is 1 before the premultiply, for both channel kinds.
pub proof fn lemma_full_quality_unit_steps(luma: bool, i: int)
    requires
        0 <= i < 64,
    ensures
        scaled_step(reference_table(luma)[i], 100) == 1,
        built_steps(QuantizationTableType::Default, 100, luma)[i] == 8,
{
}

/// At quality 100, quantizing a premultiplied coefficient `x * 8` gives back `x`.
pub proof fn lemma_full_quality_round_trip(luma: bool, i: int, x: int)
    requires
        0 <= i < 64,
        -255 <= x <= 255,
    ensures
        rounded_quotient(x * 8, built_steps(QuantizationTableType::Default, 100, luma)[i]) == x,
{
    lemma_full_quality_unit_steps(luma, i);
}

proof fn lemma_scale_monotone(q1: int, q2: int)
    requires
        q1 <= q2,
    ensures
        quality_scale(q1) >= quality_scale(q2),
{
    let c1 = clamped_quality(q1);
    let c2 = clamped_quality(q2);
    if c2 < 50 {
        assert(5000int / c1 >= 5000int / c2) by (nonlinear_arith)
            requires
                1 <= c1 <= c2,
        ;
    } else if c1 < 50 {
        assert(5000int / c1 >= 5000int / 49) by (nonlinear_arith)
            requires
                1 <= c1 <= 49,
        ;
    }
}

/// A lower quality never gives a smaller default step than a higher one.
pub proof fn lemma_quality_monotone(luma: bool, i: int, q1: int, q2: int)
    requires
        0 <= i < 64,
        q1 < q2,
    ensures
        scaled_step(reference_table(luma)[i], q1) >= scaled_step(reference_table(luma)[i], q2),
        built_steps(QuantizationTableType::Default, q1, luma)[i] >= built_steps(
            QuantizationTableType::Default,
            q2,
            luma,
        )[i],
{
    let v = reference_table(luma)[i];
    let s1 = quality_scale(q1);
    let s2 = quality_scale(q2);
    lemma_scale_monotone(q1, q2);
    assert((v * s1 + 50) / 100 >= (v * s2 + 50) / 100) by (nonlinear_arith)
        requires
            0 <= v,
            s1 >= s2,
    ;
}

/// A quality below 1 acts as 1 and one above 100 acts as 100.
pub proof fn lemma_quality_clamped(source: QuantizationTableType, luma: bool, quality: int)
    ensures
        quality < 1 ==> built_steps(source, quality, luma) == built_steps(source, 1, luma),
        quality > 100 ==> built_steps(source, quality, luma) == built_steps(source, 100, luma),
{
    if quality < 1 {
        assert(built_steps(source, quality, luma) =~= built_steps(source, 1, luma));
    }
    if quality > 100 {
        assert(built_steps(source, quality, luma) =~= built_steps(source, 100, luma));
    }
}

/// A zero entry of a custom table acts as an entry of 1.
pub proof fn lemma_custom_zero_as_one(
    t1: Box<[u8; 64]>,
    t2: Box<[u8; 64]>,
    quality: int,
    luma: bool,
)
    requires
        forall|i: int| 0 <= i < 64 ==> t1@[i] == t2@[i] || (t1@[i] == 0 && t2@[i] == 1),
    ensures
        built_steps(QuantizationTableType::Custom(t1), quality, luma) == built_steps(
            QuantizationTableType::Custom(t2),
            quality,
            luma,
        ),
{
    assert(built_steps(QuantizationTableType::Custom(t1), quality, luma) =~= built_steps(
        QuantizationTableType::Custom(t2),
        quality,
        luma,
    ));
}

/// Quantizing by a valid step is odd in the coefficient: negating the input negates the result.
pub proof fn lemma_sign_symmetry(v: int, q: int)
    requires
        valid_step(q),
    ensures
        rounded_quotient(-v, q) == -rounded_quotient(v, q),
{
    if v == 0 {
        assert((q / 2) / q == 0) by (nonlinear_arith)
            requires
                q >= 8,
        ;
    }
}

} // verus!
