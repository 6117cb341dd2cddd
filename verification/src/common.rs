//! Enumerations and small containers shared across the encoder.
use crate::bits::ilog2;
use vstd::arithmetic::power2::pow2;
use vstd::prelude::*;

verus! {

/// The coding type of a slice.
#[derive(Clone, Copy, PartialEq, Eq, Structural, Debug)]
pub enum SliceType {
    B,
    P,
    I,
}

/// The chroma sampling format.
#[derive(Clone, Copy, PartialEq, Eq, Structural, Debug)]
pub enum ChromaFormat {
    Monochrome,
    YCbCr420,
    YCbCr422,
    YCbCr444,
}

impl ChromaFormat {
    /// The value of `chroma_format_idc` for this format.
    pub open spec fn spec_value(self) -> usize {
        match self {
            ChromaFormat::Monochrome => 0,
            ChromaFormat::YCbCr420 => 1,
            ChromaFormat::YCbCr422 => 2,
            ChromaFormat::YCbCr444 => 3,
        }
    }

    /// The value of `chroma_format_idc` for this format.
    #[verifier::when_used_as_spec(spec_value)]
    pub fn value(self) -> (r: usize)
        ensures
            r == self.spec_value(),
    {
        match self {
            ChromaFormat::Monochrome => 0,
            ChromaFormat::YCbCr420 => 1,
            ChromaFormat::YCbCr422 => 2,
            ChromaFormat::YCbCr444 => 3,
        }
    }
}

/// The split of a coding tree node.
#[derive(Clone, Copy, PartialEq, Eq, Structural, Debug)]
#[allow(non_camel_case_types)]
pub enum MttSplitMode {
    SPLIT_NONE,
    SPLIT_BT_VER,
    SPLIT_BT_HOR,
    SPLIT_TT_VER,
    SPLIT_TT_HOR,
    SPLIT_QT,
}

impl MttSplitMode {
    /// A vertical binary or ternary split.
    pub fn _is_ver(&self) -> (r: bool)
        ensures
            r == (*self == MttSplitMode::SPLIT_BT_VER || *self == MttSplitMode::SPLIT_TT_VER),
    {
        *self == Self::SPLIT_BT_VER || *self == Self::SPLIT_TT_VER
    }

    /// A horizontal binary or ternary split.
    pub fn _is_hor(&self) -> (r: bool)
        ensures
            r == (*self == MttSplitMode::SPLIT_BT_HOR || *self == MttSplitMode::SPLIT_TT_HOR),
    {
        *self == Self::SPLIT_BT_HOR || *self == Self::SPLIT_TT_HOR
    }

    /// A binary split.
    pub fn is_bt(&self) -> (r: bool)
        ensures
            r == (*self == MttSplitMode::SPLIT_BT_VER || *self == MttSplitMode::SPLIT_BT_HOR),
    {
        *self == Self::SPLIT_BT_VER || *self == Self::SPLIT_BT_HOR
    }

    /// A ternary split.
    pub fn is_tt(&self) -> (r: bool)
        ensures
            r == (*self == MttSplitMode::SPLIT_TT_VER || *self == MttSplitMode::SPLIT_TT_HOR),
    {
        *self == Self::SPLIT_TT_VER || *self == Self::SPLIT_TT_HOR
    }
}

/// The prediction mode of a coding unit, or the modes allowed in a coding tree.
#[derive(Clone, Copy, PartialEq, Eq, Structural, Debug)]
#[allow(non_camel_case_types)]
pub enum ModeType {
    MODE_INTRA,
    MODE_IBC,
    MODE_PLT,
    MODE_INTER,
    MODE_TYPE_ALL,
    MODE_TYPE_INTRA,
    MODE_TYPE_INTER,
}

impl ModeType {
    /// The numeric value of this mode.
    pub open spec fn spec_value(self) -> usize {
        match self {
            ModeType::MODE_INTRA => 0,
            ModeType::MODE_IBC => 1,
            ModeType::MODE_PLT => 2,
            ModeType::MODE_INTER => 3,
            ModeType::MODE_TYPE_ALL => 4,
            ModeType::MODE_TYPE_INTRA => 6,
            ModeType::MODE_TYPE_INTER => 7,
        }
    }

    /// The numeric value of this mode.
    #[verifier::when_used_as_spec(spec_value)]
    pub fn value(self) -> (r: usize)
        ensures
            r == self.spec_value(),
    {
        match self {
            ModeType::MODE_INTRA => 0,
            ModeType::MODE_IBC => 1,
            ModeType::MODE_PLT => 2,
            ModeType::MODE_INTER => 3,
            ModeType::MODE_TYPE_ALL => 4,
            ModeType::MODE_TYPE_INTRA => 6,
            ModeType::MODE_TYPE_INTER => 7,
        }
    }
}

/// An intra prediction mode.
#[derive(Clone, Copy, PartialEq, Eq, Structural, Debug)]
#[allow(non_camel_case_types)]
pub enum IntraPredMode {
    PLANAR,
    DC,
    ANGULAR2,
    ANGULAR3,
    ANGULAR4,
    ANGULAR5,
    ANGULAR6,
    ANGULAR7,
    ANGULAR8,
    ANGULAR9,
    ANGULAR10,
    ANGULAR11,
    ANGULAR12,
    ANGULAR13,
    ANGULAR14,
    ANGULAR15,
    ANGULAR16,
    ANGULAR17,
    ANGULAR18,
    ANGULAR19,
    ANGULAR20,
    ANGULAR21,
    ANGULAR22,
    ANGULAR23,
    ANGULAR24,
    ANGULAR25,
    ANGULAR26,
    ANGULAR27,
    ANGULAR28,
    ANGULAR29,
    ANGULAR30,
    ANGULAR31,
    ANGULAR32,
    ANGULAR33,
    ANGULAR34,
    ANGULAR35,
    ANGULAR36,
    ANGULAR37,
    ANGULAR38,
    ANGULAR39,
    ANGULAR40,
    ANGULAR41,
    ANGULAR42,
    ANGULAR43,
    ANGULAR44,
    ANGULAR45,
    ANGULAR46,
    ANGULAR47,
    ANGULAR48,
    ANGULAR49,
    ANGULAR50,
    ANGULAR51,
    ANGULAR52,
    ANGULAR53,
    ANGULAR54,
    ANGULAR55,
    ANGULAR56,
    ANGULAR57,
    ANGULAR58,
    ANGULAR59,
    ANGULAR60,
    ANGULAR61,
    ANGULAR62,
    ANGULAR63,
    ANGULAR64,
    ANGULAR65,
    ANGULAR66,
    LT_CCLM,
    L_CCLM,
    T_CCLM,
}

impl IntraPredMode {
    /// The number of this mode.
    pub open spec fn spec_value(self) -> usize {
        match self {
            IntraPredMode::PLANAR => 0,
            IntraPredMode::DC => 1,
            IntraPredMode::ANGULAR2 => 2,
            IntraPredMode::ANGULAR3 => 3,
            IntraPredMode::ANGULAR4 => 4,
            IntraPredMode::ANGULAR5 => 5,
            IntraPredMode::ANGULAR6 => 6,
            IntraPredMode::ANGULAR7 => 7,
            IntraPredMode::ANGULAR8 => 8,
            IntraPredMode::ANGULAR9 => 9,
            IntraPredMode::ANGULAR10 => 10,
            IntraPredMode::ANGULAR11 => 11,
            IntraPredMode::ANGULAR12 => 12,
            IntraPredMode::ANGULAR13 => 13,
            IntraPredMode::ANGULAR14 => 14,
            IntraPredMode::ANGULAR15 => 15,
            IntraPredMode::ANGULAR16 => 16,
            IntraPredMode::ANGULAR17 => 17,
            IntraPredMode::ANGULAR18 => 18,
            IntraPredMode::ANGULAR19 => 19,
            IntraPredMode::ANGULAR20 => 20,
            IntraPredMode::ANGULAR21 => 21,
            IntraPredMode::ANGULAR22 => 22,
            IntraPredMode::ANGULAR23 => 23,
            IntraPredMode::ANGULAR24 => 24,
            IntraPredMode::ANGULAR25 => 25,
            IntraPredMode::ANGULAR26 => 26,
            IntraPredMode::ANGULAR27 => 27,
            IntraPredMode::ANGULAR28 => 28,
            IntraPredMode::ANGULAR29 => 29,
            IntraPredMode::ANGULAR30 => 30,
            IntraPredMode::ANGULAR31 => 31,
            IntraPredMode::ANGULAR32 => 32,
            IntraPredMode::ANGULAR33 => 33,
            IntraPredMode::ANGULAR34 => 34,
            IntraPredMode::ANGULAR35 => 35,
            IntraPredMode::ANGULAR36 => 36,
            IntraPredMode::ANGULAR37 => 37,
            IntraPredMode::ANGULAR38 => 38,
            IntraPredMode::ANGULAR39 => 39,
            IntraPredMode::ANGULAR40 => 40,
            IntraPredMode::ANGULAR41 => 41,
            IntraPredMode::ANGULAR42 => 42,
            IntraPredMode::ANGULAR43 => 43,
            IntraPredMode::ANGULAR44 => 44,
            IntraPredMode::ANGULAR45 => 45,
            IntraPredMode::ANGULAR46 => 46,
            IntraPredMode::ANGULAR47 => 47,
            IntraPredMode::ANGULAR48 => 48,
            IntraPredMode::ANGULAR49 => 49,
            IntraPredMode::ANGULAR50 => 50,
            IntraPredMode::ANGULAR51 => 51,
            IntraPredMode::ANGULAR52 => 52,
            IntraPredMode::ANGULAR53 => 53,
            IntraPredMode::ANGULAR54 => 54,
            IntraPredMode::ANGULAR55 => 55,
            IntraPredMode::ANGULAR56 => 56,
            IntraPredMode::ANGULAR57 => 57,
            IntraPredMode::ANGULAR58 => 58,
            IntraPredMode::ANGULAR59 => 59,
            IntraPredMode::ANGULAR60 => 60,
            IntraPredMode::ANGULAR61 => 61,
            IntraPredMode::ANGULAR62 => 62,
            IntraPredMode::ANGULAR63 => 63,
            IntraPredMode::ANGULAR64 => 64,
            IntraPredMode::ANGULAR65 => 65,
            IntraPredMode::ANGULAR66 => 66,
            IntraPredMode::LT_CCLM => 81,
            IntraPredMode::L_CCLM => 82,
            IntraPredMode::T_CCLM => 83,
        }
    }

    /// The number of this mode.
    #[verifier::when_used_as_spec(spec_value)]
    pub fn value(self) -> (r: usize)
        ensures
            r == self.spec_value(),
    {
        match self {
            IntraPredMode::PLANAR => 0,
            IntraPredMode::DC => 1,
            IntraPredMode::ANGULAR2 => 2,
            IntraPredMode::ANGULAR3 => 3,
            IntraPredMode::ANGULAR4 => 4,
            IntraPredMode::ANGULAR5 => 5,
            IntraPredMode::ANGULAR6 => 6,
            IntraPredMode::ANGULAR7 => 7,
            IntraPredMode::ANGULAR8 => 8,
            IntraPredMode::ANGULAR9 => 9,
            IntraPredMode::ANGULAR10 => 10,
            IntraPredMode::ANGULAR11 => 11,
            IntraPredMode::ANGULAR12 => 12,
            IntraPredMode::ANGULAR13 => 13,
            IntraPredMode::ANGULAR14 => 14,
            IntraPredMode::ANGULAR15 => 15,
            IntraPredMode::ANGULAR16 => 16,
            IntraPredMode::ANGULAR17 => 17,
            IntraPredMode::ANGULAR18 => 18,
            IntraPredMode::ANGULAR19 => 19,
            IntraPredMode::ANGULAR20 => 20,
            IntraPredMode::ANGULAR21 => 21,
            IntraPredMode::ANGULAR22 => 22,
            IntraPredMode::ANGULAR23 => 23,
            IntraPredMode::ANGULAR24 => 24,
            IntraPredMode::ANGULAR25 => 25,
            IntraPredMode::ANGULAR26 => 26,
            IntraPredMode::ANGULAR27 => 27,
            IntraPredMode::ANGULAR28 => 28,
            IntraPredMode::ANGULAR29 => 29,
            IntraPredMode::ANGULAR30 => 30,
            IntraPredMode::ANGULAR31 => 31,
            IntraPredMode::ANGULAR32 => 32,
            IntraPredMode::ANGULAR33 => 33,
            IntraPredMode::ANGULAR34 => 34,
            IntraPredMode::ANGULAR35 => 35,
            IntraPredMode::ANGULAR36 => 36,
            IntraPredMode::ANGULAR37 => 37,
            IntraPredMode::ANGULAR38 => 38,
            IntraPredMode::ANGULAR39 => 39,
            IntraPredMode::ANGULAR40 => 40,
            IntraPredMode::ANGULAR41 => 41,
            IntraPredMode::ANGULAR42 => 42,
            IntraPredMode::ANGULAR43 => 43,
            IntraPredMode::ANGULAR44 => 44,
            IntraPredMode::ANGULAR45 => 45,
            IntraPredMode::ANGULAR46 => 46,
            IntraPredMode::ANGULAR47 => 47,
            IntraPredMode::ANGULAR48 => 48,
            IntraPredMode::ANGULAR49 => 49,
            IntraPredMode::ANGULAR50 => 50,
            IntraPredMode::ANGULAR51 => 51,
            IntraPredMode::ANGULAR52 => 52,
            IntraPredMode::ANGULAR53 => 53,
            IntraPredMode::ANGULAR54 => 54,
            IntraPredMode::ANGULAR55 => 55,
            IntraPredMode::ANGULAR56 => 56,
            IntraPredMode::ANGULAR57 => 57,
            IntraPredMode::ANGULAR58 => 58,
            IntraPredMode::ANGULAR59 => 59,
            IntraPredMode::ANGULAR60 => 60,
            IntraPredMode::ANGULAR61 => 61,
            IntraPredMode::ANGULAR62 => 62,
            IntraPredMode::ANGULAR63 => 63,
            IntraPredMode::ANGULAR64 => 64,
            IntraPredMode::ANGULAR65 => 65,
            IntraPredMode::ANGULAR66 => 66,
            IntraPredMode::LT_CCLM => 81,
            IntraPredMode::L_CCLM => 82,
            IntraPredMode::T_CCLM => 83,
        }
    }

    /// The mode numbered `v`, if there is one.
    pub fn from_usize(v: usize) -> (r: Option<IntraPredMode>)
        ensures
            r matches Some(m) ==> m.spec_value() == v,
            r is None <==> !((v <= 66) || (81 <= v <= 83)),
    {
        match v {
            0 => Some(IntraPredMode::PLANAR),
            1 => Some(IntraPredMode::DC),
            2 => Some(IntraPredMode::ANGULAR2),
            3 => Some(IntraPredMode::ANGULAR3),
            4 => Some(IntraPredMode::ANGULAR4),
            5 => Some(IntraPredMode::ANGULAR5),
            6 => Some(IntraPredMode::ANGULAR6),
            7 => Some(IntraPredMode::ANGULAR7),
            8 => Some(IntraPredMode::ANGULAR8),
            9 => Some(IntraPredMode::ANGULAR9),
            10 => Some(IntraPredMode::ANGULAR10),
            11 => Some(IntraPredMode::ANGULAR11),
            12 => Some(IntraPredMode::ANGULAR12),
            13 => Some(IntraPredMode::ANGULAR13),
            14 => Some(IntraPredMode::ANGULAR14),
            15 => Some(IntraPredMode::ANGULAR15),
            16 => Some(IntraPredMode::ANGULAR16),
            17 => Some(IntraPredMode::ANGULAR17),
            18 => Some(IntraPredMode::ANGULAR18),
            19 => Some(IntraPredMode::ANGULAR19),
            20 => Some(IntraPredMode::ANGULAR20),
            21 => Some(IntraPredMode::ANGULAR21),
            22 => Some(IntraPredMode::ANGULAR22),
            23 => Some(IntraPredMode::ANGULAR23),
            24 => Some(IntraPredMode::ANGULAR24),
            25 => Some(IntraPredMode::ANGULAR25),
            26 => Some(IntraPredMode::ANGULAR26),
            27 => Some(IntraPredMode::ANGULAR27),
            28 => Some(IntraPredMode::ANGULAR28),
            29 => Some(IntraPredMode::ANGULAR29),
            30 => Some(IntraPredMode::ANGULAR30),
            31 => Some(IntraPredMode::ANGULAR31),
            32 => Some(IntraPredMode::ANGULAR32),
            33 => Some(IntraPredMode::ANGULAR33),
            34 => Some(IntraPredMode::ANGULAR34),
            35 => Some(IntraPredMode::ANGULAR35),
            36 => Some(IntraPredMode::ANGULAR36),
            37 => Some(IntraPredMode::ANGULAR37),
            38 => Some(IntraPredMode::ANGULAR38),
            39 => Some(IntraPredMode::ANGULAR39),
            40 => Some(IntraPredMode::ANGULAR40),
            41 => Some(IntraPredMode::ANGULAR41),
            42 => Some(IntraPredMode::ANGULAR42),
            43 => Some(IntraPredMode::ANGULAR43),
            44 => Some(IntraPredMode::ANGULAR44),
            45 => Some(IntraPredMode::ANGULAR45),
            46 => Some(IntraPredMode::ANGULAR46),
            47 => Some(IntraPredMode::ANGULAR47),
            48 => Some(IntraPredMode::ANGULAR48),
            49 => Some(IntraPredMode::ANGULAR49),
            50 => Some(IntraPredMode::ANGULAR50),
            51 => Some(IntraPredMode::ANGULAR51),
            52 => Some(IntraPredMode::ANGULAR52),
            53 => Some(IntraPredMode::ANGULAR53),
            54 => Some(IntraPredMode::ANGULAR54),
            55 => Some(IntraPredMode::ANGULAR55),
            56 => Some(IntraPredMode::ANGULAR56),
            57 => Some(IntraPredMode::ANGULAR57),
            58 => Some(IntraPredMode::ANGULAR58),
            59 => Some(IntraPredMode::ANGULAR59),
            60 => Some(IntraPredMode::ANGULAR60),
            61 => Some(IntraPredMode::ANGULAR61),
            62 => Some(IntraPredMode::ANGULAR62),
            63 => Some(IntraPredMode::ANGULAR63),
            64 => Some(IntraPredMode::ANGULAR64),
            65 => Some(IntraPredMode::ANGULAR65),
            66 => Some(IntraPredMode::ANGULAR66),
            81 => Some(IntraPredMode::LT_CCLM),
            82 => Some(IntraPredMode::L_CCLM),
            83 => Some(IntraPredMode::T_CCLM),
            _ => None,
        }
    }
}

/// The inter prediction direction.
#[derive(Clone, Copy, PartialEq, Eq, Structural, Debug)]
#[allow(non_camel_case_types)]
pub enum InterPredMode {
    PRED_L0,
    PRED_L1,
    PRED_BI,
}

/// The split of an intra sub-partition coding unit.
#[derive(Clone, Copy, PartialEq, Eq, Structural, Debug)]
#[allow(non_camel_case_types)]
pub enum IntraSubpartitionsSplitType {
    ISP_NO_SPLIT,
    ISP_HOR_SPLIT,
    ISP_VER_SPLIT,
}

/// Whether luma and chroma share one coding tree.
#[derive(Clone, Copy, PartialEq, Eq, Structural, Debug)]
#[allow(non_camel_case_types)]
pub enum TreeType {
    SINGLE_TREE,
    DUAL_TREE_LUMA,
    DUAL_TREE_CHROMA,
}

/// A conformance or scaling window, as offsets from the picture edges.
pub struct WindowOffset {
    pub left_offset: isize,
    pub right_offset: isize,
    pub top_offset: isize,
    pub bottom_offset: isize,
}

impl WindowOffset {
    /// A window covering the whole picture.
    pub fn new() -> (r: WindowOffset)
        ensures
            r.left_offset == 0,
            r.right_offset == 0,
            r.top_offset == 0,
            r.bottom_offset == 0,
    {
        WindowOffset { left_offset: 0, right_offset: 0, top_offset: 0, bottom_offset: 0 }
    }
}

/// The kind of parameters an adaptation parameter set carries.
#[derive(Clone, Copy, PartialEq, Eq, Structural, Debug)]
#[allow(non_camel_case_types)]
pub enum ApsParamsType {
    ALF_APS,
    LMCS_APS,
    SCALING_APS,
}

impl ApsParamsType {
    /// The value of `aps_params_type` for this kind.
    pub open spec fn spec_value(self) -> u64 {
        match self {
            ApsParamsType::ALF_APS => 0,
            ApsParamsType::LMCS_APS => 1,
            ApsParamsType::SCALING_APS => 2,
        }
    }

    /// The value of `aps_params_type` for this kind.
    #[verifier::when_used_as_spec(spec_value)]
    pub fn value(self) -> (r: u64)
        ensures
            r == self.spec_value(),
    {
        match self {
            ApsParamsType::ALF_APS => 0,
            ApsParamsType::LMCS_APS => 1,
            ApsParamsType::SCALING_APS => 2,
        }
    }
}

/// A two-dimensional array stored row by row, each row starting at a multiple of a
/// power-of-two stride.
pub struct Vec2d<T> {
    pub data: Vec<T>,
    pub height: usize,
    pub width: usize,
    pub log2_stride: usize,
}

impl<T> Vec2d<T> {
    /// The distance between the starts of two consecutive rows.
    pub open spec fn stride(self) -> nat {
        pow2(self.log2_stride as nat)
    }

    /// Every row fits in its stride and the storage holds `height` strides.
    pub open spec fn wf(self) -> bool {
        &&& self.log2_stride < usize::BITS
        &&& self.width <= self.stride()
        &&& self.data@.len() == self.height * self.stride()
    }

    /// The element in row `y` and column `x`.
    pub open spec fn at(self, y: int, x: int) -> T {
        self.data@[y * self.stride() + x]
    }
}

proof fn lemma_row_offset(y: int, x: int, height: int, width: int, stride: int)
    requires
        0 <= y < height,
        0 <= x < width <= stride,
    ensures
        0 <= y * stride + x < height * stride,
{
    assert(y * stride + x < height * stride) by (nonlinear_arith)
        requires
            0 <= y < height,
            0 <= x < stride,
    ;
    assert(0 <= y * stride) by (nonlinear_arith)
        requires
            0 <= y,
            0 <= stride,
    ;
}

impl<T: Copy> Vec2d<T> {
    /// A `height` by `width` array filled with `v`, its stride the least power of
    /// two not below `width`.
    pub fn new(v: T, height: usize, width: usize) -> (r: Vec2d<T>)
        requires
            width >= 1,
            2 * width <= usize::MAX,
            2 * width * height <= usize::MAX,
        ensures
            r.wf(),
            r.height == height,
            r.width == width,
            r.stride() < 2 * width,
            r.data@ == Seq::new(r.data@.len(), |i: int| v),
    {
        let log2_stride = ilog2(width * 2 - 1) as usize;
        proof {
            crate::bits::lemma_pow2_usize_bits();
            if log2_stride >= usize::BITS {
                if log2_stride > usize::BITS {
                    vstd::arithmetic::power2::lemma_pow2_strictly_increases(usize::BITS as nat, log2_stride as nat);
                }
            }
            vstd::arithmetic::power2::lemma_pow2_unfold((log2_stride + 1) as nat);
            assert(pow2(log2_stride as nat) * height <= (2 * width - 1) * height) by (nonlinear_arith)
                requires
                    pow2(log2_stride as nat) <= 2 * width - 1,
            ;
            vstd::arithmetic::mul::lemma_mul_is_commutative(pow2(log2_stride as nat) as int, height as int);
            assert((2 * width - 1) * height <= 2 * width * height) by (nonlinear_arith);
            vstd::bits::lemma_usize_pow2_no_overflow(log2_stride as nat);
            vstd::bits::lemma_usize_shl_is_mul(height, log2_stride);
        }
        let n = height << log2_stride;
        let mut data: Vec<T> = Vec::new();
        let mut i: usize = 0;
        while i < n
            invariant
                i <= n,
                data@ =~= Seq::new(i as nat, |k: int| v),
            decreases n - i,
        {
            data.push(v);
            i += 1;
        }
        Vec2d { data, height, width, log2_stride }
    }

    /// Sets every element to `v`.
    pub fn _fill(&mut self, v: T)
        ensures
            final(self).data@ == Seq::new(old(self).data@.len(), |i: int| v),
            final(self).height == old(self).height,
            final(self).width == old(self).width,
            final(self).log2_stride == old(self).log2_stride,
    {
        let mut i: usize = 0;
        while i < self.data.len()
            invariant
                i <= self.data@.len(),
                self.data@.len() == old(self).data@.len(),
                self.height == old(self).height,
                self.width == old(self).width,
                self.log2_stride == old(self).log2_stride,
                forall|k: int| 0 <= k < i ==> #[trigger] self.data@[k] == v,
            decreases self.data@.len() - i,
        {
            self.data.set(i, v);
            i += 1;
        }
        assert(self.data@ =~= Seq::new(old(self).data@.len(), |k: int| v));
    }

    /// The element in row `y` and column `x`.
    pub fn get(&self, y: usize, x: usize) -> (r: T)
        requires
            self.wf(),
            y < self.height,
            x < self.width,
        ensures
            r == self.at(y as int, x as int),
    {
        let len = self.data.len();
        proof {
            lemma_row_offset(y as int, x as int, self.height as int, self.width as int, self.stride() as int);
            vstd::bits::lemma_usize_shl_is_mul(y, self.log2_stride);
        }
        self.data[(y << self.log2_stride) + x]
    }

    /// Sets the element in row `y` and column `x` to `v`.
    pub fn set(&mut self, y: usize, x: usize, v: T)
        requires
            old(self).wf(),
            y < old(self).height,
            x < old(self).width,
        ensures
            final(self).wf(),
            final(self).height == old(self).height,
            final(self).width == old(self).width,
            final(self).log2_stride == old(self).log2_stride,
            final(self).data@ == old(self).data@.update(y * old(self).stride() + x, v),
    {
        let len = self.data.len();
        proof {
            lemma_row_offset(y as int, x as int, self.height as int, self.width as int, self.stride() as int);
            vstd::bits::lemma_usize_shl_is_mul(y, self.log2_stride);
        }
        let i = (y << self.log2_stride) + x;
        self.data.set(i, v);
    }
}

/// Reading an element gives back what was last written there, and writing one
/// element leaves every other in place: `new` is `old` after writing `v` at row `y`,
/// column `x`.
pub proof fn law_vec2d_read_after_write<T>(old: Vec2d<T>, new: Vec2d<T>, y: int, x: int, v: T)
    requires
        old.wf(),
        0 <= y < old.height,
        0 <= x < old.width,
        new.height == old.height && new.width == old.width && new.log2_stride == old.log2_stride,
        new.data@ == old.data@.update(y * old.stride() + x, v),
    ensures
        forall|r: int, c: int|
            0 <= r < new.height && 0 <= c < new.width ==> #[trigger] new.at(r, c) == if r == y && c == x {
                v
            } else {
                old.at(r, c)
            },
{
    let s = old.stride() as int;
    let j = y * s + x;
    assert(0 <= j < old.height * s) by (nonlinear_arith)
        requires
            0 <= y < old.height,
            0 <= x < s,
            j == y * s + x,
    ;
    assert forall|r: int, c: int| 0 <= r < new.height && 0 <= c < new.width implies #[trigger] new.at(r, c) == if r == y && c == x {
        v
    } else {
        old.at(r, c)
    } by {
        let i = r * s + c;
        assert(0 <= i < old.height * s) by (nonlinear_arith)
            requires
                0 <= r < old.height,
                0 <= c < s,
                i == r * s + c,
        ;
        if r != y {
            assert(i != j) by (nonlinear_arith)
                requires
                    r != y,
                    0 <= c < s,
                    0 <= x < s,
                    i == r * s + c,
                    j == y * s + x,
            ;
        }
        assert(new.at(r, c) == new.data@[i]);
        assert(old.at(r, c) == old.data@[i]);
    }
}

/// The sum of the first `n` products `a[i] * b[i]`.
pub open spec fn dot(a: Seq<int>, b: Seq<int>, n: int) -> int
    decreases n,
{
    if n <= 0 {
        0
    } else {
        dot(a, b, n - 1) + a[n - 1] * b[n - 1]
    }
}

/// The values of a slice of `i16` as integers.
pub open spec fn ints16(v: Seq<i16>) -> Seq<int> {
    v.map_values(|x: i16| x as int)
}

/// The values of a slice of `i32` as integers.
pub open spec fn ints32(v: Seq<i32>) -> Seq<int> {
    v.map_values(|x: i32| x as int)
}

fn dot_i16_i16(v0: &[i16], v1: &[i16], n: usize) -> (r: i32)
    requires
        n <= 64,
        v0@.len() >= n,
        v1@.len() >= n,
    ensures
        r == dot(ints16(v0@), ints16(v1@), n as int) as i32,
{
    let mut acc: i64 = 0;
    let mut i: usize = 0;
    while i < n
        invariant
            i <= n <= 64,
            v0@.len() >= n,
            v1@.len() >= n,
            acc == dot(ints16(v0@), ints16(v1@), i as int),
            -(i * 0x4000_0000) <= acc <= i * 0x4000_0000,
        decreases n - i,
    {
        let a = v0[i] as i64;
        let b = v1[i] as i64;
        assert(-0x4000_0000 <= a * b <= 0x4000_0000) by (nonlinear_arith)
            requires
                -0x8000 <= a <= 0x7fff,
                -0x8000 <= b <= 0x7fff,
        ;
        acc = acc + a * b;
        i += 1;
    }
    acc as i32
}

fn dot_i16_i32(v0: &[i16], v1: &[i32], n: usize) -> (r: i32)
    requires
        n <= 1024,
        v0@.len() >= n,
        v1@.len() >= n,
    ensures
        r == dot(ints16(v0@), ints32(v1@), n as int) as i32,
{
    let mut acc: i64 = 0;
    let mut i: usize = 0;
    while i < n
        invariant
            i <= n <= 1024,
            v0@.len() >= n,
            v1@.len() >= n,
            acc == dot(ints16(v0@), ints32(v1@), i as int),
            -(i * 0x4000_0000_0000) <= acc <= i * 0x4000_0000_0000,
        decreases n - i,
    {
        let a = v0[i] as i64;
        let b = v1[i] as i64;
        assert(-0x4000_0000_0000 <= a * b <= 0x4000_0000_0000) by (nonlinear_arith)
            requires
                -0x8000 <= a <= 0x7fff,
                -0x8000_0000 <= b <= 0x7fff_ffff,
        ;
        acc = acc + a * b;
        i += 1;
    }
    acc as i32
}

/// The sum of the products of the first 8 elements, in 32-bit wrapping arithmetic.
pub fn msum_8_i16_le_i9(v0: &[i16], v1: &[i16]) -> (r: i32)
    requires
        v0@.len() >= 8,
        v1@.len() >= 8,
    ensures
        r == dot(ints16(v0@), ints16(v1@), 8) as i32,
{
    dot_i16_i16(v0, v1, 8)
}

/// The sum of the products of the first 16 elements, in 32-bit wrapping arithmetic.
pub fn msum_16x1_i16_le_i9(v0: &[i16], v1: &[i16]) -> (r: i32)
    requires
        v0@.len() >= 16,
        v1@.len() >= 16,
    ensures
        r == dot(ints16(v0@), ints16(v1@), 16) as i32,
{
    dot_i16_i16(v0, v1, 16)
}

/// The sum of the products of the first 32 elements, in 32-bit wrapping arithmetic.
pub fn msum_16x2_i16_le_i9(v0: &[i16], v1: &[i16]) -> (r: i32)
    requires
        v0@.len() >= 32,
        v1@.len() >= 32,
    ensures
        r == dot(ints16(v0@), ints16(v1@), 32) as i32,
{
    dot_i16_i16(v0, v1, 32)
}

/// The sum of the products of the first 64 elements, in 32-bit wrapping arithmetic.
pub fn msum_16x4_i16_le_i9(v0: &[i16], v1: &[i16]) -> (r: i32)
    requires
        v0@.len() >= 64,
        v1@.len() >= 64,
    ensures
        r == dot(ints16(v0@), ints16(v1@), 64) as i32,
{
    dot_i16_i16(v0, v1, 64)
}

/// The sum of the products of all elements of `v0` (a multiple of 8 of them) with
/// those of `v1`, in 32-bit wrapping arithmetic.
pub fn _msum_8xN_i16_i32(v0: &[i16], v1: &[i32]) -> (r: i32)
    requires
        8 <= v0@.len() <= 1024,
        v0@.len() % 8 == 0,
        v1@.len() >= v0@.len(),
    ensures
        r == dot(ints16(v0@), ints32(v1@), v0@.len() as int) as i32,
{
    dot_i16_i32(v0, v1, v0.len())
}

/// The sum of the products of the first 8 elements, in 32-bit wrapping arithmetic.
pub fn msum_8x1_i16_i32_le_i9_i17(v0: &[i16], v1: &[i32]) -> (r: i32)
    requires
        v0@.len() >= 8,
        v1@.len() >= 8,
    ensures
        r == dot(ints16(v0@), ints32(v1@), 8) as i32,
{
    dot_i16_i32(v0, v1, 8)
}

/// The sum of the products of the first 16 elements, in 32-bit wrapping arithmetic.
pub fn msum_8x2_i16_i32_le_i9_i17(v0: &[i16], v1: &[i32]) -> (r: i32)
    requires
        v0@.len() >= 16,
        v1@.len() >= 16,
    ensures
        r == dot(ints16(v0@), ints32(v1@), 16) as i32,
{
    dot_i16_i32(v0, v1, 16)
}

/// The sum of the products of the first 32 elements, in 32-bit wrapping arithmetic.
pub fn msum_8x4_i16_i32_le_i9_i17(v0: &[i16], v1: &[i32]) -> (r: i32)
    requires
        v0@.len() >= 32,
        v1@.len() >= 32,
    ensures
        r == dot(ints16(v0@), ints32(v1@), 32) as i32,
{
    dot_i16_i32(v0, v1, 32)
}

/// The sum of the products of the first 64 elements, in 32-bit wrapping arithmetic.
pub fn msum_8x8_i16_i32_le_i9_i17(v0: &[i16], v1: &[i32]) -> (r: i32)
    requires
        v0@.len() >= 64,
        v1@.len() >= 64,
    ensures
        r == dot(ints16(v0@), ints32(v1@), 64) as i32,
{
    dot_i16_i32(v0, v1, 64)
}

} // verus!
