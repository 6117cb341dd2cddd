//! The context variables of CABAC: their names, binarization processes,
//! initialization values, adaptation rates and context index increments.
use vstd::prelude::*;

verus! {

/// How a syntax element's value is binarized.
#[derive(Clone, Copy, PartialEq, Eq, Structural, Debug)]
pub enum BinProcess {
    /// Fixed length, with the largest value.
    FL(usize),
    /// Truncated Rice, with the largest value and the Rice parameter.
    TR(usize, usize),
    /// Truncated binary, with the largest value.
    TB(usize),
    /// k-th order Exp-Golomb, with k.
    EG(usize),
    /// A binarization of its own, given elsewhere.
    ETC,
}

/// The syntax elements coded with CABAC.
#[derive(Clone, Copy, PartialEq, Eq, Structural, Debug)]
pub enum CabacContext {
    AlfCtbFlag,
    AlfUseApsFlag,
    AlfCtbCcCbIdc,
    AlfCtbCcCrIdc,
    AlfLumaFixedFilterIdx,
    AlfLumaPrevFilterIdx,
    AlfCtbFilterAltIdx,
    AlfSaoMergeLeftFlag,
    AlfSaoMergeUpFlag,
    AlfSaoTypeIdxLuma,
    AlfSaoTypeIdxChroma,
    SaoOffsetAbs,
    SaoOffsetSignFlag,
    SaoBandPosition,
    SaoEoClassLuma,
    SaoEoClassChroma,
    SplitCuFlag,
    SplitQtFlag,
    MttSplitCuVerticalFlag,
    MttSplitCuBinaryFlag,
    NonInterFlag,
    CuSkipFlag,
    PredModeIbcFlag,
    PredModeFlag,
    PredModePltFlag,
    CuActEnabledFlag,
    IntraBdpcmLumaFlag,
    IntraBdpcmLumaDirFlag,
    IntraMipFlag,
    IntraMipTransposedFlag,
    IntraMipMode,
    IntraLumaRefIdx,
    IntraSubpartitionsModeFlag,
    IntraSubpartitionsSplitFlag,
    IntraLumaMpmFlag,
    IntraLumaNotPlanarFlag,
    IntraLumaMpmIdx,
    IntraLumaMpmRemainder,
    IntraBdpcmChromaFlag,
    IntraBdpcmChromaDirFlag,
    CclmModeFlag,
    CclmModeIdx,
    IntraChromaPredMode,
    PalettePredictorRun,
    NumSignalledPaletteEntries,
    NewPaletteEntries,
    PaletteEscapeValPresentFlag,
    PaletteIdxIdc,
    PaletteEscapeVal,
    GeneralMergeFlag,
    InterPredIdc,
    InterAffineFlag,
    CuAffineTypeFlag,
    SymMvdFlag,
    RefIdxL0,
    RefIdxL1,
    MvpL0Flag,
    MvpL1Flag,
    AmvrFlag,
    AmvrPrecisionIdx,
    BcwIdx,
    CuCodedFlag,
    CuSbtFlag,
    CuSbtQuadFlag,
    CuSbtHorizontalFlag,
    CuSbtPosFlag,
    LfnstIdx,
    MtsIdx,
    CopyAbovePaletteIndicesFlag,
    PaletteTransposeFlag,
    RunCopyFlag,
    RegularMergeFlag,
    MmvdMergeFlag,
    MmvdCandFlag,
    MmvdDistanceIdx,
    MmvdDirectionIdx,
    CiipFlag,
    MergeSubblockFlag,
    MergeSubblockIdx,
    MergeIdx,
    MergeGpmPartitionIdx,
    MergeGpmIdx0,
    MergeGpmIdx1,
    AbsMvdGreater0Flag,
    AbsMvdGreater1Flag,
    AbsMvd,
    MvdSignFlag,
    TuYCodedFlag,
    TuCbCodedFlag,
    TuCrCodedFlag,
    CuQpDeltaAbs,
    CuQpDeltaSignFlag,
    CuChromaQpOffsetFlag,
    CuChromaQpOffsetIdx,
    TransformSkipFlag,
    TuJointCbcrResidualFlag,
    LastSigCoeffXPrefix,
    LastSigCoeffYPrefix,
    LastSigCoeffXSuffix,
    LastSigCoeffYSuffix,
    SbCodedFlag,
    SigCoeffFlag,
    ParLevelFlag,
    AbsLevelGtxFlag,
    AbsRemainder,
    DecAbsLevel,
    CoeffSignFlag,
    EndOfSliceOneBit,
    EndOfTileOneBit,
    EndOfSubsetOneBit,
}

/// How the context index increment of one bin is found.
#[derive(Clone, Copy, PartialEq, Eq, Structural, Debug)]
pub enum CtxInc {
    Bypass,
    NA,
    Terminate,
    Number(usize),
    Invalid,
}

/// The number of context variables with initialization tables.
pub const NUM_CTX_TABLES: usize = 107;

impl CabacContext {
    /// The position of this syntax element in the tables.
    pub open spec fn spec_index(self) -> usize {
        match self {
            CabacContext::AlfCtbFlag => 0,
            CabacContext::AlfUseApsFlag => 1,
            CabacContext::AlfCtbCcCbIdc => 2,
            CabacContext::AlfCtbCcCrIdc => 3,
            CabacContext::AlfLumaFixedFilterIdx => 4,
            CabacContext::AlfLumaPrevFilterIdx => 5,
            CabacContext::AlfCtbFilterAltIdx => 6,
            CabacContext::AlfSaoMergeLeftFlag => 7,
            CabacContext::AlfSaoMergeUpFlag => 8,
            CabacContext::AlfSaoTypeIdxLuma => 9,
            CabacContext::AlfSaoTypeIdxChroma => 10,
            CabacContext::SaoOffsetAbs => 11,
            CabacContext::SaoOffsetSignFlag => 12,
            CabacContext::SaoBandPosition => 13,
            CabacContext::SaoEoClassLuma => 14,
            CabacContext::SaoEoClassChroma => 15,
            CabacContext::SplitCuFlag => 16,
            CabacContext::SplitQtFlag => 17,
            CabacContext::MttSplitCuVerticalFlag => 18,
            CabacContext::MttSplitCuBinaryFlag => 19,
            CabacContext::NonInterFlag => 20,
            CabacContext::CuSkipFlag => 21,
            CabacContext::PredModeIbcFlag => 22,
            CabacContext::PredModeFlag => 23,
            CabacContext::PredModePltFlag => 24,
            CabacContext::CuActEnabledFlag => 25,
            CabacContext::IntraBdpcmLumaFlag => 26,
            CabacContext::IntraBdpcmLumaDirFlag => 27,
            CabacContext::IntraMipFlag => 28,
            CabacContext::IntraMipTransposedFlag => 29,
            CabacContext::IntraMipMode => 30,
            CabacContext::IntraLumaRefIdx => 31,
            CabacContext::IntraSubpartitionsModeFlag => 32,
            CabacContext::IntraSubpartitionsSplitFlag => 33,
            CabacContext::IntraLumaMpmFlag => 34,
            CabacContext::IntraLumaNotPlanarFlag => 35,
            CabacContext::IntraLumaMpmIdx => 36,
            CabacContext::IntraLumaMpmRemainder => 37,
            CabacContext::IntraBdpcmChromaFlag => 38,
            CabacContext::IntraBdpcmChromaDirFlag => 39,
            CabacContext::CclmModeFlag => 40,
            CabacContext::CclmModeIdx => 41,
            CabacContext::IntraChromaPredMode => 42,
            CabacContext::PalettePredictorRun => 43,
            CabacContext::NumSignalledPaletteEntries => 44,
            CabacContext::NewPaletteEntries => 45,
            CabacContext::PaletteEscapeValPresentFlag => 46,
            CabacContext::PaletteIdxIdc => 47,
            CabacContext::PaletteEscapeVal => 48,
            CabacContext::GeneralMergeFlag => 49,
            CabacContext::InterPredIdc => 50,
            CabacContext::InterAffineFlag => 51,
            CabacContext::CuAffineTypeFlag => 52,
            CabacContext::SymMvdFlag => 53,
            CabacContext::RefIdxL0 => 54,
            CabacContext::RefIdxL1 => 55,
            CabacContext::MvpL0Flag => 56,
            CabacContext::MvpL1Flag => 57,
            CabacContext::AmvrFlag => 58,
            CabacContext::AmvrPrecisionIdx => 59,
            CabacContext::BcwIdx => 60,
            CabacContext::CuCodedFlag => 61,
            CabacContext::CuSbtFlag => 62,
            CabacContext::CuSbtQuadFlag => 63,
            CabacContext::CuSbtHorizontalFlag => 64,
            CabacContext::CuSbtPosFlag => 65,
            CabacContext::LfnstIdx => 66,
            CabacContext::MtsIdx => 67,
            CabacContext::CopyAbovePaletteIndicesFlag => 68,
            CabacContext::PaletteTransposeFlag => 69,
            CabacContext::RunCopyFlag => 70,
            CabacContext::RegularMergeFlag => 71,
            CabacContext::MmvdMergeFlag => 72,
            CabacContext::MmvdCandFlag => 73,
            CabacContext::MmvdDistanceIdx => 74,
            CabacContext::MmvdDirectionIdx => 75,
            CabacContext::CiipFlag => 76,
            CabacContext::MergeSubblockFlag => 77,
            CabacContext::MergeSubblockIdx => 78,
            CabacContext::MergeIdx => 79,
            CabacContext::MergeGpmPartitionIdx => 80,
            CabacContext::MergeGpmIdx0 => 81,
            CabacContext::MergeGpmIdx1 => 82,
            CabacContext::AbsMvdGreater0Flag => 83,
            CabacContext::AbsMvdGreater1Flag => 84,
            CabacContext::AbsMvd => 85,
            CabacContext::MvdSignFlag => 86,
            CabacContext::TuYCodedFlag => 87,
            CabacContext::TuCbCodedFlag => 88,
            CabacContext::TuCrCodedFlag => 89,
            CabacContext::CuQpDeltaAbs => 90,
            CabacContext::CuQpDeltaSignFlag => 91,
            CabacContext::CuChromaQpOffsetFlag => 92,
            CabacContext::CuChromaQpOffsetIdx => 93,
            CabacContext::TransformSkipFlag => 94,
            CabacContext::TuJointCbcrResidualFlag => 95,
            CabacContext::LastSigCoeffXPrefix => 96,
            CabacContext::LastSigCoeffYPrefix => 97,
            CabacContext::LastSigCoeffXSuffix => 98,
            CabacContext::LastSigCoeffYSuffix => 99,
            CabacContext::SbCodedFlag => 100,
            CabacContext::SigCoeffFlag => 101,
            CabacContext::ParLevelFlag => 102,
            CabacContext::AbsLevelGtxFlag => 103,
            CabacContext::AbsRemainder => 104,
            CabacContext::DecAbsLevel => 105,
            CabacContext::CoeffSignFlag => 106,
            CabacContext::EndOfSliceOneBit => 107,
            CabacContext::EndOfTileOneBit => 108,
            CabacContext::EndOfSubsetOneBit => 109,
        }
    }

    /// The position of this syntax element in the tables.
    #[verifier::when_used_as_spec(spec_index)]
    pub fn index(self) -> (r: usize)
        ensures
            r == self.spec_index(),
    {
        match self {
            CabacContext::AlfCtbFlag => 0,
            CabacContext::AlfUseApsFlag => 1,
            CabacContext::AlfCtbCcCbIdc => 2,
            CabacContext::AlfCtbCcCrIdc => 3,
            CabacContext::AlfLumaFixedFilterIdx => 4,
            CabacContext::AlfLumaPrevFilterIdx => 5,
            CabacContext::AlfCtbFilterAltIdx => 6,
            CabacContext::AlfSaoMergeLeftFlag => 7,
            CabacContext::AlfSaoMergeUpFlag => 8,
            CabacContext::AlfSaoTypeIdxLuma => 9,
            CabacContext::AlfSaoTypeIdxChroma => 10,
            CabacContext::SaoOffsetAbs => 11,
            CabacContext::SaoOffsetSignFlag => 12,
            CabacContext::SaoBandPosition => 13,
            CabacContext::SaoEoClassLuma => 14,
            CabacContext::SaoEoClassChroma => 15,
            CabacContext::SplitCuFlag => 16,
            CabacContext::SplitQtFlag => 17,
            CabacContext::MttSplitCuVerticalFlag => 18,
            CabacContext::MttSplitCuBinaryFlag => 19,
            CabacContext::NonInterFlag => 20,
            CabacContext::CuSkipFlag => 21,
            CabacContext::PredModeIbcFlag => 22,
            CabacContext::PredModeFlag => 23,
            CabacContext::PredModePltFlag => 24,
            CabacContext::CuActEnabledFlag => 25,
            CabacContext::IntraBdpcmLumaFlag => 26,
            CabacContext::IntraBdpcmLumaDirFlag => 27,
            CabacContext::IntraMipFlag => 28,
            CabacContext::IntraMipTransposedFlag => 29,
            CabacContext::IntraMipMode => 30,
            CabacContext::IntraLumaRefIdx => 31,
            CabacContext::IntraSubpartitionsModeFlag => 32,
            CabacContext::IntraSubpartitionsSplitFlag => 33,
            CabacContext::IntraLumaMpmFlag => 34,
            CabacContext::IntraLumaNotPlanarFlag => 35,
            CabacContext::IntraLumaMpmIdx => 36,
            CabacContext::IntraLumaMpmRemainder => 37,
            CabacContext::IntraBdpcmChromaFlag => 38,
            CabacContext::IntraBdpcmChromaDirFlag => 39,
            CabacContext::CclmModeFlag => 40,
            CabacContext::CclmModeIdx => 41,
            CabacContext::IntraChromaPredMode => 42,
            CabacContext::PalettePredictorRun => 43,
            CabacContext::NumSignalledPaletteEntries => 44,
            CabacContext::NewPaletteEntries => 45,
            CabacContext::PaletteEscapeValPresentFlag => 46,
            CabacContext::PaletteIdxIdc => 47,
            CabacContext::PaletteEscapeVal => 48,
            CabacContext::GeneralMergeFlag => 49,
            CabacContext::InterPredIdc => 50,
            CabacContext::InterAffineFlag => 51,
            CabacContext::CuAffineTypeFlag => 52,
            CabacContext::SymMvdFlag => 53,
            CabacContext::RefIdxL0 => 54,
            CabacContext::RefIdxL1 => 55,
            CabacContext::MvpL0Flag => 56,
            CabacContext::MvpL1Flag => 57,
            CabacContext::AmvrFlag => 58,
            CabacContext::AmvrPrecisionIdx => 59,
            CabacContext::BcwIdx => 60,
            CabacContext::CuCodedFlag => 61,
            CabacContext::CuSbtFlag => 62,
            CabacContext::CuSbtQuadFlag => 63,
            CabacContext::CuSbtHorizontalFlag => 64,
            CabacContext::CuSbtPosFlag => 65,
            CabacContext::LfnstIdx => 66,
            CabacContext::MtsIdx => 67,
            CabacContext::CopyAbovePaletteIndicesFlag => 68,
            CabacContext::PaletteTransposeFlag => 69,
            CabacContext::RunCopyFlag => 70,
            CabacContext::RegularMergeFlag => 71,
            CabacContext::MmvdMergeFlag => 72,
            CabacContext::MmvdCandFlag => 73,
            CabacContext::MmvdDistanceIdx => 74,
            CabacContext::MmvdDirectionIdx => 75,
            CabacContext::CiipFlag => 76,
            CabacContext::MergeSubblockFlag => 77,
            CabacContext::MergeSubblockIdx => 78,
            CabacContext::MergeIdx => 79,
            CabacContext::MergeGpmPartitionIdx => 80,
            CabacContext::MergeGpmIdx0 => 81,
            CabacContext::MergeGpmIdx1 => 82,
            CabacContext::AbsMvdGreater0Flag => 83,
            CabacContext::AbsMvdGreater1Flag => 84,
            CabacContext::AbsMvd => 85,
            CabacContext::MvdSignFlag => 86,
            CabacContext::TuYCodedFlag => 87,
            CabacContext::TuCbCodedFlag => 88,
            CabacContext::TuCrCodedFlag => 89,
            CabacContext::CuQpDeltaAbs => 90,
            CabacContext::CuQpDeltaSignFlag => 91,
            CabacContext::CuChromaQpOffsetFlag => 92,
            CabacContext::CuChromaQpOffsetIdx => 93,
            CabacContext::TransformSkipFlag => 94,
            CabacContext::TuJointCbcrResidualFlag => 95,
            CabacContext::LastSigCoeffXPrefix => 96,
            CabacContext::LastSigCoeffYPrefix => 97,
            CabacContext::LastSigCoeffXSuffix => 98,
            CabacContext::LastSigCoeffYSuffix => 99,
            CabacContext::SbCodedFlag => 100,
            CabacContext::SigCoeffFlag => 101,
            CabacContext::ParLevelFlag => 102,
            CabacContext::AbsLevelGtxFlag => 103,
            CabacContext::AbsRemainder => 104,
            CabacContext::DecAbsLevel => 105,
            CabacContext::CoeffSignFlag => 106,
            CabacContext::EndOfSliceOneBit => 107,
            CabacContext::EndOfTileOneBit => 108,
            CabacContext::EndOfSubsetOneBit => 109,
        }
    }
}

/// The binarization process of each syntax element.
pub open spec fn spec_ctx_to_bin_process(ctx: CabacContext) -> BinProcess {
    match ctx {
        CabacContext::AlfCtbFlag => BinProcess::FL(1),
        CabacContext::AlfUseApsFlag => BinProcess::FL(1),
        CabacContext::AlfCtbCcCbIdc => BinProcess::ETC,
        CabacContext::AlfCtbCcCrIdc => BinProcess::ETC,
        CabacContext::AlfLumaFixedFilterIdx => BinProcess::TB(15),
        CabacContext::AlfLumaPrevFilterIdx => BinProcess::ETC,
        CabacContext::AlfCtbFilterAltIdx => BinProcess::ETC,
        CabacContext::AlfSaoMergeLeftFlag => BinProcess::FL(1),
        CabacContext::AlfSaoMergeUpFlag => BinProcess::FL(1),
        CabacContext::AlfSaoTypeIdxLuma => BinProcess::TR(2, 0),
        CabacContext::AlfSaoTypeIdxChroma => BinProcess::TR(2, 0),
        CabacContext::SaoOffsetAbs => BinProcess::ETC,
        CabacContext::SaoOffsetSignFlag => BinProcess::FL(1),
        CabacContext::SaoBandPosition => BinProcess::FL(31),
        CabacContext::SaoEoClassLuma => BinProcess::FL(3),
        CabacContext::SaoEoClassChroma => BinProcess::FL(3),
        CabacContext::SplitCuFlag => BinProcess::FL(1),
        CabacContext::SplitQtFlag => BinProcess::FL(1),
        CabacContext::MttSplitCuVerticalFlag => BinProcess::FL(1),
        CabacContext::MttSplitCuBinaryFlag => BinProcess::FL(1),
        CabacContext::NonInterFlag => BinProcess::FL(1),
        CabacContext::CuSkipFlag => BinProcess::FL(1),
        CabacContext::PredModeIbcFlag => BinProcess::FL(1),
        CabacContext::PredModeFlag => BinProcess::FL(1),
        CabacContext::PredModePltFlag => BinProcess::FL(1),
        CabacContext::CuActEnabledFlag => BinProcess::FL(1),
        CabacContext::IntraBdpcmLumaFlag => BinProcess::FL(1),
        CabacContext::IntraBdpcmLumaDirFlag => BinProcess::FL(1),
        CabacContext::IntraMipFlag => BinProcess::FL(1),
        CabacContext::IntraMipTransposedFlag => BinProcess::FL(1),
        CabacContext::IntraMipMode => BinProcess::ETC,
        CabacContext::IntraLumaRefIdx => BinProcess::TR(2, 0),
        CabacContext::IntraSubpartitionsModeFlag => BinProcess::FL(1),
        CabacContext::IntraSubpartitionsSplitFlag => BinProcess::FL(1),
        CabacContext::IntraLumaMpmFlag => BinProcess::FL(1),
        CabacContext::IntraLumaNotPlanarFlag => BinProcess::FL(1),
        CabacContext::IntraLumaMpmIdx => BinProcess::TR(4, 0),
        CabacContext::IntraLumaMpmRemainder => BinProcess::TB(60),
        CabacContext::IntraBdpcmChromaFlag => BinProcess::FL(1),
        CabacContext::IntraBdpcmChromaDirFlag => BinProcess::FL(1),
        CabacContext::CclmModeFlag => BinProcess::FL(1),
        CabacContext::CclmModeIdx => BinProcess::TR(2, 0),
        CabacContext::IntraChromaPredMode => BinProcess::ETC,
        CabacContext::PalettePredictorRun => BinProcess::EG(0),
        CabacContext::NumSignalledPaletteEntries => BinProcess::EG(0),
        CabacContext::NewPaletteEntries => BinProcess::ETC,
        CabacContext::PaletteEscapeValPresentFlag => BinProcess::FL(1),
        CabacContext::PaletteIdxIdc => BinProcess::ETC,
        CabacContext::PaletteEscapeVal => BinProcess::EG(5),
        CabacContext::GeneralMergeFlag => BinProcess::FL(1),
        CabacContext::InterPredIdc => BinProcess::ETC,
        CabacContext::InterAffineFlag => BinProcess::FL(1),
        CabacContext::CuAffineTypeFlag => BinProcess::FL(1),
        CabacContext::SymMvdFlag => BinProcess::FL(1),
        CabacContext::RefIdxL0 => BinProcess::ETC,
        CabacContext::RefIdxL1 => BinProcess::ETC,
        CabacContext::MvpL0Flag => BinProcess::FL(1),
        CabacContext::MvpL1Flag => BinProcess::FL(1),
        CabacContext::AmvrFlag => BinProcess::FL(1),
        CabacContext::AmvrPrecisionIdx => BinProcess::ETC,
        CabacContext::BcwIdx => BinProcess::ETC,
        CabacContext::CuCodedFlag => BinProcess::FL(1),
        CabacContext::CuSbtFlag => BinProcess::FL(1),
        CabacContext::CuSbtQuadFlag => BinProcess::FL(1),
        CabacContext::CuSbtHorizontalFlag => BinProcess::FL(1),
        CabacContext::CuSbtPosFlag => BinProcess::FL(1),
        CabacContext::LfnstIdx => BinProcess::TR(2, 0),
        CabacContext::MtsIdx => BinProcess::TR(4, 0),
        CabacContext::CopyAbovePaletteIndicesFlag => BinProcess::FL(1),
        CabacContext::PaletteTransposeFlag => BinProcess::FL(1),
        CabacContext::RunCopyFlag => BinProcess::FL(1),
        CabacContext::RegularMergeFlag => BinProcess::FL(1),
        CabacContext::MmvdMergeFlag => BinProcess::FL(1),
        CabacContext::MmvdCandFlag => BinProcess::FL(1),
        CabacContext::MmvdDistanceIdx => BinProcess::TR(7, 0),
        CabacContext::MmvdDirectionIdx => BinProcess::FL(3),
        CabacContext::CiipFlag => BinProcess::FL(1),
        CabacContext::MergeSubblockFlag => BinProcess::FL(1),
        CabacContext::MergeSubblockIdx => BinProcess::ETC,
        CabacContext::MergeIdx => BinProcess::ETC,
        CabacContext::MergeGpmPartitionIdx => BinProcess::FL(63),
        CabacContext::MergeGpmIdx0 => BinProcess::ETC,
        CabacContext::MergeGpmIdx1 => BinProcess::ETC,
        CabacContext::AbsMvdGreater0Flag => BinProcess::FL(1),
        CabacContext::AbsMvdGreater1Flag => BinProcess::FL(1),
        CabacContext::AbsMvd => BinProcess::ETC,
        CabacContext::MvdSignFlag => BinProcess::FL(1),
        CabacContext::TuYCodedFlag => BinProcess::FL(1),
        CabacContext::TuCbCodedFlag => BinProcess::FL(1),
        CabacContext::TuCrCodedFlag => BinProcess::FL(1),
        CabacContext::CuQpDeltaAbs => BinProcess::ETC,
        CabacContext::CuQpDeltaSignFlag => BinProcess::FL(1),
        CabacContext::CuChromaQpOffsetFlag => BinProcess::FL(1),
        CabacContext::CuChromaQpOffsetIdx => BinProcess::ETC,
        CabacContext::TransformSkipFlag => BinProcess::FL(1),
        CabacContext::TuJointCbcrResidualFlag => BinProcess::FL(1),
        CabacContext::LastSigCoeffXPrefix => BinProcess::ETC,
        CabacContext::LastSigCoeffYPrefix => BinProcess::ETC,
        CabacContext::LastSigCoeffXSuffix => BinProcess::ETC,
        CabacContext::LastSigCoeffYSuffix => BinProcess::ETC,
        CabacContext::SbCodedFlag => BinProcess::FL(1),
        CabacContext::SigCoeffFlag => BinProcess::FL(1),
        CabacContext::ParLevelFlag => BinProcess::FL(1),
        CabacContext::AbsLevelGtxFlag => BinProcess::FL(1),
        CabacContext::AbsRemainder => BinProcess::ETC,
        CabacContext::DecAbsLevel => BinProcess::ETC,
        CabacContext::CoeffSignFlag => BinProcess::FL(1),
        CabacContext::EndOfSliceOneBit => BinProcess::FL(1),
        CabacContext::EndOfTileOneBit => BinProcess::FL(1),
        CabacContext::EndOfSubsetOneBit => BinProcess::FL(1),
    }
}

/// The binarization process of each syntax element.
#[verifier::when_used_as_spec(spec_ctx_to_bin_process)]
pub fn ctx_to_bin_process(ctx: CabacContext) -> (r: BinProcess)
    ensures
        r == spec_ctx_to_bin_process(ctx),
{
    match ctx {
        CabacContext::AlfCtbFlag => BinProcess::FL(1),
        CabacContext::AlfUseApsFlag => BinProcess::FL(1),
        CabacContext::AlfCtbCcCbIdc => BinProcess::ETC,
        CabacContext::AlfCtbCcCrIdc => BinProcess::ETC,
        CabacContext::AlfLumaFixedFilterIdx => BinProcess::TB(15),
        CabacContext::AlfLumaPrevFilterIdx => BinProcess::ETC,
        CabacContext::AlfCtbFilterAltIdx => BinProcess::ETC,
        CabacContext::AlfSaoMergeLeftFlag => BinProcess::FL(1),
        CabacContext::AlfSaoMergeUpFlag => BinProcess::FL(1),
        CabacContext::AlfSaoTypeIdxLuma => BinProcess::TR(2, 0),
        CabacContext::AlfSaoTypeIdxChroma => BinProcess::TR(2, 0),
        CabacContext::SaoOffsetAbs => BinProcess::ETC,
        CabacContext::SaoOffsetSignFlag => BinProcess::FL(1),
        CabacContext::SaoBandPosition => BinProcess::FL(31),
        CabacContext::SaoEoClassLuma => BinProcess::FL(3),
        CabacContext::SaoEoClassChroma => BinProcess::FL(3),
        CabacContext::SplitCuFlag => BinProcess::FL(1),
        CabacContext::SplitQtFlag => BinProcess::FL(1),
        CabacContext::MttSplitCuVerticalFlag => BinProcess::FL(1),
        CabacContext::MttSplitCuBinaryFlag => BinProcess::FL(1),
        CabacContext::NonInterFlag => BinProcess::FL(1),
        CabacContext::CuSkipFlag => BinProcess::FL(1),
        CabacContext::PredModeIbcFlag => BinProcess::FL(1),
        CabacContext::PredModeFlag => BinProcess::FL(1),
        CabacContext::PredModePltFlag => BinProcess::FL(1),
        CabacContext::CuActEnabledFlag => BinProcess::FL(1),
        CabacContext::IntraBdpcmLumaFlag => BinProcess::FL(1),
        CabacContext::IntraBdpcmLumaDirFlag => BinProcess::FL(1),
        CabacContext::IntraMipFlag => BinProcess::FL(1),
        CabacContext::IntraMipTransposedFlag => BinProcess::FL(1),
        CabacContext::IntraMipMode => BinProcess::ETC,
        CabacContext::IntraLumaRefIdx => BinProcess::TR(2, 0),
        CabacContext::IntraSubpartitionsModeFlag => BinProcess::FL(1),
        CabacContext::IntraSubpartitionsSplitFlag => BinProcess::FL(1),
        CabacContext::IntraLumaMpmFlag => BinProcess::FL(1),
        CabacContext::IntraLumaNotPlanarFlag => BinProcess::FL(1),
        CabacContext::IntraLumaMpmIdx => BinProcess::TR(4, 0),
        CabacContext::IntraLumaMpmRemainder => BinProcess::TB(60),
        CabacContext::IntraBdpcmChromaFlag => BinProcess::FL(1),
        CabacContext::IntraBdpcmChromaDirFlag => BinProcess::FL(1),
        CabacContext::CclmModeFlag => BinProcess::FL(1),
        CabacContext::CclmModeIdx => BinProcess::TR(2, 0),
        CabacContext::IntraChromaPredMode => BinProcess::ETC,
        CabacContext::PalettePredictorRun => BinProcess::EG(0),
        CabacContext::NumSignalledPaletteEntries => BinProcess::EG(0),
        CabacContext::NewPaletteEntries => BinProcess::ETC,
        CabacContext::PaletteEscapeValPresentFlag => BinProcess::FL(1),
        CabacContext::PaletteIdxIdc => BinProcess::ETC,
        CabacContext::PaletteEscapeVal => BinProcess::EG(5),
        CabacContext::GeneralMergeFlag => BinProcess::FL(1),
        CabacContext::InterPredIdc => BinProcess::ETC,
        CabacContext::InterAffineFlag => BinProcess::FL(1),
        CabacContext::CuAffineTypeFlag => BinProcess::FL(1),
        CabacContext::SymMvdFlag => BinProcess::FL(1),
        CabacContext::RefIdxL0 => BinProcess::ETC,
        CabacContext::RefIdxL1 => BinProcess::ETC,
        CabacContext::MvpL0Flag => BinProcess::FL(1),
        CabacContext::MvpL1Flag => BinProcess::FL(1),
        CabacContext::AmvrFlag => BinProcess::FL(1),
        CabacContext::AmvrPrecisionIdx => BinProcess::ETC,
        CabacContext::BcwIdx => BinProcess::ETC,
        CabacContext::CuCodedFlag => BinProcess::FL(1),
        CabacContext::CuSbtFlag => BinProcess::FL(1),
        CabacContext::CuSbtQuadFlag => BinProcess::FL(1),
        CabacContext::CuSbtHorizontalFlag => BinProcess::FL(1),
        CabacContext::CuSbtPosFlag => BinProcess::FL(1),
        CabacContext::LfnstIdx => BinProcess::TR(2, 0),
        CabacContext::MtsIdx => BinProcess::TR(4, 0),
        CabacContext::CopyAbovePaletteIndicesFlag => BinProcess::FL(1),
        CabacContext::PaletteTransposeFlag => BinProcess::FL(1),
        CabacContext::RunCopyFlag => BinProcess::FL(1),
        CabacContext::RegularMergeFlag => BinProcess::FL(1),
        CabacContext::MmvdMergeFlag => BinProcess::FL(1),
        CabacContext::MmvdCandFlag => BinProcess::FL(1),
        CabacContext::MmvdDistanceIdx => BinProcess::TR(7, 0),
        CabacContext::MmvdDirectionIdx => BinProcess::FL(3),
        CabacContext::CiipFlag => BinProcess::FL(1),
        CabacContext::MergeSubblockFlag => BinProcess::FL(1),
        CabacContext::MergeSubblockIdx => BinProcess::ETC,
        CabacContext::MergeIdx => BinProcess::ETC,
        CabacContext::MergeGpmPartitionIdx => BinProcess::FL(63),
        CabacContext::MergeGpmIdx0 => BinProcess::ETC,
        CabacContext::MergeGpmIdx1 => BinProcess::ETC,
        CabacContext::AbsMvdGreater0Flag => BinProcess::FL(1),
        CabacContext::AbsMvdGreater1Flag => BinProcess::FL(1),
        CabacContext::AbsMvd => BinProcess::ETC,
        CabacContext::MvdSignFlag => BinProcess::FL(1),
        CabacContext::TuYCodedFlag => BinProcess::FL(1),
        CabacContext::TuCbCodedFlag => BinProcess::FL(1),
        CabacContext::TuCrCodedFlag => BinProcess::FL(1),
        CabacContext::CuQpDeltaAbs => BinProcess::ETC,
        CabacContext::CuQpDeltaSignFlag => BinProcess::FL(1),
        CabacContext::CuChromaQpOffsetFlag => BinProcess::FL(1),
        CabacContext::CuChromaQpOffsetIdx => BinProcess::ETC,
        CabacContext::TransformSkipFlag => BinProcess::FL(1),
        CabacContext::TuJointCbcrResidualFlag => BinProcess::FL(1),
        CabacContext::LastSigCoeffXPrefix => BinProcess::ETC,
        CabacContext::LastSigCoeffYPrefix => BinProcess::ETC,
        CabacContext::LastSigCoeffXSuffix => BinProcess::ETC,
        CabacContext::LastSigCoeffYSuffix => BinProcess::ETC,
        CabacContext::SbCodedFlag => BinProcess::FL(1),
        CabacContext::SigCoeffFlag => BinProcess::FL(1),
        CabacContext::ParLevelFlag => BinProcess::FL(1),
        CabacContext::AbsLevelGtxFlag => BinProcess::FL(1),
        CabacContext::AbsRemainder => BinProcess::ETC,
        CabacContext::DecAbsLevel => BinProcess::ETC,
        CabacContext::CoeffSignFlag => BinProcess::FL(1),
        CabacContext::EndOfSliceOneBit => BinProcess::FL(1),
        CabacContext::EndOfTileOneBit => BinProcess::FL(1),
        CabacContext::EndOfSubsetOneBit => BinProcess::FL(1),
    }
}

/// The Rice parameter chosen by a local sum of absolute levels (0 to 31).
pub open spec fn spec_c_rice_param(loc_sum_abs: int) -> usize {
    if loc_sum_abs < 7 {
        0
    } else if loc_sum_abs < 14 {
        1
    } else if loc_sum_abs < 28 {
        2
    } else {
        3
    }
}

/// The Rice parameter chosen by a local sum of absolute levels (0 to 31).
pub fn c_rice_params(loc_sum_abs: usize) -> (r: usize)
    requires
        loc_sum_abs < 32,
    ensures
        r == spec_c_rice_param(loc_sum_abs as int),
{
    let table: [usize; 32] = [
        0, 0, 0, 0, 0, 0, 0, 1, 1, 1, 1, 1, 1, 1, 2, 2, 2, 2, 2, 2, 2, 2, 2, 2, 2, 2, 2, 2, 3, 3, 3, 3,
    ];
    table[loc_sum_abs]
}

/// The context index increment rule for the first six bins of each syntax element.
pub open spec fn spec_ctx_inc_row(ctx: CabacContext) -> Seq<CtxInc> {
    match ctx {
        CabacContext::AlfCtbFlag => seq![CtxInc::Invalid, CtxInc::NA, CtxInc::NA, CtxInc::NA, CtxInc::NA, CtxInc::NA],
        CabacContext::AlfUseApsFlag => seq![CtxInc::Number(0), CtxInc::NA, CtxInc::NA, CtxInc::NA, CtxInc::NA, CtxInc::NA],
        CabacContext::AlfCtbCcCbIdc => seq![CtxInc::Invalid, CtxInc::Bypass, CtxInc::Bypass, CtxInc::Bypass, CtxInc::Bypass, CtxInc::Bypass],
        CabacContext::AlfCtbCcCrIdc => seq![CtxInc::Invalid, CtxInc::Bypass, CtxInc::Bypass, CtxInc::Bypass, CtxInc::Bypass, CtxInc::Bypass],
        CabacContext::AlfLumaFixedFilterIdx => seq![CtxInc::Bypass, CtxInc::Bypass, CtxInc::Bypass, CtxInc::Bypass, CtxInc::Bypass, CtxInc::Bypass],
        CabacContext::AlfLumaPrevFilterIdx => seq![CtxInc::Bypass, CtxInc::Bypass, CtxInc::Bypass, CtxInc::Bypass, CtxInc::Bypass, CtxInc::Bypass],
        CabacContext::AlfCtbFilterAltIdx => seq![CtxInc::Invalid, CtxInc::Invalid, CtxInc::Invalid, CtxInc::Invalid, CtxInc::Invalid, CtxInc::Invalid],
        CabacContext::AlfSaoMergeLeftFlag => seq![CtxInc::Number(0), CtxInc::NA, CtxInc::NA, CtxInc::NA, CtxInc::NA, CtxInc::NA],
        CabacContext::AlfSaoMergeUpFlag => seq![CtxInc::Number(0), CtxInc::NA, CtxInc::NA, CtxInc::NA, CtxInc::NA, CtxInc::NA],
        CabacContext::AlfSaoTypeIdxLuma => seq![CtxInc::Number(0), CtxInc::Bypass, CtxInc::NA, CtxInc::NA, CtxInc::NA, CtxInc::NA],
        CabacContext::AlfSaoTypeIdxChroma => seq![CtxInc::Number(0), CtxInc::Bypass, CtxInc::NA, CtxInc::NA, CtxInc::NA, CtxInc::NA],
        CabacContext::SaoOffsetAbs => seq![CtxInc::Bypass, CtxInc::Bypass, CtxInc::Bypass, CtxInc::Bypass, CtxInc::Bypass, CtxInc::NA],
        CabacContext::SaoOffsetSignFlag => seq![CtxInc::Bypass, CtxInc::NA, CtxInc::NA, CtxInc::NA, CtxInc::NA, CtxInc::NA],
        CabacContext::SaoBandPosition => seq![CtxInc::Bypass, CtxInc::Bypass, CtxInc::Bypass, CtxInc::Bypass, CtxInc::Bypass, CtxInc::Bypass],
        CabacContext::SaoEoClassLuma => seq![CtxInc::NA, CtxInc::NA, CtxInc::Bypass, CtxInc::Bypass, CtxInc::Bypass, CtxInc::Bypass],
        CabacContext::SaoEoClassChroma => seq![CtxInc::NA, CtxInc::NA, CtxInc::Bypass, CtxInc::Bypass, CtxInc::Bypass, CtxInc::Bypass],
        CabacContext::SplitCuFlag => seq![CtxInc::Invalid, CtxInc::NA, CtxInc::NA, CtxInc::NA, CtxInc::NA, CtxInc::NA],
        CabacContext::SplitQtFlag => seq![CtxInc::Invalid, CtxInc::NA, CtxInc::NA, CtxInc::NA, CtxInc::NA, CtxInc::NA],
        CabacContext::MttSplitCuVerticalFlag => seq![CtxInc::Invalid, CtxInc::NA, CtxInc::NA, CtxInc::NA, CtxInc::NA, CtxInc::NA],
        CabacContext::MttSplitCuBinaryFlag => seq![CtxInc::Invalid, CtxInc::NA, CtxInc::NA, CtxInc::NA, CtxInc::NA, CtxInc::NA],
        CabacContext::NonInterFlag => seq![CtxInc::Invalid, CtxInc::NA, CtxInc::NA, CtxInc::NA, CtxInc::NA, CtxInc::NA],
        CabacContext::CuSkipFlag => seq![CtxInc::Invalid, CtxInc::NA, CtxInc::NA, CtxInc::NA, CtxInc::NA, CtxInc::NA],
        CabacContext::PredModeIbcFlag => seq![CtxInc::Invalid, CtxInc::NA, CtxInc::NA, CtxInc::NA, CtxInc::NA, CtxInc::NA],
        CabacContext::PredModeFlag => seq![CtxInc::Invalid, CtxInc::NA, CtxInc::NA, CtxInc::NA, CtxInc::NA, CtxInc::NA],
        CabacContext::PredModePltFlag => seq![CtxInc::Number(0), CtxInc::NA, CtxInc::NA, CtxInc::NA, CtxInc::NA, CtxInc::NA],
        CabacContext::CuActEnabledFlag => seq![CtxInc::Number(0), CtxInc::NA, CtxInc::NA, CtxInc::NA, CtxInc::NA, CtxInc::NA],
        CabacContext::IntraBdpcmLumaFlag => seq![CtxInc::Number(0), CtxInc::NA, CtxInc::NA, CtxInc::NA, CtxInc::NA, CtxInc::NA],
        CabacContext::IntraBdpcmLumaDirFlag => seq![CtxInc::Number(0), CtxInc::NA, CtxInc::NA, CtxInc::NA, CtxInc::NA, CtxInc::NA],
        CabacContext::IntraMipFlag => seq![CtxInc::Invalid, CtxInc::NA, CtxInc::NA, CtxInc::NA, CtxInc::NA, CtxInc::NA],
        CabacContext::IntraMipTransposedFlag => seq![CtxInc::Bypass, CtxInc::NA, CtxInc::NA, CtxInc::NA, CtxInc::NA, CtxInc::NA],
        CabacContext::IntraMipMode => seq![CtxInc::Bypass, CtxInc::Bypass, CtxInc::Bypass, CtxInc::Bypass, CtxInc::Bypass, CtxInc::NA],
        CabacContext::IntraLumaRefIdx => seq![CtxInc::Number(0), CtxInc::Number(1), CtxInc::NA, CtxInc::NA, CtxInc::NA, CtxInc::NA],
        CabacContext::IntraSubpartitionsModeFlag => seq![CtxInc::Number(0), CtxInc::NA, CtxInc::NA, CtxInc::NA, CtxInc::NA, CtxInc::NA],
        CabacContext::IntraSubpartitionsSplitFlag => seq![CtxInc::Number(0), CtxInc::NA, CtxInc::NA, CtxInc::NA, CtxInc::NA, CtxInc::NA],
        CabacContext::IntraLumaMpmFlag => seq![CtxInc::Number(0), CtxInc::NA, CtxInc::NA, CtxInc::NA, CtxInc::NA, CtxInc::NA],
        CabacContext::IntraLumaNotPlanarFlag => seq![CtxInc::Invalid, CtxInc::NA, CtxInc::NA, CtxInc::NA, CtxInc::NA, CtxInc::NA],
        CabacContext::IntraLumaMpmIdx => seq![CtxInc::Bypass, CtxInc::Bypass, CtxInc::Bypass, CtxInc::Bypass, CtxInc::NA, CtxInc::NA],
        CabacContext::IntraLumaMpmRemainder => seq![CtxInc::Bypass, CtxInc::Bypass, CtxInc::Bypass, CtxInc::Bypass, CtxInc::Bypass, CtxInc::Bypass],
        CabacContext::IntraBdpcmChromaFlag => seq![CtxInc::Number(0), CtxInc::NA, CtxInc::NA, CtxInc::NA, CtxInc::NA, CtxInc::NA],
        CabacContext::IntraBdpcmChromaDirFlag => seq![CtxInc::Number(0), CtxInc::NA, CtxInc::NA, CtxInc::NA, CtxInc::NA, CtxInc::NA],
        CabacContext::CclmModeFlag => seq![CtxInc::Number(0), CtxInc::NA, CtxInc::NA, CtxInc::NA, CtxInc::NA, CtxInc::NA],
        CabacContext::CclmModeIdx => seq![CtxInc::Number(0), CtxInc::Bypass, CtxInc::NA, CtxInc::NA, CtxInc::NA, CtxInc::NA],
        CabacContext::IntraChromaPredMode => seq![CtxInc::Number(0), CtxInc::Bypass, CtxInc::Bypass, CtxInc::NA, CtxInc::NA, CtxInc::NA],
        CabacContext::PalettePredictorRun => seq![CtxInc::Bypass, CtxInc::Bypass, CtxInc::Bypass, CtxInc::Bypass, CtxInc::Bypass, CtxInc::Bypass],
        CabacContext::NumSignalledPaletteEntries => seq![CtxInc::Bypass, CtxInc::Bypass, CtxInc::Bypass, CtxInc::Bypass, CtxInc::Bypass, CtxInc::Bypass],
        CabacContext::NewPaletteEntries => seq![CtxInc::Bypass, CtxInc::Bypass, CtxInc::Bypass, CtxInc::Bypass, CtxInc::Bypass, CtxInc::Bypass],
        CabacContext::PaletteEscapeValPresentFlag => seq![CtxInc::Bypass, CtxInc::NA, CtxInc::NA, CtxInc::NA, CtxInc::NA, CtxInc::NA],
        CabacContext::PaletteIdxIdc => seq![CtxInc::Bypass, CtxInc::Bypass, CtxInc::Bypass, CtxInc::Bypass, CtxInc::Bypass, CtxInc::Bypass],
        CabacContext::PaletteEscapeVal => seq![CtxInc::Bypass, CtxInc::Bypass, CtxInc::Bypass, CtxInc::Bypass, CtxInc::Bypass, CtxInc::Bypass],
        CabacContext::GeneralMergeFlag => seq![CtxInc::Number(0), CtxInc::Bypass, CtxInc::Bypass, CtxInc::Bypass, CtxInc::Bypass, CtxInc::Bypass],
        CabacContext::InterPredIdc => seq![CtxInc::Invalid, CtxInc::Number(5), CtxInc::NA, CtxInc::NA, CtxInc::NA, CtxInc::NA],
        CabacContext::InterAffineFlag => seq![CtxInc::Invalid, CtxInc::Invalid, CtxInc::Invalid, CtxInc::Invalid, CtxInc::Invalid, CtxInc::Invalid],
        CabacContext::CuAffineTypeFlag => seq![CtxInc::Number(0), CtxInc::NA, CtxInc::NA, CtxInc::NA, CtxInc::NA, CtxInc::NA],
        CabacContext::SymMvdFlag => seq![CtxInc::Number(0), CtxInc::NA, CtxInc::NA, CtxInc::NA, CtxInc::NA, CtxInc::NA],
        CabacContext::RefIdxL0 => seq![CtxInc::Number(0), CtxInc::Number(1), CtxInc::Bypass, CtxInc::Bypass, CtxInc::Bypass, CtxInc::Bypass],
        CabacContext::RefIdxL1 => seq![CtxInc::Number(0), CtxInc::Number(1), CtxInc::Bypass, CtxInc::Bypass, CtxInc::Bypass, CtxInc::Bypass],
        CabacContext::MvpL0Flag => seq![CtxInc::Invalid, CtxInc::Invalid, CtxInc::Invalid, CtxInc::Invalid, CtxInc::Invalid, CtxInc::Invalid],
        CabacContext::MvpL1Flag => seq![CtxInc::Invalid, CtxInc::Invalid, CtxInc::Invalid, CtxInc::Invalid, CtxInc::Invalid, CtxInc::Invalid],
        CabacContext::AmvrFlag => seq![CtxInc::Invalid, CtxInc::Invalid, CtxInc::Invalid, CtxInc::Invalid, CtxInc::Invalid, CtxInc::Invalid],
        CabacContext::AmvrPrecisionIdx => seq![CtxInc::Invalid, CtxInc::Number(1), CtxInc::NA, CtxInc::NA, CtxInc::NA, CtxInc::NA],
        CabacContext::BcwIdx => seq![CtxInc::Number(0), CtxInc::Bypass, CtxInc::NA, CtxInc::NA, CtxInc::NA, CtxInc::NA],
        CabacContext::CuCodedFlag => seq![CtxInc::Number(0), CtxInc::NA, CtxInc::NA, CtxInc::NA, CtxInc::NA, CtxInc::NA],
        CabacContext::CuSbtFlag => seq![CtxInc::Invalid, CtxInc::NA, CtxInc::NA, CtxInc::NA, CtxInc::NA, CtxInc::NA],
        CabacContext::CuSbtQuadFlag => seq![CtxInc::Number(0), CtxInc::NA, CtxInc::NA, CtxInc::NA, CtxInc::NA, CtxInc::NA],
        CabacContext::CuSbtHorizontalFlag => seq![CtxInc::Invalid, CtxInc::NA, CtxInc::NA, CtxInc::NA, CtxInc::NA, CtxInc::NA],
        CabacContext::CuSbtPosFlag => seq![CtxInc::Number(0), CtxInc::NA, CtxInc::NA, CtxInc::NA, CtxInc::NA, CtxInc::NA],
        CabacContext::LfnstIdx => seq![CtxInc::Invalid, CtxInc::Number(2), CtxInc::NA, CtxInc::NA, CtxInc::NA, CtxInc::NA],
        CabacContext::MtsIdx => seq![CtxInc::Number(0), CtxInc::Number(1), CtxInc::Number(2), CtxInc::Number(3), CtxInc::NA, CtxInc::NA],
        CabacContext::CopyAbovePaletteIndicesFlag => seq![CtxInc::Number(0), CtxInc::NA, CtxInc::NA, CtxInc::NA, CtxInc::NA, CtxInc::NA],
        CabacContext::PaletteTransposeFlag => seq![CtxInc::Number(0), CtxInc::NA, CtxInc::NA, CtxInc::NA, CtxInc::NA, CtxInc::NA],
        CabacContext::RunCopyFlag => seq![CtxInc::Invalid, CtxInc::NA, CtxInc::NA, CtxInc::NA, CtxInc::NA, CtxInc::NA],
        CabacContext::RegularMergeFlag => seq![CtxInc::Invalid, CtxInc::Bypass, CtxInc::Bypass, CtxInc::Bypass, CtxInc::Bypass, CtxInc::Bypass],
        CabacContext::MmvdMergeFlag => seq![CtxInc::Number(0), CtxInc::NA, CtxInc::NA, CtxInc::NA, CtxInc::NA, CtxInc::NA],
        CabacContext::MmvdCandFlag => seq![CtxInc::Number(0), CtxInc::NA, CtxInc::NA, CtxInc::NA, CtxInc::NA, CtxInc::NA],
        CabacContext::MmvdDistanceIdx => seq![CtxInc::Number(0), CtxInc::Bypass, CtxInc::Bypass, CtxInc::Bypass, CtxInc::Bypass, CtxInc::Bypass],
        CabacContext::MmvdDirectionIdx => seq![CtxInc::Bypass, CtxInc::Bypass, CtxInc::NA, CtxInc::NA, CtxInc::NA, CtxInc::NA],
        CabacContext::CiipFlag => seq![CtxInc::Number(0), CtxInc::NA, CtxInc::NA, CtxInc::NA, CtxInc::NA, CtxInc::NA],
        CabacContext::MergeSubblockFlag => seq![CtxInc::Invalid, CtxInc::NA, CtxInc::NA, CtxInc::NA, CtxInc::NA, CtxInc::NA],
        CabacContext::MergeSubblockIdx => seq![CtxInc::Number(0), CtxInc::Bypass, CtxInc::Bypass, CtxInc::Bypass, CtxInc::Bypass, CtxInc::NA],
        CabacContext::MergeIdx => seq![CtxInc::Number(0), CtxInc::Bypass, CtxInc::Bypass, CtxInc::Bypass, CtxInc::Bypass, CtxInc::NA],
        CabacContext::MergeGpmPartitionIdx => seq![CtxInc::Bypass, CtxInc::Bypass, CtxInc::Bypass, CtxInc::Bypass, CtxInc::Bypass, CtxInc::Bypass],
        CabacContext::MergeGpmIdx0 => seq![CtxInc::Number(0), CtxInc::Bypass, CtxInc::Bypass, CtxInc::Bypass, CtxInc::Bypass, CtxInc::NA],
        CabacContext::MergeGpmIdx1 => seq![CtxInc::Number(0), CtxInc::Bypass, CtxInc::Bypass, CtxInc::Bypass, CtxInc::NA, CtxInc::NA],
        CabacContext::AbsMvdGreater0Flag => seq![CtxInc::Number(0), CtxInc::NA, CtxInc::NA, CtxInc::NA, CtxInc::NA, CtxInc::NA],
        CabacContext::AbsMvdGreater1Flag => seq![CtxInc::Number(0), CtxInc::NA, CtxInc::NA, CtxInc::NA, CtxInc::NA, CtxInc::NA],
        CabacContext::AbsMvd => seq![CtxInc::Bypass, CtxInc::Bypass, CtxInc::Bypass, CtxInc::Bypass, CtxInc::Bypass, CtxInc::Bypass],
        CabacContext::MvdSignFlag => seq![CtxInc::Bypass, CtxInc::NA, CtxInc::NA, CtxInc::NA, CtxInc::NA, CtxInc::NA],
        CabacContext::TuYCodedFlag => seq![CtxInc::Invalid, CtxInc::NA, CtxInc::NA, CtxInc::NA, CtxInc::NA, CtxInc::NA],
        CabacContext::TuCbCodedFlag => seq![CtxInc::Invalid, CtxInc::NA, CtxInc::NA, CtxInc::NA, CtxInc::NA, CtxInc::NA],
        CabacContext::TuCrCodedFlag => seq![CtxInc::Invalid, CtxInc::NA, CtxInc::NA, CtxInc::NA, CtxInc::NA, CtxInc::NA],
        CabacContext::CuQpDeltaAbs => seq![CtxInc::Number(0), CtxInc::Number(1), CtxInc::Number(1), CtxInc::Number(1), CtxInc::Number(1), CtxInc::Bypass],
        CabacContext::CuQpDeltaSignFlag => seq![CtxInc::Bypass, CtxInc::NA, CtxInc::NA, CtxInc::NA, CtxInc::NA, CtxInc::NA],
        CabacContext::CuChromaQpOffsetFlag => seq![CtxInc::Number(0), CtxInc::NA, CtxInc::NA, CtxInc::NA, CtxInc::NA, CtxInc::NA],
        CabacContext::CuChromaQpOffsetIdx => seq![CtxInc::Number(0), CtxInc::Number(0), CtxInc::Number(0), CtxInc::Number(0), CtxInc::Number(0), CtxInc::NA],
        CabacContext::TransformSkipFlag => seq![CtxInc::Invalid, CtxInc::NA, CtxInc::NA, CtxInc::NA, CtxInc::NA, CtxInc::NA],
        CabacContext::TuJointCbcrResidualFlag => seq![CtxInc::Invalid, CtxInc::NA, CtxInc::NA, CtxInc::NA, CtxInc::NA, CtxInc::NA],
        CabacContext::LastSigCoeffXPrefix => seq![CtxInc::Invalid, CtxInc::Invalid, CtxInc::Invalid, CtxInc::Invalid, CtxInc::Invalid, CtxInc::Invalid],
        CabacContext::LastSigCoeffYPrefix => seq![CtxInc::Invalid, CtxInc::Invalid, CtxInc::Invalid, CtxInc::Invalid, CtxInc::Invalid, CtxInc::Invalid],
        CabacContext::LastSigCoeffXSuffix => seq![CtxInc::Bypass, CtxInc::Bypass, CtxInc::Bypass, CtxInc::Bypass, CtxInc::Bypass, CtxInc::Bypass],
        CabacContext::LastSigCoeffYSuffix => seq![CtxInc::Bypass, CtxInc::Bypass, CtxInc::Bypass, CtxInc::Bypass, CtxInc::Bypass, CtxInc::Bypass],
        CabacContext::SbCodedFlag => seq![CtxInc::Invalid, CtxInc::NA, CtxInc::NA, CtxInc::NA, CtxInc::NA, CtxInc::NA],
        CabacContext::SigCoeffFlag => seq![CtxInc::Invalid, CtxInc::NA, CtxInc::NA, CtxInc::NA, CtxInc::NA, CtxInc::NA],
        CabacContext::ParLevelFlag => seq![CtxInc::Invalid, CtxInc::NA, CtxInc::NA, CtxInc::NA, CtxInc::NA, CtxInc::NA],
        CabacContext::AbsLevelGtxFlag => seq![CtxInc::Invalid, CtxInc::NA, CtxInc::NA, CtxInc::NA, CtxInc::NA, CtxInc::NA],
        CabacContext::AbsRemainder => seq![CtxInc::Bypass, CtxInc::Bypass, CtxInc::Bypass, CtxInc::Bypass, CtxInc::Bypass, CtxInc::Bypass],
        CabacContext::DecAbsLevel => seq![CtxInc::Bypass, CtxInc::Bypass, CtxInc::Bypass, CtxInc::Bypass, CtxInc::Bypass, CtxInc::Bypass],
        CabacContext::CoeffSignFlag => seq![CtxInc::Invalid, CtxInc::NA, CtxInc::NA, CtxInc::NA, CtxInc::NA, CtxInc::NA],
        CabacContext::EndOfSliceOneBit => seq![CtxInc::Terminate, CtxInc::NA, CtxInc::NA, CtxInc::NA, CtxInc::NA, CtxInc::NA],
        CabacContext::EndOfTileOneBit => seq![CtxInc::Terminate, CtxInc::NA, CtxInc::NA, CtxInc::NA, CtxInc::NA, CtxInc::NA],
        CabacContext::EndOfSubsetOneBit => seq![CtxInc::Terminate, CtxInc::NA, CtxInc::NA, CtxInc::NA, CtxInc::NA, CtxInc::NA],
    }
}

/// The context index increment rule for the first six bins of each syntax element.
pub fn ctx_inc_row(ctx: CabacContext) -> (r: [CtxInc; 6])
    ensures
        r@ == spec_ctx_inc_row(ctx),
{
    match ctx {
        CabacContext::AlfCtbFlag => [CtxInc::Invalid, CtxInc::NA, CtxInc::NA, CtxInc::NA, CtxInc::NA, CtxInc::NA],
        CabacContext::AlfUseApsFlag => [CtxInc::Number(0), CtxInc::NA, CtxInc::NA, CtxInc::NA, CtxInc::NA, CtxInc::NA],
        CabacContext::AlfCtbCcCbIdc => [CtxInc::Invalid, CtxInc::Bypass, CtxInc::Bypass, CtxInc::Bypass, CtxInc::Bypass, CtxInc::Bypass],
        CabacContext::AlfCtbCcCrIdc => [CtxInc::Invalid, CtxInc::Bypass, CtxInc::Bypass, CtxInc::Bypass, CtxInc::Bypass, CtxInc::Bypass],
        CabacContext::AlfLumaFixedFilterIdx => [CtxInc::Bypass, CtxInc::Bypass, CtxInc::Bypass, CtxInc::Bypass, CtxInc::Bypass, CtxInc::Bypass],
        CabacContext::AlfLumaPrevFilterIdx => [CtxInc::Bypass, CtxInc::Bypass, CtxInc::Bypass, CtxInc::Bypass, CtxInc::Bypass, CtxInc::Bypass],
        CabacContext::AlfCtbFilterAltIdx => [CtxInc::Invalid, CtxInc::Invalid, CtxInc::Invalid, CtxInc::Invalid, CtxInc::Invalid, CtxInc::Invalid],
        CabacContext::AlfSaoMergeLeftFlag => [CtxInc::Number(0), CtxInc::NA, CtxInc::NA, CtxInc::NA, CtxInc::NA, CtxInc::NA],
        CabacContext::AlfSaoMergeUpFlag => [CtxInc::Number(0), CtxInc::NA, CtxInc::NA, CtxInc::NA, CtxInc::NA, CtxInc::NA],
        CabacContext::AlfSaoTypeIdxLuma => [CtxInc::Number(0), CtxInc::Bypass, CtxInc::NA, CtxInc::NA, CtxInc::NA, CtxInc::NA],
        CabacContext::AlfSaoTypeIdxChroma => [CtxInc::Number(0), CtxInc::Bypass, CtxInc::NA, CtxInc::NA, CtxInc::NA, CtxInc::NA],
        CabacContext::SaoOffsetAbs => [CtxInc::Bypass, CtxInc::Bypass, CtxInc::Bypass, CtxInc::Bypass, CtxInc::Bypass, CtxInc::NA],
        CabacContext::SaoOffsetSignFlag => [CtxInc::Bypass, CtxInc::NA, CtxInc::NA, CtxInc::NA, CtxInc::NA, CtxInc::NA],
        CabacContext::SaoBandPosition => [CtxInc::Bypass, CtxInc::Bypass, CtxInc::Bypass, CtxInc::Bypass, CtxInc::Bypass, CtxInc::Bypass],
        CabacContext::SaoEoClassLuma => [CtxInc::NA, CtxInc::NA, CtxInc::Bypass, CtxInc::Bypass, CtxInc::Bypass, CtxInc::Bypass],
        CabacContext::SaoEoClassChroma => [CtxInc::NA, CtxInc::NA, CtxInc::Bypass, CtxInc::Bypass, CtxInc::Bypass, CtxInc::Bypass],
        CabacContext::SplitCuFlag => [CtxInc::Invalid, CtxInc::NA, CtxInc::NA, CtxInc::NA, CtxInc::NA, CtxInc::NA],
        CabacContext::SplitQtFlag => [CtxInc::Invalid, CtxInc::NA, CtxInc::NA, CtxInc::NA, CtxInc::NA, CtxInc::NA],
        CabacContext::MttSplitCuVerticalFlag => [CtxInc::Invalid, CtxInc::NA, CtxInc::NA, CtxInc::NA, CtxInc::NA, CtxInc::NA],
        CabacContext::MttSplitCuBinaryFlag => [CtxInc::Invalid, CtxInc::NA, CtxInc::NA, CtxInc::NA, CtxInc::NA, CtxInc::NA],
        CabacContext::NonInterFlag => [CtxInc::Invalid, CtxInc::NA, CtxInc::NA, CtxInc::NA, CtxInc::NA, CtxInc::NA],
        CabacContext::CuSkipFlag => [CtxInc::Invalid, CtxInc::NA, CtxInc::NA, CtxInc::NA, CtxInc::NA, CtxInc::NA],
        CabacContext::PredModeIbcFlag => [CtxInc::Invalid, CtxInc::NA, CtxInc::NA, CtxInc::NA, CtxInc::NA, CtxInc::NA],
        CabacContext::PredModeFlag => [CtxInc::Invalid, CtxInc::NA, CtxInc::NA, CtxInc::NA, CtxInc::NA, CtxInc::NA],
        CabacContext::PredModePltFlag => [CtxInc::Number(0), CtxInc::NA, CtxInc::NA, CtxInc::NA, CtxInc::NA, CtxInc::NA],
        CabacContext::CuActEnabledFlag => [CtxInc::Number(0), CtxInc::NA, CtxInc::NA, CtxInc::NA, CtxInc::NA, CtxInc::NA],
        CabacContext::IntraBdpcmLumaFlag => [CtxInc::Number(0), CtxInc::NA, CtxInc::NA, CtxInc::NA, CtxInc::NA, CtxInc::NA],
        CabacContext::IntraBdpcmLumaDirFlag => [CtxInc::Number(0), CtxInc::NA, CtxInc::NA, CtxInc::NA, CtxInc::NA, CtxInc::NA],
        CabacContext::IntraMipFlag => [CtxInc::Invalid, CtxInc::NA, CtxInc::NA, CtxInc::NA, CtxInc::NA, CtxInc::NA],
        CabacContext::IntraMipTransposedFlag => [CtxInc::Bypass, CtxInc::NA, CtxInc::NA, CtxInc::NA, CtxInc::NA, CtxInc::NA],
        CabacContext::IntraMipMode => [CtxInc::Bypass, CtxInc::Bypass, CtxInc::Bypass, CtxInc::Bypass, CtxInc::Bypass, CtxInc::NA],
        CabacContext::IntraLumaRefIdx => [CtxInc::Number(0), CtxInc::Number(1), CtxInc::NA, CtxInc::NA, CtxInc::NA, CtxInc::NA],
        CabacContext::IntraSubpartitionsModeFlag => [CtxInc::Number(0), CtxInc::NA, CtxInc::NA, CtxInc::NA, CtxInc::NA, CtxInc::NA],
        CabacContext::IntraSubpartitionsSplitFlag => [CtxInc::Number(0), CtxInc::NA, CtxInc::NA, CtxInc::NA, CtxInc::NA, CtxInc::NA],
        CabacContext::IntraLumaMpmFlag => [CtxInc::Number(0), CtxInc::NA, CtxInc::NA, CtxInc::NA, CtxInc::NA, CtxInc::NA],
        CabacContext::IntraLumaNotPlanarFlag => [CtxInc::Invalid, CtxInc::NA, CtxInc::NA, CtxInc::NA, CtxInc::NA, CtxInc::NA],
        CabacContext::IntraLumaMpmIdx => [CtxInc::Bypass, CtxInc::Bypass, CtxInc::Bypass, CtxInc::Bypass, CtxInc::NA, CtxInc::NA],
        CabacContext::IntraLumaMpmRemainder => [CtxInc::Bypass, CtxInc::Bypass, CtxInc::Bypass, CtxInc::Bypass, CtxInc::Bypass, CtxInc::Bypass],
        CabacContext::IntraBdpcmChromaFlag => [CtxInc::Number(0), CtxInc::NA, CtxInc::NA, CtxInc::NA, CtxInc::NA, CtxInc::NA],
        CabacContext::IntraBdpcmChromaDirFlag => [CtxInc::Number(0), CtxInc::NA, CtxInc::NA, CtxInc::NA, CtxInc::NA, CtxInc::NA],
        CabacContext::CclmModeFlag => [CtxInc::Number(0), CtxInc::NA, CtxInc::NA, CtxInc::NA, CtxInc::NA, CtxInc::NA],
        CabacContext::CclmModeIdx => [CtxInc::Number(0), CtxInc::Bypass, CtxInc::NA, CtxInc::NA, CtxInc::NA, CtxInc::NA],
        CabacContext::IntraChromaPredMode => [CtxInc::Number(0), CtxInc::Bypass, CtxInc::Bypass, CtxInc::NA, CtxInc::NA, CtxInc::NA],
        CabacContext::PalettePredictorRun => [CtxInc::Bypass, CtxInc::Bypass, CtxInc::Bypass, CtxInc::Bypass, CtxInc::Bypass, CtxInc::Bypass],
        CabacContext::NumSignalledPaletteEntries => [CtxInc::Bypass, CtxInc::Bypass, CtxInc::Bypass, CtxInc::Bypass, CtxInc::Bypass, CtxInc::Bypass],
        CabacContext::NewPaletteEntries => [CtxInc::Bypass, CtxInc::Bypass, CtxInc::Bypass, CtxInc::Bypass, CtxInc::Bypass, CtxInc::Bypass],
        CabacContext::PaletteEscapeValPresentFlag => [CtxInc::Bypass, CtxInc::NA, CtxInc::NA, CtxInc::NA, CtxInc::NA, CtxInc::NA],
        CabacContext::PaletteIdxIdc => [CtxInc::Bypass, CtxInc::Bypass, CtxInc::Bypass, CtxInc::Bypass, CtxInc::Bypass, CtxInc::Bypass],
        CabacContext::PaletteEscapeVal => [CtxInc::Bypass, CtxInc::Bypass, CtxInc::Bypass, CtxInc::Bypass, CtxInc::Bypass, CtxInc::Bypass],
        CabacContext::GeneralMergeFlag => [CtxInc::Number(0), CtxInc::Bypass, CtxInc::Bypass, CtxInc::Bypass, CtxInc::Bypass, CtxInc::Bypass],
        CabacContext::InterPredIdc => [CtxInc::Invalid, CtxInc::Number(5), CtxInc::NA, CtxInc::NA, CtxInc::NA, CtxInc::NA],
        CabacContext::InterAffineFlag => [CtxInc::Invalid, CtxInc::Invalid, CtxInc::Invalid, CtxInc::Invalid, CtxInc::Invalid, CtxInc::Invalid],
        CabacContext::CuAffineTypeFlag => [CtxInc::Number(0), CtxInc::NA, CtxInc::NA, CtxInc::NA, CtxInc::NA, CtxInc::NA],
        CabacContext::SymMvdFlag => [CtxInc::Number(0), CtxInc::NA, CtxInc::NA, CtxInc::NA, CtxInc::NA, CtxInc::NA],
        CabacContext::RefIdxL0 => [CtxInc::Number(0), CtxInc::Number(1), CtxInc::Bypass, CtxInc::Bypass, CtxInc::Bypass, CtxInc::Bypass],
        CabacContext::RefIdxL1 => [CtxInc::Number(0), CtxInc::Number(1), CtxInc::Bypass, CtxInc::Bypass, CtxInc::Bypass, CtxInc::Bypass],
        CabacContext::MvpL0Flag => [CtxInc::Invalid, CtxInc::Invalid, CtxInc::Invalid, CtxInc::Invalid, CtxInc::Invalid, CtxInc::Invalid],
        CabacContext::MvpL1Flag => [CtxInc::Invalid, CtxInc::Invalid, CtxInc::Invalid, CtxInc::Invalid, CtxInc::Invalid, CtxInc::Invalid],
        CabacContext::AmvrFlag => [CtxInc::Invalid, CtxInc::Invalid, CtxInc::Invalid, CtxInc::Invalid, CtxInc::Invalid, CtxInc::Invalid],
        CabacContext::AmvrPrecisionIdx => [CtxInc::Invalid, CtxInc::Number(1), CtxInc::NA, CtxInc::NA, CtxInc::NA, CtxInc::NA],
        CabacContext::BcwIdx => [CtxInc::Number(0), CtxInc::Bypass, CtxInc::NA, CtxInc::NA, CtxInc::NA, CtxInc::NA],
        CabacContext::CuCodedFlag => [CtxInc::Number(0), CtxInc::NA, CtxInc::NA, CtxInc::NA, CtxInc::NA, CtxInc::NA],
        CabacContext::CuSbtFlag => [CtxInc::Invalid, CtxInc::NA, CtxInc::NA, CtxInc::NA, CtxInc::NA, CtxInc::NA],
        CabacContext::CuSbtQuadFlag => [CtxInc::Number(0), CtxInc::NA, CtxInc::NA, CtxInc::NA, CtxInc::NA, CtxInc::NA],
        CabacContext::CuSbtHorizontalFlag => [CtxInc::Invalid, CtxInc::NA, CtxInc::NA, CtxInc::NA, CtxInc::NA, CtxInc::NA],
        CabacContext::CuSbtPosFlag => [CtxInc::Number(0), CtxInc::NA, CtxInc::NA, CtxInc::NA, CtxInc::NA, CtxInc::NA],
        CabacContext::LfnstIdx => [CtxInc::Invalid, CtxInc::Number(2), CtxInc::NA, CtxInc::NA, CtxInc::NA, CtxInc::NA],
        CabacContext::MtsIdx => [CtxInc::Number(0), CtxInc::Number(1), CtxInc::Number(2), CtxInc::Number(3), CtxInc::NA, CtxInc::NA],
        CabacContext::CopyAbovePaletteIndicesFlag => [CtxInc::Number(0), CtxInc::NA, CtxInc::NA, CtxInc::NA, CtxInc::NA, CtxInc::NA],
        CabacContext::PaletteTransposeFlag => [CtxInc::Number(0), CtxInc::NA, CtxInc::NA, CtxInc::NA, CtxInc::NA, CtxInc::NA],
        CabacContext::RunCopyFlag => [CtxInc::Invalid, CtxInc::NA, CtxInc::NA, CtxInc::NA, CtxInc::NA, CtxInc::NA],
        CabacContext::RegularMergeFlag => [CtxInc::Invalid, CtxInc::Bypass, CtxInc::Bypass, CtxInc::Bypass, CtxInc::Bypass, CtxInc::Bypass],
        CabacContext::MmvdMergeFlag => [CtxInc::Number(0), CtxInc::NA, CtxInc::NA, CtxInc::NA, CtxInc::NA, CtxInc::NA],
        CabacContext::MmvdCandFlag => [CtxInc::Number(0), CtxInc::NA, CtxInc::NA, CtxInc::NA, CtxInc::NA, CtxInc::NA],
        CabacContext::MmvdDistanceIdx => [CtxInc::Number(0), CtxInc::Bypass, CtxInc::Bypass, CtxInc::Bypass, CtxInc::Bypass, CtxInc::Bypass],
        CabacContext::MmvdDirectionIdx => [CtxInc::Bypass, CtxInc::Bypass, CtxInc::NA, CtxInc::NA, CtxInc::NA, CtxInc::NA],
        CabacContext::CiipFlag => [CtxInc::Number(0), CtxInc::NA, CtxInc::NA, CtxInc::NA, CtxInc::NA, CtxInc::NA],
        CabacContext::MergeSubblockFlag => [CtxInc::Invalid, CtxInc::NA, CtxInc::NA, CtxInc::NA, CtxInc::NA, CtxInc::NA],
        CabacContext::MergeSubblockIdx => [CtxInc::Number(0), CtxInc::Bypass, CtxInc::Bypass, CtxInc::Bypass, CtxInc::Bypass, CtxInc::NA],
        CabacContext::MergeIdx => [CtxInc::Number(0), CtxInc::Bypass, CtxInc::Bypass, CtxInc::Bypass, CtxInc::Bypass, CtxInc::NA],
        CabacContext::MergeGpmPartitionIdx => [CtxInc::Bypass, CtxInc::Bypass, CtxInc::Bypass, CtxInc::Bypass, CtxInc::Bypass, CtxInc::Bypass],
        CabacContext::MergeGpmIdx0 => [CtxInc::Number(0), CtxInc::Bypass, CtxInc::Bypass, CtxInc::Bypass, CtxInc::Bypass, CtxInc::NA],
        CabacContext::MergeGpmIdx1 => [CtxInc::Number(0), CtxInc::Bypass, CtxInc::Bypass, CtxInc::Bypass, CtxInc::NA, CtxInc::NA],
        CabacContext::AbsMvdGreater0Flag => [CtxInc::Number(0), CtxInc::NA, CtxInc::NA, CtxInc::NA, CtxInc::NA, CtxInc::NA],
        CabacContext::AbsMvdGreater1Flag => [CtxInc::Number(0), CtxInc::NA, CtxInc::NA, CtxInc::NA, CtxInc::NA, CtxInc::NA],
        CabacContext::AbsMvd => [CtxInc::Bypass, CtxInc::Bypass, CtxInc::Bypass, CtxInc::Bypass, CtxInc::Bypass, CtxInc::Bypass],
        CabacContext::MvdSignFlag => [CtxInc::Bypass, CtxInc::NA, CtxInc::NA, CtxInc::NA, CtxInc::NA, CtxInc::NA],
        CabacContext::TuYCodedFlag => [CtxInc::Invalid, CtxInc::NA, CtxInc::NA, CtxInc::NA, CtxInc::NA, CtxInc::NA],
        CabacContext::TuCbCodedFlag => [CtxInc::Invalid, CtxInc::NA, CtxInc::NA, CtxInc::NA, CtxInc::NA, CtxInc::NA],
        CabacContext::TuCrCodedFlag => [CtxInc::Invalid, CtxInc::NA, CtxInc::NA, CtxInc::NA, CtxInc::NA, CtxInc::NA],
        CabacContext::CuQpDeltaAbs => [CtxInc::Number(0), CtxInc::Number(1), CtxInc::Number(1), CtxInc::Number(1), CtxInc::Number(1), CtxInc::Bypass],
        CabacContext::CuQpDeltaSignFlag => [CtxInc::Bypass, CtxInc::NA, CtxInc::NA, CtxInc::NA, CtxInc::NA, CtxInc::NA],
        CabacContext::CuChromaQpOffsetFlag => [CtxInc::Number(0), CtxInc::NA, CtxInc::NA, CtxInc::NA, CtxInc::NA, CtxInc::NA],
        CabacContext::CuChromaQpOffsetIdx => [CtxInc::Number(0), CtxInc::Number(0), CtxInc::Number(0), CtxInc::Number(0), CtxInc::Number(0), CtxInc::NA],
        CabacContext::TransformSkipFlag => [CtxInc::Invalid, CtxInc::NA, CtxInc::NA, CtxInc::NA, CtxInc::NA, CtxInc::NA],
        CabacContext::TuJointCbcrResidualFlag => [CtxInc::Invalid, CtxInc::NA, CtxInc::NA, CtxInc::NA, CtxInc::NA, CtxInc::NA],
        CabacContext::LastSigCoeffXPrefix => [CtxInc::Invalid, CtxInc::Invalid, CtxInc::Invalid, CtxInc::Invalid, CtxInc::Invalid, CtxInc::Invalid],
        CabacContext::LastSigCoeffYPrefix => [CtxInc::Invalid, CtxInc::Invalid, CtxInc::Invalid, CtxInc::Invalid, CtxInc::Invalid, CtxInc::Invalid],
        CabacContext::LastSigCoeffXSuffix => [CtxInc::Bypass, CtxInc::Bypass, CtxInc::Bypass, CtxInc::Bypass, CtxInc::Bypass, CtxInc::Bypass],
        CabacContext::LastSigCoeffYSuffix => [CtxInc::Bypass, CtxInc::Bypass, CtxInc::Bypass, CtxInc::Bypass, CtxInc::Bypass, CtxInc::Bypass],
        CabacContext::SbCodedFlag => [CtxInc::Invalid, CtxInc::NA, CtxInc::NA, CtxInc::NA, CtxInc::NA, CtxInc::NA],
        CabacContext::SigCoeffFlag => [CtxInc::Invalid, CtxInc::NA, CtxInc::NA, CtxInc::NA, CtxInc::NA, CtxInc::NA],
        CabacContext::ParLevelFlag => [CtxInc::Invalid, CtxInc::NA, CtxInc::NA, CtxInc::NA, CtxInc::NA, CtxInc::NA],
        CabacContext::AbsLevelGtxFlag => [CtxInc::Invalid, CtxInc::NA, CtxInc::NA, CtxInc::NA, CtxInc::NA, CtxInc::NA],
        CabacContext::AbsRemainder => [CtxInc::Bypass, CtxInc::Bypass, CtxInc::Bypass, CtxInc::Bypass, CtxInc::Bypass, CtxInc::Bypass],
        CabacContext::DecAbsLevel => [CtxInc::Bypass, CtxInc::Bypass, CtxInc::Bypass, CtxInc::Bypass, CtxInc::Bypass, CtxInc::Bypass],
        CabacContext::CoeffSignFlag => [CtxInc::Invalid, CtxInc::NA, CtxInc::NA, CtxInc::NA, CtxInc::NA, CtxInc::NA],
        CabacContext::EndOfSliceOneBit => [CtxInc::Terminate, CtxInc::NA, CtxInc::NA, CtxInc::NA, CtxInc::NA, CtxInc::NA],
        CabacContext::EndOfTileOneBit => [CtxInc::Terminate, CtxInc::NA, CtxInc::NA, CtxInc::NA, CtxInc::NA, CtxInc::NA],
        CabacContext::EndOfSubsetOneBit => [CtxInc::Terminate, CtxInc::NA, CtxInc::NA, CtxInc::NA, CtxInc::NA, CtxInc::NA],
    }
}

/// The initialization values of the context variables of a syntax element, for one initialization type.
pub open spec fn spec_ctx_init_values(ctx: usize, init_type: usize) -> Seq<u8> {
    match ctx {
        0 => match init_type {
            0 => seq![62u8, 39, 39, 54, 39, 39, 31, 39, 39],
            1 => seq![13u8, 23, 46, 4, 61, 54, 19, 46, 54],
            _ => seq![33u8, 52, 46, 25, 61, 54, 25, 61, 54],
        },
        1 => match init_type {
            0 => seq![46u8],
            1 => seq![46u8],
            _ => seq![46u8],
        },
        2 => match init_type {
            0 => seq![18u8, 30, 31],
            1 => seq![18u8, 21, 31],
            _ => seq![25u8, 35, 38],
        },
        3 => match init_type {
            0 => seq![18u8, 30, 31],
            1 => seq![18u8, 21, 31],
            _ => seq![25u8, 28, 38],
        },
        6 => match init_type {
            0 => seq![11u8, 11],
            1 => seq![20u8, 12],
            _ => seq![11u8, 26],
        },
        7 => match init_type {
            0 => seq![60u8],
            1 => seq![60u8],
            _ => seq![2u8],
        },
        8 => match init_type {
            0 => seq![60u8],
            1 => seq![60u8],
            _ => seq![2u8],
        },
        9 => match init_type {
            0 => seq![13u8],
            1 => seq![5u8],
            _ => seq![2u8],
        },
        10 => match init_type {
            0 => seq![13u8],
            1 => seq![5u8],
            _ => seq![2u8],
        },
        16 => match init_type {
            0 => seq![19u8, 28, 38, 27, 29, 38, 20, 30, 31],
            1 => seq![11u8, 35, 53, 12, 6, 30, 13, 15, 31],
            _ => seq![18u8, 27, 15, 18, 28, 45, 26, 7, 23],
        },
        17 => match init_type {
            0 => seq![27u8, 6, 15, 25, 19, 37],
            1 => seq![20u8, 14, 23, 18, 19, 6],
            _ => seq![26u8, 36, 38, 18, 34, 21],
        },
        18 => match init_type {
            0 => seq![43u8, 42, 29, 27, 44],
            1 => seq![43u8, 35, 37, 34, 52],
            _ => seq![43u8, 42, 37, 42, 44],
        },
        19 => match init_type {
            0 => seq![36u8, 45, 36, 45],
            1 => seq![43u8, 37, 21, 22],
            _ => seq![28u8, 29, 28, 29],
        },
        20 => match init_type {
            0 => seq![0u8, 0],
            1 => seq![25u8, 12],
            _ => seq![25u8, 20],
        },
        21 => match init_type {
            0 => seq![0u8, 26, 28],
            1 => seq![57u8, 59, 45],
            _ => seq![57u8, 60, 46],
        },
        22 => match init_type {
            0 => seq![17u8, 42, 36],
            1 => seq![0u8, 57, 44],
            _ => seq![0u8, 43, 45],
        },
        23 => match init_type {
            0 => seq![0u8, 0],
            1 => seq![40u8, 35],
            _ => seq![40u8, 35],
        },
        24 => match init_type {
            0 => seq![25u8],
            1 => seq![0u8],
            _ => seq![17u8],
        },
        25 => match init_type {
            0 => seq![52u8],
            1 => seq![46u8],
            _ => seq![46u8],
        },
        26 => match init_type {
            0 => seq![19u8],
            1 => seq![40u8],
            _ => seq![19u8],
        },
        27 => match init_type {
            0 => seq![35u8],
            1 => seq![36u8],
            _ => seq![21u8],
        },
        28 => match init_type {
            0 => seq![33u8, 49, 50, 25],
            1 => seq![41u8, 57, 58, 26],
            _ => seq![56u8, 57, 50, 26],
        },
        31 => match init_type {
            0 => seq![25u8, 60],
            1 => seq![25u8, 58],
            _ => seq![25u8, 59],
        },
        32 => match init_type {
            0 => seq![33u8],
            1 => seq![33u8],
            _ => seq![33u8],
        },
        33 => match init_type {
            0 => seq![43u8],
            1 => seq![36u8],
            _ => seq![43u8],
        },
        34 => match init_type {
            0 => seq![45u8],
            1 => seq![36u8],
            _ => seq![44u8],
        },
        35 => match init_type {
            0 => seq![13u8, 28],
            1 => seq![12u8, 20],
            _ => seq![13u8, 6],
        },
        38 => match init_type {
            0 => seq![1u8],
            1 => seq![0u8],
            _ => seq![0u8],
        },
        39 => match init_type {
            0 => seq![27u8],
            1 => seq![13u8],
            _ => seq![28u8],
        },
        40 => match init_type {
            0 => seq![59u8],
            1 => seq![34u8],
            _ => seq![26u8],
        },
        41 => match init_type {
            0 => seq![27u8],
            1 => seq![27u8],
            _ => seq![27u8],
        },
        42 => match init_type {
            0 => seq![34u8],
            1 => seq![25u8],
            _ => seq![25u8],
        },
        49 => match init_type {
            0 => seq![26u8],
            1 => seq![21u8],
            _ => seq![6u8],
        },
        50 => match init_type {
            0 => seq![0u8, 0, 0, 0, 0, 0],
            1 => seq![7u8, 6, 5, 12, 4, 40],
            _ => seq![14u8, 13, 5, 4, 3, 40],
        },
        51 => match init_type {
            0 => seq![0u8, 0, 0],
            1 => seq![12u8, 13, 14],
            _ => seq![19u8, 13, 6],
        },
        52 => match init_type {
            0 => seq![0u8],
            1 => seq![35u8],
            _ => seq![35u8],
        },
        53 => match init_type {
            0 => seq![0u8],
            1 => seq![28u8],
            _ => seq![28u8],
        },
        54 => match init_type {
            0 => seq![0u8, 0],
            1 => seq![20u8, 35],
            _ => seq![5u8, 35],
        },
        55 => match init_type {
            0 => seq![0u8, 0],
            1 => seq![20u8, 35],
            _ => seq![5u8, 35],
        },
        56 => match init_type {
            0 => seq![42u8],
            1 => seq![34u8],
            _ => seq![34u8],
        },
        57 => match init_type {
            0 => seq![42u8],
            1 => seq![34u8],
            _ => seq![34u8],
        },
        58 => match init_type {
            0 => seq![0u8, 0],
            1 => seq![59u8, 58],
            _ => seq![59u8, 50],
        },
        59 => match init_type {
            0 => seq![35u8, 34, 35],
            1 => seq![60u8, 48, 60],
            _ => seq![38u8, 26, 60],
        },
        60 => match init_type {
            0 => seq![0u8],
            1 => seq![4u8],
            _ => seq![5u8],
        },
        61 => match init_type {
            0 => seq![6u8],
            1 => seq![5u8],
            _ => seq![12u8],
        },
        62 => match init_type {
            0 => seq![0u8, 0],
            1 => seq![56u8, 57],
            _ => seq![41u8, 57],
        },
        63 => match init_type {
            0 => seq![0u8],
            1 => seq![42u8],
            _ => seq![42u8],
        },
        64 => match init_type {
            0 => seq![0u8, 0, 0],
            1 => seq![20u8, 43, 12],
            _ => seq![35u8, 51, 27],
        },
        65 => match init_type {
            0 => seq![0u8],
            1 => seq![28u8],
            _ => seq![28u8],
        },
        66 => match init_type {
            0 => seq![28u8, 52, 42],
            1 => seq![37u8, 45, 27],
            _ => seq![52u8, 37, 27],
        },
        67 => match init_type {
            0 => seq![29u8, 0, 28, 0],
            1 => seq![45u8, 40, 27, 0],
            _ => seq![45u8, 25, 27, 0],
        },
        68 => match init_type {
            0 => seq![42u8],
            1 => seq![59u8],
            _ => seq![50u8],
        },
        69 => match init_type {
            0 => seq![42u8],
            1 => seq![42u8],
            _ => seq![35u8],
        },
        70 => match init_type {
            0 => seq![50u8, 37, 45, 30, 46, 45, 38, 46],
            1 => seq![51u8, 30, 30, 38, 23, 38, 53, 46],
            _ => seq![58u8, 45, 45, 30, 38, 45, 38, 46],
        },
        71 => match init_type {
            0 => seq![0u8, 0],
            1 => seq![38u8, 7],
            _ => seq![46u8, 15],
        },
        72 => match init_type {
            0 => seq![0u8],
            1 => seq![26u8],
            _ => seq![25u8],
        },
        73 => match init_type {
            0 => seq![0u8],
            1 => seq![43u8],
            _ => seq![43u8],
        },
        74 => match init_type {
            0 => seq![0u8],
            1 => seq![60u8],
            _ => seq![59u8],
        },
        76 => match init_type {
            0 => seq![0u8],
            1 => seq![57u8],
            _ => seq![57u8],
        },
        77 => match init_type {
            0 => seq![0u8, 0, 0],
            1 => seq![48u8, 57, 44],
            _ => seq![25u8, 58, 45],
        },
        78 => match init_type {
            0 => seq![0u8],
            1 => seq![5u8],
            _ => seq![4u8],
        },
        79 => match init_type {
            0 => seq![34u8],
            1 => seq![20u8],
            _ => seq![18u8],
        },
        81 => match init_type {
            0 => seq![34u8],
            1 => seq![20u8],
            _ => seq![18u8],
        },
        82 => match init_type {
            0 => seq![34u8],
            1 => seq![20u8],
            _ => seq![18u8],
        },
        83 => match init_type {
            0 => seq![14u8],
            1 => seq![44u8],
            _ => seq![51u8],
        },
        84 => match init_type {
            0 => seq![45u8],
            1 => seq![43u8],
            _ => seq![36u8],
        },
        87 => match init_type {
            0 => seq![15u8, 12, 5, 7],
            1 => seq![23u8, 5, 20, 7],
            _ => seq![15u8, 6, 5, 14],
        },
        88 => match init_type {
            0 => seq![12u8, 21],
            1 => seq![25u8, 28],
            _ => seq![25u8, 37],
        },
        89 => match init_type {
            0 => seq![33u8, 28, 36],
            1 => seq![25u8, 29, 45],
            _ => seq![9u8, 36, 45],
        },
        90 => match init_type {
            0 => seq![35u8, 35],
            1 => seq![35u8, 35],
            _ => seq![35u8, 35],
        },
        92 => match init_type {
            0 => seq![35u8],
            1 => seq![35u8],
            _ => seq![35u8],
        },
        93 => match init_type {
            0 => seq![35u8],
            1 => seq![35u8],
            _ => seq![35u8],
        },
        94 => match init_type {
            0 => seq![25u8, 9],
            1 => seq![25u8, 9],
            _ => seq![25u8, 17],
        },
        95 => match init_type {
            0 => seq![12u8, 21, 35],
            1 => seq![27u8, 36, 45],
            _ => seq![42u8, 43, 52],
        },
        96 => match init_type {
            0 => seq![13u8, 5, 4, 21, 14, 4, 6, 14, 21, 11, 14, 7, 14, 5, 11, 21, 30, 22, 13, 42, 12, 4, 3],
            1 => seq![6u8, 13, 12, 6, 6, 12, 14, 14, 13, 12, 29, 7, 6, 13, 36, 28, 14, 13, 5, 26, 12, 4, 18],
            _ => seq![6u8, 6, 12, 14, 6, 4, 14, 7, 6, 4, 29, 7, 6, 6, 12, 28, 7, 13, 13, 35, 19, 5, 4],
        },
        97 => match init_type {
            0 => seq![13u8, 5, 4, 6, 13, 11, 14, 6, 5, 3, 14, 22, 6, 4, 3, 6, 22, 29, 20, 34, 12, 4, 3],
            1 => seq![5u8, 5, 12, 6, 6, 4, 6, 14, 5, 12, 14, 7, 13, 5, 13, 21, 14, 20, 12, 34, 11, 4, 18],
            _ => seq![5u8, 5, 20, 13, 13, 19, 21, 6, 12, 12, 14, 14, 5, 4, 12, 13, 7, 13, 12, 41, 11, 5, 27],
        },
        100 => match init_type {
            0 => seq![18u8, 31, 25, 15, 18, 20, 38],
            1 => seq![25u8, 30, 25, 45, 18, 12, 29],
            _ => seq![25u8, 45, 25, 14, 18, 35, 45],
        },
        101 => match init_type {
            0 => seq![25u8, 19, 28, 14, 25, 20, 29, 30, 19, 37, 30, 38, 11, 38, 46, 54, 27, 39, 39, 39, 44, 39, 39, 39, 18, 39, 39, 39, 27, 39, 39, 39, 0, 39, 39, 39, 25, 27, 28, 37, 34, 53, 53, 46, 19, 46, 38, 39, 52, 39, 39, 39, 11, 39, 39, 39, 19, 39, 39, 39, 25, 28, 38],
            1 => seq![17u8, 41, 42, 29, 25, 49, 43, 37, 33, 58, 51, 30, 19, 38, 38, 46, 34, 54, 54, 39, 6, 39, 39, 39, 19, 39, 54, 39, 19, 39, 39, 39, 56, 39, 39, 39, 17, 34, 35, 21, 41, 59, 60, 38, 35, 45, 53, 54, 44, 39, 39, 39, 34, 38, 62, 39, 26, 39, 39, 39, 40, 35, 44],
            _ => seq![17u8, 41, 49, 36, 1, 49, 50, 37, 48, 51, 58, 45, 26, 45, 53, 46, 49, 54, 61, 39, 35, 39, 39, 39, 19, 54, 39, 39, 50, 39, 39, 39, 0, 39, 39, 39, 9, 49, 50, 36, 48, 59, 59, 38, 34, 45, 38, 31, 58, 39, 39, 39, 34, 38, 54, 39, 41, 39, 39, 39, 25, 50, 37],
        },
        102 => match init_type {
            0 => seq![33u8, 25, 18, 26, 34, 27, 25, 26, 19, 42, 35, 33, 19, 27, 35, 35, 34, 42, 20, 43, 20, 33, 25, 26, 42, 19, 27, 26, 50, 35, 20, 43, 11],
            1 => seq![18u8, 17, 33, 18, 26, 42, 25, 33, 26, 42, 27, 25, 34, 42, 42, 35, 26, 27, 42, 20, 20, 25, 25, 26, 11, 19, 27, 33, 42, 35, 35, 43, 3],
            _ => seq![33u8, 40, 25, 41, 26, 42, 25, 33, 26, 34, 27, 25, 41, 42, 42, 35, 33, 27, 35, 42, 43, 33, 25, 26, 34, 19, 27, 33, 42, 43, 35, 43, 11],
        },
        103 => match init_type {
            0 => seq![25u8, 25, 11, 27, 20, 21, 33, 12, 28, 21, 22, 34, 28, 29, 29, 30, 36, 29, 45, 30, 23, 40, 33, 27, 28, 21, 37, 36, 37, 45, 38, 46, 25, 1, 40, 25, 33, 11, 17, 25, 25, 18, 4, 17, 33, 26, 19, 13, 33, 19, 20, 28, 22, 40, 9, 25, 18, 26, 35, 25, 26, 35, 28, 37, 11, 5, 5, 14, 10, 3, 3, 3],
            1 => seq![0u8, 17, 26, 19, 35, 21, 25, 34, 20, 28, 29, 33, 27, 28, 29, 22, 34, 28, 44, 37, 38, 0, 25, 19, 20, 13, 14, 57, 44, 30, 30, 23, 17, 0, 1, 17, 25, 18, 0, 9, 25, 33, 34, 9, 25, 18, 26, 20, 25, 18, 19, 27, 29, 17, 9, 25, 10, 18, 4, 17, 33, 19, 20, 29, 18, 11, 4, 28, 2, 10, 3, 3],
            _ => seq![0u8, 0, 33, 34, 35, 21, 25, 34, 35, 28, 29, 40, 42, 43, 29, 30, 49, 36, 37, 45, 38, 0, 40, 34, 43, 36, 37, 57, 52, 45, 38, 46, 25, 0, 0, 17, 25, 26, 0, 9, 25, 33, 19, 0, 25, 33, 26, 20, 25, 33, 27, 35, 22, 25, 1, 25, 33, 26, 12, 25, 33, 27, 28, 37, 19, 11, 4, 6, 3, 4, 4, 5],
        },
        106 => match init_type {
            0 => seq![12u8, 17, 46, 28, 25, 46],
            1 => seq![5u8, 10, 53, 43, 25, 46],
            _ => seq![35u8, 25, 46, 28, 33, 38],
        },
        _ => Seq::empty(),
    }
}

/// The initialization values of the context variables of a syntax element, for one initialization type.
pub fn ctx_init_values_at(ctx: usize, init_type: usize, ctx_idx: usize) -> (r: u8)
    requires
        init_type < 3,
        ctx_idx < spec_ctx_init_values(ctx, init_type).len(),
    ensures
        r == spec_ctx_init_values(ctx, init_type)[ctx_idx as int],
{
    match ctx {
        0 => match init_type {
            0 => {
                let t: [u8; 9] = [62, 39, 39, 54, 39, 39, 31, 39, 39];
                t[ctx_idx]
            },
            1 => {
                let t: [u8; 9] = [13, 23, 46, 4, 61, 54, 19, 46, 54];
                t[ctx_idx]
            },
            _ => {
                let t: [u8; 9] = [33, 52, 46, 25, 61, 54, 25, 61, 54];
                t[ctx_idx]
            },
        },
        1 => match init_type {
            0 => {
                let t: [u8; 1] = [46];
                t[ctx_idx]
            },
            1 => {
                let t: [u8; 1] = [46];
                t[ctx_idx]
            },
            _ => {
                let t: [u8; 1] = [46];
                t[ctx_idx]
            },
        },
        2 => match init_type {
            0 => {
                let t: [u8; 3] = [18, 30, 31];
                t[ctx_idx]
            },
            1 => {
                let t: [u8; 3] = [18, 21, 31];
                t[ctx_idx]
            },
            _ => {
                let t: [u8; 3] = [25, 35, 38];
                t[ctx_idx]
            },
        },
        3 => match init_type {
            0 => {
                let t: [u8; 3] = [18, 30, 31];
                t[ctx_idx]
            },
            1 => {
                let t: [u8; 3] = [18, 21, 31];
                t[ctx_idx]
            },
            _ => {
                let t: [u8; 3] = [25, 28, 38];
                t[ctx_idx]
            },
        },
        6 => match init_type {
            0 => {
                let t: [u8; 2] = [11, 11];
                t[ctx_idx]
            },
            1 => {
                let t: [u8; 2] = [20, 12];
                t[ctx_idx]
            },
            _ => {
                let t: [u8; 2] = [11, 26];
                t[ctx_idx]
            },
        },
        7 => match init_type {
            0 => {
                let t: [u8; 1] = [60];
                t[ctx_idx]
            },
            1 => {
                let t: [u8; 1] = [60];
                t[ctx_idx]
            },
            _ => {
                let t: [u8; 1] = [2];
                t[ctx_idx]
            },
        },
        8 => match init_type {
            0 => {
                let t: [u8; 1] = [60];
                t[ctx_idx]
            },
            1 => {
                let t: [u8; 1] = [60];
                t[ctx_idx]
            },
            _ => {
                let t: [u8; 1] = [2];
                t[ctx_idx]
            },
        },
        9 => match init_type {
            0 => {
                let t: [u8; 1] = [13];
                t[ctx_idx]
            },
            1 => {
                let t: [u8; 1] = [5];
                t[ctx_idx]
            },
            _ => {
                let t: [u8; 1] = [2];
                t[ctx_idx]
            },
        },
        10 => match init_type {
            0 => {
                let t: [u8; 1] = [13];
                t[ctx_idx]
            },
            1 => {
                let t: [u8; 1] = [5];
                t[ctx_idx]
            },
            _ => {
                let t: [u8; 1] = [2];
                t[ctx_idx]
            },
        },
        16 => match init_type {
            0 => {
                let t: [u8; 9] = [19, 28, 38, 27, 29, 38, 20, 30, 31];
                t[ctx_idx]
            },
            1 => {
                let t: [u8; 9] = [11, 35, 53, 12, 6, 30, 13, 15, 31];
                t[ctx_idx]
            },
            _ => {
                let t: [u8; 9] = [18, 27, 15, 18, 28, 45, 26, 7, 23];
                t[ctx_idx]
            },
        },
        17 => match init_type {
            0 => {
                let t: [u8; 6] = [27, 6, 15, 25, 19, 37];
                t[ctx_idx]
            },
            1 => {
                let t: [u8; 6] = [20, 14, 23, 18, 19, 6];
                t[ctx_idx]
            },
            _ => {
                let t: [u8; 6] = [26, 36, 38, 18, 34, 21];
                t[ctx_idx]
            },
        },
        18 => match init_type {
            0 => {
                let t: [u8; 5] = [43, 42, 29, 27, 44];
                t[ctx_idx]
            },
            1 => {
                let t: [u8; 5] = [43, 35, 37, 34, 52];
                t[ctx_idx]
            },
            _ => {
                let t: [u8; 5] = [43, 42, 37, 42, 44];
                t[ctx_idx]
            },
        },
        19 => match init_type {
            0 => {
                let t: [u8; 4] = [36, 45, 36, 45];
                t[ctx_idx]
            },
            1 => {
                let t: [u8; 4] = [43, 37, 21, 22];
                t[ctx_idx]
            },
            _ => {
                let t: [u8; 4] = [28, 29, 28, 29];
                t[ctx_idx]
            },
        },
        20 => match init_type {
            0 => {
                let t: [u8; 2] = [0, 0];
                t[ctx_idx]
            },
            1 => {
                let t: [u8; 2] = [25, 12];
                t[ctx_idx]
            },
            _ => {
                let t: [u8; 2] = [25, 20];
                t[ctx_idx]
            },
        },
        21 => match init_type {
            0 => {
                let t: [u8; 3] = [0, 26, 28];
                t[ctx_idx]
            },
            1 => {
                let t: [u8; 3] = [57, 59, 45];
                t[ctx_idx]
            },
            _ => {
                let t: [u8; 3] = [57, 60, 46];
                t[ctx_idx]
            },
        },
        22 => match init_type {
            0 => {
                let t: [u8; 3] = [17, 42, 36];
                t[ctx_idx]
            },
            1 => {
                let t: [u8; 3] = [0, 57, 44];
                t[ctx_idx]
            },
            _ => {
                let t: [u8; 3] = [0, 43, 45];
                t[ctx_idx]
            },
        },
        23 => match init_type {
            0 => {
                let t: [u8; 2] = [0, 0];
                t[ctx_idx]
            },
            1 => {
                let t: [u8; 2] = [40, 35];
                t[ctx_idx]
            },
            _ => {
                let t: [u8; 2] = [40, 35];
                t[ctx_idx]
            },
        },
        24 => match init_type {
            0 => {
                let t: [u8; 1] = [25];
                t[ctx_idx]
            },
            1 => {
                let t: [u8; 1] = [0];
                t[ctx_idx]
            },
            _ => {
                let t: [u8; 1] = [17];
                t[ctx_idx]
            },
        },
        25 => match init_type {
            0 => {
                let t: [u8; 1] = [52];
                t[ctx_idx]
            },
            1 => {
                let t: [u8; 1] = [46];
                t[ctx_idx]
            },
            _ => {
                let t: [u8; 1] = [46];
                t[ctx_idx]
            },
        },
        26 => match init_type {
            0 => {
                let t: [u8; 1] = [19];
                t[ctx_idx]
            },
            1 => {
                let t: [u8; 1] = [40];
                t[ctx_idx]
            },
            _ => {
                let t: [u8; 1] = [19];
                t[ctx_idx]
            },
        },
        27 => match init_type {
            0 => {
                let t: [u8; 1] = [35];
                t[ctx_idx]
            },
            1 => {
                let t: [u8; 1] = [36];
                t[ctx_idx]
            },
            _ => {
                let t: [u8; 1] = [21];
                t[ctx_idx]
            },
        },
        28 => match init_type {
            0 => {
                let t: [u8; 4] = [33, 49, 50, 25];
                t[ctx_idx]
            },
            1 => {
                let t: [u8; 4] = [41, 57, 58, 26];
                t[ctx_idx]
            },
            _ => {
                let t: [u8; 4] = [56, 57, 50, 26];
                t[ctx_idx]
            },
        },
        31 => match init_type {
            0 => {
                let t: [u8; 2] = [25, 60];
                t[ctx_idx]
            },
            1 => {
                let t: [u8; 2] = [25, 58];
                t[ctx_idx]
            },
            _ => {
                let t: [u8; 2] = [25, 59];
                t[ctx_idx]
            },
        },
        32 => match init_type {
            0 => {
                let t: [u8; 1] = [33];
                t[ctx_idx]
            },
            1 => {
                let t: [u8; 1] = [33];
                t[ctx_idx]
            },
            _ => {
                let t: [u8; 1] = [33];
                t[ctx_idx]
            },
        },
        33 => match init_type {
            0 => {
                let t: [u8; 1] = [43];
                t[ctx_idx]
            },
            1 => {
                let t: [u8; 1] = [36];
                t[ctx_idx]
            },
            _ => {
                let t: [u8; 1] = [43];
                t[ctx_idx]
            },
        },
        34 => match init_type {
            0 => {
                let t: [u8; 1] = [45];
                t[ctx_idx]
            },
            1 => {
                let t: [u8; 1] = [36];
                t[ctx_idx]
            },
            _ => {
                let t: [u8; 1] = [44];
                t[ctx_idx]
            },
        },
        35 => match init_type {
            0 => {
                let t: [u8; 2] = [13, 28];
                t[ctx_idx]
            },
            1 => {
                let t: [u8; 2] = [12, 20];
                t[ctx_idx]
            },
            _ => {
                let t: [u8; 2] = [13, 6];
                t[ctx_idx]
            },
        },
        38 => match init_type {
            0 => {
                let t: [u8; 1] = [1];
                t[ctx_idx]
            },
            1 => {
                let t: [u8; 1] = [0];
                t[ctx_idx]
            },
            _ => {
                let t: [u8; 1] = [0];
                t[ctx_idx]
            },
        },
        39 => match init_type {
            0 => {
                let t: [u8; 1] = [27];
                t[ctx_idx]
            },
            1 => {
                let t: [u8; 1] = [13];
                t[ctx_idx]
            },
            _ => {
                let t: [u8; 1] = [28];
                t[ctx_idx]
            },
        },
        40 => match init_type {
            0 => {
                let t: [u8; 1] = [59];
                t[ctx_idx]
            },
            1 => {
                let t: [u8; 1] = [34];
                t[ctx_idx]
            },
            _ => {
                let t: [u8; 1] = [26];
                t[ctx_idx]
            },
        },
        41 => match init_type {
            0 => {
                let t: [u8; 1] = [27];
                t[ctx_idx]
            },
            1 => {
                let t: [u8; 1] = [27];
                t[ctx_idx]
            },
            _ => {
                let t: [u8; 1] = [27];
                t[ctx_idx]
            },
        },
        42 => match init_type {
            0 => {
                let t: [u8; 1] = [34];
                t[ctx_idx]
            },
            1 => {
                let t: [u8; 1] = [25];
                t[ctx_idx]
            },
            _ => {
                let t: [u8; 1] = [25];
                t[ctx_idx]
            },
        },
        49 => match init_type {
            0 => {
                let t: [u8; 1] = [26];
                t[ctx_idx]
            },
            1 => {
                let t: [u8; 1] = [21];
                t[ctx_idx]
            },
            _ => {
                let t: [u8; 1] = [6];
                t[ctx_idx]
            },
        },
        50 => match init_type {
            0 => {
                let t: [u8; 6] = [0, 0, 0, 0, 0, 0];
                t[ctx_idx]
            },
            1 => {
                let t: [u8; 6] = [7, 6, 5, 12, 4, 40];
                t[ctx_idx]
            },
            _ => {
                let t: [u8; 6] = [14, 13, 5, 4, 3, 40];
                t[ctx_idx]
            },
        },
        51 => match init_type {
            0 => {
                let t: [u8; 3] = [0, 0, 0];
                t[ctx_idx]
            },
            1 => {
                let t: [u8; 3] = [12, 13, 14];
                t[ctx_idx]
            },
            _ => {
                let t: [u8; 3] = [19, 13, 6];
                t[ctx_idx]
            },
        },
        52 => match init_type {
            0 => {
                let t: [u8; 1] = [0];
                t[ctx_idx]
            },
            1 => {
                let t: [u8; 1] = [35];
                t[ctx_idx]
            },
            _ => {
                let t: [u8; 1] = [35];
                t[ctx_idx]
            },
        },
        53 => match init_type {
            0 => {
                let t: [u8; 1] = [0];
                t[ctx_idx]
            },
            1 => {
                let t: [u8; 1] = [28];
                t[ctx_idx]
            },
            _ => {
                let t: [u8; 1] = [28];
                t[ctx_idx]
            },
        },
        54 => match init_type {
            0 => {
                let t: [u8; 2] = [0, 0];
                t[ctx_idx]
            },
            1 => {
                let t: [u8; 2] = [20, 35];
                t[ctx_idx]
            },
            _ => {
                let t: [u8; 2] = [5, 35];
                t[ctx_idx]
            },
        },
        55 => match init_type {
            0 => {
                let t: [u8; 2] = [0, 0];
                t[ctx_idx]
            },
            1 => {
                let t: [u8; 2] = [20, 35];
                t[ctx_idx]
            },
            _ => {
                let t: [u8; 2] = [5, 35];
                t[ctx_idx]
            },
        },
        56 => match init_type {
            0 => {
                let t: [u8; 1] = [42];
                t[ctx_idx]
            },
            1 => {
                let t: [u8; 1] = [34];
                t[ctx_idx]
            },
            _ => {
                let t: [u8; 1] = [34];
                t[ctx_idx]
            },
        },
        57 => match init_type {
            0 => {
                let t: [u8; 1] = [42];
                t[ctx_idx]
            },
            1 => {
                let t: [u8; 1] = [34];
                t[ctx_idx]
            },
            _ => {
                let t: [u8; 1] = [34];
                t[ctx_idx]
            },
        },
        58 => match init_type {
            0 => {
                let t: [u8; 2] = [0, 0];
                t[ctx_idx]
            },
            1 => {
                let t: [u8; 2] = [59, 58];
                t[ctx_idx]
            },
            _ => {
                let t: [u8; 2] = [59, 50];
                t[ctx_idx]
            },
        },
        59 => match init_type {
            0 => {
                let t: [u8; 3] = [35, 34, 35];
                t[ctx_idx]
            },
            1 => {
                let t: [u8; 3] = [60, 48, 60];
                t[ctx_idx]
            },
            _ => {
                let t: [u8; 3] = [38, 26, 60];
                t[ctx_idx]
            },
        },
        60 => match init_type {
            0 => {
                let t: [u8; 1] = [0];
                t[ctx_idx]
            },
            1 => {
                let t: [u8; 1] = [4];
                t[ctx_idx]
            },
            _ => {
                let t: [u8; 1] = [5];
                t[ctx_idx]
            },
        },
        61 => match init_type {
            0 => {
                let t: [u8; 1] = [6];
                t[ctx_idx]
            },
            1 => {
                let t: [u8; 1] = [5];
                t[ctx_idx]
            },
            _ => {
                let t: [u8; 1] = [12];
                t[ctx_idx]
            },
        },
        62 => match init_type {
            0 => {
                let t: [u8; 2] = [0, 0];
                t[ctx_idx]
            },
            1 => {
                let t: [u8; 2] = [56, 57];
                t[ctx_idx]
            },
            _ => {
                let t: [u8; 2] = [41, 57];
                t[ctx_idx]
            },
        },
        63 => match init_type {
            0 => {
                let t: [u8; 1] = [0];
                t[ctx_idx]
            },
            1 => {
                let t: [u8; 1] = [42];
                t[ctx_idx]
            },
            _ => {
                let t: [u8; 1] = [42];
                t[ctx_idx]
            },
        },
        64 => match init_type {
            0 => {
                let t: [u8; 3] = [0, 0, 0];
                t[ctx_idx]
            },
            1 => {
                let t: [u8; 3] = [20, 43, 12];
                t[ctx_idx]
            },
            _ => {
                let t: [u8; 3] = [35, 51, 27];
                t[ctx_idx]
            },
        },
        65 => match init_type {
            0 => {
                let t: [u8; 1] = [0];
                t[ctx_idx]
            },
            1 => {
                let t: [u8; 1] = [28];
                t[ctx_idx]
            },
            _ => {
                let t: [u8; 1] = [28];
                t[ctx_idx]
            },
        },
        66 => match init_type {
            0 => {
                let t: [u8; 3] = [28, 52, 42];
                t[ctx_idx]
            },
            1 => {
                let t: [u8; 3] = [37, 45, 27];
                t[ctx_idx]
            },
            _ => {
                let t: [u8; 3] = [52, 37, 27];
                t[ctx_idx]
            },
        },
        67 => match init_type {
            0 => {
                let t: [u8; 4] = [29, 0, 28, 0];
                t[ctx_idx]
            },
            1 => {
                let t: [u8; 4] = [45, 40, 27, 0];
                t[ctx_idx]
            },
            _ => {
                let t: [u8; 4] = [45, 25, 27, 0];
                t[ctx_idx]
            },
        },
        68 => match init_type {
            0 => {
                let t: [u8; 1] = [42];
                t[ctx_idx]
            },
            1 => {
                let t: [u8; 1] = [59];
                t[ctx_idx]
            },
            _ => {
                let t: [u8; 1] = [50];
                t[ctx_idx]
            },
        },
        69 => match init_type {
            0 => {
                let t: [u8; 1] = [42];
                t[ctx_idx]
            },
            1 => {
                let t: [u8; 1] = [42];
                t[ctx_idx]
            },
            _ => {
                let t: [u8; 1] = [35];
                t[ctx_idx]
            },
        },
        70 => match init_type {
            0 => {
                let t: [u8; 8] = [50, 37, 45, 30, 46, 45, 38, 46];
                t[ctx_idx]
            },
            1 => {
                let t: [u8; 8] = [51, 30, 30, 38, 23, 38, 53, 46];
                t[ctx_idx]
            },
            _ => {
                let t: [u8; 8] = [58, 45, 45, 30, 38, 45, 38, 46];
                t[ctx_idx]
            },
        },
        71 => match init_type {
            0 => {
                let t: [u8; 2] = [0, 0];
                t[ctx_idx]
            },
            1 => {
                let t: [u8; 2] = [38, 7];
                t[ctx_idx]
            },
            _ => {
                let t: [u8; 2] = [46, 15];
                t[ctx_idx]
            },
        },
        72 => match init_type {
            0 => {
                let t: [u8; 1] = [0];
                t[ctx_idx]
            },
            1 => {
                let t: [u8; 1] = [26];
                t[ctx_idx]
            },
            _ => {
                let t: [u8; 1] = [25];
                t[ctx_idx]
            },
        },
        73 => match init_type {
            0 => {
                let t: [u8; 1] = [0];
                t[ctx_idx]
            },
            1 => {
                let t: [u8; 1] = [43];
                t[ctx_idx]
            },
            _ => {
                let t: [u8; 1] = [43];
                t[ctx_idx]
            },
        },
        74 => match init_type {
            0 => {
                let t: [u8; 1] = [0];
                t[ctx_idx]
            },
            1 => {
                let t: [u8; 1] = [60];
                t[ctx_idx]
            },
            _ => {
                let t: [u8; 1] = [59];
                t[ctx_idx]
            },
        },
        76 => match init_type {
            0 => {
                let t: [u8; 1] = [0];
                t[ctx_idx]
            },
            1 => {
                let t: [u8; 1] = [57];
                t[ctx_idx]
            },
            _ => {
                let t: [u8; 1] = [57];
                t[ctx_idx]
            },
        },
        77 => match init_type {
            0 => {
                let t: [u8; 3] = [0, 0, 0];
                t[ctx_idx]
            },
            1 => {
                let t: [u8; 3] = [48, 57, 44];
                t[ctx_idx]
            },
            _ => {
                let t: [u8; 3] = [25, 58, 45];
                t[ctx_idx]
            },
        },
        78 => match init_type {
            0 => {
                let t: [u8; 1] = [0];
                t[ctx_idx]
            },
            1 => {
                let t: [u8; 1] = [5];
                t[ctx_idx]
            },
            _ => {
                let t: [u8; 1] = [4];
                t[ctx_idx]
            },
        },
        79 => match init_type {
            0 => {
                let t: [u8; 1] = [34];
                t[ctx_idx]
            },
            1 => {
                let t: [u8; 1] = [20];
                t[ctx_idx]
            },
            _ => {
                let t: [u8; 1] = [18];
                t[ctx_idx]
            },
        },
        81 => match init_type {
            0 => {
                let t: [u8; 1] = [34];
                t[ctx_idx]
            },
            1 => {
                let t: [u8; 1] = [20];
                t[ctx_idx]
            },
            _ => {
                let t: [u8; 1] = [18];
                t[ctx_idx]
            },
        },
        82 => match init_type {
            0 => {
                let t: [u8; 1] = [34];
                t[ctx_idx]
            },
            1 => {
                let t: [u8; 1] = [20];
                t[ctx_idx]
            },
            _ => {
                let t: [u8; 1] = [18];
                t[ctx_idx]
            },
        },
        83 => match init_type {
            0 => {
                let t: [u8; 1] = [14];
                t[ctx_idx]
            },
            1 => {
                let t: [u8; 1] = [44];
                t[ctx_idx]
            },
            _ => {
                let t: [u8; 1] = [51];
                t[ctx_idx]
            },
        },
        84 => match init_type {
            0 => {
                let t: [u8; 1] = [45];
                t[ctx_idx]
            },
            1 => {
                let t: [u8; 1] = [43];
                t[ctx_idx]
            },
            _ => {
                let t: [u8; 1] = [36];
                t[ctx_idx]
            },
        },
        87 => match init_type {
            0 => {
                let t: [u8; 4] = [15, 12, 5, 7];
                t[ctx_idx]
            },
            1 => {
                let t: [u8; 4] = [23, 5, 20, 7];
                t[ctx_idx]
            },
            _ => {
                let t: [u8; 4] = [15, 6, 5, 14];
                t[ctx_idx]
            },
        },
        88 => match init_type {
            0 => {
                let t: [u8; 2] = [12, 21];
                t[ctx_idx]
            },
            1 => {
                let t: [u8; 2] = [25, 28];
                t[ctx_idx]
            },
            _ => {
                let t: [u8; 2] = [25, 37];
                t[ctx_idx]
            },
        },
        89 => match init_type {
            0 => {
                let t: [u8; 3] = [33, 28, 36];
                t[ctx_idx]
            },
            1 => {
                let t: [u8; 3] = [25, 29, 45];
                t[ctx_idx]
            },
            _ => {
                let t: [u8; 3] = [9, 36, 45];
                t[ctx_idx]
            },
        },
        90 => match init_type {
            0 => {
                let t: [u8; 2] = [35, 35];
                t[ctx_idx]
            },
            1 => {
                let t: [u8; 2] = [35, 35];
                t[ctx_idx]
            },
            _ => {
                let t: [u8; 2] = [35, 35];
                t[ctx_idx]
            },
        },
        92 => match init_type {
            0 => {
                let t: [u8; 1] = [35];
                t[ctx_idx]
            },
            1 => {
                let t: [u8; 1] = [35];
                t[ctx_idx]
            },
            _ => {
                let t: [u8; 1] = [35];
                t[ctx_idx]
            },
        },
        93 => match init_type {
            0 => {
                let t: [u8; 1] = [35];
                t[ctx_idx]
            },
            1 => {
                let t: [u8; 1] = [35];
                t[ctx_idx]
            },
            _ => {
                let t: [u8; 1] = [35];
                t[ctx_idx]
            },
        },
        94 => match init_type {
            0 => {
                let t: [u8; 2] = [25, 9];
                t[ctx_idx]
            },
            1 => {
                let t: [u8; 2] = [25, 9];
                t[ctx_idx]
            },
            _ => {
                let t: [u8; 2] = [25, 17];
                t[ctx_idx]
            },
        },
        95 => match init_type {
            0 => {
                let t: [u8; 3] = [12, 21, 35];
                t[ctx_idx]
            },
            1 => {
                let t: [u8; 3] = [27, 36, 45];
                t[ctx_idx]
            },
            _ => {
                let t: [u8; 3] = [42, 43, 52];
                t[ctx_idx]
            },
        },
        96 => match init_type {
            0 => {
                let t: [u8; 23] = [13, 5, 4, 21, 14, 4, 6, 14, 21, 11, 14, 7, 14, 5, 11, 21, 30, 22, 13, 42, 12, 4, 3];
                t[ctx_idx]
            },
            1 => {
                let t: [u8; 23] = [6, 13, 12, 6, 6, 12, 14, 14, 13, 12, 29, 7, 6, 13, 36, 28, 14, 13, 5, 26, 12, 4, 18];
                t[ctx_idx]
            },
            _ => {
                let t: [u8; 23] = [6, 6, 12, 14, 6, 4, 14, 7, 6, 4, 29, 7, 6, 6, 12, 28, 7, 13, 13, 35, 19, 5, 4];
                t[ctx_idx]
            },
        },
        97 => match init_type {
            0 => {
                let t: [u8; 23] = [13, 5, 4, 6, 13, 11, 14, 6, 5, 3, 14, 22, 6, 4, 3, 6, 22, 29, 20, 34, 12, 4, 3];
                t[ctx_idx]
            },
            1 => {
                let t: [u8; 23] = [5, 5, 12, 6, 6, 4, 6, 14, 5, 12, 14, 7, 13, 5, 13, 21, 14, 20, 12, 34, 11, 4, 18];
                t[ctx_idx]
            },
            _ => {
                let t: [u8; 23] = [5, 5, 20, 13, 13, 19, 21, 6, 12, 12, 14, 14, 5, 4, 12, 13, 7, 13, 12, 41, 11, 5, 27];
                t[ctx_idx]
            },
        },
        100 => match init_type {
            0 => {
                let t: [u8; 7] = [18, 31, 25, 15, 18, 20, 38];
                t[ctx_idx]
            },
            1 => {
                let t: [u8; 7] = [25, 30, 25, 45, 18, 12, 29];
                t[ctx_idx]
            },
            _ => {
                let t: [u8; 7] = [25, 45, 25, 14, 18, 35, 45];
                t[ctx_idx]
            },
        },
        101 => match init_type {
            0 => {
                let t: [u8; 63] = [25, 19, 28, 14, 25, 20, 29, 30, 19, 37, 30, 38, 11, 38, 46, 54, 27, 39, 39, 39, 44, 39, 39, 39, 18, 39, 39, 39, 27, 39, 39, 39, 0, 39, 39, 39, 25, 27, 28, 37, 34, 53, 53, 46, 19, 46, 38, 39, 52, 39, 39, 39, 11, 39, 39, 39, 19, 39, 39, 39, 25, 28, 38];
                t[ctx_idx]
            },
            1 => {
                let t: [u8; 63] = [17, 41, 42, 29, 25, 49, 43, 37, 33, 58, 51, 30, 19, 38, 38, 46, 34, 54, 54, 39, 6, 39, 39, 39, 19, 39, 54, 39, 19, 39, 39, 39, 56, 39, 39, 39, 17, 34, 35, 21, 41, 59, 60, 38, 35, 45, 53, 54, 44, 39, 39, 39, 34, 38, 62, 39, 26, 39, 39, 39, 40, 35, 44];
                t[ctx_idx]
            },
            _ => {
                let t: [u8; 63] = [17, 41, 49, 36, 1, 49, 50, 37, 48, 51, 58, 45, 26, 45, 53, 46, 49, 54, 61, 39, 35, 39, 39, 39, 19, 54, 39, 39, 50, 39, 39, 39, 0, 39, 39, 39, 9, 49, 50, 36, 48, 59, 59, 38, 34, 45, 38, 31, 58, 39, 39, 39, 34, 38, 54, 39, 41, 39, 39, 39, 25, 50, 37];
                t[ctx_idx]
            },
        },
        102 => match init_type {
            0 => {
                let t: [u8; 33] = [33, 25, 18, 26, 34, 27, 25, 26, 19, 42, 35, 33, 19, 27, 35, 35, 34, 42, 20, 43, 20, 33, 25, 26, 42, 19, 27, 26, 50, 35, 20, 43, 11];
                t[ctx_idx]
            },
            1 => {
                let t: [u8; 33] = [18, 17, 33, 18, 26, 42, 25, 33, 26, 42, 27, 25, 34, 42, 42, 35, 26, 27, 42, 20, 20, 25, 25, 26, 11, 19, 27, 33, 42, 35, 35, 43, 3];
                t[ctx_idx]
            },
            _ => {
                let t: [u8; 33] = [33, 40, 25, 41, 26, 42, 25, 33, 26, 34, 27, 25, 41, 42, 42, 35, 33, 27, 35, 42, 43, 33, 25, 26, 34, 19, 27, 33, 42, 43, 35, 43, 11];
                t[ctx_idx]
            },
        },
        103 => match init_type {
            0 => {
                let t: [u8; 72] = [25, 25, 11, 27, 20, 21, 33, 12, 28, 21, 22, 34, 28, 29, 29, 30, 36, 29, 45, 30, 23, 40, 33, 27, 28, 21, 37, 36, 37, 45, 38, 46, 25, 1, 40, 25, 33, 11, 17, 25, 25, 18, 4, 17, 33, 26, 19, 13, 33, 19, 20, 28, 22, 40, 9, 25, 18, 26, 35, 25, 26, 35, 28, 37, 11, 5, 5, 14, 10, 3, 3, 3];
                t[ctx_idx]
            },
            1 => {
                let t: [u8; 72] = [0, 17, 26, 19, 35, 21, 25, 34, 20, 28, 29, 33, 27, 28, 29, 22, 34, 28, 44, 37, 38, 0, 25, 19, 20, 13, 14, 57, 44, 30, 30, 23, 17, 0, 1, 17, 25, 18, 0, 9, 25, 33, 34, 9, 25, 18, 26, 20, 25, 18, 19, 27, 29, 17, 9, 25, 10, 18, 4, 17, 33, 19, 20, 29, 18, 11, 4, 28, 2, 10, 3, 3];
                t[ctx_idx]
            },
            _ => {
                let t: [u8; 72] = [0, 0, 33, 34, 35, 21, 25, 34, 35, 28, 29, 40, 42, 43, 29, 30, 49, 36, 37, 45, 38, 0, 40, 34, 43, 36, 37, 57, 52, 45, 38, 46, 25, 0, 0, 17, 25, 26, 0, 9, 25, 33, 19, 0, 25, 33, 26, 20, 25, 33, 27, 35, 22, 25, 1, 25, 33, 26, 12, 25, 33, 27, 28, 37, 19, 11, 4, 6, 3, 4, 4, 5];
                t[ctx_idx]
            },
        },
        106 => match init_type {
            0 => {
                let t: [u8; 6] = [12, 17, 46, 28, 25, 46];
                t[ctx_idx]
            },
            1 => {
                let t: [u8; 6] = [5, 10, 53, 43, 25, 46];
                t[ctx_idx]
            },
            _ => {
                let t: [u8; 6] = [35, 25, 46, 28, 33, 38];
                t[ctx_idx]
            },
        },
        _ => 0,
    }
}

/// The adaptation rate indices of the context variables of a syntax element, for one initialization type.
pub open spec fn spec_ctx_shift_idx(ctx: usize, init_type: usize) -> Seq<u8> {
    match ctx {
        0 => match init_type {
            0 => seq![0u8, 0, 0, 4, 0, 0, 1, 0, 0],
            1 => seq![0u8, 0, 0, 4, 0, 0, 1, 0, 0],
            _ => seq![0u8, 0, 0, 4, 0, 0, 1, 0, 0],
        },
        1 => match init_type {
            0 => seq![0u8],
            1 => seq![0u8],
            _ => seq![0u8],
        },
        2 => match init_type {
            0 => seq![4u8, 1, 4],
            1 => seq![4u8, 1, 4],
            _ => seq![4u8, 1, 4],
        },
        3 => match init_type {
            0 => seq![4u8, 1, 4],
            1 => seq![4u8, 1, 4],
            _ => seq![4u8, 1, 4],
        },
        6 => match init_type {
            0 => seq![0u8, 0],
            1 => seq![0u8, 0],
            _ => seq![0u8, 0],
        },
        7 => match init_type {
            0 => seq![0u8],
            1 => seq![0u8],
            _ => seq![0u8],
        },
        8 => match init_type {
            0 => seq![0u8],
            1 => seq![0u8],
            _ => seq![0u8],
        },
        9 => match init_type {
            0 => seq![4u8],
            1 => seq![4u8],
            _ => seq![4u8],
        },
        10 => match init_type {
            0 => seq![4u8],
            1 => seq![4u8],
            _ => seq![4u8],
        },
        16 => match init_type {
            0 => seq![12u8, 13, 8, 8, 13, 12, 5, 9, 9],
            1 => seq![12u8, 13, 8, 8, 13, 12, 5, 9, 9],
            _ => seq![12u8, 13, 8, 8, 13, 12, 5, 9, 9],
        },
        17 => match init_type {
            0 => seq![0u8, 8, 8, 12, 12, 8],
            1 => seq![0u8, 8, 8, 12, 12, 8],
            _ => seq![0u8, 8, 8, 12, 12, 8],
        },
        18 => match init_type {
            0 => seq![9u8, 8, 9, 8, 5],
            1 => seq![9u8, 8, 9, 8, 5],
            _ => seq![9u8, 8, 9, 8, 5],
        },
        19 => match init_type {
            0 => seq![12u8, 13, 12, 13],
            1 => seq![12u8, 13, 12, 13],
            _ => seq![12u8, 13, 12, 13],
        },
        20 => match init_type {
            0 => seq![0u8, 0],
            1 => seq![1u8, 0],
            _ => seq![1u8, 0],
        },
        21 => match init_type {
            0 => seq![5u8, 4, 8],
            1 => seq![5u8, 4, 8],
            _ => seq![5u8, 4, 8],
        },
        22 => match init_type {
            0 => seq![1u8, 5, 8],
            1 => seq![1u8, 5, 8],
            _ => seq![1u8, 5, 8],
        },
        23 => match init_type {
            0 => seq![0u8, 0],
            1 => seq![5u8, 1],
            _ => seq![5u8, 1],
        },
        24 => match init_type {
            0 => seq![1u8],
            1 => seq![1u8],
            _ => seq![1u8],
        },
        25 => match init_type {
            0 => seq![1u8],
            1 => seq![1u8],
            _ => seq![1u8],
        },
        26 => match init_type {
            0 => seq![1u8],
            1 => seq![1u8],
            _ => seq![1u8],
        },
        27 => match init_type {
            0 => seq![4u8],
            1 => seq![4u8],
            _ => seq![4u8],
        },
        28 => match init_type {
            0 => seq![9u8, 10, 9, 6],
            1 => seq![9u8, 10, 9, 6],
            _ => seq![9u8, 10, 9, 6],
        },
        31 => match init_type {
            0 => seq![5u8, 8],
            1 => seq![5u8, 8],
            _ => seq![5u8, 8],
        },
        32 => match init_type {
            0 => seq![9u8],
            1 => seq![9u8],
            _ => seq![9u8],
        },
        33 => match init_type {
            0 => seq![2u8],
            1 => seq![2u8],
            _ => seq![2u8],
        },
        34 => match init_type {
            0 => seq![6u8],
            1 => seq![6u8],
            _ => seq![6u8],
        },
        35 => match init_type {
            0 => seq![1u8, 5],
            1 => seq![1u8, 5],
            _ => seq![1u8, 5],
        },
        38 => match init_type {
            0 => seq![1u8],
            1 => seq![1u8],
            _ => seq![1u8],
        },
        39 => match init_type {
            0 => seq![0u8],
            1 => seq![0u8],
            _ => seq![0u8],
        },
        40 => match init_type {
            0 => seq![4u8],
            1 => seq![4u8],
            _ => seq![4u8],
        },
        41 => match init_type {
            0 => seq![9u8],
            1 => seq![9u8],
            _ => seq![9u8],
        },
        42 => match init_type {
            0 => seq![5u8],
            1 => seq![5u8],
            _ => seq![5u8],
        },
        49 => match init_type {
            0 => seq![4u8],
            1 => seq![4u8],
            _ => seq![4u8],
        },
        50 => match init_type {
            0 => seq![0u8, 0, 0, 0, 0, 0],
            1 => seq![0u8, 0, 1, 4, 4, 0],
            _ => seq![0u8, 0, 1, 4, 4, 0],
        },
        51 => match init_type {
            0 => seq![0u8, 0, 0],
            1 => seq![4u8, 0, 0],
            _ => seq![4u8, 0, 0],
        },
        52 => match init_type {
            0 => seq![0u8],
            1 => seq![4u8],
            _ => seq![4u8],
        },
        53 => match init_type {
            0 => seq![0u8],
            1 => seq![5u8],
            _ => seq![5u8],
        },
        54 => match init_type {
            0 => seq![0u8, 0],
            1 => seq![0u8, 4],
            _ => seq![0u8, 4],
        },
        55 => match init_type {
            0 => seq![0u8, 0],
            1 => seq![0u8, 4],
            _ => seq![0u8, 4],
        },
        56 => match init_type {
            0 => seq![12u8],
            1 => seq![12u8],
            _ => seq![12u8],
        },
        57 => match init_type {
            0 => seq![12u8],
            1 => seq![12u8],
            _ => seq![12u8],
        },
        58 => match init_type {
            0 => seq![0u8, 0],
            1 => seq![0u8, 0],
            _ => seq![0u8, 0],
        },
        59 => match init_type {
            0 => seq![4u8, 5, 0],
            1 => seq![4u8, 5, 0],
            _ => seq![4u8, 5, 0],
        },
        60 => match init_type {
            0 => seq![0u8],
            1 => seq![1u8],
            _ => seq![1u8],
        },
        61 => match init_type {
            0 => seq![4u8],
            1 => seq![4u8],
            _ => seq![4u8],
        },
        62 => match init_type {
            0 => seq![0u8, 0],
            1 => seq![1u8, 5],
            _ => seq![1u8, 5],
        },
        63 => match init_type {
            0 => seq![0u8],
            1 => seq![10u8],
            _ => seq![10u8],
        },
        64 => match init_type {
            0 => seq![0u8, 0, 0],
            1 => seq![8u8, 4, 1],
            _ => seq![8u8, 4, 1],
        },
        65 => match init_type {
            0 => seq![0u8],
            1 => seq![13u8],
            _ => seq![13u8],
        },
        66 => match init_type {
            0 => seq![9u8, 9, 10],
            1 => seq![9u8, 9, 10],
            _ => seq![9u8, 9, 10],
        },
        67 => match init_type {
            0 => seq![8u8, 0, 9, 0],
            1 => seq![8u8, 0, 9, 0],
            _ => seq![8u8, 0, 9, 0],
        },
        68 => match init_type {
            0 => seq![9u8],
            1 => seq![9u8],
            _ => seq![9u8],
        },
        69 => match init_type {
            0 => seq![5u8],
            1 => seq![5u8],
            _ => seq![5u8],
        },
        70 => match init_type {
            0 => seq![9u8, 6, 9, 10, 5, 0, 9, 5],
            1 => seq![9u8, 6, 9, 10, 5, 0, 9, 5],
            _ => seq![9u8, 6, 9, 10, 5, 0, 9, 5],
        },
        71 => match init_type {
            0 => seq![0u8, 0],
            1 => seq![5u8, 5],
            _ => seq![5u8, 5],
        },
        72 => match init_type {
            0 => seq![0u8],
            1 => seq![4u8],
            _ => seq![4u8],
        },
        73 => match init_type {
            0 => seq![0u8],
            1 => seq![10u8],
            _ => seq![10u8],
        },
        74 => match init_type {
            0 => seq![0u8],
            1 => seq![0u8],
            _ => seq![0u8],
        },
        76 => match init_type {
            0 => seq![0u8],
            1 => seq![1u8],
            _ => seq![1u8],
        },
        77 => match init_type {
            0 => seq![0u8, 0, 0],
            1 => seq![4u8, 4, 4],
            _ => seq![4u8, 4, 4],
        },
        78 => match init_type {
            0 => seq![0u8],
            1 => seq![0u8],
            _ => seq![0u8],
        },
        79 => match init_type {
            0 => seq![4u8],
            1 => seq![4u8],
            _ => seq![4u8],
        },
        81 => match init_type {
            0 => seq![4u8],
            1 => seq![4u8],
            _ => seq![4u8],
        },
        82 => match init_type {
            0 => seq![4u8],
            1 => seq![4u8],
            _ => seq![4u8],
        },
        83 => match init_type {
            0 => seq![9u8],
            1 => seq![9u8],
            _ => seq![9u8],
        },
        84 => match init_type {
            0 => seq![5u8],
            1 => seq![5u8],
            _ => seq![5u8],
        },
        87 => match init_type {
            0 => seq![5u8, 1, 8, 9],
            1 => seq![5u8, 1, 8, 9],
            _ => seq![5u8, 1, 8, 9],
        },
        88 => match init_type {
            0 => seq![5u8, 0],
            1 => seq![5u8, 0],
            _ => seq![5u8, 0],
        },
        89 => match init_type {
            0 => seq![2u8, 1, 0],
            1 => seq![2u8, 1, 0],
            _ => seq![2u8, 1, 0],
        },
        90 => match init_type {
            0 => seq![8u8, 8],
            1 => seq![8u8, 8],
            _ => seq![8u8, 8],
        },
        92 => match init_type {
            0 => seq![8u8],
            1 => seq![8u8],
            _ => seq![8u8],
        },
        93 => match init_type {
            0 => seq![8u8],
            1 => seq![8u8],
            _ => seq![8u8],
        },
        94 => match init_type {
            0 => seq![1u8, 1],
            1 => seq![1u8, 1],
            _ => seq![1u8, 1],
        },
        95 => match init_type {
            0 => seq![1u8, 1, 0],
            1 => seq![1u8, 1, 0],
            _ => seq![1u8, 1, 0],
        },
        96 => match init_type {
            0 => seq![8u8, 5, 4, 5, 4, 4, 5, 4, 1, 0, 4, 1, 0, 0, 0, 0, 1, 0, 0, 0, 5, 4, 4],
            1 => seq![8u8, 5, 4, 5, 4, 4, 5, 4, 1, 0, 4, 1, 0, 0, 0, 0, 1, 0, 0, 0, 5, 4, 4],
            _ => seq![8u8, 5, 4, 5, 4, 4, 5, 4, 1, 0, 4, 1, 0, 0, 0, 0, 1, 0, 0, 0, 5, 4, 4],
        },
        97 => match init_type {
            0 => seq![8u8, 5, 8, 5, 5, 4, 5, 5, 4, 0, 5, 4, 1, 0, 0, 1, 4, 0, 0, 0, 6, 5, 5],
            1 => seq![8u8, 5, 8, 5, 5, 4, 5, 5, 4, 0, 5, 4, 1, 0, 0, 1, 4, 0, 0, 0, 6, 5, 5],
            _ => seq![8u8, 5, 8, 5, 5, 4, 5, 5, 4, 0, 5, 4, 1, 0, 0, 1, 4, 0, 0, 0, 6, 5, 5],
        },
        100 => match init_type {
            0 => seq![8u8, 5, 5, 8, 5, 8, 8],
            1 => seq![8u8, 5, 5, 8, 5, 8, 8],
            _ => seq![8u8, 5, 5, 8, 5, 8, 8],
        },
        101 => match init_type {
            0 => seq![12u8, 9, 9, 10, 9, 9, 9, 10, 8, 8, 8, 10, 9, 13, 8, 8, 8, 8, 8, 5, 8, 0, 0, 0, 8, 8, 8, 8, 8, 0, 4, 4, 0, 0, 0, 0, 12, 12, 9, 13, 4, 5, 8, 9, 8, 12, 12, 8, 4, 0, 0, 0, 8, 8, 8, 8, 4, 0, 0, 0, 13, 13, 8],
            1 => seq![12u8, 9, 9, 10, 9, 9, 9, 10, 8, 8, 8, 10, 9, 13, 8, 8, 8, 8, 8, 5, 8, 0, 0, 0, 8, 8, 8, 8, 8, 0, 4, 4, 0, 0, 0, 0, 12, 12, 9, 13, 4, 5, 8, 9, 8, 12, 12, 8, 4, 0, 0, 0, 8, 8, 8, 8, 4, 0, 0, 0, 13, 13, 8],
            _ => seq![12u8, 9, 9, 10, 9, 9, 9, 10, 8, 8, 8, 10, 9, 13, 8, 8, 8, 8, 8, 5, 8, 0, 0, 0, 8, 8, 8, 8, 8, 0, 4, 4, 0, 0, 0, 0, 12, 12, 9, 13, 4, 5, 8, 9, 8, 12, 12, 8, 4, 0, 0, 0, 8, 8, 8, 8, 4, 0, 0, 0, 13, 13, 8],
        },
        102 => match init_type {
            0 => seq![8u8, 9, 12, 13, 13, 13, 10, 13, 13, 13, 13, 13, 13, 13, 13, 13, 10, 13, 13, 13, 13, 8, 12, 12, 12, 13, 13, 13, 13, 13, 13, 13, 6],
            1 => seq![8u8, 9, 12, 13, 13, 13, 10, 13, 13, 13, 13, 13, 13, 13, 13, 13, 10, 13, 13, 13, 13, 8, 12, 12, 12, 13, 13, 13, 13, 13, 13, 13, 6],
            _ => seq![8u8, 9, 12, 13, 13, 13, 10, 13, 13, 13, 13, 13, 13, 13, 13, 13, 10, 13, 13, 13, 13, 8, 12, 12, 12, 13, 13, 13, 13, 13, 13, 13, 6],
        },
        103 => match init_type {
            0 => seq![9u8, 5, 10, 13, 13, 10, 9, 10, 13, 13, 13, 9, 10, 10, 10, 13, 8, 9, 10, 10, 13, 8, 8, 9, 12, 12, 10, 5, 9, 9, 9, 13, 1, 5, 9, 9, 9, 6, 5, 9, 10, 10, 9, 9, 9, 9, 9, 9, 6, 8, 9, 9, 10, 1, 5, 8, 8, 9, 6, 6, 9, 8, 8, 9, 4, 2, 1, 6, 1, 1, 1, 1],
            1 => seq![9u8, 5, 10, 13, 13, 10, 9, 10, 13, 13, 13, 9, 10, 10, 10, 13, 8, 9, 10, 10, 13, 8, 8, 9, 12, 12, 10, 5, 9, 9, 9, 13, 1, 5, 9, 9, 9, 6, 5, 9, 10, 10, 9, 9, 9, 9, 9, 9, 6, 8, 9, 9, 10, 1, 5, 8, 8, 9, 6, 6, 9, 8, 8, 9, 4, 2, 1, 6, 1, 1, 1, 1],
            _ => seq![9u8, 5, 10, 13, 13, 10, 9, 10, 13, 13, 13, 9, 10, 10, 10, 13, 8, 9, 10, 10, 13, 8, 8, 9, 12, 12, 10, 5, 9, 9, 9, 13, 1, 5, 9, 9, 9, 6, 5, 9, 10, 10, 9, 9, 9, 9, 9, 9, 6, 8, 9, 9, 10, 1, 5, 8, 8, 9, 6, 6, 9, 8, 8, 9, 4, 2, 1, 6, 1, 1, 1, 1],
        },
        106 => match init_type {
            0 => seq![1u8, 4, 4, 5, 8, 8],
            1 => seq![1u8, 4, 4, 5, 8, 8],
            _ => seq![1u8, 4, 4, 5, 8, 8],
        },
        _ => Seq::empty(),
    }
}

/// The adaptation rate indices of the context variables of a syntax element, for one initialization type.
pub fn ctx_shift_idx_at(ctx: usize, init_type: usize, ctx_idx: usize) -> (r: u8)
    requires
        init_type < 3,
        ctx_idx < spec_ctx_shift_idx(ctx, init_type).len(),
    ensures
        r == spec_ctx_shift_idx(ctx, init_type)[ctx_idx as int],
{
    match ctx {
        0 => match init_type {
            0 => {
                let t: [u8; 9] = [0, 0, 0, 4, 0, 0, 1, 0, 0];
                t[ctx_idx]
            },
            1 => {
                let t: [u8; 9] = [0, 0, 0, 4, 0, 0, 1, 0, 0];
                t[ctx_idx]
            },
            _ => {
                let t: [u8; 9] = [0, 0, 0, 4, 0, 0, 1, 0, 0];
                t[ctx_idx]
            },
        },
        1 => match init_type {
            0 => {
                let t: [u8; 1] = [0];
                t[ctx_idx]
            },
            1 => {
                let t: [u8; 1] = [0];
                t[ctx_idx]
            },
            _ => {
                let t: [u8; 1] = [0];
                t[ctx_idx]
            },
        },
        2 => match init_type {
            0 => {
                let t: [u8; 3] = [4, 1, 4];
                t[ctx_idx]
            },
            1 => {
                let t: [u8; 3] = [4, 1, 4];
                t[ctx_idx]
            },
            _ => {
                let t: [u8; 3] = [4, 1, 4];
                t[ctx_idx]
            },
        },
        3 => match init_type {
            0 => {
                let t: [u8; 3] = [4, 1, 4];
                t[ctx_idx]
            },
            1 => {
                let t: [u8; 3] = [4, 1, 4];
                t[ctx_idx]
            },
            _ => {
                let t: [u8; 3] = [4, 1, 4];
                t[ctx_idx]
            },
        },
        6 => match init_type {
            0 => {
                let t: [u8; 2] = [0, 0];
                t[ctx_idx]
            },
            1 => {
                let t: [u8; 2] = [0, 0];
                t[ctx_idx]
            },
            _ => {
                let t: [u8; 2] = [0, 0];
                t[ctx_idx]
            },
        },
        7 => match init_type {
            0 => {
                let t: [u8; 1] = [0];
                t[ctx_idx]
            },
            1 => {
                let t: [u8; 1] = [0];
                t[ctx_idx]
            },
            _ => {
                let t: [u8; 1] = [0];
                t[ctx_idx]
            },
        },
        8 => match init_type {
            0 => {
                let t: [u8; 1] = [0];
                t[ctx_idx]
            },
            1 => {
                let t: [u8; 1] = [0];
                t[ctx_idx]
            },
            _ => {
                let t: [u8; 1] = [0];
                t[ctx_idx]
            },
        },
        9 => match init_type {
            0 => {
                let t: [u8; 1] = [4];
                t[ctx_idx]
            },
            1 => {
                let t: [u8; 1] = [4];
                t[ctx_idx]
            },
            _ => {
                let t: [u8; 1] = [4];
                t[ctx_idx]
            },
        },
        10 => match init_type {
            0 => {
                let t: [u8; 1] = [4];
                t[ctx_idx]
            },
            1 => {
                let t: [u8; 1] = [4];
                t[ctx_idx]
            },
            _ => {
                let t: [u8; 1] = [4];
                t[ctx_idx]
            },
        },
        16 => match init_type {
            0 => {
                let t: [u8; 9] = [12, 13, 8, 8, 13, 12, 5, 9, 9];
                t[ctx_idx]
            },
            1 => {
                let t: [u8; 9] = [12, 13, 8, 8, 13, 12, 5, 9, 9];
                t[ctx_idx]
            },
            _ => {
                let t: [u8; 9] = [12, 13, 8, 8, 13, 12, 5, 9, 9];
                t[ctx_idx]
            },
        },
        17 => match init_type {
            0 => {
                let t: [u8; 6] = [0, 8, 8, 12, 12, 8];
                t[ctx_idx]
            },
            1 => {
                let t: [u8; 6] = [0, 8, 8, 12, 12, 8];
                t[ctx_idx]
            },
            _ => {
                let t: [u8; 6] = [0, 8, 8, 12, 12, 8];
                t[ctx_idx]
            },
        },
        18 => match init_type {
            0 => {
                let t: [u8; 5] = [9, 8, 9, 8, 5];
                t[ctx_idx]
            },
            1 => {
                let t: [u8; 5] = [9, 8, 9, 8, 5];
                t[ctx_idx]
            },
            _ => {
                let t: [u8; 5] = [9, 8, 9, 8, 5];
                t[ctx_idx]
            },
        },
        19 => match init_type {
            0 => {
                let t: [u8; 4] = [12, 13, 12, 13];
                t[ctx_idx]
            },
            1 => {
                let t: [u8; 4] = [12, 13, 12, 13];
                t[ctx_idx]
            },
            _ => {
                let t: [u8; 4] = [12, 13, 12, 13];
                t[ctx_idx]
            },
        },
        20 => match init_type {
            0 => {
                let t: [u8; 2] = [0, 0];
                t[ctx_idx]
            },
            1 => {
                let t: [u8; 2] = [1, 0];
                t[ctx_idx]
            },
            _ => {
                let t: [u8; 2] = [1, 0];
                t[ctx_idx]
            },
        },
        21 => match init_type {
            0 => {
                let t: [u8; 3] = [5, 4, 8];
                t[ctx_idx]
            },
            1 => {
                let t: [u8; 3] = [5, 4, 8];
                t[ctx_idx]
            },
            _ => {
                let t: [u8; 3] = [5, 4, 8];
                t[ctx_idx]
            },
        },
        22 => match init_type {
            0 => {
                let t: [u8; 3] = [1, 5, 8];
                t[ctx_idx]
            },
            1 => {
                let t: [u8; 3] = [1, 5, 8];
                t[ctx_idx]
            },
            _ => {
                let t: [u8; 3] = [1, 5, 8];
                t[ctx_idx]
            },
        },
        23 => match init_type {
            0 => {
                let t: [u8; 2] = [0, 0];
                t[ctx_idx]
            },
            1 => {
                let t: [u8; 2] = [5, 1];
                t[ctx_idx]
            },
            _ => {
                let t: [u8; 2] = [5, 1];
                t[ctx_idx]
            },
        },
        24 => match init_type {
            0 => {
                let t: [u8; 1] = [1];
                t[ctx_idx]
            },
            1 => {
                let t: [u8; 1] = [1];
                t[ctx_idx]
            },
            _ => {
                let t: [u8; 1] = [1];
                t[ctx_idx]
            },
        },
        25 => match init_type {
            0 => {
                let t: [u8; 1] = [1];
                t[ctx_idx]
            },
            1 => {
                let t: [u8; 1] = [1];
                t[ctx_idx]
            },
            _ => {
                let t: [u8; 1] = [1];
                t[ctx_idx]
            },
        },
        26 => match init_type {
            0 => {
                let t: [u8; 1] = [1];
                t[ctx_idx]
            },
            1 => {
                let t: [u8; 1] = [1];
                t[ctx_idx]
            },
            _ => {
                let t: [u8; 1] = [1];
                t[ctx_idx]
            },
        },
        27 => match init_type {
            0 => {
                let t: [u8; 1] = [4];
                t[ctx_idx]
            },
            1 => {
                let t: [u8; 1] = [4];
                t[ctx_idx]
            },
            _ => {
                let t: [u8; 1] = [4];
                t[ctx_idx]
            },
        },
        28 => match init_type {
            0 => {
                let t: [u8; 4] = [9, 10, 9, 6];
                t[ctx_idx]
            },
            1 => {
                let t: [u8; 4] = [9, 10, 9, 6];
                t[ctx_idx]
            },
            _ => {
                let t: [u8; 4] = [9, 10, 9, 6];
                t[ctx_idx]
            },
        },
        31 => match init_type {
            0 => {
                let t: [u8; 2] = [5, 8];
                t[ctx_idx]
            },
            1 => {
                let t: [u8; 2] = [5, 8];
                t[ctx_idx]
            },
            _ => {
                let t: [u8; 2] = [5, 8];
                t[ctx_idx]
            },
        },
        32 => match init_type {
            0 => {
                let t: [u8; 1] = [9];
                t[ctx_idx]
            },
            1 => {
                let t: [u8; 1] = [9];
                t[ctx_idx]
            },
            _ => {
                let t: [u8; 1] = [9];
                t[ctx_idx]
            },
        },
        33 => match init_type {
            0 => {
                let t: [u8; 1] = [2];
                t[ctx_idx]
            },
            1 => {
                let t: [u8; 1] = [2];
                t[ctx_idx]
            },
            _ => {
                let t: [u8; 1] = [2];
                t[ctx_idx]
            },
        },
        34 => match init_type {
            0 => {
                let t: [u8; 1] = [6];
                t[ctx_idx]
            },
            1 => {
                let t: [u8; 1] = [6];
                t[ctx_idx]
            },
            _ => {
                let t: [u8; 1] = [6];
                t[ctx_idx]
            },
        },
        35 => match init_type {
            0 => {
                let t: [u8; 2] = [1, 5];
                t[ctx_idx]
            },
            1 => {
                let t: [u8; 2] = [1, 5];
                t[ctx_idx]
            },
            _ => {
                let t: [u8; 2] = [1, 5];
                t[ctx_idx]
            },
        },
        38 => match init_type {
            0 => {
                let t: [u8; 1] = [1];
                t[ctx_idx]
            },
            1 => {
                let t: [u8; 1] = [1];
                t[ctx_idx]
            },
            _ => {
                let t: [u8; 1] = [1];
                t[ctx_idx]
            },
        },
        39 => match init_type {
            0 => {
                let t: [u8; 1] = [0];
                t[ctx_idx]
            },
            1 => {
                let t: [u8; 1] = [0];
                t[ctx_idx]
            },
            _ => {
                let t: [u8; 1] = [0];
                t[ctx_idx]
            },
        },
        40 => match init_type {
            0 => {
                let t: [u8; 1] = [4];
                t[ctx_idx]
            },
            1 => {
                let t: [u8; 1] = [4];
                t[ctx_idx]
            },
            _ => {
                let t: [u8; 1] = [4];
                t[ctx_idx]
            },
        },
        41 => match init_type {
            0 => {
                let t: [u8; 1] = [9];
                t[ctx_idx]
            },
            1 => {
                let t: [u8; 1] = [9];
                t[ctx_idx]
            },
            _ => {
                let t: [u8; 1] = [9];
                t[ctx_idx]
            },
        },
        42 => match init_type {
            0 => {
                let t: [u8; 1] = [5];
                t[ctx_idx]
            },
            1 => {
                let t: [u8; 1] = [5];
                t[ctx_idx]
            },
            _ => {
                let t: [u8; 1] = [5];
                t[ctx_idx]
            },
        },
        49 => match init_type {
            0 => {
                let t: [u8; 1] = [4];
                t[ctx_idx]
            },
            1 => {
                let t: [u8; 1] = [4];
                t[ctx_idx]
            },
            _ => {
                let t: [u8; 1] = [4];
                t[ctx_idx]
            },
        },
        50 => match init_type {
            0 => {
                let t: [u8; 6] = [0, 0, 0, 0, 0, 0];
                t[ctx_idx]
            },
            1 => {
                let t: [u8; 6] = [0, 0, 1, 4, 4, 0];
                t[ctx_idx]
            },
            _ => {
                let t: [u8; 6] = [0, 0, 1, 4, 4, 0];
                t[ctx_idx]
            },
        },
        51 => match init_type {
            0 => {
                let t: [u8; 3] = [0, 0, 0];
                t[ctx_idx]
            },
            1 => {
                let t: [u8; 3] = [4, 0, 0];
                t[ctx_idx]
            },
            _ => {
                let t: [u8; 3] = [4, 0, 0];
                t[ctx_idx]
            },
        },
        52 => match init_type {
            0 => {
                let t: [u8; 1] = [0];
                t[ctx_idx]
            },
            1 => {
                let t: [u8; 1] = [4];
                t[ctx_idx]
            },
            _ => {
                let t: [u8; 1] = [4];
                t[ctx_idx]
            },
        },
        53 => match init_type {
            0 => {
                let t: [u8; 1] = [0];
                t[ctx_idx]
            },
            1 => {
                let t: [u8; 1] = [5];
                t[ctx_idx]
            },
            _ => {
                let t: [u8; 1] = [5];
                t[ctx_idx]
            },
        },
        54 => match init_type {
            0 => {
                let t: [u8; 2] = [0, 0];
                t[ctx_idx]
            },
            1 => {
                let t: [u8; 2] = [0, 4];
                t[ctx_idx]
            },
            _ => {
                let t: [u8; 2] = [0, 4];
                t[ctx_idx]
            },
        },
        55 => match init_type {
            0 => {
                let t: [u8; 2] = [0, 0];
                t[ctx_idx]
            },
            1 => {
                let t: [u8; 2] = [0, 4];
                t[ctx_idx]
            },
            _ => {
                let t: [u8; 2] = [0, 4];
                t[ctx_idx]
            },
        },
        56 => match init_type {
            0 => {
                let t: [u8; 1] = [12];
                t[ctx_idx]
            },
            1 => {
                let t: [u8; 1] = [12];
                t[ctx_idx]
            },
            _ => {
                let t: [u8; 1] = [12];
                t[ctx_idx]
            },
        },
        57 => match init_type {
            0 => {
                let t: [u8; 1] = [12];
                t[ctx_idx]
            },
            1 => {
                let t: [u8; 1] = [12];
                t[ctx_idx]
            },
            _ => {
                let t: [u8; 1] = [12];
                t[ctx_idx]
            },
        },
        58 => match init_type {
            0 => {
                let t: [u8; 2] = [0, 0];
                t[ctx_idx]
            },
            1 => {
                let t: [u8; 2] = [0, 0];
                t[ctx_idx]
            },
            _ => {
                let t: [u8; 2] = [0, 0];
                t[ctx_idx]
            },
        },
        59 => match init_type {
            0 => {
                let t: [u8; 3] = [4, 5, 0];
                t[ctx_idx]
            },
            1 => {
                let t: [u8; 3] = [4, 5, 0];
                t[ctx_idx]
            },
            _ => {
                let t: [u8; 3] = [4, 5, 0];
                t[ctx_idx]
            },
        },
        60 => match init_type {
            0 => {
                let t: [u8; 1] = [0];
                t[ctx_idx]
            },
            1 => {
                let t: [u8; 1] = [1];
                t[ctx_idx]
            },
            _ => {
                let t: [u8; 1] = [1];
                t[ctx_idx]
            },
        },
        61 => match init_type {
            0 => {
                let t: [u8; 1] = [4];
                t[ctx_idx]
            },
            1 => {
                let t: [u8; 1] = [4];
                t[ctx_idx]
            },
            _ => {
                let t: [u8; 1] = [4];
                t[ctx_idx]
            },
        },
        62 => match init_type {
            0 => {
                let t: [u8; 2] = [0, 0];
                t[ctx_idx]
            },
            1 => {
                let t: [u8; 2] = [1, 5];
                t[ctx_idx]
            },
            _ => {
                let t: [u8; 2] = [1, 5];
                t[ctx_idx]
            },
        },
        63 => match init_type {
            0 => {
                let t: [u8; 1] = [0];
                t[ctx_idx]
            },
            1 => {
                let t: [u8; 1] = [10];
                t[ctx_idx]
            },
            _ => {
                let t: [u8; 1] = [10];
                t[ctx_idx]
            },
        },
        64 => match init_type {
            0 => {
                let t: [u8; 3] = [0, 0, 0];
                t[ctx_idx]
            },
            1 => {
                let t: [u8; 3] = [8, 4, 1];
                t[ctx_idx]
            },
            _ => {
                let t: [u8; 3] = [8, 4, 1];
                t[ctx_idx]
            },
        },
        65 => match init_type {
            0 => {
                let t: [u8; 1] = [0];
                t[ctx_idx]
            },
            1 => {
                let t: [u8; 1] = [13];
                t[ctx_idx]
            },
            _ => {
                let t: [u8; 1] = [13];
                t[ctx_idx]
            },
        },
        66 => match init_type {
            0 => {
                let t: [u8; 3] = [9, 9, 10];
                t[ctx_idx]
            },
            1 => {
                let t: [u8; 3] = [9, 9, 10];
                t[ctx_idx]
            },
            _ => {
                let t: [u8; 3] = [9, 9, 10];
                t[ctx_idx]
            },
        },
        67 => match init_type {
            0 => {
                let t: [u8; 4] = [8, 0, 9, 0];
                t[ctx_idx]
            },
            1 => {
                let t: [u8; 4] = [8, 0, 9, 0];
                t[ctx_idx]
            },
            _ => {
                let t: [u8; 4] = [8, 0, 9, 0];
                t[ctx_idx]
            },
        },
        68 => match init_type {
            0 => {
                let t: [u8; 1] = [9];
                t[ctx_idx]
            },
            1 => {
                let t: [u8; 1] = [9];
                t[ctx_idx]
            },
            _ => {
                let t: [u8; 1] = [9];
                t[ctx_idx]
            },
        },
        69 => match init_type {
            0 => {
                let t: [u8; 1] = [5];
                t[ctx_idx]
            },
            1 => {
                let t: [u8; 1] = [5];
                t[ctx_idx]
            },
            _ => {
                let t: [u8; 1] = [5];
                t[ctx_idx]
            },
        },
        70 => match init_type {
            0 => {
                let t: [u8; 8] = [9, 6, 9, 10, 5, 0, 9, 5];
                t[ctx_idx]
            },
            1 => {
                let t: [u8; 8] = [9, 6, 9, 10, 5, 0, 9, 5];
                t[ctx_idx]
            },
            _ => {
                let t: [u8; 8] = [9, 6, 9, 10, 5, 0, 9, 5];
                t[ctx_idx]
            },
        },
        71 => match init_type {
            0 => {
                let t: [u8; 2] = [0, 0];
                t[ctx_idx]
            },
            1 => {
                let t: [u8; 2] = [5, 5];
                t[ctx_idx]
            },
            _ => {
                let t: [u8; 2] = [5, 5];
                t[ctx_idx]
            },
        },
        72 => match init_type {
            0 => {
                let t: [u8; 1] = [0];
                t[ctx_idx]
            },
            1 => {
                let t: [u8; 1] = [4];
                t[ctx_idx]
            },
            _ => {
                let t: [u8; 1] = [4];
                t[ctx_idx]
            },
        },
        73 => match init_type {
            0 => {
                let t: [u8; 1] = [0];
                t[ctx_idx]
            },
            1 => {
                let t: [u8; 1] = [10];
                t[ctx_idx]
            },
            _ => {
                let t: [u8; 1] = [10];
                t[ctx_idx]
            },
        },
        74 => match init_type {
            0 => {
                let t: [u8; 1] = [0];
                t[ctx_idx]
            },
            1 => {
                let t: [u8; 1] = [0];
                t[ctx_idx]
            },
            _ => {
                let t: [u8; 1] = [0];
                t[ctx_idx]
            },
        },
        76 => match init_type {
            0 => {
                let t: [u8; 1] = [0];
                t[ctx_idx]
            },
            1 => {
                let t: [u8; 1] = [1];
                t[ctx_idx]
            },
            _ => {
                let t: [u8; 1] = [1];
                t[ctx_idx]
            },
        },
        77 => match init_type {
            0 => {
                let t: [u8; 3] = [0, 0, 0];
                t[ctx_idx]
            },
            1 => {
                let t: [u8; 3] = [4, 4, 4];
                t[ctx_idx]
            },
            _ => {
                let t: [u8; 3] = [4, 4, 4];
                t[ctx_idx]
            },
        },
        78 => match init_type {
            0 => {
                let t: [u8; 1] = [0];
                t[ctx_idx]
            },
            1 => {
                let t: [u8; 1] = [0];
                t[ctx_idx]
            },
            _ => {
                let t: [u8; 1] = [0];
                t[ctx_idx]
            },
        },
        79 => match init_type {
            0 => {
                let t: [u8; 1] = [4];
                t[ctx_idx]
            },
            1 => {
                let t: [u8; 1] = [4];
                t[ctx_idx]
            },
            _ => {
                let t: [u8; 1] = [4];
                t[ctx_idx]
            },
        },
        81 => match init_type {
            0 => {
                let t: [u8; 1] = [4];
                t[ctx_idx]
            },
            1 => {
                let t: [u8; 1] = [4];
                t[ctx_idx]
            },
            _ => {
                let t: [u8; 1] = [4];
                t[ctx_idx]
            },
        },
        82 => match init_type {
            0 => {
                let t: [u8; 1] = [4];
                t[ctx_idx]
            },
            1 => {
                let t: [u8; 1] = [4];
                t[ctx_idx]
            },
            _ => {
                let t: [u8; 1] = [4];
                t[ctx_idx]
            },
        },
        83 => match init_type {
            0 => {
                let t: [u8; 1] = [9];
                t[ctx_idx]
            },
            1 => {
                let t: [u8; 1] = [9];
                t[ctx_idx]
            },
            _ => {
                let t: [u8; 1] = [9];
                t[ctx_idx]
            },
        },
        84 => match init_type {
            0 => {
                let t: [u8; 1] = [5];
                t[ctx_idx]
            },
            1 => {
                let t: [u8; 1] = [5];
                t[ctx_idx]
            },
            _ => {
                let t: [u8; 1] = [5];
                t[ctx_idx]
            },
        },
        87 => match init_type {
            0 => {
                let t: [u8; 4] = [5, 1, 8, 9];
                t[ctx_idx]
            },
            1 => {
                let t: [u8; 4] = [5, 1, 8, 9];
                t[ctx_idx]
            },
            _ => {
                let t: [u8; 4] = [5, 1, 8, 9];
                t[ctx_idx]
            },
        },
        88 => match init_type {
            0 => {
                let t: [u8; 2] = [5, 0];
                t[ctx_idx]
            },
            1 => {
                let t: [u8; 2] = [5, 0];
                t[ctx_idx]
            },
            _ => {
                let t: [u8; 2] = [5, 0];
                t[ctx_idx]
            },
        },
        89 => match init_type {
            0 => {
                let t: [u8; 3] = [2, 1, 0];
                t[ctx_idx]
            },
            1 => {
                let t: [u8; 3] = [2, 1, 0];
                t[ctx_idx]
            },
            _ => {
                let t: [u8; 3] = [2, 1, 0];
                t[ctx_idx]
            },
        },
        90 => match init_type {
            0 => {
                let t: [u8; 2] = [8, 8];
                t[ctx_idx]
            },
            1 => {
                let t: [u8; 2] = [8, 8];
                t[ctx_idx]
            },
            _ => {
                let t: [u8; 2] = [8, 8];
                t[ctx_idx]
            },
        },
        92 => match init_type {
            0 => {
                let t: [u8; 1] = [8];
                t[ctx_idx]
            },
            1 => {
                let t: [u8; 1] = [8];
                t[ctx_idx]
            },
            _ => {
                let t: [u8; 1] = [8];
                t[ctx_idx]
            },
        },
        93 => match init_type {
            0 => {
                let t: [u8; 1] = [8];
                t[ctx_idx]
            },
            1 => {
                let t: [u8; 1] = [8];
                t[ctx_idx]
            },
            _ => {
                let t: [u8; 1] = [8];
                t[ctx_idx]
            },
        },
        94 => match init_type {
            0 => {
                let t: [u8; 2] = [1, 1];
                t[ctx_idx]
            },
            1 => {
                let t: [u8; 2] = [1, 1];
                t[ctx_idx]
            },
            _ => {
                let t: [u8; 2] = [1, 1];
                t[ctx_idx]
            },
        },
        95 => match init_type {
            0 => {
                let t: [u8; 3] = [1, 1, 0];
                t[ctx_idx]
            },
            1 => {
                let t: [u8; 3] = [1, 1, 0];
                t[ctx_idx]
            },
            _ => {
                let t: [u8; 3] = [1, 1, 0];
                t[ctx_idx]
            },
        },
        96 => match init_type {
            0 => {
                let t: [u8; 23] = [8, 5, 4, 5, 4, 4, 5, 4, 1, 0, 4, 1, 0, 0, 0, 0, 1, 0, 0, 0, 5, 4, 4];
                t[ctx_idx]
            },
            1 => {
                let t: [u8; 23] = [8, 5, 4, 5, 4, 4, 5, 4, 1, 0, 4, 1, 0, 0, 0, 0, 1, 0, 0, 0, 5, 4, 4];
                t[ctx_idx]
            },
            _ => {
                let t: [u8; 23] = [8, 5, 4, 5, 4, 4, 5, 4, 1, 0, 4, 1, 0, 0, 0, 0, 1, 0, 0, 0, 5, 4, 4];
                t[ctx_idx]
            },
        },
        97 => match init_type {
            0 => {
                let t: [u8; 23] = [8, 5, 8, 5, 5, 4, 5, 5, 4, 0, 5, 4, 1, 0, 0, 1, 4, 0, 0, 0, 6, 5, 5];
                t[ctx_idx]
            },
            1 => {
                let t: [u8; 23] = [8, 5, 8, 5, 5, 4, 5, 5, 4, 0, 5, 4, 1, 0, 0, 1, 4, 0, 0, 0, 6, 5, 5];
                t[ctx_idx]
            },
            _ => {
                let t: [u8; 23] = [8, 5, 8, 5, 5, 4, 5, 5, 4, 0, 5, 4, 1, 0, 0, 1, 4, 0, 0, 0, 6, 5, 5];
                t[ctx_idx]
            },
        },
        100 => match init_type {
            0 => {
                let t: [u8; 7] = [8, 5, 5, 8, 5, 8, 8];
                t[ctx_idx]
            },
            1 => {
                let t: [u8; 7] = [8, 5, 5, 8, 5, 8, 8];
                t[ctx_idx]
            },
            _ => {
                let t: [u8; 7] = [8, 5, 5, 8, 5, 8, 8];
                t[ctx_idx]
            },
        },
        101 => match init_type {
            0 => {
                let t: [u8; 63] = [12, 9, 9, 10, 9, 9, 9, 10, 8, 8, 8, 10, 9, 13, 8, 8, 8, 8, 8, 5, 8, 0, 0, 0, 8, 8, 8, 8, 8, 0, 4, 4, 0, 0, 0, 0, 12, 12, 9, 13, 4, 5, 8, 9, 8, 12, 12, 8, 4, 0, 0, 0, 8, 8, 8, 8, 4, 0, 0, 0, 13, 13, 8];
                t[ctx_idx]
            },
            1 => {
                let t: [u8; 63] = [12, 9, 9, 10, 9, 9, 9, 10, 8, 8, 8, 10, 9, 13, 8, 8, 8, 8, 8, 5, 8, 0, 0, 0, 8, 8, 8, 8, 8, 0, 4, 4, 0, 0, 0, 0, 12, 12, 9, 13, 4, 5, 8, 9, 8, 12, 12, 8, 4, 0, 0, 0, 8, 8, 8, 8, 4, 0, 0, 0, 13, 13, 8];
                t[ctx_idx]
            },
            _ => {
                let t: [u8; 63] = [12, 9, 9, 10, 9, 9, 9, 10, 8, 8, 8, 10, 9, 13, 8, 8, 8, 8, 8, 5, 8, 0, 0, 0, 8, 8, 8, 8, 8, 0, 4, 4, 0, 0, 0, 0, 12, 12, 9, 13, 4, 5, 8, 9, 8, 12, 12, 8, 4, 0, 0, 0, 8, 8, 8, 8, 4, 0, 0, 0, 13, 13, 8];
                t[ctx_idx]
            },
        },
        102 => match init_type {
            0 => {
                let t: [u8; 33] = [8, 9, 12, 13, 13, 13, 10, 13, 13, 13, 13, 13, 13, 13, 13, 13, 10, 13, 13, 13, 13, 8, 12, 12, 12, 13, 13, 13, 13, 13, 13, 13, 6];
                t[ctx_idx]
            },
            1 => {
                let t: [u8; 33] = [8, 9, 12, 13, 13, 13, 10, 13, 13, 13, 13, 13, 13, 13, 13, 13, 10, 13, 13, 13, 13, 8, 12, 12, 12, 13, 13, 13, 13, 13, 13, 13, 6];
                t[ctx_idx]
            },
            _ => {
                let t: [u8; 33] = [8, 9, 12, 13, 13, 13, 10, 13, 13, 13, 13, 13, 13, 13, 13, 13, 10, 13, 13, 13, 13, 8, 12, 12, 12, 13, 13, 13, 13, 13, 13, 13, 6];
                t[ctx_idx]
            },
        },
        103 => match init_type {
            0 => {
                let t: [u8; 72] = [9, 5, 10, 13, 13, 10, 9, 10, 13, 13, 13, 9, 10, 10, 10, 13, 8, 9, 10, 10, 13, 8, 8, 9, 12, 12, 10, 5, 9, 9, 9, 13, 1, 5, 9, 9, 9, 6, 5, 9, 10, 10, 9, 9, 9, 9, 9, 9, 6, 8, 9, 9, 10, 1, 5, 8, 8, 9, 6, 6, 9, 8, 8, 9, 4, 2, 1, 6, 1, 1, 1, 1];
                t[ctx_idx]
            },
            1 => {
                let t: [u8; 72] = [9, 5, 10, 13, 13, 10, 9, 10, 13, 13, 13, 9, 10, 10, 10, 13, 8, 9, 10, 10, 13, 8, 8, 9, 12, 12, 10, 5, 9, 9, 9, 13, 1, 5, 9, 9, 9, 6, 5, 9, 10, 10, 9, 9, 9, 9, 9, 9, 6, 8, 9, 9, 10, 1, 5, 8, 8, 9, 6, 6, 9, 8, 8, 9, 4, 2, 1, 6, 1, 1, 1, 1];
                t[ctx_idx]
            },
            _ => {
                let t: [u8; 72] = [9, 5, 10, 13, 13, 10, 9, 10, 13, 13, 13, 9, 10, 10, 10, 13, 8, 9, 10, 10, 13, 8, 8, 9, 12, 12, 10, 5, 9, 9, 9, 13, 1, 5, 9, 9, 9, 6, 5, 9, 10, 10, 9, 9, 9, 9, 9, 9, 6, 8, 9, 9, 10, 1, 5, 8, 8, 9, 6, 6, 9, 8, 8, 9, 4, 2, 1, 6, 1, 1, 1, 1];
                t[ctx_idx]
            },
        },
        106 => match init_type {
            0 => {
                let t: [u8; 6] = [1, 4, 4, 5, 8, 8];
                t[ctx_idx]
            },
            1 => {
                let t: [u8; 6] = [1, 4, 4, 5, 8, 8];
                t[ctx_idx]
            },
            _ => {
                let t: [u8; 6] = [1, 4, 4, 5, 8, 8];
                t[ctx_idx]
            },
        },
        _ => 0,
    }
}

/// The number of context variables of a syntax element for each initialization type.
pub fn ctx_table_len(ctx: usize) -> (r: usize)
    ensures
        r == spec_ctx_init_values(ctx, 0).len(),
{
    match ctx {
        0 => 9,
        1 => 1,
        2 => 3,
        3 => 3,
        6 => 2,
        7 => 1,
        8 => 1,
        9 => 1,
        10 => 1,
        16 => 9,
        17 => 6,
        18 => 5,
        19 => 4,
        20 => 2,
        21 => 3,
        22 => 3,
        23 => 2,
        24 => 1,
        25 => 1,
        26 => 1,
        27 => 1,
        28 => 4,
        31 => 2,
        32 => 1,
        33 => 1,
        34 => 1,
        35 => 2,
        38 => 1,
        39 => 1,
        40 => 1,
        41 => 1,
        42 => 1,
        49 => 1,
        50 => 6,
        51 => 3,
        52 => 1,
        53 => 1,
        54 => 2,
        55 => 2,
        56 => 1,
        57 => 1,
        58 => 2,
        59 => 3,
        60 => 1,
        61 => 1,
        62 => 2,
        63 => 1,
        64 => 3,
        65 => 1,
        66 => 3,
        67 => 4,
        68 => 1,
        69 => 1,
        70 => 8,
        71 => 2,
        72 => 1,
        73 => 1,
        74 => 1,
        76 => 1,
        77 => 3,
        78 => 1,
        79 => 1,
        81 => 1,
        82 => 1,
        83 => 1,
        84 => 1,
        87 => 4,
        88 => 2,
        89 => 3,
        90 => 2,
        92 => 1,
        93 => 1,
        94 => 2,
        95 => 3,
        96 => 23,
        97 => 23,
        100 => 7,
        101 => 63,
        102 => 33,
        103 => 72,
        106 => 6,
        _ => 0,
    }
}

proof fn lemma_ctx_table_shape_0()
    ensures
        spec_ctx_init_values(0, 0).len() == spec_ctx_init_values(0, 0).len(),
        spec_ctx_shift_idx(0, 0).len() == spec_ctx_init_values(0, 0).len(),
        forall|i: int| 0 <= i < spec_ctx_init_values(0, 0).len() ==> #[trigger] spec_ctx_init_values(0, 0)[i] < 64,
        forall|i: int| 0 <= i < spec_ctx_shift_idx(0, 0).len() ==> #[trigger] spec_ctx_shift_idx(0, 0)[i] < 16,
        spec_ctx_init_values(0, 1).len() == spec_ctx_init_values(0, 0).len(),
        spec_ctx_shift_idx(0, 1).len() == spec_ctx_init_values(0, 0).len(),
        forall|i: int| 0 <= i < spec_ctx_init_values(0, 1).len() ==> #[trigger] spec_ctx_init_values(0, 1)[i] < 64,
        forall|i: int| 0 <= i < spec_ctx_shift_idx(0, 1).len() ==> #[trigger] spec_ctx_shift_idx(0, 1)[i] < 16,
        spec_ctx_init_values(0, 2).len() == spec_ctx_init_values(0, 0).len(),
        spec_ctx_shift_idx(0, 2).len() == spec_ctx_init_values(0, 0).len(),
        forall|i: int| 0 <= i < spec_ctx_init_values(0, 2).len() ==> #[trigger] spec_ctx_init_values(0, 2)[i] < 64,
        forall|i: int| 0 <= i < spec_ctx_shift_idx(0, 2).len() ==> #[trigger] spec_ctx_shift_idx(0, 2)[i] < 16,
{
}

proof fn lemma_ctx_table_shape_1()
    ensures
        spec_ctx_init_values(1, 0).len() == spec_ctx_init_values(1, 0).len(),
        spec_ctx_shift_idx(1, 0).len() == spec_ctx_init_values(1, 0).len(),
        forall|i: int| 0 <= i < spec_ctx_init_values(1, 0).len() ==> #[trigger] spec_ctx_init_values(1, 0)[i] < 64,
        forall|i: int| 0 <= i < spec_ctx_shift_idx(1, 0).len() ==> #[trigger] spec_ctx_shift_idx(1, 0)[i] < 16,
        spec_ctx_init_values(1, 1).len() == spec_ctx_init_values(1, 0).len(),
        spec_ctx_shift_idx(1, 1).len() == spec_ctx_init_values(1, 0).len(),
        forall|i: int| 0 <= i < spec_ctx_init_values(1, 1).len() ==> #[trigger] spec_ctx_init_values(1, 1)[i] < 64,
        forall|i: int| 0 <= i < spec_ctx_shift_idx(1, 1).len() ==> #[trigger] spec_ctx_shift_idx(1, 1)[i] < 16,
        spec_ctx_init_values(1, 2).len() == spec_ctx_init_values(1, 0).len(),
        spec_ctx_shift_idx(1, 2).len() == spec_ctx_init_values(1, 0).len(),
        forall|i: int| 0 <= i < spec_ctx_init_values(1, 2).len() ==> #[trigger] spec_ctx_init_values(1, 2)[i] < 64,
        forall|i: int| 0 <= i < spec_ctx_shift_idx(1, 2).len() ==> #[trigger] spec_ctx_shift_idx(1, 2)[i] < 16,
{
}

proof fn lemma_ctx_table_shape_2()
    ensures
        spec_ctx_init_values(2, 0).len() == spec_ctx_init_values(2, 0).len(),
        spec_ctx_shift_idx(2, 0).len() == spec_ctx_init_values(2, 0).len(),
        forall|i: int| 0 <= i < spec_ctx_init_values(2, 0).len() ==> #[trigger] spec_ctx_init_values(2, 0)[i] < 64,
        forall|i: int| 0 <= i < spec_ctx_shift_idx(2, 0).len() ==> #[trigger] spec_ctx_shift_idx(2, 0)[i] < 16,
        spec_ctx_init_values(2, 1).len() == spec_ctx_init_values(2, 0).len(),
        spec_ctx_shift_idx(2, 1).len() == spec_ctx_init_values(2, 0).len(),
        forall|i: int| 0 <= i < spec_ctx_init_values(2, 1).len() ==> #[trigger] spec_ctx_init_values(2, 1)[i] < 64,
        forall|i: int| 0 <= i < spec_ctx_shift_idx(2, 1).len() ==> #[trigger] spec_ctx_shift_idx(2, 1)[i] < 16,
        spec_ctx_init_values(2, 2).len() == spec_ctx_init_values(2, 0).len(),
        spec_ctx_shift_idx(2, 2).len() == spec_ctx_init_values(2, 0).len(),
        forall|i: int| 0 <= i < spec_ctx_init_values(2, 2).len() ==> #[trigger] spec_ctx_init_values(2, 2)[i] < 64,
        forall|i: int| 0 <= i < spec_ctx_shift_idx(2, 2).len() ==> #[trigger] spec_ctx_shift_idx(2, 2)[i] < 16,
{
}

proof fn lemma_ctx_table_shape_3()
    ensures
        spec_ctx_init_values(3, 0).len() == spec_ctx_init_values(3, 0).len(),
        spec_ctx_shift_idx(3, 0).len() == spec_ctx_init_values(3, 0).len(),
        forall|i: int| 0 <= i < spec_ctx_init_values(3, 0).len() ==> #[trigger] spec_ctx_init_values(3, 0)[i] < 64,
        forall|i: int| 0 <= i < spec_ctx_shift_idx(3, 0).len() ==> #[trigger] spec_ctx_shift_idx(3, 0)[i] < 16,
        spec_ctx_init_values(3, 1).len() == spec_ctx_init_values(3, 0).len(),
        spec_ctx_shift_idx(3, 1).len() == spec_ctx_init_values(3, 0).len(),
        forall|i: int| 0 <= i < spec_ctx_init_values(3, 1).len() ==> #[trigger] spec_ctx_init_values(3, 1)[i] < 64,
        forall|i: int| 0 <= i < spec_ctx_shift_idx(3, 1).len() ==> #[trigger] spec_ctx_shift_idx(3, 1)[i] < 16,
        spec_ctx_init_values(3, 2).len() == spec_ctx_init_values(3, 0).len(),
        spec_ctx_shift_idx(3, 2).len() == spec_ctx_init_values(3, 0).len(),
        forall|i: int| 0 <= i < spec_ctx_init_values(3, 2).len() ==> #[trigger] spec_ctx_init_values(3, 2)[i] < 64,
        forall|i: int| 0 <= i < spec_ctx_shift_idx(3, 2).len() ==> #[trigger] spec_ctx_shift_idx(3, 2)[i] < 16,
{
}

proof fn lemma_ctx_table_shape_6()
    ensures
        spec_ctx_init_values(6, 0).len() == spec_ctx_init_values(6, 0).len(),
        spec_ctx_shift_idx(6, 0).len() == spec_ctx_init_values(6, 0).len(),
        forall|i: int| 0 <= i < spec_ctx_init_values(6, 0).len() ==> #[trigger] spec_ctx_init_values(6, 0)[i] < 64,
        forall|i: int| 0 <= i < spec_ctx_shift_idx(6, 0).len() ==> #[trigger] spec_ctx_shift_idx(6, 0)[i] < 16,
        spec_ctx_init_values(6, 1).len() == spec_ctx_init_values(6, 0).len(),
        spec_ctx_shift_idx(6, 1).len() == spec_ctx_init_values(6, 0).len(),
        forall|i: int| 0 <= i < spec_ctx_init_values(6, 1).len() ==> #[trigger] spec_ctx_init_values(6, 1)[i] < 64,
        forall|i: int| 0 <= i < spec_ctx_shift_idx(6, 1).len() ==> #[trigger] spec_ctx_shift_idx(6, 1)[i] < 16,
        spec_ctx_init_values(6, 2).len() == spec_ctx_init_values(6, 0).len(),
        spec_ctx_shift_idx(6, 2).len() == spec_ctx_init_values(6, 0).len(),
        forall|i: int| 0 <= i < spec_ctx_init_values(6, 2).len() ==> #[trigger] spec_ctx_init_values(6, 2)[i] < 64,
        forall|i: int| 0 <= i < spec_ctx_shift_idx(6, 2).len() ==> #[trigger] spec_ctx_shift_idx(6, 2)[i] < 16,
{
}

proof fn lemma_ctx_table_shape_7()
    ensures
        spec_ctx_init_values(7, 0).len() == spec_ctx_init_values(7, 0).len(),
        spec_ctx_shift_idx(7, 0).len() == spec_ctx_init_values(7, 0).len(),
        forall|i: int| 0 <= i < spec_ctx_init_values(7, 0).len() ==> #[trigger] spec_ctx_init_values(7, 0)[i] < 64,
        forall|i: int| 0 <= i < spec_ctx_shift_idx(7, 0).len() ==> #[trigger] spec_ctx_shift_idx(7, 0)[i] < 16,
        spec_ctx_init_values(7, 1).len() == spec_ctx_init_values(7, 0).len(),
        spec_ctx_shift_idx(7, 1).len() == spec_ctx_init_values(7, 0).len(),
        forall|i: int| 0 <= i < spec_ctx_init_values(7, 1).len() ==> #[trigger] spec_ctx_init_values(7, 1)[i] < 64,
        forall|i: int| 0 <= i < spec_ctx_shift_idx(7, 1).len() ==> #[trigger] spec_ctx_shift_idx(7, 1)[i] < 16,
        spec_ctx_init_values(7, 2).len() == spec_ctx_init_values(7, 0).len(),
        spec_ctx_shift_idx(7, 2).len() == spec_ctx_init_values(7, 0).len(),
        forall|i: int| 0 <= i < spec_ctx_init_values(7, 2).len() ==> #[trigger] spec_ctx_init_values(7, 2)[i] < 64,
        forall|i: int| 0 <= i < spec_ctx_shift_idx(7, 2).len() ==> #[trigger] spec_ctx_shift_idx(7, 2)[i] < 16,
{
}

proof fn lemma_ctx_table_shape_8()
    ensures
        spec_ctx_init_values(8, 0).len() == spec_ctx_init_values(8, 0).len(),
        spec_ctx_shift_idx(8, 0).len() == spec_ctx_init_values(8, 0).len(),
        forall|i: int| 0 <= i < spec_ctx_init_values(8, 0).len() ==> #[trigger] spec_ctx_init_values(8, 0)[i] < 64,
        forall|i: int| 0 <= i < spec_ctx_shift_idx(8, 0).len() ==> #[trigger] spec_ctx_shift_idx(8, 0)[i] < 16,
        spec_ctx_init_values(8, 1).len() == spec_ctx_init_values(8, 0).len(),
        spec_ctx_shift_idx(8, 1).len() == spec_ctx_init_values(8, 0).len(),
        forall|i: int| 0 <= i < spec_ctx_init_values(8, 1).len() ==> #[trigger] spec_ctx_init_values(8, 1)[i] < 64,
        forall|i: int| 0 <= i < spec_ctx_shift_idx(8, 1).len() ==> #[trigger] spec_ctx_shift_idx(8, 1)[i] < 16,
        spec_ctx_init_values(8, 2).len() == spec_ctx_init_values(8, 0).len(),
        spec_ctx_shift_idx(8, 2).len() == spec_ctx_init_values(8, 0).len(),
        forall|i: int| 0 <= i < spec_ctx_init_values(8, 2).len() ==> #[trigger] spec_ctx_init_values(8, 2)[i] < 64,
        forall|i: int| 0 <= i < spec_ctx_shift_idx(8, 2).len() ==> #[trigger] spec_ctx_shift_idx(8, 2)[i] < 16,
{
}

proof fn lemma_ctx_table_shape_9()
    ensures
        spec_ctx_init_values(9, 0).len() == spec_ctx_init_values(9, 0).len(),
        spec_ctx_shift_idx(9, 0).len() == spec_ctx_init_values(9, 0).len(),
        forall|i: int| 0 <= i < spec_ctx_init_values(9, 0).len() ==> #[trigger] spec_ctx_init_values(9, 0)[i] < 64,
        forall|i: int| 0 <= i < spec_ctx_shift_idx(9, 0).len() ==> #[trigger] spec_ctx_shift_idx(9, 0)[i] < 16,
        spec_ctx_init_values(9, 1).len() == spec_ctx_init_values(9, 0).len(),
        spec_ctx_shift_idx(9, 1).len() == spec_ctx_init_values(9, 0).len(),
        forall|i: int| 0 <= i < spec_ctx_init_values(9, 1).len() ==> #[trigger] spec_ctx_init_values(9, 1)[i] < 64,
        forall|i: int| 0 <= i < spec_ctx_shift_idx(9, 1).len() ==> #[trigger] spec_ctx_shift_idx(9, 1)[i] < 16,
        spec_ctx_init_values(9, 2).len() == spec_ctx_init_values(9, 0).len(),
        spec_ctx_shift_idx(9, 2).len() == spec_ctx_init_values(9, 0).len(),
        forall|i: int| 0 <= i < spec_ctx_init_values(9, 2).len() ==> #[trigger] spec_ctx_init_values(9, 2)[i] < 64,
        forall|i: int| 0 <= i < spec_ctx_shift_idx(9, 2).len() ==> #[trigger] spec_ctx_shift_idx(9, 2)[i] < 16,
{
}

proof fn lemma_ctx_table_shape_10()
    ensures
        spec_ctx_init_values(10, 0).len() == spec_ctx_init_values(10, 0).len(),
        spec_ctx_shift_idx(10, 0).len() == spec_ctx_init_values(10, 0).len(),
        forall|i: int| 0 <= i < spec_ctx_init_values(10, 0).len() ==> #[trigger] spec_ctx_init_values(10, 0)[i] < 64,
        forall|i: int| 0 <= i < spec_ctx_shift_idx(10, 0).len() ==> #[trigger] spec_ctx_shift_idx(10, 0)[i] < 16,
        spec_ctx_init_values(10, 1).len() == spec_ctx_init_values(10, 0).len(),
        spec_ctx_shift_idx(10, 1).len() == spec_ctx_init_values(10, 0).len(),
        forall|i: int| 0 <= i < spec_ctx_init_values(10, 1).len() ==> #[trigger] spec_ctx_init_values(10, 1)[i] < 64,
        forall|i: int| 0 <= i < spec_ctx_shift_idx(10, 1).len() ==> #[trigger] spec_ctx_shift_idx(10, 1)[i] < 16,
        spec_ctx_init_values(10, 2).len() == spec_ctx_init_values(10, 0).len(),
        spec_ctx_shift_idx(10, 2).len() == spec_ctx_init_values(10, 0).len(),
        forall|i: int| 0 <= i < spec_ctx_init_values(10, 2).len() ==> #[trigger] spec_ctx_init_values(10, 2)[i] < 64,
        forall|i: int| 0 <= i < spec_ctx_shift_idx(10, 2).len() ==> #[trigger] spec_ctx_shift_idx(10, 2)[i] < 16,
{
}

proof fn lemma_ctx_table_shape_16()
    ensures
        spec_ctx_init_values(16, 0).len() == spec_ctx_init_values(16, 0).len(),
        spec_ctx_shift_idx(16, 0).len() == spec_ctx_init_values(16, 0).len(),
        forall|i: int| 0 <= i < spec_ctx_init_values(16, 0).len() ==> #[trigger] spec_ctx_init_values(16, 0)[i] < 64,
        forall|i: int| 0 <= i < spec_ctx_shift_idx(16, 0).len() ==> #[trigger] spec_ctx_shift_idx(16, 0)[i] < 16,
        spec_ctx_init_values(16, 1).len() == spec_ctx_init_values(16, 0).len(),
        spec_ctx_shift_idx(16, 1).len() == spec_ctx_init_values(16, 0).len(),
        forall|i: int| 0 <= i < spec_ctx_init_values(16, 1).len() ==> #[trigger] spec_ctx_init_values(16, 1)[i] < 64,
        forall|i: int| 0 <= i < spec_ctx_shift_idx(16, 1).len() ==> #[trigger] spec_ctx_shift_idx(16, 1)[i] < 16,
        spec_ctx_init_values(16, 2).len() == spec_ctx_init_values(16, 0).len(),
        spec_ctx_shift_idx(16, 2).len() == spec_ctx_init_values(16, 0).len(),
        forall|i: int| 0 <= i < spec_ctx_init_values(16, 2).len() ==> #[trigger] spec_ctx_init_values(16, 2)[i] < 64,
        forall|i: int| 0 <= i < spec_ctx_shift_idx(16, 2).len() ==> #[trigger] spec_ctx_shift_idx(16, 2)[i] < 16,
{
}

proof fn lemma_ctx_table_shape_17()
    ensures
        spec_ctx_init_values(17, 0).len() == spec_ctx_init_values(17, 0).len(),
        spec_ctx_shift_idx(17, 0).len() == spec_ctx_init_values(17, 0).len(),
        forall|i: int| 0 <= i < spec_ctx_init_values(17, 0).len() ==> #[trigger] spec_ctx_init_values(17, 0)[i] < 64,
        forall|i: int| 0 <= i < spec_ctx_shift_idx(17, 0).len() ==> #[trigger] spec_ctx_shift_idx(17, 0)[i] < 16,
        spec_ctx_init_values(17, 1).len() == spec_ctx_init_values(17, 0).len(),
        spec_ctx_shift_idx(17, 1).len() == spec_ctx_init_values(17, 0).len(),
        forall|i: int| 0 <= i < spec_ctx_init_values(17, 1).len() ==> #[trigger] spec_ctx_init_values(17, 1)[i] < 64,
        forall|i: int| 0 <= i < spec_ctx_shift_idx(17, 1).len() ==> #[trigger] spec_ctx_shift_idx(17, 1)[i] < 16,
        spec_ctx_init_values(17, 2).len() == spec_ctx_init_values(17, 0).len(),
        spec_ctx_shift_idx(17, 2).len() == spec_ctx_init_values(17, 0).len(),
        forall|i: int| 0 <= i < spec_ctx_init_values(17, 2).len() ==> #[trigger] spec_ctx_init_values(17, 2)[i] < 64,
        forall|i: int| 0 <= i < spec_ctx_shift_idx(17, 2).len() ==> #[trigger] spec_ctx_shift_idx(17, 2)[i] < 16,
{
}

proof fn lemma_ctx_table_shape_18()
    ensures
        spec_ctx_init_values(18, 0).len() == spec_ctx_init_values(18, 0).len(),
        spec_ctx_shift_idx(18, 0).len() == spec_ctx_init_values(18, 0).len(),
        forall|i: int| 0 <= i < spec_ctx_init_values(18, 0).len() ==> #[trigger] spec_ctx_init_values(18, 0)[i] < 64,
        forall|i: int| 0 <= i < spec_ctx_shift_idx(18, 0).len() ==> #[trigger] spec_ctx_shift_idx(18, 0)[i] < 16,
        spec_ctx_init_values(18, 1).len() == spec_ctx_init_values(18, 0).len(),
        spec_ctx_shift_idx(18, 1).len() == spec_ctx_init_values(18, 0).len(),
        forall|i: int| 0 <= i < spec_ctx_init_values(18, 1).len() ==> #[trigger] spec_ctx_init_values(18, 1)[i] < 64,
        forall|i: int| 0 <= i < spec_ctx_shift_idx(18, 1).len() ==> #[trigger] spec_ctx_shift_idx(18, 1)[i] < 16,
        spec_ctx_init_values(18, 2).len() == spec_ctx_init_values(18, 0).len(),
        spec_ctx_shift_idx(18, 2).len() == spec_ctx_init_values(18, 0).len(),
        forall|i: int| 0 <= i < spec_ctx_init_values(18, 2).len() ==> #[trigger] spec_ctx_init_values(18, 2)[i] < 64,
        forall|i: int| 0 <= i < spec_ctx_shift_idx(18, 2).len() ==> #[trigger] spec_ctx_shift_idx(18, 2)[i] < 16,
{
}

proof fn lemma_ctx_table_shape_19()
    ensures
        spec_ctx_init_values(19, 0).len() == spec_ctx_init_values(19, 0).len(),
        spec_ctx_shift_idx(19, 0).len() == spec_ctx_init_values(19, 0).len(),
        forall|i: int| 0 <= i < spec_ctx_init_values(19, 0).len() ==> #[trigger] spec_ctx_init_values(19, 0)[i] < 64,
        forall|i: int| 0 <= i < spec_ctx_shift_idx(19, 0).len() ==> #[trigger] spec_ctx_shift_idx(19, 0)[i] < 16,
        spec_ctx_init_values(19, 1).len() == spec_ctx_init_values(19, 0).len(),
        spec_ctx_shift_idx(19, 1).len() == spec_ctx_init_values(19, 0).len(),
        forall|i: int| 0 <= i < spec_ctx_init_values(19, 1).len() ==> #[trigger] spec_ctx_init_values(19, 1)[i] < 64,
        forall|i: int| 0 <= i < spec_ctx_shift_idx(19, 1).len() ==> #[trigger] spec_ctx_shift_idx(19, 1)[i] < 16,
        spec_ctx_init_values(19, 2).len() == spec_ctx_init_values(19, 0).len(),
        spec_ctx_shift_idx(19, 2).len() == spec_ctx_init_values(19, 0).len(),
        forall|i: int| 0 <= i < spec_ctx_init_values(19, 2).len() ==> #[trigger] spec_ctx_init_values(19, 2)[i] < 64,
        forall|i: int| 0 <= i < spec_ctx_shift_idx(19, 2).len() ==> #[trigger] spec_ctx_shift_idx(19, 2)[i] < 16,
{
}

proof fn lemma_ctx_table_shape_20()
    ensures
        spec_ctx_init_values(20, 0).len() == spec_ctx_init_values(20, 0).len(),
        spec_ctx_shift_idx(20, 0).len() == spec_ctx_init_values(20, 0).len(),
        forall|i: int| 0 <= i < spec_ctx_init_values(20, 0).len() ==> #[trigger] spec_ctx_init_values(20, 0)[i] < 64,
        forall|i: int| 0 <= i < spec_ctx_shift_idx(20, 0).len() ==> #[trigger] spec_ctx_shift_idx(20, 0)[i] < 16,
        spec_ctx_init_values(20, 1).len() == spec_ctx_init_values(20, 0).len(),
        spec_ctx_shift_idx(20, 1).len() == spec_ctx_init_values(20, 0).len(),
        forall|i: int| 0 <= i < spec_ctx_init_values(20, 1).len() ==> #[trigger] spec_ctx_init_values(20, 1)[i] < 64,
        forall|i: int| 0 <= i < spec_ctx_shift_idx(20, 1).len() ==> #[trigger] spec_ctx_shift_idx(20, 1)[i] < 16,
        spec_ctx_init_values(20, 2).len() == spec_ctx_init_values(20, 0).len(),
        spec_ctx_shift_idx(20, 2).len() == spec_ctx_init_values(20, 0).len(),
        forall|i: int| 0 <= i < spec_ctx_init_values(20, 2).len() ==> #[trigger] spec_ctx_init_values(20, 2)[i] < 64,
        forall|i: int| 0 <= i < spec_ctx_shift_idx(20, 2).len() ==> #[trigger] spec_ctx_shift_idx(20, 2)[i] < 16,
{
}

proof fn lemma_ctx_table_shape_21()
    ensures
        spec_ctx_init_values(21, 0).len() == spec_ctx_init_values(21, 0).len(),
        spec_ctx_shift_idx(21, 0).len() == spec_ctx_init_values(21, 0).len(),
        forall|i: int| 0 <= i < spec_ctx_init_values(21, 0).len() ==> #[trigger] spec_ctx_init_values(21, 0)[i] < 64,
        forall|i: int| 0 <= i < spec_ctx_shift_idx(21, 0).len() ==> #[trigger] spec_ctx_shift_idx(21, 0)[i] < 16,
        spec_ctx_init_values(21, 1).len() == spec_ctx_init_values(21, 0).len(),
        spec_ctx_shift_idx(21, 1).len() == spec_ctx_init_values(21, 0).len(),
        forall|i: int| 0 <= i < spec_ctx_init_values(21, 1).len() ==> #[trigger] spec_ctx_init_values(21, 1)[i] < 64,
        forall|i: int| 0 <= i < spec_ctx_shift_idx(21, 1).len() ==> #[trigger] spec_ctx_shift_idx(21, 1)[i] < 16,
        spec_ctx_init_values(21, 2).len() == spec_ctx_init_values(21, 0).len(),
        spec_ctx_shift_idx(21, 2).len() == spec_ctx_init_values(21, 0).len(),
        forall|i: int| 0 <= i < spec_ctx_init_values(21, 2).len() ==> #[trigger] spec_ctx_init_values(21, 2)[i] < 64,
        forall|i: int| 0 <= i < spec_ctx_shift_idx(21, 2).len() ==> #[trigger] spec_ctx_shift_idx(21, 2)[i] < 16,
{
}

proof fn lemma_ctx_table_shape_22()
    ensures
        spec_ctx_init_values(22, 0).len() == spec_ctx_init_values(22, 0).len(),
        spec_ctx_shift_idx(22, 0).len() == spec_ctx_init_values(22, 0).len(),
        forall|i: int| 0 <= i < spec_ctx_init_values(22, 0).len() ==> #[trigger] spec_ctx_init_values(22, 0)[i] < 64,
        forall|i: int| 0 <= i < spec_ctx_shift_idx(22, 0).len() ==> #[trigger] spec_ctx_shift_idx(22, 0)[i] < 16,
        spec_ctx_init_values(22, 1).len() == spec_ctx_init_values(22, 0).len(),
        spec_ctx_shift_idx(22, 1).len() == spec_ctx_init_values(22, 0).len(),
        forall|i: int| 0 <= i < spec_ctx_init_values(22, 1).len() ==> #[trigger] spec_ctx_init_values(22, 1)[i] < 64,
        forall|i: int| 0 <= i < spec_ctx_shift_idx(22, 1).len() ==> #[trigger] spec_ctx_shift_idx(22, 1)[i] < 16,
        spec_ctx_init_values(22, 2).len() == spec_ctx_init_values(22, 0).len(),
        spec_ctx_shift_idx(22, 2).len() == spec_ctx_init_values(22, 0).len(),
        forall|i: int| 0 <= i < spec_ctx_init_values(22, 2).len() ==> #[trigger] spec_ctx_init_values(22, 2)[i] < 64,
        forall|i: int| 0 <= i < spec_ctx_shift_idx(22, 2).len() ==> #[trigger] spec_ctx_shift_idx(22, 2)[i] < 16,
{
}

proof fn lemma_ctx_table_shape_23()
    ensures
        spec_ctx_init_values(23, 0).len() == spec_ctx_init_values(23, 0).len(),
        spec_ctx_shift_idx(23, 0).len() == spec_ctx_init_values(23, 0).len(),
        forall|i: int| 0 <= i < spec_ctx_init_values(23, 0).len() ==> #[trigger] spec_ctx_init_values(23, 0)[i] < 64,
        forall|i: int| 0 <= i < spec_ctx_shift_idx(23, 0).len() ==> #[trigger] spec_ctx_shift_idx(23, 0)[i] < 16,
        spec_ctx_init_values(23, 1).len() == spec_ctx_init_values(23, 0).len(),
        spec_ctx_shift_idx(23, 1).len() == spec_ctx_init_values(23, 0).len(),
        forall|i: int| 0 <= i < spec_ctx_init_values(23, 1).len() ==> #[trigger] spec_ctx_init_values(23, 1)[i] < 64,
        forall|i: int| 0 <= i < spec_ctx_shift_idx(23, 1).len() ==> #[trigger] spec_ctx_shift_idx(23, 1)[i] < 16,
        spec_ctx_init_values(23, 2).len() == spec_ctx_init_values(23, 0).len(),
        spec_ctx_shift_idx(23, 2).len() == spec_ctx_init_values(23, 0).len(),
        forall|i: int| 0 <= i < spec_ctx_init_values(23, 2).len() ==> #[trigger] spec_ctx_init_values(23, 2)[i] < 64,
        forall|i: int| 0 <= i < spec_ctx_shift_idx(23, 2).len() ==> #[trigger] spec_ctx_shift_idx(23, 2)[i] < 16,
{
}

proof fn lemma_ctx_table_shape_24()
    ensures
        spec_ctx_init_values(24, 0).len() == spec_ctx_init_values(24, 0).len(),
        spec_ctx_shift_idx(24, 0).len() == spec_ctx_init_values(24, 0).len(),
        forall|i: int| 0 <= i < spec_ctx_init_values(24, 0).len() ==> #[trigger] spec_ctx_init_values(24, 0)[i] < 64,
        forall|i: int| 0 <= i < spec_ctx_shift_idx(24, 0).len() ==> #[trigger] spec_ctx_shift_idx(24, 0)[i] < 16,
        spec_ctx_init_values(24, 1).len() == spec_ctx_init_values(24, 0).len(),
        spec_ctx_shift_idx(24, 1).len() == spec_ctx_init_values(24, 0).len(),
        forall|i: int| 0 <= i < spec_ctx_init_values(24, 1).len() ==> #[trigger] spec_ctx_init_values(24, 1)[i] < 64,
        forall|i: int| 0 <= i < spec_ctx_shift_idx(24, 1).len() ==> #[trigger] spec_ctx_shift_idx(24, 1)[i] < 16,
        spec_ctx_init_values(24, 2).len() == spec_ctx_init_values(24, 0).len(),
        spec_ctx_shift_idx(24, 2).len() == spec_ctx_init_values(24, 0).len(),
        forall|i: int| 0 <= i < spec_ctx_init_values(24, 2).len() ==> #[trigger] spec_ctx_init_values(24, 2)[i] < 64,
        forall|i: int| 0 <= i < spec_ctx_shift_idx(24, 2).len() ==> #[trigger] spec_ctx_shift_idx(24, 2)[i] < 16,
{
}

proof fn lemma_ctx_table_shape_25()
    ensures
        spec_ctx_init_values(25, 0).len() == spec_ctx_init_values(25, 0).len(),
        spec_ctx_shift_idx(25, 0).len() == spec_ctx_init_values(25, 0).len(),
        forall|i: int| 0 <= i < spec_ctx_init_values(25, 0).len() ==> #[trigger] spec_ctx_init_values(25, 0)[i] < 64,
        forall|i: int| 0 <= i < spec_ctx_shift_idx(25, 0).len() ==> #[trigger] spec_ctx_shift_idx(25, 0)[i] < 16,
        spec_ctx_init_values(25, 1).len() == spec_ctx_init_values(25, 0).len(),
        spec_ctx_shift_idx(25, 1).len() == spec_ctx_init_values(25, 0).len(),
        forall|i: int| 0 <= i < spec_ctx_init_values(25, 1).len() ==> #[trigger] spec_ctx_init_values(25, 1)[i] < 64,
        forall|i: int| 0 <= i < spec_ctx_shift_idx(25, 1).len() ==> #[trigger] spec_ctx_shift_idx(25, 1)[i] < 16,
        spec_ctx_init_values(25, 2).len() == spec_ctx_init_values(25, 0).len(),
        spec_ctx_shift_idx(25, 2).len() == spec_ctx_init_values(25, 0).len(),
        forall|i: int| 0 <= i < spec_ctx_init_values(25, 2).len() ==> #[trigger] spec_ctx_init_values(25, 2)[i] < 64,
        forall|i: int| 0 <= i < spec_ctx_shift_idx(25, 2).len() ==> #[trigger] spec_ctx_shift_idx(25, 2)[i] < 16,
{
}

proof fn lemma_ctx_table_shape_26()
    ensures
        spec_ctx_init_values(26, 0).len() == spec_ctx_init_values(26, 0).len(),
        spec_ctx_shift_idx(26, 0).len() == spec_ctx_init_values(26, 0).len(),
        forall|i: int| 0 <= i < spec_ctx_init_values(26, 0).len() ==> #[trigger] spec_ctx_init_values(26, 0)[i] < 64,
        forall|i: int| 0 <= i < spec_ctx_shift_idx(26, 0).len() ==> #[trigger] spec_ctx_shift_idx(26, 0)[i] < 16,
        spec_ctx_init_values(26, 1).len() == spec_ctx_init_values(26, 0).len(),
        spec_ctx_shift_idx(26, 1).len() == spec_ctx_init_values(26, 0).len(),
        forall|i: int| 0 <= i < spec_ctx_init_values(26, 1).len() ==> #[trigger] spec_ctx_init_values(26, 1)[i] < 64,
        forall|i: int| 0 <= i < spec_ctx_shift_idx(26, 1).len() ==> #[trigger] spec_ctx_shift_idx(26, 1)[i] < 16,
        spec_ctx_init_values(26, 2).len() == spec_ctx_init_values(26, 0).len(),
        spec_ctx_shift_idx(26, 2).len() == spec_ctx_init_values(26, 0).len(),
        forall|i: int| 0 <= i < spec_ctx_init_values(26, 2).len() ==> #[trigger] spec_ctx_init_values(26, 2)[i] < 64,
        forall|i: int| 0 <= i < spec_ctx_shift_idx(26, 2).len() ==> #[trigger] spec_ctx_shift_idx(26, 2)[i] < 16,
{
}

proof fn lemma_ctx_table_shape_27()
    ensures
        spec_ctx_init_values(27, 0).len() == spec_ctx_init_values(27, 0).len(),
        spec_ctx_shift_idx(27, 0).len() == spec_ctx_init_values(27, 0).len(),
        forall|i: int| 0 <= i < spec_ctx_init_values(27, 0).len() ==> #[trigger] spec_ctx_init_values(27, 0)[i] < 64,
        forall|i: int| 0 <= i < spec_ctx_shift_idx(27, 0).len() ==> #[trigger] spec_ctx_shift_idx(27, 0)[i] < 16,
        spec_ctx_init_values(27, 1).len() == spec_ctx_init_values(27, 0).len(),
        spec_ctx_shift_idx(27, 1).len() == spec_ctx_init_values(27, 0).len(),
        forall|i: int| 0 <= i < spec_ctx_init_values(27, 1).len() ==> #[trigger] spec_ctx_init_values(27, 1)[i] < 64,
        forall|i: int| 0 <= i < spec_ctx_shift_idx(27, 1).len() ==> #[trigger] spec_ctx_shift_idx(27, 1)[i] < 16,
        spec_ctx_init_values(27, 2).len() == spec_ctx_init_values(27, 0).len(),
        spec_ctx_shift_idx(27, 2).len() == spec_ctx_init_values(27, 0).len(),
        forall|i: int| 0 <= i < spec_ctx_init_values(27, 2).len() ==> #[trigger] spec_ctx_init_values(27, 2)[i] < 64,
        forall|i: int| 0 <= i < spec_ctx_shift_idx(27, 2).len() ==> #[trigger] spec_ctx_shift_idx(27, 2)[i] < 16,
{
}

proof fn lemma_ctx_table_shape_28()
    ensures
        spec_ctx_init_values(28, 0).len() == spec_ctx_init_values(28, 0).len(),
        spec_ctx_shift_idx(28, 0).len() == spec_ctx_init_values(28, 0).len(),
        forall|i: int| 0 <= i < spec_ctx_init_values(28, 0).len() ==> #[trigger] spec_ctx_init_values(28, 0)[i] < 64,
        forall|i: int| 0 <= i < spec_ctx_shift_idx(28, 0).len() ==> #[trigger] spec_ctx_shift_idx(28, 0)[i] < 16,
        spec_ctx_init_values(28, 1).len() == spec_ctx_init_values(28, 0).len(),
        spec_ctx_shift_idx(28, 1).len() == spec_ctx_init_values(28, 0).len(),
        forall|i: int| 0 <= i < spec_ctx_init_values(28, 1).len() ==> #[trigger] spec_ctx_init_values(28, 1)[i] < 64,
        forall|i: int| 0 <= i < spec_ctx_shift_idx(28, 1).len() ==> #[trigger] spec_ctx_shift_idx(28, 1)[i] < 16,
        spec_ctx_init_values(28, 2).len() == spec_ctx_init_values(28, 0).len(),
        spec_ctx_shift_idx(28, 2).len() == spec_ctx_init_values(28, 0).len(),
        forall|i: int| 0 <= i < spec_ctx_init_values(28, 2).len() ==> #[trigger] spec_ctx_init_values(28, 2)[i] < 64,
        forall|i: int| 0 <= i < spec_ctx_shift_idx(28, 2).len() ==> #[trigger] spec_ctx_shift_idx(28, 2)[i] < 16,
{
}

proof fn lemma_ctx_table_shape_31()
    ensures
        spec_ctx_init_values(31, 0).len() == spec_ctx_init_values(31, 0).len(),
        spec_ctx_shift_idx(31, 0).len() == spec_ctx_init_values(31, 0).len(),
        forall|i: int| 0 <= i < spec_ctx_init_values(31, 0).len() ==> #[trigger] spec_ctx_init_values(31, 0)[i] < 64,
        forall|i: int| 0 <= i < spec_ctx_shift_idx(31, 0).len() ==> #[trigger] spec_ctx_shift_idx(31, 0)[i] < 16,
        spec_ctx_init_values(31, 1).len() == spec_ctx_init_values(31, 0).len(),
        spec_ctx_shift_idx(31, 1).len() == spec_ctx_init_values(31, 0).len(),
        forall|i: int| 0 <= i < spec_ctx_init_values(31, 1).len() ==> #[trigger] spec_ctx_init_values(31, 1)[i] < 64,
        forall|i: int| 0 <= i < spec_ctx_shift_idx(31, 1).len() ==> #[trigger] spec_ctx_shift_idx(31, 1)[i] < 16,
        spec_ctx_init_values(31, 2).len() == spec_ctx_init_values(31, 0).len(),
        spec_ctx_shift_idx(31, 2).len() == spec_ctx_init_values(31, 0).len(),
        forall|i: int| 0 <= i < spec_ctx_init_values(31, 2).len() ==> #[trigger] spec_ctx_init_values(31, 2)[i] < 64,
        forall|i: int| 0 <= i < spec_ctx_shift_idx(31, 2).len() ==> #[trigger] spec_ctx_shift_idx(31, 2)[i] < 16,
{
}

proof fn lemma_ctx_table_shape_32()
    ensures
        spec_ctx_init_values(32, 0).len() == spec_ctx_init_values(32, 0).len(),
        spec_ctx_shift_idx(32, 0).len() == spec_ctx_init_values(32, 0).len(),
        forall|i: int| 0 <= i < spec_ctx_init_values(32, 0).len() ==> #[trigger] spec_ctx_init_values(32, 0)[i] < 64,
        forall|i: int| 0 <= i < spec_ctx_shift_idx(32, 0).len() ==> #[trigger] spec_ctx_shift_idx(32, 0)[i] < 16,
        spec_ctx_init_values(32, 1).len() == spec_ctx_init_values(32, 0).len(),
        spec_ctx_shift_idx(32, 1).len() == spec_ctx_init_values(32, 0).len(),
        forall|i: int| 0 <= i < spec_ctx_init_values(32, 1).len() ==> #[trigger] spec_ctx_init_values(32, 1)[i] < 64,
        forall|i: int| 0 <= i < spec_ctx_shift_idx(32, 1).len() ==> #[trigger] spec_ctx_shift_idx(32, 1)[i] < 16,
        spec_ctx_init_values(32, 2).len() == spec_ctx_init_values(32, 0).len(),
        spec_ctx_shift_idx(32, 2).len() == spec_ctx_init_values(32, 0).len(),
        forall|i: int| 0 <= i < spec_ctx_init_values(32, 2).len() ==> #[trigger] spec_ctx_init_values(32, 2)[i] < 64,
        forall|i: int| 0 <= i < spec_ctx_shift_idx(32, 2).len() ==> #[trigger] spec_ctx_shift_idx(32, 2)[i] < 16,
{
}

proof fn lemma_ctx_table_shape_33()
    ensures
        spec_ctx_init_values(33, 0).len() == spec_ctx_init_values(33, 0).len(),
        spec_ctx_shift_idx(33, 0).len() == spec_ctx_init_values(33, 0).len(),
        forall|i: int| 0 <= i < spec_ctx_init_values(33, 0).len() ==> #[trigger] spec_ctx_init_values(33, 0)[i] < 64,
        forall|i: int| 0 <= i < spec_ctx_shift_idx(33, 0).len() ==> #[trigger] spec_ctx_shift_idx(33, 0)[i] < 16,
        spec_ctx_init_values(33, 1).len() == spec_ctx_init_values(33, 0).len(),
        spec_ctx_shift_idx(33, 1).len() == spec_ctx_init_values(33, 0).len(),
        forall|i: int| 0 <= i < spec_ctx_init_values(33, 1).len() ==> #[trigger] spec_ctx_init_values(33, 1)[i] < 64,
        forall|i: int| 0 <= i < spec_ctx_shift_idx(33, 1).len() ==> #[trigger] spec_ctx_shift_idx(33, 1)[i] < 16,
        spec_ctx_init_values(33, 2).len() == spec_ctx_init_values(33, 0).len(),
        spec_ctx_shift_idx(33, 2).len() == spec_ctx_init_values(33, 0).len(),
        forall|i: int| 0 <= i < spec_ctx_init_values(33, 2).len() ==> #[trigger] spec_ctx_init_values(33, 2)[i] < 64,
        forall|i: int| 0 <= i < spec_ctx_shift_idx(33, 2).len() ==> #[trigger] spec_ctx_shift_idx(33, 2)[i] < 16,
{
}

proof fn lemma_ctx_table_shape_34()
    ensures
        spec_ctx_init_values(34, 0).len() == spec_ctx_init_values(34, 0).len(),
        spec_ctx_shift_idx(34, 0).len() == spec_ctx_init_values(34, 0).len(),
        forall|i: int| 0 <= i < spec_ctx_init_values(34, 0).len() ==> #[trigger] spec_ctx_init_values(34, 0)[i] < 64,
        forall|i: int| 0 <= i < spec_ctx_shift_idx(34, 0).len() ==> #[trigger] spec_ctx_shift_idx(34, 0)[i] < 16,
        spec_ctx_init_values(34, 1).len() == spec_ctx_init_values(34, 0).len(),
        spec_ctx_shift_idx(34, 1).len() == spec_ctx_init_values(34, 0).len(),
        forall|i: int| 0 <= i < spec_ctx_init_values(34, 1).len() ==> #[trigger] spec_ctx_init_values(34, 1)[i] < 64,
        forall|i: int| 0 <= i < spec_ctx_shift_idx(34, 1).len() ==> #[trigger] spec_ctx_shift_idx(34, 1)[i] < 16,
        spec_ctx_init_values(34, 2).len() == spec_ctx_init_values(34, 0).len(),
        spec_ctx_shift_idx(34, 2).len() == spec_ctx_init_values(34, 0).len(),
        forall|i: int| 0 <= i < spec_ctx_init_values(34, 2).len() ==> #[trigger] spec_ctx_init_values(34, 2)[i] < 64,
        forall|i: int| 0 <= i < spec_ctx_shift_idx(34, 2).len() ==> #[trigger] spec_ctx_shift_idx(34, 2)[i] < 16,
{
}

proof fn lemma_ctx_table_shape_35()
    ensures
        spec_ctx_init_values(35, 0).len() == spec_ctx_init_values(35, 0).len(),
        spec_ctx_shift_idx(35, 0).len() == spec_ctx_init_values(35, 0).len(),
        forall|i: int| 0 <= i < spec_ctx_init_values(35, 0).len() ==> #[trigger] spec_ctx_init_values(35, 0)[i] < 64,
        forall|i: int| 0 <= i < spec_ctx_shift_idx(35, 0).len() ==> #[trigger] spec_ctx_shift_idx(35, 0)[i] < 16,
        spec_ctx_init_values(35, 1).len() == spec_ctx_init_values(35, 0).len(),
        spec_ctx_shift_idx(35, 1).len() == spec_ctx_init_values(35, 0).len(),
        forall|i: int| 0 <= i < spec_ctx_init_values(35, 1).len() ==> #[trigger] spec_ctx_init_values(35, 1)[i] < 64,
        forall|i: int| 0 <= i < spec_ctx_shift_idx(35, 1).len() ==> #[trigger] spec_ctx_shift_idx(35, 1)[i] < 16,
        spec_ctx_init_values(35, 2).len() == spec_ctx_init_values(35, 0).len(),
        spec_ctx_shift_idx(35, 2).len() == spec_ctx_init_values(35, 0).len(),
        forall|i: int| 0 <= i < spec_ctx_init_values(35, 2).len() ==> #[trigger] spec_ctx_init_values(35, 2)[i] < 64,
        forall|i: int| 0 <= i < spec_ctx_shift_idx(35, 2).len() ==> #[trigger] spec_ctx_shift_idx(35, 2)[i] < 16,
{
}

proof fn lemma_ctx_table_shape_38()
    ensures
        spec_ctx_init_values(38, 0).len() == spec_ctx_init_values(38, 0).len(),
        spec_ctx_shift_idx(38, 0).len() == spec_ctx_init_values(38, 0).len(),
        forall|i: int| 0 <= i < spec_ctx_init_values(38, 0).len() ==> #[trigger] spec_ctx_init_values(38, 0)[i] < 64,
        forall|i: int| 0 <= i < spec_ctx_shift_idx(38, 0).len() ==> #[trigger] spec_ctx_shift_idx(38, 0)[i] < 16,
        spec_ctx_init_values(38, 1).len() == spec_ctx_init_values(38, 0).len(),
        spec_ctx_shift_idx(38, 1).len() == spec_ctx_init_values(38, 0).len(),
        forall|i: int| 0 <= i < spec_ctx_init_values(38, 1).len() ==> #[trigger] spec_ctx_init_values(38, 1)[i] < 64,
        forall|i: int| 0 <= i < spec_ctx_shift_idx(38, 1).len() ==> #[trigger] spec_ctx_shift_idx(38, 1)[i] < 16,
        spec_ctx_init_values(38, 2).len() == spec_ctx_init_values(38, 0).len(),
        spec_ctx_shift_idx(38, 2).len() == spec_ctx_init_values(38, 0).len(),
        forall|i: int| 0 <= i < spec_ctx_init_values(38, 2).len() ==> #[trigger] spec_ctx_init_values(38, 2)[i] < 64,
        forall|i: int| 0 <= i < spec_ctx_shift_idx(38, 2).len() ==> #[trigger] spec_ctx_shift_idx(38, 2)[i] < 16,
{
}

proof fn lemma_ctx_table_shape_39()
    ensures
        spec_ctx_init_values(39, 0).len() == spec_ctx_init_values(39, 0).len(),
        spec_ctx_shift_idx(39, 0).len() == spec_ctx_init_values(39, 0).len(),
        forall|i: int| 0 <= i < spec_ctx_init_values(39, 0).len() ==> #[trigger] spec_ctx_init_values(39, 0)[i] < 64,
        forall|i: int| 0 <= i < spec_ctx_shift_idx(39, 0).len() ==> #[trigger] spec_ctx_shift_idx(39, 0)[i] < 16,
        spec_ctx_init_values(39, 1).len() == spec_ctx_init_values(39, 0).len(),
        spec_ctx_shift_idx(39, 1).len() == spec_ctx_init_values(39, 0).len(),
        forall|i: int| 0 <= i < spec_ctx_init_values(39, 1).len() ==> #[trigger] spec_ctx_init_values(39, 1)[i] < 64,
        forall|i: int| 0 <= i < spec_ctx_shift_idx(39, 1).len() ==> #[trigger] spec_ctx_shift_idx(39, 1)[i] < 16,
        spec_ctx_init_values(39, 2).len() == spec_ctx_init_values(39, 0).len(),
        spec_ctx_shift_idx(39, 2).len() == spec_ctx_init_values(39, 0).len(),
        forall|i: int| 0 <= i < spec_ctx_init_values(39, 2).len() ==> #[trigger] spec_ctx_init_values(39, 2)[i] < 64,
        forall|i: int| 0 <= i < spec_ctx_shift_idx(39, 2).len() ==> #[trigger] spec_ctx_shift_idx(39, 2)[i] < 16,
{
}

proof fn lemma_ctx_table_shape_40()
    ensures
        spec_ctx_init_values(40, 0).len() == spec_ctx_init_values(40, 0).len(),
        spec_ctx_shift_idx(40, 0).len() == spec_ctx_init_values(40, 0).len(),
        forall|i: int| 0 <= i < spec_ctx_init_values(40, 0).len() ==> #[trigger] spec_ctx_init_values(40, 0)[i] < 64,
        forall|i: int| 0 <= i < spec_ctx_shift_idx(40, 0).len() ==> #[trigger] spec_ctx_shift_idx(40, 0)[i] < 16,
        spec_ctx_init_values(40, 1).len() == spec_ctx_init_values(40, 0).len(),
        spec_ctx_shift_idx(40, 1).len() == spec_ctx_init_values(40, 0).len(),
        forall|i: int| 0 <= i < spec_ctx_init_values(40, 1).len() ==> #[trigger] spec_ctx_init_values(40, 1)[i] < 64,
        forall|i: int| 0 <= i < spec_ctx_shift_idx(40, 1).len() ==> #[trigger] spec_ctx_shift_idx(40, 1)[i] < 16,
        spec_ctx_init_values(40, 2).len() == spec_ctx_init_values(40, 0).len(),
        spec_ctx_shift_idx(40, 2).len() == spec_ctx_init_values(40, 0).len(),
        forall|i: int| 0 <= i < spec_ctx_init_values(40, 2).len() ==> #[trigger] spec_ctx_init_values(40, 2)[i] < 64,
        forall|i: int| 0 <= i < spec_ctx_shift_idx(40, 2).len() ==> #[trigger] spec_ctx_shift_idx(40, 2)[i] < 16,
{
}

proof fn lemma_ctx_table_shape_41()
    ensures
        spec_ctx_init_values(41, 0).len() == spec_ctx_init_values(41, 0).len(),
        spec_ctx_shift_idx(41, 0).len() == spec_ctx_init_values(41, 0).len(),
        forall|i: int| 0 <= i < spec_ctx_init_values(41, 0).len() ==> #[trigger] spec_ctx_init_values(41, 0)[i] < 64,
        forall|i: int| 0 <= i < spec_ctx_shift_idx(41, 0).len() ==> #[trigger] spec_ctx_shift_idx(41, 0)[i] < 16,
        spec_ctx_init_values(41, 1).len() == spec_ctx_init_values(41, 0).len(),
        spec_ctx_shift_idx(41, 1).len() == spec_ctx_init_values(41, 0).len(),
        forall|i: int| 0 <= i < spec_ctx_init_values(41, 1).len() ==> #[trigger] spec_ctx_init_values(41, 1)[i] < 64,
        forall|i: int| 0 <= i < spec_ctx_shift_idx(41, 1).len() ==> #[trigger] spec_ctx_shift_idx(41, 1)[i] < 16,
        spec_ctx_init_values(41, 2).len() == spec_ctx_init_values(41, 0).len(),
        spec_ctx_shift_idx(41, 2).len() == spec_ctx_init_values(41, 0).len(),
        forall|i: int| 0 <= i < spec_ctx_init_values(41, 2).len() ==> #[trigger] spec_ctx_init_values(41, 2)[i] < 64,
        forall|i: int| 0 <= i < spec_ctx_shift_idx(41, 2).len() ==> #[trigger] spec_ctx_shift_idx(41, 2)[i] < 16,
{
}

proof fn lemma_ctx_table_shape_42()
    ensures
        spec_ctx_init_values(42, 0).len() == spec_ctx_init_values(42, 0).len(),
        spec_ctx_shift_idx(42, 0).len() == spec_ctx_init_values(42, 0).len(),
        forall|i: int| 0 <= i < spec_ctx_init_values(42, 0).len() ==> #[trigger] spec_ctx_init_values(42, 0)[i] < 64,
        forall|i: int| 0 <= i < spec_ctx_shift_idx(42, 0).len() ==> #[trigger] spec_ctx_shift_idx(42, 0)[i] < 16,
        spec_ctx_init_values(42, 1).len() == spec_ctx_init_values(42, 0).len(),
        spec_ctx_shift_idx(42, 1).len() == spec_ctx_init_values(42, 0).len(),
        forall|i: int| 0 <= i < spec_ctx_init_values(42, 1).len() ==> #[trigger] spec_ctx_init_values(42, 1)[i] < 64,
        forall|i: int| 0 <= i < spec_ctx_shift_idx(42, 1).len() ==> #[trigger] spec_ctx_shift_idx(42, 1)[i] < 16,
        spec_ctx_init_values(42, 2).len() == spec_ctx_init_values(42, 0).len(),
        spec_ctx_shift_idx(42, 2).len() == spec_ctx_init_values(42, 0).len(),
        forall|i: int| 0 <= i < spec_ctx_init_values(42, 2).len() ==> #[trigger] spec_ctx_init_values(42, 2)[i] < 64,
        forall|i: int| 0 <= i < spec_ctx_shift_idx(42, 2).len() ==> #[trigger] spec_ctx_shift_idx(42, 2)[i] < 16,
{
}

proof fn lemma_ctx_table_shape_49()
    ensures
        spec_ctx_init_values(49, 0).len() == spec_ctx_init_values(49, 0).len(),
        spec_ctx_shift_idx(49, 0).len() == spec_ctx_init_values(49, 0).len(),
        forall|i: int| 0 <= i < spec_ctx_init_values(49, 0).len() ==> #[trigger] spec_ctx_init_values(49, 0)[i] < 64,
        forall|i: int| 0 <= i < spec_ctx_shift_idx(49, 0).len() ==> #[trigger] spec_ctx_shift_idx(49, 0)[i] < 16,
        spec_ctx_init_values(49, 1).len() == spec_ctx_init_values(49, 0).len(),
        spec_ctx_shift_idx(49, 1).len() == spec_ctx_init_values(49, 0).len(),
        forall|i: int| 0 <= i < spec_ctx_init_values(49, 1).len() ==> #[trigger] spec_ctx_init_values(49, 1)[i] < 64,
        forall|i: int| 0 <= i < spec_ctx_shift_idx(49, 1).len() ==> #[trigger] spec_ctx_shift_idx(49, 1)[i] < 16,
        spec_ctx_init_values(49, 2).len() == spec_ctx_init_values(49, 0).len(),
        spec_ctx_shift_idx(49, 2).len() == spec_ctx_init_values(49, 0).len(),
        forall|i: int| 0 <= i < spec_ctx_init_values(49, 2).len() ==> #[trigger] spec_ctx_init_values(49, 2)[i] < 64,
        forall|i: int| 0 <= i < spec_ctx_shift_idx(49, 2).len() ==> #[trigger] spec_ctx_shift_idx(49, 2)[i] < 16,
{
}

proof fn lemma_ctx_table_shape_50()
    ensures
        spec_ctx_init_values(50, 0).len() == spec_ctx_init_values(50, 0).len(),
        spec_ctx_shift_idx(50, 0).len() == spec_ctx_init_values(50, 0).len(),
        forall|i: int| 0 <= i < spec_ctx_init_values(50, 0).len() ==> #[trigger] spec_ctx_init_values(50, 0)[i] < 64,
        forall|i: int| 0 <= i < spec_ctx_shift_idx(50, 0).len() ==> #[trigger] spec_ctx_shift_idx(50, 0)[i] < 16,
        spec_ctx_init_values(50, 1).len() == spec_ctx_init_values(50, 0).len(),
        spec_ctx_shift_idx(50, 1).len() == spec_ctx_init_values(50, 0).len(),
        forall|i: int| 0 <= i < spec_ctx_init_values(50, 1).len() ==> #[trigger] spec_ctx_init_values(50, 1)[i] < 64,
        forall|i: int| 0 <= i < spec_ctx_shift_idx(50, 1).len() ==> #[trigger] spec_ctx_shift_idx(50, 1)[i] < 16,
        spec_ctx_init_values(50, 2).len() == spec_ctx_init_values(50, 0).len(),
        spec_ctx_shift_idx(50, 2).len() == spec_ctx_init_values(50, 0).len(),
        forall|i: int| 0 <= i < spec_ctx_init_values(50, 2).len() ==> #[trigger] spec_ctx_init_values(50, 2)[i] < 64,
        forall|i: int| 0 <= i < spec_ctx_shift_idx(50, 2).len() ==> #[trigger] spec_ctx_shift_idx(50, 2)[i] < 16,
{
}

proof fn lemma_ctx_table_shape_51()
    ensures
        spec_ctx_init_values(51, 0).len() == spec_ctx_init_values(51, 0).len(),
        spec_ctx_shift_idx(51, 0).len() == spec_ctx_init_values(51, 0).len(),
        forall|i: int| 0 <= i < spec_ctx_init_values(51, 0).len() ==> #[trigger] spec_ctx_init_values(51, 0)[i] < 64,
        forall|i: int| 0 <= i < spec_ctx_shift_idx(51, 0).len() ==> #[trigger] spec_ctx_shift_idx(51, 0)[i] < 16,
        spec_ctx_init_values(51, 1).len() == spec_ctx_init_values(51, 0).len(),
        spec_ctx_shift_idx(51, 1).len() == spec_ctx_init_values(51, 0).len(),
        forall|i: int| 0 <= i < spec_ctx_init_values(51, 1).len() ==> #[trigger] spec_ctx_init_values(51, 1)[i] < 64,
        forall|i: int| 0 <= i < spec_ctx_shift_idx(51, 1).len() ==> #[trigger] spec_ctx_shift_idx(51, 1)[i] < 16,
        spec_ctx_init_values(51, 2).len() == spec_ctx_init_values(51, 0).len(),
        spec_ctx_shift_idx(51, 2).len() == spec_ctx_init_values(51, 0).len(),
        forall|i: int| 0 <= i < spec_ctx_init_values(51, 2).len() ==> #[trigger] spec_ctx_init_values(51, 2)[i] < 64,
        forall|i: int| 0 <= i < spec_ctx_shift_idx(51, 2).len() ==> #[trigger] spec_ctx_shift_idx(51, 2)[i] < 16,
{
}

proof fn lemma_ctx_table_shape_52()
    ensures
        spec_ctx_init_values(52, 0).len() == spec_ctx_init_values(52, 0).len(),
        spec_ctx_shift_idx(52, 0).len() == spec_ctx_init_values(52, 0).len(),
        forall|i: int| 0 <= i < spec_ctx_init_values(52, 0).len() ==> #[trigger] spec_ctx_init_values(52, 0)[i] < 64,
        forall|i: int| 0 <= i < spec_ctx_shift_idx(52, 0).len() ==> #[trigger] spec_ctx_shift_idx(52, 0)[i] < 16,
        spec_ctx_init_values(52, 1).len() == spec_ctx_init_values(52, 0).len(),
        spec_ctx_shift_idx(52, 1).len() == spec_ctx_init_values(52, 0).len(),
        forall|i: int| 0 <= i < spec_ctx_init_values(52, 1).len() ==> #[trigger] spec_ctx_init_values(52, 1)[i] < 64,
        forall|i: int| 0 <= i < spec_ctx_shift_idx(52, 1).len() ==> #[trigger] spec_ctx_shift_idx(52, 1)[i] < 16,
        spec_ctx_init_values(52, 2).len() == spec_ctx_init_values(52, 0).len(),
        spec_ctx_shift_idx(52, 2).len() == spec_ctx_init_values(52, 0).len(),
        forall|i: int| 0 <= i < spec_ctx_init_values(52, 2).len() ==> #[trigger] spec_ctx_init_values(52, 2)[i] < 64,
        forall|i: int| 0 <= i < spec_ctx_shift_idx(52, 2).len() ==> #[trigger] spec_ctx_shift_idx(52, 2)[i] < 16,
{
}

proof fn lemma_ctx_table_shape_53()
    ensures
        spec_ctx_init_values(53, 0).len() == spec_ctx_init_values(53, 0).len(),
        spec_ctx_shift_idx(53, 0).len() == spec_ctx_init_values(53, 0).len(),
        forall|i: int| 0 <= i < spec_ctx_init_values(53, 0).len() ==> #[trigger] spec_ctx_init_values(53, 0)[i] < 64,
        forall|i: int| 0 <= i < spec_ctx_shift_idx(53, 0).len() ==> #[trigger] spec_ctx_shift_idx(53, 0)[i] < 16,
        spec_ctx_init_values(53, 1).len() == spec_ctx_init_values(53, 0).len(),
        spec_ctx_shift_idx(53, 1).len() == spec_ctx_init_values(53, 0).len(),
        forall|i: int| 0 <= i < spec_ctx_init_values(53, 1).len() ==> #[trigger] spec_ctx_init_values(53, 1)[i] < 64,
        forall|i: int| 0 <= i < spec_ctx_shift_idx(53, 1).len() ==> #[trigger] spec_ctx_shift_idx(53, 1)[i] < 16,
        spec_ctx_init_values(53, 2).len() == spec_ctx_init_values(53, 0).len(),
        spec_ctx_shift_idx(53, 2).len() == spec_ctx_init_values(53, 0).len(),
        forall|i: int| 0 <= i < spec_ctx_init_values(53, 2).len() ==> #[trigger] spec_ctx_init_values(53, 2)[i] < 64,
        forall|i: int| 0 <= i < spec_ctx_shift_idx(53, 2).len() ==> #[trigger] spec_ctx_shift_idx(53, 2)[i] < 16,
{
}

proof fn lemma_ctx_table_shape_54()
    ensures
        spec_ctx_init_values(54, 0).len() == spec_ctx_init_values(54, 0).len(),
        spec_ctx_shift_idx(54, 0).len() == spec_ctx_init_values(54, 0).len(),
        forall|i: int| 0 <= i < spec_ctx_init_values(54, 0).len() ==> #[trigger] spec_ctx_init_values(54, 0)[i] < 64,
        forall|i: int| 0 <= i < spec_ctx_shift_idx(54, 0).len() ==> #[trigger] spec_ctx_shift_idx(54, 0)[i] < 16,
        spec_ctx_init_values(54, 1).len() == spec_ctx_init_values(54, 0).len(),
        spec_ctx_shift_idx(54, 1).len() == spec_ctx_init_values(54, 0).len(),
        forall|i: int| 0 <= i < spec_ctx_init_values(54, 1).len() ==> #[trigger] spec_ctx_init_values(54, 1)[i] < 64,
        forall|i: int| 0 <= i < spec_ctx_shift_idx(54, 1).len() ==> #[trigger] spec_ctx_shift_idx(54, 1)[i] < 16,
        spec_ctx_init_values(54, 2).len() == spec_ctx_init_values(54, 0).len(),
        spec_ctx_shift_idx(54, 2).len() == spec_ctx_init_values(54, 0).len(),
        forall|i: int| 0 <= i < spec_ctx_init_values(54, 2).len() ==> #[trigger] spec_ctx_init_values(54, 2)[i] < 64,
        forall|i: int| 0 <= i < spec_ctx_shift_idx(54, 2).len() ==> #[trigger] spec_ctx_shift_idx(54, 2)[i] < 16,
{
}

proof fn lemma_ctx_table_shape_55()
    ensures
        spec_ctx_init_values(55, 0).len() == spec_ctx_init_values(55, 0).len(),
        spec_ctx_shift_idx(55, 0).len() == spec_ctx_init_values(55, 0).len(),
        forall|i: int| 0 <= i < spec_ctx_init_values(55, 0).len() ==> #[trigger] spec_ctx_init_values(55, 0)[i] < 64,
        forall|i: int| 0 <= i < spec_ctx_shift_idx(55, 0).len() ==> #[trigger] spec_ctx_shift_idx(55, 0)[i] < 16,
        spec_ctx_init_values(55, 1).len() == spec_ctx_init_values(55, 0).len(),
        spec_ctx_shift_idx(55, 1).len() == spec_ctx_init_values(55, 0).len(),
        forall|i: int| 0 <= i < spec_ctx_init_values(55, 1).len() ==> #[trigger] spec_ctx_init_values(55, 1)[i] < 64,
        forall|i: int| 0 <= i < spec_ctx_shift_idx(55, 1).len() ==> #[trigger] spec_ctx_shift_idx(55, 1)[i] < 16,
        spec_ctx_init_values(55, 2).len() == spec_ctx_init_values(55, 0).len(),
        spec_ctx_shift_idx(55, 2).len() == spec_ctx_init_values(55, 0).len(),
        forall|i: int| 0 <= i < spec_ctx_init_values(55, 2).len() ==> #[trigger] spec_ctx_init_values(55, 2)[i] < 64,
        forall|i: int| 0 <= i < spec_ctx_shift_idx(55, 2).len() ==> #[trigger] spec_ctx_shift_idx(55, 2)[i] < 16,
{
}

proof fn lemma_ctx_table_shape_56()
    ensures
        spec_ctx_init_values(56, 0).len() == spec_ctx_init_values(56, 0).len(),
        spec_ctx_shift_idx(56, 0).len() == spec_ctx_init_values(56, 0).len(),
        forall|i: int| 0 <= i < spec_ctx_init_values(56, 0).len() ==> #[trigger] spec_ctx_init_values(56, 0)[i] < 64,
        forall|i: int| 0 <= i < spec_ctx_shift_idx(56, 0).len() ==> #[trigger] spec_ctx_shift_idx(56, 0)[i] < 16,
        spec_ctx_init_values(56, 1).len() == spec_ctx_init_values(56, 0).len(),
        spec_ctx_shift_idx(56, 1).len() == spec_ctx_init_values(56, 0).len(),
        forall|i: int| 0 <= i < spec_ctx_init_values(56, 1).len() ==> #[trigger] spec_ctx_init_values(56, 1)[i] < 64,
        forall|i: int| 0 <= i < spec_ctx_shift_idx(56, 1).len() ==> #[trigger] spec_ctx_shift_idx(56, 1)[i] < 16,
        spec_ctx_init_values(56, 2).len() == spec_ctx_init_values(56, 0).len(),
        spec_ctx_shift_idx(56, 2).len() == spec_ctx_init_values(56, 0).len(),
        forall|i: int| 0 <= i < spec_ctx_init_values(56, 2).len() ==> #[trigger] spec_ctx_init_values(56, 2)[i] < 64,
        forall|i: int| 0 <= i < spec_ctx_shift_idx(56, 2).len() ==> #[trigger] spec_ctx_shift_idx(56, 2)[i] < 16,
{
}

proof fn lemma_ctx_table_shape_57()
    ensures
        spec_ctx_init_values(57, 0).len() == spec_ctx_init_values(57, 0).len(),
        spec_ctx_shift_idx(57, 0).len() == spec_ctx_init_values(57, 0).len(),
        forall|i: int| 0 <= i < spec_ctx_init_values(57, 0).len() ==> #[trigger] spec_ctx_init_values(57, 0)[i] < 64,
        forall|i: int| 0 <= i < spec_ctx_shift_idx(57, 0).len() ==> #[trigger] spec_ctx_shift_idx(57, 0)[i] < 16,
        spec_ctx_init_values(57, 1).len() == spec_ctx_init_values(57, 0).len(),
        spec_ctx_shift_idx(57, 1).len() == spec_ctx_init_values(57, 0).len(),
        forall|i: int| 0 <= i < spec_ctx_init_values(57, 1).len() ==> #[trigger] spec_ctx_init_values(57, 1)[i] < 64,
        forall|i: int| 0 <= i < spec_ctx_shift_idx(57, 1).len() ==> #[trigger] spec_ctx_shift_idx(57, 1)[i] < 16,
        spec_ctx_init_values(57, 2).len() == spec_ctx_init_values(57, 0).len(),
        spec_ctx_shift_idx(57, 2).len() == spec_ctx_init_values(57, 0).len(),
        forall|i: int| 0 <= i < spec_ctx_init_values(57, 2).len() ==> #[trigger] spec_ctx_init_values(57, 2)[i] < 64,
        forall|i: int| 0 <= i < spec_ctx_shift_idx(57, 2).len() ==> #[trigger] spec_ctx_shift_idx(57, 2)[i] < 16,
{
}

proof fn lemma_ctx_table_shape_58()
    ensures
        spec_ctx_init_values(58, 0).len() == spec_ctx_init_values(58, 0).len(),
        spec_ctx_shift_idx(58, 0).len() == spec_ctx_init_values(58, 0).len(),
        forall|i: int| 0 <= i < spec_ctx_init_values(58, 0).len() ==> #[trigger] spec_ctx_init_values(58, 0)[i] < 64,
        forall|i: int| 0 <= i < spec_ctx_shift_idx(58, 0).len() ==> #[trigger] spec_ctx_shift_idx(58, 0)[i] < 16,
        spec_ctx_init_values(58, 1).len() == spec_ctx_init_values(58, 0).len(),
        spec_ctx_shift_idx(58, 1).len() == spec_ctx_init_values(58, 0).len(),
        forall|i: int| 0 <= i < spec_ctx_init_values(58, 1).len() ==> #[trigger] spec_ctx_init_values(58, 1)[i] < 64,
        forall|i: int| 0 <= i < spec_ctx_shift_idx(58, 1).len() ==> #[trigger] spec_ctx_shift_idx(58, 1)[i] < 16,
        spec_ctx_init_values(58, 2).len() == spec_ctx_init_values(58, 0).len(),
        spec_ctx_shift_idx(58, 2).len() == spec_ctx_init_values(58, 0).len(),
        forall|i: int| 0 <= i < spec_ctx_init_values(58, 2).len() ==> #[trigger] spec_ctx_init_values(58, 2)[i] < 64,
        forall|i: int| 0 <= i < spec_ctx_shift_idx(58, 2).len() ==> #[trigger] spec_ctx_shift_idx(58, 2)[i] < 16,
{
}

proof fn lemma_ctx_table_shape_59()
    ensures
        spec_ctx_init_values(59, 0).len() == spec_ctx_init_values(59, 0).len(),
        spec_ctx_shift_idx(59, 0).len() == spec_ctx_init_values(59, 0).len(),
        forall|i: int| 0 <= i < spec_ctx_init_values(59, 0).len() ==> #[trigger] spec_ctx_init_values(59, 0)[i] < 64,
        forall|i: int| 0 <= i < spec_ctx_shift_idx(59, 0).len() ==> #[trigger] spec_ctx_shift_idx(59, 0)[i] < 16,
        spec_ctx_init_values(59, 1).len() == spec_ctx_init_values(59, 0).len(),
        spec_ctx_shift_idx(59, 1).len() == spec_ctx_init_values(59, 0).len(),
        forall|i: int| 0 <= i < spec_ctx_init_values(59, 1).len() ==> #[trigger] spec_ctx_init_values(59, 1)[i] < 64,
        forall|i: int| 0 <= i < spec_ctx_shift_idx(59, 1).len() ==> #[trigger] spec_ctx_shift_idx(59, 1)[i] < 16,
        spec_ctx_init_values(59, 2).len() == spec_ctx_init_values(59, 0).len(),
        spec_ctx_shift_idx(59, 2).len() == spec_ctx_init_values(59, 0).len(),
        forall|i: int| 0 <= i < spec_ctx_init_values(59, 2).len() ==> #[trigger] spec_ctx_init_values(59, 2)[i] < 64,
        forall|i: int| 0 <= i < spec_ctx_shift_idx(59, 2).len() ==> #[trigger] spec_ctx_shift_idx(59, 2)[i] < 16,
{
}

proof fn lemma_ctx_table_shape_60()
    ensures
        spec_ctx_init_values(60, 0).len() == spec_ctx_init_values(60, 0).len(),
        spec_ctx_shift_idx(60, 0).len() == spec_ctx_init_values(60, 0).len(),
        forall|i: int| 0 <= i < spec_ctx_init_values(60, 0).len() ==> #[trigger] spec_ctx_init_values(60, 0)[i] < 64,
        forall|i: int| 0 <= i < spec_ctx_shift_idx(60, 0).len() ==> #[trigger] spec_ctx_shift_idx(60, 0)[i] < 16,
        spec_ctx_init_values(60, 1).len() == spec_ctx_init_values(60, 0).len(),
        spec_ctx_shift_idx(60, 1).len() == spec_ctx_init_values(60, 0).len(),
        forall|i: int| 0 <= i < spec_ctx_init_values(60, 1).len() ==> #[trigger] spec_ctx_init_values(60, 1)[i] < 64,
        forall|i: int| 0 <= i < spec_ctx_shift_idx(60, 1).len() ==> #[trigger] spec_ctx_shift_idx(60, 1)[i] < 16,
        spec_ctx_init_values(60, 2).len() == spec_ctx_init_values(60, 0).len(),
        spec_ctx_shift_idx(60, 2).len() == spec_ctx_init_values(60, 0).len(),
        forall|i: int| 0 <= i < spec_ctx_init_values(60, 2).len() ==> #[trigger] spec_ctx_init_values(60, 2)[i] < 64,
        forall|i: int| 0 <= i < spec_ctx_shift_idx(60, 2).len() ==> #[trigger] spec_ctx_shift_idx(60, 2)[i] < 16,
{
}

proof fn lemma_ctx_table_shape_61()
    ensures
        spec_ctx_init_values(61, 0).len() == spec_ctx_init_values(61, 0).len(),
        spec_ctx_shift_idx(61, 0).len() == spec_ctx_init_values(61, 0).len(),
        forall|i: int| 0 <= i < spec_ctx_init_values(61, 0).len() ==> #[trigger] spec_ctx_init_values(61, 0)[i] < 64,
        forall|i: int| 0 <= i < spec_ctx_shift_idx(61, 0).len() ==> #[trigger] spec_ctx_shift_idx(61, 0)[i] < 16,
        spec_ctx_init_values(61, 1).len() == spec_ctx_init_values(61, 0).len(),
        spec_ctx_shift_idx(61, 1).len() == spec_ctx_init_values(61, 0).len(),
        forall|i: int| 0 <= i < spec_ctx_init_values(61, 1).len() ==> #[trigger] spec_ctx_init_values(61, 1)[i] < 64,
        forall|i: int| 0 <= i < spec_ctx_shift_idx(61, 1).len() ==> #[trigger] spec_ctx_shift_idx(61, 1)[i] < 16,
        spec_ctx_init_values(61, 2).len() == spec_ctx_init_values(61, 0).len(),
        spec_ctx_shift_idx(61, 2).len() == spec_ctx_init_values(61, 0).len(),
        forall|i: int| 0 <= i < spec_ctx_init_values(61, 2).len() ==> #[trigger] spec_ctx_init_values(61, 2)[i] < 64,
        forall|i: int| 0 <= i < spec_ctx_shift_idx(61, 2).len() ==> #[trigger] spec_ctx_shift_idx(61, 2)[i] < 16,
{
}

proof fn lemma_ctx_table_shape_62()
    ensures
        spec_ctx_init_values(62, 0).len() == spec_ctx_init_values(62, 0).len(),
        spec_ctx_shift_idx(62, 0).len() == spec_ctx_init_values(62, 0).len(),
        forall|i: int| 0 <= i < spec_ctx_init_values(62, 0).len() ==> #[trigger] spec_ctx_init_values(62, 0)[i] < 64,
        forall|i: int| 0 <= i < spec_ctx_shift_idx(62, 0).len() ==> #[trigger] spec_ctx_shift_idx(62, 0)[i] < 16,
        spec_ctx_init_values(62, 1).len() == spec_ctx_init_values(62, 0).len(),
        spec_ctx_shift_idx(62, 1).len() == spec_ctx_init_values(62, 0).len(),
        forall|i: int| 0 <= i < spec_ctx_init_values(62, 1).len() ==> #[trigger] spec_ctx_init_values(62, 1)[i] < 64,
        forall|i: int| 0 <= i < spec_ctx_shift_idx(62, 1).len() ==> #[trigger] spec_ctx_shift_idx(62, 1)[i] < 16,
        spec_ctx_init_values(62, 2).len() == spec_ctx_init_values(62, 0).len(),
        spec_ctx_shift_idx(62, 2).len() == spec_ctx_init_values(62, 0).len(),
        forall|i: int| 0 <= i < spec_ctx_init_values(62, 2).len() ==> #[trigger] spec_ctx_init_values(62, 2)[i] < 64,
        forall|i: int| 0 <= i < spec_ctx_shift_idx(62, 2).len() ==> #[trigger] spec_ctx_shift_idx(62, 2)[i] < 16,
{
}

proof fn lemma_ctx_table_shape_63()
    ensures
        spec_ctx_init_values(63, 0).len() == spec_ctx_init_values(63, 0).len(),
        spec_ctx_shift_idx(63, 0).len() == spec_ctx_init_values(63, 0).len(),
        forall|i: int| 0 <= i < spec_ctx_init_values(63, 0).len() ==> #[trigger] spec_ctx_init_values(63, 0)[i] < 64,
        forall|i: int| 0 <= i < spec_ctx_shift_idx(63, 0).len() ==> #[trigger] spec_ctx_shift_idx(63, 0)[i] < 16,
        spec_ctx_init_values(63, 1).len() == spec_ctx_init_values(63, 0).len(),
        spec_ctx_shift_idx(63, 1).len() == spec_ctx_init_values(63, 0).len(),
        forall|i: int| 0 <= i < spec_ctx_init_values(63, 1).len() ==> #[trigger] spec_ctx_init_values(63, 1)[i] < 64,
        forall|i: int| 0 <= i < spec_ctx_shift_idx(63, 1).len() ==> #[trigger] spec_ctx_shift_idx(63, 1)[i] < 16,
        spec_ctx_init_values(63, 2).len() == spec_ctx_init_values(63, 0).len(),
        spec_ctx_shift_idx(63, 2).len() == spec_ctx_init_values(63, 0).len(),
        forall|i: int| 0 <= i < spec_ctx_init_values(63, 2).len() ==> #[trigger] spec_ctx_init_values(63, 2)[i] < 64,
        forall|i: int| 0 <= i < spec_ctx_shift_idx(63, 2).len() ==> #[trigger] spec_ctx_shift_idx(63, 2)[i] < 16,
{
}

proof fn lemma_ctx_table_shape_64()
    ensures
        spec_ctx_init_values(64, 0).len() == spec_ctx_init_values(64, 0).len(),
        spec_ctx_shift_idx(64, 0).len() == spec_ctx_init_values(64, 0).len(),
        forall|i: int| 0 <= i < spec_ctx_init_values(64, 0).len() ==> #[trigger] spec_ctx_init_values(64, 0)[i] < 64,
        forall|i: int| 0 <= i < spec_ctx_shift_idx(64, 0).len() ==> #[trigger] spec_ctx_shift_idx(64, 0)[i] < 16,
        spec_ctx_init_values(64, 1).len() == spec_ctx_init_values(64, 0).len(),
        spec_ctx_shift_idx(64, 1).len() == spec_ctx_init_values(64, 0).len(),
        forall|i: int| 0 <= i < spec_ctx_init_values(64, 1).len() ==> #[trigger] spec_ctx_init_values(64, 1)[i] < 64,
        forall|i: int| 0 <= i < spec_ctx_shift_idx(64, 1).len() ==> #[trigger] spec_ctx_shift_idx(64, 1)[i] < 16,
        spec_ctx_init_values(64, 2).len() == spec_ctx_init_values(64, 0).len(),
        spec_ctx_shift_idx(64, 2).len() == spec_ctx_init_values(64, 0).len(),
        forall|i: int| 0 <= i < spec_ctx_init_values(64, 2).len() ==> #[trigger] spec_ctx_init_values(64, 2)[i] < 64,
        forall|i: int| 0 <= i < spec_ctx_shift_idx(64, 2).len() ==> #[trigger] spec_ctx_shift_idx(64, 2)[i] < 16,
{
}

proof fn lemma_ctx_table_shape_65()
    ensures
        spec_ctx_init_values(65, 0).len() == spec_ctx_init_values(65, 0).len(),
        spec_ctx_shift_idx(65, 0).len() == spec_ctx_init_values(65, 0).len(),
        forall|i: int| 0 <= i < spec_ctx_init_values(65, 0).len() ==> #[trigger] spec_ctx_init_values(65, 0)[i] < 64,
        forall|i: int| 0 <= i < spec_ctx_shift_idx(65, 0).len() ==> #[trigger] spec_ctx_shift_idx(65, 0)[i] < 16,
        spec_ctx_init_values(65, 1).len() == spec_ctx_init_values(65, 0).len(),
        spec_ctx_shift_idx(65, 1).len() == spec_ctx_init_values(65, 0).len(),
        forall|i: int| 0 <= i < spec_ctx_init_values(65, 1).len() ==> #[trigger] spec_ctx_init_values(65, 1)[i] < 64,
        forall|i: int| 0 <= i < spec_ctx_shift_idx(65, 1).len() ==> #[trigger] spec_ctx_shift_idx(65, 1)[i] < 16,
        spec_ctx_init_values(65, 2).len() == spec_ctx_init_values(65, 0).len(),
        spec_ctx_shift_idx(65, 2).len() == spec_ctx_init_values(65, 0).len(),
        forall|i: int| 0 <= i < spec_ctx_init_values(65, 2).len() ==> #[trigger] spec_ctx_init_values(65, 2)[i] < 64,
        forall|i: int| 0 <= i < spec_ctx_shift_idx(65, 2).len() ==> #[trigger] spec_ctx_shift_idx(65, 2)[i] < 16,
{
}

proof fn lemma_ctx_table_shape_66()
    ensures
        spec_ctx_init_values(66, 0).len() == spec_ctx_init_values(66, 0).len(),
        spec_ctx_shift_idx(66, 0).len() == spec_ctx_init_values(66, 0).len(),
        forall|i: int| 0 <= i < spec_ctx_init_values(66, 0).len() ==> #[trigger] spec_ctx_init_values(66, 0)[i] < 64,
        forall|i: int| 0 <= i < spec_ctx_shift_idx(66, 0).len() ==> #[trigger] spec_ctx_shift_idx(66, 0)[i] < 16,
        spec_ctx_init_values(66, 1).len() == spec_ctx_init_values(66, 0).len(),
        spec_ctx_shift_idx(66, 1).len() == spec_ctx_init_values(66, 0).len(),
        forall|i: int| 0 <= i < spec_ctx_init_values(66, 1).len() ==> #[trigger] spec_ctx_init_values(66, 1)[i] < 64,
        forall|i: int| 0 <= i < spec_ctx_shift_idx(66, 1).len() ==> #[trigger] spec_ctx_shift_idx(66, 1)[i] < 16,
        spec_ctx_init_values(66, 2).len() == spec_ctx_init_values(66, 0).len(),
        spec_ctx_shift_idx(66, 2).len() == spec_ctx_init_values(66, 0).len(),
        forall|i: int| 0 <= i < spec_ctx_init_values(66, 2).len() ==> #[trigger] spec_ctx_init_values(66, 2)[i] < 64,
        forall|i: int| 0 <= i < spec_ctx_shift_idx(66, 2).len() ==> #[trigger] spec_ctx_shift_idx(66, 2)[i] < 16,
{
}

proof fn lemma_ctx_table_shape_67()
    ensures
        spec_ctx_init_values(67, 0).len() == spec_ctx_init_values(67, 0).len(),
        spec_ctx_shift_idx(67, 0).len() == spec_ctx_init_values(67, 0).len(),
        forall|i: int| 0 <= i < spec_ctx_init_values(67, 0).len() ==> #[trigger] spec_ctx_init_values(67, 0)[i] < 64,
        forall|i: int| 0 <= i < spec_ctx_shift_idx(67, 0).len() ==> #[trigger] spec_ctx_shift_idx(67, 0)[i] < 16,
        spec_ctx_init_values(67, 1).len() == spec_ctx_init_values(67, 0).len(),
        spec_ctx_shift_idx(67, 1).len() == spec_ctx_init_values(67, 0).len(),
        forall|i: int| 0 <= i < spec_ctx_init_values(67, 1).len() ==> #[trigger] spec_ctx_init_values(67, 1)[i] < 64,
        forall|i: int| 0 <= i < spec_ctx_shift_idx(67, 1).len() ==> #[trigger] spec_ctx_shift_idx(67, 1)[i] < 16,
        spec_ctx_init_values(67, 2).len() == spec_ctx_init_values(67, 0).len(),
        spec_ctx_shift_idx(67, 2).len() == spec_ctx_init_values(67, 0).len(),
        forall|i: int| 0 <= i < spec_ctx_init_values(67, 2).len() ==> #[trigger] spec_ctx_init_values(67, 2)[i] < 64,
        forall|i: int| 0 <= i < spec_ctx_shift_idx(67, 2).len() ==> #[trigger] spec_ctx_shift_idx(67, 2)[i] < 16,
{
}

proof fn lemma_ctx_table_shape_68()
    ensures
        spec_ctx_init_values(68, 0).len() == spec_ctx_init_values(68, 0).len(),
        spec_ctx_shift_idx(68, 0).len() == spec_ctx_init_values(68, 0).len(),
        forall|i: int| 0 <= i < spec_ctx_init_values(68, 0).len() ==> #[trigger] spec_ctx_init_values(68, 0)[i] < 64,
        forall|i: int| 0 <= i < spec_ctx_shift_idx(68, 0).len() ==> #[trigger] spec_ctx_shift_idx(68, 0)[i] < 16,
        spec_ctx_init_values(68, 1).len() == spec_ctx_init_values(68, 0).len(),
        spec_ctx_shift_idx(68, 1).len() == spec_ctx_init_values(68, 0).len(),
        forall|i: int| 0 <= i < spec_ctx_init_values(68, 1).len() ==> #[trigger] spec_ctx_init_values(68, 1)[i] < 64,
        forall|i: int| 0 <= i < spec_ctx_shift_idx(68, 1).len() ==> #[trigger] spec_ctx_shift_idx(68, 1)[i] < 16,
        spec_ctx_init_values(68, 2).len() == spec_ctx_init_values(68, 0).len(),
        spec_ctx_shift_idx(68, 2).len() == spec_ctx_init_values(68, 0).len(),
        forall|i: int| 0 <= i < spec_ctx_init_values(68, 2).len() ==> #[trigger] spec_ctx_init_values(68, 2)[i] < 64,
        forall|i: int| 0 <= i < spec_ctx_shift_idx(68, 2).len() ==> #[trigger] spec_ctx_shift_idx(68, 2)[i] < 16,
{
}

proof fn lemma_ctx_table_shape_69()
    ensures
        spec_ctx_init_values(69, 0).len() == spec_ctx_init_values(69, 0).len(),
        spec_ctx_shift_idx(69, 0).len() == spec_ctx_init_values(69, 0).len(),
        forall|i: int| 0 <= i < spec_ctx_init_values(69, 0).len() ==> #[trigger] spec_ctx_init_values(69, 0)[i] < 64,
        forall|i: int| 0 <= i < spec_ctx_shift_idx(69, 0).len() ==> #[trigger] spec_ctx_shift_idx(69, 0)[i] < 16,
        spec_ctx_init_values(69, 1).len() == spec_ctx_init_values(69, 0).len(),
        spec_ctx_shift_idx(69, 1).len() == spec_ctx_init_values(69, 0).len(),
        forall|i: int| 0 <= i < spec_ctx_init_values(69, 1).len() ==> #[trigger] spec_ctx_init_values(69, 1)[i] < 64,
        forall|i: int| 0 <= i < spec_ctx_shift_idx(69, 1).len() ==> #[trigger] spec_ctx_shift_idx(69, 1)[i] < 16,
        spec_ctx_init_values(69, 2).len() == spec_ctx_init_values(69, 0).len(),
        spec_ctx_shift_idx(69, 2).len() == spec_ctx_init_values(69, 0).len(),
        forall|i: int| 0 <= i < spec_ctx_init_values(69, 2).len() ==> #[trigger] spec_ctx_init_values(69, 2)[i] < 64,
        forall|i: int| 0 <= i < spec_ctx_shift_idx(69, 2).len() ==> #[trigger] spec_ctx_shift_idx(69, 2)[i] < 16,
{
}

proof fn lemma_ctx_table_shape_70()
    ensures
        spec_ctx_init_values(70, 0).len() == spec_ctx_init_values(70, 0).len(),
        spec_ctx_shift_idx(70, 0).len() == spec_ctx_init_values(70, 0).len(),
        forall|i: int| 0 <= i < spec_ctx_init_values(70, 0).len() ==> #[trigger] spec_ctx_init_values(70, 0)[i] < 64,
        forall|i: int| 0 <= i < spec_ctx_shift_idx(70, 0).len() ==> #[trigger] spec_ctx_shift_idx(70, 0)[i] < 16,
        spec_ctx_init_values(70, 1).len() == spec_ctx_init_values(70, 0).len(),
        spec_ctx_shift_idx(70, 1).len() == spec_ctx_init_values(70, 0).len(),
        forall|i: int| 0 <= i < spec_ctx_init_values(70, 1).len() ==> #[trigger] spec_ctx_init_values(70, 1)[i] < 64,
        forall|i: int| 0 <= i < spec_ctx_shift_idx(70, 1).len() ==> #[trigger] spec_ctx_shift_idx(70, 1)[i] < 16,
        spec_ctx_init_values(70, 2).len() == spec_ctx_init_values(70, 0).len(),
        spec_ctx_shift_idx(70, 2).len() == spec_ctx_init_values(70, 0).len(),
        forall|i: int| 0 <= i < spec_ctx_init_values(70, 2).len() ==> #[trigger] spec_ctx_init_values(70, 2)[i] < 64,
        forall|i: int| 0 <= i < spec_ctx_shift_idx(70, 2).len() ==> #[trigger] spec_ctx_shift_idx(70, 2)[i] < 16,
{
}

proof fn lemma_ctx_table_shape_71()
    ensures
        spec_ctx_init_values(71, 0).len() == spec_ctx_init_values(71, 0).len(),
        spec_ctx_shift_idx(71, 0).len() == spec_ctx_init_values(71, 0).len(),
        forall|i: int| 0 <= i < spec_ctx_init_values(71, 0).len() ==> #[trigger] spec_ctx_init_values(71, 0)[i] < 64,
        forall|i: int| 0 <= i < spec_ctx_shift_idx(71, 0).len() ==> #[trigger] spec_ctx_shift_idx(71, 0)[i] < 16,
        spec_ctx_init_values(71, 1).len() == spec_ctx_init_values(71, 0).len(),
        spec_ctx_shift_idx(71, 1).len() == spec_ctx_init_values(71, 0).len(),
        forall|i: int| 0 <= i < spec_ctx_init_values(71, 1).len() ==> #[trigger] spec_ctx_init_values(71, 1)[i] < 64,
        forall|i: int| 0 <= i < spec_ctx_shift_idx(71, 1).len() ==> #[trigger] spec_ctx_shift_idx(71, 1)[i] < 16,
        spec_ctx_init_values(71, 2).len() == spec_ctx_init_values(71, 0).len(),
        spec_ctx_shift_idx(71, 2).len() == spec_ctx_init_values(71, 0).len(),
        forall|i: int| 0 <= i < spec_ctx_init_values(71, 2).len() ==> #[trigger] spec_ctx_init_values(71, 2)[i] < 64,
        forall|i: int| 0 <= i < spec_ctx_shift_idx(71, 2).len() ==> #[trigger] spec_ctx_shift_idx(71, 2)[i] < 16,
{
}

proof fn lemma_ctx_table_shape_72()
    ensures
        spec_ctx_init_values(72, 0).len() == spec_ctx_init_values(72, 0).len(),
        spec_ctx_shift_idx(72, 0).len() == spec_ctx_init_values(72, 0).len(),
        forall|i: int| 0 <= i < spec_ctx_init_values(72, 0).len() ==> #[trigger] spec_ctx_init_values(72, 0)[i] < 64,
        forall|i: int| 0 <= i < spec_ctx_shift_idx(72, 0).len() ==> #[trigger] spec_ctx_shift_idx(72, 0)[i] < 16,
        spec_ctx_init_values(72, 1).len() == spec_ctx_init_values(72, 0).len(),
        spec_ctx_shift_idx(72, 1).len() == spec_ctx_init_values(72, 0).len(),
        forall|i: int| 0 <= i < spec_ctx_init_values(72, 1).len() ==> #[trigger] spec_ctx_init_values(72, 1)[i] < 64,
        forall|i: int| 0 <= i < spec_ctx_shift_idx(72, 1).len() ==> #[trigger] spec_ctx_shift_idx(72, 1)[i] < 16,
        spec_ctx_init_values(72, 2).len() == spec_ctx_init_values(72, 0).len(),
        spec_ctx_shift_idx(72, 2).len() == spec_ctx_init_values(72, 0).len(),
        forall|i: int| 0 <= i < spec_ctx_init_values(72, 2).len() ==> #[trigger] spec_ctx_init_values(72, 2)[i] < 64,
        forall|i: int| 0 <= i < spec_ctx_shift_idx(72, 2).len() ==> #[trigger] spec_ctx_shift_idx(72, 2)[i] < 16,
{
}

proof fn lemma_ctx_table_shape_73()
    ensures
        spec_ctx_init_values(73, 0).len() == spec_ctx_init_values(73, 0).len(),
        spec_ctx_shift_idx(73, 0).len() == spec_ctx_init_values(73, 0).len(),
        forall|i: int| 0 <= i < spec_ctx_init_values(73, 0).len() ==> #[trigger] spec_ctx_init_values(73, 0)[i] < 64,
        forall|i: int| 0 <= i < spec_ctx_shift_idx(73, 0).len() ==> #[trigger] spec_ctx_shift_idx(73, 0)[i] < 16,
        spec_ctx_init_values(73, 1).len() == spec_ctx_init_values(73, 0).len(),
        spec_ctx_shift_idx(73, 1).len() == spec_ctx_init_values(73, 0).len(),
        forall|i: int| 0 <= i < spec_ctx_init_values(73, 1).len() ==> #[trigger] spec_ctx_init_values(73, 1)[i] < 64,
        forall|i: int| 0 <= i < spec_ctx_shift_idx(73, 1).len() ==> #[trigger] spec_ctx_shift_idx(73, 1)[i] < 16,
        spec_ctx_init_values(73, 2).len() == spec_ctx_init_values(73, 0).len(),
        spec_ctx_shift_idx(73, 2).len() == spec_ctx_init_values(73, 0).len(),
        forall|i: int| 0 <= i < spec_ctx_init_values(73, 2).len() ==> #[trigger] spec_ctx_init_values(73, 2)[i] < 64,
        forall|i: int| 0 <= i < spec_ctx_shift_idx(73, 2).len() ==> #[trigger] spec_ctx_shift_idx(73, 2)[i] < 16,
{
}

proof fn lemma_ctx_table_shape_74()
    ensures
        spec_ctx_init_values(74, 0).len() == spec_ctx_init_values(74, 0).len(),
        spec_ctx_shift_idx(74, 0).len() == spec_ctx_init_values(74, 0).len(),
        forall|i: int| 0 <= i < spec_ctx_init_values(74, 0).len() ==> #[trigger] spec_ctx_init_values(74, 0)[i] < 64,
        forall|i: int| 0 <= i < spec_ctx_shift_idx(74, 0).len() ==> #[trigger] spec_ctx_shift_idx(74, 0)[i] < 16,
        spec_ctx_init_values(74, 1).len() == spec_ctx_init_values(74, 0).len(),
        spec_ctx_shift_idx(74, 1).len() == spec_ctx_init_values(74, 0).len(),
        forall|i: int| 0 <= i < spec_ctx_init_values(74, 1).len() ==> #[trigger] spec_ctx_init_values(74, 1)[i] < 64,
        forall|i: int| 0 <= i < spec_ctx_shift_idx(74, 1).len() ==> #[trigger] spec_ctx_shift_idx(74, 1)[i] < 16,
        spec_ctx_init_values(74, 2).len() == spec_ctx_init_values(74, 0).len(),
        spec_ctx_shift_idx(74, 2).len() == spec_ctx_init_values(74, 0).len(),
        forall|i: int| 0 <= i < spec_ctx_init_values(74, 2).len() ==> #[trigger] spec_ctx_init_values(74, 2)[i] < 64,
        forall|i: int| 0 <= i < spec_ctx_shift_idx(74, 2).len() ==> #[trigger] spec_ctx_shift_idx(74, 2)[i] < 16,
{
}

proof fn lemma_ctx_table_shape_76()
    ensures
        spec_ctx_init_values(76, 0).len() == spec_ctx_init_values(76, 0).len(),
        spec_ctx_shift_idx(76, 0).len() == spec_ctx_init_values(76, 0).len(),
        forall|i: int| 0 <= i < spec_ctx_init_values(76, 0).len() ==> #[trigger] spec_ctx_init_values(76, 0)[i] < 64,
        forall|i: int| 0 <= i < spec_ctx_shift_idx(76, 0).len() ==> #[trigger] spec_ctx_shift_idx(76, 0)[i] < 16,
        spec_ctx_init_values(76, 1).len() == spec_ctx_init_values(76, 0).len(),
        spec_ctx_shift_idx(76, 1).len() == spec_ctx_init_values(76, 0).len(),
        forall|i: int| 0 <= i < spec_ctx_init_values(76, 1).len() ==> #[trigger] spec_ctx_init_values(76, 1)[i] < 64,
        forall|i: int| 0 <= i < spec_ctx_shift_idx(76, 1).len() ==> #[trigger] spec_ctx_shift_idx(76, 1)[i] < 16,
        spec_ctx_init_values(76, 2).len() == spec_ctx_init_values(76, 0).len(),
        spec_ctx_shift_idx(76, 2).len() == spec_ctx_init_values(76, 0).len(),
        forall|i: int| 0 <= i < spec_ctx_init_values(76, 2).len() ==> #[trigger] spec_ctx_init_values(76, 2)[i] < 64,
        forall|i: int| 0 <= i < spec_ctx_shift_idx(76, 2).len() ==> #[trigger] spec_ctx_shift_idx(76, 2)[i] < 16,
{
}

proof fn lemma_ctx_table_shape_77()
    ensures
        spec_ctx_init_values(77, 0).len() == spec_ctx_init_values(77, 0).len(),
        spec_ctx_shift_idx(77, 0).len() == spec_ctx_init_values(77, 0).len(),
        forall|i: int| 0 <= i < spec_ctx_init_values(77, 0).len() ==> #[trigger] spec_ctx_init_values(77, 0)[i] < 64,
        forall|i: int| 0 <= i < spec_ctx_shift_idx(77, 0).len() ==> #[trigger] spec_ctx_shift_idx(77, 0)[i] < 16,
        spec_ctx_init_values(77, 1).len() == spec_ctx_init_values(77, 0).len(),
        spec_ctx_shift_idx(77, 1).len() == spec_ctx_init_values(77, 0).len(),
        forall|i: int| 0 <= i < spec_ctx_init_values(77, 1).len() ==> #[trigger] spec_ctx_init_values(77, 1)[i] < 64,
        forall|i: int| 0 <= i < spec_ctx_shift_idx(77, 1).len() ==> #[trigger] spec_ctx_shift_idx(77, 1)[i] < 16,
        spec_ctx_init_values(77, 2).len() == spec_ctx_init_values(77, 0).len(),
        spec_ctx_shift_idx(77, 2).len() == spec_ctx_init_values(77, 0).len(),
        forall|i: int| 0 <= i < spec_ctx_init_values(77, 2).len() ==> #[trigger] spec_ctx_init_values(77, 2)[i] < 64,
        forall|i: int| 0 <= i < spec_ctx_shift_idx(77, 2).len() ==> #[trigger] spec_ctx_shift_idx(77, 2)[i] < 16,
{
}

proof fn lemma_ctx_table_shape_78()
    ensures
        spec_ctx_init_values(78, 0).len() == spec_ctx_init_values(78, 0).len(),
        spec_ctx_shift_idx(78, 0).len() == spec_ctx_init_values(78, 0).len(),
        forall|i: int| 0 <= i < spec_ctx_init_values(78, 0).len() ==> #[trigger] spec_ctx_init_values(78, 0)[i] < 64,
        forall|i: int| 0 <= i < spec_ctx_shift_idx(78, 0).len() ==> #[trigger] spec_ctx_shift_idx(78, 0)[i] < 16,
        spec_ctx_init_values(78, 1).len() == spec_ctx_init_values(78, 0).len(),
        spec_ctx_shift_idx(78, 1).len() == spec_ctx_init_values(78, 0).len(),
        forall|i: int| 0 <= i < spec_ctx_init_values(78, 1).len() ==> #[trigger] spec_ctx_init_values(78, 1)[i] < 64,
        forall|i: int| 0 <= i < spec_ctx_shift_idx(78, 1).len() ==> #[trigger] spec_ctx_shift_idx(78, 1)[i] < 16,
        spec_ctx_init_values(78, 2).len() == spec_ctx_init_values(78, 0).len(),
        spec_ctx_shift_idx(78, 2).len() == spec_ctx_init_values(78, 0).len(),
        forall|i: int| 0 <= i < spec_ctx_init_values(78, 2).len() ==> #[trigger] spec_ctx_init_values(78, 2)[i] < 64,
        forall|i: int| 0 <= i < spec_ctx_shift_idx(78, 2).len() ==> #[trigger] spec_ctx_shift_idx(78, 2)[i] < 16,
{
}

proof fn lemma_ctx_table_shape_79()
    ensures
        spec_ctx_init_values(79, 0).len() == spec_ctx_init_values(79, 0).len(),
        spec_ctx_shift_idx(79, 0).len() == spec_ctx_init_values(79, 0).len(),
        forall|i: int| 0 <= i < spec_ctx_init_values(79, 0).len() ==> #[trigger] spec_ctx_init_values(79, 0)[i] < 64,
        forall|i: int| 0 <= i < spec_ctx_shift_idx(79, 0).len() ==> #[trigger] spec_ctx_shift_idx(79, 0)[i] < 16,
        spec_ctx_init_values(79, 1).len() == spec_ctx_init_values(79, 0).len(),
        spec_ctx_shift_idx(79, 1).len() == spec_ctx_init_values(79, 0).len(),
        forall|i: int| 0 <= i < spec_ctx_init_values(79, 1).len() ==> #[trigger] spec_ctx_init_values(79, 1)[i] < 64,
        forall|i: int| 0 <= i < spec_ctx_shift_idx(79, 1).len() ==> #[trigger] spec_ctx_shift_idx(79, 1)[i] < 16,
        spec_ctx_init_values(79, 2).len() == spec_ctx_init_values(79, 0).len(),
        spec_ctx_shift_idx(79, 2).len() == spec_ctx_init_values(79, 0).len(),
        forall|i: int| 0 <= i < spec_ctx_init_values(79, 2).len() ==> #[trigger] spec_ctx_init_values(79, 2)[i] < 64,
        forall|i: int| 0 <= i < spec_ctx_shift_idx(79, 2).len() ==> #[trigger] spec_ctx_shift_idx(79, 2)[i] < 16,
{
}

proof fn lemma_ctx_table_shape_81()
    ensures
        spec_ctx_init_values(81, 0).len() == spec_ctx_init_values(81, 0).len(),
        spec_ctx_shift_idx(81, 0).len() == spec_ctx_init_values(81, 0).len(),
        forall|i: int| 0 <= i < spec_ctx_init_values(81, 0).len() ==> #[trigger] spec_ctx_init_values(81, 0)[i] < 64,
        forall|i: int| 0 <= i < spec_ctx_shift_idx(81, 0).len() ==> #[trigger] spec_ctx_shift_idx(81, 0)[i] < 16,
        spec_ctx_init_values(81, 1).len() == spec_ctx_init_values(81, 0).len(),
        spec_ctx_shift_idx(81, 1).len() == spec_ctx_init_values(81, 0).len(),
        forall|i: int| 0 <= i < spec_ctx_init_values(81, 1).len() ==> #[trigger] spec_ctx_init_values(81, 1)[i] < 64,
        forall|i: int| 0 <= i < spec_ctx_shift_idx(81, 1).len() ==> #[trigger] spec_ctx_shift_idx(81, 1)[i] < 16,
        spec_ctx_init_values(81, 2).len() == spec_ctx_init_values(81, 0).len(),
        spec_ctx_shift_idx(81, 2).len() == spec_ctx_init_values(81, 0).len(),
        forall|i: int| 0 <= i < spec_ctx_init_values(81, 2).len() ==> #[trigger] spec_ctx_init_values(81, 2)[i] < 64,
        forall|i: int| 0 <= i < spec_ctx_shift_idx(81, 2).len() ==> #[trigger] spec_ctx_shift_idx(81, 2)[i] < 16,
{
}

proof fn lemma_ctx_table_shape_82()
    ensures
        spec_ctx_init_values(82, 0).len() == spec_ctx_init_values(82, 0).len(),
        spec_ctx_shift_idx(82, 0).len() == spec_ctx_init_values(82, 0).len(),
        forall|i: int| 0 <= i < spec_ctx_init_values(82, 0).len() ==> #[trigger] spec_ctx_init_values(82, 0)[i] < 64,
        forall|i: int| 0 <= i < spec_ctx_shift_idx(82, 0).len() ==> #[trigger] spec_ctx_shift_idx(82, 0)[i] < 16,
        spec_ctx_init_values(82, 1).len() == spec_ctx_init_values(82, 0).len(),
        spec_ctx_shift_idx(82, 1).len() == spec_ctx_init_values(82, 0).len(),
        forall|i: int| 0 <= i < spec_ctx_init_values(82, 1).len() ==> #[trigger] spec_ctx_init_values(82, 1)[i] < 64,
        forall|i: int| 0 <= i < spec_ctx_shift_idx(82, 1).len() ==> #[trigger] spec_ctx_shift_idx(82, 1)[i] < 16,
        spec_ctx_init_values(82, 2).len() == spec_ctx_init_values(82, 0).len(),
        spec_ctx_shift_idx(82, 2).len() == spec_ctx_init_values(82, 0).len(),
        forall|i: int| 0 <= i < spec_ctx_init_values(82, 2).len() ==> #[trigger] spec_ctx_init_values(82, 2)[i] < 64,
        forall|i: int| 0 <= i < spec_ctx_shift_idx(82, 2).len() ==> #[trigger] spec_ctx_shift_idx(82, 2)[i] < 16,
{
}

proof fn lemma_ctx_table_shape_83()
    ensures
        spec_ctx_init_values(83, 0).len() == spec_ctx_init_values(83, 0).len(),
        spec_ctx_shift_idx(83, 0).len() == spec_ctx_init_values(83, 0).len(),
        forall|i: int| 0 <= i < spec_ctx_init_values(83, 0).len() ==> #[trigger] spec_ctx_init_values(83, 0)[i] < 64,
        forall|i: int| 0 <= i < spec_ctx_shift_idx(83, 0).len() ==> #[trigger] spec_ctx_shift_idx(83, 0)[i] < 16,
        spec_ctx_init_values(83, 1).len() == spec_ctx_init_values(83, 0).len(),
        spec_ctx_shift_idx(83, 1).len() == spec_ctx_init_values(83, 0).len(),
        forall|i: int| 0 <= i < spec_ctx_init_values(83, 1).len() ==> #[trigger] spec_ctx_init_values(83, 1)[i] < 64,
        forall|i: int| 0 <= i < spec_ctx_shift_idx(83, 1).len() ==> #[trigger] spec_ctx_shift_idx(83, 1)[i] < 16,
        spec_ctx_init_values(83, 2).len() == spec_ctx_init_values(83, 0).len(),
        spec_ctx_shift_idx(83, 2).len() == spec_ctx_init_values(83, 0).len(),
        forall|i: int| 0 <= i < spec_ctx_init_values(83, 2).len() ==> #[trigger] spec_ctx_init_values(83, 2)[i] < 64,
        forall|i: int| 0 <= i < spec_ctx_shift_idx(83, 2).len() ==> #[trigger] spec_ctx_shift_idx(83, 2)[i] < 16,
{
}

proof fn lemma_ctx_table_shape_84()
    ensures
        spec_ctx_init_values(84, 0).len() == spec_ctx_init_values(84, 0).len(),
        spec_ctx_shift_idx(84, 0).len() == spec_ctx_init_values(84, 0).len(),
        forall|i: int| 0 <= i < spec_ctx_init_values(84, 0).len() ==> #[trigger] spec_ctx_init_values(84, 0)[i] < 64,
        forall|i: int| 0 <= i < spec_ctx_shift_idx(84, 0).len() ==> #[trigger] spec_ctx_shift_idx(84, 0)[i] < 16,
        spec_ctx_init_values(84, 1).len() == spec_ctx_init_values(84, 0).len(),
        spec_ctx_shift_idx(84, 1).len() == spec_ctx_init_values(84, 0).len(),
        forall|i: int| 0 <= i < spec_ctx_init_values(84, 1).len() ==> #[trigger] spec_ctx_init_values(84, 1)[i] < 64,
        forall|i: int| 0 <= i < spec_ctx_shift_idx(84, 1).len() ==> #[trigger] spec_ctx_shift_idx(84, 1)[i] < 16,
        spec_ctx_init_values(84, 2).len() == spec_ctx_init_values(84, 0).len(),
        spec_ctx_shift_idx(84, 2).len() == spec_ctx_init_values(84, 0).len(),
        forall|i: int| 0 <= i < spec_ctx_init_values(84, 2).len() ==> #[trigger] spec_ctx_init_values(84, 2)[i] < 64,
        forall|i: int| 0 <= i < spec_ctx_shift_idx(84, 2).len() ==> #[trigger] spec_ctx_shift_idx(84, 2)[i] < 16,
{
}

proof fn lemma_ctx_table_shape_87()
    ensures
        spec_ctx_init_values(87, 0).len() == spec_ctx_init_values(87, 0).len(),
        spec_ctx_shift_idx(87, 0).len() == spec_ctx_init_values(87, 0).len(),
        forall|i: int| 0 <= i < spec_ctx_init_values(87, 0).len() ==> #[trigger] spec_ctx_init_values(87, 0)[i] < 64,
        forall|i: int| 0 <= i < spec_ctx_shift_idx(87, 0).len() ==> #[trigger] spec_ctx_shift_idx(87, 0)[i] < 16,
        spec_ctx_init_values(87, 1).len() == spec_ctx_init_values(87, 0).len(),
        spec_ctx_shift_idx(87, 1).len() == spec_ctx_init_values(87, 0).len(),
        forall|i: int| 0 <= i < spec_ctx_init_values(87, 1).len() ==> #[trigger] spec_ctx_init_values(87, 1)[i] < 64,
        forall|i: int| 0 <= i < spec_ctx_shift_idx(87, 1).len() ==> #[trigger] spec_ctx_shift_idx(87, 1)[i] < 16,
        spec_ctx_init_values(87, 2).len() == spec_ctx_init_values(87, 0).len(),
        spec_ctx_shift_idx(87, 2).len() == spec_ctx_init_values(87, 0).len(),
        forall|i: int| 0 <= i < spec_ctx_init_values(87, 2).len() ==> #[trigger] spec_ctx_init_values(87, 2)[i] < 64,
        forall|i: int| 0 <= i < spec_ctx_shift_idx(87, 2).len() ==> #[trigger] spec_ctx_shift_idx(87, 2)[i] < 16,
{
}

proof fn lemma_ctx_table_shape_88()
    ensures
        spec_ctx_init_values(88, 0).len() == spec_ctx_init_values(88, 0).len(),
        spec_ctx_shift_idx(88, 0).len() == spec_ctx_init_values(88, 0).len(),
        forall|i: int| 0 <= i < spec_ctx_init_values(88, 0).len() ==> #[trigger] spec_ctx_init_values(88, 0)[i] < 64,
        forall|i: int| 0 <= i < spec_ctx_shift_idx(88, 0).len() ==> #[trigger] spec_ctx_shift_idx(88, 0)[i] < 16,
        spec_ctx_init_values(88, 1).len() == spec_ctx_init_values(88, 0).len(),
        spec_ctx_shift_idx(88, 1).len() == spec_ctx_init_values(88, 0).len(),
        forall|i: int| 0 <= i < spec_ctx_init_values(88, 1).len() ==> #[trigger] spec_ctx_init_values(88, 1)[i] < 64,
        forall|i: int| 0 <= i < spec_ctx_shift_idx(88, 1).len() ==> #[trigger] spec_ctx_shift_idx(88, 1)[i] < 16,
        spec_ctx_init_values(88, 2).len() == spec_ctx_init_values(88, 0).len(),
        spec_ctx_shift_idx(88, 2).len() == spec_ctx_init_values(88, 0).len(),
        forall|i: int| 0 <= i < spec_ctx_init_values(88, 2).len() ==> #[trigger] spec_ctx_init_values(88, 2)[i] < 64,
        forall|i: int| 0 <= i < spec_ctx_shift_idx(88, 2).len() ==> #[trigger] spec_ctx_shift_idx(88, 2)[i] < 16,
{
}

proof fn lemma_ctx_table_shape_89()
    ensures
        spec_ctx_init_values(89, 0).len() == spec_ctx_init_values(89, 0).len(),
        spec_ctx_shift_idx(89, 0).len() == spec_ctx_init_values(89, 0).len(),
        forall|i: int| 0 <= i < spec_ctx_init_values(89, 0).len() ==> #[trigger] spec_ctx_init_values(89, 0)[i] < 64,
        forall|i: int| 0 <= i < spec_ctx_shift_idx(89, 0).len() ==> #[trigger] spec_ctx_shift_idx(89, 0)[i] < 16,
        spec_ctx_init_values(89, 1).len() == spec_ctx_init_values(89, 0).len(),
        spec_ctx_shift_idx(89, 1).len() == spec_ctx_init_values(89, 0).len(),
        forall|i: int| 0 <= i < spec_ctx_init_values(89, 1).len() ==> #[trigger] spec_ctx_init_values(89, 1)[i] < 64,
        forall|i: int| 0 <= i < spec_ctx_shift_idx(89, 1).len() ==> #[trigger] spec_ctx_shift_idx(89, 1)[i] < 16,
        spec_ctx_init_values(89, 2).len() == spec_ctx_init_values(89, 0).len(),
        spec_ctx_shift_idx(89, 2).len() == spec_ctx_init_values(89, 0).len(),
        forall|i: int| 0 <= i < spec_ctx_init_values(89, 2).len() ==> #[trigger] spec_ctx_init_values(89, 2)[i] < 64,
        forall|i: int| 0 <= i < spec_ctx_shift_idx(89, 2).len() ==> #[trigger] spec_ctx_shift_idx(89, 2)[i] < 16,
{
}

proof fn lemma_ctx_table_shape_90()
    ensures
        spec_ctx_init_values(90, 0).len() == spec_ctx_init_values(90, 0).len(),
        spec_ctx_shift_idx(90, 0).len() == spec_ctx_init_values(90, 0).len(),
        forall|i: int| 0 <= i < spec_ctx_init_values(90, 0).len() ==> #[trigger] spec_ctx_init_values(90, 0)[i] < 64,
        forall|i: int| 0 <= i < spec_ctx_shift_idx(90, 0).len() ==> #[trigger] spec_ctx_shift_idx(90, 0)[i] < 16,
        spec_ctx_init_values(90, 1).len() == spec_ctx_init_values(90, 0).len(),
        spec_ctx_shift_idx(90, 1).len() == spec_ctx_init_values(90, 0).len(),
        forall|i: int| 0 <= i < spec_ctx_init_values(90, 1).len() ==> #[trigger] spec_ctx_init_values(90, 1)[i] < 64,
        forall|i: int| 0 <= i < spec_ctx_shift_idx(90, 1).len() ==> #[trigger] spec_ctx_shift_idx(90, 1)[i] < 16,
        spec_ctx_init_values(90, 2).len() == spec_ctx_init_values(90, 0).len(),
        spec_ctx_shift_idx(90, 2).len() == spec_ctx_init_values(90, 0).len(),
        forall|i: int| 0 <= i < spec_ctx_init_values(90, 2).len() ==> #[trigger] spec_ctx_init_values(90, 2)[i] < 64,
        forall|i: int| 0 <= i < spec_ctx_shift_idx(90, 2).len() ==> #[trigger] spec_ctx_shift_idx(90, 2)[i] < 16,
{
}

proof fn lemma_ctx_table_shape_92()
    ensures
        spec_ctx_init_values(92, 0).len() == spec_ctx_init_values(92, 0).len(),
        spec_ctx_shift_idx(92, 0).len() == spec_ctx_init_values(92, 0).len(),
        forall|i: int| 0 <= i < spec_ctx_init_values(92, 0).len() ==> #[trigger] spec_ctx_init_values(92, 0)[i] < 64,
        forall|i: int| 0 <= i < spec_ctx_shift_idx(92, 0).len() ==> #[trigger] spec_ctx_shift_idx(92, 0)[i] < 16,
        spec_ctx_init_values(92, 1).len() == spec_ctx_init_values(92, 0).len(),
        spec_ctx_shift_idx(92, 1).len() == spec_ctx_init_values(92, 0).len(),
        forall|i: int| 0 <= i < spec_ctx_init_values(92, 1).len() ==> #[trigger] spec_ctx_init_values(92, 1)[i] < 64,
        forall|i: int| 0 <= i < spec_ctx_shift_idx(92, 1).len() ==> #[trigger] spec_ctx_shift_idx(92, 1)[i] < 16,
        spec_ctx_init_values(92, 2).len() == spec_ctx_init_values(92, 0).len(),
        spec_ctx_shift_idx(92, 2).len() == spec_ctx_init_values(92, 0).len(),
        forall|i: int| 0 <= i < spec_ctx_init_values(92, 2).len() ==> #[trigger] spec_ctx_init_values(92, 2)[i] < 64,
        forall|i: int| 0 <= i < spec_ctx_shift_idx(92, 2).len() ==> #[trigger] spec_ctx_shift_idx(92, 2)[i] < 16,
{
}

proof fn lemma_ctx_table_shape_93()
    ensures
        spec_ctx_init_values(93, 0).len() == spec_ctx_init_values(93, 0).len(),
        spec_ctx_shift_idx(93, 0).len() == spec_ctx_init_values(93, 0).len(),
        forall|i: int| 0 <= i < spec_ctx_init_values(93, 0).len() ==> #[trigger] spec_ctx_init_values(93, 0)[i] < 64,
        forall|i: int| 0 <= i < spec_ctx_shift_idx(93, 0).len() ==> #[trigger] spec_ctx_shift_idx(93, 0)[i] < 16,
        spec_ctx_init_values(93, 1).len() == spec_ctx_init_values(93, 0).len(),
        spec_ctx_shift_idx(93, 1).len() == spec_ctx_init_values(93, 0).len(),
        forall|i: int| 0 <= i < spec_ctx_init_values(93, 1).len() ==> #[trigger] spec_ctx_init_values(93, 1)[i] < 64,
        forall|i: int| 0 <= i < spec_ctx_shift_idx(93, 1).len() ==> #[trigger] spec_ctx_shift_idx(93, 1)[i] < 16,
        spec_ctx_init_values(93, 2).len() == spec_ctx_init_values(93, 0).len(),
        spec_ctx_shift_idx(93, 2).len() == spec_ctx_init_values(93, 0).len(),
        forall|i: int| 0 <= i < spec_ctx_init_values(93, 2).len() ==> #[trigger] spec_ctx_init_values(93, 2)[i] < 64,
        forall|i: int| 0 <= i < spec_ctx_shift_idx(93, 2).len() ==> #[trigger] spec_ctx_shift_idx(93, 2)[i] < 16,
{
}

proof fn lemma_ctx_table_shape_94()
    ensures
        spec_ctx_init_values(94, 0).len() == spec_ctx_init_values(94, 0).len(),
        spec_ctx_shift_idx(94, 0).len() == spec_ctx_init_values(94, 0).len(),
        forall|i: int| 0 <= i < spec_ctx_init_values(94, 0).len() ==> #[trigger] spec_ctx_init_values(94, 0)[i] < 64,
        forall|i: int| 0 <= i < spec_ctx_shift_idx(94, 0).len() ==> #[trigger] spec_ctx_shift_idx(94, 0)[i] < 16,
        spec_ctx_init_values(94, 1).len() == spec_ctx_init_values(94, 0).len(),
        spec_ctx_shift_idx(94, 1).len() == spec_ctx_init_values(94, 0).len(),
        forall|i: int| 0 <= i < spec_ctx_init_values(94, 1).len() ==> #[trigger] spec_ctx_init_values(94, 1)[i] < 64,
        forall|i: int| 0 <= i < spec_ctx_shift_idx(94, 1).len() ==> #[trigger] spec_ctx_shift_idx(94, 1)[i] < 16,
        spec_ctx_init_values(94, 2).len() == spec_ctx_init_values(94, 0).len(),
        spec_ctx_shift_idx(94, 2).len() == spec_ctx_init_values(94, 0).len(),
        forall|i: int| 0 <= i < spec_ctx_init_values(94, 2).len() ==> #[trigger] spec_ctx_init_values(94, 2)[i] < 64,
        forall|i: int| 0 <= i < spec_ctx_shift_idx(94, 2).len() ==> #[trigger] spec_ctx_shift_idx(94, 2)[i] < 16,
{
}

proof fn lemma_ctx_table_shape_95()
    ensures
        spec_ctx_init_values(95, 0).len() == spec_ctx_init_values(95, 0).len(),
        spec_ctx_shift_idx(95, 0).len() == spec_ctx_init_values(95, 0).len(),
        forall|i: int| 0 <= i < spec_ctx_init_values(95, 0).len() ==> #[trigger] spec_ctx_init_values(95, 0)[i] < 64,
        forall|i: int| 0 <= i < spec_ctx_shift_idx(95, 0).len() ==> #[trigger] spec_ctx_shift_idx(95, 0)[i] < 16,
        spec_ctx_init_values(95, 1).len() == spec_ctx_init_values(95, 0).len(),
        spec_ctx_shift_idx(95, 1).len() == spec_ctx_init_values(95, 0).len(),
        forall|i: int| 0 <= i < spec_ctx_init_values(95, 1).len() ==> #[trigger] spec_ctx_init_values(95, 1)[i] < 64,
        forall|i: int| 0 <= i < spec_ctx_shift_idx(95, 1).len() ==> #[trigger] spec_ctx_shift_idx(95, 1)[i] < 16,
        spec_ctx_init_values(95, 2).len() == spec_ctx_init_values(95, 0).len(),
        spec_ctx_shift_idx(95, 2).len() == spec_ctx_init_values(95, 0).len(),
        forall|i: int| 0 <= i < spec_ctx_init_values(95, 2).len() ==> #[trigger] spec_ctx_init_values(95, 2)[i] < 64,
        forall|i: int| 0 <= i < spec_ctx_shift_idx(95, 2).len() ==> #[trigger] spec_ctx_shift_idx(95, 2)[i] < 16,
{
}

proof fn lemma_ctx_table_shape_96()
    ensures
        spec_ctx_init_values(96, 0).len() == spec_ctx_init_values(96, 0).len(),
        spec_ctx_shift_idx(96, 0).len() == spec_ctx_init_values(96, 0).len(),
        forall|i: int| 0 <= i < spec_ctx_init_values(96, 0).len() ==> #[trigger] spec_ctx_init_values(96, 0)[i] < 64,
        forall|i: int| 0 <= i < spec_ctx_shift_idx(96, 0).len() ==> #[trigger] spec_ctx_shift_idx(96, 0)[i] < 16,
        spec_ctx_init_values(96, 1).len() == spec_ctx_init_values(96, 0).len(),
        spec_ctx_shift_idx(96, 1).len() == spec_ctx_init_values(96, 0).len(),
        forall|i: int| 0 <= i < spec_ctx_init_values(96, 1).len() ==> #[trigger] spec_ctx_init_values(96, 1)[i] < 64,
        forall|i: int| 0 <= i < spec_ctx_shift_idx(96, 1).len() ==> #[trigger] spec_ctx_shift_idx(96, 1)[i] < 16,
        spec_ctx_init_values(96, 2).len() == spec_ctx_init_values(96, 0).len(),
        spec_ctx_shift_idx(96, 2).len() == spec_ctx_init_values(96, 0).len(),
        forall|i: int| 0 <= i < spec_ctx_init_values(96, 2).len() ==> #[trigger] spec_ctx_init_values(96, 2)[i] < 64,
        forall|i: int| 0 <= i < spec_ctx_shift_idx(96, 2).len() ==> #[trigger] spec_ctx_shift_idx(96, 2)[i] < 16,
{
}

proof fn lemma_ctx_table_shape_97()
    ensures
        spec_ctx_init_values(97, 0).len() == spec_ctx_init_values(97, 0).len(),
        spec_ctx_shift_idx(97, 0).len() == spec_ctx_init_values(97, 0).len(),
        forall|i: int| 0 <= i < spec_ctx_init_values(97, 0).len() ==> #[trigger] spec_ctx_init_values(97, 0)[i] < 64,
        forall|i: int| 0 <= i < spec_ctx_shift_idx(97, 0).len() ==> #[trigger] spec_ctx_shift_idx(97, 0)[i] < 16,
        spec_ctx_init_values(97, 1).len() == spec_ctx_init_values(97, 0).len(),
        spec_ctx_shift_idx(97, 1).len() == spec_ctx_init_values(97, 0).len(),
        forall|i: int| 0 <= i < spec_ctx_init_values(97, 1).len() ==> #[trigger] spec_ctx_init_values(97, 1)[i] < 64,
        forall|i: int| 0 <= i < spec_ctx_shift_idx(97, 1).len() ==> #[trigger] spec_ctx_shift_idx(97, 1)[i] < 16,
        spec_ctx_init_values(97, 2).len() == spec_ctx_init_values(97, 0).len(),
        spec_ctx_shift_idx(97, 2).len() == spec_ctx_init_values(97, 0).len(),
        forall|i: int| 0 <= i < spec_ctx_init_values(97, 2).len() ==> #[trigger] spec_ctx_init_values(97, 2)[i] < 64,
        forall|i: int| 0 <= i < spec_ctx_shift_idx(97, 2).len() ==> #[trigger] spec_ctx_shift_idx(97, 2)[i] < 16,
{
}

proof fn lemma_ctx_table_shape_100()
    ensures
        spec_ctx_init_values(100, 0).len() == spec_ctx_init_values(100, 0).len(),
        spec_ctx_shift_idx(100, 0).len() == spec_ctx_init_values(100, 0).len(),
        forall|i: int| 0 <= i < spec_ctx_init_values(100, 0).len() ==> #[trigger] spec_ctx_init_values(100, 0)[i] < 64,
        forall|i: int| 0 <= i < spec_ctx_shift_idx(100, 0).len() ==> #[trigger] spec_ctx_shift_idx(100, 0)[i] < 16,
        spec_ctx_init_values(100, 1).len() == spec_ctx_init_values(100, 0).len(),
        spec_ctx_shift_idx(100, 1).len() == spec_ctx_init_values(100, 0).len(),
        forall|i: int| 0 <= i < spec_ctx_init_values(100, 1).len() ==> #[trigger] spec_ctx_init_values(100, 1)[i] < 64,
        forall|i: int| 0 <= i < spec_ctx_shift_idx(100, 1).len() ==> #[trigger] spec_ctx_shift_idx(100, 1)[i] < 16,
        spec_ctx_init_values(100, 2).len() == spec_ctx_init_values(100, 0).len(),
        spec_ctx_shift_idx(100, 2).len() == spec_ctx_init_values(100, 0).len(),
        forall|i: int| 0 <= i < spec_ctx_init_values(100, 2).len() ==> #[trigger] spec_ctx_init_values(100, 2)[i] < 64,
        forall|i: int| 0 <= i < spec_ctx_shift_idx(100, 2).len() ==> #[trigger] spec_ctx_shift_idx(100, 2)[i] < 16,
{
}

proof fn lemma_ctx_table_shape_101()
    ensures
        spec_ctx_init_values(101, 0).len() == spec_ctx_init_values(101, 0).len(),
        spec_ctx_shift_idx(101, 0).len() == spec_ctx_init_values(101, 0).len(),
        forall|i: int| 0 <= i < spec_ctx_init_values(101, 0).len() ==> #[trigger] spec_ctx_init_values(101, 0)[i] < 64,
        forall|i: int| 0 <= i < spec_ctx_shift_idx(101, 0).len() ==> #[trigger] spec_ctx_shift_idx(101, 0)[i] < 16,
        spec_ctx_init_values(101, 1).len() == spec_ctx_init_values(101, 0).len(),
        spec_ctx_shift_idx(101, 1).len() == spec_ctx_init_values(101, 0).len(),
        forall|i: int| 0 <= i < spec_ctx_init_values(101, 1).len() ==> #[trigger] spec_ctx_init_values(101, 1)[i] < 64,
        forall|i: int| 0 <= i < spec_ctx_shift_idx(101, 1).len() ==> #[trigger] spec_ctx_shift_idx(101, 1)[i] < 16,
        spec_ctx_init_values(101, 2).len() == spec_ctx_init_values(101, 0).len(),
        spec_ctx_shift_idx(101, 2).len() == spec_ctx_init_values(101, 0).len(),
        forall|i: int| 0 <= i < spec_ctx_init_values(101, 2).len() ==> #[trigger] spec_ctx_init_values(101, 2)[i] < 64,
        forall|i: int| 0 <= i < spec_ctx_shift_idx(101, 2).len() ==> #[trigger] spec_ctx_shift_idx(101, 2)[i] < 16,
{
}

proof fn lemma_ctx_table_shape_102()
    ensures
        spec_ctx_init_values(102, 0).len() == spec_ctx_init_values(102, 0).len(),
        spec_ctx_shift_idx(102, 0).len() == spec_ctx_init_values(102, 0).len(),
        forall|i: int| 0 <= i < spec_ctx_init_values(102, 0).len() ==> #[trigger] spec_ctx_init_values(102, 0)[i] < 64,
        forall|i: int| 0 <= i < spec_ctx_shift_idx(102, 0).len() ==> #[trigger] spec_ctx_shift_idx(102, 0)[i] < 16,
        spec_ctx_init_values(102, 1).len() == spec_ctx_init_values(102, 0).len(),
        spec_ctx_shift_idx(102, 1).len() == spec_ctx_init_values(102, 0).len(),
        forall|i: int| 0 <= i < spec_ctx_init_values(102, 1).len() ==> #[trigger] spec_ctx_init_values(102, 1)[i] < 64,
        forall|i: int| 0 <= i < spec_ctx_shift_idx(102, 1).len() ==> #[trigger] spec_ctx_shift_idx(102, 1)[i] < 16,
        spec_ctx_init_values(102, 2).len() == spec_ctx_init_values(102, 0).len(),
        spec_ctx_shift_idx(102, 2).len() == spec_ctx_init_values(102, 0).len(),
        forall|i: int| 0 <= i < spec_ctx_init_values(102, 2).len() ==> #[trigger] spec_ctx_init_values(102, 2)[i] < 64,
        forall|i: int| 0 <= i < spec_ctx_shift_idx(102, 2).len() ==> #[trigger] spec_ctx_shift_idx(102, 2)[i] < 16,
{
}

proof fn lemma_ctx_table_shape_103()
    ensures
        spec_ctx_init_values(103, 0).len() == spec_ctx_init_values(103, 0).len(),
        spec_ctx_shift_idx(103, 0).len() == spec_ctx_init_values(103, 0).len(),
        forall|i: int| 0 <= i < spec_ctx_init_values(103, 0).len() ==> #[trigger] spec_ctx_init_values(103, 0)[i] < 64,
        forall|i: int| 0 <= i < spec_ctx_shift_idx(103, 0).len() ==> #[trigger] spec_ctx_shift_idx(103, 0)[i] < 16,
        spec_ctx_init_values(103, 1).len() == spec_ctx_init_values(103, 0).len(),
        spec_ctx_shift_idx(103, 1).len() == spec_ctx_init_values(103, 0).len(),
        forall|i: int| 0 <= i < spec_ctx_init_values(103, 1).len() ==> #[trigger] spec_ctx_init_values(103, 1)[i] < 64,
        forall|i: int| 0 <= i < spec_ctx_shift_idx(103, 1).len() ==> #[trigger] spec_ctx_shift_idx(103, 1)[i] < 16,
        spec_ctx_init_values(103, 2).len() == spec_ctx_init_values(103, 0).len(),
        spec_ctx_shift_idx(103, 2).len() == spec_ctx_init_values(103, 0).len(),
        forall|i: int| 0 <= i < spec_ctx_init_values(103, 2).len() ==> #[trigger] spec_ctx_init_values(103, 2)[i] < 64,
        forall|i: int| 0 <= i < spec_ctx_shift_idx(103, 2).len() ==> #[trigger] spec_ctx_shift_idx(103, 2)[i] < 16,
{
}

proof fn lemma_ctx_table_shape_106()
    ensures
        spec_ctx_init_values(106, 0).len() == spec_ctx_init_values(106, 0).len(),
        spec_ctx_shift_idx(106, 0).len() == spec_ctx_init_values(106, 0).len(),
        forall|i: int| 0 <= i < spec_ctx_init_values(106, 0).len() ==> #[trigger] spec_ctx_init_values(106, 0)[i] < 64,
        forall|i: int| 0 <= i < spec_ctx_shift_idx(106, 0).len() ==> #[trigger] spec_ctx_shift_idx(106, 0)[i] < 16,
        spec_ctx_init_values(106, 1).len() == spec_ctx_init_values(106, 0).len(),
        spec_ctx_shift_idx(106, 1).len() == spec_ctx_init_values(106, 0).len(),
        forall|i: int| 0 <= i < spec_ctx_init_values(106, 1).len() ==> #[trigger] spec_ctx_init_values(106, 1)[i] < 64,
        forall|i: int| 0 <= i < spec_ctx_shift_idx(106, 1).len() ==> #[trigger] spec_ctx_shift_idx(106, 1)[i] < 16,
        spec_ctx_init_values(106, 2).len() == spec_ctx_init_values(106, 0).len(),
        spec_ctx_shift_idx(106, 2).len() == spec_ctx_init_values(106, 0).len(),
        forall|i: int| 0 <= i < spec_ctx_init_values(106, 2).len() ==> #[trigger] spec_ctx_init_values(106, 2)[i] < 64,
        forall|i: int| 0 <= i < spec_ctx_shift_idx(106, 2).len() ==> #[trigger] spec_ctx_shift_idx(106, 2)[i] < 16,
{
}

/// Every table has the same length for each initialization type and for both
/// kinds of values, and its values are in range.
pub proof fn lemma_ctx_tables_shape(ctx: usize, init_type: usize)
    requires
        init_type < 3,
    ensures
        spec_ctx_init_values(ctx, init_type).len() == spec_ctx_init_values(ctx, 0).len(),
        spec_ctx_shift_idx(ctx, init_type).len() == spec_ctx_init_values(ctx, 0).len(),
        forall|i: int|
            0 <= i < spec_ctx_init_values(ctx, init_type).len() ==> #[trigger] spec_ctx_init_values(
                ctx,
                init_type,
            )[i] < 64,
        forall|i: int|
            0 <= i < spec_ctx_shift_idx(ctx, init_type).len() ==> #[trigger] spec_ctx_shift_idx(
                ctx,
                init_type,
            )[i] < 16,
{
    match ctx {
        0 => lemma_ctx_table_shape_0(),
        1 => lemma_ctx_table_shape_1(),
        2 => lemma_ctx_table_shape_2(),
        3 => lemma_ctx_table_shape_3(),
        6 => lemma_ctx_table_shape_6(),
        7 => lemma_ctx_table_shape_7(),
        8 => lemma_ctx_table_shape_8(),
        9 => lemma_ctx_table_shape_9(),
        10 => lemma_ctx_table_shape_10(),
        16 => lemma_ctx_table_shape_16(),
        17 => lemma_ctx_table_shape_17(),
        18 => lemma_ctx_table_shape_18(),
        19 => lemma_ctx_table_shape_19(),
        20 => lemma_ctx_table_shape_20(),
        21 => lemma_ctx_table_shape_21(),
        22 => lemma_ctx_table_shape_22(),
        23 => lemma_ctx_table_shape_23(),
        24 => lemma_ctx_table_shape_24(),
        25 => lemma_ctx_table_shape_25(),
        26 => lemma_ctx_table_shape_26(),
        27 => lemma_ctx_table_shape_27(),
        28 => lemma_ctx_table_shape_28(),
        31 => lemma_ctx_table_shape_31(),
        32 => lemma_ctx_table_shape_32(),
        33 => lemma_ctx_table_shape_33(),
        34 => lemma_ctx_table_shape_34(),
        35 => lemma_ctx_table_shape_35(),
        38 => lemma_ctx_table_shape_38(),
        39 => lemma_ctx_table_shape_39(),
        40 => lemma_ctx_table_shape_40(),
        41 => lemma_ctx_table_shape_41(),
        42 => lemma_ctx_table_shape_42(),
        49 => lemma_ctx_table_shape_49(),
        50 => lemma_ctx_table_shape_50(),
        51 => lemma_ctx_table_shape_51(),
        52 => lemma_ctx_table_shape_52(),
        53 => lemma_ctx_table_shape_53(),
        54 => lemma_ctx_table_shape_54(),
        55 => lemma_ctx_table_shape_55(),
        56 => lemma_ctx_table_shape_56(),
        57 => lemma_ctx_table_shape_57(),
        58 => lemma_ctx_table_shape_58(),
        59 => lemma_ctx_table_shape_59(),
        60 => lemma_ctx_table_shape_60(),
        61 => lemma_ctx_table_shape_61(),
        62 => lemma_ctx_table_shape_62(),
        63 => lemma_ctx_table_shape_63(),
        64 => lemma_ctx_table_shape_64(),
        65 => lemma_ctx_table_shape_65(),
        66 => lemma_ctx_table_shape_66(),
        67 => lemma_ctx_table_shape_67(),
        68 => lemma_ctx_table_shape_68(),
        69 => lemma_ctx_table_shape_69(),
        70 => lemma_ctx_table_shape_70(),
        71 => lemma_ctx_table_shape_71(),
        72 => lemma_ctx_table_shape_72(),
        73 => lemma_ctx_table_shape_73(),
        74 => lemma_ctx_table_shape_74(),
        76 => lemma_ctx_table_shape_76(),
        77 => lemma_ctx_table_shape_77(),
        78 => lemma_ctx_table_shape_78(),
        79 => lemma_ctx_table_shape_79(),
        81 => lemma_ctx_table_shape_81(),
        82 => lemma_ctx_table_shape_82(),
        83 => lemma_ctx_table_shape_83(),
        84 => lemma_ctx_table_shape_84(),
        87 => lemma_ctx_table_shape_87(),
        88 => lemma_ctx_table_shape_88(),
        89 => lemma_ctx_table_shape_89(),
        90 => lemma_ctx_table_shape_90(),
        92 => lemma_ctx_table_shape_92(),
        93 => lemma_ctx_table_shape_93(),
        94 => lemma_ctx_table_shape_94(),
        95 => lemma_ctx_table_shape_95(),
        96 => lemma_ctx_table_shape_96(),
        97 => lemma_ctx_table_shape_97(),
        100 => lemma_ctx_table_shape_100(),
        101 => lemma_ctx_table_shape_101(),
        102 => lemma_ctx_table_shape_102(),
        103 => lemma_ctx_table_shape_103(),
        106 => lemma_ctx_table_shape_106(),
        _ => {},
    }
}

} // verus!
