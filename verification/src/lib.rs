//! A VVC (H.266) video encoder core: bitstream accumulation, binarization,
//! the CABAC arithmetic coding engine and the syntax structures they serve.
use vstd::prelude::*;

pub mod aps;
pub mod binary_writer;
pub mod bins;
pub mod bits;
pub mod bool_coder;
pub mod cabac_contexts;
pub mod common;
pub mod dpb;
pub mod gci;
pub mod ctu;
pub mod aps_encoder;
pub mod gci_encoder;
pub mod dpbp_encoder;
pub mod ctx_inc;
pub mod level_coding;
pub mod intra_predictor;
pub mod block_splitter;
pub mod availability;
pub mod tiles;
pub mod syntax_coding;
pub mod element_coding;
pub mod encoder_context;
pub mod split_rules;
pub mod neighbour_ctx;
pub mod tree_coding;
pub mod unit_queries;
pub mod ref_samples;
pub mod angular;
pub mod pdpc;
pub mod prediction;
pub mod ctu_encoder;
pub mod cu_syntax;
pub mod coeff_scan;
pub mod tu_syntax;
pub mod tree_split;
