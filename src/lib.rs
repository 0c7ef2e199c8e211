//! Scans the transactions of a block for OP_RETURN outputs, decodes their
//! payloads and folds them into block-wide statistics.

mod height;
mod pager;
mod payload;
mod stats;
mod text;

pub use height::{parse_height, parse_tip_height, resolve_target_height, PipelineError};
pub use pager::{is_end_body, PageOutcome, Pager, PAGE_SIZE};
pub use payload::{extract_op_return_data, is_marker_script};
pub use stats::{aggregate, Stats, Transaction, TxOut};
pub use text::{char_is_space, chars_of, has_prefix};
