//! Verified core of a solo proof-of-work mining client: compact-target
//! decoding, block-header encoding, merkle-root folding, job decoding from
//! pool notifications, the handshake with the pool, the nonce search and the
//! shared block-height state.

pub mod digest;
pub mod error;
pub mod header;
pub mod hexcode;
pub mod job;
pub mod json;
pub mod merkle;
pub mod search;
pub mod session;
pub mod state;
pub mod target;

pub use digest::double_sha256;
pub use error::MinerError;
pub use header::{create_block_header, encode_header};
pub use hexcode::reverse_hex_bytes;
pub use job::{MiningJob, Subscription, decode_job, decode_notify, parse_height, parse_subscription};
pub use json::JsonValue;
pub use merkle::{build_merkle_root, decode_branch};
pub use search::{
    HeaderTemplate, MineAction, SearchOutcome, after_batch, before_batch, nonce_digits, prepare_job,
    search_nonces,
};
pub use session::{
    Request, SessionAction, SessionEvent, SessionState, find_first, new_extranonce2, nonce_hex,
    request_line, request_value, restart_pause_ms, session_step, submit_request,
};
pub use state::{MiningConfig, TelegramConfig, validate_bitcoin_address};
pub use target::{calculate_target, hash_meets_target, target_from_compact};
