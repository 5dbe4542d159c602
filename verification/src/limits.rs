//! The bridge's fixed bounds and intervals.

use vstd::prelude::*;

verus! {

/// Replay log capacity.
pub const NOTIFICATION_REPLAY_BUFFER_SIZE: usize = 2_000;

/// Largest limit a replay query may ask for.
pub const NOTIFICATION_REPLAY_MAX_LIMIT: usize = 1_000;

/// Replay limit used when the query names none.
pub const NOTIFICATION_REPLAY_DEFAULT_LIMIT: usize = 200;

/// Capacity of each client's outbound queue.
pub const WS_CLIENT_QUEUE_CAPACITY: usize = 256;

/// How long a unicast send may wait for queue space.
pub const UNICAST_SEND_WAIT_MS: u64 = 250;

/// Largest attachment accepted, in bytes.
pub const MAX_ATTACHMENT_BYTES: usize = 20 * 1024 * 1024;

/// Default cap on a voice-transcription payload, in bytes.
pub const DEFAULT_MAX_VOICE_TRANSCRIPTION_BYTES: usize = 100 * 1024 * 1024;

/// Smallest audio payload worth transcribing, in bytes.
pub const MIN_VOICE_TRANSCRIPTION_BYTES: usize = 16_000;

/// Rollout tailer poll interval, in milliseconds.
pub const ROLLOUT_LIVE_SYNC_POLL_INTERVAL_MS: u64 = 900;

/// Discovery runs every this many poll ticks.
pub const ROLLOUT_LIVE_SYNC_DISCOVERY_INTERVAL_TICKS: u64 = 1;

/// Most files tracked at once.
pub const ROLLOUT_LIVE_SYNC_MAX_TRACKED_FILES: usize = 64;

/// How long a vanished file stays tracked, in milliseconds.
pub const ROLLOUT_LIVE_SYNC_MAX_FILE_AGE_MS: u64 = 1000 * 60 * 60 * 24 * 2;

/// How far from the end a newly discovered file is first read.
pub const ROLLOUT_LIVE_SYNC_INITIAL_TAIL_BYTES: u64 = 64 * 1024;

/// Recent-line hashes remembered per tracked file.
pub const ROLLOUT_LIVE_SYNC_DEDUP_CAPACITY: usize = 8_192;

/// Subprocess handshake timeout, in seconds.
pub const INITIALIZE_TIMEOUT_SECS: u64 = 15;

/// Bounds on a terminal command's timeout, in milliseconds.
pub const TERMINAL_TIMEOUT_MIN_MS: u64 = 100;

pub const TERMINAL_TIMEOUT_MAX_MS: u64 = 120_000;

pub const TERMINAL_TIMEOUT_DEFAULT_MS: u64 = 30_000;

} // verus!
