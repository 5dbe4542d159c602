//! The rollout tailer's per-file state.
//!
//! The agent appends JSON records line by line to journal files; the tailer
//! follows each file with a byte offset and a partial-line buffer, detects
//! truncation, deduplicates recently seen lines over a bounded window, and
//! projects the records it understands into notifications.

use vstd::prelude::*;
use crate::json::JsonValue;
use crate::json::SpecJson;
use crate::text::SepClass;
use crate::text::spec_split_sep;
use crate::text::strings_view;

verus! {

broadcast use vstd::std_specs::vec::group_vec_axioms;

/// FNV-1a, folded over the characters of a line from the left.
pub open spec fn spec_fnv1a(s: Seq<char>) -> u64
    decreases s.len(),
{
    if s.len() == 0 {
        0xcbf29ce484222325u64
    } else {
        vstd::wrapping::u64_specs::wrapping_mul(
            spec_fnv1a(s.drop_last()) ^ (s.last() as u64),
            0x100000001b3u64,
        )
    }
}

/// The 64-bit line hash the dedup window remembers.
#[verifier::loop_isolation(false)]
pub fn hash_rollout_line(line: &str) -> (h: u64)
    ensures
        h == spec_fnv1a(line@),
{
    let chars = crate::text::str_to_chars(line);
    let mut h: u64 = 0xcbf29ce484222325;
    let mut i: usize = 0;
    while i < chars.len()
        invariant
            0 <= i <= chars@.len(),
            chars@ == line@,
            h == spec_fnv1a(chars@.take(i as int)),
        decreases chars@.len() - i,
    {
        proof {
            assert(chars@.take(i + 1).drop_last() =~= chars@.take(i as int));
            assert(chars@.take(i + 1).last() == chars@[i as int]);
        }
        h = (h ^ (chars[i] as u64)).wrapping_mul(0x100000001b3);
        i += 1;
    }
    proof {
        assert(chars@.take(chars@.len() as int) =~= chars@);
    }
    h
}

/// A rollout file's name: `rollout-*.jsonl`.
pub fn is_rollout_file_path(name: &str) -> (r: bool)
    ensures
        r == (crate::text::spec_starts_with(name@, "rollout-"@) && crate::text::spec_ends_with(
            name@,
            ".jsonl"@,
        )),
{
    crate::text::starts_with(name, "rollout-") && crate::text::ends_with(name, ".jsonl")
}

/// Discovery runs on every tick when the interval is one (or zero), else
/// on the first tick and every multiple of the interval.
pub fn should_run_rollout_discovery_tick(tick: u64, interval_ticks: u64) -> (r: bool)
    ensures
        r == if interval_ticks <= 1 {
            true
        } else {
            tick == 1 || tick % interval_ticks == 0
        },
{
    if interval_ticks <= 1 {
        return true;
    }
    tick == 1 || tick % interval_ticks == 0
}

/// A file is synced live when its originator contains "codex" or
/// "clawdex" (case-insensitively), or is absent.
pub open spec fn spec_originator_allowed(originator: Option<Seq<char>>) -> bool {
    match originator {
        Some(value) => {
            let lower = crate::text::spec_to_lower(value);
            crate::text::spec_contains_sub(lower, "codex"@) || crate::text::spec_contains_sub(
                lower,
                "clawdex"@,
            )
        },
        None => true,
    }
}

/// Checks a journal's originator against the live-sync filter.
pub fn rollout_originator_allowed(originator: Option<&str>) -> (r: bool)
    ensures
        r == spec_originator_allowed(
            match originator {
                Some(s) => Some(s@),
                None => None,
            },
        ),
{
    match originator {
        Some(value) => {
            let lower = crate::text::to_lower_str(value);
            crate::text::contains_sub(lower.as_str(), "codex") || crate::text::contains_sub(
                lower.as_str(),
                "clawdex",
            )
        },
        None => true,
    }
}

/// The tailer's per-file state; the surrounding process owns the path,
/// the open file and the last-seen clock.
pub struct RolloutTrackedFile {
    /// The last byte consumed.
    pub offset: u64,
    /// Bytes after the last newline, waiting for the rest of their line.
    pub partial_line: String,
    /// True while the first (mid-stream) partial line is still to be
    /// discarded.
    pub drop_first_partial_line: bool,
    pub thread_id: Option<String>,
    pub originator: Option<String>,
    pub include_for_live_sync: bool,
    /// Recently seen line hashes, oldest first, at most the dedup window.
    pub recent_line_hashes: Vec<u64>,
}

/// What a poll should do after looking at the file's current length.
#[derive(Debug, PartialEq)]
pub enum PollAction {
    /// Nothing new.
    Skip,
    /// Read from this offset to the end.
    ReadFrom(u64),
}

impl RolloutTrackedFile {
    /// The state for a newly discovered file: the tail starts at most the
    /// initial window before the end, and a mid-stream start discards its
    /// first partial line.
    pub fn start(len: u64, meta: Option<(String, Option<String>)>) -> (r: RolloutTrackedFile)
        ensures
            r.offset == if len > crate::limits::ROLLOUT_LIVE_SYNC_INITIAL_TAIL_BYTES {
                len - crate::limits::ROLLOUT_LIVE_SYNC_INITIAL_TAIL_BYTES
            } else {
                0
            },
            r.partial_line@ == Seq::<char>::empty(),
            r.drop_first_partial_line == (r.offset > 0),
            r.recent_line_hashes@ == Seq::<u64>::empty(),
            match meta {
                Some((tid, orig)) => r.thread_id matches Some(t) && t@ == tid@
                    && crate::approval::opt_str_view(r.originator) == crate::approval::opt_str_view(
                    orig,
                ) && r.include_for_live_sync == spec_originator_allowed(
                    crate::approval::opt_str_view(orig),
                ),
                None => r.thread_id is None && r.originator is None && !r.include_for_live_sync,
            },
    {
        let offset = if len > crate::limits::ROLLOUT_LIVE_SYNC_INITIAL_TAIL_BYTES {
            len - crate::limits::ROLLOUT_LIVE_SYNC_INITIAL_TAIL_BYTES
        } else {
            0
        };
        let (thread_id, originator, live_sync) = match meta {
            Some((tid, orig)) => {
                let allowed = rollout_originator_allowed(match &orig {
                    Some(o) => Some(o.as_str()),
                    None => None,
                });
                (Some(tid), orig, allowed)
            },
            None => (None, None, false),
        };
        RolloutTrackedFile {
            offset,
            partial_line: String::new(),
            drop_first_partial_line: offset > 0,
            thread_id,
            originator,
            include_for_live_sync: live_sync,
            recent_line_hashes: Vec::new(),
        }
    }

    /// Truncation detection: a file now shorter than the stored offset was
    /// rewritten, so the offset, the partial line and the dedup window are
    /// reset together; then nothing is read when the length equals the
    /// offset, else the gap is read.
    pub fn begin_poll(&mut self, len: u64) -> (r: PollAction)
        ensures
            ({
                let truncated = len < old(self).offset;
                &&& final(self).offset == if truncated {
                    0u64
                } else {
                    old(self).offset
                }
                &&& final(self).partial_line@ == if truncated {
                    Seq::<char>::empty()
                } else {
                    old(self).partial_line@
                }
                &&& final(self).drop_first_partial_line == if truncated {
                    false
                } else {
                    old(self).drop_first_partial_line
                }
                &&& final(self).recent_line_hashes@ == if truncated {
                    Seq::<u64>::empty()
                } else {
                    old(self).recent_line_hashes@
                }
                &&& final(self).thread_id == old(self).thread_id
                &&& final(self).originator == old(self).originator
                &&& final(self).include_for_live_sync == old(self).include_for_live_sync
                &&& r == if len == final(self).offset {
                    PollAction::Skip
                } else {
                    PollAction::ReadFrom(final(self).offset)
                }
            }),
    {
        if len < self.offset {
            self.offset = 0;
            self.partial_line = String::new();
            self.drop_first_partial_line = false;
            self.recent_line_hashes = Vec::new();
            proof {
                assert(self.recent_line_hashes@ =~= Seq::<u64>::empty());
            }
        }
        if len == self.offset {
            PollAction::Skip
        } else {
            PollAction::ReadFrom(self.offset)
        }
    }

    /// Consumes freshly read text: the buffered partial line is prepended;
    /// while the initial mid-stream fragment is still pending, everything
    /// up to the first newline is discarded (or buffered whole when no
    /// newline arrived yet); the rest splits into complete lines, with a
    /// final unterminated fragment buffered for the next read.
    pub fn consume_chunk(&mut self, chunk: &str, new_offset: u64) -> (lines: Vec<String>)
        ensures
            final(self).offset == new_offset,
            final(self).thread_id == old(self).thread_id,
            final(self).originator == old(self).originator,
            final(self).include_for_live_sync == old(self).include_for_live_sync,
            final(self).recent_line_hashes == old(self).recent_line_hashes,
            ({
                let combined = old(self).partial_line@ + chunk@;
                if old(self).drop_first_partial_line {
                    match crate::text::spec_find_sub(combined, "\n"@) {
                        Some(i) => {
                            let kept = combined.skip(i + 1);
                            let pieces = spec_split_sep(SepClass::Newline, kept);
                            &&& !final(self).drop_first_partial_line
                            &&& strings_view(lines@) == pieces.drop_last()
                            &&& final(self).partial_line@ == pieces.last()
                        },
                        None => {
                            &&& final(self).drop_first_partial_line
                            &&& lines@.len() == 0
                            &&& final(self).partial_line@ == combined
                        },
                    }
                } else {
                    let pieces = spec_split_sep(SepClass::Newline, combined);
                    &&& final(self).drop_first_partial_line == old(
                        self,
                    ).drop_first_partial_line
                    &&& strings_view(lines@) == pieces.drop_last()
                    &&& final(self).partial_line@ == pieces.last()
                }
            }),
    {
        self.offset = new_offset;
        let combined = crate::text::concat_str(self.partial_line.as_str(), chunk);
        self.partial_line = String::new();
        let ghost combined_view = combined@;
        let working: String;
        if self.drop_first_partial_line {
            match crate::text::find_sub(combined.as_str(), "\n") {
                Some(i) => {
                    proof {
                        crate::text::lemma_find_sub(combined@, "\n"@);
                        reveal_strlit("\n");
                        assert("\n"@.len() == 1);
                        assert(i + 1 <= combined@.len());
                    }
                    working = crate::text::skip_chars(combined.as_str(), i + 1);
                    self.drop_first_partial_line = false;
                },
                None => {
                    self.partial_line = combined;
                    return Vec::new();
                },
            }
        } else {
            working = combined;
        }
        let mut pieces = crate::text::split_str(working.as_str(), &SepClass::Newline);
        let ghost pieces_view = strings_view(pieces@);
        proof {
            lemma_split_nonempty(SepClass::Newline, working@);
        }
        let last = match pieces.pop() {
            Some(last) => last,
            None => String::new(),
        };
        self.partial_line = last;
        proof {
            assert(strings_view(pieces@) =~= pieces_view.drop_last());
        }
        pieces
    }
}

/// A split always yields at least one piece.
proof fn lemma_split_nonempty(class: SepClass, s: Seq<char>)
    ensures
        spec_split_sep(class, s).len() >= 1,
{
}

/// The dedup window: a line hash seen recently is reported as known; a
/// fresh one is remembered, evicting the oldest hash beyond the window,
/// so that within the window the same line is surfaced at most once.
#[verifier::loop_isolation(false)]
impl RolloutTrackedFile {
    pub fn remember_line_hash(&mut self, line_hash: u64) -> (fresh: bool)
        requires
            old(self).recent_line_hashes@.len()
                <= crate::limits::ROLLOUT_LIVE_SYNC_DEDUP_CAPACITY,
        ensures
            final(self).recent_line_hashes@.len()
                <= crate::limits::ROLLOUT_LIVE_SYNC_DEDUP_CAPACITY,
            final(self).offset == old(self).offset,
            final(self).partial_line == old(self).partial_line,
            final(self).drop_first_partial_line == old(self).drop_first_partial_line,
            final(self).thread_id == old(self).thread_id,
            final(self).originator == old(self).originator,
            final(self).include_for_live_sync == old(self).include_for_live_sync,
            fresh == !old(self).recent_line_hashes@.contains(line_hash),
            final(self).recent_line_hashes@.contains(line_hash),
            !fresh ==> final(self).recent_line_hashes@ == old(self).recent_line_hashes@,
            fresh ==> final(self).recent_line_hashes@ == if old(self).recent_line_hashes@.len() + 1
                > crate::limits::ROLLOUT_LIVE_SYNC_DEDUP_CAPACITY {
                old(self).recent_line_hashes@.push(line_hash).drop_first()
            } else {
                old(self).recent_line_hashes@.push(line_hash)
            },
    {
        let mut i: usize = 0;
        while i < self.recent_line_hashes.len()
            invariant
                0 <= i <= self.recent_line_hashes@.len(),
                forall|j: int| 0 <= j < i ==> self.recent_line_hashes@[j] != line_hash,
            decreases self.recent_line_hashes@.len() - i,
        {
            if self.recent_line_hashes[i] == line_hash {
                proof {
                    assert(self.recent_line_hashes@.contains(line_hash));
                }
                return false;
            }
            i += 1;
        }
        proof {
            if old(self).recent_line_hashes@.contains(line_hash) {
                let w = choose|w: int|
                    0 <= w < old(self).recent_line_hashes@.len() && old(
                        self,
                    ).recent_line_hashes@[w] == line_hash;
                assert(old(self).recent_line_hashes@[w] != line_hash);
            }
        }
        let ghost before = self.recent_line_hashes@;
        self.recent_line_hashes.push(line_hash);
        if self.recent_line_hashes.len() > crate::limits::ROLLOUT_LIVE_SYNC_DEDUP_CAPACITY {
            self.recent_line_hashes.remove(0);
            proof {
                assert(self.recent_line_hashes@ =~= before.push(line_hash).drop_first());
                assert(self.recent_line_hashes@[self.recent_line_hashes@.len() - 1] == line_hash);
            }
        } else {
            proof {
                assert(self.recent_line_hashes@[self.recent_line_hashes@.len() - 1] == line_hash);
            }
        }
        true
    }
}

/// Index of the first field with the key.
pub open spec fn spec_fields_index(fields: Seq<(Seq<char>, SpecJson)>, key: Seq<char>) -> Option<
    int,
>
    decreases fields.len(),
{
    if fields.len() == 0 {
        None
    } else if fields[0].0 == key {
        Some(0int)
    } else {
        match spec_fields_index(fields.drop_first(), key) {
            Some(i) => Some(i + 1),
            None => None,
        }
    }
}

/// Characterization of `spec_fields_index`.
pub proof fn lemma_fields_index(fields: Seq<(Seq<char>, SpecJson)>, key: Seq<char>)
    ensures
        match spec_fields_index(fields, key) {
            Some(i) => 0 <= i < fields.len() && fields[i].0 == key && (forall|j: int|
                0 <= j < i ==> fields[j].0 != key),
            None => forall|j: int| 0 <= j < fields.len() ==> fields[j].0 != key,
        },
    decreases fields.len(),
{
    if fields.len() > 0 && fields[0].0 != key {
        lemma_fields_index(fields.drop_first(), key);
        let rest = fields.drop_first();
        match spec_fields_index(rest, key) {
            Some(i) => {
                assert(fields[i + 1] == rest[i]);
                assert forall|j: int| 0 <= j < i + 1 implies fields[j].0 != key by {
                    if j > 0 {
                        assert(rest[j - 1].0 != key);
                    }
                }
            },
            None => {
                assert forall|j: int| 0 <= j < fields.len() implies fields[j].0 != key by {
                    if j > 0 {
                        assert(rest[j - 1].0 != key);
                    }
                }
            },
        }
    }
}

/// Overwrites the first field with the key, or appends the field.
pub open spec fn spec_insert_field(
    fields: Seq<(Seq<char>, SpecJson)>,
    key: Seq<char>,
    value: SpecJson,
) -> Seq<(Seq<char>, SpecJson)> {
    match spec_fields_index(fields, key) {
        Some(i) => fields.update(i, (key, value)),
        None => fields.push((key, value)),
    }
}

/// Appends the field only when the key is absent.
pub open spec fn spec_entry_or_insert(
    fields: Seq<(Seq<char>, SpecJson)>,
    key: Seq<char>,
    value: SpecJson,
) -> Seq<(Seq<char>, SpecJson)> {
    match spec_fields_index(fields, key) {
        Some(_) => fields,
        None => fields.push((key, value)),
    }
}

/// Finds a field index.
#[verifier::loop_isolation(false)]
fn fields_index(fields: &Vec<(String, JsonValue)>, key: &str) -> (r: Option<usize>)
    ensures
        match r {
            Some(i) => i < fields@.len() && spec_fields_index(
                crate::json::json_fields_view(fields@),
                key@,
            ) == Some(i as int),
            None => spec_fields_index(crate::json::json_fields_view(fields@), key@) is None,
        },
{
    proof {
        crate::json::lemma_json_fields_view(fields@);
        lemma_fields_index(crate::json::json_fields_view(fields@), key@);
    }
    let ghost view = crate::json::json_fields_view(fields@);
    let mut i: usize = 0;
    while i < fields.len()
        invariant
            0 <= i <= fields@.len(),
            forall|j: int| 0 <= j < i ==> view[j].0 != key@,
        decreases fields@.len() - i,
    {
        if crate::json::str_eq(fields[i].0.as_str(), key) {
            proof {
                match spec_fields_index(view, key@) {
                    Some(k) => {
                        if k < i {
                            assert(view[k].0 == key@);
                        }
                        if k > i {
                            assert(view[i as int].0 != key@);
                        }
                    },
                    None => {
                        assert(view[i as int].0 != key@);
                    },
                }
            }
            return Some(i);
        }
        i += 1;
    }
    proof {
        match spec_fields_index(view, key@) {
            Some(k) => {
                assert(view[k].0 != key@);
            },
            None => {},
        }
    }
    None
}

/// Overwrites or appends a field.
#[verifier::loop_isolation(false)]
fn insert_field(fields: &mut Vec<(String, JsonValue)>, key: &str, value: JsonValue)
    ensures
        crate::json::json_fields_view(final(fields)@) == spec_insert_field(
            crate::json::json_fields_view(old(fields)@),
            key@,
            value@,
        ),
{
    proof {
        crate::json::lemma_json_fields_view(fields@);
    }
    let ghost before = crate::json::json_fields_view(fields@);
    match fields_index(fields, key) {
        Some(i) => {
            let owned_key = key.to_owned();
            let ghost prev = fields@;
            fields.set(i, (owned_key, value));
            proof {
                crate::json::lemma_json_fields_view(fields@);
                assert(crate::json::json_fields_view(fields@) =~= before.update(
                    i as int,
                    (key@, value@),
                ));
            }
        },
        None => {
            let owned_key = key.to_owned();
            let ghost prev = fields@;
            fields.push((owned_key, value));
            proof {
                crate::json::lemma_json_fields_view(fields@);
                assert(crate::json::json_fields_view(fields@) =~= before.push((key@, value@)));
            }
        },
    }
}

/// Appends a field only when the key is absent.
fn entry_or_insert(fields: &mut Vec<(String, JsonValue)>, key: &str, value: JsonValue)
    ensures
        crate::json::json_fields_view(final(fields)@) == spec_entry_or_insert(
            crate::json::json_fields_view(old(fields)@),
            key@,
            value@,
        ),
{
    proof {
        crate::json::lemma_json_fields_view(fields@);
    }
    let ghost before = crate::json::json_fields_view(fields@);
    match fields_index(fields, key) {
        Some(_) => {},
        None => {
            let owned_key = key.to_owned();
            fields.push((owned_key, value));
            proof {
                crate::json::lemma_json_fields_view(fields@);
                assert(crate::json::json_fields_view(fields@) =~= before.push((key@, value@)));
            }
        },
    }
}

/// A prefix removed as many times as it leads the string.
pub open spec fn spec_strip_prefix_repeated(s: Seq<char>, p: Seq<char>) -> Seq<char>
    decreases s.len(),
    via spec_strip_prefix_repeated_decreases
{
    if p.len() > 0 && crate::text::spec_starts_with(s, p) {
        spec_strip_prefix_repeated(s.skip(p.len() as int), p)
    } else {
        s
    }
}

#[via_fn]
proof fn spec_strip_prefix_repeated_decreases(s: Seq<char>, p: Seq<char>) {
}

/// Strips every leading repetition of the prefix.
#[verifier::loop_isolation(false)]
pub fn strip_prefix_repeated(s: &str, p: &str) -> (r: String)
    ensures
        r@ == spec_strip_prefix_repeated(s@, p@),
{
    let p_chars = crate::text::str_to_chars(p);
    let pn = p_chars.len();
    let mut cur = s.to_owned();
    if pn == 0 {
        return cur;
    }
    loop
        invariant
            pn == p@.len(),
            pn > 0,
            spec_strip_prefix_repeated(s@, p@) == spec_strip_prefix_repeated(cur@, p@),
        decreases cur@.len(),
    {
        if crate::text::starts_with(cur.as_str(), p) {
            let next = crate::text::skip_chars(cur.as_str(), pn);
            proof {
                assert(spec_strip_prefix_repeated(cur@, p@) == spec_strip_prefix_repeated(
                    cur@.skip(pn as int),
                    p@,
                ));
            }
            cur = next;
        } else {
            return cur;
        }
    }
}

/// Where a record's thread id may hide: its own payload keys in several
/// spellings, the `source` object, its subagent spawn record, and — for
/// session metadata only — the session id itself.
pub open spec fn spec_extract_thread_id(payload: SpecJson, allow_session_id_fallback: bool)
    -> Option<Seq<char>> {
    let source = payload.get("source"@);
    let spawn = match source {
        Some(src) => match src.get("subagent"@) {
            Some(sub) => sub.get("thread_spawn"@),
            None => None,
        },
        None => None,
    };
    spec_or_opt(
        crate::json::spec_read_string(payload.get("thread_id"@)),
        spec_or_opt(
            crate::json::spec_read_string(payload.get("threadId"@)),
            spec_or_opt(
                crate::json::spec_read_string(payload.get("conversation_id"@)),
                spec_or_opt(
                    crate::json::spec_read_string(payload.get("conversationId"@)),
                    spec_or_opt(
                        spec_source_str(source, "thread_id"@),
                        spec_or_opt(
                            spec_source_str(source, "threadId"@),
                            spec_or_opt(
                                spec_source_str(source, "conversation_id"@),
                                spec_or_opt(
                                    spec_source_str(source, "conversationId"@),
                                    spec_or_opt(
                                        spec_source_str(source, "parent_thread_id"@),
                                        spec_or_opt(
                                            spec_source_str(source, "parentThreadId"@),
                                            spec_or_opt(
                                                spec_source_str(spawn, "parent_thread_id"@),
                                                if allow_session_id_fallback {
                                                    crate::json::spec_read_string(
                                                        payload.get("id"@),
                                                    )
                                                } else {
                                                    None
                                                },
                                            ),
                                        ),
                                    ),
                                ),
                            ),
                        ),
                    ),
                ),
            ),
        ),
    )
}

/// The first of two optional strings.
pub open spec fn spec_or_opt(a: Option<Seq<char>>, b: Option<Seq<char>>) -> Option<Seq<char>> {
    match a {
        Some(s) => Some(s),
        None => b,
    }
}

/// A string under a key of an optional object.
pub open spec fn spec_source_str(v: Option<SpecJson>, key: Seq<char>) -> Option<Seq<char>> {
    match v {
        Some(obj) => crate::json::spec_read_string(obj.get(key)),
        None => None,
    }
}

/// Reads a string under a key of an optional object value.
fn source_str(v: Option<&JsonValue>, key: &str) -> (r: Option<String>)
    ensures
        match r {
            Some(s) => spec_source_str(crate::approval::spec_of_opt(v), key@) == Some(s@),
            None => spec_source_str(crate::approval::spec_of_opt(v), key@) is None,
        },
{
    match v {
        Some(obj) => crate::json::read_string(obj.get(key)),
        None => None,
    }
}

/// Finds the thread id a record belongs to.
pub fn extract_rollout_thread_id(payload: &JsonValue, allow_session_id_fallback: bool) -> (r:
    Option<String>)
    ensures
        match r {
            Some(s) => spec_extract_thread_id(payload@, allow_session_id_fallback) == Some(s@),
            None => spec_extract_thread_id(payload@, allow_session_id_fallback) is None,
        },
{
    let source = payload.get("source");
    let spawn = match source {
        Some(src) => match src.get("subagent") {
            Some(sub) => sub.get("thread_spawn"),
            None => None,
        },
        None => None,
    };
    let r = if let Some(s) = crate::json::read_string(payload.get("thread_id")) {
        Some(s)
    } else if let Some(s) = crate::json::read_string(payload.get("threadId")) {
        Some(s)
    } else if let Some(s) = crate::json::read_string(payload.get("conversation_id")) {
        Some(s)
    } else if let Some(s) = crate::json::read_string(payload.get("conversationId")) {
        Some(s)
    } else if let Some(s) = source_str(source, "thread_id") {
        Some(s)
    } else if let Some(s) = source_str(source, "threadId") {
        Some(s)
    } else if let Some(s) = source_str(source, "conversation_id") {
        Some(s)
    } else if let Some(s) = source_str(source, "conversationId") {
        Some(s)
    } else if let Some(s) = source_str(source, "parent_thread_id") {
        Some(s)
    } else if let Some(s) = source_str(source, "parentThreadId") {
        Some(s)
    } else if let Some(s) = source_str(spawn, "parent_thread_id") {
        Some(s)
    } else if allow_session_id_fallback {
        crate::json::read_string(payload.get("id"))
    } else {
        None
    };
    r
}

/// Names what shlex's splitter yields for a command line.
pub uninterp spec fn spec_shlex_split(s: Seq<char>) -> Option<Seq<Seq<char>>>;

/// Relies on `shlex::split`: how a command line divides into words — or
/// fails on unbalanced quoting — depends on the line alone.
#[verifier::external_body]
fn shlex_split(s: &str) -> (r: Option<Vec<String>>)
    ensures
        match r {
            Some(parts) => spec_shlex_split(s@) == Some(strings_view(parts@)),
            None => spec_shlex_split(s@) is None,
        },
{
    shlex::split(s)
}

/// The shell words of a command line, callable from the rest of the
/// crate's verified code.
pub fn shell_split_command(s: &str) -> (r: Option<Vec<String>>)
    ensures
        match r {
            Some(parts) => spec_shlex_split(s@) == Some(strings_view(parts@)),
            None => spec_shlex_split(s@) is None,
        },
{
    shlex_split(s)
}

/// The `mcp__<server>__<tool>` shape: the `mcp__` prefix is stripped as
/// often as it leads; the server is everything up to the next `__`,
/// trimmed and non-empty; the tool is the rest, not all blank.
pub open spec fn spec_parse_mcp_tool_name(name: Seq<char>) -> Option<(Seq<char>, Seq<char>)> {
    if !crate::text::spec_starts_with(name, "mcp__"@) {
        None
    } else {
        let raw = spec_strip_prefix_repeated(name, "mcp__"@);
        match crate::text::spec_find_sub(raw, "__"@) {
            Some(i) => {
                let server = crate::text::spec_trim(raw.take(i));
                let tool = raw.skip(i + 2);
                if server.len() == 0 {
                    None
                } else if crate::text::spec_is_blank(tool) {
                    None
                } else {
                    Some((server, tool))
                }
            },
            None => None,
        }
    }
}

/// Reads an `mcp__<server>__<tool>` function name apart.
pub fn parse_rollout_mcp_tool_name(name: &str) -> (r: Option<(String, String)>)
    ensures
        match r {
            Some(pair) => spec_parse_mcp_tool_name(name@) == Some((pair.0@, pair.1@)),
            None => spec_parse_mcp_tool_name(name@) is None,
        },
{
    if !crate::text::starts_with(name, "mcp__") {
        return None;
    }
    let raw = strip_prefix_repeated(name, "mcp__");
    match crate::text::find_sub(raw.as_str(), "__") {
        Some(i) => {
            proof {
                crate::text::lemma_find_sub(raw@, "__"@);
                reveal_strlit("__");
                assert("__"@.len() == 2);
                assert(i + 2 <= usize::MAX);
                assert(i + 2 <= raw@.len());
            }
            let head = crate::text::take_chars(raw.as_str(), i);
            let server_chars = crate::text::str_to_chars(head.as_str());
            let trimmed = crate::text::trim_chars(&server_chars);
            let server = crate::text::string_from_chars(&trimmed);
            let tool = crate::text::skip_chars(raw.as_str(), i + 2);
            if server.as_str().is_empty() {
                return None;
            }
            if crate::text::is_blank_str(tool.as_str()) {
                return None;
            }
            Some((server, tool))
        },
        None => None,
    }
}

/// The first non-blank `q` among the entries of the `search_query` (or
/// `image_query`) array.
pub open spec fn spec_search_query(arguments: SpecJson) -> Option<Seq<char>> {
    let entries = match arguments.get("search_query"@) {
        Some(SpecJson::Arr(items)) => Some(items),
        _ => match arguments.get("image_query"@) {
            Some(SpecJson::Arr(items)) => Some(items),
            _ => None,
        },
    };
    match entries {
        Some(items) => spec_first_query(items),
        None => None,
    }
}

pub open spec fn spec_first_query(items: Seq<SpecJson>) -> Option<Seq<char>>
    decreases items.len(),
{
    if items.len() == 0 {
        None
    } else {
        match crate::json::spec_read_string(items[0].get("q"@)) {
            Some(q) => if !crate::text::spec_is_blank(q) {
                Some(q)
            } else {
                spec_first_query(items.drop_first())
            },
            None => spec_first_query(items.drop_first()),
        }
    }
}

proof fn lemma_first_query_step(items: Seq<SpecJson>, i: int)
    requires
        0 <= i <= items.len(),
        forall|j: int|
            0 <= j < i ==> match crate::json::spec_read_string(#[trigger] items[j].get("q"@)) {
                Some(q) => crate::text::spec_is_blank(q),
                None => true,
            },
    ensures
        spec_first_query(items) == spec_first_query(items.skip(i)),
    decreases i,
{
    if i > 0 {
        assert(items[0].get("q"@) == items[0].get("q"@));
        lemma_first_query_step(items.drop_first(), i - 1);
        assert(items.drop_first().skip(i - 1) =~= items.skip(i));
    } else {
        assert(items.skip(0) =~= items);
    }
}

/// Finds the first usable search query.
#[verifier::loop_isolation(false)]
pub fn extract_rollout_search_query(arguments: &JsonValue) -> (r: Option<String>)
    ensures
        match r {
            Some(q) => spec_search_query(arguments@) == Some(q@),
            None => spec_search_query(arguments@) is None,
        },
{
    let entries = match arguments.get("search_query") {
        Some(v) => match v.as_arr() {
            Some(items) => Some(items),
            None => match arguments.get("image_query") {
                Some(w) => w.as_arr(),
                None => None,
            },
        },
        None => match arguments.get("image_query") {
            Some(w) => w.as_arr(),
            None => None,
        },
    };
    let items = match entries {
        Some(items) => items,
        None => {
            return None;
        },
    };
    proof {
        crate::json::lemma_json_seq_view(items@);
    }
    let ghost view_items = crate::json::json_seq_view(items@);
    let mut i: usize = 0;
    while i < items.len()
        invariant
            0 <= i <= items@.len(),
            view_items == crate::json::json_seq_view(items@),
            view_items.len() == items@.len(),
            forall|j: int| 0 <= j < items@.len() ==> view_items[j] == items@[j]@,
            forall|j: int|
                0 <= j < i ==> match crate::json::spec_read_string(
                    #[trigger] view_items[j].get("q"@),
                ) {
                    Some(q) => crate::text::spec_is_blank(q),
                    None => true,
                },
        decreases items@.len() - i,
    {
        match crate::json::read_string(items[i].get("q")) {
            Some(q) => {
                if !crate::text::is_blank_str(q.as_str()) {
                    proof {
                        lemma_first_query_step(view_items, i as int);
                        assert(view_items.skip(i as int)[0] == view_items[i as int]);
                    }
                    return Some(q);
                }
            },
            None => {},
        }
        i += 1;
    }
    proof {
        lemma_first_query_step(view_items, items@.len() as int);
        assert(view_items.skip(items@.len() as int).len() == 0);
    }
    None
}

/// What the `arguments` of a recorded function call stand for: a string
/// is parsed as JSON (or `null` when malformed); anything else is taken
/// as is, absent becoming `null`.
pub open spec fn spec_call_arguments(v: Option<SpecJson>) -> SpecJson {
    match v {
        Some(SpecJson::Str(s)) => crate::json::spec_parse_json(s).unwrap_or(SpecJson::Null),
        Some(other) => other,
        None => SpecJson::Null,
    }
}

/// Reads a recorded function call's arguments.
pub fn parse_rollout_function_call_arguments(v: Option<&JsonValue>) -> (r: JsonValue)
    ensures
        r@ == spec_call_arguments(crate::approval::spec_of_opt(v)),
{
    match v {
        Some(JsonValue::Str(s)) => match crate::json::parse_json(s.as_str()) {
            Some(parsed) => parsed,
            None => JsonValue::Null,
        },
        Some(other) => crate::json::clone_json(other),
        None => JsonValue::Null,
    }
}

/// The lifecycle statuses a `codex/event/<type>` may carry.
pub open spec fn spec_lifecycle_status(t: Seq<char>) -> Option<Seq<char>> {
    if t == "task_started"@ || t == "taskstarted"@ {
        Some("running"@)
    } else if t == "task_complete"@ || t == "taskcomplete"@ {
        Some("completed"@)
    } else if t == "task_failed"@ || t == "taskfailed"@ || t == "turn_failed"@ || t
        == "turnfailed"@ {
        Some("failed"@)
    } else if t == "task_interrupted"@ || t == "taskinterrupted"@ || t == "turn_aborted"@ || t
        == "turnaborted"@ {
        Some("interrupted"@)
    } else {
        None
    }
}

/// The `thread/status/changed` companion payload for a task-lifecycle
/// event, if the notification is one.
pub open spec fn spec_thread_status_notification(method: Seq<char>, params: SpecJson) -> Option<
    SpecJson,
> {
    if !crate::text::spec_starts_with(method, "codex/event/"@) {
        None
    } else {
        match spec_lifecycle_status(method.skip(12)) {
            None => None,
            Some(status) => {
                let msg = params.get("msg"@);
                let tid = match spec_source_str(msg, "thread_id"@) {
                    Some(t) => Some(t),
                    None => spec_source_str(msg, "threadId"@),
                };
                match tid {
                    Some(t) => Some(
                        SpecJson::Obj(
                            seq![
                                ("threadId"@, SpecJson::Str(t)),
                                ("thread_id"@, SpecJson::Str(t)),
                                ("status"@, SpecJson::Str(status)),
                                ("source"@, SpecJson::Str("rollout_live_sync"@)),
                            ],
                        ),
                    ),
                    None => None,
                }
            },
        }
    }
}

/// Builds the lifecycle companion notification.
pub fn build_rollout_thread_status_notification(method: &str, params: &JsonValue) -> (r: Option<
    JsonValue,
>)
    ensures
        match r {
            Some(payload) => spec_thread_status_notification(method@, params@) == Some(payload@),
            None => spec_thread_status_notification(method@, params@) is None,
        },
{
    if !crate::text::starts_with(method, "codex/event/") {
        return None;
    }
    proof {
        reveal_strlit("codex/event/");
        assert("codex/event/"@.len() == 12);
    }
    let t = crate::text::skip_chars(method, 12);
    let t = t.as_str();
    let status: &str = if crate::json::str_eq(t, "task_started") || crate::json::str_eq(
        t,
        "taskstarted",
    ) {
        "running"
    } else if crate::json::str_eq(t, "task_complete") || crate::json::str_eq(t, "taskcomplete") {
        "completed"
    } else if crate::json::str_eq(t, "task_failed") || crate::json::str_eq(t, "taskfailed")
        || crate::json::str_eq(t, "turn_failed") || crate::json::str_eq(t, "turnfailed") {
        "failed"
    } else if crate::json::str_eq(t, "task_interrupted") || crate::json::str_eq(
        t,
        "taskinterrupted",
    ) || crate::json::str_eq(t, "turn_aborted") || crate::json::str_eq(t, "turnaborted") {
        "interrupted"
    } else {
        return None;
    };
    let msg = params.get("msg");
    let tid = match source_str(msg, "thread_id") {
        Some(t) => Some(t),
        None => source_str(msg, "threadId"),
    };
    let tid = match tid {
        Some(t) => t,
        None => {
            return None;
        },
    };
    let payload = crate::json::obj4(
        "threadId",
        JsonValue::Str(tid.clone()),
        "thread_id",
        JsonValue::Str(tid),
        "status",
        crate::json::jstr(status),
        "source",
        crate::json::jstr("rollout_live_sync"),
    );
    proof {
        assert(payload@->Obj_0 =~= spec_thread_status_notification(
            method@,
            params@,
        ).unwrap()->Obj_0);
    }
    Some(payload)
}

/// The `{"msg": {...}}` notification wrapper.
pub open spec fn spec_msg_wrap(fields: Seq<(Seq<char>, SpecJson)>) -> SpecJson {
    SpecJson::Obj(seq![("msg"@, SpecJson::Obj(fields))])
}

/// Wraps assembled fields as a notification payload.
fn msg_wrap(fields: Vec<(String, JsonValue)>) -> (r: JsonValue)
    ensures
        r@ == spec_msg_wrap(crate::json::json_fields_view(fields@)),
{
    proof {
        crate::json::lemma_json_fields_view(fields@);
    }
    let inner = JsonValue::Obj(fields);
    let r = crate::json::obj1("msg", inner);
    r
}

/// How an `event_msg` record projects: noise types are dropped; the
/// record's payload becomes the `msg`, given `thread_id`, `threadId` and
/// `timestamp` fields when it lacks them; `agent_reasoning` and
/// `agent_message` are rewritten as delta events carrying their text;
/// everything else passes through under `codex/event/<type>`.
pub open spec fn spec_event_msg_notification(
    payload: SpecJson,
    tid: Seq<char>,
    ts: Option<Seq<char>>,
) -> Option<(Seq<char>, SpecJson)> {
    match crate::json::spec_read_string(payload.get("type"@)) {
        None => None,
        Some(raw) => {
            if raw == "token_count"@ || raw == "user_message"@ || raw == "context_compacted"@ {
                None
            } else {
                let f1 = spec_entry_or_insert(payload->Obj_0, "thread_id"@, SpecJson::Str(tid));
                let f2 = spec_entry_or_insert(f1, "threadId"@, SpecJson::Str(tid));
                let f3 = match ts {
                    Some(t) => spec_entry_or_insert(f2, "timestamp"@, SpecJson::Str(t)),
                    None => f2,
                };
                if raw == "agent_reasoning"@ {
                    match crate::json::spec_read_string(payload.get("text"@)) {
                        Some(delta) => {
                            if crate::text::spec_is_blank(delta) {
                                None
                            } else {
                                let f4 = spec_insert_field(
                                    f3,
                                    "type"@,
                                    SpecJson::Str("agent_reasoning_delta"@),
                                );
                                let f5 = spec_insert_field(f4, "delta"@, SpecJson::Str(delta));
                                Some(("codex/event/agent_reasoning_delta"@, spec_msg_wrap(f5)))
                            }
                        },
                        None => None,
                    }
                } else if raw == "agent_message"@ {
                    match crate::json::spec_read_string(payload.get("message"@)) {
                        Some(delta) => {
                            if crate::text::spec_is_blank(delta) {
                                None
                            } else {
                                let f4 = spec_insert_field(
                                    f3,
                                    "type"@,
                                    SpecJson::Str("agent_message_delta"@),
                                );
                                let f5 = spec_insert_field(f4, "delta"@, SpecJson::Str(delta));
                                Some(("codex/event/agent_message_delta"@, spec_msg_wrap(f5)))
                            }
                        },
                        None => None,
                    }
                } else {
                    Some(("codex/event/"@ + raw, spec_msg_wrap(f3)))
                }
            }
        },
    }
}

/// Projects an `event_msg` record.
pub fn build_rollout_event_msg_notification(
    payload: &JsonValue,
    thread_id: &str,
    timestamp: Option<&String>,
) -> (r: Option<(String, JsonValue)>)
    ensures
        match r {
            Some(pair) => spec_event_msg_notification(
                payload@,
                thread_id@,
                crate::approval::opt_str_view(
                    match timestamp {
                        Some(t) => Some(*t),
                        None => None,
                    },
                ),
            ) == Some((pair.0@, pair.1@)),
            None => spec_event_msg_notification(
                payload@,
                thread_id@,
                crate::approval::opt_str_view(
                    match timestamp {
                        Some(t) => Some(*t),
                        None => None,
                    },
                ),
            ) is None,
        },
{
    let raw = match crate::json::read_string(payload.get("type")) {
        Some(raw) => raw,
        None => {
            return None;
        },
    };
    let raw = raw.as_str();
    if crate::json::str_eq(raw, "token_count") || crate::json::str_eq(raw, "user_message")
        || crate::json::str_eq(raw, "context_compacted") {
        return None;
    }
    let owned = crate::json::clone_json(payload);
    let mut fields: Vec<(String, JsonValue)> = match owned {
        JsonValue::Obj(fields) => fields,
        _ => {
            // A record whose `type` read as a string is an object.
            proof {
                assert(payload@.get("type"@) is Some);
            }
            return None;
        },
    };
    entry_or_insert(&mut fields, "thread_id", crate::json::jstr(thread_id));
    entry_or_insert(&mut fields, "threadId", crate::json::jstr(thread_id));
    match timestamp {
        Some(t) => {
            entry_or_insert(&mut fields, "timestamp", JsonValue::Str((*t).clone()));
        },
        None => {},
    }
    if crate::json::str_eq(raw, "agent_reasoning") {
        let delta = match crate::json::read_string(payload.get("text")) {
            Some(d) => d,
            None => {
                return None;
            },
        };
        if crate::text::is_blank_str(delta.as_str()) {
            return None;
        }
        insert_field(&mut fields, "type", crate::json::jstr("agent_reasoning_delta"));
        insert_field(&mut fields, "delta", JsonValue::Str(delta));
        return Some(("codex/event/agent_reasoning_delta".to_owned(), msg_wrap(fields)));
    }
    if crate::json::str_eq(raw, "agent_message") {
        let delta = match crate::json::read_string(payload.get("message")) {
            Some(d) => d,
            None => {
                return None;
            },
        };
        if crate::text::is_blank_str(delta.as_str()) {
            return None;
        }
        insert_field(&mut fields, "type", crate::json::jstr("agent_message_delta"));
        insert_field(&mut fields, "delta", JsonValue::Str(delta));
        return Some(("codex/event/agent_message_delta".to_owned(), msg_wrap(fields)));
    }
    let method = crate::text::concat_str("codex/event/", raw);
    Some((method, msg_wrap(fields)))
}

/// How a `response_item` record projects: only recorded function calls,
/// and among them a shell execution (its command split into an argv,
/// falling back to the whole line), an `mcp__server__tool` call, or a
/// web/image search with its first usable query.
pub open spec fn spec_response_item_notification(
    payload: SpecJson,
    tid: Seq<char>,
    ts: Option<Seq<char>>,
) -> Option<(Seq<char>, SpecJson)> {
    if crate::json::spec_read_string(payload.get("type"@)) != Some("function_call"@) {
        None
    } else {
        match crate::json::spec_read_string(payload.get("name"@)) {
            None => None,
            Some(name) => {
                let arguments = spec_call_arguments(payload.get("arguments"@));
                if name == "exec_command"@ {
                    match crate::approval::spec_read_shell_command(arguments.get("cmd"@)) {
                        None => None,
                        Some(cmd) => {
                            let trimmed = crate::text::spec_trim(cmd);
                            if trimmed.len() == 0 {
                                None
                            } else {
                                let parts = match spec_shlex_split(trimmed) {
                                    Some(parts) => parts,
                                    None => seq![trimmed],
                                };
                                let base = seq![
                                    ("type"@, SpecJson::Str("exec_command_begin"@)),
                                    ("thread_id"@, SpecJson::Str(tid)),
                                    ("threadId"@, SpecJson::Str(tid)),
                                    (
                                        "command"@,
                                        SpecJson::Arr(
                                            Seq::new(parts.len(), |i: int| SpecJson::Str(parts[i])),
                                        ),
                                    ),
                                ];
                                let with_call = match crate::json::spec_read_string(
                                    payload.get("call_id"@),
                                ) {
                                    Some(cid) => base.push(("call_id"@, SpecJson::Str(cid))),
                                    None => base,
                                };
                                let with_ts = match ts {
                                    Some(t) => with_call.push(("timestamp"@, SpecJson::Str(t))),
                                    None => with_call,
                                };
                                Some(("codex/event/exec_command_begin"@, spec_msg_wrap(with_ts)))
                            }
                        },
                    }
                } else {
                    match spec_parse_mcp_tool_name(name) {
                        Some((server, tool)) => {
                            let base = seq![
                                ("type"@, SpecJson::Str("mcp_tool_call_begin"@)),
                                ("thread_id"@, SpecJson::Str(tid)),
                                ("threadId"@, SpecJson::Str(tid)),
                                ("server"@, SpecJson::Str(server)),
                                ("tool"@, SpecJson::Str(tool)),
                            ];
                            let with_ts = match ts {
                                Some(t) => base.push(("timestamp"@, SpecJson::Str(t))),
                                None => base,
                            };
                            Some(("codex/event/mcp_tool_call_begin"@, spec_msg_wrap(with_ts)))
                        },
                        None => {
                            if name == "search_query"@ || name == "image_query"@ {
                                match spec_search_query(arguments) {
                                    Some(query) => {
                                        let base = seq![
                                            ("type"@, SpecJson::Str("web_search_begin"@)),
                                            ("thread_id"@, SpecJson::Str(tid)),
                                            ("threadId"@, SpecJson::Str(tid)),
                                            ("query"@, SpecJson::Str(query)),
                                        ];
                                        let with_ts = match ts {
                                            Some(t) => base.push(
                                                ("timestamp"@, SpecJson::Str(t)),
                                            ),
                                            None => base,
                                        };
                                        Some(("codex/event/web_search_begin"@, spec_msg_wrap(with_ts)))
                                    },
                                    None => None,
                                }
                            } else {
                                None
                            }
                        },
                    }
                }
            },
        }
    }
}

/// Projects a `response_item` record.
#[verifier::loop_isolation(false)]
pub fn build_rollout_response_item_notification(
    payload: &JsonValue,
    thread_id: &str,
    timestamp: Option<&String>,
) -> (r: Option<(String, JsonValue)>)
    ensures
        ({
            let ts = crate::approval::opt_str_view(
                match timestamp {
                    Some(t) => Some(*t),
                    None => None,
                },
            );
            match r {
                Some(pair) => spec_response_item_notification(payload@, thread_id@, ts) == Some(
                    (pair.0@, pair.1@),
                ),
                None => spec_response_item_notification(payload@, thread_id@, ts) is None,
            }
        }),
{
    match crate::json::read_string(payload.get("type")) {
        Some(t) => {
            if !crate::json::str_eq(t.as_str(), "function_call") {
                return None;
            }
        },
        None => {
            return None;
        },
    }
    let name = match crate::json::read_string(payload.get("name")) {
        Some(name) => name,
        None => {
            return None;
        },
    };
    let name = name.as_str();
    let arguments = parse_rollout_function_call_arguments(payload.get("arguments"));
    if crate::json::str_eq(name, "exec_command") {
        let cmd = match crate::approval::read_shell_command(arguments.get("cmd")) {
            Some(cmd) => cmd,
            None => {
                return None;
            },
        };
        let trimmed = crate::text::trim_str(cmd.as_str());
        if trimmed.as_str().is_empty() {
            return None;
        }
        let parts = match shell_split_command(trimmed.as_str()) {
            Some(parts) => parts,
            None => {
                let mut one: Vec<String> = Vec::new();
                one.push(trimmed.clone());
                proof {
                    assert(strings_view(one@) =~= seq![trimmed@]);
                }
                one
            },
        };
        let mut command_items: Vec<JsonValue> = Vec::new();
        let mut i: usize = 0;
        while i < parts.len()
            invariant
                0 <= i <= parts@.len(),
                command_items@.len() == i,
                forall|j: int|
                    0 <= j < i ==> #[trigger] command_items@[j]@ == SpecJson::Str(parts@[j]@),
            decreases parts@.len() - i,
        {
            command_items.push(JsonValue::Str(parts[i].clone()));
            i += 1;
        }
        let command = crate::json::arr_from_items(command_items);
        let ghost spec_parts = match spec_shlex_split(trimmed@) {
            Some(ps) => ps,
            None => seq![trimmed@],
        };
        proof {
            assert(command@->Arr_0 =~= Seq::new(
                spec_parts.len(),
                |i: int| SpecJson::Str(spec_parts[i]),
            ));
        }
        let mut fields: Vec<(String, JsonValue)> = Vec::new();
        fields.push(("type".to_owned(), crate::json::jstr("exec_command_begin")));
        fields.push(("thread_id".to_owned(), crate::json::jstr(thread_id)));
        fields.push(("threadId".to_owned(), crate::json::jstr(thread_id)));
        fields.push(("command".to_owned(), command));
        match crate::json::read_string(payload.get("call_id")) {
            Some(cid) => {
                fields.push(("call_id".to_owned(), JsonValue::Str(cid)));
            },
            None => {},
        }
        match timestamp {
            Some(t) => {
                fields.push(("timestamp".to_owned(), JsonValue::Str((*t).clone())));
            },
            None => {},
        }
        let payload_json = msg_wrap(fields);
        proof {
            crate::json::lemma_json_fields_view(fields@);
            let expected = spec_response_item_notification(
                payload@,
                thread_id@,
                crate::approval::opt_str_view(
                    match timestamp {
                        Some(t) => Some(*t),
                        None => None,
                    },
                ),
            ).unwrap().1;
            assert(payload_json@->Obj_0[0].1->Obj_0 =~= expected->Obj_0[0].1->Obj_0);
            assert(payload_json@->Obj_0 =~= expected->Obj_0);
        }
        return Some(("codex/event/exec_command_begin".to_owned(), payload_json));
    }
    match parse_rollout_mcp_tool_name(name) {
        Some((server, tool)) => {
            let mut fields: Vec<(String, JsonValue)> = Vec::new();
            fields.push(("type".to_owned(), crate::json::jstr("mcp_tool_call_begin")));
            fields.push(("thread_id".to_owned(), crate::json::jstr(thread_id)));
            fields.push(("threadId".to_owned(), crate::json::jstr(thread_id)));
            fields.push(("server".to_owned(), JsonValue::Str(server)));
            fields.push(("tool".to_owned(), JsonValue::Str(tool)));
            match timestamp {
                Some(t) => {
                    fields.push(("timestamp".to_owned(), JsonValue::Str((*t).clone())));
                },
                None => {},
            }
            let payload_json = msg_wrap(fields);
            proof {
                crate::json::lemma_json_fields_view(fields@);
                let expected = spec_response_item_notification(
                    payload@,
                    thread_id@,
                    crate::approval::opt_str_view(
                        match timestamp {
                            Some(t) => Some(*t),
                            None => None,
                        },
                    ),
                ).unwrap().1;
                assert(payload_json@->Obj_0[0].1->Obj_0 =~= expected->Obj_0[0].1->Obj_0);
                assert(payload_json@->Obj_0 =~= expected->Obj_0);
            }
            return Some(("codex/event/mcp_tool_call_begin".to_owned(), payload_json));
        },
        None => {},
    }
    if crate::json::str_eq(name, "search_query") || crate::json::str_eq(name, "image_query") {
        let query = match extract_rollout_search_query(&arguments) {
            Some(q) => q,
            None => {
                return None;
            },
        };
        let mut fields: Vec<(String, JsonValue)> = Vec::new();
        fields.push(("type".to_owned(), crate::json::jstr("web_search_begin")));
        fields.push(("thread_id".to_owned(), crate::json::jstr(thread_id)));
        fields.push(("threadId".to_owned(), crate::json::jstr(thread_id)));
        fields.push(("query".to_owned(), JsonValue::Str(query)));
        match timestamp {
            Some(t) => {
                fields.push(("timestamp".to_owned(), JsonValue::Str((*t).clone())));
            },
            None => {},
        }
        let payload_json = msg_wrap(fields);
        proof {
            crate::json::lemma_json_fields_view(fields@);
            let expected = spec_response_item_notification(
                payload@,
                thread_id@,
                crate::approval::opt_str_view(
                    match timestamp {
                        Some(t) => Some(*t),
                        None => None,
                    },
                ),
            ).unwrap().1;
            assert(payload_json@->Obj_0[0].1->Obj_0 =~= expected->Obj_0[0].1->Obj_0);
            assert(payload_json@->Obj_0 =~= expected->Obj_0);
        }
        return Some(("codex/event/web_search_begin".to_owned(), payload_json));
    }
    None
}

/// The metadata part of a tracked file's state.
pub struct SpecTrackedMeta {
    pub thread_id: Option<Seq<char>>,
    pub originator: Option<Seq<char>>,
    pub include_for_live_sync: bool,
}

impl RolloutTrackedFile {
    pub open spec fn meta_view(self) -> SpecTrackedMeta {
        SpecTrackedMeta {
            thread_id: crate::approval::opt_str_view(self.thread_id),
            originator: crate::approval::opt_str_view(self.originator),
            include_for_live_sync: self.include_for_live_sync,
        }
    }
}

/// How one complete line changes the file's metadata and what it emits:
/// session metadata updates the thread id, originator and live-sync flag
/// and emits nothing; on a live-synced file, a record that resolves a
/// thread id projects through the `event_msg` or `response_item`
/// builders; everything else is dropped.
#[verifier::opaque]
pub open spec fn spec_to_notification(meta: SpecTrackedMeta, line: Seq<char>) -> (
    SpecTrackedMeta,
    Option<(Seq<char>, SpecJson)>,
) {
    match crate::json::spec_parse_json(line) {
        None => (meta, None),
        Some(v) => match crate::json::spec_read_string(v.get("type"@)) {
            None => (meta, None),
            Some(rt) => {
                let ts = crate::json::spec_read_string(v.get("timestamp"@));
                match v.get("payload"@) {
                    Some(payload) => {
                        if !payload.is_obj() {
                            (meta, None)
                        } else if rt == "session_meta"@ {
                            let tid = spec_or_opt(
                                spec_extract_thread_id(payload, true),
                                meta.thread_id,
                            );
                            let orig = spec_or_opt(
                                crate::json::spec_read_string(payload.get("originator"@)),
                                meta.originator,
                            );
                            (
                                SpecTrackedMeta {
                                    thread_id: tid,
                                    originator: orig,
                                    include_for_live_sync: tid is Some && spec_originator_allowed(
                                        orig,
                                    ),
                                },
                                None,
                            )
                        } else if !meta.include_for_live_sync {
                            (meta, None)
                        } else {
                            let tid = spec_or_opt(
                                spec_extract_thread_id(payload, false),
                                meta.thread_id,
                            );
                            let meta2 = SpecTrackedMeta {
                                thread_id: tid,
                                originator: meta.originator,
                                include_for_live_sync: meta.include_for_live_sync,
                            };
                            match tid {
                                None => (meta2, None),
                                Some(t) => {
                                    if rt == "event_msg"@ {
                                        (meta2, spec_event_msg_notification(payload, t, ts))
                                    } else if rt == "response_item"@ {
                                        (meta2, spec_response_item_notification(payload, t, ts))
                                    } else {
                                        (meta2, None)
                                    }
                                },
                            }
                        }
                    },
                    None => (meta, None),
                }
            },
        },
    }
}

impl RolloutTrackedFile {
    /// Projects one complete line, updating the file's metadata.
    pub fn to_notification(&mut self, line: &str) -> (r: Option<(String, JsonValue)>)
        ensures
            final(self).offset == old(self).offset,
            final(self).partial_line == old(self).partial_line,
            final(self).drop_first_partial_line == old(self).drop_first_partial_line,
            final(self).recent_line_hashes == old(self).recent_line_hashes,
            ({
                let (meta2, out) = spec_to_notification(old(self).meta_view(), line@);
                &&& final(self).meta_view() == meta2
                &&& (match r {
                    Some(pair) => out == Some((pair.0@, pair.1@)),
                    None => out is None,
                })
            }),
    {
        proof {
            reveal(spec_to_notification);
        }
        let parsed = match crate::json::parse_json(line) {
            Some(parsed) => parsed,
            None => {
                return None;
            },
        };
        let record_type = match crate::json::read_string(parsed.get("type")) {
            Some(rt) => rt,
            None => {
                return None;
            },
        };
        let timestamp = crate::json::read_string(parsed.get("timestamp"));
        let payload = match parsed.get("payload") {
            Some(payload) => payload,
            None => {
                return None;
            },
        };
        if !payload.is_obj() {
            return None;
        }
        if crate::json::str_eq(record_type.as_str(), "session_meta") {
            match extract_rollout_thread_id(payload, true) {
                Some(tid) => {
                    self.thread_id = Some(tid);
                },
                None => {},
            }
            match crate::json::read_string(payload.get("originator")) {
                Some(orig) => {
                    self.originator = Some(orig);
                },
                None => {},
            }
            let allowed = rollout_originator_allowed(match &self.originator {
                Some(o) => Some(o.as_str()),
                None => None,
            });
            self.include_for_live_sync = self.thread_id.is_some() && allowed;
            return None;
        }
        if !self.include_for_live_sync {
            return None;
        }
        match extract_rollout_thread_id(payload, false) {
            Some(tid) => {
                self.thread_id = Some(tid);
            },
            None => {},
        }
        let thread_id = match &self.thread_id {
            Some(t) => t.clone(),
            None => {
                return None;
            },
        };
        if crate::json::str_eq(record_type.as_str(), "event_msg") {
            return build_rollout_event_msg_notification(
                payload,
                thread_id.as_str(),
                timestamp.as_ref(),
            );
        }
        if crate::json::str_eq(record_type.as_str(), "response_item") {
            return build_rollout_response_item_notification(
                payload,
                thread_id.as_str(),
                timestamp.as_ref(),
            );
        }
        None
    }

    /// Handles one raw line from the file: blank lines vanish; a line
    /// whose hash sits in the dedup window is surfaced at most once per
    /// window; a fresh line is remembered and projected, a lifecycle
    /// event gaining its `thread/status/changed` companion first.
    #[verifier::rlimit(60)]
    pub fn process_rollout_line(&mut self, line: &str) -> (notes: Vec<(String, JsonValue)>)
        requires
            old(self).recent_line_hashes@.len()
                <= crate::limits::ROLLOUT_LIVE_SYNC_DEDUP_CAPACITY,
        ensures
            final(self).recent_line_hashes@.len()
                <= crate::limits::ROLLOUT_LIVE_SYNC_DEDUP_CAPACITY,
            final(self).offset == old(self).offset,
            final(self).partial_line == old(self).partial_line,
            final(self).drop_first_partial_line == old(self).drop_first_partial_line,
            ({
                let trimmed = crate::text::spec_trim(line@);
                let untouched = final(self).thread_id == old(self).thread_id
                    && final(self).originator == old(self).originator
                    && final(self).include_for_live_sync == old(self).include_for_live_sync
                    && final(self).recent_line_hashes@ == old(self).recent_line_hashes@;
                if trimmed.len() == 0 {
                    untouched && notes@.len() == 0
                } else {
                    let h = spec_fnv1a(trimmed);
                    if old(self).recent_line_hashes@.contains(h) {
                        untouched && notes@.len() == 0
                    } else {
                        let (meta2, out) = spec_to_notification(old(self).meta_view(), trimmed);
                        &&& final(self).recent_line_hashes@ == if old(
                            self,
                        ).recent_line_hashes@.len() + 1
                            > crate::limits::ROLLOUT_LIVE_SYNC_DEDUP_CAPACITY {
                            old(self).recent_line_hashes@.push(h).drop_first()
                        } else {
                            old(self).recent_line_hashes@.push(h)
                        }
                        &&& final(self).meta_view() == meta2
                        &&& (match out {
                            None => notes@.len() == 0,
                            Some((m, p)) => match spec_thread_status_notification(m, p) {
                                Some(st) => notes@.len() == 2 && notes@[0].0@
                                    == "thread/status/changed"@ && notes@[0].1@ == st
                                    && notes@[1].0@ == m && notes@[1].1@ == p,
                                None => notes@.len() == 1 && notes@[0].0@ == m && notes@[0].1@
                                    == p,
                            },
                        })
                    }
                }
            }),
    {
        let trimmed = crate::text::trim_str(line);
        if trimmed.as_str().is_empty() {
            return Vec::new();
        }
        let h = hash_rollout_line(trimmed.as_str());
        let fresh = self.remember_line_hash(h);
        if !fresh {
            return Vec::new();
        }
        let mut notes: Vec<(String, JsonValue)> = Vec::new();
        match self.to_notification(trimmed.as_str()) {
            Some((method, params)) => {
                match build_rollout_thread_status_notification(method.as_str(), &params) {
                    Some(status_payload) => {
                        notes.push(("thread/status/changed".to_owned(), status_payload));
                    },
                    None => {},
                }
                notes.push((method, params));
            },
            None => {},
        }
        notes
    }
}

/// Reads a journal's first line for its session metadata: the thread id
/// and originator of a `session_meta` record. Nothing is found only when
/// the line does not parse, is not a `session_meta` record, lacks an
/// object payload, or yields no thread id.
pub fn session_meta_of_line(line: &str) -> (r: Option<(String, Option<String>)>)
    ensures
        ({
            let parsed = crate::json::spec_parse_json(line@);
            let usable = parsed matches Some(v) && crate::json::spec_read_string(v.get("type"@))
                == Some("session_meta"@) && (v.get("payload"@) matches Some(payload)
                && payload.is_obj() && spec_extract_thread_id(payload, true) is Some);
            match r {
                Some(pair) => {
                    &&& usable
                    &&& (parsed matches Some(v) && (v.get("payload"@) matches Some(payload)
                        && spec_extract_thread_id(payload, true) == Some(pair.0@)
                        && crate::approval::opt_str_view(pair.1)
                        == crate::json::spec_read_string(payload.get("originator"@))))
                },
                None => !usable,
            }
        }),
{
    let parsed = match crate::json::parse_json(line) {
        Some(parsed) => parsed,
        None => {
            return None;
        },
    };
    match crate::json::read_string(parsed.get("type")) {
        Some(rt) => {
            if !crate::json::str_eq(rt.as_str(), "session_meta") {
                return None;
            }
        },
        None => {
            return None;
        },
    }
    let payload = match parsed.get("payload") {
        Some(payload) => payload,
        None => {
            return None;
        },
    };
    if !payload.is_obj() {
        return None;
    }
    let tid = match extract_rollout_thread_id(payload, true) {
        Some(tid) => tid,
        None => {
            return None;
        },
    };
    let originator = crate::json::read_string(payload.get("originator"));
    Some((tid, originator))
}

} // verus!
