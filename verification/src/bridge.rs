//! The agent bridge's correlation state.
//!
//! The bridge speaks a line-framed JSON protocol with one subprocess. A
//! single monotonic counter mints the `id` of every outbound request —
//! forwarded client RPCs and the bridge's own — and two registries keyed
//! by that id route each subprocess response back: to the originating
//! client, or to an internal waiter. Server-initiated requests (approvals,
//! user input, tool calls, credential refresh) are recorded here too.
//!
//! Every transition is a pure function from the state and an event to the
//! next state and a list of effects; the surrounding process performs the
//! effects (writes a line, fans a notification out, replies to a client).

use vstd::prelude::*;
use crate::approval::ApprovalResponseFormat;
use crate::approval::PendingApproval;
use crate::approval::PendingApprovalEntry;
use crate::json::JsonValue;
use crate::json::SpecJson;
use crate::json::obj1;
use crate::json::obj2;
use crate::json::clone_json;
use crate::numeric::spec_parse_u64;
use crate::numeric::spec_u64_string;
use crate::numeric::parse_u64;
use crate::userinput::PendingUserInputEntry;

verus! {

/// A forwarded client RPC awaiting the subprocess's reply.
#[derive(Debug, PartialEq)]
pub struct PendingRequest {
    pub client_id: u64,
    pub client_request_id: JsonValue,
}

/// One effect the surrounding process must perform.
#[derive(Debug, PartialEq)]
pub enum BridgeEffect {
    /// Write this value as one line to the subprocess stdin.
    WriteLine(JsonValue),
    /// Hand this notification to the hub for stamping and fan-out.
    Broadcast(String, JsonValue),
    /// Send this reply to one client.
    SendToClient(u64, JsonValue),
    /// Resolve the internal waiter with this id successfully.
    FulfillWaiterOk(u64, JsonValue),
    /// Resolve the internal waiter with this id with an error message.
    FulfillWaiterErr(u64, String),
}

/// Index of the first entry with the key, scanning front to back.
pub open spec fn spec_find_key<T>(s: Seq<(u64, T)>, key: u64) -> Option<int>
    decreases s.len(),
{
    if s.len() == 0 {
        None
    } else if s[0].0 == key {
        Some(0int)
    } else {
        match spec_find_key(s.drop_first(), key) {
            Some(i) => Some(i + 1),
            None => None,
        }
    }
}

/// Characterization of `spec_find_key`.
pub proof fn lemma_find_key<T>(s: Seq<(u64, T)>, key: u64)
    ensures
        match spec_find_key(s, key) {
            Some(i) => 0 <= i < s.len() && s[i].0 == key && (forall|j: int|
                0 <= j < i ==> s[j].0 != key),
            None => forall|j: int| 0 <= j < s.len() ==> s[j].0 != key,
        },
    decreases s.len(),
{
    if s.len() > 0 && s[0].0 != key {
        lemma_find_key(s.drop_first(), key);
        let rest = s.drop_first();
        match spec_find_key(rest, key) {
            Some(i) => {
                assert(s[i + 1].0 == rest[i].0);
                assert forall|j: int| 0 <= j < i + 1 implies s[j].0 != key by {
                    if j > 0 {
                        assert(rest[j - 1].0 != key);
                    }
                }
            },
            None => {
                assert forall|j: int| 0 <= j < s.len() implies s[j].0 != key by {
                    if j > 0 {
                        assert(rest[j - 1].0 != key);
                    }
                }
            },
        }
    }
}

/// Finds the first entry with the key.
#[verifier::loop_isolation(false)]
fn find_key<T>(v: &Vec<(u64, T)>, key: u64) -> (r: Option<usize>)
    ensures
        match r {
            Some(i) => spec_find_key(v@, key) == Some(i as int),
            None => spec_find_key(v@, key) is None,
        },
{
    proof {
        lemma_find_key(v@, key);
    }
    let mut i: usize = 0;
    while i < v.len()
        invariant
            0 <= i <= v@.len(),
            forall|j: int| 0 <= j < i ==> v@[j].0 != key,
        decreases v@.len() - i,
    {
        if v[i].0 == key {
            proof {
                match spec_find_key(v@, key) {
                    Some(k) => {
                        assert(v@[k].0 == key);
                        if k < i {
                            assert(false);
                        }
                        if k > i {
                            assert(v@[i as int].0 != key);
                        }
                    },
                    None => {
                        assert(v@[i as int].0 != key);
                    },
                }
            }
            return Some(i);
        }
        i += 1;
    }
    proof {
        match spec_find_key(v@, key) {
            Some(k) => {
                assert(v@[k].0 != key);
            },
            None => {},
        }
    }
    None
}

/// How a subprocess response with a given id is routed.
pub struct AppServerBridge {
    /// The next internal request id; the same counter serves forwarded and
    /// internal requests.
    pub next_request_id: u64,
    /// Forwarded client RPCs by internal id, oldest first.
    pub pending_requests: Vec<(u64, PendingRequest)>,
    /// Ids of the bridge's own requests whose waiters are still live.
    pub internal_waiters: Vec<u64>,
    /// Pending approvals by bridge-minted id, oldest first.
    pub pending_approvals: Vec<(String, PendingApprovalEntry)>,
    /// Pending user-input requests by bridge-minted id, oldest first.
    pub pending_user_inputs: Vec<(String, PendingUserInputEntry)>,
    pub approval_counter: u64,
    pub user_input_counter: u64,
}

/// The JSON value `{id, method}` or `{id, method, params}` written to the
/// subprocess for a request.
pub open spec fn spec_request_line(id: u64, method: Seq<char>, params: Option<SpecJson>)
    -> SpecJson {
    match params {
        Some(p) => SpecJson::Obj(
            seq![
                ("id"@, SpecJson::UInt(id)),
                ("method"@, SpecJson::Str(method)),
                ("params"@, p),
            ],
        ),
        None => SpecJson::Obj(seq![("id"@, SpecJson::UInt(id)), ("method"@, SpecJson::Str(method))]),
    }
}

/// The reply relayed to a client for a subprocess response: the response's
/// `error` verbatim if present, else its `result` (or `null`).
pub open spec fn spec_client_reply(client_request_id: SpecJson, response: SpecJson) -> SpecJson {
    match response.get("error"@) {
        Some(err) => SpecJson::Obj(seq![("id"@, client_request_id), ("error"@, err)]),
        None => SpecJson::Obj(
            seq![
                ("id"@, client_request_id),
                ("result"@, response.get("result"@).unwrap_or(SpecJson::Null)),
            ],
        ),
    }
}

/// How the subprocess's response id is read: a non-negative JSON integer,
/// or a decimal string; negative numbers and anything else are rejected.
pub open spec fn spec_parse_internal_id(v: Option<SpecJson>) -> Option<u64> {
    match v {
        Some(SpecJson::Int(i)) => if i >= 0 {
            Some(i as u64)
        } else {
            None
        },
        Some(SpecJson::UInt(u)) => Some(u),
        Some(SpecJson::Str(s)) => spec_parse_u64(s),
        _ => None,
    }
}

/// Reads a response id.
pub fn parse_internal_id(v: Option<&JsonValue>) -> (r: Option<u64>)
    ensures
        r == spec_parse_internal_id(crate::approval::spec_of_opt(v)),
{
    match v {
        Some(JsonValue::Int(i)) => {
            if *i >= 0 {
                Some(*i as u64)
            } else {
                None
            }
        },
        Some(JsonValue::UInt(u)) => Some(*u),
        Some(JsonValue::Str(s)) => parse_u64(s.as_str()),
        _ => None,
    }
}

/// An id written as a JSON number, or rendered in decimal and read back
/// as a string, comes back unchanged, for every id the counter can mint
/// below `i64`'s ceiling.
pub proof fn lemma_internal_id_round_trip(n: u64)
    requires
        n < 0x8000_0000_0000_0000,
    ensures
        spec_parse_internal_id(Some(SpecJson::Int(n as i64))) == Some(n),
        spec_parse_internal_id(Some(SpecJson::UInt(n))) == Some(n),
        spec_parse_internal_id(Some(SpecJson::Str(spec_u64_string(n as int)))) == Some(n),
{
    crate::numeric::lemma_u64_decimal_round_trip(n);
    crate::numeric::lemma_u64_string_value(n as int);
}

/// How one subprocess response moves the state: an unreadable id, or one
/// recorded nowhere, changes nothing and emits nothing; a forwarded id
/// removes its entry — and only then — and emits exactly one client
/// reply; a waiter id removes the waiter and emits exactly one
/// fulfilment. The interaction registries and the counter never move.
pub open spec fn spec_response_transition(
    pre: AppServerBridge,
    post: AppServerBridge,
    response: SpecJson,
    effects: Seq<BridgeEffect>,
) -> bool {
    &&& post.next_request_id == pre.next_request_id
    &&& post.pending_approvals == pre.pending_approvals
    &&& post.pending_user_inputs == pre.pending_user_inputs
    &&& post.approval_counter == pre.approval_counter
    &&& post.user_input_counter == pre.user_input_counter
    &&& match spec_parse_internal_id(response.get("id"@)) {
        None => post == pre && effects.len() == 0,
        Some(id) => match spec_find_key(pre.pending_requests@, id) {
            Some(i) => {
                &&& post.pending_requests@ == pre.pending_requests@.remove(i)
                &&& spec_find_key(post.pending_requests@, id) is None
                &&& post.internal_waiters == pre.internal_waiters
                &&& effects.len() == 1
                &&& effects[0] matches BridgeEffect::SendToClient(cid, reply) && cid
                    == pre.pending_requests@[i].1.client_id && reply@ == spec_client_reply(
                    pre.pending_requests@[i].1.client_request_id@,
                    response,
                )
            },
            None => match pre.internal_waiters@.index_of_first(id) {
                Some(j) => {
                    &&& post.pending_requests == pre.pending_requests
                    &&& post.internal_waiters@ == pre.internal_waiters@.remove(j)
                    &&& effects.len() == 1
                    &&& (match response.get("error"@) {
                        Some(err) => effects[0] matches BridgeEffect::FulfillWaiterErr(wid, msg)
                            && wid == id && msg@ == spec_waiter_error_message(err),
                        None => effects[0] matches BridgeEffect::FulfillWaiterOk(wid, result)
                            && wid == id && result@ == response.get("result"@).unwrap_or(
                            SpecJson::Null,
                        ),
                    })
                },
                None => post == pre && effects.len() == 0,
            },
        },
    }
}

impl AppServerBridge {
    /// The id discipline the reply guarantees rest on: every recorded id
    /// — forwarded or waiter — was minted below the counter, and none is
    /// recorded twice, so a response routes to at most one place.
    pub open spec fn wf(self) -> bool {
        &&& forall|i: int|
            0 <= i < self.pending_requests@.len() ==> (#[trigger] self.pending_requests@[i].0)
                < self.next_request_id
        &&& forall|i: int, j: int|
            0 <= i < j < self.pending_requests@.len() ==> (
            #[trigger] self.pending_requests@[i].0) != (#[trigger] self.pending_requests@[j].0)
        &&& forall|i: int|
            0 <= i < self.internal_waiters@.len() ==> (#[trigger] self.internal_waiters@[i])
                < self.next_request_id
        &&& forall|i: int, j: int|
            0 <= i < j < self.internal_waiters@.len() ==> (
            #[trigger] self.internal_waiters@[i]) != (#[trigger] self.internal_waiters@[j])
    }

    pub fn new() -> (b: AppServerBridge)
        ensures
            b.wf(),
            b.next_request_id == 1,
            b.pending_requests@ == Seq::<(u64, PendingRequest)>::empty(),
            b.internal_waiters@ == Seq::<u64>::empty(),
            b.pending_approvals@ == Seq::<(String, PendingApprovalEntry)>::empty(),
            b.pending_user_inputs@ == Seq::<(String, PendingUserInputEntry)>::empty(),
            b.approval_counter == 1,
            b.user_input_counter == 1,
    {
        AppServerBridge {
            next_request_id: 1,
            pending_requests: Vec::new(),
            internal_waiters: Vec::new(),
            pending_approvals: Vec::new(),
            pending_user_inputs: Vec::new(),
            approval_counter: 1,
            user_input_counter: 1,
        }
    }

    /// Allocates the internal id for a forwarded client RPC, records who
    /// asked, and hands back the line to write. If the write fails, the
    /// caller must roll the entry back with `forward_write_failed`.
    pub fn forward_request(
        &mut self,
        client_id: u64,
        client_request_id: JsonValue,
        method: &str,
        params: Option<JsonValue>,
    ) -> (r: (u64, JsonValue))
        requires
            old(self).wf(),
            old(self).next_request_id < u64::MAX,
        ensures
            final(self).wf(),
            r.0 == old(self).next_request_id,
            final(self).next_request_id == old(self).next_request_id + 1,
            final(self).pending_requests@ == old(self).pending_requests@.push(
                (r.0, PendingRequest { client_id, client_request_id }),
            ),
            final(self).internal_waiters == old(self).internal_waiters,
            final(self).pending_approvals == old(self).pending_approvals,
            final(self).pending_user_inputs == old(self).pending_user_inputs,
            final(self).approval_counter == old(self).approval_counter,
            final(self).user_input_counter == old(self).user_input_counter,
            r.1@ == spec_request_line(
                r.0,
                method@,
                match params {
                    Some(p) => Some(p@),
                    None => None,
                },
            ),
    {
        let internal_id = self.next_request_id;
        self.next_request_id = internal_id + 1;
        proof {
            lemma_forward_ids_stay_distinct(
                self.pending_requests@,
                (internal_id, PendingRequest { client_id, client_request_id }),
            );
        }
        self.pending_requests.push((internal_id, PendingRequest { client_id, client_request_id }));
        let line = match params {
            Some(p) => crate::json::obj3(
                "id",
                JsonValue::UInt(internal_id),
                "method",
                crate::json::jstr(method),
                "params",
                p,
            ),
            None => obj2("id", JsonValue::UInt(internal_id), "method", crate::json::jstr(method)),
        };
        (internal_id, line)
    }

    /// Rolls back the entry recorded for a forwarded request whose write
    /// to the subprocess failed.
    pub fn forward_write_failed(&mut self, internal_id: u64)
        requires
            old(self).wf(),
        ensures
            final(self).wf(),
            final(self).pending_requests@ == (match spec_find_key(
                old(self).pending_requests@,
                internal_id,
            ) {
                Some(i) => old(self).pending_requests@.remove(i),
                None => old(self).pending_requests@,
            }),
            final(self).next_request_id == old(self).next_request_id,
            final(self).internal_waiters == old(self).internal_waiters,
            final(self).pending_approvals == old(self).pending_approvals,
            final(self).pending_user_inputs == old(self).pending_user_inputs,
            final(self).approval_counter == old(self).approval_counter,
            final(self).user_input_counter == old(self).user_input_counter,
    {
        match find_key(&self.pending_requests, internal_id) {
            Some(i) => {
                proof {
                    lemma_find_key(self.pending_requests@, internal_id);
                    lemma_remove_keeps_discipline(
                        self.pending_requests@,
                        i as int,
                        self.next_request_id,
                    );
                }
                self.pending_requests.remove(i);
            },
            None => {},
        }
    }

    /// Allocates an id for a bridge-originated request and registers its
    /// waiter.
    pub fn begin_internal_request(&mut self) -> (id: u64)
        requires
            old(self).wf(),
            old(self).next_request_id < u64::MAX,
        ensures
            final(self).wf(),
            id == old(self).next_request_id,
            final(self).next_request_id == old(self).next_request_id + 1,
            final(self).internal_waiters@ == old(self).internal_waiters@.push(id),
            final(self).pending_requests == old(self).pending_requests,
            final(self).pending_approvals == old(self).pending_approvals,
            final(self).pending_user_inputs == old(self).pending_user_inputs,
            final(self).approval_counter == old(self).approval_counter,
            final(self).user_input_counter == old(self).user_input_counter,
    {
        let id = self.next_request_id;
        self.next_request_id = id + 1;
        self.internal_waiters.push(id);
        id
    }

    /// Routes a subprocess response by its id: to the forwarded map first
    /// — the entry is removed and the originating client gets exactly one
    /// reply — else to an internal waiter; a response whose id is in
    /// neither map, or unreadable, is dropped without any effect.
    pub fn handle_response(&mut self, response: &JsonValue) -> (effects: Vec<BridgeEffect>)
        requires
            old(self).wf(),
        ensures
            final(self).wf(),
            spec_response_transition(*old(self), *final(self), response@, effects@),
    {
        let id = match parse_internal_id(response.get("id")) {
            Some(id) => id,
            None => {
                return Vec::new();
            },
        };
        let mut effects: Vec<BridgeEffect> = Vec::new();
        match find_key(&self.pending_requests, id) {
            Some(i) => {
                proof {
                    lemma_find_key(self.pending_requests@, id);
                    lemma_remove_keeps_discipline(
                        self.pending_requests@,
                        i as int,
                        self.next_request_id,
                    );
                    lemma_reply_at_most_once(self.pending_requests@, i as int);
                }
                let (_, pending) = self.pending_requests.remove(i);
                let reply = build_client_reply(&pending.client_request_id, response);
                effects.push(BridgeEffect::SendToClient(pending.client_id, reply));
            },
            None => {
                match index_of_waiter(&self.internal_waiters, id) {
                    Some(j) => {
                        proof {
                            self.internal_waiters@.index_of_first_ensures(id);
                            lemma_remove_id_keeps_discipline(
                                self.internal_waiters@,
                                j as int,
                                self.next_request_id,
                            );
                        }
                        self.internal_waiters.remove(j);
                        match response.get("error") {
                            Some(err) => {
                                let msg = waiter_error_message(err);
                                effects.push(BridgeEffect::FulfillWaiterErr(id, msg));
                            },
                            None => {
                                let result = match response.get("result") {
                                    Some(result) => clone_json(result),
                                    None => JsonValue::Null,
                                };
                                effects.push(BridgeEffect::FulfillWaiterOk(id, result));
                            },
                        }
                    },
                    None => {},
                }
            },
        }
        effects
    }

    /// Drains every pending forwarded request, so that each waiting client
    /// is told exactly once that the agent went away, with the error the
    /// protocol reserves for it.
    pub fn fail_all_pending(&mut self, message: &str) -> (effects: Vec<BridgeEffect>)
        requires
            old(self).wf(),
        ensures
            final(self).wf(),
            final(self).pending_requests@ == Seq::<(u64, PendingRequest)>::empty(),
            final(self).next_request_id == old(self).next_request_id,
            final(self).internal_waiters == old(self).internal_waiters,
            final(self).pending_approvals == old(self).pending_approvals,
            final(self).pending_user_inputs == old(self).pending_user_inputs,
            final(self).approval_counter == old(self).approval_counter,
            final(self).user_input_counter == old(self).user_input_counter,
            effects@.len() == old(self).pending_requests@.len(),
            forall|i: int|
                0 <= i < effects@.len() ==> (#[trigger] effects@[i]
                    matches BridgeEffect::SendToClient(cid, reply) && cid == old(
                    self,
                ).pending_requests@[i].1.client_id && reply@ == spec_server_error_reply(
                    old(self).pending_requests@[i].1.client_request_id@,
                    -32000i64,
                    message@,
                )),
    {
        let ghost drained = self.pending_requests@;
        let mut effects: Vec<BridgeEffect> = Vec::new();
        let mut i: usize = 0;
        #[verifier::loop_isolation(false)]
        while i < self.pending_requests.len()
            invariant
                0 <= i <= drained.len(),
                self.pending_requests@ == drained,
                effects@.len() == i,
                forall|j: int|
                    0 <= j < i ==> (#[trigger] effects@[j] matches BridgeEffect::SendToClient(
                        cid,
                        reply,
                    ) && cid == drained[j].1.client_id && reply@ == spec_server_error_reply(
                        drained[j].1.client_request_id@,
                        -32000i64,
                        message@,
                    )),
            decreases drained.len() - i,
        {
            let reply = build_server_error_reply(
                &self.pending_requests[i].1.client_request_id,
                -32000,
                message,
            );
            effects.push(BridgeEffect::SendToClient(self.pending_requests[i].1.client_id, reply));
            i += 1;
        }
        self.pending_requests = Vec::new();
        proof {
            assert(self.pending_requests@ =~= Seq::<(u64, PendingRequest)>::empty());
        }
        effects
    }

    /// Clears the approval and user-input registries; the subprocess that
    /// would have answered them is gone.
    pub fn clear_interactions(&mut self)
        ensures
            final(self).pending_approvals@ == Seq::<(String, PendingApprovalEntry)>::empty(),
            final(self).pending_user_inputs@ == Seq::<(String, PendingUserInputEntry)>::empty(),
            final(self).next_request_id == old(self).next_request_id,
            final(self).pending_requests == old(self).pending_requests,
            final(self).internal_waiters == old(self).internal_waiters,
            final(self).approval_counter == old(self).approval_counter,
            final(self).user_input_counter == old(self).user_input_counter,
    {
        self.pending_approvals = Vec::new();
        self.pending_user_inputs = Vec::new();
        proof {
            assert(self.pending_approvals@ =~= Seq::<(String, PendingApprovalEntry)>::empty());
            assert(self.pending_user_inputs@ =~= Seq::<(String, PendingUserInputEntry)>::empty());
        }
    }
}

/// The `{id, error: {code, message}}` reply for a failed request.
pub open spec fn spec_server_error_reply(client_request_id: SpecJson, code: i64, message: Seq<char>)
    -> SpecJson {
    SpecJson::Obj(
        seq![
            ("id"@, client_request_id),
            (
                "error"@,
                SpecJson::Obj(
                    seq![("code"@, SpecJson::Int(code)), ("message"@, SpecJson::Str(message))],
                ),
            ),
        ],
    )
}

/// Builds the `{id, error: {code, message}}` reply.
pub fn build_server_error_reply(client_request_id: &JsonValue, code: i64, message: &str) -> (r:
    JsonValue)
    ensures
        r@ == spec_server_error_reply(client_request_id@, code, message@),
{
    let err = obj2("code", JsonValue::Int(code), "message", crate::json::jstr(message));
    obj2("id", clone_json(client_request_id), "error", err)
}

/// The message handed to an internal waiter for an error response: the
/// error object's `message` string, or a fixed fallback.
pub open spec fn spec_waiter_error_message(err: SpecJson) -> Seq<char> {
    match err.get("message"@) {
        Some(SpecJson::Str(s)) => s,
        _ => "unknown initialize error"@,
    }
}

/// Extracts the waiter error message.
fn waiter_error_message(err: &JsonValue) -> (r: String)
    ensures
        r@ == spec_waiter_error_message(err@),
{
    match err.get("message") {
        Some(JsonValue::Str(s)) => s.clone(),
        _ => "unknown initialize error".to_owned(),
    }
}

/// Builds the reply relayed to the client for a subprocess response.
fn build_client_reply(client_request_id: &JsonValue, response: &JsonValue) -> (r: JsonValue)
    ensures
        r@ == spec_client_reply(client_request_id@, response@),
{
    match response.get("error") {
        Some(err) => {
            let r = obj2("id", clone_json(client_request_id), "error", clone_json(err));
            proof {
                assert(r@->Obj_0 =~= spec_client_reply(client_request_id@, response@)->Obj_0);
            }
            r
        },
        None => {
            let result = match response.get("result") {
                Some(result) => clone_json(result),
                None => JsonValue::Null,
            };
            let r = obj2("id", clone_json(client_request_id), "result", result);
            proof {
                assert(r@->Obj_0 =~= spec_client_reply(client_request_id@, response@)->Obj_0);
            }
            r
        },
    }
}

/// Finds an id among the live waiters.
#[verifier::loop_isolation(false)]
fn index_of_waiter(v: &Vec<u64>, id: u64) -> (r: Option<usize>)
    ensures
        match r {
            Some(j) => v@.index_of_first(id) == Some(j as int),
            None => v@.index_of_first(id) is None,
        },
{
    proof {
        v@.index_of_first_ensures(id);
    }
    let mut j: usize = 0;
    while j < v.len()
        invariant
            0 <= j <= v@.len(),
            forall|k: int| 0 <= k < j ==> v@[k] != id,
        decreases v@.len() - j,
    {
        if v[j] == id {
            proof {
                match v@.index_of_first(id) {
                    Some(k) => {
                        if k < j {
                            assert(v@[k] != id);
                        }
                        if k > j {
                            assert(v@[j as int] != id);
                        }
                    },
                    None => {
                        assert(v@[j as int] != id);
                    },
                }
            }
            return Some(j);
        }
        j += 1;
    }
    proof {
        match v@.index_of_first(id) {
            Some(k) => {
                assert(v@[k] != id);
            },
            None => {},
        }
    }
    None
}

/// The string parameter under a key of an optional params object.
pub open spec fn spec_param_str(params: Option<SpecJson>, key: Seq<char>) -> Option<Seq<char>> {
    match params {
        Some(p) => crate::json::spec_read_string(p.get(key)),
        None => None,
    }
}

/// The raw value under a key of an optional params object.
pub open spec fn spec_param_get(params: Option<SpecJson>, key: Seq<char>) -> Option<SpecJson> {
    match params {
        Some(p) => p.get(key),
        None => None,
    }
}

pub open spec fn spec_or_else(v: Option<Seq<char>>, d: Seq<char>) -> Seq<char> {
    match v {
        Some(s) => s,
        None => d,
    }
}

/// Reads a string parameter.
fn param_str(params: Option<&JsonValue>, key: &str) -> (r: Option<String>)
    ensures
        match r {
            Some(s) => spec_param_str(crate::approval::spec_of_opt(params), key@) == Some(s@),
            None => spec_param_str(crate::approval::spec_of_opt(params), key@) is None,
        },
{
    match params {
        Some(p) => crate::json::read_string(p.get(key)),
        None => None,
    }
}

/// Reads a raw parameter.
fn param_get<'a>(params: Option<&'a JsonValue>, key: &str) -> (r: Option<&'a JsonValue>)
    ensures
        match r {
            Some(v) => spec_param_get(crate::approval::spec_of_opt(params), key@) == Some(v@),
            None => spec_param_get(crate::approval::spec_of_opt(params), key@) is None,
        },
{
    match params {
        Some(p) => p.get(key),
        None => None,
    }
}

/// A string parameter, or the given fallback.
fn param_str_or(params: Option<&JsonValue>, key: &str, fallback: &str) -> (r: String)
    ensures
        r@ == spec_or_else(spec_param_str(crate::approval::spec_of_opt(params), key@), fallback@),
{
    match param_str(params, key) {
        Some(s) => s,
        None => fallback.to_owned(),
    }
}

/// The four inbound approval methods.
pub open spec fn spec_is_legacy_approval_method(m: Seq<char>) -> bool {
    m == "applyPatchApproval"@ || m == "execCommandApproval"@
}

pub open spec fn spec_is_approval_method(m: Seq<char>) -> bool {
    ||| m == "item/commandExecution/requestApproval"@
    ||| m == "item/fileChange/requestApproval"@
    ||| spec_is_legacy_approval_method(m)
}

/// The two inbound user-input methods.
pub open spec fn spec_is_user_input_method(m: Seq<char>) -> bool {
    m == "item/tool/requestUserInput"@ || m == "tool/requestUserInput"@
}

/// How a pending approval is materialized from an inbound request: the
/// legacy shapes carry the thread id under `conversationId` and reuse
/// `callId` for the turn and item ids; the command of a legacy
/// `execCommandApproval` may be an argv array, joined with spaces; the
/// proposed amendment is honoured only on the modern command method.
pub open spec fn spec_build_approval(
    method: Seq<char>,
    params: Option<SpecJson>,
    aid: Seq<char>,
    ts: Seq<char>,
) -> crate::approval::SpecPendingApproval {
    let legacy = spec_is_legacy_approval_method(method);
    let legacy_call_id = spec_param_str(params, "callId"@);
    crate::approval::SpecPendingApproval {
        id: aid,
        kind: if method == "item/commandExecution/requestApproval"@ || method
            == "execCommandApproval"@ {
            "commandExecution"@
        } else {
            "fileChange"@
        },
        thread_id: spec_or_else(
            if legacy {
                spec_param_str(params, "conversationId"@)
            } else {
                spec_param_str(params, "threadId"@)
            },
            "unknown-thread"@,
        ),
        turn_id: spec_or_else(
            if legacy {
                legacy_call_id
            } else {
                spec_param_str(params, "turnId"@)
            },
            "unknown-turn"@,
        ),
        item_id: if method == "execCommandApproval"@ {
            spec_or_else(
                match spec_param_str(params, "approvalId"@) {
                    Some(s) => Some(s),
                    None => legacy_call_id,
                },
                "unknown-item"@,
            )
        } else if method == "applyPatchApproval"@ {
            spec_or_else(legacy_call_id, "unknown-item"@)
        } else {
            spec_or_else(spec_param_str(params, "itemId"@), "unknown-item"@)
        },
        requested_at: ts,
        reason: spec_param_str(params, "reason"@),
        command: if method == "execCommandApproval"@ {
            crate::approval::spec_read_shell_command(spec_param_get(params, "command"@))
        } else {
            spec_param_str(params, "command"@)
        },
        cwd: spec_param_str(params, "cwd"@),
        grant_root: spec_param_str(params, "grantRoot"@),
        proposed_execpolicy_amendment: if method == "item/commandExecution/requestApproval"@ {
            crate::approval::spec_parse_execpolicy_amendment(
                spec_param_get(params, "proposedExecpolicyAmendment"@),
            )
        } else {
            None
        },
    }
}

/// Materializes the pending approval for an inbound approval request.
fn build_approval(method: &str, params: Option<&JsonValue>, aid: String, ts: String) -> (r:
    PendingApproval)
    ensures
        r@ == spec_build_approval(method@, crate::approval::spec_of_opt(params), aid@, ts@),
{
    let legacy = crate::json::str_eq(method, "applyPatchApproval") || crate::json::str_eq(
        method,
        "execCommandApproval",
    );
    let is_exec_legacy = crate::json::str_eq(method, "execCommandApproval");
    let is_modern_command = crate::json::str_eq(method, "item/commandExecution/requestApproval");
    let legacy_call_id = param_str(params, "callId");
    let kind: String = if is_modern_command || is_exec_legacy {
        "commandExecution".to_owned()
    } else {
        "fileChange".to_owned()
    };
    let thread_id = if legacy {
        param_str_or(params, "conversationId", "unknown-thread")
    } else {
        param_str_or(params, "threadId", "unknown-thread")
    };
    let turn_id = if legacy {
        match &legacy_call_id {
            Some(s) => s.clone(),
            None => "unknown-turn".to_owned(),
        }
    } else {
        param_str_or(params, "turnId", "unknown-turn")
    };
    let item_id = if is_exec_legacy {
        match param_str(params, "approvalId") {
            Some(s) => s,
            None => match &legacy_call_id {
                Some(s) => s.clone(),
                None => "unknown-item".to_owned(),
            },
        }
    } else if crate::json::str_eq(method, "applyPatchApproval") {
        match &legacy_call_id {
            Some(s) => s.clone(),
            None => "unknown-item".to_owned(),
        }
    } else {
        param_str_or(params, "itemId", "unknown-item")
    };
    let command = if is_exec_legacy {
        crate::approval::read_shell_command(param_get(params, "command"))
    } else {
        param_str(params, "command")
    };
    let amendment = if is_modern_command {
        crate::approval::parse_execpolicy_amendment(param_get(params, "proposedExecpolicyAmendment"))
    } else {
        None
    };
    PendingApproval {
        id: aid,
        kind,
        thread_id,
        turn_id,
        item_id,
        requested_at: ts,
        reason: param_str(params, "reason"),
        command,
        cwd: param_str(params, "cwd"),
        grant_root: param_str(params, "grantRoot"),
        proposed_execpolicy_amendment: amendment,
    }
}

impl AppServerBridge {
    /// Materializes an inbound approval request: a fresh bridge-minted id
    /// (wall-clock millis, a dash, the approval counter), the pending
    /// entry remembering the subprocess request id and the wire format the
    /// reply must use, and one `bridge/approval.requested` broadcast.
    pub fn handle_approval_request(
        &mut self,
        method: &str,
        id: JsonValue,
        params: Option<&JsonValue>,
    ) -> (effects: Vec<BridgeEffect>)
        requires
            spec_is_approval_method(method@),
            old(self).approval_counter < u64::MAX,
        ensures
            spec_approval_transition(
                *old(self),
                *final(self),
                method@,
                id@,
                crate::approval::spec_of_opt(params),
                effects@,
            ),
    {
        let ms = crate::clock::now_timestamp_millis();
        let ts = crate::clock::now_iso();
        let counter = self.approval_counter;
        self.approval_counter = counter + 1;
        let ms_str = crate::numeric::i64_to_string(ms);
        let counter_str = crate::numeric::u64_to_string(counter);
        let with_dash = crate::text::concat_str(ms_str.as_str(), "-");
        let aid = crate::text::concat_str(with_dash.as_str(), counter_str.as_str());
        proof {
            reveal_strlit("-");
            assert("-"@ =~= seq!['-']);
            assert(aid@ =~= crate::numeric::spec_i64_string(ms as int) + seq!['-']
                + spec_u64_string(counter as int));
        }
        let format = if crate::json::str_eq(method, "applyPatchApproval") || crate::json::str_eq(
            method,
            "execCommandApproval",
        ) {
            ApprovalResponseFormat::Legacy
        } else {
            ApprovalResponseFormat::Modern
        };
        let approval = build_approval(method, params, aid.clone(), ts);
        let payload = crate::approval::approval_to_json(&approval);
        let entry = PendingApprovalEntry {
            app_server_request_id: id,
            response_format: format,
            approval,
        };
        let ghost prev = self.pending_approvals@;
        self.pending_approvals.push((aid, entry));
        proof {
            assert(self.pending_approvals@.drop_last() =~= prev);
            assert(self.pending_approvals@.last().0 == aid);
            assert(self.pending_approvals@.last().1.approval@ == spec_build_approval(
                method@,
                crate::approval::spec_of_opt(params),
                aid@,
                ts@,
            ));
        }
        let mut effects: Vec<BridgeEffect> = Vec::new();
        effects.push(BridgeEffect::Broadcast("bridge/approval.requested".to_owned(), payload));
        effects
    }

    /// Materializes an inbound user-input request and broadcasts
    /// `bridge/userInput.requested`.
    pub fn handle_user_input_request(
        &mut self,
        id: JsonValue,
        params: Option<&JsonValue>,
    ) -> (effects: Vec<BridgeEffect>)
        requires
            old(self).user_input_counter < u64::MAX,
        ensures
            spec_user_input_transition(
                *old(self),
                *final(self),
                id@,
                crate::approval::spec_of_opt(params),
                effects@,
            ),
    {
        let ms = crate::clock::now_timestamp_millis();
        let ts = crate::clock::now_iso();
        let counter = self.user_input_counter;
        self.user_input_counter = counter + 1;
        let ms_str = crate::numeric::i64_to_string(ms);
        let counter_str = crate::numeric::u64_to_string(counter);
        let prefix = crate::text::concat_str("request-user-input-", ms_str.as_str());
        let with_dash = crate::text::concat_str(prefix.as_str(), "-");
        let rid = crate::text::concat_str(with_dash.as_str(), counter_str.as_str());
        proof {
            reveal_strlit("-");
            assert("-"@ =~= seq!['-']);
            assert(rid@ =~= "request-user-input-"@ + crate::numeric::spec_i64_string(ms as int)
                + seq!['-'] + spec_u64_string(counter as int));
        }
        let request = crate::userinput::PendingUserInputRequest {
            id: rid.clone(),
            thread_id: param_str_or(params, "threadId", "unknown-thread"),
            turn_id: param_str_or(params, "turnId", "unknown-turn"),
            item_id: param_str_or(params, "itemId", "unknown-item"),
            requested_at: ts,
            questions: crate::userinput::parse_user_input_questions(param_get(params, "questions")),
        };
        let payload = crate::userinput::user_input_to_json(&request);
        let entry = PendingUserInputEntry { app_server_request_id: id, request };
        let ghost prev = self.pending_user_inputs@;
        self.pending_user_inputs.push((rid, entry));
        proof {
            assert(self.pending_user_inputs@.drop_last() =~= prev);
        }
        let mut effects: Vec<BridgeEffect> = Vec::new();
        effects.push(BridgeEffect::Broadcast("bridge/userInput.requested".to_owned(), payload));
        effects
    }
}

/// The refusal text for a dynamic tool call.
pub open spec fn spec_tool_call_message() -> Seq<char> {
    "Dynamic tool calls are not supported by clawdex-mobile bridge"@
}

/// The notification broadcast for an unsupported dynamic tool call.
pub open spec fn spec_tool_call_notification(ts: Seq<char>, params: Option<SpecJson>) -> SpecJson {
    SpecJson::Obj(
        seq![
            ("requestedAt"@, SpecJson::Str(ts)),
            ("message"@, SpecJson::Str(spec_tool_call_message())),
            ("request"@, params.unwrap_or(SpecJson::Null)),
        ],
    )
}

/// The structured refusal written back for a dynamic tool call.
pub open spec fn spec_tool_call_reply(id: SpecJson) -> SpecJson {
    SpecJson::Obj(
        seq![
            ("id"@, id),
            (
                "result"@,
                SpecJson::Obj(
                    seq![
                        ("success"@, SpecJson::Bool(false)),
                        (
                            "contentItems"@,
                            SpecJson::Arr(
                                seq![
                                    SpecJson::Obj(
                                        seq![
                                            ("type"@, SpecJson::Str("inputText"@)),
                                            ("text"@, SpecJson::Str(spec_tool_call_message())),
                                        ],
                                    ),
                                ],
                            ),
                        ),
                    ],
                ),
            ),
        ],
    )
}

/// Everything an inbound approval request does: the other registries and
/// counters stay put, the approval counter advances, and exactly one
/// entry is appended — keyed by wall-clock millis, a dash and the old
/// counter — capturing the subprocess request id, the wire format the
/// later reply must use, and the materialized approval; the one effect
/// broadcasts `bridge/approval.requested` with that approval, and
/// nothing is written to the subprocess.
pub open spec fn spec_approval_transition(
    pre: AppServerBridge,
    post: AppServerBridge,
    method: Seq<char>,
    id: SpecJson,
    params: Option<SpecJson>,
    effects: Seq<BridgeEffect>,
) -> bool {
    &&& post.next_request_id == pre.next_request_id
    &&& post.pending_requests == pre.pending_requests
    &&& post.internal_waiters == pre.internal_waiters
    &&& post.pending_user_inputs == pre.pending_user_inputs
    &&& post.user_input_counter == pre.user_input_counter
    &&& post.approval_counter == pre.approval_counter + 1
    &&& post.pending_approvals@.len() == pre.pending_approvals@.len() + 1
    &&& post.pending_approvals@.drop_last() == pre.pending_approvals@
    &&& ({
        let entry = post.pending_approvals@.last();
        let fmt = if spec_is_legacy_approval_method(method) {
            ApprovalResponseFormat::Legacy
        } else {
            ApprovalResponseFormat::Modern
        };
        &&& entry.1.app_server_request_id@ == id
        &&& entry.1.response_format == fmt
        &&& entry.0@ == entry.1.approval@.id
        &&& (exists|ms: int, ts: Seq<char>|
            entry.0@ == crate::numeric::spec_i64_string(ms) + seq!['-']
                + spec_u64_string(pre.approval_counter as int)
                && entry.1.approval@ == spec_build_approval(method, params, entry.0@, ts))
        &&& effects.len() == 1
        &&& (effects[0] matches BridgeEffect::Broadcast(m, payload) && m@
            == "bridge/approval.requested"@ && payload@
            == crate::approval::spec_approval_json(entry.1.approval@))
    })
}

/// Everything an inbound user-input request does: one entry is appended
/// under a `request-user-input-` key carrying the subprocess request id,
/// the thread/turn/item ids from the params (with the unknown defaults)
/// and the parsed questions; the one effect broadcasts
/// `bridge/userInput.requested`, and nothing is written back.
pub open spec fn spec_user_input_transition(
    pre: AppServerBridge,
    post: AppServerBridge,
    id: SpecJson,
    params: Option<SpecJson>,
    effects: Seq<BridgeEffect>,
) -> bool {
    &&& post.next_request_id == pre.next_request_id
    &&& post.pending_requests == pre.pending_requests
    &&& post.internal_waiters == pre.internal_waiters
    &&& post.pending_approvals == pre.pending_approvals
    &&& post.approval_counter == pre.approval_counter
    &&& post.user_input_counter == pre.user_input_counter + 1
    &&& post.pending_user_inputs@.len() == pre.pending_user_inputs@.len() + 1
    &&& post.pending_user_inputs@.drop_last() == pre.pending_user_inputs@
    &&& ({
        let entry = post.pending_user_inputs@.last();
        &&& entry.1.app_server_request_id@ == id
        &&& entry.0@ == entry.1.request@.id
        &&& (exists|ms: int|
            entry.0@ == "request-user-input-"@ + #[trigger] crate::numeric::spec_i64_string(ms)
                + seq!['-'] + spec_u64_string(pre.user_input_counter as int))
        &&& entry.1.request@.thread_id == spec_or_else(
            spec_param_str(params, "threadId"@),
            "unknown-thread"@,
        )
        &&& entry.1.request@.turn_id == spec_or_else(
            spec_param_str(params, "turnId"@),
            "unknown-turn"@,
        )
        &&& entry.1.request@.item_id == spec_or_else(
            spec_param_str(params, "itemId"@),
            "unknown-item"@,
        )
        &&& entry.1.request@.questions == crate::userinput::spec_parse_questions(
            spec_param_get(params, "questions"@),
        )
        &&& effects.len() == 1
        &&& (effects[0] matches BridgeEffect::Broadcast(m, payload) && m@
            == "bridge/userInput.requested"@ && payload@
            == crate::userinput::spec_user_input_json(entry.1.request@))
    })
}

/// What refusing a dynamic tool call emits: the
/// `bridge/tool.call.unsupported` broadcast carrying the request, then
/// exactly one structured `success: false` reply line — and nothing
/// else.
pub open spec fn spec_tool_call_effects(
    id: SpecJson,
    params: Option<SpecJson>,
    effects: Seq<BridgeEffect>,
) -> bool {
    &&& effects.len() == 2
    &&& (exists|ts: Seq<char>|
        effects[0] matches BridgeEffect::Broadcast(m, payload) && m@
            == "bridge/tool.call.unsupported"@ && payload@
            == #[trigger] spec_tool_call_notification(ts, params))
    &&& (effects[1] matches BridgeEffect::WriteLine(line) && line@ == spec_tool_call_reply(id))
}

/// What a credential refresh emits: with both a configured access token
/// and account id, exactly one synthesized result line; otherwise the
/// `refresh.required` broadcast followed by exactly one reserved error
/// line.
pub open spec fn spec_refresh_effects(
    id: SpecJson,
    params: Option<SpecJson>,
    access_token: Option<Seq<char>>,
    account_id: Option<Seq<char>>,
    plan_type: Option<Seq<char>>,
    effects: Seq<BridgeEffect>,
) -> bool {
    match (access_token, account_id) {
        (Some(token), Some(account)) => effects.len() == 1 && (effects[0]
            matches BridgeEffect::WriteLine(line) && line@ == spec_refresh_ok_line(
            id,
            token,
            account,
            plan_type,
        )),
        _ => {
            &&& effects.len() == 2
            &&& (exists|ts: Seq<char>|
                effects[0] matches BridgeEffect::Broadcast(m, payload) && m@
                    == "bridge/account.chatgptAuthTokens.refresh.required"@ && payload@
                    == #[trigger] spec_refresh_required_notification(ts, params))
            &&& (effects[1] matches BridgeEffect::WriteLine(line) && line@
                == spec_refresh_err_line(id))
        },
    }
}

/// Refuses a dynamic tool call: one broadcast telling clients, and one
/// structured `success: false` reply to the subprocess.
pub fn handle_tool_call_request(id: JsonValue, params: Option<&JsonValue>) -> (effects: Vec<
    BridgeEffect,
>)
    ensures
        spec_tool_call_effects(id@, crate::approval::spec_of_opt(params), effects@),
{
    let ts = crate::clock::now_iso();
    let request = match params {
        Some(p) => clone_json(p),
        None => JsonValue::Null,
    };
    let message = "Dynamic tool calls are not supported by clawdex-mobile bridge";
    let payload = crate::json::obj3(
        "requestedAt",
        JsonValue::Str(ts),
        "message",
        crate::json::jstr(message),
        "request",
        request,
    );
    proof {
        let target = spec_tool_call_notification(ts@, crate::approval::spec_of_opt(params));
        assert(payload@ is Obj && target is Obj);
        assert(payload@->Obj_0.len() == 3 && target->Obj_0.len() == 3);
        assert(payload@->Obj_0[0] == target->Obj_0[0]);
        assert(payload@->Obj_0[1] == target->Obj_0[1]);
        assert(payload@->Obj_0[2] == target->Obj_0[2]);
        assert(payload@->Obj_0 =~= target->Obj_0);
        assert(payload@ == target);
    }
    let item = obj2("type", crate::json::jstr("inputText"), "text", crate::json::jstr(message));
    let mut items: Vec<JsonValue> = Vec::new();
    items.push(item);
    let arr = crate::json::arr_from_items(items);
    proof {
        assert(arr@->Arr_0 =~= spec_tool_call_reply(id@)->Obj_0[1].1->Obj_0[1].1->Arr_0);
    }
    let result = obj2("success", JsonValue::Bool(false), "contentItems", arr);
    let line = obj2("id", id, "result", result);
    proof {
        assert(line@ =~~= spec_tool_call_reply(id@));
    }
    let mut effects: Vec<BridgeEffect> = Vec::new();
    effects.push(BridgeEffect::Broadcast("bridge/tool.call.unsupported".to_owned(), payload));
    effects.push(BridgeEffect::WriteLine(line));
    effects
}

/// The synthesized token refresh result.
pub open spec fn spec_refresh_ok_line(
    id: SpecJson,
    token: Seq<char>,
    account: Seq<char>,
    plan: Option<Seq<char>>,
) -> SpecJson {
    SpecJson::Obj(
        seq![
            ("id"@, id),
            (
                "result"@,
                SpecJson::Obj(
                    seq![
                        ("accessToken"@, SpecJson::Str(token)),
                        ("chatgptAccountId"@, SpecJson::Str(account)),
                        (
                            "chatgptPlanType"@,
                            match plan {
                                Some(p) => SpecJson::Str(p),
                                None => SpecJson::Null,
                            },
                        ),
                    ],
                ),
            ),
        ],
    )
}

/// The notification asking the operator to refresh credentials.
pub open spec fn spec_refresh_required_notification(ts: Seq<char>, params: Option<SpecJson>)
    -> SpecJson {
    SpecJson::Obj(
        seq![
            ("requestedAt"@, SpecJson::Str(ts)),
            (
                "reason"@,
                SpecJson::Str(
                    spec_or_else(
                        spec_param_str(params, "reason"@),
                        "unauthorized"@,
                    ),
                ),
            ),
        ],
    )
}

/// The error written back when no credentials are configured.
pub open spec fn spec_refresh_err_line(id: SpecJson) -> SpecJson {
    spec_server_error_reply(
        id,
        -32001i64,
        "account/chatgptAuthTokens/refresh is not configured (set BRIDGE_CHATGPT_ACCESS_TOKEN and BRIDGE_CHATGPT_ACCOUNT_ID)"@,
    )
}

/// Answers a credential refresh request: with both a configured access
/// token and account id the synthesized result is written back; otherwise
/// clients are told a refresh is required and the subprocess gets the
/// reserved error.
pub fn handle_token_refresh_request(
    id: JsonValue,
    params: Option<&JsonValue>,
    access_token: Option<&String>,
    account_id: Option<&String>,
    plan_type: Option<&String>,
) -> (effects: Vec<BridgeEffect>)
    ensures
        spec_refresh_effects(
            id@,
            crate::approval::spec_of_opt(params),
            match access_token {
                Some(t) => Some(t@),
                None => None,
            },
            match account_id {
                Some(a) => Some(a@),
                None => None,
            },
            match plan_type {
                Some(p) => Some(p@),
                None => None,
            },
            effects@,
        ),
{
    let mut effects: Vec<BridgeEffect> = Vec::new();
    match (access_token, account_id) {
        (Some(token), Some(account)) => {
            let plan = match plan_type {
                Some(p) => JsonValue::Str((*p).clone()),
                None => JsonValue::Null,
            };
            let result = crate::json::obj3(
                "accessToken",
                JsonValue::Str((*token).clone()),
                "chatgptAccountId",
                JsonValue::Str((*account).clone()),
                "chatgptPlanType",
                plan,
            );
            let line = obj2("id", id, "result", result);
            proof {
                let target = spec_refresh_ok_line(
                    id@,
                    token@,
                    account@,
                    match plan_type {
                        Some(p) => Some(p@),
                        None => None,
                    },
                );
                assert(result@->Obj_0 =~= target->Obj_0[1].1->Obj_0);
                assert(result@ == target->Obj_0[1].1);
                assert(line@->Obj_0 =~= target->Obj_0);
                assert(line@ == target);
            }
            effects.push(BridgeEffect::WriteLine(line));
        },
        _ => {
            let ts = crate::clock::now_iso();
            let reason = param_str_or(params, "reason", "unauthorized");
            let payload = obj2(
                "requestedAt",
                JsonValue::Str(ts),
                "reason",
                JsonValue::Str(reason),
            );
            proof {
                assert(payload@ =~~= spec_refresh_required_notification(
                    ts@,
                    crate::approval::spec_of_opt(params),
                ));
            }
            effects.push(
                BridgeEffect::Broadcast(
                    "bridge/account.chatgptAuthTokens.refresh.required".to_owned(),
                    payload,
                ),
            );
            let line = build_server_error_reply(
                &id,
                -32001,
                "account/chatgptAuthTokens/refresh is not configured (set BRIDGE_CHATGPT_ACCESS_TOKEN and BRIDGE_CHATGPT_ACCOUNT_ID)",
            );
            effects.push(BridgeEffect::WriteLine(line));
        },
    }
    effects
}

/// The error written back for a server request method the bridge does not
/// understand.
pub open spec fn spec_unsupported_line(id: SpecJson, method: Seq<char>) -> SpecJson {
    spec_server_error_reply(
        id,
        -32601i64,
        "Unsupported server request method: "@ + method,
    )
}

/// Refuses an unknown server-originated method.
pub fn unsupported_server_request(id: JsonValue, method: &str) -> (effects: Vec<BridgeEffect>)
    ensures
        effects@.len() == 1,
        effects@[0] matches BridgeEffect::WriteLine(line) && line@ == spec_unsupported_line(
            id@,
            method@,
        ),
{
    let message = crate::text::concat_str("Unsupported server request method: ", method);
    let line = build_server_error_reply(&id, -32601, message.as_str());
    let mut effects: Vec<BridgeEffect> = Vec::new();
    effects.push(BridgeEffect::WriteLine(line));
    effects
}

/// Index of the first entry with the string key.
pub open spec fn spec_find_skey<T>(s: Seq<(String, T)>, key: Seq<char>) -> Option<int>
    decreases s.len(),
{
    if s.len() == 0 {
        None
    } else if s[0].0@ == key {
        Some(0int)
    } else {
        match spec_find_skey(s.drop_first(), key) {
            Some(i) => Some(i + 1),
            None => None,
        }
    }
}

/// Characterization of `spec_find_skey`.
pub proof fn lemma_find_skey<T>(s: Seq<(String, T)>, key: Seq<char>)
    ensures
        match spec_find_skey(s, key) {
            Some(i) => 0 <= i < s.len() && s[i].0@ == key && (forall|j: int|
                0 <= j < i ==> s[j].0@ != key),
            None => forall|j: int| 0 <= j < s.len() ==> s[j].0@ != key,
        },
    decreases s.len(),
{
    if s.len() > 0 && s[0].0@ != key {
        lemma_find_skey(s.drop_first(), key);
        let rest = s.drop_first();
        match spec_find_skey(rest, key) {
            Some(i) => {
                assert(s[i + 1].0 == rest[i].0);
                assert forall|j: int| 0 <= j < i + 1 implies s[j].0@ != key by {
                    if j > 0 {
                        assert(rest[j - 1].0@ != key);
                    }
                }
            },
            None => {
                assert forall|j: int| 0 <= j < s.len() implies s[j].0@ != key by {
                    if j > 0 {
                        assert(rest[j - 1].0@ != key);
                    }
                }
            },
        }
    }
}

/// Finds the first entry with the string key.
#[verifier::loop_isolation(false)]
fn find_skey<T>(v: &Vec<(String, T)>, key: &str) -> (r: Option<usize>)
    ensures
        match r {
            Some(i) => spec_find_skey(v@, key@) == Some(i as int),
            None => spec_find_skey(v@, key@) is None,
        },
{
    proof {
        lemma_find_skey(v@, key@);
    }
    let mut i: usize = 0;
    while i < v.len()
        invariant
            0 <= i <= v@.len(),
            forall|j: int| 0 <= j < i ==> v@[j].0@ != key@,
        decreases v@.len() - i,
    {
        if crate::json::str_eq(v[i].0.as_str(), key) {
            proof {
                match spec_find_skey(v@, key@) {
                    Some(k) => {
                        if k < i {
                            assert(v@[k].0@ == key@);
                        }
                        if k > i {
                            assert(v@[i as int].0@ != key@);
                        }
                    },
                    None => {
                        assert(v@[i as int].0@ != key@);
                    },
                }
            }
            return Some(i);
        }
        i += 1;
    }
    proof {
        match spec_find_skey(v@, key@) {
            Some(k) => {
                assert(v@[k].0@ != key@);
            },
            None => {},
        }
    }
    None
}

/// The outcome of resolving a pending interaction.
#[derive(Debug)]
pub enum Resolution<T> {
    /// No pending entry under that id.
    NotFound,
    /// The decision payload is not an accepted spelling; nothing changed.
    InvalidDecision,
    /// The entry was removed; the effects write the reply line to the
    /// subprocess and broadcast the resolution. If the write fails, the
    /// caller restores the removed entry and may retry.
    Resolved(T, Vec<BridgeEffect>),
}

/// The `{id, result: {decision}}` line answering an approval.
pub open spec fn spec_approval_reply_line(request_id: SpecJson, wire: SpecJson) -> SpecJson {
    SpecJson::Obj(
        seq![
            ("id"@, request_id),
            ("result"@, SpecJson::Obj(seq![("decision"@, wire)])),
        ],
    )
}

/// The `bridge/approval.resolved` payload.
pub open spec fn spec_approval_resolved_payload(
    aid: Seq<char>,
    thread_id: Seq<char>,
    decision: SpecJson,
    ts: Seq<char>,
) -> SpecJson {
    SpecJson::Obj(
        seq![
            ("id"@, SpecJson::Str(aid)),
            ("threadId"@, SpecJson::Str(thread_id)),
            ("decision"@, decision),
            ("resolvedAt"@, SpecJson::Str(ts)),
        ],
    )
}

/// The `{id, result: {answers}}` line answering a user-input request.
pub open spec fn spec_user_input_reply_line(request_id: SpecJson, answers: SpecJson) -> SpecJson {
    SpecJson::Obj(seq![("id"@, request_id), ("result"@, answers)])
}

/// The `bridge/userInput.resolved` payload.
pub open spec fn spec_user_input_resolved_payload(
    rid: Seq<char>,
    thread_id: Seq<char>,
    turn_id: Seq<char>,
    ts: Seq<char>,
) -> SpecJson {
    SpecJson::Obj(
        seq![
            ("id"@, SpecJson::Str(rid)),
            ("threadId"@, SpecJson::Str(thread_id)),
            ("turnId"@, SpecJson::Str(turn_id)),
            ("resolvedAt"@, SpecJson::Str(ts)),
        ],
    )
}

impl AppServerBridge {
    /// Resolves a pending approval: the entry is removed and exactly one
    /// reply line for it is handed out, rendered in the wire shape the
    /// entry recorded; an unknown id finds nothing, and a decision that is
    /// no accepted spelling leaves the registry untouched.
    pub fn resolve_approval(&mut self, approval_id: &str, decision: &JsonValue) -> (r: Resolution<
        PendingApprovalEntry,
    >)
        ensures
            final(self).next_request_id == old(self).next_request_id,
            final(self).pending_requests == old(self).pending_requests,
            final(self).internal_waiters == old(self).internal_waiters,
            final(self).pending_user_inputs == old(self).pending_user_inputs,
            final(self).approval_counter == old(self).approval_counter,
            final(self).user_input_counter == old(self).user_input_counter,
            match spec_find_skey(old(self).pending_approvals@, approval_id@) {
                None => *final(self) == *old(self) && r is NotFound,
                Some(i) => match crate::approval::spec_parse_approval_decision(decision@) {
                    None => *final(self) == *old(self) && r is InvalidDecision,
                    Some(d) => {
                        &&& final(self).pending_approvals@ == old(
                            self,
                        ).pending_approvals@.remove(i)
                        &&& (r matches Resolution::Resolved(entry, effects) && {
                            &&& entry == old(self).pending_approvals@[i].1
                            &&& effects@.len() == 2
                            &&& (effects@[0] matches BridgeEffect::WriteLine(line) && line@
                                == spec_approval_reply_line(
                                entry.app_server_request_id@,
                                crate::approval::spec_decision_wire(d, entry.response_format),
                            ))
                            &&& (exists|ts: Seq<char>|
                                effects@[1] matches BridgeEffect::Broadcast(m, payload) && m@
                                    == "bridge/approval.resolved"@ && payload@
                                    == #[trigger] spec_approval_resolved_payload(
                                    entry.approval@.id,
                                    entry.approval@.thread_id,
                                    decision@,
                                    ts,
                                ))
                        })
                    },
                },
            },
    {
        let i = match find_skey(&self.pending_approvals, approval_id) {
            Some(i) => i,
            None => {
                return Resolution::NotFound;
            },
        };
        proof {
            lemma_find_skey(self.pending_approvals@, approval_id@);
        }
        let wire = match crate::approval::approval_decision_to_response_value(
            decision,
            self.pending_approvals[i].1.response_format,
        ) {
            Some(wire) => wire,
            None => {
                return Resolution::InvalidDecision;
            },
        };
        let (_, entry) = self.pending_approvals.remove(i);
        let ts = crate::clock::now_iso();
        let line = obj2(
            "id",
            clone_json(&entry.app_server_request_id),
            "result",
            obj1("decision", wire),
        );
        proof {
            assert(line@->Obj_0 =~= spec_approval_reply_line(
                entry.app_server_request_id@,
                crate::approval::spec_decision_wire(
                    crate::approval::spec_parse_approval_decision(decision@).unwrap(),
                    entry.response_format,
                ),
            )->Obj_0);
        }
        let payload = crate::json::obj4(
            "id",
            JsonValue::Str(entry.approval.id.clone()),
            "threadId",
            JsonValue::Str(entry.approval.thread_id.clone()),
            "decision",
            clone_json(decision),
            "resolvedAt",
            JsonValue::Str(ts),
        );
        proof {
            assert(payload@->Obj_0 =~= spec_approval_resolved_payload(
                entry.approval@.id,
                entry.approval@.thread_id,
                decision@,
                ts@,
            )->Obj_0);
        }
        let mut effects: Vec<BridgeEffect> = Vec::new();
        effects.push(BridgeEffect::WriteLine(line));
        effects.push(BridgeEffect::Broadcast("bridge/approval.resolved".to_owned(), payload));
        Resolution::Resolved(entry, effects)
    }

    /// Puts an approval entry back, verbatim, after its reply line could
    /// not be written; the client may then retry. Re-insertion appends,
    /// so the registry's contents are restored exactly while the
    /// keyed entry may sit at a new position.
    pub fn restore_pending_approval(&mut self, approval_id: String, entry: PendingApprovalEntry)
        ensures
            final(self).pending_approvals@ == old(self).pending_approvals@.push(
                (approval_id, entry),
            ),
            final(self).next_request_id == old(self).next_request_id,
            final(self).pending_requests == old(self).pending_requests,
            final(self).internal_waiters == old(self).internal_waiters,
            final(self).pending_user_inputs == old(self).pending_user_inputs,
            final(self).approval_counter == old(self).approval_counter,
            final(self).user_input_counter == old(self).user_input_counter,
    {
        self.pending_approvals.push((approval_id, entry));
    }

    /// Resolves a pending user-input request with validated answers: the
    /// entry is removed and exactly one reply line for it is handed out.
    pub fn resolve_user_input(&mut self, request_id: &str, answers: &Vec<(String, Vec<String>)>)
        -> (r: Resolution<PendingUserInputEntry>)
        ensures
            final(self).next_request_id == old(self).next_request_id,
            final(self).pending_requests == old(self).pending_requests,
            final(self).internal_waiters == old(self).internal_waiters,
            final(self).pending_approvals == old(self).pending_approvals,
            final(self).approval_counter == old(self).approval_counter,
            final(self).user_input_counter == old(self).user_input_counter,
            match spec_find_skey(old(self).pending_user_inputs@, request_id@) {
                None => *final(self) == *old(self) && r is NotFound,
                Some(i) => {
                    &&& final(self).pending_user_inputs@ == old(self).pending_user_inputs@.remove(
                        i,
                    )
                    &&& (r matches Resolution::Resolved(entry, effects) && {
                        &&& entry == old(self).pending_user_inputs@[i].1
                        &&& effects@.len() == 2
                        &&& (effects@[0] matches BridgeEffect::WriteLine(line) && line@
                            == spec_user_input_reply_line(
                            entry.app_server_request_id@,
                            crate::userinput::spec_answers_json(
                                crate::userinput::answers_view(answers@),
                            ),
                        ))
                        &&& (exists|ts: Seq<char>|
                            effects@[1] matches BridgeEffect::Broadcast(m, payload) && m@
                                == "bridge/userInput.resolved"@ && payload@
                                == #[trigger] spec_user_input_resolved_payload(
                                entry.request@.id,
                                entry.request@.thread_id,
                                entry.request@.turn_id,
                                ts,
                            ))
                    })
                },
            },
    {
        let i = match find_skey(&self.pending_user_inputs, request_id) {
            Some(i) => i,
            None => {
                return Resolution::NotFound;
            },
        };
        proof {
            lemma_find_skey(self.pending_user_inputs@, request_id@);
        }
        let (_, entry) = self.pending_user_inputs.remove(i);
        let ts = crate::clock::now_iso();
        let answers_json = crate::userinput::answers_to_json(answers);
        let line = obj2("id", clone_json(&entry.app_server_request_id), "result", answers_json);
        proof {
            assert(line@->Obj_0 =~= spec_user_input_reply_line(
                entry.app_server_request_id@,
                crate::userinput::spec_answers_json(crate::userinput::answers_view(answers@)),
            )->Obj_0);
        }
        let payload = crate::json::obj4(
            "id",
            JsonValue::Str(entry.request.id.clone()),
            "threadId",
            JsonValue::Str(entry.request.thread_id.clone()),
            "turnId",
            JsonValue::Str(entry.request.turn_id.clone()),
            "resolvedAt",
            JsonValue::Str(ts),
        );
        proof {
            assert(payload@->Obj_0 =~= spec_user_input_resolved_payload(
                entry.request@.id,
                entry.request@.thread_id,
                entry.request@.turn_id,
                ts@,
            )->Obj_0);
        }
        let mut effects: Vec<BridgeEffect> = Vec::new();
        effects.push(BridgeEffect::WriteLine(line));
        effects.push(BridgeEffect::Broadcast("bridge/userInput.resolved".to_owned(), payload));
        Resolution::Resolved(entry, effects)
    }

    /// Puts a user-input entry back, verbatim, after a failed write.
    pub fn restore_pending_user_input(&mut self, request_id: String, entry: PendingUserInputEntry)
        ensures
            final(self).pending_user_inputs@ == old(self).pending_user_inputs@.push(
                (request_id, entry),
            ),
            final(self).next_request_id == old(self).next_request_id,
            final(self).pending_requests == old(self).pending_requests,
            final(self).internal_waiters == old(self).internal_waiters,
            final(self).pending_approvals == old(self).pending_approvals,
            final(self).approval_counter == old(self).approval_counter,
            final(self).user_input_counter == old(self).user_input_counter,
    {
        self.pending_user_inputs.push((request_id, entry));
    }

    /// The pending approvals, newest-minted first — the reverse of
    /// insertion order. This coincides with descending `requested_at`
    /// whenever the wall clock did not regress between mints; the
    /// timestamps themselves are clock values no contract can order.
    #[verifier::loop_isolation(false)]
    pub fn list_pending_approvals(&self) -> (r: Vec<PendingApproval>)
        ensures
            r@.len() == self.pending_approvals@.len(),
            forall|i: int|
                0 <= i < r@.len() ==> #[trigger] r@[i]@ == self.pending_approvals@[r@.len() - 1
                    - i].1.approval@,
    {
        let mut out: Vec<PendingApproval> = Vec::new();
        let mut i: usize = self.pending_approvals.len();
        while i > 0
            invariant
                0 <= i <= self.pending_approvals@.len(),
                out@.len() == self.pending_approvals@.len() - i,
                forall|j: int|
                    0 <= j < out@.len() ==> #[trigger] out@[j]@ == self.pending_approvals@[
                        self.pending_approvals@.len() - 1 - j].1.approval@,
            decreases i,
        {
            i -= 1;
            let copy = clone_approval(&self.pending_approvals[i].1.approval);
            out.push(copy);
        }
        out
    }

    /// Routes one line from the subprocess: a request (method and id) goes
    /// to the server-request handlers, a bare method is re-broadcast as a
    /// notification, a bare id is a response, and anything else is
    /// dropped.
    pub fn handle_incoming(
        &mut self,
        value: &JsonValue,
        access_token: Option<&String>,
        account_id: Option<&String>,
        plan_type: Option<&String>,
    ) -> (effects: Vec<BridgeEffect>)
        requires
            old(self).wf(),
            old(self).approval_counter < u64::MAX,
            old(self).user_input_counter < u64::MAX,
        ensures
            final(self).wf(),
            ({
                let method = crate::json::spec_read_string(value@.get("method"@));
                let id = value@.get("id"@);
                let params = value@.get("params"@);
                match (method, id) {
                    (Some(m), Some(idv)) => {
                        &&& (spec_is_approval_method(m) ==> spec_approval_transition(
                            *old(self),
                            *final(self),
                            m,
                            idv,
                            params,
                            effects@,
                        ))
                        &&& (spec_is_user_input_method(m) ==> spec_user_input_transition(
                            *old(self),
                            *final(self),
                            idv,
                            params,
                            effects@,
                        ))
                        &&& (m == "item/tool/call"@ ==> *final(self) == *old(self)
                            && spec_tool_call_effects(idv, params, effects@))
                        &&& (m == "account/chatgptAuthTokens/refresh"@ ==> *final(self) == *old(
                            self,
                        ) && spec_refresh_effects(
                            idv,
                            params,
                            match access_token {
                                Some(t) => Some(t@),
                                None => None,
                            },
                            match account_id {
                                Some(a) => Some(a@),
                                None => None,
                            },
                            match plan_type {
                                Some(p) => Some(p@),
                                None => None,
                            },
                            effects@,
                        ))
                        &&& (!spec_is_approval_method(m) && !spec_is_user_input_method(m) && m
                            != "item/tool/call"@ && m != "account/chatgptAuthTokens/refresh"@
                            ==> (*final(self) == *old(self) && effects@.len() == 1 && (effects@[0]
                            matches BridgeEffect::WriteLine(line) && line@
                            == spec_unsupported_line(idv, m))))
                    },
                    (Some(m), None) => *final(self) == *old(self) && effects@.len() == 1 && (
                    effects@[0] matches BridgeEffect::Broadcast(bm, payload) && bm@ == m && payload@
                        == value@.get("params"@).unwrap_or(SpecJson::Null)),
                    (None, Some(_)) => spec_response_transition(
                        *old(self),
                        *final(self),
                        value@,
                        effects@,
                    ),
                    (None, None) => *final(self) == *old(self) && effects@.len() == 0,
                }
            }),
    {
        let method = crate::json::read_string(value.get("method"));
        let id = match value.get("id") {
            Some(id) => Some(clone_json(id)),
            None => None,
        };
        match (method, id) {
            (Some(m), Some(id)) => {
                let params = value.get("params");
                self.handle_server_request(m.as_str(), id, params, access_token, account_id, plan_type)
            },
            (Some(m), None) => {
                let params = match value.get("params") {
                    Some(p) => clone_json(p),
                    None => JsonValue::Null,
                };
                let mut effects: Vec<BridgeEffect> = Vec::new();
                effects.push(BridgeEffect::Broadcast(m, params));
                effects
            },
            (None, Some(_)) => self.handle_response(value),
            (None, None) => Vec::new(),
        }
    }

    /// Dispatches a server-originated request by method: the four approval
    /// spellings, the two user-input spellings, the dynamic tool call, the
    /// credential refresh, and the reserved error for everything else.
    pub fn handle_server_request(
        &mut self,
        method: &str,
        id: JsonValue,
        params: Option<&JsonValue>,
        access_token: Option<&String>,
        account_id: Option<&String>,
        plan_type: Option<&String>,
    ) -> (effects: Vec<BridgeEffect>)
        requires
            old(self).wf(),
            old(self).approval_counter < u64::MAX,
            old(self).user_input_counter < u64::MAX,
        ensures
            final(self).wf(),
            spec_is_approval_method(method@) ==> spec_approval_transition(
                *old(self),
                *final(self),
                method@,
                id@,
                crate::approval::spec_of_opt(params),
                effects@,
            ),
            spec_is_user_input_method(method@) ==> spec_user_input_transition(
                *old(self),
                *final(self),
                id@,
                crate::approval::spec_of_opt(params),
                effects@,
            ),
            method@ == "item/tool/call"@ ==> *final(self) == *old(self)
                && spec_tool_call_effects(id@, crate::approval::spec_of_opt(params), effects@),
            method@ == "account/chatgptAuthTokens/refresh"@ ==> *final(self) == *old(self)
                && spec_refresh_effects(
                id@,
                crate::approval::spec_of_opt(params),
                match access_token {
                    Some(t) => Some(t@),
                    None => None,
                },
                match account_id {
                    Some(a) => Some(a@),
                    None => None,
                },
                match plan_type {
                    Some(p) => Some(p@),
                    None => None,
                },
                effects@,
            ),
            !spec_is_approval_method(method@) && !spec_is_user_input_method(method@) && method@
                != "item/tool/call"@ && method@ != "account/chatgptAuthTokens/refresh"@ ==> (
            *final(self) == *old(self) && effects@.len() == 1 && (effects@[0]
                matches BridgeEffect::WriteLine(line) && line@ == spec_unsupported_line(
                id@,
                method@,
            ))),
    {
        proof {
            lemma_server_method_literals_distinct();
        }
        let is_approval = crate::json::str_eq(method, "item/commandExecution/requestApproval")
            || crate::json::str_eq(method, "item/fileChange/requestApproval")
            || crate::json::str_eq(method, "applyPatchApproval") || crate::json::str_eq(
            method,
            "execCommandApproval",
        );
        if is_approval {
            return self.handle_approval_request(method, id, params);
        }
        if crate::json::str_eq(method, "item/tool/requestUserInput") || crate::json::str_eq(
            method,
            "tool/requestUserInput",
        ) {
            return self.handle_user_input_request(id, params);
        }
        if crate::json::str_eq(method, "item/tool/call") {
            return handle_tool_call_request(id, params);
        }
        if crate::json::str_eq(method, "account/chatgptAuthTokens/refresh") {
            return handle_token_refresh_request(id, params, access_token, account_id, plan_type);
        }
        unsupported_server_request(id, method)
    }
}

/// Copies a pending approval.
fn clone_approval(a: &PendingApproval) -> (r: PendingApproval)
    ensures
        r@ == a@,
{
    PendingApproval {
        id: a.id.clone(),
        kind: a.kind.clone(),
        thread_id: a.thread_id.clone(),
        turn_id: a.turn_id.clone(),
        item_id: a.item_id.clone(),
        requested_at: a.requested_at.clone(),
        reason: clone_opt_string(&a.reason),
        command: clone_opt_string(&a.command),
        cwd: clone_opt_string(&a.cwd),
        grant_root: clone_opt_string(&a.grant_root),
        proposed_execpolicy_amendment: match &a.proposed_execpolicy_amendment {
            Some(tokens) => Some(clone_strings(tokens)),
            None => None,
        },
    }
}

/// Copies an optional string.
pub fn clone_opt_string(v: &Option<String>) -> (r: Option<String>)
    ensures
        crate::approval::opt_str_view(r) == crate::approval::opt_str_view(*v),
{
    match v {
        Some(s) => Some(s.clone()),
        None => None,
    }
}

/// Copies a string list.
#[verifier::loop_isolation(false)]
pub fn clone_strings(v: &Vec<String>) -> (r: Vec<String>)
    ensures
        r@ =~= v@,
{
    let mut out: Vec<String> = Vec::new();
    let mut i: usize = 0;
    while i < v.len()
        invariant
            0 <= i <= v@.len(),
            out@ =~= v@.take(i as int),
        decreases v@.len() - i,
    {
        out.push(v[i].clone());
        i += 1;
    }
    proof {
        assert(v@.take(v@.len() as int) =~= v@);
    }
    out
}

/// The eight server-request method names are pairwise distinct (their
/// lengths already differ).
proof fn lemma_server_method_literals_distinct()
    ensures
        "item/commandExecution/requestApproval"@ != "item/tool/requestUserInput"@,
        "item/commandExecution/requestApproval"@ != "tool/requestUserInput"@,
        "item/commandExecution/requestApproval"@ != "item/tool/call"@,
        "item/commandExecution/requestApproval"@ != "account/chatgptAuthTokens/refresh"@,
        "item/fileChange/requestApproval"@ != "item/tool/requestUserInput"@,
        "item/fileChange/requestApproval"@ != "tool/requestUserInput"@,
        "item/fileChange/requestApproval"@ != "item/tool/call"@,
        "item/fileChange/requestApproval"@ != "account/chatgptAuthTokens/refresh"@,
        "applyPatchApproval"@ != "item/tool/requestUserInput"@,
        "applyPatchApproval"@ != "tool/requestUserInput"@,
        "applyPatchApproval"@ != "item/tool/call"@,
        "applyPatchApproval"@ != "account/chatgptAuthTokens/refresh"@,
        "execCommandApproval"@ != "item/tool/requestUserInput"@,
        "execCommandApproval"@ != "tool/requestUserInput"@,
        "execCommandApproval"@ != "item/tool/call"@,
        "execCommandApproval"@ != "account/chatgptAuthTokens/refresh"@,
        "item/tool/requestUserInput"@ != "item/tool/call"@,
        "item/tool/requestUserInput"@ != "account/chatgptAuthTokens/refresh"@,
        "tool/requestUserInput"@ != "item/tool/call"@,
        "tool/requestUserInput"@ != "account/chatgptAuthTokens/refresh"@,
        "item/tool/call"@ != "account/chatgptAuthTokens/refresh"@,
{
    reveal_strlit("item/commandExecution/requestApproval");
    reveal_strlit("item/fileChange/requestApproval");
    reveal_strlit("applyPatchApproval");
    reveal_strlit("execCommandApproval");
    reveal_strlit("item/tool/requestUserInput");
    reveal_strlit("tool/requestUserInput");
    reveal_strlit("item/tool/call");
    reveal_strlit("account/chatgptAuthTokens/refresh");
    assert("item/commandExecution/requestApproval"@.len() == 37);
    assert("item/fileChange/requestApproval"@.len() == 31);
    assert("applyPatchApproval"@.len() == 18);
    assert("execCommandApproval"@.len() == 19);
    assert("item/tool/requestUserInput"@.len() == 26);
    assert("tool/requestUserInput"@.len() == 21);
    assert("item/tool/call"@.len() == 14);
    assert("account/chatgptAuthTokens/refresh"@.len() == 33);
}

/// The handshake request the bridge sends first.
pub open spec fn spec_initialize_request(init_id: u64) -> SpecJson {
    spec_request_line(
        init_id,
        "initialize"@,
        Some(
            SpecJson::Obj(
                seq![
                    (
                        "clientInfo"@,
                        SpecJson::Obj(
                            seq![
                                ("name"@, SpecJson::Str("clawdex-mobile-rust-bridge"@)),
                                ("title"@, SpecJson::Str("Clawdex Mobile Rust Bridge"@)),
                                ("version"@, SpecJson::Str("0.1.0"@)),
                            ],
                        ),
                    ),
                    (
                        "capabilities"@,
                        SpecJson::Obj(seq![("experimentalApi"@, SpecJson::Bool(true))]),
                    ),
                ],
            ),
        ),
    )
}

/// Builds the handshake request.
pub fn initialize_request(init_id: u64) -> (r: JsonValue)
    ensures
        r@ == spec_initialize_request(init_id),
{
    let client_info = crate::json::obj3(
        "name",
        crate::json::jstr("clawdex-mobile-rust-bridge"),
        "title",
        crate::json::jstr("Clawdex Mobile Rust Bridge"),
        "version",
        crate::json::jstr("0.1.0"),
    );
    let capabilities = obj1("experimentalApi", JsonValue::Bool(true));
    let params = obj2("clientInfo", client_info, "capabilities", capabilities);
    let r = crate::json::obj3(
        "id",
        JsonValue::UInt(init_id),
        "method",
        crate::json::jstr("initialize"),
        "params",
        params,
    );
    proof {
        assert(params@->Obj_0 =~= spec_initialize_request(init_id)->Obj_0[2].1->Obj_0);
        assert(params@ == spec_initialize_request(init_id)->Obj_0[2].1);
        assert(r@->Obj_0 =~= spec_initialize_request(init_id)->Obj_0);
        assert(r@ == spec_initialize_request(init_id));
    }
    r
}

/// The `initialized` notification that ends the handshake.
pub open spec fn spec_initialized_notification() -> SpecJson {
    SpecJson::Obj(
        seq![
            ("method"@, SpecJson::Str("initialized"@)),
            ("params"@, SpecJson::Obj(Seq::empty())),
        ],
    )
}

/// Builds the `initialized` notification.
pub fn initialized_notification() -> (r: JsonValue)
    ensures
        r@ == spec_initialized_notification(),
{
    let empty: Vec<(String, JsonValue)> = Vec::new();
    let params = crate::json::obj_from_fields(empty);
    let r = obj2("method", crate::json::jstr("initialized"), "params", params);
    proof {
        assert(params@->Obj_0 =~= Seq::<(Seq<char>, SpecJson)>::empty());
        assert(params@ == SpecJson::Obj(Seq::<(Seq<char>, SpecJson)>::empty()));
        assert(r@->Obj_0 =~= spec_initialized_notification()->Obj_0);
        assert(r@ == spec_initialized_notification());
    }
    r
}

/// Distinct keys stay distinct when a fresh id above them all is
/// appended — which is how `forward_request` extends the map, its
/// counter sitting above every recorded id.
pub proof fn lemma_forward_ids_stay_distinct<T>(s: Seq<(u64, T)>, entry: (u64, T))
    requires
        forall|i: int, j: int| 0 <= i < j < s.len() ==> (#[trigger] s[i].0) != (#[trigger] s[j].0),
        forall|i: int| 0 <= i < s.len() ==> (#[trigger] s[i].0) < entry.0,
    ensures
        forall|i: int, j: int|
            0 <= i < j < s.push(entry).len() ==> (#[trigger] s.push(entry)[i].0) != (
            #[trigger] s.push(entry)[j].0),
{
    assert forall|i: int, j: int| 0 <= i < j < s.push(entry).len() implies (#[trigger] s.push(
        entry,
    )[i].0) != (#[trigger] s.push(entry)[j].0) by {
        if j < s.len() {
            assert(s[i].0 != s[j].0);
        } else {
            assert(s[i].0 < entry.0);
        }
    }
}

/// Removing an entry keeps every remaining id below the counter and the
/// ids pairwise distinct.
pub proof fn lemma_remove_keeps_discipline<T>(s: Seq<(u64, T)>, i: int, bound: u64)
    requires
        0 <= i < s.len(),
        forall|a: int| 0 <= a < s.len() ==> (#[trigger] s[a].0) < bound,
        forall|a: int, b: int| 0 <= a < b < s.len() ==> (#[trigger] s[a].0) != (#[trigger] s[b].0),
    ensures
        forall|a: int| 0 <= a < s.remove(i).len() ==> (#[trigger] s.remove(i)[a].0) < bound,
        forall|a: int, b: int|
            0 <= a < b < s.remove(i).len() ==> (#[trigger] s.remove(i)[a].0) != (
            #[trigger] s.remove(i)[b].0),
{
    let t = s.remove(i);
    assert forall|a: int| 0 <= a < t.len() implies (#[trigger] t[a].0) < bound by {
        if a < i {
            assert(t[a] == s[a]);
        } else {
            assert(t[a] == s[a + 1]);
        }
    }
    assert forall|a: int, b: int| 0 <= a < b < t.len() implies (#[trigger] t[a].0) != (
    #[trigger] t[b].0) by {
        let oa = if a < i { a } else { a + 1 };
        let ob = if b < i { b } else { b + 1 };
        assert(t[a] == s[oa] && t[b] == s[ob]);
        assert(s[oa].0 != s[ob].0);
    }
}

/// The same discipline for the plain waiter-id list.
pub proof fn lemma_remove_id_keeps_discipline(s: Seq<u64>, i: int, bound: u64)
    requires
        0 <= i < s.len(),
        forall|a: int| 0 <= a < s.len() ==> (#[trigger] s[a]) < bound,
        forall|a: int, b: int| 0 <= a < b < s.len() ==> (#[trigger] s[a]) != (#[trigger] s[b]),
    ensures
        forall|a: int| 0 <= a < s.remove(i).len() ==> (#[trigger] s.remove(i)[a]) < bound,
        forall|a: int, b: int|
            0 <= a < b < s.remove(i).len() ==> (#[trigger] s.remove(i)[a]) != (
            #[trigger] s.remove(i)[b]),
{
    let t = s.remove(i);
    assert forall|a: int| 0 <= a < t.len() implies (#[trigger] t[a]) < bound by {
        if a < i {
            assert(t[a] == s[a]);
        } else {
            assert(t[a] == s[a + 1]);
        }
    }
    assert forall|a: int, b: int| 0 <= a < b < t.len() implies (#[trigger] t[a]) != (
    #[trigger] t[b]) by {
        let oa = if a < i { a } else { a + 1 };
        let ob = if b < i { b } else { b + 1 };
        assert(t[a] == s[oa] && t[b] == s[ob]);
        assert(s[oa] != s[ob]);
    }
}

/// At most one reply per forwarded RPC: once a response routes an entry
/// out of a map with distinct ids, no later response finds that id
/// again.
pub proof fn lemma_reply_at_most_once<T>(s: Seq<(u64, T)>, i: int)
    requires
        forall|a: int, b: int| 0 <= a < b < s.len() ==> (#[trigger] s[a].0) != (#[trigger] s[b].0),
        0 <= i < s.len(),
        spec_find_key(s, s[i].0) == Some(i),
    ensures
        spec_find_key(s.remove(i), s[i].0) is None,
{
    lemma_find_key(s.remove(i), s[i].0);
    match spec_find_key(s.remove(i), s[i].0) {
        Some(k) => {
            if k < i {
                assert(s.remove(i)[k] == s[k]);
                assert(s[k].0 != s[i].0);
            } else {
                assert(s.remove(i)[k] == s[k + 1]);
                assert(s[k + 1].0 != s[i].0);
            }
        },
        None => {},
    }
}

} // verus!
