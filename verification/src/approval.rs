//! Approval decisions.
//!
//! A client resolves a pending approval with a decision that may arrive in
//! several spellings; every accepted spelling is normalized into one
//! canonical variant, which is then rendered back into the wire shape the
//! subprocess expects — the modern one or the legacy one, depending on how
//! the approval was requested.

use vstd::prelude::*;
use crate::json::JsonValue;
use crate::json::SpecJson;
use crate::json::json_seq_view;
use crate::json::lemma_json_seq_view;
use crate::json::lemma_json_fields_view;
use crate::json::str_eq;
use crate::json::json_fields_view;
use crate::text::strings_view;

verus! {

broadcast use vstd::std_specs::vec::group_vec_axioms;

/// Which wire shape the later reply must use.
#[derive(Clone, Copy, PartialEq, Eq, Structural, Debug)]
pub enum ApprovalResponseFormat {
    Modern,
    Legacy,
}

/// The canonical form of an approval decision.
#[derive(Debug, PartialEq)]
pub enum ApprovalDecision {
    Accept,
    AcceptForSession,
    Decline,
    Cancel,
    AcceptWithExecpolicyAmendment(Vec<String>),
}

/// Mathematical model of a canonical decision.
pub enum SpecApprovalDecision {
    Accept,
    AcceptForSession,
    Decline,
    Cancel,
    AcceptWithExecpolicyAmendment(Seq<Seq<char>>),
}

impl View for ApprovalDecision {
    type V = SpecApprovalDecision;

    open spec fn view(&self) -> SpecApprovalDecision {
        match self {
            ApprovalDecision::Accept => SpecApprovalDecision::Accept,
            ApprovalDecision::AcceptForSession => SpecApprovalDecision::AcceptForSession,
            ApprovalDecision::Decline => SpecApprovalDecision::Decline,
            ApprovalDecision::Cancel => SpecApprovalDecision::Cancel,
            ApprovalDecision::AcceptWithExecpolicyAmendment(tokens) =>
                SpecApprovalDecision::AcceptWithExecpolicyAmendment(strings_view(tokens@)),
        }
    }
}

/// The strings of an all-string JSON array.
pub open spec fn spec_str_items(items: Seq<SpecJson>) -> Seq<Seq<char>> {
    Seq::new(items.len(), |i: int| items[i]->Str_0)
}

/// A non-empty, all-strings JSON array, as `Seq` of its strings.
pub open spec fn spec_parse_string_array_strict(v: Option<SpecJson>) -> Option<Seq<Seq<char>>> {
    match v {
        Some(SpecJson::Arr(items)) => {
            if items.len() > 0 && (forall|i: int| 0 <= i < items.len() ==> items[i] is Str) {
                Some(spec_str_items(items))
            } else {
                None
            }
        },
        _ => None,
    }
}

/// Accepts only a non-empty array whose entries are all strings.
#[verifier::loop_isolation(false)]
pub fn parse_string_array_strict(v: Option<&JsonValue>) -> (r: Option<Vec<String>>)
    ensures
        match r {
            Some(tokens) => spec_parse_string_array_strict(spec_of_opt(v)) == Some(
                strings_view(tokens@),
            ),
            None => spec_parse_string_array_strict(spec_of_opt(v)) is None,
        },
{
    let value = match v {
        Some(value) => value,
        None => {
            return None;
        },
    };
    let items = match value.as_arr() {
        Some(items) => items,
        None => {
            return None;
        },
    };
    if items.len() == 0 {
        return None;
    }
    proof {
        lemma_json_seq_view(items@);
    }
    let ghost view_items = json_seq_view(items@);
    let mut out: Vec<String> = Vec::new();
    let mut i: usize = 0;
    while i < items.len()
        invariant
            0 <= i <= items@.len(),
            view_items == json_seq_view(items@),
            view_items.len() == items@.len(),
            forall|j: int| 0 <= j < items@.len() ==> view_items[j] == items@[j]@,
            out@.len() == i,
            forall|j: int| 0 <= j < i ==> view_items[j] is Str,
            forall|j: int| 0 <= j < i ==> #[trigger] out@[j]@ == view_items[j]->Str_0,
        decreases items@.len() - i,
    {
        match items[i].as_str() {
            Some(text) => {
                let copy = text.clone();
                out.push(copy);
            },
            None => {
                proof {
                    if (forall|j: int| 0 <= j < view_items.len() ==> view_items[j] is Str) {
                        assert(view_items[i as int] is Str);
                    }
                }
                return None;
            },
        }
        i += 1;
    }
    proof {
        assert(strings_view(out@) =~= spec_str_items(view_items));
    }
    Some(out)
}

/// The model of an optional borrowed JSON value.
pub open spec fn spec_of_opt(v: Option<&JsonValue>) -> Option<SpecJson> {
    match v {
        Some(value) => Some(value@),
        None => None,
    }
}

/// Every raw spelling this bridge accepts for a decision, and the
/// canonical variant each stands for.
pub open spec fn spec_parse_approval_decision(v: SpecJson) -> Option<SpecApprovalDecision> {
    match v {
        SpecJson::Str(s) => {
            if s == "accept"@ || s == "approved"@ {
                Some(SpecApprovalDecision::Accept)
            } else if s == "acceptForSession"@ || s == "approved_for_session"@ {
                Some(SpecApprovalDecision::AcceptForSession)
            } else if s == "decline"@ || s == "denied"@ {
                Some(SpecApprovalDecision::Decline)
            } else if s == "cancel"@ || s == "abort"@ {
                Some(SpecApprovalDecision::Cancel)
            } else {
                None
            }
        },
        SpecJson::Obj(_) => {
            if v.get("acceptWithExecpolicyAmendment"@) is Some {
                match spec_amendment_tokens(
                    v.get("acceptWithExecpolicyAmendment"@),
                    "execpolicy_amendment"@,
                ) {
                    Some(tokens) => Some(
                        SpecApprovalDecision::AcceptWithExecpolicyAmendment(tokens),
                    ),
                    None => None,
                }
            } else if v.get("approved_execpolicy_amendment"@) is Some {
                match spec_amendment_tokens(
                    v.get("approved_execpolicy_amendment"@),
                    "proposed_execpolicy_amendment"@,
                ) {
                    Some(tokens) => Some(
                        SpecApprovalDecision::AcceptWithExecpolicyAmendment(tokens),
                    ),
                    None => None,
                }
            } else {
                None
            }
        },
        _ => None,
    }
}

/// The tokens under an amendment wrapper object's key, when they are a
/// strict string array.
pub open spec fn spec_amendment_tokens(wrapper: Option<SpecJson>, key: Seq<char>) -> Option<
    Seq<Seq<char>>,
> {
    match wrapper {
        Some(inner) => {
            if inner.is_obj() {
                spec_parse_string_array_strict(inner.get(key))
            } else {
                None
            }
        },
        None => None,
    }
}

/// Reads the amendment tokens under one of the two wrapper spellings.
fn amendment_tokens(value: &JsonValue, outer_key: &str, inner_key: &str) -> (r: Option<
    Vec<String>,
>)
    requires
        value@.get(outer_key@) is Some,
    ensures
        match r {
            Some(tokens) => spec_amendment_tokens(value@.get(outer_key@), inner_key@) == Some(
                strings_view(tokens@),
            ),
            None => spec_amendment_tokens(value@.get(outer_key@), inner_key@) is None,
        },
{
    let wrapper = match value.get(outer_key) {
        Some(wrapper) => wrapper,
        None => {
            return None;
        },
    };
    if !wrapper.is_obj() {
        return None;
    }
    parse_string_array_strict(wrapper.get(inner_key))
}

/// Normalizes a raw decision into its canonical variant.
pub fn parse_approval_decision(value: &JsonValue) -> (r: Option<ApprovalDecision>)
    ensures
        match r {
            Some(d) => spec_parse_approval_decision(value@) == Some(d@),
            None => spec_parse_approval_decision(value@) is None,
        },
{
    if let Some(raw) = value.as_str() {
        let raw = raw.as_str();
        if str_eq(raw, "accept") || str_eq(raw, "approved") {
            return Some(ApprovalDecision::Accept);
        }
        if str_eq(raw, "acceptForSession") || str_eq(raw, "approved_for_session") {
            return Some(ApprovalDecision::AcceptForSession);
        }
        if str_eq(raw, "decline") || str_eq(raw, "denied") {
            return Some(ApprovalDecision::Decline);
        }
        if str_eq(raw, "cancel") || str_eq(raw, "abort") {
            return Some(ApprovalDecision::Cancel);
        }
        return None;
    }
    if !value.is_obj() {
        return None;
    }
    if value.get("acceptWithExecpolicyAmendment").is_some() {
        return match amendment_tokens(
            value,
            "acceptWithExecpolicyAmendment",
            "execpolicy_amendment",
        ) {
            Some(tokens) => Some(ApprovalDecision::AcceptWithExecpolicyAmendment(tokens)),
            None => None,
        };
    }
    if value.get("approved_execpolicy_amendment").is_some() {
        return match amendment_tokens(
            value,
            "approved_execpolicy_amendment",
            "proposed_execpolicy_amendment",
        ) {
            Some(tokens) => Some(ApprovalDecision::AcceptWithExecpolicyAmendment(tokens)),
            None => None,
        };
    }
    None
}

/// Whether a raw decision is one of the accepted spellings.
pub fn is_valid_approval_decision(value: &JsonValue) -> (r: bool)
    ensures
        r == (spec_parse_approval_decision(value@) is Some),
{
    parse_approval_decision(value).is_some()
}

/// The wire rendering of a canonical decision in the given format.
pub open spec fn spec_decision_wire(d: SpecApprovalDecision, format: ApprovalResponseFormat)
    -> SpecJson {
    match format {
        ApprovalResponseFormat::Modern => match d {
            SpecApprovalDecision::Accept => SpecJson::Str("accept"@),
            SpecApprovalDecision::AcceptForSession => SpecJson::Str("acceptForSession"@),
            SpecApprovalDecision::Decline => SpecJson::Str("decline"@),
            SpecApprovalDecision::Cancel => SpecJson::Str("cancel"@),
            SpecApprovalDecision::AcceptWithExecpolicyAmendment(tokens) => SpecJson::Obj(
                seq![
                    (
                        "acceptWithExecpolicyAmendment"@,
                        SpecJson::Obj(
                            seq![
                                (
                                    "execpolicy_amendment"@,
                                    SpecJson::Arr(Seq::new(tokens.len(), |i: int| SpecJson::Str(tokens[i]))),
                                ),
                            ],
                        ),
                    ),
                ],
            ),
        },
        ApprovalResponseFormat::Legacy => match d {
            SpecApprovalDecision::Accept => SpecJson::Str("approved"@),
            SpecApprovalDecision::AcceptForSession => SpecJson::Str("approved_for_session"@),
            SpecApprovalDecision::Decline => SpecJson::Str("denied"@),
            SpecApprovalDecision::Cancel => SpecJson::Str("abort"@),
            SpecApprovalDecision::AcceptWithExecpolicyAmendment(tokens) => SpecJson::Obj(
                seq![
                    (
                        "approved_execpolicy_amendment"@,
                        SpecJson::Obj(
                            seq![
                                (
                                    "proposed_execpolicy_amendment"@,
                                    SpecJson::Arr(Seq::new(tokens.len(), |i: int| SpecJson::Str(tokens[i]))),
                                ),
                            ],
                        ),
                    ),
                ],
            ),
        },
    }
}

/// Builds the JSON array of amendment tokens.
#[verifier::loop_isolation(false)]
fn tokens_to_json(tokens: &Vec<String>) -> (r: JsonValue)
    ensures
        r@ == SpecJson::Arr(
            Seq::new(strings_view(tokens@).len(), |i: int| SpecJson::Str(strings_view(tokens@)[i])),
        ),
{
    let mut items: Vec<JsonValue> = Vec::new();
    let mut i: usize = 0;
    while i < tokens.len()
        invariant
            0 <= i <= tokens@.len(),
            items@.len() == i,
            forall|j: int| 0 <= j < i ==> #[trigger] items@[j]@ == SpecJson::Str(tokens@[j]@),
        decreases tokens@.len() - i,
    {
        let token = tokens[i].clone();
        items.push(JsonValue::Str(token));
        i += 1;
    }
    proof {
        lemma_json_seq_view(items@);
        assert(json_seq_view(items@) =~= Seq::new(
            strings_view(tokens@).len(),
            |i: int| SpecJson::Str(strings_view(tokens@)[i]),
        ));
    }
    JsonValue::Arr(items)
}

/// Renders a raw decision into the wire shape the pending entry's format
/// requires; `None` exactly when the raw decision is not an accepted
/// spelling.
pub fn approval_decision_to_response_value(decision: &JsonValue, format: ApprovalResponseFormat)
    -> (r: Option<JsonValue>)
    ensures
        match r {
            Some(wire) => spec_parse_approval_decision(decision@) matches Some(d) && wire@
                == spec_decision_wire(d, format),
            None => spec_parse_approval_decision(decision@) is None,
        },
{
    let parsed = match parse_approval_decision(decision) {
        Some(parsed) => parsed,
        None => {
            return None;
        },
    };
    Some(render_decision(&parsed, format))
}

/// Renders a canonical decision in the given wire format.
pub fn render_decision(decision: &ApprovalDecision, format: ApprovalResponseFormat) -> (r:
    JsonValue)
    ensures
        r@ == spec_decision_wire(decision@, format),
{
    let modern = match format {
        ApprovalResponseFormat::Modern => true,
        ApprovalResponseFormat::Legacy => false,
    };
    match decision {
        ApprovalDecision::Accept => {
            if modern {
                JsonValue::Str("accept".to_owned())
            } else {
                JsonValue::Str("approved".to_owned())
            }
        },
        ApprovalDecision::AcceptForSession => {
            if modern {
                JsonValue::Str("acceptForSession".to_owned())
            } else {
                JsonValue::Str("approved_for_session".to_owned())
            }
        },
        ApprovalDecision::Decline => {
            if modern {
                JsonValue::Str("decline".to_owned())
            } else {
                JsonValue::Str("denied".to_owned())
            }
        },
        ApprovalDecision::Cancel => {
            if modern {
                JsonValue::Str("cancel".to_owned())
            } else {
                JsonValue::Str("abort".to_owned())
            }
        },
        ApprovalDecision::AcceptWithExecpolicyAmendment(tokens) => {
            let array = tokens_to_json(tokens);
            let (outer, inner) = if modern {
                ("acceptWithExecpolicyAmendment", "execpolicy_amendment")
            } else {
                ("approved_execpolicy_amendment", "proposed_execpolicy_amendment")
            };
            let mut inner_fields: Vec<(String, JsonValue)> = Vec::new();
            inner_fields.push((inner.to_owned(), array));
            let inner_obj = JsonValue::Obj(inner_fields);
            proof {
                lemma_json_fields_view(inner_obj->Obj_0@);
                assert(json_fields_view(inner_obj->Obj_0@) =~= seq![
                    (inner@, tokens_json_view(tokens@)),
                ]);
            }
            let mut outer_fields: Vec<(String, JsonValue)> = Vec::new();
            outer_fields.push((outer.to_owned(), inner_obj));
            let outer_obj = JsonValue::Obj(outer_fields);
            proof {
                lemma_json_fields_view(outer_obj->Obj_0@);
                assert(json_fields_view(outer_obj->Obj_0@) =~= seq![
                    (outer@, SpecJson::Obj(seq![(inner@, tokens_json_view(tokens@))])),
                ]);
            }
            outer_obj
        },
    }
}

/// The JSON array standing for a token list.
pub open spec fn tokens_json_view(tokens: Seq<String>) -> SpecJson {
    SpecJson::Arr(
        Seq::new(strings_view(tokens).len(), |i: int| SpecJson::Str(strings_view(tokens)[i])),
    )
}

/// A canonical decision survives the trip onto the wire and back, in
/// either format — the legacy and modern encoders are inverses of the one
/// parser. An amendment's token list must be non-empty: the parser
/// rejects an empty amendment array outright.
pub proof fn lemma_decision_wire_round_trip(d: SpecApprovalDecision, format: ApprovalResponseFormat)
    requires
        d matches SpecApprovalDecision::AcceptWithExecpolicyAmendment(tokens) ==> tokens.len() > 0,
    ensures
        spec_parse_approval_decision(spec_decision_wire(d, format)) == Some(d),
{
    reveal_strlit("accept");
    reveal_strlit("approved");
    reveal_strlit("acceptForSession");
    reveal_strlit("approved_for_session");
    reveal_strlit("decline");
    reveal_strlit("denied");
    reveal_strlit("cancel");
    reveal_strlit("abort");
    reveal_strlit("acceptWithExecpolicyAmendment");
    reveal_strlit("approved_execpolicy_amendment");
    reveal_strlit("execpolicy_amendment");
    reveal_strlit("proposed_execpolicy_amendment");
    assert("accept"@.len() == 6);
    assert("approved"@.len() == 8);
    assert("acceptForSession"@.len() == 16);
    assert("approved_for_session"@.len() == 20);
    assert("decline"@.len() == 7);
    assert("denied"@.len() == 6);
    assert("cancel"@.len() == 6);
    assert("abort"@.len() == 5);
    assert("accept"@[0] == 'a' && "denied"@[0] == 'd' && "cancel"@[0] == 'c');
    assert("acceptForSession"@ != "accept"@ && "acceptForSession"@ != "approved"@);
    assert("approved_for_session"@ != "accept"@ && "approved_for_session"@ != "approved"@);
    assert("decline"@ != "accept"@ && "decline"@ != "approved"@ && "decline"@
        != "acceptForSession"@ && "decline"@ != "approved_for_session"@);
    assert("denied"@ != "accept"@ && "denied"@ != "approved"@ && "denied"@ != "acceptForSession"@
        && "denied"@ != "approved_for_session"@);
    assert("cancel"@ != "accept"@ && "cancel"@ != "approved"@ && "cancel"@ != "acceptForSession"@
        && "cancel"@ != "approved_for_session"@ && "cancel"@ != "decline"@ && "cancel"@
        != "denied"@);
    assert("abort"@ != "accept"@ && "abort"@ != "approved"@ && "abort"@ != "acceptForSession"@
        && "abort"@ != "approved_for_session"@ && "abort"@ != "decline"@ && "abort"@
        != "denied"@);
    match d {
        SpecApprovalDecision::AcceptWithExecpolicyAmendment(tokens) => {
            let wire = spec_decision_wire(d, format);
            let (outer, inner): (Seq<char>, Seq<char>) = match format {
                ApprovalResponseFormat::Modern => (
                    "acceptWithExecpolicyAmendment"@,
                    "execpolicy_amendment"@,
                ),
                ApprovalResponseFormat::Legacy => (
                    "approved_execpolicy_amendment"@,
                    "proposed_execpolicy_amendment"@,
                ),
            };
            let arr = SpecJson::Arr(Seq::new(tokens.len(), |i: int| SpecJson::Str(tokens[i])));
            let inner_obj = SpecJson::Obj(seq![(inner, arr)]);
            assert(wire.get(outer) == Some(inner_obj));
            assert(inner_obj.get(inner) == Some(arr));
            assert("acceptWithExecpolicyAmendment"@ != "approved_execpolicy_amendment"@) by {
                assert("acceptWithExecpolicyAmendment"@.len() == 29);
                assert("approved_execpolicy_amendment"@.len() == 29);
                assert("acceptWithExecpolicyAmendment"@[0] == 'a');
                assert("approved_execpolicy_amendment"@[1] == 'p');
                assert("acceptWithExecpolicyAmendment"@[1] == 'c');
            }
            match format {
                ApprovalResponseFormat::Modern => {
                    assert(wire.get("acceptWithExecpolicyAmendment"@) is Some);
                },
                ApprovalResponseFormat::Legacy => {
                    assert(seq![(outer, inner_obj)].drop_first() =~= Seq::<
                        (Seq<char>, SpecJson),
                    >::empty());
                    assert(crate::json::spec_fields_get(
                        Seq::<(Seq<char>, SpecJson)>::empty(),
                        "acceptWithExecpolicyAmendment"@,
                    ) is None);
                    assert(wire.get("acceptWithExecpolicyAmendment"@) is None);
                    assert(wire.get("approved_execpolicy_amendment"@) is Some);
                },
            }
            let items = arr->Arr_0;
            assert(forall|i: int| 0 <= i < items.len() ==> items[i] is Str);
            assert(spec_str_items(items) =~= tokens);
            assert(spec_parse_string_array_strict(Some(arr)) == Some(tokens));
        },
        _ => {},
    }
}

/// A pending approval as shown to clients.
pub struct PendingApproval {
    pub id: String,
    pub kind: String,
    pub thread_id: String,
    pub turn_id: String,
    pub item_id: String,
    pub requested_at: String,
    pub reason: Option<String>,
    pub command: Option<String>,
    pub cwd: Option<String>,
    pub grant_root: Option<String>,
    pub proposed_execpolicy_amendment: Option<Vec<String>>,
}

/// Mathematical model of a pending approval.
pub struct SpecPendingApproval {
    pub id: Seq<char>,
    pub kind: Seq<char>,
    pub thread_id: Seq<char>,
    pub turn_id: Seq<char>,
    pub item_id: Seq<char>,
    pub requested_at: Seq<char>,
    pub reason: Option<Seq<char>>,
    pub command: Option<Seq<char>>,
    pub cwd: Option<Seq<char>>,
    pub grant_root: Option<Seq<char>>,
    pub proposed_execpolicy_amendment: Option<Seq<Seq<char>>>,
}

/// View of an optional string.
pub open spec fn opt_str_view(v: Option<String>) -> Option<Seq<char>> {
    match v {
        Some(s) => Some(s@),
        None => None,
    }
}

impl View for PendingApproval {
    type V = SpecPendingApproval;

    open spec fn view(&self) -> SpecPendingApproval {
        SpecPendingApproval {
            id: self.id@,
            kind: self.kind@,
            thread_id: self.thread_id@,
            turn_id: self.turn_id@,
            item_id: self.item_id@,
            requested_at: self.requested_at@,
            reason: opt_str_view(self.reason),
            command: opt_str_view(self.command),
            cwd: opt_str_view(self.cwd),
            grant_root: opt_str_view(self.grant_root),
            proposed_execpolicy_amendment: match self.proposed_execpolicy_amendment {
                Some(tokens) => Some(strings_view(tokens@)),
                None => None,
            },
        }
    }
}

/// A stored pending approval: the subprocess request it answers, the wire
/// format its reply must take, and the client-visible payload.
pub struct PendingApprovalEntry {
    pub app_server_request_id: JsonValue,
    pub response_format: ApprovalResponseFormat,
    pub approval: PendingApproval,
}

/// A JSON string or `null` for an optional string.
pub open spec fn spec_opt_str_json(v: Option<Seq<char>>) -> SpecJson {
    match v {
        Some(s) => SpecJson::Str(s),
        None => SpecJson::Null,
    }
}

/// The notification payload for a pending approval, one field per record
/// field, in a fixed order.
pub open spec fn spec_approval_json(a: SpecPendingApproval) -> SpecJson {
    SpecJson::Obj(
        seq![
            ("id"@, SpecJson::Str(a.id)),
            ("kind"@, SpecJson::Str(a.kind)),
            ("threadId"@, SpecJson::Str(a.thread_id)),
            ("turnId"@, SpecJson::Str(a.turn_id)),
            ("itemId"@, SpecJson::Str(a.item_id)),
            ("requestedAt"@, SpecJson::Str(a.requested_at)),
            ("reason"@, spec_opt_str_json(a.reason)),
            ("command"@, spec_opt_str_json(a.command)),
            ("cwd"@, spec_opt_str_json(a.cwd)),
            ("grantRoot"@, spec_opt_str_json(a.grant_root)),
            (
                "proposedExecpolicyAmendment"@,
                match a.proposed_execpolicy_amendment {
                    Some(tokens) => SpecJson::Arr(
                        Seq::new(tokens.len(), |i: int| SpecJson::Str(tokens[i])),
                    ),
                    None => SpecJson::Null,
                },
            ),
        ],
    )
}

/// A JSON string or `null`.
pub fn opt_str_json(v: &Option<String>) -> (r: JsonValue)
    ensures
        r@ == spec_opt_str_json(opt_str_view(*v)),
{
    match v {
        Some(s) => JsonValue::Str(s.clone()),
        None => JsonValue::Null,
    }
}

/// Renders a pending approval as its notification payload.
pub fn approval_to_json(a: &PendingApproval) -> (r: JsonValue)
    ensures
        r@ == spec_approval_json(a@),
{
    let amendment = match &a.proposed_execpolicy_amendment {
        Some(tokens) => tokens_to_json(tokens),
        None => JsonValue::Null,
    };
    let mut fields: Vec<(String, JsonValue)> = Vec::new();
    fields.push(("id".to_owned(), JsonValue::Str(a.id.clone())));
    fields.push(("kind".to_owned(), JsonValue::Str(a.kind.clone())));
    fields.push(("threadId".to_owned(), JsonValue::Str(a.thread_id.clone())));
    fields.push(("turnId".to_owned(), JsonValue::Str(a.turn_id.clone())));
    fields.push(("itemId".to_owned(), JsonValue::Str(a.item_id.clone())));
    fields.push(("requestedAt".to_owned(), JsonValue::Str(a.requested_at.clone())));
    fields.push(("reason".to_owned(), opt_str_json(&a.reason)));
    fields.push(("command".to_owned(), opt_str_json(&a.command)));
    fields.push(("cwd".to_owned(), opt_str_json(&a.cwd)));
    fields.push(("grantRoot".to_owned(), opt_str_json(&a.grant_root)));
    fields.push(("proposedExecpolicyAmendment".to_owned(), amendment));
    let r = crate::json::obj_from_fields(fields);
    proof {
        assert(r@->Obj_0 =~= spec_approval_json(a@)->Obj_0);
    }
    r
}

/// The parts joined with single spaces.
pub open spec fn spec_join_space(parts: Seq<Seq<char>>) -> Seq<char>
    decreases parts.len(),
{
    if parts.len() == 0 {
        Seq::empty()
    } else if parts.len() == 1 {
        parts[0]
    } else {
        spec_join_space(parts.drop_last()) + seq![' '] + parts.last()
    }
}

/// Joins strings with single spaces.
#[verifier::loop_isolation(false)]
pub fn join_space(parts: &Vec<String>) -> (r: String)
    ensures
        r@ == spec_join_space(strings_view(parts@)),
{
    let ghost view = strings_view(parts@);
    if parts.len() == 0 {
        let r = String::new();
        proof {
            assert(view.len() == 0);
        }
        return r;
    }
    let mut acc = parts[0].clone();
    proof {
        assert(view.take(1).len() == 1);
        assert(view.take(1)[0] == view[0]);
        assert(acc@ == spec_join_space(view.take(1)));
    }
    let mut i: usize = 1;
    while i < parts.len()
        invariant
            1 <= i <= parts@.len(),
            view == strings_view(parts@),
            view.len() == parts@.len(),
            acc@ == spec_join_space(view.take(i as int)),
        decreases parts@.len() - i,
    {
        proof {
            assert(view.take(i + 1).drop_last() =~= view.take(i as int));
            assert(view.take(i + 1).last() == view[i as int]);
        }
        acc.append(" ");
        acc.append(parts[i].as_str());
        proof {
            reveal_strlit(" ");
            assert(" "@ =~= seq![' ']);
            assert(acc@ =~= spec_join_space(view.take(i as int)) + seq![' '] + view[i as int]);
        }
        i += 1;
    }
    proof {
        assert(view.take(parts@.len() as int) =~= view);
    }
    acc
}

/// What a command parameter stands for: a string as itself, or a strict
/// string array joined with spaces.
pub open spec fn spec_read_shell_command(v: Option<SpecJson>) -> Option<Seq<char>> {
    match crate::json::spec_read_string(v) {
        Some(s) => Some(s),
        None => match spec_parse_string_array_strict(v) {
            Some(parts) => Some(spec_join_space(parts)),
            None => None,
        },
    }
}

/// Reads a command given as a string or as an argv array.
pub fn read_shell_command(v: Option<&JsonValue>) -> (r: Option<String>)
    ensures
        match r {
            Some(s) => spec_read_shell_command(spec_of_opt(v)) == Some(s@),
            None => spec_read_shell_command(spec_of_opt(v)) is None,
        },
{
    match crate::json::read_string(v) {
        Some(s) => Some(s),
        None => match parse_string_array_strict(v) {
            Some(parts) => Some(join_space(&parts)),
            None => None,
        },
    }
}

/// Reads a strict string array; alias kept for the wire vocabulary.
pub fn read_string_array(v: Option<&JsonValue>) -> (r: Option<Vec<String>>)
    ensures
        match r {
            Some(tokens) => spec_parse_string_array_strict(spec_of_opt(v)) == Some(
                strings_view(tokens@),
            ),
            None => spec_parse_string_array_strict(spec_of_opt(v)) is None,
        },
{
    parse_string_array_strict(v)
}

/// The amendment tokens of a proposed execpolicy amendment: a strict
/// string array directly, or one under an object's `execpolicy_amendment`.
pub open spec fn spec_parse_execpolicy_amendment(v: Option<SpecJson>) -> Option<Seq<Seq<char>>> {
    match spec_parse_string_array_strict(v) {
        Some(tokens) => Some(tokens),
        None => match v {
            Some(obj) => {
                if obj.is_obj() {
                    spec_parse_string_array_strict(obj.get("execpolicy_amendment"@))
                } else {
                    None
                }
            },
            _ => None,
        },
    }
}

/// Reads a proposed execpolicy amendment in either accepted shape.
pub fn parse_execpolicy_amendment(v: Option<&JsonValue>) -> (r: Option<Vec<String>>)
    ensures
        match r {
            Some(tokens) => spec_parse_execpolicy_amendment(spec_of_opt(v)) == Some(
                strings_view(tokens@),
            ),
            None => spec_parse_execpolicy_amendment(spec_of_opt(v)) is None,
        },
{
    match parse_string_array_strict(v) {
        Some(tokens) => Some(tokens),
        None => match v {
            Some(obj) => {
                if obj.is_obj() {
                    parse_string_array_strict(obj.get("execpolicy_amendment"))
                } else {
                    None
                }
            },
            None => None,
        },
    }
}

} // verus!
