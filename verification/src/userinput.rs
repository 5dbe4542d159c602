//! Pending user-input requests.
//!
//! The subprocess may ask the human questions; each request is stored
//! under a bridge-minted id until a client answers. Questions arrive as
//! loose JSON and are filtered down to the well-formed ones; answers are
//! validated before they are written back.

use vstd::prelude::*;
use crate::json::JsonValue;
use crate::json::SpecJson;
use crate::json::json_seq_view;
use crate::json::lemma_json_seq_view;
use crate::text::spec_is_blank;
use crate::text::strings_view;
use crate::text::is_blank_str;

verus! {

broadcast use vstd::std_specs::vec::group_vec_axioms;

/// One selectable option of a question.
pub struct PendingUserInputQuestionOption {
    pub label: String,
    pub description: String,
}

/// One question put to the human.
pub struct PendingUserInputQuestion {
    pub id: String,
    pub header: String,
    pub question: String,
    pub is_other: bool,
    pub is_secret: bool,
    pub options: Option<Vec<PendingUserInputQuestionOption>>,
}

/// Mathematical model of a question; options are (label, description)
/// pairs.
pub struct SpecQuestion {
    pub id: Seq<char>,
    pub header: Seq<char>,
    pub question: Seq<char>,
    pub is_other: bool,
    pub is_secret: bool,
    pub options: Option<Seq<(Seq<char>, Seq<char>)>>,
}

impl View for PendingUserInputQuestion {
    type V = SpecQuestion;

    open spec fn view(&self) -> SpecQuestion {
        SpecQuestion {
            id: self.id@,
            header: self.header@,
            question: self.question@,
            is_other: self.is_other,
            is_secret: self.is_secret,
            options: match self.options {
                Some(opts) => Some(
                    Seq::new(opts@.len(), |i: int| (opts@[i].label@, opts@[i].description@)),
                ),
                None => None,
            },
        }
    }
}

/// View of a sequence of questions, question by question.
pub open spec fn questions_view(s: Seq<PendingUserInputQuestion>) -> Seq<SpecQuestion> {
    Seq::new(s.len(), |i: int| s[i]@)
}

/// A stored pending user-input request.
pub struct PendingUserInputRequest {
    pub id: String,
    pub thread_id: String,
    pub turn_id: String,
    pub item_id: String,
    pub requested_at: String,
    pub questions: Vec<PendingUserInputQuestion>,
}

/// A stored entry: the subprocess request id it answers, and the
/// client-visible request.
pub struct PendingUserInputEntry {
    pub app_server_request_id: JsonValue,
    pub request: PendingUserInputRequest,
}

/// The option a raw JSON entry stands for: an object with a string
/// `label`; the description defaults to empty.
pub open spec fn spec_option_of(v: SpecJson) -> Option<(Seq<char>, Seq<char>)> {
    if v.is_obj() {
        match v.get("label"@) {
            Some(SpecJson::Str(label)) => Some(
                (
                    label,
                    match v.get("description"@) {
                        Some(SpecJson::Str(d)) => d,
                        _ => Seq::<char>::empty(),
                    },
                ),
            ),
            _ => None,
        }
    } else {
        None
    }
}

/// The well-formed options among raw JSON entries, in order.
pub open spec fn spec_option_items(items: Seq<SpecJson>) -> Seq<(Seq<char>, Seq<char>)>
    decreases items.len(),
{
    if items.len() == 0 {
        Seq::empty()
    } else {
        let rest = spec_option_items(items.drop_last());
        match spec_option_of(items.last()) {
            Some(p) => rest.push(p),
            None => rest,
        }
    }
}

/// The question a raw JSON entry stands for: an object with string `id`,
/// `header` and `question`; the flags default to false; `options` is kept
/// only when it is an array, filtered to its well-formed entries.
pub open spec fn spec_question_of(v: SpecJson) -> Option<SpecQuestion> {
    if v.is_obj() {
        match (v.get("id"@), v.get("header"@), v.get("question"@)) {
            (Some(SpecJson::Str(id)), Some(SpecJson::Str(header)), Some(
                SpecJson::Str(question),
            )) => Some(
                SpecQuestion {
                    id,
                    header,
                    question,
                    is_other: v.get("isOther"@) == Some(SpecJson::Bool(true)),
                    is_secret: v.get("isSecret"@) == Some(SpecJson::Bool(true)),
                    options: match v.get("options"@) {
                        Some(SpecJson::Arr(items)) => Some(spec_option_items(items)),
                        _ => None,
                    },
                },
            ),
            _ => None,
        }
    } else {
        None
    }
}

/// The well-formed questions among raw JSON entries, in order.
pub open spec fn spec_question_items(items: Seq<SpecJson>) -> Seq<SpecQuestion>
    decreases items.len(),
{
    if items.len() == 0 {
        Seq::empty()
    } else {
        let rest = spec_question_items(items.drop_last());
        match spec_question_of(items.last()) {
            Some(q) => rest.push(q),
            None => rest,
        }
    }
}

/// What `parse_user_input_questions` keeps of a raw `questions` value.
pub open spec fn spec_parse_questions(v: Option<SpecJson>) -> Seq<SpecQuestion> {
    match v {
        Some(SpecJson::Arr(items)) => spec_question_items(items),
        _ => Seq::empty(),
    }
}

/// Reads a question's options array.
#[verifier::loop_isolation(false)]
fn parse_options(items: &Vec<JsonValue>) -> (r: Vec<PendingUserInputQuestionOption>)
    ensures
        ({
            let view = Seq::new(r@.len(), |i: int| (r@[i].label@, r@[i].description@));
            view == spec_option_items(json_seq_view(items@))
        }),
{
    proof {
        lemma_json_seq_view(items@);
    }
    let ghost view_items = json_seq_view(items@);
    let mut out: Vec<PendingUserInputQuestionOption> = Vec::new();
    proof {
        assert(view_items.take(0) =~= Seq::<SpecJson>::empty());
    }
    let mut i: usize = 0;
    while i < items.len()
        invariant
            0 <= i <= items@.len(),
            view_items == json_seq_view(items@),
            view_items.len() == items@.len(),
            forall|j: int| 0 <= j < items@.len() ==> view_items[j] == items@[j]@,
            Seq::new(out@.len(), |k: int| (out@[k].label@, out@[k].description@))
                == spec_option_items(view_items.take(i as int)),
        decreases items@.len() - i,
    {
        let ghost prefix = view_items.take(i as int);
        proof {
            assert(view_items.take(i + 1).drop_last() =~= prefix);
            assert(view_items.take(i + 1).last() == view_items[i as int]);
        }
        let ghost before = Seq::new(out@.len(), |k: int| (out@[k].label@, out@[k].description@));
        let entry = &items[i];
        if entry.is_obj() {
            match entry.get("label") {
                Some(JsonValue::Str(label)) => {
                    let description = match entry.get("description") {
                        Some(JsonValue::Str(d)) => d.clone(),
                        _ => String::new(),
                    };
                    let label = label.clone();
                    out.push(PendingUserInputQuestionOption { label, description });
                    proof {
                        assert(Seq::new(
                            out@.len(),
                            |k: int| (out@[k].label@, out@[k].description@),
                        ) =~= before.push(spec_option_of(view_items[i as int]).unwrap()));
                    }
                },
                _ => {},
            }
        }
        i += 1;
    }
    proof {
        assert(view_items.take(items@.len() as int) =~= view_items);
    }
    out
}

/// Keeps the well-formed questions of a raw `questions` value, mapping
/// each option list down to its labelled entries.
#[verifier::loop_isolation(false)]
pub fn parse_user_input_questions(value: Option<&JsonValue>) -> (r: Vec<PendingUserInputQuestion>)
    ensures
        questions_view(r@) == spec_parse_questions(crate::approval::spec_of_opt(value)),
{
    let items = match value {
        Some(v) => match v.as_arr() {
            Some(items) => items,
            None => {
                let empty: Vec<PendingUserInputQuestion> = Vec::new();
                proof {
                    assert(questions_view(empty@) =~= Seq::<SpecQuestion>::empty());
                }
                return empty;
            },
        },
        None => {
            let empty: Vec<PendingUserInputQuestion> = Vec::new();
            proof {
                assert(questions_view(empty@) =~= Seq::<SpecQuestion>::empty());
            }
            return empty;
        },
    };
    proof {
        lemma_json_seq_view(items@);
    }
    let ghost view_items = json_seq_view(items@);
    let mut out: Vec<PendingUserInputQuestion> = Vec::new();
    proof {
        assert(view_items.take(0) =~= Seq::<SpecJson>::empty());
        assert(questions_view(out@) =~= Seq::<SpecQuestion>::empty());
    }
    let mut i: usize = 0;
    while i < items.len()
        invariant
            0 <= i <= items@.len(),
            view_items == json_seq_view(items@),
            view_items.len() == items@.len(),
            forall|j: int| 0 <= j < items@.len() ==> view_items[j] == items@[j]@,
            questions_view(out@) == spec_question_items(view_items.take(i as int)),
        decreases items@.len() - i,
    {
        let ghost prefix = view_items.take(i as int);
        proof {
            assert(view_items.take(i + 1).drop_last() =~= prefix);
            assert(view_items.take(i + 1).last() == view_items[i as int]);
        }
        let ghost before = questions_view(out@);
        let entry = &items[i];
        if entry.is_obj() {
            let id = entry.get("id");
            let header = entry.get("header");
            let question = entry.get("question");
            match (id, header, question) {
                (
                    Some(JsonValue::Str(id)),
                    Some(JsonValue::Str(header)),
                    Some(JsonValue::Str(question)),
                ) => {
                    let is_other = match entry.get("isOther") {
                        Some(JsonValue::Bool(b)) => *b,
                        _ => false,
                    };
                    let is_secret = match entry.get("isSecret") {
                        Some(JsonValue::Bool(b)) => *b,
                        _ => false,
                    };
                    let options = match entry.get("options") {
                        Some(opts) => match opts.as_arr() {
                            Some(opt_items) => Some(parse_options(opt_items)),
                            None => None,
                        },
                        None => None,
                    };
                    let q = PendingUserInputQuestion {
                        id: id.clone(),
                        header: header.clone(),
                        question: question.clone(),
                        is_other,
                        is_secret,
                        options,
                    };
                    proof {
                        assert(q@ == spec_question_of(view_items[i as int]).unwrap());
                    }
                    out.push(q);
                    proof {
                        assert(questions_view(out@) =~= before.push(
                            spec_question_of(view_items[i as int]).unwrap(),
                        ));
                    }
                },
                _ => {},
            }
        }
        i += 1;
    }
    proof {
        assert(view_items.take(items@.len() as int) =~= view_items);
    }
    out
}

/// What makes an answers map acceptable: at least implicitly checked by
/// the gateway to be non-empty, every question id non-blank, and every
/// answer list non-empty with only non-blank answers.
pub open spec fn spec_valid_answers(answers: Seq<(Seq<char>, Seq<Seq<char>>)>) -> bool {
    forall|i: int|
        0 <= i < answers.len() ==> !spec_is_blank(#[trigger] answers[i].0) && answers[i].1.len() > 0
            && (forall|j: int| 0 <= j < answers[i].1.len() ==> !spec_is_blank(#[trigger] answers[i].1[j]))
}

/// View of an answers list: (question id, answers) pairs.
pub open spec fn answers_view(answers: Seq<(String, Vec<String>)>) -> Seq<
    (Seq<char>, Seq<Seq<char>>),
> {
    Seq::new(answers.len(), |i: int| (answers[i].0@, strings_view(answers[i].1@)))
}

/// Checks an answers map: every id non-blank, every answer list non-empty
/// and free of blank answers.
#[verifier::loop_isolation(false)]
pub fn is_valid_user_input_answers(answers: &Vec<(String, Vec<String>)>) -> (r: bool)
    ensures
        r == spec_valid_answers(answers_view(answers@)),
{
    let ghost view = answers_view(answers@);
    let mut i: usize = 0;
    while i < answers.len()
        invariant
            0 <= i <= answers@.len(),
            view == answers_view(answers@),
            view.len() == answers@.len(),
            forall|j: int|
                0 <= j < i ==> !spec_is_blank(#[trigger] view[j].0) && view[j].1.len() > 0 && (
                forall|k: int| 0 <= k < view[j].1.len() ==> !spec_is_blank(#[trigger] view[j].1[k])),
        decreases answers@.len() - i,
    {
        if is_blank_str(answers[i].0.as_str()) {
            proof {
                if spec_valid_answers(view) {
                    assert(!spec_is_blank(view[i as int].0));
                }
            }
            return false;
        }
        if answers[i].1.len() == 0 {
            proof {
                if spec_valid_answers(view) {
                    assert(!spec_is_blank(view[i as int].0));
                    assert(view[i as int].1.len() > 0);
                }
            }
            return false;
        }
        proof {
            assert(!spec_is_blank(view[i as int].0));
            assert(view[i as int].1.len() > 0);
        }
        let entry_answers = &answers[i].1;
        let mut k: usize = 0;
        while k < entry_answers.len()
            invariant
                0 <= k <= entry_answers@.len(),
                entry_answers@ == answers@[i as int].1@,
                view[i as int].1.len() == entry_answers@.len(),
                forall|j: int| 0 <= j < k ==> !spec_is_blank(#[trigger] view[i as int].1[j]),
            decreases entry_answers@.len() - k,
        {
            if is_blank_str(entry_answers[k].as_str()) {
                proof {
                    assert(spec_is_blank(view[i as int].1[k as int]));
                    if spec_valid_answers(view) {
                        assert(!spec_is_blank(view[i as int].0));
                        assert(!spec_is_blank(view[i as int].1[k as int]));
                    }
                }
                return false;
            }
            k += 1;
        }
        proof {
            assert forall|j: int| 0 <= j < i + 1 implies !spec_is_blank(#[trigger] view[j].0)
                && view[j].1.len() > 0 && (forall|kk: int|
                0 <= kk < view[j].1.len() ==> !spec_is_blank(#[trigger] view[j].1[kk])) by {
                if j == i {
                    assert(!spec_is_blank(view[j].0));
                }
            }
        }
        i += 1;
    }
    true
}

/// The notification payload for a pending user-input request.
pub open spec fn spec_user_input_json(r: SpecUserInputRequest) -> SpecJson {
    SpecJson::Obj(
        seq![
            ("id"@, SpecJson::Str(r.id)),
            ("threadId"@, SpecJson::Str(r.thread_id)),
            ("turnId"@, SpecJson::Str(r.turn_id)),
            ("itemId"@, SpecJson::Str(r.item_id)),
            ("requestedAt"@, SpecJson::Str(r.requested_at)),
            ("questions"@, SpecJson::Arr(Seq::new(r.questions.len(), |i: int| spec_question_json(r.questions[i])))),
        ],
    )
}

/// Mathematical model of a stored user-input request.
pub struct SpecUserInputRequest {
    pub id: Seq<char>,
    pub thread_id: Seq<char>,
    pub turn_id: Seq<char>,
    pub item_id: Seq<char>,
    pub requested_at: Seq<char>,
    pub questions: Seq<SpecQuestion>,
}

impl View for PendingUserInputRequest {
    type V = SpecUserInputRequest;

    open spec fn view(&self) -> SpecUserInputRequest {
        SpecUserInputRequest {
            id: self.id@,
            thread_id: self.thread_id@,
            turn_id: self.turn_id@,
            item_id: self.item_id@,
            requested_at: self.requested_at@,
            questions: questions_view(self.questions@),
        }
    }
}

/// One question as notification JSON.
pub open spec fn spec_question_json(q: SpecQuestion) -> SpecJson {
    SpecJson::Obj(
        seq![
            ("id"@, SpecJson::Str(q.id)),
            ("header"@, SpecJson::Str(q.header)),
            ("question"@, SpecJson::Str(q.question)),
            ("isOther"@, SpecJson::Bool(q.is_other)),
            ("isSecret"@, SpecJson::Bool(q.is_secret)),
            (
                "options"@,
                match q.options {
                    Some(opts) => SpecJson::Arr(
                        Seq::new(
                            opts.len(),
                            |i: int| SpecJson::Obj(
                                seq![
                                    ("label"@, SpecJson::Str(opts[i].0)),
                                    ("description"@, SpecJson::Str(opts[i].1)),
                                ],
                            ),
                        ),
                    ),
                    None => SpecJson::Null,
                },
            ),
        ],
    )
}

/// Renders one question as notification JSON.
#[verifier::loop_isolation(false)]
fn question_to_json(q: &PendingUserInputQuestion) -> (r: JsonValue)
    ensures
        r@ == spec_question_json(q@),
{
    let options = match &q.options {
        Some(opts) => {
            let mut items: Vec<JsonValue> = Vec::new();
            let mut i: usize = 0;
            while i < opts.len()
                invariant
                    0 <= i <= opts@.len(),
                    items@.len() == i,
                    forall|j: int|
                        0 <= j < i ==> #[trigger] items@[j]@ == SpecJson::Obj(
                            seq![
                                ("label"@, SpecJson::Str(opts@[j].label@)),
                                ("description"@, SpecJson::Str(opts@[j].description@)),
                            ],
                        ),
                decreases opts@.len() - i,
            {
                let pair = crate::json::obj2(
                    "label",
                    JsonValue::Str(opts[i].label.clone()),
                    "description",
                    JsonValue::Str(opts[i].description.clone()),
                );
                items.push(pair);
                i += 1;
            }
            let arr = crate::json::arr_from_items(items);
            proof {
                let opts_view = q@.options.unwrap();
                assert(arr@->Arr_0 =~= Seq::new(
                    opts_view.len(),
                    |i: int| SpecJson::Obj(
                        seq![
                            ("label"@, SpecJson::Str(opts_view[i].0)),
                            ("description"@, SpecJson::Str(opts_view[i].1)),
                        ],
                    ),
                ));
            }
            arr
        },
        None => JsonValue::Null,
    };
    let mut fields: Vec<(String, JsonValue)> = Vec::new();
    fields.push(("id".to_owned(), JsonValue::Str(q.id.clone())));
    fields.push(("header".to_owned(), JsonValue::Str(q.header.clone())));
    fields.push(("question".to_owned(), JsonValue::Str(q.question.clone())));
    fields.push(("isOther".to_owned(), JsonValue::Bool(q.is_other)));
    fields.push(("isSecret".to_owned(), JsonValue::Bool(q.is_secret)));
    fields.push(("options".to_owned(), options));
    let r = crate::json::obj_from_fields(fields);
    proof {
        assert(r@->Obj_0 =~= spec_question_json(q@)->Obj_0);
    }
    r
}

/// Renders a pending user-input request as its notification payload.
#[verifier::loop_isolation(false)]
pub fn user_input_to_json(req: &PendingUserInputRequest) -> (r: JsonValue)
    ensures
        r@ == spec_user_input_json(req@),
{
    let mut questions: Vec<JsonValue> = Vec::new();
    let mut i: usize = 0;
    while i < req.questions.len()
        invariant
            0 <= i <= req.questions@.len(),
            questions@.len() == i,
            forall|j: int|
                0 <= j < i ==> #[trigger] questions@[j]@ == spec_question_json(
                    req.questions@[j]@,
                ),
        decreases req.questions@.len() - i,
    {
        let q = question_to_json(&req.questions[i]);
        questions.push(q);
        i += 1;
    }
    let arr = crate::json::arr_from_items(questions);
    proof {
        assert(arr@->Arr_0 =~= Seq::new(
            req@.questions.len(),
            |i: int| spec_question_json(req@.questions[i]),
        ));
    }
    let mut fields: Vec<(String, JsonValue)> = Vec::new();
    fields.push(("id".to_owned(), JsonValue::Str(req.id.clone())));
    fields.push(("threadId".to_owned(), JsonValue::Str(req.thread_id.clone())));
    fields.push(("turnId".to_owned(), JsonValue::Str(req.turn_id.clone())));
    fields.push(("itemId".to_owned(), JsonValue::Str(req.item_id.clone())));
    fields.push(("requestedAt".to_owned(), JsonValue::Str(req.requested_at.clone())));
    fields.push(("questions".to_owned(), arr));
    let r = crate::json::obj_from_fields(fields);
    proof {
        assert(r@->Obj_0 =~= spec_user_input_json(req@)->Obj_0);
    }
    r
}

/// The `{answers: {questionId: {answers: [..]}}}` result written back to
/// the subprocess for a resolved user-input request.
pub open spec fn spec_answers_json(answers: Seq<(Seq<char>, Seq<Seq<char>>)>) -> SpecJson {
    SpecJson::Obj(
        seq![
            (
                "answers"@,
                SpecJson::Obj(
                    Seq::new(
                        answers.len(),
                        |i: int| (
                            answers[i].0,
                            SpecJson::Obj(
                                seq![
                                    (
                                        "answers"@,
                                        SpecJson::Arr(
                                            Seq::new(
                                                answers[i].1.len(),
                                                |j: int| SpecJson::Str(answers[i].1[j]),
                                            ),
                                        ),
                                    ),
                                ],
                            ),
                        ),
                    ),
                ),
            ),
        ],
    )
}

/// Renders an answers map as the subprocess result payload.
#[verifier::loop_isolation(false)]
pub fn answers_to_json(answers: &Vec<(String, Vec<String>)>) -> (r: JsonValue)
    ensures
        r@ == spec_answers_json(answers_view(answers@)),
{
    let ghost view = answers_view(answers@);
    let mut fields: Vec<(String, JsonValue)> = Vec::new();
    let mut i: usize = 0;
    while i < answers.len()
        invariant
            0 <= i <= answers@.len(),
            view == answers_view(answers@),
            view.len() == answers@.len(),
            fields@.len() == i,
            forall|j: int|
                0 <= j < i ==> #[trigger] fields@[j].0@ == view[j].0 && fields@[j].1@
                    == SpecJson::Obj(
                    seq![
                        (
                            "answers"@,
                            SpecJson::Arr(
                                Seq::new(view[j].1.len(), |k: int| SpecJson::Str(view[j].1[k])),
                            ),
                        ),
                    ],
                ),
        decreases answers@.len() - i,
    {
        let mut strs: Vec<JsonValue> = Vec::new();
        let entry_answers = &answers[i].1;
        let mut k: usize = 0;
        while k < entry_answers.len()
            invariant
                0 <= k <= entry_answers@.len(),
                entry_answers@ == answers@[i as int].1@,
                strs@.len() == k,
                forall|j: int|
                    0 <= j < k ==> #[trigger] strs@[j]@ == SpecJson::Str(entry_answers@[j]@),
            decreases entry_answers@.len() - k,
        {
            strs.push(JsonValue::Str(entry_answers[k].clone()));
            k += 1;
        }
        let arr = crate::json::arr_from_items(strs);
        proof {
            assert(arr@->Arr_0 =~= Seq::new(
                view[i as int].1.len(),
                |k: int| SpecJson::Str(view[i as int].1[k]),
            ));
        }
        let inner = crate::json::obj1("answers", arr);
        fields.push((answers[i].0.clone(), inner));
        i += 1;
    }
    let obj = crate::json::obj_from_fields(fields);
    proof {
        assert(obj@->Obj_0 =~= Seq::new(
            view.len(),
            |i: int| (
                view[i].0,
                SpecJson::Obj(
                    seq![
                        (
                            "answers"@,
                            SpecJson::Arr(
                                Seq::new(view[i].1.len(), |j: int| SpecJson::Str(view[i].1[j])),
                            ),
                        ),
                    ],
                ),
            ),
        ));
    }
    let r = crate::json::obj1("answers", obj);
    r
}

} // verus!
