//! Execution-time plan snapshot: the structured task list that the model
//! maintains through the `UpdatePlan` tool.
//!
//! Snapshots are never stored on their own: each successful call is an ordinary
//! pair of tool use and tool result in the message history, and
//! [`rebuild_from_messages`] recovers the latest valid snapshot from it.

use crate::json::{entry_models, lemma_model_of_object, lookup, models, Json, JsonView};
use crate::language_model::{MessageContent, MessageContentView};
use crate::message::{Message, MessageView};
use crate::outside::{debug_quote, debug_quoted};
use crate::text::{
    blank, char_count, contains_str, dec, dec_signed, eq_ignore_case, has_char, lower, or_empty,
    push_dec, str_eq, str_trim, strs, trim,
};
use crate::tools::UPDATE_PLAN;
use vstd::prelude::*;

verus! {

/// Upper bound on tasks in one snapshot.
pub const MAX_PLAN_STEPS: usize = 12;

/// Maximum length of a task title in characters, after trimming.
pub const MAX_STEP_LEN: usize = 120;

/// Lifecycle of one plan step.
#[derive(Debug, Clone, Copy, PartialEq, Eq, Structural)]
pub enum PlanStepStatus {
    Pending,
    InProgress,
    Completed,
}

impl DeepView for PlanStepStatus {
    type V = PlanStepStatus;

    open spec fn deep_view(&self) -> PlanStepStatus {
        *self
    }
}

/// One task in the plan: a short title and its current status.
#[derive(Debug, PartialEq, Eq)]
pub struct PlanStep {
    /// Concise, single-line task title.
    pub step: String,
    pub status: PlanStepStatus,
}

/// The mathematical value of a [`PlanStep`].
#[verifier::ext_equal]
pub struct PlanStepView {
    pub step: Seq<char>,
    pub status: PlanStepStatus,
}

impl DeepView for PlanStep {
    type V = PlanStepView;

    open spec fn deep_view(&self) -> PlanStepView {
        PlanStepView {
            step: self.step@,
            status: self.status,
        }
    }
}

impl Clone for PlanStep {
    fn clone(&self) -> (r: Self)
        ensures
            r.deep_view() == self.deep_view(),
    {
        let r = PlanStep {
            step: self.step.clone(),
            status: self.status,
        };
        r
    }
}

/// A validated plan. No steps at all means that the model dropped its task list;
/// the explanation is an optional note about the latest update.
#[derive(Debug, PartialEq, Eq)]
pub struct PlanSnapshot {
    pub explanation: Option<String>,
    pub steps: Vec<PlanStep>,
}

/// The mathematical value of a [`PlanSnapshot`].
#[verifier::ext_equal]
pub struct PlanSnapshotView {
    pub explanation: Option<Seq<char>>,
    pub steps: Seq<PlanStepView>,
}

impl DeepView for PlanSnapshot {
    type V = PlanSnapshotView;

    open spec fn deep_view(&self) -> PlanSnapshotView {
        PlanSnapshotView {
            explanation: self.explanation.deep_view(),
            steps: self.steps.deep_view(),
        }
    }
}

impl Clone for PlanSnapshot {
    fn clone(&self) -> (r: Self)
        ensures
            r.deep_view() == self.deep_view(),
    {
        let r = PlanSnapshot {
            explanation: self.explanation.clone(),
            steps: self.steps.clone(),
        };
        assert(r.steps.deep_view() =~= self.steps.deep_view());
        r
    }
}

/// Input of the `UpdatePlan` tool, before its titles are validated.
#[derive(Debug, PartialEq, Eq)]
pub struct UpdatePlanInput {
    /// Optional note about what changed in this update.
    pub explanation: Option<String>,
    /// The full task list. An empty one clears the current plan.
    pub plan: Vec<PlanStep>,
}

/// The mathematical value of a [`UpdatePlanInput`].
#[verifier::ext_equal]
pub struct UpdatePlanInputView {
    pub explanation: Option<Seq<char>>,
    pub plan: Seq<PlanStepView>,
}

impl DeepView for UpdatePlanInput {
    type V = UpdatePlanInputView;

    open spec fn deep_view(&self) -> UpdatePlanInputView {
        UpdatePlanInputView {
            explanation: self.explanation.deep_view(),
            plan: self.plan.deep_view(),
        }
    }
}

// ---------------------------------------------------------------------------
// Decoding
// ---------------------------------------------------------------------------

pub open spec fn status_of(name: Seq<char>) -> Option<PlanStepStatus> {
    if name == "pending"@ {
        Some(PlanStepStatus::Pending)
    } else if name == "in_progress"@ {
        Some(PlanStepStatus::InProgress)
    } else if name == "completed"@ {
        Some(PlanStepStatus::Completed)
    } else {
        None
    }
}

/// The status with the given wire name.
pub fn status_from_wire(name: &str) -> (r: Option<PlanStepStatus>)
    ensures
        r == status_of(name@),
{
    if str_eq(name, "pending") {
        Some(PlanStepStatus::Pending)
    } else if str_eq(name, "in_progress") {
        Some(PlanStepStatus::InProgress)
    } else if str_eq(name, "completed") {
        Some(PlanStepStatus::Completed)
    } else {
        None
    }
}

/// A status is its wire name, or an object with that name alone and a null.
pub open spec fn decoded_status(j: JsonView) -> Option<PlanStepStatus> {
    match j {
        JsonView::Str(s) => status_of(s),
        JsonView::Object(es) => if es.len() == 1 && es[0].1 is Null {
            status_of(es[0].0)
        } else {
            None
        },
        _ => None,
    }
}

fn decode_status(j: &Json) -> (r: Option<PlanStepStatus>)
    ensures
        r == decoded_status(j.model()),
{
    match j {
        Json::Str(s) => status_from_wire(s.as_str()),
        Json::Object(es) => {
            proof {
                lemma_model_of_object(*es);
            }
            if es.len() == 1 {
                assert(entry_models(es@)[0] == (es@[0].0@, es@[0].1.model()));
                match &es[0].1 {
                    Json::Null => status_from_wire(es[0].0.as_str()),
                    _ => None,
                }
            } else {
                None
            }
        },
        _ => None,
    }
}

/// A step from its two members.
pub open spec fn step_of(title: Option<JsonView>, status: Option<JsonView>) -> Option<
    PlanStepView,
> {
    match (title, status) {
        (Some(JsonView::Str(step)), Some(s)) => match decoded_status(s) {
            Some(status) => Some(PlanStepView { step, status }),
            None => None,
        },
        _ => None,
    }
}

/// A step is an object with a title and a status and nothing else, or the pair
/// of them.
pub open spec fn decoded_step(j: JsonView) -> Option<PlanStepView> {
    if step_refusal(j) is Some {
        None
    } else {
        match j {
            JsonView::Object(es) => step_of(lookup(es, "step"@), lookup(es, "status"@)),
            JsonView::Array(xs) => step_of(Some(xs[0]), Some(xs[1])),
            _ => None,
        }
    }
}

fn make_step(title: Option<&Json>, status: Option<&Json>) -> (r: Option<PlanStep>)
    ensures
        r.deep_view() == step_of(opt_model(title), opt_model(status)),
{
    match (title, status) {
        (Some(Json::Str(step)), Some(s)) => match decode_status(s) {
            Some(status) => Some(PlanStep { step: step.clone(), status }),
            None => None,
        },
        _ => None,
    }
}

pub open spec fn opt_model(j: Option<&Json>) -> Option<JsonView> {
    match j {
        Some(j) => Some(j.model()),
        None => None,
    }
}

fn decode_step(j: &Json) -> (r: Option<PlanStep>)
    ensures
        r.deep_view() == decoded_step(j.model()),
{
    if find_step_refusal(j).is_some() {
        return None;
    }
    match j {
        Json::Object(es) => {
            proof {
                lemma_model_of_object(*es);
            }
            make_step(j.get("step"), j.get("status"))
        },
        Json::Array(xs) => {
            proof {
                crate::json::lemma_model_of_array(*xs);
            }
            make_step(Some(&xs[0]), Some(&xs[1]))
        },
        _ => None,
    }
}

/// The steps of a list, if every element is one.
pub open spec fn decoded_steps(xs: Seq<JsonView>) -> Option<Seq<PlanStepView>> {
    if forall|i: int| 0 <= i < xs.len() ==> decoded_step(#[trigger] xs[i]) is Some {
        Some(Seq::new(xs.len(), |i: int| decoded_step(xs[i])->0))
    } else {
        None
    }
}

fn decode_steps(xs: &Vec<Json>) -> (r: Option<Vec<PlanStep>>)
    ensures
        r.deep_view() == decoded_steps(models(xs@)),
{
    let ghost all = models(xs@);
    let mut out: Vec<PlanStep> = Vec::new();
    for i in 0..xs.len()
        invariant
            all == models(xs@),
            out@.len() == i,
            forall|k: int| 0 <= k < i ==> decoded_step(#[trigger] all[k]) is Some,
            forall|k: int|
                0 <= k < i ==> (#[trigger] out@[k]).deep_view() == decoded_step(all[k])->0,
    {
        assert(all[i as int] == xs@[i as int].model());
        match decode_step(&xs[i]) {
            Some(s) => {
                out.push(s);
            },
            None => {
                return None;
            },
        }
    }
    assert(out.deep_view() =~= decoded_steps(all)->0);
    Some(out)
}

/// An input from its two members: the note may be missing or null.
pub open spec fn input_of(note: Option<JsonView>, plan: Option<JsonView>) -> Option<
    UpdatePlanInputView,
> {
    let explanation: Option<Option<Seq<char>>> = match note {
        None => Some(None),
        Some(JsonView::Null) => Some(None),
        Some(JsonView::Str(s)) => Some(Some(s)),
        _ => None,
    };
    match (explanation, plan) {
        (Some(explanation), Some(JsonView::Array(xs))) => match decoded_steps(xs) {
            Some(plan) => Some(UpdatePlanInputView { explanation, plan }),
            None => None,
        },
        _ => None,
    }
}

/// An input is an object with a plan, perhaps a note and nothing else, or the
/// pair of note and plan.
pub open spec fn decoded_input(j: JsonView) -> Option<UpdatePlanInputView> {
    if input_refusal(j) is Some {
        None
    } else {
        match j {
            JsonView::Object(es) => input_of(lookup(es, "explanation"@), lookup(es, "plan"@)),
            JsonView::Array(xs) => input_of(Some(xs[0]), Some(xs[1])),
            _ => None,
        }
    }
}

fn make_input(note: Option<&Json>, plan: Option<&Json>) -> (r: Option<UpdatePlanInput>)
    ensures
        r.deep_view() == input_of(opt_model(note), opt_model(plan)),
{
    let explanation: Option<String> = match note {
        None => None,
        Some(Json::Null) => None,
        Some(Json::Str(s)) => Some(s.clone()),
        _ => {
            return None;
        },
    };
    match plan {
        Some(Json::Array(xs)) => {
            proof {
                crate::json::lemma_model_of_array(*xs);
            }
            match decode_steps(xs) {
                Some(plan) => Some(UpdatePlanInput { explanation, plan }),
                None => None,
            }
        },
        _ => None,
    }
}

/// Decodes the input of the tool; `None` where it has another shape.
pub fn decode_input(j: &Json) -> (r: Option<UpdatePlanInput>)
    ensures
        r.deep_view() == decoded_input(j.model()),
{
    if find_input_refusal(j).is_some() {
        return None;
    }
    match j {
        Json::Object(es) => {
            proof {
                lemma_model_of_object(*es);
            }
            make_input(j.get("explanation"), j.get("plan"))
        },
        Json::Array(xs) => {
            proof {
                crate::json::lemma_model_of_array(*xs);
            }
            make_input(Some(&xs[0]), Some(&xs[1]))
        },
        _ => None,
    }
}

/// A stored snapshot: an object with steps and perhaps a note, or the pair of
/// note and steps.
pub open spec fn decoded_snapshot(j: JsonView) -> Option<UpdatePlanInputView> {
    match j {
        JsonView::Object(es) => input_of(lookup(es, "explanation"@), lookup(es, "steps"@)),
        JsonView::Array(xs) => if xs.len() == 2 {
            input_of(Some(xs[0]), Some(xs[1]))
        } else {
            None
        },
        _ => None,
    }
}

/// Decodes a stored snapshot; `None` where it has another shape.
pub fn decode_snapshot(j: &Json) -> (r: Option<PlanSnapshot>)
    ensures
        match decoded_snapshot(j.model()) {
            Some(s) => r matches Some(p) && p.deep_view() == (PlanSnapshotView {
                explanation: s.explanation,
                steps: s.plan,
            }),
            None => r is None,
        },
{
    let parsed = match j {
        Json::Object(es) => {
            proof {
                lemma_model_of_object(*es);
            }
            make_input(j.get("explanation"), j.get("steps"))
        },
        Json::Array(xs) => {
            proof {
                crate::json::lemma_model_of_array(*xs);
            }
            if xs.len() == 2 {
                make_input(Some(&xs[0]), Some(&xs[1]))
            } else {
                None
            }
        },
        _ => None,
    };
    match parsed {
        Some(p) => Some(PlanSnapshot { explanation: p.explanation, steps: p.plan }),
        None => None,
    }
}

// ---------------------------------------------------------------------------
// Why an input of another shape is refused
// ---------------------------------------------------------------------------

/// A value as a complaint names it.
pub open spec fn named_value(v: JsonView) -> Seq<char> {
    match v {
        JsonView::Null => "null"@,
        JsonView::Bool(b) => if b {
            "boolean `true`"@
        } else {
            "boolean `false`"@
        },
        JsonView::Unsigned(n) => "integer `"@ + dec(n as nat) + "`"@,
        JsonView::Negative(n) => "integer `"@ + dec_signed(n as int) + "`"@,
        JsonView::Decimal(s) => "floating point `"@ + s + "`"@,
        JsonView::Str(s) => "string "@ + debug_quoted(s),
        JsonView::Array(_) => "sequence"@,
        JsonView::Object(_) => "map"@,
    }
}

/// The complaint about a value of the wrong type.
pub open spec fn wrong_type(v: JsonView, expected: Seq<char>) -> Seq<char> {
    "invalid type: "@ + named_value(v) + ", expected "@ + expected
}

fn name_of_value(v: &Json) -> (r: String)
    ensures
        r@ == named_value(v.model()),
{
    match v {
        Json::Null => "null".to_owned(),
        Json::Bool(b) => if *b {
            "boolean `true`".to_owned()
        } else {
            "boolean `false`".to_owned()
        },
        Json::Unsigned(n) => {
            let mut out = "integer `".to_owned();
            push_dec(&mut out, *n);
            out.append("`");
            out
        },
        Json::Negative(n) => {
            let mut out = "integer `".to_owned();
            let ghost before = out@;
            if *n < 0 {
                out.push('-');
                let m: u64 = if *n == i64::MIN {
                    0x8000_0000_0000_0000
                } else {
                    (-*n) as u64
                };
                push_dec(&mut out, m);
            } else {
                push_dec(&mut out, *n as u64);
            }
            assert(out@ =~= before + dec_signed(*n as int));
            out.append("`");
            out
        },
        Json::Decimal(s) => {
            let mut out = "floating point `".to_owned();
            out.append(s.as_str());
            out.append("`");
            out
        },
        Json::Str(s) => {
            let mut out = "string ".to_owned();
            let quoted = debug_quote(s.as_str());
            out.append(quoted.as_str());
            out
        },
        Json::Array(_) => "sequence".to_owned(),
        Json::Object(_) => "map".to_owned(),
    }
}

fn wrong_type_error(v: &Json, expected: &str) -> (r: String)
    ensures
        r@ == wrong_type(v.model(), expected@),
{
    let mut e = "invalid type: ".to_owned();
    let name = name_of_value(v);
    e.append(name.as_str());
    e.append(", expected ");
    e.append(expected);
    e
}

/// The complaint about a list of the wrong length.
pub open spec fn wrong_length(n: nat, expected: Seq<char>) -> Seq<char> {
    "invalid length "@ + dec(n) + ", expected "@ + expected
}

fn wrong_length_error(n: usize, expected: &str) -> (r: String)
    ensures
        r@ == wrong_length(n as nat, expected@),
{
    let mut e = "invalid length ".to_owned();
    push_dec(&mut e, n as u64);
    e.append(", expected ");
    e.append(expected);
    e
}

/// The complaint about a key that is neither of the two.
pub open spec fn unknown_field(key: Seq<char>, a: Seq<char>, b: Seq<char>) -> Seq<char> {
    "unknown field `"@ + key + "`, expected `"@ + a + "` or `"@ + b + "`"@
}

fn unknown_field_error(key: &str, a: &str, b: &str) -> (r: String)
    ensures
        r@ == unknown_field(key@, a@, b@),
{
    let mut e = "unknown field `".to_owned();
    e.append(key);
    e.append("`, expected `");
    e.append(a);
    e.append("` or `");
    e.append(b);
    e.append("`");
    e
}

/// Why a value is no text.
pub open spec fn text_refusal(v: JsonView) -> Option<Seq<char>> {
    match v {
        JsonView::Str(_) => None,
        _ => Some(wrong_type(v, "a string"@)),
    }
}

fn find_text_refusal(v: &Json) -> (r: Option<String>)
    ensures
        r.deep_view() == text_refusal(v.model()),
{
    match v {
        Json::Str(_) => None,
        _ => Some(wrong_type_error(v, "a string")),
    }
}

/// The complaint about a status of another name.
pub open spec fn unknown_status(name: Seq<char>) -> Seq<char> {
    "unknown variant `"@ + name + "`, expected one of `pending`, `in_progress`, `completed`"@
}

/// Why a value is no status.
pub open spec fn status_refusal(v: JsonView) -> Option<Seq<char>> {
    match v {
        JsonView::Str(name) => if status_of(name) is Some {
            None
        } else {
            Some(unknown_status(name))
        },
        JsonView::Object(es) => if es.len() != 1 {
            Some("invalid value: map, expected map with a single key"@)
        } else if status_of(es[0].0) is None {
            Some(unknown_status(es[0].0))
        } else if es[0].1 is Null {
            None
        } else {
            Some(wrong_type(es[0].1, "unit"@))
        },
        _ => Some(wrong_type(v, "string or map"@)),
    }
}

fn name_refusal(name: &str) -> (r: Option<String>)
    ensures
        r.deep_view() == (if status_of(name@) is Some {
            None
        } else {
            Some(unknown_status(name@))
        }),
{
    if status_from_wire(name).is_some() {
        return None;
    }
    let mut e = "unknown variant `".to_owned();
    e.append(name);
    e.append("`, expected one of `pending`, `in_progress`, `completed`");
    Some(e)
}

fn find_status_refusal(v: &Json) -> (r: Option<String>)
    ensures
        r.deep_view() == status_refusal(v.model()),
{
    match v {
        Json::Str(name) => name_refusal(name.as_str()),
        Json::Object(es) => {
            proof {
                lemma_model_of_object(*es);
            }
            if es.len() != 1 {
                return Some("invalid value: map, expected map with a single key".to_owned());
            }
            assert(entry_models(es@)[0] == (es@[0].0@, es@[0].1.model()));
            match name_refusal(es[0].0.as_str()) {
                Some(e) => Some(e),
                None => match &es[0].1 {
                    Json::Null => None,
                    other => Some(wrong_type_error(other, "unit")),
                },
            }
        },
        _ => Some(wrong_type_error(v, "string or map")),
    }
}

/// Why a member does not belong in a step.
pub open spec fn step_member_refusal(key: Seq<char>, v: JsonView) -> Option<Seq<char>> {
    if key == "step"@ {
        text_refusal(v)
    } else if key == "status"@ {
        status_refusal(v)
    } else {
        Some(unknown_field(key, "step"@, "status"@))
    }
}

/// Why the first faulty member at or behind `i` does not belong in a step.
pub open spec fn step_members_refusal(es: Seq<(Seq<char>, JsonView)>, i: int) -> Option<Seq<char>>
    decreases es.len() - i,
{
    if i >= es.len() {
        None
    } else {
        match step_member_refusal(es[i].0, es[i].1) {
            Some(e) => Some(e),
            None => step_members_refusal(es, i + 1),
        }
    }
}

/// Why a value is no step: the first thing that is wrong with it.
pub open spec fn step_refusal(j: JsonView) -> Option<Seq<char>> {
    match j {
        JsonView::Object(es) => match step_members_refusal(es, 0) {
            Some(e) => Some(e),
            None => if lookup(es, "step"@) is None {
                Some("missing field `step`"@)
            } else if lookup(es, "status"@) is None {
                Some("missing field `status`"@)
            } else {
                None
            },
        },
        JsonView::Array(xs) => if xs.len() == 0 {
            Some(wrong_length(0, "struct PlanStep with 2 elements"@))
        } else if text_refusal(xs[0]) is Some {
            text_refusal(xs[0])
        } else if xs.len() == 1 {
            Some(wrong_length(1, "struct PlanStep with 2 elements"@))
        } else if status_refusal(xs[1]) is Some {
            status_refusal(xs[1])
        } else if xs.len() > 2 {
            Some(wrong_length(xs.len(), "fewer elements in array"@))
        } else {
            None
        },
        _ => Some(wrong_type(j, "struct PlanStep"@)),
    }
}

fn find_step_members_refusal(es: &Vec<(String, Json)>) -> (r: Option<String>)
    ensures
        r.deep_view() == step_members_refusal(entry_models(es@), 0),
{
    let ghost all = entry_models(es@);
    let mut i: usize = 0;
    while i < es.len()
        invariant
            i <= es@.len(),
            all == entry_models(es@),
            step_members_refusal(all, 0) == step_members_refusal(all, i as int),
        decreases es@.len() - i,
    {
        assert(all[i as int] == (es@[i as int].0@, es@[i as int].1.model()));
        let key = es[i].0.as_str();
        let refusal = if str_eq(key, "step") {
            find_text_refusal(&es[i].1)
        } else if str_eq(key, "status") {
            find_status_refusal(&es[i].1)
        } else {
            Some(unknown_field_error(key, "step", "status"))
        };
        if refusal.is_some() {
            return refusal;
        }
        i += 1;
    }
    None
}

fn find_step_refusal(j: &Json) -> (r: Option<String>)
    ensures
        r.deep_view() == step_refusal(j.model()),
{
    match j {
        Json::Object(es) => {
            proof {
                lemma_model_of_object(*es);
            }
            let refusal = find_step_members_refusal(es);
            if refusal.is_some() {
                return refusal;
            }
            if j.get("step").is_none() {
                Some("missing field `step`".to_owned())
            } else if j.get("status").is_none() {
                Some("missing field `status`".to_owned())
            } else {
                None
            }
        },
        Json::Array(xs) => {
            proof {
                crate::json::lemma_model_of_array(*xs);
            }
            if xs.len() == 0 {
                return Some(wrong_length_error(0, "struct PlanStep with 2 elements"));
            }
            let refusal = find_text_refusal(&xs[0]);
            if refusal.is_some() {
                return refusal;
            }
            if xs.len() == 1 {
                return Some(wrong_length_error(1, "struct PlanStep with 2 elements"));
            }
            let refusal = find_status_refusal(&xs[1]);
            if refusal.is_some() {
                return refusal;
            }
            if xs.len() > 2 {
                return Some(wrong_length_error(xs.len(), "fewer elements in array"));
            }
            None
        },
        _ => Some(wrong_type_error(j, "struct PlanStep")),
    }
}

/// Why the first value at or behind `i` that is no step is none.
pub open spec fn steps_refusal(xs: Seq<JsonView>, i: int) -> Option<Seq<char>>
    decreases xs.len() - i,
{
    if i >= xs.len() {
        None
    } else {
        match step_refusal(xs[i]) {
            Some(e) => Some(e),
            None => steps_refusal(xs, i + 1),
        }
    }
}

/// Why a value is no list of steps.
pub open spec fn list_refusal(v: JsonView) -> Option<Seq<char>> {
    match v {
        JsonView::Array(xs) => steps_refusal(xs, 0),
        _ => Some(wrong_type(v, "a sequence"@)),
    }
}

fn find_list_refusal(v: &Json) -> (r: Option<String>)
    ensures
        r.deep_view() == list_refusal(v.model()),
{
    match v {
        Json::Array(xs) => {
            proof {
                crate::json::lemma_model_of_array(*xs);
            }
            let ghost all = models(xs@);
            let mut i: usize = 0;
            while i < xs.len()
                invariant
                    i <= xs@.len(),
                    all == models(xs@),
                    list_refusal(v.model()) == steps_refusal(all, i as int),
                decreases xs@.len() - i,
            {
                assert(all[i as int] == xs@[i as int].model());
                let refusal = find_step_refusal(&xs[i]);
                if refusal.is_some() {
                    return refusal;
                }
                i += 1;
            }
            None
        },
        _ => Some(wrong_type_error(v, "a sequence")),
    }
}

/// Why a value is no note: a missing one is null.
pub open spec fn note_refusal(v: JsonView) -> Option<Seq<char>> {
    match v {
        JsonView::Null => None,
        _ => text_refusal(v),
    }
}

fn find_note_refusal(v: &Json) -> (r: Option<String>)
    ensures
        r.deep_view() == note_refusal(v.model()),
{
    match v {
        Json::Null => None,
        _ => find_text_refusal(v),
    }
}

/// Why a member does not belong in an input.
pub open spec fn input_member_refusal(key: Seq<char>, v: JsonView) -> Option<Seq<char>> {
    if key == "explanation"@ {
        note_refusal(v)
    } else if key == "plan"@ {
        list_refusal(v)
    } else {
        Some(unknown_field(key, "explanation"@, "plan"@))
    }
}

/// Why the first faulty member at or behind `i` does not belong in an input.
pub open spec fn input_members_refusal(es: Seq<(Seq<char>, JsonView)>, i: int) -> Option<Seq<char>>
    decreases es.len() - i,
{
    if i >= es.len() {
        None
    } else {
        match input_member_refusal(es[i].0, es[i].1) {
            Some(e) => Some(e),
            None => input_members_refusal(es, i + 1),
        }
    }
}

/// Why a value is no input: the first thing that is wrong with it.
pub open spec fn input_refusal(j: JsonView) -> Option<Seq<char>> {
    match j {
        JsonView::Object(es) => match input_members_refusal(es, 0) {
            Some(e) => Some(e),
            None => if lookup(es, "plan"@) is None {
                Some("missing field `plan`"@)
            } else {
                None
            },
        },
        JsonView::Array(xs) => if xs.len() > 0 && note_refusal(xs[0]) is Some {
            note_refusal(xs[0])
        } else if xs.len() < 2 {
            Some(wrong_length(1, "struct UpdatePlanInput with 2 elements"@))
        } else if list_refusal(xs[1]) is Some {
            list_refusal(xs[1])
        } else if xs.len() > 2 {
            Some(wrong_length(xs.len(), "fewer elements in array"@))
        } else {
            None
        },
        _ => Some(wrong_type(j, "struct UpdatePlanInput"@)),
    }
}

fn find_input_members_refusal(es: &Vec<(String, Json)>) -> (r: Option<String>)
    ensures
        r.deep_view() == input_members_refusal(entry_models(es@), 0),
{
    let ghost all = entry_models(es@);
    let mut i: usize = 0;
    while i < es.len()
        invariant
            i <= es@.len(),
            all == entry_models(es@),
            input_members_refusal(all, 0) == input_members_refusal(all, i as int),
        decreases es@.len() - i,
    {
        assert(all[i as int] == (es@[i as int].0@, es@[i as int].1.model()));
        let key = es[i].0.as_str();
        let refusal = if str_eq(key, "explanation") {
            find_note_refusal(&es[i].1)
        } else if str_eq(key, "plan") {
            find_list_refusal(&es[i].1)
        } else {
            Some(unknown_field_error(key, "explanation", "plan"))
        };
        if refusal.is_some() {
            return refusal;
        }
        i += 1;
    }
    None
}

/// Why a value is no input.
pub fn find_input_refusal(j: &Json) -> (r: Option<String>)
    ensures
        r.deep_view() == input_refusal(j.model()),
{
    match j {
        Json::Object(es) => {
            proof {
                lemma_model_of_object(*es);
            }
            let refusal = find_input_members_refusal(es);
            if refusal.is_some() {
                return refusal;
            }
            if j.get("plan").is_none() {
                Some("missing field `plan`".to_owned())
            } else {
                None
            }
        },
        Json::Array(xs) => {
            proof {
                crate::json::lemma_model_of_array(*xs);
            }
            if xs.len() > 0 {
                let refusal = find_note_refusal(&xs[0]);
                if refusal.is_some() {
                    return refusal;
                }
            }
            if xs.len() < 2 {
                return Some(wrong_length_error(1, "struct UpdatePlanInput with 2 elements"));
            }
            let refusal = find_list_refusal(&xs[1]);
            if refusal.is_some() {
                return refusal;
            }
            if xs.len() > 2 {
                return Some(wrong_length_error(xs.len(), "fewer elements in array"));
            }
            None
        },
        _ => Some(wrong_type_error(j, "struct UpdatePlanInput")),
    }
}

proof fn lemma_lookup_is_a_member(es: Seq<(Seq<char>, JsonView)>, key: Seq<char>)
    ensures
        lookup(es, key) matches Some(v) ==> exists|k: int|
            0 <= k < es.len() && #[trigger] es[k] == (key, v),
    decreases es.len(),
{
    if es.len() > 0 {
        if es[0].0 == key {
            assert(es[0] == (key, es[0].1));
        } else {
            let rest = es.skip(1);
            lemma_lookup_is_a_member(rest, key);
            if let Some(v) = lookup(rest, key) {
                let k = choose|k: int| 0 <= k < rest.len() && #[trigger] rest[k] == (key, v);
                assert(es[k + 1] == (key, v));
            }
        }
    }
}

proof fn lemma_step_members(es: Seq<(Seq<char>, JsonView)>, i: int)
    requires
        0 <= i <= es.len(),
        step_members_refusal(es, i) is None,
    ensures
        forall|k: int|
            i <= k < es.len() ==> step_member_refusal((#[trigger] es[k]).0, es[k].1) is None,
    decreases es.len() - i,
{
    if i < es.len() {
        lemma_step_members(es, i + 1);
    }
}

proof fn lemma_input_members(es: Seq<(Seq<char>, JsonView)>, i: int)
    requires
        0 <= i <= es.len(),
        input_members_refusal(es, i) is None,
    ensures
        forall|k: int|
            i <= k < es.len() ==> input_member_refusal((#[trigger] es[k]).0, es[k].1) is None,
    decreases es.len() - i,
{
    if i < es.len() {
        lemma_input_members(es, i + 1);
    }
}

proof fn lemma_step_is_not_refused(j: JsonView)
    ensures
        step_refusal(j) is None <==> decoded_step(j) is Some,
{
    if let JsonView::Object(es) = j {
        if step_refusal(j) is None {
            reveal_strlit("step");
            reveal_strlit("status");
            assert("step"@.len() != "status"@.len());
            lemma_step_members(es, 0);
            lemma_lookup_is_a_member(es, "step"@);
            lemma_lookup_is_a_member(es, "status"@);
        }
    }
}

proof fn lemma_steps_are_not_refused(xs: Seq<JsonView>, i: int)
    requires
        0 <= i <= xs.len(),
        steps_refusal(xs, i) is None,
    ensures
        forall|k: int| i <= k < xs.len() ==> decoded_step(#[trigger] xs[k]) is Some,
    decreases xs.len() - i,
{
    if i < xs.len() {
        lemma_step_is_not_refused(xs[i]);
        lemma_steps_are_not_refused(xs, i + 1);
    }
}

/// A value is an input exactly where there is no reason to refuse it.
pub proof fn an_input_is_not_refused(j: JsonView)
    ensures
        input_refusal(j) is None <==> decoded_input(j) is Some,
{
    if input_refusal(j) is None {
        match j {
            JsonView::Object(es) => {
                reveal_strlit("explanation");
                reveal_strlit("plan");
                assert("explanation"@.len() != "plan"@.len());
                lemma_input_members(es, 0);
                lemma_lookup_is_a_member(es, "explanation"@);
                lemma_lookup_is_a_member(es, "plan"@);
                let plan = lookup(es, "plan"@)->0;
                assert(list_refusal(plan) is None);
                lemma_steps_are_not_refused(plan->Array_0, 0);
            },
            JsonView::Array(xs) => {
                lemma_steps_are_not_refused(xs[1]->Array_0, 0);
            },
            _ => {},
        }
    }
}

// ---------------------------------------------------------------------------
// Validation
// ---------------------------------------------------------------------------

/// Whether an earlier step has the title of step `i`, but for case.
pub open spec fn title_taken(plan: Seq<PlanStepView>, i: int) -> bool {
    exists|j: int|
        0 <= j < i && lower(trim(#[trigger] plan[j].step)) == lower(trim(plan[i].step))
}

/// The complaint about a title that occurs twice; `quoted` is the title between
/// quotes.
pub open spec fn duplicate_title(quoted: Seq<char>) -> Seq<char> {
    "duplicate step title: "@ + quoted
}

/// What is wrong with the title of step `i`, if anything.
pub open spec fn title_problem(plan: Seq<PlanStepView>, i: int) -> Option<Seq<char>> {
    let title = trim(plan[i].step);
    let step = "step "@ + dec((i + 1) as nat);
    if title.len() == 0 {
        Some(step + " has an empty title"@)
    } else if title.contains('\n') {
        Some(step + " title must be a single line"@)
    } else if title.len() > MAX_STEP_LEN {
        Some(step + " title exceeds 120 characters"@)
    } else if title_taken(plan, i) {
        Some(duplicate_title(debug_quoted(title)))
    } else {
        None
    }
}

/// What is wrong with the first faulty title at or behind `i`.
pub open spec fn titles_problem(plan: Seq<PlanStepView>, i: int) -> Option<Seq<char>>
    decreases plan.len() - i,
{
    if i >= plan.len() {
        None
    } else {
        match title_problem(plan, i) {
            Some(p) => Some(p),
            None => titles_problem(plan, i + 1),
        }
    }
}

/// The number of steps under way.
pub open spec fn in_progress(plan: Seq<PlanStepView>) -> nat
    decreases plan.len(),
{
    if plan.len() == 0 {
        0
    } else {
        in_progress(plan.drop_last()) + if plan.last().status == PlanStepStatus::InProgress {
            1nat
        } else {
            0
        }
    }
}

/// What is wrong with a plan, if anything.
pub open spec fn plan_problem(plan: Seq<PlanStepView>) -> Option<Seq<char>> {
    if plan.len() > MAX_PLAN_STEPS {
        Some(
            "too many steps: "@ + dec(plan.len())
                + " (max 12); split the work into a shorter plan"@,
        )
    } else if titles_problem(plan, 0) is Some {
        titles_problem(plan, 0)
    } else if in_progress(plan) > 1 {
        Some(
            "at most one step may be in_progress at a time (found "@ + dec(in_progress(plan))
                + ")"@,
        )
    } else {
        None
    }
}

/// The steps with their titles trimmed.
pub open spec fn trimmed_steps(plan: Seq<PlanStepView>) -> Seq<PlanStepView> {
    Seq::new(
        plan.len(),
        |i: int| PlanStepView { step: trim(plan[i].step), status: plan[i].status },
    )
}

/// The trimmed note, if anything is left of it.
pub open spec fn trimmed_note(note: Option<Seq<char>>) -> Option<Seq<char>> {
    match note {
        Some(e) => if trim(e).len() > 0 {
            Some(trim(e))
        } else {
            None
        },
        None => None,
    }
}

/// The snapshot of an input, or what is wrong with it.
pub open spec fn snapshot_of(input: JsonView) -> Result<PlanSnapshotView, Seq<char>> {
    match decoded_input(input) {
        None => Err("invalid UpdatePlan input: "@ + or_empty(input_refusal(input))),
        Some(p) => match plan_problem(p.plan) {
            Some(e) => Err(e),
            None => Ok(
                PlanSnapshotView {
                    explanation: trimmed_note(p.explanation),
                    steps: trimmed_steps(p.plan),
                },
            ),
        },
    }
}

/// The complaint about a title that occurs twice.
pub fn duplicate_title_error(quoted: &str) -> (r: String)
    ensures
        r@ == duplicate_title(quoted@),
{
    let mut e = "duplicate step title: ".to_owned();
    e.append(quoted);
    e
}

fn step_error(i: usize, what: &str) -> (r: String)
    requires
        i < MAX_PLAN_STEPS,
    ensures
        r@ == "step "@ + dec((i + 1) as nat) + what@,
{
    let mut e = "step ".to_owned();
    push_dec(&mut e, i as u64 + 1);
    e.append(what);
    e
}

fn has_title(steps: &Vec<PlanStep>, title: &str) -> (r: bool)
    ensures
        r == (exists|j: int|
            0 <= j < steps@.len() && lower((#[trigger] steps@[j]).step@) == lower(title@)),
{
    for j in 0..steps.len()
        invariant
            forall|k: int| 0 <= k < j ==> lower((#[trigger] steps@[k]).step@) != lower(title@),
    {
        if eq_ignore_case(steps[j].step.as_str(), title) {
            return true;
        }
    }
    false
}

impl PlanSnapshot {
    /// Validates the input of the tool: at most [`MAX_PLAN_STEPS`] steps; titles
    /// that trim to a single line of one to [`MAX_STEP_LEN`] characters and
    /// differ by more than case; at most one step under way. An empty list is
    /// valid and clears the plan. An input of another shape is answered with the
    /// field or the status that is wrong.
    pub fn from_input(input: &Json) -> (r: Result<Self, String>)
        ensures
            match r {
                Ok(s) => snapshot_of(input.model()) == Ok::<PlanSnapshotView, Seq<char>>(
                    s.deep_view(),
                ),
                Err(e) => snapshot_of(input.model()) == Err::<PlanSnapshotView, Seq<char>>(e@),
            },
    {
        let parsed = match decode_input(input) {
            Some(p) => p,
            None => {
                let mut e = "invalid UpdatePlan input: ".to_owned();
                match find_input_refusal(input) {
                    Some(problem) => e.append(problem.as_str()),
                    None => {
                        proof {
                            an_input_is_not_refused(input.model());
                        }
                    },
                }
                return Err(e);
            },
        };
        let ghost plan = parsed.plan.deep_view();
        let n: usize = parsed.plan.len();
        if n > MAX_PLAN_STEPS {
            let mut e = "too many steps: ".to_owned();
            push_dec(&mut e, n as u64);
            e.append(" (max 12); split the work into a shorter plan");
            return Err(e);
        }
        let mut steps: Vec<PlanStep> = Vec::new();
        let mut active: usize = 0;
        assert(plan.take(0) =~= seq![]);
        for i in 0..n
            invariant
                n == parsed.plan@.len(),
                n <= MAX_PLAN_STEPS,
                plan == parsed.plan.deep_view(),
                decoded_input(input.model()) == Some(parsed.deep_view()),
                steps.deep_view() == trimmed_steps(plan.take(i as int)),
                active == in_progress(plan.take(i as int)),
                active <= i,
                titles_problem(plan, 0) == titles_problem(plan, i as int),
        {
            let raw = &parsed.plan[i];
            assert(plan[i as int] == raw.deep_view());
            let title = str_trim(raw.step.as_str());
            if char_count(title.as_str()) == 0 {
                return Err(step_error(i, " has an empty title"));
            }
            if has_char(title.as_str(), '\n') {
                return Err(step_error(i, " title must be a single line"));
            }
            if char_count(title.as_str()) > MAX_STEP_LEN {
                return Err(step_error(i, " title exceeds 120 characters"));
            }
            let taken = has_title(&steps, title.as_str());
            proof {
                let kept = trimmed_steps(plan.take(i as int));
                assert(steps.deep_view().len() == kept.len());
                assert forall|j: int| 0 <= j < i implies #[trigger] steps@[j].step@ == trim(
                    plan[j].step,
                ) by {
                    assert(steps.deep_view()[j] == kept[j]);
                    assert(plan.take(i as int)[j] == plan[j]);
                }
                if taken {
                    let j = choose|j: int|
                        0 <= j < steps@.len() && lower((#[trigger] steps@[j]).step@) == lower(
                            title@,
                        );
                    assert(steps.deep_view().len() == i);
                    assert(lower(trim(plan[j].step)) == lower(trim(plan[i as int].step)));
                } else if title_taken(plan, i as int) {
                    let j = choose|j: int|
                        0 <= j < i && lower(trim(#[trigger] plan[j].step)) == lower(
                            trim(plan[i as int].step),
                        );
                    assert(steps.deep_view().len() == i);
                    assert(lower(steps@[j].step@) == lower(title@));
                }
            }
            if taken {
                return Err(duplicate_title_error(debug_quote(title.as_str()).as_str()));
            }
            let status = raw.status;
            if status == PlanStepStatus::InProgress {
                active += 1;
            }
            let ghost before = steps.deep_view();
            steps.push(PlanStep { step: title, status });
            assert(plan.take(i + 1).drop_last() =~= plan.take(i as int));
            assert(plan.take(i + 1).last() == plan[i as int]);
            assert(steps.deep_view() =~= before.push(
                PlanStepView { step: trim(plan[i as int].step), status },
            ));
            assert(steps.deep_view() =~= trimmed_steps(plan.take(i + 1)));
        }
        assert(plan.take(n as int) =~= plan);
        if active > 1 {
            let mut e = "at most one step may be in_progress at a time (found ".to_owned();
            push_dec(&mut e, active as u64);
            e.append(")");
            return Err(e);
        }
        let explanation: Option<String> = match &parsed.explanation {
            Some(e) => {
                let e = str_trim(e.as_str());
                if char_count(e.as_str()) > 0 {
                    Some(e)
                } else {
                    None
                }
            },
            None => None,
        };
        Ok(PlanSnapshot { explanation, steps })
    }

    /// Whether the plan has no tasks: the model dropped its list.
    pub fn is_empty(&self) -> (r: bool)
        ensures
            r == (self.deep_view().steps.len() == 0),
    {
        self.steps.len() == 0
    }

    /// How many steps are completed, and how many there are.
    pub fn progress(&self) -> (r: (usize, usize))
        ensures
            r.0 == completed(self.deep_view().steps),
            r.1 == self.deep_view().steps.len(),
    {
        let ghost all = self.steps.deep_view();
        let mut done: usize = 0;
        for i in 0..self.steps.len()
            invariant
                all == self.steps.deep_view(),
                done == completed(all.take(i as int)),
                done <= i,
        {
            assert(all.take(i + 1).drop_last() =~= all.take(i as int));
            if self.steps[i].status == PlanStepStatus::Completed {
                done += 1;
            }
        }
        assert(all.take(self.steps@.len() as int) =~= all);
        (done, self.steps.len())
    }

    /// The step that the model works on: the first one under way, else the first
    /// pending one.
    pub fn current(&self) -> (r: Option<&PlanStep>)
        ensures
            match r {
                Some(s) => current_step(self.deep_view().steps) == Some(s.deep_view()),
                None => current_step(self.deep_view().steps) is None,
            },
    {
        let steps = &self.steps;
        let ghost all = steps.deep_view();
        let i = first_with(steps, PlanStepStatus::InProgress);
        if i < steps.len() {
            return Some(&steps[i]);
        }
        let i = first_with(steps, PlanStepStatus::Pending);
        if i < steps.len() {
            Some(&steps[i])
        } else {
            None
        }
    }

    /// Whether there is a step and every one is completed.
    pub fn all_completed(&self) -> (r: bool)
        ensures
            r == all_done(self.deep_view().steps),
    {
        let ghost all = self.steps.deep_view();
        for i in 0..self.steps.len()
            invariant
                all == self.deep_view().steps,
                forall|k: int| 0 <= k < i ==> (#[trigger] all[k]).status
                    == PlanStepStatus::Completed,
        {
            assert(all[i as int].status == self.steps@[i as int].status);
            if self.steps[i].status != PlanStepStatus::Completed {
                return false;
            }
        }
        self.steps.len() > 0
    }
}

pub open spec fn completed(steps: Seq<PlanStepView>) -> nat
    decreases steps.len(),
{
    if steps.len() == 0 {
        0
    } else {
        completed(steps.drop_last()) + if steps.last().status == PlanStepStatus::Completed {
            1nat
        } else {
            0
        }
    }
}

pub open spec fn all_done(steps: Seq<PlanStepView>) -> bool {
    &&& steps.len() > 0
    &&& forall|k: int|
        0 <= k < steps.len() ==> (#[trigger] steps[k]).status == PlanStepStatus::Completed
}

/// The position of the first step with `status`, or the number of steps.
pub open spec fn first_status(steps: Seq<PlanStepView>, status: PlanStepStatus, i: int) -> int
    decreases steps.len() - i,
{
    if i >= steps.len() || steps[i].status == status {
        i
    } else {
        first_status(steps, status, i + 1)
    }
}

pub open spec fn current_step(steps: Seq<PlanStepView>) -> Option<PlanStepView> {
    let active = first_status(steps, PlanStepStatus::InProgress, 0);
    let waiting = first_status(steps, PlanStepStatus::Pending, 0);
    if active < steps.len() {
        Some(steps[active])
    } else if waiting < steps.len() {
        Some(steps[waiting])
    } else {
        None
    }
}

fn first_with(steps: &Vec<PlanStep>, status: PlanStepStatus) -> (r: usize)
    ensures
        r == first_status(steps.deep_view(), status, 0),
        r <= steps@.len(),
{
    let ghost all = steps.deep_view();
    let mut i: usize = 0;
    while i < steps.len() && steps[i].status != status
        invariant
            i <= steps@.len(),
            all == steps.deep_view(),
            first_status(all, status, 0) == first_status(all, status, i as int),
        decreases steps@.len() - i,
    {
        assert(all[i as int].status == steps@[i as int].status);
        i += 1;
    }
    i
}

proof fn lemma_titles_fine(plan: Seq<PlanStepView>, i: int, k: int)
    requires
        0 <= i <= k < plan.len(),
        titles_problem(plan, i) is None,
    ensures
        title_problem(plan, k) is None,
    decreases k - i,
{
    if i < k {
        lemma_titles_fine(plan, i + 1, k);
    }
}

proof fn lemma_trimmed_in_progress(plan: Seq<PlanStepView>)
    ensures
        in_progress(trimmed_steps(plan)) == in_progress(plan),
    decreases plan.len(),
{
    if plan.len() > 0 {
        lemma_trimmed_in_progress(plan.drop_last());
        assert(trimmed_steps(plan).drop_last() =~= trimmed_steps(plan.drop_last()));
    }
}

/// Every snapshot keeps the rules: at most twelve steps, at most one of them
/// under way, and titles that are trimmed, single-line, of one to 120
/// characters, and pairwise different even without regard to case.
pub proof fn a_snapshot_keeps_the_rules(input: JsonView)
    requires
        snapshot_of(input) is Ok,
    ensures
        ({
            let steps = snapshot_of(input)->Ok_0.steps;
            &&& steps.len() <= 12
            &&& in_progress(steps) <= 1
            &&& forall|i: int|
                0 <= i < steps.len() ==> {
                    &&& 1 <= (#[trigger] steps[i]).step.len() <= 120
                    &&& !steps[i].step.contains('\n')
                    &&& trim(steps[i].step) == steps[i].step
                }
            &&& forall|i: int, j: int|
                0 <= i < j < steps.len() ==> lower((#[trigger] steps[i]).step) != lower(
                    (#[trigger] steps[j]).step,
                )
        }),
{
    let plan = decoded_input(input)->0.plan;
    let steps = snapshot_of(input)->Ok_0.steps;
    lemma_trimmed_in_progress(plan);
    assert forall|i: int| 0 <= i < steps.len() implies {
        &&& 1 <= (#[trigger] steps[i]).step.len() <= 120
        &&& !steps[i].step.contains('\n')
        &&& trim(steps[i].step) == steps[i].step
    } by {
        lemma_titles_fine(plan, 0, i);
        crate::text::trim_is_idempotent(plan[i].step);
    }
    assert forall|i: int, j: int| 0 <= i < j < steps.len() implies lower(
        (#[trigger] steps[i]).step,
    ) != lower((#[trigger] steps[j]).step) by {
        lemma_titles_fine(plan, 0, j);
        if lower(steps[i].step) == lower(steps[j].step) {
            assert(lower(trim(plan[i].step)) == lower(trim(plan[j].step)));
            assert(title_taken(plan, j));
        }
    }
}

// ---------------------------------------------------------------------------
// Recovery from the history
// ---------------------------------------------------------------------------

/// The blocks of all messages, in order.
pub open spec fn all_blocks(ms: Seq<MessageView>) -> Seq<MessageContentView>
    decreases ms.len(),
{
    if ms.len() == 0 {
        seq![]
    } else {
        all_blocks(ms.drop_last()) + ms.last().content
    }
}

/// The calls that failed.
pub open spec fn failed_calls(blocks: Seq<MessageContentView>) -> Seq<Seq<char>>
    decreases blocks.len(),
{
    if blocks.len() == 0 {
        seq![]
    } else {
        let rest = failed_calls(blocks.drop_last());
        match blocks.last() {
            MessageContentView::ToolResult(r) => if r.is_error {
                rest.push(r.tool_use_id)
            } else {
                rest
            },
            _ => rest,
        }
    }
}

/// The snapshot that a block published, unless the call failed.
pub open spec fn published(block: MessageContentView, failed: Seq<Seq<char>>) -> Option<
    PlanSnapshotView,
> {
    match block {
        MessageContentView::ToolUse(u) => if u.name == UPDATE_PLAN@ && !failed.contains(u.id) {
            match snapshot_of(u.input) {
                Ok(s) => Some(s),
                Err(_) => None,
            }
        } else {
            None
        },
        _ => None,
    }
}

/// The latest snapshot published by the blocks.
pub open spec fn latest_published(
    blocks: Seq<MessageContentView>,
    failed: Seq<Seq<char>>,
) -> Option<PlanSnapshotView>
    decreases blocks.len(),
{
    if blocks.len() == 0 {
        None
    } else {
        match published(blocks.last(), failed) {
            Some(s) => Some(s),
            None => latest_published(blocks.drop_last(), failed),
        }
    }
}

/// A step as a compaction summary carries it.
#[derive(Debug, PartialEq, Eq)]
pub struct PlanStepCapsule {
    pub title: String,
    pub status: String,
}

/// The mathematical value of a [`PlanStepCapsule`].
#[verifier::ext_equal]
pub struct PlanStepCapsuleView {
    pub title: Seq<char>,
    pub status: Seq<char>,
}

impl DeepView for PlanStepCapsule {
    type V = PlanStepCapsuleView;

    open spec fn deep_view(&self) -> PlanStepCapsuleView {
        PlanStepCapsuleView {
            title: self.title@,
            status: self.status@,
        }
    }
}

/// The steps of a compaction summary; an unknown status counts as pending.
pub open spec fn capsule_steps(steps: Seq<PlanStepCapsuleView>) -> Seq<PlanStepView> {
    Seq::new(
        steps.len(),
        |i: int|
            PlanStepView {
                step: steps[i].title,
                status: match status_of(steps[i].status) {
                    Some(s) => s,
                    None => PlanStepStatus::Pending,
                },
            },
    )
}

pub open spec fn unless_empty(s: PlanSnapshotView) -> Option<PlanSnapshotView> {
    if s.steps.len() > 0 {
        Some(s)
    } else {
        None
    }
}

/// The live plan of a history: the latest one published, else the one that the
/// latest compaction summary carries. An empty plan is no live plan.
pub open spec fn live_plan(
    ms: Seq<MessageView>,
    capsule: Option<Seq<PlanStepCapsuleView>>,
) -> Option<PlanSnapshotView> {
    let blocks = all_blocks(ms);
    match latest_published(blocks, failed_calls(blocks)) {
        Some(s) => unless_empty(s),
        None => match capsule {
            Some(steps) => unless_empty(
                PlanSnapshotView { explanation: None, steps: capsule_steps(steps) },
            ),
            None => None,
        },
    }
}

proof fn lemma_blocks_of_next(ms: Seq<MessageView>, i: int)
    requires
        0 <= i < ms.len(),
    ensures
        all_blocks(ms.take(i + 1)) == all_blocks(ms.take(i)) + ms[i].content,
{
    assert(ms.take(i + 1).drop_last() =~= ms.take(i));
}

fn collect_failed(messages: &[Message]) -> (r: Vec<String>)
    ensures
        strs(r@) == failed_calls(all_blocks(messages.deep_view())),
{
    let ghost ms = messages.deep_view();
    let mut out: Vec<String> = Vec::new();
    assert(ms.take(0) =~= seq![]);
    assert(strs(out@) =~= failed_calls(all_blocks(ms.take(0))));
    for i in 0..messages.len()
        invariant
            ms == messages.deep_view(),
            strs(out@) == failed_calls(all_blocks(ms.take(i as int))),
    {
        let content = &messages[i].content;
        let ghost head = all_blocks(ms.take(i as int));
        let ghost cs = content.deep_view();
        assert(ms[i as int].content == cs);
        assert(head + cs.take(0) =~= head);
        for j in 0..content.len()
            invariant
                cs == content.deep_view(),
                strs(out@) == failed_calls(head + cs.take(j as int)),
        {
            let ghost before = strs(out@);
            let ghost next = head + cs.take(j + 1);
            assert(next.drop_last() =~= head + cs.take(j as int));
            assert(next.last() == content@[j as int].deep_view());
            match &content[j] {
                MessageContent::ToolResult(r) => {
                    if r.is_error {
                        out.push(r.tool_use_id.clone());
                        assert(strs(out@) =~= before.push(r.tool_use_id@));
                    }
                },
                _ => {},
            }
        }
        assert(cs.take(content@.len() as int) =~= cs);
        proof {
            lemma_blocks_of_next(ms, i as int);
        }
    }
    assert(ms.take(messages@.len() as int) =~= ms);
    out
}

fn capsule_snapshot(steps: &Vec<PlanStepCapsule>) -> (r: PlanSnapshot)
    ensures
        r.deep_view() == (PlanSnapshotView {
            explanation: None,
            steps: capsule_steps(steps.deep_view()),
        }),
{
    let ghost wanted = capsule_steps(steps.deep_view());
    let mut out: Vec<PlanStep> = Vec::new();
    for i in 0..steps.len()
        invariant
            wanted == capsule_steps(steps.deep_view()),
            out.deep_view() == wanted.take(i as int),
    {
        let ghost before = out.deep_view();
        let status = match status_from_wire(steps[i].status.as_str()) {
            Some(s) => s,
            None => PlanStepStatus::Pending,
        };
        assert(steps.deep_view()[i as int] == steps@[i as int].deep_view());
        out.push(PlanStep { step: steps[i].title.clone(), status });
        assert(out.deep_view() =~= before.push(wanted[i as int]));
        assert(out.deep_view() =~= wanted.take(i + 1));
    }
    assert(out.deep_view() =~= wanted);
    PlanSnapshot { explanation: None, steps: out }
}

/// Recovers the live plan from the history: the latest `UpdatePlan` call that
/// did not fail and whose input is valid. Without one, `capsule` decides: the
/// plan steps of the latest compaction summary, if it carries any.
pub fn rebuild_from_messages(
    messages: &[Message],
    capsule: Option<&Vec<PlanStepCapsule>>,
) -> (r: Option<PlanSnapshot>)
    ensures
        r.deep_view() == live_plan(
            messages.deep_view(),
            match capsule {
                Some(c) => Some(c.deep_view()),
                None => None,
            },
        ),
{
    let failed = collect_failed(messages);
    let ghost ms = messages.deep_view();
    let ghost gone = strs(failed@);
    let mut i: usize = messages.len();
    assert(ms.take(i as int) =~= ms);
    while i > 0
        invariant
            i <= messages@.len(),
            ms == messages.deep_view(),
            gone == strs(failed@),
            gone == failed_calls(all_blocks(ms)),
            latest_published(all_blocks(ms), gone) == latest_published(
                all_blocks(ms.take(i as int)),
                gone,
            ),
        decreases i,
    {
        i -= 1;
        let content = &messages[i].content;
        let ghost head = all_blocks(ms.take(i as int));
        let ghost cs = content.deep_view();
        assert(ms[i as int].content == cs);
        proof {
            lemma_blocks_of_next(ms, i as int);
        }
        let mut j: usize = content.len();
        assert(cs.take(j as int) =~= cs);
        while j > 0
            invariant
                j <= content@.len(),
                cs == content.deep_view(),
                ms == messages.deep_view(),
                gone == strs(failed@),
                gone == failed_calls(all_blocks(ms)),
                latest_published(all_blocks(ms), gone) == latest_published(
                    head + cs.take(j as int),
                    gone,
                ),
            decreases j,
        {
            let ghost whole = head + cs.take(j as int);
            j -= 1;
            assert(whole.drop_last() =~= head + cs.take(j as int));
            assert(whole.last() == content@[j as int].deep_view());
            match &content[j] {
                MessageContent::ToolUse(u) => {
                    if str_eq(u.name.as_str(), UPDATE_PLAN) && !contains_str(
                        &failed,
                        u.id.as_str(),
                    ) {
                        match PlanSnapshot::from_input(&u.input) {
                            Ok(snapshot) => {
                                if snapshot.is_empty() {
                                    return None;
                                }
                                return Some(snapshot);
                            },
                            Err(_) => {},
                        }
                    }
                },
                _ => {},
            }
        }
        assert(head + cs.take(0) =~= head);
    }
    assert(ms.take(0) =~= seq![]);
    match capsule {
        Some(steps) => {
            let snapshot = capsule_snapshot(steps);
            if snapshot.is_empty() {
                None
            } else {
                Some(snapshot)
            }
        },
        None => None,
    }
}

/// A failed call never replaces the plan: the snapshot recovered is that of a
/// call that did not fail.
pub proof fn a_failed_call_is_no_plan(blocks: Seq<MessageContentView>, failed: Seq<Seq<char>>)
    requires
        latest_published(blocks, failed) is Some,
    ensures
        exists|i: int|
            {
                &&& 0 <= i < blocks.len()
                &&& #[trigger] blocks[i] is ToolUse
                &&& !failed.contains(blocks[i]->ToolUse_0.id)
                &&& published(blocks[i], failed) == latest_published(blocks, failed)
            },
    decreases blocks.len(),
{
    if published(blocks.last(), failed) is Some {
        assert(blocks[blocks.len() - 1] == blocks.last());
    } else {
        a_failed_call_is_no_plan(blocks.drop_last(), failed);
        let i = choose|i: int|
            {
                &&& 0 <= i < blocks.drop_last().len()
                &&& #[trigger] blocks.drop_last()[i] is ToolUse
                &&& !failed.contains(blocks.drop_last()[i]->ToolUse_0.id)
                &&& published(blocks.drop_last()[i], failed) == latest_published(
                    blocks.drop_last(),
                    failed,
                )
            };
        assert(blocks[i] == blocks.drop_last()[i]);
    }
}

// ---------------------------------------------------------------------------
// What a plan is for
// ---------------------------------------------------------------------------

/// The three statuses go by their names, and no other name is one.
pub proof fn statuses_go_by_name(name: Seq<char>)
    ensures
        status_of("pending"@) == Some(PlanStepStatus::Pending),
        status_of("in_progress"@) == Some(PlanStepStatus::InProgress),
        status_of("completed"@) == Some(PlanStepStatus::Completed),
        name != "pending"@ && name != "in_progress"@ && name != "completed"@ ==> status_of(name)
            is None,
{
    reveal_strlit("pending");
    reveal_strlit("in_progress");
    reveal_strlit("completed");
    assert("pending"@.len() != "in_progress"@.len());
    assert("pending"@.len() != "completed"@.len());
    assert("in_progress"@.len() != "completed"@.len());
}

/// Whether a value is a step written down: its title under `step`, and the name of its
/// status under `status`.
pub open spec fn writes_step(j: JsonView, step: PlanStepView) -> bool {
    &&& j matches JsonView::Object(es)
    &&& es.len() == 2
    &&& es[0] == ("step"@, JsonView::Str(step.step))
    &&& es[1].0 == "status"@
    &&& es[1].1 matches JsonView::Str(name)
    &&& status_of(name) == Some(step.status)
}

proof fn lemma_written_step(step: PlanStepView, j: JsonView)
    requires
        writes_step(j, step),
    ensures
        decoded_step(j) == Some(step),
{
    let es = j->Object_0;
    reveal_strlit("step");
    reveal_strlit("status");
    assert("step"@.len() != "status"@.len());
    reveal_with_fuel(lookup, 3);
    assert(es.skip(1) =~= seq![es[1]]);
    reveal_with_fuel(step_members_refusal, 4);
    assert(step_members_refusal(es, 0) is None);
}

proof fn lemma_written_steps_pass(xs: Seq<JsonView>, i: int)
    requires
        0 <= i <= xs.len(),
        forall|k: int| 0 <= k < xs.len() ==> decoded_step(#[trigger] xs[k]) is Some,
    ensures
        steps_refusal(xs, i) is None,
    decreases xs.len() - i,
{
    if i < xs.len() {
        assert(decoded_step(xs[i]) is Some);
        lemma_step_is_not_refused(xs[i]);
        lemma_written_steps_pass(xs, i + 1);
    }
}

/// A plan that is written down is taken as it is: each step with its title and its
/// status, in order, and the explanation.
pub proof fn a_written_plan_is_read_back(
    steps: Seq<PlanStepView>,
    xs: Seq<JsonView>,
    explanation: Seq<char>,
)
    requires
        xs.len() == steps.len(),
        forall|i: int| 0 <= i < steps.len() ==> writes_step(#[trigger] xs[i], steps[i]),
    ensures
        decoded_input(
            JsonView::Object(
                seq![
                    ("explanation"@, JsonView::Str(explanation)),
                    ("plan"@, JsonView::Array(xs)),
                ],
            ),
        ) == Some(UpdatePlanInputView { explanation: Some(explanation), plan: steps }),
        decoded_input(JsonView::Object(seq![("plan"@, JsonView::Array(xs))])) == Some(
            UpdatePlanInputView { explanation: None, plan: steps },
        ),
        decoded_snapshot(
            JsonView::Object(
                seq![
                    ("explanation"@, JsonView::Str(explanation)),
                    ("steps"@, JsonView::Array(xs)),
                ],
            ),
        ) == Some(UpdatePlanInputView { explanation: Some(explanation), plan: steps }),
{
    assert forall|i: int| 0 <= i < xs.len() implies decoded_step(#[trigger] xs[i]) == Some(
        steps[i],
    ) by {
        lemma_written_step(steps[i], xs[i]);
    }
    lemma_written_steps_pass(xs, 0);
    assert(decoded_steps(xs) is Some);
    assert(decoded_steps(xs)->0 =~= steps);
    reveal_strlit("explanation");
    reveal_strlit("plan");
    reveal_strlit("steps");
    assert("explanation"@.len() != "plan"@.len());
    assert("explanation"@.len() != "steps"@.len());
    let full = seq![("explanation"@, JsonView::Str(explanation)), ("plan"@, JsonView::Array(xs))];
    let short = seq![("plan"@, JsonView::Array(xs))];
    let kept = seq![("explanation"@, JsonView::Str(explanation)), ("steps"@, JsonView::Array(xs))];
    reveal_with_fuel(lookup, 3);
    assert(full.skip(1) =~= seq![full[1]]);
    assert(kept.skip(1) =~= seq![kept[1]]);
    assert(short.skip(1) =~= seq![]);
    reveal_with_fuel(input_members_refusal, 4);
    assert(input_members_refusal(full, 0) is None);
    assert(input_members_refusal(short, 0) is None);
}

proof fn lemma_in_progress_bound(plan: Seq<PlanStepView>)
    ensures
        in_progress(plan) == 0 <==> forall|i: int|
            0 <= i < plan.len() ==> (#[trigger] plan[i]).status != PlanStepStatus::InProgress,
        in_progress(plan) <= 1 <==> forall|i: int, j: int|
            0 <= i < j < plan.len() ==> !((#[trigger] plan[i]).status == PlanStepStatus::InProgress
                && (#[trigger] plan[j]).status == PlanStepStatus::InProgress),
    decreases plan.len(),
{
    if plan.len() > 0 {
        let rest = plan.drop_last();
        let n = plan.len() - 1;
        lemma_in_progress_bound(rest);
        assert forall|i: int| 0 <= i < rest.len() implies rest[i] == plan[i] by {}
        if in_progress(plan) == 0 {
            assert forall|i: int| 0 <= i < plan.len() implies (#[trigger] plan[i]).status
                != PlanStepStatus::InProgress by {
                if i < n {
                    assert(rest[i] == plan[i]);
                }
            }
        } else if plan[n].status != PlanStepStatus::InProgress {
            let k = choose|k: int|
                0 <= k < rest.len() && (#[trigger] rest[k]).status == PlanStepStatus::InProgress;
            assert(plan[k] == rest[k]);
        }
        if in_progress(plan) <= 1 {
            assert forall|i: int, j: int| 0 <= i < j < plan.len() implies !((
            #[trigger] plan[i]).status == PlanStepStatus::InProgress && (#[trigger] plan[j]).status
                == PlanStepStatus::InProgress) by {
                assert(rest[i] == plan[i]);
                if j < n {
                    assert(rest[j] == plan[j]);
                }
            }
        } else {
            if in_progress(rest) <= 1 {
                let k = choose|k: int|
                    0 <= k < rest.len() && (#[trigger] rest[k]).status
                        == PlanStepStatus::InProgress;
                assert(plan[k] == rest[k]);
                assert(plan[n].status == PlanStepStatus::InProgress);
            } else {
                let (i, j) = choose|i: int, j: int|
                    0 <= i < j < rest.len() && (#[trigger] rest[i]).status
                        == PlanStepStatus::InProgress && (#[trigger] rest[j]).status
                        == PlanStepStatus::InProgress;
                assert(plan[i] == rest[i] && plan[j] == rest[j]);
            }
        }
    }
}

/// A plan is sound just where it has at most twelve steps, each with a title of one
/// line and at most 120 characters that no step before it has, upper and lower case
/// apart, and at most one of them in progress.
pub proof fn a_sound_plan_has_few_distinct_steps(plan: Seq<PlanStepView>)
    ensures
        plan_problem(plan) is None <==> {
            &&& plan.len() <= 12
            &&& forall|i: int|
                0 <= i < plan.len() ==> {
                    let title = trim((#[trigger] plan[i]).step);
                    &&& 1 <= title.len() <= 120
                    &&& !title.contains('\n')
                }
            &&& forall|i: int, j: int|
                0 <= i < j < plan.len() ==> lower(trim((#[trigger] plan[i]).step)) != lower(
                    trim((#[trigger] plan[j]).step),
                )
            &&& forall|i: int, j: int|
                0 <= i < j < plan.len() ==> !((#[trigger] plan[i]).status
                    == PlanStepStatus::InProgress && (#[trigger] plan[j]).status
                    == PlanStepStatus::InProgress)
        },
{
    lemma_in_progress_bound(plan);
    lemma_titles(plan, 0);
    if titles_problem(plan, 0) is None {
        assert forall|i: int, j: int| 0 <= i < j < plan.len() implies lower(
            trim((#[trigger] plan[i]).step),
        ) != lower(trim((#[trigger] plan[j]).step)) by {
            assert(title_problem(plan, j) is None);
            assert(!title_taken(plan, j));
        }
        assert forall|i: int| 0 <= i < plan.len() implies ({
            let title = trim((#[trigger] plan[i]).step);
            &&& 1 <= title.len() <= 120
            &&& !title.contains('\n')
        }) by {
            assert(title_problem(plan, i) is None);
        }
    } else {
        let i = choose|i: int| 0 <= i < plan.len() && #[trigger] title_problem(plan, i) is Some;
        let title = trim(plan[i].step);
        if 1 <= title.len() <= 120 && !title.contains('\n') {
            assert(title_taken(plan, i));
            let j = choose|j: int|
                0 <= j < i && lower(trim(#[trigger] plan[j].step)) == lower(trim(plan[i].step));
            assert(lower(trim(plan[j].step)) == lower(trim(plan[i].step)));
        }
    }
}

proof fn lemma_titles(plan: Seq<PlanStepView>, at: int)
    requires
        0 <= at <= plan.len(),
    ensures
        titles_problem(plan, at) is None <==> forall|i: int|
            at <= i < plan.len() ==> #[trigger] title_problem(plan, i) is None,
    decreases plan.len() - at,
{
    if at < plan.len() {
        lemma_titles(plan, at + 1);
        if titles_problem(plan, at) is None {
            assert forall|i: int| at <= i < plan.len() implies #[trigger] title_problem(plan, i)
                is None by {
                if i > at {
                }
            }
        } else if title_problem(plan, at) is None {
            let i = choose|i: int|
                at + 1 <= i < plan.len() && #[trigger] title_problem(plan, i) is Some;
            assert(title_problem(plan, i) is Some);
        } else {
            assert(title_problem(plan, at) is Some);
        }
    }
}

/// What is wrong with a plan names the first step that is not sound, counted from one,
/// and why; a plan that is too long, or with several steps in progress, is told its
/// number.
pub proof fn the_first_unsound_step_is_named(plan: Seq<PlanStepView>, bad: int)
    ensures
        plan.len() > 12 ==> plan_problem(plan) == Some(
            "too many steps: "@ + dec(plan.len())
                + " (max 12); split the work into a shorter plan"@,
        ),
        plan.len() <= 12 && 0 <= bad < plan.len() && (forall|i: int|
            0 <= i < bad ==> #[trigger] title_problem(plan, i) is None) && title_problem(plan, bad)
            is Some ==> plan_problem(plan) == title_problem(plan, bad),
        0 <= bad < plan.len() && blank(plan[bad].step) ==> title_problem(plan, bad) == Some(
            "step "@ + dec((bad + 1) as nat) + " has an empty title"@,
        ),
        0 <= bad < plan.len() && trim(plan[bad].step).contains('\n') ==> title_problem(plan, bad)
            == Some("step "@ + dec((bad + 1) as nat) + " title must be a single line"@),
        0 <= bad < plan.len() && !trim(plan[bad].step).contains('\n') && trim(plan[bad].step).len()
            > 120 ==> title_problem(plan, bad) == Some(
            "step "@ + dec((bad + 1) as nat) + " title exceeds 120 characters"@,
        ),
        0 <= bad < plan.len() && title_problem(plan, bad) is Some && !blank(plan[bad].step) && !trim(
            plan[bad].step,
        ).contains('\n') && trim(plan[bad].step).len() <= 120 ==> title_problem(plan, bad) == Some(
            "duplicate step title: "@ + debug_quoted(trim(plan[bad].step)),
        ),
        plan.len() <= 12 && titles_problem(plan, 0) is None && in_progress(plan) > 1
            ==> plan_problem(plan) == Some(
            "at most one step may be in_progress at a time (found "@ + dec(in_progress(plan))
                + ")"@,
        ),
{
    if 0 <= bad < plan.len() {
        if trim(plan[bad].step).contains('\n') {
            assert(trim(plan[bad].step).len() > 0);
        }
        if (forall|i: int| 0 <= i < bad ==> #[trigger] title_problem(plan, i) is None)
            && title_problem(plan, bad) is Some {
            lemma_first_title(plan, 0, bad);
        }
    }
}

proof fn lemma_first_title(plan: Seq<PlanStepView>, at: int, bad: int)
    requires
        0 <= at <= bad < plan.len(),
        forall|i: int| 0 <= i < bad ==> #[trigger] title_problem(plan, i) is None,
        title_problem(plan, bad) is Some,
    ensures
        titles_problem(plan, at) == title_problem(plan, bad),
    decreases bad - at,
{
    if at < bad {
        assert(title_problem(plan, at) is None);
        lemma_first_title(plan, at + 1, bad);
    }
}

/// A sound plan is published with its steps in order, each with its status and its
/// title without white space around it; a blank explanation is none. What cannot be
/// read, or is not sound, is answered with why.
pub proof fn a_sound_plan_is_published(input: JsonView, given: UpdatePlanInputView, i: int)
    requires
        decoded_input(input) == Some(given),
    ensures
        plan_problem(given.plan) is None ==> {
            &&& snapshot_of(input) matches Ok(s)
            &&& s.steps.len() == given.plan.len()
            &&& 0 <= i < given.plan.len() ==> s.steps[i].status == given.plan[i].status
                && s.steps[i].step == trim(given.plan[i].step)
            &&& given.explanation is None ==> s.explanation is None
            &&& given.explanation matches Some(e) ==> {
                &&& blank(e) ==> s.explanation is None
                &&& !blank(e) ==> s.explanation == Some(trim(e))
            }
        },
        plan_problem(given.plan) matches Some(why) ==> snapshot_of(input) == Err::<
            PlanSnapshotView,
            Seq<char>,
        >(why),
{
}

/// An input that cannot be read is answered with what is wrong with it.
pub proof fn an_unreadable_plan_is_refused(input: JsonView, why: Seq<char>)
    requires
        input_refusal(input) == Some(why),
    ensures
        snapshot_of(input) == Err::<PlanSnapshotView, Seq<char>>(
            "invalid UpdatePlan input: "@ + why,
        ),
{
}

/// What is wrong with an input says what was found and what was expected.
pub proof fn refusals_say_what_was_expected(
    v: JsonView,
    key: Seq<char>,
    more: Seq<(Seq<char>, JsonView)>,
)
    ensures
        v !is Object && v !is Array ==> input_refusal(v) == Some(
            "invalid type: "@ + named_value(v) + ", expected "@ + "struct UpdatePlanInput"@,
        ),
        input_refusal(JsonView::Object(Seq::empty())) == Some("missing field `plan`"@),
        key != "explanation"@ && key != "plan"@ ==> input_refusal(
            JsonView::Object(seq![(key, v)] + more),
        ) == Some(
            "unknown field `"@ + key + "`, expected `"@ + "explanation"@ + "` or `"@ + "plan"@
                + "`"@,
        ),
        v !is Array ==> input_refusal(JsonView::Object(seq![("plan"@, v)] + more)) == Some(
            "invalid type: "@ + named_value(v) + ", expected "@ + "a sequence"@,
        ),
        v !is Null && v !is Str ==> input_refusal(
            JsonView::Object(seq![("explanation"@, v)] + more),
        ) == Some("invalid type: "@ + named_value(v) + ", expected "@ + "a string"@),
        v !is Object && v !is Array ==> step_refusal(v) == Some(
            "invalid type: "@ + named_value(v) + ", expected "@ + "struct PlanStep"@,
        ),
        step_refusal(JsonView::Object(Seq::empty())) == Some("missing field `step`"@),
        key != "step"@ && key != "status"@ ==> step_refusal(
            JsonView::Object(seq![(key, v)] + more),
        ) == Some(
            "unknown field `"@ + key + "`, expected `"@ + "step"@ + "` or `"@ + "status"@ + "`"@,
        ),
        v !is Str ==> step_refusal(JsonView::Object(seq![("step"@, v)] + more)) == Some(
            "invalid type: "@ + named_value(v) + ", expected "@ + "a string"@,
        ),
        v matches JsonView::Str(name) ==> (status_of(name) is None ==> step_refusal(
            JsonView::Object(seq![("status"@, v)] + more),
        ) == Some(
            "unknown variant `"@ + name
                + "`, expected one of `pending`, `in_progress`, `completed`"@,
        )),
        v !is Str && v !is Object ==> step_refusal(JsonView::Object(seq![("status"@, v)] + more))
            == Some("invalid type: "@ + named_value(v) + ", expected "@ + "string or map"@),
{
    reveal_strlit("explanation");
    reveal_strlit("plan");
    reveal_strlit("step");
    reveal_strlit("status");
    assert("explanation"@.len() != "plan"@.len());
    assert("step"@.len() != "status"@.len());
    let unknown = seq![(key, v)] + more;
    let plan = seq![("plan"@, v)] + more;
    let note = seq![("explanation"@, v)] + more;
    let step = seq![("step"@, v)] + more;
    let status = seq![("status"@, v)] + more;
    assert(unknown[0] == (key, v));
    assert(plan[0] == ("plan"@, v));
    assert(note[0] == ("explanation"@, v));
    assert(step[0] == ("step"@, v));
    assert(status[0] == ("status"@, v));
    assert(step_members_refusal(unknown, 0) == (match step_member_refusal(key, v) {
        Some(e) => Some(e),
        None => step_members_refusal(unknown, 1),
    }));
    assert(input_members_refusal(unknown, 0) == (match input_member_refusal(key, v) {
        Some(e) => Some(e),
        None => input_members_refusal(unknown, 1),
    }));
}

/// How a value is named in a refusal.
pub proof fn values_are_named_by_kind(v: JsonView)
    ensures
        match v {
            JsonView::Null => named_value(v) == "null"@,
            JsonView::Bool(b) => named_value(v) == if b {
                "boolean `true`"@
            } else {
                "boolean `false`"@
            },
            JsonView::Unsigned(n) => named_value(v) == "integer `"@ + dec(n as nat) + "`"@,
            JsonView::Negative(n) => named_value(v) == "integer `"@ + dec_signed(n as int) + "`"@,
            JsonView::Decimal(s) => named_value(v) == "floating point `"@ + s + "`"@,
            JsonView::Str(s) => named_value(v) == "string "@ + debug_quoted(s),
            JsonView::Array(_) => named_value(v) == "sequence"@,
            JsonView::Object(_) => named_value(v) == "map"@,
        },
{
}

/// Completed steps are counted; a plan is done just where it has steps and each is
/// completed.
pub proof fn progress_counts_completed_steps(steps: Seq<PlanStepView>, next: PlanStepView, i: int)
    ensures
        completed(Seq::<PlanStepView>::empty()) == 0,
        next.status == PlanStepStatus::Completed ==> completed(steps.push(next)) == completed(steps)
            + 1,
        next.status != PlanStepStatus::Completed ==> completed(steps.push(next)) == completed(
            steps,
        ),
        all_done(steps) <==> steps.len() > 0 && completed(steps) == steps.len(),
        all_done(steps) && 0 <= i < steps.len() ==> steps[i].status == PlanStepStatus::Completed,
{
    assert(steps.push(next).drop_last() =~= steps);
    lemma_all_completed(steps);
}

proof fn lemma_all_completed(steps: Seq<PlanStepView>)
    ensures
        completed(steps) <= steps.len(),
        completed(steps) == steps.len() <==> forall|k: int|
            0 <= k < steps.len() ==> (#[trigger] steps[k]).status == PlanStepStatus::Completed,
    decreases steps.len(),
{
    if steps.len() > 0 {
        let rest = steps.drop_last();
        lemma_all_completed(rest);
        assert(forall|k: int| 0 <= k < rest.len() ==> rest[k] == steps[k]);
        if completed(steps) == steps.len() {
            assert forall|k: int| 0 <= k < steps.len() implies (#[trigger] steps[k]).status
                == PlanStepStatus::Completed by {
                if k < rest.len() {
                    assert(rest[k] == steps[k]);
                }
            }
        }
    }
}

/// The current step is the first in progress, and where none is, the first that is
/// pending; where all are completed there is none.
pub proof fn the_current_step_is_the_first_open_one(steps: Seq<PlanStepView>, at: int, i: int)
    ensures
        0 <= at < steps.len() && steps[at].status == PlanStepStatus::InProgress && (forall|k: int|
            0 <= k < at ==> (#[trigger] steps[k]).status != PlanStepStatus::InProgress)
            ==> current_step(steps) == Some(steps[at]),
        0 <= at < steps.len() && steps[at].status == PlanStepStatus::Pending && (forall|k: int|
            0 <= k < at ==> (#[trigger] steps[k]).status != PlanStepStatus::Pending) && (forall|
            k: int,
        |
            0 <= k < steps.len() ==> (#[trigger] steps[k]).status != PlanStepStatus::InProgress)
            ==> current_step(steps) == Some(steps[at]),
        (forall|k: int|
            0 <= k < steps.len() ==> (#[trigger] steps[k]).status == PlanStepStatus::Completed)
            ==> current_step(steps) is None,
{
    lemma_first_status(steps, PlanStepStatus::InProgress, 0);
    lemma_first_status(steps, PlanStepStatus::Pending, 0);
}

proof fn lemma_first_status(steps: Seq<PlanStepView>, status: PlanStepStatus, i: int)
    requires
        0 <= i <= steps.len(),
    ensures
        i <= first_status(steps, status, i) <= steps.len(),
        forall|k: int|
            i <= k < first_status(steps, status, i) ==> (#[trigger] steps[k]).status != status,
        first_status(steps, status, i) < steps.len() ==> steps[first_status(
            steps,
            status,
            i,
        )].status == status,
    decreases steps.len() - i,
{
    if i < steps.len() && steps[i].status != status {
        lemma_first_status(steps, status, i + 1);
    }
}

/// The plan of a conversation is that of its last call that published one: a later call
/// takes the place of an earlier one, and what publishes nothing changes nothing.
pub proof fn the_last_published_plan_counts(
    blocks: Seq<MessageContentView>,
    call: crate::language_model::LanguageModelToolUseView,
    next: MessageContentView,
    failed: Seq<Seq<char>>,
)
    ensures
        latest_published(Seq::<MessageContentView>::empty(), failed) is None,
        call.name == "UpdatePlan"@ && !failed.contains(call.id) ==> (snapshot_of(call.input)
            matches Ok(s) ==> latest_published(
            blocks.push(MessageContentView::ToolUse(call)),
            failed,
        ) == Some(s)),
        call.name != "UpdatePlan"@ || failed.contains(call.id) || snapshot_of(call.input) is Err
            ==> latest_published(blocks.push(MessageContentView::ToolUse(call)), failed)
            == latest_published(blocks, failed),
        next !is ToolUse ==> latest_published(blocks.push(next), failed) == latest_published(
            blocks,
            failed,
        ),
{
    assert(blocks.push(MessageContentView::ToolUse(call)).drop_last() =~= blocks);
    assert(blocks.push(next).drop_last() =~= blocks);
}

/// A call failed where a result with an error answers it.
pub proof fn failed_calls_are_those_with_an_error(
    blocks: Seq<MessageContentView>,
    next: MessageContentView,
)
    ensures
        failed_calls(Seq::<MessageContentView>::empty()).len() == 0,
        failed_calls(blocks.push(next)) == (match next {
            MessageContentView::ToolResult(r) => if r.is_error {
                failed_calls(blocks).push(r.tool_use_id)
            } else {
                failed_calls(blocks)
            },
            _ => failed_calls(blocks),
        }),
{
    assert(blocks.push(next).drop_last() =~= blocks);
}

/// The plan that shows is the last one published, unless it was emptied; a conversation
/// that published none falls back on what was kept of it, each title with its status,
/// an unknown status being pending.
pub proof fn the_kept_plan_stands_in(
    ms: Seq<MessageView>,
    kept: Seq<PlanStepCapsuleView>,
    next: MessageView,
    i: int,
)
    ensures
        all_blocks(Seq::<MessageView>::empty()).len() == 0,
        all_blocks(ms.push(next)) == all_blocks(ms) + next.content,
        ({
            let blocks = all_blocks(ms);
            match latest_published(blocks, failed_calls(blocks)) {
                Some(s) => {
                    &&& s.steps.len() > 0 ==> live_plan(ms, Some(kept)) == Some(s) && live_plan(
                        ms,
                        None,
                    ) == Some(s)
                    &&& s.steps.len() == 0 ==> live_plan(ms, Some(kept)) is None && live_plan(
                        ms,
                        None,
                    ) is None
                },
                None => {
                    &&& live_plan(ms, None) is None
                    &&& kept.len() == 0 ==> live_plan(ms, Some(kept)) is None
                    &&& kept.len() > 0 ==> {
                        &&& live_plan(ms, Some(kept)) matches Some(s)
                        &&& s.explanation is None
                        &&& s.steps.len() == kept.len()
                        &&& 0 <= i < kept.len() ==> {
                            &&& s.steps[i].step == kept[i].title
                            &&& status_of(kept[i].status) matches Some(st) ==> s.steps[i].status
                                == st
                            &&& status_of(kept[i].status) is None ==> s.steps[i].status
                                == PlanStepStatus::Pending
                        }
                    }
                },
            }
        }),
{
    assert(ms.push(next).drop_last() =~= ms);
}

/// The view of a [`PlanStep`] is made of all its parts, each as it is.
pub proof fn plan_step_is_viewed_whole(x: &PlanStep)
    ensures
        x.deep_view() == (PlanStepView {
            step: x.step@,
            status: x.status,
        }),
{
}

/// The view of a [`PlanSnapshot`] is made of all its parts, each as it is.
pub proof fn plan_snapshot_is_viewed_whole(x: &PlanSnapshot)
    ensures
        x.deep_view() == (PlanSnapshotView {
            explanation: x.explanation.deep_view(),
            steps: x.steps.deep_view(),
        }),
{
}

/// The view of an [`UpdatePlanInput`] is made of all its parts, each as it is.
pub proof fn update_plan_input_is_viewed_whole(x: &UpdatePlanInput)
    ensures
        x.deep_view() == (UpdatePlanInputView {
            explanation: x.explanation.deep_view(),
            plan: x.plan.deep_view(),
        }),
{
}

/// The view of a [`PlanStepCapsule`] is made of all its parts, each as it is.
pub proof fn plan_step_capsule_is_viewed_whole(x: &PlanStepCapsule)
    ensures
        x.deep_view() == (PlanStepCapsuleView {
            title: x.title@,
            status: x.status@,
        }),
{
}

} // verus!
