//! Reading plans from what a planning service replies: structured JSON
//! plans, lists of JSON steps, and numbered lines of text; and the goals and
//! steps of hierarchical and adaptive planning.

use vstd::prelude::*;
use vstd::string::*;

use crate::error::FlowError;
use crate::json::{
    duplicate_all, lemma_member_model, lemma_models_index, lemma_models_len, model, model_bool, model_member,
    model_text, model_u64, models, number_string, parse_json, parsed_json, to_serde, JsonModel, JsonValue,
    NumberModel,
};
use crate::planning::{step_model, step_models, ExecutionPlan, Goal, PlanStep, StepModel};
use crate::text::{
    colon_field, copy_strings, decimal, decimal_string, join, new_uuid, occurs_at, occurs_in, second_field,
    split_lines, str_contains, str_starts_with, string_views, text_lines, trim, trimmed,
};

verus! {

/// The text of a member of an object value, when it is a string.
pub open spec fn m_text(m: JsonModel, key: Seq<char>) -> Option<Seq<char>> {
    match model_member(m, key) {
        Some(x) => model_text(x),
        None => None,
    }
}

/// The value of a member, when it is a non-negative integer.
pub open spec fn m_u64(m: JsonModel, key: Seq<char>) -> Option<u64> {
    match model_member(m, key) {
        Some(x) => model_u64(x),
        None => None,
    }
}

/// The value of a member, when it is a boolean.
pub open spec fn m_bool(m: JsonModel, key: Seq<char>) -> Option<bool> {
    match model_member(m, key) {
        Some(x) => model_bool(x),
        None => None,
    }
}

/// The elements of a member, when it is an array.
pub open spec fn m_array(m: JsonModel, key: Seq<char>) -> Option<Seq<JsonModel>> {
    match model_member(m, key) {
        Some(JsonModel::Array(a)) => Some(a),
        _ => None,
    }
}

/// The display text of a number model.
pub open spec fn number_model_text(n: NumberModel) -> Seq<char> {
    match n {
        NumberModel::PosInt(u) => decimal(u as nat),
        NumberModel::NegInt(i) => if i < 0 { "-"@ + decimal((-i) as nat) } else { decimal(i as nat) },
        NumberModel::Float(t) => t,
    }
}

/// The strings among some values, in order.
pub open spec fn string_items(a: Seq<JsonModel>) -> Seq<Seq<char>>
    decreases a.len(),
{
    if a.len() == 0 {
        Seq::empty()
    } else {
        match a.last() {
            JsonModel::String(s) => string_items(a.drop_last()).push(s),
            _ => string_items(a.drop_last()),
        }
    }
}

/// The step names a dependency list gives: strings as they are, numbers as
/// `step_` and the number; other values name nothing.
pub open spec fn dependency_names(a: Seq<JsonModel>) -> Seq<Seq<char>>
    decreases a.len(),
{
    if a.len() == 0 {
        Seq::empty()
    } else {
        match a.last() {
            JsonModel::String(s) => dependency_names(a.drop_last()).push(s),
            JsonModel::Number(n) => dependency_names(a.drop_last()).push("step_"@ + number_model_text(n)),
            _ => dependency_names(a.drop_last()),
        }
    }
}

/// A JSON step's duration in seconds: its `estimated_duration_seconds`, else
/// its `duration_seconds`, else five minutes.
pub open spec fn json_step_secs(s: JsonModel) -> u64 {
    match m_u64(s, "estimated_duration_seconds"@) {
        Some(n) => n,
        None => match m_u64(s, "duration_seconds"@) {
            Some(n) => n,
            None => 300,
        },
    }
}

/// The step that the `i`-th JSON step of a plan describes. A missing id is
/// `step_` and the step's position from one.
pub open spec fn json_step(i: nat, s: JsonModel) -> StepModel {
    StepModel {
        id: match m_text(s, "id"@) {
            Some(t) => t,
            None => "step_"@ + decimal(i + 1),
        },
        description: match m_text(s, "description"@) {
            Some(t) => t,
            None => Seq::empty(),
        },
        dependencies: match m_array(s, "dependencies"@) {
            Some(a) => dependency_names(a),
            None => Seq::empty(),
        },
        estimated_duration_secs: json_step_secs(s),
        required_tools: match m_array(s, "required_tools"@) {
            Some(a) => string_items(a),
            None => Seq::empty(),
        },
        success_criteria: match m_array(s, "success_criteria"@) {
            Some(a) => a,
            None => Seq::empty(),
        },
        enforce_success_criteria: m_bool(s, "enforce_success_criteria"@),
        max_retries: match m_u64(s, "max_retries"@) {
            Some(n) => Some(n as usize),
            None => None,
        },
        initial_backoff_ms: m_u64(s, "initial_backoff_ms"@),
        stop_on_error: m_bool(s, "stop_on_error"@),
    }
}

/// The steps a list of JSON steps describes.
pub open spec fn json_steps(a: Seq<JsonModel>) -> Seq<StepModel> {
    Seq::new(a.len(), |i: int| json_step(i as nat, a[i]))
}

/// The total duration of a list of JSON steps, in seconds.
pub open spec fn json_steps_total(a: Seq<JsonModel>) -> nat
    decreases a.len(),
{
    if a.len() == 0 {
        0
    } else {
        json_steps_total(a.drop_last()) + json_step_secs(a.last()) as nat
    }
}

pub(crate) fn text_of_member(v: &JsonValue, key: &str) -> (r: Option<String>)
    ensures
        match r {
            Some(t) => m_text(model(*v), key@) == Some(t@),
            None => m_text(model(*v), key@) is None,
        },
{
    proof {
        lemma_member_model(*v, key@);
    }
    match v.get(key) {
        Some(m) => match m.as_str() {
            Some(t) => Some(t.clone()),
            None => None,
        },
        None => None,
    }
}

fn u64_of_member(v: &JsonValue, key: &str) -> (r: Option<u64>)
    ensures
        r == m_u64(model(*v), key@),
{
    proof {
        lemma_member_model(*v, key@);
    }
    match v.get(key) {
        Some(m) => m.as_u64(),
        None => None,
    }
}

fn bool_of_member(v: &JsonValue, key: &str) -> (r: Option<bool>)
    ensures
        r == m_bool(model(*v), key@),
{
    proof {
        lemma_member_model(*v, key@);
    }
    match v.get(key) {
        Some(m) => m.as_bool(),
        None => None,
    }
}

pub(crate) fn array_of_member<'a>(v: &'a JsonValue, key: &str) -> (r: Option<&'a Vec<JsonValue>>)
    ensures
        match r {
            Some(a) => m_array(model(*v), key@) == Some(models(a@)),
            None => m_array(model(*v), key@) is None,
        },
{
    proof {
        lemma_member_model(*v, key@);
    }
    match v.get(key) {
        Some(m) => m.as_array(),
        None => None,
    }
}

/// The strings among some values, in order.
pub fn string_items_of(a: &Vec<JsonValue>) -> (r: Vec<String>)
    ensures
        string_views(r@) == string_items(models(a@)),
{
    let mut r: Vec<String> = Vec::new();
    let mut i: usize = 0;
    assert(string_views(r@) =~= Seq::empty());
    assert(a@.subrange(0, 0) =~= Seq::<JsonValue>::empty());
    while i < a.len()
        invariant
            i <= a@.len(),
            string_views(r@) == string_items(models(a@.subrange(0, i as int))),
        decreases a@.len() - i,
    {
        proof {
            assert(a@.subrange(0, i + 1).drop_last() =~= a@.subrange(0, i as int));
            lemma_models_index(a@.subrange(0, i + 1), i as int);
            assert(models(a@.subrange(0, i + 1)).drop_last() == models(a@.subrange(0, i as int)));
        }
        if let Some(t) = a[i].as_str() {
            let ghost before = string_views(r@);
            r.push(t.clone());
            assert(string_views(r@) =~= before.push(t@));
        }
        i = i + 1;
    }
    assert(a@.subrange(0, i as int) =~= a@);
    r
}

/// The step names a dependency list gives.
pub fn dependency_names_of(a: &Vec<JsonValue>) -> (r: Vec<String>)
    ensures
        string_views(r@) == dependency_names(models(a@)),
{
    let mut r: Vec<String> = Vec::new();
    let mut i: usize = 0;
    assert(string_views(r@) =~= Seq::empty());
    assert(a@.subrange(0, 0) =~= Seq::<JsonValue>::empty());
    while i < a.len()
        invariant
            i <= a@.len(),
            string_views(r@) == dependency_names(models(a@.subrange(0, i as int))),
        decreases a@.len() - i,
    {
        proof {
            assert(a@.subrange(0, i + 1).drop_last() =~= a@.subrange(0, i as int));
            lemma_models_index(a@.subrange(0, i + 1), i as int);
            assert(models(a@.subrange(0, i + 1)).drop_last() == models(a@.subrange(0, i as int)));
        }
        let ghost before = string_views(r@);
        match &a[i] {
            JsonValue::String(t) => {
                r.push(t.clone());
                assert(string_views(r@) =~= before.push(t@));
            },
            JsonValue::Number(n) => {
                let name = join("step_", number_string(n).as_str());
                r.push(name);
                assert(string_views(r@) =~= before.push("step_"@ + number_model_text(crate::json::number_model(*n))));
            },
            _ => {},
        }
        i = i + 1;
    }
    assert(a@.subrange(0, i as int) =~= a@);
    r
}

/// The step that the `i`-th JSON step of a plan describes.
pub fn step_from_json(i: usize, s: &JsonValue) -> (r: PlanStep)
    requires
        i < usize::MAX,
    ensures
        step_model(r) == json_step(i as nat, model(*s)),
{
    let id = match text_of_member(s, "id") {
        Some(t) => t,
        None => join("step_", decimal_string((i + 1) as u64).as_str()),
    };
    let description = match text_of_member(s, "description") {
        Some(t) => t,
        None => String::new(),
    };
    let dependencies = match array_of_member(s, "dependencies") {
        Some(a) => dependency_names_of(a),
        None => Vec::new(),
    };
    let estimated_duration_secs = match u64_of_member(s, "estimated_duration_seconds") {
        Some(n) => n,
        None => match u64_of_member(s, "duration_seconds") {
            Some(n) => n,
            None => 300,
        },
    };
    let required_tools = match array_of_member(s, "required_tools") {
        Some(a) => string_items_of(a),
        None => Vec::new(),
    };
    let success_criteria = match array_of_member(s, "success_criteria") {
        Some(a) => duplicate_all(a),
        None => Vec::new(),
    };
    let max_retries = match u64_of_member(s, "max_retries") {
        Some(n) => Some(n as usize),
        None => None,
    };
    let r = PlanStep {
        id,
        description,
        dependencies,
        estimated_duration_secs,
        required_tools,
        success_criteria,
        enforce_success_criteria: bool_of_member(s, "enforce_success_criteria"),
        max_retries,
        initial_backoff_ms: u64_of_member(s, "initial_backoff_ms"),
        stop_on_error: bool_of_member(s, "stop_on_error"),
    };
    proof {
        assert(string_views(r.dependencies@) =~= json_step(i as nat, model(*s)).dependencies);
        assert(string_views(r.required_tools@) =~= json_step(i as nat, model(*s)).required_tools);
        assert(models(r.success_criteria@) =~= json_step(i as nat, model(*s)).success_criteria);
    }
    r
}

/// The steps a list of JSON steps describes, in order.
pub fn collect_steps_from_array(arr: &Vec<JsonValue>) -> (r: Vec<PlanStep>)
    ensures
        step_models(r@) == json_steps(models(arr@)),
{
    let mut r: Vec<PlanStep> = Vec::new();
    let mut i: usize = 0;
    proof {
        lemma_models_len(arr@);
    }
    while i < arr.len()
        invariant
            i <= arr@.len(),
            models(arr@).len() == arr@.len(),
            r@.len() == i,
            forall|j: int| 0 <= j < i ==> step_model(#[trigger] r@[j]) == json_step(j as nat, models(arr@)[j]),
        decreases arr@.len() - i,
    {
        proof {
            lemma_models_index(arr@, i as int);
        }
        let step = step_from_json(i, &arr[i]);
        r.push(step);
        i = i + 1;
    }
    assert(step_models(r@) =~= json_steps(models(arr@)));
    r
}

/// The total duration of some steps, in seconds.
pub open spec fn model_total(steps: Seq<StepModel>) -> nat
    decreases steps.len(),
{
    if steps.len() == 0 {
        0
    } else {
        model_total(steps.drop_last()) + steps.last().estimated_duration_secs as nat
    }
}

proof fn lemma_json_total(a: Seq<JsonModel>, n: int)
    requires
        0 <= n <= a.len(),
    ensures
        model_total(json_steps(a.subrange(0, n))) == json_steps_total(a.subrange(0, n)),
        json_steps_total(a.subrange(0, n)) <= json_steps_total(a),
    decreases a.len() - n,
{
    if n < a.len() {
        lemma_json_total(a, n + 1);
        assert(a.subrange(0, n + 1).drop_last() =~= a.subrange(0, n));
        assert(json_steps(a.subrange(0, n + 1)).drop_last() =~= json_steps(a.subrange(0, n)));
    } else {
        assert(a.subrange(0, n) =~= a);
    }
    lemma_json_total_prefix(a, n);
}

proof fn lemma_json_total_prefix(a: Seq<JsonModel>, n: int)
    requires
        0 <= n <= a.len(),
    ensures
        model_total(json_steps(a.subrange(0, n))) == json_steps_total(a.subrange(0, n)),
    decreases n,
{
    if n > 0 {
        lemma_json_total_prefix(a, n - 1);
        assert(a.subrange(0, n).drop_last() =~= a.subrange(0, n - 1));
        assert(json_steps(a.subrange(0, n)).drop_last() =~= json_steps(a.subrange(0, n - 1)));
    }
}

/// The sum of the steps' durations.
fn steps_total(steps: &Vec<PlanStep>, ghost_src: Ghost<Seq<JsonModel>>) -> (t: u64)
    requires
        step_models(steps@) == json_steps(ghost_src@),
        json_steps_total(ghost_src@) <= u64::MAX,
    ensures
        t == json_steps_total(ghost_src@),
{
    let ghost a = ghost_src@;
    assert(step_models(steps@).len() == steps@.len());
    let mut t: u64 = 0;
    let mut i: usize = 0;
    while i < steps.len()
        invariant
            i <= steps@.len(),
            steps@.len() == a.len(),
            step_models(steps@) == json_steps(a),
            json_steps_total(a) <= u64::MAX,
            t == json_steps_total(a.subrange(0, i as int)),
        decreases steps@.len() - i,
    {
        proof {
            lemma_json_total(a, i as int + 1);
            assert(a.subrange(0, i + 1).drop_last() =~= a.subrange(0, i as int));
            assert(step_models(steps@)[i as int] == json_step(i as nat, a[i as int]));
        }
        t = t + steps[i].estimated_duration_secs;
        i = i + 1;
    }
    assert(a.subrange(0, i as int) =~= a);
    t
}

/// The steps array of a plan object, or nothing.
pub open spec fn plan_steps_of(m: JsonModel) -> Seq<JsonModel> {
    match m_array(m, "steps"@) {
        Some(a) => a,
        None => Seq::empty(),
    }
}

/// A plan object's duration fits in 64 bits: it gives one, or its steps'
/// durations add up to one that does.
pub open spec fn object_plan_fits(m: JsonModel) -> bool {
    m_u64(m, "estimated_duration_seconds"@) is Some || json_steps_total(plan_steps_of(m)) <= u64::MAX
}

/// The strings of an array member, or nothing.
pub open spec fn member_strings(m: JsonModel, key: Seq<char>) -> Seq<Seq<char>> {
    match m_array(m, key) {
        Some(a) => string_items(a),
        None => Seq::empty(),
    }
}

/// An id made of a prefix and a fresh random suffix.
pub open spec fn fresh_id(id: Seq<char>, prefix: Seq<char>) -> bool {
    occurs_at(id, prefix, 0)
}

pub(crate) fn fresh(prefix: &str) -> (r: String)
    ensures
        fresh_id(r@, prefix@),
{
    let r = join(prefix, new_uuid().as_str());
    assert(r@.subrange(0, prefix@.len() as int) =~= prefix@);
    r
}

/// `p` is the plan that the plan object `m` describes for `goal`.
pub open spec fn is_object_plan(p: ExecutionPlan, m: JsonModel, goal: Goal) -> bool {
    &&& match m_text(m, "id"@) {
        Some(t) => p.id@ == t,
        None => fresh_id(p.id@, "plan_"@),
    }
    &&& p.goal == goal
    &&& step_models(p.steps@) == json_steps(plan_steps_of(m))
    &&& p.estimated_duration_secs == match m_u64(m, "estimated_duration_seconds"@) {
        Some(n) => n as nat,
        None => json_steps_total(plan_steps_of(m)),
    }
    &&& string_views(p.required_resources@) == member_strings(m, "required_resources"@)
    &&& string_views(p.risk_factors@) == member_strings(m, "risk_factors"@)
}

/// The plan a JSON plan object describes: its id (else a fresh `plan_` id),
/// its steps, its duration (else the sum of its steps'), and its required
/// resources and risk factors.
pub fn parse_plan_from_object(obj: &JsonValue, goal: Goal) -> (p: ExecutionPlan)
    requires
        object_plan_fits(model(*obj)),
    ensures
        is_object_plan(p, model(*obj), goal),
{
    let id = match text_of_member(obj, "id") {
        Some(t) => t,
        None => fresh("plan_"),
    };
    let steps = match array_of_member(obj, "steps") {
        Some(a) => collect_steps_from_array(a),
        None => Vec::new(),
    };
    assert(step_models(steps@) =~= json_steps(plan_steps_of(model(*obj))));
    let secs = match u64_of_member(obj, "estimated_duration_seconds") {
        Some(n) => n,
        None => steps_total(&steps, Ghost(plan_steps_of(model(*obj)))),
    };
    let required_resources = match array_of_member(obj, "required_resources") {
        Some(a) => string_items_of(a),
        None => Vec::new(),
    };
    let risk_factors = match array_of_member(obj, "risk_factors") {
        Some(a) => string_items_of(a),
        None => Vec::new(),
    };
    assert(string_views(required_resources@) =~= member_strings(model(*obj), "required_resources"@));
    assert(string_views(risk_factors@) =~= member_strings(model(*obj), "risk_factors"@));
    ExecutionPlan { id, goal, steps, estimated_duration_secs: secs, required_resources, risk_factors }
}

/// `p` is the plan that the JSON steps `a` describe for `goal`.
pub open spec fn is_array_plan(p: ExecutionPlan, a: Seq<JsonModel>, goal: Goal) -> bool {
    &&& fresh_id(p.id@, "plan_"@)
    &&& p.goal == goal
    &&& step_models(p.steps@) == json_steps(a)
    &&& p.estimated_duration_secs == json_steps_total(a)
    &&& p.required_resources@.len() == 0
    &&& p.risk_factors@.len() == 0
}

/// The plan a list of JSON steps describes, with a fresh `plan_` id, the sum
/// of the steps' durations, and no resources or risks.
pub fn parse_plan_from_steps_array(arr: &Vec<JsonValue>, goal: Goal) -> (p: ExecutionPlan)
    requires
        json_steps_total(models(arr@)) <= u64::MAX,
    ensures
        is_array_plan(p, models(arr@), goal),
{
    let steps = collect_steps_from_array(arr);
    let secs = steps_total(&steps, Ghost(models(arr@)));
    ExecutionPlan {
        id: fresh("plan_"),
        goal,
        steps,
        estimated_duration_secs: secs,
        required_resources: Vec::new(),
        risk_factors: Vec::new(),
    }
}

/// A line's text after its first colon, up to the next, else the whole line.
pub open spec fn field_or_line(line: Seq<char>) -> Seq<char> {
    match colon_field(line) {
        Some(f) => f,
        None => line,
    }
}

/// Whether a trimmed line opens numbered item `c`: `c.` or `Step c:`.
pub open spec fn opens_item(line: Seq<char>, c: nat) -> bool {
    occurs_at(line, decimal(c) + "."@, 0) || occurs_at(line, "Step "@ + decimal(c) + ":"@, 0)
}

/// The descriptions of the numbered items among the first `n` lines: a line
/// that, trimmed, opens the next item gives the trimmed text after its colon
/// (or the line).
pub open spec fn numbered_items(ls: Seq<Seq<char>>, n: nat) -> Seq<Seq<char>>
    decreases n,
{
    if n == 0 {
        Seq::empty()
    } else {
        let d = numbered_items(ls, (n - 1) as nat);
        let line = trimmed(ls[n - 1]);
        if opens_item(line, d.len() + 1) { d.push(trimmed(field_or_line(line))) } else { d }
    }
}

/// The description of an item: the trimmed text after the line's first colon,
/// else the trimmed line.
fn item_description(line: &str) -> (r: String)
    ensures
        r@ == trimmed(field_or_line(line@)),
{
    match second_field(line) {
        Some(f) => trim(f.as_str()),
        None => trim(line),
    }
}

/// Whether a line opens item `c`.
fn line_opens_item(line: &str, c: usize) -> (b: bool)
    ensures
        b == opens_item(line@, c as nat),
{
    let num = decimal_string(c as u64);
    let dotted = join(num.as_str(), ".");
    if str_starts_with(line, dotted.as_str()) {
        return true;
    }
    let a = join("Step ", num.as_str());
    let step = join(a.as_str(), ":");
    str_starts_with(line, step.as_str())
}

/// The plan step for numbered item `k` (from zero).
pub open spec fn numbered_step(k: nat, d: Seq<char>) -> StepModel {
    StepModel {
        id: "step_"@ + decimal(k + 1),
        description: d,
        dependencies: Seq::empty(),
        estimated_duration_secs: 300,
        required_tools: Seq::empty(),
        success_criteria: Seq::empty(),
        enforce_success_criteria: None,
        max_retries: None,
        initial_backoff_ms: None,
        stop_on_error: None,
    }
}

/// The plan steps for a list of item descriptions.
pub open spec fn numbered_steps(ds: Seq<Seq<char>>) -> Seq<StepModel> {
    Seq::new(ds.len(), |k: int| numbered_step(k as nat, ds[k]))
}

/// `p` is the plan read from the numbered lines of `text` for `goal`.
pub open spec fn is_numbered_plan(p: ExecutionPlan, text: Seq<char>, goal: Goal) -> bool {
    &&& fresh_id(p.id@, "plan_"@)
    &&& p.goal == goal
    &&& step_models(p.steps@) == numbered_steps(numbered_items(text_lines(text), text_lines(text).len()))
    &&& p.estimated_duration_secs == 300 * p.steps@.len()
    &&& p.required_resources@.len() == 0
    &&& p.risk_factors@.len() == 0
}

/// The plan read from numbered lines of text (`1.`, `2.`, ... or `Step 1:`,
/// `Step 2:`, ...): a step of five minutes per item, with a fresh `plan_` id.
pub fn plan_from_numbered_lines(text: &str, goal: Goal) -> (p: ExecutionPlan)
    requires
        (text@.len() + 1) * 300 <= u64::MAX,
    ensures
        is_numbered_plan(p, text@, goal),
{
    let lines = split_lines(text);
    let ghost ls = text_lines(text@);
    assert(ls.len() == lines@.len()) by {
        assert(string_views(lines@).len() == lines@.len());
    }
    let mut steps: Vec<PlanStep> = Vec::new();
    let mut i: usize = 0;
    while i < lines.len()
        invariant
            i <= lines@.len(),
            string_views(lines@) == ls,
            ls.len() == lines@.len(),
            lines@.len() <= text@.len() + 1,
            steps@.len() <= i,
            step_models(steps@) == numbered_steps(numbered_items(ls, i as nat)),
            steps@.len() == numbered_items(ls, i as nat).len(),
        decreases lines@.len() - i,
    {
        let line = trim(lines[i].as_str());
        assert(lines@[i as int]@ == ls[i as int]);
        let c = steps.len() + 1;
        if line_opens_item(line.as_str(), c) {
            let description = item_description(line.as_str());
            let id = join("step_", decimal_string(c as u64).as_str());
            let step = PlanStep {
                id,
                description,
                dependencies: Vec::new(),
                estimated_duration_secs: 300,
                required_tools: Vec::new(),
                success_criteria: Vec::new(),
                enforce_success_criteria: None,
                max_retries: None,
                initial_backoff_ms: None,
                stop_on_error: None,
            };
            let ghost before = steps@;
            let ghost d = numbered_items(ls, i as nat);
            proof {
                assert(line@ == trimmed(ls[i as int]));
                assert(numbered_items(ls, (i + 1) as nat) == d.push(description@));
                assert(string_views(step.dependencies@) =~= Seq::empty());
                assert(string_views(step.required_tools@) =~= Seq::empty());
                assert(models(step.success_criteria@) =~= Seq::empty());
                assert(step_model(step) == numbered_step(d.len(), description@));
            }
            steps.push(step);
            proof {
                assert(step_models(steps@) =~= step_models(before).push(step_model(step)));
                assert(numbered_steps(d.push(description@)) =~= numbered_steps(d).push(numbered_step(d.len(), description@)));
            }
        } else {
            assert(numbered_items(ls, (i + 1) as nat) == numbered_items(ls, i as nat));
        }
        i = i + 1;
    }
    let secs = (steps.len() as u64) * 300;
    ExecutionPlan {
        id: fresh("plan_"),
        goal,
        steps,
        estimated_duration_secs: secs,
        required_resources: Vec::new(),
        risk_factors: Vec::new(),
    }
}

fn push_member(ms: &mut Vec<(String, JsonValue)>, key: &str, value: JsonValue)
    ensures
        crate::json::member_models(final(ms)@) == crate::json::member_models(old(ms)@).push((key@, model(value))),
{
    let ghost before = ms@;
    ms.push((String::from_str(key), value));
    assert(ms@.drop_last() =~= before);
}

fn push_value(vs: &mut Vec<JsonValue>, value: JsonValue)
    ensures
        models(final(vs)@) == models(old(vs)@).push(model(value)),
{
    let ghost before = vs@;
    vs.push(value);
    assert(vs@.drop_last() =~= before);
}

fn jstring(s: &str) -> (v: JsonValue)
    ensures
        model(v) == JsonModel::String(s@),
{
    JsonValue::String(String::from_str(s))
}

/// A schema that asks for one type, or one of several.
pub open spec fn type_is(t: JsonModel) -> JsonModel {
    JsonModel::Object(seq![("type"@, t)])
}

fn type_schema(t: JsonValue) -> (v: JsonValue)
    ensures
        model(v) == type_is(model(t)),
{
    let mut ms: Vec<(String, JsonValue)> = Vec::new();
    assert(crate::json::member_models(ms@) =~= Seq::empty());
    push_member(&mut ms, "type", t);
    assert(crate::json::member_models(ms@) =~= seq![("type"@, model(t))]);
    JsonValue::Object(ms)
}

/// The JSON Schema a plan object must meet: an object whose `steps` is an
/// array, whose `id`, if any, is a string or null, and whose
/// `estimated_duration_seconds`, if any, is a number or null.
pub open spec fn plan_schema_model() -> JsonModel {
    JsonModel::Object(
        seq![
            ("type"@, JsonModel::String("object"@)),
            ("properties"@, JsonModel::Object(seq![
                ("id"@, type_is(JsonModel::Array(seq![JsonModel::String("string"@), JsonModel::String("null"@)]))),
                ("steps"@, type_is(JsonModel::String("array"@))),
                ("estimated_duration_seconds"@, type_is(JsonModel::Array(seq![
                    JsonModel::String("number"@),
                    JsonModel::String("integer"@),
                    JsonModel::String("null"@),
                ]))),
            ])),
            ("required"@, JsonModel::Array(seq![JsonModel::String("steps"@)])),
        ],
    )
}

/// The JSON Schema a plan object must meet.
pub fn plan_schema() -> (v: JsonValue)
    ensures
        model(v) == plan_schema_model(),
{
    let mut id_types: Vec<JsonValue> = Vec::new();
    assert(models(id_types@) =~= Seq::empty());
    push_value(&mut id_types, jstring("string"));
    push_value(&mut id_types, jstring("null"));
    assert(models(id_types@) =~= seq![JsonModel::String("string"@), JsonModel::String("null"@)]);
    let mut secs_types: Vec<JsonValue> = Vec::new();
    assert(models(secs_types@) =~= Seq::empty());
    push_value(&mut secs_types, jstring("number"));
    push_value(&mut secs_types, jstring("integer"));
    push_value(&mut secs_types, jstring("null"));
    assert(models(secs_types@) =~= seq![
        JsonModel::String("number"@),
        JsonModel::String("integer"@),
        JsonModel::String("null"@),
    ]);
    let mut props: Vec<(String, JsonValue)> = Vec::new();
    assert(crate::json::member_models(props@) =~= Seq::empty());
    push_member(&mut props, "id", type_schema(JsonValue::Array(id_types)));
    push_member(&mut props, "steps", type_schema(jstring("array")));
    push_member(&mut props, "estimated_duration_seconds", type_schema(JsonValue::Array(secs_types)));
    let ghost props_model = seq![
        ("id"@, type_is(JsonModel::Array(seq![JsonModel::String("string"@), JsonModel::String("null"@)]))),
        ("steps"@, type_is(JsonModel::String("array"@))),
        ("estimated_duration_seconds"@, type_is(JsonModel::Array(seq![
            JsonModel::String("number"@),
            JsonModel::String("integer"@),
            JsonModel::String("null"@),
        ]))),
    ];
    assert(crate::json::member_models(props@) =~= props_model);
    let mut required: Vec<JsonValue> = Vec::new();
    assert(models(required@) =~= Seq::empty());
    push_value(&mut required, jstring("steps"));
    assert(models(required@) =~= seq![JsonModel::String("steps"@)]);
    let mut top: Vec<(String, JsonValue)> = Vec::new();
    assert(crate::json::member_models(top@) =~= Seq::empty());
    push_member(&mut top, "type", jstring("object"));
    push_member(&mut top, "properties", JsonValue::Object(props));
    push_member(&mut top, "required", JsonValue::Array(required));
    assert(crate::json::member_models(top@) =~= seq![
        ("type"@, JsonModel::String("object"@)),
        ("properties"@, JsonModel::Object(props_model)),
        ("required"@, JsonModel::Array(seq![JsonModel::String("steps"@)])),
    ]);
    let v = JsonValue::Object(top);
    assert(model(v) =~~= plan_schema_model());
    v
}

/// No two members of an object share a key.
pub open spec fn distinct_keys(ms: Seq<(Seq<char>, JsonModel)>) -> bool {
    forall|i: int, j: int| 0 <= i < j < ms.len() ==> ms[i].0 != ms[j].0
}

/// An object the plan schema accepts: its keys are distinct, `steps` is an
/// array, `id`, if present, is a string or null, and
/// `estimated_duration_seconds`, if present, is a number or null.
pub open spec fn schema_plan_object(m: JsonModel) -> bool {
    &&& m matches JsonModel::Object(ms) && distinct_keys(ms)
    &&& model_member(m, "steps"@) matches Some(JsonModel::Array(_))
    &&& model_member(m, "id"@) matches Some(x) ==> (x is String || x is Null)
    &&& model_member(m, "estimated_duration_seconds"@) matches Some(x) ==> (x is Number || x is Null)
}

/// A value the plan schema refuses: it is no object, or it has no `steps`,
/// or its keys are distinct and its `steps` is no array.
pub open spec fn schema_rejects_plan(m: JsonModel) -> bool {
    ||| !(m is Object)
    ||| model_member(m, "steps"@) is None
    ||| (m matches JsonModel::Object(ms) && distinct_keys(ms) && !(model_member(m, "steps"@) matches Some(
        JsonModel::Array(_),
    )))
}

/// What the `jsonschema` crate says of an instance against a schema: `Err`
/// with its message when the schema does not compile, else `Ok` with the
/// message of the first error, or `None` when the instance is valid.
pub uninterp spec fn schema_verdict(schema: JsonModel, instance: JsonModel) -> Result<Option<Seq<char>>, Seq<char>>;

/// `jsonschema::validator_for(schema)`, then `Validator::validate(instance)`,
/// with the errors' display texts.
#[verifier::external_body]
fn check_schema(schema: &JsonValue, instance: &JsonValue) -> (r: Result<Option<String>, String>)
    ensures
        schema_verdict(model(*schema), model(*instance)) == match r {
            Ok(Some(e)) => Ok(Some(e@)),
            Ok(None) => Ok(None),
            Err(e) => Err(e@),
        },
        model(*schema) == plan_schema_model() ==> r is Ok,
        model(*schema) == plan_schema_model() && schema_plan_object(model(*instance)) ==> r matches Ok(None),
        model(*schema) == plan_schema_model() && schema_rejects_plan(model(*instance)) ==> r matches Ok(Some(_)),
{
    match jsonschema::validator_for(&to_serde(schema)) {
        Ok(v) => Ok(v.validate(&to_serde(instance)).err().map(|e| e.to_string())),
        Err(e) => Err(e.to_string()),
    }
}

/// The outcome for a plan object once the schema check is known: the check's
/// failure as a context error, or the plan the object describes.
pub fn plan_from_checked_object(obj: &JsonValue, goal: Goal, verdict: Result<Option<String>, String>) -> (r: Result<
    ExecutionPlan,
    FlowError,
>)
    requires
        verdict matches Ok(None) ==> object_plan_fits(model(*obj)),
    ensures
        match verdict {
            Err(e) => r matches Err(FlowError::Context(m)) && m@ == "Planning schema compile error: "@ + e@,
            Ok(Some(e)) => r matches Err(FlowError::Context(m)) && m@ == "Planning JSON invalid: "@ + e@,
            Ok(None) => r matches Ok(p) && is_object_plan(p, model(*obj), goal),
        },
{
    match verdict {
        Err(e) => Err(FlowError::context(join("Planning schema compile error: ", e.as_str()))),
        Ok(Some(e)) => Err(FlowError::context(join("Planning JSON invalid: ", e.as_str()))),
        Ok(None) => Ok(parse_plan_from_object(obj, goal)),
    }
}

/// A planning reply's durations fit in 64 bits, for the kind of reply it is.
pub open spec fn response_fits(m: JsonModel) -> bool {
    match m {
        JsonModel::Object(_) => object_plan_fits(m),
        JsonModel::Array(a) => json_steps_total(a) <= u64::MAX,
        JsonModel::String(s) => match parsed_json(s) {
            Some(JsonModel::Object(o)) => object_plan_fits(JsonModel::Object(o)),
            Some(JsonModel::Array(a)) => json_steps_total(a) <= u64::MAX,
            _ => (s.len() + 1) * 300 <= u64::MAX,
        },
        _ => true,
    }
}

/// What a planning reply amounts to for `goal`.
pub open spec fn planning_outcome(m: JsonModel, goal: Goal, r: Result<ExecutionPlan, FlowError>) -> bool {
    match m {
        JsonModel::Object(_) => match schema_verdict(plan_schema_model(), m) {
            Err(e) => r matches Err(FlowError::Context(t)) && t@ == "Planning schema compile error: "@ + e,
            Ok(Some(e)) => r matches Err(FlowError::Context(t)) && t@ == "Planning JSON invalid: "@ + e,
            Ok(None) => r matches Ok(p) && is_object_plan(p, m, goal),
        },
        JsonModel::Array(a) => r matches Ok(p) && is_array_plan(p, a, goal),
        JsonModel::String(s) => match parsed_json(s) {
            Some(JsonModel::Object(o)) => r matches Ok(p) && is_object_plan(p, JsonModel::Object(o), goal),
            Some(JsonModel::Array(a)) => r matches Ok(p) && is_array_plan(p, a, goal),
            _ => r matches Ok(p) && is_numbered_plan(p, s, goal),
        },
        _ => r matches Err(FlowError::Context(t)) && t@ == "Invalid planning response format"@,
    }
}

/// The plan a planning service's reply describes. A JSON object is checked
/// against the plan schema and read as a plan; an array is read as steps; a
/// string is read as JSON when it is an object or array, else as numbered
/// lines; anything else is refused.
pub fn parse_planning_response(response: &JsonValue, goal: Goal) -> (r: Result<ExecutionPlan, FlowError>)
    requires
        response_fits(model(*response)),
    ensures
        planning_outcome(model(*response), goal, r),
        schema_plan_object(model(*response)) ==> r is Ok,
        model(*response) is Object && schema_rejects_plan(model(*response)) ==> (r matches Err(FlowError::Context(t))
            && exists|e: Seq<char>| t@ == "Planning JSON invalid: "@ + e),
{
    match response {
        JsonValue::Object(_) => {
            let schema = plan_schema();
            let verdict = check_schema(&schema, response);
            plan_from_checked_object(response, goal, verdict)
        },
        JsonValue::Array(items) => {
            proof {
                assert(model(*response) == JsonModel::Array(models(items@)));
            }
            Ok(parse_plan_from_steps_array(items, goal))
        },
        JsonValue::String(s) => {
            match parse_json(s.as_str()) {
                Some(v) => match &v {
                    JsonValue::Object(_) => Ok(parse_plan_from_object(&v, goal)),
                    JsonValue::Array(items) => Ok(parse_plan_from_steps_array(items, goal)),
                    _ => Ok(plan_from_numbered_lines(s.as_str(), goal)),
                },
                None => Ok(plan_from_numbered_lines(s.as_str(), goal)),
            }
        },
        _ => Err(FlowError::context(String::from_str("Invalid planning response format"))),
    }
}

/// The plan a planning reply describes, when its durations fit in 64 bits;
/// `None` when they do not.
pub fn try_parse_planning_response(response: &JsonValue, goal: Goal) -> (r: Option<Result<ExecutionPlan, FlowError>>)
    ensures
        r is Some <==> response_fits(model(*response)),
        r matches Some(o) ==> planning_outcome(model(*response), goal, o),
        r matches Some(o) ==> (schema_plan_object(model(*response)) ==> o is Ok),
        r matches Some(o) ==> (model(*response) is Object && schema_rejects_plan(model(*response)) ==> (o matches Err(
            FlowError::Context(t),
        ) && exists|e: Seq<char>| t@ == "Planning JSON invalid: "@ + e)),
{
    if response_fits_check(response) {
        Some(parse_planning_response(response, goal))
    } else {
        None
    }
}

/// The total duration of some JSON steps, when it fits in 64 bits.
fn json_total_of(arr: &Vec<JsonValue>) -> (r: Option<u64>)
    ensures
        match r {
            Some(t) => t == json_steps_total(models(arr@)),
            None => json_steps_total(models(arr@)) > u64::MAX,
        },
{
    let mut t: u64 = 0;
    let mut i: usize = 0;
    proof {
        lemma_models_len(arr@);
    }
    while i < arr.len()
        invariant
            i <= arr@.len(),
            models(arr@).len() == arr@.len(),
            t == json_steps_total(models(arr@).subrange(0, i as int)),
        decreases arr@.len() - i,
    {
        proof {
            lemma_models_index(arr@, i as int);
            lemma_json_total(models(arr@), i as int + 1);
            assert(models(arr@).subrange(0, i + 1).drop_last() =~= models(arr@).subrange(0, i as int));
        }
        let secs = match u64_of_member(&arr[i], "estimated_duration_seconds") {
            Some(n) => n,
            None => match u64_of_member(&arr[i], "duration_seconds") {
                Some(n) => n,
                None => 300,
            },
        };
        match t.checked_add(secs) {
            Some(x) => {
                t = x;
            },
            None => {
                return None;
            },
        }
        i = i + 1;
    }
    assert(models(arr@).subrange(0, i as int) =~= models(arr@));
    Some(t)
}

/// Whether a plan object's durations fit in 64 bits.
fn object_fits_check(obj: &JsonValue) -> (b: bool)
    ensures
        b == object_plan_fits(model(*obj)),
{
    if u64_of_member(obj, "estimated_duration_seconds").is_some() {
        return true;
    }
    match array_of_member(obj, "steps") {
        Some(a) => json_total_of(a).is_some(),
        None => true,
    }
}

/// Whether a planning reply's durations fit in 64 bits.
fn response_fits_check(response: &JsonValue) -> (b: bool)
    ensures
        b == response_fits(model(*response)),
{
    match response {
        JsonValue::Object(_) => object_fits_check(response),
        JsonValue::Array(items) => json_total_of(items).is_some(),
        JsonValue::String(s) => match parse_json(s.as_str()) {
            Some(v) => match &v {
                JsonValue::Object(_) => object_fits_check(&v),
                JsonValue::Array(items) => json_total_of(items).is_some(),
                _ => text_fits(s.as_str()),
            },
            None => text_fits(s.as_str()),
        },
        _ => true,
    }
}

/// Whether numbered lines of a text give durations that fit in 64 bits.
fn text_fits(s: &str) -> (b: bool)
    ensures
        b == ((s@.len() + 1) * 300 <= u64::MAX),
{
    let n = crate::text::char_count(s);
    proof {
        let l = s@.len();
        assert((l + 1) * 300 <= u64::MAX <==> l <= 61489146912365171) by (nonlinear_arith);
    }
    (n as u64) <= 61489146912365171u64
}

/// A copy of a plan step.
pub fn duplicate_step(s: &PlanStep) -> (r: PlanStep)
    ensures
        step_model(r) == step_model(*s),
{
    PlanStep {
        id: s.id.clone(),
        description: s.description.clone(),
        dependencies: copy_strings(&s.dependencies),
        estimated_duration_secs: s.estimated_duration_secs,
        required_tools: copy_strings(&s.required_tools),
        success_criteria: duplicate_all(&s.success_criteria),
        enforce_success_criteria: s.enforce_success_criteria,
        max_retries: s.max_retries,
        initial_backoff_ms: s.initial_backoff_ms,
        stop_on_error: s.stop_on_error,
    }
}

/// A copy of a goal.
pub fn duplicate_goal(g: &Goal) -> (r: Goal)
    ensures
        r.id@ == g.id@,
        r.description@ == g.description@,
        string_views(r.success_criteria@) == string_views(g.success_criteria@),
        string_views(r.constraints@) == string_views(g.constraints@),
        r.priority == g.priority,
{
    Goal {
        id: g.id.clone(),
        description: g.description.clone(),
        success_criteria: copy_strings(&g.success_criteria),
        constraints: copy_strings(&g.constraints),
        priority: g.priority,
    }
}

/// A task in a hierarchy of goals: it either splits into sub-tasks or
/// carries plan steps of its own.
#[derive(Debug)]
pub struct HierarchicalTask {
    pub id: String,
    pub goal: Goal,
    pub level: usize,
    pub parent_id: Option<String>,
    pub sub_tasks: Vec<HierarchicalTask>,
    pub plan_steps: Vec<PlanStep>,
}

/// The steps of a task and of its sub-tasks, depth first: a task's own steps
/// before those of its sub-tasks, in order.
pub open spec fn task_steps(t: HierarchicalTask) -> Seq<PlanStep>
    decreases t, 1int,
{
    proof {
        assert(decreases_to!(t => t.sub_tasks));
        assert(decreases_to!(t.sub_tasks => t.sub_tasks@));
    }
    t.plan_steps@ + forest_steps(t.sub_tasks@)
}

/// The steps of a list of tasks, one task after another.
pub open spec fn forest_steps(ts: Seq<HierarchicalTask>) -> Seq<PlanStep>
    decreases ts, 0int,
{
    if ts.len() == 0 {
        Seq::empty()
    } else {
        forest_steps(ts.drop_last()) + task_steps(ts.last())
    }
}

/// Append copies of the steps of a task and its sub-tasks.
pub fn collect_steps_recursive(task: &HierarchicalTask, steps: &mut Vec<PlanStep>)
    ensures
        step_models(final(steps)@) == step_models(old(steps)@) + step_models(task_steps(*task)),
    decreases *task, 1int,
{
    let ghost start = step_models(steps@);
    let mut i: usize = 0;
    while i < task.plan_steps.len()
        invariant
            i <= task.plan_steps@.len(),
            step_models(steps@) == start + step_models(task.plan_steps@.subrange(0, i as int)),
        decreases task.plan_steps@.len() - i,
    {
        let ghost before = steps@;
        steps.push(duplicate_step(&task.plan_steps[i]));
        assert(step_models(steps@) =~= step_models(before).push(step_model(task.plan_steps@[i as int])));
        assert(step_models(task.plan_steps@.subrange(0, i + 1)) =~= step_models(task.plan_steps@.subrange(0, i as int)).push(
            step_model(task.plan_steps@[i as int]),
        ));
        i = i + 1;
    }
    assert(task.plan_steps@.subrange(0, i as int) =~= task.plan_steps@);
    let ghost mid = step_models(steps@);
    let mut k: usize = 0;
    assert(task.sub_tasks@.subrange(0, 0) =~= Seq::<HierarchicalTask>::empty());
    while k < task.sub_tasks.len()
        invariant
            k <= task.sub_tasks@.len(),
            step_models(steps@) == mid + step_models(forest_steps(task.sub_tasks@.subrange(0, k as int))),
        decreases task.sub_tasks@.len() - k,
    {
        let ghost before = step_models(steps@);
        proof {
            assert(decreases_to!(*task => task.sub_tasks));
            assert(decreases_to!(task.sub_tasks => task.sub_tasks@));
            assert(decreases_to!(task.sub_tasks@ => task.sub_tasks@[k as int]));
        }
        collect_steps_recursive(&task.sub_tasks[k], steps);
        proof {
            let pre = task.sub_tasks@.subrange(0, k as int);
            let cur = task.sub_tasks@.subrange(0, k + 1);
            assert(cur.drop_last() =~= pre);
            assert(cur.last() == task.sub_tasks@[k as int]);
            assert(step_models(forest_steps(pre) + task_steps(task.sub_tasks@[k as int])) =~= step_models(
                forest_steps(pre),
            ) + step_models(task_steps(task.sub_tasks@[k as int])));
        }
        k = k + 1;
    }
    assert(task.sub_tasks@.subrange(0, k as int) =~= task.sub_tasks@);
    assert(step_models(task_steps(*task)) =~= step_models(task.plan_steps@) + step_models(forest_steps(task.sub_tasks@)));
}

/// Copies of the steps of a task tree, depth first.
pub fn flatten_hierarchical_tasks(root: &HierarchicalTask) -> (r: Vec<PlanStep>)
    ensures
        step_models(r@) == step_models(task_steps(*root)),
{
    let mut all: Vec<PlanStep> = Vec::new();
    collect_steps_recursive(root, &mut all);
    assert(step_models(all@) =~= step_models(task_steps(*root)));
    all
}

fn one_string(s: &str) -> (v: Vec<String>)
    ensures
        string_views(v@) == seq![s@],
{
    let mut v: Vec<String> = Vec::new();
    v.push(String::from_str(s));
    assert(string_views(v@) =~= seq![s@]);
    v
}

fn two_strings(a: &str, b: &str) -> (v: Vec<String>)
    ensures
        string_views(v@) == seq![a@, b@],
{
    let mut v: Vec<String> = Vec::new();
    v.push(String::from_str(a));
    v.push(String::from_str(b));
    assert(string_views(v@) =~= seq![a@, b@]);
    v
}

/// The plan of a task tree: its steps depth first, 350 s each, with a fresh
/// `hierarchical_plan_` id, the decomposer and dependency manager as
/// resources, and the overhead risks of a hierarchy.
pub fn hierarchical_plan(goal: Goal, root: &HierarchicalTask) -> (p: ExecutionPlan)
    requires
        task_steps(*root).len() * 350 <= u64::MAX,
    ensures
        fresh_id(p.id@, "hierarchical_plan_"@),
        p.goal == goal,
        step_models(p.steps@) == step_models(task_steps(*root)),
        p.estimated_duration_secs == 350 * task_steps(*root).len(),
        string_views(p.required_resources@) == seq!["task_decomposer"@, "dependency_manager"@],
        string_views(p.risk_factors@) == seq!["complexity_overhead"@, "coordination_challenges"@],
{
    let steps = flatten_hierarchical_tasks(root);
    assert(step_models(steps@).len() == steps@.len());
    let secs = (steps.len() as u64) * 350;
    ExecutionPlan {
        id: fresh("hierarchical_plan_"),
        goal,
        steps,
        estimated_duration_secs: secs,
        required_resources: two_strings("task_decomposer", "dependency_manager"),
        risk_factors: two_strings("complexity_overhead", "coordination_challenges"),
    }
}

/// Success criteria, each a string, as JSON strings.
fn criteria_of(v: &Vec<String>) -> (r: Vec<JsonValue>)
    ensures
        models(r@) == string_views(v@).map_values(|t: Seq<char>| JsonModel::String(t)),
{
    let mut r: Vec<JsonValue> = Vec::new();
    let mut i: usize = 0;
    assert(models(r@) =~= Seq::empty());
    while i < v.len()
        invariant
            i <= v@.len(),
            models(r@) == string_views(v@.subrange(0, i as int)).map_values(|t: Seq<char>| JsonModel::String(t)),
        decreases v@.len() - i,
    {
        push_value(&mut r, JsonValue::String(v[i].clone()));
        assert(string_views(v@.subrange(0, i + 1)).map_values(|t: Seq<char>| JsonModel::String(t)) =~= string_views(
            v@.subrange(0, i as int),
        ).map_values(|t: Seq<char>| JsonModel::String(t)).push(JsonModel::String(v@[i as int]@)));
        i = i + 1;
    }
    assert(v@.subrange(0, i as int) =~= v@);
    r
}

fn one_criterion(s: &str) -> (r: Vec<JsonValue>)
    ensures
        models(r@) == seq![JsonModel::String(s@)],
{
    let mut r: Vec<JsonValue> = Vec::new();
    assert(models(r@) =~= Seq::empty());
    push_value(&mut r, jstring(s));
    assert(models(r@) =~= seq![JsonModel::String(s@)]);
    r
}

/// The three steps of a task that is not split further: initialize (3 min),
/// execute (5 min, with the goal's criteria), verify (2 min), each depending
/// on the one before.
pub open spec fn leaf_steps(g: Goal) -> Seq<StepModel> {
    seq![
        StepModel {
            id: g.id@ + "_init"@,
            description: "Initialize: "@ + g.description@,
            dependencies: Seq::empty(),
            estimated_duration_secs: 180,
            required_tools: Seq::empty(),
            success_criteria: seq![JsonModel::String("initialization_complete"@)],
            enforce_success_criteria: None,
            max_retries: None,
            initial_backoff_ms: None,
            stop_on_error: None,
        },
        StepModel {
            id: g.id@ + "_execute"@,
            description: "Execute: "@ + g.description@,
            dependencies: seq![g.id@ + "_init"@],
            estimated_duration_secs: 300,
            required_tools: Seq::empty(),
            success_criteria: string_views(g.success_criteria@).map_values(|t: Seq<char>| JsonModel::String(t)),
            enforce_success_criteria: None,
            max_retries: None,
            initial_backoff_ms: None,
            stop_on_error: None,
        },
        StepModel {
            id: g.id@ + "_verify"@,
            description: "Verify: "@ + g.description@,
            dependencies: seq![g.id@ + "_execute"@],
            estimated_duration_secs: 120,
            required_tools: Seq::empty(),
            success_criteria: seq![JsonModel::String("verification_complete"@)],
            enforce_success_criteria: None,
            max_retries: None,
            initial_backoff_ms: None,
            stop_on_error: None,
        },
    ]
}

/// The steps of a task that is not split further.
pub fn create_leaf_task_steps(goal: &Goal) -> (r: Vec<PlanStep>)
    ensures
        step_models(r@) == leaf_steps(*goal),
{
    let init_id = join(goal.id.as_str(), "_init");
    let exec_id = join(goal.id.as_str(), "_execute");
    let init = PlanStep {
        id: init_id.clone(),
        description: join("Initialize: ", goal.description.as_str()),
        dependencies: Vec::new(),
        estimated_duration_secs: 180,
        required_tools: Vec::new(),
        success_criteria: one_criterion("initialization_complete"),
        enforce_success_criteria: None,
        max_retries: None,
        initial_backoff_ms: None,
        stop_on_error: None,
    };
    let execute = PlanStep {
        id: exec_id.clone(),
        description: join("Execute: ", goal.description.as_str()),
        dependencies: one_string(init_id.as_str()),
        estimated_duration_secs: 300,
        required_tools: Vec::new(),
        success_criteria: criteria_of(&goal.success_criteria),
        enforce_success_criteria: None,
        max_retries: None,
        initial_backoff_ms: None,
        stop_on_error: None,
    };
    let verify = PlanStep {
        id: join(goal.id.as_str(), "_verify"),
        description: join("Verify: ", goal.description.as_str()),
        dependencies: one_string(exec_id.as_str()),
        estimated_duration_secs: 120,
        required_tools: Vec::new(),
        success_criteria: one_criterion("verification_complete"),
        enforce_success_criteria: None,
        max_retries: None,
        initial_backoff_ms: None,
        stop_on_error: None,
    };
    proof {
        assert(string_views(init.dependencies@) =~= Seq::empty());
        assert(string_views(init.required_tools@) =~= Seq::empty());
        assert(string_views(execute.required_tools@) =~= Seq::empty());
        assert(string_views(verify.required_tools@) =~= Seq::empty());
    }
    let mut r: Vec<PlanStep> = Vec::new();
    r.push(init);
    r.push(execute);
    r.push(verify);
    assert(step_models(r@) =~= leaf_steps(*goal));
    r
}

/// Whether a trimmed line opens sub-goal `c`: `c.`, `Sub-goal` or `Subgoal`.
pub open spec fn opens_sub_goal(line: Seq<char>, c: nat) -> bool {
    occurs_at(line, decimal(c) + "."@, 0) || occurs_at(line, "Sub-goal"@, 0) || occurs_at(line, "Subgoal"@, 0)
}

/// The descriptions of the sub-goals among the first `n` lines: a line that,
/// trimmed, opens the next sub-goal gives the trimmed text after its colon
/// (or the line), unless that is empty.
pub open spec fn sub_goal_items(ls: Seq<Seq<char>>, n: nat) -> Seq<Seq<char>>
    decreases n,
{
    if n == 0 {
        Seq::empty()
    } else {
        let d = sub_goal_items(ls, (n - 1) as nat);
        let line = trimmed(ls[n - 1]);
        let desc = trimmed(field_or_line(line));
        if opens_sub_goal(line, d.len() + 1) && desc.len() > 0 { d.push(desc) } else { d }
    }
}

fn line_opens_sub_goal(line: &str, c: usize) -> (b: bool)
    ensures
        b == opens_sub_goal(line@, c as nat),
{
    let num = decimal_string(c as u64);
    let dotted = join(num.as_str(), ".");
    str_starts_with(line, dotted.as_str()) || str_starts_with(line, "Sub-goal") || str_starts_with(line, "Subgoal")
}

/// The descriptions of the sub-goals a decomposition text lists.
pub fn sub_goal_descriptions(text: &str) -> (r: Vec<String>)
    ensures
        string_views(r@) == sub_goal_items(text_lines(text@), text_lines(text@).len()),
{
    let lines = split_lines(text);
    let ghost ls = text_lines(text@);
    assert(string_views(lines@).len() == lines@.len());
    let mut r: Vec<String> = Vec::new();
    let mut i: usize = 0;
    assert(string_views(r@) =~= Seq::empty());
    while i < lines.len()
        invariant
            i <= lines@.len(),
            string_views(lines@) == ls,
            ls.len() == lines@.len(),
            lines@.len() <= text@.len() + 1,
            r@.len() <= i,
            string_views(r@) == sub_goal_items(ls, i as nat),
        decreases lines@.len() - i,
    {
        let line = trim(lines[i].as_str());
        assert(lines@[i as int]@ == ls[i as int]);
        let desc = item_description(line.as_str());
        assert(string_views(r@).len() == r@.len());
        if line_opens_sub_goal(line.as_str(), r.len() + 1) && crate::text::char_count(desc.as_str()) > 0 {
            let ghost before = string_views(r@);
            r.push(desc);
            assert(string_views(r@) =~= before.push(desc@));
        }
        i = i + 1;
    }
    r
}

/// The sub-goal `k` (from one) of a goal: `{id}_sub_{k}`, with the parent's
/// constraints and priority and the criterion `sub_goal_completed`.
pub fn sub_goal(parent: &Goal, k: usize, description: String) -> (g: Goal)
    ensures
        g.id@ == parent.id@ + "_sub_"@ + decimal(k as nat),
        g.description == description,
        string_views(g.success_criteria@) == seq!["sub_goal_completed"@],
        string_views(g.constraints@) == string_views(parent.constraints@),
        g.priority == parent.priority,
{
    let a = join(parent.id.as_str(), "_sub_");
    Goal {
        id: join(a.as_str(), decimal_string(k as u64).as_str()),
        description,
        success_criteria: one_string("sub_goal_completed"),
        constraints: copy_strings(&parent.constraints),
        priority: parent.priority,
    }
}

/// The sub-goals a decomposition reply lists, in order; the reply must be a
/// string.
pub fn decomposition_sub_goals(response: &JsonValue, goal: &Goal) -> (r: Result<Vec<Goal>, FlowError>)
    ensures
        !(*response is String) <==> r is Err,
        r matches Err(e) ==> e matches FlowError::Context(m) && m@ == "Invalid decomposition response format"@,
        r matches Ok(gs) ==> {
            let ds = sub_goal_items(text_lines(model_text(model(*response))->0), text_lines(model_text(model(*response))->0).len());
            &&& gs@.len() == ds.len()
            &&& forall|k: int| 0 <= k < gs@.len() ==> {
                &&& (#[trigger] gs@[k]).id@ == goal.id@ + "_sub_"@ + decimal((k + 1) as nat)
                &&& gs@[k].description@ == ds[k]
                &&& string_views(gs@[k].success_criteria@) == seq!["sub_goal_completed"@]
                &&& string_views(gs@[k].constraints@) == string_views(goal.constraints@)
                &&& gs@[k].priority == goal.priority
            }
        },
{
    let text = match response {
        JsonValue::String(s) => s,
        _ => {
            return Err(FlowError::context(String::from_str("Invalid decomposition response format")));
        },
    };
    let ds = sub_goal_descriptions(text.as_str());
    let ghost dv = string_views(ds@);
    assert(dv.len() == ds@.len());
    let mut gs: Vec<Goal> = Vec::new();
    let mut k: usize = 0;
    while k < ds.len()
        invariant
            k <= ds@.len(),
            dv == string_views(ds@),
            dv.len() == ds@.len(),
            gs@.len() == k,
            forall|j: int| 0 <= j < k ==> {
                &&& (#[trigger] gs@[j]).id@ == goal.id@ + "_sub_"@ + decimal((j + 1) as nat)
                &&& gs@[j].description@ == dv[j]
                &&& string_views(gs@[j].success_criteria@) == seq!["sub_goal_completed"@]
                &&& string_views(gs@[j].constraints@) == string_views(goal.constraints@)
                &&& gs@[j].priority == goal.priority
            },
        decreases ds@.len() - k,
    {
        assert(ds@.len() <= usize::MAX);
        let g = sub_goal(goal, k + 1, ds[k].clone());
        gs.push(g);
        k = k + 1;
    }
    Ok(gs)
}

/// Whether a trimmed line opens adaptive step `c`: `c.`, `Step c:`, or a
/// line that mentions a checkpoint or an adaptation point.
pub open spec fn opens_adaptive(line: Seq<char>, c: nat) -> bool {
    opens_item(line, c) || occurs_in(line, "Checkpoint:"@) || occurs_in(line, "Adaptation Point:"@)
}

/// The descriptions of the adaptive steps among the first `n` lines.
pub open spec fn adaptive_items(ls: Seq<Seq<char>>, n: nat) -> Seq<Seq<char>>
    decreases n,
{
    if n == 0 {
        Seq::empty()
    } else {
        let d = adaptive_items(ls, (n - 1) as nat);
        let line = trimmed(ls[n - 1]);
        if opens_adaptive(line, d.len() + 1) { d.push(trimmed(field_or_line(line))) } else { d }
    }
}

/// The adaptive step for item `k` (from zero): 400 s, watched by the
/// adaptation monitor, done when its checkpoint passes.
pub open spec fn adaptive_step(k: nat, d: Seq<char>) -> StepModel {
    StepModel {
        id: "adaptive_step_"@ + decimal(k + 1),
        description: d,
        dependencies: Seq::empty(),
        estimated_duration_secs: 400,
        required_tools: seq!["adaptation_monitor"@],
        success_criteria: seq![JsonModel::String("checkpoint_passed"@)],
        enforce_success_criteria: None,
        max_retries: None,
        initial_backoff_ms: None,
        stop_on_error: None,
    }
}

/// An adaptive reply's steps fit: a string reply's durations fit in 64 bits.
pub open spec fn adaptive_fits(m: JsonModel) -> bool {
    m matches JsonModel::String(s) ==> (s.len() + 1) * 400 <= u64::MAX
}

/// The adaptive plan a reply describes: a step per numbered line or
/// checkpoint, with a fresh `adaptive_plan_` id; the reply must be a string.
pub fn parse_adaptive_response(response: &JsonValue, goal: Goal) -> (r: Result<ExecutionPlan, FlowError>)
    requires
        adaptive_fits(model(*response)),
    ensures
        !(*response is String) <==> r is Err,
        r matches Err(e) ==> e matches FlowError::Context(m) && m@ == "Invalid adaptive planning response format"@,
        r matches Ok(p) ==> {
            let ls = text_lines(model_text(model(*response))->0);
            let ds = adaptive_items(ls, ls.len());
            &&& fresh_id(p.id@, "adaptive_plan_"@)
            &&& p.goal == goal
            &&& step_models(p.steps@) == Seq::new(ds.len(), |k: int| adaptive_step(k as nat, ds[k]))
            &&& p.estimated_duration_secs == 400 * ds.len()
            &&& string_views(p.required_resources@) == seq!["feedback_monitor"@, "adaptation_engine"@]
            &&& string_views(p.risk_factors@) == seq!["adaptation_overhead"@]
        },
{
    let text = match response {
        JsonValue::String(s) => s,
        _ => {
            return Err(FlowError::context(String::from_str("Invalid adaptive planning response format")));
        },
    };
    let lines = split_lines(text.as_str());
    let ghost ls = text_lines(text@);
    assert(string_views(lines@).len() == lines@.len());
    let mut steps: Vec<PlanStep> = Vec::new();
    let mut i: usize = 0;
    while i < lines.len()
        invariant
            i <= lines@.len(),
            string_views(lines@) == ls,
            ls.len() == lines@.len(),
            lines@.len() <= text@.len() + 1,
            steps@.len() <= i,
            steps@.len() == adaptive_items(ls, i as nat).len(),
            step_models(steps@) == Seq::new(
                adaptive_items(ls, i as nat).len(),
                |k: int| adaptive_step(k as nat, adaptive_items(ls, i as nat)[k]),
            ),
        decreases lines@.len() - i,
    {
        let line = trim(lines[i].as_str());
        assert(lines@[i as int]@ == ls[i as int]);
        let c = steps.len() + 1;
        let opens = line_opens_item(line.as_str(), c) || str_contains(line.as_str(), "Checkpoint:") || str_contains(
            line.as_str(),
            "Adaptation Point:",
        );
        if opens {
            let description = item_description(line.as_str());
            let step = PlanStep {
                id: join("adaptive_step_", decimal_string(c as u64).as_str()),
                description,
                dependencies: Vec::new(),
                estimated_duration_secs: 400,
                required_tools: one_string("adaptation_monitor"),
                success_criteria: one_criterion("checkpoint_passed"),
                enforce_success_criteria: None,
                max_retries: None,
                initial_backoff_ms: None,
                stop_on_error: None,
            };
            let ghost d = adaptive_items(ls, i as nat);
            let ghost before = steps@;
            proof {
                assert(adaptive_items(ls, (i + 1) as nat) == d.push(description@));
                assert(string_views(step.dependencies@) =~= Seq::empty());
                assert(step_model(step) == adaptive_step(d.len(), description@));
            }
            steps.push(step);
            proof {
                assert(step_models(steps@) =~= step_models(before).push(step_model(step)));
                let dd = d.push(description@);
                assert(Seq::new(dd.len(), |k: int| adaptive_step(k as nat, dd[k])) =~= Seq::new(
                    d.len(),
                    |k: int| adaptive_step(k as nat, d[k]),
                ).push(adaptive_step(d.len(), description@)));
            }
        } else {
            assert(adaptive_items(ls, (i + 1) as nat) == adaptive_items(ls, i as nat));
        }
        i = i + 1;
    }
    let secs = (steps.len() as u64) * 400;
    Ok(
        ExecutionPlan {
            id: fresh("adaptive_plan_"),
            goal,
            steps,
            estimated_duration_secs: secs,
            required_resources: two_strings("feedback_monitor", "adaptation_engine"),
            risk_factors: one_string("adaptation_overhead"),
        },
    )
}

/// The goal a replan aims at after `count` adaptations: `{id}_adapted_{count
/// + 1}`, `Adapted: ` before the description, the rest kept.
pub fn adapted_goal(goal: &Goal, count: usize) -> (g: Goal)
    requires
        count < usize::MAX,
    ensures
        g.id@ == goal.id@ + "_adapted_"@ + decimal((count + 1) as nat),
        g.description@ == "Adapted: "@ + goal.description@,
        string_views(g.success_criteria@) == string_views(goal.success_criteria@),
        string_views(g.constraints@) == string_views(goal.constraints@),
        g.priority == goal.priority,
{
    let a = join(goal.id.as_str(), "_adapted_");
    Goal {
        id: join(a.as_str(), decimal_string((count + 1) as u64).as_str()),
        description: join("Adapted: ", goal.description.as_str()),
        success_criteria: copy_strings(&goal.success_criteria),
        constraints: copy_strings(&goal.constraints),
        priority: goal.priority,
    }
}

/// The goal a goal-oriented replan aims at: `{id}_revised`, `Revised: `
/// before the description, the rest kept.
pub fn revised_goal(goal: &Goal) -> (g: Goal)
    ensures
        g.id@ == goal.id@ + "_revised"@,
        g.description@ == "Revised: "@ + goal.description@,
        string_views(g.success_criteria@) == string_views(goal.success_criteria@),
        string_views(g.constraints@) == string_views(goal.constraints@),
        g.priority == goal.priority,
{
    Goal {
        id: join(goal.id.as_str(), "_revised"),
        description: join("Revised: ", goal.description.as_str()),
        success_criteria: copy_strings(&goal.success_criteria),
        constraints: copy_strings(&goal.constraints),
        priority: goal.priority,
    }
}

/// The goal a hierarchical replan aims at: `{id}_hierarchical_replan`,
/// `Hierarchical replan: ` before the description, the rest kept.
pub fn hierarchical_replan_goal(goal: &Goal) -> (g: Goal)
    ensures
        g.id@ == goal.id@ + "_hierarchical_replan"@,
        g.description@ == "Hierarchical replan: "@ + goal.description@,
        string_views(g.success_criteria@) == string_views(goal.success_criteria@),
        string_views(g.constraints@) == string_views(goal.constraints@),
        g.priority == goal.priority,
{
    Goal {
        id: join(goal.id.as_str(), "_hierarchical_replan"),
        description: join("Hierarchical replan: ", goal.description.as_str()),
        success_criteria: copy_strings(&goal.success_criteria),
        constraints: copy_strings(&goal.constraints),
        priority: goal.priority,
    }
}

} // verus!
