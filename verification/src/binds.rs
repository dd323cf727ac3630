//! Which value is bound to which placeholder.
//!
//! A plan lists, per placeholder, where its bind value comes from and how it is wrapped for output.
//! Converting a Python value may fail, so a plan that ends in an error still lists the conversions
//! that come before the error.
use vstd::prelude::*;

use crate::errors::{ErrorName, Fault};
#[allow(unused_imports)]
use crate::errors::FaultView;
use crate::slots::{
    get_named_bind_value, missing_value, wrong_count, BindSlot, InputSizes, ParameterKeys,
};
#[allow(unused_imports)]
use crate::slots::{
    bare_key, exact_key, key_means, law_first_set_is_the_first, law_lookup_finds_the_key,
    law_lookup_needs_a_key, law_unknown_key_is_the_first, lookup_key, loose_key,
    missing_value_fault, slots_fit, unknown_key_fault, wrong_count_fault,
};
#[allow(unused_imports)]
use crate::text::same_ignoring_case;

verus! {

/// What kind of Python object holds the parameters.
#[derive(Clone, Copy, PartialEq, Eq, Structural, Debug)]
pub enum ContainerKind {
    Dict,
    Text,
    Tuple,
    List,
    /// Another object that can be iterated over.
    Iterable,
    Other,
}

/// What was passed as parameters.
#[derive(Clone, Copy, PartialEq, Eq, Structural, Debug)]
pub struct Payload {
    pub is_none: bool,
    pub kind: ContainerKind,
    /// The length that the object reports.
    pub len: usize,
    /// The number of items that iterating over it gives.
    pub items: usize,
}

/// Where a bind value comes from. Parameters and input sizes are referred to by index.
#[derive(Clone, Copy, PartialEq, Eq, Structural, Debug)]
pub enum Source {
    /// The parameter, converted as it stands.
    Convert(usize),
    /// The parameter, converted for execution.
    ConvertForExecute(usize),
    /// The variable declared as input size.
    InputSize(usize),
    /// The variable declared as input size, after it was set to the parameter. With `record`, the
    /// variable also keeps the value among those it saw during a batch.
    ThroughVar { size: usize, parameter: usize, record: bool },
    /// The variable that the previous execution bound.
    PreviousVar(usize),
}

/// How a bind value is wrapped.
#[derive(Clone, Copy, PartialEq, Eq, Structural, Debug)]
pub enum Wrap {
    Keep,
    /// As output of a `RETURNING` clause.
    Returning,
    /// As PL/SQL output that keeps a concrete value as its input.
    PlsqlOutput,
    /// As output only.
    OutputOnly,
}

#[derive(Clone, Copy, PartialEq, Eq, Structural, Debug)]
pub struct BindStep {
    pub source: Source,
    pub wrap: Wrap,
}

/// The steps to take in order, and the error to raise after them if there is one.
pub struct BindPlan {
    pub steps: Vec<BindStep>,
    pub fault: Option<Fault>,
}

impl BindPlan {
    /// The plan takes the steps that `step` gives for the positions from zero on, up to `n` or to
    /// the first error.
    pub open spec fn follows(
        self,
        n: int,
        step: spec_fn(int) -> Result<BindStep, FaultView>,
    ) -> bool {
        &&& self.steps@.len() <= n
        &&& forall|i: int| 0 <= i < self.steps@.len() ==> step(i) == Ok::<_, FaultView>(
            #[trigger] self.steps@[i],
        )
        &&& match self.fault {
            None => self.steps@.len() == n,
            Some(f) => self.steps@.len() < n && step(self.steps@.len() as int) == Err::<
                BindStep,
                FaultView,
            >(f@),
        }
    }

    pub open spec fn is_empty(self) -> bool {
        self.steps@.len() == 0 && self.fault is None
    }

    fn done() -> (r: BindPlan)
        ensures
            r.is_empty(),
    {
        BindPlan { steps: Vec::new(), fault: None }
    }
}

/// Two plans that follow the same rule are the same.
pub proof fn law_plan_is_determined(
    a: BindPlan,
    b: BindPlan,
    n: int,
    step: spec_fn(int) -> Result<BindStep, FaultView>,
)
    requires
        a.follows(n, step),
        b.follows(n, step),
    ensures
        a.steps@ == b.steps@,
        a.fault is Some == b.fault is Some,
        a.fault is Some ==> a.fault->0@ == b.fault->0@,
{
    if a.steps@.len() < b.steps@.len() {
        assert(step(a.steps@.len() as int) == Ok::<_, FaultView>(b.steps@[a.steps@.len() as int]));
    }
    if b.steps@.len() < a.steps@.len() {
        assert(step(b.steps@.len() as int) == Ok::<_, FaultView>(a.steps@[b.steps@.len() as int]));
    }
    assert forall|i: int| 0 <= i < a.steps@.len() implies a.steps@[i] == b.steps@[i] by {
        assert(step(i) == Ok::<_, FaultView>(a.steps@[i]));
        assert(step(i) == Ok::<_, FaultView>(b.steps@[i]));
    }
    assert(a.steps@ =~= b.steps@);
}

/// How many of the first `n` placeholders take their value from the caller alone.
pub open spec fn inputs_before(slots: Seq<BindSlot>, n: int) -> int
    decreases n,
{
    if n <= 0 {
        0
    } else {
        inputs_before(slots, n - 1) + if slots[n - 1].is_input() {
            1int
        } else {
            0int
        }
    }
}

pub proof fn lemma_inputs_before_mono(slots: Seq<BindSlot>, a: int, b: int)
    requires
        0 <= a <= b,
    ensures
        0 <= inputs_before(slots, a) <= inputs_before(slots, b) <= inputs_before(slots, a) + (b
            - a),
    decreases b,
{
    if a < b {
        lemma_inputs_before_mono(slots, a, b - 1);
    } else if a > 0 {
        lemma_inputs_before_mono(slots, a - 1, a - 1);
    }
}

/// The number of placeholders that take their value from the caller alone.
pub open spec fn input_count(slots: Seq<BindSlot>) -> int {
    inputs_before(slots, slots.len() as int)
}

pub open spec fn role_wrap(slot: BindSlot) -> Wrap {
    if slot.returning {
        Wrap::Returning
    } else if slot.plsql_output {
        Wrap::PlsqlOutput
    } else {
        Wrap::Keep
    }
}

fn wrap_of(slot: &BindSlot) -> (r: Wrap)
    ensures
        r == role_wrap(*slot),
{
    if slot.returning {
        Wrap::Returning
    } else if slot.plsql_output {
        Wrap::PlsqlOutput
    } else {
        Wrap::Keep
    }
}

/// Positional values are either one per placeholder or one per input placeholder.
pub open spec fn count_is_right(slots: Seq<BindSlot>, provided: int) -> bool {
    provided == slots.len() || provided == input_count(slots)
}

/// The value that position `p` takes among the provided ones.
pub open spec fn value_index(slots: Seq<BindSlot>, provided: int, p: int) -> int {
    if provided == slots.len() {
        p
    } else {
        inputs_before(slots, p)
    }
}

/// What is bound at position `p` when values are given by position.
pub open spec fn positional_step(
    slots: Seq<BindSlot>,
    sizes: InputSizes,
    provided: int,
    record: bool,
    p: int,
) -> Result<BindStep, FaultView> {
    let slot = slots[p];
    let value = value_index(slots, provided, p) as usize;
    if !slot.is_input() {
        if provided == slots.len() {
            Ok(BindStep { source: Source::Convert(value), wrap: role_wrap(slot) })
        } else {
            match slot.positional_size() {
                Some(s) => Ok(
                    BindStep { source: Source::InputSize(s as usize), wrap: role_wrap(slot) },
                ),
                None => Err(missing_value_fault(slot.name@)),
            }
        }
    } else {
        let source = match slot.positional_size() {
            Some(s) => if sizes.is_var@[s] {
                Source::ThroughVar { size: s as usize, parameter: value, record }
            } else {
                Source::ConvertForExecute(value)
            },
            None => Source::ConvertForExecute(value),
        };
        Ok(BindStep { source, wrap: Wrap::Keep })
    }
}

pub open spec fn positional_rule(
    slots: Seq<BindSlot>,
    sizes: InputSizes,
    provided: int,
    record: bool,
) -> spec_fn(int) -> Result<BindStep, FaultView> {
    |p: int| positional_step(slots, sizes, provided, record, p)
}

pub fn count_inputs(slots: &Vec<BindSlot>) -> (r: usize)
    ensures
        r == input_count(slots@),
{
    let mut i: usize = 0;
    let mut n: usize = 0;
    while i < slots.len()
        invariant
            i <= slots@.len(),
            n == inputs_before(slots@, i as int),
            n <= i,
        decreases slots@.len() - i,
    {
        if slots[i].input() {
            n = n + 1;
        }
        i = i + 1;
    }
    n
}

/// Checks that the parameters are a sequence of values, and counts them.
pub fn positional_bind_items(payload: &Payload) -> (r: Result<usize, Fault>)
    ensures
        match r {
            Ok(n) => positional_kind(payload.kind) && n == payload.items,
            Err(f) => !positional_kind(payload.kind) && f@ == FaultView::Named(
                ErrorName::WrongExecuteParametersType,
            ),
        },
{
    match payload.kind {
        ContainerKind::Dict | ContainerKind::Text | ContainerKind::Other => Err(
            Fault::Named(ErrorName::WrongExecuteParametersType),
        ),
        _ => Ok(payload.items),
    }
}

pub open spec fn positional_kind(kind: ContainerKind) -> bool {
    kind == ContainerKind::Tuple || kind == ContainerKind::List || kind == ContainerKind::Iterable
}

/// What planning by position gives.
pub open spec fn positional_outcome(
    r: Result<BindPlan, Fault>,
    payload: Payload,
    slots: Seq<BindSlot>,
    sizes: InputSizes,
    record: bool,
) -> bool {
    match r {
        Ok(plan) => positional_kind(payload.kind) && count_is_right(slots, payload.items as int)
            && plan.follows(
            slots.len() as int,
            positional_rule(slots, sizes, payload.items as int, record),
        ),
        Err(f) => if !positional_kind(payload.kind) {
            f@ == FaultView::Named(ErrorName::WrongExecuteParametersType)
        } else {
            !count_is_right(slots, payload.items as int) && f@ == wrong_count_fault(
                input_count(slots),
                payload.items as int,
            )
        },
    }
}

fn plan_positional(
    payload: &Payload,
    slots: &Vec<BindSlot>,
    sizes: &InputSizes,
    record: bool,
) -> (r: Result<BindPlan, Fault>)
    requires
        slots_fit(slots@, *sizes),
    ensures
        positional_outcome(r, *payload, slots@, *sizes, record),
{
    let provided = match positional_bind_items(payload) {
        Ok(n) => n,
        Err(f) => {
            return Err(f);
        },
    };
    let required = count_inputs(slots);
    if provided != slots.len() && provided != required {
        return Err(wrong_count(required, provided));
    }
    let all = provided == slots.len();
    let ghost rule = positional_rule(slots@, *sizes, provided as int, record);
    let mut steps: Vec<BindStep> = Vec::new();
    let mut p: usize = 0;
    let mut next_input: usize = 0;
    while p < slots.len()
        invariant
            slots_fit(slots@, *sizes),
            p <= slots@.len(),
            all == (provided == slots@.len()),
            count_is_right(slots@, provided as int),
            positional_kind(payload.kind),
            provided == payload.items,
            rule == positional_rule(slots@, *sizes, provided as int, record),
            next_input == inputs_before(slots@, p as int),
            next_input <= p,
            steps@.len() == p,
            forall|i: int| 0 <= i < p ==> rule(i) == Ok::<_, FaultView>(#[trigger] steps@[i]),
        decreases slots@.len() - p,
    {
        let slot = &slots[p];
        let value: usize = if all {
            p
        } else {
            next_input
        };
        proof {
            assert(slots@[p as int].fits(*sizes));
            lemma_inputs_before_mono(slots@, p as int, p + 1);
        }
        let size = slot.positional_input_size_value();
        if !slot.input() {
            let wrap = wrap_of(slot);
            if all {
                steps.push(BindStep { source: Source::Convert(value), wrap });
            } else {
                match size {
                    Some(s) => {
                        steps.push(BindStep { source: Source::InputSize(s), wrap });
                    },
                    None => {
                        let fault = Some(missing_value(slot.name.as_str()));
                        return Ok(BindPlan { steps, fault });
                    },
                }
            }
        } else {
            let source = match size {
                Some(s) => if sizes.is_var[s] {
                    Source::ThroughVar { size: s, parameter: value, record }
                } else {
                    Source::ConvertForExecute(value)
                },
                None => Source::ConvertForExecute(value),
            };
            steps.push(BindStep { source, wrap: Wrap::Keep });
            next_input = next_input + 1;
        }
        p = p + 1;
    }
    Ok(BindPlan { steps, fault: None })
}

/// Plans one execution with values given by position.
pub fn extract_positional_bind_values_for_execute(
    payload: &Payload,
    slots: &Vec<BindSlot>,
    sizes: &InputSizes,
) -> (r: Result<BindPlan, Fault>)
    requires
        slots_fit(slots@, *sizes),
    ensures
        positional_outcome(r, *payload, slots@, *sizes, false),
{
    plan_positional(payload, slots, sizes, false)
}

/// Plans one row of a batch with values given by position.
pub fn extract_positional_bind_values_with_input_sizes(
    payload: &Payload,
    slots: &Vec<BindSlot>,
    sizes: &InputSizes,
) -> (r: Result<BindPlan, Fault>)
    requires
        slots_fit(slots@, *sizes),
    ensures
        positional_outcome(r, *payload, slots@, *sizes, true),
{
    plan_positional(payload, slots, sizes, true)
}

/// Every value index of a plan by position is within the provided values.
pub proof fn law_positional_values_in_range(slots: Seq<BindSlot>, provided: int, p: int)
    requires
        count_is_right(slots, provided),
        0 <= p < slots.len(),
        slots[p].is_input() || provided == slots.len(),
    ensures
        0 <= value_index(slots, provided, p) < provided,
{
    lemma_inputs_before_mono(slots, 0, p);
    lemma_inputs_before_mono(slots, p, p + 1);
    lemma_inputs_before_mono(slots, p + 1, slots.len() as int);
}

/// Two input placeholders never share a positional value, and later placeholders take later values.
pub proof fn law_positional_values_in_order(slots: Seq<BindSlot>, provided: int, p: int, q: int)
    requires
        count_is_right(slots, provided),
        0 <= p < q < slots.len(),
        slots[p].is_input(),
        slots[q].is_input(),
    ensures
        value_index(slots, provided, p) < value_index(slots, provided, q),
{
    lemma_inputs_before_mono(slots, p + 1, q);
}

/// A statement without output placeholders is bound in the same way whether one counts all of its
/// placeholders or its inputs: both counts are the same, and so is the value of each position.
pub proof fn law_inputs_only_agree(slots: Seq<BindSlot>)
    requires
        forall|i: int| 0 <= i < slots.len() ==> (#[trigger] slots[i]).is_input(),
    ensures
        input_count(slots) == slots.len(),
        forall|p: int| 0 <= p < slots.len() ==> #[trigger] inputs_before(slots, p) == p,
{
    lemma_all_inputs(slots, slots.len() as int);
    assert forall|p: int| 0 <= p < slots.len() implies #[trigger] inputs_before(slots, p) == p by {
        lemma_all_inputs(slots, p);
    }
}

proof fn lemma_all_inputs(slots: Seq<BindSlot>, n: int)
    requires
        0 <= n <= slots.len(),
        forall|i: int| 0 <= i < slots.len() ==> (#[trigger] slots[i]).is_input(),
    ensures
        inputs_before(slots, n) == n,
    decreases n,
{
    if n > 0 {
        lemma_all_inputs(slots, n - 1);
        assert(slots[n - 1].is_input());
    }
}

/// What is bound to a placeholder when values are given by name. `previous` variables of the last
/// execution are at hand.
pub open spec fn named_step(
    slot: BindSlot,
    keys: Option<Seq<String>>,
    sizes: InputSizes,
    previous: int,
    record: bool,
) -> Result<BindStep, FaultView> {
    let given = match keys {
        Some(k) => lookup_key(k, slot),
        None => None,
    };
    if given is Some {
        let value = given->0 as usize;
        let source = match slot.named_size() {
            Some(s) => if sizes.is_var@[s] {
                Source::ThroughVar {
                    size: s as usize,
                    parameter: value,
                    record: record && slot.is_input(),
                }
            } else {
                Source::ConvertForExecute(value)
            },
            None => Source::ConvertForExecute(value),
        };
        Ok(BindStep { source, wrap: role_wrap(slot) })
    } else if slot.named_size() is Some {
        Ok(
            BindStep {
                source: Source::InputSize(slot.named_size()->0 as usize),
                wrap: role_wrap(slot),
            },
        )
    } else if !slot.is_input() && slot.previous_var(previous) is Some {
        Ok(
            BindStep {
                source: Source::PreviousVar(slot.previous_var(previous)->0 as usize),
                wrap: if slot.returning {
                    Wrap::Returning
                } else {
                    Wrap::OutputOnly
                },
            },
        )
    } else {
        Err(missing_value_fault(slot.name@))
    }
}

pub open spec fn key_texts(keys: Option<&ParameterKeys>) -> Option<Seq<String>> {
    match keys {
        Some(k) => Some(k.keys@),
        None => None,
    }
}

pub open spec fn named_rule(
    slots: Seq<BindSlot>,
    keys: Option<&ParameterKeys>,
    sizes: InputSizes,
    previous: int,
    record: bool,
) -> spec_fn(int) -> Result<BindStep, FaultView> {
    |p: int| named_step(slots[p], key_texts(keys), sizes, previous, record)
}

/// What planning by name gives.
pub open spec fn named_outcome(
    r: Result<BindPlan, Fault>,
    keys: Option<&ParameterKeys>,
    slots: Seq<BindSlot>,
    sizes: InputSizes,
    previous: int,
    record: bool,
) -> bool {
    let unknown = match keys {
        Some(k) => k.first_unknown(0),
        None => None,
    };
    match r {
        Ok(plan) => unknown is None && plan.follows(
            slots.len() as int,
            named_rule(slots, keys, sizes, previous, record),
        ),
        Err(f) => unknown is Some && f@ == unknown_key_fault(keys->0.keys@[unknown->0]@),
    }
}

fn plan_named_step(
    slot: &BindSlot,
    keys: Option<&ParameterKeys>,
    sizes: &InputSizes,
    previous: usize,
    record: bool,
) -> (r: Result<BindStep, Fault>)
    requires
        slot.fits(*sizes),
    ensures
        crate::errors::outcome(r) == named_step(
            *slot,
            key_texts(keys),
            *sizes,
            previous as int,
            record,
        ),
{
    let given = match keys {
        Some(k) => get_named_bind_value(&k.keys, slot),
        None => None,
    };
    let size = slot.named_input_size_value();
    if let Some(value) = given {
        let source = match size {
            Some(s) => if sizes.is_var[s] {
                Source::ThroughVar { size: s, parameter: value, record: record && slot.input() }
            } else {
                Source::ConvertForExecute(value)
            },
            None => Source::ConvertForExecute(value),
        };
        return Ok(BindStep { source, wrap: wrap_of(slot) });
    }
    if let Some(s) = size {
        return Ok(BindStep { source: Source::InputSize(s), wrap: wrap_of(slot) });
    }
    if !slot.input() {
        if let Some(v) = slot.previous_bind_var_by_name(previous) {
            let wrap = if slot.returning {
                Wrap::Returning
            } else {
                Wrap::OutputOnly
            };
            return Ok(BindStep { source: Source::PreviousVar(v), wrap });
        }
    }
    Err(missing_value(slot.name.as_str()))
}

/// Plans an execution with values given by name, by declared input sizes, or by the variables of
/// the previous execution.
pub fn extract_named_bind_values(
    keys: Option<&ParameterKeys>,
    slots: &Vec<BindSlot>,
    sizes: &InputSizes,
    previous: usize,
    record: bool,
) -> (r: Result<BindPlan, Fault>)
    requires
        slots_fit(slots@, *sizes),
        keys matches Some(k) ==> k.fits(slots@.len() as int),
    ensures
        named_outcome(r, keys, slots@, *sizes, previous as int, record),
{
    if let Some(k) = keys {
        if let Some(f) = k.check_known() {
            return Err(f);
        }
    }
    let ghost rule = named_rule(slots@, keys, *sizes, previous as int, record);
    let mut steps: Vec<BindStep> = Vec::new();
    let mut p: usize = 0;
    while p < slots.len()
        invariant
            slots_fit(slots@, *sizes),
            keys matches Some(k) ==> k.first_unknown(0) is None,
            rule == named_rule(slots@, keys, *sizes, previous as int, record),
            p <= slots@.len(),
            steps@.len() == p,
            forall|i: int| 0 <= i < p ==> rule(i) == Ok::<_, FaultView>(#[trigger] steps@[i]),
        decreases slots@.len() - p,
    {
        proof {
            assert(slots@[p as int].fits(*sizes));
        }
        match plan_named_step(&slots[p], keys, sizes, previous, record) {
            Ok(step) => {
                steps.push(step);
            },
            Err(f) => {
                return Ok(BindPlan { steps, fault: Some(f) });
            },
        }
        p = p + 1;
    }
    Ok(BindPlan { steps, fault: None })
}

/// A key finds the value of a placeholder.
pub open spec fn answers(key: Seq<char>, slot: BindSlot) -> bool {
    key == slot.name@ || (!slot.quoted && same_ignoring_case(bare_key(key), slot.name@))
}

/// No two keys find the value of one placeholder.
pub open spec fn keys_are_unambiguous(keys: Seq<String>, slots: Seq<BindSlot>) -> bool {
    forall|i: int, j: int, p: int|
        0 <= i < keys.len() && 0 <= j < keys.len() && 0 <= p < slots.len() && #[trigger] answers(
            keys[i]@,
            slots[p],
        ) && #[trigger] answers(keys[j]@, slots[p]) ==> i == j
}

/// The second mapping holds the keys of the first in another order: `order` says where each of
/// them stands in it.
pub open spec fn reordered(a: ParameterKeys, b: ParameterKeys, order: Seq<int>) -> bool {
    let n = a.keys@.len() as int;
    &&& b.keys@.len() == n && order.len() == n
    &&& a.matched@.len() == b.matched@.len()
    &&& forall|i: int| 0 <= i < n ==> 0 <= #[trigger] order[i] < n
    &&& forall|i: int| 0 <= i < n ==> b.keys@[#[trigger] order[i]]@ == a.keys@[i]@
    &&& forall|i: int, p: int|
        0 <= i < n && 0 <= p < a.matched@.len() ==> #[trigger] b.matched@[p]@[order[i]]
            == a.matched@[p]@[i]
    &&& forall|j: int| 0 <= j < n ==> #[trigger] order.contains(j)
}

/// The step with the parameter in its place in the second mapping.
pub open spec fn moved(step: BindStep, order: Seq<int>) -> BindStep {
    BindStep {
        source: match step.source {
            Source::Convert(v) => Source::Convert(order[v as int] as usize),
            Source::ConvertForExecute(v) => Source::ConvertForExecute(order[v as int] as usize),
            Source::ThroughVar { size, parameter, record } => Source::ThroughVar {
                size,
                parameter: order[parameter as int] as usize,
                record,
            },
            other => other,
        },
        ..step
    }
}

proof fn lemma_lookup_answers(keys: Seq<String>, slot: BindSlot, k: int)
    ensures
        match lookup_key(keys, slot) {
            Some(i) => 0 <= i < keys.len() && answers(keys[i]@, slot),
            None => 0 <= k < keys.len() ==> !answers(keys[k]@, slot),
        },
{
    lemma_exact_key(keys, slot.name@, 0, k);
    lemma_loose_key(keys, slot.name@, 0, k);
}

proof fn lemma_exact_key(keys: Seq<String>, name: Seq<char>, from: int, k: int)
    requires
        0 <= from,
    ensures
        match exact_key(keys, name, from) {
            Some(i) => from <= i < keys.len() && keys[i]@ == name,
            None => from <= k < keys.len() ==> keys[k]@ != name,
        },
    decreases keys.len() - from,
{
    if from < keys.len() && keys[from]@ != name {
        lemma_exact_key(keys, name, from + 1, k);
    }
}

proof fn lemma_loose_key(keys: Seq<String>, name: Seq<char>, from: int, k: int)
    requires
        0 <= from,
    ensures
        match loose_key(keys, name, from) {
            Some(i) => from <= i < keys.len() && same_ignoring_case(bare_key(keys[i]@), name),
            None => from <= k < keys.len() ==> !same_ignoring_case(bare_key(keys[k]@), name),
        },
    decreases keys.len() - from,
{
    if from < keys.len() && !same_ignoring_case(bare_key(keys[from]@), name) {
        lemma_loose_key(keys, name, from + 1, k);
    }
}

/// A placeholder finds the same key in both mappings.
proof fn lemma_lookup_moves(
    a: ParameterKeys,
    b: ParameterKeys,
    order: Seq<int>,
    slots: Seq<BindSlot>,
    p: int,
)
    requires
        reordered(a, b, order),
        keys_are_unambiguous(a.keys@, slots),
        0 <= p < slots.len(),
    ensures
        lookup_key(b.keys@, slots[p]) == match lookup_key(a.keys@, slots[p]) {
            Some(i) => Some(order[i]),
            None => None,
        },
        lookup_key(a.keys@, slots[p]) matches Some(i) ==> 0 <= i < a.keys@.len(),
{
    let slot = slots[p];
    let in_a = lookup_key(a.keys@, slot);
    let in_b = lookup_key(b.keys@, slot);
    lemma_lookup_answers(a.keys@, slot, 0);
    lemma_lookup_answers(b.keys@, slot, 0);
    if in_a is Some {
        lemma_lookup_answers(b.keys@, slot, order[in_a->0]);
    }
    if in_b is Some {
        assert(order.contains(in_b->0));
        let i = choose|i: int| 0 <= i < order.len() && order[i] == in_b->0;
        lemma_lookup_answers(a.keys@, slot, i);
        assert(answers(a.keys@[i]@, slot));
    }
}

/// A mapping that names no unknown placeholder does so in any order.
proof fn lemma_known_moves(a: ParameterKeys, b: ParameterKeys, order: Seq<int>, from: int)
    requires
        reordered(a, b, order),
        a.first_unknown(0) is None,
        0 <= from,
    ensures
        b.first_unknown(from) is None,
    decreases b.keys@.len() - from,
{
    if from < b.keys@.len() {
        assert(order.contains(from));
        let i = choose|i: int| 0 <= i < order.len() && order[i] == from;
        lemma_all_known(a, 0, i);
        let p = choose|p: int| 0 <= p < a.matched@.len() && #[trigger] a.matched@[p]@[i];
        assert(b.matched@[p]@[order[i]]);
        assert(b.known(from));
        lemma_known_moves(a, b, order, from + 1);
    }
}

proof fn lemma_all_known(a: ParameterKeys, from: int, k: int)
    requires
        a.first_unknown(from) is None,
        0 <= from <= k < a.keys@.len(),
    ensures
        a.known(k),
    decreases k - from,
{
    if from < k {
        lemma_all_known(a, from + 1, k);
    }
}

/// Values given by name are bound in the order of the placeholders, whatever the order of the keys
/// in their mapping: where the plan for one order binds every placeholder, so does the plan for any
/// other, and binds the value of the same key to each.
pub proof fn law_key_order_does_not_matter(
    a: ParameterKeys,
    b: ParameterKeys,
    order: Seq<int>,
    slots: Seq<BindSlot>,
    sizes: InputSizes,
    previous: int,
    record: bool,
    first: Result<BindPlan, Fault>,
    second: Result<BindPlan, Fault>,
)
    requires
        reordered(a, b, order),
        keys_are_unambiguous(a.keys@, slots),
        a.keys@.len() <= usize::MAX,
        named_outcome(first, Some(&a), slots, sizes, previous, record),
        named_outcome(second, Some(&b), slots, sizes, previous, record),
        first matches Ok(plan) && plan.fault is None,
    ensures
        second matches Ok(plan) && plan.fault is None,
        first->Ok_0.steps@.len() == slots.len(),
        second->Ok_0.steps@.len() == slots.len(),
        forall|p: int|
            0 <= p < slots.len() ==> #[trigger] second->Ok_0.steps@[p] == moved(
                first->Ok_0.steps@[p],
                order,
            ),
{
    lemma_known_moves(a, b, order, 0);
    let one = first->Ok_0;
    let two = second->Ok_0;
    let rule_a = named_rule(slots, Some(&a), sizes, previous, record);
    let rule_b = named_rule(slots, Some(&b), sizes, previous, record);
    assert forall|p: int| 0 <= p < slots.len() implies #[trigger] rule_b(p) == Ok::<
        BindStep,
        FaultView,
    >(moved(one.steps@[p], order)) by {
        lemma_lookup_moves(a, b, order, slots, p);
        assert(rule_a(p) == Ok::<_, FaultView>(one.steps@[p]));
    }
    if two.fault is Some {
        assert(rule_b(two.steps@.len() as int) is Ok);
    }
    assert forall|p: int| 0 <= p < slots.len() implies #[trigger] two.steps@[p] == moved(
        one.steps@[p],
        order,
    ) by {
        assert(rule_b(p) == Ok::<_, FaultView>(two.steps@[p]));
    }
}

/// What is bound to a placeholder when declared input sizes alone decide.
pub open spec fn input_size_step(slot: BindSlot) -> Result<BindStep, FaultView> {
    match slot.any_size() {
        Some(s) => Ok(BindStep { source: Source::InputSize(s as usize), wrap: role_wrap(slot) }),
        None => Err(missing_value_fault(slot.name@)),
    }
}

pub open spec fn input_size_rule(slots: Seq<BindSlot>) -> spec_fn(int) -> Result<
    BindStep,
    FaultView,
> {
    |p: int| input_size_step(slots[p])
}

/// Plans an iteration of a batch that is given by a count: the declared input sizes are bound.
pub fn extract_input_size_bind_values(slots: &Vec<BindSlot>) -> (r: BindPlan)
    ensures
        r.follows(slots@.len() as int, input_size_rule(slots@)),
{
    let ghost rule = input_size_rule(slots@);
    let mut steps: Vec<BindStep> = Vec::new();
    let mut p: usize = 0;
    while p < slots.len()
        invariant
            rule == input_size_rule(slots@),
            p <= slots@.len(),
            steps@.len() == p,
            forall|i: int| 0 <= i < p ==> rule(i) == Ok::<_, FaultView>(#[trigger] steps@[i]),
        decreases slots@.len() - p,
    {
        let slot = &slots[p];
        match slot.input_size_value_for_bind() {
            Some(s) => {
                steps.push(BindStep { source: Source::InputSize(s), wrap: wrap_of(slot) });
            },
            None => {
                let fault = Some(missing_value(slot.name.as_str()));
                return BindPlan { steps, fault };
            },
        }
        p = p + 1;
    }
    BindPlan { steps, fault: None }
}

/// Whether parameters were passed that hold anything.
pub open spec fn has_payload(p: Option<Payload>) -> bool {
    p matches Some(v) && !v.is_none && v.len > 0
}

pub fn has_bind_payload(p: Option<Payload>) -> (r: bool)
    ensures
        r == has_payload(p),
{
    match p {
        Some(v) => !v.is_none && v.len > 0,
        None => false,
    }
}

/// Everything that decides how the parameters of one execution are bound. `keys` are those of the
/// mapping that holds parameters: the keyword parameters if there are any, else the parameters
/// themselves where they are a mapping.
pub struct BindRequest {
    pub parameters: Option<Payload>,
    pub keywords: Option<Payload>,
    pub keys: ParameterKeys,
    pub slots: Vec<BindSlot>,
    pub sizes: InputSizes,
    pub has_positional_input_sizes: bool,
    /// The number of variables that the previous execution bound.
    pub previous: usize,
}

/// The ways in which one execution can be bound.
#[derive(Clone, Copy, PartialEq, Eq, Structural, Debug)]
pub enum BindMode {
    /// Parameters and keyword parameters were both given.
    Conflict,
    /// Values by name.
    ByName,
    /// Declared input sizes and the previous execution's variables.
    Declared,
    /// Values by position.
    ByPosition,
    /// Input sizes were declared by position, and no values given.
    DeclaredByPosition,
    /// Nothing to bind.
    Nothing,
}

impl BindRequest {
    pub open spec fn wf(self) -> bool {
        &&& slots_fit(self.slots@, self.sizes)
        &&& self.keys.fits(self.slots@.len() as int)
    }

    pub open spec fn mode(self) -> BindMode {
        let sized = self.sizes.is_var@.len() > 0;
        if has_payload(self.parameters) && has_payload(self.keywords) {
            BindMode::Conflict
        } else if has_payload(self.keywords) {
            BindMode::ByName
        } else if self.parameters is None {
            if sized {
                BindMode::Declared
            } else {
                BindMode::Nothing
            }
        } else if !has_payload(self.parameters) {
            if self.has_positional_input_sizes {
                BindMode::DeclaredByPosition
            } else if sized {
                BindMode::Declared
            } else {
                BindMode::Nothing
            }
        } else if self.parameters->0.kind == ContainerKind::Dict {
            BindMode::ByName
        } else {
            BindMode::ByPosition
        }
    }

    pub fn bind_mode(&self) -> (r: BindMode)
        ensures
            r == self.mode(),
    {
        let has_parameters = has_bind_payload(self.parameters);
        let has_keywords = has_bind_payload(self.keywords);
        if has_parameters && has_keywords {
            return BindMode::Conflict;
        }
        if has_keywords {
            return BindMode::ByName;
        }
        let sized = self.sizes.is_var.len() > 0;
        match self.parameters {
            None => if sized {
                BindMode::Declared
            } else {
                BindMode::Nothing
            },
            Some(p) => if !has_parameters {
                if self.has_positional_input_sizes {
                    BindMode::DeclaredByPosition
                } else if sized {
                    BindMode::Declared
                } else {
                    BindMode::Nothing
                }
            } else if p.kind == ContainerKind::Dict {
                BindMode::ByName
            } else {
                BindMode::ByPosition
            },
        }
    }

    /// What planning the binds of the request gives.
    pub open spec fn values_outcome(self, r: Result<BindPlan, Fault>) -> bool {
        match self.mode() {
            BindMode::Conflict => r matches Err(f) && f@ == FaultView::Named(
                ErrorName::ArgsAndKeywordArgs,
            ),
            BindMode::ByName => named_outcome(
                r,
                Some(&self.keys),
                self.slots@,
                self.sizes,
                self.previous as int,
                false,
            ),
            BindMode::Declared => named_outcome(
                r,
                None,
                self.slots@,
                self.sizes,
                self.previous as int,
                false,
            ),
            BindMode::ByPosition => positional_outcome(
                r,
                self.parameters->0,
                self.slots@,
                self.sizes,
                false,
            ),
            BindMode::DeclaredByPosition => {
                let payload = self.parameters->0;
                if !positional_kind(payload.kind) {
                    r matches Err(f) && f@ == FaultView::Named(
                        ErrorName::WrongExecuteParametersType,
                    )
                } else if payload.items > 0 {
                    positional_outcome(r, payload, self.slots@, self.sizes, false)
                } else if self.slots@.len() > 0 {
                    r matches Err(f) && f@ == missing_value_fault(self.slots@[0].name@)
                } else {
                    r matches Ok(plan) && plan.is_empty()
                }
            },
            BindMode::Nothing => r matches Ok(plan) && plan.is_empty(),
        }
    }
}

/// Plans the binds of one execution.
pub fn extract_bind_values(request: &BindRequest) -> (r: Result<BindPlan, Fault>)
    requires
        request.wf(),
    ensures
        request.values_outcome(r),
{
    match request.bind_mode() {
        BindMode::Conflict => Err(Fault::Named(ErrorName::ArgsAndKeywordArgs)),
        BindMode::ByName => extract_named_bind_values(
            Some(&request.keys),
            &request.slots,
            &request.sizes,
            request.previous,
            false,
        ),
        BindMode::Declared => extract_named_bind_values(
            None,
            &request.slots,
            &request.sizes,
            request.previous,
            false,
        ),
        BindMode::ByPosition => match request.parameters {
            Some(p) => extract_positional_bind_values_for_execute(
                &p,
                &request.slots,
                &request.sizes,
            ),
            None => Ok(BindPlan::done()),
        },
        BindMode::DeclaredByPosition => match request.parameters {
            Some(p) => match positional_bind_items(&p) {
                Err(f) => Err(f),
                Ok(n) => if n > 0 {
                    extract_positional_bind_values_for_execute(&p, &request.slots, &request.sizes)
                } else if request.slots.len() > 0 {
                    Err(missing_value(request.slots[0].name.as_str()))
                } else {
                    Ok(BindPlan::done())
                },
            },
            None => Ok(BindPlan::done()),
        },
        BindMode::Nothing => Ok(BindPlan::done()),
    }
}

/// The parameter that a value is taken from, if it is taken from one.
pub open spec fn parameter_of(source: Source) -> Option<int> {
    match source {
        Source::Convert(v) => Some(v as int),
        Source::ConvertForExecute(v) => Some(v as int),
        Source::ThroughVar { parameter, .. } => Some(parameter as int),
        Source::InputSize(_) => None,
        Source::PreviousVar(_) => None,
    }
}

/// A placeholder that one of the keys means is bound to the value under such a key, and never ends
/// the plan as missing. The value goes through the variable that was declared for the name, if one
/// was; it is wrapped by what the placeholder is for.
pub proof fn law_named_value_is_bound(
    r: Result<BindPlan, Fault>,
    keys: ParameterKeys,
    slots: Seq<BindSlot>,
    sizes: InputSizes,
    previous: int,
    record: bool,
    p: int,
    k: int,
)
    requires
        named_outcome(r, Some(&keys), slots, sizes, previous, record),
        r is Ok,
        keys.keys@.len() <= usize::MAX,
        0 <= p < slots.len(),
        slots[p].sizes_by_name@.len() <= usize::MAX,
        0 <= k < keys.keys@.len(),
        key_means(keys.keys@[k]@, slots[p].name@, slots[p].quoted),
    ensures
        r->Ok_0.fault is Some ==> r->Ok_0.steps@.len() != p,
        p < r->Ok_0.steps@.len() ==> {
            let step = r->Ok_0.steps@[p];
            let slot = slots[p];
            let j = parameter_of(step.source)->0;
            &&& parameter_of(step.source) is Some
            &&& 0 <= j < keys.keys@.len()
            &&& key_means(keys.keys@[j]@, slot.name@, slot.quoted)
            &&& keys.keys@[k]@ == slot.name@ ==> keys.keys@[j]@ == slot.name@
            &&& (forall|i: int|
                0 <= i < keys.keys@.len() && i != k ==> !key_means(
                    (#[trigger] keys.keys@[i])@,
                    slot.name@,
                    slot.quoted,
                )) ==> j == k
            &&& (forall|s: int|
                0 <= s < slot.sizes_by_name@.len() ==> !#[trigger] slot.sizes_by_name@[s])
                ==> step.source is ConvertForExecute
            &&& step.source matches Source::ThroughVar { size, record: recorded, .. } ==> {
                &&& slot.sizes_by_name@[size as int] && sizes.is_var@[size as int]
                &&& recorded <==> record && !slot.returning && !slot.plsql_output
            }
            &&& slot.returning ==> step.wrap == Wrap::Returning
            &&& !slot.returning && slot.plsql_output ==> step.wrap == Wrap::PlsqlOutput
            &&& !slot.returning && !slot.plsql_output ==> step.wrap == Wrap::Keep
        },
{
    let plan = r->Ok_0;
    let slot = slots[p];
    let rule = named_rule(slots, Some(&keys), sizes, previous, record);
    law_lookup_finds_the_key(keys.keys@, slot, k);
    law_first_set_is_the_first(slot.sizes_by_name@, 0);
    let i = lookup_key(keys.keys@, slot)->0;
    assert(rule(p) is Ok);
    if p < plan.steps@.len() {
        assert(rule(p) == Ok::<_, FaultView>(plan.steps@[p]));
        if i != k {
            assert(key_means(keys.keys@[i]@, slot.name@, slot.quoted));
        }
    }
}

/// A mapping with a key for each placeholder, and with no other keys, binds all of them.
pub proof fn law_named_plan_is_complete(
    r: Result<BindPlan, Fault>,
    keys: ParameterKeys,
    slots: Seq<BindSlot>,
    sizes: InputSizes,
    previous: int,
    record: bool,
    chosen: Seq<int>,
)
    requires
        named_outcome(r, Some(&keys), slots, sizes, previous, record),
        chosen.len() == slots.len(),
        forall|p: int|
            0 <= p < slots.len() ==> 0 <= #[trigger] chosen[p] < keys.keys@.len() && key_means(
                keys.keys@[chosen[p]]@,
                slots[p].name@,
                slots[p].quoted,
            ),
        forall|j: int| 0 <= j < keys.keys@.len() ==> #[trigger] names_a_placeholder(keys, j),
    ensures
        r matches Ok(plan) && plan.fault is None && plan.steps@.len() == slots.len(),
{
    law_unknown_key_is_the_first(keys, 0, 0);
    if keys.first_unknown(0) is Some {
        let u = keys.first_unknown(0)->0;
        assert(names_a_placeholder(keys, u));
        let p = choose|p: int| 0 <= p < keys.matched@.len() && #[trigger] keys.matched@[p]@[u];
        assert(!keys.matched@[p]@[u]);
    }
    let plan = r->Ok_0;
    if plan.fault is Some {
        let p = plan.steps@.len() as int;
        let rule = named_rule(slots, Some(&keys), sizes, previous, record);
        law_lookup_finds_the_key(keys.keys@, slots[p], chosen[p]);
        assert(rule(p) is Ok);
    }
}

/// The SQL parser found the key to name one of the placeholders.
pub open spec fn names_a_placeholder(keys: ParameterKeys, k: int) -> bool {
    exists|p: int| 0 <= p < keys.matched@.len() && #[trigger] keys.matched@[p]@[k]
}

/// A placeholder that no key means is bound to the variable that was declared for its name; an
/// output placeholder without one to the variable of the execution before. Where there is neither
/// the plan ends there, with the error that names the placeholder.
pub proof fn law_value_that_is_not_given(
    r: Result<BindPlan, Fault>,
    keys: ParameterKeys,
    slots: Seq<BindSlot>,
    sizes: InputSizes,
    previous: int,
    record: bool,
    p: int,
)
    requires
        named_outcome(r, Some(&keys), slots, sizes, previous, record),
        r is Ok,
        0 <= p < slots.len(),
        p <= r->Ok_0.steps@.len(),
        slots[p].sizes_by_name@.len() <= usize::MAX,
        previous <= usize::MAX,
        forall|k: int|
            0 <= k < keys.keys@.len() ==> !key_means(
                (#[trigger] keys.keys@[k])@,
                slots[p].name@,
                slots[p].quoted,
            ),
    ensures
        ({
            let slot = slots[p];
            let plan = r->Ok_0;
            let declared = exists|s: int|
                0 <= s < slot.sizes_by_name@.len() && #[trigger] slot.sizes_by_name@[s];
            &&& declared ==> p < plan.steps@.len() && (plan.steps@[p].source matches
                Source::InputSize(s) && slot.sizes_by_name@[s as int] && forall|t: int|
                0 <= t < s ==> !#[trigger] slot.sizes_by_name@[t])
            &&& !declared && !slot.returning && !slot.plsql_output ==> plan.steps@.len() == p && (
            plan.fault matches Some(f) && f@ == missing_value_fault(slot.name@))
            &&& !declared && p < plan.steps@.len() ==> (plan.steps@[p].source matches
                Source::PreviousVar(v) && v < previous && slot.previous@[v as int]) && (
            plan.steps@[p].wrap == Wrap::Returning <==> slot.returning) && (plan.steps@[p].wrap
                == Wrap::OutputOnly <==> !slot.returning)
        }),
{
    let slot = slots[p];
    let plan = r->Ok_0;
    let rule = named_rule(slots, Some(&keys), sizes, previous, record);
    law_lookup_needs_a_key(keys.keys@, slot);
    law_first_set_is_the_first(slot.sizes_by_name@, 0);
    law_first_set_is_the_first(slot.previous@, 0);
    if slot.named_size() is Some {
        assert(slot.sizes_by_name@[slot.named_size()->0]);
    }
    if p < plan.steps@.len() {
        assert(rule(p) == Ok::<_, FaultView>(plan.steps@[p]));
    } else {
        assert(plan.fault is Some);
        assert(rule(p) == Err::<BindStep, FaultView>(plan.fault->0@));
    }
}

/// Values by name are refused exactly where a key names no placeholder, with the error that names
/// the first such key.
pub proof fn law_unknown_key_is_refused(
    r: Result<BindPlan, Fault>,
    keys: ParameterKeys,
    slots: Seq<BindSlot>,
    sizes: InputSizes,
    previous: int,
    record: bool,
)
    requires
        named_outcome(r, Some(&keys), slots, sizes, previous, record),
    ensures
        r matches Err(f) ==> exists|k: int|
            0 <= k < keys.keys@.len() && f@ == unknown_key_fault((#[trigger] keys.keys@[k])@) && (
            forall|p: int|
                0 <= p < keys.matched@.len() ==> !(#[trigger] keys.matched@[p])@[k]),
        r is Ok ==> forall|k: int|
            0 <= k < keys.keys@.len() ==> #[trigger] names_a_placeholder(keys, k),
{
    law_unknown_key_is_the_first(keys, 0, 0);
    if r is Err {
        let k = keys.first_unknown(0)->0;
        assert(r->Err_0@ == unknown_key_fault(keys.keys@[k]@));
    } else {
        assert forall|k: int| 0 <= k < keys.keys@.len() implies #[trigger] names_a_placeholder(
            keys,
            k,
        ) by {
            law_unknown_key_is_the_first(keys, 0, k);
        }
    }
}

/// The input placeholders among the first `n`.
pub open spec fn inputs_of(slots: Seq<BindSlot>, n: int) -> Seq<BindSlot> {
    slots.take(n).filter(|s: BindSlot| !s.returning && !s.plsql_output)
}

proof fn lemma_inputs_of(slots: Seq<BindSlot>, n: int)
    requires
        0 <= n <= slots.len(),
    ensures
        inputs_before(slots, n) == inputs_of(slots, n).len(),
    decreases n,
{
    let input = |s: BindSlot| !s.returning && !s.plsql_output;
    reveal(Seq::filter);
    if n > 0 {
        lemma_inputs_of(slots, n - 1);
        assert(slots.take(n).drop_last() =~= slots.take(n - 1));
        assert(slots.take(n).last() == slots[n - 1]);
        assert(slots.take(n).filter(input) == if input(slots[n - 1]) {
            slots.take(n - 1).filter(input).push(slots[n - 1])
        } else {
            slots.take(n - 1).filter(input)
        });
    } else {
        assert(slots.take(0).len() == 0);
    }
}

/// Values by position are taken in order: with one for each placeholder, each takes the value at its
/// own place; with one for each input placeholder, an input takes the value at its place among the
/// inputs. Inputs are bound as they are; outputs are wrapped by what they are for.
pub proof fn law_positional_value_is_bound(
    r: Result<BindPlan, Fault>,
    payload: Payload,
    slots: Seq<BindSlot>,
    sizes: InputSizes,
    record: bool,
    p: int,
)
    requires
        positional_outcome(r, payload, slots, sizes, record),
        r is Ok,
        slots.len() <= usize::MAX,
        0 <= p < r->Ok_0.steps@.len(),
        slots[p].sizes_by_position@.len() <= usize::MAX,
    ensures
        ({
            let step = r->Ok_0.steps@[p];
            let slot = slots[p];
            let is_input = !slot.returning && !slot.plsql_output;
            &&& payload.items == slots.len() ==> parameter_of(step.source) == Some(p)
            &&& payload.items != slots.len() && is_input ==> parameter_of(step.source) == Some(
                inputs_of(slots, p).len() as int,
            )
            &&& payload.items != slots.len() && !is_input ==> (step.source matches
                Source::InputSize(s) && slot.sizes_by_position@[s as int])
            &&& is_input ==> step.wrap == Wrap::Keep && !(step.source is Convert)
            &&& slot.returning ==> step.wrap == Wrap::Returning
            &&& !slot.returning && slot.plsql_output ==> step.wrap == Wrap::PlsqlOutput
            &&& step.source matches Source::ThroughVar { size, record: recorded, .. } ==> {
                slot.sizes_by_position@[size as int] && sizes.is_var@[size as int] && recorded
                    == record && is_input
            }
            &&& is_input && (forall|s: int|
                0 <= s < slot.sizes_by_position@.len() ==> !#[trigger] slot.sizes_by_position@[s])
                ==> step.source is ConvertForExecute
        }),
{
    let plan = r->Ok_0;
    let rule = positional_rule(slots, sizes, payload.items as int, record);
    assert(rule(p) == Ok::<_, FaultView>(plan.steps@[p]));
    lemma_inputs_of(slots, p);
    lemma_inputs_before_mono(slots, 0, p);
    law_first_set_is_the_first(slots[p].sizes_by_position@, 0);
}

/// Values by position have to be a sequence with one value for each placeholder or for each input
/// placeholder; the error counts both. A full sequence binds every placeholder.
pub proof fn law_positional_values_have_to_fit(
    r: Result<BindPlan, Fault>,
    payload: Payload,
    slots: Seq<BindSlot>,
    sizes: InputSizes,
    record: bool,
)
    requires
        positional_outcome(r, payload, slots, sizes, record),
        slots.len() <= usize::MAX,
    ensures
        ({
            let sequence = payload.kind == ContainerKind::Tuple || payload.kind
                == ContainerKind::List || payload.kind == ContainerKind::Iterable;
            let inputs = inputs_of(slots, slots.len() as int).len();
            &&& r is Ok <==> sequence && (payload.items == slots.len() || payload.items == inputs)
            &&& r matches Err(f) ==> f@ == if sequence {
                wrong_count_fault(inputs as int, payload.items as int)
            } else {
                FaultView::Named(ErrorName::WrongExecuteParametersType)
            }
            &&& sequence && payload.items == slots.len() ==> r->Ok_0.fault is None
                && r->Ok_0.steps@.len() == slots.len()
        }),
{
    lemma_inputs_of(slots, slots.len() as int);
    if r is Ok && payload.items == slots.len() && r->Ok_0.fault is Some {
        let rule = positional_rule(slots, sizes, payload.items as int, record);
        assert(rule(r->Ok_0.steps@.len() as int) is Ok);
    }
}

/// An output placeholder that got no value by position, and for which no variable was declared at
/// its position, ends the plan with the error that names it.
pub proof fn law_positional_output_needs_a_variable(
    r: Result<BindPlan, Fault>,
    payload: Payload,
    slots: Seq<BindSlot>,
    sizes: InputSizes,
    record: bool,
)
    requires
        positional_outcome(r, payload, slots, sizes, record),
        r matches Ok(plan) && plan.fault is Some,
    ensures
        ({
            let p = r->Ok_0.steps@.len() as int;
            &&& p < slots.len() && payload.items != slots.len()
            &&& slots[p].returning || slots[p].plsql_output
            &&& forall|s: int|
                0 <= s < slots[p].sizes_by_position@.len()
                    ==> !#[trigger] slots[p].sizes_by_position@[s]
            &&& r->Ok_0.fault->0@ == missing_value_fault(slots[p].name@)
        }),
{
    let p = r->Ok_0.steps@.len() as int;
    let rule = positional_rule(slots, sizes, payload.items as int, record);
    assert(rule(p) == Err::<BindStep, FaultView>(r->Ok_0.fault->0@));
    law_first_set_is_the_first(slots[p].sizes_by_position@, 0);
}

/// Parameters that are not there, or hold nothing.
pub open spec fn nothing_given(p: Option<Payload>) -> bool {
    p is None || p->0.is_none || p->0.len == 0
}

/// Values go in one way only: parameters and keyword parameters together are refused.
pub proof fn law_values_come_one_way(request: BindRequest, r: Result<BindPlan, Fault>)
    requires
        request.values_outcome(r),
        !nothing_given(request.parameters),
        !nothing_given(request.keywords),
    ensures
        r matches Err(f) && f@ == FaultView::Named(ErrorName::ArgsAndKeywordArgs),
{
}

/// Keyword parameters, and parameters that are a dictionary, are bound by name: a placeholder that
/// one key alone means is bound to the value under that key.
pub proof fn law_values_by_name_reach_their_placeholder(
    request: BindRequest,
    r: Result<BindPlan, Fault>,
    p: int,
    k: int,
)
    requires
        request.values_outcome(r),
        nothing_given(request.parameters) && !nothing_given(request.keywords) || nothing_given(
            request.keywords,
        ) && !nothing_given(request.parameters) && request.parameters->0.kind
            == ContainerKind::Dict,
        request.keys.keys@.len() <= usize::MAX,
        0 <= p < request.slots@.len(),
        request.slots@[p].sizes_by_name@.len() <= usize::MAX,
        0 <= k < request.keys.keys@.len(),
        key_means(request.keys.keys@[k]@, request.slots@[p].name@, request.slots@[p].quoted),
        forall|i: int|
            0 <= i < request.keys.keys@.len() && i != k ==> !key_means(
                (#[trigger] request.keys.keys@[i])@,
                request.slots@[p].name@,
                request.slots@[p].quoted,
            ),
    ensures
        r matches Ok(plan) ==> {
            &&& plan.fault is Some ==> plan.steps@.len() != p
            &&& p < plan.steps@.len() ==> parameter_of(plan.steps@[p].source) == Some(k)
        },
        r matches Err(f) ==> exists|j: int|
            0 <= j < request.keys.keys@.len() && f@ == unknown_key_fault(
                (#[trigger] request.keys.keys@[j])@,
            ),
{
    if r is Ok {
        law_named_value_is_bound(
            r,
            request.keys,
            request.slots@,
            request.sizes,
            request.previous as int,
            false,
            p,
            k,
        );
    } else {
        law_unknown_key_is_refused(
            r,
            request.keys,
            request.slots@,
            request.sizes,
            request.previous as int,
            false,
        );
    }
}

/// Parameters that are a sequence with a value for each placeholder are bound by position: all of
/// them, each to the placeholder at its place.
pub proof fn law_values_by_position_reach_their_placeholder(
    request: BindRequest,
    r: Result<BindPlan, Fault>,
    p: int,
)
    requires
        request.values_outcome(r),
        nothing_given(request.keywords),
        !nothing_given(request.parameters),
        request.parameters->0.kind == ContainerKind::Tuple || request.parameters->0.kind
            == ContainerKind::List || request.parameters->0.kind == ContainerKind::Iterable,
        request.parameters->0.items == request.slots@.len(),
        0 <= p < request.slots@.len() <= usize::MAX,
        request.slots@[p].sizes_by_position@.len() <= usize::MAX,
    ensures
        r matches Ok(plan) && plan.fault is None && plan.steps@.len() == request.slots@.len()
            && parameter_of(plan.steps@[p].source) == Some(p),
{
    law_positional_values_have_to_fit(
        r,
        request.parameters->0,
        request.slots@,
        request.sizes,
        false,
    );
    law_positional_value_is_bound(
        r,
        request.parameters->0,
        request.slots@,
        request.sizes,
        false,
        p,
    );
}

/// Without values and without declared sizes nothing is bound; a value that is no sequence and no
/// dictionary is refused.
pub proof fn law_no_values_bind_nothing(request: BindRequest, r: Result<BindPlan, Fault>)
    requires
        request.values_outcome(r),
        nothing_given(request.keywords),
    ensures
        nothing_given(request.parameters) && request.sizes.is_var@.len() == 0
            && !request.has_positional_input_sizes ==> (r matches Ok(plan) && plan.steps@.len() == 0
            && plan.fault is None),
        !nothing_given(request.parameters) && (request.parameters->0.kind == ContainerKind::Text
            || request.parameters->0.kind == ContainerKind::Other) ==> (r matches Err(f) && f@
            == FaultView::Named(ErrorName::WrongExecuteParametersType)),
{
}

/// A batch that is given by a count binds at each placeholder the variable that was declared for
/// it: by its position, and else by its name. Without one the plan ends there.
pub proof fn law_counted_batch_binds_declared_variables(
    plan: BindPlan,
    slots: Seq<BindSlot>,
    p: int,
)
    requires
        plan.follows(slots.len() as int, input_size_rule(slots)),
        0 <= p < slots.len(),
        slots[p].sizes_by_position@.len() <= usize::MAX,
        slots[p].sizes_by_name@.len() <= usize::MAX,
    ensures
        p < plan.steps@.len() ==> (plan.steps@[p].source matches Source::InputSize(s) && {
            ||| slots[p].sizes_by_position@[s as int]
            ||| slots[p].sizes_by_name@[s as int] && forall|t: int|
                0 <= t < slots[p].sizes_by_position@.len()
                    ==> !#[trigger] slots[p].sizes_by_position@[t]
        }),
        p == plan.steps@.len() ==> {
            &&& plan.fault matches Some(f) && f@ == missing_value_fault(slots[p].name@)
            &&& forall|t: int|
                0 <= t < slots[p].sizes_by_position@.len()
                    ==> !#[trigger] slots[p].sizes_by_position@[t]
            &&& forall|t: int|
                0 <= t < slots[p].sizes_by_name@.len() ==> !#[trigger] slots[p].sizes_by_name@[t]
        },
{
    law_first_set_is_the_first(slots[p].sizes_by_position@, 0);
    law_first_set_is_the_first(slots[p].sizes_by_name@, 0);
    let rule = input_size_rule(slots);
    if p < plan.steps@.len() {
        assert(rule(p) == Ok::<_, FaultView>(plan.steps@[p]));
    } else if p == plan.steps@.len() {
        assert(rule(p) == Err::<BindStep, FaultView>(plan.fault->0@));
    }
}

/// What an execution binds follows from what was given alone: values that came both ways conflict,
/// keywords and dictionaries are values by name, other parameters values by position. Without values
/// it is what was declared, if anything was.
pub proof fn law_given_values_decide_the_mode(request: BindRequest)
    ensures
        ({
            let p = has_payload(request.parameters);
            let k = has_payload(request.keywords);
            let sized = request.sizes.is_var@.len() > 0;
            &&& request.mode() == BindMode::Conflict <==> p && k
            &&& request.mode() == BindMode::ByName <==> !p && k || p && !k
                && request.parameters->0.kind == ContainerKind::Dict
            &&& request.mode() == BindMode::ByPosition <==> p && !k && request.parameters->0.kind
                != ContainerKind::Dict
            &&& request.mode() == BindMode::DeclaredByPosition <==> !p && !k && request.parameters
                is Some && request.has_positional_input_sizes
            &&& request.mode() == BindMode::Declared <==> !p && !k && sized && !(request.parameters
                is Some && request.has_positional_input_sizes)
            &&& request.mode() == BindMode::Nothing <==> !p && !k && !sized && !(request.parameters
                is Some && request.has_positional_input_sizes)
        }),
{
}

/// Parameters of no length beside sizes declared by position are still read: what they give is
/// counted, and where they give nothing the first placeholder is the one that lacks a value.
pub proof fn law_empty_parameters_beside_declared_sizes(
    request: BindRequest,
    r: Result<BindPlan, Fault>,
)
    requires
        request.values_outcome(r),
        nothing_given(request.keywords),
        request.parameters is Some,
        nothing_given(request.parameters),
        request.has_positional_input_sizes,
        request.slots@.len() <= usize::MAX,
    ensures
        ({
            let payload = request.parameters->0;
            let sequence = payload.kind == ContainerKind::Tuple || payload.kind
                == ContainerKind::List || payload.kind == ContainerKind::Iterable;
            let inputs = inputs_of(request.slots@, request.slots@.len() as int).len();
            &&& !sequence ==> (r matches Err(f) && f@ == FaultView::Named(
                ErrorName::WrongExecuteParametersType,
            ))
            &&& sequence && payload.items == 0 ==> {
                &&& r is Ok <==> request.slots@.len() == 0
                &&& r matches Ok(plan) ==> plan.steps@.len() == 0 && plan.fault is None
                &&& r matches Err(f) ==> f@ == missing_value_fault(request.slots@[0].name@)
            }
            &&& sequence && payload.items > 0 ==> (r is Ok <==> payload.items
                == request.slots@.len() || payload.items == inputs)
        }),
{
    let payload = request.parameters->0;
    if positional_kind(payload.kind) && payload.items > 0 {
        law_positional_values_have_to_fit(
            r,
            payload,
            request.slots@,
            request.sizes,
            false,
        );
    }
}

} // verus!
