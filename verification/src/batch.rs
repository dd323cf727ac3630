//! The rows of a batch, and the variables that an execution exposes.
use vstd::prelude::*;

use crate::binds::{
    count_inputs, extract_input_size_bind_values, extract_named_bind_values,
    extract_positional_bind_values_with_input_sizes, positional_bind_items, BindMode, BindPlan,
    BindRequest, ContainerKind, Payload,
};
#[allow(unused_imports)]
use crate::binds::{
    Source, count_is_right, has_payload, input_size_rule, inputs_before, inputs_of, key_texts,
    law_named_plan_is_complete, law_named_value_is_bound, law_positional_value_is_bound,
    law_positional_values_have_to_fit, lemma_inputs_before_mono, named_outcome,
    names_a_placeholder, parameter_of, positional_kind, positional_outcome, value_index,
};
use crate::errors::{ErrorName, Fault};
#[allow(unused_imports)]
use crate::errors::FaultView;
use crate::slots::{get_named_bind_value, BindSlot, InputSizes, ParameterKeys};
#[allow(unused_imports)]
use crate::slots::{
    key_means, law_first_set_is_the_first, law_lookup_finds_the_key, lookup_key, slots_fit,
};

verus! {

/// How the values of a row are given.
#[derive(Clone, Copy, PartialEq, Eq, Structural, Debug)]
pub enum RowStyle {
    Named,
    Positional,
}

/// One row of a batch. `keys` are those of a row that is a mapping.
pub struct RowPayload {
    pub payload: Payload,
    pub keys: ParameterKeys,
}

/// What was passed as the rows of a batch.
pub struct RowSet {
    pub is_none: bool,
    /// The number of iterations, where a number was passed.
    pub count: Option<usize>,
    pub kind: ContainerKind,
    pub rows: Vec<RowPayload>,
}

/// The plans of the rows in order, and the error to raise after them if there is one. A plan with
/// an error of its own is the last.
pub struct BatchPlan {
    /// The values that the declared variables saw during the last batch are forgotten first.
    pub clears_declared: bool,
    pub rows: Vec<BindPlan>,
    pub fault: Option<Fault>,
}

pub open spec fn style_of(kind: ContainerKind) -> Option<RowStyle> {
    match kind {
        ContainerKind::Dict => Some(RowStyle::Named),
        ContainerKind::Tuple | ContainerKind::List | ContainerKind::Iterable => Some(
            RowStyle::Positional,
        ),
        ContainerKind::Text | ContainerKind::Other => None,
    }
}

pub fn row_style(kind: ContainerKind) -> (r: Option<RowStyle>)
    ensures
        r == style_of(kind),
{
    match kind {
        ContainerKind::Dict => Some(RowStyle::Named),
        ContainerKind::Tuple | ContainerKind::List | ContainerKind::Iterable => Some(
            RowStyle::Positional,
        ),
        ContainerKind::Text | ContainerKind::Other => None,
    }
}

/// The plan is that of the row.
pub open spec fn row_planned(
    plan: BindPlan,
    row: RowPayload,
    slots: Seq<BindSlot>,
    sizes: InputSizes,
) -> bool {
    row_outcome(Ok(plan), row, slots, sizes)
}

/// What planning one row gives.
pub open spec fn row_outcome(
    r: Result<BindPlan, Fault>,
    row: RowPayload,
    slots: Seq<BindSlot>,
    sizes: InputSizes,
) -> bool {
    match style_of(row.payload.kind) {
        Some(RowStyle::Named) => named_outcome(r, Some(&row.keys), slots, sizes, 0, true),
        Some(RowStyle::Positional) => positional_outcome(r, row.payload, slots, sizes, true),
        None => false,
    }
}

fn plan_row(row: &RowPayload, slots: &Vec<BindSlot>, sizes: &InputSizes, style: RowStyle) -> (r:
    Result<BindPlan, Fault>)
    requires
        slots_fit(slots@, *sizes),
        row.keys.fits(slots@.len() as int),
        style_of(row.payload.kind) == Some(style),
    ensures
        row_outcome(r, *row, slots@, *sizes),
{
    match style {
        RowStyle::Named => extract_named_bind_values(Some(&row.keys), slots, sizes, 0, true),
        RowStyle::Positional => extract_positional_bind_values_with_input_sizes(
            &row.payload,
            slots,
            sizes,
        ),
    }
}

impl RowSet {
    pub open spec fn wf(self, slots: int) -> bool {
        forall|i: int| 0 <= i < self.rows@.len() ==> (#[trigger] self.rows@[i]).keys.fits(slots)
    }
}

impl BatchPlan {
    /// Nothing is planned, and the given error raised.
    pub open spec fn fails_with(self, f: FaultView) -> bool {
        &&& self.rows@.len() == 0
        &&& self.fault matches Some(e)
        &&& e@ == f
    }

    /// The plan is that of the given rows, up to the first error.
    pub open spec fn follows(
        self,
        rows: Seq<RowPayload>,
        slots: Seq<BindSlot>,
        sizes: InputSizes,
    ) -> bool {
        let n = self.rows@.len() as int;
        &&& n <= rows.len()
        &&& forall|i: int|
            0 <= i < n ==> style_of((#[trigger] rows[i]).payload.kind) == style_of(
                rows[0].payload.kind,
            )
        &&& forall|i: int|
            0 <= i < n ==> row_planned(#[trigger] self.rows@[i], rows[i], slots, sizes)
        &&& forall|i: int| 0 <= i < n - 1 ==> (#[trigger] self.rows@[i]).fault is None
        &&& match self.fault {
            None => n == rows.len() || (n > 0 && self.rows@[n - 1].fault is Some),
            Some(f) => {
                &&& n < rows.len()
                &&& n > 0 ==> self.rows@[n - 1].fault is None
                &&& if style_of(rows[n].payload.kind) is None {
                    f@ == FaultView::Named(ErrorName::WrongExecutemanyParametersType)
                } else if style_of(rows[n].payload.kind) != style_of(rows[0].payload.kind) {
                    f@ == FaultView::Named(ErrorName::MixedPositionalAndNamedBinds)
                } else {
                    row_outcome(Err(f), rows[n], slots, sizes)
                }
            },
        }
    }

    /// The plan repeats one plan, or ends with it where it has an error.
    pub open spec fn repeats(self, count: int, slots: Seq<BindSlot>) -> bool {
        &&& self.fault is None
        &&& forall|i: int|
            0 <= i < self.rows@.len() ==> (#[trigger] self.rows@[i]).follows(
                slots.len() as int,
                input_size_rule(slots),
            )
        &&& self.rows@.len() <= count
        &&& self.rows@.len() < count ==> self.rows@.len() == 1 && self.rows@[0].fault is Some
        &&& self.rows@.len() > 1 ==> self.rows@[0].fault is None
    }
}

/// How the rows of a batch are bound.
pub open spec fn batch_outcome(
    r: BatchPlan,
    set: RowSet,
    slots: Seq<BindSlot>,
    sizes: InputSizes,
) -> bool {
    if set.is_none {
        r.rows@.len() == 0 && r.fault is None && !r.clears_declared
    } else if set.count is Some && slots.len() == 0 {
        &&& r.fault is None && !r.clears_declared
        &&& r.rows@.len() == set.count->0
        &&& forall|i: int| 0 <= i < r.rows@.len() ==> (#[trigger] r.rows@[i]).is_empty()
    } else if set.count is Some && sizes.is_var@.len() > 0 {
        r.repeats(set.count->0 as int, slots) && !r.clears_declared
    } else if set.kind == ContainerKind::Text {
        r.fails_with(FaultView::Named(ErrorName::WrongExecutemanyParametersType))
            && !r.clears_declared
    } else if set.kind != ContainerKind::List && set.kind != ContainerKind::Tuple {
        r.fails_with(FaultView::Named(ErrorName::WrongExecutemanyParametersType))
            && r.clears_declared
    } else {
        r.follows(set.rows@, slots, sizes) && r.clears_declared
    }
}

fn plan_rows(rows: &Vec<RowPayload>, slots: &Vec<BindSlot>, sizes: &InputSizes) -> (r: BatchPlan)
    requires
        slots_fit(slots@, *sizes),
        forall|i: int|
            0 <= i < rows@.len() ==> (#[trigger] rows@[i]).keys.fits(slots@.len() as int),
    ensures
        r.follows(rows@, slots@, *sizes),
        r.clears_declared,
{
    let mut plans: Vec<BindPlan> = Vec::new();
    let mut previous: Option<RowStyle> = None;
    let mut i: usize = 0;
    while i < rows.len()
        invariant
            slots_fit(slots@, *sizes),
            forall|j: int|
                0 <= j < rows@.len() ==> (#[trigger] rows@[j]).keys.fits(slots@.len() as int),
            i <= rows@.len(),
            plans@.len() == i,
            i > 0 ==> previous == style_of(rows@[0].payload.kind) && previous is Some,
            i == 0 ==> previous is None,
            forall|j: int|
                0 <= j < i ==> style_of((#[trigger] rows@[j]).payload.kind) == style_of(
                    rows@[0].payload.kind,
                ),
            forall|j: int|
                0 <= j < i ==> row_planned(#[trigger] plans@[j], rows@[j], slots@, *sizes),
            forall|j: int| 0 <= j < i ==> (#[trigger] plans@[j]).fault is None,
        decreases rows@.len() - i,
    {
        let row = &rows[i];
        proof {
            assert(rows@[i as int].keys.fits(slots@.len() as int));
        }
        let style = match row_style(row.payload.kind) {
            Some(s) => s,
            None => {
                return BatchPlan {
                    clears_declared: true,
                    rows: plans,
                    fault: Some(Fault::Named(ErrorName::WrongExecutemanyParametersType)),
                };
            },
        };
        if let Some(p) = previous {
            if p != style {
                return BatchPlan {
                    clears_declared: true,
                    rows: plans,
                    fault: Some(Fault::Named(ErrorName::MixedPositionalAndNamedBinds)),
                };
            }
        }
        previous = Some(style);
        match plan_row(row, slots, sizes, style) {
            Err(f) => {
                return BatchPlan { clears_declared: true, rows: plans, fault: Some(f) };
            },
            Ok(plan) => {
                let failed = plan.fault.is_some();
                proof {
                    assert(row_planned(plan, rows@[i as int], slots@, *sizes));
                }
                plans.push(plan);
                if failed {
                    return BatchPlan { clears_declared: true, rows: plans, fault: None };
                }
            },
        }
        i = i + 1;
    }
    BatchPlan { clears_declared: true, rows: plans, fault: None }
}

/// Plans the rows of a batch.
pub fn extract_bind_rows(set: &RowSet, slots: &Vec<BindSlot>, sizes: &InputSizes) -> (r: BatchPlan)
    requires
        slots_fit(slots@, *sizes),
        set.wf(slots@.len() as int),
    ensures
        batch_outcome(r, *set, slots@, *sizes),
{
    if set.is_none {
        return BatchPlan { clears_declared: false, rows: Vec::new(), fault: None };
    }
    if let Some(count) = set.count {
        if slots.len() == 0 {
            let mut rows: Vec<BindPlan> = Vec::new();
            let mut i: usize = 0;
            while i < count
                invariant
                    i <= count,
                    rows@.len() == i,
                    forall|j: int| 0 <= j < i ==> (#[trigger] rows@[j]).is_empty(),
                decreases count - i,
            {
                rows.push(BindPlan { steps: Vec::new(), fault: None });
                i = i + 1;
            }
            return BatchPlan { clears_declared: false, rows, fault: None };
        }
        if sizes.is_var.len() > 0 {
            let mut rows: Vec<BindPlan> = Vec::new();
            let mut i: usize = 0;
            while i < count
                invariant
                    i <= count,
                    rows@.len() == i,
                    forall|j: int|
                        0 <= j < i ==> (#[trigger] rows@[j]).follows(
                            slots@.len() as int,
                            input_size_rule(slots@),
                        ),
                    forall|j: int| 0 <= j < i ==> (#[trigger] rows@[j]).fault is None,
                    set.count == Some(count),
                    slots@.len() > 0,
                    sizes.is_var@.len() > 0,
                    !set.is_none,
                decreases count - i,
            {
                let plan = extract_input_size_bind_values(slots);
                let failed = plan.fault.is_some();
                proof {
                    if i > 0 {
                        crate::binds::law_plan_is_determined(
                            rows@[0],
                            plan,
                            slots@.len() as int,
                            input_size_rule(slots@),
                        );
                    }
                }
                rows.push(plan);
                if failed {
                    return BatchPlan { clears_declared: false, rows, fault: None };
                }
                i = i + 1;
            }
            return BatchPlan { clears_declared: false, rows, fault: None };
        }
    }
    match set.kind {
        ContainerKind::Text => BatchPlan {
            clears_declared: false,
            rows: Vec::new(),
            fault: Some(Fault::Named(ErrorName::WrongExecutemanyParametersType)),
        },
        ContainerKind::List | ContainerKind::Tuple => plan_rows(&set.rows, slots, sizes),
        _ => BatchPlan {
            clears_declared: true,
            rows: Vec::new(),
            fault: Some(Fault::Named(ErrorName::WrongExecutemanyParametersType)),
        },
    }
}

/// Where a variable that the execution exposes comes from.
#[derive(Clone, Copy, PartialEq, Eq, Structural, Debug)]
pub enum VarStep {
    /// A variable for the parameter.
    FromParameter(usize),
    /// The variable declared as input size, set to a parameter first where one is named.
    FromInputSize { size: usize, set_to: Option<usize> },
    /// The variable that the previous execution bound.
    Previous(usize),
    /// A new variable without a value.
    Fresh,
}

/// The steps that `step` gives for the positions below `n`, in order.
pub open spec fn var_steps(n: int, step: spec_fn(int) -> Option<VarStep>) -> Seq<VarStep>
    decreases n,
{
    if n <= 0 {
        Seq::empty()
    } else {
        match step(n - 1) {
            Some(s) => var_steps(n - 1, step).push(s),
            None => var_steps(n - 1, step),
        }
    }
}

pub open spec fn declared_for(sizes: InputSizes, size: int, value: int) -> VarStep {
    VarStep::FromInputSize {
        size: size as usize,
        set_to: if sizes.is_var@[size] {
            Some(value as usize)
        } else {
            None
        },
    }
}

pub open spec fn positional_var_step(
    slots: Seq<BindSlot>,
    sizes: InputSizes,
    provided: int,
    p: int,
) -> Option<VarStep> {
    let slot = slots[p];
    let value = value_index(slots, provided, p);
    match slot.positional_size() {
        Some(s) => if slot.is_input() {
            Some(declared_for(sizes, s, value))
        } else if provided == slots.len() {
            Some(VarStep::FromParameter(p as usize))
        } else {
            Some(VarStep::FromInputSize { size: s as usize, set_to: None })
        },
        None => if slot.is_input() || provided == slots.len() {
            Some(VarStep::FromParameter(value as usize))
        } else {
            None
        },
    }
}

pub open spec fn positional_var_rule(
    slots: Seq<BindSlot>,
    sizes: InputSizes,
    provided: int,
) -> spec_fn(int) -> Option<VarStep> {
    |p: int| positional_var_step(slots, sizes, provided, p)
}

/// What exposing the variables of values given by position gives.
pub open spec fn positional_vars_outcome(
    r: Result<Vec<VarStep>, Fault>,
    payload: Payload,
    slots: Seq<BindSlot>,
    sizes: InputSizes,
) -> bool {
    if !positional_kind(payload.kind) {
        r matches Err(f) && f@ == FaultView::Named(ErrorName::WrongExecuteParametersType)
    } else {
        r matches Ok(steps) && steps@ == if count_is_right(slots, payload.items as int) {
            var_steps(
                slots.len() as int,
                positional_var_rule(slots, sizes, payload.items as int),
            )
        } else {
            Seq::empty()
        }
    }
}

/// The variables that an execution with values given by position exposes.
pub fn extract_positional_bind_var_objects_for_execute(
    payload: &Payload,
    slots: &Vec<BindSlot>,
    sizes: &InputSizes,
) -> (r: Result<Vec<VarStep>, Fault>)
    requires
        slots_fit(slots@, *sizes),
    ensures
        positional_vars_outcome(r, *payload, slots@, *sizes),
{
    let provided = match positional_bind_items(payload) {
        Ok(n) => n,
        Err(f) => {
            return Err(f);
        },
    };
    let required = count_inputs(slots);
    let mut steps: Vec<VarStep> = Vec::new();
    if provided != slots.len() && provided != required {
        return Ok(steps);
    }
    let all = provided == slots.len();
    let ghost rule = positional_var_rule(slots@, *sizes, provided as int);
    let mut p: usize = 0;
    let mut next_input: usize = 0;
    while p < slots.len()
        invariant
            slots_fit(slots@, *sizes),
            p <= slots@.len(),
            all == (provided == slots@.len()),
            rule == positional_var_rule(slots@, *sizes, provided as int),
            next_input == inputs_before(slots@, p as int),
            next_input <= p,
            steps@ == var_steps(p as int, rule),
        decreases slots@.len() - p,
    {
        let slot = &slots[p];
        let value: usize = if all {
            p
        } else {
            next_input
        };
        proof {
            assert(slots@[p as int].fits(*sizes));
            lemma_inputs_before_mono(slots@, p as int, p + 1);
            assert(rule(p as int) == positional_var_step(
                slots@,
                *sizes,
                provided as int,
                p as int,
            ));
        }
        let size = slot.positional_input_size_value();
        if !slot.input() {
            if all {
                steps.push(VarStep::FromParameter(p));
            } else if let Some(s) = size {
                steps.push(VarStep::FromInputSize { size: s, set_to: None });
            }
        } else {
            match size {
                Some(s) => {
                    let set_to = if sizes.is_var[s] {
                        Some(value)
                    } else {
                        None
                    };
                    steps.push(VarStep::FromInputSize { size: s, set_to });
                },
                None => {
                    steps.push(VarStep::FromParameter(value));
                },
            }
            next_input = next_input + 1;
        }
        p = p + 1;
    }
    Ok(steps)
}

pub open spec fn named_var_step(
    slot: BindSlot,
    keys: Option<Seq<String>>,
    sizes: InputSizes,
    previous: int,
) -> Option<VarStep> {
    let given = match keys {
        Some(k) => lookup_key(k, slot),
        None => None,
    };
    if given is Some {
        match slot.named_size() {
            Some(s) => Some(declared_for(sizes, s, given->0)),
            None => Some(VarStep::FromParameter(given->0 as usize)),
        }
    } else if slot.named_size() is Some {
        Some(VarStep::FromInputSize { size: slot.named_size()->0 as usize, set_to: None })
    } else if !slot.is_input() && slot.previous_var(previous) is Some {
        Some(VarStep::Previous(slot.previous_var(previous)->0 as usize))
    } else {
        None
    }
}

pub open spec fn named_var_rule(
    slots: Seq<BindSlot>,
    keys: Option<&ParameterKeys>,
    sizes: InputSizes,
    previous: int,
) -> spec_fn(int) -> Option<VarStep> {
    |p: int| named_var_step(slots[p], key_texts(keys), sizes, previous)
}

/// The variables that an execution with values given by name exposes.
pub fn extract_named_bind_var_objects(
    keys: Option<&ParameterKeys>,
    slots: &Vec<BindSlot>,
    sizes: &InputSizes,
    previous: usize,
) -> (r: Vec<VarStep>)
    requires
        slots_fit(slots@, *sizes),
    ensures
        r@ == var_steps(
            slots@.len() as int,
            named_var_rule(slots@, keys, *sizes, previous as int),
        ),
{
    let ghost rule = named_var_rule(slots@, keys, *sizes, previous as int);
    let mut steps: Vec<VarStep> = Vec::new();
    let mut p: usize = 0;
    while p < slots.len()
        invariant
            slots_fit(slots@, *sizes),
            rule == named_var_rule(slots@, keys, *sizes, previous as int),
            p <= slots@.len(),
            steps@ == var_steps(p as int, rule),
        decreases slots@.len() - p,
    {
        let slot = &slots[p];
        proof {
            assert(slots@[p as int].fits(*sizes));
            assert(rule(p as int) == named_var_step(
                slots@[p as int],
                key_texts(keys),
                *sizes,
                previous as int,
            ));
        }
        let given = match keys {
            Some(k) => get_named_bind_value(&k.keys, slot),
            None => None,
        };
        let size = slot.named_input_size_value();
        match given {
            Some(value) => match size {
                Some(s) => {
                    let set_to = if sizes.is_var[s] {
                        Some(value)
                    } else {
                        None
                    };
                    steps.push(VarStep::FromInputSize { size: s, set_to });
                },
                None => {
                    steps.push(VarStep::FromParameter(value));
                },
            },
            None => match size {
                Some(s) => {
                    steps.push(VarStep::FromInputSize { size: s, set_to: None });
                },
                None => if !slot.input() {
                    if let Some(v) = slot.previous_bind_var_by_name(previous) {
                        steps.push(VarStep::Previous(v));
                    }
                },
            },
        }
        p = p + 1;
    }
    steps
}

impl BindRequest {
    /// What exposing the variables of the request gives.
    pub open spec fn vars_outcome(self, r: Result<Vec<VarStep>, Fault>) -> bool {
        let sized = self.sizes.is_var@.len() > 0;
        let by_name = |keys: Option<&ParameterKeys>|
            var_steps(
                self.slots@.len() as int,
                named_var_rule(self.slots@, keys, self.sizes, self.previous as int),
            );
        match self.mode() {
            BindMode::Conflict | BindMode::Nothing => r matches Ok(steps) && steps@.len() == 0,
            BindMode::ByName => r matches Ok(steps) && steps@ == by_name(Some(&self.keys)),
            BindMode::Declared => r matches Ok(steps) && steps@ == by_name(None),
            BindMode::DeclaredByPosition => r matches Ok(steps) && steps@ == if sized {
                by_name(None)
            } else {
                Seq::empty()
            },
            BindMode::ByPosition => positional_vars_outcome(
                r,
                self.parameters->0,
                self.slots@,
                self.sizes,
            ),
        }
    }
}

/// The variables that one execution exposes.
pub fn extract_bind_var_objects(request: &BindRequest) -> (r: Result<Vec<VarStep>, Fault>)
    requires
        request.wf(),
    ensures
        request.vars_outcome(r),
{
    match request.bind_mode() {
        BindMode::Conflict | BindMode::Nothing => Ok(Vec::new()),
        BindMode::ByName => Ok(
            extract_named_bind_var_objects(
                Some(&request.keys),
                &request.slots,
                &request.sizes,
                request.previous,
            ),
        ),
        BindMode::Declared => Ok(
            extract_named_bind_var_objects(
                None,
                &request.slots,
                &request.sizes,
                request.previous,
            ),
        ),
        BindMode::DeclaredByPosition => if request.sizes.is_var.len() > 0 {
            Ok(
                extract_named_bind_var_objects(
                    None,
                    &request.slots,
                    &request.sizes,
                    request.previous,
                ),
            )
        } else {
            Ok(Vec::new())
        },
        BindMode::ByPosition => match request.parameters {
            Some(p) => extract_positional_bind_var_objects_for_execute(
                &p,
                &request.slots,
                &request.sizes,
            ),
            None => Ok(Vec::new()),
        },
    }
}

pub open spec fn declared_var_step(slot: BindSlot) -> Option<VarStep> {
    match slot.any_size() {
        Some(s) => Some(VarStep::FromInputSize { size: s as usize, set_to: None }),
        None => Some(VarStep::Fresh),
    }
}

pub open spec fn declared_var_rule(slots: Seq<BindSlot>) -> spec_fn(int) -> Option<VarStep> {
    |p: int| declared_var_step(slots[p])
}

/// The row of a batch that decides its variables.
pub open spec fn first_row(set: RowSet) -> Option<RowPayload> {
    if !set.is_none && set.count is None && (set.kind == ContainerKind::List || set.kind
        == ContainerKind::Tuple) && set.rows@.len() > 0 {
        Some(set.rows@[0])
    } else {
        None
    }
}

/// What exposing the variables of a batch gives: those of its first row, or else one per
/// placeholder, declared or new.
pub open spec fn batch_vars_outcome(
    r: Result<Vec<VarStep>, Fault>,
    set: RowSet,
    slots: Seq<BindSlot>,
    sizes: InputSizes,
) -> bool {
    let style = match first_row(set) {
        Some(row) => style_of(row.payload.kind),
        None => None,
    };
    match style {
        Some(RowStyle::Named) => r matches Ok(steps) && steps@ == var_steps(
            slots.len() as int,
            named_var_rule(slots, Some(&first_row(set)->0.keys), sizes, 0),
        ),
        Some(RowStyle::Positional) => positional_vars_outcome(
            r,
            first_row(set)->0.payload,
            slots,
            sizes,
        ),
        None => r matches Ok(steps) && steps@ == var_steps(
            slots.len() as int,
            declared_var_rule(slots),
        ),
    }
}

/// The variables that a batch exposes.
pub fn extract_executemany_bind_var_objects(
    set: &RowSet,
    slots: &Vec<BindSlot>,
    sizes: &InputSizes,
) -> (r: Result<Vec<VarStep>, Fault>)
    requires
        slots_fit(slots@, *sizes),
    ensures
        batch_vars_outcome(r, *set, slots@, *sizes),
{
    if !set.is_none && set.count.is_none() && (set.kind == ContainerKind::List || set.kind
        == ContainerKind::Tuple) && set.rows.len() > 0 {
        let row = &set.rows[0];
        match row_style(row.payload.kind) {
            Some(RowStyle::Named) => {
                return Ok(extract_named_bind_var_objects(Some(&row.keys), slots, sizes, 0));
            },
            Some(RowStyle::Positional) => {
                return extract_positional_bind_var_objects_for_execute(
                    &row.payload,
                    slots,
                    sizes,
                );
            },
            None => {},
        }
    }
    let ghost rule = declared_var_rule(slots@);
    let mut steps: Vec<VarStep> = Vec::new();
    let mut p: usize = 0;
    while p < slots.len()
        invariant
            rule == declared_var_rule(slots@),
            p <= slots@.len(),
            steps@ == var_steps(p as int, rule),
        decreases slots@.len() - p,
    {
        proof {
            assert(rule(p as int) == declared_var_step(slots@[p as int]));
        }
        match slots[p].input_size_value_for_bind() {
            Some(s) => {
                steps.push(VarStep::FromInputSize { size: s, set_to: None });
            },
            None => {
                steps.push(VarStep::Fresh);
            },
        }
        p = p + 1;
    }
    Ok(steps)
}

/// The rows of a batch were passed one by one.
pub open spec fn rows_are_given(set: RowSet) -> bool {
    &&& !set.is_none && set.count is None
    &&& set.kind == ContainerKind::List || set.kind == ContainerKind::Tuple
}

/// A row of a batch that is a dictionary is bound by its own keys: at each placeholder that one of
/// them means, the value under such a key is bound, and no missing value is raised for it.
pub proof fn law_dictionary_row_is_bound_by_its_keys(
    r: BatchPlan,
    set: RowSet,
    slots: Seq<BindSlot>,
    sizes: InputSizes,
    i: int,
    p: int,
    k: int,
)
    requires
        batch_outcome(r, set, slots, sizes),
        rows_are_given(set),
        0 <= i < r.rows@.len(),
        set.rows@[i].payload.kind == ContainerKind::Dict,
        set.rows@[i].keys.keys@.len() <= usize::MAX,
        0 <= p < slots.len(),
        slots[p].sizes_by_name@.len() <= usize::MAX,
        0 <= k < set.rows@[i].keys.keys@.len(),
        key_means(set.rows@[i].keys.keys@[k]@, slots[p].name@, slots[p].quoted),
    ensures
        r.rows@[i].fault is Some ==> r.rows@[i].steps@.len() != p,
        p < r.rows@[i].steps@.len() ==> {
            let keys = set.rows@[i].keys.keys@;
            let step = r.rows@[i].steps@[p];
            let j = parameter_of(step.source)->0;
            &&& parameter_of(step.source) is Some
            &&& 0 <= j < keys.len() && key_means(keys[j]@, slots[p].name@, slots[p].quoted)
            &&& keys[k]@ == slots[p].name@ ==> keys[j]@ == slots[p].name@
            &&& (forall|q: int|
                0 <= q < keys.len() && q != k ==> !key_means(
                    (#[trigger] keys[q])@,
                    slots[p].name@,
                    slots[p].quoted,
                )) ==> j == k
            &&& (forall|s: int|
                0 <= s < slots[p].sizes_by_name@.len() ==> !#[trigger] slots[p].sizes_by_name@[s])
                ==> step.source is ConvertForExecute
            &&& step.source matches Source::ThroughVar { record, .. } ==> (record
                <==> !slots[p].returning && !slots[p].plsql_output)
        },
{
    assert(row_planned(r.rows@[i], set.rows@[i], slots, sizes));
    law_named_value_is_bound(
        Ok(r.rows@[i]),
        set.rows@[i].keys,
        slots,
        sizes,
        0,
        true,
        p,
        k,
    );
}

/// A row of a batch that is a sequence with a value for each placeholder binds all of them, each to
/// the placeholder at its place; with a value for each input, each input takes the one at its place
/// among the inputs.
pub proof fn law_sequence_row_is_bound_in_order(
    r: BatchPlan,
    set: RowSet,
    slots: Seq<BindSlot>,
    sizes: InputSizes,
    i: int,
    p: int,
)
    requires
        batch_outcome(r, set, slots, sizes),
        rows_are_given(set),
        0 <= i < r.rows@.len(),
        set.rows@[i].payload.kind == ContainerKind::Tuple || set.rows@[i].payload.kind
            == ContainerKind::List || set.rows@[i].payload.kind == ContainerKind::Iterable,
        0 <= p < slots.len() <= usize::MAX,
        slots[p].sizes_by_position@.len() <= usize::MAX,
    ensures
        set.rows@[i].payload.items == slots.len() ==> {
            &&& r.rows@[i].fault is None && r.rows@[i].steps@.len() == slots.len()
            &&& parameter_of(r.rows@[i].steps@[p].source) == Some(p)
        },
        set.rows@[i].payload.items != slots.len() && p < r.rows@[i].steps@.len()
            && !slots[p].returning && !slots[p].plsql_output ==> parameter_of(
            r.rows@[i].steps@[p].source,
        ) == Some(inputs_of(slots, p).len() as int),
        p < r.rows@[i].steps@.len() ==> (r.rows@[i].steps@[p].source matches Source::ThroughVar {
            record,
            ..
        } ==> record),
{
    assert(row_planned(r.rows@[i], set.rows@[i], slots, sizes));
    let plan: Result<BindPlan, Fault> = Ok(r.rows@[i]);
    law_positional_values_have_to_fit(plan, set.rows@[i].payload, slots, sizes, true);
    if p < r.rows@[i].steps@.len() {
        law_positional_value_is_bound(plan, set.rows@[i].payload, slots, sizes, true, p);
    }
}

/// Each row of a batch is planned, in order, up to the first that cannot be bound. A batch without
/// an error binds as many rows as were passed.
pub proof fn law_batch_binds_every_row(
    r: BatchPlan,
    set: RowSet,
    slots: Seq<BindSlot>,
    sizes: InputSizes,
    i: int,
)
    requires
        batch_outcome(r, set, slots, sizes),
        rows_are_given(set),
    ensures
        r.rows@.len() <= set.rows@.len(),
        r.fault is None && r.rows@.len() < set.rows@.len() ==> r.rows@.len() > 0
            && r.rows@.last().fault is Some,
        r.fault is Some ==> r.rows@.len() < set.rows@.len(),
        0 <= i < r.rows@.len() - 1 ==> r.rows@[i].fault is None,
        0 <= i < r.rows@.len() ==> (set.rows@[i].payload.kind == ContainerKind::Dict
            <==> set.rows@[0].payload.kind == ContainerKind::Dict),
        r.clears_declared,
{
    if 0 <= i < r.rows@.len() {
        assert(row_planned(r.rows@[i], set.rows@[i], slots, sizes));
        assert(style_of(set.rows@[i].payload.kind) == style_of(set.rows@[0].payload.kind));
        assert(row_planned(r.rows@[0], set.rows@[0], slots, sizes));
    }
}

/// A batch of dictionaries that each have a key for every placeholder, and no other keys, is bound
/// whole and without an error. `chosen` gives for each row and placeholder such a key.
pub proof fn law_batch_of_full_dictionaries_is_bound(
    r: BatchPlan,
    set: RowSet,
    slots: Seq<BindSlot>,
    sizes: InputSizes,
    chosen: Seq<Seq<int>>,
)
    requires
        batch_outcome(r, set, slots, sizes),
        rows_are_given(set),
        chosen.len() == set.rows@.len(),
        forall|i: int|
            0 <= i < set.rows@.len() ==> full_dictionary(
                #[trigger] set.rows@[i],
                slots,
                chosen[i],
            ),
    ensures
        r.fault is None,
        r.rows@.len() == set.rows@.len(),
        forall|i: int|
            0 <= i < r.rows@.len() ==> (#[trigger] r.rows@[i]).fault is None
                && r.rows@[i].steps@.len() == slots.len(),
{
    let n = r.rows@.len() as int;
    assert forall|i: int| 0 <= i < n implies (#[trigger] r.rows@[i]).fault is None
        && r.rows@[i].steps@.len() == slots.len() by {
        assert(row_planned(r.rows@[i], set.rows@[i], slots, sizes));
        assert(full_dictionary(set.rows@[i], slots, chosen[i]));
        law_named_plan_is_complete(
            Ok(r.rows@[i]),
            set.rows@[i].keys,
            slots,
            sizes,
            0,
            true,
            chosen[i],
        );
    }
    if r.fault is Some {
        assert(full_dictionary(set.rows@[n], slots, chosen[n]));
        assert(full_dictionary(set.rows@[0], slots, chosen[0]));
        law_named_plan_is_complete(
            Err(r.fault->0),
            set.rows@[n].keys,
            slots,
            sizes,
            0,
            true,
            chosen[n],
        );
    }
}

/// The row is a dictionary with a key for every placeholder, and each of its keys names one.
pub open spec fn full_dictionary(
    row: RowPayload,
    slots: Seq<BindSlot>,
    chosen: Seq<int>,
) -> bool {
    &&& row.payload.kind == ContainerKind::Dict
    &&& chosen.len() == slots.len()
    &&& forall|p: int|
        0 <= p < slots.len() ==> 0 <= #[trigger] chosen[p] < row.keys.keys@.len() && key_means(
            row.keys.keys@[chosen[p]]@,
            slots[p].name@,
            slots[p].quoted,
        )
    &&& forall|j: int| 0 <= j < row.keys.keys@.len() ==> #[trigger] names_a_placeholder(row.keys, j)
}

/// A batch of sequences that each have a value for every placeholder is bound whole and without an
/// error.
pub proof fn law_batch_of_full_sequences_is_bound(
    r: BatchPlan,
    set: RowSet,
    slots: Seq<BindSlot>,
    sizes: InputSizes,
)
    requires
        batch_outcome(r, set, slots, sizes),
        rows_are_given(set),
        slots.len() <= usize::MAX,
        forall|i: int|
            0 <= i < set.rows@.len() ==> {
                &&& (#[trigger] set.rows@[i]).payload.kind == ContainerKind::Tuple
                    || set.rows@[i].payload.kind == ContainerKind::List
                    || set.rows@[i].payload.kind == ContainerKind::Iterable
                &&& set.rows@[i].payload.items == slots.len()
            },
    ensures
        r.fault is None,
        r.rows@.len() == set.rows@.len(),
        forall|i: int|
            0 <= i < r.rows@.len() ==> (#[trigger] r.rows@[i]).fault is None
                && r.rows@[i].steps@.len() == slots.len(),
{
    let n = r.rows@.len() as int;
    assert forall|i: int| 0 <= i < n implies (#[trigger] r.rows@[i]).fault is None
        && r.rows@[i].steps@.len() == slots.len() by {
        assert(row_planned(r.rows@[i], set.rows@[i], slots, sizes));
        law_positional_values_have_to_fit(
            Ok(r.rows@[i]),
            set.rows@[i].payload,
            slots,
            sizes,
            true,
        );
    }
    if r.fault is Some {
        assert(set.rows@[0].payload.items == slots.len());
        law_positional_values_have_to_fit(
            Err(r.fault->0),
            set.rows@[n].payload,
            slots,
            sizes,
            true,
        );
    }
}

/// The rows of a batch are all dictionaries or all sequences: the first that is neither, and the
/// first that is of the other kind than those before it, ends the batch with its own error.
pub proof fn law_batch_rows_are_of_one_kind(
    r: BatchPlan,
    set: RowSet,
    slots: Seq<BindSlot>,
    sizes: InputSizes,
)
    requires
        batch_outcome(r, set, slots, sizes),
        rows_are_given(set),
    ensures
        ({
            let n = r.rows@.len() as int;
            let kind = set.rows@[n].payload.kind;
            let first = set.rows@[0].payload.kind;
            let ended = n < set.rows@.len() && (n == 0 || r.rows@[n - 1].fault is None);
            &&& ended && (kind == ContainerKind::Text || kind == ContainerKind::Other) ==> (r.fault
                matches Some(f) && f@ == FaultView::Named(
                ErrorName::WrongExecutemanyParametersType,
            ))
            &&& ended && n > 0 && kind == ContainerKind::Dict && first != ContainerKind::Dict ==> (
            r.fault matches Some(f) && f@ == FaultView::Named(
                ErrorName::MixedPositionalAndNamedBinds,
            ))
            &&& ended && n > 0 && first == ContainerKind::Dict && (kind == ContainerKind::Tuple
                || kind == ContainerKind::List || kind == ContainerKind::Iterable) ==> (r.fault
                matches Some(f) && f@ == FaultView::Named(
                ErrorName::MixedPositionalAndNamedBinds,
            ))
            &&& ended ==> r.fault is Some
        }),
{
    if r.rows@.len() > 0 {
        assert(row_planned(r.rows@[0], set.rows@[0], slots, sizes));
    }
}

/// A batch that is given by a number runs so often: with nothing to bind where the statement has no
/// placeholders, and else each time with the variables that were declared. Nothing but a list or a
/// tuple holds rows.
pub proof fn law_counted_batch_runs_so_often(
    r: BatchPlan,
    set: RowSet,
    slots: Seq<BindSlot>,
    sizes: InputSizes,
    i: int,
)
    requires
        batch_outcome(r, set, slots, sizes),
    ensures
        set.is_none ==> r.rows@.len() == 0 && r.fault is None,
        !set.is_none && set.count is Some && slots.len() == 0 ==> {
            &&& r.rows@.len() == set.count->0 && r.fault is None
            &&& 0 <= i < r.rows@.len() ==> r.rows@[i].steps@.len() == 0 && r.rows@[i].fault is None
        },
        !set.is_none && set.count is Some && slots.len() > 0 && sizes.is_var@.len() > 0 ==> {
            &&& r.fault is None
            &&& r.rows@.len() == set.count->0 || r.rows@.len() == 1 && r.rows@[0].fault is Some
            &&& 0 <= i < r.rows@.len() ==> r.rows@[i].follows(
                slots.len() as int,
                input_size_rule(slots),
            )
        },
        !set.is_none && set.count is None && set.kind != ContainerKind::List && set.kind
            != ContainerKind::Tuple ==> r.rows@.len() == 0 && (r.fault matches Some(f) && f@
            == FaultView::Named(ErrorName::WrongExecutemanyParametersType)),
{
}

proof fn lemma_var_steps_total(n: int, step: spec_fn(int) -> Option<VarStep>)
    requires
        0 <= n,
        forall|q: int| 0 <= q < n ==> (#[trigger] step(q)) is Some,
    ensures
        var_steps(n, step).len() == n,
        forall|q: int| 0 <= q < n ==> Some(#[trigger] var_steps(n, step)[q]) == step(q),
    decreases n,
{
    if n > 0 {
        lemma_var_steps_total(n - 1, step);
        assert(step(n - 1) is Some);
        assert forall|q: int| 0 <= q < n implies Some(#[trigger] var_steps(n, step)[q]) == step(
            q,
        ) by {
            if q < n - 1 {
                assert(var_steps(n, step)[q] == var_steps(n - 1, step)[q]);
            }
        }
    }
}

/// With a value for each placeholder an execution exposes a variable for each, in order: that of
/// the value at its place, or the one that was declared for its position, which then holds that
/// value if any.
pub proof fn law_positional_variables_are_in_order(
    r: Result<Vec<VarStep>, Fault>,
    payload: Payload,
    slots: Seq<BindSlot>,
    sizes: InputSizes,
    p: int,
)
    requires
        positional_vars_outcome(r, payload, slots, sizes),
        payload.kind == ContainerKind::Tuple || payload.kind == ContainerKind::List
            || payload.kind == ContainerKind::Iterable,
        payload.items == slots.len(),
        0 <= p < slots.len() <= usize::MAX,
        slots[p].sizes_by_position@.len() <= usize::MAX,
    ensures
        r matches Ok(steps) && steps@.len() == slots.len() && match steps@[p] {
            VarStep::FromParameter(v) => v == p,
            VarStep::FromInputSize { size, set_to } => {
                &&& slots[p].sizes_by_position@[size as int]
                &&& set_to matches Some(v) ==> v == p
                &&& set_to is Some <==> sizes.is_var@[size as int] && !slots[p].returning
                    && !slots[p].plsql_output
            },
            _ => false,
        },
{
    let rule = positional_var_rule(slots, sizes, payload.items as int);
    assert forall|q: int| 0 <= q < slots.len() implies (#[trigger] rule(q)) is Some by {
        assert(rule(q) == positional_var_step(slots, sizes, payload.items as int, q));
    }
    lemma_var_steps_total(slots.len() as int, rule);
    law_first_set_is_the_first(slots[p].sizes_by_position@, 0);
    assert(Some(var_steps(slots.len() as int, rule)[p]) == rule(p));
    assert(rule(p) == positional_var_step(slots, sizes, payload.items as int, p));
}

/// With a key for each placeholder an execution exposes a variable for each, in order: that of the
/// value under such a key, or the one that was declared for its name.
pub proof fn law_named_variables_are_in_order(
    keys: ParameterKeys,
    slots: Seq<BindSlot>,
    sizes: InputSizes,
    previous: int,
    chosen: Seq<int>,
    p: int,
)
    requires
        chosen.len() == slots.len(),
        keys.keys@.len() <= usize::MAX,
        forall|q: int|
            0 <= q < slots.len() ==> 0 <= #[trigger] chosen[q] < keys.keys@.len() && key_means(
                keys.keys@[chosen[q]]@,
                slots[q].name@,
                slots[q].quoted,
            ),
        0 <= p < slots.len(),
        slots[p].sizes_by_name@.len() <= usize::MAX,
    ensures
        ({
            let steps = var_steps(
                slots.len() as int,
                named_var_rule(slots, Some(&keys), sizes, previous),
            );
            &&& steps.len() == slots.len()
            &&& match steps[p] {
                VarStep::FromParameter(v) => v < keys.keys@.len() && key_means(
                    keys.keys@[v as int]@,
                    slots[p].name@,
                    slots[p].quoted,
                ),
                VarStep::FromInputSize { size, set_to } => {
                    &&& slots[p].sizes_by_name@[size as int]
                    &&& set_to is Some <==> sizes.is_var@[size as int]
                    &&& set_to matches Some(v) ==> v < keys.keys@.len() && key_means(
                        keys.keys@[v as int]@,
                        slots[p].name@,
                        slots[p].quoted,
                    )
                },
                _ => false,
            }
        }),
{
    let rule = named_var_rule(slots, Some(&keys), sizes, previous);
    assert forall|q: int| 0 <= q < slots.len() implies (#[trigger] rule(q)) is Some by {
        law_lookup_finds_the_key(keys.keys@, slots[q], chosen[q]);
        assert(rule(q) == named_var_step(slots[q], Some(keys.keys@), sizes, previous));
    }
    lemma_var_steps_total(slots.len() as int, rule);
    law_lookup_finds_the_key(keys.keys@, slots[p], chosen[p]);
    law_first_set_is_the_first(slots[p].sizes_by_name@, 0);
    assert(Some(var_steps(slots.len() as int, rule)[p]) == rule(p));
    assert(rule(p) == named_var_step(slots[p], Some(keys.keys@), sizes, previous));
}

/// A batch without rows exposes a variable for each placeholder, in order: the one that was declared
/// for it, or a new one.
pub proof fn law_batch_without_rows_exposes_declared_variables(
    r: Result<Vec<VarStep>, Fault>,
    set: RowSet,
    slots: Seq<BindSlot>,
    sizes: InputSizes,
    p: int,
)
    requires
        batch_vars_outcome(r, set, slots, sizes),
        set.is_none || set.count is Some || set.rows@.len() == 0,
        0 <= p < slots.len(),
        slots[p].sizes_by_position@.len() <= usize::MAX,
        slots[p].sizes_by_name@.len() <= usize::MAX,
    ensures
        r matches Ok(steps) && steps@.len() == slots.len() && match steps@[p] {
            VarStep::FromInputSize { size, set_to } => set_to is None && (
            slots[p].sizes_by_position@[size as int] || slots[p].sizes_by_name@[size as int]),
            VarStep::Fresh => (forall|s: int|
                0 <= s < slots[p].sizes_by_position@.len()
                    ==> !#[trigger] slots[p].sizes_by_position@[s]) && forall|s: int|
                0 <= s < slots[p].sizes_by_name@.len() ==> !#[trigger] slots[p].sizes_by_name@[s],
            _ => false,
        },
{
    let rule = declared_var_rule(slots);
    assert forall|q: int| 0 <= q < slots.len() implies (#[trigger] rule(q)) is Some by {
        assert(rule(q) == declared_var_step(slots[q]));
    }
    lemma_var_steps_total(slots.len() as int, rule);
    law_first_set_is_the_first(slots[p].sizes_by_position@, 0);
    law_first_set_is_the_first(slots[p].sizes_by_name@, 0);
    assert(Some(var_steps(slots.len() as int, rule)[p]) == rule(p));
    assert(rule(p) == declared_var_step(slots[p]));
}

/// The variables of a batch are those of its first row.
pub proof fn law_first_row_decides_variables(
    r: Result<Vec<VarStep>, Fault>,
    set: RowSet,
    slots: Seq<BindSlot>,
    sizes: InputSizes,
)
    requires
        batch_vars_outcome(r, set, slots, sizes),
        rows_are_given(set),
        set.rows@.len() > 0,
    ensures
        set.rows@[0].payload.kind == ContainerKind::Dict ==> (r matches Ok(steps) && steps@
            == var_steps(
            slots.len() as int,
            named_var_rule(slots, Some(&set.rows@[0].keys), sizes, 0),
        )),
        set.rows@[0].payload.kind == ContainerKind::Tuple || set.rows@[0].payload.kind
            == ContainerKind::List || set.rows@[0].payload.kind == ContainerKind::Iterable
            ==> positional_vars_outcome(r, set.rows@[0].payload, slots, sizes),
{
}

/// An execution whose values come by name exposes a variable for each placeholder that has a key, one
/// whose values come by position those in their order. With values that came both ways, or with
/// none and nothing declared, it exposes no variable.
pub proof fn law_exposed_variables_follow_the_values(
    request: BindRequest,
    r: Result<Vec<VarStep>, Fault>,
    chosen: Seq<int>,
    p: int,
)
    requires
        request.vars_outcome(r),
        0 <= p < request.slots@.len() <= usize::MAX,
        chosen.len() == request.slots@.len(),
        request.keys.keys@.len() <= usize::MAX,
        request.slots@[p].sizes_by_name@.len() <= usize::MAX,
        request.slots@[p].sizes_by_position@.len() <= usize::MAX,
        forall|q: int|
            0 <= q < request.slots@.len() ==> 0 <= #[trigger] chosen[q] < request.keys.keys@.len()
                && key_means(
                request.keys.keys@[chosen[q]]@,
                request.slots@[q].name@,
                request.slots@[q].quoted,
            ),
    ensures
        has_payload(request.parameters) && has_payload(request.keywords) ==> (r matches Ok(steps)
            && steps@.len() == 0),
        request.parameters is None && !has_payload(request.keywords) && request.sizes.is_var@.len()
            == 0 ==> (r matches Ok(steps) && steps@.len() == 0),
        has_payload(request.keywords) && !has_payload(request.parameters) ==> (r matches Ok(steps)
            && steps@.len() == request.slots@.len() && (steps@[p] matches VarStep::FromParameter(v)
            ==> v < request.keys.keys@.len() && key_means(
            request.keys.keys@[v as int]@,
            request.slots@[p].name@,
            request.slots@[p].quoted,
        ))),
        has_payload(request.parameters) && !has_payload(request.keywords) && (
        request.parameters->0.kind == ContainerKind::Tuple || request.parameters->0.kind
            == ContainerKind::List) && request.parameters->0.items == request.slots@.len() ==> (
        r matches Ok(steps) && steps@.len() == request.slots@.len() && (
        steps@[p] matches VarStep::FromParameter(v) ==> v == p)),
{
    law_named_variables_are_in_order(
        request.keys,
        request.slots@,
        request.sizes,
        request.previous as int,
        chosen,
        p,
    );
    if has_payload(request.parameters) && !has_payload(request.keywords) && (
    request.parameters->0.kind == ContainerKind::Tuple || request.parameters->0.kind
        == ContainerKind::List) && request.parameters->0.items == request.slots@.len() {
        law_positional_variables_are_in_order(
            r,
            request.parameters->0,
            request.slots@,
            request.sizes,
            p,
        );
    }
}

/// Without values a placeholder exposes the variable that was declared for its name. Without such
/// a variable it exposes the first one that the previous execution bound to it, if it takes no
/// input and that variable is still there. Any other placeholder exposes nothing, and none changes
/// what those before it expose.
pub proof fn law_outputs_keep_their_previous_variable(
    slots: Seq<BindSlot>,
    sizes: InputSizes,
    previous: int,
    p: int,
)
    requires
        0 <= p < slots.len(),
        0 <= previous <= usize::MAX,
        slots[p].sizes_by_name@.len() <= usize::MAX,
    ensures
        ({
            let rule = named_var_rule(slots, None, sizes, previous);
            let before = var_steps(p, rule);
            let after = var_steps(p + 1, rule);
            let declared = exists|t: int|
                0 <= t < slots[p].sizes_by_name@.len() && #[trigger] slots[p].sizes_by_name@[t];
            let output = slots[p].returning || slots[p].plsql_output;
            &&& after == before || after.len() == before.len() + 1 && after.drop_last() == before
            &&& declared ==> after.len() == before.len() + 1 && (
            after.last() matches VarStep::FromInputSize { size, set_to }
                && slots[p].sizes_by_name@[size as int] && set_to is None)
            &&& !declared && after.len() > before.len() ==> output && (
            after.last() matches VarStep::Previous(v) && v < previous && v
                < slots[p].previous@.len() && slots[p].previous@[v as int] && forall|t: int|
                0 <= t < v ==> !#[trigger] slots[p].previous@[t])
            &&& !declared && output && after == before ==> forall|t: int|
                0 <= t < slots[p].previous@.len() && t < previous
                    ==> !#[trigger] slots[p].previous@[t]
        }),
{
    let rule = named_var_rule(slots, None, sizes, previous);
    let before = var_steps(p, rule);
    let after = var_steps(p + 1, rule);
    law_first_set_is_the_first(slots[p].sizes_by_name@, 0);
    law_first_set_is_the_first(slots[p].previous@, 0);
    assert(rule(p) == named_var_step(slots[p], None, sizes, previous));
    if rule(p) is Some {
        assert(after == before.push(rule(p)->0));
        assert(after.drop_last() =~= before);
    } else {
        assert(after == before);
    }
}

} // verus!
