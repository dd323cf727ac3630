use oracledb_pyshim::batch::{
    extract_bind_rows, extract_bind_var_objects, extract_executemany_bind_var_objects,
    extract_named_bind_var_objects, extract_positional_bind_var_objects_for_execute, row_style,
    RowPayload, RowSet, RowStyle, VarStep,
};
use oracledb_pyshim::binds::{
    count_inputs, extract_bind_values, extract_input_size_bind_values, extract_named_bind_values,
    extract_positional_bind_values_for_execute, extract_positional_bind_values_with_input_sizes,
    has_bind_payload, positional_bind_items, BindMode, BindRequest, BindStep, ContainerKind,
    Payload, Source, Wrap,
};
use oracledb_pyshim::errors::{ErrorName, Fault};
use oracledb_pyshim::slots::{get_named_bind_value, BindSlot, InputSizes, ParameterKeys};

fn slot(name: &str) -> BindSlot {
    BindSlot {
        name: name.to_string(),
        returning: false,
        plsql_output: false,
        quoted: false,
        sizes_by_name: vec![],
        sizes_by_position: vec![],
        previous: vec![],
    }
}

fn returning(name: &str) -> BindSlot {
    BindSlot { returning: true, ..slot(name) }
}

fn output(name: &str) -> BindSlot {
    BindSlot { plsql_output: true, ..slot(name) }
}

fn no_sizes() -> InputSizes {
    InputSizes { is_var: vec![] }
}

fn payload(kind: ContainerKind, n: usize) -> Payload {
    Payload { is_none: false, kind, len: n, items: n }
}

fn keys(names: &[&str], matched: Vec<Vec<bool>>) -> ParameterKeys {
    ParameterKeys { keys: names.iter().map(|n| n.to_string()).collect(), matched }
}

fn message(f: Fault) -> String {
    match f {
        Fault::Database(e) => e.message,
        other => panic!("{:?}", other),
    }
}

fn step(source: Source, wrap: Wrap) -> BindStep {
    BindStep { source, wrap }
}

#[test]
fn names_are_found_without_regard_to_case() {
    let k = vec![":A".to_string(), "b".to_string()];
    assert_eq!(get_named_bind_value(&k, &slot("A")), Some(0));
    assert_eq!(get_named_bind_value(&k, &slot("B")), Some(1));
    assert_eq!(get_named_bind_value(&k, &slot("b")), Some(1));
    assert_eq!(get_named_bind_value(&k, &BindSlot { quoted: true, ..slot("B") }), None);
    assert_eq!(get_named_bind_value(&k, &BindSlot { quoted: true, ..slot("b") }), Some(1));
    assert_eq!(get_named_bind_value(&k, &slot("C")), None);
}

#[test]
fn an_exact_name_wins_over_one_in_other_case() {
    let k = vec!["a".to_string(), "A".to_string()];
    assert_eq!(get_named_bind_value(&k, &slot("A")), Some(1));
    assert_eq!(get_named_bind_value(&k, &slot("a")), Some(0));
}

#[test]
fn one_value_per_placeholder() {
    let slots = vec![slot("1"), returning("2"), output("3")];
    assert_eq!(count_inputs(&slots), 1);
    let plan = extract_positional_bind_values_for_execute(
        &payload(ContainerKind::List, 3),
        &slots,
        &no_sizes(),
    )
    .unwrap();
    assert!(plan.fault.is_none());
    assert_eq!(
        plan.steps,
        vec![
            step(Source::ConvertForExecute(0), Wrap::Keep),
            step(Source::Convert(1), Wrap::Returning),
            step(Source::Convert(2), Wrap::PlsqlOutput),
        ]
    );
}

#[test]
fn one_value_per_input_placeholder() {
    let sized = BindSlot { sizes_by_position: vec![false, true], ..returning("OUT") };
    let slots = vec![slot("A"), sized, slot("B")];
    let sizes = InputSizes { is_var: vec![false, true] };
    let plan = extract_positional_bind_values_for_execute(
        &payload(ContainerKind::Tuple, 2),
        &slots,
        &sizes,
    )
    .unwrap();
    assert!(plan.fault.is_none());
    assert_eq!(
        plan.steps,
        vec![
            step(Source::ConvertForExecute(0), Wrap::Keep),
            step(Source::InputSize(1), Wrap::Returning),
            step(Source::ConvertForExecute(1), Wrap::Keep),
        ]
    );
}

#[test]
fn an_output_placeholder_without_size_ends_the_plan() {
    let slots = vec![slot("A"), returning("OUT"), slot("B")];
    let plan = extract_positional_bind_values_for_execute(
        &payload(ContainerKind::Iterable, 2),
        &slots,
        &no_sizes(),
    )
    .unwrap();
    assert_eq!(plan.steps.len(), 1);
    assert_eq!(
        message(plan.fault.unwrap()),
        "DPY-4010: a bind variable replacement value for placeholder \":OUT\" was not provided"
    );
}

#[test]
fn values_pass_through_declared_variables() {
    let sized = BindSlot { sizes_by_position: vec![true], ..slot("A") };
    let slots = vec![sized];
    let one = payload(ContainerKind::List, 1);
    let var = InputSizes { is_var: vec![true] };
    let execute = extract_positional_bind_values_for_execute(&one, &slots, &var).unwrap();
    assert_eq!(
        execute.steps,
        vec![step(Source::ThroughVar { size: 0, parameter: 0, record: false }, Wrap::Keep)]
    );
    let row = extract_positional_bind_values_with_input_sizes(&one, &slots, &var).unwrap();
    assert_eq!(
        row.steps,
        vec![step(Source::ThroughVar { size: 0, parameter: 0, record: true }, Wrap::Keep)]
    );
    let plain = InputSizes { is_var: vec![false] };
    let execute = extract_positional_bind_values_for_execute(&one, &slots, &plain).unwrap();
    assert_eq!(execute.steps, vec![step(Source::ConvertForExecute(0), Wrap::Keep)]);
}

#[test]
fn wrong_number_of_positional_values() {
    let slots = vec![slot("A"), slot("B"), returning("C")];
    let r = extract_positional_bind_values_for_execute(
        &payload(ContainerKind::List, 1),
        &slots,
        &no_sizes(),
    );
    assert_eq!(
        message(r.err().unwrap()),
        "DPY-4009: 2 positional bind values are required but 1 were provided"
    );
}

#[test]
fn only_sequences_give_positional_values() {
    assert!(matches!(positional_bind_items(&payload(ContainerKind::List, 4)), Ok(4)));
    for kind in [ContainerKind::Dict, ContainerKind::Text, ContainerKind::Other] {
        assert!(matches!(
            positional_bind_items(&payload(kind, 4)),
            Err(Fault::Named(ErrorName::WrongExecuteParametersType))
        ));
    }
}

#[test]
fn values_by_name() {
    let slots = vec![slot("A"), output("B"), BindSlot { previous: vec![false, true], ..returning("C") }];
    let k = keys(&["a", "b"], vec![vec![true, false], vec![false, true], vec![false, false]]);
    let plan = extract_named_bind_values(Some(&k), &slots, &no_sizes(), 2, false).unwrap();
    assert!(plan.fault.is_none());
    assert_eq!(
        plan.steps,
        vec![
            step(Source::ConvertForExecute(0), Wrap::Keep),
            step(Source::ConvertForExecute(1), Wrap::PlsqlOutput),
            step(Source::PreviousVar(1), Wrap::Returning),
        ]
    );
    let short = extract_named_bind_values(Some(&k), &slots, &no_sizes(), 1, false).unwrap();
    assert_eq!(short.steps.len(), 2);
    assert_eq!(
        message(short.fault.unwrap()),
        "DPY-4010: a bind variable replacement value for placeholder \":C\" was not provided"
    );
}

#[test]
fn declared_sizes_stand_in_for_values_by_name() {
    let slots = vec![BindSlot { sizes_by_name: vec![false, true], ..output("B") }];
    let sizes = InputSizes { is_var: vec![false, true] };
    let plan = extract_named_bind_values(None, &slots, &sizes, 0, false).unwrap();
    assert_eq!(plan.steps, vec![step(Source::InputSize(1), Wrap::PlsqlOutput)]);
    let previous = vec![BindSlot { previous: vec![true], ..output("B") }];
    let plan = extract_named_bind_values(None, &previous, &no_sizes(), 1, false).unwrap();
    assert_eq!(plan.steps, vec![step(Source::PreviousVar(0), Wrap::OutputOnly)]);
}

#[test]
fn the_order_of_keys_does_not_matter() {
    let slots = vec![slot("A"), output("B")];
    let one = keys(&["a", "b"], vec![vec![true, false], vec![false, true]]);
    let two = keys(&["b", "a"], vec![vec![false, true], vec![true, false]]);
    let plan = extract_named_bind_values(Some(&one), &slots, &no_sizes(), 0, false).unwrap();
    let other = extract_named_bind_values(Some(&two), &slots, &no_sizes(), 0, false).unwrap();
    assert!(plan.fault.is_none() && other.fault.is_none());
    assert_eq!(
        plan.steps,
        vec![
            step(Source::ConvertForExecute(0), Wrap::Keep),
            step(Source::ConvertForExecute(1), Wrap::PlsqlOutput),
        ]
    );
    assert_eq!(
        other.steps,
        vec![
            step(Source::ConvertForExecute(1), Wrap::Keep),
            step(Source::ConvertForExecute(0), Wrap::PlsqlOutput),
        ]
    );
}

#[test]
fn unknown_names_are_refused() {
    let slots = vec![slot("A")];
    let k = keys(&["a", "zz"], vec![vec![true, false]]);
    let r = extract_named_bind_values(Some(&k), &slots, &no_sizes(), 0, false);
    assert_eq!(
        message(r.err().unwrap()),
        "DPY-4008: no bind placeholder named \":zz\" was found in the SQL text"
    );
}

#[test]
fn input_sizes_alone() {
    let slots = vec![
        BindSlot { sizes_by_name: vec![true, false], ..slot("A") },
        BindSlot { sizes_by_position: vec![false, true], sizes_by_name: vec![false, false], ..returning("B") },
    ];
    let plan = extract_input_size_bind_values(&slots);
    assert_eq!(
        plan.steps,
        vec![step(Source::InputSize(0), Wrap::Keep), step(Source::InputSize(1), Wrap::Returning)]
    );
    assert!(plan.fault.is_none());
    let plan = extract_input_size_bind_values(&vec![slot("X")]);
    assert!(plan.fault.is_some());
}

fn request(parameters: Option<Payload>, keywords: Option<Payload>) -> BindRequest {
    BindRequest {
        parameters,
        keywords,
        keys: keys(&[], vec![vec![]]),
        slots: vec![slot("A")],
        sizes: no_sizes(),
        has_positional_input_sizes: false,
        previous: 0,
    }
}

#[test]
fn the_bind_mode_follows_the_parameters() {
    let list = Some(payload(ContainerKind::List, 1));
    let dict = Some(payload(ContainerKind::Dict, 1));
    let empty = Some(payload(ContainerKind::List, 0));
    assert_eq!(request(list, dict).bind_mode(), BindMode::Conflict);
    assert_eq!(request(None, dict).bind_mode(), BindMode::ByName);
    assert_eq!(request(dict, None).bind_mode(), BindMode::ByName);
    assert_eq!(request(list, None).bind_mode(), BindMode::ByPosition);
    assert_eq!(request(empty, None).bind_mode(), BindMode::Nothing);
    assert_eq!(request(None, None).bind_mode(), BindMode::Nothing);
    let mut r = request(empty, None);
    r.sizes = InputSizes { is_var: vec![false] };
    assert_eq!(r.bind_mode(), BindMode::Declared);
    r.has_positional_input_sizes = true;
    assert_eq!(r.bind_mode(), BindMode::DeclaredByPosition);
    assert!(has_bind_payload(list));
    assert!(!has_bind_payload(empty));
    assert!(!has_bind_payload(Some(Payload { is_none: true, ..list.unwrap() })));
    assert!(!has_bind_payload(None));
}

#[test]
fn one_execution_is_planned() {
    let list = Some(payload(ContainerKind::List, 1));
    let dict = Some(payload(ContainerKind::Dict, 1));
    assert!(matches!(
        extract_bind_values(&request(list, dict)),
        Err(Fault::Named(ErrorName::ArgsAndKeywordArgs))
    ));
    let plan = extract_bind_values(&request(list, None)).unwrap();
    assert_eq!(plan.steps, vec![step(Source::ConvertForExecute(0), Wrap::Keep)]);
    let plan = extract_bind_values(&request(None, None)).unwrap();
    assert!(plan.steps.is_empty() && plan.fault.is_none());
    let mut r = request(Some(payload(ContainerKind::List, 0)), None);
    r.has_positional_input_sizes = true;
    assert_eq!(
        message(extract_bind_values(&r).err().unwrap()),
        "DPY-4010: a bind variable replacement value for placeholder \":A\" was not provided"
    );
    let mut r = request(dict, None);
    r.keys = keys(&["a"], vec![vec![true]]);
    let plan = extract_bind_values(&r).unwrap();
    assert_eq!(plan.steps, vec![step(Source::ConvertForExecute(0), Wrap::Keep)]);
}

fn row(kind: ContainerKind, n: usize) -> RowPayload {
    RowPayload { payload: payload(kind, n), keys: keys(&[], vec![vec![]]) }
}

fn set(kind: ContainerKind, rows: Vec<RowPayload>) -> RowSet {
    RowSet { is_none: false, count: None, kind, rows }
}

#[test]
fn rows_of_a_batch_are_planned_in_turn() {
    let slots = vec![slot("A")];
    let rows = vec![row(ContainerKind::Tuple, 1), row(ContainerKind::List, 1)];
    let plan = extract_bind_rows(&set(ContainerKind::List, rows), &slots, &no_sizes());
    assert!(plan.clears_declared);
    assert!(plan.fault.is_none());
    assert_eq!(plan.rows.len(), 2);
    assert_eq!(plan.rows[1].steps, vec![step(Source::ConvertForExecute(0), Wrap::Keep)]);
}

#[test]
fn rows_of_different_styles_do_not_mix() {
    let slots = vec![slot("A")];
    let named = RowPayload {
        payload: payload(ContainerKind::Dict, 1),
        keys: keys(&["A"], vec![vec![true]]),
    };
    let rows = vec![row(ContainerKind::Tuple, 1), named];
    let plan = extract_bind_rows(&set(ContainerKind::List, rows), &slots, &no_sizes());
    assert_eq!(plan.rows.len(), 1);
    assert!(matches!(
        plan.fault,
        Some(Fault::Named(ErrorName::MixedPositionalAndNamedBinds))
    ));
    let rows = vec![row(ContainerKind::Text, 1)];
    let plan = extract_bind_rows(&set(ContainerKind::List, rows), &slots, &no_sizes());
    assert!(matches!(
        plan.fault,
        Some(Fault::Named(ErrorName::WrongExecutemanyParametersType))
    ));
}

#[test]
fn a_batch_needs_a_sequence_of_rows() {
    let slots = vec![slot("A")];
    for (kind, clears) in
        [(ContainerKind::Text, false), (ContainerKind::Dict, true), (ContainerKind::Other, true)]
    {
        let plan = extract_bind_rows(&set(kind, vec![]), &slots, &no_sizes());
        assert!(matches!(
            plan.fault,
            Some(Fault::Named(ErrorName::WrongExecutemanyParametersType))
        ));
        assert_eq!(plan.clears_declared, clears);
    }
    let none = RowSet { is_none: true, count: None, kind: ContainerKind::Other, rows: vec![] };
    let plan = extract_bind_rows(&none, &slots, &no_sizes());
    assert!(plan.rows.is_empty() && plan.fault.is_none());
}

#[test]
fn a_batch_may_be_a_number_of_iterations() {
    let count = RowSet { is_none: false, count: Some(3), kind: ContainerKind::Other, rows: vec![] };
    let plan = extract_bind_rows(&count, &vec![], &no_sizes());
    assert_eq!(plan.rows.len(), 3);
    assert!(plan.rows.iter().all(|r| r.steps.is_empty()));
    let slots = vec![BindSlot { sizes_by_name: vec![true], ..slot("A") }];
    let sizes = InputSizes { is_var: vec![true] };
    let plan = extract_bind_rows(&count, &slots, &sizes);
    assert_eq!(plan.rows.len(), 3);
    assert!(plan.rows.iter().all(|r| r.steps == vec![step(Source::InputSize(0), Wrap::Keep)]));
    let plan = extract_bind_rows(&count, &vec![slot("A")], &no_sizes());
    assert!(plan.fault.is_some());
}

#[test]
fn row_styles() {
    assert_eq!(row_style(ContainerKind::Dict), Some(RowStyle::Named));
    assert_eq!(row_style(ContainerKind::Iterable), Some(RowStyle::Positional));
    assert_eq!(row_style(ContainerKind::Text), None);
}

#[test]
fn exposed_variables() {
    let sizes = InputSizes { is_var: vec![true, false] };
    let slots = vec![
        BindSlot { sizes_by_position: vec![true, false], ..slot("A") },
        BindSlot { sizes_by_position: vec![false, true], ..returning("B") },
        slot("C"),
    ];
    let two = payload(ContainerKind::List, 2);
    let vars = extract_positional_bind_var_objects_for_execute(&two, &slots, &sizes).unwrap();
    assert_eq!(
        vars,
        vec![
            VarStep::FromInputSize { size: 0, set_to: Some(0) },
            VarStep::FromInputSize { size: 1, set_to: None },
            VarStep::FromParameter(1),
        ]
    );
    let three = payload(ContainerKind::List, 3);
    let vars = extract_positional_bind_var_objects_for_execute(&three, &slots, &sizes).unwrap();
    assert_eq!(vars[1], VarStep::FromParameter(1));
    assert_eq!(vars[2], VarStep::FromParameter(2));
    let one = payload(ContainerKind::List, 1);
    assert!(extract_positional_bind_var_objects_for_execute(&one, &slots, &sizes)
        .unwrap()
        .is_empty());

    let named = vec![
        slot("A"),
        BindSlot { previous: vec![true], ..output("B") },
        slot("MISSING"),
    ];
    let k = keys(&["a"], vec![vec![true], vec![false], vec![false]]);
    assert_eq!(
        extract_named_bind_var_objects(Some(&k), &named, &no_sizes(), 1),
        vec![VarStep::FromParameter(0), VarStep::Previous(0)]
    );
    assert_eq!(
        extract_bind_var_objects(&request(Some(payload(ContainerKind::List, 1)), None)).unwrap(),
        vec![VarStep::FromParameter(0)]
    );
    let count = RowSet { is_none: false, count: Some(3), kind: ContainerKind::Other, rows: vec![] };
    assert_eq!(
        extract_executemany_bind_var_objects(&count, &vec![slot("A")], &no_sizes()).unwrap(),
        vec![VarStep::Fresh]
    );
}
