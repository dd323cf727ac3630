//! What happens before a statement is executed: input sizes, parameters and batches.
use vstd::prelude::*;

use crate::binds::{ContainerKind, Payload};
use crate::cursor::{CursorState, DeclaredSize, DeclaredSizes, FetchOptions, SizeArgument};
#[allow(unused_imports)]
use crate::cursor::{CursorModel, DeclaredModel, OutcomeModel, PreparedModel};
use crate::decimal::u64_text;
#[allow(unused_imports)]
use crate::decimal::nat_text;
use crate::errors::{ErrorName, Fault};
#[allow(unused_imports)]
use crate::errors::FaultView;
use crate::value::{BindValue, DateTimeFields, OraType};

verus! {

/// What a value is with regard to cursors that are bound.
#[derive(Clone, Copy, PartialEq, Eq, Structural, Debug)]
pub enum CursorBind {
    /// The value is no cursor, or not one of this driver.
    Other,
    /// The cursor that executes the statement.
    Executing,
    /// A cursor that was closed.
    NotOpen,
    SameConnection,
    OtherConnection,
}

pub open spec fn cursor_bind_error(c: CursorBind) -> Option<ErrorName> {
    match c {
        CursorBind::Executing => Some(ErrorName::SelfBindNotSupported),
        CursorBind::NotOpen => Some(ErrorName::CursorNotOpen),
        CursorBind::OtherConnection => Some(ErrorName::CursorDiffConnection),
        CursorBind::Other | CursorBind::SameConnection => None,
    }
}

/// Checks a value that is bound: a cursor has to be open, belong to the connection, and be another
/// than the one that executes.
pub fn validate_cursor_bind_value(c: CursorBind) -> (r: Option<ErrorName>)
    ensures
        r == cursor_bind_error(c),
{
    match c {
        CursorBind::Executing => Some(ErrorName::SelfBindNotSupported),
        CursorBind::NotOpen => Some(ErrorName::CursorNotOpen),
        CursorBind::OtherConnection => Some(ErrorName::CursorDiffConnection),
        CursorBind::Other | CursorBind::SameConnection => None,
    }
}

/// The first error among values that are bound.
pub open spec fn first_cursor_error(values: Seq<CursorBind>, from: int) -> Option<ErrorName>
    decreases values.len() - from,
{
    if from < 0 || from >= values.len() {
        None
    } else if cursor_bind_error(values[from]) is Some {
        cursor_bind_error(values[from])
    } else {
        first_cursor_error(values, from + 1)
    }
}

/// Checks the values of a container of parameters.
pub fn validate_cursor_bind_container(values: &Vec<CursorBind>) -> (r: Option<ErrorName>)
    ensures
        r == first_cursor_error(values@, 0),
{
    let mut i: usize = 0;
    while i < values.len()
        invariant
            i <= values@.len(),
            first_cursor_error(values@, 0) == first_cursor_error(values@, i as int),
        decreases values@.len() - i,
    {
        let e = validate_cursor_bind_value(values[i]);
        if e.is_some() {
            return e;
        }
        i = i + 1;
    }
    None
}

pub open spec fn cursor_binds_checked(
    r: Result<(), Fault>,
    parameters: Seq<CursorBind>,
    keywords: Seq<CursorBind>,
) -> bool {
    let e = match first_cursor_error(parameters, 0) {
        Some(e) => Some(e),
        None => first_cursor_error(keywords, 0),
    };
    match r {
        Ok(_) => e is None,
        Err(f) => e is Some && f@ == FaultView::Named(e->0),
    }
}

/// Checks parameters, and then keyword parameters.
pub fn validate_cursor_bind_parameters(
    parameters: &Vec<CursorBind>,
    keywords: &Vec<CursorBind>,
) -> (r: Result<(), Fault>)
    ensures
        cursor_binds_checked(r, parameters@, keywords@),
{
    if let Some(e) = validate_cursor_bind_container(parameters) {
        return Err(Fault::Named(e));
    }
    match validate_cursor_bind_container(keywords) {
        Some(e) => Err(Fault::Named(e)),
        None => Ok(()),
    }
}

pub open spec fn size_view(s: DeclaredSize) -> (Seq<char>, bool) {
    (s.key@, s.is_var)
}

pub open spec fn size_views(s: Seq<DeclaredSize>) -> Seq<(Seq<char>, bool)> {
    s.map_values(|x: DeclaredSize| size_view(x))
}

/// The sizes declared by position: one per argument, under the position counted from one.
pub open spec fn positional_sizes(args: Seq<SizeArgument>) -> Seq<(Seq<char>, bool)> {
    Seq::new(args.len(), |i: int| (nat_text((i + 1) as nat), !args[i].is_none))
}

/// The sizes declared by name: one per argument that declares anything.
pub open spec fn keyword_sizes(args: Seq<SizeArgument>, n: int) -> Seq<(Seq<char>, bool)>
    decreases n,
{
    if n <= 0 {
        Seq::empty()
    } else if args[n - 1].is_none {
        keyword_sizes(args, n - 1)
    } else {
        keyword_sizes(args, n - 1).push((args[n - 1].key@, true))
    }
}

impl DeclaredModel {
    /// What declaring input sizes comes to.
    pub open spec fn sizes_declared(
        self,
        after: DeclaredModel,
        r: Result<(), Fault>,
        args: Seq<SizeArgument>,
        kwargs: Seq<SizeArgument>,
    ) -> bool {
        if args.len() > 0 && kwargs.len() > 0 {
            (r matches Err(f) && f@ == FaultView::Named(ErrorName::ArgsAndKeywordArgs)) && after
                == self
        } else {
            &&& r is Ok
            &&& after.positional == (args.len() > 0)
            &&& after.named == (kwargs.len() > 0)
            &&& size_views(after.sizes) == if kwargs.len() > 0 {
                keyword_sizes(kwargs, kwargs.len() as int)
            } else {
                positional_sizes(args)
            }
        }
    }
}

impl DeclaredSizes {
    /// Declares input sizes, by position or by name.
    pub fn setinputsizes(&mut self, args: &Vec<SizeArgument>, kwargs: &Vec<SizeArgument>) -> (r:
        Result<(), Fault>)
        ensures
            old(self)@.sizes_declared(final(self)@, r, args@, kwargs@),
    {
        let has_args = args.len() > 0;
        let has_kwargs = kwargs.len() > 0;
        if has_args && has_kwargs {
            return Err(Fault::Named(ErrorName::ArgsAndKeywordArgs));
        }
        self.positional = has_args;
        self.named = has_kwargs;
        let mut sizes: Vec<DeclaredSize> = Vec::new();
        if has_kwargs {
            let mut i: usize = 0;
            proof {
                assert(size_views(sizes@) =~= keyword_sizes(kwargs@, 0));
            }
            while i < kwargs.len()
                invariant
                    i <= kwargs@.len(),
                    size_views(sizes@) == keyword_sizes(kwargs@, i as int),
                decreases kwargs@.len() - i,
            {
                if !kwargs[i].is_none {
                    let ghost before = sizes@;
                    sizes.push(DeclaredSize { key: kwargs[i].key.clone(), is_var: true });
                    proof {
                        assert(size_views(sizes@) =~= size_views(before).push(
                            (kwargs@[i as int].key@, true),
                        ));
                    }
                }
                i = i + 1;
            }
            self.sizes = sizes;
            return Ok(());
        }
        let mut i: usize = 0;
        while i < args.len()
            invariant
                i <= args@.len(),
                size_views(sizes@) == positional_sizes(args@).take(i as int),
            decreases args@.len() - i,
        {
            let ghost before = sizes@;
            sizes.push(
                DeclaredSize { key: u64_text(i as u64 + 1), is_var: !args[i].is_none },
            );
            proof {
                assert(size_views(sizes@) =~= size_views(before).push(
                    (nat_text((i + 1) as nat), !args@[i as int].is_none),
                ));
                assert(positional_sizes(args@).take(i + 1) =~= positional_sizes(args@).take(
                    i as int,
                ).push((nat_text((i + 1) as nat), !args@[i as int].is_none)));
            }
            i = i + 1;
        }
        proof {
            assert(positional_sizes(args@).take(args@.len() as int) =~= positional_sizes(args@));
        }
        self.sizes = sizes;
        Ok(())
    }
}

/// What an execution was given, as far as it decides whether it can go ahead.
pub struct ExecuteRequest {
    pub statement: Option<String>,
    pub default_lobs: bool,
    pub default_decimals: bool,
    pub parameters: Option<Payload>,
    /// The parameters are a stream of Arrow data.
    pub is_arrow_stream: bool,
    /// What the check for placeholders on both sides of `RETURNING` found.
    pub duplicate_returning: Option<Fault>,
}

pub open spec fn is_mapping(p: Option<Payload>) -> bool {
    p matches Some(v) && v.kind == ContainerKind::Dict
}

/// Values were given by position.
pub open spec fn is_sequence_of_values(p: Option<Payload>) -> bool {
    p matches Some(v) && !v.is_none && v.len > 0 && v.kind != ContainerKind::Dict
}

impl<R> CursorModel<R> {
    /// The cursor once an execution named its statement.
    pub open spec fn with_request(
        self,
        statement: Option<String>,
        lobs: bool,
        decimals: bool,
    ) -> CursorModel<R> {
        CursorModel {
            prepared: self.prepared.with_statement(statement),
            options: FetchOptions { fetch_lobs: lobs, fetch_decimals: decimals, ..self.options },
            outcome: OutcomeModel { warning: None, ..self.outcome },
            ..self
        }
    }

    /// Input sizes and parameters are given in different ways.
    pub open spec fn mixes_binds(self, parameters: Option<Payload>) -> bool {
        (self.declared.positional && is_mapping(parameters)) || (self.declared.named
            && is_sequence_of_values(parameters))
    }

    /// The error that a request runs into before its parameters are looked at.
    pub open spec fn request_fault(self, request: ExecuteRequest) -> Option<FaultView> {
        let m = self.with_request(
            request.statement,
            request.default_lobs,
            request.default_decimals,
        );
        if request.is_arrow_stream {
            Some(FaultView::Named(ErrorName::WrongExecuteParametersType))
        } else if m.prepared.statement is None {
            Some(FaultView::Named(ErrorName::NoStatement))
        } else if request.duplicate_returning is Some {
            Some(request.duplicate_returning->0@)
        } else if self.mixes_binds(request.parameters) {
            Some(FaultView::Named(ErrorName::MixedPositionalAndNamedBinds))
        } else {
            None
        }
    }

    /// The cursor after a request was looked at. Input sizes that do not go with the parameters are
    /// forgotten, so that the next execution succeeds.
    pub open spec fn after_request(self, request: ExecuteRequest) -> CursorModel<R> {
        let m = self.with_request(
            request.statement,
            request.default_lobs,
            request.default_decimals,
        );
        if !request.is_arrow_stream && m.prepared.statement is Some
            && request.duplicate_returning is None && self.mixes_binds(request.parameters) {
            CursorModel { declared: m.declared.cleared(), ..m }
        } else {
            m
        }
    }
}

impl<R> CursorModel<R> {
    /// What looking at a request comes to.
    pub open spec fn request_answered(self, r: Result<(), Fault>, request: ExecuteRequest) -> bool {
        match self.request_fault(request) {
            Some(f) => r matches Err(e) && e@ == f,
            None => r is Ok,
        }
    }

    /// What looking at a request for a batch comes to.
    pub open spec fn batch_source(
        self,
        r: Result<BatchSource, Fault>,
        statement: Option<String>,
        iterations: Option<usize>,
        has_bind_names: bool,
    ) -> bool {
        let many = self.prepared.many_bind_rows;
        let reuse = statement is None && many > 0 && iterations is Some && has_bind_names
            && self.declared.sizes.len() == 0;
        if statement is None && self.prepared.statement is None {
            r matches Err(f) && f@ == FaultView::Named(ErrorName::NoStatement)
        } else if reuse && iterations->0 > many {
            r matches Err(f) && f@ == (FaultView::IncorrectVarArraysize {
                var_arraysize: clamp_rows(many),
                required_arraysize: clamp_rows(iterations->0),
            })
        } else if reuse {
            r == Ok::<BatchSource, Fault>(BatchSource::Reuse(iterations->0))
        } else {
            r == Ok::<BatchSource, Fault>(BatchSource::Rebind)
        }
    }

    /// The cursor once the binds of its statement are known.
    pub open spec fn binds_known(self, statement: String, bind_names: Seq<String>) -> CursorModel<
        R,
    > {
        CursorModel {
            prepared: PreparedModel {
                statement: Some(statement),
                bind_names,
                many_bind_rows: 0,
                ..self.prepared
            },
            ..self
        }
    }

    /// The cursor once the rows of its batch are bound.
    pub open spec fn batch_bound(self, bind_names: Seq<String>, rows: usize) -> CursorModel<R> {
        CursorModel {
            prepared: PreparedModel { bind_names, many_bind_rows: rows, ..self.prepared },
            ..self
        }
    }
}

/// How a batch gets its rows.
#[derive(Clone, Copy, PartialEq, Eq, Structural, Debug)]
pub enum BatchSource {
    /// So many of the rows that the last batch bound.
    Reuse(usize),
    /// The parameters.
    Rebind,
}

pub open spec fn clamp_rows(n: usize) -> u32 {
    if n > u32::MAX {
        u32::MAX
    } else {
        n as u32
    }
}

fn rows_u32(n: usize) -> (r: u32)
    ensures
        r == clamp_rows(n),
{
    if n > 0xffff_ffff {
        0xffff_ffff
    } else {
        n as u32
    }
}

impl<R> CursorState<R> {
    fn adopt_request(&mut self, statement: Option<String>, lobs: bool, decimals: bool)
        ensures
            final(self)@ == old(self)@.with_request(statement, lobs, decimals),
    {
        self.prepared.adopt_statement(statement);
        self.outcome.warning = None;
        self.options.fetch_lobs = lobs;
        self.options.fetch_decimals = decimals;
    }

    /// Looks at a request for an execution before its parameters are bound.
    pub fn prepare_for_execute(&mut self, request: ExecuteRequest) -> (r: Result<(), Fault>)
        ensures
            final(self)@ == old(self)@.after_request(request),
            old(self)@.request_answered(r, request),
    {
        self.adopt_request(
            request.statement,
            request.default_lobs,
            request.default_decimals,
        );
        if request.is_arrow_stream {
            return Err(Fault::Named(ErrorName::WrongExecuteParametersType));
        }
        if self.prepared.statement.is_none() {
            return Err(Fault::Named(ErrorName::NoStatement));
        }
        if let Some(f) = request.duplicate_returning {
            return Err(f);
        }
        let mapping = match request.parameters {
            Some(p) => p.kind == ContainerKind::Dict,
            None => false,
        };
        let sequence = match request.parameters {
            Some(p) => !p.is_none && p.len > 0 && p.kind != ContainerKind::Dict,
            None => false,
        };
        if (self.declared.positional && mapping) || (self.declared.named && sequence) {
            self.declared.clear_input_sizes_state();
            return Err(Fault::Named(ErrorName::MixedPositionalAndNamedBinds));
        }
        Ok(())
    }

    /// Takes over the statement that is executed, and its bind names, once its binds are known.
    pub fn finish_prepare_for_execute(&mut self, statement: String, bind_names: Vec<String>)
        ensures
            final(self)@ == old(self)@.binds_known(statement, bind_names@),
    {
        self.prepared.bind_names = bind_names;
        self.prepared.statement = Some(statement);
        self.prepared.many_bind_rows = 0;
    }

    /// Looks at a request for a batch. A batch that names no statement and gives a number of
    /// iterations binds the rows of the last batch again, if there are enough of them.
    pub fn prepare_for_executemany(
        &mut self,
        statement: Option<String>,
        default_lobs: bool,
        default_decimals: bool,
        iterations: Option<usize>,
        has_bind_names: bool,
    ) -> (r: Result<BatchSource, Fault>)
        ensures
            final(self)@ == old(self)@.with_request(statement, default_lobs, default_decimals),
            old(self)@.batch_source(r, statement, iterations, has_bind_names),
    {
        let supplied = statement.is_some();
        self.adopt_request(statement, default_lobs, default_decimals);
        if self.prepared.statement.is_none() {
            return Err(Fault::Named(ErrorName::NoStatement));
        }
        if !supplied && self.prepared.many_bind_rows > 0 {
            if let Some(n) = iterations {
                if has_bind_names && self.declared.sizes.len() == 0 {
                    if n > self.prepared.many_bind_rows {
                        return Err(
                            Fault::IncorrectVarArraysize {
                                var_arraysize: rows_u32(self.prepared.many_bind_rows),
                                required_arraysize: rows_u32(n),
                            },
                        );
                    }
                    return Ok(BatchSource::Reuse(n));
                }
            }
        }
        Ok(BatchSource::Rebind)
    }

    /// Takes over the bind names and the number of rows of a batch that was bound.
    pub fn finish_prepare_for_executemany(&mut self, bind_names: Vec<String>, rows: usize)
        ensures
            final(self)@ == old(self)@.batch_bound(bind_names@, rows),
    {
        self.prepared.bind_names = bind_names;
        self.prepared.many_bind_rows = rows;
    }
}

/// A value of a row of a batch whose column is a timestamp: a date keeps its fractional seconds.
pub open spec fn promoted(
    value: BindValue,
    is_timestamp: bool,
    fields: Option<DateTimeFields>,
) -> BindValue {
    if is_timestamp && !(value is Null) && fields is Some {
        BindValue::Timestamp { ora_type: OraType::Timestamp, fields: fields->0 }
    } else {
        value
    }
}

/// The parts of the date that a row was given at an index, if it was given one there.
pub open spec fn field_at(fields: Seq<Option<DateTimeFields>>, i: int) -> Option<DateTimeFields> {
    if i < fields.len() {
        fields[i]
    } else {
        None
    }
}

pub open spec fn row_promoted(
    before: Seq<BindValue>,
    after: Seq<BindValue>,
    columns: Seq<usize>,
    fields: Seq<Option<DateTimeFields>>,
) -> bool {
    &&& after.len() == before.len()
    &&& forall|i: int|
        0 <= i < before.len() ==> #[trigger] after[i] == promoted(
            before[i],
            columns.contains(i as usize),
            field_at(fields, i),
        )
}

/// Binds the dates of timestamp columns as timestamps. `fields` holds the parts of the dates among
/// the values that the row was given, which may be fewer than it binds.
pub fn promote_timestamp_bind_columns(
    row: &mut Vec<BindValue>,
    columns: &Vec<usize>,
    fields: &Vec<Option<DateTimeFields>>,
)
    ensures
        row_promoted(old(row)@, final(row)@, columns@, fields@),
{
    let ghost start = row@;
    let mut k: usize = 0;
    proof {
        assert(columns@.take(0) =~= Seq::<usize>::empty());
    }
    while k < columns.len()
        invariant
            k <= columns@.len(),
            row@.len() == start.len(),
            forall|i: int|
                0 <= i < start.len() ==> #[trigger] row@[i] == promoted(
                    start[i],
                    columns@.take(k as int).contains(i as usize),
                    field_at(fields@, i),
                ),
        decreases columns@.len() - k,
    {
        let index = columns[k];
        let ghost before = row@;
        if index < row.len() {
            let is_null = match &row[index] {
                BindValue::Null => true,
                _ => false,
            };
            if !is_null && index < fields.len() {
                if let Some(f) = fields[index] {
                    row.set(index, BindValue::Timestamp { ora_type: OraType::Timestamp, fields: f });
                }
            }
        }
        proof {
            let shorter = columns@.take(k as int);
            let longer = columns@.take(k + 1);
            assert(longer =~= shorter.push(index));
            assert forall|i: int| 0 <= i < start.len() implies #[trigger] row@[i] == promoted(
                start[i],
                longer.contains(i as usize),
                field_at(fields@, i),
            ) by {
                assert(before[i] == promoted(
                    start[i],
                    shorter.contains(i as usize),
                    field_at(fields@, i),
                ));
                if i as usize == index {
                    assert(longer[k as int] == index);
                    assert(longer.contains(i as usize));
                } else {
                    if longer.contains(i as usize) {
                        let j = choose|j: int| 0 <= j < longer.len() && longer[j] == i as usize;
                        assert(shorter[j] == i as usize);
                        assert(shorter.contains(i as usize));
                    }
                    if shorter.contains(i as usize) {
                        let j = choose|j: int| 0 <= j < shorter.len() && shorter[j] == i as usize;
                        assert(longer[j] == i as usize);
                    }
                }
            }
        }
        k = k + 1;
    }
    proof {
        assert(columns@.take(columns@.len() as int) =~= columns@);
    }
}

/// Binding is refused exactly where one of the values is a cursor that executes the statement, was
/// closed or belongs to another connection. The first such value decides, keyword parameters last.
pub proof fn law_bound_cursors_are_usable(
    r: Result<(), Fault>,
    parameters: Seq<CursorBind>,
    keywords: Seq<CursorBind>,
    i: int,
)
    requires
        cursor_binds_checked(r, parameters, keywords),
    ensures
        r is Ok && 0 <= i < parameters.len() ==> parameters[i] == CursorBind::Other
            || parameters[i] == CursorBind::SameConnection,
        r is Ok && 0 <= i < keywords.len() ==> keywords[i] == CursorBind::Other || keywords[i]
            == CursorBind::SameConnection,
        r matches Err(f) ==> (exists|k: int|
            0 <= k < parameters.len() && #[trigger] cursor_fault(parameters, k) == Some(f@)) || (
        exists|k: int|
            0 <= k < keywords.len() && #[trigger] cursor_fault(keywords, k) == Some(f@)),
{
    lemma_first_cursor_error(parameters, 0, i);
    lemma_first_cursor_error(keywords, 0, i);
    if r is Err {
        if first_cursor_error(parameters, 0) is Some {
            let k = choose|k: int|
                0 <= k < parameters.len() && cursor_bind_error(#[trigger] parameters[k])
                    == first_cursor_error(parameters, 0);
            assert(cursor_fault(parameters, k) == Some(r->Err_0@));
        } else {
            let k = choose|k: int|
                0 <= k < keywords.len() && cursor_bind_error(#[trigger] keywords[k])
                    == first_cursor_error(keywords, 0);
            assert(cursor_fault(keywords, k) == Some(r->Err_0@));
        }
    }
}

/// What is wrong with a bound value.
pub open spec fn cursor_fault(values: Seq<CursorBind>, k: int) -> Option<FaultView> {
    match values[k] {
        CursorBind::Executing => Some(FaultView::Named(ErrorName::SelfBindNotSupported)),
        CursorBind::NotOpen => Some(FaultView::Named(ErrorName::CursorNotOpen)),
        CursorBind::OtherConnection => Some(FaultView::Named(ErrorName::CursorDiffConnection)),
        CursorBind::Other => None,
        CursorBind::SameConnection => None,
    }
}

proof fn lemma_first_cursor_error(values: Seq<CursorBind>, from: int, i: int)
    requires
        0 <= from,
    ensures
        match first_cursor_error(values, from) {
            Some(e) => exists|k: int|
                from <= k < values.len() && cursor_bind_error(#[trigger] values[k]) == Some(e),
            None => from <= i < values.len() ==> cursor_bind_error(values[i]) is None,
        },
    decreases values.len() - from,
{
    if from < values.len() {
        if cursor_bind_error(values[from]) is Some {
            assert(cursor_bind_error(values[from]) == first_cursor_error(values, from));
        } else {
            lemma_first_cursor_error(values, from + 1, i);
        }
    }
}

/// Sizes that are declared by position stand under their position, counted from one, each in its
/// place; one that declares nothing leaves its place to the value.
pub proof fn law_positional_sizes_count_from_one(
    d: DeclaredModel,
    after: DeclaredModel,
    r: Result<(), Fault>,
    args: Seq<SizeArgument>,
    kwargs: Seq<SizeArgument>,
    i: int,
)
    requires
        d.sizes_declared(after, r, args, kwargs),
        kwargs.len() == 0,
        0 <= i < args.len(),
    ensures
        r is Ok,
        after.positional && !after.named,
        after.sizes.len() == args.len(),
        after.sizes[i].key@ == nat_text((i + 1) as nat),
        after.sizes[i].is_var <==> !args[i].is_none,
{
    assert(size_views(after.sizes).len() == args.len());
    assert(size_views(after.sizes)[i] == size_view(after.sizes[i]));
}

/// Sizes that are declared by name stand under their keyword: each that declares something is there
/// once, in order, and no other is.
pub proof fn law_named_sizes_keep_their_names(
    d: DeclaredModel,
    after: DeclaredModel,
    r: Result<(), Fault>,
    args: Seq<SizeArgument>,
    kwargs: Seq<SizeArgument>,
)
    requires
        d.sizes_declared(after, r, args, kwargs),
        args.len() == 0,
        kwargs.len() > 0,
    ensures
        r is Ok,
        after.named && !after.positional,
        size_views(after.sizes) == kwargs.filter(|a: SizeArgument| !a.is_none).map_values(
            |a: SizeArgument| (a.key@, true),
        ),
{
    lemma_keyword_sizes(kwargs, kwargs.len() as int);
    assert(kwargs.take(kwargs.len() as int) =~= kwargs);
}

proof fn lemma_keyword_sizes(args: Seq<SizeArgument>, n: int)
    requires
        0 <= n <= args.len(),
    ensures
        keyword_sizes(args, n) == args.take(n).filter(|a: SizeArgument| !a.is_none).map_values(
            |a: SizeArgument| (a.key@, true),
        ),
    decreases n,
{
    let given = |a: SizeArgument| !a.is_none;
    let shown = |a: SizeArgument| (a.key@, true);
    reveal(Seq::filter);
    if n > 0 {
        lemma_keyword_sizes(args, n - 1);
        assert(args.take(n).drop_last() =~= args.take(n - 1));
        assert(args.take(n).last() == args[n - 1]);
        let before = args.take(n - 1).filter(given);
        if given(args[n - 1]) {
            assert(args.take(n).filter(given) == before.push(args[n - 1]));
            assert(before.push(args[n - 1]).map_values(shown) =~= before.map_values(shown).push(
                shown(args[n - 1]),
            ));
        }
        assert(keyword_sizes(args, n) =~= args.take(n).filter(given).map_values(shown));
    } else {
        assert(args.take(0).filter(given).map_values(shown) =~= Seq::empty());
    }
}

/// Sizes are declared one way only.
pub proof fn law_sizes_are_declared_one_way(
    d: DeclaredModel,
    after: DeclaredModel,
    r: Result<(), Fault>,
    args: Seq<SizeArgument>,
    kwargs: Seq<SizeArgument>,
)
    requires
        d.sizes_declared(after, r, args, kwargs),
    ensures
        r is Err <==> args.len() > 0 && kwargs.len() > 0,
        r matches Err(f) ==> f@ == FaultView::Named(ErrorName::ArgsAndKeywordArgs) && after == d,
        args.len() == 0 && kwargs.len() == 0 ==> after.sizes.len() == 0,
{
    if args.len() == 0 && kwargs.len() == 0 {
        assert(size_views(after.sizes).len() == 0);
    }
}

/// An execution goes ahead exactly where there is a statement, the parameters are no stream of Arrow
/// data, no placeholder stands on both sides of `RETURNING`, and sizes that were declared go with
/// the way in which the values are given.
pub proof fn law_execution_goes_ahead<R>(
    m: CursorModel<R>,
    r: Result<(), Fault>,
    request: ExecuteRequest,
)
    requires
        m.request_answered(r, request),
    ensures
        ({
            let dictionary = request.parameters matches Some(p) && p.kind == ContainerKind::Dict;
            let sequence = request.parameters matches Some(p) && !p.is_none && p.len > 0 && p.kind
                != ContainerKind::Dict;
            &&& r is Ok <==> {
                &&& !request.is_arrow_stream
                &&& request.statement is Some || m.prepared.statement is Some
                &&& request.duplicate_returning is None
                &&& !(m.declared.positional && dictionary)
                &&& !(m.declared.named && sequence)
            }
            &&& request.is_arrow_stream ==> (r matches Err(f) && f@ == FaultView::Named(
                ErrorName::WrongExecuteParametersType,
            ))
            &&& !request.is_arrow_stream && request.statement is None && m.prepared.statement
                is None ==> (r matches Err(f) && f@ == FaultView::Named(ErrorName::NoStatement))
        }),
{
}

/// A request sets the statement that it names, drops the last warning and takes the defaults. Sizes
/// that do not go with its values are forgotten; rows and columns stay.
pub proof fn law_request_takes_the_statement<R>(m: CursorModel<R>, request: ExecuteRequest)
    ensures
        ({
            let after = m.after_request(request);
            &&& request.statement is Some ==> after.prepared.statement == request.statement
            &&& request.statement is None ==> after.prepared.statement == m.prepared.statement
            &&& after.outcome.warning is None
            &&& after.options.fetch_lobs == request.default_lobs
            &&& after.options.fetch_decimals == request.default_decimals
            &&& after.options.arraysize == m.options.arraysize
            &&& after.buffer == m.buffer && after.defines == m.defines
            &&& after.declared != m.declared ==> after.declared.sizes.len() == 0
                && !after.declared.positional && !after.declared.named
        }),
{
}

/// A batch binds the rows of the last batch again only where it names no statement, gives a number
/// of iterations and no sizes were declared since; then exactly so many of them, which have to be
/// there.
pub proof fn law_rows_are_bound_again<R>(
    m: CursorModel<R>,
    r: Result<BatchSource, Fault>,
    statement: Option<String>,
    iterations: Option<usize>,
    has_bind_names: bool,
)
    requires
        m.batch_source(r, statement, iterations, has_bind_names),
    ensures
        r matches Ok(BatchSource::Reuse(n)) ==> statement is None && iterations == Some(n) && n
            <= m.prepared.many_bind_rows && has_bind_names && m.declared.sizes.len() == 0,
        statement is Some ==> r == Ok::<BatchSource, Fault>(BatchSource::Rebind),
        iterations is None && (statement is Some || m.prepared.statement is Some) ==> r == Ok::<
            BatchSource,
            Fault,
        >(BatchSource::Rebind),
        statement is None && m.prepared.statement is Some && iterations is Some && has_bind_names
            && m.declared.sizes.len() == 0 && 0 < iterations->0 <= m.prepared.many_bind_rows
            ==> r == Ok::<BatchSource, Fault>(BatchSource::Reuse(iterations->0)),
        statement is None && m.prepared.statement is None ==> (r matches Err(f) && f@
            == FaultView::Named(ErrorName::NoStatement)),
        r is Err && m.prepared.statement is Some ==> iterations is Some && iterations->0
            > m.prepared.many_bind_rows,
{
}

/// What was bound is remembered: the statement with its names and no batch, or the batch with its
/// names and as many rows as it has. The rest of the cursor stays.
pub proof fn law_what_was_bound_is_remembered<R>(
    m: CursorModel<R>,
    statement: String,
    names: Seq<String>,
    rows: usize,
)
    ensures
        m.binds_known(statement, names).prepared.statement == Some(statement),
        m.binds_known(statement, names).prepared.bind_names == names,
        m.binds_known(statement, names).prepared.many_bind_rows == 0,
        m.batch_bound(names, rows).prepared.bind_names == names,
        m.batch_bound(names, rows).prepared.many_bind_rows == rows,
        m.batch_bound(names, rows).prepared.statement == m.prepared.statement,
        m.binds_known(statement, names).buffer == m.buffer && m.batch_bound(names, rows).buffer
            == m.buffer,
        m.binds_known(statement, names).declared == m.declared && m.batch_bound(
            names,
            rows,
        ).declared == m.declared,
{
}

/// A date of a timestamp column is bound as a timestamp with its own fields. Nulls, values that are
/// no dates and values of other columns stay.
pub proof fn law_dates_of_timestamp_columns(
    value: BindValue,
    is_timestamp: bool,
    fields: Option<DateTimeFields>,
)
    ensures
        is_timestamp && !(value is Null) && fields is Some ==> (promoted(
            value,
            is_timestamp,
            fields,
        ) matches BindValue::Timestamp { ora_type, fields: f } && f == fields->0 && ora_type
            == OraType::Timestamp),
        !is_timestamp || value is Null || fields is None ==> promoted(value, is_timestamp, fields)
            == value,
{
}

/// In a row exactly the dates that were given in timestamp columns become timestamps, each with its
/// own fields and in its place.
pub proof fn law_row_keeps_its_places(
    before: Seq<BindValue>,
    after: Seq<BindValue>,
    columns: Seq<usize>,
    fields: Seq<Option<DateTimeFields>>,
    i: int,
)
    requires
        row_promoted(before, after, columns, fields),
        0 <= i < before.len() <= usize::MAX,
    ensures
        after.len() == before.len(),
        !columns.contains(i as usize) || before[i] is Null || i >= fields.len() || fields[i] is None
            ==> after[i] == before[i],
        columns.contains(i as usize) && !(before[i] is Null) && i < fields.len() ==> (
        fields[i] matches Some(f) ==> (after[i] matches BindValue::Timestamp { ora_type, fields: g }
            && g == f && ora_type == OraType::Timestamp)),
{
    assert(after[i] == after[i]);
}

} // verus!
