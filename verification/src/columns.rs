//! The columns of a result set, and how they are defined for fetching.
use vstd::prelude::*;

use crate::errors::{ErrorName, Fault};
#[allow(unused_imports)]
use crate::errors::FaultView;
use crate::text::{same_text, to_upper};
#[allow(unused_imports)]
use crate::text::upper;
use crate::value::{CsForm, OraType};

verus! {

/// What is known of a column of a result set.
pub struct ColumnMetadata {
    pub name: String,
    pub ora_type: OraType,
    pub csfrm: CsForm,
    pub is_json: bool,
    /// The column holds binary JSON.
    pub is_oson: bool,
    pub buffer_size: u32,
    pub max_size: u32,
}

impl ColumnMetadata {
    pub fn duplicate(&self) -> (r: ColumnMetadata)
        ensures
            r == *self,
    {
        ColumnMetadata {
            name: self.name.clone(),
            ora_type: self.ora_type,
            csfrm: self.csfrm,
            is_json: self.is_json,
            is_oson: self.is_oson,
            buffer_size: self.buffer_size,
            max_size: self.max_size,
        }
    }

    /// Binary JSON that is stored in a LOB and not in a JSON column.
    pub open spec fn is_oson_lob(self) -> bool {
        self.is_oson && self.ora_type != OraType::Json
    }

    pub open spec fn is_lob(self) -> bool {
        self.ora_type == OraType::Clob || self.ora_type == OraType::Blob
    }

    pub fn oson_lob(&self) -> (r: bool)
        ensures
            r == self.is_oson_lob(),
    {
        self.is_oson && self.ora_type != OraType::Json
    }

    pub fn lob(&self) -> (r: bool)
        ensures
            r == self.is_lob(),
    {
        self.ora_type == OraType::Clob || self.ora_type == OraType::Blob
    }

    /// The rows of a result set with such a column do not come with its execution: they follow a
    /// define.
    pub open spec fn defers_rows(self) -> bool {
        self.is_lob() || self.ora_type == OraType::Json || self.ora_type == OraType::Vector
    }

    pub fn deferred(&self) -> (r: bool)
        ensures
            r == self.defers_rows(),
    {
        self.lob() || self.ora_type == OraType::Json || self.ora_type == OraType::Vector
    }

    /// The column as it is defined for fetching: binary JSON in a LOB comes inline as raw bytes of
    /// the largest size that the protocol has.
    pub open spec fn fetch_define(self, max_long: u32) -> ColumnMetadata {
        if self.is_oson_lob() {
            ColumnMetadata {
                ora_type: OraType::LongRaw,
                csfrm: CsForm::Unset,
                buffer_size: max_long,
                max_size: max_long,
                ..self
            }
        } else {
            self
        }
    }

    fn to_fetch_define(&self, max_long: u32) -> (r: ColumnMetadata)
        ensures
            r == self.fetch_define(max_long),
    {
        let mut r = self.duplicate();
        if self.oson_lob() {
            r.ora_type = OraType::LongRaw;
            r.csfrm = CsForm::Unset;
            r.buffer_size = max_long;
            r.max_size = max_long;
        }
        r
    }
}

pub fn duplicate_columns(columns: &Vec<ColumnMetadata>) -> (r: Vec<ColumnMetadata>)
    ensures
        r@ == columns@,
{
    let mut r: Vec<ColumnMetadata> = Vec::new();
    let mut i: usize = 0;
    while i < columns.len()
        invariant
            i <= columns@.len(),
            r@ == columns@.take(i as int),
        decreases columns@.len() - i,
    {
        r.push(columns[i].duplicate());
        proof {
            assert(r@ =~= columns@.take(i + 1));
        }
        i = i + 1;
    }
    proof {
        assert(columns@.take(columns@.len() as int) =~= columns@);
    }
    r
}

/// A column of LOBs, JSON values or vectors has to be defined before the rows are fetched.
pub open spec fn require_define(columns: Seq<ColumnMetadata>) -> bool {
    exists|i: int| 0 <= i < columns.len() && (#[trigger] columns[i]).defers_rows()
}

pub open spec fn has_vector(columns: Seq<ColumnMetadata>) -> bool {
    exists|i: int| 0 <= i < columns.len() && (#[trigger] columns[i]).ora_type == OraType::Vector
}

pub open spec fn has_oson_lob(columns: Seq<ColumnMetadata>) -> bool {
    exists|i: int| 0 <= i < columns.len() && (#[trigger] columns[i]).is_oson_lob()
}

pub fn columns_require_define(columns: &Vec<ColumnMetadata>) -> (r: bool)
    ensures
        r == require_define(columns@),
{
    let mut i: usize = 0;
    while i < columns.len()
        invariant
            i <= columns@.len(),
            forall|j: int| 0 <= j < i ==> !(#[trigger] columns@[j]).defers_rows(),
        decreases columns@.len() - i,
    {
        if columns[i].deferred() {
            proof {
                assert(columns@[i as int].defers_rows());
            }
            return true;
        }
        i = i + 1;
    }
    false
}

pub fn columns_have_vector(columns: &Vec<ColumnMetadata>) -> (r: bool)
    ensures
        r == has_vector(columns@),
{
    let mut i: usize = 0;
    while i < columns.len()
        invariant
            i <= columns@.len(),
            forall|j: int| 0 <= j < i ==> (#[trigger] columns@[j]).ora_type != OraType::Vector,
        decreases columns@.len() - i,
    {
        if columns[i].ora_type == OraType::Vector {
            proof {
                assert(columns@[i as int].ora_type == OraType::Vector);
            }
            return true;
        }
        i = i + 1;
    }
    false
}

/// A LOB column that may hold JSON as text, which its description does not say.
pub open spec fn is_json_candidate(c: ColumnMetadata) -> bool {
    !c.is_json && c.is_lob() && c.name@.len() > 0
}

/// The columns to look up in the catalogue of JSON columns: index and name in upper case, in order.
pub open spec fn json_candidates(columns: Seq<ColumnMetadata>, n: int) -> Seq<(usize, Seq<char>)>
    decreases n,
{
    if n <= 0 {
        Seq::empty()
    } else if is_json_candidate(columns[n - 1]) {
        json_candidates(columns, n - 1).push(((n - 1) as usize, upper(columns[n - 1].name@)))
    } else {
        json_candidates(columns, n - 1)
    }
}

pub struct JsonCandidate {
    pub index: usize,
    pub name: String,
}

pub open spec fn candidate_views(c: Seq<JsonCandidate>) -> Seq<(usize, Seq<char>)> {
    c.map_values(|x: JsonCandidate| (x.index, x.name@))
}

/// Finds the columns to look up in the catalogue of JSON columns.
pub fn json_lob_candidates(columns: &Vec<ColumnMetadata>) -> (r: Vec<JsonCandidate>)
    ensures
        candidate_views(r@) == json_candidates(columns@, columns@.len() as int),
        forall|i: int| 0 <= i < r@.len() ==> (#[trigger] r@[i]).index < columns@.len(),
{
    let mut r: Vec<JsonCandidate> = Vec::new();
    let mut i: usize = 0;
    proof {
        assert(candidate_views(r@) =~= json_candidates(columns@, 0));
    }
    while i < columns.len()
        invariant
            i <= columns@.len(),
            candidate_views(r@) == json_candidates(columns@, i as int),
            forall|j: int| 0 <= j < r@.len() ==> (#[trigger] r@[j]).index < i,
        decreases columns@.len() - i,
    {
        let c = &columns[i];
        if !c.is_json && c.lob() && !c.name.as_str().is_empty() {
            let name = to_upper(c.name.as_str());
            let ghost before = r@;
            r.push(JsonCandidate { index: i, name });
            proof {
                assert(candidate_views(r@) =~= candidate_views(before).push(
                    (i, upper(columns@[i as int].name@)),
                ));
            }
        }
        i = i + 1;
    }
    r
}

pub open spec fn with_json(columns: Seq<ColumnMetadata>, index: int) -> Seq<ColumnMetadata> {
    columns.update(index, ColumnMetadata { is_json: true, ..columns[index] })
}

/// Marks a column that the catalogue lists as JSON.
pub fn mark_json_column(columns: &mut Vec<ColumnMetadata>, index: usize)
    requires
        index < old(columns)@.len(),
    ensures
        final(columns)@ == with_json(old(columns)@, index as int),
{
    let mut c = columns[index].duplicate();
    c.is_json = true;
    columns.set(index, c);
}

/// The columns of a cursor and their defines.
pub struct Defines {
    pub columns: Vec<ColumnMetadata>,
    /// For each column, whether an output type handler gave a variable for it.
    pub fetch_vars: Vec<bool>,
    pub define_columns: Vec<ColumnMetadata>,
    pub requires_define: bool,
}

pub ghost struct DefinesModel {
    pub columns: Seq<ColumnMetadata>,
    pub fetch_vars: Seq<bool>,
    pub define_columns: Seq<ColumnMetadata>,
    pub requires_define: bool,
}

impl View for Defines {
    type V = DefinesModel;

    open spec fn view(&self) -> DefinesModel {
        DefinesModel {
            columns: self.columns@,
            fetch_vars: self.fetch_vars@,
            define_columns: self.define_columns@,
            requires_define: self.requires_define,
        }
    }
}

/// A column as the driver defines it for another type, and whether that differs from the column.
pub struct DefineConversion {
    pub column: ColumnMetadata,
    pub differs: bool,
}

/// What an output type handler gave for a column.
pub enum HandlerResult {
    /// Nothing: the column is fetched as it is.
    Default,
    /// Something that is no variable.
    NotAVariable,
    /// A variable. `conversion` is the column as the driver defines it for the variable's type, if
    /// it can.
    Variable {
        num_elements: u32,
        dbtype_name: String,
        conversion: Option<DefineConversion>,
    },
}

impl DefinesModel {
    pub open spec fn reset(self) -> DefinesModel {
        DefinesModel {
            fetch_vars: Seq::empty(),
            define_columns: Seq::empty(),
            requires_define: false,
            ..self
        }
    }

    /// There is nothing to prepare: the defines were prepared, or there are no columns.
    pub open spec fn is_prepared(self) -> bool {
        self.define_columns.len() > 0 || self.columns.len() == 0
    }

    /// The defines before any output type handler is asked.
    pub open spec fn prepared(self, max_long: u32) -> DefinesModel {
        if self.is_prepared() {
            self
        } else {
            DefinesModel {
                fetch_vars: Seq::new(self.columns.len(), |i: int| false),
                define_columns: self.columns.map_values(
                    |c: ColumnMetadata| c.fetch_define(max_long),
                ),
                requires_define: self.requires_define || has_oson_lob(self.columns),
                ..self
            }
        }
    }

    /// The error that a handler's variable gives rise to.
    pub open spec fn handler_fault(
        self,
        arraysize: u32,
        fetch_dbtype: Seq<char>,
        result: HandlerResult,
    ) -> Option<FaultView> {
        match result {
            HandlerResult::Default => None,
            HandlerResult::NotAVariable => Some(FaultView::Named(ErrorName::ExpectingVar)),
            HandlerResult::Variable { num_elements, dbtype_name, conversion } => if arraysize
                > num_elements {
                Some(
                    FaultView::IncorrectVarArraysize {
                        var_arraysize: num_elements,
                        required_arraysize: arraysize,
                    },
                )
            } else if dbtype_name@ != fetch_dbtype && conversion is None {
                Some(
                    FaultView::InconsistentDatatypes {
                        input_type: fetch_dbtype,
                        output_type: dbtype_name@,
                    },
                )
            } else {
                None
            },
        }
    }

    /// Whether a handler's variable changes how the column is defined.
    pub open spec fn handler_changes(self, fetch_dbtype: Seq<char>, result: HandlerResult) -> bool {
        match result {
            HandlerResult::Variable { num_elements, dbtype_name, conversion } => dbtype_name@
                != fetch_dbtype && conversion is Some && conversion->0.differs,
            _ => false,
        }
    }

    /// The defines after a handler gave a variable for column `index`.
    pub open spec fn with_handler(
        self,
        index: int,
        fetch_dbtype: Seq<char>,
        result: HandlerResult,
    ) -> DefinesModel {
        match result {
            HandlerResult::Variable { num_elements, dbtype_name, conversion } => DefinesModel {
                fetch_vars: self.fetch_vars.update(index, true),
                define_columns: if dbtype_name@ != fetch_dbtype && conversion is Some {
                    self.define_columns.update(index, conversion->0.column)
                } else {
                    self.define_columns
                },
                requires_define: self.requires_define || self.handler_changes(
                    fetch_dbtype,
                    result,
                ),
                ..self
            },
            _ => self,
        }
    }
}

impl DefinesModel {
    /// What taking over the answer of a handler comes to.
    pub open spec fn handler_outcome(
        self,
        after: DefinesModel,
        r: Result<bool, Fault>,
        index: int,
        arraysize: u32,
        fetch_dbtype: Seq<char>,
        result: HandlerResult,
    ) -> bool {
        match self.handler_fault(arraysize, fetch_dbtype, result) {
            Some(f) => (r matches Err(e) && e@ == f) && after == self,
            None => r == Ok::<bool, Fault>(self.handler_changes(fetch_dbtype, result)) && after
                == self.with_handler(index, fetch_dbtype, result),
        }
    }
}

impl Defines {
    pub fn empty() -> (r: Defines)
        ensures
            r@ == (DefinesModel {
                columns: Seq::empty(),
                fetch_vars: Seq::empty(),
                define_columns: Seq::empty(),
                requires_define: false,
            }),
    {
        Defines {
            columns: Vec::new(),
            fetch_vars: Vec::new(),
            define_columns: Vec::new(),
            requires_define: false,
        }
    }

    pub fn reset_fetch_define_state(&mut self)
        ensures
            final(self)@ == old(self)@.reset(),
    {
        self.fetch_vars = Vec::new();
        self.define_columns = Vec::new();
        self.requires_define = false;
    }

    /// Whether a column holds binary JSON in a LOB, which was defined to come inline.
    pub fn is_oson_lob_column(&self, index: usize) -> (r: bool)
        ensures
            r == (index < self.define_columns@.len()
                && self.define_columns@[index as int].is_oson_lob()),
    {
        index < self.define_columns.len() && self.define_columns[index].oson_lob()
    }

    /// Prepares the defines of the columns, unless that was done. Says whether output type handlers
    /// are to be asked about the columns.
    pub fn begin_fetch_defines(&mut self, max_long: u32) -> (r: bool)
        ensures
            final(self)@ == old(self)@.prepared(max_long),
            r == !old(self)@.is_prepared(),
    {
        if self.define_columns.len() > 0 || self.columns.len() == 0 {
            return false;
        }
        let mut vars: Vec<bool> = Vec::new();
        let mut defines: Vec<ColumnMetadata> = Vec::new();
        let mut oson = false;
        let mut i: usize = 0;
        while i < self.columns.len()
            invariant
                *self == *old(self),
                i <= self.columns@.len(),
                vars@ == Seq::new(i as nat, |j: int| false),
                defines@.len() == i,
                forall|j: int|
                    0 <= j < i ==> #[trigger] defines@[j] == self.columns@[j].fetch_define(
                        max_long,
                    ),
                oson == exists|j: int| 0 <= j < i && (#[trigger] self.columns@[j]).is_oson_lob(),
            decreases self.columns@.len() - i,
        {
            if self.columns[i].oson_lob() {
                proof {
                    assert(self.columns@[i as int].is_oson_lob());
                }
                oson = true;
            }
            defines.push(self.columns[i].to_fetch_define(max_long));
            vars.push(false);
            proof {
                assert(vars@ =~= Seq::new((i + 1) as nat, |j: int| false));
            }
            i = i + 1;
        }
        proof {
            assert(defines@ =~= self.columns@.map_values(
                |c: ColumnMetadata| c.fetch_define(max_long),
            ));
        }
        self.fetch_vars = vars;
        self.define_columns = defines;
        if oson {
            self.requires_define = true;
        }
        true
    }

    /// Takes over what an output type handler gave for a column. Says whether the column is now
    /// defined otherwise than it was fetched before.
    pub fn adopt_handler_result(
        &mut self,
        index: usize,
        arraysize: u32,
        fetch_dbtype: &str,
        result: HandlerResult,
    ) -> (r: Result<bool, Fault>)
        requires
            index < old(self)@.columns.len(),
            old(self)@.fetch_vars.len() == old(self)@.columns.len(),
            old(self)@.define_columns.len() == old(self)@.columns.len(),
        ensures
            old(self)@.handler_outcome(
                final(self)@,
                r,
                index as int,
                arraysize,
                fetch_dbtype@,
                result,
            ),
    {
        match result {
            HandlerResult::Default => Ok(false),
            HandlerResult::NotAVariable => Err(Fault::Named(ErrorName::ExpectingVar)),
            HandlerResult::Variable { num_elements, dbtype_name, conversion } => {
                if arraysize > num_elements {
                    return Err(
                        Fault::IncorrectVarArraysize {
                            var_arraysize: num_elements,
                            required_arraysize: arraysize,
                        },
                    );
                }
                let mut changed = false;
                if !same_text(dbtype_name.as_str(), fetch_dbtype) {
                    match conversion {
                        None => {
                            return Err(
                                Fault::InconsistentDatatypes {
                                    input_type: crate::text::owned(fetch_dbtype),
                                    output_type: dbtype_name,
                                },
                            );
                        },
                        Some(define) => {
                            if define.differs {
                                self.requires_define = true;
                                changed = true;
                            }
                            self.define_columns.set(index, define.column);
                        },
                    }
                }
                self.fetch_vars.set(index, true);
                Ok(changed)
            },
        }
    }
}

/// What output type handlers give leaves a define that is due to be made.
pub proof fn law_handlers_keep_define(
    d: DefinesModel,
    index: int,
    fetch_dbtype: Seq<char>,
    result: HandlerResult,
)
    requires
        d.requires_define,
    ensures
        d.with_handler(index, fetch_dbtype, result).requires_define,
{
}

/// A result set is fetched with a define exactly where one of its columns holds character or
/// binary LOBs, JSON values or vectors.
pub proof fn law_columns_that_defer_rows(columns: Seq<ColumnMetadata>)
    ensures
        require_define(columns) <==> exists|i: int|
            0 <= i < columns.len() && {
                ||| (#[trigger] columns[i]).ora_type == OraType::Clob
                ||| columns[i].ora_type == OraType::Blob
                ||| columns[i].ora_type == OraType::Json
                ||| columns[i].ora_type == OraType::Vector
            },
        has_vector(columns) ==> require_define(columns),
{
    if require_define(columns) {
        let i = choose|i: int| 0 <= i < columns.len() && (#[trigger] columns[i]).defers_rows();
        assert(columns[i].ora_type == OraType::Clob || columns[i].ora_type == OraType::Blob
            || columns[i].ora_type == OraType::Json || columns[i].ora_type == OraType::Vector);
    }
    if exists|i: int|
        0 <= i < columns.len() && {
            ||| (#[trigger] columns[i]).ora_type == OraType::Clob
            ||| columns[i].ora_type == OraType::Blob
            ||| columns[i].ora_type == OraType::Json
            ||| columns[i].ora_type == OraType::Vector
        } {
        let i = choose|i: int|
            0 <= i < columns.len() && {
                ||| (#[trigger] columns[i]).ora_type == OraType::Clob
                ||| columns[i].ora_type == OraType::Blob
                ||| columns[i].ora_type == OraType::Json
                ||| columns[i].ora_type == OraType::Vector
            };
        assert(columns[i].defers_rows());
    }
    if has_vector(columns) {
        let i = choose|i: int|
            0 <= i < columns.len() && (#[trigger] columns[i]).ora_type == OraType::Vector;
        assert(columns[i].defers_rows());
    }
}

/// The columns that are looked up are exactly the LOB columns with a name that are not known to
/// hold JSON. Each is looked up once, in order, by its index and its name.
pub proof fn law_json_lookups(columns: Seq<ColumnMetadata>, n: int, i: int)
    requires
        0 <= n <= columns.len() <= usize::MAX,
        0 <= i < n,
    ensures
        ({
            let found = json_candidates(columns, n);
            &&& forall|k: int|
                0 <= k < found.len() ==> {
                    let index = (#[trigger] found[k]).0 as int;
                    &&& 0 <= index < n
                    &&& columns[index].ora_type == OraType::Clob || columns[index].ora_type
                        == OraType::Blob
                    &&& !columns[index].is_json && columns[index].name@.len() > 0
                    &&& found[k].1 == upper(columns[index].name@)
                }
            &&& forall|k: int, l: int|
                0 <= k < l < found.len() ==> (#[trigger] found[k]).0 < (#[trigger] found[l]).0
            &&& (columns[i].ora_type == OraType::Clob || columns[i].ora_type == OraType::Blob)
                && !columns[i].is_json && columns[i].name@.len() > 0 ==> exists|k: int|
                0 <= k < found.len() && (#[trigger] found[k]).0 == i
        }),
    decreases n,
{
    let found = json_candidates(columns, n);
    if n - 1 > 0 {
        let before = json_candidates(columns, n - 1);
        let j = if i < n - 1 {
            i
        } else {
            0
        };
        law_json_lookups(columns, n - 1, j);
        if i < n - 1 && (columns[i].ora_type == OraType::Clob || columns[i].ora_type
            == OraType::Blob) && !columns[i].is_json && columns[i].name@.len() > 0 {
            let k = choose|k: int| 0 <= k < before.len() && (#[trigger] before[k]).0 == i;
            assert(found[k].0 == i);
        }
    } else {
        assert(json_candidates(columns, 0).len() == 0);
    }
    if i == n - 1 && is_json_candidate(columns[i]) {
        assert(found[found.len() - 1].0 == i);
    }
}

/// The defines follow the columns one by one. Each is that of its column, but that binary JSON in
/// a LOB comes as raw bytes of the largest size; such a column alone asks for a define. No column
/// has a variable of a handler yet, and defines that were prepared stay.
pub proof fn law_defines_follow_columns(d: DefinesModel, max_long: u32, i: int)
    requires
        0 <= i < d.columns.len(),
        d.define_columns.len() == 0,
    ensures
        ({
            let p = d.prepared(max_long);
            &&& p.columns == d.columns
            &&& p.define_columns.len() == d.columns.len() && p.fetch_vars.len()
                == d.columns.len()
            &&& !p.fetch_vars[i]
            &&& p.define_columns[i].name == d.columns[i].name
            &&& d.columns[i].is_oson && d.columns[i].ora_type != OraType::Json ==> {
                &&& p.define_columns[i].ora_type == OraType::LongRaw
                &&& p.define_columns[i].buffer_size == max_long
                &&& p.define_columns[i].max_size == max_long
                &&& p.requires_define
            }
            &&& !d.columns[i].is_oson || d.columns[i].ora_type == OraType::Json
                ==> p.define_columns[i] == d.columns[i]
            &&& d.requires_define ==> p.requires_define
            &&& p.requires_define && !d.requires_define ==> exists|j: int|
                0 <= j < d.columns.len() && (#[trigger] d.columns[j]).is_oson
                    && d.columns[j].ora_type != OraType::Json
            &&& p.prepared(max_long) == p
        }),
{
    if d.columns[i].is_oson && d.columns[i].ora_type != OraType::Json {
        assert(d.columns[i].is_oson_lob());
    }
    if has_oson_lob(d.columns) {
        let j = choose|j: int|
            0 <= j < d.columns.len() && (#[trigger] d.columns[j]).is_oson_lob();
        assert(d.columns[j].is_oson && d.columns[j].ora_type != OraType::Json);
    }
}

/// A handler's answer touches its own column alone. Without a variable nothing changes; a variable
/// is refused where it holds too few elements or its type cannot be made of the column's; else it
/// stands for the column, which is defined anew where the types differ.
pub proof fn law_handler_touches_its_column(
    d: DefinesModel,
    after: DefinesModel,
    r: Result<bool, Fault>,
    index: int,
    arraysize: u32,
    fetch_dbtype: Seq<char>,
    result: HandlerResult,
    i: int,
)
    requires
        0 <= index < d.columns.len(),
        d.fetch_vars.len() == d.columns.len(),
        d.define_columns.len() == d.columns.len(),
        d.handler_outcome(after, r, index, arraysize, fetch_dbtype, result),
        0 <= i < d.columns.len(),
    ensures
        after.columns == d.columns,
        i != index ==> after.fetch_vars[i] == d.fetch_vars[i] && after.define_columns[i]
            == d.define_columns[i],
        r is Err ==> after == d,
        match result {
            HandlerResult::Default => after == d && r == Ok::<bool, Fault>(false),
            HandlerResult::NotAVariable => r matches Err(f) && f@ == FaultView::Named(
                ErrorName::ExpectingVar,
            ),
            HandlerResult::Variable { num_elements, dbtype_name, conversion } => {
                &&& r is Ok <==> num_elements >= arraysize && (dbtype_name@ == fetch_dbtype
                    || conversion is Some)
                &&& r is Ok ==> after.fetch_vars[index]
                &&& r is Ok && dbtype_name@ == fetch_dbtype ==> after.define_columns
                    == d.define_columns && after.requires_define == d.requires_define
                &&& r is Ok && dbtype_name@ != fetch_dbtype ==> {
                    &&& after.define_columns[index] == conversion->0.column
                    &&& conversion->0.differs ==> after.requires_define
                    &&& r->Ok_0 == conversion->0.differs
                }
            },
        },
{
}

/// Exactly the column that is marked becomes JSON, and nothing else of it or of the others changes.
pub proof fn law_marked_column_is_json(columns: Seq<ColumnMetadata>, index: int, other: int)
    requires
        0 <= index < columns.len(),
        0 <= other < columns.len(),
    ensures
        with_json(columns, index).len() == columns.len(),
        with_json(columns, index)[index].is_json,
        with_json(columns, index)[index].name == columns[index].name,
        with_json(columns, index)[index].ora_type == columns[index].ora_type,
        other != index ==> with_json(columns, index)[other] == columns[other],
{
}

} // verus!
