//! The rows that a cursor holds, and where they stand in the result set.
use vstd::prelude::*;

use crate::errors::{ErrorName, Fault};
#[allow(unused_imports)]
use crate::errors::FaultView;
use crate::text::same_text;

verus! {

/// Where a fetch starts.
#[derive(Clone, Copy, PartialEq, Eq, Structural, Debug)]
pub enum Orientation {
    Current,
    First,
    Last,
    Relative,
    Absolute,
}

pub struct RowBuffer<R> {
    pub rows: Vec<R>,
    /// The next row of the buffer.
    pub row_index: usize,
    pub cursor_id: u32,
    /// The server has more rows than those of the buffer.
    pub more_rows: bool,
    /// The position, counted from one, of the first row in the buffer; zero without rows.
    pub min_row: u64,
    /// The position behind the last row in the buffer; zero without rows.
    pub max_row: u64,
    /// The number of rows that were consumed, or that a statement touched.
    pub rowcount: i64,
    pub invalid_ref_cursor: bool,
}

pub ghost struct BufferModel<R> {
    pub rows: Seq<R>,
    pub row_index: usize,
    pub cursor_id: u32,
    pub more_rows: bool,
    pub min_row: u64,
    pub max_row: u64,
    pub rowcount: i64,
    pub invalid_ref_cursor: bool,
}

impl<R> View for RowBuffer<R> {
    type V = BufferModel<R>;

    open spec fn view(&self) -> BufferModel<R> {
        BufferModel {
            rows: self.rows@,
            row_index: self.row_index,
            cursor_id: self.cursor_id,
            more_rows: self.more_rows,
            min_row: self.min_row,
            max_row: self.max_row,
            rowcount: self.rowcount,
            invalid_ref_cursor: self.invalid_ref_cursor,
        }
    }
}

pub open spec fn at_least_zero(n: i64) -> int {
    if n < 0 {
        0
    } else {
        n as int
    }
}

pub open spec fn clamp_u32(n: int) -> u32 {
    if n > u32::MAX {
        u32::MAX
    } else {
        n as u32
    }
}

pub open spec fn clamp_i64(n: int) -> i64 {
    if n > i64::MAX {
        i64::MAX
    } else {
        n as i64
    }
}

/// A count of the server as a signed number.
pub fn to_rowcount(n: u64) -> (r: i64)
    ensures
        r == clamp_i64(n as int),
{
    if n <= i64::MAX as u64 {
        n as i64
    } else {
        i64::MAX
    }
}

/// The position behind the rows that were consumed, as the server takes it.
pub open spec fn next_position(rowcount: i64) -> u32 {
    clamp_u32(at_least_zero(rowcount) + 1)
}

pub fn next_fetch_position(rowcount: i64) -> (r: u32)
    ensures
        r == next_position(rowcount),
{
    if rowcount < 0 {
        1
    } else if rowcount >= 0xffff_ffff {
        0xffff_ffff
    } else {
        rowcount as u32 + 1
    }
}

/// What a scroll request is answered with.
pub struct ScrollResult<R> {
    pub rows: Vec<R>,
    pub cursor_id: u32,
    pub more_rows: bool,
    pub row_count: u64,
}

impl<R> BufferModel<R> {
    /// A window that starts nowhere ends nowhere.
    pub open spec fn window_sound(self) -> bool {
        self.min_row == 0 ==> self.max_row == 0
    }

    /// While the buffer holds rows, the window says where they stand in the result set, and the row
    /// count where the cursor stands among them. Without rows there is no window.
    pub open spec fn window_ok(self) -> bool {
        &&& self.rows.len() == 0 ==> self.min_row == 0 && self.max_row == 0
        &&& self.rows.len() > 0 ==> {
            &&& self.min_row >= 1
            &&& self.max_row == self.min_row + self.rows.len()
            &&& self.row_index <= self.rows.len()
            &&& self.rowcount >= 0
            &&& self.rowcount + 1 == self.min_row + self.row_index
        }
    }

    /// The buffer and its window fit in machine integers.
    pub open spec fn window_fits(self) -> bool {
        at_least_zero(self.rowcount) + 1 + self.rows.len() <= u64::MAX
    }

    pub open spec fn refreshed(self) -> BufferModel<R> {
        let min = at_least_zero(self.rowcount) + 1;
        if self.rows.len() == 0 {
            BufferModel { min_row: 0, max_row: 0, ..self }
        } else {
            BufferModel { min_row: min as u64, max_row: (min + self.rows.len()) as u64, ..self }
        }
    }

    /// The row that a scroll request asks for, and where the request starts from.
    pub open spec fn scroll_request(self, offset: int, mode: Seq<char>) -> Result<
        ScrollTarget,
        FaultView,
    > {
        if mode == "relative"@ {
            if self.rowcount + offset < 1 {
                Err(FaultView::Named(ErrorName::ScrollOutOfResultSet))
            } else {
                Ok(
                    ScrollTarget {
                        orientation: Orientation::Relative,
                        row: self.rowcount + offset,
                    },
                )
            }
        } else if mode == "absolute"@ {
            Ok(
                ScrollTarget {
                    orientation: Orientation::Absolute,
                    row: if offset < 0 {
                        0
                    } else {
                        offset
                    },
                },
            )
        } else if mode == "first"@ {
            Ok(ScrollTarget { orientation: Orientation::First, row: 1 })
        } else if mode == "last"@ {
            Ok(ScrollTarget { orientation: Orientation::Last, row: 0 })
        } else {
            Err(FaultView::Named(ErrorName::WrongScrollMode))
        }
    }

    pub open spec fn in_window(self, row: int) -> bool {
        self.min_row <= row < self.max_row
    }

    /// What a scroll request does.
    pub open spec fn scroll_outcome(
        self,
        offset: int,
        mode: Seq<char>,
        after: BufferModel<R>,
        r: Result<Option<ScrollFetch>, Fault>,
    ) -> bool {
        match self.scroll_request(offset, mode) {
            Err(f) => (r matches Err(e) && e@ == f) && after == self,
            Ok(target) => if target.orientation != Orientation::Last && self.in_window(
                target.row,
            ) {
                &&& r == Ok::<Option<ScrollFetch>, Fault>(None)
                &&& after == BufferModel {
                    row_index: (target.row - self.min_row) as usize,
                    rowcount: (target.row - 1) as i64,
                    ..self
                }
            } else {
                &&& r == Ok::<Option<ScrollFetch>, Fault>(
                    Some(
                        ScrollFetch {
                            orientation: target.orientation,
                            position: clamp_u32(target.row),
                        },
                    ),
                )
                &&& after == self
            },
        }
    }

    /// The rows that stand before those of a scroll result.
    pub open spec fn rows_before(rows: Seq<R>, row_count: u64) -> i64 {
        clamp_i64(
            if row_count >= rows.len() {
                row_count - rows.len()
            } else {
                0
            },
        )
    }

    /// The buffer after the server answered a scroll request.
    pub open spec fn scrolled(
        self,
        orientation: Orientation,
        rows: Seq<R>,
        cursor_id: u32,
        more_rows: bool,
        row_count: u64,
    ) -> Self {
        let adopted = BufferModel {
            rows,
            cursor_id: if cursor_id != 0 {
                cursor_id
            } else {
                self.cursor_id
            },
            invalid_ref_cursor: false,
            ..self
        };
        if rows.len() > 0 {
            let before = Self::rows_before(rows, row_count);
            BufferModel {
                rowcount: before,
                more_rows,
                row_index: 0,
                min_row: (before + 1) as u64,
                max_row: (before + 1 + rows.len()) as u64,
                ..adopted
            }
        } else if orientation == Orientation::First || orientation == Orientation::Last {
            BufferModel {
                rowcount: 0,
                more_rows: false,
                row_index: 0,
                min_row: 0,
                max_row: 0,
                ..adopted
            }
        } else {
            BufferModel { min_row: 0, max_row: 0, ..adopted }
        }
    }

    pub open spec fn emptied(self) -> BufferModel<R> {
        BufferModel { rows: Seq::empty(), row_index: 0, min_row: 0, max_row: 0, ..self }
    }

    /// The next row is one of the buffer.
    pub open spec fn has_next(self) -> bool {
        self.row_index < self.rows.len()
    }

    /// The buffer is used up, and the server has more.
    pub open spec fn needs_fetch(self) -> bool {
        self.row_index >= self.rows.len() && self.more_rows && self.cursor_id != 0
    }

    /// The buffer after the next row was taken.
    pub open spec fn advanced(self) -> BufferModel<R> {
        BufferModel {
            row_index: (self.row_index + 1) as usize,
            rowcount: (self.rowcount + 1) as i64,
            ..self
        }
    }
}

/// What a scroll answer of so many rows comes to.
pub open spec fn scroll_answered(
    r: Result<(), Fault>,
    orientation: Orientation,
    rows: int,
) -> bool {
    match r {
        Ok(_) => rows > 0 || orientation == Orientation::First || orientation
            == Orientation::Last,
        Err(f) => rows == 0 && orientation != Orientation::First && orientation
            != Orientation::Last && f@ == FaultView::Named(ErrorName::ScrollOutOfResultSet),
    }
}

impl<R> BufferModel<R> {
    /// What taking the next row does.
    pub open spec fn taken(self, after: BufferModel<R>, r: Option<usize>) -> bool {
        if self.has_next() {
            r == Some(self.row_index) && after == self.advanced()
        } else {
            r is None && after == self
        }
    }
}

pub ghost struct ScrollTarget {
    pub orientation: Orientation,
    pub row: int,
}

/// A request to the server for rows from a position on.
#[derive(Clone, Copy, PartialEq, Eq, Structural, Debug)]
pub struct ScrollFetch {
    pub orientation: Orientation,
    pub position: u32,
}

impl<R> RowBuffer<R> {
    pub fn empty() -> (r: Self)
        ensures
            r@ == (BufferModel::<R> {
                rows: Seq::empty(),
                row_index: 0,
                cursor_id: 0,
                more_rows: false,
                min_row: 0,
                max_row: 0,
                rowcount: 0,
                invalid_ref_cursor: false,
            }),
            r@.window_ok(),
    {
        RowBuffer {
            rows: Vec::new(),
            row_index: 0,
            cursor_id: 0,
            more_rows: false,
            min_row: 0,
            max_row: 0,
            rowcount: 0,
            invalid_ref_cursor: false,
        }
    }

    /// Decides how to get to another row: by moving within the buffer, which is done at once and
    /// gives `None`, or by asking the server for rows from a position on.
    pub fn resolve_scroll_target(&mut self, offset: i32, mode: &str) -> (r: Result<
        Option<ScrollFetch>,
        Fault,
    >)
        requires
            old(self)@.window_sound(),
            old(self)@.window_in_range(),
            i64::MIN <= old(self).rowcount + offset <= i64::MAX,
        ensures
            old(self)@.scroll_outcome(offset as int, mode@, final(self)@, r),
            final(self)@.window_sound(),
            old(self)@.window_ok() ==> final(self)@.window_ok(),
    {
        let (orientation, desired): (Orientation, u64) = if same_text(mode, "relative") {
            let target: i64 = self.rowcount + offset as i64;
            if target < 1 {
                return Err(Fault::Named(ErrorName::ScrollOutOfResultSet));
            }
            (Orientation::Relative, target as u64)
        } else if same_text(mode, "absolute") {
            let row: u64 = if offset < 0 {
                0
            } else {
                offset as u64
            };
            (Orientation::Absolute, row)
        } else if same_text(mode, "first") {
            (Orientation::First, 1)
        } else if same_text(mode, "last") {
            (Orientation::Last, 0)
        } else {
            return Err(Fault::Named(ErrorName::WrongScrollMode));
        };
        if orientation != Orientation::Last && desired >= self.min_row && desired < self.max_row {
            self.row_index = (desired - self.min_row) as usize;
            self.rowcount = (desired - 1) as i64;
            return Ok(None);
        }
        let position: u32 = if desired <= 0xffff_ffff {
            desired as u32
        } else {
            0xffff_ffff
        };
        Ok(Some(ScrollFetch { orientation, position }))
    }

    /// Takes over the rows that the server sent for a scroll request.
    pub fn apply_scroll_result(&mut self, orientation: Orientation, result: ScrollResult<R>) -> (r:
        Result<(), Fault>)
        requires
            result.rows@.len() <= i64::MAX,
        ensures
            final(self)@ == old(self)@.scrolled(
                orientation,
                result.rows@,
                result.cursor_id,
                result.more_rows,
                result.row_count,
            ),
            scroll_answered(r, orientation, result.rows@.len() as int),
    {
        let buffered: u64 = result.rows.len() as u64;
        if result.cursor_id != 0 {
            self.cursor_id = result.cursor_id;
        }
        self.rows = result.rows;
        self.invalid_ref_cursor = false;
        if buffered == 0 {
            self.min_row = 0;
            self.max_row = 0;
            if orientation != Orientation::First && orientation != Orientation::Last {
                return Err(Fault::Named(ErrorName::ScrollOutOfResultSet));
            }
            self.rowcount = 0;
            self.more_rows = false;
            self.row_index = 0;
        } else {
            let before: u64 = if result.row_count >= buffered {
                result.row_count - buffered
            } else {
                0
            };
            self.rowcount = to_rowcount(before);
            self.more_rows = result.more_rows;
            self.row_index = 0;
            self.min_row = self.rowcount as u64 + 1;
            self.max_row = self.min_row + buffered;
        }
        Ok(())
    }

    /// Moves the window to the rows that were just fetched, if there are any.
    pub fn refresh_buffer_window(&mut self)
        requires
            old(self)@.window_fits(),
        ensures
            final(self)@ == old(self)@.refreshed(),
    {
        if self.rows.len() == 0 {
            self.min_row = 0;
            self.max_row = 0;
            return;
        }
        let consumed: u64 = if self.rowcount < 0 {
            0
        } else {
            self.rowcount as u64
        };
        self.min_row = consumed + 1;
        self.max_row = self.min_row + self.rows.len() as u64;
    }

    pub fn clear_rows(&mut self)
        ensures
            final(self)@ == old(self)@.emptied(),
    {
        self.rows = Vec::new();
        self.row_index = 0;
        self.min_row = 0;
        self.max_row = 0;
    }

    pub fn fetch_needed(&self) -> (r: bool)
        ensures
            r == self@.needs_fetch(),
    {
        self.row_index >= self.rows.len() && self.more_rows && self.cursor_id != 0
    }

    /// Takes the next row of the buffer: gives its index, and counts it as consumed.
    pub fn take_next(&mut self) -> (r: Option<usize>)
        requires
            old(self).rowcount < i64::MAX,
        ensures
            old(self)@.taken(final(self)@, r),
    {
        if self.row_index >= self.rows.len() {
            return None;
        }
        let index = self.row_index;
        self.row_index = index + 1;
        self.rowcount = self.rowcount + 1;
        Some(index)
    }

    /// Takes over the rows of a fetch.
    pub fn apply_fetch(&mut self, rows: Vec<R>, cursor_id: u32, more_rows: bool)
        requires
            rows@.len() <= i64::MAX,
        ensures
            final(self)@ == old(self)@.fetched(rows@, cursor_id, more_rows),
    {
        self.rows = rows;
        self.row_index = 0;
        if cursor_id != 0 {
            self.cursor_id = cursor_id;
        }
        self.more_rows = more_rows;
        self.invalid_ref_cursor = false;
        self.refresh_buffer_window();
    }
}

impl<R> BufferModel<R> {
    /// The buffer after a fetch.
    pub open spec fn fetched(self, rows: Seq<R>, cursor_id: u32, more_rows: bool) -> BufferModel<
        R,
    > {
        BufferModel {
            rows,
            row_index: 0,
            cursor_id: if cursor_id != 0 {
                cursor_id
            } else {
                self.cursor_id
            },
            more_rows,
            invalid_ref_cursor: false,
            ..self
        }.refreshed()
    }

    /// The window is small enough to be walked with machine integers.
    pub open spec fn window_in_range(self) -> bool {
        self.max_row <= i64::MAX && self.max_row - self.min_row <= usize::MAX
    }
}

/// A move within the buffer goes to the row that was asked for: it is the next one, and the rows
/// stay.
pub proof fn law_scroll_reaches_row<R>(
    before: BufferModel<R>,
    after: BufferModel<R>,
    offset: int,
    mode: Seq<char>,
    r: Result<Option<ScrollFetch>, Fault>,
)
    requires
        before.window_ok(),
        before.window_in_range(),
        before.scroll_outcome(offset, mode, after, r),
        r == Ok::<Option<ScrollFetch>, Fault>(None),
    ensures
        after.has_next(),
        after.rows == before.rows,
        after.min_row + after.row_index == before.scroll_request(offset, mode)->Ok_0.row,
        after.window_ok(),
{
}

/// Whatever is done with the buffer, its window stays one that can be scrolled in. The row count
/// may be any: that of a failed execution counts no rows of the buffer.
pub proof fn law_window_stays_sound<R>(
    m: BufferModel<R>,
    rowcount: i64,
    orientation: Orientation,
    rows: Seq<R>,
    cursor_id: u32,
    more_rows: bool,
    row_count: u64,
)
    requires
        m.window_sound(),
        rows.len() <= i64::MAX,
    ensures
        m.emptied().window_sound(),
        m.advanced().window_sound(),
        m.fetched(rows, cursor_id, more_rows).window_sound(),
        m.scrolled(orientation, rows, cursor_id, more_rows, row_count).window_sound(),
        (BufferModel { rowcount, ..m }).window_sound(),
{
}

/// After the server answered a scroll request with rows, the window covers exactly these rows.
pub proof fn law_scrolled_window<R>(
    before: BufferModel<R>,
    orientation: Orientation,
    rows: Seq<R>,
    cursor_id: u32,
    more_rows: bool,
    row_count: u64,
)
    requires
        rows.len() > 0,
        row_count < i64::MAX,
        rows.len() <= i64::MAX,
    ensures
        before.scrolled(orientation, rows, cursor_id, more_rows, row_count).window_ok(),
{
}

/// After a fetch the window covers exactly the rows of the buffer.
pub proof fn law_fetched_window<R>(m: BufferModel<R>, rows: Seq<R>, cursor_id: u32, more: bool)
    requires
        m.rowcount >= 0,
        rows.len() <= i64::MAX,
    ensures
        m.fetched(rows, cursor_id, more).window_ok(),
        m.fetched(rows, cursor_id, more).max_row - m.fetched(rows, cursor_id, more).min_row
            == rows.len(),
{
}

/// Taking a row keeps the window: row index and row count move together.
pub proof fn law_taking_keeps_window<R>(m: BufferModel<R>)
    requires
        m.window_ok(),
        m.has_next(),
        m.rows.len() <= usize::MAX,
        m.rowcount < i64::MAX,
    ensures
        m.advanced().window_ok(),
        m.advanced().rowcount - m.rowcount == m.advanced().row_index - m.row_index,
{
}

/// Scrolling back over a row that was just taken gives the same row again.
pub proof fn law_taken_row_is_found_again<R>(
    m: BufferModel<R>,
    after: BufferModel<R>,
    r: Result<Option<ScrollFetch>, Fault>,
)
    requires
        m.window_ok(),
        m.window_in_range(),
        m.has_next(),
        m.advanced().scroll_outcome(0, "relative"@, after, r),
    ensures
        r == Ok::<Option<ScrollFetch>, Fault>(None),
        after == m,
{
}

/// Scrolling to the first row starts over: where the buffer holds the start of the result set no
/// row counts as consumed any more and the next row is the one at position 1. Otherwise the server
/// is asked for the rows from position 1 on, and the buffer stays.
pub proof fn law_first_starts_over<R>(
    before: BufferModel<R>,
    after: BufferModel<R>,
    offset: int,
    r: Result<Option<ScrollFetch>, Fault>,
)
    requires
        before.window_ok(),
        before.window_in_range(),
        before.scroll_outcome(offset, "first"@, after, r),
    ensures
        match r {
            Ok(None) => {
                &&& before.rows.len() > 0 && before.min_row == 1
                &&& after.rowcount == 0 && after.row_index == 0
                &&& after.rows == before.rows && after.min_row == 1
                &&& after.max_row == before.max_row
                &&& after.more_rows == before.more_rows && after.cursor_id == before.cursor_id
            },
            Ok(Some(fetch)) => {
                &&& before.rows.len() == 0 || before.min_row > 1
                &&& fetch.orientation == Orientation::First && fetch.position == 1
                &&& after == before
            },
            Err(_) => false,
        },
{
    reveal_strlit("first");
    reveal_strlit("relative");
    reveal_strlit("absolute");
    assert("first"@.len() == 5 && "relative"@.len() == 8 && "absolute"@.len() == 8);
}

/// Scrolling to the last row always asks the server, for no position, and leaves the buffer.
pub proof fn law_last_asks_the_server<R>(
    before: BufferModel<R>,
    after: BufferModel<R>,
    offset: int,
    r: Result<Option<ScrollFetch>, Fault>,
)
    requires
        before.scroll_outcome(offset, "last"@, after, r),
    ensures
        r matches Ok(Some(fetch)) && fetch.orientation == Orientation::Last && fetch.position == 0,
        after == before,
{
    reveal_strlit("last");
    reveal_strlit("first");
    reveal_strlit("relative");
    reveal_strlit("absolute");
    assert("last"@[0] != "first"@[0]);
}

/// Scrolling to an absolute row makes the row at that position the next one: all rows before it
/// count as consumed. A row that the buffer does not hold is asked for by its position; a position
/// before the result set is asked for as zero.
pub proof fn law_absolute_goes_to_the_position<R>(
    before: BufferModel<R>,
    after: BufferModel<R>,
    offset: int,
    r: Result<Option<ScrollFetch>, Fault>,
)
    requires
        before.window_ok(),
        before.window_in_range(),
        offset <= i32::MAX,
        before.scroll_outcome(offset, "absolute"@, after, r),
    ensures
        match r {
            Ok(None) => {
                &&& 1 <= offset
                &&& before.min_row <= offset < before.min_row + before.rows.len()
                &&& after.rowcount == offset - 1
                &&& after.rows == before.rows && after.min_row == before.min_row
                &&& after.row_index == offset - before.min_row
                &&& after.rows[after.row_index as int] == before.rows[offset - before.min_row]
            },
            Ok(Some(fetch)) => {
                &&& before.rows.len() == 0 || offset < before.min_row || offset
                    >= before.min_row + before.rows.len()
                &&& fetch.orientation == Orientation::Absolute
                &&& offset >= 0 ==> fetch.position == offset
                &&& offset < 0 ==> fetch.position == 0
                &&& after == before
            },
            Err(_) => false,
        },
{
    reveal_strlit("relative");
    reveal_strlit("absolute");
    assert("relative"@[0] != "absolute"@[0]);
}

/// A relative scroll counts from the row that was consumed last. It is refused exactly where it
/// would leave the result set at its start; else the row that many positions on is the next one,
/// or is asked for by its position.
pub proof fn law_relative_counts_from_the_last_row<R>(
    before: BufferModel<R>,
    after: BufferModel<R>,
    offset: int,
    r: Result<Option<ScrollFetch>, Fault>,
)
    requires
        before.window_ok(),
        before.window_in_range(),
        before.scroll_outcome(offset, "relative"@, after, r),
    ensures
        match r {
            Ok(None) => {
                &&& after.rowcount + 1 == before.rowcount + offset
                &&& after.row_index == before.row_index + offset - 1
                &&& after.rows == before.rows && after.min_row == before.min_row
            },
            Ok(Some(fetch)) => {
                &&& before.rowcount + offset >= 1
                &&& fetch.orientation == Orientation::Relative
                &&& before.rowcount + offset <= u32::MAX ==> fetch.position == before.rowcount
                    + offset
                &&& before.rows.len() == 0 || before.rowcount + offset < before.min_row
                    || before.rowcount + offset >= before.min_row + before.rows.len()
                &&& after == before
            },
            Err(f) => {
                &&& before.rowcount + offset < 1
                &&& f@ == FaultView::Named(ErrorName::ScrollOutOfResultSet)
                &&& after == before
            },
        },
{
}

/// There are four ways to scroll. Any other is refused, and leaves the buffer.
pub proof fn law_scroll_has_four_modes<R>(
    before: BufferModel<R>,
    after: BufferModel<R>,
    offset: int,
    mode: Seq<char>,
    r: Result<Option<ScrollFetch>, Fault>,
)
    requires
        before.scroll_outcome(offset, mode, after, r),
        mode != "relative"@,
        mode != "absolute"@,
        mode != "first"@,
        mode != "last"@,
    ensures
        r matches Err(f) && f@ == FaultView::Named(ErrorName::WrongScrollMode),
        after == before,
{
}

/// Two relative moves within the buffer add up: the second starts where the first went to.
pub proof fn law_relative_moves_add_up<R>(
    m: BufferModel<R>,
    one: BufferModel<R>,
    two: BufferModel<R>,
    direct: BufferModel<R>,
    a: int,
    b: int,
    r1: Result<Option<ScrollFetch>, Fault>,
    r2: Result<Option<ScrollFetch>, Fault>,
    r: Result<Option<ScrollFetch>, Fault>,
)
    requires
        m.window_ok(),
        m.window_in_range(),
        m.scroll_outcome(a, "relative"@, one, r1),
        r1 == Ok::<Option<ScrollFetch>, Fault>(None),
        one.scroll_outcome(b, "relative"@, two, r2),
        r2 == Ok::<Option<ScrollFetch>, Fault>(None),
        m.scroll_outcome(a + b - 1, "relative"@, direct, r),
    ensures
        r == Ok::<Option<ScrollFetch>, Fault>(None),
        direct == two,
{
}

/// The rows of a scroll answer are the buffer, and the next one is the first of them. The server
/// counts the rows up to and with them, so taking all of them brings the row count to its count.
pub proof fn law_scroll_answer_is_adopted<R>(
    before: BufferModel<R>,
    orientation: Orientation,
    rows: Seq<R>,
    cursor_id: u32,
    more_rows: bool,
    row_count: u64,
)
    requires
        rows.len() > 0,
        rows.len() <= row_count <= i64::MAX,
    ensures
        ({
            let m = before.scrolled(orientation, rows, cursor_id, more_rows, row_count);
            &&& m.rows == rows && m.row_index == 0
            &&& m.rowcount + rows.len() == row_count
            &&& m.min_row == m.rowcount + 1 && m.max_row == row_count + 1
            &&& m.more_rows == more_rows && !m.invalid_ref_cursor
            &&& cursor_id != 0 ==> m.cursor_id == cursor_id
            &&& cursor_id == 0 ==> m.cursor_id == before.cursor_id
        }),
{
}

/// A scroll answer without rows leaves no rows and no window. At either end of the result set it
/// means that there are none at all; elsewhere the cursor stays where it stood.
pub proof fn law_empty_scroll_answer<R>(
    before: BufferModel<R>,
    orientation: Orientation,
    cursor_id: u32,
    more_rows: bool,
    row_count: u64,
)
    ensures
        ({
            let none: Seq<R> = Seq::empty();
            let m = before.scrolled(orientation, none, cursor_id, more_rows, row_count);
            &&& m.rows.len() == 0 && m.min_row == 0 && m.max_row == 0 && !m.invalid_ref_cursor
            &&& (orientation == Orientation::First || orientation == Orientation::Last) ==> {
                m.rowcount == 0 && m.row_index == 0 && !m.more_rows
            }
            &&& (orientation != Orientation::First && orientation != Orientation::Last) ==> {
                m.rowcount == before.rowcount && m.row_index == before.row_index && m.more_rows
                    == before.more_rows
            }
        }),
{
}

/// Fetched rows are the buffer, and the first of them is next. Nothing is consumed by a fetch: the
/// row count stays, and the first row stands behind the rows that were consumed.
pub proof fn law_fetch_consumes_nothing<R>(
    before: BufferModel<R>,
    rows: Seq<R>,
    cursor_id: u32,
    more_rows: bool,
)
    requires
        rows.len() <= i64::MAX,
    ensures
        ({
            let m = before.fetched(rows, cursor_id, more_rows);
            &&& m.rows == rows && m.row_index == 0
            &&& m.rowcount == before.rowcount
            &&& m.more_rows == more_rows && !m.invalid_ref_cursor
            &&& cursor_id != 0 ==> m.cursor_id == cursor_id
            &&& cursor_id == 0 ==> m.cursor_id == before.cursor_id
            &&& rows.len() > 0 && before.rowcount >= 0 ==> m.min_row == before.rowcount + 1
                && m.max_row == before.rowcount + 1 + rows.len()
            &&& rows.len() == 0 ==> m.min_row == 0 && m.max_row == 0
        }),
{
}

/// Rows are taken one at a time, in the order of the buffer, and each counts once. While the
/// buffer has a row the server is not asked; without one it is asked exactly while it has more
/// rows of an open cursor.
pub proof fn law_rows_are_taken_in_order<R>(m: BufferModel<R>)
    requires
        m.rowcount < i64::MAX,
        m.rows.len() <= usize::MAX,
    ensures
        m.has_next() <==> m.row_index < m.rows.len(),
        m.has_next() ==> {
            &&& !m.needs_fetch()
            &&& m.advanced().row_index == m.row_index + 1
            &&& m.advanced().rowcount == m.rowcount + 1
            &&& m.advanced().rows == m.rows
            &&& m.advanced().more_rows == m.more_rows && m.advanced().cursor_id == m.cursor_id
            &&& m.advanced().min_row == m.min_row && m.advanced().max_row == m.max_row
        },
        !m.has_next() ==> (m.needs_fetch() <==> (m.more_rows && m.cursor_id != 0)),
{
}

/// The position that the next fetch starts from lies one behind the rows that were consumed.
pub proof fn law_next_fetch_follows_consumed_rows(rowcount: i64)
    ensures
        0 <= rowcount < u32::MAX ==> next_position(rowcount) == rowcount + 1,
        rowcount < 0 ==> next_position(rowcount) == 1,
        rowcount >= u32::MAX ==> next_position(rowcount) == u32::MAX,
{
}

/// A row count of the server is kept as it is, up to the largest that can be shown.
pub proof fn law_row_counts_are_kept(n: u64)
    ensures
        n <= i64::MAX ==> clamp_i64(n as int) == n,
        n > i64::MAX ==> clamp_i64(n as int) == i64::MAX,
{
}

/// Emptying the buffer forgets its rows and where they stood, and nothing else.
pub proof fn law_emptied_buffer<R>(m: BufferModel<R>)
    ensures
        m.emptied().rows.len() == 0 && m.emptied().row_index == 0,
        m.emptied().min_row == 0 && m.emptied().max_row == 0,
        m.emptied().rowcount == m.rowcount && m.emptied().more_rows == m.more_rows,
        m.emptied().cursor_id == m.cursor_id,
        m.emptied().invalid_ref_cursor == m.invalid_ref_cursor,
{
}

/// A scroll answer is refused exactly where it has no rows and the scroll went to neither end of
/// the result set.
pub proof fn law_scroll_answer_is_refused_without_rows(
    r: Result<(), Fault>,
    orientation: Orientation,
    rows: int,
)
    requires
        scroll_answered(r, orientation, rows),
    ensures
        rows > 0 ==> r is Ok,
        orientation == Orientation::First || orientation == Orientation::Last ==> r is Ok,
        rows == 0 && (orientation == Orientation::Relative || orientation == Orientation::Absolute
            || orientation == Orientation::Current) ==> r is Err,
        r matches Err(f) ==> f@ == FaultView::Named(ErrorName::ScrollOutOfResultSet),
{
}

/// Two rows that are taken one after the other stand one after the other in the buffer, and each
/// counts once. Nothing is taken of a buffer that is used up.
pub proof fn law_taken_rows_follow_each_other<R>(
    m: BufferModel<R>,
    one: BufferModel<R>,
    two: BufferModel<R>,
    first: Option<usize>,
    second: Option<usize>,
)
    requires
        m.rowcount < i64::MAX - 1,
        m.rows.len() <= usize::MAX,
        m.taken(one, first),
        one.taken(two, second),
    ensures
        first is Some <==> m.row_index < m.rows.len(),
        first matches Some(i) ==> i == m.row_index && one.rows == m.rows && one.rowcount
            == m.rowcount + 1,
        first is None ==> one == m && second is None,
        second matches Some(j) ==> first is Some && j == first->0 + 1 && two.rows == m.rows
            && two.rowcount == m.rowcount + 2,
        first is Some && second is None ==> first->0 + 1 == m.rows.len(),
{
}

} // verus!
