//! What holds of every sheet that the decoder of a worksheet gives.

use vstd::prelude::*;
use crate::dict::Entries;
use crate::error::DecodeError;
use crate::sheet::{is_rectangular, CellView, SheetView};
use crate::sheet_reader::{
    attach_all, attached, finish, is_blank_row, kept_rows, lemma_kept_rows, on_col, on_format,
    on_row, on_start, on_text, sheet_from, squared, step, Mode, ReaderView, SheetEnv, Step,
};
use crate::text::{digit_run, is_float_text, is_size, number_of, unsigned_part};
use crate::xml::{AttributeView, EventView};

verus! {

/// Whether two grids differ in nothing but the hyperlinks of their cells:
/// they have the same rows and slots, a cell in the same slots, and there
/// the same value and style.
pub open spec fn same_but_links(
    a: Seq<Seq<Option<CellView>>>,
    b: Seq<Seq<Option<CellView>>>,
) -> bool {
    &&& a.len() == b.len()
    &&& forall|r: int| 0 <= r < a.len() ==> (#[trigger] a[r]).len() == b[r].len()
    &&& forall|r: int, c: int|
        0 <= r < a.len() && 0 <= c < a[r].len() ==> match (#[trigger] a[r][c], b[r][c]) {
            (Some(x), Some(y)) => x.v == y.v && x.s == y.s,
            (None, None) => true,
            _ => false,
        }
}

/// Attaching a hyperlink changes nothing but the hyperlink of a cell.
pub proof fn lemma_attached_keeps_cells(
    grid: Seq<Seq<Option<CellView>>>,
    name: Seq<char>,
    link: Seq<char>,
)
    ensures
        same_but_links(grid, attached(grid, name, link)),
{
    let after = attached(grid, name, link);
    assert forall|r: int| 0 <= r < grid.len() implies (#[trigger] grid[r]).len()
        == after[r].len() by {}
    assert forall|r: int, c: int| 0 <= r < grid.len() && 0 <= c < grid[r].len() implies match (
        #[trigger] grid[r][c],
        after[r][c],
    ) {
        (Some(x), Some(y)) => x.v == y.v && x.s == y.s,
        (None, None) => true,
        _ => false,
    } by {}
}

/// Attaching all recorded hyperlinks changes nothing but the hyperlinks of
/// cells.
pub proof fn lemma_attach_all_keeps_cells(grid: Seq<Seq<Option<CellView>>>, links: Entries)
    ensures
        same_but_links(grid, attach_all(grid, links)),
    decreases links.len(),
{
    if links.len() > 0 {
        let before = attach_all(grid, links.drop_last());
        lemma_attach_all_keeps_cells(grid, links.drop_last());
        lemma_attached_keeps_cells(before, links.last().0, links.last().1);
        let after = attach_all(grid, links);
        assert forall|r: int| 0 <= r < grid.len() implies (#[trigger] grid[r]).len()
            == after[r].len() by {
            assert(before[r].len() == after[r].len());
        }
        assert forall|r: int, c: int|
            0 <= r < grid.len() && 0 <= c < grid[r].len() implies match (
            #[trigger] grid[r][c],
            after[r][c],
        ) {
            (Some(x), Some(y)) => x.v == y.v && x.s == y.s,
            (None, None) => true,
            _ => false,
        } by {
            assert(before[r].len() == grid[r].len());
            assert(before[r][c] is Some <==> grid[r][c] is Some);
        }
    }
}

/// The sheet at the end of a worksheet is a rectangle: every row of its
/// grid has as many slots as the sheet has column entries, and the sheet
/// has as many row entries as its grid has rows. The columns are those that
/// the cell addresses named, and the rows those that were kept.
pub proof fn lemma_finished_sheet_is_rectangular(state: ReaderView)
    ensures
        finish(state) matches Ok(sheet) ==> {
            &&& is_rectangular(sheet)
            &&& sheet.cols.len() == state.cols_count
            &&& sheet.cells.len() == kept_rows(state.sheet.cells)
        },
{
    if let Ok(sheet) = finish(state) {
        let width = state.cols_count as int;
        let grid = squared(state.sheet.cells, width);
        lemma_kept_rows(state.sheet.cells);
        lemma_attach_all_keeps_cells(grid, state.hyperlinks);
        assert forall|r: int| 0 <= r < sheet.cells.len() implies (#[trigger] sheet.cells[r]).len()
            == sheet.cols.len() by {
            assert(grid[r].len() == sheet.cells[r].len());
            assert(state.sheet.cells[r].len() <= width);
        }
    }
}

/// Every sheet that the events of a worksheet decode to is a rectangle.
pub proof fn lemma_decoded_sheet_is_rectangular(
    state: ReaderView,
    events: Seq<EventView>,
    env: SheetEnv,
)
    ensures
        sheet_from(state, events, env) matches Ok(sheet) ==> is_rectangular(sheet),
    decreases events.len(),
{
    if events.len() > 0 {
        match step(state, events[0], env) {
            Step::Continue(next) => {
                lemma_decoded_sheet_is_rectangular(next, events.drop_first(), env);
            },
            Step::Done(sheet) => {
                lemma_finished_sheet_is_rectangular(state);
            },
            Step::Fail(_) => {},
        }
    }
}

/// No row without a cell is left at the end of the grid: the last row of
/// the sheet, where it has one, holds a cell.
pub proof fn lemma_no_empty_row_at_end(state: ReaderView)
    ensures
        finish(state) matches Ok(sheet) ==> sheet.cells.len() > 0 ==> !is_blank_row(
            sheet.cells.last(),
        ),
{
    if let Ok(sheet) = finish(state) {
        if sheet.cells.len() > 0 {
            let cells = state.sheet.cells;
            let width = state.cols_count as int;
            let grid = squared(cells, width);
            let last = sheet.cells.len() - 1;
            lemma_finished_sheet_is_rectangular(state);
            lemma_kept_rows(cells);
            lemma_attach_all_keeps_cells(grid, state.hyperlinks);
            let c = choose|c: int| 0 <= c < cells[last].len() && !((#[trigger] cells[last][c]) is None);
            assert(cells[last].len() <= width);
            assert(grid[last][c] == cells[last][c]);
            assert(sheet.cells[last][c] is Some);
        }
    }
}

/// Every row that is kept keeps its cells, and gets empty slots behind
/// them.
pub proof fn lemma_kept_rows_keep_cells(state: ReaderView, r: int, c: int)
    requires
        finish(state) is Ok,
        0 <= r < kept_rows(state.sheet.cells),
        0 <= c < state.cols_count,
    ensures
        ({
            let sheet = finish(state)->Ok_0;
            let row = state.sheet.cells[r];
            &&& sheet.cells[r].len() == state.cols_count
            &&& c >= row.len() ==> sheet.cells[r][c] is None
            &&& c < row.len() ==> match (row[c], sheet.cells[r][c]) {
                (Some(x), Some(y)) => x.v == y.v && x.s == y.s,
                (None, None) => true,
                _ => false,
            }
        }),
{
    let sheet = finish(state)->Ok_0;
    let width = state.cols_count as int;
    let grid = squared(state.sheet.cells, width);
    lemma_kept_rows(state.sheet.cells);
    lemma_attach_all_keeps_cells(grid, state.hyperlinks);
    assert(state.sheet.cells[r].len() <= width);
    assert(grid[r].len() == width);
    assert(grid[r][c] is Some <==> sheet.cells[r][c] is Some);
    assert(sheet.cells[r].len() == grid[r].len());
}

/// A cell whose value is a shared string takes the string at its index:
/// inside a value, with no value yet, the index `i` of a string that is
/// not empty makes that string the value of the cell.
pub proof fn lemma_shared_string_resolves(
    state: ReaderView,
    text: Seq<char>,
    pool: Seq<Seq<char>>,
    formulas: bool,
    i: u32,
)
    requires
        state.mode == Mode::Value,
        state.cell.v is None,
        state.shared,
        number_of(text) == Some(i),
        i < pool.len(),
        pool[i as int].len() > 0,
    ensures
        on_text(state, Some(text), pool, formulas) matches Ok(next) && next.cell.v == Some(
            pool[i as int],
        ),
{
}

/// A formula is captured only where formulas are asked for: without the
/// flag the text of a formula changes nothing, so that the value of the
/// cell is absent or comes from its `v` element alone. With the flag the
/// text becomes the value behind `=`.
pub proof fn lemma_formula_needs_flag(state: ReaderView, text: Seq<char>, pool: Seq<Seq<char>>)
    requires
        state.mode == Mode::Formula,
    ensures
        on_text(state, Some(text), pool, false) == Ok::<ReaderView, DecodeError>(state),
        on_text(state, Some(text), pool, true) matches Ok(next) && next.cell.v == Some(
            "="@ + text,
        ),
{
}

/// Whether a cell holds anything: a value, a style other than the default,
/// or a hyperlink.
pub open spec fn holds_something(cell: CellView) -> bool {
    cell.v is Some || cell.s > 0 || cell.hyperlink is Some
}

/// Whether every cell of a grid holds something.
pub open spec fn all_hold_something(grid: Seq<Seq<Option<CellView>>>) -> bool {
    forall|r: int, c: int|
        0 <= r < grid.len() && 0 <= c < grid[r].len() ==> match #[trigger] grid[r][c] {
            Some(cell) => holds_something(cell),
            None => true,
        }
}

/// Attaching the recorded hyperlinks leaves every cell holding something.
pub proof fn lemma_attach_all_keeps_holding(grid: Seq<Seq<Option<CellView>>>, links: Entries)
    requires
        all_hold_something(grid),
    ensures
        all_hold_something(attach_all(grid, links)),
    decreases links.len(),
{
    if links.len() > 0 {
        let before = attach_all(grid, links.drop_last());
        lemma_attach_all_keeps_holding(grid, links.drop_last());
        let after = attached(before, links.last().0, links.last().1);
        assert forall|r: int, c: int|
            0 <= r < after.len() && 0 <= c < after[r].len() implies match #[trigger] after[r][c] {
            Some(cell) => holds_something(cell),
            None => true,
        } by {
            assert(before[r][c] is Some ==> holds_something(before[r][c]->0));
        }
    }
}

/// A cell is in the grid only where it holds something: where that is so
/// before an event, it is so after it, and in the sheet that the end of the
/// worksheet gives.
pub proof fn lemma_step_keeps_holding(state: ReaderView, event: EventView, env: SheetEnv)
    requires
        all_hold_something(state.sheet.cells),
    ensures
        match step(state, event, env) {
            Step::Continue(next) => all_hold_something(next.sheet.cells),
            Step::Done(sheet) => all_hold_something(sheet.cells),
            Step::Fail(_) => true,
        },
{
    let grid = state.sheet.cells;
    match step(state, event, env) {
        Step::Continue(next) => {
            let after = next.sheet.cells;
            assert forall|r: int, c: int|
                0 <= r < after.len() && 0 <= c < after[r].len() implies match #[trigger] after[r][c] {
                Some(cell) => holds_something(cell),
                None => true,
            } by {
                if r < grid.len() && c < grid[r].len() {
                    assert(grid[r][c] is Some ==> holds_something(grid[r][c]->0));
                }
            }
        },
        Step::Done(sheet) => {
            let width = state.cols_count as int;
            let padded_grid = squared(grid, width);
            lemma_kept_rows(grid);
            assert forall|r: int, c: int|
                0 <= r < padded_grid.len() && 0 <= c < padded_grid[r].len() implies match #[trigger] padded_grid[r][c] {
                Some(cell) => holds_something(cell),
                None => true,
            } by {
                if c < grid[r].len() {
                    assert(grid[r][c] is Some ==> holds_something(grid[r][c]->0));
                }
            }
            lemma_attach_all_keeps_holding(padded_grid, state.hyperlinks);
        },
        Step::Fail(_) => {},
    }
}

/// In every sheet that the events of a worksheet decode to, a cell is in
/// the grid only where it holds something.
pub proof fn lemma_decoded_cells_hold_something(
    state: ReaderView,
    events: Seq<EventView>,
    env: SheetEnv,
)
    requires
        all_hold_something(state.sheet.cells),
    ensures
        sheet_from(state, events, env) matches Ok(sheet) ==> all_hold_something(sheet.cells),
    decreases events.len(),
{
    if events.len() > 0 {
        lemma_step_keeps_holding(state, events[0], env);
        match step(state, events[0], env) {
            Step::Continue(next) => {
                lemma_decoded_cells_hold_something(next, events.drop_first(), env);
            },
            _ => {},
        }
    }
}

/// A row without a cell before the last row that holds one is kept, as a
/// row of empty slots, one for each column.
pub proof fn lemma_blank_rows_inside_are_kept(state: ReaderView, r: int)
    requires
        finish(state) is Ok,
        0 <= r < kept_rows(state.sheet.cells),
        is_blank_row(state.sheet.cells[r]),
    ensures
        ({
            let sheet = finish(state)->Ok_0;
            &&& r < sheet.cells.len()
            &&& sheet.cells[r].len() == state.cols_count
            &&& is_blank_row(sheet.cells[r])
        }),
{
    let sheet = finish(state)->Ok_0;
    lemma_finished_sheet_is_rectangular(state);
    assert forall|c: int| 0 <= c < sheet.cells[r].len() implies (#[trigger] sheet.cells[r][c])
        is None by {
        lemma_kept_rows_keep_cells(state, r, c);
        if c < state.sheet.cells[r].len() {
            assert(state.sheet.cells[r][c] is None);
        }
    }
}

/// Whether every size that a sheet states is the text of a number: the
/// widths of its columns, the heights of its rows, and its splits.
pub open spec fn sizes_are_numbers(sheet: SheetView) -> bool {
    &&& forall|i: int| 0 <= i < sheet.cols.len() ==> is_size((#[trigger] sheet.cols[i]).width)
    &&& forall|i: int| 0 <= i < sheet.rows.len() ==> is_size((#[trigger] sheet.rows[i]).height)
    &&& is_size(sheet.frozen_cols)
    &&& is_size(sheet.frozen_rows)
}

/// Whether every size that the decoder holds is the text of a number.
pub open spec fn holds_numbers(state: ReaderView) -> bool {
    &&& sizes_are_numbers(state.sheet)
    &&& is_size(state.default_col_width)
    &&& is_size(state.default_row_height)
}

/// The digit zero is the text of a number.
pub proof fn lemma_zero_is_a_number()
    ensures
        is_float_text("0"@),
{
    reveal_strlit("0");
    let s = "0"@;
    assert(s.len() == 1 && s[0] == '0');
    assert(unsigned_part(s) == s);
    assert(s.drop_first().len() == 0);
    assert(digit_run(s.drop_first()) == 0);
    assert(digit_run(s) == 1);
    assert(s.skip(1).len() == 0);
}

/// Whether two states of the decoder hold the same sizes.
pub open spec fn same_sizes(a: ReaderView, b: ReaderView) -> bool {
    &&& a.sheet.cols == b.sheet.cols
    &&& a.sheet.rows == b.sheet.rows
    &&& a.sheet.frozen_cols == b.sheet.frozen_cols
    &&& a.sheet.frozen_rows == b.sheet.frozen_rows
    &&& a.default_col_width == b.default_col_width
    &&& a.default_row_height == b.default_row_height
}

/// A `sheetFormatPr` tag leaves every size the text of a number.
pub proof fn lemma_format_keeps_numbers(
    state: ReaderView,
    attributes: Seq<AttributeView>,
    well_formed: bool,
)
    requires
        holds_numbers(state),
    ensures
        on_format(state, attributes, well_formed) matches Ok(next) ==> holds_numbers(next),
{
}

/// A `col` tag leaves every size the text of a number.
pub proof fn lemma_col_keeps_numbers(
    state: ReaderView,
    attributes: Seq<AttributeView>,
    well_formed: bool,
)
    requires
        holds_numbers(state),
    ensures
        on_col(state, attributes, well_formed) matches Ok(next) ==> holds_numbers(next),
{
    lemma_zero_is_a_number();
    if let Ok(next) = on_col(state, attributes, well_formed) {
        assert forall|i: int| 0 <= i < next.sheet.cols.len() implies is_size(
            (#[trigger] next.sheet.cols[i]).width,
        ) by {
            if i < state.sheet.cols.len() {
                assert(is_size(state.sheet.cols[i].width));
            }
        }
    }
}

/// A `row` tag leaves every size the text of a number.
pub proof fn lemma_row_keeps_numbers(
    state: ReaderView,
    attributes: Seq<AttributeView>,
    well_formed: bool,
)
    requires
        holds_numbers(state),
    ensures
        on_row(state, attributes, well_formed) matches Ok(next) ==> holds_numbers(next),
{
    lemma_zero_is_a_number();
    if let Ok(next) = on_row(state, attributes, well_formed) {
        assert forall|i: int| 0 <= i < next.sheet.rows.len() implies is_size(
            (#[trigger] next.sheet.rows[i]).height,
        ) by {
            if i < state.sheet.rows.len() {
                assert(is_size(state.sheet.rows[i].height));
            }
        }
    }
}

/// The end of the worksheet gives a sheet in which every size is the text
/// of a number.
pub proof fn lemma_finish_keeps_numbers(state: ReaderView)
    requires
        holds_numbers(state),
    ensures
        finish(state) matches Ok(sheet) ==> sizes_are_numbers(sheet),
{
    if let Ok(sheet) = finish(state) {
        assert forall|i: int| 0 <= i < sheet.cols.len() implies is_size(
            (#[trigger] sheet.cols[i]).width,
        ) by {
            if i < state.sheet.cols.len() {
                assert(is_size(state.sheet.cols[i].width));
            }
        }
        assert forall|i: int| 0 <= i < sheet.rows.len() implies is_size(
            (#[trigger] sheet.rows[i]).height,
        ) by {
            if i < state.sheet.rows.len() {
                assert(is_size(state.sheet.rows[i].height));
            }
        }
    }
}

/// A start tag leaves every size the text of a number.
pub proof fn lemma_start_keeps_numbers(
    state: ReaderView,
    name: Seq<char>,
    attributes: Seq<AttributeView>,
    well_formed: bool,
    links: Entries,
)
    requires
        holds_numbers(state),
    ensures
        on_start(state, name, attributes, well_formed, links) matches Ok(next) ==> holds_numbers(
            next,
        ),
{
    if let Ok(next) = on_start(state, name, attributes, well_formed, links) {
        if name == "sheetFormatPr"@ {
            lemma_format_keeps_numbers(state, attributes, well_formed);
        } else if name == "col"@ {
            lemma_col_keeps_numbers(state, attributes, well_formed);
        } else if name == "row"@ {
            lemma_row_keeps_numbers(state, attributes, well_formed);
        } else if name == "pane"@ {
        } else {
            assert(same_sizes(state, next));
        }
    }
}

/// Every size that the decoder holds stays the text of a number: where
/// that is so before an event, it is so after it, and in the sheet that
/// the end of the worksheet gives.
pub proof fn lemma_step_keeps_numbers(state: ReaderView, event: EventView, env: SheetEnv)
    requires
        holds_numbers(state),
    ensures
        match step(state, event, env) {
            Step::Continue(next) => holds_numbers(next),
            Step::Done(sheet) => sizes_are_numbers(sheet),
            Step::Fail(_) => true,
        },
{
    match step(state, event, env) {
        Step::Continue(next) => {
            match state.validation {
                Some(pending) => {
                    assert(same_sizes(state, next));
                },
                None => match event {
                    EventView::Start { name, attributes, well_formed } => {
                        lemma_start_keeps_numbers(state, name, attributes, well_formed, env.links);
                    },
                    _ => {
                        assert(same_sizes(state, next));
                    },
                },
            }
        },
        Step::Done(sheet) => {
            lemma_finish_keeps_numbers(state);
        },
        Step::Fail(_) => {},
    }
}

/// In every sheet that the events of a worksheet decode to, every size is
/// the text of a number.
pub proof fn lemma_decoded_sizes_are_numbers(
    state: ReaderView,
    events: Seq<EventView>,
    env: SheetEnv,
)
    requires
        holds_numbers(state),
    ensures
        sheet_from(state, events, env) matches Ok(sheet) ==> sizes_are_numbers(sheet),
    decreases events.len(),
{
    if events.len() > 0 {
        lemma_step_keeps_numbers(state, events[0], env);
        match step(state, events[0], env) {
            Step::Continue(next) => {
                lemma_decoded_sizes_are_numbers(next, events.drop_first(), env);
            },
            _ => {},
        }
    }
}

} // verus!
