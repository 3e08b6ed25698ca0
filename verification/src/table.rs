//! The table that shows the symbols of a report: one row for each symbol,
//! with the name wrapped to the width that the terminal leaves for it.

use vstd::prelude::*;
use vstd::utf8::encode_utf8;

use crate::error::{Error, ErrorKind};
use crate::report::SymbolReport;
use crate::sym::SymbolView;
use crate::text::{decimal, decimal_string};

verus! {

/// What the `bytesize` crate renders a number of bytes as, with binary units.
/// The sizes of symbols are 32 bits wide; in that range the rounding of the
/// logarithm that the crate takes has no say in the unit.
pub uninterp spec fn human_readable(bytes: u32) -> Seq<char>;

/// Calls `ByteSize::to_string_as` of the `bytesize` crate with binary units:
/// below 1024 the result is the number followed by ` B`, from there on the
/// number of kiB, MiB or GiB with one decimal place. The contract gives the
/// result the name `human_readable` and says no more of it.
#[verifier::external_body]
fn human_size(bytes: u32) -> (s: String)
    ensures
        s@ == human_readable(bytes),
{
    bytesize::ByteSize::b(u64::from(bytes)).to_string_as(true)
}

/// What the `textwrap` crate makes of a text that it wraps to lines of the
/// given width.
pub uninterp spec fn filled(text: Seq<char>, width: usize) -> Seq<char>;

/// Calls `textwrap::fill` with a width and no other options: the text, broken
/// into lines of at most `width` columns where its words allow, with a line
/// feed between the lines. The contract gives the result the name `filled`
/// and says no more of it.
#[verifier::external_body]
fn fill(text: &str, width: usize) -> (s: String)
    ensures
        s@ == filled(text@, width),
{
    textwrap::fill(text, width)
}

/// The width of a text in a table: the number of bytes of its UTF-8 encoding.
pub open spec fn width_of(text: Seq<char>) -> nat {
    encode_utf8(text).len()
}

/// What a [`SymbolRow`] holds.
pub struct SymbolRowView {
    pub lang: Seq<char>,
    pub name: Seq<char>,
    pub size: Seq<char>,
    pub sym_type: Seq<char>,
    pub mem_region: Seq<char>,
}

impl SymbolRowView {
    /// The cell in column `col`, counted from 0.
    pub open spec fn cell(self, col: int) -> Seq<char> {
        if col == 0 {
            self.lang
        } else if col == 1 {
            self.name
        } else if col == 2 {
            self.size
        } else if col == 3 {
            self.sym_type
        } else {
            self.mem_region
        }
    }

    /// The row with its name wrapped to the given width.
    pub open spec fn wrapped(self, width: usize) -> SymbolRowView {
        SymbolRowView { name: filled(self.name, width), ..self }
    }
}

/// The titles of the columns.
pub open spec fn spec_titles() -> SymbolRowView {
    SymbolRowView {
        lang: "Language"@,
        name: "Name"@,
        size: "Size [Bytes]"@,
        sym_type: "Symbol Type"@,
        mem_region: "Memory Region"@,
    }
}

/// The row that shows a symbol: its language, its demangled name, its size,
/// in decimal digits or as `bytesize` renders it, its type and the memory
/// region of its type.
pub open spec fn row_of(sym: SymbolView, human_readable: bool) -> SymbolRowView {
    SymbolRowView {
        lang: sym.lang.spec_name(),
        name: sym.demangled,
        size: if human_readable {
            self::human_readable(sym.size)
        } else {
            decimal(sym.size as nat)
        },
        sym_type: sym.sym_type.spec_name(),
        mem_region: sym.sym_type.spec_mem_region().spec_name(),
    }
}

/// The rows that show the symbols, in their order.
pub open spec fn rows_of(syms: Seq<SymbolView>, human_readable: bool) -> Seq<SymbolRowView> {
    syms.map_values(|sym: SymbolView| row_of(sym, human_readable))
}

/// The width of column `col`: that of its widest cell, the title included.
pub open spec fn column_width(rows: Seq<SymbolRowView>, col: int) -> nat
    decreases rows.len(),
{
    if rows.len() == 0 {
        width_of(spec_titles().cell(col))
    } else {
        let before = column_width(rows.drop_last(), col);
        let last = width_of(rows.last().cell(col));
        if last > before {
            last
        } else {
            before
        }
    }
}

/// The measures of the frame that a table is set in: the width of the
/// terminal, the indentation of the table, and the padding to the left and to
/// the right of each cell.
#[derive(Debug, Clone, Copy, PartialEq, Eq)]
pub struct TableFrame {
    pub term_width: usize,
    pub indent: usize,
    pub left_pad: usize,
    pub right_pad: usize,
}

/// The width that a table takes without its names: the indentation, the
/// padding of its five columns, the four separators between them, and the
/// widths of the four columns other than the name.
pub open spec fn fixed_width(frame: TableFrame, rows: Seq<SymbolRowView>) -> int {
    frame.indent + 5 * (frame.left_pad + frame.right_pad) + 4 + column_width(rows, 0)
        + column_width(rows, 2) + column_width(rows, 3) + column_width(rows, 4)
}

/// The width that the terminal leaves for the names, if the rest of the table
/// fits into it.
pub open spec fn name_width(frame: TableFrame, rows: Seq<SymbolRowView>) -> Option<usize> {
    if fixed_width(frame, rows) <= frame.term_width {
        Some((frame.term_width - fixed_width(frame, rows)) as usize)
    } else {
        None
    }
}

/// The table that shows the symbols: their rows, each with its name wrapped
/// to the width that the terminal leaves for the names. There is none where
/// the terminal is too narrow for the other columns.
pub open spec fn table_of(syms: Seq<SymbolView>, human_readable: bool, frame: TableFrame) -> Option<
    Seq<SymbolRowView>,
> {
    let rows = rows_of(syms, human_readable);
    match name_width(frame, rows) {
        Some(width) => Some(rows.map_values(|row: SymbolRowView| row.wrapped(width))),
        None => None,
    }
}

/// One row of the table of symbols.
#[derive(Debug, PartialEq, Eq)]
pub struct SymbolRow {
    pub lang: String,
    pub name: String,
    pub size: String,
    pub sym_type: String,
    pub mem_region: String,
}

impl View for SymbolRow {
    type V = SymbolRowView;

    open spec fn view(&self) -> SymbolRowView {
        SymbolRowView {
            lang: self.lang@,
            name: self.name@,
            size: self.size@,
            sym_type: self.sym_type@,
            mem_region: self.mem_region@,
        }
    }
}

impl DeepView for SymbolRow {
    type V = SymbolRowView;

    open spec fn deep_view(&self) -> SymbolRowView {
        self@
    }
}

/// The widths of the five columns of a table.
#[derive(Debug, Clone, Copy, PartialEq, Eq)]
pub struct ColumnWidths {
    pub lang: usize,
    pub name: usize,
    pub size: usize,
    pub sym_type: usize,
    pub mem_region: usize,
}

/// The titles of the columns.
pub fn titles() -> (t: SymbolRow)
    ensures
        t@ == spec_titles(),
{
    SymbolRow {
        lang: String::from_str("Language"),
        name: String::from_str("Name"),
        size: String::from_str("Size [Bytes]"),
        sym_type: String::from_str("Symbol Type"),
        mem_region: String::from_str("Memory Region"),
    }
}

/// The width of a text in a table.
pub fn text_width(text: &str) -> (w: usize)
    ensures
        w == width_of(text@),
{
    text.as_bytes().len()
}

/// The larger of two widths.
fn wider(a: usize, b: usize) -> (w: usize)
    ensures
        w == if b > a {
            b
        } else {
            a
        },
{
    if b > a {
        b
    } else {
        a
    }
}

/// Measures the columns of a table: each is as wide as its widest cell, the
/// title included.
pub fn column_widths(rows: &Vec<SymbolRow>) -> (w: ColumnWidths)
    ensures
        w.lang == column_width(rows.deep_view(), 0),
        w.name == column_width(rows.deep_view(), 1),
        w.size == column_width(rows.deep_view(), 2),
        w.sym_type == column_width(rows.deep_view(), 3),
        w.mem_region == column_width(rows.deep_view(), 4),
{
    let ghost views = rows.deep_view();
    let t = titles();
    let mut w = ColumnWidths {
        lang: text_width(t.lang.as_str()),
        name: text_width(t.name.as_str()),
        size: text_width(t.size.as_str()),
        sym_type: text_width(t.sym_type.as_str()),
        mem_region: text_width(t.mem_region.as_str()),
    };
    let mut i: usize = 0;
    proof {
        assert(views.take(0).len() == 0);
    }
    while i < rows.len()
        invariant
            i <= rows.len(),
            views == rows.deep_view(),
            w.lang == column_width(views.take(i as int), 0),
            w.name == column_width(views.take(i as int), 1),
            w.size == column_width(views.take(i as int), 2),
            w.sym_type == column_width(views.take(i as int), 3),
            w.mem_region == column_width(views.take(i as int), 4),
        decreases rows.len() - i,
    {
        proof {
            assert(views.take(i + 1).drop_last() == views.take(i as int));
            assert(views.take(i + 1).last() == rows@[i as int]@);
        }
        let row = &rows[i];
        w = ColumnWidths {
            lang: wider(w.lang, text_width(row.lang.as_str())),
            name: wider(w.name, text_width(row.name.as_str())),
            size: wider(w.size, text_width(row.size.as_str())),
            sym_type: wider(w.sym_type, text_width(row.sym_type.as_str())),
            mem_region: wider(w.mem_region, text_width(row.mem_region.as_str())),
        };
        i += 1;
    }
    proof {
        assert(views.take(rows.len() as int) == views);
    }
    w
}

/// The width that the frame leaves for the names of a table with the given
/// column widths. Fails with `TableFormat` where the terminal is too narrow
/// for the other columns.
pub fn remaining_width(frame: &TableFrame, widths: &ColumnWidths) -> (r: Result<usize, Error>)
    ensures
        ({
            let fixed = frame.indent + 5 * (frame.left_pad + frame.right_pad) + 4 + widths.lang
                + widths.size + widths.sym_type + widths.mem_region;
            if fixed <= frame.term_width {
                r == Ok::<usize, Error>((frame.term_width - fixed) as usize)
            } else {
                r matches Err(e) && e.is_plain(ErrorKind::TableFormat)
            }
        }),
{
    let fixed: u128 = frame.indent as u128 + 5 * (frame.left_pad as u128 + frame.right_pad as u128)
        + 4 + widths.lang as u128 + widths.size as u128 + widths.sym_type as u128
        + widths.mem_region as u128;
    if fixed <= frame.term_width as u128 {
        Ok(frame.term_width - fixed as usize)
    } else {
        Err(Error::new(ErrorKind::TableFormat))
    }
}

impl<'a> SymbolReport<'a> {
    /// The rows that show the symbols of the report, with their sizes in
    /// decimal digits or, where `human_readable` is set, as `bytesize` renders
    /// them.
    pub fn rows(&self, human_readable: bool) -> (rows: Vec<SymbolRow>)
        ensures
            rows.deep_view() == rows_of(self@, human_readable),
    {
        let mut rows: Vec<SymbolRow> = Vec::new();
        let mut i: usize = 0;
        while i < self.len()
            invariant
                i <= self@.len(),
                rows.len() == i,
                forall|k: int| 0 <= k < i ==> (#[trigger] rows@[k])@ == row_of(
                    self@[k],
                    human_readable,
                ),
            decreases self@.len() - i,
        {
            let sym = self.get(i);
            let size = if human_readable {
                human_size(sym.size)
            } else {
                decimal_string(sym.size as u64)
            };
            rows.push(
                SymbolRow {
                    lang: String::from_str(sym.lang.name()),
                    name: sym.demangled.clone(),
                    size,
                    sym_type: String::from_str(sym.sym_type.name()),
                    mem_region: String::from_str(sym.sym_type.mem_region().name()),
                },
            );
            i += 1;
        }
        proof {
            assert(rows.deep_view() == rows_of(self@, human_readable));
        }
        rows
    }

    /// The table that shows the symbols of the report in the given frame:
    /// their rows, each with its name wrapped to the width that the terminal
    /// leaves for the names. Fails with `TableFormat` where the terminal is
    /// too narrow for the other columns.
    pub fn table(&self, human_readable: bool, frame: &TableFrame) -> (r: Result<
        Vec<SymbolRow>,
        Error,
    >)
        ensures
            match table_of(self@, human_readable, *frame) {
                Some(table) => r matches Ok(rows) && rows.deep_view() == table,
                None => r matches Err(e) && e.is_plain(ErrorKind::TableFormat),
            },
    {
        let rows = self.rows(human_readable);
        let widths = column_widths(&rows);
        let width = match remaining_width(frame, &widths) {
            Ok(width) => width,
            Err(e) => {
                return Err(e);
            },
        };
        let ghost plain = rows.deep_view();
        let mut table: Vec<SymbolRow> = Vec::new();
        for row in it: rows
            invariant
                it.seq() == rows@,
                plain == rows.deep_view(),
                table.len() == it.index(),
                forall|k: int|
                    0 <= k < it.index() ==> (#[trigger] table@[k])@ == plain[k].wrapped(width),
        {
            let name = fill(row.name.as_str(), width);
            table.push(
                SymbolRow {
                    lang: row.lang,
                    name,
                    size: row.size,
                    sym_type: row.sym_type,
                    mem_region: row.mem_region,
                },
            );
        }
        proof {
            assert(table.deep_view() == plain.map_values(|row: SymbolRowView| row.wrapped(width)));
        }
        Ok(table)
    }
}

} // verus!
