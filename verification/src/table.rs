//! Text tables, as `oathgate` lists bridges, kernels and images.

use vstd::prelude::*;
use vstd::utf8::encode_utf8;

use crate::cli::{format_name, state_name, text, DeviceType, DiskFormat, ProcessState};
use crate::text::{dec_text, push_char, push_dec, push_str};

verus! {

/// Length, in bytes, of the UTF-8 encoding of a text (as `str::len`).
pub open spec fn byte_len(s: Seq<char>) -> usize {
    encode_utf8(s).len() as usize
}

/// `n` spaces (none when `n` is not positive).
pub open spec fn spaces(n: int) -> Seq<char> {
    Seq::new(if n > 0 { n as nat } else { 0 }, |i: int| ' ')
}

/// `n` horizontal box-drawing lines.
pub open spec fn bars(n: int) -> Seq<char> {
    Seq::new(if n > 0 { n as nat } else { 0 }, |i: int| '\u{2500}')
}

/// A cell of a table row: a space, the text padded with spaces to `width`
/// characters, a space and a vertical line (as `" {:width$} │"`).
pub open spec fn field_text(cell: Seq<char>, width: int) -> Seq<char> {
    seq![' '] + cell + spaces(width - cell.len()) + seq![' ', '\u{2502}']
}

/// The first `n` cells of a row.
pub open spec fn fields_text(cells: Seq<Seq<char>>, widths: Seq<usize>, n: nat) -> Seq<char>
    decreases n,
{
    if n == 0 {
        Seq::empty()
    } else {
        fields_text(cells, widths, (n - 1) as nat) + field_text(cells[n - 1], widths[n - 1] as int)
    }
}

/// A horizontal rule over the first `n` columns, `l` at the left, `m`
/// between columns (the closing character is added by `rule_text`).
pub open spec fn rule_body(widths: Seq<usize>, n: nat, l: char, m: char) -> Seq<char>
    decreases n,
{
    if n == 0 {
        Seq::empty()
    } else if n == 1 {
        seq![l] + bars(widths[0] + 2)
    } else {
        rule_body(widths, (n - 1) as nat, l, m) + seq![m] + bars(widths[n - 1] + 2)
    }
}

/// A horizontal rule of a table with columns of `widths`.
pub open spec fn rule_text(widths: Seq<usize>, l: char, m: char, e: char) -> Seq<char> {
    rule_body(widths, widths.len(), l, m) + seq![e]
}

/// A row of a table: a vertical line, then its cells.
pub open spec fn row_text(cells: Seq<Seq<char>>, widths: Seq<usize>) -> Seq<char> {
    seq!['\u{2502}'] + fields_text(cells, widths, cells.len())
}

/// Something shown as a row of a table.
pub trait AsTable {
    /// Headings of the columns.
    spec fn spec_header() -> Seq<Seq<char>>;

    /// Texts of the row's cells, one per column.
    spec fn spec_cells(&self) -> Seq<Seq<char>>;

    /// Returns the headings of the columns.
    fn header() -> (h: Vec<&'static str>)
        ensures
            h@.len() == Self::spec_header().len(),
            forall|i: int| 0 <= i < h@.len() ==> #[trigger] h@[i]@ == Self::spec_header()[i],
    ;

    /// Widens the columns to fit this row: each width becomes at least the
    /// length, in bytes, of the row's cell.
    fn update_col_width(&self, widths: &mut [usize])
        requires
            old(widths)@.len() == Self::spec_header().len(),
        ensures
            self.spec_cells().len() == Self::spec_header().len(),
            final(widths)@.len() == old(widths)@.len(),
            forall|i: int|
                0 <= i < old(widths)@.len() ==> #[trigger] final(widths)@[i] == if old(widths)@[i]
                    >= byte_len(self.spec_cells()[i]) {
                    old(widths)@[i]
                } else {
                    byte_len(self.spec_cells()[i])
                },
    ;

    /// The row's cells, each padded to its column's width.
    fn as_table_row(&self, widths: &[usize]) -> (s: String)
        requires
            widths@.len() == Self::spec_header().len(),
        ensures
            s@ == fields_text(self.spec_cells(), widths@, Self::spec_header().len()),
    ;
}

/// Appends the cell `field` padded to `width` characters.
pub fn print_field(s: &mut String, field: &str, width: usize)
    ensures
        final(s)@ == old(s)@ + field_text(field@, width as int),
{
    let chars = crate::text::str_chars(field);
    let n = chars.len();
    push_char(s, ' ');
    push_str(s, field);
    let ghost mid = s@;
    let mut k: usize = n;
    while k < width
        invariant
            n == field@.len(),
            n <= k,
            k <= width || k == n,
            s@ == mid + spaces(k - n),
        decreases width - k,
    {
        push_char(s, ' ');
        proof {
            assert(spaces(k + 1 - n) =~= spaces(k - n).push(' '));
        }
        k = k + 1;
    }
    assert(spaces(k - n) =~= spaces(width - n));
    push_char(s, ' ');
    push_char(s, '\u{2502}');
    assert(s@ =~= old(s)@ + field_text(field@, width as int));
}

/// Sets `w` to at least the length of `cell`.
pub fn widen(widths: &mut [usize], i: usize, cell: &str)
    requires
        i < old(widths)@.len(),
    ensures
        final(widths)@ == old(widths)@.update(
            i as int,
            if old(widths)@[i as int] >= byte_len(cell@) {
                old(widths)@[i as int]
            } else {
                byte_len(cell@)
            },
        ),
{
    let n = cell.len();
    if widths[i] < n {
        widths[i] = n;
    }
}

/// The width of column `i` over the first `n` rows of `rows`: the length,
/// in bytes, of its heading or of its widest cell, whichever is greater.
pub open spec fn col_width<T: AsTable>(rows: Seq<T>, i: int, n: nat) -> int
    decreases n,
{
    if n == 0 {
        byte_len(T::spec_header()[i]) as int
    } else {
        let w = col_width(rows, i, (n - 1) as nat);
        let c = byte_len(rows[n - 1].spec_cells()[i]) as int;
        if w >= c {
            w
        } else {
            c
        }
    }
}

/// The lines of a table of `rows` under the headings of `T`: a top rule,
/// the headings, a rule, one line per row and a bottom rule, every column
/// exactly as wide as its heading or widest cell.
pub fn draw_table<T: AsTable>(rows: &[T]) -> (lines: Vec<String>)
    ensures
        lines@.len() == rows@.len() + 4,
        exists|widths: Seq<usize>|
            {
                &&& widths.len() == T::spec_header().len()
                &&& forall|i: int| 0 <= i < widths.len() ==> #[trigger] widths[i] == col_width(rows@, i, rows@.len())
                &&& lines@[0]@ == rule_text(widths, '\u{250c}', '\u{252c}', '\u{2510}')
                &&& lines@[1]@ == row_text(T::spec_header(), widths)
                &&& lines@[2]@ == rule_text(widths, '\u{251c}', '\u{253c}', '\u{2524}')
                &&& forall|r: int|
                    0 <= r < rows@.len() ==> #[trigger] lines@[3 + r]@ == seq!['\u{2502}']
                        + fields_text(rows@[r].spec_cells(), widths, widths.len())
                &&& lines@[rows@.len() as int + 3]@ == rule_text(widths, '\u{2514}', '\u{2534}', '\u{2518}')
            },
{
    let header = T::header();
    let mut widths: Vec<usize> = Vec::new();
    let mut i: usize = 0;
    while i < header.len()
        invariant
            i <= header@.len(),
            header@.len() == T::spec_header().len(),
            forall|k: int| 0 <= k < header@.len() ==> #[trigger] header@[k]@ == T::spec_header()[k],
            widths@.len() == i,
            forall|k: int| 0 <= k < i ==> #[trigger] widths@[k] == byte_len(T::spec_header()[k]),
        decreases header@.len() - i,
    {
        widths.push(header[i].len());
        i = i + 1;
    }
    let mut r: usize = 0;
    while r < rows.len()
        invariant
            r <= rows@.len(),
            widths@.len() == T::spec_header().len(),
            forall|k: int| 0 <= k < widths@.len() ==> #[trigger] widths@[k] == col_width(rows@, k, r as nat),
        decreases rows@.len() - r,
    {
        let ghost before = widths@;
        rows[r].update_col_width(widths.as_mut_slice());
        assert forall|k: int| 0 <= k < widths@.len() implies #[trigger] widths@[k] == col_width(
            rows@,
            k,
            (r + 1) as nat,
        ) by {
            assert(before[k] == col_width(rows@, k, r as nat));
        }
        r = r + 1;
    }
    let mut lines: Vec<String> = Vec::new();
    lines.push(rule(widths.as_slice(), '\u{250c}', '\u{252c}', '\u{2510}'));
    let mut head = String::new();
    push_char(&mut head, '\u{2502}');
    let mut c: usize = 0;
    while c < header.len()
        invariant
            c <= header@.len(),
            header@.len() == T::spec_header().len(),
            widths@.len() == T::spec_header().len(),
            forall|k: int| 0 <= k < header@.len() ==> #[trigger] header@[k]@ == T::spec_header()[k],
            head@ == seq!['\u{2502}'] + fields_text(T::spec_header(), widths@, c as nat),
        decreases header@.len() - c,
    {
        print_field(&mut head, header[c], widths[c]);
        c = c + 1;
    }
    lines.push(head);
    lines.push(rule(widths.as_slice(), '\u{251c}', '\u{253c}', '\u{2524}'));
    let mut q: usize = 0;
    while q < rows.len()
        invariant
            q <= rows@.len(),
            widths@.len() == T::spec_header().len(),
            lines@.len() == 3 + q,
            forall|p: int|
                0 <= p < q ==> #[trigger] lines@[3 + p]@ == seq!['\u{2502}'] + fields_text(
                    rows@[p].spec_cells(),
                    widths@,
                    widths@.len(),
                ),
            lines@[0]@ == rule_text(widths@, '\u{250c}', '\u{252c}', '\u{2510}'),
            lines@[1]@ == row_text(T::spec_header(), widths@),
            lines@[2]@ == rule_text(widths@, '\u{251c}', '\u{253c}', '\u{2524}'),
        decreases rows@.len() - q,
    {
        let mut line = String::new();
        push_char(&mut line, '\u{2502}');
        let cells = rows[q].as_table_row(widths.as_slice());
        push_str(&mut line, cells.as_str());
        lines.push(line);
        q = q + 1;
    }
    lines.push(rule(widths.as_slice(), '\u{2514}', '\u{2534}', '\u{2518}'));
    lines
}

/// A horizontal rule for columns of `widths`.
fn rule(widths: &[usize], l: char, m: char, e: char) -> (s: String)
    ensures
        s@ == rule_text(widths@, l, m, e),
{
    let mut s = String::new();
    let mut i: usize = 0;
    while i < widths.len()
        invariant
            i <= widths@.len(),
            s@ == rule_body(widths@, i as nat, l, m),
        decreases widths@.len() - i,
    {
        if i == 0 {
            push_char(&mut s, l);
        } else {
            push_char(&mut s, m);
        }
        let ghost mid = s@;
        assert(mid =~= (if i == 0 {
            seq![l]
        } else {
            rule_body(widths@, i as nat, l, m) + seq![m]
        }));
        push_char(&mut s, '\u{2500}');
        push_char(&mut s, '\u{2500}');
        let mut k: usize = 0;
        while k < widths[i]
            invariant
                i < widths@.len(),
                s@ == mid + bars(k + 2),
                k <= widths@[i as int],
            decreases widths@[i as int] - k,
        {
            push_char(&mut s, '\u{2500}');
            assert(bars(k + 3) =~= bars(k + 2).push('\u{2500}'));
            k = k + 1;
        }
        assert(mid == (if i == 0 {
            seq![l]
        } else {
            rule_body(widths@, i as nat, l, m) + seq![m]
        }));
        assert(s@ =~= rule_body(widths@, (i + 1) as nat, l, m));
        i = i + 1;
    }
    push_char(&mut s, e);
    s
}

} // verus!
