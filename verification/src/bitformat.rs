//! The generic byte-grid renderer: any byte sequence laid out in rows of
//! eight bytes ("qwords"), each byte shown in binary with its decimal value
//! beneath, and a shorter final row for the leftover bytes.
use vstd::prelude::*;
use vstd::slice::slice_subrange;

use crate::textfmt::bin_string;
use crate::textfmt::bin_text;
use crate::textfmt::centered;
use crate::textfmt::centered_dec;
use crate::textfmt::dec_text;
use crate::textfmt::pad_left;
use crate::textfmt::paren_dec_padded;
use crate::textfmt::paren_text;
use crate::textfmt::push_char;

verus! {

/// The binary cells of one grid row: each byte's eight binary digits,
/// closed by the column separator.
pub open spec fn bin_cells(data: Seq<u8>) -> Seq<char>
    decreases data.len(),
{
    if data.len() == 0 {
        Seq::empty()
    } else {
        bin_cells(data.drop_last()) + bin_text(data.last()).push('|')
    }
}

/// The decimal cells of one grid row: each byte's value in parentheses,
/// right-justified to the eight-character column, closed by the separator.
pub open spec fn dec_cells(data: Seq<u8>) -> Seq<char>
    decreases data.len(),
{
    if data.len() == 0 {
        Seq::empty()
    } else {
        dec_cells(data.drop_last()) + pad_left(paren_text(data.last() as nat), 8).push('|')
    }
}

/// The bottom border of one grid row: one eight-dash segment per column.
pub open spec fn border_cells(n: nat) -> Seq<char>
    decreases n,
{
    if n == 0 {
        Seq::empty()
    } else {
        border_cells((n - 1) as nat) + "--------+"@
    }
}

/// One grid row: the bytes in binary, the row number with the bytes'
/// decimal values beneath, and the row's bottom border. The row opens with
/// a line break and closes with the border, line-break free, so that rows
/// chain directly under the grid header.
pub open spec fn qword_row_text(data: Seq<u8>, qnum: nat) -> Seq<char> {
    "\n|QWORD |"@ + bin_cells(data) + "\n|"@ + centered(dec_text(qnum), 6) + seq!['|']
        + dec_cells(data) + "\n+------+"@ + border_cells(data.len())
}

/// The full rows of the grid for `data`: rows `1..=n`, row `k` covering
/// bytes `8*(k-1)..8*k`.
pub open spec fn full_qword_rows_text(data: Seq<u8>, n: int) -> Seq<char>
    decreases n,
{
    if n <= 0 {
        Seq::empty()
    } else {
        full_qword_rows_text(data, n - 1) + qword_row_text(
            data.subrange(8 * (n - 1), 8 * n),
            n as nat,
        )
    }
}

/// The whole byte grid for `data`: the header, one full row per eight
/// bytes, and a partial row for the leftover bytes only when there are any.
pub open spec fn raw_bytes_text(data: Seq<u8>) -> Seq<char> {
    let nq = data.len() as int / 8;
    let text = "\n       +--------+--------+--------+--------+--------+--------+--------+--------+\n Bytes | Byte 1 | Byte 2 | Byte 3 | Byte 4 | Byte 5 | Byte 6 | Byte 7 | Byte 8 |\n+------+--------+--------+--------+--------+--------+--------+--------+--------+"@
        + full_qword_rows_text(data, nq);
    if data.len() % 8 == 0 {
        text
    } else {
        text + qword_row_text(data.subrange(8 * nq, data.len() as int), (nq + 1) as nat)
    }
}

/// Builds the binary cells of one row.
pub fn bin_cells_string(data: &[u8]) -> (r: String)
    ensures
        r@ == bin_cells(data@),
{
    let mut r = String::new();
    let mut i: usize = 0;
    let n = data.len();
    while i < n
        invariant
            i <= n,
            n == data@.len(),
            r@ =~= bin_cells(data@.take(i as int)),
        decreases n - i,
    {
        let cell = bin_string(data[i]);
        r.append(cell.as_str());
        push_char(&mut r, '|');
        proof {
            assert(data@.take(i + 1).drop_last() =~= data@.take(i as int));
            assert(data@.take(i + 1).last() == data@[i as int]);
            assert(r@ =~= bin_cells(data@.take(i + 1)));
        }
        i = i + 1;
    }
    proof {
        assert(data@.take(n as int) =~= data@);
    }
    r
}

/// Builds the decimal cells of one row.
pub fn dec_cells_string(data: &[u8]) -> (r: String)
    ensures
        r@ == dec_cells(data@),
{
    let mut r = String::new();
    let mut i: usize = 0;
    let n = data.len();
    while i < n
        invariant
            i <= n,
            n == data@.len(),
            r@ =~= dec_cells(data@.take(i as int)),
        decreases n - i,
    {
        let cell = paren_dec_padded(data[i] as u64, 8);
        r.append(cell.as_str());
        push_char(&mut r, '|');
        proof {
            assert(data@.take(i + 1).drop_last() =~= data@.take(i as int));
            assert(data@.take(i + 1).last() == data@[i as int]);
            assert(r@ =~= dec_cells(data@.take(i + 1)));
        }
        i = i + 1;
    }
    proof {
        assert(data@.take(n as int) =~= data@);
    }
    r
}

/// Builds the bottom border of a row of `n` columns.
pub fn border_cells_string(n: usize) -> (r: String)
    ensures
        r@ == border_cells(n as nat),
{
    let mut r = String::new();
    let mut i: usize = 0;
    while i < n
        invariant
            i <= n,
            r@ =~= border_cells(i as nat),
        decreases n - i,
    {
        r.append("--------+");
        proof {
            assert(r@ =~= border_cells((i + 1) as nat));
        }
        i = i + 1;
    }
    r
}

/// Builds one grid row for the given bytes.
fn qword_row_string(data: &[u8], qword_ix: usize) -> (r: String)
    ensures
        r@ == qword_row_text(data@, qword_ix as nat),
{
    let mut r = String::from_str("\n|QWORD |");
    let bins = bin_cells_string(data);
    r.append(bins.as_str());
    r.append("\n|");
    let num = centered_dec(qword_ix as u64, 6);
    r.append(num.as_str());
    push_char(&mut r, '|');
    let decs = dec_cells_string(data);
    r.append(decs.as_str());
    r.append("\n+------+");
    let border = border_cells_string(data.len());
    r.append(border.as_str());
    proof {
        assert(r@ =~= qword_row_text(data@, qword_ix as nat));
    }
    r
}

/// Renders one full eight-byte grid row with the given row number.
pub fn format_qword(data: [u8; 8], qword_ix: usize) -> (r: String)
    ensures
        r@ == qword_row_text(data@, qword_ix as nat),
{
    qword_row_string(data.as_slice(), qword_ix)
}

/// Renders a partial grid row of one to seven leftover bytes, aligned with
/// a full row's left edge. Only the first `num_bytes` bytes of the slice
/// are rendered; any past them are ignored.
pub fn format_partial_qword(data: &[u8], qword_ix: usize, num_bytes: usize) -> (r: String)
    requires
        data@.len() >= num_bytes,
        1 <= num_bytes <= 7,
    ensures
        r@ == qword_row_text(data@.take(num_bytes as int), qword_ix as nat),
{
    let row_data = slice_subrange(data, 0, num_bytes);
    proof {
        assert(row_data@ =~= data@.take(num_bytes as int));
    }
    qword_row_string(row_data, qword_ix)
}

/// Renders the whole byte grid: a header, one row per eight bytes, and a
/// partial row for the leftover bytes. An input whose length is a multiple
/// of eight gets no partial row; an empty input gets the header alone.
pub fn format_raw_bytes(data: &Vec<u8>) -> (r: String)
    ensures
        r@ == raw_bytes_text(data@),
{
    let mut result = String::from_str(
        "\n       +--------+--------+--------+--------+--------+--------+--------+--------+\n Bytes | Byte 1 | Byte 2 | Byte 3 | Byte 4 | Byte 5 | Byte 6 | Byte 7 | Byte 8 |\n+------+--------+--------+--------+--------+--------+--------+--------+--------+",
    );
    let num_qwords = data.len() / 8;
    proof {
        assert(8 * (data@.len() as int / 8) <= data@.len() as int) by (nonlinear_arith);
    }
    let mut i: usize = 0;
    while i < num_qwords
        invariant
            i <= num_qwords,
            num_qwords == data@.len() / 8,
            8 * num_qwords <= data@.len(),
            data@.len() <= usize::MAX,
            result@ =~= raw_bytes_header_text() + full_qword_rows_text(data@, i as int),
        decreases num_qwords - i,
    {
        let from_byte_ix = i * 8;
        let to_byte_ix = from_byte_ix + 8;
        let row_data = slice_subrange(data.as_slice(), from_byte_ix, to_byte_ix);
        let row = qword_row_string(row_data, i + 1);
        result.append(row.as_str());
        i = i + 1;
    }
    let remaining_bytes = data.len() % 8;
    if remaining_bytes > 0 {
        let from_byte_ix = num_qwords * 8;
        let row_data = slice_subrange(data.as_slice(), from_byte_ix, data.len());
        let row = qword_row_string(row_data, num_qwords + 1);
        result.append(row.as_str());
    }
    proof {
        assert(result@ =~= raw_bytes_text(data@));
    }
    result
}

/// The fixed header of the byte grid.
pub open spec fn raw_bytes_header_text() -> Seq<char> {
    "\n       +--------+--------+--------+--------+--------+--------+--------+--------+\n Bytes | Byte 1 | Byte 2 | Byte 3 | Byte 4 | Byte 5 | Byte 6 | Byte 7 | Byte 8 |\n+------+--------+--------+--------+--------+--------+--------+--------+--------+"@
}


/// Law: the byte grid partitions its input by rows of eight. For an input
/// of length `n` the grid renders exactly `n / 8` full rows, row `k`
/// (counted from zero) covering the eight bytes from `8 * k`; a partial row
/// exists exactly when `n % 8 > 0`, covers the last `n % 8` bytes, and
/// carries the next row number.
pub proof fn lemma_byte_grid_partition(data: Seq<u8>)
    ensures
        data.len() % 8 == 0 ==> raw_bytes_text(data) == raw_bytes_header_text()
            + full_qword_rows_text(data, data.len() as int / 8),
        data.len() % 8 != 0 ==> raw_bytes_text(data) == raw_bytes_header_text()
            + full_qword_rows_text(data, data.len() as int / 8) + qword_row_text(
            data.subrange(8 * (data.len() as int / 8), data.len() as int),
            (data.len() as int / 8 + 1) as nat,
        ),
        forall|k: int|
            0 <= k < data.len() as int / 8 ==> (#[trigger] data.subrange(8 * k, 8 * k + 8)).len()
                == 8,
        data.subrange(8 * (data.len() as int / 8), data.len() as int).len() == data.len() % 8,
{
    assert(8 * (data.len() as int / 8) <= data.len() as int) by (nonlinear_arith);
}

/// Law: the byte grid is a function of the bytes alone, so rendering the
/// same bytes twice yields byte-identical text.
pub proof fn lemma_byte_grid_deterministic(s1: Seq<char>, s2: Seq<char>, data: Seq<u8>)
    requires
        s1 == raw_bytes_text(data),
        s2 == raw_bytes_text(data),
    ensures
        s1 == s2,
{
}

} // verus!
