use vstd::prelude::*;
use vstd::slice::slice_subrange;

pub mod bitformat;
pub mod decoder;
pub mod websocket_frame;
pub mod textfmt;

use crate::bitformat::bin_cells;
use crate::bitformat::bin_cells_string;
use crate::bitformat::border_cells;
use crate::bitformat::border_cells_string;
use crate::bitformat::dec_cells;
use crate::bitformat::dec_cells_string;
use crate::textfmt::centered;
use crate::textfmt::centered_dec;
use crate::textfmt::dec_text;
use crate::textfmt::push_char;

verus! {

/// The direction a run of the inspector works in: decoding a frame's bytes
/// into a report, or (declared, unimplemented) encoding.
pub enum Mode {
    Decode,
    Encode,
}

/// The fixed header of a qword table: a border, the column labels, and the
/// border under them, each line closed by a line break.
pub open spec fn qword_table_header_text() -> Seq<char> {
    "       +--------+--------+--------+--------+--------+--------+--------+--------+\n Bytes | Byte 1 | Byte 2 | Byte 3 | Byte 4 | Byte 5 | Byte 6 | Byte 7 | Byte 8 |\n+------+--------+--------+--------+--------+--------+--------+--------+--------+\n"@
}

/// One qword-table row: the bytes in binary, the row number with the bytes'
/// decimal values beneath, and the row's bottom border, closed by a line
/// break.
pub open spec fn qword_table_row_text(data: Seq<u8>, qnum: nat) -> Seq<char> {
    "|QWORD |"@ + bin_cells(data) + "\n|"@ + centered(dec_text(qnum), 6) + seq!['|'] + dec_cells(
        data,
    ) + "\n+------+"@ + border_cells(data.len()) + seq!['\n']
}

/// The full rows of the qword table for `data`: rows `1..=n`, row `k`
/// covering bytes `8*(k-1)..8*k`.
pub open spec fn qword_table_rows_text(data: Seq<u8>, n: int) -> Seq<char>
    decreases n,
{
    if n <= 0 {
        Seq::empty()
    } else {
        qword_table_rows_text(data, n - 1) + qword_table_row_text(
            data.subrange(8 * (n - 1), 8 * n),
            n as nat,
        )
    }
}

/// The whole qword table for `data`: the header, one full row per eight
/// bytes, and a partial row for the leftover bytes only when there are any.
pub open spec fn qword_table_text(data: Seq<u8>) -> Seq<char> {
    let nq = data.len() as int / 8;
    let text = qword_table_header_text() + qword_table_rows_text(data, nq);
    if data.len() % 8 == 0 {
        text
    } else {
        text + qword_table_row_text(data.subrange(8 * nq, data.len() as int), (nq + 1) as nat)
    }
}

/// Builds the header for a qword table.
fn format_qword_table_header() -> (r: String)
    ensures
        r@ == qword_table_header_text(),
{
    String::from_str(
        "       +--------+--------+--------+--------+--------+--------+--------+--------+\n Bytes | Byte 1 | Byte 2 | Byte 3 | Byte 4 | Byte 5 | Byte 6 | Byte 7 | Byte 8 |\n+------+--------+--------+--------+--------+--------+--------+--------+--------+\n",
    )
}

/// Builds one row of a qword table.
fn format_qword_row(qword_number: usize, data: &[u8], num_bytes: usize) -> (r: String)
    requires
        data@.len() == num_bytes,
    ensures
        r@ == qword_table_row_text(data@, qword_number as nat),
{
    let mut r = String::from_str("|QWORD |");
    let bins = bin_cells_string(data);
    r.append(bins.as_str());
    r.append("\n|");
    let num = centered_dec(qword_number as u64, 6);
    r.append(num.as_str());
    push_char(&mut r, '|');
    let decs = dec_cells_string(data);
    r.append(decs.as_str());
    r.append("\n+------+");
    let border = border_cells_string(data.len());
    r.append(border.as_str());
    push_char(&mut r, '\n');
    proof {
        assert(r@ =~= qword_table_row_text(data@, qword_number as nat));
    }
    r
}

/// Renders a byte sequence as a qword table: a header, one row per eight
/// bytes, and a partial row for the leftover bytes. An input whose length
/// is a multiple of eight gets no partial row; an empty input gets the
/// header alone.
pub fn format_qword_table(data: &Vec<u8>) -> (r: String)
    ensures
        r@ == qword_table_text(data@),
{
    let mut result = format_qword_table_header();
    let num_qwords = data.len() / 8;
    proof {
        assert(8 * (data@.len() as int / 8) <= data@.len() as int) by (nonlinear_arith);
    }
    let mut i: usize = 0;
    while i < num_qwords
        invariant
            i <= num_qwords,
            num_qwords == data@.len() / 8,
            8 * num_qwords <= data@.len(),
            data@.len() <= usize::MAX,
            result@ =~= qword_table_header_text() + qword_table_rows_text(data@, i as int),
        decreases num_qwords - i,
    {
        let from_byte_ix = i * 8;
        let to_byte_ix = from_byte_ix + 8;
        let row_data = slice_subrange(data.as_slice(), from_byte_ix, to_byte_ix);
        let row = format_qword_row(i + 1, row_data, 8);
        result.append(row.as_str());
        i = i + 1;
    }
    let remaining_bytes = data.len() % 8;
    if remaining_bytes > 0 {
        let from_byte_ix = num_qwords * 8;
        let row_data = slice_subrange(data.as_slice(), from_byte_ix, data.len());
        let row = format_qword_row(num_qwords + 1, row_data, remaining_bytes);
        result.append(row.as_str());
    }
    proof {
        assert(result@ =~= qword_table_text(data@));
    }
    result
}

} // verus!
