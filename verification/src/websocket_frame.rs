//! The WebSocket frame model: decoding one masked data frame from its raw
//! bytes, and rendering a field-annotated diagram of it.
use vstd::prelude::*;

use vstd::slice::slice_subrange;

use crate::textfmt::bit_char;
use crate::textfmt::bits_spaced;
use crate::textfmt::center_string;
use crate::textfmt::centered;
use crate::textfmt::centered_dec;
use crate::textfmt::dec_string;
use crate::textfmt::dec_text;
use crate::textfmt::get_bit;
use crate::textfmt::pad_left;
use crate::textfmt::paren_dec_padded;
use crate::textfmt::paren_text;
use crate::textfmt::push_char;
use crate::textfmt::spec_bit;

verus! {

/// Why a byte sequence cannot be decoded as a frame.
#[derive(Clone, Copy, Debug, PartialEq, Eq, Structural)]
pub enum FrameError {
    /// Fewer than the six bytes that hold the header and the masking key.
    MalformedInput,
    /// The declared payload length (126 or 127) selects an extended length
    /// encoding, which this model does not decode.
    UnsupportedLength,
    /// The declared payload length disagrees with the number of bytes
    /// present after the header and masking key.
    InconsistentLength,
}

/// The decoded view of one masked WebSocket data frame.
pub struct WebSocketFrame {
    /// Total bytes in the frame, header included.
    pub frame_len: u8,
    /// Bit 0 of byte 0.
    pub fin_bit: bool,
    /// Bit 1 of byte 0.
    pub rsv1: bool,
    /// Bit 2 of byte 0.
    pub rsv2: bool,
    /// Bit 3 of byte 0.
    pub rsv3: bool,
    /// The low four bits of byte 0.
    pub opcode: u8,
    /// Bit 0 of byte 1.
    pub mask_bit: bool,
    /// The low seven bits of byte 1; only the short form (0 to 125) is
    /// decoded.
    pub payload_len: u8,
    /// Bytes 2 to 5.
    pub masking_key: [u8; 4],
    /// Bytes 6 onward, as they stand in the frame.
    pub masked_payload: Vec<u8>,
    /// The payload with the masking key XOR-ed off, the key cycling every
    /// four bytes.
    pub unmasked_payload: Vec<u8>,
    /// Each unmasked byte reinterpreted as the character of its code point,
    /// for the human-readable preview.
    pub payload: Vec<char>,
}

/// The mathematical view of a decoded frame: the scalar header fields as
/// they stand in the frame, and the key and payloads as byte sequences.
#[verifier::ext_equal]
pub ghost struct FrameView {
    pub frame_len: u8,
    pub fin: bool,
    pub rsv1: bool,
    pub rsv2: bool,
    pub rsv3: bool,
    pub opcode: u8,
    pub mask: bool,
    pub payload_len: u8,
    pub key: Seq<u8>,
    pub masked: Seq<u8>,
    pub unmasked: Seq<u8>,
    pub chars: Seq<char>,
}

impl View for WebSocketFrame {
    type V = FrameView;

    open spec fn view(&self) -> FrameView {
        FrameView {
            frame_len: self.frame_len,
            fin: self.fin_bit,
            rsv1: self.rsv1,
            rsv2: self.rsv2,
            rsv3: self.rsv3,
            opcode: self.opcode,
            mask: self.mask_bit,
            payload_len: self.payload_len,
            key: self.masking_key@,
            masked: self.masked_payload@,
            unmasked: self.unmasked_payload@,
            chars: self.payload@,
        }
    }
}

impl FrameView {
    /// A decoded frame is well formed: the payload length is in the short
    /// form, the frame length counts the six header bytes plus the payload,
    /// the masking key has its four bytes, the three payload views are of
    /// equal length, unmasking XOR-ed each byte with the masking key cycled
    /// every four bytes, and the preview characters carry the unmasked
    /// bytes' code points.
    pub open spec fn wf(self) -> bool {
        &&& self.payload_len <= 125
        &&& self.frame_len == self.payload_len + 6
        &&& self.key.len() == 4
        &&& self.masked.len() == self.payload_len as nat
        &&& self.unmasked.len() == self.payload_len as nat
        &&& self.chars.len() == self.payload_len as nat
        &&& forall|i: int|
            0 <= i < self.payload_len ==> self.unmasked[i] == (self.masked[i] ^ self.key[i % 4])
        &&& forall|i: int| 0 <= i < self.payload_len ==> self.chars[i] == self.unmasked[i] as char
    }
}

/// The view that decoding a byte sequence of six or more bytes yields:
/// every header field read from its bit position, the key and masked
/// payload as they stand in the input, and the unmasked payload and its
/// preview characters computed by cycling the key.
pub open spec fn spec_decode(data: Seq<u8>) -> FrameView
    recommends
        6 <= data.len() <= 255,
{
    FrameView {
        frame_len: data.len() as u8,
        fin: spec_bit(data[0], 0),
        rsv1: spec_bit(data[0], 1),
        rsv2: spec_bit(data[0], 2),
        rsv3: spec_bit(data[0], 3),
        opcode: data[0] & 0x0f,
        mask: spec_bit(data[1], 0),
        payload_len: data[1] & 0x7f,
        key: data.subrange(2, 6),
        masked: data.subrange(6, data.len() as int),
        unmasked: Seq::new((data.len() - 6) as nat, |i: int| data[6 + i] ^ data[2 + i % 4]),
        chars: Seq::new((data.len() - 6) as nat, |i: int| (data[6 + i] ^ data[2 + i % 4]) as char),
    }
}

impl WebSocketFrame {
    /// Decodes a frame from a byte sequence.
    ///
    /// An input shorter than six bytes cannot hold the header and masking
    /// key and is malformed; a declared payload length of 126 or 127 selects
    /// an extended length encoding and is unsupported, whatever the byte
    /// count; a declared length that disagrees with the bytes present after
    /// the six-byte header is inconsistent. Otherwise every field is
    /// extracted and the payload unmasked.
    pub fn from(data: &Vec<u8>) -> (r: Result<WebSocketFrame, FrameError>)
        ensures
            r == Err::<WebSocketFrame, FrameError>(FrameError::MalformedInput) <==> data@.len()
                < 6,
            r == Err::<WebSocketFrame, FrameError>(FrameError::UnsupportedLength) <==> (data@.len()
                >= 6 && data@[1] & 0x7f >= 126),
            r == Err::<WebSocketFrame, FrameError>(FrameError::InconsistentLength) <==> (data@.len()
                >= 6 && data@[1] & 0x7f < 126 && data@.len() != (data@[1] & 0x7f) + 6),
            r is Ok <==> (data@.len() >= 6 && data@[1] & 0x7f < 126 && data@.len() == (data@[1]
                & 0x7f) + 6),
            r is Ok ==> (r->Ok_0)@ == spec_decode(data@) && (r->Ok_0)@.wf(),
    {
        let frame_length: usize = data.len();
        if frame_length < 6 {
            return Err(FrameError::MalformedInput);
        }
        let byte1 = data[1];
        let payload_len: u8 = get_bits_from_byte(byte1, 0b0111_1111);
        proof {
            assert(byte1 & 0x7f < 128) by (bit_vector);
        }
        if payload_len >= 126 {
            return Err(FrameError::UnsupportedLength);
        }
        if frame_length - 6 != payload_len as usize {
            return Err(FrameError::InconsistentLength);
        }
        let masking_key: [u8; 4] = [data[2], data[3], data[4], data[5]];
        let num_payload_bytes: usize = frame_length - 6;
        let mut masked_payload: Vec<u8> = Vec::new();
        let mut unmasked_payload: Vec<u8> = Vec::new();
        let mut payload: Vec<char> = Vec::new();
        let mut i: usize = 0;
        while i < num_payload_bytes
            invariant
                i <= num_payload_bytes,
                num_payload_bytes + 6 == data@.len(),
                data@.len() <= usize::MAX,
                masking_key@ =~= data@.subrange(2, 6),
                masked_payload@ =~= data@.subrange(6, 6 + i),
                unmasked_payload@.len() == i,
                payload@.len() == i,
                forall|j: int|
                    0 <= j < i ==> unmasked_payload@[j] == (masked_payload@[j] ^ masking_key@[j
                        % 4]),
                forall|j: int| 0 <= j < i ==> payload@[j] == unmasked_payload@[j] as char,
            decreases num_payload_bytes - i,
        {
            let masked_byte: u8 = data[6 + i];
            let byte: u8 = masked_byte ^ masking_key[i % 4];
            masked_payload.push(masked_byte);
            unmasked_payload.push(byte);
            payload.push(byte as char);
            proof {
                assert(masked_payload@ =~= data@.subrange(6, 6 + (i + 1)));
            }
            i = i + 1;
        }
        let frame = WebSocketFrame {
            frame_len: frame_length as u8,
            fin_bit: get_bit(data[0], 0),
            rsv1: get_bit(data[0], 1),
            rsv2: get_bit(data[0], 2),
            rsv3: get_bit(data[0], 3),
            opcode: get_bits_from_byte(data[0], 0b0000_1111),
            mask_bit: get_bit(byte1, 0),
            payload_len,
            masking_key,
            masked_payload,
            unmasked_payload,
            payload,
        };
        proof {
            assert(frame@ =~= spec_decode(data@));
        }
        Ok(frame)
    }

    /// Formats the field diagram of the frame: the fixed opening, the two
    /// header blocks with the first payload bytes inline, and one payload
    /// row per four further bytes, with a shorter final row only when bytes
    /// are left over.
    #[verifier::rlimit(100)]
    pub fn format_frame(&self) -> (r: String)
        requires
            self@.wf(),
        ensures
            r@ == frame_text(self@),
    {
        let mut result = format_frame_header(true, true);
        let block_a = format_frame_block_a(self);
        result.append(block_a.as_str());
        let block_b = format_frame_block_b(self);
        result.append(block_b.as_str());
        if self.payload_len >= 2 {
            let remaining_payload_dwords: u8 = (self.payload_len - 2) / 4;
            proof {
                assert(4 * ((self.payload_len - 2) as int / 4) <= (self.payload_len - 2) as int)
                    by (nonlinear_arith);
            }
            let mut i: u8 = 0;
            while i < remaining_payload_dwords
                invariant
                    self@.wf(),
                    2 <= self.payload_len,
                    i <= remaining_payload_dwords,
                    remaining_payload_dwords == (self.payload_len - 2) as int / 4,
                    4 * remaining_payload_dwords + 2 <= self.payload_len,
                    result@ =~= frame_header_text(true, true) + frame_block_a_text(self@)
                        + frame_block_b_text(self@) + payload_rows_text(
                        self@.masked,
                        self@.unmasked,
                        self@.chars,
                        i as int,
                    ),
                decreases remaining_payload_dwords - i,
            {
                let from_byte_ix: usize = (i as usize) * 4 + 2;
                let to_byte_ix: usize = from_byte_ix + 4;
                let m = slice_subrange(self.masked_payload.as_slice(), from_byte_ix, to_byte_ix);
                let u = slice_subrange(self.unmasked_payload.as_slice(), from_byte_ix, to_byte_ix);
                let c = slice_subrange(self.payload.as_slice(), from_byte_ix, to_byte_ix);
                let row = format_payload_dword_row(m, u, c, 4, 2 * i + 2, i + 3);
                result.append(row.as_str());
                proof {
                    assert(m@.take(4) =~= m@);
                    assert(u@.take(4) =~= u@);
                    assert(c@.take(4) =~= c@);
                    assert(result@ =~= frame_header_text(true, true) + frame_block_a_text(self@)
                        + frame_block_b_text(self@) + payload_rows_text(
                        self@.masked,
                        self@.unmasked,
                        self@.chars,
                        i + 1,
                    ));
                }
                i = i + 1;
            }
            let remaining_bytes: u8 = (self.payload_len - 2) % 4;
            if remaining_bytes > 0 {
                let from_byte_ix: usize = (remaining_payload_dwords as usize) * 4 + 2;
                let to_byte_ix: usize = from_byte_ix + remaining_bytes as usize;
                let m = slice_subrange(self.masked_payload.as_slice(), from_byte_ix, to_byte_ix);
                let u = slice_subrange(self.unmasked_payload.as_slice(), from_byte_ix, to_byte_ix);
                let c = slice_subrange(self.payload.as_slice(), from_byte_ix, to_byte_ix);
                let row = format_payload_dword_row(
                    m,
                    u,
                    c,
                    remaining_bytes as usize,
                    2 * remaining_payload_dwords + 2,
                    remaining_payload_dwords + 3,
                );
                result.append(row.as_str());
                proof {
                    assert(m@.take(remaining_bytes as int) =~= m@);
                    assert(u@.take(remaining_bytes as int) =~= u@);
                    assert(c@.take(remaining_bytes as int) =~= c@);
                }
            }
        }
        proof {
            assert(result@ =~= frame_text(self@));
        }
        result
    }
}

/// The bits of a byte selected by a mask.
fn get_bits_from_byte(byte: u8, mask: u8) -> (r: u8)
    ensures
        r == byte & mask,
{
    byte & mask
}

/// Renders a single bit as "1" or "0".
fn bit_str(bit: bool) -> (r: &'static str)
    ensures
        r@ =~= seq![bit_char(bit)],
{
    proof {
        reveal_strlit("1");
        reveal_strlit("0");
    }
    if bit {
        "1"
    } else {
        "0"
    }
}

/// The bit cells of a field-diagram row: each byte's eight bits spread
/// under the bit ruler, closed by the column separator.
pub open spec fn spaced_cells(data: Seq<u8>) -> Seq<char>
    decreases data.len(),
{
    if data.len() == 0 {
        Seq::empty()
    } else {
        spaced_cells(data.drop_last()) + bits_spaced(data.last(), 8).push('|')
    }
}

/// The bottom border of a field-diagram row: one fifteen-dash segment per
/// byte column.
pub open spec fn dword_border_cells(n: nat) -> Seq<char>
    decreases n,
{
    if n == 0 {
        Seq::empty()
    } else {
        dword_border_cells((n - 1) as nat) + "---------------+"@
    }
}

/// A narrow masked-value cell: the byte's decimal value and the MSK tag.
pub open spec fn msk_cell1(b: u8) -> Seq<char> {
    seq![' '] + pad_left(paren_text(b as nat), 5) + "     MSK |"@
}

/// A wide masked-value cell: two bytes' decimal values around the MASKED
/// tag.
pub open spec fn msk_cell2(a: u8, b: u8) -> Seq<char> {
    seq![' '] + pad_left(paren_text(a as nat), 5) + "      MASKED  "@ + pad_left(
        paren_text(b as nat),
        5,
    ) + "      |"@
}

/// The masked-value preview cells for a row of one to four bytes.
pub open spec fn masked_preview(m: Seq<u8>) -> Seq<char> {
    if m.len() == 1 {
        msk_cell1(m[0])
    } else if m.len() == 2 {
        msk_cell2(m[0], m[1])
    } else if m.len() == 3 {
        msk_cell2(m[0], m[1]) + msk_cell1(m[2])
    } else if m.len() == 4 {
        msk_cell2(m[0], m[1]) + msk_cell2(m[2], m[3])
    } else {
        Seq::empty()
    }
}

/// A narrow unmasked-value cell: the byte's decimal value, its preview
/// character and the UNM tag.
pub open spec fn unm_cell1(u: u8, c: char) -> Seq<char> {
    seq![' '] + pad_left(paren_text(u as nat), 5) + " '"@ + seq![c] + "' UNM |"@
}

/// A wide unmasked-value cell: two bytes' decimal values and preview
/// characters around the UNMASKED tag.
pub open spec fn unm_cell2(u0: u8, c0: char, u1: u8, c1: char) -> Seq<char> {
    seq![' '] + pad_left(paren_text(u0 as nat), 5) + " '"@ + seq![c0] + "' UNMASKED "@ + pad_left(
        paren_text(u1 as nat),
        5,
    ) + " '"@ + seq![c1] + "'  |"@
}

/// The unmasked-value preview cells for a row of one to four bytes.
pub open spec fn unmasked_preview(u: Seq<u8>, c: Seq<char>) -> Seq<char> {
    if u.len() == 1 {
        unm_cell1(u[0], c[0])
    } else if u.len() == 2 {
        unm_cell2(u[0], c[0], u[1], c[1])
    } else if u.len() == 3 {
        unm_cell2(u[0], c[0], u[1], c[1]) + unm_cell1(u[2], c[2])
    } else if u.len() == 4 {
        unm_cell2(u[0], c[0], u[1], c[1]) + unm_cell2(u[2], c[2], u[3], c[3])
    } else {
        Seq::empty()
    }
}

/// A narrow payload-part label, centered over one byte column.
pub open spec fn part_label_small(n: nat) -> Seq<char> {
    centered("Payload pt "@ + dec_text(n), 15).push('|')
}

/// A wide payload-part label, centered over two byte columns.
pub open spec fn part_label_wide(n: nat) -> Seq<char> {
    centered("Payload Data (part "@ + dec_text(n) + seq![')'], 31).push('|')
}

/// The part labels of a row of `len` bytes: two-byte parts counted from
/// `part`, a leftover byte labelled as a narrow part of its own.
pub open spec fn part_labels(len: nat, part: nat) -> Seq<char> {
    if len == 1 {
        part_label_small(part)
    } else if len == 2 {
        part_label_wide(part)
    } else if len == 3 {
        part_label_wide(part) + part_label_small(part + 1)
    } else if len == 4 {
        part_label_wide(part) + part_label_wide(part + 1)
    } else {
        Seq::empty()
    }
}

/// One payload row of the field diagram: the masked bits, the row number
/// with the masked values, the unmasked bits, the unmasked values with
/// their preview characters, the part labels, and the bottom border.
pub open spec fn payload_dword_row_text(
    m: Seq<u8>,
    u: Seq<u8>,
    c: Seq<char>,
    part: nat,
    dword: nat,
) -> Seq<char> {
    "\n       | DWORD |"@ + spaced_cells(m) + "\n       | "@ + centered(dec_text(dword), 5)
        + " |"@ + masked_preview(m) + "\n       |       |"@ + spaced_cells(u) + "\n       |       |"@
        + unmasked_preview(u, c) + "\n       |       |"@ + part_labels(m.len(), part)
        + "\n       +-------+"@ + dword_border_cells(m.len()) + seq!['\n']
}

/// Builds the bit cells of one field-diagram row.
fn spaced_cells_string(data: &[u8]) -> (r: String)
    ensures
        r@ == spaced_cells(data@),
{
    let mut r = String::new();
    let mut i: usize = 0;
    let n = data.len();
    while i < n
        invariant
            i <= n,
            n == data@.len(),
            r@ =~= spaced_cells(data@.take(i as int)),
        decreases n - i,
    {
        let cell = byte_str(data[i], 8);
        r.append(cell.as_str());
        push_char(&mut r, '|');
        proof {
            assert(data@.take(i + 1).drop_last() =~= data@.take(i as int));
            assert(data@.take(i + 1).last() == data@[i as int]);
            assert(r@ =~= spaced_cells(data@.take(i + 1)));
        }
        i = i + 1;
    }
    proof {
        assert(data@.take(n as int) =~= data@);
    }
    r
}

/// Builds the bottom border of a field-diagram row of `n` byte columns.
fn dword_border_string(n: usize) -> (r: String)
    ensures
        r@ == dword_border_cells(n as nat),
{
    let mut r = String::new();
    let mut i: usize = 0;
    while i < n
        invariant
            i <= n,
            r@ =~= dword_border_cells(i as nat),
        decreases n - i,
    {
        r.append("---------------+");
        proof {
            assert(r@ =~= dword_border_cells((i + 1) as nat));
        }
        i = i + 1;
    }
    r
}

/// Builds a narrow masked-value cell.
fn msk_cell1_string(b: u8) -> (r: String)
    ensures
        r@ == msk_cell1(b),
{
    let mut r = String::new();
    push_char(&mut r, ' ');
    let v = paren_dec_padded(b as u64, 5);
    r.append(v.as_str());
    r.append("     MSK |");
    proof {
        assert(r@ =~= msk_cell1(b));
    }
    r
}

/// Builds a wide masked-value cell.
fn msk_cell2_string(a: u8, b: u8) -> (r: String)
    ensures
        r@ == msk_cell2(a, b),
{
    let mut r = String::new();
    push_char(&mut r, ' ');
    let va = paren_dec_padded(a as u64, 5);
    r.append(va.as_str());
    r.append("      MASKED  ");
    let vb = paren_dec_padded(b as u64, 5);
    r.append(vb.as_str());
    r.append("      |");
    proof {
        assert(r@ =~= msk_cell2(a, b));
    }
    r
}

/// Builds the masked-value preview cells of one row.
fn masked_preview_string(m: &[u8]) -> (r: String)
    requires
        1 <= m@.len() <= 4,
    ensures
        r@ == masked_preview(m@),
{
    if m.len() == 1 {
        msk_cell1_string(m[0])
    } else if m.len() == 2 {
        msk_cell2_string(m[0], m[1])
    } else if m.len() == 3 {
        let mut r = msk_cell2_string(m[0], m[1]);
        let t = msk_cell1_string(m[2]);
        r.append(t.as_str());
        r
    } else {
        let mut r = msk_cell2_string(m[0], m[1]);
        let t = msk_cell2_string(m[2], m[3]);
        r.append(t.as_str());
        r
    }
}

/// Builds a narrow unmasked-value cell.
fn unm_cell1_string(u: u8, c: char) -> (r: String)
    ensures
        r@ == unm_cell1(u, c),
{
    let mut r = String::new();
    push_char(&mut r, ' ');
    let v = paren_dec_padded(u as u64, 5);
    r.append(v.as_str());
    r.append(" '");
    push_char(&mut r, c);
    r.append("' UNM |");
    proof {
        assert(r@ =~= unm_cell1(u, c));
    }
    r
}

/// Builds a wide unmasked-value cell.
fn unm_cell2_string(u0: u8, c0: char, u1: u8, c1: char) -> (r: String)
    ensures
        r@ == unm_cell2(u0, c0, u1, c1),
{
    let mut r = String::new();
    push_char(&mut r, ' ');
    let v0 = paren_dec_padded(u0 as u64, 5);
    r.append(v0.as_str());
    r.append(" '");
    push_char(&mut r, c0);
    r.append("' UNMASKED ");
    let v1 = paren_dec_padded(u1 as u64, 5);
    r.append(v1.as_str());
    r.append(" '");
    push_char(&mut r, c1);
    r.append("'  |");
    proof {
        assert(r@ =~= unm_cell2(u0, c0, u1, c1));
    }
    r
}

/// Builds the unmasked-value preview cells of one row.
fn unmasked_preview_string(u: &[u8], c: &[char]) -> (r: String)
    requires
        1 <= u@.len() <= 4,
        c@.len() == u@.len(),
    ensures
        r@ == unmasked_preview(u@, c@),
{
    if u.len() == 1 {
        unm_cell1_string(u[0], c[0])
    } else if u.len() == 2 {
        unm_cell2_string(u[0], c[0], u[1], c[1])
    } else if u.len() == 3 {
        let mut r = unm_cell2_string(u[0], c[0], u[1], c[1]);
        let t = unm_cell1_string(u[2], c[2]);
        r.append(t.as_str());
        r
    } else {
        let mut r = unm_cell2_string(u[0], c[0], u[1], c[1]);
        let t = unm_cell2_string(u[2], c[2], u[3], c[3]);
        r.append(t.as_str());
        r
    }
}

/// Builds a narrow payload-part label.
fn part_label_small_string(n: u64) -> (r: String)
    ensures
        r@ == part_label_small(n as nat),
{
    let mut s = String::from_str("Payload pt ");
    let d = dec_string(n);
    s.append(d.as_str());
    let mut r = center_string(s, 15);
    push_char(&mut r, '|');
    r
}

/// Builds a wide payload-part label.
fn part_label_wide_string(n: u64) -> (r: String)
    ensures
        r@ == part_label_wide(n as nat),
{
    let mut s = String::from_str("Payload Data (part ");
    let d = dec_string(n);
    s.append(d.as_str());
    push_char(&mut s, ')');
    proof {
        assert(s@ =~= "Payload Data (part "@ + dec_text(n as nat) + seq![')']);
    }
    let mut r = center_string(s, 31);
    push_char(&mut r, '|');
    r
}

/// Builds the part labels of one row.
fn part_labels_string(len: usize, part: u8) -> (r: String)
    requires
        1 <= len <= 4,
    ensures
        r@ == part_labels(len as nat, part as nat),
{
    if len == 1 {
        part_label_small_string(part as u64)
    } else if len == 2 {
        part_label_wide_string(part as u64)
    } else if len == 3 {
        let mut r = part_label_wide_string(part as u64);
        let t = part_label_small_string(part as u64 + 1);
        r.append(t.as_str());
        r
    } else {
        let mut r = part_label_wide_string(part as u64);
        let t = part_label_wide_string(part as u64 + 1);
        r.append(t.as_str());
        r
    }
}

/// Formats one payload row of the field diagram: up to four bytes shown
/// masked and unmasked, labelled as parts counted from `from_part_number`.
/// Only the first `num_bytes` of each slice are rendered; any past them
/// are ignored.
fn format_payload_dword_row(
    masked_bits: &[u8],
    unmasked_bits: &[u8],
    data: &[char],
    num_bytes: usize,
    from_part_number: u8,
    dword_number: u8,
) -> (r: String)
    requires
        masked_bits@.len() >= num_bytes,
        unmasked_bits@.len() >= num_bytes,
        data@.len() >= num_bytes,
        1 <= num_bytes <= 4,
    ensures
        r@ == payload_dword_row_text(
            masked_bits@.take(num_bytes as int),
            unmasked_bits@.take(num_bytes as int),
            data@.take(num_bytes as int),
            from_part_number as nat,
            dword_number as nat,
        ),
{
    let masked_row = slice_subrange(masked_bits, 0, num_bytes);
    let unmasked_row = slice_subrange(unmasked_bits, 0, num_bytes);
    let data_row = slice_subrange(data, 0, num_bytes);
    proof {
        assert(masked_row@ =~= masked_bits@.take(num_bytes as int));
        assert(unmasked_row@ =~= unmasked_bits@.take(num_bytes as int));
        assert(data_row@ =~= data@.take(num_bytes as int));
    }
    let mut r = String::from_str("\n       | DWORD |");
    let mcells = spaced_cells_string(masked_row);
    r.append(mcells.as_str());
    r.append("\n       | ");
    let dnum = centered_dec(dword_number as u64, 5);
    r.append(dnum.as_str());
    r.append(" |");
    let mprev = masked_preview_string(masked_row);
    r.append(mprev.as_str());
    r.append("\n       |       |");
    let ucells = spaced_cells_string(unmasked_row);
    r.append(ucells.as_str());
    r.append("\n       |       |");
    let uprev = unmasked_preview_string(unmasked_row, data_row);
    r.append(uprev.as_str());
    r.append("\n       |       |");
    let labels = part_labels_string(num_bytes, from_part_number);
    r.append(labels.as_str());
    r.append("\n       +-------+");
    let border = dword_border_string(num_bytes);
    r.append(border.as_str());
    push_char(&mut r, '\n');
    proof {
        assert(r@ =~= payload_dword_row_text(
            masked_row@,
            unmasked_row@,
            data_row@,
            from_part_number as nat,
            dword_number as nat,
        ));
    }
    r
}

/// The label naming whether the frame is masked.
pub open spec fn masked_label(masked: bool) -> Seq<char> {
    if masked {
        "(Masked)"@
    } else {
        "(Unmasked)"@
    }
}

/// The label naming whether the frame uses the short payload-length form.
pub open spec fn short_label(short: bool) -> Seq<char> {
    if short {
        "(Short)"@
    } else {
        "(Long) "@
    }
}

/// The fixed opening of the field diagram: the byte ruler, the two frame
/// labels, and the bit ruler.
pub open spec fn frame_header_text(masked: bool, short: bool) -> Seq<char> {
    "\n               +---------------+---------------+---------------+---------------+\n  Frame Data   |    Byte  0    |    Byte  1    |    Byte  2    |    Byte  3    |\n  "@
        + centered(masked_label(masked), 10)
        + "   +---------------+---------------+---------------+---------------+\n  "@ + centered(
        short_label(short),
        10,
    )
        + "   |0              |    1          |        2      |            3  |\n               |0 1 2 3 4 5 6 7|8 9 0 1 2 3 4 5|6 7 8 9 0 1 2 3|4 5 6 7 8 9 0 1|"@
}

/// The first header block of the field diagram: the flag bits, opcode,
/// mask bit and payload length of bytes 0 and 1, with the first half of the
/// masking key, over their field annotations.
pub open spec fn frame_block_a_text(f: FrameView) -> Seq<char> {
    "\n       +-------+-+-+-+-+-------+-+-------------+-------------------------------+\n       | DWORD |"@
        + seq![bit_char(f.fin)] + seq!['|'] + seq![bit_char(f.rsv1)] + seq!['|'] + seq![
        bit_char(f.rsv2),
    ] + seq!['|'] + seq![bit_char(f.rsv3)] + seq!['|'] + bits_spaced(f.opcode, 4) + seq!['|'] + seq![
        bit_char(f.mask),
    ] + seq!['|'] + bits_spaced(f.payload_len, 7) + seq!['|'] + bits_spaced(f.key[0], 8)
        + seq!['|'] + bits_spaced(f.key[1], 8) + seq!['|']
        + "\n       |   1   |F|R|R|R|       |M|             |                               |\n       |       |I|S|S|S|op code|A| Payload len |     Masking-key (part 1)      |\n       |       |N|V|V|V| (4 b) |S|  (7 bits)   |           (16 bits)           |\n       |       | |1|2|3|       |K|             |                               |\n       +-------+-+-+-+-+-------+-+-------------+-------------------------------+"@
}

/// The second header block of the field diagram: the second half of the
/// masking key, annotated with its width, beside the first payload bytes.
/// A frame with no payload gets the key cells and annotation alone; one
/// payload byte gets a narrow column; two or more get the two-byte layout
/// the header row shares with the payload rows.
pub open spec fn frame_block_b_text(f: FrameView) -> Seq<char> {
    let prefix = "\n       | DWORD |"@ + bits_spaced(f.key[2], 8) + seq!['|'] + bits_spaced(
        f.key[3],
        8,
    ) + seq!['|'];
    if f.payload_len == 0 {
        prefix
            + "\n       |   2   |                               |\n       |       |     Masking-key (part 2)      |\n       |       |           (16 bits)           |\n       +-------+-------------------------------+"@
    } else if f.payload_len == 1 {
        prefix + bits_spaced(f.masked[0], 8) + seq!['|']
            + "\n       |   2   |                               |"@ + msk_cell1(
            f.masked[0],
        ) + "\n       |       |     Masking-key (part 2)      |"@ + bits_spaced(
            f.unmasked[0],
            8,
        ) + seq!['|'] + "\n       |       |           (16 bits)           |"@ + unm_cell1(
            f.unmasked[0],
            f.chars[0],
        ) + "\n       |       |                               |"@ + part_label_small(1)
            + "\n       +-------+-------------------------------+---------------+"@
    } else {
        prefix + bits_spaced(f.masked[0], 8) + seq!['|'] + bits_spaced(
            f.masked[1],
            8,
        ) + seq!['|'] + "\n       |   2   |                               |"@ + msk_cell2(
            f.masked[0],
            f.masked[1],
        ) + "\n       |       |     Masking-key (part 2)      |"@ + bits_spaced(
            f.unmasked[0],
            8,
        ) + seq!['|'] + bits_spaced(f.unmasked[1], 8) + seq!['|']
            + "\n       |       |           (16 bits)           |"@ + unm_cell2(
            f.unmasked[0],
            f.chars[0],
            f.unmasked[1],
            f.chars[1],
        )
            + "\n       |       |                               |     Payload Data (part 1)     |       \n       +-------+-------------------------------+-------------------------------+"@
    }
}

/// The first payload part labelled by payload row `k`, the rows counted
/// from zero: the header block labels part 1, and each row holds two
/// two-byte parts.
pub open spec fn row_first_part(k: int) -> int {
    2 * k + 2
}

/// The dword number carried by payload row `k`, the rows counted from
/// zero: the header blocks are dwords 1 and 2.
pub open spec fn row_dword_number(k: int) -> int {
    k + 3
}

/// The first `n` full payload rows of the field diagram: row `k` (counted
/// from zero) covers payload bytes `2 + 4*k` onward, four at a time, carries
/// dword number `row_dword_number(k)`, and labels its two parts from
/// `row_first_part(k)`.
pub open spec fn payload_rows_text(m: Seq<u8>, u: Seq<u8>, c: Seq<char>, n: int) -> Seq<char>
    decreases n,
{
    if n <= 0 {
        Seq::empty()
    } else {
        payload_rows_text(m, u, c, n - 1) + payload_dword_row_text(
            m.subrange(4 * (n - 1) + 2, 4 * n + 2),
            u.subrange(4 * (n - 1) + 2, 4 * n + 2),
            c.subrange(4 * (n - 1) + 2, 4 * n + 2),
            row_first_part(n - 1) as nat,
            row_dword_number(n - 1) as nat,
        )
    }
}

/// The payload section of the field diagram: nothing for a payload shorter
/// than two bytes (those bytes stand in the header block), else the full
/// four-byte rows and, only when bytes are left over, one shorter final row.
pub open spec fn frame_payload_rows_text(f: FrameView) -> Seq<char> {
    if f.payload_len >= 2 {
        let ndw = (f.payload_len - 2) as int / 4;
        let rows = payload_rows_text(f.masked, f.unmasked, f.chars, ndw);
        if (f.payload_len - 2) as int % 4 == 0 {
            rows
        } else {
            rows + payload_dword_row_text(
                f.masked.subrange(4 * ndw + 2, f.payload_len as int),
                f.unmasked.subrange(4 * ndw + 2, f.payload_len as int),
                f.chars.subrange(4 * ndw + 2, f.payload_len as int),
                row_first_part(ndw) as nat,
                row_dword_number(ndw) as nat,
            )
        }
    } else {
        Seq::empty()
    }
}

/// The whole field diagram of a frame.
pub open spec fn frame_text(f: FrameView) -> Seq<char> {
    frame_header_text(true, true) + frame_block_a_text(f) + frame_block_b_text(f)
        + frame_payload_rows_text(f)
}

/// Formats the fixed opening of the field diagram.
fn format_frame_header(masked: bool, short: bool) -> (r: String)
    ensures
        r@ == frame_header_text(masked, short),
{
    let mut r = String::from_str(
        "\n               +---------------+---------------+---------------+---------------+\n  Frame Data   |    Byte  0    |    Byte  1    |    Byte  2    |    Byte  3    |\n  ",
    );
    let m = String::from_str(
        if masked {
            "(Masked)"
        } else {
            "(Unmasked)"
        },
    );
    let mc = center_string(m, 10);
    r.append(mc.as_str());
    r.append("   +---------------+---------------+---------------+---------------+\n  ");
    let s = String::from_str(
        if short {
            "(Short)"
        } else {
            "(Long) "
        },
    );
    let sc = center_string(s, 10);
    r.append(sc.as_str());
    r.append(
        "   |0              |    1          |        2      |            3  |\n               |0 1 2 3 4 5 6 7|8 9 0 1 2 3 4 5|6 7 8 9 0 1 2 3|4 5 6 7 8 9 0 1|",
    );
    proof {
        assert(r@ =~= frame_header_text(masked, short));
    }
    r
}

/// Formats the first header block of the field diagram.
#[verifier::rlimit(60)]
fn format_frame_block_a(f: &WebSocketFrame) -> (r: String)
    ensures
        r@ == frame_block_a_text(f@),
{
    let mut r = String::from_str(
        "\n       +-------+-+-+-+-+-------+-+-------------+-------------------------------+\n       | DWORD |",
    );
    r.append(bit_str(f.fin_bit));
    push_char(&mut r, '|');
    r.append(bit_str(f.rsv1));
    push_char(&mut r, '|');
    r.append(bit_str(f.rsv2));
    push_char(&mut r, '|');
    r.append(bit_str(f.rsv3));
    push_char(&mut r, '|');
    let op = byte_str(f.opcode, 4);
    r.append(op.as_str());
    push_char(&mut r, '|');
    r.append(bit_str(f.mask_bit));
    push_char(&mut r, '|');
    let plen = byte_str(f.payload_len, 7);
    r.append(plen.as_str());
    push_char(&mut r, '|');
    let k0 = byte_str(f.masking_key[0], 8);
    r.append(k0.as_str());
    push_char(&mut r, '|');
    let k1 = byte_str(f.masking_key[1], 8);
    r.append(k1.as_str());
    push_char(&mut r, '|');
    r.append(
        "\n       |   1   |F|R|R|R|       |M|             |                               |\n       |       |I|S|S|S|op code|A| Payload len |     Masking-key (part 1)      |\n       |       |N|V|V|V| (4 b) |S|  (7 bits)   |           (16 bits)           |\n       |       | |1|2|3|       |K|             |                               |\n       +-------+-+-+-+-+-------+-+-------------+-------------------------------+",
    );
    proof {
        assert(r@ =~= frame_block_a_text(f@));
    }
    r
}

/// Formats the second header block of the field diagram.
fn format_frame_block_b(f: &WebSocketFrame) -> (r: String)
    requires
        f@.wf(),
    ensures
        r@ == frame_block_b_text(f@),
{
    let mut r = String::from_str("\n       | DWORD |");
    let k2 = byte_str(f.masking_key[2], 8);
    r.append(k2.as_str());
    push_char(&mut r, '|');
    let k3 = byte_str(f.masking_key[3], 8);
    r.append(k3.as_str());
    push_char(&mut r, '|');
    if f.payload_len == 0 {
        r.append(
            "\n       |   2   |                               |\n       |       |     Masking-key (part 2)      |\n       |       |           (16 bits)           |\n       +-------+-------------------------------+",
        );
    } else if f.payload_len == 1 {
        let m0 = byte_str(f.masked_payload[0], 8);
        r.append(m0.as_str());
        push_char(&mut r, '|');
        r.append("\n       |   2   |                               |");
        let mprev = msk_cell1_string(f.masked_payload[0]);
        r.append(mprev.as_str());
        r.append("\n       |       |     Masking-key (part 2)      |");
        let u0 = byte_str(f.unmasked_payload[0], 8);
        r.append(u0.as_str());
        push_char(&mut r, '|');
        r.append("\n       |       |           (16 bits)           |");
        let uprev = unm_cell1_string(f.unmasked_payload[0], f.payload[0]);
        r.append(uprev.as_str());
        r.append("\n       |       |                               |");
        let label = part_label_small_string(1);
        r.append(label.as_str());
        r.append("\n       +-------+-------------------------------+---------------+");
    } else {
        let m0 = byte_str(f.masked_payload[0], 8);
        r.append(m0.as_str());
        push_char(&mut r, '|');
        let m1 = byte_str(f.masked_payload[1], 8);
        r.append(m1.as_str());
        push_char(&mut r, '|');
        r.append("\n       |   2   |                               |");
        let mprev = msk_cell2_string(f.masked_payload[0], f.masked_payload[1]);
        r.append(mprev.as_str());
        r.append("\n       |       |     Masking-key (part 2)      |");
        let u0 = byte_str(f.unmasked_payload[0], 8);
        r.append(u0.as_str());
        push_char(&mut r, '|');
        let u1 = byte_str(f.unmasked_payload[1], 8);
        r.append(u1.as_str());
        push_char(&mut r, '|');
        r.append("\n       |       |           (16 bits)           |");
        let uprev = unm_cell2_string(
            f.unmasked_payload[0],
            f.payload[0],
            f.unmasked_payload[1],
            f.payload[1],
        );
        r.append(uprev.as_str());
        r.append(
            "\n       |       |                               |     Payload Data (part 1)     |       \n       +-------+-------------------------------+-------------------------------+",
        );
    }
    proof {
        assert(r@ =~= frame_block_b_text(f@));
    }
    r
}

/// Renders the low `num_bits` bits of a byte, most significant first,
/// separated by single spaces.
fn byte_str(byte: u8, num_bits: u8) -> (r: String)
    requires
        1 <= num_bits <= 8,
    ensures
        r@ == bits_spaced(byte, num_bits as nat),
{
    let start: u8 = 8 - num_bits;
    let mut s = String::new();
    let first = get_bit(byte, start);
    crate::textfmt::push_char(&mut s, if first {
        '1'
    } else {
        '0'
    });
    proof {
        assert(s@ =~= bits_spaced(byte, num_bits as nat).take(1));
    }
    let mut p: u8 = start + 1;
    while p < 8
        invariant
            start == 8 - num_bits,
            1 <= num_bits <= 8,
            start < p <= 8,
            s@ =~= bits_spaced(byte, num_bits as nat).take(2 * (p - start) - 1),
        decreases 8 - p,
    {
        crate::textfmt::push_char(&mut s, ' ');
        let b = get_bit(byte, p);
        crate::textfmt::push_char(&mut s, if b {
            '1'
        } else {
            '0'
        });
        proof {
            assert(s@ =~= bits_spaced(byte, num_bits as nat).take(2 * ((p + 1) - start) - 1));
        }
        p = p + 1;
    }
    proof {
        assert(bits_spaced(byte, num_bits as nat).take(2 * num_bits - 1) =~= bits_spaced(
            byte,
            num_bits as nat,
        ));
    }
    s
}

/// Law: unmasking is an XOR round trip. For every well-formed frame,
/// XOR-ing each unmasked payload byte with the masking key byte it was
/// unmasked by (the key cycling every four bytes) reproduces the masked
/// payload byte exactly.
pub proof fn lemma_unmask_round_trip(f: FrameView)
    requires
        f.wf(),
    ensures
        forall|i: int|
            0 <= i < f.masked.len() ==> (f.unmasked[i] ^ f.key[i % 4]) == f.masked[i],
{
    assert forall|i: int|
        0 <= i < f.masked.len() implies (f.unmasked[i] ^ f.key[i % 4]) == f.masked[i] by {
        let m = f.masked[i];
        let k = f.key[i % 4];
        assert((m ^ k) ^ k == m) by (bit_vector);
    }
}

/// The part numbers a payload row of `len` bytes labels, the first being
/// `first`: one part for one or two bytes, two for three or four.
pub open spec fn row_part_numbers(len: int, first: int) -> Seq<int> {
    if len == 1 || len == 2 {
        seq![first]
    } else if len == 3 || len == 4 {
        seq![first, first + 1]
    } else {
        Seq::empty()
    }
}

/// The part numbers labelled by the first `n` full payload rows.
pub open spec fn full_rows_part_numbers(n: int) -> Seq<int>
    decreases n,
{
    if n <= 0 {
        Seq::empty()
    } else {
        full_rows_part_numbers(n - 1) + row_part_numbers(4, row_first_part(n - 1))
    }
}

/// Every part number the field diagram of a frame with payload length
/// `payload_len` labels, in rendering order: part 1 in the header block,
/// then each payload row's parts.
pub open spec fn diagram_part_numbers(payload_len: int) -> Seq<int>
    recommends
        2 <= payload_len,
{
    let ndw = (payload_len - 2) / 4;
    let rem = (payload_len - 2) % 4;
    seq![1] + full_rows_part_numbers(ndw) + if rem > 0 {
        row_part_numbers(rem, row_first_part(ndw))
    } else {
        Seq::empty()
    }
}

/// Every dword number the field diagram of a frame with payload length
/// `payload_len` carries, in rendering order: the two header blocks, then
/// each payload row.
pub open spec fn diagram_dword_numbers(payload_len: int) -> Seq<int>
    recommends
        2 <= payload_len,
{
    let ndw = (payload_len - 2) / 4;
    let rem = (payload_len - 2) % 4;
    let nrows = if rem > 0 {
        ndw + 1
    } else {
        ndw
    };
    seq![1, 2] + Seq::new(nrows as nat, |k: int| row_dword_number(k))
}

proof fn lemma_full_rows_part_numbers(n: int)
    requires
        n >= 0,
    ensures
        full_rows_part_numbers(n).len() == 2 * n,
        forall|i: int| 0 <= i < 2 * n ==> full_rows_part_numbers(n)[i] == i + 2,
    decreases n,
{
    if n > 0 {
        lemma_full_rows_part_numbers(n - 1);
    }
}

/// Law: the field diagram's numbering is consecutive. For any payload
/// length of at least two bytes, the part numbers the diagram labels are
/// exactly 1, 2, 3, ... with no gaps or repeats, one part per two payload
/// bytes rounded up, and the dword numbers of its rows are exactly
/// 1, 2, 3, ... down the diagram.
pub proof fn lemma_diagram_numbering(payload_len: int)
    requires
        2 <= payload_len,
    ensures
        diagram_part_numbers(payload_len).len() == (payload_len + 1) / 2,
        forall|i: int|
            0 <= i < diagram_part_numbers(payload_len).len() ==> diagram_part_numbers(
                payload_len,
            )[i] == i + 1,
        forall|i: int|
            0 <= i < diagram_dword_numbers(payload_len).len() ==> diagram_dword_numbers(
                payload_len,
            )[i] == i + 1,
{
    let ndw = (payload_len - 2) / 4;
    let rem = (payload_len - 2) % 4;
    lemma_full_rows_part_numbers(ndw);
    assert(payload_len - 2 == 4 * ndw + rem);
}

/// Law: a payload whose length past the two header-block bytes is an exact
/// multiple of four gets no trailing partial row: the payload section is
/// exactly the full rows.
pub proof fn lemma_no_empty_final_row(f: FrameView)
    requires
        f.wf(),
        f.payload_len >= 2,
        ((f.payload_len - 2) as int) % 4 == 0,
    ensures
        frame_payload_rows_text(f) == payload_rows_text(
            f.masked,
            f.unmasked,
            f.chars,
            (f.payload_len - 2) as int / 4,
        ),
{
}

} // verus!
