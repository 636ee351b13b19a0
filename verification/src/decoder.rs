//! The decode entry point: one frame's raw bytes in, the full text report
//! out. Reading the transport encoding and printing stay with the caller.
use vstd::prelude::*;

use crate::bitformat::format_raw_bytes;
use crate::bitformat::raw_bytes_text;
use crate::textfmt::dec_string;
use crate::textfmt::dec_text;
use crate::websocket_frame::frame_text;
use crate::websocket_frame::spec_decode;
use crate::websocket_frame::FrameError;
use crate::websocket_frame::WebSocketFrame;

verus! {

/// The full report for a decodable byte sequence: a column ruler with the
/// packet length under it, the byte grid of the whole frame, and the field
/// diagram, separated by blank lines.
pub open spec fn report_text(data: Seq<u8>) -> Seq<char>
    recommends
        6 <= data.len() <= 255,
{
    "\n1-------10--------20--------30--------40--------50--------60--------70--------80\nPacket length: "@
        + dec_text(spec_decode(data).frame_len as nat) + "\n\n"@ + raw_bytes_text(data) + "\n\n"@
        + frame_text(spec_decode(data)) + "\n    "@
}

/// Decodes one frame and renders its report: the packet length line, the
/// byte grid, and the field diagram. Fails exactly as frame decoding does.
pub fn decode_frame(data: &Vec<u8>) -> (r: Result<String, FrameError>)
    ensures
        r == Err::<String, FrameError>(FrameError::MalformedInput) <==> data@.len() < 6,
        r == Err::<String, FrameError>(FrameError::UnsupportedLength) <==> (data@.len() >= 6
            && data@[1] & 0x7f >= 126),
        r == Err::<String, FrameError>(FrameError::InconsistentLength) <==> (data@.len() >= 6
            && data@[1] & 0x7f < 126 && data@.len() != (data@[1] & 0x7f) + 6),
        r is Ok <==> (data@.len() >= 6 && data@[1] & 0x7f < 126 && data@.len() == (data@[1] & 0x7f)
            + 6),
        r is Ok ==> (r->Ok_0)@ == report_text(data@),
{
    let frame = match WebSocketFrame::from(data) {
        Ok(f) => f,
        Err(e) => {
            return Err(e);
        },
    };
    let mut result = String::from_str(
        "\n1-------10--------20--------30--------40--------50--------60--------70--------80\nPacket length: ",
    );
    let len = dec_string(frame.frame_len as u64);
    result.append(len.as_str());
    result.append("\n\n");
    let grid = format_raw_bytes(data);
    result.append(grid.as_str());
    result.append("\n\n");
    let diagram = frame.format_frame();
    result.append(diagram.as_str());
    result.append("\n    ");
    proof {
        assert(result@ =~= report_text(data@));
    }
    Ok(result)
}

} // verus!
