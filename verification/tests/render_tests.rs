use wsft::bitformat::format_partial_qword;
use wsft::bitformat::format_qword;
use wsft::bitformat::format_raw_bytes;
use wsft::decoder::decode_frame;
use wsft::format_qword_table;
use wsft::websocket_frame::WebSocketFrame;

fn frame_bytes(byte0: u8, byte1: u8, key: [u8; 4], masked: &[u8]) -> Vec<u8> {
    let mut v = vec![byte0, byte1, key[0], key[1], key[2], key[3]];
    v.extend_from_slice(masked);
    v
}

fn diagram_of(data: &Vec<u8>) -> String {
    WebSocketFrame::from(data).unwrap().format_frame()
}

#[test]
fn partial_qword_one_byte_exact() {
    let result = format_partial_qword(&[129], 2, 1);
    assert_eq!("\n|QWORD |10000001|\n|  2   |   (129)|\n+------+--------+", result);
}

#[test]
fn partial_qword_ignores_bytes_past_count() {
    let exact = format_partial_qword(&[129], 2, 1);
    let longer = format_partial_qword(&[129, 7, 255], 2, 1);
    assert_eq!(exact, longer);
}

#[test]
fn full_qword_exact() {
    let result = format_qword([1, 2, 3, 4, 5, 6, 7, 8], 1);
    assert_eq!(
        "\n|QWORD |00000001|00000010|00000011|00000100|00000101|00000110|00000111|00001000|\n|  1   |     (1)|     (2)|     (3)|     (4)|     (5)|     (6)|     (7)|     (8)|\n+------+--------+--------+--------+--------+--------+--------+--------+--------+",
        result
    );
}

#[test]
fn qword_table_one_byte_exact() {
    let result = format_qword_table(&vec![129]);
    assert_eq!(
        "       +--------+--------+--------+--------+--------+--------+--------+--------+\n Bytes | Byte 1 | Byte 2 | Byte 3 | Byte 4 | Byte 5 | Byte 6 | Byte 7 | Byte 8 |\n+------+--------+--------+--------+--------+--------+--------+--------+--------+\n|QWORD |10000001|\n|  1   |   (129)|\n+------+--------+\n",
        result
    );
}

#[test]
fn byte_grid_row_partition() {
    // 16 bytes: two full rows, no partial row
    let even: Vec<u8> = (0..16).collect();
    let grid = format_raw_bytes(&even);
    assert_eq!(grid.matches("QWORD").count(), 2);
    // 20 bytes: two full rows and a partial row of four cells
    let ragged: Vec<u8> = (0..20).collect();
    let grid = format_raw_bytes(&ragged);
    assert_eq!(grid.matches("QWORD").count(), 3);
    let last_row = grid.rsplit("QWORD").next().unwrap();
    assert_eq!(last_row.matches("--------+").count(), 4);
}

#[test]
fn byte_grid_rerender_identical() {
    let data: Vec<u8> = (0..13).collect();
    let first = format_raw_bytes(&data);
    let second = format_raw_bytes(&data);
    assert_eq!(first, second);
}

#[test]
fn byte_grid_empty_input_header_only() {
    let grid = format_raw_bytes(&Vec::<u8>::new());
    assert!(!grid.contains("QWORD"));
    assert!(grid.contains(" Bytes |"));
}

#[test]
fn diagram_inline_payload_cells() {
    let data = frame_bytes(0x81, 0x82, [1, 2, 3, 4], &[b'H' ^ 1, b'i' ^ 2]);
    let diagram = diagram_of(&data);
    assert!(diagram.contains("  (73)      MASKED  (107)      |"));
    assert!(diagram.contains("  (72) 'H' UNMASKED (105) 'i'  |"));
    assert!(diagram.contains("Payload Data (part 1)"));
    // the second masking-key half carries its width annotation, as the first does
    assert_eq!(diagram.matches("(16 bits)").count(), 2);
}

#[test]
fn diagram_part_and_dword_numbering() {
    // payload of 11 bytes: two full payload rows and a one-byte final row
    let data = frame_bytes(0x81, 0x8B, [1, 2, 3, 4], &[0; 11]);
    let diagram = diagram_of(&data);
    for part in 1..=5 {
        assert!(diagram.contains(&format!("Payload Data (part {})", part)));
    }
    assert!(diagram.contains("Payload pt 6"));
    assert!(!diagram.contains("Payload Data (part 6)"));
    assert!(!diagram.contains("Payload Data (part 7)"));
    assert!(diagram.contains("|   3   |"));
    assert!(diagram.contains("|   4   |"));
    assert!(diagram.contains("|   5   |"));
    assert!(!diagram.contains("|   6   |"));
}

#[test]
fn diagram_zero_payload_header_only() {
    let data = frame_bytes(0x88, 0x80, [9, 8, 7, 6], &[]);
    let diagram = diagram_of(&data);
    assert!(!diagram.contains("Payload Data"));
    assert!(!diagram.contains("Payload pt"));
    assert!(diagram.contains("Masking-key (part 2)"));
    assert_eq!(diagram.matches("(16 bits)").count(), 2);
    assert_eq!(diagram.matches("| DWORD |").count(), 2);
    let grid = format_raw_bytes(&data);
    assert_eq!(grid.matches("QWORD").count(), 1);
    let last_row = grid.rsplit("QWORD").next().unwrap();
    assert_eq!(last_row.matches("--------+").count(), 6);
}

#[test]
fn diagram_one_byte_payload() {
    let data = frame_bytes(0x81, 0x81, [1, 2, 3, 4], &[b'A' ^ 1]);
    let diagram = diagram_of(&data);
    assert!(diagram.contains("Payload pt 1"));
    assert!(diagram.contains("'A' UNM |"));
    assert_eq!(diagram.matches("| DWORD |").count(), 2);
}

#[test]
fn diagram_divisible_payload_no_trailing_empty_row() {
    // payload of 6 bytes: the four past the header block fill one row exactly
    let data = frame_bytes(0x81, 0x86, [1, 2, 3, 4], &[0, 1, 2, 3, 4, 5]);
    let diagram = diagram_of(&data);
    assert_eq!(diagram.matches("| DWORD |").count(), 3);
    assert!(diagram.contains("Payload Data (part 2)"));
    assert!(diagram.contains("Payload Data (part 3)"));
    assert!(!diagram.contains("Payload Data (part 4)"));
    assert!(!diagram.contains("Payload pt"));
    assert!(diagram.ends_with("---------------+\n"));
}

#[test]
fn report_layout() {
    let data = frame_bytes(0x81, 0x82, [1, 2, 3, 4], &[0x10, 0x11]);
    let report = decode_frame(&data).unwrap();
    assert!(report.starts_with(
        "\n1-------10--------20--------30--------40--------50--------60--------70--------80\nPacket length: 8\n\n"
    ));
    assert!(report.contains("QWORD"));
    assert!(report.contains("Frame Data"));
    assert!(report.ends_with("\n    "));
}

#[test]
fn report_fails_as_decoding_does() {
    let data = vec![0x81, 0x82, 0x01, 0x02, 0x03];
    assert!(decode_frame(&data).is_err());
}
