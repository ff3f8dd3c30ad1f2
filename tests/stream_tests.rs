use campus_api::stream::{NdjsonDecoder, SseDecoder};

#[test]
fn ndjson_fragments_across_chunks() {
    let mut d = NdjsonDecoder::new();
    let a = d.push(b"{\"message\":{\"content\":\"Hel\"}}\n{\"message\":");
    assert_eq!(a, vec!["Hel".to_string()]);
    let b = d.push(b"{\"content\":\"lo\"}}\n\n  \nnot json\n{\"done\":true}\n");
    assert_eq!(b, vec!["lo".to_string()]);
    let c = d.push(b"{\"message\":{\"content\":\"tail\"}}");
    assert!(c.is_empty());
}

#[test]
fn ndjson_trims_lines() {
    let mut d = NdjsonDecoder::new();
    let a = d.push(b"  {\"message\":{\"content\":\"x\"}}  \r\n");
    assert_eq!(a, vec!["x".to_string()]);
}

#[test]
fn sse_deltas_across_chunks() {
    let mut d = SseDecoder::new();
    let a = d.push(b"event: x\ndata: {\"type\":\"response.output_text.delta\",\"delta\":\"Hi\"}\n\ndata: {\"type\":\"resp");
    assert_eq!(a, vec!["Hi".to_string()]);
    let b = d.push(b"onse.output_text.delta\",\"delta\":\" there\"}\n\ndata: {\"type\":\"response.completed\"}\n\ndata: [DONE]\n\n");
    assert_eq!(b, vec![" there".to_string()]);
}

#[test]
fn sse_skips_malformed_and_non_data() {
    let mut d = SseDecoder::new();
    let a = d.push(b": comment\n\ndata: {bad json\n\ndata:\n\ndata:{\"type\":\"response.output_text.delta\",\"delta\":\"ok\"}\n\n");
    assert_eq!(a, vec!["ok".to_string()]);
}

#[test]
fn sse_several_data_lines_in_one_record() {
    let mut d = SseDecoder::new();
    let a = d.push(b"data: {\"type\":\"response.output_text.delta\",\"delta\":\"a\"}\ndata: {\"type\":\"response.output_text.delta\",\"delta\":\"b\"}\n\n");
    assert_eq!(a, vec!["a".to_string(), "b".to_string()]);
}

#[test]
fn ndjson_multibyte_char_split_across_chunks() {
    let body = "{\"message\":{\"content\":\"caf\u{e9} \u{2014} ok\"}}\n".as_bytes().to_vec();
    let cut = body.iter().position(|&b| b == 0xC3).unwrap() + 1;
    let mut d = NdjsonDecoder::new();
    let mut out = d.push(&body[..cut]);
    out.extend(d.push(&body[cut..]));
    assert_eq!(out, vec!["caf\u{e9} \u{2014} ok".to_string()]);
    let mut whole = NdjsonDecoder::new();
    assert_eq!(whole.push(&body), out);
}

#[test]
fn sse_multibyte_char_split_across_chunks() {
    let body = "data: {\"type\":\"response.output_text.delta\",\"delta\":\"\u{fc}ber\"}\r\n\n".as_bytes().to_vec();
    let cut = body.iter().position(|&b| b == 0xC3).unwrap() + 1;
    let mut d = SseDecoder::new();
    let mut out = Vec::new();
    for piece in [&body[..cut], &body[cut..]] {
        out.extend(d.push(piece));
    }
    assert_eq!(out, vec!["\u{fc}ber".to_string()]);
}

#[test]
fn sse_byte_by_byte_matches_whole() {
    let body = b"data: {\"type\":\"response.output_text.delta\",\"delta\":\"a\"}\n\ndata: {\"type\":\"response.output_text.delta\",\"delta\":\"b\"}\n\n";
    let mut d = SseDecoder::new();
    let mut out = Vec::new();
    for b in body.iter() {
        out.extend(d.push(&[*b]));
    }
    let mut whole = SseDecoder::new();
    assert_eq!(whole.push(body), out);
    assert_eq!(out, vec!["a".to_string(), "b".to_string()]);
}
