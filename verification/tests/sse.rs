use zhir_models::transport::SseDecoder;

#[test]
fn sse_handles_split_unicode_crlf_and_multiline_data() {
    let input = "data: 你好\r\ndata: world\r\n\r\n";
    let mut decoder = SseDecoder::default();
    let mut events = Vec::new();
    for byte in input.as_bytes() {
        events.extend(decoder.push(&[*byte]).unwrap());
    }
    assert_eq!(events.len(), 1);
    assert_eq!(events[0].data, "你好\nworld");
}

#[test]
fn sse_cr_empty_data_and_unfinished_frames_follow_event_boundaries() {
    let mut parser = SseDecoder::default();
    let mut frames = Vec::new();
    for byte in b": comment\revent: empty\rdata\r\rdata: next\r\ndata: line\r\n\r\ndata: unfinished"
    {
        frames.extend(parser.push(&[*byte]).unwrap());
    }
    frames.extend(parser.finish().unwrap());
    assert_eq!(frames.len(), 2);
    assert_eq!(frames[0].data, "");
    assert_eq!(frames[0].event.as_deref(), Some("empty"));
    assert_eq!(frames[1].data, "next\nline");
    assert_eq!(frames[1].event, None);
}

#[test]
fn line_ends_make_no_difference() {
    let lines = ["data: a", "data: b", "", "event: x", "data: c", "", ""];
    let decoded: Vec<_> = ["\n", "\r\n", "\r"]
        .into_iter()
        .map(|end| {
            let text: String = lines.iter().map(|line| format!("{line}{end}")).collect();
            SseDecoder::default().push(text.as_bytes()).unwrap()
        })
        .collect();
    assert_eq!(decoded[0].len(), 2);
    assert_eq!(decoded[0][0].data, "a\nb");
    assert_eq!(decoded[0][1].event.as_deref(), Some("x"));
    assert_eq!(decoded[1], decoded[0]);
    assert_eq!(decoded[2], decoded[0]);
}
