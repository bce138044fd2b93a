use builder_jobs::logger::{FrameKind, LogStream};
use builder_jobs::wire::{encode_log_chunk, encode_log_complete};

#[test]
fn chunk_encoding() {
    assert_eq!(
        encode_log_chunk(7, 1, "a\n"),
        vec![0x08, 7, 0x10, 1, 0x1a, 2, b'a', b'\n']
    );
}

#[test]
fn chunk_encoding_multibyte_varints() {
    assert_eq!(
        encode_log_chunk(300, 128, ""),
        vec![0x08, 0xac, 0x02, 0x10, 0x80, 0x01, 0x1a, 0]
    );
}

#[test]
fn chunk_encoding_utf8_body() {
    assert_eq!(
        encode_log_chunk(0, 0, "é"),
        vec![0x08, 0, 0x10, 0, 0x1a, 2, 0xc3, 0xa9]
    );
}

#[test]
fn chunk_encoding_largest_id() {
    let bytes = encode_log_chunk(u64::MAX, 1, "");
    assert_eq!(&bytes[..11], &[0x08, 0xff, 0xff, 0xff, 0xff, 0xff, 0xff, 0xff, 0xff, 0xff, 0x01]);
    assert_eq!(&bytes[11..], &[0x10, 1, 0x1a, 0]);
}

#[test]
fn complete_encoding() {
    assert_eq!(encode_log_complete(42), vec![0x08, 42]);
}

#[test]
fn frame_tags() {
    assert_eq!(FrameKind::Log.tag(), b'L');
    assert_eq!(FrameKind::Complete.tag(), b'C');
}

#[test]
fn stdout_lines_are_numbered_from_one() {
    let mut s = LogStream::new(5);
    assert_eq!(s.lines(), 0);
    let first = s.stdout_line("building");
    assert_eq!(first.text, "building\n");
    assert_eq!(first.frame.kind, FrameKind::Log);
    assert_eq!(first.frame.payload, encode_log_chunk(5, 1, "building\n"));
    let second = s.stdout_line("");
    assert_eq!(second.text, "\n");
    assert_eq!(second.frame.payload, encode_log_chunk(5, 2, "\n"));
    assert_eq!(s.lines(), 2);
    assert_eq!(s.job_id(), 5);
}

#[test]
fn stdout_end_is_announced() {
    let mut s = LogStream::new(9);
    let _ = s.stdout_line("x");
    let done = s.stdout_complete();
    assert_eq!(done.kind, FrameKind::Complete);
    assert_eq!(done.payload, vec![0x08, 9]);
}

#[test]
fn stderr_lines_are_only_logged() {
    let mut s = LogStream::new(1);
    assert_eq!(s.stderr_line("warning: x"), "warning: x\n");
    assert_eq!(s.lines(), 0);
    let line = s.stdout_line("ok");
    assert_eq!(line.frame.payload, encode_log_chunk(1, 1, "ok\n"));
}

#[test]
fn whole_stream_frames_and_log() {
    let lines = ["first", "", "third"];
    let mut s = LogStream::new(3);
    let mut frames = Vec::new();
    let mut log = String::new();
    for l in lines.iter() {
        let out = s.stdout_line(l);
        frames.push((out.frame.kind, out.frame.payload));
        log.push_str(&out.text);
    }
    let done = s.stdout_complete();
    frames.push((done.kind, done.payload));
    assert_eq!(frames.len(), 4);
    for (i, l) in lines.iter().enumerate() {
        assert_eq!(frames[i].0, FrameKind::Log);
        assert_eq!(frames[i].1, encode_log_chunk(3, (i + 1) as u64, &format!("{}\n", l)));
    }
    assert_eq!(frames[3], (FrameKind::Complete, encode_log_complete(3)));
    assert_eq!(log, "first\n\nthird\n");
}

#[test]
fn empty_stream_is_only_completed() {
    let mut s = LogStream::new(4);
    let done = s.stdout_complete();
    assert_eq!(done.kind, FrameKind::Complete);
    assert_eq!(done.payload, encode_log_complete(4));
    assert_eq!(s.lines(), 0);
}
