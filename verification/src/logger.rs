//! The decisions of a worker's build-log streaming.
//!
//! Every line the build prints on its standard output is published to the
//! job server as a numbered log chunk (a frame tagged `L`) and written to
//! the job's stdout log; when that output ends, a log-complete message (a
//! frame tagged `C`) follows. Lines on standard error only go to the
//! job's stderr log. Reading the lines and writing the files and frames is
//! the caller's part.

use vstd::prelude::*;
use vstd::string::*;

use crate::wire::{encode_log_chunk, encode_log_complete, log_chunk_bytes, log_complete_bytes};

verus! {

/// The two kinds of frames published for a job's log.
#[derive(Clone, Copy, Debug, PartialEq, Eq, Structural)]
pub enum FrameKind {
    /// A chunk of the log, tagged `L`.
    Log,
    /// The end of the log, tagged `C`.
    Complete,
}

/// The tag byte that precedes a frame of the given kind.
pub open spec fn frame_tag(kind: FrameKind) -> u8 {
    match kind {
        FrameKind::Log => 0x4c,
        FrameKind::Complete => 0x43,
    }
}

impl FrameKind {
    /// The tag byte sent ahead of a frame of this kind (`L` or `C`).
    pub fn tag(&self) -> (r: u8)
        ensures
            r == frame_tag(*self),
    {
        match self {
            FrameKind::Log => 0x4c,
            FrameKind::Complete => 0x43,
        }
    }
}

/// A frame to publish: its kind and its encoded message.
#[derive(Debug)]
pub struct LogFrame {
    pub kind: FrameKind,
    pub payload: Vec<u8>,
}

impl View for LogFrame {
    type V = (FrameKind, Seq<u8>);

    open spec fn view(&self) -> (FrameKind, Seq<u8>) {
        (self.kind, self.payload@)
    }
}

/// What becomes of a line of the build's standard output: the frame to
/// publish and the text to append to the stdout log.
#[derive(Debug)]
pub struct StdoutLine {
    pub frame: LogFrame,
    pub text: String,
}

/// A line as it is logged: the line and its end-of-line marker.
pub open spec fn logged_line(line: Seq<char>) -> Seq<char> {
    line + "\n"@
}

/// The frames published for a job whose standard output consisted of
/// `lines`: one log chunk per line, numbered from 1 and carrying the logged
/// line, followed, once the output has ended, by the log-complete message.
pub open spec fn stream_frames(job_id: u64, lines: Seq<Seq<char>>, ended: bool) -> Seq<(FrameKind, Seq<u8>)> {
    Seq::new(
        lines.len(),
        |i: int| (FrameKind::Log, log_chunk_bytes(job_id, (i + 1) as u64, logged_line(lines[i]))),
    ) + if ended {
        seq![(FrameKind::Complete, log_complete_bytes(job_id))]
    } else {
        Seq::empty()
    }
}

/// The stdout log of a job whose standard output consisted of `lines`:
/// the logged lines one after the other.
pub open spec fn stream_log(lines: Seq<Seq<char>>) -> Seq<char> {
    lines.map_values(|l: Seq<char>| logged_line(l)).flatten()
}

/// The log streaming of one job's build output.
pub struct LogStream {
    job_id: u64,
    line_num: u64,
    ended: bool,
    lines_seen: Ghost<Seq<Seq<char>>>,
}

impl LogStream {
    /// The job whose log is streamed.
    pub closed spec fn spec_job_id(&self) -> u64 {
        self.job_id
    }

    /// How many lines of standard output have been published.
    pub closed spec fn spec_lines(&self) -> u64 {
        self.line_num
    }

    /// The lines of standard output taken so far, in order.
    pub closed spec fn spec_seen(&self) -> Seq<Seq<char>> {
        self.lines_seen@
    }

    /// Whether the end of standard output has been announced.
    pub closed spec fn spec_ended(&self) -> bool {
        self.ended
    }

    /// The stream's line count is the number of lines it has taken.
    pub closed spec fn wf(&self) -> bool {
        self.line_num == self.lines_seen@.len()
    }

    /// Every frame handed out so far, in order.
    pub open spec fn spec_frames(&self) -> Seq<(FrameKind, Seq<u8>)> {
        stream_frames(self.spec_job_id(), self.spec_seen(), self.spec_ended())
    }

    /// Everything handed out so far for the stdout log, in order.
    pub open spec fn spec_log(&self) -> Seq<char> {
        stream_log(self.spec_seen())
    }

    /// The streaming of a job's log, before any line.
    pub fn new(job_id: u64) -> (s: LogStream)
        ensures
            s.wf(),
            s.spec_job_id() == job_id,
            s.spec_lines() == 0,
            s.spec_seen() == Seq::<Seq<char>>::empty(),
            !s.spec_ended(),
    {
        LogStream { job_id, line_num: 0, ended: false, lines_seen: Ghost(Seq::empty()) }
    }

    /// The job whose log is streamed.
    pub fn job_id(&self) -> (r: u64)
        ensures
            r == self.spec_job_id(),
    {
        self.job_id
    }

    /// How many lines of standard output have been published.
    pub fn lines(&self) -> (r: u64)
        ensures
            r == self.spec_lines(),
    {
        self.line_num
    }

    /// Takes the next line of standard output: it is numbered one past
    /// the previous line (the first is 1), published as a log chunk whose
    /// body is the line with its end-of-line marker, and logged as that body.
    pub fn stdout_line(&mut self, line: &str) -> (out: StdoutLine)
        requires
            old(self).wf(),
            !old(self).spec_ended(),
            old(self).spec_lines() < u64::MAX,
        ensures
            final(self).wf(),
            final(self).spec_job_id() == old(self).spec_job_id(),
            final(self).spec_lines() == old(self).spec_lines() + 1,
            final(self).spec_seen() == old(self).spec_seen().push(line@),
            !final(self).spec_ended(),
            out.text@ == logged_line(line@),
            out.text@.len() == line@.len() + 1,
            out.text@.drop_last() == line@,
            out.text@.last() == '\n',
            out.frame.kind == FrameKind::Log,
            out.frame.payload@ == log_chunk_bytes(
                old(self).spec_job_id(),
                final(self).spec_lines(),
                out.text@,
            ),
            out.frame.payload@ == log_chunk_bytes(
                old(self).spec_job_id(),
                final(self).spec_lines(),
                logged_line(line@),
            ),
            final(self).spec_frames() == old(self).spec_frames().push(out.frame@),
            final(self).spec_log() == old(self).spec_log() + out.text@,
    {
        let ghost before = self.lines_seen@;
        self.line_num = self.line_num + 1;
        self.lines_seen = Ghost(self.lines_seen@.push(line@));
        let mut text = String::from_str(line);
        text.append("\n");
        let payload = encode_log_chunk(self.job_id, self.line_num, text.as_str());
        let out = StdoutLine { frame: LogFrame { kind: FrameKind::Log, payload }, text };
        proof {
            lemma_logged_line(line@);
            let job = self.job_id;
            assert(stream_frames(job, before.push(line@), false) =~= stream_frames(job, before, false).push(out.frame@));
            lemma_stream_log_push(before, line@);
        }
        out
    }

    /// Announces that the job's standard output has ended; nothing follows.
    pub fn stdout_complete(&mut self) -> (frame: LogFrame)
        requires
            old(self).wf(),
            !old(self).spec_ended(),
        ensures
            final(self).wf(),
            final(self).spec_job_id() == old(self).spec_job_id(),
            final(self).spec_lines() == old(self).spec_lines(),
            final(self).spec_seen() == old(self).spec_seen(),
            final(self).spec_ended(),
            frame.kind == FrameKind::Complete,
            frame.payload@ == log_complete_bytes(old(self).spec_job_id()),
            final(self).spec_frames() == old(self).spec_frames().push(frame@),
            final(self).spec_log() == old(self).spec_log(),
    {
        self.ended = true;
        let frame = LogFrame { kind: FrameKind::Complete, payload: encode_log_complete(self.job_id) };
        assert(stream_frames(self.job_id, self.lines_seen@, true) =~= stream_frames(
            self.job_id,
            self.lines_seen@,
            false,
        ).push(frame@));
        frame
    }

    /// The text a line of standard error adds to the stderr log: the line
    /// with its end-of-line marker. Nothing is published for it.
    pub fn stderr_line(&self, line: &str) -> (text: String)
        ensures
            text@ == logged_line(line@),
            text@.len() == line@.len() + 1,
            text@.drop_last() == line@,
            text@.last() == '\n',
    {
        proof { lemma_logged_line(line@); }
        let mut text = String::from_str(line);
        text.append("\n");
        text
    }
}

/// A logged line is the whole line, whatever its length, followed by one
/// end-of-line marker.
pub proof fn lemma_logged_line(line: Seq<char>)
    ensures
        logged_line(line).len() == line.len() + 1,
        logged_line(line).drop_last() == line,
        logged_line(line).last() == '\n',
        logged_line(line).take(line.len() as int) == line,
{
    reveal_strlit("\n");
    assert(logged_line(line).drop_last() =~= line);
    assert(logged_line(line).take(line.len() as int) =~= line);
}

proof fn lemma_stream_log_push(lines: Seq<Seq<char>>, line: Seq<char>)
    ensures
        stream_log(lines.push(line)) == stream_log(lines) + logged_line(line),
{
    let f = |l: Seq<char>| logged_line(l);
    assert(lines.push(line).map_values(f) =~= lines.map_values(f).push(logged_line(line)));
    lines.map_values(f).lemma_flatten_push(logged_line(line));
}

/// Over a whole build, the frames published for its standard output are
/// one log chunk per line, numbered 1, 2, ..., n without gap or repeat and
/// carrying the line with its end-of-line marker, followed by exactly one
/// log-complete message (also when there were no lines); the stdout log is
/// the chunk bodies one after the other; and where the lines hold no
/// end-of-line character, each body holds exactly one, at its end.
pub proof fn lemma_log_stream(job_id: u64, lines: Seq<Seq<char>>)
    requires
        lines.len() < u64::MAX,
    ensures
        stream_frames(job_id, lines, true).len() == lines.len() + 1,
        forall|i: int|
            0 <= i < lines.len() ==> #[trigger] stream_frames(job_id, lines, true)[i] == (
                FrameKind::Log,
                log_chunk_bytes(job_id, (i + 1) as u64, logged_line(lines[i])),
            ),
        stream_frames(job_id, lines, true)[lines.len() as int] == (
            FrameKind::Complete,
            log_complete_bytes(job_id),
        ),
        forall|i: int|
            0 <= i < lines.len() as int ==> #[trigger] stream_frames(job_id, lines, true)[i].0
                == FrameKind::Log,
        stream_log(lines) == lines.map_values(|l: Seq<char>| logged_line(l)).flatten(),
        forall|i: int|
            0 <= i < lines.len() && !lines[i].contains('\n') ==> {
                let body = #[trigger] logged_line(lines[i]);
                &&& body.last() == '\n'
                &&& !body.drop_last().contains('\n')
            },
{
    reveal_strlit("\n");
    assert forall|i: int|
        0 <= i < lines.len() && !lines[i].contains('\n') implies {
            let body = #[trigger] logged_line(lines[i]);
            &&& body.last() == '\n'
            &&& !body.drop_last().contains('\n')
        } by {
        assert(logged_line(lines[i]).drop_last() =~= lines[i]);
    }
}

} // verus!
