//! The server's own rules: how long an input frame may be, and what the tools say of their arguments.
use crate::app::{blames_arguments, hint_words, is_argument_error, Vault};
use crate::cli::error_message;
use vstd::prelude::*;

verus! {

/// The longest input frame, its newline included.
pub const MAX_FRAME: usize = 16384;

/// The length of the line that a stream is in after some bytes.
pub open spec fn line_bytes(stream: Seq<u8>) -> nat
    decreases stream.len(),
{
    if stream.len() == 0 || stream.last() == 10 {
        0
    } else {
        line_bytes(stream.drop_last()) + 1
    }
}

/// Whether every frame of a stream, the last one as far as it has arrived, is short enough.
pub open spec fn is_bounded(stream: Seq<u8>) -> bool
    decreases stream.len(),
{
    stream.len() == 0 || (is_bounded(stream.drop_last()) && line_bytes(stream.drop_last()) + 1 <= MAX_FRAME)
}

/// Counts the bytes of the current input frame, so that no line buffer grows without limit.
pub struct FrameLimit {
    line: usize,
}

impl FrameLimit {
    /// How many bytes of the current line have arrived.
    pub closed spec fn spec_line(self) -> nat {
        self.line as nat
    }

    /// Whether this has seen a stream, all of whose frames are short enough.
    pub open spec fn has_seen(self, stream: Seq<u8>) -> bool {
        is_bounded(stream) && self.spec_line() == line_bytes(stream)
    }

    /// A limit that has seen nothing.
    pub fn new() -> (limit: Self)
        ensures
            limit.has_seen(Seq::empty()),
    {
        FrameLimit { line: 0 }
    }

    /// Takes the bytes that arrived, and says whether all frames are still short enough.
    pub fn accept(&mut self, bytes: &[u8]) -> (accepted: bool)
        ensures
            forall|stream: Seq<u8>| #[trigger] old(self).has_seen(stream) ==> {
                &&& accepted == is_bounded(stream + bytes@)
                &&& accepted ==> final(self).has_seen(stream + bytes@)
            },
    {
        let ghost start = *self;
        let mut i: usize = 0;
        proof {
            assert forall|stream: Seq<u8>| #[trigger] start.has_seen(stream) implies self.has_seen(stream + bytes@.take(0)) by {
                assert(stream + bytes@.take(0) =~= stream);
            }
        }
        while i < bytes.len()
            invariant
                i <= bytes@.len(),
                start == *old(self),
                forall|stream: Seq<u8>| #[trigger] start.has_seen(stream) ==> self.has_seen(stream + bytes@.take(i as int)),
            decreases bytes@.len() - i,
        {
            let byte: u8 = bytes[i];
            if self.line >= MAX_FRAME {
                proof {
                    assert forall|stream: Seq<u8>| #[trigger] start.has_seen(stream) implies !is_bounded(stream + bytes@) by {
                        let now = stream + bytes@.take(i as int);
                        assert(self.has_seen(now));
                        assert(now.push(byte).drop_last() =~= now);
                        assert((stream + bytes@).take(now.len() as int + 1) =~= now.push(byte));
                        unbounded_stays(now.push(byte), stream + bytes@, now.len() as int + 1);
                    }
                }
                return false;
            }
            let ghost before = *self;
            self.line = if byte == 10 {
                0
            } else {
                self.line + 1
            };
            proof {
                assert forall|stream: Seq<u8>| #[trigger] start.has_seen(stream) implies self.has_seen(stream + bytes@.take(i + 1)) by {
                    let now = stream + bytes@.take(i as int);
                    assert(before.has_seen(now));
                    assert(stream + bytes@.take(i + 1) =~= now.push(byte));
                    assert(now.push(byte).drop_last() =~= now);
                }
            }
            i += 1;
        }
        proof {
            assert(bytes@.take(bytes@.len() as int) =~= bytes@);
        }
        true
    }
}

/// A stream with a frame that is too long stays one.
proof fn unbounded_stays(start: Seq<u8>, stream: Seq<u8>, len: int)
    requires
        0 <= len <= stream.len(),
        stream.take(len) == start,
    ensures
        is_bounded(stream) ==> is_bounded(start),
    decreases stream.len(),
{
    if len < stream.len() {
        assert(stream.drop_last().take(len) =~= start);
        unbounded_stays(start, stream.drop_last(), len);
    } else {
        assert(stream.take(len) =~= stream);
    }
}

/// The pattern of operation identifiers in the tool's schema.
pub const OPERATION_PATTERN: &'static str = "^[A-Za-z0-9_-]{1,128}$";

/// The longest label in the tool's schema.
pub const LABEL_LENGTH: u32 = 64;

/// The pattern of labels in the tool's schema. The prefix is itself a label, so it needs no escapes.
pub fn label_pattern(vault: &Vault) -> (pattern: String)
    ensures
        pattern@ == "^"@ + vault.spec_config().label_prefix@ + "[A-Za-z0-9_-]*$"@,
{
    let mut pattern = "^".to_owned();
    pattern.append(vault.label_prefix());
    pattern.append("[A-Za-z0-9_-]*$");
    pattern
}

/// An error as a tool reports it: fixed words only, no diagnostics from elsewhere.
#[derive(Debug)]
pub struct ToolError {
    /// Whether the arguments are to blame.
    pub arguments: bool,
    pub message: String,
}

/// The error of a code.
pub fn tool_error(vault: &Vault, code: &'static str) -> (error: ToolError)
    ensures
        error.arguments == blames_arguments(code@),
        error.message@ == code@ + ": "@ + hint_words(vault.spec_config(), code@),
{
    ToolError { arguments: is_argument_error(code), message: error_message(vault, code) }
}

/// The line that a stream is in has no newline, and starts behind one or with the stream.
proof fn the_line_is_the_rest(stream: Seq<u8>)
    ensures
        line_bytes(stream) <= stream.len(),
        forall|i: int| stream.len() - line_bytes(stream) <= i < stream.len() ==> #[trigger] stream[i] != 10,
        line_bytes(stream) < stream.len() ==> stream[stream.len() - line_bytes(stream) - 1] == 10,
    decreases stream.len(),
{
    if stream.len() > 0 && stream.last() != 10 {
        the_line_is_the_rest(stream.drop_last());
        let start = stream.len() - line_bytes(stream);
        assert forall|i: int| start <= i < stream.len() implies #[trigger] stream[i] != 10 by {
            if i < stream.len() - 1 {
                assert(stream.drop_last()[i] != 10);
            }
        }
    }
}

/// A stream is accepted exactly where no run of bytes with its newline, if it has come, is longer than
/// 16384 bytes, wherever in the stream it starts.
pub proof fn frames_are_short(stream: Seq<u8>)
    ensures
        is_bounded(stream) <==> forall|start: int, end: int|
            0 <= start <= end <= stream.len() && #[trigger] has_no_break(stream, start, end) ==> end - start <= 16384,
    decreases stream.len(),
{
    if stream.len() > 0 {
        let before = stream.drop_last();
        frames_are_short(before);
        the_line_is_the_rest(before);
        let line = line_bytes(before) as int;
        if is_bounded(stream) {
            assert forall|start: int, end: int| 0 <= start <= end <= stream.len() && #[trigger] has_no_break(stream, start, end) implies end - start
                <= 16384 by {
                if end < stream.len() {
                    assert forall|i: int| start <= i < end - 1 implies #[trigger] before[i] != 10 by {
                        assert(stream[i] != 10);
                    }
                    assert(has_no_break(before, start, end));
                } else if start < before.len() - line {
                    assert(before[before.len() - line - 1] == 10);
                    assert(stream[before.len() - line - 1] == 10);
                }
            }
        }
        if forall|start: int, end: int|
            0 <= start <= end <= stream.len() && #[trigger] has_no_break(stream, start, end) ==> end - start <= 16384 {
            assert forall|start: int, end: int| 0 <= start <= end <= before.len() && #[trigger] has_no_break(before, start, end) implies end - start
                <= 16384 by {
                assert forall|i: int| start <= i < end - 1 implies #[trigger] stream[i] != 10 by {
                    assert(before[i] != 10);
                }
                assert(has_no_break(stream, start, end));
            }
            let start = before.len() - line;
            assert forall|i: int| start <= i < stream.len() - 1 implies #[trigger] stream[i] != 10 by {
                assert(before[i] != 10);
            }
            assert(has_no_break(stream, start, stream.len() as int));
        }
    }
}

/// Whether a part of a stream has no newline but perhaps at its end.
pub open spec fn has_no_break(stream: Seq<u8>, start: int, end: int) -> bool {
    forall|i: int| start <= i < end - 1 ==> #[trigger] stream[i] != 10
}

} // verus!
