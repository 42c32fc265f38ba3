//! What a command that ran in a container printed, and how it ended.
use vstd::prelude::*;
use vstd::utf8;

use crate::lossy;
use crate::lossy::read_lossy;
use crate::text;

verus! {

/// A message of a command, by where it came from.
#[derive(Debug)]
pub enum LogChunk {
    StdIn(Vec<u8>),
    StdOut(Vec<u8>),
    StdErr(Vec<u8>),
    Console(Vec<u8>),
}

impl LogChunk {
    /// The bytes that the command printed with a message.
    pub open spec fn printed(self) -> Seq<u8> {
        match self {
            LogChunk::StdIn(_) => Seq::empty(),
            LogChunk::StdOut(message) => message@,
            LogChunk::StdErr(message) => message@,
            LogChunk::Console(message) => message@,
        }
    }

    /// The text that the command printed with a message.
    pub open spec fn text(self) -> Seq<char> {
        match self {
            LogChunk::StdIn(_) => Seq::empty(),
            _ => lossy::lossy_text(self.printed()),
        }
    }
}

/// The bytes of all messages.
pub open spec fn printed_bytes(chunks: Seq<LogChunk>) -> Seq<u8>
    decreases chunks.len(),
{
    if chunks.len() == 0 {
        Seq::empty()
    } else {
        printed_bytes(chunks.drop_last()) + chunks.last().printed()
    }
}

/// The text of all messages, each read by itself.
pub open spec fn printed_text(chunks: Seq<LogChunk>) -> Seq<char>
    decreases chunks.len(),
{
    if chunks.len() == 0 {
        Seq::empty()
    } else {
        printed_text(chunks.drop_last()) + chunks.last().text()
    }
}

/// Whether no message ends inside a character, or holds what is none.
pub open spec fn whole_messages(chunks: Seq<LogChunk>) -> bool {
    forall|i: int| 0 <= i < chunks.len() ==> utf8::valid_utf8(#[trigger] chunks[i].printed())
}

/// What a command printed, and its exit code; one that never told its exit code
/// has failed. Messages that are whole UTF-8 give the text of all their bytes.
pub fn exec_capture_with_exit(chunks: &[LogChunk], exit_code: Option<i64>) -> (r: (String, i64))
    ensures
        r.0@ == printed_text(chunks@),
        whole_messages(chunks@) ==> utf8::valid_utf8(printed_bytes(chunks@)) && r.0@ == utf8::decode_utf8(
            printed_bytes(chunks@),
        ),
        r.1 == match exit_code {
            Some(code) => code,
            None => 1i64,
        },
{
    let mut buffer = String::new();
    let mut i: usize = 0;
    proof {
        assert(chunks@.take(0) =~= Seq::<LogChunk>::empty());
        assert(buffer@ =~= Seq::<char>::empty());
        assert(utf8::decode_utf8(Seq::<u8>::empty()) =~= Seq::<char>::empty());
    }
    while i < chunks.len()
        invariant
            i <= chunks.len(),
            buffer@ == printed_text(chunks@.take(i as int)),
            whole_messages(chunks@) ==> utf8::valid_utf8(printed_bytes(chunks@.take(i as int)))
                && buffer@ == utf8::decode_utf8(printed_bytes(chunks@.take(i as int))),
        decreases chunks.len() - i,
    {
        let ghost before = chunks@.take(i as int);
        let ghost after = chunks@.take(i + 1);
        proof {
            assert(after.drop_last() =~= before);
            assert(after.last() == chunks@[i as int]);
            assert(printed_bytes(before) + Seq::<u8>::empty() =~= printed_bytes(before));
        }
        match &chunks[i] {
            LogChunk::StdIn(_) => {
                assert(buffer@ + Seq::<char>::empty() =~= buffer@);
            },
            LogChunk::StdOut(message) | LogChunk::StdErr(message) | LogChunk::Console(message) => {
                let piece = read_lossy(message);
                proof {
                    if whole_messages(chunks@) {
                        assert(utf8::valid_utf8(chunks@[i as int].printed()));
                        lossy::lemma_decode_sum(printed_bytes(before), message@);
                    }
                }
                buffer.append(piece.as_str());
            },
        }
        i = i + 1;
    }
    assert(chunks@.take(i as int) =~= chunks@);
    let code: i64 = match exit_code {
        Some(code) => code,
        None => 1,
    };
    (buffer, code)
}

/// The command that prints a file of the container.
pub fn print_file_command(path: &str) -> (r: Vec<String>)
    ensures
        text::views(r@) == seq!["cat"@, path@],
{
    let r = vec!["cat".to_string(), path.to_string()];
    assert(text::views(r@) =~= seq!["cat"@, path@]);
    r
}

/// What a file of the container holds, given what printing it brought: nothing
/// where the command failed.
pub fn read_container_file(output: String, status: i64) -> (r: Option<String>)
    ensures
        r == (if status == 0 {
            Some(output)
        } else {
            None
        }),
{
    if status != 0 {
        return None;
    }
    Some(output)
}

/// What a command prints with a message is the message, wherever it came from, but for
/// what was its input.
pub proof fn law_messages_are_printed(chunk: LogChunk)
    ensures
        match chunk {
            LogChunk::StdIn(_) => printed_text(seq![chunk]) == Seq::<char>::empty()
                && printed_bytes(seq![chunk]) == Seq::<u8>::empty(),
            LogChunk::StdOut(message) => printed_text(seq![chunk]) == lossy::lossy_text(message@)
                && printed_bytes(seq![chunk]) == message@,
            LogChunk::StdErr(message) => printed_text(seq![chunk]) == lossy::lossy_text(message@)
                && printed_bytes(seq![chunk]) == message@,
            LogChunk::Console(message) => printed_text(seq![chunk]) == lossy::lossy_text(message@)
                && printed_bytes(seq![chunk]) == message@,
        },
{
    reveal_with_fuel(printed_text, 2);
    reveal_with_fuel(printed_bytes, 2);
    assert(seq![chunk].drop_last() =~= Seq::<LogChunk>::empty());
    assert(printed_text(seq![chunk]) =~= chunk.text());
    assert(printed_bytes(seq![chunk]) =~= chunk.printed());
}

/// What messages print stands in their order.
pub proof fn law_messages_in_order(one: Seq<LogChunk>, other: Seq<LogChunk>)
    ensures
        printed_text(one + other) == printed_text(one) + printed_text(other),
        printed_bytes(one + other) == printed_bytes(one) + printed_bytes(other),
    decreases other.len(),
{
    if other.len() == 0 {
        assert(one + other =~= one);
        assert(printed_text(one) + printed_text(other) =~= printed_text(one));
        assert(printed_bytes(one) + printed_bytes(other) =~= printed_bytes(one));
    } else {
        law_messages_in_order(one, other.drop_last());
        assert((one + other).drop_last() =~= one + other.drop_last());
        assert((one + other).last() == other.last());
        assert(printed_text(one + other) =~= printed_text(one) + printed_text(other));
        assert(printed_bytes(one + other) =~= printed_bytes(one) + printed_bytes(other));
    }
}

} // verus!
