//! Newline-delimited message framing with a bound on each message.
//!
//! A transport reads its input in chunks; each chunk is scanned for the end of the current
//! line. The payload of a line never includes its newline byte, and a line whose payload
//! would exceed the bound is refused before any of it is kept.

use vstd::prelude::*;

verus! {

/// Longest accepted payload of one bridge line, in bytes.
pub const MAX_LINE_BYTES: usize = 1048576;

/// Position of the first newline byte of the chunk, if any.
pub open spec fn first_newline(s: Seq<u8>) -> Option<int> {
    if exists|i: int| 0 <= i < s.len() && s[i] == 10u8 {
        Some(choose|i: int| 0 <= i < s.len() && s[i] == 10u8 && forall|j: int| 0 <= j < i ==> s[j] != 10u8)
    } else {
        None
    }
}

/// What one scan of a chunk decides.
#[derive(Debug, Clone, Copy, PartialEq, Eq, Structural)]
pub struct ChunkScan {
    /// Bytes of the chunk that belong to the current line's payload.
    pub payload_len: usize,
    /// Bytes of the chunk to consume: the payload and its newline, when there is one.
    pub consumed: usize,
    /// The chunk ends the current line.
    pub complete: bool,
    /// Keeping the payload would exceed the bound; nothing may be kept or consumed.
    pub too_long: bool,
}

/// The scan of a chunk when `held` payload bytes of the line are already kept.
pub open spec fn scan_spec(chunk: Seq<u8>, held: nat, max: nat) -> ChunkScan {
    let (payload, consumed, complete) = match first_newline(chunk) {
        Some(i) => (i, i + 1, true),
        None => (chunk.len() as int, chunk.len() as int, false),
    };
    ChunkScan {
        payload_len: payload as usize,
        consumed: consumed as usize,
        complete,
        too_long: held + payload > max,
    }
}

/// Scan one chunk of input for the end of the current line.
pub fn scan_chunk(chunk: &[u8], held: usize, max: usize) -> (r: ChunkScan)
    ensures
        r == scan_spec(chunk@, held as nat, max as nat),
        r.payload_len <= r.consumed <= chunk@.len(),
{
    let mut i: usize = 0;
    while i < chunk.len()
        invariant
            i <= chunk@.len(),
            forall|j: int| 0 <= j < i ==> chunk@[j] != 10u8,
        decreases chunk@.len() - i,
    {
        if chunk[i] == 10u8 {
            proof {
                let s = chunk@;
                let k = choose|k: int|
                    0 <= k < s.len() && s[k] == 10u8 && forall|j: int| 0 <= j < k ==> s[j] != 10u8;
                if k < i {
                } else if k > i {
                }
                assert(k == i);
            }
            let too_long = held > max || i > max - held;
            return ChunkScan { payload_len: i, consumed: i + 1, complete: true, too_long };
        }
        i = i + 1;
    }
    let n = chunk.len();
    let too_long = held > max || n > max - held;
    ChunkScan { payload_len: n, consumed: n, complete: false, too_long }
}

/// Input already held in memory, read from a position onward.
pub struct BufferedInput {
    data: Vec<u8>,
    position: usize,
}

impl View for BufferedInput {
    type V = Seq<u8>;

    /// The bytes not yet consumed.
    closed spec fn view(&self) -> Seq<u8> {
        self.data@.subrange(self.position as int, self.data@.len() as int)
    }
}

impl BufferedInput {
    #[verifier::type_invariant]
    spec fn well_formed(&self) -> bool {
        self.position <= self.data@.len()
    }

    /// Input holding the given bytes, none consumed yet.
    pub fn new(data: Vec<u8>) -> (r: BufferedInput)
        ensures
            r@ == data@,
    {
        let r = BufferedInput { data, position: 0 };
        assert(r.data@.subrange(0, r.data@.len() as int) =~= r.data@);
        r
    }

    /// The bytes not yet consumed.
    pub fn remaining(&self) -> (r: &[u8])
        ensures
            r@ == self@,
    {
        proof {
            use_type_invariant(self);
        }
        let s = self.data.as_slice();
        crate::framing::slice_from(s, self.position)
    }

    /// Consume the first `count` remaining bytes.
    pub fn consume(&mut self, count: usize)
        requires
            count <= old(self)@.len(),
        ensures
            final(self)@ == old(self)@.subrange(count as int, old(self)@.len() as int),
    {
        proof {
            use_type_invariant(&*self);
        }
        let n = self.data.len();
        assert(self@.len() == n - self.position);
        self.position = self.position + count;
        assert(self@ =~= old(self)@.subrange(count as int, old(self)@.len() as int));
    }
}

/// The bytes of the slice from a position onward.
pub(crate) fn slice_from(s: &[u8], from: usize) -> (r: &[u8])
    requires
        from <= s@.len(),
    ensures
        r@ == s@.subrange(from as int, s@.len() as int),
{
    vstd::slice::slice_subrange(s, from, s.len())
}

/// Copy the first `count` bytes of the chunk to the end of the output.
pub(crate) fn append_prefix(output: &mut Vec<u8>, chunk: &[u8], count: usize)
    requires
        count <= chunk@.len(),
    ensures
        final(output)@ == old(output)@ + chunk@.take(count as int),
{
    let mut i: usize = 0;
    while i < count
        invariant
            i <= count <= chunk@.len(),
            output@ == old(output)@ + chunk@.take(i as int),
        decreases count - i,
    {
        output.push(chunk[i]);
        assert(chunk@.take(i + 1) =~= chunk@.take(i as int).push(chunk@[i as int]));
        assert(old(output)@ + chunk@.take(i + 1) =~= (old(output)@ + chunk@.take(i as int)).push(
            chunk@[i as int],
        ));
        i = i + 1;
    }
}

/// What reading one line from buffered input answers: `None` when the line is too long,
/// else whether a line was read, its payload, and the number of bytes consumed.
pub open spec fn line_spec(input: Seq<u8>, max: nat) -> Option<(bool, Seq<u8>, nat)> {
    if input.len() == 0 {
        Some((false, Seq::empty(), 0))
    } else {
        let scan = scan_spec(input, 0, max);
        if scan.too_long {
            None
        } else {
            Some((true, input.take(scan.payload_len as int), scan.consumed as nat))
        }
    }
}

/// Read one line of at most `max` payload bytes from buffered input into `output`.
///
/// Answers `None` when the line is too long (nothing is consumed and the output is empty),
/// else whether a line was read.
pub fn read_line(input: &mut BufferedInput, output: &mut Vec<u8>, max: usize) -> (r: Option<bool>)
    ensures
        match line_spec(old(input)@, max as nat) {
            None => r is None && final(output)@.len() == 0 && final(input)@ == old(input)@,
            Some((read, payload, consumed)) => r == Some(read) && final(output)@ == payload
                && final(input)@ == old(input)@.subrange(consumed as int, old(input)@.len() as int),
        },
{
    output.clear();
    let chunk = input.remaining();
    if chunk.len() == 0 {
        assert(old(input)@.subrange(0, old(input)@.len() as int) =~= old(input)@);
        return Some(false);
    }
    let scan = scan_chunk(chunk, 0, max);
    if scan.too_long {
        return None;
    }
    append_prefix(output, chunk, scan.payload_len);
    assert(Seq::<u8>::empty() + chunk@.take(scan.payload_len as int) =~= chunk@.take(scan.payload_len as int));
    input.consume(scan.consumed);
    Some(true)
}

proof fn lemma_first_newline_is_first(s: Seq<u8>, k: int)
    requires
        0 <= k <= s.len(),
        forall|j: int| 0 <= j < k ==> s[j] != 10u8,
        exists|i: int| k <= i < s.len() && s[i] == 10u8,
    ensures
        exists|i: int| 0 <= i < s.len() && s[i] == 10u8 && forall|j: int| 0 <= j < i ==> s[j] != 10u8,
    decreases s.len() - k,
{
    if s[k] == 10u8 {
        assert(0 <= k < s.len() && s[k] == 10u8 && forall|j: int| 0 <= j < k ==> s[j] != 10u8);
    } else {
        let w = choose|i: int| k <= i < s.len() && s[i] == 10u8;
        assert(k + 1 <= w);
        lemma_first_newline_is_first(s, k + 1);
    }
}

/// A line never exceeds its bound: a line that is read has at most `max` payload bytes, holds
/// no newline, is the start of the input, and is followed by its newline unless the input ends;
/// a refused line has more than `max` bytes before any newline.
pub proof fn law_lines_are_bounded(input: Seq<u8>, max: nat)
    requires
        input.len() <= usize::MAX,
    ensures
        match line_spec(input, max) {
            None => input.len() > max && forall|i: int| 0 <= i <= max ==> input[i] != 10u8,
            Some((read, payload, consumed)) => {
                &&& read == (input.len() > 0)
                &&& payload.len() <= max
                &&& payload == input.take(payload.len() as int)
                &&& forall|i: int| 0 <= i < payload.len() ==> payload[i] != 10u8
                &&& payload.len() <= consumed <= input.len()
                &&& (consumed == payload.len() + 1 && input[payload.len() as int] == 10u8)
                    || (consumed == payload.len() && consumed == input.len())
            },
        },
{
    if input.len() > 0 {
        match first_newline(input) {
            Some(k) => {
                lemma_first_newline_is_first(input, 0);
                assert(0 <= k < input.len() && input[k] == 10u8 && forall|j: int|
                    0 <= j < k ==> input[j] != 10u8);
            },
            None => {
                assert(forall|j: int| 0 <= j < input.len() ==> input[j] != 10u8);
            },
        }
    }
}

} // verus!
