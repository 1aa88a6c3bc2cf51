//! IMA ADPCM decoder: 4-bit codes to signed 16-bit PCM, one code at a time.

use vstd::prelude::*;

verus! {

/// Change of the step index for each 4-bit code.
pub const IMA_INDEX_TABLE: [i16; 16] = [-1, -1, -1, -1, 2, 4, 6, 8, -1, -1, -1, -1, 2, 4, 6, 8];

/// Quantizer step size for each step index.
pub const IMA_STEP_TABLE: [i16; 89] = [
    7, 8, 9, 10, 11, 12, 13, 14, 16, 17, 19, 21, 23, 25, 28, 31, 34, 37, 41, 45, 50, 55, 60, 66,
    73, 80, 88, 97, 107, 118, 130, 143, 157, 173, 190, 209, 230, 253, 279, 307, 337, 371, 408, 449,
    494, 544, 598, 658, 724, 796, 876, 963, 1060, 1166, 1282, 1411, 1552, 1707, 1878, 2066, 2272,
    2499, 2749, 3024, 3327, 3660, 4026, 4428, 4871, 5358, 5894, 6484, 7132, 7845, 8630, 9493,
    10442, 11487, 12635, 13899, 15289, 16818, 18500, 20350, 22385, 24623, 27086, 29794, 32767,
];

/// The decoder's state as mathematical integers.
pub struct DecoderState {
    pub step_index: int,
    pub prev_sample: int,
}

/// The state every decoder starts from.
pub open spec fn initial_state() -> DecoderState {
    DecoderState { step_index: 0, prev_sample: 0 }
}

/// A state that a decoder can be in: both components within their ranges.
pub open spec fn valid_state(s: DecoderState) -> bool {
    0 <= s.step_index <= 88 && -32768 <= s.prev_sample <= 32767
}

pub open spec fn clamp(x: int, lo: int, hi: int) -> int {
    if x < lo {
        lo
    } else if x > hi {
        hi
    } else {
        x
    }
}

/// The step size that belongs to a step index.
pub open spec fn step_size(step_index: int) -> int {
    IMA_STEP_TABLE@[step_index] as int
}

/// The change of the step index that a code asks for.
pub open spec fn index_adjust(n: int) -> int {
    IMA_INDEX_TABLE@[n] as int
}

/// The signed difference that code `n` adds to the predictor at step size `step`.
pub open spec fn code_diff(step: int, n: int) -> int {
    let magnitude = step / 8 + (if n % 2 == 1 {
        step / 4
    } else {
        0
    }) + (if (n / 2) % 2 == 1 {
        step / 2
    } else {
        0
    }) + (if (n / 4) % 2 == 1 {
        step
    } else {
        0
    });
    if (n / 8) % 2 == 1 {
        -magnitude
    } else {
        magnitude
    }
}

/// The state after decoding code `n` in state `s`. The sample that the
/// decoder emits for `n` is the new `prev_sample`.
pub open spec fn next_state(s: DecoderState, n: int) -> DecoderState {
    DecoderState {
        step_index: clamp(s.step_index + index_adjust(n), 0, 88),
        prev_sample: clamp(s.prev_sample + code_diff(step_size(s.step_index), n), -32768, 32767),
    }
}

/// The two codes packed in a byte, in decoding order: the low four bits
/// first, then the high four bits.
pub open spec fn codes_of_byte(b: u8) -> Seq<int> {
    seq![(b % 16) as int, (b / 16) as int]
}

/// The codes packed in a run of bytes, in decoding order.
pub open spec fn codes_of(bytes: Seq<u8>) -> Seq<int>
    decreases bytes.len(),
{
    if bytes.len() == 0 {
        Seq::empty()
    } else {
        codes_of(bytes.drop_last()) + codes_of_byte(bytes.last())
    }
}

/// The state after decoding `codes` in order, starting in state `s`.
pub open spec fn state_after(s: DecoderState, codes: Seq<int>) -> DecoderState
    decreases codes.len(),
{
    if codes.len() == 0 {
        s
    } else {
        next_state(state_after(s, codes.drop_last()), codes.last())
    }
}

/// The samples emitted while decoding `codes` in order, starting in state `s`.
pub open spec fn samples_of(s: DecoderState, codes: Seq<int>) -> Seq<i16>
    decreases codes.len(),
{
    if codes.len() == 0 {
        Seq::empty()
    } else {
        samples_of(s, codes.drop_last()).push(state_after(s, codes).prev_sample as i16)
    }
}

#[allow(non_camel_case_types)]
pub struct IMA_ADPCM_Decoder {
    step_index: i16,
    prev_sample: i64,
}

impl View for IMA_ADPCM_Decoder {
    type V = DecoderState;

    closed spec fn view(&self) -> DecoderState {
        DecoderState { step_index: self.step_index as int, prev_sample: self.prev_sample as int }
    }
}

impl IMA_ADPCM_Decoder {
    #[verifier::type_invariant]
    spec fn in_range(self) -> bool {
        0 <= self.step_index <= 88 && -32768 <= self.prev_sample <= 32767
    }

    /// A decoder in the initial state.
    pub fn new() -> (d: Self)
        ensures
            d@ == initial_state(),
    {
        IMA_ADPCM_Decoder { step_index: 0, prev_sample: 0 }
    }

    /// Decodes one 4-bit code and returns its sample.
    pub fn decode(&mut self, sample: u16) -> (pcm: i16)
        requires
            sample < 16,
        ensures
            final(self)@ == next_state(old(self)@, sample as int),
            pcm as int == final(self)@.prev_sample,
            valid_state(final(self)@),
    {
        proof {
            use_type_invariant(&*self);
        }
        let code = sample as i64;
        let step = IMA_STEP_TABLE[self.step_index as usize] as i64;
        let mut diff = step >> 3;
        assert(0 < step <= 32767);
        assert(step >> 3 == step / 8 && step >> 2 == step / 4 && step >> 1 == step / 2) by (bit_vector)
            requires
                0 < step <= 32767,
        ;
        assert((code & 1 != 0) == (code % 2 == 1) && (code & 2 != 0) == ((code / 2) % 2 == 1) && (code
            & 4 != 0) == ((code / 4) % 2 == 1) && (code & 8 != 0) == ((code / 8) % 2 == 1))
            by (bit_vector)
            requires
                0 <= code < 16,
        ;
        if (code & 1) != 0 {
            diff += step >> 2;
        }
        if (code & 2) != 0 {
            diff += step >> 1;
        }
        if (code & 4) != 0 {
            diff += step;
        }
        if (code & 8) != 0 {
            diff = -diff;
        }
        let mut prev = self.prev_sample + diff;
        if prev > 32767 {
            prev = 32767;
        } else if prev < -32768 {
            prev = -32768;
        }
        let mut index = self.step_index + IMA_INDEX_TABLE[sample as usize];
        if index < 0 {
            index = 0;
        } else if index > 88 {
            index = 88;
        }
        self.prev_sample = prev;
        self.step_index = index;
        prev as i16
    }

    /// Decodes the two codes of one byte, low four bits first, and returns
    /// their samples in that order.
    pub fn decode_byte(&mut self, byte: u8) -> (pcm: (i16, i16))
        ensures
            final(self)@ == state_after(old(self)@, codes_of_byte(byte)),
            seq![pcm.0, pcm.1] == samples_of(old(self)@, codes_of_byte(byte)),
            pcm.0 as int == next_state(old(self)@, (byte % 16) as int).prev_sample,
            pcm.1 as int == final(self)@.prev_sample,
            valid_state(final(self)@),
    {
        assert(byte & 0x0F == byte % 16 && byte >> 4 == byte / 16 && byte % 16 < 16 && byte / 16
            < 16) by (bit_vector);
        let ghost start = self@;
        let low = self.decode((byte & 0x0F) as u16);
        let high = self.decode((byte >> 4) as u16);
        proof {
            lemma_two_codes(start, (byte % 16) as int, (byte / 16) as int);
        }
        (low, high)
    }

    /// Decodes every byte of `bytes` in order, two samples per byte.
    pub fn decode_bytes(&mut self, bytes: &[u8]) -> (pcm: Vec<i16>)
        ensures
            final(self)@ == state_after(old(self)@, codes_of(bytes@)),
            pcm@ == samples_of(old(self)@, codes_of(bytes@)),
            pcm@.len() == 2 * bytes@.len(),
            valid_state(final(self)@),
    {
        proof {
            use_type_invariant(&*self);
        }
        let ghost start = self@;
        let mut pcm: Vec<i16> = Vec::new();
        let mut i: usize = 0;
        assert(bytes@.take(0) =~= Seq::<u8>::empty());
        while i < bytes.len()
            invariant
                i <= bytes.len(),
                self@ == state_after(start, codes_of(bytes@.take(i as int))),
                pcm@ == samples_of(start, codes_of(bytes@.take(i as int))),
                pcm@.len() == 2 * i,
                valid_state(self@),
            decreases bytes.len() - i,
        {
            let ghost before = self@;
            let ghost done = codes_of(bytes@.take(i as int));
            let (low, high) = self.decode_byte(bytes[i]);
            pcm.push(low);
            pcm.push(high);
            proof {
                let next = bytes@.take(i + 1);
                assert(next.drop_last() =~= bytes@.take(i as int));
                assert(next.last() == bytes@[i as int]);
                lemma_decode_in_chunks(start, done, codes_of_byte(bytes@[i as int]));
            }
            i += 1;
        }
        assert(bytes@.take(i as int) =~= bytes@);
        pcm
    }

    /// The current step index.
    pub fn step_index(&self) -> (r: i16)
        ensures
            r as int == self@.step_index,
            0 <= r <= 88,
    {
        proof {
            use_type_invariant(self);
        }
        self.step_index
    }

    /// The predictor: the sample emitted last, or 0 before the first code.
    pub fn prev_sample(&self) -> (r: i64)
        ensures
            r as int == self@.prev_sample,
            -32768 <= r <= 32767,
    {
        proof {
            use_type_invariant(self);
        }
        self.prev_sample
    }
}

/// Decoding two codes, one after the other.
pub proof fn lemma_two_codes(s: DecoderState, first: int, second: int)
    ensures
        state_after(s, seq![first, second]) == next_state(next_state(s, first), second),
        samples_of(s, seq![first, second]) == seq![
            next_state(s, first).prev_sample as i16,
            next_state(next_state(s, first), second).prev_sample as i16,
        ],
{
    let both = seq![first, second];
    let one = seq![first];
    assert(both.drop_last() =~= one);
    assert(one.drop_last() =~= Seq::<int>::empty());
    reveal_with_fuel(state_after, 3);
    reveal_with_fuel(samples_of, 3);
    assert(state_after(s, one) == next_state(s, first));
    assert(samples_of(s, one) =~= seq![next_state(s, first).prev_sample as i16]);
}

/// A stream may be decoded in pieces: decoding `head` and then `tail` from
/// the state that `head` left gives the samples and the state of decoding
/// `head + tail` at once.
pub proof fn lemma_decode_in_chunks(s: DecoderState, head: Seq<int>, tail: Seq<int>)
    ensures
        state_after(s, head + tail) == state_after(state_after(s, head), tail),
        samples_of(s, head + tail) == samples_of(s, head) + samples_of(state_after(s, head), tail),
    decreases tail.len(),
{
    if tail.len() == 0 {
        assert(head + tail =~= head);
    } else {
        let all = head + tail;
        assert(all.drop_last() =~= head + tail.drop_last());
        assert(all.last() == tail.last());
        lemma_decode_in_chunks(s, head, tail.drop_last());
    }
}

/// Determinism: two decoders that start in the same state and are fed the
/// same bytes emit the same samples and end in the same state.
pub proof fn lemma_decoders_agree(a: DecoderState, b: DecoderState, fed_a: Seq<u8>, fed_b: Seq<u8>)
    requires
        a == b,
        fed_a =~= fed_b,
    ensures
        samples_of(a, codes_of(fed_a)) == samples_of(b, codes_of(fed_b)),
        state_after(a, codes_of(fed_a)) == state_after(b, codes_of(fed_b)),
{
}

/// Clamping: whatever the state and the code, the next state is within range.
pub proof fn lemma_next_state_is_valid(s: DecoderState, n: int)
    ensures
        valid_state(next_state(s, n)),
{
}

/// Clamping, over a whole stream: after every code the state is within
/// range, and the sample emitted for that code is the predictor at that point.
pub proof fn lemma_states_stay_valid(s: DecoderState, codes: Seq<int>)
    requires
        valid_state(s),
    ensures
        valid_state(state_after(s, codes)),
        samples_of(s, codes).len() == codes.len(),
        forall|i: int|
            0 <= i < codes.len() ==> valid_state(#[trigger] state_after(s, codes.take(i + 1))),
        forall|i: int|
            0 <= i < codes.len() ==> (#[trigger] samples_of(s, codes)[i]) as int == state_after(
                s,
                codes.take(i + 1),
            ).prev_sample,
    decreases codes.len(),
{
    if codes.len() > 0 {
        let front = codes.drop_last();
        lemma_states_stay_valid(s, front);
        assert(codes.take(codes.len() as int) =~= codes);
        assert forall|i: int| 0 <= i < codes.len() implies valid_state(
            #[trigger] state_after(s, codes.take(i + 1)),
        ) && samples_of(s, codes)[i] as int == state_after(s, codes.take(i + 1)).prev_sample by {
            if i < front.len() {
                assert(codes.take(i + 1) =~= front.take(i + 1));
            }
        }
    }
}

/// Order within a byte: the low four bits are decoded first, the high four
/// bits second, from the state that the low bits left.
pub proof fn lemma_low_code_first(s: DecoderState, b: u8)
    ensures
        ({
            let low = (b & 0x0F) as int;
            let high = ((b >> 4) & 0x0F) as int;
            &&& samples_of(s, codes_of(seq![b])) == seq![
                next_state(s, low).prev_sample as i16,
                next_state(next_state(s, low), high).prev_sample as i16,
            ]
            &&& state_after(s, codes_of(seq![b])) == next_state(next_state(s, low), high)
        }),
{
    assert(b & 0x0F == b % 16 && (b >> 4) & 0x0F == b / 16) by (bit_vector);
    let one = seq![b];
    assert(one.drop_last() =~= Seq::<u8>::empty());
    reveal_with_fuel(codes_of, 2);
    assert(codes_of(one) =~= codes_of_byte(b));
    lemma_two_codes(s, (b % 16) as int, (b / 16) as int);
}

/// Silence: a fresh decoder fed zero bytes only emits zero samples only and
/// stays in the initial state.
pub proof fn lemma_silence(bytes: Seq<u8>)
    requires
        forall|i: int| 0 <= i < bytes.len() ==> bytes[i] == 0,
    ensures
        state_after(initial_state(), codes_of(bytes)) == initial_state(),
        samples_of(initial_state(), codes_of(bytes)) == Seq::new(2 * bytes.len(), |i: int| 0i16),
    decreases bytes.len(),
{
    if bytes.len() == 0 {
        assert(samples_of(initial_state(), codes_of(bytes)) =~= Seq::new(0, |i: int| 0i16));
    } else {
        let front = bytes.drop_last();
        lemma_silence(front);
        lemma_decode_in_chunks(initial_state(), codes_of(front), codes_of_byte(0));
        lemma_two_codes(initial_state(), 0, 0);
        assert(next_state(initial_state(), 0) == initial_state());
        assert(samples_of(initial_state(), codes_of(bytes)) =~= Seq::new(
            2 * bytes.len(),
            |i: int| 0i16,
        ));
    }
}

/// Full positive drive: the code 7 never lowers the predictor, raises it
/// while it is below 32767, and holds it there once it is reached.
pub proof fn lemma_full_drive_rises(s: DecoderState)
    requires
        valid_state(s),
    ensures
        next_state(s, 7).prev_sample >= s.prev_sample,
        s.prev_sample < 32767 ==> next_state(s, 7).prev_sample > s.prev_sample,
        s.prev_sample == 32767 ==> next_state(s, 7).prev_sample == 32767,
{
    assert(step_size(s.step_index) >= 7);
}

} // verus!
