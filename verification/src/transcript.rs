//! A Fiat-Shamir transcript: a single evolving 32-byte hash state that
//! absorbs labelled messages and squeezes challenge bytes.  Every state
//! transition is a pure function of the previous state and the absorbed
//! bytes, so identical operation histories always yield identical
//! challenges.

use vstd::prelude::*;

use vstd::bytes::{
    lemma_auto_spec_u32_to_from_le_bytes, lemma_auto_spec_u64_to_from_le_bytes,
    spec_u32_to_le_bytes, spec_u64_to_le_bytes, u32_to_le_bytes, u64_to_le_bytes,
};

verus! {

/// The SHA-256 digest of `data`.
pub uninterp spec fn sha256_of(data: Seq<u8>) -> Seq<u8>;

/// Relies on solana_program::hash::hashv, the host SHA-256 facility: the
/// digest of the concatenation of the given byte slices.
#[verifier::external_body]
pub(crate) fn sha256(data: &[u8]) -> (r: [u8; 32])
    ensures
        r@ == sha256_of(data@),
{
    solana_program::hash::hashv(&[data]).to_bytes()
}

/// The ASCII bytes of the state-initialization tag, "INIT_STATE".
pub open spec fn spec_init_tag() -> Seq<u8> {
    seq![73u8, 78, 73, 84, 95, 83, 84, 65, 84, 69]
}

/// The ASCII bytes of the absorb tag, "ABSORB".
pub open spec fn spec_absorb_tag() -> Seq<u8> {
    seq![65u8, 66, 83, 79, 82, 66]
}

/// The ASCII bytes of the squeeze tag, "SQUEEZE".
pub open spec fn spec_squeeze_tag() -> Seq<u8> {
    seq![83u8, 81, 85, 69, 69, 90, 69]
}

/// The ASCII bytes of the domain-separation label, "dom-sep".
pub open spec fn spec_dom_sep() -> Seq<u8> {
    seq![100u8, 111, 109, 45, 115, 101, 112]
}

/// The state of a fresh hash chain seeded with `label`.
pub open spec fn spec_hash_init(label: Seq<u8>) -> Seq<u8> {
    sha256_of(spec_init_tag() + label)
}

/// The state after absorbing `bytes` into state `st`.
pub open spec fn spec_absorb(st: Seq<u8>, bytes: Seq<u8>) -> Seq<u8> {
    sha256_of(spec_absorb_tag() + st + bytes)
}

/// The state (and emitted block) after squeezing state `st` once.
pub open spec fn spec_squeeze(st: Seq<u8>) -> Seq<u8> {
    sha256_of(spec_squeeze_tag() + st)
}

/// The state after squeezing state `st` exactly `k` times.
pub open spec fn spec_squeeze_n(st: Seq<u8>, k: nat) -> Seq<u8>
    decreases k,
{
    if k == 0 {
        st
    } else {
        spec_squeeze(spec_squeeze_n(st, (k - 1) as nat))
    }
}

/// The concatenation of the first `k` blocks squeezed out of state `st`;
/// the i-th block equals the state after i+1 squeezes.
pub open spec fn spec_squeeze_stream(st: Seq<u8>, k: nat) -> Seq<u8>
    decreases k,
{
    if k == 0 {
        Seq::<u8>::empty()
    } else {
        spec_squeeze_stream(st, (k - 1) as nat) + spec_squeeze_n(st, k)
    }
}

/// The state after one `append_message(label, msg)` call on state `st`:
/// three absorptions, of the label, of the 4-byte little-endian message
/// length, and of the message itself, in that order.
pub open spec fn spec_append_message(st: Seq<u8>, label: Seq<u8>, msg: Seq<u8>) -> Seq<u8> {
    spec_absorb(spec_absorb(spec_absorb(st, label), spec_u32_to_le_bytes(msg.len() as u32)), msg)
}

/// The state of a fresh transcript for protocol `label`: a hash chain
/// seeded with the label, which then absorbs a domain-separator record for
/// it.
pub open spec fn spec_transcript_new(label: Seq<u8>) -> Seq<u8> {
    spec_append_message(spec_hash_init(label), spec_dom_sep(), label)
}

/// The state after absorbing a challenge request for `out_len` bytes under
/// `label`: the label and the 4-byte little-endian output length.
pub open spec fn spec_challenge_absorbed(st: Seq<u8>, label: Seq<u8>, out_len: nat) -> Seq<u8> {
    spec_absorb(spec_absorb(st, label), spec_u32_to_le_bytes(out_len as u32))
}

/// Append the bytes of `b` to `v`.
pub(crate) fn append_bytes(v: &mut Vec<u8>, b: &[u8])
    ensures
        final(v)@ == old(v)@ + b@,
{
    let mut i: usize = 0;
    while i < b.len()
        invariant
            i <= b@.len(),
            v@ == old(v)@ + b@.subrange(0, i as int),
        decreases b@.len() - i,
    {
        proof {
            assert(b@.subrange(0, i + 1) =~= b@.subrange(0, i as int).push(b@[i as int]));
        }
        v.push(b[i]);
        i += 1;
    }
    proof {
        assert(b@.subrange(0, b@.len() as int) =~= b@);
    }
}

/// The 8-byte little-endian encoding of `x`.
pub fn encode_u64(x: u64) -> (r: Vec<u8>)
    ensures
        r@ == spec_u64_to_le_bytes(x),
{
    u64_to_le_bytes(x)
}

/// The 4-byte little-endian encoding of `x`, which must fit in a `u32`.
pub fn encode_usize_as_u32(x: usize) -> (r: Vec<u8>)
    requires
        x <= u32::MAX,
    ensures
        r@ == spec_u32_to_le_bytes(x as u32),
{
    u32_to_le_bytes(x as u32)
}

/// The internal hash state used for Fiat-Shamir transforms: a running
/// 32-byte digest, replaced on every absorption and squeeze.
#[derive(Clone, Copy)]
pub struct HashState {
    state: [u8; 32],
}

impl View for HashState {
    type V = Seq<u8>;

    closed spec fn view(&self) -> Seq<u8> {
        self.state@
    }
}

impl HashState {
    /// Create a new hash state seeded with `bytes`.
    pub fn new(bytes: &'static [u8]) -> (r: Self)
        ensures
            r@ == spec_hash_init(bytes@),
    {
        let tag: [u8; 10] = [73, 78, 73, 84, 95, 83, 84, 65, 84, 69];
        let mut data: Vec<u8> = Vec::new();
        append_bytes(&mut data, tag.as_slice());
        append_bytes(&mut data, bytes);
        proof {
            assert(tag@ =~= spec_init_tag());
            assert(data@ =~= spec_init_tag() + bytes@);
        }
        HashState { state: sha256(data.as_slice()) }
    }

    /// Absorb bytes into the hash state.
    pub fn absorb(&mut self, bytes: &[u8])
        ensures
            final(self)@ == spec_absorb(old(self)@, bytes@),
    {
        let tag: [u8; 6] = [65, 66, 83, 79, 82, 66];
        let mut data: Vec<u8> = Vec::new();
        append_bytes(&mut data, tag.as_slice());
        append_bytes(&mut data, self.state.as_slice());
        append_bytes(&mut data, bytes);
        proof {
            assert(tag@ =~= spec_absorb_tag());
            assert(data@ =~= spec_absorb_tag() + old(self)@ + bytes@);
        }
        self.state = sha256(data.as_slice());
    }

    /// Squeeze one 32-byte block out of the hash state; the block is the
    /// new state.
    pub fn squeeze(&mut self) -> (r: [u8; 32])
        ensures
            r@ == spec_squeeze(old(self)@),
            final(self)@ == spec_squeeze(old(self)@),
    {
        let tag: [u8; 7] = [83, 81, 85, 69, 69, 90, 69];
        let mut data: Vec<u8> = Vec::new();
        append_bytes(&mut data, tag.as_slice());
        append_bytes(&mut data, self.state.as_slice());
        proof {
            assert(tag@ =~= spec_squeeze_tag());
            assert(data@ =~= spec_squeeze_tag() + old(self)@);
        }
        let h = sha256(data.as_slice());
        self.state = h;
        h
    }
}

/// A Fiat-Shamir transcript over the internal hash state.
#[derive(Clone, Copy)]
pub struct Transcript {
    state: HashState,
}

impl View for Transcript {
    type V = Seq<u8>;

    closed spec fn view(&self) -> Seq<u8> {
        self.state@
    }
}

impl Transcript {
    /// Create a new transcript for the protocol named by `label`.
    pub fn new(label: &'static [u8]) -> (r: Transcript)
        requires
            label@.len() <= u32::MAX,
        ensures
            r@ == spec_transcript_new(label@),
    {
        let mut transcript = Transcript { state: HashState::new(label) };
        let dom_sep: [u8; 7] = [100, 111, 109, 45, 115, 101, 112];
        proof {
            assert(dom_sep@ =~= spec_dom_sep());
        }
        transcript.append_message_slice(dom_sep.as_slice(), label);
        transcript
    }

    /// Append a labelled message to the transcript: absorbs the label, the
    /// 4-byte little-endian message length, then the message.
    pub fn append_message(&mut self, label: &'static [u8], message: &[u8])
        requires
            message@.len() <= u32::MAX,
        ensures
            final(self)@ == spec_append_message(old(self)@, label@, message@),
    {
        self.append_message_slice(label, message);
    }

    /// As `append_message`, for a label that need not be static.
    fn append_message_slice(&mut self, label: &[u8], message: &[u8])
        requires
            message@.len() <= u32::MAX,
        ensures
            final(self)@ == spec_append_message(old(self)@, label@, message@),
    {
        let data_len = encode_usize_as_u32(message.len());
        self.state.absorb(label);
        self.state.absorb(data_len.as_slice());
        self.state.absorb(message);
    }

    /// Append a `u64` to the transcript as its 8-byte little-endian
    /// encoding.
    pub fn append_u64(&mut self, label: &'static [u8], x: u64)
        ensures
            final(self)@ == spec_append_message(old(self)@, label@, spec_u64_to_le_bytes(x)),
    {
        proof {
            lemma_auto_spec_u64_to_from_le_bytes();
        }
        let encoded = encode_u64(x);
        self.append_message_slice(label, encoded.as_slice());
    }

    /// Squeeze `out_len` challenge bytes out of the transcript; `out_len`
    /// must be a positive multiple of 32.  Absorbs the label and the output
    /// length, then emits 32-byte blocks, mutating the state with each
    /// block, so challenges can never be re-derived without replaying the
    /// absorb history.
    pub fn challenge_bytes(&mut self, label: &'static [u8], out_len: usize) -> (r: Vec<u8>)
        requires
            out_len > 0,
            out_len % 32 == 0,
            out_len <= u32::MAX,
        ensures
            r@.len() == out_len,
            r@ == spec_squeeze_stream(
                spec_challenge_absorbed(old(self)@, label@, out_len as nat),
                (out_len / 32) as nat,
            ),
            final(self)@ == spec_squeeze_n(
                spec_challenge_absorbed(old(self)@, label@, out_len as nat),
                (out_len / 32) as nat,
            ),
    {
        let data_len = encode_usize_as_u32(out_len);
        self.state.absorb(label);
        self.state.absorb(data_len.as_slice());
        let ghost st0 = self.state@;
        let k = out_len / 32;
        proof {
            vstd::arithmetic::div_mod::lemma_fundamental_div_mod(out_len as int, 32);
        }
        let mut out: Vec<u8> = Vec::new();
        let mut i: usize = 0;
        while i < k
            invariant
                i <= k,
                self.state@ == spec_squeeze_n(st0, i as nat),
                out@ == spec_squeeze_stream(st0, i as nat),
                out@.len() == 32 * i,
            decreases k - i,
        {
            let block = self.state.squeeze();
            append_bytes(&mut out, block.as_slice());
            i += 1;
        }
        out
    }
}

/// One recorded absorb operation on a transcript: a labelled message or a
/// labelled 64-bit integer.
pub enum TranscriptOp {
    Message { label: Seq<u8>, message: Seq<u8> },
    U64 { label: Seq<u8>, value: u64 },
}

/// The state reached from `st` by one operation.
pub open spec fn spec_apply_op(st: Seq<u8>, op: TranscriptOp) -> Seq<u8> {
    match op {
        TranscriptOp::Message { label, message } => spec_append_message(st, label, message),
        TranscriptOp::U64 { label, value } => spec_append_message(
            st,
            label,
            spec_u64_to_le_bytes(value),
        ),
    }
}

/// The state reached from `st` by a sequence of operations, applied in
/// order.
pub open spec fn spec_apply_ops(st: Seq<u8>, ops: Seq<TranscriptOp>) -> Seq<u8>
    decreases ops.len(),
{
    if ops.len() == 0 {
        st
    } else {
        spec_apply_ops(spec_apply_op(st, ops[0]), ops.subrange(1, ops.len() as int))
    }
}

/// Transcript evolution holds no hidden entropy: two transcripts in equal
/// states that absorb equal operation sequences reach equal states, and an
/// equal challenge request then produces equal output bytes.
pub proof fn lemma_transcript_deterministic(
    st1: Seq<u8>,
    st2: Seq<u8>,
    ops: Seq<TranscriptOp>,
    label: Seq<u8>,
    out_len: nat,
)
    requires
        st1 == st2,
    ensures
        spec_apply_ops(st1, ops) == spec_apply_ops(st2, ops),
        spec_squeeze_stream(
            spec_challenge_absorbed(spec_apply_ops(st1, ops), label, out_len),
            out_len / 32,
        ) == spec_squeeze_stream(
            spec_challenge_absorbed(spec_apply_ops(st2, ops), label, out_len),
            out_len / 32,
        ),
{
}

} // verus!
