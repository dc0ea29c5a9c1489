use bulletproofs_core::transcript::{encode_u64, encode_usize_as_u32, HashState, Transcript};

#[test]
fn encode_helpers_are_little_endian() {
    assert_eq!(encode_u64(77), vec![77, 0, 0, 0, 0, 0, 0, 0]);
    assert_eq!(encode_u64(0x0102030405060708), vec![8, 7, 6, 5, 4, 3, 2, 1]);
    assert_eq!(encode_usize_as_u32(7), vec![7, 0, 0, 0]);
    assert_eq!(encode_usize_as_u32(0x01020304), vec![4, 3, 2, 1]);
}

#[test]
fn hash_state_squeeze_advances() {
    let mut st = HashState::new(b"state label");
    let first = st.squeeze();
    let second = st.squeeze();
    // Squeezing mutates the state: a constant or echoing hash would fail.
    assert_ne!(first, second);

    let mut st2 = HashState::new(b"state label");
    assert_eq!(st2.squeeze(), first);
    st2.absorb(b"extra");
    assert_ne!(st2.squeeze(), second);
}

#[test]
fn identical_histories_give_identical_challenges() {
    let mut t1 = Transcript::new(b"protocol");
    let mut t2 = Transcript::new(b"protocol");
    t1.append_message(b"data", b"hello world");
    t2.append_message(b"data", b"hello world");
    t1.append_u64(b"count", 42);
    t2.append_u64(b"count", 42);
    let c1 = t1.challenge_bytes(b"challenge", 32);
    let c2 = t2.challenge_bytes(b"challenge", 32);
    assert_eq!(c1, c2);
    assert_eq!(c1.len(), 32);
}

#[test]
fn one_byte_difference_changes_challenge() {
    let mut t1 = Transcript::new(b"protocol");
    let mut t2 = Transcript::new(b"protocol");
    t1.append_message(b"data", b"hello world");
    t2.append_message(b"data", b"hello worle");
    let c1 = t1.challenge_bytes(b"challenge", 32);
    let c2 = t2.challenge_bytes(b"challenge", 32);
    assert_ne!(c1, c2);
}

#[test]
fn longer_challenges_extend_the_stream() {
    let mut t1 = Transcript::new(b"protocol");
    let mut t2 = Transcript::new(b"protocol");
    t1.append_u64(b"n", 7);
    t2.append_u64(b"n", 7);
    let c64 = t1.challenge_bytes(b"out", 64);
    let c64_again = t2.challenge_bytes(b"out", 64);
    assert_eq!(c64.len(), 64);
    assert_eq!(c64, c64_again);
    // The two 32-byte blocks differ from each other.
    assert_ne!(&c64[..32], &c64[32..]);
}

#[test]
fn challenges_depend_on_label_and_history() {
    let mut t1 = Transcript::new(b"protocol");
    let mut t2 = Transcript::new(b"protocol");
    let c1 = t1.challenge_bytes(b"alpha", 32);
    let c2 = t2.challenge_bytes(b"beta", 32);
    assert_ne!(c1, c2);

    let mut t3 = Transcript::new(b"other protocol");
    let c3 = t3.challenge_bytes(b"alpha", 32);
    assert_ne!(c1, c3);
}

#[test]
fn squeezing_mutates_transcript_state() {
    let mut t = Transcript::new(b"protocol");
    let c1 = t.challenge_bytes(b"x", 32);
    let c2 = t.challenge_bytes(b"x", 32);
    // The same request twice yields different bytes: challenges cannot be
    // re-derived without replaying the absorb history.
    assert_ne!(c1, c2);
}
