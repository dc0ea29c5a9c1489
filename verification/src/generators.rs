//! Deterministic derivation of proof generators.  A `GeneratorsChain`
//! squeezes an unbounded stream of group elements out of SHAKE256 keyed by
//! a label; `PedersenGens` holds the fixed commitment pair; and
//! `BulletproofGens` grows per-party generator tables on demand, never
//! altering generators it has already issued.

use vstd::prelude::*;

use vstd::bytes::{lemma_auto_spec_u32_to_from_le_bytes, spec_u32_to_le_bytes};

use crate::CryptoError;
use crate::ristretto::{
    RistrettoPoint, all_canonical_scalars, all_valid_points, is_valid_point, lemma_msm_pair,
    point_from_uniform_bytes, point_views, pt_add_of, pt_from_uniform_of, pt_mul_of,
    ristretto_basepoint_compressed, ristretto_basepoint_point, scalar_views, spec_basepoint_enc,
    spec_msm, hash_to_point_of,
};
use crate::scalar::{Scalar, is_canonical_scalar};
use crate::transcript::{append_bytes, encode_usize_as_u32};
use sha3::digest::{ExtendableOutput, Update, XofReader};

verus! {

/// The `i`-th 64-byte block of the SHAKE256 output stream on input `seed`.
pub uninterp spec fn shake256_of(seed: Seq<u8>, i: nat) -> Seq<u8>;

#[verifier::external_type_specification]
#[verifier::external_body]
pub struct ExSha3XofReader(sha3::Sha3XofReader);

/// The ASCII bytes of the chain domain tag, "GeneratorsChain".
pub open spec fn spec_chain_tag() -> Seq<u8> {
    seq![71u8, 101, 110, 101, 114, 97, 116, 111, 114, 115, 67, 104, 97, 105, 110]
}

/// The SHAKE256 input of a chain labelled `label`: the domain tag followed
/// by the label.
pub open spec fn spec_chain_seed(label: Seq<u8>) -> Seq<u8> {
    spec_chain_tag() + label
}

/// The `i`-th group element of the chain labelled `label`: the `i`-th
/// 64-byte block of the keyed SHAKE256 stream, mapped to the group.
pub open spec fn spec_chain_output(label: Seq<u8>, i: nat) -> Seq<u8> {
    pt_from_uniform_of(shake256_of(spec_chain_seed(label), i))
}

/// The ghost state of a generator chain: the bytes its hash was keyed with
/// and how many 64-byte blocks were already squeezed.
pub struct ChainView {
    pub seed: Seq<u8>,
    pub pos: nat,
}

/// A chain of generators, determined by the hash of `label`: an unbounded,
/// deterministic stream of group elements.
pub struct GeneratorsChain {
    reader: sha3::Sha3XofReader,
    seed: Ghost<Seq<u8>>,
    pos: Ghost<nat>,
}

impl View for GeneratorsChain {
    type V = ChainView;

    closed spec fn view(&self) -> ChainView {
        ChainView { seed: self.seed@, pos: self.pos@ }
    }
}

/// Relies on sha3's Shake256 (Update / ExtendableOutput): the returned
/// reader yields the SHAKE256 output stream of the absorbed bytes, the
/// chain domain tag followed by the label.  What that stream holds is
/// stated by `read_block`, over the seed recorded beside the reader.
#[verifier::external_body]
fn chain_reader_new(label: &[u8]) -> (r: sha3::Sha3XofReader) {
    let mut shake = sha3::Shake256::default();
    shake.update(b"GeneratorsChain");
    shake.update(label);
    shake.finalize_xof()
}

impl GeneratorsChain {
    /// Creates a chain of generators, determined by the hash of `label`.
    pub fn new(label: &[u8]) -> (r: Self)
        ensures
            r@.seed == spec_chain_seed(label@),
            r@.pos == 0,
    {
        let reader = chain_reader_new(label);
        let ghost seed = spec_chain_seed(label@);
        GeneratorsChain { reader, seed: Ghost(seed), pos: Ghost(0nat) }
    }

    /// Relies on digest::XofReader::read for Sha3XofReader: reading 64
    /// bytes yields the next 64-byte block of the SHAKE256 output stream,
    /// named here by the absorbed seed and the block position.  The private
    /// `seed` and `pos` fields record exactly what `new` absorbed and how
    /// many blocks were read; only this module constructs the pair.
    #[verifier::external_body]
    fn read_block(&mut self) -> (r: [u8; 64])
        ensures
            final(self)@.seed == old(self)@.seed,
            final(self)@.pos == old(self)@.pos + 1,
            r@ == shake256_of(old(self)@.seed, old(self)@.pos),
    {
        let mut buf = [0u8; 64];
        self.reader.read(&mut buf);
        buf
    }

    /// Squeeze one 64-byte block and map it to the group: the next
    /// generator of the chain.
    pub fn next(&mut self) -> (r: RistrettoPoint)
        ensures
            final(self)@.seed == old(self)@.seed,
            final(self)@.pos == old(self)@.pos + 1,
            r@ == pt_from_uniform_of(shake256_of(old(self)@.seed, old(self)@.pos)),
            is_valid_point(r@),
    {
        let block = self.read_block();
        point_from_uniform_bytes(&block)
    }

    /// Advances the reader `n` times, squeezing and discarding the result.
    /// The chain then behaves exactly as if the `n` outputs had been taken
    /// one by one and thrown away.
    pub fn fast_forward(self, n: usize) -> (r: Self)
        ensures
            r@.seed == self@.seed,
            r@.pos == self@.pos + n,
    {
        let mut chain = self;
        let ghost seed0 = chain@.seed;
        let ghost pos0 = chain@.pos;
        let mut i: usize = 0;
        while i < n
            invariant
                i <= n,
                chain@.seed == seed0,
                chain@.pos == pos0 + i,
            decreases n - i,
        {
            let _ = chain.read_block();
            i += 1;
        }
        chain
    }
}

impl Default for GeneratorsChain {
    /// A chain with the empty label.
    fn default() -> (r: Self)
        ensures
            r@.seed == spec_chain_seed(Seq::<u8>::empty()),
            r@.pos == 0,
    {
        let empty: [u8; 0] = [];
        let r = GeneratorsChain::new(empty.as_slice());
        proof {
            assert(empty@ =~= Seq::<u8>::empty());
        }
        r
    }
}

/// The chain state after fast-forwarding `n` outputs in one move.
pub open spec fn spec_chain_advanced(v: ChainView, n: nat) -> ChainView {
    ChainView { seed: v.seed, pos: v.pos + n }
}

/// The chain state after squeezing and discarding `n` outputs one at a
/// time.
pub open spec fn spec_chain_stepped(v: ChainView, n: nat) -> ChainView
    decreases n,
{
    if n == 0 {
        v
    } else {
        spec_chain_advanced(spec_chain_stepped(v, (n - 1) as nat), 1)
    }
}

/// The output squeezed next from chain state `v`.
pub open spec fn spec_next_output(v: ChainView) -> Seq<u8> {
    pt_from_uniform_of(shake256_of(v.seed, v.pos))
}

/// Fast-forwarding over `n` outputs reaches exactly the state reached by
/// taking and discarding `n` outputs one at a time, so the next output
/// after either is the same element.
pub proof fn lemma_fast_forward_equals_stepping(v: ChainView, n: nat)
    ensures
        spec_chain_advanced(v, n) == spec_chain_stepped(v, n),
        spec_next_output(spec_chain_advanced(v, n)) == spec_next_output(spec_chain_stepped(v, n)),
    decreases n,
{
    if n > 0 {
        lemma_fast_forward_equals_stepping(v, (n - 1) as nat);
    }
}

/// The k-th output of a generator chain is a pure function of its label:
/// re-deriving a chain from an equal label yields byte-identical outputs,
/// independent of process or platform.
pub proof fn lemma_chain_outputs_deterministic(label1: Seq<u8>, label2: Seq<u8>, k: nat)
    requires
        label1 == label2,
    ensures
        spec_chain_output(label1, k) == spec_chain_output(label2, k),
{
}

/// The fixed pair of commitment generators.
#[allow(non_snake_case)]
pub struct PedersenGens {
    /// Base for the committed value.
    pub B: RistrettoPoint,
    /// Base for the blinding factor.
    pub B_blinding: RistrettoPoint,
}

impl PedersenGens {
    /// Commit to `value` with blinding factor `blinding`:
    /// `value·B + blinding·B_blinding`.
    pub fn commit(&self, value: Scalar, blinding: Scalar) -> (r: Result<
        RistrettoPoint,
        CryptoError,
    >)
        ensures
            r is Ok <==> (is_canonical_scalar(value@) && is_canonical_scalar(blinding@)
                && is_valid_point(self.B@) && is_valid_point(self.B_blinding@)),
            r matches Ok(p) ==> p@ == spec_msm(
                seq![value@, blinding@],
                seq![self.B@, self.B_blinding@],
            ),
            r matches Ok(p) ==> p@ == pt_add_of(
                pt_mul_of(self.B@, value@),
                pt_mul_of(self.B_blinding@, blinding@),
            ),
            r matches Ok(p) ==> is_valid_point(p@),
            r matches Err(e) ==> e == CryptoError::InvalidEncoding,
    {
        let mut scalars: Vec<Scalar> = Vec::new();
        scalars.push(value);
        scalars.push(blinding);
        let mut points: Vec<RistrettoPoint> = Vec::new();
        points.push(self.B);
        points.push(self.B_blinding);
        proof {
            let sv = scalar_views(scalars@);
            let pv = point_views(points@);
            assert(sv =~= seq![value@, blinding@]);
            assert(pv =~= seq![self.B@, self.B_blinding@]);
            assert(sv[0] == value@);
            assert(sv[1] == blinding@);
            assert(pv[0] == self.B@);
            assert(pv[1] == self.B_blinding@);
            if is_canonical_scalar(value@) && is_canonical_scalar(blinding@) {
                assert forall|i: int| 0 <= i < sv.len() implies is_canonical_scalar(
                    #[trigger] sv[i],
                ) by {
                    if i == 0 {
                    } else {
                        assert(i == 1);
                    }
                }
                assert(all_canonical_scalars(sv));
            }
            if is_valid_point(self.B@) && is_valid_point(self.B_blinding@) {
                assert forall|i: int| 0 <= i < pv.len() implies is_valid_point(
                    #[trigger] pv[i],
                ) by {
                    if i == 0 {
                    } else {
                        assert(i == 1);
                    }
                }
                assert(all_valid_points(pv));
            }
            lemma_msm_pair(value@, blinding@, self.B@, self.B_blinding@);
        }
        RistrettoPoint::multiscalar_multiply(scalars.as_slice(), points.as_slice())
    }
}

impl Default for PedersenGens {
    /// The canonical pair: the group's base point, and the base point's
    /// encoding hashed back into the group, so that nobody knows a discrete
    /// logarithm relating the two.
    fn default() -> (r: Self)
        ensures
            r.B@ == spec_basepoint_enc(),
            is_valid_point(r.B@),
            r.B_blinding@ == hash_to_point_of(spec_basepoint_enc()),
            is_valid_point(r.B_blinding@),
    {
        let b = ristretto_basepoint_point();
        let compressed = ristretto_basepoint_compressed();
        let bytes = compressed.to_bytes();
        PedersenGens { B: b, B_blinding: RistrettoPoint::hash_from_bytes(bytes.as_slice()) }
    }
}

/// The label of the chain deriving party `party`'s G generators: an ASCII
/// 'G' followed by the party index as 4 little-endian bytes.
pub open spec fn spec_g_label(party: nat) -> Seq<u8> {
    seq![71u8] + spec_u32_to_le_bytes(party as u32)
}

/// The label of the chain deriving party `party`'s H generators: an ASCII
/// 'H' followed by the party index as 4 little-endian bytes.
pub open spec fn spec_h_label(party: nat) -> Seq<u8> {
    seq![72u8] + spec_u32_to_le_bytes(party as u32)
}

/// The ghost state of a generator table: both capacities and the encodings
/// of every derived generator.
pub struct GensView {
    pub gens_capacity: nat,
    pub party_capacity: nat,
    pub g: Seq<Seq<Seq<u8>>>,
    pub h: Seq<Seq<Seq<u8>>>,
}

impl GensView {
    /// Well-formedness: both tables hold one row per party, each row holds
    /// exactly `gens_capacity` generators, and the generator at index `i`
    /// of party `p`'s row is exactly the `i`-th output of the chain
    /// labelled for that party and table.
    pub open spec fn wf(self) -> bool {
        &&& self.party_capacity <= u32::MAX
        &&& self.g.len() == self.party_capacity
        &&& self.h.len() == self.party_capacity
        &&& forall|p: int|
            0 <= p < self.party_capacity ==> (#[trigger] self.g[p]).len() == self.gens_capacity
        &&& forall|p: int|
            0 <= p < self.party_capacity ==> (#[trigger] self.h[p]).len() == self.gens_capacity
        &&& forall|p: int, i: int|
            0 <= p < self.party_capacity && 0 <= i < self.gens_capacity ==> ((
            #[trigger] self.g[p][i]) == spec_chain_output(spec_g_label(p as nat), i as nat)
                && is_valid_point(self.g[p][i]))
        &&& forall|p: int, i: int|
            0 <= p < self.party_capacity && 0 <= i < self.gens_capacity ==> ((
            #[trigger] self.h[p][i]) == spec_chain_output(spec_h_label(p as nat), i as nat)
                && is_valid_point(self.h[p][i]))
    }
}

/// The encodings of a table of point rows.
pub open spec fn table_views(t: Seq<Vec<RistrettoPoint>>) -> Seq<Seq<Seq<u8>>> {
    t.map_values(|row: Vec<RistrettoPoint>| point_views(row@))
}

/// Per-party generator vectors for the G and H families, grown on demand
/// and aggregated across parties.
#[allow(non_snake_case)]
pub struct BulletproofGens {
    /// The maximum number of usable generators for each party.
    pub gens_capacity: usize,
    /// Number of values or parties.
    pub party_capacity: usize,
    /// Derived G generators for each party.
    G_vec: Vec<Vec<RistrettoPoint>>,
    /// Derived H generators for each party.
    H_vec: Vec<Vec<RistrettoPoint>>,
}

impl View for BulletproofGens {
    type V = GensView;

    closed spec fn view(&self) -> GensView {
        GensView {
            gens_capacity: self.gens_capacity as nat,
            party_capacity: self.party_capacity as nat,
            g: table_views(self.G_vec@),
            h: table_views(self.H_vec@),
        }
    }
}

/// Copy a row of points.
fn clone_row(v: &Vec<RistrettoPoint>) -> (r: Vec<RistrettoPoint>)
    ensures
        r@ == v@,
{
    let mut out: Vec<RistrettoPoint> = Vec::new();
    let mut i: usize = 0;
    while i < v.len()
        invariant
            i <= v@.len(),
            out@ == v@.subrange(0, i as int),
        decreases v@.len() - i,
    {
        proof {
            assert(v@.subrange(0, i + 1) =~= v@.subrange(0, i as int).push(v@[i as int]));
        }
        out.push(v[i]);
        i += 1;
    }
    proof {
        assert(v@.subrange(0, v@.len() as int) =~= v@);
    }
    out
}

impl BulletproofGens {
    /// Create a table able to serve `gens_capacity` generators for each of
    /// `party_capacity` parties.
    pub fn new(gens_capacity: usize, party_capacity: usize) -> (r: Self)
        requires
            party_capacity <= u32::MAX,
        ensures
            r@.wf(),
            r@.gens_capacity == gens_capacity,
            r@.party_capacity == party_capacity,
    {
        let mut g: Vec<Vec<RistrettoPoint>> = Vec::new();
        let mut h: Vec<Vec<RistrettoPoint>> = Vec::new();
        let mut i: usize = 0;
        while i < party_capacity
            invariant
                i <= party_capacity,
                g@.len() == i,
                h@.len() == i,
                forall|p: int| 0 <= p < i ==> (#[trigger] g@[p])@.len() == 0,
                forall|p: int| 0 <= p < i ==> (#[trigger] h@[p])@.len() == 0,
            decreases party_capacity - i,
        {
            g.push(Vec::new());
            h.push(Vec::new());
            i += 1;
        }
        let mut gens = BulletproofGens {
            gens_capacity: 0,
            party_capacity,
            G_vec: g,
            H_vec: h,
        };
        proof {
            assert forall|p: int| 0 <= p < gens@.party_capacity implies (#[trigger] gens@.g[p]).len()
                == 0 && gens@.h[p].len() == 0 by {
                assert(gens@.g[p] == point_views(gens.G_vec@[p]@));
                assert(gens@.h[p] == point_views(gens.H_vec@[p]@));
            }
            assert(gens@.wf());
        }
        gens.increase_capacity(gens_capacity);
        gens
    }

    /// Increases the table's capacity to the amount specified.  If less
    /// than or equal to the current capacity, does nothing.  Existing
    /// generators are never altered: each party's chain is fast-forwarded
    /// past the generators already issued and only the new tail is
    /// appended.
    pub fn increase_capacity(&mut self, new_capacity: usize)
        requires
            old(self)@.wf(),
        ensures
            final(self)@.wf(),
            final(self)@.party_capacity == old(self)@.party_capacity,
            new_capacity <= old(self)@.gens_capacity ==> final(self)@ == old(self)@,
            new_capacity > old(self)@.gens_capacity ==> final(self)@.gens_capacity == new_capacity,
            forall|p: int, i: int|
                0 <= p < old(self)@.party_capacity && 0 <= i < old(self)@.gens_capacity ==> (
                #[trigger] final(self)@.g[p][i]) == old(self)@.g[p][i],
            forall|p: int, i: int|
                0 <= p < old(self)@.party_capacity && 0 <= i < old(self)@.gens_capacity ==> (
                #[trigger] final(self)@.h[p][i]) == old(self)@.h[p][i],
    {
        if self.gens_capacity >= new_capacity {
            return ;
        }
        let current = self.gens_capacity;
        let parties = self.party_capacity;
        let mut new_g: Vec<Vec<RistrettoPoint>> = Vec::new();
        let mut new_h: Vec<Vec<RistrettoPoint>> = Vec::new();
        let mut party: usize = 0;
        while party < parties
            invariant
                *self == *old(self),
                self@.wf(),
                current == self@.gens_capacity,
                parties == self@.party_capacity,
                current < new_capacity,
                party <= parties,
                new_g@.len() == party,
                new_h@.len() == party,
                forall|p: int, i: int|
                    0 <= p < party && 0 <= i < new_capacity ==> ((#[trigger] point_views(
                        new_g@[p]@,
                    )[i]) == spec_chain_output(spec_g_label(p as nat), i as nat) && is_valid_point(
                        point_views(new_g@[p]@)[i],
                    )),
                forall|p: int, i: int|
                    0 <= p < party && 0 <= i < new_capacity ==> ((#[trigger] point_views(
                        new_h@[p]@,
                    )[i]) == spec_chain_output(spec_h_label(p as nat), i as nat) && is_valid_point(
                        point_views(new_h@[p]@)[i],
                    )),
                forall|p: int| 0 <= p < party ==> (#[trigger] new_g@[p])@.len() == new_capacity,
                forall|p: int| 0 <= p < party ==> (#[trigger] new_h@[p])@.len() == new_capacity,
            decreases parties - party,
        {
            let mut label_g: Vec<u8> = Vec::new();
            label_g.push(71);
            let le = encode_usize_as_u32(party);
            append_bytes(&mut label_g, le.as_slice());
            proof {
                lemma_auto_spec_u32_to_from_le_bytes();
                assert(label_g@ =~= spec_g_label(party as nat));
            }
            let row_g = self.grow_row(true, party, label_g.as_slice(), current, new_capacity);
            new_g.push(row_g);

            let mut label_h: Vec<u8> = Vec::new();
            label_h.push(72);
            let le_h = encode_usize_as_u32(party);
            append_bytes(&mut label_h, le_h.as_slice());
            proof {
                lemma_auto_spec_u32_to_from_le_bytes();
                assert(label_h@ =~= spec_h_label(party as nat));
            }
            let row_h = self.grow_row(false, party, label_h.as_slice(), current, new_capacity);
            new_h.push(row_h);

            party += 1;
        }
        self.G_vec = new_g;
        self.H_vec = new_h;
        self.gens_capacity = new_capacity;
        proof {
            assert forall|p: int| 0 <= p < self@.party_capacity implies (#[trigger] self@.g[p]).len()
                == new_capacity && self@.h[p].len() == new_capacity by {
                assert(self@.g[p] == point_views(self.G_vec@[p]@));
                assert(self@.h[p] == point_views(self.H_vec@[p]@));
            }
            assert forall|p: int, i: int|
                0 <= p < self@.party_capacity && 0 <= i < self@.gens_capacity implies ((
            #[trigger] self@.g[p][i]) == spec_chain_output(spec_g_label(p as nat), i as nat)
                && is_valid_point(self@.g[p][i]) && self@.h[p][i] == spec_chain_output(
                spec_h_label(p as nat),
                i as nat,
            ) && is_valid_point(self@.h[p][i])) by {
                assert(self@.g[p] == point_views(self.G_vec@[p]@));
                assert(self@.h[p] == point_views(self.H_vec@[p]@));
            }
            assert(self@.wf());
            assert forall|p: int, i: int|
                0 <= p < old(self)@.party_capacity && 0 <= i < old(self)@.gens_capacity implies (
            #[trigger] self@.g[p][i]) == old(self)@.g[p][i] && self@.h[p][i] == old(
                self,
            )@.h[p][i] by {
                assert(self@.g[p][i] == spec_chain_output(spec_g_label(p as nat), i as nat));
                assert(old(self)@.g[p][i] == spec_chain_output(spec_g_label(p as nat), i as nat));
                assert(self@.h[p][i] == spec_chain_output(spec_h_label(p as nat), i as nat));
                assert(old(self)@.h[p][i] == spec_chain_output(spec_h_label(p as nat), i as nat));
            }
        }
    }

    /// Extend one party's row from `current` to `new_capacity` generators
    /// by fast-forwarding a fresh chain for `label` past the `current`
    /// outputs already issued.
    fn grow_row(
        &self,
        g_side: bool,
        party: usize,
        label: &[u8],
        current: usize,
        new_capacity: usize,
    ) -> (r: Vec<RistrettoPoint>)
        requires
            self@.wf(),
            current == self@.gens_capacity,
            current < new_capacity,
            party < self@.party_capacity,
            g_side ==> label@ == spec_g_label(party as nat),
            !g_side ==> label@ == spec_h_label(party as nat),
        ensures
            r@.len() == new_capacity,
            forall|i: int|
                0 <= i < new_capacity ==> ((#[trigger] r@[i])@ == spec_chain_output(
                    label@,
                    i as nat,
                ) && is_valid_point(r@[i]@)),
    {
        let row_src = if g_side {
            &self.G_vec[party]
        } else {
            &self.H_vec[party]
        };
        let mut row = clone_row(row_src);
        proof {
            assert(row@.len() == current) by {
                if g_side {
                    assert(self@.g[party as int] == point_views(self.G_vec@[party as int]@));
                } else {
                    assert(self@.h[party as int] == point_views(self.H_vec@[party as int]@));
                }
            }
            assert forall|i: int| 0 <= i < current implies ((#[trigger] row@[i])@
                == spec_chain_output(label@, i as nat) && is_valid_point(row@[i]@)) by {
                if g_side {
                    assert(self@.g[party as int] == point_views(self.G_vec@[party as int]@));
                    assert(self@.g[party as int][i] == row@[i]@);
                } else {
                    assert(self@.h[party as int] == point_views(self.H_vec@[party as int]@));
                    assert(self@.h[party as int][i] == row@[i]@);
                }
            }
        }
        let mut chain = GeneratorsChain::new(label).fast_forward(current);
        while row.len() < new_capacity
            invariant
                current <= row@.len() <= new_capacity,
                chain@.seed == spec_chain_seed(label@),
                chain@.pos == row@.len(),
                forall|i: int|
                    0 <= i < row@.len() ==> ((#[trigger] row@[i])@ == spec_chain_output(
                        label@,
                        i as nat,
                    ) && is_valid_point(row@[i]@)),
            decreases new_capacity - row@.len(),
        {
            let p = chain.next();
            row.push(p);
        }
        row
    }

    /// The aggregated G generators of the first `m` parties, `n` per
    /// party, in party-major order: all of party 0's first `n` generators,
    /// then party 1's, and so on.
    #[allow(non_snake_case)]
    pub fn G(&self, n: usize, m: usize) -> (r: Result<Vec<RistrettoPoint>, CryptoError>)
        requires
            self@.wf(),
        ensures
            r is Ok <==> (n <= self@.gens_capacity && m <= self@.party_capacity),
            r matches Err(e) ==> e == CryptoError::CapacityViolation,
            r matches Ok(v) ==> v@.len() == n * m,
            r matches Ok(v) ==> forall|p: int, i: int|
                0 <= p < m && 0 <= i < n ==> (#[trigger] v@[p * n + i])@ == self@.g[p][i],
    {
        if n > self.gens_capacity || m > self.party_capacity {
            return Err(CryptoError::CapacityViolation);
        }
        Ok(self.aggregate_rows(true, n, m))
    }

    /// The aggregated H generators of the first `m` parties, `n` per
    /// party, in party-major order.
    #[allow(non_snake_case)]
    pub fn H(&self, n: usize, m: usize) -> (r: Result<Vec<RistrettoPoint>, CryptoError>)
        requires
            self@.wf(),
        ensures
            r is Ok <==> (n <= self@.gens_capacity && m <= self@.party_capacity),
            r matches Err(e) ==> e == CryptoError::CapacityViolation,
            r matches Ok(v) ==> v@.len() == n * m,
            r matches Ok(v) ==> forall|p: int, i: int|
                0 <= p < m && 0 <= i < n ==> (#[trigger] v@[p * n + i])@ == self@.h[p][i],
    {
        if n > self.gens_capacity || m > self.party_capacity {
            return Err(CryptoError::CapacityViolation);
        }
        Ok(self.aggregate_rows(false, n, m))
    }

    /// In a party-major layout, the flat index of generator `j` of party
    /// `p` lies below the block of the first `party` parties.
    proof fn lemma_row_major_bound(p: int, j: int, party: int, n: int)
        requires
            0 <= p < party,
            0 <= j < n,
        ensures
            0 <= p * n + j,
            p * n + j < party * n,
    {
        assert(p * n + j < party * n) by (nonlinear_arith)
            requires
                0 <= p < party,
                0 <= j < n,
        ;
        assert(0 <= p * n + j) by (nonlinear_arith)
            requires
                0 <= p,
                0 <= j < n,
        ;
    }

    /// Walk the table in party-major order, flattening the first `n`
    /// generators of each of the first `m` parties.
    fn aggregate_rows(&self, g_side: bool, n: usize, m: usize) -> (r: Vec<RistrettoPoint>)
        requires
            self@.wf(),
            n <= self@.gens_capacity,
            m <= self@.party_capacity,
        ensures
            r@.len() == n * m,
            g_side ==> forall|p: int, i: int|
                0 <= p < m && 0 <= i < n ==> (#[trigger] r@[p * n + i])@ == self@.g[p][i],
            !g_side ==> forall|p: int, i: int|
                0 <= p < m && 0 <= i < n ==> (#[trigger] r@[p * n + i])@ == self@.h[p][i],
    {
        let mut out: Vec<RistrettoPoint> = Vec::new();
        let mut party: usize = 0;
        while party < m
            invariant
                party <= m,
                n <= self@.gens_capacity,
                m <= self@.party_capacity,
                self@.wf(),
                out@.len() == party * n,
                g_side ==> forall|p: int, i: int|
                    0 <= p < party && 0 <= i < n ==> (#[trigger] out@[p * n + i])@ == self@.g[p][i],
                !g_side ==> forall|p: int, i: int|
                    0 <= p < party && 0 <= i < n ==> (#[trigger] out@[p * n + i])@ == self@.h[p][i],
            decreases m - party,
        {
            let row = if g_side {
                &self.G_vec[party]
            } else {
                &self.H_vec[party]
            };
            proof {
                if g_side {
                    assert(self@.g[party as int] == point_views(self.G_vec@[party as int]@));
                } else {
                    assert(self@.h[party as int] == point_views(self.H_vec@[party as int]@));
                }
            }
            let mut i: usize = 0;
            while i < n
                invariant
                    i <= n,
                    party < m,
                    n <= self@.gens_capacity,
                    m <= self@.party_capacity,
                    self@.wf(),
                    g_side ==> row@ == self.G_vec@[party as int]@,
                    !g_side ==> row@ == self.H_vec@[party as int]@,
                    g_side ==> self@.g[party as int] == point_views(row@),
                    !g_side ==> self@.h[party as int] == point_views(row@),
                    row@.len() >= n,
                    out@.len() == party * n + i,
                    g_side ==> forall|p: int, j: int|
                        0 <= p < party && 0 <= j < n ==> (#[trigger] out@[p * n + j])@
                            == self@.g[p][j],
                    !g_side ==> forall|p: int, j: int|
                        0 <= p < party && 0 <= j < n ==> (#[trigger] out@[p * n + j])@
                            == self@.h[p][j],
                    g_side ==> forall|j: int|
                        0 <= j < i ==> (#[trigger] out@[party * n + j])@ == self@.g[party as int][j],
                    !g_side ==> forall|j: int|
                        0 <= j < i ==> (#[trigger] out@[party * n + j])@ == self@.h[party as int][j],
                decreases n - i,
            {
                out.push(row[i]);
                i += 1;
                proof {
                    if g_side {
                        assert forall|p: int, j: int| 0 <= p < party && 0 <= j < n implies (
                        #[trigger] out@[p * n + j])@ == self@.g[p][j] by {
                            Self::lemma_row_major_bound(p, j, party as int, n as int);
                        }
                    } else {
                        assert forall|p: int, j: int| 0 <= p < party && 0 <= j < n implies (
                        #[trigger] out@[p * n + j])@ == self@.h[p][j] by {
                            Self::lemma_row_major_bound(p, j, party as int, n as int);
                        }
                    }
                }
            }
            party += 1;
            proof {
                assert(out@.len() == (party - 1) * n + n);
                assert((party - 1) * n + n == party * n) by (nonlinear_arith);
                if g_side {
                    assert forall|p: int, j: int| 0 <= p < party && 0 <= j < n implies (
                    #[trigger] out@[p * n + j])@ == self@.g[p][j] by {
                        Self::lemma_row_major_bound(p, j, party as int, n as int);
                        if p == party - 1 {
                            assert(out@[(party - 1) * n + j]@ == self@.g[party - 1][j]);
                        }
                    }
                } else {
                    assert forall|p: int, j: int| 0 <= p < party && 0 <= j < n implies (
                    #[trigger] out@[p * n + j])@ == self@.h[p][j] by {
                        Self::lemma_row_major_bound(p, j, party as int, n as int);
                        if p == party - 1 {
                            assert(out@[(party - 1) * n + j]@ == self@.h[party - 1][j]);
                        }
                    }
                }
            }
        }
        out
    }
}

/// Once derived, generators are stable: two well-formed tables with equal
/// party counts agree on every generator up to the smaller capacity, so a
/// capacity increase is idempotent at or below the current capacity and
/// never alters a previously issued generator.
pub proof fn lemma_generators_stable(v1: GensView, v2: GensView, p: int, i: int)
    requires
        v1.wf(),
        v2.wf(),
        v1.party_capacity == v2.party_capacity,
        v1.gens_capacity <= v2.gens_capacity,
        0 <= p < v1.party_capacity,
        0 <= i < v1.gens_capacity,
    ensures
        v2.g[p][i] == v1.g[p][i],
        v2.h[p][i] == v1.h[p][i],
{
}

} // verus!
