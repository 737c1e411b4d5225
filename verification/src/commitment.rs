//! Hash commitments over a random residue, used by several parties to pick
//! an unbiased index jointly: each party publishes the digest of its residue
//! first, reveals the residue afterwards, and the residues of a validated
//! corpus are summed modulo the common range.

use vstd::prelude::*;
use byteorder::{NetworkEndian, WriteBytesExt};
use sha2::{Digest, Sha256};
use crate::CommitmentError;

verus! {

/// The SHA-256 digest of a byte sequence, determined by the bytes alone.
pub uninterp spec fn sha256_of(bytes: Seq<u8>) -> Seq<u8>;

/// The eight bytes of `p` in network (big-endian) order.
pub open spec fn be_bytes_of(p: u64) -> Seq<u8> {
    seq![
        ((p >> 56) & 0xff) as u8,
        ((p >> 48) & 0xff) as u8,
        ((p >> 40) & 0xff) as u8,
        ((p >> 32) & 0xff) as u8,
        ((p >> 24) & 0xff) as u8,
        ((p >> 16) & 0xff) as u8,
        ((p >> 8) & 0xff) as u8,
        (p & 0xff) as u8,
    ]
}

/// Relies on byteorder's `WriteBytesExt::write_u64` with `NetworkEndian`:
/// it appends the big-endian bytes of `p`, and writing into a `Vec` cannot
/// fail.
#[verifier::external_body]
fn u64_to_network_bytes(p: u64) -> (r: Vec<u8>)
    ensures
        r@ == be_bytes_of(p),
{
    let mut buf = Vec::with_capacity(std::mem::size_of::<u64>());
    buf.write_u64::<NetworkEndian>(p).unwrap();
    buf
}

/// Relies on sha2's `Sha256::digest`: a 32-byte digest that is a function of
/// the input bytes alone.
#[verifier::external_body]
fn sha256_digest(bytes: &Vec<u8>) -> (r: Vec<u8>)
    ensures
        r@ == sha256_of(bytes@),
        r@.len() == 32,
{
    Sha256::digest(bytes.as_slice()).to_vec()
}

/// Relies on rand's `Uniform::new_inclusive` and `Distribution::sample`: a
/// draw from `[0, hi]` taken from the thread's generator.  Nothing beyond
/// the range can be promised of a random value.
#[verifier::external_body]
fn draw_uniform_inclusive(hi: u64) -> (r: u64)
    ensures
        r <= hi,
{
    let between = rand::distributions::Uniform::new_inclusive(0u64, hi);
    rand::distributions::Distribution::sample(&between, &mut rand::thread_rng())
}

/// Byte-for-byte comparison of two vectors.
fn bytes_eq(a: &Vec<u8>, b: &Vec<u8>) -> (r: bool)
    ensures
        r <==> a@ == b@,
{
    if a.len() != b.len() {
        proof {
            assert(a@ != b@) by {
                if a@ == b@ {
                    assert(a@.len() == b@.len());
                }
            }
        }
        return false;
    }
    let mut i: usize = 0;
    while i < a.len()
        invariant
            i <= a@.len(),
            a@.len() == b@.len(),
            forall|j: int| 0 <= j < i ==> a@[j] == b@[j],
        decreases a@.len() - i,
    {
        if a[i] != b[i] {
            return false;
        }
        i = i + 1;
    }
    proof {
        assert(a@ =~= b@);
    }
    true
}

/// A party's secret residue `p`, drawn uniformly over a range chosen so that
/// `p % n` is unbiased.
pub struct Commitment {
    pub n: u64,
    pub p: u64,
}

impl Commitment {
    /// Draws a fresh residue for a corpus of range `n`.  The upper bound
    /// `n * (u64::MAX / n)` is the largest multiple of `n` that fits, so the
    /// residue class of `p` modulo `n` is uniform.
    pub fn new(n: u64) -> (c: Commitment)
        requires
            1 <= n,
        ensures
            c.n == n,
            c.p as int <= n as int * (u64::MAX as int / n as int),
    {
        proof {
            vstd::arithmetic::div_mod::lemma_fundamental_div_mod(u64::MAX as int, n as int);
            vstd::arithmetic::div_mod::lemma_mod_bound(u64::MAX as int, n as int);
        }
        let factor = u64::MAX / n;
        let hi = n * factor;
        let p = draw_uniform_inclusive(hi);
        Commitment { n, p }
    }

    fn new_with_p(n: u64, p: u64) -> (c: Commitment)
        ensures
            c.n == n,
            c.p == p,
    {
        Commitment { n, p }
    }

    /// Closes the commitment: publishes the range and the digest of the
    /// residue's big-endian bytes, but not the residue itself.
    pub fn commit(&self) -> (c: ClosedCommitment)
        ensures
            c.n == self.n,
            c.hash@ == sha256_of(be_bytes_of(self.p)),
            c.hash@.len() == 32,
    {
        let buf = u64_to_network_bytes(self.p);
        let hash = sha256_digest(&buf);
        ClosedCommitment::new(self.n, hash)
    }

    /// Reveals the residue.
    pub fn publish(&self) -> (p: u64)
        ensures
            p == self.p,
    {
        self.p
    }
}

/// A published digest, awaiting the reveal of its residue.
pub struct ClosedCommitment {
    pub n: u64,
    pub hash: Vec<u8>,
}

impl ClosedCommitment {
    pub fn new(n: u64, hash: Vec<u8>) -> (c: ClosedCommitment)
        ensures
            c.n == n,
            c.hash@ == hash@,
    {
        ClosedCommitment { n, hash }
    }

    /// Checks a revealed residue against the committed digest: it is
    /// accepted exactly when its bytes hash to the digest committed to.
    pub fn validate(&self, p: u64) -> (r: Result<OpenedCommitment, CommitmentError>)
        ensures
            match r {
                Ok(oc) => sha256_of(be_bytes_of(p)) == self.hash@ && oc.n == self.n && oc.p == p,
                Err(err) => sha256_of(be_bytes_of(p)) != self.hash@
                    && err == CommitmentError::HashMismatch,
            },
    {
        let commitment = Commitment::new_with_p(self.n, p);
        let closed = commitment.commit();
        if bytes_eq(&closed.hash, &self.hash) {
            Ok(OpenedCommitment::new(self.n, p))
        } else {
            Err(CommitmentError::HashMismatch)
        }
    }
}

/// A validated reveal: range and residue of one party.
pub struct OpenedCommitment {
    pub n: u64,
    pub p: u64,
}

/// All commitments of the corpus were made over the same range.
pub open spec fn uniform_range(s: Seq<OpenedCommitment>) -> bool {
    forall|i: int| 0 <= i < s.len() ==> (#[trigger] s[i]).n == s[0].n
}

/// Sum of the residues of a corpus.
pub open spec fn sum_p(s: Seq<OpenedCommitment>) -> int
    decreases s.len(),
{
    if s.len() == 0 {
        0
    } else {
        sum_p(s.drop_last()) + s.last().p
    }
}

impl OpenedCommitment {
    fn new(n: u64, p: u64) -> (c: OpenedCommitment)
        ensures
            c.n == n,
            c.p == p,
    {
        OpenedCommitment { n, p }
    }

    /// Combines a corpus of validated reveals into the jointly chosen index:
    /// the sum of all residues modulo the common range.  An empty corpus and
    /// a corpus whose ranges disagree are rejected.
    pub fn gather(opened_commitments: &[OpenedCommitment]) -> (r: Result<u64, CommitmentError>)
        requires
            ({
                let s = opened_commitments@;
                (s.len() >= 1 && uniform_range(s)) ==> s[0].n >= 1
            }),
        ensures
            ({
                let s = opened_commitments@;
                &&& s.len() == 0 ==> r == Err::<u64, CommitmentError>(CommitmentError::EmptyCorpus)
                &&& (s.len() >= 1 && !uniform_range(s))
                    ==> r == Err::<u64, CommitmentError>(CommitmentError::CorpusSizeMismatch)
                &&& (s.len() >= 1 && uniform_range(s))
                    ==> r == Ok::<u64, CommitmentError>(
                        (sum_p(s) % (s[0].n as int)) as u64,
                    )
                &&& match r {
                    Ok(index) => s.len() >= 1 && index < s[0].n,
                    Err(_) => true,
                }
            }),
    {
        let ghost s = opened_commitments@;
        if opened_commitments.len() == 0 {
            return Err(CommitmentError::EmptyCorpus);
        }
        let n = opened_commitments[0].n;
        let mut sum: u128 = 0;
        let mut i: usize = 0;
        while i < opened_commitments.len()
            invariant
                s == opened_commitments@,
                i <= s.len(),
                1 <= s.len(),
                n == s[0].n,
                forall|j: int| 0 <= j < i ==> (#[trigger] s[j]).n == n,
                sum == sum_p(s.take(i as int)),
                sum <= i as int * (u64::MAX as int),
            decreases s.len() - i,
        {
            if opened_commitments[i].n != n {
                return Err(CommitmentError::CorpusSizeMismatch);
            }
            proof {
                assert(s.take(i as int + 1).drop_last() =~= s.take(i as int));
                assert((i as int + 1) * (u64::MAX as int)
                    == i as int * (u64::MAX as int) + u64::MAX as int) by (nonlinear_arith);
                assert(i as int * (u64::MAX as int) + u64::MAX as int <= u128::MAX as int)
                    by (nonlinear_arith)
                    requires
                        0 <= i as int <= 0xffff_ffff_ffff_ffff,
                ;
            }
            sum = sum + opened_commitments[i].p as u128;
            i = i + 1;
        }
        proof {
            assert(s.take(s.len() as int) =~= s);
            vstd::arithmetic::div_mod::lemma_mod_bound(sum as int, n as int);
        }
        Ok((sum % (n as u128)) as u64)
    }
}

} // verus!
