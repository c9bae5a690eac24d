//! The binding hash that hides a bet's outcome until it is revealed.
use vstd::prelude::*;

verus! {

/// The SHA-256 digest of a byte string.
pub uninterp spec fn sha256_of(data: Seq<u8>) -> Seq<u8>;

/// Relies on `sha2::Sha256` through `digest::Digest::digest`: the SHA-256
/// digest of `data`, which depends on the bytes alone.
#[verifier::external_body]
fn sha256(data: &Vec<u8>) -> (r: [u8; 32])
    ensures
        r@ == sha256_of(data@),
{
    <sha2::Sha256 as sha2::Digest>::digest(data.as_slice()).into()
}

/// `256^n`.
pub open spec fn pow256(n: nat) -> nat
    decreases n,
{
    if n == 0 {
        1
    } else {
        256 * pow256((n - 1) as nat)
    }
}

/// The `n` low bytes of `v`, least significant first.
pub open spec fn le_bytes(v: nat, n: nat) -> Seq<u8>
    decreases n,
{
    if n == 0 {
        Seq::empty()
    } else {
        seq![(v % 256) as u8] + le_bytes(v / 256, (n - 1) as nat)
    }
}

/// The bytes that are hashed: the stake as 8 little-endian bytes, the
/// outcome byte, then the salt.
pub open spec fn commitment_preimage(amount: u64, outcome: u8, salt: Seq<u8>) -> Seq<u8> {
    le_bytes(amount as nat, 8) + seq![outcome] + salt
}

/// The commitment that binds `amount`, `outcome` and `salt`.
pub open spec fn commitment_of(amount: u64, outcome: u8, salt: Seq<u8>) -> Seq<u8> {
    sha256_of(commitment_preimage(amount, outcome, salt))
}

/// Whether `hash` opens to `amount`, `outcome` and `salt`.
pub open spec fn opens_to(hash: Seq<u8>, amount: u64, outcome: u8, salt: Seq<u8>) -> bool {
    hash == commitment_of(amount, outcome, salt)
}

/// The 8 little-endian bytes of `amount`.
fn amount_le_bytes(amount: u64) -> (r: Vec<u8>)
    ensures
        r@ == le_bytes(amount as nat, 8),
{
    let mut out: Vec<u8> = Vec::new();
    let mut v: u64 = amount;
    let mut i: usize = 0;
    while i < 8
        invariant
            i <= 8,
            out@ + le_bytes(v as nat, (8 - i) as nat) == le_bytes(amount as nat, 8),
        decreases 8 - i,
    {
        let ghost rest = le_bytes((v / 256) as nat, (8 - i - 1) as nat);
        let ghost before = out@;
        assert(le_bytes(v as nat, (8 - i) as nat) == seq![(v % 256) as u8] + rest);
        out.push((v % 256) as u8);
        v = v / 256;
        i = i + 1;
        assert(before + (seq![(out@.last())] + rest) =~= out@ + rest);
    }
    assert(out@ + le_bytes(v as nat, 0) =~= out@);
    out
}

/// Builds the bytes that a commitment hashes.
fn commitment_bytes(amount: u64, outcome: u8, salt: &[u8; 32]) -> (r: Vec<u8>)
    ensures
        r@ == commitment_preimage(amount, outcome, salt@),
{
    let mut out = amount_le_bytes(amount);
    out.push(outcome);
    let ghost head = out@;
    let mut i: usize = 0;
    while i < 32
        invariant
            i <= 32,
            head == le_bytes(amount as nat, 8) + seq![outcome],
            out@ == head + salt@.subrange(0, i as int),
        decreases 32 - i,
    {
        out.push(salt[i]);
        i = i + 1;
        assert(out@ =~= head + salt@.subrange(0, i as int));
    }
    assert(salt@.subrange(0, 32) =~= salt@);
    out
}

/// The commitment hash of a bet: SHA-256 over the stake's 8 little-endian
/// bytes, the outcome byte and the 32-byte salt.
pub fn compute_commitment_hash(amount: u64, outcome: u8, salt: &[u8; 32]) -> (r: [u8; 32])
    ensures
        r@ == commitment_of(amount, outcome, salt@),
{
    let bytes = commitment_bytes(amount, outcome, salt);
    sha256(&bytes)
}

/// Whether two 32-byte values are equal.
pub fn bytes32_eq(a: &[u8; 32], b: &[u8; 32]) -> (r: bool)
    ensures
        r == (a@ == b@),
{
    let mut i: usize = 0;
    while i < 32
        invariant
            i <= 32,
            forall|j: int| 0 <= j < i ==> a@[j] == b@[j],
        decreases 32 - i,
    {
        if a[i] != b[i] {
            return false;
        }
        i = i + 1;
    }
    assert(a@ =~= b@);
    true
}

/// Whether `hash` opens to `amount`, `outcome` and `salt`: the hash is
/// recomputed and compared.
pub fn verify_commitment(hash: &[u8; 32], amount: u64, outcome: u8, salt: &[u8; 32]) -> (r: bool)
    ensures
        r == opens_to(hash@, amount, outcome, salt@),
{
    let computed = compute_commitment_hash(amount, outcome, salt);
    bytes32_eq(hash, &computed)
}

/// A commitment always opens to the values it was computed from.
pub proof fn lemma_commitment_opens(amount: u64, outcome: u8, salt: Seq<u8>)
    ensures
        opens_to(commitment_of(amount, outcome, salt), amount, outcome, salt),
{
}

/// The low bytes of two values below `256^n` agree only when the values do.
pub proof fn lemma_le_bytes_injective(a: nat, b: nat, n: nat)
    requires
        a < pow256(n),
        b < pow256(n),
        le_bytes(a, n) == le_bytes(b, n),
    ensures
        a == b,
    decreases n,
{
    if n > 0 {
        let m = (n - 1) as nat;
        let p = pow256(m);
        assert(le_bytes(a, n)[0] == (a % 256) as u8);
        assert(le_bytes(b, n)[0] == (b % 256) as u8);
        assert(le_bytes(a / 256, m) =~= le_bytes(a, n).subrange(1, le_bytes(a, n).len() as int));
        assert(le_bytes(b / 256, m) =~= le_bytes(b, n).subrange(1, le_bytes(b, n).len() as int));
        vstd::arithmetic::div_mod::lemma_fundamental_div_mod(a as int, 256);
        vstd::arithmetic::div_mod::lemma_fundamental_div_mod(b as int, 256);
        let qa = a / 256;
        let qb = b / 256;
        assert(qa < p) by (nonlinear_arith)
            requires
                a == 256 * qa + a % 256,
                a % 256 >= 0,
                a < 256 * p,
        ;
        assert(qb < p) by (nonlinear_arith)
            requires
                b == 256 * qb + b % 256,
                b % 256 >= 0,
                b < 256 * p,
        ;
        lemma_le_bytes_injective(qa, qb, m);
    }
}

/// Distinct (stake, outcome, salt) triples with 32-byte salts hash distinct
/// byte strings, so a commitment can only be opened to another triple through
/// a SHA-256 collision.
pub proof fn lemma_preimage_injective(
    amount1: u64,
    outcome1: u8,
    salt1: Seq<u8>,
    amount2: u64,
    outcome2: u8,
    salt2: Seq<u8>,
)
    requires
        salt1.len() == 32,
        salt2.len() == 32,
        commitment_preimage(amount1, outcome1, salt1) == commitment_preimage(
            amount2,
            outcome2,
            salt2,
        ),
    ensures
        amount1 == amount2,
        outcome1 == outcome2,
        salt1 == salt2,
{
    let p1 = commitment_preimage(amount1, outcome1, salt1);
    let p2 = commitment_preimage(amount2, outcome2, salt2);
    lemma_le_bytes_len(amount1 as nat, 8);
    lemma_le_bytes_len(amount2 as nat, 8);
    assert(le_bytes(amount1 as nat, 8) =~= p1.subrange(0, 8));
    assert(le_bytes(amount2 as nat, 8) =~= p2.subrange(0, 8));
    assert(p1[8] == outcome1);
    assert(p2[8] == outcome2);
    assert(salt1 =~= p1.subrange(9, 41));
    assert(salt2 =~= p2.subrange(9, 41));
    reveal_with_fuel(pow256, 9);
    assert(pow256(8) == 0x1_0000_0000_0000_0000nat);
    lemma_le_bytes_injective(amount1 as nat, amount2 as nat, 8);
}

/// `le_bytes(v, n)` has `n` bytes.
proof fn lemma_le_bytes_len(v: nat, n: nat)
    ensures
        le_bytes(v, n).len() == n,
    decreases n,
{
    if n > 0 {
        lemma_le_bytes_len(v / 256, (n - 1) as nat);
    }
}

} // verus!
