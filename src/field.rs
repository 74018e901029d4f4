//! Elements of the BN254 scalar field, held as canonical little-endian bytes.
//! The arithmetic itself is done by `halo2curves::bn256::Fr`.
use vstd::prelude::*;
use halo2curves::bn256::Fr;

verus! {

/// The natural number that little-endian bytes `s` encode.
pub open spec fn le_nat(s: Seq<u8>) -> nat
    decreases s.len(),
{
    if s.len() == 0 {
        0
    } else {
        s[0] as nat + 256 * le_nat(s.drop_first())
    }
}

/// The order of the BN254 scalar field.
pub open spec fn modulus() -> nat {
    let w: nat = 0x1_0000_0000 * 0x1_0000_0000;
    0x43e1f593f0000001 + w * (0x2833e84879b97091 + w * (0xb85045b68181585d + w
        * 0x30644e72e131a029))
}

/// A field element: 32 little-endian bytes of an integer below the modulus.
#[derive(Clone, Copy, Debug, PartialEq, Eq)]
pub struct Fe {
    pub bytes: [u8; 32],
}

impl Fe {
    /// The integer that the element stands for.
    pub open spec fn val(self) -> nat {
        le_nat(self.bytes@)
    }

    /// The bytes are the canonical encoding of a residue.
    pub open spec fn wf(self) -> bool {
        self.val() < modulus()
    }

    pub fn zero() -> (r: Fe)
        ensures
            r.wf(),
            r.val() == 0,
    {
        let r = Fe { bytes: [0u8; 32] };
        proof {
            lemma_le_nat_zeros(r.bytes@);
        }
        r
    }

    pub fn one() -> (r: Fe)
        ensures
            r.wf(),
            r.val() == 1,
    {
        assert(1 < modulus());
        fr_from_u64(1)
    }

    pub fn from_u64(x: u64) -> (r: Fe)
        ensures
            r.wf(),
            r.val() == x,
    {
        let r = fr_from_u64(x);
        proof {
            lemma_modulus_above_u64();
        }
        r
    }

    /// Reads a canonical encoding; `None` where the bytes encode an integer
    /// that is not below the modulus.
    pub fn from_bytes(bytes: [u8; 32]) -> (r: Option<Fe>)
        ensures
            r is Some <==> le_nat(bytes@) < modulus(),
            r is Some ==> r->0.bytes == bytes,
    {
        fr_from_bytes(bytes)
    }

    pub fn to_bytes(&self) -> (r: [u8; 32])
        ensures
            r == self.bytes,
    {
        self.bytes
    }

    pub fn is_zero(&self) -> (r: bool)
        ensures
            r == (self.val() == 0),
    {
        proof {
            lemma_le_nat_zero_iff(self.bytes@);
        }
        let mut i: usize = 0;
        while i < 32
            invariant
                0 <= i <= 32,
                forall|j: int| 0 <= j < i ==> self.bytes@[j] == 0,
            decreases 32 - i,
        {
            if self.bytes[i] != 0 {
                proof {
                    let k = i as int;
                    assert(self.bytes@[k] != 0);
                    assert(!(forall|j: int| 0 <= j < self.bytes@.len() ==> self.bytes@[j] == 0));
                    lemma_le_nat_zero_iff(self.bytes@);
                    assert(le_nat(self.bytes@) != 0);
                }
                return false;
            }
            i = i + 1;
        }
        true
    }

    /// Bit-for-bit equality of two elements.
    pub fn equals(&self, o: &Fe) -> (r: bool)
        ensures
            r == (self.bytes@ == o.bytes@),
    {
        let mut i: usize = 0;
        while i < 32
            invariant
                0 <= i <= 32,
                forall|j: int| 0 <= j < i ==> self.bytes@[j] == o.bytes@[j],
            decreases 32 - i,
        {
            if self.bytes[i] != o.bytes[i] {
                return false;
            }
            i = i + 1;
        }
        assert(self.bytes@ =~= o.bytes@);
        true
    }

    pub fn add(&self, o: &Fe) -> (r: Fe)
        requires
            self.wf(),
            o.wf(),
        ensures
            r.wf(),
            r.val() == (self.val() + o.val()) % modulus(),
    {
        fr_add(self, o)
    }

    pub fn sub(&self, o: &Fe) -> (r: Fe)
        requires
            self.wf(),
            o.wf(),
        ensures
            r.wf(),
            r.val() == (self.val() - o.val()) % (modulus() as int),
    {
        fr_sub(self, o)
    }

    pub fn mul(&self, o: &Fe) -> (r: Fe)
        requires
            self.wf(),
            o.wf(),
        ensures
            r.wf(),
            r.val() == (self.val() * o.val()) % modulus(),
    {
        fr_mul(self, o)
    }

    pub fn neg(&self) -> (r: Fe)
        requires
            self.wf(),
        ensures
            r.wf(),
            r.val() == (0 - self.val()) % (modulus() as int),
    {
        fr_neg(self)
    }
}

/// The element, among the canonical ones, that stands for `v`.
pub open spec fn fe_of(v: nat) -> Fe {
    choose|f: Fe| f.wf() && f.val() == v
}

/// Equal-length byte strings that encode the same integer are equal.
pub proof fn lemma_le_nat_injective(s: Seq<u8>, t: Seq<u8>)
    requires
        s.len() == t.len(),
        le_nat(s) == le_nat(t),
    ensures
        s =~= t,
    decreases s.len(),
{
    if s.len() > 0 {
        let (a, b) = (le_nat(s.drop_first()), le_nat(t.drop_first()));
        vstd::arithmetic::div_mod::lemma_fundamental_div_mod_converse(
            le_nat(s) as int, 256, a as int, s[0] as int);
        vstd::arithmetic::div_mod::lemma_fundamental_div_mod_converse(
            le_nat(t) as int, 256, b as int, t[0] as int);
        lemma_le_nat_injective(s.drop_first(), t.drop_first());
        assert forall|i: int| 0 <= i < s.len() implies s[i] == t[i] by {
            if i > 0 {
                assert(s[i] == s.drop_first()[i - 1]);
                assert(t[i] == t.drop_first()[i - 1]);
            }
        }
    }
}

/// A canonical element is determined by the integer it stands for.
pub proof fn lemma_fe_of(f: Fe)
    requires
        f.wf(),
    ensures
        fe_of(f.val()) == f,
{
    let g = fe_of(f.val());
    lemma_le_nat_injective(g.bytes@, f.bytes@);
    assert(g.bytes =~= f.bytes);
}

proof fn lemma_modulus_above_u64()
    ensures
        0xffff_ffff_ffff_ffff < modulus(),
{
    let w: nat = 0x1_0000_0000 * 0x1_0000_0000;
    let hi: nat = 0x2833e84879b97091 + w * (0xb85045b68181585d + w * 0x30644e72e131a029);
    assert(w * hi >= w) by (nonlinear_arith)
        requires
            hi >= 1,
    ;
}

/// Every byte of `s` is zero exactly when the integer it encodes is zero.
pub proof fn lemma_le_nat_zero_iff(s: Seq<u8>)
    ensures
        (le_nat(s) == 0) == (forall|i: int| 0 <= i < s.len() ==> s[i] == 0),
    decreases s.len(),
{
    if s.len() > 0 {
        lemma_le_nat_zero_iff(s.drop_first());
        if le_nat(s) == 0 {
            assert forall|i: int| 0 <= i < s.len() implies s[i] == 0 by {
                if i > 0 {
                    assert(s[i] == s.drop_first()[i - 1]);
                }
            }
        } else if forall|i: int| 0 <= i < s.len() ==> s[i] == 0 {
            assert forall|i: int| 0 <= i < s.drop_first().len() implies s.drop_first()[i] == 0 by {
                assert(s.drop_first()[i] == s[i + 1]);
            }
        }
    }
}

proof fn lemma_le_nat_zeros(s: Seq<u8>)
    requires
        forall|i: int| 0 <= i < s.len() ==> s[i] == 0,
    ensures
        le_nat(s) == 0,
    decreases s.len(),
{
    if s.len() > 0 {
        lemma_le_nat_zeros(s.drop_first());
    }
}

/// Relies on `Fr::add`: the sum of two residues modulo the field order,
/// with `Fr::from_bytes` and `Fr::to_bytes` converting canonical encodings.
#[verifier::external_body]
fn fr_add(a: &Fe, b: &Fe) -> (r: Fe)
    requires
        a.wf(),
        b.wf(),
    ensures
        r.val() == (a.val() + b.val()) % modulus(),
{
    let x = Fr::from_bytes(&a.bytes).unwrap();
    let y = Fr::from_bytes(&b.bytes).unwrap();
    Fe { bytes: x.add(&y).to_bytes() }
}

/// Relies on `Fr::sub`: the difference of two residues modulo the field order.
#[verifier::external_body]
fn fr_sub(a: &Fe, b: &Fe) -> (r: Fe)
    requires
        a.wf(),
        b.wf(),
    ensures
        r.val() == (a.val() - b.val()) % (modulus() as int),
{
    let x = Fr::from_bytes(&a.bytes).unwrap();
    let y = Fr::from_bytes(&b.bytes).unwrap();
    Fe { bytes: x.sub(&y).to_bytes() }
}

/// Relies on `Fr::mul`: the product of two residues modulo the field order.
#[verifier::external_body]
fn fr_mul(a: &Fe, b: &Fe) -> (r: Fe)
    requires
        a.wf(),
        b.wf(),
    ensures
        r.val() == (a.val() * b.val()) % modulus(),
{
    let x = Fr::from_bytes(&a.bytes).unwrap();
    let y = Fr::from_bytes(&b.bytes).unwrap();
    Fe { bytes: x.mul(&y).to_bytes() }
}

/// Relies on `Fr::neg`: the additive inverse modulo the field order.
#[verifier::external_body]
fn fr_neg(a: &Fe) -> (r: Fe)
    requires
        a.wf(),
    ensures
        r.val() == (0 - a.val()) % (modulus() as int),
{
    let x = Fr::from_bytes(&a.bytes).unwrap();
    Fe { bytes: x.neg().to_bytes() }
}

/// Relies on `From<u64> for Fr`: the residue of a small integer, which is
/// the integer itself since every `u64` is below the field order.
#[verifier::external_body]
fn fr_from_u64(x: u64) -> (r: Fe)
    ensures
        r.val() == x,
{
    Fe { bytes: Fr::from(x).to_bytes() }
}

/// Relies on `Fr::from_bytes`, which accepts exactly the little-endian
/// encodings of integers below the field order.
#[verifier::external_body]
fn fr_from_bytes(bytes: [u8; 32]) -> (r: Option<Fe>)
    ensures
        r is Some <==> le_nat(bytes@) < modulus(),
        r is Some ==> r->0.bytes == bytes,
{
    if bool::from(Fr::from_bytes(&bytes).is_some()) {
        Some(Fe { bytes })
    } else {
        None
    }
}

} // verus!
