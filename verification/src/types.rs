//! Amounts of ICP and ledger transfer arguments.
use crate::principal::Principal;
use vstd::prelude::*;

verus! {

/// An amount of ICP, counted in e8s (10^-8 ICP).
#[derive(Debug, Clone, Copy, PartialEq, Eq, Structural, Hash, PartialOrd, Ord, Default)]
pub struct Tokens {
    pub e8s: u64,
}

impl Tokens {
    /// The amount of `e8s` units of 10^-8 ICP.
    pub fn from_e8s(e8s: u64) -> (t: Tokens)
        ensures
            t.e8s == e8s,
    {
        Tokens { e8s }
    }

    /// The amount in units of 10^-8 ICP.
    pub fn e8s(&self) -> (e: u64)
        ensures
            e == self.e8s,
    {
        self.e8s
    }

    /// The sum of two amounts; it must not exceed `u64::MAX` e8s.
    pub fn plus(self, other: Tokens) -> (t: Tokens)
        requires
            self.e8s + other.e8s <= u64::MAX,
        ensures
            t.e8s == self.e8s + other.e8s,
    {
        Tokens { e8s: self.e8s + other.e8s }
    }

    /// The difference of two amounts; `other` must not exceed `self`.
    pub fn minus(self, other: Tokens) -> (t: Tokens)
        requires
            other.e8s <= self.e8s,
        ensures
            t.e8s == self.e8s - other.e8s,
    {
        Tokens { e8s: self.e8s - other.e8s }
    }
}

/// The ledger's transfer fee.
pub open spec fn spec_default_fee_e8s() -> u64 {
    10_000
}

/// The transfer fee of the ICP ledger.
pub fn default_fee() -> (t: Tokens)
    ensures
        t.e8s == spec_default_fee_e8s(),
{
    Tokens::from_e8s(default_fee_e8s())
}

/// `ic_ledger_types::DEFAULT_FEE`, in e8s: the crate defines it as 10_000 e8s.
#[verifier::external_body]
fn default_fee_e8s() -> (e: u64)
    ensures
        e == 10_000,
{
    ic_ledger_types::DEFAULT_FEE.e8s()
}

/// A point in time in nanoseconds since the UNIX epoch.
#[derive(Debug, Clone, Copy, PartialEq, Eq, Structural)]
pub struct TimeStamp {
    pub timestamp_nanos: u64,
}

/// The arguments of a ledger transfer.
#[derive(Debug, Clone, PartialEq, Eq)]
pub struct TransferArgs {
    pub to: Vec<u8>,
    pub fee: Tokens,
    pub memo: u64,
    pub from_subaccount: Option<Vec<u8>>,
    pub created_at_time: Option<TimeStamp>,
    pub amount: Tokens,
}

/// The ledger subaccount that belongs to a principal: its length, its bytes, then zeros up
/// to 32 bytes.
pub open spec fn spec_subaccount(p: Seq<u8>) -> Seq<u8> {
    Seq::new(32, |i: int| if i == 0 { p.len() as u8 } else if i <= p.len() { p[i - 1] } else { 0u8 })
}

/// The 32-byte ledger subaccount derived from a principal, as `ic_ledger_types` derives it.
pub fn subaccount_of(p: &Principal) -> (s: Vec<u8>)
    ensures
        s@ == spec_subaccount(p@),
{
    let bytes = p.to_vec();
    let mut s: Vec<u8> = Vec::new();
    s.push(bytes.len() as u8);
    let mut i: usize = 0;
    while i < 31
        invariant
            bytes@ == p@,
            bytes@.len() <= 29,
            i <= 31,
            s@.len() == i + 1,
            s@[0] == bytes@.len() as u8,
            forall|j: int|
                1 <= j <= i ==> #[trigger] s@[j] == (if j <= bytes@.len() {
                    bytes@[j - 1]
                } else {
                    0u8
                }),
        decreases 31 - i,
    {
        if i < bytes.len() {
            s.push(bytes[i]);
        } else {
            s.push(0u8);
        }
        i = i + 1;
    }
    assert(s@ =~= spec_subaccount(p@));
    s
}

} // verus!
