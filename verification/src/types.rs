//! The plain values that proposals and vote extensions are made of.

use vstd::prelude::*;

verus! {

/// An account address, held in its printed form.
#[derive(Debug, PartialEq, Eq, PartialOrd, Ord, Hash)]
pub struct Address {
    /// The encoded address, as it is shown to users.
    pub encoded: String,
}

impl View for Address {
    type V = Seq<char>;

    open spec fn view(&self) -> Seq<char> {
        self.encoded@
    }
}

impl Clone for Address {
    fn clone(&self) -> (res: Self)
        ensures
            res == *self,
    {
        Address { encoded: self.encoded.clone() }
    }
}

impl Address {
    /// An address from its printed form.
    pub fn new(encoded: String) -> (res: Self)
        ensures
            res@ == encoded@,
    {
        Address { encoded }
    }

    /// The printed form of the address.
    pub fn to_string(&self) -> (res: String)
        ensures
            res@ == self@,
    {
        self.encoded.clone()
    }
}

/// An amount of tokens: an unsigned integer of 256 bits, held in two halves.
#[derive(Debug, Clone, Copy, PartialEq, Eq, PartialOrd, Ord, Hash)]
pub struct Amount {
    /// The upper half.
    pub high: u128,
    /// The lower half.
    pub low: u128,
}

impl View for Amount {
    type V = nat;

    open spec fn view(&self) -> nat {
        self.high as nat * 0x1_0000_0000_0000_0000_0000_0000_0000_0000 + self.low as nat
    }
}

/// A stretch of blocks with one set of validators.
#[derive(Debug, Clone, Copy, PartialEq, Eq, PartialOrd, Ord, Hash)]
pub struct Epoch(pub u64);

/// The height of a block.
#[derive(Debug, Clone, Copy, PartialEq, Eq, PartialOrd, Ord, Hash)]
pub struct BlockHeight(pub u64);

/// The hash of a piece of wasm code.
#[derive(Debug, Clone, Copy, PartialEq, Eq, PartialOrd, Ord, Hash)]
pub struct Hash(pub [u8; 32]);

/// An address stands for its printed form, letter for letter.
pub proof fn law_address_is_its_text(address: Address)
    ensures
        address@ == address.encoded@,
{
}

/// The upper half of an amount counts for 2^128 each, the lower half for one.
pub proof fn law_amount_is_its_halves(amount: Amount)
    ensures
        amount@ as int / 0x1_0000_0000_0000_0000_0000_0000_0000_0000int == amount.high,
        amount@ as int % 0x1_0000_0000_0000_0000_0000_0000_0000_0000int == amount.low,
{
}

} // verus!
