//! Balances of an account and the signed difference between two amounts.

use vstd::prelude::*;
use crate::decimal::{decimal, push_decimal};

verus! {

/// The tokens of an account: what it can spend and what it has staked.
/// An account that does not exist holds nothing of either.
#[derive(Clone, Copy, Debug, PartialEq, Eq, Structural)]
pub struct BalanceDetails {
    pub non_staked: u128,
    pub staked: u128,
}

impl BalanceDetails {
    /// The balance of an account that does not exist.
    pub open spec fn spec_zero() -> BalanceDetails {
        BalanceDetails { non_staked: 0, staked: 0 }
    }

    #[verifier::when_used_as_spec(spec_zero)]
    pub fn zero() -> (balance: BalanceDetails)
        ensures
            balance == Self::spec_zero(),
    {
        BalanceDetails { non_staked: 0, staked: 0 }
    }
}

impl Default for BalanceDetails {
    fn default() -> (balance: BalanceDetails)
        ensures
            balance == BalanceDetails::spec_zero(),
    {
        BalanceDetails { non_staked: 0, staked: 0 }
    }
}

/// An account together with a balance of it.
#[derive(Clone, Debug, PartialEq, Eq)]
pub struct AccountWithBalance {
    pub account_id: String,
    pub balance: BalanceDetails,
}

/// What an [`AccountWithBalance`] stands for.
pub struct AccountWithBalanceView {
    pub account_id: Seq<char>,
    pub balance: BalanceDetails,
}

impl View for AccountWithBalance {
    type V = AccountWithBalanceView;

    open spec fn view(&self) -> AccountWithBalanceView {
        AccountWithBalanceView { account_id: self.account_id@, balance: self.balance }
    }
}

impl DeepView for AccountWithBalance {
    type V = AccountWithBalanceView;

    open spec fn deep_view(&self) -> AccountWithBalanceView {
        self@
    }
}

/// The difference between two amounts of tokens. Amounts take the whole of
/// `u128`, so a difference needs one bit more than `i128` has: it is kept as
/// a sign and a magnitude, and zero is never negative.
#[derive(Clone, Copy, Debug, PartialEq, Eq)]
pub struct SignedAmount {
    negative: bool,
    magnitude: u128,
}

impl View for SignedAmount {
    type V = int;

    closed spec fn view(&self) -> int {
        if self.negative {
            -(self.magnitude as int)
        } else {
            self.magnitude as int
        }
    }
}

/// The decimal notation of an integer: a minus sign before the digits of a
/// negative one.
pub open spec fn signed_decimal(value: int) -> Seq<char> {
    if value < 0 {
        seq!['-'] + decimal((-value) as nat)
    } else {
        decimal(value as nat)
    }
}

impl SignedAmount {
    #[verifier::type_invariant]
    spec fn canonical(self) -> bool {
        self.negative ==> self.magnitude > 0
    }

    /// No difference at all.
    pub fn zero() -> (amount: SignedAmount)
        ensures
            amount@ == 0,
    {
        SignedAmount { negative: false, magnitude: 0 }
    }

    /// What has to be added to `previous` to reach `current`.
    pub fn difference(current: u128, previous: u128) -> (amount: SignedAmount)
        ensures
            amount@ == current - previous,
    {
        if current >= previous {
            SignedAmount { negative: false, magnitude: current - previous }
        } else {
            SignedAmount { negative: true, magnitude: previous - current }
        }
    }

    /// Whether the amount is below zero.
    pub fn is_negative(&self) -> (negative: bool)
        ensures
            negative == (self@ < 0),
    {
        proof {
            use_type_invariant(self);
        }
        self.negative
    }

    /// The distance of the amount from zero.
    pub fn magnitude(&self) -> (magnitude: u128)
        ensures
            magnitude == if self@ < 0 {
                -self@
            } else {
                self@
            },
    {
        self.magnitude
    }

    /// The amount as an `i128`, where it fits in one.
    pub fn to_i128(&self) -> (value: Option<i128>)
        ensures
            value == if i128::MIN <= self@ <= i128::MAX {
                Some(self@ as i128)
            } else {
                None
            },
    {
        if self.negative {
            if self.magnitude <= 0x7fff_ffff_ffff_ffff_ffff_ffff_ffff_ffffu128 {
                Some(-(self.magnitude as i128))
            } else if self.magnitude == 0x8000_0000_0000_0000_0000_0000_0000_0000u128 {
                Some(i128::MIN)
            } else {
                None
            }
        } else {
            if self.magnitude <= 0x7fff_ffff_ffff_ffff_ffff_ffff_ffff_ffffu128 {
                Some(self.magnitude as i128)
            } else {
                None
            }
        }
    }

    /// The amount in decimal notation, as a numeric column takes it.
    pub fn to_decimal_string(&self) -> (text: String)
        ensures
            text@ == signed_decimal(self@),
    {
        proof {
            use_type_invariant(self);
        }
        let mut text = String::new();
        if self.negative {
            proof {
                reveal_strlit("-");
            }
            text.append("-");
            assert(text@ =~= seq!['-']);
        }
        push_decimal(&mut text, self.magnitude);
        assert(text@ =~= signed_decimal(self@));
        text
    }
}

} // verus!
