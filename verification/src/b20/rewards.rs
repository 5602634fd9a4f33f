//! Opt-in staking rewards of B20 tokens.
//!
//! A holder opts in by naming a reward recipient. Rewards are distributed pro rata over the
//! opted-in supply through a global reward-per-token accumulator scaled by [`ACC_PRECISION`];
//! each holder's share accrues to its recipient when the holder is next updated.

use vstd::prelude::*;

use crate::b20::{B20Event, B20Token, Recipient};
use crate::b403_registry::B403Registry;
use crate::error::{b20_err, fails_with, overflow, B20Error, BasePrecompileError, Result};
use crate::primitives::{spec_zero_addr, zero_address, Address};
use crate::spec::BaseBSpec;
use crate::storage::mapping::StorageValue;
use crate::word::{self, pow_128, word_modulus, U256};

verus! {

/// Precision of the reward-per-token accumulator (`10^18`).
pub const ACC_PRECISION: u64 = 1_000_000_000_000_000_000;

/// Per-holder reward state.
#[derive(Clone, Copy, Debug)]
pub struct UserRewardInfo {
    /// Address that receives this holder's rewards (zero = opted out).
    pub reward_recipient: Address,
    /// Snapshot of the global reward-per-token at the holder's last update.
    pub reward_per_token: U256,
    /// Accumulated but unclaimed rewards.
    pub reward_balance: U256,
}

impl StorageValue for UserRewardInfo {
    open spec fn spec_zero() -> UserRewardInfo {
        UserRewardInfo {
            reward_recipient: spec_zero_addr(),
            reward_per_token: U256::spec_zero_word(),
            reward_balance: U256::spec_zero_word(),
        }
    }

    fn zero_value() -> (r: UserRewardInfo) {
        UserRewardInfo {
            reward_recipient: Address { bytes: [0u8; 20] },
            reward_per_token: U256::zero_word(),
            reward_balance: U256::zero_word(),
        }
    }

    open spec fn weight(self) -> nat {
        0
    }

    proof fn lemma_zero_weight() {
    }
}

/// The reward state of `k` in `m` (zero when never written).
pub open spec fn info_in(m: Map<Seq<u8>, UserRewardInfo>, k: Seq<u8>) -> UserRewardInfo {
    if m.contains_key(k) {
        m[k]
    } else {
        UserRewardInfo::spec_zero()
    }
}

/// The reward earned by a balance over an increase `delta` of the accumulator.
pub open spec fn earned(balance: nat, delta: nat) -> nat {
    balance * delta / (ACC_PRECISION as nat)
}

/// Accrual of the rewards of `holder`, whose balance is `balance`, against the accumulator `g`
/// in the reward states `m`: the result (the holder's recipient) and the reward states after.
///
/// The holder's share `balance * (g - snapshot) / 10^18` is added to its recipient's reward
/// balance (nothing when the holder opted out) and its snapshot becomes `g`; nothing changes
/// when the snapshot already is `g`. Arithmetic overflow fails and leaves `m` as it was.
pub open spec fn accrue(m: Map<Seq<u8>, UserRewardInfo>, g: U256, balance: nat, holder: Address) -> (
    Result<Address>,
    Map<Seq<u8>, UserRewardInfo>,
) {
    let info = info_in(m, holder@);
    let d = info.reward_recipient;
    if g.value() < info.reward_per_token.value() {
        (Err(overflow()), m)
    } else if g.value() == info.reward_per_token.value() {
        (Ok(d), m)
    } else if d@ == zero_address() {
        (Ok(d), m.insert(holder@, UserRewardInfo { reward_per_token: g, ..info }))
    } else {
        let product = balance * (g.value() - info.reward_per_token.value()) as nat;
        let reward = product / (ACC_PRECISION as nat);
        if product >= word_modulus() {
            (Err(overflow()), m)
        } else if d@ == holder@ {
            let nb = info.reward_balance.value() + reward;
            if nb >= word_modulus() {
                (Err(overflow()), m)
            } else {
                (
                    Ok(d),
                    m.insert(
                        holder@,
                        UserRewardInfo {
                            reward_per_token: g,
                            reward_balance: U256::from_value(nb),
                            ..info
                        },
                    ),
                )
            }
        } else {
            let di = info_in(m, d@);
            let nb = di.reward_balance.value() + reward;
            if nb >= word_modulus() {
                (Err(overflow()), m)
            } else {
                (
                    Ok(d),
                    m.insert(d@, UserRewardInfo { reward_balance: U256::from_value(nb), ..di }).insert(
                        holder@,
                        UserRewardInfo { reward_per_token: g, ..info },
                    ),
                )
            }
        }
    }
}

/// The opted-in supply `opted` raised (`add`) or lowered by `amount`; under/overflow of
/// `u128` fails.
pub open spec fn opted_after(opted: u128, amount: nat, add: bool) -> Result<u128> {
    if add {
        if opted + amount >= pow_128() {
            Err(overflow())
        } else {
            Ok((opted + amount) as u128)
        }
    } else {
        if opted < amount {
            Err(overflow())
        } else {
            Ok((opted - amount) as u128)
        }
    }
}

/// The opted-in supply after `amount` moved from a holder whose recipient is `from_d` to one
/// whose recipient is `to_d`: it shrinks when the tokens leave the opted-in set and grows
/// when they enter it.
pub open spec fn opted_after_move(opted: u128, amount: nat, from_d: Address, to_d: Address) -> Result<u128> {
    if from_d@ != zero_address() {
        if to_d@ == zero_address() {
            opted_after(opted, amount, false)
        } else {
            Ok(opted)
        }
    } else if to_d@ != zero_address() {
        opted_after(opted, amount, true)
    } else {
        Ok(opted)
    }
}

impl B20Token {
    /// The reward state of `account`.
    pub open spec fn reward_info(&self, account: Seq<u8>) -> UserRewardInfo {
        self.user_reward_info.get(account)
    }

    /// Accrual of the rewards of `holder` in this token (see [`accrue`]).
    pub open spec fn spec_accrue(&self, holder: Address) -> (Result<Address>, Map<Seq<u8>, UserRewardInfo>) {
        accrue(self.user_reward_info@, self.global_reward_per_token, self.bal(holder@), holder)
    }

    /// Accrues the rewards of `holder` to its recipient and returns that recipient.
    pub fn update_rewards(&mut self, holder: Address) -> (r: Result<Address>)
        ensures
            r == old(self).spec_accrue(holder).0,
            final(self).user_reward_info@ == old(self).spec_accrue(holder).1,
            r is Err ==> *final(self) == *old(self),
            *final(self) == (B20Token {
                user_reward_info: final(self).user_reward_info,
                ..*old(self)
            }),
            ({
                let info = old(self).reward_info(holder@);
                let d = info.reward_recipient;
                let share = old(self).bal(holder@) * (old(self).global_reward_per_token.value()
                    - info.reward_per_token.value()) as nat / (ACC_PRECISION as nat);
                r is Ok && d@ != zero_address() && d@ != holder@ ==> {
                    &&& final(self).reward_info(d@).reward_balance.value() == old(self).reward_info(
                        d@,
                    ).reward_balance.value() + share
                    &&& final(self).reward_info(holder@).reward_balance == info.reward_balance
                }
            }),
    {
        let mut info = self.user_reward_info.read(&holder);
        let cached_delegate = info.reward_recipient;
        let global_reward_per_token = self.global_reward_per_token;
        let reward_per_token_delta = match word::checked_sub(
            global_reward_per_token,
            info.reward_per_token,
        ) {
            Some(v) => v,
            None => {
                return Err(BasePrecompileError::under_overflow());
            },
        };
        if !reward_per_token_delta.is_zero() {
            if !cached_delegate.is_zero() {
                let holder_balance = self.balances.read(&holder);
                let reward = match word::checked_mul(holder_balance, reward_per_token_delta) {
                    Some(p) => word::div(p, U256::from_u64(ACC_PRECISION)),
                    None => {
                        return Err(BasePrecompileError::under_overflow());
                    },
                };
                if cached_delegate.same(&holder) {
                    info.reward_balance =
                    match word::checked_add(info.reward_balance, reward) {
                        Some(v) => v,
                        None => {
                            return Err(BasePrecompileError::under_overflow());
                        },
                    };
                    proof {
                        word::lemma_word_of_value(info.reward_balance);
                    }
                } else {
                    let mut delegate_info = self.user_reward_info.read(&cached_delegate);
                    delegate_info.reward_balance =
                    match word::checked_add(delegate_info.reward_balance, reward) {
                        Some(v) => v,
                        None => {
                            return Err(BasePrecompileError::under_overflow());
                        },
                    };
                    proof {
                        word::lemma_word_of_value(delegate_info.reward_balance);
                    }
                    self.user_reward_info.write(cached_delegate, delegate_info);
                }
            }
            info.reward_per_token = global_reward_per_token;
            self.user_reward_info.write(holder, info);
        }
        proof {
            lemma_accrue_credits_the_recipient(
                old(self).user_reward_info@,
                old(self).global_reward_per_token,
                old(self).bal(holder@),
                holder,
            );
        }
        Ok(cached_delegate)
    }

    /// Raises (`add`) or lowers the opted-in supply by `amount`.
    fn adjust_opted_in_supply(&mut self, amount: U256, add: bool) -> (r: Result<()>)
        ensures
            opted_after(old(self).opted_in_supply, amount.value(), add) matches Ok(v) ==> r is Ok
                && *final(self) == (B20Token { opted_in_supply: v, ..*old(self) }),
            opted_after(old(self).opted_in_supply, amount.value(), add) is Err ==> fails_with(
                r,
                Err(overflow()),
            ) && *final(self) == *old(self),
    {
        let current = U256::from_u128(self.opted_in_supply);
        let updated = if add {
            word::checked_add(current, amount)
        } else {
            word::checked_sub(current, amount)
        };
        let updated = match updated {
            Some(v) => v,
            None => {
                return Err(BasePrecompileError::under_overflow());
            },
        };
        match updated.to_u128() {
            Some(v) => {
                self.opted_in_supply = v;
                Ok(())
            },
            None => Err(BasePrecompileError::under_overflow()),
        }
    }

    /// Returns the accumulated global reward per token.
    pub fn get_global_reward_per_token(&self) -> (r: Result<U256>)
        ensures
            r == Ok::<U256, BasePrecompileError>(self.global_reward_per_token),
    {
        Ok(self.global_reward_per_token)
    }

    fn set_global_reward_per_token(&mut self, value: U256)
        ensures
            *final(self) == (B20Token { global_reward_per_token: value, ..*old(self) }),
    {
        self.global_reward_per_token = value;
    }

    /// Returns the total balance of the holders opted into rewards.
    pub fn get_opted_in_supply(&self) -> (r: Result<u128>)
        ensures
            r == Ok::<u128, BasePrecompileError>(self.opted_in_supply),
    {
        Ok(self.opted_in_supply)
    }

    /// Sets the total balance of the holders opted into rewards.
    pub fn set_opted_in_supply(&mut self, value: u128) -> (r: Result<()>)
        ensures
            r is Ok,
            *final(self) == (B20Token { opted_in_supply: value, ..*old(self) }),
    {
        self.opted_in_supply = value;
        Ok(())
    }

    /// Returns the reward state of `account`.
    pub fn get_user_reward_info(&self, account: Address) -> (r: Result<UserRewardInfo>)
        ensures
            r == Ok::<UserRewardInfo, BasePrecompileError>(self.reward_info(account@)),
    {
        Ok(self.user_reward_info.read(&account))
    }
}


/// The accumulator after `amount` of rewards was distributed over the opted-in supply
/// `opted`: it grows by `amount * 10^18 / opted`.
pub open spec fn distributed(opted: u128, g: U256, amount: U256) -> Result<U256> {
    let product = amount.value() * (ACC_PRECISION as nat);
    if opted == 0 {
        Err(b20_err(B20Error::NoOptedInSupply))
    } else if product >= word_modulus() {
        Err(overflow())
    } else if g.value() + product / (opted as nat) >= word_modulus() {
        Err(overflow())
    } else {
        Ok(U256::from_value(g.value() + product / (opted as nat)))
    }
}

impl B20Token {
    /// Reward accounting of a transfer of `amount` from `from` to `to`: the reward states after
    /// accruing both holders, and the opted-in supply after the move; with the result.
    pub open spec fn spec_rewards_on_transfer(&self, from: Address, to: Address, amount: U256) -> (
        Result<()>,
        Map<Seq<u8>, UserRewardInfo>,
        u128,
    ) {
        let opted = self.opted_in_supply;
        let (r1, m1) = self.spec_accrue(from);
        match r1 {
            Err(e) => (Err(e), m1, opted),
            Ok(fd) => {
                let (r2, m2) = accrue(m1, self.global_reward_per_token, self.bal(to@), to);
                match r2 {
                    Err(e) => (Err(e), m2, opted),
                    Ok(td) => match opted_after_move(opted, amount.value(), fd, td) {
                        Err(e) => (Err(e), m2, opted),
                        Ok(o) => (Ok(()), m2, o),
                    },
                }
            },
        }
    }

    /// Reward accounting of a mint of `amount` to `to`.
    pub open spec fn spec_rewards_on_mint(&self, to: Address, amount: U256) -> (
        Result<()>,
        Map<Seq<u8>, UserRewardInfo>,
        u128,
    ) {
        let opted = self.opted_in_supply;
        let (r1, m1) = self.spec_accrue(to);
        match r1 {
            Err(e) => (Err(e), m1, opted),
            Ok(td) => if td@ == zero_address() {
                (Ok(()), m1, opted)
            } else {
                match opted_after(opted, amount.value(), true) {
                    Err(e) => (Err(e), m1, opted),
                    Ok(o) => (Ok(()), m1, o),
                }
            },
        }
    }

    /// Handles the reward accounting of both holders of a transfer.
    pub fn handle_rewards_on_transfer(&mut self, from: Address, to: Address, amount: U256) -> (r:
        Result<()>)
        ensures
            r == old(self).spec_rewards_on_transfer(from, to, amount).0,
            final(self).user_reward_info@ == old(self).spec_rewards_on_transfer(from, to, amount).1,
            final(self).opted_in_supply == old(self).spec_rewards_on_transfer(from, to, amount).2,
            *final(self) == (B20Token {
                user_reward_info: final(self).user_reward_info,
                opted_in_supply: final(self).opted_in_supply,
                ..*old(self)
            }),
    {
        let from_delegate = self.update_rewards(from)?;
        let to_delegate = self.update_rewards(to)?;
        if !from_delegate.is_zero() {
            if to_delegate.is_zero() {
                self.adjust_opted_in_supply(amount, false)?;
            }
        } else if !to_delegate.is_zero() {
            self.adjust_opted_in_supply(amount, true)?;
        }
        Ok(())
    }

    /// Handles the reward accounting of a mint to `to`.
    pub fn handle_rewards_on_mint(&mut self, to: Address, amount: U256) -> (r: Result<()>)
        ensures
            r == old(self).spec_rewards_on_mint(to, amount).0,
            final(self).user_reward_info@ == old(self).spec_rewards_on_mint(to, amount).1,
            final(self).opted_in_supply == old(self).spec_rewards_on_mint(to, amount).2,
            *final(self) == (B20Token {
                user_reward_info: final(self).user_reward_info,
                opted_in_supply: final(self).opted_in_supply,
                ..*old(self)
            }),
    {
        let to_delegate = self.update_rewards(to)?;
        if !to_delegate.is_zero() {
            self.adjust_opted_in_supply(amount, true)?;
        }
        Ok(())
    }

    /// The checks of naming a reward recipient: not paused, and a transfer from the holder to
    /// a nonzero recipient must be authorized.
    pub open spec fn spec_recipient_check(&self, registry: &B403Registry, holder: Address, recipient: Address) -> Result<()> {
        if self.paused {
            Err(b20_err(B20Error::ContractPaused))
        } else if recipient@ != zero_address() {
            crate::b20::forbid_unless(self.spec_transfer_authorized(registry, holder, recipient))
        } else {
            Ok(())
        }
    }

    /// Setting the reward recipient of `holder`: the holder is accrued, the opted-in supply
    /// follows the holder's balance into or out of the opted-in set, and the recipient is
    /// stored. The reward states and opted-in supply after, with the result.
    pub open spec fn spec_set_reward_recipient(&self, holder: Address, recipient: Address) -> (
        Result<()>,
        Map<Seq<u8>, UserRewardInfo>,
        u128,
    ) {
        let opted = self.opted_in_supply;
        let (r1, m1) = self.spec_accrue(holder);
        match r1 {
            Err(e) => (Err(e), m1, opted),
            Ok(fd) => match opted_after_move(opted, self.bal(holder@), fd, recipient) {
                Err(e) => (Err(e), m1, opted),
                Ok(o) => (
                    Ok(()),
                    m1.insert(
                        holder@,
                        UserRewardInfo { reward_recipient: recipient, ..info_in(m1, holder@) },
                    ),
                    o,
                ),
            },
        }
    }

    /// Sets the caller's reward recipient; the zero address opts out of rewards.
    ///
    /// Fails with `ContractPaused`, with `PolicyForbids` when a transfer to the recipient is
    /// not authorized, and with an overflow panic when the accounting overflows.
    pub fn set_reward_recipient(&mut self, msg_sender: Address, recipient: Address, registry: &B403Registry) -> (r:
        Result<()>)
        ensures
            old(self).spec_recipient_check(registry, msg_sender, recipient) is Err ==> fails_with(
                r,
                old(self).spec_recipient_check(registry, msg_sender, recipient),
            ) && *final(self) == *old(self),
            old(self).spec_recipient_check(registry, msg_sender, recipient) is Ok ==> {
                let (res, m, o) = old(self).spec_set_reward_recipient(msg_sender, recipient);
                &&& r == res
                &&& final(self).user_reward_info@ == m
                &&& final(self).opted_in_supply == o
                &&& final(self).events@ == if res is Ok {
                    old(self).events@.push(
                        B20Event::RewardRecipientSet { holder: msg_sender, recipient },
                    )
                } else {
                    old(self).events@
                }
                &&& *final(self) == (B20Token {
                    user_reward_info: final(self).user_reward_info,
                    opted_in_supply: final(self).opted_in_supply,
                    events: final(self).events,
                    ..*old(self)
                })
            },
    {
        self.check_not_paused()?;
        if self.spec.is_enabled_in(BaseBSpec::Azul) && crate::address::BaseBAddressExt::is_virtual(&recipient) {
            return Err(BasePrecompileError::B20(B20Error::invalid_recipient()));
        }
        if !recipient.is_zero() {
            self.ensure_transfer_authorized(msg_sender, recipient, registry)?;
        }
        let from_delegate = self.update_rewards(msg_sender)?;
        let holder_balance = self.balances.read(&msg_sender);
        if !from_delegate.is_zero() {
            if recipient.is_zero() {
                self.adjust_opted_in_supply(holder_balance, false)?;
            }
        } else if !recipient.is_zero() {
            self.adjust_opted_in_supply(holder_balance, true)?;
        }
        let mut info = self.user_reward_info.read(&msg_sender);
        info.reward_recipient = recipient;
        self.user_reward_info.write(msg_sender, info);
        self.events.push(B20Event::RewardRecipientSet { holder: msg_sender, recipient });
        Ok(())
    }

    /// The checks of distributing `amount`: not paused, nonzero, and a transfer from the
    /// funder to the token authorized.
    pub open spec fn spec_distribute_check(&self, registry: &B403Registry, funder: Address, amount: U256) -> Result<()> {
        if self.paused {
            Err(b20_err(B20Error::ContractPaused))
        } else if amount.value() == 0 {
            Err(b20_err(B20Error::InvalidAmount))
        } else {
            crate::b20::forbid_unless(self.spec_transfer_authorized(registry, funder, self.address))
        }
    }

    /// Moves `amount` from the caller to the token and raises the reward accumulator by
    /// `amount * 10^18 / opted_in_supply`, so that the opted-in holders share it pro rata.
    ///
    /// The funds move before the opted-in supply is checked: with none, the call fails with
    /// `NoOptedInSupply` after the transfer.
    pub fn distribute_reward(&mut self, msg_sender: Address, amount: U256, registry: &B403Registry) -> (r:
        Result<()>)
        requires
            old(self).wf(),
        ensures
            final(self).wf(),
            old(self).spec_distribute_check(registry, msg_sender, amount) is Err ==> fails_with(
                r,
                old(self).spec_distribute_check(registry, msg_sender, amount),
            ) && *final(self) == *old(self),
            old(self).spec_distribute_check(registry, msg_sender, amount) is Ok && amount.value()
                > old(self).bal(msg_sender@) ==> r == Err::<(), BasePrecompileError>(
                old(self).insufficient(msg_sender, amount),
            ) && *final(self) == *old(self),
            old(self).spec_distribute_check(registry, msg_sender, amount) is Ok && amount.value()
                <= old(self).bal(msg_sender@) ==> {
                let transferred = old(self).events@.push(
                    B20Event::Transfer { from: msg_sender, to: old(self).address, amount },
                );
                &&& final(self).moved_from(old(self), msg_sender, old(self).address, amount)
                &&& match distributed(
                    old(self).opted_in_supply,
                    old(self).global_reward_per_token,
                    amount,
                ) {
                    Err(e) => {
                        &&& r == Err::<(), BasePrecompileError>(e)
                        &&& final(self).events@ == transferred
                        &&& *final(self) == (B20Token {
                            balances: final(self).balances,
                            events: final(self).events,
                            ..*old(self)
                        })
                    },
                    Ok(g) => {
                        &&& r is Ok
                        &&& final(self).events@ == transferred.push(
                            B20Event::RewardDistributed { funder: msg_sender, amount },
                        )
                        &&& *final(self) == (B20Token {
                            balances: final(self).balances,
                            events: final(self).events,
                            global_reward_per_token: g,
                            ..*old(self)
                        })
                    },
                }
            },
    {
        proof {
            crate::address::lemma_prefixed_nonzero(self.address@);
        }
        self.check_not_paused()?;
        let token_address = self.address;
        if amount.is_zero() {
            return Err(BasePrecompileError::B20(B20Error::invalid_amount()));
        }
        self.ensure_transfer_authorized(msg_sender, token_address, registry)?;
        self.check_and_update_spending_limit(msg_sender, amount)?;
        self._transfer(msg_sender, &Recipient::direct(token_address), amount)?;
        let opted_in_supply = U256::from_u128(self.opted_in_supply);
        if opted_in_supply.is_zero() {
            return Err(BasePrecompileError::B20(B20Error::no_opted_in_supply()));
        }
        let delta_rpt = match word::checked_mul(amount, U256::from_u64(ACC_PRECISION)) {
            Some(p) => word::div(p, opted_in_supply),
            None => {
                return Err(BasePrecompileError::under_overflow());
            },
        };
        let new_rpt = match word::checked_add(self.global_reward_per_token, delta_rpt) {
            Some(v) => v,
            None => {
                return Err(BasePrecompileError::under_overflow());
            },
        };
        proof {
            word::lemma_word_of_value(new_rpt);
        }
        self.set_global_reward_per_token(new_rpt);
        self.events.push(B20Event::RewardDistributed { funder: msg_sender, amount });
        Ok(())
    }
}


/// The smaller of two numbers.
pub open spec fn min_nat(a: nat, b: nat) -> nat {
    if a <= b {
        a
    } else {
        b
    }
}

impl B20Token {
    /// `self` holds the balances of `old` after `amount` moved from `from` to `to`, credited
    /// even to the zero address.
    pub open spec fn shifted(&self, old: &B20Token, from: Address, to: Address, amount: nat) -> bool {
        &&& forall|a: Seq<u8>|
            #![trigger self.balances.get(a)]
            self.balances.get(a).value() == crate::b20::moved(old.bal(a), a, from@, to@, true, amount)
        &&& self.balances.total() == old.balances.total()
    }

    /// The checks of claiming: not paused, and a transfer from the token to the claimant
    /// authorized.
    pub open spec fn spec_claim_check(&self, registry: &B403Registry, claimant: Address) -> Result<()> {
        if self.paused {
            Err(b20_err(B20Error::ContractPaused))
        } else {
            crate::b20::forbid_unless(self.spec_transfer_authorized(registry, self.address, claimant))
        }
    }

    /// Claims the caller's accrued rewards: pays the lesser of its reward balance and the
    /// token's own balance, keeps the rest for later, and returns the amount paid.
    pub fn claim_rewards(&mut self, msg_sender: Address, registry: &B403Registry) -> (r: Result<U256>)
        requires
            old(self).wf(),
        ensures
            final(self).wf(),
            old(self).spec_claim_check(registry, msg_sender) is Err ==> fails_with(
                r,
                old(self).spec_claim_check(registry, msg_sender),
            ) && *final(self) == *old(self),
            old(self).spec_claim_check(registry, msg_sender) is Ok ==> (old(self).spec_accrue(
                msg_sender,
            ).0 matches Err(e) ==> r == Err::<U256, BasePrecompileError>(e) && *final(self)
                == *old(self)),
            old(self).spec_claim_check(registry, msg_sender) is Ok && old(self).spec_accrue(
                msg_sender,
            ).0 is Ok ==> {
                let m1 = old(self).spec_accrue(msg_sender).1;
                let info = info_in(m1, msg_sender@);
                let paid = min_nat(info.reward_balance.value(), old(self).bal(old(self).address@));
                let m2 = m1.insert(
                    msg_sender@,
                    UserRewardInfo {
                        reward_balance: U256::from_value(
                            (info.reward_balance.value() - paid) as nat,
                        ),
                        ..info
                    },
                );
                let opted = if paid > 0 && info.reward_recipient@ != zero_address() {
                    opted_after(old(self).opted_in_supply, paid, true)
                } else {
                    Ok(old(self).opted_in_supply)
                };
                &&& final(self).user_reward_info@ == m2
                &&& final(self).shifted(old(self), old(self).address, msg_sender, paid)
                &&& match opted {
                    Err(e) => {
                        &&& r == Err::<U256, BasePrecompileError>(e)
                        &&& *final(self) == (B20Token {
                            user_reward_info: final(self).user_reward_info,
                            balances: final(self).balances,
                            ..*old(self)
                        })
                    },
                    Ok(o) => {
                        &&& r == Ok::<U256, BasePrecompileError>(U256::from_value(paid))
                        &&& final(self).events@ == if paid > 0 {
                            old(self).events@.push(
                                B20Event::Transfer {
                                    from: old(self).address,
                                    to: msg_sender,
                                    amount: U256::from_value(paid),
                                },
                            )
                        } else {
                            old(self).events@
                        }
                        &&& *final(self) == (B20Token {
                            user_reward_info: final(self).user_reward_info,
                            balances: final(self).balances,
                            opted_in_supply: o,
                            events: final(self).events,
                            ..*old(self)
                        })
                    },
                }
            },
    {
        self.check_not_paused()?;
        let contract_address = self.address;
        self.ensure_transfer_authorized(contract_address, msg_sender, registry)?;
        match self.update_rewards(msg_sender) {
            Ok(_) => {},
            Err(e) => {
                return Err(e);
            },
        }
        let mut info = self.user_reward_info.read(&msg_sender);
        let amount = info.reward_balance;
        let ghost b0 = self.balances;
        let contract_balance = self.balances.read(&contract_address);
        let max_amount = if word::lt(contract_balance, amount) {
            contract_balance
        } else {
            amount
        };
        proof {
            word::lemma_word_of_value(max_amount);
        }
        let reward_recipient = info.reward_recipient;
        info.reward_balance = match word::checked_sub(amount, max_amount) {
            Some(v) => v,
            None => {
                return Err(BasePrecompileError::under_overflow());
            },
        };
        proof {
            word::lemma_word_of_value(info.reward_balance);
        }
        self.user_reward_info.write(msg_sender, info);
        if !max_amount.is_zero() {
            let new_contract_balance = match word::checked_sub(contract_balance, max_amount) {
                Some(v) => v,
                None => {
                    return Err(BasePrecompileError::under_overflow());
                },
            };
            self.balances.write(contract_address, new_contract_balance);
            let recipient_balance = self.balances.read(&msg_sender);
            let new_recipient_balance = match word::checked_add(recipient_balance, max_amount) {
                Some(v) => v,
                None => {
                    return Err(BasePrecompileError::under_overflow());
                },
            };
            let ghost b1 = self.balances;
            self.balances.write(msg_sender, new_recipient_balance);
            proof {
                assert forall|a: Seq<u8>| #![trigger self.balances.get(a)]
                    self.balances.get(a).value() == crate::b20::moved(
                        b0.get(a).value(), a, contract_address@, msg_sender@, true, max_amount.value()) by {
                    if a != msg_sender@ && a != contract_address@ {
                        assert(b1.get(a) == b0.get(a));
                    }
                }
            }
            if !reward_recipient.is_zero() {
                self.adjust_opted_in_supply(max_amount, true)?;
            }
            self.events.push(
                B20Event::Transfer { from: contract_address, to: msg_sender, amount: max_amount },
            );
        } else {
            proof {
                assert forall|a: Seq<u8>| #![trigger self.balances.get(a)]
                    self.balances.get(a).value() == crate::b20::moved(
                        b0.get(a).value(), a, contract_address@, msg_sender@, true, max_amount.value()) by {
                }
            }
        }
        Ok(max_amount)
    }

    /// The rewards that `account` could claim now: its reward balance, plus, when it is its
    /// own recipient, what its balance accrued since its last update.
    pub open spec fn spec_pending_rewards(&self, account: Address) -> Result<u128> {
        let info = self.reward_info(account@);
        let g = self.global_reward_per_token.value();
        let balance = self.bal(account@);
        let pending: Result<nat> = if info.reward_recipient@ == account@ && balance > 0 {
            if g < info.reward_per_token.value() {
                Err(overflow())
            } else if g == info.reward_per_token.value() {
                Ok(info.reward_balance.value())
            } else {
                let product = balance * (g - info.reward_per_token.value()) as nat;
                if product >= word_modulus() {
                    Err(overflow())
                } else if info.reward_balance.value() + product / (ACC_PRECISION as nat)
                    >= word_modulus() {
                    Err(overflow())
                } else {
                    Ok(info.reward_balance.value() + product / (ACC_PRECISION as nat))
                }
            }
        } else {
            Ok(info.reward_balance.value())
        };
        match pending {
            Err(e) => Err(e),
            Ok(p) => if p >= pow_128() {
                Err(overflow())
            } else {
                Ok(p as u128)
            },
        }
    }

    /// The pending claimable rewards of `account`, without changing state.
    pub fn get_pending_rewards(&self, account: Address) -> (r: Result<u128>)
        ensures
            r == self.spec_pending_rewards(account),
    {
        let info = self.user_reward_info.read(&account);
        let mut pending = info.reward_balance;
        if info.reward_recipient.same(&account) {
            let holder_balance = self.balances.read(&account);
            if !holder_balance.is_zero() {
                let reward_per_token_delta = match word::checked_sub(
                    self.global_reward_per_token,
                    info.reward_per_token,
                ) {
                    Some(v) => v,
                    None => {
                        return Err(BasePrecompileError::under_overflow());
                    },
                };
                if !reward_per_token_delta.is_zero() {
                    let accrued = match word::checked_mul(holder_balance, reward_per_token_delta) {
                        Some(p) => word::div(p, U256::from_u64(ACC_PRECISION)),
                        None => {
                            return Err(BasePrecompileError::under_overflow());
                        },
                    };
                    pending = match word::checked_add(pending, accrued) {
                        Some(v) => v,
                        None => {
                            return Err(BasePrecompileError::under_overflow());
                        },
                    };
                }
            }
        }
        match pending.to_u128() {
            Some(v) => Ok(v),
            None => Err(BasePrecompileError::under_overflow()),
        }
    }
}


/// Accruing `holder`'s rewards against an accumulator `g` that did not go backwards, when it
/// succeeds: the share `balance * (g - snapshot) / 10^18` goes to the holder's reward
/// recipient. For a recipient other than the holder and the zero address, that recipient's
/// reward balance grows by the share and the holder's own reward balance is unchanged; for
/// the holder itself, its own reward balance grows by the share; for the zero address no
/// reward balance changes. The holder's snapshot becomes `g` in every case.
pub proof fn lemma_accrue_credits_the_recipient(
    m: Map<Seq<u8>, UserRewardInfo>,
    g: U256,
    balance: nat,
    holder: Address,
)
    requires
        accrue(m, g, balance, holder).0 is Ok,
    ensures
        ({
            let info = info_in(m, holder@);
            let d = info.reward_recipient;
            let m2 = accrue(m, g, balance, holder).1;
            let share = balance * (g.value() - info.reward_per_token.value()) as nat / (
            ACC_PRECISION as nat);
            &&& g.value() >= info.reward_per_token.value()
            &&& accrue(m, g, balance, holder).0 == Ok::<Address, BasePrecompileError>(d)
            &&& info_in(m2, holder@).reward_per_token == g
            &&& info_in(m2, holder@).reward_recipient == d
            &&& d@ != zero_address() && d@ != holder@ ==> {
                &&& info_in(m2, d@).reward_balance.value() == info_in(m, d@).reward_balance.value()
                    + share
                &&& info_in(m2, holder@).reward_balance == info.reward_balance
            }
            &&& d@ == holder@ && d@ != zero_address() ==> info_in(m2, holder@).reward_balance.value()
                == info.reward_balance.value() + share
            &&& d@ == zero_address() ==> info_in(m2, holder@).reward_balance == info.reward_balance
            &&& forall|k: Seq<u8>|
                k != holder@ && k != d@ ==> #[trigger] info_in(m2, k) == info_in(m, k)
        }),
{
    let info = info_in(m, holder@);
    let d = info.reward_recipient;
    word::lemma_value_bound(info.reward_balance);
    word::lemma_value_bound(info_in(m, d@).reward_balance);
    if g.value() > info.reward_per_token.value() && d@ != zero_address() {
        let product = balance * (g.value() - info.reward_per_token.value()) as nat;
        let reward = product / (ACC_PRECISION as nat);
        if d@ == holder@ {
            word::lemma_from_value(info.reward_balance.value() + reward);
        } else {
            word::lemma_from_value(info_in(m, d@).reward_balance.value() + reward);
        }
    }
    if g.value() == info.reward_per_token.value() {
        word::lemma_word_of_value(g);
        word::lemma_word_of_value(info.reward_per_token);
        let delta = (g.value() - info.reward_per_token.value()) as nat;
        assert(balance * delta == 0) by (nonlinear_arith)
            requires
                delta == 0,
        ;
    }
}

} // verus!
