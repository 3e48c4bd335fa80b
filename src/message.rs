//! The calls that the host can make on the pool, decoded from an opcode and
//! a list of 128-bit words, and routed to the pool's operations.
use crate::error::PoolError;
use crate::pool::{
    a_post, add_liquidity_post, balances_post, claim_admin_fees_post, init_pool_post,
    remove_liquidity_imbalance_post, remove_liquidity_one_coin_post, remove_liquidity_post,
    swap_post, units_follow_supply, virtual_price_post, CallResponse, Logic,
};
use crate::store::{AssetId, Storage};
use vstd::prelude::*;

verus! {

/// One call on the pool. An identifier takes two words: block, then
/// transaction.
#[derive(Clone, Copy, Debug)]
#[allow(non_snake_case)]
pub enum SynthPoolMessage {
    InitPool {
        token_a: AssetId,
        token_b: AssetId,
        A: u128,
        fee: u128,
        admin_fee: u128,
        owner: AssetId,
    },
    AddLiquidity { amounts: [u128; 2], min_mint_amount: u128 },
    RemoveLiquidity { amount: u128, min_amounts: [u128; 2] },
    RemoveLiquidityOneCoin { token_amount: u128, i: u128, min_amount: u128 },
    RemoveLiquidityImbalance { amounts: [u128; 2], max_burn_amount: u128 },
    Swap { i: u128, j: u128, dx: u128, min_dy: u128 },
    ClaimAdminFees,
    GetVirtualPrice,
    GetBalances,
    GetA,
}

pub const OP_INIT_POOL: u128 = 0;
pub const OP_ADD_LIQUIDITY: u128 = 1;
pub const OP_REMOVE_LIQUIDITY: u128 = 2;
pub const OP_REMOVE_LIQUIDITY_ONE_COIN: u128 = 3;
pub const OP_REMOVE_LIQUIDITY_IMBALANCE: u128 = 4;
pub const OP_SWAP: u128 = 5;
pub const OP_CLAIM_ADMIN_FEES: u128 = 10;
pub const OP_GET_VIRTUAL_PRICE: u128 = 100;
pub const OP_GET_BALANCES: u128 = 101;
pub const OP_GET_A: u128 = 102;

/// The number of words that the call `opcode` takes, `None` for an unknown opcode.
pub open spec fn arity(opcode: u128) -> Option<nat> {
    if opcode == OP_INIT_POOL {
        Some(9)
    } else if opcode == OP_ADD_LIQUIDITY || opcode == OP_REMOVE_LIQUIDITY || opcode
        == OP_REMOVE_LIQUIDITY_ONE_COIN || opcode == OP_REMOVE_LIQUIDITY_IMBALANCE {
        Some(3)
    } else if opcode == OP_SWAP {
        Some(4)
    } else if opcode == OP_CLAIM_ADMIN_FEES || opcode == OP_GET_VIRTUAL_PRICE || opcode
        == OP_GET_BALANCES || opcode == OP_GET_A {
        Some(0)
    } else {
        None
    }
}

/// The call that `opcode` and the words `w` stand for, where `w` has the
/// call's arity.
pub open spec fn message_of(opcode: u128, w: Seq<u128>) -> SynthPoolMessage {
    if opcode == OP_INIT_POOL {
        SynthPoolMessage::InitPool {
            token_a: AssetId { block: w[0], tx: w[1] },
            token_b: AssetId { block: w[2], tx: w[3] },
            A: w[4],
            fee: w[5],
            admin_fee: w[6],
            owner: AssetId { block: w[7], tx: w[8] },
        }
    } else if opcode == OP_ADD_LIQUIDITY {
        SynthPoolMessage::AddLiquidity { amounts: [w[0], w[1]], min_mint_amount: w[2] }
    } else if opcode == OP_REMOVE_LIQUIDITY {
        SynthPoolMessage::RemoveLiquidity { amount: w[0], min_amounts: [w[1], w[2]] }
    } else if opcode == OP_REMOVE_LIQUIDITY_ONE_COIN {
        SynthPoolMessage::RemoveLiquidityOneCoin { token_amount: w[0], i: w[1], min_amount: w[2] }
    } else if opcode == OP_REMOVE_LIQUIDITY_IMBALANCE {
        SynthPoolMessage::RemoveLiquidityImbalance { amounts: [w[0], w[1]], max_burn_amount: w[2] }
    } else if opcode == OP_SWAP {
        SynthPoolMessage::Swap { i: w[0], j: w[1], dx: w[2], min_dy: w[3] }
    } else if opcode == OP_CLAIM_ADMIN_FEES {
        SynthPoolMessage::ClaimAdminFees
    } else if opcode == OP_GET_VIRTUAL_PRICE {
        SynthPoolMessage::GetVirtualPrice
    } else if opcode == OP_GET_BALANCES {
        SynthPoolMessage::GetBalances
    } else {
        SynthPoolMessage::GetA
    }
}

impl SynthPoolMessage {
    /// Decodes a call: an unknown opcode, or a number of words other than
    /// the call's arity, is `BadParameter`.
    pub fn decode(opcode: u128, inputs: &Vec<u128>) -> (r: Result<SynthPoolMessage, PoolError>)
        ensures
            match arity(opcode) {
                Some(n) => if inputs@.len() == n {
                    r == Ok::<SynthPoolMessage, PoolError>(message_of(opcode, inputs@))
                } else {
                    r == Err::<SynthPoolMessage, PoolError>(PoolError::BadParameter)
                },
                None => r == Err::<SynthPoolMessage, PoolError>(PoolError::BadParameter),
            },
    {
        let n: usize = if opcode == OP_INIT_POOL {
            9
        } else if opcode == OP_ADD_LIQUIDITY || opcode == OP_REMOVE_LIQUIDITY || opcode
            == OP_REMOVE_LIQUIDITY_ONE_COIN || opcode == OP_REMOVE_LIQUIDITY_IMBALANCE {
            3
        } else if opcode == OP_SWAP {
            4
        } else if opcode == OP_CLAIM_ADMIN_FEES || opcode == OP_GET_VIRTUAL_PRICE || opcode
            == OP_GET_BALANCES || opcode == OP_GET_A {
            0
        } else {
            return Err(PoolError::BadParameter);
        };
        if inputs.len() != n {
            return Err(PoolError::BadParameter);
        }
        let w = inputs;
        let m = if opcode == OP_INIT_POOL {
            SynthPoolMessage::InitPool {
                token_a: AssetId { block: w[0], tx: w[1] },
                token_b: AssetId { block: w[2], tx: w[3] },
                A: w[4],
                fee: w[5],
                admin_fee: w[6],
                owner: AssetId { block: w[7], tx: w[8] },
            }
        } else if opcode == OP_ADD_LIQUIDITY {
            SynthPoolMessage::AddLiquidity { amounts: [w[0], w[1]], min_mint_amount: w[2] }
        } else if opcode == OP_REMOVE_LIQUIDITY {
            SynthPoolMessage::RemoveLiquidity { amount: w[0], min_amounts: [w[1], w[2]] }
        } else if opcode == OP_REMOVE_LIQUIDITY_ONE_COIN {
            SynthPoolMessage::RemoveLiquidityOneCoin {
                token_amount: w[0],
                i: w[1],
                min_amount: w[2],
            }
        } else if opcode == OP_REMOVE_LIQUIDITY_IMBALANCE {
            SynthPoolMessage::RemoveLiquidityImbalance {
                amounts: [w[0], w[1]],
                max_burn_amount: w[2],
            }
        } else if opcode == OP_SWAP {
            SynthPoolMessage::Swap { i: w[0], j: w[1], dx: w[2], min_dy: w[3] }
        } else if opcode == OP_CLAIM_ADMIN_FEES {
            SynthPoolMessage::ClaimAdminFees
        } else if opcode == OP_GET_VIRTUAL_PRICE {
            SynthPoolMessage::GetVirtualPrice
        } else if opcode == OP_GET_BALANCES {
            SynthPoolMessage::GetBalances
        } else {
            SynthPoolMessage::GetA
        };
        Ok(m)
    }
}

/// What the call `msg` returns and leaves, from `before`, on a well-formed
/// store: exactly what the operation it names does.
pub open spec fn call_post<S: Storage>(
    before: Logic<S>,
    after: Logic<S>,
    msg: SynthPoolMessage,
    r: Result<CallResponse, PoolError>,
) -> bool {
    match msg {
        SynthPoolMessage::InitPool { token_a, token_b, A, fee, admin_fee, owner } => init_pool_post(
            before,
            after,
            token_a,
            token_b,
            A,
            fee,
            admin_fee,
            owner,
            r,
        ),
        SynthPoolMessage::AddLiquidity { amounts, min_mint_amount } => add_liquidity_post(
            before,
            after,
            amounts,
            min_mint_amount,
            r,
        ),
        SynthPoolMessage::RemoveLiquidity { amount, min_amounts } => remove_liquidity_post(
            before,
            after,
            amount,
            min_amounts,
            r,
        ),
        SynthPoolMessage::RemoveLiquidityOneCoin {
            token_amount,
            i,
            min_amount,
        } => remove_liquidity_one_coin_post(before, after, token_amount, i, min_amount, r),
        SynthPoolMessage::RemoveLiquidityImbalance {
            amounts,
            max_burn_amount,
        } => remove_liquidity_imbalance_post(before, after, amounts, max_burn_amount, r),
        SynthPoolMessage::Swap { i, j, dx, min_dy } => swap_post(before, after, i, j, dx, min_dy, r),
        SynthPoolMessage::ClaimAdminFees => claim_admin_fees_post(before, after, r),
        SynthPoolMessage::GetVirtualPrice => virtual_price_post(before, r) && after.records()
            == before.records(),
        SynthPoolMessage::GetBalances => balances_post(before, r) && after.records()
            == before.records(),
        SynthPoolMessage::GetA => a_post(before, r) && after.records() == before.records(),
    }
}

impl<S: Storage> Logic<S> {
    /// Runs the call `msg`. A store with a record that cannot be decoded is
    /// refused with `StorageError` before anything else; otherwise the call
    /// does exactly what the operation it names does.
    pub fn dispatch(&mut self, msg: SynthPoolMessage) -> (r: Result<CallResponse, PoolError>)
        ensures
            final(self).context == old(self).context,
            !old(self).wf() ==> r == Err::<CallResponse, PoolError>(PoolError::StorageError)
                && final(self).records() == old(self).records(),
            old(self).wf() ==> final(self).wf() && units_follow_supply(
                *old(self),
                *final(self),
                old(self).context.caller,
            ) && call_post(*old(self), *final(self), msg, r),
    {
        match self.check_records() {
            Ok(()) => {},
            Err(e) => return Err(e),
        }
        match msg {
            SynthPoolMessage::InitPool { token_a, token_b, A, fee, admin_fee, owner } => self.init_pool(
                token_a,
                token_b,
                A,
                fee,
                admin_fee,
                owner,
            ),
            SynthPoolMessage::AddLiquidity { amounts, min_mint_amount } => self.add_liquidity(
                amounts,
                min_mint_amount,
            ),
            SynthPoolMessage::RemoveLiquidity { amount, min_amounts } => self.remove_liquidity(
                amount,
                min_amounts,
            ),
            SynthPoolMessage::RemoveLiquidityOneCoin { token_amount, i, min_amount } => self.remove_liquidity_one_coin(
                token_amount,
                i,
                min_amount,
            ),
            SynthPoolMessage::RemoveLiquidityImbalance { amounts, max_burn_amount } => self.remove_liquidity_imbalance(
                amounts,
                max_burn_amount,
            ),
            SynthPoolMessage::Swap { i, j, dx, min_dy } => self.swap(i, j, dx, min_dy),
            SynthPoolMessage::ClaimAdminFees => self.claim_admin_fees(),
            SynthPoolMessage::GetVirtualPrice => self.get_virtual_price(),
            SynthPoolMessage::GetBalances => self.get_balances(),
            SynthPoolMessage::GetA => self.get_a(),
        }
    }
}

} // verus!
