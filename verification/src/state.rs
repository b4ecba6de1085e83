//! The pool state store: the persisted record of one pool's configuration and
//! status, and the monotonic lifecycle its status obeys.

use vstd::prelude::*;

use crate::error::AmmError;

verus! {

/// Lifecycle status of a pool.
///
/// The lifecycle is monotonic: `Uninitialized -> Initialized` is the only
/// entry transition, `Initialized -> Disabled` and
/// `Initialized -> WithdrawOnly` are one-way, and no transition ever returns
/// to `Uninitialized`.
#[derive(Clone, Copy, Debug, PartialEq, Eq, Structural)]
pub enum PoolStatus {
    /// The record exists but the pool has never been funded.
    Uninitialized,
    /// The pool is live: deposits, withdrawals and swaps are allowed.
    Initialized,
    /// The pool is shut: nothing is allowed.
    Disabled,
    /// Only withdrawals are allowed.
    WithdrawOnly,
}

/// The status changes the lifecycle admits, staying put included.
pub open spec fn status_step_allowed(from: PoolStatus, to: PoolStatus) -> bool {
    ||| from == to
    ||| (from == PoolStatus::Uninitialized && to == PoolStatus::Initialized)
    ||| (from == PoolStatus::Initialized && to == PoolStatus::Disabled)
    ||| (from == PoolStatus::Initialized && to == PoolStatus::WithdrawOnly)
}

/// `Uninitialized` is never re-entered, and `Disabled` and `WithdrawOnly` are
/// terminal: the lifecycle is monotonic step by step.
pub proof fn lemma_status_monotonic(from: PoolStatus, to: PoolStatus)
    requires
        status_step_allowed(from, to),
    ensures
        to == PoolStatus::Uninitialized ==> from == PoolStatus::Uninitialized,
        from == PoolStatus::Disabled ==> to == PoolStatus::Disabled,
        from == PoolStatus::WithdrawOnly ==> to == PoolStatus::WithdrawOnly,
{
}

/// Persisted configuration of one pool. The pool never holds balances
/// itself: the vault and mint fields are identifiers of the accounts that do,
/// and reserves are always read live from them at call time.
#[derive(Clone, Copy, Debug, PartialEq, Eq)]
pub struct Pool {
    /// Where the pool stands in its lifecycle.
    pub status: PoolStatus,
    /// Identifier of the vault account holding asset A's reserve.
    pub asset_a_vault_ref: u64,
    /// Identifier of the vault account holding asset B's reserve.
    pub asset_b_vault_ref: u64,
    /// Identifier of the claim-token mint whose total supply tracks
    /// proportional ownership of the pool.
    pub lp_mint_ref: u64,
    /// Numerator of the trade fee fraction applied to swap input.
    pub trade_fee_numerator: u64,
    /// Denominator of the trade fee fraction; the fraction lies in [0, 1).
    pub trade_fee_denominator: u64,
    /// Minimum LP supply that may never be fully withdrawn once the pool is
    /// initialized.
    pub min_liquidity_floor: u64,
    /// Identifier of the external order-matching market used as auxiliary
    /// liquidity, if one is configured.
    pub order_book_ref: Option<u64>,
}

impl Pool {
    /// The record invariant: the trade fee is a fraction in [0, 1).
    pub open spec fn wf(self) -> bool {
        self.trade_fee_numerator < self.trade_fee_denominator
    }

    /// Build a fresh, not yet initialized pool record; rejects a fee fraction
    /// outside [0, 1).
    pub fn new(
        asset_a_vault_ref: u64,
        asset_b_vault_ref: u64,
        lp_mint_ref: u64,
        trade_fee_numerator: u64,
        trade_fee_denominator: u64,
        min_liquidity_floor: u64,
        order_book_ref: Option<u64>,
    ) -> (r: Result<Pool, AmmError>)
        ensures
            (match r {
                Ok(p) => {
                    &&& trade_fee_numerator < trade_fee_denominator
                    &&& p == (Pool {
                        status: PoolStatus::Uninitialized,
                        asset_a_vault_ref,
                        asset_b_vault_ref,
                        lp_mint_ref,
                        trade_fee_numerator,
                        trade_fee_denominator,
                        min_liquidity_floor,
                        order_book_ref,
                    })
                    &&& p.wf()
                },
                Err(e) => {
                    &&& e == AmmError::ValidationError
                    &&& trade_fee_numerator >= trade_fee_denominator
                },
            }),
    {
        if trade_fee_numerator >= trade_fee_denominator {
            return Err(AmmError::ValidationError);
        }
        Ok(
            Pool {
                status: PoolStatus::Uninitialized,
                asset_a_vault_ref,
                asset_b_vault_ref,
                lp_mint_ref,
                trade_fee_numerator,
                trade_fee_denominator,
                min_liquidity_floor,
                order_book_ref,
            },
        )
    }

    /// One-way switch: shut the pool entirely. Allowed only from
    /// `Initialized`; on failure the record is untouched.
    pub fn disable(&mut self) -> (r: Result<(), AmmError>)
        ensures
            (match r {
                Ok(()) => {
                    &&& old(self).status == PoolStatus::Initialized
                    &&& *final(self) == (Pool { status: PoolStatus::Disabled, ..*old(self) })
                },
                Err(e) => {
                    &&& e == AmmError::StateError
                    &&& old(self).status != PoolStatus::Initialized
                    &&& *final(self) == *old(self)
                },
            }),
            status_step_allowed(old(self).status, final(self).status),
    {
        if self.status != PoolStatus::Initialized {
            return Err(AmmError::StateError);
        }
        self.status = PoolStatus::Disabled;
        Ok(())
    }

    /// One-way switch: restrict the pool to withdrawals. Allowed only from
    /// `Initialized`; on failure the record is untouched.
    pub fn set_withdraw_only(&mut self) -> (r: Result<(), AmmError>)
        ensures
            (match r {
                Ok(()) => {
                    &&& old(self).status == PoolStatus::Initialized
                    &&& *final(self) == (Pool { status: PoolStatus::WithdrawOnly, ..*old(self) })
                },
                Err(e) => {
                    &&& e == AmmError::StateError
                    &&& old(self).status != PoolStatus::Initialized
                    &&& *final(self) == *old(self)
                },
            }),
            status_step_allowed(old(self).status, final(self).status),
    {
        if self.status != PoolStatus::Initialized {
            return Err(AmmError::StateError);
        }
        self.status = PoolStatus::WithdrawOnly;
        Ok(())
    }
}

/// The little-endian integer held by `n` bytes of `s` starting at `off`.
pub open spec fn le_int(s: Seq<u8>, off: int, n: nat) -> int
    recommends
        0 <= off,
        off + n <= s.len(),
    decreases n,
{
    if n == 0 {
        0
    } else {
        s[off] as int + 256 * le_int(s, off + 1, (n - 1) as nat)
    }
}

/// The little-endian value read at one place equals the value read at
/// another wherever the bytes agree.
proof fn lemma_le_int_agrees(s1: Seq<u8>, s2: Seq<u8>, off: int, n: nat)
    requires
        0 <= off,
        off + n <= s1.len(),
        off + n <= s2.len(),
        forall|i: int| off <= i < off + n ==> s1[i] == s2[i],
    ensures
        le_int(s1, off, n) == le_int(s2, off, n),
    decreases n,
{
    if n > 0 {
        lemma_le_int_agrees(s1, s2, off + 1, (n - 1) as nat);
    }
}

/// A well-formed persisted pool record: 58 bytes — a status tag, six 64-bit
/// little-endian fields, an order-book tag and the order-book reference,
/// which is zero whenever the tag says none is configured.
pub open spec fn pool_record_wf(s: Seq<u8>) -> bool {
    &&& s.len() == 58
    &&& s[0] <= 3
    &&& s[49] <= 1
    &&& (s[49] == 0 ==> le_int(s, 50, 8) == 0)
}

/// The status a record's tag byte stands for.
pub open spec fn decode_status(tag: int) -> PoolStatus {
    if tag == 0 {
        PoolStatus::Uninitialized
    } else if tag == 1 {
        PoolStatus::Initialized
    } else if tag == 2 {
        PoolStatus::Disabled
    } else {
        PoolStatus::WithdrawOnly
    }
}

/// The pool a well-formed record holds: the ground truth of the layout.
pub open spec fn decode_pool(s: Seq<u8>) -> Pool
    recommends
        pool_record_wf(s),
{
    Pool {
        status: decode_status(s[0] as int),
        asset_a_vault_ref: le_int(s, 1, 8) as u64,
        asset_b_vault_ref: le_int(s, 9, 8) as u64,
        lp_mint_ref: le_int(s, 17, 8) as u64,
        trade_fee_numerator: le_int(s, 25, 8) as u64,
        trade_fee_denominator: le_int(s, 33, 8) as u64,
        min_liquidity_floor: le_int(s, 41, 8) as u64,
        order_book_ref: if s[49] == 1 {
            Some(le_int(s, 50, 8) as u64)
        } else {
            None
        },
    }
}

/// Append one 64-bit value, least significant byte first.
fn push_u64_le(out: &mut Vec<u8>, x: u64)
    ensures
        final(out)@.len() == old(out)@.len() + 8,
        forall|i: int| 0 <= i < old(out)@.len() ==> final(out)@[i] == old(out)@[i],
        le_int(final(out)@, old(out)@.len() as int, 8) == x as int,
{
    let b0 = (x % 256) as u8;
    let x1 = x / 256;
    let b1 = (x1 % 256) as u8;
    let x2 = x1 / 256;
    let b2 = (x2 % 256) as u8;
    let x3 = x2 / 256;
    let b3 = (x3 % 256) as u8;
    let x4 = x3 / 256;
    let b4 = (x4 % 256) as u8;
    let x5 = x4 / 256;
    let b5 = (x5 % 256) as u8;
    let x6 = x5 / 256;
    let b6 = (x6 % 256) as u8;
    let x7 = x6 / 256;
    let b7 = (x7 % 256) as u8;
    out.push(b0);
    out.push(b1);
    out.push(b2);
    out.push(b3);
    out.push(b4);
    out.push(b5);
    out.push(b6);
    out.push(b7);
    proof {
        reveal_with_fuel(le_int, 9);
    }
}

/// Read the 64-bit value held little-endian by `s[off..off + 8]`.
fn read_u64_le(s: &[u8], off: usize) -> (r: u64)
    requires
        off + 8 <= s@.len(),
    ensures
        r as int == le_int(s@, off as int, 8),
{
    let b0 = s[off] as u64;
    let b1 = s[off + 1] as u64;
    let b2 = s[off + 2] as u64;
    let b3 = s[off + 3] as u64;
    let b4 = s[off + 4] as u64;
    let b5 = s[off + 5] as u64;
    let b6 = s[off + 6] as u64;
    let b7 = s[off + 7] as u64;
    proof {
        reveal_with_fuel(le_int, 9);
    }
    b0 + b1 * 256 + b2 * 65536 + b3 * 16777216 + b4 * 4294967296 + b5 * 1099511627776 + b6
        * 281474976710656 + b7 * 72057594037927936
}

impl Pool {
    /// Serialize the record into its fixed 58-byte layout. The result always
    /// decodes back to this very record.
    pub fn to_bytes(&self) -> (r: Vec<u8>)
        ensures
            pool_record_wf(r@),
            decode_pool(r@) == *self,
    {
        let mut out: Vec<u8> = Vec::new();
        let status_byte: u8 = match self.status {
            PoolStatus::Uninitialized => 0,
            PoolStatus::Initialized => 1,
            PoolStatus::Disabled => 2,
            PoolStatus::WithdrawOnly => 3,
        };
        out.push(status_byte);
        push_u64_le(&mut out, self.asset_a_vault_ref);
        let ghost snap_a = out@;
        push_u64_le(&mut out, self.asset_b_vault_ref);
        let ghost snap_b = out@;
        push_u64_le(&mut out, self.lp_mint_ref);
        let ghost snap_m = out@;
        push_u64_le(&mut out, self.trade_fee_numerator);
        let ghost snap_fn = out@;
        push_u64_le(&mut out, self.trade_fee_denominator);
        let ghost snap_fd = out@;
        push_u64_le(&mut out, self.min_liquidity_floor);
        let ghost snap_fl = out@;
        match self.order_book_ref {
            Some(ob) => {
                out.push(1u8);
                push_u64_le(&mut out, ob);
            },
            None => {
                out.push(0u8);
                push_u64_le(&mut out, 0u64);
            },
        }
        proof {
            lemma_le_int_agrees(snap_a, out@, 1, 8);
            lemma_le_int_agrees(snap_b, out@, 9, 8);
            lemma_le_int_agrees(snap_m, out@, 17, 8);
            lemma_le_int_agrees(snap_fn, out@, 25, 8);
            lemma_le_int_agrees(snap_fd, out@, 33, 8);
            lemma_le_int_agrees(snap_fl, out@, 41, 8);
        }
        out
    }

    /// Parse a persisted record; rejects anything but the exact layout
    /// [`pool_record_wf`] describes.
    pub fn from_bytes(s: &[u8]) -> (r: Option<Pool>)
        ensures
            (match r {
                Some(p) => pool_record_wf(s@) && p == decode_pool(s@),
                None => !pool_record_wf(s@),
            }),
    {
        if s.len() != 58 {
            return None;
        }
        let status = match s[0] {
            0 => PoolStatus::Uninitialized,
            1 => PoolStatus::Initialized,
            2 => PoolStatus::Disabled,
            3 => PoolStatus::WithdrawOnly,
            _ => {
                return None;
            },
        };
        let tag = s[49];
        if tag > 1 {
            return None;
        }
        let ob_raw = read_u64_le(s, 50);
        if tag == 0 && ob_raw != 0 {
            return None;
        }
        Some(
            Pool {
                status,
                asset_a_vault_ref: read_u64_le(s, 1),
                asset_b_vault_ref: read_u64_le(s, 9),
                lp_mint_ref: read_u64_le(s, 17),
                trade_fee_numerator: read_u64_le(s, 25),
                trade_fee_denominator: read_u64_le(s, 33),
                min_liquidity_floor: read_u64_le(s, 41),
                order_book_ref: if tag == 1 {
                    Some(ob_raw)
                } else {
                    None
                },
            },
        )
    }
}

} // verus!
