//! Ledger of a delegated yield strategy: principal delegated to it and the
//! value of its position as last observed, bound to one vault.

use vstd::prelude::*;
use crate::error::StrategyError;
use crate::vault::Pubkey;
use crate::bytes::{le_bytes, le_value, lemma_le_round_trip, pow256, push_all, push_le, read_array32, read_le};

verus! {

/// Precision of an unwind fraction: a fraction of one is this number.
pub const UNWIND_SCALE: u64 = 1_000_000;

/// Which protocol a strategy wraps.
#[derive(Clone, Copy, Debug, PartialEq, Eq, Structural)]
pub enum StrategyKind {
    Marinade,
    Lido,
    Mock,
}

impl StrategyKind {
    /// The byte that identifies the kind on the wire.
    pub open spec fn spec_code(self) -> u8 {
        match self {
            StrategyKind::Marinade => 0,
            StrategyKind::Lido => 1,
            StrategyKind::Mock => 255,
        }
    }

    /// The byte that identifies the kind on the wire.
    pub fn code(&self) -> (r: u8)
        ensures
            r == self.spec_code(),
    {
        match self {
            StrategyKind::Marinade => 0,
            StrategyKind::Lido => 1,
            StrategyKind::Mock => 255,
        }
    }

    /// The kind a byte identifies, if any.
    pub fn from_code(code: u8) -> (r: Option<StrategyKind>)
        ensures
            match r {
                Some(k) => k.spec_code() == code,
                None => code != 0 && code != 1 && code != 255,
            },
    {
        if code == 0 {
            Some(StrategyKind::Marinade)
        } else if code == 1 {
            Some(StrategyKind::Lido)
        } else if code == 255 {
            Some(StrategyKind::Mock)
        } else {
            None
        }
    }
}

/// What a yield strategy offers the vault. Implementations wrap a protocol;
/// each call either completes or fails with a `StrategyError`.
pub trait Strategy {
    /// Puts `amount` of underlying to work.
    fn stake(&mut self, amount: u64) -> Result<(), StrategyError>;

    /// Takes `amount` of the position back.
    fn unstake(&mut self, amount: u64) -> Result<(), StrategyError>;

    /// Collects accrued yield, returning how much was collected.
    fn harvest(&mut self) -> Result<u64, StrategyError>;

    /// Current value of the position, in underlying units.
    fn report_value(&self) -> u64;
}

/// Persistent state kept by each strategy instance.
#[derive(Clone, Copy, Debug)]
pub struct StrategyState {
    /// The only vault that may call the strategy.
    pub vault: Pubkey,
    pub kind: u8,
    /// Program of the wrapped protocol.
    pub protocol_program: Pubkey,
    /// Mint of the position token the protocol issues.
    pub position_mint: Pubkey,
    /// Underlying allocated in total.
    pub total_allocated: u64,
    /// Last reported value, in underlying units.
    pub last_report_value: u64,
    pub last_harvest_ts: i64,
    pub paused: bool,
    pub bump: u8,
}

impl StrategyState {
    /// Bytes of a serialised state.
    pub const SIZE: usize = 32 + 1 + 32 + 32 + 8 + 8 + 8 + 1 + 1;
}

/// Ledger of a strategy delegated to by one vault.
#[derive(Clone, Copy, Debug)]
pub struct StrategyAccount {
    pub bump: u8,
    /// The vault the strategy is bound to.
    pub vault: Pubkey,
    /// Principal delegated and not yet taken back.
    pub total_staked: u64,
    /// Value of the position as last observed.
    pub msol_balance: u64,
}

/// A fresh ledger bound to `vault`: nothing delegated, nothing held.
pub fn initialize(bump: u8, vault: Pubkey) -> (r: StrategyAccount)
    ensures
        r.bump == bump,
        r.vault == vault,
        r.total_staked == 0,
        r.msol_balance == 0,
{
    StrategyAccount { bump, vault, total_staked: 0, msol_balance: 0 }
}

/// Whether `amount` may be delegated: it is positive and the principal can grow by it.
pub fn check_stake(account: &StrategyAccount, amount: u64) -> (r: Result<(), StrategyError>)
    ensures
        amount == 0 ==> r == Err::<(), StrategyError>(StrategyError::ZeroAmount),
        amount > 0 && account.total_staked + amount > u64::MAX ==> r == Err::<(), StrategyError>(
            StrategyError::MathError,
        ),
        amount > 0 && account.total_staked + amount <= u64::MAX ==> r is Ok,
{
    if amount == 0 {
        return Err(StrategyError::ZeroAmount);
    }
    if account.total_staked.checked_add(amount).is_none() {
        return Err(StrategyError::MathError);
    }
    Ok(())
}

/// Records a delegation of `amount` once the strategy has taken it: the
/// principal grows by `amount` and the position is worth `position_after`, as
/// observed after the call. Fails as `check_stake` does, leaving the ledger
/// unchanged.
pub fn stake(account: &mut StrategyAccount, amount: u64, position_after: u64) -> (r: Result<
    (),
    StrategyError,
>)
    ensures
        amount == 0 ==> r == Err::<(), StrategyError>(StrategyError::ZeroAmount) && *final(account)
            == *old(account),
        amount > 0 && old(account).total_staked + amount > u64::MAX ==> r == Err::<(), StrategyError>(
            StrategyError::MathError,
        ) && *final(account) == *old(account),
        amount > 0 && old(account).total_staked + amount <= u64::MAX ==> r is Ok && *final(account)
            == (StrategyAccount {
            total_staked: (old(account).total_staked + amount) as u64,
            msol_balance: position_after,
            ..*old(account)
        }),
{
    if amount == 0 {
        return Err(StrategyError::ZeroAmount);
    }
    let total = match account.total_staked.checked_add(amount) {
        Some(t) => t,
        None => return Err(StrategyError::MathError),
    };
    account.total_staked = total;
    account.msol_balance = position_after;
    Ok(())
}

/// Whether `position_amount` of the position may be unwound: it is positive
/// and no more than is available.
pub fn unstake(position_amount: u64, position_available: u64) -> (r: Result<(), StrategyError>)
    ensures
        position_amount == 0 ==> r == Err::<(), StrategyError>(StrategyError::ZeroAmount),
        position_amount > 0 && position_available < position_amount ==> r == Err::<(), StrategyError>(
            StrategyError::InsufficientBalance,
        ),
        position_amount > 0 && position_available >= position_amount ==> r is Ok,
{
    if position_amount == 0 {
        return Err(StrategyError::ZeroAmount);
    }
    if position_available < position_amount {
        return Err(StrategyError::InsufficientBalance);
    }
    Ok(())
}

/// The part of `amount` that a scaled fraction stands for, rounded down.
pub open spec fn scaled_part(amount: int, fraction: int) -> int {
    amount * fraction / 1_000_000
}

/// Value to unwind for a fraction (scaled by `UNWIND_SCALE`) of the position.
/// Fails with `MathError` for a fraction above one.
pub fn undelegate_amount(account: &StrategyAccount, fraction: u64) -> (r: Result<u64, StrategyError>)
    ensures
        fraction > UNWIND_SCALE ==> r == Err::<u64, StrategyError>(StrategyError::MathError),
        fraction <= UNWIND_SCALE ==> r == Ok::<u64, StrategyError>(
            scaled_part(account.msol_balance as int, fraction as int) as u64,
        ),
{
    if fraction > UNWIND_SCALE {
        return Err(StrategyError::MathError);
    }
    Ok(part_of(account.msol_balance, fraction))
}

fn part_of(amount: u64, fraction: u64) -> (r: u64)
    requires
        fraction <= UNWIND_SCALE,
    ensures
        r == scaled_part(amount as int, fraction as int),
        r <= amount,
{
    assert((amount as int) * (fraction as int) / 1_000_000 <= amount) by (nonlinear_arith)
        requires
            fraction <= 1_000_000,
    ;
    ((amount as u128) * (fraction as u128) / (UNWIND_SCALE as u128)) as u64
}

/// Records a completed unwind of a fraction (scaled by `UNWIND_SCALE`) of
/// the position: the principal shrinks by that fraction of itself, and the
/// position is worth `position_after`, as observed after the call. What the
/// position holds above the remaining principal is yield kept for the
/// remaining holders; it is not reset. Fails with `MathError` for a fraction
/// above one, leaving the ledger unchanged.
pub fn complete_unstake(account: &mut StrategyAccount, fraction: u64, position_after: u64) -> (r:
    Result<u64, StrategyError>)
    ensures
        fraction > UNWIND_SCALE ==> r == Err::<u64, StrategyError>(StrategyError::MathError)
            && *final(account) == *old(account),
        fraction <= UNWIND_SCALE ==> {
            let released = scaled_part(old(account).total_staked as int, fraction as int);
            &&& r == Ok::<u64, StrategyError>(released as u64)
            &&& *final(account) == (StrategyAccount {
                total_staked: (old(account).total_staked - released) as u64,
                msol_balance: position_after,
                ..*old(account)
            })
        },
{
    if fraction > UNWIND_SCALE {
        return Err(StrategyError::MathError);
    }
    let released = part_of(account.total_staked, fraction);
    account.total_staked = account.total_staked - released;
    account.msol_balance = position_after;
    Ok(released)
}

/// Yield is carried in the position's value; harvesting moves nothing.
pub fn harvest(_account: &StrategyAccount) -> (r: u64)
    ensures
        r == 0,
{
    0
}

/// Value of the position as last observed.
pub fn report_value(account: &StrategyAccount) -> (r: u64)
    ensures
        r == account.msol_balance,
{
    account.msol_balance
}

/// Arguments of a strategy's initialisation.
#[derive(Clone, Copy, Debug)]
pub struct InitializeArgs {
    pub kind: u8,
    pub protocol_program: Pubkey,
    pub position_mint: Pubkey,
}

/// Arguments of a stake.
#[derive(Clone, Copy, Debug)]
pub struct StakeArgs {
    pub amount: u64,
}

/// Arguments of an unstake.
#[derive(Clone, Copy, Debug)]
pub struct UnstakeArgs {
    pub amount: u64,
}

/// Wire form of initialisation arguments: the kind byte, then both addresses.
pub open spec fn initialize_args_bytes(args: InitializeArgs) -> Seq<u8> {
    seq![args.kind] + args.protocol_program@ + args.position_mint@
}

proof fn lemma_pow256_eight()
    ensures
        pow256(8) == 0x1_0000_0000_0000_0000,
{
    reveal_with_fuel(pow256, 9);
}

/// Reads a little-endian `u64` from exactly eight bytes.
fn read_u64(data: &[u8]) -> (r: Option<u64>)
    ensures
        data@.len() == 8 ==> r == Some(le_value(data@) as u64) && le_value(data@) <= u64::MAX,
        data@.len() != 8 ==> r is None,
{
    if data.len() != 8 {
        return None;
    }
    let v = read_le(data, 0, 8);
    proof {
        assert(data@.subrange(0, 8) =~= data@);
        crate::bytes::lemma_le_value_bound(data@);
        lemma_pow256_eight();
    }
    Some(v as u64)
}

impl InitializeArgs {
    /// The wire form: the kind byte, then both addresses.
    pub fn try_to_vec(&self) -> (r: Vec<u8>)
        ensures
            r@ == initialize_args_bytes(*self),
    {
        let mut out: Vec<u8> = Vec::new();
        out.push(self.kind);
        push_all(&mut out, self.protocol_program.bytes.as_slice());
        push_all(&mut out, self.position_mint.bytes.as_slice());
        assert(out@ =~= initialize_args_bytes(*self));
        out
    }

    /// Reads the wire form; `None` unless `data` has exactly 65 bytes.
    pub fn try_from_slice(data: &[u8]) -> (r: Option<InitializeArgs>)
        ensures
            data@.len() == 65 <==> r is Some,
            r matches Some(a) ==> initialize_args_bytes(a) == data@,
    {
        if data.len() != 65 {
            return None;
        }
        let protocol_program = Pubkey { bytes: read_array32(data, 1) };
        let position_mint = Pubkey { bytes: read_array32(data, 33) };
        let a = InitializeArgs { kind: data[0], protocol_program, position_mint };
        assert(initialize_args_bytes(a) =~= data@);
        Some(a)
    }
}

impl StakeArgs {
    /// The wire form: the amount in eight little-endian bytes.
    pub fn try_to_vec(&self) -> (r: Vec<u8>)
        ensures
            r@ == le_bytes(self.amount as nat, 8),
    {
        let mut out: Vec<u8> = Vec::new();
        push_le(&mut out, self.amount as u128, 8);
        assert(out@ =~= le_bytes(self.amount as nat, 8));
        out
    }

    /// Reads the wire form; `None` unless `data` has exactly eight bytes.
    pub fn try_from_slice(data: &[u8]) -> (r: Option<StakeArgs>)
        ensures
            data@.len() == 8 <==> r is Some,
            r matches Some(a) ==> a.amount == le_value(data@),
    {
        match read_u64(data) {
            Some(amount) => Some(StakeArgs { amount }),
            None => None,
        }
    }
}

impl UnstakeArgs {
    /// The wire form: the amount in eight little-endian bytes.
    pub fn try_to_vec(&self) -> (r: Vec<u8>)
        ensures
            r@ == le_bytes(self.amount as nat, 8),
    {
        let mut out: Vec<u8> = Vec::new();
        push_le(&mut out, self.amount as u128, 8);
        assert(out@ =~= le_bytes(self.amount as nat, 8));
        out
    }

    /// Reads the wire form; `None` unless `data` has exactly eight bytes.
    pub fn try_from_slice(data: &[u8]) -> (r: Option<UnstakeArgs>)
        ensures
            data@.len() == 8 <==> r is Some,
            r matches Some(a) ==> a.amount == le_value(data@),
    {
        match read_u64(data) {
            Some(amount) => Some(UnstakeArgs { amount }),
            None => None,
        }
    }
}

/// An amount read back from its wire form is the amount written.
pub proof fn lemma_amount_wire_round_trip(amount: u64)
    ensures
        le_bytes(amount as nat, 8).len() == 8,
        le_value(le_bytes(amount as nat, 8)) == amount,
{
    lemma_pow256_eight();
    lemma_le_round_trip(amount as nat, 8);
}

/// Initialisation arguments read back from their wire form are the
/// arguments written: the wire form has 65 bytes, and any arguments read
/// from it carry the same kind and addresses.
pub proof fn lemma_initialize_args_round_trip(args: InitializeArgs, read: InitializeArgs)
    requires
        initialize_args_bytes(read) == initialize_args_bytes(args),
    ensures
        initialize_args_bytes(args).len() == 65,
        read.kind == args.kind,
        read.protocol_program@ == args.protocol_program@,
        read.position_mint@ == args.position_mint@,
{
    let b = initialize_args_bytes(args);
    assert(b[0] == args.kind);
    assert(initialize_args_bytes(read)[0] == read.kind);
    assert(read.protocol_program@ =~= b.subrange(1, 33));
    assert(args.protocol_program@ =~= b.subrange(1, 33));
    assert(read.position_mint@ =~= b.subrange(33, 65));
    assert(args.position_mint@ =~= b.subrange(33, 65));
}

} // verus!
