//! Detours: the bytes that redirect a function, and those that still reach what it was.
//!
//! A function is redirected by a jump over its first instructions. The bytes it
//! covers are copied to a trampoline, which continues behind them.

use vstd::prelude::*;

verus! {

/// Bytes of an absolute jump (64-bit).
pub const JUMP_64: usize = 14;

/// Bytes of a relative jump (32-bit).
pub const JUMP_32: usize = 5;

/// Byte `k` of a number, lowest first.
pub open spec fn byte_of(x: int, k: nat) -> u8
    decreases k,
{
    if k == 0 {
        (x % 256) as u8
    } else {
        byte_of(x / 256, (k - 1) as nat)
    }
}

/// The lowest `n` bytes of a number, lowest first.
pub open spec fn le_bytes(x: int, n: nat) -> Seq<u8> {
    Seq::new(n, |k: int| byte_of(x, k as nat))
}

fn push_le(out: &mut Vec<u8>, x: u64, n: usize)
    ensures
        final(out)@ == old(out)@ + le_bytes(x as int, n as nat),
    decreases n,
{
    if n == 0 {
        assert(out@ =~= old(out)@ + le_bytes(x as int, 0));
    } else {
        out.push((x % 256) as u8);
        let ghost first = out@;
        push_le(out, x / 256, n - 1);
        assert(le_bytes(x as int, n as nat) =~= seq![(x % 256) as u8] + le_bytes(
            (x / 256) as int,
            (n - 1) as nat,
        ));
        assert(out@ =~= old(out)@ + le_bytes(x as int, n as nat));
    }
}

/// An absolute jump: through the address that stands right behind the instruction.
pub open spec fn jump_64(target: int) -> Seq<u8> {
    seq![0xFFu8, 0x25u8, 0u8, 0u8, 0u8, 0u8] + le_bytes(target, 8)
}

/// A jump by `distance` from the end of the instruction, modulo 2^32.
pub open spec fn jump_32(distance: int) -> Seq<u8> {
    seq![0xE9u8] + le_bytes(distance % 0x1_0000_0000, 4)
}

/// The bytes of an absolute jump to `target`.
pub fn jump_to(target: u64) -> (code: Vec<u8>)
    ensures
        code@ == jump_64(target as int),
        code@.len() == JUMP_64,
{
    let mut code: Vec<u8> = Vec::new();
    code.push(0xFF);
    code.push(0x25);
    code.push(0);
    code.push(0);
    code.push(0);
    code.push(0);
    assert(code@ =~= seq![0xFFu8, 0x25u8, 0u8, 0u8, 0u8, 0u8]);
    push_le(&mut code, target, 8);
    code
}

/// The bytes of a relative jump from `from` to `target`.
pub fn jump_from_to(from: u32, target: u32) -> (code: Vec<u8>)
    ensures
        code@ == jump_32(target - (from + JUMP_32)),
        code@.len() == JUMP_32,
{
    let mut code: Vec<u8> = Vec::new();
    code.push(0xE9);
    assert(code@ =~= seq![0xE9u8]);
    let distance: u64 = (0x2_0000_0000u64 + target as u64 - (from as u64 + 5)) % 0x1_0000_0000;
    assert(distance == (target - (from + JUMP_32)) % 0x1_0000_0000);
    push_le(&mut code, distance, 4);
    code
}

/// What a detour writes.
#[derive(Debug)]
pub struct Detour {
    /// Written over the start of the function.
    pub patch: Vec<u8>,
    /// Written to the trampoline.
    pub trampoline: Vec<u8>,
}

/// Why no detour can be made.
#[derive(Debug, Clone, Copy, PartialEq, Eq, Structural)]
pub enum DetourError {
    /// The function or the hook has no address.
    NullPointer,
}

/// A detour of the function at `target_fn`, whose first bytes are `stolen`, to the one at
/// `hook_fn`.
pub fn make_detour_14(target_fn: u64, hook_fn: u64, stolen: &Vec<u8>) -> (r: Result<
    Detour,
    DetourError,
>)
    requires
        stolen@.len() == JUMP_64,
        target_fn + JUMP_64 <= u64::MAX,
    ensures
        r is Err == (target_fn == 0 || hook_fn == 0),
        r is Ok ==> {
            &&& (r->Ok_0).patch@ == jump_64(hook_fn as int)
            &&& (r->Ok_0).trampoline@ == stolen@ + jump_64(target_fn + JUMP_64)
        },
{
    if target_fn == 0 || hook_fn == 0 {
        return Err(DetourError::NullPointer);
    }
    let mut trampoline: Vec<u8> = Vec::new();
    trampoline.extend_from_slice(stolen.as_slice());
    assert(trampoline@ =~= stolen@);
    let mut back = jump_to(target_fn + JUMP_64 as u64);
    trampoline.append(&mut back);
    Ok(Detour { patch: jump_to(hook_fn), trampoline })
}

/// A detour in 32-bit code; the trampoline is to stand at `trampoline_at`.
pub fn make_detour_5(target_fn: u32, hook_fn: u32, stolen: &Vec<u8>, trampoline_at: u32) -> (r: Result<
    Detour,
    DetourError,
>)
    requires
        stolen@.len() == JUMP_32,
        target_fn + JUMP_32 <= u32::MAX,
        trampoline_at + JUMP_32 <= u32::MAX,
    ensures
        r is Err == (target_fn == 0 || hook_fn == 0),
        r is Ok ==> {
            &&& (r->Ok_0).patch@ == jump_32(hook_fn - (target_fn + JUMP_32))
            &&& (r->Ok_0).trampoline@ == stolen@ + jump_32(
                (target_fn + JUMP_32) - (trampoline_at + JUMP_32 + JUMP_32),
            )
        },
{
    if target_fn == 0 || hook_fn == 0 {
        return Err(DetourError::NullPointer);
    }
    let mut trampoline: Vec<u8> = Vec::new();
    trampoline.extend_from_slice(stolen.as_slice());
    assert(trampoline@ =~= stolen@);
    let mut back = jump_from_to(trampoline_at + 5, target_fn + 5);
    trampoline.append(&mut back);
    Ok(Detour { patch: jump_from_to(target_fn, hook_fn), trampoline })
}

/// The number that the bytes of a jump stand for.
pub open spec fn number_of(bytes: Seq<u8>) -> int
    decreases bytes.len(),
{
    if bytes.len() == 0 {
        0
    } else {
        bytes[0] + 256 * number_of(bytes.drop_first())
    }
}

pub(crate) proof fn lemma_number_of_le_bytes(x: int, n: nat)
    requires
        x >= 0,
    ensures
        number_of(le_bytes(x, n)) == x % vstd::arithmetic::power::pow(256, n),
    decreases n,
{
    reveal(vstd::arithmetic::power::pow);
    vstd::arithmetic::power::lemma_pow_positive(256, n);
    if n == 0 {
        assert(x % 1 == 0);
    } else {
        let m = (n - 1) as nat;
        vstd::arithmetic::power::lemma_pow_positive(256, m);
        let p = vstd::arithmetic::power::pow(256, m);
        assert(le_bytes(x, n).drop_first() =~= le_bytes(x / 256, m));
        lemma_number_of_le_bytes(x / 256, m);
        vstd::arithmetic::div_mod::lemma_breakdown(x, 256, p);
    }
}

/// The address behind the instruction of an absolute jump is where it leads.
pub proof fn law_jump_leads_to_its_target(target: u64)
    ensures
        number_of(jump_64(target as int).subrange(6, 14)) == target,
{
    assert(jump_64(target as int).subrange(6, 14) =~= le_bytes(target as int, 8));
    lemma_number_of_le_bytes(target as int, 8);
    reveal_with_fuel(vstd::arithmetic::power::pow, 9);
    vstd::arithmetic::div_mod::lemma_small_mod(target as nat, 0x1_0000_0000_0000_0000nat);
    assert(vstd::arithmetic::power::pow(256, 8) == 0x1_0000_0000_0000_0000);
}

} // verus!
