//! The binary envelope: Pot's self-describing encoding of values.
//!
//! Pot reads a value as a tree of atoms. Each atom starts with a header: the
//! kind in the top three bits of its first byte, the low four bits of its
//! argument, and a flag for extension bytes that carry seven more bits each.
//! Before any bytes reach Pot's reader they are walked here, so that no
//! container declares more entries than bytes remain and containers nest no
//! deeper than `MAX_DEPTH`: the reader reserves room for the declared entries
//! up front and descends one call per level.

use vstd::prelude::*;

verus! {

#[verifier::external_type_specification]
#[verifier::external_body]
pub struct ExPotValue(pot::OwnedValue);

#[verifier::external_type_specification]
#[verifier::external_body]
pub struct ExPotError(pot::Error);

/// Whether Pot reads `bytes` as one well-formed value.
pub uninterp spec fn pot_accepts(bytes: Seq<u8>) -> bool;

/// The most containers that may be open at once while a value is read.
pub const MAX_DEPTH: usize = 64;

/// An open container while a value is walked.
#[derive(Clone, Copy, Debug, PartialEq, Eq, Structural)]
pub enum Frame {
    /// A container with this many atoms still to come.
    Items(u64),
    /// A map of unknown length, closed by its end marker.
    Entries,
}

/// The weight of the `k`-th extension byte of a header: the first carries
/// bits 4 to 10 of the argument.
pub open spec fn weight_at(k: nat) -> nat
    decreases k,
{
    if k <= 1 {
        16
    } else {
        weight_at((k - 1) as nat) * 128
    }
}

/// The argument and end of a header whose extension bytes start at `pos`,
/// with `acc` read so far. Headers of more than eight extension bytes are
/// refused.
pub open spec fn extension(b: Seq<u8>, pos: int, k: nat, acc: int) -> Option<(int, int)>
    decreases 9 - k,
{
    if k < 1 || k > 8 || pos < 0 || pos >= b.len() {
        None
    } else {
        let byte = b[pos] as int;
        let acc2 = acc + (byte % 128) * weight_at(k);
        if byte < 128 {
            Some((acc2, pos + 1))
        } else {
            extension(b, pos + 1, k + 1, acc2)
        }
    }
}

/// The kind, argument and end of the atom header at `pos`.
pub open spec fn header(b: Seq<u8>, pos: int) -> Option<(int, int, int)> {
    if 0 <= pos < b.len() {
        let first = b[pos] as int;
        if (first / 16) % 2 == 0 {
            Some((first / 32, first % 16, pos + 1))
        } else {
            match extension(b, pos + 1, 1, first % 16) {
                Some((arg, next)) => Some((first / 32, arg, next)),
                None => None,
            }
        }
    } else {
        None
    }
}

/// Where the walk goes on after an atom of `kind` and `arg` whose header ends
/// at `next`, with the open containers `rest`; `None` where it is refused.
/// Kinds: 0 special (none, unit, false, true, named, map of unknown length,
/// its end), 1 and 2 integers, 3 floats, 4 sequences, 5 maps, 6 symbols,
/// 7 bytes.
pub open spec fn step(b: Seq<u8>, kind: int, arg: int, next: int, rest: Seq<Frame>) -> Option<(int, Seq<Frame>)> {
    let left = b.len() - next;
    if kind == 0 {
        if arg <= 3 {
            Some((next, rest))
        } else if arg == 4 {
            Some((next, rest.push(Frame::Items(2))))
        } else if arg == 5 {
            Some((next, rest.push(Frame::Entries)))
        } else {
            None
        }
    } else if kind <= 3 {
        if arg <= 15 && arg + 1 <= left {
            Some((next + arg + 1, rest))
        } else {
            None
        }
    } else if kind == 4 {
        if arg <= left {
            Some((next, rest.push(Frame::Items(arg as u64))))
        } else {
            None
        }
    } else if kind == 5 {
        if 2 * arg <= left {
            Some((next, rest.push(Frame::Items((2 * arg) as u64))))
        } else {
            None
        }
    } else if kind == 6 {
        if arg % 2 == 1 {
            Some((next, rest))
        } else if arg / 2 <= left {
            Some((next + arg / 2, rest))
        } else {
            None
        }
    } else {
        if arg <= left {
            Some((next + arg, rest))
        } else {
            None
        }
    }
}

/// Whether the atoms from `pos` on close the open containers `stack` within
/// the bounds.
pub open spec fn scan(b: Seq<u8>, pos: int, stack: Seq<Frame>) -> bool
    decreases b.len() - pos, stack.len(),
{
    if stack.len() == 0 {
        true
    } else if stack.len() > MAX_DEPTH || pos < 0 || pos > b.len() {
        false
    } else {
        let top = stack.last();
        let below = stack.drop_last();
        if top == Frame::Items(0) {
            scan(b, pos, below)
        } else {
            match header(b, pos) {
                None => false,
                Some((kind, arg, next)) => if !(pos < next <= b.len()) {
                    false
                } else if top == Frame::Entries && kind == 0 && arg == 6 {
                    scan(b, next, below)
                } else {
                    let rest = match top {
                        Frame::Items(n) => below.push(Frame::Items((n - 1) as u64)),
                        Frame::Entries => stack,
                    };
                    match step(b, kind, arg, next, rest) {
                        Some((p, s)) => if pos < p <= b.len() {
                            scan(b, p, s)
                        } else {
                            false
                        },
                        None => false,
                    }
                },
            }
        }
    }
}

/// Bytes that Pot can be handed: a four-byte header, then one value whose
/// containers declare no more entries than bytes remain and nest at most
/// `MAX_DEPTH` deep.
pub open spec fn pot_bounded(bytes: Seq<u8>) -> bool {
    bytes.len() >= 4 && scan(bytes, 4, seq![Frame::Items(1)])
}

proof fn lemma_weight_bounds(k: nat)
    requires
        1 <= k <= 8,
    ensures
        weight_at(k) <= 0x20_0000_0000_0000,
        weight_at(k + 1) == weight_at(k) * 128,
{
    reveal_with_fuel(weight_at, 9);
    assert(weight_at(8) == 0x20_0000_0000_0000);
    if k < 8 {
        lemma_weight_monotone(k, 8);
    }
}

proof fn lemma_weight_monotone(k: nat, m: nat)
    requires
        1 <= k <= m,
    ensures
        weight_at(k) <= weight_at(m),
    decreases m - k,
{
    if k < m {
        lemma_weight_monotone(k, (m - 1) as nat);
        assert(weight_at(m) == weight_at((m - 1) as nat) * 128);
    }
}

/// Reads the atom header at `pos`.
fn read_header(b: &[u8], pos: usize) -> (r: Option<(u8, u64, usize)>)
    requires
        pos < b@.len(),
    ensures
        match r {
            Some((kind, arg, next)) => header(b@, pos as int) == Some((kind as int, arg as int, next as int))
                && pos < next <= b@.len(),
            None => header(b@, pos as int) is None,
        },
{
    let first = b[pos];
    assert(first == b@[pos as int]);
    let kind = first / 32;
    let low = (first % 16) as u64;
    if (first / 16) % 2 == 0 {
        return Some((kind, low, pos + 1));
    }
    let mut acc: u64 = low;
    let mut weight: u64 = 16;
    let mut k: usize = 1;
    let mut p: usize = pos + 1;
    while k <= 8
        invariant
            1 <= k <= 9,
            p == pos + k,
            first == b@[pos as int],
            kind == first / 32,
            pos < b@.len(),
            weight == weight_at(k as nat),
            acc < weight,
            weight <= 0x1000_0000_0000_0000,
            header(b@, pos as int) == (match extension(b@, p as int, k as nat, acc as int) {
                Some((arg, next)) => Some((first as int / 32, arg, next)),
                None => None::<(int, int, int)>,
            }),
        decreases 9 - k,
    {
        if p >= b.len() {
            return None;
        }
        let byte = b[p];
        let data = (byte % 128) as u64;
        proof {
            lemma_weight_bounds(k as nat);
            assert(data * weight <= 127 * weight) by (nonlinear_arith)
                requires
                    data <= 127,
            ;
        }
        let ghost acc0 = acc as int;
        acc = acc + data * weight;
        assert(b@[p as int] == byte);
        assert(acc as int == acc0 + (byte as int % 128) * weight_at(k as nat));
        assert(extension(b@, p as int, k as nat, acc0) == if byte < 128 {
            Some((acc as int, p + 1))
        } else {
            extension(b@, p + 1, (k + 1) as nat, acc as int)
        });
        if byte < 128 {
            return Some((kind, acc, p + 1));
        }
        weight = weight * 128;
        k = k + 1;
        p = p + 1;
    }
    None
}

/// Walks the atoms of `bytes`: whether they can be handed to Pot.
pub fn is_bounded(bytes: &[u8]) -> (r: bool)
    ensures
        r == pot_bounded(bytes@),
{
    if bytes.len() < 4 {
        return false;
    }
    let ghost b = bytes@;
    let mut stack: Vec<Frame> = Vec::new();
    stack.push(Frame::Items(1));
    let mut pos: usize = 4;
    assert(stack@ =~= seq![Frame::Items(1)]);
    loop
        invariant
            b == bytes@,
            4 <= pos <= b.len(),
            stack@.len() <= MAX_DEPTH + 1,
            scan(b, pos as int, stack@) == pot_bounded(b),
        decreases b.len() - pos, stack@.len(),
    {
        let depth = stack.len();
        if depth == 0 {
            return true;
        }
        if depth > MAX_DEPTH {
            return false;
        }
        let ghost old_stack = stack@;
        let ghost old_pos = pos as int;
        let top = stack[depth - 1];
        assert(top == old_stack.last());
        if top == Frame::Items(0) {
            stack.pop();
            assert(stack@ =~= old_stack.drop_last());
            continue;
        }
        if pos >= bytes.len() {
            return false;
        }
        let (kind, arg, next) = match read_header(bytes, pos) {
            None => {
                return false;
            },
            Some(h) => h,
        };
        if top == Frame::Entries && kind == 0 && arg == 6 {
            stack.pop();
            assert(stack@ =~= old_stack.drop_last());
            pos = next;
            continue;
        }
        match top {
            Frame::Items(n) => {
                stack.pop();
                stack.push(Frame::Items(n - 1));
                assert(stack@ =~= old_stack.drop_last().push(Frame::Items((n - 1) as u64)));
            },
            Frame::Entries => {},
        }
        let ghost rest = stack@;
        let left = bytes.len() - next;
        if kind == 0 {
            if arg <= 3 {
            } else if arg == 4 {
                stack.push(Frame::Items(2));
            } else if arg == 5 {
                stack.push(Frame::Entries);
            } else {
                return false;
            }
            pos = next;
        } else if kind <= 3 {
            if arg <= 15 && arg + 1 <= left as u64 {
                pos = next + arg as usize + 1;
            } else {
                return false;
            }
        } else if kind == 4 {
            if arg <= left as u64 {
                stack.push(Frame::Items(arg));
                pos = next;
            } else {
                return false;
            }
        } else if kind == 5 {
            if arg <= (left / 2) as u64 {
                stack.push(Frame::Items(2 * arg));
                pos = next;
            } else {
                return false;
            }
        } else if kind == 6 {
            if arg % 2 == 1 {
                pos = next;
            } else if arg / 2 <= left as u64 {
                pos = next + (arg / 2) as usize;
            } else {
                return false;
            }
        } else {
            if arg <= left as u64 {
                pos = next + arg as usize;
            } else {
                return false;
            }
        }
        assert(step(b, kind as int, arg as int, next as int, rest) == Some((pos as int, stack@)));
        assert(scan(b, old_pos, old_stack) == scan(b, pos as int, stack@));
    }
}

/// Relies on `pot::from_slice` into `pot::OwnedValue`: whether it succeeds
/// depends on the bytes alone. Pot reserves room for as many entries as a
/// container declares and descends one call per level of nesting, so the bytes
/// must be bounded.
#[verifier::external_body]
fn pot_from_slice(bytes: &[u8]) -> (r: Result<pot::OwnedValue, pot::Error>)
    requires
        pot_bounded(bytes@),
    ensures
        r is Ok <==> pot_accepts(bytes@),
{
    pot::from_slice(bytes)
}

/// Relies on `pot::to_vec` on a `pot::OwnedValue`: the value always writes
/// the lengths of its sequences and maps, a `Vec` takes every write, the
/// four-byte header comes first, and Pot reads back what it wrote.
#[verifier::external_body]
fn pot_to_vec(value: &pot::OwnedValue) -> (r: Result<Vec<u8>, pot::Error>)
    ensures
        r is Ok,
        r matches Ok(b) ==> b@.len() >= 4 && pot_accepts(b@),
{
    pot::to_vec(value)
}

/// Why bytes do not decode to an envelope value.
#[derive(Debug)]
pub enum DecodeError {
    /// A container declares more entries than bytes remain, the containers
    /// nest deeper than `MAX_DEPTH`, or the atoms run past the end.
    Unbounded,
    /// Pot refused the bytes.
    Malformed(pot::Error),
}

/// The value cannot be represented in the envelope.
#[derive(Debug)]
pub struct EncodeError {
    pub cause: pot::Error,
}

/// Reads a dynamic value from its envelope bytes.
pub fn decode_dynamic(bytes: &[u8]) -> (r: Result<pot::OwnedValue, DecodeError>)
    ensures
        r is Ok <==> pot_bounded(bytes@) && pot_accepts(bytes@),
        !pot_bounded(bytes@) ==> (r matches Err(DecodeError::Unbounded)),
{
    if !is_bounded(bytes) {
        return Err(DecodeError::Unbounded);
    }
    match pot_from_slice(bytes) {
        Ok(v) => Ok(v),
        Err(cause) => Err(DecodeError::Malformed(cause)),
    }
}

/// Writes a dynamic value as envelope bytes, which Pot reads back.
pub fn encode_dynamic(value: &pot::OwnedValue) -> (r: Result<Vec<u8>, EncodeError>)
    ensures
        r is Ok,
        r matches Ok(b) ==> b@.len() >= 4 && pot_accepts(b@),
{
    match pot_to_vec(value) {
        Ok(b) => Ok(b),
        Err(cause) => Err(EncodeError { cause }),
    }
}

} // verus!
