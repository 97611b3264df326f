//! Reference model: the local, trusted implementation of the protocol's
//! memory semantics, used as an oracle against the remote.

use vstd::prelude::*;

verus! {

/// Errors the reference model can report.
#[derive(Clone, Copy, Debug, PartialEq, Eq, Structural)]
pub enum Error {
    /// Read out of bounds.
    InvalidRead,
    /// Write out of bounds.
    InvalidWrite,
    /// Integer overflow during `Sum` or `Product`.
    Overflow,
}

/// The command domain: the four operations of the protocol.
#[derive(Clone, Copy, Debug, PartialEq, Eq, Structural)]
pub enum Command {
    /// Read a byte at the given index.
    Read(u8),
    /// Write a byte (2nd value) at the given index (1st value).
    Write(u8, u8),
    /// Sum all values in memory.
    Sum,
    /// Multiply all values in memory.
    Product,
}

/// Reference model for the remote: exactly 4 byte cells, all zero at start.
pub struct Simulator([u8; 4]);

impl View for Simulator {
    type V = Seq<u8>;

    closed spec fn view(&self) -> Seq<u8> {
        self.0@
    }
}

/// Left-to-right checked 8-bit addition over the cells, starting from `acc`:
/// `None` the moment a partial sum would exceed 255.
pub open spec fn checked_sum(cells: Seq<u8>, acc: u8) -> Option<u8>
    decreases cells.len(),
{
    if cells.len() == 0 {
        Some(acc)
    } else if acc + cells[0] <= 255 {
        checked_sum(cells.drop_first(), (acc + cells[0]) as u8)
    } else {
        None
    }
}

/// Left-to-right checked 8-bit multiplication over the cells, starting from
/// `acc`: `None` the moment a partial product would exceed 255.
pub open spec fn checked_product(cells: Seq<u8>, acc: u8) -> Option<u8>
    decreases cells.len(),
{
    if cells.len() == 0 {
        Some(acc)
    } else if acc * cells[0] <= 255 {
        checked_product(cells.drop_first(), (acc * cells[0]) as u8)
    } else {
        None
    }
}

/// The outcome a command has on a given memory, per the protocol.
pub open spec fn spec_outcome(mem: Seq<u8>, command: Command) -> Result<u8, Error> {
    match command {
        Command::Read(i) => if i < 4 {
            Ok(mem[i as int])
        } else {
            Err(Error::InvalidRead)
        },
        Command::Write(i, v) => if i < 4 {
            Ok(v)
        } else {
            Err(Error::InvalidWrite)
        },
        Command::Sum => match checked_sum(mem, 0) {
            Some(s) => Ok(s),
            None => Err(Error::Overflow),
        },
        Command::Product => match checked_product(mem, 1) {
            Some(p) => Ok(p),
            None => Err(Error::Overflow),
        },
    }
}

/// The memory a command leaves behind: only an in-bounds `Write` mutates.
pub open spec fn spec_memory_after(mem: Seq<u8>, command: Command) -> Seq<u8> {
    match command {
        Command::Write(i, v) => if i < 4 {
            mem.update(i as int, v)
        } else {
            mem
        },
        _ => mem,
    }
}

/// The exact, unbounded sum of the first `k` cells, in declaration order.
pub open spec fn prefix_sum(cells: Seq<u8>, k: int) -> int
    decreases k,
{
    if k <= 0 {
        0
    } else {
        prefix_sum(cells, k - 1) + cells[k - 1]
    }
}

/// The exact, unbounded product of the first `k` cells, in declaration
/// order.
pub open spec fn prefix_product(cells: Seq<u8>, k: int) -> int
    decreases k,
{
    if k <= 0 {
        1
    } else {
        prefix_product(cells, k - 1) * cells[k - 1]
    }
}

proof fn lemma_prefix_sum_shift(cells: Seq<u8>, k: int)
    requires
        cells.len() > 0,
        0 <= k < cells.len(),
    ensures
        prefix_sum(cells.drop_first(), k) + cells[0] == prefix_sum(cells, k + 1),
    decreases k,
{
    if k == 0 {
        assert(prefix_sum(cells.drop_first(), 0) == 0);
        assert(prefix_sum(cells, 0) == 0);
    } else {
        lemma_prefix_sum_shift(cells, k - 1);
        assert(cells.drop_first()[k - 1] == cells[k]);
    }
}

proof fn lemma_prefix_product_nonneg(cells: Seq<u8>, k: int)
    ensures
        prefix_product(cells, k) >= 0,
    decreases k,
{
    if k > 0 {
        lemma_prefix_product_nonneg(cells, k - 1);
        assert(prefix_product(cells, k - 1) * cells[k - 1] >= 0) by (nonlinear_arith)
            requires
                prefix_product(cells, k - 1) >= 0,
                cells[k - 1] >= 0,
        ;
    }
}

proof fn lemma_prefix_product_shift(cells: Seq<u8>, k: int)
    requires
        cells.len() > 0,
        0 <= k < cells.len(),
    ensures
        prefix_product(cells.drop_first(), k) * cells[0] == prefix_product(cells, k + 1),
    decreases k,
{
    if k == 0 {
        assert(prefix_product(cells.drop_first(), 0) == 1);
        assert(prefix_product(cells, 0) == 1);
    } else {
        lemma_prefix_product_shift(cells, k - 1);
        assert(cells.drop_first()[k - 1] == cells[k]);
        assert(prefix_product(cells.drop_first(), k - 1) * cells[k] * cells[0] == prefix_product(
            cells,
            k,
        ) * cells[k]) by (nonlinear_arith)
            requires
                prefix_product(cells.drop_first(), k - 1) * cells[0] == prefix_product(cells, k),
        ;
    }
}

proof fn lemma_checked_sum_characterization(cells: Seq<u8>, acc: u8)
    ensures
        checked_sum(cells, acc) == (
        if forall|k: int| 1 <= k <= cells.len() ==> acc + #[trigger] prefix_sum(cells, k) <= 255 {
            Some((acc + prefix_sum(cells, cells.len() as int)) as u8)
        } else {
            None::<u8>
        }),
    decreases cells.len(),
{
    if cells.len() == 0 {
    } else {
        let rest = cells.drop_first();
        assert(prefix_sum(cells, 0) == 0);
        assert(prefix_sum(cells, 1) == cells[0]);
        assert forall|k: int| 0 <= k < cells.len() implies prefix_sum(rest, k) + cells[0]
            == prefix_sum(cells, k + 1) by {
            lemma_prefix_sum_shift(cells, k);
        }
        if acc + cells[0] <= 255 {
            let acc2 = (acc + cells[0]) as u8;
            lemma_checked_sum_characterization(rest, acc2);
            if forall|k: int| 1 <= k <= cells.len() ==> acc + #[trigger] prefix_sum(cells, k)
                <= 255 {
                assert forall|k: int| 1 <= k <= rest.len() implies acc2 + #[trigger] prefix_sum(
                    rest,
                    k,
                ) <= 255 by {
                    assert(acc + prefix_sum(cells, k + 1) <= 255);
                }
                assert(acc2 + prefix_sum(rest, rest.len() as int) == acc + prefix_sum(
                    cells,
                    cells.len() as int,
                ));
            } else {
                let k0 = choose|k: int|
                    1 <= k <= cells.len() && acc + prefix_sum(cells, k) > 255;
                assert(k0 >= 2);
                assert(acc2 + prefix_sum(rest, k0 - 1) > 255);
            }
        } else {
            assert(acc + prefix_sum(cells, 1) > 255);
        }
    }
}

proof fn lemma_checked_product_characterization(cells: Seq<u8>, acc: u8)
    ensures
        checked_product(cells, acc) == (
        if forall|k: int|
            1 <= k <= cells.len() ==> acc * #[trigger] prefix_product(cells, k) <= 255 {
            Some((acc * prefix_product(cells, cells.len() as int)) as u8)
        } else {
            None::<u8>
        }),
    decreases cells.len(),
{
    lemma_prefix_product_nonneg(cells, cells.len() as int);
    if cells.len() == 0 {
    } else {
        let rest = cells.drop_first();
        assert(prefix_product(cells, 0) == 1);
        assert(prefix_product(cells, 1) == cells[0]);
        assert forall|k: int| 0 <= k < cells.len() implies prefix_product(rest, k) * cells[0]
            == prefix_product(cells, k + 1) by {
            lemma_prefix_product_shift(cells, k);
        }
        if acc * cells[0] <= 255 {
            let acc2 = (acc * cells[0]) as u8;
            assert(acc * cells[0] >= 0) by (nonlinear_arith)
                requires
                    acc >= 0,
                    cells[0] >= 0,
            ;
            lemma_checked_product_characterization(rest, acc2);
            assert forall|k: int| 0 <= k < cells.len() implies acc2 * prefix_product(rest, k)
                == acc * prefix_product(cells, k + 1) by {
                assert(acc2 * prefix_product(rest, k) == acc * (prefix_product(rest, k) * cells[0]))
                    by (nonlinear_arith)
                    requires
                        acc2 == acc * cells[0],
                ;
            }
            if forall|k: int|
                1 <= k <= cells.len() ==> acc * #[trigger] prefix_product(cells, k) <= 255 {
                assert forall|k: int| 1 <= k <= rest.len() implies acc2 * #[trigger] prefix_product(
                    rest,
                    k,
                ) <= 255 by {
                    assert(acc * prefix_product(cells, k + 1) <= 255);
                    assert(acc2 * prefix_product(rest, k) == acc * prefix_product(cells, k + 1));
                }
                assert(acc2 * prefix_product(rest, rest.len() as int) == acc * prefix_product(
                    cells,
                    cells.len() as int,
                ));
            } else {
                let k0 = choose|k: int|
                    1 <= k <= cells.len() && acc * prefix_product(cells, k) > 255;
                assert(k0 >= 2);
                assert(acc2 * prefix_product(rest, k0 - 1) > 255);
                assert(!(forall|k: int|
                    1 <= k <= rest.len() ==> acc2 * #[trigger] prefix_product(rest, k) <= 255));
            }
        } else {
            assert(acc * prefix_product(cells, 1) > 255);
        }
    }
}

/// Law: `Sum` returns exactly the left-to-right sum of the cells when every
/// running total fits in a byte, and `Overflow` the moment one would not —
/// never a wrap or a truncation, and never later than the first offending
/// step.
pub proof fn lemma_sum_exact(mem: Seq<u8>)
    ensures
        (forall|k: int| 1 <= k <= mem.len() ==> #[trigger] prefix_sum(mem, k) <= 255)
            ==> spec_outcome(mem, Command::Sum) == Ok::<u8, Error>(
            prefix_sum(mem, mem.len() as int) as u8,
        ),
        (exists|k: int| 1 <= k <= mem.len() && #[trigger] prefix_sum(mem, k) > 255)
            ==> spec_outcome(mem, Command::Sum) == Err::<u8, Error>(Error::Overflow),
{
    lemma_checked_sum_characterization(mem, 0);
}

/// Law: `Product` returns exactly the left-to-right product of the cells
/// when every running product fits in a byte, and `Overflow` the moment one
/// would not — even when a later zero cell would bring the exact product
/// back into range.
pub proof fn lemma_product_exact(mem: Seq<u8>)
    ensures
        (forall|k: int| 1 <= k <= mem.len() ==> #[trigger] prefix_product(mem, k) <= 255)
            ==> spec_outcome(mem, Command::Product) == Ok::<u8, Error>(
            prefix_product(mem, mem.len() as int) as u8,
        ),
        (exists|k: int| 1 <= k <= mem.len() && #[trigger] prefix_product(mem, k) > 255)
            ==> spec_outcome(mem, Command::Product) == Err::<u8, Error>(Error::Overflow),
{
    lemma_checked_product_characterization(mem, 1);
}

/// Law: writing `v` at a valid index and then reading that index gives `v`
/// back.
pub proof fn lemma_write_then_read(mem: Seq<u8>, i: u8, v: u8)
    requires
        mem.len() == 4,
        i < 4,
    ensures
        spec_outcome(mem, Command::Write(i, v)) == Ok::<u8, Error>(v),
        spec_outcome(spec_memory_after(mem, Command::Write(i, v)), Command::Read(i)) == Ok::<
            u8,
            Error,
        >(v),
{
}

/// Law: any index at or beyond the 4 cells is rejected — a `Read` with
/// `InvalidRead`, a `Write` with `InvalidWrite` — and the memory is never
/// touched, let alone clamped.
pub proof fn lemma_out_of_bounds_rejected(mem: Seq<u8>, i: u8, v: u8)
    requires
        i >= 4,
    ensures
        spec_outcome(mem, Command::Read(i)) == Err::<u8, Error>(Error::InvalidRead),
        spec_outcome(mem, Command::Write(i, v)) == Err::<u8, Error>(Error::InvalidWrite),
        spec_memory_after(mem, Command::Write(i, v)) == mem,
        spec_memory_after(mem, Command::Read(i)) == mem,
{
}

impl Simulator {
    /// Create a new [`Simulator`] with all 4 cells zero.
    pub fn new() -> (s: Self)
        ensures
            s@ == seq![0u8, 0u8, 0u8, 0u8],
    {
        Self([0; 4])
    }

    /// Execute a [`Command`] on the [`Simulator`]: the outcome and the new
    /// memory are exactly those of the protocol's semantics.
    pub fn execute_command(&mut self, command: &Command) -> (r: Result<u8, Error>)
        ensures
            r == spec_outcome(old(self)@, *command),
            final(self)@ == spec_memory_after(old(self)@, *command),
        no_unwind
    {
        match command {
            Command::Read(location) => {
                if *location < 4 {
                    Ok(self.0[*location as usize])
                } else {
                    Err(Error::InvalidRead)
                }
            },
            Command::Write(location, value) => {
                if *location < 4 {
                    self.0[*location as usize] = *value;
                    Ok(*value)
                } else {
                    Err(Error::InvalidWrite)
                }
            },
            Command::Sum => {
                let mut acc: u8 = 0;
                let mut i: usize = 0;
                proof {
                    assert(self@.skip(0) =~= self@);
                }
                while i < 4
                    invariant
                        i <= 4,
                        *command == Command::Sum,
                        self.0 == old(self).0,
                        checked_sum(old(self)@, 0) == checked_sum(self@.skip(i as int), acc),
                    decreases 4 - i,
                {
                    proof {
                        assert(self@.skip(i as int).drop_first() =~= self@.skip(i as int + 1));
                    }
                    let partial: u16 = acc as u16 + self.0[i] as u16;
                    if partial <= 255 {
                        acc = partial as u8;
                    } else {
                        return Err(Error::Overflow);
                    }
                    i = i + 1;
                }
                Ok(acc)
            },
            Command::Product => {
                let mut acc: u8 = 1;
                let mut i: usize = 0;
                proof {
                    assert(self@.skip(0) =~= self@);
                }
                while i < 4
                    invariant
                        i <= 4,
                        *command == Command::Product,
                        self.0 == old(self).0,
                        checked_product(old(self)@, 1) == checked_product(self@.skip(i as int), acc),
                    decreases 4 - i,
                {
                    proof {
                        assert(self@.skip(i as int).drop_first() =~= self@.skip(i as int + 1));
                    }
                    proof {
                        assert(acc * self.0[i as int] <= 255 * 255) by (nonlinear_arith)
                            requires
                                acc <= 255,
                                self.0[i as int] <= 255,
                        ;
                    }
                    let partial: u16 = acc as u16 * self.0[i] as u16;
                    if partial <= 255 {
                        acc = partial as u8;
                    } else {
                        return Err(Error::Overflow);
                    }
                    i = i + 1;
                }
                Ok(acc)
            },
        }
    }
}

} // verus!
