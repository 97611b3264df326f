//! Command generator: draws random commands from a seedable source, under an
//! explicit, named index policy.

use vstd::prelude::*;

use crate::simulator::Command;

verus! {

#[verifier::external_type_specification]
#[verifier::external_body]
pub struct ExGen(quickcheck::Gen);

/// Relies on quickcheck::Gen::choose: on a non-empty slice its docs guarantee
/// a non-`None` result, and the chosen value is one of the slice's elements.
#[verifier::external_body]
fn choose_byte(g: &mut quickcheck::Gen, choices: &Vec<u8>) -> (r: u8)
    requires
        choices@.len() > 0,
    ensures
        choices@.contains(r),
{
    *g.choose(choices.as_slice()).unwrap()
}

/// Relies on u8::arbitrary (quickcheck): draws a byte; any value may come
/// back and nothing is promised of it.
#[verifier::external_body]
fn arbitrary_byte(g: &mut quickcheck::Gen) -> (r: u8) {
    <u8 as quickcheck::Arbitrary>::arbitrary(g)
}

/// Whether generated indices may deliberately probe out of bounds.
#[derive(Clone, Copy, Debug, PartialEq, Eq, Structural)]
pub enum IndexPolicy {
    /// Indices are always in `[0, 4)`.
    ValidOnly,
    /// Indices are drawn from `[0, 4]`: index 4 exercises the error path.
    WithProbe,
}

/// The indices a policy lets a generated command carry.
pub open spec fn index_allowed(policy: IndexPolicy, i: u8) -> bool {
    match policy {
        IndexPolicy::ValidOnly => i < 4,
        IndexPolicy::WithProbe => i <= 4,
    }
}

/// What may come out of the generator under a policy: any `Sum` or
/// `Product`, and a `Read` or `Write` whose index the policy allows.
pub open spec fn command_in_policy(policy: IndexPolicy, command: Command) -> bool {
    match command {
        Command::Read(i) => index_allowed(policy, i),
        Command::Write(i, _) => index_allowed(policy, i),
        Command::Sum => true,
        Command::Product => true,
    }
}

/// The kind bytes a draw chooses among, one per command variant.
fn kind_choices() -> (v: Vec<u8>)
    ensures
        v@ == seq![0u8, 1u8, 2u8, 3u8],
{
    vec![0u8, 1u8, 2u8, 3u8]
}

/// The index choice set a policy configures: every valid index, and under
/// `WithProbe` also the deliberate out-of-bounds probe.
fn index_choices(policy: IndexPolicy) -> (v: Vec<u8>)
    ensures
        policy == IndexPolicy::ValidOnly ==> v@ == seq![0u8, 1u8, 2u8, 3u8],
        policy == IndexPolicy::WithProbe ==> v@ == seq![0u8, 1u8, 2u8, 3u8, 4u8],
        forall|i: int| 0 <= i < v@.len() ==> index_allowed(policy, #[trigger] v@[i]),
{
    match policy {
        IndexPolicy::ValidOnly => vec![0u8, 1u8, 2u8, 3u8],
        IndexPolicy::WithProbe => vec![0u8, 1u8, 2u8, 3u8, 4u8],
    }
}

/// The command one round of draws stands for: the kind byte picks the
/// variant, the index and value bytes fill it.
pub fn command_from_draws(kind: u8, index: u8, value: u8) -> (c: Command)
    ensures
        kind == 0 ==> c == Command::Read(index),
        kind == 1 ==> c == Command::Write(index, value),
        kind == 2 ==> c == Command::Product,
        kind != 0 && kind != 1 && kind != 2 ==> c == Command::Sum,
{
    if kind == 0 {
        Command::Read(index)
    } else if kind == 1 {
        Command::Write(index, value)
    } else if kind == 2 {
        Command::Product
    } else {
        Command::Sum
    }
}

/// Draw the next command: one of the four kinds uniformly, then — for `Read`
/// and `Write` — the index from the policy's set, then — for `Write` — the
/// value from the full byte range. Whatever the random source yields, the
/// command respects the policy. Reproducibility comes from the source: the
/// same seed and the same sequence of calls give the same commands.
pub fn generate_command(g: &mut quickcheck::Gen, policy: IndexPolicy) -> (c: Command)
    ensures
        command_in_policy(policy, c),
{
    let kinds = kind_choices();
    let kind: u8 = choose_byte(g, &kinds);
    let index: u8 = if kind == 0 || kind == 1 {
        let indices = index_choices(policy);
        choose_byte(g, &indices)
    } else {
        0
    };
    let value: u8 = if kind == 1 {
        arbitrary_byte(g)
    } else {
        0
    };
    command_from_draws(kind, index, value)
}

} // verus!
