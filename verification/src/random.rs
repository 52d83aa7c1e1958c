//! Numbers from the random source of the operating system.

use vstd::prelude::*;

verus! {

/// The error that the random source reports.
#[verifier::external_type_specification]
#[verifier::external_body]
pub struct ExGetrandomError(getrandom::Error);

/// Why no random number could be had.
#[derive(Debug, Clone, Copy)]
pub enum RandomError {
    /// The operating system has refused.
    Source(getrandom::Error),
}

/// Fills the bytes of `number`, seen through `bytemuck::bytes_of_mut`, with
/// `getrandom::getrandom`. The number is chosen by the operating system, and nothing is claimed
/// of it; nor is it claimed that the source answers.
#[verifier::external_body]
fn fill(number: &mut u64) -> (r: Result<(), getrandom::Error>) {
    getrandom::getrandom(bytemuck::bytes_of_mut(number))
}

/// The outcome of a draw: the number, if the source has filled it, or else what the source has
/// reported.
pub fn drawn(filled: Result<(), getrandom::Error>, number: u64) -> (r: Result<u64, RandomError>)
    ensures
        r == match filled {
            Ok(_) => Ok::<u64, RandomError>(number),
            Err(e) => Err::<u64, RandomError>(RandomError::Source(e)),
        },
{
    match filled {
        Ok(_) => Ok(number),
        Err(e) => Err(RandomError::Source(e)),
    }
}

/// A random number: what [`drawn`] makes of eight bytes that the source was asked to fill. Any
/// number may come back, and so may an error.
pub fn random_number() -> (r: Result<u64, RandomError>) {
    let mut number: u64 = 0;
    let filled = fill(&mut number);
    drawn(filled, number)
}

} // verus!
