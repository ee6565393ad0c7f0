use vstd::prelude::*;

verus! {

/// Advances the block counter by one block.
pub fn run_next_block(block_number: &mut u64)
    requires
        *old(block_number) < u64::MAX,
    ensures
        *final(block_number) == *old(block_number) + 1,
{
    let target = *block_number + 1;
    run_to_block(block_number, target);
}

/// Advances the block counter block by block until it reaches `n`; a counter
/// at or past `n` stays where it is.
pub fn run_to_block(block_number: &mut u64, n: u64)
    ensures
        *final(block_number) == if *old(block_number) < n {
            n
        } else {
            *old(block_number)
        },
{
    while *block_number < n
        invariant
            *old(block_number) <= *block_number,
            *old(block_number) < n ==> *block_number <= n,
            *old(block_number) >= n ==> *block_number == *old(block_number),
        decreases n - *block_number,
    {
        *block_number = *block_number + 1;
    }
}

} // verus!
