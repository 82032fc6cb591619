//! Decisions of the audio graph: how an impulse response's channels feed the
//! stereo convolvers, and in which blocks a host buffer is processed.
use vstd::prelude::*;

verus! {

/// Which channel of the impulse response each of the two (left, right)
/// convolvers uses: a mono response feeds both sides, a stereo one feeds each
/// side from its own channel. Other channel counts are not supported (`None`).
pub fn ir_channel_routing(num_channels: usize) -> (r: Option<(usize, usize)>)
    ensures
        num_channels == 1 ==> r == Some((0usize, 0usize)),
        num_channels == 2 ==> r == Some((0usize, 1usize)),
        num_channels != 1 && num_channels != 2 ==> r is None,
{
    if num_channels == 1 {
        Some((0, 0))
    } else if num_channels == 2 {
        Some((0, 1))
    } else {
        None
    }
}

/// `blocks` are consecutive `(start, length)` blocks from `0` to `size`, all
/// of length `max_block` except the last, which holds between one sample and
/// `max_block` samples.
pub open spec fn is_block_schedule(blocks: Seq<(usize, usize)>, size: nat, max_block: nat) -> bool {
    &&& blocks.len() == 0 <==> size == 0
    &&& blocks.len() > 0 ==> blocks[0].0 == 0
    &&& forall|k: int|
        0 <= k < blocks.len() - 1 ==> #[trigger] blocks[k].1 == max_block && blocks[k + 1].0 == blocks[k].0
            + blocks[k].1
    &&& blocks.len() > 0 ==> blocks.last().0 + blocks.last().1 == size && 0 < blocks.last().1 <= max_block
}

/// The blocks `(start, length)` in which a buffer of `size` samples is run
/// through the graph, at most `max_block` samples at a time: consecutive
/// blocks from the start of the buffer to its end, every one of them full
/// except possibly the last, which holds what remains.
pub fn block_schedule(size: usize, max_block: usize) -> (r: Vec<(usize, usize)>)
    requires
        max_block > 0,
    ensures
        is_block_schedule(r@, size as nat, max_block as nat),
{
    let mut blocks: Vec<(usize, usize)> = Vec::new();
    let mut i: usize = 0;
    while i < size
        invariant
            max_block > 0,
            i <= size,
            blocks@.len() == 0 <==> i == 0,
            blocks@.len() > 0 ==> blocks@[0].0 == 0,
            forall|k: int|
                0 <= k < blocks@.len() - 1 ==> #[trigger] blocks@[k].1 == max_block && blocks@[k + 1].0
                    == blocks@[k].0 + blocks@[k].1,
            blocks@.len() > 0 ==> blocks@.last().0 + blocks@.last().1 == i && 0 < blocks@.last().1
                <= max_block,
            blocks@.len() > 0 && blocks@.last().1 < max_block ==> i == size,
        decreases size - i,
    {
        let n = if size - i < max_block {
            size - i
        } else {
            max_block
        };
        blocks.push((i, n));
        i = i + n;
    }
    blocks
}

/// The blocks of a schedule tile the buffer: every sample index lies in
/// exactly one block.
pub proof fn lemma_block_schedule_tiles(blocks: Seq<(usize, usize)>, size: nat, max_block: nat, j: int)
    requires
        max_block > 0,
        is_block_schedule(blocks, size, max_block),
        0 <= j < size,
    ensures
        exists|k: int| 0 <= k < blocks.len() && #[trigger] blocks[k].0 <= j < blocks[k].0 + blocks[k].1,
        forall|k1: int, k2: int|
            #![trigger blocks[k1], blocks[k2]]
            0 <= k1 < blocks.len() && 0 <= k2 < blocks.len() && blocks[k1].0 <= j < blocks[k1].0
                + blocks[k1].1 && blocks[k2].0 <= j < blocks[k2].0 + blocks[k2].1 ==> k1 == k2,
{
    // Block starts strictly increase, and each block ends where the next starts.
    assert forall|a: int, b: int|
        #![trigger blocks[a], blocks[b]]
        0 <= a < b < blocks.len() implies blocks[a].0 + blocks[a].1 <= blocks[b].0 by {
        lemma_block_starts_increase(blocks, max_block, a, b);
    }
    let last = blocks.len() - 1;
    let k = choose_block(blocks, max_block, j, last);
    assert(blocks[k].0 <= j < blocks[k].0 + blocks[k].1);
}

proof fn lemma_block_starts_increase(blocks: Seq<(usize, usize)>, max_block: nat, a: int, b: int)
    requires
        forall|k: int|
            0 <= k < blocks.len() - 1 ==> #[trigger] blocks[k].1 == max_block && blocks[k + 1].0 == blocks[k].0
                + blocks[k].1,
        0 <= a < b < blocks.len(),
    ensures
        blocks[a].0 + blocks[a].1 <= blocks[b].0,
    decreases b - a,
{
    if b > a + 1 {
        lemma_block_starts_increase(blocks, max_block, a, b - 1);
        assert(blocks[b - 1].1 == max_block);
    } else {
        assert(blocks[a].1 == max_block);
    }
}

/// The block that holds sample index `j`, searching blocks `0..=k`.
proof fn choose_block(blocks: Seq<(usize, usize)>, max_block: nat, j: int, k: int) -> (r: int)
    requires
        blocks.len() > 0,
        blocks[0].0 == 0,
        0 <= k < blocks.len(),
        forall|m: int|
            0 <= m < blocks.len() - 1 ==> #[trigger] blocks[m].1 == max_block && blocks[m + 1].0 == blocks[m].0
                + blocks[m].1,
        0 <= j < blocks[k].0 + blocks[k].1,
    ensures
        0 <= r <= k,
        blocks[r].0 <= j < blocks[r].0 + blocks[r].1,
    decreases k,
{
    if j >= blocks[k].0 {
        k
    } else {
        assert(blocks[k - 1].1 == max_block);
        choose_block(blocks, max_block, j, k - 1)
    }
}

} // verus!
