use vstd::prelude::*;
use vstd::arithmetic::div_mod::lemma_fundamental_div_mod_converse;

verus! {

/// The groups laid end to end.
pub open spec fn joined(groups: Seq<Vec<String>>) -> Seq<String>
    decreases groups.len(),
{
    if groups.len() == 0 {
        Seq::empty()
    } else {
        joined(groups.drop_last()) + groups.last()@
    }
}

/// `n / d`, rounded up.
pub open spec fn ceil_div(n: nat, d: nat) -> nat {
    if d == 0 {
        0
    } else if n % d == 0 {
        n / d
    } else {
        n / d + 1
    }
}

/// `groups` cuts a sequence into consecutive groups of `size` items each,
/// the last of which may be shorter but not empty.
pub open spec fn groups_of(groups: Seq<Vec<String>>, size: nat) -> bool {
    &&& forall|i: int| 0 <= i < groups.len() - 1 ==> (#[trigger] groups[i])@.len() == size
    &&& groups.len() > 0 ==> 0 < groups.last()@.len() <= size
}

/// Joining distributes over appending one group.
pub proof fn lemma_joined_push(groups: Seq<Vec<String>>, group: Vec<String>)
    ensures
        joined(groups.push(group)) == joined(groups) + group@,
{
    assert(groups.push(group).drop_last() =~= groups);
}

/// Cuts `hashes` into consecutive groups of `size` items; the last group
/// holds what is left.
pub fn chunk_hashes(hashes: &Vec<String>, size: usize) -> (groups: Vec<Vec<String>>)
    requires
        size > 0,
    ensures
        joined(groups@) == hashes@,
        groups_of(groups@, size as nat),
        groups@.len() == ceil_div(hashes@.len(), size as nat),
{
    let mut groups: Vec<Vec<String>> = Vec::new();
    let mut buffer: Vec<String> = Vec::new();
    let mut i: usize = 0;
    while i < hashes.len()
        invariant
            size > 0,
            i <= hashes@.len(),
            joined(groups@) + buffer@ == hashes@.take(i as int),
            forall|j: int| 0 <= j < groups@.len() ==> (#[trigger] groups@[j])@.len() == size,
            buffer@.len() < size,
            groups@.len() * size + buffer@.len() == i,
        decreases hashes@.len() - i,
    {
        let ghost before = joined(groups@) + buffer@;
        buffer.push(hashes[i].clone());
        assert(hashes@.take(i + 1) =~= hashes@.take(i as int).push(hashes@[i as int]));
        assert(joined(groups@) + buffer@ =~= before.push(hashes@[i as int]));
        if buffer.len() == size {
            proof {
                lemma_joined_push(groups@, buffer);
                assert((groups@.len() + 1) * size == groups@.len() * size + size)
                    by (nonlinear_arith);
            }
            groups.push(buffer);
            buffer = Vec::new();
            assert(joined(groups@) + buffer@ =~= hashes@.take(i + 1));
        }
        i = i + 1;
    }
    assert(hashes@.take(i as int) =~= hashes@);
    if buffer.len() > 0 {
        proof {
            lemma_joined_push(groups@, buffer);
            lemma_fundamental_div_mod_converse(
                i as int,
                size as int,
                groups@.len() as int,
                buffer@.len() as int,
            );
        }
        groups.push(buffer);
    } else {
        proof {
            assert(joined(groups@) + buffer@ =~= joined(groups@));
            lemma_fundamental_div_mod_converse(i as int, size as int, groups@.len() as int, 0);
        }
    }
    groups
}

/// The length of each range when `count` items go to `workers` workers.
pub open spec fn range_len(count: nat, workers: nat) -> nat {
    if workers == 0 {
        count
    } else {
        ceil_div(count, workers)
    }
}

/// Splits `hashes` into contiguous ranges of `ceil(count / workers)` items,
/// one for each worker that has anything to do. A worker count of zero is
/// served as one worker.
pub fn split_ranges(hashes: &Vec<String>, workers: usize) -> (ranges: Vec<Vec<String>>)
    ensures
        joined(ranges@) == hashes@,
        groups_of(ranges@, range_len(hashes@.len(), workers as nat)),
        ranges@.len() == ceil_div(hashes@.len(), range_len(hashes@.len(), workers as nat)),
        workers > 0 ==> ranges@.len() <= workers,
{
    let count = hashes.len();
    if count == 0 {
        let ranges: Vec<Vec<String>> = Vec::new();
        return ranges;
    }
    let each: usize = if workers == 0 {
        count
    } else if count % workers == 0 {
        count / workers
    } else {
        assert(count / workers < count) by (nonlinear_arith)
            requires
                workers > 0,
                count > 0,
                count % workers != 0,
        ;
        count / workers + 1
    };
    assert(each > 0) by (nonlinear_arith)
        requires
            count > 0,
            workers > 0 ==> (count % workers == 0 ==> each == count / workers),
            workers > 0 ==> (count % workers != 0 ==> each == count / workers + 1),
            workers == 0 ==> each == count,
            workers >= 0,
    ;
    proof {
        if workers > 0 {
            lemma_ranges_fit(count as nat, workers as nat);
        }
    }
    chunk_hashes(hashes, each)
}

/// Ranges of `ceil(count / workers)` items are at most `workers` many.
pub proof fn lemma_ranges_fit(count: nat, workers: nat)
    requires
        workers > 0,
    ensures
        ceil_div(count, ceil_div(count, workers)) <= workers,
{
    let each = ceil_div(count, workers);
    if each > 0 {
        assert(each * workers >= count) by (nonlinear_arith)
            requires
                workers > 0,
                each == if count % workers == 0 {
                    count / workers
                } else {
                    count / workers + 1
                },
        ;
        assert(ceil_div(count, each) <= workers) by (nonlinear_arith)
            requires
                each > 0,
                workers > 0,
                each * workers >= count,
                ceil_div(count, each) == if count % each == 0 {
                    count / each
                } else {
                    count / each + 1
                },
        ;
    }
}

} // verus!
