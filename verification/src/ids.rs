//! Allocation of identifiers: positive numbers that only ever grow, handed out
//! as their decimal text.

use crate::text::{decimal_text, lemma_decimal_text_injective, render_decimal, Text};
use snowflake::SnowflakeIdGenerator;
use vstd::prelude::*;

verus! {

/// `snowflake::SnowflakeIdGenerator`, carried as it is: nothing is known of what
/// it holds.
#[verifier::external_type_specification]
#[verifier::external_body]
pub struct ExSnowflakeIdGenerator(SnowflakeIdGenerator);

/// `SnowflakeIdGenerator::new`: builds a generator that starts at the present
/// reading of the system clock. Nothing is claimed of the generator that comes
/// back. The call stops the process if the clock reads a time before 1970.
pub assume_specification[ SnowflakeIdGenerator::new ](
    machine_id: i32,
    node_id: i32,
) -> SnowflakeIdGenerator
;

/// `SnowflakeIdGenerator::generate`: the next raw number of the generator. It is
/// made of a reading of the clock and a counter, so nothing is claimed of the
/// number: when the clock steps back the generator may repeat itself. Every
/// 4096th call reads the clock again, waits until it has moved on, and stops the
/// process if it reads a time before 1970.
pub assume_specification[ SnowflakeIdGenerator::generate ](
    generator: &mut SnowflakeIdGenerator,
) -> i64
;

/// The text under which the identifier with number `k` is handed out.
pub open spec fn id_text(k: int) -> Text {
    decimal_text(k)
}

/// The number of the identifier that reads `t`.
pub open spec fn id_number(t: Text) -> int {
    choose|k: int| #[trigger] id_text(k) == t
}

/// `t` is an identifier whose number lies above `lo` and not above `hi`.
pub open spec fn issued_between(t: Text, lo: int, hi: int) -> bool {
    &&& t == id_text(id_number(t))
    &&& lo < id_number(t) <= hi
}

/// Every text of `ids` is an identifier between `lo` and `hi`, and their numbers
/// grow strictly along the list.
pub open spec fn issued_in_order(ids: Seq<Text>, lo: int, hi: int) -> bool {
    &&& forall|i: int| 0 <= i < ids.len() ==> issued_between(#[trigger] ids[i], lo, hi)
    &&& forall|i: int, j: int|
        0 <= i < j < ids.len() ==> id_number(#[trigger] ids[i]) < id_number(#[trigger] ids[j])
}

/// No text occurs twice in `ids`.
pub open spec fn pairwise_distinct(ids: Seq<Text>) -> bool {
    forall|i: int, j: int| 0 <= i < j < ids.len() ==> #[trigger] ids[i] != #[trigger] ids[j]
}

/// An identifier's text determines its number.
pub proof fn lemma_id_number_of_text(k: int)
    ensures
        id_number(id_text(k)) == k,
{
    let t = id_text(k);
    let found = id_number(t);
    assert(id_text(k) == t);
    assert(id_text(found) == t);
    lemma_decimal_text_injective(found, k);
}

/// The identifiers of one batch are pairwise distinct.
pub proof fn lemma_issued_in_order_distinct(ids: Seq<Text>, lo: int, hi: int)
    requires
        issued_in_order(ids, lo, hi),
    ensures
        pairwise_distinct(ids),
{
}

/// Two runs of identifiers issued in order, the second above the first, are one
/// run issued in order.
pub proof fn lemma_issued_in_order_concat(a: Seq<Text>, b: Seq<Text>, lo: int, mid: int, hi: int)
    requires
        issued_in_order(a, lo, mid),
        issued_in_order(b, mid, hi),
        lo <= mid <= hi,
    ensures
        issued_in_order(a + b, lo, hi),
{
    let c = a + b;
    assert forall|i: int| 0 <= i < c.len() implies issued_between(#[trigger] c[i], lo, hi) by {
        if i < a.len() {
            assert(c[i] == a[i]);
        } else {
            assert(c[i] == b[i - a.len()]);
        }
    }
    assert forall|i: int, j: int| 0 <= i < j < c.len() implies id_number(#[trigger] c[i])
        < id_number(#[trigger] c[j]) by {
        if j < a.len() {
            assert(c[i] == a[i] && c[j] == a[j]);
        } else if i < a.len() {
            assert(c[i] == a[i] && c[j] == b[j - a.len()]);
        } else {
            assert(c[i] == b[i - a.len()] && c[j] == b[j - a.len()]);
        }
    }
}

/// An identifier never comes twice: one handed out while the mark rose from
/// `lo1` to `hi1` differs from every one handed out later, while it rose from
/// `lo2` to `hi2`, whichever calls handed them out.
pub proof fn law_ids_never_repeat(a: Text, b: Text, lo1: int, hi1: int, lo2: int, hi2: int)
    requires
        issued_between(a, lo1, hi1),
        issued_between(b, lo2, hi2),
        hi1 <= lo2,
    ensures
        a != b,
{
}

/// The number that is handed out when the high-water mark is `last` and the
/// generator proposes `raw`: the proposal if it lies above everything handed out
/// so far, else the successor of the mark.
pub open spec fn admitted(last: int, raw: int) -> int {
    if raw > last {
        raw
    } else {
        last + 1
    }
}

/// Decides the next identifier's number from the high-water mark and the
/// generator's proposal.
pub fn next_after(last: u64, raw: i64) -> (id: u64)
    requires
        last < u64::MAX,
    ensures
        id == admitted(last as int, raw as int),
        id > last,
{
    if raw > 0 && raw as u64 > last {
        raw as u64
    } else {
        last + 1
    }
}

/// Source of identifiers. It consults a generator made for one machine and one
/// node, remembers the largest number it has handed out, and every identifier it
/// hands out has a larger number than all before it.
pub struct IdAllocator {
    generator: SnowflakeIdGenerator,
    machine_id: i32,
    node_id: i32,
    last: u64,
}

impl IdAllocator {
    /// The machine that the allocator's generator was made for.
    pub closed spec fn machine(&self) -> i32 {
        self.machine_id
    }

    /// The node that the allocator's generator was made for.
    pub closed spec fn node(&self) -> i32 {
        self.node_id
    }

    /// The largest number handed out so far, 0 before the first.
    pub closed spec fn watermark(&self) -> int {
        self.last as int
    }

    /// How many identifiers can still be handed out whatever the generator
    /// proposes: a proposal may lift the mark as far as `i64::MAX`.
    pub open spec fn room(&self) -> int {
        if self.watermark() > i64::MAX {
            u64::MAX - self.watermark()
        } else {
            u64::MAX - i64::MAX
        }
    }

    /// An allocator for the given machine and node that has handed out nothing
    /// yet. Its generator is made from the two numbers, which the allocator keeps;
    /// they go into every number that the generator proposes.
    pub fn new(machine_id: i32, node_id: i32) -> (allocator: Self)
        ensures
            allocator.machine() == machine_id,
            allocator.node() == node_id,
            allocator.watermark() == 0,
    {
        IdAllocator {
            generator: SnowflakeIdGenerator::new(machine_id, node_id),
            machine_id,
            node_id,
            last: 0,
        }
    }

    /// The machine that the allocator's generator was made for.
    pub fn machine_id(&self) -> (machine_id: i32)
        ensures
            machine_id == self.machine(),
    {
        self.machine_id
    }

    /// The node that the allocator's generator was made for.
    pub fn node_id(&self) -> (node_id: i32)
        ensures
            node_id == self.node(),
    {
        self.node_id
    }

    /// The room that is left, for callers that must test it before they allocate.
    pub fn remaining(&self) -> (n: u64)
        ensures
            n == self.room(),
    {
        if self.last > 0x7fff_ffff_ffff_ffff {
            u64::MAX - self.last
        } else {
            0x8000_0000_0000_0000
        }
    }
}

/// Hands out one identifier.
pub fn next_id(allocator: &mut IdAllocator) -> (id: String)
    requires
        old(allocator).room() >= 1,
    ensures
        id@ == id_text(final(allocator).watermark()),
        issued_between(id@, old(allocator).watermark(), final(allocator).watermark()),
        final(allocator).room() >= old(allocator).room() - 1,
        final(allocator).machine() == old(allocator).machine(),
        final(allocator).node() == old(allocator).node(),
{
    let raw = allocator.generator.generate();
    let number = next_after(allocator.last, raw);
    allocator.last = number;
    proof {
        lemma_id_number_of_text(number as int);
    }
    render_decimal(number as i128)
}

/// Hands out `n` identifiers in one batch, in the order of their numbers.
pub fn next_ids(allocator: &mut IdAllocator, n: usize) -> (ids: Vec<String>)
    requires
        old(allocator).room() >= n,
    ensures
        ids.len() == n,
        issued_in_order(ids.deep_view(), old(allocator).watermark(), final(allocator).watermark()),
        pairwise_distinct(ids.deep_view()),
        final(allocator).watermark() >= old(allocator).watermark() + n,
        final(allocator).room() >= old(allocator).room() - n,
        final(allocator).machine() == old(allocator).machine(),
        final(allocator).node() == old(allocator).node(),
        n == 0 ==> final(allocator).watermark() == old(allocator).watermark(),
        n > 0 ==> ids[n - 1]@ == id_text(final(allocator).watermark()),
{
    let mut ids: Vec<String> = Vec::new();
    let ghost start = allocator.watermark();
    let mut made: usize = 0;
    while made < n
        invariant
            made <= n,
            ids.len() == made,
            start == old(allocator).watermark(),
            allocator.watermark() >= start + made,
            allocator.room() >= n - made,
            allocator.room() >= old(allocator).room() - made,
            allocator.machine() == old(allocator).machine(),
            allocator.node() == old(allocator).node(),
            issued_in_order(ids.deep_view(), start, allocator.watermark()),
            made == 0 ==> allocator.watermark() == start,
            made > 0 ==> ids[made - 1]@ == id_text(allocator.watermark()),
        decreases n - made,
    {
        let ghost before = allocator.watermark();
        let ghost so_far = ids.deep_view();
        let id = next_id(allocator);
        ids.push(id);
        made = made + 1;
        proof {
            let now = ids.deep_view();
            assert forall|i: int| 0 <= i < now.len() implies issued_between(
                #[trigger] now[i],
                start,
                allocator.watermark(),
            ) by {
                if i < so_far.len() {
                    assert(now[i] == so_far[i]);
                }
            }
            assert forall|i: int, j: int| 0 <= i < j < now.len() implies id_number(
                #[trigger] now[i],
            ) < id_number(#[trigger] now[j]) by {
                assert(now[i] == so_far[i]);
                if j < so_far.len() {
                    assert(now[j] == so_far[j]);
                }
            }
        }
    }
    proof {
        lemma_issued_in_order_distinct(ids.deep_view(), start, allocator.watermark());
    }
    ids
}

} // verus!
