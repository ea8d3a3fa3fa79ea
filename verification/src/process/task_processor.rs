//! Asynchronous task processor: where the completion of each task is recorded
//!
//! 异步任务处理器
use vstd::prelude::*;

verus! {

/// Asynchronous task processor
pub struct TaskProcessor;

/// Where the completion bit of a task lies: small ids in the first bitmap, ids near the
/// top of the range, counted down from the top, in the second, and the others by quotient
/// and remainder (by `u32::MAX`) in the third and fourth.
#[derive(Debug, Clone, Copy, PartialEq, Eq, Structural)]
pub enum TaskStatusSlot {
    /// Bit `offset` of the bitmap ``{cache_key}:1``.
    Low { offset: u64 },
    /// Bit `offset` of the bitmap ``{cache_key}:2``.
    High { offset: u64 },
    /// Bit `quotient` of ``{cache_key}:3`` together with bit `remainder` of ``{cache_key}:4``.
    Split { quotient: u64, remainder: u64 },
}

/// The largest id below the ids counted down from the top.
pub const TASK_ID_SPLIT_MAX: u64 = 18446744069414584319;

/// The slot of each task id.
pub open spec fn task_slot(task_id: u64) -> TaskStatusSlot {
    if task_id <= u32::MAX {
        TaskStatusSlot::Low { offset: task_id }
    } else if task_id > TASK_ID_SPLIT_MAX {
        TaskStatusSlot::High { offset: (u64::MAX - task_id) as u64 }
    } else {
        TaskStatusSlot::Split {
            quotient: (task_id / (u32::MAX as u64)) as u64,
            remainder: (task_id % (u32::MAX as u64)) as u64,
        }
    }
}

impl TaskProcessor {
    /// The slot that holds the completion of the task
    pub fn status_slot(task_id: u64) -> (r: TaskStatusSlot)
        ensures
            r == task_slot(task_id),
    {
        if task_id <= 4294967295u64 {
            TaskStatusSlot::Low { offset: task_id }
        } else if task_id > TASK_ID_SPLIT_MAX {
            TaskStatusSlot::High { offset: 18446744073709551615u64 - task_id }
        } else {
            TaskStatusSlot::Split { quotient: task_id / 4294967295u64, remainder: task_id % 4294967295u64 }
        }
    }

    /// Whether a task is complete, given the bits of its slot: both bits for a split slot
    pub fn status_of_bits(slot: TaskStatusSlot, bit: bool, second_bit: bool) -> (r: bool)
        ensures
            r == (if slot is Split {
                bit && second_bit
            } else {
                bit
            }),
    {
        match slot {
            TaskStatusSlot::Split { .. } => bit && second_bit,
            _ => bit,
        }
    }
}

/// Distinct tasks have distinct slots.
pub proof fn lemma_task_slot_injective(a: u64, b: u64)
    requires
        task_slot(a) == task_slot(b),
    ensures
        a == b,
{
    if a <= u32::MAX || a > TASK_ID_SPLIT_MAX {
    } else {
        let m = u32::MAX as int;
        assert(a == (a as int / m) * m + (a as int % m)) by (nonlinear_arith)
            requires
                m > 0,
        ;
        assert(b == (b as int / m) * m + (b as int % m)) by (nonlinear_arith)
            requires
                m > 0,
        ;
    }
}

/// The bits that hold the completion of a task: (bitmap, offset), the bitmap being the
/// suffix of the cache key (``{cache_key}:1`` to ``{cache_key}:4``).
pub open spec fn slot_bits(slot: TaskStatusSlot) -> Seq<(u8, u64)> {
    match slot {
        TaskStatusSlot::Low { offset } => seq![(1u8, offset)],
        TaskStatusSlot::High { offset } => seq![(2u8, offset)],
        TaskStatusSlot::Split { quotient, remainder } => seq![(3u8, quotient), (4u8, remainder)],
    }
}

/// The bitmaps after setting each of the bits to the value.
pub open spec fn write_bits(bitmaps: Map<(u8, u64), bool>, bits: Seq<(u8, u64)>, value: bool) -> Map<(u8, u64), bool>
    decreases bits.len(),
{
    if bits.len() == 0 {
        bitmaps
    } else {
        write_bits(bitmaps, bits.drop_last(), value).insert(bits.last(), value)
    }
}

/// The status that reading a slot gives: its bit, or both bits of a split slot (an unset
/// bit reads as false).
pub open spec fn read_status(bitmaps: Map<(u8, u64), bool>, slot: TaskStatusSlot) -> bool {
    let bits = slot_bits(slot);
    let bit = |b: (u8, u64)| bitmaps.contains_key(b) && bitmaps[b];
    if slot is Split {
        bit(bits[0]) && bit(bits[1])
    } else {
        bit(bits[0])
    }
}

impl TaskProcessor {
    /// The bits that hold the completion of a task: those that setting its status writes
    /// and checking its status reads
    pub fn status_bits(task_id: u64) -> (r: Vec<(u8, u64)>)
        ensures
            r@ == slot_bits(task_slot(task_id)),
    {
        let slot = Self::status_slot(task_id);
        let mut r: Vec<(u8, u64)> = Vec::new();
        match slot {
            TaskStatusSlot::Low { offset } => {
                r.push((1u8, offset));
            },
            TaskStatusSlot::High { offset } => {
                r.push((2u8, offset));
            },
            TaskStatusSlot::Split { quotient, remainder } => {
                r.push((3u8, quotient));
                r.push((4u8, remainder));
            },
        }
        proof {
            assert(r@ =~= slot_bits(slot));
        }
        r
    }
}

/// Setting the status of a task and then checking it gives that status back, whatever the
/// bitmaps held before: the status is written to the bits of the task's slot and read from
/// the same bits.
pub proof fn lemma_status_round_trip(bitmaps: Map<(u8, u64), bool>, task_id: u64, status: bool)
    ensures
        read_status(write_bits(bitmaps, slot_bits(task_slot(task_id)), status), task_slot(task_id)) == status,
{
    let slot = task_slot(task_id);
    let bits = slot_bits(slot);
    if slot is Split {
        let m1 = write_bits(bitmaps, bits.drop_last(), status);
        assert(bits.drop_last().drop_last() =~= Seq::<(u8, u64)>::empty());
        assert(m1 == write_bits(bitmaps, bits.drop_last().drop_last(), status).insert(bits[0], status));
        assert(bits[0] != bits[1]);
    } else {
        assert(bits.drop_last() =~= Seq::<(u8, u64)>::empty());
    }
}

} // verus!
