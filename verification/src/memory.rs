//! Memory snapshots: what one reading of the host's memory says, in bytes,
//! and the same figures as text for display.

use vstd::prelude::*;

verus! {

/// What the metrics source reported of memory and swap, in bytes.
#[derive(Clone, Copy, Debug, PartialEq, Eq, Structural)]
pub struct MemoryReading {
    pub total: u64,
    pub available: u64,
    pub used: u64,
    pub total_swap: u64,
    pub used_swap: u64,
}

/// The six figures of a memory snapshot, in bytes.
pub struct MemoryFigures {
    pub total: u64,
    pub available: u64,
    pub used: u64,
    pub used_computed: u64,
    pub total_swap: u64,
    pub used_swap: u64,
}

impl MemoryReading {
    /// Whether the reading makes sense: no more memory is available than
    /// there is.
    pub open spec fn consistent(self) -> bool {
        self.available <= self.total
    }

    /// The figures of the snapshot that a consistent reading gives: those
    /// of the reading, and the memory in use computed as total minus
    /// available.
    pub open spec fn figures(self) -> MemoryFigures {
        MemoryFigures {
            total: self.total,
            available: self.available,
            used: self.used,
            used_computed: (self.total - self.available) as u64,
            total_swap: self.total_swap,
            used_swap: self.used_swap,
        }
    }
}

/// A point-in-time record of memory and swap. It is made from one reading
/// and never changes.
#[derive(Clone, Copy, Debug, PartialEq, Eq, Structural)]
pub struct MemorySnapshot {
    total: u64,
    available: u64,
    used: u64,
    used_computed: u64,
    total_swap: u64,
    used_swap: u64,
}

impl View for MemorySnapshot {
    type V = MemoryFigures;

    closed spec fn view(&self) -> MemoryFigures {
        MemoryFigures {
            total: self.total,
            available: self.available,
            used: self.used,
            used_computed: self.used_computed,
            total_swap: self.total_swap,
            used_swap: self.used_swap,
        }
    }
}

/// The text that the `byte_unit` crate writes for a number of bytes in the
/// decimal unit that it finds appropriate to it, such as `16.00 GB`.
pub uninterp spec fn appropriate_unit_text(bytes: u64) -> Seq<char>;

/// A number of bytes as text, in the decimal unit appropriate to it.
///
/// Calls `Byte::get_appropriate_unit(false)` of the `byte_unit` crate on the
/// number and writes the result out with its `Display`. The text depends on
/// the number alone; the contract gives it a name and says no more of it.
#[verifier::external_body]
fn format_bytes(bytes: u64) -> (text: String)
    ensures
        text@ == appropriate_unit_text(bytes),
{
    byte_unit::Byte::from_bytes(u128::from(bytes)).get_appropriate_unit(false).to_string()
}

/// A memory snapshot as text: each figure in the unit appropriate to it.
/// The fields have the names under which they go over the wire.
#[derive(Debug)]
pub struct Memory {
    pub total_mem: String,
    pub available_mem: String,
    pub used_mem: String,
    pub total_mem_used: String,
    pub total_swap: String,
    pub used_swap: String,
}

impl Memory {
    /// Whether the record holds the text of each of the figures.
    pub open spec fn holds(self, figures: MemoryFigures) -> bool {
        &&& self.total_mem@ == appropriate_unit_text(figures.total)
        &&& self.available_mem@ == appropriate_unit_text(figures.available)
        &&& self.used_mem@ == appropriate_unit_text(figures.used)
        &&& self.total_mem_used@ == appropriate_unit_text(figures.used_computed)
        &&& self.total_swap@ == appropriate_unit_text(figures.total_swap)
        &&& self.used_swap@ == appropriate_unit_text(figures.used_swap)
    }
}

impl MemorySnapshot {
    #[verifier::type_invariant]
    spec fn inv(self) -> bool {
        self.available <= self.total && self.used_computed == self.total - self.available
    }

    /// The snapshot that a consistent reading gives.
    pub closed spec fn of(reading: MemoryReading) -> MemorySnapshot {
        MemorySnapshot {
            total: reading.total,
            available: reading.available,
            used: reading.used,
            used_computed: (reading.total - reading.available) as u64,
            total_swap: reading.total_swap,
            used_swap: reading.used_swap,
        }
    }

    /// The snapshot of a reading has the reading's figures.
    pub proof fn lemma_figures_of(reading: MemoryReading)
        ensures
            Self::of(reading)@ == reading.figures(),
    {
    }

    /// The snapshot of a reading. A reading that is not consistent gives
    /// none.
    pub fn from_reading(reading: MemoryReading) -> (snapshot: Option<MemorySnapshot>)
        ensures
            match snapshot {
                Some(made) => reading.consistent() && made == Self::of(reading) && made@
                    == reading.figures(),
                None => !reading.consistent(),
            },
    {
        if reading.available > reading.total {
            return None;
        }
        Some(
            MemorySnapshot {
                total: reading.total,
                available: reading.available,
                used: reading.used,
                used_computed: reading.total - reading.available,
                total_swap: reading.total_swap,
                used_swap: reading.used_swap,
            },
        )
    }

    /// Total memory.
    pub fn total(&self) -> (bytes: u64)
        ensures
            bytes == self@.total,
    {
        self.total
    }

    /// Memory that is available to processes; never more than the total.
    pub fn available(&self) -> (bytes: u64)
        ensures
            bytes == self@.available,
            bytes <= self@.total,
    {
        proof {
            use_type_invariant(self);
        }
        self.available
    }

    /// Memory in use, as the source reported it.
    pub fn used(&self) -> (bytes: u64)
        ensures
            bytes == self@.used,
    {
        self.used
    }

    /// Memory in use, computed: total minus available, exactly.
    pub fn used_computed(&self) -> (bytes: u64)
        ensures
            bytes == self@.used_computed,
            bytes == self@.total - self@.available,
    {
        proof {
            use_type_invariant(self);
        }
        self.used_computed
    }

    /// Total swap.
    pub fn total_swap(&self) -> (bytes: u64)
        ensures
            bytes == self@.total_swap,
    {
        self.total_swap
    }

    /// Swap in use.
    pub fn used_swap(&self) -> (bytes: u64)
        ensures
            bytes == self@.used_swap,
    {
        self.used_swap
    }
}

/// The snapshot as text, each of its six figures written in the unit
/// appropriate to it.
pub fn init_memory(snapshot: &MemorySnapshot) -> (memory: Memory)
    ensures
        memory.holds(snapshot@),
{
    Memory {
        total_mem: format_bytes(snapshot.total),
        available_mem: format_bytes(snapshot.available),
        used_mem: format_bytes(snapshot.used),
        total_mem_used: format_bytes(snapshot.used_computed),
        total_swap: format_bytes(snapshot.total_swap),
        used_swap: format_bytes(snapshot.used_swap),
    }
}

} // verus!
