//! The sampler's part in a tick: handing what was read to the topics.
//!
//! The sampler reads the metrics source, publishes, and sleeps, over and
//! over. Reading and sleeping are its caller's business. This module decides
//! what one reading publishes: each metric that was read goes to its topic,
//! and one that could not be read, or makes no sense, is skipped until the
//! next tick. The sampler never waits for a subscriber.

use crate::memory::{MemoryReading, MemorySnapshot};
use crate::topic::{Topic, TopicState};
use vstd::prelude::*;

verus! {

/// What one poll of the metrics source brought: the processor snapshot and
/// the memory reading, each absent if it could not be read.
pub struct Sample<C> {
    pub cpu: Option<C>,
    pub memory: Option<MemoryReading>,
}

/// Which of the two topics a tick published to.
#[derive(Clone, Copy, Debug, PartialEq, Eq, Structural)]
pub struct Published {
    pub cpu: bool,
    pub memory: bool,
}

impl<C> Sample<C> {
    /// Whether the tick has a memory snapshot to publish.
    pub open spec fn has_memory(self) -> bool {
        self.memory matches Some(reading) && reading.consistent()
    }

    /// The processor topic after the tick.
    pub open spec fn cpu_after(self, topic: TopicState<C>) -> TopicState<C> {
        match self.cpu {
            Some(snapshot) => topic.publish(snapshot),
            None => topic,
        }
    }

    /// The memory topic after the tick.
    pub open spec fn memory_after(self, topic: TopicState<MemorySnapshot>) -> TopicState<
        MemorySnapshot,
    > {
        if self.has_memory() {
            topic.publish(MemorySnapshot::of(self.memory->0))
        } else {
            topic
        }
    }
}

/// Publishes what one poll brought: the memory snapshot to the memory
/// topic, then the processor snapshot to the processor topic. A metric that
/// is absent, and a memory reading that is not consistent, is skipped: its
/// topic stays as it is.
pub fn publish_sample<C>(
    cpu_topic: &mut Topic<C>,
    memory_topic: &mut Topic<MemorySnapshot>,
    sample: Sample<C>,
) -> (published: Published)
    ensures
        final(cpu_topic)@ == sample.cpu_after(old(cpu_topic)@),
        final(memory_topic)@ == sample.memory_after(old(memory_topic)@),
        published.cpu == sample.cpu is Some,
        published.memory == sample.has_memory(),
{
    let mut published = Published { cpu: false, memory: false };
    if let Some(reading) = sample.memory {
        if let Some(snapshot) = MemorySnapshot::from_reading(reading) {
            memory_topic.publish(snapshot);
            published.memory = true;
        }
    }
    if let Some(snapshot) = sample.cpu {
        cpu_topic.publish(snapshot);
        published.cpu = true;
    }
    published
}

} // verus!
