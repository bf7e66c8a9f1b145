//! When a conversation is mined for memories.

use vstd::prelude::*;

verus! {

/// How messages trigger memory extraction.
#[derive(Debug, Clone, Copy)]
pub struct MemoryEventIngressOptions {
    pub enabled: bool,
    pub event_cooldown_secs: u64,
    pub intent_routing_enabled: bool,
}

/// Memories are extracted in their structured form where that is switched on
/// and messages both trigger extraction and are routed by intent.
pub fn should_use_structured_extraction(
    structured_memory_enabled: bool,
    options: &MemoryEventIngressOptions,
) -> (b: bool)
    ensures
        b == (structured_memory_enabled && options.enabled && options.intent_routing_enabled),
{
    structured_memory_enabled && options.enabled && options.intent_routing_enabled
}

/// The memory tasks that follow a message.
#[derive(Debug, Clone, Copy, PartialEq, Eq, Structural)]
pub struct MemoryTasks {
    /// Extraction because of what the message says.
    pub event: bool,
    /// Extraction because its turn has come.
    pub periodic: bool,
    /// Consolidation of what is stored.
    pub consolidation: bool,
}

/// Every fifth message is due for extraction, every twentieth for
/// consolidation; a message that says something worth remembering is due at
/// once. Nothing is due while memory is off.
pub open spec fn tasks_due(memory_enabled: bool, event_due: bool, count: int) -> MemoryTasks {
    MemoryTasks {
        event: memory_enabled && event_due,
        periodic: memory_enabled && count > 0 && count % 5 == 0,
        consolidation: memory_enabled && count > 0 && count % 20 == 0,
    }
}

/// The tasks after the `count`th message that counts for memory. `event_due`
/// says whether the message triggers extraction and its cooldown is over.
pub fn memory_tasks(memory_enabled: bool, event_due: bool, count: u64) -> (tasks: MemoryTasks)
    ensures
        tasks == tasks_due(memory_enabled, event_due, count as int),
{
    MemoryTasks {
        event: memory_enabled && event_due,
        periodic: memory_enabled && count > 0 && count % 5 == 0,
        consolidation: memory_enabled && count > 0 && count % 20 == 0,
    }
}

/// Consolidation never comes without extraction.
pub proof fn lemma_consolidation_with_extraction(
    memory_enabled: bool,
    event_due: bool,
    count: int,
)
    ensures
        tasks_due(memory_enabled, event_due, count).consolidation ==> tasks_due(
            memory_enabled,
            event_due,
            count,
        ).periodic,
{
}

/// Nothing is done for memory while it is off.
pub proof fn lemma_memory_off(event_due: bool, count: int)
    ensures
        tasks_due(false, event_due, count) == (MemoryTasks {
            event: false,
            periodic: false,
            consolidation: false,
        }),
{
}

} // verus!
