//! Resource kinds, the weighted drop table and the running inventory.

use vstd::prelude::*;

verus! {

/// A kind of collectible resource.
#[derive(Debug, Clone, Copy, PartialEq, Eq, Structural)]
pub enum Resource {
    Gold,
    Crystals,
    Mercury,
    Sulfur,
    Ore,
    Wood,
    Gems,
}

/// Targeted at a resource entity when the player picks it up.
#[derive(Debug, Clone, Copy, PartialEq, Eq, Structural)]
pub struct ResourceCollected {
    pub resource: Resource,
    pub amount: u32,
}

/// The drop table over a uniform draw in `0..=99`: gold, wood, sulfur and
/// ore take twenty each, mercury ten, crystals five, gems the rest.
pub open spec fn resource_of_draw(draw: int) -> Resource {
    if draw < 20 {
        Resource::Gold
    } else if draw < 40 {
        Resource::Wood
    } else if draw < 60 {
        Resource::Sulfur
    } else if draw < 80 {
        Resource::Ore
    } else if draw < 90 {
        Resource::Mercury
    } else if draw < 95 {
        Resource::Crystals
    } else {
        Resource::Gems
    }
}

impl Resource {
    /// Picks a kind from a uniform draw in `0..=99` by cumulative weights.
    pub fn from_draw(draw: i64) -> (r: Resource)
        ensures
            r == resource_of_draw(draw as int),
    {
        if draw < 20 {
            Resource::Gold
        } else if draw < 40 {
            Resource::Wood
        } else if draw < 60 {
            Resource::Sulfur
        } else if draw < 80 {
            Resource::Ore
        } else if draw < 90 {
            Resource::Mercury
        } else if draw < 95 {
            Resource::Crystals
        } else {
            Resource::Gems
        }
    }
}

/// Running tally of collected resources, one counter per kind.
#[derive(Debug, Clone, Copy, PartialEq, Eq, Structural)]
pub struct Resources {
    pub gold: u32,
    pub crystals: u32,
    pub mercury: u32,
    pub sulfur: u32,
    pub ore: u32,
    pub wood: u32,
    pub gems: u32,
}

pub open spec fn saturating_sum(a: int, b: int) -> u32 {
    if a + b > u32::MAX {
        u32::MAX
    } else {
        (a + b) as u32
    }
}

impl Resources {
    pub open spec fn count(self, kind: Resource) -> u32 {
        match kind {
            Resource::Gold => self.gold,
            Resource::Crystals => self.crystals,
            Resource::Mercury => self.mercury,
            Resource::Sulfur => self.sulfur,
            Resource::Ore => self.ore,
            Resource::Wood => self.wood,
            Resource::Gems => self.gems,
        }
    }

    /// The tally after `amount` of `kind` is added; counters saturate.
    pub open spec fn added(self, kind: Resource, amount: int) -> Resources {
        let n = saturating_sum(self.count(kind) as int, amount);
        match kind {
            Resource::Gold => Resources { gold: n, ..self },
            Resource::Crystals => Resources { crystals: n, ..self },
            Resource::Mercury => Resources { mercury: n, ..self },
            Resource::Sulfur => Resources { sulfur: n, ..self },
            Resource::Ore => Resources { ore: n, ..self },
            Resource::Wood => Resources { wood: n, ..self },
            Resource::Gems => Resources { gems: n, ..self },
        }
    }

    /// An empty tally.
    pub fn new() -> (r: Resources)
        ensures
            r == (Resources { gold: 0, crystals: 0, mercury: 0, sulfur: 0, ore: 0, wood: 0, gems: 0 }),
            forall|k: Resource| #[trigger] r.count(k) == 0,
    {
        Resources { gold: 0, crystals: 0, mercury: 0, sulfur: 0, ore: 0, wood: 0, gems: 0 }
    }

    pub fn get(&self, kind: Resource) -> (r: u32)
        ensures
            r == self.count(kind),
    {
        match kind {
            Resource::Gold => self.gold,
            Resource::Crystals => self.crystals,
            Resource::Mercury => self.mercury,
            Resource::Sulfur => self.sulfur,
            Resource::Ore => self.ore,
            Resource::Wood => self.wood,
            Resource::Gems => self.gems,
        }
    }

    /// Adds a collected amount to its kind's counter.
    pub fn on_resource_collected(&mut self, event: ResourceCollected)
        ensures
            *final(self) == old(self).added(event.resource, event.amount as int),
            forall|k: Resource|
                #[trigger] final(self).count(k) == if k == event.resource {
                    saturating_sum(old(self).count(k) as int, event.amount as int)
                } else {
                    old(self).count(k)
                },
    {
        let n = self.get(event.resource).saturating_add(event.amount);
        match event.resource {
            Resource::Gold => self.gold = n,
            Resource::Crystals => self.crystals = n,
            Resource::Mercury => self.mercury = n,
            Resource::Sulfur => self.sulfur = n,
            Resource::Ore => self.ore = n,
            Resource::Wood => self.wood = n,
            Resource::Gems => self.gems = n,
        }
    }
}

impl Default for Resources {
    fn default() -> (r: Resources)
        ensures
            forall|k: Resource| #[trigger] r.count(k) == 0,
    {
        Resources::new()
    }
}

/// The tally after a sequence of collections, applied in order.
pub open spec fn tally(start: Resources, events: Seq<ResourceCollected>) -> Resources
    decreases events.len(),
{
    if events.len() == 0 {
        start
    } else {
        let last = events.last();
        tally(start, events.drop_last()).added(last.resource, last.amount as int)
    }
}

/// How much of `kind` a sequence of collections carries.
pub open spec fn amount_of(events: Seq<ResourceCollected>, kind: Resource) -> int
    decreases events.len(),
{
    if events.len() == 0 {
        0
    } else {
        let last = events.last();
        amount_of(events.drop_last(), kind) + if last.resource == kind {
            last.amount as int
        } else {
            0
        }
    }
}

/// Starting from an empty tally, each counter ends at the total amount of
/// its kind collected, as long as that total fits in the counter.
pub proof fn lemma_tally_counts(start: Resources, events: Seq<ResourceCollected>, kind: Resource)
    requires
        forall|k: Resource| #[trigger] start.count(k) == 0,
        amount_of(events, kind) <= u32::MAX,
    ensures
        tally(start, events).count(kind) == amount_of(events, kind),
    decreases events.len(),
{
    if events.len() > 0 {
        let prefix = events.drop_last();
        assert(amount_of(prefix, kind) <= amount_of(events, kind)) by {
            lemma_amount_nonneg(prefix, kind);
        }
        lemma_amount_nonneg(prefix, kind);
        lemma_tally_counts(start, prefix, kind);
    }
}

proof fn lemma_amount_nonneg(events: Seq<ResourceCollected>, kind: Resource)
    ensures
        amount_of(events, kind) >= 0,
    decreases events.len(),
{
    if events.len() > 0 {
        lemma_amount_nonneg(events.drop_last(), kind);
    }
}

} // verus!
