//! Passes that associate memories with similar ones.

use crate::agent::cortex_log::{has_count, has_flag, has_fraction, is_log, CortexLog, Detail};
use crate::events::Fraction;
use crate::text::{decimal, u64_text};
use vstd::prelude::*;
use vstd::string::*;

verus! {

/// A pass over memories that makes no more associations than it may.
#[derive(Debug, Clone, Copy, PartialEq, Eq, Structural)]
pub struct AssociationPass {
    /// How many memories the pass goes through.
    pub memory_count: usize,
    pub max_per_pass: usize,
    pub created: usize,
    /// Whether it goes through all memories there are.
    pub is_backfill: bool,
}

impl AssociationPass {
    pub fn new(memory_count: usize, max_per_pass: usize, is_backfill: bool) -> (pass: AssociationPass)
        ensures
            pass == (AssociationPass { memory_count, max_per_pass, created: 0, is_backfill }),
    {
        AssociationPass { memory_count, max_per_pass, created: 0, is_backfill }
    }

    /// Whether the pass has made as many associations as it may.
    pub fn is_exhausted(&self) -> (exhausted: bool)
        ensures
            exhausted == (self.created >= self.max_per_pass),
    {
        self.created >= self.max_per_pass
    }

    /// An attempt to store an association is over. One that failed does not
    /// count.
    pub fn record(&mut self, stored: bool)
        requires
            old(self).created < old(self).max_per_pass,
        ensures
            *final(self) == (AssociationPass {
                created: if stored {
                    (old(self).created + 1) as usize
                } else {
                    old(self).created
                },
                ..*old(self)
            }),
            final(self).created <= final(self).max_per_pass,
    {
        if stored {
            self.created = self.created + 1;
        }
    }

    /// What is recorded of the pass: nothing where it made no association.
    pub fn summarize(&self, similarity_threshold: Fraction, updates_threshold: Fraction) -> (log: Option<CortexLog>)
        ensures
            match log {
                None => self.created == 0,
                Some(line) => {
                    let created = decimal(self.created as int);
                    let memories = decimal(self.memory_count as int);
                    &&& self.created > 0
                    &&& is_log(
                        line,
                        "association_created"@,
                        if self.is_backfill {
                            "Backfill: created "@ + created + " associations from "@ + memories
                                + " memories"@
                        } else {
                            "Created "@ + created + " associations from "@ + memories
                                + " new memories"@
                        },
                        5,
                    )
                    &&& has_count(line, 0, "associations_created"@, self.created as int)
                    &&& has_count(line, 1, "memories_processed"@, self.memory_count as int)
                    &&& has_flag(line, 2, "backfill"@, self.is_backfill)
                    &&& has_fraction(line, 3, "similarity_threshold"@, similarity_threshold)
                    &&& has_fraction(line, 4, "updates_threshold"@, updates_threshold)
                },
            },
    {
        if self.created == 0 {
            return None;
        }
        let created: u64 = self.created as u64;
        let memories: u64 = self.memory_count as u64;
        let summary = if self.is_backfill {
            "Backfill: created ".to_owned().concat(u64_text(created).as_str()).concat(
                " associations from ",
            ).concat(u64_text(memories).as_str()).concat(" memories")
        } else {
            "Created ".to_owned().concat(u64_text(created).as_str()).concat(
                " associations from ",
            ).concat(u64_text(memories).as_str()).concat(" new memories")
        };
        let mut details: Vec<(String, Detail)> = Vec::new();
        details.push(("associations_created".to_owned(), Detail::Count(created)));
        details.push(("memories_processed".to_owned(), Detail::Count(memories)));
        details.push(("backfill".to_owned(), Detail::Flag(self.is_backfill)));
        details.push(("similarity_threshold".to_owned(), Detail::Fraction(similarity_threshold)));
        details.push(("updates_threshold".to_owned(), Detail::Fraction(updates_threshold)));
        Some(CortexLog { event_type: "association_created".to_owned(), summary, details })
    }
}

} // verus!
