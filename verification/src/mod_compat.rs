//! How a mod was classified: whether a dedicated server can run it, and how
//! sure that is.
use vstd::prelude::*;

verus! {

/// On which side a mod can run.
#[derive(Debug, Clone, Copy, PartialEq, Eq, Structural)]
pub enum ServerCompatibility {
    /// Runs on a server.
    ServerOk,
    /// Runs on a client only.
    ClientOnly,
    /// Runs on both sides.
    Both,
    /// Nothing is known.
    Unknown,
}

/// How sure a classification is.
#[derive(Debug, Clone, Copy, PartialEq, Eq, Structural)]
pub enum CompatibilityConfidence {
    /// The mod's own metadata says so.
    Explicit,
    /// Nothing says so.
    NoEvidence,
}

/// Where a classification comes from.
#[derive(Debug, Clone, Copy, PartialEq, Eq, Structural)]
pub enum CompatibilitySource {
    /// `fabric.mod.json`.
    FabricMetadata,
    /// `quilt.mod.json`.
    QuiltMetadata,
    /// `META-INF/mods.toml`.
    ForgeMetadata,
    /// No metadata.
    NoSource,
}

/// The classification of one mod.
#[derive(Debug, Clone)]
pub struct ModCompatibility {
    pub compatibility: ServerCompatibility,
    pub confidence: CompatibilityConfidence,
    pub source: CompatibilitySource,
    pub reason: String,
}

impl ModCompatibility {
    /// A copy.
    pub fn copied(&self) -> (r: Self)
        ensures
            r == *self,
    {
        ModCompatibility {
            compatibility: self.compatibility,
            confidence: self.confidence,
            source: self.source,
            reason: self.reason.clone(),
        }
    }

    /// Whether the mod is known, by its own metadata, to be of no use on a
    /// server.
    pub open spec fn excluded_by_metadata(self) -> bool {
        self.compatibility == ServerCompatibility::ClientOnly && self.confidence
            == CompatibilityConfidence::Explicit
    }

    /// Computes [`ModCompatibility::excluded_by_metadata`].
    pub fn is_excluded(&self) -> (r: bool)
        ensures
            r == self.excluded_by_metadata(),
    {
        self.compatibility == ServerCompatibility::ClientOnly && self.confidence
            == CompatibilityConfidence::Explicit
    }
}

} // verus!
