//! Engine variants: named play styles.  Each variant is tuned for its
//! style; the weights themselves belong to the engine that uses them.
use vstd::prelude::*;

verus! {

/// Pre-configured engine variants.
#[derive(Clone, Copy, Debug, PartialEq, Eq, Structural)]
pub enum EngineVariant {
    /// Prioritizes attacks and captures.
    Aggressive,
    /// Focuses on king safety and material preservation.
    Defensive,
    /// Well-rounded approach (default).
    Balanced,
    /// Deep search with strong capture evaluation.
    Tactical,
    /// Emphasizes territory and piece placement.
    Positional,
}

impl EngineVariant {
    /// A descriptive name for the variant.
    pub fn name(self) -> (s: &'static str)
        ensures
            s@ == match self {
                EngineVariant::Aggressive => "Aggressive"@,
                EngineVariant::Defensive => "Defensive"@,
                EngineVariant::Balanced => "Balanced"@,
                EngineVariant::Tactical => "Tactical"@,
                EngineVariant::Positional => "Positional"@,
            },
    {
        match self {
            EngineVariant::Aggressive => "Aggressive",
            EngineVariant::Defensive => "Defensive",
            EngineVariant::Balanced => "Balanced",
            EngineVariant::Tactical => "Tactical",
            EngineVariant::Positional => "Positional",
        }
    }

    /// A description of the variant's play style.
    pub fn description(self) -> (s: &'static str)
        ensures
            s@ == match self {
                EngineVariant::Aggressive =>
                    "Prioritizes attacks, captures, and material gain. Takes risks with king safety."@,
                EngineVariant::Defensive =>
                    "Focuses on king safety and solid defense. Avoids risky positions."@,
                EngineVariant::Balanced =>
                    "Well-rounded approach with balanced priorities. Default configuration."@,
                EngineVariant::Tactical =>
                    "Deep tactical search with strong capture evaluation. Finds complex combinations."@,
                EngineVariant::Positional =>
                    "Emphasizes territorial control and piece activity. Values long-term advantages."@,
            },
    {
        match self {
            EngineVariant::Aggressive =>
                "Prioritizes attacks, captures, and material gain. Takes risks with king safety.",
            EngineVariant::Defensive =>
                "Focuses on king safety and solid defense. Avoids risky positions.",
            EngineVariant::Balanced =>
                "Well-rounded approach with balanced priorities. Default configuration.",
            EngineVariant::Tactical =>
                "Deep tactical search with strong capture evaluation. Finds complex combinations.",
            EngineVariant::Positional =>
                "Emphasizes territorial control and piece activity. Values long-term advantages.",
        }
    }

    /// Every variant, each once.
    pub fn all() -> (v: Vec<EngineVariant>)
        ensures
            v@ == seq![
                EngineVariant::Aggressive,
                EngineVariant::Defensive,
                EngineVariant::Balanced,
                EngineVariant::Tactical,
                EngineVariant::Positional,
            ],
    {
        vec![
            EngineVariant::Aggressive,
            EngineVariant::Defensive,
            EngineVariant::Balanced,
            EngineVariant::Tactical,
            EngineVariant::Positional,
        ]
    }
}

} // verus!
