//! The closed set of threat categories and their fixed metadata.

use vstd::prelude::*;
use crate::text::{equals_str, lowercase, lowered_chars};

verus! {

/// Broad threat categories.
#[derive(Debug, Clone, Copy, PartialEq, Eq, Hash, Structural)]
pub enum ThreatKind {
    Ballistic,
    /// Zircon and other hypersonic weapons.
    Hypersonic,
    CruiseMissile,
    /// Guided aerial bombs.
    GuidedBomb,
    /// A missile of no stated type.
    Missile,
    Shahed,
    ReconDrone,
    Aircraft,
    /// The threat is over.
    AllClear,
    /// Threat-sounding but unclassified.
    Other,
}

impl ThreatKind {
    /// The icon shown in front of the label.
    pub open spec fn emoji_text(self) -> Seq<char> {
        match self {
            ThreatKind::Ballistic => "‼️🚀"@,
            ThreatKind::Hypersonic => "‼️⚡"@,
            ThreatKind::CruiseMissile => "🚀"@,
            ThreatKind::GuidedBomb => "💣"@,
            ThreatKind::Missile => "🚀"@,
            ThreatKind::Shahed => "🔺"@,
            ThreatKind::ReconDrone => "🛸"@,
            ThreatKind::Aircraft => "✈️"@,
            ThreatKind::AllClear => "✅"@,
            ThreatKind::Other => "⚠️"@,
        }
    }

    /// The display label.
    pub open spec fn label_text(self) -> Seq<char> {
        match self {
            ThreatKind::Ballistic => "Балістика"@,
            ThreatKind::Hypersonic => "Гіперзвук"@,
            ThreatKind::CruiseMissile => "Крилата ракета"@,
            ThreatKind::GuidedBomb => "КАБ"@,
            ThreatKind::Missile => "Ракета"@,
            ThreatKind::Shahed => "Шахед / дрон"@,
            ThreatKind::ReconDrone => "Розвідувальний БПЛА"@,
            ThreatKind::Aircraft => "Авіація"@,
            ThreatKind::AllClear => "Відбій загрози"@,
            ThreatKind::Other => "Загроза"@,
        }
    }

    /// How specific a kind is: when a message names several kinds, the one
    /// of highest rank stands for the message.
    pub open spec fn rank(self) -> nat {
        match self {
            ThreatKind::AllClear => 6,
            ThreatKind::Hypersonic => 5,
            ThreatKind::Ballistic => 4,
            ThreatKind::CruiseMissile => 3,
            ThreatKind::GuidedBomb => 3,
            ThreatKind::Shahed => 3,
            ThreatKind::ReconDrone => 2,
            ThreatKind::Aircraft => 2,
            ThreatKind::Missile => 1,
            ThreatKind::Other => 0,
        }
    }

    /// The stable ASCII name used in interchange.
    pub open spec fn name_text(self) -> Seq<char> {
        match self {
            ThreatKind::Ballistic => "Ballistic"@,
            ThreatKind::Hypersonic => "Hypersonic"@,
            ThreatKind::CruiseMissile => "CruiseMissile"@,
            ThreatKind::GuidedBomb => "GuidedBomb"@,
            ThreatKind::Missile => "Missile"@,
            ThreatKind::Shahed => "Shahed"@,
            ThreatKind::ReconDrone => "ReconDrone"@,
            ThreatKind::Aircraft => "Aircraft"@,
            ThreatKind::AllClear => "AllClear"@,
            ThreatKind::Other => "Other"@,
        }
    }

    /// The kind that a lowercase interchange name stands for, if any.
    pub open spec fn named(lower: Seq<char>) -> Option<ThreatKind> {
        if lower == "ballistic"@ {
            Some(ThreatKind::Ballistic)
        } else if lower == "hypersonic"@ {
            Some(ThreatKind::Hypersonic)
        } else if lower == "cruisemissile"@ || lower == "cruise_missile"@ {
            Some(ThreatKind::CruiseMissile)
        } else if lower == "guidedbomb"@ || lower == "guided_bomb"@ || lower == "kab"@ {
            Some(ThreatKind::GuidedBomb)
        } else if lower == "missile"@ {
            Some(ThreatKind::Missile)
        } else if lower == "shahed"@ {
            Some(ThreatKind::Shahed)
        } else if lower == "recondrone"@ || lower == "recon_drone"@ {
            Some(ThreatKind::ReconDrone)
        } else if lower == "aircraft"@ {
            Some(ThreatKind::Aircraft)
        } else if lower == "allclear"@ || lower == "all_clear"@ {
            Some(ThreatKind::AllClear)
        } else if lower == "other"@ {
            Some(ThreatKind::Other)
        } else {
            None
        }
    }

    pub fn emoji(&self) -> (s: &'static str)
        ensures
            s@ == self.emoji_text(),
    {
        match self {
            ThreatKind::Ballistic => "‼️🚀",
            ThreatKind::Hypersonic => "‼️⚡",
            ThreatKind::CruiseMissile => "🚀",
            ThreatKind::GuidedBomb => "💣",
            ThreatKind::Missile => "🚀",
            ThreatKind::Shahed => "🔺",
            ThreatKind::ReconDrone => "🛸",
            ThreatKind::Aircraft => "✈️",
            ThreatKind::AllClear => "✅",
            ThreatKind::Other => "⚠️",
        }
    }

    pub fn label(&self) -> (s: &'static str)
        ensures
            s@ == self.label_text(),
    {
        match self {
            ThreatKind::Ballistic => "Балістика",
            ThreatKind::Hypersonic => "Гіперзвук",
            ThreatKind::CruiseMissile => "Крилата ракета",
            ThreatKind::GuidedBomb => "КАБ",
            ThreatKind::Missile => "Ракета",
            ThreatKind::Shahed => "Шахед / дрон",
            ThreatKind::ReconDrone => "Розвідувальний БПЛА",
            ThreatKind::Aircraft => "Авіація",
            ThreatKind::AllClear => "Відбій загрози",
            ThreatKind::Other => "Загроза",
        }
    }

    /// Priority used for deduplication: a more specific kind wins over a
    /// generic one.
    pub fn specificity(&self) -> (r: u8)
        ensures
            r == self.rank(),
    {
        match self {
            ThreatKind::Ballistic => 4,
            ThreatKind::Hypersonic => 5,
            ThreatKind::CruiseMissile => 3,
            ThreatKind::GuidedBomb => 3,
            ThreatKind::Missile => 1,
            ThreatKind::Shahed => 3,
            ThreatKind::ReconDrone => 2,
            ThreatKind::Aircraft => 2,
            ThreatKind::AllClear => 6,
            ThreatKind::Other => 0,
        }
    }

    /// Stable English name used for interchange with an external verifier.
    pub fn variant_name(&self) -> (s: &'static str)
        ensures
            s@ == self.name_text(),
    {
        match self {
            ThreatKind::Ballistic => "Ballistic",
            ThreatKind::Hypersonic => "Hypersonic",
            ThreatKind::CruiseMissile => "CruiseMissile",
            ThreatKind::GuidedBomb => "GuidedBomb",
            ThreatKind::Missile => "Missile",
            ThreatKind::Shahed => "Shahed",
            ThreatKind::ReconDrone => "ReconDrone",
            ThreatKind::Aircraft => "Aircraft",
            ThreatKind::AllClear => "AllClear",
            ThreatKind::Other => "Other",
        }
    }

    /// Parse an interchange name that is already in lowercase.
    pub fn from_lowered_name(lower: &[char]) -> (r: Option<ThreatKind>)
        ensures
            r == Self::named(lower@),
    {
        if equals_str(lower, "ballistic") {
            Some(ThreatKind::Ballistic)
        } else if equals_str(lower, "hypersonic") {
            Some(ThreatKind::Hypersonic)
        } else if equals_str(lower, "cruisemissile") || equals_str(lower, "cruise_missile") {
            Some(ThreatKind::CruiseMissile)
        } else if equals_str(lower, "guidedbomb") || equals_str(lower, "guided_bomb")
            || equals_str(lower, "kab") {
            Some(ThreatKind::GuidedBomb)
        } else if equals_str(lower, "missile") {
            Some(ThreatKind::Missile)
        } else if equals_str(lower, "shahed") {
            Some(ThreatKind::Shahed)
        } else if equals_str(lower, "recondrone") || equals_str(lower, "recon_drone") {
            Some(ThreatKind::ReconDrone)
        } else if equals_str(lower, "aircraft") {
            Some(ThreatKind::Aircraft)
        } else if equals_str(lower, "allclear") || equals_str(lower, "all_clear") {
            Some(ThreatKind::AllClear)
        } else if equals_str(lower, "other") {
            Some(ThreatKind::Other)
        } else {
            None
        }
    }

    /// Parse an interchange name, ignoring case.
    pub fn from_variant_name(s: &str) -> (r: Option<ThreatKind>)
        ensures
            r == Self::named(lowercase(s@)),
    {
        let lower = lowered_chars(s);
        Self::from_lowered_name(lower.as_slice())
    }
}

} // verus!
