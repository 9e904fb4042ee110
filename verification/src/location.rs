//! The observer's location and how a text is matched against it.

use vstd::prelude::*;
use crate::text::{
    any_whitespace, contains, contains_any, contains_free, find, find_any, find_free, find_str,
    has_whitespace, to_chars, WordClass,
};
use crate::threat_keywords::{is_nationwide_lowered, nationwide};

verus! {

/// How close a threat is to the observer. Later variants are closer:
/// `Unmatched < Oblast < City < District`.
#[derive(Debug, Clone, Copy, PartialEq, Eq, Hash, PartialOrd, Ord, Structural)]
pub enum Proximity {
    /// No configured place is named.
    Unmatched,
    Oblast,
    City,
    District,
}

impl Proximity {
    /// The position of a level in the order from far to near.
    pub open spec fn rank(self) -> nat {
        match self {
            Proximity::Unmatched => 0,
            Proximity::Oblast => 1,
            Proximity::City => 2,
            Proximity::District => 3,
        }
    }

    /// The tag shown in an alert's header; empty where nothing matched.
    pub open spec fn tag_text(self) -> Seq<char> {
        match self {
            Proximity::District => "🔴 РАЙОН"@,
            Proximity::City => "🟠 МІСТО"@,
            Proximity::Oblast => "🟡 ОБЛАСТЬ"@,
            Proximity::Unmatched => ""@,
        }
    }

    /// The nearer of two levels.
    pub open spec fn nearer(self, other: Proximity) -> Proximity {
        if other.rank() > self.rank() {
            other
        } else {
            self
        }
    }

    /// The level as used for a message that names no place itself: a
    /// district is taken down to its city.
    pub open spec fn capped(self) -> Proximity {
        if self == Proximity::District {
            Proximity::City
        } else {
            self
        }
    }

    pub fn tag(&self) -> (s: &'static str)
        ensures
            s@ == self.tag_text(),
    {
        match self {
            Proximity::District => "🔴 РАЙОН",
            Proximity::City => "🟠 МІСТО",
            Proximity::Oblast => "🟡 ОБЛАСТЬ",
            Proximity::Unmatched => "",
        }
    }

    /// The position of the level in the order from far to near.
    pub fn level(&self) -> (r: u8)
        ensures
            r == self.rank(),
    {
        match self {
            Proximity::Unmatched => 0,
            Proximity::Oblast => 1,
            Proximity::City => 2,
            Proximity::District => 3,
        }
    }

    /// Whether `self` is strictly nearer than `other`.
    pub fn exceeds(&self, other: Proximity) -> (b: bool)
        ensures
            b == (self.rank() > other.rank()),
    {
        self.level() > other.level()
    }

    /// The nearer of two levels.
    pub fn max(self, other: Proximity) -> (r: Proximity)
        ensures
            r == self.nearer(other),
    {
        if other.exceeds(self) {
            other
        } else {
            self
        }
    }

    /// See [`Proximity::capped`].
    pub fn cap(self) -> (r: Proximity)
        ensures
            r == self.capped(),
    {
        match self {
            Proximity::District => Proximity::City,
            other => other,
        }
    }
}

/// Stems of other major regions and cities. A text that names one of them
/// and no configured place is about somewhere else.
pub const NONLOCAL_REGION_STEMS: [&'static str; 40] = [
    "харків",
    "харьков",
    "одес",
    "никола",
    "микола",
    "херсон",
    "запор",
    "дніпр",
    "днепр",
    "черніг",
    "черниг",
    "черкас",
    "сум",
    "полтав",
    "кропив",
    "кіровоград",
    "кировоград",
    "вінниц",
    "винниц",
    "житомир",
    "львів",
    "львов",
    "терноп",
    "рівн",
    "ровен",
    "хмельниц",
    "чернів",
    "чернов",
    "луцьк",
    "волин",
    "ужгород",
    "закарпат",
    "івано",
    "ивано",
    "донеч",
    "донец",
    "луган",
    "крим",
    "крыма",
    "криму",
];

/// The text names a region or city of the fixed list.
pub open spec fn names_other_region(text: Seq<char>) -> bool {
    contains_any(text, NONLOCAL_REGION_STEMS@)
}

/// `stem` matches `text`: a phrase (a stem with white space in it) only at
/// word boundaries, with no letter directly before or after it; a single
/// token anywhere, so that it covers declensions.
pub open spec fn stem_matches(text: Seq<char>, stem: Seq<char>) -> bool {
    if has_whitespace(stem) {
        contains_free(text, stem, WordClass::Alphabetic, true)
    } else {
        contains(text, stem)
    }
}

/// Some stem of `stems` matches `text`.
pub open spec fn level_matches(text: Seq<char>, stems: Seq<Seq<char>>) -> bool {
    exists|i: int| 0 <= i < stems.len() && stem_matches(text, #[trigger] stems[i])
}

/// The observer's location as three lists of stems.
pub struct LocationModel {
    pub oblast: Seq<Seq<char>>,
    pub city: Seq<Seq<char>>,
    pub district: Seq<Seq<char>>,
}

impl LocationModel {
    /// The nearest level of which a stem matches `text`.
    pub open spec fn proximity_of(self, text: Seq<char>) -> Proximity {
        if level_matches(text, self.district) {
            Proximity::District
        } else if level_matches(text, self.city) {
            Proximity::City
        } else if level_matches(text, self.oblast) {
            Proximity::Oblast
        } else {
            Proximity::Unmatched
        }
    }

    /// The text names no configured place and does name another region.
    pub open spec fn explicit_nonlocal(self, text: Seq<char>) -> bool {
        self.proximity_of(text) == Proximity::Unmatched && names_other_region(text)
    }

    /// The level that the text itself gives. A city beside an oblast stem,
    /// or beside the word for an oblast, is widened to the oblast.
    pub open spec fn text_proximity(self, text: Seq<char>) -> Proximity {
        if level_matches(text, self.district) {
            Proximity::District
        } else if level_matches(text, self.city) {
            if level_matches(text, self.oblast) || contains(text, "област"@) {
                Proximity::Oblast
            } else {
                Proximity::City
            }
        } else if level_matches(text, self.oblast) {
            Proximity::Oblast
        } else {
            Proximity::Unmatched
        }
    }

    /// The level of a message from its text and, where the text names no
    /// place, from its source's title. A message for the whole country is
    /// never below the oblast; a text about another region gets nothing
    /// from the title.
    pub open spec fn resolved_proximity(self, text: Seq<char>, title: Seq<char>) -> Proximity {
        let own = self.text_proximity(text);
        if own != Proximity::Unmatched {
            own
        } else if self.explicit_nonlocal(text) {
            if nationwide(text) {
                Proximity::Oblast
            } else {
                Proximity::Unmatched
            }
        } else {
            let from_title = self.proximity_of(title);
            if nationwide(text) && from_title == Proximity::Unmatched {
                Proximity::Oblast
            } else {
                from_title
            }
        }
    }
}

/// User's location expressed as lists of stems for each level, in
/// lowercase, with the Ukrainian and the Russian forms of each name.
#[derive(Debug, Clone)]
pub struct LocationConfig {
    pub oblast: Vec<String>,
    pub city: Vec<String>,
    pub district: Vec<String>,
}

/// The stems of a list as sequences of characters.
pub open spec fn stems_view(list: Seq<String>) -> Seq<Seq<char>> {
    Seq::new(list.len(), |i: int| list[i]@)
}

impl View for LocationConfig {
    type V = LocationModel;

    open spec fn view(&self) -> LocationModel {
        LocationModel {
            oblast: stems_view(self.oblast@),
            city: stems_view(self.city@),
            district: stems_view(self.district@),
        }
    }
}

/// Whether the stem matches the lowercase text.
pub fn matches_stem(lower: &[char], stem: &[char]) -> (b: bool)
    ensures
        b == stem_matches(lower@, stem@),
{
    if any_whitespace(stem) {
        LocationConfig::contains_with_boundary(lower, stem)
    } else {
        find(lower, stem)
    }
}

/// Whether some stem of the list matches the lowercase text.
pub fn matches_level(lower: &[char], stems: &Vec<String>) -> (b: bool)
    ensures
        b == level_matches(lower@, stems_view(stems@)),
{
    let mut i: usize = 0;
    while i < stems.len()
        invariant
            i <= stems.len(),
            forall|k: int| 0 <= k < i ==> !stem_matches(lower@, #[trigger] stems_view(stems@)[k]),
        decreases stems.len() - i,
    {
        let stem = to_chars(stems[i].as_str());
        assert(stem@ == stems_view(stems@)[i as int]);
        if matches_stem(lower, stem.as_slice()) {
            return true;
        }
        i += 1;
    }
    false
}

/// Whether the lowercase text names a region or city of the fixed list.
pub fn mentions_other_region(lower: &[char]) -> (b: bool)
    ensures
        b == names_other_region(lower@),
{
    find_any(lower, &NONLOCAL_REGION_STEMS)
}

impl LocationConfig {
    /// Whether the phrase stands in the lowercase text with no letter
    /// directly before or after it. The empty phrase stands nowhere.
    pub fn contains_with_boundary(lower: &[char], phrase: &[char]) -> (b: bool)
        ensures
            b == (phrase@.len() > 0 && contains_free(lower@, phrase@, WordClass::Alphabetic, true)),
    {
        if phrase.len() == 0 {
            return false;
        }
        find_free(lower, phrase, WordClass::Alphabetic, true)
    }

    /// Whether a stem of the district, of the city and of the oblast matches
    /// the lowercase text, in that order.
    pub fn match_levels(&self, lower: &[char]) -> (r: (bool, bool, bool))
        ensures
            r.0 == level_matches(lower@, self@.district),
            r.1 == level_matches(lower@, self@.city),
            r.2 == level_matches(lower@, self@.oblast),
    {
        let district = matches_level(lower, &self.district);
        let city = matches_level(lower, &self.city);
        let oblast = matches_level(lower, &self.oblast);
        (district, city, oblast)
    }

    /// The nearest level that matches the lowercase text.
    pub fn check_lowered(&self, lower: &[char]) -> (p: Proximity)
        ensures
            p == self@.proximity_of(lower@),
    {
        let (district, city, oblast) = self.match_levels(lower);
        if district {
            Proximity::District
        } else if city {
            Proximity::City
        } else if oblast {
            Proximity::Oblast
        } else {
            Proximity::Unmatched
        }
    }

    /// Return the nearest level that matches `lower`, a text that is
    /// already in lowercase.
    pub fn check(&self, lower: &str) -> (p: Proximity)
        ensures
            p == self@.proximity_of(lower@),
    {
        let chars = to_chars(lower);
        self.check_lowered(chars.as_slice())
    }

    /// Whether the lowercase text names another region and no configured
    /// place.
    pub fn has_explicit_nonlocal_location(&self, lower: &[char]) -> (b: bool)
        ensures
            b == self@.explicit_nonlocal(lower@),
    {
        if self.check_lowered(lower) != Proximity::Unmatched {
            return false;
        }
        mentions_other_region(lower)
    }

    /// Determine the level and the nationwide flag of a message from its
    /// lowercase text and its source's lowercase title.
    pub fn resolve(&self, lower: &[char], title_lower: &[char]) -> (r: (Proximity, bool))
        ensures
            r.0 == self@.resolved_proximity(lower@, title_lower@),
            r.1 == nationwide(lower@),
    {
        let whole_country = is_nationwide_lowered(lower);
        let (district, city, oblast) = self.match_levels(lower);
        let own = if district {
            Proximity::District
        } else if city && (oblast || find_str(lower, "област")) {
            Proximity::Oblast
        } else if city {
            Proximity::City
        } else if oblast {
            Proximity::Oblast
        } else {
            Proximity::Unmatched
        };
        let proximity = if own != Proximity::Unmatched {
            own
        } else if mentions_other_region(lower) {
            if whole_country {
                Proximity::Oblast
            } else {
                Proximity::Unmatched
            }
        } else {
            let from_title = self.check_lowered(title_lower);
            if whole_country && from_title == Proximity::Unmatched {
                Proximity::Oblast
            } else {
                from_title
            }
        };
        (proximity, whole_country)
    }
}

} // verus!
