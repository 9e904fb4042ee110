//! Ready-made engines for two observers.

use vstd::prelude::*;
use crate::filter::AlertFilter;
use crate::location::{stems_view, LocationConfig, LocationModel};
use crate::model::FilterModel;

verus! {

/// How long a cache entry lives by default.
pub const DEFAULT_DEDUP_WINDOW: u64 = 180_000;

/// How long an entry of a context window lives by default.
pub const DEFAULT_CONTEXT_WINDOW: u64 = 300_000;

/// The default time between two status updates of one source.
pub const DEFAULT_NEGATIVE_STATUS_COOLDOWN: u64 = 120_000;

/// Forms of the name of the Kyiv oblast.
pub const KYIV_OBLAST: [&'static str; 2] = ["київськ", "киевск"];

/// Forms of the name of Kyiv, and of a satellite town.
pub const KYIV_CITY: [&'static str; 6] = [
    "київ",
    "києв",
    "киев",
    "кiev",
    "васильків",
    "васильков",
];

/// Forms of the name of a district of Kyiv.
pub const KYIV_DISTRICT: [&'static str; 2] = ["шевченківськ", "шевченковск"];

/// Forms of the name of the Kharkiv oblast.
pub const KHARKIV_OBLAST: [&'static str; 1] = ["харківськ"];

/// Forms of the name of Kharkiv.
pub const KHARKIV_CITY: [&'static str; 2] = ["харків", "харков"];

/// Forms of the names of two districts of Kharkiv.
pub const KHARKIV_DISTRICT: [&'static str; 2] = ["київськ", "шевченківськ"];

/// The literals of a table as sequences of characters.
pub open spec fn literal_views(items: Seq<&'static str>) -> Seq<Seq<char>> {
    Seq::new(items.len(), |i: int| items[i]@)
}

/// The literals of a table as owned strings.
pub fn owned<const N: usize>(items: &[&'static str; N]) -> (v: Vec<String>)
    ensures
        stems_view(v@) == literal_views(items@),
{
    let mut v: Vec<String> = Vec::new();
    let mut i: usize = 0;
    while i < N
        invariant
            i <= N,
            items@.len() == N,
            v@.len() == i,
            forall|k: int| 0 <= k < i ==> (#[trigger] v@[k])@ == items@[k]@,
        decreases N - i,
    {
        v.push(String::from_str(items[i]));
        i += 1;
    }
    v
}

/// The state of a new engine with the default settings for `location`.
pub open spec fn fresh_model(location: LocationModel) -> FilterModel {
    FilterModel {
        location,
        dedup_window: DEFAULT_DEDUP_WINDOW,
        context_window: DEFAULT_CONTEXT_WINDOW,
        urgent_same_channel_cooldown: 0,
        forward_all_threats: false,
        negative_status_cooldown: DEFAULT_NEGATIVE_STATUS_COOLDOWN,
        cache: Map::empty(),
        contexts: Seq::empty(),
        negative: Seq::empty(),
    }
}

/// An engine for an observer in Kyiv, with the Ukrainian and the Russian
/// forms of each name.
pub fn kyiv_filter() -> (filter: AlertFilter)
    ensures
        filter@ == fresh_model(
            LocationModel {
                oblast: literal_views(KYIV_OBLAST@),
                city: literal_views(KYIV_CITY@),
                district: literal_views(KYIV_DISTRICT@),
            },
        ),
{
    let location = LocationConfig {
        oblast: owned(&KYIV_OBLAST),
        city: owned(&KYIV_CITY),
        district: owned(&KYIV_DISTRICT),
    };
    AlertFilter::new(
        location,
        DEFAULT_DEDUP_WINDOW,
        DEFAULT_CONTEXT_WINDOW,
        0,
        DEFAULT_NEGATIVE_STATUS_COOLDOWN,
        false,
    )
}

/// An engine for an observer in Kharkiv.
pub fn kharkiv_filter() -> (filter: AlertFilter)
    ensures
        filter@ == fresh_model(
            LocationModel {
                oblast: literal_views(KHARKIV_OBLAST@),
                city: literal_views(KHARKIV_CITY@),
                district: literal_views(KHARKIV_DISTRICT@),
            },
        ),
{
    let location = LocationConfig {
        oblast: owned(&KHARKIV_OBLAST),
        city: owned(&KHARKIV_CITY),
        district: owned(&KHARKIV_DISTRICT),
    };
    AlertFilter::new(
        location,
        DEFAULT_DEDUP_WINDOW,
        DEFAULT_CONTEXT_WINDOW,
        0,
        DEFAULT_NEGATIVE_STATUS_COOLDOWN,
        false,
    )
}

} // verus!
