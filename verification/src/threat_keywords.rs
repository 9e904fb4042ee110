//! The keyword tables: for each threat kind the stems that reveal it, and
//! the stems for urgency and for a scope of the whole country.
//!
//! A stem is matched as a literal part of the lowercase text, so that it
//! covers a word root with its declensions. Every table holds Ukrainian and
//! Russian forms side by side.

use vstd::prelude::*;
use crate::text::{contains_any, find_any, to_chars};
use crate::threat_kind::ThreatKind;

verus! {

/// Stems that announce the end of a threat.
pub const ALL_CLEAR_STEMS: [&'static str; 7] = [
    "відбій",
    "загроза минула",
    "чисте небо",
    "дорозвідка",
    "отбой",
    "угроза миновала",
    "чистое небо",
];

/// Stems for hypersonic weapons.
pub const HYPERSONIC_STEMS: [&'static str; 9] = [
    "гіперзвук",
    "циркон",
    "орєшнік",
    "гиперзвук",
    "циркон",
    "орешник",
    "zircon",
    "tsirkon",
    "oreshnik",
];

/// Stems for ballistic missiles: the word family, system names and
/// designations, and the phrase for medium range.
pub const BALLISTIC_STEMS: [&'static str; 31] = [
    "балістик",
    "балістичн",
    "іскандер",
    "кінжал",
    "точка-у",
    "брсд",
    "міжконтинентальн",
    "баллистик",
    "баллістик",
    "искандер",
    "кинжал",
    "точка-у",
    "брсд",
    "межконтинентальн",
    "iskander",
    "кедр",
    "kedr",
    "рс-26",
    "rs-26",
    "рубіж",
    "рубеж",
    "rubezh",
    "кн-23",
    "kn-23",
    "кн-25",
    "kn-25",
    "фатех",
    "fateh",
    "hwasong",
    "середньої дальності",
    "средней дальности",
];

/// Stems for cruise missiles: the word family and model names in Cyrillic
/// and Latin letters.
pub const CRUISE_MISSILE_STEMS: [&'static str; 22] = [
    "крилат",
    "калібр",
    "крылат",
    "калибр",
    "х-101",
    "х-555",
    "х-22",
    "х-59",
    "х-69",
    "х-35",
    "х-31",
    "х-55",
    "x-101",
    "x-555",
    "x-22",
    "x-59",
    "x-69",
    "x-35",
    "x-31",
    "x-55",
    "томагавк",
    "tomahawk",
];

/// Stems for guided aerial bombs. The bare abbreviations are listed with
/// the character that follows them, so that they do not match inside a
/// longer word.
pub const GUIDED_BOMB_STEMS: [&'static str; 25] = [
    "керован",
    "авіабомб",
    "авіаційн бомб",
    "плануюч",
    "управляем",
    "авиабомб",
    "планирующ",
    "каб-500",
    "каб-1500",
    "каб-250",
    "каб ",
    "каб,",
    "каб.",
    "каб\n",
    "умпб",
    "умпк",
    "jdam",
    "фаб-500",
    "фаб-1500",
    "фаб-250",
    "фаб-3000",
    "фаб ",
    "фаб,",
    "фаб.",
    "фаб\n",
];

/// Stems for attack drones, slang included.
pub const SHAHED_STEMS: [&'static str; 20] = [
    "шахед",
    "shahed",
    "герань",
    "geran",
    "мопед",
    "газонокосил",
    "ударн",
    "бпла",
    "дрон-камікадзе",
    "дрон-камикадзе",
    "камікадзе",
    "камикадзе",
    "безпілотник",
    "беспилотник",
    "mohajer",
    "мохаджер",
    "дрон ",
    "дронів",
    "дронов",
    "махаон",
];

/// Stems for reconnaissance drones.
pub const RECON_DRONE_STEMS: [&'static str; 11] = [
    "розвідувальн",
    "разведывательн",
    "орлан",
    "zala",
    "supercam",
    "ланцет",
    "елерон",
    "элерон",
    "картограф",
    "фурія",
    "фурия",
];

/// Stems for aviation: the word family, take-off, and aircraft types.
pub const AIRCRAFT_STEMS: [&'static str; 26] = [
    "авіаці",
    "стратегічн авіаці",
    "тактичн авіаці",
    "зліт",
    "авиаци",
    "стратегическ авиаци",
    "тактическ авиаци",
    "взлёт",
    "взлет",
    "ту-95",
    "ту-160",
    "ту-22",
    "міг-31",
    "міг-29",
    "миг-31",
    "миг-29",
    "су-57",
    "су-35",
    "су-34",
    "су-30",
    "су-25",
    "су-24",
    "а-50",
    "a-50",
    "іл-76",
    "ил-76",
];

/// Stems for a missile of no stated type. They are kept few and long:
/// "target" words are left to the context window.
pub const MISSILE_STEMS: [&'static str; 8] = [
    "ракет",
    "запуск",
    "с-300",
    "s-300",
    "с-400",
    "s-400",
    "зенітн ракет",
    "зенитн ракет",
];

/// Stems that sound like a threat without naming its kind.
pub const OTHER_STEMS: [&'static str; 29] = [
    "загроз",
    "небезпек",
    "тривог",
    "обстріл",
    "вибух",
    "прильот",
    "влучанн",
    "уламк",
    "укриття",
    "укрытие",
    "пожеж",
    "руйнуванн",
    "зруйнов",
    "інфраструктур",
    "кассетн",
    "касетн",
    "угроз",
    "опасност",
    "тревог",
    "обстрел",
    "взрыв",
    "прилёт",
    "прилет",
    "попадани",
    "осколк",
    "пожар",
    "разрушени",
    "инфраструктур",
    "громко",
];

/// Stems that mark a message as a repeated or additional wave.
pub const URGENCY_KEYWORDS: [&'static str; 17] = [
    "повторн",
    "додатково",
    "ще ціл",
    "ще вихо",
    "нові ціл",
    "нова хвил",
    "увага!",
    "терміново",
    "негайно",
    "дополнительно",
    "ещё",
    "еще",
    "ще выход",
    "новая волна",
    "внимание!",
    "срочно",
    "немедленно",
];

/// Phrases that scope an alert to the whole country. Each names the country
/// itself: "the whole territory of the region" is no such phrase.
pub const NATIONWIDE_KEYWORDS: [&'static str; 12] = [
    "по всій території україни",
    "всю територію україни",
    "всієї території україни",
    "по всій україні",
    "всій україні",
    "по всій країні",
    "по всей территории украины",
    "всю территорию украины",
    "всей территории украины",
    "по всей украине",
    "всей украине",
    "по всей стране",
];

/// The stems of `kind`.
pub open spec fn stems_of(kind: ThreatKind) -> Seq<&'static str> {
    match kind {
        ThreatKind::AllClear => ALL_CLEAR_STEMS@,
        ThreatKind::Hypersonic => HYPERSONIC_STEMS@,
        ThreatKind::Ballistic => BALLISTIC_STEMS@,
        ThreatKind::CruiseMissile => CRUISE_MISSILE_STEMS@,
        ThreatKind::GuidedBomb => GUIDED_BOMB_STEMS@,
        ThreatKind::Shahed => SHAHED_STEMS@,
        ThreatKind::ReconDrone => RECON_DRONE_STEMS@,
        ThreatKind::Aircraft => AIRCRAFT_STEMS@,
        ThreatKind::Missile => MISSILE_STEMS@,
        ThreatKind::Other => OTHER_STEMS@,
    }
}

/// Some stem of `kind` is part of `text`.
pub open spec fn stem_hit(kind: ThreatKind, text: Seq<char>) -> bool {
    contains_any(text, stems_of(kind))
}

/// Whether some stem of `kind` is part of the lowercase text.
pub fn has_stem(kind: ThreatKind, lower: &[char]) -> (b: bool)
    ensures
        b == stem_hit(kind, lower@),
{
    match kind {
        ThreatKind::AllClear => find_any(lower, &ALL_CLEAR_STEMS),
        ThreatKind::Hypersonic => find_any(lower, &HYPERSONIC_STEMS),
        ThreatKind::Ballistic => find_any(lower, &BALLISTIC_STEMS),
        ThreatKind::CruiseMissile => find_any(lower, &CRUISE_MISSILE_STEMS),
        ThreatKind::GuidedBomb => find_any(lower, &GUIDED_BOMB_STEMS),
        ThreatKind::Shahed => find_any(lower, &SHAHED_STEMS),
        ThreatKind::ReconDrone => find_any(lower, &RECON_DRONE_STEMS),
        ThreatKind::Aircraft => find_any(lower, &AIRCRAFT_STEMS),
        ThreatKind::Missile => find_any(lower, &MISSILE_STEMS),
        ThreatKind::Other => find_any(lower, &OTHER_STEMS),
    }
}

/// The text carries an urgency stem.
pub open spec fn urgent(text: Seq<char>) -> bool {
    contains_any(text, URGENCY_KEYWORDS@)
}

/// The text carries a phrase for the whole country.
pub open spec fn nationwide(text: Seq<char>) -> bool {
    contains_any(text, NATIONWIDE_KEYWORDS@)
}

/// Whether the lowercase text carries an urgency stem.
pub fn is_urgent_lowered(lower: &[char]) -> (b: bool)
    ensures
        b == urgent(lower@),
{
    find_any(lower, &URGENCY_KEYWORDS)
}

/// Whether the lowercase text scopes its alert to the whole country.
pub fn is_nationwide_lowered(lower: &[char]) -> (b: bool)
    ensures
        b == nationwide(lower@),
{
    find_any(lower, &NATIONWIDE_KEYWORDS)
}

/// Returns `true` when the message contains an urgency keyword, which lets
/// it pass deduplication once. The text is expected in lowercase and is
/// matched as it is.
pub fn is_urgent(lower: &str) -> (b: bool)
    ensures
        b == urgent(lower@),
{
    let chars = to_chars(lower);
    is_urgent_lowered(chars.as_slice())
}

/// Returns `true` when the message is an alert for the whole country, which
/// is relevant whatever location is configured. The text is expected in
/// lowercase and is matched as it is.
pub fn is_nationwide(lower: &str) -> (b: bool)
    ensures
        b == nationwide(lower@),
{
    let chars = to_chars(lower);
    is_nationwide_lowered(chars.as_slice())
}

} // verus!
