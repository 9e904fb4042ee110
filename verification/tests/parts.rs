//! The parts of the engine one by one: text search, tables, classifier,
//! location, context window, settings and the second opinion.

use alert_filter::classifier::{detect_lowered, detect_raw, settle};
use alert_filter::config::{
    parse_channels, parse_flag, parse_i32, parse_list, parse_switch, parse_u64, seconds_to_millis,
    ConfigError, RawSettings, RunMode, TgCfg,
};
use alert_filter::context::ChannelContext;
use alert_filter::dedup::{primary_kind, threat_bit, threat_signature, time_since};
use alert_filter::filter::AlertFilter;
use alert_filter::formatter::{format_alert, format_negative_status, join_threats};
use alert_filter::llm::{build_user_prompt, interpret_verdict, keep_found, parse_names};
use alert_filter::reports::{
    has_live_movement_markers, is_dense, is_informational_report, is_negative_update,
};
use alert_filter::text::{
    count_digits, count_occurrences, equals_str, find, find_free, find_str, to_chars, trim_range,
    trimmed_is, WordClass,
};
use alert_filter::{detect_threats, kyiv_filter, LocationConfig, Proximity, ThreatKind};

fn chars(s: &str) -> Vec<char> {
    s.chars().collect()
}

// ── Text ──

#[test]
fn to_chars_gives_the_characters() {
    assert_eq!(to_chars("київ!"), vec!['к', 'и', 'ї', 'в', '!']);
    assert_eq!(to_chars(""), Vec::<char>::new());
}

#[test]
fn find_matches_std_contains() {
    let hay = chars("балістика на київ");
    assert!(find(&hay, &chars("на ки")));
    assert!(find(&hay, &chars("")));
    assert!(find(&hay, &chars("балістика на київ")));
    assert!(!find(&hay, &chars("балістика на київ!")));
    assert!(!find(&hay, &chars("киев")));
    assert!(find(&chars(""), &chars("")));
    assert!(!find(&chars(""), &chars("а")));
    assert!(find_str(&hay, "київ"));
    assert!(find(&chars("aab"), &chars("ab")));
}

#[test]
fn equals_str_compares_whole_texts() {
    assert!(equals_str(&chars("kab"), "kab"));
    assert!(!equals_str(&chars("kab"), "ka"));
    assert!(!equals_str(&chars("ka"), "kab"));
    assert!(equals_str(&chars(""), ""));
}

#[test]
fn find_free_looks_at_both_neighbours() {
    let both = WordClass::Alphanumeric;
    assert!(find_free(&chars("2х кр на суми"), &chars("кр"), both, true));
    assert!(find_free(&chars("кр"), &chars("кр"), both, true));
    assert!(find_free(&chars("(кр)"), &chars("кр"), both, true));
    assert!(!find_free(&chars("кролевець"), &chars("кр"), both, true));
    assert!(!find_free(&chars("укр"), &chars("кр"), both, true));
    assert!(!find_free(&chars("кр2"), &chars("кр"), both, true));
    assert!(find_free(&chars("кр2"), &chars("кр"), WordClass::Alphabetic, true));
    // A later occurrence counts where an earlier one does not.
    assert!(find_free(&chars("укр, кр."), &chars("кр"), both, true));
}

#[test]
fn find_free_finds_an_occurrence_that_overlaps_a_rejected_one() {
    let class = WordClass::Alphabetic;
    assert!(find_free(&chars("ба а а"), &chars("а а"), class, true));
}

#[test]
fn find_free_can_look_at_the_right_side_only() {
    let class = WordClass::Alphabetic;
    assert!(find_free(&chars("3 цели на днепр"), &chars("цели"), class, false));
    assert!(find_free(&chars("прицели"), &chars("цели"), class, false));
    assert!(!find_free(&chars("целиком"), &chars("цели"), class, false));
    assert!(!find_free(&chars("прицели"), &chars("цели"), class, true));
}

#[test]
fn trim_takes_white_space_from_both_ends() {
    assert_eq!(trim_range(&chars("  все \n")), (2, 5));
    assert_eq!(trim_range(&chars("все")), (0, 3));
    assert_eq!(trim_range(&chars(" \t ")), (3, 3));
    assert_eq!(trim_range(&chars("")), (0, 0));
    assert!(trimmed_is(&chars("\u{a0}все.\n"), "все."));
    assert!(!trimmed_is(&chars("все це"), "все"));
    assert!(trimmed_is(&chars("   "), ""));
}

#[test]
fn counting_occurrences_and_digits() {
    let text = chars("a\n- b\n- c\n•d 12 ③ 7");
    assert_eq!(count_occurrences(&text, "\n"), 3);
    assert_eq!(count_occurrences(&text, "\n- "), 2);
    assert_eq!(count_occurrences(&text, "\n•"), 1);
    assert_eq!(count_occurrences(&text, "zz"), 0);
    assert_eq!(count_occurrences(&chars("aaa"), "aa"), 2);
    assert_eq!(count_digits(&text), 3);
    assert_eq!(count_digits(&chars("")), 0);
}

// ── Taxonomy ──

#[test]
fn specificity_orders_the_kinds() {
    assert_eq!(ThreatKind::AllClear.specificity(), 6);
    assert_eq!(ThreatKind::Hypersonic.specificity(), 5);
    assert_eq!(ThreatKind::Ballistic.specificity(), 4);
    assert_eq!(ThreatKind::CruiseMissile.specificity(), 3);
    assert_eq!(ThreatKind::GuidedBomb.specificity(), 3);
    assert_eq!(ThreatKind::Shahed.specificity(), 3);
    assert_eq!(ThreatKind::ReconDrone.specificity(), 2);
    assert_eq!(ThreatKind::Aircraft.specificity(), 2);
    assert_eq!(ThreatKind::Missile.specificity(), 1);
    assert_eq!(ThreatKind::Other.specificity(), 0);
}

#[test]
fn labels_and_icons() {
    assert_eq!(ThreatKind::Ballistic.emoji(), "‼️🚀");
    assert_eq!(ThreatKind::Ballistic.label(), "Балістика");
    assert_eq!(ThreatKind::Missile.label(), "Ракета");
    assert_eq!(ThreatKind::AllClear.emoji(), "✅");
    assert_eq!(ThreatKind::Other.label(), "Загроза");
    assert_eq!(Proximity::District.tag(), "🔴 РАЙОН");
    assert_eq!(Proximity::City.tag(), "🟠 МІСТО");
    assert_eq!(Proximity::Oblast.tag(), "🟡 ОБЛАСТЬ");
    assert_eq!(Proximity::Unmatched.tag(), "");
}

#[test]
fn variant_names_round_trip() {
    let all = [
        ThreatKind::Ballistic,
        ThreatKind::Hypersonic,
        ThreatKind::CruiseMissile,
        ThreatKind::GuidedBomb,
        ThreatKind::Missile,
        ThreatKind::Shahed,
        ThreatKind::ReconDrone,
        ThreatKind::Aircraft,
        ThreatKind::AllClear,
        ThreatKind::Other,
    ];
    for kind in all {
        assert_eq!(ThreatKind::from_variant_name(kind.variant_name()), Some(kind));
    }
}

#[test]
fn variant_names_ignore_case_and_know_aliases() {
    assert_eq!(ThreatKind::from_variant_name("BALLISTIC"), Some(ThreatKind::Ballistic));
    assert_eq!(ThreatKind::from_variant_name("cruise_missile"), Some(ThreatKind::CruiseMissile));
    assert_eq!(ThreatKind::from_variant_name("KAB"), Some(ThreatKind::GuidedBomb));
    assert_eq!(ThreatKind::from_variant_name("guided_bomb"), Some(ThreatKind::GuidedBomb));
    assert_eq!(ThreatKind::from_variant_name("Recon_Drone"), Some(ThreatKind::ReconDrone));
    assert_eq!(ThreatKind::from_variant_name("all_clear"), Some(ThreatKind::AllClear));
    assert_eq!(ThreatKind::from_variant_name("drone"), None);
    assert_eq!(ThreatKind::from_variant_name(""), None);
    assert_eq!(ThreatKind::from_variant_name(" ballistic"), None);
    assert_eq!(
        ThreatKind::from_lowered_name(&chars("Ballistic")),
        None,
        "the lowered form is taken as it is"
    );
}

#[test]
fn proximity_order() {
    assert!(Proximity::District.exceeds(Proximity::City));
    assert!(Proximity::City.exceeds(Proximity::Oblast));
    assert!(Proximity::Oblast.exceeds(Proximity::Unmatched));
    assert!(!Proximity::City.exceeds(Proximity::City));
    assert!(!Proximity::Unmatched.exceeds(Proximity::Oblast));
    assert!(Proximity::Unmatched < Proximity::Oblast);
    assert!(Proximity::Oblast < Proximity::City);
    assert!(Proximity::City < Proximity::District);
    assert!(Proximity::District >= Proximity::District);
    let mut levels = vec![
        Proximity::City,
        Proximity::Unmatched,
        Proximity::District,
        Proximity::Oblast,
    ];
    levels.sort();
    assert_eq!(
        levels,
        vec![
            Proximity::Unmatched,
            Proximity::Oblast,
            Proximity::City,
            Proximity::District
        ]
    );
    for a in levels.iter().copied() {
        for b in levels.iter().copied() {
            assert_eq!(a > b, a.exceeds(b));
            assert_eq!(a.max(b), if a >= b { a } else { b });
        }
    }
    assert_eq!(Proximity::City.max(Proximity::Oblast), Proximity::City);
    assert_eq!(Proximity::Oblast.max(Proximity::District), Proximity::District);
    assert_eq!(Proximity::District.cap(), Proximity::City);
    assert_eq!(Proximity::Oblast.cap(), Proximity::Oblast);
    assert_eq!(Proximity::Unmatched.cap(), Proximity::Unmatched);
}

// ── Classifier ──

#[test]
fn detection_order_follows_the_tables_then_the_combinations() {
    assert_eq!(
        detect_lowered(&chars("шахеди та крилаті ракети")),
        vec![ThreatKind::CruiseMissile, ThreatKind::Shahed]
    );
    assert_eq!(
        detect_lowered(&chars("шахеди, 2х кр курсом на суми")),
        vec![ThreatKind::Shahed, ThreatKind::CruiseMissile]
    );
    assert_eq!(
        detect_raw(&chars("відбій, циркон, балістика, ракета, загроза")),
        vec![
            ThreatKind::AllClear,
            ThreatKind::Hypersonic,
            ThreatKind::Ballistic,
            ThreatKind::Missile,
            ThreatKind::Other
        ]
    );
}

#[test]
fn generic_kinds_give_way() {
    assert_eq!(
        settle(&[ThreatKind::Hypersonic, ThreatKind::CruiseMissile, ThreatKind::Missile]),
        vec![ThreatKind::Hypersonic]
    );
    assert_eq!(
        settle(&[ThreatKind::CruiseMissile, ThreatKind::Missile, ThreatKind::Other]),
        vec![ThreatKind::CruiseMissile]
    );
    assert_eq!(settle(&[ThreatKind::Other]), vec![ThreatKind::Other]);
    assert_eq!(
        settle(&[ThreatKind::AllClear, ThreatKind::Other]),
        vec![ThreatKind::AllClear]
    );
    assert_eq!(
        settle(&[ThreatKind::AllClear, ThreatKind::Shahed, ThreatKind::Missile]),
        vec![ThreatKind::AllClear, ThreatKind::Shahed, ThreatKind::Missile]
    );
    assert_eq!(settle(&[]), Vec::<ThreatKind>::new());
}

#[test]
fn embedded_abbreviation_is_no_cruise_missile() {
    assert!(!detect_threats("ситуація в Кролевці спокійна").contains(&ThreatKind::CruiseMissile));
    assert!(!detect_threats("Укрзалізниця на курсі").contains(&ThreatKind::CruiseMissile));
    assert!(detect_threats("КР курсом на Суми").contains(&ThreatKind::CruiseMissile));
    assert!(
        !detect_threats("КР").contains(&ThreatKind::CruiseMissile),
        "the abbreviation needs a supporting word"
    );
}

#[test]
fn detection_puts_the_text_in_lowercase_first() {
    assert_eq!(detect_threats("БАЛІСТИКА"), vec![ThreatKind::Ballistic]);
    assert_eq!(detect_lowered(&chars("БАЛІСТИКА")), Vec::<ThreatKind>::new());
    assert_eq!(detect_threats(""), Vec::<ThreatKind>::new());
}

#[test]
fn signature_and_primary_kind() {
    assert_eq!(threat_bit(ThreatKind::Ballistic), 1);
    assert_eq!(threat_bit(ThreatKind::Hypersonic), 2);
    assert_eq!(threat_bit(ThreatKind::CruiseMissile), 4);
    assert_eq!(threat_bit(ThreatKind::GuidedBomb), 8);
    assert_eq!(threat_bit(ThreatKind::Missile), 16);
    assert_eq!(threat_bit(ThreatKind::Shahed), 32);
    assert_eq!(threat_bit(ThreatKind::ReconDrone), 64);
    assert_eq!(threat_bit(ThreatKind::Aircraft), 128);
    assert_eq!(threat_bit(ThreatKind::AllClear), 0);
    assert_eq!(threat_bit(ThreatKind::Other), 0);
    assert_eq!(threat_signature(&[]), 0);
    assert_eq!(
        threat_signature(&[ThreatKind::Ballistic, ThreatKind::Shahed, ThreatKind::Other]),
        33
    );
    assert_eq!(primary_kind(&[]), None);
    assert_eq!(
        primary_kind(&[ThreatKind::Shahed, ThreatKind::Ballistic, ThreatKind::Missile]),
        Some(ThreatKind::Ballistic)
    );
    // Among kinds of one rank the one detected last stands for the message.
    assert_eq!(
        primary_kind(&[ThreatKind::CruiseMissile, ThreatKind::Shahed]),
        Some(ThreatKind::Shahed)
    );
    assert_eq!(
        primary_kind(&[ThreatKind::Shahed, ThreatKind::CruiseMissile]),
        Some(ThreatKind::CruiseMissile)
    );
    assert_eq!(time_since(10, 4), 6);
    assert_eq!(time_since(4, 10), 0);
}

// ── Reports ──

#[test]
fn recap_needs_two_phrases_and_density() {
    let two = "станом на ранок зафіксовано";
    let ten_breaks = "\n".repeat(10);
    let nine_breaks = "\n".repeat(9);
    assert!(is_informational_report(&chars(&format!("{two}{ten_breaks}"))));
    assert!(!is_informational_report(&chars(&format!("{two}{nine_breaks}"))));
    assert!(!is_informational_report(&chars(&format!("станом на ранок{ten_breaks}"))));
    assert!(is_informational_report(&chars(&format!("{two}\n- a\n- b\n•c"))));
    assert!(!is_informational_report(&chars(&format!("{two}\n- a\n- b"))));
    assert!(is_informational_report(&chars(&format!("{two} 12345678901234567890"))));
    assert!(!is_informational_report(&chars(&format!("{two} 1234567890123456789"))));
    assert!(!is_informational_report(&chars(&format!("{two}{ten_breaks} летить"))));
    assert!(is_dense(&chars("11111111112222222222")));
    assert!(!is_dense(&chars("")));
    assert!(has_live_movement_markers(&chars("група курсом на суми")));
    assert!(!has_live_movement_markers(&chars("група над сумами")));
}

#[test]
fn negative_update_cases() {
    assert!(is_negative_update(&chars("не фіксуються.")));
    assert!(is_negative_update(&chars("  все ")));
    assert!(is_negative_update(&chars("все.")));
    assert!(!is_negative_update(&chars("все добре")));
    assert!(is_negative_update(&chars("по цирконам минус")));
    assert!(!is_negative_update(&chars("чисте небо")), "an all-clear is no status update");
    assert!(!is_negative_update(&chars("чисто, але увага")));
    assert!(!is_negative_update(&chars("зникла, ще одна група")));
    assert!(is_negative_update(&chars("поки чисто, можливі повторні пуски")));
    assert!(is_negative_update(&chars("поки чисто, ймовірні повторні пуски")));
    assert!(!is_negative_update(&chars("поки чисто, повторні пуски")));
    assert!(!is_negative_update(&chars("шахеди на київ")));
}

// ── Location ──

#[test]
fn phrases_match_at_word_boundaries_and_tokens_anywhere() {
    let loc = LocationConfig {
        oblast: vec!["сумськ".to_string()],
        city: vec!["на суми".to_string()],
        district: vec![],
    };
    assert_eq!(loc.check("курсом на суми"), Proximity::City);
    assert_eq!(loc.check("курсом на суми!"), Proximity::City);
    assert_eq!(loc.check("курсом на сумищину"), Proximity::Unmatched);
    assert_eq!(loc.check("у сумському районі"), Proximity::Oblast);
    assert_eq!(loc.check("тихо"), Proximity::Unmatched);
    assert_eq!(loc.check("вона суми"), Proximity::Unmatched);
}

#[test]
fn resolve_follows_text_then_title() {
    let filter = kyiv_filter();
    assert_eq!(
        filter.resolve_location("шахеди у шевченківському районі", "x"),
        (Proximity::District, false)
    );
    assert_eq!(filter.resolve_location("шахеди на київ", "x"), (Proximity::City, false));
    assert_eq!(
        filter.resolve_location("шахеди на київ, київська область", "x"),
        (Proximity::Oblast, false)
    );
    assert_eq!(filter.resolve_location("шахеди", "Київ ІНФО"), (Proximity::City, false));
    assert_eq!(filter.resolve_location("шахеди", "x"), (Proximity::Unmatched, false));
    assert_eq!(
        filter.resolve_location("шахеди на харків", "Київ ІНФО"),
        (Proximity::Unmatched, false)
    );
    assert_eq!(
        filter.resolve_location("загроза по всій україні", "x"),
        (Proximity::Oblast, true)
    );
    assert_eq!(
        filter.resolve_location("загроза по всій україні", "Київ ІНФО"),
        (Proximity::City, true)
    );
    assert_eq!(
        filter.resolve_location("по всій україні, харків теж", "Київ ІНФО"),
        (Proximity::Oblast, true)
    );
    assert_eq!(
        filter.resolve_location("по всій україні, і на київ", "x"),
        (Proximity::City, true)
    );
}

// ── Context window ──

#[test]
fn window_infers_from_its_newest_entries() {
    let mut ctx = ChannelContext::new(1, 100);
    assert!(ctx.is_empty());
    assert_eq!(ctx.id(), 1);
    assert_eq!(ctx.infer_threat_from_triggers(0, &chars("тихо")), None);
    assert_eq!(
        ctx.infer_threat_from_triggers(0, &chars("ціль на київ")),
        Some(ThreatKind::Missile)
    );
    assert_eq!(ctx.infer_recent_threat(0), None);
    assert_eq!(ctx.infer_location(0), Proximity::Unmatched);

    ctx.add(0, chars("нічого"), vec![], Proximity::Unmatched);
    assert!(ctx.is_empty(), "a message without threat and level is not kept");

    ctx.add(1, chars("щось"), vec![ThreatKind::Hypersonic], Proximity::District);
    ctx.add(2, chars("мопеди"), vec![ThreatKind::Other, ThreatKind::AllClear], Proximity::Unmatched);
    assert_eq!(
        ctx.infer_threat_from_triggers(3, &chars("ще вихід")),
        Some(ThreatKind::Shahed),
        "the stems of the newest text come first"
    );
    assert_eq!(ctx.infer_recent_threat(3), Some(ThreatKind::Hypersonic));
    assert_eq!(ctx.infer_location(3), Proximity::City);
    assert_eq!(ctx.latest_missile_family(3, None), Some((1, ThreatKind::Hypersonic)));
    assert_eq!(
        ctx.latest_missile_family(3, Some((1, ThreatKind::Ballistic))),
        Some((1, ThreatKind::Ballistic)),
        "an equally recent sighting does not take the place of the first"
    );
    assert_eq!(
        ctx.latest_missile_family(3, Some((0, ThreatKind::Ballistic))),
        Some((1, ThreatKind::Hypersonic))
    );

    // At 101 the first entry has expired, the second has not.
    assert_eq!(ctx.infer_recent_threat(101), None);
    assert_eq!(ctx.latest_missile_family(101, None), None);
    assert!(!ctx.is_empty());
    ctx.evict(102);
    assert!(ctx.is_empty());
}

#[test]
fn window_prefers_the_last_of_equal_rank() {
    let mut ctx = ChannelContext::new(1, 100);
    ctx.add(0, chars("a"), vec![ThreatKind::CruiseMissile, ThreatKind::Shahed], Proximity::Oblast);
    assert_eq!(ctx.infer_recent_threat(1), Some(ThreatKind::Shahed));
    assert_eq!(
        ctx.infer_threat_from_triggers(1, &chars("цель")),
        Some(ThreatKind::CruiseMissile),
        "without a stem in the text the first target kind detected counts"
    );
    ctx.amend_last(vec![ThreatKind::GuidedBomb]);
    assert_eq!(ctx.infer_recent_threat(1), Some(ThreatKind::GuidedBomb));
    assert_eq!(ctx.infer_threat_from_triggers(1, &chars("цель")), Some(ThreatKind::Missile));
}

// ── Formatter ──

#[test]
fn formatter_joins_in_the_given_order() {
    assert_eq!(join_threats(&[]), "");
    assert_eq!(join_threats(&[ThreatKind::Missile]), "🚀 Ракета");
    assert_eq!(
        join_threats(&[ThreatKind::Shahed, ThreatKind::Ballistic, ThreatKind::Aircraft]),
        "🔺 Шахед / дрон + ‼️🚀 Балістика + ✈️ Авіація"
    );
    assert_eq!(
        format_alert(&[ThreatKind::GuidedBomb], Proximity::Oblast, "T", "x", true, false),
        "🔁 ПОВТОРНО\n💣 КАБ · 🟡 ОБЛАСТЬ\n———\nx\n— 📡 T"
    );
    assert_eq!(
        format_alert(&[ThreatKind::Other], Proximity::Unmatched, "", "", false, false),
        "⚠️ Загроза\n———\n\n— 📡 "
    );
    assert_eq!(
        format_negative_status(Proximity::Unmatched, false, "T", "все"),
        "ℹ️ Статус\n———\nвсе\n— 📡 T"
    );
    assert_eq!(
        format_negative_status(Proximity::District, true, "T", "все"),
        "ℹ️ Статус · 🟣 ВСЯ УКРАЇНА\n———\nвсе\n— 📡 T"
    );
}

#[test]
fn formatter_quotes_exactly_the_limit() {
    let at_limit: String = "я".repeat(3200);
    let over: String = "я".repeat(3201);
    let a = format_alert(&[ThreatKind::Other], Proximity::Unmatched, "T", &at_limit, false, false);
    let b = format_alert(&[ThreatKind::Other], Proximity::Unmatched, "T", &over, false, false);
    assert_eq!(a, b);
    assert_eq!(a, format!("⚠️ Загроза\n———\n{}\n— 📡 T", at_limit));
}

// ── Settings ──

#[test]
fn lists_are_split_trimmed_and_lowered() {
    assert_eq!(parse_list("Київ, Киев ,,  , KYIV"), vec!["київ", "киев", "kyiv"]);
    assert_eq!(parse_list(""), Vec::<String>::new());
    assert_eq!(parse_list(" , "), Vec::<String>::new());
    assert_eq!(parse_list("на Київ"), vec!["на київ"]);
    assert_eq!(parse_list("a,"), vec!["a"]);
    assert_eq!(parse_list(",a"), vec!["a"]);
}

#[test]
fn channels_lose_their_at_signs() {
    assert_eq!(parse_channels("@one, two ,@@three,,@"), vec!["one", "two", "three"]);
    assert_eq!(parse_channels("@ a"), vec![" a"]);
    assert_eq!(parse_channels("One"), vec!["One"]);
    assert_eq!(parse_channels(" , "), Vec::<String>::new());
}

#[test]
fn unsigned_numbers() {
    assert_eq!(parse_u64("0"), Some(0));
    assert_eq!(parse_u64("180"), Some(180));
    assert_eq!(parse_u64("+5"), Some(5));
    assert_eq!(parse_u64("007"), Some(7));
    assert_eq!(parse_u64("18446744073709551615"), Some(u64::MAX));
    assert_eq!(parse_u64("18446744073709551616"), None);
    assert_eq!(parse_u64("99999999999999999999999"), None);
    assert_eq!(parse_u64(""), None);
    assert_eq!(parse_u64("+"), None);
    assert_eq!(parse_u64("-1"), None);
    assert_eq!(parse_u64("1a"), None);
    assert_eq!(parse_u64(" 1"), None);
    assert_eq!(parse_u64("++1"), None);
    assert_eq!(parse_u64("١"), None);
    for text in ["0", "42", "+42", "x", "", "-7", "18446744073709551615", "18446744073709551616"] {
        assert_eq!(parse_u64(text), text.parse::<u64>().ok(), "{text}");
    }
}

#[test]
fn signed_numbers() {
    assert_eq!(parse_i32("0"), Some(0));
    assert_eq!(parse_i32("-0"), Some(0));
    assert_eq!(parse_i32("+12"), Some(12));
    assert_eq!(parse_i32("-12"), Some(-12));
    assert_eq!(parse_i32("2147483647"), Some(i32::MAX));
    assert_eq!(parse_i32("2147483648"), None);
    assert_eq!(parse_i32("-2147483648"), Some(i32::MIN));
    assert_eq!(parse_i32("-2147483649"), None);
    assert_eq!(parse_i32("-"), None);
    assert_eq!(parse_i32("+-1"), None);
    assert_eq!(parse_i32("--1"), None);
    assert_eq!(parse_i32("12 "), None);
    for text in ["1", "-1", "+1", "", "-", "+", "2147483648", "-2147483648", "1e3"] {
        assert_eq!(parse_i32(text), text.parse::<i32>().ok(), "{text}");
    }
}

#[test]
fn flags_and_switches() {
    assert!(parse_flag("1"));
    assert!(parse_flag("true"));
    assert!(parse_flag("TRUE"));
    assert!(parse_flag("tRuE"));
    assert!(!parse_flag("yes"));
    assert!(!parse_flag("0"));
    assert!(!parse_flag(""));
    assert!(!parse_flag(" true"));
    assert!(!parse_flag("truе"), "a Cyrillic letter is no ASCII letter");
    assert!(parse_switch("YES"));
    assert!(parse_switch("true"));
    assert!(parse_switch("1"));
    assert!(!parse_switch("no"));
    assert_eq!(seconds_to_millis(180), 180_000);
    assert_eq!(seconds_to_millis(0), 0);
    assert_eq!(seconds_to_millis(u64::MAX / 1000), (u64::MAX / 1000) * 1000);
    assert_eq!(seconds_to_millis(u64::MAX / 1000 + 1), u64::MAX);
}

#[test]
fn run_mode_by_name() {
    assert_eq!(RunMode::parse("live"), RunMode::Live);
    assert_eq!(RunMode::parse(" Dump_Today\n"), RunMode::DumpToday);
    assert_eq!(RunMode::parse("DUMP"), RunMode::DumpToday);
    assert_eq!(RunMode::parse("replay"), RunMode::Replay);
    assert_eq!(RunMode::parse(""), RunMode::Live);
    assert_eq!(RunMode::parse("re play"), RunMode::Live);
}

#[test]
fn engine_from_written_settings() {
    let raw = RawSettings {
        oblast: Some("Київськ, Киевск"),
        city: Some("Київ,Киев"),
        district: None,
        dedup_window_secs: Some("10"),
        context_window_secs: Some("0"),
        urgent_cooldown_secs: None,
        negative_status_cooldown_secs: Some("+7"),
        forward_all_threats: Some("True"),
    };
    let filter = AlertFilter::from_settings(&raw).expect("valid settings");
    assert_eq!(filter.location.oblast, vec!["київськ", "киевск"]);
    assert_eq!(filter.location.city, vec!["київ", "киев"]);
    assert!(filter.location.district.is_empty());
    assert_eq!(filter.dedup_window, 10_000);
    assert_eq!(filter.context_window, 0);
    assert_eq!(filter.urgent_same_channel_cooldown, 0);
    assert_eq!(filter.negative_status_cooldown, 7_000);
    assert!(filter.forward_all_threats);

    let bare = RawSettings {
        oblast: None,
        city: None,
        district: None,
        dedup_window_secs: None,
        context_window_secs: None,
        urgent_cooldown_secs: None,
        negative_status_cooldown_secs: None,
        forward_all_threats: None,
    };
    let filter = AlertFilter::from_settings(&bare).expect("defaults are valid");
    assert_eq!(filter.dedup_window, 180_000);
    assert_eq!(filter.context_window, 300_000);
    assert_eq!(filter.urgent_same_channel_cooldown, 0);
    assert_eq!(filter.negative_status_cooldown, 120_000);
    assert!(!filter.forward_all_threats);
    assert!(filter.location.city.is_empty());
}

#[test]
fn engine_is_not_built_on_invalid_settings() {
    let bare = || RawSettings {
        oblast: Some("київськ"),
        city: None,
        district: None,
        dedup_window_secs: None,
        context_window_secs: None,
        urgent_cooldown_secs: None,
        negative_status_cooldown_secs: None,
        forward_all_threats: None,
    };
    let bad_dedup = RawSettings { dedup_window_secs: Some("abc"), ..bare() };
    assert_eq!(
        AlertFilter::from_settings(&bad_dedup).err(),
        Some(ConfigError::BadDuration)
    );
    let bad_context = RawSettings { context_window_secs: Some(""), ..bare() };
    assert_eq!(
        AlertFilter::from_settings(&bad_context).err(),
        Some(ConfigError::BadDuration)
    );
    let bad_urgent = RawSettings { urgent_cooldown_secs: Some("-1"), ..bare() };
    assert_eq!(
        AlertFilter::from_settings(&bad_urgent).err(),
        Some(ConfigError::BadDuration)
    );
    let bad_negative = RawSettings {
        negative_status_cooldown_secs: Some("18446744073709551616"),
        ..bare()
    };
    assert_eq!(
        AlertFilter::from_settings(&bad_negative).err(),
        Some(ConfigError::BadDuration)
    );
    // A flag that says nothing known is a flag that is not set.
    let odd_flag = RawSettings { forward_all_threats: Some("maybe"), ..bare() };
    let filter = AlertFilter::from_settings(&odd_flag).expect("valid settings");
    assert!(!filter.forward_all_threats);
    // A time too long for the clock is kept as the longest time there is.
    let long = RawSettings { dedup_window_secs: Some("18446744073709551615"), ..bare() };
    let filter = AlertFilter::from_settings(&long).expect("valid settings");
    assert_eq!(filter.dedup_window, u64::MAX);
}

#[test]
fn client_settings_need_channels_and_a_numeric_id() {
    let none = TgCfg::from_values(" , @", "1", "h".into(), "p".into(), None, None);
    assert_eq!(none.err(), Some(ConfigError::NoChannels));
    let both_wrong = TgCfg::from_values("", "x", "h".into(), "p".into(), None, None);
    assert_eq!(both_wrong.err(), Some(ConfigError::NoChannels));
    let bad_id = TgCfg::from_values("@a", "12345678901", "h".into(), "p".into(), None, None);
    assert_eq!(bad_id.err(), Some(ConfigError::BadApiId));
    let cfg = TgCfg::from_values("@a, b", "42", "h".into(), "p".into(), Some("pw".into()), None)
        .expect("valid");
    assert_eq!(cfg.api_id, 42);
    assert_eq!(cfg.api_hash, "h");
    assert_eq!(cfg.phone, "p");
    assert_eq!(cfg.two_fa_password.as_deref(), Some("pw"));
    assert_eq!(cfg.session_path, "./telegram.session.sqlite");
    assert_eq!(cfg.channels, vec!["a", "b"]);
    let cfg = TgCfg::from_values("a", "-1", "h".into(), "p".into(), None, Some("s.db".into()))
        .expect("valid");
    assert_eq!(cfg.session_path, "s.db");
    assert_eq!(cfg.api_id, -1);
    assert_eq!(cfg.two_fa_password, None);
}

// ── Second opinion ──

#[test]
fn question_text_is_exact() {
    let prompt = build_user_prompt(
        "Шахеди на Київ",
        &[ThreatKind::Shahed, ThreatKind::CruiseMissile],
        Proximity::City,
        false,
    );
    assert_eq!(
        prompt,
        "Message from channel:\n```\nШахеди на Київ\n```\n\
         Keyword filter detected: [Shahed, CruiseMissile]\n\
         Proximity: City\n\
         Nationwide: false\n\n\
         Classify:"
    );
    let prompt = build_user_prompt(&"я".repeat(801), &[], Proximity::Unmatched, true);
    assert_eq!(
        prompt,
        format!(
            "Message from channel:\n```\n{}\n```\nKeyword filter detected: []\nProximity: None\nNationwide: true\n\nClassify:",
            "я".repeat(800)
        )
    );
}

#[test]
fn verdict_of_an_answer() {
    let keyword = [ThreatKind::Missile, ThreatKind::Shahed];
    let names = |list: &[&str]| list.iter().map(|s| s.to_string()).collect::<Vec<String>>();
    assert_eq!(interpret_verdict(&keyword, None), keyword.to_vec());
    assert_eq!(interpret_verdict(&keyword, Some(&names(&[]))), vec![]);
    assert_eq!(interpret_verdict(&[], Some(&names(&[]))), vec![]);
    assert_eq!(
        interpret_verdict(&keyword, Some(&names(&["Shahed"]))),
        vec![ThreatKind::Shahed]
    );
    assert_eq!(
        interpret_verdict(&keyword, Some(&names(&["SHAHED", "Ballistic", "missile"]))),
        vec![ThreatKind::Shahed, ThreatKind::Missile],
        "a kind that the keywords did not find is passed over"
    );
    assert_eq!(
        interpret_verdict(&keyword, Some(&names(&["nonsense", "BALLISTIC", "kab"]))),
        keyword.to_vec(),
        "an answer that confirms nothing leaves the keyword verdict"
    );
    assert_eq!(
        interpret_verdict(&[], Some(&names(&["Ballistic"]))),
        vec![],
        "nothing can be added to nothing"
    );
    assert_eq!(
        keep_found(
            &[ThreatKind::Other, ThreatKind::Shahed, ThreatKind::Ballistic],
            &[ThreatKind::Ballistic, ThreatKind::Other]
        ),
        vec![ThreatKind::Other, ThreatKind::Ballistic]
    );
    assert_eq!(keep_found(&[ThreatKind::Other], &[]), vec![]);
    assert_eq!(
        interpret_verdict(&keyword, Some(&names(&["nonsense", "?"]))),
        keyword.to_vec(),
        "names that stand for nothing leave the keyword verdict"
    );
    assert_eq!(
        parse_names(&names(&["Other", "x", "other"])),
        vec![ThreatKind::Other, ThreatKind::Other]
    );
}
