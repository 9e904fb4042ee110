//! Detection, urgency, proximity and deduplication on sample messages.

use alert_filter::{
    detect_threats,
    is_nationwide,
    is_urgent,
    kharkiv_filter,
    kyiv_filter,
    LocationConfig,
    Proximity,
    ThreatKind,
};

#[test]
fn filter_detects_ballistic_ua() {
    let threats = detect_threats("увага! балістична загроза з півдня");
    assert!(threats.contains(&ThreatKind::Ballistic));
    assert!(!threats.contains(&ThreatKind::Missile));
}

#[test]
fn filter_detects_ballistic_ua_noun() {
    let threats = detect_threats("загроза балістики з брянська");
    assert!(threats.contains(&ThreatKind::Ballistic));
}

#[test]
fn filter_detects_shahed_ua() {
    let threats = detect_threats("шахеди в напрямку харкова");
    assert!(threats.contains(&ThreatKind::Shahed));
}

#[test]
fn filter_detects_generic_missile_ua() {
    let threats = detect_threats("пуск ракети з півдня");
    assert!(threats.contains(&ThreatKind::Missile));
}

#[test]
fn filter_detects_iskander_ua() {
    let threats = detect_threats("можливі пуски ракет типу «іскандер-м/кн-23/с-300");
    assert!(threats.contains(&ThreatKind::Ballistic));
    assert!(!threats.contains(&ThreatKind::Missile));
}

#[test]
fn filter_detects_ballistic_ru() {
    let threats = detect_threats("баллистика на киев!");
    assert!(threats.contains(&ThreatKind::Ballistic));
    assert!(!threats.contains(&ThreatKind::Missile));
}

#[test]
fn filter_detects_ballistic_ru_plural() {
    let threats = detect_threats("4 баллистики на днепр");
    assert!(threats.contains(&ThreatKind::Ballistic));
}

#[test]
fn filter_detects_moped_ru() {
    let threats = detect_threats("8 мопедов летят на днепр");
    assert!(threats.contains(&ThreatKind::Shahed));
}

#[test]
fn filter_detects_missile_ru() {
    let threats = detect_threats("2 ракеты на киев");
    assert!(threats.contains(&ThreatKind::Missile));
}

#[test]
fn filter_detects_mixed_ru() {
    let threats = detect_threats("10 мопедов и 4 баллистики на днепр");
    assert!(threats.contains(&ThreatKind::Shahed));
    assert!(threats.contains(&ThreatKind::Ballistic));
    assert!(!threats.contains(&ThreatKind::Missile));
}

#[test]
fn filter_detects_hypersonic_ua() {
    let threats = detect_threats("гіперзвукова ракета з півдня");
    assert!(threats.contains(&ThreatKind::Hypersonic));
    assert!(!threats.contains(&ThreatKind::Missile)); // suppressed
}

#[test]
fn filter_detects_zircon_ru() {
    let threats = detect_threats("пуск циркона з акваторії чорного моря");
    assert!(threats.contains(&ThreatKind::Hypersonic));
}

#[test]
fn filter_detects_kab_ua() {
    let threats = detect_threats("скидання каб-500 по позиціях");
    assert!(threats.contains(&ThreatKind::GuidedBomb));
}

#[test]
fn filter_detects_fab_ru() {
    let threats = detect_threats("сброс фаб-500 по харькову");
    assert!(threats.contains(&ThreatKind::GuidedBomb));
}

#[test]
fn filter_detects_umpb() {
    let threats = detect_threats("умпб в напрямку сумської області");
    assert!(threats.contains(&ThreatKind::GuidedBomb));
}

#[test]
fn filter_detects_guided_bomb_ua_long() {
    let threats = detect_threats("загроза застосування керованих авіабомб");
    assert!(threats.contains(&ThreatKind::GuidedBomb));
}

#[test]
fn filter_detects_bezpilotnik_ua() {
    let threats = detect_threats("безпілотники в напрямку києва");
    assert!(threats.contains(&ThreatKind::Shahed));
}

#[test]
fn filter_detects_gazonokosilka() {
    // slang "газонокосилка" (lawnmower) = Shahed
    let threats = detect_threats("газонокосилки на підльоті до київської області");
    assert!(threats.contains(&ThreatKind::Shahed));
}

#[test]
fn filter_detects_kamikaze_drone() {
    let threats = detect_threats("дрон-камікадзе над полтавською областю");
    assert!(threats.contains(&ThreatKind::Shahed));
}

#[test]
fn filter_detects_strategic_aviation_ua() {
    let threats = detect_threats("зліт стратегічної авіації з аеродрому енгельс");
    assert!(threats.contains(&ThreatKind::Aircraft));
}

#[test]
fn filter_detects_takeoff_ru() {
    let threats = detect_threats("взлёт ту-95 с аэродрома энгельс");
    assert!(threats.contains(&ThreatKind::Aircraft));
}

#[test]
fn filter_detects_su57() {
    let threats = detect_threats("су-57 в повітрі");
    assert!(threats.contains(&ThreatKind::Aircraft));
}

#[test]
fn filter_detects_launch_ru() {
    let threats = detect_threats("запуск ракет з акваторії");
    assert!(threats.contains(&ThreatKind::Missile));
}

#[test]
fn filter_detects_heading_to_ua() {
    let threats = detect_threats("ракети курсом на захід");
    assert!(threats.contains(&ThreatKind::Missile));
}

#[test]
fn filter_detects_debris_ua() {
    let threats = detect_threats("падіння уламків у шевченківському районі");
    assert!(threats.contains(&ThreatKind::Other));
}

#[test]
fn filter_detects_shelter_ua() {
    let threats = detect_threats("терміново в укриття!");
    assert!(threats.contains(&ThreatKind::Other));
}

#[test]
fn filter_detects_cluster_munition_ru() {
    let threats = detect_threats("кассетные боеприпасы по области");
    assert!(threats.contains(&ThreatKind::Other));
}

#[test]
fn filter_no_false_positive_analytical_report() {
    // This is a calm situation report from Aeris Rimor – NOT an active
    // alert. Previously "пускові" triggered Missile via "пуск" stem.
    let threats = detect_threats(
        "проявів з того моменту особливо помічено не було. \
         очікуваними є до 2:30. бо в цей період крайній відрізок \
         коли може відбутись виліт са з оленья, аби встигнути \
         на пускові зони згідно поточної тактики застосування. \
         також нагадую, що у випадку атак на центр країни, ворог \
         може починати основну фазу вже вночі. пильнуємо ще \
         щонайменше до 2 годин ночі. але поки все відносно спокійно.",
    );
    // Should NOT detect any threat – this is informational text.
    assert!(
        threats.is_empty(),
        "False positive on analytical report: {threats:?}"
    );
}

#[test]
fn filter_no_false_missile_on_napryamku() {
    // "у напрямку Кілія" is a direction, not a missile indicator.
    // Only Shahed (via "бпла") should match.
    let threats = detect_threats("група ~10х бпла у напрямку кілія/ізмаїл, одещина");
    assert!(threats.contains(&ThreatKind::Shahed));
    assert!(
        !threats.contains(&ThreatKind::Missile),
        "\"напрямку\" should not trigger Missile: {threats:?}"
    );
}

#[test]
fn filter_no_false_missile_on_puskovi() {
    // "пускові зони" is analytical, not an active launch.
    let threats = detect_threats("встигнути на пускові зони");
    assert!(
        threats.is_empty(),
        "\"пускові\" should not trigger: {threats:?}"
    );
}

#[test]
fn filter_no_false_missile_on_tsilkom() {
    // "цілком спокійно" = "completely calm" – not a target/missile.
    let threats = detect_threats("цілком спокійно, загрози немає");
    assert!(
        !threats.contains(&ThreatKind::Missile),
        "\"цілком\" should not trigger Missile: {threats:?}"
    );
}

#[test]
fn filter_no_false_missile_on_tseliy() {
    // "в целом" = "in general" – not a target/missile.
    let threats = detect_threats("в целом ситуация спокойная");
    assert!(
        !threats.contains(&ThreatKind::Missile),
        "\"целом\" should not trigger Missile: {threats:?}"
    );
}

#[test]
fn filter_no_false_missile_on_tselikom() {
    // "целиком" = "completely" – not a target/missile.
    let threats = detect_threats("целиком уничтожен объект");
    assert!(
        !threats.contains(&ThreatKind::Missile),
        "\"целиком\" should not trigger Missile: {threats:?}"
    );
}

#[test]
fn filter_process_skips_analytical_report() {
    // Full integration test: the Aeris Rimor message should be
    // completely skipped (no threat keywords → None).
    let mut filter = kyiv_filter();
    let r = filter.process(
        "Aeris Rimor",
        "Проявів з того моменту особливо помічено не було.\n\
         Очікуваними є до 2:30. Бо в цей період крайній відрізок \
         коли може відбутись виліт СА з Оленья, аби встигнути \
         на пускові зони згідно поточної тактики застосування.\n\
         Також нагадую, що у випадку атак на центр країни, ворог \
         може починати основну фазу вже вночі.\n\
         Пильнуємо ще щонайменше до 2 годин ночі. Але поки все \
         відносно спокійно. Не рахуючи схід та Одещину.",
    );
    assert!(r.is_none(), "Analytical report should NOT be forwarded");
}

#[test]
fn filter_process_drone_no_missile_tag() {
    // The BpLA message should only get Shahed tag, NOT Missile.
    let mut filter = kyiv_filter();
    // Use a filter that matches Одеська for test purposes
    filter.forward_all_threats = true;
    let r = filter.process(
        "monitor",
        "⚠️ Група ~10х БпЛА у напрямку Кілія/Ізмаїл, Одещина",
    );
    assert!(r.is_some());
    let text = r.unwrap();
    assert!(text.contains("Шахед"), "Should detect Shahed");
    assert!(
        !text.contains("Ракета"),
        "Should NOT detect Missile from напрямку"
    );
}

#[test]
fn filter_detects_all_clear_ua() {
    let threats = detect_threats("відбій тривоги");
    assert!(threats.contains(&ThreatKind::AllClear));
}

#[test]
fn filter_detects_all_clear_ru() {
    let threats = detect_threats("отбой тревоги");
    assert!(threats.contains(&ThreatKind::AllClear));
}

#[test]
fn filter_detects_all_clear_ua_sky() {
    let threats = detect_threats("чисте небо над київською областю");
    assert!(threats.contains(&ThreatKind::AllClear));
}

#[test]
fn filter_detects_all_clear_ru_sky() {
    let threats = detect_threats("чистое небо, угроза миновала");
    assert!(threats.contains(&ThreatKind::AllClear));
}

#[test]
fn filter_urgency_povtorno_ru() {
    assert!(is_urgent("повторно баллистика на киев!"));
}

#[test]
fn filter_urgency_povtorno_ua() {
    assert!(is_urgent("повторно балістика на київ!"));
}

#[test]
fn filter_urgency_additionally_ua() {
    assert!(is_urgent("додатково загроза балістики з таганрога"));
}

#[test]
fn filter_urgency_more_targets() {
    assert!(is_urgent("ще ціль на київ"));
}

#[test]
fn filter_urgency_new_wave_ua() {
    assert!(is_urgent("нова хвиля шахедів"));
}

#[test]
fn filter_urgency_new_wave_ru() {
    assert!(is_urgent("новая волна дронов"));
}

#[test]
fn filter_urgency_terminovo_ua() {
    assert!(is_urgent("терміново в укриття!"));
}

#[test]
fn filter_urgency_srochno_ru() {
    assert!(is_urgent("срочно в укрытие!"));
}

#[test]
fn filter_no_urgency_in_normal_msg() {
    assert!(!is_urgent("баллистика на киев!"));
}

#[test]
fn filter_proximity_city_ru() {
    let filter = kyiv_filter();
    let p = filter.location.check("2 ракеты на киев");
    assert_eq!(p, Proximity::City);
}

#[test]
fn filter_proximity_city_ua() {
    let filter = kyiv_filter();
    let p = filter.location.check("ще ціль на київ");
    assert_eq!(p, Proximity::City);
}

#[test]
fn filter_proximity_satellite_city() {
    let filter = kyiv_filter();
    let p = filter
        .location
        .check("баллистика на киев/васильков !!! 2 ракеты");
    assert_eq!(p, Proximity::City);
}

#[test]
fn filter_proximity_district() {
    let filter = kharkiv_filter();
    let p = filter.location.check("вибухи у київському районі харкова");
    assert_eq!(p, Proximity::District);
}

#[test]
fn filter_proximity_city_kharkiv() {
    let filter = kharkiv_filter();
    let p = filter.location.check("дрони в напрямку харкова");
    assert_eq!(p, Proximity::City);
}

#[test]
fn filter_proximity_oblast_isolated() {
    // Test oblast with a config where city doesn't collide with oblast root
    let loc = LocationConfig {
        oblast: vec!["харківськ".into()],
        city: vec!["ізюм".into()],
        district: vec![],
    };
    let p = loc.check("загроза для харківської області");
    assert_eq!(p, Proximity::Oblast);
}

#[test]
fn filter_no_match_skipped() {
    let mut filter = kyiv_filter();
    let result = filter.process("Канал", "баллистика на одессу");
    assert!(result.is_none());
}

#[test]
fn filter_matching_message_forwarded() {
    let mut filter = kyiv_filter();
    let result = filter.process("Alerts", "баллистика на киев!");
    assert!(result.is_some());
}

#[test]
fn filter_dedup_suppresses_duplicate() {
    let mut filter = kyiv_filter();
    let r1 = filter.process("Ch1", "2 ракеты на киев");
    assert!(r1.is_some());
    // Same threat kind + same proximity → suppressed
    let r2 = filter.process("Ch2", "ракеты летят на киев");
    assert!(r2.is_none());
}

#[test]
fn filter_dedup_allows_proximity_upgrade() {
    let mut filter = kharkiv_filter();
    let r1 = filter.process("Ch1", "шахеди увійшли в харківську область");
    assert!(r1.is_some());
    let r2 = filter.process("Ch2", "шахеди над київським районом харкова");
    assert!(r2.is_some()); // upgrade Oblast → District
}

#[test]
fn filter_different_threat_kinds_not_deduped() {
    let mut filter = kyiv_filter();
    let r1 = filter.process("Ch1", "мопеды летят к киеву");
    assert!(r1.is_some());
    let r2 = filter.process("Ch1", "баллистика на киев!");
    assert!(r2.is_some());
}

#[test]
fn filter_repeated_bypasses_dedup() {
    let mut filter = kyiv_filter();
    let r1 = filter.process("Ch1", "баллистика на киев!");
    assert!(r1.is_some());
    // Normally same threat+city would be suppressed, but "повторно" bypasses dedup.
    let r2 = filter.process("Ch1", "повторно баллистика на киев!");
    assert!(r2.is_some());
    assert!(r2.unwrap().contains("ПОВТОРНО"));
}

#[test]
fn filter_repeated_missile_ru() {
    let mut filter = kyiv_filter();
    let r1 = filter.process("Ch1", "2 ракеты на киев");
    assert!(r1.is_some());
    let r2 = filter.process("Ch2", "повторно 2 ракеты на киев !");
    assert!(r2.is_some());
}

#[test]
fn filter_additionally_bypasses_dedup() {
    let mut filter = kyiv_filter();
    let r1 = filter.process("Ch1", "загроза балістики з брянська на київ");
    assert!(r1.is_some());
    let r2 = filter.process("Ch2", "додатково загроза балістики з таганрога на київ");
    assert!(r2.is_some());
}

#[test]
fn filter_all_clear_always_forwarded() {
    let mut filter = kyiv_filter();
    // No prior threat needed; all-clear is always forwarded.
    let r = filter.process("Ch1", "відбій тривоги");
    assert!(r.is_some());
    assert!(r.unwrap().contains("Відбій"));
}

#[test]
fn filter_all_clear_clears_dedup_cache() {
    let mut filter = kyiv_filter();
    let r1 = filter.process("Ch1", "баллистика на киев!");
    assert!(r1.is_some());
    // All-clear should clear the cache
    let r2 = filter.process("Ch1", "відбій тривоги");
    assert!(r2.is_some());
    // Same threat as before should now go through (cache cleared)
    let r3 = filter.process("Ch1", "баллистика на киев!");
    assert!(r3.is_some());
}

#[test]
fn filter_sample_mopeds_to_kyiv() {
    let mut filter = kyiv_filter();
    let r = filter.process("Ch", "12 мопедов летят к киеву");
    assert!(r.is_some());
}

#[test]
fn filter_sample_ballistic_vasylkiv() {
    let mut filter = kyiv_filter();
    let r = filter.process("Ch", "баллистика на киев/васильков !!! 2 ракеты");
    assert!(r.is_some());
}

#[test]
fn filter_sample_2_targets_on_kyiv() {
    let mut filter = kyiv_filter();
    let r = filter.process("Ch", "2 цілі на київ");
    assert!(r.is_some());
}

#[test]
fn filter_sample_repeated_ballistic_ua() {
    let mut filter = kyiv_filter();
    let _ = filter.process("Ch1", "балістика на київ");
    // "Повторно" should bypass dedup
    let r2 = filter.process("Ch2", "повторно балістика на київ!");
    assert!(r2.is_some());
}

#[test]
fn filter_full_scenario_6_steps() {
    let mut filter = kyiv_filter();

    // 1. Ch1: normal → forwarded (first alert)
    let r1 = filter.process("Ch1", "баллистика на киев!");
    assert!(r1.is_some());

    // 2. Ch2: normal duplicate → suppressed (dedup)
    let r2 = filter.process("Ch2", "баллистика на киев");
    assert!(r2.is_none());

    // 3. Ch3: "повторно" → forwarded (first re-alert)
    let r3 = filter.process("Ch3", "повторно баллистика на киев!");
    assert!(r3.is_some());
    assert!(r3.unwrap().contains("ПОВТОРНО"));

    // 4. Ch4: "повторно" from different channel → suppressed (echo)
    let r4 = filter.process("Ch4", "повторно баллистика на киев!!!");
    assert!(r4.is_none());

    // 5. Ch5: normal → suppressed
    let r5 = filter.process("Ch5", "баллистика на київ/васильков");
    assert!(r5.is_none());

    // 6. Ch3: same channel "повторно" again → forwarded (genuine new wave)
    let r6 = filter.process("Ch3", "повторно баллистика на киев!");
    assert!(r6.is_some());
}

#[test]
fn filter_non_urgent_after_urgent_still_suppressed() {
    let mut filter = kyiv_filter();
    let r1 = filter.process("Ch1", "баллистика на киев!");
    assert!(r1.is_some());
    let r2 = filter.process("Ch2", "повторно баллистика на киев!");
    assert!(r2.is_some());
    // Non-urgent from a 3rd channel → suppressed
    let r3 = filter.process("Ch3", "баллистика на киев!");
    assert!(r3.is_none());
}

#[test]
fn filter_urgent_proximity_upgrade_still_works() {
    let mut filter = kharkiv_filter();
    // City-level alert
    let r1 = filter.process("Ch1", "шахеди увійшли в харківську область");
    assert!(r1.is_some());
    // Urgent + proximity upgrade → goes through
    let r2 = filter.process("Ch2", "повторно шахеди над київським районом харкова");
    assert!(r2.is_some());
}

#[test]
fn filter_detects_brsd_ua() {
    let threats = detect_threats(
        "загроза застосування балістики середньої дальності (брсд) по всій території україни",
    );
    assert!(threats.contains(&ThreatKind::Ballistic));
}

#[test]
fn filter_detects_oreshnik_ua() {
    let threats = detect_threats("імовірний пуск ракети кедр/орєшнік (п/п рс-26)");
    assert!(threats.contains(&ThreatKind::Ballistic)); // кедр, рс-26
    assert!(threats.contains(&ThreatKind::Hypersonic)); // орєшнік
}

#[test]
fn filter_detects_oreshnik_ru() {
    let threats = detect_threats("орешник по всей территории украины!");
    assert!(threats.contains(&ThreatKind::Hypersonic));
}

#[test]
fn filter_detects_kedr() {
    let threats = detect_threats("запуск ракети кедр з астраханської області");
    assert!(threats.contains(&ThreatKind::Ballistic));
}

#[test]
fn filter_detects_rs26() {
    let threats = detect_threats("рс-26 рубіж запущено");
    assert!(threats.contains(&ThreatKind::Ballistic));
}

#[test]
fn filter_detects_medium_range_ru() {
    let threats = detect_threats("баллистическая ракета средней дальности");
    assert!(threats.contains(&ThreatKind::Ballistic));
}

#[test]
fn filter_detects_icbm_ua() {
    let threats = detect_threats("загроза міжконтинентальної балістичної ракети");
    assert!(threats.contains(&ThreatKind::Ballistic));
}

#[test]
fn filter_nationwide_ua() {
    assert!(is_nationwide("загроза по всій території україни"));
}

#[test]
fn filter_nationwide_ru() {
    assert!(is_nationwide("угроза по всей территории украины"));
}

#[test]
fn filter_not_nationwide_normal() {
    assert!(!is_nationwide("баллистика на киев!"));
}

#[test]
fn filter_not_nationwide_regional_territory() {
    // "по всій території області" should NOT match —
    // it's regional, not nationwide.
    assert!(!is_nationwide("по всій території харківської області"));
    assert!(!is_nationwide("по всей территории области"));
}

#[test]
fn filter_nationwide_bypasses_location_filter() {
    let mut filter = kharkiv_filter();
    // This message has no Kharkiv-specific location keywords, but it
    // says "по всій території" so it should still be forwarded.
    let r = filter.process(
        "Alerts",
        "‼️увага! загроза застосування балістики середньої дальності (брсд) \
         по всій території україни. імовірний пуск ракети кедр/орєшнік (п/п рс-26). \
         перебувайте в безпечних місцях та не ігноруйте сигнали тривоги.",
    );
    assert!(r.is_some());
    let text = r.unwrap();
    assert!(text.contains("Балістика"));
    assert!(text.contains("ВСЯ УКРАЇНА"));
}

#[test]
fn filter_nationwide_shows_correct_tag() {
    let mut filter = kyiv_filter();
    let r = filter.process("Ch1", "загроза балістики по всій території україни");
    assert!(r.is_some());
    assert!(r.unwrap().contains("🟣 ВСЯ УКРАЇНА"));
}

#[test]
fn filter_nationwide_with_city_match_still_nationwide_tag() {
    // Even if Kyiv is mentioned, "по всій території" means nationwide.
    let mut filter = kyiv_filter();
    let r = filter.process(
        "Ch1",
        "баллистика по всей территории украины, в том числе на киев",
    );
    assert!(r.is_some());
    assert!(r.unwrap().contains("ВСЯ УКРАЇНА"));
}

#[test]
fn filter_sample_oreshnik_brsd_nationwide() {
    let mut filter = kyiv_filter();
    let msg = "‼️Увага! Загроза застосування балістики середньої дальності (БРСД) \
               по всій території України.\n\
               \n\
               Імовірний пуск ракети Кедр/Орєшнік (п/п РС-26).\n\
               Перебувайте в безпечних місцях та не ігноруйте сигнали тривоги.";
    let r = filter.process("ПС ЗСУ", msg);
    assert!(r.is_some());
    let text = r.unwrap();
    // Must detect both Ballistic and Hypersonic
    assert!(text.contains("Балістика"));
    assert!(text.contains("Гіперзвук"));
    // Must show nationwide tag
    assert!(text.contains("ВСЯ УКРАЇНА"));
}
