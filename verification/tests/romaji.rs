use ainukey::romaji::normalize;

#[test]
fn ti_to_ci_onset() {
    // The headline feature. Ainu has no canonical onset `ti`; fold to `ci`.
    assert_eq!(normalize("tikuni"), "cikuni"); // → チクニ
    assert_eq!(normalize("ti"), "ci");
    assert_eq!(normalize("tita"), "cita");
}

#[test]
fn chi_to_ci() {
    assert_eq!(normalize("chikuni"), "cikuni"); // → チクニ
    assert_eq!(normalize("chise"), "cise"); // → チセ
    assert_eq!(normalize("chi"), "ci");
}

#[test]
fn ch_family_to_c() {
    // cha/chu/che/cho → ca/cu/ce/co (ainconv: ca=チャ, ce=チェ, …).
    assert_eq!(normalize("cha"), "ca");
    assert_eq!(normalize("chu"), "cu");
    assert_eq!(normalize("che"), "ce");
    assert_eq!(normalize("cho"), "co");
    // chi must NOT be split by the 2-char ch rule — 3-char wins.
    assert_eq!(normalize("chi"), "ci");
    assert_eq!(normalize("pacha"), "paca");
}

#[test]
fn shi_to_si_onset() {
    assert_eq!(normalize("shisam"), "sisam"); // → シサㇺ
    assert_eq!(normalize("shi"), "si");
    assert_eq!(normalize("ashi"), "asi"); // onset after a vowel
}

#[test]
fn fu_to_hu() {
    assert_eq!(normalize("fuchi"), "huci"); // フチ (combines R8 + R3)
    assert_eq!(normalize("fu"), "hu");
}

// ---- The dropped rule (R6): tsu MUST be left alone. ----

#[test]
fn tsu_is_not_folded() {
    // Real dictionary headwords with coda-`t` + onset-`s`. Folding `tsu`→`tu`
    // would corrupt these (ainconv: `satsuwe`→サッスウェ but `satuwe`→サト゚ウェ).
    assert_eq!(normalize("satsuwe"), "satsuwe");
    assert_eq!(normalize("petsuwe"), "petsuwe");
    assert_eq!(normalize("matsuwop"), "matsuwop");
    assert_eq!(normalize("sutsurke"), "sutsurke");
    assert_eq!(normalize("sirsutsurke"), "sirsutsurke");
    assert_eq!(normalize("enotsuye"), "enotsuye");
    // And the bare cluster.
    assert_eq!(normalize("tsuki"), "tsuki");
}

#[test]
fn tu_is_canonical_and_untouched() {
    // The ツ sound is typed `tu` directly; `sutu` (ストゥ) etc. stay verbatim.
    assert_eq!(normalize("tu"), "tu");
    assert_eq!(normalize("tuki"), "tuki"); // → ト゚キ
    assert_eq!(normalize("tunci"), "tunci"); // → ト゚ンチ
    assert_eq!(normalize("sutu"), "sutu"); // → ストゥ
    assert_eq!(normalize("numasut"), "numasut");
}

// ---- Onset gating: coda seams must NOT be folded. ----

#[test]
fn ti_coda_cluster_seam_not_folded() {
    // A coda-`t` that is the tail of a consonant cluster meeting `i` must
    // keep its `t`: only a consonant after a vowel, `’` or the start folds.
    // e.g. `...rt` + `i...`: the `t` after `r` is a coda, not an onset.
    assert_eq!(normalize("karti"), "karti");
    assert_eq!(normalize("masti"), "masti");
}

#[test]
fn shi_coda_cluster_seam_not_folded() {
    // coda-`s` (cluster tail) + `hi`-onset: not folded.
    // cf. real coda+`h` seams like `pethat` (ペッハッ), `sathat` (サッハッ).
    assert_eq!(normalize("karshi"), "karshi");
    assert_eq!(normalize("perashi"), "perasi"); // `s` after vowel `a` IS onset → folds
}

#[test]
fn ti_across_morpheme_boundary() {
    // `=` is an onset boundary: a `t` right after `=` begins a morpheme, so
    // it is a genuine onset and `ti` correctly folds to `ci`. (ainconv
    // strips `=`, leaving the onset `t` after the prior vowel — same fold.)
    assert_eq!(normalize("a=ti"), "a=ci");
    // But `t=i` is not even a `ti` substring (the `=` splits them), so the
    // coda-`t` + clitic-`i` case is never touched: `at=itak` stays as-is.
    assert_eq!(normalize("at=itak"), "at=itak");
}

// ---- Long vowels: macron / circumflex → acute. ----

#[test]
fn macron_to_acute() {
    assert_eq!(normalize("kāni"), "káni"); // → カニ (raw `kāni` errors in ainconv)
    assert_eq!(normalize("tāne"), "táne");
    assert_eq!(normalize("sīno"), "síno");
    assert_eq!(normalize("tūki"), "túki");
    assert_eq!(normalize("pēka"), "péka");
    assert_eq!(normalize("pōro"), "póro");
}

#[test]
fn circumflex_to_acute() {
    assert_eq!(normalize("kâni"), "káni"); // → カニ
    assert_eq!(normalize("sîno"), "síno");
    assert_eq!(normalize("tûki"), "túki");
    assert_eq!(normalize("pêka"), "péka");
    assert_eq!(normalize("pôro"), "póro");
}

// ---- Case folding (ASCII + non-ASCII acute caps). ----

#[test]
fn lowercases_ascii() {
    assert_eq!(normalize("AYNU"), "aynu"); // → アイヌ
    assert_eq!(normalize("WENKUR"), "wenkur"); // → ウェンクㇽ
    assert_eq!(normalize("Chise"), "cise"); // case + digraph
}

#[test]
fn lowercases_non_ascii_acute_caps() {
    // ainconv's to_ascii_lowercase would NOT fold these; we must.
    assert_eq!(normalize("Áynu"), "áynu"); // → アイヌ
    assert_eq!(normalize("KÁNI"), "káni");
    assert_eq!(normalize("ÉRAMAN"), "éraman");
}

#[test]
fn lowercases_macron_caps() {
    // Uppercase macron should lowercase (Phase 1) then map to acute (Phase 2).
    assert_eq!(normalize("KĀNI"), "káni");
}

// ---- Things we must NOT touch (excluded rules). ----

#[test]
fn wo_is_preserved() {
    // `wo` is a real canonical syllable (ヲ → ウォ). Never collapse to `o`.
    assert_eq!(normalize("wose"), "wose"); // → ウォセ
    assert_eq!(normalize("wo"), "wo");
}

#[test]
fn double_vowel_is_preserved() {
    // Two morae / hiatus is real; do not collapse to a long vowel.
    assert_eq!(normalize("aa"), "aa"); // → アア
    assert_eq!(normalize("koonkami"), "koonkami");
}

#[test]
fn n_handling_is_left_to_ainconv() {
    assert_eq!(normalize("pon"), "pon");
    assert_eq!(normalize("ponno"), "ponno"); // → ポンノ
    assert_eq!(normalize("tanne"), "tanne");
    assert_eq!(normalize("nispa"), "nispa"); // → ニㇱパ
}

#[test]
fn glottal_stop_both_forms_passthrough() {
    // ainconv accepts both `'` and `’`; we don't rewrite either.
    assert_eq!(normalize("poro'an"), "poro'an"); // → ポロアン
    assert_eq!(normalize("poro’an"), "poro’an"); // → ポロアン
}

#[test]
fn voiced_and_foreign_letters_passthrough() {
    // No `b d g z j` mapping — leave them so ainconv surfaces the problem
    // rather than us silently guessing. (Only `fu`, not blanket `f`.)
    assert_eq!(normalize("di"), "di");
    assert_eq!(normalize("du"), "du");
    assert_eq!(normalize("ji"), "ji");
    assert_eq!(normalize("baka"), "baka");
}

// ---- Canonical words that should pass through unchanged. ----

#[test]
fn canonical_words_unchanged() {
    assert_eq!(normalize("huci"), "huci"); // → フチ
    assert_eq!(normalize("cise"), "cise"); // → チセ
    assert_eq!(normalize("cikuni"), "cikuni"); // → チクニ
    assert_eq!(normalize("kamuy"), "kamuy"); // → カムイ
    assert_eq!(normalize("cep"), "cep"); // → チェㇷ゚
    assert_eq!(normalize("sisam"), "sisam"); // → シサㇺ
    assert_eq!(normalize("eyaykosiramsuypa"), "eyaykosiramsuypa"); // → エヤイコシラㇺスイパ
}

// ---- Edge cases / robustness. ----

#[test]
fn empty_and_trivial() {
    assert_eq!(normalize(""), "");
    assert_eq!(normalize("a"), "a");
    assert_eq!(normalize("t"), "t");
    assert_eq!(normalize("c"), "c");
    assert_eq!(normalize("ch"), "c"); // trailing ch with no vowel
    assert_eq!(normalize("f"), "f"); // bare f untouched (no `fu`)
}

#[test]
fn combined_legacy_input() {
    // A maximally legacy spelling exercising several rules at once.
    // `Fuchi` → lowercase `fuchi` → R8 `fu`→`hu` → R3 `chi`→`ci` = `huci`.
    assert_eq!(normalize("Fuchi"), "huci"); // → フチ
                                            // `Chishi` → `cishi`? No: `chi`→`ci`, then `shi`→`si` (onset after `i`).
    assert_eq!(normalize("Chishi"), "cisi");
}

#[test]
fn coda_seams_stay() {
    for w in ["karti", "masti", "karshi"] {
        assert_eq!(normalize(w), w);
    }
    // A whitespace before `ti` makes it an onset again.
    assert_eq!(normalize("kar ti"), "kar ci");
    assert_eq!(normalize("kar\u{3000}ti"), "kar\u{3000}ci");
}
