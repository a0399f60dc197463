use jp_annotate::accent::{
    generate_nhk_accent_from_pitch_number, get_full_nhk_accent, make_single_accent,
};
use jp_annotate::error::AnnotationError;
use jp_annotate::markup::{generate_nhk_accent_from_pitch_number_string, HiraNhkPitch};
use jp_annotate::mora::{hiragana_count_char, is_normal_hiragana, mora_len, split_to_mora};

#[test]
fn test_small_hiragana_filter() {
    assert_eq!(is_normal_hiragana(&'ぁ'), false);
    assert_eq!(is_normal_hiragana(&'ゅ'), false);
    assert_eq!(is_normal_hiragana(&'ゃ'), false);
    assert_eq!(is_normal_hiragana(&'っ'), true);
    assert_eq!(is_normal_hiragana(&'し'), true);
    assert_eq!(is_normal_hiragana(&'あ'), true);
    assert_eq!(is_normal_hiragana(&'わ'), true);
    assert_eq!(is_normal_hiragana(&'つ'), true);
    assert_eq!(is_normal_hiragana(&'ゎ'), true);
}

#[test]
fn test_mora_no_small_hiragana() {
    assert_eq!(mora_len("てんか"), 3);
    assert_eq!(mora_len("げつようび"), 5);
}

#[test]
fn test_mora_contain_small_hiragana() {
    assert_eq!(mora_len("きょうみ"), 3);
    assert_eq!(mora_len("じょうきょう"), 4);
    assert_eq!(mora_len("しんぎょうそう"), 6);
}

#[test]
fn test_split_mora_norm() {
    assert_eq!(split_to_mora("きょうみ").unwrap(), vec!["きょ", "う", "み"]);
    assert_eq!(
        split_to_mora("じょうきょう").unwrap(),
        vec!["じょ", "う", "きょ", "う"]
    );
    assert_eq!(
        split_to_mora("しんぎょうそう").unwrap(),
        vec!["し", "ん", "ぎょ", "う", "そ", "う"]
    );
}

#[test]
fn test_split_mora_double_small() {
    // NOTE: for mora small tsu っ is considered a special mora by itself
    // but when we split to syllables it would look like => `しゃっ きん`
    assert_eq!(split_to_mora("しゃっきん").unwrap(), vec!["しゃ", "っ", "き", "ん"]);
    assert_eq!(split_to_mora("しゅっせき").unwrap(), vec!["しゅ", "っ", "せ", "き"]);
    assert_eq!(split_to_mora("しゅっさん").unwrap(), vec!["しゅ", "っ", "さ", "ん"]);
}

#[test]
fn test_get_full_nhk_accent() {
    assert_eq!(get_full_nhk_accent("あひきやうげん", "112000").unwrap(), "0112000");
    assert_eq!(get_full_nhk_accent("やちん", "200").unwrap(), "200");
    assert_eq!(get_full_nhk_accent("きょうみ", "1200").unwrap(), "1200");
    assert_eq!(get_full_nhk_accent("じょうきょう", "1111").unwrap(), "001111");
    assert_eq!(get_full_nhk_accent("さむけ", "12").unwrap(), "012");
    assert_eq!(get_full_nhk_accent("かんき", "200").unwrap(), "200");
    assert_eq!(get_full_nhk_accent("たてもの", "200").unwrap(), "0200");
    assert_eq!(get_full_nhk_accent("たてもの", "012").unwrap(), "0012");
    assert_eq!(get_full_nhk_accent("しゃっきん", "120").unwrap(), "00120");
}

// nhk pitch generation tests
// 頭高 - high low tests
#[test]
fn atamadaka_case1_old() {
    // やちん - 200
    assert_eq!(make_single_accent("や", 1, 1, 3), "2");
    assert_eq!(make_single_accent("ち", 2, 1, 3), "0");
    assert_eq!(make_single_accent("ん", 3, 1, 3), "0");
}

#[test]
fn atamadaka_case4_old() {
    // きょうみ - 1200
    assert_eq!(make_single_accent("きょ", 1, 1, 3), "12");
    assert_eq!(make_single_accent("う", 2, 1, 3), "0");
    assert_eq!(make_single_accent("み", 3, 1, 3), "0");
}

#[test]
fn atamadaka_case1_new() {
    // あいさつ - 2000
    assert_eq!(make_single_accent("あ", 1, 1, 4), "2");
    assert_eq!(make_single_accent("い", 2, 1, 4), "0");
    assert_eq!(make_single_accent("さ", 3, 1, 4), "0");
    assert_eq!(make_single_accent("つ", 4, 1, 4), "0");
}

#[test]
fn atamadaka_case2_new() {
    // でんき - 200
    assert_eq!(make_single_accent("で", 1, 1, 3), "2");
    assert_eq!(make_single_accent("ん", 2, 1, 3), "0");
    assert_eq!(make_single_accent("き", 3, 1, 3), "0");
}

#[test]
fn atamadaka_case3_new() {
    // あき (秋) - 20
    assert_eq!(make_single_accent("あ", 1, 1, 3), "2");
    assert_eq!(make_single_accent("き", 2, 1, 3), "0");
}

// 平板 - low high tests
#[test]
fn heiban_case2_old() {
    // じょうきょう - 001111
    assert_eq!(make_single_accent("じょ", 1, 0, 4), "00");
    assert_eq!(make_single_accent("う", 2, 0, 4), "1");
    assert_eq!(make_single_accent("きょ", 3, 0, 4), "11");
    assert_eq!(make_single_accent("う", 4, 0, 4), "1");
}

#[test]
fn heiban_case1_new() {
    // がくせい - 0111
    assert_eq!(make_single_accent("が", 1, 0, 4), "0");
    assert_eq!(make_single_accent("く", 2, 0, 4), "1");
    assert_eq!(make_single_accent("せ", 3, 0, 4), "1");
    assert_eq!(make_single_accent("い", 4, 0, 4), "1");
}

#[test]
fn heiban_case2_new() {
    // かいしゃ - 0111
    assert_eq!(make_single_accent("か", 1, 0, 4), "0");
    assert_eq!(make_single_accent("い", 2, 0, 4), "1");
    assert_eq!(make_single_accent("しゃ", 3, 0, 4), "11");
}

#[test]
fn heiban_case3_new() {
    // みず - 01
    assert_eq!(make_single_accent("み", 1, 0, 2), "0");
    assert_eq!(make_single_accent("ず", 2, 0, 2), "1");
}

#[test]
fn heiban_case4_new() {
    // しゅっせき - 00111
    assert_eq!(make_single_accent("しゅ", 1, 0, 4), "00");
    assert_eq!(make_single_accent("っ", 2, 0, 4), "1");
    assert_eq!(make_single_accent("せ", 3, 0, 4), "1");
    assert_eq!(make_single_accent("き", 4, 0, 4), "1");
}

// 中高 - low high then drop low before end of the word
#[test]
fn nakadaka_case5_old() {
    // たてもの - 0200
    assert_eq!(make_single_accent("た", 1, 2, 4), "0");
    assert_eq!(make_single_accent("て", 2, 2, 4), "2");
    assert_eq!(make_single_accent("も", 3, 2, 4), "0");
    assert_eq!(make_single_accent("の", 4, 2, 4), "0");
}

#[test]
fn nakadaka_case6_old() {
    // たてもの - 0120
    assert_eq!(make_single_accent("た", 1, 3, 4), "0");
    assert_eq!(make_single_accent("て", 2, 3, 4), "1");
    assert_eq!(make_single_accent("も", 3, 3, 4), "2");
    assert_eq!(make_single_accent("の", 4, 3, 4), "0");
}

#[test]
fn nakadaka_case1_new() {
    // おかし (お菓子) - 020
    assert_eq!(make_single_accent("お", 1, 2, 3), "0");
    assert_eq!(make_single_accent("か", 2, 2, 3), "2");
    assert_eq!(make_single_accent("し", 3, 2, 3), "0");
}

#[test]
fn nakadaka_case2_new() {
    // にほんじん - 01120
    assert_eq!(make_single_accent("に", 1, 4, 5), "0");
    assert_eq!(make_single_accent("ほ", 2, 4, 5), "1");
    assert_eq!(make_single_accent("ん", 3, 4, 5), "1");
    assert_eq!(make_single_accent("じ", 4, 4, 5), "2");
    assert_eq!(make_single_accent("ん", 5, 4, 5), "0");
}

#[test]
fn nakadaka_case3_new() {
    // しんぎょうそう - 0112000
    assert_eq!(make_single_accent("し", 1, 3, 6), "0");
    assert_eq!(make_single_accent("ん", 2, 3, 6), "1");
    assert_eq!(make_single_accent("ぎょ", 3, 3, 6), "12");
    assert_eq!(make_single_accent("う", 4, 3, 6), "0");
    assert_eq!(make_single_accent("そ", 5, 3, 6), "0");
    assert_eq!(make_single_accent("う", 6, 3, 6), "0");
}

#[test]
fn nakadaka_case4_new() {
    // しゃっきん - 00120
    assert_eq!(make_single_accent("しゃ", 1, 3, 4), "00");
    assert_eq!(make_single_accent("っ", 2, 3, 4), "1");
    assert_eq!(make_single_accent("き", 3, 3, 4), "2");
    assert_eq!(make_single_accent("ん", 4, 3, 4), "0");
}

// 尾高 - low high then drop low at the end of the word
#[test]
fn odaka_case3_old() {
    // さむけ - 012
    assert_eq!(make_single_accent("さ", 1, 3, 3), "0");
    assert_eq!(make_single_accent("む", 2, 3, 3), "1");
    assert_eq!(make_single_accent("け", 3, 3, 3), "2");
}

#[test]
fn odaka_case1_new() {
    // おとうと - 0112
    assert_eq!(make_single_accent("お", 1, 4, 4), "0");
    assert_eq!(make_single_accent("か", 2, 4, 4), "1");
    assert_eq!(make_single_accent("し", 3, 4, 4), "1");
    assert_eq!(make_single_accent("し", 4, 4, 4), "2");
}

#[test]
fn odaka_case2_new() {
    // ことば - 012
    assert_eq!(make_single_accent("こ", 1, 3, 3), "0");
    assert_eq!(make_single_accent("と", 2, 3, 3), "1");
    assert_eq!(make_single_accent("ば", 3, 3, 3), "2");
}

#[test]
fn odaka_case3_new() {
    // はな - 02
    assert_eq!(make_single_accent("こ", 1, 3, 3), "0");
    assert_eq!(make_single_accent("と", 2, 3, 3), "1");
    assert_eq!(make_single_accent("ば", 3, 3, 3), "2");
}

#[test]
fn gen_nhk_accent_simple_norm() {
    assert_eq!(generate_nhk_accent_from_pitch_number("やちん", 1).unwrap(), "200");
    assert_eq!(generate_nhk_accent_from_pitch_number("きょうみ", 1).unwrap(), "1200");
    assert_eq!(
        generate_nhk_accent_from_pitch_number("じょうきょう", 0).unwrap(),
        "001111"
    );
    assert_eq!(generate_nhk_accent_from_pitch_number("さむけ", 3).unwrap(), "012");
    assert_eq!(generate_nhk_accent_from_pitch_number("かんき", 1).unwrap(), "200");
    assert_eq!(
        generate_nhk_accent_from_pitch_number("しんぎょうそう", 3).unwrap(),
        "0112000"
    );
}

#[test]
fn gen_nhk_accent_simple_double_small() {
    assert_eq!(
        generate_nhk_accent_from_pitch_number("しゃっきん", 3).unwrap(),
        "00120"
    );
}

#[test]
fn gen_nhk_accent_string_norm_case1() {
    assert_eq!(
        generate_nhk_accent_from_pitch_number_string(
            "がでんいんすい",
            "0-0",
            "が'でん[Akz]いん'すい"
        ),
        Ok(HiraNhkPitch {
            hiragana: "がでんいんすい".to_string(),
            nhk_accent: "0110111".to_string()
        })
    );
}

#[test]
fn gen_nhk_accent_string_norm_case2() {
    assert_eq!(
        generate_nhk_accent_from_pitch_number_string(
            "がでんいんすい",
            "1-0",
            "が'でん[Akz]いん'すい"
        ),
        Ok(HiraNhkPitch {
            hiragana: "がでんいんすい".to_string(),
            nhk_accent: "2000111".to_string(),
        })
    );
}

#[test]
fn gen_nhk_accent_string_norm_case3() {
    assert_eq!(
        generate_nhk_accent_from_pitch_number_string("まずもって", "1-1", "まず[Akz]もって"),
        Ok(HiraNhkPitch {
            hiragana: "まずもって".to_string(),
            nhk_accent: "20200".to_string(),
        })
    );
}

// An empty pronunciation rebuilds nothing, so the reading does not match.
#[test]
fn gen_nhk_accent_string_panic_case1() {
    assert_eq!(
        generate_nhk_accent_from_pitch_number_string("しりめつれつ", "1-0", ""),
        Err(AnnotationError::ReadingMismatch {
            expected: "しりめつれつ".to_string(),
            found: "".to_string(),
        })
    );
}

// The three accent units rebuild the reading, but the list holds only two
// numbers for them.
#[test]
fn gen_nhk_accent_string_panic_case2() {
    assert_eq!(
        generate_nhk_accent_from_pitch_number_string(
            "きょうせいひほけんしゃ",
            "1-3",
            "&lt;きょう'せい&gt;[Akz]ひ[Akz]ほ'けん'しゃ"
        ),
        Err(AnnotationError::PitchNumberFormat)
    );
}

#[test]
fn gen_nhk_accent_string_dev_case1() {
    assert_eq!(
        generate_nhk_accent_from_pitch_number_string(
            "しんしょうひつばつ",
            "0-0",
            "しん'しょう[Akz][Dev]ひつ'ばつ"
        ),
        Ok(HiraNhkPitch {
            hiragana: "しんしょうひつばつ".to_string(),
            nhk_accent: "011110111".to_string(),
        })
    );
}
