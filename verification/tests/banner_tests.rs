use rusty_live_server::banner::{
    parse_index_digits, parse_start_time, days_in_month_of, is_chinese, Banner, BannerAnnounce,
    BannerDatabase, DateParts,
};

fn announce(start: &str, content: &str, publisher: &str) -> BannerAnnounce {
    BannerAnnounce {
        revision: Some(2),
        start_time: start.to_string(),
        banner_life: Some("7天".to_string()),
        announce_life: Some("12小时".to_string()),
        content: content.to_string(),
        publisher: publisher.to_string(),
    }
}

fn corpus() -> BannerDatabase {
    let placeholder = Banner {
        index: 0,
        game: None,
        character: None,
        announces: vec![announce("2024-01-01", "placeholder", "nobody")],
    };
    let real = Banner {
        index: 1,
        game: Some("Alpha".to_string()),
        character: Some("Beta".to_string()),
        announces: vec![
            announce("2024-03-05 17:30:00", "你好 世界", "uploader"),
            announce("2025-01-01", "second", "other"),
        ],
    };
    BannerDatabase::new(vec![placeholder, real])
}

#[test]
fn index_digit_extraction() {
    assert_eq!(parse_index_digits("337"), Some(337));
    assert_eq!(parse_index_digits("外·337"), Some(337));
    assert_eq!(parse_index_digits("no digits"), None);
    assert_eq!(parse_index_digits(""), None);
    assert_eq!(parse_index_digits("4294967295"), Some(u32::MAX));
    assert_eq!(parse_index_digits("4294967296"), None);
    assert_eq!(parse_index_digits("99999999999999999999"), None);
}

#[test]
fn start_time_parsing() {
    assert_eq!(
        parse_start_time("2024-03-05 17:30:00"),
        Some(DateParts { year: 2024, month: 3, day: 5, hour: 17 })
    );
    assert_eq!(
        parse_start_time("2024-03-05"),
        Some(DateParts { year: 2024, month: 3, day: 5, hour: 0 })
    );
    assert_eq!(parse_start_time("2024-02-29"), Some(DateParts { year: 2024, month: 2, day: 29, hour: 0 }));
    assert_eq!(parse_start_time("2023-02-29"), None);
    assert_eq!(parse_start_time("2024-13-01"), None);
    assert_eq!(parse_start_time("2024-00-10"), None);
    assert_eq!(parse_start_time("2024-04-31"), None);
    assert_eq!(parse_start_time("2024-03-05 24:00:00"), None);
    assert_eq!(parse_start_time("garbage"), None);
    assert_eq!(parse_start_time(""), None);
}

#[test]
fn month_lengths() {
    assert_eq!(days_in_month_of(2024, 2), 29);
    assert_eq!(days_in_month_of(2023, 2), 28);
    assert_eq!(days_in_month_of(1900, 2), 28);
    assert_eq!(days_in_month_of(2000, 2), 29);
    assert_eq!(days_in_month_of(2024, 4), 30);
    assert_eq!(days_in_month_of(2024, 12), 31);
}

#[test]
fn chinese_character_ranges() {
    assert!(is_chinese('好'));
    assert!(is_chinese('。'));
    assert!(!is_chinese('a'));
    assert!(!is_chinese('1'));
    assert!(!is_chinese(' '));
}

// A category draw in the subject-pairing band asks for the character of
// the game, or the game of the character, with the other as the answer.
#[test]
fn subject_pairing_both_directions() {
    let db = corpus();
    let (q0, a0) = db.character_game_question(1, 0, 0);
    assert!(q0.contains("Alpha"));
    assert_eq!(a0, "Beta");
    let (q1, a1) = db.character_game_question(1, 1, 0);
    assert!(q1.contains("Beta"));
    assert_eq!(a1, "Alpha");
}

#[test]
fn subject_pairing_falls_back_to_attribution() {
    let placeholder = Banner {
        index: 0,
        game: None,
        character: None,
        announces: vec![announce("2024-01-01", "x", "nobody")],
    };
    let unlabeled = Banner {
        index: 5,
        game: None,
        character: None,
        announces: vec![announce("2024-01-01", "x", "poster")],
    };
    let db = BannerDatabase::new(vec![placeholder, unlabeled]);
    let (q, a) = db.character_game_question(1, 0, 0);
    assert_eq!(a, "poster");
    assert!(q.contains("是谁上传的?"));
}

#[test]
fn date_question_fields() {
    let db = corpus();
    let (qy, ay) = db.date_question(1, 0, 0);
    assert_eq!(ay, "2024");
    assert!(qy.starts_with("1期公告娘的第2篇公告"));
    let (_, am) = db.date_question(1, 0, 1);
    assert_eq!(am, "3");
    let (_, ad) = db.date_question(1, 0, 2);
    assert_eq!(ad, "5");
    let (_, ah) = db.date_question(1, 0, 3);
    assert_eq!(ah, "17");
}

#[test]
fn date_question_falls_back_on_unparsable_time() {
    let placeholder = Banner {
        index: 0,
        game: None,
        character: None,
        announces: vec![announce("2024-01-01", "x", "nobody")],
    };
    let odd = Banner {
        index: 3,
        game: None,
        character: None,
        announces: vec![announce("soon(tm)", "x", "poster")],
    };
    let db = BannerDatabase::new(vec![placeholder, odd]);
    let (q, a) = db.date_question(1, 0, 0);
    assert_eq!(a, "2024");
    assert_eq!(q, "3期公告娘发布");
}

#[test]
fn life_question_unit_and_value() {
    let db = corpus();
    // the banner's own life: "7天"
    let (qb, ab) = db.life_question(1, 0, 0);
    assert!(qb.contains("持续了几天?"));
    assert_eq!(ab, "7");
    // the announce's life: "12小时"
    let (qa, aa) = db.life_question(1, 1, 0);
    assert!(qa.contains("持续了几小时?"));
    assert_eq!(aa, "12");
}

#[test]
fn content_question_first_word() {
    let db = corpus();
    let (q, a) = db.content_question(1, 0, 5, 0);
    assert!(q.contains("的内容的第一个换行或空格之前的内容是什么？"));
    assert_eq!(a, "你好");
}

#[test]
fn content_first_word_splits_on_ideographic_space() {
    let placeholder = Banner {
        index: 0,
        game: None,
        character: None,
        announces: vec![announce("2024-01-01", "x", "nobody")],
    };
    let wide = Banner {
        index: 9,
        game: None,
        character: None,
        announces: vec![announce("2024-01-01", "你好\u{3000}世界", "poster")],
    };
    let db = BannerDatabase::new(vec![placeholder, wide]);
    let (_, a) = db.content_question(1, 0, 5, 0);
    assert_eq!(a, "你好");
}

#[test]
fn content_question_nth_chinese_character() {
    let db = corpus();
    // content "你好 世界": chinese characters 你,好,世,界
    let (q, a) = db.content_question(1, 0, 0, 2);
    assert!(q.contains("的内容的第3个字是什么"));
    assert_eq!(a, "世");
}

#[test]
fn empty_corpus_degrades_to_placeholder() {
    let db = BannerDatabase::new(vec![]);
    let (q, a) = db.random_question();
    assert_eq!(q, "No questions available");
    assert_eq!(a, "N/A");
}

#[test]
fn random_question_is_never_blank() {
    let db = corpus();
    for _ in 0..200 {
        let (q, a) = db.random_question();
        assert!(!q.is_empty());
        assert!(!a.is_empty());
        assert!(q.starts_with("1期公告娘") || q == "No questions available");
    }
}
