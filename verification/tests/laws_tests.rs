use novelai::edit::add_custom_realm;
use novelai::novel::{CustomRealm, NovelProject};
use novelai::realms::{normalize_sub_levels, sorted_by_order};
use novelai::session::{GenState, Session};
use novelai::text::decimal_string;

fn realm(order: u32, name: &str) -> CustomRealm {
    CustomRealm { order, name: name.to_string(), description: String::new(), sub_levels: String::new() }
}

#[test]
fn sorting_orders_and_keeps_realms() {
    let rs = vec![realm(9, "a"), realm(1, "b"), realm(9, "c"), realm(0, "d"), realm(1, "e")];
    let sorted = sorted_by_order(&rs);
    let got: Vec<(u32, &str)> = sorted.iter().map(|r| (r.order, r.name.as_str())).collect();
    assert_eq!(got, vec![(0, "d"), (1, "b"), (1, "e"), (9, "a"), (9, "c")]);
    let mut grown = Vec::new();
    for r in rs {
        add_custom_realm(&mut grown, r);
    }
    let names: Vec<&str> = grown.iter().map(|r| r.name.as_str()).collect();
    assert_eq!(names, vec!["d", "b", "e", "a", "c"]);
}

#[test]
fn typed_counts_round_trip() {
    for n in 1..=500usize {
        let mut p = NovelProject::default();
        p.apply_chapter_count_text(&decimal_string(n));
        assert_eq!(p.target_chapters, n);
    }
    for n in [200usize, 201, 3000, 9999, 10000] {
        let mut p = NovelProject::default();
        p.apply_word_target_text(&decimal_string(n));
        assert_eq!(p.target_words_per_chapter, n);
    }
}

#[test]
fn pause_then_resume_restarts_same_chapter() {
    let mut p = NovelProject::default();
    for i in 0..4 {
        p.chapters.push(novelai::novel::Chapter::new(i + 1, String::new(), String::new()));
    }
    let mut s = Session::new(p);
    s.launch(2);
    assert_eq!(s.gen_state, GenState::GeneratingChapter(3));
    s.pause();
    s.resume();
    assert_eq!(s.gen_state, GenState::GeneratingChapter(3));
    assert_eq!(s.streaming, Some(2));
}

#[test]
fn context_is_a_short_suffix() {
    let mut c = novelai::novel::Chapter::new(1, String::new(), String::new());
    c.content = "x".repeat(1000);
    assert_eq!(c.context_tail(400).chars().count(), 400);
}

#[test]
fn normalizing_twice_changes_nothing() {
    for t in ["初期 / 中期／后期→大圆满", " / a //b→ ", "", "单一", "a→→b"] {
        let once = normalize_sub_levels(t);
        assert_eq!(normalize_sub_levels(&once), once);
    }
}

#[test]
fn stopped_chapter_is_resumed() {
    let mut p = NovelProject::default();
    p.outline = "纲".to_string();
    for i in 0..3 {
        let mut c = novelai::novel::Chapter::new(i + 1, String::new(), String::new());
        c.status = novelai::novel::ChapterStatus::Done;
        c.word_count = 9000;
        p.chapters.push(c);
    }
    let mut s = Session::new(p);
    s.launch(1);
    s.stop();
    s.begin_gen(1800);
    assert_eq!(s.streaming, Some(1));
}

#[test]
fn animation_never_leaves_its_frames() {
    let delays = vec![20, 20, 20, 20];
    let mut index = 0usize;
    for _ in 0..10 {
        let (next, _, _) = novelai::picture::animation_step(&delays, index, delays.len(), 25);
        assert!(next < delays.len());
        index = next;
    }
    assert_eq!(index, 2);
}

#[test]
fn every_frame_lasts_at_least_20ms() {
    for (n, d) in [(0u32, 0u32), (1, 1), (19, 1), (20, 1), (7, 3), (u32::MAX, 1)] {
        assert!(novelai::picture::frame_delay_ms(n, d) >= 20);
    }
    assert!(novelai::picture::frame_delay_at(&vec![0, 3], 1) >= 20);
    assert!(novelai::picture::frame_delay_at(&vec![], 5) >= 20);
}

#[test]
fn custom_prompt_does_not_depend_on_entry_order() {
    let a = vec![realm(3, "金丹"), realm(1, "练气"), realm(2, "筑基")];
    let b = vec![realm(2, "筑基"), realm(3, "金丹"), realm(1, "练气")];
    let pa = novelai::realms::build_custom_realms_prompt(&a);
    assert_eq!(pa, novelai::realms::build_custom_realms_prompt(&b));
    assert!(pa.contains("1. 练气\n2. 筑基\n3. 金丹\n"));
}
