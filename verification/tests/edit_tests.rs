use novelai::edit::{add_custom_realm, highest_order, next_custom_realm_order, remove_custom_realm};
use novelai::novel::{Chapter, CustomRealm, NovelProject};

fn realm(order: u32, name: &str) -> CustomRealm {
    CustomRealm { order, name: name.to_string(), description: String::new(), sub_levels: String::new() }
}

#[test]
fn chapter_count_input() {
    let mut p = NovelProject::default();
    p.apply_chapter_count_text("120");
    assert_eq!(p.target_chapters, 120);
    p.apply_chapter_count_text("9999");
    assert_eq!(p.target_chapters, 500);
    p.apply_chapter_count_text("0");
    assert_eq!(p.target_chapters, 500);
    p.apply_chapter_count_text("abc");
    assert_eq!(p.target_chapters, 500);
    p.apply_chapter_count_text("+7");
    assert_eq!(p.target_chapters, 7);
}

#[test]
fn word_target_input() {
    let mut p = NovelProject::default();
    p.apply_word_target_text("199");
    assert_eq!(p.target_words_per_chapter, 3000);
    p.apply_word_target_text("200");
    assert_eq!(p.target_words_per_chapter, 200);
    p.apply_word_target_text("50000");
    assert_eq!(p.target_words_per_chapter, 10000);
    p.apply_word_target_text("");
    assert_eq!(p.target_words_per_chapter, 10000);
}

#[test]
fn realm_toggle() {
    let mut p = NovelProject::default();
    p.toggle_realm("dou_qi");
    p.toggle_realm("mecha_rank");
    assert_eq!(p.selected_realms, vec!["dou_qi".to_string(), "mecha_rank".to_string()]);
    p.toggle_realm("dou_qi");
    assert_eq!(p.selected_realms, vec!["mecha_rank".to_string()]);
    p.selected_realms = vec!["a".to_string(), "b".to_string(), "a".to_string()];
    p.toggle_realm("a");
    assert_eq!(p.selected_realms, vec!["b".to_string()]);
}

#[test]
fn toggling_twice_restores_selection() {
    let mut p = NovelProject::default();
    p.selected_realms = vec!["x".to_string()];
    p.toggle_realm("dou_qi");
    p.toggle_realm("dou_qi");
    assert_eq!(p.selected_realms, vec!["x".to_string()]);
}

#[test]
fn custom_realm_list() {
    let mut rs = vec![realm(2, "筑基"), realm(5, "元婴")];
    assert_eq!(next_custom_realm_order(&rs), 6);
    assert_eq!(next_custom_realm_order(&Vec::new()), 1);
    assert_eq!(highest_order(&rs), 5);
    assert_eq!(highest_order(&Vec::new()), 0);
    add_custom_realm(&mut rs, realm(3, "金丹"));
    add_custom_realm(&mut rs, realm(2, "筑基后期"));
    let names: Vec<&str> = rs.iter().map(|r| r.name.as_str()).collect();
    assert_eq!(names, vec!["筑基", "筑基后期", "金丹", "元婴"]);
    remove_custom_realm(&mut rs, 2, "筑基");
    let names: Vec<&str> = rs.iter().map(|r| r.name.as_str()).collect();
    assert_eq!(names, vec!["筑基后期", "金丹", "元婴"]);
}

#[test]
fn reset_interrupted() {
    let mut p = NovelProject::default();
    let mut c = Chapter::new(1, String::new(), String::new());
    c.status = novelai::novel::ChapterStatus::Generating;
    c.content = "半".to_string();
    c.word_count = 9;
    p.chapters.push(c);
    p.reset_interrupted_chapters();
    assert!(p.chapters[0].content.is_empty());
    assert_eq!(p.chapters[0].word_count, 0);
}
