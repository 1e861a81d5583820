use novelai::novel::{Chapter, ChapterStatus, CustomRealm, NovelProject};

fn done(number: usize, title: &str, content: &str) -> Chapter {
    let mut c = Chapter::new(number, title.to_string(), String::new());
    c.content = content.to_string();
    c.status = ChapterStatus::Done;
    c.update_word_count();
    c
}

#[test]
fn new_chapter_is_pending_and_empty() {
    let c = Chapter::new(3, "标题".to_string(), "要点".to_string());
    assert_eq!(c.number, 3);
    assert_eq!(c.title, "标题");
    assert_eq!(c.brief, "要点");
    assert!(c.content.is_empty());
    assert_eq!(c.status, ChapterStatus::Pending);
    assert_eq!(c.word_count, 0);
    let d = Chapter::default();
    assert_eq!(d.number, 0);
    assert_eq!(ChapterStatus::default(), ChapterStatus::Pending);
}

#[test]
fn word_count_skips_whitespace() {
    let mut c = Chapter::new(1, String::new(), String::new());
    c.content = "天地 玄黄\n宇宙\u{3000}洪荒".to_string();
    c.update_word_count();
    assert_eq!(c.word_count, 8);
}

#[test]
fn context_tail_takes_last_chars() {
    let mut c = Chapter::new(1, String::new(), String::new());
    c.content = "一二三四五".to_string();
    assert_eq!(c.context_tail(2), "四五");
    assert_eq!(c.context_tail(5), "一二三四五");
    assert_eq!(c.context_tail(9), "一二三四五");
    assert_eq!(c.context_tail(0), "");
}

#[test]
fn status_equality() {
    assert_eq!(ChapterStatus::Error("x".to_string()), ChapterStatus::Error("x".to_string()));
    assert_ne!(ChapterStatus::Error("x".to_string()), ChapterStatus::Error("y".to_string()));
    assert_ne!(ChapterStatus::Done, ChapterStatus::Pending);
    assert!(ChapterStatus::Done.is_done());
    assert!(ChapterStatus::Generating.is_generating());
}

#[test]
fn default_project() {
    let p = NovelProject::default();
    assert_eq!(p.title, "我的小说");
    assert_eq!(p.template, "修仙问道");
    assert_eq!(p.target_chapters, 20);
    assert_eq!(p.target_words_per_chapter, 3000);
    assert!(p.chapters.is_empty());
    assert!(p.created_at.secs > 1_600_000_000);
    let r = CustomRealm::default();
    assert_eq!(r.order, 0);
}

#[test]
fn totals_and_completion() {
    let mut p = NovelProject::default();
    p.chapters.push(done(1, "甲", "一二三"));
    p.chapters.push(Chapter::new(2, "乙".to_string(), String::new()));
    p.chapters.push(done(3, "丙", "四五"));
    assert_eq!(p.total_words(), 5);
    assert_eq!(p.total_words_checked(), Some(5));
    assert_eq!(p.completed_chapters(), 2);
    p.chapters[1].word_count = usize::MAX;
    assert_eq!(p.total_words_checked(), None);
}

#[test]
fn export_lists_finished_chapters() {
    let mut p = NovelProject::default();
    p.title = "书".to_string();
    p.author = "我".to_string();
    p.chapters.push(done(1, "甲", "正文"));
    p.chapters.push(Chapter::new(2, "乙".to_string(), String::new()));
    let eq = "=".repeat(50);
    let dash = "-".repeat(40);
    assert_eq!(p.to_txt(), format!("书\n作者：我\n{eq}\n\n第1章 甲\n\n正文\n\n{dash}\n\n"));
    p.author.clear();
    p.optimized_outline = "大纲".to_string();
    assert_eq!(
        p.to_txt(),
        format!("书\n{eq}\n\n【故事大纲】\n\n大纲\n\n{eq}\n\n第1章 甲\n\n正文\n\n{dash}\n\n")
    );
}
