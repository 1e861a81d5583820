use novelai::api::{WorkerCmd, WorkerMsg};
use novelai::novel::{Chapter, ChapterStatus, NovelProject};
use novelai::session::{Effect, GenState, Session, ToastKind};

fn project_with(n: usize) -> NovelProject {
    let mut p = NovelProject::default();
    p.outline = "大纲".to_string();
    for i in 0..n {
        p.chapters.push(Chapter::new(i + 1, format!("第{}章标题", i + 1), "要点".to_string()));
    }
    p
}

fn toast_text(e: &Effect) -> (ToastKind, String) {
    match e {
        Effect::Toast(k, t) => (*k, t.clone()),
        other => panic!("expected a toast, got {:?}", other),
    }
}

#[test]
fn labels() {
    assert_eq!(GenState::Idle.label(3), "就绪");
    assert_eq!(GenState::GeneratingChapter(2).label(10), "第 2/10 章");
    assert_eq!(GenState::Paused(1).label(10), "已暂停");
    assert_eq!(GenState::Done.label(0), "已完成 ✓");
    assert!(GenState::GeneratingPlan.is_running());
    assert!(!GenState::Paused(0).is_running());
}

#[test]
fn launch_marks_and_requests() {
    let mut p = project_with(2);
    p.chapters[0].content = "甲乙丙".to_string();
    p.selected_realms = vec!["dou_qi".to_string()];
    p.custom_realm = "  我的体系 ".to_string();
    let mut s = Session::new(p);
    let effects = s.launch(1);
    assert_eq!(s.streaming, Some(1));
    assert_eq!(s.gen_state, GenState::GeneratingChapter(2));
    assert_eq!(s.selected_chapter, Some(1));
    assert_eq!(s.project.chapters[1].status, ChapterStatus::Generating);
    assert!(matches!(effects[0], Effect::ResetStop));
    match &effects[1] {
        Effect::Send(WorkerCmd::GenerateChapter { num, context, outline, realm_info, words, .. }) => {
            assert_eq!(*num, 2);
            assert_eq!(context, "甲乙丙");
            assert_eq!(outline, "大纲");
            assert!(realm_info.starts_with("\n\n【当前世界境界体系】\n▸ 斗气境界"));
            assert!(realm_info.ends_with("\n▸ 自定义：我的体系"));
            assert_eq!(*words, 3000);
        },
        other => panic!("unexpected {:?}", other),
    }
    assert!(s.launch(5).is_empty());
}

#[test]
fn plan_then_chapters_then_done() {
    let mut s = Session::new(project_with(0));
    let e = s.handle_msg(WorkerMsg::PlanDone(vec![("甲".to_string(), "a".to_string()), ("乙".to_string(), String::new())]));
    assert_eq!(s.project.chapters.len(), 2);
    assert_eq!(s.project.chapters[1].number, 2);
    assert_eq!(s.gen_state, GenState::GeneratingChapter(1));
    assert_eq!(e.len(), 2);
    s.handle_msg(WorkerMsg::Chunk("你好 ".to_string()));
    assert_eq!(s.project.chapters[0].content, "你好 ");
    assert_eq!(s.project.chapters[0].word_count, 2);
    let e = s.handle_msg(WorkerMsg::ChapterDone(1, "第一章全文".to_string()));
    assert_eq!(s.project.chapters[0].status, ChapterStatus::Done);
    assert_eq!(s.project.chapters[0].word_count, 5);
    assert_eq!(s.streaming, Some(1));
    assert!(matches!(&e[1], Effect::Send(WorkerCmd::GenerateChapter { num: 2, context, .. }) if context == "第一章全文"));
    let e = s.handle_msg(WorkerMsg::ChapterDone(2, "完".to_string()));
    assert_eq!(s.gen_state, GenState::Done);
    assert_eq!(s.streaming, None);
    assert!(matches!(e[0], Effect::AllDone(2)));
    assert!(matches!(e[1], Effect::AutoSave));
}

#[test]
fn empty_plan_fails() {
    let mut s = Session::new(project_with(0));
    s.gen_state = GenState::GeneratingPlan;
    let e = s.handle_msg(WorkerMsg::PlanDone(Vec::new()));
    assert_eq!(s.gen_state, GenState::Idle);
    assert_eq!(toast_text(&e[0]), (ToastKind::Failure, "章节规划失败".to_string()));
}

#[test]
fn paused_chapter_done_does_not_continue() {
    let mut s = Session::new(project_with(2));
    s.launch(0);
    assert!(s.pause().len() == 1);
    assert_eq!(s.gen_state, GenState::Paused(0));
    let e = s.handle_msg(WorkerMsg::ChapterDone(1, "文".to_string()));
    assert!(e.is_empty());
    assert_eq!(s.gen_state, GenState::Paused(0));
    s.resume();
    assert_eq!(s.gen_state, GenState::GeneratingChapter(1));
    assert_eq!(s.streaming, Some(0));
}

#[test]
fn error_marks_chapter() {
    let mut s = Session::new(project_with(1));
    s.launch(0);
    let e = s.handle_msg(WorkerMsg::Error("超时".to_string()));
    assert_eq!(s.project.chapters[0].status, ChapterStatus::Error("超时".to_string()));
    assert_eq!(s.gen_state, GenState::Idle);
    assert_eq!(s.streaming, None);
    assert_eq!(toast_text(&e[0]), (ToastKind::Failure, "错误：超时".to_string()));
}

#[test]
fn outline_done_and_optimize() {
    let mut s = Session::new(project_with(0));
    let e = s.optimize_outline();
    assert_eq!(s.gen_state, GenState::OptimizingOutline);
    assert_eq!(e.len(), 3);
    let e = s.handle_msg(WorkerMsg::OutlineDone("新纲".to_string()));
    assert_eq!(s.project.optimized_outline, "新纲");
    assert_eq!(toast_text(&e[0]), (ToastKind::Success, "大纲优化完成 ✓".to_string()));
    s.project.outline = "  ".to_string();
    let e = s.optimize_outline();
    assert_eq!(toast_text(&e[0]), (ToastKind::Failure, "请先填写大纲".to_string()));
}

#[test]
fn begin_checks_title_and_outline() {
    let mut p = project_with(0);
    p.title = " ".to_string();
    let mut s = Session::new(p);
    let e = s.begin_gen(1800);
    assert_eq!(toast_text(&e[0]), (ToastKind::Failure, "请填写小说标题".to_string()));
    s.project.title = "书".to_string();
    s.project.outline = String::new();
    let e = s.begin_gen(1800);
    assert_eq!(toast_text(&e[0]), (ToastKind::Failure, "请先填写故事大纲".to_string()));
}

#[test]
fn begin_plans_a_new_novel() {
    let mut s = Session::new(project_with(0));
    let e = s.begin_gen(1800);
    assert_eq!(s.gen_state, GenState::GeneratingPlan);
    assert!(matches!(&e[1], Effect::Send(WorkerCmd::GeneratePlan { count: 20, outline, .. }) if outline == "大纲"));
    assert_eq!(toast_text(&e[2]), (ToastKind::Info, "正在规划章节…".to_string()));
}

#[test]
fn begin_resumes_short_or_pending_chapters() {
    let mut p = project_with(3);
    p.chapters[0].status = ChapterStatus::Done;
    p.chapters[0].word_count = 5000;
    p.chapters[1].status = ChapterStatus::Done;
    p.chapters[1].word_count = 100;
    let mut s = Session::new(p);
    let e = s.begin_gen(1800);
    assert_eq!(toast_text(&e[1]), (ToastKind::Info, "第 2 章字数偏少，重新生成…".to_string()));
    assert_eq!(s.streaming, Some(1));
    let mut p = project_with(2);
    p.chapters[0].status = ChapterStatus::Done;
    p.chapters[0].word_count = 5000;
    let mut s = Session::new(p);
    let e = s.begin_gen(1800);
    assert_eq!(toast_text(&e[1]), (ToastKind::Info, "从第 2 章续写…".to_string()));
    for c in s.project.chapters.iter_mut() {
        c.status = ChapterStatus::Done;
        c.word_count = 5000;
    }
    let e = s.begin_gen(1800);
    assert_eq!(toast_text(&e[0]), (ToastKind::Info, "全部章节已生成完成".to_string()));
}

#[test]
fn stop_returns_chapter_to_pending() {
    let mut s = Session::new(project_with(1));
    s.launch(0);
    let e = s.stop();
    assert!(matches!(e[0], Effect::StopWorker));
    assert_eq!(s.project.chapters[0].status, ChapterStatus::Pending);
    assert_eq!(s.gen_state, GenState::Idle);
    assert_eq!(s.streaming, None);
}

#[test]
fn selection_is_clamped() {
    let mut s = Session::new(project_with(2));
    s.selected_chapter = Some(7);
    assert_eq!(s.safe_idx(), None);
    s.clamp_selection();
    assert_eq!(s.selected_chapter, Some(1));
    s.project.chapters.clear();
    s.clamp_selection();
    assert_eq!(s.selected_chapter, None);
}

#[test]
fn opening_resets_interrupted_chapters() {
    let mut p = project_with(2);
    p.chapters[0].status = ChapterStatus::Generating;
    p.chapters[0].content = "残稿".to_string();
    p.chapters[1].status = ChapterStatus::Done;
    p.chapters[1].content = "全文 完".to_string();
    let mut s = Session::new(project_with(0));
    s.dirty = true;
    s.open_project(p);
    assert_eq!(s.project.chapters[0].status, ChapterStatus::Pending);
    assert!(s.project.chapters[0].content.is_empty());
    assert_eq!(s.project.chapters[1].word_count, 3);
    assert_eq!(s.selected_chapter, Some(0));
    assert!(!s.dirty);
}

#[test]
fn wizard_result_replaces_project() {
    let mut s = Session::new(project_with(2));
    let mut w = project_with(0);
    w.title = "新书".to_string();
    s.finish_wizard(&w);
    assert_eq!(s.project.title, "新书");
    assert!(s.project.chapters.is_empty());
    assert!(s.dirty);
    assert_eq!(s.selected_chapter, None);
}

#[test]
fn notifications_last_three_and_a_half_seconds() {
    assert!(novelai::session::toast_alive(0));
    assert!(novelai::session::toast_alive(3499));
    assert!(!novelai::session::toast_alive(3500));
    assert!(!novelai::session::toast_alive(60_000));
}
