use novelai::plan::{parse_chapter_plan, plan_is_readable};

fn titles(v: &[(String, String)]) -> Vec<&str> {
    v.iter().map(|(t, _)| t.as_str()).collect()
}

#[test]
fn parses_titles_and_briefs() {
    let text = "第1章 初入山门\n少年拜师。\n  遇到师兄\n\n第2章 筑基\n突破\n第3章 金丹大成\n结丹";
    let plan = parse_chapter_plan(text, 3);
    assert_eq!(titles(&plan), vec!["初入山门", "筑基", "金丹大成"]);
    assert_eq!(plan[0].1, "少年拜师。 遇到师兄");
    assert_eq!(plan[1].1, "突破");
    assert_eq!(plan[2].1, "结丹");
}

#[test]
fn digit_lines_and_bare_marker() {
    let text = "1章 开端\n2章结局\n第三章 终";
    let plan = parse_chapter_plan(text, 3);
    assert_eq!(titles(&plan), vec!["开端", "结局", "终"]);
}

#[test]
fn too_few_entries_give_placeholders() {
    let plan = parse_chapter_plan("第1章 唯一\n要点", 5);
    assert_eq!(titles(&plan), vec!["第1章", "第2章", "第3章", "第4章", "第5章"]);
    assert!(plan.iter().all(|(_, b)| b.is_empty()));
}

#[test]
fn cut_and_padded_to_count() {
    let text = "第1章 一\n第2章 二\n第3章 三\n第4章 四";
    assert_eq!(titles(&parse_chapter_plan(text, 2)), vec!["一", "二"]);
    assert_eq!(titles(&parse_chapter_plan(text, 6)), vec!["一", "二", "三", "四", "第5章", "第6章"]);
    assert!(parse_chapter_plan(text, 0).is_empty());
}

#[test]
fn small_counts_need_fewer_entries() {
    let plan = parse_chapter_plan("第1章 独章", 1);
    assert_eq!(titles(&plan), vec!["独章"]);
}

#[test]
fn lines_before_first_chapter_are_ignored() {
    let plan = parse_chapter_plan("以下是规划：\n\r\n第1章 甲\n乙\r\n第2章 丙\n第3章 丁\n", 3);
    assert_eq!(titles(&plan), vec!["甲", "丙", "丁"]);
    assert_eq!(plan[0].1, "乙");
}

#[test]
fn colon_titled_chapter_lines_are_refused() {
    assert!(!plan_is_readable("第1章 甲\n第2章：乙\n要点"));
    assert!(!plan_is_readable("  3章：丙  "));
    assert!(plan_is_readable("第1章 甲：副题\n第2章 乙"));
    assert!(plan_is_readable("第1章 甲\n见第2章：乙的伏笔"));
    assert!(plan_is_readable("第1章 甲\n第2章乙"));
    assert!(plan_is_readable(""));
}
