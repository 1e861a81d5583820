use novelai::realms::{
    all_realms, build_custom_realms_prompt, build_realm_prompt, normalize_sub_levels, realm_by_id,
};
use novelai::novel::CustomRealm;

fn realm(order: u32, name: &str, description: &str, sub_levels: &str) -> CustomRealm {
    CustomRealm {
        order,
        name: name.to_string(),
        description: description.to_string(),
        sub_levels: sub_levels.to_string(),
    }
}

#[test]
fn normalize_accepts_all_separators() {
    assert_eq!(normalize_sub_levels(" 初期 / 中期／后期→ 大圆满 "), "初期→中期→后期→大圆满");
}

#[test]
fn normalize_drops_empty_pieces() {
    assert_eq!(normalize_sub_levels("//a/ /b//"), "a→b");
    assert_eq!(normalize_sub_levels(""), "");
    assert_eq!(normalize_sub_levels("  "), "");
}

#[test]
fn realm_table_has_all_systems() {
    let all = all_realms();
    assert_eq!(all.len(), 24);
    assert_eq!(all[0].id, "xianxia_classic");
    assert_eq!(all[23].id, "infinite_rank");
}

#[test]
fn realm_lookup_by_id() {
    let r = realm_by_id("dou_qi").unwrap();
    assert_eq!(r.name, "斗气境界");
    assert!(realm_by_id("no_such_realm").is_none());
}

#[test]
fn realm_prompt_skips_unknown_ids() {
    let ids = vec!["dou_qi".to_string(), "unknown".to_string()];
    assert_eq!(
        build_realm_prompt(&ids),
        "\n\n【当前世界境界体系】\n▸ 斗气境界（🐲）：斗者→斗师→大斗师→斗灵→斗王→斗皇→斗宗→斗尊→斗圣→斗帝\n请在行文中自然体现以上境界体系，角色实力对比须符合境界逻辑。"
    );
    assert_eq!(build_realm_prompt(&[]), "");
}

#[test]
fn custom_realms_are_sorted_and_numbered() {
    let realms = vec![
        realm(3, "金丹", "", ""),
        realm(1, "练气", "入门", "初期/后期"),
        realm(3, "元婴", "", ""),
    ];
    assert_eq!(
        build_custom_realms_prompt(&realms),
        "\n\n【自定义境界体系】\n1. 练气（入门）\n   小境界：初期→后期\n2. 金丹\n3. 元婴\n"
    );
    assert_eq!(build_custom_realms_prompt(&[]), "");
}

#[test]
fn realms_are_grouped_by_category() {
    let ids: Vec<&str> = novelai::realms::realms_in_category("末世").iter().map(|r| r.id).collect();
    assert_eq!(ids, vec!["apocalypse_rank", "zombie_rank"]);
    assert_eq!(novelai::realms::realms_in_category("修炼").len(), 6);
    assert!(novelai::realms::realms_in_category("不存在").is_empty());
    let total: usize = ["修炼", "武道", "玄幻", "异能", "末世", "科幻", "系统", "无限"]
        .iter()
        .map(|c| novelai::realms::realms_in_category(c).len())
        .sum();
    assert_eq!(total, novelai::realms::all_realms().len());
}

#[test]
fn realm_table_is_well_formed() {
    let all = all_realms();
    let cats = novelai::realms::realm_categories();
    for (i, r) in all.iter().enumerate() {
        for s in all.iter().skip(i + 1) {
            assert_ne!(r.id, s.id);
        }
        assert!(!r.name.is_empty() && !r.icon.is_empty());
        assert!(r.levels.contains('→'));
        assert_eq!(normalize_sub_levels(r.levels), r.levels);
        assert!(cats.contains(&r.category));
    }
}
