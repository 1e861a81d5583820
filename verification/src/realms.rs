use crate::novel::CustomRealm;
use crate::text::{
    append_chars, append_string, chars_of, decimal, decimal_string, join, push_char, split_by, split_chars,
    str_equal, trim, trim_chars,
};
use vstd::prelude::*;

verus! {

/// A predefined realm (power) system for a story world.
#[derive(Debug, Clone, Copy)]
pub struct RealmSystem {
    pub id: &'static str,
    pub name: &'static str,
    pub icon: &'static str,
    /// Genre group: cultivation, martial arts, fantasy, ...
    pub category: &'static str,
    /// The chain of levels, separated by `→`.
    pub levels: &'static str,
    pub description: &'static str,
}

/// The predefined realm systems, in display order.
pub open spec fn realm_table() -> Seq<RealmSystem> {
    seq![
        RealmSystem {
            id: "xianxia_classic",
            name: "仙道经典",
            icon: "⚡",
            category: "修炼",
            levels: "练气→筑基→金丹→元婴→化神→炼虚→合体→大乘→渡劫→飞升",
            description: "最经典修仙境界，符合传统仙侠体系",
        },
        RealmSystem {
            id: "xianxia_extended",
            name: "仙道扩展",
            icon: "🌌",
            category: "修炼",
            levels: "淬体→练气→筑基→金丹→元婴→化神→炼虚→合体→大乘→渡劫→飞升→太乙→金仙→大罗→混元",
            description: "扩展版修仙境界，涵盖仙界层次",
        },
        RealmSystem {
            id: "dao_realm",
            name: "道境层次",
            icon: "☯️",
            category: "修炼",
            levels: "凡境→道基→道种→道心→道躯→道魂→道尊→道圣→道帝→道祖→天道",
            description: "以「道」为核心的修炼层次",
        },
        RealmSystem {
            id: "demon_path",
            name: "魔道境界",
            icon: "🔥",
            category: "修炼",
            levels: "炼皮→炼骨→炼脉→炼脏→炼神→魔徒→魔师→魔王→魔皇→魔圣→魔祖",
            description: "走魔道修炼的境界体系",
        },
        RealmSystem {
            id: "body_refine",
            name: "炼体境界",
            icon: "💪",
            category: "修炼",
            levels: "淬骨→铸筋→凝血→炼脏→金身→铜躯→铁甲→玄铁→天罡→不灭→神体",
            description: "以肉身修炼为主的体修体系",
        },
        RealmSystem {
            id: "spirit_root",
            name: "灵根品阶",
            icon: "🌱",
            category: "修炼",
            levels: "废灵根→七灵根→六灵根→五灵根→四灵根→三灵根→双灵根→单灵根→变异灵根→天灵根→混沌灵根",
            description: "灵根品质决定修炼天赋的辅助体系",
        },
        RealmSystem {
            id: "wudao_classic",
            name: "武道经典",
            icon: "🥊",
            category: "武道",
            levels: "后天→先天→宗师→武圣→武神→武尊→武帝→武皇→武宗→武祖",
            description: "经典武侠/武道境界体系",
        },
        RealmSystem {
            id: "wudao_modern",
            name: "武道现代",
            icon: "⚔️",
            category: "武道",
            levels: "炼体期→炼气期→化劲期→先天期→宗师期→大宗师→武王→武皇→武帝→武圣",
            description: "融合现代元素的武道体系",
        },
        RealmSystem {
            id: "martial_god",
            name: "武神境界",
            icon: "🗡️",
            category: "武道",
            levels: "武徒→武者→武师→武灵→武将→武侯→武王→武帝→半步武神→武神→武祖",
            description: "以武神为终极目标的体系",
        },
        RealmSystem {
            id: "intent_realm",
            name: "武意境界",
            icon: "🌊",
            category: "武道",
            levels: "入门→小成→大成→炉火纯青→登峰造极→意境初开→意境小成→意境大成→意境化神→天人合一",
            description: "以武意/武道感悟为核心的进阶体系",
        },
        RealmSystem {
            id: "dou_qi",
            name: "斗气境界",
            icon: "🐲",
            category: "玄幻",
            levels: "斗者→斗师→大斗师→斗灵→斗王→斗皇→斗宗→斗尊→斗圣→斗帝",
            description: "《斗破苍穹》式斗气体系",
        },
        RealmSystem {
            id: "magic_star",
            name: "魔法星级",
            icon: "✨",
            category: "玄幻",
            levels: "一星→二星→三星→四星→五星→六星→七星→八星→九星→神级",
            description: "以星级划分魔法师实力的体系",
        },
        RealmSystem {
            id: "divine_realm",
            name: "神魔体系",
            icon: "⚜️",
            category: "玄幻",
            levels: "凡人→武者→武师→武将→武侯→武王→武帝→半神→神→主神→古神→混沌神",
            description: "神魔争霸世界的力量层级",
        },
        RealmSystem {
            id: "bloodline",
            name: "血脉等阶",
            icon: "🩸",
            category: "玄幻",
            levels: "凡血→黄阶→玄阶→地阶→天阶→神阶→祖血→始血→混沌血脉",
            description: "以血脉觉醒和进化为核心的体系",
        },
        RealmSystem {
            id: "rune_grade",
            name: "符文品级",
            icon: "📜",
            category: "玄幻",
            levels: "一品符文→二品→三品→四品→五品→六品→七品→八品→九品→神品→传说→神话",
            description: "以符文等级划分力量的奇幻体系",
        },
        RealmSystem {
            id: "ability_level",
            name: "异能等级",
            icon: "⚡",
            category: "异能",
            levels: "觉醒→F级→E级→D级→C级→B级→A级→S级→SS级→SSS级→神级",
            description: "都市异能/进化者的能力等级",
        },
        RealmSystem {
            id: "awakener",
            name: "觉醒者阶段",
            icon: "🔮",
            category: "异能",
            levels: "潜力者→初阶觉醒→中阶觉醒→高阶觉醒→精英觉醒→超凡觉醒→传说觉醒→神话觉醒",
            description: "以觉醒阶段划分超能力者实力",
        },
        RealmSystem {
            id: "apocalypse_rank",
            name: "末世进化",
            icon: "☠️",
            category: "末世",
            levels: "普通人→一阶→二阶→三阶→四阶→五阶→六阶→超阶→神阶→变异神阶",
            description: "末世中人类进化的阶段体系",
        },
        RealmSystem {
            id: "zombie_rank",
            name: "丧尸进化",
            icon: "🧟",
            category: "末世",
            levels: "普通丧尸→二阶丧尸→三阶变种→四阶精英→五阶领主→六阶王者→BOSS级→神级丧尸",
            description: "末世丧尸的进化等级，形成反向威胁体系",
        },
        RealmSystem {
            id: "civilization_tier",
            name: "文明等级",
            icon: "🚀",
            category: "科幻",
            levels: "Ⅰ型文明→Ⅱ型文明→Ⅲ型文明→Ⅳ型文明（星系）→Ⅴ型（星域）→Ⅵ型（宇宙）→超维文明",
            description: "卡尔达舍夫文明等级量表",
        },
        RealmSystem {
            id: "mecha_rank",
            name: "机甲等级",
            icon: "🤖",
            category: "科幻",
            levels: "E级机甲→D级→C级→B级→A级→S级→神机→传说机甲→星灵机甲",
            description: "星际机甲/战甲的等级体系",
        },
        RealmSystem {
            id: "gene_evolution",
            name: "基因进化",
            icon: "🧬",
            category: "科幻",
            levels: "原始人类→基因改造→一阶进化→二阶→三阶→四阶→五阶→超进化→神进化→宇宙生命体",
            description: "以基因改造和进化为核心的科幻体系",
        },
        RealmSystem {
            id: "system_grade",
            name: "系统等级",
            icon: "💻",
            category: "系统",
            levels: "Lv.1→Lv.10→Lv.20→Lv.30→Lv.50→Lv.100→隐藏职业→传说职业→神话职业→系统主宰",
            description: "系统流中人物等级与职业体系",
        },
        RealmSystem {
            id: "infinite_rank",
            name: "无限副本",
            icon: "🌀",
            category: "无限",
            levels: "新手→普通玩家→精英→王者→传说→神话→永恒→起源→无上",
            description: "无限流副本中玩家的积分与实力等级",
        },
    ]
}

/// All predefined realm systems.
pub fn all_realms() -> (r: Vec<RealmSystem>)
    ensures
        r@ == realm_table(),
{
    let r = vec![
            RealmSystem {
                id: "xianxia_classic",
                name: "仙道经典",
                icon: "⚡",
                category: "修炼",
                levels: "练气→筑基→金丹→元婴→化神→炼虚→合体→大乘→渡劫→飞升",
                description: "最经典修仙境界，符合传统仙侠体系",
            },
            RealmSystem {
                id: "xianxia_extended",
                name: "仙道扩展",
                icon: "🌌",
                category: "修炼",
                levels: "淬体→练气→筑基→金丹→元婴→化神→炼虚→合体→大乘→渡劫→飞升→太乙→金仙→大罗→混元",
                description: "扩展版修仙境界，涵盖仙界层次",
            },
            RealmSystem {
                id: "dao_realm",
                name: "道境层次",
                icon: "☯️",
                category: "修炼",
                levels: "凡境→道基→道种→道心→道躯→道魂→道尊→道圣→道帝→道祖→天道",
                description: "以「道」为核心的修炼层次",
            },
            RealmSystem {
                id: "demon_path",
                name: "魔道境界",
                icon: "🔥",
                category: "修炼",
                levels: "炼皮→炼骨→炼脉→炼脏→炼神→魔徒→魔师→魔王→魔皇→魔圣→魔祖",
                description: "走魔道修炼的境界体系",
            },
            RealmSystem {
                id: "body_refine",
                name: "炼体境界",
                icon: "💪",
                category: "修炼",
                levels: "淬骨→铸筋→凝血→炼脏→金身→铜躯→铁甲→玄铁→天罡→不灭→神体",
                description: "以肉身修炼为主的体修体系",
            },
            RealmSystem {
                id: "spirit_root",
                name: "灵根品阶",
                icon: "🌱",
                category: "修炼",
                levels: "废灵根→七灵根→六灵根→五灵根→四灵根→三灵根→双灵根→单灵根→变异灵根→天灵根→混沌灵根",
                description: "灵根品质决定修炼天赋的辅助体系",
            },
            RealmSystem {
                id: "wudao_classic",
                name: "武道经典",
                icon: "🥊",
                category: "武道",
                levels: "后天→先天→宗师→武圣→武神→武尊→武帝→武皇→武宗→武祖",
                description: "经典武侠/武道境界体系",
            },
            RealmSystem {
                id: "wudao_modern",
                name: "武道现代",
                icon: "⚔️",
                category: "武道",
                levels: "炼体期→炼气期→化劲期→先天期→宗师期→大宗师→武王→武皇→武帝→武圣",
                description: "融合现代元素的武道体系",
            },
            RealmSystem {
                id: "martial_god",
                name: "武神境界",
                icon: "🗡️",
                category: "武道",
                levels: "武徒→武者→武师→武灵→武将→武侯→武王→武帝→半步武神→武神→武祖",
                description: "以武神为终极目标的体系",
            },
            RealmSystem {
                id: "intent_realm",
                name: "武意境界",
                icon: "🌊",
                category: "武道",
                levels: "入门→小成→大成→炉火纯青→登峰造极→意境初开→意境小成→意境大成→意境化神→天人合一",
                description: "以武意/武道感悟为核心的进阶体系",
            },
            RealmSystem {
                id: "dou_qi",
                name: "斗气境界",
                icon: "🐲",
                category: "玄幻",
                levels: "斗者→斗师→大斗师→斗灵→斗王→斗皇→斗宗→斗尊→斗圣→斗帝",
                description: "《斗破苍穹》式斗气体系",
            },
            RealmSystem {
                id: "magic_star",
                name: "魔法星级",
                icon: "✨",
                category: "玄幻",
                levels: "一星→二星→三星→四星→五星→六星→七星→八星→九星→神级",
                description: "以星级划分魔法师实力的体系",
            },
            RealmSystem {
                id: "divine_realm",
                name: "神魔体系",
                icon: "⚜️",
                category: "玄幻",
                levels: "凡人→武者→武师→武将→武侯→武王→武帝→半神→神→主神→古神→混沌神",
                description: "神魔争霸世界的力量层级",
            },
            RealmSystem {
                id: "bloodline",
                name: "血脉等阶",
                icon: "🩸",
                category: "玄幻",
                levels: "凡血→黄阶→玄阶→地阶→天阶→神阶→祖血→始血→混沌血脉",
                description: "以血脉觉醒和进化为核心的体系",
            },
            RealmSystem {
                id: "rune_grade",
                name: "符文品级",
                icon: "📜",
                category: "玄幻",
                levels: "一品符文→二品→三品→四品→五品→六品→七品→八品→九品→神品→传说→神话",
                description: "以符文等级划分力量的奇幻体系",
            },
            RealmSystem {
                id: "ability_level",
                name: "异能等级",
                icon: "⚡",
                category: "异能",
                levels: "觉醒→F级→E级→D级→C级→B级→A级→S级→SS级→SSS级→神级",
                description: "都市异能/进化者的能力等级",
            },
            RealmSystem {
                id: "awakener",
                name: "觉醒者阶段",
                icon: "🔮",
                category: "异能",
                levels: "潜力者→初阶觉醒→中阶觉醒→高阶觉醒→精英觉醒→超凡觉醒→传说觉醒→神话觉醒",
                description: "以觉醒阶段划分超能力者实力",
            },
            RealmSystem {
                id: "apocalypse_rank",
                name: "末世进化",
                icon: "☠️",
                category: "末世",
                levels: "普通人→一阶→二阶→三阶→四阶→五阶→六阶→超阶→神阶→变异神阶",
                description: "末世中人类进化的阶段体系",
            },
            RealmSystem {
                id: "zombie_rank",
                name: "丧尸进化",
                icon: "🧟",
                category: "末世",
                levels: "普通丧尸→二阶丧尸→三阶变种→四阶精英→五阶领主→六阶王者→BOSS级→神级丧尸",
                description: "末世丧尸的进化等级，形成反向威胁体系",
            },
            RealmSystem {
                id: "civilization_tier",
                name: "文明等级",
                icon: "🚀",
                category: "科幻",
                levels: "Ⅰ型文明→Ⅱ型文明→Ⅲ型文明→Ⅳ型文明（星系）→Ⅴ型（星域）→Ⅵ型（宇宙）→超维文明",
                description: "卡尔达舍夫文明等级量表",
            },
            RealmSystem {
                id: "mecha_rank",
                name: "机甲等级",
                icon: "🤖",
                category: "科幻",
                levels: "E级机甲→D级→C级→B级→A级→S级→神机→传说机甲→星灵机甲",
                description: "星际机甲/战甲的等级体系",
            },
            RealmSystem {
                id: "gene_evolution",
                name: "基因进化",
                icon: "🧬",
                category: "科幻",
                levels: "原始人类→基因改造→一阶进化→二阶→三阶→四阶→五阶→超进化→神进化→宇宙生命体",
                description: "以基因改造和进化为核心的科幻体系",
            },
            RealmSystem {
                id: "system_grade",
                name: "系统等级",
                icon: "💻",
                category: "系统",
                levels: "Lv.1→Lv.10→Lv.20→Lv.30→Lv.50→Lv.100→隐藏职业→传说职业→神话职业→系统主宰",
                description: "系统流中人物等级与职业体系",
            },
            RealmSystem {
                id: "infinite_rank",
                name: "无限副本",
                icon: "🌀",
                category: "无限",
                levels: "新手→普通玩家→精英→王者→传说→神话→永恒→起源→无上",
                description: "无限流副本中玩家的积分与实力等级",
            },
    ];
    proof {
        assert(r@ =~= realm_table());
    }
    r
}

/// The first entry of `t` whose id is `id`.
pub open spec fn first_with_id(t: Seq<RealmSystem>, id: Seq<char>) -> Option<RealmSystem>
    decreases t.len(),
{
    if t.len() == 0 {
        None
    } else if t[0].id@ == id {
        Some(t[0])
    } else {
        first_with_id(t.drop_first(), id)
    }
}

/// The predefined realm system with the given id.
pub open spec fn realm_with_id(id: Seq<char>) -> Option<RealmSystem> {
    first_with_id(realm_table(), id)
}

/// Looks up a predefined realm system by its id.
pub fn realm_by_id(id: &str) -> (r: Option<RealmSystem>)
    ensures
        r == realm_with_id(id@),
{
    let all = all_realms();
    let mut i: usize = 0;
    proof {
        assert(all@.skip(0) =~= all@);
    }
    while i < all.len()
        invariant
            i <= all.len(),
            all@ == realm_table(),
            first_with_id(realm_table(), id@) == first_with_id(all@.skip(i as int), id@),
        decreases all.len() - i,
    {
        proof {
            assert(all@.skip(i as int).drop_first() =~= all@.skip(i + 1));
        }
        if str_equal(all[i].id, id) {
            return Some(all[i]);
        }
        i += 1;
    }
    None
}

/// The categories that the realm pickers list, in display order.
pub open spec fn category_table() -> Seq<&'static str> {
    seq!["修炼", "武道", "玄幻", "异能", "末世", "科幻", "系统", "无限"]
}

/// The categories that the realm pickers list, in display order.
pub fn realm_categories() -> (r: Vec<&'static str>)
    ensures
        r@ == category_table(),
{
    let r = vec!["修炼", "武道", "玄幻", "异能", "末世", "科幻", "系统", "无限"];
    proof {
        assert(r@ =~= category_table());
    }
    r
}

/// The predefined realm systems of one category, in display order.
pub open spec fn category_realms(cat: Seq<char>) -> Seq<RealmSystem> {
    realm_table().filter(|r: RealmSystem| r.category@ == cat)
}

/// The predefined realm systems of a category (cultivation, martial arts,
/// fantasy, ...), in display order.
pub fn realms_in_category(cat: &str) -> (r: Vec<RealmSystem>)
    ensures
        r@ == category_realms(cat@),
{
    let all = all_realms();
    let ghost pred = |r: RealmSystem| r.category@ == cat@;
    let mut out: Vec<RealmSystem> = Vec::new();
    let mut i: usize = 0;
    proof {
        assert(all@.take(0) =~= Seq::<RealmSystem>::empty());
    }
    while i < all.len()
        invariant
            i <= all.len(),
            all@ == realm_table(),
            pred == (|r: RealmSystem| r.category@ == cat@),
            out@ == all@.take(i as int).filter(pred),
        decreases all.len() - i,
    {
        proof {
            reveal(Seq::filter);
            let t = all@.take(i + 1);
            assert(t.drop_last() =~= all@.take(i as int));
            assert(t.last() == all@[i as int]);
            assert(t.filter(pred) == if pred(t.last()) {
                t.drop_last().filter(pred).push(t.last())
            } else {
                t.drop_last().filter(pred)
            });
        }
        if str_equal(all[i].category, cat) {
            out.push(all[i]);
        }
        i += 1;
    }
    proof {
        assert(all@.take(all.len() as int) =~= all@);
    }
    out
}

/// The prompt line that describes one realm system.
pub open spec fn realm_line(r: RealmSystem) -> Seq<char> {
    "▸ "@ + r.name@ + "（"@ + r.icon@ + "）："@ + r.levels@ + "\n"@
}

/// The prompt lines for the selected ids; unknown ids contribute nothing.
pub open spec fn realm_lines(ids: Seq<String>) -> Seq<char>
    decreases ids.len(),
{
    if ids.len() == 0 {
        Seq::empty()
    } else {
        realm_lines(ids.drop_last()) + match realm_with_id(ids.last()@) {
            Some(r) => realm_line(r),
            None => Seq::empty(),
        }
    }
}

/// The prompt section that describes the selected realm systems.
pub open spec fn realm_prompt(ids: Seq<String>) -> Seq<char> {
    if ids.len() == 0 {
        Seq::empty()
    } else {
        "\n\n【当前世界境界体系】\n"@ + realm_lines(ids) + "请在行文中自然体现以上境界体系，角色实力对比须符合境界逻辑。"@
    }
}

/// Formats the selected realm systems as a paragraph for a prompt.
pub fn build_realm_prompt(ids: &[String]) -> (r: String)
    ensures
        r@ == realm_prompt(ids@),
{
    if ids.len() == 0 {
        return String::new();
    }
    let mut out = String::from_str("\n\n【当前世界境界体系】\n");
    let ghost head = out@;
    let mut i: usize = 0;
    while i < ids.len()
        invariant
            i <= ids.len(),
            out@ == head + realm_lines(ids@.take(i as int)),
        decreases ids.len() - i,
    {
        proof {
            assert(ids@.take(i + 1).drop_last() =~= ids@.take(i as int));
        }
        match realm_by_id(ids[i].as_str()) {
            Some(r) => {
                out.append("▸ ");
                out.append(r.name);
                out.append("（");
                out.append(r.icon);
                out.append("）：");
                out.append(r.levels);
                out.append("\n");
                proof {
                    assert(out@ =~= head + realm_lines(ids@.take(i + 1)));
                }
            },
            None => {
                proof {
                    assert(out@ =~= head + realm_lines(ids@.take(i + 1)));
                }
            },
        }
        i += 1;
    }
    proof {
        assert(ids@.take(ids.len() as int) =~= ids@);
    }
    out.append("请在行文中自然体现以上境界体系，角色实力对比须符合境界逻辑。");
    out
}

// ---------------------------------------------------------------------------
// Minor stages of a user-defined realm
// ---------------------------------------------------------------------------

/// The characters accepted between minor stages: `/`, `／` and `→`.
pub open spec fn level_separators() -> Seq<char> {
    seq!['/', '／', '→']
}

/// The trimmed pieces that are not empty, in order.
pub open spec fn kept_levels(ps: Seq<Seq<char>>) -> Seq<Seq<char>>
    decreases ps.len(),
{
    if ps.len() == 0 {
        Seq::empty()
    } else {
        let r = kept_levels(ps.drop_last());
        let t = trim(ps.last());
        if t.len() > 0 {
            r.push(t)
        } else {
            r
        }
    }
}

/// The minor stages of `s`, trimmed, without empty ones, joined by `→`.
pub open spec fn normalized_levels(s: Seq<char>) -> Seq<char> {
    join(kept_levels(split_by(s, level_separators())), seq!['→'])
}

proof fn lemma_join_push(ps: Seq<Seq<char>>, sep: Seq<char>, t: Seq<char>)
    ensures
        join(ps.push(t), sep) == if ps.len() == 0 {
            t
        } else {
            join(ps, sep) + sep + t
        },
{
    assert(ps.push(t).drop_last() =~= ps);
    if ps.len() == 0 {
        assert(ps.push(t)[0] == t);
    }
}

/// Normalizes the minor stages a user typed: any of `/`, `／`, `→` separates
/// stages, which are trimmed, dropped when empty and joined with `→`.
pub fn normalize_sub_levels(s: &str) -> (r: String)
    ensures
        r@ == normalized_levels(s@),
{
    let v = chars_of(s);
    let seps: [char; 3] = ['/', '／', '→'];
    proof {
        assert(seps@ =~= level_separators());
    }
    let pieces = split_chars(&v, &seps);
    let ghost ps = split_by(s@, level_separators());
    let mut out = String::new();
    let mut count: usize = 0;
    let mut i: usize = 0;
    proof {
        assert(ps.take(0) =~= Seq::<Seq<char>>::empty());
    }
    while i < pieces.len()
        invariant
            i <= pieces.len() == ps.len(),
            ps == split_by(s@, level_separators()),
            forall|k: int| 0 <= k < pieces.len() ==> #[trigger] pieces@[k]@ == ps[k],
            count <= i,
            count == kept_levels(ps.take(i as int)).len(),
            out@ == join(kept_levels(ps.take(i as int)), seq!['→']),
        decreases pieces.len() - i,
    {
        let t = trim_chars(&pieces[i]);
        proof {
            assert(ps.take(i + 1).drop_last() =~= ps.take(i as int));
            assert(ps.take(i + 1).last() == ps[i as int]);
            lemma_join_push(kept_levels(ps.take(i as int)), seq!['→'], t@);
        }
        if t.len() > 0 {
            if count > 0 {
                push_char(&mut out, '→');
            }
            append_chars(&mut out, &t);
            proof {
                if count > 0 {
                    assert(out@ =~= join(kept_levels(ps.take(i as int)), seq!['→']) + seq!['→'] + t@);
                }
            }
            count += 1;
        }
        i += 1;
    }
    proof {
        assert(ps.take(ps.len() as int) =~= ps);
    }
    out
}

// ---------------------------------------------------------------------------
// User-defined realms
// ---------------------------------------------------------------------------

/// `x` placed before the first element of `s` whose order is larger.
pub open spec fn insert_by_order(s: Seq<CustomRealm>, x: CustomRealm) -> Seq<CustomRealm>
    decreases s.len(),
{
    if s.len() == 0 {
        seq![x]
    } else if s[0].order > x.order {
        seq![x] + s
    } else {
        seq![s[0]] + insert_by_order(s.drop_first(), x)
    }
}

/// `s` stably sorted by `order` (as `sort_by_key(|r| r.order)`).
pub open spec fn sort_by_order(s: Seq<CustomRealm>) -> Seq<CustomRealm>
    decreases s.len(),
{
    if s.len() == 0 {
        s
    } else {
        insert_by_order(sort_by_order(s.drop_last()), s.last())
    }
}

proof fn lemma_insert_at_first_larger(s: Seq<CustomRealm>, x: CustomRealm, p: int)
    requires
        0 <= p <= s.len(),
        forall|k: int| 0 <= k < p ==> s[k].order <= x.order,
        p < s.len() ==> s[p].order > x.order,
    ensures
        insert_by_order(s, x) == s.insert(p, x),
    decreases s.len(),
{
    if s.len() == 0 {
        assert(s.insert(p, x) =~= seq![x]);
    } else if p == 0 {
        assert(s.insert(p, x) =~= seq![x] + s);
    } else {
        let t = s.drop_first();
        assert forall|k: int| 0 <= k < p - 1 implies t[k].order <= x.order by {
            assert(t[k] == s[k + 1]);
        }
        lemma_insert_at_first_larger(t, x, p - 1);
        assert(s.insert(p, x) =~= seq![s[0]] + t.insert(p - 1, x));
    }
}

/// The index of the first element of `v` whose order exceeds `order`.
fn first_larger(v: &Vec<CustomRealm>, order: u32) -> (p: usize)
    ensures
        p <= v.len(),
        forall|k: int| 0 <= k < p ==> v@[k].order <= order,
        p < v.len() ==> v@[p as int].order > order,
{
    let mut p: usize = 0;
    while p < v.len() && v[p].order <= order
        invariant
            p <= v.len(),
            forall|k: int| 0 <= k < p ==> v@[k].order <= order,
        decreases v.len() - p,
    {
        p += 1;
    }
    p
}

/// The realms stably sorted by their order.
pub fn sorted_by_order(rs: &[CustomRealm]) -> (r: Vec<CustomRealm>)
    ensures
        r@ == sort_by_order(rs@),
{
    let mut out: Vec<CustomRealm> = Vec::new();
    let mut i: usize = 0;
    proof {
        assert(rs@.take(0) =~= Seq::<CustomRealm>::empty());
    }
    while i < rs.len()
        invariant
            i <= rs.len(),
            out@ == sort_by_order(rs@.take(i as int)),
        decreases rs.len() - i,
    {
        let x = rs[i].clone();
        let p = first_larger(&out, x.order);
        proof {
            lemma_insert_at_first_larger(out@, x, p as int);
            assert(rs@.take(i + 1).drop_last() =~= rs@.take(i as int));
        }
        out.insert(p, x);
        i += 1;
    }
    proof {
        assert(rs@.take(rs.len() as int) =~= rs@);
    }
    out
}

/// The prompt lines for the realm in position `i` (counted from zero).
pub open spec fn custom_realm_entry(i: nat, r: CustomRealm) -> Seq<char> {
    decimal(i + 1) + ". "@ + r.name@ + (if r.description@.len() == 0 {
        Seq::<char>::empty()
    } else {
        "（"@ + r.description@ + "）"@
    }) + "\n"@ + (if r.sub_levels@.len() == 0 {
        Seq::<char>::empty()
    } else {
        "   小境界："@ + normalized_levels(r.sub_levels@) + "\n"@
    })
}

/// The prompt lines for the realms `rs`, numbered from one.
pub open spec fn custom_realm_entries(rs: Seq<CustomRealm>) -> Seq<char>
    decreases rs.len(),
{
    if rs.len() == 0 {
        Seq::empty()
    } else {
        custom_realm_entries(rs.drop_last()) + custom_realm_entry((rs.len() - 1) as nat, rs.last())
    }
}

/// The prompt section for user-defined realms, listed by increasing order.
pub open spec fn custom_realms_prompt(rs: Seq<CustomRealm>) -> Seq<char> {
    if rs.len() == 0 {
        Seq::empty()
    } else {
        "\n\n【自定义境界体系】\n"@ + custom_realm_entries(sort_by_order(rs))
    }
}

proof fn lemma_sort_len(s: Seq<CustomRealm>)
    ensures
        sort_by_order(s).len() == s.len(),
    decreases s.len(),
{
    if s.len() > 0 {
        lemma_sort_len(s.drop_last());
        lemma_insert_len(sort_by_order(s.drop_last()), s.last());
    }
}

proof fn lemma_insert_len(s: Seq<CustomRealm>, x: CustomRealm)
    ensures
        insert_by_order(s, x).len() == s.len() + 1,
    decreases s.len(),
{
    if s.len() > 0 && s[0].order <= x.order {
        lemma_insert_len(s.drop_first(), x);
    }
}

/// Formats the user-defined realms, sorted by order, as a paragraph for a prompt.
pub fn build_custom_realms_prompt(realms: &[CustomRealm]) -> (r: String)
    ensures
        r@ == custom_realms_prompt(realms@),
{
    if realms.len() == 0 {
        return String::new();
    }
    let list = sorted_by_order(realms);
    proof {
        lemma_sort_len(realms@);
    }
    let mut out = String::from_str("\n\n【自定义境界体系】\n");
    let ghost head = out@;
    let mut i: usize = 0;
    while i < list.len()
        invariant
            i <= list.len() == realms.len(),
            out@ == head + custom_realm_entries(list@.take(i as int)),
        decreases list.len() - i,
    {
        append_custom_realm_entry(&mut out, i, &list[i]);
        proof {
            assert(list@.take(i + 1).drop_last() =~= list@.take(i as int));
            assert(list@.take(i + 1).last() == list@[i as int]);
        }
        i += 1;
    }
    proof {
        assert(list@.take(list.len() as int) =~= list@);
    }
    out
}

/// Appends the prompt lines for the realm in position `i`.
fn append_custom_realm_entry(out: &mut String, i: usize, r: &CustomRealm)
    requires
        i < usize::MAX,
    ensures
        final(out)@ == old(out)@ + custom_realm_entry(i as nat, *r),
{
    let ghost before = out@;
    append_string(out, &decimal_string(i + 1));
    out.append(". ");
    out.append(r.name.as_str());
    let ghost after_name = out@;
    if r.description.as_str().unicode_len() > 0 {
        out.append("（");
        out.append(r.description.as_str());
        out.append("）");
    }
    let ghost desc = if r.description@.len() == 0 {
        Seq::<char>::empty()
    } else {
        "（"@ + r.description@ + "）"@
    };
    assert(out@ =~= after_name + desc);
    out.append("\n");
    let ghost after_line = out@;
    if r.sub_levels.as_str().unicode_len() > 0 {
        out.append("   小境界：");
        let norm = normalize_sub_levels(r.sub_levels.as_str());
        out.append(norm.as_str());
        out.append("\n");
    }
    let ghost sub = if r.sub_levels@.len() == 0 {
        Seq::<char>::empty()
    } else {
        "   小境界："@ + normalized_levels(r.sub_levels@) + "\n"@
    };
    assert(out@ =~= after_line + sub);
    assert(out@ =~= before + custom_realm_entry(i as nat, *r));
}

} // verus!
