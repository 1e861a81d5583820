use crate::api::{WorkerCmd, WorkerMsg};
use crate::novel::{Chapter, ChapterStatus, NovelProject};
use crate::realms::{build_custom_realms_prompt, build_realm_prompt, custom_realms_prompt, realm_prompt};
use crate::text::{
    append_string, chars_of, decimal, decimal_string, string_of, tail, trim, trim_chars,
    truncate_chars, truncated,
};
use vstd::prelude::*;

verus! {

/// Where the generation of a novel stands.
#[derive(Debug, Clone, Copy, PartialEq, Eq, Structural)]
pub enum GenState {
    Idle,
    OptimizingOutline,
    GeneratingPlan,
    /// Writing the chapter with this number (counted from one).
    GeneratingChapter(usize),
    /// Stopped by the user; resuming writes the chapter at this index.
    Paused(usize),
    Done,
}

impl GenState {
    /// Whether the writer is busy.
    pub fn is_running(&self) -> (r: bool)
        ensures
            r == (*self is OptimizingOutline || *self is GeneratingPlan || *self is GeneratingChapter),
    {
        match self {
            GenState::OptimizingOutline | GenState::GeneratingPlan | GenState::GeneratingChapter(_) => true,
            _ => false,
        }
    }

    /// The status text shown to the user; `total` is the number of chapters.
    pub fn label(&self, total: usize) -> (r: String)
        ensures
            r@ == gen_label(*self, total as nat),
    {
        match self {
            GenState::Idle => String::from_str("就绪"),
            GenState::OptimizingOutline => String::from_str("优化大纲中…"),
            GenState::GeneratingPlan => String::from_str("规划章节中…"),
            GenState::GeneratingChapter(n) => {
                let mut s = String::from_str("第 ");
                append_string(&mut s, &decimal_string(*n));
                s.append("/");
                append_string(&mut s, &decimal_string(total));
                s.append(" 章");
                s
            },
            GenState::Paused(_) => String::from_str("已暂停"),
            GenState::Done => String::from_str("已完成 ✓"),
        }
    }
}

/// The status text for a generation state.
pub open spec fn gen_label(g: GenState, total: nat) -> Seq<char> {
    match g {
        GenState::Idle => "就绪"@,
        GenState::OptimizingOutline => "优化大纲中…"@,
        GenState::GeneratingPlan => "规划章节中…"@,
        GenState::GeneratingChapter(n) => "第 "@ + decimal(n as nat) + "/"@ + decimal(total) + " 章"@,
        GenState::Paused(_) => "已暂停"@,
        GenState::Done => "已完成 ✓"@,
    }
}

/// The kind of a notification.
#[derive(Debug, Clone, Copy, PartialEq, Eq, Structural)]
pub enum ToastKind {
    Info,
    Success,
    Failure,
}

/// How long a notification stays on screen, in milliseconds.
pub open spec fn toast_lifetime_ms() -> nat {
    3500
}

/// Whether a notification shown `elapsed_ms` milliseconds ago is still on
/// screen.
pub fn toast_alive(elapsed_ms: u128) -> (r: bool)
    ensures
        r == (elapsed_ms < toast_lifetime_ms()),
{
    elapsed_ms < 3500
}

/// Something the application does on behalf of the session.
#[derive(Debug)]
pub enum Effect {
    /// Show a notification.
    Toast(ToastKind, String),
    /// Clear the writer's stop flag.
    ResetStop,
    /// Ask the writer to stop.
    StopWorker,
    /// Hand a command to the writer.
    Send(WorkerCmd),
    /// Save the project to its file, if it has one and auto-save is on.
    AutoSave,
    /// All chapters are written: announce it with the chapter count.
    AllDone(usize),
}

/// The generation state of the application around a project.
#[derive(Debug)]
pub struct Session {
    pub project: NovelProject,
    pub gen_state: GenState,
    /// The index of the chapter that streamed text goes to.
    pub streaming: Option<usize>,
    pub selected_chapter: Option<usize>,
    /// Whether the project changed since it was saved.
    pub dirty: bool,
}

/// The realm section of a chapter prompt: selected predefined systems, the
/// user's free text, then the user-defined realms.
pub open spec fn realm_info(p: NovelProject) -> Seq<char> {
    let base = realm_prompt(p.selected_realms@);
    let custom = trim(p.custom_realm@);
    let with_custom = if custom.len() == 0 {
        base
    } else if base.len() == 0 {
        "\n\n【境界体系】\n▸ 自定义："@ + custom + "\n"@
    } else {
        base + "\n▸ 自定义："@ + custom
    };
    with_custom + custom_realms_prompt(p.custom_realms@)
}

/// The outline sent with a chapter: the optimized one when there is one,
/// cut to 1200 characters.
pub open spec fn chapter_outline(p: NovelProject) -> Seq<char> {
    truncated(
        if p.optimized_outline@.len() == 0 {
            p.outline@
        } else {
            p.optimized_outline@
        },
        1200,
    )
}

/// The story so far sent with chapter `idx`: the last 400 characters of the
/// chapter before it.
pub open spec fn chapter_context(p: NovelProject, idx: int) -> Seq<char> {
    if idx > 0 {
        tail(p.chapters@[idx - 1].content@, 400)
    } else {
        Seq::empty()
    }
}

/// Whether `cmd` asks the writer for chapter `idx` of `p`.
pub open spec fn is_chapter_request(cmd: WorkerCmd, p: NovelProject, idx: int) -> bool {
    match cmd {
        WorkerCmd::GenerateChapter {
            num,
            chapter_title,
            brief,
            novel_title,
            outline,
            context,
            template_name,
            words,
            realm_info: ri,
            reduce_ai_traits,
            avoid_famous_names,
        } => {
            &&& num == p.chapters@[idx].number
            &&& chapter_title@ == p.chapters@[idx].title@
            &&& brief@ == p.chapters@[idx].brief@
            &&& novel_title@ == p.title@
            &&& outline@ == chapter_outline(p)
            &&& context@ == chapter_context(p, idx)
            &&& template_name@ == p.template@
            &&& words == p.target_words_per_chapter
            &&& ri@ == realm_info(p)
            &&& reduce_ai_traits == p.reduce_ai_traits
            &&& avoid_famous_names == p.avoid_famous_names
        },
        _ => false,
    }
}

/// The realm section of a chapter prompt for `p`.
pub fn build_realm_info(p: &NovelProject) -> (r: String)
    ensures
        r@ == realm_info(*p),
{
    let mut info = build_realm_prompt(p.selected_realms.as_slice());
    let custom = string_of(&trim_chars(&chars_of(p.custom_realm.as_str())));
    if custom.as_str().unicode_len() > 0 {
        if info.as_str().unicode_len() == 0 {
            info = String::from_str("\n\n【境界体系】\n▸ 自定义：");
            info.append(custom.as_str());
            info.append("\n");
        } else {
            info.append("\n▸ 自定义：");
            info.append(custom.as_str());
        }
    }
    let extra = build_custom_realms_prompt(p.custom_realms.as_slice());
    info.append(extra.as_str());
    info
}

/// Whether `a` and `b` agree on everything but their chapters and
/// optimized outline.
pub open spec fn same_settings(a: NovelProject, b: NovelProject) -> bool {
    &&& a.title == b.title
    &&& a.author == b.author
    &&& a.template == b.template
    &&& a.outline == b.outline
    &&& a.target_chapters == b.target_chapters
    &&& a.target_words_per_chapter == b.target_words_per_chapter
    &&& a.selected_realms@ == b.selected_realms@
    &&& a.custom_realm == b.custom_realm
    &&& a.reduce_ai_traits == b.reduce_ai_traits
    &&& a.avoid_famous_names == b.avoid_famous_names
    &&& a.custom_realms@ == b.custom_realms@
    &&& a.created_at == b.created_at
    &&& a.updated_at == b.updated_at
}

/// Whether `a` and `b` agree on everything but their chapters.
pub open spec fn same_but_chapters(a: NovelProject, b: NovelProject) -> bool {
    &&& same_settings(a, b)
    &&& a.optimized_outline == b.optimized_outline
}

/// Chapter `c` as it is while being (re)written: emptied and marked generating.
pub open spec fn restarted(c: Chapter, d: Chapter) -> bool {
    &&& d.number == c.number
    &&& d.title == c.title
    &&& d.brief == c.brief
    &&& d.word_count == c.word_count
    &&& d.content@ == Seq::<char>::empty()
    &&& d.status is Generating
}

/// Whether `new` is `old` after starting chapter `idx` (which exists), with
/// `effects` the resulting work for the application.
pub open spec fn launched(old: Session, new: Session, idx: int, effects: Seq<Effect>) -> bool {
    &&& same_but_chapters(new.project, old.project)
    &&& new.project.chapters@.len() == old.project.chapters@.len()
    &&& forall|k: int|
        0 <= k < old.project.chapters@.len() && k != idx ==> #[trigger] new.project.chapters@[k]
            == old.project.chapters@[k]
    &&& restarted(old.project.chapters@[idx], new.project.chapters@[idx])
    &&& new.streaming == Some(idx as usize)
    &&& new.gen_state == GenState::GeneratingChapter((idx + 1) as usize)
    &&& new.selected_chapter == Some(idx as usize)
    &&& new.dirty == old.dirty
    &&& effects.len() == 2
    &&& effects[0] is ResetStop
    &&& effects[1] matches Effect::Send(cmd) && is_chapter_request(cmd, old.project, idx)
}

impl Session {
    /// Starts writing chapter `idx`: marks it generating, empties it, selects
    /// it, and asks the writer for it with the title, brief, the end of the
    /// previous chapter, the outline and the realm section. Nothing happens
    /// for an index past the last chapter.
    pub fn launch(&mut self, idx: usize) -> (effects: Vec<Effect>)
        ensures
            idx >= old(self).project.chapters@.len() ==> *final(self) == *old(self) && effects@.len() == 0,
            idx < old(self).project.chapters@.len() ==> launched(*old(self), *final(self), idx as int, effects@),
    {
        let mut effects: Vec<Effect> = Vec::new();
        if idx >= self.project.chapters.len() {
            return effects;
        }
        let num = self.project.chapters[idx].number;
        let title = self.project.chapters[idx].title.clone();
        let brief = self.project.chapters[idx].brief.clone();
        let context = if idx > 0 {
            self.project.chapters[idx - 1].context_tail(400)
        } else {
            String::new()
        };
        let outline = if self.project.optimized_outline.as_str().unicode_len() == 0 {
            truncate_chars(self.project.outline.as_str(), 1200)
        } else {
            truncate_chars(self.project.optimized_outline.as_str(), 1200)
        };
        let realm_info = build_realm_info(&self.project);
        let cmd = WorkerCmd::GenerateChapter {
            num,
            chapter_title: title,
            brief,
            novel_title: self.project.title.clone(),
            outline,
            context,
            template_name: self.project.template.clone(),
            words: self.project.target_words_per_chapter,
            realm_info,
            reduce_ai_traits: self.project.reduce_ai_traits,
            avoid_famous_names: self.project.avoid_famous_names,
        };
        let ghost before = *self;
        proof {
            assert(is_chapter_request(cmd, before.project, idx as int));
        }
        self.project.chapters[idx].status = ChapterStatus::Generating;
        self.project.chapters[idx].content = String::new();
        self.streaming = Some(idx);
        self.gen_state = GenState::GeneratingChapter(idx + 1);
        self.selected_chapter = Some(idx);
        effects.push(Effect::ResetStop);
        effects.push(Effect::Send(cmd));
        effects
    }
}

/// Whether `new` has the chapters of `old` except at index `i`.
pub open spec fn chapters_same_except(old: Seq<Chapter>, new: Seq<Chapter>, i: int) -> bool {
    &&& new.len() == old.len()
    &&& forall|k: int| 0 <= k < old.len() && k != i ==> #[trigger] new[k] == old[k]
}

/// Whether `d` is `c` with its text replaced by `text` and counted again.
pub open spec fn rewritten(c: Chapter, d: Chapter, text: Seq<char>) -> bool {
    &&& d.number == c.number
    &&& d.title == c.title
    &&& d.brief == c.brief
    &&& d.status == c.status
    &&& d.content@ == text
    &&& d.word_count == crate::text::count_non_ws(text)
}

/// Streamed text `t` arrived: it is appended to the chapter being written,
/// which gets selected when nothing is.
pub open spec fn chunk_handled(old: Session, new: Session, t: Seq<char>, effects: Seq<Effect>) -> bool {
    &&& effects.len() == 0
    &&& new.gen_state == old.gen_state
    &&& new.streaming == old.streaming
    &&& new.dirty == old.dirty
    &&& same_but_chapters(new.project, old.project)
    &&& match old.streaming {
        Some(i) if (i as int) < old.project.chapters@.len() => {
            &&& chapters_same_except(old.project.chapters@, new.project.chapters@, i as int)
            &&& rewritten(
                old.project.chapters@[i as int],
                new.project.chapters@[i as int],
                old.project.chapters@[i as int].content@ + t,
            )
            &&& new.selected_chapter == if old.selected_chapter is None {
                Some(i)
            } else {
                old.selected_chapter
            }
        },
        _ => new.project.chapters@ == old.project.chapters@ && new.selected_chapter
            == old.selected_chapter,
    }
}

/// Whether `d` is a fresh chapter numbered `number` with the given title and brief.
pub open spec fn fresh_chapter(d: Chapter, number: nat, title: Seq<char>, brief: Seq<char>) -> bool {
    &&& d.number == number
    &&& d.title@ == title
    &&& d.brief@ == brief
    &&& d.word_count == 0
    &&& d.content@ == Seq::<char>::empty()
}

/// A chapter plan arrived: an empty plan is a failure; otherwise the plan
/// becomes the chapter list and the first chapter is started.
pub open spec fn plan_handled(old: Session, new: Session, plan: Seq<(String, String)>, effects: Seq<Effect>) -> bool {
    &&& new.dirty == old.dirty
    &&& same_but_chapters(new.project, old.project)
    &&& if plan.len() == 0 {
        &&& new.project.chapters@ == old.project.chapters@
        &&& new.gen_state == GenState::Idle
        &&& new.streaming == old.streaming
        &&& new.selected_chapter == old.selected_chapter
        &&& effects.len() == 1
        &&& effects[0] matches Effect::Toast(k, m) && k == ToastKind::Failure && m@ == "章节规划失败"@
    } else {
        &&& new.project.chapters@.len() == plan.len()
        &&& forall|k: int|
            0 <= k < plan.len() ==> fresh_chapter(
                #[trigger] new.project.chapters@[k],
                (k + 1) as nat,
                plan[k].0@,
                plan[k].1@,
            )
        &&& new.project.chapters@[0].status is Generating
        &&& forall|k: int| 1 <= k < plan.len() ==> (#[trigger] new.project.chapters@[k]).status is Pending
        &&& new.streaming == Some(0usize)
        &&& new.gen_state == GenState::GeneratingChapter(1)
        &&& new.selected_chapter == Some(0usize)
        &&& effects.len() == 2
        &&& effects[0] is ResetStop
        &&& effects[1] matches Effect::Send(cmd) && is_chapter_request(cmd, new.project, 0)
    }
}

/// The index a finished chapter number refers to.
pub open spec fn done_index(num: usize) -> int {
    if num == 0 {
        0
    } else {
        num - 1
    }
}

/// A chapter came back finished: it is stored and marked done; unless the
/// user paused, the next chapter is started, or, after the last one, the
/// generation is complete and the project is saved.
pub open spec fn chapter_done_handled(
    old: Session,
    new: Session,
    num: usize,
    text: Seq<char>,
    effects: Seq<Effect>,
) -> bool {
    let idx = done_index(num);
    let n = old.project.chapters@.len();
    let next = idx + 1;
    &&& new.dirty == old.dirty
    &&& same_but_chapters(new.project, old.project)
    &&& new.project.chapters@.len() == n
    &&& idx < n ==> {
        &&& new.project.chapters@[idx].number == old.project.chapters@[idx].number
        &&& new.project.chapters@[idx].title == old.project.chapters@[idx].title
        &&& new.project.chapters@[idx].brief == old.project.chapters@[idx].brief
        &&& new.project.chapters@[idx].content@ == text
        &&& new.project.chapters@[idx].word_count == crate::text::count_non_ws(text)
        &&& new.project.chapters@[idx].status is Done
    }
    &&& forall|k: int|
        0 <= k < n && k != idx && !(k == next && !(old.gen_state is Paused) && next < n)
            ==> #[trigger] new.project.chapters@[k] == old.project.chapters@[k]
    &&& if old.gen_state is Paused {
        &&& new.gen_state == old.gen_state
        &&& new.streaming == old.streaming
        &&& new.selected_chapter == old.selected_chapter
        &&& effects.len() == 0
    } else if next < n {
        &&& restarted(old.project.chapters@[next], new.project.chapters@[next])
        &&& new.streaming == Some(next as usize)
        &&& new.gen_state == GenState::GeneratingChapter((next + 1) as usize)
        &&& new.selected_chapter == Some(next as usize)
        &&& effects.len() == 2
        &&& effects[0] is ResetStop
        &&& effects[1] matches Effect::Send(cmd) && is_chapter_request(cmd, new.project, next)
    } else {
        &&& new.gen_state == GenState::Done
        &&& new.streaming is None
        &&& new.selected_chapter == old.selected_chapter
        &&& effects.len() == 2
        &&& effects[0] matches Effect::AllDone(c) && c == n
        &&& effects[1] is AutoSave
    }
}

/// The writer failed: the chapter being written is marked with the error and
/// the generation stops.
pub open spec fn error_handled(old: Session, new: Session, e: Seq<char>, effects: Seq<Effect>) -> bool {
    &&& new.dirty == old.dirty
    &&& same_but_chapters(new.project, old.project)
    &&& new.gen_state == GenState::Idle
    &&& new.streaming is None
    &&& new.selected_chapter == old.selected_chapter
    &&& effects.len() == 1
    &&& effects[0] matches Effect::Toast(k, m) && k == ToastKind::Failure && m@ == "错误："@ + e
    &&& match old.streaming {
        Some(i) if (i as int) < old.project.chapters@.len() => {
            &&& chapters_same_except(old.project.chapters@, new.project.chapters@, i as int)
            &&& new.project.chapters@[i as int].number == old.project.chapters@[i as int].number
            &&& new.project.chapters@[i as int].title == old.project.chapters@[i as int].title
            &&& new.project.chapters@[i as int].brief == old.project.chapters@[i as int].brief
            &&& new.project.chapters@[i as int].content == old.project.chapters@[i as int].content
            &&& new.project.chapters@[i as int].word_count == old.project.chapters@[i as int].word_count
            &&& new.project.chapters@[i as int].status matches ChapterStatus::Error(x) && x@ == e
        },
        _ => new.project.chapters@ == old.project.chapters@,
    }
}

impl Session {
    fn on_chunk(&mut self, t: String) -> (effects: Vec<Effect>)
        ensures
            chunk_handled(*old(self), *final(self), t@, effects@),
    {
        if let Some(i) = self.streaming {
            if i < self.project.chapters.len() {
                self.project.chapters[i].content.append(t.as_str());
                self.project.chapters[i].update_word_count();
                if self.selected_chapter.is_none() {
                    self.selected_chapter = Some(i);
                }
            }
        }
        Vec::new()
    }

    fn on_outline(&mut self, t: String) -> (effects: Vec<Effect>)
        ensures
            final(self).project.optimized_outline@ == t@,
            same_settings(final(self).project, old(self).project),
            final(self).project.chapters@ == old(self).project.chapters@,
            final(self).gen_state == GenState::Idle,
            final(self).streaming == old(self).streaming,
            final(self).selected_chapter == old(self).selected_chapter,
            final(self).dirty == old(self).dirty,
            effects@.len() == 1,
            effects@[0] matches Effect::Toast(k, m) && k == ToastKind::Success && m@ == "大纲优化完成 ✓"@,
    {
        self.project.optimized_outline = t;
        self.gen_state = GenState::Idle;
        let mut effects = Vec::new();
        effects.push(Effect::Toast(ToastKind::Success, String::from_str("大纲优化完成 ✓")));
        effects
    }

    fn on_plan(&mut self, plan: Vec<(String, String)>) -> (effects: Vec<Effect>)
        ensures
            plan_handled(*old(self), *final(self), plan@, effects@),
    {
        if plan.len() == 0 {
            self.gen_state = GenState::Idle;
            let mut effects = Vec::new();
            effects.push(Effect::Toast(ToastKind::Failure, String::from_str("章节规划失败")));
            return effects;
        }
        let mut chapters: Vec<Chapter> = Vec::new();
        let mut k: usize = 0;
        while k < plan.len()
            invariant
                k <= plan.len(),
                chapters@.len() == k,
                forall|j: int|
                    0 <= j < k ==> fresh_chapter(#[trigger] chapters@[j], (j + 1) as nat, plan@[j].0@, plan@[j].1@)
                        && chapters@[j].status is Pending,
            decreases plan.len() - k,
        {
            chapters.push(Chapter::new(k + 1, plan[k].0.clone(), plan[k].1.clone()));
            k += 1;
        }
        self.project.chapters = chapters;
        self.selected_chapter = Some(0);
        let ghost mid = *self;
        let effects = self.launch(0);
        proof {
            assert(launched(mid, *self, 0, effects@));
            assert forall|k: int| 1 <= k < plan@.len() implies (#[trigger] self.project.chapters@[k]).status is Pending by {
                assert(self.project.chapters@[k] == mid.project.chapters@[k]);
            }
        }
        effects
    }

    fn on_chapter_done(&mut self, num: usize, content: String) -> (effects: Vec<Effect>)
        ensures
            chapter_done_handled(*old(self), *final(self), num, content@, effects@),
    {
        let idx = if num == 0 {
            0
        } else {
            num - 1
        };
        let ghost text = content@;
        if idx < self.project.chapters.len() {
            self.project.chapters[idx].content = content;
            self.project.chapters[idx].update_word_count();
            self.project.chapters[idx].status = ChapterStatus::Done;
        }
        let paused = match self.gen_state {
            GenState::Paused(_) => true,
            _ => false,
        };
        if paused {
            return Vec::new();
        }
        let next = idx + 1;
        if next < self.project.chapters.len() {
            let ghost mid = *self;
            let effects = self.launch(next);
            proof {
                assert(launched(mid, *self, next as int, effects@));
            }
            effects
        } else {
            self.gen_state = GenState::Done;
            self.streaming = None;
            let mut effects = Vec::new();
            effects.push(Effect::AllDone(self.project.chapters.len()));
            effects.push(Effect::AutoSave);
            effects
        }
    }

    fn on_error(&mut self, e: String) -> (effects: Vec<Effect>)
        ensures
            error_handled(*old(self), *final(self), e@, effects@),
    {
        if let Some(i) = self.streaming {
            if i < self.project.chapters.len() {
                self.project.chapters[i].status = ChapterStatus::Error(e.clone());
            }
        }
        self.gen_state = GenState::Idle;
        self.streaming = None;
        let mut m = String::from_str("错误：");
        m.append(e.as_str());
        let mut effects = Vec::new();
        effects.push(Effect::Toast(ToastKind::Failure, m));
        effects
    }

    /// Applies a report of the writer to the session and returns what the
    /// application has to do next.
    pub fn handle_msg(&mut self, msg: WorkerMsg) -> (effects: Vec<Effect>)
        ensures
            msg_handled(*old(self), *final(self), msg, effects@),
    {
        match msg {
            WorkerMsg::Chunk(t) => self.on_chunk(t),
            WorkerMsg::OutlineDone(t) => self.on_outline(t),
            WorkerMsg::PlanDone(plan) => self.on_plan(plan),
            WorkerMsg::ChapterDone(num, content) => self.on_chapter_done(num, content),
            WorkerMsg::Error(e) => self.on_error(e),
        }
    }
}

/// Whether `new` and `effects` are what a report `msg` of the writer makes of `old`.
pub open spec fn msg_handled(old: Session, new: Session, msg: WorkerMsg, effects: Seq<Effect>) -> bool {
    match msg {
        WorkerMsg::Chunk(t) => chunk_handled(old, new, t@, effects),
        WorkerMsg::OutlineDone(t) => {
            &&& new.project.optimized_outline@ == t@
            &&& same_settings(new.project, old.project)
            &&& new.project.chapters@ == old.project.chapters@
            &&& new.gen_state == GenState::Idle
            &&& new.streaming == old.streaming
            &&& new.selected_chapter == old.selected_chapter
            &&& new.dirty == old.dirty
            &&& effects.len() == 1
            &&& effects[0] matches Effect::Toast(k, m) && k == ToastKind::Success && m@ == "大纲优化完成 ✓"@
        },
        WorkerMsg::PlanDone(plan) => plan_handled(old, new, plan@, effects),
        WorkerMsg::ChapterDone(num, text) => chapter_done_handled(old, new, num, text@, effects),
        WorkerMsg::Error(e) => error_handled(old, new, e@, effects),
    }
}

/// Whether chapter `c` still needs writing: not finished, or finished with
/// fewer than `threshold` words.
pub open spec fn needs_writing(c: Chapter, threshold: nat) -> bool {
    !(c.status is Done) || (c.word_count as nat) < threshold
}

/// The first chapter at or after `from` that still needs writing.
pub open spec fn first_unfinished_from(cs: Seq<Chapter>, threshold: nat, from: nat) -> Option<nat>
    decreases cs.len() - from,
{
    if from >= cs.len() {
        None
    } else if needs_writing(cs[from as int], threshold) {
        Some(from)
    } else {
        first_unfinished_from(cs, threshold, from + 1)
    }
}

/// The first chapter that still needs writing.
pub open spec fn first_unfinished(cs: Seq<Chapter>, threshold: nat) -> Option<nat> {
    first_unfinished_from(cs, threshold, 0)
}

proof fn lemma_first_unfinished_bound(cs: Seq<Chapter>, threshold: nat, from: nat)
    ensures
        first_unfinished_from(cs, threshold, from) matches Some(k) ==> from <= k < cs.len()
            && needs_writing(cs[k as int], threshold),
    decreases cs.len() - from,
{
    if from < cs.len() && !needs_writing(cs[from as int], threshold) {
        lemma_first_unfinished_bound(cs, threshold, from + 1);
    }
}

/// The index of the first chapter that still needs writing.
pub fn next_unfinished(chapters: &Vec<Chapter>, threshold: usize) -> (r: Option<usize>)
    ensures
        match r {
            Some(k) => first_unfinished(chapters@, threshold as nat) == Some(k as nat),
            None => first_unfinished(chapters@, threshold as nat) is None,
        },
{
    let mut k: usize = 0;
    while k < chapters.len()
        invariant
            k <= chapters.len(),
            first_unfinished(chapters@, threshold as nat) == first_unfinished_from(
                chapters@,
                threshold as nat,
                k as nat,
            ),
        decreases chapters.len() - k,
    {
        if !chapters[k].status.is_done() || chapters[k].word_count < threshold {
            return Some(k);
        }
        k += 1;
    }
    None
}

/// The notice shown when resuming at chapter `idx`.
pub open spec fn resume_notice(c: Chapter, idx: nat, threshold: nat) -> Seq<char> {
    if c.status is Done && (c.word_count as nat) < threshold {
        "第 "@ + decimal(idx + 1) + " 章字数偏少，重新生成…"@
    } else {
        "从第 "@ + decimal(idx + 1) + " 章续写…"@
    }
}

/// The outline a new generation starts from: the optimized one if any.
pub open spec fn working_outline(p: NovelProject) -> Seq<char> {
    if p.optimized_outline@.len() == 0 {
        p.outline@
    } else {
        p.optimized_outline@
    }
}

/// Whether `e` is a notification of kind `k` saying `m`.
pub open spec fn is_toast(e: Effect, k: ToastKind, m: Seq<char>) -> bool {
    e matches Effect::Toast(k2, m2) && k2 == k && m2@ == m
}

/// What starting (or resuming) the generation makes of `old`, given the word
/// count below which a finished chapter counts as unfinished.
pub open spec fn generation_begun(old: Session, new: Session, threshold: nat, effects: Seq<Effect>) -> bool {
    let p = old.project;
    if trim(p.title@).len() == 0 {
        new == old && effects.len() == 1 && is_toast(effects[0], ToastKind::Failure, "请填写小说标题"@)
    } else if trim(working_outline(p)).len() == 0 {
        new == old && effects.len() == 1 && is_toast(effects[0], ToastKind::Failure, "请先填写故事大纲"@)
    } else if p.chapters@.len() > 0 {
        match first_unfinished(p.chapters@, threshold) {
            Some(idx) => {
                &&& launched(old, new, idx as int, effects.skip(2))
                &&& effects.len() == 4
                &&& effects[0] is ResetStop
                &&& is_toast(effects[1], ToastKind::Info, resume_notice(p.chapters@[idx as int], idx, threshold))
            },
            None => new == old && effects.len() == 1 && is_toast(
                effects[0],
                ToastKind::Info,
                "全部章节已生成完成"@,
            ),
        }
    } else {
        &&& new.project == old.project
        &&& new.gen_state == GenState::GeneratingPlan
        &&& new.selected_chapter is None
        &&& new.streaming == old.streaming
        &&& new.dirty == old.dirty
        &&& effects.len() == 3
        &&& effects[0] is ResetStop
        &&& effects[1] matches Effect::Send(WorkerCmd::GeneratePlan { title, outline, count, template_name })
            && title@ == p.title@ && outline@ == truncated(working_outline(p), 1500) && count
            == p.target_chapters && template_name@ == p.template@
        &&& is_toast(effects[2], ToastKind::Info, "正在规划章节…"@)
    }
}

fn toast(kind: ToastKind, text: &str) -> (e: Effect)
    ensures
        is_toast(e, kind, text@),
{
    Effect::Toast(kind, String::from_str(text))
}

fn is_blank(s: &String) -> (r: bool)
    ensures
        r == (trim(s@).len() == 0),
{
    trim_chars(&chars_of(s.as_str())).len() == 0
}

impl Session {
    /// Starts the generation: plans the chapters of a new novel, or resumes
    /// at the first chapter that is unfinished or has fewer than `threshold`
    /// words. A missing title or outline is reported instead.
    pub fn begin_gen(&mut self, threshold: usize) -> (effects: Vec<Effect>)
        ensures
            generation_begun(*old(self), *final(self), threshold as nat, effects@),
    {
        let mut effects: Vec<Effect> = Vec::new();
        if is_blank(&self.project.title) {
            effects.push(toast(ToastKind::Failure, "请填写小说标题"));
            return effects;
        }
        let outline = if self.project.optimized_outline.as_str().unicode_len() == 0 {
            self.project.outline.clone()
        } else {
            self.project.optimized_outline.clone()
        };
        if is_blank(&outline) {
            effects.push(toast(ToastKind::Failure, "请先填写故事大纲"));
            return effects;
        }
        if self.project.chapters.len() > 0 {
            match next_unfinished(&self.project.chapters, threshold) {
                Some(idx) => {
                    proof {
                        lemma_first_unfinished_bound(self.project.chapters@, threshold as nat, 0);
                    }
                    effects.push(Effect::ResetStop);
                    let mut m: String;
                    if self.project.chapters[idx].status.is_done() && self.project.chapters[idx].word_count
                        < threshold {
                        m = String::from_str("第 ");
                        append_string(&mut m, &decimal_string(idx + 1));
                        m.append(" 章字数偏少，重新生成…");
                    } else {
                        m = String::from_str("从第 ");
                        append_string(&mut m, &decimal_string(idx + 1));
                        m.append(" 章续写…");
                    }
                    effects.push(Effect::Toast(ToastKind::Info, m));
                    let mut more = self.launch(idx);
                    let ghost e2 = effects@;
                    let ghost m2 = more@;
                    effects.append(&mut more);
                    proof {
                        assert(effects@ =~= e2 + m2);
                        assert(effects@.skip(2) =~= m2);
                    }
                },
                None => {
                    effects.push(toast(ToastKind::Info, "全部章节已生成完成"));
                },
            }
            return effects;
        }
        self.gen_state = GenState::GeneratingPlan;
        self.selected_chapter = None;
        effects.push(Effect::ResetStop);
        effects.push(
            Effect::Send(
                WorkerCmd::GeneratePlan {
                    title: self.project.title.clone(),
                    outline: truncate_chars(outline.as_str(), 1500),
                    count: self.project.target_chapters,
                    template_name: self.project.template.clone(),
                },
            ),
        );
        effects.push(toast(ToastKind::Info, "正在规划章节…"));
        effects
    }
}

impl Session {
    /// A session around `project`, idle, with nothing selected and no
    /// unsaved changes.
    pub fn new(project: NovelProject) -> (r: Self)
        ensures
            r.project == project,
            r.gen_state == GenState::Idle,
            r.streaming is None,
            r.selected_chapter is None,
            !r.dirty,
    {
        Session { project, gen_state: GenState::Idle, streaming: None, selected_chapter: None, dirty: false }
    }

    /// Stops the generation: the chapter being written goes back to pending.
    pub fn stop(&mut self) -> (effects: Vec<Effect>)
        ensures
            same_but_chapters(final(self).project, old(self).project),
            final(self).gen_state == GenState::Idle,
            final(self).streaming is None,
            final(self).selected_chapter == old(self).selected_chapter,
            final(self).dirty == old(self).dirty,
            match old(self).streaming {
                Some(i) if (i as int) < old(self).project.chapters@.len() && old(
                    self,
                ).project.chapters@[i as int].status is Generating => {
                    &&& chapters_same_except(old(self).project.chapters@, final(self).project.chapters@, i as int)
                    &&& final(self).project.chapters@[i as int].status is Pending
                    &&& final(self).project.chapters@[i as int].number == old(self).project.chapters@[i as int].number
                    &&& final(self).project.chapters@[i as int].title == old(self).project.chapters@[i as int].title
                    &&& final(self).project.chapters@[i as int].brief == old(self).project.chapters@[i as int].brief
                    &&& final(self).project.chapters@[i as int].content == old(self).project.chapters@[i as int].content
                    &&& final(self).project.chapters@[i as int].word_count == old(self).project.chapters@[i as int].word_count
                },
                _ => final(self).project.chapters@ == old(self).project.chapters@,
            },
            effects@.len() == 2,
            effects@[0] is StopWorker,
            is_toast(effects@[1], ToastKind::Info, "已停止"@),
    {
        let mut effects = Vec::new();
        effects.push(Effect::StopWorker);
        self.gen_state = GenState::Idle;
        if let Some(i) = self.streaming {
            if i < self.project.chapters.len() && self.project.chapters[i].status.is_generating() {
                self.project.chapters[i].status = ChapterStatus::Pending;
            }
        }
        self.streaming = None;
        effects.push(toast(ToastKind::Info, "已停止"));
        effects
    }

    /// Pauses while a chapter is being written, remembering where to resume;
    /// does nothing in any other state.
    pub fn pause(&mut self) -> (effects: Vec<Effect>)
        ensures
            match old(self).gen_state {
                GenState::GeneratingChapter(n) => {
                    &&& final(self).gen_state == GenState::Paused(if n == 0 {
                        0usize
                    } else {
                        (n - 1) as usize
                    })
                    &&& effects@.len() == 1
                    &&& effects@[0] is StopWorker
                },
                _ => final(self).gen_state == old(self).gen_state && effects@.len() == 0,
            },
            final(self).project == old(self).project,
            final(self).streaming == old(self).streaming,
            final(self).selected_chapter == old(self).selected_chapter,
            final(self).dirty == old(self).dirty,
    {
        let mut effects = Vec::new();
        if let GenState::GeneratingChapter(n) = self.gen_state {
            effects.push(Effect::StopWorker);
            self.gen_state = GenState::Paused(if n == 0 {
                0
            } else {
                n - 1
            });
        }
        effects
    }

    /// Resumes a paused generation at the remembered chapter; does nothing
    /// when not paused.
    pub fn resume(&mut self) -> (effects: Vec<Effect>)
        ensures
            match old(self).gen_state {
                GenState::Paused(n) => if (n as int) < old(self).project.chapters@.len() {
                    launched(*old(self), *final(self), n as int, effects@)
                } else {
                    &&& final(self).gen_state == GenState::Idle
                    &&& final(self).project == old(self).project
                    &&& final(self).streaming == old(self).streaming
                    &&& final(self).selected_chapter == old(self).selected_chapter
                    &&& final(self).dirty == old(self).dirty
                    &&& effects@.len() == 0
                },
                _ => *final(self) == *old(self) && effects@.len() == 0,
            },
    {
        if let GenState::Paused(n) = self.gen_state {
            self.gen_state = GenState::Idle;
            self.launch(n)
        } else {
            Vec::new()
        }
    }

    /// Asks the writer to improve the outline, unless the outline is blank.
    pub fn optimize_outline(&mut self) -> (effects: Vec<Effect>)
        ensures
            final(self).project == old(self).project,
            final(self).streaming == old(self).streaming,
            final(self).selected_chapter == old(self).selected_chapter,
            final(self).dirty == old(self).dirty,
            if trim(old(self).project.outline@).len() == 0 {
                &&& final(self).gen_state == old(self).gen_state
                &&& effects@.len() == 1
                &&& is_toast(effects@[0], ToastKind::Failure, "请先填写大纲"@)
            } else {
                &&& final(self).gen_state == GenState::OptimizingOutline
                &&& effects@.len() == 3
                &&& effects@[0] is ResetStop
                &&& effects@[1] matches Effect::Send(WorkerCmd::OptimizeOutline { outline, template_name })
                    && outline@ == old(self).project.outline@ && template_name@ == old(self).project.template@
                &&& is_toast(effects@[2], ToastKind::Info, "AI 正在优化大纲…"@)
            },
    {
        let mut effects = Vec::new();
        if is_blank(&self.project.outline) {
            effects.push(toast(ToastKind::Failure, "请先填写大纲"));
            return effects;
        }
        self.gen_state = GenState::OptimizingOutline;
        effects.push(Effect::ResetStop);
        effects.push(
            Effect::Send(
                WorkerCmd::OptimizeOutline {
                    outline: self.project.outline.clone(),
                    template_name: self.project.template.clone(),
                },
            ),
        );
        effects.push(toast(ToastKind::Info, "AI 正在优化大纲…"));
        effects
    }

    /// The selected chapter, if it exists.
    pub fn safe_idx(&self) -> (r: Option<usize>)
        ensures
            r == match self.selected_chapter {
                Some(i) => if (i as int) < self.project.chapters@.len() {
                    Some(i)
                } else {
                    None
                },
                None => None,
            },
    {
        match self.selected_chapter {
            Some(i) => if i < self.project.chapters.len() {
                Some(i)
            } else {
                None
            },
            None => None,
        }
    }

    /// Moves a selection past the end of the chapter list to the last chapter
    /// (or to nothing when there are no chapters).
    pub fn clamp_selection(&mut self)
        ensures
            final(self).project == old(self).project,
            final(self).gen_state == old(self).gen_state,
            final(self).streaming == old(self).streaming,
            final(self).dirty == old(self).dirty,
            final(self).selected_chapter == match old(self).selected_chapter {
                Some(i) => if (i as int) < old(self).project.chapters@.len() {
                    Some(i)
                } else if old(self).project.chapters@.len() == 0 {
                    None
                } else {
                    Some((old(self).project.chapters@.len() - 1) as usize)
                },
                None => None,
            },
    {
        if let Some(i) = self.selected_chapter {
            let n = self.project.chapters.len();
            if i >= n {
                self.selected_chapter = if n == 0 {
                    None
                } else {
                    Some(n - 1)
                };
            }
        }
    }

    /// Takes an opened project: chapters interrupted while being written are
    /// emptied and made pending, all word counts are redone, the first
    /// chapter is selected, and there are no unsaved changes.
    pub fn open_project(&mut self, project: NovelProject)
        ensures
            same_but_chapters(final(self).project, project),
            final(self).project.chapters@.len() == project.chapters@.len(),
            forall|k: int|
                0 <= k < project.chapters@.len() ==> reopened(
                    project.chapters@[k],
                    #[trigger] final(self).project.chapters@[k],
                ),
            final(self).gen_state == GenState::Idle,
            final(self).streaming == old(self).streaming,
            !final(self).dirty,
            final(self).selected_chapter == if project.chapters@.len() > 0 {
                Some(0usize)
            } else {
                None
            },
    {
        let mut project = project;
        project.reset_interrupted_chapters();
        let n = project.chapters.len();
        self.project = project;
        self.gen_state = GenState::Idle;
        self.dirty = false;
        self.selected_chapter = if n > 0 {
            Some(0)
        } else {
            None
        };
    }

    /// Replaces the project with the one built in the new-novel wizard.
    pub fn finish_wizard(&mut self, project: &NovelProject)
        ensures
            same_but_chapters(final(self).project, *project),
            final(self).project.chapters@ == project.chapters@,
            final(self).gen_state == GenState::Idle,
            final(self).streaming == old(self).streaming,
            final(self).selected_chapter is None,
            final(self).dirty,
    {
        self.project = project.clone();
        self.selected_chapter = None;
        self.gen_state = GenState::Idle;
        self.dirty = true;
    }
}

/// Chapter `c` as it is after reopening the project it was saved in.
pub open spec fn reopened(c: Chapter, d: Chapter) -> bool {
    &&& d.number == c.number
    &&& d.title == c.title
    &&& d.brief == c.brief
    &&& if c.status is Generating {
        d.status is Pending && d.content@ == Seq::<char>::empty()
    } else {
        d.status == c.status && d.content == c.content
    }
    &&& d.word_count == crate::text::count_non_ws(d.content@)
}

impl NovelProject {
    /// Prepares a project read from disk: chapters interrupted while being
    /// written are emptied and made pending, and every word count is redone.
    pub fn reset_interrupted_chapters(&mut self)
        ensures
            same_but_chapters(*final(self), *old(self)),
            final(self).chapters@.len() == old(self).chapters@.len(),
            forall|k: int|
                0 <= k < old(self).chapters@.len() ==> reopened(
                    old(self).chapters@[k],
                    #[trigger] final(self).chapters@[k],
                ),
    {
        let ghost before = self.chapters@;
        let mut k: usize = 0;
        while k < self.chapters.len()
            invariant
                k <= self.chapters.len() == before.len(),
                same_but_chapters(*self, *old(self)),
                before == old(self).chapters@,
                forall|j: int| 0 <= j < k ==> reopened(before[j], #[trigger] self.chapters@[j]),
                forall|j: int| k <= j < before.len() ==> #[trigger] self.chapters@[j] == before[j],
            decreases before.len() - k,
        {
            if self.chapters[k].status.is_generating() {
                self.chapters[k].content = String::new();
                self.chapters[k].status = ChapterStatus::Pending;
            }
            self.chapters[k].update_word_count();
            k += 1;
        }
    }
}

} // verus!
