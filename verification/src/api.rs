use crate::plan::{chapter_plan, parse_chapter_plan, plan_readable};
use crate::text::{
    chars_of, decimal, decimal_string, replace_all, replace_str, slice_chars,
    starts_with, string_of, trim, trim_chars,
};
use vstd::prelude::*;

verus! {

/// A request to the background writer.
#[derive(Debug)]
pub enum WorkerCmd {
    OptimizeOutline { outline: String, template_name: String },
    GeneratePlan { title: String, outline: String, count: usize, template_name: String },
    GenerateChapter {
        num: usize,
        chapter_title: String,
        brief: String,
        novel_title: String,
        outline: String,
        context: String,
        template_name: String,
        words: usize,
        /// The formatted realm systems (empty: none).
        realm_info: String,
        reduce_ai_traits: bool,
        avoid_famous_names: bool,
    },
    Stop,
}

/// A report from the background writer.
#[derive(Debug)]
pub enum WorkerMsg {
    Chunk(String),
    OutlineDone(String),
    PlanDone(Vec<(String, String)>),
    ChapterDone(usize, String),
    Error(String),
}

/// The prompts of a genre template.
#[derive(Debug)]
pub struct PromptTemplate {
    pub name: String,
    pub system_prompt: String,
    /// Holds `{outline}`.
    pub outline_optimize_prompt: String,
    /// Holds `{title}`, `{count}` and `{outline}`.
    pub plan_prompt: String,
    /// Holds `{title}`, `{num}`, `{chapter_title}`, `{brief}`, `{context}`,
    /// `{outline}` and `{words}`.
    pub chapter_prompt: String,
}

/// What the writer does for a command.
#[derive(Debug)]
pub enum WorkerStep {
    /// Raise the stop flag.
    Stop,
    /// Ask the model, with a system and a user message.
    Chat { system: String, user: String },
}

/// The system prompt used without a template.
pub open spec fn default_system() -> Seq<char> {
    "你是专业小说作家。"@
}

/// The plan prompt used without a template.
pub open spec fn default_plan_prompt() -> Seq<char> {
    "请为小说《{title}》生成{count}章的章节规划，格式：第X章 章节标题\\n本章要点（30字内）\n大纲：{outline}"@
}

/// The chapter prompt used without a template.
pub open spec fn default_chapter_prompt() -> Seq<char> {
    "请创作小说《{title}》第{num}章 {chapter_title}，本章要点：{brief}，前情：{context}，大纲：{outline}，约{words}字。"@
}

/// The extra request against typical machine-written prose.
pub open spec fn reduce_ai_note() -> Seq<char> {
    "\n\n额外要求：避免明显的 AI 写作特征——少用排比铺陈、固定句式开头、过度比喻；多用具体细节代替形容词；对话符合人物身份不要书面化。"@
}

/// The extra request against protagonist names of well-known novels.
pub open spec fn famous_names_note() -> Seq<char> {
    "\n\n禁用以下主角名（防止与知名小说雷同）：陈平安、韩立、王林、楚天南、萧炎、唐三、洛天、罗峰、林动、叶凡、石昊、孟浩、王腾、李慕白、徐凤年、宁缺、傅红雪。请使用原创姓名。"@
}

/// The (system, user) messages for optimizing an outline.
pub open spec fn outline_messages(outline: Seq<char>, tmpl: Option<PromptTemplate>) -> (Seq<char>, Seq<char>) {
    match tmpl {
        Some(t) => (t.system_prompt@, replace_all(t.outline_optimize_prompt@, "{outline}"@, outline)),
        None => (default_system(), "请优化以下小说大纲，使其更加丰富完善：\n"@ + outline),
    }
}

/// The (system, user) messages for planning `count` chapters.
pub open spec fn plan_messages(title: Seq<char>, outline: Seq<char>, count: nat, tmpl: Option<PromptTemplate>) -> (Seq<char>, Seq<char>) {
    let (system, prompt) = match tmpl {
        Some(t) => (t.system_prompt@, t.plan_prompt@),
        None => (default_system(), default_plan_prompt()),
    };
    (
        system,
        replace_all(
            replace_all(replace_all(prompt, "{title}"@, title), "{count}"@, decimal(count)),
            "{outline}"@,
            outline,
        ),
    )
}

/// The user prompt for one chapter, before the optional extra requests.
pub open spec fn chapter_base_prompt(
    prompt: Seq<char>,
    novel_title: Seq<char>,
    num: nat,
    chapter_title: Seq<char>,
    brief: Seq<char>,
    context: Seq<char>,
    full_outline: Seq<char>,
    words: nat,
) -> Seq<char> {
    replace_all(
        replace_all(
            replace_all(
                replace_all(
                    replace_all(
                        replace_all(replace_all(prompt, "{title}"@, novel_title), "{num}"@, decimal(num)),
                        "{chapter_title}"@,
                        chapter_title,
                    ),
                    "{brief}"@,
                    brief,
                ),
                "{context}"@,
                context,
            ),
            "{outline}"@,
            full_outline,
        ),
        "{words}"@,
        decimal(words),
    )
}

/// The (system, user) messages for writing one chapter.
pub open spec fn chapter_messages(
    num: nat,
    chapter_title: Seq<char>,
    brief: Seq<char>,
    novel_title: Seq<char>,
    outline: Seq<char>,
    context: Seq<char>,
    words: nat,
    realm_info: Seq<char>,
    reduce_ai_traits: bool,
    avoid_famous_names: bool,
    tmpl: Option<PromptTemplate>,
) -> (Seq<char>, Seq<char>) {
    let (system, prompt) = match tmpl {
        Some(t) => (t.system_prompt@, t.chapter_prompt@),
        None => (default_system(), default_chapter_prompt()),
    };
    let base = chapter_base_prompt(
        prompt,
        novel_title,
        num,
        chapter_title,
        brief,
        context,
        outline + realm_info,
        words,
    );
    (
        system,
        base + (if reduce_ai_traits {
            reduce_ai_note()
        } else {
            Seq::empty()
        }) + (if avoid_famous_names {
            famous_names_note()
        } else {
            Seq::empty()
        }),
    )
}

/// What the writer does for `cmd`, given the template named in it.
pub open spec fn step_for(cmd: WorkerCmd, tmpl: Option<PromptTemplate>) -> Option<(Seq<char>, Seq<char>)> {
    match cmd {
        WorkerCmd::Stop => None,
        WorkerCmd::OptimizeOutline { outline, .. } => Some(outline_messages(outline@, tmpl)),
        WorkerCmd::GeneratePlan { title, outline, count, .. } => Some(
            plan_messages(title@, outline@, count as nat, tmpl),
        ),
        WorkerCmd::GenerateChapter {
            num,
            chapter_title,
            brief,
            novel_title,
            outline,
            context,
            words,
            realm_info,
            reduce_ai_traits,
            avoid_famous_names,
            ..
        } => Some(
            chapter_messages(
                num as nat,
                chapter_title@,
                brief@,
                novel_title@,
                outline@,
                context@,
                words as nat,
                realm_info@,
                reduce_ai_traits,
                avoid_famous_names,
                tmpl,
            ),
        ),
    }
}

/// Whether `step` is what the writer does for `cmd` with template `tmpl`.
pub open spec fn step_matches(step: WorkerStep, cmd: WorkerCmd, tmpl: Option<PromptTemplate>) -> bool {
    match (step, step_for(cmd, tmpl)) {
        (WorkerStep::Stop, None) => true,
        (WorkerStep::Chat { system, user }, Some(m)) => system@ == m.0 && user@ == m.1,
        _ => false,
    }
}

fn system_of(tmpl: Option<&PromptTemplate>) -> (r: String)
    ensures
        r@ == (match tmpl {
            Some(t) => t.system_prompt@,
            None => default_system(),
        }),
{
    match tmpl {
        Some(t) => t.system_prompt.clone(),
        None => String::from_str("你是专业小说作家。"),
    }
}

fn fill(s: &String, pat: &str, rep: &str) -> (r: String)
    requires
        pat@.len() > 0,
    ensures
        r@ == replace_all(s@, pat@, rep@),
{
    replace_str(s.as_str(), pat, rep)
}

/// Decides what the writer does for a command: raise the stop flag, or send
/// the model the system prompt and the filled-in user prompt.
pub fn worker_step(cmd: &WorkerCmd, tmpl: Option<&PromptTemplate>) -> (r: WorkerStep)
    ensures
        step_matches(r, *cmd, match tmpl {
            Some(t) => Some(*t),
            None => None,
        }),
{
    proof {
        reveal_strlit("{outline}");
        reveal_strlit("{title}");
        reveal_strlit("{count}");
        reveal_strlit("{num}");
        reveal_strlit("{chapter_title}");
        reveal_strlit("{brief}");
        reveal_strlit("{context}");
        reveal_strlit("{words}");
    }
    match cmd {
        WorkerCmd::Stop => WorkerStep::Stop,
        WorkerCmd::OptimizeOutline { outline, .. } => {
            let system = system_of(tmpl);
            let user = match tmpl {
                Some(t) => fill(&t.outline_optimize_prompt, "{outline}", outline.as_str()),
                None => {
                    let mut u = String::from_str("请优化以下小说大纲，使其更加丰富完善：\n");
                    u.append(outline.as_str());
                    u
                },
            };
            WorkerStep::Chat { system, user }
        },
        WorkerCmd::GeneratePlan { title, outline, count, .. } => {
            let system = system_of(tmpl);
            let prompt = match tmpl {
                Some(t) => t.plan_prompt.clone(),
                None => String::from_str(
                    "请为小说《{title}》生成{count}章的章节规划，格式：第X章 章节标题\\n本章要点（30字内）\n大纲：{outline}",
                ),
            };
            let p1 = fill(&prompt, "{title}", title.as_str());
            let n = decimal_string(*count);
            let p2 = fill(&p1, "{count}", n.as_str());
            let user = fill(&p2, "{outline}", outline.as_str());
            WorkerStep::Chat { system, user }
        },
        WorkerCmd::GenerateChapter {
            num,
            chapter_title,
            brief,
            novel_title,
            outline,
            context,
            words,
            realm_info,
            reduce_ai_traits,
            avoid_famous_names,
            ..
        } => {
            let system = system_of(tmpl);
            let prompt = match tmpl {
                Some(t) => t.chapter_prompt.clone(),
                None => String::from_str(
                    "请创作小说《{title}》第{num}章 {chapter_title}，本章要点：{brief}，前情：{context}，大纲：{outline}，约{words}字。",
                ),
            };
            let mut full_outline = outline.clone();
            full_outline.append(realm_info.as_str());
            let p1 = fill(&prompt, "{title}", novel_title.as_str());
            let n = decimal_string(*num);
            let p2 = fill(&p1, "{num}", n.as_str());
            let p3 = fill(&p2, "{chapter_title}", chapter_title.as_str());
            let p4 = fill(&p3, "{brief}", brief.as_str());
            let p5 = fill(&p4, "{context}", context.as_str());
            let p6 = fill(&p5, "{outline}", full_outline.as_str());
            let w = decimal_string(*words);
            let mut user = fill(&p6, "{words}", w.as_str());
            let ghost base = user@;
            if *reduce_ai_traits {
                user.append(
                    "\n\n额外要求：避免明显的 AI 写作特征——少用排比铺陈、固定句式开头、过度比喻；多用具体细节代替形容词；对话符合人物身份不要书面化。",
                );
            }
            let ghost mid = user@;
            if *avoid_famous_names {
                user.append(
                    "\n\n禁用以下主角名（防止与知名小说雷同）：陈平安、韩立、王林、楚天南、萧炎、唐三、洛天、罗峰、林动、叶凡、石昊、孟浩、王腾、李慕白、徐凤年、宁缺、傅红雪。请使用原创姓名。",
                );
            }
            proof {
                let tm = match tmpl {
                    Some(t) => Some(*t),
                    None => None,
                };
                assert(mid =~= base + (if *reduce_ai_traits {
                    reduce_ai_note()
                } else {
                    Seq::empty()
                }));
                assert(user@ =~= base + (if *reduce_ai_traits {
                    reduce_ai_note()
                } else {
                    Seq::empty()
                }) + (if *avoid_famous_names {
                    famous_names_note()
                } else {
                    Seq::empty()
                }));
            }
            WorkerStep::Chat { system, user }
        },
    }
}

/// Whether `v` holds exactly the entries of the chapter plan `es`.
pub open spec fn plan_matches(v: Seq<(String, String)>, es: Seq<(Seq<char>, Seq<char>)>) -> bool {
    &&& v.len() == es.len()
    &&& forall|k: int| 0 <= k < v.len() ==> (#[trigger] v[k]).0@ == es[k].0 && v[k].1@ == es[k].1
}

/// Whether `msg` is the writer's report for `cmd` once the model answered
/// `outcome` (the full reply, or an error message).
pub open spec fn reply_matches(msg: Option<WorkerMsg>, cmd: WorkerCmd, outcome: Result<String, String>) -> bool {
    match cmd {
        WorkerCmd::Stop => msg is None,
        WorkerCmd::OptimizeOutline { .. } => match (outcome, msg) {
            (Ok(full), Some(WorkerMsg::OutlineDone(t))) => t@ == full@,
            (Err(e), Some(WorkerMsg::Error(t))) => t@ == e@,
            _ => false,
        },
        WorkerCmd::GeneratePlan { count, .. } => match (outcome, msg) {
            (Ok(full), Some(WorkerMsg::PlanDone(v))) => plan_matches(v@, chapter_plan(full@, count as nat)),
            (Err(e), Some(WorkerMsg::Error(t))) => t@ == e@,
            _ => false,
        },
        WorkerCmd::GenerateChapter { num, .. } => match (outcome, msg) {
            (Ok(full), Some(WorkerMsg::ChapterDone(n, t))) => n == num && t@ == full@,
            (Err(e), Some(WorkerMsg::Error(t))) => t@ == e@,
            _ => false,
        },
    }
}

/// Whether the answer `outcome` to `cmd` can be turned into a report: a
/// chapter plan must be readable (see `plan_readable`).
pub open spec fn reply_readable(cmd: WorkerCmd, outcome: Result<String, String>) -> bool {
    match (cmd, outcome) {
        (WorkerCmd::GeneratePlan { .. }, Ok(full)) => plan_readable(full@),
        _ => true,
    }
}

/// The report the writer sends once the model answered a command: the
/// optimized outline, the parsed chapter plan, the chapter text, or the error.
pub fn worker_reply(cmd: &WorkerCmd, outcome: Result<String, String>) -> (r: Option<WorkerMsg>)
    requires
        reply_readable(*cmd, outcome),
    ensures
        reply_matches(r, *cmd, outcome),
{
    match cmd {
        WorkerCmd::Stop => None,
        WorkerCmd::OptimizeOutline { .. } => match outcome {
            Ok(full) => Some(WorkerMsg::OutlineDone(full)),
            Err(e) => Some(WorkerMsg::Error(e)),
        },
        WorkerCmd::GeneratePlan { count, .. } => match outcome {
            Ok(full) => Some(WorkerMsg::PlanDone(parse_chapter_plan(full.as_str(), *count))),
            Err(e) => Some(WorkerMsg::Error(e)),
        },
        WorkerCmd::GenerateChapter { num, .. } => match outcome {
            Ok(full) => Some(WorkerMsg::ChapterDone(*num, full)),
            Err(e) => Some(WorkerMsg::Error(e)),
        },
    }
}

// ---------------------------------------------------------------------------
// The streamed reply
// ---------------------------------------------------------------------------

/// The text that `serde_json` finds at `choices[0].delta.content` in the
/// JSON document `data`, when `data` parses and that value is a string.
pub uninterp spec fn delta_content(data: Seq<char>) -> Option<Seq<char>>;

/// Parses `data` with `serde_json::from_str` into a `serde_json::Value` and
/// reads `choices[0].delta.content` with `Value::as_str`. The result is
/// stated only through the name `delta_content`.
#[verifier::external_body]
fn json_delta_content(data: &str) -> (r: Option<String>)
    ensures
        match r {
            Some(s) => delta_content(data@) == Some(s@),
            None => delta_content(data@) is None,
        },
{
    match serde_json::from_str::<serde_json::Value>(data) {
        Ok(json) => json["choices"][0]["delta"]["content"].as_str().map(|s| s.to_string()),
        Err(_) => None,
    }
}

/// What one line of a streamed (server-sent events) reply means.
#[derive(Debug)]
pub enum StreamLine {
    /// Nothing to use.
    Skip,
    /// The end of the stream.
    Done,
    /// A piece of the reply text.
    Content(String),
}

/// The payload of a `data: ` line, trimmed.
pub open spec fn event_data(line: Seq<char>) -> Seq<char> {
    trim(line.skip(6))
}

/// What a line of the stream means: lines without the `data: ` prefix are
/// skipped, `[DONE]` ends the stream, and a JSON chunk carrying nonempty
/// delta text is a piece of the reply.
pub open spec fn stream_line_meaning(line: Seq<char>) -> Option<Option<Seq<char>>> {
    if !starts_with(line, "data: "@) {
        Some(None)
    } else if event_data(line) == "[DONE]"@ {
        None
    } else {
        match delta_content(event_data(line)) {
            Some(c) => if c.len() > 0 {
                Some(Some(c))
            } else {
                Some(None)
            },
            None => Some(None),
        }
    }
}

/// Reads one line of a streamed reply.
pub fn stream_line(line: &str) -> (r: StreamLine)
    ensures
        match stream_line_meaning(line@) {
            None => r is Done,
            Some(None) => r is Skip,
            Some(Some(c)) => r matches StreamLine::Content(t) && t@ == c,
        },
{
    proof {
        reveal_strlit("data: ");
        reveal_strlit("[DONE]");
    }
    let v = chars_of(line);
    let prefix = chars_of("data: ");
    if !crate::text::occurs_at_exec(&v, &prefix, 0) {
        return StreamLine::Skip;
    }
    let data = trim_chars(&slice_chars(&v, 6, v.len()));
    proof {
        assert(v@.subrange(6, v@.len() as int) =~= line@.skip(6));
    }
    let done = chars_of("[DONE]");
    if crate::text::chars_equal(&data, &done) {
        return StreamLine::Done;
    }
    let d = string_of(&data);
    chunk_line(json_delta_content(d.as_str()))
}

/// What a parsed chunk of the stream contributes: its delta text, when there
/// is some and it is not empty.
pub fn chunk_line(content: Option<String>) -> (r: StreamLine)
    ensures
        match content {
            Some(c) => if c@.len() > 0 {
                r matches StreamLine::Content(t) && t@ == c@
            } else {
                r is Skip
            },
            None => r is Skip,
        },
{
    match content {
        Some(c) => {
            if c.as_str().unicode_len() > 0 {
                StreamLine::Content(c)
            } else {
                StreamLine::Skip
            }
        },
        None => StreamLine::Skip,
    }
}

/// What `serde_json::from_str` followed by reading
/// `choices[0].message.content` as a string makes of a (not streamed) reply
/// body: `None` when the body is not JSON, else the content if there is one.
pub uninterp spec fn message_content(body: Seq<char>) -> Option<Option<Seq<char>>>;

/// Parses `body` with `serde_json::from_str` into a `serde_json::Value` and
/// reads `choices[0].message.content` with `Value::as_str`; `None` when the
/// body does not parse. The result is stated only through the name
/// `message_content`.
#[verifier::external_body]
fn json_message_content(body: &str) -> (r: Option<Option<String>>)
    ensures
        match r {
            Some(Some(s)) => message_content(body@) == Some(Some(s@)),
            Some(None) => message_content(body@) == Some(None::<Seq<char>>),
            None => message_content(body@) is None,
        },
{
    match serde_json::from_str::<serde_json::Value>(body) {
        Ok(json) => Some(json["choices"][0]["message"]["content"].as_str().map(|s| s.to_string())),
        Err(_) => None,
    }
}

/// The message for a reply body that is not JSON (as the HTTP client words
/// a failed decoding of the body).
pub open spec fn undecodable_body_message() -> Seq<char> {
    "error decoding response body"@
}

/// The answer to a connection test from the parsed reply: the model's text,
/// a plain success note when the reply carries none, or a decoding error when
/// the body was not JSON.
pub fn connection_reply_from(content: Option<Option<String>>) -> (r: Result<String, String>)
    ensures
        match content {
            None => r matches Err(m) && m@ == undecodable_body_message(),
            Some(Some(c)) => r matches Ok(m) && m@ == c@,
            Some(None) => r matches Ok(m) && m@ == "连接成功"@,
        },
{
    match content {
        None => Err(String::from_str("error decoding response body")),
        Some(Some(c)) => Ok(c),
        Some(None) => Ok(String::from_str("连接成功")),
    }
}

/// The answer to a connection test, from the reply body.
pub fn connection_reply(body: &str) -> (r: Result<String, String>)
    ensures
        match message_content(body@) {
            None => r matches Err(m) && m@ == undecodable_body_message(),
            Some(Some(c)) => r matches Ok(m) && m@ == c,
            Some(None) => r matches Ok(m) && m@ == "连接成功"@,
        },
{
    connection_reply_from(json_message_content(body))
}

/// `s` without its trailing `/` characters (as `trim_end_matches('/')`).
pub open spec fn without_trailing_slashes(s: Seq<char>) -> Seq<char>
    decreases s.len(),
{
    if s.len() > 0 && s.last() == '/' {
        without_trailing_slashes(s.drop_last())
    } else {
        s
    }
}

/// The chat-completions endpoint under an API base URL.
pub fn chat_completions_url(base_url: &str) -> (r: String)
    ensures
        r@ == without_trailing_slashes(base_url@) + "/chat/completions"@,
{
    let v = chars_of(base_url);
    let mut j = v.len();
    proof {
        assert(v@.subrange(0, j as int) =~= v@);
    }
    while j > 0 && v[j - 1] == '/'
        invariant
            j <= v.len(),
            without_trailing_slashes(v@) == without_trailing_slashes(v@.subrange(0, j as int)),
        decreases j,
    {
        proof {
            assert(v@.subrange(0, j as int).drop_last() =~= v@.subrange(0, j - 1));
        }
        j -= 1;
    }
    let mut out = string_of(&slice_chars(&v, 0, j));
    out.append("/chat/completions");
    out
}

/// The `Authorization` header value for an API key: none for an empty key.
pub fn bearer_auth(api_key: &str) -> (r: Option<String>)
    ensures
        api_key@.len() == 0 ==> r is None,
        api_key@.len() > 0 ==> (r matches Some(h) && h@ == "Bearer "@ + api_key@),
{
    if api_key.unicode_len() == 0 {
        None
    } else {
        let mut h = String::from_str("Bearer ");
        h.append(api_key);
        Some(h)
    }
}

} // verus!
