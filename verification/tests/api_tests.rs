use novelai::api::{
    bearer_auth, chat_completions_url, chunk_line, connection_reply, connection_reply_from, stream_line, worker_reply, worker_step, PromptTemplate, StreamLine,
    WorkerCmd, WorkerMsg, WorkerStep,
};

fn chat(step: WorkerStep) -> (String, String) {
    match step {
        WorkerStep::Chat { system, user } => (system, user),
        WorkerStep::Stop => panic!("expected a chat step"),
    }
}

fn chapter_cmd(reduce: bool, avoid: bool) -> WorkerCmd {
    WorkerCmd::GenerateChapter {
        num: 2,
        chapter_title: "下山".to_string(),
        brief: "离开宗门".to_string(),
        novel_title: "问道".to_string(),
        outline: "大纲".to_string(),
        context: "前文".to_string(),
        template_name: "修仙问道".to_string(),
        words: 3000,
        realm_info: "【境界】".to_string(),
        reduce_ai_traits: reduce,
        avoid_famous_names: avoid,
    }
}

#[test]
fn stop_command_stops() {
    assert!(matches!(worker_step(&WorkerCmd::Stop, None), WorkerStep::Stop));
    assert!(worker_reply(&WorkerCmd::Stop, Ok("x".to_string())).is_none());
}

#[test]
fn outline_prompt_without_template() {
    let cmd = WorkerCmd::OptimizeOutline { outline: "少年修仙".to_string(), template_name: "无".to_string() };
    let (system, user) = chat(worker_step(&cmd, None));
    assert_eq!(system, "你是专业小说作家。");
    assert_eq!(user, "请优化以下小说大纲，使其更加丰富完善：\n少年修仙");
}

#[test]
fn outline_prompt_with_template() {
    let t = PromptTemplate {
        name: "修仙问道".to_string(),
        system_prompt: "你是仙侠作家".to_string(),
        outline_optimize_prompt: "优化：{outline}（{outline}）".to_string(),
        plan_prompt: "《{title}》{count}章：{outline}".to_string(),
        chapter_prompt: "{title}|{num}|{chapter_title}|{brief}|{context}|{outline}|{words}".to_string(),
    };
    let cmd = WorkerCmd::OptimizeOutline { outline: "纲".to_string(), template_name: "修仙问道".to_string() };
    assert_eq!(chat(worker_step(&cmd, Some(&t))), ("你是仙侠作家".to_string(), "优化：纲（纲）".to_string()));
    let plan = WorkerCmd::GeneratePlan {
        title: "问道".to_string(),
        outline: "纲".to_string(),
        count: 12,
        template_name: "修仙问道".to_string(),
    };
    assert_eq!(chat(worker_step(&plan, Some(&t))).1, "《问道》12章：纲");
    assert_eq!(chat(worker_step(&chapter_cmd(false, false), Some(&t))).1, "问道|2|下山|离开宗门|前文|大纲【境界】|3000");
}

#[test]
fn plan_prompt_without_template() {
    let cmd = WorkerCmd::GeneratePlan {
        title: "问道".to_string(),
        outline: "纲".to_string(),
        count: 20,
        template_name: String::new(),
    };
    let (_, user) = chat(worker_step(&cmd, None));
    assert_eq!(user, "请为小说《问道》生成20章的章节规划，格式：第X章 章节标题\\n本章要点（30字内）\n大纲：纲");
}

#[test]
fn chapter_prompt_with_extras() {
    let (_, plain) = chat(worker_step(&chapter_cmd(false, false), None));
    assert_eq!(plain, "请创作小说《问道》第2章 下山，本章要点：离开宗门，前情：前文，大纲：大纲【境界】，约3000字。");
    let (_, both) = chat(worker_step(&chapter_cmd(true, true), None));
    assert!(both.starts_with(&plain));
    assert!(both.contains("额外要求：避免明显的 AI 写作特征"));
    assert!(both.ends_with("请使用原创姓名。"));
    let reduce_at = both.find("额外要求").unwrap();
    let names_at = both.find("禁用以下主角名").unwrap();
    assert!(reduce_at < names_at);
}

#[test]
fn replies_become_reports() {
    let cmd = WorkerCmd::OptimizeOutline { outline: String::new(), template_name: String::new() };
    assert!(matches!(worker_reply(&cmd, Ok("新".to_string())), Some(WorkerMsg::OutlineDone(t)) if t == "新"));
    assert!(matches!(worker_reply(&cmd, Err("坏".to_string())), Some(WorkerMsg::Error(t)) if t == "坏"));
    assert!(matches!(worker_reply(&chapter_cmd(false, false), Ok("文".to_string())), Some(WorkerMsg::ChapterDone(2, t)) if t == "文"));
    let plan = WorkerCmd::GeneratePlan { title: String::new(), outline: String::new(), count: 2, template_name: String::new() };
    match worker_reply(&plan, Ok("第1章 甲\n第2章 乙".to_string())) {
        Some(WorkerMsg::PlanDone(v)) => assert_eq!(v, vec![("甲".to_string(), String::new()), ("乙".to_string(), String::new())]),
        other => panic!("unexpected {:?}", other),
    }
}

#[test]
fn stream_lines() {
    assert!(matches!(stream_line(": keep-alive"), StreamLine::Skip));
    assert!(matches!(stream_line("data: [DONE]"), StreamLine::Done));
    assert!(matches!(stream_line("data:  [DONE]  "), StreamLine::Done));
    assert!(matches!(stream_line("data: not json"), StreamLine::Skip));
    assert!(matches!(stream_line(r#"data: {"choices":[{"delta":{"content":""}}]}"#), StreamLine::Skip));
    assert!(matches!(stream_line(r#"data: {"choices":[{"delta":{}}]}"#), StreamLine::Skip));
    match stream_line(r#"data: {"choices":[{"delta":{"content":"你好"}}]}"#) {
        StreamLine::Content(t) => assert_eq!(t, "你好"),
        other => panic!("unexpected {:?}", other),
    }
}

#[test]
fn endpoint_and_auth() {
    assert_eq!(chat_completions_url("https://api.deepseek.com/v1//"), "https://api.deepseek.com/v1/chat/completions");
    assert_eq!(chat_completions_url("http://localhost:11434/v1"), "http://localhost:11434/v1/chat/completions");
    assert_eq!(chat_completions_url(""), "/chat/completions");
    assert_eq!(bearer_auth(""), None);
    assert_eq!(bearer_auth("sk-1"), Some("Bearer sk-1".to_string()));
}

#[test]
fn chunks_without_text_are_skipped() {
    assert!(matches!(chunk_line(None), StreamLine::Skip));
    assert!(matches!(chunk_line(Some(String::new())), StreamLine::Skip));
    match chunk_line(Some("章".to_string())) {
        StreamLine::Content(t) => assert_eq!(t, "章"),
        _ => panic!("text was dropped"),
    }
}

#[test]
fn connection_test_reads_the_reply() {
    let body = r#"{"choices":[{"message":{"role":"assistant","content":"连接成功！"}}]}"#;
    assert_eq!(connection_reply(body), Ok("连接成功！".to_string()));
    assert_eq!(connection_reply(r#"{"choices":[]}"#), Ok("连接成功".to_string()));
    assert_eq!(connection_reply("<html>"), Err("error decoding response body".to_string()));
    assert_eq!(connection_reply_from(Some(None)), Ok("连接成功".to_string()));
    assert_eq!(connection_reply_from(None), Err("error decoding response body".to_string()));
    assert_eq!(connection_reply_from(Some(Some("hi".to_string()))), Ok("hi".to_string()));
}
