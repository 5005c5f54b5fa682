use soulbook::ai_tasks::{
    ai_task_record_id, extract_keywords, fallback_task_document, generate_task_result,
    heading_overview, improve_readability, markdown_bullets, markdown_paragraphs,
    normalize_markdown_text, normalize_pagination, task_list_sql, task_record_values,
    task_source_space, task_stats, task_status_after, truncate_chars, AiTaskDocument,
    CreateTaskRequest, TaskAction, TaskQuery, TaskStats,
};

fn sample() -> AiTaskDocument {
    AiTaskDocument {
        title: "SoulBook 协作空间".to_string(),
        content: "# SoulBook 协作空间\n\nSoulBook 支持多人协作文档、空间成员邀请和 AI 写作任务。\n\n编辑者可以维护知识库内容。".to_string(),
        target_language: None,
    }
}

fn request() -> CreateTaskRequest {
    CreateTaskRequest {
        task_type: "summarize".to_string(),
        document_id: "doc-1".to_string(),
        document_title: None,
        space_id: None,
        model: None,
        target_language: None,
        extra: None,
    }
}

#[test]
fn normalize_pagination_clamps_page_and_per_page() {
    assert_eq!(normalize_pagination(Some(-3), Some(-10)), (1, 1, 0));
    assert_eq!(normalize_pagination(Some(2), Some(500)), (2, 100, 100));
    assert_eq!(normalize_pagination(None, None), (1, 20, 0));
}

#[test]
fn generate_task_result_creates_viewable_outputs() {
    let input = sample();

    let summary = generate_task_result("summarize", &input);
    assert_eq!(summary.format, "markdown");
    assert!(summary.content.contains("SoulBook 支持多人协作文档"));

    let faq = generate_task_result("faq", &input);
    assert!(faq.content.contains("## FAQ"));
    assert!(faq.content.contains("SoulBook 协作空间"));

    let tags = generate_task_result("extract_tags", &input);
    assert!(tags.tags.unwrap().iter().any(|tag| tag == "SoulBook"));
}

#[test]
fn task_results_of_each_kind() {
    let input = sample();
    let summary = generate_task_result("summarize", &input);
    assert_eq!(summary.title, "文档摘要");
    assert!(summary.content.starts_with("## 文档摘要\n\nSoulBook 协作空间\n\n### 关键要点\n- SoulBook 协作空间\n- SoulBook 支持"));
    let polish = generate_task_result("polish", &input);
    assert_eq!(polish.title, "润色建议");
    assert!(polish.content.starts_with("## 润色建议\n\nSoulBook 协作空间\n\n建议："));
    let other = generate_task_result("custom", &input);
    assert_eq!(other.title, "AI 任务结果");
    assert!(other.content.starts_with("## AI 任务结果\n\n任务类型：custom\n\n"));
    let translate = generate_task_result("translate", &input);
    assert!(translate.content.contains("目标语言：未指定"));
    let proofread = generate_task_result("proofread", &input);
    assert!(proofread.content.contains("正文长度适中。"));
    let empty = AiTaskDocument {
        title: String::new(),
        content: String::new(),
        target_language: Some("en".to_string()),
    };
    let expand = generate_task_result("expand", &empty);
    assert!(expand.content.contains("当前文档内容较少，建议先补充正文后再生成。"));
    let dialog = generate_task_result("dialog_to_doc", &empty);
    assert!(dialog.content.contains("### 主题\n未命名主题"));
    let outline = generate_task_result("outline", &empty);
    assert!(outline.content.contains("围绕「当前主题」"));
    let tags = generate_task_result("extract_tags", &empty);
    assert_eq!(tags.format, "tags");
    assert_eq!(tags.tags.unwrap(), vec!["知识库".to_string()]);
    assert_eq!(tags.content, "建议标签：知识库");
}

#[test]
fn markdown_helpers() {
    assert_eq!(normalize_markdown_text("## A\n\n- b\n*  c  \n   "), "A\nb\nc");
    assert_eq!(markdown_paragraphs(" x \n\n y"), vec!["x".to_string(), "y".to_string()]);
    assert_eq!(markdown_bullets(&[]), "- 暂无可提取要点。");
    assert_eq!(markdown_bullets(&["a".to_string(), "b".to_string()]), "- a\n- b");
    assert_eq!(heading_overview("", &[]), "围绕「当前主题」补充背景、目标、步骤和结果。");
    assert_eq!(
        heading_overview("T", &["a".to_string(), "b".to_string(), "c".to_string(), "d".to_string()]),
        "围绕「T」重组内容，突出：a；b；c"
    );
    assert!(improve_readability("x").starts_with("x\n\n建议："));
}

#[test]
fn truncation_marks_cut_text() {
    assert_eq!(truncate_chars("abcdef", 3), "abc…");
    assert_eq!(truncate_chars("abc", 3), "abc");
    assert_eq!(truncate_chars("协作空间", 2), "协作…");
}

#[test]
fn keywords_are_bounded_and_distinct() {
    let k = extract_keywords("a bb bb", "cc, dd; ee ff gg hh ii jj kk");
    assert_eq!(k, vec!["bb", "cc", "dd", "ee", "ff", "gg", "hh", "ii"]);
    assert_eq!(extract_keywords("", "x"), vec!["知识库".to_string()]);
    let long = "a".repeat(25);
    assert_eq!(extract_keywords(&long, "ok"), vec!["ok".to_string()]);
}

#[test]
fn task_list_query_with_filters() {
    let q = TaskQuery {
        status: Some("running".to_string()),
        space_id: None,
        task_type: Some("faq".to_string()),
        page: Some(3),
        per_page: Some(10),
    };
    assert_eq!(
        task_list_sql(&q),
        "SELECT * FROM ai_task WHERE is_deleted = false AND status = 'running' AND task_type = 'faq' ORDER BY created_at DESC LIMIT 10 START 20"
    );
    let all = TaskQuery {
        status: None,
        space_id: Some("s1".to_string()),
        task_type: None,
        page: None,
        per_page: None,
    };
    assert_eq!(
        task_list_sql(&all),
        "SELECT * FROM ai_task WHERE is_deleted = false AND space_id = 's1' ORDER BY created_at DESC LIMIT 20 START 0"
    );
}

#[test]
fn task_stats_by_status() {
    let rows = vec![
        (Some(2), Some("running".to_string())),
        (Some(5), Some("completed".to_string())),
        (None, Some("failed".to_string())),
        (Some(9), None),
        (Some(7), Some("cancelled".to_string())),
    ];
    assert_eq!(
        task_stats(&rows),
        TaskStats {
            running: 2,
            completed: 5,
            pending: 0,
            failed: 0
        }
    );
}

#[test]
fn task_creation_values() {
    let mut req = request();
    assert_eq!(task_source_space(&req), None);
    req.space_id = Some(String::new());
    assert_eq!(task_source_space(&req), None);
    req.space_id = Some("space-a".to_string());
    assert_eq!(task_source_space(&req).as_deref(), Some("space-a"));
    let doc = fallback_task_document(&req);
    assert_eq!(doc.title, "doc-1");
    assert!(doc.content.is_empty());
    req.document_title = Some("Title".to_string());
    assert_eq!(fallback_task_document(&req).title, "Title");
    let v = task_record_values(&req, "Read title", "default-model");
    assert_eq!(v.model, "default-model");
    assert_eq!(v.space_id, "space-a");
    assert_eq!(v.target_language, "");
    assert_eq!(v.extra, "");
    assert_eq!(v.document_title, "Read title");
    req.model = Some("m".to_string());
    assert_eq!(task_record_values(&req, "t", "default-model").model, "m");
    assert_eq!(ai_task_record_id("42"), "ai_task:42");
    assert_eq!(task_status_after(TaskAction::Cancel), "cancelled");
    assert_eq!(task_status_after(TaskAction::Retry), "pending");
}
