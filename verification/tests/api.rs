use vibi_core::api::api_chat::{compile_vibi_blocks, debug_list_text, extract_vibi_blocks, ApiChat, BlockResult, Route};
use vibi_core::api::gemini::{gemini_models, gemini_reply, gemini_role, generate_url};
use vibi_core::api::openai::{bearer, openai_models, openai_reply};
use vibi_core::api::{gemini, openai, starts_with, ApiResponse};

fn reply(text: &str) -> ApiResponse {
    ApiResponse { content: text.to_string(), model: "m".to_string(), tokens_used: 3 }
}

#[test]
fn openai_requests() {
    assert_eq!(openai::request_model(""), "gpt-4o");
    assert_eq!(openai::request_model("gpt-4"), "gpt-4");
    assert_eq!(bearer("k1"), "Bearer k1");
    assert_eq!(openai_models(), vec!["gpt-4o", "gpt-4", "gpt-3.5-turbo"]);
    let r = openai_reply(&vec!["first".to_string(), "second".to_string()], "gpt-4", 42);
    assert_eq!(r.content, "first");
    assert_eq!(r.model, "gpt-4");
    assert_eq!(r.tokens_used, 42);
    assert_eq!(openai_reply(&Vec::new(), "", 0).content, "");
}

#[test]
fn gemini_requests() {
    assert_eq!(gemini_role("assistant"), "model");
    assert_eq!(gemini_role("user"), "user");
    assert_eq!(gemini_role("system"), "user");
    assert_eq!(gemini::request_model(""), "gemini-2.5-pro");
    assert_eq!(
        generate_url("gemini-2.5-flash", "K"),
        "https://generativelanguage.googleapis.com/v1beta/models/gemini-2.5-flash:generateContent?key=K"
    );
    assert_eq!(gemini_models(), vec!["gemini-2.5-pro", "gemini-2.5-flash", "gemini-1.5-pro"]);
    let r = gemini_reply(&vec![vec![], vec!["x".to_string()]], "v1", 7);
    assert_eq!(r.content, "");
    let r = gemini_reply(&vec![vec!["a".to_string(), "b".to_string()]], "v1", 7);
    assert_eq!(r.content, "a");
    assert_eq!(r.model, "v1");
}

#[test]
fn prefixes() {
    assert!(starts_with("gpt-4", "gpt"));
    assert!(starts_with("gpt", "gpt"));
    assert!(!starts_with("gp", "gpt"));
    assert!(!starts_with("chatgpt", "gpt"));
}

#[test]
fn routing_by_model_name() {
    let mut chat = ApiChat::new(Some("ok".to_string()), Some("gk".to_string()));
    chat.set_model("gpt-4");
    match chat.prepare_message("hello").unwrap() {
        Route::OpenAi { model, api_key } => {
            assert_eq!(model, "gpt-4");
            assert_eq!(api_key, "ok");
        }
        _ => panic!("expected OpenAI"),
    }
    chat.set_model("gemini-2.5-pro");
    match chat.prepare_message("again").unwrap() {
        Route::Gemini { model, api_key } => {
            assert_eq!(model, "gemini-2.5-pro");
            assert_eq!(api_key, "gk");
        }
        _ => panic!("expected Gemini"),
    }
    chat.set_model("llama");
    match chat.prepare_message("third").unwrap() {
        Route::OpenAi { model, .. } => assert_eq!(model, "gpt-4o"),
        _ => panic!("expected the OpenAI fallback"),
    }
    assert_eq!(chat.messages().len(), 3);
    assert!(chat.messages().iter().all(|m| m.role == "user"));
}

#[test]
fn missing_keys_are_reported_and_the_message_kept() {
    let mut chat = ApiChat::new(None, None);
    chat.set_model("chatgpt");
    assert_eq!(chat.prepare_message("a").unwrap_err(), "OpenAI API key not configured");
    chat.set_model("gemini");
    assert_eq!(chat.prepare_message("b").unwrap_err(), "Gemini API key not configured");
    chat.set_model("");
    assert_eq!(chat.prepare_message("c").unwrap_err(), "No API key configured");
    assert_eq!(chat.messages().len(), 3);
}

#[test]
fn replies_join_the_history() {
    let mut chat = ApiChat::new(Some("k".to_string()), None);
    chat.prepare_message("q").unwrap();
    chat.record_reply(&reply("a"));
    let h = chat.messages();
    assert_eq!(h.len(), 2);
    assert_eq!(h[1].role, "assistant");
    assert_eq!(h[1].content, "a");
    chat.clear_history();
    assert!(chat.messages().is_empty());
}

#[test]
fn vibi_blocks_are_found_and_trimmed() {
    let text = "intro\n```vibi\n  main vibi.claw { }  \n```\nand <vibi.claw> x </vibi.claw> end";
    assert_eq!(
        extract_vibi_blocks(text),
        vec!["main vibi.claw { }".to_string(), "<vibi.claw> x </vibi.claw>".to_string()]
    );
    assert!(extract_vibi_blocks("no code here").is_empty());
}

#[test]
fn debug_lists() {
    assert_eq!(debug_list_text(&vec![]), "[]");
    assert_eq!(debug_list_text(&vec!["a".to_string()]), "[\"a\"]");
    assert_eq!(debug_list_text(&vec!["a".to_string(), "b\"c".to_string()]), format!("{:?}", vec!["a", "b\"c"]));
}

#[test]
fn blocks_compile_or_report() {
    let text = "```vibi\nmain vibi.claw\n{\n jobs\n {\n  vibi.tool = [create.file]\n  \"a.txt\"\n }\n jobs()\n}\n```\n```vibi\n{ oops }\n```";
    let results = compile_vibi_blocks(text);
    assert_eq!(results.len(), 2);
    match &results[0] {
        BlockResult::Compiled(cmds) => {
            assert_eq!(cmds.len(), 1);
            assert_eq!(cmds[0].path.as_deref(), Some("a.txt"));
        }
        _ => panic!("expected commands"),
    }
    match &results[1] {
        BlockResult::Failed(line) => {
            assert_eq!(line, "Compilation failed: [\"Expected 'jobs', got: Some(Identifier(\\\"oops\\\"))\"]")
        }
        _ => panic!("expected a failure"),
    }
}
