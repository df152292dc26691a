use survon::jukebox::{controls_text, now_playing, should_reingest, Equalizer, NowPlaying, Track};
use survon::knowledge::{
    best_chunks, build_summarizer_prompt, calculate_relevance_score, extract_relevant_snippets,
    extract_unique_sources, generate_answer_from_chunks, knowledge_domains, plan_answer,
    rank_chunks, summarizer_prompt_checked, summary_response, AnswerPlan, KnowledgeSearch,
    SearchAction, SearchStage,
};
use survon::llm::{
    clean_llm_response, extract_search_terms, extract_topic, generate_no_results_response,
    is_completion_done, remote_chat_url, remote_reply_content, remote_request_body,
    KnowledgeChunk, LlmSettings,
};
use survon::panels::UiColor;
use survon::text::parse_u64;

fn chunk(id: i64, title: &str, body: &str, file: &str, meta: &str) -> KnowledgeChunk {
    KnowledgeChunk {
        id,
        title: title.to_string(),
        body: body.to_string(),
        source_file: file.to_string(),
        metadata: meta.to_string(),
    }
}

#[test]
fn search_terms_drop_stopwords_and_punctuation() {
    assert_eq!(
        extract_search_terms("How do I build a Chicken-Coop, fast?"),
        vec!["chicken-coop".to_string(), "fast".to_string()]
    );
    assert_eq!(extract_search_terms("what is it"), Vec::<String>::new());
    assert_eq!(extract_search_terms("  Water   PURIFICATION!! "), vec!["water", "purification"]);
}

#[test]
fn topics_and_plain_answers() {
    assert_eq!(extract_topic("How do I purify water?"), "Purify water");
    assert_eq!(extract_topic("What is compost"), "Compost");
    assert_eq!(extract_topic("?"), "");
    assert!(generate_no_results_response("How to Tan Hides?")
        .starts_with("**No information found about 'tan hides'**\n\nI couldn't find"));
    assert_eq!(clean_llm_response("  <|assistant|>Boil it.<|end|>\n"), "Boil it.");
    assert!(is_completion_done("abc<|end|>"));
    assert!(is_completion_done(&"x".repeat(1001)));
    assert!(!is_completion_done(&"x".repeat(1000)));
}

#[test]
fn settings_by_model_name() {
    let s = LlmSettings::from_model_name("hybrid", true);
    assert!(s.use_summarizer);
    assert_eq!(s.model_path.as_deref(), Some("bundled/models/phi3-mini.gguf"));
    assert_eq!(s.get_model_info(), "Smart Search + Lightweight Summarizer");
    let s = LlmSettings::from_model_name("summarizer", false);
    assert!(!s.use_summarizer);
    assert_eq!(s.get_model_info(), "Smart Search (FTS5)");
    assert!(LlmSettings::new().remote_target().is_none());
    let r = LlmSettings::new_remote("http://h:11434".to_string(), "llama".to_string());
    assert_eq!(r.remote_target(), Some(("http://h:11434".to_string(), "llama".to_string())));
}

#[test]
fn remote_model_request_and_reply() {
    assert_eq!(remote_chat_url("http://h:11434"), "http://h:11434/api/chat");
    let body = remote_request_body("llama", "hi");
    assert_eq!(
        survon::json::json_to_string(&body),
        r#"{"messages":[{"content":"hi","role":"user"}],"model":"llama","stream":false}"#
    );
    assert_eq!(remote_reply_content(r#"{"message":{"content":"Hello"}}"#), Some("Hello".to_string()));
    assert_eq!(remote_reply_content(r#"{"message":{}}"#), None);
}

#[test]
fn relevance_scores_in_tenths() {
    let long_body = format!("water {}", "x".repeat(200));
    let c = chunk(1, "Water", &long_body, "a.pdf", "{}");
    // title 1 * 10 + body 1 + intro 1 * 3 = 14 points, times 10 tenths
    assert_eq!(calculate_relevance_score(&c, &vec!["water".to_string()]), 140);
    let short = chunk(2, "x", "water water", "b.pdf", "{}");
    // body 2 + intro 2 * 3 = 8 points, times 3 tenths for a short body
    assert_eq!(calculate_relevance_score(&short, &vec!["WATER".to_string()]), 24);
    assert_eq!(calculate_relevance_score(&short, &vec![]), 0);
}

#[test]
fn ranking_is_stable_and_descending() {
    let body = "y".repeat(150);
    let chunks = vec![
        chunk(1, "none", &body, "a", "{}"),
        chunk(2, "soil", &body, "b", "{}"),
        chunk(3, "other", &body, "c", "{}"),
        chunk(4, "soil soil", &body, "d", "{}"),
    ];
    let ranked = rank_chunks(&chunks, &vec!["soil".to_string()]).unwrap();
    let ids: Vec<i64> = ranked.iter().map(|c| c.id).collect();
    assert_eq!(ids, vec![4, 2, 1, 3]);
    let best = best_chunks(&chunks, &vec!["soil".to_string()]).unwrap();
    assert_eq!(best.len(), 4);
    let cut = "é".repeat(150);
    let bad = vec![chunk(9, "t", &format!("a{}", cut), "z", "{}")];
    assert!(rank_chunks(&bad, &vec!["t".to_string()]).is_none());
    assert!(rank_chunks(&bad, &vec![]).is_some());
}

#[test]
fn snippets_and_sources() {
    let body = "Short. This sentence is certainly longer than thirty bytes. Another sentence that is also long enough here. A third long sentence that should not be taken.";
    let chunks = vec![
        chunk(1, "t", body, "./docs/guide.pdf", r#"{"page_number": 4}"#),
        chunk(2, "t", body, "other/guide.pdf", "{}"),
        chunk(3, "t", body, "notes.txt", "not json"),
    ];
    let snippets = extract_relevant_snippets(&chunks, 3);
    assert_eq!(snippets.len(), 3);
    assert_eq!(snippets[0], "This sentence is certainly longer than thirty bytes.");
    assert_eq!(snippets[1], "Another sentence that is also long enough here.");
    let sources = extract_unique_sources(&chunks);
    assert_eq!(sources, vec!["./docs/guide.pdf#page=4".to_string(), "notes.txt".to_string()]);
    let answer = generate_answer_from_chunks("How do I cook?", &chunks);
    assert!(answer.starts_with("**Regarding Cook:**\n\nThis sentence is certainly"));
    assert!(answer.ends_with("📚 **Sources**: (from ./docs/guide.pdf#page=4), (from notes.txt)\n\n💡 *Press Tab to cycle source links, Enter to open.*"));
    let summary = summary_response(" Boil it. <|end|>", &chunks);
    assert!(summary.starts_with("Boil it.\n\n---\n📚 **Sources**: (from ./docs/guide.pdf#page=4)"));
}

#[test]
fn summarizer_prompt() {
    let chunks = vec![chunk(1, "t", "Boil water.", "a", "{}")];
    let p = build_summarizer_prompt("Is it safe?", &chunks);
    assert!(p.starts_with("<|system|>\nYou are a helpful assistant"));
    assert!(p.ends_with("EXCERPTS:\n[1] Boil water.\n\n<|user|>\nIs it safe?\n<|assistant|>\n"));
    let cut = vec![chunk(1, "t", &format!("a{}", "é".repeat(200)), "a", "{}")];
    assert!(summarizer_prompt_checked("q", &cut).is_none());
    assert!(summarizer_prompt_checked("q", &chunks).is_some());
}

#[test]
fn knowledge_search_stages() {
    let (mut search, action) = KnowledgeSearch::start(vec!["soil".to_string(), "ph".to_string()]);
    match action {
        SearchAction::Query { query, limit } => {
            assert_eq!(query, "soil ph");
            assert_eq!(limit, 15);
        }
        _ => panic!("a search with terms queries"),
    }
    let a = search.on_results(vec![chunk(1, "t", "b", "f", "{}")]);
    assert!(matches!(a, SearchAction::Query { ref query, limit: 20 } if query == "soil OR ph"));
    let a = search.on_results(vec![chunk(1, "t", "b", "f", "{}"), chunk(2, "t", "b", "f", "{}")]);
    assert!(matches!(a, SearchAction::Query { ref query, limit: 10 } if query == "soil"));
    let a = search.on_results(vec![]);
    assert!(matches!(a, SearchAction::Query { ref query, limit: 10 } if query == "ph"));
    match search.on_results(vec![chunk(3, "t", "b", "f", "{}")]) {
        SearchAction::Done(found) => {
            let ids: Vec<i64> = found.iter().map(|c| c.id).collect();
            assert_eq!(ids, vec![1, 2, 3]);
        }
        _ => panic!("the search ends after the second term"),
    }
    assert_eq!(search.stage, SearchStage::Finished);
    let (_, action) = KnowledgeSearch::start(vec![]);
    assert!(matches!(action, SearchAction::Done(ref v) if v.is_empty()));
    assert_eq!(
        knowledge_domains(&vec!["garden_knowledge".to_string(), "gate".to_string()]),
        vec!["garden".to_string()]
    );
}

#[test]
fn answer_plans() {
    let s = LlmSettings::new();
    match plan_answer(&s, "How to farm?", &vec![]) {
        AnswerPlan::Answer(t) => assert!(t.starts_with("**No information found about 'farm'**")),
        _ => panic!("nothing found is answered at once"),
    }
    let h = LlmSettings::from_model_name("hybrid", true);
    assert!(matches!(plan_answer(&h, "q", &vec![chunk(1, "t", "b", "f", "{}")]), AnswerPlan::Summarize));
}

#[test]
fn jukebox_panel_and_reingest() {
    let eq = Equalizer::new();
    let (icon, bars, color) = eq.visual(false);
    assert_eq!(icon, "🔇");
    assert_eq!(bars, "▁".repeat(16));
    assert_eq!(color, UiColor::DarkGray);
    let t = Track { id: 1, album_id: 1, track_number: 1, title: "Song".to_string(), duration_seconds: None, file_path: "x".to_string(), artist: None };
    assert!(matches!(now_playing(Some(&t), false, None), NowPlaying::Missing { ref title } if title == "Song"));
    assert!(matches!(now_playing(None, true, None), NowPlaying::Nothing));
    assert!(controls_text(true).starts_with("⏸ Space: Pause"));
    assert!(!should_reingest(42, Some("42")));
    assert!(should_reingest(42, Some("41")));
    assert!(should_reingest(42, None));
    assert!(!should_reingest(0, Some("junk")));
    assert_eq!(parse_u64("+18446744073709551615"), Some(u64::MAX));
    assert_eq!(parse_u64("18446744073709551616"), None);
    assert_eq!(parse_u64(""), None);
    assert_eq!(parse_u64("12a"), None);
}
