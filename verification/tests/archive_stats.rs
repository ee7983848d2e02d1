use chatstats::analyze::analyze_conversations;
use chatstats::analyze::AnalyzeError;
use chatstats::decode::decode_conversations_str;
use chatstats::decode::decode_feedback_str;
use chatstats::decode::MalformedArchive;
use chatstats::encode::encode_message_metadata;
use chatstats::feedback::count_feedback;
use chatstats::fmt::hashmap_to_ordered_vec;
use chatstats::model::ContentInner;
use chatstats::model::Rating;

/// The order-preserving key of a double timestamp, as the library stores
/// times.
fn key(x: f64) -> u64 {
    let b = x.to_bits();
    if b >> 63 == 1 {
        !b
    } else {
        b | (1u64 << 63)
    }
}

/// A sentinel later than any timestamp used in these tests.
fn now_sentinel() -> u64 {
    key(4102444800.0)
}

fn conv_json(mapping: &str) -> String {
    format!(
        "{{\"title\":\"t\",\"create_time\":1.5,\"update_time\":2.5,\"mapping\":{{{}}},\"moderation_results\":[],\"current_node\":\"n\",\"conversation_id\":\"c1\",\"is_archived\":false,\"safe_urls\":[],\"blocked_urls\":[],\"disabled_tool_ids\":[],\"memory_scope\":\"global\",\"id\":\"conv1\"}}",
        mapping
    )
}

fn msg_node(node_id: &str, msg: &str) -> String {
    format!(
        "\"{}\":{{\"id\":\"{}\",\"message\":{},\"parent\":null,\"children\":[]}}",
        node_id, node_id, msg
    )
}

fn message(id: &str, role: &str, content: &str, status: &str, extra_meta: &str) -> String {
    format!(
        "{{\"id\":\"{}\",\"author\":{{\"role\":\"{}\",\"metadata\":{{}}}},\"content\":{},\"status\":\"{}\",\"weight\":1.0,\"metadata\":{{{}}},\"recipient\":\"all\"}}",
        id, role, content, status, extra_meta
    )
}

#[test]
fn scenario_single_user_text_message() {
    let m = message(
        "m1",
        "user",
        "{\"content_type\":\"text\",\"text\":\"hello world\"}",
        "finished_successfully",
        "",
    );
    let doc = format!("[{}]", conv_json(&msg_node("n1", &m)));
    let convs = decode_conversations_str(&doc).unwrap();
    let a = analyze_conversations(convs, now_sentinel()).unwrap();
    assert_eq!(a.chat_amount, 1);
    assert_eq!(a.messages_from_user, 1);
    assert_eq!(a.messages_from_chatgpt, 0);
    assert_eq!(a.words.get("hello"), 1);
    assert_eq!(a.words.get("world"), 1);
    assert_eq!(a.words.len(), 2);
}

#[test]
fn scenario_placeholder_only_conversation() {
    let node = "\"client-created-root\":{\"id\":\"client-created-root\",\"message\":null,\"parent\":null,\"children\":[]}";
    let doc = format!("[{}]", conv_json(node));
    let convs = decode_conversations_str(&doc).unwrap();
    let a = analyze_conversations(convs, now_sentinel()).unwrap();
    assert_eq!(a.chat_amount, 1);
    assert_eq!(a.messages_from_user, 0);
    assert_eq!(a.messages_from_chatgpt, 0);
    assert_eq!(a.unfinished_messages, 0);
    assert_eq!(a.content_types.len(), 0);
    assert_eq!(a.messages_sent.len(), 0);
    assert_eq!(a.words.len(), 0);
}

fn feedback_entry(id: &str, rating: &str) -> String {
    format!(
        "{{\"id\":\"{}\",\"conversation_id\":\"c\",\"user_id\":\"u\",\"rating\":\"{}\",\"create_time\":\"2024\",\"content\":\"{{}}\",\"update_time\":\"2024\"}}",
        id, rating
    )
}

#[test]
fn scenario_feedback_both_spellings_positive() {
    let doc = format!(
        "[{},{}]",
        feedback_entry("f1", "thumbs_up"),
        feedback_entry("f2", "ThumbsUp")
    );
    let entries = decode_feedback_str(&doc).unwrap();
    assert!(entries.iter().all(|e| e.rating == Rating::ThumbsUp));
    let f = count_feedback(&entries);
    assert_eq!(f.positive_amount, 2);
    assert_eq!(f.negative_amount, 0);
}

#[test]
fn feedback_down_ratings_and_mix() {
    let doc = format!(
        "[{},{},{}]",
        feedback_entry("f1", "thumbs_down"),
        feedback_entry("f2", "ThumbsDown"),
        feedback_entry("f3", "thumbs_up")
    );
    let entries = decode_feedback_str(&doc).unwrap();
    let f = count_feedback(&entries);
    assert_eq!(f.positive_amount, 1);
    assert_eq!(f.negative_amount, 2);
}

#[test]
fn feedback_unknown_rating_is_rejected_with_index() {
    let doc = format!(
        "[{},{}]",
        feedback_entry("f1", "thumbs_up"),
        feedback_entry("f2", "sideways")
    );
    let r = decode_feedback_str(&doc);
    assert_eq!(r.unwrap_err(), MalformedArchive::BadRecord { index: 1 });
}

#[test]
fn scenario_citation_website_and_path() {
    let meta = "\"cite_metadata\":{\"citation_format\":{},\"metadata_list\":[{\"metadata_type\":\"webpage\",\"url\":\"https://example.com/a\",\"text\":\"x\"}]}";
    let m = message(
        "m1",
        "assistant",
        "{\"content_type\":\"text\",\"text\":\"cited\"}",
        "finished_successfully",
        meta,
    );
    let doc = format!("[{}]", conv_json(&msg_node("n1", &m)));
    let convs = decode_conversations_str(&doc).unwrap();
    let a = analyze_conversations(convs, now_sentinel()).unwrap();
    assert_eq!(a.searched_websites.get("example.com"), 1);
    assert_eq!(a.website_paths.get("https://example.com/a"), 1);
    assert_eq!(a.messages_from_user, 0);
    assert_eq!(a.words.len(), 0);
}

#[test]
fn relative_citation_urls_are_ignored() {
    let meta = "\"cite_metadata\":{\"citation_format\":{},\"metadata_list\":[{\"metadata_type\":\"file\",\"url\":\"notes.txt\",\"text\":\"x\"}]}";
    let m = message(
        "m1",
        "assistant",
        "{\"content_type\":\"text\"}",
        "finished_successfully",
        meta,
    );
    let doc = format!("[{}]", conv_json(&msg_node("n1", &m)));
    let convs = decode_conversations_str(&doc).unwrap();
    let a = analyze_conversations(convs, now_sentinel()).unwrap();
    assert_eq!(a.searched_websites.len(), 0);
    assert_eq!(a.website_paths.len(), 0);
}

#[test]
fn unparsable_citation_url_fails_the_run() {
    let meta = "\"cite_metadata\":{\"citation_format\":{},\"metadata_list\":[{\"metadata_type\":\"webpage\",\"url\":\"http://[bad\",\"text\":\"x\"}]}";
    let m = message(
        "m1",
        "assistant",
        "{\"content_type\":\"text\"}",
        "finished_successfully",
        meta,
    );
    let doc = format!("[{}]", conv_json(&msg_node("n1", &m)));
    let convs = decode_conversations_str(&doc).unwrap();
    match analyze_conversations(convs, now_sentinel()) {
        Err(AnalyzeError::InvalidCitationUrl(u)) => assert_eq!(u, "http://[bad"),
        other => panic!("expected an invalid-url failure, got {:?}", other.is_ok()),
    }
}

#[test]
fn hostless_citation_url_fails_the_run() {
    let meta = "\"cite_metadata\":{\"citation_format\":{},\"metadata_list\":[{\"metadata_type\":\"webpage\",\"url\":\"httpdata:foo\",\"text\":\"x\"}]}";
    let m = message(
        "m1",
        "assistant",
        "{\"content_type\":\"text\"}",
        "finished_successfully",
        meta,
    );
    let doc = format!("[{}]", conv_json(&msg_node("n1", &m)));
    let convs = decode_conversations_str(&doc).unwrap();
    match analyze_conversations(convs, now_sentinel()) {
        Err(AnalyzeError::UnresolvableCitationHost(u)) => assert_eq!(u, "httpdata:foo"),
        other => panic!("expected a hostless-url failure, got {:?}", other.is_ok()),
    }
}

#[test]
fn scenario_oldest_message_wins() {
    let m1 = message(
        "m1",
        "user",
        "{\"content_type\":\"text\",\"text\":\"first\"}",
        "finished_successfully",
        "",
    )
    .replace("\"status\"", "\"create_time\":100.0,\"status\"");
    let m2 = message(
        "m2",
        "user",
        "{\"content_type\":\"text\",\"text\":\"second\"}",
        "finished_successfully",
        "",
    )
    .replace("\"status\"", "\"create_time\":50.0,\"status\"");
    let mapping = format!("{},{}", msg_node("n1", &m1), msg_node("n2", &m2));
    let doc = format!("[{}]", conv_json(&mapping));
    let convs = decode_conversations_str(&doc).unwrap();
    let a = analyze_conversations(convs, now_sentinel()).unwrap();
    assert_eq!(a.oldest_message_time, key(50.0));
    assert_eq!(a.oldest_message_id, "m2");
    assert_eq!(a.messages_sent.len(), 2);
    assert!(a.messages_sent.contains(&key(100.0)));
    assert!(a.messages_sent.contains(&key(50.0)));
}

#[test]
fn no_timestamps_leaves_the_sentinel_and_empty_id() {
    let m = message(
        "m1",
        "user",
        "{\"content_type\":\"text\",\"text\":\"hi\"}",
        "finished_successfully",
        "",
    );
    let doc = format!("[{}]", conv_json(&msg_node("n1", &m)));
    let convs = decode_conversations_str(&doc).unwrap();
    let a = analyze_conversations(convs, now_sentinel()).unwrap();
    assert_eq!(a.oldest_message_time, now_sentinel());
    assert_eq!(a.oldest_message_id, "");
    assert!(a.messages_sent.is_empty());
}

#[test]
fn roles_statuses_models_and_authors() {
    let m1 = message(
        "m1",
        "system",
        "{\"content_type\":\"text\",\"text\":\"sys words\"}",
        "finished_successfully",
        "\"model_slug\":\"gpt-test\"",
    );
    let m2 = message(
        "m2",
        "tool",
        "{\"content_type\":\"code\",\"text\":\"print\"}",
        "in_progress",
        "\"model_slug\":\"gpt-test\"",
    )
    .replace(
        "\"author\":{\"role\":\"tool\",\"metadata\":{}}",
        "\"author\":{\"role\":\"tool\",\"name\":\"browser\",\"metadata\":{}}",
    );
    let mapping = format!("{},{}", msg_node("n1", &m1), msg_node("n2", &m2));
    let doc = format!("[{}]", conv_json(&mapping));
    let convs = decode_conversations_str(&doc).unwrap();
    let a = analyze_conversations(convs, now_sentinel()).unwrap();
    assert_eq!(a.messages_from_chatgpt, 1);
    assert_eq!(a.messages_from_user, 0);
    assert_eq!(a.unfinished_messages, 1);
    assert_eq!(a.models_used.get("gpt-test"), 2);
    assert_eq!(a.content_types.get("text"), 1);
    assert_eq!(a.content_types.get("code"), 1);
    assert_eq!(a.authors.get("browser"), 1);
    // neither the system nor the tool message contributes words
    assert_eq!(a.words.len(), 0);
}

#[test]
fn voices_are_collected_per_conversation() {
    let node = "\"client-created-root\":{\"id\":\"client-created-root\",\"message\":null,\"parent\":null,\"children\":[]}";
    let with_voice = conv_json(node).replace("\"title\":\"t\"", "\"voice\":\"ember\",\"title\":\"t\"");
    let doc = format!("[{},{}]", with_voice, conv_json(node));
    let convs = decode_conversations_str(&doc).unwrap();
    let a = analyze_conversations(convs, now_sentinel()).unwrap();
    assert_eq!(a.chat_amount, 2);
    assert_eq!(a.voices_used, vec!["ember".to_string()]);
}

#[test]
fn multipart_text_and_empty_tokens() {
    let content = "{\"content_type\":\"text\",\"parts\":[\"a  b\",\"c\"]}";
    let m = message("m1", "user", content, "finished_successfully", "");
    let doc = format!("[{}]", conv_json(&msg_node("n1", &m)));
    let convs = decode_conversations_str(&doc).unwrap();
    let a = analyze_conversations(convs, now_sentinel()).unwrap();
    // "a  b" splits into "a", "", "b"; trimming keeps them as they are
    assert_eq!(a.words.get("a"), 1);
    assert_eq!(a.words.get("b"), 1);
    assert_eq!(a.words.get("c"), 1);
    assert_eq!(a.words.get(""), 1);
}

#[test]
fn content_shape_fallback_order() {
    // parts wins over text when both are usable
    let both = "{\"content_type\":\"text\",\"parts\":[\"p\"],\"text\":\"t\"}";
    let m = message("m1", "user", both, "finished_successfully", "");
    let doc = format!("[{}]", conv_json(&msg_node("n1", &m)));
    let convs = decode_conversations_str(&doc).unwrap();
    match &convs[0].mapping[0].1.message.as_ref().unwrap().content.inner {
        ContentInner::TextObject { parts } => assert_eq!(parts, &vec!["p".to_string()]),
        _ => panic!("expected the multi-part shape"),
    }
    // a malformed parts list falls back to the text field
    let fallback = "{\"content_type\":\"text\",\"parts\":[1],\"text\":\"t\"}";
    let m = message("m1", "user", fallback, "finished_successfully", "");
    let doc = format!("[{}]", conv_json(&msg_node("n1", &m)));
    let convs = decode_conversations_str(&doc).unwrap();
    match &convs[0].mapping[0].1.message.as_ref().unwrap().content.inner {
        ContentInner::TextField { text } => assert_eq!(text, "t"),
        _ => panic!("expected the single-text shape"),
    }
    // with neither, the empty shape absorbs the object
    let neither = "{\"content_type\":\"thoughts\",\"other\":1}";
    let m = message("m1", "user", neither, "finished_successfully", "");
    let doc = format!("[{}]", conv_json(&msg_node("n1", &m)));
    let convs = decode_conversations_str(&doc).unwrap();
    assert!(matches!(
        convs[0].mapping[0].1.message.as_ref().unwrap().content.inner,
        ContentInner::Empty {}
    ));
}

#[test]
fn metadata_round_trip_both_spellings() {
    for spelling in ["cite_metadata", "_cite_metadata"] {
        let meta = format!(
            "\"{}\":{{\"citation_format\":{{\"kind\":\"tether\"}},\"metadata_list\":[{{\"type\":\"webpage\",\"title\":\"page\",\"url\":\"https://example.com\",\"text\":\"quoted\",\"extra\":{{\"cited_message_idx\":3,\"evidence_text\":\"ev\"}}}}]}},\"user_context_message_data\":{{\"about_user_message\":\"me\"}},\"model_slug\":\"gpt-test\",\"custom\":[1,2]",
            spelling
        );
        let m = message(
            "m1",
            "user",
            "{\"content_type\":\"text\",\"text\":\"hi\"}",
            "finished_successfully",
            &meta,
        );
        let doc = format!("[{}]", conv_json(&msg_node("n1", &m)));
        let mut convs = decode_conversations_str(&doc).unwrap();
        let msg = convs
            .remove(0)
            .mapping
            .remove(0)
            .1
            .message
            .unwrap();
        let md = msg.metadata;
        let cite_before = md.cite_metadata.as_ref().map(|c| {
            (
                c.citation_format.clone(),
                c.metadata_list.len(),
                c.metadata_list[0].metadata_type.clone(),
                c.metadata_list[0].url.clone(),
            )
        });
        assert!(cite_before.is_some(), "citation metadata must be recognized");
        let reencoded = encode_message_metadata(md);
        let reparsed = chatstats::decode::d_meta(reencoded).expect("re-decoding must succeed");
        let cite_after = reparsed.cite_metadata.as_ref().map(|c| {
            (
                c.citation_format.clone(),
                c.metadata_list.len(),
                c.metadata_list[0].metadata_type.clone(),
                c.metadata_list[0].url.clone(),
            )
        });
        assert_eq!(cite_before, cite_after);
        assert_eq!(
            reparsed
                .user_context_message_data
                .as_ref()
                .unwrap()
                .about_user_message,
            "me"
        );
        assert_eq!(reparsed.other.len(), 2);
        // the parser keeps object entries sorted by key
        assert_eq!(reparsed.other[0].0, "custom");
        assert_eq!(reparsed.other[1].0, "model_slug");
    }
}

#[test]
fn malformed_archives_are_reported() {
    assert_eq!(
        decode_conversations_str("not json").unwrap_err(),
        MalformedArchive::NotJson
    );
    assert_eq!(
        decode_conversations_str("{\"a\":1}").unwrap_err(),
        MalformedArchive::NotArray
    );
    let good = conv_json(
        "\"client-created-root\":{\"id\":\"client-created-root\",\"message\":null,\"parent\":null,\"children\":[]}",
    );
    let doc = format!("[{},{{\"title\":3}}]", good);
    assert_eq!(
        decode_conversations_str(&doc).unwrap_err(),
        MalformedArchive::BadRecord { index: 1 }
    );
    assert_eq!(
        decode_feedback_str("17").unwrap_err(),
        MalformedArchive::NotArray
    );
}

#[test]
fn optional_fields_decode_to_absence() {
    let node = "\"client-created-root\":{\"id\":\"client-created-root\",\"message\":null,\"parent\":null,\"children\":[]}";
    let doc = format!("[{}]", conv_json(node));
    let convs = decode_conversations_str(&doc).unwrap();
    let c = &convs[0];
    assert!(c.voice.is_none());
    assert!(c.gizmo_id.is_none());
    assert!(c.is_starred.is_none());
    assert!(c.plugin_ids.is_none());
    assert_eq!(c.title, "t");
    assert_eq!(c.create_time, key(1.5));
}

#[test]
fn async_status_accepts_both_shapes() {
    let node = "\"client-created-root\":{\"id\":\"client-created-root\",\"message\":null,\"parent\":null,\"children\":[]}";
    let int_doc = format!(
        "[{}]",
        conv_json(node).replace("\"title\":\"t\"", "\"async_status\":2,\"title\":\"t\"")
    );
    let convs = decode_conversations_str(&int_doc).unwrap();
    assert!(matches!(
        convs[0].async_status,
        Some(chatstats::model::AsyncStatus::Int(2))
    ));
    let str_doc = format!(
        "[{}]",
        conv_json(node).replace("\"title\":\"t\"", "\"async_status\":\"done\",\"title\":\"t\"")
    );
    let convs = decode_conversations_str(&str_doc).unwrap();
    match &convs[0].async_status {
        Some(chatstats::model::AsyncStatus::Str(s)) => assert_eq!(s, "done"),
        _ => panic!("expected the string shape"),
    }
}

#[test]
fn ordered_vec_sorts_by_count_descending() {
    let m1 = message(
        "m1",
        "user",
        "{\"content_type\":\"text\",\"text\":\"x y x\"}",
        "finished_successfully",
        "",
    );
    let doc = format!("[{}]", conv_json(&msg_node("n1", &m1)));
    let convs = decode_conversations_str(&doc).unwrap();
    let a = analyze_conversations(convs, now_sentinel()).unwrap();
    let lines = hashmap_to_ordered_vec(&a.words);
    assert_eq!(lines, vec!["x: 2".to_string(), "y: 1".to_string()]);
}

#[test]
fn words_trimming_uses_whitespace_trim() {
    let content = "{\"content_type\":\"text\",\"text\":\"tab\\there\"}";
    let m = message("m1", "user", content, "finished_successfully", "");
    let doc = format!("[{}]", conv_json(&msg_node("n1", &m)));
    let convs = decode_conversations_str(&doc).unwrap();
    let a = analyze_conversations(convs, now_sentinel()).unwrap();
    // the fragment has no spaces, so it is one token, trimmed at its ends only
    assert_eq!(a.words.get("tab\there"), 1);
    assert_eq!(a.words.len(), 1);
}
