use q_body::handler::{
    api_key_usable, context_id_for, direct_reply, final_reply, leak_patterns, llm_providers,
    provider_step, route_method, sanitize_err_reply, A2aMethod, LlmStep, ProviderChain,
    ProviderOutcome,
};
use q_body::json::JsonValue;

#[test]
fn test_clean_error_passes_through() {
    let msg = "Sorry, LLM request failed: connection refused";
    assert_eq!(sanitize_err_reply(msg), msg);
}

#[test]
fn test_internal_endpoint_url_is_scrubbed() {
    let out = sanitize_err_reply(
        "Sorry, LLM returned error 401: POST https://ark.cn-beijing.volces.com/api/plan/v3/chat/completions denied",
    );
    assert_eq!(out, "(internal error, details logged)");
}

#[test]
fn test_provider_domain_is_scrubbed() {
    let out = sanitize_err_reply("Sorry, request failed: dns error resolving ark.cn-beijing");
    assert_eq!(out, "(internal error, details logged)");
}

#[test]
fn test_config_key_name_is_scrubbed() {
    let out = sanitize_err_reply("Sorry, env ARK_API_KEY missing, request failed");
    assert_eq!(out, "(internal error, details logged)");
}

#[test]
fn test_bearer_credential_is_scrubbed() {
    let out = sanitize_err_reply("Sorry, request failed: header Bearer abc123");
    assert_eq!(out, "(internal error, details logged)");
}

#[test]
fn test_filesystem_path_is_scrubbed() {
    let out = sanitize_err_reply("Sorry, failed to parse LLM response: reading /home/ubuntu/.env");
    assert_eq!(out, "(internal error, details logged)");
}

#[test]
fn test_debug_escape_sequence_is_scrubbed() {
    let out = sanitize_err_reply(
        "Sorry, failed to parse LLM response: expected value at line \\\"1\\\"",
    );
    assert_eq!(out, "(internal error, details logged)");
}

#[test]
fn test_fallback_reply_has_no_config_key_name() {
    let reply = "q-body received: 'hi'. (LLM not configured — AI responses disabled)";
    assert!(!leak_patterns().iter().any(|p| reply.contains(p)));
}

#[test]
fn test_provider_chain_not_empty() {
    assert!(!llm_providers().is_empty());
}

#[test]
fn test_chain_head_keeps_ark_primary() {
    assert_eq!(llm_providers()[0].api_key_env, "ARK_API_KEY");
}

#[test]
fn test_chain_urls_are_https() {
    for p in llm_providers() {
        assert!(p.api_url.starts_with("https://"), "{} must be https", p.name);
    }
}

#[test]
fn test_chain_names_unique() {
    let mut names: Vec<_> = llm_providers().iter().map(|p| p.name).collect();
    let n = names.len();
    names.sort_unstable();
    names.dedup();
    assert_eq!(names.len(), n);
}

#[test]
fn test_env_names_are_key_names_only() {
    for p in llm_providers() {
        assert!(
            p.api_key_env.ends_with("_KEY") || p.api_key_env.ends_with("_TOKEN"),
            "{} stores more than a key name",
            p.name
        );
    }
}

#[test]
fn test_chain_models_nonempty() {
    for p in llm_providers() {
        assert!(!p.model.is_empty());
        assert!(!p.api_url.is_empty());
    }
}

fn obj(fields: Vec<(&str, JsonValue)>) -> JsonValue {
    JsonValue::Object(fields.into_iter().map(|(k, v)| (k.to_string(), v)).collect())
}

#[test]
fn success_answer_gives_its_content() {
    let body = obj(vec![(
        "choices",
        JsonValue::Array(vec![obj(vec![(
            "message",
            obj(vec![("content", JsonValue::String("hello there".to_string()))]),
        )])]),
    )]);
    let p = llm_providers()[0];
    let step = provider_step(
        &p,
        &ProviderOutcome::Answered { success: true, status: "200 OK".to_string(), body },
    );
    assert_eq!(step, LlmStep::Reply("hello there".to_string()));
}

#[test]
fn success_without_content_gives_placeholder() {
    let p = llm_providers()[0];
    let step = provider_step(
        &p,
        &ProviderOutcome::Answered { success: true, status: "200 OK".to_string(), body: obj(vec![]) },
    );
    assert_eq!(step, LlmStep::Reply("(empty response from LLM)".to_string()));
}

#[test]
fn error_answer_fails_over_with_message() {
    let body = obj(vec![("error", obj(vec![("message", JsonValue::String("quota".to_string()))]))]);
    let p = llm_providers()[0];
    let step = provider_step(
        &p,
        &ProviderOutcome::Answered { success: false, status: "429 Too Many Requests".to_string(), body },
    );
    assert_eq!(step, LlmStep::FailOver("Sorry, LLM returned error 429 Too Many Requests: quota".to_string()));
}

#[test]
fn unconfigured_provider_fails_over() {
    let p = llm_providers()[0];
    match provider_step(&p, &ProviderOutcome::NotConfigured) {
        LlmStep::FailOver(m) => assert!(m.ends_with(" not configured")),
        other => panic!("unexpected {:?}", other),
    }
    match provider_step(&p, &ProviderOutcome::RequestFailed("timeout".to_string())) {
        LlmStep::FailOver(m) => assert_eq!(m, "Sorry, LLM request failed: timeout"),
        other => panic!("unexpected {:?}", other),
    }
}

#[test]
fn final_reply_sanitizes_last_error() {
    assert_eq!(final_reply(None), "LLM provider chain is empty");
    assert_eq!(final_reply(Some("Sorry, LLM request failed: timeout")), "Sorry, LLM request failed: timeout");
    assert_eq!(
        final_reply(Some("Sorry, env ARK_API_KEY missing")),
        "(internal error, details logged)"
    );
}

#[test]
fn direct_reply_without_key_echoes_text() {
    assert_eq!(
        direct_reply("hi", &ProviderOutcome::NotConfigured),
        "q-body received: 'hi'. (LLM not configured — AI responses disabled)"
    );
    assert!(!direct_reply("hi", &ProviderOutcome::NotConfigured).contains("ARK_API_KEY")
    );
    assert_eq!(
        direct_reply("hi", &ProviderOutcome::BodyUnreadable("eof".to_string())),
        "Sorry, failed to parse LLM response: eof"
    );
}

#[test]
fn methods_route_by_either_name() {
    assert_eq!(route_method("SendMessage"), Some(A2aMethod::SendMessage));
    assert_eq!(route_method("message/send"), Some(A2aMethod::SendMessage));
    assert_eq!(route_method("tasks/send"), Some(A2aMethod::SendMessage));
    assert_eq!(route_method("tasks/get"), Some(A2aMethod::GetTask));
    assert_eq!(route_method("ListTasks"), Some(A2aMethod::ListTasks));
    assert_eq!(route_method("Nope"), None);
}

#[test]
fn api_keys_must_not_be_blank() {
    assert!(api_key_usable(Some("k")));
    assert!(!api_key_usable(Some("   ")));
    assert!(!api_key_usable(None));
}

#[test]
fn context_id_takes_eight_bytes() {
    assert_eq!(context_id_for("12345678-aaaa"), "ctx-12345678");
    assert_eq!(context_id_for("test-1"), "ctx-test-1");
    assert_eq!(context_id_for("任务任务"), "ctx-任务");
}

#[test]
fn provider_chain_first_reply_wins_else_last_error() {
    let mut chain = ProviderChain::new();
    assert_eq!(chain.advance(LlmStep::FailOver("first down".into())), None);
    assert_eq!(chain.advance(LlmStep::Reply("hello".into())), Some("hello".to_string()));

    let mut failing = ProviderChain::new();
    assert_eq!(failing.advance(LlmStep::FailOver("one".into())), None);
    assert_eq!(failing.advance(LlmStep::FailOver("Sorry, LLM request failed: timeout".into())), None);
    assert_eq!(failing.finish(), "Sorry, LLM request failed: timeout");

    let mut leaking = ProviderChain::new();
    assert_eq!(leaking.advance(LlmStep::FailOver("env ARK_API_KEY missing".into())), None);
    assert_eq!(leaking.finish(), "(internal error, details logged)");

    assert_eq!(ProviderChain::new().finish(), "LLM provider chain is empty");
}
