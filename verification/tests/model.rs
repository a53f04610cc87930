//! Backends, JSON, and the local model's bookkeeping.
use tux::backend::{
    copy_messages, from_kind, role_name, strip_thinking, AnyBackend, Backend, BackendKind, ChatMessage,
    CompletionRequest, MockBackend, OpenAICompatBackend, Role, ScriptedBackend,
};
use tux::json::{Json, ObjectBuilder};
use tux::llama::{
    check_projector, check_vision, plan_prompt, render_chatml, render_chatml_with_images,
    token_budget, usable_request, wrap_i32, BatchToken, LlamaCppBackend, SampleStep, Sampling,
    TokenCache,
};

fn message(role: Role, content: &str) -> ChatMessage {
    ChatMessage { role, content: content.to_string() }
}

#[test]
fn mock_repeats_the_last_user_message() {
    let req = CompletionRequest::new(vec![
        message(Role::User, "first"),
        message(Role::User, " second "),
        message(Role::Assistant, "third"),
    ]);
    assert_eq!(MockBackend.complete(req).unwrap().text, "[mock] you asked: second");
    let none = CompletionRequest::new(vec![message(Role::System, "x")]);
    assert_eq!(MockBackend.complete(none).unwrap().text, "[mock] you asked: ");
    assert_eq!(MockBackend.name(), "mock");
}

#[test]
fn scripted_answers_in_order_and_remembers() {
    let mut b = ScriptedBackend::new(vec!["a".to_string(), "b".to_string()]);
    let ask = |text: &str| CompletionRequest::new(vec![message(Role::User, text)]);
    assert_eq!(b.complete(ask("1")).unwrap().text, "a");
    assert_eq!(b.complete(ask("2")).unwrap().text, "b");
    assert_eq!(
        b.complete(ask("3")).unwrap_err().message,
        "ScriptedBackend ran out of responses"
    );
    let asked: Vec<&str> = b.calls().iter().map(|c| c.messages[0].content.as_str()).collect();
    assert_eq!(asked, vec!["1", "2", "3"]);
    assert_eq!(b.name(), "scripted");
}

#[test]
fn requests_carry_images() {
    let req = CompletionRequest::new(copy_messages(&vec![message(Role::User, "x")]));
    assert_eq!((req.max_tokens, req.images.len()), (512, 0));
    let req = req.with_images(vec!["i".to_string()]);
    assert_eq!(req.images, vec!["i".to_string()]);
    assert_eq!(req.messages[0].content, "x");
}

#[test]
fn thinking_is_stripped() {
    for (text, want) in [
        ("plain ", "plain"),
        ("<think>\nhm\n</think>\n\nanswer", "answer"),
        ("a<think>b</think>c<think>d</think>e", "ace"),
        ("leak</think> answer", "leak answer"),
        ("<think>never closed", "<think>never closed"),
        ("</think>a<think>b", "a<think>b"),
        ("</think>a<think>b</think>c", "ac"),
        ("x</think>y<think>z</think>w</think>v", "xywv"),
        ("<thi<think>x</think>nk>y</think>z", "z"),
        ("<think><think>a</think>b</think>c", "bc"),
        ("</thi</think>nk>", "</think>"),
    ] {
        assert_eq!(strip_thinking(text), want, "{text:?}");
    }
}

fn service(key: Option<&str>) -> OpenAICompatBackend {
    OpenAICompatBackend::new(
        "http://host:11434//".to_string(),
        "m".to_string(),
        key.map(|k| k.to_string()),
    )
}

#[test]
fn service_is_asked() {
    let b = service(Some("k"));
    assert_eq!(b.endpoint(), "http://host:11434/v1/chat/completions");
    assert_eq!(b.authorization(), Some("Bearer k".to_string()));
    assert_eq!(service(None).authorization(), None);
    let req = CompletionRequest::new(vec![message(Role::System, "s"), message(Role::Tool, "t")]);
    assert_eq!(
        b.request_body(&req).render(),
        r#"{"max_tokens":512,"messages":[{"content":"s","role":"system"},{"content":"t","role":"tool"}],"model":"m","stream":false}"#
    );
    assert_eq!(role_name(Role::User), "user");
    assert_eq!(role_name(Role::Assistant), "assistant");
}

#[test]
fn service_is_read() {
    let body = r#"{"choices":[{"message":{"content":"<think>x</think> hi "}}]}"#;
    assert_eq!(OpenAICompatBackend::read_body(body.as_bytes()).unwrap().text, "hi");
    let odd = r#"{ "choices": [] }"#;
    assert_eq!(
        OpenAICompatBackend::read_body(odd.as_bytes()).unwrap_err().message,
        r#"unexpected API response shape: {"choices":[]}"#
    );
    for bad in [&b"{"[..], &b"<html>"[..], &b""[..], &b"\"\xff\""[..]] {
        let why = serde_json::from_slice::<serde_json::Value>(bad).unwrap_err();
        assert_eq!(
            OpenAICompatBackend::read_body(bad).unwrap_err().message,
            format!("error decoding response body: {why}")
        );
    }
    assert!(OpenAICompatBackend::read_reply(&Json::Null).is_err());
}

#[test]
fn backends_are_made_by_kind() {
    assert!(matches!(from_kind(BackendKind::Mock, 8, false), Ok(AnyBackend::Mock(_))));
    let remote = BackendKind::OpenAICompat {
        url: "u/".to_string(),
        model: "m".to_string(),
        api_key: None,
    };
    match from_kind(remote, 8, false) {
        Ok(AnyBackend::OpenAICompat(b)) => assert_eq!(b.base_url, "u"),
        other => panic!("{other:?}"),
    }
    let local = |ctx_size, batch_size| BackendKind::LlamaCpp {
        model_path: "/m".to_string(),
        mmproj_path: None,
        n_threads: 0,
        ctx_size,
        n_gpu_layers: 99,
        batch_size,
    };
    match from_kind(local(0, 0), 8, true) {
        Ok(AnyBackend::LlamaCpp(b)) => {
            assert_eq!((b.n_threads, b.ctx_size, b.n_gpu_layers, b.batch_size), (8, 4096, 99, 1));
            assert_eq!(b.name(), "llama.cpp");
        }
        other => panic!("{other:?}"),
    }
    assert_eq!(
        from_kind(local(1, 1), 8, false).unwrap_err().message,
        "model file does not exist: /m"
    );
    let b = LlamaCppBackend::new("/m".to_string(), 4, true).unwrap();
    assert_eq!((b.n_threads, b.ctx_size, b.batch_size), (4, 4096, 512));
}

#[test]
fn chatml_is_exact() {
    let messages = vec![
        message(Role::System, "s \n"),
        message(Role::User, "u"),
        message(Role::Assistant, "a"),
    ];
    assert_eq!(
        render_chatml(&messages),
        "<|im_start|>system\ns<|im_end|>\n<|im_start|>user\nu<|im_end|>\n<|im_start|>assistant\na<|im_end|>\n<|im_start|>assistant\n<think>\n\n</think>\n\n"
    );
    let with = render_chatml_with_images(&messages, 2, "<M>");
    assert!(with.contains("<|im_start|>user\nu\n<M>\n<M><|im_end|>\n"));
    assert_eq!(render_chatml_with_images(&messages, 0, "<M>"), render_chatml(&messages));
}

#[test]
fn budgets_and_refusals() {
    assert_eq!(token_budget(512), 512);
    assert_eq!(token_budget(3), 16);
    assert_eq!(token_budget(4294967295), 16);
    assert_eq!(wrap_i32(4294967296 + 7), 7);
    assert_eq!(wrap_i32(4294967295), -1);
    assert_eq!(
        check_projector("/p", false).unwrap_err().message,
        "mmproj file does not exist: /p"
    );
    assert!(check_projector("/p", true).is_ok());
    assert_eq!(
        check_vision("/p", false).unwrap_err().message,
        "mmproj does not support vision: /p"
    );
    assert!(check_vision("/p", true).is_ok());
}

#[test]
fn images_are_ignored_without_a_projector() {
    let req = || {
        CompletionRequest::new(vec![message(Role::User, "look")])
            .with_images(vec!["/a.png".to_string(), "/b.png".to_string()])
    };
    let kept = usable_request(req(), true);
    assert_eq!(kept.images, vec!["/a.png".to_string(), "/b.png".to_string()]);
    let bare = usable_request(req(), false);
    assert!(bare.images.is_empty());
    assert_eq!(bare.messages[0].content, "look");
    assert_eq!(bare.max_tokens, 512);
}

#[test]
fn prompt_reuses_what_is_cached() {
    let plan = plan_prompt(&vec![1, 2, 3, 4], &vec![1, 2, 9], 20, 64, 512).unwrap();
    assert_eq!((plan.prefix, plan.drop_tail, plan.batch_cap), (2, true, 512));
    assert_eq!(plan.batch, vec![BatchToken { token: 9, pos: 2, logits: true }]);
    let plan = plan_prompt(&vec![1, 2], &vec![1, 2], 20, 64, 1).unwrap();
    assert_eq!((plan.prefix, plan.drop_tail, plan.batch.len()), (1, true, 1));
    let plan = plan_prompt(&vec![], &vec![5, 6], 20, 22, 1).unwrap();
    assert_eq!((plan.prefix, plan.drop_tail, plan.batch_cap), (0, false, 2));
    assert!(!plan.batch[0].logits && plan.batch[1].logits);
    assert_eq!(
        plan_prompt(&vec![], &vec![5, 6], 20, 21, 1).unwrap_err().message(),
        "prompt + max_tokens (22) exceeds context window (21)"
    );
}

#[test]
fn cache_holds_the_prompt_afterwards() {
    let mut cache = TokenCache::new();
    for prompt in [vec![1, 2, 3], vec![1, 2, 9, 9], vec![1, 2, 9, 9], vec![7]] {
        let plan = cache.plan(&prompt, 16, 64, 512).unwrap();
        if plan.drop_tail {
            cache.drop_tail(plan.prefix);
        }
        cache.record_prompt(&plan);
        let again = cache.plan(&prompt, 16, 64, 512).unwrap();
        assert_eq!(again.prefix, prompt.len() - 1);
        assert!(again.drop_tail);
    }
    cache.record_token(8);
    assert_eq!(cache.plan(&vec![7, 8, 9], 16, 64, 512).unwrap().prefix, 2);
    cache.forget();
    assert_eq!(cache.plan(&vec![7, 8, 9], 16, 64, 512).unwrap().prefix, 0);
}

#[test]
fn sampling_stops_at_the_end_of_the_turn() {
    let mut s = Sampling::begin(10, 16);
    assert!(s.wants_token());
    assert_eq!(s.on_token(false, " hi <|im"), SampleStep::Decode { pos: 10 });
    assert_eq!(s.on_token(false, "_end|> rest"), SampleStep::Stop);
    assert_eq!(s.finish(), "hi");
    let mut s = Sampling::begin(0, 1);
    assert_eq!(s.on_token(false, "a"), SampleStep::Decode { pos: 0 });
    assert_eq!(s.on_token(false, "b"), SampleStep::Decode { pos: 1 });
    assert!(!s.wants_token());
    assert_eq!(s.finish(), "ab");
    let mut s = Sampling::begin(0, 16);
    assert_eq!(s.on_token(true, "x"), SampleStep::Stop);
    assert_eq!(s.finish(), "");
}

#[test]
fn json_is_read_and_written() {
    let j = Json::parse(r#" {"a":[1,-2,1.5,"x",null,true],"b":{"c":18446744073709551615}} "#).unwrap();
    assert_eq!(
        j.render(),
        r#"{"a":[1,-2,1.5,"x",null,true],"b":{"c":18446744073709551615}}"#
    );
    let a = j.get("a").unwrap();
    assert_eq!(a.nth(0).unwrap().as_u64(), Some(1));
    assert_eq!(a.nth(1).unwrap().as_u64(), None);
    assert_eq!(a.nth(2).unwrap().as_u64(), None);
    assert_eq!(a.nth(3).unwrap().as_str(), Some("x"));
    assert_eq!(a.nth(5).unwrap().as_bool(), Some(true));
    assert!(a.nth(6).is_none());
    assert_eq!(j.get("b").unwrap().get_u64("c"), Some(u64::MAX));
    assert!(j.get("z").is_none());
    assert!(a.get("a").is_none());
    assert_eq!(j.duplicate(), j);
    assert!(Json::parse("{").is_none());
    assert!(Json::parse("").is_none());
    let twice = Json::parse(r#"{"k":1,"k":2}"#).unwrap();
    assert_eq!(twice.get_u64("k"), Some(2));
}

#[test]
fn last_of_equal_keys_is_written() {
    let field = |k: &str, n: u64| (k.to_string(), Json::unsigned(n));
    let j = Json::Object(vec![field("a", 1), field("b", 2), field("a", 3), field("a", 4)]);
    assert_eq!(j.render(), r#"{"a":4,"b":2}"#);
    assert_eq!(j.get_u64("a"), Some(4));
}

#[test]
fn json_is_built() {
    let list = Json::text_array(&vec!["a".to_string(), "\"".to_string()]);
    let j = ObjectBuilder::new()
        .with("n", Json::unsigned(7))
        .with("s", Json::signed(-7))
        .with("l", list)
        .with("n", Json::Bool(false))
        .build();
    assert_eq!(j.get_bool("n"), Some(false));
    assert_eq!(j.get_str("n"), None);
    assert_eq!(j.get("s").unwrap().render(), "-7");
    assert_eq!(j.get("l").unwrap().render(), r#"["a","\""]"#);
    assert_eq!(j.render(), r#"{"l":["a","\""],"n":false,"s":-7}"#);
}
