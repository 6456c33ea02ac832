use semantic_memory_mcp::http::{
    accept_line, admit_connection, carries_token, is_loopback_authority, is_loopback_origin,
    normalize_http_auth_token, parse_request_line, plan_serving, resolve_http_auth_token,
    response_head, route, utf8_length, valid_port, Admission, HeadStep, RequestHead, Route,
    TokenFile, MAX_BODY_SIZE, MAX_REQUEST_LINE_BYTES,
};
use semantic_memory_mcp::audit::check_envelope;
use semantic_memory_mcp::auto_edges::{
    auto_edge_reply, content_terms, plan_auto_edges, rebuild_request, ScannedFact,
};
use semantic_memory_mcp::graph_tools::StoredEdge;
use semantic_memory_mcp::http_writes::{deletion_reply, deletion_request, edge_reply, edge_request};
use semantic_memory_mcp::http_api::{
    add_refused, bounded_top_k, discord_request, failure, finish_discord, finish_outcome,
    finish_rerank, finish_search, health, index_maintenance_skipped, integrity_failed,
    integrity_reply, maintenance_check_failed, maintenance_check_reply, not_found,
    operation_failed, outcome_request, reconcile_reply, reconcile_request, reembed_reply,
    rerank_request, routed_request, search_request, search_results, vacuum_reply,
    DiscordRequest, HttpStatus, IntegrityReport, ReconcileAction, Reply, RoutingOutcome,
    MAX_TOP_K,
};
use semantic_memory_mcp::json::{parse_document, write_document, Json};
use semantic_memory_mcp::profile::ToolProfile;
use semantic_memory_mcp::routing::{default_route, DiscordHit};
use semantic_memory_mcp::search::{HitSource, SearchHit};
use semantic_memory_mcp::tools::EdgeType;
use serde_json::Value;

fn value(document: &Json) -> Value {
    serde_json::from_str(&write_document(document)).unwrap()
}

/// Serves one request as a connection does, over an empty store.
fn exchange(profile: ToolProfile, request: &str) -> String {
    let mut lines = request.split_inclusive("\r\n");
    let request_line = lines.next().unwrap();
    assert!(accept_line(
        request_line.len(),
        MAX_REQUEST_LINE_BYTES,
        request_line
    ));
    let (method, path) = parse_request_line(request_line).unwrap();
    let mut head = RequestHead::new(request_line);
    let mut seen = request_line.len();
    let head = loop {
        let line = lines.next().unwrap();
        seen += line.len();
        assert!(accept_line(line.len(), head.remaining(), line));
        match head.step(line) {
            HeadStep::Next(next) => head = next,
            HeadStep::End(complete) => break complete,
            HeadStep::TooLarge => return Admission::HeaderFieldsTooLarge.refusal().unwrap(),
            HeadStep::Abort => return String::new(),
        }
    };
    let admission = head.admission("test-token");
    if let Some(refusal) = admission.refusal() {
        return refusal;
    }
    let body = &request[seen..];
    let reply = match route(&method, &path, profile) {
        Route::Health => health(),
        Route::Add => add_refused(),
        Route::NotFound => not_found(&path),
        Route::Search => match search_request(body) {
            Ok(search) => finish_search(&search, vec![], &vec![]),
            Err(reply) => reply,
        },
        Route::RecordOutcome => match outcome_request(body) {
            Ok(outcome) => finish_outcome(
                &outcome,
                &default_route(&outcome.query),
                1,
                Json::Decimal("0.5".to_string()),
            ),
            Err(reply) => reply,
        },
        _ => panic!("this route needs a store"),
    };
    let text = write_document(&reply.body);
    format!("{}{}", response_head(reply.status.line(), text.len()), text)
}

fn http_get(profile: ToolProfile, path: &str) -> (String, String) {
    let response = exchange(
        profile,
        &format!(
            "GET {} HTTP/1.1\r\nHost: 127.0.0.1\r\nAuthorization: Bearer test-token\r\nConnection: close\r\n\r\n",
            path
        ),
    );
    let body = response
        .find("\r\n\r\n")
        .map(|i| response[i + 4..].to_string())
        .unwrap_or_default();
    (response, body)
}

fn http_post(profile: ToolProfile, path: &str, body: &str) -> (String, String) {
    let response = exchange(
        profile,
        &format!(
            "POST {} HTTP/1.1\r\nHost: 127.0.0.1\r\nAuthorization: Bearer test-token\r\nContent-Type: application/json\r\nContent-Length: {}\r\nConnection: close\r\n\r\n{}",
            path,
            body.len(),
            body
        ),
    );
    let body = response
        .find("\r\n\r\n")
        .map(|i| response[i + 4..].to_string())
        .unwrap_or_default();
    (response, body)
}

#[test]
fn health_endpoint_returns_ok() {
    let (response, body) = http_get(ToolProfile::Full, "/health");
    assert!(
        response.contains("200 OK"),
        "health should return 200, got: {}",
        response
    );
    let json: Value = serde_json::from_str(&body).expect("valid JSON");
    assert_eq!(json["ok"], Value::Bool(true));
    assert_eq!(json["service"], "semantic-memory-mcp");
}

#[test]
fn routing_feedback_response_is_mutating_proxy_label() {
    let (_, body) = http_post(
        ToolProfile::Full,
        "/record-outcome",
        r#"{"query":"test query","outcome":"good"}"#,
    );
    let json: Value = serde_json::from_str(&body).expect("valid JSON");
    assert_eq!(json["mutating"], true);
    assert_eq!(json["feedback"]["kind"], "ProxyLabel");
    assert_eq!(json["feedback"]["label"], "good");
    assert!(json.get("outcome").is_none());
}

#[test]
fn http_add_fails_closed_without_trusted_authority_issuer() {
    let (add_response, add_body) = http_post(
        ToolProfile::Full,
        "/add",
        r#"{"content": "Hermes Agent is a CLI AI agent by Nous Research.", "namespace": "test"}"#,
    );
    let add_json: Value = serde_json::from_str(&add_body).expect("valid JSON");
    assert!(
        add_response.contains("503 Service Unavailable"),
        "got: {add_response}"
    );
    assert_eq!(add_json["ok"], false);
    assert!(add_json["error"]
        .as_str()
        .unwrap_or_default()
        .contains("trusted authenticated authority issuer"));
}

#[test]
fn unknown_path_returns_404() {
    let (response, body) = http_get(ToolProfile::Full, "/nonexistent");
    assert!(
        response.contains("404 Not Found"),
        "unknown path should 404"
    );
    let json: Value = serde_json::from_str(&body).expect("valid JSON");
    assert_eq!(json["error"], "not found");
    assert_eq!(json["path"], "/nonexistent");
}

#[test]
fn search_with_empty_query_returns_400() {
    let (response, body) = http_post(ToolProfile::Full, "/search", r#"{"query": ""}"#);
    assert!(
        response.contains("400 Bad Request"),
        "empty query should 400"
    );
    let json: Value = serde_json::from_str(&body).expect("valid JSON");
    assert_eq!(json["ok"], Value::Bool(false));
    assert_eq!(json["error"], "missing 'query' field");
}

#[test]
fn lean_http_exposes_only_safe_manifest_routes() {
    for (method, path, body) in [
        ("POST", "/search", r#"{"query":"x"}"#),
        ("POST", "/search-routed", r#"{"query":"x"}"#),
        ("POST", "/rerank", r#"{"query":"x","results":[]}"#),
        ("GET", "/verify-integrity", ""),
        ("POST", "/discord", r#"{"query":"x"}"#),
        ("POST", "/add", r#"{}"#),
        ("POST", "/maintenance/check", "{}"),
    ] {
        let (response, _) = if method == "GET" {
            http_get(ToolProfile::Lean, path)
        } else {
            http_post(ToolProfile::Lean, path, body)
        };
        assert!(
            response.contains("404 Not Found"),
            "{method} {path}: {response}"
        );
    }
    assert!(http_get(ToolProfile::Lean, "/health").0.contains("200 OK"));
}

#[test]
fn http_search_rejects_unbounded_top_k_and_does_not_claim_verification() {
    let (response, _) = http_post(
        ToolProfile::Full,
        "/search",
        r#"{"query":"x","top_k":18446744073709551615}"#,
    );
    assert!(response.contains("400 Bad Request"), "{response}");
    assert!(http_get(ToolProfile::Full, "/health").0.contains("200 OK"));

    let (_, body) = http_post(ToolProfile::Full, "/search", r#"{"query":"x"}"#);
    let json: Value = serde_json::from_str(&body).unwrap();
    assert_ne!(json["provenance"]["verification_status"], "verified");
    assert!(json["provenance"]["proof_reference"].is_null());
}

#[test]
fn http_rejects_request_without_authorization() {
    let response = exchange(
        ToolProfile::Full,
        "GET /health HTTP/1.1\r\nHost: 127.0.0.1\r\nConnection: close\r\n\r\n",
    );
    assert!(
        response.contains("401 Unauthorized"),
        "expected 401, got: {response}"
    );
}

#[test]
fn http_rejects_request_with_wrong_token() {
    let response = exchange(
        ToolProfile::Full,
        "GET /health HTTP/1.1\r\nHost: 127.0.0.1\r\nAuthorization: Bearer wrong\r\nConnection: close\r\n\r\n",
    );
    assert!(
        response.contains("401 Unauthorized"),
        "expected 401, got: {response}"
    );
}

#[test]
fn http_rejects_lookalike_host() {
    let response = exchange(
        ToolProfile::Full,
        "GET /health HTTP/1.1\r\nHost: localhost.evil\r\nAuthorization: Bearer test-token\r\nConnection: close\r\n\r\n",
    );
    assert!(response.contains("403 Forbidden"), "got: {response}");
}

fn token_file(content: &str) -> TokenFile {
    TokenFile {
        path: "token".to_string(),
        content: Ok(content.to_string()),
    }
}

#[test]
fn unreadable_token_files_matter_where_they_decide() {
    let unreadable = TokenFile {
        path: "/run/token".to_string(),
        content: Err("permission denied".to_string()),
    };
    assert_eq!(
        resolve_http_auth_token(None, Some(&unreadable)),
        Err("failed to read /run/token: permission denied".to_string())
    );
    assert_eq!(
        resolve_http_auth_token(Some(" explicit "), Some(&unreadable)),
        Ok(Some("explicit".to_string()))
    );
}

#[test]
fn token_file_trims_surrounding_whitespace() {
    let token = resolve_http_auth_token(None, Some(&token_file("  file-token\n")))
        .expect("valid token file")
        .expect("resolved token");
    assert_eq!(token, "file-token");
}

#[test]
fn explicit_token_precedes_token_file() {
    let token = resolve_http_auth_token(Some("explicit-token"), Some(&token_file("file-token\n")))
        .expect("valid explicit token")
        .expect("resolved token");
    assert_eq!(token, "explicit-token");
}

#[test]
fn token_file_rejects_internal_whitespace() {
    let error = resolve_http_auth_token(None, Some(&token_file("first\nsecond\n")))
        .expect_err("multiline token must fail");
    assert!(error.contains("contains whitespace"));
}

#[test]
fn missing_token_sources_resolve_to_none() {
    assert!(resolve_http_auth_token(None, None)
        .expect("missing token is not a parse error")
        .is_none());
}

#[test]
fn tokens_are_named_by_their_source() {
    assert_eq!(
        normalize_http_auth_token(" \t ", "--http-auth-token"),
        Err("HTTP authorization token from --http-auth-token is empty".to_string())
    );
    assert_eq!(
        normalize_http_auth_token("a b", "/etc/token"),
        Err("HTTP authorization token from /etc/token contains whitespace".to_string())
    );
    let once = normalize_http_auth_token("\u{2003}abc\u{a0}", "x").unwrap();
    assert_eq!(once, "abc");
    assert_eq!(normalize_http_auth_token(&once, "x").unwrap(), once);
}

#[test]
fn serving_needs_a_token_for_http() {
    let refused = plan_serving(false, Some(1738), false, Ok(None)).err().unwrap();
    assert!(refused.starts_with("--http-port requires --http-auth-token"));
    let broken = plan_serving(false, Some(1738), false, Err("no file".to_string()))
        .err()
        .unwrap();
    assert_eq!(broken, "no file");
    let both = plan_serving(false, Some(1738), false, Ok(Some("t".to_string()))).ok().unwrap();
    assert_eq!(both.http, Some((1738, "t".to_string())));
    assert!(both.stdio);
    let alone = plan_serving(false, Some(1738), true, Ok(Some("t".to_string()))).ok().unwrap();
    assert!(!alone.stdio);
    let plain = plan_serving(false, None, false, Err("unused".to_string())).ok().unwrap();
    assert_eq!(plain.http, None);
    assert!(plain.stdio);
    let stable = plan_serving(true, None, true, Ok(None)).err().unwrap();
    assert!(stable.contains("unavailable in the compile-time stable build"));
    assert!(plan_serving(true, None, false, Ok(None)).ok().unwrap().stdio);
}

#[test]
fn bearer_tokens_are_compared_whole() {
    assert!(carries_token(&Some("Bearer abc".to_string()), "abc"));
    assert!(!carries_token(&Some("Bearer abcd".to_string()), "abc"));
    assert!(!carries_token(&Some("bearer abc".to_string()), "abc"));
    assert!(!carries_token(&None, ""));
}

#[test]
fn loopback_names_are_exact() {
    for good in [
        "localhost",
        "127.0.0.1",
        "[::1]",
        "localhost:1738",
        "127.0.0.1:1",
        "[::1]:65535",
    ] {
        assert!(is_loopback_authority(good), "{good}");
        assert!(is_loopback_origin(&format!("http://{good}")), "{good}");
        assert!(is_loopback_origin(&format!("https://{good}")), "{good}");
    }
    for bad in [
        "localhost.evil",
        "localhost:",
        "localhost:65536",
        "127.0.0.2",
        "::1",
        "LOCALHOST",
        "localhost:12a",
    ] {
        assert!(!is_loopback_authority(bad), "{bad}");
    }
    assert!(!is_loopback_origin("null"));
    assert!(!is_loopback_origin("ftp://localhost"));
    assert!(valid_port("80"));
    assert!(!valid_port("-1"));
}

#[test]
fn heads_are_bounded() {
    assert!(!accept_line(0, 10, ""));
    assert!(!accept_line(3, 10, "abc"));
    assert!(!accept_line(11, 10, "aaaaaaaaaa\n"));
    assert!(!accept_line(1, 0, "\n"));
    assert!(accept_line(2, 2, "a\n"));
    assert!(parse_request_line("GET\r\n").is_none());
    assert_eq!(
        parse_request_line("GET  /x HTTP/1.1\r\n"),
        Some(("GET".to_string(), "/x".to_string()))
    );
    let mut head = RequestHead::new("GET / HTTP/1.1\r\n");
    assert_eq!(head.remaining(), 16_384 - 16);
    for _ in 0..64 {
        head = match head.step("A: b\r\n") {
            HeadStep::Next(next) => next,
            _ => panic!("sixty-four fields are allowed"),
        };
    }
    assert!(matches!(head.step("A: b\r\n"), HeadStep::TooLarge));
    let wide = format!("A: {}\r\n", "é".repeat(8_200));
    assert_eq!(utf8_length(&wide), 16_405);
    assert!(matches!(
        RequestHead::new("GET / HTTP/1.1\r\n").step(&wide),
        HeadStep::TooLarge
    ));
    assert!(matches!(
        RequestHead::new("GET / HTTP/1.1\r\n").step("no colon\r\n"),
        HeadStep::Abort
    ));
    assert!(matches!(
        RequestHead::new("GET / HTTP/1.1\r\n").step("Content-Length: many\r\n"),
        HeadStep::Abort
    ));
    assert!(admit_connection(31));
    assert!(!admit_connection(32));
}

#[test]
fn refusals_come_in_order() {
    let head = |length: usize, host: &str| RequestHead {
        bytes: 0,
        count: 0,
        content_length: length,
        authorization: Some("Bearer t".to_string()),
        host: Some(host.to_string()),
        origin: None,
    };
    assert_eq!(head(MAX_BODY_SIZE, "localhost").admission("t"), Admission::Admitted);
    assert_eq!(
        head(MAX_BODY_SIZE + 1, "localhost").admission("t"),
        Admission::PayloadTooLarge
    );
    assert_eq!(head(MAX_BODY_SIZE + 1, "else").admission("t"), Admission::Forbidden);
    assert_eq!(head(MAX_BODY_SIZE + 1, "else").admission("u"), Admission::Unauthorized);
    assert_eq!(
        Admission::PayloadTooLarge.refusal().unwrap(),
        "HTTP/1.1 413 Payload Too Large\r\nContent-Length: 0\r\nConnection: close\r\n\r\n"
    );
    assert!(Admission::Admitted.refusal().is_none());
}

#[test]
fn routes_follow_the_profile() {
    assert_eq!(route("POST", "/add", ToolProfile::Full), Route::Add);
    assert_eq!(route("POST", "/add", ToolProfile::Agent), Route::Add);
    assert_eq!(route("POST", "/add", ToolProfile::Stable), Route::NotFound);
    assert_eq!(route("POST", "/add-edge", ToolProfile::Full), Route::AddEdge);
    assert_eq!(route("POST", "/delete-fact", ToolProfile::Full), Route::DeleteFact);
    assert_eq!(
        route("POST", "/maintenance/auto-edge", ToolProfile::Full),
        Route::MaintenanceAutoEdge
    );
    for path in ["/add-edge", "/delete-fact", "/maintenance/auto-edge"] {
        assert_eq!(route("GET", path, ToolProfile::Full), Route::NotFound);
        assert_eq!(route("POST", path, ToolProfile::Lean), Route::NotFound);
        assert_eq!(route("POST", path, ToolProfile::Standard), Route::NotFound);
        assert_eq!(route("POST", path, ToolProfile::Stable), Route::NotFound);
    }
    assert_eq!(
        route("POST", "/maintenance/auto-edge", ToolProfile::Agent),
        Route::NotFound
    );
    assert_eq!(route("GET", "/search", ToolProfile::Full), Route::NotFound);
    assert_eq!(route("POST", "/search", ToolProfile::Agent), Route::Search);
    assert_eq!(
        route("POST", "/maintenance/vacuum", ToolProfile::Full),
        Route::MaintenanceVacuum
    );
    assert_eq!(
        route("POST", "/maintenance/vacuum", ToolProfile::Agent),
        Route::NotFound
    );
    assert_eq!(route("GET", "/health", ToolProfile::Standard), Route::Health);
}

#[test]
fn response_heads_count_bytes() {
    assert_eq!(
        response_head("200 OK", 12),
        "HTTP/1.1 200 OK\r\nContent-Type: application/json\r\nContent-Length: 12\r\nConnection: close\r\n\r\n"
    );
}

fn status_of(reply: &Reply) -> &'static str {
    reply.status.line()
}

#[test]
fn top_k_is_bounded() {
    let read = |text: &str| bounded_top_k(&parse_document(text).unwrap(), 5);
    assert_eq!(read("{}").ok().unwrap(), 5);
    assert_eq!(read(r#"{"top_k":100}"#).ok().unwrap() as u64, MAX_TOP_K);
    assert_eq!(read(r#"{"top_k":1}"#).ok().unwrap(), 1);
    for bad in [r#"{"top_k":0}"#, r#"{"top_k":101}"#, r#"{"top_k":"7"}"#, r#"{"top_k":-1}"#] {
        let reply = read(bad).err().unwrap();
        assert_eq!(status_of(&reply), "400 Bad Request", "{bad}");
    }
}

#[test]
fn search_requests_are_read() {
    let request = search_request(r#"{"query":"q","namespaces":["a","b"],"rerank":true,"top_k":30}"#)
        .ok()
        .unwrap();
    assert_eq!(request.query, "q");
    assert_eq!(request.top_k, 30);
    assert_eq!(request.namespaces, Some(vec!["a".to_string(), "b".to_string()]));
    assert!(request.rerank);
    assert_eq!(request.fetch_k, 50);
    let plain = search_request(r#"{"query":"q","namespaces":["a",1]}"#).ok().unwrap();
    assert_eq!(plain.namespaces, None);
    assert_eq!(plain.fetch_k, 5);
    let broken = search_request("{").err().unwrap();
    assert_eq!(status_of(&broken), "400 Bad Request");
    assert!(value(&broken.body)["error"].as_str().unwrap().starts_with("invalid JSON: "));
}

fn hit(id: &str, content: &str) -> SearchHit {
    SearchHit {
        result_id: format!("fact:{id}"),
        content: content.to_string(),
        score: Json::Decimal("0.5".to_string()),
        bm25_rank: Some(1),
        vector_rank: None,
        cosine_similarity: Json::Null,
        source: HitSource::Fact {
            fact_id: id.to_string(),
            namespace: "ns".to_string(),
        },
        source_text: "Fact".to_string(),
    }
}

#[test]
fn reranked_searches_are_sorted_and_cut() {
    let request = search_request(r#"{"query":"q","rerank":true,"top_k":2}"#).ok().unwrap();
    let results = search_results(&vec![hit("a", "one"), hit("b", "two"), hit("c", "three")]);
    let reply = finish_search(&request, results, &vec![Some(1), Some(5), Some(5)]);
    let json = value(&reply.body);
    assert_eq!(json["rerank_status"], "applied");
    assert_eq!(json["reranked"], true);
    assert_eq!(json["count"], 2);
    assert_eq!(json["results"][0]["result_id"], "fact:b");
    assert_eq!(json["results"][1]["result_id"], "fact:c");
    assert_eq!(json["results"][0]["rerank_score"], 5.0);
    assert_eq!(json["results"][0]["namespace"], "ns");
    assert_eq!(json["provenance"]["verification_status"], "unverified");
}

#[test]
fn rerank_endpoint_keeps_results_where_a_rating_is_missing() {
    let request = rerank_request(r#"{"query":"q","results":[{"content":"a"},{"content":"b"}]}"#)
        .ok()
        .unwrap();
    let json = value(&finish_rerank(&request, &vec![Some(2), None]).body);
    assert_eq!(json["rerank_status"], "degraded");
    assert_eq!(json["results"][0]["content"], "a");
    assert!(json["results"][0].get("rerank_score").is_none());
    let missing = rerank_request(r#"{"results":[]}"#).err().unwrap();
    assert_eq!(status_of(&missing), "400 Bad Request");
}

#[test]
fn outcomes_are_named_in_any_case() {
    let request = outcome_request(r#"{"query":"q","outcome":"GOOD"}"#).ok().unwrap();
    assert_eq!(request.outcome, RoutingOutcome::Good);
    assert_eq!(request.label, "GOOD");
    let unknown = outcome_request(r#"{"query":"q","outcome":"fine"}"#).err().unwrap();
    assert_eq!(status_of(&unknown), "400 Bad Request");
    assert!(outcome_request(r#"{"outcome":"good"}"#).is_err());
}

fn report() -> IntegrityReport {
    IntegrityReport {
        ok: false,
        schema_version: 9,
        fact_count: 3,
        chunk_count: 2,
        message_count: 1,
        facts_missing_embeddings: 1,
        chunks_missing_embeddings: 0,
        issues: vec!["fts".to_string()],
    }
}

#[test]
fn integrity_replies_say_what_was_found() {
    let json = value(&integrity_reply(&report()).body);
    assert_eq!(json["ok"], false);
    let check = value(&maintenance_check_reply(&report(), true).body);
    assert_eq!(check["embeddings_are_dirty"], true);
    assert_eq!(check["message"], "1 integrity issues found");
    assert_eq!(status_of(&integrity_failed("broken")), "500 Internal Server Error");
    let failed = value(&maintenance_check_failed(true, "broken").body);
    assert_eq!(failed["embeddings_are_dirty"], true);
    let request = reconcile_request(r#"{"action":"RebuildFts"}"#).ok().unwrap();
    assert_eq!(request.action, ReconcileAction::RebuildFts);
    let reconciled = value(&reconcile_reply(&request, &report()).body);
    assert_eq!(reconciled["action"], "reconcile");
    assert_eq!(reconciled["reconcile_action"], "RebuildFts");
    assert_eq!(reconciled["message"], "Reconciliation completed with 1 issues");
}

#[test]
fn maintenance_replies_are_fixed() {
    assert_eq!(value(&vacuum_reply().body)["ok"], true);
    let reembedded = value(&reembed_reply(7).body);
    assert_eq!(reembedded["ok"], true);
    assert!(write_document(&reembed_reply(7).body).contains('7'));
    let skipped = value(&index_maintenance_skipped("compact_hnsw", "nothing to do").body);
    assert_eq!(skipped["action"], "compact_hnsw");
    assert_eq!(skipped["message"], "nothing to do");
    let failed = operation_failed("vacuum error: ", "disk");
    assert_eq!(status_of(&failed), "500 Internal Server Error");
    assert_eq!(value(&failed.body)["error"], "vacuum error: disk");
    let refused = failure(HttpStatus::BadRequest, "no");
    assert_eq!(value(&refused.body)["error"], "no");
    assert_eq!(value(&refused.body)["ok"], false);
}

#[test]
fn discord_requests_have_bounded_anchors() {
    match discord_request(r#"{"direct_ids":["fact:a"]}"#).ok().unwrap() {
        DiscordRequest::Around(ids) => assert_eq!(ids, vec!["fact:a".to_string()]),
        DiscordRequest::AroundSearch { .. } => panic!("the anchors were given"),
    }
    match discord_request(r#"{"query":"q","top_k":3}"#).ok().unwrap() {
        DiscordRequest::AroundSearch { query, top_k } => {
            assert_eq!(query, "q");
            assert_eq!(top_k, 3);
        }
        DiscordRequest::Around(_) => panic!("no anchors were given"),
    }
    let many: Vec<String> = (0..101).map(|i| format!("\"{i}\"")).collect();
    let body = format!("{{\"direct_ids\":[{}]}}", many.join(","));
    assert!(discord_request(&body).is_err());
    let json = value(
        &finish_discord(
            &vec!["fact:a".to_string()],
            4,
            &vec![DiscordHit {
                item_id: "fact:b".to_string(),
                discord_score: Json::Decimal("0.25".to_string()),
                anchor_ids: vec!["fact:a".to_string()],
                relationship_types: vec!["entity".to_string()],
                fact: None,
            }],
        )
        .body,
    );
    assert_eq!(json["ok"], true);
    assert!(write_document(&parse_document(&json.to_string()).unwrap()).contains("fact:b"));
}

#[test]
fn routed_requests_are_read() {
    let request = routed_request(
        r#"{"query":"what is x","top_k":4,"contradictions":[["a","b"]],"group_by_community":true}"#,
    )
    .ok()
    .unwrap();
    assert_eq!(request.base_top_k, 4);
    assert_eq!(
        request.contradictions,
        vec![("a".to_string(), "b".to_string())]
    );
    assert!(request.group_by_community);
    assert!(routed_request(r#"{"query":""}"#).is_err());
}

fn edge_refusal(body: &str) -> String {
    let reply = edge_request(body).err().unwrap();
    assert_eq!(reply.status, HttpStatus::BadRequest);
    value(&reply.body)["error"].as_str().unwrap().to_string()
}

#[test]
fn edges_are_asked_for_over_http() {
    let request = edge_request(
        r#"{"source":"fact:a","target":"fact:b","edge_type":"causal","confidence":0.85,
            "evidence_ids":["fact:e1"],"weight":2,"metadata":"{\"why\":1}","relation":null}"#,
    )
    .ok()
    .unwrap();
    assert_eq!(request.source, "fact:a");
    assert_eq!(request.target, "fact:b");
    assert_eq!(request.edge_type, EdgeType::Causal);
    assert_eq!(value(&request.weight), 2);
    assert_eq!(value(request.details.confidence.as_ref().unwrap()), 0.85);
    assert_eq!(request.details.evidence_ids, Some(vec!["fact:e1".to_string()]));
    assert!(request.details.relation.is_none());
    assert_eq!(value(request.metadata.as_ref().unwrap())["why"], 1);
    let plain = edge_request(
        r#"{"source":"a","target":"b","edge_type":"Entity","relation":"belongs_to"}"#,
    )
    .ok()
    .unwrap();
    assert_eq!(plain.edge_type, EdgeType::Entity);
    assert_eq!(write_document(&plain.weight), "1.0");
    assert_eq!(plain.details.relation, Some("belongs_to".to_string()));
    let temporal = r#"{"source":"a","target":"b","edge_type":"temporal","delta_secs":60}"#;
    assert_eq!(edge_request(temporal).ok().unwrap().details.delta_secs, Some(60));
}

#[test]
fn faulty_edges_are_refused_over_http() {
    assert!(edge_refusal("no document").starts_with("invalid JSON: "));
    assert_eq!(edge_refusal("{}"), "missing 'source' field");
    assert_eq!(edge_refusal(r#"{"source":"a","target":""}"#), "missing 'target' field");
    assert_eq!(
        edge_refusal(r#"{"source":"a","target":"b","edge_type":"friend"}"#),
        "edge_type must be semantic, temporal, causal, or entity"
    );
    for (field, expected) in [
        (r#""weight":"1""#, "weight must be a number"),
        (r#""cosine_similarity":true"#, "cosine_similarity must be a number"),
        (r#""confidence":[]"#, "confidence must be a number"),
        (r#""delta_secs":-1"#, "delta_secs must be an unsigned integer"),
        (r#""evidence_ids":["a",1]"#, "evidence_ids must be a list of strings"),
        (r#""relation":5"#, "relation must be a string"),
        (r#""metadata":{}"#, "metadata must be a string"),
    ] {
        let body = format!(r#"{{"source":"a","target":"b","edge_type":"semantic",{field}}}"#);
        assert_eq!(edge_refusal(&body), expected);
    }
    let unread = r#"{"source":"a","target":"b","edge_type":"semantic","metadata":"{"}"#;
    assert!(edge_refusal(unread).starts_with("metadata is not valid JSON: "));
}

#[test]
fn edges_and_deletions_are_answered_over_http() {
    let edge = StoredEdge {
        id: "e1".to_string(),
        source: "fact:a".to_string(),
        target: "fact:b".to_string(),
        edge_type: "entity".to_string(),
        weight: Json::Decimal("1.0".to_string()),
        metadata: Json::Null,
        content_digest: Json::Null,
        recorded_at: "now".to_string(),
    };
    let reply = edge_reply(&edge, Json::Bool(true));
    assert_eq!(reply.status.line(), "200 OK");
    assert_eq!(value(&reply.body)["id"], "e1");
    assert_eq!(value(&reply.body)["receipt"], true);
    assert_eq!(deletion_request(r#"{"fact_id":"fact:f1"}"#).ok().unwrap(), "fact:f1");
    let refused = deletion_request(r#"{"fact_id":7}"#).err().unwrap();
    assert_eq!(value(&refused.body)["error"], "missing 'fact_id' field");
    let reply = deletion_reply("f1", Json::Bool(true));
    assert_eq!(reply.status.line(), "200 OK");
    assert_eq!(value(&reply.body)["fact_id"], "fact:f1");
    assert_eq!(value(&reply.body)["forgotten"], true);
}

#[test]
fn auto_edges_are_asked_for_over_http() {
    assert!(!rebuild_request(" \n").ok().unwrap());
    assert!(!rebuild_request("{}").ok().unwrap());
    assert!(rebuild_request(r#"{"rebuild":true}"#).ok().unwrap());
    assert!(!rebuild_request(r#"{"rebuild":"yes"}"#).ok().unwrap());
    assert_eq!(rebuild_request("{").err().unwrap().status, HttpStatus::BadRequest);
    let reply = value(&auto_edge_reply(true, 5, 2, 3).body);
    assert_eq!(reply["ok"], true);
    assert_eq!(reply["rebuild"], true);
    assert_eq!(reply["facts_scanned"], 5);
    assert_eq!(reply["edges_invalidated"], 2);
    assert_eq!(reply["edges_created"], 3);
}

#[test]
fn telling_terms_are_proper_nouns_camel_case_and_long_words() {
    assert_eq!(
        content_terms("Bob asked about the graphView, some scheduler; a cat and fooBar."),
        vec!["bob", "asked", "graphview", "scheduler", "foobar"]
    );
    assert!(content_terms("The cat sat. However, about which?").is_empty());
    let fact = |id: &str, namespace: &str, content: &str| ScannedFact {
        id: id.to_string(),
        namespace: namespace.to_string(),
        content: content.to_string(),
    };
    let facts = vec![
        fact("a", "notes", "Rust is quick"),
        fact("b", "Twitter", "rusty Rust"),
        fact("c", "coding", "learning Rust with scheduler"),
        fact("d", "coding", "the scheduler"),
    ];
    let plan = plan_auto_edges(&facts, &vec![]);
    let ends: Vec<(&str, &str)> =
        plan.iter().map(|e| (e.source.as_str(), e.target.as_str())).collect();
    assert_eq!(ends, vec![("fact:a", "fact:c"), ("fact:c", "fact:d")]);
    let joined = vec![("fact:c".to_string(), "fact:a".to_string())];
    assert_eq!(plan_auto_edges(&facts, &joined).len(), 1);
}

#[test]
fn envelopes_are_checked_before_they_are_imported() {
    assert!(check_envelope("{}").unwrap_err().starts_with("Failed to parse envelope JSON: "));
    let envelope = |version: &str, records: &str| {
        format!(
            r#"{{"envelope_id":"e1","schema_version":"{version}","content_digest":"d",
                "source_authority":"forge","trace_id":null,"namespace":"n","records":{records}}}"#
        )
    };
    let record = r#"[{"kind":"fact","content":"c","source":null,"metadata":null}]"#;
    assert_eq!(check_envelope(&envelope("v1", record)), Ok(()));
    let empty = check_envelope(&envelope("v1", "[]")).unwrap_err();
    assert!(empty.starts_with("Envelope validation failed: "));
    assert!(empty.contains("envelope must contain at least one record"));
    let unversioned = check_envelope(&envelope("", record)).unwrap_err();
    assert!(unversioned.contains("schema_version must not be empty"));
}
