use vericto::api::{
    answer, backoff_at, backoff_delay, check_all, check_requests, chunk_total, cli_login_exchange,
    collect_chunks, config, counts_fit, endpoint, extract_message, merge_responses, oidc_exchange,
    retry_step, rules_list, rules_show, split_notice, split_queries, try_once,
    urlencode_path_segment, version, ApiError, CheckParams, CheckResponse, ChunkOutcome,
    ConfigStep, OidcExchangeResult, Provenance, QueryInput, QueryResult, Receipt, RetryStep,
    RuleDetail, RuleSummary, RulesListResponse, Sent, Summary, Transport, VersionInfo,
    WorkspaceConfig, BACKOFF_BASE, MAX_QUERIES_PER_CALL, MAX_RETRIES,
};

#[test]
fn extracts_nested_envelope() {
    let body = r#"{"error":{"code":"UNAUTHORIZED","message":"API key inválida."}}"#;
    assert_eq!(extract_message(body), "API key inválida.");
}

#[test]
fn extracts_flat_error() {
    assert_eq!(extract_message(r#"{"error":"boom"}"#), "boom");
}

#[test]
fn falls_back_to_raw_body() {
    assert_eq!(extract_message("plain text error"), "plain text error");
}

#[test]
fn backoff_grows_exponentially_within_jitter() {
    // attempt 0 ≈ base, attempt 2 ≈ base*4; jitter adds <250ms, so bounds hold.
    let jitter_cap: u64 = 250;
    let d0 = backoff_delay(0);
    assert!(d0 >= BACKOFF_BASE && d0 < BACKOFF_BASE + jitter_cap);
    let d2 = backoff_delay(2);
    let base2 = BACKOFF_BASE * 4;
    assert!(d2 >= base2 && d2 < base2 + jitter_cap);
}

fn ok_body(total: u32, blocked: u32, remaining: i64, mode: &str) -> CheckResponse {
    let mut queries = Vec::new();
    for i in 0..total {
        queries.push(QueryResult {
            line: i + 1,
            sql_preview: "x".to_string(),
            status: if i < blocked { "BLOCKED" } else { "ALLOWED" }.to_string(),
            action: None,
            rule_code: None,
            ast_node_path: None,
            severity: None,
            suggested_fix: None,
        });
    }
    CheckResponse {
        summary: Summary {
            total,
            blocked,
            allowed: total - blocked,
            flagged: 0,
            monitored: 0,
            parse_errors: 0,
            ruleset_version: "v1".to_string(),
        },
        queries,
        exit_code: if blocked > 0 { 1 } else { 0 },
        ci_checks_remaining: Some(remaining),
        telemetry_query_mode: Some(mode.to_string()),
        min_cli_version: None,
        receipt: None,
        merged_receipts: Vec::new(),
        api_version_header: None,
    }
}

fn params() -> CheckParams {
    CheckParams {
        api_url: "https://api.example/".to_string(),
        api_key: "vtro_k".to_string(),
        dialect: "postgres".to_string(),
        file_name: None,
        provenance: None,
        transport: Transport {
            timeout_secs: 5,
            ca_bundle: None,
        },
        concurrency: 4,
        receipt: false,
    }
}

fn answered<T>(status: u16, decoded: T) -> Sent<T> {
    Sent::Answered {
        status,
        body: String::new(),
        decoded: Ok(decoded),
    }
}

fn refused<T>(status: u16, body: &str) -> Sent<T> {
    Sent::Answered {
        status,
        body: body.to_string(),
        decoded: Err("no data".to_string()),
    }
}

fn lines(n: u32) -> Vec<QueryInput> {
    let mut queries = Vec::new();
    for i in 0..n {
        queries.push(QueryInput {
            line: i + 1,
            sql: "DELETE FROM t".to_string(),
        });
    }
    queries
}

#[test]
fn version_parses_body() {
    let info = version(answered(
        200,
        VersionInfo {
            api_version: Some("1.2.0".to_string()),
            min_cli_version: Some("0.1.0".to_string()),
        },
    ))
    .unwrap();
    assert_eq!(info.api_version.as_deref(), Some("1.2.0"));
    assert_eq!(info.min_cli_version.as_deref(), Some("0.1.0"));
}

#[test]
fn version_404_is_backend_error() {
    let err = version(refused(404, "")).unwrap_err();
    assert!(matches!(err, ApiError::Backend { status: 404, .. }));
}

#[test]
fn check_captures_api_version_header() {
    let resp = try_once(
        answered(200, ok_body(1, 0, 999, "raw")),
        &None,
        Some("1.4.0".to_string()),
    )
    .unwrap();
    assert_eq!(resp.api_version_header.as_deref(), Some("1.4.0"));
}

#[test]
fn config_401_is_auth_error() {
    let step = config(
        refused(
            401,
            r#"{"error":{"code":"UNAUTHORIZED","message":"bad key"}}"#,
        ),
        &None,
        0,
        500,
    );
    match step {
        ConfigStep::Done(Err(ApiError::Auth(m))) => assert_eq!(m, "bad key"),
        other => panic!("expected Auth, got {other:?}"),
    }
}

#[test]
fn config_sends_api_key_and_parses_mode() {
    let step = config(
        answered(
            200,
            WorkspaceConfig {
                telemetry_query_mode: Some("sanitized".to_string()),
                plan: Some("team".to_string()),
                ci_checks_remaining: None,
                ruleset_version: Some("v1".to_string()),
            },
        ),
        &None,
        0,
        500,
    );
    match step {
        ConfigStep::Done(Ok(cfg)) => {
            assert_eq!(cfg.telemetry_query_mode.as_deref(), Some("sanitized"));
            assert_eq!(cfg.plan.as_deref(), Some("team"));
        }
        other => panic!("expected settings, got {other:?}"),
    }
}

#[test]
fn a_throttled_config_read_is_waited_out() {
    let step = config(refused(429, "slow down"), &Some("3".to_string()), 0, 500);
    assert!(matches!(step, ConfigStep::Wait { delay_ms: 3000 }));
    let step = config(refused(503, ""), &None, 1, 1000);
    assert!(matches!(step, ConfigStep::Wait { delay_ms: 1000 }));
    let step = config(Sent::Unreachable("down".to_string()), &None, 0, 500);
    assert!(matches!(step, ConfigStep::Wait { delay_ms: 500 }));
    let step = config(refused(503, ""), &None, MAX_RETRIES, 500);
    assert!(matches!(
        step,
        ConfigStep::Done(Err(ApiError::Backend { status: 503, .. }))
    ));
}

#[test]
fn oidc_exchange_mints_key() {
    let res = oidc_exchange(answered(
        200,
        OidcExchangeResult {
            api_key: "vtro_minted".to_string(),
            expires_at: Some("2026-07-10T00:15:00Z".to_string()),
            scope: Some("ci_dryrun:execute".to_string()),
            policy_id: Some("pol_123".to_string()),
        },
    ))
    .unwrap();
    assert_eq!(res.api_key, "vtro_minted");
    assert_eq!(res.policy_id.as_deref(), Some("pol_123"));
}

#[test]
fn oidc_exchange_403_is_auth_error() {
    let err = oidc_exchange(refused(403, r#"{"error":{"message":"no trust policy"}}"#)).unwrap_err();
    match err {
        ApiError::Auth(m) => assert_eq!(m, "no trust policy"),
        other => panic!("expected Auth, got {other:?}"),
    }
}

#[test]
fn check_all_single_chunk_success() {
    let resp = check_all(
        vec![ChunkOutcome::Done {
            index: 0,
            response: ok_body(2, 1, 998, "raw"),
        }],
        1,
    )
    .unwrap()
    .unwrap();
    assert_eq!(resp.summary.total, 2);
    assert_eq!(resp.summary.blocked, 1);
    assert_eq!(resp.exit_code, 1);
}

#[test]
fn check_all_retries_then_succeeds_on_503() {
    let attempt = try_once(refused(503, ""), &None, None).unwrap_err();
    assert!(attempt.retryable);
    match retry_step(0, attempt, 500) {
        RetryStep::Retry { delay_ms, note } => {
            assert_eq!(delay_ms, 500);
            assert!(note.ends_with("; retry 1/3 in 500ms"), "{note}");
        }
        other => panic!("expected another try, got {other:?}"),
    }
    let resp = try_once(answered(200, ok_body(1, 0, 999, "raw")), &None, None).unwrap();
    assert_eq!(resp.summary.total, 1);
}

#[test]
fn check_all_auth_error_not_retried() {
    let attempt = try_once(
        refused(403, r#"{"error":{"message":"forbidden"}}"#),
        &None,
        None,
    )
    .unwrap_err();
    assert!(!attempt.retryable);
    match retry_step(0, attempt, 500) {
        RetryStep::GiveUp(ApiError::Auth(m)) => assert_eq!(m, "forbidden"),
        other => panic!("expected Auth, got {other:?}"),
    }
}

#[test]
fn retries_end_and_honor_the_backend() {
    let attempt = try_once(refused(429, "busy"), &Some("7".to_string()), None).unwrap_err();
    assert_eq!(attempt.retry_after_hint, Some(7));
    assert!(matches!(
        retry_step(0, attempt, 500),
        RetryStep::Retry { delay_ms: 7000, .. }
    ));
    let attempt = try_once(Sent::Unreachable("refused".to_string()), &None, None).unwrap_err();
    assert!(attempt.retryable);
    assert!(matches!(
        retry_step(MAX_RETRIES, attempt, 500),
        RetryStep::GiveUp(ApiError::Transport(_))
    ));
}

#[test]
fn cli_login_exchange_returns_api_key() {
    let key = cli_login_exchange(answered(200, "vtro_from_browser_login".to_string())).unwrap();
    assert_eq!(key, "vtro_from_browser_login");
}

#[test]
fn cli_login_exchange_401_is_auth_error() {
    let err = cli_login_exchange(refused(
        401,
        r#"{"error":{"message":"Código de autenticación inválido, expirado o ya utilizado."}}"#,
    ))
    .unwrap_err();
    assert!(matches!(err, ApiError::Auth(_)));
}

fn rule(code: &str) -> RuleSummary {
    RuleSummary {
        code: code.to_string(),
        name: "DELETE without WHERE".to_string(),
        description: Some("Blocks DELETE with no WHERE clause".to_string()),
        severity: "critical".to_string(),
        dialect: "all".to_string(),
        rule_type: "standard".to_string(),
        is_active: true,
        resolved_action: "block".to_string(),
    }
}

#[test]
fn rules_list_parses_body() {
    let resp = rules_list(answered(
        200,
        RulesListResponse {
            rules: vec![rule("VERICTO-001")],
            ruleset_version: "v1.0.0-20260711".to_string(),
        },
    ))
    .unwrap();
    assert_eq!(resp.rules.len(), 1);
    assert_eq!(resp.rules[0].code, "VERICTO-001");
    assert_eq!(resp.ruleset_version, "v1.0.0-20260711");
}

#[test]
fn rules_list_401_is_auth_error() {
    let err = rules_list(refused(401, r#"{"error":{"message":"bad key"}}"#)).unwrap_err();
    match err {
        ApiError::Auth(m) => assert_eq!(m, "bad key"),
        other => panic!("expected Auth, got {other:?}"),
    }
}

#[test]
fn rules_show_parses_detail_with_yaml() {
    let detail = rules_show(answered(
        200,
        RuleDetail {
            code: "VERICTO-001".to_string(),
            name: "DELETE without WHERE".to_string(),
            description: Some("Blocks DELETE with no WHERE clause".to_string()),
            severity: "critical".to_string(),
            dialect: "all".to_string(),
            rule_type: "standard".to_string(),
            is_active: true,
            resolved_action: "block".to_string(),
            ast_condition_yaml: Some("node_type: DeleteStmt\nwhere_null: true".to_string()),
            example_bad: None,
            example_good: None,
            ruleset_version: "v1.0.0-20260711".to_string(),
        },
    ))
    .unwrap();
    assert_eq!(detail.code, "VERICTO-001");
    assert!(detail.ast_condition_yaml.unwrap().contains("DeleteStmt"));
}

#[test]
fn rules_show_404_is_backend_error() {
    let err = rules_show(refused(
        404,
        r#"{"error":{"message":"Regla no encontrada: VERICTO-999"}}"#,
    ))
    .unwrap_err();
    assert!(matches!(err, ApiError::Backend { status: 404, .. }));
}

#[test]
fn urlencode_path_segment_escapes_slash_and_passes_dash() {
    assert_eq!(urlencode_path_segment("VERICTO-001"), "VERICTO-001");
    assert_eq!(urlencode_path_segment("a/b"), "a%2Fb");
}

#[test]
fn check_all_chunks_and_merges() {
    let requests = check_requests(&params(), lines(600));
    assert_eq!(requests.len(), 2);
    let mut outcomes = Vec::new();
    for index in 0..requests.len() {
        outcomes.push(ChunkOutcome::Done {
            index,
            response: ok_body(1, 1, 500, "raw"),
        });
    }
    let resp = check_all(outcomes, requests.len()).unwrap().unwrap();
    // 2 chunks × (total 1, blocked 1) merged.
    assert_eq!(resp.summary.total, 2);
    assert_eq!(resp.summary.blocked, 2);
    assert_eq!(resp.exit_code, 1);
}

#[test]
fn every_error_says_what_happened() {
    let errors = [
        (
            ApiError::Auth("bad key".to_string()),
            "authentication/authorization failed: bad key",
        ),
        (
            ApiError::Backend {
                status: 500,
                message: "boom".to_string(),
            },
            "backend error (500): boom",
        ),
        (
            ApiError::Transport("refused".to_string()),
            "could not reach the Vericto API: refused",
        ),
        (
            ApiError::PartialFailure("chunk 1/2 failed".to_string()),
            "chunk 1/2 failed",
        ),
    ];
    for (e, text) in errors {
        assert_eq!(e.message(), text);
    }
}

#[test]
fn messages_come_from_the_top_level_too() {
    assert_eq!(extract_message(r#"{"message":"nope"}"#), "nope");
    assert_eq!(extract_message("  padded  "), "padded");
    assert_eq!(extract_message(r#"{"other":1}"#), r#"{"other":1}"#);
}

#[test]
fn unreadable_bodies_are_backend_errors() {
    let err = answer::<u32>(
        Sent::Answered {
            status: 200,
            body: "?".to_string(),
            decoded: Err("expected value".to_string()),
        },
        "thing",
    )
    .unwrap_err();
    match err {
        ApiError::Backend { status, message } => {
            assert_eq!(status, 200);
            assert_eq!(message, "invalid thing: expected value");
        }
        other => panic!("expected Backend, got {other:?}"),
    }
    let err = answer::<u32>(Sent::Unreachable("down".to_string()), "thing").unwrap_err();
    assert!(matches!(err, ApiError::Transport(m) if m == "down"));
}

#[test]
fn backoff_is_exact_for_a_given_clock() {
    assert_eq!(backoff_at(0, 0), 500);
    assert_eq!(backoff_at(1, 0), 1000);
    assert_eq!(backoff_at(2, 249), 2249);
    assert_eq!(backoff_at(2, 250), 2000);
    assert_eq!(backoff_at(0, 999), 749);
}

#[test]
fn endpoints_have_one_slash() {
    assert_eq!(
        endpoint("https://api.example//", "/api/v1/version"),
        "https://api.example/api/v1/version"
    );
    assert_eq!(endpoint("https://a", "/x"), "https://a/x");
}

#[test]
fn segments_are_encoded_byte_by_byte() {
    assert_eq!(urlencode_path_segment("a b?c#d"), "a%20b%3Fc%23d");
    assert_eq!(urlencode_path_segment("é"), "%C3%A9");
    assert_eq!(urlencode_path_segment("A_z.0~-"), "A_z%2E0%7E-");
}

#[test]
fn queries_are_split_in_order() {
    let chunks = split_queries(lines(1001));
    assert_eq!(chunks.len(), 3);
    assert_eq!(chunks[0].len(), MAX_QUERIES_PER_CALL);
    assert_eq!(chunks[2].len(), 1);
    assert_eq!(chunks[1][0].line, 501);
    assert_eq!(chunk_total(&chunks), 1001);
    assert_eq!(
        split_notice(1001, 3, 4),
        "note: 1001 queries exceed the 500-per-call limit; splitting into 3 chunks (concurrency 4)"
    );
}

#[test]
fn every_chunk_carries_the_shared_fields() {
    let mut p = params();
    p.receipt = true;
    p.file_name = Some("m.sql".to_string());
    p.provenance = Some(Provenance {
        git_sha: Some("abc".to_string()),
        git_ref: None,
        ci_provider: "local".to_string(),
        ci_run_url: None,
        actor: None,
    });
    let requests = check_requests(&p, lines(501));
    assert_eq!(requests.len(), 2);
    for r in &requests {
        assert_eq!(r.dialect, "postgres");
        assert_eq!(r.output_format, "json");
        assert_eq!(r.file_name.as_deref(), Some("m.sql"));
        assert!(r.receipt);
        assert_eq!(
            r.provenance.as_ref().unwrap().git_sha.as_deref(),
            Some("abc")
        );
    }
    assert_eq!(requests[1].queries[0].line, 501);
}

fn receipt(id: &str) -> Receipt {
    Receipt {
        payload: serde_json::Value::Null,
        scheme: "ed25519-sha256".to_string(),
        signature: String::new(),
        public_key_id: id.to_string(),
        sha256: String::new(),
    }
}

#[test]
fn chunks_are_put_back_in_order() {
    let mut first = ok_body(1, 0, 20, "raw");
    first.receipt = Some(receipt("one"));
    let mut second = ok_body(2, 2, 10, "sanitized");
    second.receipt = Some(receipt("two"));
    second.api_version_header = Some("1.1.0".to_string());
    let resp = check_all(
        vec![
            ChunkOutcome::Done {
                index: 1,
                response: second,
            },
            ChunkOutcome::Done {
                index: 0,
                response: first,
            },
        ],
        2,
    )
    .unwrap()
    .unwrap();
    assert_eq!(resp.queries.len(), 3);
    assert_eq!(resp.queries[0].status, "ALLOWED");
    assert_eq!(resp.queries[1].status, "BLOCKED");
    assert_eq!(resp.ci_checks_remaining, Some(10));
    assert_eq!(resp.telemetry_query_mode.as_deref(), Some("raw"));
    assert_eq!(resp.api_version_header.as_deref(), Some("1.1.0"));
    assert_eq!(resp.exit_code, 1);
    let receipts = resp.all_receipts();
    assert_eq!(receipts.len(), 2);
    assert_eq!(receipts[0].public_key_id, "one");
    assert_eq!(receipts[1].public_key_id, "two");
}

#[test]
fn a_failed_chunk_fails_the_run() {
    let outcomes = vec![
        ChunkOutcome::Failed {
            index: 2,
            error: ApiError::Transport("late".to_string()),
        },
        ChunkOutcome::Done {
            index: 0,
            response: ok_body(1, 0, 9, "raw"),
        },
        ChunkOutcome::Failed {
            index: 1,
            error: ApiError::Transport("early".to_string()),
        },
    ];
    match collect_chunks(outcomes, 3) {
        Err(ApiError::PartialFailure(m)) => {
            assert!(
                m.starts_with("chunk 2/3 failed, failing the run closed: "),
                "{m}"
            );
            assert!(m.contains("early"), "{m}");
        }
        other => panic!("expected PartialFailure, got {other:?}"),
    }
    let lost = check_all(vec![ChunkOutcome::Lost("panicked".to_string())], 2)
        .unwrap()
        .unwrap_err();
    match lost {
        ApiError::PartialFailure(m) => assert!(m.starts_with("a failed"), "{m}"),
        other => panic!("expected PartialFailure, got {other:?}"),
    }
}

#[test]
fn a_single_request_fails_as_it_failed() {
    let err = check_all(
        vec![ChunkOutcome::Failed {
            index: 0,
            error: ApiError::Transport("refused".to_string()),
        }],
        1,
    )
    .unwrap()
    .unwrap_err();
    assert!(matches!(err, ApiError::Transport(m) if m == "refused"));
}

#[test]
fn counts_beyond_a_summary_are_no_response() {
    let mut big = ok_body(1, 0, 9, "raw");
    big.summary.total = u32::MAX;
    let small = ok_body(1, 0, 9, "raw");
    let parts = vec![big, small];
    assert!(!counts_fit(&parts));
    let mut outcomes = Vec::new();
    for (index, response) in parts.into_iter().enumerate() {
        outcomes.push(ChunkOutcome::Done { index, response });
    }
    assert!(check_all(outcomes, 2).is_none());
    let merged = merge_responses(vec![ok_body(1, 0, 9, "raw"), ok_body(2, 1, 8, "raw")]);
    assert_eq!(merged.summary.total, 3);
    assert_eq!(merged.summary.allowed, 2);
}

#[test]
fn dot_segments_are_escaped() {
    assert_eq!(urlencode_path_segment(".."), "%2E%2E");
    assert_eq!(urlencode_path_segment("."), "%2E");
    assert_eq!(urlencode_path_segment("a_~b"), "a_%7Eb");
    assert_eq!(urlencode_path_segment(""), "");
}

#[test]
fn only_401_speaks_of_the_login_code() {
    let err = cli_login_exchange(refused(403, "forbidden")).unwrap_err();
    assert!(matches!(err, ApiError::Backend { status: 403, .. }));
    let err = cli_login_exchange(refused(500, "")).unwrap_err();
    assert!(matches!(err, ApiError::Backend { status: 500, .. }));
    let err = cli_login_exchange(Sent::Unreachable("down".to_string())).unwrap_err();
    assert!(matches!(err, ApiError::Transport(m) if m == "down"));
}

#[test]
fn statuses_beyond_the_server_errors_are_not_retried() {
    let step = config(refused(600, ""), &None, 0, 500);
    assert!(matches!(
        step,
        ConfigStep::Done(Err(ApiError::Backend { status: 600, .. }))
    ));
}

#[test]
fn a_missing_outcome_fails_the_run() {
    let one = vec![ChunkOutcome::Done {
        index: 0,
        response: ok_body(1, 0, 9, "raw"),
    }];
    match check_all(one, 2).unwrap().unwrap_err() {
        ApiError::PartialFailure(m) => {
            assert_eq!(m, "1 outcomes for 2 chunks, failing the run closed")
        }
        other => panic!("expected PartialFailure, got {other:?}"),
    }
    let none = check_all(Vec::new(), 0).unwrap().unwrap_err();
    assert!(matches!(none, ApiError::PartialFailure(_)));
}

#[test]
fn a_backend_that_no_chunk_reached_is_unreachable() {
    let down = |index: usize, m: &str| ChunkOutcome::Failed {
        index,
        error: ApiError::Transport(m.to_string()),
    };
    match check_all(vec![down(1, "reset"), down(0, "refused")], 2)
        .unwrap()
        .unwrap_err()
    {
        ApiError::Transport(m) => assert_eq!(m, "chunk 1/2: refused"),
        other => panic!("expected Transport, got {other:?}"),
    }
    let answered = ChunkOutcome::Failed {
        index: 1,
        error: ApiError::Backend {
            status: 500,
            message: "boom".to_string(),
        },
    };
    let err = check_all(vec![down(0, "refused"), answered], 2)
        .unwrap()
        .unwrap_err();
    assert!(matches!(err, ApiError::PartialFailure(_)));
    let err = check_all(vec![down(0, "refused")], 2).unwrap().unwrap_err();
    assert!(matches!(err, ApiError::PartialFailure(_)));
}
