//! Exact values of the library's functions on chosen inputs: the formulas, the
//! edge cases, every refusal, and the laws on concrete values.

use spaceship::account::{describe, from_store, resolve, Resolution, SecretEntry};
use spaceship::cli::{DnsCommand, DomainsCommand, HyperliftCommand, PersonalNsCommand, SellerhubCommand};
use spaceship::client::{
    api_base, error_message, interpret_reply, outgoing, query, request_url, seg, status_error, transport_error, ApiRequest,
    Method,
};
use spaceship::commands::accounts::{
    accept_key, accept_secret, confirmed, enroll, identity, identity_cut_fits, removal_prompt, untestable, CredSource,
    EnrollKind,
};
use spaceship::commands::dns::{delete_request, matches_property, save_request, DnsStep};
use spaceship::commands::domains::{host_shortens, normalize_host};
use spaceship::commands::{check_stdin_text, input_source, Action, InputSource};
use spaceship::config::{AccountConfig, Config};
use spaceship::error::{Error, ErrorCode};
use spaceship::json::Json;
use spaceship::output::{envelope, exit_status, parse_failure, refusal_status, use_json, wants_json, RefusalKind};
use spaceship::text::{decimal_string, split_list, trim};
use spaceship::yaml::to_yaml;

fn s(t: &str) -> Json {
    Json::Str(t.to_owned())
}

fn obj(pairs: Vec<(&str, Json)>) -> Json {
    Json::Object(pairs.into_iter().map(|(k, v)| (k.to_owned(), v)).collect())
}

fn acct(id: &str) -> AccountConfig {
    AccountConfig { identity: id.to_owned(), added_at: "2024-01-01T00:00:00Z".to_owned() }
}

fn strings(v: &[&str]) -> Vec<String> {
    v.iter().map(|x| x.to_string()).collect()
}

// ---- text ----

#[test]
fn trim_and_split() {
    assert_eq!(trim("  a b \n"), "a b");
    assert_eq!(split_list(" ns1.example.com, ,ns2.example.com ,"), strings(&["ns1.example.com", "ns2.example.com"]));
    assert_eq!(split_list(""), Vec::<String>::new());
    assert_eq!(decimal_string(0), "0");
    assert_eq!(decimal_string(1234567890), "1234567890");
}

// ---- paths and queries ----

#[test]
fn segment_encoding() {
    assert_eq!(seg("example.com"), "example.com");
    assert_eq!(seg("a b/c"), "a%20b%2Fc");
    assert_eq!(seg("é"), "%C3%A9");
    assert_eq!(seg("x~y-z_w"), "x~y-z_w");
}

#[test]
fn query_strings() {
    assert_eq!(
        query(&[("take", Some("20".to_owned())), ("skip", Some("0".to_owned())), ("orderBy", None)]),
        "?take=20&skip=0"
    );
    assert_eq!(query(&[("orderBy", None)]), "");
    assert_eq!(query(&[("cursor", Some("  ".to_owned()))]), "");
    assert_eq!(query(&[("q", Some(" a b ".to_owned()))]), "?q=a%20b");
}

#[test]
fn base_and_urls() {
    assert_eq!(api_base(None), "https://spaceship.dev/api/v1/");
    assert_eq!(api_base(Some("  ".to_owned())), "https://spaceship.dev/api/v1/");
    assert_eq!(api_base(Some("http://127.0.0.1:9/api/v1".to_owned())), "http://127.0.0.1:9/api/v1/");
    assert_eq!(request_url("http://h/api/v1/", "//domains"), "http://h/api/v1/domains");
}

// ---- replies and errors ----

#[test]
fn status_error_classes() {
    let e = status_error(401, "", None, None);
    assert_eq!(e.code, ErrorCode::AuthRequired);
    assert_eq!(e.message, "API error: HTTP 401");
    assert_eq!(e.detail.as_deref(), Some("HTTP 401"));
    assert!(e.fix.unwrap().starts_with("Check your API key and secret"));

    let e = status_error(429, "{}", Some(&obj(vec![])), Some(30));
    assert_eq!(e.code, ErrorCode::RateLimited);
    assert_eq!(e.message, "Rate limited (429). Retry after 30s.");
    assert_eq!(e.detail.as_deref(), Some("HTTP 429: {}"));

    let e = status_error(429, "", None, None);
    assert_eq!(e.message, "Rate limited (429).");

    let e = status_error(400, "bad", None, None);
    assert_eq!(e.code, ErrorCode::InvalidInput);
    assert_eq!(e.detail.as_deref(), Some("HTTP 400: bad"));

    let e = status_error(418, "", None, None);
    assert_eq!(e.code, ErrorCode::Error);
    assert_eq!(e.code.exit_code(), 1);

    let e = status_error(503, "", None, None);
    assert_eq!(e.code, ErrorCode::Network);
    assert_eq!(e.code.exit_code(), 2);
}

#[test]
fn error_body_messages() {
    let body = obj(vec![
        ("title", s("Bad request")),
        ("data", Json::Array(vec![obj(vec![("field", s("years")), ("details", s("must be 1-10"))])])),
        ("errors", obj(vec![("name", Json::Array(vec![s("too long")])), ("type", s("unknown"))])),
    ]);
    assert_eq!(
        error_message(&body).as_deref(),
        Some("Bad request - years: must be 1-10; name: too long; type: unknown")
    );
    let body = obj(vec![("errors", obj(vec![("x", s("y"))]))]);
    assert_eq!(error_message(&body).as_deref(), Some("Validation error - x: y"));
    assert_eq!(error_message(&obj(vec![("message", s("m")), ("error", s("e"))])).as_deref(), Some("m"));
    assert_eq!(error_message(&s("plain")), None);

    let e = status_error(422, "", Some(&obj(vec![("detail", s("Invalid domain"))])), None);
    assert_eq!(e.message, "Invalid domain");
}

#[test]
fn reply_values() {
    let out = interpret_reply(202, "", None, Some("op_1".to_owned()), None).unwrap();
    assert_eq!(out, obj(vec![("status", s("ok")), ("success", Json::Bool(true)), ("asyncOperationId", s("op_1"))]));

    let out = interpret_reply(204, "", None, None, None).unwrap();
    assert_eq!(out, obj(vec![("status", s("ok")), ("success", Json::Bool(true))]));

    let out = interpret_reply(200, "{\"a\":1}", Some(obj(vec![("a", Json::PosInt(1))])), Some("op".to_owned()), None)
        .unwrap();
    assert_eq!(out, obj(vec![("a", Json::PosInt(1)), ("asyncOperationId", s("op"))]));

    let out = interpret_reply(200, "not json", None, None, None).unwrap();
    assert_eq!(out, s("not json"));

    let body = r#"{"message": "Domain not found"}"#;
    let err = status_error(404, body, Some(&obj(vec![("message", s("Domain not found"))])), None);
    assert_eq!(err.code, ErrorCode::NotFound);
    assert_eq!(err.message, "The resource does not exist.");
    assert_eq!(err.detail.as_deref(), Some(r#"HTTP 404: {"message": "Domain not found"}"#));
    let err = interpret_reply(404, "", None, None, None).unwrap_err();
    assert_eq!(err.code, ErrorCode::NotFound);
    assert_eq!(err.code.exit_code(), 4);
}

#[test]
fn transport_failures() {
    let e = transport_error(true, "x".to_owned());
    assert_eq!(e.code, ErrorCode::Network);
    assert_eq!(e.message, "The request timed out.");
    assert_eq!(e.detail, None);
    let e = transport_error(false, "connection refused".to_owned());
    assert_eq!(e.message, "Could not reach the Spaceship API.");
    assert_eq!(e.detail.as_deref(), Some("connection refused"));
    assert_eq!(e.fix.as_deref(), Some("Retry once, then stop."));
}

// ---- output ----

#[test]
fn error_envelope_and_status() {
    let e = Error::new(ErrorCode::NoAccount, "none".to_owned()).detail("d".to_owned()).fix("f".to_owned());
    assert_eq!(
        envelope(&e),
        obj(vec![("error", s("none")), ("code", s("no_account")), ("detail", s("d")), ("remediation", s("f"))])
    );
    assert_eq!(exit_status(&e), 7);
    let e = Error::invalid("bad".to_owned());
    assert_eq!(envelope(&e), obj(vec![("error", s("bad")), ("code", s("invalid_input"))]));
    assert_eq!(exit_status(&e), 6);
    assert_eq!(Error::other("x".to_owned()).code.as_str(), "error");
}

#[test]
fn json_requests() {
    assert!(wants_json(&strings(&["domains", "list", "--json"])));
    assert!(wants_json(&strings(&["--format", "json", "domains"])));
    assert!(wants_json(&strings(&["--format=json"])));
    assert!(!wants_json(&strings(&["--format", "yaml"])));
    assert!(!wants_json(&strings(&["--format"])));
    assert!(use_json(true, None));
    assert!(use_json(false, Some("JSON")));
    assert!(!use_json(false, Some("yaml")));
}

#[test]
fn refused_command_lines() {
    let e = parse_failure("error: unexpected argument '--x' found\n\n  tip: try '--x'\n\nUsage: spaceship domains list\n");
    assert_eq!(e.code, ErrorCode::InvalidInput);
    assert_eq!(e.message, "unexpected argument '--x' found");
    assert_eq!(e.detail.as_deref(), Some("tip: try '--x'\n\nUsage: spaceship domains list"));
    let e = parse_failure("\n");
    assert_eq!(e.message, "Invalid arguments.");
    assert_eq!(e.detail, None);
}

#[test]
fn yaml_rendering() {
    let v = obj(vec![
        ("name", s("example.com")),
        ("count", Json::PosInt(2)),
        ("delta", Json::NegInt(-5)),
        ("items", Json::Array(vec![s("a"), obj(vec![("k", Json::Bool(true))])])),
        ("empty", Json::Array(vec![])),
        ("flag", s("true")),
        ("note", s("a: b")),
        ("none", Json::Null),
    ]);
    assert_eq!(
        to_yaml(&v),
        "name: example.com\ncount: 2\ndelta: -5\nitems:\n  - a\n  -\n    k: true\nempty: []\nflag: \"true\"\nnote: \"a: b\"\nnone: null\n"
    );
    assert_eq!(to_yaml(&s("line\nbreak\u{1}")), "\"line\\nbreak\\x01\"\n");
    assert_eq!(to_yaml(&Json::NegInt(i64::MIN)), "-9223372036854775808\n");
    assert_eq!(to_yaml(&s("")), "\"\"\n");
}

// ---- accounts and credentials ----

#[test]
fn configured_accounts() {
    let mut c = Config::new();
    c.insert("work".to_owned(), acct("sp_key"));
    c.insert("Alpha".to_owned(), acct(""));
    c.insert("beta".to_owned(), acct("b..."));
    assert_eq!(c.find("WORK"), Some(0));
    assert_eq!(c.position("WORK"), None);
    assert_eq!(c.position("work"), Some(0));
    let names: Vec<String> = c.sorted().into_iter().map(|(n, _)| n).collect();
    assert_eq!(names, strings(&["Alpha", "beta", "work"]));
    assert_eq!(describe(&c), "Configured accounts: Alpha, beta (b...), work (sp_key)");

    // Storing under an existing name replaces the entry where it is.
    c.insert("work".to_owned(), acct("new"));
    assert_eq!(c.accounts.len(), 3);
    assert_eq!(c.accounts[0].1.identity, "new");

    // Adding a new name and removing it again gives the accounts back.
    let before: Vec<String> = c.accounts.iter().map(|(n, _)| n.clone()).collect();
    let beta = c.position("beta");
    c.insert("gamma".to_owned(), acct("g"));
    assert_eq!(c.position("gamma"), Some(3));
    assert_eq!(c.position("beta"), beta);
    c.remove("gamma");
    let after: Vec<String> = c.accounts.iter().map(|(n, _)| n.clone()).collect();
    assert_eq!(before, after);
    assert_eq!(c.position("gamma"), None);

    assert_eq!(
        describe(&Config::new()),
        "No accounts are configured yet. Run 'spaceship accounts add <name> --api-key <key> --api-secret <secret>'."
    );
}

#[test]
fn credential_precedence() {
    let mut c = Config::new();
    c.insert("default".to_owned(), acct(""));
    c.insert("work".to_owned(), acct(""));

    // Both flags win over everything.
    match resolve(Some("work"), Some("fk"), Some("fs"), Some("work"), Some("ek"), Some("es"), &c).unwrap() {
        Resolution::Ready(r) => {
            assert_eq!(r.name, "(flags)");
            assert_eq!(r.api_key, "fk");
        },
        other => panic!("{other:?}"),
    }
    // --account comes before the environment.
    assert_eq!(
        resolve(Some("WORK"), None, None, None, Some("ek"), Some("es"), &c).unwrap(),
        Resolution::Lookup("work".to_owned())
    );
    // SPACESHIP_ACCOUNT comes next.
    assert_eq!(
        resolve(None, None, None, Some("work"), Some("ek"), Some("es"), &c).unwrap(),
        Resolution::Lookup("work".to_owned())
    );
    // Then the environment's key and secret.
    match resolve(None, None, None, None, Some("ek"), Some("es"), &c).unwrap() {
        Resolution::Ready(r) => {
            assert_eq!(r.name, "(environment)");
            assert_eq!(r.api_secret, "es");
        },
        other => panic!("{other:?}"),
    }
    // One flag alone is refused.
    let e = resolve(None, Some("fk"), None, None, None, None, &c).unwrap_err();
    assert_eq!(e.code, ErrorCode::InvalidInput);
    assert_eq!(e.message, "Both --api-key and --api-secret are required when passing credentials via flags.");
    // Then the account named default.
    assert_eq!(resolve(None, None, None, None, None, None, &c).unwrap(), Resolution::Lookup("default".to_owned()));
    // An unknown account is refused.
    let e = resolve(Some("nope"), None, None, None, None, None, &c).unwrap_err();
    assert_eq!(e.code, ErrorCode::NoAccount);
    assert_eq!(e.message, "No account named 'nope'.");
    assert_eq!(e.detail.as_deref(), Some("Configured accounts: default, work"));
    // Blank values count as not given.
    assert_eq!(
        resolve(Some("  "), Some(""), Some("x"), None, None, None, &c).unwrap_err().code,
        ErrorCode::InvalidInput
    );
}

#[test]
fn stored_credentials() {
    let ok = from_store("work", Some(SecretEntry { api_key: "k".to_owned(), api_secret: "s".to_owned() })).unwrap();
    assert_eq!(ok.name, "work");
    assert_eq!(ok.api_key, "k");
    let e = from_store("work", None).unwrap_err();
    assert_eq!(e.code, ErrorCode::AuthRequired);
    let e = from_store("work", Some(SecretEntry { api_key: " ".to_owned(), api_secret: "s".to_owned() })).unwrap_err();
    assert_eq!(e.code, ErrorCode::AuthRequired);
}

#[test]
fn enrollment_inputs() {
    let e = enroll(EnrollKind::Add, "   ", None, false, None, false, false, false).unwrap_err();
    assert_eq!(e.message, "Account name cannot be empty.");
    let en = enroll(EnrollKind::Login, " staging ", Some("k".to_owned()), true, None, false, false, false).unwrap();
    assert_eq!(en.name, "staging");
    let e = en.key_source(true).unwrap_err();
    assert_eq!(e.message, "Cannot specify both --api-key and --api-key-stdin.");
    assert_eq!(en.secret_source(true).unwrap(), CredSource::Prompt("Enter Spaceship API Secret: ".to_owned()));
    let e = en.secret_source(false).unwrap_err();
    assert_eq!(e.message, "No API secret provided. Pass --api-secret or --api-secret-stdin.");
    let en = enroll(EnrollKind::Add, "x", None, true, Some("s".to_owned()), false, false, false).unwrap();
    assert_eq!(en.key_source(false).unwrap(), CredSource::Stdin);
    assert_eq!(en.secret_source(false).unwrap(), CredSource::Given("s".to_owned()));

    assert_eq!(accept_key("  key\n").unwrap(), "key");
    assert_eq!(accept_key(" \n").unwrap_err().message, "API key cannot be empty.");
    assert_eq!(accept_secret("").unwrap_err().message, "API secret cannot be empty.");
}

#[test]
fn key_identity() {
    assert_eq!(identity("sp_key"), "sp_key");
    assert_eq!(identity("12345678"), "12345678");
    assert_eq!(identity("123456789"), "12345678...");
    assert!(identity_cut_fits("ééééé"));
    assert_eq!(identity("ééééé"), "éééé...");
    assert!(!identity_cut_fits("aéééé"));
}

#[test]
fn removal_answers() {
    assert!(confirmed(" Y \n"));
    assert!(confirmed("y"));
    assert!(!confirmed("yes"));
    assert!(!confirmed(""));
    assert_eq!(removal_prompt("work"), "Remove account 'work' and delete stored credentials? [y/N]: ");
    let e = untestable("work");
    assert_eq!(e.code, ErrorCode::AuthRequired);
    assert_eq!(e.fix.as_deref(), Some("spaceship accounts add work --force"));
}

// ---- command plans ----

#[test]
fn domain_refusals() {
    let run = spaceship::commands::domains::run;
    let e = run(DomainsCommand::Autorenew { domain: "a.com".to_owned(), enable: true, disable: true }).unwrap_err();
    assert_eq!(e.message, "Cannot specify both --enable and --disable.");
    let e = run(DomainsCommand::TransferLock { domain: "a.com".to_owned(), lock: false, unlock: false }).unwrap_err();
    assert_eq!(e.message, "Specify --lock or --unlock.");
    let e = run(DomainsCommand::Privacy { domain: "a.com".to_owned(), level: "secret".to_owned() }).unwrap_err();
    assert_eq!(e.message, "Invalid privacy level. Must be 'public' or 'high'.");
    let many: Vec<String> = (0..21).map(|i| format!("d{i}.com")).collect();
    let e = run(DomainsCommand::CheckBatch { domains: many.join(",") }).unwrap_err();
    assert_eq!(e.message, "Maximum 20 domains per batch check.");
    let e = run(DomainsCommand::PersonalNs(PersonalNsCommand::Save {
        domain: "a.com".to_owned(),
        host: "ns1".to_owned(),
        ips: " , ".to_owned(),
        rename: None,
    }))
    .unwrap_err();
    assert_eq!(e.message, "--ips needs 1-16 comma-separated addresses.");
    let r = run(DomainsCommand::List { take: 5, skip: 10, order_by: Some("name".to_owned()) }).unwrap();
    assert_eq!(r.path, "domains?take=5&skip=10&orderBy=name");
    let r = run(DomainsCommand::Privacy { domain: "a.com".to_owned(), level: "HIGH".to_owned() }).unwrap();
    assert_eq!(r.path, "domains/a.com/privacy/preference");
}

#[test]
fn personal_nameserver_hosts() {
    assert!(host_shortens("NS1.Example.COM", "example.com"));
    assert_eq!(normalize_host("NS1.Example.COM", "example.com"), "NS1");
    assert_eq!(normalize_host("ns1.example.com.", "example.com"), "ns1");
    assert_eq!(normalize_host("ns1", "example.com"), "ns1");
    assert!(host_shortens("example.com", "example.com"));
    assert_eq!(normalize_host("example.com", "example.com"), "example.com");
    assert_eq!(normalize_host(" ns2.EXAMPLE.com. ", " example.com. "), "ns2");
    let r = spaceship::commands::domains::run(DomainsCommand::PersonalNs(PersonalNsCommand::Save {
        domain: "example.com".to_owned(),
        host: "ns1.example.com".to_owned(),
        ips: "192.0.2.1".to_owned(),
        rename: Some("ns2.example.com".to_owned()),
    }))
    .unwrap();
    assert_eq!(r.path, "domains/example.com/personal-nameservers/ns1");
    let body = r.body.unwrap();
    assert_eq!(body.get("host"), Some(&s("ns2")));
    assert_eq!(body.get("ips"), Some(&Json::Array(vec![s("192.0.2.1")])));
}

#[test]
fn dns_paging_and_filters() {
    let e = spaceship::commands::dns::run(DnsCommand::List {
        domain: "a.com".to_owned(),
        take: 0,
        skip: 0,
        all: false,
        order_by: None,
        record_type: None,
        name: None,
    })
    .unwrap_err();
    assert_eq!(e.message, "--take must be between 1 and 500.");

    let plain = spaceship::commands::dns::run(DnsCommand::List {
        domain: "a.com".to_owned(),
        take: 100,
        skip: 0,
        all: false,
        order_by: None,
        record_type: None,
        name: None,
    })
    .unwrap();
    match plain {
        Action::Call(r) => assert_eq!(r.path, "dns/records/a.com?take=100&skip=0"),
        other => panic!("{other:?}"),
    }

    let listing = match spaceship::commands::dns::run(DnsCommand::List {
        domain: "a.com".to_owned(),
        take: 100,
        skip: 0,
        all: true,
        order_by: None,
        record_type: None,
        name: Some(" WWW ".to_owned()),
    })
    .unwrap()
    {
        Action::ListDns(l) => l,
        other => panic!("{other:?}"),
    };
    let page1 = obj(vec![
        ("items", Json::Array(vec![obj(vec![("name", s("www"))]), obj(vec![("name", s("@"))])])),
        ("total", Json::PosInt(3)),
    ]);
    let listing = match listing.on_page(&page1) {
        DnsStep::More(l) => l,
        other => panic!("{other:?}"),
    };
    assert_eq!(listing.skip, 2);
    assert_eq!(listing.next_request().path, "dns/records/a.com?take=500&skip=2");
    let page2 = obj(vec![("items", Json::Array(vec![obj(vec![("name", s("Www"))])])), ("total", Json::PosInt(3))]);
    match listing.on_page(&page2) {
        DnsStep::Done(out) => {
            assert_eq!(out.get("total"), Some(&Json::PosInt(2)));
        },
        other => panic!("{other:?}"),
    }

    assert!(matches_property(&obj(vec![("type", s("a"))]), "type", &Some("A".to_owned())));
    assert!(!matches_property(&obj(vec![]), "type", &Some("A".to_owned())));
    assert!(matches_property(&obj(vec![]), "type", &Some(" ".to_owned())));
    assert!(matches_property(&obj(vec![]), "type", &None));
}

#[test]
fn dns_record_input() {
    let r = save_request("a.com", false, Json::Array(vec![])).unwrap();
    assert_eq!(r.method, Method::Put);
    assert_eq!(r.body, Some(obj(vec![("items", Json::Array(vec![]))])));
    let r = save_request("a.com", true, obj(vec![("items", Json::Array(vec![])), ("force", Json::Bool(false))])).unwrap();
    assert_eq!(r.body, Some(obj(vec![("items", Json::Array(vec![])), ("force", Json::Bool(true))])));
    let e = save_request("a.com", false, obj(vec![("records", Json::Array(vec![]))])).unwrap_err();
    assert_eq!(e.message, "Expected a JSON array of records, or {\"items\": [...]}.");
    let e = delete_request("a.com", s("x")).unwrap_err();
    assert_eq!(e.code, ErrorCode::InvalidInput);
    let e = delete_request("a.com", obj(vec![("items", s("x"))])).unwrap_err();
    assert_eq!(e.code, ErrorCode::InvalidInput);
}

#[test]
fn json_input_sources() {
    assert_eq!(input_source(Some("f.json"), true, "[...]").unwrap(), InputSource::File("f.json".to_owned()));
    assert_eq!(input_source(Some(" "), false, "[...]").unwrap(), InputSource::Stdin);
    let e = input_source(None, true, "[...]").unwrap_err();
    assert_eq!(e.message, "Provide JSON via stdin or --file. Expected: [...]");
    let e = check_stdin_text(" \n", "[...]").unwrap_err();
    assert_eq!(e.message, "Stdin was empty. Provide JSON via stdin or --file. Expected: [...]");
    assert!(check_stdin_text("[]", "[...]").is_ok());
}

#[test]
fn other_plans() {
    let e = spaceship::commands::sellerhub::run(SellerhubCommand::Sold { take: 101, cursor: None, from: None, to: None })
        .unwrap_err();
    assert_eq!(e.message, "--take must be between 1 and 100.");
    let e = spaceship::commands::hyperlift::run(HyperliftCommand::Scale { id: "a".to_owned(), scale: 2 }).unwrap_err();
    assert_eq!(e.message, "--scale must be 0 (stop) or 1 (start).");
    match spaceship::commands::sellerhub::run(SellerhubCommand::Get { domain: "a b.com".to_owned() }).unwrap() {
        Action::Call(r) => assert_eq!(r.path, "sellerhub/domains/a%20b.com"),
        other => panic!("{other:?}"),
    }
}

#[test]
fn manual_documents_every_code() {
    let m = spaceship::readme::manual_json();
    let codes = m.get("exitCodes").unwrap();
    for code in [
        ErrorCode::Error,
        ErrorCode::Network,
        ErrorCode::AuthRequired,
        ErrorCode::NotFound,
        ErrorCode::RateLimited,
        ErrorCode::InvalidInput,
        ErrorCode::NoAccount,
    ] {
        let key = decimal_string(code.exit_code() as u64);
        let text = codes.get(&key).and_then(|v| v.as_str()).unwrap();
        assert!(text.starts_with(code.as_str().as_str()));
    }
}

#[test]
fn exit_statuses_are_distinct() {
    let all = [
        ErrorCode::Error,
        ErrorCode::Network,
        ErrorCode::AuthRequired,
        ErrorCode::NotFound,
        ErrorCode::RateLimited,
        ErrorCode::InvalidInput,
        ErrorCode::NoAccount,
    ];
    let statuses: Vec<u8> = all.iter().map(|c| c.exit_code()).collect();
    assert_eq!(statuses, vec![1, 2, 3, 4, 5, 6, 7]);
    let labels: Vec<String> = all.iter().map(|c| c.as_str()).collect();
    assert_eq!(
        labels,
        strings(&["error", "network", "auth_required", "not_found", "rate_limited", "invalid_input", "no_account"])
    );
}

#[test]
fn request_headers() {
    let h = spaceship::client::auth_headers("k", "s");
    assert_eq!(
        h,
        vec![
            ("X-API-Key".to_owned(), "k".to_owned()),
            ("X-API-Secret".to_owned(), "s".to_owned()),
            ("Accept".to_owned(), "application/json".to_owned()),
        ]
    );
}

#[test]
fn parser_stops() {
    assert_eq!(refusal_status(RefusalKind::Help), Some(0));
    assert_eq!(refusal_status(RefusalKind::Version), Some(0));
    assert_eq!(refusal_status(RefusalKind::MissingArgumentHelp), Some(6));
    assert_eq!(refusal_status(RefusalKind::Invalid), None);
}

#[test]
fn segment_shape() {
    // One character per unreserved byte, three per other byte.
    assert_eq!(seg("a b").len(), 1 + 3 + 1);
    assert_eq!(seg("é").len(), 6);
    assert!(seg("x/é ~").chars().all(|c| c.is_ascii_alphanumeric() || "-_.~%".contains(c)));
    assert_eq!(seg("Plain-Text_1.0~"), "Plain-Text_1.0~");
}

#[test]
fn nameserver_hosts_rule() {
    let run = spaceship::commands::domains::run;
    let ns = |provider: &str, hosts: Option<&str>| DomainsCommand::Nameservers {
        domain: "a.com".to_owned(),
        provider: provider.to_owned(),
        hosts: hosts.map(str::to_owned),
    };
    assert_eq!(run(ns("custom", Some(" , ,"))).unwrap_err().code, ErrorCode::InvalidInput);
    assert_eq!(run(ns("custom", None)).unwrap_err().code, ErrorCode::InvalidInput);
    assert_eq!(run(ns("CUSTOM", Some("ns1.a.com"))).unwrap_err().message, "Custom nameservers require 2-12 hosts.");
    let r = run(ns("basic", Some("ns1.a.com,ns2.a.com"))).unwrap();
    assert_eq!(r.body, Some(Json::Object(vec![("provider".to_owned(), s("basic"))])));
}

#[test]
fn account_fallbacks() {
    let mut c = Config::new();
    c.insert("Default".to_owned(), acct(""));
    c.insert("work".to_owned(), acct(""));
    assert_eq!(resolve(None, None, None, Some("WORK"), None, None, &c).unwrap(), Resolution::Lookup("work".to_owned()));
    assert_eq!(resolve(None, None, None, None, None, None, &c).unwrap(), Resolution::Lookup("Default".to_owned()));
    assert_eq!(resolve(None, None, None, Some("x"), None, None, &c).unwrap_err().code, ErrorCode::NoAccount);
}

#[test]
fn accounts_add_passes_every_argument() {
    let task = spaceship::commands::accounts::run(spaceship::cli::AccountsCommand::Add {
        name: " work ".to_owned(),
        api_key: None,
        api_key_stdin: true,
        api_secret: Some("sec".to_owned()),
        api_secret_stdin: false,
        force: true,
        skip_probe: true,
    })
    .unwrap();
    match task {
        spaceship::commands::accounts::AccountsTask::Add(en) => {
            assert_eq!(en.name, "work");
            assert_eq!(en.kind, EnrollKind::Add);
            assert_eq!(en.api_key, None);
            assert!(en.api_key_stdin);
            assert_eq!(en.api_secret.as_deref(), Some("sec"));
            assert!(!en.api_secret_stdin);
            assert!(en.force);
            assert!(en.skip_probe);
        },
        other => panic!("{other:?}"),
    }
}

#[test]
fn segment_percent_digits() {
    let e = seg("a/b c");
    for (i, c) in e.char_indices() {
        if c == '%' {
            let rest: Vec<char> = e[i + 1..].chars().take(2).collect();
            assert_eq!(rest.len(), 2);
            assert!(rest.iter().all(|d| d.is_ascii_digit() || ('A'..='F').contains(d)));
        }
    }
    assert_eq!(e, "a%2Fb%20c");
    assert_ne!(seg("a b"), "a b");
}

#[test]
fn fallback_account_credentials() {
    let mut c = Config::new();
    c.insert("Work".to_owned(), acct("sp_key..."));
    let name = match resolve(None, None, None, Some(" work "), None, None, &c).unwrap() {
        Resolution::Lookup(n) => n,
        other => panic!("{other:?}"),
    };
    assert_eq!(name, "Work");
    let creds = from_store(&name, Some(SecretEntry { api_key: "kx".to_owned(), api_secret: "sx".to_owned() })).unwrap();
    assert_eq!((creds.name.as_str(), creds.api_key.as_str(), creds.api_secret.as_str()), ("Work", "kx", "sx"));
}

#[test]
fn outgoing_requests() {
    let base = api_base(None);
    let body = obj(vec![("a", s("b"))]);
    let get = outgoing(&base, "k", "x", ApiRequest { method: Method::Get, path: "//domains?take=1".to_owned(), body: Some(body.copy()) });
    assert_eq!(get.url, "https://spaceship.dev/api/v1/domains?take=1");
    assert_eq!(get.body, None);
    assert_eq!(
        get.headers,
        vec![
            ("X-API-Key".to_owned(), "k".to_owned()),
            ("X-API-Secret".to_owned(), "x".to_owned()),
            ("Accept".to_owned(), "application/json".to_owned()),
        ]
    );
    let put = outgoing(&base, "k", "x", ApiRequest { method: Method::Put, path: "dns/records/a.com".to_owned(), body: Some(body.copy()) });
    assert_eq!(put.method, Method::Put);
    assert_eq!(put.body, Some(body));
    assert_eq!(put.headers.len(), 4);
    assert_eq!(put.headers[3], ("Content-Type".to_owned(), "application/json".to_owned()));
    let del = outgoing(&base, "k", "x", ApiRequest { method: Method::Delete, path: "x".to_owned(), body: None });
    assert_eq!(del.body, None);
    assert_eq!(del.headers.len(), 3);
}
