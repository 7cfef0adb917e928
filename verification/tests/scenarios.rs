//! The end-to-end scenarios of the command-line tool, played through the
//! library: each step asks the library what the tool decides and checks the
//! call it plans, the reply it reads, or the refusal it gives.

use spaceship::account::{resolve, Resolution};
use spaceship::cli::{
    AccountsCommand, ContactsCommand, DnsCommand, DomainsCommand, HyperliftCommand, LoginArgs, OperationsCommand,
    PersonalNsCommand, SellerhubCommand,
};
use spaceship::client::{interpret_reply, status_error, ApiRequest, Method};
use spaceship::client::auth_headers;
use spaceship::commands::accounts::{
    enroll_begin, enroll_step, list_begin, list_step, remove_begin, remove_step, test_begin, test_step, AccountsTask,
    CredSource, EnrollAction, EnrollEvent, Enrollment, ListAction, ListEvent, RemoveAction, RemoveEvent, TestAction,
    TestEvent,
};
use spaceship::error::Error;
use spaceship::commands::dns::DnsStep;
use spaceship::commands::{complete, Action, Completion};
use spaceship::config::{AccountConfig, Config};
use spaceship::json::Json;
use spaceship::output::use_json;
use spaceship::readme::{manual_json, manual_text};

fn s(t: &str) -> Json {
    Json::Str(t.to_owned())
}

fn obj(pairs: Vec<(&str, Json)>) -> Json {
    Json::Object(pairs.into_iter().map(|(k, v)| (k.to_owned(), v)).collect())
}

fn field<'a>(j: &'a Json, k: &str) -> &'a Json {
    j.get(k).expect("member present")
}

fn item(j: &Json, i: usize) -> &Json {
    match j {
        Json::Array(a) => &a[i],
        _ => panic!("not a list"),
    }
}

fn get(path: &str) -> ApiRequest {
    ApiRequest { method: Method::Get, path: path.to_owned(), body: None }
}

fn planned(a: Result<Action, spaceship::error::Error>) -> ApiRequest {
    match a.unwrap() {
        Action::Call(r) => r,
        other => panic!("expected a call, got {other:?}"),
    }
}

fn login_args(name: &str, key: &str, secret: &str, force: bool) -> LoginArgs {
    LoginArgs {
        name: name.to_owned(),
        api_key: Some(key.to_owned()),
        api_key_stdin: false,
        api_secret: Some(secret.to_owned()),
        api_secret_stdin: false,
        force,
        skip_probe: false,
    }
}

#[test]
fn account_is_required_or_env_or_flags() {
    let w = with_work();
    let conf = w.conf;

    // 1. Without account, env vars, or flags: returns code 7 (NoAccount)
    let err = resolve(None, None, None, None, None, None, &conf).unwrap_err();
    assert_eq!(err.code.exit_code(), 7);
    assert_eq!(err.code.as_str(), "no_account");
    assert!(err.detail.unwrap().contains("work"));

    let list = planned(spaceship::commands::plan(spaceship::commands::ApiCommand::Domains(DomainsCommand::List {
        take: 20,
        skip: 0,
        order_by: None,
    })));
    assert_eq!(list, get("domains?take=20&skip=0"));
    let reply = r#"{"items":[{"name":"example.com"}]}"#;
    let parsed = obj(vec![("items", Json::Array(vec![obj(vec![("name", s("example.com"))])]))]);

    // 2. With flag credentials: works directly
    match resolve(None, Some("k"), Some("s"), None, None, None, &conf).unwrap() {
        Resolution::Ready(r) => {
            assert_eq!(r.api_key, "k");
            assert_eq!(r.api_secret, "s");
        },
        other => panic!("expected credentials, got {other:?}"),
    }
    let out = interpret_reply(200, reply, Some(parsed.copy()), None, None).unwrap();
    assert_eq!(field(item(field(&out, "items"), 0), "name"), &s("example.com"));

    // 3. With explicit account: works
    assert_eq!(
        resolve(Some("work"), None, None, None, None, None, &conf).unwrap(),
        Resolution::Lookup("work".to_owned())
    );
    let out = interpret_reply(200, reply, Some(parsed), None, None).unwrap();
    assert_eq!(field(item(field(&out, "items"), 0), "name"), &s("example.com"));
}

fn domains(cmd: DomainsCommand) -> ApiRequest {
    spaceship::commands::domains::run(cmd).unwrap()
}

#[test]
fn domains_operations() {
    assert_eq!(domains(DomainsCommand::Get { domain: "example.com".to_owned() }), get("domains/example.com"));
    let out = interpret_reply(
        200,
        r#"{"name":"example.com","status":"active"}"#,
        Some(obj(vec![("name", s("example.com")), ("status", s("active"))])),
        None,
        None,
    )
    .unwrap();
    assert_eq!(field(&out, "name"), &s("example.com"));

    assert_eq!(
        domains(DomainsCommand::Check { domain: "example.com".to_owned() }),
        get("domains/example.com/available")
    );
    let out = interpret_reply(200, r#"{"available":true}"#, Some(obj(vec![("available", Json::Bool(true))])), None, None)
        .unwrap();
    assert_eq!(field(&out, "available"), &Json::Bool(true));

    let batch = domains(DomainsCommand::CheckBatch { domains: "example.com,test.com".to_owned() });
    assert_eq!(batch.method, Method::Post);
    assert_eq!(batch.path, "domains/available");
    let reply = Json::Array(vec![obj(vec![("domain", s("example.com")), ("available", Json::Bool(true))])]);
    let out = interpret_reply(200, r#"[{"domain":"example.com","available":true}]"#, Some(reply), None, None).unwrap();
    assert_eq!(field(item(&out, 0), "domain"), &s("example.com"));

    let reg = domains(DomainsCommand::Register {
        domain: "example.com".to_owned(),
        years: 2,
        auto_renew: true,
        privacy: "high".to_owned(),
        registrant: "c_123".to_owned(),
        admin: None,
        tech: None,
        billing: None,
    });
    assert_eq!(reg.method, Method::Post);
    assert_eq!(reg.path, "domains/example.com");
    let body = reg.body.unwrap();
    assert_eq!(field(&body, "years"), &Json::PosInt(2));
    assert_eq!(field(&body, "autoRenew"), &Json::Bool(true));
    assert_eq!(field(field(&body, "contacts"), "registrant"), &s("c_123"));
    let out = interpret_reply(
        201,
        r#"{"success":true,"asyncOperationId":"op_reg"}"#,
        Some(obj(vec![("success", Json::Bool(true)), ("asyncOperationId", s("op_reg"))])),
        None,
        None,
    )
    .unwrap();
    assert_eq!(field(&out, "asyncOperationId"), &s("op_reg"));

    let req = domains(DomainsCommand::Autorenew { domain: "example.com".to_owned(), enable: true, disable: false });
    assert_eq!(req.method, Method::Put);
    assert_eq!(req.path, "domains/example.com/autorenew");
    assert_eq!(field(&req.body.unwrap(), "isEnabled"), &Json::Bool(true));

    let req = domains(DomainsCommand::Nameservers {
        domain: "example.com".to_owned(),
        provider: "custom".to_owned(),
        hosts: Some("ns1.example.com,ns2.example.com".to_owned()),
    });
    assert_eq!(req.method, Method::Put);
    assert_eq!(req.path, "domains/example.com/nameservers");
    assert_eq!(field(&req.body.unwrap(), "hosts"), &Json::Array(vec![s("ns1.example.com"), s("ns2.example.com")]));

    let req = domains(DomainsCommand::PersonalNs(PersonalNsCommand::List { domain: "example.com".to_owned() }));
    assert_eq!(req, get("domains/example.com/personal-nameservers"));
    let reply = Json::Array(vec![obj(vec![("host", s("ns1")), ("ips", Json::Array(vec![s("192.0.2.1")]))])]);
    let out = interpret_reply(200, r#"[{"host":"ns1","ips":["192.0.2.1"]}]"#, Some(reply), None, None).unwrap();
    assert_eq!(field(item(&out, 0), "host"), &s("ns1"));

    let req = domains(DomainsCommand::PersonalNs(PersonalNsCommand::Save {
        domain: "example.com".to_owned(),
        host: "ns1".to_owned(),
        ips: "192.0.2.1,2001:db8::1".to_owned(),
        rename: None,
    }));
    assert_eq!(req.method, Method::Put);
    assert_eq!(req.path, "domains/example.com/personal-nameservers/ns1");

    let req = domains(DomainsCommand::PersonalNs(PersonalNsCommand::Delete {
        domain: "example.com".to_owned(),
        host: "ns1".to_owned(),
    }));
    assert_eq!(req.method, Method::Delete);
    assert_eq!(req.path, "domains/example.com/personal-nameservers/ns1");
    assert!(interpret_reply(204, "", None, None, None).is_ok());
}

#[test]
fn dns_operations_and_filtering() {
    // Filter by type
    let action = spaceship::commands::dns::run(DnsCommand::List {
        domain: "example.com".to_owned(),
        take: 100,
        skip: 0,
        all: false,
        order_by: None,
        record_type: Some("CNAME".to_owned()),
        name: None,
    })
    .unwrap();
    let listing = match action {
        Action::ListDns(l) => l,
        other => panic!("expected a listing, got {other:?}"),
    };
    assert_eq!(listing.next_request(), get("dns/records/example.com?take=500&skip=0"));
    let page = obj(vec![
        (
            "items",
            Json::Array(vec![
                obj(vec![("name", s("@")), ("type", s("A")), ("address", s("192.0.2.1")), ("ttl", Json::PosInt(300))]),
                obj(vec![
                    ("name", s("www")),
                    ("type", s("CNAME")),
                    ("cname", s("example.com")),
                    ("ttl", Json::PosInt(300)),
                ]),
                obj(vec![
                    ("name", s("mail")),
                    ("type", s("MX")),
                    ("exchange", s("mail.example.com")),
                    ("preference", Json::PosInt(10)),
                ]),
            ]),
        ),
        ("total", Json::PosInt(3)),
    ]);
    let out = match listing.on_page(&page) {
        DnsStep::Done(out) => out,
        other => panic!("expected the result, got {other:?}"),
    };
    assert_eq!(field(&out, "total"), &Json::PosInt(1));
    assert_eq!(field(item(field(&out, "items"), 0), "name"), &s("www"));

    // Save with inline records
    let records = Json::Array(vec![obj(vec![
        ("name", s("www")),
        ("type", s("CNAME")),
        ("cname", s("example.com")),
        ("ttl", Json::PosInt(300)),
    ])]);
    let req = complete(Completion::DnsSave { domain: "example.com".to_owned(), force: true }, records).unwrap();
    assert_eq!(req.method, Method::Put);
    assert_eq!(req.path, "dns/records/example.com");
    assert_eq!(field(&req.body.unwrap(), "force"), &Json::Bool(true));

    // Delete with items envelope
    let del = obj(vec![(
        "items",
        Json::Array(vec![obj(vec![("name", s("www")), ("type", s("CNAME")), ("cname", s("example.com"))])]),
    )]);
    let req = complete(Completion::DnsDelete { domain: "example.com".to_owned() }, del).unwrap();
    assert_eq!(req.method, Method::Delete);
    assert!(matches!(req.body, Some(Json::Array(_))));
}

#[test]
fn contacts_and_sellerhub_and_hyperlift() {
    let req = planned(spaceship::commands::contacts::run(ContactsCommand::Save {
        first_name: "John".to_owned(),
        last_name: "Doe".to_owned(),
        email: "john@example.com".to_owned(),
        address: "123 Main St".to_owned(),
        city: "City".to_owned(),
        country: "US".to_owned(),
        phone: "+1.2125551234".to_owned(),
        phone_ext: None,
        fax: None,
        fax_ext: None,
        tax_number: None,
        organization: None,
        address2: None,
        state: None,
        postal_code: None,
    }));
    assert_eq!(req.method, Method::Put);
    assert_eq!(req.path, "contacts");
    assert_eq!(field(req.body.as_ref().unwrap(), "firstName"), &s("John"));
    let out = interpret_reply(200, r#"{"id":"contact_123"}"#, Some(obj(vec![("id", s("contact_123"))])), None, None)
        .unwrap();
    assert_eq!(field(&out, "id"), &s("contact_123"));

    let req = planned(spaceship::commands::contacts::run(ContactsCommand::Get { id: "c1".to_owned() }));
    assert_eq!(req, get("contacts/c1"));
    let out = interpret_reply(
        200,
        r#"{"id":"c1","firstName":"John"}"#,
        Some(obj(vec![("id", s("c1")), ("firstName", s("John"))])),
        None,
        None,
    )
    .unwrap();
    assert_eq!(field(&out, "firstName"), &s("John"));

    let req = planned(spaceship::commands::sellerhub::run(SellerhubCommand::List { take: 20, skip: 0 }));
    assert_eq!(req, get("sellerhub/domains?take=20&skip=0"));

    let req = planned(spaceship::commands::sellerhub::run(SellerhubCommand::Verification));
    assert_eq!(req, get("sellerhub/verification-records"));
    let out = interpret_reply(
        200,
        r#"{"options":["TXT","CNAME"]}"#,
        Some(obj(vec![("options", Json::Array(vec![s("TXT"), s("CNAME")]))])),
        None,
        None,
    )
    .unwrap();
    assert_eq!(item(field(&out, "options"), 0), &s("TXT"));

    let req = planned(spaceship::commands::hyperlift::run(HyperliftCommand::List { take: 20, skip: 0 }));
    assert_eq!(req, get("hyperlift/applications?take=20&skip=0"));

    let req = planned(spaceship::commands::hyperlift::run(HyperliftCommand::Scale { id: "app1".to_owned(), scale: 1 }));
    assert_eq!(req.method, Method::Put);
    assert_eq!(req.path, "hyperlift/applications/app1/scale");
    let out = interpret_reply(200, r#"{"status":"ok"}"#, Some(obj(vec![("status", s("ok"))])), None, None).unwrap();
    assert_eq!(field(&out, "status"), &s("ok"));

    let req = spaceship::commands::operations::run(OperationsCommand::Get { id: "op_99".to_owned() });
    assert_eq!(req, get("async-operations/op_99"));
    let out = interpret_reply(
        200,
        r#"{"id":"op_99","status":"completed"}"#,
        Some(obj(vec![("id", s("op_99")), ("status", s("completed"))])),
        None,
        None,
    )
    .unwrap();
    assert_eq!(field(&out, "status"), &s("completed"));
}

#[test]
fn http_errors_mapping() {
    let cases: [(u16, &str, u8, &str); 5] = [
        (403, "Insufficient permissions", 3, "auth_required"),
        (404, "Domain not found", 4, "not_found"),
        (429, "Slow down", 5, "rate_limited"),
        (422, "Invalid domain name", 6, "invalid_input"),
        (500, "Internal error", 2, "network"),
    ];
    for (status, message, exit, code) in cases {
        let body = format!("{{\"message\":\"{message}\"}}");
        let parsed = obj(vec![("message", s(message))]);
        let err = status_error(status, &body, Some(&parsed), None);
        assert_eq!(err.code.exit_code(), exit);
        assert_eq!(err.code.as_str(), code);
    }
}

#[test]
fn agent_readme_command() {
    let out = manual_json();
    assert_eq!(field(&out, "tool"), &s("spaceship"));
    assert_eq!(field(&out, "apiVersion"), &s("v1"));
    assert!(matches!(field(&out, "rules"), Json::Array(_)));
    assert_eq!(
        field(field(&out, "exitCodes"), "7"),
        &s("no_account - run spaceship accounts list or pass credentials")
    );

    let text = manual_text();
    assert!(text.contains("# spaceship - agent operating manual"));
}

#[test]
fn yaml_default_and_json_modes() {
    // Default is YAML
    assert!(!use_json(false, None));
    let out = obj(vec![("name", s("example.com")), ("status", s("active"))]);
    let yaml = spaceship::yaml::to_yaml(&out);
    assert!(yaml.contains("name: example.com"), "stdout should be YAML: {yaml}");

    // --format json produces JSON
    assert!(use_json(false, Some("json")));
    assert_eq!(field(&out, "name"), &s("example.com"));
}


/// A keystore and an API, held in memory, that the account flows run against.
struct World {
    conf: Config,
    keystore: Vec<(String, (String, String))>,
    /// Whether the API accepts credentials.
    api_accepts: bool,
    /// Every probe sent: the request and its headers.
    probes: Vec<(ApiRequest, Vec<(String, String)>)>,
    /// What standard input holds.
    stdin: String,
    interactive: bool,
    /// The answer typed at a confirmation question.
    answer: String,
}

fn copy_config(c: &Config) -> Config {
    Config {
        accounts: c
            .accounts
            .iter()
            .map(|(n, a)| (n.clone(), AccountConfig { identity: a.identity.clone(), added_at: a.added_at.clone() }))
            .collect(),
    }
}

impl World {
    fn new() -> World {
        World {
            conf: Config::new(),
            keystore: Vec::new(),
            api_accepts: true,
            probes: Vec::new(),
            stdin: String::new(),
            interactive: false,
            answer: String::new(),
        }
    }

    fn secret(&self, name: &str) -> Option<(String, String)> {
        self.keystore.iter().find(|(n, _)| n == name).map(|(_, v)| v.clone())
    }

    fn probe(&mut self, request: ApiRequest, key: &str, secret: &str) -> bool {
        self.probes.push((request, auth_headers(key, secret)));
        self.api_accepts
    }

    fn enroll(&mut self, en: Enrollment) -> Result<Json, Error> {
        let (mut st, mut act) = enroll_begin();
        loop {
            let ev = match act {
                EnrollAction::LoadConfig => EnrollEvent::ConfigLoaded {
                    config: copy_config(&self.conf),
                    now: "2024-01-01T00:00:00Z".to_owned(),
                    interactive: self.interactive,
                },
                EnrollAction::ReadKey(CredSource::Stdin) => EnrollEvent::KeyRead(std::mem::take(&mut self.stdin)),
                EnrollAction::ReadSecret(CredSource::Stdin) => EnrollEvent::SecretRead(std::mem::take(&mut self.stdin)),
                EnrollAction::ReadKey(_) | EnrollAction::ReadSecret(_) => panic!("no terminal in these scenarios"),
                EnrollAction::OpenStore => EnrollEvent::StoreOpened("plaintext".to_owned()),
                EnrollAction::Probe { request, key, secret } => {
                    if self.probe(request, &key, &secret) {
                        EnrollEvent::Probed
                    } else {
                        EnrollEvent::Failed(status_error(401, "", None, None))
                    }
                },
                EnrollAction::Store { name, key, secret } => {
                    self.keystore.retain(|(n, _)| *n != name);
                    self.keystore.push((name, (key, secret)));
                    EnrollEvent::Stored
                },
                EnrollAction::SaveConfig(c) => {
                    self.conf = c;
                    EnrollEvent::Saved
                },
                EnrollAction::Report(j) => return Ok(j),
                EnrollAction::Fail(e) => return Err(e),
                EnrollAction::Abort(m) => panic!("{m}"),
            };
            let (next, action) = enroll_step(&en, st, ev);
            st = next;
            act = action;
        }
    }

    fn add(&mut self, name: &str, key: Option<&str>, key_stdin: bool, secret: Option<&str>, force: bool) -> Result<Json, Error> {
        let task = spaceship::commands::accounts::run(AccountsCommand::Add {
            name: name.to_owned(),
            api_key: key.map(str::to_owned),
            api_key_stdin: key_stdin,
            api_secret: secret.map(str::to_owned),
            api_secret_stdin: false,
            force,
            skip_probe: false,
        })?;
        match task {
            AccountsTask::Add(en) => self.enroll(en),
            other => panic!("expected an enrollment, got {other:?}"),
        }
    }

    fn login(&mut self, args: LoginArgs) -> Result<Json, Error> {
        let en = spaceship::commands::login::run(args)?;
        self.enroll(en)
    }

    fn test(&mut self, name: &str) -> Result<Json, Error> {
        let (mut st, mut act) = test_begin();
        loop {
            let ev = match act {
                TestAction::LoadConfig => TestEvent::ConfigLoaded(copy_config(&self.conf)),
                TestAction::OpenStore => TestEvent::StoreOpened,
                TestAction::Lookup(stored) => match self.secret(&stored) {
                    Some((key, secret)) => TestEvent::Found { key, secret },
                    None => TestEvent::Missing,
                },
                TestAction::Probe { request, key, secret } => {
                    if self.probe(request, &key, &secret) {
                        TestEvent::Probed
                    } else {
                        TestEvent::Failed(status_error(401, "", None, None))
                    }
                },
                TestAction::Report(j) => return Ok(j),
                TestAction::Fail(e) => return Err(e),
            };
            let (next, action) = test_step(name, st, ev);
            st = next;
            act = action;
        }
    }

    fn remove(&mut self, name: &str, yes: bool) -> Result<Option<Json>, Error> {
        let (mut st, mut act) = remove_begin();
        loop {
            let ev = match act {
                RemoveAction::LoadConfig => RemoveEvent::ConfigLoaded {
                    config: copy_config(&self.conf),
                    interactive: self.interactive,
                },
                RemoveAction::Confirm(_) => RemoveEvent::Answered(self.answer.clone()),
                RemoveAction::OpenStore => RemoveEvent::StoreOpened("plaintext".to_owned()),
                RemoveAction::DeleteSecret(stored) => {
                    self.keystore.retain(|(n, _)| *n != stored);
                    RemoveEvent::Deleted
                },
                RemoveAction::SaveConfig(c) => {
                    self.conf = c;
                    RemoveEvent::Saved
                },
                RemoveAction::Report(j) => return Ok(Some(j)),
                RemoveAction::Finish => return Ok(None),
                RemoveAction::Fail(e) => return Err(e),
            };
            let (next, action) = remove_step(name, yes, st, ev);
            st = next;
            act = action;
        }
    }

    fn list(&mut self, check: bool) -> Json {
        let (mut st, mut act) = list_begin();
        loop {
            let ev = match act {
                ListAction::LoadConfig => ListEvent::ConfigLoaded(copy_config(&self.conf)),
                ListAction::OpenStore => ListEvent::StoreOpened("plaintext".to_owned()),
                ListAction::Lookup(name) => match self.secret(&name) {
                    Some((key, secret)) => ListEvent::Found { key, secret },
                    None => ListEvent::Missing,
                },
                ListAction::Probe { request, key, secret } => {
                    if self.probe(request, &key, &secret) {
                        ListEvent::Probed(None)
                    } else {
                        ListEvent::Probed(Some(spaceship::error::ErrorCode::AuthRequired))
                    }
                },
                ListAction::Report(j) => return j,
                ListAction::Fail(e) => panic!("{e:?}"),
            };
            let (next, action) = list_step(check, st, ev);
            st = next;
            act = action;
        }
    }

    fn names(&self) -> Vec<String> {
        self.conf.accounts.iter().map(|(n, _)| n.clone()).collect()
    }
}

fn header(h: &[(String, String)], name: &str) -> String {
    h.iter().find(|(k, _)| k.eq_ignore_ascii_case(name)).unwrap().1.clone()
}

fn with_work() -> World {
    let mut w = World::new();
    let out = w.add("work", Some("sp_key"), false, Some("sp_secret"), false).unwrap();
    assert_eq!(field(&out, "status"), &s("added"));
    w
}

#[test]
fn accounts_lifecycle() {
    let mut w = with_work();

    let (req, headers) = w.probes.last().unwrap();
    assert_eq!(*req, get("domains?take=1"));
    assert_eq!(header(headers, "x-api-key"), "sp_key");
    assert_eq!(header(headers, "x-api-secret"), "sp_secret");

    let probes = w.probes.len();
    let out = w.list(false);
    assert_eq!(w.probes.len(), probes);
    assert_eq!(field(&out, "count"), &Json::PosInt(1));
    assert_eq!(field(item(field(&out, "accounts"), 0), "keyStatus"), &s("stored"));
    assert_eq!(field(&out, "secretStore"), &s("plaintext"));

    let out = w.list(true);
    assert_eq!(field(item(field(&out, "accounts"), 0), "keyStatus"), &s("valid"));

    // Duplicate account needs --force
    let probes = w.probes.len();
    let err = w.add("WORK", Some("x"), false, Some("y"), false).unwrap_err();
    assert_eq!(err.code.exit_code(), 6);
    assert!(err.fix.unwrap().contains("--force"));
    assert_eq!(w.probes.len(), probes);
    assert_eq!(w.secret("work"), Some(("sp_key".to_owned(), "sp_secret".to_owned())));

    let out = w.test("Work").unwrap();
    assert_eq!(field(&out, "keyStatus"), &s("valid"));

    // Remove without --yes and non-interactive fails
    let err = w.remove("work", false).unwrap_err();
    assert_eq!(err.code.exit_code(), 6);
    assert!(err.fix.unwrap().contains("--yes"));
    assert_eq!(w.names(), vec!["work".to_owned()]);

    let out = w.remove("work", true).unwrap().unwrap();
    assert_eq!(field(&out, "status"), &s("removed"));
    assert_eq!(w.secret("work"), None);

    let out = w.list(false);
    assert_eq!(field(&out, "count"), &Json::PosInt(0));
}

#[test]
fn login_command_lifecycle() {
    let mut w = World::new();

    // Default account name "default"
    let out = w.login(login_args("default", "key_def", "sec_def", false)).unwrap();
    assert_eq!(field(&out, "status"), &s("logged_in"));
    assert_eq!(field(&out, "name"), &s("default"));
    assert_eq!(field(&out, "identity"), &s("key_def"));
    assert_eq!(w.names(), vec!["default".to_owned()]);
    assert_eq!(w.secret("default"), Some(("key_def".to_owned(), "sec_def".to_owned())));

    // Re-login without --force fails, sends nothing and keeps the stored credentials
    let probes = w.probes.len();
    let err = w.login(login_args("default", "k2", "s2", false)).unwrap_err();
    assert_eq!(err.code.exit_code(), 6);
    assert!(err.fix.unwrap().contains("--force"));
    assert_eq!(w.probes.len(), probes);
    assert_eq!(w.secret("default"), Some(("key_def".to_owned(), "sec_def".to_owned())));

    // Re-login with --force succeeds and replaces the entry
    let out = w.login(login_args("default", "k2", "s2", true)).unwrap();
    assert_eq!(field(&out, "status"), &s("logged_in"));
    assert_eq!(w.secret("default"), Some(("k2".to_owned(), "s2".to_owned())));
    assert_eq!(w.names(), vec!["default".to_owned()]);
    assert_eq!(w.conf.accounts[0].1.identity, "k2");

    // Login with named account
    let out = w.login(login_args("staging", "k_stg", "s_stg", false)).unwrap();
    assert_eq!(field(&out, "name"), &s("staging"));
}

#[test]
fn rejected_credentials_are_not_stored() {
    let mut w = World::new();
    w.api_accepts = false;
    let err = w.login(login_args("default", "bad", "worse", false)).unwrap_err();
    assert_eq!(err.code, spaceship::error::ErrorCode::AuthRequired);
    assert_eq!(w.probes.len(), 1);
    assert!(w.keystore.is_empty());
    assert!(w.names().is_empty());
}

#[test]
fn api_credentials_from_stdin() {
    let mut w = World::new();
    w.stdin = "key_from_stdin\n".to_owned();
    let out = w.add("piped", None, true, Some("sec_pipe"), false).unwrap();
    assert_eq!(field(&out, "status"), &s("added"));
    assert_eq!(header(&w.probes.last().unwrap().1, "x-api-key"), "key_from_stdin");
    assert_eq!(w.secret("piped"), Some(("key_from_stdin".to_owned(), "sec_pipe".to_owned())));
}

#[test]
fn login_key_and_secret_from_stdin_lines() {
    let mut w = World::new();
    w.stdin = "K\nS\n".to_owned();
    let mut args = login_args("ci", "", "", false);
    args.api_key = None;
    args.api_key_stdin = true;
    args.api_secret = None;
    w.login(args).unwrap();
    assert_eq!(w.secret("ci"), Some(("K".to_owned(), "S".to_owned())));
}

#[test]
fn removal_needs_confirmation() {
    let mut w = with_work();
    w.interactive = true;
    w.answer = "n\n".to_owned();
    assert_eq!(w.remove("work", false).unwrap(), None);
    assert_eq!(w.names(), vec!["work".to_owned()]);
    assert!(w.secret("work").is_some());
    w.answer = " Y \n".to_owned();
    assert!(w.remove("work", false).unwrap().is_some());
    assert!(w.names().is_empty());
}

#[test]
fn failed_resolution_plans_nothing() {
    let conf = Config::new();
    let creds = resolve(None, None, None, None, None, None, &conf).map(|r| match r {
        Resolution::Ready(r) => r,
        Resolution::Lookup(_) => unreachable!(),
    });
    let cmd = spaceship::commands::ApiCommand::Domains(DomainsCommand::List { take: 20, skip: 0, order_by: None });
    let err = spaceship::commands::prepare(cmd, creds).unwrap_err();
    assert_eq!(err.code.exit_code(), 7);
}

#[test]
fn listing_reports_missing_and_rejected_keys() {
    let mut w = with_work();
    w.add("alpha", Some("a_key"), false, Some("a_secret"), false).unwrap();
    w.keystore.retain(|(n, _)| n != "alpha");
    w.api_accepts = false;
    let out = w.list(true);
    assert_eq!(field(item(field(&out, "accounts"), 0), "name"), &s("alpha"));
    assert_eq!(field(item(field(&out, "accounts"), 0), "keyStatus"), &s("missing"));
    assert_eq!(field(item(field(&out, "accounts"), 1), "keyStatus"), &s("rejected"));
}

#[test]
fn login_key_and_secret_from_stdin_words() {
    let mut w = World::new();
    w.stdin = "  K  S\n".to_owned();
    let mut args = login_args("ci", "", "", false);
    args.api_key = None;
    args.api_key_stdin = true;
    args.api_secret = None;
    w.login(args).unwrap();
    assert_eq!(w.secret("ci"), Some(("K".to_owned(), "S".to_owned())));
}

#[test]
fn stdin_key_is_whole_text_when_secret_given() {
    let mut w = World::new();
    w.stdin = "  key with space \n".to_owned();
    w.add("piped", None, true, Some("sec"), false).unwrap();
    assert_eq!(w.secret("piped"), Some(("key with space".to_owned(), "sec".to_owned())));
}

#[test]
fn rejected_probe_fails_with_its_error_and_stops() {
    let en = spaceship::commands::accounts::enroll(
        spaceship::commands::accounts::EnrollKind::Add,
        "work",
        Some("sp_key".to_owned()),
        false,
        Some("sp_secret".to_owned()),
        false,
        false,
        false,
    )
    .unwrap();
    let (st, act) = enroll_begin();
    assert!(matches!(act, EnrollAction::LoadConfig));
    let (st, act) = enroll_step(
        &en,
        st,
        EnrollEvent::ConfigLoaded { config: Config::new(), now: "2024-01-01T00:00:00Z".to_owned(), interactive: false },
    );
    assert!(matches!(act, EnrollAction::OpenStore));
    let (st, act) = enroll_step(&en, st, EnrollEvent::StoreOpened("plaintext".to_owned()));
    assert!(matches!(act, EnrollAction::Probe { .. }));
    let refusal = status_error(403, "", None, None);
    let code = refusal.code;
    let (st, act) = enroll_step(&en, st, EnrollEvent::Failed(refusal));
    match act {
        EnrollAction::Fail(e) => assert_eq!(e.code, code),
        other => panic!("{other:?}"),
    }
    // Nothing is stored or saved afterwards, whatever is reported.
    let (st, act) = enroll_step(&en, st, EnrollEvent::Probed);
    assert!(matches!(act, EnrollAction::Fail(_)));
    let (_, act) = enroll_step(&en, st, EnrollEvent::Stored);
    assert!(matches!(act, EnrollAction::Fail(_)));
}

#[test]
fn blank_secret_is_refused_before_anything_is_stored() {
    let mut w = World::new();
    let err = w.add("work", Some("sp_key"), false, Some("   "), false).unwrap_err();
    assert_eq!(err.code, spaceship::error::ErrorCode::InvalidInput);
    assert!(w.probes.is_empty());
    assert!(w.keystore.is_empty());
    assert!(w.names().is_empty());
}
