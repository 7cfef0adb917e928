//! Account management: adding (and logging in), listing, testing and removing.

use vstd::prelude::*;
use crate::cli::AccountsCommand;
use crate::client::{ApiRequest, Method, RequestView, bare, call};
use crate::config::{AccountConfig, AccountView, Config, account_view, entries_view, find_account, insert_account, remove_account};
use crate::error::{Error, ErrorCode, ErrorView, opt_view, plain};
use crate::json::{Json, JsonView, entry_models, push_member};
use crate::text::{append_str, eq_ignore_case, is_blank, split_words, str_eq_ignore_case, trim, trimmed, words};
use vstd::utf8::{decode_utf8, encode_utf8, is_char_boundary};

verus! {

/// Which command stores credentials: `login` or `accounts add`.
#[derive(Debug, Clone, Copy, PartialEq, Eq, Structural)]
pub enum EnrollKind {
    Login,
    Add,
}

/// Storing credentials under a name, as `login` and `accounts add` do.
#[derive(Debug, PartialEq, Eq)]
pub struct Enrollment {
    pub kind: EnrollKind,
    /// The account name, trimmed.
    pub name: String,
    pub api_key: Option<String>,
    pub api_key_stdin: bool,
    pub api_secret: Option<String>,
    pub api_secret_stdin: bool,
    pub force: bool,
    pub skip_probe: bool,
}

/// What an accounts command does.
#[derive(Debug, PartialEq, Eq)]
pub enum AccountsTask {
    Add(Enrollment),
    List { check: bool },
    Test { name: String },
    Remove { name: String, yes: bool },
}

/// The refusal of a blank account name.
pub open spec fn empty_name_error() -> ErrorView {
    plain(ErrorCode::InvalidInput, "Account name cannot be empty."@)
}

/// The enrollment of a trimmed, non-blank name.
pub fn enroll(
    kind: EnrollKind,
    name: &str,
    api_key: Option<String>,
    api_key_stdin: bool,
    api_secret: Option<String>,
    api_secret_stdin: bool,
    force: bool,
    skip_probe: bool,
) -> (r: Result<Enrollment, Error>)
    ensures
        is_blank(name@) ==> (r matches Err(e) && e@ == empty_name_error()),
        !is_blank(name@) ==> (r matches Ok(en) && en.name@ == trimmed(name@) && en.kind == kind
            && en.api_key == api_key && en.api_key_stdin == api_key_stdin && en.api_secret
            == api_secret && en.api_secret_stdin == api_secret_stdin && en.force == force
            && en.skip_probe == skip_probe),
{
    let n = trim(name);
    if n.as_str().is_empty() {
        return Err(Error::invalid("Account name cannot be empty.".to_owned()));
    }
    Ok(Enrollment { kind, name: n, api_key, api_key_stdin, api_secret, api_secret_stdin, force, skip_probe })
}

/// What an accounts command does; adding refuses a blank name at once.
pub fn run(cmd: AccountsCommand) -> (r: Result<AccountsTask, Error>)
    ensures
        match cmd {
            AccountsCommand::Add {
                name,
                api_key,
                api_key_stdin,
                api_secret,
                api_secret_stdin,
                force,
                skip_probe,
            } => if is_blank(name@) {
                r matches Err(e) && e@ == empty_name_error()
            } else {
                r matches Ok(AccountsTask::Add(en)) && en.name@ == trimmed(name@) && en.kind == EnrollKind::Add
                    && en.api_key == api_key && en.api_key_stdin == api_key_stdin && en.api_secret == api_secret
                    && en.api_secret_stdin == api_secret_stdin && en.force == force && en.skip_probe == skip_probe
            },
            AccountsCommand::List { check } => r == Ok::<AccountsTask, Error>(AccountsTask::List { check }),
            AccountsCommand::Test { name } => r == Ok::<AccountsTask, Error>(AccountsTask::Test { name }),
            AccountsCommand::Remove { name, yes } => r == Ok::<AccountsTask, Error>(
                AccountsTask::Remove { name, yes },
            ),
        },
{
    match cmd {
        AccountsCommand::Add { name, api_key, api_key_stdin, api_secret, api_secret_stdin, force, skip_probe } => {
            match enroll(
                EnrollKind::Add,
                name.as_str(),
                api_key,
                api_key_stdin,
                api_secret,
                api_secret_stdin,
                force,
                skip_probe,
            ) {
                Ok(en) => Ok(AccountsTask::Add(en)),
                Err(e) => Err(e),
            }
        },
        AccountsCommand::List { check } => Ok(AccountsTask::List { check }),
        AccountsCommand::Test { name } => Ok(AccountsTask::Test { name }),
        AccountsCommand::Remove { name, yes } => Ok(AccountsTask::Remove { name, yes }),
    }
}

/// Where a credential comes from.
#[derive(Debug, PartialEq, Eq)]
pub enum CredSource {
    /// Given on the command line.
    Given(String),
    /// Read from standard input.
    Stdin,
    /// Asked for at the terminal with this prompt, without echo.
    Prompt(String),
}

pub enum SourceView {
    Given(Seq<char>),
    Stdin,
    Prompt(Seq<char>),
}

impl View for CredSource {
    type V = SourceView;

    open spec fn view(&self) -> SourceView {
        match self {
            CredSource::Given(s) => SourceView::Given(s@),
            CredSource::Stdin => SourceView::Stdin,
            CredSource::Prompt(p) => SourceView::Prompt(p@),
        }
    }
}

pub open spec fn source_outcome(r: Result<CredSource, Error>) -> Result<SourceView, ErrorView> {
    match r {
        Ok(x) => Ok(x@),
        Err(e) => Err(e@),
    }
}

/// Where a credential comes from: the flag's value; standard input when asked;
/// a prompt when neither is given and standard input is a terminal. Neither
/// given off a terminal, or both given, is refused.
pub open spec fn source_plan(
    given: Option<Seq<char>>,
    from_stdin: bool,
    interactive: bool,
    missing: Seq<char>,
    both: Seq<char>,
    prompt: Seq<char>,
) -> Result<SourceView, ErrorView> {
    match given {
        Some(k) => if from_stdin {
            Err(plain(ErrorCode::InvalidInput, both))
        } else {
            Ok(SourceView::Given(k))
        },
        None => if from_stdin {
            Ok(SourceView::Stdin)
        } else if !interactive {
            Err(plain(ErrorCode::InvalidInput, missing))
        } else {
            Ok(SourceView::Prompt(prompt))
        },
    }
}

fn source_of(given: &Option<String>, from_stdin: bool, interactive: bool, missing: &str, both: &str, prompt: &str) -> (r: Result<CredSource, Error>)
    ensures
        source_outcome(r) == source_plan(opt_view(*given), from_stdin, interactive, missing@, both@, prompt@),
{
    match given {
        Some(k) => if from_stdin {
            Err(Error::invalid(both.to_owned()))
        } else {
            Ok(CredSource::Given(k.clone()))
        },
        None => if from_stdin {
            Ok(CredSource::Stdin)
        } else if !interactive {
            Err(Error::invalid(missing.to_owned()))
        } else {
            Ok(CredSource::Prompt(prompt.to_owned()))
        },
    }
}

/// The remediation offered when the account exists already.
pub open spec fn exists_fix(kind: EnrollKind, name: Seq<char>) -> Seq<char> {
    match kind {
        EnrollKind::Login => "spaceship login "@ + name + " --force"@,
        EnrollKind::Add => "spaceship accounts add "@ + name + " --force"@,
    }
}

/// The word that reports a stored enrollment.
pub open spec fn enrolled_status(kind: EnrollKind) -> Seq<char> {
    match kind {
        EnrollKind::Login => "logged_in"@,
        EnrollKind::Add => "added"@,
    }
}

/// The short identity shown for a key: its first 8 bytes and `...` when it is
/// longer, else the whole key.
pub open spec fn identity_of(key: Seq<char>) -> Seq<char> {
    if encode_utf8(key).len() > 8 {
        decode_utf8(encode_utf8(key).take(8)) + "..."@
    } else {
        key
    }
}

/// Whether the identity of a key can be cut after 8 bytes without splitting a character.
pub open spec fn identity_cut_ok(key: Seq<char>) -> bool {
    encode_utf8(key).len() > 8 ==> is_char_boundary(encode_utf8(key), 8)
}

/// Whether the identity of `key` can be cut after 8 bytes.
pub fn identity_cut_fits(key: &str) -> (b: bool)
    ensures
        b == identity_cut_ok(key@),
{
    key.as_bytes().len() <= 8 || key.is_char_boundary(8)
}

/// The short identity shown for a key.
pub fn identity(key: &str) -> (r: String)
    requires
        identity_cut_ok(key@),
    ensures
        r@ == identity_of(key@),
{
    if key.as_bytes().len() > 8 {
        let (front, _) = key.split_at(8);
        proof {
            vstd::utf8::encode_utf8_decode_utf8(front@);
            assert(encode_utf8(key@).subrange(0, 8) =~= encode_utf8(key@).take(8));
        }
        let mut out = front.to_owned();
        append_str(&mut out, "...");
        out
    } else {
        key.to_owned()
    }
}

/// An ASCII key can always be shortened to its identity, which is its first 8
/// characters and `...` when it is longer, else the whole key: the identity
/// never shows more than 8 characters of a key.
pub proof fn law_ascii_identity(key: Seq<char>)
    requires
        vstd::utf8::is_ascii_chars(key),
    ensures
        identity_cut_ok(key),
        identity_of(key) == (if key.len() > 8 {
            key.take(8) + "..."@
        } else {
            key
        }),
{
    crate::commands::domains::lemma_ascii_cut(key, 0);
    if key.len() > 8 {
        crate::commands::domains::lemma_ascii_cut(key, 8);
        assert(encode_utf8(key).take(8) =~= encode_utf8(key).subrange(0, 8));
        assert(key.take(8) =~= key.subrange(0, 8));
    }
}

/// A trimmed credential that is not empty.
pub open spec fn accepted(raw: Seq<char>, empty_msg: Seq<char>) -> Result<Seq<char>, ErrorView> {
    if trimmed(raw).len() == 0 {
        Err(plain(ErrorCode::InvalidInput, empty_msg))
    } else {
        Ok(trimmed(raw))
    }
}

pub open spec fn text_outcome(r: Result<String, Error>) -> Result<Seq<char>, ErrorView> {
    match r {
        Ok(x) => Ok(x@),
        Err(e) => Err(e@),
    }
}

fn accept(raw: &str, empty_msg: &str) -> (r: Result<String, Error>)
    ensures
        text_outcome(r) == accepted(raw@, empty_msg@),
{
    let t = trim(raw);
    if t.as_str().is_empty() {
        Err(Error::invalid(empty_msg.to_owned()))
    } else {
        Ok(t)
    }
}

/// The API key as read, trimmed; an empty key is refused.
pub fn accept_key(raw: &str) -> (r: Result<String, Error>)
    ensures
        text_outcome(r) == accepted(raw@, "API key cannot be empty."@),
{
    accept(raw, "API key cannot be empty.")
}

/// The API secret as read, trimmed; an empty secret is refused.
pub fn accept_secret(raw: &str) -> (r: Result<String, Error>)
    ensures
        text_outcome(r) == accepted(raw@, "API secret cannot be empty."@),
{
    accept(raw, "API secret cannot be empty.")
}

impl Enrollment {
    /// Refuses a name that is configured already (compared up to ASCII case),
    /// unless forced.
    pub fn check_config(&self, conf: &Config) -> (r: Result<(), Error>)
        ensures
            (find_account(conf@, self.name@) is Some && !self.force) ==> (r matches Err(e) && e@ == plain(
                ErrorCode::InvalidInput,
                "Account '"@ + self.name@ + "' already exists."@,
            ).with_fix(exists_fix(self.kind, self.name@))),
            !(find_account(conf@, self.name@) is Some && !self.force) ==> r is Ok,
    {
        if conf.find(self.name.as_str()).is_some() && !self.force {
            let mut m = "Account '".to_owned();
            append_str(&mut m, self.name.as_str());
            append_str(&mut m, "' already exists.");
            let mut f = match self.kind {
                EnrollKind::Login => "spaceship login ".to_owned(),
                EnrollKind::Add => "spaceship accounts add ".to_owned(),
            };
            append_str(&mut f, self.name.as_str());
            append_str(&mut f, " --force");
            return Err(Error::invalid(m).fix(f));
        }
        Ok(())
    }

    /// Where the API key comes from.
    pub fn key_source(&self, interactive: bool) -> (r: Result<CredSource, Error>)
        ensures
            source_outcome(r) == source_plan(
                opt_view(self.api_key),
                self.api_key_stdin,
                interactive,
                "No API key provided. Pass --api-key or --api-key-stdin."@,
                "Cannot specify both --api-key and --api-key-stdin."@,
                "Enter Spaceship API Key: "@,
            ),
    {
        source_of(
            &self.api_key,
            self.api_key_stdin,
            interactive,
            "No API key provided. Pass --api-key or --api-key-stdin.",
            "Cannot specify both --api-key and --api-key-stdin.",
            "Enter Spaceship API Key: ",
        )
    }

    /// Where the API secret comes from.
    pub fn secret_source(&self, interactive: bool) -> (r: Result<CredSource, Error>)
        ensures
            source_outcome(r) == source_plan(
                opt_view(self.api_secret),
                self.api_secret_stdin,
                interactive,
                "No API secret provided. Pass --api-secret or --api-secret-stdin."@,
                "Cannot specify both --api-secret and --api-secret-stdin."@,
                "Enter Spaceship API Secret: "@,
            ),
    {
        source_of(
            &self.api_secret,
            self.api_secret_stdin,
            interactive,
            "No API secret provided. Pass --api-secret or --api-secret-stdin.",
            "Cannot specify both --api-secret and --api-secret-stdin.",
            "Enter Spaceship API Secret: ",
        )
    }

    /// The report of a stored enrollment.
    pub fn report(&self, identity: &str, store: &str) -> (r: Json)
        ensures
            r@ == enrolled_report(self.kind, self.name@, identity@, store@),
    {
        let status = match self.kind {
            EnrollKind::Login => "logged_in".to_owned(),
            EnrollKind::Add => "added".to_owned(),
        };
        let mut m: Vec<(String, Json)> = Vec::new();
        push_member(&mut m, "status", Json::Str(status));
        push_member(&mut m, "name", Json::Str(self.name.clone()));
        push_member(&mut m, "identity", Json::Str(identity.to_owned()));
        push_member(&mut m, "secretStore", Json::Str(store.to_owned()));
        proof {
            assert(entry_models(m@) =~= seq![
                ("status"@, JsonView::Str(enrolled_status(self.kind))),
                ("name"@, JsonView::Str(self.name@)),
                ("identity"@, JsonView::Str(identity@)),
                ("secretStore"@, JsonView::Str(store@)),
            ]);
        }
        Json::Object(m)
    }
}


/// What checking an account's stored credentials found.
#[derive(Debug, Clone, Copy, PartialEq, Eq, Structural)]
pub enum Probe {
    /// Not checked.
    NotChecked,
    /// The keystore has nothing under the account.
    Missing,
    /// The API accepted the credentials.
    Passed,
    /// The API call failed with this class of error.
    Failed(ErrorCode),
}

/// The status shown for an account's key.
pub open spec fn probe_label(p: Probe) -> Seq<char> {
    match p {
        Probe::NotChecked => "stored"@,
        Probe::Missing => "missing"@,
        Probe::Passed => "valid"@,
        Probe::Failed(ErrorCode::AuthRequired) => "rejected"@,
        Probe::Failed(_) => "unreachable"@,
    }
}

/// The status shown for an account's key.
pub fn key_status(p: Probe) -> (r: String)
    ensures
        r@ == probe_label(p),
{
    match p {
        Probe::NotChecked => "stored".to_owned(),
        Probe::Missing => "missing".to_owned(),
        Probe::Passed => "valid".to_owned(),
        Probe::Failed(ErrorCode::AuthRequired) => "rejected".to_owned(),
        Probe::Failed(_) => "unreachable".to_owned(),
    }
}

/// How one account appears in `accounts list`.
pub open spec fn listed_account(a: AccountView, status: Seq<char>) -> JsonView {
    JsonView::Object(
        seq![
            ("name"@, JsonView::Str(a.name)),
            ("identity"@, JsonView::Str(a.identity)),
            ("addedAt"@, JsonView::Str(a.added_at)),
            ("keyStatus"@, JsonView::Str(status)),
        ],
    )
}

/// The report of `accounts list`: the number of accounts, each with its key
/// status, and the name of the keystore.
pub open spec fn list_view(accounts: Seq<AccountView>, statuses: Seq<Seq<char>>, store: Seq<char>) -> JsonView {
    JsonView::Object(
        seq![
            ("count"@, JsonView::PosInt(accounts.len() as u64)),
            (
                "accounts"@,
                JsonView::Array(Seq::new(accounts.len(), |i: int| listed_account(accounts[i], statuses[i]))),
            ),
            ("secretStore"@, JsonView::Str(store)),
        ],
    )
}

/// The report of `accounts list`, for the accounts in the order shown and their
/// key statuses.
pub fn list_report(accounts: &Vec<(String, AccountConfig)>, statuses: &Vec<String>, store: &str) -> (r: Json)
    requires
        accounts.len() == statuses.len(),
    ensures
        r@ == list_view(entries_view(accounts@), crate::text::views(statuses@), store@),
{
    let ghost av = entries_view(accounts@);
    let ghost sv = crate::text::views(statuses@);
    let mut items: Vec<Json> = Vec::new();
    let mut i: usize = 0;
    while i < accounts.len()
        invariant
            i <= accounts.len() == statuses.len(),
            av == entries_view(accounts@),
            sv == crate::text::views(statuses@),
            crate::json::models(items@) == Seq::new(i as nat, |k: int| listed_account(av[k], sv[k])),
        decreases accounts.len() - i,
    {
        let (k, v) = &accounts[i];
        let mut m: Vec<(String, Json)> = Vec::new();
        push_member(&mut m, "name", Json::Str(k.clone()));
        push_member(&mut m, "identity", Json::Str(v.identity.clone()));
        push_member(&mut m, "addedAt", Json::Str(v.added_at.clone()));
        push_member(&mut m, "keyStatus", Json::Str(statuses[i].clone()));
        let x = Json::Object(m);
        proof {
            assert(av[i as int] == account_view(accounts@[i as int]));
            assert(sv[i as int] == statuses@[i as int]@);
            assert(entry_models(m@) =~= listed_account(av[i as int], sv[i as int])->Object_0);
        }
        let ghost before = items@;
        items.push(x);
        proof {
            crate::json::lemma_models_push(before, x);
            assert(crate::json::models(items@) =~= Seq::new((i + 1) as nat, |k: int| listed_account(av[k], sv[k])));
        }
        i = i + 1;
    }
    let n = accounts.len() as u64;
    let mut m: Vec<(String, Json)> = Vec::new();
    push_member(&mut m, "count", Json::PosInt(n));
    push_member(&mut m, "accounts", Json::Array(items));
    push_member(&mut m, "secretStore", Json::Str(store.to_owned()));
    proof {
        assert(entry_models(m@) =~= list_view(av, sv, store@)->Object_0);
    }
    Json::Object(m)
}

/// The refusal of an account name that is not configured.
pub open spec fn unknown_account(name: Seq<char>) -> ErrorView {
    plain(ErrorCode::InvalidInput, "No account named '"@ + name + "'."@).with_fix("spaceship accounts list"@)
}

/// The configured name of the account `name` (compared up to ASCII case), or
/// the refusal when there is none.
pub fn target_account(conf: &Config, name: &str) -> (r: Result<String, Error>)
    ensures
        match find_account(conf@, name@) {
            Some(i) => (r matches Ok(n) && n@ == conf@[i].name),
            None => (r matches Err(e) && e@ == unknown_account(name@)),
        },
{
    match conf.find(name) {
        Some(i) => {
            proof {
                assert(conf@[i as int] == account_view(conf.accounts@[i as int]));
            }
            Ok(conf.accounts[i].0.clone())
        },
        None => {
            let mut m = "No account named '".to_owned();
            append_str(&mut m, name);
            append_str(&mut m, "'.");
            Err(Error::invalid(m).fix("spaceship accounts list".to_owned()))
        },
    }
}

/// The refusal to test an account whose keystore entry is missing.
pub fn untestable(stored: &str) -> (e: Error)
    ensures
        e@ == plain(ErrorCode::AuthRequired, "Account '"@ + stored@ + "' has no stored credentials."@).with_fix(
            "spaceship accounts add "@ + stored@ + " --force"@,
        ),
{
    let mut m = "Account '".to_owned();
    append_str(&mut m, stored);
    append_str(&mut m, "' has no stored credentials.");
    let mut f = "spaceship accounts add ".to_owned();
    append_str(&mut f, stored);
    append_str(&mut f, " --force");
    Error::new(ErrorCode::AuthRequired, m).fix(f)
}

/// The report of a passed `accounts test`.
pub fn test_report(stored: &str) -> (r: Json)
    ensures
        r@ == JsonView::Object(seq![("account"@, JsonView::Str(stored@)), ("keyStatus"@, JsonView::Str("valid"@))]),
{
    let mut m: Vec<(String, Json)> = Vec::new();
    push_member(&mut m, "account", Json::Str(stored.to_owned()));
    push_member(&mut m, "keyStatus", Json::Str("valid".to_owned()));
    proof {
        assert(entry_models(m@) =~= seq![("account"@, JsonView::Str(stored@)), ("keyStatus"@, JsonView::Str("valid"@))]);
    }
    Json::Object(m)
}

/// Whether removing an account must first be confirmed at the terminal; without
/// `--yes` off a terminal the removal is refused.
pub fn removal_check(stored: &str, yes: bool, interactive: bool) -> (r: Result<bool, Error>)
    ensures
        yes ==> r == Ok::<bool, Error>(false),
        !yes && interactive ==> r == Ok::<bool, Error>(true),
        !yes && !interactive ==> (r matches Err(e) && e@ == plain(
            ErrorCode::InvalidInput,
            "To remove account '"@ + stored@ + "' non-interactively, pass --yes."@,
        ).with_fix("spaceship accounts remove "@ + stored@ + " --yes"@)),
{
    if yes {
        return Ok(false);
    }
    if !interactive {
        let mut m = "To remove account '".to_owned();
        append_str(&mut m, stored);
        append_str(&mut m, "' non-interactively, pass --yes.");
        let mut f = "spaceship accounts remove ".to_owned();
        append_str(&mut f, stored);
        append_str(&mut f, " --yes");
        return Err(Error::invalid(m).fix(f));
    }
    Ok(true)
}

/// The question asked before removing an account.
pub fn removal_prompt(stored: &str) -> (r: String)
    ensures
        r@ == "Remove account '"@ + stored@ + "' and delete stored credentials? [y/N]: "@,
{
    let mut m = "Remove account '".to_owned();
    append_str(&mut m, stored);
    append_str(&mut m, "' and delete stored credentials? [y/N]: ");
    m
}

/// Whether an answer confirms: `y` in either case, around whitespace.
pub fn confirmed(answer: &str) -> (b: bool)
    ensures
        b == eq_ignore_case(trimmed(answer@), "y"@),
{
    let t = trim(answer);
    str_eq_ignore_case(t.as_str(), "y")
}

/// The report of a removal.
pub fn removed_report(stored: &str) -> (r: Json)
    ensures
        r@ == JsonView::Object(seq![("status"@, JsonView::Str("removed"@)), ("name"@, JsonView::Str(stored@))]),
{
    let mut m: Vec<(String, Json)> = Vec::new();
    push_member(&mut m, "status", Json::Str("removed".to_owned()));
    push_member(&mut m, "name", Json::Str(stored.to_owned()));
    proof {
        assert(entry_models(m@) =~= seq![("status"@, JsonView::Str("removed"@)), ("name"@, JsonView::Str(stored@))]);
    }
    Json::Object(m)
}


// ---------------------------------------------------------------------------
// Storing credentials, step by step

/// Where storing credentials (`login`, `accounts add`) stands between steps.
#[derive(Debug, PartialEq, Eq)]
pub enum EnrollState {
    /// Nothing done yet; the configuration is being loaded.
    Start,
    /// The key is being read.
    NeedKey { config: Config, now: String, interactive: bool },
    /// The secret is being read.
    NeedSecret { config: Config, now: String, key: String },
    /// The credential store is being opened.
    NeedStore { config: Config, now: String, key: String, secret: String },
    /// The credentials are being tried against the API.
    Probing { config: Config, now: String, key: String, secret: String, store: String },
    /// The credentials are being written to the store.
    Storing { config: Config, now: String, key: String, secret: String, store: String },
    /// The configuration with the account is being written.
    Saving { store: String, identity: String },
    /// Finished.
    Done,
}

pub enum EnrollStateView {
    Start,
    NeedKey { config: Seq<AccountView>, now: Seq<char>, interactive: bool },
    NeedSecret { config: Seq<AccountView>, now: Seq<char>, key: Seq<char> },
    NeedStore { config: Seq<AccountView>, now: Seq<char>, key: Seq<char>, secret: Seq<char> },
    Probing { config: Seq<AccountView>, now: Seq<char>, key: Seq<char>, secret: Seq<char>, store: Seq<char> },
    Storing { config: Seq<AccountView>, now: Seq<char>, key: Seq<char>, secret: Seq<char>, store: Seq<char> },
    Saving { store: Seq<char>, identity: Seq<char> },
    Done,
}

impl View for EnrollState {
    type V = EnrollStateView;

    open spec fn view(&self) -> EnrollStateView {
        match self {
            EnrollState::Start => EnrollStateView::Start,
            EnrollState::NeedKey { config, now, interactive } => EnrollStateView::NeedKey {
                config: config@,
                now: now@,
                interactive: *interactive,
            },
            EnrollState::NeedSecret { config, now, key } => EnrollStateView::NeedSecret {
                config: config@,
                now: now@,
                key: key@,
            },
            EnrollState::NeedStore { config, now, key, secret } => EnrollStateView::NeedStore {
                config: config@,
                now: now@,
                key: key@,
                secret: secret@,
            },
            EnrollState::Probing { config, now, key, secret, store } => EnrollStateView::Probing {
                config: config@,
                now: now@,
                key: key@,
                secret: secret@,
                store: store@,
            },
            EnrollState::Storing { config, now, key, secret, store } => EnrollStateView::Storing {
                config: config@,
                now: now@,
                key: key@,
                secret: secret@,
                store: store@,
            },
            EnrollState::Saving { store, identity } => EnrollStateView::Saving {
                store: store@,
                identity: identity@,
            },
            EnrollState::Done => EnrollStateView::Done,
        }
    }
}

/// What happened since the last step.
#[derive(Debug, PartialEq, Eq)]
pub enum EnrollEvent {
    /// The configuration was loaded (under its lock), with the time of day and
    /// whether standard input is a terminal.
    ConfigLoaded { config: Config, now: String, interactive: bool },
    /// The text read for the key.
    KeyRead(String),
    /// The text read for the secret.
    SecretRead(String),
    /// The credential store was opened; its name.
    StoreOpened(String),
    /// The API accepted the credentials.
    Probed,
    /// The credentials were written to the store.
    Stored,
    /// The configuration was written.
    Saved,
    /// The last action failed.
    Failed(Error),
}

pub enum EnrollEventView {
    ConfigLoaded { config: Seq<AccountView>, now: Seq<char>, interactive: bool },
    KeyRead(Seq<char>),
    SecretRead(Seq<char>),
    StoreOpened(Seq<char>),
    Probed,
    Stored,
    Saved,
    Failed(ErrorView),
}

impl View for EnrollEvent {
    type V = EnrollEventView;

    open spec fn view(&self) -> EnrollEventView {
        match self {
            EnrollEvent::ConfigLoaded { config, now, interactive } => EnrollEventView::ConfigLoaded {
                config: config@,
                now: now@,
                interactive: *interactive,
            },
            EnrollEvent::KeyRead(t) => EnrollEventView::KeyRead(t@),
            EnrollEvent::SecretRead(t) => EnrollEventView::SecretRead(t@),
            EnrollEvent::StoreOpened(n) => EnrollEventView::StoreOpened(n@),
            EnrollEvent::Probed => EnrollEventView::Probed,
            EnrollEvent::Stored => EnrollEventView::Stored,
            EnrollEvent::Saved => EnrollEventView::Saved,
            EnrollEvent::Failed(e) => EnrollEventView::Failed(e@),
        }
    }
}

/// What to do next.
#[derive(Debug, PartialEq, Eq)]
pub enum EnrollAction {
    /// Take the configuration lock and load the configuration.
    LoadConfig,
    /// Read the key from this source.
    ReadKey(CredSource),
    /// Read the secret from this source.
    ReadSecret(CredSource),
    /// Open the credential store.
    OpenStore,
    /// Send this call with these credentials; it succeeds if the API accepts them.
    Probe { request: ApiRequest, key: String, secret: String },
    /// Write these credentials to the store under the account's name.
    Store { name: String, key: String, secret: String },
    /// Write this configuration.
    SaveConfig(Config),
    /// Print this report; the command succeeded.
    Report(Json),
    /// The command failed with this error.
    Fail(Error),
    /// The key cannot be shortened to its identity: stop the program with this message.
    Abort(String),
}

pub enum EnrollActionView {
    LoadConfig,
    ReadKey(SourceView),
    ReadSecret(SourceView),
    OpenStore,
    Probe { request: RequestView, key: Seq<char>, secret: Seq<char> },
    Store { name: Seq<char>, key: Seq<char>, secret: Seq<char> },
    SaveConfig(Seq<AccountView>),
    Report(JsonView),
    Fail(ErrorView),
    Abort(Seq<char>),
}

impl View for EnrollAction {
    type V = EnrollActionView;

    open spec fn view(&self) -> EnrollActionView {
        match self {
            EnrollAction::LoadConfig => EnrollActionView::LoadConfig,
            EnrollAction::ReadKey(s) => EnrollActionView::ReadKey(s@),
            EnrollAction::ReadSecret(s) => EnrollActionView::ReadSecret(s@),
            EnrollAction::OpenStore => EnrollActionView::OpenStore,
            EnrollAction::Probe { request, key, secret } => EnrollActionView::Probe {
                request: request@,
                key: key@,
                secret: secret@,
            },
            EnrollAction::Store { name, key, secret } => EnrollActionView::Store {
                name: name@,
                key: key@,
                secret: secret@,
            },
            EnrollAction::SaveConfig(c) => EnrollActionView::SaveConfig(c@),
            EnrollAction::Report(j) => EnrollActionView::Report(j@),
            EnrollAction::Fail(e) => EnrollActionView::Fail(e@),
            EnrollAction::Abort(m) => EnrollActionView::Abort(m@),
        }
    }
}

/// The call that checks a pair of credentials: a one-item domain list.
pub open spec fn probe_request() -> RequestView {
    bare(Method::Get, "domains?take=1"@)
}

/// The refusal of a name that is configured already.
pub open spec fn exists_error(kind: EnrollKind, name: Seq<char>) -> ErrorView {
    plain(ErrorCode::InvalidInput, "Account '"@ + name + "' already exists."@).with_fix(exists_fix(kind, name))
}

/// The refusal of an event that does not fit the step the enrollment is at.
pub open spec fn out_of_order() -> ErrorView {
    plain(ErrorCode::Error, "A step came out of order."@)
}

/// Why the program stops when the key's identity cannot be cut after 8 bytes.
pub open spec fn cut_message() -> Seq<char> {
    "byte index 8 is not a char boundary in the API key"@
}

/// The report of a stored enrollment.
pub open spec fn enrolled_report(kind: EnrollKind, name: Seq<char>, identity: Seq<char>, store: Seq<char>) -> JsonView {
    JsonView::Object(
        seq![
            ("status"@, JsonView::Str(enrolled_status(kind))),
            ("name"@, JsonView::Str(name)),
            ("identity"@, JsonView::Str(identity)),
            ("secretStore"@, JsonView::Str(store)),
        ],
    )
}

/// Where the key comes from.
pub open spec fn key_plan(en: Enrollment, interactive: bool) -> Result<SourceView, ErrorView> {
    source_plan(
        opt_view(en.api_key),
        en.api_key_stdin,
        interactive,
        "No API key provided. Pass --api-key or --api-key-stdin."@,
        "Cannot specify both --api-key and --api-key-stdin."@,
        "Enter Spaceship API Key: "@,
    )
}

/// Where the secret comes from.
pub open spec fn secret_plan(en: Enrollment, interactive: bool) -> Result<SourceView, ErrorView> {
    source_plan(
        opt_view(en.api_secret),
        en.api_secret_stdin,
        interactive,
        "No API secret provided. Pass --api-secret or --api-secret-stdin."@,
        "Cannot specify both --api-secret and --api-secret-stdin."@,
        "Enter Spaceship API Secret: "@,
    )
}

/// After the secret's text: the trimmed secret, then the store is opened.
pub open spec fn after_secret(config: Seq<AccountView>, now: Seq<char>, key: Seq<char>, raw: Seq<char>) -> (
    EnrollStateView,
    EnrollActionView,
) {
    match accepted(raw, "API secret cannot be empty."@) {
        Err(e) => (EnrollStateView::Done, EnrollActionView::Fail(e)),
        Ok(secret) => (EnrollStateView::NeedStore { config, now, key, secret }, EnrollActionView::OpenStore),
    }
}

/// Once the key is known: the secret from the second line of standard input
/// when there is one, else from its own source.
pub open spec fn secret_stage(
    en: Enrollment,
    config: Seq<AccountView>,
    now: Seq<char>,
    interactive: bool,
    key: Seq<char>,
    second: Option<Seq<char>>,
) -> (EnrollStateView, EnrollActionView) {
    match second {
        Some(l) => after_secret(config, now, key, l),
        None => match secret_plan(en, interactive) {
            Err(e) => (EnrollStateView::Done, EnrollActionView::Fail(e)),
            Ok(SourceView::Given(t)) => after_secret(config, now, key, t),
            Ok(src) => (EnrollStateView::NeedSecret { config, now, key }, EnrollActionView::ReadSecret(src)),
        },
    }
}

/// After the key's text. Read from standard input with no secret given on
/// the command line, the text holds the key and the secret separated by a line
/// break or a space: the key is its first word and the second word, when there
/// is one, is the secret. Otherwise the whole text is the key. The key is trimmed.
pub open spec fn after_key(
    en: Enrollment,
    config: Seq<AccountView>,
    now: Seq<char>,
    interactive: bool,
    raw: Seq<char>,
    from_stdin: bool,
) -> (EnrollStateView, EnrollActionView) {
    let split = from_stdin && en.api_secret is None;
    let ws = words(raw);
    let k = if split {
        if ws.len() > 0 {
            ws[0]
        } else {
            Seq::<char>::empty()
        }
    } else {
        raw
    };
    match accepted(k, "API key cannot be empty."@) {
        Err(e) => (EnrollStateView::Done, EnrollActionView::Fail(e)),
        Ok(key) => secret_stage(
            en,
            config,
            now,
            interactive,
            key,
            if split && ws.len() >= 2 {
                Some(ws[1])
            } else {
                None
            },
        ),
    }
}

/// One step of storing credentials: from where it stands and what happened,
/// where it stands next and what to do.
/// - The configuration is checked first: a name configured already (up to
///   ASCII case) is refused unless forced, before anything is read or sent.
/// - Then the key and the secret are read and checked.
/// - Then the store is opened and, unless the probe is skipped, the
///   credentials are tried; they are stored only once the API accepted them.
/// - Then the account is recorded in the configuration and reported.
/// Any failure ends the enrollment with that failure.
pub open spec fn enroll_next(en: Enrollment, st: EnrollStateView, ev: EnrollEventView) -> (
    EnrollStateView,
    EnrollActionView,
) {
    let ooo = (EnrollStateView::Done, EnrollActionView::Fail(out_of_order()));
    match ev {
        EnrollEventView::Failed(e) => (EnrollStateView::Done, EnrollActionView::Fail(e)),
        EnrollEventView::ConfigLoaded { config, now, interactive } => match st {
            EnrollStateView::Start => if find_account(config, en.name@) is Some && !en.force {
                (EnrollStateView::Done, EnrollActionView::Fail(exists_error(en.kind, en.name@)))
            } else {
                match key_plan(en, interactive) {
                    Err(e) => (EnrollStateView::Done, EnrollActionView::Fail(e)),
                    Ok(SourceView::Given(k)) => after_key(en, config, now, interactive, k, false),
                    Ok(src) => (EnrollStateView::NeedKey { config, now, interactive }, EnrollActionView::ReadKey(src)),
                }
            },
            _ => ooo,
        },
        EnrollEventView::KeyRead(t) => match st {
            EnrollStateView::NeedKey { config, now, interactive } => after_key(
                en,
                config,
                now,
                interactive,
                t,
                en.api_key_stdin,
            ),
            _ => ooo,
        },
        EnrollEventView::SecretRead(t) => match st {
            EnrollStateView::NeedSecret { config, now, key } => after_secret(config, now, key, t),
            _ => ooo,
        },
        EnrollEventView::StoreOpened(store) => match st {
            EnrollStateView::NeedStore { config, now, key, secret } => if en.skip_probe {
                (
                    EnrollStateView::Storing { config, now, key, secret, store },
                    EnrollActionView::Store { name: en.name@, key, secret },
                )
            } else {
                (
                    EnrollStateView::Probing { config, now, key, secret, store },
                    EnrollActionView::Probe { request: probe_request(), key, secret },
                )
            },
            _ => ooo,
        },
        EnrollEventView::Probed => match st {
            EnrollStateView::Probing { config, now, key, secret, store } => (
                EnrollStateView::Storing { config, now, key, secret, store },
                EnrollActionView::Store { name: en.name@, key, secret },
            ),
            _ => ooo,
        },
        EnrollEventView::Stored => match st {
            EnrollStateView::Storing { config, now, key, secret, store } => if !identity_cut_ok(key) {
                (EnrollStateView::Done, EnrollActionView::Abort(cut_message()))
            } else {
                (
                    EnrollStateView::Saving { store, identity: identity_of(key) },
                    EnrollActionView::SaveConfig(
                        insert_account(config, AccountView { name: en.name@, identity: identity_of(key), added_at: now }),
                    ),
                )
            },
            _ => ooo,
        },
        EnrollEventView::Saved => match st {
            EnrollStateView::Saving { store, identity } => (
                EnrollStateView::Done,
                EnrollActionView::Report(enrolled_report(en.kind, en.name@, identity, store)),
            ),
            _ => ooo,
        },
    }
}

/// The first step: load the configuration.
pub fn enroll_begin() -> (r: (EnrollState, EnrollAction))
    ensures
        r.0@ == EnrollStateView::Start,
        r.1@ == EnrollActionView::LoadConfig,
{
    (EnrollState::Start, EnrollAction::LoadConfig)
}

fn out_of_order_error() -> (e: Error)
    ensures
        e@ == out_of_order(),
{
    Error::new(ErrorCode::Error, "A step came out of order.".to_owned())
}

fn secret_read(config: Config, now: String, key: String, raw: &str) -> (r: (EnrollState, EnrollAction))
    ensures
        (r.0@, r.1@) == after_secret(config@, now@, key@, raw@),
{
    match accept_secret(raw) {
        Err(e) => (EnrollState::Done, EnrollAction::Fail(e)),
        Ok(secret) => (EnrollState::NeedStore { config, now, key, secret }, EnrollAction::OpenStore),
    }
}

fn secret_step(
    en: &Enrollment,
    config: Config,
    now: String,
    interactive: bool,
    key: String,
    second: Option<String>,
) -> (r: (EnrollState, EnrollAction))
    ensures
        (r.0@, r.1@) == secret_stage(*en, config@, now@, interactive, key@, opt_view(second)),
{
    match second {
        Some(l) => secret_read(config, now, key, l.as_str()),
        None => match en.secret_source(interactive) {
            Err(e) => (EnrollState::Done, EnrollAction::Fail(e)),
            Ok(CredSource::Given(t)) => secret_read(config, now, key, t.as_str()),
            Ok(src) => (EnrollState::NeedSecret { config, now, key }, EnrollAction::ReadSecret(src)),
        },
    }
}

fn key_read(en: &Enrollment, config: Config, now: String, interactive: bool, raw: &str, from_stdin: bool) -> (r: (
    EnrollState,
    EnrollAction,
))
    ensures
        (r.0@, r.1@) == after_key(*en, config@, now@, interactive, raw@, from_stdin),
{
    let split = from_stdin && en.api_secret.is_none();
    let ws = split_words(raw);
    let k: String = if split {
        if ws.len() > 0 {
            ws[0].clone()
        } else {
            String::new()
        }
    } else {
        raw.to_owned()
    };
    match accept_key(k.as_str()) {
        Err(e) => (EnrollState::Done, EnrollAction::Fail(e)),
        Ok(key) => {
            let second = if split && ws.len() >= 2 {
                Some(ws[1].clone())
            } else {
                None
            };
            secret_step(en, config, now, interactive, key, second)
        },
    }
}

/// One step of storing credentials.
pub fn enroll_step(en: &Enrollment, st: EnrollState, ev: EnrollEvent) -> (r: (EnrollState, EnrollAction))
    ensures
        (r.0@, r.1@) == enroll_next(*en, st@, ev@),
{
    match ev {
        EnrollEvent::Failed(e) => (EnrollState::Done, EnrollAction::Fail(e)),
        EnrollEvent::ConfigLoaded { config, now, interactive } => match st {
            EnrollState::Start => match en.check_config(&config) {
                Err(e) => (EnrollState::Done, EnrollAction::Fail(e)),
                Ok(()) => match en.key_source(interactive) {
                    Err(e) => (EnrollState::Done, EnrollAction::Fail(e)),
                    Ok(CredSource::Given(k)) => key_read(en, config, now, interactive, k.as_str(), false),
                    Ok(src) => (EnrollState::NeedKey { config, now, interactive }, EnrollAction::ReadKey(src)),
                },
            },
            _ => (EnrollState::Done, EnrollAction::Fail(out_of_order_error())),
        },
        EnrollEvent::KeyRead(t) => match st {
            EnrollState::NeedKey { config, now, interactive } => key_read(
                en,
                config,
                now,
                interactive,
                t.as_str(),
                en.api_key_stdin,
            ),
            _ => (EnrollState::Done, EnrollAction::Fail(out_of_order_error())),
        },
        EnrollEvent::SecretRead(t) => match st {
            EnrollState::NeedSecret { config, now, key } => secret_read(config, now, key, t.as_str()),
            _ => (EnrollState::Done, EnrollAction::Fail(out_of_order_error())),
        },
        EnrollEvent::StoreOpened(store) => match st {
            EnrollState::NeedStore { config, now, key, secret } => if en.skip_probe {
                let (k2, s2) = (key.clone(), secret.clone());
                (
                    EnrollState::Storing { config, now, key, secret, store },
                    EnrollAction::Store { name: en.name.clone(), key: k2, secret: s2 },
                )
            } else {
                let (k2, s2) = (key.clone(), secret.clone());
                (
                    EnrollState::Probing { config, now, key, secret, store },
                    EnrollAction::Probe { request: call(Method::Get, "domains?take=1".to_owned()), key: k2, secret: s2 },
                )
            },
            _ => (EnrollState::Done, EnrollAction::Fail(out_of_order_error())),
        },
        EnrollEvent::Probed => match st {
            EnrollState::Probing { config, now, key, secret, store } => {
                let (k2, s2) = (key.clone(), secret.clone());
                (
                    EnrollState::Storing { config, now, key, secret, store },
                    EnrollAction::Store { name: en.name.clone(), key: k2, secret: s2 },
                )
            },
            _ => (EnrollState::Done, EnrollAction::Fail(out_of_order_error())),
        },
        EnrollEvent::Stored => match st {
            EnrollState::Storing { config, now, key, secret: _, store } => {
                if !identity_cut_fits(key.as_str()) {
                    (EnrollState::Done, EnrollAction::Abort("byte index 8 is not a char boundary in the API key".to_owned()))
                } else {
                    let id = identity(key.as_str());
                    let mut config = config;
                    config.insert(en.name.clone(), AccountConfig { identity: id.clone(), added_at: now });
                    (EnrollState::Saving { store, identity: id }, EnrollAction::SaveConfig(config))
                }
            },
            _ => (EnrollState::Done, EnrollAction::Fail(out_of_order_error())),
        },
        EnrollEvent::Saved => match st {
            EnrollState::Saving { store, identity } => (
                EnrollState::Done,
                EnrollAction::Report(en.report(identity.as_str(), store.as_str())),
            ),
            _ => (EnrollState::Done, EnrollAction::Fail(out_of_order_error())),
        },
    }
}

/// A whole enrollment: the state after these events and every action taken,
/// the first being the initial `LoadConfig` and each later one the answer to
/// the event before it.
pub open spec fn enroll_run(en: Enrollment, evs: Seq<EnrollEventView>) -> (EnrollStateView, Seq<EnrollActionView>)
    decreases evs.len(),
{
    if evs.len() == 0 {
        (EnrollStateView::Start, seq![EnrollActionView::LoadConfig])
    } else {
        let prev = enroll_run(en, evs.drop_last());
        let step = enroll_next(en, prev.0, evs.last());
        (step.0, prev.1.push(step.1))
    }
}

proof fn lemma_enroll_run(en: Enrollment, evs: Seq<EnrollEventView>)
    ensures
        enroll_run(en, evs).1.len() == evs.len() + 1,
        !en.skip_probe && (enroll_run(en, evs).0 is Probing || enroll_run(en, evs).0 is Storing
            || enroll_run(en, evs).0 is Saving) ==> exists|j: int|
            0 <= j < enroll_run(en, evs).1.len() && #[trigger] enroll_run(en, evs).1[j] is Probe,
        forall|i: int|
            0 <= i < enroll_run(en, evs).1.len() && (#[trigger] enroll_run(en, evs).1[i] is Store) ==> en.skip_probe || (
            1 <= i && evs[i - 1] is Probed && exists|j: int| 0 <= j < i && #[trigger] enroll_run(en, evs).1[j] is Probe),
    decreases evs.len(),
{
    if evs.len() > 0 {
        let p = evs.drop_last();
        lemma_enroll_run(en, p);
        let prev = enroll_run(en, p);
        let step = enroll_next(en, prev.0, evs.last());
        let acts = enroll_run(en, evs).1;
        assert(acts == prev.1.push(step.1));
        assert forall|k: int| 0 <= k < prev.1.len() implies acts[k] == prev.1[k] by {}
        if !en.skip_probe && (prev.0 is Probing || prev.0 is Storing || prev.0 is Saving) {
            let j = choose|j: int| 0 <= j < prev.1.len() && #[trigger] prev.1[j] is Probe;
            assert(acts[j] is Probe);
        }
        if step.1 is Probe {
            assert(acts[prev.1.len() as int] is Probe);
        }
        assert forall|i: int| 0 <= i < acts.len() && (#[trigger] acts[i] is Store) implies en.skip_probe || (1 <= i
            && evs[i - 1] is Probed && exists|j: int| 0 <= j < i && #[trigger] acts[j] is Probe) by {
            if i < prev.1.len() {
                assert(prev.1[i] is Store);
                if !en.skip_probe {
                    assert(1 <= i);
                    assert(evs[i - 1] == p[i - 1]);
                    let j = choose|j: int| 0 <= j < i && #[trigger] prev.1[j] is Probe;
                    assert(acts[j] is Probe);
                }
            } else {
                assert(i == prev.1.len());
                assert(evs[i - 1] == evs.last());
                if !en.skip_probe {
                    assert(prev.0 is Probing);
                    let j = choose|j: int| 0 <= j < prev.1.len() && #[trigger] prev.1[j] is Probe;
                    assert(acts[j] is Probe);
                }
            }
        }
    }
}

/// Credentials are stored only once the API has accepted them: unless the
/// probe is skipped, every `Store` answers a successful probe reply, and a
/// `Probe` came before it. A rejected probe therefore stores nothing.
pub proof fn law_store_only_after_probe(en: Enrollment, evs: Seq<EnrollEventView>)
    ensures
        forall|i: int|
            0 <= i < enroll_run(en, evs).1.len() && (#[trigger] enroll_run(en, evs).1[i] is Store) ==> en.skip_probe || (
            1 <= i && evs[i - 1] is Probed && exists|j: int| 0 <= j < i && #[trigger] enroll_run(en, evs).1[j] is Probe),
{
    lemma_enroll_run(en, evs);
}

/// A name configured already (up to ASCII case) and not forced is refused as
/// soon as the configuration is loaded, and nothing else happens after: no
/// credential is read, no call is sent, nothing is stored or saved.
pub proof fn law_existing_account_refused_first(en: Enrollment, evs: Seq<EnrollEventView>)
    requires
        evs.len() >= 1,
        evs[0] matches EnrollEventView::ConfigLoaded { config, .. } && find_account(config, en.name@) is Some,
        !en.force,
    ensures
        enroll_run(en, evs).1[1] == EnrollActionView::Fail(exists_error(en.kind, en.name@)),
        enroll_run(en, evs).0 is Done,
        forall|i: int| 1 <= i < enroll_run(en, evs).1.len() ==> #[trigger] enroll_run(en, evs).1[i] is Fail,
    decreases evs.len(),
{
    let p = evs.drop_last();
    let acts = enroll_run(en, evs).1;
    if evs.len() == 1 {
        assert(p.len() == 0);
        assert(evs.last() == evs[0]);
    } else {
        assert(p[0] == evs[0]);
        law_existing_account_refused_first(en, p);
        lemma_enroll_run(en, p);
        let prev = enroll_run(en, p);
        assert(acts == prev.1.push(enroll_next(en, prev.0, evs.last()).1));
        assert forall|i: int| 1 <= i < acts.len() implies #[trigger] acts[i] is Fail by {
            if i < prev.1.len() {
                assert(acts[i] == prev.1[i]);
            }
        }
        assert(acts[1] == prev.1[1]);
    }
}

/// The states of an enrollment before anything is stored.
pub open spec fn before_storing(st: EnrollStateView) -> bool {
    st is Start || st is NeedKey || st is NeedSecret || st is NeedStore || st is Probing
}

/// An action that stores credentials, writes the configuration or prints.
pub open spec fn leaves_a_trace(a: EnrollActionView) -> bool {
    a is Store || a is SaveConfig || a is Report
}

proof fn lemma_step_before_storing(en: Enrollment, st: EnrollStateView, ev: EnrollEventView)
    requires
        before_storing(st),
    ensures
        before_storing(enroll_next(en, st, ev).0) ==> !leaves_a_trace(enroll_next(en, st, ev).1),
        !(enroll_next(en, st, ev).1 is SaveConfig) && !(enroll_next(en, st, ev).1 is Report),
        enroll_next(en, st, ev).1 is Fail ==> enroll_next(en, st, ev).0 is Done,
{
}

proof fn lemma_no_trace_before_storing(en: Enrollment, evs: Seq<EnrollEventView>)
    ensures
        before_storing(enroll_run(en, evs).0) ==> forall|k: int|
            0 <= k < enroll_run(en, evs).1.len() ==> !leaves_a_trace(#[trigger] enroll_run(en, evs).1[k]),
    decreases evs.len(),
{
    if evs.len() > 0 {
        let p = evs.drop_last();
        lemma_no_trace_before_storing(en, p);
        lemma_enroll_run(en, p);
        let prev = enroll_run(en, p);
        let step = enroll_next(en, prev.0, evs.last());
        let acts = enroll_run(en, evs).1;
        assert(acts == prev.1.push(step.1));
        if before_storing(step.0) {
            assert(before_storing(prev.0));
            lemma_step_before_storing(en, prev.0, evs.last());
            assert forall|k: int| 0 <= k < acts.len() implies !leaves_a_trace(#[trigger] acts[k]) by {
                if k < prev.1.len() {
                    assert(acts[k] == prev.1[k]);
                }
            }
        }
    }
}

proof fn lemma_done_stays_done(en: Enrollment, evs: Seq<EnrollEventView>, rest: Seq<EnrollEventView>)
    requires
        enroll_run(en, evs).0 is Done,
    ensures
        enroll_run(en, evs + rest).0 is Done,
        enroll_run(en, evs + rest).1.len() == evs.len() + rest.len() + 1,
        forall|k: int| 0 <= k <= evs.len() ==> #[trigger] enroll_run(en, evs + rest).1[k] == enroll_run(en, evs).1[k],
        forall|k: int| evs.len() < k < enroll_run(en, evs + rest).1.len() ==> #[trigger] enroll_run(en, evs + rest).1[k] is Fail,
    decreases rest.len(),
{
    lemma_enroll_run(en, evs);
    lemma_enroll_run(en, evs + rest);
    if rest.len() == 0 {
        assert(evs + rest == evs);
    } else {
        let r = rest.drop_last();
        lemma_done_stays_done(en, evs, r);
        assert((evs + rest).drop_last() == evs + r);
        assert((evs + rest).last() == rest.last());
        let prev = enroll_run(en, evs + r);
        let acts = enroll_run(en, evs + rest).1;
        assert(acts == prev.1.push(enroll_next(en, prev.0, rest.last()).1));
        assert forall|k: int| 0 <= k <= evs.len() implies #[trigger] acts[k] == enroll_run(en, evs).1[k] by {
            assert(acts[k] == prev.1[k]);
        }
        assert forall|k: int| evs.len() < k < acts.len() implies #[trigger] acts[k] is Fail by {
            if k < prev.1.len() {
                assert(acts[k] == prev.1[k]);
            }
        }
    }
}

/// A refusal before anything is stored ends the enrollment and leaves no
/// trace: whatever the refusal (an account that exists, a blank key or
/// secret, a credential that cannot be read, a rejected probe), no credential
/// is stored, the configuration is not written and nothing is printed, and
/// every later step fails too.
pub proof fn law_refusal_before_storing_leaves_no_trace(
    en: Enrollment,
    pre: Seq<EnrollEventView>,
    ev: EnrollEventView,
    rest: Seq<EnrollEventView>,
)
    requires
        before_storing(enroll_run(en, pre).0),
        enroll_next(en, enroll_run(en, pre).0, ev).1 is Fail,
    ensures
        enroll_run(en, pre.push(ev) + rest).1[pre.len() as int + 1] == enroll_next(en, enroll_run(en, pre).0, ev).1,
        enroll_run(en, pre.push(ev) + rest).0 is Done,
        forall|k: int|
            0 <= k < enroll_run(en, pre.push(ev) + rest).1.len() ==> !leaves_a_trace(
                #[trigger] enroll_run(en, pre.push(ev) + rest).1[k],
            ),
        forall|k: int|
            pre.len() < k < enroll_run(en, pre.push(ev) + rest).1.len() ==> #[trigger] enroll_run(
                en,
                pre.push(ev) + rest,
            ).1[k] is Fail,
{
    let evs = pre.push(ev);
    lemma_enroll_run(en, pre);
    lemma_step_before_storing(en, enroll_run(en, pre).0, ev);
    lemma_no_trace_before_storing(en, pre);
    assert(evs.drop_last() == pre);
    assert(evs.last() == ev);
    let first = enroll_run(en, evs);
    assert(first.1 == enroll_run(en, pre).1.push(enroll_next(en, enroll_run(en, pre).0, ev).1));
    assert forall|k: int| 0 <= k < first.1.len() implies !leaves_a_trace(#[trigger] first.1[k]) by {
        if k < enroll_run(en, pre).1.len() {
            assert(first.1[k] == enroll_run(en, pre).1[k]);
        }
    }
    lemma_done_stays_done(en, evs, rest);
    let all = enroll_run(en, evs + rest);
    assert forall|k: int| 0 <= k < all.1.len() implies !leaves_a_trace(#[trigger] all.1[k]) by {
        if k <= evs.len() {
            assert(all.1[k] == first.1[k]);
        }
    }
    assert(all.1[pre.len() as int + 1] == first.1[pre.len() as int + 1]);
}

/// A probe that the API rejects ends a `login` or an `accounts add` with that
/// refusal: the failure the probe's reply gives is what the command fails
/// with, no credential is stored, the configuration is not written and
/// nothing is printed.
pub proof fn law_rejected_probe_fails_with_its_error(
    en: Enrollment,
    pre: Seq<EnrollEventView>,
    e: ErrorView,
    rest: Seq<EnrollEventView>,
)
    requires
        enroll_run(en, pre).1.last() is Probe,
    ensures
        enroll_run(en, pre.push(EnrollEventView::Failed(e)) + rest).1[pre.len() as int + 1] == EnrollActionView::Fail(e),
        enroll_run(en, pre.push(EnrollEventView::Failed(e)) + rest).0 is Done,
        forall|k: int|
            0 <= k < enroll_run(en, pre.push(EnrollEventView::Failed(e)) + rest).1.len() ==> !leaves_a_trace(
                #[trigger] enroll_run(en, pre.push(EnrollEventView::Failed(e)) + rest).1[k],
            ),
{
    if pre.len() > 0 {
        let p = pre.drop_last();
        assert(enroll_run(en, pre).1 == enroll_run(en, p).1.push(enroll_next(en, enroll_run(en, p).0, pre.last()).1));
    }
    assert(enroll_run(en, pre).0 is Probing);
    law_refusal_before_storing_leaves_no_trace(en, pre, EnrollEventView::Failed(e), rest);
}

// ---------------------------------------------------------------------------
// Removing an account, step by step

/// Where removing an account stands between steps.
#[derive(Debug, PartialEq, Eq)]
pub enum RemoveState {
    /// Nothing done yet; the configuration is being loaded.
    Start,
    /// The user is asked to confirm.
    Confirming { config: Config, stored: String },
    /// The credential store is being opened.
    NeedStore { config: Config, stored: String },
    /// The stored credentials are being deleted.
    Deleting { config: Config, stored: String },
    /// The configuration without the account is being written.
    Saving { stored: String },
    /// Finished.
    Done,
}

pub enum RemoveStateView {
    Start,
    Confirming { config: Seq<AccountView>, stored: Seq<char> },
    NeedStore { config: Seq<AccountView>, stored: Seq<char> },
    Deleting { config: Seq<AccountView>, stored: Seq<char> },
    Saving { stored: Seq<char> },
    Done,
}

impl View for RemoveState {
    type V = RemoveStateView;

    open spec fn view(&self) -> RemoveStateView {
        match self {
            RemoveState::Start => RemoveStateView::Start,
            RemoveState::Confirming { config, stored } => RemoveStateView::Confirming {
                config: config@,
                stored: stored@,
            },
            RemoveState::NeedStore { config, stored } => RemoveStateView::NeedStore { config: config@, stored: stored@ },
            RemoveState::Deleting { config, stored } => RemoveStateView::Deleting { config: config@, stored: stored@ },
            RemoveState::Saving { stored } => RemoveStateView::Saving { stored: stored@ },
            RemoveState::Done => RemoveStateView::Done,
        }
    }
}

/// What happened since the last step of a removal.
#[derive(Debug, PartialEq, Eq)]
pub enum RemoveEvent {
    /// The configuration was loaded (under its lock), with whether standard
    /// input is a terminal.
    ConfigLoaded { config: Config, interactive: bool },
    /// The answer given to the confirmation question.
    Answered(String),
    /// The credential store was opened; its name.
    StoreOpened(String),
    /// The stored credentials were deleted.
    Deleted,
    /// The configuration was written.
    Saved,
    /// The last action failed.
    Failed(Error),
}

pub enum RemoveEventView {
    ConfigLoaded { config: Seq<AccountView>, interactive: bool },
    Answered(Seq<char>),
    StoreOpened(Seq<char>),
    Deleted,
    Saved,
    Failed(ErrorView),
}

impl View for RemoveEvent {
    type V = RemoveEventView;

    open spec fn view(&self) -> RemoveEventView {
        match self {
            RemoveEvent::ConfigLoaded { config, interactive } => RemoveEventView::ConfigLoaded {
                config: config@,
                interactive: *interactive,
            },
            RemoveEvent::Answered(a) => RemoveEventView::Answered(a@),
            RemoveEvent::StoreOpened(n) => RemoveEventView::StoreOpened(n@),
            RemoveEvent::Deleted => RemoveEventView::Deleted,
            RemoveEvent::Saved => RemoveEventView::Saved,
            RemoveEvent::Failed(e) => RemoveEventView::Failed(e@),
        }
    }
}

/// What to do next in a removal.
#[derive(Debug, PartialEq, Eq)]
pub enum RemoveAction {
    /// Take the configuration lock and load the configuration.
    LoadConfig,
    /// Ask this question at the terminal and read the answer.
    Confirm(String),
    /// Open the credential store.
    OpenStore,
    /// Delete the stored credentials of this account.
    DeleteSecret(String),
    /// Write this configuration.
    SaveConfig(Config),
    /// Print this report; the command succeeded.
    Report(Json),
    /// Stop without doing anything more; the command succeeded.
    Finish,
    /// The command failed with this error.
    Fail(Error),
}

pub enum RemoveActionView {
    LoadConfig,
    Confirm(Seq<char>),
    OpenStore,
    DeleteSecret(Seq<char>),
    SaveConfig(Seq<AccountView>),
    Report(JsonView),
    Finish,
    Fail(ErrorView),
}

impl View for RemoveAction {
    type V = RemoveActionView;

    open spec fn view(&self) -> RemoveActionView {
        match self {
            RemoveAction::LoadConfig => RemoveActionView::LoadConfig,
            RemoveAction::Confirm(q) => RemoveActionView::Confirm(q@),
            RemoveAction::OpenStore => RemoveActionView::OpenStore,
            RemoveAction::DeleteSecret(n) => RemoveActionView::DeleteSecret(n@),
            RemoveAction::SaveConfig(c) => RemoveActionView::SaveConfig(c@),
            RemoveAction::Report(j) => RemoveActionView::Report(j@),
            RemoveAction::Finish => RemoveActionView::Finish,
            RemoveAction::Fail(e) => RemoveActionView::Fail(e@),
        }
    }
}

/// Whether an answer confirms: `y` in either case, around whitespace.
pub open spec fn confirms(answer: Seq<char>) -> bool {
    eq_ignore_case(trimmed(answer), "y"@)
}

/// One step of removing the account `name`: the account is looked up (up to
/// ASCII case); without `--yes` the removal is confirmed at the terminal, or
/// refused off a terminal; only then are its credentials deleted, the account
/// dropped from the configuration, and the removal reported. A declined
/// confirmation ends the command without a change.
pub open spec fn remove_next(name: Seq<char>, yes: bool, st: RemoveStateView, ev: RemoveEventView) -> (
    RemoveStateView,
    RemoveActionView,
) {
    let ooo = (RemoveStateView::Done, RemoveActionView::Fail(out_of_order()));
    match ev {
        RemoveEventView::Failed(e) => (RemoveStateView::Done, RemoveActionView::Fail(e)),
        RemoveEventView::ConfigLoaded { config, interactive } => match st {
            RemoveStateView::Start => match find_account(config, name) {
                None => (RemoveStateView::Done, RemoveActionView::Fail(unknown_account(name))),
                Some(i) => {
                    let stored = config[i].name;
                    if yes {
                        (RemoveStateView::NeedStore { config, stored }, RemoveActionView::OpenStore)
                    } else if interactive {
                        (
                            RemoveStateView::Confirming { config, stored },
                            RemoveActionView::Confirm(
                                "Remove account '"@ + stored + "' and delete stored credentials? [y/N]: "@,
                            ),
                        )
                    } else {
                        (
                            RemoveStateView::Done,
                            RemoveActionView::Fail(
                                plain(
                                    ErrorCode::InvalidInput,
                                    "To remove account '"@ + stored + "' non-interactively, pass --yes."@,
                                ).with_fix("spaceship accounts remove "@ + stored + " --yes"@),
                            ),
                        )
                    }
                },
            },
            _ => ooo,
        },
        RemoveEventView::Answered(a) => match st {
            RemoveStateView::Confirming { config, stored } => if confirms(a) {
                (RemoveStateView::NeedStore { config, stored }, RemoveActionView::OpenStore)
            } else {
                (RemoveStateView::Done, RemoveActionView::Finish)
            },
            _ => ooo,
        },
        RemoveEventView::StoreOpened(_) => match st {
            RemoveStateView::NeedStore { config, stored } => (
                RemoveStateView::Deleting { config, stored },
                RemoveActionView::DeleteSecret(stored),
            ),
            _ => ooo,
        },
        RemoveEventView::Deleted => match st {
            RemoveStateView::Deleting { config, stored } => (
                RemoveStateView::Saving { stored },
                RemoveActionView::SaveConfig(remove_account(config, stored)),
            ),
            _ => ooo,
        },
        RemoveEventView::Saved => match st {
            RemoveStateView::Saving { stored } => (
                RemoveStateView::Done,
                RemoveActionView::Report(
                    JsonView::Object(seq![("status"@, JsonView::Str("removed"@)), ("name"@, JsonView::Str(stored))]),
                ),
            ),
            _ => ooo,
        },
    }
}

/// The first step of a removal: load the configuration.
pub fn remove_begin() -> (r: (RemoveState, RemoveAction))
    ensures
        r.0@ == RemoveStateView::Start,
        r.1@ == RemoveActionView::LoadConfig,
{
    (RemoveState::Start, RemoveAction::LoadConfig)
}

/// One step of removing the account `name`.
pub fn remove_step(name: &str, yes: bool, st: RemoveState, ev: RemoveEvent) -> (r: (RemoveState, RemoveAction))
    ensures
        (r.0@, r.1@) == remove_next(name@, yes, st@, ev@),
{
    match ev {
        RemoveEvent::Failed(e) => (RemoveState::Done, RemoveAction::Fail(e)),
        RemoveEvent::ConfigLoaded { config, interactive } => match st {
            RemoveState::Start => match target_account(&config, name) {
                Err(e) => (RemoveState::Done, RemoveAction::Fail(e)),
                Ok(stored) => match removal_check(stored.as_str(), yes, interactive) {
                    Err(e) => (RemoveState::Done, RemoveAction::Fail(e)),
                    Ok(true) => {
                        let q = removal_prompt(stored.as_str());
                        (RemoveState::Confirming { config, stored }, RemoveAction::Confirm(q))
                    },
                    Ok(false) => (RemoveState::NeedStore { config, stored }, RemoveAction::OpenStore),
                },
            },
            _ => (RemoveState::Done, RemoveAction::Fail(out_of_order_error())),
        },
        RemoveEvent::Answered(a) => match st {
            RemoveState::Confirming { config, stored } => if confirmed(a.as_str()) {
                (RemoveState::NeedStore { config, stored }, RemoveAction::OpenStore)
            } else {
                (RemoveState::Done, RemoveAction::Finish)
            },
            _ => (RemoveState::Done, RemoveAction::Fail(out_of_order_error())),
        },
        RemoveEvent::StoreOpened(_) => match st {
            RemoveState::NeedStore { config, stored } => {
                let s2 = stored.clone();
                (RemoveState::Deleting { config, stored }, RemoveAction::DeleteSecret(s2))
            },
            _ => (RemoveState::Done, RemoveAction::Fail(out_of_order_error())),
        },
        RemoveEvent::Deleted => match st {
            RemoveState::Deleting { config, stored } => {
                let mut config = config;
                config.remove(stored.as_str());
                (RemoveState::Saving { stored }, RemoveAction::SaveConfig(config))
            },
            _ => (RemoveState::Done, RemoveAction::Fail(out_of_order_error())),
        },
        RemoveEvent::Saved => match st {
            RemoveState::Saving { stored } => (RemoveState::Done, RemoveAction::Report(removed_report(stored.as_str()))),
            _ => (RemoveState::Done, RemoveAction::Fail(out_of_order_error())),
        },
    }
}

/// A whole removal: the state after these events and every action taken,
/// the first being the initial `LoadConfig`.
pub open spec fn remove_run(name: Seq<char>, yes: bool, evs: Seq<RemoveEventView>) -> (
    RemoveStateView,
    Seq<RemoveActionView>,
)
    decreases evs.len(),
{
    if evs.len() == 0 {
        (RemoveStateView::Start, seq![RemoveActionView::LoadConfig])
    } else {
        let prev = remove_run(name, yes, evs.drop_last());
        let step = remove_next(name, yes, prev.0, evs.last());
        (step.0, prev.1.push(step.1))
    }
}

/// Whether the `j`-th event is an answer that confirms.
pub open spec fn confirmed_at(evs: Seq<RemoveEventView>, j: int) -> bool {
    evs[j] matches RemoveEventView::Answered(a) && confirms(a)
}

/// Stored credentials are deleted only for a removal that `--yes` or a
/// confirming answer allowed: every `DeleteSecret` comes after such an answer
/// unless `--yes` was given.
pub proof fn law_delete_only_when_confirmed(name: Seq<char>, yes: bool, evs: Seq<RemoveEventView>)
    ensures
        remove_run(name, yes, evs).1.len() == evs.len() + 1,
        forall|i: int|
            0 <= i < remove_run(name, yes, evs).1.len() && (#[trigger] remove_run(name, yes, evs).1[i] is DeleteSecret)
                ==> yes || exists|j: int| 0 <= j < i - 1 && #[trigger] confirmed_at(evs, j),
        !yes && (remove_run(name, yes, evs).0 is NeedStore || remove_run(name, yes, evs).0 is Deleting
            || remove_run(name, yes, evs).0 is Saving) ==> exists|j: int| 0 <= j < evs.len() && #[trigger] confirmed_at(evs, j),
    decreases evs.len(),
{
    if evs.len() > 0 {
        let p = evs.drop_last();
        law_delete_only_when_confirmed(name, yes, p);
        let prev = remove_run(name, yes, p);
        let step = remove_next(name, yes, prev.0, evs.last());
        let acts = remove_run(name, yes, evs).1;
        assert(acts == prev.1.push(step.1));
        assert forall|j: int| 0 <= j < p.len() && confirmed_at(p, j) implies #[trigger] confirmed_at(evs, j) by {
            assert(evs[j] == p[j]);
        }
        if !yes && (prev.0 is NeedStore || prev.0 is Deleting || prev.0 is Saving) {
            let j = choose|j: int| 0 <= j < p.len() && #[trigger] confirmed_at(p, j);
            assert(confirmed_at(evs, j));
        }
        if !yes && prev.0 is Confirming && step.0 is NeedStore {
            assert(evs[evs.len() - 1] == evs.last());
            assert(confirmed_at(evs, evs.len() - 1));
        }
        assert forall|i: int| 0 <= i < acts.len() && (#[trigger] acts[i] is DeleteSecret) implies yes || exists|j: int|
            0 <= j < i - 1 && #[trigger] confirmed_at(evs, j) by {
            if i < prev.1.len() {
                assert(prev.1[i] is DeleteSecret);
                if !yes {
                    let j = choose|j: int| 0 <= j < i - 1 && #[trigger] confirmed_at(p, j);
                    assert(confirmed_at(evs, j));
                }
            } else {
                if !yes {
                    assert(prev.0 is NeedStore);
                    let j = choose|j: int| 0 <= j < p.len() && #[trigger] confirmed_at(p, j);
                    assert(confirmed_at(evs, j));
                }
            }
        }
    }
}

// ---------------------------------------------------------------------------
// Testing an account's credentials, step by step

/// Where testing an account stands between steps.
#[derive(Debug, PartialEq, Eq)]
pub enum TestState {
    /// Nothing done yet; the configuration is being loaded.
    Start,
    /// The credential store is being opened.
    NeedStore { stored: String },
    /// The account's credentials are being looked up.
    Looking { stored: String },
    /// The credentials are being tried against the API.
    Probing { stored: String },
    /// Finished.
    Done,
}

pub enum TestStateView {
    Start,
    NeedStore { stored: Seq<char> },
    Looking { stored: Seq<char> },
    Probing { stored: Seq<char> },
    Done,
}

impl View for TestState {
    type V = TestStateView;

    open spec fn view(&self) -> TestStateView {
        match self {
            TestState::Start => TestStateView::Start,
            TestState::NeedStore { stored } => TestStateView::NeedStore { stored: stored@ },
            TestState::Looking { stored } => TestStateView::Looking { stored: stored@ },
            TestState::Probing { stored } => TestStateView::Probing { stored: stored@ },
            TestState::Done => TestStateView::Done,
        }
    }
}

/// What happened since the last step of a test.
#[derive(Debug, PartialEq, Eq)]
pub enum TestEvent {
    /// The configuration was loaded.
    ConfigLoaded(Config),
    /// The credential store was opened.
    StoreOpened,
    /// The store holds these credentials for the account.
    Found { key: String, secret: String },
    /// The store holds nothing for the account.
    Missing,
    /// The API accepted the credentials.
    Probed,
    /// The last action failed.
    Failed(Error),
}

pub enum TestEventView {
    ConfigLoaded(Seq<AccountView>),
    StoreOpened,
    Found { key: Seq<char>, secret: Seq<char> },
    Missing,
    Probed,
    Failed(ErrorView),
}

impl View for TestEvent {
    type V = TestEventView;

    open spec fn view(&self) -> TestEventView {
        match self {
            TestEvent::ConfigLoaded(c) => TestEventView::ConfigLoaded(c@),
            TestEvent::StoreOpened => TestEventView::StoreOpened,
            TestEvent::Found { key, secret } => TestEventView::Found { key: key@, secret: secret@ },
            TestEvent::Missing => TestEventView::Missing,
            TestEvent::Probed => TestEventView::Probed,
            TestEvent::Failed(e) => TestEventView::Failed(e@),
        }
    }
}

/// What to do next in a test.
#[derive(Debug, PartialEq, Eq)]
pub enum TestAction {
    /// Load the configuration.
    LoadConfig,
    /// Open the credential store.
    OpenStore,
    /// Look up the stored credentials of this account.
    Lookup(String),
    /// Send this call with these credentials; it succeeds if the API accepts them.
    Probe { request: ApiRequest, key: String, secret: String },
    /// Print this report; the command succeeded.
    Report(Json),
    /// The command failed with this error.
    Fail(Error),
}

pub enum TestActionView {
    LoadConfig,
    OpenStore,
    Lookup(Seq<char>),
    Probe { request: RequestView, key: Seq<char>, secret: Seq<char> },
    Report(JsonView),
    Fail(ErrorView),
}

impl View for TestAction {
    type V = TestActionView;

    open spec fn view(&self) -> TestActionView {
        match self {
            TestAction::LoadConfig => TestActionView::LoadConfig,
            TestAction::OpenStore => TestActionView::OpenStore,
            TestAction::Lookup(n) => TestActionView::Lookup(n@),
            TestAction::Probe { request, key, secret } => TestActionView::Probe {
                request: request@,
                key: key@,
                secret: secret@,
            },
            TestAction::Report(j) => TestActionView::Report(j@),
            TestAction::Fail(e) => TestActionView::Fail(e@),
        }
    }
}

/// One step of testing the account `name`: the account is looked up (up to
/// ASCII case), then its stored credentials; an account without them is
/// refused; otherwise they are tried against the API, and reported valid only
/// once the API accepted them.
pub open spec fn test_next(name: Seq<char>, st: TestStateView, ev: TestEventView) -> (TestStateView, TestActionView) {
    let ooo = (TestStateView::Done, TestActionView::Fail(out_of_order()));
    match ev {
        TestEventView::Failed(e) => (TestStateView::Done, TestActionView::Fail(e)),
        TestEventView::ConfigLoaded(config) => match st {
            TestStateView::Start => match find_account(config, name) {
                None => (TestStateView::Done, TestActionView::Fail(unknown_account(name))),
                Some(i) => (TestStateView::NeedStore { stored: config[i].name }, TestActionView::OpenStore),
            },
            _ => ooo,
        },
        TestEventView::StoreOpened => match st {
            TestStateView::NeedStore { stored } => (TestStateView::Looking { stored }, TestActionView::Lookup(stored)),
            _ => ooo,
        },
        TestEventView::Missing => match st {
            TestStateView::Looking { stored } => (
                TestStateView::Done,
                TestActionView::Fail(
                    plain(ErrorCode::AuthRequired, "Account '"@ + stored + "' has no stored credentials."@).with_fix(
                        "spaceship accounts add "@ + stored + " --force"@,
                    ),
                ),
            ),
            _ => ooo,
        },
        TestEventView::Found { key, secret } => match st {
            TestStateView::Looking { stored } => (
                TestStateView::Probing { stored },
                TestActionView::Probe { request: probe_request(), key, secret },
            ),
            _ => ooo,
        },
        TestEventView::Probed => match st {
            TestStateView::Probing { stored } => (
                TestStateView::Done,
                TestActionView::Report(
                    JsonView::Object(seq![("account"@, JsonView::Str(stored)), ("keyStatus"@, JsonView::Str("valid"@))]),
                ),
            ),
            _ => ooo,
        },
    }
}

/// The first step of a test: load the configuration.
pub fn test_begin() -> (r: (TestState, TestAction))
    ensures
        r.0@ == TestStateView::Start,
        r.1@ == TestActionView::LoadConfig,
{
    (TestState::Start, TestAction::LoadConfig)
}

/// One step of testing the account `name`.
pub fn test_step(name: &str, st: TestState, ev: TestEvent) -> (r: (TestState, TestAction))
    ensures
        (r.0@, r.1@) == test_next(name@, st@, ev@),
{
    match ev {
        TestEvent::Failed(e) => (TestState::Done, TestAction::Fail(e)),
        TestEvent::ConfigLoaded(config) => match st {
            TestState::Start => match target_account(&config, name) {
                Err(e) => (TestState::Done, TestAction::Fail(e)),
                Ok(stored) => (TestState::NeedStore { stored }, TestAction::OpenStore),
            },
            _ => (TestState::Done, TestAction::Fail(out_of_order_error())),
        },
        TestEvent::StoreOpened => match st {
            TestState::NeedStore { stored } => {
                let s2 = stored.clone();
                (TestState::Looking { stored }, TestAction::Lookup(s2))
            },
            _ => (TestState::Done, TestAction::Fail(out_of_order_error())),
        },
        TestEvent::Missing => match st {
            TestState::Looking { stored } => (TestState::Done, TestAction::Fail(untestable(stored.as_str()))),
            _ => (TestState::Done, TestAction::Fail(out_of_order_error())),
        },
        TestEvent::Found { key, secret } => match st {
            TestState::Looking { stored } => (
                TestState::Probing { stored },
                TestAction::Probe { request: call(Method::Get, "domains?take=1".to_owned()), key, secret },
            ),
            _ => (TestState::Done, TestAction::Fail(out_of_order_error())),
        },
        TestEvent::Probed => match st {
            TestState::Probing { stored } => (TestState::Done, TestAction::Report(test_report(stored.as_str()))),
            _ => (TestState::Done, TestAction::Fail(out_of_order_error())),
        },
    }
}

/// An account is reported valid only in answer to the API's acceptance of
/// the credentials tried for it; the test sends nothing before the account and
/// its stored credentials are found.
pub proof fn law_valid_only_after_probe(name: Seq<char>, st: TestStateView, ev: TestEventView)
    ensures
        test_next(name, st, ev).1 is Report ==> st is Probing && ev is Probed,
        test_next(name, st, ev).1 is Probe ==> st is Looking && ev is Found,
{
}

// ---------------------------------------------------------------------------
// Listing the accounts, step by step

/// Where listing the accounts stands between steps.
#[derive(Debug, PartialEq, Eq)]
pub enum ListState {
    /// Nothing done yet; the configuration is being loaded.
    Start,
    /// The credential store is being opened; the accounts in the order shown.
    NeedStore { rows: Vec<(String, AccountConfig)> },
    /// The credentials of the next account to check are being looked up.
    Looking { rows: Vec<(String, AccountConfig)>, statuses: Vec<String>, store: String },
    /// The credentials of the next account to check are being tried.
    Probing { rows: Vec<(String, AccountConfig)>, statuses: Vec<String>, store: String },
    /// Finished.
    Done,
}

pub enum ListStateView {
    Start,
    NeedStore { rows: Seq<AccountView> },
    Looking { rows: Seq<AccountView>, statuses: Seq<Seq<char>>, store: Seq<char> },
    Probing { rows: Seq<AccountView>, statuses: Seq<Seq<char>>, store: Seq<char> },
    Done,
}

impl View for ListState {
    type V = ListStateView;

    open spec fn view(&self) -> ListStateView {
        match self {
            ListState::Start => ListStateView::Start,
            ListState::NeedStore { rows } => ListStateView::NeedStore { rows: entries_view(rows@) },
            ListState::Looking { rows, statuses, store } => ListStateView::Looking {
                rows: entries_view(rows@),
                statuses: crate::text::views(statuses@),
                store: store@,
            },
            ListState::Probing { rows, statuses, store } => ListStateView::Probing {
                rows: entries_view(rows@),
                statuses: crate::text::views(statuses@),
                store: store@,
            },
            ListState::Done => ListStateView::Done,
        }
    }
}

/// Whether a listing's state is one its steps produce: while checking, fewer
/// accounts have a status than there are accounts.
pub open spec fn list_state_ok(st: ListStateView) -> bool {
    match st {
        ListStateView::Looking { rows, statuses, .. } => statuses.len() < rows.len(),
        ListStateView::Probing { rows, statuses, .. } => statuses.len() < rows.len(),
        _ => true,
    }
}

/// What happened since the last step of a listing.
#[derive(Debug, PartialEq, Eq)]
pub enum ListEvent {
    /// The configuration was loaded.
    ConfigLoaded(Config),
    /// The credential store was opened; its name.
    StoreOpened(String),
    /// The store holds these credentials for the account.
    Found { key: String, secret: String },
    /// The store holds nothing for the account.
    Missing,
    /// The API's answer to the credentials: accepted, or refused with this class of error.
    Probed(Option<ErrorCode>),
    /// The last action failed.
    Failed(Error),
}

pub enum ListEventView {
    ConfigLoaded(Seq<AccountView>),
    StoreOpened(Seq<char>),
    Found { key: Seq<char>, secret: Seq<char> },
    Missing,
    Probed(Option<ErrorCode>),
    Failed(ErrorView),
}

impl View for ListEvent {
    type V = ListEventView;

    open spec fn view(&self) -> ListEventView {
        match self {
            ListEvent::ConfigLoaded(c) => ListEventView::ConfigLoaded(c@),
            ListEvent::StoreOpened(n) => ListEventView::StoreOpened(n@),
            ListEvent::Found { key, secret } => ListEventView::Found { key: key@, secret: secret@ },
            ListEvent::Missing => ListEventView::Missing,
            ListEvent::Probed(o) => ListEventView::Probed(*o),
            ListEvent::Failed(e) => ListEventView::Failed(e@),
        }
    }
}

/// What to do next in a listing.
#[derive(Debug, PartialEq, Eq)]
pub enum ListAction {
    /// Load the configuration.
    LoadConfig,
    /// Open the credential store.
    OpenStore,
    /// Look up the stored credentials of this account.
    Lookup(String),
    /// Send this call with these credentials and report how the API answered.
    Probe { request: ApiRequest, key: String, secret: String },
    /// Print this report; the command succeeded.
    Report(Json),
    /// The command failed with this error.
    Fail(Error),
}

pub enum ListActionView {
    LoadConfig,
    OpenStore,
    Lookup(Seq<char>),
    Probe { request: RequestView, key: Seq<char>, secret: Seq<char> },
    Report(JsonView),
    Fail(ErrorView),
}

impl View for ListAction {
    type V = ListActionView;

    open spec fn view(&self) -> ListActionView {
        match self {
            ListAction::LoadConfig => ListActionView::LoadConfig,
            ListAction::OpenStore => ListActionView::OpenStore,
            ListAction::Lookup(n) => ListActionView::Lookup(n@),
            ListAction::Probe { request, key, secret } => ListActionView::Probe {
                request: request@,
                key: key@,
                secret: secret@,
            },
            ListAction::Report(j) => ListActionView::Report(j@),
            ListAction::Fail(e) => ListActionView::Fail(e@),
        }
    }
}

/// After some accounts have a status: the report once all have one, else the
/// lookup of the next account's credentials.
pub open spec fn list_continue(rows: Seq<AccountView>, statuses: Seq<Seq<char>>, store: Seq<char>) -> (
    ListStateView,
    ListActionView,
) {
    if statuses.len() >= rows.len() {
        (ListStateView::Done, ListActionView::Report(list_view(rows, statuses, store)))
    } else {
        (ListStateView::Looking { rows, statuses, store }, ListActionView::Lookup(rows[statuses.len() as int].name))
    }
}

/// One step of listing the accounts, ordered by name. Without `check` every
/// account is reported `stored` and nothing is looked up or sent; with it,
/// each account in turn is looked up in the store (`missing` when absent) and
/// its credentials are tried (`valid`, `rejected` or `unreachable`).
pub open spec fn list_next(check: bool, st: ListStateView, ev: ListEventView) -> (ListStateView, ListActionView) {
    let ooo = (ListStateView::Done, ListActionView::Fail(out_of_order()));
    match ev {
        ListEventView::Failed(e) => (ListStateView::Done, ListActionView::Fail(e)),
        ListEventView::ConfigLoaded(config) => match st {
            ListStateView::Start => (
                ListStateView::NeedStore { rows: crate::config::sort_by_name(config) },
                ListActionView::OpenStore,
            ),
            _ => ooo,
        },
        ListEventView::StoreOpened(store) => match st {
            ListStateView::NeedStore { rows } => if check {
                list_continue(rows, Seq::<Seq<char>>::empty(), store)
            } else {
                (
                    ListStateView::Done,
                    ListActionView::Report(list_view(rows, Seq::new(rows.len(), |i: int| "stored"@), store)),
                )
            },
            _ => ooo,
        },
        ListEventView::Missing => match st {
            ListStateView::Looking { rows, statuses, store } => list_continue(rows, statuses.push("missing"@), store),
            _ => ooo,
        },
        ListEventView::Found { key, secret } => match st {
            ListStateView::Looking { rows, statuses, store } => (
                ListStateView::Probing { rows, statuses, store },
                ListActionView::Probe { request: probe_request(), key, secret },
            ),
            _ => ooo,
        },
        ListEventView::Probed(outcome) => match st {
            ListStateView::Probing { rows, statuses, store } => list_continue(
                rows,
                statuses.push(
                    probe_label(
                        match outcome {
                            None => Probe::Passed,
                            Some(c) => Probe::Failed(c),
                        },
                    ),
                ),
                store,
            ),
            _ => ooo,
        },
    }
}

/// The first step of a listing: load the configuration.
pub fn list_begin() -> (r: (ListState, ListAction))
    ensures
        r.0@ == ListStateView::Start,
        r.1@ == ListActionView::LoadConfig,
        list_state_ok(r.0@),
{
    (ListState::Start, ListAction::LoadConfig)
}

fn list_go_on(rows: Vec<(String, AccountConfig)>, statuses: Vec<String>, store: String) -> (r: (ListState, ListAction))
    requires
        statuses.len() <= rows.len(),
    ensures
        (r.0@, r.1@) == list_continue(entries_view(rows@), crate::text::views(statuses@), store@),
        list_state_ok(r.0@),
{
    if statuses.len() >= rows.len() {
        let report = list_report(&rows, &statuses, store.as_str());
        (ListState::Done, ListAction::Report(report))
    } else {
        let name = rows[statuses.len()].0.clone();
        proof {
            assert(entries_view(rows@)[statuses.len() as int] == account_view(rows@[statuses.len() as int]));
        }
        (ListState::Looking { rows, statuses, store }, ListAction::Lookup(name))
    }
}

/// One step of listing the accounts.
pub fn list_step(check: bool, st: ListState, ev: ListEvent) -> (r: (ListState, ListAction))
    requires
        list_state_ok(st@),
    ensures
        (r.0@, r.1@) == list_next(check, st@, ev@),
        list_state_ok(r.0@),
{
    match ev {
        ListEvent::Failed(e) => (ListState::Done, ListAction::Fail(e)),
        ListEvent::ConfigLoaded(config) => match st {
            ListState::Start => (ListState::NeedStore { rows: config.sorted() }, ListAction::OpenStore),
            _ => (ListState::Done, ListAction::Fail(out_of_order_error())),
        },
        ListEvent::StoreOpened(store) => match st {
            ListState::NeedStore { rows } => if check {
                let statuses: Vec<String> = Vec::new();
                proof {
                    assert(crate::text::views(statuses@) =~= Seq::<Seq<char>>::empty());
                }
                list_go_on(rows, statuses, store)
            } else {
                let mut statuses: Vec<String> = Vec::new();
                let mut i: usize = 0;
                while i < rows.len()
                    invariant
                        i <= rows.len(),
                        statuses.len() == i,
                        crate::text::views(statuses@) =~= Seq::new(i as nat, |k: int| "stored"@),
                    decreases rows.len() - i,
                {
                    let ghost before = statuses@;
                    statuses.push("stored".to_owned());
                    proof {
                        assert(crate::text::views(statuses@) =~= crate::text::views(before).push("stored"@));
                        assert(Seq::new((i + 1) as nat, |k: int| "stored"@) =~= Seq::new(i as nat, |k: int| "stored"@).push(
                            "stored"@,
                        ));
                    }
                    i = i + 1;
                }
                let report = list_report(&rows, &statuses, store.as_str());
                (ListState::Done, ListAction::Report(report))
            },
            _ => (ListState::Done, ListAction::Fail(out_of_order_error())),
        },
        ListEvent::Missing => match st {
            ListState::Looking { rows, statuses, store } => {
                let mut statuses = statuses;
                let ghost before = statuses@;
                statuses.push("missing".to_owned());
                proof {
                    assert(crate::text::views(statuses@) =~= crate::text::views(before).push("missing"@));
                }
                list_go_on(rows, statuses, store)
            },
            _ => (ListState::Done, ListAction::Fail(out_of_order_error())),
        },
        ListEvent::Found { key, secret } => match st {
            ListState::Looking { rows, statuses, store } => (
                ListState::Probing { rows, statuses, store },
                ListAction::Probe { request: call(Method::Get, "domains?take=1".to_owned()), key, secret },
            ),
            _ => (ListState::Done, ListAction::Fail(out_of_order_error())),
        },
        ListEvent::Probed(outcome) => match st {
            ListState::Probing { rows, statuses, store } => {
                let p = match outcome {
                    None => Probe::Passed,
                    Some(c) => Probe::Failed(c),
                };
                let mut statuses = statuses;
                let ghost before = statuses@;
                statuses.push(key_status(p));
                proof {
                    assert(crate::text::views(statuses@) =~= crate::text::views(before).push(probe_label(p)));
                }
                list_go_on(rows, statuses, store)
            },
            _ => (ListState::Done, ListAction::Fail(out_of_order_error())),
        },
    }
}

/// A whole listing: the state after these events and every action taken,
/// the first being the initial `LoadConfig`.
pub open spec fn list_run(check: bool, evs: Seq<ListEventView>) -> (ListStateView, Seq<ListActionView>)
    decreases evs.len(),
{
    if evs.len() == 0 {
        (ListStateView::Start, seq![ListActionView::LoadConfig])
    } else {
        let prev = list_run(check, evs.drop_last());
        let step = list_next(check, prev.0, evs.last());
        (step.0, prev.1.push(step.1))
    }
}

/// Listing changes nothing, and without `--check` it looks nothing up and
/// sends nothing: no action of such a run is a lookup or a probe.
pub proof fn law_list_checks_only_when_asked(evs: Seq<ListEventView>)
    ensures
        list_run(false, evs).1.len() == evs.len() + 1,
        !(list_run(false, evs).0 is Looking) && !(list_run(false, evs).0 is Probing),
        forall|i: int|
            0 <= i < list_run(false, evs).1.len() ==> !(#[trigger] list_run(false, evs).1[i] is Lookup) && !(list_run(
                false,
                evs,
            ).1[i] is Probe),
    decreases evs.len(),
{
    if evs.len() > 0 {
        let p = evs.drop_last();
        law_list_checks_only_when_asked(p);
        let prev = list_run(false, p);
        let acts = list_run(false, evs).1;
        assert(acts == prev.1.push(list_next(false, prev.0, evs.last()).1));
        assert forall|i: int| 0 <= i < acts.len() implies !(#[trigger] acts[i] is Lookup) && !(acts[i] is Probe) by {
            if i < prev.1.len() {
                assert(acts[i] == prev.1[i]);
            }
        }
    }
}

/// How one account fares in a checked listing: absent from the store, or found
/// there with this key and secret, which the API accepted (`None`) or refused
/// with this class of error.
pub type CheckOutcome = Option<(Seq<char>, Seq<char>, Option<ErrorCode>)>;

/// The status a checked listing shows for an account.
pub open spec fn checked_status(o: CheckOutcome) -> Seq<char> {
    match o {
        None => probe_label(Probe::Missing),
        Some((_, _, c)) => probe_label(
            match c {
                None => Probe::Passed,
                Some(code) => Probe::Failed(code),
            },
        ),
    }
}

/// What a checked listing hears about one account: that the store holds
/// nothing for it, or its credentials and then the API's answer to them.
pub open spec fn account_events(o: CheckOutcome) -> Seq<ListEventView> {
    match o {
        None => seq![ListEventView::Missing],
        Some((key, secret, c)) => seq![ListEventView::Found { key, secret }, ListEventView::Probed(c)],
    }
}

/// What a checked listing hears about the accounts, one after the other.
pub open spec fn check_events(outcomes: Seq<CheckOutcome>) -> Seq<ListEventView>
    decreases outcomes.len(),
{
    if outcomes.len() == 0 {
        Seq::<ListEventView>::empty()
    } else {
        check_events(outcomes.drop_last()) + account_events(outcomes.last())
    }
}

/// The statuses of the first accounts of a checked listing.
pub open spec fn checked_statuses(outcomes: Seq<CheckOutcome>) -> Seq<Seq<char>> {
    Seq::new(outcomes.len(), |i: int| checked_status(outcomes[i]))
}

proof fn lemma_list_opening(check: bool, config: Seq<AccountView>, store: Seq<char>)
    ensures
        list_run(check, seq![ListEventView::ConfigLoaded(config), ListEventView::StoreOpened(store)]).0 == list_next(
            check,
            ListStateView::NeedStore { rows: crate::config::sort_by_name(config) },
            ListEventView::StoreOpened(store),
        ).0,
        list_run(check, seq![ListEventView::ConfigLoaded(config), ListEventView::StoreOpened(store)]).1.last()
            == list_next(
            check,
            ListStateView::NeedStore { rows: crate::config::sort_by_name(config) },
            ListEventView::StoreOpened(store),
        ).1,
{
    let one = seq![ListEventView::ConfigLoaded(config)];
    let two = seq![ListEventView::ConfigLoaded(config), ListEventView::StoreOpened(store)];
    assert(one.drop_last() =~= Seq::<ListEventView>::empty());
    assert(one.last() == ListEventView::ConfigLoaded(config));
    assert(list_run(check, Seq::<ListEventView>::empty()).0 == ListStateView::Start);
    assert(list_run(check, one).0 == ListStateView::NeedStore { rows: crate::config::sort_by_name(config) });
    assert(two.drop_last() =~= one);
    assert(two.last() == ListEventView::StoreOpened(store));
}

proof fn lemma_checked_prefix(
    config: Seq<AccountView>,
    store: Seq<char>,
    outcomes: Seq<CheckOutcome>,
    i: int,
)
    requires
        outcomes.len() == crate::config::sort_by_name(config).len(),
        0 <= i <= outcomes.len(),
    ensures
        list_run(
            true,
            seq![ListEventView::ConfigLoaded(config), ListEventView::StoreOpened(store)] + check_events(outcomes.take(i)),
        ).0 == list_continue(crate::config::sort_by_name(config), checked_statuses(outcomes.take(i)), store).0,
        list_run(
            true,
            seq![ListEventView::ConfigLoaded(config), ListEventView::StoreOpened(store)] + check_events(outcomes.take(i)),
        ).1.last() == list_continue(crate::config::sort_by_name(config), checked_statuses(outcomes.take(i)), store).1,
    decreases i,
{
    let rows = crate::config::sort_by_name(config);
    let base = seq![ListEventView::ConfigLoaded(config), ListEventView::StoreOpened(store)];
    if i == 0 {
        assert(outcomes.take(0) =~= Seq::<CheckOutcome>::empty());
        assert(base + check_events(outcomes.take(0)) =~= base);
        assert(checked_statuses(outcomes.take(0)) =~= Seq::<Seq<char>>::empty());
        lemma_list_opening(true, config, store);
    } else {
        lemma_checked_prefix(config, store, outcomes, i - 1);
        let before = base + check_events(outcomes.take(i - 1));
        let sts = checked_statuses(outcomes.take(i - 1));
        let o = outcomes[i - 1];
        assert(outcomes.take(i).drop_last() =~= outcomes.take(i - 1));
        assert(outcomes.take(i).last() == o);
        assert(checked_statuses(outcomes.take(i)) =~= sts.push(checked_status(o)));
        assert(sts.len() == i - 1);
        assert(list_run(true, before).0 == ListStateView::Looking { rows, statuses: sts, store });
        match o {
            None => {
                let evs = before.push(ListEventView::Missing);
                assert(base + check_events(outcomes.take(i)) =~= evs);
                assert(evs.drop_last() =~= before);
                assert(evs.last() == ListEventView::Missing);
            },
            Some((key, secret, c)) => {
                let mid = before.push(ListEventView::Found { key, secret });
                let evs = mid.push(ListEventView::Probed(c));
                assert(base + check_events(outcomes.take(i)) =~= evs);
                assert(evs.drop_last() =~= mid);
                assert(mid.drop_last() =~= before);
                assert(evs.last() == ListEventView::Probed(c));
                assert(mid.last() == ListEventView::Found { key, secret });
                assert(list_run(true, mid).0 == ListStateView::Probing { rows, statuses: sts, store });
            },
        }
    }
}

/// A whole `accounts list --check`: once the store and the API have answered
/// for every account (in the order of names), the listing prints all the
/// configured accounts ordered by name, each with `missing` when the store
/// holds nothing for it, else `valid`, `rejected` or `unreachable` by how the
/// API answered its credentials. Without `--check`, the same accounts are
/// printed as soon as the store is open, each `stored`.
pub proof fn law_list_reports_every_account(
    config: Seq<AccountView>,
    store: Seq<char>,
    outcomes: Seq<CheckOutcome>,
)
    requires
        outcomes.len() == crate::config::sort_by_name(config).len(),
    ensures
        list_run(
            true,
            seq![ListEventView::ConfigLoaded(config), ListEventView::StoreOpened(store)] + check_events(outcomes),
        ).0 is Done,
        list_run(
            true,
            seq![ListEventView::ConfigLoaded(config), ListEventView::StoreOpened(store)] + check_events(outcomes),
        ).1.last() == ListActionView::Report(
            list_view(crate::config::sort_by_name(config), checked_statuses(outcomes), store),
        ),
        list_run(false, seq![ListEventView::ConfigLoaded(config), ListEventView::StoreOpened(store)]).1.last()
            == ListActionView::Report(
            list_view(
                crate::config::sort_by_name(config),
                Seq::new(crate::config::sort_by_name(config).len(), |i: int| probe_label(Probe::NotChecked)),
                store,
            ),
        ),
{
    lemma_checked_prefix(config, store, outcomes, outcomes.len() as int);
    assert(outcomes.take(outcomes.len() as int) =~= outcomes);
    lemma_list_opening(false, config, store);
    let rows = crate::config::sort_by_name(config);
    assert(Seq::new(rows.len(), |i: int| probe_label(Probe::NotChecked)) =~= Seq::new(rows.len(), |i: int| "stored"@));
}

/// A checked account is `rejected` exactly when its probe failed with
/// `auth_required`; a probe that failed with any other class of error
/// (the API unreachable, a server error, rate limiting, ...) shows
/// `unreachable`, and one that passed shows `valid`.
pub proof fn law_rejected_only_for_auth_failures(code: ErrorCode)
    ensures
        (probe_label(Probe::Failed(code)) == "rejected"@) <==> code == ErrorCode::AuthRequired,
        code != ErrorCode::AuthRequired ==> probe_label(Probe::Failed(code)) == "unreachable"@,
        probe_label(Probe::Passed) == "valid"@,
        probe_label(Probe::Passed) != probe_label(Probe::Failed(code)),
        probe_label(Probe::Missing) == "missing"@,
        probe_label(Probe::NotChecked) == "stored"@,
{
    reveal_strlit("rejected");
    reveal_strlit("unreachable");
    reveal_strlit("valid");
    assert("rejected"@.len() == 8);
    assert("unreachable"@.len() == 11);
    assert("valid"@.len() == 5);
}

/// The enrollment state in which the credentials are being written.
pub open spec fn storing_state(
    config: Seq<AccountView>,
    now: Seq<char>,
    key: Seq<char>,
    secret: Seq<char>,
    store: Seq<char>,
) -> EnrollStateView {
    EnrollStateView::Storing { config, now, key, secret, store }
}

/// The account an enrollment records.
pub open spec fn enrolled_account(en: Enrollment, key: Seq<char>, now: Seq<char>) -> AccountView {
    AccountView { name: en.name@, identity: identity_of(key), added_at: now }
}

/// The event of a loaded configuration, for a removal.
pub open spec fn remove_loaded(config: Seq<AccountView>, interactive: bool) -> RemoveEventView {
    RemoveEventView::ConfigLoaded { config, interactive }
}

/// Removing an account just added gives the configuration back as it was:
/// where no configured account has the name, an enrollment saves the
/// configuration with the new account appended; a removal of that name with
/// `--yes` then deletes the credentials stored under that very name, and saves
/// the configuration it started from.
pub proof fn law_remove_undoes_add(
    en: Enrollment,
    c0: Seq<AccountView>,
    now: Seq<char>,
    key: Seq<char>,
    secret: Seq<char>,
    store: Seq<char>,
    interactive: bool,
)
    requires
        find_account(c0, en.name@) is None,
        identity_cut_ok(key),
    ensures
        ({
            let c1 = c0.push(enrolled_account(en, key, now));
            let added = enroll_next(en, storing_state(c0, now, key, secret, store), EnrollEventView::Stored);
            let r1 = remove_next(en.name@, true, RemoveStateView::Start, remove_loaded(c1, interactive));
            let r2 = remove_next(en.name@, true, r1.0, RemoveEventView::StoreOpened(store));
            let r3 = remove_next(en.name@, true, r2.0, RemoveEventView::Deleted);
            &&& added.1 == EnrollActionView::SaveConfig(c1)
            &&& r1.1 == RemoveActionView::OpenStore
            &&& r2.1 == RemoveActionView::DeleteSecret(en.name@)
            &&& r3.1 == RemoveActionView::SaveConfig(c0)
        }),
{
    let a = enrolled_account(en, key, now);
    crate::config::law_added_account_found_and_removable(c0, a);
}

} // verus!
