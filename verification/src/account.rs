//! Which credentials a command runs with.
//!
//! Credentials are taken, in this order of precedence, from: both `--api-key`
//! and `--api-secret` flags; the keystore entry of the account named by
//! `--account`; the keystore entry of the account named by `SPACESHIP_ACCOUNT`;
//! the `SPACESHIP_API_KEY` and `SPACESHIP_API_SECRET` settings; the keystore
//! entry of the account named `default`.

use vstd::prelude::*;
use crate::config::{AccountConfig, AccountView, Config, entries_view, find_account, sort_by_name};
use crate::error::{Error, ErrorCode, ErrorView, plain};
use crate::text::{append_str, blank, is_blank, join, trim, trimmed, views};

verus! {

/// Credentials ready for use, with the name of where they came from.
#[derive(Debug, PartialEq, Eq)]
pub struct Resolved {
    pub name: String,
    pub api_key: String,
    pub api_secret: String,
}

/// The plain value of a [`Resolved`].
pub struct ResolvedView {
    pub name: Seq<char>,
    pub api_key: Seq<char>,
    pub api_secret: Seq<char>,
}

impl View for Resolved {
    type V = ResolvedView;

    open spec fn view(&self) -> ResolvedView {
        ResolvedView { name: self.name@, api_key: self.api_key@, api_secret: self.api_secret@ }
    }
}

/// A key and secret as the keystore holds them.
#[derive(Debug, PartialEq, Eq)]
pub struct SecretEntry {
    pub api_key: String,
    pub api_secret: String,
}

/// How one account appears in the list of configured accounts: its name, with
/// its identity in brackets when it has one.
pub open spec fn account_text(a: AccountView) -> Seq<char> {
    if is_blank(a.identity) {
        a.name
    } else {
        a.name + " ("@ + a.identity + ")"@
    }
}

/// The names of the configured accounts, for error details.
pub open spec fn accounts_text(accounts: Seq<AccountView>) -> Seq<char> {
    if accounts.len() == 0 {
        "No accounts are configured yet. Run 'spaceship accounts add <name> --api-key <key> --api-secret <secret>'."@
    } else {
        "Configured accounts: "@ + join(sort_by_name(accounts).map_values(|a: AccountView| account_text(a)), ", "@)
    }
}

/// The configured accounts, ordered by name, for error details.
pub fn describe(config: &Config) -> (r: String)
    ensures
        r@ == accounts_text(config@),
{
    if config.accounts.len() == 0 {
        return "No accounts are configured yet. Run 'spaceship accounts add <name> --api-key <key> --api-secret <secret>'.".to_owned();
    }
    let sorted = config.sorted();
    let ghost sv = entries_view(sorted@);
    let mut listed: Vec<String> = Vec::new();
    let mut i: usize = 0;
    while i < sorted.len()
        invariant
            i <= sorted.len(),
            sv == entries_view(sorted@),
            views(listed@) == sv.take(i as int).map_values(|a: AccountView| account_text(a)),
        decreases sorted.len() - i,
    {
        let (k, v) = &sorted[i];
        let text = if blank(v.identity.as_str()) {
            k.clone()
        } else {
            let mut t = k.clone();
            append_str(&mut t, " (");
            append_str(&mut t, v.identity.as_str());
            append_str(&mut t, ")");
            t
        };
        let ghost before = listed@;
        listed.push(text);
        proof {
            assert(sv[i as int] == crate::config::account_view(sorted@[i as int]));
            assert(views(listed@) =~= views(before).push(text@));
            assert(sv.take(i + 1).map_values(|a: AccountView| account_text(a)) =~= sv.take(i as int).map_values(
                |a: AccountView| account_text(a),
            ).push(account_text(sv[i as int])));
        }
        i = i + 1;
    }
    proof {
        assert(sv.take(sorted.len() as int) =~= sv);
    }
    let mut out = "Configured accounts: ".to_owned();
    let joined = crate::client::join_strings(&listed, ", ");
    append_str(&mut out, joined.as_str());
    out
}


/// A credential source's value when it is present and not blank, trimmed.
pub open spec fn given(o: Option<Seq<char>>) -> Option<Seq<char>> {
    match o {
        Some(t) if !is_blank(t) => Some(trimmed(t)),
        _ => None,
    }
}

pub open spec fn str_opt(o: Option<&str>) -> Option<Seq<char>> {
    match o {
        Some(t) => Some(t@),
        None => None,
    }
}

/// Where credentials are found: ready to use, or in the keystore entry of a
/// configured account (named as configured).
#[derive(Debug, PartialEq, Eq)]
pub enum Resolution {
    Ready(Resolved),
    Lookup(String),
}

pub enum ResolutionView {
    Ready(ResolvedView),
    Lookup(Seq<char>),
}

impl View for Resolution {
    type V = ResolutionView;

    open spec fn view(&self) -> ResolutionView {
        match self {
            Resolution::Ready(r) => ResolutionView::Ready(r@),
            Resolution::Lookup(n) => ResolutionView::Lookup(n@),
        }
    }
}

pub open spec fn resolution_outcome(r: Result<Resolution, Error>) -> Result<ResolutionView, ErrorView> {
    match r {
        Ok(x) => Ok(x@),
        Err(e) => Err(e@),
    }
}

/// The refusal when nothing says which credentials to use.
pub open spec fn no_account_error(accounts: Seq<AccountView>) -> ErrorView {
    plain(
        ErrorCode::NoAccount,
        "No account specified. Pass --account <name> or set SPACESHIP_API_KEY and SPACESHIP_API_SECRET."@,
    ).with_detail(accounts_text(accounts)).with_fix("spaceship accounts list"@)
}

/// The keystore entry of the configured account `name`, or the refusal when
/// there is no such account.
pub open spec fn named_account(name: Seq<char>, accounts: Seq<AccountView>) -> Result<ResolutionView, ErrorView> {
    match find_account(accounts, name) {
        Some(i) => Ok(ResolutionView::Lookup(accounts[i].name)),
        None => Err(
            plain(ErrorCode::NoAccount, "No account named '"@ + name + "'."@).with_detail(
                accounts_text(accounts),
            ).with_fix("spaceship accounts list"@),
        ),
    }
}

/// Where the credentials of a command come from, by precedence: both flags;
/// the `--account` entry; the `SPACESHIP_ACCOUNT` entry; both environment
/// settings; then, unless just one flag was given (which is refused), the
/// `default` entry; else a refusal.
pub open spec fn resolution(
    requested: Option<Seq<char>>,
    flag_key: Option<Seq<char>>,
    flag_secret: Option<Seq<char>>,
    env_account: Option<Seq<char>>,
    env_key: Option<Seq<char>>,
    env_secret: Option<Seq<char>>,
    accounts: Seq<AccountView>,
) -> Result<ResolutionView, ErrorView> {
    if given(flag_key) is Some && given(flag_secret) is Some {
        Ok(
            ResolutionView::Ready(
                ResolvedView {
                    name: "(flags)"@,
                    api_key: given(flag_key)->Some_0,
                    api_secret: given(flag_secret)->Some_0,
                },
            ),
        )
    } else if given(requested) is Some {
        named_account(given(requested)->Some_0, accounts)
    } else if given(env_account) is Some {
        named_account(given(env_account)->Some_0, accounts)
    } else if given(env_key) is Some && given(env_secret) is Some {
        Ok(
            ResolutionView::Ready(
                ResolvedView {
                    name: "(environment)"@,
                    api_key: given(env_key)->Some_0,
                    api_secret: given(env_secret)->Some_0,
                },
            ),
        )
    } else if given(flag_key) is Some || given(flag_secret) is Some {
        Err(
            plain(
                ErrorCode::InvalidInput,
                "Both --api-key and --api-secret are required when passing credentials via flags."@,
            ),
        )
    } else {
        match find_account(accounts, "default"@) {
            Some(i) => Ok(ResolutionView::Lookup(accounts[i].name)),
            None => Err(no_account_error(accounts)),
        }
    }
}

/// A source's value when present and not blank, trimmed.
pub fn given_value(o: Option<&str>) -> (r: Option<String>)
    ensures
        crate::error::opt_view(r) == given(str_opt(o)),
{
    match o {
        Some(t) => {
            let v = trim(t);
            if v.as_str().is_empty() {
                None
            } else {
                Some(v)
            }
        },
        None => None,
    }
}

/// The keystore entry of the configured account `name`, or the refusal.
pub fn lookup_named(name: &str, config: &Config) -> (r: Result<Resolution, Error>)
    ensures
        resolution_outcome(r) == named_account(name@, config@),
{
    match config.find(name) {
        Some(i) => {
            proof {
                assert(config@[i as int] == crate::config::account_view(config.accounts@[i as int]));
            }
            Ok(Resolution::Lookup(config.accounts[i].0.clone()))
        },
        None => {
            let mut m = "No account named '".to_owned();
            append_str(&mut m, name);
            append_str(&mut m, "'.");
            Err(Error::new(ErrorCode::NoAccount, m).detail(describe(config)).fix("spaceship accounts list".to_owned()))
        },
    }
}

/// Where the credentials of a command come from, given the `--account`,
/// `--api-key` and `--api-secret` flags, the `SPACESHIP_ACCOUNT`,
/// `SPACESHIP_API_KEY` and `SPACESHIP_API_SECRET` settings, and the
/// configured accounts.
pub fn resolve(
    requested: Option<&str>,
    flag_key: Option<&str>,
    flag_secret: Option<&str>,
    env_account: Option<&str>,
    env_key: Option<&str>,
    env_secret: Option<&str>,
    config: &Config,
) -> (r: Result<Resolution, Error>)
    ensures
        resolution_outcome(r) == resolution(
            str_opt(requested),
            str_opt(flag_key),
            str_opt(flag_secret),
            str_opt(env_account),
            str_opt(env_key),
            str_opt(env_secret),
            config@,
        ),
{
    let fk = given_value(flag_key);
    let fs = given_value(flag_secret);
    if fk.is_some() && fs.is_some() {
        return Ok(
            Resolution::Ready(Resolved { name: "(flags)".to_owned(), api_key: fk.unwrap(), api_secret: fs.unwrap() }),
        );
    }
    match given_value(requested) {
        Some(n) => return lookup_named(n.as_str(), config),
        None => {},
    }
    match given_value(env_account) {
        Some(n) => return lookup_named(n.as_str(), config),
        None => {},
    }
    let ek = given_value(env_key);
    let es = given_value(env_secret);
    if ek.is_some() && es.is_some() {
        return Ok(
            Resolution::Ready(
                Resolved { name: "(environment)".to_owned(), api_key: ek.unwrap(), api_secret: es.unwrap() },
            ),
        );
    }
    if fk.is_some() || fs.is_some() {
        return Err(
            Error::invalid(
                "Both --api-key and --api-secret are required when passing credentials via flags.".to_owned(),
            ),
        );
    }
    match config.find("default") {
        Some(i) => {
            proof {
                assert(config@[i as int] == crate::config::account_view(config.accounts@[i as int]));
            }
            Ok(Resolution::Lookup(config.accounts[i].0.clone()))
        },
        None => Err(
            Error::new(
                ErrorCode::NoAccount,
                "No account specified. Pass --account <name> or set SPACESHIP_API_KEY and SPACESHIP_API_SECRET.".to_owned(),
            ).detail(describe(config)).fix("spaceship accounts list".to_owned()),
        ),
    }
}

/// The refusal for a configured account whose keystore entry is missing or blank.
pub open spec fn missing_credentials(name: Seq<char>) -> ErrorView {
    plain(ErrorCode::AuthRequired, "Account '"@ + name + "' has no stored credentials."@).with_detail(
        "The config entry exists but the keystore has nothing under it."@,
    ).with_fix("spaceship accounts add "@ + name + " --api-key <key> --api-secret <secret>"@)
}

/// The key and secret of a keystore entry.
pub open spec fn secret_view(entry: Option<SecretEntry>) -> Option<(Seq<char>, Seq<char>)> {
    match entry {
        Some(e) => Some((e.api_key@, e.api_secret@)),
        None => None,
    }
}

/// The credentials of account `name` from its keystore entry (a key and a
/// secret): the entry as it is when neither is blank, else a refusal.
pub open spec fn stored_credentials(name: Seq<char>, entry: Option<(Seq<char>, Seq<char>)>) -> Result<
    ResolvedView,
    ErrorView,
> {
    match entry {
        Some((k, s)) if !is_blank(k) && !is_blank(s) => Ok(ResolvedView { name, api_key: k, api_secret: s }),
        _ => Err(missing_credentials(name)),
    }
}

/// The credentials of account `name` from its keystore entry, which must hold a
/// key and a secret that are not blank.
pub fn from_store(name: &str, entry: Option<SecretEntry>) -> (r: Result<Resolved, Error>)
    ensures
        match r {
            Ok(x) => Ok(x@),
            Err(x) => Err(x@),
        } == stored_credentials(name@, secret_view(entry)),
{
    match entry {
        Some(e) => {
            if !blank(e.api_key.as_str()) && !blank(e.api_secret.as_str()) {
                return Ok(Resolved { name: name.to_owned(), api_key: e.api_key, api_secret: e.api_secret });
            }
        },
        None => {},
    }
    let mut m = "Account '".to_owned();
    append_str(&mut m, name);
    append_str(&mut m, "' has no stored credentials.");
    let mut f = "spaceship accounts add ".to_owned();
    append_str(&mut f, name);
    append_str(&mut f, " --api-key <key> --api-secret <secret>");
    Err(
        Error::new(ErrorCode::AuthRequired, m).detail(
            "The config entry exists but the keystore has nothing under it.".to_owned(),
        ).fix(f),
    )
}


/// Both `--api-key` and `--api-secret` given (not blank) win over every other
/// source of credentials.
pub proof fn law_flags_win(
    requested: Option<Seq<char>>,
    flag_key: Option<Seq<char>>,
    flag_secret: Option<Seq<char>>,
    env_account: Option<Seq<char>>,
    env_key: Option<Seq<char>>,
    env_secret: Option<Seq<char>>,
    accounts: Seq<AccountView>,
)
    requires
        given(flag_key) is Some,
        given(flag_secret) is Some,
    ensures
        resolution(requested, flag_key, flag_secret, env_account, env_key, env_secret, accounts) == Ok::<
            ResolutionView,
            ErrorView,
        >(
            ResolutionView::Ready(
                ResolvedView {
                    name: "(flags)"@,
                    api_key: trimmed(flag_key->Some_0),
                    api_secret: trimmed(flag_secret->Some_0),
                },
            ),
        ),
{
}

/// Unless both flags are given, an account named with `--account` is used (or
/// refused when it is not configured), whatever `SPACESHIP_ACCOUNT` and the
/// environment credentials say.
pub proof fn law_account_before_environment(
    requested: Option<Seq<char>>,
    flag_key: Option<Seq<char>>,
    flag_secret: Option<Seq<char>>,
    env_account: Option<Seq<char>>,
    env_key: Option<Seq<char>>,
    env_secret: Option<Seq<char>>,
    accounts: Seq<AccountView>,
)
    requires
        !(given(flag_key) is Some && given(flag_secret) is Some),
        given(requested) is Some,
    ensures
        resolution(requested, flag_key, flag_secret, env_account, env_key, env_secret, accounts)
            == named_account(trimmed(requested->Some_0), accounts),
        find_account(accounts, trimmed(requested->Some_0)) is None ==> (resolution(
            requested,
            flag_key,
            flag_secret,
            env_account,
            env_key,
            env_secret,
            accounts,
        ) matches Err(e) && e.code == ErrorCode::NoAccount),
{
}

/// With no flag and no account named, the environment credentials win over the
/// `default` account.
pub proof fn law_environment_before_default(
    env_key: Option<Seq<char>>,
    env_secret: Option<Seq<char>>,
    accounts: Seq<AccountView>,
)
    requires
        given(env_key) is Some,
        given(env_secret) is Some,
    ensures
        resolution(None, None, None, None, env_key, env_secret, accounts) == Ok::<
            ResolutionView,
            ErrorView,
        >(
            ResolutionView::Ready(
                ResolvedView {
                    name: "(environment)"@,
                    api_key: trimmed(env_key->Some_0),
                    api_secret: trimmed(env_secret->Some_0),
                },
            ),
        ),
{
}

/// With no credentials anywhere and no `default` account, a command is refused
/// with `no_account`, and the detail lists the configured accounts.
pub proof fn law_nothing_is_no_account(accounts: Seq<AccountView>)
    requires
        find_account(accounts, "default"@) is None,
    ensures
        resolution(None, None, None, None, None, None, accounts) == Err::<ResolutionView, ErrorView>(
            no_account_error(accounts),
        ),
        no_account_error(accounts).code == ErrorCode::NoAccount,
        no_account_error(accounts).detail == Some(accounts_text(accounts)),
{
}

/// Without flags, `--account` or the environment's key and secret, the
/// account named by `SPACESHIP_ACCOUNT` is used (found up to ASCII case, or
/// refused), and without that setting the `default` account; `from_store`
/// then gives the command that account's stored key and secret.
pub proof fn law_account_fallbacks(env_account: Option<Seq<char>>, accounts: Seq<AccountView>)
    ensures
        given(env_account) matches Some(n) ==> resolution(None, None, None, env_account, None, None, accounts)
            == named_account(n, accounts),
        given(env_account) is None && find_account(accounts, "default"@) is Some ==> resolution(
            None,
            None,
            None,
            env_account,
            None,
            None,
            accounts,
        ) == Ok::<ResolutionView, ErrorView>(
            ResolutionView::Lookup(accounts[find_account(accounts, "default"@)->Some_0].name),
        ),
{
}

/// The account that a command falls back on without flags, `--account` or the
/// environment's key and secret: the one `SPACESHIP_ACCOUNT` names, else `default`.
pub open spec fn fallback_name(env_account: Option<Seq<char>>) -> Seq<char> {
    match given(env_account) {
        Some(n) => n,
        None => "default"@,
    }
}

/// Without flags, `--account` or the environment's key and secret, a command
/// runs with the key and secret stored under the configured account that
/// `SPACESHIP_ACCOUNT` names (or `default` without that setting), found up to
/// ASCII case and reported under its configured name.
pub proof fn law_fallback_account_credentials(
    env_account: Option<Seq<char>>,
    accounts: Seq<AccountView>,
    key: Seq<char>,
    secret: Seq<char>,
)
    requires
        find_account(accounts, fallback_name(env_account)) is Some,
        !is_blank(key),
        !is_blank(secret),
    ensures
        resolution(None, None, None, env_account, None, None, accounts) == Ok::<ResolutionView, ErrorView>(
            ResolutionView::Lookup(accounts[find_account(accounts, fallback_name(env_account))->Some_0].name),
        ),
        stored_credentials(
            accounts[find_account(accounts, fallback_name(env_account))->Some_0].name,
            Some((key, secret)),
        ) == Ok::<ResolvedView, ErrorView>(
            ResolvedView {
                name: accounts[find_account(accounts, fallback_name(env_account))->Some_0].name,
                api_key: key,
                api_secret: secret,
            },
        ),
{
}

} // verus!
