//! The operating manual an agent reads before its first call: as Markdown
//! text, or as data when JSON output is asked for.

use vstd::prelude::*;
use crate::error::ErrorCode;
use crate::json::{Json, JsonView, entry_models, lemma_lookup_first, lookup, push_member, str_list, string_list};
use crate::text::decimal;

verus! {

/// The version of the API this tool speaks.
pub open spec fn api_version() -> Seq<char> {
    "v1"@
}

/// The rules of the manual, in order.
pub open spec fn rules() -> Seq<Seq<char>> {
    seq![
        "Pass --account <name> (or configure SPACESHIP_API_KEY and SPACESHIP_API_SECRET)."@,
        "Run 'spaceship accounts list' first if you do not know which accounts exist; ask the human which to use."@,
        "On code auth_required, stop and surface the remediation string. Do not retry without fixing credentials or permissions."@,
        "Async domain operations (register, renew, restore, transfer) return an asyncOperationId; poll it with 'spaceship operations get <id>'."@,
        "DNS save adds records or updates matching TTLs. To change a record value, delete the old record first or pass --force."@,
        "DNS delete matches on name, type, and value."@,
        "SellerHub and SafePay transactions can be created/updated with JSON files or piped via stdin."@,
        "Deletes are irreversible. Read the resource back before deleting it."@,
        "Use --json when you are going to parse the output in code or jq."@,
    ]
}

/// What each exit status means, keyed by the status.
pub open spec fn exit_codes() -> Seq<(Seq<char>, JsonView)> {
    seq![
        ("0"@, JsonView::Str("ok"@)),
        ("1"@, JsonView::Str("error - unclassified, report and stop"@)),
        ("2"@, JsonView::Str("network - retry once, then stop"@)),
        ("3"@, JsonView::Str("auth_required - stop, check credentials or scope"@)),
        ("4"@, JsonView::Str("not_found - do not retry"@)),
        ("5"@, JsonView::Str("rate_limited - back off before retrying"@)),
        ("6"@, JsonView::Str("invalid_input - fix the call arguments"@)),
        ("7"@, JsonView::Str("no_account - run spaceship accounts list or pass credentials"@)),
    ]
}

/// The manual as data.
pub open spec fn manual_view() -> JsonView {
    JsonView::Object(
        seq![
            ("tool"@, JsonView::Str("spaceship"@)),
            ("apiVersion"@, JsonView::Str(api_version())),
            ("rules"@, str_list(rules())),
            ("exitCodes"@, JsonView::Object(exit_codes())),
        ],
    )
}

/// The manual as Markdown, for reading.
pub const MANUAL: &'static str = r#"# spaceship - agent operating manual

A native CLI over the Spaceship API (v1): domains, personal nameservers, DNS records, contacts,
SellerHub listings and SafePay escrow, Hyperlift applications, and async operations. Results are
YAML on stdout by default, errors are YAML on stderr, and `--json` switches both to JSON.

## Authentication and Accounts

Spaceship requires both an API Key (`X-API-Key`) and an API Secret (`X-API-Secret`).
Credentials can be provided in three ways:

1. **Named accounts in the OS keystore** (macOS Keychain, Windows DPAPI, Linux Secret Service):
       spaceship login [<name>] [--api-key <key>] [--api-secret <secret>]
       spaceship accounts add <name> --api-key <key> --api-secret <secret>
       spaceship domains list -a <name>

2. **Environment variables**:
       export SPACESHIP_API_KEY="your-api-key"
       export SPACESHIP_API_SECRET="your-api-secret"
       spaceship domains list

3. **Direct CLI flags**:
       spaceship domains list --api-key <key> --api-secret <secret>

Each Spaceship API key has specific scopes (`domains:read`, `dnsrecords:write`, `sellerhub:read`,
`hyperlift:execute`, etc.). If a scope is missing, the API returns `auth_required` (HTTP 403)
with "Insufficient permissions".

## Reading and Managing Domains

    spaceship domains list [--take <n>] [--skip <n>] [--order-by <field>]
    spaceship domains get <domain>
    spaceship domains check <domain>
    spaceship domains check-batch "example.com,example.net"
    spaceship domains register <domain> --registrant <id> [--years <n>] [--auto-renew]
    spaceship domains renew <domain> --expiration-date <date> [--years <n>]
    spaceship domains restore <domain>
    spaceship domains autorenew <domain> --enable|--disable
    spaceship domains nameservers <domain> --provider basic|custom [--hosts <h1,h2>]
    spaceship domains contacts <domain> --registrant <id> [--admin <id>] [--tech <id>] [--billing <id>]
    spaceship domains privacy <domain> --level public|high
    spaceship domains email-protection <domain> --enable|--disable
    spaceship domains auth-code <domain>
    spaceship domains transfer <domain> --registrant <id> [--auth-code <code>]
    spaceship domains transfer-status <domain>
    spaceship domains transfer-lock <domain> --lock|--unlock
    spaceship domains personal-ns list <domain>
    spaceship domains personal-ns save <domain> <host> --ips <ip1,ip2> [--rename <host>]
    spaceship domains personal-ns delete <domain> <host>

## DNS Records

    spaceship dns list <domain> [--type <type>] [--name <name>] [--all]
    spaceship dns save <domain> [--file <path>] [--force]
    spaceship dns delete <domain> [--file <path>]

`dns save` adds records or updates TTLs for exact matches. To replace a value, either pass
`--force` or delete the previous record first. Input is accepted via stdin or `--file`.

## Contacts

    spaceship contacts save --first-name <fn> --last-name <ln> --email <e> --address <addr> --city <city> --country <c> --phone <p>
    spaceship contacts get <id>
    spaceship contacts attributes save [--file <path>]
    spaceship contacts attributes get <id>

## SellerHub and SafePay

    spaceship sellerhub list [--take <n>] [--skip <n>]
    spaceship sellerhub get <domain>
    spaceship sellerhub create [--file <path>]
    spaceship sellerhub update <domain> [--file <path>]
    spaceship sellerhub delete <domain>
    spaceship sellerhub checkout [--file <path>]
    spaceship sellerhub verification
    spaceship sellerhub sold [--take <n>] [--cursor <c>] [--from <dt>] [--to <dt>]
    spaceship sellerhub safepay list
    spaceship sellerhub safepay get <id>
    spaceship sellerhub safepay create [--file <path>]

## Hyperlift Application Hosting

    spaceship hyperlift list
    spaceship hyperlift get <id>
    spaceship hyperlift build <id>
    spaceship hyperlift build-logs <id> [--take <n>] [--cursor <c>]
    spaceship hyperlift logs <id> [--take <n>] [--cursor <c>]
    spaceship hyperlift metrics <id> --start <dt> --end <dt> --interval <int> --metrics <m>
    spaceship hyperlift restart <id>
    spaceship hyperlift scale <id> --scale 0|1
    spaceship hyperlift env get <id>
    spaceship hyperlift env set <id> [--file <path>]

## Async Operations

Operations like domain registration, renewal, and transfer return an `asyncOperationId`.
Check status with:

    spaceship operations get <id>

## Exit Codes

    0  ok
    1  error          unclassified - report it and stop
    2  network        retry once, then stop
    3  auth_required  check API key, secret, and scopes
    4  not_found      the resource does not exist; do not retry
    5  rate_limited   back off before trying again
    6  invalid_input  fix the arguments
    7  no_account     run 'spaceship accounts list' or set credentials"#;

/// The manual as Markdown.
pub fn manual_text() -> (r: String)
    ensures
        r@ == MANUAL@,
{
    MANUAL.to_owned()
}

/// The manual as data, for JSON output.
pub fn manual_json() -> (r: Json)
    ensures
        r@ == manual_view(),
{
    let mut rules_v: Vec<String> = Vec::new();
    rules_v.push("Pass --account <name> (or configure SPACESHIP_API_KEY and SPACESHIP_API_SECRET).".to_owned());
    rules_v.push("Run 'spaceship accounts list' first if you do not know which accounts exist; ask the human which to use.".to_owned());
    rules_v.push("On code auth_required, stop and surface the remediation string. Do not retry without fixing credentials or permissions.".to_owned());
    rules_v.push("Async domain operations (register, renew, restore, transfer) return an asyncOperationId; poll it with 'spaceship operations get <id>'.".to_owned());
    rules_v.push("DNS save adds records or updates matching TTLs. To change a record value, delete the old record first or pass --force.".to_owned());
    rules_v.push("DNS delete matches on name, type, and value.".to_owned());
    rules_v.push("SellerHub and SafePay transactions can be created/updated with JSON files or piped via stdin.".to_owned());
    rules_v.push("Deletes are irreversible. Read the resource back before deleting it.".to_owned());
    rules_v.push("Use --json when you are going to parse the output in code or jq.".to_owned());
    proof {
        assert(crate::text::views(rules_v@) =~= rules());
    }
    let mut codes: Vec<(String, Json)> = Vec::new();
    push_member(&mut codes, "0", Json::Str("ok".to_owned()));
    push_member(&mut codes, "1", Json::Str("error - unclassified, report and stop".to_owned()));
    push_member(&mut codes, "2", Json::Str("network - retry once, then stop".to_owned()));
    push_member(&mut codes, "3", Json::Str("auth_required - stop, check credentials or scope".to_owned()));
    push_member(&mut codes, "4", Json::Str("not_found - do not retry".to_owned()));
    push_member(&mut codes, "5", Json::Str("rate_limited - back off before retrying".to_owned()));
    push_member(&mut codes, "6", Json::Str("invalid_input - fix the call arguments".to_owned()));
    push_member(&mut codes, "7", Json::Str("no_account - run spaceship accounts list or pass credentials".to_owned()));
    proof {
        assert(entry_models(codes@) =~= exit_codes());
    }
    let mut m: Vec<(String, Json)> = Vec::new();
    push_member(&mut m, "tool", Json::Str("spaceship".to_owned()));
    push_member(&mut m, "apiVersion", Json::Str("v1".to_owned()));
    push_member(&mut m, "rules", string_list(rules_v));
    push_member(&mut m, "exitCodes", Json::Object(codes));
    proof {
        assert(entry_models(m@) =~= manual_view()->Object_0);
    }
    Json::Object(m)
}


/// Whether `t` starts with `p`.
pub open spec fn starts_with(t: Seq<char>, p: Seq<char>) -> bool {
    p.len() <= t.len() && t.take(p.len() as int) == p
}

/// The keys of the exit-status table are the one-digit numbers in order.
proof fn lemma_exit_code_keys()
    ensures
        exit_codes().len() == 8,
        forall|j: int| 0 <= j < 8 ==> #[trigger] exit_codes()[j].0 == decimal(j as nat),
{
    reveal_strlit("0");
    reveal_strlit("1");
    reveal_strlit("2");
    reveal_strlit("3");
    reveal_strlit("4");
    reveal_strlit("5");
    reveal_strlit("6");
    reveal_strlit("7");
    let m = exit_codes();
    assert(m[0].0 =~= decimal(0));
    assert(m[1].0 =~= decimal(1));
    assert(m[2].0 =~= decimal(2));
    assert(m[3].0 =~= decimal(3));
    assert(m[4].0 =~= decimal(4));
    assert(m[5].0 =~= decimal(5));
    assert(m[6].0 =~= decimal(6));
    assert(m[7].0 =~= decimal(7));
}

/// The manual documents every exit status a failure can have: under the
/// status's number it names the failure's code first.
pub proof fn law_manual_documents_codes(c: ErrorCode)
    ensures
        lookup(exit_codes(), decimal(c.status() as nat)) matches Some(JsonView::Str(t)) && starts_with(
            t,
            c.label(),
        ),
        1 <= c.status() <= 7,
{
    let m = exit_codes();
    let i = c.status() as int;
    let d = decimal(i as nat);
    lemma_exit_code_keys();
    assert forall|j: int| 0 <= j < i implies m[j].0 != d by {
        assert(m[j].0 == decimal(j as nat));
        assert(decimal(j as nat)[0] != d[0]);
    }
    lemma_lookup_first(m, d, i);
    match c {
        ErrorCode::Error => {
            reveal_strlit("error");
            reveal_strlit("error - unclassified, report and stop");
            assert("error - unclassified, report and stop"@.take(5) =~= "error"@);
        },
        ErrorCode::Network => {
            reveal_strlit("network");
            reveal_strlit("network - retry once, then stop");
            assert("network - retry once, then stop"@.take(7) =~= "network"@);
        },
        ErrorCode::AuthRequired => {
            reveal_strlit("auth_required");
            reveal_strlit("auth_required - stop, check credentials or scope");
            assert("auth_required - stop, check credentials or scope"@.take(13) =~= "auth_required"@);
        },
        ErrorCode::NotFound => {
            reveal_strlit("not_found");
            reveal_strlit("not_found - do not retry");
            assert("not_found - do not retry"@.take(9) =~= "not_found"@);
        },
        ErrorCode::RateLimited => {
            reveal_strlit("rate_limited");
            reveal_strlit("rate_limited - back off before retrying");
            assert("rate_limited - back off before retrying"@.take(12) =~= "rate_limited"@);
        },
        ErrorCode::InvalidInput => {
            reveal_strlit("invalid_input");
            reveal_strlit("invalid_input - fix the call arguments");
            assert("invalid_input - fix the call arguments"@.take(13) =~= "invalid_input"@);
        },
        ErrorCode::NoAccount => {
            reveal_strlit("no_account");
            reveal_strlit("no_account - run spaceship accounts list or pass credentials");
            assert("no_account - run spaceship accounts list or pass credentials"@.take(10) =~= "no_account"@);
        },
    }
}

} // verus!
