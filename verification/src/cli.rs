//! The command tree: every command and its arguments, as plain values.

use vstd::prelude::*;

verus! {

/// A whole command line.
#[derive(Debug, PartialEq, Eq)]
pub struct Cli {
    /// Print raw JSON instead of YAML.
    pub json: bool,
    /// Output format: yaml or json.
    pub format: Option<String>,
    /// Print HTTP method, URL, and status code to stderr.
    pub verbose: bool,
    pub auth: AuthArgs,
    pub command: Command,
}

/// How a command picks its credentials.
#[derive(Debug, PartialEq, Eq)]
pub struct AuthArgs {
    /// Account to run against.
    pub account: Option<String>,
    /// API key given on the command line.
    pub api_key: Option<String>,
    /// API secret given on the command line.
    pub api_secret: Option<String>,
}

#[derive(Debug, PartialEq, Eq)]
pub enum Command {
    /// Print the operating manual for an agent driving this tool.
    AgentReadme,
    /// Log in and store API credentials.
    Login(LoginArgs),
    /// Manage accounts and their credentials.
    Accounts(AccountsCommand),
    Domains(DomainsCommand),
    Dns(DnsCommand),
    Contacts(ContactsCommand),
    Sellerhub(SellerhubCommand),
    Hyperlift(HyperliftCommand),
    Operations(OperationsCommand),
}

#[derive(Debug, PartialEq, Eq)]
pub struct LoginArgs {
    /// Account name to store ("default" when not given).
    pub name: String,
    pub api_key: Option<String>,
    pub api_key_stdin: bool,
    pub api_secret: Option<String>,
    pub api_secret_stdin: bool,
    /// Replace credentials on an account that already exists.
    pub force: bool,
    /// Store credentials without calling the API to verify first.
    pub skip_probe: bool,
}

#[derive(Debug, PartialEq, Eq)]
pub enum AccountsCommand {
    Add {
        name: String,
        api_key: Option<String>,
        api_key_stdin: bool,
        api_secret: Option<String>,
        api_secret_stdin: bool,
        force: bool,
        skip_probe: bool,
    },
    List { check: bool },
    Test { name: String },
    Remove { name: String, yes: bool },
}

#[derive(Debug, PartialEq, Eq)]
pub enum DomainsCommand {
    List { take: u32, skip: u32, order_by: Option<String> },
    Get { domain: String },
    Check { domain: String },
    CheckBatch { domains: String },
    Register {
        domain: String,
        years: u32,
        auto_renew: bool,
        privacy: String,
        registrant: String,
        admin: Option<String>,
        tech: Option<String>,
        billing: Option<String>,
    },
    Delete { domain: String },
    Renew { domain: String, years: u32, expiration_date: String },
    Restore { domain: String },
    Autorenew { domain: String, enable: bool, disable: bool },
    Nameservers { domain: String, provider: String, hosts: Option<String> },
    Contacts {
        domain: String,
        registrant: String,
        admin: Option<String>,
        tech: Option<String>,
        billing: Option<String>,
    },
    Privacy { domain: String, level: String },
    EmailProtection { domain: String, enable: bool, disable: bool },
    AuthCode { domain: String },
    Transfer {
        domain: String,
        auto_renew: bool,
        privacy: String,
        registrant: String,
        admin: Option<String>,
        tech: Option<String>,
        billing: Option<String>,
        auth_code: Option<String>,
    },
    TransferStatus { domain: String },
    TransferLock { domain: String, lock: bool, unlock: bool },
    PersonalNs(PersonalNsCommand),
}

#[derive(Debug, PartialEq, Eq)]
pub enum PersonalNsCommand {
    List { domain: String },
    Save { domain: String, host: String, ips: String, rename: Option<String> },
    Delete { domain: String, host: String },
}

#[derive(Debug, PartialEq, Eq)]
pub enum DnsCommand {
    List {
        domain: String,
        take: u32,
        skip: u32,
        all: bool,
        order_by: Option<String>,
        record_type: Option<String>,
        name: Option<String>,
    },
    Save { domain: String, file: Option<String>, force: bool },
    Delete { domain: String, file: Option<String> },
}

#[derive(Debug, PartialEq, Eq)]
pub enum ContactsCommand {
    Save {
        first_name: String,
        last_name: String,
        email: String,
        address: String,
        city: String,
        country: String,
        phone: String,
        phone_ext: Option<String>,
        fax: Option<String>,
        fax_ext: Option<String>,
        tax_number: Option<String>,
        organization: Option<String>,
        address2: Option<String>,
        state: Option<String>,
        postal_code: Option<String>,
    },
    Get { id: String },
    Attributes(ContactAttributesCommand),
}

#[derive(Debug, PartialEq, Eq)]
pub enum ContactAttributesCommand {
    Save { file: Option<String> },
    Get { id: String },
}

#[derive(Debug, PartialEq, Eq)]
pub enum SellerhubCommand {
    List { take: u32, skip: u32 },
    Get { domain: String },
    Create { file: Option<String> },
    Update { domain: String, file: Option<String> },
    Delete { domain: String },
    Checkout { file: Option<String> },
    Verification,
    Sold { take: u32, cursor: Option<String>, from: Option<String>, to: Option<String> },
    Safepay(SafepayCommand),
}

#[derive(Debug, PartialEq, Eq)]
pub enum SafepayCommand {
    List { take: u32, skip: u32 },
    Get { transaction_id: String },
    Create { file: Option<String> },
}

#[derive(Debug, PartialEq, Eq)]
pub enum HyperliftCommand {
    List { take: u32, skip: u32 },
    Get { id: String },
    Build { id: String },
    BuildLogs { id: String, take: u32, cursor: Option<String> },
    Logs { id: String, take: u32, cursor: Option<String> },
    Metrics { id: String, start: String, end: String, interval: String, metrics: String },
    Restart { id: String },
    Scale { id: String, scale: u32 },
    Env(HyperliftEnvCommand),
}

#[derive(Debug, PartialEq, Eq)]
pub enum HyperliftEnvCommand {
    Get { id: String },
    Assign { id: String, file: Option<String> },
}

#[derive(Debug, PartialEq, Eq)]
pub enum OperationsCommand {
    Get { id: String },
}

} // verus!
