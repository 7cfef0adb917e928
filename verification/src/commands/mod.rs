//! What each command does: the API call it makes, the input it reads, and the
//! decisions it takes between calls.

pub mod accounts;
pub mod contacts;
pub mod dns;
pub mod domains;
pub mod hyperlift;
pub mod login;
pub mod operations;
pub mod sellerhub;

use vstd::prelude::*;
use crate::cli::{
    AccountsCommand, Command, ContactsCommand, DnsCommand, DomainsCommand, HyperliftCommand, LoginArgs,
    OperationsCommand, SellerhubCommand,
};
use crate::client::{ApiRequest, Method, RequestView, call, call_with, outcome, seg_path, segment, with_body};
use crate::commands::dns::{DnsListing, ListingView};
use crate::account::Resolved;
use crate::error::{Error, ErrorCode, ErrorView, opt_view, plain};
use crate::json::{Json, JsonView};
use crate::text::{append_str, blank, is_blank};

verus! {

/// A request that still needs a JSON document from the user before it can be sent.
#[derive(Debug, PartialEq, Eq)]
pub enum Completion {
    DnsSave { domain: String, force: bool },
    DnsDelete { domain: String },
    ContactAttributes,
    SellerhubCreate,
    SellerhubUpdate { domain: String },
    SellerhubCheckout,
    SafepayCreate,
    HyperliftEnv { id: String },
}

/// The mathematical value of a [`Completion`].
pub enum CompletionView {
    DnsSave { domain: Seq<char>, force: bool },
    DnsDelete { domain: Seq<char> },
    ContactAttributes,
    SellerhubCreate,
    SellerhubUpdate { domain: Seq<char> },
    SellerhubCheckout,
    SafepayCreate,
    HyperliftEnv { id: Seq<char> },
}

impl View for Completion {
    type V = CompletionView;

    open spec fn view(&self) -> CompletionView {
        match self {
            Completion::DnsSave { domain, force } => CompletionView::DnsSave { domain: domain@, force: *force },
            Completion::DnsDelete { domain } => CompletionView::DnsDelete { domain: domain@ },
            Completion::ContactAttributes => CompletionView::ContactAttributes,
            Completion::SellerhubCreate => CompletionView::SellerhubCreate,
            Completion::SellerhubUpdate { domain } => CompletionView::SellerhubUpdate { domain: domain@ },
            Completion::SellerhubCheckout => CompletionView::SellerhubCheckout,
            Completion::SafepayCreate => CompletionView::SafepayCreate,
            Completion::HyperliftEnv { id } => CompletionView::HyperliftEnv { id: id@ },
        }
    }
}

/// What a command asks for next.
#[derive(Debug, PartialEq, Eq)]
pub enum Action {
    /// Send this call and print its reply.
    Call(ApiRequest),
    /// Read a JSON document (from the file, else from standard input), then
    /// complete the request with it.
    Input { file: Option<String>, hint: String, then: Completion },
    /// Page through a DNS zone.
    ListDns(DnsListing),
}

/// The mathematical value of an [`Action`].
pub enum ActionView {
    Call(RequestView),
    Input { file: Option<Seq<char>>, hint: Seq<char>, then: CompletionView },
    ListDns(ListingView),
}

impl View for Action {
    type V = ActionView;

    open spec fn view(&self) -> ActionView {
        match self {
            Action::Call(q) => ActionView::Call(q@),
            Action::Input { file, hint, then } => ActionView::Input {
                file: opt_view(*file),
                hint: hint@,
                then: then@,
            },
            Action::ListDns(l) => ActionView::ListDns(l@),
        }
    }
}

/// The plain value of a planned action or its refusal.
pub open spec fn action_outcome(r: Result<Action, Error>) -> Result<ActionView, ErrorView> {
    match r {
        Ok(a) => Ok(a@),
        Err(e) => Err(e@),
    }
}

/// An action that reads JSON input.
pub open spec fn input(file: Option<Seq<char>>, hint: Seq<char>, then: CompletionView) -> ActionView {
    ActionView::Input { file, hint, then }
}

/// Where a JSON document comes from.
#[derive(Debug, PartialEq, Eq)]
pub enum InputSource {
    File(String),
    Stdin,
}

/// The message that asks for JSON input.
pub open spec fn no_input_message(hint: Seq<char>) -> Seq<char> {
    "Provide JSON via stdin or --file. Expected: "@ + hint
}

/// Where the JSON input is read from: the file when one is named (and not
/// blank), else standard input unless it is a terminal, which is refused.
pub fn input_source(file: Option<&str>, stdin_is_terminal: bool, hint: &str) -> (r: Result<InputSource, Error>)
    ensures
        match file {
            Some(p) if !is_blank(p@) => (r matches Ok(InputSource::File(q)) && q@ == p@),
            _ => if stdin_is_terminal {
                (r matches Err(e) && e@ == plain(ErrorCode::InvalidInput, no_input_message(hint@)))
            } else {
                r matches Ok(InputSource::Stdin)
            },
        },
{
    match file {
        Some(p) => {
            if !blank(p) {
                return Ok(InputSource::File(p.to_owned()));
            }
        },
        None => {},
    }
    if stdin_is_terminal {
        let mut m = "Provide JSON via stdin or --file. Expected: ".to_owned();
        append_str(&mut m, hint);
        Err(Error::invalid(m))
    } else {
        Ok(InputSource::Stdin)
    }
}

/// Refuses standard input that holds nothing but whitespace.
pub fn check_stdin_text(text: &str, hint: &str) -> (r: Result<(), Error>)
    ensures
        is_blank(text@) ==> (r matches Err(e) && e@ == plain(
            ErrorCode::InvalidInput,
            "Stdin was empty. "@ + no_input_message(hint@),
        )),
        !is_blank(text@) ==> r is Ok,
{
    if blank(text) {
        let mut m = "Stdin was empty. Provide JSON via stdin or --file. Expected: ".to_owned();
        append_str(&mut m, hint);
        proof {
            reveal_strlit("Stdin was empty. Provide JSON via stdin or --file. Expected: ");
            reveal_strlit("Stdin was empty. ");
            reveal_strlit("Provide JSON via stdin or --file. Expected: ");
            assert(m@ =~= "Stdin was empty. "@ + no_input_message(hint@));
        }
        Err(Error::invalid(m))
    } else {
        Ok(())
    }
}

/// The error for a file that could not be read.
pub fn file_error(path: &str, reason: &str) -> (e: Error)
    ensures
        e@ == plain(ErrorCode::InvalidInput, "Failed to read file '"@ + path@ + "': "@ + reason@),
{
    let mut m = "Failed to read file '".to_owned();
    append_str(&mut m, path);
    append_str(&mut m, "': ");
    append_str(&mut m, reason);
    Error::invalid(m)
}

/// The error for input that is not JSON.
pub fn json_error(reason: &str) -> (e: Error)
    ensures
        e@ == plain(ErrorCode::InvalidInput, "Invalid JSON: "@ + reason@),
{
    let mut m = "Invalid JSON: ".to_owned();
    append_str(&mut m, reason);
    Error::invalid(m)
}


/// The call a completed request makes with its JSON input, or why the input is refused.
pub open spec fn complete_plan(c: CompletionView, body: JsonView) -> Result<RequestView, ErrorView> {
    match c {
        CompletionView::DnsSave { domain, force } => dns::save_plan(domain, force, body),
        CompletionView::DnsDelete { domain } => dns::delete_plan(domain, body),
        CompletionView::ContactAttributes => Ok(with_body(Method::Put, "contacts/attributes"@, body)),
        CompletionView::SellerhubCreate => Ok(with_body(Method::Post, "sellerhub/domains"@, body)),
        CompletionView::SellerhubUpdate { domain } => Ok(
            with_body(Method::Patch, "sellerhub/domains/"@ + segment(domain), body),
        ),
        CompletionView::SellerhubCheckout => Ok(with_body(Method::Post, "sellerhub/checkout-links"@, body)),
        CompletionView::SafepayCreate => Ok(with_body(Method::Post, "sellerhub/safepay-transactions"@, body)),
        CompletionView::HyperliftEnv { id } => hyperlift::env_plan(id, body),
    }
}

/// Completes a request with its JSON input.
pub fn complete(c: Completion, body: Json) -> (r: Result<ApiRequest, Error>)
    ensures
        outcome(r) == complete_plan(c@, body@),
{
    match c {
        Completion::DnsSave { domain, force } => dns::save_request(domain.as_str(), force, body),
        Completion::DnsDelete { domain } => dns::delete_request(domain.as_str(), body),
        Completion::ContactAttributes => Ok(call_with(Method::Put, "contacts/attributes".to_owned(), body)),
        Completion::SellerhubCreate => Ok(call_with(Method::Post, "sellerhub/domains".to_owned(), body)),
        Completion::SellerhubUpdate { domain } => Ok(
            call_with(Method::Patch, seg_path("sellerhub/domains/", domain.as_str()), body),
        ),
        Completion::SellerhubCheckout => Ok(call_with(Method::Post, "sellerhub/checkout-links".to_owned(), body)),
        Completion::SafepayCreate => Ok(
            call_with(Method::Post, "sellerhub/safepay-transactions".to_owned(), body),
        ),
        Completion::HyperliftEnv { id } => hyperlift::env_request(id.as_str(), body),
    }
}

/// A command that talks to the API once credentials are resolved.
#[derive(Debug, PartialEq, Eq)]
pub enum ApiCommand {
    Domains(DomainsCommand),
    Dns(DnsCommand),
    Contacts(ContactsCommand),
    Sellerhub(SellerhubCommand),
    Hyperlift(HyperliftCommand),
    Operations(OperationsCommand),
}

/// What the program does for a command line.
#[derive(Debug, PartialEq, Eq)]
pub enum Task {
    /// Print the agent manual.
    Readme,
    /// Store credentials under a name.
    Login(LoginArgs),
    /// Manage stored accounts.
    Accounts(AccountsCommand),
    /// Resolve credentials, then run an API command.
    Api(ApiCommand),
}

/// Sorts a command into what the program does for it. API commands resolve
/// their credentials before anything else; the others need none.
pub fn run(command: Command) -> (t: Task)
    ensures
        match command {
            Command::AgentReadme => t == Task::Readme,
            Command::Login(a) => t == Task::Login(a),
            Command::Accounts(c) => t == Task::Accounts(c),
            Command::Domains(c) => t == Task::Api(ApiCommand::Domains(c)),
            Command::Dns(c) => t == Task::Api(ApiCommand::Dns(c)),
            Command::Contacts(c) => t == Task::Api(ApiCommand::Contacts(c)),
            Command::Sellerhub(c) => t == Task::Api(ApiCommand::Sellerhub(c)),
            Command::Hyperlift(c) => t == Task::Api(ApiCommand::Hyperlift(c)),
            Command::Operations(c) => t == Task::Api(ApiCommand::Operations(c)),
        },
{
    match command {
        Command::AgentReadme => Task::Readme,
        Command::Login(a) => Task::Login(a),
        Command::Accounts(c) => Task::Accounts(c),
        Command::Domains(c) => Task::Api(ApiCommand::Domains(c)),
        Command::Dns(c) => Task::Api(ApiCommand::Dns(c)),
        Command::Contacts(c) => Task::Api(ApiCommand::Contacts(c)),
        Command::Sellerhub(c) => Task::Api(ApiCommand::Sellerhub(c)),
        Command::Hyperlift(c) => Task::Api(ApiCommand::Hyperlift(c)),
        Command::Operations(c) => Task::Api(ApiCommand::Operations(c)),
    }
}

/// What an API command does, or why it is refused.
pub open spec fn api_plan(cmd: ApiCommand) -> Result<ActionView, ErrorView> {
    match cmd {
        ApiCommand::Domains(c) => match domains::domains_plan(c) {
            Ok(q) => Ok(ActionView::Call(q)),
            Err(e) => Err(e),
        },
        ApiCommand::Dns(c) => dns::dns_plan(c),
        ApiCommand::Contacts(c) => contacts::contacts_plan(c),
        ApiCommand::Sellerhub(c) => sellerhub::sellerhub_plan(c),
        ApiCommand::Hyperlift(c) => hyperlift::hyperlift_plan(c),
        ApiCommand::Operations(c) => Ok(ActionView::Call(operations::operations_plan(c))),
    }
}

/// What an API command does, or why it is refused.
pub fn plan(cmd: ApiCommand) -> (r: Result<Action, Error>)
    ensures
        action_outcome(r) == api_plan(cmd),
{
    match cmd {
        ApiCommand::Domains(c) => match domains::run(c) {
            Ok(q) => Ok(Action::Call(q)),
            Err(e) => Err(e),
        },
        ApiCommand::Dns(c) => dns::run(c),
        ApiCommand::Contacts(c) => contacts::run(c),
        ApiCommand::Sellerhub(c) => sellerhub::run(c),
        ApiCommand::Hyperlift(c) => hyperlift::run(c),
        ApiCommand::Operations(c) => Ok(Action::Call(operations::run(c))),
    }
}


/// What an API command does once its credentials are resolved: the
/// resolution's refusal when it failed (and then no call is planned, so no
/// request is sent), else the command's plan with the credentials it runs with.
pub fn prepare(cmd: ApiCommand, creds: Result<Resolved, Error>) -> (r: Result<(Resolved, Action), Error>)
    ensures
        match creds {
            Err(e) => r matches Err(x) && x@ == e@,
            Ok(c) => match api_plan(cmd) {
                Err(e) => r matches Err(x) && x@ == e,
                Ok(a) => r matches Ok(x) && x.0@ == c@ && x.1@ == a,
            },
        },
{
    match creds {
        Err(e) => Err(e),
        Ok(c) => match plan(cmd) {
            Err(e) => Err(e),
            Ok(a) => Ok((c, a)),
        },
    }
}

} // verus!
