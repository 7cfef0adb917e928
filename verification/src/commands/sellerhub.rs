//! SellerHub listings, checkout links and SafePay transactions.

use vstd::prelude::*;
use crate::cli::{SafepayCommand, SellerhubCommand};
use crate::client::{
    Method, RequestView, bare, call, num, num_param, pairs_view, query_of, query_string, seg_path,
    segment,
};
use crate::commands::{Action, ActionView, Completion, CompletionView, action_outcome, input};
use crate::error::{Error, ErrorCode, ErrorView, opt_view, plain};
use crate::text::append_str;

verus! {

pub open spec fn create_hint() -> Seq<char> {
    "{\"domainName\": \"...\", ...}"@
}

pub open spec fn update_hint() -> Seq<char> {
    "{\"displayName\": \"...\", ...}"@
}

pub open spec fn checkout_hint() -> Seq<char> {
    "{\"type\": \"buyNow\", \"domainName\": \"...\", ...}"@
}

pub open spec fn safepay_hint() -> Seq<char> {
    "{\"domainName\": \"...\", \"initiatedBy\": \"seller\", \"basePrice\": {...}, \"type\": \"buyNow\", \"feePercentageShare\": {...}}"@
}

/// A paged listing: `path?take=..&skip=..`.
pub open spec fn paged(path: Seq<char>, take: u32, skip: u32) -> RequestView {
    bare(Method::Get, path + query_string(seq![("take"@, num(take)), ("skip"@, num(skip))]))
}

/// The refusal of a page size outside 1 to 100.
pub open spec fn take_error() -> ErrorView {
    plain(ErrorCode::InvalidInput, "--take must be between 1 and 100."@)
}

/// What a SellerHub command does, or why it is refused.
pub open spec fn sellerhub_plan(cmd: SellerhubCommand) -> Result<ActionView, ErrorView> {
    match cmd {
        SellerhubCommand::List { take, skip } => Ok(ActionView::Call(paged("sellerhub/domains"@, take, skip))),
        SellerhubCommand::Get { domain } => Ok(
            ActionView::Call(bare(Method::Get, "sellerhub/domains/"@ + segment(domain@))),
        ),
        SellerhubCommand::Create { file } => Ok(
            input(opt_view(file), create_hint(), CompletionView::SellerhubCreate),
        ),
        SellerhubCommand::Update { domain, file } => Ok(
            input(opt_view(file), update_hint(), CompletionView::SellerhubUpdate { domain: domain@ }),
        ),
        SellerhubCommand::Delete { domain } => Ok(
            ActionView::Call(bare(Method::Delete, "sellerhub/domains/"@ + segment(domain@))),
        ),
        SellerhubCommand::Checkout { file } => Ok(
            input(opt_view(file), checkout_hint(), CompletionView::SellerhubCheckout),
        ),
        SellerhubCommand::Verification => Ok(
            ActionView::Call(bare(Method::Get, "sellerhub/verification-records"@)),
        ),
        SellerhubCommand::Sold { take, cursor, from, to } => {
            if take < 1 || take > 100 {
                Err(take_error())
            } else {
                Ok(
                    ActionView::Call(
                        bare(
                            Method::Get,
                            "sellerhub/domains/reports/sold"@ + query_string(
                                seq![
                                    ("take"@, num(take)),
                                    ("cursor"@, opt_view(cursor)),
                                    ("saleDateTimeFrom"@, opt_view(from)),
                                    ("saleDateTimeTo"@, opt_view(to)),
                                ],
                            ),
                        ),
                    ),
                )
            }
        },
        SellerhubCommand::Safepay(SafepayCommand::List { take, skip }) => Ok(
            ActionView::Call(paged("sellerhub/safepay-transactions"@, take, skip)),
        ),
        SellerhubCommand::Safepay(SafepayCommand::Get { transaction_id }) => Ok(
            ActionView::Call(bare(Method::Get, "sellerhub/safepay-transactions/"@ + segment(transaction_id@))),
        ),
        SellerhubCommand::Safepay(SafepayCommand::Create { file }) => Ok(
            input(opt_view(file), safepay_hint(), CompletionView::SafepayCreate),
        ),
    }
}

/// A paged listing call.
pub fn paged_call(path: &str, take: u32, skip: u32) -> (r: crate::client::ApiRequest)
    ensures
        r@ == paged(path@, take, skip),
{
    let mut pairs: Vec<(&str, Option<String>)> = Vec::new();
    pairs.push(("take", num_param(take)));
    pairs.push(("skip", num_param(skip)));
    proof {
        assert(pairs_view(pairs@) =~= seq![("take"@, num(take)), ("skip"@, num(skip))]);
    }
    let q = query_of(pairs);
    let mut p = path.to_owned();
    append_str(&mut p, q.as_str());
    call(Method::Get, p)
}

/// The refusal of a page size outside 1 to 100.
pub fn take_range_error() -> (e: Error)
    ensures
        e@ == take_error(),
{
    Error::invalid("--take must be between 1 and 100.".to_owned())
}

/// What a SellerHub command does, or why it is refused.
pub fn run(cmd: SellerhubCommand) -> (r: Result<Action, Error>)
    ensures
        action_outcome(r) == sellerhub_plan(cmd),
{
    match cmd {
        SellerhubCommand::List { take, skip } => Ok(Action::Call(paged_call("sellerhub/domains", take, skip))),
        SellerhubCommand::Get { domain } => Ok(
            Action::Call(call(Method::Get, seg_path("sellerhub/domains/", domain.as_str()))),
        ),
        SellerhubCommand::Create { file } => Ok(
            Action::Input {
                file,
                hint: "{\"domainName\": \"...\", ...}".to_owned(),
                then: Completion::SellerhubCreate,
            },
        ),
        SellerhubCommand::Update { domain, file } => Ok(
            Action::Input {
                file,
                hint: "{\"displayName\": \"...\", ...}".to_owned(),
                then: Completion::SellerhubUpdate { domain },
            },
        ),
        SellerhubCommand::Delete { domain } => Ok(
            Action::Call(call(Method::Delete, seg_path("sellerhub/domains/", domain.as_str()))),
        ),
        SellerhubCommand::Checkout { file } => Ok(
            Action::Input {
                file,
                hint: "{\"type\": \"buyNow\", \"domainName\": \"...\", ...}".to_owned(),
                then: Completion::SellerhubCheckout,
            },
        ),
        SellerhubCommand::Verification => Ok(
            Action::Call(call(Method::Get, "sellerhub/verification-records".to_owned())),
        ),
        SellerhubCommand::Sold { take, cursor, from, to } => {
            if take < 1 || take > 100 {
                return Err(take_range_error());
            }
            let mut pairs: Vec<(&str, Option<String>)> = Vec::new();
            pairs.push(("take", num_param(take)));
            pairs.push(("cursor", cursor));
            pairs.push(("saleDateTimeFrom", from));
            pairs.push(("saleDateTimeTo", to));
            proof {
                assert(pairs_view(pairs@) =~= seq![
                    ("take"@, num(take)),
                    ("cursor"@, opt_view(cursor)),
                    ("saleDateTimeFrom"@, opt_view(from)),
                    ("saleDateTimeTo"@, opt_view(to)),
                ]);
            }
            let q = query_of(pairs);
            let mut p = "sellerhub/domains/reports/sold".to_owned();
            append_str(&mut p, q.as_str());
            Ok(Action::Call(call(Method::Get, p)))
        },
        SellerhubCommand::Safepay(SafepayCommand::List { take, skip }) => Ok(
            Action::Call(paged_call("sellerhub/safepay-transactions", take, skip)),
        ),
        SellerhubCommand::Safepay(SafepayCommand::Get { transaction_id }) => Ok(
            Action::Call(call(Method::Get, seg_path("sellerhub/safepay-transactions/", transaction_id.as_str()))),
        ),
        SellerhubCommand::Safepay(SafepayCommand::Create { file }) => Ok(
            Action::Input {
                file,
                hint: "{\"domainName\": \"...\", \"initiatedBy\": \"seller\", \"basePrice\": {...}, \"type\": \"buyNow\", \"feePercentageShare\": {...}}".to_owned(),
                then: Completion::SafepayCreate,
            },
        ),
    }
}

} // verus!
