//! Contacts and their registry-specific attributes.

use vstd::prelude::*;
use crate::cli::{ContactAttributesCommand, ContactsCommand};
use crate::client::{Method, RequestView, bare, call, call_with, seg_path, segment, with_body};
use crate::commands::{Action, ActionView, Completion, CompletionView, action_outcome, input};
use crate::error::{Error, ErrorView, opt_view};
use crate::json::{Json, JsonView, entry_models, push_member, push_opt, push_opt_member};

verus! {

/// The body of a contact: the required fields, then each optional one that is given.
pub open spec fn contact_body(
    first_name: Seq<char>,
    last_name: Seq<char>,
    email: Seq<char>,
    address: Seq<char>,
    city: Seq<char>,
    country: Seq<char>,
    phone: Seq<char>,
    phone_ext: Option<Seq<char>>,
    fax: Option<Seq<char>>,
    fax_ext: Option<Seq<char>>,
    tax_number: Option<Seq<char>>,
    organization: Option<Seq<char>>,
    address2: Option<Seq<char>>,
    state: Option<Seq<char>>,
    postal_code: Option<Seq<char>>,
) -> JsonView {
    let required = seq![
        ("firstName"@, JsonView::Str(first_name)),
        ("lastName"@, JsonView::Str(last_name)),
        ("email"@, JsonView::Str(email)),
        ("address1"@, JsonView::Str(address)),
        ("city"@, JsonView::Str(city)),
        ("country"@, JsonView::Str(country)),
        ("phone"@, JsonView::Str(phone)),
    ];
    let m1 = push_opt(push_opt(push_opt(required, "phoneExt"@, phone_ext), "fax"@, fax), "faxExt"@, fax_ext);
    let m2 = push_opt(push_opt(m1, "taxNumber"@, tax_number), "organization"@, organization);
    JsonView::Object(
        push_opt(push_opt(push_opt(m2, "address2"@, address2), "stateProvince"@, state), "postalCode"@, postal_code),
    )
}

/// What the JSON input of `contacts attributes save` looks like.
pub open spec fn attributes_hint() -> Seq<char> {
    "{\"type\": \"...\", ...}"@
}

/// What a contacts command does.
pub open spec fn contacts_plan(cmd: ContactsCommand) -> Result<ActionView, ErrorView> {
    match cmd {
        ContactsCommand::Save {
            first_name,
            last_name,
            email,
            address,
            city,
            country,
            phone,
            phone_ext,
            fax,
            fax_ext,
            tax_number,
            organization,
            address2,
            state,
            postal_code,
        } => Ok(
            ActionView::Call(
                with_body(
                    Method::Put,
                    "contacts"@,
                    contact_body(
                        first_name@,
                        last_name@,
                        email@,
                        address@,
                        city@,
                        country@,
                        phone@,
                        opt_view(phone_ext),
                        opt_view(fax),
                        opt_view(fax_ext),
                        opt_view(tax_number),
                        opt_view(organization),
                        opt_view(address2),
                        opt_view(state),
                        opt_view(postal_code),
                    ),
                ),
            ),
        ),
        ContactsCommand::Get { id } => Ok(ActionView::Call(bare(Method::Get, "contacts/"@ + segment(id@)))),
        ContactsCommand::Attributes(ContactAttributesCommand::Save { file }) => Ok(
            input(opt_view(file), attributes_hint(), CompletionView::ContactAttributes),
        ),
        ContactsCommand::Attributes(ContactAttributesCommand::Get { id }) => Ok(
            ActionView::Call(bare(Method::Get, "contacts/attributes/"@ + segment(id@))),
        ),
    }
}

/// What a contacts command does.
pub fn run(cmd: ContactsCommand) -> (r: Result<Action, Error>)
    ensures
        action_outcome(r) == contacts_plan(cmd),
{
    match cmd {
        ContactsCommand::Save {
            first_name,
            last_name,
            email,
            address,
            city,
            country,
            phone,
            phone_ext,
            fax,
            fax_ext,
            tax_number,
            organization,
            address2,
            state,
            postal_code,
        } => {
            let ghost req = seq![
                ("firstName"@, JsonView::Str(first_name@)),
                ("lastName"@, JsonView::Str(last_name@)),
                ("email"@, JsonView::Str(email@)),
                ("address1"@, JsonView::Str(address@)),
                ("city"@, JsonView::Str(city@)),
                ("country"@, JsonView::Str(country@)),
                ("phone"@, JsonView::Str(phone@)),
            ];
            let mut m: Vec<(String, Json)> = Vec::new();
            push_member(&mut m, "firstName", Json::Str(first_name));
            push_member(&mut m, "lastName", Json::Str(last_name));
            push_member(&mut m, "email", Json::Str(email));
            push_member(&mut m, "address1", Json::Str(address));
            push_member(&mut m, "city", Json::Str(city));
            push_member(&mut m, "country", Json::Str(country));
            push_member(&mut m, "phone", Json::Str(phone));
            proof {
                assert(entry_models(m@) =~= req);
            }
            push_opt_member(&mut m, "phoneExt", phone_ext);
            push_opt_member(&mut m, "fax", fax);
            push_opt_member(&mut m, "faxExt", fax_ext);
            push_opt_member(&mut m, "taxNumber", tax_number);
            push_opt_member(&mut m, "organization", organization);
            push_opt_member(&mut m, "address2", address2);
            push_opt_member(&mut m, "stateProvince", state);
            push_opt_member(&mut m, "postalCode", postal_code);
            Ok(Action::Call(call_with(Method::Put, "contacts".to_owned(), Json::Object(m))))
        },
        ContactsCommand::Get { id } => Ok(Action::Call(call(Method::Get, seg_path("contacts/", id.as_str())))),
        ContactsCommand::Attributes(ContactAttributesCommand::Save { file }) => Ok(
            Action::Input {
                file,
                hint: "{\"type\": \"...\", ...}".to_owned(),
                then: Completion::ContactAttributes,
            },
        ),
        ContactsCommand::Attributes(ContactAttributesCommand::Get { id }) => Ok(
            Action::Call(call(Method::Get, seg_path("contacts/attributes/", id.as_str()))),
        ),
    }
}

} // verus!
