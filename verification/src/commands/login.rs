//! Logging in: storing credentials under an account name.

use vstd::prelude::*;
use crate::cli::LoginArgs;
use crate::commands::accounts::{EnrollKind, Enrollment, empty_name_error, enroll};
use crate::error::Error;
use crate::text::{is_blank, trimmed};

verus! {

/// The enrollment a `login` asks for; a blank name is refused at once.
pub fn run(args: LoginArgs) -> (r: Result<Enrollment, Error>)
    ensures
        is_blank(args.name@) ==> (r matches Err(e) && e@ == empty_name_error()),
        !is_blank(args.name@) ==> (r matches Ok(en) && en.name@ == trimmed(args.name@) && en.kind
            == EnrollKind::Login && en.api_key == args.api_key && en.api_key_stdin == args.api_key_stdin
            && en.api_secret == args.api_secret && en.api_secret_stdin == args.api_secret_stdin
            && en.force == args.force && en.skip_probe == args.skip_probe),
{
    enroll(
        EnrollKind::Login,
        args.name.as_str(),
        args.api_key,
        args.api_key_stdin,
        args.api_secret,
        args.api_secret_stdin,
        args.force,
        args.skip_probe,
    )
}


} // verus!
