//! How results and errors are presented: the output format, the error
//! envelope and its exit status, and the reading of a refused command line.

use vstd::prelude::*;
use crate::error::{Error, ErrorCode, ErrorView, opt_view, plain};
use crate::json::{Json, JsonView, entry_models, push_member, push_opt, push_opt_member};
use crate::text::{append_str, chars_of, eq_ignore_case, is_blank, items_by, join, split_items, str_eq, str_eq_ignore_case, string_of, trim, trimmed, views};

verus! {

/// The error envelope: the message, the code's name, then the detail and the
/// remediation when there are any.
pub open spec fn envelope_view(e: ErrorView) -> JsonView {
    JsonView::Object(
        push_opt(
            push_opt(
                seq![("error"@, JsonView::Str(e.message)), ("code"@, JsonView::Str(e.code.label()))],
                "detail"@,
                e.detail,
            ),
            "remediation"@,
            e.fix,
        ),
    )
}

/// The error envelope of `e`.
pub fn envelope(e: &Error) -> (r: Json)
    ensures
        r@ == envelope_view(e@),
{
    let mut m: Vec<(String, Json)> = Vec::new();
    push_member(&mut m, "error", Json::Str(e.message.clone()));
    push_member(&mut m, "code", Json::Str(e.code.as_str()));
    proof {
        assert(entry_models(m@) =~= seq![("error"@, JsonView::Str(e@.message)), ("code"@, JsonView::Str(e@.code.label()))]);
    }
    let d = match &e.detail {
        Some(t) => Some(t.clone()),
        None => None,
    };
    let f = match &e.fix {
        Some(t) => Some(t.clone()),
        None => None,
    };
    push_opt_member(&mut m, "detail", d);
    push_opt_member(&mut m, "remediation", f);
    Json::Object(m)
}

/// The exit status of a failed command.
pub fn exit_status(e: &Error) -> (c: u8)
    ensures
        c == e.code.status(),
{
    e.code.exit_code()
}

/// Whether a raw argument list asks for JSON output: `--json`, `--format json`
/// or `--format=json` anywhere in it.
pub open spec fn asks_json(args: Seq<Seq<char>>) -> bool {
    exists|i: int|
        0 <= i < args.len() && (#[trigger] args[i] == "--json"@ || args[i] == "--format=json"@ || (i + 1
            < args.len() && args[i] == "--format"@ && args[i + 1] == "json"@))
}

/// Whether a raw argument list asks for JSON output, looked at before the
/// command line is parsed so that a refusal can be reported in that format.
pub fn wants_json(args: &Vec<String>) -> (b: bool)
    ensures
        b == asks_json(views(args@)),
{
    let ghost v = views(args@);
    let mut i: usize = 0;
    while i < args.len()
        invariant
            i <= args.len(),
            v == views(args@),
            v.len() == args.len(),
            forall|k: int|
                0 <= k < i ==> !(#[trigger] v[k] == "--json"@ || v[k] == "--format=json"@ || (k + 1
                    < v.len() && v[k] == "--format"@ && v[k + 1] == "json"@)),
        decreases args.len() - i,
    {
        let a = args[i].as_str();
        proof {
            assert(v[i as int] == args@[i as int]@);
        }
        if str_eq(a, "--json") || str_eq(a, "--format=json") {
            return true;
        }
        if i + 1 < args.len() && str_eq(a, "--format") {
            proof {
                assert(v[i + 1] == args@[i + 1]@);
            }
            if str_eq(args[i + 1].as_str(), "json") {
                return true;
            }
        }
        i = i + 1;
    }
    false
}

/// Whether the parsed command line asks for JSON output: `--json`, or a
/// `--format` of `json` in any ASCII case.
pub fn use_json(json: bool, format: Option<&str>) -> (b: bool)
    ensures
        b == (json || (format matches Some(f) && eq_ignore_case(f@, "json"@))),
{
    json || match format {
        Some(f) => str_eq_ignore_case(f, "json"),
        None => false,
    }
}

/// The two characters that end the first paragraph of a rendered refusal.
pub open spec fn blank_line_at(s: Seq<char>, i: int) -> bool {
    0 <= i && i + 1 < s.len() && s[i] == '\n' && s[i + 1] == '\n'
}

/// The first position from `start` where a blank line begins.
pub open spec fn blank_line_from(s: Seq<char>, start: int) -> Option<int>
    decreases s.len() - start,
{
    if start < 0 || start + 1 >= s.len() {
        None
    } else if blank_line_at(s, start) {
        Some(start)
    } else {
        blank_line_from(s, start + 1)
    }
}

/// The text before the first blank line and the text after it (or all and nothing).
pub open spec fn split_paragraph(s: Seq<char>) -> (Seq<char>, Seq<char>) {
    match blank_line_from(s, 0) {
        Some(i) => (s.take(i), s.skip(i + 2)),
        None => (s, Seq::<char>::empty()),
    }
}

pub open spec fn error_prefix() -> Seq<char> {
    seq!['e', 'r', 'r', 'o', 'r', ':', ' ']
}

/// `s` without every leading `error: `.
pub open spec fn strip_error_prefix(s: Seq<char>) -> Seq<char>
    decreases s.len(),
{
    if s.len() >= 7 && s.take(7) == error_prefix() {
        strip_error_prefix(s.skip(7))
    } else {
        s
    }
}

/// How a refused command line is reported: the lines of its explanation joined
/// with spaces, without the leading `error: `, as an `invalid_input` message
/// (or `Invalid arguments.` when nothing is left), with the usage text after
/// the first blank line as the detail when there is one.
pub open spec fn parse_failure_view(rendered: Seq<char>) -> ErrorView {
    let parts = split_paragraph(rendered);
    let msg = strip_error_prefix(join(items_by(parts.0, '\n'), " "@));
    let e = plain(ErrorCode::InvalidInput, if msg.len() == 0 { "Invalid arguments."@ } else { msg });
    if is_blank(parts.1) {
        e
    } else {
        e.with_detail(trimmed(parts.1))
    }
}

pub proof fn lemma_blank_line_from(s: Seq<char>, start: int, i: int)
    requires
        0 <= start <= i,
        forall|k: int| start <= k < i ==> !blank_line_at(s, k),
        i + 1 < s.len() ==> blank_line_at(s, i),
    ensures
        blank_line_from(s, start) == (if i + 1 < s.len() { Some(i) } else { None::<int> }),
    decreases i - start,
{
    if start < i && start + 1 < s.len() {
        lemma_blank_line_from(s, start + 1, i);
    }
}

/// How a refused command line is reported, from the parser's rendering of the refusal.
pub fn parse_failure(rendered: &str) -> (e: Error)
    ensures
        e@ == parse_failure_view(rendered@),
{
    let cs = chars_of(rendered);
    let mut i: usize = 0;
    while i < cs.len() && i + 1 < cs.len() && !(cs[i] == '\n' && cs[i + 1] == '\n')
        invariant
            i <= cs.len(),
            cs@ == rendered@,
            forall|k: int| 0 <= k < i ==> !blank_line_at(cs@, k),
        decreases cs.len() - i,
    {
        i = i + 1;
    }
    proof {
        lemma_blank_line_from(cs@, 0, i as int);
    }
    let (what, usage) = if i < cs.len() && i + 1 < cs.len() {
        (string_of(&cs, 0, i), string_of(&cs, i + 2, cs.len()))
    } else {
        (string_of(&cs, 0, cs.len()), String::new())
    };
    proof {
        assert(cs@.subrange(0, i as int) =~= cs@.take(i as int));
        assert(cs@.subrange(i + 2, cs.len() as int) =~= cs@.skip(i + 2));
        assert(cs@.subrange(0, cs.len() as int) =~= cs@);
    }
    let lines = split_items(what.as_str(), '\n');
    let joined = crate::client::join_strings(&lines, " ");
    let jc = chars_of(joined.as_str());
    let mut k: usize = 0;
    proof {
        assert(jc@.skip(0) =~= jc@);
    }
    while k < jc.len() && jc.len() - k >= 7 && jc[k] == 'e' && jc[k + 1] == 'r' && jc[k + 2] == 'r' && jc[k + 3] == 'o'
        && jc[k + 4] == 'r' && jc[k + 5] == ':' && jc[k + 6] == ' '
        invariant
            k <= jc.len(),
            strip_error_prefix(jc@.skip(k as int)) == strip_error_prefix(jc@),
        decreases jc.len() - k,
    {
        proof {
            let t = jc@.skip(k as int);
            assert(t.take(7) =~= error_prefix());
            assert(t.skip(7) =~= jc@.skip(k + 7));
        }
        k = k + 7;
    }
    proof {
        let t = jc@.skip(k as int);
        if t.len() >= 7 {
            assert(t.take(7)[0] == jc@[k as int]);
            assert(t.take(7)[1] == jc@[k + 1]);
            assert(t.take(7)[2] == jc@[k + 2]);
            assert(t.take(7)[3] == jc@[k + 3]);
            assert(t.take(7)[4] == jc@[k + 4]);
            assert(t.take(7)[5] == jc@[k + 5]);
            assert(t.take(7)[6] == jc@[k + 6]);
            if t.take(7) == error_prefix() {
                assert(error_prefix()[0] == 'e');
            }
        }
        assert(jc@.subrange(k as int, jc.len() as int) =~= t);
    }
    let msg = string_of(&jc, k, jc.len());
    let err = if k == jc.len() {
        Error::invalid("Invalid arguments.".to_owned())
    } else {
        Error::invalid(msg)
    };
    let u = trim(usage.as_str());
    if u.as_str().is_empty() {
        err
    } else {
        err.detail(u)
    }
}


/// Why the argument parser stopped.
#[derive(Debug, Clone, Copy, PartialEq, Eq, Structural)]
pub enum RefusalKind {
    /// Help was asked for.
    Help,
    /// The version was asked for.
    Version,
    /// A command was given without a required argument or subcommand, and help is shown.
    MissingArgumentHelp,
    /// The command line is not valid.
    Invalid,
}

/// How a stop of the parser ends the program: `Some(status)` where the
/// parser's own text is printed and the program exits with that status (0 for
/// help and version, the `invalid_input` status for help shown on a missing
/// argument), `None` where the refusal is reported as an error envelope.
pub open spec fn refusal_status_spec(kind: RefusalKind) -> Option<u8> {
    match kind {
        RefusalKind::Help | RefusalKind::Version => Some(0u8),
        RefusalKind::MissingArgumentHelp => Some(ErrorCode::InvalidInput.status()),
        RefusalKind::Invalid => None,
    }
}

/// How a stop of the parser ends the program.
pub fn refusal_status(kind: RefusalKind) -> (r: Option<u8>)
    ensures
        r == refusal_status_spec(kind),
{
    match kind {
        RefusalKind::Help | RefusalKind::Version => Some(0),
        RefusalKind::MissingArgumentHelp => Some(ErrorCode::InvalidInput.exit_code()),
        RefusalKind::Invalid => None,
    }
}

} // verus!
