//! Domain management: which API call each domain command makes.

use vstd::prelude::*;
use crate::cli::{DomainsCommand, PersonalNsCommand};
use crate::client::{
    ApiRequest, Method, RequestView, bare, call, call_with, num, num_param, outcome, pairs_view, query_of,
    query_string, seg_path, seg_path_then, segment, with_body,
};
use crate::error::{Error, ErrorView, plain, ErrorCode, opt_view};
use crate::json::{Json, JsonView, entry_models, push_member, push_opt, push_opt_member, str_list, string_list};
use crate::text::{
    append_str, blank, chars_of, decimal, decimal_string, ends_with, eq_ignore_case, is_blank,
    list_items, lower_text, split_list, str_eq_ignore_case, strip_dots, to_lowercase, trim, trimmed,
    views, without_trailing_dots,
};
use vstd::utf8::{decode_utf8, encode_utf8, is_ascii_chars, is_char_boundary};
use vstd::string::StringSliceAdditionalSpecFns;

verus! {

/// The label of a personal nameserver host: trimmed, without trailing dots.
pub open spec fn host_label(host: Seq<char>) -> Seq<char> {
    strip_dots(trimmed(host))
}

/// The suffix that names a host inside a domain: `.` and the trimmed domain
/// without trailing dots.
pub open spec fn domain_suffix(domain: Seq<char>) -> Seq<char> {
    seq!['.'] + strip_dots(trimmed(domain))
}

/// Whether the host ends with the domain, compared in lower case.
pub open spec fn host_in_domain(host: Seq<char>, domain: Seq<char>) -> bool {
    ends_with(lower_text(host_label(host)), lower_text(domain_suffix(domain)))
}

/// Where the host label is cut: its UTF-8 length less that of the domain suffix.
pub open spec fn host_cut(host: Seq<char>, domain: Seq<char>) -> int {
    encode_utf8(host_label(host)).len() - encode_utf8(domain_suffix(domain)).len()
}

/// Whether shortening the host stays inside the label and on a character boundary.
pub open spec fn host_cut_ok(host: Seq<char>, domain: Seq<char>) -> bool {
    host_in_domain(host, domain) ==> (0 <= host_cut(host, domain) && is_char_boundary(
        encode_utf8(host_label(host)),
        host_cut(host, domain),
    ))
}

/// The short name of a personal nameserver: the label, with the domain suffix
/// removed when the label ends with it (compared in lower case).
pub open spec fn short_host(host: Seq<char>, domain: Seq<char>) -> Seq<char> {
    if host_in_domain(host, domain) {
        decode_utf8(encode_utf8(host_label(host)).subrange(0, host_cut(host, domain)))
    } else {
        host_label(host)
    }
}

/// ASCII lower-casing of a text.
pub open spec fn lower_ascii(t: Seq<char>) -> Seq<char> {
    t.map_values(|c: char| crate::text::ascii_lower(c))
}

/// The short name of an ASCII host: the label without the domain suffix
/// where the label ends with it up to ASCII case, else the label.
pub open spec fn ascii_short_host(host: Seq<char>, domain: Seq<char>) -> Seq<char> {
    let l = host_label(host);
    let x = domain_suffix(domain);
    if ends_with(lower_ascii(l), lower_ascii(x)) {
        l.subrange(0, l.len() - x.len())
    } else {
        l
    }
}

proof fn lemma_ascii_drop_first(s: Seq<char>)
    requires
        is_ascii_chars(s),
        s.len() > 0,
    ensures
        is_ascii_chars(s.drop_first()),
        is_ascii_chars(s.drop_last()),
{
    assert forall|i: int| 0 <= i < s.drop_first().len() implies '\0' <= #[trigger] s.drop_first()[i] <= '\u{7f}' by {
        assert(s.drop_first()[i] == s[i + 1]);
    }
    assert forall|i: int| 0 <= i < s.drop_last().len() implies '\0' <= #[trigger] s.drop_last()[i] <= '\u{7f}' by {
        assert(s.drop_last()[i] == s[i]);
    }
}

proof fn lemma_ascii_trim_start(s: Seq<char>)
    requires
        is_ascii_chars(s),
    ensures
        is_ascii_chars(crate::text::trim_start(s)),
    decreases s.len(),
{
    if s.len() > 0 {
        lemma_ascii_drop_first(s);
        lemma_ascii_trim_start(s.drop_first());
    }
}

proof fn lemma_ascii_trim_end(s: Seq<char>)
    requires
        is_ascii_chars(s),
    ensures
        is_ascii_chars(crate::text::trim_end(s)),
    decreases s.len(),
{
    if s.len() > 0 {
        lemma_ascii_drop_first(s);
        lemma_ascii_trim_end(s.drop_last());
    }
}

proof fn lemma_ascii_strip_dots(s: Seq<char>)
    requires
        is_ascii_chars(s),
    ensures
        is_ascii_chars(strip_dots(s)),
    decreases s.len(),
{
    if s.len() > 0 {
        lemma_ascii_drop_first(s);
        lemma_ascii_strip_dots(s.drop_last());
    }
}

/// The label and the suffix of ASCII inputs are ASCII.
proof fn lemma_ascii_parts(host: Seq<char>, domain: Seq<char>)
    requires
        is_ascii_chars(host),
        is_ascii_chars(domain),
    ensures
        is_ascii_chars(host_label(host)),
        is_ascii_chars(domain_suffix(domain)),
{
    lemma_ascii_trim_start(host);
    lemma_ascii_trim_end(crate::text::trim_start(host));
    lemma_ascii_strip_dots(trimmed(host));
    lemma_ascii_trim_start(domain);
    lemma_ascii_trim_end(crate::text::trim_start(domain));
    lemma_ascii_strip_dots(trimmed(domain));
    let d = strip_dots(trimmed(domain));
    assert forall|i: int| 0 <= i < domain_suffix(domain).len() implies '\0' <= #[trigger] domain_suffix(domain)[i]
        <= '\u{7f}' by {
        if i > 0 {
            assert(domain_suffix(domain)[i] == d[i - 1]);
        }
    }
}

/// On ASCII text every position is a character boundary, and the bytes of a
/// prefix are the prefix of the bytes.
pub proof fn lemma_ascii_cut(t: Seq<char>, k: int)
    requires
        is_ascii_chars(t),
        0 <= k <= t.len(),
    ensures
        encode_utf8(t).len() == t.len(),
        is_char_boundary(encode_utf8(t), k),
        decode_utf8(encode_utf8(t).subrange(0, k)) == t.subrange(0, k),
{
    broadcast use vstd::utf8::group_utf8_lib;

    let bs = encode_utf8(t);
    let front = t.subrange(0, k);
    assert(is_ascii_chars(front)) by {
        assert forall|i: int| 0 <= i < front.len() implies '\0' <= #[trigger] front[i] <= '\u{7f}' by {
            assert(front[i] == t[i]);
        }
    }
    assert(encode_utf8(front) =~= bs.subrange(0, k)) by {
        assert forall|i: int| 0 <= i < k implies #[trigger] encode_utf8(front)[i] == bs.subrange(0, k)[i] by {
            assert(front[i] == t[i]);
            assert(front[i] as u8 == encode_utf8(front)[i]);
            assert(t[i] as u8 == bs[i]);
        }
    }
    if k < t.len() {
        assert(t[k] as u8 == bs[k]);
        assert((t[k] as nat) < 128);
        assert(!vstd::utf8::is_continuation_byte(bs[k]));
    }
}

/// The short name of a personal nameserver host within `domain`.
pub fn normalize_host(host: &str, domain: &str) -> (r: String)
    requires
        host_cut_ok(host@, domain@),
    ensures
        r@ == short_host(host@, domain@),
        is_ascii_chars(host@) && is_ascii_chars(domain@) ==> r@ == ascii_short_host(host@, domain@),
        is_ascii_chars(host@) && is_ascii_chars(domain@) ==> host_label(host@).take(r@.len() as int) == r@,
{
    let t = trim(host);
    let label = without_trailing_dots(t.as_str());
    let d = trim(domain);
    let dd = without_trailing_dots(d.as_str());
    let mut suffix = ".".to_owned();
    append_str(&mut suffix, dd.as_str());
    proof {
        reveal_strlit(".");
        assert(suffix@ =~= domain_suffix(domain@));
    }
    let ll = to_lowercase(label.as_str());
    let ls = to_lowercase(suffix.as_str());
    assert(label@ == host_label(host@));
    assert(ll@ == lower_text(host_label(host@)));
    assert(ls@ == lower_text(domain_suffix(domain@)));
    let e = crate::text::chars_end_with(&chars_of(ll.as_str()), &chars_of(ls.as_str()));
    assert(e == host_in_domain(host@, domain@));
    proof {
        if is_ascii_chars(host@) && is_ascii_chars(domain@) {
            lemma_ascii_parts(host@, domain@);
            assert(ll@ == lower_ascii(label@));
            assert(ls@ == lower_ascii(suffix@));
            let l = label@;
            if e {
                lemma_ascii_cut(l, 0);
                lemma_ascii_cut(suffix@, 0);
                lemma_ascii_cut(l, l.len() - suffix@.len());
                assert(l.take(l.len() - suffix@.len()) =~= l.subrange(0, l.len() - suffix@.len()));
            } else {
                assert(l.take(l.len() as int) =~= l);
            }
        }
    }
    if e {
        let cut = label.as_str().as_bytes().len() - suffix.as_str().as_bytes().len();
        let (front, _) = label.as_str().split_at(cut);
        proof {
            vstd::utf8::encode_utf8_decode_utf8(front@);
        }
        front.to_owned()
    } else {
        label
    }
}

/// Whether `normalize_host` can shorten `host` within `domain`.
pub fn host_shortens(host: &str, domain: &str) -> (b: bool)
    ensures
        b == host_cut_ok(host@, domain@),
        is_ascii_chars(host@) && is_ascii_chars(domain@) ==> b,
{
    let t = trim(host);
    let label = without_trailing_dots(t.as_str());
    let d = trim(domain);
    let dd = without_trailing_dots(d.as_str());
    let mut suffix = ".".to_owned();
    append_str(&mut suffix, dd.as_str());
    proof {
        reveal_strlit(".");
        assert(suffix@ =~= domain_suffix(domain@));
    }
    let ll = to_lowercase(label.as_str());
    let ls = to_lowercase(suffix.as_str());
    assert(label@ == host_label(host@));
    proof {
        if is_ascii_chars(host@) && is_ascii_chars(domain@) {
            lemma_ascii_parts(host@, domain@);
            lemma_ascii_cut(suffix@, 0);
            if suffix@.len() <= label@.len() {
                lemma_ascii_cut(label@, label@.len() - suffix@.len());
            }
        }
    }
    if crate::text::chars_end_with(&chars_of(ll.as_str()), &chars_of(ls.as_str())) {
        let a = label.as_str().as_bytes().len();
        let b = suffix.as_str().as_bytes().len();
        a >= b && label.as_str().is_char_boundary(a - b)
    } else {
        true
    }
}


/// The path of a domain.
pub open spec fn domain_path(d: Seq<char>) -> Seq<char> {
    "domains/"@ + segment(d)
}

/// The contacts of a domain: the registrant, and the admin, tech and billing
/// contacts that are given.
pub open spec fn contacts_object(
    registrant: Seq<char>,
    admin: Option<Seq<char>>,
    tech: Option<Seq<char>>,
    billing: Option<Seq<char>>,
) -> JsonView {
    JsonView::Object(
        push_opt(
            push_opt(
                push_opt(seq![("registrant"@, JsonView::Str(registrant))], "admin"@, admin),
                "tech"@,
                tech,
            ),
            "billing"@,
            billing,
        ),
    )
}

/// A privacy preference with the user's consent.
pub open spec fn privacy_object(level: Seq<char>) -> JsonView {
    JsonView::Object(seq![("level"@, JsonView::Str(level)), ("userConsent"@, JsonView::Bool(true))])
}

/// The body of a registration.
pub open spec fn register_body(years: u32, auto_renew: bool, privacy: Seq<char>, contacts: JsonView) -> JsonView {
    JsonView::Object(
        seq![
            ("autoRenew"@, JsonView::Bool(auto_renew)),
            ("years"@, JsonView::PosInt(years as u64)),
            ("privacyProtection"@, privacy_object(privacy)),
            ("contacts"@, contacts),
        ],
    )
}

/// The body of a transfer request; the authorization code only when it is not blank.
pub open spec fn transfer_body(
    auto_renew: bool,
    privacy: Seq<char>,
    contacts: JsonView,
    auth_code: Option<Seq<char>>,
) -> JsonView {
    let base = seq![
        ("autoRenew"@, JsonView::Bool(auto_renew)),
        ("privacyProtection"@, privacy_object(privacy)),
        ("contacts"@, contacts),
    ];
    JsonView::Object(
        match auth_code {
            Some(c) if !is_blank(c) => base.push(("authCode"@, JsonView::Str(c))),
            _ => base,
        },
    )
}

/// A one-member object.
pub open spec fn single(k: Seq<char>, v: JsonView) -> JsonView {
    JsonView::Object(seq![(k, v)])
}

/// The refusal of an on/off switch given neither or both ways.
pub open spec fn switch_error(on: bool, off: bool, on_flag: Seq<char>, off_flag: Seq<char>) -> Option<
    ErrorView,
> {
    if !on && !off {
        Some(plain(ErrorCode::InvalidInput, "Specify "@ + on_flag + " or "@ + off_flag + "."@))
    } else if on && off {
        Some(plain(ErrorCode::InvalidInput, "Cannot specify both "@ + on_flag + " and "@ + off_flag + "."@))
    } else {
        None
    }
}

/// The body for nameservers: the provider, and for a custom provider its hosts.
pub open spec fn nameservers_plan(domain: Seq<char>, provider: Seq<char>, hosts: Option<Seq<char>>) -> Result<
    RequestView,
    ErrorView,
> {
    let path = domain_path(domain) + "/nameservers"@;
    let base = seq![("provider"@, JsonView::Str(provider))];
    if eq_ignore_case(provider, "custom"@) {
        match hosts {
            Some(h) if !is_blank(h) => {
                let items = list_items(h);
                if items.len() < 2 || items.len() > 12 {
                    Err(plain(ErrorCode::InvalidInput, "Custom nameservers require 2-12 hosts."@))
                } else {
                    Ok(with_body(Method::Put, path, JsonView::Object(base.push(("hosts"@, str_list(items))))))
                }
            },
            _ => Err(plain(ErrorCode::InvalidInput, "--hosts is required when provider is custom."@)),
        }
    } else {
        Ok(with_body(Method::Put, path, JsonView::Object(base)))
    }
}

/// The nameserver rule: with the `custom` provider (in any ASCII case), the
/// hosts are the trimmed, non-blank comma-separated entries of `--hosts` (none
/// without it); fewer than 2 or more than 12 are refused as invalid input and
/// nothing is sent; otherwise one PUT sends the provider and the hosts. Any
/// other provider sends the provider alone, whatever `--hosts` says.
pub proof fn law_nameservers_rule(domain: Seq<char>, provider: Seq<char>, hosts: Option<Seq<char>>)
    ensures
        ({
            let h = match hosts {
                Some(t) => list_items(t),
                None => Seq::<Seq<char>>::empty(),
            };
            let path = domain_path(domain) + "/nameservers"@;
            &&& eq_ignore_case(provider, "custom"@) && (h.len() < 2 || h.len() > 12) ==> (nameservers_plan(
                domain,
                provider,
                hosts,
            ) matches Err(e) && e.code == ErrorCode::InvalidInput)
            &&& eq_ignore_case(provider, "custom"@) && 2 <= h.len() <= 12 ==> nameservers_plan(domain, provider, hosts)
                == Ok::<RequestView, ErrorView>(
                with_body(
                    Method::Put,
                    path,
                    JsonView::Object(seq![("provider"@, JsonView::Str(provider)), ("hosts"@, str_list(h))]),
                ),
            )
            &&& !eq_ignore_case(provider, "custom"@) ==> nameservers_plan(domain, provider, hosts)
                == Ok::<RequestView, ErrorView>(
                with_body(Method::Put, path, JsonView::Object(seq![("provider"@, JsonView::Str(provider))])),
            )
        }),
{
    if let Some(t) = hosts {
        if is_blank(t) {
            crate::text::law_blank_has_no_items(t, ',');
        }
    }
    assert(seq![("provider"@, JsonView::Str(provider))].push(("hosts"@, str_list(list_items(hosts->Some_0))))
        =~= seq![("provider"@, JsonView::Str(provider)), ("hosts"@, str_list(list_items(hosts->Some_0)))]);
}

/// The refusal when a host cannot be shortened without splitting a character.
pub open spec fn unsplittable_host(host: Seq<char>) -> ErrorView {
    plain(ErrorCode::InvalidInput, "Host '"@ + host + "' cannot be shortened to a name within the domain."@)
}

/// The call a personal-nameserver command makes, or why it is refused.
pub open spec fn personal_ns_plan(cmd: PersonalNsCommand) -> Result<RequestView, ErrorView> {
    match cmd {
        PersonalNsCommand::List { domain } => Ok(
            bare(Method::Get, domain_path(domain@) + "/personal-nameservers"@),
        ),
        PersonalNsCommand::Save { domain, host, ips, rename } => {
            let ip_list = list_items(ips@);
            let target = match rename {
                Some(r) if !is_blank(r@) => Some(r@),
                _ => None,
            };
            if ip_list.len() == 0 || ip_list.len() > 16 {
                Err(plain(ErrorCode::InvalidInput, "--ips needs 1-16 comma-separated addresses."@))
            } else if !host_cut_ok(host@, domain@) {
                Err(unsplittable_host(host@))
            } else if target is Some && !host_cut_ok(target->Some_0, domain@) {
                Err(unsplittable_host(target->Some_0))
            } else {
                let current = short_host(host@, domain@);
                let new_name = match target {
                    Some(t) => short_host(t, domain@),
                    None => current,
                };
                Ok(
                    with_body(
                        Method::Put,
                        domain_path(domain@) + "/personal-nameservers/"@ + segment(current),
                        JsonView::Object(seq![("host"@, JsonView::Str(new_name)), ("ips"@, str_list(ip_list))]),
                    ),
                )
            }
        },
        PersonalNsCommand::Delete { domain, host } => {
            if !host_cut_ok(host@, domain@) {
                Err(unsplittable_host(host@))
            } else {
                Ok(
                    bare(
                        Method::Delete,
                        domain_path(domain@) + "/personal-nameservers/"@ + segment(short_host(host@, domain@)),
                    ),
                )
            }
        },
    }
}

/// The call a domain command makes, or why it is refused.
pub open spec fn domains_plan(cmd: DomainsCommand) -> Result<RequestView, ErrorView> {
    match cmd {
        DomainsCommand::List { take, skip, order_by } => Ok(
            bare(
                Method::Get,
                "domains"@ + query_string(
                    seq![("take"@, num(take)), ("skip"@, num(skip)), ("orderBy"@, opt_view(order_by))],
                ),
            ),
        ),
        DomainsCommand::Get { domain } => Ok(bare(Method::Get, domain_path(domain@))),
        DomainsCommand::Check { domain } => Ok(bare(Method::Get, domain_path(domain@) + "/available"@)),
        DomainsCommand::CheckBatch { domains } => {
            let items = list_items(domains@);
            if items.len() > 20 {
                Err(plain(ErrorCode::InvalidInput, "Maximum 20 domains per batch check."@))
            } else {
                Ok(with_body(Method::Post, "domains/available"@, single("domains"@, str_list(items))))
            }
        },
        DomainsCommand::Register { domain, years, auto_renew, privacy, registrant, admin, tech, billing } => Ok(
            with_body(
                Method::Post,
                domain_path(domain@),
                register_body(
                    years,
                    auto_renew,
                    privacy@,
                    contacts_object(registrant@, opt_view(admin), opt_view(tech), opt_view(billing)),
                ),
            ),
        ),
        DomainsCommand::Delete { domain } => Ok(bare(Method::Delete, domain_path(domain@))),
        DomainsCommand::Renew { domain, years, expiration_date } => Ok(
            with_body(
                Method::Post,
                domain_path(domain@) + "/renew"@,
                JsonView::Object(
                    seq![
                        ("years"@, JsonView::PosInt(years as u64)),
                        ("currentExpirationDate"@, JsonView::Str(expiration_date@)),
                    ],
                ),
            ),
        ),
        DomainsCommand::Restore { domain } => Ok(bare(Method::Post, domain_path(domain@) + "/restore"@)),
        DomainsCommand::Autorenew { domain, enable, disable } => match switch_error(
            enable,
            disable,
            "--enable"@,
            "--disable"@,
        ) {
            Some(e) => Err(e),
            None => Ok(
                with_body(
                    Method::Put,
                    domain_path(domain@) + "/autorenew"@,
                    single("isEnabled"@, JsonView::Bool(enable)),
                ),
            ),
        },
        DomainsCommand::Nameservers { domain, provider, hosts } => nameservers_plan(
            domain@,
            provider@,
            opt_view(hosts),
        ),
        DomainsCommand::Contacts { domain, registrant, admin, tech, billing } => Ok(
            with_body(
                Method::Put,
                domain_path(domain@) + "/contacts"@,
                contacts_object(registrant@, opt_view(admin), opt_view(tech), opt_view(billing)),
            ),
        ),
        DomainsCommand::Privacy { domain, level } => {
            if !eq_ignore_case(level@, "public"@) && !eq_ignore_case(level@, "high"@) {
                Err(plain(ErrorCode::InvalidInput, "Invalid privacy level. Must be 'public' or 'high'."@))
            } else {
                Ok(
                    with_body(
                        Method::Put,
                        domain_path(domain@) + "/privacy/preference"@,
                        JsonView::Object(
                            seq![
                                ("privacyLevel"@, JsonView::Str(level@)),
                                ("userConsent"@, JsonView::Bool(true)),
                            ],
                        ),
                    ),
                )
            }
        },
        DomainsCommand::EmailProtection { domain, enable, disable } => match switch_error(
            enable,
            disable,
            "--enable"@,
            "--disable"@,
        ) {
            Some(e) => Err(e),
            None => Ok(
                with_body(
                    Method::Put,
                    domain_path(domain@) + "/privacy/email-protection-preference"@,
                    single("contactForm"@, JsonView::Bool(enable)),
                ),
            ),
        },
        DomainsCommand::AuthCode { domain } => Ok(
            bare(Method::Get, domain_path(domain@) + "/transfer/auth-code"@),
        ),
        DomainsCommand::Transfer {
            domain,
            auto_renew,
            privacy,
            registrant,
            admin,
            tech,
            billing,
            auth_code,
        } => Ok(
            with_body(
                Method::Post,
                domain_path(domain@) + "/transfer"@,
                transfer_body(
                    auto_renew,
                    privacy@,
                    contacts_object(registrant@, opt_view(admin), opt_view(tech), opt_view(billing)),
                    opt_view(auth_code),
                ),
            ),
        ),
        DomainsCommand::TransferStatus { domain } => Ok(
            bare(Method::Get, domain_path(domain@) + "/transfer"@),
        ),
        DomainsCommand::TransferLock { domain, lock, unlock } => match switch_error(
            lock,
            unlock,
            "--lock"@,
            "--unlock"@,
        ) {
            Some(e) => Err(e),
            None => Ok(
                with_body(
                    Method::Put,
                    domain_path(domain@) + "/transfer/lock"@,
                    single("isLocked"@, JsonView::Bool(lock)),
                ),
            ),
        },
        DomainsCommand::PersonalNs(sub) => personal_ns_plan(sub),
    }
}


/// The contacts of a domain.
pub fn contacts_json(
    registrant: String,
    admin: Option<String>,
    tech: Option<String>,
    billing: Option<String>,
) -> (r: Json)
    ensures
        r@ == contacts_object(registrant@, opt_view(admin), opt_view(tech), opt_view(billing)),
{
    let mut m: Vec<(String, Json)> = Vec::new();
    push_member(&mut m, "registrant", Json::Str(registrant));
    push_opt_member(&mut m, "admin", admin);
    push_opt_member(&mut m, "tech", tech);
    push_opt_member(&mut m, "billing", billing);
    proof {
        assert(Seq::<(Seq<char>, JsonView)>::empty().push(("registrant"@, JsonView::Str(registrant@)))
            =~= seq![("registrant"@, JsonView::Str(registrant@))]);
    }
    Json::Object(m)
}

/// A privacy preference with the user's consent.
pub fn privacy_json(level: String) -> (r: Json)
    ensures
        r@ == privacy_object(level@),
{
    let mut m: Vec<(String, Json)> = Vec::new();
    push_member(&mut m, "level", Json::Str(level));
    push_member(&mut m, "userConsent", Json::Bool(true));
    proof {
        assert(entry_models(m@) =~= privacy_object(level@)->Object_0);
    }
    Json::Object(m)
}

/// A one-member object.
pub fn single_json(k: &str, v: Json) -> (r: Json)
    ensures
        r@ == single(k@, v@),
{
    let mut m: Vec<(String, Json)> = Vec::new();
    push_member(&mut m, k, v);
    proof {
        assert(entry_models(m@) =~= seq![(k@, v@)]);
    }
    Json::Object(m)
}

/// The refusal of an on/off switch given neither or both ways.
pub fn check_switch(on: bool, off: bool, on_flag: &str, off_flag: &str) -> (r: Option<Error>)
    ensures
        match r {
            Some(e) => switch_error(on, off, on_flag@, off_flag@) == Some(e@),
            None => switch_error(on, off, on_flag@, off_flag@) is None,
        },
{
    if !on && !off {
        let mut m = "Specify ".to_owned();
        append_str(&mut m, on_flag);
        append_str(&mut m, " or ");
        append_str(&mut m, off_flag);
        append_str(&mut m, ".");
        Some(Error::invalid(m))
    } else if on && off {
        let mut m = "Cannot specify both ".to_owned();
        append_str(&mut m, on_flag);
        append_str(&mut m, " and ");
        append_str(&mut m, off_flag);
        append_str(&mut m, ".");
        Some(Error::invalid(m))
    } else {
        None
    }
}

/// The call that updates nameservers, or why it is refused.
pub fn nameservers(domain: String, provider: String, hosts: Option<String>) -> (r: Result<ApiRequest, Error>)
    ensures
        outcome(r) == nameservers_plan(domain@, provider@, opt_view(hosts)),
{
    let path = seg_path_then("domains/", domain.as_str(), "/nameservers");
    let custom = str_eq_ignore_case(provider.as_str(), "custom");
    let mut m: Vec<(String, Json)> = Vec::new();
    let ghost pv = provider@;
    push_member(&mut m, "provider", Json::Str(provider));
    proof {
        assert(entry_models(m@) =~= seq![("provider"@, JsonView::Str(pv))]);
    }
    if custom {
        match hosts {
            Some(h) => {
                if blank(h.as_str()) {
                    return Err(Error::invalid("--hosts is required when provider is custom.".to_owned()));
                }
                let items = split_list(h.as_str());
                if items.len() < 2 || items.len() > 12 {
                    return Err(Error::invalid("Custom nameservers require 2-12 hosts.".to_owned()));
                }
                push_member(&mut m, "hosts", string_list(items));
                Ok(call_with(Method::Put, path, Json::Object(m)))
            },
            None => Err(Error::invalid("--hosts is required when provider is custom.".to_owned())),
        }
    } else {
        Ok(call_with(Method::Put, path, Json::Object(m)))
    }
}

/// The refusal when a host cannot be shortened without splitting a character.
pub fn host_error(host: &str) -> (e: Error)
    ensures
        e@ == unsplittable_host(host@),
{
    let mut m = "Host '".to_owned();
    append_str(&mut m, host);
    append_str(&mut m, "' cannot be shortened to a name within the domain.");
    Error::invalid(m)
}

/// The call a personal-nameserver command makes, or why it is refused.
pub fn personal_ns(cmd: PersonalNsCommand) -> (r: Result<ApiRequest, Error>)
    ensures
        outcome(r) == personal_ns_plan(cmd),
{
    match cmd {
        PersonalNsCommand::List { domain } => Ok(
            call(Method::Get, seg_path_then("domains/", domain.as_str(), "/personal-nameservers")),
        ),
        PersonalNsCommand::Save { domain, host, ips, rename } => {
            let ip_list = split_list(ips.as_str());
            if ip_list.len() == 0 || ip_list.len() > 16 {
                return Err(Error::invalid("--ips needs 1-16 comma-separated addresses.".to_owned()));
            }
            if !host_shortens(host.as_str(), domain.as_str()) {
                return Err(host_error(host.as_str()));
            }
            let current = normalize_host(host.as_str(), domain.as_str());
            let target = match rename {
                Some(r) => if blank(r.as_str()) {
                    None
                } else {
                    Some(r)
                },
                None => None,
            };
            let new_name = match target {
                Some(t) => {
                    if !host_shortens(t.as_str(), domain.as_str()) {
                        return Err(host_error(t.as_str()));
                    }
                    normalize_host(t.as_str(), domain.as_str())
                },
                None => current.clone(),
            };
            let mut prefix = seg_path("domains/", domain.as_str());
            append_str(&mut prefix, "/personal-nameservers/");
            let path = seg_path(prefix.as_str(), current.as_str());
            let mut m: Vec<(String, Json)> = Vec::new();
            push_member(&mut m, "host", Json::Str(new_name));
            push_member(&mut m, "ips", string_list(ip_list));
            proof {
                assert(entry_models(m@) =~= seq![
                    ("host"@, entry_models(m@)[0].1),
                    ("ips"@, entry_models(m@)[1].1),
                ]);
            }
            Ok(call_with(Method::Put, path, Json::Object(m)))
        },
        PersonalNsCommand::Delete { domain, host } => {
            if !host_shortens(host.as_str(), domain.as_str()) {
                return Err(host_error(host.as_str()));
            }
            let current = normalize_host(host.as_str(), domain.as_str());
            let mut prefix = seg_path("domains/", domain.as_str());
            append_str(&mut prefix, "/personal-nameservers/");
            Ok(call(Method::Delete, seg_path(prefix.as_str(), current.as_str())))
        },
    }
}


/// The call a domain command makes, or why it is refused.
#[verifier::rlimit(40)]
pub fn run(cmd: DomainsCommand) -> (r: Result<ApiRequest, Error>)
    ensures
        outcome(r) == domains_plan(cmd),
{
    match cmd {
        DomainsCommand::List { take, skip, order_by } => {
            let mut pairs: Vec<(&str, Option<String>)> = Vec::new();
            pairs.push(("take", num_param(take)));
            pairs.push(("skip", num_param(skip)));
            pairs.push(("orderBy", order_by));
            proof {
                assert(pairs_view(pairs@) =~= seq![
                    ("take"@, num(take)),
                    ("skip"@, num(skip)),
                    ("orderBy"@, opt_view(order_by)),
                ]);
            }
            let q = query_of(pairs);
            let mut path = "domains".to_owned();
            append_str(&mut path, q.as_str());
            Ok(call(Method::Get, path))
        },
        DomainsCommand::Get { domain } => Ok(call(Method::Get, seg_path("domains/", domain.as_str()))),
        DomainsCommand::Check { domain } => Ok(
            call(Method::Get, seg_path_then("domains/", domain.as_str(), "/available")),
        ),
        DomainsCommand::CheckBatch { domains } => {
            let items = split_list(domains.as_str());
            if items.len() > 20 {
                return Err(Error::invalid("Maximum 20 domains per batch check.".to_owned()));
            }
            Ok(call_with(Method::Post, "domains/available".to_owned(), single_json("domains", string_list(items))))
        },
        DomainsCommand::Register { domain, years, auto_renew, privacy, registrant, admin, tech, billing } => {
            let contacts = contacts_json(registrant, admin, tech, billing);
            let mut m: Vec<(String, Json)> = Vec::new();
            push_member(&mut m, "autoRenew", Json::Bool(auto_renew));
            push_member(&mut m, "years", Json::PosInt(years as u64));
            push_member(&mut m, "privacyProtection", privacy_json(privacy));
            push_member(&mut m, "contacts", contacts);
            proof {
                assert(entry_models(m@) =~= seq![
                    ("autoRenew"@, JsonView::Bool(auto_renew)),
                    ("years"@, JsonView::PosInt(years as u64)),
                    ("privacyProtection"@, entry_models(m@)[2].1),
                    ("contacts"@, entry_models(m@)[3].1),
                ]);
            }
            Ok(call_with(Method::Post, seg_path("domains/", domain.as_str()), Json::Object(m)))
        },
        DomainsCommand::Delete { domain } => Ok(
            call(Method::Delete, seg_path("domains/", domain.as_str())),
        ),
        DomainsCommand::Renew { domain, years, expiration_date } => {
            let mut m: Vec<(String, Json)> = Vec::new();
            push_member(&mut m, "years", Json::PosInt(years as u64));
            push_member(&mut m, "currentExpirationDate", Json::Str(expiration_date));
            proof {
                assert(entry_models(m@) =~= seq![
                    ("years"@, JsonView::PosInt(years as u64)),
                    ("currentExpirationDate"@, entry_models(m@)[1].1),
                ]);
            }
            Ok(call_with(Method::Post, seg_path_then("domains/", domain.as_str(), "/renew"), Json::Object(m)))
        },
        DomainsCommand::Restore { domain } => Ok(
            call(Method::Post, seg_path_then("domains/", domain.as_str(), "/restore")),
        ),
        DomainsCommand::Autorenew { domain, enable, disable } => {
            match check_switch(enable, disable, "--enable", "--disable") {
                Some(e) => Err(e),
                None => Ok(
                    call_with(
                        Method::Put,
                        seg_path_then("domains/", domain.as_str(), "/autorenew"),
                        single_json("isEnabled", Json::Bool(enable)),
                    ),
                ),
            }
        },
        DomainsCommand::Nameservers { domain, provider, hosts } => nameservers(domain, provider, hosts),
        DomainsCommand::Contacts { domain, registrant, admin, tech, billing } => Ok(
            call_with(
                Method::Put,
                seg_path_then("domains/", domain.as_str(), "/contacts"),
                contacts_json(registrant, admin, tech, billing),
            ),
        ),
        DomainsCommand::Privacy { domain, level } => {
            if !str_eq_ignore_case(level.as_str(), "public") && !str_eq_ignore_case(level.as_str(), "high") {
                return Err(Error::invalid("Invalid privacy level. Must be 'public' or 'high'.".to_owned()));
            }
            let mut m: Vec<(String, Json)> = Vec::new();
            let ghost lv = level@;
            push_member(&mut m, "privacyLevel", Json::Str(level));
            push_member(&mut m, "userConsent", Json::Bool(true));
            proof {
                assert(entry_models(m@) =~= seq![
                    ("privacyLevel"@, JsonView::Str(lv)),
                    ("userConsent"@, JsonView::Bool(true)),
                ]);
            }
            Ok(
                call_with(
                    Method::Put,
                    seg_path_then("domains/", domain.as_str(), "/privacy/preference"),
                    Json::Object(m),
                ),
            )
        },
        DomainsCommand::EmailProtection { domain, enable, disable } => {
            match check_switch(enable, disable, "--enable", "--disable") {
                Some(e) => Err(e),
                None => Ok(
                    call_with(
                        Method::Put,
                        seg_path_then("domains/", domain.as_str(), "/privacy/email-protection-preference"),
                        single_json("contactForm", Json::Bool(enable)),
                    ),
                ),
            }
        },
        DomainsCommand::AuthCode { domain } => Ok(
            call(Method::Get, seg_path_then("domains/", domain.as_str(), "/transfer/auth-code")),
        ),
        DomainsCommand::Transfer {
            domain,
            auto_renew,
            privacy,
            registrant,
            admin,
            tech,
            billing,
            auth_code,
        } => {
            let contacts = contacts_json(registrant, admin, tech, billing);
            let mut m: Vec<(String, Json)> = Vec::new();
            push_member(&mut m, "autoRenew", Json::Bool(auto_renew));
            push_member(&mut m, "privacyProtection", privacy_json(privacy));
            push_member(&mut m, "contacts", contacts);
            let ghost base = entry_models(m@);
            proof {
                assert(base =~= seq![
                    ("autoRenew"@, JsonView::Bool(auto_renew)),
                    ("privacyProtection"@, base[1].1),
                    ("contacts"@, base[2].1),
                ]);
            }
            match auth_code {
                Some(c) => {
                    if !blank(c.as_str()) {
                        push_member(&mut m, "authCode", Json::Str(c));
                    }
                },
                None => {},
            }
            Ok(call_with(Method::Post, seg_path_then("domains/", domain.as_str(), "/transfer"), Json::Object(m)))
        },
        DomainsCommand::TransferStatus { domain } => Ok(
            call(Method::Get, seg_path_then("domains/", domain.as_str(), "/transfer")),
        ),
        DomainsCommand::TransferLock { domain, lock, unlock } => {
            match check_switch(lock, unlock, "--lock", "--unlock") {
                Some(e) => Err(e),
                None => Ok(
                    call_with(
                        Method::Put,
                        seg_path_then("domains/", domain.as_str(), "/transfer/lock"),
                        single_json("isLocked", Json::Bool(lock)),
                    ),
                ),
            }
        },
        DomainsCommand::PersonalNs(sub) => personal_ns(sub),
    }
}

/// `domains transfer-lock` with exactly one of `--lock` and `--unlock` sends
/// one PUT to the domain's `transfer/lock` whose body says `isLocked` is the
/// `--lock` flag: `--lock` locks the domain and `--unlock` unlocks it. With
/// neither or both it is refused as invalid input.
pub proof fn law_transfer_lock_follows_lock_flag(domain: String, lock: bool, unlock: bool)
    ensures
        lock != unlock ==> ({
            let r = domains_plan(DomainsCommand::TransferLock { domain, lock, unlock });
            &&& r is Ok
            &&& r->Ok_0.method == Method::Put
            &&& r->Ok_0.path == domain_path(domain@) + "/transfer/lock"@
            &&& r->Ok_0.body is Some
            &&& r->Ok_0.body->Some_0.member("isLocked"@) == Some(JsonView::Bool(lock))
            &&& r->Ok_0.body->Some_0.member("isLocked"@) != Some(JsonView::Bool(unlock))
        }),
        lock == unlock ==> ({
            let r = domains_plan(DomainsCommand::TransferLock { domain, lock, unlock });
            r is Err && r->Err_0.code == ErrorCode::InvalidInput
        }),
{
    reveal_strlit("isLocked");
    if lock != unlock {
        let cmd = DomainsCommand::TransferLock { domain, lock, unlock };
        assert(switch_error(lock, unlock, "--lock"@, "--unlock"@) is None);
        assert(single("isLocked"@, JsonView::Bool(lock)).member("isLocked"@) == Some(JsonView::Bool(lock)));
        assert(domains_plan(cmd) == Ok::<RequestView, ErrorView>(
            with_body(Method::Put, domain_path(domain@) + "/transfer/lock"@, single("isLocked"@, JsonView::Bool(lock))),
        ));
    }
}

} // verus!
