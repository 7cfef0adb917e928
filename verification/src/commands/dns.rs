//! DNS records: listing (with paging and local filtering), saving and deleting.

use vstd::prelude::*;
use crate::cli::DnsCommand;
use crate::client::{
    ApiRequest, Method, RequestView, bare, call, call_with, num, num_param, outcome, pairs_view,
    query_of, query_string, seg_path, segment, with_body,
};
use crate::commands::{Action, ActionView, Completion, CompletionView, action_outcome, input};
use crate::error::{Error, ErrorCode, ErrorView, opt_view, plain};
use crate::json::{
    Json, JsonView, copy_values, entry_models, insert_member, lemma_models_index, lemma_models_push,
    models, push_member, set_member,
};
use crate::text::{eq_ignore_case, is_blank, str_eq_ignore_case, trim, trimmed, blank};

verus! {

/// A DNS listing in progress: the zone's path, the sort order, the filters,
/// where the next page starts, and the records gathered so far.
#[derive(Debug, PartialEq, Eq)]
pub struct DnsListing {
    pub path: String,
    pub order_by: Option<String>,
    pub record_type: Option<String>,
    pub name: Option<String>,
    pub skip: u32,
    pub records: Vec<Json>,
}

/// The mathematical value of a [`DnsListing`].
pub struct ListingView {
    pub path: Seq<char>,
    pub order_by: Option<Seq<char>>,
    pub record_type: Option<Seq<char>>,
    pub name: Option<Seq<char>>,
    pub skip: u32,
    pub records: Seq<JsonView>,
}

impl View for DnsListing {
    type V = ListingView;

    open spec fn view(&self) -> ListingView {
        ListingView {
            path: self.path@,
            order_by: opt_view(self.order_by),
            record_type: opt_view(self.record_type),
            name: opt_view(self.name),
            skip: self.skip,
            records: models(self.records@),
        }
    }
}

/// The number of records asked for per page while paging.
pub open spec fn page_size() -> u32 {
    500
}

/// The call that fetches the next page of a listing.
pub open spec fn page_request(l: ListingView) -> RequestView {
    bare(
        Method::Get,
        l.path + query_string(seq![("take"@, num(page_size())), ("skip"@, num(l.skip)), ("orderBy"@, l.order_by)]),
    )
}

/// The records of a page: its `items` list, or none.
pub open spec fn page_items(page: JsonView) -> Seq<JsonView> {
    match page.member("items"@) {
        Some(JsonView::Array(a)) => a,
        _ => Seq::<JsonView>::empty(),
    }
}

/// Whether a record's property equals the expected value up to ASCII case; an
/// absent or blank expectation accepts every record.
pub open spec fn property_matches(record: JsonView, prop: Seq<char>, expected: Option<Seq<char>>) -> bool {
    match expected {
        Some(e) if !is_blank(e) => match record.text_member(prop) {
            Some(v) => eq_ignore_case(v, trimmed(e)),
            None => false,
        },
        _ => true,
    }
}

/// Whether a record passes both filters.
pub open spec fn record_selected(
    record: JsonView,
    record_type: Option<Seq<char>>,
    name: Option<Seq<char>>,
) -> bool {
    property_matches(record, "type"@, record_type) && property_matches(record, "name"@, name)
}

/// The records that pass both filters, in order.
pub open spec fn selected(
    records: Seq<JsonView>,
    record_type: Option<Seq<char>>,
    name: Option<Seq<char>>,
) -> Seq<JsonView>
    decreases records.len(),
{
    if records.len() == 0 {
        Seq::<JsonView>::empty()
    } else {
        let r = selected(records.drop_last(), record_type, name);
        if record_selected(records.last(), record_type, name) {
            r.push(records.last())
        } else {
            r
        }
    }
}

/// The output of a finished listing: the selected records and their count.
pub open spec fn listing_result(l: ListingView) -> JsonView {
    let sel = selected(l.records, l.record_type, l.name);
    JsonView::Object(
        seq![("items"@, JsonView::Array(sel)), ("total"@, JsonView::PosInt(sel.len() as u64))],
    )
}

/// One step of a listing.
#[derive(Debug, PartialEq, Eq)]
pub enum DnsStep {
    /// Fetch the next page.
    More(DnsListing),
    /// Print this result.
    Done(Json),
}

pub enum StepView {
    More(ListingView),
    Done(JsonView),
}

impl View for DnsStep {
    type V = StepView;

    open spec fn view(&self) -> StepView {
        match self {
            DnsStep::More(l) => StepView::More(l@),
            DnsStep::Done(j) => StepView::Done(j@),
        }
    }
}

/// The listing after a page: its records appended, the start moved past them.
pub open spec fn after_page(l: ListingView, page: JsonView) -> ListingView {
    ListingView {
        skip: (l.skip + (page_items(page).len() as u32)) as u32,
        records: l.records + page_items(page),
        ..l
    }
}

/// Whether moving the start past a page's records stays within `u32`.
pub open spec fn page_fits(l: ListingView, page: JsonView) -> bool {
    l.skip + (page_items(page).len() as u32) <= u32::MAX
}

/// What follows a page: done when the page was empty or the start reached the
/// page's `total` (or, without a `total`, always), else the next page.
pub open spec fn next_step(l: ListingView, page: JsonView) -> StepView {
    let n = after_page(l, page);
    let batch = page_items(page).len() as u32;
    let total = match page.member("total"@) {
        Some(t) if t.unsigned() is Some => t.unsigned()->Some_0 as u32,
        _ => n.skip,
    };
    if batch == 0 || n.skip >= total {
        StepView::Done(listing_result(n))
    } else {
        StepView::More(n)
    }
}

/// Whether a record's property equals the expected value up to ASCII case.
pub fn matches_property(record: &Json, prop: &str, expected: &Option<String>) -> (b: bool)
    ensures
        b == property_matches(record@, prop@, opt_view(*expected)),
{
    match expected {
        Some(e) => {
            let exp = trim(e.as_str());
            if exp.as_str().is_empty() {
                return true;
            }
            match record.text_member(prop) {
                Some(v) => str_eq_ignore_case(v.as_str(), exp.as_str()),
                None => false,
            }
        },
        None => true,
    }
}

impl DnsListing {
    /// The call that fetches the next page.
    pub fn next_request(&self) -> (r: ApiRequest)
        ensures
            r@ == page_request(self@),
    {
        let mut pairs: Vec<(&str, Option<String>)> = Vec::new();
        pairs.push(("take", num_param(500)));
        pairs.push(("skip", num_param(self.skip)));
        let ob = match &self.order_by {
            Some(o) => Some(o.clone()),
            None => None,
        };
        pairs.push(("orderBy", ob));
        proof {
            assert(pairs_view(pairs@) =~= seq![
                ("take"@, num(page_size())),
                ("skip"@, num(self.skip)),
                ("orderBy"@, self@.order_by),
            ]);
        }
        let q = query_of(pairs);
        let mut path = self.path.clone();
        crate::text::append_str(&mut path, q.as_str());
        call(Method::Get, path)
    }

    /// The result of the records gathered so far.
    pub fn result(&self) -> (r: Json)
        ensures
            r@ == listing_result(self@),
    {
        let mut out: Vec<Json> = Vec::new();
        let mut i: usize = 0;
        proof {
            lemma_models_index(self.records@);
        }
        while i < self.records.len()
            invariant
                i <= self.records.len(),
                models(self.records@).len() == self.records.len(),
                forall|k: int|
                    0 <= k < self.records.len() ==> #[trigger] models(self.records@)[k]
                        == self.records@[k]@,
                models(out@) == selected(
                    models(self.records@).take(i as int),
                    self@.record_type,
                    self@.name,
                ),
            decreases self.records.len() - i,
        {
            let ghost pre = models(self.records@).take(i as int);
            let ghost nxt = models(self.records@).take(i + 1);
            proof {
                assert(nxt.drop_last() =~= pre);
                assert(nxt.last() == self.records@[i as int]@);
            }
            let r = &self.records[i];
            if matches_property(r, "type", &self.record_type) && matches_property(r, "name", &self.name) {
                let x = r.copy();
                let ghost before = out@;
                out.push(x);
                proof {
                    lemma_models_push(before, x);
                }
            }
            i = i + 1;
        }
        proof {
            assert(models(self.records@).take(self.records.len() as int) =~= models(self.records@));
        }
        let n = out.len() as u64;
        let mut m: Vec<(String, Json)> = Vec::new();
        push_member(&mut m, "items", Json::Array(out));
        push_member(&mut m, "total", Json::PosInt(n));
        proof {
            lemma_models_index(out@);
            assert(entry_models(m@) =~= listing_result(self@)->Object_0);
        }
        Json::Object(m)
    }

    /// Takes in one page and says what follows.
    pub fn on_page(self, page: &Json) -> (r: DnsStep)
        requires
            page_fits(self@, page@),
        ensures
            r@ == next_step(self@, page@),
    {
        let ghost l = self@;
        let items: Vec<Json> = match page.get("items") {
            Some(Json::Array(a)) => copy_values(a),
            _ => Vec::new(),
        };
        proof {
            assert(models(items@) == page_items(page@));
            lemma_models_index(items@);
        }
        let batch = #[verifier::truncate] (items.len() as u32);
        let skip = self.skip + batch;
        let mut records = self.records;
        let mut i: usize = 0;
        let ghost start = models(records@);
        proof {
            lemma_models_index(items@);
        }
        while i < items.len()
            invariant
                i <= items.len(),
                models(items@).len() == items.len(),
                forall|k: int| 0 <= k < items.len() ==> #[trigger] models(items@)[k] == items@[k]@,
                models(records@) == start + models(items@).take(i as int),
            decreases items.len() - i,
        {
            let x = items[i].copy();
            let ghost before = records@;
            records.push(x);
            proof {
                lemma_models_push(before, x);
                assert(models(items@).take(i + 1) =~= models(items@).take(i as int).push(items@[i as int]@));
            }
            i = i + 1;
        }
        proof {
            assert(models(items@).take(items.len() as int) =~= models(items@));
        }
        let total = match page.get("total") {
            Some(t) => match t.as_u64() {
                Some(n) => #[verifier::truncate] (n as u32),
                None => skip,
            },
            None => skip,
        };
        let next = DnsListing { skip, records, ..self };
        assert(next@ == after_page(l, page@));
        if batch == 0 || skip >= total {
            DnsStep::Done(next.result())
        } else {
            DnsStep::More(next)
        }
    }
}


/// The path of a zone's records.
pub open spec fn zone_path(domain: Seq<char>) -> Seq<char> {
    "dns/records/"@ + segment(domain)
}

/// What the JSON input of `dns save` and `dns delete` looks like.
pub open spec fn records_hint() -> Seq<char> {
    "[ ... ] or {\"items\": [...]}"@
}

/// The refusal of input that is neither a list of records nor an object with `items`.
pub open spec fn shape_error() -> ErrorView {
    plain(ErrorCode::InvalidInput, "Expected a JSON array of records, or {\"items\": [...]}."@)
}

/// What a DNS command does, or why it is refused.
pub open spec fn dns_plan(cmd: DnsCommand) -> Result<ActionView, ErrorView> {
    match cmd {
        DnsCommand::List { domain, take, skip, all, order_by, record_type, name } => {
            if take < 1 || take > 500 {
                Err(plain(ErrorCode::InvalidInput, "--take must be between 1 and 500."@))
            } else if !all && record_type is None && name is None {
                Ok(
                    ActionView::Call(
                        bare(
                            Method::Get,
                            zone_path(domain@) + query_string(
                                seq![
                                    ("take"@, num(take)),
                                    ("skip"@, num(skip)),
                                    ("orderBy"@, opt_view(order_by)),
                                ],
                            ),
                        ),
                    ),
                )
            } else {
                Ok(
                    ActionView::ListDns(
                        ListingView {
                            path: zone_path(domain@),
                            order_by: opt_view(order_by),
                            record_type: opt_view(record_type),
                            name: opt_view(name),
                            skip,
                            records: Seq::<JsonView>::empty(),
                        },
                    ),
                )
            }
        },
        DnsCommand::Save { domain, file, force } => Ok(
            input(opt_view(file), records_hint(), CompletionView::DnsSave { domain: domain@, force }),
        ),
        DnsCommand::Delete { domain, file } => Ok(
            input(opt_view(file), records_hint(), CompletionView::DnsDelete { domain: domain@ }),
        ),
    }
}

/// The call that saves records: a list becomes `{"items": list}`, an object
/// with `items` is sent as it is, with `"force": true` added when forced.
pub open spec fn save_plan(domain: Seq<char>, force: bool, body: JsonView) -> Result<RequestView, ErrorView> {
    let payload = match body {
        JsonView::Array(a) => Some(seq![("items"@, JsonView::Array(a))]),
        JsonView::Object(m) if body.member("items"@) is Some => Some(m),
        _ => None,
    };
    match payload {
        None => Err(shape_error()),
        Some(p) => Ok(
            with_body(
                Method::Put,
                zone_path(domain),
                JsonView::Object(
                    if force {
                        insert_member(p, "force"@, JsonView::Bool(true))
                    } else {
                        p
                    },
                ),
            ),
        ),
    }
}

/// The call that deletes records: a list is sent as it is, an object's
/// `items` list is sent alone.
pub open spec fn delete_plan(domain: Seq<char>, body: JsonView) -> Result<RequestView, ErrorView> {
    match body {
        JsonView::Array(a) => Ok(with_body(Method::Delete, zone_path(domain), JsonView::Array(a))),
        JsonView::Object(m) => match body.member("items"@) {
            Some(JsonView::Array(a)) => Ok(with_body(Method::Delete, zone_path(domain), JsonView::Array(a))),
            _ => Err(shape_error()),
        },
        _ => Err(shape_error()),
    }
}

/// The refusal of badly shaped record input.
pub fn records_shape_error() -> (e: Error)
    ensures
        e@ == shape_error(),
{
    Error::invalid("Expected a JSON array of records, or {\"items\": [...]}.".to_owned())
}

/// What a DNS command does, or why it is refused.
pub fn run(cmd: DnsCommand) -> (r: Result<Action, Error>)
    ensures
        action_outcome(r) == dns_plan(cmd),
{
    match cmd {
        DnsCommand::List { domain, take, skip, all, order_by, record_type, name } => {
            if take < 1 || take > 500 {
                return Err(Error::invalid("--take must be between 1 and 500.".to_owned()));
            }
            let base = seg_path("dns/records/", domain.as_str());
            if !all && record_type.is_none() && name.is_none() {
                let mut pairs: Vec<(&str, Option<String>)> = Vec::new();
                pairs.push(("take", num_param(take)));
                pairs.push(("skip", num_param(skip)));
                pairs.push(("orderBy", order_by));
                proof {
                    assert(pairs_view(pairs@) =~= seq![
                        ("take"@, num(take)),
                        ("skip"@, num(skip)),
                        ("orderBy"@, opt_view(order_by)),
                    ]);
                }
                let q = query_of(pairs);
                let mut path = base;
                crate::text::append_str(&mut path, q.as_str());
                Ok(Action::Call(call(Method::Get, path)))
            } else {
                let l = DnsListing { path: base, order_by, record_type, name, skip, records: Vec::new() };
                proof {
                    assert(models(l.records@) =~= Seq::<JsonView>::empty());
                }
                Ok(Action::ListDns(l))
            }
        },
        DnsCommand::Save { domain, file, force } => Ok(
            Action::Input {
                file,
                hint: "[ ... ] or {\"items\": [...]}".to_owned(),
                then: Completion::DnsSave { domain, force },
            },
        ),
        DnsCommand::Delete { domain, file } => Ok(
            Action::Input {
                file,
                hint: "[ ... ] or {\"items\": [...]}".to_owned(),
                then: Completion::DnsDelete { domain },
            },
        ),
    }
}

/// The call that saves records, or why the input is refused.
pub fn save_request(domain: &str, force: bool, body: Json) -> (r: Result<ApiRequest, Error>)
    ensures
        outcome(r) == save_plan(domain@, force, body@),
{
    let has_items = body.contains_key("items");
    let mut payload: Vec<(String, Json)> = match body {
        Json::Array(a) => {
            let mut m: Vec<(String, Json)> = Vec::new();
            push_member(&mut m, "items", Json::Array(a));
            m
        },
        Json::Object(m) => {
            if !has_items {
                return Err(records_shape_error());
            }
            m
        },
        _ => {
            return Err(records_shape_error());
        },
    };
    if force {
        set_member(&mut payload, "force".to_owned(), Json::Bool(true));
    }
    proof {
        reveal_strlit("force");
    }
    Ok(call_with(Method::Put, seg_path("dns/records/", domain), Json::Object(payload)))
}

/// The call that deletes records, or why the input is refused.
pub fn delete_request(domain: &str, body: Json) -> (r: Result<ApiRequest, Error>)
    ensures
        outcome(r) == delete_plan(domain@, body@),
{
    match body {
        Json::Array(a) => Ok(call_with(Method::Delete, seg_path("dns/records/", domain), Json::Array(a))),
        Json::Object(_) => {
            match body.get("items") {
                Some(Json::Array(a)) => {
                    let items = Json::Array(crate::json::copy_values(a));
                    Ok(call_with(Method::Delete, seg_path("dns/records/", domain), items))
                },
                _ => Err(records_shape_error()),
            }
        },
        _ => Err(records_shape_error()),
    }
}


/// A listing's output holds exactly the gathered records that pass both
/// filters, in their order: each of them passes, none that passes is left out,
/// and there are never more than were gathered.
pub proof fn law_listing_selects(records: Seq<JsonView>, record_type: Option<Seq<char>>, name: Option<Seq<char>>)
    ensures
        ({
            let sel = selected(records, record_type, name);
            &&& sel.len() <= records.len()
            &&& forall|i: int| 0 <= i < sel.len() ==> record_selected(#[trigger] sel[i], record_type, name)
            &&& forall|j: int|
                0 <= j < records.len() && record_selected(records[j], record_type, name)
                    ==> #[trigger] sel.contains(records[j])
        }),
    decreases records.len(),
{
    if records.len() > 0 {
        let pre = records.drop_last();
        law_listing_selects(pre, record_type, name);
        let sp = selected(pre, record_type, name);
        let sel = selected(records, record_type, name);
        assert forall|j: int|
            0 <= j < records.len() && record_selected(records[j], record_type, name) implies #[trigger] sel.contains(
            records[j],
        ) by {
            if j < records.len() - 1 {
                assert(pre[j] == records[j]);
                assert(sp.contains(pre[j]));
                let k = choose|k: int| 0 <= k < sp.len() && sp[k] == pre[j];
                assert(sel[k] == sp[k]);
            } else {
                assert(sel[sel.len() - 1] == records.last());
            }
        }
    }
}

/// Paging moves forward: a page that asks for more has records, and the next
/// request starts past them (counted as `u32`) with the records gathered so far kept in front;
/// an empty page ends the listing.
pub proof fn law_paging_progresses(l: ListingView, page: JsonView)
    requires
        page_fits(l, page),
    ensures
        page_items(page).len() == 0 ==> next_step(l, page) is Done,
        next_step(l, page) matches StepView::More(n) ==> {
            &&& n.skip > l.skip
            &&& n.skip == l.skip + (page_items(page).len() as u32)
            &&& n.records == l.records + page_items(page)
            &&& n.path == l.path && n.order_by == l.order_by && n.record_type == l.record_type && n.name == l.name
        },
{
}

/// The records of a run of pages, one page after the other.
pub open spec fn gathered(pages: Seq<JsonView>) -> Seq<JsonView>
    decreases pages.len(),
{
    if pages.len() == 0 {
        Seq::<JsonView>::empty()
    } else {
        page_items(pages[0]) + gathered(pages.drop_first())
    }
}

/// A listing taken through a run of pages: it stops at the first page after
/// which it is done, and asks for more when the pages run out first.
pub open spec fn listing_run(l: ListingView, pages: Seq<JsonView>) -> StepView
    decreases pages.len(),
{
    if pages.len() == 0 {
        StepView::More(l)
    } else {
        match next_step(l, pages[0]) {
            StepView::Done(j) => StepView::Done(j),
            StepView::More(n) => listing_run(n, pages.drop_first()),
        }
    }
}

/// A whole listing: when a run of pages finishes it, it finished at some page
/// `k`, every page before `k` held records, and its output holds exactly the
/// records of the pages up to `k`, after those the listing started with, that
/// pass both filters, in order, with their count.
pub proof fn law_listing_run(l: ListingView, pages: Seq<JsonView>)
    ensures
        listing_run(l, pages) matches StepView::Done(j) ==> exists|k: int|
            0 <= k < pages.len() && (forall|i: int| 0 <= i < k ==> page_items(#[trigger] pages[i]).len() > 0)
                && j == listing_result(ListingView { records: l.records + gathered(#[trigger] pages.take(k + 1)), ..l }),
    decreases pages.len(),
{
    if pages.len() > 0 {
        let p0 = pages[0];
        let rest = pages.drop_first();
        assert(pages.take(1).drop_first() =~= Seq::<JsonView>::empty());
        assert(pages.take(1)[0] == p0);
        assert(gathered(pages.take(1).drop_first()) =~= Seq::<JsonView>::empty());
        assert(page_items(p0) + Seq::<JsonView>::empty() =~= page_items(p0));
        assert(gathered(pages.take(1)) =~= page_items(p0));
        match next_step(l, p0) {
            StepView::Done(j) => {
                assert(pages.take(0int + 1) =~= pages.take(1));
            },
            StepView::More(n) => {
                law_listing_run(n, rest);
                if listing_run(l, pages) is Done {
                    let j = listing_run(l, pages)->Done_0;
                    let k = choose|k: int|
                        0 <= k < rest.len() && (forall|i: int| 0 <= i < k ==> page_items(#[trigger] rest[i]).len() > 0)
                            && j == listing_result(ListingView { records: n.records + gathered(#[trigger] rest.take(k + 1)), ..n });
                    assert(pages.take(k + 2).drop_first() =~= rest.take(k + 1));
                    assert(gathered(pages.take(k + 2)) == page_items(p0) + gathered(rest.take(k + 1)));
                    assert(l.records + gathered(pages.take(k + 2)) =~= n.records + gathered(rest.take(k + 1)));
                    assert forall|i: int| 0 <= i < k + 1 implies page_items(#[trigger] pages[i]).len() > 0 by {
                        if i > 0 {
                            assert(pages[i] == rest[i - 1]);
                        }
                    }
                    assert(k + 1 < pages.len());
                    assert(pages.take((k + 1) + 1) == pages.take(k + 2));
                }
            },
        }
    }
}

/// The calls a listing makes through a run of pages: the one for its next
/// page, then, while the listing goes on, those of what follows.
pub open spec fn listing_requests(l: ListingView, pages: Seq<JsonView>) -> Seq<RequestView>
    decreases pages.len(),
{
    if pages.len() == 0 {
        seq![page_request(l)]
    } else {
        seq![page_request(l)] + match next_step(l, pages[0]) {
            StepView::Done(_) => Seq::<RequestView>::empty(),
            StepView::More(n) => listing_requests(n, pages.drop_first()),
        }
    }
}

proof fn lemma_gathered_take(pages: Seq<JsonView>, i: int)
    requires
        0 < i <= pages.len(),
    ensures
        gathered(pages.take(i)) == page_items(pages[0]) + gathered(pages.drop_first().take(i - 1)),
{
    assert(pages.take(i).drop_first() =~= pages.drop_first().take(i - 1));
    assert(pages.take(i)[0] == pages[0]);
}

/// Paging asks page after page for `take=500` records of the same zone, in the
/// same order, the `i`-th page starting past the records of the pages before it.
pub proof fn law_listing_requests(l: ListingView, pages: Seq<JsonView>)
    requires
        l.skip + gathered(pages).len() <= u32::MAX,
    ensures
        1 <= listing_requests(l, pages).len() <= pages.len() + 1,
        forall|i: int|
            0 <= i < listing_requests(l, pages).len() ==> #[trigger] listing_requests(l, pages)[i] == page_request(
                ListingView { skip: (l.skip + gathered(pages.take(i)).len()) as u32, ..l },
            ),
    decreases pages.len(),
{
    let reqs = listing_requests(l, pages);
    assert(gathered(pages.take(0)) =~= Seq::<JsonView>::empty()) by {
        assert(pages.take(0) =~= Seq::<JsonView>::empty());
    }
    if pages.len() > 0 {
        let rest = pages.drop_first();
        assert(gathered(pages) == page_items(pages[0]) + gathered(rest));
        match next_step(l, pages[0]) {
            StepView::Done(_) => {
                assert(reqs =~= seq![page_request(l)]);
            },
            StepView::More(n) => {
                law_listing_requests(n, rest);
                let tail = listing_requests(n, rest);
                assert(reqs == seq![page_request(l)] + tail);
                assert forall|i: int| 0 <= i < reqs.len() implies #[trigger] reqs[i] == page_request(
                    ListingView { skip: (l.skip + gathered(pages.take(i)).len()) as u32, ..l },
                ) by {
                    if i > 0 {
                        assert(reqs[i] == tail[i - 1]);
                        lemma_gathered_take(pages, i);
                    }
                }
            },
        }
    }
}

/// The listing that `dns list` with filters or `--all` starts: the zone's
/// records from `--skip` on, none gathered yet.
pub open spec fn started_listing(
    domain: Seq<char>,
    skip: u32,
    order_by: Option<Seq<char>>,
    record_type: Option<Seq<char>>,
    name: Option<Seq<char>>,
) -> ListingView {
    ListingView { path: zone_path(domain), order_by, record_type, name, skip, records: Seq::<JsonView>::empty() }
}

/// `dns list` with `--all`, `--type` or `--name` pages through the zone
/// `dns/records/{domain}` from `--skip`, 500 records at a time, and prints the
/// gathered records of type and name equal (up to ASCII case) to the ones
/// asked for, in order, with their count; the pages asked for are those the
/// listing requests say.
pub proof fn law_dns_list_pages_and_filters(
    domain: String,
    take: u32,
    skip: u32,
    all: bool,
    order_by: Option<String>,
    record_type: Option<String>,
    name: Option<String>,
    pages: Seq<JsonView>,
)
    requires
        1 <= take <= 500,
        all || record_type is Some || name is Some,
    ensures
        dns_plan(DnsCommand::List { domain, take, skip, all, order_by, record_type, name }) == Ok::<
            ActionView,
            ErrorView,
        >(
            ActionView::ListDns(
                started_listing(domain@, skip, opt_view(order_by), opt_view(record_type), opt_view(name)),
            ),
        ),
        listing_requests(
            started_listing(domain@, skip, opt_view(order_by), opt_view(record_type), opt_view(name)),
            pages,
        )[0] == bare(
            Method::Get,
            "dns/records/"@ + segment(domain@) + query_string(
                seq![("take"@, num(500)), ("skip"@, num(skip)), ("orderBy"@, opt_view(order_by))],
            ),
        ),
        listing_run(started_listing(domain@, skip, opt_view(order_by), opt_view(record_type), opt_view(name)), pages)
            matches StepView::Done(j) ==> exists|k: int|
            0 <= k < pages.len() && j == JsonView::Object(
                seq![
                    ("items"@, JsonView::Array(selected(gathered(#[trigger] pages.take(k + 1)), opt_view(record_type), opt_view(name)))),
                    ("total"@, JsonView::PosInt(selected(gathered(pages.take(k + 1)), opt_view(record_type), opt_view(name)).len() as u64)),
                ],
            ),
{
    let l = started_listing(domain@, skip, opt_view(order_by), opt_view(record_type), opt_view(name));
    law_listing_run(l, pages);
    if listing_run(l, pages) is Done {
        let j = listing_run(l, pages)->Done_0;
        let k = choose|k: int|
            0 <= k < pages.len() && (forall|i: int| 0 <= i < k ==> page_items(#[trigger] pages[i]).len() > 0)
                && j == listing_result(ListingView { records: l.records + gathered(#[trigger] pages.take(k + 1)), ..l });
        assert(l.records + gathered(pages.take(k + 1)) =~= gathered(pages.take(k + 1)));
    }
    if pages.len() > 0 {
        assert(listing_requests(l, pages)[0] == page_request(l));
    }
}

/// A record passes a (non-blank) filter on a property exactly when it has that
/// property as text, of the same length as the trimmed filter, and equal to
/// it character by character up to ASCII case. So a value that merely starts
/// with the filter (type `AAAA` against filter `A`) never passes.
pub proof fn law_filter_is_whole_value_equality(record: JsonView, prop: Seq<char>, expected: Seq<char>)
    requires
        !is_blank(expected),
    ensures
        property_matches(record, prop, Some(expected)) <==> (record.text_member(prop) matches Some(v) && v.len()
            == trimmed(expected).len() && forall|i: int|
            0 <= i < v.len() ==> crate::text::ascii_lower(#[trigger] v[i]) == crate::text::ascii_lower(
                trimmed(expected)[i],
            )),
        record.text_member(prop) matches Some(v) && v.len() != trimmed(expected).len() ==> !property_matches(
            record,
            prop,
            Some(expected),
        ),
        record.text_member(prop) is None ==> !property_matches(record, prop, Some(expected)),
{
}

/// With no filter, or a blank one, every record passes.
pub proof fn law_no_filter_accepts_all(record: JsonView, prop: Seq<char>, expected: Option<Seq<char>>)
    requires
        expected matches Some(e) ==> is_blank(e),
    ensures
        property_matches(record, prop, expected),
{
}

} // verus!
