//! The configured accounts: their names, in the order they were added, with
//! the identity shown for each and when it was added.

use vstd::prelude::*;
use crate::text::{chars_eq_ignore_case, chars_of, eq_ignore_case, str_eq};

verus! {

/// What is remembered about an account besides its secret credentials.
#[derive(Debug, PartialEq, Eq)]
pub struct AccountConfig {
    /// A short, non-secret identity (the start of the API key).
    pub identity: String,
    /// When the account was added (UTC, as text).
    pub added_at: String,
}

/// The configured accounts, in the order they were added.
#[derive(Debug, PartialEq, Eq)]
pub struct Config {
    pub accounts: Vec<(String, AccountConfig)>,
}

/// The plain value of one configured account.
pub struct AccountView {
    pub name: Seq<char>,
    pub identity: Seq<char>,
    pub added_at: Seq<char>,
}

pub open spec fn account_view(e: (String, AccountConfig)) -> AccountView {
    AccountView { name: e.0@, identity: e.1.identity@, added_at: e.1.added_at@ }
}

impl View for Config {
    type V = Seq<AccountView>;

    open spec fn view(&self) -> Seq<AccountView> {
        self.accounts@.map_values(|e: (String, AccountConfig)| account_view(e))
    }
}

/// The position of the first account whose name equals `name` up to ASCII case.
pub open spec fn find_from(accounts: Seq<AccountView>, name: Seq<char>, start: int) -> Option<int>
    decreases accounts.len() - start,
{
    if start >= accounts.len() || start < 0 {
        None
    } else if eq_ignore_case(accounts[start].name, name) {
        Some(start)
    } else {
        find_from(accounts, name, start + 1)
    }
}

/// The position of the account named `name` (up to ASCII case), if any.
pub open spec fn find_account(accounts: Seq<AccountView>, name: Seq<char>) -> Option<int> {
    find_from(accounts, name, 0)
}

pub proof fn lemma_find_from(accounts: Seq<AccountView>, name: Seq<char>, start: int, i: int)
    requires
        0 <= start <= i <= accounts.len(),
        forall|k: int| start <= k < i ==> !eq_ignore_case(#[trigger] accounts[k].name, name),
        i < accounts.len() ==> eq_ignore_case(accounts[i].name, name),
    ensures
        find_from(accounts, name, start) == (if i < accounts.len() {
            Some(i)
        } else {
            None::<int>
        }),
    decreases i - start,
{
    if start < i {
        lemma_find_from(accounts, name, start + 1, i);
    }
}

impl Config {
    /// A configuration without accounts.
    pub fn new() -> (c: Config)
        ensures
            c@ == Seq::<AccountView>::empty(),
    {
        let c = Config { accounts: Vec::new() };
        assert(c@ =~= Seq::<AccountView>::empty());
        c
    }

    /// The position of the account named `name`, compared up to ASCII case.
    pub fn find(&self, name: &str) -> (r: Option<usize>)
        ensures
            match r {
                Some(i) => find_account(self@, name@) == Some(i as int) && i < self.accounts.len(),
                None => find_account(self@, name@) is None,
            },
    {
        let target = chars_of(name);
        let mut i: usize = 0;
        while i < self.accounts.len()
            invariant
                i <= self.accounts.len(),
                target@ == name@,
                forall|k: int| 0 <= k < i ==> !eq_ignore_case(#[trigger] self@[k].name, name@),
            decreases self.accounts.len() - i,
        {
            let n = chars_of(self.accounts[i].0.as_str());
            if chars_eq_ignore_case(&n, &target) {
                proof {
                    lemma_find_from(self@, name@, 0, i as int);
                }
                return Some(i);
            }
            i = i + 1;
        }
        proof {
            lemma_find_from(self@, name@, 0, i as int);
        }
        None
    }
}


/// Whether `a` comes strictly before `b` in code-point order (the order of
/// Rust strings).
pub open spec fn name_less(a: Seq<char>, b: Seq<char>) -> bool
    decreases a.len(),
{
    if a.len() == 0 {
        b.len() > 0
    } else if b.len() == 0 {
        false
    } else if a[0] != b[0] {
        a[0] < b[0]
    } else {
        name_less(a.drop_first(), b.drop_first())
    }
}

/// `s` with `x` inserted before the first account whose name comes after it.
pub open spec fn insert_sorted(s: Seq<AccountView>, x: AccountView) -> Seq<AccountView>
    decreases s.len(),
{
    if s.len() == 0 {
        seq![x]
    } else if name_less(x.name, s[0].name) {
        seq![x] + s
    } else {
        seq![s[0]] + insert_sorted(s.drop_first(), x)
    }
}

/// The accounts ordered by name.
pub open spec fn sort_by_name(s: Seq<AccountView>) -> Seq<AccountView>
    decreases s.len(),
{
    if s.len() == 0 {
        Seq::<AccountView>::empty()
    } else {
        insert_sorted(sort_by_name(s.drop_last()), s.last())
    }
}

/// Inserting at the first position whose name comes after the new one.
pub proof fn lemma_insert_sorted_at(s: Seq<AccountView>, x: AccountView, j: int)
    requires
        0 <= j <= s.len(),
        forall|k: int| 0 <= k < j ==> !name_less(x.name, (#[trigger] s[k]).name),
        j < s.len() ==> name_less(x.name, s[j].name),
    ensures
        insert_sorted(s, x) == s.take(j) + seq![x] + s.skip(j),
    decreases j,
{
    if j == 0 {
        if s.len() == 0 {
            assert(s.take(0) + seq![x] + s.skip(0) =~= seq![x]);
        } else {
            assert(s.take(0) + seq![x] + s.skip(0) =~= seq![x] + s);
        }
    } else {
        let t = s.drop_first();
        assert forall|k: int| 0 <= k < j - 1 implies !name_less(x.name, (#[trigger] t[k]).name) by {
            assert(t[k] == s[k + 1]);
        }
        if j < s.len() {
            assert(t[j - 1] == s[j]);
        }
        assert(!name_less(x.name, s[0].name));
        lemma_insert_sorted_at(t, x, j - 1);
        assert(seq![s[0]] + (t.take(j - 1) + seq![x] + t.skip(j - 1)) =~= s.take(j) + seq![x] + s.skip(j));
    }
}

/// Whether `a` comes strictly before `b`.
pub fn names_less(a: &Vec<char>, b: &Vec<char>) -> (r: bool)
    ensures
        r == name_less(a@, b@),
{
    let mut i: usize = 0;
    proof {
        assert(a@.skip(0) =~= a@);
        assert(b@.skip(0) =~= b@);
    }
    while i < a.len() && i < b.len() && a[i] == b[i]
        invariant
            i <= a.len(),
            i <= b.len(),
            name_less(a@.skip(i as int), b@.skip(i as int)) == name_less(a@, b@),
        decreases a.len() - i,
    {
        proof {
            assert(a@.skip(i + 1) =~= a@.skip(i as int).drop_first());
            assert(b@.skip(i + 1) =~= b@.skip(i as int).drop_first());
        }
        i = i + 1;
    }
    proof {
        if i < a.len() {
            assert(a@.skip(i as int)[0] == a@[i as int]);
        }
        if i < b.len() {
            assert(b@.skip(i as int)[0] == b@[i as int]);
        }
    }
    if i == a.len() {
        i < b.len()
    } else if i == b.len() {
        false
    } else {
        a[i] < b[i]
    }
}

/// A copy of an account entry.
pub fn copy_entry(e: &(String, AccountConfig)) -> (r: (String, AccountConfig))
    ensures
        account_view(r) == account_view(*e),
{
    (e.0.clone(), AccountConfig { identity: e.1.identity.clone(), added_at: e.1.added_at.clone() })
}

pub open spec fn entries_view(v: Seq<(String, AccountConfig)>) -> Seq<AccountView> {
    v.map_values(|e: (String, AccountConfig)| account_view(e))
}

impl Config {
    /// The accounts ordered by name.
    pub fn sorted(&self) -> (r: Vec<(String, AccountConfig)>)
        ensures
            entries_view(r@) == sort_by_name(self@),
    {
        let mut out: Vec<(String, AccountConfig)> = Vec::new();
        let mut i: usize = 0;
        while i < self.accounts.len()
            invariant
                i <= self.accounts.len(),
                entries_view(out@) == sort_by_name(self@.take(i as int)),
            decreases self.accounts.len() - i,
        {
            let x = copy_entry(&self.accounts[i]);
            let xn = chars_of(x.0.as_str());
            let mut j: usize = 0;
            while j < out.len() && !names_less(&xn, &chars_of(out[j].0.as_str()))
                invariant
                    j <= out.len(),
                    xn@ == x.0@,
                    forall|k: int| 0 <= k < j ==> !name_less(x.0@, (#[trigger] entries_view(out@)[k]).name),
                decreases out.len() - j,
            {
                j = j + 1;
            }
            proof {
                let ev = entries_view(out@);
                lemma_insert_sorted_at(ev, account_view(x), j as int);
                assert(self@.take(i + 1).drop_last() =~= self@.take(i as int));
                assert(self@.take(i + 1).last() == account_view(self.accounts@[i as int]));
            }
            let ghost before = entries_view(out@);
            out.insert(j, x);
            proof {
                assert(entries_view(out@) =~= before.take(j as int) + seq![account_view(x)] + before.skip(
                    j as int,
                ));
            }
            i = i + 1;
        }
        proof {
            assert(self@.take(self.accounts.len() as int) =~= self@);
        }
        out
    }
}


/// The position of the first account named exactly `name`.
pub open spec fn exact_from(accounts: Seq<AccountView>, name: Seq<char>, start: int) -> Option<int>
    decreases accounts.len() - start,
{
    if start >= accounts.len() || start < 0 {
        None
    } else if accounts[start].name == name {
        Some(start)
    } else {
        exact_from(accounts, name, start + 1)
    }
}

/// The accounts with `a` stored under its exact name: replacing the entry of
/// that name where it is, or added at the end.
pub open spec fn insert_account(accounts: Seq<AccountView>, a: AccountView) -> Seq<AccountView> {
    match exact_from(accounts, a.name, 0) {
        Some(i) => accounts.update(i, a),
        None => accounts.push(a),
    }
}

/// The accounts without the entry named exactly `name`, the others keeping their order.
pub open spec fn remove_account(accounts: Seq<AccountView>, name: Seq<char>) -> Seq<AccountView> {
    match exact_from(accounts, name, 0) {
        Some(i) => accounts.remove(i),
        None => accounts,
    }
}

pub proof fn lemma_exact_from(accounts: Seq<AccountView>, name: Seq<char>, start: int, i: int)
    requires
        0 <= start <= i <= accounts.len(),
        forall|k: int| start <= k < i ==> (#[trigger] accounts[k]).name != name,
        i < accounts.len() ==> accounts[i].name == name,
    ensures
        exact_from(accounts, name, start) == (if i < accounts.len() {
            Some(i)
        } else {
            None::<int>
        }),
    decreases i - start,
{
    if start < i {
        lemma_exact_from(accounts, name, start + 1, i);
    }
}

impl Config {
    /// The position of the account named exactly `name`.
    pub fn position(&self, name: &str) -> (r: Option<usize>)
        ensures
            match r {
                Some(i) => exact_from(self@, name@, 0) == Some(i as int) && i < self.accounts.len(),
                None => exact_from(self@, name@, 0) is None,
            },
    {
        let mut i: usize = 0;
        while i < self.accounts.len()
            invariant
                i <= self.accounts.len(),
                forall|k: int| 0 <= k < i ==> (#[trigger] self@[k]).name != name@,
            decreases self.accounts.len() - i,
        {
            if str_eq(self.accounts[i].0.as_str(), name) {
                proof {
                    lemma_exact_from(self@, name@, 0, i as int);
                }
                return Some(i);
            }
            i = i + 1;
        }
        proof {
            lemma_exact_from(self@, name@, 0, i as int);
        }
        None
    }

    /// Stores an account under its exact name.
    pub fn insert(&mut self, name: String, account: AccountConfig)
        ensures
            final(self)@ == insert_account(old(self)@, account_view((name, account))),
    {
        let ghost a = account_view((name, account));
        match self.position(name.as_str()) {
            Some(i) => {
                self.accounts.set(i, (name, account));
                proof {
                    assert(self@ =~= old(self)@.update(i as int, a));
                }
            },
            None => {
                self.accounts.push((name, account));
                proof {
                    assert(self@ =~= old(self)@.push(a));
                }
            },
        }
    }

    /// Removes the account named exactly `name`.
    pub fn remove(&mut self, name: &str)
        ensures
            final(self)@ == remove_account(old(self)@, name@),
    {
        match self.position(name) {
            Some(i) => {
                self.accounts.remove(i);
                proof {
                    assert(self@ =~= old(self)@.remove(i as int));
                }
            },
            None => {},
        }
    }
}


/// No two accounts share a name.
pub open spec fn distinct_names(s: Seq<AccountView>) -> bool {
    forall|i: int, j: int| 0 <= i < j < s.len() ==> (#[trigger] s[i]).name != (#[trigger] s[j]).name
}

proof fn lemma_exact_none(s: Seq<AccountView>, name: Seq<char>, start: int)
    requires
        0 <= start,
        exact_from(s, name, start) is None,
    ensures
        forall|k: int| start <= k < s.len() ==> (#[trigger] s[k]).name != name,
    decreases s.len() - start,
{
    if start < s.len() {
        lemma_exact_none(s, name, start + 1);
    }
}

proof fn lemma_exact_some(s: Seq<AccountView>, name: Seq<char>, start: int)
    requires
        0 <= start,
        exact_from(s, name, start) is Some,
    ensures
        start <= exact_from(s, name, start)->0 < s.len(),
        s[exact_from(s, name, start)->0].name == name,
        forall|k: int| start <= k < exact_from(s, name, start)->0 ==> (#[trigger] s[k]).name != name,
    decreases s.len() - start,
{
    if start < s.len() && s[start].name != name {
        lemma_exact_some(s, name, start + 1);
    }
}

/// After an account is stored, looking its name up finds exactly what was stored.
pub proof fn law_insert_then_found(s: Seq<AccountView>, a: AccountView)
    ensures
        exact_from(insert_account(s, a), a.name, 0) matches Some(i) && insert_account(s, a)[i] == a,
{
    let t = insert_account(s, a);
    match exact_from(s, a.name, 0) {
        Some(i) => {
            lemma_exact_some(s, a.name, 0);
            assert forall|k: int| 0 <= k < i implies (#[trigger] t[k]).name != a.name by {
                assert(t[k] == s[k]);
            }
            lemma_exact_from(t, a.name, 0, i);
        },
        None => {
            lemma_exact_none(s, a.name, 0);
            assert forall|k: int| 0 <= k < s.len() implies (#[trigger] t[k]).name != a.name by {
                assert(t[k] == s[k]);
            }
            lemma_exact_from(t, a.name, 0, s.len() as int);
        },
    }
}

/// Storing an account leaves what every other name finds unchanged.
pub proof fn law_insert_keeps_others(s: Seq<AccountView>, a: AccountView, other: Seq<char>)
    requires
        other != a.name,
    ensures
        exact_from(insert_account(s, a), other, 0) == exact_from(s, other, 0),
        exact_from(s, other, 0) matches Some(i) ==> insert_account(s, a)[i] == s[i],
{
    let t = insert_account(s, a);
    if exact_from(s, a.name, 0) is Some {
        lemma_exact_some(s, a.name, 0);
    }
    assert forall|k: int| 0 <= k < s.len() implies ((#[trigger] t[k]).name == other) == (s[k].name == other) by {
        if exact_from(s, a.name, 0) is Some {
            lemma_exact_some(s, a.name, 0);
        }
    }
    match exact_from(s, other, 0) {
        Some(i) => {
            lemma_exact_some(s, other, 0);
            lemma_exact_from(t, other, 0, i);
            if exact_from(s, a.name, 0) is Some {
                lemma_exact_some(s, a.name, 0);
            }
        },
        None => {
            lemma_exact_none(s, other, 0);
            if exact_from(s, a.name, 0) is Some {
                lemma_exact_some(s, a.name, 0);
            }
            lemma_exact_from(t, other, 0, t.len() as int);
        },
    }
}

/// Storing an account keeps the names distinct.
pub proof fn law_insert_keeps_names_distinct(s: Seq<AccountView>, a: AccountView)
    requires
        distinct_names(s),
    ensures
        distinct_names(insert_account(s, a)),
{
    let t = insert_account(s, a);
    match exact_from(s, a.name, 0) {
        Some(i) => {
            lemma_exact_some(s, a.name, 0);
            assert forall|p: int, q: int| 0 <= p < q < t.len() implies (#[trigger] t[p]).name != (
            #[trigger] t[q]).name by {
                assert(s[p].name != s[q].name);
                if p == i {
                    assert(s[i].name == a.name);
                }
                if q == i {
                    assert(s[i].name == a.name);
                }
            }
        },
        None => {
            lemma_exact_none(s, a.name, 0);
            assert forall|p: int, q: int| 0 <= p < q < t.len() implies (#[trigger] t[p]).name != (
            #[trigger] t[q]).name by {
                if q < s.len() {
                    assert(s[p].name != s[q].name);
                } else {
                    assert(t[q] == a);
                    assert(t[p] == s[p]);
                }
            }
        },
    }
}

/// Where names are distinct, a removed name is no longer found.
pub proof fn law_remove_then_absent(s: Seq<AccountView>, name: Seq<char>)
    requires
        distinct_names(s),
    ensures
        exact_from(remove_account(s, name), name, 0) is None,
{
    let t = remove_account(s, name);
    match exact_from(s, name, 0) {
        Some(i) => {
            lemma_exact_some(s, name, 0);
            assert forall|k: int| 0 <= k < t.len() implies (#[trigger] t[k]).name != name by {
                if k < i {
                    assert(t[k] == s[k]);
                } else {
                    assert(t[k] == s[k + 1]);
                    assert(s[i].name != s[k + 1].name);
                }
            }
        },
        None => {
            lemma_exact_none(s, name, 0);
        },
    }
    lemma_exact_from(t, name, 0, t.len() as int);
}

/// Adding an account under a new name and removing it again gives back the
/// accounts as they were.
pub proof fn law_remove_undoes_insert(s: Seq<AccountView>, a: AccountView)
    requires
        exact_from(s, a.name, 0) is None,
    ensures
        remove_account(insert_account(s, a), a.name) == s,
{
    law_insert_then_found(s, a);
    lemma_exact_none(s, a.name, 0);
    let t = insert_account(s, a);
    assert(t == s.push(a));
    lemma_exact_from(t, a.name, 0, s.len() as int);
    assert(t.remove(s.len() as int) =~= s);
}

/// Whether the accounts are ordered by name: no account comes before one whose
/// name precedes its own.
pub open spec fn ordered_by_name(s: Seq<AccountView>) -> bool {
    forall|i: int, j: int| 0 <= i < j < s.len() ==> !name_less((#[trigger] s[j]).name, (#[trigger] s[i]).name)
}

proof fn lemma_name_less_irreflexive(a: Seq<char>)
    ensures
        !name_less(a, a),
    decreases a.len(),
{
    if a.len() > 0 {
        lemma_name_less_irreflexive(a.drop_first());
    }
}

proof fn lemma_name_less_transitive(a: Seq<char>, b: Seq<char>, c: Seq<char>)
    requires
        name_less(a, b),
        name_less(b, c),
    ensures
        name_less(a, c),
    decreases a.len(),
{
    if a.len() > 0 && a[0] == b[0] && b[0] == c[0] {
        lemma_name_less_transitive(a.drop_first(), b.drop_first(), c.drop_first());
    }
}

proof fn lemma_insert_sorted_multiset(s: Seq<AccountView>, x: AccountView)
    ensures
        insert_sorted(s, x).to_multiset() == s.to_multiset().insert(x),
    decreases s.len(),
{
    broadcast use vstd::seq_lib::group_to_multiset_ensures, vstd::multiset::group_multiset_axioms;

    if s.len() == 0 {
        assert(seq![x] == Seq::<AccountView>::empty().push(x));
    } else if name_less(x.name, s[0].name) {
        assert(seq![x] + s == s.insert(0, x));
    } else {
        let t = s.drop_first();
        lemma_insert_sorted_multiset(t, x);
        let r = insert_sorted(t, x);
        assert(seq![s[0]] + r == r.insert(0, s[0]));
        assert(s == t.insert(0, s[0]));
        assert(t.to_multiset().insert(x).insert(s[0]) =~= t.to_multiset().insert(s[0]).insert(x));
    }
}

proof fn lemma_insert_sorted_ordered(s: Seq<AccountView>, x: AccountView)
    requires
        ordered_by_name(s),
    ensures
        ordered_by_name(insert_sorted(s, x)),
    decreases s.len(),
{
    broadcast use vstd::seq_lib::group_to_multiset_ensures, vstd::multiset::group_multiset_axioms;

    let r = insert_sorted(s, x);
    if s.len() == 0 {
    } else if name_less(x.name, s[0].name) {
        assert forall|i: int, j: int| 0 <= i < j < r.len() implies !name_less(
            (#[trigger] r[j]).name,
            (#[trigger] r[i]).name,
        ) by {
            if i == 0 {
                assert(r[j] == s[j - 1]);
                if name_less(s[j - 1].name, x.name) {
                    lemma_name_less_transitive(s[j - 1].name, x.name, s[0].name);
                    if j - 1 == 0 {
                        lemma_name_less_irreflexive(s[0].name);
                    } else {
                        assert(!name_less(s[j - 1].name, s[0].name));
                    }
                }
            } else {
                assert(r[i] == s[i - 1] && r[j] == s[j - 1]);
            }
        }
    } else {
        let t = s.drop_first();
        assert forall|i: int, j: int| 0 <= i < j < t.len() implies !name_less(
            (#[trigger] t[j]).name,
            (#[trigger] t[i]).name,
        ) by {
            assert(t[i] == s[i + 1] && t[j] == s[j + 1]);
        }
        lemma_insert_sorted_ordered(t, x);
        lemma_insert_sorted_multiset(t, x);
        let u = insert_sorted(t, x);
        assert forall|i: int, j: int| 0 <= i < j < r.len() implies !name_less(
            (#[trigger] r[j]).name,
            (#[trigger] r[i]).name,
        ) by {
            if i == 0 {
                let y = u[j - 1];
                assert(r[j] == y);
                assert(u.contains(y));
                assert(u.to_multiset().count(y) > 0);
                if y != x {
                    assert(t.to_multiset().count(y) > 0);
                    assert(t.contains(y));
                    let m = choose|m: int| 0 <= m < t.len() && t[m] == y;
                    assert(s[m + 1] == y);
                }
            } else {
                assert(r[i] == u[i - 1] && r[j] == u[j - 1]);
            }
        }
    }
}

/// The accounts as listed are ordered by name, and they are exactly the
/// configured accounts: none left out, none repeated, none added.
pub proof fn law_sorted_is_ordered_permutation(s: Seq<AccountView>)
    ensures
        ordered_by_name(sort_by_name(s)),
        sort_by_name(s).to_multiset() == s.to_multiset(),
    decreases s.len(),
{
    broadcast use vstd::seq_lib::group_to_multiset_ensures;

    if s.len() > 0 {
        law_sorted_is_ordered_permutation(s.drop_last());
        lemma_insert_sorted_ordered(sort_by_name(s.drop_last()), s.last());
        lemma_insert_sorted_multiset(sort_by_name(s.drop_last()), s.last());
        assert(s == s.drop_last().push(s.last()));
    }
}

proof fn lemma_find_none(s: Seq<AccountView>, name: Seq<char>, start: int)
    requires
        0 <= start,
        find_from(s, name, start) is None,
    ensures
        forall|k: int| start <= k < s.len() ==> !eq_ignore_case(#[trigger] s[k].name, name),
    decreases s.len() - start,
{
    if start < s.len() {
        lemma_find_none(s, name, start + 1);
    }
}

/// Adding an account under a name that no configured account has (up to
/// ASCII case) appends it; looking the name up then finds it, under the name
/// it was given; and removing that name gives the accounts back as they were.
pub proof fn law_added_account_found_and_removable(s: Seq<AccountView>, a: AccountView)
    requires
        find_account(s, a.name) is None,
    ensures
        insert_account(s, a) == s.push(a),
        find_account(insert_account(s, a), a.name) == Some(s.len() as int),
        remove_account(insert_account(s, a), a.name) == s,
{
    lemma_find_none(s, a.name, 0);
    assert(eq_ignore_case(a.name, a.name));
    assert forall|k: int| 0 <= k < s.len() implies (#[trigger] s[k]).name != a.name by {
        assert(!eq_ignore_case(s[k].name, a.name));
    }
    lemma_exact_from(s, a.name, 0, s.len() as int);
    let t = s.push(a);
    assert forall|k: int| 0 <= k < s.len() implies !eq_ignore_case(#[trigger] t[k].name, a.name) by {
        assert(t[k] == s[k]);
    }
    lemma_find_from(t, a.name, 0, s.len() as int);
    law_remove_undoes_insert(s, a);
}

} // verus!
