use vstd::prelude::*;

use crate::text::{lemma_text_lt_irreflexive, lemma_text_lt_total, lemma_text_lt_transitive, text_eq, text_less, text_lt};

verus! {

broadcast use vstd::seq_lib::to_multiset_insert;

/// A contributor to register: the role they played, their share of the
/// royalties and the address that receives it.
#[derive(Debug, Clone, PartialEq, Eq)]
pub struct ContributorMsg {
    pub role: String,
    pub share: u32,
    pub address: String,
}

/// A registered contributor, as the contributors query lists it.
#[derive(Debug, Clone, PartialEq, Eq)]
pub struct ContributorResponse {
    pub role: String,
    pub share: u32,
    pub address: String,
}

/// One page of registered contributors.
#[derive(Debug, Clone, PartialEq, Eq)]
pub struct ContributorListResponse {
    pub contributors: Vec<ContributorResponse>,
}

/// The contributors that a royalty contract starts with.
#[derive(Debug, Clone, PartialEq, Eq)]
pub struct InstantiateMsg {
    pub contributors: Vec<ContributorMsg>,
}

/// Why a royalty contract refuses a request.
#[derive(Debug, Clone, PartialEq, Eq)]
pub enum ContractError {
    /// Two contributors share this address.
    DuplicateContributor { address: String },
}

/// A contributor as a mathematical value: (address, role, share).
pub type ContributorEntry = (Seq<char>, Seq<char>, u32);

pub open spec fn msg_entry(m: ContributorMsg) -> ContributorEntry {
    (m.address@, m.role@, m.share)
}

pub open spec fn response_entry(c: ContributorResponse) -> ContributorEntry {
    (c.address@, c.role@, c.share)
}

pub open spec fn msg_entries(ms: Seq<ContributorMsg>) -> Seq<ContributorEntry> {
    ms.map_values(|m: ContributorMsg| msg_entry(m))
}

pub open spec fn response_entries(cs: Seq<ContributorResponse>) -> Seq<ContributorEntry> {
    cs.map_values(|c: ContributorResponse| response_entry(c))
}

/// Entries in strictly increasing order of address (so no address twice).
pub open spec fn sorted_by_address(s: Seq<ContributorEntry>) -> bool {
    forall|i: int, j: int| 0 <= i < j < s.len() ==> text_lt(#[trigger] s[i].0, #[trigger] s[j].0)
}

/// Two entries of `s` before position `n` share an address.
pub open spec fn duplicate_before(s: Seq<ContributorEntry>, n: int) -> bool {
    exists|i: int, j: int| 0 <= i < j < n && #[trigger] s[i].0 == #[trigger] s[j].0
}

/// The entry at `j` repeats the address of an earlier one.
pub open spec fn repeats_earlier(s: Seq<ContributorEntry>, j: int) -> bool {
    exists|i: int| 0 <= i < j && #[trigger] s[i].0 == s[j].0
}

/// The address `a` comes after the pagination bound `start_after`.
pub open spec fn after_bound(a: Seq<char>, start_after: Option<Seq<char>>) -> bool {
    match start_after {
        Some(s) => text_lt(s, a),
        None => true,
    }
}

/// The entries from the first one whose address comes after the bound.
pub open spec fn from_bound(s: Seq<ContributorEntry>, start_after: Option<Seq<char>>) -> Seq<
    ContributorEntry,
>
    decreases s.len(),
{
    if s.len() == 0 {
        s
    } else if after_bound(s[0].0, start_after) {
        s
    } else {
        from_bound(s.drop_first(), start_after)
    }
}

/// The number of contributors listed when no limit is given.
pub open spec fn default_limit() -> nat {
    10
}

/// The most contributors listed on one page.
pub open spec fn max_limit() -> nat {
    30
}

/// The size of a page for the requested limit.
pub open spec fn page_size(limit: Option<u32>) -> nat {
    let requested: nat = match limit {
        Some(l) => l as nat,
        None => default_limit(),
    };
    if requested < max_limit() {
        requested
    } else {
        max_limit()
    }
}

/// The page size: the requested limit, 10 without one, and never more
/// than 30.
pub proof fn law_page_size(l: u32)
    ensures
        l <= 30 ==> page_size(Some(l)) == l,
        l > 30 ==> page_size(Some(l)) == 30,
        page_size(None) == 10,
{
}

/// A page holds as many of the contributors after the bound as its size
/// allows: `min(l, 30)` for a limit `l` (10 without one) when at least that
/// many come after the bound, and all of them otherwise; it is their first
/// ones.
pub proof fn law_page_length(s: Seq<ContributorEntry>, l: u32)
    ensures
        at_most(s, page_size(Some(l))) == s.take(at_most(s, page_size(Some(l))).len() as int),
        l <= 30 && l <= s.len() ==> at_most(s, page_size(Some(l))).len() == l,
        l > 30 && 30 <= s.len() ==> at_most(s, page_size(Some(l))).len() == 30,
        s.len() < l && s.len() < 30 ==> at_most(s, page_size(Some(l))) == s,
        10 <= s.len() ==> at_most(s, page_size(None)).len() == 10,
        s.len() < 10 ==> at_most(s, page_size(None)) == s,
{
    assert(s.take(s.len() as int) =~= s);
}

/// At most the first `n` elements of `s`.
pub open spec fn at_most<A>(s: Seq<A>, n: nat) -> Seq<A> {
    if n <= s.len() {
        s.take(n as int)
    } else {
        s
    }
}

pub open spec fn bound_view(start_after: Option<String>) -> Option<Seq<char>> {
    match start_after {
        Some(s) => Some(s@),
        None => None,
    }
}

/// The contributors of a royalty contract, kept in order of address.
pub struct RoyaltyContract {
    contributors: Vec<ContributorResponse>,
}

impl View for RoyaltyContract {
    type V = Seq<ContributorEntry>;

    closed spec fn view(&self) -> Seq<ContributorEntry> {
        response_entries(self.contributors@)
    }
}

proof fn lemma_insert_entries(cs: Seq<ContributorResponse>, p: int, c: ContributorResponse)
    requires
        0 <= p <= cs.len(),
    ensures
        response_entries(cs.insert(p, c)) == response_entries(cs).insert(p, response_entry(c)),
{
    assert(response_entries(cs.insert(p, c)) =~= response_entries(cs).insert(p, response_entry(c)));
}

fn to_response(m: &ContributorMsg) -> (c: ContributorResponse)
    ensures
        response_entry(c) == msg_entry(*m),
{
    ContributorResponse { role: m.role.clone(), share: m.share, address: m.address.clone() }
}

fn clone_response(c: &ContributorResponse) -> (r: ContributorResponse)
    ensures
        response_entry(r) == response_entry(*c),
{
    ContributorResponse { role: c.role.clone(), share: c.share, address: c.address.clone() }
}

/// Inserting an entry at a position that keeps the order keeps the order.
proof fn lemma_insert_sorted(es: Seq<ContributorEntry>, p: int, e: ContributorEntry)
    requires
        0 <= p <= es.len(),
        sorted_by_address(es),
        forall|k: int| 0 <= k < p ==> text_lt(#[trigger] es[k].0, e.0),
        forall|k: int| p <= k < es.len() ==> text_lt(e.0, #[trigger] es[k].0),
    ensures
        sorted_by_address(es.insert(p, e)),
{
    let ne = es.insert(p, e);
    assert forall|a: int, b: int| 0 <= a < b < ne.len() implies text_lt(
        #[trigger] ne[a].0,
        #[trigger] ne[b].0,
    ) by {
        if b < p {
            assert(ne[a] == es[a] && ne[b] == es[b]);
        } else if b == p {
            assert(ne[a] == es[a]);
        } else if a < p {
            assert(ne[a] == es[a] && ne[b] == es[b - 1]);
            lemma_text_lt_transitive(es[a].0, e.0, es[b - 1].0, 0);
        } else if a == p {
            assert(ne[b] == es[b - 1]);
        } else {
            assert(ne[a] == es[a - 1] && ne[b] == es[b - 1]);
        }
    }
}

/// Where the scan for a new address stops: everything before sorts before
/// it, and, unless the entry there holds the same address, everything from
/// there on sorts after it.
proof fn lemma_insert_position(es: Seq<ContributorEntry>, p: int, key: Seq<char>)
    requires
        0 <= p <= es.len(),
        sorted_by_address(es),
        forall|k: int| 0 <= k < p ==> text_lt(#[trigger] es[k].0, key),
        p < es.len() ==> !text_lt(es[p].0, key) && es[p].0 != key,
    ensures
        forall|k: int| p <= k < es.len() ==> text_lt(key, #[trigger] es[k].0),
        forall|k: int| 0 <= k < es.len() ==> #[trigger] es[k].0 != key,
{
    if p < es.len() {
        lemma_text_lt_total(es[p].0, key);
    }
    assert forall|k: int| p <= k < es.len() implies text_lt(key, #[trigger] es[k].0) by {
        if k > p {
            lemma_text_lt_transitive(key, es[p].0, es[k].0, 0);
        }
    }
    lemma_text_lt_irreflexive(key, 0);
}

/// An entry of `es`, whose elements are those of `ms`, occurs in `ms`.
proof fn lemma_same_elements(es: Seq<ContributorEntry>, ms: Seq<ContributorEntry>, e: ContributorEntry)
    requires
        es.to_multiset() == ms.to_multiset(),
    ensures
        es.contains(e) <==> ms.contains(e),
{
    vstd::seq_lib::to_multiset_contains(es, e);
    vstd::seq_lib::to_multiset_contains(ms, e);
}

/// The entries from `k` on come after the bound and those before do not:
/// the listing starts at `k`.
proof fn lemma_from_bound_at(s: Seq<ContributorEntry>, bound: Option<Seq<char>>, k: int)
    requires
        0 <= k <= s.len(),
        forall|i: int| 0 <= i < k ==> !after_bound(#[trigger] s[i].0, bound),
        forall|i: int| k <= i < s.len() ==> after_bound(#[trigger] s[i].0, bound),
    ensures
        from_bound(s, bound) == s.subrange(k, s.len() as int),
    decreases k,
{
    if k == 0 {
        assert(s.subrange(0, s.len() as int) =~= s);
        if s.len() > 0 {
            assert(after_bound(s[0].0, bound));
        }
    } else {
        let d = s.drop_first();
        assert(!after_bound(s[0].0, bound));
        assert forall|i: int| 0 <= i < k - 1 implies !after_bound(#[trigger] d[i].0, bound) by {
            assert(d[i] == s[i + 1]);
        }
        assert forall|i: int| k - 1 <= i < d.len() implies after_bound(#[trigger] d[i].0, bound) by {
            assert(d[i] == s[i + 1]);
        }
        lemma_from_bound_at(d, bound, k - 1);
        assert(d.subrange(k - 1, d.len() as int) =~= s.subrange(k, s.len() as int));
    }
}

/// In a sorted sequence, once an address comes after the bound every later
/// one does too: there is a position where the listing starts.
proof fn lemma_bound_position(s: Seq<ContributorEntry>, bound: Option<Seq<char>>) -> (k: int)
    requires
        sorted_by_address(s),
    ensures
        0 <= k <= s.len(),
        forall|i: int| 0 <= i < k ==> !after_bound(#[trigger] s[i].0, bound),
        forall|i: int| k <= i < s.len() ==> after_bound(#[trigger] s[i].0, bound),
    decreases s.len(),
{
    if s.len() == 0 {
        0
    } else if after_bound(s[0].0, bound) {
        assert forall|i: int| 0 <= i < s.len() implies after_bound(#[trigger] s[i].0, bound) by {
            if i > 0 {
                if let Some(b) = bound {
                    lemma_text_lt_transitive(b, s[0].0, s[i].0, 0);
                }
            }
        }
        0
    } else {
        let d = s.drop_first();
        assert forall|a: int, b: int| 0 <= a < b < d.len() implies text_lt(
            #[trigger] d[a].0,
            #[trigger] d[b].0,
        ) by {
            assert(d[a] == s[a + 1] && d[b] == s[b + 1]);
        }
        let k = lemma_bound_position(d, bound);
        assert forall|i: int| 0 <= i < k + 1 implies !after_bound(#[trigger] s[i].0, bound) by {
            if i > 0 {
                assert(s[i] == d[i - 1]);
            }
        }
        assert forall|i: int| k + 1 <= i < s.len() implies after_bound(#[trigger] s[i].0, bound) by {
            assert(s[i] == d[i - 1]);
        }
        k + 1
    }
}

/// A page of contributors lists exactly the registered contributors whose
/// address comes after the bound (as many of them as fit), in increasing
/// order of address.
pub proof fn law_page_lists_contributors_after_bound(
    c: RoyaltyContract,
    start_after: Option<Seq<char>>,
    e: ContributorEntry,
)
    requires
        c.wf(),
    ensures
        from_bound(c@, start_after).contains(e) <==> c@.contains(e) && after_bound(e.0, start_after),
        sorted_by_address(from_bound(c@, start_after)),
{
    let v = c@;
    let k = lemma_bound_position(v, start_after);
    lemma_from_bound_at(v, start_after, k);
    let r = v.subrange(k, v.len() as int);
    if c@.contains(e) && after_bound(e.0, start_after) {
        let i = choose|i: int| 0 <= i < v.len() && v[i] == e;
        assert(i >= k);
        assert(r[i - k] == e);
    }
    if r.contains(e) {
        let i = choose|i: int| 0 <= i < r.len() && r[i] == e;
        assert(v[i + k] == e);
    }
    assert forall|a: int, b: int| 0 <= a < b < r.len() implies text_lt(
        #[trigger] r[a].0,
        #[trigger] r[b].0,
    ) by {
        assert(r[a] == v[a + k] && r[b] == v[b + k]);
    }
}

/// Without a bound, a page large enough for every contributor lists them
/// all, in order of address.
pub proof fn law_first_page_lists_everything(c: RoyaltyContract, limit: Option<u32>)
    requires
        c.wf(),
        c@.len() <= page_size(limit),
    ensures
        at_most(from_bound(c@, None), page_size(limit)) == c@,
{
    assert(from_bound(c@, None) == c@);
}

/// Paging on: asking for the contributors after the last address of a page
/// lists the rest of what the first request would have listed without a
/// limit, so successive pages visit every contributor once, in order.
pub proof fn law_next_page_continues(
    c: RoyaltyContract,
    start_after: Option<Seq<char>>,
    limit: Option<u32>,
)
    requires
        c.wf(),
        at_most(from_bound(c@, start_after), page_size(limit)).len() > 0,
    ensures
        ({
            let page = at_most(from_bound(c@, start_after), page_size(limit));
            from_bound(c@, Some(page.last().0)) == from_bound(c@, start_after).skip(
                page.len() as int,
            )
        }),
{
    let v = c@;
    let k = lemma_bound_position(v, start_after);
    lemma_from_bound_at(v, start_after, k);
    let rest = from_bound(v, start_after);
    let page = at_most(rest, page_size(limit));
    let m = page.len() as int;
    let last = page.last().0;
    assert(page.last() == v[k + m - 1]);
    assert forall|i: int| 0 <= i < k + m implies !after_bound(#[trigger] v[i].0, Some(last)) by {
        lemma_text_lt_irreflexive(last, 0);
        if i < k + m - 1 && text_lt(last, v[i].0) {
            lemma_text_lt_transitive(last, v[i].0, last, 0);
        }
    }
    lemma_from_bound_at(v, Some(last), k + m);
    assert(rest.skip(m) =~= v.subrange(k + m, v.len() as int));
}

impl RoyaltyContract {
    /// The contract's contributors are kept in strictly increasing order of
    /// address.
    pub open spec fn wf(&self) -> bool {
        sorted_by_address(self@)
    }

    /// Every contract value keeps its contributors in address order.
    #[verifier::type_invariant]
    spec fn contributors_sorted(&self) -> bool {
        self.wf()
    }

    /// Registers the given contributors. Refused, naming the address, at
    /// the first contributor whose address an earlier one already has;
    /// otherwise the contract holds exactly the given contributors, ordered
    /// by address.
    pub fn instantiate(msg: InstantiateMsg) -> (r: Result<RoyaltyContract, ContractError>)
        ensures
            r is Ok <==> !duplicate_before(
                msg_entries(msg.contributors@),
                msg.contributors@.len() as int,
            ),
            r matches Ok(c) ==> {
                &&& c.wf()
                &&& c@.to_multiset() == msg_entries(msg.contributors@).to_multiset()
            },
            r matches Err(ContractError::DuplicateContributor { address }) ==> exists|j: int|
                0 <= j < msg.contributors@.len() && #[trigger] msg.contributors@[j].address@
                    == address@ && repeats_earlier(msg_entries(msg.contributors@), j)
                    && !duplicate_before(msg_entries(msg.contributors@), j),
    {
        let ghost ms = msg_entries(msg.contributors@);
        let mut entries: Vec<ContributorResponse> = Vec::new();
        let n = msg.contributors.len();
        proof {
            assert(response_entries(entries@) =~= ms.subrange(0, 0));
        }
        for j in 0..n
            invariant
                n == msg.contributors@.len(),
                ms == msg_entries(msg.contributors@),
                sorted_by_address(response_entries(entries@)),
                response_entries(entries@).to_multiset() == ms.subrange(0, j as int).to_multiset(),
                !duplicate_before(ms, j as int),
        {
            let m = &msg.contributors[j];
            let ghost es = response_entries(entries@);
            let ghost prefix = ms.subrange(0, j as int);
            let len = entries.len();
            let mut p: usize = 0;
            while p < len && text_less(entries[p].address.as_str(), m.address.as_str())
                invariant
                    len == entries@.len(),
                    es == response_entries(entries@),
                    p <= len,
                    forall|k: int| 0 <= k < p ==> text_lt(#[trigger] es[k].0, m.address@),
                decreases len - p,
            {
                p = p + 1;
            }
            assert(ms[j as int] == msg_entry(*m));
            if p < len && text_eq(entries[p].address.as_str(), m.address.as_str()) {
                proof {
                    assert(es.contains(es[p as int]));
                    lemma_same_elements(es, prefix, es[p as int]);
                    let i = choose|i: int| 0 <= i < prefix.len() && prefix[i] == es[p as int];
                    assert(ms[i].0 == ms[j as int].0);
                    assert(repeats_earlier(ms, j as int));
                }
                return Err(ContractError::DuplicateContributor { address: m.address.clone() });
            }
            proof {
                lemma_insert_position(es, p as int, m.address@);
                assert(!duplicate_before(ms, j + 1)) by {
                    if duplicate_before(ms, j + 1) {
                        let (a, b) = choose|a: int, b: int|
                            0 <= a < b < j + 1 && #[trigger] ms[a].0 == #[trigger] ms[b].0;
                        if b == j {
                            assert(prefix[a] == ms[a]);
                            assert(prefix.contains(ms[a]));
                            lemma_same_elements(es, prefix, ms[a]);
                            let k = choose|k: int| 0 <= k < es.len() && es[k] == ms[a];
                            assert(es[k].0 == m.address@);
                        }
                    }
                }
                assert(ms.subrange(0, j + 1) == prefix.push(ms[j as int]));
                vstd::seq_lib::to_multiset_build(prefix, ms[j as int]);
                lemma_insert_sorted(es, p as int, ms[j as int]);
            }
            let c = to_response(m);
            let ghost old_entries = entries@;
            entries.insert(p, c);
            proof {
                lemma_insert_entries(old_entries, p as int, c);
            }
        }
        proof {
            assert(ms.subrange(0, n as int) == ms);
        }
        Ok(RoyaltyContract { contributors: entries })
    }

    /// Lists the contributors in order of address: those whose address
    /// comes after `start_after` (all of them without it), at most `limit`
    /// of them (10 without a limit, never more than 30).
    pub fn query_contributors(&self, start_after: Option<String>, limit: Option<u32>) -> (r:
        ContributorListResponse)
        ensures
            self.wf(),
            response_entries(r.contributors@) == at_most(
                from_bound(self@, bound_view(start_after)),
                page_size(limit),
            ),
    {
        proof {
            use_type_invariant(self);
        }
        let ghost v = self@;
        let ghost bound = bound_view(start_after);
        let requested: u32 = match limit {
            Some(l) => l,
            None => 10,
        };
        let size: usize = if requested < 30 {
            requested as usize
        } else {
            30
        };
        let len = self.contributors.len();
        let mut i: usize = 0;
        proof {
            assert(v.len() == len);
            assert(v.subrange(0, len as int) =~= v);
        }
        while i < len && !self.comes_after(i, &start_after)
            invariant
                len == self.contributors@.len(),
                v == self@,
                bound == bound_view(start_after),
                i <= len,
                from_bound(v, bound) == from_bound(v.subrange(i as int, len as int), bound),
            decreases len - i,
        {
            proof {
                let rest = v.subrange(i as int, len as int);
                assert(rest.drop_first() == v.subrange(i + 1, len as int));
            }
            i = i + 1;
        }
        let ghost rest = v.subrange(i as int, len as int);
        proof {
            assert(v.len() == len);
            if i == len {
                assert(rest.len() == 0);
            }
            assert(from_bound(v, bound) == rest);
        }
        let start = i;
        let mut page: Vec<ContributorResponse> = Vec::new();
        while i < len && page.len() < size
            invariant
                len == self.contributors@.len(),
                v == self@,
                start <= i <= len,
                size == page_size(limit),
                page@.len() == i - start,
                page@.len() <= size,
                response_entries(page@) == v.subrange(start as int, i as int),
            decreases len - i,
        {
            let c = clone_response(&self.contributors[i]);
            page.push(c);
            proof {
                assert(response_entries(page@) =~= v.subrange(start as int, i + 1));
            }
            i = i + 1;
        }
        proof {
            if page@.len() < size {
                assert(v.subrange(start as int, i as int) =~= rest);
            } else {
                assert(v.subrange(start as int, i as int) =~= rest.take(size as int));
            }
        }
        ContributorListResponse { contributors: page }
    }

    /// Whether the contributor at `i` has an address after the bound.
    fn comes_after(&self, i: usize, start_after: &Option<String>) -> (r: bool)
        requires
            i < self@.len(),
        ensures
            r == after_bound(self@[i as int].0, bound_view(*start_after)),
    {
        match start_after {
            Some(s) => text_less(s.as_str(), self.contributors[i].address.as_str()),
            None => true,
        }
    }
}

} // verus!
