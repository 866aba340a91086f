//! Adaptive query planning for Horizon API requests.

use vstd::prelude::*;
use crate::text::{str_contains, contains_seq, concat2, push_char, chars_of};
use crate::horizon_cache::cache::{CacheLayer, HorizonCache, resp_view};

verus! {

/// Horizon query type classification.
#[derive(Clone, Copy, Debug, PartialEq, Eq, Structural)]
pub enum QueryType {
    Account,
    Payment,
    Transaction,
    OrderBook,
    Ledger,
    Effects,
    Operations,
}

/// Optimized query execution plan.
#[derive(Debug)]
pub struct QueryPlan {
    pub cache_key: String,
    pub query_type: QueryType,
    pub cacheable: bool,
    pub preferred_layer: CacheLayer,
    pub ttl_secs: u64,
    pub use_compression: bool,
    pub prefetch_related: Vec<String>,
}

/// Query type of a request path: the first of these markers that occurs in
/// it decides, in this order.
pub open spec fn classify_spec(path: Seq<char>) -> QueryType {
    if contains_seq(path, "/accounts/"@) {
        QueryType::Account
    } else if contains_seq(path, "/payments"@) {
        QueryType::Payment
    } else if contains_seq(path, "/transactions"@) {
        QueryType::Transaction
    } else if contains_seq(path, "/order_book"@) {
        QueryType::OrderBook
    } else if contains_seq(path, "/ledgers/"@) {
        QueryType::Ledger
    } else if contains_seq(path, "/effects"@) {
        QueryType::Effects
    } else {
        QueryType::Operations
    }
}

/// Order books and cursor-paged ledger queries are not cached.
pub open spec fn cacheable_spec(t: QueryType, path: Seq<char>) -> bool {
    match t {
        QueryType::OrderBook => false,
        QueryType::Ledger => !contains_seq(path, "cursor"@),
        _ => true,
    }
}

/// Preferred cache layer per query type.
pub open spec fn layer_spec(t: QueryType) -> CacheLayer {
    match t {
        QueryType::Account | QueryType::Payment => CacheLayer::L1Memory,
        QueryType::Transaction | QueryType::Operations => CacheLayer::L2Redis,
        QueryType::Ledger | QueryType::Effects => CacheLayer::L3Cdn,
        QueryType::OrderBook => CacheLayer::L1Memory,
    }
}

/// Cache TTL in seconds per query type.
pub open spec fn ttl_spec(t: QueryType) -> u64 {
    match t {
        QueryType::Account => 300,
        QueryType::Payment => 120,
        QueryType::Transaction => 60,
        QueryType::OrderBook => 5,
        QueryType::Ledger => 3600,
        QueryType::Effects => 300,
        QueryType::Operations => 120,
    }
}

/// Related queries worth prefetching.
pub open spec fn prefetch_spec(t: QueryType, path: Seq<char>) -> Seq<Seq<char>> {
    match t {
        QueryType::Account => seq![path + "/payments"@, path + "/transactions"@, path + "/effects"@],
        QueryType::Ledger => seq![path + "/transactions"@, path + "/operations"@],
        _ => Seq::empty(),
    }
}

/// `s` without its leading `/` characters.
pub open spec fn trim_leading_slashes(s: Seq<char>) -> Seq<char>
    decreases s.len(),
{
    if s.len() > 0 && s[0] == '/' { trim_leading_slashes(s.drop_first()) } else { s }
}

/// Cache key of a path: leading slashes dropped, remaining slashes turned
/// into colons.
pub open spec fn cache_key_spec(path: Seq<char>) -> Seq<char> {
    trim_leading_slashes(path).map_values(|c: char| if c == '/' { ':' } else { c })
}

/// Adaptive query optimizer.
pub struct QueryOptimizer;

impl QueryOptimizer {
    /// Classifies and plans a Horizon query path.
    pub fn plan(path: &str, compression_enabled: bool) -> (r: QueryPlan)
        ensures
            r.query_type == classify_spec(path@),
            r.cacheable == cacheable_spec(classify_spec(path@), path@),
            r.preferred_layer == layer_spec(classify_spec(path@)),
            r.ttl_secs == ttl_spec(classify_spec(path@)),
            r.use_compression == compression_enabled,
            r.cache_key@ == cache_key_spec(path@),
            r.prefetch_related@.map_values(|s: String| s@) == prefetch_spec(classify_spec(path@), path@),
    {
        let query_type = Self::classify(path);
        let cacheable = Self::is_cacheable(query_type, path);
        let preferred_layer = Self::preferred_layer(query_type);
        let ttl_secs = Self::ttl_for_type(query_type);
        let prefetch_related = Self::prefetch_keys(query_type, path);
        QueryPlan {
            cache_key: Self::cache_key(path),
            query_type,
            cacheable,
            preferred_layer,
            ttl_secs,
            use_compression: compression_enabled,
            prefetch_related,
        }
    }

    /// Query type of a request path.
    pub fn classify(path: &str) -> (r: QueryType)
        ensures
            r == classify_spec(path@),
            contains_seq(path@, "/accounts/"@) ==> r == QueryType::Account,
            !contains_seq(path@, "/accounts/"@) && contains_seq(path@, "/payments"@) ==> r == QueryType::Payment,
            !contains_seq(path@, "/accounts/"@) && !contains_seq(path@, "/payments"@) && contains_seq(path@, "/transactions"@)
                ==> r == QueryType::Transaction,
            !contains_seq(path@, "/accounts/"@) && !contains_seq(path@, "/payments"@) && !contains_seq(path@, "/transactions"@)
                && contains_seq(path@, "/order_book"@) ==> r == QueryType::OrderBook,
            !contains_seq(path@, "/accounts/"@) && !contains_seq(path@, "/payments"@) && !contains_seq(path@, "/transactions"@)
                && !contains_seq(path@, "/order_book"@) && contains_seq(path@, "/ledgers/"@) ==> r == QueryType::Ledger,
            !contains_seq(path@, "/accounts/"@) && !contains_seq(path@, "/payments"@) && !contains_seq(path@, "/transactions"@)
                && !contains_seq(path@, "/order_book"@) && !contains_seq(path@, "/ledgers/"@) && contains_seq(path@, "/effects"@)
                ==> r == QueryType::Effects,
            !contains_seq(path@, "/accounts/"@) && !contains_seq(path@, "/payments"@) && !contains_seq(path@, "/transactions"@)
                && !contains_seq(path@, "/order_book"@) && !contains_seq(path@, "/ledgers/"@) && !contains_seq(path@, "/effects"@)
                ==> r == QueryType::Operations,
    {
        if str_contains(path, "/accounts/") {
            QueryType::Account
        } else if str_contains(path, "/payments") {
            QueryType::Payment
        } else if str_contains(path, "/transactions") {
            QueryType::Transaction
        } else if str_contains(path, "/order_book") {
            QueryType::OrderBook
        } else if str_contains(path, "/ledgers/") {
            QueryType::Ledger
        } else if str_contains(path, "/effects") {
            QueryType::Effects
        } else {
            QueryType::Operations
        }
    }

    /// Whether responses to this query may be cached.
    pub fn is_cacheable(query_type: QueryType, path: &str) -> (r: bool)
        ensures
            r == cacheable_spec(query_type, path@),
    {
        match query_type {
            QueryType::OrderBook => false,
            QueryType::Ledger => !str_contains(path, "cursor"),
            _ => true,
        }
    }

    /// Preferred cache layer for a query type.
    pub fn preferred_layer(query_type: QueryType) -> (r: CacheLayer)
        ensures
            r == layer_spec(query_type),
    {
        match query_type {
            QueryType::Account | QueryType::Payment => CacheLayer::L1Memory,
            QueryType::Transaction | QueryType::Operations => CacheLayer::L2Redis,
            QueryType::Ledger | QueryType::Effects => CacheLayer::L3Cdn,
            QueryType::OrderBook => CacheLayer::L1Memory,
        }
    }

    /// Cache TTL in seconds for a query type.
    pub fn ttl_for_type(query_type: QueryType) -> (r: u64)
        ensures
            r == ttl_spec(query_type),
    {
        match query_type {
            QueryType::Account => 300,
            QueryType::Payment => 120,
            QueryType::Transaction => 60,
            QueryType::OrderBook => 5,
            QueryType::Ledger => 3600,
            QueryType::Effects => 300,
            QueryType::Operations => 120,
        }
    }

    /// Related queries worth prefetching.
    pub fn prefetch_keys(query_type: QueryType, path: &str) -> (r: Vec<String>)
        ensures
            r@.map_values(|s: String| s@) == prefetch_spec(query_type, path@),
    {
        let mut v: Vec<String> = Vec::new();
        match query_type {
            QueryType::Account => {
                v.push(concat2(path, "/payments"));
                v.push(concat2(path, "/transactions"));
                v.push(concat2(path, "/effects"));
            },
            QueryType::Ledger => {
                v.push(concat2(path, "/transactions"));
                v.push(concat2(path, "/operations"));
            },
            _ => {},
        }
        assert(v@.map_values(|s: String| s@) =~= prefetch_spec(query_type, path@));
        v
    }

    /// Cache key of a path.
    pub fn cache_key(path: &str) -> (r: String)
        ensures
            r@ == cache_key_spec(path@),
    {
        let v = chars_of(path);
        let mut start: usize = 0;
        assert(v@.skip(0) =~= v@);
        while start < v.len() && v[start] == '/'
            invariant
                start <= v.len(),
                trim_leading_slashes(v@) == trim_leading_slashes(v@.skip(start as int)),
            decreases v.len() - start,
        {
            assert(v@.skip(start as int).drop_first() =~= v@.skip(start + 1));
            start += 1;
        }
        assert(trim_leading_slashes(v@.skip(start as int)) == v@.skip(start as int));
        let ghost t = v@.skip(start as int);
        let mut r = String::new();
        let mut i: usize = start;
        while i < v.len()
            invariant
                start <= i <= v.len(),
                t == v@.skip(start as int),
                r@ == t.take(i - start).map_values(|c: char| if c == '/' { ':' } else { c }),
            decreases v.len() - i,
        {
            let c = if v[i] == '/' { ':' } else { v[i] };
            push_char(&mut r, c);
            assert(t.take(i + 1 - start) =~= t.take(i - start).push(v@[i as int]));
            assert(r@ =~= t.take(i + 1 - start).map_values(|c: char| if c == '/' { ':' } else { c }));
            i += 1;
        }
        assert(t.take(v.len() - start) =~= t);
        assert(v@.skip(0) =~= v@);
        r
    }

    /// Answers a planned query cache-aside: a cacheable query is served from
    /// the cache when present; otherwise `fetch` is called and, when
    /// cacheable, its result is stored.
    pub fn execute<F: FnOnce() -> Vec<u8>>(cache: &mut HorizonCache, plan: &QueryPlan, fetch: F) -> (r: Vec<u8>)
        requires
            old(cache).wf(),
            old(cache).stats_view().has_room(),
            fetch.requires(()),
        ensures
            final(cache).wf(),
            !plan.cacheable ==> fetch.ensures((), r) && *final(cache) == *old(cache),
            plan.cacheable ==> exists|now_ms: u64, mid: HorizonCache, g: Option<(Seq<u8>, CacheLayer)>|
                #[trigger] HorizonCache::get_post(*old(cache), mid, plan.cache_key@, now_ms, g)
                && match g {
                    Some(p) => r@ == p.0 && *final(cache) == mid,
                    None => fetch.ensures((), r) && exists|t: u64| #[trigger] HorizonCache::put_post(mid, *final(cache), plan.cache_key@, r@, t),
                },
    {
        if plan.cacheable {
            let got = cache.get(plan.cache_key.as_str());
            let ghost mid = *cache;
            match got {
                Some(pair) => {
                    let (data, _) = pair;
                    return data;
                },
                None => {
                    let data = fetch();
                    let copy = copy_vec(&data);
                    cache.put(plan.cache_key.as_str(), copy);
                    return data;
                },
            }
        }
        fetch()
    }
}

fn copy_vec(v: &Vec<u8>) -> (r: Vec<u8>)
    ensures
        r@ == v@,
{
    let mut r: Vec<u8> = Vec::new();
    let mut i: usize = 0;
    while i < v.len()
        invariant
            i <= v.len(),
            r@ == v@.take(i as int),
        decreases v.len() - i,
    {
        r.push(v[i]);
        i += 1;
        assert(r@ =~= v@.take(i as int));
    }
    assert(v@.take(v.len() as int) =~= v@);
    r
}

/// A request path is classified by the first of these it contains:
/// `/accounts/` (an account), `/payments`, `/transactions`, `/order_book`,
/// `/ledgers/` (a ledger), `/effects`; a path with none of them is an
/// operations query.
pub proof fn law_classification_by_path(path: Seq<char>)
    ensures
        contains_seq(path, "/accounts/"@) ==> classify_spec(path) == QueryType::Account,
        !contains_seq(path, "/accounts/"@) && contains_seq(path, "/payments"@) ==> classify_spec(path) == QueryType::Payment,
        !contains_seq(path, "/accounts/"@) && !contains_seq(path, "/payments"@) && contains_seq(path, "/transactions"@)
            ==> classify_spec(path) == QueryType::Transaction,
        !contains_seq(path, "/accounts/"@) && !contains_seq(path, "/payments"@) && !contains_seq(path, "/transactions"@)
            && contains_seq(path, "/order_book"@) ==> classify_spec(path) == QueryType::OrderBook,
        !contains_seq(path, "/accounts/"@) && !contains_seq(path, "/payments"@) && !contains_seq(path, "/transactions"@)
            && !contains_seq(path, "/order_book"@) && contains_seq(path, "/ledgers/"@) ==> classify_spec(path) == QueryType::Ledger,
        !contains_seq(path, "/accounts/"@) && !contains_seq(path, "/payments"@) && !contains_seq(path, "/transactions"@)
            && !contains_seq(path, "/order_book"@) && !contains_seq(path, "/ledgers/"@) && contains_seq(path, "/effects"@)
            ==> classify_spec(path) == QueryType::Effects,
        !contains_seq(path, "/accounts/"@) && !contains_seq(path, "/payments"@) && !contains_seq(path, "/transactions"@)
            && !contains_seq(path, "/order_book"@) && !contains_seq(path, "/ledgers/"@) && !contains_seq(path, "/effects"@)
            ==> classify_spec(path) == QueryType::Operations,
{
}

/// Where each kind of query is cached and for how long: accounts in memory
/// for five minutes, payments in memory for two, transactions in the shared
/// store for one, order books in memory for five seconds, ledgers at the CDN
/// for an hour, effects at the CDN for five minutes, other operations in the
/// shared store for two.
pub proof fn law_plan_by_kind()
    ensures
        layer_spec(QueryType::Account) == CacheLayer::L1Memory && ttl_spec(QueryType::Account) == 300,
        layer_spec(QueryType::Payment) == CacheLayer::L1Memory && ttl_spec(QueryType::Payment) == 120,
        layer_spec(QueryType::Transaction) == CacheLayer::L2Redis && ttl_spec(QueryType::Transaction) == 60,
        layer_spec(QueryType::OrderBook) == CacheLayer::L1Memory && ttl_spec(QueryType::OrderBook) == 5,
        layer_spec(QueryType::Ledger) == CacheLayer::L3Cdn && ttl_spec(QueryType::Ledger) == 3600,
        layer_spec(QueryType::Effects) == CacheLayer::L3Cdn && ttl_spec(QueryType::Effects) == 300,
        layer_spec(QueryType::Operations) == CacheLayer::L2Redis && ttl_spec(QueryType::Operations) == 120,
{
}

} // verus!
