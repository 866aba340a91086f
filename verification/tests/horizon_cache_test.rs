use std::cell::Cell;
use stellar_k8s::horizon_cache::cache::{CacheLayer, HorizonCache, HorizonCacheConfig};
use stellar_k8s::horizon_cache::invalidation::LedgerInvalidator;
use stellar_k8s::horizon_cache::metrics::{record_cache_hit, record_cache_miss, HorizonCacheLabels, HorizonCacheMetrics};
use stellar_k8s::horizon_cache::optimizer::{QueryOptimizer, QueryType};
use stellar_k8s::horizon_cache::prefetch::PrefetchEngine;
use stellar_k8s::horizon_cache::streaming::{CompressedResponse, ResponseStreamer};

fn local_only() -> HorizonCacheConfig {
    HorizonCacheConfig { l2_redis_enabled: false, l3_cdn_enabled: false, ..Default::default() }
}

#[test]
fn classify_account_query() {
    let plan = QueryOptimizer::plan("/accounts/GABC123", true);
    assert_eq!(plan.query_type, QueryType::Account);
    assert!(plan.cacheable);
}

#[test]
fn order_book_not_cacheable() {
    let plan = QueryOptimizer::plan("/order_book?selling=X&buying=Y", true);
    assert!(!plan.cacheable);
}

#[test]
fn execute_uses_cache() {
    let mut cache = HorizonCache::new(local_only());
    let plan = QueryOptimizer::plan("/accounts/GABC", true);
    let call_count = Cell::new(0);
    let fetch = || {
        call_count.set(call_count.get() + 1);
        b"fetched".to_vec()
    };
    let first = QueryOptimizer::execute(&mut cache, &plan, fetch);
    let second = QueryOptimizer::execute(&mut cache, &plan, fetch);
    assert_eq!(first, b"fetched");
    assert_eq!(second, b"fetched");
    assert_eq!(call_count.get(), 1);
}

#[test]
fn chunk_streaming() {
    let data = b"hello world streaming test";
    let chunks = ResponseStreamer::chunk(data, 5);
    assert!(chunks.len() > 1);
    assert_eq!(chunks.len(), 6);
    assert_eq!(chunks[5], b"t");
    assert_eq!(chunks.concat(), data.to_vec());
    assert_eq!(ResponseStreamer::chunk(b"abc", 0).len(), 3);
}

#[test]
fn l1_hit_after_put() {
    let mut cache = HorizonCache::new(local_only());
    cache.put("accounts/GABC", b"response".to_vec());
    let (data, layer) = cache.get("accounts/GABC").unwrap();
    assert_eq!(data, b"response");
    assert_eq!(layer, CacheLayer::L1Memory);
}

#[test]
fn l2_promotion_to_l1() {
    let mut cache = HorizonCache::new(HorizonCacheConfig {
        l1_capacity: 1,
        l2_redis_enabled: true,
        l3_cdn_enabled: false,
        ..Default::default()
    });
    cache.put("key-a", b"aaa".to_vec());
    cache.put("key-b", b"bbb".to_vec());
    let (data, layer) = cache.get("key-a").unwrap();
    assert_eq!(data, b"aaa");
    assert_eq!(layer, CacheLayer::L2Redis);
    let (_, layer) = cache.get("key-a").unwrap();
    assert_eq!(layer, CacheLayer::L1Memory);
}

#[test]
fn evict_by_prefix() {
    let mut cache = HorizonCache::new(HorizonCacheConfig::default());
    cache.put("ledger:100:accounts", b"a".to_vec());
    cache.put("ledger:100:payments", b"p".to_vec());
    cache.put("ledger:200:accounts", b"b".to_vec());
    cache.evict_by_prefix("ledger:100:");
    assert!(cache.get("ledger:100:accounts").is_none());
    assert!(cache.get("ledger:200:accounts").is_some());
}

#[test]
fn evict_by_prefix_reaches_lower_layers() {
    let mut cache = HorizonCache::new(HorizonCacheConfig {
        l1_capacity: 1,
        l2_redis_enabled: true,
        l3_cdn_enabled: false,
        ..Default::default()
    });
    cache.put("ledger:100:a", b"a".to_vec());
    cache.put("ledger:200:b", b"b".to_vec());
    cache.evict_by_prefix("ledger:100:");
    assert_eq!(cache.get("ledger:100:a"), None);
    assert_eq!(cache.get("ledger:200:b"), Some((b"b".to_vec(), CacheLayer::L1Memory)));
}

#[test]
fn evict_by_prefix_reaches_cdn_layer() {
    let mut cache = HorizonCache::new(HorizonCacheConfig {
        l1_capacity: 1,
        l2_redis_enabled: false,
        l3_cdn_enabled: true,
        ..Default::default()
    });
    cache.put("ledger:100:a", b"a".to_vec());
    cache.put("ledger:200:b", b"b".to_vec());
    cache.evict_by_prefix("ledger:100:");
    assert_eq!(cache.get("ledger:100:a"), None);
    assert_eq!(cache.get("ledger:200:b"), Some((b"b".to_vec(), CacheLayer::L1Memory)));
    assert_eq!(cache.stats().total_evictions, 0);
}

#[test]
fn ledger_close_invalidates_entries() {
    let mut cache = HorizonCache::new(HorizonCacheConfig::default());
    cache.put("ledger:100:transactions", b"tx".to_vec());
    cache.put("ledger:200:transactions", b"tx2".to_vec());
    let event = LedgerInvalidator::on_ledger_close(&mut cache, 100);
    assert_eq!(event.ledger_sequence, 100);
    assert!(cache.get("ledger:100:transactions").is_none());
    assert!(cache.get("ledger:200:transactions").is_some());
}

#[test]
fn ledger_close_reaches_shared_layer() {
    let mut cache = HorizonCache::new(HorizonCacheConfig { l1_capacity: 1, ..Default::default() });
    cache.put("ledger:100:transactions", b"tx".to_vec());
    cache.put("accounts:GA", b"acct".to_vec());
    LedgerInvalidator::on_ledger_close(&mut cache, 100);
    assert_eq!(cache.get("ledger:100:transactions"), None);
    assert_eq!(cache.get("accounts:GA"), Some((b"acct".to_vec(), CacheLayer::L1Memory)));
}

#[test]
fn affected_prefixes_of_a_ledger() {
    assert_eq!(
        LedgerInvalidator::affected_prefixes(42),
        vec!["ledger:42:", "ledgers:42:", "transactions:recent:", "payments:recent:", "effects:recent:"]
    );
}

#[test]
fn account_invalidation() {
    let mut cache = HorizonCache::new(local_only());
    cache.put("accounts:GA:payments", b"p".to_vec());
    cache.put("accounts:GB", b"q".to_vec());
    LedgerInvalidator::invalidate_account(&mut cache, "GA");
    assert!(cache.get("accounts:GA:payments").is_none());
    assert!(cache.get("accounts:GB").is_some());
}

#[test]
fn stats_count_hits_and_misses() {
    let mut cache = HorizonCache::new(local_only());
    cache.put("k", b"v".to_vec());
    let _ = cache.get("k");
    let _ = cache.get("missing");
    let s = cache.stats();
    assert_eq!(s.l1_hits, 1);
    assert_eq!(s.l1_misses, 1);
    assert_eq!(s.total_puts, 1);
    cache.evict("k");
    assert_eq!(cache.stats().total_evictions, 1);
    assert!(cache.get("k").is_none());
}

#[test]
fn cache_key_replaces_slashes() {
    assert_eq!(QueryOptimizer::cache_key("/accounts/GABC/payments"), "accounts:GABC:payments");
}

#[test]
fn prefetch_counts_accesses_and_followers() {
    let mut engine = PrefetchEngine::new();
    engine.record_access("/accounts/A");
    engine.record_access("/accounts/A/payments");
    engine.record_access("/accounts/A");
    engine.record_access("/accounts/A/payments");
    assert_eq!(engine.access_count("accounts:A"), 2);
    assert_eq!(engine.access_count("accounts:A:payments"), 2);
    assert_eq!(engine.co_occurrences("accounts:A"), vec![("accounts:A:payments".to_string(), 2)]);
    assert_eq!(engine.co_occurrences("accounts:A:payments"), vec![("accounts:A".to_string(), 1)]);
    assert!(engine.co_occurrences("nothing").is_empty());
}

#[test]
fn cache_metrics_labels() {
    let labels = HorizonCacheLabels { namespace: "ns".to_string(), node: "h".to_string(), layer: "l1".to_string() };
    assert_eq!(labels.label_pairs()[2], ("layer".to_string(), "l1".to_string()));
    let mut m = HorizonCacheMetrics::new();
    record_cache_hit(&mut m, "ns", "h", "l1");
    record_cache_miss(&mut m, "ns", "h", "l1");
}

fn compression_ratio(r: &CompressedResponse) -> f64 {
    r.original_size as f64 / r.compressed_size.max(1) as f64
}

#[test]
fn compress_decompress_roundtrip() {
    let streamer = ResponseStreamer::new(true);
    let original = vec![0u8; 1024];
    let compressed = streamer.compress(&original);
    assert!(compression_ratio(&compressed) > 1.0);
    let restored = ResponseStreamer::decompress(&compressed);
    assert_eq!(restored, original);
}

#[test]
fn small_payload_not_compressed() {
    let streamer = ResponseStreamer::new(true);
    let data = b"small";
    let response = streamer.compress(data);
    assert_eq!(response.encoding, "identity");
}

#[test]
fn disabled_compression_and_bad_streams() {
    let streamer = ResponseStreamer::new(false);
    let data = vec![7u8; 300];
    let r = streamer.compress(&data);
    assert_eq!(r.encoding, "identity");
    assert_eq!(r.data, data);
    let on = ResponseStreamer::new(true).compress(&data);
    assert_eq!(on.encoding, "gzip");
    assert_eq!(on.original_size, 300);
    assert_eq!(on.compressed_size, on.data.len());
    let bad = CompressedResponse { original_size: 3, compressed_size: 3, data: vec![1, 2, 3], encoding: "gzip".to_string() };
    assert_eq!(ResponseStreamer::try_decompress(&bad), None);
    assert_eq!(ResponseStreamer::try_decompress(&on), Some(data));
}
