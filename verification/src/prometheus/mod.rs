//! Scraping Prometheus endpoints that Kubernetes announces.
pub mod objects;
pub mod metadata_cache;
pub mod k8s_discovery;
pub mod metrics_enrichment;
pub mod k8s_scraper;
pub mod uri;
pub mod cache_manager;
