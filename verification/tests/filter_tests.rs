//! Tests for the domain filter and the context's hostname filtering.

use gdpi_core::context::Context;
use gdpi_core::filter::{DomainFilter, FilterMode, FilterResult};

#[test]
fn test_exact_match() {
    let filter = DomainFilter::with_domains(FilterMode::Blacklist, vec!["example.com".to_string()]);

    assert!(filter.matches("example.com"));
    assert!(!filter.matches("other.com"));
}

#[test]
fn test_wildcard_match() {
    let filter = DomainFilter::with_domains(
        FilterMode::Blacklist,
        vec!["*.example.com".to_string()],
    );

    assert!(filter.matches("sub.example.com"));
    assert!(filter.matches("deep.sub.example.com"));
    assert!(filter.matches("example.com")); // wildcard also matches base
    assert!(!filter.matches("other.com"));
}

#[test]
fn test_whitelist_mode() {
    let filter = DomainFilter::with_domains(FilterMode::Whitelist, vec!["bank.com".to_string()]);

    // Whitelisted = skip bypass
    assert_eq!(filter.check("bank.com"), FilterResult::SkipBypass);
    // Not in whitelist = apply bypass
    assert_eq!(filter.check("youtube.com"), FilterResult::ApplyBypass);
}

#[test]
fn test_blacklist_mode() {
    let filter = DomainFilter::with_domains(FilterMode::Blacklist, vec!["blocked.com".to_string()]);

    // In blacklist = apply bypass
    assert_eq!(filter.check("blocked.com"), FilterResult::ApplyBypass);
    // Not in blacklist = skip bypass
    assert_eq!(filter.check("other.com"), FilterResult::SkipBypass);
}

#[test]
fn test_disabled_mode() {
    let filter = DomainFilter::new();

    // Disabled = always apply bypass
    assert_eq!(filter.check("any.com"), FilterResult::ApplyBypass);
}

#[test]
fn test_case_insensitive_matching() {
    let filter = DomainFilter::with_domains(FilterMode::Blacklist, vec!["Example.COM".to_string()]);
    assert!(filter.matches("EXAMPLE.com"));
    assert!(filter.matches("example.com"));
}

#[test]
fn test_remove_domain() {
    let mut filter = DomainFilter::with_domains(
        FilterMode::Blacklist,
        vec!["one.com".to_string(), "two.com".to_string()],
    );
    assert!(filter.matches("one.com"));
    filter.remove_domain("one.com");
    assert!(!filter.matches("one.com"));
    assert!(filter.matches("two.com"));
}

#[test]
fn test_add_domains_from_text() {
    let mut filter = DomainFilter::new();
    filter.set_mode(FilterMode::Blacklist);
    let count = filter.add_domains_from_text("# comment\nexample.com\n  test.org  \n\nfoo.bar\n");
    assert_eq!(count, 3);
    assert!(filter.matches("example.com"));
    assert!(filter.matches("test.org"));
    assert!(filter.matches("foo.bar"));
    assert!(!filter.matches("comment"));
}

#[test]
fn test_filter_monotonicity() {
    // Adding a domain never removes a match, and a wildcard covers
    // every more-specific subdomain.
    let mut filter = DomainFilter::with_domains(
        FilterMode::Blacklist,
        vec!["*.example.com".to_string()],
    );
    assert!(filter.matches("a.example.com"));
    assert!(filter.matches("b.a.example.com"));

    filter.add_domain("other.net");
    assert!(filter.matches("a.example.com"));
    assert!(filter.matches("other.net"));
}

#[test]
fn test_blacklist_exact_match() {
    let ctx = Context::with_blacklist(vec!["example.com".to_string()]);

    assert!(ctx.is_blacklisted("example.com"));
    assert!(ctx.is_blacklisted("EXAMPLE.COM")); // Case insensitive
    assert!(!ctx.is_blacklisted("other.com"));
}

#[test]
fn test_blacklist_subdomain_match() {
    let ctx = Context::with_blacklist(vec!["example.com".to_string()]);

    assert!(ctx.is_blacklisted("sub.example.com"));
    assert!(ctx.is_blacklisted("deep.sub.example.com"));
    assert!(!ctx.is_blacklisted("notexample.com"));
}

#[test]
fn test_blacklist_disabled() {
    let ctx = Context::new();

    // When the blacklist is disabled, everything should match
    assert!(ctx.is_blacklisted("anything.com"));
}

#[test]
fn test_filter_disabled() {
    let ctx = Context::new();

    // When the filter is disabled, everything should get the bypass
    assert!(ctx.should_apply_bypass("anything.com"));
}

#[test]
fn context_test_whitelist_mode() {
    let filter = DomainFilter::with_domains(FilterMode::Whitelist, vec!["bank.com".to_string()]);
    let ctx = Context::with_filter(filter);

    // Whitelisted domains should NOT get the bypass
    assert!(!ctx.should_apply_bypass("bank.com"));
    // Others should get the bypass
    assert!(ctx.should_apply_bypass("youtube.com"));
}

#[test]
fn test_stats() {
    let mut ctx = Context::new();

    ctx.stats.packets_processed = 100;
    ctx.stats.packets_fragmented = 50;

    let stats = ctx.get_stats();
    assert_eq!(stats.packets_processed, 100);
    assert_eq!(stats.packets_fragmented, 50);

    ctx.reset_stats();
    assert_eq!(ctx.stats.packets_processed, 0);
}
