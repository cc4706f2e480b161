use cella::names::NameMap;
use cella::session::pool::{load_ip_pool, save_ip_pool};
use cella::session::cell::{
    allocate_ip, cell_dir, cell_flake_dir, cell_repo_dir, release_ip, FIRST_HOST, LAST_HOST,
};
use cella::session::dns::{dns_hostname, sanitize_dns};
use cella::session::flake::{flake_text, FlakeParts};

// DNS sanitization

#[test]
fn sanitize_simple() {
    assert_eq!(sanitize_dns("feat"), "feat");
}

#[test]
fn sanitize_slashes() {
    assert_eq!(sanitize_dns("feature/auth-flow"), "feature-auth-flow");
}

#[test]
fn sanitize_uppercase() {
    assert_eq!(sanitize_dns("MyBranch"), "mybranch");
}

#[test]
fn sanitize_consecutive_special() {
    assert_eq!(sanitize_dns("a//b--c"), "a-b-c");
}

#[test]
fn sanitize_leading_trailing() {
    assert_eq!(sanitize_dns("-leading-"), "leading");
    assert_eq!(sanitize_dns("//trailing//"), "trailing");
}

#[test]
fn dns_hostname_basic() {
    assert_eq!(dns_hostname("feat", "myapp"), "feat.myapp.cell");
}

#[test]
fn dns_hostname_complex() {
    assert_eq!(dns_hostname("feature/auth", "my-app"), "feature-auth.my-app.cell");
}

// Cell path construction

#[test]
fn cell_dir_path() {
    assert_eq!(cell_dir("myapp-feat"), "/var/lib/cella/cells/myapp-feat");
}

#[test]
fn cell_repo_dir_path() {
    assert_eq!(cell_repo_dir("myapp-feat"), "/var/lib/cella/cells/myapp-feat/repo");
}

#[test]
fn cell_flake_dir_path() {
    assert_eq!(cell_flake_dir("myapp-feat"), "/var/lib/cella/cells/myapp-feat/flake");
}

// IP pool

#[test]
fn ip_pool_roundtrip() {
    let mut pool = NameMap::new();
    pool.insert("cell-a".to_string(), "192.168.83.11".to_string());
    pool.insert("cell-b".to_string(), "192.168.83.12".to_string());

    let json = save_ip_pool(&pool);
    assert_eq!(
        json,
        "{\n  \"cell-a\": \"192.168.83.11\",\n  \"cell-b\": \"192.168.83.12\"\n}"
    );
    let loaded = load_ip_pool(Some(&json));
    let mut names = pool.names();
    let mut again = loaded.names();
    names.sort();
    again.sort();
    assert_eq!(names, again);
    for name in names {
        assert_eq!(pool.get(&name), loaded.get(&name));
    }
}

#[test]
fn ip_pool_first_free() {
    let mut pool = NameMap::new();
    pool.insert("a".to_string(), "192.168.83.11".to_string());
    pool.insert("b".to_string(), "192.168.83.12".to_string());

    let found = allocate_ip(&mut pool, "c").ok();
    assert_eq!(found, Some("192.168.83.13".to_string()));
}

#[test]
fn ip_pool_range() {
    // verify range is .11 to .254 (244 addresses)
    let count = (FIRST_HOST..=LAST_HOST).count();
    assert_eq!(count, 244);
    assert_eq!((FIRST_HOST, LAST_HOST), (11, 254));
}

#[test]
fn ip_pool_fills_and_empties() {
    let mut pool = NameMap::new();
    assert_eq!(allocate_ip(&mut pool, "cell-11").ok(), Some("192.168.83.11".to_string()));
    for i in 12..=LAST_HOST {
        pool.insert(format!("cell-{i}"), format!("192.168.83.{i}"));
    }
    let full = allocate_ip(&mut pool, "one-more").err().unwrap();
    assert_eq!(full.message(), "IP pool exhausted (244 cells max)");
    // a cell keeps its address
    assert_eq!(allocate_ip(&mut pool, "cell-40").ok(), Some("192.168.83.40".to_string()));
    release_ip(&mut pool, "cell-40");
    assert_eq!(allocate_ip(&mut pool, "one-more").ok(), Some("192.168.83.40".to_string()));
}

// Flake generation

#[test]
fn generated_flake_contains_name() {
    let parts = FlakeParts {
        name: "myapp-feat".to_string(),
        ip: "192.168.83.11".to_string(),
        repo: "myapp".to_string(),
        has_server: false,
        has_repo: false,
    };
    let flake = flake_text(&parts, "{ }");
    assert!(flake.contains("myapp-feat"));
    assert!(flake.contains("192.168.83.11"));
    assert!(flake.contains("cellDir = \"/var/lib/cella/cells/myapp-feat\";"));
}

#[test]
fn ip_pool_without_addresses() {
    assert!(load_ip_pool(None).is_empty());
    assert!(load_ip_pool(Some("{")).is_empty());
    assert!(load_ip_pool(Some("[]")).is_empty());
    assert!(load_ip_pool(Some("{\"a\": \"1\", \"b\": 2}")).is_empty());
    assert!(load_ip_pool(Some("{\"a\": 1, \"a\": \"2\"}")).is_empty());
    assert_eq!(save_ip_pool(&NameMap::new()), "{}");
    let pool = load_ip_pool(Some("{\"a\": \"1\"}"));
    assert_eq!(pool.get("a").map(String::as_str), Some("1"));
    let pool = load_ip_pool(Some("{\"a\": \"1\", \"a\": \"2\"}"));
    assert_eq!(pool.get("a").map(String::as_str), Some("2"));
}
