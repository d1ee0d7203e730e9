use edgelink::service::{allocate, create_link, CreateError};
use edgelink::shortkey::{short_key_from_seed, AllocationError};
use edgelink::store::{resolve, MemoryStore};

const WHO: &str = "local@example.com";

#[test]
fn round_trip_write_then_resolve() {
    let mut store = MemoryStore::new();
    edgelink::store::write(&mut store, "go", "https://example.com", WHO, 0);
    assert_eq!(resolve(&store, "go"), Some("https://example.com".to_string()));
}

#[test]
fn resolving_twice_gives_the_same_destination() {
    let mut store = MemoryStore::new();
    edgelink::store::write(&mut store, "go", "https://example.com", WHO, 0);
    let first = resolve(&store, "go");
    let second = resolve(&store, "go");
    assert_eq!(first, second);
}

#[test]
fn unknown_key_misses() {
    let mut store = MemoryStore::new();
    edgelink::store::write(&mut store, "go", "https://example.com", WHO, 0);
    assert_eq!(resolve(&store, "unknown-key"), None);
}

#[test]
fn create_with_blank_name_generates_a_key() {
    let mut store = MemoryStore::new();
    let seeds = vec![1234567u64];
    let out = create_link(
        &mut store,
        Some(""),
        "example.com",
        WHO,
        42,
        "localhost:8787",
        &seeds,
    )
    .unwrap();
    assert_eq!(out.destination, "https://example.com");
    assert_eq!(out.key.len(), 6);
    assert!(out.key.chars().all(|c| c.is_ascii_lowercase() || c.is_ascii_digit()));
    assert_eq!(out.short_url, format!("http://localhost:8787/{}", out.key));
    assert!(out.qr_svg.contains("<svg"));
    assert_eq!(resolve(&store, &out.key), Some("https://example.com".to_string()));
}

#[test]
fn create_with_custom_name_stores_normalized_key() {
    let mut store = MemoryStore::new();
    let seeds = vec![0u64];
    let out = create_link(
        &mut store,
        Some("My Link!"),
        "https://a.org",
        WHO,
        7,
        "sho.rt",
        &seeds,
    )
    .unwrap();
    assert_eq!(out.key, "my-link");
    assert_eq!(out.short_url, "https://sho.rt/my-link");
    assert_eq!(resolve(&store, "my-link"), Some("https://a.org".to_string()));
}

#[test]
fn create_records_metadata() {
    let mut store = MemoryStore::new();
    let seeds = vec![0u64];
    create_link(&mut store, Some("note"), "https://a.org", "someone@a.org", 99, "sho.rt", &seeds)
        .unwrap();
    let rec = store.get("note").unwrap();
    assert_eq!(rec.destination, "https://a.org");
    assert_eq!(rec.created_by, "someone@a.org");
    assert_eq!(rec.created_at, 99);
}

#[test]
fn create_rejects_name_of_bad_length() {
    let mut store = MemoryStore::new();
    let seeds = vec![0u64];
    let short = create_link(&mut store, Some("a"), "https://a.org", WHO, 0, "sho.rt", &seeds);
    assert_eq!(short, Err(CreateError::Allocation(AllocationError::InvalidNameLength)));
    let long = create_link(
        &mut store,
        Some("aaaaaaaaaaaaaaaaaaaaa"),
        "https://a.org",
        WHO,
        0,
        "sho.rt",
        &seeds,
    );
    assert_eq!(long, Err(CreateError::Allocation(AllocationError::InvalidNameLength)));
    assert_eq!(resolve(&store, "a"), None);
}

#[test]
fn create_rejects_taken_name_and_keeps_store() {
    let mut store = MemoryStore::new();
    let seeds = vec![0u64];
    create_link(&mut store, Some("mine"), "https://a.org", WHO, 0, "sho.rt", &seeds).unwrap();
    let again = create_link(&mut store, Some("mine"), "https://b.org", WHO, 1, "sho.rt", &seeds);
    assert_eq!(again, Err(CreateError::Allocation(AllocationError::NameTaken)));
    assert_eq!(resolve(&store, "mine"), Some("https://a.org".to_string()));
}

#[test]
fn generation_retries_and_exhausts() {
    let mut store = MemoryStore::new();
    let colliding = short_key_from_seed(7);
    edgelink::store::write(&mut store, &colliding, "https://a.org", WHO, 0);
    let out = create_link(&mut store, None, "https://b.org", WHO, 1, "sho.rt", &vec![7, 8]);
    assert_eq!(out.unwrap().key, short_key_from_seed(8));
    let exhausted = create_link(&mut store, None, "https://c.org", WHO, 2, "sho.rt", &vec![7, 7, 7]);
    assert_eq!(
        exhausted,
        Err(CreateError::Allocation(AllocationError::AllocationExhausted))
    );
}

#[test]
fn racing_writers_on_one_key_last_write_wins() {
    let mut store = MemoryStore::new();
    // Both requests pass the existence check against the same store state.
    let first = allocate(&store, Some("same"), &vec![]).unwrap();
    let second = allocate(&store, Some("same"), &vec![]).unwrap();
    edgelink::store::write(&mut store, &first, "https://first.example", WHO, 1);
    edgelink::store::write(&mut store, &second, "https://second.example", WHO, 2);
    assert_eq!(resolve(&store, "same"), Some("https://second.example".to_string()));
}

#[test]
fn allocate_returns_free_custom_name() {
    let store = MemoryStore::new();
    assert_eq!(allocate(&store, Some("ok-name"), &vec![]), Ok("ok-name".to_string()));
    assert_eq!(
        allocate(&store, None, &vec![]),
        Err(AllocationError::AllocationExhausted)
    );
}

#[test]
fn encoding_failure_surfaces_after_the_write() {
    let mut store = MemoryStore::new();
    let huge_host: String = std::iter::repeat('x').take(3000).collect();
    let out = create_link(&mut store, Some("kept"), "https://a.org", WHO, 0, &huge_host, &vec![]);
    assert_eq!(out, Err(CreateError::Encoding));
    // The record writer ran before the encoder: no cleanup of the put.
    assert_eq!(resolve(&store, "kept"), Some("https://a.org".to_string()));
}
