use rainbow::entry::construct_entry;
use rainbow::ingest::{LineOutcome, Tally};
use rainbow::paths::{data_dir, db_file};
use rainbow::pattern::like_match;
use rainbow::table::Database;

const HELLO_MD5: &str = "5d41402abc4b2a76b9719d911017c592";
const HELLO_SHA1: &str = "aaf4c61ddcc5e8a2dabede0f3b482cd9aea9434d";
const HELLO_SHA256: &str = "2cf24dba5fb0a30e26e83b2ac5b9e29e1b161e5c1fa7425e73043362938b9824";

fn lines(items: &[&str]) -> Vec<String> {
    items.iter().map(|s| s.to_string()).collect()
}

#[test]
fn digest_is_deterministic() {
    let a = construct_entry(String::from("hello"));
    let b = construct_entry(String::from("hello"));
    assert_eq!(a.md5(), b.md5());
    assert_eq!(a.sha1(), b.sha1());
    assert_eq!(a.sha256(), b.sha256());
    assert_eq!(a.sha512(), b.sha512());
    assert_eq!(a.md5().len(), 32);
    assert_eq!(a.sha1().len(), 40);
    assert_eq!(a.sha256().len(), 64);
    assert_eq!(a.sha512().len(), 128);
    assert_eq!(a.sha512().to_lowercase(), *a.sha512());
}

#[test]
fn digests_of_known_strings() {
    let e = construct_entry(String::from("hello"));
    assert_eq!(e.plaintext(), "hello");
    assert_eq!(e.md5(), HELLO_MD5);
    assert_eq!(e.sha1(), HELLO_SHA1);
    assert_eq!(e.sha256(), HELLO_SHA256);
    let w = construct_entry(String::from("Hello, World!"));
    assert_eq!(w.md5(), "65a8e27d8879283831b664bd8b7f0ad4");
    assert_eq!(w.sha1(), "0a0a9f2a6772942557ab5355d76af442f8f65e01");
    assert_eq!(
        w.sha256(),
        "dffd6021bb2bd5b0af676290809ec3a53191dd81c7f70a4b28688a362182986f"
    );
    assert_eq!(
        w.sha512(),
        "374d794a95cdcfd8b35993185fef9ba368f160d8daf432d08ba9f1ed1e5abe6cc69291e0fa2fe0006a52570ef18c19def4e617c33ce52ef0a6e5fbe318cb0387"
    );
}

#[test]
fn insert_rejects_duplicate_plaintext() {
    let mut db = Database::new();
    assert!(db.add_entry(construct_entry(String::from("hello"))));
    assert!(!db.add_entry(construct_entry(String::from("hello"))));
    assert_eq!(db.get_count(), 1);
    let e = db.entry_at(0);
    assert_eq!(e.plaintext(), "hello");
    assert_eq!(e.md5(), HELLO_MD5);
}

#[test]
fn round_trip_by_plaintext() {
    let mut db = Database::new();
    assert!(db.add_entry(construct_entry(String::from("hello"))));
    let e = db.query_plaintext("hello").expect("stored entry");
    let fresh = construct_entry(String::from("hello"));
    assert_eq!(e.plaintext(), "hello");
    assert_eq!(e.md5(), fresh.md5());
    assert_eq!(e.sha1(), fresh.sha1());
    assert_eq!(e.sha256(), fresh.sha256());
    assert_eq!(e.sha512(), fresh.sha512());
}

#[test]
fn lookup_by_any_hash() {
    let mut db = Database::new();
    assert!(db.add_entry(construct_entry(String::from("world"))));
    assert!(db.add_entry(construct_entry(String::from("hello"))));
    let by_md5 = db.query_hash(HELLO_MD5).expect("md5 hit");
    assert_eq!(by_md5.plaintext(), "hello");
    let by_sha256 = db.query_hash(HELLO_SHA256).expect("sha256 hit");
    assert_eq!(by_sha256.plaintext(), "hello");
    let by_sha1 = db.query_hash(HELLO_SHA1).expect("sha1 hit");
    assert_eq!(by_sha1.plaintext(), "hello");
    let sha512 = construct_entry(String::from("hello")).sha512().clone();
    assert_eq!(db.query_hash(&sha512).expect("sha512 hit").plaintext(), "hello");
}

#[test]
fn count_matches_accepted_inserts() {
    let mut db = Database::new();
    assert_eq!(db.get_count(), 0);
    let mut accepted = 0;
    for word in ["x", "y", "x", "z", "y", "x"] {
        if db.add_entry(construct_entry(word.to_string())) {
            accepted += 1;
        }
    }
    assert_eq!(accepted, 3);
    assert_eq!(db.get_count(), accepted);
}

#[test]
fn ingestion_accounting() {
    let mut db = Database::new();
    let t = db.ingest(&lines(&["a", "", "a", "b"]));
    assert_eq!(t.accepted, 2);
    assert_eq!(t.skipped, 1);
    assert_eq!(db.get_count(), 2);
    assert_eq!(db.entry_at(0).plaintext(), "a");
    assert_eq!(db.entry_at(1).plaintext(), "b");
}

#[test]
fn ingestion_over_existing_rows() {
    let mut db = Database::new();
    assert!(db.add_entry(construct_entry(String::from("b"))));
    let t = db.ingest(&lines(&["a", "b", "c", ""]));
    assert_eq!(t, Tally { accepted: 2, skipped: 1 });
    assert_eq!(db.get_count(), 3);
}

#[test]
fn ingestion_of_nothing() {
    let mut db = Database::new();
    let t = db.ingest(&Vec::new());
    assert_eq!(t, Tally { accepted: 0, skipped: 0 });
    let t = db.ingest(&lines(&["", ""]));
    assert_eq!(t, Tally { accepted: 0, skipped: 0 });
    assert_eq!(db.get_count(), 0);
}

#[test]
fn ingest_line_outcomes() {
    let mut db = Database::new();
    let mut t = Tally::new();
    for line in ["a", "", "a", "b"] {
        let o = db.ingest_line(line);
        t.record(o);
    }
    assert_eq!(t, Tally { accepted: 2, skipped: 1 });
    assert_eq!(db.ingest_line(""), LineOutcome::Blank);
    assert_eq!(db.ingest_line("a"), LineOutcome::Skipped);
    assert_eq!(db.ingest_line("c"), LineOutcome::Accepted);
}

#[test]
fn not_found_is_empty() {
    let mut db = Database::new();
    assert!(db.query_plaintext("hello").is_none());
    assert!(db.query_hash(HELLO_MD5).is_none());
    assert!(db.add_entry(construct_entry(String::from("world"))));
    assert!(db.query_plaintext("hello").is_none());
    assert!(db.query_hash(HELLO_MD5).is_none());
}

#[test]
fn lookup_is_case_sensitive() {
    let mut db = Database::new();
    assert!(db.add_entry(construct_entry(String::from("hello"))));
    assert!(db.query_plaintext("HELLO").is_none());
    assert!(db.query_hash(&HELLO_MD5.to_uppercase()).is_none());
}

#[test]
fn wildcard_lookup_returns_first_stored() {
    let mut db = Database::new();
    assert!(db.add_entry(construct_entry(String::from("help"))));
    assert!(db.add_entry(construct_entry(String::from("hello"))));
    assert_eq!(db.query_plaintext("hel%").unwrap().plaintext(), "help");
    assert_eq!(db.query_plaintext("hel_o").unwrap().plaintext(), "hello");
    assert_eq!(db.query_plaintext("%").unwrap().plaintext(), "help");
    assert_eq!(db.query_hash("5d41%").unwrap().plaintext(), "hello");
}

#[test]
fn like_patterns() {
    assert!(like_match("", ""));
    assert!(!like_match("", "a"));
    assert!(like_match("%", ""));
    assert!(like_match("%", "anything"));
    assert!(like_match("a%c", "abbbc"));
    assert!(like_match("a%c", "ac"));
    assert!(!like_match("a%c", "acb"));
    assert!(like_match("_b_", "abc"));
    assert!(!like_match("_b_", "ab"));
    assert!(like_match("%b%b%", "abcb"));
    assert!(!like_match("abc", "ABC"));
    assert!(like_match("caf\u{e9}", "caf\u{e9}"));
    assert!(like_match("caf_", "caf\u{e9}"));
}

#[test]
fn describe_lists_all_fields() {
    let e = construct_entry(String::from("hello"));
    let text = e.describe();
    assert_eq!(
        text,
        format!(
            "Plaintext: hello\nMD5: {}\nSHA1: {}\nSHA256: {}\nSHA512: {}",
            HELLO_MD5,
            HELLO_SHA1,
            HELLO_SHA256,
            e.sha512()
        )
    );
}

#[test]
fn store_paths() {
    assert_eq!(data_dir("/home/u", "/"), "/home/u/.rainbow");
    assert_eq!(db_file("/home/u", "/"), "/home/u/.rainbow/rainbow.db");
}

#[test]
fn entry_duplicate_keeps_fields() {
    let e = construct_entry(String::from("abc"));
    let d = e.duplicate();
    assert_eq!(d.plaintext(), e.plaintext());
    assert_eq!(d.sha512(), e.sha512());
}
