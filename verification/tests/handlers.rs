use rest_server::handlers::{get_sample, last_segment, post_sample};
use rest_server::http::Request;
use rest_server::store::{MemoryStore, Sample};

fn sample(id: u32, name: &str) -> Sample {
    Sample { id, name: name.to_string() }
}

fn request(method: &str, path: &str, body: &str) -> Request {
    Request { method: method.to_string(), path: path.to_string(), body: body.to_string() }
}

#[test]
fn last_segment_is_what_follows_the_last_slash() {
    assert_eq!(last_segment("/sample/raja"), "raja");
    assert_eq!(last_segment("raja"), "raja");
    assert_eq!(last_segment("/sample/"), "");
    assert_eq!(last_segment(""), "");
    assert_eq!(last_segment("/a/b/c"), "c");
    assert_eq!(last_segment("/ünï/cödé"), "cödé");
}

#[test]
fn get_sample_finds_the_stored_sample() {
    let mut store = MemoryStore::new();
    store.add("raja".to_string(), sample(1, "raja"));
    let req = request("GET", "/sample/raja", "");
    assert_eq!(get_sample(&store, Some(&req)).unwrap(), sample(1, "raja"));
}

#[test]
fn get_sample_of_unknown_key_is_an_error() {
    let store = MemoryStore::new();
    let req = request("GET", "/sample/nobody", "");
    assert_eq!(get_sample(&store, Some(&req)).unwrap_err().msg, "error");
}

#[test]
fn get_sample_without_request_is_an_error() {
    let store = MemoryStore::new();
    assert_eq!(get_sample(&store, None).unwrap_err().msg, "error");
}

#[test]
fn post_sample_stores_under_the_name() {
    let mut store = MemoryStore::new();
    let answer = post_sample(&mut store, Some(Ok(sample(1, "raja"))));
    assert_eq!(answer.unwrap(), sample(1, "raja"));
    assert_eq!(store.get("raja".to_string()), Some(sample(1, "raja")));
}

#[test]
fn post_sample_over_an_existing_name_answers_the_new_sample() {
    let mut store = MemoryStore::new();
    post_sample(&mut store, Some(Ok(sample(1, "raja")))).unwrap();
    let answer = post_sample(&mut store, Some(Ok(sample(2, "raja"))));
    assert_eq!(answer.unwrap(), sample(2, "raja"));
    assert_eq!(store.get("raja".to_string()), Some(sample(2, "raja")));
}

#[test]
fn post_sample_with_unreadable_body_answers_the_reading_error() {
    let mut store = MemoryStore::new();
    let answer = post_sample(&mut store, Some(Err("expected value at line 1 column 1".to_string())));
    assert_eq!(answer.unwrap_err().msg, "expected value at line 1 column 1");
    assert!(store.getAll().is_empty());
}

#[test]
fn post_sample_without_request_is_an_error() {
    let mut store = MemoryStore::new();
    assert_eq!(post_sample(&mut store, None).unwrap_err().msg, "error");
    assert!(store.getAll().is_empty());
}
