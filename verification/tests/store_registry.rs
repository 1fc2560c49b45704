use codestrux::store::{
    delete_downloaded_model, find_model, find_model_path, has_token, read_token,
    save_downloaded_model, StoredModel, MODELS_KEY, STORE_FILE, TOKEN_KEY,
};

fn model(id: &str, file: &str, path: &str, size: u64) -> StoredModel {
    StoredModel { model_id: id.to_string(), filename: file.to_string(), path: path.to_string(), size }
}

fn keys(v: &[StoredModel]) -> Vec<(String, String, String, u64)> {
    v.iter().map(|m| (m.model_id.clone(), m.filename.clone(), m.path.clone(), m.size)).collect()
}

#[test]
fn store_keys() {
    assert_eq!(STORE_FILE, "codestrux.json");
    assert_eq!(TOKEN_KEY, "hf_token");
    assert_eq!(MODELS_KEY, "downloaded_models");
}

#[test]
fn tokens() {
    assert!(!has_token(None));
    assert!(!has_token(Some("")));
    assert!(has_token(Some("hf_x")));
    assert_eq!(read_token(None), None);
    assert_eq!(read_token(Some(String::new())), None);
    assert_eq!(read_token(Some("hf_x".to_string())), Some("hf_x".to_string()));
}

#[test]
fn save_appends_then_replaces() {
    let mut v = Vec::new();
    save_downloaded_model(&mut v, model("a/b", "f.gguf", "/m/1", 10));
    save_downloaded_model(&mut v, model("a/b", "g.gguf", "/m/2", 20));
    save_downloaded_model(&mut v, model("a/b", "f.gguf", "/m/3", 30));
    assert_eq!(
        keys(&v),
        vec![
            ("a/b".to_string(), "f.gguf".to_string(), "/m/3".to_string(), 30),
            ("a/b".to_string(), "g.gguf".to_string(), "/m/2".to_string(), 20),
        ]
    );
    assert_eq!(find_model(&v, "a/b", "g.gguf"), Some(1));
    assert_eq!(find_model(&v, "a/b", "h.gguf"), None);
}

#[test]
fn save_is_idempotent() {
    let mut v = vec![model("x", "1", "/p", 1)];
    save_downloaded_model(&mut v, model("y", "2", "/q", 2));
    let once = keys(&v);
    save_downloaded_model(&mut v, model("y", "2", "/q", 2));
    assert_eq!(keys(&v), once);
}

#[test]
fn delete_returns_path_and_keeps_others() {
    let mut v = vec![model("x", "1", "/p1", 1), model("y", "2", "/p2", 2), model("z", "3", "/p3", 3)];
    assert_eq!(delete_downloaded_model(&mut v, "y", "2"), Some("/p2".to_string()));
    assert_eq!(keys(&v), vec![
        ("x".to_string(), "1".to_string(), "/p1".to_string(), 1),
        ("z".to_string(), "3".to_string(), "/p3".to_string(), 3),
    ]);
    assert_eq!(delete_downloaded_model(&mut v, "y", "2"), None);
    assert_eq!(v.len(), 2);
}

#[test]
fn delete_after_save_restores_registry() {
    let mut v = vec![model("x", "1", "/p1", 1)];
    let before = keys(&v);
    save_downloaded_model(&mut v, model("n", "new", "/pn", 9));
    assert_eq!(delete_downloaded_model(&mut v, "n", "new"), Some("/pn".to_string()));
    assert_eq!(keys(&v), before);
}

#[test]
fn model_paths() {
    let v = vec![model("x", "1", "/p1", 1), model("x", "1", "/dup", 1)];
    assert_eq!(find_model_path(&v, "x", "1"), Ok("/p1".to_string()));
    assert_eq!(find_model_path(&v, "org/m", "f.gguf"), Err("Model 'org/m/f.gguf' not found.".to_string()));
}

#[test]
fn keys_stay_unique() {
    let mut v = Vec::new();
    for (id, file) in [("a", "1"), ("b", "1"), ("a", "1"), ("a", "2"), ("b", "1")].iter() {
        save_downloaded_model(&mut v, model(id, file, "/p", 0));
    }
    let mut seen: Vec<(String, String)> = v.iter().map(|m| (m.model_id.clone(), m.filename.clone())).collect();
    let n = seen.len();
    seen.sort();
    seen.dedup();
    assert_eq!(seen.len(), n);
    assert_eq!(n, 3);
    assert_eq!(delete_downloaded_model(&mut v, "a", "1"), Some("/p".to_string()));
    assert_eq!(find_model(&v, "a", "1"), None);
}

#[test]
fn has_token_agrees_with_read_token() {
    for stored in [None, Some(""), Some("t"), Some(" ")].iter() {
        assert_eq!(has_token(*stored), read_token(stored.map(|s| s.to_string())).is_some());
    }
}
