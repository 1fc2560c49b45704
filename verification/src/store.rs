//! The persisted settings: the HuggingFace token and the registry of
//! downloaded models. The on-disk store itself is read and written by the
//! caller; this module decides what is stored and what is answered.

use vstd::prelude::*;

use crate::text::{push_str, string_of};

verus! {

/// File name of the on-disk store.
pub const STORE_FILE: &'static str = "codestrux.json";

/// Store key of the HuggingFace token.
pub const TOKEN_KEY: &'static str = "hf_token";

/// Store key of the downloaded-model registry.
pub const MODELS_KEY: &'static str = "downloaded_models";

// ── Token ────────────────────────────────────────────────────────────────────

/// A stored value is a usable token when it is a non-empty string.
pub open spec fn usable_token(stored: Option<Seq<char>>) -> bool {
    stored is Some && stored->0.len() > 0
}

/// Whether a usable token is stored: the stored value is a non-empty string.
/// `stored` is the store's value when it is a string, `None` otherwise.
pub fn has_token(stored: Option<&str>) -> (b: bool)
    ensures
        b == usable_token(match stored { Some(s) => Some(s@), None => None }),
{
    match stored {
        Some(s) => !s.is_empty(),
        None => false,
    }
}

/// The stored token, when it is a non-empty string.
pub fn read_token(stored: Option<String>) -> (t: Option<String>)
    ensures
        t == (if usable_token(match stored { Some(s) => Some(s@), None => None }) { stored } else { None }),
{
    match stored {
        Some(s) => {
            if s.as_str().is_empty() {
                None
            } else {
                Some(s)
            }
        },
        None => None,
    }
}

/// The frontend is told a token exists exactly when the backend can read one.
pub proof fn law_has_token_iff_readable(stored: Option<String>)
    ensures
        usable_token(match stored { Some(s) => Some(s@), None => None })
            == ((if usable_token(match stored { Some(s) => Some(s@), None => None }) { stored } else { None }) is Some),
{
}

/// Any non-empty stored string is a usable token, whatever it holds or how
/// long it is: `has_token` answers `true` for it and `read_token` hands it
/// back unchanged; an empty string or a missing value is no token.
pub proof fn law_nonempty_string_is_token(s: String)
    ensures
        usable_token(Some(s@)) == (s@.len() > 0),
        !usable_token(None),
        s@.len() > 0 ==> (if usable_token(
            match Some(s) { Some(x) => Some(x@), None => None::<Seq<char>> },
        ) { Some(s) } else { None }) == Some(s),
{
}

// ── Downloaded-model registry ────────────────────────────────────────────────

/// One downloaded model file.
pub struct StoredModel {
    pub model_id: String,
    pub filename: String,
    pub path: String,
    pub size: u64,
}

/// Registry entries are identified by repository id and file name.
pub open spec fn has_key(m: StoredModel, model_id: Seq<char>, filename: Seq<char>) -> bool {
    m.model_id@ == model_id && m.filename@ == filename
}

/// Index of the first entry with the key, at or after `i`.
pub open spec fn find_from(s: Seq<StoredModel>, model_id: Seq<char>, filename: Seq<char>, i: int) -> Option<int>
    decreases s.len() - i,
{
    if i < 0 || i >= s.len() {
        None
    } else if has_key(s[i], model_id, filename) {
        Some(i)
    } else {
        find_from(s, model_id, filename, i + 1)
    }
}

/// Index of the first entry with the key.
pub open spec fn find_entry(s: Seq<StoredModel>, model_id: Seq<char>, filename: Seq<char>) -> Option<int> {
    find_from(s, model_id, filename, 0)
}

/// The registry after saving `m`: the first entry with its key is replaced,
/// or `m` is appended when there is none.
pub open spec fn upsert(s: Seq<StoredModel>, m: StoredModel) -> Seq<StoredModel> {
    match find_entry(s, m.model_id@, m.filename@) {
        Some(p) => s.update(p, m),
        None => s.push(m),
    }
}

/// The registry after deleting the first entry with the key.
pub open spec fn remove_entry(s: Seq<StoredModel>, model_id: Seq<char>, filename: Seq<char>) -> Seq<StoredModel> {
    match find_entry(s, model_id, filename) {
        Some(p) => s.remove(p),
        None => s,
    }
}

/// No two entries share a key.
pub open spec fn unique_keys(s: Seq<StoredModel>) -> bool {
    forall|i: int, j: int|
        0 <= i < s.len() && 0 <= j < s.len() && i != j ==> !has_key(s[j], s[i].model_id@, s[i].filename@)
}

proof fn lemma_find_from_facts(s: Seq<StoredModel>, id: Seq<char>, f: Seq<char>, i: int)
    requires
        0 <= i,
    ensures
        find_from(s, id, f, i) matches Some(p) ==> i <= p < s.len() && has_key(s[p], id, f)
            && forall|j: int| i <= j < p ==> !has_key(#[trigger] s[j], id, f),
        find_from(s, id, f, i) is None ==> forall|j: int| i <= j < s.len() ==> !has_key(#[trigger] s[j], id, f),
    decreases s.len() - i,
{
    if i < s.len() && !has_key(s[i], id, f) {
        lemma_find_from_facts(s, id, f, i + 1);
    }
}

/// What `find_entry` means: the first index with the key, or none anywhere.
pub proof fn lemma_find_entry(s: Seq<StoredModel>, id: Seq<char>, f: Seq<char>)
    ensures
        find_entry(s, id, f) matches Some(p) ==> 0 <= p < s.len() && has_key(s[p], id, f)
            && forall|j: int| 0 <= j < p ==> !has_key(#[trigger] s[j], id, f),
        find_entry(s, id, f) is None ==> forall|j: int| 0 <= j < s.len() ==> !has_key(#[trigger] s[j], id, f),
{
    lemma_find_from_facts(s, id, f, 0);
}

proof fn lemma_find_unique(s: Seq<StoredModel>, id: Seq<char>, f: Seq<char>, p: int)
    requires
        0 <= p < s.len(),
        has_key(s[p], id, f),
        forall|j: int| 0 <= j < p ==> !has_key(#[trigger] s[j], id, f),
    ensures
        find_entry(s, id, f) == Some(p),
{
    lemma_find_entry(s, id, f);
    if find_entry(s, id, f) is None {
        assert(!has_key(s[p], id, f));
    }
}

/// Position of the first entry with the key.
pub fn find_model(models: &Vec<StoredModel>, model_id: &str, filename: &str) -> (r: Option<usize>)
    ensures
        r matches Some(p) ==> find_entry(models@, model_id@, filename@) == Some(p as int) && p < models@.len(),
        r is None ==> find_entry(models@, model_id@, filename@) is None,
{
    proof {
        lemma_find_entry(models@, model_id@, filename@);
    }
    let mut i: usize = 0;
    while i < models.len()
        invariant
            i <= models.len(),
            find_entry(models@, model_id@, filename@) == find_from(models@, model_id@, filename@, i as int),
        decreases models.len() - i,
    {
        let m = &models[i];
        if crate::text::str_eq(m.model_id.as_str(), model_id) && crate::text::str_eq(m.filename.as_str(), filename) {
            return Some(i);
        }
        i += 1;
    }
    None
}

/// Persists a downloaded model entry: replaces the entry with the same
/// `model_id` and `filename`, or appends it.
pub fn save_downloaded_model(models: &mut Vec<StoredModel>, model: StoredModel)
    ensures
        final(models)@ == upsert(old(models)@, model),
{
    match find_model(models, model.model_id.as_str(), model.filename.as_str()) {
        Some(pos) => {
            models.set(pos, model);
        },
        None => {
            models.push(model);
        },
    }
}

/// Removes the entry for `model_id`/`filename` and returns the path of its
/// file, which the caller then deletes; `None` and no change when there is no
/// such entry.
pub fn delete_downloaded_model(models: &mut Vec<StoredModel>, model_id: &str, filename: &str) -> (path: Option<String>)
    ensures
        final(models)@ == remove_entry(old(models)@, model_id@, filename@),
        path is Some <==> find_entry(old(models)@, model_id@, filename@) is Some,
        path matches Some(p) ==> p == old(models)@[find_entry(old(models)@, model_id@, filename@)->0].path,
{
    match find_model(models, model_id, filename) {
        Some(pos) => {
            let removed = models.remove(pos);
            Some(removed.path)
        },
        None => None,
    }
}

pub open spec fn not_found_message(model_id: Seq<char>, filename: Seq<char>) -> Seq<char> {
    "Model '"@ + model_id + "/"@ + filename + "' not found."@
}

/// Path of the registered file for `model_id`/`filename`.
pub fn find_model_path(models: &Vec<StoredModel>, model_id: &str, filename: &str) -> (r: Result<String, String>)
    ensures
        r matches Ok(p) ==> find_entry(models@, model_id@, filename@) is Some
            && p == models@[find_entry(models@, model_id@, filename@)->0].path,
        r matches Err(e) ==> find_entry(models@, model_id@, filename@) is None
            && e@ == not_found_message(model_id@, filename@),
{
    match find_model(models, model_id, filename) {
        Some(pos) => Ok(models[pos].path.clone()),
        None => {
            let mut v: Vec<char> = Vec::new();
            push_str(&mut v, "Model '");
            push_str(&mut v, model_id);
            push_str(&mut v, "/");
            push_str(&mut v, filename);
            push_str(&mut v, "' not found.");
            Err(string_of(&v))
        },
    }
}

// ── Laws of the registry ─────────────────────────────────────────────────────

/// Reading after saving gives back what was saved.
pub proof fn law_save_then_find(s: Seq<StoredModel>, m: StoredModel)
    ensures
        find_entry(upsert(s, m), m.model_id@, m.filename@) matches Some(p) && upsert(s, m)[p] == m,
{
    let id = m.model_id@;
    let f = m.filename@;
    lemma_find_entry(s, id, f);
    let t = upsert(s, m);
    match find_entry(s, id, f) {
        Some(p) => {
            assert forall|j: int| 0 <= j < p implies !has_key(#[trigger] t[j], id, f) by {
                assert(t[j] == s[j]);
            }
            lemma_find_unique(t, id, f, p);
        },
        None => {
            let p = s.len() as int;
            assert forall|j: int| 0 <= j < p implies !has_key(#[trigger] t[j], id, f) by {
                assert(t[j] == s[j]);
            }
            lemma_find_unique(t, id, f, p);
        },
    }
}

/// Saving a model leaves every entry with another key where it was.
pub proof fn law_save_keeps_others(s: Seq<StoredModel>, m: StoredModel, i: int)
    requires
        0 <= i < s.len(),
        !has_key(s[i], m.model_id@, m.filename@),
    ensures
        upsert(s, m)[i] == s[i],
        upsert(s, m).len() >= s.len(),
{
    lemma_find_entry(s, m.model_id@, m.filename@);
}

/// Saving the same model twice is the same as saving it once.
pub proof fn law_save_idempotent(s: Seq<StoredModel>, m: StoredModel)
    ensures
        upsert(upsert(s, m), m) == upsert(s, m),
{
    law_save_then_find(s, m);
    let t = upsert(s, m);
    let p = find_entry(t, m.model_id@, m.filename@)->0;
    lemma_find_entry(t, m.model_id@, m.filename@);
    assert(t.update(p, m) =~= t);
}

/// Saving and deleting keep keys unique.
pub proof fn law_keys_stay_unique(s: Seq<StoredModel>, m: StoredModel, id: Seq<char>, f: Seq<char>)
    requires
        unique_keys(s),
    ensures
        unique_keys(upsert(s, m)),
        unique_keys(remove_entry(s, id, f)),
{
    lemma_find_entry(s, m.model_id@, m.filename@);
    lemma_find_entry(s, id, f);
    let t = upsert(s, m);
    assert forall|i: int, j: int|
        0 <= i < t.len() && 0 <= j < t.len() && i != j implies !has_key(t[j], t[i].model_id@, t[i].filename@) by {
        if i < s.len() && j < s.len() {
        }
    }
    let r = remove_entry(s, id, f);
    match find_entry(s, id, f) {
        Some(p) => {
            assert forall|i: int, j: int|
                0 <= i < r.len() && 0 <= j < r.len() && i != j implies !has_key(r[j], r[i].model_id@, r[i].filename@) by {
                let si = if i < p { i } else { i + 1 };
                let sj = if j < p { j } else { j + 1 };
                assert(r[i] == s[si]);
                assert(r[j] == s[sj]);
            }
        },
        None => {},
    }
}

/// Saving a model under a new key and then deleting it leaves no entry with
/// that key and gives back the registry as it was.
pub proof fn law_delete_after_save(s: Seq<StoredModel>, m: StoredModel)
    requires
        find_entry(s, m.model_id@, m.filename@) is None,
    ensures
        find_entry(remove_entry(upsert(s, m), m.model_id@, m.filename@), m.model_id@, m.filename@) is None,
        remove_entry(upsert(s, m), m.model_id@, m.filename@) == s,
{
    let id = m.model_id@;
    let f = m.filename@;
    lemma_find_entry(s, id, f);
    law_save_then_find(s, m);
    let t = upsert(s, m);
    assert(t == s.push(m));
    lemma_find_unique(t, id, f, s.len() as int);
    assert(t.remove(s.len() as int) =~= s);
}

/// Deleting takes out exactly the first entry with the key and keeps all the
/// others in their order: entries before it stay where they were, entries
/// after it move up by one. Without such an entry nothing changes.
pub proof fn law_delete_keeps_order(s: Seq<StoredModel>, id: Seq<char>, f: Seq<char>)
    ensures
        forall|p: int|
            0 <= p < s.len() && has_key(#[trigger] s[p], id, f) && (forall|j: int| 0 <= j < p ==> !has_key(#[trigger] s[j], id, f))
            ==> {
                let r = remove_entry(s, id, f);
                &&& r.len() == s.len() - 1
                &&& forall|i: int| 0 <= i < p ==> #[trigger] r[i] == s[i]
                &&& forall|i: int| p <= i < r.len() ==> #[trigger] r[i] == s[i + 1]
            },
        (forall|j: int| 0 <= j < s.len() ==> !has_key(#[trigger] s[j], id, f)) ==> remove_entry(s, id, f) == s,
{
    lemma_find_entry(s, id, f);
    assert forall|p: int|
        0 <= p < s.len() && has_key(#[trigger] s[p], id, f) && (forall|j: int| 0 <= j < p ==> !has_key(#[trigger] s[j], id, f))
        implies {
            let r = remove_entry(s, id, f);
            &&& r.len() == s.len() - 1
            &&& forall|i: int| 0 <= i < p ==> #[trigger] r[i] == s[i]
            &&& forall|i: int| p <= i < r.len() ==> #[trigger] r[i] == s[i + 1]
        } by {
        lemma_find_unique(s, id, f, p);
    }
}

/// Deleting leaves no entry with the key when keys are unique, and keeps
/// every other entry in its order.
pub proof fn law_delete_removes_key(s: Seq<StoredModel>, id: Seq<char>, f: Seq<char>)
    requires
        unique_keys(s),
    ensures
        find_entry(remove_entry(s, id, f), id, f) is None,
        find_entry(s, id, f) is Some ==> remove_entry(s, id, f).len() == s.len() - 1,
{
    lemma_find_entry(s, id, f);
    let r = remove_entry(s, id, f);
    lemma_find_entry(r, id, f);
    match find_entry(s, id, f) {
        Some(p) => {
            if find_entry(r, id, f) is Some {
                let q = find_entry(r, id, f)->0;
                let sq = if q < p { q } else { q + 1 };
                assert(r[q] == s[sq]);
                assert(has_key(s[sq], s[p].model_id@, s[p].filename@));
            }
        },
        None => {},
    }
}

} // verus!
