//! Decisions behind the chat commands: which llama-server binary to try and
//! what follows each attempt, when the embedding server must be started,
//! how attachments and retrieved context are folded into the prompt, and how
//! the server's event stream is turned into tokens.

use vstd::prelude::*;

use crate::chat::server::{resolve_candidates, resolve_candidates_spec, Candidate, LaunchLoop};
use crate::chat::types::{AttachedFile, LoadedModelInfo, Message};
use crate::download::client::after_last_slash;
use crate::text::{
    chars_eq, chars_of, decimal, lines, lines_from, lines_seq, nl_offset, push_decimal, push_str,
    slice_chars, starts_with, starts_with_seq, str_eq, string_of, strip_cr, trim, trim_end,
    trim_end_seq, trim_seq, trim_start_seq,
};

verus! {

// ── Choosing the llama-server binary ─────────────────────────────────────────

/// Index of the first candidate whose sidecar name is `name`, at or after `i`.
pub open spec fn find_candidate_from(s: Seq<Candidate>, name: Seq<char>, i: int) -> Option<int>
    decreases s.len() - i,
{
    if i < 0 || i >= s.len() {
        None
    } else if s[i].name@ == name {
        Some(i)
    } else {
        find_candidate_from(s, name, i + 1)
    }
}

/// The candidate list with the binary that worked last time moved to the
/// front; unchanged when there is none or it is unknown.
pub open spec fn prefer_cached(s: Seq<Candidate>, cached: Option<Seq<char>>) -> Seq<Candidate> {
    match cached {
        None => s,
        Some(name) => match find_candidate_from(s, name, 0) {
            Some(p) => if p == 0 { s } else { seq![s[p]] + s.remove(p) },
            None => s,
        },
    }
}

proof fn lemma_find_candidate(s: Seq<Candidate>, name: Seq<char>, i: int)
    requires
        0 <= i,
    ensures
        find_candidate_from(s, name, i) matches Some(p) ==> i <= p < s.len() && s[p].name@ == name,
    decreases s.len() - i,
{
    if i < s.len() && s[i].name@ != name {
        lemma_find_candidate(s, name, i + 1);
    }
}

/// Both binaries, the one that succeeded last time first.
pub fn order_candidates(cached: Option<&str>) -> (v: Vec<Candidate>)
    ensures
        v@ == prefer_cached(resolve_candidates_spec(), match cached { Some(c) => Some(c@), None => None }),
{
    let mut v = resolve_candidates();
    let ghost s = v@;
    if let Some(name) = cached {
        let mut i: usize = 0;
        while i < v.len()
            invariant
                v@ == s,
                s == resolve_candidates_spec(),
                cached == Some(name),
                i <= v.len(),
                find_candidate_from(s, name@, 0) == find_candidate_from(s, name@, i as int),
            decreases v.len() - i,
        {
            if str_eq(v[i].name, name) {
                proof {
                    lemma_find_candidate(s, name@, i as int);
                }
                if i != 0 {
                    let preferred = v.remove(i);
                    v.insert(0, preferred);
                    assert(v@ =~= seq![s[i as int]] + s.remove(i as int));
                }
                return v;
            }
            i += 1;
        }
    }
    v
}

pub open spec fn backend_failure_spec(backend: Seq<char>, error: Seq<char>) -> Seq<char> {
    backend + " backend: "@ + error
}

pub open spec fn load_failure_spec(last_error: Seq<char>) -> Seq<char> {
    "Failed to start llama-server. Last error: "@ + last_error
}

/// Loading a model: the binaries are tried in turn until one passes its
/// health check. `active_bin` is the binary to prefer next time: it becomes
/// the one that worked, and is forgotten when the preferred binary fails its
/// health check.
pub struct ModelLoad {
    pub attempts: LaunchLoop,
    pub cached: Option<String>,
    pub active_bin: Option<String>,
}

impl ModelLoad {
    pub open spec fn current_spec(&self) -> Option<Candidate> {
        if self.attempts.next < self.attempts.candidates@.len() {
            Some(self.attempts.candidates@[self.attempts.next as int])
        } else {
            None
        }
    }

    /// Starts with the binary that worked last time, if any.
    pub fn new(cached: Option<String>) -> (l: Self)
        ensures
            l.attempts.candidates@ == prefer_cached(resolve_candidates_spec(), match cached { Some(c) => Some(c@), None => None }),
            l.attempts.next == 0,
            l.attempts.last_error@ == Seq::<char>::empty(),
            l.cached == cached,
            l.active_bin == cached,
    {
        let order = match &cached {
            Some(c) => order_candidates(Some(c.as_str())),
            None => order_candidates(None),
        };
        let active_bin = cached.clone();
        ModelLoad { attempts: LaunchLoop::new(order), cached, active_bin }
    }

    /// The binary to start now; `None` once all have failed.
    pub fn current(&self) -> (c: Option<Candidate>)
        ensures
            c == self.current_spec(),
    {
        self.attempts.current()
    }

    /// The current binary could not be started.
    pub fn spawn_failed(&mut self, error: String)
        requires
            old(self).current_spec() is Some,
        ensures
            final(self).attempts.candidates@ == old(self).attempts.candidates@,
            final(self).attempts.next == old(self).attempts.next + 1,
            final(self).attempts.last_error == error,
            final(self).cached == old(self).cached,
            final(self).active_bin == old(self).active_bin,
    {
        self.attempts.fail(error);
    }

    /// The current binary started but never became healthy.
    pub fn health_failed(&mut self, error: &str)
        requires
            old(self).current_spec() is Some,
        ensures
            final(self).attempts.candidates@ == old(self).attempts.candidates@,
            final(self).attempts.next == old(self).attempts.next + 1,
            final(self).attempts.last_error@ == backend_failure_spec(old(self).current_spec()->0.backend@, error@),
            final(self).cached == old(self).cached,
            final(self).active_bin == (if old(self).cached is Some && old(self).cached->0@ == old(self).current_spec()->0.name@ {
                None
            } else {
                old(self).active_bin
            }),
    {
        let c = self.attempts.candidates[self.attempts.next];
        let mut v: Vec<char> = Vec::new();
        push_str(&mut v, c.backend);
        push_str(&mut v, " backend: ");
        push_str(&mut v, error);
        self.attempts.fail(string_of(&v));
        let forget = match &self.cached {
            Some(name) => str_eq(name.as_str(), c.name),
            None => false,
        };
        if forget {
            self.active_bin = None;
        }
    }

    /// The current binary is healthy: it becomes the preferred one and the
    /// model is reported as loaded on its backend.
    pub fn loaded(&mut self, model_id: String, filename: String) -> (info: LoadedModelInfo)
        requires
            old(self).current_spec() is Some,
        ensures
            info.model_id == model_id,
            info.filename == filename,
            info.backend@ == old(self).current_spec()->0.backend@,
            final(self).active_bin matches Some(b) && b@ == old(self).current_spec()->0.name@,
            final(self).attempts == old(self).attempts,
            final(self).cached == old(self).cached,
    {
        let c = self.attempts.candidates[self.attempts.next];
        self.active_bin = Some(String::from_str(c.name));
        LoadedModelInfo { model_id, filename, backend: String::from_str(c.backend) }
    }

    /// Error once every binary failed.
    pub fn failure_message(&self) -> (m: String)
        ensures
            m@ == load_failure_spec(self.attempts.last_error@),
    {
        let mut v: Vec<char> = Vec::new();
        push_str(&mut v, "Failed to start llama-server. Last error: ");
        push_str(&mut v, self.attempts.last_error.as_str());
        string_of(&v)
    }
}

/// The binary that worked last time is tried first; every binary is kept.
pub proof fn law_cached_binary_first(s: Seq<Candidate>, name: Seq<char>)
    requires
        find_candidate_from(s, name, 0) is Some,
    ensures
        prefer_cached(s, Some(name))[0].name@ == name,
        prefer_cached(s, Some(name)).len() == s.len(),
        prefer_cached(s, Some(name)).to_multiset() == s.to_multiset(),
{
    lemma_find_candidate(s, name, 0);
    let p = find_candidate_from(s, name, 0)->0;
    if p != 0 {
        let r = seq![s[p]] + s.remove(p);
        vstd::seq_lib::lemma_multiset_commutative(seq![s[p]], s.remove(p));
        assert(r.to_multiset() == s.remove(p).to_multiset().insert(s[p])) by {
            vstd::seq_lib::lemma_seq_union_to_multiset_commutative(seq![s[p]], s.remove(p));
            assert(seq![s[p]].to_multiset() =~= vstd::multiset::Multiset::singleton(s[p])) by {
                broadcast use vstd::seq_lib::group_to_multiset_ensures;
                assert(seq![s[p]] =~= Seq::<Candidate>::empty().push(s[p]));
            }
        }
        broadcast use vstd::seq_lib::group_to_multiset_ensures;
        assert(s.remove(p).to_multiset() == s.to_multiset().remove(s[p]));
        assert(s.to_multiset().count(s[p]) > 0);
    }
}

// ── Embedding server ─────────────────────────────────────────────────────────

/// Directory of the bundled embedding model inside the resource directory.
pub const EMBEDDING_MODEL_DIR: &'static str = "models";

/// File of the bundled embedding model.
pub const EMBEDDING_MODEL_FILE: &'static str = "nomic-embed-text-v1.5.Q4_K_M.gguf";

/// What `ensure_embedding_server` has to do.
pub enum EmbeddingStep {
    /// The server answers: use it.
    Ready,
    /// Another request is starting it: wait until it is ready.
    WaitForStartup,
    /// Nothing runs yet: start it.
    Start,
}

pub fn embedding_step(ready: bool, server_present: bool) -> (s: EmbeddingStep)
    ensures
        ready ==> s is Ready,
        !ready && server_present ==> s is WaitForStartup,
        !ready && !server_present ==> s is Start,
{
    if ready {
        EmbeddingStep::Ready
    } else if server_present {
        EmbeddingStep::WaitForStartup
    } else {
        EmbeddingStep::Start
    }
}

pub open spec fn embedding_missing_spec(path: Seq<char>) -> Seq<char> {
    "Bundled embedding model not found at: "@ + path
        + ". Ensure 'models/nomic-embed-text-v1.5.Q4_K_M.gguf' is listed under 'bundle.resources' in tauri.conf.json."@
}

/// Error when the bundled embedding model file is missing.
pub fn embedding_model_missing_message(path: &str) -> (m: String)
    ensures
        m@ == embedding_missing_spec(path@),
{
    let mut v: Vec<char> = Vec::new();
    push_str(&mut v, "Bundled embedding model not found at: ");
    push_str(&mut v, path);
    push_str(&mut v, ". Ensure 'models/nomic-embed-text-v1.5.Q4_K_M.gguf' is listed under 'bundle.resources' in tauri.conf.json.");
    string_of(&v)
}

// ── Code files ───────────────────────────────────────────────────────────────

/// Index of the last `'.'` in `s`.
pub open spec fn last_dot(s: Seq<char>) -> Option<int>
    decreases s.len(),
{
    if s.len() == 0 {
        None
    } else if s.last() == '.' {
        Some(s.len() - 1)
    } else {
        last_dot(s.drop_last())
    }
}

/// `path` without trailing `/` separators and trailing `.` components, which
/// do not name a file.
pub open spec fn strip_tail(path: Seq<char>) -> Seq<char>
    decreases path.len(),
{
    if path.len() > 0 && path.last() == '/' {
        strip_tail(path.drop_last())
    } else if path.len() >= 2 && path.last() == '.' && path[path.len() - 2] == '/' {
        strip_tail(path.drop_last())
    } else {
        path
    }
}

/// The extension of a path, as `Path::extension` gives it on Unix: the file
/// name is the last component (trailing `/` and `.` components ignored); its
/// extension is the text after its last `'.'`, when that dot is not the
/// first character; `..` has none.
pub open spec fn extension_of(path: Seq<char>) -> Option<Seq<char>> {
    let name = after_last_slash(strip_tail(path));
    if name == seq!['.', '.'] {
        None
    } else {
        match last_dot(name) {
            Some(k) => if k == 0 { None } else { Some(name.subrange(k + 1, name.len() as int)) },
            None => None,
        }
    }
}

pub open spec fn code_extensions() -> Seq<Seq<char>> {
    seq!["rs"@, "py"@, "js"@, "ts"@, "go"@, "c"@, "cpp"@, "h"@]
}

pub open spec fn is_code_file_spec(filename: Seq<char>) -> bool {
    extension_of(filename) matches Some(e) && code_extensions().contains(e)
}

fn strip_tail_len(path: &[char]) -> (n: usize)
    ensures
        n <= path.len(),
        strip_tail(path@) == path@.subrange(0, n as int),
{
    let mut n: usize = path.len();
    assert(path@.subrange(0, n as int) =~= path@);
    loop
        invariant
            n <= path.len(),
            strip_tail(path@) == strip_tail(path@.subrange(0, n as int)),
        decreases n,
    {
        let ghost p = path@.subrange(0, n as int);
        if n > 0 && path[n - 1] == '/' {
            assert(p.drop_last() =~= path@.subrange(0, n - 1));
            n -= 1;
        } else if n >= 2 && path[n - 1] == '.' && path[n - 2] == '/' {
            assert(p.drop_last() =~= path@.subrange(0, n - 1));
            n -= 1;
        } else {
            return n;
        }
    }
}

fn extension(path: &[char]) -> (r: Option<Vec<char>>)
    ensures
        r matches Some(e) ==> extension_of(path@) == Some(e@),
        r is None ==> extension_of(path@) is None,
{
    let n = strip_tail_len(path);
    let stripped = slice_chars(path, 0, n);
    let name = crate::download::client::last_segment(stripped.as_slice());
    if name.len() == 2 && name[0] == '.' && name[1] == '.' {
        assert(name@ =~= seq!['.', '.']);
        return None;
    }
    let mut j: usize = name.len();
    assert(name@.subrange(0, name.len() as int) =~= name@);
    while j > 0 && name[j - 1] != '.'
        invariant
            j <= name.len(),
            last_dot(name@) == last_dot(name@.subrange(0, j as int)),
        decreases j,
    {
        assert(name@.subrange(0, j as int).drop_last() =~= name@.subrange(0, j - 1));
        j -= 1;
    }
    if j == 0 {
        assert(name@.subrange(0, 0) =~= Seq::<char>::empty());
        return None;
    }
    assert(last_dot(name@.subrange(0, j as int)) == Some(j - 1));
    if j == 1 {
        return None;
    }
    Some(slice_chars(name.as_slice(), j, name.len()))
}

/// Whether `filename` has a source-code extension, in which case large
/// attachments are split along code structure.
pub fn is_code_file(filename: &str) -> (b: bool)
    ensures
        b == is_code_file_spec(filename@),
{
    let cs = chars_of(filename);
    match extension(cs.as_slice()) {
        None => false,
        Some(ext) => {
            let exts: [&str; 8] = ["rs", "py", "js", "ts", "go", "c", "cpp", "h"];
            let mut i: usize = 0;
            while i < 8
                invariant
                    i <= 8,
                    exts@ == seq!["rs", "py", "js", "ts", "go", "c", "cpp", "h"],
                    extension_of(filename@) == Some(ext@),
                    forall|k: int| 0 <= k < i ==> code_extensions()[k] != ext@,
                decreases 8 - i,
            {
                let cand = chars_of(exts[i]);
                if chars_eq(ext.as_slice(), cand.as_slice()) {
                    assert(code_extensions()[i as int] == ext@);
                    return true;
                }
                i += 1;
            }
            assert(!code_extensions().contains(ext@));
            false
        },
    }
}

// ── Server-sent events of a streamed completion ──────────────────────────────

/// The string at `doc[outer][index][middle][inner]` when `text` parses as
/// JSON, as serde_json's parser and indexing compute it.
pub uninterp spec fn json_string_at(text: Seq<char>, outer: Seq<char>, index: nat, middle: Seq<char>, inner: Seq<char>) -> Option<Seq<char>>;

pub open spec fn opt_string_view(o: Option<String>) -> Option<Seq<char>> {
    match o {
        Some(s) => Some(s@),
        None => None,
    }
}

/// Parses `text` with `serde_json::from_str::<Value>` and reads the string at
/// `[outer][index][middle][inner]` with `Value`'s indexing and `as_str`
/// (indexing answers `Null` for a missing key or index, never panics).
/// Nothing is claimed of the result beyond its being that function of the
/// arguments.
#[verifier::external_body]
fn json_path_str(text: &str, outer: &str, index: usize, middle: &str, inner: &str) -> (r: Option<String>)
    ensures
        opt_string_view(r) == json_string_at(text@, outer@, index as nat, middle@, inner@),
{
    match serde_json::from_str::<serde_json::Value>(text) {
        Ok(doc) => doc[outer][index][middle][inner].as_str().map(|s| s.to_string()),
        Err(_) => None,
    }
}

/// The generated text carried by one completion chunk:
/// `choices[0].delta.content`.
pub open spec fn delta_content(data: Seq<char>) -> Option<Seq<char>> {
    json_string_at(data, "choices"@, 0, "delta"@, "content"@)
}

/// The payload of an event-stream line `data: <payload>`, trimmed.
pub open spec fn line_data(line: Seq<char>) -> Option<Seq<char>> {
    if starts_with_seq(line, "data: "@) {
        Some(trim_seq(line.subrange("data: "@.len() as int, line.len() as int)))
    } else {
        None
    }
}

pub open spec fn is_done_line(line: Seq<char>) -> bool {
    line_data(line) == Some("[DONE]"@)
}

/// The token a line contributes: a non-empty delta content.
pub open spec fn line_token(line: Seq<char>) -> Option<Seq<char>> {
    match line_data(line) {
        Some(d) => if d == "[DONE]"@ {
            None
        } else {
            match delta_content(d) {
                Some(c) => if c.len() > 0 { Some(c) } else { None },
                None => None,
            }
        },
        None => None,
    }
}

/// Tokens of `lines` in order up to the first `[DONE]`, and whether that
/// marker was seen.
pub open spec fn sse_tokens(lines: Seq<Seq<char>>) -> (Seq<Seq<char>>, bool)
    decreases lines.len(),
{
    if lines.len() == 0 {
        (Seq::empty(), false)
    } else if is_done_line(lines[0]) {
        (Seq::empty(), true)
    } else {
        let rest = sse_tokens(lines.drop_first());
        match line_token(lines[0]) {
            Some(t) => (seq![t] + rest.0, rest.1),
            None => rest,
        }
    }
}

/// Nothing after `[DONE]` is emitted: the tokens of a chunk are those of
/// the lines before the marker, and the stream is reported finished.
pub proof fn law_done_ends_stream(a: Seq<Seq<char>>, d: Seq<char>, b: Seq<Seq<char>>)
    requires
        is_done_line(d),
        forall|i: int| 0 <= i < a.len() ==> !is_done_line(#[trigger] a[i]),
    ensures
        sse_tokens(a + seq![d] + b) == (sse_tokens(a).0, true),
    decreases a.len(),
{
    let x = a + seq![d] + b;
    if a.len() == 0 {
        assert(x[0] == d);
    } else {
        assert(x[0] == a[0]);
        assert(x.drop_first() =~= a.drop_first() + seq![d] + b);
        assert forall|i: int| 0 <= i < a.drop_first().len() implies !is_done_line(#[trigger] a.drop_first()[i]) by {
            assert(a.drop_first()[i] == a[i + 1]);
        }
        law_done_ends_stream(a.drop_first(), d, b);
    }
}

proof fn lemma_nl_offset_in_line(l: Seq<char>, i: int)
    requires
        0 <= i <= l.len(),
        forall|j: int| 0 <= j < l.len() ==> l[j] != '\n',
    ensures
        nl_offset(l + seq!['\n'], i) == l.len() - i,
    decreases l.len() - i,
{
    if i < l.len() {
        lemma_nl_offset_in_line(l, i + 1);
    }
}

/// Every non-empty delta content is emitted as one token, whatever
/// characters it holds (newlines and spaces included): a chunk made of the
/// single line `data: <payload>`, whose JSON object payload has the string
/// `c` at `choices[0].delta.content`, yields exactly `[c]` and does not end
/// the stream.
pub proof fn law_content_is_token(d: Seq<char>, c: Seq<char>)
    requires
        d.len() > 0,
        d[0] == '{',
        d.last() == '}',
        forall|j: int| 0 <= j < d.len() ==> d[j] != '\n',
        json_string_at(d, "choices"@, 0, "delta"@, "content"@) == Some(c),
        c.len() > 0,
    ensures
        sse_tokens(lines_seq("data: "@ + d + "\n"@)) == (seq![c], false),
{
    reveal_strlit("data: ");
    reveal_strlit("\n");
    reveal_strlit("[DONE]");
    let l = "data: "@ + d;
    let text = l + "\n"@;
    assert(text =~= l + seq!['\n']);
    assert forall|j: int| 0 <= j < l.len() implies l[j] != '\n' by {
        if j >= 6 {
            assert(l[j] == d[j - 6]);
        }
    }
    lemma_nl_offset_in_line(l, 0);
    assert(text.subrange(0, l.len() as int) =~= l);
    assert(l.last() == '}');
    assert(strip_cr(l) == l);
    assert(lines_from(text, (l.len() + 1) as int) =~= Seq::<Seq<char>>::empty());
    assert(lines_seq(text) =~= seq![l]);
    assert(l.subrange(0, 6) =~= "data: "@);
    assert(l.subrange(6, l.len() as int) =~= d);
    assert(trim_start_seq(d) == d);
    assert(trim_end_seq(d) == d);
    assert(line_data(l) == Some(d));
    assert(d != "[DONE]"@) by {
        assert("[DONE]"@[0] == '[');
    }
    assert(!is_done_line(l));
    assert(delta_content(d) == Some(c));
    assert(line_token(l) == Some(c));
    let ls = seq![l];
    assert(ls[0] == l);
    assert(ls.drop_first() =~= Seq::<Seq<char>>::empty());
    assert(sse_tokens(ls.drop_first()) == (Seq::<Seq<char>>::empty(), false));
    assert(seq![c] + Seq::<Seq<char>>::empty() =~= seq![c]);
    assert(sse_tokens(ls) == (seq![c], false));
}

/// Lines are read independently: before any `[DONE]`, the tokens of two runs
/// of lines are those of the first followed by those of the second.
pub proof fn law_tokens_concatenate(a: Seq<Seq<char>>, b: Seq<Seq<char>>)
    requires
        forall|i: int| 0 <= i < a.len() ==> !is_done_line(#[trigger] a[i]),
    ensures
        sse_tokens(a + b) == (sse_tokens(a).0 + sse_tokens(b).0, sse_tokens(b).1),
    decreases a.len(),
{
    if a.len() == 0 {
        assert(a + b =~= b);
        assert(sse_tokens(a).0 + sse_tokens(b).0 =~= sse_tokens(b).0);
    } else {
        assert((a + b)[0] == a[0]);
        assert((a + b).drop_first() =~= a.drop_first() + b);
        assert forall|i: int| 0 <= i < a.drop_first().len() implies !is_done_line(#[trigger] a.drop_first()[i]) by {
            assert(a.drop_first()[i] == a[i + 1]);
        }
        law_tokens_concatenate(a.drop_first(), b);
        assert(!is_done_line(a[0]));
        match line_token(a[0]) {
            Some(t) => {
                assert(seq![t] + (sse_tokens(a.drop_first()).0 + sse_tokens(b).0) =~= (seq![t] + sse_tokens(a.drop_first()).0)
                    + sse_tokens(b).0);
            },
            None => {},
        }
    }
}

/// What one received chunk of the event stream yields.
pub struct SseChunk {
    /// Text to emit as `local-chat-token` events, in order.
    pub tokens: Vec<String>,
    /// The stream announced its end with `[DONE]`.
    pub done: bool,
}

pub open spec fn string_views(v: Seq<String>) -> Seq<Seq<char>> {
    v.map_values(|s: String| s@)
}

/// Reads the lines of one received chunk: `data: ` lines carry a JSON
/// completion chunk whose non-empty `choices[0].delta.content` is a token;
/// `data: [DONE]` ends the stream; other lines are ignored.
pub fn process_sse_text(text: &str) -> (r: SseChunk)
    ensures
        (string_views(r.tokens@), r.done) == sse_tokens(lines_seq(text@)),
{
    let cs = chars_of(text);
    let ls = lines(cs.as_slice());
    let ghost all = lines_seq(text@);
    let prefix = chars_of("data: ");
    let done_marker = chars_of("[DONE]");
    let mut tokens: Vec<String> = Vec::new();
    let mut k: usize = 0;
    assert(all.subrange(0, all.len() as int) =~= all);
    while k < ls.len()
        invariant
            k <= ls.len(),
            all == lines_seq(text@),
            ls@.len() == all.len(),
            forall|j: int| 0 <= j < ls@.len() ==> #[trigger] ls@[j]@ == all[j],
            prefix@ == "data: "@,
            done_marker@ == "[DONE]"@,
            sse_tokens(all).1 == sse_tokens(all.subrange(k as int, all.len() as int)).1,
            sse_tokens(all).0 == string_views(tokens@) + sse_tokens(all.subrange(k as int, all.len() as int)).0,
        decreases ls.len() - k,
    {
        let line = &ls[k];
        let ghost rest = all.subrange(k as int, all.len() as int);
        assert(rest.drop_first() =~= all.subrange(k + 1, all.len() as int));
        assert(rest[0] == line@);
        if starts_with(line.as_slice(), prefix.as_slice()) {
            let payload = slice_chars(line.as_slice(), prefix.len(), line.len());
            let data = trim(payload.as_slice());
            assert(line_data(line@) == Some(data@));
            if chars_eq(data.as_slice(), done_marker.as_slice()) {
                assert(sse_tokens(all).0 =~= string_views(tokens@));
                return SseChunk { tokens, done: true };
            }
            let data_str = string_of(&data);
            let content = json_path_str(data_str.as_str(), "choices", 0, "delta", "content");
            match content {
                Some(c) => {
                    if !c.as_str().is_empty() {
                        let ghost before = tokens@;
                        tokens.push(c);
                        assert(string_views(tokens@) =~= string_views(before).push(c@));
                        assert(sse_tokens(all).0 =~= string_views(tokens@) + sse_tokens(all.subrange(k + 1, all.len() as int)).0);
                    }
                },
                None => {},
            }
        }
        k += 1;
    }
    assert(all.subrange(k as int, all.len() as int) =~= Seq::<Seq<char>>::empty());
    assert(sse_tokens(all).0 =~= string_views(tokens@));
    SseChunk { tokens, done: false }
}

// ── Prompt assembly ──────────────────────────────────────────────────────────

/// Shown when a chat starts without a loaded model.
pub const NO_MODEL_LOADED: &'static str = "No local model is loaded.";

/// Files with fewer characters than this are put into the prompt verbatim;
/// longer ones go through retrieval.
pub const DIRECT_INJECT_CHAR_LIMIT: usize = 40_000;

pub open spec fn is_user(m: Message) -> bool {
    m.role@ == "user"@
}

/// Index of the last message with role `user`.
pub open spec fn last_user(s: Seq<Message>) -> Option<int>
    decreases s.len(),
{
    if s.len() == 0 {
        None
    } else if is_user(s.last()) {
        Some(s.len() - 1)
    } else {
        last_user(s.drop_last())
    }
}

/// `last_user` finds the last message with role `user`, and `None` means
/// there is none.
pub proof fn lemma_last_user(s: Seq<Message>)
    ensures
        last_user(s) matches Some(i) ==> 0 <= i < s.len() && is_user(s[i])
            && forall|j: int| i < j < s.len() ==> !is_user(#[trigger] s[j]),
        last_user(s) is None ==> forall|j: int| 0 <= j < s.len() ==> !is_user(#[trigger] s[j]),
    decreases s.len(),
{
    if s.len() > 0 && !is_user(s.last()) {
        lemma_last_user(s.drop_last());
        assert forall|j: int| 0 <= j < s.len() - 1 implies s.drop_last()[j] == #[trigger] s[j] by {}
    }
}

/// Position of the last user message.
pub fn last_user_index(messages: &Vec<Message>) -> (r: Option<usize>)
    ensures
        r matches Some(i) ==> last_user(messages@) == Some(i as int),
        r is None ==> last_user(messages@) is None,
{
    let mut i: usize = messages.len();
    let ghost s = messages@;
    assert(s.subrange(0, s.len() as int) =~= s);
    while i > 0
        invariant
            i <= messages.len(),
            s == messages@,
            last_user(s) == last_user(s.subrange(0, i as int)),
        decreases i,
    {
        let ghost p = s.subrange(0, i as int);
        if str_eq(messages[i - 1].role.as_str(), "user") {
            assert(p.last() == s[i - 1]);
            return Some(i - 1);
        }
        assert(p.drop_last() =~= s.subrange(0, i - 1));
        i -= 1;
    }
    assert(s.subrange(0, 0) =~= Seq::<Message>::empty());
    None
}

pub open spec fn no_user_message_spec() -> Seq<char> {
    "No user message found"@
}

/// The text of the last user message: the query for retrieval.
pub fn user_query(messages: &Vec<Message>) -> (r: Result<String, String>)
    ensures
        r matches Ok(q) ==> last_user(messages@) is Some && q == messages@[last_user(messages@)->0].content,
        r matches Err(e) ==> last_user(messages@) is None && e@ == no_user_message_spec(),
{
    proof {
        lemma_last_user(messages@);
    }
    match last_user_index(messages) {
        Some(i) => Ok(messages[i].content.clone()),
        None => Err(String::from_str("No user message found")),
    }
}

pub open spec fn with_content(m: Message, content: String) -> Message {
    Message { content, ..m }
}

fn replace_content(messages: &mut Vec<Message>, i: usize, content: String)
    requires
        i < old(messages)@.len(),
    ensures
        final(messages)@ == old(messages)@.update(i as int, with_content(old(messages)@[i as int], content)),
{
    let m = messages.remove(i);
    let updated = Message { role: m.role, content, attachments: m.attachments };
    messages.insert(i, updated);
    assert(final(messages)@ =~= old(messages)@.update(i as int, with_content(old(messages)@[i as int], content)));
}

/// Puts a retrieval-enhanced prompt in place of the last message, when that
/// message is from the user; otherwise nothing changes.
pub fn apply_rag_prompt(messages: &mut Vec<Message>, prompt: String)
    ensures
        old(messages)@.len() > 0 && is_user(old(messages)@.last()) ==> final(messages)@ == old(messages)@.update(
            old(messages)@.len() - 1,
            with_content(old(messages)@.last(), prompt),
        ),
        !(old(messages)@.len() > 0 && is_user(old(messages)@.last())) ==> final(messages)@ == old(messages)@,
{
    let n = messages.len();
    if n > 0 && str_eq(messages[n - 1].role.as_str(), "user") {
        replace_content(messages, n - 1, prompt);
    }
}

/// Verbatim section for a small attached file.
pub open spec fn file_section(f: AttachedFile) -> Seq<char> {
    "### File: `"@ + f.name@ + "` ("@ + f.file_type@ + ")\n```\n"@ + f.content@ + "\n```\n\n"@
}

/// A file is small when it has fewer characters than the limit.
pub open spec fn is_small(f: AttachedFile) -> bool {
    f.content@.len() < DIRECT_INJECT_CHAR_LIMIT
}

/// Sections of the small files among `s`, in order.
pub open spec fn direct_context_spec(s: Seq<AttachedFile>) -> Seq<char>
    decreases s.len(),
{
    if s.len() == 0 {
        Seq::empty()
    } else if is_small(s.last()) {
        direct_context_spec(s.drop_last()) + file_section(s.last())
    } else {
        direct_context_spec(s.drop_last())
    }
}

/// Positions of the large files among `s`, in order.
pub open spec fn large_files_spec(s: Seq<AttachedFile>) -> Seq<usize>
    decreases s.len(),
{
    if s.len() == 0 {
        Seq::empty()
    } else if is_small(s.last()) {
        large_files_spec(s.drop_last())
    } else {
        large_files_spec(s.drop_last()).push((s.len() - 1) as usize)
    }
}

/// Small attachments are put into the prompt in full, under a header with
/// their name and type; the positions of the large ones are returned for
/// chunking and ranking.
pub fn split_attachments(attachments: &Vec<AttachedFile>) -> (r: (String, Vec<usize>))
    ensures
        r.0@ == direct_context_spec(attachments@),
        r.1@ == large_files_spec(attachments@),
{
    let mut ctx: Vec<char> = Vec::new();
    let mut large: Vec<usize> = Vec::new();
    let mut i: usize = 0;
    while i < attachments.len()
        invariant
            i <= attachments.len(),
            ctx@ == direct_context_spec(attachments@.subrange(0, i as int)),
            large@ == large_files_spec(attachments@.subrange(0, i as int)),
        decreases attachments.len() - i,
    {
        let f = &attachments[i];
        let ghost p = attachments@.subrange(0, i + 1);
        assert(p.drop_last() =~= attachments@.subrange(0, i as int));
        assert(p.last() == *f);
        let chars = chars_of(f.content.as_str());
        if chars.len() < DIRECT_INJECT_CHAR_LIMIT {
            push_str(&mut ctx, "### File: `");
            push_str(&mut ctx, f.name.as_str());
            push_str(&mut ctx, "` (");
            push_str(&mut ctx, f.file_type.as_str());
            push_str(&mut ctx, ")\n```\n");
            push_str(&mut ctx, f.content.as_str());
            push_str(&mut ctx, "\n```\n\n");
            assert(ctx@ =~= direct_context_spec(attachments@.subrange(0, i as int)) + file_section(*f));
        } else {
            large.push(i);
        }
        i += 1;
    }
    assert(attachments@.subrange(0, i as int) =~= attachments@);
    (string_of(&ctx), large)
}

proof fn lemma_direct_context_prefix(s: Seq<AttachedFile>, j: int)
    requires
        0 <= j <= s.len(),
    ensures
        direct_context_spec(s.subrange(0, j)).len() <= direct_context_spec(s).len(),
        direct_context_spec(s).subrange(0, direct_context_spec(s.subrange(0, j)).len() as int)
            == direct_context_spec(s.subrange(0, j)),
    decreases s.len() - j,
{
    if j == s.len() {
        assert(s.subrange(0, j) =~= s);
        assert(direct_context_spec(s).subrange(0, direct_context_spec(s).len() as int) =~= direct_context_spec(s));
    } else {
        lemma_direct_context_prefix(s, j + 1);
        let p = s.subrange(0, j + 1);
        assert(p.drop_last() =~= s.subrange(0, j));
        let dj = direct_context_spec(s.subrange(0, j));
        let dj1 = direct_context_spec(p);
        let all = direct_context_spec(s);
        assert(dj1.subrange(0, dj.len() as int) =~= dj);
        assert(all.subrange(0, dj.len() as int) =~= dj1.subrange(0, dj.len() as int));
    }
}

/// Every small attachment reaches the prompt in full: its whole content
/// occurs in the direct context, whatever the question is.
pub proof fn law_small_file_in_context(s: Seq<AttachedFile>, i: int)
    requires
        0 <= i < s.len(),
        is_small(s[i]),
    ensures
        crate::text::contains_seq(direct_context_spec(s), s[i].content@),
{
    lemma_direct_context_prefix(s, i + 1);
    let p = s.subrange(0, i + 1);
    assert(p.drop_last() =~= s.subrange(0, i));
    assert(p.last() == s[i]);
    let f = s[i];
    let before = direct_context_spec(s.subrange(0, i));
    let head = "### File: `"@ + f.name@ + "` ("@ + f.file_type@ + ")\n```\n"@;
    let tail = "\n```\n\n"@;
    assert(file_section(f) =~= head + f.content@ + tail);
    let dp = direct_context_spec(p);
    assert(dp =~= before + head + f.content@ + tail);
    let k: int = (before.len() + head.len()) as int;
    let all = direct_context_spec(s);
    assert(all.subrange(0, dp.len() as int) == dp);
    assert(all.subrange(k, k + f.content@.len() as int) =~= f.content@) by {
        assert forall|t: int| 0 <= t < f.content@.len() implies all.subrange(k, k + f.content@.len() as int)[t] == f.content@[t] by {
            assert(all[k + t] == all.subrange(0, dp.len() as int)[k + t]);
            assert(dp[k + t] == f.content@[t]);
        }
    }
}

/// The files set aside for retrieval are exactly the ones that are not small.
pub proof fn law_large_files_exact(s: Seq<AttachedFile>, k: usize)
    requires
        s.len() <= usize::MAX,
    ensures
        large_files_spec(s).contains(k) <==> (k < s.len() && !is_small(s[k as int])),
    decreases s.len(),
{
    if s.len() > 0 {
        law_large_files_exact(s.drop_last(), k);
        if k < s.len() - 1 {
            assert(s.drop_last()[k as int] == s[k as int]);
        }
        if !is_small(s.last()) {
            let l = large_files_spec(s.drop_last());
            assert(large_files_spec(s) == l.push((s.len() - 1) as usize));
            vstd::seq_lib::lemma_seq_contains_after_push(l, (s.len() - 1) as usize, k);
        }
        if k == s.len() - 1 && is_small(s.last()) {
            // k is not among the earlier positions, which are all below it
            assert(!large_files_spec(s.drop_last()).contains(k)) by {
                lemma_large_files_below(s.drop_last());
            }
        }
    }
}

proof fn lemma_large_files_below(s: Seq<AttachedFile>)
    requires
        s.len() <= usize::MAX,
    ensures
        forall|w: int| 0 <= w < large_files_spec(s).len() ==> (#[trigger] large_files_spec(s)[w]) < s.len(),
    decreases s.len(),
{
    if s.len() > 0 {
        lemma_large_files_below(s.drop_last());
        let l = large_files_spec(s.drop_last());
        assert forall|w: int| 0 <= w < large_files_spec(s).len() implies (#[trigger] large_files_spec(s)[w]) < s.len() by {
            if w < l.len() {
                assert(large_files_spec(s)[w] == l[w]);
            }
        }
    }
}

pub open spec fn tagged_chunk_spec(name: Seq<char>, chunk: Seq<char>) -> Seq<char> {
    "["@ + name + "]\n"@ + chunk
}

/// A chunk of a large file, tagged with the file's name.
pub fn tag_chunk(file_name: &str, chunk: &str) -> (t: String)
    ensures
        t@ == tagged_chunk_spec(file_name@, chunk@),
{
    let mut v: Vec<char> = Vec::new();
    push_str(&mut v, "[");
    push_str(&mut v, file_name);
    push_str(&mut v, "]\n");
    push_str(&mut v, chunk);
    string_of(&v)
}

pub open spec fn excerpt_spec(i: nat, chunk: Seq<char>) -> Seq<char> {
    "[Excerpt "@ + decimal(i + 1) + "]\n"@ + chunk + "\n\n"@
}

pub open spec fn excerpts_from(chunks: Seq<Seq<char>>) -> Seq<char>
    decreases chunks.len(),
{
    if chunks.len() == 0 {
        Seq::empty()
    } else {
        excerpts_from(chunks.drop_last()) + excerpt_spec((chunks.len() - 1) as nat, chunks.last())
    }
}

/// Context from the best-ranked excerpts, numbered from 1; empty when there
/// are none.
pub open spec fn excerpts_context_spec(chunks: Seq<Seq<char>>) -> Seq<char> {
    if chunks.len() == 0 {
        Seq::empty()
    } else {
        "### Relevant excerpts from large attached files\n\n"@ + excerpts_from(chunks)
    }
}

/// Formats the ranked excerpts of large attachments (already cut to the
/// best `top_k`).
pub fn excerpts_context(chunks: &Vec<String>) -> (c: String)
    ensures
        c@ == excerpts_context_spec(string_views(chunks@)),
{
    let mut v: Vec<char> = Vec::new();
    if chunks.len() == 0 {
        return string_of(&v);
    }
    push_str(&mut v, "### Relevant excerpts from large attached files\n\n");
    let ghost head = v@;
    let ghost all = string_views(chunks@);
    let mut i: usize = 0;
    while i < chunks.len()
        invariant
            i <= chunks.len(),
            all == string_views(chunks@),
            v@ == head + excerpts_from(all.subrange(0, i as int)),
        decreases chunks.len() - i,
    {
        assert(all.subrange(0, i + 1).drop_last() =~= all.subrange(0, i as int));
        assert(all[i as int] == chunks@[i as int]@);
        push_str(&mut v, "[Excerpt ");
        push_decimal(&mut v, (i as u64) + 1);
        push_str(&mut v, "]\n");
        push_str(&mut v, chunks[i].as_str());
        push_str(&mut v, "\n\n");
        assert(v@ =~= head + excerpts_from(all.subrange(0, i + 1)));
        i += 1;
    }
    assert(all.subrange(0, i as int) =~= all);
    string_of(&v)
}

pub open spec fn enhanced_prompt_spec(context: Seq<char>, query: Seq<char>) -> Seq<char> {
    trim_end_seq(context) + "\n---\nUser question: "@ + query
}

/// Folds the attachment context into the conversation: when the combined
/// context (small files, excerpts, stored documents) is not blank, the last
/// user message becomes that context followed by the question. Returns
/// whether context was added.
pub fn add_attachment_context(messages: &mut Vec<Message>, direct: &str, excerpts: &str, stored: &str, query: &str) -> (found: bool)
    ensures
        found == (trim_seq(direct@ + excerpts@ + stored@).len() > 0),
        found && last_user(old(messages)@) is Some ==> final(messages)@ == old(messages)@.update(
            last_user(old(messages)@)->0,
            with_content(old(messages)@[last_user(old(messages)@)->0], final(messages)@[last_user(old(messages)@)->0].content),
        ) && final(messages)@[last_user(old(messages)@)->0].content@ == enhanced_prompt_spec(direct@ + excerpts@ + stored@, query@),
        !(found && last_user(old(messages)@) is Some) ==> final(messages)@ == old(messages)@,
{
    let mut combined: Vec<char> = Vec::new();
    push_str(&mut combined, direct);
    push_str(&mut combined, excerpts);
    push_str(&mut combined, stored);
    let trimmed = trim(combined.as_slice());
    if trimmed.len() == 0 {
        return false;
    }
    let mut prompt = trim_end(combined.as_slice());
    push_str(&mut prompt, "\n---\nUser question: ");
    push_str(&mut prompt, query);
    let prompt_string = string_of(&prompt);
    proof {
        lemma_last_user(messages@);
    }
    match last_user_index(messages) {
        Some(i) => {
            replace_content(messages, i, prompt_string);
        },
        None => {},
    }
    true
}

/// The conversation as sent to llama-server: only `role` and `content` of
/// each message; attachments never reach the wire.
pub fn chat_request_messages(messages: &Vec<Message>) -> (r: Vec<(String, String)>)
    ensures
        r@.len() == messages@.len(),
        forall|i: int| 0 <= i < r@.len() ==> #[trigger] r@[i] == (messages@[i].role, messages@[i].content),
{
    let mut r: Vec<(String, String)> = Vec::new();
    let mut i: usize = 0;
    while i < messages.len()
        invariant
            i <= messages.len(),
            r@.len() == i,
            forall|j: int| 0 <= j < i ==> #[trigger] r@[j] == (messages@[j].role, messages@[j].content),
        decreases messages.len() - i,
    {
        r.push((messages[i].role.clone(), messages[i].content.clone()));
        i += 1;
    }
    r
}

pub open spec fn server_error_spec(status: u16, body: Seq<char>) -> Seq<char> {
    "llama-server error "@ + decimal(status as nat) + ": "@ + body
}

/// Error for a non-2xx answer of llama-server, with its body.
pub fn server_error_message(status: u16, body: &str) -> (m: String)
    ensures
        m@ == server_error_spec(status, body@),
{
    let mut v: Vec<char> = Vec::new();
    push_str(&mut v, "llama-server error ");
    push_decimal(&mut v, status as u64);
    push_str(&mut v, ": ");
    push_str(&mut v, body);
    assert(v@ =~= server_error_spec(status, body@));
    string_of(&v)
}

} // verus!
