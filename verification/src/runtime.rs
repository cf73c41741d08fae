//! The inference side: chat messages, the ChatML prompt given to
//! llama.cpp, the completion read back from its console output, and the
//! mock runtime.

use vstd::prelude::*;
use crate::pem::{is_whitespace, spec_trim, trim_text};
use crate::text::push_decimal;

verus! {

/// One chat message.
#[derive(Debug, Clone, PartialEq, Eq)]
pub struct Message {
    pub role: String,
    pub content: String,
}

/// Mathematical model of [`Message`].
pub struct MessageView {
    pub role: Seq<char>,
    pub content: Seq<char>,
}

impl View for Message {
    type V = MessageView;

    open spec fn view(&self) -> MessageView {
        MessageView { role: self.role@, content: self.content@ }
    }
}

pub open spec fn messages_view(m: Seq<Message>) -> Seq<MessageView> {
    m.map_values(|x: Message| x@)
}

/// What an inference produced.
#[derive(Debug, Clone, PartialEq, Eq)]
pub struct InferenceResult {
    pub content: String,
    pub tokens_generated: u32,
}

/// Which model and runtime answered.
#[derive(Debug, Clone, PartialEq, Eq)]
pub struct RuntimeMetadata {
    pub model: String,
    pub runtime: String,
    pub version: String,
    pub quantization: Option<String>,
}

/// One choice of a chat completion.
#[derive(Debug, Clone, PartialEq, Eq)]
pub struct Choice {
    pub index: u32,
    pub message: Message,
    pub finish_reason: String,
}

/// Token accounting of a chat completion.
#[derive(Debug, Clone, PartialEq, Eq)]
pub struct Usage {
    pub prompt_tokens: u32,
    pub completion_tokens: u32,
    pub total_tokens: u32,
}

/// An OpenAI-style chat completion, with the receipt's verification.
#[derive(Debug, Clone, PartialEq, Eq)]
pub struct ChatCompletionResponse {
    pub id: String,
    pub object: String,
    pub created: u64,
    pub model: String,
    pub choices: Vec<Choice>,
    pub usage: Usage,
    pub verification: Option<crate::types::VerificationResult>,
}

/// Why an inference failed.
#[derive(Debug, Clone, PartialEq, Eq)]
pub enum RuntimeError {
    ModelLoadFailed(String),
    InferenceFailed(String),
    OutOfMemory,
    InvalidContext(String),
    NotImplemented(String),
}

/// Mathematical model of [`RuntimeError`].
pub enum RuntimeErrorView {
    ModelLoadFailed(Seq<char>),
    InferenceFailed(Seq<char>),
    OutOfMemory,
    InvalidContext(Seq<char>),
    NotImplemented(Seq<char>),
}

impl View for RuntimeError {
    type V = RuntimeErrorView;

    open spec fn view(&self) -> RuntimeErrorView {
        match self {
            RuntimeError::ModelLoadFailed(s) => RuntimeErrorView::ModelLoadFailed(s@),
            RuntimeError::InferenceFailed(s) => RuntimeErrorView::InferenceFailed(s@),
            RuntimeError::OutOfMemory => RuntimeErrorView::OutOfMemory,
            RuntimeError::InvalidContext(s) => RuntimeErrorView::InvalidContext(s@),
            RuntimeError::NotImplemented(s) => RuntimeErrorView::NotImplemented(s@),
        }
    }
}

/// The message of a runtime error.
pub open spec fn spec_runtime_message(e: RuntimeErrorView) -> Seq<char> {
    match e {
        RuntimeErrorView::ModelLoadFailed(s) => "Failed to load model weights: "@ + s,
        RuntimeErrorView::InferenceFailed(s) => "Inference execution failed: "@ + s,
        RuntimeErrorView::OutOfMemory => "Out of memory on the device"@,
        RuntimeErrorView::InvalidContext(s) => "Invalid request or prompt structure: "@ + s,
        RuntimeErrorView::NotImplemented(s) => "Feature not implemented: "@ + s,
    }
}

impl RuntimeError {
    /// The error's message.
    pub fn message(&self) -> (r: String)
        ensures
            r@ == spec_runtime_message(self@),
    {
        match self {
            RuntimeError::ModelLoadFailed(s) => String::from_str("Failed to load model weights: ").concat(s.as_str()),
            RuntimeError::InferenceFailed(s) => String::from_str("Inference execution failed: ").concat(s.as_str()),
            RuntimeError::OutOfMemory => String::from_str("Out of memory on the device"),
            RuntimeError::InvalidContext(s) => String::from_str("Invalid request or prompt structure: ").concat(s.as_str()),
            RuntimeError::NotImplemented(s) => String::from_str("Feature not implemented: ").concat(s.as_str()),
        }
    }
}

/// The ChatML turns of the messages, one after the other.
pub open spec fn spec_turns(m: Seq<MessageView>) -> Seq<char>
    decreases m.len(),
{
    if m.len() == 0 {
        Seq::empty()
    } else {
        spec_turns(m.drop_last()) + "<|im_start|>"@ + m.last().role + "\n"@ + m.last().content
            + "<|im_end|>\n"@
    }
}

/// The ChatML prompt for a conversation, ending with an open assistant
/// turn.  There must be at least one message, and no role may be blank.
pub open spec fn spec_prompt(m: Seq<MessageView>) -> Result<Seq<char>, RuntimeErrorView> {
    if m.len() == 0 {
        Err(RuntimeErrorView::InvalidContext("at least one message is required"@))
    } else if exists|i: int| 0 <= i < m.len() && spec_trim(#[trigger] m[i].role).len() == 0 {
        Err(RuntimeErrorView::InvalidContext("message roles must not be empty"@))
    } else {
        Ok(spec_turns(m) + "<|im_start|>assistant\n"@)
    }
}

/// `true` if `s[i..]` starts with `pat`.
pub open spec fn occurs_at(s: Seq<char>, pat: Seq<char>, i: int) -> bool {
    0 <= i && i + pat.len() <= s.len() && s.subrange(i, i + pat.len()) == pat
}

/// Index of the first occurrence of `pat` in `s`.
#[verifier::opaque]
pub open spec fn spec_find(s: Seq<char>, pat: Seq<char>) -> Option<int> {
    if exists|i: int| occurs_at(s, pat, i) {
        Some(choose|i: int| occurs_at(s, pat, i) && forall|j: int| 0 <= j < i ==> !occurs_at(s, pat, j))
    } else {
        None
    }
}

/// Index of the last occurrence of `pat` in `s`.
#[verifier::opaque]
pub open spec fn spec_rfind(s: Seq<char>, pat: Seq<char>) -> Option<int> {
    if exists|i: int| occurs_at(s, pat, i) {
        Some(choose|i: int| occurs_at(s, pat, i) && forall|j: int| i < j ==> !occurs_at(s, pat, j))
    } else {
        None
    }
}

/// The console output after the last prompt echo (`\n> `) and the blank
/// line that follows it, where those are present.
pub open spec fn after_prompt(s: Seq<char>) -> Seq<char> {
    match spec_rfind(s, "\n> "@) {
        Some(p) => {
            let t = s.skip(p + 3);
            match spec_find(t, "\n\n"@) {
                Some(c) => t.skip(c + 2),
                None => t,
            }
        },
        None => s,
    }
}

/// `s` up to the first occurrence of `pat`, or all of it.
pub open spec fn before(s: Seq<char>, pat: Seq<char>) -> Seq<char> {
    match spec_find(s, pat) {
        Some(i) => s.take(i),
        None => s,
    }
}

/// The completion in llama.cpp console output: what follows the prompt
/// echo, without the timing report and exit notice, trimmed.
pub open spec fn spec_extract_completion(raw: Seq<char>) -> Seq<char> {
    spec_trim(before(before(after_prompt(raw), "\n\n[ Prompt:"@), "\n\nExiting..."@))
}

/// The number of words: maximal runs of characters other than white space.
pub open spec fn spec_word_count(s: Seq<char>) -> nat
    decreases s.len(),
{
    if s.len() == 0 {
        0
    } else {
        spec_word_count(s.drop_last()) + if !is_whitespace(s.last()) && (s.len() == 1
            || is_whitespace(s[s.len() - 2])) {
            1nat
        } else {
            0nat
        }
    }
}

/// Whether two pieces, put one after the other, join a word across the
/// seam: both are non-empty and neither side of the seam is white space.
pub open spec fn joins_word(x: Seq<char>, y: Seq<char>) -> bool {
    x.len() > 0 && y.len() > 0 && !is_whitespace(x.last()) && !is_whitespace(y[0])
}

proof fn lemma_word_count_concat(x: Seq<char>, y: Seq<char>)
    ensures
        spec_word_count(x + y) + (if joins_word(x, y) { 1nat } else { 0nat }) == spec_word_count(x)
            + spec_word_count(y),
    decreases y.len(),
{
    if y.len() == 0 {
        assert(x + y =~= x);
    } else {
        let y1 = y.drop_last();
        lemma_word_count_concat(x, y1);
        assert((x + y).drop_last() =~= x + y1);
        assert((x + y).last() == y.last());
        if y.len() == 1 {
            assert(y1 =~= Seq::<char>::empty());
            assert(x + y1 =~= x);
            if x.len() > 0 {
                assert((x + y)[(x + y).len() - 2] == x.last());
            }
            assert(y[0] == y.last());
        } else {
            assert((x + y)[(x + y).len() - 2] == y[y.len() - 2]);
            assert(y1[0] == y[0]);
        }
    }
}

/// White space separates words: a white-space character between two
/// pieces of text (a newline as much as a space) splits them, so the words
/// of the whole are the words of the one piece and of the other.
pub proof fn lemma_word_count_splits_at_whitespace(a: Seq<char>, c: char, b: Seq<char>)
    requires
        is_whitespace(c),
    ensures
        spec_word_count(a + seq![c] + b) == spec_word_count(a) + spec_word_count(b),
{
    assert((a + seq![c]).drop_last() =~= a);
    assert(spec_word_count(a + seq![c]) == spec_word_count(a));
    lemma_word_count_concat(a + seq![c], b);
}

/// A non-empty run of characters with no white space is one word.
pub proof fn lemma_word_count_one_word(a: Seq<char>)
    requires
        a.len() > 0,
        forall|i: int| 0 <= i < a.len() ==> !is_whitespace(#[trigger] a[i]),
    ensures
        spec_word_count(a) == 1,
    decreases a.len(),
{
    assert(!is_whitespace(a[a.len() - 1]));
    if a.len() > 1 {
        let a1 = a.drop_last();
        assert forall|i: int| 0 <= i < a1.len() implies !is_whitespace(#[trigger] a1[i]) by {
            assert(a1[i] == a[i]);
        }
        lemma_word_count_one_word(a1);
        assert(!is_whitespace(a[a.len() - 2]));
        assert(spec_word_count(a) == spec_word_count(a1));
    } else {
        assert(a.drop_last() =~= Seq::<char>::empty());
        assert(spec_word_count(a.drop_last()) == 0);
        assert(!is_whitespace(a.last()));
    }
}

/// White space alone holds no words.
pub proof fn lemma_word_count_blank(a: Seq<char>)
    requires
        forall|i: int| 0 <= i < a.len() ==> is_whitespace(#[trigger] a[i]),
    ensures
        spec_word_count(a) == 0,
    decreases a.len(),
{
    if a.len() > 0 {
        let a1 = a.drop_last();
        assert forall|i: int| 0 <= i < a1.len() implies is_whitespace(#[trigger] a1[i]) by {
            assert(a1[i] == a[i]);
        }
        lemma_word_count_blank(a1);
        assert(is_whitespace(a[a.len() - 1]));
    }
}

} // verus!

verus! {

/// Builds the ChatML prompt for a conversation.
pub fn build_prompt(messages: &Vec<Message>) -> (r: Result<String, RuntimeError>)
    ensures
        match r {
            Ok(p) => spec_prompt(messages_view(messages@)) == Ok::<Seq<char>, RuntimeErrorView>(p@),
            Err(e) => spec_prompt(messages_view(messages@)) == Err::<Seq<char>, RuntimeErrorView>(e@),
        },
{
    let ghost m = messages_view(messages@);
    if messages.len() == 0 {
        return Err(RuntimeError::InvalidContext(String::from_str("at least one message is required")));
    }
    let mut prompt = String::new();
    let mut i: usize = 0;
    assert(m.take(0) =~= Seq::<MessageView>::empty());
    while i < messages.len()
        invariant
            i <= messages@.len(),
            m == messages_view(messages@),
            prompt@ == spec_turns(m.take(i as int)),
            forall|j: int| 0 <= j < i ==> spec_trim(#[trigger] m[j].role).len() != 0,
        decreases messages.len() - i,
    {
        let msg = &messages[i];
        let role = trim_text(msg.role.as_str());
        if role.unicode_len() == 0 {
            assert(spec_trim(m[i as int].role).len() == 0);
            return Err(RuntimeError::InvalidContext(String::from_str("message roles must not be empty")));
        }
        prompt.append("<|im_start|>");
        prompt.append(msg.role.as_str());
        prompt.append("\n");
        prompt.append(msg.content.as_str());
        prompt.append("<|im_end|>\n");
        assert(m.take(i + 1).drop_last() =~= m.take(i as int));
        assert(m.take(i + 1).last() == m[i as int]);
        i = i + 1;
    }
    assert(m.take(messages.len() as int) =~= m);
    prompt.append("<|im_start|>assistant\n");
    Ok(prompt)
}

fn to_chars(s: &str) -> (r: Vec<char>)
    ensures
        r@ == s@,
{
    let n = s.unicode_len();
    let mut out: Vec<char> = Vec::new();
    let mut i: usize = 0;
    while i < n
        invariant
            n == s@.len(),
            i <= n,
            out@ == s@.take(i as int),
        decreases n - i,
    {
        out.push(s.get_char(i));
        assert(out@ =~= s@.take(i + 1));
        i = i + 1;
    }
    assert(out@ =~= s@);
    out
}

fn matches_at(s: &Vec<char>, from: usize, to: usize, pat: &Vec<char>, i: usize) -> (r: bool)
    requires
        from <= to <= s@.len(),
    ensures
        r == occurs_at(s@.subrange(from as int, to as int), pat@, i as int),
{
    let ghost t = s@.subrange(from as int, to as int);
    if i > to - from || pat.len() > to - from - i {
        return false;
    }
    let mut k: usize = 0;
    while k < pat.len()
        invariant
            from <= to <= s@.len(),
            t == s@.subrange(from as int, to as int),
            i + pat@.len() <= t.len(),
            k <= pat@.len(),
            forall|j: int| 0 <= j < k ==> t[i + j] == pat@[j],
        decreases pat.len() - k,
    {
        if s[from + i + k] != pat[k] {
            assert(t.subrange(i as int, i + pat@.len())[k as int] != pat@[k as int]);
            return false;
        }
        k = k + 1;
    }
    assert(t.subrange(i as int, i + pat@.len()) =~= pat@);
    true
}

/// First occurrence of `pat` in `s[from..to]`, relative to `from`.
fn find_in(s: &Vec<char>, from: usize, to: usize, pat: &Vec<char>) -> (r: Option<usize>)
    requires
        from <= to <= s@.len(),
    ensures
        match r {
            Some(i) => spec_find(s@.subrange(from as int, to as int), pat@) == Some(i as int)
                && occurs_at(s@.subrange(from as int, to as int), pat@, i as int),
            None => spec_find(s@.subrange(from as int, to as int), pat@) is None,
        },
{
    let ghost t = s@.subrange(from as int, to as int);
    let len = to - from;
    let mut i: usize = 0;
    while i < len
        invariant
            from <= to <= s@.len(),
            len == to - from,
            t == s@.subrange(from as int, to as int),
            i <= len,
            forall|j: int| 0 <= j < i ==> !occurs_at(t, pat@, j),
        decreases len - i,
    {
        if matches_at(s, from, to, pat, i) {
            proof {
                lemma_first(t, pat@, i as int);
            }
            return Some(i);
        }
        i = i + 1;
    }
    if matches_at(s, from, to, pat, len) {
        proof {
            lemma_first(t, pat@, len as int);
        }
        return Some(len);
    }
    assert forall|j: int| !occurs_at(t, pat@, j) by {
        if 0 <= j && j < len {
        }
    }
    proof {
        reveal(spec_find);
    }
    None
}

proof fn lemma_first(t: Seq<char>, pat: Seq<char>, i: int)
    requires
        occurs_at(t, pat, i),
        forall|j: int| 0 <= j < i ==> !occurs_at(t, pat, j),
    ensures
        spec_find(t, pat) == Some(i),
{
    reveal(spec_find);
    let w = choose|w: int| occurs_at(t, pat, w) && forall|j: int| 0 <= j < w ==> !occurs_at(t, pat, j);
    assert(occurs_at(t, pat, w) && forall|j: int| 0 <= j < w ==> !occurs_at(t, pat, j));
    if w < i {
        assert(!occurs_at(t, pat, w));
    }
    if w > i {
        assert(!occurs_at(t, pat, i));
    }
}

proof fn lemma_last(t: Seq<char>, pat: Seq<char>, i: int)
    requires
        occurs_at(t, pat, i),
        forall|j: int| i < j ==> !occurs_at(t, pat, j),
    ensures
        spec_rfind(t, pat) == Some(i),
{
    reveal(spec_rfind);
    let w = choose|w: int| occurs_at(t, pat, w) && forall|j: int| w < j ==> !occurs_at(t, pat, j);
    assert(occurs_at(t, pat, w) && forall|j: int| w < j ==> !occurs_at(t, pat, j));
    if w < i {
        assert(!occurs_at(t, pat, i));
    }
    if w > i {
        assert(!occurs_at(t, pat, w));
    }
}

/// Last occurrence of `pat` in `s[from..to]`, relative to `from`.
fn rfind_in(s: &Vec<char>, from: usize, to: usize, pat: &Vec<char>) -> (r: Option<usize>)
    requires
        from <= to <= s@.len(),
    ensures
        match r {
            Some(i) => spec_rfind(s@.subrange(from as int, to as int), pat@) == Some(i as int)
                && occurs_at(s@.subrange(from as int, to as int), pat@, i as int),
            None => spec_rfind(s@.subrange(from as int, to as int), pat@) is None,
        },
{
    let ghost t = s@.subrange(from as int, to as int);
    let len = to - from;
    if matches_at(s, from, to, pat, len) {
        proof {
            lemma_last(t, pat@, len as int);
        }
        return Some(len);
    }
    let mut i: usize = len;
    while i > 0
        invariant
            from <= to <= s@.len(),
            len == to - from,
            t == s@.subrange(from as int, to as int),
            i <= len,
            forall|j: int| i <= j ==> !occurs_at(t, pat@, j),
        decreases i,
    {
        if matches_at(s, from, to, pat, i - 1) {
            proof {
                lemma_last(t, pat@, i - 1);
            }
            return Some(i - 1);
        }
        i = i - 1;
    }
    assert forall|j: int| !occurs_at(t, pat@, j) by {
        if j >= 0 {
        }
    }
    proof {
        reveal(spec_rfind);
    }
    None
}

/// Where the completion starts: after the last prompt echo and the blank
/// line that follows it.
fn completion_start(s: &Vec<char>) -> (from: usize)
    ensures
        from <= s@.len(),
        s@.subrange(from as int, s@.len() as int) == after_prompt(s@),
{
    let n = s.len();
    let ghost sv = s@;
    assert(sv.subrange(0, n as int) =~= sv);
    let prompt_pat = to_chars("\n> ");
    let blank_pat = to_chars("\n\n");
    match rfind_in(s, 0, n, &prompt_pat) {
        Some(p) => {
            proof {
                reveal_strlit("\n> ");
            }
            let from = p + 3;
            assert(sv.skip(p + 3) =~= sv.subrange(from as int, n as int));
            match find_in(s, from, n, &blank_pat) {
                Some(c) => {
                    proof {
                        reveal_strlit("\n\n");
                    }
                    assert(sv.subrange(from as int, n as int).skip(c + 2) =~= sv.subrange(
                        from + c + 2,
                        n as int,
                    ));
                    from + c + 2
                },
                None => from,
            }
        },
        None => 0,
    }
}

/// Where `s[from..to]` ends when cut before the first `pat`.
fn cut_before(s: &Vec<char>, from: usize, to: usize, pat: &Vec<char>) -> (end: usize)
    requires
        from <= to <= s@.len(),
    ensures
        from <= end <= to,
        s@.subrange(from as int, end as int) == before(s@.subrange(from as int, to as int), pat@),
{
    match find_in(s, from, to, pat) {
        Some(t) => {
            assert(s@.subrange(from as int, to as int).take(t as int) =~= s@.subrange(
                from as int,
                from + t,
            ));
            from + t
        },
        None => to,
    }
}

/// The completion in llama.cpp console output: what follows the prompt
/// echo, without the timing report and exit notice, trimmed.
pub fn extract_completion(raw_output: &str) -> (r: String)
    ensures
        r@ == spec_extract_completion(raw_output@),
{
    let s = to_chars(raw_output);
    let n = s.len();
    let from = completion_start(&s);
    let to = cut_before(&s, from, n, &to_chars("\n\n[ Prompt:"));
    let to = cut_before(&s, from, to, &to_chars("\n\nExiting..."));
    let body = raw_output.substring_char(from, to);
    trim_text(body)
}

/// The number of words in a text.
pub fn word_count(s: &str) -> (r: u64)
    ensures
        r == spec_word_count(s@),
{
    let n = s.unicode_len();
    let mut count: u64 = 0;
    let mut i: usize = 0;
    let mut prev_ws = true;
    assert(s@.take(0) =~= Seq::<char>::empty());
    while i < n
        invariant
            n == s@.len(),
            i <= n,
            count == spec_word_count(s@.take(i as int)),
            count <= i,
            prev_ws == (i == 0 || is_whitespace(s@[i - 1])),
        decreases n - i,
    {
        let c = s.get_char(i);
        let ws = crate::pem::char_is_whitespace_pub(c);
        assert(s@.take(i + 1).drop_last() =~= s@.take(i as int));
        assert(s@.take(i + 1).last() == c);
        if !ws && prev_ws {
            count = count + 1;
        }
        prev_ws = ws;
        i = i + 1;
    }
    assert(s@.take(n as int) =~= s@);
    count
}

/// What llama.cpp's console output yields: the trimmed completion and its
/// word count, or an error when it is empty.
pub fn completion_result(raw_output: &str) -> (r: Result<InferenceResult, RuntimeError>)
    ensures
        match r {
            Ok(res) => {
                &&& res.content@ == spec_extract_completion(raw_output@)
                &&& res.content@.len() > 0
                &&& res.tokens_generated == spec_word_count(res.content@) as u32
            },
            Err(e) => spec_extract_completion(raw_output@).len() == 0 && e@
                == RuntimeErrorView::InferenceFailed("llama-cli returned an empty completion"@),
        },
{
    let content = extract_completion(raw_output);
    if content.unicode_len() == 0 {
        return Err(RuntimeError::InferenceFailed(String::from_str("llama-cli returned an empty completion")));
    }
    let words = word_count(content.as_str());
    Ok(InferenceResult { tokens_generated: words as u32, content })
}

/// A runtime that runs llama.cpp's `llama-cli` on a GGUF model.
#[derive(Debug, Clone)]
pub struct LlamaCppRuntime {
    pub binary_path: String,
    pub model_path: String,
    pub max_tokens: u32,
    pub context_size: u32,
}

impl LlamaCppRuntime {
    /// A runtime for the model, with `llama-cli` from the search path, 256
    /// tokens and a context of 4096.
    pub fn new(model_path: String) -> (r: Self)
        ensures
            r.binary_path@ == "llama-cli"@,
            r.model_path@ == model_path@,
            r.max_tokens == 256,
            r.context_size == 4096,
    {
        LlamaCppRuntime {
            binary_path: String::from_str("llama-cli"),
            model_path,
            max_tokens: 256,
            context_size: 4096,
        }
    }

    /// A runtime for the model with the given `llama-cli` binary.
    pub fn with_binary(model_path: String, binary_path: String) -> (r: Self)
        ensures
            r.binary_path@ == binary_path@,
            r.model_path@ == model_path@,
            r.max_tokens == 256,
            r.context_size == 4096,
    {
        let base = Self::new(model_path);
        LlamaCppRuntime { binary_path, ..base }
    }

    /// The ChatML prompt for a conversation.
    pub fn prompt(messages: &Vec<Message>) -> (r: Result<String, RuntimeError>)
        ensures
            match r {
                Ok(p) => spec_prompt(messages_view(messages@)) == Ok::<Seq<char>, RuntimeErrorView>(p@),
                Err(e) => spec_prompt(messages_view(messages@)) == Err::<Seq<char>, RuntimeErrorView>(e@),
            },
    {
        build_prompt(messages)
    }

    /// The command-line arguments for one completion of `prompt` at the
    /// given temperature (already formatted).
    pub fn arguments(&self, prompt: String, temperature: String) -> (r: Vec<String>)
        ensures
            r@.len() == 15,
            r@[0]@ == "-m"@,
            r@[1]@ == self.model_path@,
            r@[2]@ == "-p"@,
            r@[3]@ == prompt@,
            r@[4]@ == "-n"@,
            r@[5]@ == crate::text::spec_decimal(self.max_tokens as nat),
            r@[6]@ == "--ctx-size"@,
            r@[7]@ == crate::text::spec_decimal(self.context_size as nat),
            r@[8]@ == "--temp"@,
            r@[9]@ == temperature@,
            r@[10]@ == "--no-conversation"@,
            r@[11]@ == "--single-turn"@,
            r@[12]@ == "--simple-io"@,
            r@[13]@ == "--no-display-prompt"@,
            r@[14]@ == "--no-show-timings"@,
    {
        let mut n = String::new();
        push_decimal(&mut n, self.max_tokens as u64);
        let mut c = String::new();
        push_decimal(&mut c, self.context_size as u64);
        let mut args: Vec<String> = Vec::new();
        args.push(String::from_str("-m"));
        args.push(self.model_path.clone());
        args.push(String::from_str("-p"));
        args.push(prompt);
        args.push(String::from_str("-n"));
        args.push(n);
        args.push(String::from_str("--ctx-size"));
        args.push(c);
        args.push(String::from_str("--temp"));
        args.push(temperature);
        args.push(String::from_str("--no-conversation"));
        args.push(String::from_str("--single-turn"));
        args.push(String::from_str("--simple-io"));
        args.push(String::from_str("--no-display-prompt"));
        args.push(String::from_str("--no-show-timings"));
        args
    }

    /// The runtime's metadata.
    pub fn metadata(&self) -> (r: RuntimeMetadata)
        ensures
            r.model@ == "llama-3-8b-gguf"@,
            r.runtime@ == "llama.cpp"@,
            r.version@ == "0.1.0"@,
            r.quantization matches Some(q) && q@ == "Q4_K_M"@,
    {
        RuntimeMetadata {
            model: String::from_str("llama-3-8b-gguf"),
            runtime: String::from_str("llama.cpp"),
            version: String::from_str("0.1.0"),
            quantization: Some(String::from_str("Q4_K_M")),
        }
    }

    /// The runtime's identifier.
    pub fn id(&self) -> (r: &'static str)
        ensures
            r@ == "llama_cpp"@,
    {
        "llama_cpp"
    }
}

/// The prompt that the mock runtime answers: the last message's content, or
/// `hello` for an empty conversation.
pub open spec fn spec_mock_reply(m: Seq<MessageView>) -> Seq<char> {
    "VeriAI response: "@ + if m.len() == 0 {
        "hello"@
    } else {
        m.last().content
    }
}

/// A runtime that answers without a model.
#[derive(Debug, Clone, Copy)]
pub struct MockRuntime {}

impl MockRuntime {
    pub fn new() -> (r: Self) {
        MockRuntime {}
    }

    /// Echoes the last message, claiming 15 tokens.
    pub fn generate(&self, messages: &Vec<Message>) -> (r: Result<InferenceResult, RuntimeError>)
        ensures
            r matches Ok(res) && res.content@ == spec_mock_reply(messages_view(messages@))
                && res.tokens_generated == 15,
    {
        let content = if messages.len() == 0 {
            String::from_str("VeriAI response: ").concat("hello")
        } else {
            let last = &messages[messages.len() - 1];
            String::from_str("VeriAI response: ").concat(last.content.as_str())
        };
        Ok(InferenceResult { content, tokens_generated: 15 })
    }

    /// The runtime's metadata.
    pub fn metadata(&self) -> (r: RuntimeMetadata)
        ensures
            r.model@ == "llama-3-8b-mock"@,
            r.runtime@ == "mock-runtime"@,
            r.version@ == "0.1.0"@,
            r.quantization matches Some(q) && q@ == "Q4_K_M"@,
    {
        RuntimeMetadata {
            model: String::from_str("llama-3-8b-mock"),
            runtime: String::from_str("mock-runtime"),
            version: String::from_str("0.1.0"),
            quantization: Some(String::from_str("Q4_K_M")),
        }
    }

    /// The runtime's identifier.
    pub fn id(&self) -> (r: &'static str)
        ensures
            r@ == "mock_runtime"@,
    {
        "mock_runtime"
    }
}

} // verus!
