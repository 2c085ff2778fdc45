//! What the HTTP front end computes itself: the streaming form of a complete
//! response.
use vstd::prelude::*;
use crate::clock::now_unix_secs;
use crate::converter::opt_view;
use crate::models::{ChatCompletionChunk, ChatCompletionResponse, ChunkChoice, Delta};
use crate::text::{clone_opt, is_whitespace, is_ws, push_char, views};

verus! {

/// The words of `s`: its maximal runs of characters other than white space,
/// in order (as `str::split_whitespace` gives them).
pub open spec fn words(s: Seq<char>) -> Seq<Seq<char>>
    decreases s.len(),
{
    if s.len() == 0 {
        Seq::empty()
    } else {
        let w = words(s.drop_last());
        let c = s.last();
        if is_ws(c) {
            w
        } else if s.len() >= 2 && !is_ws(s[s.len() - 2]) {
            w.update(w.len() - 1, w.last().push(c))
        } else {
            w.push(seq![c])
        }
    }
}

proof fn lemma_words_nonempty(s: Seq<char>)
    requires
        s.len() > 0,
        !is_ws(s.last()),
    ensures
        words(s).len() > 0,
    decreases s.len(),
{
    if s.len() >= 2 && !is_ws(s[s.len() - 2]) {
        assert(s.drop_last().last() == s[s.len() - 2]);
        lemma_words_nonempty(s.drop_last());
    }
}

/// Splits `s` at white space into its words.
pub fn split_whitespace(s: &str) -> (v: Vec<String>)
    ensures
        views(v@) == words(s@),
{
    let n = s.unicode_len();
    let mut v: Vec<String> = Vec::new();
    let mut cur = String::new();
    let mut in_word = false;
    let mut i: usize = 0;
    while i < n
        invariant
            i <= n,
            n == s@.len(),
            in_word == (i > 0 && !is_ws(s@[i - 1])),
            in_word ==> words(s@.take(i as int)).len() > 0,
            in_word ==> views(v@).push(cur@) == words(s@.take(i as int)),
            !in_word ==> views(v@) == words(s@.take(i as int)),
        decreases n - i,
    {
        let c = s.get_char(i);
        let ghost pre = s@.take(i as int);
        let ghost t = s@.take(i + 1);
        assert(t.drop_last() =~= pre);
        assert(t.last() == c);
        if is_whitespace(c) {
            if in_word {
                let ghost before = v@;
                v.push(cur);
                assert(views(v@) =~= views(before).push(cur@));
                cur = String::new();
                in_word = false;
            }
        } else {
            if in_word {
                assert(t[t.len() - 2] == s@[i - 1]);
                let ghost w = words(pre);
                push_char(&mut cur, c);
                assert(views(v@).push(cur@) =~= w.update(w.len() - 1, w.last().push(c)));
            } else {
                assert(i > 0 ==> t[t.len() - 2] == s@[i - 1]);
                cur = String::new();
                push_char(&mut cur, c);
                assert(views(v@).push(cur@) =~= words(pre).push(seq![c]));
                in_word = true;
            }
            proof { lemma_words_nonempty(t); }
        }
        i = i + 1;
    }
    assert(s@.take(n as int) =~= s@);
    if in_word {
        let ghost before = v@;
        v.push(cur);
        assert(views(v@) =~= views(before).push(cur@));
    }
    v
}

/// `ch` is a chunk of the response `id`/`model`, created at `created`, whose
/// one choice has this delta (no tool calls) and finish reason.
pub open spec fn stream_chunk(ch: ChatCompletionChunk, id: Seq<char>, model: Seq<char>, created: i64,
    role: Option<Seq<char>>, content: Option<Seq<char>>, finish: Option<Seq<char>>) -> bool {
    &&& ch.id@ == id
    &&& ch.object@ == "chat.completion.chunk"@
    &&& ch.created == created
    &&& ch.model@ == model
    &&& ch.system_fingerprint is None
    &&& ch.choices@.len() == 1
    &&& ch.choices@[0].index == 0
    &&& ch.choices@[0].logprobs is None
    &&& opt_view(ch.choices@[0].delta.role) == role
    &&& opt_view(ch.choices@[0].delta.content) == content
    &&& ch.choices@[0].delta.tool_calls is None
    &&& opt_view(ch.choices@[0].finish_reason) == finish
}

/// The closing chunk of a stream: no choice at all.
pub open spec fn done_chunk(ch: ChatCompletionChunk, id: Seq<char>, model: Seq<char>, created: i64) -> bool {
    &&& ch.id@ == id
    &&& ch.object@ == "chat.completion.chunk"@
    &&& ch.created == created
    &&& ch.model@ == model
    &&& ch.system_fingerprint is None
    &&& ch.choices@.len() == 0
}

/// `chunks` stream the response `r`, created at `created`: when it has a
/// choice, one chunk announcing the first choice's role, one per word of its
/// content (the word and a space), and one with its finish reason; then a
/// closing chunk without choices.
pub open spec fn streamed(chunks: Seq<ChatCompletionChunk>, r: ChatCompletionResponse, created: i64) -> bool {
    let id = r.id@;
    let model = r.model@;
    if r.choices@.len() == 0 {
        chunks.len() == 1 && done_chunk(chunks[0], id, model, created)
    } else {
        let c = r.choices@[0];
        let ws = match c.message.content {
            Some(t) => words(t@),
            None => Seq::empty(),
        };
        &&& chunks.len() == ws.len() + 3
        &&& stream_chunk(chunks[0], id, model, created, Some(c.message.role@), None, None)
        &&& forall|k: int| 0 <= k < ws.len() ==>
            stream_chunk(#[trigger] chunks[k + 1], id, model, created, None, Some(ws[k] + " "@), None)
        &&& stream_chunk(chunks[ws.len() + 1int], id, model, created, None, None, opt_view(c.finish_reason))
        &&& done_chunk(chunks[ws.len() + 2int], id, model, created)
    }
}

fn chunk_at(id: &String, model: &String, created: i64, choices: Vec<ChunkChoice>) -> (ch: ChatCompletionChunk)
    ensures
        ch.id@ == id@,
        ch.object@ == "chat.completion.chunk"@,
        ch.created == created,
        ch.model@ == model@,
        ch.system_fingerprint is None,
        ch.choices == choices,
{
    ChatCompletionChunk {
        id: id.clone(),
        object: String::from_str("chat.completion.chunk"),
        created,
        model: model.clone(),
        choices,
        system_fingerprint: None,
    }
}

fn one_choice(role: Option<String>, content: Option<String>, finish: Option<String>) -> (v: Vec<ChunkChoice>)
    ensures
        v@.len() == 1,
        v@[0].index == 0,
        v@[0].logprobs is None,
        v@[0].delta.role == role,
        v@[0].delta.content == content,
        v@[0].delta.tool_calls is None,
        v@[0].finish_reason == finish,
{
    let mut v: Vec<ChunkChoice> = Vec::new();
    v.push(ChunkChoice { index: 0, delta: Delta { role, content, tool_calls: None }, finish_reason: finish, logprobs: None });
    v
}

/// The complete response as a stream of chunks created at `created` (see
/// `streamed`).
pub fn convert_response_to_chunks_at(response: ChatCompletionResponse, created: i64) -> (chunks: Vec<ChatCompletionChunk>)
    ensures
        streamed(chunks@, response, created),
{
    let mut chunks: Vec<ChatCompletionChunk> = Vec::new();
    if response.choices.len() > 0 {
        let c = &response.choices[0];
        chunks.push(chunk_at(&response.id, &response.model, created,
            one_choice(Some(c.message.role.clone()), None, None)));
        let ws: Vec<String> = match &c.message.content {
            Some(t) => split_whitespace(t.as_str()),
            None => Vec::new(),
        };
        let ghost wsv = views(ws@);
        let mut k: usize = 0;
        while k < ws.len()
            invariant
                k <= ws@.len(),
                wsv == views(ws@),
                chunks@.len() == k + 1,
                stream_chunk(chunks@[0], response.id@, response.model@, created, Some(c.message.role@), None, None),
                forall|j: int| 0 <= j < k ==>
                    stream_chunk(#[trigger] chunks@[j + 1], response.id@, response.model@, created, None, Some(wsv[j] + " "@), None),
            decreases ws@.len() - k,
        {
            let mut piece = ws[k].clone();
            piece.append(" ");
            chunks.push(chunk_at(&response.id, &response.model, created, one_choice(None, Some(piece), None)));
            k = k + 1;
        }
        chunks.push(chunk_at(&response.id, &response.model, created,
            one_choice(None, None, clone_opt(&c.finish_reason))));
    }
    chunks.push(chunk_at(&response.id, &response.model, created, Vec::new()));
    chunks
}

/// The complete response as a stream of chunks created now.
pub fn convert_response_to_chunks(response: ChatCompletionResponse) -> (chunks: Vec<ChatCompletionChunk>)
    ensures
        exists|created: i64| #[trigger] streamed(chunks@, response, created),
{
    let created = now_unix_secs();
    convert_response_to_chunks_at(response, created)
}

// ============================================================================
// What a client puts together
// ============================================================================

/// A word: not empty, and without white space.
pub open spec fn is_word(w: Seq<char>) -> bool {
    w.len() > 0 && forall|i: int| 0 <= i < w.len() ==> !is_ws(#[trigger] w[i])
}

/// Text at a word boundary: empty, or ending in white space.
pub open spec fn at_boundary(s: Seq<char>) -> bool {
    s.len() == 0 || is_ws(s.last())
}

/// The words, each followed by a space.
pub open spec fn spaced(ws: Seq<Seq<char>>) -> Seq<char>
    decreases ws.len(),
{
    if ws.len() == 0 {
        Seq::empty()
    } else {
        spaced(ws.drop_last()) + ws.last() + " "@
    }
}

/// The content of a chunk's first choice (empty without one).
pub open spec fn chunk_text(ch: ChatCompletionChunk) -> Seq<char> {
    if ch.choices@.len() > 0 {
        match ch.choices@[0].delta.content {
            Some(c) => c@,
            None => Seq::empty(),
        }
    } else {
        Seq::empty()
    }
}

/// What a client reading the stream puts together: the chunks' contents, in
/// order.
pub open spec fn stream_text(chunks: Seq<ChatCompletionChunk>) -> Seq<char>
    decreases chunks.len(),
{
    if chunks.len() == 0 {
        Seq::empty()
    } else {
        stream_text(chunks.drop_last()) + chunk_text(chunks.last())
    }
}

proof fn lemma_words_are_words(s: Seq<char>)
    ensures
        forall|k: int| 0 <= k < words(s).len() ==> is_word(#[trigger] words(s)[k]),
    decreases s.len(),
{
    if s.len() > 0 {
        let p = s.drop_last();
        lemma_words_are_words(p);
        let w = words(p);
        let c = s.last();
        if !is_ws(c) && s.len() >= 2 && !is_ws(s[s.len() - 2]) {
            assert(p.last() == s[s.len() - 2]);
            lemma_words_nonempty(p);
            let nw = w.last().push(c);
            assert(is_word(w[w.len() - 1]));
            assert forall|i: int| 0 <= i < nw.len() implies !is_ws(#[trigger] nw[i]) by {
                if i < nw.len() - 1 {
                    assert(nw[i] == w[w.len() - 1][i]);
                }
            }
            assert forall|k: int| 0 <= k < words(s).len() implies is_word(#[trigger] words(s)[k]) by {
                if k < w.len() - 1 {
                    assert(words(s)[k] == w[k]);
                }
            }
        } else if !is_ws(c) {
            assert forall|k: int| 0 <= k < words(s).len() implies is_word(#[trigger] words(s)[k]) by {
                if k < w.len() {
                    assert(words(s)[k] == w[k]);
                } else {
                    assert(words(s)[k] =~= seq![c]);
                }
            }
        }
    }
}

proof fn lemma_words_append_word(s: Seq<char>, w: Seq<char>)
    requires
        at_boundary(s),
        is_word(w),
    ensures
        words(s + w) == words(s).push(w),
    decreases w.len(),
{
    if w.len() == 1 {
        assert((s + w).drop_last() =~= s);
        assert(w =~= seq![w[0]]);
        assert((s + w).last() == w[0]);
        if s.len() > 0 {
            assert((s + w)[(s + w).len() - 2] == s.last());
        }
    } else {
        let w0 = w.drop_last();
        assert(is_word(w0)) by {
            assert forall|i: int| 0 <= i < w0.len() implies !is_ws(#[trigger] w0[i]) by {
                assert(w0[i] == w[i]);
            }
        }
        lemma_words_append_word(s, w0);
        assert((s + w).drop_last() =~= s + w0);
        assert((s + w).last() == w.last());
        assert((s + w)[(s + w).len() - 2] == w[w.len() - 2]);
        assert(!is_ws(w[w.len() - 2]));
        assert(!is_ws(w.last()));
        assert(w0.push(w.last()) =~= w);
        assert(words(s).push(w0).update(words(s).len() as int, w0.push(w.last())) =~= words(s).push(w));
    }
}

proof fn lemma_words_append_space(s: Seq<char>)
    ensures
        words(s + " "@) == words(s),
        at_boundary(s + " "@),
{
    reveal_strlit(" ");
    assert((s + " "@).drop_last() =~= s);
    assert((s + " "@).last() == ' ');
}

proof fn lemma_words_of_spaced(ws: Seq<Seq<char>>)
    requires
        forall|k: int| 0 <= k < ws.len() ==> is_word(#[trigger] ws[k]),
    ensures
        words(spaced(ws)) == ws,
        at_boundary(spaced(ws)),
    decreases ws.len(),
{
    if ws.len() > 0 {
        let init = ws.drop_last();
        assert forall|k: int| 0 <= k < init.len() implies is_word(#[trigger] init[k]) by {
            assert(init[k] == ws[k]);
        }
        lemma_words_of_spaced(init);
        let t = spaced(init);
        assert(is_word(ws[ws.len() - 1]));
        lemma_words_append_word(t, ws.last());
        lemma_words_append_space(t + ws.last());
        assert(init.push(ws.last()) =~= ws);
    }
}

proof fn lemma_stream_prefix(chunks: Seq<ChatCompletionChunk>, ws: Seq<Seq<char>>, id: Seq<char>, model: Seq<char>,
    created: i64, role: Option<Seq<char>>, k: int)
    requires
        0 <= k <= ws.len(),
        chunks.len() >= ws.len() + 1,
        stream_chunk(chunks[0], id, model, created, role, None, None),
        forall|j: int| 0 <= j < ws.len() ==>
            stream_chunk(#[trigger] chunks[j + 1], id, model, created, None, Some(ws[j] + " "@), None),
    ensures
        stream_text(chunks.take(k + 1)) == spaced(ws.take(k)),
    decreases k,
{
    if k == 0 {
        assert(chunks.take(1).drop_last() =~= Seq::<ChatCompletionChunk>::empty());
        assert(chunks.take(1).last() == chunks[0]);
        assert(chunk_text(chunks[0]) =~= Seq::<char>::empty());
        assert(stream_text(Seq::<ChatCompletionChunk>::empty()) =~= Seq::<char>::empty());
        assert(stream_text(chunks.take(1)) == stream_text(chunks.take(1).drop_last()) + chunk_text(chunks.take(1).last()));
        assert(stream_text(chunks.take(1)) =~= Seq::<char>::empty());
        assert(ws.take(0) =~= Seq::<Seq<char>>::empty());
    } else {
        lemma_stream_prefix(chunks, ws, id, model, created, role, k - 1);
        assert(chunks.take(k + 1).drop_last() =~= chunks.take(k));
        assert(chunks.take(k + 1).last() == chunks[k]);
        assert(stream_chunk(chunks[(k - 1) + 1], id, model, created, None, Some(ws[k - 1] + " "@), None));
        assert(chunk_text(chunks[k]) == ws[k - 1] + " "@);
        assert(ws.take(k).drop_last() =~= ws.take(k - 1));
        assert(ws.take(k).last() == ws[k - 1]);
        assert(spaced(ws.take(k)) == spaced(ws.take(k - 1)) + ws[k - 1] + " "@);
        assert(spaced(ws.take(k - 1)) + ws[k - 1] + " "@ =~= spaced(ws.take(k - 1)) + (ws[k - 1] + " "@));
    }
}

/// Streaming loses no word: the contents of the streamed chunks, put
/// together in order, read as the same words as the answer's content.
pub proof fn lemma_stream_keeps_words(chunks: Seq<ChatCompletionChunk>, r: ChatCompletionResponse, created: i64)
    requires
        streamed(chunks, r, created),
        r.choices@.len() > 0,
    ensures
        words(stream_text(chunks)) == match r.choices@[0].message.content {
            Some(t) => words(t@),
            None => Seq::empty(),
        },
{
    let c = r.choices@[0];
    let ws = match c.message.content {
        Some(t) => words(t@),
        None => Seq::empty(),
    };
    let n = ws.len() as int;
    match c.message.content {
        Some(t) => lemma_words_are_words(t@),
        None => {},
    }
    lemma_stream_prefix(chunks, ws, r.id@, r.model@, created, Some(c.message.role@), n);
    assert(ws.take(n) =~= ws);
    lemma_words_of_spaced(ws);
    assert(chunks.take(n + 2).drop_last() =~= chunks.take(n + 1));
    assert(chunks.take(n + 3).drop_last() =~= chunks.take(n + 2));
    assert(chunks.take(n + 3) =~= chunks);
    assert(chunk_text(chunks[n + 1]) =~= Seq::<char>::empty());
    assert(chunk_text(chunks[n + 2]) =~= Seq::<char>::empty());
    assert(stream_text(chunks.take(n + 2)) =~= stream_text(chunks.take(n + 1)));
    assert(stream_text(chunks.take(n + 3)) =~= stream_text(chunks.take(n + 2)));
}

} // verus!
