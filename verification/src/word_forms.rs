//! Inflected forms of words the reader marks: the request sent to the
//! model and the check of its reply. Words arrive in the reader's normal
//! form for learning terms.

use vstd::prelude::*;

use crate::chat::{json_quoted, json_string, message_views};
use crate::error::AppError;
use crate::preparation::{id_less, lemma_id_less_irreflexive, lemma_id_less_total, lemma_id_less_transitive};
use crate::requests::{check_request_id, request_id_valid, two_messages, AiRequest};
use crate::text::{chars_of, extend_chars, extend_str, str_eq};

verus! {

/// Most words asked about at once.
pub const WORD_FORMS_MAX_WORDS: usize = 10;

/// Longest word asked about, in characters.
pub const WORD_FORMS_MAX_CHARS: usize = 256;

/// Output token limit of a word forms request.
pub const WORD_FORMS_MAX_TOKENS: u32 = 1024;

/// What the model is told to return.
pub const WORD_FORMS_PROMPT: &'static str = "For each supplied English word, list only inflectional forms of the same lexeme: plurals, verb tenses, participles, and comparative/superlative forms where applicable. Never include derivational relatives (for example nation -> national is forbidden), synonyms, phrases, or the input word itself. Return exactly one JSON object mapping each exact lowercase input word to an array of lowercase strings. Include every input key; use an empty array when there are no other forms. No Markdown or commentary.";

/// Views of a list of strings.
pub open spec fn string_views(v: Seq<String>) -> Seq<Seq<char>> {
    v.map_values(|s: String| s@)
}

/// Texts in strictly increasing code-point order (so also distinct).
pub open spec fn strictly_ordered(s: Seq<Seq<char>>) -> bool {
    forall|i: int, j: int| 0 <= i < j < s.len() ==> id_less(#[trigger] s[i], #[trigger] s[j])
}

/// A requested word that is asked about: not empty, at most 256
/// characters.
pub open spec fn word_kept(w: Seq<char>) -> bool {
    0 < w.len() <= WORD_FORMS_MAX_CHARS
}

/// Whether a request for `words` under `request_id` is accepted: one to
/// ten words, a valid request id, and some word kept.
pub open spec fn word_forms_request_ok(words: Seq<Seq<char>>, request_id: Seq<char>) -> bool {
    &&& 1 <= words.len() <= WORD_FORMS_MAX_WORDS
    &&& request_id_valid(request_id)
    &&& exists|i: int| 0 <= i < words.len() && word_kept(#[trigger] words[i])
}

/// The JSON array of some strings, as `serde_json::to_string` writes a
/// list of strings: `[` and `]` around the quoted strings joined by `,`.
pub open spec fn json_string_array(ws: Seq<Seq<char>>) -> Seq<char> {
    "["@ + json_items(ws) + "]"@
}

/// The quoted strings joined by `,`.
pub open spec fn json_items(ws: Seq<Seq<char>>) -> Seq<char>
    decreases ws.len(),
{
    if ws.len() == 0 {
        Seq::empty()
    } else if ws.len() == 1 {
        json_quoted(ws[0])
    } else {
        json_items(ws.drop_last()) + ","@ + json_quoted(ws.last())
    }
}

/// Adds `w` to an ordered list of distinct texts, where it is not yet.
fn insert_ordered(v: &mut Vec<String>, w: String)
    requires
        strictly_ordered(string_views(old(v)@)),
    ensures
        strictly_ordered(string_views(final(v)@)),
        forall|x: Seq<char>| #[trigger] string_views(final(v)@).contains(x) <==> (string_views(old(v)@).contains(x) || x == w@),
{
    let ghost before = string_views(v@);
    let key = chars_of(w.as_str());
    let mut p: usize = 0;
    while p < v.len() && crate::preparation::chars_less(&chars_of(v[p].as_str()), &key)
        invariant
            p <= v@.len(),
            before == string_views(v@),
            key@ == w@,
            forall|k: int| 0 <= k < p ==> id_less(#[trigger] before[k], key@),
        decreases v@.len() - p,
    {
        p += 1;
    }
    if p < v.len() && str_eq(v[p].as_str(), w.as_str()) {
        proof {
            assert(before[p as int] == w@);
            assert forall|x: Seq<char>| before.contains(x) <==> (before.contains(x) || x == w@) by {
                if x == w@ {
                    assert(before[p as int] == x);
                }
            }
        }
        return;
    }
    proof {
        if p < before.len() {
            lemma_id_less_total(before[p as int], key@);
            assert(id_less(key@, before[p as int]));
        }
    }
    let ghost next = before.insert(p as int, w@);
    proof {
        assert forall|i: int, j: int| 0 <= i < j < next.len() implies id_less(#[trigger] next[i], #[trigger] next[j]) by {
            if j < p {
            } else if i < p && j == p {
            } else if i < p && j > p {
                assert(next[j] == before[j - 1]);
                if j - 1 > p {
                    lemma_id_less_transitive(key@, before[p as int], before[j - 1]);
                }
                lemma_id_less_transitive(before[i], key@, before[j - 1]);
            } else if i == p {
                assert(next[j] == before[j - 1]);
                if j - 1 > p {
                    lemma_id_less_transitive(key@, before[p as int], before[j - 1]);
                }
            } else {
                assert(next[i] == before[i - 1]);
                assert(next[j] == before[j - 1]);
            }
        }
        assert forall|x: Seq<char>| next.contains(x) <==> (before.contains(x) || x == w@) by {
            if next.contains(x) {
                let k = choose|k: int| 0 <= k < next.len() && next[k] == x;
                if k < p {
                    assert(before[k] == x);
                } else if k > p {
                    assert(before[k - 1] == x);
                }
            }
            if before.contains(x) {
                let k = choose|k: int| 0 <= k < before.len() && before[k] == x;
                if k < p {
                    assert(next[k] == x);
                } else {
                    assert(next[k + 1] == x);
                }
            }
            if x == w@ {
                assert(next[p as int] == x);
            }
        }
    }
    v.insert(p, w);
    assert(string_views(v@) =~= next);
}

/// The words asked about: the requested words that are kept, in
/// code-point order, each once.
fn kept_words(words: &[String]) -> (r: Vec<String>)
    ensures
        strictly_ordered(string_views(r@)),
        forall|x: Seq<char>| #[trigger] string_views(r@).contains(x) <==> (string_views(words@).contains(x) && word_kept(x)),
{
    let mut out: Vec<String> = Vec::new();
    let mut i: usize = 0;
    assert(string_views(out@) =~= Seq::<Seq<char>>::empty());
    while i < words.len()
        invariant
            i <= words.len(),
            strictly_ordered(string_views(out@)),
            forall|x: Seq<char>| #[trigger] string_views(out@).contains(x) <==> (string_views(words@.take(i as int)).contains(x) && word_kept(x)),
        decreases words.len() - i,
    {
        let ghost prev = string_views(out@);
        let w = &words[i];
        let n = chars_of(w.as_str()).len();
        if n > 0 && n <= WORD_FORMS_MAX_CHARS {
            insert_ordered(&mut out, w.clone());
        }
        assert(w@ == string_views(words@)[i as int]);
        proof {
            let a = string_views(words@.take(i as int));
            let b = string_views(words@.take(i + 1));
            assert(b =~= a.push(words@[i as int]@));
            assert forall|x: Seq<char>| b.contains(x) <==> (a.contains(x) || x == words@[i as int]@) by {
                if b.contains(x) {
                    let k = choose|k: int| 0 <= k < b.len() && b[k] == x;
                    if k < a.len() {
                        assert(a[k] == x);
                    }
                }
                if a.contains(x) {
                    let k = choose|k: int| 0 <= k < a.len() && a[k] == x;
                    assert(b[k] == x);
                }
                if x == words@[i as int]@ {
                    assert(b[i as int] == x);
                }
            }
            assert forall|x: Seq<char>| #[trigger] string_views(out@).contains(x) <==> (b.contains(x) && word_kept(x)) by {
                if string_views(out@).contains(x) {
                    if x != w@ {
                        assert(prev.contains(x));
                    }
                }
                if b.contains(x) && word_kept(x) {
                    if a.contains(x) {
                        assert(prev.contains(x));
                    }
                }
            }
        }
        i += 1;
    }
    assert(words@.take(words@.len() as int) =~= words@);
    out
}

/// Writes the JSON array of some strings.
fn json_array(words: &Vec<String>) -> (r: Vec<char>)
    ensures
        r@ == json_string_array(string_views(words@)),
{
    let mut items: Vec<char> = Vec::new();
    let mut i: usize = 0;
    while i < words.len()
        invariant
            i <= words.len(),
            items@ == json_items(string_views(words@).take(i as int)),
        decreases words.len() - i,
    {
        let quoted = json_string(words[i].as_str());
        let ghost ws = string_views(words@).take(i + 1);
        assert(ws.drop_last() =~= string_views(words@).take(i as int));
        if i > 0 {
            extend_str(&mut items, ",");
        }
        extend_str(&mut items, quoted.as_str());
        proof {
            if i == 0 {
                assert(string_views(words@).take(0) =~= Seq::<Seq<char>>::empty());
            }
        }
        i += 1;
    }
    assert(string_views(words@).take(words@.len() as int) =~= string_views(words@));
    let mut r = chars_of("[");
    extend_chars(&mut r, &items);
    extend_str(&mut r, "]");
    r
}

/// Checks a word forms request and builds it: the words asked about (the
/// kept ones, ordered, each once) and the request, with the words as a
/// JSON array, at most 1024 tokens, answered at once. Each word is
/// already in the reader's normal form for learning terms.
pub fn word_forms_request(words: &[String], request_id: &str) -> (r: Result<(Vec<String>, AiRequest), AppError>)
    ensures
        match r {
            Ok((asked, request)) => {
                &&& word_forms_request_ok(string_views(words@), request_id@)
                &&& strictly_ordered(string_views(asked@))
                &&& forall|x: Seq<char>| #[trigger] string_views(asked@).contains(x) <==> (string_views(words@).contains(x) && word_kept(x))
                &&& message_views(request.messages@) == seq![
                    ("system"@, WORD_FORMS_PROMPT@),
                    ("user"@, json_string_array(string_views(asked@))),
                ]
                &&& request.max_tokens == Some(WORD_FORMS_MAX_TOKENS)
                &&& request.event_name is None
            },
            Err(e) => !word_forms_request_ok(string_views(words@), request_id@) && e is Other
                && e.message_view() == "WORD_FORMS_REQUEST_INVALID"@,
        },
{
    if words.len() == 0 || words.len() > WORD_FORMS_MAX_WORDS || check_request_id(request_id).is_err() {
        return Err(crate::error::other("WORD_FORMS_REQUEST_INVALID"));
    }
    let asked = kept_words(words);
    if asked.len() == 0 {
        proof {
            assert forall|i: int| 0 <= i < words@.len() implies !word_kept(#[trigger] string_views(words@)[i]) by {
                let x = string_views(words@)[i];
                assert(string_views(words@).contains(x));
                if word_kept(x) {
                    assert(string_views(asked@).contains(x));
                }
            }
        }
        return Err(crate::error::other("WORD_FORMS_REQUEST_INVALID"));
    }
    proof {
        let x = string_views(asked@)[0];
        assert(string_views(asked@).contains(x));
        assert(string_views(words@).contains(x) && word_kept(x));
        let k = choose|k: int| 0 <= k < string_views(words@).len() && string_views(words@)[k] == x;
        assert(word_kept(string_views(words@)[k]));
    }
    let user = json_array(&asked);
    let messages = two_messages(chars_of(WORD_FORMS_PROMPT), user);
    Ok((asked, AiRequest { messages, max_tokens: Some(WORD_FORMS_MAX_TOKENS), event_name: None }))
}

/// Views of a reply: each word with its forms.
pub open spec fn reply_views(p: Seq<(String, Vec<String>)>) -> Seq<(Seq<char>, Seq<Seq<char>>)> {
    p.map_values(|e: (String, Vec<String>)| (e.0@, string_views(e.1@)))
}

/// Whether a reply answers exactly the words asked about: as many entries
/// as words, each for a word asked about.
pub open spec fn reply_matches(reply: Seq<(Seq<char>, Seq<Seq<char>>)>, asked: Seq<Seq<char>>) -> bool {
    &&& reply.len() == asked.len()
    &&& forall|i: int| 0 <= i < reply.len() ==> asked.contains(#[trigger] reply[i].0)
}

/// A form kept for a word: not empty and not the word itself.
pub open spec fn form_kept(form: Seq<char>, word: Seq<char>) -> bool {
    form.len() > 0 && form != word
}

/// Whether `a` holds the word's kept forms of `forms`: ordered, each once.
pub open spec fn forms_of(a: Seq<Seq<char>>, word: Seq<char>, forms: Seq<Seq<char>>) -> bool {
    &&& strictly_ordered(a)
    &&& forall|x: Seq<char>| #[trigger] a.contains(x) <==> (forms.contains(x) && form_kept(x, word))
}

/// The kept forms of a word: ordered, each once.
fn kept_forms(word: &String, forms: &Vec<String>) -> (r: Vec<String>)
    ensures
        forms_of(string_views(r@), word@, string_views(forms@)),
{
    let mut out: Vec<String> = Vec::new();
    let mut i: usize = 0;
    assert(string_views(out@) =~= Seq::<Seq<char>>::empty());
    while i < forms.len()
        invariant
            i <= forms.len(),
            strictly_ordered(string_views(out@)),
            forall|x: Seq<char>| #[trigger] string_views(out@).contains(x) <==> (string_views(forms@.take(i as int)).contains(x) && form_kept(x, word@)),
        decreases forms.len() - i,
    {
        let ghost prev = string_views(out@);
        let f = &forms[i];
        if !f.as_str().is_empty() && !str_eq(f.as_str(), word.as_str()) {
            insert_ordered(&mut out, f.clone());
        }
        assert(f@ == string_views(forms@)[i as int]);
        proof {
            let a = string_views(forms@.take(i as int));
            let b = string_views(forms@.take(i + 1));
            assert(b =~= a.push(forms@[i as int]@));
            assert forall|x: Seq<char>| b.contains(x) <==> (a.contains(x) || x == forms@[i as int]@) by {
                if b.contains(x) {
                    let k = choose|k: int| 0 <= k < b.len() && b[k] == x;
                    if k < a.len() {
                        assert(a[k] == x);
                    }
                }
                if a.contains(x) {
                    let k = choose|k: int| 0 <= k < a.len() && a[k] == x;
                    assert(b[k] == x);
                }
                if x == forms@[i as int]@ {
                    assert(b[i as int] == x);
                }
            }
            assert forall|x: Seq<char>| #[trigger] string_views(out@).contains(x) <==> (b.contains(x) && form_kept(x, word@)) by {
                if string_views(out@).contains(x) {
                    if x != f@ {
                        assert(prev.contains(x));
                    }
                }
                if b.contains(x) && form_kept(x, word@) {
                    if a.contains(x) {
                        assert(prev.contains(x));
                    }
                }
            }
        }
        i += 1;
    }
    assert(forms@.take(forms@.len() as int) =~= forms@);
    out
}

/// Whether a list of texts holds `w`.
fn holds(list: &Vec<String>, w: &String) -> (r: bool)
    ensures
        r == string_views(list@).contains(w@),
{
    let mut i: usize = 0;
    while i < list.len()
        invariant
            i <= list.len(),
            forall|k: int| 0 <= k < i ==> string_views(list@)[k] != w@,
        decreases list.len() - i,
    {
        if str_eq(list[i].as_str(), w.as_str()) {
            assert(string_views(list@)[i as int] == w@);
            return true;
        }
        i += 1;
    }
    false
}

/// Checks the model's reply (`None` when it was not a JSON object of word
/// lists) against the words asked about, and keeps each word's forms that
/// are not empty and not the word itself, ordered, each once. The forms
/// are already in the reader's normal form for learning terms.
pub fn accept_word_forms(reply: Option<Vec<(String, Vec<String>)>>, asked: &Vec<String>) -> (r: Result<Vec<(String, Vec<String>)>, AppError>)
    ensures
        match reply {
            Some(p) => if reply_matches(reply_views(p@), string_views(asked@)) {
                r matches Ok(out) && {
                    &&& out@.len() == p@.len()
                    &&& forall|i: int| 0 <= i < out@.len() ==> {
                        &&& (#[trigger] out@[i]).0@ == p@[i].0@
                        &&& forms_of(string_views(out@[i].1@), p@[i].0@, string_views(p@[i].1@))
                    }
                }
            } else {
                r matches Err(e) && e is Ai && e.message_view() == "WORD_FORMS_PROTOCOL_INVALID"@
            },
            None => r matches Err(e) && e is Ai && e.message_view() == "WORD_FORMS_PROTOCOL_INVALID"@,
        },
{
    let ghost original = reply;
    let entries = match reply {
        Some(p) => p,
        None => {
            return Err(crate::error::ai("WORD_FORMS_PROTOCOL_INVALID"));
        },
    };
    let ghost pv = reply_views(entries@);
    if entries.len() != asked.len() {
        return Err(crate::error::ai("WORD_FORMS_PROTOCOL_INVALID"));
    }
    let mut i: usize = 0;
    while i < entries.len()
        invariant
            i <= entries.len(),
            original == Some(entries),
            original == reply,
            entries@.len() == asked@.len(),
            pv == reply_views(entries@),
            forall|k: int| 0 <= k < i ==> string_views(asked@).contains(#[trigger] pv[k].0),
        decreases entries.len() - i,
    {
        if !holds(asked, &entries[i].0) {
            assert(!string_views(asked@).contains(pv[i as int].0));
            assert(!reply_matches(reply_views(entries@), string_views(asked@)));
            return Err(crate::error::ai("WORD_FORMS_PROTOCOL_INVALID"));
        }
        i += 1;
    }
    let mut out: Vec<(String, Vec<String>)> = Vec::new();
    let mut j: usize = 0;
    while j < entries.len()
        invariant
            j <= entries.len(),
            out@.len() == j,
            forall|k: int| 0 <= k < j ==> {
                &&& (#[trigger] out@[k]).0@ == entries@[k].0@
                &&& forms_of(string_views(out@[k].1@), entries@[k].0@, string_views(entries@[k].1@))
            },
        decreases entries.len() - j,
    {
        let forms = kept_forms(&entries[j].0, &entries[j].1);
        out.push((entries[j].0.clone(), forms));
        j += 1;
    }
    Ok(out)
}

} // verus!
