//! The index of model cards, and how it is searched.
use vstd::prelude::*;

use crate::chars::{chars_of, contains_seq, find, lemma_find_from, trim, trimmed};
use crate::protocol::decimal_string_u64;
use crate::text::{decimal, str_eq};
use vstd::string::StringExecFns;

verus! {

/// An entry of the index of model cards.
#[derive(Debug)]
pub struct ModelIndex {
    pub id: String,
    pub name: String,
    pub architecture: String,
    pub model_type: String,
    pub summary: String,
    pub featured: bool,
    pub like_count: u32,
    pub download_count: u32,
}

impl Clone for ModelIndex {
    fn clone(&self) -> (r: ModelIndex)
        ensures
            r == *self,
    {
        ModelIndex {
            id: self.id.clone(),
            name: self.name.clone(),
            architecture: self.architecture.clone(),
            model_type: self.model_type.clone(),
            summary: self.summary.clone(),
            featured: self.featured,
            like_count: self.like_count,
            download_count: self.download_count,
        }
    }
}

#[derive(Debug, Clone, Default, PartialEq, Eq)]
pub struct Author {
    pub name: String,
    pub url: String,
    pub description: String,
}

#[derive(Debug, Clone, Default)]
pub struct DownloadUrls {
    pub default: String,
}

#[derive(Debug, Clone, Default)]
pub struct RemoteFile {
    pub name: String,
    pub size: String,
    pub quantization: String,
    pub tags: Vec<String>,
    pub sha256: Option<String>,
    pub download: DownloadUrls,
}

/// `c` in lower case where it is an ASCII capital letter.
pub open spec fn ascii_lower_char(c: char) -> char {
    if 65 <= (c as u32) <= 90 {
        (((c as u32) + 32) as u8) as char
    } else {
        c
    }
}

/// `s` with its ASCII letters in lower case (`str::to_ascii_lowercase`).
pub open spec fn ascii_lower(s: Seq<char>) -> Seq<char> {
    s.map_values(|c: char| ascii_lower_char(c))
}

/// The characters of `s` with its ASCII letters in lower case.
pub fn ascii_lowercase(s: &str) -> (r: Vec<char>)
    ensures
        r@ == ascii_lower(s@),
{
    let v = chars_of(s);
    let mut r: Vec<char> = Vec::new();
    let mut i: usize = 0;
    while i < v.len()
        invariant
            v@ == s@,
            i <= v@.len(),
            r@ == ascii_lower(v@.take(i as int)),
        decreases v@.len() - i,
    {
        let c = v[i];
        let u = c as u32;
        let lower = if 65 <= u && u <= 90 {
            ((u + 32) as u8) as char
        } else {
            c
        };
        assert(ascii_lower(v@.take(i + 1)) =~= ascii_lower(v@.take(i as int)).push(
            ascii_lower_char(c),
        ));
        r.push(lower);
        i += 1;
    }
    assert(v@.take(v@.len() as int) =~= v@);
    r
}

/// The entry describes a model made to chat (an `instruct` or a `chat` model).
pub open spec fn is_chat_model(m: ModelIndex) -> bool {
    m.model_type@ == "instruct"@ || m.model_type@ == "chat"@
}

/// The entry is a chat model whose name, architecture, id or summary holds
/// `query` once in lower case.
pub open spec fn matches_query(m: ModelIndex, query: Seq<char>) -> bool {
    &&& is_chat_model(m)
    &&& {
        ||| contains_seq(ascii_lower(m.name@), query)
        ||| contains_seq(ascii_lower(m.architecture@), query)
        ||| contains_seq(ascii_lower(m.id@), query)
        ||| contains_seq(ascii_lower(m.summary@), query)
    }
}

/// The entries of `s` that match `query`, in order.
pub open spec fn matching(s: Seq<ModelIndex>, query: Seq<char>) -> Seq<ModelIndex>
    decreases s.len(),
{
    if s.len() == 0 {
        Seq::empty()
    } else {
        let prev = matching(s.drop_last(), query);
        if matches_query(s.last(), query) {
            prev.push(s.last())
        } else {
            prev
        }
    }
}

/// The entries of `s` that are featured chat models, in order.
pub open spec fn featured(s: Seq<ModelIndex>) -> Seq<ModelIndex>
    decreases s.len(),
{
    if s.len() == 0 {
        Seq::empty()
    } else {
        let prev = featured(s.drop_last());
        if is_chat_model(s.last()) && s.last().featured {
            prev.push(s.last())
        } else {
            prev
        }
    }
}

/// The page of `s` that skips `offset` items and takes at most `limit` of the rest.
pub open spec fn page<T>(s: Seq<T>, offset: nat, limit: nat) -> Seq<T> {
    let start = if offset < s.len() {
        offset as int
    } else {
        s.len() as int
    };
    let end = if offset + limit < s.len() {
        (offset + limit) as int
    } else {
        s.len() as int
    };
    s.subrange(start, end)
}

/// Adding an item to a sequence adds it to its page while the page is not full.
proof fn lemma_page_push<T>(s: Seq<T>, x: T, offset: nat, limit: nat)
    ensures
        page(s.push(x), offset, limit) == if offset <= s.len() && page(s, offset, limit).len()
            < limit {
            page(s, offset, limit).push(x)
        } else {
            page(s, offset, limit)
        },
{
    if offset <= s.len() && page(s, offset, limit).len() < limit {
        assert(page(s.push(x), offset, limit) =~= page(s, offset, limit).push(x));
    } else {
        assert(page(s.push(x), offset, limit) =~= page(s, offset, limit));
    }
}

/// Whether `text` holds `query`.
fn holds(text: &str, query: &[char]) -> (r: bool)
    ensures
        r == contains_seq(ascii_lower(text@), query@),
{
    let lower = ascii_lowercase(text);
    let found = find(&lower, query, 0);
    proof {
        lemma_find_from(lower@, query@, 0);
    }
    found.is_some()
}

/// Whether the entry describes a model made to chat.
fn chat_model(m: &ModelIndex) -> (r: bool)
    ensures
        r == is_chat_model(*m),
{
    let r = str_eq(m.model_type.as_str(), "instruct") || str_eq(m.model_type.as_str(), "chat");
    r
}

/// Whether the entry matches the lower-case query.
fn matches(m: &ModelIndex, query: &[char]) -> (r: bool)
    ensures
        r == matches_query(*m, query@),
{
    chat_model(m) && (holds(m.name.as_str(), query) || holds(m.architecture.as_str(), query)
        || holds(m.id.as_str(), query) || holds(m.summary.as_str(), query))
}

/// The search text as the entries are matched against: trimmed and in lower case.
pub open spec fn search_query(search_text: Seq<char>) -> Seq<char> {
    ascii_lower(trim(search_text))
}

/// Searches the chat models whose name, architecture, id or summary holds the
/// search text (trimmed, compared in ASCII lower case), skipping `offset` of
/// them and taking at most `limit`.
pub fn search(indexes: &[ModelIndex], search_text: &str, limit: usize, offset: usize) -> (r: Vec<
    ModelIndex,
>)
    ensures
        r@ == page(
            matching(indexes@, search_query(search_text@)),
            offset as nat,
            limit as nat,
        ),
{
    let text = chars_of(search_text);
    let trimmed_text = trimmed(&text);
    let query_text = crate::chars::string_of(trimmed_text);
    let query = ascii_lowercase(query_text.as_str());
    let ghost q = search_query(search_text@);
    assert(query@ == q);
    let mut out: Vec<ModelIndex> = Vec::new();
    let mut seen: usize = 0;
    let mut i: usize = 0;
    while i < indexes.len()
        invariant
            query@ == q,
            i <= indexes@.len(),
            seen <= i,
            seen == matching(indexes@.take(i as int), q).len(),
            out@ == page(matching(indexes@.take(i as int), q), offset as nat, limit as nat),
        decreases indexes@.len() - i,
    {
        let ghost prev = matching(indexes@.take(i as int), q);
        assert(indexes@.take(i + 1).drop_last() =~= indexes@.take(i as int));
        assert(indexes@.take(i + 1).last() == indexes@[i as int]);
        if matches(&indexes[i], &query) {
            proof {
                lemma_page_push(prev, indexes@[i as int], offset as nat, limit as nat);
            }
            if seen >= offset && out.len() < limit {
                out.push(indexes[i].clone());
            }
            seen += 1;
        }
        i += 1;
    }
    assert(indexes@.take(indexes@.len() as int) =~= indexes@);
    out
}

/// The featured chat models, skipping `offset` of them and taking at most `limit`.
pub fn featured_models(indexes: &[ModelIndex], limit: usize, offset: usize) -> (r: Vec<
    ModelIndex,
>)
    ensures
        r@ == page(featured(indexes@), offset as nat, limit as nat),
{
    let mut out: Vec<ModelIndex> = Vec::new();
    let mut seen: usize = 0;
    let mut i: usize = 0;
    while i < indexes.len()
        invariant
            i <= indexes@.len(),
            seen <= i,
            seen == featured(indexes@.take(i as int)).len(),
            out@ == page(featured(indexes@.take(i as int)), offset as nat, limit as nat),
        decreases indexes@.len() - i,
    {
        let ghost prev = featured(indexes@.take(i as int));
        assert(indexes@.take(i + 1).drop_last() =~= indexes@.take(i as int));
        assert(indexes@.take(i + 1).last() == indexes@[i as int]);
        if chat_model(&indexes[i]) && indexes[i].featured {
            proof {
                lemma_page_push(prev, indexes@[i as int], offset as nat, limit as nat);
            }
            if seen >= offset && out.len() < limit {
                out.push(indexes[i].clone());
            }
            seen += 1;
        }
        i += 1;
    }
    assert(indexes@.take(indexes@.len() as int) =~= indexes@);
    out
}

/// The id of the model card of a local model file: the peer's id, `/`, and
/// the file's stem.
pub open spec fn spec_local_card_id(peer_id: Seq<char>, base_name: Seq<char>) -> Seq<char> {
    peer_id + "/"@ + base_name
}

/// The id of the model card of a local model file.
pub fn local_card_id(peer_id: &str, base_name: &str) -> (r: String)
    ensures
        r@ == spec_local_card_id(peer_id@, base_name@),
{
    let mut r = String::from_str(peer_id);
    r.append("/");
    r.append(base_name);
    r
}

/// A file named `name` is among `files`.
pub open spec fn lists_file(files: Seq<RemoteFile>, name: Seq<char>) -> bool {
    exists|i: int| 0 <= i < files.len() && (#[trigger] files[i]).name@ == name
}

/// Whether a file named `name` is among `files`.
pub fn has_file(files: &[RemoteFile], name: &str) -> (r: bool)
    ensures
        r == lists_file(files@, name@),
{
    let mut i: usize = 0;
    while i < files.len()
        invariant
            i <= files@.len(),
            forall|j: int| 0 <= j < i ==> (#[trigger] files@[j]).name@ != name@,
        decreases files@.len() - i,
    {
        if str_eq(files[i].name.as_str(), name) {
            return true;
        }
        i += 1;
    }
    false
}

/// The url a peer shares a file at: `p2p://<peer id>/sha256/<hash>`.
pub open spec fn spec_p2p_url(peer_id: Seq<char>, sha256: Seq<char>) -> Seq<char> {
    "p2p://"@ + peer_id + "/sha256/"@ + sha256
}

/// The entry, in its card, of a model file shared by the peer `peer_id`: named
/// by the file's stem, of `size` bytes, with its hash and the url it is shared at.
pub fn local_remote_file(base_name: &str, size: u64, sha256: &str, peer_id: &str) -> (r: RemoteFile)
    ensures
        r.name@ == base_name@,
        r.size@ == decimal(size as nat),
        r.quantization@.len() == 0,
        r.tags@.len() == 0,
        r.sha256 matches Some(h) && h@ == sha256@,
        r.download.default@ == spec_p2p_url(peer_id@, sha256@),
{
    let mut url = String::from_str("p2p://");
    url.append(peer_id);
    url.append("/sha256/");
    url.append(sha256);
    RemoteFile {
        name: String::from_str(base_name),
        size: decimal_string_u64(size),
        quantization: String::new(),
        tags: Vec::new(),
        sha256: Some(String::from_str(sha256)),
        download: DownloadUrls { default: url },
    }
}

/// Adds to `files` the entry of a shared model file, unless a file of that
/// name is listed already. Tells whether it was added.
pub fn add_local_file(files: &mut Vec<RemoteFile>, file: RemoteFile) -> (added: bool)
    ensures
        added == !lists_file(old(files)@, file.name@),
        final(files)@ == (if added {
            old(files)@.push(file)
        } else {
            old(files)@
        }),
{
    if has_file(files.as_slice(), file.name.as_str()) {
        false
    } else {
        files.push(file);
        true
    }
}

/// An entry with the id `id` is in `index`.
pub open spec fn indexes_id(index: Seq<ModelIndex>, id: Seq<char>) -> bool {
    exists|i: int| 0 <= i < index.len() && (#[trigger] index[i]).id@ == id
}

/// The index entry of the card of a shared model: an instruct model, featured,
/// not yet liked or downloaded.
pub fn local_model_index(id: &str, name: &str, architecture: &str, summary: &str) -> (r: ModelIndex)
    ensures
        r.id@ == id@,
        r.name@ == name@,
        r.architecture@ == architecture@,
        r.summary@ == summary@,
        r.model_type@ == "instruct"@,
        r.featured,
        r.like_count == 0,
        r.download_count == 0,
{
    ModelIndex {
        id: String::from_str(id),
        name: String::from_str(name),
        architecture: String::from_str(architecture),
        model_type: String::from_str("instruct"),
        summary: String::from_str(summary),
        featured: true,
        like_count: 0,
        download_count: 0,
    }
}

/// Adds `entry` to `index`, unless an entry with its id is there already.
/// Tells whether it was added.
pub fn add_to_index(index: &mut Vec<ModelIndex>, entry: ModelIndex) -> (added: bool)
    ensures
        added == !indexes_id(old(index)@, entry.id@),
        final(index)@ == (if added {
            old(index)@.push(entry)
        } else {
            old(index)@
        }),
{
    let mut i: usize = 0;
    while i < index.len()
        invariant
            i <= index@.len(),
            forall|j: int| 0 <= j < i ==> (#[trigger] index@[j]).id@ != entry.id@,
        decreases index@.len() - i,
    {
        if str_eq(index[i].id.as_str(), entry.id.as_str()) {
            return false;
        }
        i += 1;
    }
    index.push(entry);
    true
}

/// The matches of `query` in `s` are the entries of `s` that match it.
proof fn lemma_matching_members(s: Seq<ModelIndex>, query: Seq<char>)
    ensures
        forall|x: ModelIndex|
            #[trigger] matching(s, query).contains(x) <==> (s.contains(x) && matches_query(x, query)),
    decreases s.len(),
{
    if s.len() > 0 {
        let rest = s.drop_last();
        lemma_matching_members(rest, query);
        let prev = matching(rest, query);
        assert forall|x: ModelIndex|
            #[trigger] matching(s, query).contains(x) <==> (s.contains(x) && matches_query(x, query)) by {
            if s.contains(x) {
                let i = choose|i: int| 0 <= i < s.len() && s[i] == x;
                if i < s.len() - 1 {
                    assert(rest[i] == x);
                }
            }
            if rest.contains(x) {
                let i = choose|i: int| 0 <= i < rest.len() && rest[i] == x;
                assert(s[i] == x);
            }
            assert(s[s.len() - 1] == s.last());
            if matches_query(s.last(), query) {
                if prev.push(s.last()).contains(x) {
                    let i = choose|i: int| 0 <= i < prev.len() + 1 && prev.push(s.last())[i] == x;
                    if i < prev.len() {
                        assert(prev[i] == x);
                    }
                }
                if prev.contains(x) {
                    let i = choose|i: int| 0 <= i < prev.len() && prev[i] == x;
                    assert(prev.push(s.last())[i] == x);
                }
                assert(prev.push(s.last())[prev.len() as int] == s.last());
            }
        }
    }
}

/// The featured models are exactly the entries of the index that are
/// `instruct` or `chat` models marked featured.
pub proof fn law_featured_are_featured_chat_models(s: Seq<ModelIndex>)
    ensures
        forall|x: ModelIndex|
            #[trigger] featured(s).contains(x) <==> (s.contains(x) && (x.model_type@ == "instruct"@
                || x.model_type@ == "chat"@) && x.featured),
    decreases s.len(),
{
    if s.len() > 0 {
        let rest = s.drop_last();
        law_featured_are_featured_chat_models(rest);
        let prev = featured(rest);
        assert forall|x: ModelIndex|
            #[trigger] featured(s).contains(x) <==> (s.contains(x) && (x.model_type@ == "instruct"@
                || x.model_type@ == "chat"@) && x.featured) by {
            if s.contains(x) {
                let i = choose|i: int| 0 <= i < s.len() && s[i] == x;
                if i < s.len() - 1 {
                    assert(rest[i] == x);
                }
            }
            if rest.contains(x) {
                let i = choose|i: int| 0 <= i < rest.len() && rest[i] == x;
                assert(s[i] == x);
            }
            assert(s[s.len() - 1] == s.last());
            if is_chat_model(s.last()) && s.last().featured {
                if prev.push(s.last()).contains(x) {
                    let i = choose|i: int| 0 <= i < prev.len() + 1 && prev.push(s.last())[i] == x;
                    if i < prev.len() {
                        assert(prev[i] == x);
                    }
                }
                if prev.contains(x) {
                    let i = choose|i: int| 0 <= i < prev.len() && prev[i] == x;
                    assert(prev.push(s.last())[i] == x);
                }
                assert(prev.push(s.last())[prev.len() as int] == s.last());
            }
        }
    }
}

/// What the search finds: an entry of the index is among the matches of a
/// query exactly when it is an `instruct` or `chat` model and its name,
/// architecture, id or summary, in ASCII lower case, holds the query.
pub proof fn law_search_finds_chat_models_holding_the_query(s: Seq<ModelIndex>, query: Seq<char>)
    ensures
        forall|x: ModelIndex|
            #[trigger] matching(s, query).contains(x) <==> (s.contains(x) && (x.model_type@
                == "instruct"@ || x.model_type@ == "chat"@) && (contains_seq(
                ascii_lower(x.name@),
                query,
            ) || contains_seq(ascii_lower(x.architecture@), query) || contains_seq(
                ascii_lower(x.id@),
                query,
            ) || contains_seq(ascii_lower(x.summary@), query))),
{
    lemma_matching_members(s, query);
}

} // verus!
