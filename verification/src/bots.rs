//! The bots that clients offer: how a provider's models become bots, in order,
//! and how the bots of several clients are gathered and told apart.
use vstd::prelude::*;
use vstd::string::StringExecFns;

use crate::chars::{chars_of, has_prefix, starts_with, string_of, texts, to_upper_case, upper_case};
use crate::protocol::{
    bot_id_text, bot_views, Bot, BotCapabilities, BotCapability, BotId, BotView, ClientError,
    ClientResult, Picture, PictureView,
};

verus! {

/// `a` comes before `b`, or equals it, in the order of their characters' code
/// points (the order of `str`'s comparison, as UTF-8 keeps it).
pub open spec fn lex_le(a: Seq<char>, b: Seq<char>) -> bool
    decreases a.len(),
{
    if a.len() == 0 {
        true
    } else if b.len() == 0 {
        false
    } else if (a[0] as u32) < (b[0] as u32) {
        true
    } else if (b[0] as u32) < (a[0] as u32) {
        false
    } else {
        lex_le(a.drop_first(), b.drop_first())
    }
}

/// `x` placed in `sorted` after the last item that does not come after it.
pub open spec fn insert_sorted(sorted: Seq<Seq<char>>, x: Seq<char>) -> Seq<Seq<char>>
    decreases sorted.len(),
{
    if sorted.len() == 0 {
        seq![x]
    } else if lex_le(sorted.last(), x) {
        sorted.push(x)
    } else {
        insert_sorted(sorted.drop_last(), x).push(sorted.last())
    }
}

/// `s` sorted in order, equal items keeping their order (a stable sort).
pub open spec fn sort_texts(s: Seq<Seq<char>>) -> Seq<Seq<char>>
    decreases s.len(),
{
    if s.len() == 0 {
        Seq::empty()
    } else {
        insert_sorted(sort_texts(s.drop_last()), s.last())
    }
}

/// Each item of `s` comes before or equals the next one.
pub open spec fn is_sorted(s: Seq<Seq<char>>) -> bool {
    forall|i: int| 0 <= i < s.len() - 1 ==> lex_le(#[trigger] s[i], s[i + 1])
}

/// Of two texts, one comes before or equals the other.
pub proof fn lemma_lex_total(a: Seq<char>, b: Seq<char>)
    ensures
        lex_le(a, b) || lex_le(b, a),
    decreases a.len(),
{
    if a.len() > 0 && b.len() > 0 && (a[0] as u32) == (b[0] as u32) {
        lemma_lex_total(a.drop_first(), b.drop_first());
    }
}

proof fn lemma_insert_sorted(sorted: Seq<Seq<char>>, x: Seq<char>)
    requires
        is_sorted(sorted),
    ensures
        is_sorted(insert_sorted(sorted, x)),
        insert_sorted(sorted, x).len() == sorted.len() + 1,
        insert_sorted(sorted, x).to_multiset() == sorted.to_multiset().insert(x),
        insert_sorted(sorted, x)[0] == x || (sorted.len() > 0 && insert_sorted(sorted, x)[0]
            == sorted[0]),
    decreases sorted.len(),
{
    broadcast use vstd::seq_lib::group_to_multiset_ensures;

    if sorted.len() == 0 {
        assert(seq![x] =~= Seq::<Seq<char>>::empty().push(x));
    } else if lex_le(sorted.last(), x) {
    } else {
        let prev = sorted.drop_last();
        assert(is_sorted(prev)) by {
            assert forall|i: int| 0 <= i < prev.len() - 1 implies lex_le(
                #[trigger] prev[i],
                prev[i + 1],
            ) by {
                assert(prev[i] == sorted[i] && prev[i + 1] == sorted[i + 1]);
            }
        }
        lemma_insert_sorted(prev, x);
        lemma_lex_total(sorted.last(), x);
        let ins = insert_sorted(prev, x);
        let r = ins.push(sorted.last());
        assert(is_sorted(r)) by {
            assert forall|i: int| 0 <= i < r.len() - 1 implies lex_le(#[trigger] r[i], r[i + 1]) by {
                if i < ins.len() - 1 {
                    assert(r[i] == ins[i] && r[i + 1] == ins[i + 1]);
                } else {
                    assert(r[i] == ins.last());
                    // The last of `ins` is `x` or the last of `prev`.
                    lemma_insert_last(prev, x);
                    if prev.len() > 0 {
                        assert(sorted[prev.len() - 1] == prev.last());
                    }
                }
            }
        }
        assert(sorted =~= prev.push(sorted.last()));
        if prev.len() > 0 {
            assert(prev[0] == sorted[0]);
        }
    }
}

/// The last item after an insertion is the inserted one or the last before.
proof fn lemma_insert_last(sorted: Seq<Seq<char>>, x: Seq<char>)
    ensures
        insert_sorted(sorted, x).last() == x || (sorted.len() > 0 && insert_sorted(sorted, x).last()
            == sorted.last()),
    decreases sorted.len(),
{
}

/// Sorting gives the same items, in order.
pub proof fn law_sort_texts_sorted(s: Seq<Seq<char>>)
    ensures
        is_sorted(sort_texts(s)),
        sort_texts(s).to_multiset() == s.to_multiset(),
    decreases s.len(),
{
    broadcast use vstd::seq_lib::group_to_multiset_ensures;

    if s.len() > 0 {
        law_sort_texts_sorted(s.drop_last());
        lemma_insert_sorted(sort_texts(s.drop_last()), s.last());
        assert(s =~= s.drop_last().push(s.last()));
    }
}

/// Whether `a` comes before or equals `b`.
fn lex_le_exec(a: &[char], b: &[char]) -> (r: bool)
    ensures
        r == lex_le(a@, b@),
{
    let mut i: usize = 0;
    assert(a@.skip(0) =~= a@ && b@.skip(0) =~= b@);
    while i < a.len() && i < b.len() && (a[i] as u32) == (b[i] as u32)
        invariant
            i <= a@.len(),
            i <= b@.len(),
            lex_le(a@, b@) == lex_le(a@.skip(i as int), b@.skip(i as int)),
        decreases a@.len() - i,
    {
        proof {
            let sa = a@.skip(i as int);
            let sb = b@.skip(i as int);
            assert(sa[0] == a@[i as int] && sb[0] == b@[i as int]);
            assert(sa.drop_first() =~= a@.skip(i + 1));
            assert(sb.drop_first() =~= b@.skip(i + 1));
        }
        i += 1;
    }
    let ghost sa = a@.skip(i as int);
    let ghost sb = b@.skip(i as int);
    if i == a.len() {
        assert(sa.len() == 0);
        true
    } else if i == b.len() {
        assert(sb.len() == 0 && sa.len() > 0);
        false
    } else {
        assert(sa[0] == a@[i as int] && sb[0] == b@[i as int]);
        (a[i] as u32) < (b[i] as u32)
    }
}

/// `sorted` with `x` inserted as `insert_sorted` says.
proof fn lemma_insert_at(sorted: Seq<Seq<char>>, x: Seq<char>, j: int)
    requires
        0 <= j <= sorted.len(),
        forall|k: int| j <= k < sorted.len() ==> !lex_le(#[trigger] sorted[k], x),
        j == 0 || lex_le(sorted[j - 1], x),
    ensures
        insert_sorted(sorted, x) == sorted.take(j).push(x) + sorted.skip(j),
    decreases sorted.len(),
{
    if sorted.len() == 0 {
        assert(sorted.take(j).push(x) + sorted.skip(j) =~= seq![x]);
    } else if j == sorted.len() {
        assert(sorted.take(j).push(x) + sorted.skip(j) =~= sorted.push(x));
    } else {
        let prev = sorted.drop_last();
        assert(!lex_le(sorted[sorted.len() - 1], x));
        assert forall|k: int| j <= k < prev.len() implies !lex_le(#[trigger] prev[k], x) by {
            assert(prev[k] == sorted[k]);
        }
        if j > 0 {
            assert(prev[j - 1] == sorted[j - 1]);
        }
        lemma_insert_at(prev, x, j);
        assert(prev.take(j).push(x) + prev.skip(j) + seq![sorted.last()] =~= sorted.take(j).push(x)
            + sorted.skip(j));
        assert(insert_sorted(prev, x).push(sorted.last()) =~= insert_sorted(prev, x) + seq![
            sorted.last(),
        ]);
    }
}

/// The ids of models that are chat models: those not handled by the image client
/// (`dall-e…` and `gpt-image…`).
pub open spec fn chat_model_ids(ids: Seq<Seq<char>>) -> Seq<Seq<char>>
    decreases ids.len(),
{
    if ids.len() == 0 {
        Seq::empty()
    } else {
        let prev = chat_model_ids(ids.drop_last());
        let id = ids.last();
        if has_prefix(id, "dall-e"@) || has_prefix(id, "gpt-image"@) {
            prev
        } else {
            prev.push(id)
        }
    }
}

/// The bot for the model `id` of the provider at `provider`: named as the model,
/// shown by the first letter of the model in upper case, and able to take
/// attachments.
pub open spec fn model_bot(provider: Seq<char>, id: Seq<char>) -> BotView {
    BotView {
        id: bot_id_text(id, provider),
        name: id,
        avatar: PictureView::Grapheme(upper_case(seq![id[0]])),
        capabilities: Set::empty().insert(BotCapability::Attachments),
    }
}

/// The bots for the models `ids` of the provider at `provider`: the chat models,
/// sorted by name.
pub fn bots_from_model_ids(provider: &str, ids: &[String]) -> (r: Vec<Bot>)
    requires
        forall|i: int| 0 <= i < ids@.len() ==> (#[trigger] ids@[i])@.len() > 0,
    ensures
        bot_views(r@) == sort_texts(chat_model_ids(texts(ids@))).map_values(
            |id: Seq<char>| model_bot(provider@, id),
        ),
{
    let dall_e = chars_of("dall-e");
    let gpt_image = chars_of("gpt-image");
    let mut sorted: Vec<String> = Vec::new();
    let mut i: usize = 0;
    while i < ids.len()
        invariant
            i <= ids@.len(),
            dall_e@ == "dall-e"@,
            gpt_image@ == "gpt-image"@,
            texts(sorted@) == sort_texts(chat_model_ids(texts(ids@).take(i as int))),
            forall|k: int| 0 <= k < ids@.len() ==> (#[trigger] ids@[k])@.len() > 0,
            forall|k: int| 0 <= k < sorted@.len() ==> (#[trigger] sorted@[k])@.len() > 0,
        decreases ids@.len() - i,
    {
        let ghost before = texts(sorted@);
        assert(texts(ids@).take(i + 1).drop_last() =~= texts(ids@).take(i as int));
        assert(texts(ids@).take(i + 1).last() == ids@[i as int]@);
        let id = chars_of(ids[i].as_str());
        let ghost cm = chat_model_ids(texts(ids@).take(i as int));
        if !starts_with(&id, &dall_e) && !starts_with(&id, &gpt_image) {
            assert(chat_model_ids(texts(ids@).take(i + 1)) == cm.push(id@));
            assert(cm.push(id@).drop_last() =~= cm);
            assert(sort_texts(cm.push(id@)) == insert_sorted(sort_texts(cm), id@));
            let mut j: usize = sorted.len();
            while j > 0 && !lex_le_exec(&chars_of(sorted[j - 1].as_str()), &id)
                invariant
                    j <= sorted@.len(),
                    texts(sorted@) == before,
                    id@ == ids@[i as int]@,
                    forall|k: int| j <= k < sorted@.len() ==> !lex_le(#[trigger] before[k], id@),
                decreases j,
            {
                j -= 1;
            }
            proof {
                if j > 0 {
                    assert(before[j - 1] == sorted@[j - 1]@);
                }
                lemma_insert_at(before, id@, j as int);
            }
            sorted.insert(j, ids[i].clone());
            assert(texts(sorted@) =~= before.take(j as int).push(id@) + before.skip(j as int));
        }
        i += 1;
    }
    assert(texts(ids@).take(ids@.len() as int) =~= texts(ids@));
    let mut bots: Vec<Bot> = Vec::new();
    let mut k: usize = 0;
    while k < sorted.len()
        invariant
            k <= sorted@.len(),
            forall|m: int| 0 <= m < sorted@.len() ==> (#[trigger] sorted@[m])@.len() > 0,
            bot_views(bots@) == texts(sorted@).take(k as int).map_values(
                |id: Seq<char>| model_bot(provider@, id),
            ),
        decreases sorted@.len() - k,
    {
        let name = sorted[k].clone();
        let chars = chars_of(name.as_str());
        let first = string_of(&[chars[0]]);
        let avatar = Picture::Grapheme(to_upper_case(first.as_str()));
        let capabilities = BotCapabilities::new().with_capability(BotCapability::Attachments);
        let bot = Bot { id: BotId::new(name.as_str(), provider), name, avatar, capabilities };
        assert(first@ =~= seq![sorted@[k as int]@[0]]);
        assert(bot@ == model_bot(provider@, sorted@[k as int]@));
        let ghost before = bots@;
        bots.push(bot);
        proof {
            assert(seq![chars@[0]] =~= seq![sorted@[k as int]@[0]]);
            assert(bot_views(bots@) =~= bot_views(before).push(model_bot(provider@, sorted@[k as int]@)));
            assert(texts(sorted@).take(k + 1) =~= texts(sorted@).take(k as int).push(sorted@[k as int]@));
        }
        k += 1;
    }
    assert(texts(sorted@).take(sorted@.len() as int) =~= texts(sorted@));
    bots
}

/// The bots a client's result holds: its value, or none.
pub open spec fn result_bots(r: ClientResult<Vec<Bot>>) -> Seq<BotView> {
    match r.spec_value() {
        Some(v) => bot_views(v@),
        None => Seq::empty(),
    }
}

/// The bots of all the results, in order.
pub open spec fn all_bots(rs: Seq<ClientResult<Vec<Bot>>>) -> Seq<BotView>
    decreases rs.len(),
{
    if rs.len() == 0 {
        Seq::empty()
    } else {
        all_bots(rs.drop_last()) + result_bots(rs.last())
    }
}

/// The errors of all the results, in order.
pub open spec fn all_errors(rs: Seq<ClientResult<Vec<Bot>>>) -> Seq<ClientError>
    decreases rs.len(),
{
    if rs.len() == 0 {
        Seq::empty()
    } else {
        all_errors(rs.drop_last()) + rs.last().spec_errors()
    }
}

fn clone_bots(v: &Vec<Bot>) -> (r: Vec<Bot>)
    ensures
        bot_views(r@) == bot_views(v@),
{
    let mut r: Vec<Bot> = Vec::new();
    let mut i: usize = 0;
    while i < v.len()
        invariant
            i <= v@.len(),
            bot_views(r@) == bot_views(v@.take(i as int)),
        decreases v@.len() - i,
    {
        let b = v[i].clone();
        let ghost before = r@;
        r.push(b);
        assert(bot_views(r@) =~= bot_views(before).push(v@[i as int]@));
        assert(bot_views(v@.take(i + 1)) =~= bot_views(v@.take(i as int)).push(v@[i as int]@));
        i += 1;
    }
    assert(v@.take(v@.len() as int) =~= v@);
    r
}

/// Gathers the bots that several clients gave: the bots of each client apart
/// (none where it gave no value), and one result with all the bots and all the
/// errors. That result has no errors where no client gave one, and no value
/// where there were errors and no bot at all.
pub fn merge_bot_results(results: Vec<ClientResult<Vec<Bot>>>) -> (r: (
    Vec<Vec<Bot>>,
    ClientResult<Vec<Bot>>,
))
    ensures
        r.0@.len() == results@.len(),
        forall|i: int|
            0 <= i < results@.len() ==> bot_views((#[trigger] r.0@[i])@) == result_bots(
                results@[i],
            ),
        all_errors(results@).len() == 0 ==> r.1.spec_errors().len() == 0 && (r.1.spec_value() matches Some(
            v,
        ) && bot_views(v@) == all_bots(results@)),
        all_errors(results@).len() > 0 && all_bots(results@).len() == 0 ==> r.1.spec_value() is None
            && r.1.spec_errors() == all_errors(results@),
        all_errors(results@).len() > 0 && all_bots(results@).len() > 0 ==> r.1.spec_errors()
            == all_errors(results@) && (r.1.spec_value() matches Some(v) && bot_views(v@)
            == all_bots(results@)),
{
    let ghost rs = results@;
    let mut zipped: Vec<Vec<Bot>> = Vec::new();
    let mut flat: Vec<Bot> = Vec::new();
    let mut errors: Vec<ClientError> = Vec::new();
    for result in it: results.into_iter()
        invariant
            it.seq() == rs,
            zipped@.len() == it.index(),
            forall|i: int|
                0 <= i < it.index() ==> bot_views((#[trigger] zipped@[i])@) == result_bots(rs[i]),
            bot_views(flat@) == all_bots(rs.take(it.index() as int)),
            errors@ == all_errors(rs.take(it.index() as int)),
    {
        let ghost n = it.index() as int;
        assert(rs.take(n + 1).drop_last() =~= rs.take(n));
        assert(rs.take(n + 1).last() == result);
        let (value, mut errs) = result.into_value_and_errors();
        let mut bots = match value {
            Some(v) => v,
            None => Vec::new(),
        };
        assert(bot_views(bots@) == result_bots(rs[n]));
        zipped.push(clone_bots(&bots));
        let ghost flat_before = flat@;
        let ghost errors_before = errors@;
        flat.append(&mut bots);
        errors.append(&mut errs);
        assert(bot_views(flat@) =~= bot_views(flat_before) + result_bots(rs[n]));
        assert(errors@ =~= errors_before + rs[n].spec_errors());
        assert forall|i: int| 0 <= i < n + 1 implies bot_views((#[trigger] zipped@[i])@)
            == result_bots(rs[i]) by {}
    }
    assert(rs.take(rs.len() as int) =~= rs);
    let merged = if errors.len() == 0 {
        ClientResult::new_ok(flat)
    } else if flat.len() == 0 {
        assert(bot_views(flat@).len() == 0);
        ClientResult::new_err(errors)
    } else {
        ClientResult::new_ok_and_err(flat, errors)
    };
    (zipped, merged)
}

/// The list holds a bot with the id `id`.
pub open spec fn has_bot(bots: Seq<Bot>, id: Seq<char>) -> bool {
    exists|j: int| 0 <= j < bots.len() && (#[trigger] bots[j]).id@ == id
}

/// The first client, by its position, whose bots include the bot `bot_id`.
pub fn client_for_bot(bots_per_client: &[Vec<Bot>], bot_id: &BotId) -> (r: Option<usize>)
    ensures
        match r {
            Some(i) => i < bots_per_client@.len() && has_bot(bots_per_client@[i as int]@, bot_id@)
                && forall|k: int| 0 <= k < i ==> !has_bot(#[trigger] bots_per_client@[k]@, bot_id@),
            None => forall|k: int|
                0 <= k < bots_per_client@.len() ==> !has_bot(#[trigger] bots_per_client@[k]@, bot_id@),
        },
{
    let mut i: usize = 0;
    while i < bots_per_client.len()
        invariant
            i <= bots_per_client@.len(),
            forall|k: int| 0 <= k < i ==> !has_bot(#[trigger] bots_per_client@[k]@, bot_id@),
        decreases bots_per_client@.len() - i,
    {
        let bots = &bots_per_client[i];
        let mut j: usize = 0;
        while j < bots.len()
            invariant
                i < bots_per_client@.len(),
                *bots == bots_per_client@[i as int],
                forall|k: int| 0 <= k < i ==> !has_bot(#[trigger] bots_per_client@[k]@, bot_id@),
                j <= bots@.len(),
                forall|m: int| 0 <= m < j ==> (#[trigger] bots@[m]).id@ != bot_id@,
            decreases bots@.len() - j,
        {
            if bots[j].id == *bot_id {
                assert(bots_per_client@[i as int]@[j as int].id@ == bot_id@);
                return Some(i);
            }
            j += 1;
        }
        i += 1;
    }
    None
}

/// The bot known as `id` by the provider at `provider`, named as the model.
pub open spec fn listed_bot(
    provider: Seq<char>,
    id: Seq<char>,
    avatar: Seq<char>,
    capabilities: Set<BotCapability>,
) -> BotView {
    BotView {
        id: bot_id_text(id, provider),
        name: id,
        avatar: PictureView::Grapheme(avatar),
        capabilities,
    }
}

/// The bots for a fixed list of models of the provider at `provider`, each shown
/// by `avatar` and with the given capabilities, in the order of the list.
pub fn listed_bots(provider: &str, ids: &[&str], avatar: &str, capabilities: &BotCapabilities) -> (r:
    Vec<Bot>)
    ensures
        r@.len() == ids@.len(),
        forall|i: int|
            0 <= i < ids@.len() ==> (#[trigger] r@[i])@ == listed_bot(
                provider@,
                ids@[i]@,
                avatar@,
                capabilities@,
            ),
{
    let mut bots: Vec<Bot> = Vec::new();
    let mut i: usize = 0;
    while i < ids.len()
        invariant
            i <= ids@.len(),
            bots@.len() == i,
            forall|k: int|
                0 <= k < i ==> (#[trigger] bots@[k])@ == listed_bot(
                    provider@,
                    ids@[k]@,
                    avatar@,
                    capabilities@,
                ),
        decreases ids@.len() - i,
    {
        let id = ids[i];
        bots.push(
            Bot {
                id: BotId::new(id, provider),
                name: String::from_str(id),
                avatar: Picture::Grapheme(String::from_str(avatar)),
                capabilities: capabilities.clone(),
            },
        );
        i += 1;
    }
    bots
}

/// The image generation models offered by OpenAI's image API at `provider`.
pub open spec fn image_model_ids() -> Seq<Seq<char>> {
    seq!["dall-e-2"@, "dall-e-3"@, "gpt-image-1"@, "gpt-image-1-mini"@]
}

/// The bots of the image generation models at `provider`, shown by `I` and
/// without special capabilities.
pub fn image_bots(provider: &str) -> (r: Vec<Bot>)
    ensures
        r@.len() == image_model_ids().len(),
        forall|i: int|
            0 <= i < image_model_ids().len() ==> (#[trigger] r@[i])@ == listed_bot(
                provider@,
                image_model_ids()[i],
                "I"@,
                Set::empty(),
            ),
{
    let ids = ["dall-e-2", "dall-e-3", "gpt-image-1", "gpt-image-1-mini"];
    let capabilities = BotCapabilities::new();
    let r = listed_bots(provider, ids.as_slice(), "I", &capabilities);
    assert(ids@.len() == 4);
    assert forall|i: int| 0 <= i < 4 implies ids@[i]@ == image_model_ids()[i] by {}
    r
}

} // verus!
