//! How the DeepInquire client builds up a message from the stream of deltas:
//! plain text, or stages kept in the message's data.
use vstd::prelude::*;

use vstd::slice::slice_subrange;
use vstd::string::StringExecFns;

use crate::chars::{
    chars_of, find, lemma_find_from, push_char, split_from, split_pieces, string_of, texts,
    to_upper_case, upper_case,
};
use crate::openai::join_spaced;
use crate::deep_inquire::Article;
use crate::text::str_eq;

verus! {

/// A block of a stage: a text and the urls it cites.
#[derive(Debug)]
pub struct StageContent {
    pub text: String,
    pub citations: Vec<String>,
}

/// Abstract form of a [`StageContent`].
pub ghost struct StageContentView {
    pub text: Seq<char>,
    pub citations: Seq<Seq<char>>,
}

impl View for StageContent {
    type V = StageContentView;

    open spec fn view(&self) -> StageContentView {
        StageContentView { text: self.text@, citations: texts(self.citations@) }
    }
}

/// The abstract form of an optional block.
pub open spec fn opt_view(b: Option<StageContent>) -> Option<StageContentView> {
    match b {
        Some(c) => Some(c@),
        None => None,
    }
}

/// A stage of a DeepInquire answer, by id, with the block of each phase it went
/// through.
#[derive(Debug)]
pub struct Stage {
    pub id: usize,
    pub thinking: Option<StageContent>,
    pub writing: Option<StageContent>,
    pub completed: Option<StageContent>,
}

/// Abstract form of a [`Stage`].
pub ghost struct StageState {
    pub id: usize,
    pub thinking: Option<StageContentView>,
    pub writing: Option<StageContentView>,
    pub completed: Option<StageContentView>,
}

impl View for Stage {
    type V = StageState;

    open spec fn view(&self) -> StageState {
        StageState {
            id: self.id,
            thinking: opt_view(self.thinking),
            writing: opt_view(self.writing),
            completed: opt_view(self.completed),
        }
    }
}

/// The stages of an answer, as a message keeps them in its data.
#[derive(Debug)]
pub struct Data {
    pub stages: Vec<Stage>,
}

/// The abstract forms of a list of stages.
pub open spec fn stage_states(v: Seq<Stage>) -> Seq<StageState> {
    v.map_values(|s: Stage| s@)
}

/// One delta of the stream: a text with its sources, for the stage `id` and
/// the phase named by `stage_type`, or for the message itself when there is none.
#[derive(Debug)]
pub struct DeltaContent {
    pub content: String,
    pub articles: Vec<Article>,
    pub stage_type: Option<String>,
    pub id: usize,
}

#[derive(Debug)]
pub struct DeltaChoice {
    pub delta: DeltaContent,
}

/// A chunk of the stream.
#[derive(Debug)]
pub struct DeepInquireResponse {
    pub choices: Vec<DeltaChoice>,
}

/// What the stream has built of a message: its text and citations, and the
/// stages kept in its data (none until a stage arrives).
#[derive(Debug)]
pub struct DeepInquireContent {
    pub text: String,
    pub citations: Vec<String>,
    pub data: Option<Data>,
}

/// Abstract form of a [`DeepInquireContent`].
pub ghost struct DeepInquireContentView {
    pub text: Seq<char>,
    pub citations: Seq<Seq<char>>,
    pub stages: Option<Seq<StageState>>,
}

impl View for DeepInquireContent {
    type V = DeepInquireContentView;

    open spec fn view(&self) -> DeepInquireContentView {
        DeepInquireContentView {
            text: self.text@,
            citations: texts(self.citations@),
            stages: match self.data {
                Some(d) => Some(stage_states(d.stages@)),
                None => None,
            },
        }
    }
}

/// The urls of the articles, in order.
pub open spec fn article_urls(articles: Seq<Article>) -> Seq<Seq<char>> {
    articles.map_values(|a: Article| a.url@)
}

/// The block a delta brings: its text, citing the urls of its articles.
pub open spec fn delta_block(d: DeltaContent) -> StageContentView {
    StageContentView { text: d.content@, citations: article_urls(d.articles@) }
}

/// The phases of a stage a delta can fill.
#[derive(Clone, Copy, Debug, PartialEq, Eq, Structural)]
pub enum Phase {
    Thinking,
    Writing,
    Completed,
}

/// The phase a stage type names: `thinking`, `content` (writing) or `completion`.
pub open spec fn phase_of(stage_type: Seq<char>) -> Option<Phase> {
    if stage_type == "thinking"@ {
        Some(Phase::Thinking)
    } else if stage_type == "content"@ {
        Some(Phase::Writing)
    } else if stage_type == "completion"@ {
        Some(Phase::Completed)
    } else {
        None
    }
}

/// `stage` with the block of `phase` set to `block`.
pub open spec fn set_phase(stage: StageState, phase: Phase, block: StageContentView) -> StageState {
    match phase {
        Phase::Thinking => StageState { thinking: Some(block), ..stage },
        Phase::Writing => StageState { writing: Some(block), ..stage },
        Phase::Completed => StageState { completed: Some(block), ..stage },
    }
}

/// The position of the first stage with the id `id`.
pub open spec fn find_stage(stages: Seq<StageState>, id: usize) -> Option<int>
    decreases stages.len(),
{
    if stages.len() == 0 {
        None
    } else if stages[0].id == id {
        Some(0)
    } else {
        match find_stage(stages.drop_first(), id) {
            Some(i) => Some(i + 1),
            None => None,
        }
    }
}

/// The stages once the block of `phase` of the stage `id` is set: the first
/// stage with that id is updated, or a new stage is added at the end.
pub open spec fn update_stage(
    stages: Seq<StageState>,
    id: usize,
    phase: Phase,
    block: StageContentView,
) -> Seq<StageState> {
    match find_stage(stages, id) {
        Some(i) => stages.update(i, set_phase(stages[i], phase, block)),
        None => stages.push(
            set_phase(StageState { id, thinking: None, writing: None, completed: None }, phase, block),
        ),
    }
}

/// The message once a delta is applied: a delta without stage type replaces the
/// text and citations (the stages are kept); one with a known stage type sets
/// that phase of its stage; one with an unknown type changes nothing.
pub open spec fn spec_apply_delta(c: DeepInquireContentView, d: DeltaContent) -> DeepInquireContentView {
    match d.stage_type {
        None => DeepInquireContentView {
            text: d.content@,
            citations: article_urls(d.articles@),
            stages: c.stages,
        },
        Some(t) => match phase_of(t@) {
            Some(phase) => DeepInquireContentView {
                stages: Some(
                    update_stage(
                        match c.stages {
                            Some(s) => s,
                            None => Seq::empty(),
                        },
                        d.id,
                        phase,
                        delta_block(d),
                    ),
                ),
                ..c
            },
            None => c,
        },
    }
}

/// The message once the deltas of the choices are applied in order.
pub open spec fn spec_apply_choices(c: DeepInquireContentView, choices: Seq<DeltaChoice>) -> DeepInquireContentView
    decreases choices.len(),
{
    if choices.len() == 0 {
        c
    } else {
        spec_apply_delta(spec_apply_choices(c, choices.drop_last()), choices.last().delta)
    }
}

fn urls_of(articles: Vec<Article>) -> (r: Vec<String>)
    ensures
        texts(r@) == article_urls(articles@),
{
    let ghost a = articles@;
    let mut r: Vec<String> = Vec::new();
    for article in it: articles.into_iter()
        invariant
            it.seq() == a,
            texts(r@) == article_urls(a.take(it.index() as int)),
    {
        let ghost before = r@;
        let ghost n = it.index() as int;
        r.push(article.url);
        assert(texts(r@) =~= texts(before).push(a[n].url@));
        assert(article_urls(a.take(n + 1)) =~= article_urls(a.take(n)).push(a[n].url@));
    }
    assert(a.take(a.len() as int) =~= a);
    r
}

/// Sets the block of `phase` of the stage `id`, as `update_stage` says.
fn create_or_update_stage(stages: &mut Vec<Stage>, id: usize, phase: Phase, block: StageContent)
    ensures
        stage_states(final(stages)@) == update_stage(stage_states(old(stages)@), id, phase, block@),
{
    let ghost s = stage_states(stages@);
    let ghost b = block@;
    let mut i: usize = 0;
    assert(s.skip(0) =~= s);
    while i < stages.len()
        invariant
            i <= stages@.len(),
            b == block@,
            stages@ == old(stages)@,
            s == stage_states(stages@),
            forall|j: int| 0 <= j < i ==> s[j].id != id,
            find_stage(s, id) == match find_stage(s.skip(i as int), id) {
                Some(k) => Some(k + i),
                None => None,
            },
        decreases stages@.len() - i,
    {
        if stages[i].id == id {
            assert(s.skip(i as int)[0] == s[i as int]);
            assert(s.skip(i as int)[0].id == id);
            assert(find_stage(s, id) == Some(i as int));
            let ghost old_v = stages@;
            let mut stage = stages.remove(i);
            assert(stage@ == s[i as int]);
            match phase {
                Phase::Thinking => {
                    stage.thinking = Some(block);
                },
                Phase::Writing => {
                    stage.writing = Some(block);
                },
                Phase::Completed => {
                    stage.completed = Some(block);
                },
            }
            let ghost updated = stage;
            assert(updated@ == set_phase(s[i as int], phase, b));
            stages.insert(i, stage);
            assert(stages@ =~= old_v.update(i as int, updated));
            assert(stage_states(stages@) =~= s.update(i as int, set_phase(s[i as int], phase, b)));
            return;
        }
        proof {
            let rest = s.skip(i as int);
            assert(rest[0] == s[i as int]);
            assert(rest.drop_first() =~= s.skip(i + 1));
        }
        i += 1;
    }
    assert(s.skip(i as int).len() == 0);
    let mut stage = Stage { id, thinking: None, writing: None, completed: None };
    match phase {
        Phase::Thinking => {
            stage.thinking = Some(block);
        },
        Phase::Writing => {
            stage.writing = Some(block);
        },
        Phase::Completed => {
            stage.completed = Some(block);
        },
    }
    stages.push(stage);
    assert(stage_states(stages@) =~= s.push(
        set_phase(StageState { id, thinking: None, writing: None, completed: None }, phase, b),
    ));
}

/// Applies the deltas of a chunk of the stream to the message, in order.
pub fn apply_response_to_content(response: DeepInquireResponse, content: &mut DeepInquireContent)
    ensures
        final(content)@ == spec_apply_choices(old(content)@, response.choices@),
{
    let ghost choices = response.choices@;
    let ghost start = content@;
    for choice in it: response.choices.into_iter()
        invariant
            it.seq() == choices,
            content@ == spec_apply_choices(start, choices.take(it.index() as int)),
    {
        let ghost n = it.index() as int;
        let ghost before = content@;
        assert(choices.take(n + 1).drop_last() =~= choices.take(n));
        assert(choices.take(n + 1).last() == choices[n]);
        let delta = choice.delta;
        let ghost d = delta;
        let stage_id = delta.id;
        let stage_type = delta.stage_type;
        let text = delta.content;
        let citations = urls_of(delta.articles);
        let block = StageContent { text, citations };
        assert(block@ == delta_block(d));
        match stage_type {
            Some(t) => {
                let phase = if str_eq(t.as_str(), "thinking") {
                    Some(Phase::Thinking)
                } else if str_eq(t.as_str(), "content") {
                    Some(Phase::Writing)
                } else if str_eq(t.as_str(), "completion") {
                    Some(Phase::Completed)
                } else {
                    None
                };
                assert(phase == phase_of(t@));
                if let Some(phase) = phase {
                    let mut data = match content.data.take() {
                        Some(d) => d,
                        None => Data { stages: Vec::new() },
                    };
                    assert(stage_states(data.stages@) == match before.stages {
                        Some(s) => s,
                        None => Seq::<StageState>::empty(),
                    });
                    create_or_update_stage(&mut data.stages, stage_id, phase, block);
                    content.data = Some(data);
                }
            },
            None => {
                content.text = block.text;
                content.citations = block.citations;
            },
        }
        assert(content@ == spec_apply_delta(before, d));
    }
    assert(choices.take(choices.len() as int) =~= choices);
}

/// A word with its first letter in upper case.
pub open spec fn capitalized(w: Seq<char>) -> Seq<char> {
    if w.len() == 0 {
        w
    } else {
        upper_case(seq![w[0]]) + w.skip(1)
    }
}

/// The words of a name, separated by `_`, each capitalized.
pub open spec fn capitalized_words(words: Seq<Seq<char>>) -> Seq<Seq<char>> {
    words.map_values(|w: Seq<char>| capitalized(w))
}

/// How a stage name such as `deep_search` is shown: its words, separated by `_`,
/// capitalized and joined by spaces (`Deep Search`).
pub open spec fn spec_human_readable_stage_name(name: Seq<char>) -> Seq<char> {
    join_spaced(capitalized_words(split_pieces(name, seq!['_'])))
}

/// The word `w` with its first letter in upper case.
fn capitalize(w: &[char]) -> (r: String)
    ensures
        r@ == capitalized(w@),
{
    if w.len() == 0 {
        return String::new();
    }
    let first = string_of(&[w[0]]);
    let mut r = to_upper_case(first.as_str());
    let rest = string_of(slice_subrange(w, 1, w.len()));
    r.append(rest.as_str());
    assert(first@ =~= seq![w@[0]]);
    r
}

/// How a stage name is shown: its words capitalized and joined by spaces.
pub fn get_human_readable_stage_name(name: &str) -> (r: String)
    ensures
        r@ == spec_human_readable_stage_name(name@),
{
    let v = chars_of(name);
    let n = v.len();
    let sep = vec!['_'];
    assert(sep@ =~= seq!['_']);
    let ghost all = split_pieces(v@, sep@);
    let ghost mut done: Seq<Seq<char>> = Seq::empty();
    let mut r = String::new();
    let mut first = true;
    let mut pos: usize = 0;
    loop
        invariant
            n == v@.len(),
            v@ == name@,
            first == (done.len() == 0),
            sep@ == seq!['_'],
            pos <= n,
            all == split_pieces(v@, sep@),
            all == done + split_from(v@, sep@, pos as int),
            r@ == join_spaced(capitalized_words(done)),
        decreases n + 1 - pos,
    {
        let found = find(&v, &sep, pos);
        proof {
            lemma_find_from(v@, sep@, pos as int);
        }
        let end = match found {
            Some(i) => i,
            None => n,
        };
        let piece = slice_subrange(&v, pos, end);
        let ghost rest = match found {
            Some(i) => split_from(v@, sep@, i + 1),
            None => Seq::empty(),
        };
        assert(split_from(v@, sep@, pos as int) == seq![piece@] + rest);
        let word = capitalize(piece);
        let ghost before = done;
        if !first {
            push_char(&mut r, ' ');
        }
        r.append(word.as_str());
        first = false;
        proof {
            done = before.push(piece@);
            assert(done + rest =~= before + (seq![piece@] + rest));
            assert(capitalized_words(done) =~= capitalized_words(before).push(capitalized(piece@)));
            assert(capitalized_words(done).drop_last() =~= capitalized_words(before));
            if before.len() > 0 {
                assert(r@ =~= join_spaced(capitalized_words(before)) + seq![' '] + capitalized(
                    piece@,
                ));
            } else {
                assert(capitalized_words(before).len() == 0);
                assert(r@ =~= capitalized(piece@));
            }
            assert(capitalized_words(done).last() == capitalized(piece@));
            assert(r@ == join_spaced(capitalized_words(done)));
        }
        match found {
            Some(i) => {
                pos = i + 1;
            },
            None => {
                assert(all =~= done);
                return r;
            },
        }
    }
}

} // verus!
