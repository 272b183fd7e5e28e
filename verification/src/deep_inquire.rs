//! Messages of the DeepInquire service, built up from streamed deltas, in plain
//! text or in stages (thinking, writing, completed).
use vstd::prelude::*;
use vstd::string::StringExecFns;

use crate::chars::texts;

verus! {

/// Article reference in a DeepInquire response
#[derive(Debug)]
pub struct Article {
    pub title: String,
    pub url: String,
}

impl Clone for Article {
    fn clone(&self) -> (r: Article)
        ensures
            r.title@ == self.title@,
            r.url@ == self.url@,
    {
        Article { title: self.title.clone(), url: self.url.clone() }
    }
}

/// The content of one block (thinking, writing or completed) of a stage.
#[derive(Debug, PartialEq)]
pub struct MessageBlockContent {
    pub content: String,
}

/// One stage of a multi-stage answer.
#[derive(Debug, PartialEq)]
pub struct MessageStage {
    /// Stage identifier
    pub id: usize,
    /// Thinking block content
    pub thinking: Option<MessageBlockContent>,
    /// Writing block content
    pub writing: Option<MessageBlockContent>,
    /// Completed block content
    pub completed: Option<MessageBlockContent>,
}

/// The text of an optional block.
pub open spec fn block_view(b: Option<MessageBlockContent>) -> Option<Seq<char>> {
    match b {
        Some(c) => Some(c.content@),
        None => None,
    }
}

/// Abstract form of a [`MessageStage`].
pub ghost struct StageView {
    pub id: nat,
    pub thinking: Option<Seq<char>>,
    pub writing: Option<Seq<char>>,
    pub completed: Option<Seq<char>>,
}

impl View for MessageStage {
    type V = StageView;

    open spec fn view(&self) -> StageView {
        StageView {
            id: self.id as nat,
            thinking: block_view(self.thinking),
            writing: block_view(self.writing),
            completed: block_view(self.completed),
        }
    }
}

fn clone_block(b: &Option<MessageBlockContent>) -> (r: Option<MessageBlockContent>)
    ensures
        block_view(r) == block_view(*b),
{
    match b {
        Some(c) => Some(MessageBlockContent { content: c.content.clone() }),
        None => None,
    }
}

impl Clone for MessageStage {
    fn clone(&self) -> (r: MessageStage)
        ensures
            r@ == self@,
    {
        MessageStage {
            id: self.id,
            thinking: clone_block(&self.thinking),
            writing: clone_block(&self.writing),
            completed: clone_block(&self.completed),
        }
    }
}

/// The text of the most advanced block of a stage (completed > writing > thinking).
pub open spec fn spec_latest_content(s: StageView) -> Option<Seq<char>> {
    if s.completed is Some {
        s.completed
    } else if s.writing is Some {
        s.writing
    } else {
        s.thinking
    }
}

impl MessageStage {
    /// Check if this stage has completed content
    pub fn is_completed(&self) -> (r: bool)
        ensures
            r == self@.completed is Some,
    {
        self.completed.is_some()
    }

    /// Get the text content of the most advanced stage (completed > writing > thinking)
    pub fn latest_content(&self) -> (r: Option<&str>)
        ensures
            match r {
                Some(t) => spec_latest_content(self@) == Some(t@),
                None => spec_latest_content(self@) is None,
            },
    {
        if let Some(completed) = &self.completed {
            Some(completed.content.as_str())
        } else if let Some(writing) = &self.writing {
            Some(writing.content.as_str())
        } else if let Some(thinking) = &self.thinking {
            Some(thinking.content.as_str())
        } else {
            None
        }
    }
}

/// The content of a DeepInquire message.
#[derive(Debug, PartialEq)]
pub enum MessageContent {
    PlainText { text: String, citations: Vec<String> },
    MultiStage { text: String, stages: Vec<MessageStage>, citations: Vec<String> },
}

/// Abstract form of a [`MessageContent`].
pub ghost enum ContentView {
    PlainText { text: Seq<char>, citations: Seq<Seq<char>> },
    MultiStage { text: Seq<char>, stages: Seq<StageView>, citations: Seq<Seq<char>> },
}

/// The abstract forms of a list of stages.
pub open spec fn stage_views(v: Seq<MessageStage>) -> Seq<StageView> {
    v.map_values(|s: MessageStage| s@)
}

impl View for MessageContent {
    type V = ContentView;

    open spec fn view(&self) -> ContentView {
        match self {
            MessageContent::PlainText { text, citations } => ContentView::PlainText {
                text: text@,
                citations: texts(citations@),
            },
            MessageContent::MultiStage { text, stages, citations } => ContentView::MultiStage {
                text: text@,
                stages: stage_views(stages@),
                citations: texts(citations@),
            },
        }
    }
}

/// A message of a DeepInquire conversation.
#[derive(Debug, PartialEq)]
pub struct Message {
    pub content: MessageContent,
    /// The message is still being written.
    pub is_writing: bool,
}

/// Abstract form of a [`Message`].
pub ghost struct MessageView {
    pub content: ContentView,
    pub is_writing: bool,
}

impl View for Message {
    type V = MessageView;

    open spec fn view(&self) -> MessageView {
        MessageView { content: self.content@, is_writing: self.is_writing }
    }
}

/// A piece of a message streamed by DeepInquire.
#[derive(Debug, PartialEq)]
pub struct MessageDelta {
    pub content: MessageContent,
}

/// `existing` followed by the citations of `added` it does not hold yet, in order.
pub open spec fn merge_citations(existing: Seq<Seq<char>>, added: Seq<Seq<char>>) -> Seq<Seq<char>>
    decreases added.len(),
{
    if added.len() == 0 {
        existing
    } else {
        let merged = merge_citations(existing, added.drop_last());
        if merged.contains(added.last()) {
            merged
        } else {
            merged.push(added.last())
        }
    }
}

/// `stage` with the blocks that `update` has replaced by those of `update`.
pub open spec fn merge_stage(stage: StageView, update: StageView) -> StageView {
    StageView {
        id: stage.id,
        thinking: if update.thinking is Some {
            update.thinking
        } else {
            stage.thinking
        },
        writing: if update.writing is Some {
            update.writing
        } else {
            stage.writing
        },
        completed: if update.completed is Some {
            update.completed
        } else {
            stage.completed
        },
    }
}

/// Some stage of `stages` has the id `id`.
pub open spec fn has_stage(stages: Seq<StageView>, id: nat) -> bool {
    exists|i: int| 0 <= i < stages.len() && (#[trigger] stages[i]).id == id
}

/// The position of the first stage of `stages` with the id `id`.
pub open spec fn first_stage(stages: Seq<StageView>, id: nat) -> int {
    choose|i: int|
        0 <= i < stages.len() && (#[trigger] stages[i]).id == id && forall|j: int|
            0 <= j < i ==> (#[trigger] stages[j]).id != id
}

/// `stages` with each stage of `added` merged, in order, into the first stage
/// with its id, or appended when there is none.
pub open spec fn merge_stages(stages: Seq<StageView>, added: Seq<StageView>) -> Seq<StageView>
    decreases added.len(),
{
    if added.len() == 0 {
        stages
    } else {
        let merged = merge_stages(stages, added.drop_last());
        let update = added.last();
        if has_stage(merged, update.id) {
            let i = first_stage(merged, update.id);
            merged.update(i, merge_stage(merged[i], update))
        } else {
            merged.push(update)
        }
    }
}

/// Merging `added` into `stages` updates an existing stage with a completed
/// block, which marks the message as no longer being written.
pub open spec fn completes_a_stage(stages: Seq<StageView>, added: Seq<StageView>) -> bool
    decreases added.len(),
{
    if added.len() == 0 {
        false
    } else {
        completes_a_stage(stages, added.drop_last()) || (has_stage(
            merge_stages(stages, added.drop_last()),
            added.last().id,
        ) && added.last().completed is Some)
    }
}

/// The message `m` once `delta` is applied to it.
pub open spec fn spec_apply_delta(m: MessageView, delta: ContentView) -> MessageView {
    match (m.content, delta) {
        (
            ContentView::PlainText { text, citations },
            ContentView::PlainText { text: delta_text, citations: delta_citations },
        ) => MessageView {
            content: ContentView::PlainText {
                text: text + delta_text,
                citations: merge_citations(citations, delta_citations),
            },
            is_writing: m.is_writing,
        },
        (
            ContentView::MultiStage { text, stages, citations },
            ContentView::MultiStage {
                text: delta_text,
                stages: delta_stages,
                citations: delta_citations,
            },
        ) => MessageView {
            content: ContentView::MultiStage {
                text: text + delta_text,
                stages: merge_stages(stages, delta_stages),
                citations: merge_citations(citations, delta_citations),
            },
            is_writing: m.is_writing && !completes_a_stage(stages, delta_stages),
        },
        (
            ContentView::PlainText { text, citations },
            ContentView::MultiStage {
                text: delta_text,
                stages: delta_stages,
                citations: delta_citations,
            },
        ) => MessageView {
            content: ContentView::MultiStage {
                text: text + delta_text,
                stages: delta_stages,
                citations: merge_citations(citations, delta_citations),
            },
            is_writing: m.is_writing,
        },
        (
            ContentView::MultiStage { text, stages, citations },
            ContentView::PlainText { text: delta_text, citations: delta_citations },
        ) => MessageView {
            content: ContentView::MultiStage {
                text: text + delta_text,
                stages,
                citations: merge_citations(citations, delta_citations),
            },
            is_writing: m.is_writing,
        },
    }
}

fn contains_str(list: &Vec<String>, s: &String) -> (r: bool)
    ensures
        r == texts(list@).contains(s@),
{
    let mut i: usize = 0;
    while i < list.len()
        invariant
            i <= list@.len(),
            forall|j: int| 0 <= j < i ==> list@[j]@ != s@,
        decreases list@.len() - i,
    {
        if list[i] == *s {
            assert(texts(list@)[i as int] == s@);
            return true;
        }
        i += 1;
    }
    assert(!texts(list@).contains(s@)) by {
        if texts(list@).contains(s@) {
            let j = choose|j: int| 0 <= j < texts(list@).len() && texts(list@)[j] == s@;
            assert(list@[j]@ == s@);
        }
    }
    false
}

/// Appends the citations of `added` that `citations` does not hold yet.
pub(crate) fn add_citations(citations: &mut Vec<String>, added: &Vec<String>)
    ensures
        texts(final(citations)@) == merge_citations(texts(old(citations)@), texts(added@)),
{
    let ghost start = texts(citations@);
    let mut i: usize = 0;
    while i < added.len()
        invariant
            i <= added@.len(),
            texts(citations@) == merge_citations(start, texts(added@).take(i as int)),
        decreases added@.len() - i,
    {
        let ghost before = citations@;
        assert(texts(added@).take(i + 1).drop_last() =~= texts(added@).take(i as int));
        assert(texts(added@).take(i + 1).last() == added@[i as int]@);
        if !contains_str(citations, &added[i]) {
            citations.push(added[i].clone());
            assert(texts(citations@) =~= texts(before).push(added@[i as int]@));
        }
        i += 1;
    }
    assert(texts(added@).take(added@.len() as int) =~= texts(added@));
}

proof fn lemma_first_stage(stages: Seq<StageView>, i: int)
    requires
        0 <= i < stages.len(),
        forall|j: int| 0 <= j < i ==> (#[trigger] stages[j]).id != stages[i].id,
    ensures
        has_stage(stages, stages[i].id),
        first_stage(stages, stages[i].id) == i,
{
    let id = stages[i].id;
    assert(has_stage(stages, id));
    let c = first_stage(stages, id);
    assert(0 <= c < stages.len() && stages[c].id == id && forall|j: int| 0 <= j < c ==> (#[trigger] stages[j]).id != id);
    if c < i {
    } else if c > i {
        assert(stages[i].id != id);
    }
}

/// Merges the stages of `added` into `stages`; tells whether an existing stage got
/// a completed block.
fn add_stages(stages: &mut Vec<MessageStage>, added: &Vec<MessageStage>) -> (completed: bool)
    ensures
        stage_views(final(stages)@) == merge_stages(stage_views(old(stages)@), stage_views(added@)),
        completed == completes_a_stage(stage_views(old(stages)@), stage_views(added@)),
{
    let ghost start = stage_views(stages@);
    let mut completed = false;
    let mut i: usize = 0;
    while i < added.len()
        invariant
            i <= added@.len(),
            stage_views(stages@) == merge_stages(start, stage_views(added@).take(i as int)),
            completed == completes_a_stage(start, stage_views(added@).take(i as int)),
        decreases added@.len() - i,
    {
        let ghost before = stage_views(stages@);
        let new_stage = &added[i];
        assert(stage_views(added@).take(i + 1).drop_last() =~= stage_views(added@).take(i as int));
        assert(stage_views(added@).take(i + 1).last() == new_stage@);
        // find the first stage with the same id
        let mut j: usize = 0;
        while j < stages.len() && stages[j].id != new_stage.id
            invariant
                j <= stages@.len(),
                stage_views(stages@) == before,
                forall|k: int| 0 <= k < j ==> (#[trigger] stages@[k]).id != new_stage.id,
            decreases stages@.len() - j,
        {
            j += 1;
        }
        if j < stages.len() {
            proof {
                assert(before[j as int] == stages@[j as int]@);
                assert forall|k: int| 0 <= k < j implies (#[trigger] before[k]).id != before[j as int].id by {
                    assert(before[k] == stages@[k]@);
                }
                lemma_first_stage(before, j as int);
            }
            let mut stage = stages[j].clone();
            if new_stage.thinking.is_some() {
                stage.thinking = clone_block(&new_stage.thinking);
            }
            if new_stage.writing.is_some() {
                stage.writing = clone_block(&new_stage.writing);
            }
            if new_stage.completed.is_some() {
                stage.completed = clone_block(&new_stage.completed);
                completed = true;
            }
            stages.set(j, stage);
            assert(stage_views(stages@) =~= before.update(j as int, merge_stage(before[j as int], new_stage@)));
        } else {
            assert(!has_stage(before, new_stage@.id)) by {
                if has_stage(before, new_stage@.id) {
                    let k = choose|k: int| 0 <= k < before.len() && (#[trigger] before[k]).id == new_stage@.id;
                    assert(before[k] == stages@[k]@);
                }
            }
            stages.push(new_stage.clone());
            assert(stage_views(stages@) =~= before.push(new_stage@));
        }
        i += 1;
    }
    assert(stage_views(added@).take(added@.len() as int) =~= stage_views(added@));
    completed
}

fn clone_strings(v: &Vec<String>) -> (r: Vec<String>)
    ensures
        texts(r@) == texts(v@),
{
    let mut r: Vec<String> = Vec::new();
    let mut i: usize = 0;
    while i < v.len()
        invariant
            i <= v@.len(),
            texts(r@) == texts(v@).take(i as int),
        decreases v@.len() - i,
    {
        let ghost before = r@;
        let c = v[i].clone();
        r.push(c);
        assert(texts(r@) =~= texts(before).push(v@[i as int]@));
        assert(texts(v@).take(i + 1) =~= texts(v@).take(i as int).push(v@[i as int]@));
        i += 1;
    }
    assert(texts(v@).take(v@.len() as int) =~= texts(v@));
    r
}

fn clone_stages(v: &Vec<MessageStage>) -> (r: Vec<MessageStage>)
    ensures
        stage_views(r@) == stage_views(v@),
{
    let mut r: Vec<MessageStage> = Vec::new();
    let mut i: usize = 0;
    while i < v.len()
        invariant
            i <= v@.len(),
            stage_views(r@) == stage_views(v@).take(i as int),
        decreases v@.len() - i,
    {
        let ghost before = r@;
        let c = v[i].clone();
        r.push(c);
        assert(stage_views(r@) =~= stage_views(before).push(v@[i as int]@));
        assert(stage_views(v@).take(i + 1) =~= stage_views(v@).take(i as int).push(v@[i as int]@));
        i += 1;
    }
    assert(stage_views(v@).take(v@.len() as int) =~= stage_views(v@));
    r
}

impl Message {
    /// Update the message with a delta
    pub fn apply_delta(&mut self, delta: MessageDelta)
        ensures
            final(self)@ == spec_apply_delta(old(self)@, delta.content@),
    {
        let mut finished = false;
        match (&mut self.content, &delta.content) {
            // PlainText + PlainText -> append text and add citations
            (
                MessageContent::PlainText { text, citations },
                MessageContent::PlainText { text: delta_text, citations: delta_citations },
            ) => {
                text.append(delta_text.as_str());
                add_citations(citations, delta_citations);
            },
            // MultiStage + MultiStage -> update stages and append text
            (
                MessageContent::MultiStage { text, stages, citations },
                MessageContent::MultiStage {
                    text: delta_text,
                    stages: delta_stages,
                    citations: delta_citations,
                },
            ) => {
                text.append(delta_text.as_str());
                finished = add_stages(stages, delta_stages);
                add_citations(citations, delta_citations);
            },
            // PlainText + MultiStage -> convert to MultiStage and update
            (
                MessageContent::PlainText { text: existing_text, citations: existing_citations },
                MessageContent::MultiStage {
                    text: delta_text,
                    stages: delta_stages,
                    citations: delta_citations,
                },
            ) => {
                let mut combined_text = existing_text.clone();
                combined_text.append(delta_text.as_str());
                let mut combined_citations = clone_strings(existing_citations);
                add_citations(&mut combined_citations, delta_citations);
                // Convert to MultiStage
                self.content = MessageContent::MultiStage {
                    text: combined_text,
                    stages: clone_stages(delta_stages),
                    citations: combined_citations,
                };
            },
            // MultiStage + PlainText -> just append text and citations
            (
                MessageContent::MultiStage { text, citations, .. },
                MessageContent::PlainText { text: delta_text, citations: delta_citations },
            ) => {
                text.append(delta_text.as_str());
                add_citations(citations, delta_citations);
            },
        }
        if finished {
            // Mark message as completed when we get a completed stage
            self.is_writing = false;
        }
    }
}


/// The text shown for the content, whatever its kind.
pub open spec fn spec_visible_text(c: ContentView) -> Seq<char> {
    match c {
        ContentView::PlainText { text, .. } => text,
        ContentView::MultiStage { text, .. } => text,
    }
}

/// The citations of the content, whatever its kind.
pub open spec fn spec_sources(c: ContentView) -> Seq<Seq<char>> {
    match c {
        ContentView::PlainText { citations, .. } => citations,
        ContentView::MultiStage { citations, .. } => citations,
    }
}

/// The stages of the content (none for plain text).
pub open spec fn spec_stages(c: ContentView) -> Seq<StageView> {
    match c {
        ContentView::PlainText { .. } => Seq::empty(),
        ContentView::MultiStage { stages, .. } => stages,
    }
}

impl Message {
    /// Gets the visible text content to display, regardless of the content type
    pub fn visible_text(&self) -> (r: String)
        ensures
            r@ == spec_visible_text(self@.content),
    {
        match &self.content {
            MessageContent::PlainText { text, .. } => text.clone(),
            MessageContent::MultiStage { text, .. } => text.clone(),
        }
    }

    /// Gets the citations/sources regardless of the content type
    pub fn sources(&self) -> (r: Vec<String>)
        ensures
            texts(r@) == spec_sources(self@.content),
    {
        match &self.content {
            MessageContent::PlainText { citations, .. } => clone_strings(citations),
            MessageContent::MultiStage { citations, .. } => clone_strings(citations),
        }
    }

    /// Checks if this message has multi-stage content
    pub fn has_stages(&self) -> (r: bool)
        ensures
            r == (spec_stages(self@.content).len() > 0),
    {
        match &self.content {
            MessageContent::PlainText { .. } => false,
            MessageContent::MultiStage { stages, .. } => !stages.is_empty(),
        }
    }

    /// Gets the stages if this message has multi-stage content
    pub fn get_stages(&self) -> (r: Vec<MessageStage>)
        ensures
            stage_views(r@) == spec_stages(self@.content),
    {
        match &self.content {
            MessageContent::PlainText { .. } => Vec::new(),
            MessageContent::MultiStage { stages, .. } => clone_stages(stages),
        }
    }
}

/// Factory methods for creating properly formatted MessageDelta objects
pub trait MessageDeltaFactory: Sized {
    /// Create a text-only delta with optional citations
    fn text_delta(text: String, citations: Vec<String>) -> (r: Self);

    /// Create a stage-based delta
    fn stage_delta(text: String, stage: MessageStage, citations: Vec<String>) -> (r: Self);
}

impl MessageDeltaFactory for MessageDelta {
    fn text_delta(text: String, citations: Vec<String>) -> (r: MessageDelta)
        ensures
            r.content@ == (ContentView::PlainText { text: text@, citations: texts(citations@) }),
    {
        MessageDelta { content: MessageContent::PlainText { text, citations } }
    }

    fn stage_delta(text: String, stage: MessageStage, citations: Vec<String>) -> (r: MessageDelta)
        ensures
            r.content@ == (ContentView::MultiStage {
                text: text@,
                stages: seq![stage@],
                citations: texts(citations@),
            }),
    {
        let mut stages: Vec<MessageStage> = Vec::new();
        stages.push(stage);
        assert(stage_views(stages@) =~= seq![stage@]);
        MessageDelta { content: MessageContent::MultiStage { text, stages, citations } }
    }
}

/// Merging citations never brings a duplicate: a list without duplicates stays
/// without duplicates, and it ends up holding exactly the citations that either
/// list held.
pub proof fn law_merged_citations_unique(existing: Seq<Seq<char>>, added: Seq<Seq<char>>)
    requires
        existing.no_duplicates(),
    ensures
        merge_citations(existing, added).no_duplicates(),
        forall|c: Seq<char>| #[trigger] merge_citations(existing, added).contains(c) <==> (
        existing.contains(c) || added.contains(c)),
    decreases added.len(),
{
    if added.len() > 0 {
        let rest = added.drop_last();
        law_merged_citations_unique(existing, rest);
        let merged = merge_citations(existing, rest);
        assert forall|c: Seq<char>| #[trigger] merge_citations(existing, added).contains(c) <==> (
        existing.contains(c) || added.contains(c)) by {
            if added.contains(c) && !rest.contains(c) {
                let k = choose|k: int| 0 <= k < added.len() && added[k] == c;
                if k < added.len() - 1 {
                    assert(rest[k] == c);
                }
            }
            if rest.contains(c) {
                let k = choose|k: int| 0 <= k < rest.len() && rest[k] == c;
                assert(added[k] == c);
            }
            if !merged.contains(added.last()) {
                if merge_citations(existing, added).contains(c) && !merged.contains(c) {
                    let k = choose|k: int| 0 <= k < merged.len() + 1 && merged.push(added.last())[k] == c;
                    assert(c == added.last());
                }
                if merged.contains(c) {
                    let k = choose|k: int| 0 <= k < merged.len() && merged[k] == c;
                    assert(merged.push(added.last())[k] == c);
                }
                if c == added.last() {
                    assert(merged.push(added.last())[merged.len() as int] == c);
                }
            }
        }
    }
}

/// Merging stages never brings two stages with the same id: an update goes to
/// the stage with its id, and only a new id is appended.
pub proof fn law_merged_stage_ids_unique(stages: Seq<StageView>, added: Seq<StageView>)
    requires
        forall|i: int, j: int|
            0 <= i < j < stages.len() ==> (#[trigger] stages[i]).id != (#[trigger] stages[j]).id,
    ensures
        forall|i: int, j: int|
            0 <= i < j < merge_stages(stages, added).len() ==> (#[trigger] merge_stages(stages, added)[i]).id
                != (#[trigger] merge_stages(stages, added)[j]).id,
    decreases added.len(),
{
    if added.len() > 0 {
        let rest = added.drop_last();
        law_merged_stage_ids_unique(stages, rest);
        let merged = merge_stages(stages, rest);
        let update = added.last();
        if has_stage(merged, update.id) {
            let k = first_stage(merged, update.id);
            let r = merge_stages(stages, added);
            assert forall|i: int, j: int| 0 <= i < j < r.len() implies (#[trigger] r[i]).id != (
            #[trigger] r[j]).id by {
                assert(r[i].id == merged[i].id);
                assert(r[j].id == merged[j].id);
            }
        } else {
            let r = merge_stages(stages, added);
            assert forall|i: int, j: int| 0 <= i < j < r.len() implies (#[trigger] r[i]).id != (
            #[trigger] r[j]).id by {
                if j == merged.len() {
                    assert(merged[i].id != update.id);
                } else {
                    assert(r[i] == merged[i]);
                    assert(r[j] == merged[j]);
                }
            }
        }
    }
}

/// The latest content of a stage is that of its most advanced block: the
/// completed block where there is one; else the writing block where there is
/// one; else the thinking block (none where there is no block).
pub proof fn law_latest_content_is_most_advanced(s: StageView)
    ensures
        s.completed is Some ==> spec_latest_content(s) == s.completed,
        s.completed is None && s.writing is Some ==> spec_latest_content(s) == s.writing,
        s.completed is None && s.writing is None ==> spec_latest_content(s) == s.thinking,
{
}

/// Merging an update into a stage keeps the stage's id, takes each block the
/// update carries and keeps each block it lacks.
pub proof fn law_merge_stage_takes_carried_blocks(stage: StageView, update: StageView)
    ensures
        merge_stage(stage, update).id == stage.id,
        update.thinking is Some ==> merge_stage(stage, update).thinking == update.thinking,
        update.thinking is None ==> merge_stage(stage, update).thinking == stage.thinking,
        update.writing is Some ==> merge_stage(stage, update).writing == update.writing,
        update.writing is None ==> merge_stage(stage, update).writing == stage.writing,
        update.completed is Some ==> merge_stage(stage, update).completed == update.completed,
        update.completed is None ==> merge_stage(stage, update).completed == stage.completed,
{
}

/// Where some stage has the id `id`, the first one does.
proof fn lemma_first_stage_found(stages: Seq<StageView>, id: nat, i: int)
    requires
        0 <= i < stages.len(),
        stages[i].id == id,
    ensures
        0 <= first_stage(stages, id) < stages.len(),
        stages[first_stage(stages, id)].id == id,
    decreases i,
{
    if exists|j: int| 0 <= j < i && (#[trigger] stages[j]).id == id {
        let j = choose|j: int| 0 <= j < i && (#[trigger] stages[j]).id == id;
        lemma_first_stage_found(stages, id, j);
    } else {
        lemma_first_stage(stages, i);
    }
}

/// A stage update merged into the stages goes to the first stage with its id,
/// where each block that the update carries replaces that stage's block and
/// each block it lacks is kept; every other stage stays. An update whose id is
/// new is appended as it is.
pub proof fn law_update_merges_into_its_stage(stages: Seq<StageView>, update: StageView)
    ensures
        has_stage(stages, update.id) ==> {
            let r = merge_stages(stages, seq![update]);
            let i = first_stage(stages, update.id);
            &&& r.len() == stages.len()
            &&& r[i].id == stages[i].id
            &&& r[i].thinking == (if update.thinking is Some {
                update.thinking
            } else {
                stages[i].thinking
            })
            &&& r[i].writing == (if update.writing is Some {
                update.writing
            } else {
                stages[i].writing
            })
            &&& r[i].completed == (if update.completed is Some {
                update.completed
            } else {
                stages[i].completed
            })
            &&& forall|j: int| 0 <= j < stages.len() && j != i ==> #[trigger] r[j] == stages[j]
        },
        !has_stage(stages, update.id) ==> merge_stages(stages, seq![update]) == stages.push(update),
{
    assert(seq![update].drop_last() =~= Seq::<StageView>::empty());
    assert(seq![update].last() == update);
    assert(merge_stages(stages, Seq::<StageView>::empty()) == stages);
    if has_stage(stages, update.id) {
        let w = choose|w: int| 0 <= w < stages.len() && (#[trigger] stages[w]).id == update.id;
        lemma_first_stage_found(stages, update.id, w);
    }
}

} // verus!
