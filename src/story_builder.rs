//! Story fragments, the actions and triggers they are made of, and the heap
//! that resolves a requested effect into a flat sequence of rendered steps.
use crate::story_definition::{InterestPoint, Item, Place, NPC};
use rand::seq::SliceRandom;
use vstd::prelude::*;

verus! {

// ---------------------------------------------------------------------------
// Executable data model
// ---------------------------------------------------------------------------

/// Something the player says or hands over; each variant carries one free
/// text that comments are appended to.
#[derive(Debug, PartialEq, Eq)]
pub enum DialogAction {
    Hablar(NPC, String),
    Darle(NPC, Item, String),
    Ensenar(NPC, Item, String),
    FairyComment(Box<Triger>, String),
}

/// What the player has to do for a step to count as done.
#[derive(Debug, PartialEq, Eq)]
pub enum Triger {
    Dialog(DialogAction),
    Matar(NPC),
    MoverObejas,
    UseIP(InterestPoint),
    SpendITOnIP(Item, InterestPoint),
    UseITOnIP(Item, InterestPoint),
    GetCloseTo(InterestPoint, String),
    Enter(Place),
    Inmediate,
}

/// The narrative outcome of a fragment, also the key under which fragments
/// are looked up.
#[derive(Clone, Debug, PartialEq, Eq)]
pub enum StoryEffect {
    NoEffect,
    EndGame,
    NextPlaceKnoliedge,
    NewItem(Item),
    CambiarStat(String, usize),
}

/// A pointer to "whatever fragment produces this effect", with the comment
/// that closes the dialog introducing it.
#[derive(Clone, Debug, PartialEq, Eq)]
pub struct SubStoryTransition {
    pub sub_story_end_effect: StoryEffect,
    pub end_comment: String,
}

/// One authored step of a fragment; with a sub story it is replaced by the
/// rendering of that sub story.
#[derive(Clone, Debug, PartialEq, Eq)]
pub struct StoryBeatDescription {
    pub sub_story: Option<(DialogAction, SubStoryTransition)>,
    pub end_triger: Triger,
    pub end_effect: StoryEffect,
}

/// One rendered step of the playthrough.
#[derive(Clone, Debug, PartialEq, Eq)]
pub struct StoryBeat {
    pub end_triger: Triger,
    pub end_effect: StoryEffect,
}

/// An authored fragment.
#[derive(Clone, Debug, PartialEq, Eq)]
pub struct Story {
    pub start_hint: String,
    pub inmediate_substory: Option<SubStoryTransition>,
    pub beats: Vec<StoryBeatDescription>,
    pub ending_substory: Option<(DialogAction, SubStoryTransition)>,
    pub end_dialog: DialogAction,
    pub end_effect: StoryEffect,
}

// ---------------------------------------------------------------------------
// Mathematical model
// ---------------------------------------------------------------------------

/// The model of a `DialogAction`: texts as character sequences.
pub enum ActionModel {
    Hablar(NPC, Seq<char>),
    Darle(NPC, Item, Seq<char>),
    Ensenar(NPC, Item, Seq<char>),
    FairyComment(Box<TriggerModel>, Seq<char>),
}

/// The model of a `Triger`.
pub enum TriggerModel {
    Dialog(ActionModel),
    Matar(NPC),
    MoverObejas,
    UseIP(InterestPoint),
    SpendITOnIP(Item, InterestPoint),
    UseITOnIP(Item, InterestPoint),
    GetCloseTo(InterestPoint, Seq<char>),
    Enter(Place),
    Inmediate,
}

/// The model of a `StoryEffect`.
pub enum EffectModel {
    NoEffect,
    EndGame,
    NextPlaceKnoliedge,
    NewItem(Item),
    CambiarStat(Seq<char>, usize),
}

/// The model of a `SubStoryTransition`.
pub struct TransitionModel {
    pub effect: EffectModel,
    pub comment: Seq<char>,
}

/// The model of a `StoryBeatDescription`.
pub struct BeatModel {
    pub sub_story: Option<(ActionModel, TransitionModel)>,
    pub trigger: TriggerModel,
    pub effect: EffectModel,
}

/// The model of a rendered `StoryBeat`.
pub struct StepModel {
    pub trigger: TriggerModel,
    pub effect: EffectModel,
}

/// The model of a `Story`.
pub struct StoryModel {
    pub start_hint: Seq<char>,
    pub immediate: Option<TransitionModel>,
    pub beats: Seq<BeatModel>,
    pub ending: Option<(ActionModel, TransitionModel)>,
    pub end_dialog: ActionModel,
    pub end_effect: EffectModel,
}

/// The model of an action.
pub open spec fn action_view(a: DialogAction) -> ActionModel
    decreases a,
{
    match a {
        DialogAction::Hablar(n, s) => ActionModel::Hablar(n, s@),
        DialogAction::Darle(n, i, s) => ActionModel::Darle(n, i, s@),
        DialogAction::Ensenar(n, i, s) => ActionModel::Ensenar(n, i, s@),
        DialogAction::FairyComment(t, s) => ActionModel::FairyComment(
            Box::new(trigger_view(*t)),
            s@,
        ),
    }
}

/// The model of a trigger.
pub open spec fn trigger_view(t: Triger) -> TriggerModel
    decreases t,
{
    match t {
        Triger::Dialog(a) => TriggerModel::Dialog(action_view(a)),
        Triger::Matar(n) => TriggerModel::Matar(n),
        Triger::MoverObejas => TriggerModel::MoverObejas,
        Triger::UseIP(p) => TriggerModel::UseIP(p),
        Triger::SpendITOnIP(i, p) => TriggerModel::SpendITOnIP(i, p),
        Triger::UseITOnIP(i, p) => TriggerModel::UseITOnIP(i, p),
        Triger::GetCloseTo(p, s) => TriggerModel::GetCloseTo(p, s@),
        Triger::Enter(p) => TriggerModel::Enter(p),
        Triger::Inmediate => TriggerModel::Inmediate,
    }
}

impl View for DialogAction {
    type V = ActionModel;

    open spec fn view(&self) -> ActionModel {
        action_view(*self)
    }
}

impl View for Triger {
    type V = TriggerModel;

    open spec fn view(&self) -> TriggerModel {
        trigger_view(*self)
    }
}

impl View for StoryEffect {
    type V = EffectModel;

    open spec fn view(&self) -> EffectModel {
        match self {
            StoryEffect::NoEffect => EffectModel::NoEffect,
            StoryEffect::EndGame => EffectModel::EndGame,
            StoryEffect::NextPlaceKnoliedge => EffectModel::NextPlaceKnoliedge,
            StoryEffect::NewItem(i) => EffectModel::NewItem(*i),
            StoryEffect::CambiarStat(s, n) => EffectModel::CambiarStat(s@, *n),
        }
    }
}

impl View for SubStoryTransition {
    type V = TransitionModel;

    open spec fn view(&self) -> TransitionModel {
        TransitionModel { effect: self.sub_story_end_effect@, comment: self.end_comment@ }
    }
}

/// The model of an optional sub story with its introducing dialog.
pub open spec fn sub_view(s: Option<(DialogAction, SubStoryTransition)>) -> Option<
    (ActionModel, TransitionModel),
> {
    match s {
        Some(p) => Some((p.0@, p.1@)),
        None => None,
    }
}

impl View for StoryBeatDescription {
    type V = BeatModel;

    open spec fn view(&self) -> BeatModel {
        BeatModel {
            sub_story: sub_view(self.sub_story),
            trigger: self.end_triger@,
            effect: self.end_effect@,
        }
    }
}

impl View for StoryBeat {
    type V = StepModel;

    open spec fn view(&self) -> StepModel {
        StepModel { trigger: self.end_triger@, effect: self.end_effect@ }
    }
}

impl View for Story {
    type V = StoryModel;

    open spec fn view(&self) -> StoryModel {
        StoryModel {
            start_hint: self.start_hint@,
            immediate: match self.inmediate_substory {
                Some(t) => Some(t@),
                None => None,
            },
            beats: self.beats@.map_values(|b: StoryBeatDescription| b@),
            ending: sub_view(self.ending_substory),
            end_dialog: self.end_dialog@,
            end_effect: self.end_effect@,
        }
    }
}

/// A text followed by a single space and a comment.
pub open spec fn joined(text: Seq<char>, comment: Seq<char>) -> Seq<char> {
    text + seq![' '] + comment
}

impl ActionModel {
    /// The free text the action carries.
    pub open spec fn text(self) -> Seq<char> {
        match self {
            ActionModel::Hablar(_, s) => s,
            ActionModel::Darle(_, _, s) => s,
            ActionModel::Ensenar(_, _, s) => s,
            ActionModel::FairyComment(_, s) => s,
        }
    }

    /// The same action, its text replaced.
    pub open spec fn with_text(self, s: Seq<char>) -> ActionModel {
        match self {
            ActionModel::Hablar(n, _) => ActionModel::Hablar(n, s),
            ActionModel::Darle(n, i, _) => ActionModel::Darle(n, i, s),
            ActionModel::Ensenar(n, i, _) => ActionModel::Ensenar(n, i, s),
            ActionModel::FairyComment(t, _) => ActionModel::FairyComment(t, s),
        }
    }

    /// The same action with a comment appended to its text.
    pub open spec fn with_comment(self, comment: Seq<char>) -> ActionModel {
        self.with_text(joined(self.text(), comment))
    }
}

// ---------------------------------------------------------------------------
// Copies and comment composition
// ---------------------------------------------------------------------------

fn joined_text(text: &String, comment: &str) -> (r: String)
    ensures
        r@ == joined(text@, comment@),
{
    let mut r = text.clone();
    proof {
        reveal_strlit(" ");
    }
    r.append(" ");
    r.append(comment);
    r
}

impl DialogAction {
    fn duplicate(&self) -> (r: DialogAction)
        ensures
            r@ == self@,
        decreases self,
    {
        match self {
            DialogAction::Hablar(n, s) => DialogAction::Hablar(*n, s.clone()),
            DialogAction::Darle(n, i, s) => DialogAction::Darle(*n, *i, s.clone()),
            DialogAction::Ensenar(n, i, s) => DialogAction::Ensenar(*n, *i, s.clone()),
            DialogAction::FairyComment(t, s) => DialogAction::FairyComment(
                Box::new(t.duplicate()),
                s.clone(),
            ),
        }
    }

    /// The same action, with `comment` appended to its text after a space.
    pub fn add_comment(&self, comment: String) -> (r: DialogAction)
        ensures
            r@ == self@.with_comment(comment@),
    {
        match self {
            DialogAction::Hablar(n, s) => DialogAction::Hablar(*n, joined_text(s, comment.as_str())),
            DialogAction::Darle(n, i, s) => DialogAction::Darle(
                *n,
                *i,
                joined_text(s, comment.as_str()),
            ),
            DialogAction::Ensenar(n, i, s) => DialogAction::Ensenar(
                *n,
                *i,
                joined_text(s, comment.as_str()),
            ),
            DialogAction::FairyComment(t, s) => DialogAction::FairyComment(
                Box::new(t.duplicate()),
                joined_text(s, comment.as_str()),
            ),
        }
    }
}

impl Clone for DialogAction {
    fn clone(&self) -> Self {
        self.duplicate()
    }
}

impl Clone for Triger {
    fn clone(&self) -> Self {
        self.duplicate()
    }
}

impl Triger {
    fn duplicate(&self) -> (r: Triger)
        ensures
            r@ == self@,
        decreases self,
    {
        match self {
            Triger::Dialog(a) => Triger::Dialog(a.duplicate()),
            Triger::Matar(n) => Triger::Matar(*n),
            Triger::MoverObejas => Triger::MoverObejas,
            Triger::UseIP(p) => Triger::UseIP(*p),
            Triger::SpendITOnIP(i, p) => Triger::SpendITOnIP(*i, *p),
            Triger::UseITOnIP(i, p) => Triger::UseITOnIP(*i, *p),
            Triger::GetCloseTo(p, s) => Triger::GetCloseTo(*p, s.clone()),
            Triger::Enter(p) => Triger::Enter(*p),
            Triger::Inmediate => Triger::Inmediate,
        }
    }
}

impl StoryEffect {
    fn duplicate(&self) -> (r: StoryEffect)
        ensures
            r@ == self@,
    {
        match self {
            StoryEffect::NoEffect => StoryEffect::NoEffect,
            StoryEffect::EndGame => StoryEffect::EndGame,
            StoryEffect::NextPlaceKnoliedge => StoryEffect::NextPlaceKnoliedge,
            StoryEffect::NewItem(i) => StoryEffect::NewItem(*i),
            StoryEffect::CambiarStat(s, n) => StoryEffect::CambiarStat(s.clone(), *n),
        }
    }

    /// Whether two effects are the same outcome.
    pub fn same_as(&self, other: &StoryEffect) -> (r: bool)
        ensures
            r == (self@ == other@),
    {
        match (self, other) {
            (StoryEffect::NoEffect, StoryEffect::NoEffect) => true,
            (StoryEffect::EndGame, StoryEffect::EndGame) => true,
            (StoryEffect::NextPlaceKnoliedge, StoryEffect::NextPlaceKnoliedge) => true,
            (StoryEffect::NewItem(a), StoryEffect::NewItem(b)) => *a == *b,
            (StoryEffect::CambiarStat(s, n), StoryEffect::CambiarStat(t, m)) => *n == *m && *s
                == *t,
            _ => false,
        }
    }
}

impl SubStoryTransition {
    fn duplicate(&self) -> (r: SubStoryTransition)
        ensures
            r@ == self@,
    {
        SubStoryTransition {
            sub_story_end_effect: self.sub_story_end_effect.duplicate(),
            end_comment: self.end_comment.clone(),
        }
    }
}

fn duplicate_sub(s: &Option<(DialogAction, SubStoryTransition)>) -> (r: Option<
    (DialogAction, SubStoryTransition),
>)
    ensures
        sub_view(r) == sub_view(*s),
{
    match s {
        Some((a, t)) => Some((a.duplicate(), t.duplicate())),
        None => None,
    }
}

impl StoryBeatDescription {
    fn duplicate(&self) -> (r: StoryBeatDescription)
        ensures
            r@ == self@,
    {
        StoryBeatDescription {
            sub_story: duplicate_sub(&self.sub_story),
            end_triger: self.end_triger.duplicate(),
            end_effect: self.end_effect.duplicate(),
        }
    }

    /// A beat without a sub story renders as its own single step; one with a
    /// sub story renders as that sub story, introduced by its dialog.
    pub fn render(&self, sh: &mut StoryHeap) -> (r: Result<Vec<StoryBeat>, String>)
        ensures
            match self.sub_story {
                None => final(sh)@ == old(sh)@ && result_view(r) == Ok::<Seq<StepModel>, Seq<char>>(
                    seq![beat_step(self@)],
                ),
                Some((a, t)) => render_outcome(
                    old(sh)@,
                    t.sub_story_end_effect@,
                    a@,
                    t.end_comment@,
                    final(sh)@,
                    result_view(r),
                ) && rendered(
                    old(sh)@,
                    t.sub_story_end_effect@,
                    a@,
                    t.end_comment@,
                    final(sh)@,
                    result_view(r),
                ),
            },
    {
        match &self.sub_story {
            None => {
                let v = vec![
                    StoryBeat { end_triger: self.end_triger.duplicate(), end_effect: self.end_effect.duplicate() },
                ];
                assert(steps_view(v@) =~= seq![beat_step(self@)]);
                Ok(v)
            },
            Some((starting_dialog, transition)) => sh.render(
                &transition.sub_story_end_effect,
                starting_dialog,
                &transition.end_comment,
            ),
        }
    }
}

impl Story {
    fn duplicate(&self) -> (r: Story)
        ensures
            r@ == self@,
    {
        let mut beats: Vec<StoryBeatDescription> = Vec::new();
        let mut k: usize = 0;
        while k < self.beats.len()
            invariant
                k <= self.beats@.len(),
                beats@.len() == k,
                forall|j: int| 0 <= j < k ==> (#[trigger] beats@[j])@ == self.beats@[j]@,
            decreases self.beats@.len() - k,
        {
            beats.push(self.beats[k].duplicate());
            k = k + 1;
        }
        let immediate = match &self.inmediate_substory {
            Some(t) => Some(t.duplicate()),
            None => None,
        };
        let r = Story {
            start_hint: self.start_hint.clone(),
            inmediate_substory: immediate,
            beats,
            ending_substory: duplicate_sub(&self.ending_substory),
            end_dialog: self.end_dialog.duplicate(),
            end_effect: self.end_effect.duplicate(),
        };
        assert(r@.beats =~= self@.beats);
        r
    }
}

// ---------------------------------------------------------------------------
// The heap of fragments
// ---------------------------------------------------------------------------

/// A pool of fragments, each with a flag that says whether it has been
/// consumed since construction or the last reset.
pub struct StoryHeap {
    stories: Vec<(bool, Story)>,
}

/// The model of a heap: each fragment with its consumed flag.
pub type Pool = Seq<(bool, StoryModel)>;

impl View for StoryHeap {
    type V = Pool;

    closed spec fn view(&self) -> Pool {
        self.stories@.map_values(|p: (bool, Story)| (p.0, p.1@))
    }
}

/// Fragment `i` may be chosen for effect `e`: it is unconsumed and ends in `e`.
pub open spec fn eligible(pool: Pool, i: int, e: EffectModel) -> bool {
    0 <= i < pool.len() && !pool[i].0 && pool[i].1.end_effect == e
}

/// Some fragment may be chosen for effect `e`.
pub open spec fn has_candidate(pool: Pool, e: EffectModel) -> bool {
    exists|i: int| eligible(pool, i, e)
}

/// The pool after fragment `i` was consumed.
pub open spec fn consume(pool: Pool, i: int) -> Pool {
    pool.update(i, (true, pool[i].1))
}

/// The pool with every fragment unconsumed.
pub open spec fn refreshed(pool: Pool) -> Pool {
    pool.map_values(|p: (bool, StoryModel)| (false, p.1))
}

/// `after` holds the fragments of `before`, and every fragment consumed in
/// `before` is still consumed in `after`.
pub open spec fn grows(before: Pool, after: Pool) -> bool {
    &&& after.len() == before.len()
    &&& forall|i: int| 0 <= i < before.len() ==> (#[trigger] after[i]).1 == before[i].1
    &&& forall|i: int| 0 <= i < before.len() && (#[trigger] before[i]).0 ==> after[i].0
}

/// How many fragments of the pool may be chosen for effect `e`.
pub open spec fn candidate_count(pool: Pool, e: EffectModel) -> nat
    decreases pool.len(),
{
    if pool.len() == 0 {
        0
    } else {
        candidate_count(pool.drop_last(), e) + if eligible(pool, pool.len() - 1, e) {
            1nat
        } else {
            0nat
        }
    }
}

/// How many fragments of the pool are unconsumed.
pub open spec fn unconsumed(pool: Pool) -> nat
    decreases pool.len(),
{
    if pool.len() == 0 {
        0
    } else {
        unconsumed(pool.drop_last()) + if pool.last().0 {
            0nat
        } else {
            1nat
        }
    }
}

/// The step that introduces a fragment: the dialog that led to it, with the
/// fragment's hint appended.
pub open spec fn intro_step(story: StoryModel, dialog: ActionModel) -> StepModel {
    StepModel {
        trigger: TriggerModel::Dialog(dialog.with_comment(story.start_hint)),
        effect: EffectModel::NoEffect,
    }
}

/// The step that closes a fragment: its end dialog with the closing comment
/// appended, producing its end effect.
pub open spec fn final_step(story: StoryModel, comment: Seq<char>) -> StepModel {
    StepModel {
        trigger: TriggerModel::Dialog(story.end_dialog.with_comment(comment)),
        effect: story.end_effect,
    }
}

/// The step of a beat that has no sub story.
pub open spec fn beat_step(beat: BeatModel) -> StepModel {
    StepModel { trigger: beat.trigger, effect: beat.effect }
}

/// A fragment that depends on no other: no immediate or trailing sub story,
/// and no beat with one.
pub open spec fn is_flat(story: StoryModel) -> bool {
    &&& story.immediate is None
    &&& story.ending is None
    &&& forall|k: int| 0 <= k < story.beats.len() ==> (#[trigger] story.beats[k]).sub_story is None
}

/// The rendering of a flat fragment.
pub open spec fn flat_render(story: StoryModel, dialog: ActionModel, comment: Seq<char>) -> Seq<
    StepModel,
> {
    seq![intro_step(story, dialog)] + story.beats.map_values(|b: BeatModel| beat_step(b)) + seq![
        final_step(story, comment),
    ]
}

/// The pieces of a sequence of steps laid end to end.
pub open spec fn concat_all(parts: Seq<Seq<StepModel>>) -> Seq<StepModel>
    decreases parts.len(),
{
    if parts.len() == 0 {
        seq![]
    } else {
        concat_all(parts.drop_last()) + parts.last()
    }
}

/// `part` may be the rendering of a sub story: it is not empty and ends with
/// a step producing the effect the sub story asks for.
pub open spec fn expands_sub(t: TransitionModel, part: Seq<StepModel>) -> bool {
    part.len() >= 1 && part.last().effect == t.effect
}

/// `part` may be the expansion of a beat: the beat's own step when it has no
/// sub story, else a rendering of that sub story.
pub open spec fn expands_beat(beat: BeatModel, part: Seq<StepModel>) -> bool {
    match beat.sub_story {
        None => part == seq![beat_step(beat)],
        Some((_, t)) => expands_sub(t, part),
    }
}

/// `steps` is `head`, then the beat expansions `parts` in authored order,
/// then `tail`, then the closing step; `head` is the introduction step or
/// the rendering of the immediate sub story, and `tail` is empty or the
/// rendering of the trailing sub story.
pub open spec fn ordered_as(
    story: StoryModel,
    dialog: ActionModel,
    comment: Seq<char>,
    steps: Seq<StepModel>,
    head: Seq<StepModel>,
    parts: Seq<Seq<StepModel>>,
    tail: Seq<StepModel>,
) -> bool {
    &&& steps == head + concat_all(parts) + tail + seq![final_step(story, comment)]
    &&& match story.immediate {
        None => head == seq![intro_step(story, dialog)],
        Some(t) => expands_sub(t, head),
    }
    &&& parts.len() == story.beats.len()
    &&& forall|k: int| 0 <= k < parts.len() ==> expands_beat(story.beats[k], #[trigger] parts[k])
    &&& match story.ending {
        None => tail == Seq::<StepModel>::empty(),
        Some((_, t)) => expands_sub(t, tail),
    }
}

/// `steps` opens with a step of no effect whose dialog is `seed` with `hint`
/// appended to its text, followed by `extra`.
pub open spec fn opening(
    steps: Seq<StepModel>,
    seed: ActionModel,
    hint: Seq<char>,
    extra: Seq<char>,
) -> bool {
    &&& steps.len() >= 1
    &&& steps[0] == StepModel {
        trigger: TriggerModel::Dialog(seed.with_text(joined(seed.text(), hint) + extra)),
        effect: EffectModel::NoEffect,
    }
}

/// The text of an action after its text was replaced is the new text, and a
/// second replacement overrides the first.
pub proof fn lemma_with_text(a: ActionModel, s: Seq<char>, t: Seq<char>)
    ensures
        a.with_text(s).text() == s,
        a.with_text(s).with_text(t) == a.with_text(t),
{
}

/// What a rendering of `story`, introduced by `dialog` and closed by
/// `comment`, looks like: it opens with the introduction step unless an
/// immediate sub story takes its place, and in any case with the seed dialog
/// carrying the fragment's hint and then whatever the immediate sub stories
/// append; it is laid out as `ordered_as` says,
/// ends with the closing step, and is exactly the flat rendering when the
/// fragment is flat.
pub open spec fn renders_story(
    story: StoryModel,
    dialog: ActionModel,
    comment: Seq<char>,
    steps: Seq<StepModel>,
) -> bool {
    &&& steps.len() >= 1
    &&& steps.last() == final_step(story, comment)
    &&& story.immediate is None ==> steps[0] == intro_step(story, dialog)
    &&& exists|extra: Seq<char>| #[trigger] opening(steps, dialog, story.start_hint, extra)
    &&& exists|head: Seq<StepModel>, parts: Seq<Seq<StepModel>>, tail: Seq<StepModel>|
        #[trigger] ordered_as(story, dialog, comment, steps, head, parts, tail)
    &&& is_flat(story) ==> steps == flat_render(story, dialog, comment)
}

/// What rendering effect `e` from pool `before` may give, ending in pool
/// `after`: fragments are only consumed, never released; without a
/// candidate it fails and consumes nothing; a failure carries the one
/// message, and when there was a candidate it comes from a fragment that was
/// consumed and depends on others; a success consumed a fragment that was a
/// candidate and renders it (consuming nothing else when that fragment is
/// flat). So a render whose candidates are all flat succeeds.
pub open spec fn render_outcome(
    before: Pool,
    e: EffectModel,
    dialog: ActionModel,
    comment: Seq<char>,
    after: Pool,
    r: Result<Seq<StepModel>, Seq<char>>,
) -> bool {
    &&& grows(before, after)
    &&& !has_candidate(before, e) ==> r is Err && after == before
    &&& match r {
        Ok(steps) => steps.len() >= 1 && steps.last().effect == e && exists|i: int|
            #![trigger before[i]]
            eligible(before, i, e) && after[i].0 && renders_story(before[i].1, dialog, comment, steps)
                && (is_flat(before[i].1) ==> after == consume(before, i)),
        Err(msg) => msg == no_story_message() && (has_candidate(before, e) ==> exists|i: int|
            #![trigger before[i]]
            eligible(before, i, e) && after[i].0 && !is_flat(before[i].1)),
    }
}

/// One piece of work in rendering a fragment: emit a fixed step, or render
/// a sub story for an effect, introduced by a dialog and closed by a comment.
pub enum Job {
    Emit(StepModel),
    Resolve(EffectModel, ActionModel, Seq<char>),
}

/// The result of a rendering, as steps or as the error message.
pub type Outcome = Result<Seq<StepModel>, Seq<char>>;

/// The first job of a fragment: its immediate sub story, introduced by the
/// incoming dialog with the hint appended, or else the introduction step.
pub open spec fn opening_job(story: StoryModel, dialog: ActionModel) -> Job {
    match story.immediate {
        Some(t) => Job::Resolve(t.effect, dialog.with_comment(story.start_hint), t.comment),
        None => Job::Emit(intro_step(story, dialog)),
    }
}

/// The job of a beat: its own step, or its sub story.
pub open spec fn beat_job(beat: BeatModel) -> Job {
    match beat.sub_story {
        Some((a, t)) => Job::Resolve(t.effect, a, t.comment),
        None => Job::Emit(beat_step(beat)),
    }
}

/// The jobs of a fragment before its closing step, in order: the opening,
/// each beat, and the trailing sub story if there is one.
pub open spec fn jobs_of(story: StoryModel, dialog: ActionModel) -> Seq<Job> {
    seq![opening_job(story, dialog)] + story.beats.map_values(|b: BeatModel| beat_job(b))
        + match story.ending {
        Some((a, t)) => seq![Job::Resolve(t.effect, a, t.comment)],
        None => Seq::<Job>::empty(),
    }
}

/// Steps put in front of an outcome; an error stays as it is.
pub open spec fn prefixed(s: Seq<StepModel>, r: Outcome) -> Outcome {
    match r {
        Ok(t) => Ok(s + t),
        Err(m) => Err(m),
    }
}

/// Rendering effect `e` from pool `before`, introduced by `dialog` and closed
/// by `comment`, may end in pool `after` with outcome `r`: with no candidate
/// it fails with the message and consumes nothing; otherwise a candidate
/// `i` is consumed and its jobs run in order from there.
pub open spec fn rendered(
    before: Pool,
    e: EffectModel,
    dialog: ActionModel,
    comment: Seq<char>,
    after: Pool,
    r: Outcome,
) -> bool
    decreases unconsumed(before), 2nat, 0nat, 0nat,
{
    if !has_candidate(before, e) {
        r == Outcome::Err(no_story_message()) && after == before
    } else {
        exists|i: int|
            #[trigger] eligible(before, i, e) && run(
                consume(before, i),
                jobs_of(before[i].1, dialog),
                final_step(before[i].1, comment),
                after,
                r,
                unconsumed(before),
            )
    }
}

/// Job `job`, started in `pool`, may end in pool `mid` with outcome `r`;
/// a sub story may only be rendered from a pool with fewer than `bound`
/// unconsumed fragments.
pub open spec fn job_done(pool: Pool, job: Job, mid: Pool, r: Outcome, bound: nat) -> bool
    decreases bound, 0nat, 0nat, 0nat,
{
    match job {
        Job::Emit(s) => mid == pool && r == Outcome::Ok(seq![s]),
        Job::Resolve(e, d, c) => unconsumed(pool) < bound && rendered(pool, e, d, c, mid, r),
    }
}

/// Running `jobs` from `pool` and then emitting `last` may end in pool
/// `after` with outcome `r`: the first failing job ends the run with its
/// error; otherwise the outcomes are laid end to end.
pub open spec fn run(
    pool: Pool,
    jobs: Seq<Job>,
    last: StepModel,
    after: Pool,
    r: Outcome,
    bound: nat,
) -> bool
    decreases bound, 1nat, jobs.len(), 1nat,
{
    if jobs.len() == 0 {
        after == pool && r == Outcome::Ok(seq![last])
    } else {
        exists|mid: Pool, r1: Outcome, r2: Outcome|
            #[trigger] split_at_first(mid, r1, r2) && run_step(
                pool,
                jobs,
                last,
                after,
                r,
                bound,
                mid,
                r1,
                r2,
            )
    }
}

/// Names the pool and the outcomes a run is split into after its first job.
pub open spec fn split_at_first(mid: Pool, r1: Outcome, r2: Outcome) -> bool {
    true
}

/// One step of `run`: the first job ends in `mid` with `r1`, and the rest
/// run from `mid` with `r2`.
pub open spec fn run_step(
    pool: Pool,
    jobs: Seq<Job>,
    last: StepModel,
    after: Pool,
    r: Outcome,
    bound: nat,
    mid: Pool,
    r1: Outcome,
    r2: Outcome,
) -> bool
    decreases bound, 1nat, jobs.len(), 0nat,
{
    &&& jobs.len() > 0
    &&& job_done(pool, jobs[0], mid, r1, bound)
    &&& match r1 {
        Err(_) => r == r1 && after == mid,
        Ok(s1) => run(mid, jobs.drop_first(), last, after, r2, bound) && r == prefixed(s1, r2),
    }
}

/// Laying pieces end to end: the first piece, then the rest.
pub proof fn lemma_concat_first(parts: Seq<Seq<StepModel>>)
    requires
        parts.len() > 0,
    ensures
        concat_all(parts) == parts[0] + concat_all(parts.drop_first()),
    decreases parts.len(),
{
    if parts.len() > 1 {
        lemma_concat_first(parts.drop_last());
        assert(parts.drop_last().drop_first() =~= parts.drop_first().drop_last());
        assert(parts.drop_first().last() == parts.last());
    } else {
        assert(parts.drop_last() =~= Seq::<Seq<StepModel>>::empty());
        assert(parts.drop_first() =~= Seq::<Seq<StepModel>>::empty());
    }
}

/// Jobs that all succeeded, each from the pool the previous one left, make a
/// successful run of the remaining jobs from any point on.
pub proof fn lemma_run_ok(
    pools: Seq<Pool>,
    outs: Seq<Seq<StepModel>>,
    jobs: Seq<Job>,
    last: StepModel,
    bound: nat,
    k: int,
)
    requires
        pools.len() == jobs.len() + 1,
        outs.len() == jobs.len(),
        forall|j: int|
            0 <= j < jobs.len() ==> job_done(
                #[trigger] pools[j],
                jobs[j],
                pools[j + 1],
                Outcome::Ok(outs[j]),
                bound,
            ),
        0 <= k <= jobs.len(),
    ensures
        run(
            pools[k],
            jobs.skip(k),
            last,
            pools.last(),
            Outcome::Ok(concat_all(outs.skip(k)) + seq![last]),
            bound,
        ),
    decreases jobs.len() - k,
{
    if k < jobs.len() {
        lemma_run_ok(pools, outs, jobs, last, bound, k + 1);
        lemma_concat_first(outs.skip(k));
        assert(outs.skip(k).drop_first() =~= outs.skip(k + 1));
        assert(jobs.skip(k).drop_first() =~= jobs.skip(k + 1));
        let r2 = Outcome::Ok(concat_all(outs.skip(k + 1)) + seq![last]);
        assert(split_at_first(pools[k + 1], Outcome::Ok(outs[k]), r2));
        assert(outs[k] + (concat_all(outs.skip(k + 1)) + seq![last]) =~= concat_all(outs.skip(k))
            + seq![last]);
        assert(run_step(
            pools[k],
            jobs.skip(k),
            last,
            pools.last(),
            Outcome::Ok(concat_all(outs.skip(k)) + seq![last]),
            bound,
            pools[k + 1],
            Outcome::Ok(outs[k]),
            r2,
        ));
    } else {
        assert(outs.skip(k) =~= Seq::<Seq<StepModel>>::empty());
        assert(jobs.skip(k) =~= Seq::<Job>::empty());
    }
}

/// Jobs that succeeded up to `f`, followed by job `f` failing, make a failed
/// run of the remaining jobs from any point up to `f`.
pub proof fn lemma_run_err(
    pools: Seq<Pool>,
    outs: Seq<Seq<StepModel>>,
    jobs: Seq<Job>,
    last: StepModel,
    bound: nat,
    f: int,
    after: Pool,
    m: Seq<char>,
    k: int,
)
    requires
        0 <= f < jobs.len(),
        pools.len() == f + 1,
        outs.len() == f,
        forall|j: int|
            0 <= j < f ==> job_done(
                #[trigger] pools[j],
                jobs[j],
                pools[j + 1],
                Outcome::Ok(outs[j]),
                bound,
            ),
        job_done(pools[f], jobs[f], after, Outcome::Err(m), bound),
        0 <= k <= f,
    ensures
        run(pools[k], jobs.skip(k), last, after, Outcome::Err(m), bound),
    decreases f - k,
{
    assert(jobs.skip(k)[0] == jobs[k]);
    assert(jobs.skip(k).drop_first() =~= jobs.skip(k + 1));
    if k < f {
        lemma_run_err(pools, outs, jobs, last, bound, f, after, m, k + 1);
        assert(split_at_first(pools[k + 1], Outcome::Ok(outs[k]), Outcome::Err(m)));
        assert(run_step(
            pools[k],
            jobs.skip(k),
            last,
            after,
            Outcome::Err(m),
            bound,
            pools[k + 1],
            Outcome::Ok(outs[k]),
            Outcome::Err(m),
        ));
    } else {
        assert(split_at_first(after, Outcome::Err(m), Outcome::Err(m)));
        assert(run_step(
            pools[k],
            jobs.skip(k),
            last,
            after,
            Outcome::Err(m),
            bound,
            after,
            Outcome::Err(m),
            Outcome::Err(m),
        ));
    }
}

/// The steps of a rendering.
pub open spec fn steps_view(v: Seq<StoryBeat>) -> Seq<StepModel> {
    v.map_values(|b: StoryBeat| b@)
}

/// The model of a rendering's result.
pub open spec fn result_view(r: Result<Vec<StoryBeat>, String>) -> Result<Seq<StepModel>, Seq<char>> {
    match r {
        Ok(v) => Ok(steps_view(v@)),
        Err(e) => Err(e@),
    }
}

/// Consuming never makes more fragments unconsumed.
pub proof fn lemma_grows_unconsumed(a: Pool, b: Pool)
    requires
        grows(a, b),
    ensures
        unconsumed(b) <= unconsumed(a),
    decreases a.len(),
{
    if a.len() > 0 {
        assert(grows(a.drop_last(), b.drop_last()));
        lemma_grows_unconsumed(a.drop_last(), b.drop_last());
    }
}

/// Growth of the consumed set composes.
pub proof fn lemma_grows_trans(a: Pool, b: Pool, c: Pool)
    requires
        grows(a, b),
        grows(b, c),
    ensures
        grows(a, c),
{
}

/// Consuming an unconsumed fragment leaves one fewer unconsumed.
pub proof fn lemma_consume_unconsumed(a: Pool, i: int)
    requires
        0 <= i < a.len(),
        !a[i].0,
    ensures
        unconsumed(consume(a, i)) + 1 == unconsumed(a),
    decreases a.len(),
{
    let c = consume(a, i);
    if i == a.len() - 1 {
        assert(c.drop_last() =~= a.drop_last());
    } else {
        assert(c.drop_last() =~= consume(a.drop_last(), i));
        lemma_consume_unconsumed(a.drop_last(), i);
    }
}

/// The message of the one error: no fragment can be chosen.
pub open spec fn no_story_message() -> Seq<char> {
    "No story found"@
}

/// Relies on rand's `SliceRandom::choose` (with `thread_rng`): `None` exactly
/// for an empty slice, else one of its elements.
#[verifier::external_body]
fn choose_one(options: &Vec<usize>) -> (r: Option<usize>)
    ensures
        r is None <==> options@.len() == 0,
        r matches Some(i) ==> options@.contains(i),
{
    options.choose(&mut rand::thread_rng()).copied()
}

fn no_story_error() -> (e: String)
    ensures
        e@ == no_story_message(),
{
    "No story found".to_string()
}

impl StoryHeap {
    /// A heap holding `stories`, none of them consumed.
    pub fn new(stories: Vec<Story>) -> (r: StoryHeap)
        ensures
            r@ == stories@.map_values(|s: Story| (false, s@)),
    {
        let mut pool: Vec<(bool, Story)> = Vec::new();
        let mut rest = stories;
        let ghost all = rest@;
        while rest.len() > 0
            invariant
                pool@.len() + rest@.len() == all.len(),
                rest@ == all.skip(pool@.len() as int),
                forall|j: int| 0 <= j < pool@.len() ==> #[trigger] pool@[j] == (false, all[j]),
            decreases rest@.len(),
        {
            let s = rest.remove(0);
            pool.push((false, s));
            assert(rest@ =~= all.skip(pool@.len() as int));
        }
        let r = StoryHeap { stories: pool };
        assert(r@ =~= stories@.map_values(|s: Story| (false, s@)));
        r
    }

    /// Marks every fragment unconsumed again.
    pub fn reset_used(&mut self)
        ensures
            final(self)@ == refreshed(old(self)@),
    {
        let n = self.stories.len();
        let mut k: usize = 0;
        while k < n
            invariant
                n == old(self)@.len(),
                k <= n,
                self@.len() == n,
                forall|j: int| 0 <= j < k ==> #[trigger] self@[j] == (false, old(self)@[j].1),
                forall|j: int| k <= j < n ==> #[trigger] self@[j] == old(self)@[j],
            decreases n - k,
        {
            let ghost prev = self@;
            self.stories[k].0 = false;
            assert(self@ =~= prev.update(k as int, (false, prev[k as int].1)));
            k = k + 1;
        }
        assert(self@ =~= refreshed(old(self)@));
    }

    /// The positions of the fragments that may be chosen for `effect`, in
    /// increasing order.
    pub fn candidates(&self, effect: &StoryEffect) -> (r: Vec<usize>)
        ensures
            forall|k: int| 0 <= k < r@.len() ==> eligible(self@, #[trigger] r@[k] as int, effect@),
            forall|i: int|
                eligible(self@, i, effect@) ==> exists|k: int|
                    0 <= k < r@.len() && #[trigger] r@[k] as int == i,
            forall|j: int, k: int| 0 <= j < k < r@.len() ==> r@[j] < r@[k],
    {
        let mut r: Vec<usize> = Vec::new();
        let mut k: usize = 0;
        while k < self.stories.len()
            invariant
                k <= self@.len(),
                forall|m: int| 0 <= m < r@.len() ==> eligible(self@, #[trigger] r@[m] as int, effect@),
                forall|m: int| 0 <= m < r@.len() ==> #[trigger] r@[m] < k,
                forall|i: int|
                    0 <= i < k && eligible(self@, i, effect@) ==> exists|m: int|
                        0 <= m < r@.len() && #[trigger] r@[m] as int == i,
                forall|j: int, m: int| 0 <= j < m < r@.len() ==> r@[j] < r@[m],
            decreases self@.len() - k,
        {
            let ghost prev = r@;
            if !self.stories[k].0 && self.stories[k].1.end_effect.same_as(effect) {
                r.push(k);
                assert(r@[r@.len() - 1] as int == k as int);
            }
            assert forall|i: int|
                0 <= i < k + 1 && eligible(self@, i, effect@) implies exists|m: int|
                    0 <= m < r@.len() && #[trigger] r@[m] as int == i by {
                if i < k {
                    let m = choose|m: int| 0 <= m < prev.len() && #[trigger] prev[m] as int == i;
                    assert(r@[m] == prev[m]);
                } else {
                    assert(r@[r@.len() - 1] as int == i);
                }
            }
            k = k + 1;
        }
        r
    }

    /// Consumes the fragment at `index` and hands out a copy of it.
    pub fn take(&mut self, index: usize) -> (r: Story)
        requires
            index < old(self)@.len(),
        ensures
            final(self)@ == consume(old(self)@, index as int),
            r@ == old(self)@[index as int].1,
    {
        let r = self.stories[index].1.duplicate();
        self.stories[index].0 = true;
        assert(self@ =~= consume(old(self)@, index as int));
        r
    }

    /// Resolves `effect` into a flat sequence of steps: chooses a fragment for
    /// it, then expands its immediate sub story (or emits its introduction),
    /// its beats in order, its trailing sub story, and closes with its end
    /// dialog. Fails, with nothing returned, as soon as some effect on the way
    /// has no candidate. `rendered` states the outcome exactly, up to which
    /// candidate each selection picks; `render_outcome` draws the shape of
    /// the result from it.
    #[verifier::rlimit(100)]
    pub fn render(
        &mut self,
        effect: &StoryEffect,
        starting_dialog: &DialogAction,
        end_comment: &String,
    ) -> (r: Result<Vec<StoryBeat>, String>)
        ensures
            render_outcome(
                old(self)@,
                effect@,
                starting_dialog@,
                end_comment@,
                final(self)@,
                result_view(r),
            ),
            rendered(
                old(self)@,
                effect@,
                starting_dialog@,
                end_comment@,
                final(self)@,
                result_view(r),
            ),
        decreases unconsumed(old(self)@),
    {
        let ghost before = self@;
        let chosen = match self.get(effect) {
            Ok(s) => s,
            Err(e) => {
                return Err(e);
            },
        };
        let ghost i = choose|i: int|
            eligible(before, i, effect@) && self@ == consume(before, i) && chosen@ == before[i].1;
        let ghost mid = self@;
        proof {
            lemma_consume_unconsumed(before, i);
        }
        let ghost story = chosen@;
        let ghost jobs = jobs_of(story, starting_dialog@);
        let ghost bound = unconsumed(before);
        let ghost last = final_step(story, end_comment@);
        let ghost mut pools: Seq<Pool> = seq![mid];
        let ghost mut outs: Seq<Seq<StepModel>> = seq![];
        assert(jobs[0] == opening_job(story, starting_dialog@));
        let mut story_line: Vec<StoryBeat> = Vec::new();
        let introduction = starting_dialog.add_comment(chosen.start_hint.clone());
        let ghost mut extra_open: Seq<char> = seq![];
        match &chosen.inmediate_substory {
            Some(sub) => {
                let ghost pool = self@;
                let mut part = match self.render(
                    &sub.sub_story_end_effect,
                    &introduction,
                    &sub.end_comment,
                ) {
                    Ok(p) => p,
                    Err(e) => {
                        proof {
                            lemma_run_err(pools, outs, jobs, last, bound, 0, self@, e@, 0);
                            assert(jobs.skip(0) =~= jobs);
                        }
                        return Err(e);
                    },
                };
                proof {
                    let sv = steps_view(part@);
                    assert(job_done(pool, jobs[0], self@, Outcome::Ok(sv), bound));
                    pools = pools.push(self@);
                    outs = outs.push(sv);
                    let j = choose|j: int|
                        #![trigger pool[j]]
                        eligible(pool, j, sub.sub_story_end_effect@) && self@[j].0 && renders_story(
                            pool[j].1,
                            introduction@,
                            sub.end_comment@,
                            sv,
                        ) && (is_flat(pool[j].1) ==> self@ == consume(pool, j));
                    let hint2 = pool[j].1.start_hint;
                    let extra2 = choose|x: Seq<char>| #[trigger] opening(sv, introduction@, hint2, x);
                    let d = starting_dialog@;
                    lemma_with_text(d, joined(d.text(), story.start_hint), joined(
                        joined(d.text(), story.start_hint),
                        hint2,
                    ) + extra2);
                    let extra = seq![' '] + hint2 + extra2;
                    assert(joined(joined(d.text(), story.start_hint), hint2) + extra2 =~= joined(
                        d.text(),
                        story.start_hint,
                    ) + extra);
                    assert(opening(sv, d, story.start_hint, extra));
                    extra_open = extra;
                }
                let ghost sv = steps_view(part@);
                story_line.append(&mut part);
                assert(steps_view(story_line@) =~= sv);
                assert(outs[0] == sv);
            },
            None => {
                story_line.push(
                    StoryBeat { end_triger: Triger::Dialog(introduction), end_effect: StoryEffect::NoEffect },
                );
                assert(opening(steps_view(story_line@), starting_dialog@, story.start_hint, seq![]));
                proof {
                    assert(steps_view(story_line@) =~= seq![intro_step(story, starting_dialog@)]);
                    assert(job_done(mid, jobs[0], self@, Outcome::Ok(steps_view(story_line@)), bound));
                    pools = pools.push(self@);
                    outs = outs.push(steps_view(story_line@));
                }
            },
        }
        proof {
            assert(outs.len() == 1);
            assert(outs.drop_last() =~= Seq::<Seq<StepModel>>::empty());
            assert(concat_all(outs) == concat_all(outs.drop_last()) + outs.last());
            assert(concat_all(outs) =~= outs[0]);
        }
        let ghost first = steps_view(story_line@)[0];
        assert(opening(steps_view(story_line@), starting_dialog@, story.start_hint, extra_open));
        let ghost head = steps_view(story_line@);
        let ghost parts: Seq<Seq<StepModel>> = seq![];
        let mut k: usize = 0;
        while k < chosen.beats.len()
            invariant
                jobs == jobs_of(story, starting_dialog@),
                bound == unconsumed(before),
                last == final_step(story, end_comment@),
                pools.len() == k + 2,
                outs.len() == k + 1,
                pools[0] == mid,
                pools.last() == self@,
                steps_view(story_line@) == concat_all(outs),
                forall|j: int|
                    0 <= j < outs.len() ==> job_done(
                        #[trigger] pools[j],
                        jobs[j],
                        pools[j + 1],
                        Outcome::Ok(outs[j]),
                        bound,
                    ),
                steps_view(story_line@) == head + concat_all(parts),
                head.len() >= 1,
                head[0] == first,
                parts.len() == k,
                forall|j: int| 0 <= j < k ==> expands_beat(story.beats[j], #[trigger] parts[j]),
                match story.immediate {
                    None => head == seq![intro_step(story, starting_dialog@)],
                    Some(t) => expands_sub(t, head),
                },
                before == old(self)@,
                chosen@ == story,
                story == before[i].1,
                eligible(before, i, effect@),
                mid == consume(before, i),
                unconsumed(mid) < unconsumed(before),
                grows(mid, self@),
                k <= chosen.beats@.len(),
                story_line@.len() >= 1,
                story.immediate is None ==> steps_view(story_line@)[0] == intro_step(
                    story,
                    starting_dialog@,
                ),
                is_flat(story) ==> self@ == mid && steps_view(story_line@) == seq![
                    intro_step(story, starting_dialog@),
                ] + story.beats.take(k as int).map_values(|b: BeatModel| beat_step(b)),
            decreases chosen.beats@.len() - k,
        {
            proof {
                lemma_grows_unconsumed(mid, self@);
            }
            let ghost line = story_line@;
            let beat = &chosen.beats[k];
            let mut part = match &beat.sub_story {
                None => vec![
                    StoryBeat { end_triger: beat.end_triger.duplicate(), end_effect: beat.end_effect.duplicate() },
                ],
                Some((dialog, transition)) => match self.render(
                    &transition.sub_story_end_effect,
                    dialog,
                    &transition.end_comment,
                ) {
                    Ok(p) => p,
                    Err(e) => {
                        proof {
                            lemma_grows_trans(before, mid, self@);
                            assert(jobs[k + 1] == beat_job(story.beats[k as int]));
                            assert(story.beats[k as int] == chosen.beats@[k as int]@);
                            lemma_run_err(pools, outs, jobs, last, bound, k + 1, self@, e@, 0);
                            assert(jobs.skip(0) =~= jobs);
                        }
                        return Err(e);
                    },
                },
            };
            let ghost piece = part@;
            assert(story.beats[k as int] == chosen.beats@[k as int]@);
            if beat.sub_story.is_none() {
                assert(steps_view(piece) =~= seq![beat_step(story.beats[k as int])]);
            }
            assert(expands_beat(story.beats[k as int], steps_view(piece)));
            proof {
                assert(jobs[k + 1] == beat_job(story.beats[k as int]));
                assert(job_done(pools.last(), jobs[k + 1], self@, Outcome::Ok(steps_view(piece)), bound));
                assert(outs.push(steps_view(piece)).drop_last() =~= outs);
                pools = pools.push(self@);
                outs = outs.push(steps_view(piece));
            }
            story_line.append(&mut part);
            assert(steps_view(story_line@) =~= steps_view(line) + steps_view(piece));
            proof {
                assert(parts.push(steps_view(piece)).drop_last() =~= parts);
                parts = parts.push(steps_view(piece));
            }
            assert(story.beats.take(k + 1).map_values(|b: BeatModel| beat_step(b)) =~= story.beats.take(
                k as int,
            ).map_values(|b: BeatModel| beat_step(b)) + seq![beat_step(story.beats[k as int])]);
            k = k + 1;
        }
        proof {
            lemma_grows_unconsumed(mid, self@);
        }
        let ghost body = story_line@;
        let ghost mut tail: Seq<StepModel> = seq![];
        match &chosen.ending_substory {
            Some((start_dialog, sub)) => {
                let mut part = match self.render(
                    &sub.sub_story_end_effect,
                    start_dialog,
                    &sub.end_comment,
                ) {
                    Ok(p) => p,
                    Err(e) => {
                        proof {
                            lemma_grows_trans(before, mid, self@);
                            let n = story.beats.len() as int;
                            assert(jobs[n + 1] == Job::Resolve(
                                sub.sub_story_end_effect@,
                                start_dialog@,
                                sub.end_comment@,
                            ));
                            lemma_run_err(pools, outs, jobs, last, bound, n + 1, self@, e@, 0);
                            assert(jobs.skip(0) =~= jobs);
                        }
                        return Err(e);
                    },
                };
                proof {
                    tail = steps_view(part@);
                    let n = story.beats.len() as int;
                    assert(jobs[n + 1] == Job::Resolve(
                        sub.sub_story_end_effect@,
                        start_dialog@,
                        sub.end_comment@,
                    ));
                    assert(job_done(pools.last(), jobs[n + 1], self@, Outcome::Ok(tail), bound));
                    assert(outs.push(tail).drop_last() =~= outs);
                    pools = pools.push(self@);
                    outs = outs.push(tail);
                }
                story_line.append(&mut part);
                assert(steps_view(story_line@) =~= steps_view(body) + tail);
            },
            None => {
                assert(steps_view(story_line@) =~= steps_view(body) + tail);
                assert(jobs.len() == outs.len());
            },
        }
        let ghost line = story_line@;
        story_line.push(
            StoryBeat {
                end_triger: Triger::Dialog(chosen.end_dialog.add_comment(end_comment.clone())),
                end_effect: chosen.end_effect.duplicate(),
            },
        );
        proof {
            assert(steps_view(story_line@) =~= steps_view(line) + seq![
                final_step(story, end_comment@),
            ]);
            if is_flat(story) {
                assert(story.beats.take(story.beats.len() as int) =~= story.beats);
                assert(steps_view(story_line@) =~= flat_render(story, starting_dialog@, end_comment@));
            }
            assert(ordered_as(
                story,
                starting_dialog@,
                end_comment@,
                steps_view(story_line@),
                head,
                parts,
                tail,
            ));
            assert(steps_view(story_line@)[0] == (head + concat_all(parts) + tail + seq![
                final_step(story, end_comment@),
            ])[0]);
            assert(opening(steps_view(story_line@), starting_dialog@, story.start_hint, extra_open));
            assert(renders_story(before[i].1, starting_dialog@, end_comment@, steps_view(story_line@)));
            lemma_run_ok(pools, outs, jobs, last, bound, 0);
            assert(jobs.skip(0) =~= jobs);
            assert(outs.skip(0) =~= outs);
        }
        Ok(story_line)
    }

    /// Consumes one fragment chosen at random among those that may be chosen
    /// for `effect`, and hands out a copy of it; fails when there is none.
    pub fn get(&mut self, effect: &StoryEffect) -> (r: Result<Story, String>)
        ensures
            r is Ok <==> has_candidate(old(self)@, effect@),
            match r {
                Ok(s) => exists|i: int|
                    eligible(old(self)@, i, effect@) && final(self)@ == consume(old(self)@, i)
                        && s@ == old(self)@[i].1,
                Err(e) => final(self)@ == old(self)@ && e@ == no_story_message(),
            },
    {
        let options = self.candidates(effect);
        match choose_one(&options) {
            Some(i) => {
                let s = self.take(i);
                Ok(s)
            },
            None => {
                proof {
                    if has_candidate(old(self)@, effect@) {
                        let i = choose|i: int| eligible(old(self)@, i, effect@);
                        assert(exists|m: int| 0 <= m < options@.len() && options@[m] as int == i);
                    }
                }
                Err(no_story_error())
            },
        }
    }
}

} // verus!
