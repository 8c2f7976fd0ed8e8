//! Domain data: statuses, epics, stories, the persisted state snapshot, the
//! actions a screen can produce, and the mathematical views of all of them.

use std::collections::HashMap;
use vstd::prelude::*;

verus! {

/// The lifecycle stage of an epic or a story. The order of the variants is
/// for display only: any status may follow any other.
#[derive(Clone, Copy, Debug, PartialEq, Eq, Structural)]
pub enum Status {
    Open,
    InProgress,
    Resolved,
    Closed,
}

/// A structured intent produced by interpreting raw screen input, consumed by
/// the navigator.
#[derive(Clone, Copy, Debug, PartialEq, Eq, Structural)]
pub enum Action {
    NavigateToEpicDetail { epic_id: u32 },
    NavigateToStoryDetail { epic_id: u32, story_id: u32 },
    NavigateToPreviousPage,
    CreateEpic,
    UpdateEpicStatus { epic_id: u32 },
    DeleteEpic { epic_id: u32 },
    CreateStory { epic_id: u32 },
    UpdateStoryStatus { story_id: u32 },
    DeleteStory { epic_id: u32, story_id: u32 },
    Exit,
}

/// The label under which a status is displayed.
pub open spec fn status_label(s: Status) -> Seq<char> {
    match s {
        Status::Open => "OPEN"@,
        Status::InProgress => "IN PROGRESS"@,
        Status::Resolved => "RESOLVED"@,
        Status::Closed => "CLOSED"@,
    }
}

impl Status {
    /// The display label of this status, as [`status_label`] gives it.
    pub fn text(&self) -> (r: String)
        ensures
            r@ == status_label(*self),
    {
        match self {
            Status::Open => "OPEN".to_owned(),
            Status::InProgress => "IN PROGRESS".to_owned(),
            Status::Resolved => "RESOLVED".to_owned(),
            Status::Closed => "CLOSED".to_owned(),
        }
    }
}

/// A leaf work item, owned by exactly one epic through an id reference.
#[derive(Clone, Debug, PartialEq, Eq)]
pub struct Story {
    pub name: String,
    pub description: String,
    pub status: Status,
}

/// A top-level work item. `stories` is the authoritative membership list of
/// its story ids, in insertion order.
#[derive(Clone, Debug, PartialEq, Eq)]
pub struct Epic {
    pub name: String,
    pub description: String,
    pub status: Status,
    pub stories: Vec<u32>,
}

/// The complete persisted snapshot: the id allocation counter and both entity
/// maps, keyed by a single shared id namespace.
#[derive(Clone, Debug, PartialEq, Eq)]
pub struct DBState {
    pub last_item_id: u32,
    pub epics: HashMap<u32, Epic>,
    pub stories: HashMap<u32, Story>,
}

/// Mathematical view of a [`Story`].
#[verifier::ext_equal]
pub struct StoryView {
    pub name: Seq<char>,
    pub description: Seq<char>,
    pub status: Status,
}

/// Mathematical view of an [`Epic`].
#[verifier::ext_equal]
pub struct EpicView {
    pub name: Seq<char>,
    pub description: Seq<char>,
    pub status: Status,
    pub stories: Seq<u32>,
}

/// Mathematical view of a [`DBState`].
#[verifier::ext_equal]
pub struct StateView {
    pub last_item_id: u32,
    pub epics: Map<u32, EpicView>,
    pub stories: Map<u32, StoryView>,
}

impl View for Story {
    type V = StoryView;

    open spec fn view(&self) -> StoryView {
        StoryView { name: self.name@, description: self.description@, status: self.status }
    }
}

impl View for Epic {
    type V = EpicView;

    open spec fn view(&self) -> EpicView {
        EpicView {
            name: self.name@,
            description: self.description@,
            status: self.status,
            stories: self.stories@,
        }
    }
}

impl View for DBState {
    type V = StateView;

    open spec fn view(&self) -> StateView {
        StateView {
            last_item_id: self.last_item_id,
            epics: self.epics@.map_values(|e: Epic| e@),
            stories: self.stories@.map_values(|s: Story| s@),
        }
    }
}

/// The story id `s` appears in the membership list of epic `e`.
pub open spec fn listed_in(v: StateView, e: u32, s: u32) -> bool {
    v.epics.contains_key(e) && v.epics[e].stories.contains(s)
}

/// Referential integrity of a state snapshot:
/// - ids never exceed the allocation counter, so a freshly allocated id is new;
/// - an id names an epic or a story, never both (one shared namespace);
/// - every id listed by an epic is a key of `stories`;
/// - every key of `stories` is listed by exactly one epic, exactly once.
pub open spec fn state_wf(v: StateView) -> bool {
    &&& forall|e: u32| #[trigger] v.epics.contains_key(e) ==> e <= v.last_item_id
    &&& forall|s: u32| #[trigger] v.stories.contains_key(s) ==> s <= v.last_item_id
    &&& forall|i: u32| !(#[trigger] v.epics.contains_key(i) && v.stories.contains_key(i))
    &&& forall|e: u32, s: u32| #[trigger] listed_in(v, e, s) ==> v.stories.contains_key(s)
    &&& forall|e: u32| #[trigger] v.epics.contains_key(e) ==> v.epics[e].stories.no_duplicates()
    &&& forall|e1: u32, e2: u32, s: u32|
        #[trigger] listed_in(v, e1, s) && #[trigger] listed_in(v, e2, s) ==> e1 == e2
    &&& forall|s: u32|
        #[trigger] v.stories.contains_key(s) ==> exists|e: u32| listed_in(v, e, s)
}

impl Epic {
    /// A fresh epic: open, with an empty membership list.
    pub fn new(name: String, description: String) -> (e: Epic)
        ensures
            e@ == (EpicView {
                name: name@,
                description: description@,
                status: Status::Open,
                stories: Seq::<u32>::empty(),
            }),
    {
        let stories: Vec<u32> = Vec::new();
        assert(stories@ =~= Seq::<u32>::empty());
        Epic { name, description, status: Status::Open, stories }
    }
}

impl Story {
    /// A fresh story: open.
    pub fn new(name: String, description: String) -> (s: Story)
        ensures
            s@ == (StoryView { name: name@, description: description@, status: Status::Open }),
    {
        Story { name, description, status: Status::Open }
    }
}

} // verus!
