//! The store: a backend trait for whole-blob persistence, and the typed
//! operations that keep the epic/story relationship coherent.
//!
//! Every operation is a whole-state read-modify-write cycle: it loads the
//! full snapshot, mutates it in memory, and persists it in full. An operation
//! either fully succeeds and persists, or fails before any persist call is
//! made, so a `NotFound` failure never changes the stored state.

use crate::models::{listed_in, state_wf, DBState, Epic, EpicView, StateView, Status, Story, StoryView};
use std::collections::HashMap;
use vstd::prelude::*;

verus! {

broadcast use vstd::std_specs::hash::group_hash_axioms;

/// Why a store operation failed.
#[derive(Clone, Copy, Debug, PartialEq, Eq, Structural)]
pub enum DbError {
    /// The underlying medium could not be read or written.
    IoError,
    /// The persisted bytes do not decode into a state snapshot.
    DecodeError,
    /// The referenced epic or story was absent; carries the id that was
    /// looked up.
    NotFound(u32),
}

/// A backend that durably holds one state snapshot as a whole blob.
///
/// `stored()` is the snapshot the medium currently holds, or `None` when the
/// medium is unreadable or its bytes do not decode.
pub trait Database {
    /// The decoded snapshot the medium currently holds, if any.
    spec fn stored(&self) -> Option<StateView>;

    /// Read and decode the whole snapshot.
    fn read_db(&self) -> (r: Result<DBState, DbError>)
        ensures
            match r {
                Ok(s) => self.stored() == Some(s@),
                Err(e) => self.stored() is None && (e == DbError::IoError || e
                    == DbError::DecodeError),
            },
    ;

    /// Encode and overwrite the whole snapshot.
    fn write_db(&mut self, db_state: &DBState) -> (r: Result<(), DbError>)
        ensures
            match r {
                Ok(()) => final(self).stored() == Some(db_state@),
                Err(e) => e == DbError::IoError,
            },
    ;
}

/// The issue tracker's store: typed operations over a [`Database`] backend.
pub struct JiraDatabase<D: Database> {
    pub database: D,
}

/// The snapshot after a new epic is inserted under the next fresh id. The
/// epic's membership list is passed through as given, not recomputed.
pub open spec fn create_epic_post(v: StateView, epic: EpicView) -> StateView {
    let id = (v.last_item_id + 1) as u32;
    StateView { last_item_id: id, epics: v.epics.insert(id, epic), stories: v.stories }
}

/// The snapshot after a new story is inserted under the next fresh id and
/// appended to the membership list of `epic_id`. Meaningful when `epic_id` is
/// a key of `v.epics`.
pub open spec fn create_story_post(v: StateView, story: StoryView, epic_id: u32) -> StateView {
    let id = (v.last_item_id + 1) as u32;
    let e = v.epics[epic_id];
    StateView {
        last_item_id: id,
        epics: v.epics.insert(
            epic_id,
            EpicView {
                name: e.name,
                description: e.description,
                status: e.status,
                stories: e.stories.push(id),
            },
        ),
        stories: v.stories.insert(id, story),
    }
}

impl<D: Database> JiraDatabase<D> {
    /// The snapshot the backend currently holds, if any.
    pub open spec fn stored(&self) -> Option<StateView> {
        self.database.stored()
    }

    /// Wrap a backend.
    pub fn new(database: D) -> (db: Self)
        ensures
            db.stored() == database.stored(),
    {
        JiraDatabase { database }
    }

    /// Read and decode the whole snapshot.
    pub fn read_db(&self) -> (r: Result<DBState, DbError>)
        ensures
            match r {
                Ok(s) => self.stored() == Some(s@),
                Err(e) => self.stored() is None && (e == DbError::IoError || e
                    == DbError::DecodeError),
            },
    {
        self.database.read_db()
    }

    /// Allocate the next id and insert `epic` under it.
    ///
    /// Succeeds exactly when the snapshot could be read and written back; the
    /// persisted snapshot is then [`create_epic_post`] of the loaded one, and
    /// the returned id is the fresh one.
    pub fn create_epic(&mut self, epic: Epic) -> (r: Result<u32, DbError>)
        requires
            old(self).stored() matches Some(v) ==> v.last_item_id < u32::MAX,
        ensures
            r matches Ok(id) ==> old(self).stored() matches Some(v) && id == v.last_item_id + 1
                && final(self).stored() == Some(create_epic_post(v, epic@)),
            r matches Err(e) ==> e == DbError::IoError || e == DbError::DecodeError,
            old(self).stored() is None ==> r is Err && final(self).stored() == old(self).stored(),
            r is Err && old(self).stored() is Some ==> r == Err::<u32, DbError>(DbError::IoError),
    {
        let mut parsed_db = match self.database.read_db() {
            Ok(s) => s,
            Err(e) => {
                return Err(e);
            },
        };

        let new_id = parsed_db.last_item_id + 1;

        parsed_db.last_item_id = new_id;
        parsed_db.epics.insert(new_id, epic);

        proof {
            let v = old(self).stored()->0;
            assert(parsed_db@ =~= create_epic_post(v, epic@));
        }
        match self.database.write_db(&parsed_db) {
            Ok(()) => Ok(new_id),
            Err(e) => Err(e),
        }
    }
}

/// The index of the first occurrence of `x` in `s`; meaningful only when `s`
/// contains `x`, in which case it is the unique position whose earlier
/// entries all differ from `x`.
pub open spec fn first_index_of(s: Seq<u32>, x: u32) -> int {
    choose|i: int|
        0 <= i < s.len() && s[i] == x && (forall|j: int| 0 <= j < i ==> s[j] != x)
}

/// A position that holds `x` and is preceded by no `x` is the unique such
/// position, so it is what [`first_index_of`] denotes.
pub proof fn lemma_first_index_of(s: Seq<u32>, x: u32, i: int)
    requires
        0 <= i < s.len(),
        s[i] == x,
        forall|j: int| 0 <= j < i ==> s[j] != x,
    ensures
        first_index_of(s, x) == i,
{
    assert(exists|k: int|
        0 <= k < s.len() && s[k] == x && (forall|j: int| 0 <= j < k ==> s[j] != x)) by {
        assert(0 <= i < s.len() && s[i] == x && (forall|j: int| 0 <= j < i ==> s[j] != x));
    }
    let k = first_index_of(s, x);
    if k < i {
        assert(s[k] == x);
    } else if k > i {
        assert(s[i] != x);
    }
}

/// The snapshot after epic `epic_id` is deleted: the epic's key is removed,
/// and so is every story key its membership list held. The allocation
/// counter is left unchanged. Meaningful when `epic_id` is a key of
/// `v.epics`.
pub open spec fn delete_epic_post(v: StateView, epic_id: u32) -> StateView {
    StateView {
        last_item_id: v.last_item_id,
        epics: v.epics.remove(epic_id),
        stories: v.stories.remove_keys(v.epics[epic_id].stories.to_set()),
    }
}

/// The snapshot after story `story_id` is deleted from epic `epic_id`: the
/// first occurrence of the id leaves the epic's membership list, and the
/// story's key leaves `stories`. Meaningful when `epic_id` is a key of
/// `v.epics` and its list contains `story_id`.
pub open spec fn delete_story_post(v: StateView, epic_id: u32, story_id: u32) -> StateView {
    let e = v.epics[epic_id];
    StateView {
        last_item_id: v.last_item_id,
        epics: v.epics.insert(
            epic_id,
            EpicView {
                name: e.name,
                description: e.description,
                status: e.status,
                stories: e.stories.remove(first_index_of(e.stories, story_id)),
            },
        ),
        stories: v.stories.remove(story_id),
    }
}

/// The snapshot after the status of epic `epic_id` is overwritten.
/// Meaningful when `epic_id` is a key of `v.epics`.
pub open spec fn update_epic_status_post(v: StateView, epic_id: u32, status: Status) -> StateView {
    let e = v.epics[epic_id];
    StateView {
        last_item_id: v.last_item_id,
        epics: v.epics.insert(
            epic_id,
            EpicView {
                name: e.name,
                description: e.description,
                status,
                stories: e.stories,
            },
        ),
        stories: v.stories,
    }
}

/// The snapshot after the status of story `story_id` is overwritten.
/// Meaningful when `story_id` is a key of `v.stories`.
pub open spec fn update_story_status_post(v: StateView, story_id: u32, status: Status) -> StateView {
    let s = v.stories[story_id];
    StateView {
        last_item_id: v.last_item_id,
        epics: v.epics,
        stories: v.stories.insert(
            story_id,
            StoryView { name: s.name, description: s.description, status },
        ),
    }
}

impl<D: Database> JiraDatabase<D> {
    /// Allocate the next id, insert `story` under it, and append the id to
    /// the membership list of `epic_id`.
    ///
    /// Fails with `NotFound(epic_id)`, leaving the stored snapshot
    /// unchanged, exactly when the snapshot was read but holds no such epic.
    /// On success the persisted snapshot is [`create_story_post`] of the
    /// loaded one and the fresh id is returned.
    pub fn create_story(&mut self, story: Story, epic_id: u32) -> (r: Result<u32, DbError>)
        requires
            old(self).stored() matches Some(v) ==> v.last_item_id < u32::MAX,
        ensures
            r matches Ok(id) ==> old(self).stored() matches Some(v) && v.epics.contains_key(
                epic_id,
            ) && id == v.last_item_id + 1 && final(self).stored() == Some(
                create_story_post(v, story@, epic_id),
            ),
            old(self).stored() matches Some(v) && !v.epics.contains_key(epic_id) ==> r == Err::<
                u32,
                DbError,
            >(DbError::NotFound(epic_id)) && final(self).stored() == old(self).stored(),
            old(self).stored() is None ==> r is Err && final(self).stored() == old(self).stored(),
            (old(self).stored() matches Some(v) && v.epics.contains_key(epic_id)) ==> (r
                matches Err(e) ==> e == DbError::IoError),
    {
        let mut parsed_db = match self.database.read_db() {
            Ok(s) => s,
            Err(e) => {
                return Err(e);
            },
        };

        let new_id = parsed_db.last_item_id + 1;

        parsed_db.last_item_id = new_id;
        parsed_db.stories.insert(new_id, story);

        let mut epic = match parsed_db.epics.remove(&epic_id) {
            Some(e) => e,
            None => {
                return Err(DbError::NotFound(epic_id));
            },
        };
        epic.stories.push(new_id);
        parsed_db.epics.insert(epic_id, epic);

        proof {
            let v = old(self).stored()->0;
            assert(parsed_db@ =~= create_story_post(v, story@, epic_id));
        }
        match self.database.write_db(&parsed_db) {
            Ok(()) => Ok(new_id),
            Err(e) => Err(e),
        }
    }

    /// Delete epic `epic_id` together with every story its membership list
    /// holds. The allocation counter is left unchanged: ids are never
    /// reclaimed.
    ///
    /// Fails with `NotFound(epic_id)`, leaving the stored snapshot
    /// unchanged, exactly when the snapshot was read but holds no such epic.
    /// On success the persisted snapshot is [`delete_epic_post`] of the
    /// loaded one.
    pub fn delete_epic(&mut self, epic_id: u32) -> (r: Result<(), DbError>)
        ensures
            r matches Ok(_) ==> old(self).stored() matches Some(v) && v.epics.contains_key(epic_id)
                && final(self).stored() == Some(delete_epic_post(v, epic_id)),
            old(self).stored() matches Some(v) && !v.epics.contains_key(epic_id) ==> r == Err::<
                (),
                DbError,
            >(DbError::NotFound(epic_id)) && final(self).stored() == old(self).stored(),
            old(self).stored() is None ==> r is Err && final(self).stored() == old(self).stored(),
            (old(self).stored() matches Some(v) && v.epics.contains_key(epic_id)) ==> (r
                matches Err(e) ==> e == DbError::IoError),
    {
        let mut parsed_db = match self.database.read_db() {
            Ok(s) => s,
            Err(e) => {
                return Err(e);
            },
        };

        let ghost v = old(self).stored()->0;
        let ghost stories0 = parsed_db.stories@;

        let epic = match parsed_db.epics.remove(&epic_id) {
            Some(e) => e,
            None => {
                return Err(DbError::NotFound(epic_id));
            },
        };

        let ghost epics1 = parsed_db.epics@;
        let ghost counter = parsed_db.last_item_id;
        let n = epic.stories.len();
        for i in 0..n
            invariant
                n == epic.stories.len(),
                parsed_db.epics@ == epics1,
                parsed_db.last_item_id == counter,
                parsed_db.stories@ =~= stories0.remove_keys(
                    epic.stories@.take(i as int).to_set(),
                ),
        {
            let story_id = epic.stories[i];
            parsed_db.stories.remove(&story_id);
            proof {
                assert(epic.stories@.take(i + 1) =~= epic.stories@.take(i as int).push(
                    epic.stories@[i as int],
                ));
                epic.stories@.take(i as int).lemma_push_to_set_commute(epic.stories@[i as int]);
            }
        }

        proof {
            assert(epic.stories@.take(n as int) =~= epic.stories@);
            assert(parsed_db@ =~= delete_epic_post(v, epic_id));
        }
        match self.database.write_db(&parsed_db) {
            Ok(()) => Ok(()),
            Err(e) => Err(e),
        }
    }

    /// Delete story `story_id` from epic `epic_id`: the id leaves the
    /// epic's membership list and the story leaves `stories`. The allocation
    /// counter is left unchanged.
    ///
    /// Fails with `NotFound(epic_id)` when the snapshot holds no such epic,
    /// and with `NotFound(story_id)` when the epic exists but its own list
    /// does not hold `story_id` — a story id that exists globally under a
    /// different epic is not found for this call. Either failure leaves the
    /// stored snapshot unchanged. On success the persisted snapshot is
    /// [`delete_story_post`] of the loaded one.
    pub fn delete_story(&mut self, epic_id: u32, story_id: u32) -> (r: Result<(), DbError>)
        ensures
            r matches Ok(_) ==> old(self).stored() matches Some(v) && listed_in(v, epic_id, story_id)
                && final(self).stored() == Some(delete_story_post(v, epic_id, story_id)),
            old(self).stored() matches Some(v) && !v.epics.contains_key(epic_id) ==> r == Err::<
                (),
                DbError,
            >(DbError::NotFound(epic_id)) && final(self).stored() == old(self).stored(),
            old(self).stored() matches Some(v) && v.epics.contains_key(epic_id) && !listed_in(
                v,
                epic_id,
                story_id,
            ) ==> r == Err::<(), DbError>(DbError::NotFound(story_id)) && final(self).stored()
                == old(self).stored(),
            old(self).stored() is None ==> r is Err && final(self).stored() == old(self).stored(),
            (old(self).stored() matches Some(v) && listed_in(v, epic_id, story_id)) ==> (r
                matches Err(e) ==> e == DbError::IoError),
    {
        let mut parsed_db = match self.database.read_db() {
            Ok(s) => s,
            Err(e) => {
                return Err(e);
            },
        };

        let ghost v = old(self).stored()->0;

        let mut epic = match parsed_db.epics.remove(&epic_id) {
            Some(e) => e,
            None => {
                return Err(DbError::NotFound(epic_id));
            },
        };

        let n = epic.stories.len();
        let mut story_index: usize = 0;
        while story_index < n && epic.stories[story_index] != story_id
            invariant
                n == epic.stories.len(),
                story_index <= n,
                forall|j: int| 0 <= j < story_index ==> epic.stories@[j] != story_id,
            decreases n - story_index,
        {
            story_index = story_index + 1;
        }
        if story_index == n {
            return Err(DbError::NotFound(story_id));
        }

        proof {
            lemma_first_index_of(epic.stories@, story_id, story_index as int);
        }
        epic.stories.remove(story_index);
        parsed_db.epics.insert(epic_id, epic);
        parsed_db.stories.remove(&story_id);

        proof {
            assert(parsed_db@ =~= delete_story_post(v, epic_id, story_id));
        }
        match self.database.write_db(&parsed_db) {
            Ok(()) => Ok(()),
            Err(e) => Err(e),
        }
    }

    /// Overwrite the status of epic `epic_id`.
    ///
    /// Fails with `NotFound(epic_id)`, leaving the stored snapshot
    /// unchanged, exactly when the snapshot was read but holds no such epic.
    /// On success the persisted snapshot is [`update_epic_status_post`] of
    /// the loaded one.
    pub fn update_epic_status(&mut self, epic_id: u32, status: Status) -> (r: Result<(), DbError>)
        ensures
            r matches Ok(_) ==> old(self).stored() matches Some(v) && v.epics.contains_key(epic_id)
                && final(self).stored() == Some(update_epic_status_post(v, epic_id, status)),
            old(self).stored() matches Some(v) && !v.epics.contains_key(epic_id) ==> r == Err::<
                (),
                DbError,
            >(DbError::NotFound(epic_id)) && final(self).stored() == old(self).stored(),
            old(self).stored() is None ==> r is Err && final(self).stored() == old(self).stored(),
            (old(self).stored() matches Some(v) && v.epics.contains_key(epic_id)) ==> (r
                matches Err(e) ==> e == DbError::IoError),
    {
        let mut parsed_db = match self.database.read_db() {
            Ok(s) => s,
            Err(e) => {
                return Err(e);
            },
        };

        let ghost v = old(self).stored()->0;

        let mut epic = match parsed_db.epics.remove(&epic_id) {
            Some(e) => e,
            None => {
                return Err(DbError::NotFound(epic_id));
            },
        };
        epic.status = status;
        parsed_db.epics.insert(epic_id, epic);

        proof {
            assert(parsed_db@ =~= update_epic_status_post(v, epic_id, status));
        }
        match self.database.write_db(&parsed_db) {
            Ok(()) => Ok(()),
            Err(e) => Err(e),
        }
    }

    /// Overwrite the status of story `story_id`.
    ///
    /// Fails with `NotFound(story_id)`, leaving the stored snapshot
    /// unchanged, exactly when the snapshot was read but holds no such
    /// story. On success the persisted snapshot is
    /// [`update_story_status_post`] of the loaded one.
    pub fn update_story_status(&mut self, story_id: u32, status: Status) -> (r: Result<
        (),
        DbError,
    >)
        ensures
            r matches Ok(_) ==> old(self).stored() matches Some(v) && v.stories.contains_key(story_id)
                && final(self).stored() == Some(update_story_status_post(v, story_id, status)),
            old(self).stored() matches Some(v) && !v.stories.contains_key(story_id) ==> r == Err::<
                (),
                DbError,
            >(DbError::NotFound(story_id)) && final(self).stored() == old(self).stored(),
            old(self).stored() is None ==> r is Err && final(self).stored() == old(self).stored(),
            (old(self).stored() matches Some(v) && v.stories.contains_key(story_id)) ==> (r
                matches Err(e) ==> e == DbError::IoError),
    {
        let mut parsed_db = match self.database.read_db() {
            Ok(s) => s,
            Err(e) => {
                return Err(e);
            },
        };

        let ghost v = old(self).stored()->0;

        let mut story = match parsed_db.stories.remove(&story_id) {
            Some(s) => s,
            None => {
                return Err(DbError::NotFound(story_id));
            },
        };
        story.status = status;
        parsed_db.stories.insert(story_id, story);

        proof {
            assert(parsed_db@ =~= update_story_status_post(v, story_id, status));
        }
        match self.database.write_db(&parsed_db) {
            Ok(()) => Ok(()),
            Err(e) => Err(e),
        }
    }
}

/// Membership in a pushed sequence: the new list holds exactly the old
/// entries and the appended one.
proof fn lemma_push_contains(l: Seq<u32>, x: u32, y: u32)
    ensures
        l.push(x).contains(y) <==> (l.contains(y) || y == x),
{
    l.lemma_push_to_set_commute(x);
    assert(l.push(x).contains(y) <==> l.push(x).to_set().contains(y));
    assert(l.contains(y) <==> l.to_set().contains(y));
}

/// Creating an epic with an empty membership list preserves referential
/// integrity, and the id it is filed under is fresh: the loaded snapshot
/// holds it neither as an epic nor as a story key.
pub proof fn lemma_create_epic_preserves_wf(v: StateView, epic: EpicView)
    requires
        state_wf(v),
        v.last_item_id < u32::MAX,
        epic.stories == Seq::<u32>::empty(),
    ensures
        state_wf(create_epic_post(v, epic)),
        !v.epics.contains_key((v.last_item_id + 1) as u32),
        !v.stories.contains_key((v.last_item_id + 1) as u32),
        create_epic_post(v, epic).last_item_id == v.last_item_id + 1,
{
    let id = (v.last_item_id + 1) as u32;
    let p = create_epic_post(v, epic);
    assert forall|e: u32, s: u32| #[trigger] listed_in(p, e, s) implies listed_in(v, e, s) by {
        if e == id {
            assert(p.epics[e].stories.len() == 0);
        }
    }
    assert forall|s: u32| #[trigger] p.stories.contains_key(s) implies exists|e: u32|
        listed_in(p, e, s) by {
        let e = choose|e: u32| listed_in(v, e, s);
        assert(listed_in(p, e, s));
    }
}

/// Creating a story under a live epic preserves referential integrity. The
/// id it is filed under is fresh, and afterwards it is present both as a key
/// of `stories` and in that epic's membership list, while the allocation
/// counter has increased by exactly one.
pub proof fn lemma_create_story_preserves_wf(v: StateView, story: StoryView, epic_id: u32)
    requires
        state_wf(v),
        v.epics.contains_key(epic_id),
        v.last_item_id < u32::MAX,
    ensures
        state_wf(create_story_post(v, story, epic_id)),
        !v.epics.contains_key((v.last_item_id + 1) as u32),
        !v.stories.contains_key((v.last_item_id + 1) as u32),
        create_story_post(v, story, epic_id).stories.contains_key((v.last_item_id + 1) as u32),
        listed_in(create_story_post(v, story, epic_id), epic_id, (v.last_item_id + 1) as u32),
        create_story_post(v, story, epic_id).last_item_id == v.last_item_id + 1,
{
    let id = (v.last_item_id + 1) as u32;
    let p = create_story_post(v, story, epic_id);
    let l = v.epics[epic_id].stories;

    assert forall|y: u32| #[trigger] l.push(id).contains(y) implies (l.contains(y) || y
        == id) by {
        lemma_push_contains(l, id, y);
    }
    assert(l.push(id)[l.len() as int] == id);
    assert(listed_in(p, epic_id, id));

    // the fresh id is nowhere in the old snapshot
    assert(!v.epics.contains_key(id));
    assert(!v.stories.contains_key(id));
    assert(!l.contains(id)) by {
        if l.contains(id) {
            assert(listed_in(v, epic_id, id));
        }
    }

    // membership lists still point at story keys, without duplicates
    assert forall|e: u32, s: u32| #[trigger] listed_in(p, e, s) implies p.stories.contains_key(
        s,
    ) by {
        if e == epic_id && s != id {
            assert(listed_in(v, e, s));
        } else if e != epic_id {
            assert(listed_in(v, e, s));
        }
    }
    assert forall|e: u32| #[trigger] p.epics.contains_key(e) implies p.epics[e].stories
        .no_duplicates() by {
        if e == epic_id {
            assert forall|i: int, j: int|
                0 <= i < j < l.push(id).len() implies l.push(id)[i] != l.push(id)[j] by {
                if j < l.len() {
                    assert(l[i] != l[j]);
                } else {
                    assert(l.push(id)[j] == id);
                    assert(l[i] != id) by {
                        if l[i] == id {
                            assert(l.contains(id));
                        }
                    }
                }
            }
        }
    }

    // each story key is still listed by exactly one epic
    assert forall|e1: u32, e2: u32, s: u32|
        #[trigger] listed_in(p, e1, s) && #[trigger] listed_in(p, e2, s) implies e1 == e2 by {
        if s == id {
            if e1 != epic_id {
                assert(listed_in(v, e1, s));
                assert(v.stories.contains_key(id));
            }
            if e2 != epic_id {
                assert(listed_in(v, e2, s));
                assert(v.stories.contains_key(id));
            }
        } else {
            assert(listed_in(v, e1, s));
            assert(listed_in(v, e2, s));
        }
    }
    assert forall|s: u32| #[trigger] p.stories.contains_key(s) implies exists|e: u32|
        listed_in(p, e, s) by {
        if s == id {
            assert(listed_in(p, epic_id, id));
        } else {
            let e = choose|e: u32| listed_in(v, e, s);
            if e == epic_id {
                assert(l.contains(s));
                assert(l.push(id)[choose|i: int| 0 <= i < l.len() && l[i] == s] == s);
                assert(listed_in(p, epic_id, s));
            } else {
                assert(listed_in(p, e, s));
            }
        }
    }
}

/// Deleting an epic preserves referential integrity: its key leaves
/// `epics`, every story its list held leaves `stories`, every other story
/// survives, and the allocation counter is unchanged.
pub proof fn lemma_delete_epic_preserves_wf(v: StateView, epic_id: u32)
    requires
        state_wf(v),
        v.epics.contains_key(epic_id),
    ensures
        state_wf(delete_epic_post(v, epic_id)),
        !delete_epic_post(v, epic_id).epics.contains_key(epic_id),
        forall|s: u32|
            listed_in(v, epic_id, s) ==> !delete_epic_post(v, epic_id).stories.contains_key(s),
        forall|s: u32| #[trigger]
            v.stories.contains_key(s) && !listed_in(v, epic_id, s) ==> delete_epic_post(
                v,
                epic_id,
            ).stories.contains_key(s),
        delete_epic_post(v, epic_id).last_item_id == v.last_item_id,
{
    let p = delete_epic_post(v, epic_id);
    let dropped = v.epics[epic_id].stories.to_set();

    assert forall|e: u32, s: u32| #[trigger] listed_in(p, e, s) implies listed_in(v, e, s) by {}
    assert forall|s: u32| listed_in(v, epic_id, s) implies !p.stories.contains_key(s) by {
        assert(dropped.contains(s));
    }
    assert forall|e: u32, s: u32| #[trigger] listed_in(p, e, s) implies p.stories.contains_key(
        s,
    ) by {
        assert(listed_in(v, e, s));
        assert(!dropped.contains(s)) by {
            if dropped.contains(s) {
                assert(v.epics[epic_id].stories.contains(s));
                assert(listed_in(v, epic_id, s));
            }
        }
    }
    assert forall|s: u32| #[trigger] p.stories.contains_key(s) implies exists|e: u32|
        listed_in(p, e, s) by {
        let e = choose|e: u32| listed_in(v, e, s);
        assert(!dropped.contains(s));
        assert(e != epic_id) by {
            if e == epic_id {
                assert(dropped.contains(s));
            }
        }
        assert(listed_in(p, e, s));
    }
}

/// Deleting a story preserves referential integrity: the id leaves its
/// epic's membership list and `stories`, everything else survives, and the
/// allocation counter is unchanged.
pub proof fn lemma_delete_story_preserves_wf(v: StateView, epic_id: u32, story_id: u32)
    requires
        state_wf(v),
        listed_in(v, epic_id, story_id),
    ensures
        state_wf(delete_story_post(v, epic_id, story_id)),
        !delete_story_post(v, epic_id, story_id).stories.contains_key(story_id),
        !listed_in(delete_story_post(v, epic_id, story_id), epic_id, story_id),
        delete_story_post(v, epic_id, story_id).last_item_id == v.last_item_id,
{
    let p = delete_story_post(v, epic_id, story_id);
    let l = v.epics[epic_id].stories;
    let i = first_index_of(l, story_id);
    let k = choose|k: int| 0 <= k < l.len() && l[k] == story_id;
    assert(exists|j: int|
        0 <= j < l.len() && l[j] == story_id && (forall|m: int| 0 <= m < j ==> l[m]
            != story_id)) by {
        let j = choose|j: int| 0 <= j < l.len() && l[j] == story_id;
        assert forall|m: int| 0 <= m < j implies l[m] != story_id by {
            if l[m] == story_id {
                assert(l[j] != l[m]);
            }
        }
        assert(0 <= j < l.len() && l[j] == story_id && (forall|m: int| 0 <= m < j ==> l[m]
            != story_id));
    }
    assert(0 <= i < l.len() && l[i] == story_id);
    let r = l.remove(i);

    // membership of the shortened list: everything but the deleted id
    assert forall|y: u32| #[trigger] r.contains(y) implies l.contains(y) && y != story_id by {
        let j = choose|j: int| 0 <= j < r.len() && r[j] == y;
        if j < i {
            assert(l[j] == y);
        } else {
            assert(l[j + 1] == y);
        }
        if y == story_id {
            assert(l[i] == l[if j < i { j } else { j + 1 }] ==> i == (if j < i {
                j
            } else {
                j + 1
            }));
        }
    }
    assert forall|y: u32| l.contains(y) && y != story_id implies #[trigger] r.contains(y) by {
        let j = choose|j: int| 0 <= j < l.len() && l[j] == y;
        if j < i {
            assert(r[j] == y);
        } else {
            assert(j != i);
            assert(r[j - 1] == y);
        }
    }

    assert forall|e: u32, s: u32| #[trigger] listed_in(p, e, s) implies p.stories.contains_key(
        s,
    ) by {
        if e == epic_id {
            assert(r.contains(s));
            assert(listed_in(v, epic_id, s));
        } else {
            assert(listed_in(v, e, s));
            assert(s != story_id) by {
                if s == story_id {
                    assert(listed_in(v, epic_id, s));
                }
            }
        }
    }
    assert forall|e: u32| #[trigger] p.epics.contains_key(e) implies p.epics[e].stories
        .no_duplicates() by {
        if e == epic_id {
            assert forall|a: int, b: int| 0 <= a < b < r.len() implies r[a] != r[b] by {
                let a2 = if a < i { a } else { a + 1 };
                let b2 = if b < i { b } else { b + 1 };
                assert(r[a] == l[a2] && r[b] == l[b2]);
                assert(l[a2] != l[b2]);
            }
        }
    }
    assert forall|e1: u32, e2: u32, s: u32|
        #[trigger] listed_in(p, e1, s) && #[trigger] listed_in(p, e2, s) implies e1 == e2 by {
        assert(e1 == epic_id ==> r.contains(s) && listed_in(v, epic_id, s));
        assert(e2 == epic_id ==> r.contains(s) && listed_in(v, epic_id, s));
        assert(listed_in(v, e1, s));
        assert(listed_in(v, e2, s));
    }
    assert forall|s: u32| #[trigger] p.stories.contains_key(s) implies exists|e: u32|
        listed_in(p, e, s) by {
        let e = choose|e: u32| listed_in(v, e, s);
        if e == epic_id {
            assert(r.contains(s));
            assert(listed_in(p, epic_id, s));
        } else {
            assert(listed_in(p, e, s));
        }
    }
}

/// Overwriting a status preserves referential integrity and the allocation
/// counter: neither update touches any membership list or key set.
pub proof fn lemma_update_status_preserves_wf(v: StateView, epic_id: u32, story_id: u32, status: Status)
    requires
        state_wf(v),
    ensures
        v.epics.contains_key(epic_id) ==> state_wf(update_epic_status_post(v, epic_id, status)),
        v.stories.contains_key(story_id) ==> state_wf(
            update_story_status_post(v, story_id, status),
        ),
        update_epic_status_post(v, epic_id, status).last_item_id == v.last_item_id,
        update_story_status_post(v, story_id, status).last_item_id == v.last_item_id,
{
    if v.epics.contains_key(epic_id) {
        let p = update_epic_status_post(v, epic_id, status);
        assert forall|e: u32, s: u32| #[trigger] listed_in(p, e, s) implies listed_in(v, e, s) by {}
        assert forall|e: u32, s: u32| #[trigger] listed_in(v, e, s) implies listed_in(p, e, s) by {}
        assert forall|s: u32| #[trigger] p.stories.contains_key(s) implies exists|e: u32|
            listed_in(p, e, s) by {
            let e = choose|e: u32| listed_in(v, e, s);
            assert(listed_in(p, e, s));
        }
    }
    if v.stories.contains_key(story_id) {
        let p = update_story_status_post(v, story_id, status);
        assert forall|e: u32, s: u32| #[trigger] listed_in(p, e, s) implies listed_in(v, e, s) by {}
        assert forall|s: u32| #[trigger] p.stories.contains_key(s) implies exists|e: u32|
            listed_in(p, e, s) by {
            let e = choose|e: u32| listed_in(v, e, s);
            assert(listed_in(p, e, s));
        }
    }
}

/// Id allocation is monotone: each create bumps the counter by exactly one
/// and returns the bumped value, while deletes and status updates leave the
/// counter alone. Across any interleaving of operations, the ids handed out
/// by successive creates are therefore strictly increasing and pairwise
/// distinct, and an id is never reused after a delete.
pub proof fn lemma_id_allocation_monotonic(
    v: StateView,
    epic: EpicView,
    story: StoryView,
    epic_id: u32,
    story_id: u32,
    status: Status,
)
    requires
        v.last_item_id < u32::MAX,
    ensures
        create_epic_post(v, epic).last_item_id == v.last_item_id + 1,
        create_story_post(v, story, epic_id).last_item_id == v.last_item_id + 1,
        delete_epic_post(v, epic_id).last_item_id == v.last_item_id,
        delete_story_post(v, epic_id, story_id).last_item_id == v.last_item_id,
        update_epic_status_post(v, epic_id, status).last_item_id == v.last_item_id,
        update_story_status_post(v, story_id, status).last_item_id == v.last_item_id,
{
}

/// Relies on the derived `Clone` of [`DBState`] and its fields (`u32`,
/// `String`, `Vec<u32>`, `HashMap`): std documents `clone` as returning a
/// duplicate of the value, so the clone has the same view.
#[verifier::external_body]
fn clone_state(s: &DBState) -> (r: DBState)
    ensures
        r@ == s@,
{
    s.clone()
}

/// An in-memory backend: holds the last written snapshot directly, and never
/// fails.
pub struct MockDB {
    last_written_state: DBState,
}

impl MockDB {
    /// An empty snapshot: counter at zero, no epics, no stories.
    pub fn new() -> (db: MockDB)
        ensures
            db.stored() == Some(
                StateView {
                    last_item_id: 0,
                    epics: Map::<u32, EpicView>::empty(),
                    stories: Map::<u32, StoryView>::empty(),
                },
            ),
    {
        let db = MockDB {
            last_written_state: DBState {
                last_item_id: 0,
                epics: HashMap::new(),
                stories: HashMap::new(),
            },
        };
        proof {
            assert(db.last_written_state@.epics =~= Map::<u32, EpicView>::empty());
            assert(db.last_written_state@.stories =~= Map::<u32, StoryView>::empty());
        }
        db
    }
}

impl Database for MockDB {
    closed spec fn stored(&self) -> Option<StateView> {
        Some(self.last_written_state@)
    }

    fn read_db(&self) -> (r: Result<DBState, DbError>) {
        Ok(clone_state(&self.last_written_state))
    }

    fn write_db(&mut self, db_state: &DBState) -> (r: Result<(), DbError>) {
        self.last_written_state = clone_state(db_state);
        Ok(())
    }
}

} // verus!
