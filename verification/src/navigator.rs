//! The navigator: owns the stack of active screens and the store, resolves
//! actions against both, and decides what the next visible screen is.
//!
//! The stack starts as one home screen; an empty stack means the
//! application is done. Prompt replies come in as plain values: the driving
//! loop runs the prompt an action needs and hands the reply in alongside it.
//! When a store operation fails, the stack is left exactly as it was and the
//! error is surfaced; a declined confirmation still pops the detail page of
//! the item that was not deleted.

use crate::db::{
    create_epic_post, create_story_post, delete_epic_post, delete_story_post,
    update_epic_status_post, update_story_status_post, Database, DbError, JiraDatabase,
};
use crate::models::{listed_in, Action, Epic, EpicView, StateView, Status, Story};
use crate::pages::home_action;
use vstd::prelude::*;

verus! {

/// One navigable view: the closed set of screens the stack can hold.
#[derive(Clone, Copy, Debug, PartialEq, Eq, Structural)]
pub enum Screen {
    Home,
    EpicView { epic_id: u32 },
    StoryView { epic_id: u32, story_id: u32 },
}

/// What the prompt collaborator handed back for an action: nothing, a new
/// item's fields, a confirmation, or a chosen status (none when the reply
/// picked no status).
#[derive(Clone, Debug, PartialEq, Eq)]
pub enum PromptReply {
    Nothing,
    NewEpic(Epic),
    NewStory(Story),
    Confirm(bool),
    NewStatus(Option<Status>),
}

/// The stack after an action is applied: navigation pushes the named detail
/// screen, going back pops, a delete pops the now-stale detail page whether
/// or not the delete was confirmed, exit clears the stack, and everything
/// else leaves it alone.
pub open spec fn stack_post(stack: Seq<Screen>, action: Action) -> Seq<Screen> {
    match action {
        Action::NavigateToEpicDetail { epic_id } => stack.push(Screen::EpicView { epic_id }),
        Action::NavigateToStoryDetail { epic_id, story_id } => stack.push(
            Screen::StoryView { epic_id, story_id },
        ),
        Action::NavigateToPreviousPage => if stack.len() > 0 {
            stack.drop_last()
        } else {
            stack
        },
        Action::DeleteEpic { .. } => if stack.len() > 0 {
            stack.drop_last()
        } else {
            stack
        },
        Action::DeleteStory { .. } => if stack.len() > 0 {
            stack.drop_last()
        } else {
            stack
        },
        Action::Exit => Seq::empty(),
        _ => stack,
    }
}

/// The stack becomes empty only through `Exit`: no other action empties a
/// stack of two or more screens, and the home screen — the screen at the
/// bottom of every stack — has no input that yields a pop action, so a
/// stack of one is never popped by an interpreted input either.
pub proof fn lemma_stack_empties_only_via_exit(
    stack: Seq<Screen>,
    action: Action,
    epics: Map<u32, EpicView>,
    input: Seq<char>,
)
    ensures
        stack.len() >= 2 && !(action is Exit) ==> stack_post(stack, action).len() > 0,
        home_action(epics, input) matches Some(a) ==> !(a
            is NavigateToPreviousPage || a is DeleteEpic || a is DeleteStory),
{
}

/// Owns the screen stack and the store, and applies actions to both.
pub struct Navigator<D: Database> {
    pages: Vec<Screen>,
    db: JiraDatabase<D>,
}

impl<D: Database> Navigator<D> {
    /// The stack of active screens, bottom first.
    pub closed spec fn stack(&self) -> Seq<Screen> {
        self.pages@
    }

    /// The snapshot the store currently holds, if any.
    pub closed spec fn stored(&self) -> Option<StateView> {
        self.db.stored()
    }

    /// A navigator over the given store, with one home screen on the stack.
    pub fn new(db: JiraDatabase<D>) -> (nav: Self)
        ensures
            nav.stack() == seq![Screen::Home],
            nav.stored() == db.stored(),
    {
        let mut pages: Vec<Screen> = Vec::new();
        pages.push(Screen::Home);
        proof {
            assert(pages@ =~= seq![Screen::Home]);
        }
        Navigator { pages, db }
    }

    /// The store, for rendering the current screen against.
    pub fn db(&self) -> (r: &JiraDatabase<D>)
        ensures
            r.stored() == self.stored(),
    {
        &self.db
    }

    /// The current screen: the top of the stack, or none once the stack is
    /// empty and the application is done.
    pub fn get_current_page(&self) -> (r: Option<Screen>)
        ensures
            self.stack().len() == 0 ==> r is None,
            self.stack().len() > 0 ==> r == Some(self.stack().last()),
    {
        if self.pages.len() == 0 {
            None
        } else {
            Some(self.pages[self.pages.len() - 1])
        }
    }

    /// Apply one action to the stack and the store.
    ///
    /// On success the stack becomes [`stack_post`] of the old one; on a
    /// store failure the stack is left exactly as it was and the error is
    /// surfaced. The store changes only as the action's operation dictates:
    /// creates and updates go through when their reply carries the needed
    /// value, deletes only on an explicit confirmation, and a reply that
    /// carries nothing usable leaves the store untouched.
    pub fn handle_action(&mut self, action: Action, reply: PromptReply) -> (r: Result<
        (),
        DbError,
    >)
        requires
            old(self).stored() matches Some(v) ==> v.last_item_id < u32::MAX,
        ensures
            r is Ok ==> final(self).stack() == stack_post(old(self).stack(), action),
            r is Err ==> final(self).stack() == old(self).stack(),
            // navigation and exit never touch the store and never fail
            (action is NavigateToEpicDetail || action is NavigateToStoryDetail
                || action is NavigateToPreviousPage || action is Exit) ==> r is Ok
                && final(self).stored() == old(self).stored(),
            // creating an epic
            action is CreateEpic ==> (match reply {
                PromptReply::NewEpic(epic) => {
                    &&& (r matches Ok(_) ==> old(self).stored() matches Some(v) && final(self).stored()
                        == Some(create_epic_post(v, epic@)))
                    &&& (old(self).stored() is None ==> r is Err && final(self).stored() == old(self).stored())
                    &&& (r is Err && old(self).stored() is Some ==> r == Err::<(), DbError>(
                        DbError::IoError,
                    ))
                },
                _ => r is Ok && final(self).stored() == old(self).stored(),
            }),
            // creating a story under an epic
            action matches Action::CreateStory { epic_id } ==> (match reply {
                PromptReply::NewStory(story) => {
                    &&& (r matches Ok(_) ==> old(self).stored() matches Some(v) && v.epics.contains_key(
                        epic_id,
                    ) && final(self).stored() == Some(create_story_post(v, story@, epic_id)))
                    &&& (old(self).stored() matches Some(v) && !v.epics.contains_key(epic_id)
                        ==> r == Err::<(), DbError>(DbError::NotFound(epic_id)) && final(self).stored() == old(self).stored())
                    &&& (old(self).stored() is None ==> r is Err && final(self).stored() == old(self).stored())
                },
                _ => r is Ok && final(self).stored() == old(self).stored(),
            }),
            // updating a status
            action matches Action::UpdateEpicStatus { epic_id } ==> (match reply {
                PromptReply::NewStatus(Some(status)) => {
                    &&& (r matches Ok(_) ==> old(self).stored() matches Some(v) && v.epics.contains_key(
                        epic_id,
                    ) && final(self).stored() == Some(update_epic_status_post(v, epic_id, status)))
                    &&& (old(self).stored() matches Some(v) && !v.epics.contains_key(epic_id)
                        ==> r == Err::<(), DbError>(DbError::NotFound(epic_id)) && final(self).stored() == old(self).stored())
                    &&& (old(self).stored() is None ==> r is Err && final(self).stored() == old(self).stored())
                },
                _ => r is Ok && final(self).stored() == old(self).stored(),
            }),
            action matches Action::UpdateStoryStatus { story_id } ==> (match reply {
                PromptReply::NewStatus(Some(status)) => {
                    &&& (r matches Ok(_) ==> old(self).stored() matches Some(v) && v.stories.contains_key(
                        story_id,
                    ) && final(self).stored() == Some(
                        update_story_status_post(v, story_id, status),
                    ))
                    &&& (old(self).stored() matches Some(v) && !v.stories.contains_key(story_id)
                        ==> r == Err::<(), DbError>(DbError::NotFound(story_id)) && final(self).stored() == old(self).stored())
                    &&& (old(self).stored() is None ==> r is Err && final(self).stored() == old(self).stored())
                },
                _ => r is Ok && final(self).stored() == old(self).stored(),
            }),
            // deleting: only an explicit confirmation reaches the store
            action matches Action::DeleteEpic { epic_id } ==> (match reply {
                PromptReply::Confirm(true) => {
                    &&& (r matches Ok(_) ==> old(self).stored() matches Some(v) && v.epics.contains_key(
                        epic_id,
                    ) && final(self).stored() == Some(delete_epic_post(v, epic_id)))
                    &&& (old(self).stored() matches Some(v) && !v.epics.contains_key(epic_id)
                        ==> r == Err::<(), DbError>(DbError::NotFound(epic_id)) && final(self).stored() == old(self).stored())
                    &&& (old(self).stored() is None ==> r is Err && final(self).stored() == old(self).stored())
                },
                _ => r is Ok && final(self).stored() == old(self).stored(),
            }),
            action matches Action::DeleteStory { epic_id, story_id } ==> (match reply {
                PromptReply::Confirm(true) => {
                    &&& (r matches Ok(_) ==> old(self).stored() matches Some(v) && listed_in(
                        v,
                        epic_id,
                        story_id,
                    ) && final(self).stored() == Some(delete_story_post(v, epic_id, story_id)))
                    &&& (old(self).stored() matches Some(v) && !v.epics.contains_key(epic_id)
                        ==> r == Err::<(), DbError>(DbError::NotFound(epic_id)) && final(self).stored() == old(self).stored())
                    &&& (old(self).stored() matches Some(v) && v.epics.contains_key(epic_id)
                        && !listed_in(v, epic_id, story_id) ==> r == Err::<(), DbError>(
                        DbError::NotFound(story_id),
                    ) && final(self).stored() == old(self).stored())
                    &&& (old(self).stored() is None ==> r is Err && final(self).stored() == old(self).stored())
                },
                _ => r is Ok && final(self).stored() == old(self).stored(),
            }),
    {
        match action {
            Action::NavigateToEpicDetail { epic_id } => {
                self.pages.push(Screen::EpicView { epic_id });
                Ok(())
            },
            Action::NavigateToStoryDetail { epic_id, story_id } => {
                self.pages.push(Screen::StoryView { epic_id, story_id });
                Ok(())
            },
            Action::NavigateToPreviousPage => {
                if self.pages.len() > 0 {
                    self.pages.pop();
                }
                Ok(())
            },
            Action::CreateEpic => {
                match reply {
                    PromptReply::NewEpic(epic) => {
                        match self.db.create_epic(epic) {
                            Ok(_) => Ok(()),
                            Err(e) => Err(e),
                        }
                    },
                    _ => Ok(()),
                }
            },
            Action::CreateStory { epic_id } => {
                match reply {
                    PromptReply::NewStory(story) => {
                        match self.db.create_story(story, epic_id) {
                            Ok(_) => Ok(()),
                            Err(e) => Err(e),
                        }
                    },
                    _ => Ok(()),
                }
            },
            Action::UpdateEpicStatus { epic_id } => {
                match reply {
                    PromptReply::NewStatus(Some(status)) => {
                        self.db.update_epic_status(epic_id, status)
                    },
                    _ => Ok(()),
                }
            },
            Action::UpdateStoryStatus { story_id } => {
                match reply {
                    PromptReply::NewStatus(Some(status)) => {
                        self.db.update_story_status(story_id, status)
                    },
                    _ => Ok(()),
                }
            },
            Action::DeleteEpic { epic_id } => {
                match reply {
                    PromptReply::Confirm(true) => {
                        match self.db.delete_epic(epic_id) {
                            Ok(()) => {},
                            Err(e) => {
                                return Err(e);
                            },
                        }
                    },
                    _ => {},
                }
                if self.pages.len() > 0 {
                    self.pages.pop();
                }
                Ok(())
            },
            Action::DeleteStory { epic_id, story_id } => {
                match reply {
                    PromptReply::Confirm(true) => {
                        match self.db.delete_story(epic_id, story_id) {
                            Ok(()) => {},
                            Err(e) => {
                                return Err(e);
                            },
                        }
                    },
                    _ => {},
                }
                if self.pages.len() > 0 {
                    self.pages.pop();
                }
                Ok(())
            },
            Action::Exit => {
                self.pages = Vec::new();
                proof {
                    assert(self.pages@ =~= Seq::<Screen>::empty());
                }
                Ok(())
            },
        }
    }
}

} // verus!
