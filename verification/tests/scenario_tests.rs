use jira_tracker::db::{Database, DbError, JiraDatabase, MockDB};
use jira_tracker::models::{Action, DBState, Epic, StateView, Status, Story};
use jira_tracker::navigator::{Navigator, PromptReply, Screen};
use jira_tracker::pages::{sorted_epic_ids, sorted_story_ids, HomePage, Page};
use jira_tracker::prompts::{confirm_from_input, status_from_input};

#[test]
fn end_to_end_scenario() {
    let mut db = JiraDatabase { database: MockDB::new() };
    assert_eq!(db.read_db().unwrap().last_item_id, 0);

    let epic_id = db
        .create_epic(Epic::new("A".to_owned(), "".to_owned()))
        .unwrap();
    assert_eq!(epic_id, 1);

    let story_id = db
        .create_story(Story::new("B".to_owned(), "".to_owned()), epic_id)
        .unwrap();
    assert_eq!(story_id, 2);
    let state = db.read_db().unwrap();
    assert_eq!(state.epics.get(&1).unwrap().stories, vec![2]);

    db.update_story_status(story_id, Status::Resolved).unwrap();
    let state = db.read_db().unwrap();
    assert_eq!(state.stories.get(&2).unwrap().status, Status::Resolved);

    db.delete_epic(epic_id).unwrap();
    let state = db.read_db().unwrap();
    assert_eq!(state.epics.len(), 0);
    assert_eq!(state.stories.len(), 0);
    assert_eq!(state.last_item_id, 2);
}

#[test]
fn id_allocation_is_monotonic_across_deletes() {
    let mut db = JiraDatabase { database: MockDB::new() };

    let e1 = db
        .create_epic(Epic::new("".to_owned(), "".to_owned()))
        .unwrap();
    let s1 = db
        .create_story(Story::new("".to_owned(), "".to_owned()), e1)
        .unwrap();
    db.delete_story(e1, s1).unwrap();
    let s2 = db
        .create_story(Story::new("".to_owned(), "".to_owned()), e1)
        .unwrap();
    db.delete_epic(e1).unwrap();
    let e2 = db
        .create_epic(Epic::new("".to_owned(), "".to_owned()))
        .unwrap();

    assert_eq!(vec![e1, s1, s2, e2], vec![1, 2, 3, 4]);
    assert_eq!(db.read_db().unwrap().last_item_id, 4);
}

#[test]
fn failed_create_story_leaves_state_unchanged() {
    let mut db = JiraDatabase { database: MockDB::new() };
    db.create_epic(Epic::new("".to_owned(), "".to_owned()))
        .unwrap();

    let before = db.read_db().unwrap();
    let result = db.create_story(Story::new("".to_owned(), "".to_owned()), 999);
    assert_eq!(result, Err(DbError::NotFound(999)));
    let after = db.read_db().unwrap();
    assert_eq!(before, after);
}

#[test]
fn delete_story_under_wrong_epic_fails_and_changes_nothing() {
    let mut db = JiraDatabase { database: MockDB::new() };
    let e1 = db
        .create_epic(Epic::new("".to_owned(), "".to_owned()))
        .unwrap();
    let e2 = db
        .create_epic(Epic::new("".to_owned(), "".to_owned()))
        .unwrap();
    let s = db
        .create_story(Story::new("".to_owned(), "".to_owned()), e2)
        .unwrap();

    let before = db.read_db().unwrap();
    // the story exists globally, but not in this epic's own list
    let result = db.delete_story(e1, s);
    assert_eq!(result, Err(DbError::NotFound(s)));
    let after = db.read_db().unwrap();
    assert_eq!(before, after);
}

#[test]
fn home_screen_interpretation_with_leading_zeros() {
    let mut db = JiraDatabase { database: MockDB::new() };
    for _ in 0..3 {
        db.create_epic(Epic::new("".to_owned(), "".to_owned()))
            .unwrap();
    }
    db.delete_epic(1).unwrap();
    db.delete_epic(2).unwrap();

    let page = HomePage { db: &db };
    assert_eq!(
        page.handle_input("3").unwrap(),
        Some(Action::NavigateToEpicDetail { epic_id: 3 })
    );
    // the decimal parse accepts leading zeros, so "03" denotes the id 3
    assert_eq!(
        page.handle_input("03").unwrap(),
        Some(Action::NavigateToEpicDetail { epic_id: 3 })
    );
    // a leading plus sign is accepted by the decimal parse as well
    assert_eq!(
        page.handle_input("+3").unwrap(),
        Some(Action::NavigateToEpicDetail { epic_id: 3 })
    );
    assert_eq!(page.handle_input("").unwrap(), None);
    // input is expected pre-trimmed; untrimmed input is not recognized
    assert_eq!(page.handle_input(" 3").unwrap(), None);
}

#[test]
fn navigator_starts_on_home_and_exit_clears_the_stack() {
    let db = JiraDatabase { database: MockDB::new() };
    let mut nav = Navigator::new(db);
    assert_eq!(nav.get_current_page(), Some(Screen::Home));

    nav.handle_action(Action::Exit, PromptReply::Nothing).unwrap();
    assert_eq!(nav.get_current_page(), None);
}

#[test]
fn navigator_pushes_and_pops_detail_screens() {
    let db = JiraDatabase { database: MockDB::new() };
    let mut nav = Navigator::new(db);

    nav.handle_action(
        Action::NavigateToEpicDetail { epic_id: 1 },
        PromptReply::Nothing,
    )
    .unwrap();
    assert_eq!(nav.get_current_page(), Some(Screen::EpicView { epic_id: 1 }));

    nav.handle_action(
        Action::NavigateToStoryDetail {
            epic_id: 1,
            story_id: 2,
        },
        PromptReply::Nothing,
    )
    .unwrap();
    assert_eq!(
        nav.get_current_page(),
        Some(Screen::StoryView {
            epic_id: 1,
            story_id: 2
        })
    );

    nav.handle_action(Action::NavigateToPreviousPage, PromptReply::Nothing)
        .unwrap();
    assert_eq!(nav.get_current_page(), Some(Screen::EpicView { epic_id: 1 }));

    nav.handle_action(Action::NavigateToPreviousPage, PromptReply::Nothing)
        .unwrap();
    assert_eq!(nav.get_current_page(), Some(Screen::Home));
}

#[test]
fn navigator_creates_through_prompt_replies() {
    let db = JiraDatabase { database: MockDB::new() };
    let mut nav = Navigator::new(db);

    nav.handle_action(
        Action::CreateEpic,
        PromptReply::NewEpic(Epic::new("E".to_owned(), "".to_owned())),
    )
    .unwrap();
    nav.handle_action(
        Action::CreateStory { epic_id: 1 },
        PromptReply::NewStory(Story::new("S".to_owned(), "".to_owned())),
    )
    .unwrap();

    let state = nav.db().read_db().unwrap();
    assert_eq!(state.epics.get(&1).unwrap().name, "E");
    assert_eq!(state.stories.get(&2).unwrap().name, "S");
    assert_eq!(state.epics.get(&1).unwrap().stories, vec![2]);
}

#[test]
fn navigator_confirmed_delete_deletes_and_pops() {
    let db = JiraDatabase { database: MockDB::new() };
    let mut nav = Navigator::new(db);
    nav.handle_action(
        Action::CreateEpic,
        PromptReply::NewEpic(Epic::new("".to_owned(), "".to_owned())),
    )
    .unwrap();
    nav.handle_action(
        Action::NavigateToEpicDetail { epic_id: 1 },
        PromptReply::Nothing,
    )
    .unwrap();

    nav.handle_action(Action::DeleteEpic { epic_id: 1 }, PromptReply::Confirm(true))
        .unwrap();
    assert_eq!(nav.get_current_page(), Some(Screen::Home));
    assert_eq!(nav.db().read_db().unwrap().epics.len(), 0);
}

#[test]
fn navigator_declined_delete_pops_but_keeps_the_item() {
    let db = JiraDatabase { database: MockDB::new() };
    let mut nav = Navigator::new(db);
    nav.handle_action(
        Action::CreateEpic,
        PromptReply::NewEpic(Epic::new("".to_owned(), "".to_owned())),
    )
    .unwrap();
    nav.handle_action(
        Action::NavigateToEpicDetail { epic_id: 1 },
        PromptReply::Nothing,
    )
    .unwrap();

    nav.handle_action(Action::DeleteEpic { epic_id: 1 }, PromptReply::Confirm(false))
        .unwrap();
    assert_eq!(nav.get_current_page(), Some(Screen::Home));
    assert_eq!(nav.db().read_db().unwrap().epics.len(), 1);
}

#[test]
fn navigator_failed_action_leaves_the_stack_unchanged() {
    let db = JiraDatabase { database: MockDB::new() };
    let mut nav = Navigator::new(db);
    nav.handle_action(
        Action::NavigateToEpicDetail { epic_id: 5 },
        PromptReply::Nothing,
    )
    .unwrap();

    let result = nav.handle_action(
        Action::CreateStory { epic_id: 99 },
        PromptReply::NewStory(Story::new("".to_owned(), "".to_owned())),
    );
    assert_eq!(result, Err(DbError::NotFound(99)));
    assert_eq!(nav.get_current_page(), Some(Screen::EpicView { epic_id: 5 }));
}

#[test]
fn navigator_updates_status_only_when_one_was_chosen() {
    let db = JiraDatabase { database: MockDB::new() };
    let mut nav = Navigator::new(db);
    nav.handle_action(
        Action::CreateEpic,
        PromptReply::NewEpic(Epic::new("".to_owned(), "".to_owned())),
    )
    .unwrap();

    nav.handle_action(
        Action::UpdateEpicStatus { epic_id: 1 },
        PromptReply::NewStatus(Some(Status::Closed)),
    )
    .unwrap();
    assert_eq!(
        nav.db().read_db().unwrap().epics.get(&1).unwrap().status,
        Status::Closed
    );

    nav.handle_action(
        Action::UpdateEpicStatus { epic_id: 1 },
        PromptReply::NewStatus(None),
    )
    .unwrap();
    assert_eq!(
        nav.db().read_db().unwrap().epics.get(&1).unwrap().status,
        Status::Closed
    );
}

#[test]
fn status_prompt_replies_pick_statuses() {
    assert_eq!(status_from_input("1"), Some(Status::Open));
    assert_eq!(status_from_input("2"), Some(Status::InProgress));
    assert_eq!(status_from_input("3"), Some(Status::Resolved));
    assert_eq!(status_from_input("4"), Some(Status::Closed));
    assert_eq!(status_from_input("03"), Some(Status::Resolved));
    assert_eq!(status_from_input("0"), None);
    assert_eq!(status_from_input("5"), None);
    assert_eq!(status_from_input("abc"), None);
    assert_eq!(status_from_input(""), None);
}

#[test]
fn only_a_capital_y_confirms_deletion() {
    assert_eq!(confirm_from_input("Y"), true);
    assert_eq!(confirm_from_input("y"), false);
    assert_eq!(confirm_from_input("n"), false);
    assert_eq!(confirm_from_input(""), false);
    assert_eq!(confirm_from_input("Y "), false);
}

#[test]
fn epic_listing_is_sorted_ascending() {
    let mut db = JiraDatabase { database: MockDB::new() };
    for _ in 0..5 {
        db.create_epic(Epic::new("".to_owned(), "".to_owned()))
            .unwrap();
    }
    let state = db.read_db().unwrap();
    assert_eq!(sorted_epic_ids(&state), vec![1, 2, 3, 4, 5]);
}

#[test]
fn story_listing_is_sorted_ascending() {
    let epic = Epic {
        name: "".to_owned(),
        description: "".to_owned(),
        status: Status::Open,
        stories: vec![3, 1, 2],
    };
    assert_eq!(sorted_story_ids(&epic), vec![1, 2, 3]);
}

#[test]
fn status_labels_match_the_display_order() {
    assert_eq!(Status::Open.text(), "OPEN");
    assert_eq!(Status::InProgress.text(), "IN PROGRESS");
    assert_eq!(Status::Resolved.text(), "RESOLVED");
    assert_eq!(Status::Closed.text(), "CLOSED");
}

struct BrokenDb;

impl Database for BrokenDb {
    fn stored(&self) -> Option<StateView> {
        None
    }

    fn read_db(&self) -> Result<DBState, DbError> {
        Err(DbError::IoError)
    }

    fn write_db(&mut self, _db_state: &DBState) -> Result<(), DbError> {
        Err(DbError::IoError)
    }
}

struct GarbledDb;

impl Database for GarbledDb {
    fn stored(&self) -> Option<StateView> {
        None
    }

    fn read_db(&self) -> Result<DBState, DbError> {
        Err(DbError::DecodeError)
    }

    fn write_db(&mut self, _db_state: &DBState) -> Result<(), DbError> {
        Err(DbError::IoError)
    }
}

#[test]
fn read_db_should_fail_with_invalid_path() {
    let db = JiraDatabase { database: BrokenDb };
    assert_eq!(db.read_db().is_err(), true);
}

#[test]
fn backend_errors_surface_unchanged() {
    let mut db = JiraDatabase { database: BrokenDb };
    assert_eq!(
        db.create_epic(Epic::new("".to_owned(), "".to_owned())),
        Err(DbError::IoError)
    );

    let db = JiraDatabase { database: GarbledDb };
    assert_eq!(db.read_db(), Err(DbError::DecodeError));
}
