use jira_tracker::db::{JiraDatabase, MockDB};
use jira_tracker::models::{Action, Epic, Story};
use jira_tracker::pages::{EpicDetail, HomePage, Page, StoryDetail};

#[test]
fn handle_input_should_not_throw_error() {
    let db = JiraDatabase { database: MockDB::new() };

    let page = HomePage { db: &db };
    assert_eq!(page.handle_input("").is_ok(), true);
}

#[test]
fn handle_input_should_return_the_correct_actions() {
    let mut db = JiraDatabase { database: MockDB::new() };

    let epic = Epic::new("".to_owned(), "".to_owned());

    let epic_id = db.create_epic(epic).unwrap();

    let page = HomePage { db: &db };

    let q = "q";
    let c = "c";
    let valid_epic_id = epic_id.to_string();
    let invalid_epic_id = "999";
    let junk_input = "j983f2j";
    let junk_input_with_valid_prefix = "q983f2j";
    let input_with_trailing_white_spaces = "q\n";

    assert_eq!(page.handle_input(q).unwrap(), Some(Action::Exit));
    assert_eq!(page.handle_input(c).unwrap(), Some(Action::CreateEpic));
    assert_eq!(
        page.handle_input(&valid_epic_id).unwrap(),
        Some(Action::NavigateToEpicDetail { epic_id: 1 })
    );
    assert_eq!(page.handle_input(invalid_epic_id).unwrap(), None);
    assert_eq!(page.handle_input(junk_input).unwrap(), None);
    assert_eq!(page.handle_input(junk_input_with_valid_prefix).unwrap(), None);
    assert_eq!(page.handle_input(input_with_trailing_white_spaces).unwrap(), None);
}

#[test]
fn mod_handle_input_should_not_throw_error() {
    let mut db = JiraDatabase { database: MockDB::new() };
    let epic_id = db.create_epic(Epic::new("".to_owned(), "".to_owned())).unwrap();

    let page = EpicDetail { epic_id, db: &db };
    assert_eq!(page.handle_input("").is_ok(), true);
}

#[test]
fn mod_handle_input_should_return_the_correct_actions() {
    let mut db = JiraDatabase { database: MockDB::new() };

    let epic_id = db.create_epic(Epic::new("".to_owned(), "".to_owned())).unwrap();
    let story_id = db
        .create_story(Story::new("".to_owned(), "".to_owned()), epic_id)
        .unwrap();

    let page = EpicDetail { epic_id, db: &db };

    let p = "p";
    let u = "u";
    let d = "d";
    let c = "c";
    let invalid_story_id = "999";
    let junk_input = "j983f2j";
    let junk_input_with_valid_prefix = "p983f2j";
    let input_with_trailing_white_spaces = "p\n";

    assert_eq!(
        page.handle_input(p).unwrap(),
        Some(Action::NavigateToPreviousPage)
    );
    assert_eq!(
        page.handle_input(u).unwrap(),
        Some(Action::UpdateEpicStatus { epic_id: 1 })
    );
    assert_eq!(
        page.handle_input(d).unwrap(),
        Some(Action::DeleteEpic { epic_id: 1 })
    );
    assert_eq!(
        page.handle_input(c).unwrap(),
        Some(Action::CreateStory { epic_id: 1 })
    );
    assert_eq!(
        page.handle_input(&story_id.to_string()).unwrap(),
        Some(Action::NavigateToStoryDetail {
            epic_id: 1,
            story_id: 2
        })
    );
    assert_eq!(page.handle_input(invalid_story_id).unwrap(), None);
    assert_eq!(page.handle_input(junk_input).unwrap(), None);
    assert_eq!(page.handle_input(junk_input_with_valid_prefix).unwrap(), None);
    assert_eq!(page.handle_input(input_with_trailing_white_spaces).unwrap(), None);
}

#[test]
fn story_handle_input_should_not_throw_error() {
    let mut db = JiraDatabase { database: MockDB::new() };

    let epic_id = db.create_epic(Epic::new("".to_owned(), "".to_owned())).unwrap();
    let story_id = db
        .create_story(Story::new("".to_owned(), "".to_owned()), epic_id)
        .unwrap();

    let page = StoryDetail {
        epic_id,
        story_id,
        db: &db,
    };
    assert_eq!(page.handle_input("").is_ok(), true);
}

#[test]
fn story_handle_input_should_return_the_correct_actions() {
    let mut db = JiraDatabase { database: MockDB::new() };

    let epic_id = db.create_epic(Epic::new("".to_owned(), "".to_owned())).unwrap();
    let story_id = db
        .create_story(Story::new("".to_owned(), "".to_owned()), epic_id)
        .unwrap();

    let page = StoryDetail {
        epic_id,
        story_id,
        db: &db,
    };

    let p = "p";
    let u = "u";
    let d = "d";
    let some_number = "1";
    let junk_input = "j983f2j";
    let junk_input_with_valid_prefix = "p983f2j";
    let input_with_trailing_white_spaces = "p\n";

    assert_eq!(
        page.handle_input(p).unwrap(),
        Some(Action::NavigateToPreviousPage)
    );
    assert_eq!(
        page.handle_input(u).unwrap(),
        Some(Action::UpdateStoryStatus { story_id })
    );
    assert_eq!(
        page.handle_input(d).unwrap(),
        Some(Action::DeleteStory { epic_id, story_id })
    );
    assert_eq!(page.handle_input(some_number).unwrap(), None);
    assert_eq!(page.handle_input(junk_input).unwrap(), None);
    assert_eq!(page.handle_input(junk_input_with_valid_prefix).unwrap(), None);
    assert_eq!(page.handle_input(input_with_trailing_white_spaces).unwrap(), None);
}
