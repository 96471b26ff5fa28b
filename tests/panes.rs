use lazy_views::checklist::{self, Checklist, EntryChecked, EntryMessage, EntryState};
use lazy_views::selection_tree::{self, Language, SelectionTree};
use lazy_views::tile_pane::{self, ImageTile, ImageTiles, ScrollCommand, TilePane};
use lazy_views::todo::{
    tasks_left, Filter, Focus, LoadError, Message, SaveError, SavedState, State, Task, TaskMessage,
    TaskState, Todos,
};
use lazy_views::visibility::RelativeOffset;

fn loaded(todos: &Todos) -> &State {
    match todos {
        Todos::Loaded(state) => state,
        Todos::Loading => panic!("still loading"),
    }
}

#[test]
fn todos_load_failure_starts_empty() {
    let mut todos = Todos::Loading;
    let effects = todos.update(Message::Loaded(Err(LoadError::File)));
    assert_eq!(effects.focus, Focus::Input);
    assert!(effects.save.is_none());
    let state = loaded(&todos);
    assert!(state.tasks.is_empty());
    assert!(!state.dirty && !state.saving);

    let mut todos = Todos::Loading;
    todos.update(Message::Loaded(Err(LoadError::Format)));
    assert!(loaded(&todos).tasks.is_empty());
}

#[test]
fn todos_load_success_keeps_saved_tasks() {
    let mut todos = Todos::Loading;
    let saved = SavedState {
        input_value: "half".to_string(),
        filter: Filter::Active,
        tasks: vec![Task::new("a".to_string())],
    };
    todos.update(Message::Loaded(Ok(saved)));
    let state = loaded(&todos);
    assert_eq!(state.input_value, "half");
    assert_eq!(state.filter, Filter::Active);
    assert_eq!(state.tasks.len(), 1);
    assert_eq!(todos.title(), "Todos - Iced");
}

#[test]
fn todos_messages_while_loading_change_nothing() {
    let mut todos = Todos::Loading;
    let effects = todos.update(Message::CreateTask);
    assert!(matches!(todos, Todos::Loading));
    assert_eq!(effects.focus, Focus::Input);
}

#[test]
fn todos_create_task_schedules_save() {
    let mut todos = Todos::Loaded(State::empty());
    let effects = todos.update(Message::InputChanged("buy milk".to_string()));
    let save = effects.save.expect("a change is saved");
    assert_eq!(save.input_value, "buy milk");
    assert!(loaded(&todos).saving);

    // a write is under way: the next change only marks the list dirty
    let effects = todos.update(Message::CreateTask);
    assert!(effects.save.is_none());
    assert_eq!(todos.title(), "Todos* - Iced");
    let state = loaded(&todos);
    assert_eq!(state.tasks.len(), 1);
    assert_eq!(state.tasks[0].description, "buy milk");
    assert!(state.input_value.is_empty());

    // the write finishes: the dirty list goes out at once
    let effects = todos.update(Message::Saved(Ok(())));
    let save = effects.save.expect("dirty list saved");
    assert_eq!(save.tasks.len(), 1);
    assert!(!loaded(&todos).dirty);

    // the second write finishes with nothing left to save
    let effects = todos.update(Message::Saved(Err(SaveError::Write)));
    assert!(effects.save.is_none());
    assert!(!loaded(&todos).saving);
}

#[test]
fn todos_empty_input_creates_nothing() {
    let mut todos = Todos::Loaded(State::empty());
    todos.update(Message::CreateTask);
    assert!(loaded(&todos).tasks.is_empty());
}

#[test]
fn todos_task_messages() {
    let mut todos = Todos::Loaded(State::empty());
    todos.update(Message::InputChanged("a".to_string()));
    todos.update(Message::CreateTask);
    todos.update(Message::InputChanged("b".to_string()));
    todos.update(Message::CreateTask);
    let effects = todos.update(Message::TaskMessage(1, TaskMessage::Edit));
    assert_eq!(effects.focus, Focus::Task(1));
    assert_eq!(loaded(&todos).tasks[1].state, TaskState::Editing);
    todos.update(Message::TaskMessage(1, TaskMessage::DescriptionEdited(String::new())));
    todos.update(Message::TaskMessage(1, TaskMessage::FinishedEdition));
    assert_eq!(loaded(&todos).tasks[1].state, TaskState::Editing);
    todos.update(Message::TaskMessage(1, TaskMessage::DescriptionEdited("c".to_string())));
    todos.update(Message::TaskMessage(1, TaskMessage::FinishedEdition));
    assert_eq!(loaded(&todos).tasks[1].state, TaskState::Idle);
    assert_eq!(loaded(&todos).tasks[1].description, "c");
    todos.update(Message::TaskMessage(0, TaskMessage::Completed(true)));
    assert_eq!(tasks_left(&loaded(&todos).tasks), 1);
    todos.update(Message::TaskMessage(0, TaskMessage::Delete));
    assert_eq!(loaded(&todos).tasks.len(), 1);
    todos.update(Message::TaskMessage(9, TaskMessage::Delete));
    assert_eq!(loaded(&todos).tasks.len(), 1);
    let effects = todos.update(Message::TabPressed { shift: true });
    assert_eq!(effects.focus, Focus::Previous);
    let effects = todos.update(Message::TabPressed { shift: false });
    assert_eq!(effects.focus, Focus::Next);
    todos.update(Message::FilterChanged(Filter::Completed));
    assert_eq!(loaded(&todos).filter, Filter::Completed);
}

#[test]
fn filter_matches_tasks() {
    let mut done = Task::new("x".to_string());
    done.update(TaskMessage::Completed(true));
    let open = Task::new("y".to_string());
    assert!(Filter::All.matches(&done) && Filter::All.matches(&open));
    assert!(Filter::Active.matches(&open) && !Filter::Active.matches(&done));
    assert!(Filter::Completed.matches(&done) && !Filter::Completed.matches(&open));
    assert_eq!(Filter::default(), Filter::All);
    assert_eq!(TaskState::default(), TaskState::Idle);
    assert_eq!(tasks_left(&vec![done, open]), 1);
}

#[test]
fn checklist_create_edit_delete() {
    let mut list = Checklist::new();
    assert_eq!(list.title(), "Checklist");
    list.update(checklist::Message::CreateEntry);
    assert!(list.entries.is_empty());
    list.update(checklist::Message::InputChanged("eggs".to_string()));
    list.update(checklist::Message::CreateEntry);
    assert_eq!(list.entries.len(), 1);
    assert!(list.input_value.is_empty());
    let focus = list.update(checklist::Message::Entry { id: 0, message: EntryMessage::Edit });
    assert_eq!(focus, Some(0));
    assert_eq!(list.entries[0].state, EntryState::Editing);
    list.update(checklist::Message::Entry { id: 0, message: EntryMessage::Checked(EntryChecked::Checked) });
    assert_eq!(list.entries[0].checked, EntryChecked::Checked);
    list.update(checklist::Message::Entry { id: 0, message: EntryMessage::DescriptionEdited(String::new()) });
    list.update(checklist::Message::Entry { id: 0, message: EntryMessage::FinishedEdit });
    assert_eq!(list.entries[0].state, EntryState::Editing);
    list.update(checklist::Message::Entry { id: 0, message: EntryMessage::DescriptionEdited("ham".to_string()) });
    list.update(checklist::Message::Entry { id: 0, message: EntryMessage::FinishedEdit });
    assert_eq!(list.entries[0].state, EntryState::Idle);
    let focus = list.update(checklist::Message::Entry { id: 3, message: EntryMessage::Edit });
    assert_eq!(focus, None);
    list.update(checklist::Message::Entry { id: 0, message: EntryMessage::Delete });
    assert!(list.entries.is_empty());
}

#[test]
fn checklist_entry_update() {
    let mut entry = checklist::Entry::new("x".to_string());
    assert_eq!(entry.checked, EntryChecked::Unchecked);
    entry.update(EntryMessage::Delete);
    assert_eq!(entry.description, "x");
    let mut entries = vec![entry];
    assert_eq!(checklist::update_entry(&mut entries, 0, EntryMessage::Edit), Some(0));
    assert_eq!(checklist::update_entry(&mut entries, 1, EntryMessage::Delete), None);
    assert_eq!(entries.len(), 1);
}

#[test]
fn selection_tree_lists_languages() {
    let mut tree = SelectionTree::new();
    assert_eq!(tree.vec, vec!["C", "Elm", "Ruby", "Haskell", "Rust", "Javascript", "Other"]);
    assert_eq!(tree.title(), "Selection list - Iced");
    tree.update(selection_tree::Message::LanguageSelected("Elm".to_string()));
    assert_eq!(tree.selected_language, "Elm");
    assert_eq!(tree.vec.len(), 7);
    tree.update(selection_tree::Message::LanguageSelected("Rust".to_string()));
    assert_eq!(tree.vec.len(), 8);
    assert_eq!(tree.vec[7], "Rusty");
    assert_eq!(Language::default(), Language::Rust);
    assert_eq!(Language::Javascript.name(), "Javascript");
    assert_eq!(Language::all().len(), 7);
}

#[test]
fn tile_pane_scrolls_and_zooms() {
    let mut pane = TilePane::new();
    assert_eq!(pane.tile_pane.images.len(), 3);
    assert!(pane.tile_pane.images.iter().all(|i| i.loaded));
    assert_eq!(pane.tile_pane.tile_size, tile_pane::DEFAULT_TILE_SIZE);
    let half = RelativeOffset { numerator: 1, denominator: 2 };
    assert_eq!(pane.update(tile_pane::Message::Scrolled(half)), ScrollCommand::Nothing);
    assert_eq!(pane.tile_pane.scroll_offset, half);
    assert_eq!(pane.update(tile_pane::Message::ZoomChanged(300)), ScrollCommand::Nothing);
    assert_eq!(pane.tile_pane.tile_size, 300);
    let command = pane.update(tile_pane::Message::ScrollToStart);
    assert_eq!(command, ScrollCommand::ScrollToStart { offset: RelativeOffset::start() });
    assert_eq!(pane.tile_pane.scroll_offset, RelativeOffset::start());
}

#[test]
fn image_tiles_start_empty() {
    let tiles = ImageTiles::_new();
    assert!(tiles.images.is_empty());
    let mut tile = ImageTile::new(4, "a.png");
    assert!(!tile.loaded);
    tile.load();
    assert!(tile.loaded);
    assert_eq!(tile.path, "a.png");
}
