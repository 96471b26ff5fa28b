use vstd::prelude::*;

verus! {

/// Whether a task shows as a checkbox or as a text input.
#[derive(Debug, Clone, Copy, PartialEq, Eq, Structural)]
pub enum TaskState {
    Idle,
    Editing,
}

impl Default for TaskState {
    fn default() -> (r: TaskState)
        ensures
            r == TaskState::Idle,
    {
        TaskState::Idle
    }
}

/// A task as a mathematical value.
pub struct TaskView {
    pub description: Seq<char>,
    pub completed: bool,
    pub state: TaskState,
}

#[derive(Debug, Clone)]
pub struct Task {
    pub description: String,
    pub completed: bool,
    pub state: TaskState,
}

impl View for Task {
    type V = TaskView;

    open spec fn view(&self) -> TaskView {
        TaskView { description: self.description@, completed: self.completed, state: self.state }
    }
}

pub open spec fn task_views(s: Seq<Task>) -> Seq<TaskView> {
    s.map_values(|t: Task| t@)
}

#[derive(Debug, Clone)]
pub enum TaskMessage {
    Completed(bool),
    Edit,
    DescriptionEdited(String),
    FinishedEdition,
    Delete,
}

/// What a message does to a task; an empty description cannot be committed.
pub open spec fn task_step(t: TaskView, m: TaskMessage) -> TaskView {
    match m {
        TaskMessage::Completed(completed) => TaskView { completed, ..t },
        TaskMessage::Edit => TaskView { state: TaskState::Editing, ..t },
        TaskMessage::DescriptionEdited(new) => TaskView { description: new@, ..t },
        TaskMessage::FinishedEdition => if t.description.len() > 0 {
            TaskView { state: TaskState::Idle, ..t }
        } else {
            t
        },
        TaskMessage::Delete => t,
    }
}

impl Task {
    pub fn new(description: String) -> (r: Task)
        ensures
            r@ == (TaskView {
                description: description@,
                completed: false,
                state: TaskState::Idle,
            }),
    {
        Task { description, completed: false, state: TaskState::Idle }
    }

    pub fn update(&mut self, message: TaskMessage)
        ensures
            final(self)@ == task_step(old(self)@, message),
    {
        match message {
            TaskMessage::Completed(completed) => self.completed = completed,
            TaskMessage::Edit => self.state = TaskState::Editing,
            TaskMessage::DescriptionEdited(new) => self.description = new,
            TaskMessage::FinishedEdition => if !self.description.as_str().is_empty() {
                self.state = TaskState::Idle;
            },
            TaskMessage::Delete => (),
        }
    }

    fn copy(&self) -> (r: Task)
        ensures
            r@ == self@,
    {
        Task { description: self.description.clone(), completed: self.completed, state: self.state }
    }
}

fn copy_tasks(tasks: &Vec<Task>) -> (r: Vec<Task>)
    ensures
        task_views(r@) == task_views(tasks@),
{
    let mut r: Vec<Task> = Vec::new();
    let mut i: usize = 0;
    while i < tasks.len()
        invariant
            0 <= i <= tasks.len(),
            task_views(r@) == task_views(tasks@.subrange(0, i as int)),
        decreases tasks.len() - i,
    {
        let t = tasks[i].copy();
        let ghost before = r@;
        r.push(t);
        proof {
            assert(task_views(r@) =~= task_views(before).push(t@));
            assert(task_views(tasks@.subrange(0, i + 1)) =~= task_views(
                tasks@.subrange(0, i as int),
            ).push(tasks@[i as int]@));
        }
        i += 1;
    }
    proof {
        assert(tasks@.subrange(0, tasks.len() as int) =~= tasks@);
    }
    r
}

/// Which tasks a list shows.
#[derive(Debug, Clone, Copy, PartialEq, Eq, Structural)]
pub enum Filter {
    All,
    Active,
    Completed,
}

impl Default for Filter {
    fn default() -> (r: Filter)
        ensures
            r == Filter::All,
    {
        Filter::All
    }
}

pub open spec fn filter_matches(f: Filter, t: TaskView) -> bool {
    match f {
        Filter::All => true,
        Filter::Active => !t.completed,
        Filter::Completed => t.completed,
    }
}

impl Filter {
    pub fn matches(&self, task: &Task) -> (r: bool)
        ensures
            r == filter_matches(*self, task@),
    {
        match self {
            Filter::All => true,
            Filter::Active => !task.completed,
            Filter::Completed => task.completed,
        }
    }
}

/// The number of tasks not yet completed.
pub open spec fn count_left(s: Seq<TaskView>) -> nat
    decreases s.len(),
{
    if s.len() == 0 {
        0
    } else {
        count_left(s.drop_last()) + if s.last().completed {
            0nat
        } else {
            1nat
        }
    }
}

/// The number of tasks not yet completed.
pub fn tasks_left(tasks: &Vec<Task>) -> (r: usize)
    ensures
        r == count_left(task_views(tasks@)),
{
    let mut n: usize = 0;
    let mut i: usize = 0;
    while i < tasks.len()
        invariant
            0 <= i <= tasks.len(),
            n == count_left(task_views(tasks@.subrange(0, i as int))),
            n <= i,
        decreases tasks.len() - i,
    {
        proof {
            assert(task_views(tasks@.subrange(0, i + 1)).drop_last() =~= task_views(
                tasks@.subrange(0, i as int),
            ));
        }
        if !tasks[i].completed {
            n += 1;
        }
        i += 1;
    }
    proof {
        assert(tasks@.subrange(0, tasks.len() as int) =~= tasks@);
    }
    n
}

#[derive(Debug, Clone, Copy, PartialEq, Eq, Structural)]
pub enum LoadError {
    File,
    Format,
}

#[derive(Debug, Clone, Copy, PartialEq, Eq, Structural)]
pub enum SaveError {
    File,
    Format,
    Write,
}

/// What is written to and read from storage.
#[derive(Debug, Clone)]
pub struct SavedState {
    pub input_value: String,
    pub filter: Filter,
    pub tasks: Vec<Task>,
}

pub struct SavedView {
    pub input_value: Seq<char>,
    pub filter: Filter,
    pub tasks: Seq<TaskView>,
}

impl View for SavedState {
    type V = SavedView;

    open spec fn view(&self) -> SavedView {
        SavedView {
            input_value: self.input_value@,
            filter: self.filter,
            tasks: task_views(self.tasks@),
        }
    }
}

/// A loaded task list: `dirty` where a change has not been handed to storage,
/// `saving` while a write is under way.
#[derive(Debug)]
pub struct State {
    pub input_value: String,
    pub filter: Filter,
    pub tasks: Vec<Task>,
    pub dirty: bool,
    pub saving: bool,
}

pub struct StateView {
    pub input_value: Seq<char>,
    pub filter: Filter,
    pub tasks: Seq<TaskView>,
    pub dirty: bool,
    pub saving: bool,
}

impl View for State {
    type V = StateView;

    open spec fn view(&self) -> StateView {
        StateView {
            input_value: self.input_value@,
            filter: self.filter,
            tasks: task_views(self.tasks@),
            dirty: self.dirty,
            saving: self.saving,
        }
    }
}

impl State {
    /// An empty task list with nothing to save.
    pub fn empty() -> (r: State)
        ensures
            r@ == (StateView {
                input_value: Seq::empty(),
                filter: Filter::All,
                tasks: Seq::empty(),
                dirty: false,
                saving: false,
            }),
    {
        let r = State {
            input_value: String::new(),
            filter: Filter::All,
            tasks: Vec::new(),
            dirty: false,
            saving: false,
        };
        proof {
            assert(task_views(r.tasks@) =~= Seq::<TaskView>::empty());
        }
        r
    }
}

/// The task list, before and after it is read from storage.
#[derive(Debug)]
pub enum Todos {
    Loading,
    Loaded(State),
}

pub enum TodosView {
    Loading,
    Loaded(StateView),
}

impl View for Todos {
    type V = TodosView;

    open spec fn view(&self) -> TodosView {
        match self {
            Todos::Loading => TodosView::Loading,
            Todos::Loaded(s) => TodosView::Loaded(s@),
        }
    }
}

#[derive(Debug)]
pub enum Message {
    Loaded(Result<SavedState, LoadError>),
    Saved(Result<(), SaveError>),
    InputChanged(String),
    CreateTask,
    FilterChanged(Filter),
    TaskMessage(usize, TaskMessage),
    TabPressed { shift: bool },
}

/// Where the keyboard focus is to go after an update.
#[derive(Debug, Clone, Copy, PartialEq, Eq, Structural)]
pub enum Focus {
    Unchanged,
    Input,
    Task(usize),
    Next,
    Previous,
}

/// What the caller is to do after an update: move the focus, and write a
/// snapshot to storage where there is one.
#[derive(Debug)]
pub struct Effects {
    pub focus: Focus,
    pub save: Option<SavedState>,
}

pub open spec fn save_view(s: Option<SavedState>) -> Option<SavedView> {
    match s {
        Some(saved) => Some(saved@),
        None => None,
    }
}

/// What a message does to a loaded list, where the focus goes, and whether
/// the message reports a finished write.
pub open spec fn loaded_step(s: StateView, m: Message) -> (StateView, Focus, bool) {
    match m {
        Message::InputChanged(value) => (StateView { input_value: value@, ..s }, Focus::Unchanged, false),
        Message::CreateTask => if s.input_value.len() > 0 {
            (
                StateView {
                    tasks: s.tasks.push(
                        TaskView {
                            description: s.input_value,
                            completed: false,
                            state: TaskState::Idle,
                        },
                    ),
                    input_value: Seq::empty(),
                    ..s
                },
                Focus::Unchanged,
                false,
            )
        } else {
            (s, Focus::Unchanged, false)
        },
        Message::FilterChanged(filter) => (StateView { filter, ..s }, Focus::Unchanged, false),
        Message::TaskMessage(id, TaskMessage::Delete) => if id < s.tasks.len() {
            (StateView { tasks: s.tasks.remove(id as int), ..s }, Focus::Unchanged, false)
        } else {
            (s, Focus::Unchanged, false)
        },
        Message::TaskMessage(id, tm) => if id < s.tasks.len() {
            (
                StateView { tasks: s.tasks.update(id as int, task_step(s.tasks[id as int], tm)), ..s },
                if tm is Edit {
                    Focus::Task(id)
                } else {
                    Focus::Unchanged
                },
                false,
            )
        } else {
            (s, Focus::Unchanged, false)
        },
        Message::Saved(_) => (StateView { saving: false, ..s }, Focus::Unchanged, true),
        Message::TabPressed { shift } => (
            s,
            if shift {
                Focus::Previous
            } else {
                Focus::Next
            },
            false,
        ),
        Message::Loaded(_) => (s, Focus::Unchanged, false),
    }
}

/// Any message but a finished write makes the list dirty; a dirty list with
/// no write under way is handed to storage.
pub open spec fn schedule_save(s: StateView, saved: bool) -> (StateView, Option<SavedView>) {
    let dirty = if saved {
        s.dirty
    } else {
        true
    };
    if dirty && !s.saving {
        (
            StateView { dirty: false, saving: true, ..s },
            Some(SavedView { input_value: s.input_value, filter: s.filter, tasks: s.tasks }),
        )
    } else {
        (StateView { dirty, ..s }, None)
    }
}

/// What a message does to the list, where the focus goes and what is saved.
pub open spec fn todos_step(t: TodosView, m: Message) -> (TodosView, Focus, Option<SavedView>) {
    match t {
        TodosView::Loading => (
            match m {
                Message::Loaded(Ok(saved)) => TodosView::Loaded(
                    StateView {
                        input_value: saved@.input_value,
                        filter: saved@.filter,
                        tasks: saved@.tasks,
                        dirty: false,
                        saving: false,
                    },
                ),
                Message::Loaded(Err(_)) => TodosView::Loaded(
                    StateView {
                        input_value: Seq::empty(),
                        filter: Filter::All,
                        tasks: Seq::empty(),
                        dirty: false,
                        saving: false,
                    },
                ),
                _ => TodosView::Loading,
            },
            Focus::Input,
            None,
        ),
        TodosView::Loaded(s) => {
            let (s1, focus, saved) = loaded_step(s, m);
            let (s2, save) = schedule_save(s1, saved);
            (TodosView::Loaded(s2), focus, save)
        },
    }
}

impl State {
    fn apply(&mut self, message: Message) -> (r: (Focus, bool))
        ensures
            (final(self)@, r.0, r.1) == loaded_step(old(self)@, message),
    {
        match message {
            Message::InputChanged(value) => {
                self.input_value = value;
                (Focus::Unchanged, false)
            },
            Message::CreateTask => {
                if !self.input_value.as_str().is_empty() {
                    let description = self.input_value.clone();
                    let ghost before = self.tasks@;
                    let task = Task::new(description);
                    self.tasks.push(task);
                    proof {
                        assert(task_views(self.tasks@) =~= task_views(before).push(task@));
                    }
                    self.input_value = String::new();
                }
                (Focus::Unchanged, false)
            },
            Message::FilterChanged(filter) => {
                self.filter = filter;
                (Focus::Unchanged, false)
            },
            Message::TaskMessage(id, TaskMessage::Delete) => {
                if id < self.tasks.len() {
                    let ghost before = self.tasks@;
                    self.tasks.remove(id);
                    proof {
                        assert(task_views(self.tasks@) =~= task_views(before).remove(id as int));
                    }
                }
                (Focus::Unchanged, false)
            },
            Message::TaskMessage(id, task_message) => {
                if id < self.tasks.len() {
                    let should_focus = matches!(task_message, TaskMessage::Edit);
                    let ghost before = self.tasks@;
                    let mut task = self.tasks[id].copy();
                    task.update(task_message);
                    self.tasks.set(id, task);
                    proof {
                        assert(task_views(self.tasks@) =~= task_views(before).update(
                            id as int,
                            task@,
                        ));
                    }
                    if should_focus {
                        (Focus::Task(id), false)
                    } else {
                        (Focus::Unchanged, false)
                    }
                } else {
                    (Focus::Unchanged, false)
                }
            },
            Message::Saved(_) => {
                self.saving = false;
                (Focus::Unchanged, true)
            },
            Message::TabPressed { shift } => {
                if shift {
                    (Focus::Previous, false)
                } else {
                    (Focus::Next, false)
                }
            },
            Message::Loaded(_) => (Focus::Unchanged, false),
        }
    }
}

impl Todos {
    /// The window title; a star marks changes not yet handed to storage.
    pub fn title(&self) -> (r: String)
        ensures
            r@ == if self matches Todos::Loaded(s) && s.dirty {
                "Todos* - Iced"@
            } else {
                "Todos - Iced"@
            },
    {
        let dirty = match self {
            Todos::Loading => false,
            Todos::Loaded(state) => state.dirty,
        };
        if dirty {
            "Todos* - Iced".to_owned()
        } else {
            "Todos - Iced".to_owned()
        }
    }

    /// Applies `message`; returns where the focus goes and what to save.
    pub fn update(&mut self, message: Message) -> (r: Effects)
        ensures
            (final(self)@, r.focus, save_view(r.save)) == todos_step(old(self)@, message),
    {
        match self {
            Todos::Loading => {
                match message {
                    Message::Loaded(Ok(saved)) => {
                        *self = Todos::Loaded(
                            State {
                                input_value: saved.input_value,
                                filter: saved.filter,
                                tasks: saved.tasks,
                                dirty: false,
                                saving: false,
                            },
                        );
                    },
                    Message::Loaded(Err(_)) => {
                        *self = Todos::Loaded(State::empty());
                    },
                    _ => {},
                }
                Effects { focus: Focus::Input, save: None }
            },
            Todos::Loaded(state) => {
                let (focus, saved) = state.apply(message);
                if !saved {
                    state.dirty = true;
                }
                let save = if state.dirty && !state.saving {
                    state.dirty = false;
                    state.saving = true;
                    Some(
                        SavedState {
                            input_value: state.input_value.clone(),
                            filter: state.filter,
                            tasks: copy_tasks(&state.tasks),
                        },
                    )
                } else {
                    None
                };
                Effects { focus, save }
            },
        }
    }
}

} // verus!
