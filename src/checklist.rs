use vstd::prelude::*;

verus! {

#[derive(Debug, Default, Clone, Copy, PartialEq, Eq, Structural)]
pub enum EntryChecked {
    #[default]
    Unchecked,
    _Partial,
    Checked,
}

/// Whether an entry shows as a checkbox or as a text input.
#[derive(Debug, Default, Clone, Copy, PartialEq, Eq, Structural)]
pub enum EntryState {
    #[default]
    Idle,
    Editing,
}

/// An entry as a mathematical value.
pub struct EntryView {
    pub description: Seq<char>,
    pub checked: EntryChecked,
    pub state: EntryState,
}

#[derive(Debug, Default, Clone)]
pub struct Entry {
    pub description: String,
    pub checked: EntryChecked,
    pub state: EntryState,
}

impl View for Entry {
    type V = EntryView;

    open spec fn view(&self) -> EntryView {
        EntryView { description: self.description@, checked: self.checked, state: self.state }
    }
}

pub open spec fn entry_views(s: Seq<Entry>) -> Seq<EntryView> {
    s.map_values(|e: Entry| e@)
}

#[derive(Debug, Clone)]
pub enum EntryMessage {
    Checked(EntryChecked),
    Edit,
    DescriptionEdited(String),
    FinishedEdit,
    Delete,
}

/// What a message does to an entry; an empty description cannot be committed,
/// and a deletion is the list's to carry out.
pub open spec fn entry_step(e: EntryView, m: EntryMessage) -> EntryView {
    match m {
        EntryMessage::Checked(checked) => EntryView { checked, ..e },
        EntryMessage::Edit => EntryView { state: EntryState::Editing, ..e },
        EntryMessage::DescriptionEdited(new) => EntryView { description: new@, ..e },
        EntryMessage::FinishedEdit => if e.description.len() > 0 {
            EntryView { state: EntryState::Idle, ..e }
        } else {
            e
        },
        EntryMessage::Delete => e,
    }
}

impl Entry {
    pub fn new(description: String) -> (r: Entry)
        ensures
            r@ == (EntryView {
                description: description@,
                checked: EntryChecked::Unchecked,
                state: EntryState::Idle,
            }),
    {
        Entry { description, checked: EntryChecked::Unchecked, state: EntryState::Idle }
    }

    pub fn update(&mut self, message: EntryMessage)
        ensures
            final(self)@ == entry_step(old(self)@, message),
    {
        match message {
            EntryMessage::Checked(checked) => self.checked = checked,
            EntryMessage::Edit => self.state = EntryState::Editing,
            EntryMessage::DescriptionEdited(new) => self.description = new,
            EntryMessage::FinishedEdit => if !self.description.as_str().is_empty() {
                self.state = EntryState::Idle
            },
            EntryMessage::Delete => (),
        }
    }

    fn copy(&self) -> (r: Entry)
        ensures
            r@ == self@,
    {
        Entry { description: self.description.clone(), checked: self.checked, state: self.state }
    }
}

#[derive(Debug)]
pub enum Message {
    InputChanged(String),
    CreateEntry,
    Entry { id: usize, message: EntryMessage },
}

/// What a message does to the entry at position `id`: a deletion removes it,
/// anything else updates it; a position past the end changes nothing.
pub open spec fn entries_step(s: Seq<EntryView>, id: usize, m: EntryMessage) -> Seq<EntryView> {
    if id < s.len() {
        if m is Delete {
            s.remove(id as int)
        } else {
            s.update(id as int, entry_step(s[id as int], m))
        }
    } else {
        s
    }
}

/// Applies `message` to the entry at position `id`; returns that position
/// where the entry's text input is to take the focus.
pub fn update_entry(entries: &mut Vec<Entry>, id: usize, message: EntryMessage) -> (focus: Option<
    usize,
>)
    ensures
        entry_views(final(entries)@) == entries_step(entry_views(old(entries)@), id, message),
        focus == if id < old(entries).len() && message is Edit {
            Some(id)
        } else {
            None::<usize>
        },
{
    if id >= entries.len() {
        return None;
    }
    let ghost before = entries@;
    match message {
        EntryMessage::Delete => {
            entries.remove(id);
            proof {
                assert(entry_views(entries@) =~= entry_views(before).remove(id as int));
            }
            None
        },
        _ => {
            let focus = if matches!(message, EntryMessage::Edit) {
                Some(id)
            } else {
                None
            };
            let mut entry = entries[id].copy();
            entry.update(message);
            entries.set(id, entry);
            proof {
                assert(entry_views(entries@) =~= entry_views(before).update(id as int, entry@));
            }
            focus
        },
    }
}

/// A list of entries to tick off, with the text of the next entry.
#[derive(Debug, Default)]
pub struct Checklist {
    pub input_value: String,
    pub entries: Vec<Entry>,
}

impl Checklist {
    pub fn new() -> (r: Checklist)
        ensures
            r.input_value@ == Seq::<char>::empty(),
            r.entries@ == Seq::<Entry>::empty(),
    {
        Checklist { input_value: String::new(), entries: Vec::new() }
    }

    pub fn title(&self) -> (r: String)
        ensures
            r@ == "Checklist"@,
    {
        "Checklist".to_owned()
    }

    /// Applies `message`; returns the position of the entry whose text input
    /// is to take the focus, if any.
    pub fn update(&mut self, message: Message) -> (focus: Option<usize>)
        ensures
            match message {
                Message::InputChanged(value) => {
                    &&& final(self).input_value@ == value@
                    &&& final(self).entries@ == old(self).entries@
                    &&& focus is None
                },
                Message::CreateEntry => {
                    &&& old(self).input_value@.len() > 0 ==> {
                        &&& entry_views(final(self).entries@) == entry_views(
                            old(self).entries@,
                        ).push(
                            EntryView {
                                description: old(self).input_value@,
                                checked: EntryChecked::Unchecked,
                                state: EntryState::Idle,
                            },
                        )
                        &&& final(self).input_value@ == Seq::<char>::empty()
                    }
                    &&& old(self).input_value@.len() == 0 ==> final(self).entries@ == old(
                        self,
                    ).entries@ && final(self).input_value@ == old(self).input_value@
                    &&& focus is None
                },
                Message::Entry { id, message } => {
                    &&& entry_views(final(self).entries@) == entries_step(
                        entry_views(old(self).entries@),
                        id,
                        message,
                    )
                    &&& final(self).input_value@ == old(self).input_value@
                    &&& focus == if id < old(self).entries.len() && message is Edit {
                        Some(id)
                    } else {
                        None::<usize>
                    }
                },
            },
    {
        match message {
            Message::InputChanged(value) => {
                self.input_value = value;
                None
            },
            Message::CreateEntry => {
                if !self.input_value.as_str().is_empty() {
                    let ghost before = self.entries@;
                    let entry = Entry::new(self.input_value.clone());
                    self.entries.push(entry);
                    proof {
                        assert(entry_views(self.entries@) =~= entry_views(before).push(entry@));
                    }
                    self.input_value = String::new();
                }
                None
            },
            Message::Entry { id, message } => update_entry(&mut self.entries, id, message),
        }
    }
}

} // verus!
