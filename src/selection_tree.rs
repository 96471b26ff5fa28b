use vstd::prelude::*;

verus! {

#[derive(Debug, Clone, Copy, PartialEq, Eq, Structural)]
pub enum Language {
    Rust,
    Elm,
    Ruby,
    Haskell,
    C,
    Javascript,
    Other,
}

pub open spec fn language_name(l: Language) -> Seq<char> {
    match l {
        Language::Rust => "Rust"@,
        Language::Elm => "Elm"@,
        Language::Ruby => "Ruby"@,
        Language::Haskell => "Haskell"@,
        Language::C => "C"@,
        Language::Javascript => "Javascript"@,
        Language::Other => "Other"@,
    }
}

/// The languages in the order in which the list offers them.
pub open spec fn offered() -> Seq<Language> {
    seq![
        Language::C,
        Language::Elm,
        Language::Ruby,
        Language::Haskell,
        Language::Rust,
        Language::Javascript,
        Language::Other,
    ]
}

impl Default for Language {
    fn default() -> (r: Language)
        ensures
            r == Language::Rust,
    {
        Language::Rust
    }
}

impl Language {
    /// Every language, in the order in which the list offers them.
    pub fn all() -> (r: Vec<Language>)
        ensures
            r@ == offered(),
    {
        let r = vec![
            Language::C,
            Language::Elm,
            Language::Ruby,
            Language::Haskell,
            Language::Rust,
            Language::Javascript,
            Language::Other,
        ];
        proof {
            assert(r@ =~= offered());
        }
        r
    }

    /// The language's name, as the list shows it.
    pub fn name(&self) -> (r: &'static str)
        ensures
            r@ == language_name(*self),
    {
        match self {
            Language::Rust => "Rust",
            Language::Elm => "Elm",
            Language::Ruby => "Ruby",
            Language::Haskell => "Haskell",
            Language::C => "C",
            Language::Javascript => "Javascript",
            Language::Other => "Other",
        }
    }
}

#[derive(Debug, Clone)]
pub enum Message {
    LanguageSelected(String),
}

/// A list of language names and the one last picked from it.
#[derive(Debug, Default)]
pub struct SelectionTree {
    pub vec: Vec<String>,
    pub selected_language: String,
}

impl SelectionTree {
    /// The names of all languages, none picked.
    pub fn new() -> (r: SelectionTree)
        ensures
            r.vec.len() == offered().len(),
            forall|i: int|
                0 <= i < offered().len() ==> (#[trigger] r.vec@[i])@ == language_name(
                    offered()[i],
                ),
            r.selected_language@ == Seq::<char>::empty(),
    {
        let languages = Language::all();
        let mut vec: Vec<String> = Vec::new();
        let mut i: usize = 0;
        while i < languages.len()
            invariant
                0 <= i <= languages.len(),
                languages@ == offered(),
                vec.len() == i,
                forall|j: int|
                    0 <= j < i ==> (#[trigger] vec@[j])@ == language_name(offered()[j]),
            decreases languages.len() - i,
        {
            vec.push(languages[i].name().to_owned());
            i += 1;
        }
        SelectionTree { vec, selected_language: String::new() }
    }

    pub fn title(&self) -> (r: String)
        ensures
            r@ == "Selection list - Iced"@,
    {
        "Selection list - Iced".to_owned()
    }

    /// Remembers the picked name; picking Rust adds one more name to the list.
    pub fn update(&mut self, message: Message)
        ensures
            match message {
                Message::LanguageSelected(language) => {
                    &&& final(self).selected_language@ == language@
                    &&& final(self).vec@ == if language@ == "Rust"@ {
                        old(self).vec@.push(final(self).vec@.last())
                    } else {
                        old(self).vec@
                    }
                    &&& language@ == "Rust"@ ==> final(self).vec@.last()@ == "Rusty"@
                },
            },
    {
        match message {
            Message::LanguageSelected(language) => {
                self.selected_language = language.clone();
                let rust = "Rust".to_owned();
                if language == rust {
                    self.vec.push("Rusty".to_owned());
                }
            },
        }
    }
}

} // verus!
