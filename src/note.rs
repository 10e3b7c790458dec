use vstd::prelude::*;

verus! {

/// What a note holds, as a mathematical value.
pub struct NoteModel {
    pub text: Seq<char>,
    pub disabled: bool,
}

/// The note that `add` appends: empty text, not disabled.
pub open spec fn default_note() -> NoteModel {
    NoteModel { text: Seq::empty(), disabled: false }
}

/// A note: a line of text and whether it is struck out.
#[derive(Debug, PartialEq, Eq)]
pub struct Note {
    pub text: String,
    pub disabled: bool,
}

impl View for Note {
    type V = NoteModel;

    open spec fn view(&self) -> NoteModel {
        NoteModel { text: self.text@, disabled: self.disabled }
    }
}

impl Note {
    pub fn new(text: String, disabled: bool) -> (r: Note)
        ensures
            r@ == (NoteModel { text: text@, disabled }),
    {
        Note { text, disabled }
    }

    /// The sparse form of this note: each field is present only where it
    /// differs from its default.
    pub fn to_stored(&self) -> (r: StoredNote)
        ensures
            r@ == stored_of(self@),
    {
        let text = if self.text.as_str().is_empty() {
            None
        } else {
            Some(self.text.clone())
        };
        let disabled = if self.disabled {
            Some(true)
        } else {
            None
        };
        StoredNote { text, disabled }
    }

    /// Reads a note back from its sparse form; an absent field takes its default.
    pub fn from_stored(s: &StoredNote) -> (r: Note)
        ensures
            r@ == note_of(s@),
    {
        let text = match &s.text {
            Some(t) => t.clone(),
            None => String::new(),
        };
        let disabled = match s.disabled {
            Some(b) => b,
            None => false,
        };
        Note { text, disabled }
    }
}

impl Clone for Note {
    fn clone(&self) -> (r: Note)
        ensures
            r@ == self@,
    {
        Note { text: self.text.clone(), disabled: self.disabled }
    }
}

impl Default for Note {
    fn default() -> (r: Note)
        ensures
            r@ == default_note(),
    {
        Note { text: String::new(), disabled: false }
    }
}

/// The sparse form of a note, as a mathematical value.
pub struct StoredModel {
    pub text: Option<Seq<char>>,
    pub disabled: Option<bool>,
}

/// The sparse form of a note as it is written to disk: `None` stands for
/// a field left out because it holds its default.
#[derive(Debug, PartialEq, Eq)]
pub struct StoredNote {
    pub text: Option<String>,
    pub disabled: Option<bool>,
}

impl View for StoredNote {
    type V = StoredModel;

    open spec fn view(&self) -> StoredModel {
        StoredModel {
            text: match self.text {
                Some(t) => Some(t@),
                None => None,
            },
            disabled: self.disabled,
        }
    }
}

/// The sparse form of a note: a field is kept exactly when it is not at
/// its default (empty text, not disabled).
pub open spec fn stored_of(n: NoteModel) -> StoredModel {
    StoredModel {
        text: if n.text.len() == 0 {
            None
        } else {
            Some(n.text)
        },
        disabled: if n.disabled {
            Some(true)
        } else {
            None
        },
    }
}

/// The note that a sparse form stands for: absent fields take their defaults.
pub open spec fn note_of(s: StoredModel) -> NoteModel {
    NoteModel {
        text: match s.text {
            Some(t) => t,
            None => Seq::empty(),
        },
        disabled: match s.disabled {
            Some(b) => b,
            None => false,
        },
    }
}

/// Writing a note in its sparse form and reading it back gives the same note.
pub proof fn lemma_note_round_trip(n: NoteModel)
    ensures
        note_of(stored_of(n)) == n,
{
    if n.text.len() == 0 {
        assert(n.text =~= Seq::<char>::empty());
    }
}

} // verus!
