use vstd::prelude::*;

use crate::note::{
    default_note, lemma_note_round_trip, note_of, stored_of, Note, NoteModel, StoredModel,
    StoredNote,
};

verus! {

/// Why an operation on the store was refused.
#[derive(Debug, Clone, Copy, PartialEq, Eq, Structural)]
pub enum StoreError {
    /// The position names no note of the current list.
    InvalidIndex,
}

/// The list of notes that a sequence of notes stands for.
pub open spec fn notes_view(v: Seq<Note>) -> Seq<NoteModel> {
    v.map_values(|n: Note| n@)
}

/// The whole store: the ordered list of notes. A note is addressed by its
/// position in the list.
#[derive(Debug)]
pub struct Db {
    pub notes: Vec<Note>,
}

impl View for Db {
    type V = Seq<NoteModel>;

    open spec fn view(&self) -> Seq<NoteModel> {
        notes_view(self.notes@)
    }
}

/// A change to the store, as the remote operations request it.
#[derive(Debug)]
pub enum Op {
    Add,
    Update(usize, Note),
    Delete(usize),
}

/// A change to the store, as a mathematical value.
pub enum OpModel {
    Add,
    Update(int, NoteModel),
    Delete(int),
}

impl View for Op {
    type V = OpModel;

    open spec fn view(&self) -> OpModel {
        match self {
            Op::Add => OpModel::Add,
            Op::Update(i, n) => OpModel::Update(*i as int, n@),
            Op::Delete(i) => OpModel::Delete(*i as int),
        }
    }
}

impl Clone for Op {
    fn clone(&self) -> (r: Op)
        ensures
            r@ == self@,
    {
        match self {
            Op::Add => Op::Add,
            Op::Update(i, n) => Op::Update(*i, n.clone()),
            Op::Delete(i) => Op::Delete(*i),
        }
    }
}

/// Whether an operation is carried out on the list `s`: adding always is;
/// updating and deleting are when the position names a note.
pub open spec fn op_succeeds(s: Seq<NoteModel>, op: OpModel) -> bool {
    match op {
        OpModel::Add => true,
        OpModel::Update(i, _) => 0 <= i < s.len(),
        OpModel::Delete(i) => 0 <= i < s.len(),
    }
}

/// The list after one operation; a refused operation leaves it as it was.
pub open spec fn step(s: Seq<NoteModel>, op: OpModel) -> Seq<NoteModel> {
    if !op_succeeds(s, op) {
        s
    } else {
        match op {
            OpModel::Add => s.push(default_note()),
            OpModel::Update(i, n) => s.update(i, n),
            OpModel::Delete(i) => s.remove(i),
        }
    }
}

/// The list after the operations `ops`, applied in order from `s`.
pub open spec fn replay(s: Seq<NoteModel>, ops: Seq<OpModel>) -> Seq<NoteModel>
    decreases ops.len(),
{
    if ops.len() == 0 {
        s
    } else {
        step(replay(s, ops.drop_last()), ops.last())
    }
}

/// Applying `a` and then `b` gives the same list as applying `a` followed
/// by `b` as one sequence: only the order of submission matters.
pub proof fn lemma_replay_concat(s: Seq<NoteModel>, a: Seq<OpModel>, b: Seq<OpModel>)
    ensures
        replay(s, a + b) == replay(replay(s, a), b),
    decreases b.len(),
{
    if b.len() == 0 {
        assert(a + b =~= a);
    } else {
        assert((a + b).drop_last() =~= a + b.drop_last());
        assert((a + b).last() == b.last());
        lemma_replay_concat(s, a, b.drop_last());
    }
}

/// The views of a sequence of operations.
pub open spec fn ops_view(ops: Seq<Op>) -> Seq<OpModel> {
    ops.map_values(|o: Op| o@)
}

impl Db {
    /// An empty store.
    pub fn new() -> (r: Db)
        ensures
            r@ == Seq::<NoteModel>::empty(),
    {
        Db { notes: Vec::new() }
    }

    /// Appends a default note (empty text, not disabled) to the end of the list.
    pub fn add(&mut self)
        ensures
            final(self)@ == old(self)@.push(default_note()),
    {
        let n = Note::default();
        self.notes.push(n);
        assert(notes_view(self.notes@) =~= notes_view(old(self).notes@).push(default_note()));
    }

    /// A copy of the whole ordered list.
    pub fn read(&self) -> (r: Vec<Note>)
        ensures
            notes_view(r@) == self@,
    {
        let mut out: Vec<Note> = Vec::new();
        let mut i: usize = 0;
        while i < self.notes.len()
            invariant
                i <= self.notes.len(),
                notes_view(out@) =~= notes_view(self.notes@).take(i as int),
            decreases self.notes.len() - i,
        {
            let n = self.notes[i].clone();
            assert(n@ == notes_view(self.notes@)[i as int]);
            let ghost prev = out@;
            out.push(n);
            assert(notes_view(out@) =~= notes_view(prev).push(n@));
            i = i + 1;
            assert(notes_view(out@) =~= notes_view(self.notes@).take(i as int));
        }
        assert(notes_view(self.notes@).take(i as int) =~= notes_view(self.notes@));
        out
    }

    /// Replaces the note at `index`. Fails with `InvalidIndex`, changing
    /// nothing, when `index` names no note.
    pub fn update(&mut self, index: usize, note: Note) -> (r: Result<(), StoreError>)
        ensures
            r is Ok <==> index < old(self)@.len(),
            r is Ok ==> final(self)@ == old(self)@.update(index as int, note@),
            r is Err ==> r == Err::<(), StoreError>(StoreError::InvalidIndex) && final(self)@
                == old(self)@,
    {
        if index >= self.notes.len() {
            return Err(StoreError::InvalidIndex);
        }
        let ghost n = note@;
        self.notes.set(index, note);
        assert(notes_view(self.notes@) =~= notes_view(old(self).notes@).update(index as int, n));
        Ok(())
    }

    /// Removes the note at `index`; the notes after it move down by one
    /// position. Fails with `InvalidIndex`, changing nothing, when `index`
    /// names no note.
    pub fn delete(&mut self, index: usize) -> (r: Result<(), StoreError>)
        ensures
            r is Ok <==> index < old(self)@.len(),
            r is Ok ==> final(self)@ == old(self)@.remove(index as int),
            r is Ok ==> final(self)@.len() == old(self)@.len() - 1,
            r is Ok ==> forall|j: int|
                0 <= j < index ==> #[trigger] final(self)@[j] == old(self)@[j],
            r is Ok ==> forall|j: int|
                index <= j < final(self)@.len() ==> #[trigger] final(self)@[j] == old(self)@[j
                    + 1],
            r is Err ==> r == Err::<(), StoreError>(StoreError::InvalidIndex) && final(self)@
                == old(self)@,
    {
        if index >= self.notes.len() {
            return Err(StoreError::InvalidIndex);
        }
        self.notes.remove(index);
        assert(notes_view(self.notes@) =~= notes_view(old(self).notes@).remove(index as int));
        Ok(())
    }

    /// Carries out one operation.
    pub fn apply(&mut self, op: Op) -> (r: Result<(), StoreError>)
        ensures
            r is Ok <==> op_succeeds(old(self)@, op@),
            r is Err ==> r == Err::<(), StoreError>(StoreError::InvalidIndex),
            final(self)@ == step(old(self)@, op@),
    {
        match op {
            Op::Add => {
                self.add();
                Ok(())
            },
            Op::Update(i, n) => self.update(i, n),
            Op::Delete(i) => self.delete(i),
        }
    }

    /// Carries out the operations in order, each on the list that the ones
    /// before it left; a refused operation changes nothing and the rest go on.
    /// Returns the outcome of each.
    pub fn apply_all(&mut self, ops: &Vec<Op>) -> (r: Vec<Result<(), StoreError>>)
        ensures
            final(self)@ == replay(old(self)@, ops_view(ops@)),
            r.len() == ops.len(),
            forall|k: int|
                0 <= k < ops.len() ==> (#[trigger] r@[k] is Ok <==> op_succeeds(
                    replay(old(self)@, ops_view(ops@).take(k)),
                    ops@[k]@,
                )),
    {
        let ghost start = self@;
        let mut out: Vec<Result<(), StoreError>> = Vec::new();
        let mut i: usize = 0;
        while i < ops.len()
            invariant
                i <= ops.len(),
                out.len() == i,
                self@ == replay(start, ops_view(ops@).take(i as int)),
                forall|k: int|
                    0 <= k < i ==> (#[trigger] out@[k] is Ok <==> op_succeeds(
                        replay(start, ops_view(ops@).take(k)),
                        ops@[k]@,
                    )),
            decreases ops.len() - i,
        {
            let ghost before = self@;
            let op = ops[i].clone();
            let res = self.apply(op);
            out.push(res);
            assert(ops_view(ops@).take(i + 1).drop_last() =~= ops_view(ops@).take(i as int));
            assert(ops_view(ops@).take(i + 1).last() == ops@[i as int]@);
            i = i + 1;
        }
        assert(ops_view(ops@).take(i as int) =~= ops_view(ops@));
        out
    }

    /// The snapshot that is written to disk: the whole list, each note in
    /// its sparse form.
    pub fn save(&self) -> (r: StoredDb)
        ensures
            r@ == stored_list(self@),
    {
        let mut out: Vec<StoredNote> = Vec::new();
        let mut i: usize = 0;
        while i < self.notes.len()
            invariant
                i <= self.notes.len(),
                stored_view(out@) =~= stored_list(self@).take(i as int),
            decreases self.notes.len() - i,
        {
            let s = self.notes[i].to_stored();
            assert(s@ == stored_list(self@)[i as int]);
            let ghost prev = out@;
            out.push(s);
            assert(stored_view(out@) =~= stored_view(prev).push(s@));
            i = i + 1;
            assert(stored_view(out@) =~= stored_list(self@).take(i as int));
        }
        assert(stored_list(self@).take(i as int) =~= stored_list(self@));
        StoredDb { notes: out }
    }

    /// The store that a snapshot stands for.
    pub fn load(stored: &StoredDb) -> (r: Db)
        ensures
            r@ == notes_of(stored@),
    {
        let mut out: Vec<Note> = Vec::new();
        let mut i: usize = 0;
        while i < stored.notes.len()
            invariant
                i <= stored.notes.len(),
                notes_view(out@) =~= notes_of(stored@).take(i as int),
            decreases stored.notes.len() - i,
        {
            let n = Note::from_stored(&stored.notes[i]);
            assert(n@ == notes_of(stored@)[i as int]);
            let ghost prev = out@;
            out.push(n);
            assert(notes_view(out@) =~= notes_view(prev).push(n@));
            i = i + 1;
            assert(notes_view(out@) =~= notes_of(stored@).take(i as int));
        }
        assert(notes_of(stored@).take(i as int) =~= notes_of(stored@));
        Db { notes: out }
    }
}

/// The persisted form of the store: one record holding the list of notes,
/// each in its sparse form.
#[derive(Debug, PartialEq, Eq)]
pub struct StoredDb {
    pub notes: Vec<StoredNote>,
}

/// The sparse forms that a sequence of stored notes stands for.
pub open spec fn stored_view(v: Seq<StoredNote>) -> Seq<StoredModel> {
    v.map_values(|s: StoredNote| s@)
}

impl View for StoredDb {
    type V = Seq<StoredModel>;

    open spec fn view(&self) -> Seq<StoredModel> {
        stored_view(self.notes@)
    }
}

/// The sparse form of each note of a list, in order.
pub open spec fn stored_list(s: Seq<NoteModel>) -> Seq<StoredModel> {
    s.map_values(|n: NoteModel| stored_of(n))
}

/// The notes that a list of sparse forms stands for, in order.
pub open spec fn notes_of(s: Seq<StoredModel>) -> Seq<NoteModel> {
    s.map_values(|m: StoredModel| note_of(m))
}

/// Saving the store and loading the snapshot back gives the same list,
/// note for note: a field left out reads back as its default.
pub proof fn lemma_save_load_round_trip(notes: Seq<NoteModel>)
    ensures
        notes_of(stored_list(notes)) == notes,
{
    assert forall|j: int| 0 <= j < notes.len() implies #[trigger] notes_of(
        stored_list(notes),
    )[j] == notes[j] by {
        lemma_note_round_trip(notes[j]);
    }
    assert(notes_of(stored_list(notes)) =~= notes);
}

} // verus!
