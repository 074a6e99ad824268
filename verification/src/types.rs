//! The request for a card and the history of generated items.

use vstd::prelude::*;

verus! {

/// What is asked for when a card is generated.
#[derive(Clone, Debug)]
pub struct CardRequest {
    /// What the card is about.
    pub description: String,
    /// The field names the card is to have; the first is the sort field.
    pub fields: Vec<String>,
    /// The note type of the card.
    pub note_type: String,
    /// The deck the card goes to.
    pub deck: String,
    /// Whether fields may be left out or empty.
    pub optional_fields: bool,
}

/// The labels of the items generated so far, oldest first.
#[derive(Clone, Debug)]
pub struct StoredHistory {
    pub used_items: Vec<String>,
}

impl View for StoredHistory {
    type V = Seq<Seq<char>>;

    open spec fn view(&self) -> Seq<Seq<char>> {
        self.used_items.deep_view()
    }
}

impl Default for StoredHistory {
    /// The history before anything was generated.
    fn default() -> (history: Self)
        ensures
            history@ == Seq::<Seq<char>>::empty(),
    {
        let history = StoredHistory { used_items: Vec::new() };
        assert(history@ =~= Seq::<Seq<char>>::empty());
        history
    }
}

impl StoredHistory {
    /// Adds `label` at the end. Nothing is removed and nothing is merged: a
    /// label that is there already is there twice afterwards.
    pub fn append(&mut self, label: String)
        ensures
            final(self)@ == old(self)@.push(label@),
    {
        let ghost before = self@;
        self.used_items.push(label);
        assert(self@ =~= before.push(label@));
    }

    /// The number of labels.
    pub fn len(&self) -> (n: usize)
        ensures
            n == self@.len(),
    {
        self.used_items.len()
    }
}

} // verus!
