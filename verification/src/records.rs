//! The record store: the credential entries of an unlocked vault, kept in
//! insertion order and keyed by their labels.

use vstd::prelude::*;
use crate::error::StoreError;
use crate::memory::{wipe_bytes, wipe_string};

verus! {

/// One credential: a label, the secret it names, and free-form metadata.
#[derive(Debug, PartialEq, Eq)]
pub struct CredentialEntry {
    /// The key of the entry; case-sensitive and unique within a store.
    pub label: String,
    pub secret: Vec<u8>,
    pub username: Option<String>,
    pub notes: Option<String>,
}

/// What a credential entry holds.
pub struct Entry {
    pub label: Seq<char>,
    pub secret: Seq<u8>,
    pub username: Option<Seq<char>>,
    pub notes: Option<Seq<char>>,
}

/// What an optional text holds.
pub open spec fn text_view(text: Option<String>) -> Option<Seq<char>> {
    match text {
        None => None,
        Some(t) => Some(t@),
    }
}

impl View for CredentialEntry {
    type V = Entry;

    open spec fn view(&self) -> Entry {
        Entry {
            label: self.label@,
            secret: self.secret@,
            username: text_view(self.username),
            notes: text_view(self.notes),
        }
    }
}

/// What a list of entries holds.
pub open spec fn entries_view(entries: Seq<CredentialEntry>) -> Seq<Entry> {
    Seq::new(entries.len(), |i: int| entries[i]@)
}

/// No label occurs twice.
pub open spec fn distinct_labels(s: Seq<Entry>) -> bool {
    forall|i: int, j: int| 0 <= i < j < s.len() ==> (#[trigger] s[i]).label != (#[trigger] s[j]).label
}

/// Some entry carries `label`.
pub open spec fn has_label(s: Seq<Entry>, label: Seq<char>) -> bool {
    exists|i: int| 0 <= i < s.len() && (#[trigger] s[i]).label == label
}

/// The place of an entry that carries `label`; the only one where labels
/// are distinct.
pub open spec fn position(s: Seq<Entry>, label: Seq<char>) -> int {
    choose|i: int| 0 <= i < s.len() && (#[trigger] s[i]).label == label
}

/// Where labels are distinct, an entry with the label is at its position.
pub proof fn lemma_position(s: Seq<Entry>, i: int)
    requires
        distinct_labels(s),
        0 <= i < s.len(),
    ensures
        has_label(s, s[i].label),
        position(s, s[i].label) == i,
{
    let label = s[i].label;
    let p = position(s, label);
    assert(0 <= p < s.len() && s[p].label == label);
    if p < i {
        assert(s[p].label != s[i].label);
    } else if i < p {
        assert(s[i].label != s[p].label);
    }
}

impl CredentialEntry {
    /// Erases label, secret and metadata.
    pub fn wipe(&mut self)
        ensures
            final(self)@ == (Entry {
                label: Seq::<char>::empty(),
                secret: Seq::<u8>::empty(),
                username: None,
                notes: None,
            }),
    {
        wipe_string(&mut self.label);
        wipe_bytes(&mut self.secret);
        match self.username.take() {
            Some(mut text) => {
                wipe_string(&mut text);
            },
            None => {},
        }
        match self.notes.take() {
            Some(mut text) => {
                wipe_string(&mut text);
            },
            None => {},
        }
    }
}

impl Drop for CredentialEntry {
    /// Erases label, secret and metadata when the entry goes out of use.
    fn drop(&mut self)
        opens_invariants none
        no_unwind
    {
        wipe_string(&mut self.label);
        wipe_bytes(&mut self.secret);
        match &mut self.username {
            Some(text) => {
                wipe_string(text);
            },
            None => {},
        }
        match &mut self.notes {
            Some(text) => {
                wipe_string(text);
            },
            None => {},
        }
    }
}

/// The entries of an unlocked vault, in insertion order.
pub struct RecordStore {
    entries: Vec<CredentialEntry>,
}

impl View for RecordStore {
    type V = Seq<Entry>;

    closed spec fn view(&self) -> Seq<Entry> {
        entries_view(self.entries@)
    }
}

impl RecordStore {
    /// The store's invariant: labels are unique.
    pub open spec fn well_formed(&self) -> bool {
        distinct_labels(self@)
    }

    /// An empty store.
    pub fn new() -> (store: RecordStore)
        ensures
            store@ == Seq::<Entry>::empty(),
            store.well_formed(),
    {
        let store = RecordStore { entries: Vec::new() };
        assert(store@ =~= Seq::<Entry>::empty());
        store
    }

    /// Builds a store from entries, if their labels are distinct.
    pub(crate) fn from_entries(entries: Vec<CredentialEntry>) -> (r: Option<RecordStore>)
        ensures
            match r {
                Some(store) => store@ == entries_view(entries@) && store.well_formed(),
                None => !distinct_labels(entries_view(entries@)),
            },
    {
        let ghost s = entries_view(entries@);
        let mut j: usize = 0;
        while j < entries.len()
            invariant
                j <= entries.len(),
                s == entries_view(entries@),
                forall|a: int, b: int| 0 <= a < b < j ==> (#[trigger] s[a]).label != (#[trigger] s[b]).label,
            decreases entries.len() - j,
        {
            let mut i: usize = 0;
            while i < j
                invariant
                    i <= j < entries.len(),
                    s == entries_view(entries@),
                    forall|a: int| 0 <= a < i ==> (#[trigger] s[a]).label != s[j as int].label,
                decreases j - i,
            {
                if entries[i].label == entries[j].label {
                    assert(s[i as int].label == s[j as int].label);
                    return None;
                }
                i += 1;
            }
            j += 1;
        }
        Some(RecordStore { entries })
    }

    /// The index of the entry labelled `label`, if there is one.
    fn locate(&self, label: &String) -> (r: Option<usize>)
        ensures
            match r {
                Some(i) => i < self@.len() && self@[i as int].label == label@,
                None => !has_label(self@, label@),
            },
    {
        let mut i: usize = 0;
        while i < self.entries.len()
            invariant
                i <= self.entries.len(),
                self@.len() == self.entries@.len(),
                forall|a: int| 0 <= a < i ==> (#[trigger] self@[a]).label != label@,
            decreases self.entries.len() - i,
        {
            if self.entries[i].label == *label {
                return Some(i);
            }
            i += 1;
        }
        None
    }

    /// The number of entries.
    pub fn len(&self) -> (n: usize)
        ensures
            n == self@.len(),
    {
        self.entries.len()
    }

    /// Adds an entry at the end, or replaces the entry of the same label in
    /// place when `overwrite` is set. A label that is already present is
    /// refused without `overwrite`, and the store stays as it was.
    pub fn insert(&mut self, entry: CredentialEntry, overwrite: bool) -> (r: Result<(), StoreError>)
        requires
            old(self).well_formed(),
        ensures
            final(self).well_formed(),
            if has_label(old(self)@, entry@.label) {
                if overwrite {
                    r is Ok && final(self)@ == old(self)@.update(
                        position(old(self)@, entry@.label),
                        entry@,
                    )
                } else {
                    r == Err::<(), StoreError>(StoreError::DuplicateLabel) && final(self)@ == old(
                        self,
                    )@
                }
            } else {
                r is Ok && final(self)@ == old(self)@.push(entry@)
            },
    {
        let ghost before = self@;
        let ghost added = entry@;
        match self.locate(&entry.label) {
            Some(i) => {
                proof {
                    lemma_position(before, i as int);
                }
                if !overwrite {
                    return Err(StoreError::DuplicateLabel);
                }
                let mut replaced = entry;
                self.entries.set_and_swap(i, &mut replaced);
                replaced.wipe();
                assert(self@ =~= before.update(i as int, added));
                assert forall|a: int, b: int| 0 <= a < b < self@.len() implies (#[trigger] self@[a]).label
                    != (#[trigger] self@[b]).label by {
                    assert(before[a].label != before[b].label);
                }
                Ok(())
            },
            None => {
                self.entries.push(entry);
                assert(self@ =~= before.push(added));
                assert forall|a: int, b: int| 0 <= a < b < self@.len() implies (#[trigger] self@[a]).label
                    != (#[trigger] self@[b]).label by {
                    if b < before.len() {
                        assert(before[a].label != before[b].label);
                    } else {
                        assert(before[a].label != added.label);
                    }
                }
                Ok(())
            },
        }
    }

    /// Replaces the entry of the same label in place; fails when no entry
    /// carries the label, and the store stays as it was.
    pub fn update(&mut self, entry: CredentialEntry) -> (r: Result<(), StoreError>)
        requires
            old(self).well_formed(),
        ensures
            final(self).well_formed(),
            if has_label(old(self)@, entry@.label) {
                r is Ok && final(self)@ == old(self)@.update(
                    position(old(self)@, entry@.label),
                    entry@,
                )
            } else {
                r == Err::<(), StoreError>(StoreError::LabelNotFound) && final(self)@ == old(self)@
            },
    {
        match self.locate(&entry.label) {
            Some(_) => self.insert(entry, true),
            None => Err(StoreError::LabelNotFound),
        }
    }

    /// The entry labelled `label`, if there is one.
    pub fn get(&self, label: &str) -> (r: Option<&CredentialEntry>)
        requires
            self.well_formed(),
        ensures
            if has_label(self@, label@) {
                r matches Some(e) && e@ == self@[position(self@, label@)]
            } else {
                r is None
            },
    {
        let wanted = label.to_owned();
        match self.locate(&wanted) {
            Some(i) => {
                proof {
                    lemma_position(self@, i as int);
                }
                Some(&self.entries[i])
            },
            None => None,
        }
    }

    /// Takes the entry labelled `label` out of the store, if there is one;
    /// the entries behind it move up.
    pub fn remove(&mut self, label: &str) -> (r: Option<CredentialEntry>)
        requires
            old(self).well_formed(),
        ensures
            final(self).well_formed(),
            if has_label(old(self)@, label@) {
                r matches Some(e) && e@ == old(self)@[position(old(self)@, label@)] && final(self)@
                    == old(self)@.remove(position(old(self)@, label@))
            } else {
                r is None && final(self)@ == old(self)@
            },
    {
        let ghost before = self@;
        let wanted = label.to_owned();
        match self.locate(&wanted) {
            Some(i) => {
                proof {
                    lemma_position(before, i as int);
                }
                let taken = self.entries.remove(i);
                assert(self@ =~= before.remove(i as int));
                assert forall|a: int, b: int| 0 <= a < b < self@.len() implies (#[trigger] self@[a]).label
                    != (#[trigger] self@[b]).label by {
                    let a0 = if a < i { a } else { a + 1 };
                    let b0 = if b < i { b } else { b + 1 };
                    assert(before[a0].label != before[b0].label);
                }
                Some(taken)
            },
            None => None,
        }
    }

    /// The entries in insertion order.
    pub fn list(&self) -> (entries: &Vec<CredentialEntry>)
        ensures
            entries_view(entries@) == self@,
    {
        &self.entries
    }

    /// Erases every entry and leaves the store empty.
    pub fn wipe(&mut self)
        ensures
            final(self)@ == Seq::<Entry>::empty(),
            final(self).well_formed(),
    {
        while self.entries.len() > 0
            decreases self.entries.len(),
        {
            match self.entries.pop() {
                Some(mut entry) => {
                    entry.wipe();
                },
                None => {},
            }
        }
        assert(self@ =~= Seq::<Entry>::empty());
    }
}

} // verus!
