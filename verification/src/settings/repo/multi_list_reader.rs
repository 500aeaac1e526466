//! Choosing any number of values of a list with the arrow keys.

use super::prompts::{chosen_in_advance, multi_starts_at, starting_selection};
use super::{moved, Key, MultiListSetting, ReadError};
use crate::ordered::{set_get, set_len};
use crate::text::texts;
use std::collections::HashSet;
use vstd::prelude::*;

verus! {

broadcast use vstd::std_specs::hash::group_hash_axioms;

/// Follows the keys that are pressed while a multi-list setting is shown.
pub struct MultiListReader {
    setting: MultiListSetting,
    index: usize,
    selection: HashSet<usize>,
}

/// The values at the chosen places, in the order of the list.
pub open spec fn picked(values: Seq<Seq<char>>, chosen: Set<usize>) -> Seq<Seq<char>>
    decreases values.len(),
{
    if values.len() == 0 {
        Seq::empty()
    } else if chosen.contains((values.len() - 1) as usize) {
        picked(values.drop_last(), chosen).push(values.last())
    } else {
        picked(values.drop_last(), chosen)
    }
}

/// The chosen places after `key` with the cursor at `cursor`.
pub open spec fn toggled(chosen: Set<usize>, key: Key, cursor: usize) -> Set<usize> {
    if key == Key::Toggle {
        if chosen.contains(cursor) {
            chosen.remove(cursor)
        } else {
            chosen.insert(cursor)
        }
    } else {
        chosen
    }
}

impl MultiListReader {
    /// The setting that is asked for.
    pub closed spec fn setting(self) -> MultiListSetting {
        self.setting
    }

    /// The place of the entry that the cursor stands at.
    pub closed spec fn position(self) -> int {
        self.index as int
    }

    /// The places of the entries that are chosen.
    pub closed spec fn chosen(self) -> Set<usize> {
        self.selection@
    }

    /// The cursor stands at an entry; in a list without entries it stands at the start.
    pub open spec fn wf(self) -> bool {
        self.position() == 0 || 0 <= self.position() < self.setting().offered().len()
    }

    /// Whether `key` can be taken: the arrows need a list that has entries.
    pub open spec fn takes(self, key: Key) -> bool {
        key == Key::Up || key == Key::Down ==> self.setting().offered().len() > 0
    }

    /// A reader with the entries chosen that the setting names as its default, and with its
    /// cursor at the first of them; at the first entry where there is none.
    pub fn new(setting: MultiListSetting) -> (reader: Self)
        ensures
            reader.wf(),
            reader.setting() == setting,
            multi_starts_at(setting, reader.position()),
            forall|i: usize| reader.chosen().contains(i) <==> chosen_in_advance(setting, i as int),
    {
        let (index, places) = starting_selection(&setting);
        let mut selection: HashSet<usize> = HashSet::new();
        let mut k: usize = 0;
        while k < places.len()
            invariant
                k <= places.len(),
                forall|i: usize|
                    selection@.contains(i) <==> exists|l: int|
                        0 <= l < k && #[trigger] places@[l] == i,
            decreases places.len() - k,
        {
            let ghost before = selection@;
            selection.insert(places[k]);
            assert forall|i: usize| selection@.contains(i) implies exists|l: int|
                0 <= l < k + 1 && #[trigger] places@[l] == i by {
                if before.contains(i) {
                    let l = choose|l: int| 0 <= l < k && #[trigger] places@[l] == i;
                    assert(places@[l] == i);
                } else {
                    assert(places@[k as int] == i);
                }
            }
            k = k + 1;
        }
        proof {
            assert forall|i: usize| selection@.contains(i) <==> chosen_in_advance(
                setting,
                i as int,
            ) by {
                if chosen_in_advance(setting, i as int) {
                    let l = choose|l: int| 0 <= l < places@.len() && #[trigger] places@[l] == i;
                    assert(places@[l] == i);
                }
                if selection@.contains(i) {
                    let l = choose|l: int| 0 <= l < places@.len() && #[trigger] places@[l] == i;
                    assert(chosen_in_advance(setting, places@[l] as int));
                }
            }
        }
        Self { setting, index, selection }
    }

    /// Whether the list has entries for the arrows to move between.
    pub fn can_move(&self) -> (b: bool)
        ensures
            b == (self.setting().offered().len() > 0),
    {
        set_len(&self.setting.values) > 0
    }

    /// The place of the entry that the cursor stands at.
    pub fn cursor(&self) -> (index: usize)
        ensures
            index == self.position(),
    {
        self.index
    }

    /// Whether the entry at `index` is chosen.
    pub fn is_selected(&self, index: usize) -> (b: bool)
        ensures
            b == self.chosen().contains(index),
    {
        self.selection.contains(&index)
    }

    /// The chosen values, in the order of the list.
    fn selected(&self) -> (values: Vec<String>)
        ensures
            texts(values@) == picked(self.setting().offered(), self.chosen()),
    {
        let count = set_len(&self.setting.values);
        let ghost offered = self.setting.offered();
        let mut values: Vec<String> = Vec::new();
        let mut i: usize = 0;
        assert(texts(values@) =~= picked(offered.take(0), self.selection@));
        while i < count
            invariant
                i <= count == offered.len(),
                offered == self.setting.offered(),
                texts(values@) == picked(offered.take(i as int), self.selection@),
            decreases count - i,
        {
            proof {
                let longer = offered.take(i + 1);
                assert(longer.drop_last() =~= offered.take(i as int));
                assert(longer.last() == offered[i as int]);
            }
            if self.selection.contains(&i) {
                if let Some(value) = set_get(&self.setting.values, i) {
                    let ghost before = values@;
                    values.push(value.clone());
                    assert(texts(values@) =~= texts(before).push(offered[i as int]));
                }
            }
            i = i + 1;
        }
        assert(offered.take(count as int) =~= offered);
        values
    }

    /// Takes one key. The arrows move the cursor, around the ends of the list; `Toggle`
    /// chooses the entry at the cursor or lets it go; after each of them the list is to be
    /// shown again. `Enter` ends the reading with the chosen values in the order of the
    /// list, which are none for a list without entries; `Cancel` ends it without an answer,
    /// and any other key changes nothing.
    pub fn press(&mut self, key: Key) -> (done: Option<Result<Vec<String>, ReadError>>)
        requires
            old(self).wf(),
            old(self).takes(key),
        ensures
            final(self).wf(),
            final(self).setting() == old(self).setting(),
            final(self).position() == moved(
                old(self).position(),
                key,
                old(self).setting().offered().len() as int,
            ),
            final(self).chosen() == toggled(old(self).chosen(), key, old(self).position() as usize),
            match key {
                Key::Enter => done matches Some(Ok(values)) && texts(values@) == picked(
                    old(self).setting().offered(),
                    old(self).chosen(),
                ),
                Key::Cancel => done matches Some(Err(ReadError::Cancelled)),
                _ => done.is_none(),
            },
    {
        let count = set_len(&self.setting.values);
        match key {
            Key::Cancel => Some(Err(ReadError::Cancelled)),
            Key::Enter => Some(Ok(self.selected())),
            Key::Up => {
                if self.index == 0 {
                    self.index = count - 1;
                } else {
                    self.index = self.index - 1;
                }
                None
            },
            Key::Down => {
                if self.index == count - 1 {
                    self.index = 0;
                } else {
                    self.index = self.index + 1;
                }
                None
            },
            Key::Toggle => {
                let index = self.index;
                if !self.selection.insert(index) {
                    self.selection.remove(&index);
                }
                assert(self.selection@ =~= toggled(old(self).selection@, key, index));
                None
            },
            Key::Other => None,
        }
    }
}

} // verus!
