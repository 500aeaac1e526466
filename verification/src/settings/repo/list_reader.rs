//! Choosing one value of a list with the arrow keys.

use super::prompts::{starting_cursor, starts_at};
use super::{moved, Key, ListSetting, ReadError};
use crate::ordered::{set_get, set_len};
use vstd::prelude::*;

verus! {

/// How room is made on the screen before a list is shown.
#[derive(Clone, Copy, Debug, PartialEq, Eq, Structural)]
pub enum Area {
    /// The list fits below the question: it begins on the next line.
    Fits,
    /// The screen is scrolled up by `up` lines and the list begins `back` lines above the
    /// cursor.
    Scroll { up: u16, back: u16 },
}

/// The number of lines that a list of `count` entries is given on the screen.
pub fn list_length(count: usize) -> (length: u16)
    ensures
        length == if count <= u16::MAX {
            count as u16
        } else {
            u16::MAX
        },
{
    if count <= 0xFFFF {
        count as u16
    } else {
        0xFFFF
    }
}

/// How room is made for a list of `length` lines where `space` lines are left below the
/// cursor.
pub open spec fn area_for(space: int, length: int) -> Area {
    if space > length {
        Area::Fits
    } else {
        Area::Scroll { up: (2 + length - space) as u16, back: (1 + length - space) as u16 }
    }
}

/// Decides how room is made for a list of `length` lines where `space` lines are left below
/// the cursor: a list that is shorter than that fits, and for any other the screen is
/// scrolled by what is missing and two lines more.
pub fn prepare_area(space: u16, length: u16) -> (area: Area)
    requires
        space <= length ==> 2 + length - space <= u16::MAX,
    ensures
        area == area_for(space as int, length as int),
{
    if space > length {
        Area::Fits
    } else {
        let missing: u16 = length - space;
        Area::Scroll { up: 2 + missing, back: 1 + missing }
    }
}

/// Follows the keys that are pressed while a list setting is shown.
pub struct ListReader {
    setting: ListSetting,
    index: usize,
}

impl ListReader {
    /// The setting that is asked for.
    pub closed spec fn setting(self) -> ListSetting {
        self.setting
    }

    /// The place of the entry that the cursor stands at.
    pub closed spec fn position(self) -> int {
        self.index as int
    }

    /// The cursor stands at an entry.
    pub open spec fn wf(self) -> bool {
        0 <= self.position() < self.setting().offered().len()
    }

    /// A reader with its cursor at the default of the setting; at the first entry where the
    /// setting has none, or one that is none of its values.
    pub fn new(setting: ListSetting) -> (reader: Self)
        requires
            setting.offered().len() > 0,
        ensures
            reader.wf(),
            reader.setting() == setting,
            starts_at(setting, reader.position()),
    {
        let index = starting_cursor(&setting);
        Self { setting, index }
    }

    /// A reader for the setting, unless it has no values to choose from.
    pub fn try_new(setting: ListSetting) -> (reader: Option<Self>)
        ensures
            match reader {
                Some(r) => r.wf() && r.setting() == setting && starts_at(setting, r.position()),
                None => setting.offered().len() == 0,
            },
    {
        if set_len(&setting.values) == 0 {
            None
        } else {
            Some(Self::new(setting))
        }
    }

    /// The place of the entry that the cursor stands at.
    pub fn cursor(&self) -> (index: usize)
        ensures
            index == self.position(),
    {
        self.index
    }

    /// Takes one key. The arrows move the cursor, around the ends of the list, and the list
    /// is to be shown again. `Enter` ends the reading with the entry at the cursor, `Cancel`
    /// ends it without an answer, and any other key changes nothing.
    pub fn press(&mut self, key: Key) -> (done: Option<Result<String, ReadError>>)
        requires
            old(self).wf(),
        ensures
            final(self).wf(),
            final(self).setting() == old(self).setting(),
            final(self).position() == moved(
                old(self).position(),
                key,
                old(self).setting().offered().len() as int,
            ),
            match key {
                Key::Enter => done matches Some(Ok(value)) && value@ == old(
                    self,
                ).setting().offered()[old(self).position()],
                Key::Cancel => done matches Some(Err(ReadError::Cancelled)),
                _ => done.is_none(),
            },
    {
        let count = set_len(&self.setting.values);
        match key {
            Key::Cancel => Some(Err(ReadError::Cancelled)),
            Key::Enter => match set_get(&self.setting.values, self.index) {
                Some(value) => Some(Ok(value.clone())),
                None => Some(Err(ReadError::Cancelled)),
            },
            Key::Up => {
                if self.index == 0 {
                    self.index = count - 1;
                } else {
                    self.index = self.index - 1;
                }
                None
            },
            Key::Down => {
                if self.index == count - 1 {
                    self.index = 0;
                } else {
                    self.index = self.index + 1;
                }
                None
            },
            _ => None,
        }
    }
}

} // verus!
