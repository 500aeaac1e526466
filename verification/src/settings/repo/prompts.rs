//! What a prompt starts from: where the cursor of a list stands, which entries are chosen
//! already, and which text is a number in range.

use super::{ListSetting, MultiListSetting, NumberSetting};
use crate::number::{decimal, parse_decimal};
use crate::ordered::{set_get, set_len};
use crate::text::{chars_of, texts};
use vstd::prelude::*;

verus! {

/// Whether `index` is the first place in `values` that holds `wanted`.
pub open spec fn first_place(values: Seq<Seq<char>>, wanted: Seq<char>, index: int) -> bool {
    &&& 0 <= index < values.len()
    &&& values[index] == wanted
    &&& forall|j: int| 0 <= j < index ==> values[j] != wanted
}

/// Whether a list starts with its cursor at `cursor`: at the default where that is one of
/// the values, else at the first entry.
pub open spec fn starts_at(setting: ListSetting, cursor: int) -> bool {
    match setting.default {
        Some(d) if setting.offered().contains(d@) => first_place(setting.offered(), d@, cursor),
        _ => cursor == 0,
    }
}

/// Whether the entry at `index` of a multi-list is chosen in advance.
pub open spec fn chosen_in_advance(setting: MultiListSetting, index: int) -> bool {
    0 <= index < setting.offered().len() && setting.preselected(setting.offered()[index])
}

/// Whether a multi-list starts with its cursor at `cursor`: at the first entry that is
/// chosen in advance, else at the first entry.
pub open spec fn multi_starts_at(setting: MultiListSetting, cursor: int) -> bool {
    if exists|i: int| chosen_in_advance(setting, i) {
        chosen_in_advance(setting, cursor) && forall|j: int|
            0 <= j < cursor ==> !chosen_in_advance(setting, j)
    } else {
        cursor == 0
    }
}

/// Whether `selection` lists the entries of a multi-list that are chosen in advance, each
/// once and in their order.
pub open spec fn selects_defaults(setting: MultiListSetting, selection: Seq<usize>) -> bool {
    &&& forall|k: int|
        0 <= k < selection.len() ==> chosen_in_advance(setting, (#[trigger] selection[k]) as int)
    &&& forall|k: int, l: int| 0 <= k < l < selection.len() ==> selection[k] < selection[l]
    &&& forall|i: int|
        chosen_in_advance(setting, i) ==> exists|k: int|
            0 <= k < selection.len() && #[trigger] selection[k] == i
}

/// The number that a text writes for a setting of whole numbers: in decimal digits, and
/// between the minimum and the maximum, both included.
pub open spec fn number_in_range(setting: NumberSetting<i64>, text: Seq<char>) -> Option<i64> {
    match decimal(text) {
        Some(value) => if setting.min <= value <= setting.max {
            Some(value as i64)
        } else {
            None
        },
        None => None,
    }
}

/// Where the cursor of a list stands when it is first shown.
pub fn starting_cursor(setting: &ListSetting) -> (cursor: usize)
    ensures
        starts_at(*setting, cursor as int),
{
    let default = match &setting.default {
        Some(d) => d,
        None => {
            return 0;
        },
    };
    let count = set_len(&setting.values);
    let mut i: usize = 0;
    while i < count
        invariant
            i <= count == setting.offered().len(),
            setting.default == Some(*default),
            forall|j: int| 0 <= j < i ==> setting.offered()[j] != default@,
        decreases count - i,
    {
        if let Some(value) = set_get(&setting.values, i) {
            if *value == *default {
                assert(setting.offered()[i as int] == default@);
                return i;
            }
        }
        i = i + 1;
    }
    assert(!setting.offered().contains(default@));
    0
}

/// Whether `value` is among the values that a multi-list has chosen in advance.
pub fn is_preselected(setting: &MultiListSetting, value: &String) -> (b: bool)
    ensures
        b == setting.preselected(value@),
{
    match &setting.default {
        Some(d) => {
            let mut i: usize = 0;
            while i < d.len()
                invariant
                    i <= d.len(),
                    setting.default == Some(*d),
                    forall|j: int| 0 <= j < i ==> texts(d@)[j] != value@,
                decreases d.len() - i,
            {
                if d[i] == *value {
                    assert(texts(d@)[i as int] == value@);
                    return true;
                }
                i = i + 1;
            }
            assert(!texts(d@).contains(value@));
            false
        },
        None => false,
    }
}

/// Where the cursor of a multi-list stands when it is first shown, and the entries that are
/// chosen then.
pub fn starting_selection(setting: &MultiListSetting) -> (start: (usize, Vec<usize>))
    ensures
        multi_starts_at(*setting, start.0 as int),
        selects_defaults(*setting, start.1@),
{
    let count = set_len(&setting.values);
    let mut cursor: Option<usize> = None;
    let mut selection: Vec<usize> = Vec::new();
    let mut i: usize = 0;
    while i < count
        invariant
            i <= count == setting.offered().len(),
            forall|k: int|
                0 <= k < selection@.len() ==> chosen_in_advance(
                    *setting,
                    (#[trigger] selection@[k]) as int,
                ) && selection@[k] < i,
            forall|k: int, l: int| 0 <= k < l < selection@.len() ==> selection@[k] < selection@[l],
            forall|j: int|
                0 <= j < i && chosen_in_advance(*setting, j) ==> exists|k: int|
                    0 <= k < selection@.len() && #[trigger] selection@[k] == j,
            match cursor {
                Some(c) => c < i && chosen_in_advance(*setting, c as int) && forall|j: int|
                    0 <= j < c ==> !chosen_in_advance(*setting, j),
                None => forall|j: int| 0 <= j < i ==> !chosen_in_advance(*setting, j),
            },
        decreases count - i,
    {
        if let Some(value) = set_get(&setting.values, i) {
            if is_preselected(setting, value) {
                assert(chosen_in_advance(*setting, i as int));
                if cursor.is_none() {
                    cursor = Some(i);
                }
                let ghost before = selection@;
                selection.push(i);
                assert forall|j: int| 0 <= j < i + 1 && chosen_in_advance(*setting, j) implies exists|
                    k: int,
                | 0 <= k < selection@.len() && #[trigger] selection@[k] == j by {
                    if j < i {
                        let k = choose|k: int| 0 <= k < before.len() && #[trigger] before[k] == j;
                        assert(selection@[k] == j);
                    } else {
                        assert(selection@[before.len() as int] == j);
                    }
                }
            }
        }
        i = i + 1;
    }
    match cursor {
        Some(c) => (c, selection),
        None => (0, selection),
    }
}

/// Reads a whole number that has to lie in the range of a setting.
pub fn parse_number(setting: &NumberSetting<i64>, text: &str) -> (number: Option<i64>)
    ensures
        number == number_in_range(*setting, text@),
{
    let chars = chars_of(text);
    match parse_decimal(&chars) {
        Some(value) => if setting.min <= value && value <= setting.max {
            Some(value)
        } else {
            None
        },
        None => None,
    }
}

} // verus!
