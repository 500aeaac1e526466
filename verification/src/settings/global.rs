//! Answers that a bookmark gives in advance.

use crate::number::Float;
use vstd::prelude::*;

verus! {

/// An answer given in advance, of the kind of the setting it is meant for.
#[derive(Clone, Debug)]
pub enum DefaultValue {
    Bool(bool),
    String(String),
    Number(i64),
    Float(Float),
    List(String),
    /// The chosen values; their order and repetitions mean nothing.
    MultiList(Vec<String>),
}

/// An answer given in advance, and whether the user is still asked.
#[derive(Clone, Debug)]
pub struct DefaultSetting {
    pub value: DefaultValue,
    /// Take the value as the answer without asking. Otherwise the question is asked with
    /// the value filled in.
    pub skip_prompt: bool,
}

/// The answers of a bookmark by the names of the settings they are meant for. Each name has
/// at most one answer.
pub struct Defaults {
    entries: Vec<(String, DefaultSetting)>,
}

impl Defaults {
    /// No name occurs twice. `new` makes it so, and `insert` and `remove` keep it.
    pub closed spec fn wf(self) -> bool {
        forall|i: int, j: int|
            0 <= i < j < self.entries@.len() ==> self.entries@[i].0@ != self.entries@[j].0@
    }

    spec fn holds(self, name: Seq<char>, i: int) -> bool {
        0 <= i < self.entries@.len() && self.entries@[i].0@ == name
    }

    /// The answers by their names.
    pub closed spec fn view(self) -> Map<Seq<char>, DefaultSetting> {
        Map::new(
            |name: Seq<char>| exists|i: int| self.holds(name, i),
            |name: Seq<char>| self.entries@[choose|i: int| self.holds(name, i)].1,
        )
    }

    /// No answers.
    pub fn new() -> (defaults: Self)
        ensures
            defaults.wf(),
            defaults@ == Map::<Seq<char>, DefaultSetting>::empty(),
    {
        let defaults = Defaults { entries: Vec::new() };
        assert(defaults@ =~= Map::<Seq<char>, DefaultSetting>::empty());
        defaults
    }

    /// The position of the answer for `name`.
    fn position(&self, name: &str) -> (r: Option<usize>)
        ensures
            match r {
                Some(i) => self.holds(name@, i as int),
                None => forall|i: int| !self.holds(name@, i),
            },
    {
        let wanted = crate::text::chars_of(name);
        let mut i: usize = 0;
        while i < self.entries.len()
            invariant
                i <= self.entries.len(),
                wanted@ == name@,
                forall|j: int| 0 <= j < i ==> self.entries@[j].0@ != name@,
            decreases self.entries.len() - i,
        {
            let here = crate::text::chars_of(self.entries[i].0.as_str());
            if crate::text::same(&here, &wanted) {
                return Some(i);
            }
            i = i + 1;
        }
        None
    }

    /// Gives `name` the answer `setting`, in place of the one it had.
    pub fn insert(&mut self, name: String, setting: DefaultSetting)
        requires
            old(self).wf(),
        ensures
            final(self).wf(),
            final(self)@ == old(self)@.insert(name@, setting),
    {
        let ghost before = *self;
        match self.position(name.as_str()) {
            Some(i) => {
                self.entries.set(i, (name, setting));
                proof {
                    let after = *self;
                    assert(before.holds(name@, i as int));
                    assert forall|a: int, b: int| 0 <= a < b < after.entries@.len() implies
                        after.entries@[a].0@ != after.entries@[b].0@ by {
                        assert(before.entries@[a].0@ == after.entries@[a].0@);
                        assert(before.entries@[b].0@ == after.entries@[b].0@);
                    }
                    assert forall|key: Seq<char>, j: int| after.holds(key, j) <==> before.holds(
                        key,
                        j,
                    ) by {}
                    assert forall|key: Seq<char>| after@.dom().contains(key)
                        == before@.insert(name@, setting).dom().contains(key) by {
                        if key == name@ {
                            assert(after.holds(key, i as int));
                        }
                    }
                    assert forall|key: Seq<char>| #[trigger]
                        after@.dom().contains(key) implies after@[key] == before@.insert(
                        name@,
                        setting,
                    )[key] by {
                        let j = choose|j: int| after.holds(key, j);
                        let k = choose|k: int| before.holds(key, k);
                        assert(before.holds(key, j));
                        assert(j == k);
                    }
                    assert(after@ =~= before@.insert(name@, setting));
                }
            },
            None => {
                self.entries.push((name, setting));
                proof {
                    let after = *self;
                    let last = before.entries@.len() as int;
                    assert forall|a: int| 0 <= a < last implies after.entries@[a].0@ != name@ by {
                        assert(!before.holds(name@, a));
                    }
                    assert forall|key: Seq<char>| after@.dom().contains(key)
                        == before@.insert(name@, setting).dom().contains(key) by {
                        if key == name@ {
                            assert(after.holds(key, last));
                        } else if before@.dom().contains(key) {
                            let k = choose|k: int| before.holds(key, k);
                            assert(after.holds(key, k));
                        } else if after@.dom().contains(key) {
                            let j = choose|j: int| after.holds(key, j);
                            assert(before.holds(key, j));
                        }
                    }
                    assert forall|key: Seq<char>| #[trigger]
                        after@.dom().contains(key) implies after@[key] == before@.insert(
                        name@,
                        setting,
                    )[key] by {
                        let j = choose|j: int| after.holds(key, j);
                        if key == name@ {
                            if j < last {
                                assert(before.holds(name@, j));
                            }
                            assert(j == last);
                        } else {
                            let k = choose|k: int| before.holds(key, k);
                            assert(before.holds(key, j));
                            assert(after.holds(key, k));
                            assert(j == k);
                        }
                    }
                    assert(after@ =~= before@.insert(name@, setting));
                }
            },
        }
    }

    /// Takes the answer for `name` out, if there is one.
    pub fn remove(&mut self, name: &str) -> (taken: Option<DefaultSetting>)
        requires
            old(self).wf(),
        ensures
            taken == if old(self)@.contains_key(name@) {
                Some(old(self)@[name@])
            } else {
                None
            },
            final(self).wf(),
            final(self)@ == old(self)@.remove(name@),
    {
        let ghost before = *self;
        match self.position(name) {
            Some(i) => {
                let (_, setting) = self.entries.remove(i);
                proof {
                    let after = *self;
                    let at = i as int;
                    assert(before.holds(name@, at));
                    let chosen = choose|k: int| before.holds(name@, k);
                    assert(chosen == at);
                    assert forall|key: Seq<char>| after@.dom().contains(key) == before@.remove(
                        name@,
                    ).dom().contains(key) by {
                        if after@.dom().contains(key) {
                            let j = choose|j: int| after.holds(key, j);
                            if j < at {
                                assert(before.holds(key, j));
                            } else {
                                assert(before.holds(key, j + 1));
                            }
                        }
                        if key != name@ && before@.dom().contains(key) {
                            let k = choose|k: int| before.holds(key, k);
                            if k < at {
                                assert(after.holds(key, k));
                            } else {
                                assert(after.holds(key, k - 1));
                            }
                        }
                    }
                    assert forall|key: Seq<char>| #[trigger]
                        after@.dom().contains(key) implies after@[key] == before@.remove(
                        name@,
                    )[key] by {
                        let j = choose|j: int| after.holds(key, j);
                        let k = choose|k: int| before.holds(key, k);
                        if j < at {
                            assert(before.holds(key, j));
                            assert(j == k);
                        } else {
                            assert(before.holds(key, j + 1));
                            assert(j + 1 == k);
                        }
                    }
                    assert(after@ =~= before@.remove(name@));
                }
                Some(setting)
            },
            None => {
                proof {
                    assert(!before@.dom().contains(name@));
                    assert(before@ =~= before@.remove(name@));
                }
                None
            },
        }
    }
}

} // verus!
