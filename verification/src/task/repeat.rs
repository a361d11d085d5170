//! The weekday mask of a task: which days it recurs on.

use super::json::{bool_value, empty_object, json_of, members_of, object_value, set_member};
use super::schema::{bool_json, days_json};
use serde_json::Value;
use vstd::prelude::*;
use vstd::std_specs::cmp::PartialEqSpecImpl;

verus! {

/// No key stands in two entries.
pub open spec fn distinct_keys(entries: Seq<(String, bool)>) -> bool {
    forall|i: int, j: int|
        0 <= i < j < entries.len() ==> (#[trigger] entries[i]).0@ != (#[trigger] entries[j]).0@
}

/// Some entry holds `key`.
pub open spec fn has_key(entries: Seq<(String, bool)>, key: Seq<char>) -> bool {
    exists|i: int| 0 <= i < entries.len() && (#[trigger] entries[i]).0@ == key
}

/// The mapping that a list of entries stands for. Where a key stands in
/// several entries, the last of them counts.
pub open spec fn days_of(entries: Seq<(String, bool)>) -> Map<Seq<char>, bool>
    decreases entries.len(),
{
    if entries.len() == 0 {
        Map::empty()
    } else {
        days_of(entries.drop_last()).insert(entries.last().0@, entries.last().1)
    }
}

/// The keys of `days_of` are the keys of the entries, and there are
/// finitely many.
pub proof fn lemma_days_of_keys(entries: Seq<(String, bool)>)
    ensures
        days_of(entries).dom().finite(),
        forall|key: Seq<char>| #[trigger]
            days_of(entries).contains_key(key) <==> has_key(entries, key),
    decreases entries.len(),
{
    if entries.len() > 0 {
        let front = entries.drop_last();
        lemma_days_of_keys(front);
        assert forall|key: Seq<char>| #[trigger]
            days_of(entries).contains_key(key) <==> has_key(entries, key) by {
            if has_key(entries, key) {
                let i = choose|i: int| 0 <= i < entries.len() && (#[trigger] entries[i]).0@ == key;
                if i < entries.len() - 1 {
                    assert(front[i].0@ == key);
                }
            }
        }
    }
}

/// Where no key stands twice, every entry counts, and the mapping has as
/// many keys as there are entries.
pub proof fn lemma_days_of_distinct(entries: Seq<(String, bool)>)
    requires
        distinct_keys(entries),
    ensures
        days_of(entries).len() == entries.len(),
        forall|i: int|
            0 <= i < entries.len() ==> days_of(entries).contains_pair(
                (#[trigger] entries[i]).0@,
                entries[i].1,
            ),
    decreases entries.len(),
{
    if entries.len() > 0 {
        let front = entries.drop_last();
        let last = entries.last();
        lemma_days_of_distinct(front);
        lemma_days_of_keys(front);
        assert forall|i: int| 0 <= i < entries.len() implies days_of(entries).contains_pair(
            (#[trigger] entries[i]).0@,
            entries[i].1,
        ) by {
            if i < front.len() {
                assert(days_of(front).contains_pair(front[i].0@, front[i].1));
            }
        }
    }
}

/// The days on which a task recurs: a mapping from a day's code to whether
/// it is on. No code occurs twice, and the order of the entries means
/// nothing: two masks with the same mapping are equal.
#[derive(Debug)]
pub struct TaskRepeat {
    days: Vec<(String, bool)>,
}

impl View for TaskRepeat {
    type V = Map<Seq<char>, bool>;

    closed spec fn view(&self) -> Map<Seq<char>, bool> {
        days_of(self.days@)
    }
}

impl DeepView for TaskRepeat {
    type V = Map<Seq<char>, bool>;

    open spec fn deep_view(&self) -> Map<Seq<char>, bool> {
        self@
    }
}

/// The position of the entry that holds `key`.
fn position(entries: &Vec<(String, bool)>, key: &String) -> (found: Option<usize>)
    ensures
        match found {
            Some(i) => i < entries.len() && entries[i as int].0@ == key@,
            None => !has_key(entries@, key@),
        },
{
    let mut i: usize = 0;
    while i < entries.len()
        invariant
            i <= entries.len(),
            forall|j: int| 0 <= j < i ==> (#[trigger] entries[j]).0@ != key@,
        decreases entries.len() - i,
    {
        if entries[i].0 == *key {
            return Some(i);
        }
        i += 1;
    }
    None
}

impl TaskRepeat {
    #[verifier::type_invariant]
    spec fn well_formed(self) -> bool {
        distinct_keys(self.days@)
    }

    /// A mask from a list of entries. Where a code stands in several
    /// entries, the last of them counts.
    pub fn new(days: Vec<(String, bool)>) -> (repeat: TaskRepeat)
        ensures
            repeat@ == days_of(days@),
    {
        let mut kept: Vec<(String, bool)> = Vec::new();
        let mut i: usize = 0;
        while i < days.len()
            invariant
                i <= days.len(),
                distinct_keys(kept@),
                days_of(kept@) == days_of(days@.take(i as int)),
            decreases days.len() - i,
        {
            let key = days[i].0.clone();
            let flag = days[i].1;
            proof {
                assert(days@.take(i + 1).drop_last() == days@.take(i as int));
            }
            match position(&kept, &key) {
                Some(at) => {
                    let ghost before = kept@;
                    kept.set(at, (key, flag));
                    proof {
                        lemma_replace(before, at as int, flag, kept@);
                    }
                },
                None => {
                    let ghost before = kept@;
                    kept.push((key, flag));
                    proof {
                        assert(kept@.drop_last() == before);
                    }
                },
            }
            i += 1;
        }
        proof {
            assert(days@.take(days.len() as int) == days@);
        }
        TaskRepeat { days: kept }
    }

    /// Whether the day with this code is on; `None` for a code that the
    /// mask does not hold.
    pub fn get(&self, day: &str) -> (flag: Option<bool>)
        ensures
            flag == if self@.contains_key(day@) {
                Some(self@[day@])
            } else {
                None
            },
    {
        proof {
            use_type_invariant(self);
            lemma_days_of_keys(self.days@);
            lemma_days_of_distinct(self.days@);
        }
        match position(&self.days, &day.to_owned()) {
            Some(at) => Some(self.days[at].1),
            None => None,
        }
    }

    /// The mask as a JSON object: a boolean under each code.
    pub fn to_json(&self) -> (value: Value)
        ensures
            json_of(value) == days_json(self@),
    {
        let mut object = empty_object();
        let mut i: usize = 0;
        while i < self.days.len()
            invariant
                i <= self.days.len(),
                members_of(object) == days_of(self.days@.take(i as int)).map_values(
                    |flag: bool| bool_json(flag),
                ),
            decreases self.days.len() - i,
        {
            let day = self.days[i].0.clone();
            set_member(&mut object, day, bool_value(self.days[i].1));
            proof {
                assert(self.days@.take(i + 1).drop_last() == self.days@.take(i as int));
            }
            i += 1;
        }
        proof {
            assert(self.days@.take(self.days.len() as int) == self.days@);
        }
        object_value(object)
    }

    /// The entries of the mask, each code once.
    pub fn get_days(&self) -> (days: &Vec<(String, bool)>)
        ensures
            distinct_keys(days@),
            days_of(days@) == self@,
            days@.len() == self@.len(),
    {
        proof {
            use_type_invariant(self);
            lemma_days_of_distinct(self.days@);
        }
        &self.days
    }
}

/// Putting another flag under a key that an entry holds is `insert` on
/// the mapping, and keeps the keys distinct.
proof fn lemma_replace(
    before: Seq<(String, bool)>,
    at: int,
    flag: bool,
    after: Seq<(String, bool)>,
)
    requires
        distinct_keys(before),
        0 <= at < before.len(),
        after.len() == before.len(),
        after[at].0@ == before[at].0@,
        after[at].1 == flag,
        forall|i: int| 0 <= i < before.len() && i != at ==> after[i] == before[i],
    ensures
        distinct_keys(after),
        days_of(after) == days_of(before).insert(before[at].0@, flag),
{
    lemma_days_of_keys(before);
    lemma_days_of_keys(after);
    lemma_days_of_distinct(before);
    lemma_days_of_distinct(after);
    let wanted = days_of(before).insert(before[at].0@, flag);
    assert(days_of(after) =~= wanted);
}

impl PartialEq for TaskRepeat {
    /// Whether two masks hold the same mapping.
    fn eq(&self, other: &TaskRepeat) -> (same: bool) {
        proof {
            use_type_invariant(self);
            use_type_invariant(other);
            lemma_days_of_keys(self.days@);
            lemma_days_of_keys(other.days@);
            lemma_days_of_distinct(self.days@);
            lemma_days_of_distinct(other.days@);
        }
        if self.days.len() != other.days.len() {
            return false;
        }
        let mut i: usize = 0;
        while i < self.days.len()
            invariant
                i <= self.days.len(),
                distinct_keys(self.days@),
                distinct_keys(other.days@),
                forall|j: int|
                    0 <= j < i ==> days_of(other.days@).contains_pair(
                        (#[trigger] self.days@[j]).0@,
                        self.days@[j].1,
                    ),
            decreases self.days.len() - i,
        {
            proof {
                lemma_days_of_keys(other.days@);
                lemma_days_of_distinct(self.days@);
                lemma_days_of_distinct(other.days@);
            }
            match position(&other.days, &self.days[i].0) {
                Some(at) => {
                    if other.days[at].1 != self.days[i].1 {
                        return false;
                    }
                },
                None => {
                    return false;
                },
            }
            i += 1;
        }
        proof {
            // Every entry of `self` is one of `other`, and both hold as many
            // keys: so they hold the same keys.
            let mine = days_of(self.days@);
            let theirs = days_of(other.days@);
            vstd::set_lib::lemma_subset_equality(mine.dom(), theirs.dom());
            assert(mine =~= theirs);
        }
        true
    }
}

impl PartialEqSpecImpl for TaskRepeat {
    open spec fn obeys_eq_spec() -> bool {
        true
    }

    open spec fn eq_spec(&self, other: &TaskRepeat) -> bool {
        self@ == other@
    }
}

} // verus!
