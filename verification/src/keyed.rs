//! Small maps and sets whose keys carry text.
//!
//! Balances are kept per `(id, name)` pair, so that a later renaming does not
//! rewrite what was consumed under the earlier name.

use vstd::prelude::*;
use crate::views::texts_view;

verus! {

/// What a key stands for: the id and the characters of the name.
pub type NameKey = (u32, Seq<char>);

/// The view of one key.
pub open spec fn key_view(key: (u32, String)) -> NameKey {
    (key.0, key.1@)
}

/// Whether some key before `upto` has the view `key`.
pub open spec fn holds_key(keys: Seq<(u32, String)>, key: NameKey) -> bool {
    exists|i: int| 0 <= i < keys.len() && key_view(#[trigger] keys[i]) == key
}

/// The position of the key with view `key`; meaningful where `holds_key`.
pub open spec fn key_position(keys: Seq<(u32, String)>, key: NameKey) -> int {
    choose|i: int| 0 <= i < keys.len() && key_view(#[trigger] keys[i]) == key
}

/// No two keys have the same view.
pub open spec fn distinct_keys(keys: Seq<(u32, String)>) -> bool {
    forall|i: int, j: int|
        0 <= i < j < keys.len() ==> key_view(#[trigger] keys[i]) != key_view(#[trigger] keys[j])
}

/// A map from `(id, name)` keys to values.
#[derive(Debug)]
pub struct NameKeyedMap<V> {
    keys: Vec<(u32, String)>,
    values: Vec<V>,
}

impl<V> View for NameKeyedMap<V> {
    type V = Map<NameKey, V>;

    closed spec fn view(&self) -> Map<NameKey, V> {
        Map::new(
            |key: NameKey| holds_key(self.keys@, key),
            |key: NameKey| self.values@[key_position(self.keys@, key)],
        )
    }
}

impl<V> NameKeyedMap<V> {
    /// One value per key, no key twice.
    pub closed spec fn wf(&self) -> bool {
        &&& self.keys@.len() == self.values@.len()
        &&& distinct_keys(self.keys@)
    }

    proof fn lemma_position(&self, i: int)
        requires
            self.wf(),
            0 <= i < self.keys@.len(),
        ensures
            holds_key(self.keys@, key_view(self.keys@[i])),
            key_position(self.keys@, key_view(self.keys@[i])) == i,
            self@.contains_key(key_view(self.keys@[i])),
            self@[key_view(self.keys@[i])] == self.values@[i],
    {
        let key = key_view(self.keys@[i]);
        assert(holds_key(self.keys@, key));
        let at = key_position(self.keys@, key);
        if at < i {
            assert(key_view(self.keys@[at]) != key_view(self.keys@[i]));
        } else if i < at {
            assert(key_view(self.keys@[i]) != key_view(self.keys@[at]));
        }
    }

    /// Whether the map is sound: one value per key, no key twice.
    pub fn is_wf(&self) -> (sound: bool)
        ensures
            sound == self.wf(),
    {
        if self.keys.len() != self.values.len() {
            return false;
        }
        let mut i: usize = 0;
        while i < self.keys.len()
            invariant
                i <= self.keys.len(),
                forall|a: int, b: int|
                    0 <= a < b < i ==> key_view(#[trigger] self.keys@[a]) != key_view(
                        #[trigger] self.keys@[b],
                    ),
            decreases self.keys.len() - i,
        {
            let mut j: usize = 0;
            while j < i
                invariant
                    j <= i < self.keys.len(),
                    forall|a: int| 0 <= a < j ==> key_view(#[trigger] self.keys@[a]) != key_view(
                        self.keys@[i as int],
                    ),
                decreases i - j,
            {
                if self.keys[j].0 == self.keys[i].0 && self.keys[j].1 == self.keys[i].1 {
                    assert(key_view(self.keys@[j as int]) == key_view(self.keys@[i as int]));
                    return false;
                }
                j += 1;
            }
            i += 1;
        }
        true
    }

    /// A map without keys.
    pub fn new() -> (map: Self)
        ensures
            map.wf(),
            map@ == Map::<NameKey, V>::empty(),
    {
        let map = NameKeyedMap { keys: Vec::new(), values: Vec::new() };
        assert(map@ =~= Map::<NameKey, V>::empty());
        map
    }

    /// The number of keys.
    pub fn len(&self) -> (len: usize)
        requires
            self.wf(),
        ensures
            len == self@.len(),
            self@.dom().finite(),
    {
        proof {
            self.lemma_len(self.keys@.len() as int);
            assert(self.prefix_dom(self.keys@.len() as int) =~= self@.dom());
        }
        self.keys.len()
    }

    spec fn prefix_dom(&self, upto: int) -> Set<NameKey> {
        Set::new(|key: NameKey| exists|i: int| 0 <= i < upto && key_view(#[trigger] self.keys@[i]) == key)
    }

    proof fn lemma_len(&self, upto: int)
        requires
            self.wf(),
            0 <= upto <= self.keys@.len(),
        ensures
            self.prefix_dom(upto).finite(),
            self.prefix_dom(upto).len() == upto,
        decreases upto,
    {
        if upto == 0 {
            assert(self.prefix_dom(0) =~= Set::<NameKey>::empty());
        } else {
            self.lemma_len(upto - 1);
            let last = key_view(self.keys@[upto - 1]);
            assert(!self.prefix_dom(upto - 1).contains(last)) by {
                if self.prefix_dom(upto - 1).contains(last) {
                    let i = choose|i: int| 0 <= i < upto - 1 && key_view(#[trigger] self.keys@[i]) == last;
                    assert(key_view(self.keys@[i]) != key_view(self.keys@[upto - 1]));
                }
            }
            assert(self.prefix_dom(upto) =~= self.prefix_dom(upto - 1).insert(last));
        }
    }

    fn index_of(&self, key: &(u32, String)) -> (found: Option<usize>)
        requires
            self.wf(),
        ensures
            found.is_some() == self@.contains_key(key_view(*key)),
            found matches Some(i) ==> i < self.keys@.len() && key_view(self.keys@[i as int]) == key_view(
                *key,
            ) && self@[key_view(*key)] == self.values@[i as int],
    {
        let mut i: usize = 0;
        while i < self.keys.len()
            invariant
                i <= self.keys.len(),
                self.wf(),
                forall|j: int| 0 <= j < i ==> key_view(#[trigger] self.keys@[j]) != key_view(*key),
            decreases self.keys.len() - i,
        {
            if self.keys[i].0 == key.0 && self.keys[i].1 == key.1 {
                proof {
                    self.lemma_position(i as int);
                }
                return Some(i);
            }
            i += 1;
        }
        None
    }

    /// The keys, each once.
    pub fn keys(&self) -> (keys: Vec<(u32, String)>)
        requires
            self.wf(),
        ensures
            distinct_keys(keys@),
            forall|key: NameKey| holds_key(keys@, key) == #[trigger] self@.contains_key(key),
    {
        let mut keys: Vec<(u32, String)> = Vec::new();
        let mut i: usize = 0;
        while i < self.keys.len()
            invariant
                i <= self.keys.len(),
                keys.len() == i,
                forall|j: int| 0 <= j < i ==> key_view(#[trigger] keys@[j]) == key_view(self.keys@[j]),
            decreases self.keys.len() - i,
        {
            keys.push((self.keys[i].0, self.keys[i].1.clone()));
            i += 1;
        }
        proof {
            assert forall|a: int, b: int| 0 <= a < b < keys@.len() implies key_view(#[trigger] keys@[a])
                != key_view(#[trigger] keys@[b]) by {
                assert(key_view(self.keys@[a]) != key_view(self.keys@[b]));
            }
            assert forall|key: NameKey| holds_key(keys@, key) == #[trigger] self@.contains_key(key) by {
                if holds_key(keys@, key) {
                    let j = key_position(keys@, key);
                    assert(key_view(self.keys@[j]) == key);
                }
                if self@.contains_key(key) {
                    let j = key_position(self.keys@, key);
                    assert(key_view(keys@[j]) == key);
                }
            }
        }
        keys
    }

    /// Whether `key` has a value.
    pub fn contains_key(&self, key: &(u32, String)) -> (found: bool)
        requires
            self.wf(),
        ensures
            found == self@.contains_key(key_view(*key)),
    {
        self.index_of(key).is_some()
    }

    /// The value of `key`, if it has one.
    pub fn get(&self, key: &(u32, String)) -> (value: Option<&V>)
        requires
            self.wf(),
        ensures
            value.is_some() == self@.contains_key(key_view(*key)),
            value matches Some(v) ==> *v == self@[key_view(*key)],
    {
        match self.index_of(key) {
            Some(i) => Some(&self.values[i]),
            None => None,
        }
    }

    /// Gives `key` the value `value` and returns the value it had.
    pub fn insert(&mut self, key: (u32, String), value: V) -> (previous: Option<V>)
        requires
            old(self).wf(),
        ensures
            final(self).wf(),
            final(self)@ == old(self)@.insert(key_view(key), value),
            previous.is_some() == old(self)@.contains_key(key_view(key)),
            previous matches Some(v) ==> v == old(self)@[key_view(key)],
    {
        match self.index_of(&key) {
            Some(i) => {
                self.values.push(value);
                let previous = self.values.swap_remove(i);
                proof {
                    assert(self.keys@ == old(self).keys@);
                    assert(self.values@ =~= old(self).values@.update(i as int, value));
                    assert forall|k: NameKey| self@.contains_key(k) implies #[trigger] self@[k] == old(
                        self,
                    )@.insert(key_view(key), value)[k] by {
                        let at = key_position(self.keys@, k);
                        old(self).lemma_position(i as int);
                        if k == key_view(key) {
                            assert(at == i);
                        } else {
                            assert(at != i);
                        }
                    }
                    assert(self@ =~= old(self)@.insert(key_view(key), value));
                }
                Some(previous)
            },
            None => {
                let ghost added = key_view(key);
                self.keys.push(key);
                self.values.push(value);
                proof {
                    let n = old(self).keys@.len() as int;
                    assert forall|i: int, j: int| 0 <= i < j < self.keys@.len() implies key_view(
                        #[trigger] self.keys@[i],
                    ) != key_view(#[trigger] self.keys@[j]) by {
                        if j < n {
                            assert(self.keys@[i] == old(self).keys@[i]);
                            assert(self.keys@[j] == old(self).keys@[j]);
                        } else {
                            assert(self.keys@[i] == old(self).keys@[i]);
                            assert(holds_key(old(self).keys@, key_view(old(self).keys@[i])));
                        }
                    }
                    self.lemma_position(n);
                    assert(key_view(self.keys@[n]) == added);
                    assert(self@.contains_key(added) && self@[added] == value);
                    assert forall|k: NameKey| old(self)@.contains_key(k) implies self@.contains_key(k)
                        && #[trigger] self@[k] == old(self)@[k] by {
                        let at = key_position(old(self).keys@, k);
                        assert(self.keys@[at] == old(self).keys@[at]);
                        self.lemma_position(at);
                    }
                    assert forall|k: NameKey| self@.contains_key(k) && k != added implies old(
                        self,
                    )@.contains_key(k) by {
                        let at = key_position(self.keys@, k);
                        assert(at < n);
                        assert(self.keys@[at] == old(self).keys@[at]);
                    }
                    assert forall|k: NameKey| #[trigger]
                        self@.contains_key(k) == old(self)@.insert(added, value).contains_key(k) by {
                        if old(self)@.contains_key(k) {
                            let at = key_position(old(self).keys@, k);
                            assert(self.keys@[at] == old(self).keys@[at]);
                            self.lemma_position(at);
                        }
                        if self@.contains_key(k) && k != added {
                            let at = key_position(self.keys@, k);
                            assert(at < n);
                            assert(self.keys@[at] == old(self).keys@[at]);
                        }
                    }
                    assert(self@.dom() =~= old(self)@.insert(added, value).dom());
                    assert(self@ =~= old(self)@.insert(added, value));
                }
                None
            },
        }
    }

    /// Takes `key` out and returns the value it had.
    pub fn remove(&mut self, key: &(u32, String)) -> (previous: Option<V>)
        requires
            old(self).wf(),
        ensures
            final(self).wf(),
            final(self)@ == old(self)@.remove(key_view(*key)),
            previous.is_some() == old(self)@.contains_key(key_view(*key)),
            previous matches Some(v) ==> v == old(self)@[key_view(*key)],
    {
        match self.index_of(key) {
            Some(i) => {
                self.keys.remove(i);
                let previous = self.values.remove(i);
                proof {
                    let gone = key_view(*key);
                    assert forall|a: int, b: int| 0 <= a < b < self.keys@.len() implies key_view(
                        #[trigger] self.keys@[a],
                    ) != key_view(#[trigger] self.keys@[b]) by {
                        let a0 = if a < i { a } else { a + 1 };
                        let b0 = if b < i { b } else { b + 1 };
                        assert(self.keys@[a] == old(self).keys@[a0]);
                        assert(self.keys@[b] == old(self).keys@[b0]);
                    }
                    assert forall|k: NameKey| self@.contains_key(k) implies k != gone && old(
                        self,
                    )@.contains_key(k) && #[trigger] self@[k] == old(self)@[k] by {
                        let at = key_position(self.keys@, k);
                        let at0 = if at < i { at } else { at + 1 };
                        assert(self.keys@[at] == old(self).keys@[at0]);
                        old(self).lemma_position(at0);
                        old(self).lemma_position(i as int);
                        self.lemma_position(at);
                    }
                    assert forall|k: NameKey| old(self)@.contains_key(k) && k != gone implies self@.contains_key(
                        k,
                    ) by {
                        let at0 = key_position(old(self).keys@, k);
                        let at = if at0 < i { at0 } else { at0 - 1 };
                        assert(self.keys@[at] == old(self).keys@[at0]);
                    }
                    assert(self@ =~= old(self)@.remove(gone));
                }
                Some(previous)
            },
            None => {
                assert(self@ =~= old(self)@.remove(key_view(*key)));
                None
            },
        }
    }
}

/// The balances of every user: per user key, per item key, a number.
pub type Balances = NameKeyedMap<NameKeyedMap<u32>>;

/// What a table of balances stands for.
pub open spec fn balances_view(balances: Balances) -> Map<NameKey, Map<NameKey, u32>> {
    balances@.map_values(|per_item: NameKeyedMap<u32>| per_item@)
}

/// The table and each of its rows are sound.
pub open spec fn balances_wf(balances: Balances) -> bool {
    &&& balances.wf()
    &&& forall|key: NameKey| balances@.contains_key(key) ==> (#[trigger] balances@[key]).wf()
}

/// Whether the table and each of its rows are sound.
pub fn balances_are_wf(balances: &Balances) -> (sound: bool)
    ensures
        sound == balances_wf(*balances),
{
    if !balances.is_wf() {
        return false;
    }
    let mut i: usize = 0;
    while i < balances.values.len()
        invariant
            i <= balances.values.len(),
            balances.wf(),
            forall|a: int| 0 <= a < i ==> (#[trigger] balances.values@[a]).wf(),
        decreases balances.values.len() - i,
    {
        if !balances.values[i].is_wf() {
            proof {
                balances.lemma_position(i as int);
            }
            return false;
        }
        i += 1;
    }
    proof {
        assert forall|key: NameKey| balances@.contains_key(key) implies (#[trigger] balances@[key]).wf() by {
            let at = key_position(balances.keys@, key);
            balances.lemma_position(at);
        }
    }
    true
}

/// The number booked for a user and an item; 0 where nothing is booked.
pub open spec fn balance_of(
    balances: Map<NameKey, Map<NameKey, u32>>,
    user: NameKey,
    item: NameKey,
) -> u32 {
    if balances.contains_key(user) && balances[user].contains_key(item) {
        balances[user][item]
    } else {
        0
    }
}

/// The balances with the number for a user and an item set to `value`.
pub open spec fn with_balance(
    balances: Map<NameKey, Map<NameKey, u32>>,
    user: NameKey,
    item: NameKey,
    value: u32,
) -> Map<NameKey, Map<NameKey, u32>> {
    let row = if balances.contains_key(user) {
        balances[user]
    } else {
        Map::empty()
    };
    balances.insert(user, row.insert(item, value))
}

/// The number booked for a user and an item; 0 where nothing is booked.
pub fn read_balance(balances: &Balances, user: &(u32, String), item: &(u32, String)) -> (value: u32)
    requires
        balances_wf(*balances),
    ensures
        value == balance_of(balances_view(*balances), key_view(*user), key_view(*item)),
{
    match balances.get(user) {
        Some(row) => match row.get(item) {
            Some(value) => *value,
            None => 0,
        },
        None => 0,
    }
}

/// Sets the number booked for a user and an item.
pub fn write_balance(balances: &mut Balances, user: (u32, String), item: (u32, String), value: u32)
    requires
        balances_wf(*old(balances)),
    ensures
        balances_wf(*final(balances)),
        balances_view(*final(balances)) == with_balance(
            balances_view(*old(balances)),
            key_view(user),
            key_view(item),
            value,
        ),
{
    let ghost before = balances@;
    let mut row = match balances.remove(&user) {
        Some(row) => row,
        None => NameKeyedMap::new(),
    };
    row.insert(item, value);
    let ghost user_key = key_view(user);
    let ghost new_row = row;
    balances.insert(user, row);
    proof {
        assert(balances@ =~= before.insert(user_key, new_row));
        assert(balances_view(*balances) =~= with_balance(
            balances_view(*old(balances)),
            user_key,
            key_view(item),
            value,
        ));
    }
}

/// A set of texts.
#[derive(Debug)]
pub struct TextSet {
    texts: Vec<String>,
}

impl View for TextSet {
    type V = Set<Seq<char>>;

    closed spec fn view(&self) -> Set<Seq<char>> {
        texts_view(self.texts@).to_set()
    }
}

impl TextSet {
    /// No text is held twice.
    pub closed spec fn wf(&self) -> bool {
        texts_view(self.texts@).no_duplicates()
    }

    /// Whether the set is sound: no text is held twice.
    pub fn is_wf(&self) -> (sound: bool)
        ensures
            sound == self.wf(),
    {
        let ghost views = texts_view(self.texts@);
        let mut i: usize = 0;
        while i < self.texts.len()
            invariant
                i <= self.texts.len(),
                views == texts_view(self.texts@),
                forall|a: int, b: int| 0 <= a < b < i ==> views[a] != views[b],
            decreases self.texts.len() - i,
        {
            let mut j: usize = 0;
            while j < i
                invariant
                    j <= i < self.texts.len(),
                    views == texts_view(self.texts@),
                    forall|a: int| 0 <= a < j ==> views[a] != views[i as int],
                decreases i - j,
            {
                assert(views[j as int] == self.texts@[j as int]@);
                assert(views[i as int] == self.texts@[i as int]@);
                if self.texts[j] == self.texts[i] {
                    return false;
                }
                j += 1;
            }
            i += 1;
        }
        assert forall|a: int, b: int| 0 <= a < views.len() && 0 <= b < views.len() && a != b implies views[a]
            != views[b] by {
            if a < b {
            } else {
                assert(views[b] != views[a]);
            }
        }
        true
    }

    /// The set without texts.
    pub fn new() -> (set: Self)
        ensures
            set.wf(),
            set@ == Set::<Seq<char>>::empty(),
    {
        let set = TextSet { texts: Vec::new() };
        assert(set@ =~= Set::<Seq<char>>::empty());
        set
    }

    /// The number of texts.
    pub fn len(&self) -> (len: usize)
        requires
            self.wf(),
        ensures
            len == self@.len(),
            self@.finite(),
    {
        proof {
            texts_view(self.texts@).unique_seq_to_set();
        }
        self.texts.len()
    }

    fn index_of(&self, text: &String) -> (found: Option<usize>)
        ensures
            found.is_some() == self@.contains(text@),
            found matches Some(i) ==> i < self.texts@.len() && self.texts@[i as int]@ == text@,
    {
        let mut i: usize = 0;
        while i < self.texts.len()
            invariant
                i <= self.texts.len(),
                forall|j: int| 0 <= j < i ==> (#[trigger] self.texts@[j])@ != text@,
            decreases self.texts.len() - i,
        {
            if self.texts[i] == *text {
                assert(texts_view(self.texts@)[i as int] == text@);
                return Some(i);
            }
            i += 1;
        }
        assert forall|j: int| 0 <= j < texts_view(self.texts@).len() implies texts_view(self.texts@)[j]
            != text@ by {
            assert(texts_view(self.texts@)[j] == self.texts@[j]@);
        }
        None
    }

    /// Whether `text` is in the set.
    pub fn contains(&self, text: &String) -> (found: bool)
        ensures
            found == self@.contains(text@),
    {
        self.index_of(text).is_some()
    }

    /// Adds `text`; says whether it was new.
    pub fn insert(&mut self, text: String) -> (added: bool)
        requires
            old(self).wf(),
        ensures
            final(self).wf(),
            final(self)@ == old(self)@.insert(text@),
            added == !old(self)@.contains(text@),
    {
        if self.index_of(&text).is_none() {
            let ghost chars = text@;
            self.texts.push(text);
            proof {
                let before = texts_view(old(self).texts@);
                let after = texts_view(self.texts@);
                assert(after =~= before.push(chars));
                assert forall|i: int, j: int| 0 <= i < after.len() && 0 <= j < after.len() && i
                    != j implies after[i] != after[j] by {
                    if i < before.len() {
                        assert(before.contains(before[i]));
                    }
                    if j < before.len() {
                        assert(before.contains(before[j]));
                    }
                }
                before.lemma_push_to_set_commute(chars);
            }
            true
        } else {
            assert(self@ =~= old(self)@.insert(text@));
            false
        }
    }

    /// Takes `text` out; says whether it was there.
    pub fn remove(&mut self, text: &String) -> (removed: bool)
        requires
            old(self).wf(),
        ensures
            final(self).wf(),
            final(self)@ == old(self)@.remove(text@),
            removed == old(self)@.contains(text@),
    {
        match self.index_of(text) {
            Some(i) => {
                self.texts.remove(i);
                proof {
                    let before = texts_view(old(self).texts@);
                    let after = texts_view(self.texts@);
                    assert(after =~= before.remove(i as int));
                    assert forall|a: int, b: int| 0 <= a < after.len() && 0 <= b < after.len() && a
                        != b implies after[a] != after[b] by {
                        let a0 = if a < i { a } else { a + 1 };
                        let b0 = if b < i { b } else { b + 1 };
                        assert(after[a] == before[a0] && after[b] == before[b0]);
                    }
                    assert forall|t: Seq<char>| after.contains(t) <==> before.contains(t) && t
                        != text@ by {
                        if after.contains(t) {
                            let a = choose|a: int| 0 <= a < after.len() && after[a] == t;
                            let a0 = if a < i { a } else { a + 1 };
                            assert(before[a0] == t);
                            assert(before[i as int] == text@);
                        }
                        if before.contains(t) && t != text@ {
                            let a0 = choose|a: int| 0 <= a < before.len() && before[a] == t;
                            let a = if a0 < i { a0 } else { a0 - 1 };
                            assert(after[a] == t);
                        }
                    }
                    assert(self@ =~= old(self)@.remove(text@));
                }
                true
            },
            None => {
                assert(self@ =~= old(self)@.remove(text@));
                false
            },
        }
    }

    /// The texts of the set, each once.
    pub fn to_vec(&self) -> (texts: Vec<String>)
        requires
            self.wf(),
        ensures
            texts_view(texts@).no_duplicates(),
            texts_view(texts@).to_set() == self@,
    {
        crate::views::clone_texts(&self.texts)
    }
}

} // verus!
