//! The raw attributes of one markup node: names and values as they were read.

use vstd::prelude::*;

verus! {

/// The mapping that the first `k` of the pairs `s` build up, a later pair
/// replacing an earlier one of the same name.
pub open spec fn pairs_map(s: Seq<(Seq<char>, Seq<char>)>, k: int) -> Map<Seq<char>, Seq<char>>
    decreases k,
{
    if k <= 0 {
        Map::empty()
    } else {
        pairs_map(s, k - 1).insert(s[k - 1].0, s[k - 1].1)
    }
}

/// A mapping from attribute name to raw value; an absent name is simply
/// missing.
#[derive(Debug)]
pub struct AttributeMap {
    entries: Vec<(String, String)>,
}

impl View for AttributeMap {
    type V = Map<Seq<char>, Seq<char>>;

    closed spec fn view(&self) -> Map<Seq<char>, Seq<char>> {
        pairs_map(self.entries.deep_view(), self.entries@.len() as int)
    }
}

proof fn lemma_pairs_map_prefix(
    s: Seq<(Seq<char>, Seq<char>)>,
    t: Seq<(Seq<char>, Seq<char>)>,
    k: int,
)
    requires
        0 <= k <= s.len(),
        k <= t.len(),
        forall|i: int| 0 <= i < k ==> s[i] == t[i],
    ensures
        pairs_map(s, k) == pairs_map(t, k),
    decreases k,
{
    if k > 0 {
        lemma_pairs_map_prefix(s, t, k - 1);
    }
}

/// A name that none of the first `k` pairs has is not in what they build.
pub proof fn lemma_absent_below(s: Seq<(Seq<char>, Seq<char>)>, k: int, key: Seq<char>)
    requires
        0 <= k <= s.len(),
        forall|i: int| 0 <= i < k ==> (#[trigger] s[i]).0 != key,
    ensures
        !pairs_map(s, k).contains_key(key),
    decreases k,
{
    if k > 0 {
        lemma_absent_below(s, k - 1, key);
    }
}

/// The value of a name is the one of the last pair that has it.
pub proof fn lemma_last_wins(s: Seq<(Seq<char>, Seq<char>)>, j: int, k: int, key: Seq<char>)
    requires
        0 <= j < k <= s.len(),
        s[j].0 == key,
        forall|i: int| j < i < k ==> (#[trigger] s[i]).0 != key,
    ensures
        pairs_map(s, k).contains_key(key),
        pairs_map(s, k)[key] == s[j].1,
    decreases k,
{
    if k - 1 > j {
        lemma_last_wins(s, j, k - 1, key);
    }
}

impl AttributeMap {
    /// The mapping without any name.
    pub fn new() -> (r: AttributeMap)
        ensures
            r@ == Map::<Seq<char>, Seq<char>>::empty(),
    {
        AttributeMap { entries: Vec::new() }
    }

    /// The mapping that the pairs build up in order, a later pair replacing
    /// an earlier one of the same name.
    pub fn from_pairs(pairs: &Vec<(String, String)>) -> (r: AttributeMap)
        ensures
            r@ == pairs_map(pairs.deep_view(), pairs@.len() as int),
    {
        let mut entries: Vec<(String, String)> = Vec::new();
        let mut i: usize = 0;
        while i < pairs.len()
            invariant
                i <= pairs@.len(),
                entries@.len() == i,
                forall|j: int| 0 <= j < i ==> entries@[j] == pairs@[j],
            decreases pairs@.len() - i,
        {
            entries.push((pairs[i].0.clone(), pairs[i].1.clone()));
            i += 1;
        }
        assert(entries.deep_view() == pairs.deep_view());
        AttributeMap { entries }
    }

    /// Sets the value of `key`, replacing the one it had.
    pub fn insert(&mut self, key: String, value: String)
        ensures
            final(self)@ == old(self)@.insert(key@, value@),
    {
        let ghost before = self.entries.deep_view();
        self.entries.push((key, value));
        proof {
            lemma_pairs_map_prefix(before, self.entries.deep_view(), before.len() as int);
        }
    }

    /// The value of `key`, if the mapping has one.
    pub fn get(&self, key: &str) -> (r: Option<&String>)
        ensures
            self@.contains_key(key@) == (r is Some),
            r matches Some(v) ==> v@ == self@[key@],
    {
        let wanted = String::from_str(key);
        let mut i: usize = self.entries.len();
        while i > 0
            invariant
                i <= self.entries@.len(),
                wanted@ == key@,
                forall|j: int|
                    i <= j < self.entries@.len() ==> (#[trigger] self.entries.deep_view()[j]).0
                        != key@,
            decreases i,
        {
            if self.entries[i - 1].0 == wanted {
                proof {
                    lemma_last_wins(
                        self.entries.deep_view(),
                        i - 1,
                        self.entries@.len() as int,
                        key@,
                    );
                }
                return Some(&self.entries[i - 1].1);
            }
            i -= 1;
        }
        proof {
            lemma_absent_below(self.entries.deep_view(), self.entries@.len() as int, key@);
        }
        None
    }

    /// A copy of the value of `key`, if the mapping has one.
    pub fn get_owned(&self, key: &str) -> (r: Option<String>)
        ensures
            self@.contains_key(key@) == (r is Some),
            r matches Some(v) ==> v@ == self@[key@],
    {
        match self.get(key) {
            Some(v) => Some(v.clone()),
            None => None,
        }
    }
}

} // verus!
