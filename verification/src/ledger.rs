//! `GameTimes`: a number of seconds per game name, used for the playtime of
//! the day and for the time at which each game was last alerted.

use vstd::prelude::*;
use vstd::hash_map::StringHashMap;

verus! {

broadcast use vstd::hash_map::group_hash_map_axioms;

/// The views of a sequence of strings.
pub open spec fn text_views(s: Seq<String>) -> Seq<Seq<char>> {
    s.map_values(|t: String| t@)
}

/// One more element of a prefix: `s.take(i + 1)` holds the elements of
/// `s.take(i)` and `s[i]`, and in a sequence without duplicates `s[i]` is
/// not among the elements before it.
pub(crate) proof fn lemma_take_one_more<A>(s: Seq<A>, i: int)
    requires
        0 <= i < s.len(),
    ensures
        s.take(i + 1) == s.take(i).push(s[i]),
        forall|x: A| #[trigger]
            s.take(i + 1).contains(x) <==> (s.take(i).contains(x) || x == s[i]),
        s.take(i + 1).to_set() == s.take(i).to_set().insert(s[i]),
        s.no_duplicates() ==> !s.take(i).contains(s[i]),
{
    let prefix = s.take(i);
    let longer = s.take(i + 1);
    assert(longer =~= prefix.push(s[i]));
    assert forall|x: A| #[trigger] longer.contains(x) <==> (prefix.contains(x) || x == s[i]) by {
        if prefix.contains(x) {
            let j = choose|j: int| 0 <= j < prefix.len() && prefix[j] == x;
            assert(longer[j] == x);
        }
        if x == s[i] {
            assert(longer[i] == x);
        }
        if longer.contains(x) && x != s[i] {
            let j = choose|j: int| 0 <= j < longer.len() && longer[j] == x;
            assert(prefix[j] == x);
        }
    }
    assert(longer.to_set() =~= prefix.to_set().insert(s[i]));
    if s.no_duplicates() && prefix.contains(s[i]) {
        let j = choose|j: int| 0 <= j < prefix.len() && prefix[j] == s[i];
        assert(s[j] == s[i]);
    }
}

/// The map that inserting the pairs of `pairs` one after another, from the
/// first to the last, gives.
pub open spec fn pairs_map(pairs: Seq<(String, u64)>) -> Map<Seq<char>, u64>
    decreases pairs.len(),
{
    if pairs.len() == 0 {
        Map::empty()
    } else {
        pairs_map(pairs.drop_last()).insert(pairs.last().0@, pairs.last().1)
    }
}

/// The names of a sequence of pairs.
pub open spec fn pair_names(pairs: Seq<(String, u64)>) -> Seq<Seq<char>> {
    pairs.map_values(|p: (String, u64)| p.0@)
}

/// The seconds recorded for `name`, or 0 when there are none.
pub open spec fn time_or_zero(m: Map<Seq<char>, u64>, name: Seq<char>) -> u64 {
    if m.contains_key(name) {
        m[name]
    } else {
        0
    }
}

/// Seconds per game name.
pub struct GameTimes {
    map: StringHashMap<u64>,
    keys: Vec<String>,
}

impl View for GameTimes {
    type V = Map<Seq<char>, u64>;

    closed spec fn view(&self) -> Map<Seq<char>, u64> {
        self.map@
    }
}

impl GameTimes {
    #[verifier::type_invariant]
    spec fn keys_match(self) -> bool {
        &&& text_views(self.keys@).no_duplicates()
        &&& forall|k: Seq<char>| #[trigger]
            self.map@.contains_key(k) <==> text_views(self.keys@).contains(k)
    }

    /// An empty table.
    pub fn new() -> (res: GameTimes)
        ensures
            res@ == Map::<Seq<char>, u64>::empty(),
    {
        let res = GameTimes { map: StringHashMap::new(), keys: Vec::new() };
        assert(text_views(res.keys@) =~= Seq::<Seq<char>>::empty());
        res
    }

    /// The number of names in the table.
    pub fn len(&self) -> (n: usize)
        ensures
            n == self@.len(),
    {
        self.map.len()
    }

    /// Whether the table holds no name.
    pub fn is_empty(&self) -> (b: bool)
        ensures
            b == (self@.len() == 0),
    {
        self.map.len() == 0
    }

    /// The seconds recorded for `name`, if any.
    pub fn get(&self, name: &str) -> (res: Option<u64>)
        ensures
            res == (if self@.contains_key(name@) {
                Some(self@[name@])
            } else {
                None::<u64>
            }),
    {
        match self.map.get(name) {
            Some(v) => Some(*v),
            None => None,
        }
    }

    /// The seconds recorded for `name`, or 0 when there are none.
    pub fn time_of(&self, name: &str) -> (res: u64)
        ensures
            res == time_or_zero(self@, name@),
            self@.contains_key(name@) ==> res == self@[name@],
            !self@.contains_key(name@) ==> res == 0,
    {
        match self.map.get(name) {
            Some(v) => *v,
            None => 0,
        }
    }

    /// Records `seconds` for `name`, replacing what was there.
    pub fn insert(&mut self, name: String, seconds: u64)
        ensures
            final(self)@ == old(self)@.insert(name@, seconds),
    {
        let mut taken = GameTimes::new();
        std::mem::swap(self, &mut taken);
        proof {
            use_type_invariant(&taken);
        }
        let GameTimes { mut map, mut keys } = taken;
        let ghost old_keys = text_views(keys@);
        let present = map.contains_key(name.as_str());
        if !present {
            keys.push(name.clone());
            assert(text_views(keys@) =~= old_keys.push(name@));
            assert forall|i: int, j: int|
                0 <= i < j < text_views(keys@).len() implies text_views(keys@)[i]
                != text_views(keys@)[j] by {
                if j == text_views(keys@).len() - 1 {
                    assert(old_keys.contains(text_views(keys@)[i]));
                }
            }
        } else {
            assert(text_views(keys@) == old_keys);
        }
        map.insert(name, seconds);
        assert forall|k: Seq<char>| #[trigger]
            map@.contains_key(k) <==> text_views(keys@).contains(k) by {
            if !present {
                assert(text_views(keys@) == old_keys.push(name@));
                assert(text_views(keys@)[old_keys.len() as int] == name@);
                if text_views(keys@).contains(k) && k != name@ {
                    let i = choose|i: int|
                        0 <= i < text_views(keys@).len() && text_views(keys@)[i] == k;
                    assert(old_keys[i] == k);
                }
                if old_keys.contains(k) {
                    let i = choose|i: int| 0 <= i < old_keys.len() && old_keys[i] == k;
                    assert(text_views(keys@)[i] == k);
                }
            }
        }
        *self = GameTimes { map, keys };
    }

    /// Removes every name.
    pub fn clear(&mut self)
        ensures
            final(self)@ == Map::<Seq<char>, u64>::empty(),
    {
        *self = GameTimes::new();
    }

    /// Every name with its seconds, each name once.
    pub fn entries(&self) -> (res: Vec<(String, u64)>)
        ensures
            pair_names(res@).no_duplicates(),
            pairs_map(res@) == self@,
    {
        proof {
            use_type_invariant(self);
        }
        let mut res: Vec<(String, u64)> = Vec::new();
        let n = self.keys.len();
        for i in 0..n
            invariant
                n == self.keys@.len(),
                text_views(self.keys@).no_duplicates(),
                forall|k: Seq<char>| #[trigger]
                    self.map@.contains_key(k) <==> text_views(self.keys@).contains(k),
                pair_names(res@) =~= text_views(self.keys@).take(i as int),
                pairs_map(res@) =~= self.map@.restrict(text_views(self.keys@).take(i as int).to_set()),
        {
            let key = self.keys[i].clone();
            let ghost kv = key@;
            assert(text_views(self.keys@)[i as int] == kv);
            let value = match self.map.get(key.as_str()) {
                Some(v) => *v,
                None => 0,
            };
            assert(text_views(self.keys@).contains(kv));
            assert(self.map@.contains_key(kv));
            assert(value == self.map@[kv]);
            let ghost before = res@;
            res.push((key, value));
            assert(res@.drop_last() == before);
            assert(pairs_map(res@) == pairs_map(before).insert(kv, value));
            proof {
                lemma_take_one_more(text_views(self.keys@), i as int);
            }
        }
        assert(text_views(self.keys@).take(n as int) =~= text_views(self.keys@));
        assert(self.map@.restrict(text_views(self.keys@).to_set()) =~= self.map@);
        res
    }

    /// A table holding the pairs of `pairs`; where a name occurs twice, the
    /// later pair wins.
    pub fn from_entries(pairs: Vec<(String, u64)>) -> (res: GameTimes)
        ensures
            res@ == pairs_map(pairs@),
    {
        let mut res = GameTimes::new();
        let n = pairs.len();
        for i in 0..n
            invariant
                n == pairs@.len(),
                res@ == pairs_map(pairs@.take(i as int)),
        {
            let name = pairs[i].0.clone();
            let seconds = pairs[i].1;
            res.insert(name, seconds);
            assert(pairs@.take(i + 1).drop_last() =~= pairs@.take(i as int));
        }
        assert(pairs@.take(n as int) =~= pairs@);
        res
    }
}

impl Clone for GameTimes {
    fn clone(&self) -> (res: Self)
        ensures
            res@ == self@,
    {
        GameTimes::from_entries(self.entries())
    }
}

} // verus!
