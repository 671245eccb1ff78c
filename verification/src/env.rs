//! The source environment: a store of text values under text keys.
//!
//! A store is handed to every load, so that a caller decides what it holds:
//! the variables of the process, the entries of a file, or both.

use vstd::prelude::*;

verus! {

/// What a sequence of settings amounts to: a later setting of a key
/// replaces an earlier one.
pub open spec fn settings_map(s: Seq<(String, String)>) -> Map<Seq<char>, Seq<char>>
    decreases s.len(),
{
    if s.len() == 0 {
        Map::empty()
    } else {
        settings_map(s.drop_last()).insert(s.last().0@, s.last().1@)
    }
}

/// A store of values by key.
pub struct Env {
    settings: Vec<(String, String)>,
}

impl View for Env {
    type V = Map<Seq<char>, Seq<char>>;

    closed spec fn view(&self) -> Map<Seq<char>, Seq<char>> {
        settings_map(self.settings@)
    }
}

/// The last setting of a key is what the key stands for.
proof fn lemma_last_setting(s: Seq<(String, String)>, key: Seq<char>, at: int)
    requires
        0 <= at < s.len(),
        s[at].0@ == key,
        forall|j: int| at < j < s.len() ==> (#[trigger] s[j]).0@ != key,
    ensures
        settings_map(s).contains_key(key),
        settings_map(s)[key] == s[at].1@,
    decreases s.len(),
{
    if at < s.len() - 1 {
        lemma_last_setting(s.drop_last(), key, at);
    }
}

/// A key that was never set stands for nothing.
proof fn lemma_never_set(s: Seq<(String, String)>, key: Seq<char>)
    requires
        forall|j: int| 0 <= j < s.len() ==> (#[trigger] s[j]).0@ != key,
    ensures
        !settings_map(s).contains_key(key),
    decreases s.len(),
{
    if s.len() > 0 {
        lemma_never_set(s.drop_last(), key);
    }
}

/// A key that stands for something was set somewhere.
proof fn lemma_set_somewhere(s: Seq<(String, String)>, key: Seq<char>)
    requires
        settings_map(s).contains_key(key),
    ensures
        exists|j: int| 0 <= j < s.len() && (#[trigger] s[j]).0@ == key,
    decreases s.len(),
{
    if s.len() > 0 {
        if s.last().0@ != key {
            lemma_set_somewhere(s.drop_last(), key);
            let j = choose|j: int| 0 <= j < s.drop_last().len() && (#[trigger] s.drop_last()[j]).0@ == key;
            assert(s[j].0@ == key);
        }
    }
}

/// Whether `pairs` holds what `env` holds: each key of `env` once, with
/// its value, and nothing else.
pub open spec fn holds_all(pairs: Seq<(String, String)>, env: Map<Seq<char>, Seq<char>>) -> bool {
    &&& forall|i: int|
        0 <= i < pairs.len() ==> env.contains_key((#[trigger] pairs[i]).0@) && env[pairs[i].0@]
            == pairs[i].1@
    &&& forall|key: Seq<char>| #[trigger]
        env.contains_key(key) ==> exists|i: int| 0 <= i < pairs.len() && (#[trigger] pairs[i]).0@ == key
    &&& forall|i: int, j: int|
        0 <= i < j < pairs.len() ==> (#[trigger] pairs[i]).0@ != (#[trigger] pairs[j]).0@
}

/// Whether one of `pairs` has the key `key`.
fn has_key(pairs: &Vec<(String, String)>, key: &String) -> (r: bool)
    ensures
        r == exists|i: int| 0 <= i < pairs.len() && (#[trigger] pairs[i]).0@ == key@,
{
    let mut i: usize = 0;
    while i < pairs.len()
        invariant
            i <= pairs.len(),
            forall|j: int| 0 <= j < i ==> (#[trigger] pairs[j]).0@ != key@,
        decreases pairs.len() - i,
    {
        if pairs[i].0 == *key {
            return true;
        }
        i += 1;
    }
    false
}

impl Env {
    /// A store that holds nothing.
    pub fn new() -> (r: Env)
        ensures
            r@ == Map::<Seq<char>, Seq<char>>::empty(),
    {
        Env { settings: Vec::new() }
    }

    /// The value under `key`, if there is one.
    pub fn get(&self, key: &str) -> (r: Option<String>)
        ensures
            match r {
                Some(v) => self@.contains_key(key@) && v@ == self@[key@],
                None => !self@.contains_key(key@),
            },
    {
        let wanted: String = key.to_owned();
        let mut i: usize = self.settings.len();
        while i > 0
            invariant
                i <= self.settings.len(),
                wanted@ == key@,
                forall|j: int| i <= j < self.settings.len() ==> (#[trigger] self.settings@[j]).0@
                    != key@,
            decreases i,
        {
            i -= 1;
            if self.settings[i].0 == wanted {
                proof {
                    lemma_last_setting(self.settings@, key@, i as int);
                }
                return Some(self.settings[i].1.clone());
            }
        }
        proof {
            lemma_never_set(self.settings@, key@);
        }
        None
    }

    /// Whether `key` has a value.
    pub fn contains(&self, key: &str) -> (r: bool)
        ensures
            r == self@.contains_key(key@),
    {
        self.get(key).is_some()
    }

    /// What the store holds: each key once, with its value.
    pub fn entries(&self) -> (r: Vec<(String, String)>)
        ensures
            holds_all(r@, self@),
    {
        let mut out: Vec<(String, String)> = Vec::new();
        let n: usize = self.settings.len();
        let mut i: usize = n;
        while i > 0
            invariant
                i <= n,
                n == self.settings.len(),
                forall|k: int|
                    0 <= k < out.len() ==> self@.contains_key((#[trigger] out[k]).0@) && self@[out[k].0@]
                        == out[k].1@,
                forall|j: int|
                    i <= j < n ==> exists|k: int|
                        0 <= k < out.len() && (#[trigger] out[k]).0@ == (#[trigger] self.settings[j]).0@,
                forall|k: int, l: int|
                    0 <= k < l < out.len() ==> (#[trigger] out[k]).0@ != (#[trigger] out[l]).0@,
            decreases i,
        {
            i -= 1;
            let ghost before = out@;
            if !has_key(&out, &self.settings[i].0) {
                proof {
                    lemma_last_setting(self.settings@, self.settings[i as int].0@, i as int);
                }
                out.push((self.settings[i].0.clone(), self.settings[i].1.clone()));
            }
            proof {
                assert forall|j: int| i <= j < n implies exists|k: int|
                    0 <= k < out.len() && (#[trigger] out[k]).0@ == (#[trigger] self.settings[j]).0@ by {
                    if j > i {
                        let k = choose|k: int|
                            0 <= k < before.len() && (#[trigger] before[k]).0@ == self.settings[j].0@;
                        assert(out[k].0@ == self.settings[j].0@);
                    } else if before.len() < out.len() {
                        assert(out[before.len() as int].0@ == self.settings[j].0@);
                    } else {
                        let k = choose|k: int|
                            0 <= k < before.len() && (#[trigger] before[k]).0@ == self.settings[i as int].0@;
                        assert(out[k].0@ == self.settings[j].0@);
                    }
                }
            }
        }
        proof {
            assert forall|key: Seq<char>| #[trigger] self@.contains_key(key) implies exists|k: int|
                0 <= k < out.len() && (#[trigger] out[k]).0@ == key by {
                lemma_set_somewhere(self.settings@, key);
                let j = choose|j: int|
                    0 <= j < self.settings@.len() && (#[trigger] self.settings@[j]).0@ == key;
                let k = choose|k: int|
                    0 <= k < out.len() && (#[trigger] out[k]).0@ == self.settings[j].0@;
                assert(out[k].0@ == key);
            }
        }
        out
    }

    /// Puts `value` under `key`, in place of what was there.
    pub fn set(&mut self, key: String, value: String)
        ensures
            final(self)@ == old(self)@.insert(key@, value@),
    {
        proof {
            assert(self.settings@.push((key, value)).drop_last() =~= self.settings@);
        }
        self.settings.push((key, value));
    }

    /// Puts `value` under `key` unless the key has a value already.
    pub fn set_if_absent(&mut self, key: String, value: String)
        ensures
            final(self)@ == if old(self)@.contains_key(key@) {
                old(self)@
            } else {
                old(self)@.insert(key@, value@)
            },
    {
        if !self.contains(key.as_str()) {
            self.set(key, value);
        }
    }
}

} // verus!
