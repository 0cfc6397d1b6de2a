use vstd::prelude::*;

use crate::text::{chars_of, eq_lit};

verus! {

/// The map that a list of (name, value) entries stands for.
pub open spec fn entries_map(s: Seq<(String, String)>) -> Map<Seq<char>, Seq<char>>
    decreases s.len(),
{
    if s.len() == 0 {
        Map::empty()
    } else {
        entries_map(s.drop_last()).insert(s.last().0@, s.last().1@)
    }
}

/// No name occurs twice among the entries.
pub open spec fn distinct_names(s: Seq<(String, String)>) -> bool {
    forall|i: int, j: int| 0 <= i < j < s.len() ==> s[i].0@ != s[j].0@
}

/// The attributes of an element: a map from names to values.
#[derive(Debug)]
pub struct AttrMap {
    entries: Vec<(String, String)>,
}

impl View for AttrMap {
    type V = Map<Seq<char>, Seq<char>>;

    closed spec fn view(&self) -> Map<Seq<char>, Seq<char>> {
        entries_map(self.entries@)
    }
}

proof fn lemma_entries_map_dom(s: Seq<(String, String)>, k: Seq<char>)
    ensures
        entries_map(s).contains_key(k) <==> exists|i: int| 0 <= i < s.len() && s[i].0@ == k,
        entries_map(s).dom().finite(),
    decreases s.len(),
{
    if s.len() > 0 {
        lemma_entries_map_dom(s.drop_last(), k);
        if entries_map(s).contains_key(k) && k != s.last().0@ {
            let i = choose|i: int| 0 <= i < s.drop_last().len() && s.drop_last()[i].0@ == k;
            assert(s[i].0@ == k);
        }
        if exists|i: int| 0 <= i < s.len() && s[i].0@ == k {
            let i = choose|i: int| 0 <= i < s.len() && s[i].0@ == k;
            if i < s.len() - 1 {
                assert(s.drop_last()[i].0@ == k);
            }
        }
    }
}

proof fn lemma_entries_map_value(s: Seq<(String, String)>, i: int)
    requires
        distinct_names(s),
        0 <= i < s.len(),
    ensures
        entries_map(s).contains_key(s[i].0@),
        entries_map(s)[s[i].0@] == s[i].1@,
    decreases s.len(),
{
    lemma_entries_map_dom(s, s[i].0@);
    if i < s.len() - 1 {
        assert(s.drop_last()[i] == s[i]);
        lemma_entries_map_value(s.drop_last(), i);
        assert(s[i].0@ != s.last().0@);
    }
}

proof fn lemma_entries_map_len(s: Seq<(String, String)>)
    requires
        distinct_names(s),
    ensures
        entries_map(s).len() == s.len(),
    decreases s.len(),
{
    if s.len() > 0 {
        lemma_entries_map_len(s.drop_last());
        lemma_entries_map_dom(s.drop_last(), s.last().0@);
        assert(!entries_map(s.drop_last()).contains_key(s.last().0@));
    }
}

proof fn lemma_entries_map_update(s: Seq<(String, String)>, i: int, v: String)
    requires
        distinct_names(s),
        0 <= i < s.len(),
    ensures
        entries_map(s.update(i, (s[i].0, v))) == entries_map(s).insert(s[i].0@, v@),
    decreases s.len(),
{
    let t = s.update(i, (s[i].0, v));
    if i == s.len() - 1 {
        assert(t.drop_last() =~= s.drop_last());
        lemma_entries_map_dom(s.drop_last(), s[i].0@);
        assert(entries_map(t) =~= entries_map(s).insert(s[i].0@, v@));
    } else {
        assert(t.drop_last() =~= s.drop_last().update(i, (s[i].0, v)));
        lemma_entries_map_update(s.drop_last(), i, v);
        assert(s[i].0@ != s.last().0@);
        assert(entries_map(t) =~= entries_map(s).insert(s[i].0@, v@));
    }
}

impl AttrMap {
    /// No name occurs twice.
    #[verifier::type_invariant]
    spec fn wf(&self) -> bool {
        distinct_names(self.entries@)
    }

    /// An empty map.
    pub fn new() -> (r: Self)
        ensures
            r@ == Map::<Seq<char>, Seq<char>>::empty(),
    {
        AttrMap { entries: Vec::new() }
    }

    /// The number of attributes.
    pub fn len(&self) -> (r: usize)
        ensures
            r == self@.len(),
    {
        proof {
            use_type_invariant(self);
            lemma_entries_map_len(self.entries@);
        }
        self.entries.len()
    }

    /// The map holds no attribute.
    pub fn is_empty(&self) -> (r: bool)
        ensures
            r == (self@.len() == 0),
    {
        proof {
            use_type_invariant(self);
            lemma_entries_map_len(self.entries@);
        }
        self.entries.len() == 0
    }

    /// The value of attribute `name`, if the map holds it.
    pub fn get(&self, name: &str) -> (r: Option<&String>)
        ensures
            r is Some <==> self@.contains_key(name@),
            r matches Some(v) ==> v@ == self@[name@],
    {
        proof {
            use_type_invariant(self);
        }
        let n: usize = self.entries.len();
        let mut i: usize = 0;
        while i < n
            invariant
                n == self.entries@.len(),
                i <= n,
                distinct_names(self.entries@),
                forall|j: int| 0 <= j < i ==> self.entries@[j].0@ != name@,
            decreases n - i,
        {
            let key = chars_of(self.entries[i].0.as_str());
            if eq_lit(key.as_slice(), name) {
                proof {
                    lemma_entries_map_value(self.entries@, i as int);
                }
                return Some(&self.entries[i].1);
            }
            i = i + 1;
        }
        proof {
            lemma_entries_map_dom(self.entries@, name@);
        }
        None
    }

    /// The (name, value) pairs of the map, each name once, in the order in
    /// which the names were first inserted.
    pub fn entries(&self) -> (r: &Vec<(String, String)>)
        ensures
            entries_map(r@) == self@,
            distinct_names(r@),
    {
        proof {
            use_type_invariant(self);
        }
        &self.entries
    }

    /// Sets attribute `name` to `value`; gives back the value it replaced.
    pub fn insert(&mut self, name: String, value: String) -> (r: Option<String>)
        ensures
            final(self)@ == old(self)@.insert(name@, value@),
            r is Some <==> old(self)@.contains_key(name@),
            r matches Some(v) ==> v@ == old(self)@[name@],
    {
        proof {
            use_type_invariant(&*self);
        }
        let mut entries: Vec<(String, String)> = Vec::new();
        std::mem::swap(&mut entries, &mut self.entries);
        let ghost orig = entries@;
        let n: usize = entries.len();
        let mut i: usize = 0;
        while i < n
            invariant
                n == entries@.len(),
                i <= n,
                entries@ == orig,
                orig == old(self).entries@,
                distinct_names(orig),
                forall|j: int| 0 <= j < i ==> orig[j].0@ != name@,
            decreases n - i,
        {
            let key = chars_of(entries[i].0.as_str());
            if eq_lit(key.as_slice(), name.as_str()) {
                proof {
                    lemma_entries_map_value(orig, i as int);
                    lemma_entries_map_update(orig, i as int, value);
                }
                let same_name = entries[i].0.clone();
                let prev = entries[i].1.clone();
                entries.set(i, (same_name, value));
                assert(entries@ =~= orig.update(i as int, (orig[i as int].0, value)));
                assert(distinct_names(entries@)) by {
                    assert forall|a: int, b: int| 0 <= a < b < entries@.len() implies entries@[a].0@
                        != entries@[b].0@ by {
                        assert(entries@[a].0@ == orig[a].0@);
                        assert(entries@[b].0@ == orig[b].0@);
                    }
                }
                self.entries = entries;
                return Some(prev);
            }
            i = i + 1;
        }
        proof {
            lemma_entries_map_dom(orig, name@);
        }
        entries.push((name, value));
        assert(entries@.drop_last() =~= orig);
        self.entries = entries;
        None
    }
}


/// A simplified HTML element, as `select` extracts it.
#[derive(Debug)]
pub struct Elem {
    /// The tag name (lower case for HTML elements).
    pub tag: String,
    /// The attributes, or `None` when the element has none.
    pub attrs: Option<AttrMap>,
    /// The text of all its descendants, or `None` when that is blank.
    pub text: Option<String>,
    /// Its inner HTML, or `None` when that is blank.
    pub inner_html: Option<String>,
}

impl Elem {
    /// The value of attribute `name`, if the element has it.
    pub fn attr(&self, name: &str) -> (r: Option<&str>)
        ensures
            match self.attrs {
                None => r is None,
                Some(m) => (r is Some <==> m@.contains_key(name@)) && (r matches Some(v) ==> v@
                    == m@[name@]),
            },
    {
        match &self.attrs {
            Some(m) => match m.get(name) {
                Some(v) => Some(v.as_str()),
                None => None,
            },
            None => None,
        }
    }
}

} // verus!
