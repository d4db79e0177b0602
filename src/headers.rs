//! Header sets as lists of (name, value) pairs, names in lower case, in the
//! order they were received or added; a name may occur more than once.

use vstd::prelude::*;
use vstd::string::*;

verus! {

/// A header set: a request's headers, or the headers of a response.
pub struct Headers {
    pub entries: Vec<(String, String)>,
}

/// A header set as a value.
pub type HeadersView = Seq<(Seq<char>, Seq<char>)>;

impl View for Headers {
    type V = HeadersView;

    open spec fn view(&self) -> HeadersView {
        self.entries@.map_values(|e: (String, String)| (e.0@, e.1@))
    }
}

/// The first value of the header `name`.
pub open spec fn first_value(h: HeadersView, name: Seq<char>) -> Option<Seq<char>>
    decreases h.len(),
{
    if h.len() == 0 {
        None
    } else if h[0].0 == name {
        Some(h[0].1)
    } else {
        first_value(h.drop_first(), name)
    }
}

/// All values of the header `name`, in order.
pub open spec fn all_values(h: HeadersView, name: Seq<char>) -> Seq<Seq<char>>
    decreases h.len(),
{
    if h.len() == 0 {
        Seq::empty()
    } else if h[0].0 == name {
        seq![h[0].1] + all_values(h.drop_first(), name)
    } else {
        all_values(h.drop_first(), name)
    }
}

impl Headers {
    /// An empty set.
    pub fn new() -> (r: Headers)
        ensures
            r@ == Seq::<(Seq<char>, Seq<char>)>::empty(),
    {
        let r = Headers { entries: Vec::new() };
        assert(r@ =~= Seq::<(Seq<char>, Seq<char>)>::empty());
        r
    }

    /// Adds a value for `name` after the others.
    pub fn append(&mut self, name: &str, value: String)
        ensures
            final(self)@ == old(self)@.push((name@, value@)),
    {
        let ghost before = self@;
        self.entries.push((String::from_str(name), value));
        assert(self@ =~= before.push((name@, value@)));
    }

    /// Adds all entries of `other` after these, in their order.
    pub fn extend(&mut self, other: Headers)
        ensures
            final(self)@ == old(self)@ + other@,
    {
        let ghost before = self@;
        let n = other.entries.len();
        let mut i: usize = 0;
        while i < n
            invariant
                n == other@.len(),
                i <= n,
                self@ == before + other@.subrange(0, i as int),
            decreases n - i,
        {
            let k = other.entries[i].0.clone();
            let v = other.entries[i].1.clone();
            let ghost prev = self@;
            self.entries.push((k, v));
            assert(self@ =~= prev.push(other@[i as int]));
            i = i + 1;
            assert(self@ =~= before + other@.subrange(0, i as int));
        }
        assert(other@.subrange(0, n as int) =~= other@);
    }

    /// The first value of the header `name`.
    pub fn get(&self, name: &str) -> (r: Option<String>)
        ensures
            match first_value(self@, name@) {
                Some(v) => r is Some && r->Some_0@ == v,
                None => r is None,
            },
    {
        let key = String::from_str(name);
        let mut i: usize = 0;
        assert(self@.subrange(0, self@.len() as int) =~= self@);
        while i < self.entries.len()
            invariant
                i <= self@.len(),
                key@ == name@,
                first_value(self@, name@) == first_value(
                    self@.subrange(i as int, self@.len() as int),
                    name@,
                ),
            decreases self@.len() - i,
        {
            let ghost rest = self@.subrange(i as int, self@.len() as int);
            assert(rest.drop_first() =~= self@.subrange(i + 1, self@.len() as int));
            if self.entries[i].0 == key {
                return Some(self.entries[i].1.clone());
            }
            i = i + 1;
        }
        None
    }

    /// All values of the header `name`, in order.
    pub fn get_all(&self, name: &str) -> (r: Vec<String>)
        ensures
            r@.map_values(|s: String| s@) == all_values(self@, name@),
    {
        let key = String::from_str(name);
        let mut out: Vec<String> = Vec::new();
        let mut i: usize = self.entries.len();
        assert(self@.subrange(self@.len() as int, self@.len() as int) =~= Seq::<(Seq<char>, Seq<char>)>::empty());
        while i > 0
            invariant
                i <= self@.len(),
                key@ == name@,
                out@.map_values(|s: String| s@) == all_values(
                    self@.subrange(i as int, self@.len() as int),
                    name@,
                ),
            decreases i,
        {
            i = i - 1;
            let ghost rest = self@.subrange(i as int, self@.len() as int);
            assert(rest.drop_first() =~= self@.subrange(i + 1, self@.len() as int));
            if self.entries[i].0 == key {
                let ghost prev = out@;
                out.insert(0, self.entries[i].1.clone());
                assert(out@.map_values(|s: String| s@) =~= seq![self@[i as int].1] + prev.map_values(|s: String| s@));
            }
        }
        assert(self@.subrange(0, self@.len() as int) =~= self@);
        out
    }
}

} // verus!
