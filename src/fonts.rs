//! A table of named fonts, each parsed the first time its name is used.
use vstd::prelude::*;
use crate::scene::Font;

verus! {

/// The table after resolving `name` with the parse outcome `parsed`: unchanged
/// when the name is present or the parse failed, otherwise extended.
pub open spec fn after_resolve<F>(m: Map<Seq<char>, F>, name: Seq<char>, parsed: Option<F>) -> Map<
    Seq<char>,
    F,
> {
    if m.contains_key(name) {
        m
    } else {
        match parsed {
            Some(f) => m.insert(name, f),
            None => m,
        }
    }
}

/// Parsed fonts by name. Entries are only ever added.
pub struct FontTable<F> {
    entries: Vec<(String, F)>,
    map: Ghost<Map<Seq<char>, F>>,
}

impl<F> View for FontTable<F> {
    type V = Map<Seq<char>, F>;

    closed spec fn view(&self) -> Map<Seq<char>, F> {
        self.map@
    }
}

impl<F> FontTable<F> {
    /// The stored entries agree with the map that the table stands for.
    pub closed spec fn wf(&self) -> bool {
        &&& forall|i: int|
            0 <= i < self.entries@.len() ==> {
                &&& #[trigger] self.map@.contains_key(self.entries@[i].0@)
                &&& self.map@[self.entries@[i].0@] == self.entries@[i].1
            }
        &&& forall|k: Seq<char>|
            #[trigger] self.map@.contains_key(k) ==> exists|i: int|
                0 <= i < self.entries@.len() && #[trigger] self.entries@[i].0@ == k
    }

    /// An empty table.
    pub fn new() -> (t: FontTable<F>)
        ensures
            t.wf(),
            t@ == Map::<Seq<char>, F>::empty(),
    {
        FontTable { entries: Vec::new(), map: Ghost(Map::empty()) }
    }

    fn find(&self, name: &String) -> (r: Option<usize>)
        requires
            self.wf(),
        ensures
            match r {
                Some(i) => i < self.entries@.len() && self.entries@[i as int].0@ == name@,
                None => !self@.contains_key(name@),
            },
    {
        let mut i: usize = 0;
        while i < self.entries.len()
            invariant
                self.wf(),
                i <= self.entries@.len(),
                forall|j: int| 0 <= j < i ==> self.entries@[j].0@ != name@,
            decreases self.entries@.len() - i,
        {
            if self.entries[i].0 == *name {
                return Some(i);
            }
            i = i + 1;
        }
        None
    }

    /// The font stored under `name`, if any.
    pub fn get(&self, name: &String) -> (r: Option<&F>)
        requires
            self.wf(),
        ensures
            r.is_some() == self@.contains_key(name@),
            r.is_some() ==> *r.unwrap() == self@[name@],
    {
        match self.find(name) {
            Some(i) => {
                assert(self.map@.contains_key(self.entries@[i as int].0@));
                Some(&self.entries[i].1)
            },
            None => None,
        }
    }

    /// Makes the font named `name` available when it can be. When the name is
    /// present nothing changes and `parse` is not called; otherwise
    /// `parse(bytes)` is called once, and a font it returns is stored under
    /// `name`. Returns whether a font is stored under `name` afterwards; `false`
    /// means the parse failed and the caller falls back to its default font.
    pub fn resolve<P: Fn(&Vec<u8>) -> Option<F>>(
        &mut self,
        name: &String,
        bytes: &Vec<u8>,
        parse: P,
    ) -> (available: bool)
        requires
            old(self).wf(),
            parse.requires((bytes,)),
        ensures
            final(self).wf(),
            available == final(self)@.contains_key(name@),
            old(self)@.contains_key(name@) ==> final(self)@ == old(self)@,
            !old(self)@.contains_key(name@) ==> exists|parsed: Option<F>|
                parse.ensures((bytes,), parsed) && final(self)@ == after_resolve(
                    old(self)@,
                    name@,
                    parsed,
                ),
    {
        match self.find(name) {
            Some(i) => {
                assert(self.map@.contains_key(self.entries@[i as int].0@));
                true
            },
            None => {
                let parsed = parse(bytes);
                assert(parse.ensures((bytes,), parsed));
                match parsed {
                    Some(f) => {
                        let ghost fv = f;
                        let ghost old_entries = self.entries@;
                        self.entries.push((name.clone(), f));
                        self.map = Ghost(self.map@.insert(name@, fv));
                        assert(self.entries@[old_entries.len() as int].0@ == name@);
                        assert forall|k: Seq<char>| #[trigger] self.map@.contains_key(k) implies exists|
                            i: int,
                        |
                            0 <= i < self.entries@.len() && #[trigger] self.entries@[i].0@ == k by {
                            if k != name@ {
                                let i = choose|i: int|
                                    0 <= i < old_entries.len() && #[trigger] old_entries[i].0@ == k;
                                assert(self.entries@[i] == old_entries[i]);
                            }
                        }
                        assert(self.map@ == after_resolve(old(self)@, name@, Some(fv)));
                        true
                    },
                    None => {
                        assert(self.map@ == after_resolve(old(self)@, name@, None::<F>));
                        false
                    },
                }
            },
        }
    }

    /// The font that text in `font` is drawn with; `None` stands for the
    /// fallback font. A named font is parsed with `parse` the first time its
    /// name is used and kept; when its bytes do not parse, the fallback font is
    /// used and nothing is kept.
    pub fn resolve_font<P: Fn(&Vec<u8>) -> Option<F>>(&mut self, font: &Font, parse: P) -> (r:
        Option<&F>)
        requires
            old(self).wf(),
            forall|b: &Vec<u8>| parse.requires((b,)),
        ensures
            final(self).wf(),
            match font {
                Font::Default => r.is_none() && final(self)@ == old(self)@,
                Font::External { name, bytes } => {
                    &&& r.is_some() == final(self)@.contains_key(name@)
                    &&& r.is_some() ==> *r.unwrap() == final(self)@[name@]
                    &&& old(self)@.contains_key(name@) ==> final(self)@ == old(self)@
                    &&& !old(self)@.contains_key(name@) ==> exists|parsed: Option<F>|
                        parse.ensures((bytes,), parsed) && final(self)@ == after_resolve(
                            old(self)@,
                            name@,
                            parsed,
                        )
                },
            },
    {
        match font {
            Font::Default => None,
            Font::External { name, bytes } => {
                if self.resolve(name, bytes, parse) {
                    self.get(name)
                } else {
                    None
                }
            },
        }
    }
}

/// Once a name has been resolved to a parsed font, resolving it again leaves the
/// table as it was, whatever a second parse would return: each name is parsed
/// successfully at most once.
pub proof fn lemma_second_resolve_hits<F>(
    m: Map<Seq<char>, F>,
    name: Seq<char>,
    first: F,
    second: Option<F>,
)
    ensures
        after_resolve(m, name, Some(first)).contains_key(name),
        after_resolve(after_resolve(m, name, Some(first)), name, second) == after_resolve(
            m,
            name,
            Some(first),
        ),
{
}

} // verus!
