//! The entry store: names mapped to contents, loaded once from `name: content` lines.

use vstd::prelude::*;
use crate::text::{colon_at, lemma_colon_at_none, lemma_colon_at_split, split_on_colon, trim_seq, trim_str};

verus! {

/// The characters of each string, in order.
pub open spec fn views(v: Seq<String>) -> Seq<Seq<char>> {
    v.map_values(|s: String| s@)
}

/// The entry a line describes: the trimmed text before its first `':'` as the
/// name, the trimmed text after it as the content; none without a `':'`.
pub open spec fn parse_line(l: Seq<char>) -> Option<(Seq<char>, Seq<char>)> {
    let i = colon_at(l);
    if i < 0 {
        None
    } else {
        Some((trim_seq(l.subrange(0, i)), trim_seq(l.subrange(i + 1, l.len() as int))))
    }
}

/// The entries that `lines` describe, a later line winning over an earlier one
/// with the same name.
pub open spec fn parse_lines(lines: Seq<Seq<char>>) -> Map<Seq<char>, Seq<char>>
    decreases lines.len(),
{
    if lines.len() == 0 {
        Map::empty()
    } else {
        let m = parse_lines(lines.drop_last());
        match parse_line(lines.last()) {
            Some((k, v)) => m.insert(k, v),
            None => m,
        }
    }
}

/// Names and their contents. The names are distinct; their order is the order
/// in which each was first inserted.
pub struct Store {
    names: Vec<String>,
    contents: Vec<String>,
}

impl Store {
    /// All names, in the store's order.
    pub closed spec fn names(&self) -> Seq<Seq<char>> {
        views(self.names@)
    }

    /// The content stored under each name, position by position.
    pub closed spec fn contents(&self) -> Seq<Seq<char>> {
        views(self.contents@)
    }

    pub closed spec fn wf(&self) -> bool {
        &&& self.names@.len() == self.contents@.len()
        &&& forall|i: int, j: int|
            0 <= i < j < self.names@.len() ==> #[trigger] self.names()[i] != #[trigger] self.names()[j]
    }

    /// The store as a map from name to content.
    pub closed spec fn entries(&self) -> Map<Seq<char>, Seq<char>> {
        Map::new(
            |k: Seq<char>| self.names().contains(k),
            |k: Seq<char>|
                self.contents()[choose|i: int| 0 <= i < self.names().len() && self.names()[i] == k],
        )
    }

    /// Each position of a well-formed store gives the entry under its name.
    pub proof fn lemma_entry_at(&self, i: int)
        requires
            self.wf(),
            0 <= i < self.names().len(),
        ensures
            self.entries().contains_key(self.names()[i]),
            self.entries()[self.names()[i]] == self.contents()[i],
    {
        let k = self.names()[i];
        assert(self.names().contains(k));
        let j = choose|j: int| 0 <= j < self.names().len() && self.names()[j] == k;
        if j < i {
            assert(self.names()[j] != self.names()[i]);
        } else if i < j {
            assert(self.names()[i] != self.names()[j]);
        }
    }

    /// The names are exactly the keys of the map.
    pub proof fn lemma_names_are_keys(&self)
        ensures
            forall|k: Seq<char>| #[trigger] self.entries().contains_key(k) <==> self.names().contains(k),
    {
    }

    /// A store with no entries.
    pub fn new() -> (r: Store)
        ensures
            r.wf(),
            r.names().len() == 0,
            r.entries() == Map::<Seq<char>, Seq<char>>::empty(),
    {
        let r = Store { names: Vec::new(), contents: Vec::new() };
        assert(r.entries() =~= Map::<Seq<char>, Seq<char>>::empty());
        r
    }

    /// The number of entries.
    pub fn len(&self) -> (r: usize)
        ensures
            r == self.names().len(),
    {
        self.names.len()
    }

    /// All names, in the store's order.
    pub fn all_names(&self) -> (r: &Vec<String>)
        ensures
            views(r@) == self.names(),
    {
        &self.names
    }

    /// Position of `name` in the store, if it is there.
    fn position(&self, name: &String) -> (r: Option<usize>)
        requires
            self.wf(),
        ensures
            match r {
                None => !self.names().contains(name@),
                Some(i) => i < self.names().len() && self.names()[i as int] == name@,
            },
    {
        let mut i: usize = 0;
        while i < self.names.len()
            invariant
                i <= self.names@.len(),
                forall|j: int| 0 <= j < i ==> self.names()[j] != name@,
            decreases self.names@.len() - i,
        {
            if self.names[i] == *name {
                return Some(i);
            }
            i = i + 1;
        }
        assert(!self.names().contains(name@)) by {
            if self.names().contains(name@) {
                let j = choose|j: int| 0 <= j < self.names().len() && self.names()[j] == name@;
                assert(self.names()[j] != name@);
            }
        }
        None
    }

    /// The content stored under `name`.
    pub fn get(&self, name: &String) -> (r: Option<String>)
        requires
            self.wf(),
        ensures
            r.is_some() == self.entries().contains_key(name@),
            r.is_some() ==> r->Some_0@ == self.entries()[name@],
    {
        match self.position(name) {
            None => None,
            Some(i) => {
                proof {
                    self.lemma_entry_at(i as int);
                }
                Some(self.contents[i].clone())
            },
        }
    }

    /// Stores `content` under `name`, replacing what was there. A new name goes
    /// after all others; a known name keeps its place.
    pub fn insert(&mut self, name: String, content: String)
        requires
            old(self).wf(),
        ensures
            final(self).wf(),
            final(self).entries() == old(self).entries().insert(name@, content@),
            old(self).names().contains(name@) ==> final(self).names() == old(self).names(),
            !old(self).names().contains(name@) ==> final(self).names() == old(self).names().push(name@),
    {
        let ghost pre = *self;
        match self.position(&name) {
            Some(i) => {
                self.contents.set(i, content);
                proof {
                    assert(self.names() == pre.names());
                    assert forall|k: Seq<char>|
                        #[trigger] self.entries().contains_key(k) implies self.entries()[k]
                        == pre.entries().insert(name@, content@)[k] by {
                        let j = choose|j: int| 0 <= j < self.names().len() && self.names()[j] == k;
                        self.lemma_entry_at(j);
                        pre.lemma_entry_at(j);
                    }
                    assert(self.entries() =~= pre.entries().insert(name@, content@));
                }
            },
            None => {
                self.names.push(name);
                self.contents.push(content);
                proof {
                    let n = pre.names().len() as int;
                    assert(self.names() =~= pre.names().push(name@));
                    assert(self.contents() =~= pre.contents().push(content@));
                    assert forall|i: int, j: int|
                        0 <= i < j < self.names@.len() implies #[trigger] self.names()[i]
                        != #[trigger] self.names()[j] by {
                        if j == n {
                            assert(pre.names().contains(pre.names()[i]));
                        }
                    }
                    assert forall|k: Seq<char>|
                        #[trigger] self.entries().contains_key(k) implies self.entries()[k]
                        == pre.entries().insert(name@, content@)[k] by {
                        let j = choose|j: int| 0 <= j < self.names().len() && self.names()[j] == k;
                        self.lemma_entry_at(j);
                        if j < n {
                            pre.lemma_entry_at(j);
                        }
                    }
                    assert forall|k: Seq<char>|
                        #[trigger] pre.entries().insert(name@, content@).contains_key(k) implies
                        self.entries().contains_key(k) by {
                        if k != name@ {
                            let j = choose|j: int| 0 <= j < pre.names().len() && pre.names()[j] == k;
                            assert(self.names()[j] == k);
                        } else {
                            assert(self.names()[n] == k);
                        }
                    }
                    assert(self.entries() =~= pre.entries().insert(name@, content@));
                }
            },
        }
    }

    /// Builds the store from the lines of a `name: content` source. Each line is
    /// split at its first `':'`, both sides trimmed of whitespace; lines without a
    /// `':'` are skipped, and a later line wins over an earlier one with the same name.
    pub fn from_lines(lines: &Vec<String>) -> (r: Store)
        ensures
            r.wf(),
            r.entries() == parse_lines(views(lines@)),
    {
        let mut r = Store::new();
        let mut i: usize = 0;
        while i < lines.len()
            invariant
                i <= lines@.len(),
                r.wf(),
                r.entries() == parse_lines(views(lines@).subrange(0, i as int)),
            decreases lines@.len() - i,
        {
            let line = lines[i].as_str();
            let ghost pre = views(lines@).subrange(0, i as int);
            let ghost cur = views(lines@).subrange(0, i as int + 1);
            assert(cur.drop_last() =~= pre);
            assert(cur.last() == line@);
            match split_on_colon(line) {
                None => {
                    proof {
                        lemma_colon_at_none(line@);
                    }
                },
                Some((a, b)) => {
                    proof {
                        lemma_colon_at_split(a@, b@);
                        assert(line@.subrange(0, a@.len() as int) =~= a@);
                        assert(line@.subrange(a@.len() as int + 1, line@.len() as int) =~= b@);
                    }
                    let name = trim_str(a.as_str());
                    let content = trim_str(b.as_str());
                    r.insert(name, content);
                },
            }
            i = i + 1;
        }
        assert(views(lines@).subrange(0, lines@.len() as int) =~= views(lines@));
        r
    }
}

} // verus!
