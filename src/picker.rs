//! The selection engine: the live query, its candidates, the highlighted
//! candidate, and the per-tick controller that routes input events.

use vstd::prelude::*;
use crate::filter::{candidates, filter_names, lemma_candidate_iff_match};
use crate::store::{views, Store};

verus! {

/// The cursor after one step forward over `len` candidates: it wraps at the
/// end, and stays put when there are none.
pub open spec fn next_index(i: nat, len: nat) -> nat {
    if len == 0 {
        i
    } else {
        (i + 1) % len
    }
}

/// The cursor after `k` steps forward from `i`.
pub open spec fn advance_times(i: nat, len: nat, k: nat) -> nat
    decreases k,
{
    if k == 0 {
        i
    } else {
        next_index(advance_times(i, len, (k - 1) as nat), len)
    }
}

/// What the host is asked to do after a tick.
#[derive(Debug, PartialEq, Eq)]
pub enum Action {
    /// Keep running and draw the render model.
    Continue,
    /// Exit without touching the clipboard.
    Quit,
    /// Write the text to the clipboard, then exit.
    CopyAndQuit(String),
}

/// The input gathered in one tick.
pub struct Events {
    pub cancel: bool,
    pub cycle: bool,
    pub commit: bool,
    /// The new full query, when the text changed.
    pub text: Option<String>,
}

/// What the host draws: the query and each candidate with whether it is
/// highlighted.
pub struct RenderModel {
    pub query: String,
    pub items: Vec<(String, bool)>,
}

/// The picker as a mathematical value.
pub struct PickerView {
    pub names: Seq<Seq<char>>,
    pub entries: Map<Seq<char>, Seq<char>>,
    pub query: Seq<char>,
    pub candidates: Seq<Seq<char>>,
    pub selected: nat,
    pub terminating: bool,
}

/// The content that a commit writes: the entry under the highlighted candidate.
pub open spec fn highlighted_content(v: PickerView) -> Seq<char> {
    v.entries[v.candidates[v.selected as int]]
}

/// The selection engine over one store.
pub struct Picker {
    store: Store,
    query: String,
    candidates: Vec<String>,
    selected_index: usize,
    terminating: bool,
}

impl View for Picker {
    type V = PickerView;

    closed spec fn view(&self) -> PickerView {
        PickerView {
            names: self.store.names(),
            entries: self.store.entries(),
            query: self.query@,
            candidates: views(self.candidates@),
            selected: self.selected_index as nat,
            terminating: self.terminating,
        }
    }
}

impl Picker {
    /// The store is well formed, the candidates are those of the query, and the
    /// cursor is on a candidate, or at 0 when there is none.
    pub closed spec fn wf(&self) -> bool {
        &&& self.store.wf()
        &&& views(self.candidates@) == filter_names(self.store.names(), self.query@)
        &&& self.candidates@.len() == 0 ==> self.selected_index == 0
        &&& self.candidates@.len() > 0 ==> self.selected_index < self.candidates@.len()
    }

    /// A well-formed picker keeps its candidates consistent with its query.
    pub proof fn lemma_wf(&self)
        requires
            self.wf(),
        ensures
            self@.candidates == filter_names(self@.names, self@.query),
            self@.candidates.len() == 0 ==> self@.selected == 0,
            self@.candidates.len() > 0 ==> self@.selected < self@.candidates.len(),
    {
    }

    /// A picker over `store`, with an empty query and so no candidates.
    pub fn new(store: Store) -> (r: Picker)
        requires
            store.wf(),
        ensures
            r.wf(),
            r@.names == store.names(),
            r@.entries == store.entries(),
            r@.query.len() == 0,
            r@.candidates.len() == 0,
            r@.selected == 0,
            !r@.terminating,
    {
        let r = Picker {
            store,
            query: String::new(),
            candidates: Vec::new(),
            selected_index: 0,
            terminating: false,
        };
        assert(views(r.candidates@) =~= Seq::<Seq<char>>::empty());
        r
    }

    /// The current query.
    pub fn query(&self) -> (r: &String)
        ensures
            r@ == self@.query,
    {
        &self.query
    }

    /// The candidates of the current query.
    pub fn candidates(&self) -> (r: &Vec<String>)
        ensures
            views(r@) == self@.candidates,
    {
        &self.candidates
    }

    /// The position of the highlighted candidate.
    pub fn selected_index(&self) -> (r: usize)
        ensures
            r == self@.selected,
    {
        self.selected_index
    }

    /// Whether a cancel or a commit has been handled.
    pub fn is_terminating(&self) -> (r: bool)
        ensures
            r == self@.terminating,
    {
        self.terminating
    }

    /// The entry store.
    pub fn store(&self) -> (r: &Store)
        ensures
            r.names() == self@.names,
            r.entries() == self@.entries,
    {
        &self.store
    }

    /// Replaces the query, recomputes its candidates and puts the cursor back on
    /// the first one.
    pub fn set_query(&mut self, q: String)
        requires
            old(self).wf(),
        ensures
            final(self).wf(),
            final(self)@ == (PickerView {
                query: q@,
                candidates: filter_names(old(self)@.names, q@),
                selected: 0,
                ..old(self)@
            }),
    {
        self.candidates = candidates(self.store.all_names(), q.as_str());
        self.query = q;
        self.selected_index = 0;
    }

    /// Moves the cursor one candidate forward, wrapping at the end; does nothing
    /// when there are no candidates.
    pub fn advance(&mut self)
        requires
            old(self).wf(),
        ensures
            final(self).wf(),
            final(self)@ == (PickerView {
                selected: next_index(old(self)@.selected, old(self)@.candidates.len()),
                ..old(self)@
            }),
    {
        let len = self.candidates.len();
        if len > 0 {
            self.selected_index = (self.selected_index + 1) % len;
        }
    }

    /// The highlighted candidate, if there is one.
    pub fn current(&self) -> (r: Option<String>)
        requires
            self.wf(),
        ensures
            r.is_some() == (self@.candidates.len() > 0),
            r.is_some() ==> r->Some_0@ == self@.candidates[self@.selected as int],
    {
        if self.candidates.len() == 0 {
            None
        } else {
            Some(self.candidates[self.selected_index].clone())
        }
    }

    /// The content that a commit writes: that of the highlighted candidate, or
    /// none when there are no candidates.
    pub fn commit_content(&self) -> (r: Option<String>)
        requires
            self.wf(),
        ensures
            r.is_some() == (self@.candidates.len() > 0),
            r.is_some() ==> r->Some_0@ == highlighted_content(self@),
    {
        match self.current() {
            None => None,
            Some(name) => {
                proof {
                    let cs = self@.candidates;
                    assert(cs.contains(cs[self@.selected as int]));
                    lemma_candidate_iff_match(self@.names, self@.query, name@);
                    self.store.lemma_names_are_keys();
                }
                self.store.get(&name)
            },
        }
    }

    /// Handles one tick of input, in this order: a cancel ends the session; else a
    /// cycle advances the cursor; then a commit hands out the highlighted content
    /// and ends the session; else a text change replaces the query. Once the
    /// session has ended nothing changes and the host is asked to exit.
    pub fn step(&mut self, ev: Events) -> (r: Action)
        requires
            old(self).wf(),
        ensures
            final(self).wf(),
            old(self)@.terminating ==> r == Action::Quit && final(self)@ == old(self)@,
            !old(self)@.terminating && ev.cancel ==> r == Action::Quit && final(self)@ == (
            PickerView { terminating: true, ..old(self)@ }),
            !old(self)@.terminating && !ev.cancel ==> {
                let sel = if ev.cycle {
                    next_index(old(self)@.selected, old(self)@.candidates.len())
                } else {
                    old(self)@.selected
                };
                let mid = PickerView { selected: sel, ..old(self)@ };
                if ev.commit {
                    &&& final(self)@ == (PickerView { terminating: true, ..mid })
                    &&& mid.candidates.len() == 0 ==> r == Action::Quit
                    &&& mid.candidates.len() > 0 ==> (r matches Action::CopyAndQuit(s) && s@
                        == highlighted_content(mid))
                } else {
                    &&& r == Action::Continue
                    &&& match ev.text {
                        Some(t) => final(self)@ == (PickerView {
                            query: t@,
                            candidates: filter_names(mid.names, t@),
                            selected: 0,
                            ..mid
                        }),
                        None => final(self)@ == mid,
                    }
                }
            },
    {
        if self.terminating {
            return Action::Quit;
        }
        if ev.cancel {
            self.terminating = true;
            return Action::Quit;
        }
        if ev.cycle {
            self.advance();
        }
        if ev.commit {
            self.terminating = true;
            return match self.commit_content() {
                None => Action::Quit,
                Some(c) => Action::CopyAndQuit(c),
            };
        }
        if let Some(t) = ev.text {
            self.set_query(t);
        }
        Action::Continue
    }

    /// What the host draws, or none once the session has ended.
    pub fn render(&self) -> (r: Option<RenderModel>)
        requires
            self.wf(),
        ensures
            self@.terminating <==> r.is_none(),
            r.is_some() ==> {
                let m = r->Some_0;
                &&& m.query@ == self@.query
                &&& m.items@.len() == self@.candidates.len()
                &&& forall|i: int|
                    0 <= i < m.items@.len() ==> (#[trigger] m.items@[i]).0@ == self@.candidates[i]
                        && m.items@[i].1 == (i == self@.selected)
            },
    {
        if self.terminating {
            return None;
        }
        let mut items: Vec<(String, bool)> = Vec::new();
        let mut i: usize = 0;
        while i < self.candidates.len()
            invariant
                i <= self.candidates@.len(),
                items@.len() == i,
                forall|j: int|
                    0 <= j < i ==> (#[trigger] items@[j]).0@ == self.candidates@[j]@ && items@[j].1
                        == (j == self.selected_index),
            decreases self.candidates@.len() - i,
        {
            items.push((self.candidates[i].clone(), i == self.selected_index));
            i = i + 1;
        }
        Some(RenderModel { query: self.query.clone(), items })
    }
}

/// Stepping `k` times from the first candidate of a list of `len` candidates
/// lands on candidate `k mod len`.
pub proof fn lemma_advance_cycles(len: nat, k: nat)
    requires
        len > 0,
    ensures
        advance_times(0, len, k) == k % len,
    decreases k,
{
    if k == 0 {
        assert(0nat % len == 0) by {
            vstd::arithmetic::div_mod::lemma_small_mod(0, len);
        }
    } else {
        lemma_advance_cycles(len, (k - 1) as nat);
        let a = (k - 1) as int;
        let l = len as int;
        assert(((a % l) + 1) % l == (a + 1) % l) by {
            vstd::arithmetic::div_mod::lemma_add_mod_noop(a, 1, l);
            vstd::arithmetic::div_mod::lemma_add_mod_noop(a % l, 1, l);
            vstd::arithmetic::div_mod::lemma_mod_twice(a, l);
        }
        assert(advance_times(0, len, k) == next_index(advance_times(0, len, (k - 1) as nat), len));
        assert(a + 1 == k);
    }
}

/// Stepping any number of times over no candidates leaves the cursor where it was.
pub proof fn lemma_advance_empty(i: nat, k: nat)
    ensures
        advance_times(i, 0, k) == i,
    decreases k,
{
    if k > 0 {
        lemma_advance_empty(i, (k - 1) as nat);
    }
}

} // verus!
