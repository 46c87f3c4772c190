//! The window in which a signal is searched for and chosen.
use vstd::prelude::*;

verus! {

/// How many of the matches are offered.
pub const MAX_MATCHES: usize = 10;

/// The window in which a signal is searched for and chosen: whether it is open, what has
/// been typed, the signals that match it with their names, and the one that is marked.
pub struct AddSigState<V> {
    active: bool,
    input: String,
    matches: Vec<(V, String)>,
    selected_index: usize,
}

/// What an [`AddSigState`] stands for.
pub struct AddSigView<V> {
    pub active: bool,
    pub input: Seq<char>,
    pub matches: Seq<(V, String)>,
    pub selected: int,
}

impl<V> AddSigView<V> {
    /// The window, empty.
    pub open spec fn fresh(active: bool) -> Self {
        AddSigView { active, input: Seq::empty(), matches: Seq::empty(), selected: 0 }
    }

    /// The mark stands on a match, where there is one, and no more matches are offered
    /// than there is room for.
    pub open spec fn wf(self) -> bool {
        &&& self.matches.len() <= MAX_MATCHES
        &&& 0 <= self.selected
        &&& self.selected < self.matches.len() || self.selected == 0
    }

    /// The window after another text has been typed: the mark goes back to the top.
    pub open spec fn searching(self, input: Seq<char>) -> Self {
        AddSigView { input, selected: 0, ..self }
    }

    /// The window on other matches: the first ones that there is room for. The mark stays
    /// where it is, or on the last match where there are fewer.
    pub open spec fn offering(self, matches: Seq<(V, String)>) -> Self {
        let kept = if matches.len() > MAX_MATCHES {
            matches.take(MAX_MATCHES as int)
        } else {
            matches
        };
        let last = if kept.len() == 0 {
            0
        } else {
            kept.len() - 1
        };
        AddSigView {
            matches: kept,
            selected: if self.selected <= last {
                self.selected
            } else {
                last
            },
            ..self
        }
    }

    /// The mark moved to the next match, from the last one to the first.
    pub open spec fn next(self) -> Self {
        if self.matches.len() == 0 {
            self
        } else {
            AddSigView { selected: (self.selected + 1) % (self.matches.len() as int), ..self }
        }
    }

    /// The mark moved to the previous match, from the first one to the last.
    pub open spec fn prev(self) -> Self {
        if self.matches.len() == 0 {
            self
        } else {
            AddSigView {
                selected: if self.selected == 0 {
                    self.matches.len() - 1
                } else {
                    self.selected - 1
                },
                ..self
            }
        }
    }

    /// The marked match.
    pub open spec fn marked(self) -> Option<(V, String)> {
        if 0 <= self.selected < self.matches.len() {
            Some(self.matches[self.selected])
        } else {
            None
        }
    }

    /// Whatever is done to the window, its mark stands on a match where there is one.
    pub proof fn mark_stays_on_a_match(self, input: Seq<char>, matches: Seq<(V, String)>)
        requires
            self.wf(),
        ensures
            self.searching(input).wf(),
            self.offering(matches).wf(),
            self.next().wf(),
            self.prev().wf(),
            Self::fresh(true).wf(),
            Self::fresh(false).wf(),
            self.marked() is Some <==> self.matches.len() > 0,
    {
    }

    /// Moving the mark back takes back moving it on, and the other way round.
    pub proof fn prev_undoes_next(self)
        requires
            self.wf(),
        ensures
            self.next().prev() == self,
            self.prev().next() == self,
    {
        let n = self.matches.len() as int;
        if n > 0 {
            if self.selected + 1 < n {
                vstd::arithmetic::div_mod::lemma_small_mod((self.selected + 1) as nat, n as nat);
            } else {
                vstd::arithmetic::div_mod::lemma_mod_self_0(n);
            }
            if self.selected > 0 {
                vstd::arithmetic::div_mod::lemma_small_mod(self.selected as nat, n as nat);
            } else {
                vstd::arithmetic::div_mod::lemma_mod_self_0(n);
            }
        }
    }

    /// The mark moved on a number of times.
    pub open spec fn next_times(self, k: nat) -> Self
        decreases k,
    {
        if k == 0 {
            self
        } else {
            self.next_times((k - 1) as nat).next()
        }
    }

    /// Moving the mark on as often as there are matches leads back to where it stood.
    pub proof fn next_goes_round(self)
        requires
            self.wf(),
        ensures
            self.next_times(self.matches.len()) == self,
    {
        let n = self.matches.len();
        if n > 0 {
            self.next_times_is(n);
            assert((self.selected + n) % (n as int) == self.selected) by (nonlinear_arith)
                requires
                    0 <= self.selected < n,
            ;
        }
    }

    proof fn next_times_is(self, k: nat)
        requires
            self.wf(),
            self.matches.len() > 0,
        ensures
            self.next_times(k) == (AddSigView {
                selected: (self.selected + k) % (self.matches.len() as int),
                ..self
            }),
        decreases k,
    {
        let n = self.matches.len() as int;
        if k == 0 {
            vstd::arithmetic::div_mod::lemma_small_mod(self.selected as nat, n as nat);
        } else {
            self.next_times_is((k - 1) as nat);
            vstd::arithmetic::div_mod::lemma_add_mod_noop(self.selected + k - 1, 1, n);
            vstd::arithmetic::div_mod::lemma_mod_twice(self.selected + k - 1, n);
            vstd::arithmetic::div_mod::lemma_add_mod_noop((self.selected + k - 1) % n, 1, n);
        }
    }
}

impl<V> View for AddSigState<V> {
    type V = AddSigView<V>;

    closed spec fn view(&self) -> AddSigView<V> {
        AddSigView {
            active: self.active,
            input: self.input@,
            matches: self.matches@,
            selected: self.selected_index as int,
        }
    }
}

impl<V> Default for AddSigState<V> {
    fn default() -> (r: Self)
        ensures
            r@ == AddSigView::<V>::fresh(false),
    {
        Self::new()
    }
}

impl<V> AddSigState<V> {
    /// The window, closed.
    pub fn new() -> (r: Self)
        ensures
            r@ == AddSigView::<V>::fresh(false),
    {
        AddSigState { active: false, input: String::new(), matches: Vec::new(), selected_index: 0 }
    }

    /// Opens the window, empty.
    pub fn activate(&mut self)
        ensures
            final(self)@ == AddSigView::<V>::fresh(true),
    {
        self.active = true;
        self.input.clear();
        self.matches.clear();
        self.selected_index = 0;
    }

    /// Closes the window and empties it.
    pub fn deactivate(&mut self)
        ensures
            final(self)@ == AddSigView::<V>::fresh(false),
    {
        self.active = false;
        self.input.clear();
        self.matches.clear();
        self.selected_index = 0;
    }

    /// Whether the window is open.
    pub fn is_active(&self) -> (r: bool)
        ensures
            r == self@.active,
    {
        self.active
    }

    /// Searches for another text.
    pub fn update_search(&mut self, input: String)
        ensures
            final(self)@ == old(self)@.searching(input@),
    {
        self.input = input;
        self.selected_index = 0;
    }

    /// The text that is searched for.
    pub fn get_input(&self) -> (r: &str)
        ensures
            r@ == self@.input,
    {
        self.input.as_str()
    }

    /// Offers the first ones of the signals that match.
    pub fn set_matches(&mut self, matches: Vec<(V, String)>)
        ensures
            final(self)@ == old(self)@.offering(matches@),
    {
        let ghost all = matches@;
        let mut matches = matches;
        matches.truncate(MAX_MATCHES);
        let last: usize = matches.len().saturating_sub(1);
        self.matches = matches;
        assert(self@.matches =~= old(self)@.offering(all).matches);
        if self.selected_index > last {
            self.selected_index = last;
        }
    }

    /// The signals that are offered, with their names.
    pub fn get_matches(&self) -> (r: &[(V, String)])
        ensures
            r@ == self@.matches,
    {
        self.matches.as_slice()
    }

    /// Moves the mark to the next match, from the last one to the first.
    pub fn select_next(&mut self)
        requires
            old(self)@.wf(),
        ensures
            final(self)@ == old(self)@.next(),
    {
        if !self.matches.is_empty() {
            self.selected_index = (self.selected_index + 1) % self.matches.len();
        }
    }

    /// Moves the mark to the previous match, from the first one to the last.
    pub fn select_prev(&mut self)
        ensures
            final(self)@ == old(self)@.prev(),
    {
        if !self.matches.is_empty() {
            self.selected_index = if self.selected_index == 0 {
                self.matches.len() - 1
            } else {
                self.selected_index - 1
            };
        }
    }

    /// The marked match.
    pub fn get_selected(&self) -> (r: Option<&(V, String)>)
        ensures
            match r {
                Some(found) => self@.marked() == Some(*found),
                None => self@.marked() is None,
            },
    {
        if self.selected_index < self.matches.len() {
            Some(&self.matches[self.selected_index])
        } else {
            None
        }
    }

    /// Closes the window and hands out the signal that was marked in it.
    pub fn take_selected(&mut self) -> (r: Option<V>)
        ensures
            final(self)@ == AddSigView::<V>::fresh(false),
            match old(self)@.marked() {
                Some(found) => r == Some(found.0),
                None => r is None,
            },
    {
        let chosen = if self.selected_index < self.matches.len() {
            let (signal, _) = self.matches.swap_remove(self.selected_index);
            Some(signal)
        } else {
            None
        };
        self.deactivate();
        chosen
    }

    /// The position of the mark.
    pub fn get_selected_index(&self) -> (r: usize)
        ensures
            r == self@.selected,
    {
        self.selected_index
    }
}

} // verus!
