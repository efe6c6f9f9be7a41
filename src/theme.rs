//! Theme ideas sent by private message: one idea per user, a new one
//! replacing the old.
use vstd::prelude::*;

verus! {

/// Whether an idea was the user's first or replaced an earlier one.
#[derive(Clone, Copy, Debug, PartialEq, Eq, Structural)]
pub enum SubmissionResult {
    Done,
    AlreadySubmitted,
}

/// One user's idea.
#[derive(Clone, Debug)]
pub struct ThemeIdea {
    pub user: u64,
    pub idea: String,
}

/// The ideas submitted so far, one per user.
pub struct ThemeIdeas {
    content: Vec<ThemeIdea>,
    ideas: Ghost<Map<u64, Seq<char>>>,
}

impl View for ThemeIdeas {
    type V = Map<u64, Seq<char>>;

    closed spec fn view(&self) -> Map<u64, Seq<char>> {
        self.ideas@
    }
}

impl ThemeIdeas {
    /// One entry per user, and the entries are exactly the map.
    pub closed spec fn wf(&self) -> bool {
        &&& forall|i: int, j: int|
            0 <= i < j < self.content@.len() ==> #[trigger] self.content@[i].user
                != #[trigger] self.content@[j].user
        &&& forall|i: int|
            0 <= i < self.content@.len() ==> self.ideas@.contains_key(#[trigger] self.content@[i].user)
                && self.ideas@[self.content@[i].user] == self.content@[i].idea@
        &&& forall|u: u64|
            #[trigger] self.ideas@.contains_key(u) ==> exists|i: int|
                0 <= i < self.content@.len() && #[trigger] self.content@[i].user == u
    }

    /// No ideas yet.
    pub fn new() -> (t: ThemeIdeas)
        ensures
            t.wf(),
            t@ == Map::<u64, Seq<char>>::empty(),
    {
        ThemeIdeas { content: Vec::new(), ideas: Ghost(Map::empty()) }
    }

    /// Records `idea` as `user`'s idea, replacing any earlier one, and says
    /// whether there was one.
    pub fn try_add(&mut self, user: u64, idea: &str) -> (r: SubmissionResult)
        requires
            old(self).wf(),
        ensures
            final(self).wf(),
            final(self)@ == old(self)@.insert(user, idea@),
            r == (if old(self)@.contains_key(user) {
                SubmissionResult::AlreadySubmitted
            } else {
                SubmissionResult::Done
            }),
    {
        let mut i: usize = 0;
        while i < self.content.len()
            invariant
                self.wf(),
                self.content@ == old(self).content@,
                self.ideas@ == old(self).ideas@,
                i <= self.content@.len(),
                forall|k: int| 0 <= k < i ==> #[trigger] self.content@[k].user != user,
            decreases self.content@.len() - i,
        {
            if self.content[i].user == user {
                let ghost before = self.content@;
                assert(self.ideas@.contains_key(self.content@[i as int].user));
                self.content.set(i, ThemeIdea { user, idea: String::from_str(idea) });
                self.ideas = Ghost(self.ideas@.insert(user, idea@));
                proof {
                    let s = self.content@;
                    assert forall|a: int, b: int|
                        0 <= a < b < s.len() implies #[trigger] s[a].user != #[trigger] s[b].user by {
                        assert(before[a].user != before[b].user);
                    }
                    assert forall|a: int|
                        0 <= a < s.len() implies self.ideas@.contains_key(#[trigger] s[a].user)
                        && self.ideas@[s[a].user] == s[a].idea@ by {
                        if a != i {
                            assert(s[a] == before[a]);
                            assert(old(self).ideas@.contains_key(before[a].user));
                        }
                    }
                    assert forall|u: u64| #[trigger] self.ideas@.contains_key(u) implies exists|a: int|
                        0 <= a < s.len() && #[trigger] s[a].user == u by {
                        if u == user {
                            assert(s[i as int].user == u);
                        } else {
                            let a = choose|a: int| 0 <= a < before.len() && #[trigger] before[a].user == u;
                            assert(s[a].user == u);
                        }
                    }
                }
                return SubmissionResult::AlreadySubmitted;
            }
            i = i + 1;
        }
        let ghost before = self.content@;
        self.content.push(ThemeIdea { user, idea: String::from_str(idea) });
        self.ideas = Ghost(self.ideas@.insert(user, idea@));
        proof {
            let s = self.content@;
            let n = s.len() - 1;
            assert forall|a: int|
                0 <= a < s.len() implies self.ideas@.contains_key(#[trigger] s[a].user)
                && self.ideas@[s[a].user] == s[a].idea@ by {
                if a < n {
                    assert(s[a] == before[a]);
                    assert(old(self).ideas@.contains_key(before[a].user));
                }
            }
            assert forall|u: u64| #[trigger] self.ideas@.contains_key(u) implies exists|a: int|
                0 <= a < s.len() && #[trigger] s[a].user == u by {
                if u == user {
                    assert(s[n].user == u);
                } else {
                    let a = choose|a: int| 0 <= a < before.len() && #[trigger] before[a].user == u;
                    assert(s[a].user == u);
                }
            }
        }
        SubmissionResult::Done
    }

    /// Every idea, for saving.
    pub fn entries(&self) -> (r: &Vec<ThemeIdea>)
        requires
            self.wf(),
        ensures
            forall|i: int|
                0 <= i < r@.len() ==> self@.contains_key(#[trigger] r@[i].user) && self@[r@[i].user]
                    == r@[i].idea@,
            forall|u: u64|
                self@.contains_key(u) ==> exists|i: int| 0 <= i < r@.len() && #[trigger] r@[i].user == u,
    {
        &self.content
    }
}

} // verus!
