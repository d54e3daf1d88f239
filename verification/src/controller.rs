use vstd::prelude::*;

use crate::coordinator::{SearchOutcome, SearchRequest};
use crate::gitlab::User;
use crate::text::push_char;
use crate::text::substring;

verus! {

// ---------------------------------------------------------------------------
// Controller state of the interactive search.
//
// The controller owns the whole UI state and mutates it in exactly two
// places: when a key arrives and when a coordinator outcome is drained.
// Both transitions are specified exactly, keep the selection invariant, and
// discard any outcome whose generation is not the current one.
// ---------------------------------------------------------------------------

/// A keyboard event, reduced to what the search loop reacts to.
#[derive(Debug, Clone, Copy)]
pub enum Key {
    Char(char),
    Backspace,
    Delete,
    Up,
    Down,
    Enter,
    Esc,
    Other,
}

/// How an interactive search session ends.
#[derive(Debug)]
pub enum SelectionResult {
    Selected(User),
    Cancelled,
}

/// What the loop should do after a key was handled.
#[derive(Debug)]
pub enum KeyAction {
    /// Hand this request to the coordinator and keep looping.
    Submit(SearchRequest),
    /// Keep looping.
    Continue,
    /// Leave the loop with this result.
    Finish(SelectionResult),
}

/// The state the controller renders and mutates.
pub struct UIState {
    pub query: String,
    pub results: Vec<User>,
    pub selected_index: usize,
    pub error: Option<String>,
    pub loading: bool,
    /// Bumped on every query change; outcomes carrying an older value are
    /// stale and are discarded.
    pub generation: u64,
}

/// The selection always points into the result list: at a result when there
/// are any, at zero otherwise.
pub open spec fn ui_invariant(s: UIState) -> bool {
    if s.results@.len() == 0 {
        s.selected_index == 0
    } else {
        (s.selected_index as int) < s.results@.len()
    }
}

/// What draining one coordinator outcome does: an outcome of the current
/// generation is applied — results replaced, error set or cleared, loading
/// over, selection reset on success — and any other outcome changes nothing.
pub open spec fn apply_outcome_rel(pre: UIState, post: UIState, outcome: SearchOutcome) -> bool {
    if outcome.generation != pre.generation {
        post == pre
    } else {
        &&& post.query == pre.query
        &&& post.generation == pre.generation
        &&& post.loading == false
        &&& match outcome.result {
            Ok(users) => {
                &&& post.results == users
                &&& post.selected_index == 0
                &&& post.error is None
            },
            Err(message) => {
                &&& post.results == pre.results
                &&& post.selected_index == pre.selected_index
                &&& post.error == Some(message)
            },
        }
    }
}

/// What one key does to the state, and what the loop does next.
pub open spec fn handle_key_rel(pre: UIState, post: UIState, key: Key, action: KeyAction) -> bool {
    match key {
        Key::Char(c) => {
            &&& post.query@ == pre.query@.push(c)
            &&& post.generation == pre.generation + 1
            &&& post.error is None
            &&& post.loading == true
            &&& post.results == pre.results
            &&& post.selected_index == pre.selected_index
            &&& match action {
                KeyAction::Submit(r) => r.term@ == post.query@ && r.generation
                    == post.generation,
                _ => false,
            }
        },
        Key::Backspace => {
            if pre.query@.len() == 0 {
                post == pre && action is Continue
            } else {
                &&& post.query@ == pre.query@.drop_last()
                &&& post.generation == pre.generation + 1
                &&& post.error is None
                &&& post.loading == true
                &&& post.results == pre.results
                &&& post.selected_index == pre.selected_index
                &&& match action {
                    KeyAction::Submit(r) => r.term@ == post.query@ && r.generation
                        == post.generation,
                    _ => false,
                }
            }
        },
        Key::Delete => {
            &&& post.query@.len() == 0
            &&& post.results@.len() == 0
            &&& post.selected_index == 0
            &&& post.error == pre.error
            &&& post.loading == pre.loading
            &&& post.generation == pre.generation
            &&& action is Continue
        },
        Key::Up => {
            &&& post == (UIState {
                selected_index: if pre.results@.len() == 0 {
                    pre.selected_index
                } else if pre.selected_index > 0 {
                    (pre.selected_index - 1) as usize
                } else {
                    (pre.results@.len() - 1) as usize
                },
                ..pre
            })
            &&& action is Continue
        },
        Key::Down => {
            &&& post == (UIState {
                selected_index: if pre.results@.len() == 0 {
                    pre.selected_index
                } else {
                    ((pre.selected_index + 1) as int % pre.results@.len() as int) as usize
                },
                ..pre
            })
            &&& action is Continue
        },
        Key::Enter => {
            if pre.results@.len() == 0 {
                post == pre && action is Continue
            } else {
                post == pre && match action {
                    KeyAction::Finish(SelectionResult::Selected(u)) => {
                        u == pre.results@[pre.selected_index as int]
                    },
                    _ => false,
                }
            }
        },
        Key::Esc => {
            post == pre && action matches KeyAction::Finish(SelectionResult::Cancelled)
        },
        Key::Other => post == pre && action is Continue,
    }
}

impl UIState {
    /// The state a search session starts in.
    pub fn new() -> (s: UIState)
        ensures
            s.query@.len() == 0,
            s.results@.len() == 0,
            s.selected_index == 0,
            s.error is None,
            !s.loading,
            s.generation == 0,
            ui_invariant(s),
    {
        UIState {
            query: String::new(),
            results: Vec::new(),
            selected_index: 0,
            error: None,
            loading: false,
            generation: 0,
        }
    }

    /// Drains one outcome. A stale one — its generation is not the current
    /// one — is discarded silently.
    pub fn apply_outcome(&mut self, outcome: SearchOutcome)
        requires
            ui_invariant(*old(self)),
        ensures
            ui_invariant(*final(self)),
            apply_outcome_rel(*old(self), *final(self), outcome),
    {
        if outcome.generation != self.generation {
            return ;
        }
        self.loading = false;
        match outcome.result {
            Ok(users) => {
                self.results = users;
                self.error = None;
                self.selected_index = 0;
            },
            Err(message) => {
                self.error = Some(message);
            },
        }
    }

    /// Reacts to one key, as the input loop dispatches them: typing edits
    /// the query, clears a shown error and asks for a fresh search; arrows
    /// move the selection with wraparound; Enter takes the selected result;
    /// Esc cancels.
    pub fn handle_key(&mut self, key: Key) -> (action: KeyAction)
        requires
            ui_invariant(*old(self)),
            old(self).generation < u64::MAX,
        ensures
            ui_invariant(*final(self)),
            handle_key_rel(*old(self), *final(self), key, action),
    {
        match key {
            Key::Char(c) => {
                push_char(&mut self.query, c);
                self.generation = self.generation + 1;
                self.error = None;
                self.loading = true;
                KeyAction::Submit(
                    SearchRequest { term: self.query.clone(), generation: self.generation },
                )
            },
            Key::Backspace => {
                let n = crate::text::char_len(self.query.as_str());
                if n == 0 {
                    KeyAction::Continue
                } else {
                    let shorter = substring(self.query.as_str(), 0, n - 1);
                    proof {
                        assert(old(self).query@.subrange(0, n - 1) =~= old(
                            self,
                        ).query@.drop_last());
                    }
                    self.query = shorter;
                    self.generation = self.generation + 1;
                    self.error = None;
                    self.loading = true;
                    KeyAction::Submit(
                        SearchRequest { term: self.query.clone(), generation: self.generation },
                    )
                }
            },
            Key::Delete => {
                self.query = String::new();
                self.results = Vec::new();
                self.selected_index = 0;
                KeyAction::Continue
            },
            Key::Up => {
                let len = self.results.len();
                if len > 0 {
                    self.selected_index = if self.selected_index > 0 {
                        self.selected_index - 1
                    } else {
                        len - 1
                    };
                }
                KeyAction::Continue
            },
            Key::Down => {
                let len = self.results.len();
                if len > 0 {
                    self.selected_index = (self.selected_index + 1) % len;
                }
                KeyAction::Continue
            },
            Key::Enter => {
                if self.results.len() > 0 {
                    let chosen = self.results[self.selected_index].duplicate();
                    KeyAction::Finish(SelectionResult::Selected(chosen))
                } else {
                    KeyAction::Continue
                }
            },
            Key::Esc => KeyAction::Finish(SelectionResult::Cancelled),
            Key::Other => KeyAction::Continue,
        }
    }
}

// ---------------------------------------------------------------------------
// Laws.
// ---------------------------------------------------------------------------

/// Every state reachable from `UIState::new` through key handling and
/// outcome draining keeps the selection inside the result list: the two
/// lemmas below close the reachable set under both transitions.
pub proof fn lemma_handle_key_preserves_invariant(
    pre: UIState,
    post: UIState,
    key: Key,
    action: KeyAction,
)
    requires
        ui_invariant(pre),
        handle_key_rel(pre, post, key, action),
    ensures
        ui_invariant(post),
{
}

/// Outcome draining keeps the selection invariant as well.
pub proof fn lemma_apply_outcome_preserves_invariant(
    pre: UIState,
    post: UIState,
    outcome: SearchOutcome,
)
    requires
        ui_invariant(pre),
        apply_outcome_rel(pre, post, outcome),
    ensures
        ui_invariant(post),
{
}

/// An outcome tagged with a generation older than the state's current one is
/// never applied: the state is left exactly as it was.
pub proof fn lemma_stale_outcome_ignored(pre: UIState, post: UIState, outcome: SearchOutcome)
    requires
        apply_outcome_rel(pre, post, outcome),
        outcome.generation < pre.generation,
    ensures
        post == pre,
{
}

} // verus!
