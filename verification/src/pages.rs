//! The screens: each page translates one line of raw input into a structured
//! [`Action`], against the snapshot its store handle currently holds, and the
//! listing helpers that order what a page displays.
//!
//! The input grammars are case-sensitive and expect input already stripped of
//! surrounding whitespace by the driving loop; any extra characters after a
//! recognized single-letter command invalidate the match and yield no action.

use crate::db::{Database, DbError, JiraDatabase};
use crate::models::{Action, DBState, Epic, EpicView, StateView, StoryView};
use itertools::Itertools;
use std::collections::HashMap;
use vstd::prelude::*;
use vstd::std_specs::iter::IteratorSpec;
use vstd::string::StrSliceExecFns;

verus! {

broadcast use vstd::std_specs::hash::group_hash_axioms;

/// `c` is an ASCII decimal digit.
pub open spec fn is_ascii_digit(c: char) -> bool {
    48 <= c as int <= 57
}

/// The numeric value of an ASCII decimal digit.
pub open spec fn digit_val(c: char) -> nat {
    (c as int - 48) as nat
}

/// The value of a digit string read as a base-ten numeral, most significant
/// digit first. Leading zeros carry no weight, so they are accepted.
pub open spec fn digits_value(s: Seq<char>) -> nat
    decreases s.len(),
{
    if s.len() == 0 {
        0
    } else {
        digits_value(s.drop_last()) * 10 + digit_val(s.last())
    }
}

/// The digit part of a numeral: everything after one optional leading `+`.
pub open spec fn digits_of(s: Seq<char>) -> Seq<char> {
    if s.len() > 0 && s[0] == '+' {
        s.drop_first()
    } else {
        s
    }
}

/// `s` is a decimal numeral denoting a value that fits in a `u32`: an
/// optional leading `+`, then at least one ASCII digit (leading zeros
/// allowed), with no other characters.
pub open spec fn parses_as_u32(s: Seq<char>) -> bool {
    let d = digits_of(s);
    &&& d.len() > 0
    &&& forall|i: int| 0 <= i < d.len() ==> is_ascii_digit(#[trigger] d[i])
    &&& digits_value(d) <= u32::MAX
}

/// The value a numeral denotes; meaningful when [`parses_as_u32`] holds.
pub open spec fn parsed_u32(s: Seq<char>) -> u32 {
    digits_value(digits_of(s)) as u32
}

/// Reading one more digit multiplies the value so far by ten and adds it.
proof fn lemma_digits_value_step(s: Seq<char>, k: int)
    requires
        0 <= k < s.len(),
    ensures
        digits_value(s.take(k + 1)) == digits_value(s.take(k)) * 10 + digit_val(s[k]),
{
    assert(s.take(k + 1).drop_last() =~= s.take(k));
    assert(s.take(k + 1).last() == s[k]);
}

/// The value of a numeral is at least the value of any of its prefixes.
proof fn lemma_digits_value_prefix_le(s: Seq<char>, k: int)
    requires
        0 <= k <= s.len(),
    ensures
        digits_value(s.take(k)) <= digits_value(s),
    decreases s.len() - k,
{
    if k == s.len() {
        assert(s.take(k) =~= s);
    } else {
        lemma_digits_value_step(s, k);
        lemma_digits_value_prefix_le(s, k + 1);
    }
}

/// Parse a decimal numeral the way the store's ids are written: an optional
/// leading `+`, then ASCII digits, rejecting anything else and any value
/// that does not fit in a `u32`. Leading zeros are accepted and carry no
/// weight, so `"03"` denotes 3.
pub fn parse_u32(input: &str) -> (r: Option<u32>)
    ensures
        r == (if parses_as_u32(input@) {
            Some(parsed_u32(input@))
        } else {
            None::<u32>
        }),
{
    let n = input.unicode_len();
    let start: usize = if n > 0 && input.get_char(0) == '+' {
        1
    } else {
        0
    };
    let ghost d = digits_of(input@);
    proof {
        assert(d =~= input@.subrange(start as int, n as int));
    }
    if start == n {
        return None;
    }
    let mut value: u32 = 0;
    let mut i: usize = start;
    while i < n
        invariant
            start <= i <= n,
            n == input@.len(),
            d == digits_of(input@),
            d =~= input@.subrange(start as int, n as int),
            forall|j: int| start <= j < i ==> is_ascii_digit(#[trigger] input@[j]),
            value == digits_value(input@.subrange(start as int, i as int)),
        decreases n - i,
    {
        let c = input.get_char(i);
        let code = c as u32;
        if code < 48 || code > 57 {
            proof {
                assert(d[i - start as int] == input@[i as int]);
            }
            return None;
        }
        let digit = code - 48;
        let next: u64 = value as u64 * 10 + digit as u64;
        proof {
            lemma_digits_value_step(input@.subrange(start as int, n as int), i - start as int);
            assert(input@.subrange(start as int, n as int).take(i - start as int) =~= input@
                .subrange(start as int, i as int));
            assert(input@.subrange(start as int, n as int).take(i + 1 - start as int) =~= input@
                .subrange(start as int, i + 1 as int));
        }
        if next > u32::MAX as u64 {
            proof {
                lemma_digits_value_prefix_le(
                    input@.subrange(start as int, n as int),
                    i + 1 - start as int,
                );
            }
            return None;
        }
        value = next as u32;
        i = i + 1;
    }
    proof {
        assert(input@.subrange(start as int, i as int) =~= d);
        assert forall|j: int| 0 <= j < d.len() implies is_ascii_digit(#[trigger] d[j]) by {
            assert(d[j] == input@[j + start as int]);
        }
    }
    Some(value)
}

/// The action the home screen assigns to `input` against the live epics:
/// `q` exits, `c` creates an epic, and a numeral denoting a live epic id
/// navigates to that epic's detail page. Anything else is no action.
pub open spec fn home_action(epics: Map<u32, EpicView>, input: Seq<char>) -> Option<Action> {
    if input == seq!['q'] {
        Some(Action::Exit)
    } else if input == seq!['c'] {
        Some(Action::CreateEpic)
    } else if parses_as_u32(input) && epics.contains_key(parsed_u32(input)) {
        Some(Action::NavigateToEpicDetail { epic_id: parsed_u32(input) })
    } else {
        None
    }
}

/// The action an epic's detail screen assigns to `input`: `p` goes back,
/// `u` updates this epic's status, `d` deletes it, `c` creates a story
/// under it, and a numeral denoting a live story id — checked against the
/// global story map, not this epic's own list — navigates to that story.
/// Anything else is no action.
pub open spec fn epic_detail_action(
    stories: Map<u32, StoryView>,
    epic_id: u32,
    input: Seq<char>,
) -> Option<Action> {
    if input == seq!['p'] {
        Some(Action::NavigateToPreviousPage)
    } else if input == seq!['u'] {
        Some(Action::UpdateEpicStatus { epic_id })
    } else if input == seq!['d'] {
        Some(Action::DeleteEpic { epic_id })
    } else if input == seq!['c'] {
        Some(Action::CreateStory { epic_id })
    } else if parses_as_u32(input) && stories.contains_key(parsed_u32(input)) {
        Some(Action::NavigateToStoryDetail { epic_id, story_id: parsed_u32(input) })
    } else {
        None
    }
}

/// The action a story's detail screen assigns to `input`: `p` goes back,
/// `u` updates this story's status, `d` deletes it. Anything else —
/// numerals included — is no action.
pub open spec fn story_detail_action(epic_id: u32, story_id: u32, input: Seq<char>) -> Option<
    Action,
> {
    if input == seq!['p'] {
        Some(Action::NavigateToPreviousPage)
    } else if input == seq!['u'] {
        Some(Action::UpdateStoryStatus { story_id })
    } else if input == seq!['d'] {
        Some(Action::DeleteStory { epic_id, story_id })
    } else {
        None
    }
}

/// A page of the user interface: it interprets one line of raw input into an
/// action, against the snapshot its store handle currently holds.
pub trait Page {
    /// The snapshot this page's store handle currently holds.
    spec fn store(&self) -> Option<StateView>;

    /// Whether interpreting input consults the store.
    spec fn consults_store(&self) -> bool;

    /// The action this page's grammar assigns to `input` against snapshot
    /// `v`.
    spec fn action_for(&self, v: Option<StateView>, input: Seq<char>) -> Option<Action>;

    /// Interpret one line of input. Fails only when the store must be
    /// consulted and cannot be read; unrecognized input is no action, never
    /// an error.
    fn handle_input(&self, input: &str) -> (r: Result<Option<Action>, DbError>)
        ensures
            self.consults_store() && self.store() is None ==> r is Err,
            !(self.consults_store() && self.store() is None) ==> r == Ok::<
                Option<Action>,
                DbError,
            >(self.action_for(self.store(), input@)),
    ;
}

/// The home screen: lists all epics and navigates into them.
pub struct HomePage<'a, D: Database> {
    pub db: &'a JiraDatabase<D>,
}

/// The detail screen of one epic: shows its fields and stories.
pub struct EpicDetail<'a, D: Database> {
    pub epic_id: u32,
    pub db: &'a JiraDatabase<D>,
}

/// The detail screen of one story: shows its fields.
pub struct StoryDetail<'a, D: Database> {
    pub epic_id: u32,
    pub story_id: u32,
    pub db: &'a JiraDatabase<D>,
}

impl<'a, D: Database> Page for HomePage<'a, D> {
    open spec fn store(&self) -> Option<StateView> {
        self.db.stored()
    }

    open spec fn consults_store(&self) -> bool {
        true
    }

    open spec fn action_for(&self, v: Option<StateView>, input: Seq<char>) -> Option<Action> {
        home_action(v->0.epics, input)
    }

    fn handle_input(&self, input: &str) -> (r: Result<Option<Action>, DbError>) {
        let db_state = match self.db.read_db() {
            Ok(s) => s,
            Err(e) => {
                return Err(e);
            },
        };
        let epics = db_state.epics;
        let n = input.unicode_len();
        if n == 1 && input.get_char(0) == 'q' {
            proof {
                assert(input@ =~= seq!['q']);
            }
            return Ok(Some(Action::Exit));
        }
        if n == 1 && input.get_char(0) == 'c' {
            proof {
                assert(input@ =~= seq!['c']);
            }
            return Ok(Some(Action::CreateEpic));
        }
        match parse_u32(input) {
            Some(epic_id) => {
                if epics.contains_key(&epic_id) {
                    Ok(Some(Action::NavigateToEpicDetail { epic_id }))
                } else {
                    Ok(None)
                }
            },
            None => Ok(None),
        }
    }
}

impl<'a, D: Database> Page for EpicDetail<'a, D> {
    open spec fn store(&self) -> Option<StateView> {
        self.db.stored()
    }

    open spec fn consults_store(&self) -> bool {
        true
    }

    open spec fn action_for(&self, v: Option<StateView>, input: Seq<char>) -> Option<Action> {
        epic_detail_action(v->0.stories, self.epic_id, input)
    }

    fn handle_input(&self, input: &str) -> (r: Result<Option<Action>, DbError>) {
        let db_state = match self.db.read_db() {
            Ok(s) => s,
            Err(e) => {
                return Err(e);
            },
        };
        let stories = db_state.stories;
        let n = input.unicode_len();
        if n == 1 {
            let c = input.get_char(0);
            if c == 'p' {
                proof {
                    assert(input@ =~= seq!['p']);
                }
                return Ok(Some(Action::NavigateToPreviousPage));
            }
            if c == 'u' {
                proof {
                    assert(input@ =~= seq!['u']);
                }
                return Ok(Some(Action::UpdateEpicStatus { epic_id: self.epic_id }));
            }
            if c == 'd' {
                proof {
                    assert(input@ =~= seq!['d']);
                }
                return Ok(Some(Action::DeleteEpic { epic_id: self.epic_id }));
            }
            if c == 'c' {
                proof {
                    assert(input@ =~= seq!['c']);
                }
                return Ok(Some(Action::CreateStory { epic_id: self.epic_id }));
            }
        }
        match parse_u32(input) {
            Some(story_id) => {
                if stories.contains_key(&story_id) {
                    Ok(Some(Action::NavigateToStoryDetail { epic_id: self.epic_id, story_id }))
                } else {
                    Ok(None)
                }
            },
            None => Ok(None),
        }
    }
}

impl<'a, D: Database> Page for StoryDetail<'a, D> {
    open spec fn store(&self) -> Option<StateView> {
        self.db.stored()
    }

    open spec fn consults_store(&self) -> bool {
        false
    }

    open spec fn action_for(&self, v: Option<StateView>, input: Seq<char>) -> Option<Action> {
        story_detail_action(self.epic_id, self.story_id, input)
    }

    fn handle_input(&self, input: &str) -> (r: Result<Option<Action>, DbError>) {
        let n = input.unicode_len();
        if n == 1 {
            let c = input.get_char(0);
            if c == 'p' {
                proof {
                    assert(input@ =~= seq!['p']);
                }
                return Ok(Some(Action::NavigateToPreviousPage));
            }
            if c == 'u' {
                proof {
                    assert(input@ =~= seq!['u']);
                }
                return Ok(Some(Action::UpdateStoryStatus { story_id: self.story_id }));
            }
            if c == 'd' {
                proof {
                    assert(input@ =~= seq!['d']);
                }
                return Ok(Some(Action::DeleteStory {
                    epic_id: self.epic_id,
                    story_id: self.story_id,
                }));
            }
        }
        Ok(None)
    }
}

/// All keys of a map, in the arbitrary order the table yields them.
fn map_keys(m: &HashMap<u32, Epic>) -> (r: Vec<u32>)
    ensures
        r@.to_set() == m@.dom(),
        r@.no_duplicates(),
{
    let mut r: Vec<u32> = Vec::new();
    for k in it: m.keys()
        invariant
            r@.len() == it.index(),
            forall|j: int| 0 <= j < it.index() ==> r@[j] == *(#[trigger] it.seq()[j]),
            it.seq() == vstd::std_specs::hash::spec_keys_iter(m).remaining(),
    {
        r.push(*k);
    }
    proof {
        let s = vstd::std_specs::hash::spec_keys_iter(m).remaining();
        assert(r@ =~= s.unref());
        assert(r@.to_set() =~= s.unref().to_set());
        assert forall|i: int, j: int| 0 <= i < j < r@.len() implies r@[i] != r@[j] by {
            assert(s[i] != s[j]);
        }
    }
    r
}

/// Relies on itertools::Itertools::sorted: it collects all elements into a
/// vector, sorts it ascending with `Vec::sort`, and yields the result, so
/// the output holds the same elements in ascending order.
#[verifier::external_body]
fn sorted_ids(ids: Vec<u32>) -> (r: Vec<u32>)
    ensures
        r@.to_multiset() == ids@.to_multiset(),
        forall|i: int, j: int| 0 <= i < j < r@.len() ==> r@[i] <= r@[j],
{
    ids.into_iter().sorted().collect()
}

/// The ids of all epics in the snapshot, ascending: what the home screen
/// lists, one row per live epic.
pub fn sorted_epic_ids(state: &DBState) -> (r: Vec<u32>)
    ensures
        r@.to_set() == state@.epics.dom(),
        forall|i: int, j: int| 0 <= i < j < r@.len() ==> r@[i] < r@[j],
{
    let keys = map_keys(&state.epics);
    let r = sorted_ids(keys);
    proof {
        broadcast use vstd::seq_lib::group_to_multiset_ensures;

        keys@.lemma_multiset_has_no_duplicates();
        r@.lemma_multiset_has_no_duplicates_conv();
        assert forall|x: u32| r@.to_set().contains(x) <==> keys@.to_set().contains(x) by {
            assert(r@.contains(x) <==> r@.to_multiset().count(x) > 0);
            assert(keys@.contains(x) <==> keys@.to_multiset().count(x) > 0);
        }
        assert(r@.to_set() =~= keys@.to_set());
        assert(state@.epics.dom() =~= state.epics@.dom());
        assert forall|i: int, j: int| 0 <= i < j < r@.len() implies r@[i] < r@[j] by {
            if r@[i] == r@[j] {
                assert(!r@.no_duplicates());
            }
        }
    }
    r
}

/// The story ids an epic's membership list holds, ascending: what the
/// epic's detail screen lists.
pub fn sorted_story_ids(epic: &Epic) -> (r: Vec<u32>)
    ensures
        r@.to_multiset() == epic@.stories.to_multiset(),
        forall|i: int, j: int| 0 <= i < j < r@.len() ==> r@[i] <= r@[j],
{
    let mut ids: Vec<u32> = Vec::new();
    let n = epic.stories.len();
    for i in 0..n
        invariant
            n == epic.stories.len(),
            ids@ =~= epic.stories@.take(i as int),
    {
        ids.push(epic.stories[i]);
        proof {
            assert(ids@ =~= epic.stories@.take(i + 1));
        }
    }
    proof {
        assert(ids@ =~= epic.stories@);
    }
    sorted_ids(ids)
}

} // verus!
