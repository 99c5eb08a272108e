//! The submission-URI cache: maps (username, assignment number) to the
//! network address of that assignment's submission, fetched at most once
//! per username per process run and memoized for the rest of the run.
//!
//! The cache itself never performs network work: when it reports that a
//! username's table is missing, the caller fetches that user's submission
//! list once, builds the sparse table with `build_table`, stores it, and
//! every later resolution for that user — in any number of copy
//! operations of the same run — is answered from the stored table alone.

use vstd::prelude::*;

use crate::errors::GscError;
use crate::messages::SubmissionRecord;

verus! {

/// Per-username sparse tables of submission addresses, indexed by
/// assignment number; an absent slot means the user has no such
/// assignment.
pub struct UriCache {
    entries: Vec<(String, Vec<Option<String>>)>,
}

/// The map a sequence of cache entries denotes: later entries would win,
/// but the cache never stores a username twice.
pub open spec fn entries_map(s: Seq<(String, Vec<Option<String>>)>) -> Map<
    Seq<char>,
    Seq<Option<Seq<char>>>,
>
    decreases s.len(),
{
    if s.len() == 0 {
        Map::empty()
    } else {
        entries_map(s.drop_last()).insert(s.last().0@, s.last().1.deep_view())
    }
}

impl View for UriCache {
    type V = Map<Seq<char>, Seq<Option<Seq<char>>>>;

    closed spec fn view(&self) -> Map<Seq<char>, Seq<Option<Seq<char>>>> {
        entries_map(self.entries@)
    }
}

proof fn lemma_entries_map_domain(s: Seq<(String, Vec<Option<String>>)>, user: Seq<char>)
    ensures
        entries_map(s).contains_key(user) <==> exists|i: int|
            0 <= i < s.len() && (#[trigger] s[i]).0@ == user,
    decreases s.len(),
{
    if s.len() > 0 {
        lemma_entries_map_domain(s.drop_last(), user);
        if entries_map(s).contains_key(user) && s.last().0@ != user {
            let i = choose|i: int| 0 <= i < s.len() - 1 && (#[trigger] s.drop_last()[i]).0@
                == user;
            assert(s[i].0@ == user);
        }
        if exists|i: int| 0 <= i < s.len() && (#[trigger] s[i]).0@ == user {
            let i = choose|i: int| 0 <= i < s.len() && (#[trigger] s[i]).0@ == user;
            if i < s.len() - 1 {
                assert(s.drop_last()[i].0@ == user);
            }
        }
    }
}

proof fn lemma_entries_map_at(s: Seq<(String, Vec<Option<String>>)>, i: int)
    requires
        0 <= i < s.len(),
        forall|j: int, k: int|
            0 <= j < k < s.len() ==> (#[trigger] s[j]).0@ != (#[trigger] s[k]).0@,
    ensures
        entries_map(s).contains_key(s[i].0@),
        entries_map(s)[s[i].0@] == s[i].1.deep_view(),
    decreases s.len(),
{
    if i == s.len() - 1 {
        lemma_entries_map_domain(s, s[i].0@);
    } else {
        lemma_entries_map_at(s.drop_last(), i);
        assert(s.drop_last()[i] == s[i]);
        assert(s.last().0@ != s[i].0@);
    }
}

impl UriCache {
    /// No two entries name the same user.
    pub closed spec fn wf(&self) -> bool {
        forall|j: int, k: int|
            0 <= j < k < self.entries@.len() ==> (#[trigger] self.entries@[j]).0@ != (
            #[trigger] self.entries@[k]).0@
    }

    /// An empty cache: the state of every fresh run.
    pub fn new() -> (r: Self)
        ensures
            r.wf(),
            r@ == Map::<Seq<char>, Seq<Option<Seq<char>>>>::empty(),
    {
        UriCache { entries: Vec::new() }
    }

    /// The position of a user's entry, if one is stored.
    fn find_user(&self, user: &str) -> (r: Option<usize>)
        ensures
            r matches Some(i) ==> i < self.entries@.len() && self.entries@[i as int].0@ == user@,
            r is None ==> forall|i: int|
                0 <= i < self.entries@.len() ==> (#[trigger] self.entries@[i]).0@ != user@,
    {
        let needle = user.to_owned();
        let mut i: usize = 0;
        while i < self.entries.len()
            invariant
                i <= self.entries@.len(),
                needle@ == user@,
                forall|j: int| 0 <= j < i ==> (#[trigger] self.entries@[j]).0@ != user@,
            decreases self.entries@.len() - i,
        {
            if self.entries[i].0.eq(&needle) {
                return Some(i);
            }
            i = i + 1;
        }
        None
    }

    /// Whether a username's table must still be fetched: exactly when no
    /// table is stored for it. A stored table is never re-fetched within
    /// one run.
    pub fn needs_fetch(&self, user: &str) -> (r: bool)
        ensures
            r == !self@.contains_key(user@),
    {
        proof {
            lemma_entries_map_domain(self.entries@, user@);
        }
        match self.find_user(user) {
            Some(_) => false,
            None => true,
        }
    }

    /// Stores the table fetched once for a username. The rest of the run
    /// resolves that user from this table alone.
    pub fn store(&mut self, user: &str, table: Vec<Option<String>>)
        requires
            old(self).wf(),
            !old(self)@.contains_key(user@),
        ensures
            final(self).wf(),
            final(self)@ == old(self)@.insert(user@, table.deep_view()),
    {
        proof {
            lemma_entries_map_domain(self.entries@, user@);
        }
        self.entries.push((user.to_owned(), table));
        proof {
            assert(self.entries@.drop_last() =~= old(self).entries@);
        }
    }

    /// Resolves one assignment number against a stored table: a present
    /// slot yields its address; an absent one (out of range, or never
    /// submitted) is the unknown-homework error — never a silent skip.
    pub fn resolve(&self, user: &str, hw: usize) -> (r: Result<String, GscError>)
        requires
            self.wf(),
            self@.contains_key(user@),
        ensures
            ({
                let table = self@[user@];
                &&& (r is Ok <==> hw < table.len() && table[hw as int] is Some)
                &&& (r matches Ok(u) ==> table[hw as int] matches Some(v) && u@ == v)
                &&& (r matches Err(e) ==> e == GscError::UnknownHomework(hw))
            }),
    {
        proof {
            lemma_entries_map_domain(self.entries@, user@);
        }
        match self.find_user(user) {
            Some(i) => {
                proof {
                    lemma_entries_map_at(self.entries@, i as int);
                }
                let table = &self.entries[i].1;
                if hw < table.len() {
                    match &table[hw] {
                        Some(uri) => Ok(uri.clone()),
                        None => Err(GscError::UnknownHomework(hw)),
                    }
                } else {
                    Err(GscError::UnknownHomework(hw))
                }
            }
            None => {
                proof {
                    assert(false);
                }
                Err(GscError::UnknownHomework(hw))
            }
        }
    }
}

/// A sparse table extended so slot `n` holds `uri`: grown with absent
/// slots as needed, every other slot kept.
pub open spec fn table_set(
    t: Seq<Option<Seq<char>>>,
    n: int,
    uri: Seq<char>,
) -> Seq<Option<Seq<char>>> {
    let grown = if n < t.len() {
        t
    } else {
        t + Seq::new((n + 1 - t.len()) as nat, |i: int| None)
    };
    grown.update(n, Some(uri))
}

/// The sparse table a submission list denotes: one slot per assignment
/// number seen, holding the endpoint-qualified address of that
/// submission; numbers never seen stay absent.
pub open spec fn table_of(subs: Seq<SubmissionRecord>, endpoint: Seq<char>) -> Seq<
    Option<Seq<char>>,
>
    decreases subs.len(),
{
    if subs.len() == 0 {
        Seq::empty()
    } else {
        table_set(
            table_of(subs.drop_last(), endpoint),
            subs.last().assignment_number as int,
            endpoint + subs.last().uri@,
        )
    }
}

/// Builds a username's sparse submission table from the submission list
/// fetched for that user: one slot per assignment number, holding the
/// endpoint-qualified address; unseen numbers remain absent.
pub fn build_table(subs: &Vec<SubmissionRecord>, endpoint: &str) -> (r: Vec<Option<String>>)
    requires
        forall|i: int|
            0 <= i < subs@.len() ==> (#[trigger] subs@[i]).assignment_number < usize::MAX,
    ensures
        r.deep_view() == table_of(subs@, endpoint@),
{
    let mut table: Vec<Option<String>> = Vec::new();
    let mut i: usize = 0;
    while i < subs.len()
        invariant
            i <= subs@.len(),
            forall|j: int|
                0 <= j < subs@.len() ==> (#[trigger] subs@[j]).assignment_number < usize::MAX,
            table.deep_view() == table_of(subs@.take(i as int), endpoint@),
        decreases subs@.len() - i,
    {
        let ghost t0 = table_of(subs@.take(i as int), endpoint@);
        proof {
            assert(subs@.take(i + 1).drop_last() =~= subs@.take(i as int));
            assert(subs@.take(i + 1).last() == subs@[i as int]);
        }
        let number: usize = subs[i].assignment_number;
        while number >= table.len()
            invariant
                number < usize::MAX,
                t0.len() <= table.deep_view().len(),
                table.deep_view().len() <= number + 1 || table.deep_view().len() == t0.len(),
                t0 == table.deep_view().take(t0.len() as int),
                forall|k: int|
                    t0.len() <= k < table.deep_view().len() ==> (#[trigger] table.deep_view()[k])
                        is None,
            decreases number + 1 - table.len(),
        {
            let ghost before = table.deep_view();
            table.push(None);
            proof {
                assert(table.deep_view() =~= before.push(None));
                assert(table.deep_view().take(t0.len() as int) =~= before.take(t0.len() as int));
            }
        }
        let uri = endpoint.to_owned().concat(subs[i].uri.as_str());
        let ghost before = table.deep_view();
        table[number] = Some(uri);
        proof {
            assert(table.deep_view() =~= before.update(number as int, Some(
                endpoint@ + subs@[i as int].uri@,
            )));
            let grown = if (number as int) < t0.len() {
                t0
            } else {
                t0 + Seq::new((number + 1 - t0.len()) as nat, |k: int| None)
            };
            assert(before =~= grown);
            assert(table.deep_view() =~= table_of(subs@.take(i + 1), endpoint@));
        }
        i = i + 1;
    }
    proof {
        assert(subs@.take(subs@.len() as int) =~= subs@);
    }
    table
}

/// Resolving the same (username, assignment) pair any number of times in
/// one run needs at most one fetch for that username: once the table
/// built from the first fetch's payload is stored, the cache reports that
/// no fetch is needed for that user, and the stored table — hence every
/// later resolution for that user — is exactly the one the first payload
/// determined.
pub proof fn lemma_fetch_once(
    m: Map<Seq<char>, Seq<Option<Seq<char>>>>,
    user: Seq<char>,
    table: Seq<Option<Seq<char>>>,
)
    ensures
        m.insert(user, table).contains_key(user),
        m.insert(user, table)[user] == table,
{
}

} // verus!
