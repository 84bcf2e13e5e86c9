//! The session manager: tokens bound to a user until they expire, are
//! given up, or their user is removed or edited.

use vstd::prelude::*;
use crate::string_map::StringMap;

verus! {

/// How long a session lasts, in seconds.
pub const AUTH_TIMEOUT_SECONDS: u64 = 1800;

/// A session: the instant at which it ends and the user who owns it.
#[derive(Debug)]
pub struct Session {
    pub expiry: u64,
    pub owner: String,
}

/// The content of a session.
pub struct SessionView {
    pub expiry: u64,
    pub owner: Seq<char>,
}

impl View for Session {
    type V = SessionView;

    open spec fn view(&self) -> SessionView {
        SessionView { expiry: self.expiry, owner: self.owner@ }
    }
}

/// The tokens that a user owns.
pub open spec fn tokens_of(tokens: Map<Seq<char>, SessionView>, user: Seq<char>) -> Set<
    Seq<char>,
> {
    Set::new(|t: Seq<char>| tokens.contains_key(t) && tokens[t].owner == user)
}

/// The reverse index: for every user who owns a token, the tokens owned.
pub open spec fn user_index(tokens: Map<Seq<char>, SessionView>) -> Map<
    Seq<char>,
    Set<Seq<char>>,
> {
    Map::new(
        |u: Seq<char>| exists|t: Seq<char>| tokens.contains_key(t) && #[trigger] tokens[t].owner == u,
        |u: Seq<char>| tokens_of(tokens, u),
    )
}

/// The token map without the sessions of a user.
pub open spec fn without_user(tokens: Map<Seq<char>, SessionView>, user: Seq<char>) -> Map<
    Seq<char>,
    SessionView,
> {
    Map::new(
        |t: Seq<char>| tokens.contains_key(t) && tokens[t].owner != user,
        |t: Seq<char>| tokens[t],
    )
}

/// Whether a session is still active at an instant.
pub open spec fn active(session: SessionView, now: u64) -> bool {
    now < session.expiry
}

/// Purging a token twice leaves what purging it once leaves: the token is in
/// neither the token map nor the reverse index, and the second purge changes
/// nothing.
pub proof fn lemma_purge_idempotent(tokens: Map<Seq<char>, SessionView>, token: Seq<char>)
    ensures
        !tokens.remove(token).contains_key(token),
        tokens.remove(token).remove(token) == tokens.remove(token),
        forall|u: Seq<char>| !tokens_of(tokens.remove(token), u).contains(token),
        user_index(tokens.remove(token).remove(token)) == user_index(tokens.remove(token)),
{
    assert(tokens.remove(token).remove(token) =~= tokens.remove(token));
}

/// Once the sessions of a user are purged, no token of that user is left in
/// the token map and the reverse index has no entry for the user; the
/// sessions of every other user stay as they were.
pub proof fn lemma_cascade(tokens: Map<Seq<char>, SessionView>, user: Seq<char>)
    ensures
        forall|t: Seq<char>| #[trigger]
            without_user(tokens, user).contains_key(t) ==> without_user(tokens, user)[t].owner
                != user,
        tokens_of(without_user(tokens, user), user) == Set::<Seq<char>>::empty(),
        !user_index(without_user(tokens, user)).contains_key(user),
        forall|u: Seq<char>|
            u != user ==> #[trigger] tokens_of(without_user(tokens, user), u) == tokens_of(
                tokens,
                u,
            ),
        without_user(without_user(tokens, user), user) == without_user(tokens, user),
{
    assert(tokens_of(without_user(tokens, user), user) =~= Set::<Seq<char>>::empty());
    assert forall|u: Seq<char>| u != user implies #[trigger] tokens_of(
        without_user(tokens, user),
        u,
    ) == tokens_of(tokens, u) by {
        assert(tokens_of(without_user(tokens, user), u) =~= tokens_of(tokens, u));
    }
    assert(without_user(without_user(tokens, user), user) =~= without_user(tokens, user));
}

proof fn lemma_take_contains(order: Seq<Seq<char>>, i: int, t: Seq<char>)
    requires
        0 <= i < order.len(),
    ensures
        order.take(i + 1).contains(t) <==> order.take(i).contains(t) || order[i] == t,
{
    let shorter = order.take(i);
    let longer = order.take(i + 1);
    if longer.contains(t) {
        let j = choose|j: int| 0 <= j < longer.len() && longer[j] == t;
        if j < i {
            assert(shorter[j] == t);
        }
    }
    if shorter.contains(t) {
        let j = choose|j: int| 0 <= j < shorter.len() && shorter[j] == t;
        assert(longer[j] == t);
    }
    if order[i] == t {
        assert(longer[i] == t);
    }
}

/// Calls `Uuid::new_v4` and writes it in the hyphenated form: 36 characters,
/// random in all but the hyphens and the version and variant digits.
#[verifier::external_body]
pub(crate) fn fresh_token() -> (token: String)
    ensures
        token@.len() == 36,
{
    uuid::Uuid::new_v4().to_string()
}

/// The texts of a list of strings.
pub open spec fn list_view(list: Seq<String>) -> Seq<Seq<char>> {
    Seq::new(list.len(), |i: int| list[i]@)
}

proof fn lemma_push_contains(list: Seq<Seq<char>>, added: Seq<char>, t: Seq<char>)
    ensures
        list.push(added).contains(t) <==> list.contains(t) || t == added,
{
    let longer = list.push(added);
    if longer.contains(t) {
        let j = choose|j: int| 0 <= j < longer.len() && longer[j] == t;
        if j < list.len() {
            assert(list[j] == t);
        }
    }
    if list.contains(t) {
        let j = choose|j: int| 0 <= j < list.len() && list[j] == t;
        assert(longer[j] == t);
    }
    if t == added {
        assert(longer[list.len() as int] == t);
    }
}

proof fn lemma_remove_contains(list: Seq<Seq<char>>, at: int, t: Seq<char>)
    requires
        list.no_duplicates(),
        0 <= at < list.len(),
    ensures
        list.remove(at).no_duplicates(),
        list.remove(at).contains(t) <==> list.contains(t) && t != list[at],
{
    let shorter = list.remove(at);
    assert forall|i: int, j: int| 0 <= i < j < shorter.len() implies shorter[i] != shorter[j] by {
        let i0 = if i < at { i } else { i + 1 };
        let j0 = if j < at { j } else { j + 1 };
        assert(shorter[i] == list[i0] && shorter[j] == list[j0]);
    }
    if shorter.contains(t) {
        let j = choose|j: int| 0 <= j < shorter.len() && shorter[j] == t;
        let j0 = if j < at { j } else { j + 1 };
        assert(list[j0] == t);
    }
    if list.contains(t) && t != list[at] {
        let j0 = choose|j: int| 0 <= j < list.len() && list[j] == t;
        let j = if j0 < at { j0 } else { j0 - 1 };
        assert(shorter[j] == t);
    }
}

/// The sessions that are open, each under its token, and for each user the
/// tokens of that user's sessions.
pub struct SessionManager {
    tokens: StringMap<Session>,
    by_user: StringMap<Vec<String>>,
}

impl View for SessionManager {
    type V = Map<Seq<char>, SessionView>;

    closed spec fn view(&self) -> Map<Seq<char>, SessionView> {
        Map::new(|t: Seq<char>| self.tokens@.contains_key(t), |t: Seq<char>| self.tokens@[t]@)
    }
}

impl SessionManager {
    /// The reverse index as it is stored: for each user with a session, the
    /// tokens of that user's sessions.
    pub closed spec fn index(&self) -> Map<Seq<char>, Set<Seq<char>>> {
        Map::new(
            |u: Seq<char>| self.by_user@.contains_key(u),
            |u: Seq<char>| list_view(self.by_user@[u]@).to_set(),
        )
    }

    /// Whether the stored list of a user holds a token.
    spec fn listed(&self, u: Seq<char>, t: Seq<char>) -> bool {
        self.by_user@.contains_key(u) && list_view(self.by_user@[u]@).contains(t)
    }

    /// Whether a token is open and owned by a user.
    spec fn owned(&self, u: Seq<char>, t: Seq<char>) -> bool {
        self.tokens@.contains_key(t) && self.tokens@[t].owner@ == u
    }

    /// No token occurs twice, and the reverse index lists under each user
    /// exactly the tokens that the token map gives that user, each once, with
    /// no entry for a user without a session.
    pub closed spec fn wf(&self) -> bool {
        &&& self.tokens.wf()
        &&& self.by_user.wf()
        &&& forall|u: Seq<char>, t: Seq<char>| #[trigger] self.listed(u, t) <==> #[trigger] self.owned(u, t)
        &&& forall|u: Seq<char>| #[trigger]
            self.by_user@.contains_key(u) ==> self.by_user@[u]@.len() > 0 && list_view(
                self.by_user@[u]@,
            ).no_duplicates()
    }

    /// The stored reverse index is the one that the token map determines.
    pub proof fn lemma_index(&self)
        requires
            self.wf(),
        ensures
            self.index() == user_index(self@),
            self@.dom().finite(),
    {
        self.tokens.lemma_lists();
        assert(self@.dom() =~= self.tokens@.dom());
        assert forall|u: Seq<char>| self.index().contains_key(u) == user_index(
            self@,
        ).contains_key(u) by {
            if self.by_user@.contains_key(u) {
                let t = list_view(self.by_user@[u]@)[0];
                assert(self.listed(u, t));
                assert(self.owned(u, t));
                assert(self@.contains_key(t) && self@[t].owner == u);
            }
            if user_index(self@).contains_key(u) {
                let t = choose|t: Seq<char>| self@.contains_key(t) && #[trigger] self@[t].owner == u;
                assert(self.owned(u, t));
                assert(self.listed(u, t));
            }
        }
        assert forall|u: Seq<char>| #[trigger] self.index().contains_key(u) implies self.index()[u]
            =~= user_index(self@)[u] by {
            assert forall|t: Seq<char>| self.index()[u].contains(t) == tokens_of(
                self@,
                u,
            ).contains(t) by {
                if self.index()[u].contains(t) {
                    assert(self.listed(u, t));
                    assert(self.owned(u, t));
                }
                if tokens_of(self@, u).contains(t) {
                    assert(self.owned(u, t));
                    assert(self.listed(u, t));
                }
            }
        }
        assert(self.index() =~~= user_index(self@));
    }

    /// A session manager without sessions.
    pub fn new() -> (sessions: Self)
        ensures
            sessions.wf(),
            sessions@ == Map::<Seq<char>, SessionView>::empty(),
    {
        let sessions = SessionManager { tokens: StringMap::new(), by_user: StringMap::new() };
        assert(sessions@ =~= Map::<Seq<char>, SessionView>::empty());
        sessions
    }

    /// The number of open sessions.
    pub fn len(&self) -> (n: usize)
        requires
            self.wf(),
        ensures
            n == self@.len(),
    {
        proof {
            self.tokens.lemma_lists();
            assert(self@.dom() =~= self.tokens@.dom());
        }
        self.tokens.len()
    }

    /// Enters a token that is not open into the list of its owner.
    fn enlist(&mut self, owner: &String, token: String)
        requires
            old(self).tokens.wf(),
            old(self).by_user.wf(),
            !old(self).listed(owner@, token@),
            forall|u: Seq<char>| #[trigger]
                old(self).by_user@.contains_key(u) ==> old(self).by_user@[u]@.len() > 0
                    && list_view(old(self).by_user@[u]@).no_duplicates(),
        ensures
            final(self).tokens == old(self).tokens,
            final(self).by_user.wf(),
            forall|u: Seq<char>, t: Seq<char>| #[trigger]
                final(self).listed(u, t) <==> old(self).listed(u, t) || (u == owner@ && t
                    == token@),
            forall|u: Seq<char>| #[trigger]
                final(self).by_user@.contains_key(u) ==> final(self).by_user@[u]@.len() > 0
                    && list_view(final(self).by_user@[u]@).no_duplicates(),
    {
        let ghost before = *self;
        let mut list: Vec<String> = match self.by_user.remove(owner) {
            Some(list) => list,
            None => Vec::new(),
        };
        let ghost prior = list@;
        list.push(token);
        proof {
            assert(list_view(list@) =~= list_view(prior).push(token@));
            assert forall|i: int, j: int| 0 <= i < j < list@.len() implies list_view(list@)[i]
                != list_view(list@)[j] by {
                if j == prior.len() {
                    assert(list_view(prior)[i] == list_view(list@)[i]);
                    if list_view(prior)[i] == token@ {
                        assert(list_view(prior).contains(token@));
                    }
                } else {
                    assert(list_view(prior)[i] == list_view(list@)[i]);
                    assert(list_view(prior)[j] == list_view(list@)[j]);
                }
            }
        }
        let _ = self.by_user.insert(owner.clone(), list);
        proof {
            assert forall|u: Seq<char>, t: Seq<char>| #[trigger]
                self.listed(u, t) <==> before.listed(u, t) || (u == owner@ && t == token@) by {
                if u == owner@ {
                    lemma_push_contains(list_view(prior), token@, t);
                }
            }
            assert forall|u: Seq<char>| #[trigger] self.by_user@.contains_key(u) implies self.by_user@[u]@.len()
                > 0 && list_view(self.by_user@[u]@).no_duplicates() by {
                if u != owner@ {
                    assert(before.by_user@.contains_key(u));
                }
            }
        }
    }

    /// Strikes an open token from the list of its owner.
    fn delist(&mut self, owner: &String, token: &String)
        requires
            old(self).tokens.wf(),
            old(self).by_user.wf(),
            old(self).listed(owner@, token@),
            forall|u: Seq<char>| #[trigger]
                old(self).by_user@.contains_key(u) ==> old(self).by_user@[u]@.len() > 0
                    && list_view(old(self).by_user@[u]@).no_duplicates(),
        ensures
            final(self).tokens == old(self).tokens,
            final(self).by_user.wf(),
            forall|u: Seq<char>, t: Seq<char>| #[trigger]
                final(self).listed(u, t) <==> old(self).listed(u, t) && !(u == owner@ && t
                    == token@),
            forall|u: Seq<char>| #[trigger]
                final(self).by_user@.contains_key(u) ==> final(self).by_user@[u]@.len() > 0
                    && list_view(final(self).by_user@[u]@).no_duplicates(),
    {
        let ghost before = *self;
        let mut list: Vec<String> = match self.by_user.remove(owner) {
            Some(list) => list,
            None => Vec::new(),
        };
        let ghost prior = list@;
        let mut at: usize = 0;
        while at < list.len() && !(list[at] == *token)
            invariant
                list@ == prior,
                at <= list@.len(),
                forall|j: int| 0 <= j < at ==> list_view(prior)[j] != token@,
            decreases list@.len() - at,
        {
            at += 1;
        }
        proof {
            let j = choose|j: int| 0 <= j < prior.len() && list_view(prior)[j] == token@;
            assert(at < prior.len());
            assert(list_view(prior)[at as int] == token@);
        }
        let _ = list.remove(at);
        proof {
            assert(list_view(list@) =~= list_view(prior).remove(at as int));
            lemma_remove_contains(list_view(prior), at as int, token@);
        }
        let ghost left = list@;
        if list.len() > 0 {
            let _ = self.by_user.insert(owner.clone(), list);
        }
        proof {
            assert forall|u: Seq<char>, t: Seq<char>| #[trigger]
                self.listed(u, t) <==> before.listed(u, t) && !(u == owner@ && t == token@) by {
                if u == owner@ {
                    lemma_remove_contains(list_view(prior), at as int, t);
                    if left.len() == 0 {
                        if list_view(left).contains(t) {
                            let j = choose|j: int|
                                0 <= j < list_view(left).len() && list_view(left)[j] == t;
                        }
                    }
                }
            }
            assert forall|u: Seq<char>| #[trigger] self.by_user@.contains_key(u) implies self.by_user@[u]@.len()
                > 0 && list_view(self.by_user@[u]@).no_duplicates() by {
                if u != owner@ {
                    assert(before.by_user@.contains_key(u));
                }
            }
        }
    }

    /// Purges the token from the token map and from the reverse index, and
    /// says whether it was there. Purging an absent token changes nothing.
    pub fn purge(&mut self, token: &String) -> (was_open: bool)
        requires
            old(self).wf(),
        ensures
            final(self).wf(),
            was_open == old(self)@.contains_key(token@),
            final(self)@ == old(self)@.remove(token@),
            !final(self)@.contains_key(token@),
            !was_open ==> final(self)@ == old(self)@,
    {
        let ghost before = *self;
        match self.tokens.remove(token) {
            Some(session) => {
                let ghost mid = *self;
                proof {
                    assert(before.owned(session.owner@, token@));
                    assert(before.listed(session.owner@, token@));
                }
                self.delist(&session.owner, token);
                proof {
                    assert(self@ =~= before@.remove(token@));
                    assert forall|u: Seq<char>, t: Seq<char>| #[trigger]
                        self.listed(u, t) <==> #[trigger] self.owned(u, t) by {
                        assert(mid.listed(u, t) == before.listed(u, t));
                        assert(before.listed(u, t) <==> before.owned(u, t));
                    }
                }
                true
            },
            None => {
                proof {
                    assert(self@ =~= before@);
                    assert(self@ =~= before@.remove(token@));
                    assert forall|u: Seq<char>, t: Seq<char>| #[trigger]
                        self.listed(u, t) <==> #[trigger] self.owned(u, t) by {
                        assert(before.listed(u, t) <==> before.owned(u, t));
                    }
                }
                false
            },
        }
    }

    /// Opens a session for the user under the token. It ends one session
    /// lifetime after the given instant, which is returned. A session that
    /// was open under the same token is replaced.
    pub fn register(&mut self, token: String, owner: &String, now: u64) -> (expiry: u64)
        requires
            old(self).wf(),
            now + AUTH_TIMEOUT_SECONDS <= u64::MAX,
        ensures
            final(self).wf(),
            expiry == now + AUTH_TIMEOUT_SECONDS,
            final(self)@ == old(self)@.insert(
                token@,
                SessionView { expiry: expiry, owner: owner@ },
            ),
    {
        let ghost before = *self;
        let _ = self.purge(&token);
        let ghost cleared = *self;
        let expiry: u64 = now + AUTH_TIMEOUT_SECONDS;
        let session = Session { expiry, owner: owner.clone() };
        let ghost opened = session;
        let _ = self.tokens.insert(token.clone(), session);
        let ghost mid = *self;
        proof {
            assert(mid.tokens@ == cleared.tokens@.insert(token@, opened));
            assert(mid@ =~= cleared@.insert(token@, opened@));
            assert(!cleared.owned(owner@, token@));
            assert(!cleared.listed(owner@, token@));
            assert(mid.listed(owner@, token@) == cleared.listed(owner@, token@));
        }
        self.enlist(owner, token);
        proof {
            assert(self@ =~= mid@);
            assert(self@ =~= before@.insert(token@, SessionView { expiry: expiry, owner: owner@ }));
            assert forall|u: Seq<char>, t: Seq<char>| #[trigger]
                self.listed(u, t) <==> #[trigger] self.owned(u, t) by {
                assert(mid.listed(u, t) == cleared.listed(u, t));
                assert(cleared.listed(u, t) <==> cleared.owned(u, t));
            }
        }
        expiry
    }

    /// Looks a token up at an instant. An active session gives its owner and
    /// stays. An expired session is purged and gives nothing, as an absent
    /// token does.
    pub fn authenticate(&mut self, token: &String, now: u64) -> (owner: Option<String>)
        requires
            old(self).wf(),
        ensures
            final(self).wf(),
            owner is Some <==> old(self)@.contains_key(token@) && active(
                old(self)@[token@],
                now,
            ),
            owner matches Some(u) ==> u@ == old(self)@[token@].owner && final(self)@ == old(self)@,
            owner is None ==> final(self)@ == old(self)@.remove(token@),
    {
        let found: Option<String> = match self.tokens.get(token) {
            Some(session) => {
                if now < session.expiry {
                    Some(session.owner.clone())
                } else {
                    None
                }
            },
            None => None,
        };
        match found {
            Some(user) => Some(user),
            None => {
                let _ = self.purge(token);
                None
            },
        }
    }

    /// The tokens that the user owns, each once.
    pub fn tokens_for(&self, user: &String) -> (owned: Vec<String>)
        requires
            self.wf(),
        ensures
            list_view(owned@).no_duplicates(),
            list_view(owned@).to_set() == tokens_of(self@, user@),
            owned@.len() == tokens_of(self@, user@).len(),
    {
        let mut owned: Vec<String> = Vec::new();
        match self.by_user.get(user) {
            Some(list) => {
                let mut i: usize = 0;
                while i < list.len()
                    invariant
                        i <= list@.len(),
                        owned@.len() == i,
                        forall|j: int| 0 <= j < i ==> (#[trigger] owned@[j])@ == list@[j]@,
                    decreases list@.len() - i,
                {
                    owned.push(list[i].clone());
                    i += 1;
                }
                proof {
                    assert(list_view(owned@) =~= list_view(list@));
                    assert forall|t: Seq<char>| list_view(list@).to_set().contains(t)
                        == tokens_of(self@, user@).contains(t) by {
                        assert(self.listed(user@, t) <==> self.owned(user@, t));
                    }
                    assert(list_view(owned@).to_set() =~= tokens_of(self@, user@));
                    list_view(owned@).unique_seq_to_set();
                }
            },
            None => {
                proof {
                    assert forall|t: Seq<char>| !tokens_of(self@, user@).contains(t) by {
                        assert(self.listed(user@, t) <==> self.owned(user@, t));
                    }
                    assert(list_view(owned@).to_set() =~= tokens_of(self@, user@));
                    assert(tokens_of(self@, user@) =~= Set::<Seq<char>>::empty());
                }
            },
        }
        owned
    }

    /// Purges every session of the user from the token map and takes the
    /// user's entry out of the reverse index, and says how many sessions
    /// there were. The sessions of other users stay as they are.
    pub fn purge_user(&mut self, user: &String) -> (purged: usize)
        requires
            old(self).wf(),
        ensures
            final(self).wf(),
            final(self)@ == without_user(old(self)@, user@),
            tokens_of(final(self)@, user@) == Set::<Seq<char>>::empty(),
            !final(self).index().contains_key(user@),
            purged == tokens_of(old(self)@, user@).len(),
    {
        let ghost before = *self;
        let owned = self.tokens_for(user);
        let _ = self.by_user.remove(user);
        let ghost names = list_view(owned@);
        let mut i: usize = 0;
        assert(names.take(0) =~= Seq::empty());
        while i < owned.len()
            invariant
                i <= owned@.len(),
                names == list_view(owned@),
                self.tokens.wf(),
                self.by_user.wf(),
                self.by_user@ == before.by_user@.remove(user@),
                forall|t: Seq<char>|
                    self.tokens@.contains_key(t) <==> before.tokens@.contains_key(t)
                        && !names.take(i as int).contains(t),
                forall|t: Seq<char>| #[trigger]
                    self.tokens@.contains_key(t) ==> self.tokens@[t] == before.tokens@[t],
            decreases owned@.len() - i,
        {
            let ghost prior = self.tokens@;
            let _ = self.tokens.remove(&owned[i]);
            proof {
                assert(names[i as int] == owned@[i as int]@);
                assert(self.tokens@ == prior.remove(names[i as int]));
            }
            i += 1;
            proof {
                assert forall|t: Seq<char>|
                    self.tokens@.contains_key(t) <==> before.tokens@.contains_key(t)
                        && !names.take(i as int).contains(t) by {
                    lemma_take_contains(names, i - 1, t);
                    assert(prior.contains_key(t) <==> before.tokens@.contains_key(t)
                        && !names.take(i - 1).contains(t));
                }
            }
        }
        proof {
            assert(names.take(owned@.len() as int) =~= names);
            assert forall|t: Seq<char>| names.contains(t) == before.owned(user@, t) by {
                assert(names.to_set().contains(t) == tokens_of(before@, user@).contains(t));
            }
            assert forall|t: Seq<char>|
                self@.contains_key(t) == without_user(before@, user@).contains_key(t) by {
                assert(self.tokens@.contains_key(t) <==> before.tokens@.contains_key(t)
                    && !names.take(owned@.len() as int).contains(t));
                assert(names.contains(t) == before.owned(user@, t));
            }
            assert(self@ =~= without_user(before@, user@));
            lemma_cascade(before@, user@);
            assert forall|u: Seq<char>, t: Seq<char>| #[trigger]
                self.listed(u, t) <==> #[trigger] self.owned(u, t) by {
                assert(before.listed(u, t) <==> before.owned(u, t));
                assert(self.tokens@.contains_key(t) <==> before.tokens@.contains_key(t)
                    && !names.take(owned@.len() as int).contains(t));
                assert(names.contains(t) == before.owned(user@, t));
            }
            assert forall|u: Seq<char>| #[trigger] self.by_user@.contains_key(u) implies self.by_user@[u]@.len()
                > 0 && list_view(self.by_user@[u]@).no_duplicates() by {
                assert(before.by_user@.contains_key(u));
            }
        }
        owned.len()
    }
}

} // verus!
