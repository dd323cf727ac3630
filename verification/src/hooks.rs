//! What is kept for the next connection: passwords, and the arguments that were recorded for it.
use vstd::prelude::*;

use crate::errors::Fault;
#[allow(unused_imports)]
use crate::errors::FaultView;
use crate::text::{owned, same_text_ignoring_case, to_upper};
#[allow(unused_imports)]
use crate::text::{lemma_same_ignoring_case_upper, option_text, same_ignoring_case, upper};
use crate::textmap::TextMap;

verus! {

/// Passwords that replace those of the environment, by user in upper case.
pub struct PasswordOverrides {
    pub passwords: TextMap<String>,
}

impl View for PasswordOverrides {
    type V = Map<Seq<char>, Seq<char>>;

    open spec fn view(&self) -> Map<Seq<char>, Seq<char>> {
        self.passwords@.map_values(|p: String| p@)
    }
}

/// The password that is kept for a user.
pub open spec fn kept_password(m: Map<Seq<char>, Seq<char>>, user: Seq<char>) -> Option<Seq<char>> {
    if m.dom().contains(upper(user)) {
        Some(m[upper(user)])
    } else {
        None
    }
}

pub open spec fn with_password(
    m: Map<Seq<char>, Seq<char>>,
    user: Seq<char>,
    password: Seq<char>,
) -> Map<Seq<char>, Seq<char>> {
    m.insert(upper(user), password)
}

impl PasswordOverrides {
    pub open spec fn wf(self) -> bool {
        self.passwords.wf()
    }

    pub fn new() -> (r: Self)
        ensures
            r.wf(),
            r@ == Map::<Seq<char>, Seq<char>>::empty(),
    {
        let r = PasswordOverrides { passwords: TextMap::new() };
        assert(r@ =~= Map::<Seq<char>, Seq<char>>::empty());
        r
    }

    /// The password kept for a user, whose name is compared without case.
    pub fn password_override_for_user(&self, user: &str) -> (r: Option<String>)
        requires
            self.wf(),
        ensures
            option_text(r) == kept_password(self@, user@),
    {
        let key = to_upper(user);
        match self.passwords.get(key.as_str()) {
            Some(p) => Some(p.clone()),
            None => None,
        }
    }

    /// Keeps a password for a user, in place of one that is there.
    pub fn set_password_override_for_user(&mut self, user: &str, password: &str)
        requires
            old(self).wf(),
        ensures
            final(self).wf(),
            final(self)@ == with_password(old(self)@, user@, password@),
    {
        let ghost before = self@;
        self.passwords.insert(to_upper(user), owned(password));
        proof {
            assert(self@ =~= before.insert(upper(user@), password@));
        }
    }
}

/// A password that was kept for a user is found under any spelling of the name, and those of
/// other users stay.
pub proof fn law_override_ignores_case(
    m: Map<Seq<char>, Seq<char>>,
    user: Seq<char>,
    other: Seq<char>,
    password: Seq<char>,
)
    ensures
        same_ignoring_case(user, other) ==> m.insert(upper(user), password)[upper(other)]
            == password,
        !same_ignoring_case(user, other) ==> (m.insert(upper(user), password).dom().contains(
            upper(other),
        ) == m.dom().contains(upper(other)) && m.insert(upper(user), password)[upper(other)]
            == m[upper(other)]),
{
    lemma_same_ignoring_case_upper(user, other);
}

/// The arguments that were recorded for a connection.
pub struct ConnectArgs {
    pub id: u64,
    pub password: Option<String>,
    pub new_password: Option<String>,
    pub invalid_user_dsn: bool,
}

/// Recorded arguments in the order of recording.
pub struct ConnectArgsQueue {
    pub pending: Vec<ConnectArgs>,
    pub next_id: u64,
}

/// The position of the first entry with an id.
pub open spec fn first_with_id(pending: Seq<ConnectArgs>, id: u64, from: int) -> Option<int>
    decreases pending.len() - from,
{
    if from < 0 || from >= pending.len() {
        None
    } else if pending[from].id == id {
        Some(from)
    } else {
        first_with_id(pending, id, from + 1)
    }
}

/// What follows an id: the ids start again behind the last.
pub open spec fn id_after(id: u64) -> u64 {
    if id == u64::MAX {
        0
    } else {
        (id + 1) as u64
    }
}

impl ConnectArgsQueue {
    /// Every pending entry was given an id before the next one.
    pub open spec fn wf(self) -> bool {
        &&& forall|i: int|
            0 <= i < self.pending@.len() ==> (#[trigger] self.pending@[i]).id < self.next_id
        &&& forall|i: int, j: int|
            0 <= i < j < self.pending@.len() ==> (#[trigger] self.pending@[i]).id < (
            #[trigger] self.pending@[j]).id
    }

    pub fn new() -> (r: Self)
        ensures
            r.wf(),
            r.pending@.len() == 0,
            r.next_id == 1,
    {
        ConnectArgsQueue { pending: Vec::new(), next_id: 1 }
    }

    pub open spec fn recorded(
        self,
        after: ConnectArgsQueue,
        r: u64,
        password: Option<String>,
        new_password: Option<String>,
        invalid_user_dsn: bool,
    ) -> bool {
        &&& r == self.next_id
        &&& after.next_id == id_after(self.next_id)
        &&& after.pending@ == self.pending@.push(
            (ConnectArgs { id: r, password, new_password, invalid_user_dsn }),
        )
    }

    pub open spec fn consumed(self, after: ConnectArgsQueue, r: ConnectArgs) -> bool {
        &&& after.next_id == self.next_id
        &&& self.pending@.len() > 0 ==> r == self.pending@[0] && after.pending@
            == self.pending@.skip(1)
        &&& self.pending@.len() == 0 ==> r == (ConnectArgs {
            id: 0,
            password: None,
            new_password: None,
            invalid_user_dsn: false,
        }) && after.pending@ == self.pending@
    }

    pub open spec fn discarded(self, after: ConnectArgsQueue, r: bool, id: u64) -> bool {
        &&& after.next_id == self.next_id
        &&& match first_with_id(self.pending@, id, 0) {
            Some(i) => r && after.pending@ == self.pending@.remove(i),
            None => !r && after.pending@ == self.pending@,
        }
    }

    /// Records arguments for the next connection, and says under which id.
    pub fn record_next_connect_args(
        &mut self,
        password: Option<String>,
        new_password: Option<String>,
        invalid_user_dsn: bool,
    ) -> (r: u64)
        ensures
            old(self).recorded(*final(self), r, password, new_password, invalid_user_dsn),
            old(self).wf() && old(self).next_id < u64::MAX ==> final(self).wf(),
    {
        let id = self.next_id;
        self.next_id = if id == u64::MAX {
            0
        } else {
            id + 1
        };
        self.pending.push(ConnectArgs { id, password, new_password, invalid_user_dsn });
        id
    }

    /// Takes what was recorded first. Without any, the arguments are empty.
    pub fn consume_next_connect_args(&mut self) -> (r: ConnectArgs)
        ensures
            old(self).consumed(*final(self), r),
            old(self).wf() ==> final(self).wf(),
    {
        if self.pending.len() > 0 {
            let ghost before = self.pending@;
            let r = self.pending.remove(0);
            proof {
                assert(self.pending@ =~= before.skip(1));
            }
            r
        } else {
            ConnectArgs { id: 0, password: None, new_password: None, invalid_user_dsn: false }
        }
    }

    /// Drops the arguments that were recorded under an id, if they are still pending.
    pub fn discard_pending_connect_args(&mut self, id: u64) -> (r: bool)
        ensures
            old(self).discarded(*final(self), r, id),
            old(self).wf() ==> final(self).wf(),
    {
        let ghost before = self.pending@;
        let mut i: usize = 0;
        while i < self.pending.len()
            invariant
                i <= self.pending@.len(),
                self.pending@ == before,
                self.pending@ == old(self).pending@,
                self.next_id == old(self).next_id,
                first_with_id(before, id, 0) == first_with_id(before, id, i as int),
            decreases self.pending@.len() - i,
        {
            if self.pending[i].id == id {
                self.pending.remove(i);
                proof {
                    assert(self.pending@ =~= before.remove(i as int));
                    assert forall|a: int| 0 <= a < self.pending@.len() implies #[trigger] self.pending@[a]
                        == before[if a < i {
                        a
                    } else {
                        a + 1
                    }] by {}
                }
                return true;
            }
            i = i + 1;
        }
        false
    }
}

/// What was recorded last is dropped by its id, and nothing else with it.
pub proof fn law_discard_undoes_record(queue: ConnectArgsQueue, args: ConnectArgs)
    requires
        queue.wf(),
        args.id == queue.next_id,
    ensures
        first_with_id(queue.pending@.push(args), args.id, 0) == Some(queue.pending@.len() as int),
        queue.pending@.push(args).remove(queue.pending@.len() as int) == queue.pending@,
{
    let n = queue.pending@.len() as int;
    lemma_first_with_id_is(queue.pending@.push(args), args.id, 0, n);
    assert(queue.pending@.push(args).remove(n) =~= queue.pending@);
}

proof fn lemma_first_with_id_is(pending: Seq<ConnectArgs>, id: u64, from: int, i: int)
    requires
        0 <= from <= i < pending.len(),
        pending[i].id == id,
        forall|j: int| from <= j < i ==> (#[trigger] pending[j]).id != id,
    ensures
        first_with_id(pending, id, from) == Some(i),
    decreases i - from,
{
    if from < i {
        assert(pending[from].id != id);
        lemma_first_with_id_is(pending, id, from + 1, i);
    }
}

/// The variables of the environment that passwords may come from.
pub struct PasswordEnvironment {
    /// `ORACLEDB_SHIM_PASSWORD`.
    pub shim_password: Option<String>,
    /// `PYO_TEST_MAIN_USER`.
    pub main_user: Option<String>,
    /// `PYO_TEST_MAIN_PASSWORD`.
    pub main_password: Option<String>,
    /// `PYO_TEST_PASSWORD`.
    pub password: Option<String>,
    /// `PYO_TEST_PROXY_USER`.
    pub proxy_user: Option<String>,
    /// `PYO_TEST_PROXY_PASSWORD`.
    pub proxy_password: Option<String>,
}

pub open spec fn main_password_missing() -> Seq<char> {
    "oracledb-pyshim cannot read password from ConnectParamsImpl; set PYO_TEST_MAIN_PASSWORD"@
}

pub open spec fn proxy_password_missing() -> Seq<char> {
    "oracledb-pyshim cannot read proxy password from ConnectParamsImpl; set PYO_TEST_PROXY_PASSWORD"@
}

pub open spec fn password_missing() -> Seq<char> {
    "oracledb-pyshim cannot read password from ConnectParamsImpl; set ORACLEDB_SHIM_PASSWORD"@
}

/// The first that is there, else an error.
pub open spec fn first_password(
    a: Option<String>,
    b: Option<String>,
    missing: Seq<char>,
) -> Result<Seq<char>, FaultView> {
    match (a, b) {
        (Some(x), _) => Ok(x@),
        (None, Some(y)) => Ok(y@),
        (None, None) => Err(FaultView::Runtime(missing)),
    }
}

impl PasswordEnvironment {
    /// The password of a user: one that was kept, then the general one, then that of the main or
    /// the proxy user whose name it is, then that of the main user.
    pub open spec fn password_of(self, kept: Option<String>, user: Seq<char>) -> Result<
        Seq<char>,
        FaultView,
    > {
        if kept is Some {
            Ok(kept->0@)
        } else if self.shim_password is Some {
            Ok(self.shim_password->0@)
        } else if self.main_user is Some && same_ignoring_case(user, self.main_user->0@) {
            first_password(self.main_password, self.password, main_password_missing())
        } else if self.proxy_user is Some && self.proxy_user->0@.len() > 0 && same_ignoring_case(
            user,
            self.proxy_user->0@,
        ) {
            first_password(self.proxy_password, self.main_password, proxy_password_missing())
        } else {
            first_password(self.main_password, None, password_missing())
        }
    }

    pub fn env_password_for_user(&self, kept: Option<String>, user: &str) -> (r: Result<
        String,
        Fault,
    >)
        ensures
            match r {
                Ok(p) => self.password_of(kept, user@) == Ok::<Seq<char>, FaultView>(p@),
                Err(f) => self.password_of(kept, user@) == Err::<Seq<char>, FaultView>(f@),
            },
    {
        if let Some(p) = kept {
            return Ok(p);
        }
        if let Some(p) = &self.shim_password {
            return Ok(p.clone());
        }
        if let Some(main_user) = &self.main_user {
            if same_text_ignoring_case(user, main_user.as_str()) {
                return choose_password(
                    &self.main_password,
                    &self.password,
                    "oracledb-pyshim cannot read password from ConnectParamsImpl; set PYO_TEST_MAIN_PASSWORD",
                );
            }
        }
        if let Some(proxy_user) = &self.proxy_user {
            if proxy_user.as_str().unicode_len() > 0 && same_text_ignoring_case(
                user,
                proxy_user.as_str(),
            ) {
                return choose_password(
                    &self.proxy_password,
                    &self.main_password,
                    "oracledb-pyshim cannot read proxy password from ConnectParamsImpl; set PYO_TEST_PROXY_PASSWORD",
                );
            }
        }
        choose_password(
            &self.main_password,
            &None,
            "oracledb-pyshim cannot read password from ConnectParamsImpl; set ORACLEDB_SHIM_PASSWORD",
        )
    }
}

fn choose_password(a: &Option<String>, b: &Option<String>, missing: &str) -> (r: Result<
    String,
    Fault,
>)
    ensures
        match r {
            Ok(p) => first_password(*a, *b, missing@) == Ok::<Seq<char>, FaultView>(p@),
            Err(f) => first_password(*a, *b, missing@) == Err::<Seq<char>, FaultView>(f@),
        },
{
    match a {
        Some(x) => Ok(x.clone()),
        None => match b {
            Some(y) => Ok(y.clone()),
            None => Err(Fault::Runtime(owned(missing))),
        },
    }
}

/// A password that was kept for a user is given back under any spelling of the name; the passwords
/// of other users stay.
pub proof fn law_kept_password_is_given_back(
    m: Map<Seq<char>, Seq<char>>,
    user: Seq<char>,
    other: Seq<char>,
    password: Seq<char>,
)
    ensures
        same_ignoring_case(user, other) ==> kept_password(with_password(m, user, password), other)
            == Some(password),
        !same_ignoring_case(user, other) ==> kept_password(
            with_password(m, user, password),
            other,
        ) == kept_password(m, other),
        kept_password(Map::empty(), user) is None,
{
    lemma_same_ignoring_case_upper(user, other);
}

/// Arguments are taken in the order in which they were recorded, each once and as they were; without
/// any there is no password.
pub proof fn law_arguments_are_taken_in_order(
    q: ConnectArgsQueue,
    recorded: ConnectArgsQueue,
    taken: ConnectArgsQueue,
    again: ConnectArgsQueue,
    id: u64,
    password: Option<String>,
    new_password: Option<String>,
    invalid: bool,
    first: ConnectArgs,
    second: ConnectArgs,
)
    requires
        q.recorded(recorded, id, password, new_password, invalid),
        recorded.consumed(taken, first),
        taken.consumed(again, second),
    ensures
        q.pending@.len() > 0 ==> first == q.pending@[0],
        q.pending@.len() == 0 ==> first.password == password && first.new_password == new_password
            && first.invalid_user_dsn == invalid && first.id == id,
        q.pending@.len() == 0 ==> second.password is None && second.new_password is None
            && !second.invalid_user_dsn,
        q.pending@.len() == 1 ==> second.password == password && second.id == id,
        id == q.next_id && recorded.next_id != id,
        taken.next_id == recorded.next_id,
{
}

/// Discarding takes away the arguments that were recorded under the id, and no others; it says
/// whether they were still there.
pub proof fn law_discard_takes_its_own(
    q: ConnectArgsQueue,
    after: ConnectArgsQueue,
    r: bool,
    id: u64,
    i: int,
)
    requires
        q.wf(),
        q.discarded(after, r, id),
        0 <= i < q.pending@.len(),
    ensures
        q.pending@[i].id == id ==> r && after.pending@ == q.pending@.remove(i),
        !r ==> after.pending@ == q.pending@ && q.pending@[i].id != id,
        r ==> after.pending@.len() == q.pending@.len() - 1,
        after.next_id == q.next_id,
{
    lemma_first_with_id(q.pending@, id, 0);
    if q.pending@[i].id == id {
        assert forall|j: int| 0 <= j < i implies (#[trigger] q.pending@[j]).id != id by {}
        lemma_first_with_id_is(q.pending@, id, 0, i);
    }
}

proof fn lemma_first_with_id(pending: Seq<ConnectArgs>, id: u64, from: int)
    requires
        0 <= from,
    ensures
        match first_with_id(pending, id, from) {
            Some(i) => from <= i < pending.len() && pending[i].id == id,
            None => forall|j: int| from <= j < pending.len() ==> (#[trigger] pending[j]).id != id,
        },
    decreases pending.len() - from,
{
    if from < pending.len() && pending[from].id != id {
        lemma_first_with_id(pending, id, from + 1);
        if first_with_id(pending, id, from + 1) is None {
            assert forall|j: int| from <= j < pending.len() implies (#[trigger] pending[j]).id
                != id by {}
        }
    }
}

/// A password that was kept goes before all others, then the general one, then those of the user.
/// The main user has its own or the test password, the proxy user its own or that of the main user,
/// and anybody else that of the main user. It fails only where all of these are missing.
pub proof fn law_passwords_go_in_order(
    e: PasswordEnvironment,
    kept: Option<String>,
    user: Seq<char>,
)
    ensures
        kept matches Some(p) ==> e.password_of(kept, user) == Ok::<Seq<char>, FaultView>(p@),
        kept is None ==> (e.shim_password matches Some(p) ==> e.password_of(kept, user) == Ok::<
            Seq<char>,
            FaultView,
        >(p@)),
        kept is None && e.shim_password is None ==> {
            let main = e.main_user is Some && same_ignoring_case(user, e.main_user->0@);
            let proxy = !main && e.proxy_user is Some && e.proxy_user->0@.len() > 0
                && same_ignoring_case(user, e.proxy_user->0@);
            &&& main ==> (e.password_of(kept, user) is Ok <==> e.main_password is Some || e.password
                is Some)
            &&& main && e.main_password is None ==> (e.password matches Some(p) ==> e.password_of(
                kept,
                user,
            ) == Ok::<Seq<char>, FaultView>(p@))
            &&& proxy ==> (e.proxy_password matches Some(p) ==> e.password_of(kept, user) == Ok::<
                Seq<char>,
                FaultView,
            >(p@))
            &&& (main || !proxy || e.proxy_password is None) ==> (e.main_password matches Some(p)
                ==> e.password_of(kept, user) == Ok::<Seq<char>, FaultView>(p@))
            &&& !main && !proxy && e.main_password is None ==> e.password_of(kept, user) is Err
        },
{
}

} // verus!
