//! Access levels and credential resolution.

use vstd::prelude::*;

verus! {

/// The ordered access levels: Guest below User below Admin. The ordering is
/// load-bearing: an authorization check passes when the resolved level is at
/// least the required one, never by equality, so Admin satisfies every check
/// that User satisfies.
#[derive(Clone, Copy, Debug, PartialEq, Eq, Structural)]
pub enum Role {
    Guest,
    User,
    Admin,
}

impl Role {
    /// The rank that orders the levels; kept as a documented invariant,
    /// since downstream authorization depends on it.
    pub open spec fn rank(self) -> int {
        match self {
            Role::Guest => 0,
            Role::User => 1,
            Role::Admin => 2,
        }
    }

    /// Does this level satisfy a check that requires `required`?
    pub open spec fn satisfies(self, required: Role) -> bool {
        self.rank() >= required.rank()
    }

    fn rank_value(self) -> (r: u8)
        ensures
            r as int == self.rank(),
    {
        match self {
            Role::Guest => 0,
            Role::User => 1,
            Role::Admin => 2,
        }
    }

    /// The runtime authorization check: is this level at least `required`?
    pub fn at_least(self, required: Role) -> (r: bool)
        ensures
            r == self.satisfies(required),
    {
        self.rank_value() >= required.rank_value()
    }
}

impl Default for Role {
    /// The level a configured user holds when the configuration names none.
    fn default() -> (r: Self)
        ensures
            r == Role::User,
    {
        Role::User
    }
}

/// A configuration-supplied user: name, secret and role. Loaded once at
/// startup by an outside collaborator and immutable for the process lifetime.
#[derive(Debug)]
pub struct UserEntry {
    pub name: String,
    pub password: String,
    pub role: Role,
}

/// A credential presented with a request: username and secret.
#[derive(Debug)]
pub struct Credential {
    pub name: String,
    pub password: String,
}

/// The first configured user bearing the given name, scanning front to back.
pub open spec fn first_with_name(users: Seq<UserEntry>, name: Seq<char>) -> Option<UserEntry>
    decreases users.len(),
{
    if users.len() == 0 {
        None
    } else if users[0].name@ == name {
        Some(users[0])
    } else {
        first_with_name(users.drop_first(), name)
    }
}

/// The level a presented credential resolves to against the configured
/// users: Guest when no credential is presented, when no configured user
/// bears the name, or when the first user bearing the name holds a different
/// secret; otherwise that user's configured role. Resolution never fails
/// with an error — the weakest level is always a valid outcome.
pub open spec fn resolved_role(users: Seq<UserEntry>, cred: Option<Credential>) -> Role {
    match cred {
        None => Role::Guest,
        Some(c) => match first_with_name(users, c.name@) {
            None => Role::Guest,
            Some(u) => if u.password@ == c.password@ {
                u.role
            } else {
                Role::Guest
            },
        },
    }
}

proof fn lemma_first_with_name_found(users: Seq<UserEntry>, name: Seq<char>, i: int)
    requires
        0 <= i < users.len(),
        users[i].name@ == name,
        forall|j: int| 0 <= j < i ==> users[j].name@ != name,
    ensures
        first_with_name(users, name) == Some(users[i]),
    decreases i,
{
    if i > 0 {
        let rest = users.drop_first();
        assert(rest[i - 1] == users[i]);
        assert forall|j: int| 0 <= j < i - 1 implies rest[j].name@ != name by {
            assert(rest[j] == users[j + 1]);
        }
        lemma_first_with_name_found(rest, name, i - 1);
    }
}

proof fn lemma_first_with_name_absent(users: Seq<UserEntry>, name: Seq<char>)
    requires
        forall|j: int| 0 <= j < users.len() ==> users[j].name@ != name,
    ensures
        first_with_name(users, name) == None::<UserEntry>,
    decreases users.len(),
{
    if users.len() > 0 {
        let rest = users.drop_first();
        assert forall|j: int| 0 <= j < rest.len() implies rest[j].name@ != name by {
            assert(rest[j] == users[j + 1]);
        }
        lemma_first_with_name_absent(rest, name);
    }
}

/// Resolves a presented credential to an access level, by the scan the
/// configured user list defines: the first user bearing the presented name
/// decides, and only an exact secret match grants that user's role. The
/// caller attaches the resolved level to the request context and passes it
/// to every gated operation.
pub fn resolve_role(users: &Vec<UserEntry>, cred: Option<Credential>) -> (r: Role)
    ensures
        r == resolved_role(users@, cred),
{
    match cred {
        None => Role::Guest,
        Some(c) => {
            let n = users.len();
            let mut i: usize = 0;
            while i < n
                invariant
                    cred == Some(c),
                    n == users@.len(),
                    i <= n,
                    forall|j: int| 0 <= j < i ==> users@[j].name@ != c.name@,
                decreases n - i,
            {
                if users[i].name == c.name {
                    proof {
                        lemma_first_with_name_found(users@, c.name@, i as int);
                    }
                    if users[i].password == c.password {
                        return users[i].role;
                    } else {
                        return Role::Guest;
                    }
                }
                i += 1;
            }
            proof {
                lemma_first_with_name_absent(users@, c.name@);
            }
            Role::Guest
        },
    }
}

} // verus!
