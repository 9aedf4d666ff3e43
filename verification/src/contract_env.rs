//! The part of a contract host that the contracts read: who the ledger is,
//! which accounts authorised the call, and the token transfers and events a
//! call asks for.
use vstd::prelude::*;

verus! {

/// An account or contract on the ledger, held as its textual strkey.
#[derive(Debug, Clone, PartialEq, Eq)]
pub struct Address {
    pub key: String,
}

impl View for Address {
    type V = Seq<char>;

    open spec fn view(&self) -> Seq<char> {
        self.key@
    }
}

impl Address {
    pub fn new(key: &str) -> (a: Address)
        ensures
            a@ == key@,
    {
        Address { key: String::from_str(key) }
    }

    /// Two addresses name the same account.
    pub fn same(&self, other: &Address) -> (r: bool)
        ensures
            r == (self@ == other@),
    {
        self.key == other.key
    }

    pub fn duplicate(&self) -> (r: Address)
        ensures
            r == *self,
    {
        Address { key: self.key.clone() }
    }
}

/// Which accounts have authorised the current invocation.
pub enum AuthPolicy {
    /// Every `require_auth` succeeds.
    Everyone,
    /// Only the listed accounts have signed.
    Only(Vec<Address>),
}

impl AuthPolicy {
    pub open spec fn authorizes(&self, who: Seq<char>) -> bool {
        match self {
            AuthPolicy::Everyone => true,
            AuthPolicy::Only(v) => address_listed(v@, who),
        }
    }

    /// `require_auth`: whether the host lets the call go on for `who`.
    pub fn check(&self, who: &Address) -> (r: bool)
        ensures
            r == self.authorizes(who@),
    {
        match self {
            AuthPolicy::Everyone => true,
            AuthPolicy::Only(v) => {
                let mut i: usize = 0;
                while i < v.len()
                    invariant
                        *self == AuthPolicy::Only(*v),
                        0 <= i <= v@.len(),
                        forall|j: int| 0 <= j < i ==> v@[j]@ != who@,
                    decreases v@.len() - i,
                {
                    if v[i].same(who) {
                        assert(v@[i as int]@ == who@);
                        assert(address_listed(v@, who@));
                        return true;
                    }
                    i = i + 1;
                }
                false
            },
        }
    }
}

/// `who` is one of the listed accounts.
pub open spec fn address_listed(v: Seq<Address>, who: Seq<char>) -> bool {
    exists|i: int| 0 <= i < v.len() && #[trigger] v[i]@ == who
}

/// A token movement that a successful invocation performs.
#[derive(Debug, Clone)]
pub struct Transfer {
    pub from: Address,
    pub to: Address,
    pub amount: i128,
}

pub open spec fn transfer_view(t: Transfer) -> (Seq<char>, Seq<char>, i128) {
    (t.from@, t.to@, t.amount)
}

/// Why the host aborts an invocation (a panic inside the contract).
#[derive(Debug, Clone, PartialEq, Eq)]
pub enum Trap {
    /// `require_auth` failed for this account, which did not sign.
    NotAuthorized(Address),
    /// Checked arithmetic overflowed.
    Overflow,
    /// A storage entry that the code unwraps is absent.
    MissingEntry,
}

/// How an invocation that does not return normally ends.
#[derive(Debug, Clone, PartialEq, Eq)]
pub enum Failure<E> {
    /// The contract returned one of its own errors.
    Error(E),
    /// The host aborted the invocation.
    Trap(Trap),
}

/// The host context of one invocation.
pub struct Env<Ev> {
    /// Current ledger sequence number.
    pub ledger_sequence: u32,
    /// The contract's own address.
    pub contract: Address,
    /// Who authorised the invocation.
    pub auth: AuthPolicy,
    /// Transfers asked for so far, in order.
    pub transfers: Vec<Transfer>,
    /// Events published so far, in order.
    pub events: Vec<Ev>,
}

/// `require_auth` for `who`: the invocation goes on only if `who` signed.
pub fn require_auth<Ev, E>(env: &Env<Ev>, who: &Address) -> (r: Result<(), Failure<E>>)
    ensures
        r is Ok <==> env.auth.authorizes(who@),
        r is Err ==> r == Err::<(), Failure<E>>(Failure::Trap(Trap::NotAuthorized(*who))),
{
    if env.auth.check(who) {
        Ok(())
    } else {
        Err(Failure::Trap(Trap::NotAuthorized(who.duplicate())))
    }
}

impl<Ev> Env<Ev> {
    pub fn new(ledger_sequence: u32, contract: Address, auth: AuthPolicy) -> (e: Env<Ev>)
        ensures
            e.ledger_sequence == ledger_sequence,
            e.contract@ == contract@,
            e.auth == auth,
            e.transfers@.len() == 0,
            e.events@.len() == 0,
    {
        Env { ledger_sequence, contract, auth, transfers: Vec::new(), events: Vec::new() }
    }

    /// The host parts that an invocation leaves alone.
    pub open spec fn same_host(self, other: Self) -> bool {
        &&& self.ledger_sequence == other.ledger_sequence
        &&& self.contract@ == other.contract@
        &&& self.auth == other.auth
    }
}

} // verus!
