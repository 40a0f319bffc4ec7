//! The access gate: who may draw, and from where a claim may come.
//!
//! It only compares. It holds no state, and the principal of a request
//! is handed to it as a plain value.

use crate::engine::{draw, draw_outcome, message_text, DrawError};
use crate::pool::valid_game;
use crate::store::{values_of, DrawnNumber, NumberStore};
use crate::text::{decimal, decimal_text, first_field, is_first_field, same_text};
use vstd::prelude::*;
use vstd::string::*;

verus! {

/// The role that may draw, and the name of the one principal that has it.
pub const ADMIN: &'static str = "admin";

/// What a caller without the required role is told, whatever was asked.
pub const DENIAL: &'static str = "must be authorized";

/// Whether `principal` has `required_role`: it has when the two are equal.
pub fn authorize(principal: &str, required_role: &str) -> (granted: bool)
    ensures
        granted == (principal@ == required_role@),
{
    same_text(principal, required_role)
}

/// The principal of a session: its first entry, and the empty text for a
/// session that nobody has logged in to.
pub fn session_principal(session: &Vec<String>) -> (principal: String)
    ensures
        principal@ == if session@.len() > 0 {
            session@[0]@
        } else {
            Seq::<char>::empty()
        },
{
    if session.len() > 0 {
        session[0].clone()
    } else {
        String::new()
    }
}

/// `username` and `password` are those of the administrator.
pub open spec fn admin_credentials(username: Seq<char>, password: Seq<char>) -> bool {
    username == ADMIN@ && password == ADMIN@
}

/// Logs in: where `username` and `password` are those of the administrator,
/// the session gets `username` as a new last entry. With any other pair the
/// session stays as it is, and nothing tells the caller why.
pub fn login(username: &str, password: &str, session: &mut Vec<String>) -> (accepted: bool)
    ensures
        accepted == admin_credentials(username@, password@),
        accepted ==> final(session)@.len() == old(session)@.len() + 1 && final(session)@.take(
            old(session)@.len() as int,
        ) == old(session)@ && final(session)@.last()@ == username@,
        !accepted ==> final(session)@ == old(session)@,
{
    if same_text(username, ADMIN) && same_text(password, ADMIN) {
        let ghost before = session@;
        session.push(String::from_str(username));
        assert(session@.take(before.len() as int) =~= before);
        true
    } else {
        false
    }
}

/// What the caller is told of a draw of `number` numbers that returned `r`.
pub open spec fn status_text(number: usize, r: Result<Vec<i32>, DrawError>) -> Seq<char> {
    match r {
        Ok(_) => "Added "@ + decimal(number as nat) + " numbers to the list!"@,
        Err(e) => message_text(e),
    }
}

/// A draw of `number` numbers went from `pre` to `post`, returned `r`, and
/// the caller was told `status`.
pub open spec fn drew_and_told(
    pre: Seq<DrawnNumber>,
    number: usize,
    now: u64,
    post: Seq<DrawnNumber>,
    status: Seq<char>,
    r: Result<Vec<i32>, DrawError>,
) -> bool {
    draw_outcome(pre, number, now, post, r) && status == status_text(number, r)
}

/// Draws `number` numbers on behalf of `principal`, and says in a short
/// text how it went.
///
/// Only the administrator may draw. Anyone else gets the denial, and the
/// store is not touched.
pub fn add_number(number: usize, store: &mut NumberStore, principal: &str, now: u64) -> (status:
    String)
    requires
        old(store).wf(),
    ensures
        final(store).wf(),
        principal@ != ADMIN@ ==> status@ == DENIAL@ && final(store)@ == old(store)@,
        principal@ == ADMIN@ ==> exists|r: Result<Vec<i32>, DrawError>| #[trigger]
            drew_and_told(old(store)@, number, now, final(store)@, status@, r),
        valid_game(values_of(old(store)@)) ==> valid_game(values_of(final(store)@)),
{
    if !authorize(principal, ADMIN) {
        return String::from_str(DENIAL);
    }
    let ghost pre = store@;
    let r = draw(number, store, now);
    let status = match &r {
        Ok(_) => {
            let mut text = String::from_str("Added ");
            text.append(decimal_text(number).as_str());
            text.append(" numbers to the list!");
            text
        },
        Err(e) => e.message(),
    };
    assert(drew_and_told(pre, number, now, store@, status@, r));
    status
}

/// The address that a request came from.
pub struct RemoteAddr {
    addr: String,
}

impl View for RemoteAddr {
    type V = Seq<char>;

    closed spec fn view(&self) -> Seq<char> {
        self.addr@
    }
}

impl RemoteAddr {
    /// The address of a request. Where a proxy has forwarded the request and
    /// says so in `forwarded_for`, a list of addresses with commas between
    /// them, it is the first of the list. Otherwise it is `peer`, the
    /// address of the connection.
    pub fn from_parts(forwarded_for: Option<&str>, peer: &str) -> (remote: RemoteAddr)
        ensures
            forwarded_for matches Some(list) ==> is_first_field(list@, remote@),
            forwarded_for is None ==> remote@ == peer@,
    {
        match forwarded_for {
            Some(list) => RemoteAddr { addr: first_field(list) },
            None => RemoteAddr { addr: String::from_str(peer) },
        }
    }

    /// The address as text.
    pub fn addr(self) -> (addr: String)
        ensures
            addr@ == self@,
    {
        self.addr
    }

    /// Whether a claim may come from this address: it may when the address
    /// is `allowed`, the one address on the list.
    pub fn may_claim(&self, allowed: &str) -> (granted: bool)
        ensures
            granted == (self@ == allowed@),
    {
        same_text(self.addr.as_str(), allowed)
    }
}

} // verus!
