//! The Discord values that the logic reads, held as plain values.
use vstd::prelude::*;
use crate::text::{chars_of, lowercase, nat_text, parse_u64, parse_u64_text, push_str, push_u64, same_text_ignoring_case};

verus! {

/// A role of a server.
pub struct Role {
    pub id: u64,
    pub name: String,
}

/// A role as values.
pub struct RoleValue {
    pub id: u64,
    pub name: Seq<char>,
}

impl View for Role {
    type V = RoleValue;

    open spec fn view(&self) -> RoleValue {
        RoleValue { id: self.id, name: self.name@ }
    }
}

impl Role {
    /// A copy of this role.
    pub fn duplicate(&self) -> (r: Role)
        ensures
            r@ == self@,
    {
        Role { id: self.id, name: self.name.clone() }
    }
}

/// The views of a sequence of roles.
pub open spec fn role_values(v: Seq<Role>) -> Seq<RoleValue> {
    v.map_values(|r: Role| r@)
}

/// The ids of a sequence of roles.
pub open spec fn role_ids(v: Seq<RoleValue>) -> Seq<u64> {
    v.map_values(|r: RoleValue| r.id)
}

/// How a user is mentioned in a message.
pub open spec fn user_mention(id: u64) -> Seq<char> {
    "<@"@ + nat_text(id as nat) + ">"@
}

/// The mention of a user.
pub fn mention_user(id: u64) -> (s: String)
    ensures
        s@ == user_mention(id),
{
    let mut s = String::new();
    push_str(&mut s, "<@");
    push_u64(&mut s, id);
    push_str(&mut s, ">");
    s
}

/// Whether `r`'s name equals `name` once both are lowercased.
pub open spec fn named(r: RoleValue, name: Seq<char>) -> bool {
    lowercase(r.name) == lowercase(name)
}

/// The index of the first role whose name equals `name` ignoring case.
pub open spec fn first_named(roles: Seq<RoleValue>, name: Seq<char>) -> Option<int> {
    if exists|i: int| 0 <= i < roles.len() && named(#[trigger] roles[i], name) {
        Some(choose|i: int| 0 <= i < roles.len() && named(#[trigger] roles[i], name) && forall|j: int| 0 <= j < i ==> !named(#[trigger] roles[j], name))
    } else {
        None
    }
}

/// Finds the first role whose name equals `name` ignoring case.
pub fn find_role_named(roles: &Vec<Role>, name: &str) -> (res: Option<usize>)
    ensures
        match res {
            Some(i) => i < roles@.len() && named(roles@[i as int]@, name@) && forall|j: int|
                0 <= j < i ==> !named(#[trigger] roles@[j]@, name@),
            None => forall|j: int| 0 <= j < roles@.len() ==> !named(#[trigger] roles@[j]@, name@),
        },
        res matches Some(i) ==> first_named(role_values(roles@), name@) == Some(i as int),
        res is None ==> first_named(role_values(roles@), name@) is None,
{
    let mut i: usize = 0;
    while i < roles.len()
        invariant
            i <= roles@.len(),
            forall|j: int| 0 <= j < i ==> !named(#[trigger] roles@[j]@, name@),
        decreases roles@.len() - i,
    {
        if same_text_ignoring_case(roles[i].name.as_str(), name) {
            let ghost rv = role_values(roles@);
            proof {
                assert(rv[i as int] == roles@[i as int]@);
                assert(named(rv[i as int], name@));
                assert forall|j: int| 0 <= j < i implies !named(#[trigger] rv[j], name@) by {
                    assert(rv[j] == roles@[j]@);
                }
                let k = choose|k: int| 0 <= k < rv.len() && named(#[trigger] rv[k], name@) && forall|j: int| 0 <= j < k ==> !named(#[trigger] rv[j], name@);
                if k < i {
                } else if k > i {
                    assert(!named(rv[i as int], name@));
                }
            }
            return Some(i);
        }
        i = i + 1;
    }
    proof {
        let rv = role_values(roles@);
        assert forall|k: int| 0 <= k < rv.len() implies !named(#[trigger] rv[k], name@) by {
            assert(rv[k] == roles@[k]@);
        }
    }
    None
}

/// Where some role is named `name`, one at a smallest index is.
proof fn lemma_first_named_exists(roles: Seq<RoleValue>, name: Seq<char>, i: int)
    requires
        0 <= i < roles.len(),
        named(roles[i], name),
    ensures
        exists|m: int| 0 <= m < roles.len() && named(#[trigger] roles[m], name) && forall|j: int| 0 <= j < m ==> !named(#[trigger] roles[j], name),
    decreases i,
{
    if exists|j: int| 0 <= j < i && named(#[trigger] roles[j], name) {
        let j = choose|j: int| 0 <= j < i && named(#[trigger] roles[j], name);
        lemma_first_named_exists(roles, name, j);
    } else {
        assert(forall|j: int| 0 <= j < i ==> !named(#[trigger] roles[j], name));
    }
}

/// The index that `first_named` gives is in range and names a role called `name`.
pub proof fn lemma_first_named_range(roles: Seq<RoleValue>, name: Seq<char>)
    ensures
        first_named(roles, name) matches Some(k) ==> 0 <= k < roles.len() && named(roles[k], name),
{
    if exists|i: int| 0 <= i < roles.len() && named(#[trigger] roles[i], name) {
        let i = choose|i: int| 0 <= i < roles.len() && named(#[trigger] roles[i], name);
        lemma_first_named_exists(roles, name, i);
    }
}

/// A role named `name` with none so named before it is the one `first_named` gives: a role
/// that a set-up created, once the server lists it first under that name, is found again.
pub proof fn lemma_first_named_is(roles: Seq<RoleValue>, name: Seq<char>, k: int)
    requires
        0 <= k < roles.len(),
        named(roles[k], name),
        forall|j: int| 0 <= j < k ==> !named(#[trigger] roles[j], name),
    ensures
        first_named(roles, name) == Some(k),
{
    let m = choose|m: int| 0 <= m < roles.len() && named(#[trigger] roles[m], name) && forall|j: int| 0 <= j < m ==> !named(#[trigger] roles[j], name);
    assert(named(roles[k], name));
    if m < k {
        assert(!named(roles[m], name));
    } else if m > k {
        assert(!named(roles[k], name));
    }
}

/// The user id that serenity's `parse_username` reads from a mention (`<@id>` or `<@!id>`),
/// where it reads one: text of fewer than four characters gives none; otherwise what follows
/// `<@!`, or else `<@`, up to the last character (which is not looked at) is read as a `u64`.
/// Other text gives none.
pub open spec fn username_id(s: Seq<char>) -> Option<u64> {
    if s.len() < 4 {
        None
    } else if s.subrange(0, 3) == "<@!"@ {
        parse_u64(s.subrange(3, s.len() - 1))
    } else if s.subrange(0, 2) == "<@"@ {
        parse_u64(s.subrange(2, s.len() - 1))
    } else {
        None
    }
}

/// Whether the text is empty or ends in an ASCII character.
pub open spec fn ends_ascii(s: Seq<char>) -> bool {
    s.len() == 0 || (s.last() as u32) < 128
}

/// `serenity::utils::parse_username`: it gives `username_id` of the text, reading the digits
/// with `str::parse::<u64>`. It counts and cuts the text in bytes, one byte before its end,
/// which panics inside a character of several bytes; so the text must end in an ASCII
/// character, and then its byte counts and cuts fall where `username_id` counts characters.
#[verifier::external_body]
fn parse_username(s: &str) -> (res: Option<u64>)
    requires
        ends_ascii(s@),
    ensures
        res == username_id(s@),
{
    serenity::utils::parse_username(s)
}

/// The user a command argument names: a mention, or else a user id written out. Text that
/// ends in a character outside ASCII is neither.
pub open spec fn named_user(s: Seq<char>) -> Option<u64> {
    if !ends_ascii(s) {
        None
    } else {
        match username_id(s) {
            Some(id) => Some(id),
            None => parse_u64(s),
        }
    }
}

/// Reads the user a command argument names.
pub fn mention_or_id(s: &str) -> (res: Option<u64>)
    ensures
        res == named_user(s@),
{
    let cs = chars_of(s);
    if cs.len() > 0 && (cs[cs.len() - 1] as u32) >= 128 {
        return None;
    }
    match parse_username(s) {
        Some(id) => Some(id),
        None => parse_u64_text(s),
    }
}

} // verus!
