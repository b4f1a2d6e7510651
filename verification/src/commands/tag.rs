//! Tagging a member with the roles of their Final Fantasy XIV character.
use vstd::prelude::*;
use crate::model::{
    first_named, find_role_named, lemma_first_named_range, mention_user, role_ids, role_values, user_mention, Role, RoleValue,
};
use crate::text::{lowercase, push_str, same_text, same_text_ignoring_case, to_lowercase};

verus! {

/// What the bot keeps about a member it tagged on a server.
pub struct AutotagUser {
    pub user_id: u64,
    pub server_id: u64,
    pub character_id: u64,
    pub character: String,
    pub server: String,
    pub verified: bool,
}

/// Whether `u` is the entry of user `who` on server `on`.
pub open spec fn is_entry(u: AutotagUser, who: u64, on: u64) -> bool {
    u.user_id == who && u.server_id == on
}

/// The index of the first entry of user `who` on server `on`.
pub open spec fn first_entry(users: Seq<AutotagUser>, who: u64, on: u64) -> Option<int> {
    if exists|i: int| 0 <= i < users.len() && is_entry(#[trigger] users[i], who, on) {
        Some(
            choose|i: int|
                0 <= i < users.len() && is_entry(#[trigger] users[i], who, on) && forall|j: int|
                    0 <= j < i ==> !is_entry(#[trigger] users[j], who, on),
        )
    } else {
        None
    }
}

/// Whether `u` records user `who` on server `on` as character `char_id`, named `character`,
/// of `server`, verified or not as `verified` says.
pub open spec fn records(
    u: AutotagUser,
    who: u64,
    on: u64,
    char_id: u64,
    character: Seq<char>,
    server: Seq<char>,
    verified: bool,
) -> bool {
    &&& u.user_id == who
    &&& u.server_id == on
    &&& u.character_id == char_id
    &&& u.character@ == character
    &&& u.server@ == server
    &&& u.verified == verified
}

/// The message given when a verified member tries to tag themselves as another character.
pub open spec fn blocked_message(who: u64, character: Seq<char>, server: Seq<char>) -> Seq<char> {
    user_mention(who) + " is verified as "@ + character + " on "@ + server
        + ", so they cannot switch to another account."@
}

/// Whether a tag may go ahead.
pub enum VerificationCheck {
    /// It may not; the message says why.
    Blocked(String),
    /// It may; `verified` tells whether the member is verified.
    Allowed { verified: bool },
}

/// What the character search found first.
pub struct CharacterHit {
    /// The character's id, where the search gave one as an unsigned integer.
    pub id: Option<u64>,
    /// The character's name, where the search gave one as a string.
    pub name: Option<String>,
}

/// What to do after a character search.
pub enum SearchOutcome {
    /// Tell the user this.
    Reply(String),
    /// Tag the member as the character with this id.
    Tag(u64),
}

/// The message given when no character fits the search.
pub open spec fn not_found_message(name: Seq<char>, server: Seq<char>) -> Seq<char> {
    "Could not find any character by the name "@ + name + " on "@ + server + "."@
}

/// Tags members with the roles of their character.
pub struct Tagger;

impl Tagger {
    /// Whether the tag of user `who` on server `on` as character `char_id` may go ahead:
    /// a verified member cannot switch to another character unless `ignore_verified`.
    pub fn check_verification(
        users: &Vec<AutotagUser>,
        who: u64,
        on: u64,
        char_id: u64,
        ignore_verified: bool,
    ) -> (res: VerificationCheck)
        ensures
            match first_entry(users@, who, on) {
                None => res == VerificationCheck::Allowed { verified: false },
                Some(k) => {
                    let u = users@[k];
                    if u.verified && !ignore_verified && char_id != u.character_id {
                        res matches VerificationCheck::Blocked(m) && m@ == blocked_message(
                            who,
                            u.character@,
                            u.server@,
                        )
                    } else {
                        res == VerificationCheck::Allowed { verified: u.verified }
                    }
                },
            },
    {
        let mut i: usize = 0;
        while i < users.len()
            invariant
                i <= users@.len(),
                forall|j: int| 0 <= j < i ==> !is_entry(#[trigger] users@[j], who, on),
            decreases users@.len() - i,
        {
            let u = &users[i];
            if u.user_id == who && u.server_id == on {
                proof {
                    let k = choose|k: int|
                        0 <= k < users@.len() && is_entry(#[trigger] users@[k], who, on)
                            && forall|j: int| 0 <= j < k ==> !is_entry(#[trigger] users@[j], who, on);
                    if k > i {
                        assert(!is_entry(users@[i as int], who, on));
                    }
                    assert(k == i);
                }
                if u.verified && !ignore_verified && char_id != u.character_id {
                    let mut m = mention_user(who);
                    push_str(&mut m, " is verified as ");
                    push_str(&mut m, u.character.as_str());
                    push_str(&mut m, " on ");
                    push_str(&mut m, u.server.as_str());
                    push_str(&mut m, ", so they cannot switch to another account.");
                    return VerificationCheck::Blocked(m);
                }
                return VerificationCheck::Allowed { verified: u.verified };
            }
            i = i + 1;
        }
        VerificationCheck::Allowed { verified: false }
    }

    /// The step of a tag that writes down the member's character, once it is known: the first
    /// entry of user `who` on server `on` is updated to the character, keeping whether it is
    /// verified, or else an unverified entry is added at the end. No other entry changes.
    pub fn record_tag(
        users: &mut Vec<AutotagUser>,
        who: u64,
        on: u64,
        char_id: u64,
        character: &str,
        server: &str,
    )
        ensures
            match first_entry(old(users)@, who, on) {
                Some(k) => {
                    &&& final(users)@.len() == old(users)@.len()
                    &&& records(final(users)@[k], who, on, char_id, character@, server@, old(users)@[k].verified)
                    &&& forall|i: int| 0 <= i < old(users)@.len() && i != k ==> #[trigger] final(users)@[i] == old(users)@[i]
                },
                None => {
                    &&& final(users)@.len() == old(users)@.len() + 1
                    &&& records(final(users)@[old(users)@.len() as int], who, on, char_id, character@, server@, false)
                    &&& forall|i: int| 0 <= i < old(users)@.len() ==> #[trigger] final(users)@[i] == old(users)@[i]
                },
            },
    {
        let mut i: usize = 0;
        while i < users.len()
            invariant
                i <= users@.len(),
                users@ == old(users)@,
                forall|j: int| 0 <= j < i ==> !is_entry(#[trigger] users@[j], who, on),
            decreases users@.len() - i,
        {
            if users[i].user_id == who && users[i].server_id == on {
                proof {
                    let k = choose|k: int|
                        0 <= k < users@.len() && is_entry(#[trigger] users@[k], who, on)
                            && forall|j: int| 0 <= j < k ==> !is_entry(#[trigger] users@[j], who, on);
                    if k > i {
                        assert(!is_entry(users@[i as int], who, on));
                    }
                    assert(k == i);
                }
                let verified = users[i].verified;
                let entry = AutotagUser {
                    user_id: who,
                    server_id: on,
                    character_id: char_id,
                    character: character.to_owned(),
                    server: server.to_owned(),
                    verified,
                };
                users.set(i, entry);
                return;
            }
            i = i + 1;
        }
        proof {
            assert(!(exists|j: int| 0 <= j < users@.len() && is_entry(#[trigger] users@[j], who, on)));
        }
        users.push(AutotagUser {
            user_id: who,
            server_id: on,
            character_id: char_id,
            character: character.to_owned(),
            server: server.to_owned(),
            verified: false,
        });
    }

    /// Decides what follows a character search for `character_name` on `server`, given the
    /// first character found, if any.
    pub fn search_tag(first: Option<&CharacterHit>, server: &str, character_name: &str) -> (res:
        Result<SearchOutcome, String>)
        ensures
            match first {
                None => res matches Ok(SearchOutcome::Reply(m)) && m@ == not_found_message(
                    character_name@,
                    server@,
                ),
                Some(hit) => match hit.id {
                    None => res matches Err(e) && e@ == "character ID was not a u64"@,
                    Some(id) => match hit.name {
                        None => res matches Err(e) && e@ == "character name was not a string"@,
                        Some(name) => if lowercase(name@) != lowercase(character_name@) {
                            res matches Ok(SearchOutcome::Reply(m)) && m@ == not_found_message(
                                character_name@,
                                server@,
                            )
                        } else {
                            res == Ok::<SearchOutcome, String>(SearchOutcome::Tag(id))
                        },
                    },
                },
            },
    {
        let not_found = {
            let mut m = String::new();
            push_str(&mut m, "Could not find any character by the name ");
            push_str(&mut m, character_name);
            push_str(&mut m, " on ");
            push_str(&mut m, server);
            push_str(&mut m, ".");
            m
        };
        match first {
            None => Ok(SearchOutcome::Reply(not_found)),
            Some(hit) => {
                let id = match hit.id {
                    Some(u) => u,
                    None => return Err("character ID was not a u64".to_owned()),
                };
                let name = match &hit.name {
                    Some(s) => s,
                    None => return Err("character name was not a string".to_owned()),
                };
                if !same_text_ignoring_case(name.as_str(), character_name) {
                    return Ok(SearchOutcome::Reply(not_found));
                }
                Ok(SearchOutcome::Tag(id))
            },
        }
    }
}

// ---------------------------------------------------------------------------
// Limbo roles: roles the bot created that the server's state may not show yet.

/// `l` without its first role with id `id`, if it has one.
pub open spec fn remove_first_id(l: Seq<RoleValue>, id: u64) -> Seq<RoleValue>
    decreases l.len(),
{
    if l.len() == 0 {
        l
    } else if l[0].id == id {
        l.drop_first()
    } else {
        seq![l[0]] + remove_first_id(l.drop_first(), id)
    }
}

/// `l` after, for each id of `ids` in turn, its first role with that id is taken out.
pub open spec fn prune_ids(l: Seq<RoleValue>, ids: Seq<u64>) -> Seq<RoleValue>
    decreases ids.len(),
{
    if ids.len() == 0 {
        l
    } else {
        remove_first_id(prune_ids(l, ids.drop_last()), ids.last())
    }
}

/// No two roles of `l` share an id.
pub open spec fn distinct_ids(l: Seq<RoleValue>) -> bool {
    forall|i: int, j: int| 0 <= i < j < l.len() ==> l[i].id != l[j].id
}

proof fn lemma_remove_first_at(l: Seq<RoleValue>, id: u64, k: int)
    requires
        0 <= k < l.len(),
        l[k].id == id,
        forall|j: int| 0 <= j < k ==> l[j].id != id,
    ensures
        remove_first_id(l, id) == l.remove(k),
    decreases l.len(),
{
    if k > 0 {
        lemma_remove_first_at(l.drop_first(), id, k - 1);
        assert(l.remove(k) == seq![l[0]] + l.drop_first().remove(k - 1));
    }
}

proof fn lemma_remove_first_absent(l: Seq<RoleValue>, id: u64)
    requires
        forall|j: int| 0 <= j < l.len() ==> l[j].id != id,
    ensures
        remove_first_id(l, id) == l,
    decreases l.len(),
{
    if l.len() > 0 {
        lemma_remove_first_absent(l.drop_first(), id);
        assert(seq![l[0]] + l.drop_first() == l);
    }
}

proof fn lemma_remove_first_keeps(l: Seq<RoleValue>, id: u64)
    ensures
        forall|x: RoleValue| #[trigger] remove_first_id(l, id).contains(x) ==> l.contains(x),
        distinct_ids(l) ==> distinct_ids(remove_first_id(l, id)),
        distinct_ids(l) ==> forall|j: int|
            0 <= j < remove_first_id(l, id).len() ==> remove_first_id(l, id)[j].id != id,
    decreases l.len(),
{
    if l.len() > 0 {
        let r = l.drop_first();
        lemma_remove_first_keeps(r, id);
        if l[0].id == id {
            if distinct_ids(l) {
                assert forall|j: int| 0 <= j < r.len() implies r[j].id != id by {
                    assert(l[j + 1] == r[j]);
                }
            }
            assert forall|x: RoleValue| r.contains(x) implies l.contains(x) by {
                let j = choose|j: int| 0 <= j < r.len() && r[j] == x;
                assert(l[j + 1] == x);
            }
        } else {
            let res = seq![l[0]] + remove_first_id(r, id);
            assert forall|x: RoleValue| res.contains(x) implies l.contains(x) by {
                let j = choose|j: int| 0 <= j < res.len() && res[j] == x;
                if j == 0 {
                    assert(l[0] == x);
                } else {
                    assert(res[j] == remove_first_id(r, id)[j - 1]);
                    assert(remove_first_id(r, id).contains(x));
                    assert(r.contains(x));
                    let m = choose|m: int| 0 <= m < r.len() && r[m] == x;
                    assert(l[m + 1] == x);
                }
            }
            if distinct_ids(l) {
                assert(distinct_ids(r)) by {
                    assert forall|i: int, j: int| 0 <= i < j < r.len() implies r[i].id != r[j].id by {
                        assert(l[i + 1] == r[i] && l[j + 1] == r[j]);
                    }
                }
                let rr = remove_first_id(r, id);
                assert forall|i: int, j: int| 0 <= i < j < res.len() implies res[i].id != res[j].id by {
                    if i == 0 {
                        assert(rr.contains(res[j]));
                        let m = choose|m: int| 0 <= m < r.len() && r[m] == res[j];
                        assert(l[m + 1] == res[j]);
                    }
                }
            }
        }
    }
}

/// After the pruning of a limbo that held each id at most once, none of its roles has an
/// id of the server's roles: a role that the server shows is no longer in limbo.
pub proof fn lemma_prune_clears(l: Seq<RoleValue>, ids: Seq<u64>)
    requires
        distinct_ids(l),
    ensures
        distinct_ids(prune_ids(l, ids)),
        forall|j: int, k: int|
            0 <= j < prune_ids(l, ids).len() && 0 <= k < ids.len() ==> #[trigger] prune_ids(
                l,
                ids,
            )[j].id != #[trigger] ids[k],
    decreases ids.len(),
{
    if ids.len() > 0 {
        let p = prune_ids(l, ids.drop_last());
        lemma_prune_clears(l, ids.drop_last());
        lemma_remove_first_keeps(p, ids.last());
        let q = prune_ids(l, ids);
        assert forall|j: int, k: int| 0 <= j < q.len() && 0 <= k < ids.len() implies #[trigger] q[j].id
            != #[trigger] ids[k] by {
            if k < ids.len() - 1 {
                assert(q == remove_first_id(p, ids.last()));
                assert(q.contains(q[j]));
                assert(p.contains(q[j]));
                let m = choose|m: int| 0 <= m < p.len() && p[m] == q[j];
                assert(ids.drop_last()[k] == ids[k]);
                assert(p[m].id != ids.drop_last()[k]);
            }
        }
    }
}

/// The roles of `l` whose id is not among `ids`, in their order.
pub open spec fn without_ids(l: Seq<RoleValue>, ids: Seq<u64>) -> Seq<RoleValue>
    decreases l.len(),
{
    if l.len() == 0 {
        l
    } else if ids.contains(l[0].id) {
        without_ids(l.drop_first(), ids)
    } else {
        seq![l[0]] + without_ids(l.drop_first(), ids)
    }
}

proof fn lemma_without_none(l: Seq<RoleValue>, ids: Seq<u64>)
    requires
        ids.len() == 0,
    ensures
        without_ids(l, ids) == l,
    decreases l.len(),
{
    if l.len() > 0 {
        lemma_without_none(l.drop_first(), ids);
        assert(seq![l[0]] + l.drop_first() == l);
    }
}

proof fn lemma_without_absent_id(l: Seq<RoleValue>, ids: Seq<u64>, x: u64)
    requires
        forall|j: int| 0 <= j < l.len() ==> l[j].id != x,
    ensures
        without_ids(l, ids.push(x)) == without_ids(l, ids),
    decreases l.len(),
{
    if l.len() > 0 {
        lemma_without_absent_id(l.drop_first(), ids, x);
        assert(ids.push(x).contains(l[0].id) == ids.contains(l[0].id)) by {
            if ids.push(x).contains(l[0].id) {
                let j = choose|j: int| 0 <= j < ids.push(x).len() && ids.push(x)[j] == l[0].id;
                assert(j < ids.len());
                assert(ids[j] == l[0].id);
            }
            if ids.contains(l[0].id) {
                let j = choose|j: int| 0 <= j < ids.len() && ids[j] == l[0].id;
                assert(ids.push(x)[j] == l[0].id);
            }
        }
    }
}

proof fn lemma_without_one_more(l: Seq<RoleValue>, ids: Seq<u64>, x: u64)
    requires
        distinct_ids(l),
    ensures
        remove_first_id(without_ids(l, ids), x) == without_ids(l, ids.push(x)),
    decreases l.len(),
{
    if l.len() > 0 {
        let t = l.drop_first();
        assert(distinct_ids(t)) by {
            assert forall|i: int, j: int| 0 <= i < j < t.len() implies t[i].id != t[j].id by {
                assert(l[i + 1] == t[i] && l[j + 1] == t[j]);
            }
        }
        let y = l[0].id;
        assert(ids.push(x).contains(y) == (ids.contains(y) || y == x)) by {
            if ids.push(x).contains(y) {
                let j = choose|j: int| 0 <= j < ids.push(x).len() && ids.push(x)[j] == y;
                if j < ids.len() {
                    assert(ids[j] == y);
                }
            }
            if ids.contains(y) {
                let j = choose|j: int| 0 <= j < ids.len() && ids[j] == y;
                assert(ids.push(x)[j] == y);
            }
            if y == x {
                assert(ids.push(x)[ids.len() as int] == y);
            }
        }
        lemma_without_one_more(t, ids, x);
        if !ids.contains(y) && y == x {
            assert forall|j: int| 0 <= j < t.len() implies t[j].id != x by {
                assert(l[j + 1] == t[j]);
            }
            lemma_without_absent_id(t, ids, x);
            assert((seq![l[0]] + without_ids(t, ids)).drop_first() == without_ids(t, ids));
        } else if !ids.contains(y) {
            let w = seq![l[0]] + without_ids(t, ids);
            assert(w[0] == l[0]);
            assert(w.drop_first() == without_ids(t, ids));
        }
    }
}

/// Pruning a limbo that holds each id at most once keeps exactly its roles whose id the
/// server does not list, in their order.
pub proof fn lemma_prune_keeps_unlisted(l: Seq<RoleValue>, ids: Seq<u64>)
    requires
        distinct_ids(l),
    ensures
        prune_ids(l, ids) == without_ids(l, ids),
    decreases ids.len(),
{
    if ids.len() == 0 {
        lemma_without_none(l, ids);
    } else {
        lemma_prune_keeps_unlisted(l, ids.drop_last());
        lemma_without_one_more(l, ids.drop_last(), ids.last());
        assert(ids.drop_last().push(ids.last()) == ids);
    }
}

/// Roles that the bot created and the server's state may not show yet.
pub struct Limbo {
    pub roles: Vec<Role>,
}

impl Limbo {
    /// An empty limbo.
    pub fn new() -> (l: Limbo)
        ensures
            l.roles@.len() == 0,
    {
        Limbo { roles: Vec::new() }
    }

    /// Takes out of limbo, for each role of the server in turn, the first role in limbo with
    /// the same id: the server shows it now.
    pub fn prune(&mut self, server_roles: &Vec<Role>)
        ensures
            role_values(final(self).roles@) == prune_ids(
                role_values(old(self).roles@),
                role_ids(role_values(server_roles@)),
            ),
    {
        let ghost ids = role_ids(role_values(server_roles@));
        let mut i: usize = 0;
        while i < server_roles.len()
            invariant
                i <= server_roles@.len(),
                ids == role_ids(role_values(server_roles@)),
                role_values(self.roles@) == prune_ids(
                    role_values(old(self).roles@),
                    ids.take(i as int),
                ),
            decreases server_roles@.len() - i,
        {
            let id = server_roles[i].id;
            let ghost before = role_values(self.roles@);
            let mut j: usize = 0;
            while j < self.roles.len() && self.roles[j].id != id
                invariant
                    j <= self.roles@.len(),
                    before == role_values(self.roles@),
                    forall|m: int| 0 <= m < j ==> self.roles@[m].id != id,
                decreases self.roles@.len() - j,
            {
                j = j + 1;
            }
            assert forall|m: int| 0 <= m < j implies before[m].id != id by {
                assert(before[m] == self.roles@[m]@);
            }
            proof {
                assert(ids.take(i + 1).drop_last() == ids.take(i as int));
                assert(ids.take(i + 1).last() == id);
            }
            if j < self.roles.len() {
                assert(before[j as int] == self.roles@[j as int]@);
                proof {
                    lemma_remove_first_at(before, id, j as int);
                }
                let ghost old_roles = self.roles@;
                self.roles.remove(j);
                assert(role_values(self.roles@) == before.remove(j as int));
            } else {
                proof {
                    assert(before.len() == self.roles@.len());
                    lemma_remove_first_absent(before, id);
                }
            }
            i = i + 1;
        }
        assert(ids.take(server_roles@.len() as int) == ids);
    }

    /// Puts the roles just created into limbo, after those already there.
    pub fn record(&mut self, created: &Vec<Role>)
        ensures
            role_values(final(self).roles@) == role_values(old(self).roles@) + role_values(
                created@,
            ),
    {
        let mut i: usize = 0;
        while i < created.len()
            invariant
                i <= created@.len(),
                role_values(self.roles@) == role_values(old(self).roles@) + role_values(
                    created@.take(i as int),
                ),
            decreases created@.len() - i,
        {
            let r = created[i].duplicate();
            let ghost old_values = role_values(self.roles@);
            self.roles.push(r);
            assert(role_values(self.roles@) == old_values.push(r@));
            assert(role_values(created@.take(i + 1)) == role_values(created@.take(i as int)).push(
                created@[i as int]@,
            ));
            assert(created@.take(i + 1) == created@.take(i as int).push(created@[i as int]));
            assert(role_values(self.roles@) == role_values(old(self).roles@) + role_values(
                created@.take(i + 1),
            ));
            i = i + 1;
        }
        assert(created@.take(created@.len() as int) == created@);
    }
}

// ---------------------------------------------------------------------------
// Choosing the roles of a tag

/// A role that a tag needs.
pub enum RoleChoice {
    /// The server has it already.
    Existing(Role),
    /// It has to be created, under this name.
    Create(String),
}

/// A role choice as values.
pub enum ChoiceValue {
    Existing(RoleValue),
    Create(Seq<char>),
}

impl View for RoleChoice {
    type V = ChoiceValue;

    open spec fn view(&self) -> ChoiceValue {
        match self {
            RoleChoice::Existing(r) => ChoiceValue::Existing(r@),
            RoleChoice::Create(n) => ChoiceValue::Create(n@),
        }
    }
}

/// The choice for the role named `name`: the first role of the server named so, ignoring
/// case, or one to create under `name` lowercased.
pub open spec fn choice_for(server_roles: Seq<RoleValue>, name: Seq<char>) -> ChoiceValue {
    match first_named(server_roles, name) {
        Some(k) => ChoiceValue::Existing(server_roles[k]),
        None => ChoiceValue::Create(lowercase(name)),
    }
}

/// The names of the roles a tag gives: the character's race, gender and server, and
/// `verified` for a verified member.
pub open spec fn role_name_list(race: Seq<char>, gender: Seq<char>, server: Seq<char>, verified: bool) -> Seq<Seq<char>> {
    if verified {
        seq![race, gender, server, "verified"@]
    } else {
        seq![race, gender, server]
    }
}

/// The roles of the choices that the server has already, in order.
pub open spec fn existing_roles(choices: Seq<ChoiceValue>) -> Seq<RoleValue>
    decreases choices.len(),
{
    if choices.len() == 0 {
        Seq::empty()
    } else {
        let before = existing_roles(choices.drop_last());
        match choices.last() {
            ChoiceValue::Existing(r) => before.push(r),
            ChoiceValue::Create(_) => before,
        }
    }
}

/// What the first step of a tag gives: the roles of the server together with those in limbo,
/// and for each role the tag gives, whether the server has it or it has to be created.
pub struct TagPrep {
    pub roles: Vec<Role>,
    pub choices: Vec<RoleChoice>,
}

/// Ids in strictly increasing order: sorted, each once.
pub open spec fn sorted_unique(v: Seq<u64>) -> bool {
    forall|i: int, j: int| 0 <= i < j < v.len() ==> v[i] < v[j]
}

/// Whether `n` is, lowercased, the name of a role in one of the role groups.
pub open spec fn in_group(groups: Seq<Vec<String>>, n: Seq<char>) -> bool {
    exists|i: int, j: int|
        0 <= i < groups.len() && 0 <= j < groups[i]@.len() && lowercase(#[trigger] groups[i]@[j]@)
            == n
}

/// Whether a tag leaves role `r` on the member: they have it and it is in no group.
pub open spec fn kept(r: RoleValue, member_roles: Seq<u64>, groups: Seq<Vec<String>>) -> bool {
    member_roles.contains(r.id) && !in_group(groups, lowercase(r.name))
}

/// Whether `id` is among the roles a member ends up with after a tag: a role the tag adds,
/// or a role of the server the member has that belongs to no group.
pub open spec fn in_role_set(
    id: u64,
    add: Seq<RoleValue>,
    roles: Seq<RoleValue>,
    member_roles: Seq<u64>,
    groups: Seq<Vec<String>>,
) -> bool {
    (exists|k: int| 0 <= k < add.len() && (#[trigger] add[k]).id == id) || (exists|k: int|
        0 <= k < roles.len() && (#[trigger] roles[k]).id == id && kept(roles[k], member_roles, groups))
}

/// The member's nickname, or nothing.
pub open spec fn nick_text(n: Option<String>) -> Seq<char> {
    match n {
        Some(s) => s@,
        None => Seq::empty(),
    }
}

/// Whether `u` is the change a tag makes: `add` the roles it gives, `roles` those of the
/// server with those in limbo, `member_roles` the member's, `nick` the member's nickname.
pub open spec fn tag_result(
    u: TagUpdate,
    add: Seq<RoleValue>,
    roles: Seq<RoleValue>,
    member_roles: Seq<u64>,
    groups: Seq<Vec<String>>,
    nick: Option<String>,
    character_name: Seq<char>,
) -> bool {
    &&& sorted_unique(u.roles@)
    &&& forall|id: u64|
        u.roles@.contains(id) <==> in_role_set(id, add, roles, member_roles, groups)
    &&& u.change_roles == !(forall|id: u64| member_roles.contains(id) <==> u.roles@.contains(id))
    &&& u.change_nick == (nick_text(nick) != character_name)
}

/// What a tag changes on the member.
pub struct TagUpdate {
    /// The member's roles afterwards, in increasing order.
    pub roles: Vec<u64>,
    /// Whether that differs, as a set, from the roles the member has.
    pub change_roles: bool,
    /// Whether the member's nickname has to become the character's name.
    pub change_nick: bool,
}

fn contains_id(v: &Vec<u64>, x: u64) -> (res: bool)
    ensures
        res == v@.contains(x),
{
    let mut i: usize = 0;
    while i < v.len()
        invariant
            i <= v@.len(),
            forall|j: int| 0 <= j < i ==> v@[j] != x,
        decreases v@.len() - i,
    {
        if v[i] == x {
            return true;
        }
        i = i + 1;
    }
    false
}

#[verifier::spinoff_prover]
fn insert_sorted(v: &mut Vec<u64>, x: u64)
    requires
        sorted_unique(old(v)@),
    ensures
        sorted_unique(final(v)@),
        forall|y: u64| final(v)@.contains(y) <==> (old(v)@.contains(y) || y == x),
{
    let mut p: usize = 0;
    while p < v.len() && v[p] < x
        invariant
            p <= v@.len(),
            forall|j: int| 0 <= j < p ==> v@[j] < x,
        decreases v@.len() - p,
    {
        p = p + 1;
    }
    if p < v.len() && v[p] == x {
        assert(v@[p as int] == x);
        return;
    }
    let ghost before = v@;
    assert(before == old(v)@);
    v.insert(p, x);
    assert(v@ == before.insert(p as int, x));
    assert forall|i: int, j: int| 0 <= i < j < v@.len() implies v@[i] < v@[j] by {
        if j < p {
        } else if j == p {
        } else if i < p {
            assert(v@[j] == before[j - 1]);
            assert(before[j - 1] >= before[p as int]);
        } else if i == p {
            assert(v@[j] == before[j - 1]);
            assert(before[j - 1] >= before[p as int]);
        } else {
            assert(v@[i] == before[i - 1]);
            assert(v@[j] == before[j - 1]);
        }
    }
    assert forall|y: u64| v@.contains(y) <==> (before.contains(y) || y == x) by {
        if v@.contains(y) {
            let k = choose|k: int| 0 <= k < v@.len() && v@[k] == y;
            if k < p {
                assert(before[k] == y);
            } else if k > p {
                assert(before[k - 1] == y);
            }
        }
        if before.contains(y) {
            let k = choose|k: int| 0 <= k < before.len() && before[k] == y;
            if k < p {
                assert(v@[k] == y);
            } else {
                assert(v@[k + 1] == y);
            }
        }
        if y == x {
            assert(v@[p as int] == y);
        }
    }
    assert(forall|y: u64| v@.contains(y) <==> (old(v)@.contains(y) || y == x));
}

fn same_id_set(a: &Vec<u64>, b: &Vec<u64>) -> (res: bool)
    ensures
        res == (forall|id: u64| a@.contains(id) <==> b@.contains(id)),
{
    let mut i: usize = 0;
    while i < a.len()
        invariant
            i <= a@.len(),
            forall|j: int| 0 <= j < i ==> b@.contains(#[trigger] a@[j]),
        decreases a@.len() - i,
    {
        if !contains_id(b, a[i]) {
            return false;
        }
        i = i + 1;
    }
    let mut i: usize = 0;
    while i < b.len()
        invariant
            i <= b@.len(),
            forall|j: int| 0 <= j < i ==> a@.contains(#[trigger] b@[j]),
        decreases b@.len() - i,
    {
        if !contains_id(a, b[i]) {
            return false;
        }
        i = i + 1;
    }
    assert forall|id: u64| a@.contains(id) <==> b@.contains(id) by {
        if a@.contains(id) {
            let k = choose|k: int| 0 <= k < a@.len() && a@[k] == id;
            assert(b@.contains(a@[k]));
        }
        if b@.contains(id) {
            let k = choose|k: int| 0 <= k < b@.len() && b@[k] == id;
            assert(a@.contains(b@[k]));
        }
    }
    true
}

/// Whether one of the strings of `v` holds `n`.
pub open spec fn has_text(v: Seq<String>, n: Seq<char>) -> bool {
    exists|k: int| 0 <= k < v.len() && (#[trigger] v[k])@ == n
}

/// Whether `n` is, lowercased, the name of a role among the groups before `i`, or among
/// the first `j` names of group `i`.
pub open spec fn in_group_upto(groups: Seq<Vec<String>>, i: int, j: int, n: Seq<char>) -> bool {
    exists|a: int, b: int|
        0 <= a <= i && a < groups.len() && 0 <= b < groups[a]@.len() && (a < i || b < j)
            && lowercase(#[trigger] groups[a]@[b]@) == n
}

proof fn lemma_has_text_push(v: Seq<String>, x: String, n: Seq<char>)
    ensures
        has_text(v.push(x), n) == (has_text(v, n) || x@ == n),
{
    let w = v.push(x);
    if has_text(w, n) {
        let k = choose|k: int| 0 <= k < w.len() && (#[trigger] w[k])@ == n;
        if k < v.len() {
            assert(v[k] == w[k]);
        }
    }
    if has_text(v, n) {
        let k = choose|k: int| 0 <= k < v.len() && (#[trigger] v[k])@ == n;
        assert(w[k] == v[k]);
    }
    if x@ == n {
        assert(w[v.len() as int] == x);
    }
}

proof fn lemma_group_step(groups: Seq<Vec<String>>, i: int, j: int, n: Seq<char>)
    requires
        0 <= i < groups.len(),
        0 <= j < groups[i]@.len(),
    ensures
        in_group_upto(groups, i, j + 1, n) == (in_group_upto(groups, i, j, n) || lowercase(
            groups[i]@[j]@,
        ) == n),
{
    if in_group_upto(groups, i, j + 1, n) {
        let (a, b) = choose|a: int, b: int|
            0 <= a <= i && a < groups.len() && 0 <= b < groups[a]@.len() && (a < i || b < j + 1)
                && lowercase(#[trigger] groups[a]@[b]@) == n;
        if a < i || b < j {
            assert(in_group_upto(groups, i, j, n));
        }
    }
    if lowercase(groups[i]@[j]@) == n {
        assert(0 <= i <= i && i < groups.len() && 0 <= j < groups[i]@.len() && (i < i || j < j + 1)
            && lowercase(groups[i]@[j]@) == n);
    }
    if in_group_upto(groups, i, j, n) {
        let (a, b) = choose|a: int, b: int|
            0 <= a <= i && a < groups.len() && 0 <= b < groups[a]@.len() && (a < i || b < j)
                && lowercase(#[trigger] groups[a]@[b]@) == n;
        assert(0 <= a <= i && a < groups.len() && 0 <= b < groups[a]@.len() && (a < i || b < j + 1)
            && lowercase(groups[a]@[b]@) == n);
    }
}

proof fn lemma_group_next(groups: Seq<Vec<String>>, i: int, n: Seq<char>)
    requires
        0 <= i < groups.len(),
    ensures
        in_group_upto(groups, i, groups[i]@.len() as int, n) == in_group_upto(groups, i + 1, 0, n),
        i + 1 == groups.len() ==> (in_group_upto(groups, i + 1, 0, n) == in_group(groups, n)),
{
    if in_group_upto(groups, i, groups[i]@.len() as int, n) {
        let (a, b) = choose|a: int, b: int|
            0 <= a <= i && a < groups.len() && 0 <= b < groups[a]@.len() && (a < i || b
                < groups[i]@.len()) && lowercase(#[trigger] groups[a]@[b]@) == n;
        assert(0 <= a <= i + 1 && a < groups.len() && 0 <= b < groups[a]@.len() && (a < i + 1 || b
            < 0) && lowercase(groups[a]@[b]@) == n);
    }
    if in_group_upto(groups, i + 1, 0, n) {
        let (a, b) = choose|a: int, b: int|
            0 <= a <= i + 1 && a < groups.len() && 0 <= b < groups[a]@.len() && (a < i + 1 || b < 0)
                && lowercase(#[trigger] groups[a]@[b]@) == n;
        assert(0 <= a <= i && a < groups.len() && 0 <= b < groups[a]@.len() && (a < i || b
            < groups[i]@.len()) && lowercase(groups[a]@[b]@) == n);
    }
    if i + 1 == groups.len() {
        if in_group(groups, n) {
            let (a, b) = choose|a: int, b: int|
                0 <= a < groups.len() && 0 <= b < groups[a]@.len() && lowercase(
                    #[trigger] groups[a]@[b]@,
                ) == n;
            assert(0 <= a <= i + 1 && a < groups.len() && 0 <= b < groups[a]@.len() && (a < i + 1
                || b < 0) && lowercase(groups[a]@[b]@) == n);
        }
    }
}

fn lowercase_group_names(groups: &Vec<Vec<String>>) -> (res: Vec<String>)
    ensures
        forall|n: Seq<char>| #[trigger] has_text(res@, n) == in_group(groups@, n),
{
    let mut res: Vec<String> = Vec::new();
    let mut i: usize = 0;
    if groups.len() == 0 {
        assert forall|n: Seq<char>| #[trigger] has_text(res@, n) == in_group(groups@, n) by {}
        return res;
    }
    while i < groups.len()
        invariant
            i <= groups@.len(),
            groups@.len() > 0,
            forall|n: Seq<char>| #[trigger] has_text(res@, n) == in_group_upto(groups@, i as int, 0, n),
            i == groups@.len() ==> forall|n: Seq<char>| #[trigger] has_text(res@, n) == in_group(groups@, n),
        decreases groups@.len() - i,
    {
        let group = &groups[i];
        let mut j: usize = 0;
        assert forall|n: Seq<char>| #[trigger] has_text(res@, n) == in_group_upto(groups@, i as int, 0, n) by {}
        while j < group.len()
            invariant
                i < groups@.len(),
                *group == groups@[i as int],
                j <= group@.len(),
                forall|n: Seq<char>| #[trigger] has_text(res@, n) == in_group_upto(groups@, i as int, j as int, n),
            decreases group@.len() - j,
        {
            let lower = to_lowercase(group[j].as_str());
            let ghost before = res@;
            res.push(lower);
            proof {
                assert forall|n: Seq<char>| #[trigger] has_text(res@, n) == in_group_upto(groups@, i as int, j + 1, n) by {
                    lemma_has_text_push(before, lower, n);
                    lemma_group_step(groups@, i as int, j as int, n);
                }
            }
            j = j + 1;
        }
        proof {
            assert forall|n: Seq<char>| #[trigger] has_text(res@, n) == in_group_upto(groups@, i + 1, 0, n) by {
                lemma_group_next(groups@, i as int, n);
            }
            if i + 1 == groups@.len() {
                assert forall|n: Seq<char>| #[trigger] has_text(res@, n) == in_group(groups@, n) by {
                    lemma_group_next(groups@, i as int, n);
                }
            }
        }
        i = i + 1;
    }
    res
}

fn contains_text(v: &Vec<String>, t: &String) -> (res: bool)
    ensures
        res == has_text(v@, t@),
{
    let mut i: usize = 0;
    while i < v.len()
        invariant
            i <= v@.len(),
            forall|k: int| 0 <= k < i ==> (#[trigger] v@[k])@ != t@,
        decreases v@.len() - i,
    {
        if v[i] == *t {
            return true;
        }
        i = i + 1;
    }
    false
}

impl Tagger {
    /// Finds the role of the server named `name`, ignoring case; where there is none, the role
    /// has to be created under `name` lowercased.
    pub fn find_or_create_role(server_roles: &Vec<Role>, name: &str) -> (res: RoleChoice)
        ensures
            match first_named(role_values(server_roles@), name@) {
                Some(k) => res matches RoleChoice::Existing(r) && r@ == server_roles@[k]@,
                None => res matches RoleChoice::Create(n) && n@ == lowercase(name@),
            },
            res@ == choice_for(role_values(server_roles@), name@),
    {
        proof {
            lemma_first_named_range(role_values(server_roles@), name@);
        }
        match find_role_named(server_roles, name) {
            Some(i) => RoleChoice::Existing(server_roles[i].duplicate()),
            None => RoleChoice::Create(to_lowercase(name)),
        }
    }

    /// The names of the roles a tag gives: the character's race, gender and server, and
    /// `verified` for a verified member.
    pub fn role_names(race: &str, gender: &str, server: &str, verified: bool) -> (res: Vec<String>)
        ensures
            verified ==> res@.len() == 4 && res@[3]@ == "verified"@,
            !verified ==> res@.len() == 3,
            res@[0]@ == race@,
            res@[1]@ == gender@,
            res@[2]@ == server@,
    {
        let mut res = Vec::new();
        res.push(race.to_owned());
        res.push(gender.to_owned());
        res.push(server.to_owned());
        if verified {
            res.push("verified".to_owned());
        }
        res
    }

    /// The first step of a tag: takes out of limbo the roles the server shows now, gathers the
    /// roles of the server with those still in limbo, and chooses for each role the tag gives
    /// (race, gender, server, and `verified` for a verified member) the role of the server
    /// named so, or a new one.
    pub fn prepare(
        limbo: &mut Limbo,
        server_roles: &Vec<Role>,
        race: &str,
        gender: &str,
        server: &str,
        verified: bool,
    ) -> (p: TagPrep)
        ensures
            role_values(final(limbo).roles@) == prune_ids(
                role_values(old(limbo).roles@),
                role_ids(role_values(server_roles@)),
            ),
            role_values(p.roles@) == role_values(server_roles@) + role_values(final(limbo).roles@),
            p.choices@.map_values(|c: RoleChoice| c@) == role_name_list(race@, gender@, server@, verified).map_values(
                |n: Seq<char>| choice_for(role_values(server_roles@), n),
            ),
    {
        limbo.prune(server_roles);
        let mut roles: Vec<Role> = Vec::new();
        let mut i: usize = 0;
        while i < server_roles.len()
            invariant
                i <= server_roles@.len(),
                role_values(roles@) == role_values(server_roles@).take(i as int),
            decreases server_roles@.len() - i,
        {
            let r = server_roles[i].duplicate();
            let ghost before = role_values(roles@);
            roles.push(r);
            assert(role_values(roles@) == before.push(r@));
            assert(role_values(server_roles@).take(i + 1) == role_values(server_roles@).take(
                i as int,
            ).push(server_roles@[i as int]@));
            i = i + 1;
        }
        assert(role_values(server_roles@).take(server_roles@.len() as int) == role_values(
            server_roles@,
        ));
        let mut k: usize = 0;
        while k < limbo.roles.len()
            invariant
                k <= limbo.roles@.len(),
                role_values(roles@) == role_values(server_roles@) + role_values(limbo.roles@).take(
                    k as int,
                ),
            decreases limbo.roles@.len() - k,
        {
            let r = limbo.roles[k].duplicate();
            let ghost before = role_values(roles@);
            roles.push(r);
            assert(role_values(roles@) == before.push(r@));
            assert(role_values(limbo.roles@).take(k + 1) == role_values(limbo.roles@).take(
                k as int,
            ).push(limbo.roles@[k as int]@));
            k = k + 1;
        }
        assert(role_values(limbo.roles@).take(limbo.roles@.len() as int) == role_values(
            limbo.roles@,
        ));
        let names = Tagger::role_names(race, gender, server, verified);
        let ghost wanted = role_name_list(race@, gender@, server@, verified);
        assert(crate::text::views(names@) == wanted);
        let mut choices: Vec<RoleChoice> = Vec::new();
        let mut j: usize = 0;
        while j < names.len()
            invariant
                j <= names@.len(),
                crate::text::views(names@) == wanted,
                choices@.map_values(|c: RoleChoice| c@) == wanted.map_values(
                    |n: Seq<char>| choice_for(role_values(server_roles@), n),
                ).take(j as int),
            decreases names@.len() - j,
        {
            let c = Tagger::find_or_create_role(server_roles, names[j].as_str());
            assert(names@[j as int]@ == wanted[j as int]);
            assert(c@ == choice_for(role_values(server_roles@), wanted[j as int]));
            let ghost before = choices@.map_values(|c: RoleChoice| c@);
            choices.push(c);
            assert(choices@.map_values(|c: RoleChoice| c@) == before.push(c@));
            assert(wanted.map_values(|n: Seq<char>| choice_for(role_values(server_roles@), n)).take(
                j + 1,
            ) == wanted.map_values(|n: Seq<char>| choice_for(role_values(server_roles@), n)).take(
                j as int,
            ).push(choice_for(role_values(server_roles@), wanted[j as int])));
            j = j + 1;
        }
        assert(wanted.map_values(|n: Seq<char>| choice_for(role_values(server_roles@), n)).take(
            names@.len() as int,
        ) == wanted.map_values(|n: Seq<char>| choice_for(role_values(server_roles@), n)));
        TagPrep { roles, choices }
    }

    /// The last step of a tag, once the roles to create were created (as `created`, in
    /// order): puts them into limbo, and gives the change the tag makes, with the roles the
    /// server had first and the created ones after them.
    pub fn complete(
        limbo: &mut Limbo,
        prep: &TagPrep,
        created: &Vec<Role>,
        member_roles: &Vec<u64>,
        groups: &Vec<Vec<String>>,
        nick: &Option<String>,
        character_name: &str,
    ) -> (u: TagUpdate)
        ensures
            role_values(final(limbo).roles@) == role_values(old(limbo).roles@) + role_values(
                created@,
            ),
            tag_result(
                u,
                existing_roles(prep.choices@.map_values(|c: RoleChoice| c@)) + role_values(created@),
                role_values(prep.roles@),
                member_roles@,
                groups@,
                *nick,
                character_name@,
            ),
    {
        let ghost cv = prep.choices@.map_values(|c: RoleChoice| c@);
        let mut add: Vec<Role> = Vec::new();
        let mut i: usize = 0;
        while i < prep.choices.len()
            invariant
                i <= prep.choices@.len(),
                cv == prep.choices@.map_values(|c: RoleChoice| c@),
                role_values(add@) == existing_roles(cv.take(i as int)),
            decreases prep.choices@.len() - i,
        {
            assert(cv.take(i + 1).drop_last() == cv.take(i as int));
            assert(cv.take(i + 1).last() == prep.choices@[i as int]@);
            match &prep.choices[i] {
                RoleChoice::Existing(r) => {
                    let d = r.duplicate();
                    let ghost before = role_values(add@);
                    add.push(d);
                    assert(role_values(add@) == before.push(d@));
                },
                RoleChoice::Create(_) => {},
            }
            i = i + 1;
        }
        assert(cv.take(prep.choices@.len() as int) == cv);
        let mut j: usize = 0;
        let ghost head = role_values(add@);
        while j < created.len()
            invariant
                j <= created@.len(),
                role_values(add@) == head + role_values(created@).take(j as int),
            decreases created@.len() - j,
        {
            let d = created[j].duplicate();
            let ghost before = role_values(add@);
            add.push(d);
            assert(role_values(add@) == before.push(d@));
            assert(role_values(created@).take(j + 1) == role_values(created@).take(j as int).push(
                created@[j as int]@,
            ));
            j = j + 1;
        }
        assert(role_values(created@).take(created@.len() as int) == role_values(created@));
        limbo.record(created);
        Tagger::tag(&add, &prep.roles, member_roles, groups, nick, character_name)
    }

    /// The change a tag makes: the role set and nickname step that `complete` ends with. A
    /// whole tag is `check_verification`, `record_tag`, `prepare`, the creation of the roles
    /// it asks for, then `complete`; the caller that talks to Discord runs them in that order.
    /// `add_roles` are the roles the tag gives, `roles` those of the server together with
    /// those in limbo, `member_roles` the ids of the member's roles, `groups` the configured
    /// role groups, `nick` the member's nickname.
    pub fn tag(
        add_roles: &Vec<Role>,
        roles: &Vec<Role>,
        member_roles: &Vec<u64>,
        groups: &Vec<Vec<String>>,
        nick: &Option<String>,
        character_name: &str,
    ) -> (u: TagUpdate)
        ensures
            tag_result(
                u,
                role_values(add_roles@),
                role_values(roles@),
                member_roles@,
                groups@,
                *nick,
                character_name@,
            ),
    {
        let ghost add = role_values(add_roles@);
        let ghost all = role_values(roles@);
        let group_names = lowercase_group_names(groups);
        let mut set: Vec<u64> = Vec::new();
        let mut i: usize = 0;
        while i < add_roles.len()
            invariant
                i <= add_roles@.len(),
                add == role_values(add_roles@),
                sorted_unique(set@),
                forall|id: u64|
                    set@.contains(id) <==> exists|k: int| 0 <= k < i && (#[trigger] add[k]).id == id,
            decreases add_roles@.len() - i,
        {
            let id = add_roles[i].id;
            insert_sorted(&mut set, id);
            assert forall|x: u64| set@.contains(x) <==> exists|k: int| 0 <= k < i + 1 && (#[trigger] add[k]).id == x by {
                if x == id {
                    assert(add[i as int].id == id);
                }
            }
            i = i + 1;
        }
        let mut i: usize = 0;
        while i < roles.len()
            invariant
                i <= roles@.len(),
                add == role_values(add_roles@),
                all == role_values(roles@),
                sorted_unique(set@),
                forall|n: Seq<char>| #[trigger] has_text(group_names@, n) == in_group(groups@, n),
                forall|id: u64|
                    set@.contains(id) <==> ((exists|k: int| 0 <= k < add.len() && (#[trigger] add[k]).id == id)
                        || (exists|k: int| 0 <= k < i && (#[trigger] all[k]).id == id && kept(all[k], member_roles@, groups@))),
            decreases roles@.len() - i,
        {
            let r = &roles[i];
            assert(all[i as int] == r@);
            let lower = to_lowercase(r.name.as_str());
            let keep = contains_id(member_roles, r.id) && !contains_text(&group_names, &lower);
            assert(keep == kept(all[i as int], member_roles@, groups@));
            if keep {
                insert_sorted(&mut set, r.id);
            }
            assert forall|x: u64| set@.contains(x) <==> ((exists|k: int| 0 <= k < add.len() && (#[trigger] add[k]).id == x)
                || (exists|k: int| 0 <= k < i + 1 && (#[trigger] all[k]).id == x && kept(all[k], member_roles@, groups@))) by {
                if keep && x == r.id {
                    assert(all[i as int].id == x);
                }
            }
            i = i + 1;
        }
        let change_roles = !same_id_set(member_roles, &set);
        let change_nick = match nick {
            Some(n) => !same_text(n.as_str(), character_name),
            None => {
                let empty = String::new();
                !same_text(empty.as_str(), character_name)
            },
        };
        TagUpdate { roles: set, change_roles, change_nick }
    }
}

/// Tagging a member again with the same roles changes nothing: once the member holds the
/// roles a tag computed, the same tag computes the same roles and asks for no change.
pub proof fn lemma_tag_settles(
    add: Seq<RoleValue>,
    roles: Seq<RoleValue>,
    member_roles: Seq<u64>,
    groups: Seq<Vec<String>>,
    result: Seq<u64>,
)
    requires
        forall|id: u64|
            result.contains(id) <==> in_role_set(id, add, roles, member_roles, groups),
    ensures
        forall|id: u64|
            in_role_set(id, add, roles, result, groups) <==> in_role_set(
                id,
                add,
                roles,
                member_roles,
                groups,
            ),
{
    assert forall|id: u64|
        in_role_set(id, add, roles, result, groups) <==> in_role_set(
            id,
            add,
            roles,
            member_roles,
            groups,
        ) by {
        if in_role_set(id, add, roles, result, groups) {
            if !(exists|k: int| 0 <= k < add.len() && (#[trigger] add[k]).id == id) {
                let k = choose|k: int|
                    0 <= k < roles.len() && (#[trigger] roles[k]).id == id && kept(roles[k], result, groups);
                assert(result.contains(id));
            }
        }
        if in_role_set(id, add, roles, member_roles, groups) {
            assert(result.contains(id));
            if !(exists|k: int| 0 <= k < add.len() && (#[trigger] add[k]).id == id) {
                let k = choose|k: int|
                    0 <= k < roles.len() && (#[trigger] roles[k]).id == id && kept(roles[k], member_roles, groups);
                assert(kept(roles[k], result, groups));
            }
        }
    }
}

} // verus!
