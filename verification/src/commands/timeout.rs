//! Timeouts: a role that may read but not write, set up on every channel of a server.
use vstd::prelude::*;
use crate::env::BotEnv;
use crate::model::{find_role_named, first_named, role_values, Role};

verus! {

/// The permission to read a channel's messages.
pub const READ_MESSAGES: u64 = 1u64 << 10u64;

/// The permission to read a channel's history.
pub const READ_HISTORY: u64 = 1u64 << 16u64;

/// The permission to connect to a voice channel.
pub const VOICE_CONNECT: u64 = 1u64 << 20u64;

/// Every permission there is: bits 0 to 6, 10 to 18 and 20 to 30.
pub const ALL_PERMISSIONS: u64 = 0x7ff7_fc7fu64;

/// What the timed-out role may do: read messages and history, and connect to voice.
pub const ROLE_PERMISSIONS: u64 = READ_MESSAGES | READ_HISTORY | VOICE_CONNECT;

/// What the timed-out role is denied on each channel: everything else.
pub const DENY_PERMISSIONS: u64 = ALL_PERMISSIONS & !(READ_MESSAGES | READ_HISTORY | VOICE_CONNECT);

/// A timed-out member keeps exactly the permissions of the role: what is denied and what the
/// role may do are disjoint and together make up every permission.
pub proof fn lemma_timeout_permissions()
    ensures
        DENY_PERMISSIONS & ROLE_PERMISSIONS == 0,
        DENY_PERMISSIONS | ROLE_PERMISSIONS == ALL_PERMISSIONS,
        ROLE_PERMISSIONS & ALL_PERMISSIONS == ROLE_PERMISSIONS,
{
    assert(((0x7ff7_fc7fu64 & !((1u64 << 10u64) | (1u64 << 16u64) | (1u64 << 20u64))) & ((1u64
        << 10u64) | (1u64 << 16u64) | (1u64 << 20u64))) == 0u64) by (bit_vector);
    assert(((0x7ff7_fc7fu64 & !((1u64 << 10u64) | (1u64 << 16u64) | (1u64 << 20u64))) | ((1u64
        << 10u64) | (1u64 << 16u64) | (1u64 << 20u64))) == 0x7ff7_fc7fu64) by (bit_vector);
    assert((((1u64 << 10u64) | (1u64 << 16u64) | (1u64 << 20u64)) & 0x7ff7_fc7fu64) == ((1u64
        << 10u64) | (1u64 << 16u64) | (1u64 << 20u64))) by (bit_vector);
}

/// Whom a permission overwrite is for.
#[derive(PartialEq, Eq, Structural, Clone, Copy, Debug)]
pub enum OverwriteKind {
    Role(u64),
    Member(u64),
}

/// A permission overwrite of a channel.
#[derive(PartialEq, Eq, Structural, Clone, Copy, Debug)]
pub struct PermissionOverwrite {
    pub kind: OverwriteKind,
    pub allow: u64,
    pub deny: u64,
}

/// A channel, with whom its permission overwrites are for.
pub struct ChannelOverwrites {
    pub id: u64,
    pub overwrites: Vec<OverwriteKind>,
}

/// The timed-out role of a server.
pub enum TimeoutRole {
    /// The server has it; this is its id.
    Existing(u64),
    /// It has to be created under this name, with `ROLE_PERMISSIONS`.
    Create(String),
}

/// Whether channel `c` has an overwrite for role `role_id`.
pub open spec fn has_role_overwrite(c: ChannelOverwrites, role_id: u64) -> bool {
    c.overwrites@.contains(OverwriteKind::Role(role_id))
}

/// The ids of the channels that have no overwrite for role `role_id`, in order.
pub open spec fn channels_without(channels: Seq<ChannelOverwrites>, role_id: u64) -> Seq<u64>
    decreases channels.len(),
{
    if channels.len() == 0 {
        Seq::empty()
    } else {
        let rest = channels_without(channels.drop_last(), role_id);
        if has_role_overwrite(channels.last(), role_id) {
            rest
        } else {
            rest.push(channels.last().id)
        }
    }
}

/// Once every channel has an overwrite for the timed-out role, setting timeouts up again
/// leaves no channel to deny: a second set-up after a first one changes no channel.
pub proof fn lemma_timeouts_settle(channels: Seq<ChannelOverwrites>, role_id: u64)
    requires
        forall|i: int| 0 <= i < channels.len() ==> has_role_overwrite(#[trigger] channels[i], role_id),
    ensures
        channels_without(channels, role_id) == Seq::<u64>::empty(),
    decreases channels.len(),
{
    if channels.len() > 0 {
        let rest = channels.drop_last();
        assert forall|i: int| 0 <= i < rest.len() implies has_role_overwrite(#[trigger] rest[i], role_id) by {
            assert(rest[i] == channels[i]);
        }
        lemma_timeouts_settle(rest, role_id);
        assert(has_role_overwrite(channels[channels.len() - 1], role_id));
    }
}

/// A channel is left to deny exactly when it has no overwrite for the timed-out role, so a
/// set-up denies each channel once.
pub proof fn lemma_channels_without_lacking(channels: Seq<ChannelOverwrites>, role_id: u64)
    ensures
        forall|id: u64| channels_without(channels, role_id).contains(id) ==> exists|i: int|
            0 <= i < channels.len() && channels[i].id == id && !has_role_overwrite(#[trigger] channels[i], role_id),
    decreases channels.len(),
{
    if channels.len() > 0 {
        let rest = channels.drop_last();
        lemma_channels_without_lacking(rest, role_id);
        assert forall|id: u64| channels_without(channels, role_id).contains(id) implies exists|i: int|
            0 <= i < channels.len() && channels[i].id == id && !has_role_overwrite(#[trigger] channels[i], role_id) by {
            let last = channels.len() - 1;
            if channels_without(rest, role_id).contains(id) {
                let i = choose|i: int| 0 <= i < rest.len() && rest[i].id == id && !has_role_overwrite(#[trigger] rest[i], role_id);
                assert(channels[i] == rest[i]);
            } else {
                assert(!has_role_overwrite(channels[last], role_id) && channels[last].id == id);
            }
        }
    }
}

/// Every channel with no overwrite for the timed-out role is left to deny.
pub proof fn lemma_channels_without_includes(channels: Seq<ChannelOverwrites>, role_id: u64)
    ensures
        forall|i: int|
            0 <= i < channels.len() && !(#[trigger] channels[i]).overwrites@.contains(OverwriteKind::Role(role_id))
                ==> channels_without(channels, role_id).contains(channels[i].id),
    decreases channels.len(),
{
    if channels.len() > 0 {
        let rest = channels.drop_last();
        lemma_channels_without_includes(rest, role_id);
        let r = channels_without(rest, role_id);
        assert forall|i: int|
            0 <= i < channels.len() && !(#[trigger] channels[i]).overwrites@.contains(OverwriteKind::Role(role_id))
                implies channels_without(channels, role_id).contains(channels[i].id) by {
            if i < channels.len() - 1 {
                assert(rest[i] == channels[i]);
                let k = choose|k: int| 0 <= k < r.len() && r[k] == channels[i].id;
                if has_role_overwrite(channels.last(), role_id) {
                    assert(channels_without(channels, role_id)[k] == channels[i].id);
                } else {
                    assert(r.push(channels.last().id)[k] == channels[i].id);
                }
            } else {
                assert(channels.last() == channels[i]);
                let w = r.push(channels.last().id);
                assert(w[r.len() as int] == channels[i].id);
            }
        }
    }
}

/// Finds the timed-out role of a server: the configured role name is needed, and the role is
/// the first of the server whose name equals it ignoring case, or else one to create under
/// the configured name. It is the first step of setting timeouts up; the caller that talks
/// to Discord then puts `timeout_overwrite` on each channel that `channels_to_deny` lists.
pub fn set_up_timeouts(env: &BotEnv, server_roles: &Vec<Role>) -> (res: Result<TimeoutRole, String>)
    ensures
        match env.timed_out_role {
            None => res matches Err(e) && e@ == "no timed-out role name"@,
            Some(name) => match first_named(role_values(server_roles@), name@) {
                Some(k) => res == Ok::<TimeoutRole, String>(TimeoutRole::Existing(server_roles@[k].id)),
                None => res matches Ok(TimeoutRole::Create(n)) && n@ == name@,
            },
        },
{
    let name = match &env.timed_out_role {
        Some(r) => r,
        None => return Err("no timed-out role name".to_owned()),
    };
    match find_role_named(server_roles, name.as_str()) {
        Some(i) => Ok(TimeoutRole::Existing(server_roles[i].id)),
        None => Ok(TimeoutRole::Create(name.clone())),
    }
}

/// The overwrite that times a member with role `role_id` out on a channel.
pub fn timeout_overwrite(role_id: u64) -> (o: PermissionOverwrite)
    ensures
        o == (PermissionOverwrite { kind: OverwriteKind::Role(role_id), allow: 0, deny: DENY_PERMISSIONS }),
{
    PermissionOverwrite { kind: OverwriteKind::Role(role_id), allow: 0, deny: DENY_PERMISSIONS }
}

/// The channels that still need the timed-out role's overwrite: those with none for it.
pub fn channels_to_deny(channels: &Vec<ChannelOverwrites>, role_id: u64) -> (res: Vec<u64>)
    ensures
        res@ == channels_without(channels@, role_id),
        forall|x: u64| res@.contains(x) ==> exists|i: int|
            0 <= i < channels@.len() && (#[trigger] channels@[i]).id == x
                && !channels@[i].overwrites@.contains(OverwriteKind::Role(role_id)),
        forall|i: int|
            0 <= i < channels@.len() && !(#[trigger] channels@[i]).overwrites@.contains(OverwriteKind::Role(role_id))
                ==> res@.contains(channels@[i].id),
        forall|i: int|
            0 <= i < channels@.len() && (#[trigger] channels@[i]).overwrites@.contains(OverwriteKind::Role(role_id))
                && (forall|j: int| 0 <= j < channels@.len() && j != i ==> channels@[j].id != channels@[i].id)
                ==> !res@.contains(channels@[i].id),
{
    proof {
        lemma_channels_without_lacking(channels@, role_id);
        lemma_channels_without_includes(channels@, role_id);
    }
    let target = OverwriteKind::Role(role_id);
    let mut res: Vec<u64> = Vec::new();
    let mut i: usize = 0;
    while i < channels.len()
        invariant
            i <= channels@.len(),
            target == OverwriteKind::Role(role_id),
            res@ == channels_without(channels@.take(i as int), role_id),
        decreases channels@.len() - i,
    {
        let c = &channels[i];
        let mut found = false;
        let mut j: usize = 0;
        while j < c.overwrites.len()
            invariant
                j <= c.overwrites@.len(),
                found == exists|k: int| 0 <= k < j && c.overwrites@[k] == target,
            decreases c.overwrites@.len() - j,
        {
            if c.overwrites[j] == target {
                found = true;
            }
            j = j + 1;
        }
        assert(channels@.take(i + 1).drop_last() == channels@.take(i as int));
        assert(channels@.take(i + 1).last() == *c);
        if !found {
            res.push(c.id);
        }
        i = i + 1;
    }
    assert(channels@.take(channels@.len() as int) == channels@);
    res
}

} // verus!
