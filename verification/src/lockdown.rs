//! Locking a channel down: the permission overwrites saved per channel and the overwrite
//! that silences everyone.
use std::collections::HashMap;
use serenity::model::Permissions;
use vstd::prelude::*;

verus! {

broadcast use vstd::std_specs::hash::group_hash_axioms;

/// Whom a permission overwrite applies to.
#[derive(Clone, Copy, Debug, PartialEq, Eq, Structural)]
pub enum OverwriteKind {
    Member(u64),
    Role(u64),
}

/// A channel permission overwrite: the permission bits allowed and denied.
#[derive(Clone, Copy, Debug, PartialEq, Eq, Structural)]
pub struct Overwrite {
    pub allow: u64,
    pub deny: u64,
    pub kind: OverwriteKind,
}

/// The permission bits of sending messages and of adding reactions.
pub open spec fn silenced_bits() -> u64 {
    0x840
}

/// serenity's `Permissions::SEND_MESSAGES` as bits: bit 11, as the crate's source defines it.
#[verifier::external_body]
fn send_messages_bits() -> (bits: u64)
    ensures
        bits == 0x800,
{
    Permissions::SEND_MESSAGES.bits()
}

/// serenity's `Permissions::ADD_REACTIONS` as bits: bit 6, as the crate's source defines it.
#[verifier::external_body]
fn add_reactions_bits() -> (bits: u64)
    ensures
        bits == 0x40,
{
    Permissions::ADD_REACTIONS.bits()
}

/// The first overwrite for the role whose id is the guild's id (the everyone role), if any.
pub open spec fn everyone_overwrite_of(ows: Seq<Overwrite>, guild_id: u64) -> Option<Overwrite>
    decreases ows.len(),
{
    if ows.len() == 0 {
        None
    } else if ows[0].kind == OverwriteKind::Role(guild_id) {
        Some(ows[0])
    } else {
        everyone_overwrite_of(ows.drop_first(), guild_id)
    }
}

/// Finds the everyone role's overwrite of the channel (see `everyone_overwrite_of`).
pub fn everyone_overwrite(ows: &Vec<Overwrite>, guild_id: u64) -> (r: Option<Overwrite>)
    ensures
        r == everyone_overwrite_of(ows@, guild_id),
{
    let mut i: usize = 0;
    assert(ows@.skip(0) =~= ows@);
    while i < ows.len()
        invariant
            i <= ows@.len(),
            everyone_overwrite_of(ows@, guild_id) == everyone_overwrite_of(ows@.skip(i as int), guild_id),
        decreases ows@.len() - i,
    {
        if ows[i].kind == OverwriteKind::Role(guild_id) {
            return Some(ows[i]);
        }
        assert(ows@.skip(i as int).drop_first() =~= ows@.skip(i + 1));
        i = i + 1;
    }
    None
}

/// The everyone role's overwrite during a lockdown: nothing allowed, and besides what was
/// denied before, sending messages and adding reactions denied.
pub fn lockdown_overwrite(old: &Overwrite, guild_id: u64) -> (ow: Overwrite)
    ensures
        ow.allow == 0,
        ow.deny == old.deny | silenced_bits(),
        ow.kind == OverwriteKind::Role(guild_id),
{
    let send = send_messages_bits();
    let react = add_reactions_bits();
    assert(send | react == silenced_bits()) by (bit_vector)
        requires
            send == 0x800u64,
            react == 0x40u64;
    let silenced = send | react;
    assert(old.deny | silenced == old.deny | silenced_bits());
    Overwrite { allow: 0, deny: old.deny | silenced, kind: OverwriteKind::Role(guild_id) }
}

/// The overwrites that channels had before they were locked down.
pub struct State {
    old_permissions: HashMap<u64, Vec<Overwrite>>,
}

impl View for State {
    type V = Map<u64, Seq<Overwrite>>;

    closed spec fn view(&self) -> Map<u64, Seq<Overwrite>> {
        self.old_permissions@.map_values(|v: Vec<Overwrite>| v@)
    }
}

impl State {
    /// No channel is locked down.
    pub fn new() -> (s: State)
        ensures
            s@ == Map::<u64, Seq<Overwrite>>::empty(),
    {
        let s = State { old_permissions: HashMap::new() };
        assert(s@ =~= Map::<u64, Seq<Overwrite>>::empty());
        s
    }

    /// Saves the channel's overwrites from before its lockdown.
    pub fn insert(&mut self, channel_id: u64, ows: Vec<Overwrite>)
        ensures
            final(self)@ == old(self)@.insert(channel_id, ows@),
    {
        let ghost v = ows@;
        self.old_permissions.insert(channel_id, ows);
        assert(self@ =~= old(self)@.insert(channel_id, v));
    }

    /// The channel is locked down.
    pub fn is_active(&self, channel_id: u64) -> (r: bool)
        ensures
            r == self@.contains_key(channel_id),
    {
        self.old_permissions.contains_key(&channel_id)
    }

    /// Forgets the channel's saved overwrites.
    pub fn remove(&mut self, channel_id: u64)
        ensures
            final(self)@ == old(self)@.remove(channel_id),
    {
        self.old_permissions.remove(&channel_id);
        assert(self@ =~= old(self)@.remove(channel_id));
    }
}

/// What a lockdown saved can be read back while it lasts, and ending it forgets it: after
/// saving overwrites for a channel the channel is locked down with exactly those, and after
/// removing it is not.
pub proof fn lemma_lockdown_roundtrip(s: Map<u64, Seq<Overwrite>>, channel_id: u64, ows: Seq<Overwrite>)
    ensures
        s.insert(channel_id, ows).contains_key(channel_id),
        s.insert(channel_id, ows)[channel_id] == ows,
        !s.insert(channel_id, ows).remove(channel_id).contains_key(channel_id),
        s.insert(channel_id, ows).remove(channel_id) == s.remove(channel_id),
{
    assert(s.insert(channel_id, ows).remove(channel_id) =~= s.remove(channel_id));
}

} // verus!
