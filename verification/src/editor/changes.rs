//! Following committed change events onto the editor's view state.
//!
//! An edit that arrives over the session is already in the project when the
//! editor sees it. What is left is the state the project does not own: what
//! is selected, and which waveforms are cached. Both are keyed by entity ID,
//! so a change that only updates an entity leaves them alone; only a removal
//! has to be followed.

use vstd::prelude::*;

use crate::text::same_text;

verus! {

/// What happened to an entity.
#[derive(Clone, Copy, Debug, PartialEq, Eq, Structural)]
pub enum ChangeKind {
    Added,
    Updated,
    Removed,
}

/// The kind of entity a change is about: one for each kind of ID the project
/// model has.
#[derive(Clone, Copy, Debug, PartialEq, Eq, Structural)]
pub enum EntityKind {
    Project,
    Asset,
    Bus,
    Track,
    Layer,
    Clip,
    Effect,
    Marker,
    Automation,
    Pattern,
}

/// One committed change, with the entity's ID as it appears on the wire.
#[derive(Clone, Debug)]
pub struct ChangeEvent {
    pub sequence: u64,
    pub kind: ChangeKind,
    pub entity_kind: EntityKind,
    pub entity_id: String,
}

/// `change` removed the entity of `entity_kind` with `entity_id`.
pub open spec fn removal_of(change: ChangeEvent, entity_kind: EntityKind, entity_id: Seq<char>) -> bool {
    change.kind == ChangeKind::Removed && change.entity_kind == entity_kind && change.entity_id@
        == entity_id
}

/// True when `changes` removed the entity of `entity_kind` with `entity_id`.
pub fn removes(changes: &Vec<ChangeEvent>, entity_kind: EntityKind, entity_id: &str) -> (removed:
    bool)
    ensures
        removed == exists|i: int|
            0 <= i < changes@.len() && #[trigger] removal_of(changes@[i], entity_kind, entity_id@),
{
    let mut i: usize = 0;
    while i < changes.len()
        invariant
            i <= changes@.len(),
            forall|k: int| 0 <= k < i ==> !#[trigger] removal_of(changes@[k], entity_kind, entity_id@),
        decreases changes@.len() - i,
    {
        let change = &changes[i];
        if change.kind == ChangeKind::Removed && change.entity_kind == entity_kind && same_text(
            change.entity_id.as_str(),
            entity_id,
        ) {
            assert(removal_of(changes@[i as int], entity_kind, entity_id@));
            return true;
        }
        i = i + 1;
    }
    false
}

/// The IDs of the assets that `changes` removed, in order.
pub open spec fn removed_asset_ids(changes: Seq<ChangeEvent>) -> Seq<Seq<char>>
    decreases changes.len(),
{
    if changes.len() == 0 {
        Seq::empty()
    } else {
        let last = changes.last();
        let before = removed_asset_ids(changes.drop_last());
        if last.kind == ChangeKind::Removed && last.entity_kind == EntityKind::Asset {
            before.push(last.entity_id@)
        } else {
            before
        }
    }
}

/// The IDs of every asset these changes removed, as they appear on the wire,
/// in the order they were removed.
pub fn removed_assets(changes: &Vec<ChangeEvent>) -> (ids: Vec<&str>)
    ensures
        ids@.map_values(|id: &str| id@) == removed_asset_ids(changes@),
{
    let mut ids: Vec<&str> = Vec::new();
    let mut i: usize = 0;
    while i < changes.len()
        invariant
            i <= changes@.len(),
            ids@.map_values(|id: &str| id@) == removed_asset_ids(changes@.subrange(0, i as int)),
        decreases changes@.len() - i,
    {
        let change = &changes[i];
        assert(changes@.subrange(0, i + 1).drop_last() =~= changes@.subrange(0, i as int));
        if change.kind == ChangeKind::Removed && change.entity_kind == EntityKind::Asset {
            ids.push(change.entity_id.as_str());
        }
        assert(ids@.map_values(|id: &str| id@) =~= removed_asset_ids(
            changes@.subrange(0, i + 1),
        ));
        i = i + 1;
    }
    assert(changes@.subrange(0, changes@.len() as int) =~= changes@);
    ids
}

} // verus!
