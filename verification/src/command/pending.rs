//! The table of requests that wait for their answer.
//!
//! The table is an `indexmap::IndexMap` from request id to state. Verus does
//! not look inside it: the functions here say what each call does to the
//! entries.

use crate::frame::{Command, CommandView};
use indexmap::IndexMap;
use vstd::prelude::*;

verus! {

/// Where a request stands.
#[derive(Debug)]
pub enum Pending {
    /// Sent; the answer has not been read.
    Awaited,
    /// The answer was read and waits to be claimed.
    Delivered(Command),
}

/// [`Pending`] as a mathematical value.
pub enum PendingView {
    Awaited,
    Delivered(CommandView),
}

impl View for Pending {
    type V = PendingView;

    open spec fn view(&self) -> PendingView {
        match self {
            Pending::Awaited => PendingView::Awaited,
            Pending::Delivered(frame) => PendingView::Delivered(frame@),
        }
    }
}

/// `indexmap::IndexMap`, of which nothing is known here but what
/// [`entries`] says.
#[verifier::external_type_specification]
#[verifier::external_body]
#[verifier::reject_recursive_types(K)]
#[verifier::reject_recursive_types(V)]
#[verifier::reject_recursive_types(S)]
pub struct ExIndexMap<K, V, S>(IndexMap<K, V, S>);

/// The entries of a table: the state stored for each id that has one.
pub uninterp spec fn entries(table: IndexMap<i32, Pending>) -> Map<i32, Pending>;

/// `IndexMap::new`: a table without entries.
#[verifier::external_body]
pub(crate) fn new_table() -> (fresh: IndexMap<i32, Pending>)
    ensures
        entries(fresh) == (Map::<i32, Pending>::empty()),
{
    IndexMap::new()
}

/// `IndexMap::insert`: stores `state` for `id`, in place of what was stored
/// for it, and returns what was stored. Other entries stay.
#[verifier::external_body]
pub(crate) fn table_insert(table: &mut IndexMap<i32, Pending>, id: i32, state: Pending) -> (before:
    Option<Pending>)
    ensures
        entries(*final(table)) == entries(*old(table)).insert(id, state),
        before == if entries(*old(table)).dom().contains(id) {
            Some(entries(*old(table))[id])
        } else {
            None
        },
{
    table.insert(id, state)
}

/// `IndexMap::get`: what is stored for `id`, if anything.
#[verifier::external_body]
pub(crate) fn table_get(table: &IndexMap<i32, Pending>, id: i32) -> (state: Option<&Pending>)
    ensures
        state == if entries(*table).dom().contains(id) {
            Some(&entries(*table)[id])
        } else {
            None
        },
{
    table.get(&id)
}

/// `IndexMap::shift_remove`: removes the entry of `id` and returns what was
/// stored for it. Other entries stay.
#[verifier::external_body]
pub(crate) fn table_shift_remove(table: &mut IndexMap<i32, Pending>, id: i32) -> (state: Option<
    Pending,
>)
    ensures
        entries(*final(table)) == entries(*old(table)).remove(id),
        state == if entries(*old(table)).dom().contains(id) {
            Some(entries(*old(table))[id])
        } else {
            None
        },
{
    table.shift_remove(&id)
}

/// `IndexMap::is_empty`: whether the table has no entry.
#[verifier::external_body]
pub(crate) fn table_is_empty(table: &IndexMap<i32, Pending>) -> (empty: bool)
    ensures
        empty <==> entries(*table).dom() == Set::<i32>::empty(),
{
    table.is_empty()
}

} // verus!
