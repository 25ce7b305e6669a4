//! Who may see which nodes, and who may act on alarms and work orders.
use std::collections::HashSet;

use vstd::prelude::*;

use crate::text::same_text;

verus! {

broadcast use vstd::std_specs::hash::group_hash_axioms;

/// Role name that only sees the nodes it has been dispatched to.
pub const TECHNICIAN: &'static str = "technician";

/// Role name that may change alarm state and dispatch work orders.
pub const OPERATOR: &'static str = "operator";

/// Role name with full access.
pub const ADMINISTRATOR: &'static str = "administrator";

/// Role name with read access and nothing else.
pub const READER: &'static str = "reader";

/// The nodes one user may see.
#[derive(Debug)]
pub enum Visibility {
    /// Administrators, operators and readers watch the whole fleet.
    Fleet,
    /// A technician watches the nodes behind their own work orders.
    Nodes(HashSet<i64>),
}

impl Visibility {
    /// Whether this view lets its user see `node_id`.
    pub open spec fn shows(&self, node_id: i64) -> bool {
        match self {
            Visibility::Fleet => true,
            Visibility::Nodes(allowed) => allowed@.contains(node_id),
        }
    }

    /// Whether this user may see anything about `node_id`.
    pub fn allows(&self, node_id: i64) -> (allowed: bool)
        ensures
            allowed == self.shows(node_id),
    {
        match self {
            Visibility::Fleet => true,
            Visibility::Nodes(allowed) => allowed.contains(&node_id),
        }
    }

    /// The node ids to filter a query by, each once, or `None` for the whole fleet.
    pub fn node_filter(&self) -> (filter: Option<Vec<i64>>)
        ensures
            match self {
                Visibility::Fleet => (filter is None),
                Visibility::Nodes(allowed) => (filter matches Some(ids) && ids@.to_set()
                    == allowed@ && ids@.no_duplicates()),
            },
    {
        match self {
            Visibility::Fleet => None,
            Visibility::Nodes(allowed) => {
                let mut ids: Vec<i64> = Vec::new();
                for id in it: allowed.iter()
                    invariant
                        it.seq().unref().to_set() == allowed@,
                        it.seq().unref().no_duplicates(),
                        ids@ == it.seq().unref().take(it.index() as int),
                        ids@.to_set().subset_of(allowed@),
                        ids@.no_duplicates(),
                        it.index() == it.seq().len() ==> ids@.to_set() == allowed@,
                {
                    ids.push(*id);
                    assert(ids@ =~= it.seq().unref().take(it.index() + 1));
                    assert(it.index() + 1 == it.seq().len() ==> ids@ =~= it.seq().unref());
                }
                Some(ids)
            },
        }
    }
}

/// Whether `role` names the role `name`.
pub open spec fn is_role(role: Seq<char>, name: &str) -> bool {
    role == name@
}

/// A user's role name and what they may see.
#[derive(Debug)]
pub struct Access {
    pub user_id: i64,
    pub role: String,
    pub visibility: Visibility,
}

impl Access {
    /// Whether this user may move an alarm along its lifecycle or complete a work order.
    pub fn may_act(&self) -> (may: bool)
        ensures
            may == !is_role(self.role@, READER),
    {
        !same_text(self.role.as_str(), READER)
    }

    /// Whether this user may dispatch work orders.
    pub fn may_dispatch(&self) -> (may: bool)
        ensures
            may == (is_role(self.role@, OPERATOR) || is_role(self.role@, ADMINISTRATOR)),
    {
        same_text(self.role.as_str(), OPERATOR) || same_text(self.role.as_str(), ADMINISTRATOR)
    }

    /// Whether this user may file the field report on one work order.
    pub fn may_complete(&self, assignee: i64) -> (may: bool)
        ensures
            may == (!is_role(self.role@, READER) && (assignee == self.user_id || is_role(
                self.role@,
                ADMINISTRATOR,
            ))),
    {
        self.may_act() && (assignee == self.user_id || self.is_admin())
    }

    /// Whether a work order listing should be narrowed to this user's own.
    pub fn sees_only_own_orders(&self) -> (narrowed: bool)
        ensures
            narrowed == is_role(self.role@, TECHNICIAN),
    {
        same_text(self.role.as_str(), TECHNICIAN)
    }

    /// Whether this user administers users and nodes.
    pub fn is_admin(&self) -> (admin: bool)
        ensures
            admin == is_role(self.role@, ADMINISTRATOR),
    {
        same_text(self.role.as_str(), ADMINISTRATOR)
    }
}

/// Whether a user may edit a node's record: an administrator may edit any,
/// anybody else only a node they own.
pub fn may_edit_node(is_admin: bool, owner_id: Option<i64>, user_id: i64) -> (may: bool)
    ensures
        may == (is_admin || owner_id == Some(user_id)),
{
    if is_admin {
        return true;
    }
    match owner_id {
        Some(owner) => owner == user_id,
        None => false,
    }
}

} // verus!
