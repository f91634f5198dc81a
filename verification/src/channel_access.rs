//! Which channels of a guild the user is shown: those whose permissions let
//! them be viewed (a thread goes by its parent's), except those under a
//! category that cannot be viewed.

use vstd::prelude::*;
use crate::entities::{Channel, ChannelKind};

verus! {

/// The last channel with the id: channels are looked up by id, a later one
/// standing for an earlier one with the same id.
pub open spec fn last_with_id(chs: Seq<Channel>, id: u64) -> Option<int>
    decreases chs.len(),
{
    if chs.len() == 0 {
        None
    } else if chs.last().id == id {
        Some(chs.len() - 1)
    } else {
        last_with_id(chs.drop_last(), id)
    }
}

/// Whether the permissions let channel `i` be viewed: a thread whose parent
/// is among the channels goes by the parent's permissions.
pub open spec fn grants_view(chs: Seq<Channel>, can_view: Seq<bool>, i: int) -> bool {
    let c = chs[i];
    if c.kind == ChannelKind::Thread && c.parent_id is Some && last_with_id(chs, c.parent_id.unwrap()) is Some {
        can_view[last_with_id(chs, c.parent_id.unwrap()).unwrap()]
    } else {
        can_view[i]
    }
}

/// Whether some channel with the id may be viewed.
pub open spec fn id_visible(chs: Seq<Channel>, can_view: Seq<bool>, id: u64) -> bool {
    exists|i: int| 0 <= i < chs.len() && (#[trigger] chs[i]).id == id && grants_view(chs, can_view, i)
}

/// Whether the channel's parent is a category that may not be viewed.
pub open spec fn under_hidden_category(chs: Seq<Channel>, can_view: Seq<bool>, c: Channel) -> bool {
    c.parent_id is Some && last_with_id(chs, c.parent_id.unwrap()) is Some
        && chs[last_with_id(chs, c.parent_id.unwrap()).unwrap()].kind == ChannelKind::Category
        && !id_visible(chs, can_view, c.parent_id.unwrap())
}

/// Whether a channel is shown.
pub open spec fn shown(chs: Seq<Channel>, can_view: Seq<bool>) -> spec_fn(Channel) -> bool {
    |c: Channel| id_visible(chs, can_view, c.id) && !under_hidden_category(chs, can_view, c)
}

/// The channels shown, in order. Without permissions (the member or the
/// guild's roles unknown) nothing may be viewed.
pub open spec fn spec_visible_channels(chs: Seq<Channel>, can_view: Option<Seq<bool>>) -> Seq<Channel> {
    match can_view {
        Some(v) => chs.filter(shown(chs, v)),
        None => Seq::empty(),
    }
}

fn last_index_with_id(chs: &Vec<Channel>, id: u64) -> (r: Option<usize>)
    ensures
        match r {
            Some(j) => last_with_id(chs@, id) == Some(j as int) && j < chs@.len(),
            None => last_with_id(chs@, id) is None,
        },
{
    let mut found: Option<usize> = None;
    let mut i: usize = 0;
    assert(chs@.take(0) =~= Seq::<Channel>::empty());
    while i < chs.len()
        invariant
            i <= chs@.len(),
            match found {
                Some(j) => last_with_id(chs@.take(i as int), id) == Some(j as int) && j < i,
                None => last_with_id(chs@.take(i as int), id) is None,
            },
        decreases chs@.len() - i,
    {
        assert(chs@.take(i + 1).drop_last() =~= chs@.take(i as int));
        if chs[i].id == id {
            found = Some(i);
        }
        i = i + 1;
    }
    assert(chs@.take(chs@.len() as int) =~= chs@);
    found
}

proof fn lemma_last_with_id_bounds(chs: Seq<Channel>, id: u64)
    ensures
        match last_with_id(chs, id) {
            Some(j) => 0 <= j < chs.len() && chs[j].id == id,
            None => forall|k: int| 0 <= k < chs.len() ==> (#[trigger] chs[k]).id != id,
        },
    decreases chs.len(),
{
    if chs.len() > 0 {
        lemma_last_with_id_bounds(chs.drop_last(), id);
        if last_with_id(chs, id) is None {
            assert forall|k: int| 0 <= k < chs.len() implies (#[trigger] chs[k]).id != id by {
                if k < chs.len() - 1 {
                    assert(chs.drop_last()[k] == chs[k]);
                }
            }
        }
    }
}

fn grants_view_exec(chs: &Vec<Channel>, can_view: &Vec<bool>, i: usize) -> (b: bool)
    requires
        i < chs@.len(),
        can_view@.len() == chs@.len(),
    ensures
        b == grants_view(chs@, can_view@, i as int),
{
    let c = &chs[i];
    proof {
        if c.parent_id is Some {
            lemma_last_with_id_bounds(chs@, c.parent_id.unwrap());
        }
    }
    if c.kind == ChannelKind::Thread {
        if let Some(p) = c.parent_id {
            if let Some(j) = last_index_with_id(chs, p) {
                return can_view[j];
            }
        }
    }
    can_view[i]
}

fn id_visible_exec(chs: &Vec<Channel>, can_view: &Vec<bool>, grants: &Vec<bool>, id: u64) -> (b: bool)
    requires
        can_view@.len() == chs@.len(),
        grants@.len() == chs@.len(),
        forall|i: int| 0 <= i < chs@.len() ==> #[trigger] grants@[i] == grants_view(chs@, can_view@, i),
    ensures
        b == id_visible(chs@, can_view@, id),
{
    let mut i: usize = 0;
    while i < chs.len()
        invariant
            i <= chs@.len(),
            grants@.len() == chs@.len(),
            forall|i: int| 0 <= i < chs@.len() ==> #[trigger] grants@[i] == grants_view(chs@, can_view@, i),
            forall|k: int| 0 <= k < i ==> !((#[trigger] chs@[k]).id == id && grants_view(chs@, can_view@, k)),
        decreases chs@.len() - i,
    {
        if chs[i].id == id && grants[i] {
            assert(chs@[i as int].id == id && grants_view(chs@, can_view@, i as int));
            return true;
        }
        i = i + 1;
    }
    false
}

fn is_shown(chs: &Vec<Channel>, can_view: &Vec<bool>, grants: &Vec<bool>, i: usize) -> (b: bool)
    requires
        i < chs@.len(),
        can_view@.len() == chs@.len(),
        grants@.len() == chs@.len(),
        forall|i: int| 0 <= i < chs@.len() ==> #[trigger] grants@[i] == grants_view(chs@, can_view@, i),
    ensures
        b == shown(chs@, can_view@)(chs@[i as int]),
{
    let c = &chs[i];
    if !id_visible_exec(chs, can_view, grants, c.id) {
        return false;
    }
    proof {
        if c.parent_id is Some {
            lemma_last_with_id_bounds(chs@, c.parent_id.unwrap());
        }
    }
    let hidden_parent = match c.parent_id {
        Some(p) => match last_index_with_id(chs, p) {
            Some(j) => chs[j].kind == ChannelKind::Category && !id_visible_exec(chs, can_view, grants, p),
            None => false,
        },
        None => false,
    };
    assert(hidden_parent == under_hidden_category(chs@, can_view@, chs@[i as int]));
    !hidden_parent
}

/// The channels of a guild that are shown, in order, given for each channel
/// whether its permissions let it be viewed, or nothing where the member or
/// the guild's roles are unknown.
pub fn visible_channels(channels: Vec<Channel>, can_view: Option<Vec<bool>>) -> (r: Vec<Channel>)
    requires
        can_view matches Some(v) ==> v@.len() == channels@.len(),
    ensures
        r@ == spec_visible_channels(
            channels@,
            match can_view {
                Some(v) => Some(v@),
                None => None,
            },
        ),
{
    let v = match can_view {
        Some(v) => v,
        None => {
            return Vec::new();
        },
    };
    let ghost all = channels@;
    let ghost pred = shown(all, v@);
    let mut grants: Vec<bool> = Vec::new();
    let mut i: usize = 0;
    while i < channels.len()
        invariant
            i <= channels@.len(),
            v@.len() == channels@.len(),
            grants@.len() == i,
            forall|k: int| 0 <= k < i ==> #[trigger] grants@[k] == grants_view(channels@, v@, k),
        decreases channels@.len() - i,
    {
        let g = grants_view_exec(&channels, &v, i);
        grants.push(g);
        i = i + 1;
    }
    let mut keep: Vec<bool> = Vec::new();
    let mut i: usize = 0;
    while i < channels.len()
        invariant
            i <= channels@.len(),
            v@.len() == channels@.len(),
            grants@.len() == channels@.len(),
            forall|k: int| 0 <= k < channels@.len() ==> #[trigger] grants@[k] == grants_view(channels@, v@, k),
            keep@.len() == i,
            forall|k: int| 0 <= k < i ==> #[trigger] keep@[k] == shown(channels@, v@)(channels@[k]),
        decreases channels@.len() - i,
    {
        let s = is_shown(&channels, &v, &grants, i);
        keep.push(s);
        i = i + 1;
    }
    let mut rest = channels;
    let mut kept: Vec<Channel> = Vec::new();
    let mut n: usize = 0;
    let total: usize = rest.len();
    proof {
        reveal(Seq::filter);
        assert(all.take(0) =~= Seq::<Channel>::empty());
        assert(rest@ =~= all.skip(0));
    }
    while rest.len() > 0
        invariant
            n + rest@.len() == total,
            total == all.len(),
            keep@.len() == all.len(),
            pred == shown(all, v@),
            forall|k: int| 0 <= k < all.len() ==> #[trigger] keep@[k] == pred(all[k]),
            rest@ == all.skip(n as int),
            kept@ == all.take(n as int).filter(pred),
        decreases rest@.len(),
    {
        let c = rest.remove(0);
        proof {
            reveal(Seq::filter);
            assert(c == all[n as int]);
            assert(all.take(n + 1).drop_last() =~= all.take(n as int));
            assert(all.take(n + 1).last() == c);
            assert(rest@ =~= all.skip(n + 1));
        }
        if keep[n] {
            kept.push(c);
        }
        proof {
            reveal(Seq::filter);
        }
        assert(kept@ =~= all.take(n + 1).filter(pred));
        n = n + 1;
    }
    assert(all.take(n as int) =~= all);
    kept
}

} // verus!
