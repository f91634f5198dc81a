//! What the quick switcher offers before anything is typed: the remembered
//! places and, in the mixed order, every direct message, guild and channel
//! not among them yet.

use vstd::prelude::*;
use crate::entities::{Channel, ChannelKind, Guild};
use crate::guilds_tree::{channel_position, GuildsTreeData};
use crate::quick_switcher::{
    result_view, results_view, QuickSwitcherSortMode, RecentItem, ResultView, SearchKind, SearchResult,
};
use crate::chars::to_chars;
use crate::text::chars_eq_str;
use crate::utils::{decimal, parse_u64, parse_u64_str, u64_to_decimal};

verus! {

/// The name of the first guild with the id.
pub open spec fn first_guild_name(guilds: Seq<Guild>, id: u64) -> Option<Seq<char>>
    decreases guilds.len(),
{
    if guilds.len() == 0 {
        None
    } else if guilds[0].id == id {
        Some(guilds[0].name@)
    } else {
        first_guild_name(guilds.drop_first(), id)
    }
}

/// The guild a remembered place is shown under, as id text and name: its
/// guild id must read as a number of a known guild.
pub open spec fn recent_guild(r: RecentItem, guilds: Seq<Guild>) -> Option<(Seq<char>, Seq<char>)> {
    match r.guild_id {
        Some(g) => match parse_u64(g@) {
            Some(id) => match first_guild_name(guilds, id) {
                Some(n) => Some((g@, n)),
                None => None,
            },
            None => None,
        },
        None => None,
    }
}

/// The result for a remembered place, with a score.
pub open spec fn recent_result(r: RecentItem, guilds: Seq<Guild>, score: i64) -> ResultView {
    let gd = recent_guild(r, guilds);
    (
        r.id@,
        r.name@,
        r.kind,
        score,
        match gd {
            Some(p) => Some(p.0),
            None => None,
        },
        match gd {
            Some(p) => Some(p.1),
            None => None,
        },
        None,
    )
}

/// Whether a result of the kind with the id is among `acc`.
pub open spec fn has_result(acc: Seq<ResultView>, kind: SearchKind, id: Seq<char>) -> bool {
    exists|i: int| 0 <= i < acc.len() && (#[trigger] acc[i]).2 == kind && acc[i].0 == id
}

/// `acc` with `x` added at the end, unless a result of its kind and id is there.
pub open spec fn push_new(acc: Seq<ResultView>, x: ResultView) -> Seq<ResultView> {
    if has_result(acc, x.2, x.0) {
        acc
    } else {
        acc.push(x)
    }
}

/// `acc` with each of `xs` added in turn, unless already there.
pub open spec fn push_all_new(acc: Seq<ResultView>, xs: Seq<ResultView>) -> Seq<ResultView>
    decreases xs.len(),
{
    if xs.len() == 0 {
        acc
    } else {
        push_new(push_all_new(acc, xs.drop_last()), xs.last())
    }
}

/// The result for a direct message (channel id and name).
pub open spec fn dm_result(u: (String, String)) -> ResultView {
    (u.0@, u.1@, SearchKind::DM, 0, None, None, None)
}

/// The result for a guild.
pub open spec fn guild_result(g: Guild) -> ResultView {
    (decimal(g.id as nat), g.name@, SearchKind::Guild, 0, None, None, None)
}

/// What a channel of a kind is found as.
pub open spec fn channel_search_kind(k: ChannelKind) -> SearchKind {
    if k.spec_is_voice() {
        SearchKind::Voice
    } else if k == ChannelKind::Thread {
        SearchKind::Thread
    } else if k == ChannelKind::Forum {
        SearchKind::Forum
    } else {
        SearchKind::Channel
    }
}

/// The name of a channel's parent, where the parent is loaded.
pub open spec fn parent_name(lists: Seq<(u64, Vec<Channel>)>, c: Channel) -> Option<Seq<char>> {
    match c.parent_id {
        Some(p) => match channel_position(lists, p) {
            Some(pos) => Some(lists[pos.0].1@[pos.1].name@),
            None => None,
        },
        None => None,
    }
}

/// The result for a channel of a guild.
pub open spec fn channel_result(lists: Seq<(u64, Vec<Channel>)>, g: Guild, c: Channel) -> ResultView {
    (
        decimal(c.id as nat),
        c.name@,
        channel_search_kind(c.kind),
        0,
        Some(decimal(g.id as nat)),
        Some(g.name@),
        parent_name(lists, c),
    )
}

/// The results for the channels of a guild, categories left out, in order.
pub open spec fn channel_results_of(lists: Seq<(u64, Vec<Channel>)>, g: Guild, chs: Seq<Channel>) -> Seq<ResultView>
    decreases chs.len(),
{
    if chs.len() == 0 {
        Seq::empty()
    } else {
        let rest = channel_results_of(lists, g, chs.drop_last());
        if chs.last().kind == ChannelKind::Category {
            rest
        } else {
            rest.push(channel_result(lists, g, chs.last()))
        }
    }
}

/// The channel results of the first `n` guilds.
pub open spec fn channel_results_upto(d: GuildsTreeData, n: int) -> Seq<ResultView>
    decreases n,
{
    if n <= 0 {
        Seq::empty()
    } else {
        channel_results_upto(d, n - 1) + match d.spec_channels(d.spec_guilds()[n - 1].id) {
            Some(chs) => channel_results_of(d.spec_channel_lists(), d.spec_guilds()[n - 1], chs),
            None => Seq::empty(),
        }
    }
}

/// The results for every loaded channel that is no category, guild by guild.
pub open spec fn spec_channel_results(d: GuildsTreeData) -> Seq<ResultView> {
    channel_results_upto(d, d.spec_guilds().len() as int)
}

/// The results before anything is typed. By recent use: the remembered
/// places, scored 100. Mixed: the remembered places, scored 0, then each
/// direct message, guild and channel whose kind and id are not there yet.
pub open spec fn spec_empty_query_results(
    mode: QuickSwitcherSortMode,
    recents: Seq<RecentItem>,
    guilds: Seq<Guild>,
    dm_users: Seq<(String, String)>,
    channels: Seq<ResultView>,
) -> Seq<ResultView> {
    match mode {
        QuickSwitcherSortMode::Recents => recents.map_values(|r: RecentItem| recent_result(r, guilds, 100)),
        QuickSwitcherSortMode::Mixed => push_all_new(
            push_all_new(
                push_all_new(
                    recents.map_values(|r: RecentItem| recent_result(r, guilds, 0)),
                    dm_users.map_values(|u: (String, String)| dm_result(u)),
                ),
                guilds.map_values(|g: Guild| guild_result(g)),
            ),
            channels,
        ),
    }
}

fn guild_name_of(guilds: &Vec<Guild>, id: u64) -> (r: Option<&String>)
    ensures
        match r {
            Some(n) => first_guild_name(guilds@, id) == Some(n@),
            None => first_guild_name(guilds@, id) is None,
        },
{
    let mut i: usize = 0;
    assert(guilds@.skip(0) =~= guilds@);
    while i < guilds.len()
        invariant
            i <= guilds@.len(),
            first_guild_name(guilds@, id) == first_guild_name(guilds@.skip(i as int), id),
        decreases guilds@.len() - i,
    {
        assert(guilds@.skip(i as int)[0] == guilds@[i as int]);
        if guilds[i].id == id {
            return Some(&guilds[i].name);
        }
        assert(guilds@.skip(i as int).drop_first() =~= guilds@.skip(i + 1));
        i = i + 1;
    }
    None
}

fn recent_search_result(r: &RecentItem, guilds: &Vec<Guild>, score: i64) -> (res: SearchResult)
    ensures
        result_view(res) == recent_result(*r, guilds@, score),
{
    let res = SearchResult::new(r.id.as_str(), r.name.as_str(), r.kind).with_score(score);
    match &r.guild_id {
        Some(gid) => match parse_u64_str(gid.as_str()) {
            Some(id) => match guild_name_of(guilds, id) {
                Some(name) => res.with_guild(gid.as_str(), name.as_str()),
                None => res,
            },
            None => res,
        },
        None => res,
    }
}

fn contains_result(acc: &Vec<SearchResult>, kind: SearchKind, id: &str) -> (b: bool)
    ensures
        b == has_result(results_view(acc@), kind, id@),
{
    let ghost v = results_view(acc@);
    let target = to_chars(id);
    let mut i: usize = 0;
    while i < acc.len()
        invariant
            i <= acc@.len(),
            v == results_view(acc@),
            target@ == id@,
            forall|k: int| 0 <= k < i ==> !((#[trigger] v[k]).2 == kind && v[k].0 == id@),
        decreases acc@.len() - i,
    {
        assert(v[i as int] == result_view(acc@[i as int]));
        if acc[i].kind == kind && chars_eq_str(&target, acc[i].id.as_str()) {
            assert(v[i as int].2 == kind && v[i as int].0 == id@);
            return true;
        }
        i = i + 1;
    }
    false
}

fn push_if_new(acc: &mut Vec<SearchResult>, x: SearchResult)
    ensures
        results_view(final(acc)@) == push_new(results_view(old(acc)@), result_view(x)),
{
    if !contains_result(acc, x.kind, x.id.as_str()) {
        let ghost before = results_view(acc@);
        acc.push(x);
        assert(results_view(acc@) =~= before.push(result_view(x)));
    }
}

/// The results for every loaded channel that is no category, guild by guild,
/// each under its guild and, where loaded, its parent.
pub fn channel_search_results(d: &GuildsTreeData) -> (r: Vec<SearchResult>)
    requires
        d.wf(),
    ensures
        results_view(r@) == spec_channel_results(*d),
{
    let guilds = d.guilds();
    let mut out: Vec<SearchResult> = Vec::new();
    let mut i: usize = 0;
    while i < guilds.len()
        invariant
            d.wf(),
            guilds@ == d.spec_guilds(),
            i <= guilds@.len(),
            results_view(out@) == channel_results_upto(*d, i as int),
        decreases guilds@.len() - i,
    {
        let g = &guilds[i];
        let ghost before = results_view(out@);
        match d.channels(g.id) {
            Some(chs) => {
                let gid = u64_to_decimal(g.id);
                let mut j: usize = 0;
                while j < chs.len()
                    invariant
                        d.wf(),
                        d.spec_channels(g.id) == Some(chs@),
                        j <= chs@.len(),
                        gid@ == decimal(g.id as nat),
                        results_view(out@) == before + channel_results_of(d.spec_channel_lists(), *g, chs@.take(j as int)),
                    decreases chs@.len() - j,
                {
                    let c = &chs[j];
                    proof {
                        assert(chs@.take(j + 1).drop_last() =~= chs@.take(j as int));
                        assert(chs@.take(j + 1).last() == *c);
                    }
                    if c.kind != ChannelKind::Category {
                        let mut res = SearchResult::new(u64_to_decimal(c.id).as_str(), c.name.as_str(), search_kind_of(c.kind))
                            .with_guild(gid.as_str(), g.name.as_str());
                        match c.parent_id {
                            Some(p) => match d.get_channel(p) {
                                Some(parent) => {
                                    res = res.with_parent_name(parent.name.as_str());
                                },
                                None => {},
                            },
                            None => {},
                        }
                        let ghost prev = results_view(out@);
                        out.push(res);
                        assert(results_view(out@) =~= prev.push(result_view(res)));
                        assert(result_view(res) == channel_result(d.spec_channel_lists(), *g, *c));
                    }
                    j = j + 1;
                }
                assert(chs@.take(chs@.len() as int) =~= chs@);
            },
            None => {
                assert(before + Seq::<ResultView>::empty() =~= before);
            },
        }
        i = i + 1;
    }
    out
}

fn search_kind_of(k: ChannelKind) -> (s: SearchKind)
    ensures
        s == channel_search_kind(k),
{
    if k.is_voice() {
        SearchKind::Voice
    } else if k == ChannelKind::Thread {
        SearchKind::Thread
    } else if k == ChannelKind::Forum {
        SearchKind::Forum
    } else {
        SearchKind::Channel
    }
}

/// The results the quick switcher offers before anything is typed, given the
/// remembered places, the guilds, the direct messages (channel id and name)
/// and the channel results.
pub fn empty_query_results(
    mode: QuickSwitcherSortMode,
    recents: &Vec<RecentItem>,
    guilds: &Vec<Guild>,
    dm_users: &Vec<(String, String)>,
    channels: Vec<SearchResult>,
) -> (r: Vec<SearchResult>)
    ensures
        results_view(r@) == spec_empty_query_results(mode, recents@, guilds@, dm_users@, results_view(channels@)),
{
    let score: i64 = match mode {
        QuickSwitcherSortMode::Recents => 100,
        QuickSwitcherSortMode::Mixed => 0,
    };
    let mut out: Vec<SearchResult> = Vec::new();
    let mut i: usize = 0;
    while i < recents.len()
        invariant
            i <= recents@.len(),
            results_view(out@) == recents@.take(i as int).map_values(|r: RecentItem| recent_result(r, guilds@, score)),
        decreases recents@.len() - i,
    {
        let res = recent_search_result(&recents[i], guilds, score);
        let ghost prev = results_view(out@);
        out.push(res);
        assert(results_view(out@) =~= prev.push(result_view(res)));
        assert(recents@.take(i + 1).map_values(|r: RecentItem| recent_result(r, guilds@, score))
            =~= prev.push(recent_result(recents@[i as int], guilds@, score)));
        i = i + 1;
    }
    assert(recents@.take(recents@.len() as int) =~= recents@);
    if mode == QuickSwitcherSortMode::Recents {
        return out;
    }
    let ghost base = results_view(out@);
    let ghost dms = dm_users@.map_values(|u: (String, String)| dm_result(u));
    let mut k: usize = 0;
    while k < dm_users.len()
        invariant
            k <= dm_users@.len(),
            dms == dm_users@.map_values(|u: (String, String)| dm_result(u)),
            results_view(out@) == push_all_new(base, dms.take(k as int)),
        decreases dm_users@.len() - k,
    {
        let u = &dm_users[k];
        proof {
            assert(dms.take(k + 1).drop_last() =~= dms.take(k as int));
            assert(dms.take(k + 1).last() == dm_result(*u));
        }
        let res = SearchResult::new(u.0.as_str(), u.1.as_str(), SearchKind::DM);
        push_if_new(&mut out, res);
        k = k + 1;
    }
    assert(dms.take(dm_users@.len() as int) =~= dms);
    let ghost base2 = results_view(out@);
    let ghost gs = guilds@.map_values(|g: Guild| guild_result(g));
    let mut k: usize = 0;
    while k < guilds.len()
        invariant
            k <= guilds@.len(),
            gs == guilds@.map_values(|g: Guild| guild_result(g)),
            results_view(out@) == push_all_new(base2, gs.take(k as int)),
        decreases guilds@.len() - k,
    {
        let g = &guilds[k];
        proof {
            assert(gs.take(k + 1).drop_last() =~= gs.take(k as int));
            assert(gs.take(k + 1).last() == guild_result(*g));
        }
        let res = SearchResult::new(u64_to_decimal(g.id).as_str(), g.name.as_str(), SearchKind::Guild);
        push_if_new(&mut out, res);
        k = k + 1;
    }
    assert(gs.take(guilds@.len() as int) =~= gs);
    let ghost base3 = results_view(out@);
    let ghost cs = results_view(channels@);
    let mut rest = channels;
    let mut k: usize = 0;
    let n: usize = rest.len();
    assert(rest@ =~= channels@.skip(0));
    while rest.len() > 0
        invariant
            k + rest@.len() == n,
            n == channels@.len(),
            cs == results_view(channels@),
            rest@ == channels@.skip(k as int),
            results_view(out@) == push_all_new(base3, cs.take(k as int)),
        decreases rest@.len(),
    {
        let c = rest.remove(0);
        proof {
            assert(c == channels@[k as int]);
            assert(cs.take(k + 1).drop_last() =~= cs.take(k as int));
            assert(cs.take(k + 1).last() == result_view(c));
            assert(rest@ =~= channels@.skip(k + 1));
        }
        push_if_new(&mut out, c);
        k = k + 1;
    }
    assert(cs.take(n as int) =~= cs);
    out
}

} // verus!
