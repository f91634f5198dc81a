//! The quick switcher: a search box, its results ordered by recent use or by
//! a mix of recent use and relevance, and keyboard navigation.

use vstd::prelude::*;
use crate::chars::{from_chars, to_chars};
use crate::keys::{KeyCode, KeyEvent, MOD_ALT, MOD_CONTROL};
use crate::sorting::{lemma_stable_sort_permutation, lemma_stable_sort_sorted, sorted_by, stable_sort, total_preorder};
use crate::text::{is_whitespace, is_ws, strip_end, ws_pred};

verus! {

/// What a search result or recent item is.
#[derive(Clone, Copy, Debug, PartialEq, Eq, Structural, Hash)]
pub enum SearchKind {
    DM,
    Guild,
    Channel,
    Thread,
    Forum,
    Voice,
}

/// A search result: what it points at, how well it matched, and the guild
/// and parent channel it is shown under.
#[derive(Debug)]
pub struct SearchResult {
    pub id: String,
    pub name: String,
    pub kind: SearchKind,
    pub score: i64,
    pub guild_id: Option<String>,
    pub guild_name: Option<String>,
    pub parent_name: Option<String>,
}

/// The view of an optional string.
pub open spec fn opt_view(o: Option<String>) -> Option<Seq<char>> {
    match o {
        Some(s) => Some(s@),
        None => None,
    }
}

/// A search result as plain values: id, name, kind, score, guild id, guild
/// name and parent name.
pub type ResultView = (Seq<char>, Seq<char>, SearchKind, i64, Option<Seq<char>>, Option<Seq<char>>, Option<Seq<char>>);

/// The plain values of a search result.
pub open spec fn result_view(r: SearchResult) -> ResultView {
    (r.id@, r.name@, r.kind, r.score, opt_view(r.guild_id), opt_view(r.guild_name), opt_view(r.parent_name))
}

/// The plain values of search results, in order.
pub open spec fn results_view(s: Seq<SearchResult>) -> Seq<ResultView> {
    s.map_values(|r: SearchResult| result_view(r))
}

fn copy_opt(o: &Option<String>) -> (r: Option<String>)
    ensures
        opt_view(r) == opt_view(*o),
{
    match o {
        Some(s) => Some(from_chars(&to_chars(s.as_str()))),
        None => None,
    }
}

fn opt_eq(a: &Option<String>, b: &Option<String>) -> (r: bool)
    ensures
        r == (opt_view(*a) == opt_view(*b)),
{
    match (a, b) {
        (Some(x), Some(y)) => *x == *y,
        (None, None) => true,
        _ => false,
    }
}

impl SearchResult {
    /// A result with score 0, under no guild or parent.
    pub fn new(id: &str, name: &str, kind: SearchKind) -> (r: SearchResult)
        ensures
            r.id@ == id@,
            r.name@ == name@,
            r.kind == kind,
            r.score == 0,
            r.guild_id is None,
            r.guild_name is None,
            r.parent_name is None,
    {
        SearchResult {
            id: from_chars(&to_chars(id)),
            name: from_chars(&to_chars(name)),
            kind,
            score: 0,
            guild_id: None,
            guild_name: None,
            parent_name: None,
        }
    }

    /// The same result with the given score.
    pub fn with_score(self, score: i64) -> (r: SearchResult)
        ensures
            r == (SearchResult { score, ..self }),
    {
        SearchResult { score, ..self }
    }

    /// The same result shown under a guild.
    pub fn with_guild(self, guild_id: &str, guild_name: &str) -> (r: SearchResult)
        ensures
            result_view(r) == (self.id@, self.name@, self.kind, self.score, Some(guild_id@), Some(guild_name@), opt_view(
                self.parent_name,
            )),
    {
        SearchResult {
            guild_id: Some(from_chars(&to_chars(guild_id))),
            guild_name: Some(from_chars(&to_chars(guild_name))),
            ..self
        }
    }

    /// The same result shown under a parent channel.
    pub fn with_parent_name(self, parent_name: &str) -> (r: SearchResult)
        ensures
            result_view(r) == (self.id@, self.name@, self.kind, self.score, opt_view(self.guild_id), opt_view(
                self.guild_name,
            ), Some(parent_name@)),
    {
        SearchResult { parent_name: Some(from_chars(&to_chars(parent_name))), ..self }
    }
}

impl Clone for SearchResult {
    fn clone(&self) -> (r: SearchResult)
        ensures
            result_view(r) == result_view(*self),
    {
        SearchResult {
            id: self.id.clone(),
            name: self.name.clone(),
            kind: self.kind,
            score: self.score,
            guild_id: copy_opt(&self.guild_id),
            guild_name: copy_opt(&self.guild_name),
            parent_name: copy_opt(&self.parent_name),
        }
    }
}

impl PartialEq for SearchResult {
    fn eq(&self, other: &SearchResult) -> (b: bool) {
        self.id == other.id && self.name == other.name && self.kind == other.kind && self.score == other.score
            && opt_eq(&self.guild_id, &other.guild_id) && opt_eq(&self.guild_name, &other.guild_name)
            && opt_eq(&self.parent_name, &other.parent_name)
    }
}

impl vstd::std_specs::cmp::PartialEqSpecImpl for SearchResult {
    open spec fn obeys_eq_spec() -> bool {
        true
    }

    open spec fn eq_spec(&self, other: &SearchResult) -> bool {
        result_view(*self) == result_view(*other)
    }
}

/// An item the user visited, and when.
#[derive(Debug)]
pub struct RecentItem {
    pub id: String,
    pub name: String,
    pub kind: SearchKind,
    pub guild_id: Option<String>,
    pub timestamp: i64,
}

/// A remembered place as plain values: id, name, kind, guild and time.
pub open spec fn recent_view(r: RecentItem) -> (Seq<char>, Seq<char>, SearchKind, Option<Seq<char>>, i64) {
    (
        r.id@,
        r.name@,
        r.kind,
        match r.guild_id {
            Some(g) => Some(g@),
            None => None,
        },
        r.timestamp,
    )
}

/// Remembered places as plain values, in order.
pub open spec fn recents_view(s: Seq<RecentItem>) -> Seq<(Seq<char>, Seq<char>, SearchKind, Option<Seq<char>>, i64)> {
    s.map_values(|r: RecentItem| recent_view(r))
}

/// How results are ordered.
#[derive(Clone, Copy, Debug, PartialEq, Eq, Structural)]
pub enum QuickSwitcherSortMode {
    Recents,
    Mixed,
}

impl Default for QuickSwitcherSortMode {
    fn default() -> (m: QuickSwitcherSortMode)
        ensures
            m == QuickSwitcherSortMode::Recents,
    {
        QuickSwitcherSortMode::Recents
    }
}

/// When a result was last visited: the timestamp of the first recent item
/// with its id and kind, or 0.
pub open spec fn recent_time(recents: Seq<RecentItem>, r: SearchResult) -> i64
    decreases recents.len(),
{
    if recents.len() == 0 {
        0
    } else if recents[0].id@ == r.id@ && recents[0].kind == r.kind {
        recents[0].timestamp
    } else {
        recent_time(recents.drop_first(), r)
    }
}

fn recent_time_exec(recents: &Vec<RecentItem>, r: &SearchResult) -> (t: i64)
    ensures
        t == recent_time(recents@, *r),
{
    let mut i: usize = 0;
    assert(recents@.skip(0) =~= recents@);
    while i < recents.len()
        invariant
            i <= recents@.len(),
            recent_time(recents@, *r) == recent_time(recents@.skip(i as int), *r),
        decreases recents@.len() - i,
    {
        assert(recents@.skip(i as int)[0] == recents@[i as int]);
        if recents[i].id == r.id && recents[i].kind == r.kind {
            return recents[i].timestamp;
        }
        assert(recents@.skip(i as int).drop_first() =~= recents@.skip(i + 1));
        i = i + 1;
    }
    0
}

/// Recents order: later visits first, then higher scores.
pub open spec fn recents_le(recents: Seq<RecentItem>, a: SearchResult, b: SearchResult) -> bool {
    let ta = recent_time(recents, a);
    let tb = recent_time(recents, b);
    ta > tb || (ta == tb && a.score >= b.score)
}

/// Lexicographic order of character sequences.
pub open spec fn lex_le(a: Seq<char>, b: Seq<char>) -> bool
    decreases a.len(),
{
    if a.len() == 0 {
        true
    } else if b.len() == 0 {
        false
    } else if a[0] != b[0] {
        a[0] < b[0]
    } else {
        lex_le(a.drop_first(), b.drop_first())
    }
}

proof fn lemma_lex_total(a: Seq<char>, b: Seq<char>)
    ensures
        lex_le(a, b) || lex_le(b, a),
    decreases a.len(),
{
    if a.len() > 0 && b.len() > 0 && a[0] == b[0] {
        lemma_lex_total(a.drop_first(), b.drop_first());
    }
}

proof fn lemma_lex_trans(a: Seq<char>, b: Seq<char>, c: Seq<char>)
    requires
        lex_le(a, b),
        lex_le(b, c),
    ensures
        lex_le(a, c),
    decreases a.len(),
{
    if a.len() > 0 && b.len() > 0 && c.len() > 0 && a[0] == b[0] && b[0] == c[0] {
        lemma_lex_trans(a.drop_first(), b.drop_first(), c.drop_first());
    }
}

fn lex_le_exec(a: &Vec<char>, b: &Vec<char>) -> (r: bool)
    ensures
        r == lex_le(a@, b@),
{
    let mut i: usize = 0;
    assert(a@.skip(0) =~= a@);
    assert(b@.skip(0) =~= b@);
    while i < a.len() && i < b.len() && a[i] == b[i]
        invariant
            i <= a@.len(),
            i <= b@.len(),
            lex_le(a@, b@) == lex_le(a@.skip(i as int), b@.skip(i as int)),
        decreases a@.len() - i,
    {
        assert(a@.skip(i as int).drop_first() =~= a@.skip(i + 1));
        assert(b@.skip(i as int).drop_first() =~= b@.skip(i + 1));
        i = i + 1;
    }
    if i == a.len() {
        true
    } else if i == b.len() {
        false
    } else {
        a[i] < b[i]
    }
}

/// The order of kinds when nothing was visited: direct messages, guilds, the rest.
pub open spec fn kind_priority(k: SearchKind) -> int {
    match k {
        SearchKind::DM => 0,
        SearchKind::Guild => 1,
        _ => 2,
    }
}

fn kind_priority_exec(k: SearchKind) -> (p: u8)
    ensures
        p == kind_priority(k),
{
    match k {
        SearchKind::DM => 0,
        SearchKind::Guild => 1,
        _ => 2,
    }
}

/// Whether a result is one of the most recently visited.
pub open spec fn is_top(top: Seq<(Seq<char>, SearchKind)>, r: SearchResult) -> bool {
    top.contains((r.id@, r.kind))
}

/// Mixed order: the most recently visited first, by time; then by kind,
/// higher score and name.
pub open spec fn mixed_le(recents: Seq<RecentItem>, top: Seq<(Seq<char>, SearchKind)>, a: SearchResult, b: SearchResult) -> bool {
    let at = is_top(top, a);
    let bt = is_top(top, b);
    if at && bt {
        recent_time(recents, a) >= recent_time(recents, b)
    } else if at {
        true
    } else if bt {
        false
    } else {
        let pa = kind_priority(a.kind);
        let pb = kind_priority(b.kind);
        pa < pb || (pa == pb && (a.score > b.score || (a.score == b.score && lex_le(a.name@, b.name@))))
    }
}

/// The recents order as a relation.
pub open spec fn recents_order(recents: Seq<RecentItem>) -> spec_fn(SearchResult, SearchResult) -> bool {
    |a: SearchResult, b: SearchResult| recents_le(recents, a, b)
}

/// The mixed order as a relation.
pub open spec fn mixed_order(recents: Seq<RecentItem>, top: Seq<(Seq<char>, SearchKind)>) -> spec_fn(SearchResult, SearchResult) -> bool {
    |a: SearchResult, b: SearchResult| mixed_le(recents, top, a, b)
}

/// The results paired with their positions and visit times, in order.
pub open spec fn timed(recents: Seq<RecentItem>, results: Seq<SearchResult>) -> Seq<(int, i64)> {
    Seq::new(results.len(), |i: int| (i, recent_time(recents, results[i])))
}

/// Later visits first.
pub open spec fn time_desc() -> spec_fn((int, i64), (int, i64)) -> bool {
    |a: (int, i64), b: (int, i64)| a.1 >= b.1
}

/// The ids and kinds of the at most three most recently visited results:
/// the results stably ordered by visit time, those visited, the first three.
pub open spec fn top_recents(recents: Seq<RecentItem>, results: Seq<SearchResult>) -> Seq<(Seq<char>, SearchKind)> {
    let by_time = stable_sort(timed(recents, results), time_desc());
    let visited = by_time.filter(|p: (int, i64)| p.1 > 0);
    let first = if visited.len() > 3 { visited.take(3) } else { visited };
    first.map_values(|p: (int, i64)| (results[p.0].id@, results[p.0].kind))
}

/// The results in the order of the sort mode.
pub open spec fn spec_apply_sort(mode: QuickSwitcherSortMode, recents: Seq<RecentItem>, results: Seq<SearchResult>) -> Seq<SearchResult> {
    match mode {
        QuickSwitcherSortMode::Recents => stable_sort(results, recents_order(recents)),
        QuickSwitcherSortMode::Mixed => stable_sort(results, mixed_order(recents, top_recents(recents, results))),
    }
}

/// The recents order is a total preorder.
pub proof fn lemma_recents_order_total_preorder(recents: Seq<RecentItem>)
    ensures
        total_preorder(recents_order(recents)),
{
}

/// The mixed order is a total preorder.
pub proof fn lemma_mixed_order_total_preorder(recents: Seq<RecentItem>, top: Seq<(Seq<char>, SearchKind)>)
    ensures
        total_preorder(mixed_order(recents, top)),
{
    let le = mixed_order(recents, top);
    assert forall|a: SearchResult, b: SearchResult| #[trigger] le(a, b) || le(b, a) by {
        lemma_lex_total(a.name@, b.name@);
    }
    assert forall|a: SearchResult, b: SearchResult, c: SearchResult| #[trigger] le(a, b) && #[trigger] le(b, c) implies le(a, c) by {
        if lex_le(a.name@, b.name@) && lex_le(b.name@, c.name@) {
            lemma_lex_trans(a.name@, b.name@, c.name@);
        }
    }
}

/// In the recents order, a result visited later comes first, and among
/// results visited at the same time (or never) a higher score comes first.
pub proof fn lemma_recents_sort_later_then_higher_score(recents: Seq<RecentItem>, results: Seq<SearchResult>, i: int, j: int)
    requires
        0 <= i < j < results.len(),
    ensures
        ({
            let r = spec_apply_sort(QuickSwitcherSortMode::Recents, recents, results);
            let ti = recent_time(recents, r[i]);
            let tj = recent_time(recents, r[j]);
            &&& ti >= tj
            &&& ti == tj ==> r[i].score >= r[j].score
        }),
{
    lemma_apply_sort_sorted(QuickSwitcherSortMode::Recents, recents, results);
    lemma_stable_sort_permutation(results, recents_order(recents));
    let r = spec_apply_sort(QuickSwitcherSortMode::Recents, recents, results);
    assert(r.len() == results.len());
    assert(recents_order(recents)(r[i], r[j]));
}

/// In the mixed order, among results that are not recent favourites and
/// of the same kind, a higher score comes first.
pub proof fn lemma_mixed_sort_higher_score_first(recents: Seq<RecentItem>, results: Seq<SearchResult>, i: int, j: int)
    requires
        0 <= i < j < results.len(),
    ensures
        ({
            let r = spec_apply_sort(QuickSwitcherSortMode::Mixed, recents, results);
            let top = top_recents(recents, results);
            (!is_top(top, r[i]) && !is_top(top, r[j]) && r[i].kind == r[j].kind) ==> r[i].score >= r[j].score
        }),
{
    lemma_apply_sort_sorted(QuickSwitcherSortMode::Mixed, recents, results);
    lemma_stable_sort_permutation(results, mixed_order(recents, top_recents(recents, results)));
    let r = spec_apply_sort(QuickSwitcherSortMode::Mixed, recents, results);
    assert(r.len() == results.len());
    assert(mixed_order(recents, top_recents(recents, results))(r[i], r[j]));
}

/// The sorted results are in the order of the sort mode.
pub proof fn lemma_apply_sort_sorted(mode: QuickSwitcherSortMode, recents: Seq<RecentItem>, results: Seq<SearchResult>)
    ensures
        match mode {
            QuickSwitcherSortMode::Recents => sorted_by(spec_apply_sort(mode, recents, results), recents_order(recents)),
            QuickSwitcherSortMode::Mixed => sorted_by(
                spec_apply_sort(mode, recents, results),
                mixed_order(recents, top_recents(recents, results)),
            ),
        },
{
    match mode {
        QuickSwitcherSortMode::Recents => {
            lemma_recents_order_total_preorder(recents);
            lemma_stable_sort_sorted(results, recents_order(recents));
        },
        QuickSwitcherSortMode::Mixed => {
            let top = top_recents(recents, results);
            lemma_mixed_order_total_preorder(recents, top);
            lemma_stable_sort_sorted(results, mixed_order(recents, top));
        },
    }
}

/// What a key in the quick switcher asks for.
#[derive(Debug, PartialEq)]
pub enum QuickSwitcherAction {
    NoAction,
    Close,
    Select(SearchResult),
    UpdateSearch(String),
    ToggleSortMode,
}

/// The quick switcher.
pub struct QuickSwitcher {
    pub input: String,
    pub results: Vec<SearchResult>,
    pub selected: Option<usize>,
    pub sort_mode: QuickSwitcherSortMode,
    pub recents: Vec<RecentItem>,
}

/// The input without its last word: up to and including the last space
/// before the trailing whitespace, or nothing.
pub open spec fn without_last_word(s: Seq<char>) -> Seq<char> {
    let t = strip_end(s, ws_pred());
    if exists|i: int| 0 <= i < t.len() && t[i] == ' ' {
        let k = choose|i: int| 0 <= i < t.len() && t[i] == ' ' && forall|j: int| i < j < t.len() ==> t[j] != ' ';
        s.take(k + 1)
    } else {
        Seq::empty()
    }
}

proof fn lemma_strip_end_prefix(s: Seq<char>)
    ensures
        strip_end(s, ws_pred()).len() <= s.len(),
        strip_end(s, ws_pred()) == s.take(strip_end(s, ws_pred()).len() as int),
    decreases s.len(),
{
    if s.len() > 0 && is_ws(s.last()) {
        lemma_strip_end_prefix(s.drop_last());
        assert(s.drop_last().take(strip_end(s, ws_pred()).len() as int) =~= s.take(strip_end(s, ws_pred()).len() as int));
    } else {
        assert(s.take(s.len() as int) =~= s);
    }
}

fn delete_last_word(v: &Vec<char>) -> (r: Vec<char>)
    ensures
        r@ == without_last_word(v@),
{
    let mut end = v.len();
    proof {
        lemma_strip_end_prefix(v@);
    }
    assert(v@.take(end as int) =~= v@);
    while end > 0 && is_whitespace(v[end - 1])
        invariant
            end <= v@.len(),
            strip_end(v@, ws_pred()) == strip_end(v@.take(end as int), ws_pred()),
        decreases end,
    {
        assert(v@.take(end as int).drop_last() =~= v@.take(end - 1));
        end = end - 1;
    }
    proof {
        if end > 0 {
            assert(v@.take(end as int).last() == v@[end - 1]);
        }
    }
    let ghost t = strip_end(v@, ws_pred());
    assert(t == v@.take(end as int));
    let mut k = end;
    while k > 0 && v[k - 1] != ' '
        invariant
            k <= end <= v@.len(),
            t == v@.take(end as int),
            forall|j: int| k <= j < end ==> t[j] != ' ',
        decreases k,
    {
        k = k - 1;
    }
    if k == 0 {
        assert forall|i: int| 0 <= i < t.len() implies t[i] != ' ' by {}
        Vec::new()
    } else {
        let i = k - 1;
        assert(t[i as int] == ' ');
        let ghost c = choose|x: int| 0 <= x < t.len() && t[x] == ' ' && forall|j: int| x < j < t.len() ==> t[j] != ' ';
        assert(c == i as int) by {
            if c < i {
                assert(t[i as int] != ' ');
            }
            if c > i {
                assert(t[c] != ' ');
            }
        }
        let mut r: Vec<char> = Vec::new();
        let mut j: usize = 0;
        while j < k
            invariant
                j <= k <= v@.len(),
                r@ == v@.take(j as int),
            decreases k - j,
        {
            r.push(v[j]);
            assert(v@.take(j + 1) =~= v@.take(j as int).push(v@[j as int]));
            j = j + 1;
        }
        r
    }
}

/// The selection after moving down: the next result, wrapping to the first.
pub open spec fn spec_next_index(selected: Option<usize>, len: nat) -> Option<usize> {
    if len == 0 {
        selected
    } else {
        match selected {
            Some(i) => if i + 1 >= len { Some(0usize) } else { Some((i + 1) as usize) },
            None => Some(0usize),
        }
    }
}

/// The selection after moving up: the previous result, wrapping to the last.
pub open spec fn spec_previous_index(selected: Option<usize>, len: nat) -> Option<usize> {
    if len == 0 {
        selected
    } else {
        match selected {
            Some(i) => if i == 0 { Some((len - 1) as usize) } else { Some((i - 1) as usize) },
            None => Some(0usize),
        }
    }
}

/// Moving up undoes moving down, from any result in the list.
pub proof fn lemma_previous_undoes_next(i: usize, len: nat)
    requires
        i < len,
        len <= usize::MAX,
    ensures
        spec_previous_index(spec_next_index(Some(i), len), len) == Some(i),
{
}

impl QuickSwitcher {
    /// An empty switcher with the given sort mode.
    pub fn new(sort_mode: QuickSwitcherSortMode) -> (q: QuickSwitcher)
        ensures
            q.input@ == Seq::<char>::empty(),
            q.results@.len() == 0,
            q.selected is None,
            q.sort_mode == sort_mode,
            q.recents@.len() == 0,
    {
        QuickSwitcher { input: String::new(), results: Vec::new(), selected: None, sort_mode, recents: Vec::new() }
    }

    /// Orders the results by the sort mode.
    pub fn apply_sort(&mut self)
        ensures
            final(self).results@ == spec_apply_sort(old(self).sort_mode, old(self).recents@, old(self).results@),
            final(self).input == old(self).input,
            final(self).selected == old(self).selected,
            final(self).sort_mode == old(self).sort_mode,
            final(self).recents == old(self).recents,
    {
        let mut results: Vec<SearchResult> = Vec::new();
        std::mem::swap(&mut results, &mut self.results);
        let sorted = match self.sort_mode {
            QuickSwitcherSortMode::Recents => sort_by_recents(results, &self.recents),
            QuickSwitcherSortMode::Mixed => {
                let top = top_recent_ids(&results, &self.recents);
                sort_mixed(results, &self.recents, &top)
            },
        };
        self.results = sorted;
    }

    /// Sets the sort mode and reorders.
    pub fn set_sort_mode(&mut self, mode: QuickSwitcherSortMode)
        ensures
            final(self).sort_mode == mode,
            final(self).results@ == spec_apply_sort(mode, old(self).recents@, old(self).results@),
            final(self).input == old(self).input,
            final(self).selected == old(self).selected,
            final(self).recents == old(self).recents,
    {
        self.sort_mode = mode;
        self.apply_sort();
    }

    /// Switches between the two sort modes and reorders.
    pub fn toggle_sort_mode(&mut self)
        ensures
            final(self).sort_mode == (match old(self).sort_mode {
                QuickSwitcherSortMode::Recents => QuickSwitcherSortMode::Mixed,
                QuickSwitcherSortMode::Mixed => QuickSwitcherSortMode::Recents,
            }),
            final(self).results@ == spec_apply_sort(final(self).sort_mode, old(self).recents@, old(self).results@),
            final(self).input == old(self).input,
            final(self).selected == old(self).selected,
            final(self).recents == old(self).recents,
    {
        self.sort_mode = match self.sort_mode {
            QuickSwitcherSortMode::Recents => QuickSwitcherSortMode::Mixed,
            QuickSwitcherSortMode::Mixed => QuickSwitcherSortMode::Recents,
        };
        self.apply_sort();
    }

    /// Sets the recent items and reorders.
    pub fn set_recents(&mut self, recents: Vec<RecentItem>)
        ensures
            final(self).recents@ == recents@,
            final(self).results@ == spec_apply_sort(old(self).sort_mode, recents@, old(self).results@),
            final(self).input == old(self).input,
            final(self).selected == old(self).selected,
            final(self).sort_mode == old(self).sort_mode,
    {
        self.recents = recents;
        self.apply_sort();
    }

    /// Clears the input, the results and the selection.
    pub fn reset(&mut self)
        ensures
            final(self).input@ == Seq::<char>::empty(),
            final(self).results@.len() == 0,
            final(self).selected is None,
            final(self).sort_mode == old(self).sort_mode,
            final(self).recents == old(self).recents,
    {
        self.input = String::new();
        self.results = Vec::new();
        self.selected = None;
    }

    /// Sets the results, orders them, and selects the first if any.
    pub fn set_results(&mut self, results: Vec<SearchResult>)
        ensures
            final(self).results@ == spec_apply_sort(old(self).sort_mode, old(self).recents@, results@),
            final(self).selected == (if results@.len() == 0 { None } else { Some(0usize) }),
            final(self).input == old(self).input,
            final(self).sort_mode == old(self).sort_mode,
            final(self).recents == old(self).recents,
    {
        self.results = results;
        self.apply_sort();
        proof {
            crate::sorting::lemma_stable_sort_permutation(results@, recents_order(self.recents@));
            crate::sorting::lemma_stable_sort_permutation(
                results@,
                mixed_order(self.recents@, top_recents(self.recents@, results@)),
            );
        }
        if self.results.len() == 0 {
            self.selected = None;
        } else {
            self.selected = Some(0);
        }
    }

    /// The selected result.
    pub fn selected_result(&self) -> (r: Option<&SearchResult>)
        ensures
            r == (match self.selected {
                Some(i) => if i < self.results@.len() { Some(&self.results@[i as int]) } else { None },
                None => None,
            }),
    {
        match self.selected {
            Some(i) => if i < self.results.len() {
                Some(&self.results[i])
            } else {
                None
            },
            None => None,
        }
    }

    /// Selects the next result, wrapping to the first.
    pub fn select_next(&mut self)
        ensures
            final(self).selected == spec_next_index(old(self).selected, old(self).results@.len()),
            final(self).input == old(self).input,
            final(self).results == old(self).results,
            final(self).sort_mode == old(self).sort_mode,
            final(self).recents == old(self).recents,
    {
        let len = self.results.len();
        let i = match self.selected {
            Some(i) => if len == 0 || i >= len - 1 { 0 } else { i + 1 },
            None => 0,
        };
        if len > 0 {
            self.selected = Some(i);
        }
    }

    /// Selects the previous result, wrapping to the last.
    pub fn select_previous(&mut self)
        ensures
            final(self).selected == spec_previous_index(old(self).selected, old(self).results@.len()),
            final(self).input == old(self).input,
            final(self).results == old(self).results,
            final(self).sort_mode == old(self).sort_mode,
            final(self).recents == old(self).recents,
    {
        let len = self.results.len();
        let i = match self.selected {
            Some(i) => if i == 0 {
                if len > 0 { len - 1 } else { 0 }
            } else {
                i - 1
            },
            None => 0,
        };
        if len > 0 {
            self.selected = Some(i);
        }
    }

    /// Handles a key: `Esc` closes, `Enter` selects, arrows move, `Tab`
    /// switches the sort mode, characters and backspace edit the search (with
    /// Control, `h` and `w` delete a word; with Control or Alt, backspace does).
    pub fn handle_key(&mut self, key: KeyEvent) -> (a: QuickSwitcherAction)
        ensures
            final(self).results == old(self).results,
            final(self).sort_mode == old(self).sort_mode,
            final(self).recents == old(self).recents,
            match key.code {
                KeyCode::Esc => a == QuickSwitcherAction::Close && final(self).input@ == old(self).input@
                    && final(self).selected == old(self).selected,
                KeyCode::Enter => final(self).input@ == old(self).input@ && final(self).selected == old(self).selected
                    && match old(self).selected {
                    Some(i) => if i < old(self).results@.len() {
                        (a matches QuickSwitcherAction::Select(r) && result_view(r) == result_view(old(self).results@[i as int]))
                    } else {
                        a == QuickSwitcherAction::NoAction
                    },
                    None => a == QuickSwitcherAction::NoAction,
                },
                KeyCode::Up => a == QuickSwitcherAction::NoAction && final(self).input@ == old(self).input@
                    && final(self).selected == spec_previous_index(old(self).selected, old(self).results@.len()),
                KeyCode::Down => a == QuickSwitcherAction::NoAction && final(self).input@ == old(self).input@
                    && final(self).selected == spec_next_index(old(self).selected, old(self).results@.len()),
                KeyCode::Tab => a == QuickSwitcherAction::ToggleSortMode && final(self).input@ == old(self).input@
                    && final(self).selected == old(self).selected,
                KeyCode::Char(c) => final(self).selected == old(self).selected && (if (c == 'h' || c == 'w')
                    && key.modifiers.has(MOD_CONTROL) {
                    final(self).input@ == without_last_word(old(self).input@)
                } else {
                    final(self).input@ == old(self).input@.push(c)
                }) && (a matches QuickSwitcherAction::UpdateSearch(s) && s@ == final(self).input@),
                KeyCode::Backspace => final(self).selected == old(self).selected && (if key.modifiers.has(MOD_CONTROL)
                    || key.modifiers.has(MOD_ALT) {
                    final(self).input@ == without_last_word(old(self).input@)
                } else if old(self).input@.len() > 0 {
                    final(self).input@ == old(self).input@.drop_last()
                } else {
                    final(self).input@ == old(self).input@
                }) && (a matches QuickSwitcherAction::UpdateSearch(s) && s@ == final(self).input@),
                _ => a == QuickSwitcherAction::NoAction && final(self).input@ == old(self).input@
                    && final(self).selected == old(self).selected,
            },
    {
        match key.code {
            KeyCode::Esc => QuickSwitcherAction::Close,
            KeyCode::Enter => match self.selected_result() {
                Some(r) => QuickSwitcherAction::Select(r.clone()),
                None => QuickSwitcherAction::NoAction,
            },
            KeyCode::Up => {
                self.select_previous();
                QuickSwitcherAction::NoAction
            },
            KeyCode::Down => {
                self.select_next();
                QuickSwitcherAction::NoAction
            },
            KeyCode::Tab => QuickSwitcherAction::ToggleSortMode,
            KeyCode::Char(c) => {
                let v = to_chars(self.input.as_str());
                if (c == 'h' || c == 'w') && key.modifiers.contains(MOD_CONTROL) {
                    let w = delete_last_word(&v);
                    self.input = from_chars(&w);
                } else {
                    let mut w = v;
                    w.push(c);
                    self.input = from_chars(&w);
                }
                QuickSwitcherAction::UpdateSearch(self.input.clone())
            },
            KeyCode::Backspace => {
                let v = to_chars(self.input.as_str());
                if key.modifiers.contains(MOD_CONTROL) || key.modifiers.contains(MOD_ALT) {
                    let w = delete_last_word(&v);
                    self.input = from_chars(&w);
                } else {
                    let mut w = v;
                    if w.len() > 0 {
                        w.pop();
                    }
                    self.input = from_chars(&w);
                }
                QuickSwitcherAction::UpdateSearch(self.input.clone())
            },
            _ => QuickSwitcherAction::NoAction,
        }
    }
}

impl Default for QuickSwitcher {
    fn default() -> (q: QuickSwitcher)
        ensures
            q.input@ == Seq::<char>::empty(),
            q.results@.len() == 0,
            q.selected is None,
            q.sort_mode == QuickSwitcherSortMode::Recents,
    {
        Self::new(QuickSwitcherSortMode::Recents)
    }
}

fn recents_le_exec(recents: &Vec<RecentItem>, a: &SearchResult, b: &SearchResult) -> (r: bool)
    ensures
        r == recents_le(recents@, *a, *b),
{
    let ta = recent_time_exec(recents, a);
    let tb = recent_time_exec(recents, b);
    ta > tb || (ta == tb && a.score >= b.score)
}

fn contains_top(top: &Vec<(String, SearchKind)>, r: &SearchResult) -> (b: bool)
    ensures
        b == is_top(top@.map_values(|t: (String, SearchKind)| (t.0@, t.1)), *r),
{
    let ghost tv = top@.map_values(|t: (String, SearchKind)| (t.0@, t.1));
    let mut i: usize = 0;
    while i < top.len()
        invariant
            i <= top@.len(),
            tv == top@.map_values(|t: (String, SearchKind)| (t.0@, t.1)),
            forall|j: int| 0 <= j < i ==> tv[j] != (r.id@, r.kind),
        decreases top@.len() - i,
    {
        if top[i].0 == r.id && top[i].1 == r.kind {
            assert(tv[i as int] == (r.id@, r.kind));
            return true;
        }
        i = i + 1;
    }
    proof {
        if tv.contains((r.id@, r.kind)) {
            let j = choose|j: int| 0 <= j < tv.len() && tv[j] == (r.id@, r.kind);
            assert(tv[j] != (r.id@, r.kind));
        }
    }
    false
}

fn mixed_le_exec(recents: &Vec<RecentItem>, top: &Vec<(String, SearchKind)>, a: &SearchResult, b: &SearchResult) -> (r: bool)
    ensures
        r == mixed_le(recents@, top@.map_values(|t: (String, SearchKind)| (t.0@, t.1)), *a, *b),
{
    let at = contains_top(top, a);
    let bt = contains_top(top, b);
    if at && bt {
        recent_time_exec(recents, a) >= recent_time_exec(recents, b)
    } else if at {
        true
    } else if bt {
        false
    } else {
        let pa = kind_priority_exec(a.kind);
        let pb = kind_priority_exec(b.kind);
        if pa < pb {
            true
        } else if pa == pb {
            if a.score > b.score {
                true
            } else if a.score == b.score {
                let an = to_chars(a.name.as_str());
                let bn = to_chars(b.name.as_str());
                lex_le_exec(&an, &bn)
            } else {
                false
            }
        } else {
            false
        }
    }
}

fn sort_by_recents(results: Vec<SearchResult>, recents: &Vec<RecentItem>) -> (r: Vec<SearchResult>)
    ensures
        r@ == stable_sort(results@, recents_order(recents@)),
{
    let ghost le = recents_order(recents@);
    let ghost s = results@;
    let total = results.len();
    let mut rest = results;
    let mut out: Vec<SearchResult> = Vec::new();
    let mut n: usize = 0;
    assert(s.take(0) =~= Seq::<SearchResult>::empty());
    while rest.len() > 0
        invariant
            s.len() == total,
            le == recents_order(recents@),
            n + rest@.len() == s.len(),
            rest@ == s.skip(n as int),
            out@ == stable_sort(s.take(n as int), le),
        decreases rest@.len(),
    {
        let x = rest.remove(0);
        assert(x == s[n as int]);

        let mut k: usize = 0;
        assert(out@.skip(0) =~= out@);
        while k < out.len() && recents_le_exec(recents, &out[k], &x)
            invariant
                k <= out@.len(),
                le == recents_order(recents@),
                crate::sorting::insert_pos(out@, x, le) == k + crate::sorting::insert_pos(out@.skip(k as int), x, le),
            decreases out@.len() - k,
        {
            assert(out@.skip(k as int)[0] == out@[k as int]);
            assert(le(out@[k as int], x));
            assert(out@.skip(k as int).drop_first() =~= out@.skip(k + 1));
            k = k + 1;
        }
        proof {
            if k < out@.len() {
                assert(out@.skip(k as int)[0] == out@[k as int]);
            }
            assert(s.take(n + 1).drop_last() =~= s.take(n as int));
            assert(s.take(n + 1).last() == x);
            assert(rest@ =~= s.skip(n + 1));
        }
        out.insert(k, x);
        n = n + 1;
    }
    assert(s.take(n as int) =~= s);
    out
}

fn sort_mixed(results: Vec<SearchResult>, recents: &Vec<RecentItem>, top: &Vec<(String, SearchKind)>) -> (r: Vec<SearchResult>)
    ensures
        r@ == stable_sort(results@, mixed_order(recents@, top@.map_values(|t: (String, SearchKind)| (t.0@, t.1)))),
{
    let ghost le = mixed_order(recents@, top@.map_values(|t: (String, SearchKind)| (t.0@, t.1)));
    let ghost s = results@;
    let total = results.len();
    let mut rest = results;
    let mut out: Vec<SearchResult> = Vec::new();
    let mut n: usize = 0;
    assert(s.take(0) =~= Seq::<SearchResult>::empty());
    while rest.len() > 0
        invariant
            s.len() == total,
            le == mixed_order(recents@, top@.map_values(|t: (String, SearchKind)| (t.0@, t.1))),
            n + rest@.len() == s.len(),
            rest@ == s.skip(n as int),
            out@ == stable_sort(s.take(n as int), le),
        decreases rest@.len(),
    {
        let x = rest.remove(0);
        assert(x == s[n as int]);

        let mut k: usize = 0;
        assert(out@.skip(0) =~= out@);
        while k < out.len() && mixed_le_exec(recents, top, &out[k], &x)
            invariant
                k <= out@.len(),
                le == mixed_order(recents@, top@.map_values(|t: (String, SearchKind)| (t.0@, t.1))),
                crate::sorting::insert_pos(out@, x, le) == k + crate::sorting::insert_pos(out@.skip(k as int), x, le),
            decreases out@.len() - k,
        {
            assert(out@.skip(k as int)[0] == out@[k as int]);
            assert(le(out@[k as int], x));
            assert(out@.skip(k as int).drop_first() =~= out@.skip(k + 1));
            k = k + 1;
        }
        proof {
            if k < out@.len() {
                assert(out@.skip(k as int)[0] == out@[k as int]);
            }
            assert(s.take(n + 1).drop_last() =~= s.take(n as int));
            assert(s.take(n + 1).last() == x);
            assert(rest@ =~= s.skip(n + 1));
        }
        out.insert(k, x);
        n = n + 1;
    }
    assert(s.take(n as int) =~= s);
    out
}

fn top_recent_ids(results: &Vec<SearchResult>, recents: &Vec<RecentItem>) -> (top: Vec<(String, SearchKind)>)
    ensures
        top@.map_values(|t: (String, SearchKind)| (t.0@, t.1)) == top_recents(recents@, results@),
{
    let ghost tm = timed(recents@, results@);
    let ghost le = time_desc();
    let mut out: Vec<(usize, i64)> = Vec::new();
    let mut n: usize = 0;
    assert(tm.take(0) =~= Seq::<(int, i64)>::empty());
    while n < results.len()
        invariant
            n <= results@.len(),
            tm == timed(recents@, results@),
            le == time_desc(),
            out@.map_values(|p: (usize, i64)| (p.0 as int, p.1)) == stable_sort(tm.take(n as int), le),
            forall|j: int| 0 <= j < out@.len() ==> (#[trigger] out@[j]).0 < results@.len(),
        decreases results@.len() - n,
    {
        let x = (n, recent_time_exec(recents, &results[n]));
        let ghost xv = (n as int, x.1);
        assert(xv == tm[n as int]);
        let ghost ov = out@.map_values(|p: (usize, i64)| (p.0 as int, p.1));
        let mut k: usize = 0;
        assert(ov.skip(0) =~= ov);
        while k < out.len() && out[k].1 >= x.1
            invariant
                k <= out@.len(),
                le == time_desc(),
                xv == (n as int, x.1),
                ov == out@.map_values(|p: (usize, i64)| (p.0 as int, p.1)),
                crate::sorting::insert_pos(ov, xv, le) == k + crate::sorting::insert_pos(ov.skip(k as int), xv, le),
            decreases out@.len() - k,
        {
            assert(ov.skip(k as int)[0] == ov[k as int]);
            assert(ov[k as int] == (out@[k as int].0 as int, out@[k as int].1));
            assert(le(ov[k as int], xv));
            assert(ov.skip(k as int).drop_first() =~= ov.skip(k + 1));
            k = k + 1;
        }
        proof {
            if k < out@.len() {
                assert(ov.skip(k as int)[0] == ov[k as int]);
            }
            assert(tm.take(n + 1).drop_last() =~= tm.take(n as int));
            assert(tm.take(n + 1).last() == xv);
        }
        out.insert(k, x);
        assert(out@.map_values(|p: (usize, i64)| (p.0 as int, p.1)) =~= ov.insert(k as int, xv));
        n = n + 1;
    }
    assert(tm.take(n as int) =~= tm);
    let ghost by_time = out@.map_values(|p: (usize, i64)| (p.0 as int, p.1));
    let ghost visited = by_time.filter(|p: (int, i64)| p.1 > 0);
    let mut top: Vec<(String, SearchKind)> = Vec::new();
    let mut i: usize = 0;
    assert(by_time.take(0).filter(|p: (int, i64)| p.1 > 0) =~= Seq::<(int, i64)>::empty());
    while i < out.len() && top.len() < 3
        invariant
            i <= out@.len(),
            by_time == out@.map_values(|p: (usize, i64)| (p.0 as int, p.1)),
            top@.len() <= 3,
            top@.len() == by_time.take(i as int).filter(|p: (int, i64)| p.1 > 0).len(),
            forall|j: int| 0 <= j < out@.len() ==> (#[trigger] out@[j]).0 < results@.len(),
            top@.map_values(|t: (String, SearchKind)| (t.0@, t.1)) == by_time.take(i as int).filter(|p: (int, i64)| p.1 > 0)
                .map_values(|p: (int, i64)| (results@[p.0].id@, results@[p.0].kind)),
        decreases out@.len() - i,
    {
        let (idx, t) = out[i];
        proof {
            assert(by_time.take(i + 1) =~= by_time.take(i as int).push(by_time[i as int]));
            by_time.take(i as int).lemma_filter_push(by_time[i as int], |p: (int, i64)| p.1 > 0);
        }
        if t > 0 {
            let ghost before = top@.map_values(|t: (String, SearchKind)| (t.0@, t.1));
            top.push((results[idx].id.clone(), results[idx].kind));
            assert(top@.map_values(|t: (String, SearchKind)| (t.0@, t.1)) =~= before.push(
                (results@[idx as int].id@, results@[idx as int].kind),
            ));
        }
        i = i + 1;
    }
    proof {
        let f = by_time.take(i as int).filter(|p: (int, i64)| p.1 > 0);
        if i == out@.len() {
            assert(by_time.take(i as int) =~= by_time);
            assert(f == visited);
            assert(visited.len() <= 3);
        } else {
            assert(top@.len() == 3);
            lemma_filter_prefix(by_time, i as int);
            assert(visited.take(3) =~= f);
        }
    }
    top
}

proof fn lemma_filter_prefix(s: Seq<(int, i64)>, i: int)
    requires
        0 <= i <= s.len(),
    ensures
        s.filter(|p: (int, i64)| p.1 > 0).len() >= s.take(i).filter(|p: (int, i64)| p.1 > 0).len(),
        s.filter(|p: (int, i64)| p.1 > 0).take(s.take(i).filter(|p: (int, i64)| p.1 > 0).len() as int)
            == s.take(i).filter(|p: (int, i64)| p.1 > 0),
    decreases s.len() - i,
{
    let pred = |p: (int, i64)| p.1 > 0;
    if i == s.len() {
        assert(s.take(i) =~= s);
        assert(s.filter(pred).take(s.filter(pred).len() as int) =~= s.filter(pred));
    } else {
        lemma_filter_prefix(s, i + 1);
        assert(s.take(i + 1) =~= s.take(i).push(s[i]));
        s.take(i).lemma_filter_push(s[i], pred);
        let a = s.take(i).filter(pred);
        let b = s.take(i + 1).filter(pred);
        let full = s.filter(pred);
        assert(full.take(b.len() as int) == b);
        assert(full.take(a.len() as int) =~= b.take(a.len() as int));
        if pred(s[i]) {
            assert(b.take(a.len() as int) =~= a);
        } else {
            assert(b =~= a);
        }
    }
}

} // verus!
