use vstd::prelude::*;
use crate::entity::{App, AppView, CommandView, CustomCommand, FilterMode, ItemView, SearchItem, SubView};
use crate::fuzzy::{fuzzy_score, skim_score};
use crate::text::{
    chars_of, contains, eq_ignore_ascii_case, is_infix, lower_of, string_of, to_lower, trim,
    trim_of, ascii_ci_eq,
};

verus! {

/// Most results a fuzzy query returns.
pub const MAX_RESULTS: usize = 10;

/// The loaded snapshot of all entities; queries read it, a load replaces it.
pub struct State {
    apps: Vec<App>,
    commands: Vec<CustomCommand>,
}

pub struct IndexView {
    pub apps: Seq<AppView>,
    pub commands: Seq<CommandView>,
}

impl View for State {
    type V = IndexView;

    closed spec fn view(&self) -> IndexView {
        IndexView {
            apps: self.apps@.map_values(|a: App| a@),
            commands: self.commands@.map_values(|c: CustomCommand| c@),
        }
    }
}

pub open spec fn items_view(s: Seq<SearchItem>) -> Seq<ItemView> {
    s.map_values(|i: SearchItem| i@)
}

pub open spec fn pairs_view(s: Seq<(SearchItem, i64)>) -> Seq<(ItemView, i64)> {
    s.map_values(|e: (SearchItem, i64)| (e.0@, e.1))
}

/// The drill-down separator `" > "`.
pub open spec fn separator() -> Seq<char> {
    seq![' ', '>', ' ']
}

pub open spec fn separator_at(q: Seq<char>, i: int) -> bool {
    0 <= i && i + 3 <= q.len() && q.subrange(i, i + 3) == separator()
}

/// The first position at or after `i` where the separator starts.
pub open spec fn separator_from(q: Seq<char>, i: nat) -> Option<nat>
    decreases q.len() - i,
{
    if i + 3 > q.len() {
        None
    } else if separator_at(q, i as int) {
        Some(i)
    } else {
        separator_from(q, i + 1)
    }
}

pub open spec fn first_separator(q: Seq<char>) -> Option<nat> {
    separator_from(q, 0)
}

/// The first command set at or after `k` whose name equals `parent` up to ASCII case.
pub open spec fn parent_from(cmds: Seq<CommandView>, parent: Seq<char>, k: nat) -> Option<nat>
    decreases cmds.len() - k,
{
    if k >= cmds.len() {
        None
    } else if ascii_ci_eq(cmds[k as int].name, parent) {
        Some(k)
    } else {
        parent_from(cmds, parent, k + 1)
    }
}

/// A sub-action is kept when the sub-query is empty or occurs in its lower-cased name.
pub open spec fn sub_matches(sub: SubView, sub_query: Seq<char>) -> bool {
    sub_query.len() == 0 || is_infix(sub_query, lower_of(sub.name))
}

/// The sub-actions that match, in their order within the command set, as results under `parent`.
pub open spec fn matching_subs(parent: Seq<char>, subs: Seq<SubView>, sub_query: Seq<char>) -> Seq<ItemView>
    decreases subs.len(),
{
    if subs.len() == 0 {
        Seq::empty()
    } else {
        let rest = matching_subs(parent, subs.drop_last(), sub_query);
        if sub_matches(subs.last(), sub_query) {
            rest.push(ItemView::Sub { parent, sub: subs.last() })
        } else {
            rest
        }
    }
}

/// Results of a drill-down query: the matching sub-actions of the first
/// command set named `parent`, or nothing when there is none.
pub open spec fn drill_down(cmds: Seq<CommandView>, parent: Seq<char>, sub_query: Seq<char>) -> Seq<ItemView> {
    match parent_from(cmds, parent, 0) {
        Some(k) => matching_subs(cmds[k as int].name, cmds[k as int].subcommands, sub_query),
        None => Seq::empty(),
    }
}

/// Applications whose names the query matches, with their scores, in index order.
pub open spec fn scored_apps(apps: Seq<AppView>, q: Seq<char>) -> Seq<(ItemView, i64)>
    decreases apps.len(),
{
    if apps.len() == 0 {
        Seq::empty()
    } else {
        let rest = scored_apps(apps.drop_last(), q);
        match skim_score(apps.last().name, q) {
            Some(s) => rest.push((ItemView::App(apps.last()), s)),
            None => rest,
        }
    }
}

/// Command sets whose names the query matches, with their scores, in index order.
pub open spec fn scored_commands(cmds: Seq<CommandView>, q: Seq<char>) -> Seq<(ItemView, i64)>
    decreases cmds.len(),
{
    if cmds.len() == 0 {
        Seq::empty()
    } else {
        let rest = scored_commands(cmds.drop_last(), q);
        match skim_score(cmds.last().name, q) {
            Some(s) => rest.push((ItemView::Command(cmds.last()), s)),
            None => rest,
        }
    }
}

/// The scored candidates of a fuzzy query under a filter mode; in mode
/// `All` the command sets come before the applications.
pub open spec fn candidates(ix: IndexView, q: Seq<char>, mode: FilterMode) -> Seq<(ItemView, i64)> {
    match mode {
        FilterMode::All => scored_commands(ix.commands, q) + scored_apps(ix.apps, q),
        FilterMode::Apps => scored_apps(ix.apps, q),
        FilterMode::Commands => scored_commands(ix.commands, q),
    }
}

pub open spec fn scores_descending(s: Seq<(ItemView, i64)>) -> bool {
    forall|i: int, j: int| 0 <= i < j < s.len() ==> s[i].1 >= s[j].1
}

/// The items of `s` that carry score `k`, in order.
pub open spec fn with_score(s: Seq<(ItemView, i64)>, k: i64) -> Seq<ItemView>
    decreases s.len(),
{
    if s.len() == 0 {
        Seq::empty()
    } else if s.last().1 == k {
        with_score(s.drop_last(), k).push(s.last().0)
    } else {
        with_score(s.drop_last(), k)
    }
}

/// `sorted` is `s` sorted by descending score, items of equal score kept in
/// their order in `s`.
pub open spec fn is_stable_ranking(sorted: Seq<(ItemView, i64)>, s: Seq<(ItemView, i64)>) -> bool {
    scores_descending(sorted) && forall|k: i64| #[trigger] with_score(sorted, k) == with_score(s, k)
}

pub open spec fn first_items(s: Seq<(ItemView, i64)>, n: nat) -> Seq<ItemView> {
    s.take(if s.len() < n { s.len() as int } else { n as int }).map_values(|e: (ItemView, i64)| e.0)
}

/// `out` is the best `MAX_RESULTS` of `scored`, in ranking order.
pub open spec fn is_top_ranked(out: Seq<ItemView>, scored: Seq<(ItemView, i64)>) -> bool {
    exists|sorted: Seq<(ItemView, i64)>|
        #[trigger] is_stable_ranking(sorted, scored) && out == first_items(sorted, MAX_RESULTS as nat)
}

/// What a query returns against the snapshot `ix`.
pub open spec fn search_result(ix: IndexView, q: Seq<char>, mode: FilterMode, out: Seq<ItemView>) -> bool {
    if q.len() == 0 {
        out.len() == 0
    } else {
        match first_separator(q) {
            Some(i) => out == drill_down(
                ix.commands,
                q.subrange(0, i as int),
                lower_of(trim_of(q.subrange(i + 3 as int, q.len() as int))),
            ),
            None => is_top_ranked(out, candidates(ix, q, mode)),
        }
    }
}

/// Inserting `x` where every later entry scores lower than it adds `x` to
/// the end of the items of its own score and changes no other score's items.
proof fn lemma_with_score_insert(s: Seq<(ItemView, i64)>, p: int, x: (ItemView, i64), k: i64)
    requires
        0 <= p <= s.len(),
        forall|j: int| p <= j < s.len() ==> s[j].1 < x.1,
    ensures
        with_score(s.insert(p, x), k) == if x.1 == k {
            with_score(s, k).push(x.0)
        } else {
            with_score(s, k)
        },
    decreases s.len(),
{
    if p == s.len() {
        assert(s.insert(p, x).drop_last() =~= s);
    } else {
        let t = s.drop_last();
        lemma_with_score_insert(t, p, x, k);
        assert(s.insert(p, x).drop_last() =~= t.insert(p, x));
        assert(s.insert(p, x).last() == s.last());
    }
}

/// `scored` sorted by descending score; entries of equal score keep their order.
fn rank(scored: &Vec<(SearchItem, i64)>) -> (r: Vec<(SearchItem, i64)>)
    ensures
        is_stable_ranking(pairs_view(r@), pairs_view(scored@)),
{
    let ghost input = pairs_view(scored@);
    let mut r: Vec<(SearchItem, i64)> = Vec::new();
    let mut i: usize = 0;
    while i < scored.len()
        invariant
            i <= scored@.len(),
            input == pairs_view(scored@),
            scores_descending(pairs_view(r@)),
            forall|k: i64| #[trigger] with_score(pairs_view(r@), k) == with_score(input.take(i as int), k),
        decreases scored@.len() - i,
    {
        let score = scored[i].1;
        let item = scored[i].0.copied();
        let ghost x = (item@, score);
        assert(input[i as int] == x);
        let mut p: usize = r.len();
        while p > 0 && r[p - 1].1 < score
            invariant
                p <= r@.len(),
                forall|j: int| p <= j < r@.len() ==> r@[j].1 < score,
            decreases p,
        {
            p = p - 1;
        }
        let ghost old_r = pairs_view(r@);
        proof {
            assert forall|j: int| p <= j < old_r.len() implies old_r[j].1 < x.1 by {
                assert(old_r[j].1 == r@[j].1);
            }
            assert(input.take(i + 1).drop_last() =~= input.take(i as int));
            assert(input.take(i + 1).last() == x);
        }
        r.insert(p, (item, score));
        assert(pairs_view(r@) =~= old_r.insert(p as int, x));
        assert forall|k: i64| #[trigger] with_score(pairs_view(r@), k) == with_score(input.take(i + 1), k) by {
            lemma_with_score_insert(old_r, p as int, x, k);
        }
        assert forall|a: int, b: int| 0 <= a < b < pairs_view(r@).len() implies pairs_view(r@)[a].1
            >= pairs_view(r@)[b].1 by {
            let v = pairs_view(r@);
            if p > 0 && a < p && b == p {
                assert(old_r[p - 1].1 >= score);
                assert(old_r[a].1 >= old_r[p - 1].1);
            }
        }
        i = i + 1;
    }
    assert(input.take(i as int) =~= input);
    r
}

/// The first position of the separator in `q`.
fn find_separator(q: &Vec<char>) -> (r: Option<usize>)
    ensures
        match r {
            Some(i) => first_separator(q@) == Some(i as nat) && separator_at(q@, i as int),
            None => first_separator(q@) is None,
        },
{
    let mut i: usize = 0;
    while q.len() >= 3 && i <= q.len() - 3
        invariant
            i <= q@.len(),
            separator_from(q@, i as nat) == first_separator(q@),
        decreases q@.len() - i,
    {
        if q[i] == ' ' && q[i + 1] == '>' && q[i + 2] == ' ' {
            assert(q@.subrange(i as int, i + 3) =~= separator());
            return Some(i);
        }
        assert(!separator_at(q@, i as int)) by {
            if separator_at(q@, i as int) {
                assert(q@[i + 1] == q@.subrange(i as int, i + 3)[1]);
                assert(q@[i as int] == q@.subrange(i as int, i + 3)[0]);
                assert(q@[i + 2] == q@.subrange(i as int, i + 3)[2]);
            }
        }
        i = i + 1;
    }
    assert(separator_from(q@, i as nat) is None);
    None
}

/// The characters `q[from..to]`.
fn char_range(q: &Vec<char>, from: usize, to: usize) -> (r: Vec<char>)
    requires
        from <= to <= q@.len(),
    ensures
        r@ == q@.subrange(from as int, to as int),
{
    let mut r: Vec<char> = Vec::new();
    let mut i: usize = from;
    while i < to
        invariant
            from <= i <= to <= q@.len(),
            r@ == q@.subrange(from as int, i as int),
        decreases to - i,
    {
        r.push(q[i]);
        assert(r@ =~= q@.subrange(from as int, i + 1));
        i = i + 1;
    }
    r
}

impl State {
    /// An empty snapshot.
    pub fn new() -> (r: State)
        ensures
            r@.apps.len() == 0,
            r@.commands.len() == 0,
    {
        State { apps: Vec::new(), commands: Vec::new() }
    }

    /// Replaces the whole snapshot with freshly loaded entities.
    pub fn load(&mut self, apps: Vec<App>, commands: Vec<CustomCommand>)
        ensures
            final(self)@.apps == apps@.map_values(|a: App| a@),
            final(self)@.commands == commands@.map_values(|c: CustomCommand| c@),
    {
        self.apps = apps;
        self.commands = commands;
    }

    /// The loaded applications.
    pub fn apps(&self) -> (r: &Vec<App>)
        ensures
            r@.map_values(|a: App| a@) == self@.apps,
    {
        &self.apps
    }

    /// The loaded command sets.
    pub fn commands(&self) -> (r: &Vec<CustomCommand>)
        ensures
            r@.map_values(|c: CustomCommand| c@) == self@.commands,
    {
        &self.commands
    }

    /// Answers a query: empty for an empty query; a drill-down into a command
    /// set's sub-actions when the query holds `" > "`; otherwise the best-scored
    /// fuzzy matches under `mode`, at most `MAX_RESULTS` of them.
    pub fn search(&self, query: &str, mode: &FilterMode) -> (r: Vec<SearchItem>)
        ensures
            search_result(self@, query@, *mode, items_view(r@)),
    {
        if query.is_empty() {
            return Vec::new();
        }
        let q = chars_of(query);
        if let Some(parent_end) = find_separator(&q) {
            return self.search_subcommands(&q, parent_end);
        }
        let scored: Vec<(SearchItem, i64)> = match mode {
            FilterMode::All => {
                let mut results = self.search_commands(query);
                let mut apps = self.search_apps(query);
                results.append(&mut apps);
                results
            },
            FilterMode::Apps => self.search_apps(query),
            FilterMode::Commands => self.search_commands(query),
        };
        assert(pairs_view(scored@) =~= candidates(self@, query@, *mode));
        let ghost cand = pairs_view(scored@);
        let scored = rank(&scored);
        let ghost sorted = pairs_view(scored@);
        let n: usize = if scored.len() < MAX_RESULTS {
            scored.len()
        } else {
            MAX_RESULTS
        };
        let mut out: Vec<SearchItem> = Vec::new();
        let mut i: usize = 0;
        while i < n
            invariant
                n <= scored@.len(),
                i <= n,
                sorted == pairs_view(scored@),
                out@.len() == i,
                forall|j: int| 0 <= j < i ==> (#[trigger] out@[j])@ == sorted[j].0,
            decreases n - i,
        {
            assert(sorted[i as int] == (scored@[i as int].0@, scored@[i as int].1));
            out.push(scored[i].0.copied());
            i = i + 1;
        }
        assert(is_stable_ranking(sorted, cand));
        assert(items_view(out@) =~= first_items(sorted, MAX_RESULTS as nat));
        out
    }

    /// Drill-down: `q[..parent_end]` names the command set, the rest after the
    /// separator, trimmed and lower-cased, filters its sub-actions.
    fn search_subcommands(&self, q: &Vec<char>, parent_end: usize) -> (r: Vec<SearchItem>)
        requires
            parent_end + 3 <= q@.len(),
        ensures
            items_view(r@) == drill_down(
                self@.commands,
                q@.subrange(0, parent_end as int),
                lower_of(trim_of(q@.subrange(parent_end + 3, q@.len() as int))),
            ),
    {
        let len = q.len();
        let start: usize = parent_end + 3;
        let parent_chars = char_range(q, 0, parent_end);
        let parent_name = string_of(parent_chars.as_slice());
        let rest_chars = char_range(q, start, len);
        let rest = string_of(rest_chars.as_slice());
        let trimmed = trim(rest.as_str());
        let sub_query = to_lower(trimmed.as_str());
        let ghost cmds = self@.commands;
        let mut k: usize = 0;
        while k < self.commands.len()
            invariant
                k <= self.commands@.len(),
                cmds == self@.commands,
                parent_from(cmds, parent_name@, k as nat) == parent_from(cmds, parent_name@, 0),
                parent_end + 3 <= q@.len(),
                parent_name@ == q@.subrange(0, parent_end as int),
                sub_query@ == lower_of(trim_of(q@.subrange(parent_end + 3, q@.len() as int))),
            decreases self.commands@.len() - k,
        {
            let cmd = &self.commands[k];
            assert(cmds[k as int] == cmd@);
            if eq_ignore_ascii_case(cmd.name.as_str(), parent_name.as_str()) {
                return sub_results(cmd, sub_query.as_str());
            }
            k = k + 1;
        }
        Vec::new()
    }

    /// Applications whose names match the query, with their scores, in index order.
    fn search_apps(&self, query: &str) -> (r: Vec<(SearchItem, i64)>)
        ensures
            pairs_view(r@) == scored_apps(self@.apps, query@),
    {
        let ghost apps = self@.apps;
        let mut r: Vec<(SearchItem, i64)> = Vec::new();
        let mut i: usize = 0;
        while i < self.apps.len()
            invariant
                i <= self.apps@.len(),
                apps == self@.apps,
                pairs_view(r@) == scored_apps(apps.take(i as int), query@),
            decreases self.apps@.len() - i,
        {
            let app = &self.apps[i];
            assert(apps.take(i + 1).drop_last() =~= apps.take(i as int));
            if let Some(score) = fuzzy_score(app.name.as_str(), query) {
                r.push((SearchItem::App(app.copied()), score));
                assert(pairs_view(r@) =~= scored_apps(apps.take(i + 1), query@));
            }
            i = i + 1;
        }
        assert(apps.take(i as int) =~= apps);
        r
    }

    /// Command sets whose names match the query, with their scores, in index order.
    fn search_commands(&self, query: &str) -> (r: Vec<(SearchItem, i64)>)
        ensures
            pairs_view(r@) == scored_commands(self@.commands, query@),
    {
        let ghost cmds = self@.commands;
        let mut r: Vec<(SearchItem, i64)> = Vec::new();
        let mut i: usize = 0;
        while i < self.commands.len()
            invariant
                i <= self.commands@.len(),
                cmds == self@.commands,
                pairs_view(r@) == scored_commands(cmds.take(i as int), query@),
            decreases self.commands@.len() - i,
        {
            let cmd = &self.commands[i];
            assert(cmds.take(i + 1).drop_last() =~= cmds.take(i as int));
            if let Some(score) = fuzzy_score(cmd.name.as_str(), query) {
                r.push((SearchItem::CustomCommand(cmd.copied()), score));
                assert(pairs_view(r@) =~= scored_commands(cmds.take(i + 1), query@));
            }
            i = i + 1;
        }
        assert(cmds.take(i as int) =~= cmds);
        r
    }
}

/// The sub-actions of `cmd` that match `sub_query`, in order, as results.
fn sub_results(cmd: &CustomCommand, sub_query: &str) -> (r: Vec<SearchItem>)
    ensures
        items_view(r@) == matching_subs(cmd@.name, cmd@.subcommands, sub_query@),
{
    let ghost subs = cmd@.subcommands;
    let mut r: Vec<SearchItem> = Vec::new();
    let mut i: usize = 0;
    while i < cmd.subcommands.len()
        invariant
            i <= cmd.subcommands@.len(),
            subs == cmd@.subcommands,
            items_view(r@) == matching_subs(cmd@.name, subs.take(i as int), sub_query@),
        decreases cmd.subcommands@.len() - i,
    {
        let sub = &cmd.subcommands[i];
        assert(subs.take(i + 1).drop_last() =~= subs.take(i as int));
        assert(subs[i as int] == sub@);
        let keep = if sub_query.is_empty() {
            true
        } else {
            let lowered = to_lower(sub.name.as_str());
            contains(lowered.as_str(), sub_query)
        };
        if keep {
            r.push(SearchItem::SubCommand { parent: cmd.name.clone(), sub: sub.copied() });
            assert(items_view(r@) =~= matching_subs(cmd@.name, subs.take(i + 1), sub_query@));
        }
        i = i + 1;
    }
    assert(subs.take(i as int) =~= subs);
    r
}

} // verus!
