use vstd::prelude::*;
use crate::desktop::{desktop_entry, first_value, has_prefix, hidden_line, is_exclusion, name_key};
use crate::entity::{AppView, CommandView, ItemView};
use crate::fuzzy::skim_score;
use crate::index::{
    candidates, first_separator, is_stable_ranking, parent_from, scored_apps, scored_commands,
    search_result, with_score, MAX_RESULTS,
};
use crate::index::IndexView;
use crate::loader::{concat_all, file_commands};
use crate::text::{ascii_ci_eq, strip_prefixes};
use crate::entity::{App, CustomCommand, FilterMode};

verus! {

/// Every scored application carries the score its name gets.
proof fn lemma_scored_apps_valid(apps: Seq<AppView>, q: Seq<char>)
    ensures
        forall|i: int| 0 <= i < scored_apps(apps, q).len() ==> skim_score(
            (#[trigger] scored_apps(apps, q)[i]).0.name(),
            q,
        ) == Some(scored_apps(apps, q)[i].1),
    decreases apps.len(),
{
    if apps.len() > 0 {
        lemma_scored_apps_valid(apps.drop_last(), q);
    }
}

/// Every scored command set carries the score its name gets.
proof fn lemma_scored_commands_valid(cmds: Seq<CommandView>, q: Seq<char>)
    ensures
        forall|i: int| 0 <= i < scored_commands(cmds, q).len() ==> skim_score(
            (#[trigger] scored_commands(cmds, q)[i]).0.name(),
            q,
        ) == Some(scored_commands(cmds, q)[i].1),
    decreases cmds.len(),
{
    if cmds.len() > 0 {
        lemma_scored_commands_valid(cmds.drop_last(), q);
    }
}

proof fn lemma_candidates_valid(ix: IndexView, q: Seq<char>, mode: FilterMode)
    ensures
        forall|i: int| 0 <= i < candidates(ix, q, mode).len() ==> skim_score(
            (#[trigger] candidates(ix, q, mode)[i]).0.name(),
            q,
        ) == Some(candidates(ix, q, mode)[i].1),
{
    lemma_scored_apps_valid(ix.apps, q);
    lemma_scored_commands_valid(ix.commands, q);
    let c = scored_commands(ix.commands, q);
    let a = scored_apps(ix.apps, q);
    if mode == FilterMode::All {
        assert forall|i: int| 0 <= i < (c + a).len() implies skim_score((#[trigger] (c + a)[i]).0.name(), q)
            == Some((c + a)[i].1) by {
            if i >= c.len() {
                assert((c + a)[i] == a[i - c.len()]);
            } else {
                assert((c + a)[i] == c[i]);
            }
        }
    }
}

/// An item of `s` is among the items of its own score.
proof fn lemma_with_score_contains(s: Seq<(ItemView, i64)>, i: int)
    requires
        0 <= i < s.len(),
    ensures
        with_score(s, s[i].1).contains(s[i].0),
    decreases s.len(),
{
    let w = with_score(s, s[i].1);
    if i == s.len() - 1 {
        assert(w[w.len() - 1] == s[i].0);
    } else {
        lemma_with_score_contains(s.drop_last(), i);
        let w0 = with_score(s.drop_last(), s[i].1);
        let j = choose|j: int| 0 <= j < w0.len() && w0[j] == s[i].0;
        assert(w[j] == s[i].0);
    }
}

/// An item among those of score `k` stands in `s` with that score.
proof fn lemma_with_score_source(s: Seq<(ItemView, i64)>, k: i64, x: ItemView)
    requires
        with_score(s, k).contains(x),
    ensures
        exists|j: int| 0 <= j < s.len() && s[j] == (x, k),
    decreases s.len(),
{
    let w = with_score(s, k);
    let t = choose|t: int| 0 <= t < w.len() && w[t] == x;
    if s.last().1 == k && t == w.len() - 1 {
        assert(s[s.len() - 1] == (x, k));
    } else {
        assert(with_score(s.drop_last(), k)[t] == x);
        lemma_with_score_source(s.drop_last(), k, x);
        let j = choose|j: int| 0 <= j < s.drop_last().len() && s.drop_last()[j] == (x, k);
        assert(s[j] == (x, k));
    }
}

/// Every entry of a ranking is an entry of what was ranked.
proof fn lemma_ranking_source(sorted: Seq<(ItemView, i64)>, s: Seq<(ItemView, i64)>, i: int)
    requires
        is_stable_ranking(sorted, s),
        0 <= i < sorted.len(),
    ensures
        exists|j: int| 0 <= j < s.len() && s[j] == sorted[i],
{
    lemma_with_score_contains(sorted, i);
    assert(with_score(sorted, sorted[i].1) == with_score(s, sorted[i].1));
    lemma_with_score_source(s, sorted[i].1, sorted[i].0);
}

/// A fuzzy query (non-empty, without the drill-down separator) returns at
/// most `MAX_RESULTS` items, each matching the query, in order of
/// non-increasing score.
pub proof fn lemma_fuzzy_results_ranked(ix: IndexView, q: Seq<char>, mode: FilterMode, out: Seq<ItemView>)
    requires
        q.len() > 0,
        first_separator(q) is None,
        search_result(ix, q, mode, out),
    ensures
        out.len() <= MAX_RESULTS,
        forall|i: int| 0 <= i < out.len() ==> (#[trigger] skim_score(out[i].name(), q)) is Some,
        forall|i: int, j: int|
            0 <= i < j < out.len() ==> skim_score(out[i].name(), q)->0 >= skim_score(out[j].name(), q)->0,
{
    let cand = candidates(ix, q, mode);
    let sorted = choose|sorted: Seq<(ItemView, i64)>|
        #[trigger] is_stable_ranking(sorted, cand) && out == crate::index::first_items(
            sorted,
            MAX_RESULTS as nat,
        );
    lemma_candidates_valid(ix, q, mode);
    assert forall|i: int| 0 <= i < out.len() implies out[i] == sorted[i].0 && skim_score(
        out[i].name(),
        q,
    ) == Some(sorted[i].1) by {
        lemma_ranking_source(sorted, cand, i);
        let j = choose|j: int| 0 <= j < cand.len() && cand[j] == sorted[i];
        assert(skim_score(cand[j].0.name(), q) == Some(cand[j].1));
    }
}

/// The empty query returns nothing, whatever the snapshot and the mode.
pub proof fn lemma_empty_query(ix: IndexView, mode: FilterMode, out: Seq<ItemView>)
    requires
        search_result(ix, Seq::empty(), mode, out),
    ensures
        out.len() == 0,
{
}

proof fn lemma_no_parent(cmds: Seq<CommandView>, parent: Seq<char>, k: nat)
    requires
        forall|m: int| 0 <= m < cmds.len() ==> !ascii_ci_eq(#[trigger] cmds[m].name, parent),
    ensures
        parent_from(cmds, parent, k) is None,
    decreases cmds.len() - k,
{
    if k < cmds.len() {
        lemma_no_parent(cmds, parent, k + 1);
    }
}

/// A drill-down query whose parent names no command set returns nothing;
/// it never falls back to fuzzy matching.
pub proof fn lemma_unknown_parent(ix: IndexView, q: Seq<char>, mode: FilterMode, out: Seq<ItemView>, i: nat)
    requires
        q.len() > 0,
        first_separator(q) == Some(i),
        forall|m: int|
            0 <= m < ix.commands.len() ==> !ascii_ci_eq(#[trigger] ix.commands[m].name, q.subrange(0, i as int)),
        search_result(ix, q, mode, out),
    ensures
        out.len() == 0,
{
    lemma_no_parent(ix.commands, q.subrange(0, i as int), 0);
}

/// A descriptor with a `Hidden=true` line yields no application.
pub proof fn lemma_hidden_entry_rejected(lines: Seq<Seq<char>>, id: Seq<char>, i: int)
    requires
        0 <= i < lines.len(),
        lines[i] == hidden_line(),
    ensures
        desktop_entry(lines, id) is None,
{
    assert(is_exclusion(lines[i]));
}

proof fn lemma_first_value_none(lines: Seq<Seq<char>>, key: Seq<char>)
    requires
        forall|m: int| 0 <= m < lines.len() ==> !has_prefix(#[trigger] lines[m], key),
    ensures
        first_value(lines, key) is None,
    decreases lines.len(),
{
    if lines.len() > 0 {
        lemma_first_value_none(lines.drop_last(), key);
    }
}

proof fn lemma_first_value_at(lines: Seq<Seq<char>>, key: Seq<char>, i: int)
    requires
        0 <= i < lines.len(),
        has_prefix(lines[i], key),
        forall|m: int| 0 <= m < i ==> !has_prefix(#[trigger] lines[m], key),
    ensures
        first_value(lines, key) == Some(strip_prefixes(lines[i], key)),
    decreases lines.len(),
{
    if i == lines.len() - 1 {
        lemma_first_value_none(lines.drop_last(), key);
    } else {
        lemma_first_value_at(lines.drop_last(), key, i);
    }
}

/// With several `Name=` lines, the application is named after the first.
pub proof fn lemma_first_name_wins(lines: Seq<Seq<char>>, id: Seq<char>, i: int, j: int)
    requires
        0 <= i < j < lines.len(),
        has_prefix(lines[i], name_key()),
        has_prefix(lines[j], name_key()),
        forall|m: int| 0 <= m < i ==> !has_prefix(#[trigger] lines[m], name_key()),
        forall|m: int| 0 <= m < lines.len() ==> !is_exclusion(#[trigger] lines[m]),
    ensures
        desktop_entry(lines, id) is Some,
        desktop_entry(lines, id)->0.name == strip_prefixes(lines[i], name_key()),
{
    lemma_first_value_at(lines, name_key(), i);
}

/// A source that yields nothing (a missing directory, an unreadable or
/// malformed file) leaves the merged result as if it were not listed.
pub proof fn lemma_empty_source_ignored<T>(groups: Seq<Seq<T>>, i: int)
    requires
        0 <= i < groups.len(),
        groups[i].len() == 0,
    ensures
        concat_all(groups) == concat_all(groups.remove(i)),
    decreases groups.len(),
{
    if i == groups.len() - 1 {
        assert(groups.remove(i) =~= groups.drop_last());
        assert(concat_all(groups) =~= concat_all(groups.drop_last()));
    } else {
        lemma_empty_source_ignored(groups.drop_last(), i);
        assert(groups.remove(i).drop_last() =~= groups.drop_last().remove(i));
        assert(groups.remove(i).last() == groups.last());
    }
}

/// A command descriptor that reads neither as a record nor as a list of
/// records yields nothing.
pub proof fn lemma_malformed_descriptor_skipped()
    ensures
        file_commands(None, None).len() == 0,
{
}

proof fn lemma_no_app_scores(apps: Seq<AppView>, q: Seq<char>)
    requires
        forall|m: int| 0 <= m < apps.len() ==> (#[trigger] skim_score(apps[m].name, q)) is None,
    ensures
        scored_apps(apps, q).len() == 0,
    decreases apps.len(),
{
    if apps.len() > 0 {
        lemma_no_app_scores(apps.drop_last(), q);
    }
}

proof fn lemma_command_scores(cmds: Seq<CommandView>, q: Seq<char>, k: int)
    requires
        0 <= k < cmds.len(),
        skim_score(cmds[k].name, q) is Some,
    ensures
        scored_commands(cmds, q).len() > 0,
    decreases cmds.len(),
{
    if k < cmds.len() - 1 {
        lemma_command_scores(cmds.drop_last(), q, k);
    }
}

/// A ranking of a non-empty sequence is non-empty.
proof fn lemma_ranking_nonempty(sorted: Seq<(ItemView, i64)>, s: Seq<(ItemView, i64)>)
    requires
        is_stable_ranking(sorted, s),
        s.len() > 0,
    ensures
        sorted.len() > 0,
{
    lemma_with_score_contains(s, 0);
    assert(with_score(sorted, s[0].1) == with_score(s, s[0].1));
    if sorted.len() == 0 {
        assert(with_score(sorted, s[0].1).len() == 0);
    }
}

/// When a query matches no application but matches command set `k`, mode
/// `Apps` returns nothing while mode `All` returns command sets only, and
/// at least one.
pub proof fn lemma_mode_scoping(
    ix: IndexView,
    q: Seq<char>,
    k: int,
    apps_out: Seq<ItemView>,
    all_out: Seq<ItemView>,
)
    requires
        q.len() > 0,
        first_separator(q) is None,
        forall|m: int| 0 <= m < ix.apps.len() ==> (#[trigger] skim_score(ix.apps[m].name, q)) is None,
        0 <= k < ix.commands.len(),
        skim_score(ix.commands[k].name, q) is Some,
        search_result(ix, q, FilterMode::Apps, apps_out),
        search_result(ix, q, FilterMode::All, all_out),
    ensures
        apps_out.len() == 0,
        all_out.len() > 0,
        forall|i: int| 0 <= i < all_out.len() ==> (#[trigger] all_out[i]) is Command,
{
    lemma_no_app_scores(ix.apps, q);
    lemma_command_scores(ix.commands, q, k);
    let c = scored_commands(ix.commands, q);
    let a = scored_apps(ix.apps, q);
    assert(c + a =~= c);
    let sorted_apps = choose|sorted: Seq<(ItemView, i64)>|
        #[trigger] is_stable_ranking(sorted, a) && apps_out == crate::index::first_items(
            sorted,
            MAX_RESULTS as nat,
        );
    if sorted_apps.len() > 0 {
        lemma_ranking_source(sorted_apps, a, 0);
    }
    let sorted = choose|sorted: Seq<(ItemView, i64)>|
        #[trigger] is_stable_ranking(sorted, c + a) && all_out == crate::index::first_items(
            sorted,
            MAX_RESULTS as nat,
        );
    lemma_ranking_nonempty(sorted, c);
    assert(all_out.len() > 0);
    assert forall|i: int| 0 <= i < all_out.len() implies (#[trigger] all_out[i]) is Command by {
        lemma_ranking_source(sorted, c, i);
        lemma_commands_only(ix.commands, q);
        assert(all_out[i] == sorted[i].0);
    }
}

/// Two loads of the same entities leave equal snapshots, whatever was
/// loaded before each.
pub proof fn lemma_reload_same_snapshot(
    first: IndexView,
    second: IndexView,
    apps: Seq<App>,
    commands: Seq<CustomCommand>,
)
    requires
        first.apps == apps.map_values(|a: App| a@),
        first.commands == commands.map_values(|c: CustomCommand| c@),
        second.apps == apps.map_values(|a: App| a@),
        second.commands == commands.map_values(|c: CustomCommand| c@),
    ensures
        first == second,
{
}

proof fn lemma_commands_only(cmds: Seq<CommandView>, q: Seq<char>)
    ensures
        forall|i: int| 0 <= i < scored_commands(cmds, q).len() ==> (#[trigger] scored_commands(cmds, q)[i]).0 is Command,
    decreases cmds.len(),
{
    if cmds.len() > 0 {
        lemma_commands_only(cmds.drop_last(), q);
    }
}

} // verus!
