use vstd::prelude::*;
use crate::desktop::opt_app_view;
use crate::entity::{App, AppView, CommandView, CustomCommand};
use crate::text::chars_of;

verus! {

/// A file name ends in `.` followed by `ext`, after a non-empty stem.
pub open spec fn has_ext(name: Seq<char>, ext: Seq<char>) -> bool {
    name.len() >= ext.len() + 2 && name[name.len() - ext.len() - 1] == '.' && name.subrange(
        name.len() - ext.len(),
        name.len() as int,
    ) == ext
}

/// True when `file_name` carries the extension `ext` (given without its dot).
pub fn has_extension(file_name: &str, ext: &str) -> (r: bool)
    ensures
        r == has_ext(file_name@, ext@),
{
    let name = chars_of(file_name);
    let e = chars_of(ext);
    let n = name.len();
    let m = e.len();
    if n < 2 || m > n - 2 {
        return false;
    }
    let start: usize = n - m;
    if name[start - 1] != '.' {
        return false;
    }
    let mut i: usize = 0;
    while i < m
        invariant
            n == name@.len(),
            m == e@.len(),
            name@ == file_name@,
            e@ == ext@,
            start == n - m,
            m + 2 <= n,
            i <= m,
            forall|j: int| 0 <= j < i ==> name@[start + j] == e@[j],
        decreases m - i,
    {
        if name[start + i] != e[i] {
            assert(name@.subrange(start as int, n as int)[i as int] != e@[i as int]);
            assert(name@.subrange(start as int, n as int) != e@);
            return false;
        }
        i = i + 1;
    }
    assert(name@.subrange(start as int, n as int) =~= e@);
    true
}

pub open spec fn command_views(s: Seq<CustomCommand>) -> Seq<CommandView> {
    s.map_values(|c: CustomCommand| c@)
}

pub open spec fn app_views(s: Seq<App>) -> Seq<AppView> {
    s.map_values(|a: App| a@)
}

/// The command sets a command descriptor yields, given what reading it as
/// one record (`single`) and as a list of records (`list`) gave: the single
/// record if that reading succeeded, else the list, else nothing.
pub open spec fn file_commands(single: Option<CommandView>, list: Option<Seq<CommandView>>) -> Seq<CommandView> {
    match single {
        Some(c) => seq![c],
        None => match list {
            Some(l) => l,
            None => Seq::empty(),
        },
    }
}

pub open spec fn opt_command_view(o: Option<CustomCommand>) -> Option<CommandView> {
    match o {
        Some(c) => Some(c@),
        None => None,
    }
}

pub open spec fn opt_commands_view(o: Option<Vec<CustomCommand>>) -> Option<Seq<CommandView>> {
    match o {
        Some(l) => Some(command_views(l@)),
        None => None,
    }
}

/// Combines the two readings of one command descriptor.
pub fn commands_from_file(single: Option<CustomCommand>, list: Option<Vec<CustomCommand>>) -> (r: Vec<CustomCommand>)
    ensures
        command_views(r@) == file_commands(opt_command_view(single), opt_commands_view(list)),
{
    match single {
        Some(c) => {
            let r = vec![c];
            assert(command_views(r@) =~= seq![r@[0]@]);
            r
        },
        None => match list {
            Some(l) => l,
            None => {
                let r: Vec<CustomCommand> = Vec::new();
                assert(command_views(r@) =~= Seq::empty());
                r
            },
        },
    }
}

/// The concatenation of the groups, in order.
pub open spec fn concat_all<T>(groups: Seq<Seq<T>>) -> Seq<T>
    decreases groups.len(),
{
    if groups.len() == 0 {
        Seq::empty()
    } else {
        concat_all(groups.drop_last()) + groups.last()
    }
}

/// The present values, in order.
pub open spec fn present<T>(s: Seq<Option<T>>) -> Seq<T>
    decreases s.len(),
{
    if s.len() == 0 {
        Seq::empty()
    } else {
        match s.last() {
            Some(x) => present(s.drop_last()).push(x),
            None => present(s.drop_last()),
        }
    }
}

pub open spec fn groups_view(groups: Seq<Vec<CustomCommand>>) -> Seq<Seq<CommandView>> {
    groups.map_values(|g: Vec<CustomCommand>| command_views(g@))
}

pub open spec fn parsed_view(parsed: Seq<Option<App>>) -> Seq<Option<AppView>> {
    parsed.map_values(|o: Option<App>| opt_app_view(o))
}

/// Merges the command sets of several files (or directories), keeping the
/// order of the groups and the order within each.
pub fn merge_commands(groups: &Vec<Vec<CustomCommand>>) -> (r: Vec<CustomCommand>)
    ensures
        command_views(r@) == concat_all(groups_view(groups@)),
{
    let ghost gs = groups_view(groups@);
    let mut r: Vec<CustomCommand> = Vec::new();
    let mut i: usize = 0;
    while i < groups.len()
        invariant
            i <= groups@.len(),
            gs == groups_view(groups@),
            command_views(r@) == concat_all(gs.take(i as int)),
        decreases groups@.len() - i,
    {
        let g = &groups[i];
        let ghost before = command_views(r@);
        assert(gs.take(i + 1).drop_last() =~= gs.take(i as int));
        assert(gs[i as int] == command_views(g@));
        let mut j: usize = 0;
        while j < g.len()
            invariant
                j <= g@.len(),
                command_views(r@) == before + command_views(g@).take(j as int),
            decreases g@.len() - j,
        {
            let c = g[j].copied();
            assert(command_views(g@).take(j + 1) =~= command_views(g@).take(j as int).push(c@));
            let ghost old_r = r@;
            r.push(c);
            assert(command_views(r@) =~= command_views(old_r).push(c@));
            assert(command_views(r@) =~= before + command_views(g@).take(j + 1));
            j = j + 1;
        }
        assert(command_views(g@).take(j as int) =~= command_views(g@));
        i = i + 1;
    }
    assert(gs.take(i as int) =~= gs);
    r
}

/// Keeps the applications that parsed, in order; files that were rejected
/// or could not be read contribute nothing.
pub fn collect_apps(parsed: &Vec<Option<App>>) -> (r: Vec<App>)
    ensures
        app_views(r@) == present(parsed_view(parsed@)),
{
    let ghost ps = parsed_view(parsed@);
    let mut r: Vec<App> = Vec::new();
    let mut i: usize = 0;
    while i < parsed.len()
        invariant
            i <= parsed@.len(),
            ps == parsed_view(parsed@),
            app_views(r@) == present(ps.take(i as int)),
        decreases parsed@.len() - i,
    {
        assert(ps.take(i + 1).drop_last() =~= ps.take(i as int));
        assert(ps[i as int] == opt_app_view(parsed@[i as int]));
        match &parsed[i] {
            Some(a) => {
                r.push(a.copied());
                assert(app_views(r@) =~= present(ps.take(i + 1)));
            },
            None => {},
        }
        i = i + 1;
    }
    assert(ps.take(i as int) =~= ps);
    r
}

} // verus!
