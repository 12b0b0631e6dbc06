use vstd::prelude::*;
use crate::entity::{App, AppView};
use crate::text::{lines, lines_of, starts_with, strip_prefixes, trim_start_matches};

verus! {

pub open spec fn name_key() -> Seq<char> {
    seq!['N', 'a', 'm', 'e', '=']
}

pub open spec fn comment_key() -> Seq<char> {
    seq!['C', 'o', 'm', 'm', 'e', 'n', 't', '=']
}

pub open spec fn only_show_in_key() -> Seq<char> {
    seq!['O', 'n', 'l', 'y', 'S', 'h', 'o', 'w', 'I', 'n', '=']
}

pub open spec fn hidden_line() -> Seq<char> {
    seq!['H', 'i', 'd', 'd', 'e', 'n', '=', 't', 'r', 'u', 'e']
}

pub open spec fn no_display_line() -> Seq<char> {
    seq!['N', 'o', 'D', 'i', 's', 'p', 'l', 'a', 'y', '=', 't', 'r', 'u', 'e']
}

pub open spec fn has_prefix(s: Seq<char>, p: Seq<char>) -> bool {
    p.len() <= s.len() && s.subrange(0, p.len() as int) == p
}

/// A line that excludes the whole entry: a hide flag, a no-display flag,
/// or a restriction to other desktop environments.
pub open spec fn is_exclusion(l: Seq<char>) -> bool {
    l == hidden_line() || l == no_display_line() || has_prefix(l, only_show_in_key())
}

/// The value of the first line that starts with `key`.
pub open spec fn first_value(lines: Seq<Seq<char>>, key: Seq<char>) -> Option<Seq<char>>
    decreases lines.len(),
{
    if lines.len() == 0 {
        None
    } else {
        match first_value(lines.drop_last(), key) {
            Some(v) => Some(v),
            None => if has_prefix(lines.last(), key) {
                Some(strip_prefixes(lines.last(), key))
            } else {
                None
            },
        }
    }
}

/// The application that an application descriptor's lines describe: none if
/// any line excludes it or no line names it; otherwise the first name, the
/// first comment (empty if there is none) and the given identifier.
pub open spec fn desktop_entry(lines: Seq<Seq<char>>, id: Seq<char>) -> Option<AppView> {
    if exists|i: int| 0 <= i < lines.len() && is_exclusion(#[trigger] lines[i]) {
        None
    } else {
        match first_value(lines, name_key()) {
            None => None,
            Some(name) => Some(
                AppView {
                    name,
                    description: match first_value(lines, comment_key()) {
                        Some(c) => c,
                        None => Seq::empty(),
                    },
                    desktop_file: id,
                },
            ),
        }
    }
}

pub open spec fn opt_app_view(o: Option<App>) -> Option<AppView> {
    match o {
        Some(a) => Some(a@),
        None => None,
    }
}

pub open spec fn line_views(lines: Seq<String>) -> Seq<Seq<char>> {
    lines.map_values(|l: String| l@)
}

/// A line that starts with `key` is no exclusion when `key` differs, at
/// position `k`, from both flag lines and from the environment restriction.
proof fn lemma_key_not_exclusion(l: Seq<char>, key: Seq<char>, k: int)
    requires
        has_prefix(l, key),
        0 <= k < key.len(),
        k < 11,
        key[k] != hidden_line()[k],
        key[k] != no_display_line()[k],
        key[k] != only_show_in_key()[k],
    ensures
        !is_exclusion(l),
{
    assert(l[k] == l.subrange(0, key.len() as int)[k]);
    if has_prefix(l, only_show_in_key()) {
        assert(l[k] == l.subrange(0, 11)[k]);
    }
}

fn same_text(a: &str, b: &str) -> (r: bool)
    ensures
        r == (a@ == b@),
{
    proof {
        assert(a@.subrange(0, a@.len() as int) =~= a@);
        assert(b@.subrange(0, b@.len() as int) =~= b@);
    }
    let r = starts_with(a, b) && starts_with(b, a);
    proof {
        if r {
            assert(a@ =~= b@);
        }
    }
    r
}

/// Parses the lines of an application descriptor into an application whose
/// launch identifier is `id`.
pub fn parse_desktop_lines(lines: &Vec<String>, id: &str) -> (r: Option<App>)
    ensures
        opt_app_view(r) == desktop_entry(line_views(lines@), id@),
{
    proof {
        reveal_strlit("Name=");
        reveal_strlit("Comment=");
        reveal_strlit("OnlyShowIn=");
        reveal_strlit("Hidden=true");
        reveal_strlit("NoDisplay=true");
    }
    let ghost ls = line_views(lines@);
    let mut name: Option<String> = None;
    let mut comment: Option<String> = None;
    let mut i: usize = 0;
    while i < lines.len()
        invariant
            i <= lines@.len(),
            ls == line_views(lines@),
            forall|j: int| 0 <= j < i ==> !is_exclusion(#[trigger] ls[j]),
            crate::entity::opt_string_view(name) == first_value(ls.subrange(0, i as int), name_key()),
            crate::entity::opt_string_view(comment) == first_value(ls.subrange(0, i as int), comment_key()),
        decreases lines@.len() - i,
    {
        proof {
            reveal_strlit("Name=");
            reveal_strlit("Comment=");
            reveal_strlit("OnlyShowIn=");
            reveal_strlit("Hidden=true");
            reveal_strlit("NoDisplay=true");
            assert("Name="@ =~= name_key());
            assert("Comment="@ =~= comment_key());
            assert("OnlyShowIn="@ =~= only_show_in_key());
            assert("Hidden=true"@ =~= hidden_line());
            assert("NoDisplay=true"@ =~= no_display_line());
        }
        let line = lines[i].as_str();
        assert(ls.subrange(0, i + 1).drop_last() =~= ls.subrange(0, i as int));
        assert(ls[i as int] == line@);
        if starts_with(line, "Name=") && name.is_none() {
            proof { lemma_key_not_exclusion(line@, name_key(), 1); }
            name = Some(trim_start_matches(line, "Name="));
        } else if starts_with(line, "Comment=") && comment.is_none() {
            proof { lemma_key_not_exclusion(line@, comment_key(), 0); }
            comment = Some(trim_start_matches(line, "Comment="));
        } else if same_text(line, "Hidden=true") || same_text(line, "NoDisplay=true")
            || starts_with(line, "OnlyShowIn=") {
            assert(is_exclusion(ls[i as int]));
            return None;
        } else {
            proof {
                if has_prefix(line@, name_key()) {
                    lemma_key_not_exclusion(line@, name_key(), 1);
                }
                if has_prefix(line@, comment_key()) {
                    lemma_key_not_exclusion(line@, comment_key(), 0);
                }
            }
        }
        i = i + 1;
    }
    assert(ls.subrange(0, i as int) =~= ls);
    match name {
        None => None,
        Some(n) => {
            let description = match comment {
                Some(c) => c,
                None => String::new(),
            };
            Some(App { name: n, description, desktop_file: id.to_owned() })
        },
    }
}

/// Parses an application descriptor's text; `id` identifies the file for launching.
pub fn parse_desktop_file(content: &str, id: &str) -> (r: Option<App>)
    ensures
        opt_app_view(r) == desktop_entry(lines_of(content@), id@),
{
    let ls = lines(content);
    parse_desktop_lines(&ls, id)
}

} // verus!
