//! The command tree and the name resolver.
//!
//! A command may expose up to three invocation surfaces (slash, prefix,
//! context menu) and owns an ordered sequence of subcommands. Resolution maps
//! a raw name string to a path of child indices into the tree: a
//! case-insensitive match on a context-menu display name wins outright and is
//! never subdivided; otherwise the raw name is tokenized on ASCII whitespace
//! and walked down the tree, stopping at the deepest matching command.

use crate::chunks::views_of;
use crate::text::eq_ignore_ascii_case;
use crate::text::eq_ignore_ascii_case_seq;
use vstd::prelude::*;

verus! {

/// What a context-menu invocation of a command targets.
#[derive(Clone, Copy, Debug, PartialEq, Eq, Structural)]
pub enum ContextMenuCommandAction {
    /// The command acts on a user.
    User,
    /// The command acts on a message.
    Message,
}

/// One declared parameter of a command. Immutable once attached.
pub struct Parameter {
    /// The parameter's name.
    pub name: String,
    /// An optional short description.
    pub description: Option<String>,
    /// Whether the parameter must be supplied.
    pub required: bool,
}

/// One command definition: a node of the command tree.
pub struct Command {
    /// The name the command is invoked by.
    pub name: String,
    /// The listing category; `None` falls into the implicit default bucket.
    pub category: Option<String>,
    /// A short description for listings.
    pub description: Option<String>,
    /// Longer help text for single-command help.
    pub help_text: Option<String>,
    /// Whether a slash invocation is implemented.
    pub has_slash_action: bool,
    /// Whether a text-prefix invocation is implemented.
    pub has_prefix_action: bool,
    /// The context-menu action, when one is implemented.
    pub context_menu_action: Option<ContextMenuCommandAction>,
    /// The display name of the context-menu invocation, when it differs.
    pub context_menu_name: Option<String>,
    /// Hidden commands are left out of listings.
    pub hide_in_help: bool,
    /// The command's declared parameters, in order.
    pub parameters: Vec<Parameter>,
    /// The owned subcommands, in registration order.
    pub subcommands: Vec<Command>,
}

/// ASCII whitespace, the token separator of resolution.
pub open spec fn is_space(c: char) -> bool {
    c == ' ' || c == '\t' || c == '\n' || c == '\r'
}

/// First position at or after `i` that ends the token starting at `i`: the
/// next whitespace character, or the end of the text.
pub open spec fn token_end(s: Seq<char>, i: int) -> int
    decreases s.len() - i
        when 0 <= i <= s.len()
{
    if i >= s.len() || is_space(s[i]) {
        i
    } else {
        token_end(s, i + 1)
    }
}

/// `token_end` stays between its start and the end of the text.
pub proof fn lemma_token_end_bounds(s: Seq<char>, i: int)
    requires
        0 <= i <= s.len(),
    ensures
        i <= token_end(s, i) <= s.len(),
    decreases s.len() - i,
{
    if i < s.len() && !is_space(s[i]) {
        lemma_token_end_bounds(s, i + 1);
    }
}

/// The whitespace-separated tokens of `s` from position `i` on.
pub open spec fn tokens_from(s: Seq<char>, i: int) -> Seq<Seq<char>>
    decreases s.len() - i
        when 0 <= i <= s.len()
        via tokens_from_decreases
{
    if i >= s.len() {
        Seq::empty()
    } else if is_space(s[i]) {
        tokens_from(s, i + 1)
    } else {
        let j = token_end(s, i);
        seq![s.subrange(i, j)] + tokens_from(s, j)
    }
}

#[via_fn]
proof fn tokens_from_decreases(s: Seq<char>, i: int) {
    if i < s.len() && !is_space(s[i]) {
        lemma_token_end_bounds(s, i + 1);
    }
}

/// The whitespace-separated tokens of `s`. Empty and all-whitespace input
/// has no tokens.
pub open spec fn tokens_of(s: Seq<char>) -> Seq<Seq<char>> {
    tokens_from(s, 0)
}

/// Whether `c` is ASCII whitespace.
fn is_space_char(c: char) -> (r: bool)
    ensures
        r == is_space(c),
{
    c == ' ' || c == '\t' || c == '\n' || c == '\r'
}

/// Whether the character at position `j` of `s` is ASCII whitespace.
fn is_space_at(s: &str, j: usize) -> (r: bool)
    requires
        j < s@.len(),
    ensures
        r == is_space(s@[j as int]),
{
    is_space_char(s.get_char(j))
}

/// Splits `s` into its whitespace-separated tokens.
pub fn split_tokens(s: &str) -> (r: Vec<String>)
    ensures
        views_of(r@) == tokens_of(s@),
{
    let ghost t = s@;
    let len = s.unicode_len();
    let mut r: Vec<String> = Vec::new();
    let mut i: usize = 0;
    proof {
        assert(views_of(r@) + tokens_from(t, 0) =~= tokens_of(t));
    }
    while i < len
        invariant
            s@ == t,
            len == t.len(),
            0 <= i <= len,
            views_of(r@) + tokens_from(t, i as int) == tokens_of(t),
        decreases len - i,
    {
        if is_space_at(s, i) {
            i += 1;
        } else {
            let start = i;
            let mut j: usize = i;
            while j < len && !is_space_at(s, j)
                invariant
                    s@ == t,
                    len == t.len(),
                    start <= j <= len,
                    token_end(t, start as int) == token_end(t, j as int),
                decreases len - j,
            {
                j += 1;
            }
            proof {
                assert(token_end(t, j as int) == j);
                assert(tokens_from(t, start as int) == seq![t.subrange(start as int, j as int)]
                    + tokens_from(t, j as int));
            }
            let ghost old_views = views_of(r@);
            let token = s.substring_char(start, j);
            r.push(String::from_str(token));
            proof {
                assert(views_of(r@) =~= old_views.push(token@));
                assert(views_of(r@) + tokens_from(t, j as int) =~= old_views + tokens_from(
                    t,
                    start as int,
                ));
            }
            i = j;
        }
    }
    proof {
        assert(views_of(r@) =~= views_of(r@) + tokens_from(t, len as int));
    }
    r
}

/// Index of the first command at this level whose name matches `token` up to
/// ASCII case, searching from position `i` on; duplicates later in
/// registration order never win.
pub open spec fn find_matching_index(cmds: Seq<Command>, token: Seq<char>, i: int) -> Option<int>
    decreases cmds.len() - i
        when 0 <= i <= cmds.len()
{
    if i >= cmds.len() {
        None
    } else if eq_ignore_ascii_case_seq(cmds[i].name@, token) {
        Some(i)
    } else {
        find_matching_index(cmds, token, i + 1)
    }
}

/// A found index is in bounds and names a matching command.
pub proof fn lemma_find_matching_index_valid(cmds: Seq<Command>, token: Seq<char>, i: int)
    requires
        0 <= i <= cmds.len(),
        find_matching_index(cmds, token, i) is Some,
    ensures
        i <= find_matching_index(cmds, token, i).unwrap() < cmds.len(),
        eq_ignore_ascii_case_seq(cmds[find_matching_index(cmds, token, i).unwrap()].name@, token),
    decreases cmds.len() - i,
{
    if i < cmds.len() && !eq_ignore_ascii_case_seq(cmds[i].name@, token) {
        lemma_find_matching_index_valid(cmds, token, i + 1);
    }
}

/// First index at this level, from `i` on, of a command whose context-menu
/// display name matches `name` up to ASCII case and whose context-menu
/// action is defined; a context-menu command without its action is inert and
/// never resolved.
pub open spec fn find_context_menu_index(cmds: Seq<Command>, name: Seq<char>, i: int) -> Option<
    int,
>
    decreases cmds.len() - i
        when 0 <= i <= cmds.len()
{
    if i >= cmds.len() {
        None
    } else if cmds[i].context_menu_name matches Some(n) && eq_ignore_ascii_case_seq(n@, name)
        && cmds[i].context_menu_action is Some {
        Some(i)
    } else {
        find_context_menu_index(cmds, name, i + 1)
    }
}

/// The path of child indices that the token walk finds from this level,
/// starting at token `ti`: empty when the next token matches nothing here;
/// otherwise the first match, extended below it when subcommands are allowed
/// and the deeper walk finds more. The deepest matched command is the last
/// index of the path.
pub open spec fn descend_path(
    cmds: Seq<Command>,
    toks: Seq<Seq<char>>,
    ti: int,
    allow_subcommands: bool,
) -> Seq<int>
    decreases toks.len() - ti
        when 0 <= ti <= toks.len()
{
    if ti >= toks.len() {
        Seq::empty()
    } else {
        match find_matching_index(cmds, toks[ti], 0) {
            None => Seq::empty(),
            Some(i) => if allow_subcommands {
                seq![i] + descend_path(cmds[i].subcommands@, toks, ti + 1, allow_subcommands)
            } else {
                seq![i]
            },
        }
    }
}

/// What resolution returns: a context-menu name match wins outright as a
/// one-step path; otherwise the token walk, with an empty walk meaning "not
/// found".
pub open spec fn resolve_spec(cmds: Seq<Command>, raw: Seq<char>, allow_subcommands: bool) -> Option<
    Seq<int>,
> {
    match find_context_menu_index(cmds, raw, 0) {
        Some(i) => Some(seq![i]),
        None => {
            let p = descend_path(cmds, tokens_of(raw), 0, allow_subcommands);
            if p.len() == 0 {
                None
            } else {
                Some(p)
            }
        },
    }
}

/// The path of a `Vec<usize>` as mathematical integers.
pub open spec fn path_ints(p: Seq<usize>) -> Seq<int> {
    p.map_values(|u: usize| u as int)
}

/// Index of the first command at this level whose name matches `token` up to
/// ASCII case.
pub fn find_by_name(cmds: &Vec<Command>, token: &str) -> (r: Option<usize>)
    ensures
        match r {
            Some(i) => find_matching_index(cmds@, token@, 0) == Some(i as int) && i < cmds@.len(),
            None => find_matching_index(cmds@, token@, 0) is None,
        },
{
    let mut i: usize = 0;
    while i < cmds.len()
        invariant
            0 <= i <= cmds@.len(),
            find_matching_index(cmds@, token@, 0) == find_matching_index(cmds@, token@, i as int),
        decreases cmds@.len() - i,
    {
        if eq_ignore_ascii_case(cmds[i].name.as_str(), token) {
            return Some(i);
        }
        i += 1;
    }
    None
}

/// Resolves a raw name against the command tree: a case-insensitive match on
/// a context-menu display name (with its action defined) wins outright;
/// otherwise the name is tokenized on whitespace and walked down the tree to
/// the deepest matching command. The result is the path of child indices to
/// that command; `None` means nothing at the top level matched.
pub fn resolve(commands: &Vec<Command>, raw_name: &str, allow_subcommands: bool) -> (r: Option<
    Vec<usize>,
>)
    ensures
        match r {
            Some(path) => resolve_spec(commands@, raw_name@, allow_subcommands) == Some(
                path_ints(path@),
            ) && path@.len() >= 1,
            None => resolve_spec(commands@, raw_name@, allow_subcommands) is None,
        },
{
    let mut ci: usize = 0;
    while ci < commands.len()
        invariant
            0 <= ci <= commands@.len(),
            find_context_menu_index(commands@, raw_name@, 0) == find_context_menu_index(
                commands@,
                raw_name@,
                ci as int,
            ),
        decreases commands@.len() - ci,
    {
        let cmd = &commands[ci];
        let is_context_match = match &cmd.context_menu_name {
            Some(n) => cmd.context_menu_action.is_some() && eq_ignore_ascii_case(
                n.as_str(),
                raw_name,
            ),
            None => false,
        };
        if is_context_match {
            let mut path: Vec<usize> = Vec::new();
            path.push(ci);
            proof {
                assert(path_ints(path@) =~= seq![ci as int]);
            }
            return Some(path);
        }
        ci += 1;
    }
    let toks = split_tokens(raw_name);
    let ghost tv = tokens_of(raw_name@);
    if toks.len() == 0 {
        return None;
    }
    let first = find_by_name(commands, toks[0].as_str());
    let i0 = match first {
        None => {
            return None;
        },
        Some(i0) => i0,
    };
    let mut path: Vec<usize> = Vec::new();
    path.push(i0);
    if !allow_subcommands {
        proof {
            assert(descend_path(commands@, tv, 0, false) =~= path_ints(path@));
        }
        return Some(path);
    }
    let mut cur: &Command = &commands[i0];
    let mut ti: usize = 1;
    let mut stop = false;
    proof {
        assert(descend_path(commands@, tv, 0, true) =~= path_ints(path@) + descend_path(
            cur.subcommands@,
            tv,
            1,
            true,
        ));
    }
    while !stop && ti < toks.len()
        invariant
            views_of(toks@) == tv,
            1 <= ti <= toks@.len(),
            path@.len() >= 1,
            descend_path(commands@, tv, 0, true) == path_ints(path@) + (if stop {
                Seq::<int>::empty()
            } else {
                descend_path(cur.subcommands@, tv, ti as int, true)
            }),
        decreases (if stop {
            0int
        } else {
            1int
        }), toks@.len() - ti,
    {
        match find_by_name(&cur.subcommands, toks[ti].as_str()) {
            None => {
                proof {
                    assert(descend_path(cur.subcommands@, tv, ti as int, true)
                        =~= Seq::<int>::empty());
                }
                stop = true;
            },
            Some(i) => {
                let ghost old_path = path_ints(path@);
                proof {
                    assert(descend_path(cur.subcommands@, tv, ti as int, true) == seq![i as int]
                        + descend_path(cur.subcommands@[i as int].subcommands@, tv, ti + 1, true));
                }
                path.push(i);
                proof {
                    assert(path_ints(path@) =~= old_path.push(i as int));
                    assert(old_path + (seq![i as int] + descend_path(
                        cur.subcommands@[i as int].subcommands@,
                        tv,
                        ti + 1,
                        true,
                    )) =~= path_ints(path@) + descend_path(
                        cur.subcommands@[i as int].subcommands@,
                        tv,
                        ti + 1,
                        true,
                    ));
                }
                cur = &cur.subcommands[i];
                ti += 1;
            },
        }
    }
    proof {
        if !stop {
            assert(descend_path(cur.subcommands@, tv, ti as int, true) =~= Seq::<int>::empty());
        }
        assert(descend_path(commands@, tv, 0, true) =~= path_ints(path@));
    }
    Some(path)
}

/// The command that a path of child indices leads to, stepping through
/// `subcommands` at each level; `None` for an empty path or an index out of
/// range.
pub open spec fn command_at_from(cmds: Seq<Command>, path: Seq<int>, k: int) -> Option<Command>
    decreases path.len() - k
        when 0 <= k <= path.len()
{
    if k >= path.len() {
        None
    } else if 0 <= path[k] < cmds.len() {
        if k == path.len() - 1 {
            Some(cmds[path[k]])
        } else {
            command_at_from(cmds[path[k]].subcommands@, path, k + 1)
        }
    } else {
        None
    }
}

/// The command that `path` leads to in the tree rooted at `cmds`.
pub open spec fn command_at_spec(cmds: Seq<Command>, path: Seq<int>) -> Option<Command> {
    command_at_from(cmds, path, 0)
}

/// A found context-menu index is in bounds.
proof fn lemma_find_context_menu_index_valid(cmds: Seq<Command>, name: Seq<char>, i: int)
    requires
        0 <= i <= cmds.len(),
        find_context_menu_index(cmds, name, i) is Some,
    ensures
        i <= find_context_menu_index(cmds, name, i).unwrap() < cmds.len(),
    decreases cmds.len() - i,
{
    if i < cmds.len() && !(cmds[i].context_menu_name matches Some(n) && eq_ignore_ascii_case_seq(
        n@,
        name,
    ) && cmds[i].context_menu_action is Some) {
        lemma_find_context_menu_index_valid(cmds, name, i + 1);
    }
}

/// Prepending one step to a path shifts lookup positions by one.
proof fn lemma_command_at_shift(cmds: Seq<Command>, x: int, path: Seq<int>, k: int)
    requires
        0 <= k <= path.len(),
    ensures
        command_at_from(cmds, seq![x] + path, k + 1) == command_at_from(cmds, path, k),
    decreases path.len() - k,
{
    let p2 = seq![x] + path;
    if k < path.len() {
        assert(p2[k + 1] == path[k]);
        if 0 <= path[k] < cmds.len() && k < path.len() - 1 {
            lemma_command_at_shift(cmds[path[k]].subcommands@, x, path, k + 1);
        }
    }
}

/// A non-empty walk result is a valid path: it leads to a command.
proof fn lemma_descend_path_valid(cmds: Seq<Command>, toks: Seq<Seq<char>>, ti: int, allow: bool)
    requires
        0 <= ti <= toks.len(),
    ensures
        descend_path(cmds, toks, ti, allow).len() > 0 ==> command_at_spec(
            cmds,
            descend_path(cmds, toks, ti, allow),
        ) is Some,
    decreases toks.len() - ti,
{
    if ti < toks.len() {
        match find_matching_index(cmds, toks[ti], 0) {
            None => {},
            Some(i) => {
                lemma_find_matching_index_valid(cmds, toks[ti], 0);
                if allow {
                    let rest = descend_path(cmds[i].subcommands@, toks, ti + 1, allow);
                    lemma_descend_path_valid(cmds[i].subcommands@, toks, ti + 1, allow);
                    let p = seq![i] + rest;
                    if rest.len() == 0 {
                        assert(p =~= seq![i]);
                    } else {
                        lemma_command_at_shift(cmds[i].subcommands@, i, rest, 0);
                        assert(p[0] == i);
                    }
                } else {
                    assert(descend_path(cmds, toks, ti, false)[0] == i);
                }
            },
        }
    }
}

/// Law: resolution never hands back a dangling path. Whenever `resolve`
/// finds a command, looking the returned path up in the same tree yields a
/// command; a name with no registered match yields `None`, never a failure.
pub proof fn lemma_resolved_path_leads_to_command(cmds: Seq<Command>, raw: Seq<char>, allow: bool)
    ensures
        resolve_spec(cmds, raw, allow) matches Some(p) ==> command_at_spec(cmds, p) is Some,
{
    match find_context_menu_index(cmds, raw, 0) {
        Some(i) => {
            lemma_find_context_menu_index_valid(cmds, raw, 0);
        },
        None => {
            lemma_descend_path_valid(cmds, tokens_of(raw), 0, allow);
        },
    }
}

/// Follows a path of child indices to its command.
pub fn command_at<'a>(commands: &'a Vec<Command>, path: &Vec<usize>) -> (r: Option<&'a Command>)
    ensures
        match r {
            Some(c) => command_at_spec(commands@, path_ints(path@)) == Some(*c),
            None => command_at_spec(commands@, path_ints(path@)) is None,
        },
{
    if path.len() == 0 {
        return None;
    }
    let ghost pi = path_ints(path@);
    let mut cur: &Vec<Command> = commands;
    let mut k: usize = 0;
    while k < path.len() - 1
        invariant
            0 <= k < path@.len(),
            pi == path_ints(path@),
            pi.len() == path@.len(),
            command_at_from(commands@, pi, 0) == command_at_from(cur@, pi, k as int),
        decreases path@.len() - k,
    {
        let idx = path[k];
        if idx >= cur.len() {
            return None;
        }
        cur = &cur[idx].subcommands;
        k += 1;
    }
    let idx = path[k];
    if idx >= cur.len() {
        return None;
    }
    Some(&cur[idx])
}

} // verus!
