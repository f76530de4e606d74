//! Rendering of command listings: the categorized all-commands overview.
//!
//! Commands are grouped by category in first-seen order among visible
//! commands (hidden commands and commands with neither a slash nor a prefix
//! surface are left out), each group under a heading, each command as an
//! aligned two-column row. Context-menu commands can be appended as a
//! separate unindented list.

use crate::command::Command;
use crate::command::ContextMenuCommandAction;
use crate::text::str_eq;
use crate::two_column::heading_rows;
use crate::two_column::two_column_string;
use crate::two_column::TwoColumnList;
use vstd::prelude::*;

verus! {

/// Optional configuration for how rendered help looks.
pub struct HelpConfiguration<'a> {
    /// Extra text displayed at the bottom of the message.
    pub extra_text_at_bottom: &'a str,
    /// Whether to make the response ephemeral if possible.
    pub ephemeral: bool,
    /// Whether to list context menu commands as well.
    pub show_context_menu_commands: bool,
    /// Whether to list subcommands (one level) under each command.
    pub show_subcommands: bool,
    /// Whether to include the short description above the help text.
    pub include_description: bool,
}

impl<'a> Default for HelpConfiguration<'a> {
    /// The default configuration: no extra text, ephemeral, no context-menu
    /// or subcommand listing, description included.
    fn default() -> (r: Self)
        ensures
            r.extra_text_at_bottom@ == Seq::<char>::empty(),
            r.ephemeral == true,
            r.show_context_menu_commands == false,
            r.show_subcommands == false,
            r.include_description == true,
    {
        proof {
            reveal_strlit("");
        }
        HelpConfiguration {
            extra_text_at_bottom: "",
            ephemeral: true,
            show_context_menu_commands: false,
            show_subcommands: false,
            include_description: true,
        }
    }
}

/// How the invocation prefix is configured: fixed at registration, computed
/// per invocation by a caller-supplied callback, or not configured at all.
pub enum PrefixSetting {
    /// A fixed prefix string.
    Fixed(String),
    /// A dynamic prefix: the caller runs the callback and hands its outcome
    /// in as a plain value (`None` when the callback failed or declined).
    Dynamic,
    /// No prefix is configured.
    Unset,
}

/// Picks the effective invocation prefix: the fixed one when configured,
/// else whatever the dynamic callback produced, else none. A failed dynamic
/// callback (handed in as `None`) yields no prefix rather than an error;
/// rendering then falls back to a placeholder.
pub fn get_prefix_from_options(setting: &PrefixSetting, dynamic_result: Option<String>) -> (r:
    Option<String>)
    ensures
        match setting {
            PrefixSetting::Fixed(p) => r matches Some(q) && q@ == p@,
            PrefixSetting::Dynamic => r == dynamic_result,
            PrefixSetting::Unset => r is None,
        },
{
    match setting {
        PrefixSetting::Fixed(p) => Some(p.clone()),
        PrefixSetting::Dynamic => dynamic_result,
        PrefixSetting::Unset => None,
    }
}

/// The view of an optional owned string.
pub open spec fn opt_str_view(o: Option<String>) -> Option<Seq<char>> {
    match o {
        Some(s) => Some(s@),
        None => None,
    }
}

/// The view of an optional borrowed string.
pub open spec fn opt_ref_view(o: Option<&str>) -> Option<Seq<char>> {
    match o {
        Some(s) => Some(s@),
        None => None,
    }
}

/// A command's short description, or empty when it has none.
pub open spec fn desc_or_empty(c: Command) -> Seq<char> {
    match c.description {
        Some(d) => d@,
        None => Seq::empty(),
    }
}

/// The word naming what a context-menu action targets.
pub open spec fn context_menu_kind_label(k: ContextMenuCommandAction) -> Seq<char> {
    match k {
        ContextMenuCommandAction::User => "user"@,
        ContextMenuCommandAction::Message => "message"@,
    }
}

/// The display label of a command's context-menu invocation: its context-menu
/// name (falling back to its plain name) with the target kind appended, or
/// `None` when no context-menu action is defined.
pub open spec fn context_menu_label(c: Command) -> Option<Seq<char>> {
    match c.context_menu_action {
        None => None,
        Some(k) => Some(
            (match c.context_menu_name {
                Some(n) => n@,
                None => c.name@,
            }) + " (on "@ + context_menu_kind_label(k) + ")"@,
        ),
    }
}

/// Formats a command's context-menu display label, such as a name followed by
/// the targeted kind in parentheses; `None` when the command has no
/// context-menu action.
pub fn format_context_menu_name(command: &Command) -> (r: Option<String>)
    ensures
        match r {
            Some(s) => context_menu_label(*command) == Some(s@),
            None => context_menu_label(*command) is None,
        },
{
    let kind: &str = match &command.context_menu_action {
        Some(ContextMenuCommandAction::User) => "user",
        Some(ContextMenuCommandAction::Message) => "message",
        None => {
            return None;
        },
    };
    let base: &str = match &command.context_menu_name {
        Some(n) => n.as_str(),
        None => command.name.as_str(),
    };
    let s = String::from_str(base).concat(" (on ").concat(kind).concat(")");
    Some(s)
}

/// Whether a command is listed only through the context menu: neither a
/// slash nor a prefix surface.
pub open spec fn as_context_command(c: Command) -> bool {
    !c.has_slash_action && !c.has_prefix_action
}

/// The listing row of one subcommand: under a context-menu-only parent its
/// context-menu label (or nothing when it has none), otherwise the parent's
/// prefix followed by its name; either way paired with its description.
pub open spec fn sub_row(parent_is_context: bool, sub: Command, prefix: Seq<char>) -> Seq<
    (Seq<char>, Option<Seq<char>>),
> {
    if parent_is_context {
        match context_menu_label(sub) {
            None => Seq::empty(),
            Some(l) => seq![(l, Some(desc_or_empty(sub)))],
        }
    } else {
        seq![(prefix + " "@ + sub.name@, Some(desc_or_empty(sub)))]
    }
}

/// The rows of the first `n` subcommands of `c`.
pub open spec fn subcommand_rows_upto(c: Command, prefix: Seq<char>, n: int) -> Seq<
    (Seq<char>, Option<Seq<char>>),
>
    decreases n,
{
    if n <= 0 {
        Seq::empty()
    } else {
        subcommand_rows_upto(c, prefix, n - 1) + sub_row(
            as_context_command(c),
            c.subcommands@[n - 1],
            prefix,
        )
    }
}

/// The listing rows of all immediate subcommands of `c` (one level only).
pub open spec fn subcommand_rows(c: Command, prefix: Seq<char>) -> Seq<
    (Seq<char>, Option<Seq<char>>),
> {
    subcommand_rows_upto(c, prefix, c.subcommands@.len() as int)
}

/// Appends the rows of all immediate subcommands of `command` to the list,
/// each under `prefix` (or, for a context-menu-only parent, under its
/// context-menu label).
pub fn preformat_subcommands(commands: &mut TwoColumnList, command: &Command, prefix: &str)
    ensures
        final (commands).rows() == old(commands).rows() + subcommand_rows(*command, prefix@),
{
    let as_context = !command.has_slash_action && !command.has_prefix_action;
    proof {
        assert(commands.rows() =~= old(commands).rows() + subcommand_rows_upto(
            *command,
            prefix@,
            0,
        ));
    }
    let mut i: usize = 0;
    while i < command.subcommands.len()
        invariant
            0 <= i <= command.subcommands@.len(),
            as_context == as_context_command(*command),
            commands.rows() == old(commands).rows() + subcommand_rows_upto(
                *command,
                prefix@,
                i as int,
            ),
        decreases command.subcommands@.len() - i,
    {
        let sub = &command.subcommands[i];
        if as_context {
            match format_context_menu_name(sub) {
                Some(name) => {
                    let description: String = match &sub.description {
                        Some(d) => d.clone(),
                        None => String::new(),
                    };
                    commands.push_two_colums(name, description);
                },
                None => {},
            }
        } else {
            let label = String::from_str(prefix).concat(" ").concat(sub.name.as_str());
            let description: String = match &sub.description {
                Some(d) => d.clone(),
                None => String::new(),
            };
            commands.push_two_colums(label, description);
        }
        proof {
            assert(commands.rows() =~= old(commands).rows() + subcommand_rows_upto(
                *command,
                prefix@,
                i as int + 1,
            ));
        }
        i += 1;
    }
}

/// The surface marker put before a command's name in a listing: `/` for a
/// slash command, otherwise the resolved invocation prefix (or nothing when
/// none is available).
pub open spec fn command_prefix_str(c: Command, options_prefix: Option<Seq<char>>) -> Seq<char> {
    if c.has_slash_action {
        "/"@
    } else {
        match options_prefix {
            Some(p) => p,
            None => Seq::empty(),
        }
    }
}

/// A command's listing label: indent, surface marker, name.
pub open spec fn command_label(c: Command, indent: Seq<char>, options_prefix: Option<Seq<char>>) -> Seq<
    char,
> {
    indent + command_prefix_str(c, options_prefix) + c.name@
}

/// The listing rows of one command: its own row, followed by its subcommand
/// rows when subcommands are shown.
pub open spec fn command_rows(
    c: Command,
    show_subcommands: bool,
    indent: Seq<char>,
    options_prefix: Option<Seq<char>>,
) -> Seq<(Seq<char>, Option<Seq<char>>)> {
    seq![(command_label(c, indent, options_prefix), Some(desc_or_empty(c)))] + (
    if show_subcommands {
        subcommand_rows(c, command_label(c, indent, options_prefix))
    } else {
        Seq::empty()
    })
}

/// Appends the listing row(s) of one command: label against description, and
/// its subcommands when the configuration shows them. The command must have a
/// slash or a prefix surface; context-menu-only commands are filtered out
/// before this point.
pub fn preformat_command(
    commands: &mut TwoColumnList,
    config: &HelpConfiguration<'_>,
    command: &Command,
    indent: &str,
    options_prefix: Option<&str>,
)
    requires
        command.has_slash_action || command.has_prefix_action,
    ensures
        final (commands).rows() == old(commands).rows() + command_rows(
            *command,
            config.show_subcommands,
            indent@,
            opt_ref_view(options_prefix),
        ),
{
    let mut label = String::from_str(indent);
    if command.has_slash_action {
        label = label.concat("/");
    } else {
        match options_prefix {
            Some(p) => {
                label = label.concat(p);
            },
            None => {},
        }
    }
    label = label.concat(command.name.as_str());
    proof {
        assert(label@ =~= command_label(*command, indent@, opt_ref_view(options_prefix)));
    }
    let description: String = match &command.description {
        Some(d) => d.clone(),
        None => String::new(),
    };
    let ghost rows_before = commands.rows();
    commands.push_two_colums(label.clone(), description);
    if config.show_subcommands {
        preformat_subcommands(commands, command, label.as_str());
    }
    proof {
        assert(commands.rows() =~= old(commands).rows() + command_rows(
            *command,
            config.show_subcommands,
            indent@,
            opt_ref_view(options_prefix),
        ));
    }
}

/// Whether a command appears in the all-commands listing: not hidden, and
/// invocable by prefix or slash.
pub open spec fn visible_in_help(c: Command) -> bool {
    !c.hide_in_help && (c.has_prefix_action || c.has_slash_action)
}

/// A command's category as a mathematical value.
pub open spec fn cat_of(c: Command) -> Option<Seq<char>> {
    opt_str_view(c.category)
}

/// The heading text of a category: its name, or the implicit default bucket.
pub open spec fn cat_label(cat: Option<Seq<char>>) -> Seq<char> {
    match cat {
        Some(s) => s,
        None => "Commands"@,
    }
}

/// The categories of the first `n` commands, in first-seen order among
/// visible commands, without repetition.
pub open spec fn cats_upto(cmds: Seq<Command>, n: int) -> Seq<Option<Seq<char>>>
    decreases n,
{
    if n <= 0 {
        Seq::empty()
    } else {
        let init = cats_upto(cmds, n - 1);
        if visible_in_help(cmds[n - 1]) && !init.contains(cat_of(cmds[n - 1])) {
            init.push(cat_of(cmds[n - 1]))
        } else {
            init
        }
    }
}

/// A category was seen among the first `n` commands exactly when some visible
/// command among them carries it.
pub proof fn lemma_cats_upto_contains(cmds: Seq<Command>, n: int, x: Option<Seq<char>>)
    requires
        0 <= n <= cmds.len(),
    ensures
        cats_upto(cmds, n).contains(x) <==> exists|k: int|
            0 <= k < n && visible_in_help(#[trigger] cmds[k]) && cat_of(cmds[k]) == x,
    decreases n,
{
    if n > 0 {
        lemma_cats_upto_contains(cmds, n - 1, x);
        let init = cats_upto(cmds, n - 1);
        let cur = cats_upto(cmds, n);
        if visible_in_help(cmds[n - 1]) && !init.contains(cat_of(cmds[n - 1])) {
            if cur.contains(x) {
                let i = choose|i: int| 0 <= i < cur.len() && cur[i] == x;
                if i < init.len() {
                    assert(init[i] == x);
                    assert(init.contains(x));
                } else {
                    assert(cmds[n - 1] == cmds[n - 1] && visible_in_help(cmds[n - 1]) && cat_of(
                        cmds[n - 1],
                    ) == x);
                }
            }
            if exists|k: int| 0 <= k < n && visible_in_help(#[trigger] cmds[k]) && cat_of(cmds[k])
                == x {
                let k = choose|k: int|
                    0 <= k < n && visible_in_help(#[trigger] cmds[k]) && cat_of(cmds[k]) == x;
                if k < n - 1 {
                    assert(init.contains(x));
                    let i = choose|i: int| 0 <= i < init.len() && init[i] == x;
                    assert(cur[i] == x);
                    assert(cur.contains(x));
                } else {
                    assert(cur[init.len() as int] == x);
                    assert(cur.contains(x));
                }
            }
        } else {
            if exists|k: int| 0 <= k < n && visible_in_help(#[trigger] cmds[k]) && cat_of(cmds[k])
                == x {
                let k = choose|k: int|
                    0 <= k < n && visible_in_help(#[trigger] cmds[k]) && cat_of(cmds[k]) == x;
                if k == n - 1 {
                    assert(init.contains(cat_of(cmds[n - 1])));
                    assert(init.contains(x));
                }
            }
        }
    }
}

/// The rows of the visible commands of one category, among the first `n`
/// commands, in registration order.
pub open spec fn category_rows_upto(
    cmds: Seq<Command>,
    cat: Option<Seq<char>>,
    n: int,
    show_subcommands: bool,
    options_prefix: Option<Seq<char>>,
) -> Seq<(Seq<char>, Option<Seq<char>>)>
    decreases n,
{
    if n <= 0 {
        Seq::empty()
    } else {
        category_rows_upto(cmds, cat, n - 1, show_subcommands, options_prefix) + (
        if visible_in_help(cmds[n - 1]) && cat_of(cmds[n - 1]) == cat {
            command_rows(cmds[n - 1], show_subcommands, "  "@, options_prefix)
        } else {
            Seq::empty()
        })
    }
}

/// The full listing rows after the first `n` categories: each category's
/// heading (with its separator) followed by its commands' rows.
pub open spec fn rows_after_cats(
    cmds: Seq<Command>,
    cats: Seq<Option<Seq<char>>>,
    n: int,
    show_subcommands: bool,
    options_prefix: Option<Seq<char>>,
) -> Seq<(Seq<char>, Option<Seq<char>>)>
    decreases n,
{
    if n <= 0 {
        Seq::empty()
    } else {
        heading_rows(
            rows_after_cats(cmds, cats, n - 1, show_subcommands, options_prefix),
            cat_label(cats[n - 1]),
        ) + category_rows_upto(cmds, cats[n - 1], cmds.len() as int, show_subcommands, options_prefix)
    }
}

/// Appending one more category leaves the rows of the first `n` untouched.
proof fn lemma_rows_after_cats_push(
    cmds: Seq<Command>,
    cats: Seq<Option<Seq<char>>>,
    x: Option<Seq<char>>,
    n: int,
    show_subcommands: bool,
    options_prefix: Option<Seq<char>>,
)
    requires
        0 <= n <= cats.len(),
    ensures
        rows_after_cats(cmds, cats.push(x), n, show_subcommands, options_prefix) == rows_after_cats(
            cmds,
            cats,
            n,
            show_subcommands,
            options_prefix,
        ),
    decreases n,
{
    if n > 0 {
        lemma_rows_after_cats_push(cmds, cats, x, n - 1, show_subcommands, options_prefix);
        assert(cats.push(x)[n - 1] == cats[n - 1]);
    }
}

/// The lines of the context-menu section: one indented label per command
/// with a context-menu action, among the first `n` commands.
pub open spec fn ctx_lines_upto(cmds: Seq<Command>, n: int) -> Seq<char>
    decreases n,
{
    if n <= 0 {
        Seq::empty()
    } else {
        ctx_lines_upto(cmds, n - 1) + (match context_menu_label(cmds[n - 1]) {
            Some(l) => "  "@ + l + "\n"@,
            None => Seq::empty(),
        })
    }
}

/// The whole all-commands menu: the aligned categorized listing, the
/// optional context-menu section, a blank line, and the configured footer.
pub open spec fn all_commands_menu(
    cmds: Seq<Command>,
    show_subcommands: bool,
    show_context_menu: bool,
    extra: Seq<char>,
    options_prefix: Option<Seq<char>>,
) -> Seq<char> {
    let cats = cats_upto(cmds, cmds.len() as int);
    let rows = rows_after_cats(cmds, cats, cats.len() as int, show_subcommands, options_prefix);
    two_column_string(rows) + (if show_context_menu {
        "\nContext menu commands:\n"@ + ctx_lines_upto(cmds, cmds.len() as int)
    } else {
        Seq::empty()
    }) + "\n"@ + extra
}

/// Whether a command appears in the all-commands listing.
fn is_visible(c: &Command) -> (r: bool)
    ensures
        r == visible_in_help(*c),
{
    !c.hide_in_help && (c.has_prefix_action || c.has_slash_action)
}

/// Whether two optional category names hold the same text.
fn opt_cat_eq(a: &Option<String>, b: &Option<String>) -> (r: bool)
    ensures
        r == (opt_str_view(*a) == opt_str_view(*b)),
{
    match (a, b) {
        (None, None) => true,
        (Some(x), Some(y)) => str_eq(x.as_str(), y.as_str()),
        _ => false,
    }
}

/// Creates the text of the all-commands overview: commands grouped by
/// category in first-seen order among visible commands, aligned against
/// their descriptions, optionally followed by the context-menu commands,
/// then a blank line and the configured footer. The invocation prefix is
/// resolved by the caller and handed in; `None` leaves prefix commands
/// unmarked.
pub fn generate_all_commands(
    commands: &Vec<Command>,
    config: &HelpConfiguration<'_>,
    options_prefix: Option<&str>,
) -> (menu: String)
    ensures
        menu@ == all_commands_menu(
            commands@,
            config.show_subcommands,
            config.show_context_menu_commands,
            config.extra_text_at_bottom@,
            opt_ref_view(options_prefix),
        ),
{
    let ghost cmds = commands@;
    let ghost opts = opt_ref_view(options_prefix);
    let ghost sub = config.show_subcommands;
    let mut commandlist = TwoColumnList::new();
    let mut ci: usize = 0;
    proof {
        assert(commandlist.rows() =~= rows_after_cats(cmds, cats_upto(cmds, 0), 0, sub, opts));
    }
    while ci < commands.len()
        invariant
            cmds == commands@,
            opts == opt_ref_view(options_prefix),
            sub == config.show_subcommands,
            0 <= ci <= cmds.len(),
            commandlist.rows() == rows_after_cats(
                cmds,
                cats_upto(cmds, ci as int),
                cats_upto(cmds, ci as int).len() as int,
                sub,
                opts,
            ),
        decreases cmds.len() - ci,
    {
        let c = &commands[ci];
        let ghost catsi = cats_upto(cmds, ci as int);
        if is_visible(c) {
            let mut seen = false;
            let mut j: usize = 0;
            while j < ci
                invariant
                    cmds == commands@,
                    0 <= j <= ci <= cmds.len(),
                    c == &commands[ci as int],
                    seen == exists|k: int|
                        0 <= k < j && visible_in_help(#[trigger] cmds[k]) && cat_of(cmds[k])
                            == cat_of(cmds[ci as int]),
                decreases ci - j,
            {
                if is_visible(&commands[j]) && opt_cat_eq(&commands[j].category, &c.category) {
                    seen = true;
                    proof {
                        assert(visible_in_help(cmds[j as int]) && cat_of(cmds[j as int]) == cat_of(
                            cmds[ci as int],
                        ));
                    }
                }
                j += 1;
            }
            proof {
                lemma_cats_upto_contains(cmds, ci as int, cat_of(cmds[ci as int]));
            }
            if !seen {
                let ghost rows_before = commandlist.rows();
                match &c.category {
                    Some(s) => commandlist.push_heading(s.as_str()),
                    None => commandlist.push_heading("Commands"),
                }
                let ghost after_heading = heading_rows(
                    rows_before,
                    cat_label(cat_of(cmds[ci as int])),
                );
                proof {
                    assert(commandlist.rows() == after_heading);
                    assert(commandlist.rows() =~= after_heading + category_rows_upto(
                        cmds,
                        cat_of(cmds[ci as int]),
                        0,
                        sub,
                        opts,
                    ));
                }
                let mut k: usize = 0;
                while k < commands.len()
                    invariant
                        cmds == commands@,
                        opts == opt_ref_view(options_prefix),
                        sub == config.show_subcommands,
                        0 <= k <= cmds.len(),
                        ci < cmds.len(),
                        c == &commands[ci as int],
                        commandlist.rows() == after_heading + category_rows_upto(
                            cmds,
                            cat_of(cmds[ci as int]),
                            k as int,
                            sub,
                            opts,
                        ),
                    decreases cmds.len() - k,
                {
                    let m = &commands[k];
                    if is_visible(m) && opt_cat_eq(&m.category, &c.category) {
                        preformat_command(&mut commandlist, config, m, "  ", options_prefix);
                    }
                    proof {
                        assert(commandlist.rows() =~= after_heading + category_rows_upto(
                            cmds,
                            cat_of(cmds[ci as int]),
                            k as int + 1,
                            sub,
                            opts,
                        ));
                    }
                    k += 1;
                }
                proof {
                    let cats1 = cats_upto(cmds, ci as int + 1);
                    assert(cats1 == catsi.push(cat_of(cmds[ci as int])));
                    lemma_rows_after_cats_push(
                        cmds,
                        catsi,
                        cat_of(cmds[ci as int]),
                        catsi.len() as int,
                        sub,
                        opts,
                    );
                    assert(cats1[cats1.len() - 1] == cat_of(cmds[ci as int]));
                    assert(commandlist.rows() == rows_after_cats(
                        cmds,
                        cats1,
                        cats1.len() as int,
                        sub,
                        opts,
                    ));
                }
            } else {
                proof {
                    assert(cats_upto(cmds, ci as int + 1) == catsi);
                }
            }
        } else {
            proof {
                assert(cats_upto(cmds, ci as int + 1) == catsi);
            }
        }
        ci += 1;
    }
    let mut menu = commandlist.into_string();
    let ghost listing = menu@;
    proof {
        assert(listing == two_column_string(
            rows_after_cats(
                cmds,
                cats_upto(cmds, cmds.len() as int),
                cats_upto(cmds, cmds.len() as int).len() as int,
                sub,
                opts,
            ),
        ));
    }
    if config.show_context_menu_commands {
        menu.append("\nContext menu commands:\n");
        let ghost header = listing + "\nContext menu commands:\n"@;
        proof {
            assert(menu@ =~= header + ctx_lines_upto(cmds, 0));
        }
        let mut k: usize = 0;
        while k < commands.len()
            invariant
                cmds == commands@,
                0 <= k <= cmds.len(),
                menu@ == header + ctx_lines_upto(cmds, k as int),
            decreases cmds.len() - k,
        {
            match format_context_menu_name(&commands[k]) {
                Some(name) => {
                    menu.append("  ");
                    menu.append(name.as_str());
                    menu.append("\n");
                },
                None => {},
            }
            proof {
                assert(menu@ =~= header + ctx_lines_upto(cmds, k as int + 1));
            }
            k += 1;
        }
    }
    menu.append("\n");
    menu.append(config.extra_text_at_bottom);
    proof {
        assert(menu@ =~= all_commands_menu(
            cmds,
            sub,
            config.show_context_menu_commands,
            config.extra_text_at_bottom@,
            opts,
        ));
    }
    menu
}

} // verus!
