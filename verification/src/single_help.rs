//! Rendering of a single command's full help: its invocation forms, its
//! description and help text, and aligned blocks for its parameters and
//! immediate subcommands. An unresolvable name yields a short "no such
//! command" text, never an error.

use crate::command::command_at;
use crate::command::command_at_spec;
use crate::command::resolve;
use crate::command::resolve_spec;
use crate::command::Command;
use crate::command::Parameter;
use crate::help_render::context_menu_label;
use crate::help_render::format_context_menu_name;
use crate::help_render::opt_ref_view;
use crate::help_render::subcommand_rows;
use crate::help_render::HelpConfiguration;
use crate::two_column::two_column_string;
use crate::two_column::TwoColumnList;
use vstd::prelude::*;

verus! {

/// The prefix shown in invocation forms: the resolved one, or a placeholder
/// when the prefix is dynamic and unavailable in this context.
pub open spec fn prefix_or_placeholder(prefix: Option<Seq<char>>) -> Seq<char> {
    match prefix {
        Some(p) => p,
        None => "<prefix>"@,
    }
}

/// Whether a command can be invoked at all: one of the three surfaces is
/// implemented (for the context menu, a display name and an action).
pub open spec fn has_surface(c: Command) -> bool {
    c.has_slash_action || c.has_prefix_action || (c.context_menu_name is Some
        && c.context_menu_action is Some)
}

/// The applicable invocation forms of a command, in order: slash form,
/// prefix form, context-menu form.
pub open spec fn invocation_lines(c: Command, prefix: Option<Seq<char>>) -> Seq<Seq<char>> {
    (if c.has_slash_action {
        seq!["`/"@ + c.name@ + "`"@]
    } else {
        Seq::empty()
    }) + (if c.has_prefix_action {
        seq!["`"@ + prefix_or_placeholder(prefix) + c.name@ + "`"@]
    } else {
        Seq::empty()
    }) + (if c.context_menu_name is Some && c.context_menu_action is Some {
        seq![context_menu_label(c).unwrap()]
    } else {
        Seq::empty()
    })
}

/// The given texts joined by single newlines.
pub open spec fn join_newline(xs: Seq<Seq<char>>) -> Seq<char>
    decreases xs.len(),
{
    if xs.len() == 0 {
        Seq::empty()
    } else if xs.len() == 1 {
        xs[0]
    } else {
        join_newline(xs.drop_last()) + "\n"@ + xs.last()
    }
}

/// The indented prefix that subcommand rows stand under: the slash form when
/// there is one, else the prefix form, else bare indentation for
/// context-menu-only commands (the menu has no hierarchy).
pub open spec fn subprefix_of(c: Command, prefix: Option<Seq<char>>) -> Seq<char> {
    if c.has_slash_action {
        "  /"@ + c.name@
    } else if c.has_prefix_action {
        "  "@ + prefix_or_placeholder(prefix) + c.name@
    } else {
        "  "@
    }
}

/// The descriptive body: description and help text as configuration asks,
/// or a fallback when the command has neither.
pub open spec fn body_text(c: Command, include_description: bool) -> Seq<char> {
    match (c.description, c.help_text) {
        (Some(d), Some(h)) => if include_description {
            d@ + "\n\n"@ + h@
        } else {
            h@
        },
        (Some(d), None) => d@,
        (None, Some(h)) => h@,
        (None, None) => "No help available"@,
    }
}

/// The aligned row of one parameter: its name against its requiredness and
/// description.
pub open spec fn param_row(p: Parameter) -> (Seq<char>, Option<Seq<char>>) {
    (
        p.name@,
        Some(
            "("@ + (if p.required {
                "required"@
            } else {
                "optional"@
            }) + ") "@ + (match p.description {
                Some(d) => d@,
                None => Seq::empty(),
            }),
        ),
    )
}

/// The rows of the first `n` parameters of `c`.
pub open spec fn param_rows_upto(c: Command, n: int) -> Seq<(Seq<char>, Option<Seq<char>>)>
    decreases n,
{
    if n <= 0 {
        Seq::empty()
    } else {
        param_rows_upto(c, n - 1).push(param_row(c.parameters@[n - 1]))
    }
}

/// The full help text of one command: its invocation forms in bold, the
/// descriptive body, and aligned blocks for parameters and immediate
/// subcommands when they exist.
pub open spec fn single_command_text(
    c: Command,
    prefix: Option<Seq<char>>,
    include_description: bool,
) -> Seq<char> {
    let invocations = join_newline(invocation_lines(c, prefix));
    let body = body_text(c, include_description) + (if c.parameters@.len() > 0 {
        "\n\n```\nParameters:\n"@ + two_column_string(
            param_rows_upto(c, c.parameters@.len() as int),
        ) + "```"@
    } else {
        Seq::empty()
    }) + (if c.subcommands@.len() > 0 {
        "\n\n```\nSubcommands:\n"@ + two_column_string(subcommand_rows(c, subprefix_of(c, prefix)))
            + "```"@
    } else {
        Seq::empty()
    });
    "**"@ + invocations + "**\n\n"@ + body
}

/// The reply to a name that resolves to no command.
pub open spec fn no_such_command_text(name: Seq<char>) -> Seq<char> {
    "No such command `"@ + name + "`"@
}

/// What single-command help replies to a raw name: the resolved command's
/// help, or the "no such command" text.
pub open spec fn command_help_text(
    cmds: Seq<Command>,
    raw: Seq<char>,
    prefix: Option<Seq<char>>,
    include_description: bool,
) -> Seq<char> {
    match resolve_spec(cmds, raw, true) {
        None => no_such_command_text(raw),
        Some(p) => match command_at_spec(cmds, p) {
            Some(c) => single_command_text(c, prefix, include_description),
            None => no_such_command_text(raw),
        },
    }
}

/// Builds the invocation-forms header of a command's help, one form per
/// line.
fn build_invocations(command: &Command, prefix: Option<&str>) -> (r: String)
    ensures
        r@ == join_newline(invocation_lines(*command, opt_ref_view(prefix))),
{
    let ghost prefixv = opt_ref_view(prefix);
    let prefix_str: &str = match prefix {
        Some(p) => p,
        None => "<prefix>",
    };
    proof {
        assert(prefix_str@ == prefix_or_placeholder(prefixv));
    }
    let mut inv = String::new();
    let mut any = false;
    let ghost mut lines: Seq<Seq<char>> = Seq::empty();
    if command.has_slash_action {
        let line = String::from_str("`/").concat(command.name.as_str()).concat("`");
        if any {
            inv.append("\n");
        }
        inv.append(line.as_str());
        proof {
            lines = lines.push(line@);
            assert(inv@ =~= join_newline(lines));
        }
        any = true;
    }
    if command.has_prefix_action {
        let line = String::from_str("`").concat(prefix_str).concat(command.name.as_str()).concat(
            "`",
        );
        if any {
            inv.append("\n");
        }
        inv.append(line.as_str());
        proof {
            assert(lines.push(line@).drop_last() =~= lines);
            lines = lines.push(line@);
            assert(inv@ =~= join_newline(lines));
        }
        any = true;
    }
    if command.context_menu_name.is_some() && command.context_menu_action.is_some() {
        let line = match format_context_menu_name(command) {
            Some(l) => l,
            None => {
                proof {
                    assert(false);
                }
                String::new()
            },
        };
        if any {
            inv.append("\n");
        }
        inv.append(line.as_str());
        proof {
            assert(lines.push(line@).drop_last() =~= lines);
            lines = lines.push(line@);
            assert(inv@ =~= join_newline(lines));
        }
        any = true;
    }
    proof {
        assert(lines =~= invocation_lines(*command, prefixv));
    }
    inv
}

/// Builds the prefix that subcommand rows stand under.
fn build_subprefix(command: &Command, prefix: Option<&str>) -> (r: String)
    ensures
        r@ == subprefix_of(*command, opt_ref_view(prefix)),
{
    let ghost prefixv = opt_ref_view(prefix);
    let prefix_str: &str = match prefix {
        Some(p) => p,
        None => "<prefix>",
    };
    proof {
        assert(prefix_str@ == prefix_or_placeholder(prefixv));
    }
    let mut subprefix = String::from_str("  ");
    if command.has_slash_action {
        subprefix = subprefix.concat("/").concat(command.name.as_str());
        proof {
            reveal_strlit("  ");
            reveal_strlit("/");
            reveal_strlit("  /");
            assert(subprefix@ =~= subprefix_of(*command, prefixv));
        }
    } else if command.has_prefix_action {
        subprefix = subprefix.concat(prefix_str).concat(command.name.as_str());
        proof {
            assert(subprefix@ =~= subprefix_of(*command, prefixv));
        }
    }
    subprefix
}

/// Builds the parameter block's aligned table.
fn build_param_table(command: &Command) -> (r: String)
    ensures
        r@ == two_column_string(param_rows_upto(*command, command.parameters@.len() as int)),
{
    let mut parameterlist = TwoColumnList::new();
    proof {
        assert(parameterlist.rows() =~= param_rows_upto(*command, 0));
    }
    let mut i: usize = 0;
    while i < command.parameters.len()
        invariant
            0 <= i <= command.parameters@.len(),
            parameterlist.rows() == param_rows_upto(*command, i as int),
        decreases command.parameters@.len() - i,
    {
        let p = &command.parameters[i];
        let name = p.name.clone();
        let mut description = String::from_str("(");
        description = description.concat(
            if p.required {
                "required"
            } else {
                "optional"
            },
        ).concat(") ");
        match &p.description {
            Some(d) => {
                description = description.concat(d.as_str());
            },
            None => {},
        }
        proof {
            assert(description@ =~= param_row(command.parameters@[i as int]).1.unwrap());
        }
        parameterlist.push_two_colums(name, description);
        proof {
            assert(parameterlist.rows() =~= param_rows_upto(*command, i as int + 1));
        }
        i += 1;
    }
    parameterlist.into_string()
}

/// Builds the descriptive body of a command's help, without the parameter
/// and subcommand blocks.
fn build_body_text(command: &Command, include_description: bool) -> (r: String)
    ensures
        r@ == body_text(*command, include_description),
{
    match (&command.description, &command.help_text) {
        (Some(d), Some(h)) => {
            if include_description {
                let mut t = d.clone();
                t.append("\n\n");
                t.append(h.as_str());
                t
            } else {
                h.clone()
            }
        },
        (Some(d), None) => d.clone(),
        (None, Some(h)) => h.clone(),
        (None, None) => String::from_str("No help available"),
    }
}

/// Builds the subcommand block's aligned table.
fn build_subcommand_table(command: &Command, subprefix: &str) -> (r: String)
    ensures
        r@ == two_column_string(subcommand_rows(*command, subprefix@)),
{
    let mut commandlist = TwoColumnList::new();
    crate::help_render::preformat_subcommands(&mut commandlist, command, subprefix);
    proof {
        assert(commandlist.rows() =~= subcommand_rows(*command, subprefix@));
    }
    commandlist.into_string()
}

/// Renders the full help of one resolved command.
pub fn render_single_command(
    command: &Command,
    prefix: Option<&str>,
    config: &HelpConfiguration<'_>,
) -> (r: String)
    requires
        has_surface(*command),
    ensures
        r@ == single_command_text(*command, opt_ref_view(prefix), config.include_description),
{
    let ghost prefixv = opt_ref_view(prefix);
    let inv = build_invocations(command, prefix);
    let subprefix = build_subprefix(command, prefix);
    let mut text = build_body_text(command, config.include_description);
    if command.parameters.len() > 0 {
        text.append("\n\n```\nParameters:\n");
        let block = build_param_table(command);
        text.append(block.as_str());
        text.append("```");
    }
    if command.subcommands.len() > 0 {
        text.append("\n\n```\nSubcommands:\n");
        let block = build_subcommand_table(command, subprefix.as_str());
        text.append(block.as_str());
        text.append("```");
    }
    let mut reply = String::from_str("**");
    reply.append(inv.as_str());
    reply.append("**\n\n");
    reply.append(text.as_str());
    proof {
        assert(reply@ =~= single_command_text(*command, prefixv, config.include_description));
    }
    reply
}

/// The "no such command" reply for an unresolvable name.
fn no_such_command(command_name: &str) -> (r: String)
    ensures
        r@ == no_such_command_text(command_name@),
{
    String::from_str("No such command `").concat(command_name).concat("`")
}

/// Renders the help reply for a raw command name: the resolved command's full
/// help, or a short "no such command" text — never an error. The invocation
/// prefix is resolved by the caller and handed in; subcommand paths and
/// context-menu names both resolve. Every command that resolution can reach
/// must expose at least one invocation surface.
pub fn render_command_help(
    commands: &Vec<Command>,
    command_name: &str,
    prefix: Option<&str>,
    config: &HelpConfiguration<'_>,
) -> (r: String)
    requires
        match resolve_spec(commands@, command_name@, true) {
            Some(p) => match command_at_spec(commands@, p) {
                Some(c) => has_surface(c),
                None => true,
            },
            None => true,
        },
    ensures
        r@ == command_help_text(
            commands@,
            command_name@,
            opt_ref_view(prefix),
            config.include_description,
        ),
{
    match resolve(commands, command_name, true) {
        Some(path) => match command_at(commands, &path) {
            Some(c) => render_single_command(c, prefix, config),
            None => no_such_command(command_name),
        },
        None => no_such_command(command_name),
    }
}

} // verus!
