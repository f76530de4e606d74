use helpcore::command::command_at;
use helpcore::command::resolve;
use helpcore::command::split_tokens;
use helpcore::command::Command;
use helpcore::command::ContextMenuCommandAction;
use helpcore::command::Parameter;
use helpcore::help_render::format_context_menu_name;
use helpcore::help_render::generate_all_commands;
use helpcore::help_render::get_prefix_from_options;
use helpcore::help_render::HelpConfiguration;
use helpcore::help_render::PrefixSetting;
use helpcore::single_help::render_command_help;
use helpcore::two_column::TwoColumnList;

fn cmd(name: &str) -> Command {
    Command {
        name: name.to_string(),
        category: None,
        description: None,
        help_text: None,
        has_slash_action: false,
        has_prefix_action: false,
        context_menu_action: None,
        context_menu_name: None,
        hide_in_help: false,
        parameters: Vec::new(),
        subcommands: Vec::new(),
    }
}

#[test]
fn two_column_alignment_breaks_at_longest_plus_three() {
    let mut list = TwoColumnList::new();
    list.push_two_colums("ping".to_string(), "desc".to_string());
    list.push_two_colums("pong".to_string(), "longer desc".to_string());
    let out = list.into_string();
    assert_eq!(out, "ping   desc\npong   longer desc\n");
    for line in out.lines() {
        let label_len = 4;
        assert_eq!(&line[label_len..7], "   ");
        assert!(!line[7..8].starts_with(' '));
    }
}

#[test]
fn headings_are_unpadded_and_separated() {
    let mut list = TwoColumnList::new();
    list.push_heading("A");
    list.push_two_colums("x".to_string(), "y".to_string());
    list.push_heading("B");
    let out = list.into_string();
    assert_eq!(out, "A:\nx   y\n\nB:\n");
}

#[test]
fn tokens_split_on_whitespace() {
    assert_eq!(split_tokens("a  b\tc"), vec!["a".to_string(), "b".to_string(), "c".to_string()]);
    assert_eq!(split_tokens("   "), Vec::<String>::new());
}

#[test]
fn resolution_is_case_insensitive() {
    let mut help = cmd("help");
    help.has_prefix_action = true;
    let commands = vec![help];
    let path = resolve(&commands, "HELP", true).unwrap();
    assert_eq!(path, vec![0]);
    assert_eq!(command_at(&commands, &path).unwrap().name, "help");
}

#[test]
fn unresolved_name_is_not_found_without_panicking() {
    let mut help = cmd("help");
    help.has_prefix_action = true;
    let commands = vec![help];
    assert!(resolve(&commands, "nope", true).is_none());
    assert!(resolve(&commands, "", true).is_none());
    let empty: Vec<Command> = Vec::new();
    assert!(resolve(&empty, "anything", true).is_none());
}

#[test]
fn subcommand_paths_resolve_to_the_deepest_match() {
    let mut ban = cmd("ban");
    ban.has_prefix_action = true;
    let mut admin = cmd("admin");
    admin.has_prefix_action = true;
    admin.subcommands = vec![ban];
    let mut ping = cmd("ping");
    ping.has_slash_action = true;
    let commands = vec![ping, admin];

    let path = resolve(&commands, "admin ban", true).unwrap();
    assert_eq!(path, vec![1, 0]);
    assert_eq!(command_at(&commands, &path).unwrap().name, "ban");

    // Deepest match wins even when a trailing token matches nothing.
    let path = resolve(&commands, "admin unknown", true).unwrap();
    assert_eq!(path, vec![1]);

    // Subcommands disallowed: only the top level matches.
    let path = resolve(&commands, "admin ban", false).unwrap();
    assert_eq!(path, vec![1]);
}

#[test]
fn context_menu_name_takes_priority_and_is_never_subdivided() {
    let mut quote = cmd("quote");
    quote.has_slash_action = true;
    let mut other = cmd("other");
    other.context_menu_name = Some("Quote".to_string());
    other.context_menu_action = Some(ContextMenuCommandAction::Message);
    let commands = vec![quote, other];
    let path = resolve(&commands, "quote", true).unwrap();
    assert_eq!(path, vec![1]);
}

#[test]
fn inert_context_menu_commands_are_not_resolved() {
    let mut other = cmd("other");
    other.has_prefix_action = true;
    other.context_menu_name = Some("Quote".to_string());
    other.context_menu_action = None;
    let commands = vec![other];
    assert!(resolve(&commands, "quote", true).is_none());
    assert!(resolve(&commands, "other", true).is_some());
}

#[test]
fn context_menu_names_format_with_their_target_kind() {
    let mut c = cmd("quote");
    c.context_menu_action = Some(ContextMenuCommandAction::Message);
    assert_eq!(format_context_menu_name(&c), Some("quote (on message)".to_string()));
    c.context_menu_name = Some("Quote Me".to_string());
    c.context_menu_action = Some(ContextMenuCommandAction::User);
    assert_eq!(format_context_menu_name(&c), Some("Quote Me (on user)".to_string()));
    c.context_menu_action = None;
    assert_eq!(format_context_menu_name(&c), None);
}

#[test]
fn all_commands_listing_groups_by_category_in_registration_order() {
    let mut ping = cmd("ping");
    ping.has_slash_action = true;
    ping.has_prefix_action = true;
    ping.category = Some("General".to_string());
    ping.description = Some("d1".to_string());
    let mut ban = cmd("ban");
    ban.has_prefix_action = true;
    let mut admin = cmd("admin");
    admin.has_prefix_action = true;
    admin.category = Some("Moderation".to_string());
    admin.description = Some("d2".to_string());
    admin.subcommands = vec![ban];
    let commands = vec![ping, admin];

    let config = HelpConfiguration { extra_text_at_bottom: "footer", ..Default::default() };
    let menu = generate_all_commands(&commands, &config, Some("?"));
    assert_eq!(menu, "General:\n  /ping    d1\n\nModeration:\n  ?admin   d2\n\nfooter");
}

#[test]
fn hidden_and_context_only_commands_are_filtered_from_listings() {
    let mut shown = cmd("shown");
    shown.has_slash_action = true;
    let mut hidden = cmd("hidden");
    hidden.has_slash_action = true;
    hidden.hide_in_help = true;
    let mut menu_only = cmd("menu_only");
    menu_only.context_menu_action = Some(ContextMenuCommandAction::User);
    let commands = vec![shown, hidden, menu_only];

    let config = HelpConfiguration::default();
    let menu = generate_all_commands(&commands, &config, None);
    assert_eq!(menu, "Commands:\n  /shown   \n\n");

    let config = HelpConfiguration { show_context_menu_commands: true, ..Default::default() };
    let menu = generate_all_commands(&commands, &config, None);
    assert_eq!(
        menu,
        "Commands:\n  /shown   \n\nContext menu commands:\n  menu_only (on user)\n\n"
    );
}

#[test]
fn single_command_help_renders_invocations_and_body() {
    let mut ping = cmd("ping");
    ping.has_slash_action = true;
    ping.description = Some("d1".to_string());
    let commands = vec![ping];
    let config = HelpConfiguration::default();
    let out = render_command_help(&commands, "ping", None, &config);
    assert_eq!(out, "**`/ping`**\n\nd1");
}

#[test]
fn single_command_help_uses_placeholder_for_unknown_prefix() {
    let mut ban = cmd("ban");
    ban.has_prefix_action = true;
    let commands = vec![ban];
    let config = HelpConfiguration::default();
    let out = render_command_help(&commands, "ban", None, &config);
    assert_eq!(out, "**`<prefix>ban`**\n\nNo help available");
    let out = render_command_help(&commands, "ban", Some("?"), &config);
    assert_eq!(out, "**`?ban`**\n\nNo help available");
}

#[test]
fn single_command_help_lists_parameters() {
    let mut ping = cmd("ping");
    ping.has_slash_action = true;
    ping.description = Some("d1".to_string());
    ping.help_text = Some("long help".to_string());
    ping.parameters = vec![
        Parameter {
            name: "x".to_string(),
            description: Some("the x".to_string()),
            required: true,
        },
        Parameter { name: "yy".to_string(), description: None, required: false },
    ];
    let commands = vec![ping];
    let config = HelpConfiguration::default();
    let out = render_command_help(&commands, "ping", None, &config);
    assert_eq!(
        out,
        "**`/ping`**\n\nd1\n\nlong help\n\n```\nParameters:\nx    (required) the x\nyy   (optional) \n```"
    );
    let config = HelpConfiguration { include_description: false, ..Default::default() };
    let out = render_command_help(&commands, "ping", None, &config);
    assert!(out.starts_with("**`/ping`**\n\nlong help"));
}

#[test]
fn single_command_help_lists_subcommands() {
    let mut ban = cmd("ban");
    ban.has_prefix_action = true;
    ban.description = Some("bans".to_string());
    let mut admin = cmd("admin");
    admin.has_prefix_action = true;
    admin.subcommands = vec![ban];
    let commands = vec![admin];
    let config = HelpConfiguration::default();
    let out = render_command_help(&commands, "admin", Some("?"), &config);
    assert_eq!(
        out,
        "**`?admin`**\n\nNo help available\n\n```\nSubcommands:\n  ?admin ban   bans\n```"
    );
}

#[test]
fn unresolved_help_request_replies_no_such_command() {
    let commands: Vec<Command> = Vec::new();
    let config = HelpConfiguration::default();
    let out = render_command_help(&commands, "nope", None, &config);
    assert_eq!(out, "No such command `nope`");
}

#[test]
fn prefix_choice_prefers_fixed_and_falls_back() {
    assert_eq!(
        get_prefix_from_options(&PrefixSetting::Fixed("?".to_string()), Some("!".to_string())),
        Some("?".to_string())
    );
    assert_eq!(
        get_prefix_from_options(&PrefixSetting::Dynamic, Some("!".to_string())),
        Some("!".to_string())
    );
    assert_eq!(get_prefix_from_options(&PrefixSetting::Dynamic, None), None);
    assert_eq!(get_prefix_from_options(&PrefixSetting::Unset, Some("!".to_string())), None);
}

#[test]
fn default_configuration_values() {
    let config = HelpConfiguration::default();
    assert_eq!(config.extra_text_at_bottom, "");
    assert!(config.ephemeral);
    assert!(!config.show_context_menu_commands);
    assert!(!config.show_subcommands);
    assert!(config.include_description);
}
