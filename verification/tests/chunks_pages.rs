use helpcore::chunks::create_page_getter_newline;
use helpcore::chunks::split_string_into_chunks_newline;
use helpcore::pages::build_nav_btns;
use helpcore::pages::navigate;
use helpcore::pages::page_count;
use helpcore::pages::render_page_content;
use helpcore::pages::PageState;
use helpcore::permissions::evaluate;
use helpcore::permissions::get_author_and_bot_permissions;
use helpcore::permissions::ContractViolation;
use helpcore::permissions::InteractionPermissionFields;
use helpcore::permissions::InvocationContext;

#[test]
fn empty_input_yields_one_empty_chunk() {
    let chunks = split_string_into_chunks_newline("", 5);
    assert_eq!(chunks, vec![String::new()]);
}

#[test]
fn newline_aware_split_cuts_before_newlines() {
    let chunks = split_string_into_chunks_newline("AAAA\nBBBB\nCCCC", 6);
    assert_eq!(chunks, vec!["AAAA".to_string(), "BBBB".to_string(), "CCCC".to_string()]);
}

#[test]
fn split_without_newlines_cuts_at_chunk_size() {
    let chunks = split_string_into_chunks_newline("AAAAAA", 3);
    assert_eq!(chunks, vec!["AAA".to_string(), "AAA".to_string()]);
}

#[test]
fn chunks_are_bounded_and_rejoin_the_text() {
    let text = "ab\ncd\nef";
    let chunks = split_string_into_chunks_newline(text, 4);
    assert_eq!(chunks, vec!["ab".to_string(), "cd".to_string(), "ef".to_string()]);
    for c in &chunks {
        assert!(c.chars().count() <= 4);
    }
    assert_eq!(chunks.join("\n"), text);
}

#[test]
fn leading_newline_gives_empty_first_chunk() {
    let chunks = split_string_into_chunks_newline("\nab", 5);
    assert_eq!(chunks, vec![String::new(), "ab".to_string()]);
}

#[test]
fn page_getter_wraps_modulo_chunk_count() {
    let getter = create_page_getter_newline("AAAA\nBBBB\nCCCC", 6);
    assert_eq!(getter.get(0), "AAAA");
    assert_eq!(getter.get(1), "BBBB");
    assert_eq!(getter.get(2), "CCCC");
    assert_eq!(getter.get(3), "AAAA");
    assert_eq!(getter.get(5), "CCCC");
}

#[test]
fn page_count_formula() {
    assert_eq!(page_count(10, 3), 4);
    assert_eq!(page_count(0, 5), 1);
    assert_eq!(page_count(2000, 2000), 2);
}

#[test]
fn navigation_is_idempotent_at_boundaries() {
    let last = navigate(2, 3, ">").unwrap();
    assert_eq!(last, 2);
    assert_eq!(navigate(last, 3, ">"), Some(2));
    let first = navigate(0, 3, "<").unwrap();
    assert_eq!(first, 0);
    assert_eq!(navigate(first, 3, "<"), Some(0));
    assert_eq!(navigate(2, 3, ">>"), Some(2));
    assert_eq!(navigate(0, 3, "<<"), Some(0));
}

#[test]
fn navigation_moves_between_pages() {
    assert_eq!(navigate(1, 3, ">"), Some(2));
    assert_eq!(navigate(1, 3, "<"), Some(0));
    assert_eq!(navigate(1, 3, "<<"), Some(0));
    assert_eq!(navigate(1, 3, ">>"), Some(2));
}

#[test]
fn navigation_ignores_unknown_controls() {
    assert_eq!(navigate(1, 3, "x"), None);
    assert_eq!(navigate(1, 3, ""), None);
    assert_eq!(navigate(1, 3, "<<<"), None);
}

#[test]
fn page_state_starts_at_zero_and_saturates() {
    let mut state = PageState::new(3);
    assert_eq!(state.current, 0);
    assert!(!state.apply("noop"));
    assert_eq!(state.current, 0);
    assert!(state.apply(">"));
    assert!(state.apply(">"));
    assert_eq!(state.current, 2);
    assert!(state.apply(">"));
    assert_eq!(state.current, 2);
    assert!(state.apply("<<"));
    assert_eq!(state.current, 0);
    assert!(state.apply("<"));
    assert_eq!(state.current, 0);
}

#[test]
fn page_content_carries_chunk_and_footer() {
    assert_eq!(render_page_content("AAAA", 0, 3), "```\nAAAA\nPage 1/3\n```");
    assert_eq!(render_page_content("x", 11, 120), "```\nx\nPage 12/120\n```");
}

#[test]
fn nav_buttons_disable_at_edges() {
    let first = build_nav_btns(0, 3);
    let ids: Vec<&str> = first.iter().map(|b| b.id.as_str()).collect();
    assert_eq!(ids, vec!["<<", "<", ">", ">>"]);
    assert!(first[0].disabled && first[1].disabled);
    assert!(!first[2].disabled && !first[3].disabled);

    let last = build_nav_btns(2, 3);
    assert!(!last[0].disabled && !last[1].disabled);
    assert!(last[2].disabled && last[3].disabled);

    let middle = build_nav_btns(1, 3);
    assert!(middle.iter().all(|b| !b.disabled));
}

#[test]
fn evaluate_non_guild_yields_no_permission_sets() {
    let info = evaluate(&InvocationContext::NonGuild).unwrap();
    assert_eq!(info.author_permissions, None);
    assert_eq!(info.bot_permissions, None);
}

#[test]
fn evaluate_guild_yields_both_permission_sets() {
    let ctx = InvocationContext::GuildInteraction(InteractionPermissionFields {
        member_permissions: Some(0b1010),
        app_permissions: Some(0b0110),
    });
    let info = evaluate(&ctx).unwrap();
    assert_eq!(info.author_permissions, Some(0b1010));
    assert_eq!(info.bot_permissions, Some(0b0110));
}

#[test]
fn missing_author_permissions_is_a_contract_violation() {
    let fields = InteractionPermissionFields { member_permissions: None, app_permissions: Some(1) };
    assert_eq!(
        get_author_and_bot_permissions(&fields).unwrap_err(),
        ContractViolation::MissingAuthorPermissions
    );
}

#[test]
fn missing_bot_permissions_is_a_contract_violation() {
    let fields = InteractionPermissionFields { member_permissions: Some(1), app_permissions: None };
    assert_eq!(
        get_author_and_bot_permissions(&fields).unwrap_err(),
        ContractViolation::MissingBotPermissions
    );
}

#[test]
fn empty_permission_set_is_distinct_from_absent() {
    let ctx = InvocationContext::GuildInteraction(InteractionPermissionFields {
        member_permissions: Some(0),
        app_permissions: Some(0),
    });
    let info = evaluate(&ctx).unwrap();
    assert_eq!(info.author_permissions, Some(0));
    assert_ne!(info.author_permissions, None);
}
