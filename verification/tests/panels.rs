use notedeck_channels::channels::{Channel, ChannelList};
use notedeck_channels::route::{Route, Router};
use notedeck_channels::timeline::TimelineKind;
use notedeck_channels::ui::channel_sidebar::{
    can_delete, channel_item, sidebar_response, unread_badge, ChannelItemInput,
    ChannelItemResponse, ChannelSidebarAction,
};
use notedeck_channels::ui::channel_switcher::{
    matches_lowered, ChannelSwitcher, ChannelSwitcherAction, RowHighlight, SwitcherKeys,
};
use notedeck_channels::ui::chat_view::{
    format_timestamp, group_starts, keep_first, same_group, MessageHead,
    TimeLabels, GROUP_WINDOW_SECS,
};
use notedeck_channels::ui::side_panel::{
    clicked_button, perform_action, same_route, Navigation, SidePanelAction, SidePanelButton,
    SidePanelClicks,
};

fn named(names: &[&str]) -> ChannelList {
    let mut list = ChannelList::new();
    for (i, name) in names.iter().enumerate() {
        list.add_channel(Channel::with_id([i as u8; 16], name.to_string(), Vec::new()));
    }
    list
}

fn no_keys() -> SwitcherKeys {
    SwitcherKeys {
        overlay_clicked: false,
        escape_pressed: false,
        arrow_down_pressed: false,
        arrow_up_pressed: false,
        enter_pressed: false,
    }
}

fn no_clicks() -> SidePanelClicks {
    SidePanelClicks {
        user_account: false,
        add_account: false,
        relays: false,
        compose_note: false,
        search: false,
        add_column: false,
    }
}

fn labels() -> TimeLabels {
    TimeLabels {
        unknown_time: "Unknown time".to_string(),
        just_now: "Just now".to_string(),
        ago: "ago".to_string(),
        yesterday: "Yesterday".to_string(),
        days: "days".to_string(),
    }
}

#[test]
fn the_switcher_shows_the_channels_whose_name_holds_the_query() {
    let list = named(&["General", "Bitcoin", "bit by bit", "News", "\u{c9}cole"]);
    let mut switcher = ChannelSwitcher::new();
    switcher.open();
    assert_eq!(switcher.visible_channels(&list), vec![0, 1, 2, 3, 4]);
    assert!(!switcher.nothing_found(0));
    switcher.search_query = "BIT".to_string();
    assert_eq!(switcher.visible_channels(&list), vec![1, 2]);
    switcher.search_query = "e".to_string();
    assert_eq!(switcher.visible_channels(&list), vec![0, 3, 4]);
    switcher.search_query = "\u{e9}C".to_string();
    assert_eq!(switcher.visible_channels(&list), vec![4]);
    switcher.search_query = "t b".to_string();
    assert_eq!(switcher.visible_channels(&list), vec![2]);
    switcher.search_query = "zzz".to_string();
    assert_eq!(switcher.visible_channels(&list), Vec::<usize>::new());
    assert!(switcher.nothing_found(0));
    assert!(!switcher.nothing_found(1));
    assert_eq!(switcher.visible_channels(&ChannelList::new()), Vec::<usize>::new());
}

#[test]
fn a_lowered_name_matches_where_it_holds_the_lowered_query() {
    assert!(matches_lowered("general", ""));
    assert!(matches_lowered("", ""));
    assert!(!matches_lowered("", "a"));
    assert!(matches_lowered("general", "general"));
    assert!(matches_lowered("general", "era"));
    assert!(matches_lowered("general", "l"));
    assert!(!matches_lowered("general", "generals"));
    assert!(!matches_lowered("general", "G"));
    assert!(!matches_lowered("general", "gnr"));
    assert!(matches_lowered("caf\u{e9} noir", "\u{e9} n"));
}

#[test]
fn the_switcher_is_steered_by_the_keyboard() {
    let mut switcher = ChannelSwitcher::new();
    assert!(!switcher.is_open);
    assert!(!ChannelSwitcher::default().is_open);
    let enter = SwitcherKeys { enter_pressed: true, ..no_keys() };
    assert_eq!(switcher.handle_keys(&enter, 3), None);

    switcher.search_query = "old".to_string();
    switcher.selected_index = 2;
    switcher.open();
    assert!(switcher.is_open);
    assert_eq!(switcher.search_query, "");
    assert_eq!(switcher.selected_index, 0);

    let down = SwitcherKeys { arrow_down_pressed: true, ..no_keys() };
    let up = SwitcherKeys { arrow_up_pressed: true, ..no_keys() };
    assert_eq!(switcher.handle_keys(&up, 3), None);
    assert_eq!(switcher.selected_index, 0);
    assert_eq!(switcher.handle_keys(&down, 3), None);
    assert_eq!(switcher.selected_index, 1);
    assert_eq!(switcher.handle_keys(&down, 3), None);
    assert_eq!(switcher.handle_keys(&down, 3), None);
    assert_eq!(switcher.selected_index, 2);
    assert_eq!(switcher.handle_keys(&down, 0), None);
    assert_eq!(switcher.selected_index, 2);
    let both = SwitcherKeys { arrow_down_pressed: true, arrow_up_pressed: true, ..no_keys() };
    assert_eq!(switcher.handle_keys(&both, 3), None);
    assert_eq!(switcher.selected_index, 1);
    assert_eq!(switcher.handle_keys(&both, 9), None);
    assert_eq!(switcher.selected_index, 1);

    let down_enter = SwitcherKeys {
        escape_pressed: true,
        overlay_clicked: true,
        arrow_down_pressed: true,
        enter_pressed: true,
        ..no_keys()
    };
    let action = switcher.handle_keys(&down_enter, 3);
    assert_eq!(action, Some(ChannelSwitcherAction::SelectChannel(2)));
    assert!(switcher.is_open);
    assert_eq!(switcher.finish(action), action);
    assert!(!switcher.is_open);

    switcher.open();
    let escape = SwitcherKeys { escape_pressed: true, ..no_keys() };
    assert_eq!(switcher.handle_keys(&escape, 3), Some(ChannelSwitcherAction::Close));
    let overlay = SwitcherKeys { overlay_clicked: true, ..no_keys() };
    assert_eq!(switcher.handle_keys(&overlay, 3), Some(ChannelSwitcherAction::Close));
    assert_eq!(switcher.finish(None), None);
    assert!(switcher.is_open);
    switcher.close();
    assert!(!switcher.is_open);
}

#[test]
fn the_rows_of_the_switcher_take_clicks_and_the_pointer() {
    let mut switcher = ChannelSwitcher::new();
    switcher.open();
    assert_eq!(switcher.row_highlight(0, 4, 4), RowHighlight::Marked);
    assert_eq!(switcher.row_highlight(1, 4, 4), RowHighlight::Current);
    assert_eq!(switcher.row_highlight(1, 5, 4), RowHighlight::Plain);
    let close = Some(ChannelSwitcherAction::Close);
    assert_eq!(switcher.handle_row(0, 4, false, false, close), close);
    assert_eq!(switcher.selected_index, 0);
    assert_eq!(switcher.handle_row(1, 6, false, true, close), close);
    assert_eq!(switcher.selected_index, 1);
    assert_eq!(
        switcher.handle_row(2, 8, true, false, close),
        Some(ChannelSwitcherAction::SelectChannel(8))
    );
    assert_eq!(switcher.selected_index, 1);
    assert_eq!(
        switcher.handle_row(3, 9, true, true, None),
        Some(ChannelSwitcherAction::SelectChannel(9))
    );
    assert_eq!(switcher.selected_index, 3);
    assert_eq!(switcher.handle_row(4, 9, false, false, None), None);
}

#[test]
fn the_badge_counts_up_to_99() {
    assert_eq!(unread_badge(0), None);
    assert_eq!(unread_badge(1), Some("1".to_string()));
    assert_eq!(unread_badge(42), Some("42".to_string()));
    assert_eq!(unread_badge(99), Some("99".to_string()));
    assert_eq!(unread_badge(100), Some("99+".to_string()));
    assert_eq!(unread_badge(usize::MAX), Some("99+".to_string()));
}

#[test]
fn a_row_of_the_sidebar_answers_the_last_thing_done() {
    let input = |clicked, edit_clicked, delete_clicked| ChannelItemInput {
        clicked,
        edit_clicked,
        delete_clicked,
    };
    assert!(!can_delete(0));
    assert!(!can_delete(1));
    assert!(can_delete(2));
    assert_eq!(channel_item(&input(false, false, false), 3), ChannelItemResponse::Nothing);
    assert_eq!(channel_item(&input(true, false, false), 3), ChannelItemResponse::Select);
    assert_eq!(channel_item(&input(true, true, false), 3), ChannelItemResponse::Edit);
    assert_eq!(channel_item(&input(true, true, true), 3), ChannelItemResponse::Delete);
    assert_eq!(channel_item(&input(false, false, true), 2), ChannelItemResponse::Delete);
    assert_eq!(channel_item(&input(false, false, true), 1), ChannelItemResponse::Nothing);
    assert_eq!(channel_item(&input(true, false, true), 1), ChannelItemResponse::Select);
    assert_eq!(channel_item(&input(true, true, true), 1), ChannelItemResponse::Edit);
}

#[test]
fn the_sidebar_answers_its_last_row_that_asks_or_else_the_button() {
    let (delete, edit, nothing, select) = (
        ChannelItemResponse::Delete,
        ChannelItemResponse::Edit,
        ChannelItemResponse::Nothing,
        ChannelItemResponse::Select,
    );
    assert_eq!(sidebar_response(&Vec::new(), false), None);
    assert_eq!(sidebar_response(&Vec::new(), true), Some(ChannelSidebarAction::AddChannel));
    assert_eq!(sidebar_response(&vec![nothing, nothing], false), None);
    assert_eq!(
        sidebar_response(&vec![nothing, nothing], true),
        Some(ChannelSidebarAction::AddChannel)
    );
    assert_eq!(
        sidebar_response(&vec![nothing, select, nothing], true),
        Some(ChannelSidebarAction::SelectChannel(1))
    );
    assert_eq!(
        sidebar_response(&vec![select, edit, delete, nothing], false),
        Some(ChannelSidebarAction::DeleteChannel(2))
    );
    assert_eq!(
        sidebar_response(&vec![delete, select, edit], false),
        Some(ChannelSidebarAction::EditChannel(2))
    );
    assert_eq!(sidebar_response(&vec![edit], true), Some(ChannelSidebarAction::EditChannel(0)));
}

#[test]
fn the_topmost_clicked_button_of_the_rail_counts() {
    assert_eq!(clicked_button(&no_clicks()), None);
    let all = SidePanelClicks {
        user_account: true,
        add_account: true,
        relays: true,
        compose_note: true,
        search: true,
        add_column: true,
    };
    assert_eq!(
        clicked_button(&all),
        Some((SidePanelButton::UserAccount, SidePanelAction::Account))
    );
    assert_eq!(
        clicked_button(&SidePanelClicks { user_account: false, ..all }),
        Some((SidePanelButton::AddAccount, SidePanelAction::Account))
    );
    assert_eq!(
        clicked_button(&SidePanelClicks { relays: true, search: true, ..no_clicks() }),
        Some((SidePanelButton::Relays, SidePanelAction::Settings))
    );
    assert_eq!(
        clicked_button(&SidePanelClicks { compose_note: true, add_column: true, ..no_clicks() }),
        Some((SidePanelButton::ComposeNote, SidePanelAction::ComposeNote))
    );
    assert_eq!(
        clicked_button(&SidePanelClicks { search: true, add_column: true, ..no_clicks() }),
        Some((SidePanelButton::Search, SidePanelAction::Search))
    );
    assert_eq!(
        clicked_button(&SidePanelClicks { add_column: true, ..no_clicks() }),
        Some((SidePanelButton::AddColumn, SidePanelAction::Columns))
    );
}

#[test]
fn an_action_of_the_rail_goes_to_its_view_or_back() {
    let timeline = Route::Timeline(TimelineKind::Hashtag(vec!["general".to_string()]));
    let home = Router::new(vec![timeline.clone()]);
    assert_eq!(
        perform_action(&home, true, SidePanelAction::Account),
        Navigation::RouteTo(Route::Accounts)
    );
    assert_eq!(
        perform_action(&home, true, SidePanelAction::Settings),
        Navigation::RouteTo(Route::Relays)
    );
    assert_eq!(perform_action(&home, true, SidePanelAction::Columns), Navigation::NewColumnPicker);
    assert_eq!(
        perform_action(&home, true, SidePanelAction::ComposeNote),
        Navigation::RouteTo(Route::ComposeNote)
    );
    assert_eq!(
        perform_action(&home, false, SidePanelAction::ComposeNote),
        Navigation::RouteTo(Route::Accounts)
    );
    assert_eq!(
        perform_action(&home, true, SidePanelAction::Search),
        Navigation::RouteTo(Route::Search)
    );
    assert_eq!(perform_action(&home, true, SidePanelAction::ExpandSidePanel), Navigation::Stay);
    assert_eq!(
        perform_action(&home, true, SidePanelAction::Wallet),
        Navigation::RouteTo(Route::Wallet)
    );

    let deep = Router::new(vec![
        timeline,
        Route::Search,
        Route::Accounts,
        Route::Relays,
        Route::AddColumn,
        Route::Wallet,
        Route::Other,
        Route::ComposeNote,
    ]);
    assert_eq!(perform_action(&deep, true, SidePanelAction::Account), Navigation::GoBack);
    assert_eq!(perform_action(&deep, true, SidePanelAction::Settings), Navigation::GoBack);
    assert_eq!(perform_action(&deep, true, SidePanelAction::Columns), Navigation::GoBack);
    assert_eq!(perform_action(&deep, true, SidePanelAction::ComposeNote), Navigation::GoBack);
    assert_eq!(
        perform_action(&deep, false, SidePanelAction::ComposeNote),
        Navigation::RouteTo(Route::Accounts)
    );
    assert_eq!(perform_action(&deep, true, SidePanelAction::Wallet), Navigation::GoBack);
    assert_eq!(
        perform_action(&deep, true, SidePanelAction::Search),
        Navigation::RouteTo(Route::Search)
    );
    let searching = Router::new(vec![Route::Other, Route::Search]);
    assert_eq!(perform_action(&searching, true, SidePanelAction::Search), Navigation::GoBack);
    let empty = Router::new(Vec::new());
    assert_eq!(
        perform_action(&empty, true, SidePanelAction::Search),
        Navigation::RouteTo(Route::Search)
    );
    assert_eq!(
        perform_action(&empty, true, SidePanelAction::Account),
        Navigation::RouteTo(Route::Accounts)
    );
}

#[test]
fn views_are_the_same_where_they_are_equal() {
    let a = Route::Timeline(TimelineKind::Hashtag(vec!["a".to_string()]));
    let b = Route::Timeline(TimelineKind::Hashtag(vec!["b".to_string()]));
    let all = [
        a.clone(),
        b,
        Route::Accounts,
        Route::Relays,
        Route::AddColumn,
        Route::ComposeNote,
        Route::Search,
        Route::Wallet,
        Route::Other,
    ];
    for x in &all {
        for y in &all {
            assert_eq!(same_route(x, y), x == y);
        }
    }
    assert!(same_route(&a, &Route::timeline(TimelineKind::hashtag(vec!["a".to_string()]))));
}

#[test]
fn messages_of_one_author_within_five_minutes_are_one_group() {
    assert_eq!(GROUP_WINDOW_SECS, 300);
    let head = |author: u8, created_at: u64| MessageHead { author: [author; 32], created_at };
    assert!(!same_group(&None, &head(1, 0)));
    assert!(same_group(&Some(head(1, 1000)), &head(1, 1000)));
    assert!(same_group(&Some(head(1, 1000)), &head(1, 1299)));
    assert!(!same_group(&Some(head(1, 1000)), &head(1, 1300)));
    assert!(same_group(&Some(head(1, 1000)), &head(1, 701)));
    assert!(!same_group(&Some(head(1, 1000)), &head(1, 700)));
    assert!(!same_group(&Some(head(1, 1000)), &head(2, 1000)));
    assert!(!same_group(&Some(head(1, 0)), &head(1, u64::MAX)));
    assert!(!same_group(&Some(head(1, u64::MAX)), &head(1, 0)));
    let mut almost = head(1, 5);
    almost.author[31] = 0;
    assert!(!same_group(&Some(head(1, 5)), &almost));

    assert_eq!(group_starts(&Vec::new()), Vec::<bool>::new());
    let messages = vec![
        head(1, 100),
        head(1, 150),
        head(2, 160),
        head(2, 459),
        head(2, 759),
        head(1, 760),
        head(1, 500),
        head(1, 0),
    ];
    assert_eq!(
        group_starts(&messages),
        vec![true, false, true, false, true, true, false, true]
    );
}

#[test]
fn of_two_things_asked_for_in_a_frame_the_first_counts() {
    assert_eq!(keep_first(Some(1), Some(2)), Some(1));
    assert_eq!(keep_first(None, Some(2)), Some(2));
    assert_eq!(keep_first(Some(1), None), Some(1));
    assert_eq!(keep_first::<u8>(None, None), None);
}

#[test]
fn the_age_of_a_message_is_written_in_whole_units() {
    let l = labels();
    let now = 10_000_000u64;
    let at = |age: u64| format_timestamp(now - age, Some(now), &l);
    assert_eq!(format_timestamp(5, None, &l), "Unknown time");
    assert_eq!(at(0), "Just now");
    assert_eq!(at(59), "Just now");
    assert_eq!(format_timestamp(now + 500, Some(now), &l), "Just now");
    assert_eq!(at(60), "1m ago");
    assert_eq!(at(119), "1m ago");
    assert_eq!(at(3599), "59m ago");
    assert_eq!(at(3600), "1h ago");
    assert_eq!(at(86399), "23h ago");
    assert_eq!(at(86400), "Yesterday");
    assert_eq!(at(172799), "Yesterday");
    assert_eq!(at(172800), "2d ago");
    assert_eq!(at(604799), "6d ago");
    assert_eq!(at(604800), "7 days ago");
    assert_eq!(at(8_640_000), "100 days ago");
    assert_eq!(format_timestamp(0, Some(u64::MAX), &l), "213503982334601 days ago");
    let german = TimeLabels {
        unknown_time: "?".to_string(),
        just_now: "Jetzt".to_string(),
        ago: "her".to_string(),
        yesterday: "Gestern".to_string(),
        days: "Tage".to_string(),
    };
    assert_eq!(format_timestamp(now - 7200, Some(now), &german), "2h her");
    assert_eq!(format_timestamp(0, Some(864_000), &german), "10 Tage her");
}
