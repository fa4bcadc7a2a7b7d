use minecraft_monitor::minecraft_related::{
    classify_line, process_output_line, server_output_scanning, valid_username, LineEvent,
};
use minecraft_monitor::shared_data::{MinecraftServerState, ServerSharedData};

#[test]
fn usernames_accept_alphanumerics_and_underscore() {
    assert!(valid_username("Steve"));
    assert!(valid_username("steve_123"));
    assert!(valid_username("X"));
    assert!(valid_username("___"));
    assert!(valid_username("0name0"));
}

#[test]
fn usernames_reject_empty_spaces_and_punctuation() {
    assert!(!valid_username(""));
    assert!(!valid_username("two words"));
    assert!(!valid_username("nick!"));
    assert!(!valid_username("a-b"));
    assert!(!valid_username("dot.name"));
    assert!(!valid_username(" lead"));
    assert!(!valid_username("trail "));
}

#[test]
fn classifies_capacity_announcement() {
    match classify_line("There are 3 of a max of 20 players online") {
        LineEvent::MaxPlayers(v) => assert_eq!(v, 20),
        _ => panic!("expected a capacity event"),
    }
    match classify_line("There are 0 of a max of 100 players online\n") {
        LineEvent::MaxPlayers(v) => assert_eq!(v, 100),
        _ => panic!("expected a capacity event"),
    }
}

#[test]
fn classifies_ready_and_closing() {
    assert!(matches!(
        classify_line("Done (3.142s)! For help, type \"help\"\n"),
        LineEvent::Ready
    ));
    assert!(matches!(
        classify_line("Closing Server\n"),
        LineEvent::Closing
    ));
    assert!(matches!(classify_line("Closing Server"), LineEvent::Closing));
}

#[test]
fn classifies_join_and_leave() {
    match classify_line("Steve joined the game\n") {
        LineEvent::Joined(name) => assert_eq!(name, "Steve"),
        _ => panic!("expected a join event"),
    }
    match classify_line("Alex left the game\n") {
        LineEvent::Left(name) => assert_eq!(name, "Alex"),
        _ => panic!("expected a leave event"),
    }
}

#[test]
fn malformed_lines_are_inert() {
    assert!(matches!(classify_line(""), LineEvent::Inert));
    assert!(matches!(classify_line("\n"), LineEvent::Inert));
    assert!(matches!(classify_line("nospace"), LineEvent::Inert));
    assert!(matches!(
        classify_line("<bad name> joined the game\n"),
        LineEvent::Inert
    ));
    assert!(matches!(
        classify_line("Steve says joined the game\n"),
        LineEvent::Inert
    ));
    assert!(matches!(
        classify_line("Steve joined the game early\n"),
        LineEvent::Inert
    ));
    assert!(matches!(classify_line("There are \n"), LineEvent::Inert));
    assert!(matches!(
        classify_line("There are many things here\n"),
        LineEvent::Inert
    ));
    assert!(matches!(classify_line("Done (\n"), LineEvent::Inert));
    assert!(matches!(
        classify_line("Done (0s)! For help, type \"assist\"\n"),
        LineEvent::Inert
    ));
}

#[test]
fn scanning_updates_capacity_regardless_of_prior_value() {
    let mut data = ServerSharedData::new();
    data.set_max_capacity(7);
    server_output_scanning("There are 3 of a max of 20 players online", &mut data);
    assert_eq!(data.max_player_count, 20);
}

#[test]
fn scanning_join_is_idempotent() {
    let mut data = ServerSharedData::new();
    server_output_scanning("Steve joined the game\n", &mut data);
    assert_eq!(data.current_player_count, 1);
    assert_eq!(data.current_players, vec![String::from("Steve")]);
    server_output_scanning("Steve joined the game\n", &mut data);
    assert_eq!(data.current_player_count, 1);
    assert_eq!(data.current_players, vec![String::from("Steve")]);
}

#[test]
fn scanning_tracks_lifecycle() {
    let mut data = ServerSharedData::new();
    server_output_scanning("Done (3.1s)! For help, type \"help\"\n", &mut data);
    assert_eq!(data.mcserver_state, MinecraftServerState::Running);
    server_output_scanning("Closing Server\n", &mut data);
    assert_eq!(data.mcserver_state, MinecraftServerState::Off);
}

#[test]
fn processing_strips_prefix_and_appends_console() {
    let mut data = ServerSharedData::new();
    // 17 characters of timestamp/log-level prefix, then the content.
    let line = String::from("[12:34:56 INFO]: Steve joined the game\n");
    process_output_line(line.clone(), &mut data);
    assert_eq!(data.server_output.len(), 1);
    assert_eq!(data.server_output[0], (0, line));
    assert_eq!(data.current_players, vec![String::from("Steve")]);
}

#[test]
fn processing_short_or_empty_lines_is_safe() {
    let mut data = ServerSharedData::new();
    process_output_line(String::new(), &mut data);
    assert_eq!(data.server_output.len(), 0);
    process_output_line(String::from("short\n"), &mut data);
    assert_eq!(data.server_output.len(), 1);
    assert_eq!(data.current_player_count, 0);
}
