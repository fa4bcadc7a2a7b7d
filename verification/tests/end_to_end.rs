use minecraft_monitor::minecraft_related::server_output_scanning;
use minecraft_monitor::server_interactions::{forwarder_poll, send_command, CommandQueue};
use minecraft_monitor::shared_data::{MinecraftServerState, ServerSharedData};
use minecraft_monitor::web_server::{route_request, RouteAction};

#[test]
fn send_route_reaches_the_child_as_a_command_line() {
    // A request for /api/send?say_hello is routed to the command path, the
    // command is queued with its underscore turned into a space, and the
    // next forwarder poll hands out the newline-terminated line to write.
    let mut queue = CommandQueue::new();
    match route_request("/api/send?say_hello", MinecraftServerState::Running) {
        RouteAction::SendCommand(query) => {
            let response = send_command(&query, &mut queue);
            assert!(response.starts_with("HTTP/1.1 201"));
        }
        _ => panic!("expected the send route"),
    }
    assert_eq!(forwarder_poll(&mut queue), Some(String::from("say hello\n")));
    assert_eq!(forwarder_poll(&mut queue), None);
}

#[test]
fn join_line_reaches_the_roster_once() {
    let mut data = ServerSharedData::new();
    server_output_scanning("Steve joined the game\n", &mut data);
    assert!(data.current_players.contains(&String::from("Steve")));
    assert_eq!(data.current_player_count, 1);
    server_output_scanning("Steve joined the game\n", &mut data);
    assert_eq!(data.current_players, vec![String::from("Steve")]);
    assert_eq!(data.current_player_count, 1);
    server_output_scanning("Steve left the game\n", &mut data);
    assert!(data.current_players.is_empty());
    assert_eq!(data.current_player_count, 0);
}
