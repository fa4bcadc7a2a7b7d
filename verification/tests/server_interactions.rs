use std::collections::VecDeque;

use minecraft_monitor::server_interactions::{
    check_generation_end, finish_shutdown, forwarder_poll, get_console, get_players, query_string,
    request_restart, request_shutdown, send_command, stop_wait_done, supervisor_next, CommandQueue,
};
use minecraft_monitor::shared_data::{GeneralState, MinecraftServerState, ServerSharedData};

#[test]
fn server_interactions_sample() {
    assert_eq!(2 + 2, 4, "sample message");
}

#[test]
fn query_string_strips_and_replaces() {
    assert_eq!(query_string("?say_hello"), "say hello");
    assert_eq!(query_string("?stop"), "stop");
    assert_eq!(query_string("?"), "");
    assert_eq!(query_string(""), "");
    assert_eq!(query_string("?a_b_c"), "a b c");
}

#[test]
fn send_command_enqueues_in_order() {
    let mut queue = CommandQueue::new();
    let r1 = send_command("?say_one", &mut queue);
    let r2 = send_command("?say_two", &mut queue);
    assert_eq!(
        r1,
        "HTTP/1.1 201 Created\r\nContent-Type: text/plain\r\nConnection: Close"
    );
    assert_eq!(
        r2,
        "HTTP/1.1 201 Created\r\nContent-Type: text/plain\r\nConnection: Close"
    );
    assert_eq!(forwarder_poll(&mut queue), Some(String::from("say one\n")));
    assert_eq!(forwarder_poll(&mut queue), Some(String::from("say two\n")));
    assert_eq!(forwarder_poll(&mut queue), None);
}

#[test]
fn send_command_on_closed_queue_fails() {
    let mut queue = CommandQueue::new();
    queue.close();
    let r = send_command("?stop", &mut queue);
    assert_eq!(
        r,
        "HTTP/1.1 500 Internal Server Error\r\nContent-Type: text/plain\r\nConnection: Close"
    );
    assert_eq!(forwarder_poll(&mut queue), None);
}

#[test]
fn forwarder_appends_newline() {
    let mut queue = CommandQueue::new();
    send_command("?say_hello", &mut queue);
    let line = forwarder_poll(&mut queue).unwrap();
    assert_eq!(line, "say hello\n");
}

#[test]
fn get_players_renders_roster() {
    let players = vec![String::from("player1"), String::from("player2")];
    let r = get_players(2, 20, &players);
    assert_eq!(
        r,
        "HTTP/1.1 200 OK\r\nContent-Type: text/plain\r\nConnection: Close\r\n\r\n{\"playerCount\": \"2\", \"playerCountMax\": \"20\", \"player\": [player1, player2, ]}"
    );
}

#[test]
fn get_players_empty_roster() {
    let players: Vec<String> = Vec::new();
    let r = get_players(0, 0, &players);
    assert_eq!(
        r,
        "HTTP/1.1 200 OK\r\nContent-Type: text/plain\r\nConnection: Close\r\n\r\n{\"playerCount\": \"0\", \"playerCountMax\": \"0\", \"player\": []}"
    );
}

#[test]
fn get_console_escapes_quotes_and_strips_newlines() {
    let mut chat: VecDeque<(u32, String)> = VecDeque::new();
    chat.push_front((0, String::from("he said \"hi\"\n")));
    let r = get_console(&chat);
    assert_eq!(
        r,
        "HTTP/1.1 200 OK\r\nContent-Type: text/plain\r\nConnection: Close\r\n\r\n{\"chat\": {\n\"0\":\"he said \\\"hi\\\"\",\n}}"
    );
    let body = r.split("\r\n\r\n").nth(1).unwrap();
    assert!(!body.contains("\"hi\"\n\""));
    for (i, c) in body.char_indices() {
        if c == '\n' {
            // The only newlines are the separators the renderer itself emits,
            // never ones carried in from a console line.
            assert!(i == 10 || body[..i].ends_with("\","));
        }
    }
}

#[test]
fn get_console_orders_entries_front_first() {
    let mut chat: VecDeque<(u32, String)> = VecDeque::new();
    chat.push_front((0, String::from("first\n")));
    chat.push_front((1, String::from("second\n")));
    let r = get_console(&chat);
    assert_eq!(
        r,
        "HTTP/1.1 200 OK\r\nContent-Type: text/plain\r\nConnection: Close\r\n\r\n{\"chat\": {\n\"1\":\"second\",\n\"0\":\"first\",\n}}"
    );
}

#[test]
fn shutdown_when_off_enqueues_nothing() {
    let mut data = ServerSharedData::new();
    data.transition_process_state(MinecraftServerState::Off);
    let mut queue = CommandQueue::new();
    let must_wait = request_shutdown(&mut data, &mut queue);
    assert!(!must_wait);
    assert_eq!(data.gen_state, GeneralState::ShutDown);
    assert!(queue.commands.is_empty());
}

#[test]
fn shutdown_when_running_sends_stop() {
    let mut data = ServerSharedData::new();
    data.transition_process_state(MinecraftServerState::Running);
    let mut queue = CommandQueue::new();
    let must_wait = request_shutdown(&mut data, &mut queue);
    assert!(must_wait);
    assert_eq!(data.gen_state, GeneralState::Running);
    assert_eq!(forwarder_poll(&mut queue), Some(String::from("stop\n")));
    data.transition_process_state(MinecraftServerState::Off);
    assert!(stop_wait_done(&data));
    finish_shutdown(&mut data);
    assert_eq!(data.gen_state, GeneralState::ShutDown);
}

#[test]
fn restart_when_off_enqueues_nothing() {
    let mut data = ServerSharedData::new();
    data.transition_process_state(MinecraftServerState::Off);
    let mut queue = CommandQueue::new();
    let must_wait = request_restart(&mut data, &mut queue);
    assert!(!must_wait);
    assert_eq!(data.gen_state, GeneralState::Restart);
    assert!(queue.commands.is_empty());
}

#[test]
fn stop_wait_done_only_when_off() {
    let mut data = ServerSharedData::new();
    assert!(!stop_wait_done(&data));
    data.transition_process_state(MinecraftServerState::Running);
    assert!(!stop_wait_done(&data));
    data.transition_process_state(MinecraftServerState::Off);
    assert!(stop_wait_done(&data));
}

#[test]
fn generation_end_flips_running_supervisor_to_restart() {
    let mut data = ServerSharedData::new();
    assert!(!check_generation_end(&mut data));
    data.transition_process_state(MinecraftServerState::Off);
    assert!(check_generation_end(&mut data));
    assert_eq!(data.gen_state, GeneralState::Restart);
    // A supervisor already told to shut down is left alone.
    data.transition_supervisor_state(GeneralState::ShutDown);
    assert!(check_generation_end(&mut data));
    assert_eq!(data.gen_state, GeneralState::ShutDown);
}

#[test]
fn supervisor_relaunches_on_restart_and_stops_on_shutdown() {
    let mut data = ServerSharedData::new();
    data.transition_process_state(MinecraftServerState::Off);
    data.transition_supervisor_state(GeneralState::Restart);
    assert!(supervisor_next(&mut data));
    assert_eq!(data.gen_state, GeneralState::Running);
    assert_eq!(data.mcserver_state, MinecraftServerState::Starting);
    data.transition_supervisor_state(GeneralState::ShutDown);
    assert!(!supervisor_next(&mut data));
    assert_eq!(data.gen_state, GeneralState::ShutDown);
}
