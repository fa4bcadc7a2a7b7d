use minecraft_monitor::configuration::{
    split_config_line, verify_address, verify_download_web, verify_general_args, verify_jar,
    verify_max_ram, verify_min_ram, verify_port, verify_verbosity, verify_web_log, ConfigLine,
    Verbosity,
};

#[test]
fn ports_parse_within_range() {
    assert_eq!(verify_port(String::from("8000")), Some(8000));
    assert_eq!(verify_port(String::from("0")), Some(0));
    assert_eq!(verify_port(String::from("65535")), Some(65535));
    assert_eq!(verify_port(String::from("65536")), None);
    assert_eq!(verify_port(String::from("")), None);
    assert_eq!(verify_port(String::from("80a")), None);
    assert_eq!(verify_port(String::from("-1")), None);
}

#[test]
fn addresses_parse_as_dotted_quads() {
    assert_eq!(
        verify_address(String::from("127.0.0.1")),
        Some((127, 0, 0, 1))
    );
    assert_eq!(
        verify_address(String::from("255.255.255.255")),
        Some((255, 255, 255, 255))
    );
    assert_eq!(verify_address(String::from("0.0.0.0")), Some((0, 0, 0, 0)));
    assert_eq!(verify_address(String::from("256.0.0.1")), None);
    assert_eq!(verify_address(String::from("01.0.0.1")), None);
    assert_eq!(verify_address(String::from("1.2.3")), None);
    assert_eq!(verify_address(String::from("1.2.3.4.5")), None);
    assert_eq!(verify_address(String::from("a.b.c.d")), None);
    assert_eq!(verify_address(String::from("")), None);
}

#[test]
fn jar_names_need_the_extension() {
    assert_eq!(
        verify_jar(String::from("paper-261.jar")),
        Some(String::from("paper-261.jar"))
    );
    assert_eq!(verify_jar(String::from("server.zip")), None);
    assert_eq!(verify_jar(String::from(".jar")), None);
    assert_eq!(verify_jar(String::from("jar")), None);
    assert_eq!(verify_jar(String::from("")), None);
}

#[test]
fn general_args_off_means_none() {
    assert_eq!(verify_general_args(String::from("off")), None);
    assert_eq!(
        verify_general_args(String::from("-jar custom.jar")),
        Some(String::from("-jar custom.jar"))
    );
}

#[test]
fn ram_amounts_need_number_and_unit() {
    assert_eq!(verify_min_ram(String::from("1G")), Some(String::from("1G")));
    assert_eq!(
        verify_min_ram(String::from("512M")),
        Some(String::from("512M"))
    );
    assert_eq!(
        verify_max_ram(String::from("2048K")),
        Some(String::from("2048K"))
    );
    assert_eq!(verify_min_ram(String::from("G")), None);
    assert_eq!(verify_min_ram(String::from("2T")), None);
    assert_eq!(verify_min_ram(String::from("2")), None);
    assert_eq!(verify_min_ram(String::from("")), None);
    assert_eq!(verify_max_ram(String::from("x2G")), None);
}

#[test]
fn boolean_settings_take_the_two_words() {
    assert_eq!(verify_web_log(String::from("true")), Some(true));
    assert_eq!(verify_web_log(String::from("false")), Some(false));
    assert_eq!(verify_web_log(String::from("yes")), None);
    assert_eq!(verify_download_web(String::from("true")), Some(true));
    assert_eq!(verify_download_web(String::from("false")), Some(false));
    assert_eq!(verify_download_web(String::from("0")), None);
}

#[test]
fn verbosity_words() {
    assert_eq!(
        verify_verbosity(String::from("none")),
        Some(Verbosity::Silent)
    );
    assert_eq!(
        verify_verbosity(String::from("mine")),
        Some(Verbosity::Mine)
    );
    assert_eq!(verify_verbosity(String::from("web")), Some(Verbosity::Web));
    assert_eq!(
        verify_verbosity(String::from("mineweb")),
        Some(Verbosity::MineWeb)
    );
    assert_eq!(verify_verbosity(String::from("loud")), None);
}

#[test]
fn config_lines_split_on_equals() {
    match split_config_line("webserver_port=\"8000\"") {
        ConfigLine::Entry(k, v) => {
            assert_eq!(k, "webserver_port");
            assert_eq!(v, "8000");
        }
        _ => panic!("expected a setting"),
    }
    match split_config_line("server_location=\"./server\"") {
        ConfigLine::Entry(k, v) => {
            assert_eq!(k, "server_location");
            assert_eq!(v, "./server");
        }
        _ => panic!("expected a setting"),
    }
}

#[test]
fn config_comments_and_blanks_skip() {
    assert!(matches!(split_config_line(""), ConfigLine::Skip));
    assert!(matches!(split_config_line("# a comment"), ConfigLine::Skip));
}

#[test]
fn config_lines_without_equals_are_malformed() {
    assert!(matches!(
        split_config_line("no separator here"),
        ConfigLine::Malformed
    ));
    assert!(matches!(split_config_line("k="), ConfigLine::Malformed));
}
