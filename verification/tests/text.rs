use mcping::text::{between, data_uri_payload, parse_server_address, parse_u16};

#[test]
fn extracts_the_motd_and_port_of_a_lan_announcement() {
    let datagram = "[MOTD]A cozy server[/MOTD][AD]25565[/AD]";
    assert_eq!(
        between(datagram, "[MOTD]", "[/MOTD]"),
        Some(String::from("A cozy server"))
    );
    assert_eq!(between(datagram, "[AD]", "[/AD]"), Some(String::from("25565")));
}

#[test]
fn missing_markers_extract_nothing() {
    assert_eq!(between("[MOTD]hi", "[MOTD]", "[/MOTD]"), None);
    assert_eq!(between("hi[/MOTD]", "[MOTD]", "[/MOTD]"), None);
    assert_eq!(between("", "[MOTD]", "[/MOTD]"), None);
}

#[test]
fn the_first_occurrences_win() {
    assert_eq!(between("xayazb", "a", "b"), Some(String::from("yaz")));
    assert_eq!(between("aab", "a", "a"), Some(String::from("")));
}

#[test]
fn the_favicon_payload_follows_the_first_comma() {
    assert_eq!(
        data_uri_payload("data:image/png;base64,AAAA"),
        Some(String::from("AAAA"))
    );
    assert_eq!(
        data_uri_payload("data:,with,inner,commas"),
        Some(String::from("with,inner,commas"))
    );
    assert_eq!(data_uri_payload("no comma here"), None);
}

#[test]
fn ports_parse_like_the_standard_parser() {
    assert_eq!(parse_u16("0"), Some(0));
    assert_eq!(parse_u16("25565"), Some(25565));
    assert_eq!(parse_u16("65535"), Some(65535));
    assert_eq!(parse_u16("+80"), Some(80));
    assert_eq!(parse_u16("65536"), None);
    assert_eq!(parse_u16(""), None);
    assert_eq!(parse_u16("+"), None);
    assert_eq!(parse_u16("-1"), None);
    assert_eq!(parse_u16("12x"), None);
}

#[test]
fn server_entries_split_at_the_first_colon() {
    assert_eq!(
        parse_server_address("mc.example.net:1234"),
        Some((String::from("mc.example.net"), 1234))
    );
    assert_eq!(
        parse_server_address("mc.example.net"),
        Some((String::from("mc.example.net"), 25565))
    );
    assert_eq!(parse_server_address("host:notaport"), None);
    assert_eq!(parse_server_address("host:"), None);
}
