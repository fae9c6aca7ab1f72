use palcommand::rcon::{
    auth_refused_message, auth_reply, auth_unconfirmed_message, ban_command, broadcast_command,
    decode_packet, encode_packet, escape_broadcast, kick_command, packet_size, parse_players,
    player_from_fields,
    shutdown_command, AuthReply, AUTH_READS, TYPE_AUTH, TYPE_EXEC,
};

#[test]
fn packets_are_framed_little_endian() {
    let p = encode_packet(1, TYPE_AUTH, "pw");
    assert_eq!(p, vec![12, 0, 0, 0, 1, 0, 0, 0, 3, 0, 0, 0, b'p', b'w', 0, 0]);
    let q = encode_packet(-1, TYPE_EXEC, "");
    assert_eq!(q, vec![10, 0, 0, 0, 255, 255, 255, 255, 2, 0, 0, 0, 0, 0]);
}

#[test]
fn a_framed_packet_decodes_back() {
    let p = encode_packet(7, TYPE_EXEC, "ShowPlayers é");
    let size = packet_size(&p[0..4]).unwrap();
    assert_eq!(size, p.len() - 4);
    let (id, t, body) = decode_packet(&p[4..]).unwrap();
    assert_eq!((id, t, body.as_str()), (7, 2, "ShowPlayers é"));
}

#[test]
fn bogus_sizes_and_short_packets_are_refused() {
    assert_eq!(packet_size(&[9, 0, 0, 0]).unwrap_err(), "RCON: bogus packet size 9");
    assert_eq!(packet_size(&[1, 32, 0, 0]).unwrap_err(), "RCON: bogus packet size 8193");
    assert_eq!(packet_size(&[0, 32, 0, 0]).unwrap(), 8192);
    assert_eq!(packet_size(&[255, 255, 255, 255]).unwrap_err(), "RCON: bogus packet size -1");
    assert_eq!(decode_packet(&[1, 2, 3]).unwrap_err(), "RCON: packet too small");
}

#[test]
fn body_stops_at_the_first_nul_and_decodes_leniently() {
    let rest = [5, 0, 0, 0, 0, 0, 0, 0, b'o', b'k', 0, b'x', 0];
    assert_eq!(decode_packet(&rest).unwrap(), (5, 0, "ok".to_string()));
    let bad = [1, 0, 0, 0, 2, 0, 0, 0, 0xff, b'a', 0, 0];
    assert_eq!(decode_packet(&bad).unwrap().2, "\u{FFFD}a");
    let no_nul = [1, 0, 0, 0, 2, 0, 0, 0, b'a', b'b'];
    assert_eq!(decode_packet(&no_nul).unwrap().2, "ab");
}

#[test]
fn auth_replies() {
    assert_eq!(auth_reply(-1), AuthReply::Refused);
    assert_eq!(auth_reply(1), AuthReply::Accepted);
    assert_eq!(auth_reply(0), AuthReply::Other);
    assert_eq!(AUTH_READS, 2);
    assert_eq!(
        auth_refused_message(),
        "RCON auth failed — wrong password (uses PalWorldSettings.ini AdminPassword)"
    );
    assert_eq!(auth_unconfirmed_message(), "RCON auth: server didn't confirm auth");
}

#[test]
fn broadcasts_replace_spaces() {
    assert_eq!(escape_broadcast("Server restarting in 10 s"), "Server_restarting_in_10_s");
    assert_eq!(escape_broadcast(""), "");
    assert_eq!(broadcast_command("hi all"), "Broadcast hi_all");
    assert_eq!(shutdown_command(10, "PAL COMMAND backup"), "Shutdown 10 PAL_COMMAND_backup");
    assert_eq!(kick_command("7656"), "KickPlayer 7656");
    assert_eq!(ban_command("7656"), "BanPlayer 7656");
}

#[test]
fn show_players_is_parsed() {
    let raw = "name,playeruid,steamid\nAlice,123,7656001\n  Bob , 456 , 7656002 \nbroken line\nCarol,789,steam,extra\n\n";
    let ps = parse_players(raw);
    assert_eq!(ps.len(), 3);
    assert_eq!((ps[0].name.as_str(), ps[0].player_uid.as_str(), ps[0].steam_id.as_str()), ("Alice", "123", "7656001"));
    assert_eq!((ps[1].name.as_str(), ps[1].player_uid.as_str(), ps[1].steam_id.as_str()), ("Bob", "456", "7656002"));
    assert_eq!(ps[2].steam_id, "steam,extra");
}

#[test]
fn header_line_is_skipped_in_any_case() {
    let ps = parse_players("NAME,PLAYERUID,STEAMID\r\nA,1,2\r\n");
    assert_eq!(ps.len(), 1);
    assert_eq!(ps[0].name, "A");
}

#[test]
fn the_header_is_recognised_from_the_lowered_line() {
    assert!(player_from_fields("NAME,PLAYERUID,STEAMID", "name,playeruid,steamid").is_none());
    assert!(player_from_fields("Name,1,2", "Name,1,2").is_some());
    let p = player_from_fields("A ,1, 2", "a ,1, 2").unwrap();
    assert_eq!((p.name.as_str(), p.player_uid.as_str(), p.steam_id.as_str()), ("A", "1", "2"));
    assert!(player_from_fields("", "").is_none());
    assert!(player_from_fields("A,1", "a,1").is_none());
}
