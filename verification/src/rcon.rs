//! Source RCON for Palworld: packet framing, the authentication handshake's decisions,
//! command text and the `ShowPlayers` reply.
//!
//! Packet format (little-endian):
//!   `[size:i32] [id:i32] [type:i32] [body:cstring] [pad:u8=0]`
//!   size = 4 (id) + 4 (type) + len(body) + 1 (body nul) + 1 (pad)
//!
//! Palworld quirk handled here: the Broadcast/Shutdown message parser splits on spaces
//! server-side, so `escape_broadcast` substitutes underscores.
use vstd::prelude::*;
use vstd::utf8::{decode_utf8, encode_utf8, valid_utf8};
use crate::text::{
    chars_of, decimal, find, find_char, find_from, from_utf8_lossy, lemma_find_from,
    lemma_find_from_is, lines_from, match_at,
    lowercase, push_all, push_decimal, push_signed, push_str, signed_decimal, starts_with,
    starts_with_chars, string_of, sub_vec, to_lowercase, trim, trim_bounds, utf8_lossy,
};

verus! {

broadcast use vstd::string::group_string_axioms;

/// Packet type of the authentication request.
pub const TYPE_AUTH: i32 = 3;

/// Packet type of a command.
pub const TYPE_EXEC: i32 = 2;

/// Where and how to reach RCON.
pub struct RconConfig {
    pub host: String,
    pub port: u16,
    pub password: String,
}

/// One line of `ShowPlayers`.
#[derive(Debug, Clone)]
pub struct RconPlayer {
    pub name: String,
    pub player_uid: String,
    pub steam_id: String,
}

// ---------------------------------------------------------------- framing

/// Little-endian bytes of a 32-bit integer.
pub open spec fn le32(v: i32) -> Seq<u8> {
    let u = v as u32;
    seq![u as u8, (u >> 8u32) as u8, (u >> 16u32) as u8, (u >> 24u32) as u8]
}

/// The 32-bit integer of four little-endian bytes.
pub open spec fn from_le32(b0: u8, b1: u8, b2: u8, b3: u8) -> i32 {
    (b0 as u32 | (b1 as u32) << 8u32 | (b2 as u32) << 16u32 | (b3 as u32) << 24u32) as i32
}

/// The bytes of a packet: size, id, type, the body's UTF-8 bytes and two NULs.
pub open spec fn packet_bytes(id: i32, ptype: i32, body: Seq<char>) -> Seq<u8> {
    le32((10 + encode_utf8(body).len()) as i32) + le32(id) + le32(ptype) + encode_utf8(body) + seq![
        0u8,
        0u8,
    ]
}

fn push_le32(out: &mut Vec<u8>, v: i32)
    ensures
        final(out)@ == old(out)@ + le32(v),
{
    let u = v as u32;
    out.push(u as u8);
    out.push((u >> 8u32) as u8);
    out.push((u >> 16u32) as u8);
    out.push((u >> 24u32) as u8);
}

/// Frames a packet.
pub fn encode_packet(id: i32, ptype: i32, body: &str) -> (r: Vec<u8>)
    requires
        encode_utf8(body@).len() + 10 <= i32::MAX,
    ensures
        r@ == packet_bytes(id, ptype, body@),
{
    let bytes = body.as_bytes();
    let size: i32 = 10 + bytes.len() as i32;
    let mut buf: Vec<u8> = Vec::new();
    push_le32(&mut buf, size);
    push_le32(&mut buf, id);
    push_le32(&mut buf, ptype);
    let mut i: usize = 0;
    let ghost head = buf@;
    while i < bytes.len()
        invariant
            i <= bytes@.len(),
            buf@ == head + bytes@.take(i as int),
        decreases bytes@.len() - i,
    {
        buf.push(bytes[i]);
        assert(bytes@.take(i + 1) == bytes@.take(i as int).push(bytes@[i as int]));
        i += 1;
    }
    assert(bytes@.take(bytes@.len() as int) == bytes@);
    buf.push(0);
    buf.push(0);
    buf
}

/// The packet size an RCON reply must have: 10 to 8192 bytes.
pub open spec fn size_ok(size: i32) -> bool {
    10 <= size <= 8192
}

pub open spec fn err_bogus_size(size: i32) -> Seq<char> {
    "RCON: bogus packet size "@ + signed_decimal(size as int)
}

/// The size field of a reply, checked.
pub fn packet_size(b: &[u8]) -> (r: Result<usize, String>)
    requires
        b@.len() == 4,
    ensures
        size_ok(from_le32(b@[0], b@[1], b@[2], b@[3])) ==> r == Ok::<usize, String>(
            from_le32(b@[0], b@[1], b@[2], b@[3]) as usize,
        ),
        !size_ok(from_le32(b@[0], b@[1], b@[2], b@[3])) ==> (r matches Err(e) && e@
            == err_bogus_size(from_le32(b@[0], b@[1], b@[2], b@[3]))),
{
    let size = (b[0] as u32 | (b[1] as u32) << 8u32 | (b[2] as u32) << 16u32 | (b[3] as u32)
        << 24u32) as i32;
    if !(10 <= size && size <= 8192) {
        let mut m = chars_of("RCON: bogus packet size ");
        push_signed(&mut m, size);
        return Err(string_of(&m));
    }
    Ok(size as usize)
}

/// Index of the first NUL byte in `b` at or after `i`, or `b.len()`.
pub open spec fn nul_from(b: Seq<u8>, i: int) -> int
    decreases b.len() - i,
{
    if i < 0 || i >= b.len() {
        b.len() as int
    } else if b[i] == 0 {
        i
    } else {
        nul_from(b, i + 1)
    }
}

/// A reply's id, type and body: the body is the text up to the first NUL after the
/// eight header bytes, decoded leniently.
pub open spec fn decode_spec(rest: Seq<u8>) -> (i32, i32, Seq<char>) {
    (
        from_le32(rest[0], rest[1], rest[2], rest[3]),
        from_le32(rest[4], rest[5], rest[6], rest[7]),
        lossy_text(rest.subrange(8, nul_from(rest, 8))),
    )
}

/// Text decoded leniently: valid UTF-8 as it decodes, anything else as
/// `String::from_utf8_lossy` reads it.
pub open spec fn lossy_text(b: Seq<u8>) -> Seq<char> {
    if valid_utf8(b) {
        decode_utf8(b)
    } else {
        utf8_lossy(b)
    }
}

pub proof fn lemma_nul_from(b: Seq<u8>, i: int)
    requires
        0 <= i <= b.len(),
    ensures
        i <= nul_from(b, i) <= b.len(),
        forall|k: int| i <= k < nul_from(b, i) ==> b[k] != 0,
        nul_from(b, i) < b.len() ==> b[nul_from(b, i)] == 0,
    decreases b.len() - i,
{
    if i < b.len() && b[i] != 0 {
        lemma_nul_from(b, i + 1);
    }
}

pub open spec fn err_packet_too_small() -> Seq<char> {
    "RCON: packet too small"@
}

/// Reads the id, type and body of a reply whose size field has been read.
pub fn decode_packet(rest: &[u8]) -> (r: Result<(i32, i32, String), String>)
    ensures
        rest@.len() < 10 ==> (r matches Err(e) && e@ == err_packet_too_small()),
        rest@.len() >= 10 ==> (r matches Ok((id, t, body)) && (id, t, body@) == decode_spec(rest@)),
{
    if rest.len() < 10 {
        return Err(String::from_str("RCON: packet too small"));
    }
    let id = (rest[0] as u32 | (rest[1] as u32) << 8u32 | (rest[2] as u32) << 16u32 | (
    rest[3] as u32) << 24u32) as i32;
    let ptype = (rest[4] as u32 | (rest[5] as u32) << 8u32 | (rest[6] as u32) << 16u32 | (
    rest[7] as u32) << 24u32) as i32;
    let mut end: usize = 8;
    while end < rest.len() && rest[end] != 0
        invariant
            8 <= end <= rest@.len(),
            nul_from(rest@, 8) == nul_from(rest@, end as int),
        decreases rest@.len() - end,
    {
        end += 1;
    }
    let mut body_bytes: Vec<u8> = Vec::new();
    let mut i: usize = 8;
    while i < end
        invariant
            8 <= i <= end <= rest@.len(),
            body_bytes@ == rest@.subrange(8, i as int),
        decreases end - i,
    {
        body_bytes.push(rest[i]);
        assert(rest@.subrange(8, i + 1) == rest@.subrange(8, i as int).push(rest@[i as int]));
        i += 1;
    }
    let body = from_utf8_lossy(body_bytes.as_slice());
    Ok((id, ptype, body))
}

/// Four little-endian bytes read back as the integer they were written from.
pub proof fn lemma_le32_roundtrip(v: i32)
    ensures
        from_le32(le32(v)[0], le32(v)[1], le32(v)[2], le32(v)[3]) == v,
{
    let u = v as u32;
    assert((((u as u8) as u32) | (((u >> 8u32) as u8) as u32) << 8u32 | (((u >> 16u32) as u8) as u32) << 16u32
        | (((u >> 24u32) as u8) as u32) << 24u32) == u) by (bit_vector);
    assert(((v as u32) as i32) == v) by (bit_vector);
}

/// Framing round trip: a packet framed by `encode_packet` passes the size check, and
/// decoding what follows its size field gives back its id, type and body, for any body
/// whose UTF-8 bytes hold no NUL and fit a reply.
pub proof fn lemma_packet_roundtrip(id: i32, ptype: i32, body: Seq<char>)
    requires
        encode_utf8(body).len() <= 8182,
        !encode_utf8(body).contains(0u8),
    ensures
        ({
            let p = packet_bytes(id, ptype, body);
            let rest = p.skip(4);
            &&& size_ok(from_le32(p[0], p[1], p[2], p[3]))
            &&& from_le32(p[0], p[1], p[2], p[3]) == rest.len()
            &&& decode_spec(rest) == (id, ptype, body)
        }),
{
    let bytes = encode_utf8(body);
    let size = (10 + bytes.len()) as i32;
    assert(size == 10 + bytes.len());
    let p = packet_bytes(id, ptype, body);
    let rest = p.skip(4);
    assert(rest.len() == 10 + bytes.len());
    lemma_le32_roundtrip(size);
    lemma_le32_roundtrip(id);
    lemma_le32_roundtrip(ptype);
    assert(p[0] == le32(size)[0] && p[1] == le32(size)[1] && p[2] == le32(size)[2] && p[3]
        == le32(size)[3]);
    assert(rest[0] == le32(id)[0] && rest[1] == le32(id)[1] && rest[2] == le32(id)[2] && rest[3]
        == le32(id)[3]);
    assert(rest[4] == le32(ptype)[0] && rest[5] == le32(ptype)[1] && rest[6] == le32(ptype)[2]
        && rest[7] == le32(ptype)[3]);
    assert forall|k: int| 8 <= k < 8 + bytes.len() implies rest[k] != 0 by {
        assert(rest[k] == bytes[k - 8]);
        if rest[k] == 0 {
            assert(bytes.contains(0u8));
        }
    }
    assert(rest[8 + bytes.len() as int] == 0);
    lemma_nul_from(rest, 8);
    assert(nul_from(rest, 8) == 8 + bytes.len());
    assert(rest.subrange(8, 8 + bytes.len() as int) == bytes);
    vstd::utf8::encode_utf8_valid_utf8(body);
    vstd::utf8::encode_utf8_decode_utf8(body);
}

// ---------------------------------------------------------------- authentication

/// What one reply during authentication means.
#[derive(Debug, PartialEq, Eq, Structural)]
pub enum AuthReply {
    /// Wrong password (id -1).
    Refused,
    /// Authenticated (the id of the request, 1).
    Accepted,
    /// Something else, such as the empty value some servers send first.
    Other,
}

/// Classifies the id of a reply to the authentication request (sent with id 1).
pub fn auth_reply(id: i32) -> (r: AuthReply)
    ensures
        id == -1 ==> r == AuthReply::Refused,
        id == 1 ==> r == AuthReply::Accepted,
        id != -1 && id != 1 ==> r == AuthReply::Other,
{
    if id == -1 {
        AuthReply::Refused
    } else if id == 1 {
        AuthReply::Accepted
    } else {
        AuthReply::Other
    }
}

/// Replies read while waiting for the authentication verdict.
pub const AUTH_READS: usize = 2;

/// The error for a refused password.
pub fn auth_refused_message() -> (r: &'static str)
    ensures
        r@ == "RCON auth failed — wrong password (uses PalWorldSettings.ini AdminPassword)"@,
{
    "RCON auth failed — wrong password (uses PalWorldSettings.ini AdminPassword)"
}

/// The error when no verdict came within the replies read.
pub fn auth_unconfirmed_message() -> (r: &'static str)
    ensures
        r@ == "RCON auth: server didn't confirm auth"@,
{
    "RCON auth: server didn't confirm auth"
}

// ---------------------------------------------------------------- commands

/// Spaces become underscores: the server splits broadcast text at spaces.
pub open spec fn escaped(s: Seq<char>) -> Seq<char> {
    s.map_values(|c: char| if c == ' ' {
        '_'
    } else {
        c
    })
}

/// Replaces spaces with underscores.
pub fn escape_broadcast(msg: &str) -> (r: String)
    ensures
        r@ == escaped(msg@),
{
    let cs = chars_of(msg);
    let mut out: Vec<char> = Vec::new();
    let mut i: usize = 0;
    while i < cs.len()
        invariant
            i <= cs@.len(),
            out@ == escaped(cs@.take(i as int)),
        decreases cs@.len() - i,
    {
        let c = cs[i];
        out.push(if c == ' ' {
            '_'
        } else {
            c
        });
        assert(escaped(cs@.take(i + 1)) == escaped(cs@.take(i as int)).push(
            if c == ' ' {
                '_'
            } else {
                c
            },
        ));
        i += 1;
    }
    assert(cs@.take(cs@.len() as int) == cs@);
    string_of(&out)
}

/// `Broadcast {escaped message}`.
pub fn broadcast_command(msg: &str) -> (r: String)
    ensures
        r@ == "Broadcast "@ + escaped(msg@),
{
    let mut m = chars_of("Broadcast ");
    let e = escape_broadcast(msg);
    push_str(&mut m, e.as_str());
    string_of(&m)
}

/// `Shutdown {seconds} {escaped message}`.
pub fn shutdown_command(seconds: u32, msg: &str) -> (r: String)
    ensures
        r@ == "Shutdown "@ + decimal(seconds as nat) + " "@ + escaped(msg@),
{
    let mut m = chars_of("Shutdown ");
    push_decimal(&mut m, seconds as u64);
    push_str(&mut m, " ");
    let e = escape_broadcast(msg);
    push_str(&mut m, e.as_str());
    string_of(&m)
}

/// `KickPlayer {steam id}`.
pub fn kick_command(steam_id: &str) -> (r: String)
    ensures
        r@ == "KickPlayer "@ + steam_id@,
{
    let mut m = chars_of("KickPlayer ");
    push_str(&mut m, steam_id);
    string_of(&m)
}

/// `BanPlayer {steam id}`.
pub fn ban_command(steam_id: &str) -> (r: String)
    ensures
        r@ == "BanPlayer "@ + steam_id@,
{
    let mut m = chars_of("BanPlayer ");
    push_str(&mut m, steam_id);
    string_of(&m)
}

// ---------------------------------------------------------------- ShowPlayers

/// The player on a trimmed line `t`, given `low`, the line lowercased: none for a blank
/// line or the `name,...` header; else, with at least two commas, the trimmed fields
/// around the first two commas as name, uid and steam id.
pub open spec fn player_fields(t: Seq<char>, low: Seq<char>) -> Option<(Seq<char>, Seq<char>, Seq<char>)> {
    if t.len() == 0 || starts_with(low, "name,"@) {
        None
    } else {
        match find(t, seq![',']) {
            Some(i) => match find_from(t, seq![','], i + 1) {
                Some(j) => Some((trim(t.take(i)), trim(t.subrange(i + 1, j)), trim(t.skip(j + 1)))),
                None => None,
            },
            None => None,
        }
    }
}

/// The player on a line: its fields once trimmed, the header recognised in any case.
pub open spec fn player_of_line(l: Seq<char>) -> Option<(Seq<char>, Seq<char>, Seq<char>)> {
    player_fields(trim(l), lowercase(trim(l)))
}

/// The players of a list of lines, in order.
pub open spec fn players_of(lines: Seq<Seq<char>>) -> Seq<(Seq<char>, Seq<char>, Seq<char>)>
    decreases lines.len(),
{
    if lines.len() == 0 {
        Seq::empty()
    } else {
        match player_of_line(lines.last()) {
            Some(p) => players_of(lines.drop_last()).push(p),
            None => players_of(lines.drop_last()),
        }
    }
}

/// A line of a `ShowPlayers` reply with two commas is a player, named by the trimmed text
/// before its first comma, unless it is the header: only a line starting with `name,`, in
/// any case, is the header, and it is no player. When `j` is the second comma, the
/// player's id and Steam id are the trimmed texts between the commas and after the second.
pub proof fn lemma_player_line(l: Seq<char>, i: int, j: int)
    requires
        0 <= i < j < trim(l).len(),
        trim(l)[i] == ',',
        trim(l)[j] == ',',
        forall|k: int| 0 <= k < i ==> trim(l)[k] != ',',
    ensures
        !starts_with(lowercase(trim(l)), "name,"@) ==> (player_of_line(l) matches Some(p) && p.0
            == trim(trim(l).take(i))),
        !starts_with(lowercase(trim(l)), "name,"@) && (forall|k: int| i < k < j ==> trim(l)[k]
            != ',') ==> player_of_line(l) == Some(
            (trim(trim(l).take(i)), trim(trim(l).subrange(i + 1, j)), trim(trim(l).skip(j + 1))),
        ),
        starts_with(lowercase(trim(l)), "name,"@) ==> player_of_line(l) is None,
{
    let t = trim(l);
    let c = seq![','];
    assert(match_at(t, c, i)) by {
        assert(t.subrange(i, i + 1) =~= c);
    }
    assert forall|k: int| 0 <= k < i implies !match_at(t, c, k) by {
        assert(t.subrange(k, k + 1)[0] == t[k]);
    }
    lemma_find_from_is(t, c, 0, i);
    assert(match_at(t, c, j)) by {
        assert(t.subrange(j, j + 1) =~= c);
    }
    lemma_find_from(t, c, i + 1);
    if forall|k: int| i < k < j ==> t[k] != ',' {
        assert forall|k: int| i + 1 <= k < j implies !match_at(t, c, k) by {
            assert(t.subrange(k, k + 1)[0] == t[k]);
        }
        lemma_find_from_is(t, c, i + 1, j);
    }
}

/// A player line adds its player to the ones before it.
pub proof fn lemma_players_grow(lines: Seq<Seq<char>>, l: Seq<char>)
    ensures
        players_of(lines.push(l)) == match player_of_line(l) {
            Some(p) => players_of(lines).push(p),
            None => players_of(lines),
        },
{
    assert(lines.push(l).drop_last() =~= lines);
}

/// The players as character sequences.
pub open spec fn players_model(v: Seq<RconPlayer>) -> Seq<(Seq<char>, Seq<char>, Seq<char>)> {
    v.map_values(|p: RconPlayer| (p.name@, p.player_uid@, p.steam_id@))
}

/// The player on a trimmed line, given the line lowercased.
pub fn player_from_fields(line: &str, lowered: &str) -> (r: Option<RconPlayer>)
    ensures
        match player_fields(line@, lowered@) {
            Some(p) => r matches Some(x) && (x.name@, x.player_uid@, x.steam_id@) == p,
            None => r is None,
        },
{
    let t = chars_of(line);
    if t.len() == 0 {
        return None;
    }
    let lc = chars_of(lowered);
    let header = chars_of("name,");
    if starts_with_chars(&lc, &header) {
        return None;
    }
    match find_char(&t, ',', 0) {
        None => None,
        Some(i) => {
            proof {
                lemma_find_from(t@, seq![','], 0);
            }
            match find_char(&t, ',', i + 1) {
                None => None,
                Some(j) => {
                    proof {
                        lemma_find_from(t@, seq![','], i + 1);
                    }
                    let (n0, n1) = trim_bounds(&t, 0, i);
                    let (u0, u1) = trim_bounds(&t, i + 1, j);
                    let (s0, s1) = trim_bounds(&t, j + 1, t.len());
                    assert(t@.subrange(0, i as int) == t@.take(i as int));
                    assert(t@.subrange(j + 1, t@.len() as int) == t@.skip(j + 1));
                    Some(
                        RconPlayer {
                            name: string_of(&sub_vec(&t, n0, n1)),
                            player_uid: string_of(&sub_vec(&t, u0, u1)),
                            steam_id: string_of(&sub_vec(&t, s0, s1)),
                        },
                    )
                },
            }
        },
    }
}

/// The player parsed from `cs[a..b]`, if that line is one: the line trimmed, lowercased by
/// `str::to_lowercase`, then `player_from_fields`.
fn player_line(cs: &[char], a: usize, b: usize) -> (r: Option<RconPlayer>)
    requires
        a <= b <= cs@.len(),
    ensures
        match player_of_line(cs@.subrange(a as int, b as int)) {
            Some(p) => r matches Some(x) && (x.name@, x.player_uid@, x.steam_id@) == p,
            None => r is None,
        },
{
    let (x, y) = trim_bounds(cs, a, b);
    let t = string_of(&sub_vec(cs, x, y));
    let lower = to_lowercase(t.as_str());
    player_from_fields(t.as_str(), lower.as_str())
}

/// The players listed in a `ShowPlayers` reply.
pub fn parse_players(raw: &str) -> (r: Vec<RconPlayer>)
    ensures
        players_model(r@) == players_of(lines_from(raw@, 0)),
{
    let cs = chars_of(raw);
    let n = cs.len();
    let mut out: Vec<RconPlayer> = Vec::new();
    let mut start: usize = 0;
    let ghost mut done: Seq<Seq<char>> = Seq::empty();
    loop
        invariant
            n == cs@.len(),
            cs@ == raw@,
            start <= n,
            lines_from(cs@, 0) == done + lines_from(cs@, start as int),
            players_model(out@) == players_of(done),
        decreases n - start,
    {
        let end = match find_char(&cs, '\n', start) {
            Some(e) => e,
            None => n,
        };
        proof {
            lemma_find_from(cs@, seq!['\n'], start as int);
        }
        let ghost line = cs@.subrange(start as int, end as int);
        let ghost before = out@;
        match player_line(&cs, start, end) {
            Some(p) => {
                out.push(p);
            },
            None => {},
        }
        proof {
            let nd = done.push(line);
            assert(nd.drop_last() == done);
            assert(nd.last() == line);
            match player_of_line(line) {
                Some(p) => {
                    assert(players_model(out@) == players_model(before).push(p));
                    assert(players_of(nd) == players_of(done).push(p));
                },
                None => {
                    assert(players_of(nd) == players_of(done));
                },
            }
            if end < n {
                assert(lines_from(cs@, start as int) == seq![line] + lines_from(cs@, end + 1));
                assert(done + (seq![line] + lines_from(cs@, end + 1)) == nd + lines_from(
                    cs@,
                    end + 1,
                ));
            } else {
                assert(lines_from(cs@, start as int) == seq![line]);
                assert(done + seq![line] == nd);
            }
            done = nd;
        }
        assert(players_model(out@) == players_of(done));
        if end >= n {
            assert(lines_from(cs@, 0) == done);
            assert(cs@ == raw@);
            assert(players_model(out@) == players_of(lines_from(raw@, 0)));
            return out;
        }
        start = end + 1;
    }
}

} // verus!
