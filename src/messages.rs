use vstd::prelude::*;
use vstd::string::StringSliceAdditionalSpecFns;
use vstd::utf8::{decode_utf8, encode_utf8, valid_utf8, encode_utf8_decode_utf8, encode_utf8_valid_utf8};
use crate::codec::{
    bytes_rotation, bytes_u32, bytes_u64, bytes_vec3, copy_range, lemma_rotation_at, lemma_u32_at,
    lemma_u64_at, lemma_vec3_at, push_bytes, push_rotation, push_u32, push_u64, push_vec3,
    read_rotation, read_u32, read_u64, read_vec3, rotation_at, u32_at, u64_at, vec3_at,
};
use crate::player::{Rotation, Vec3};

verus! {

/// What a client sends.
#[derive(Debug, Clone, Copy, PartialEq, Eq, Structural)]
pub enum ClientMessage {
    PlayerMovement { position: Vec3, rotation: Rotation },
    Shoot { position: Vec3, direction: Vec3 },
}

/// What the server sends.
#[derive(Debug, Clone, PartialEq, Eq)]
pub enum ServerMessage {
    PlayerJoined { player_id: u64, name: String, position: Vec3, health: u8, score: u32 },
    PlayerUpdate { player_id: u64, position: Vec3, rotation: Rotation },
    PlayerLeft { player_id: u64 },
    MapData { data: Vec<u8> },
    PlayerDamaged { player_id: u64, new_health: u8, attacker_id: u64 },
    PlayerDied { player_id: u64, killer_id: u64 },
    PlayerRespawned { player_id: u64, position: Vec3, health: u8 },
    ScoreUpdate { player_id: u64, new_score: u32 },
}

/// The mathematical value of a `ServerMessage`: text and bytes as sequences.
pub enum ServerMessageView {
    PlayerJoined { player_id: u64, name: Seq<char>, position: Vec3, health: u8, score: u32 },
    PlayerUpdate { player_id: u64, position: Vec3, rotation: Rotation },
    PlayerLeft { player_id: u64 },
    MapData { data: Seq<u8> },
    PlayerDamaged { player_id: u64, new_health: u8, attacker_id: u64 },
    PlayerDied { player_id: u64, killer_id: u64 },
    PlayerRespawned { player_id: u64, position: Vec3, health: u8 },
    ScoreUpdate { player_id: u64, new_score: u32 },
}

impl View for ServerMessage {
    type V = ServerMessageView;

    open spec fn view(&self) -> ServerMessageView {
        match self {
            ServerMessage::PlayerJoined { player_id, name, position, health, score } => {
                ServerMessageView::PlayerJoined {
                    player_id: *player_id,
                    name: name@,
                    position: *position,
                    health: *health,
                    score: *score,
                }
            },
            ServerMessage::PlayerUpdate { player_id, position, rotation } => {
                ServerMessageView::PlayerUpdate {
                    player_id: *player_id,
                    position: *position,
                    rotation: *rotation,
                }
            },
            ServerMessage::PlayerLeft { player_id } => ServerMessageView::PlayerLeft {
                player_id: *player_id,
            },
            ServerMessage::MapData { data } => ServerMessageView::MapData { data: data@ },
            ServerMessage::PlayerDamaged { player_id, new_health, attacker_id } => {
                ServerMessageView::PlayerDamaged {
                    player_id: *player_id,
                    new_health: *new_health,
                    attacker_id: *attacker_id,
                }
            },
            ServerMessage::PlayerDied { player_id, killer_id } => ServerMessageView::PlayerDied {
                player_id: *player_id,
                killer_id: *killer_id,
            },
            ServerMessage::PlayerRespawned { player_id, position, health } => {
                ServerMessageView::PlayerRespawned {
                    player_id: *player_id,
                    position: *position,
                    health: *health,
                }
            },
            ServerMessage::ScoreUpdate { player_id, new_score } => ServerMessageView::ScoreUpdate {
                player_id: *player_id,
                new_score: *new_score,
            },
        }
    }
}

/// The wire form of a client message: a tag byte, then the fields in order,
/// integers little-endian.
pub open spec fn client_bytes(m: ClientMessage) -> Seq<u8> {
    match m {
        ClientMessage::PlayerMovement { position, rotation } => seq![0u8] + bytes_vec3(position)
            + bytes_rotation(rotation),
        ClientMessage::Shoot { position, direction } => seq![1u8] + bytes_vec3(position)
            + bytes_vec3(direction),
    }
}

/// The client message that `s` holds, if it is well formed.
pub open spec fn parse_client(s: Seq<u8>) -> Option<ClientMessage> {
    if s.len() == 21 && s[0] == 0 {
        Some(
            ClientMessage::PlayerMovement { position: vec3_at(s, 1), rotation: rotation_at(s, 13) },
        )
    } else if s.len() == 25 && s[0] == 1 {
        Some(ClientMessage::Shoot { position: vec3_at(s, 1), direction: vec3_at(s, 13) })
    } else {
        None
    }
}

/// The wire form of a server message: a tag byte, then the fields in order,
/// integers little-endian; text and byte strings carry a `u64` length first.
pub open spec fn server_bytes(m: ServerMessageView) -> Seq<u8> {
    match m {
        ServerMessageView::PlayerJoined { player_id, name, position, health, score } => seq![0u8]
            + bytes_u64(player_id) + bytes_u64(encode_utf8(name).len() as u64) + encode_utf8(name)
            + bytes_vec3(position) + seq![health] + bytes_u32(score),
        ServerMessageView::PlayerUpdate { player_id, position, rotation } => seq![1u8] + bytes_u64(
            player_id,
        ) + bytes_vec3(position) + bytes_rotation(rotation),
        ServerMessageView::PlayerLeft { player_id } => seq![2u8] + bytes_u64(player_id),
        ServerMessageView::MapData { data } => seq![3u8] + bytes_u64(data.len() as u64) + data,
        ServerMessageView::PlayerDamaged { player_id, new_health, attacker_id } => seq![4u8]
            + bytes_u64(player_id) + seq![new_health] + bytes_u64(attacker_id),
        ServerMessageView::PlayerDied { player_id, killer_id } => seq![5u8] + bytes_u64(player_id)
            + bytes_u64(killer_id),
        ServerMessageView::PlayerRespawned { player_id, position, health } => seq![6u8]
            + bytes_u64(player_id) + bytes_vec3(position) + seq![health],
        ServerMessageView::ScoreUpdate { player_id, new_score } => seq![7u8] + bytes_u64(player_id)
            + bytes_u32(new_score),
    }
}

/// The server message that `s` holds, if it is well formed.
pub open spec fn parse_server(s: Seq<u8>) -> Option<ServerMessageView> {
    if s.len() == 0 {
        None
    } else if s[0] == 0 {
        if s.len() < 34 {
            None
        } else {
            let n = u64_at(s, 9) as int;
            if s.len() == 34 + n && valid_utf8(s.subrange(17, 17 + n)) {
                Some(
                    ServerMessageView::PlayerJoined {
                        player_id: u64_at(s, 1),
                        name: decode_utf8(s.subrange(17, 17 + n)),
                        position: vec3_at(s, 17 + n),
                        health: s[29 + n],
                        score: u32_at(s, 30 + n),
                    },
                )
            } else {
                None
            }
        }
    } else if s[0] == 1 && s.len() == 29 {
        Some(
            ServerMessageView::PlayerUpdate {
                player_id: u64_at(s, 1),
                position: vec3_at(s, 9),
                rotation: rotation_at(s, 21),
            },
        )
    } else if s[0] == 2 && s.len() == 9 {
        Some(ServerMessageView::PlayerLeft { player_id: u64_at(s, 1) })
    } else if s[0] == 3 && s.len() >= 9 && s.len() == 9 + u64_at(s, 1) {
        Some(ServerMessageView::MapData { data: s.subrange(9, s.len() as int) })
    } else if s[0] == 4 && s.len() == 18 {
        Some(
            ServerMessageView::PlayerDamaged {
                player_id: u64_at(s, 1),
                new_health: s[9],
                attacker_id: u64_at(s, 10),
            },
        )
    } else if s[0] == 5 && s.len() == 17 {
        Some(ServerMessageView::PlayerDied { player_id: u64_at(s, 1), killer_id: u64_at(s, 9) })
    } else if s[0] == 6 && s.len() == 22 {
        Some(
            ServerMessageView::PlayerRespawned {
                player_id: u64_at(s, 1),
                position: vec3_at(s, 9),
                health: s[21],
            },
        )
    } else if s[0] == 7 && s.len() == 13 {
        Some(ServerMessageView::ScoreUpdate { player_id: u64_at(s, 1), new_score: u32_at(s, 9) })
    } else {
        None
    }
}

/// A message value whose text and byte strings have lengths that a `u64`
/// can hold, as every message in memory does.
pub open spec fn server_fits(m: ServerMessageView) -> bool {
    match m {
        ServerMessageView::PlayerJoined { name, .. } => encode_utf8(name).len() <= u64::MAX,
        ServerMessageView::MapData { data } => data.len() <= u64::MAX,
        _ => true,
    }
}

/// Decoding the encoding of a client message gives the message back.
pub proof fn lemma_client_round_trip(m: ClientMessage)
    ensures
        parse_client(client_bytes(m)) == Some(m),
{
    let s = client_bytes(m);
    match m {
        ClientMessage::PlayerMovement { position, rotation } => {
            assert(s.subrange(1, 13) =~= bytes_vec3(position));
            assert(s.subrange(13, 21) =~= bytes_rotation(rotation));
            lemma_vec3_at(s, 1, position);
            lemma_rotation_at(s, 13, rotation);
        },
        ClientMessage::Shoot { position, direction } => {
            assert(s.subrange(1, 13) =~= bytes_vec3(position));
            assert(s.subrange(13, 25) =~= bytes_vec3(direction));
            lemma_vec3_at(s, 1, position);
            lemma_vec3_at(s, 13, direction);
        },
    }
}

/// Decoding the encoding of a server message gives the message back.
pub proof fn lemma_server_round_trip(m: ServerMessageView)
    requires
        server_fits(m),
    ensures
        parse_server(server_bytes(m)) == Some(m),
{
    let s = server_bytes(m);
    match m {
        ServerMessageView::PlayerJoined { player_id, name, position, health, score } => {
            let b = encode_utf8(name);
            let n = b.len() as int;
            assert(s.subrange(1, 9) =~= bytes_u64(player_id));
            assert(s.subrange(9, 17) =~= bytes_u64(n as u64));
            assert(s.subrange(17, 17 + n) =~= b);
            assert(s.subrange(17 + n, 29 + n) =~= bytes_vec3(position));
            assert(s[29 + n] == health);
            assert(s.subrange(30 + n, 34 + n) =~= bytes_u32(score));
            lemma_u64_at(s, 1, player_id);
            lemma_u64_at(s, 9, n as u64);
            lemma_vec3_at(s, 17 + n, position);
            lemma_u32_at(s, 30 + n, score);
            encode_utf8_valid_utf8(name);
            encode_utf8_decode_utf8(name);
        },
        ServerMessageView::PlayerUpdate { player_id, position, rotation } => {
            assert(s.subrange(1, 9) =~= bytes_u64(player_id));
            assert(s.subrange(9, 21) =~= bytes_vec3(position));
            assert(s.subrange(21, 29) =~= bytes_rotation(rotation));
            lemma_u64_at(s, 1, player_id);
            lemma_vec3_at(s, 9, position);
            lemma_rotation_at(s, 21, rotation);
        },
        ServerMessageView::PlayerLeft { player_id } => {
            assert(s.subrange(1, 9) =~= bytes_u64(player_id));
            lemma_u64_at(s, 1, player_id);
        },
        ServerMessageView::MapData { data } => {
            assert(s.subrange(1, 9) =~= bytes_u64(data.len() as u64));
            assert(s.subrange(9, s.len() as int) =~= data);
            lemma_u64_at(s, 1, data.len() as u64);
        },
        ServerMessageView::PlayerDamaged { player_id, new_health, attacker_id } => {
            assert(s.subrange(1, 9) =~= bytes_u64(player_id));
            assert(s.subrange(10, 18) =~= bytes_u64(attacker_id));
            lemma_u64_at(s, 1, player_id);
            lemma_u64_at(s, 10, attacker_id);
        },
        ServerMessageView::PlayerDied { player_id, killer_id } => {
            assert(s.subrange(1, 9) =~= bytes_u64(player_id));
            assert(s.subrange(9, 17) =~= bytes_u64(killer_id));
            lemma_u64_at(s, 1, player_id);
            lemma_u64_at(s, 9, killer_id);
        },
        ServerMessageView::PlayerRespawned { player_id, position, health } => {
            assert(s.subrange(1, 9) =~= bytes_u64(player_id));
            assert(s.subrange(9, 21) =~= bytes_vec3(position));
            lemma_u64_at(s, 1, player_id);
            lemma_vec3_at(s, 9, position);
        },
        ServerMessageView::ScoreUpdate { player_id, new_score } => {
            assert(s.subrange(1, 9) =~= bytes_u64(player_id));
            assert(s.subrange(9, 13) =~= bytes_u32(new_score));
            lemma_u64_at(s, 1, player_id);
            lemma_u32_at(s, 9, new_score);
        },
    }
}

/// Relies on `String::from_utf8`: it succeeds exactly on valid UTF-8, with the
/// text that the bytes encode.
#[verifier::external_body]
fn utf8_string(b: Vec<u8>) -> (r: Option<String>)
    ensures
        r is Some <==> valid_utf8(b@),
        r matches Some(t) ==> t@ == decode_utf8(b@),
{
    String::from_utf8(b).ok()
}

impl ClientMessage {
    pub fn to_bytes(&self) -> (r: Vec<u8>)
        ensures
            r@ == client_bytes(*self),
    {
        let mut out: Vec<u8> = Vec::new();
        match *self {
            ClientMessage::PlayerMovement { position, rotation } => {
                out.push(0u8);
                push_vec3(&mut out, position);
                push_rotation(&mut out, rotation);
            },
            ClientMessage::Shoot { position, direction } => {
                out.push(1u8);
                push_vec3(&mut out, position);
                push_vec3(&mut out, direction);
            },
        }
        assert(out@ =~= client_bytes(*self));
        out
    }

    /// Decodes a client message; `None` for anything malformed.
    pub fn from_bytes(data: &[u8]) -> (r: Option<ClientMessage>)
        ensures
            r == parse_client(data@),
    {
        if data.len() == 21 && data[0] == 0 {
            Some(
                ClientMessage::PlayerMovement {
                    position: read_vec3(data, 1),
                    rotation: read_rotation(data, 13),
                },
            )
        } else if data.len() == 25 && data[0] == 1 {
            Some(ClientMessage::Shoot { position: read_vec3(data, 1), direction: read_vec3(data, 13) })
        } else {
            None
        }
    }
}

impl ServerMessage {
    pub fn to_bytes(&self) -> (r: Vec<u8>)
        ensures
            r@ == server_bytes(self@),
            server_fits(self@),
    {
        let mut out: Vec<u8> = Vec::new();
        match self {
            ServerMessage::PlayerJoined { player_id, name, position, health, score } => {
                let b = name.as_str().as_bytes();
                out.push(0u8);
                push_u64(&mut out, *player_id);
                push_u64(&mut out, b.len() as u64);
                push_bytes(&mut out, b);
                push_vec3(&mut out, *position);
                out.push(*health);
                push_u32(&mut out, *score);
            },
            ServerMessage::PlayerUpdate { player_id, position, rotation } => {
                out.push(1u8);
                push_u64(&mut out, *player_id);
                push_vec3(&mut out, *position);
                push_rotation(&mut out, *rotation);
            },
            ServerMessage::PlayerLeft { player_id } => {
                out.push(2u8);
                push_u64(&mut out, *player_id);
            },
            ServerMessage::MapData { data } => {
                out.push(3u8);
                push_u64(&mut out, data.len() as u64);
                push_bytes(&mut out, data.as_slice());
            },
            ServerMessage::PlayerDamaged { player_id, new_health, attacker_id } => {
                out.push(4u8);
                push_u64(&mut out, *player_id);
                out.push(*new_health);
                push_u64(&mut out, *attacker_id);
            },
            ServerMessage::PlayerDied { player_id, killer_id } => {
                out.push(5u8);
                push_u64(&mut out, *player_id);
                push_u64(&mut out, *killer_id);
            },
            ServerMessage::PlayerRespawned { player_id, position, health } => {
                out.push(6u8);
                push_u64(&mut out, *player_id);
                push_vec3(&mut out, *position);
                out.push(*health);
            },
            ServerMessage::ScoreUpdate { player_id, new_score } => {
                out.push(7u8);
                push_u64(&mut out, *player_id);
                push_u32(&mut out, *new_score);
            },
        }
        assert(out@ =~= server_bytes(self@));
        out
    }

    /// Decodes a server message; `None` for anything malformed.
    pub fn from_bytes(data: &[u8]) -> (r: Option<ServerMessage>)
        ensures
            r is None <==> parse_server(data@) is None,
            r matches Some(m) ==> parse_server(data@) == Some(m@),
    {
        let len = data.len();
        if len == 0 {
            return None;
        }
        let tag = data[0];
        if tag == 0 {
            if len < 34 {
                return None;
            }
            let n = read_u64(data, 9);
            if n != (len - 34) as u64 {
                return None;
            }
            let end = len - 17;
            let name_bytes = copy_range(data, 17, end);
            match utf8_string(name_bytes) {
                Some(name) => Some(
                    ServerMessage::PlayerJoined {
                        player_id: read_u64(data, 1),
                        name,
                        position: read_vec3(data, end),
                        health: data[end + 12],
                        score: read_u32(data, end + 13),
                    },
                ),
                None => None,
            }
        } else if tag == 1 && len == 29 {
            Some(
                ServerMessage::PlayerUpdate {
                    player_id: read_u64(data, 1),
                    position: read_vec3(data, 9),
                    rotation: read_rotation(data, 21),
                },
            )
        } else if tag == 2 && len == 9 {
            Some(ServerMessage::PlayerLeft { player_id: read_u64(data, 1) })
        } else if tag == 3 && len >= 9 {
            let n = read_u64(data, 1);
            if n != (len - 9) as u64 {
                return None;
            }
            Some(ServerMessage::MapData { data: copy_range(data, 9, len) })
        } else if tag == 4 && len == 18 {
            Some(
                ServerMessage::PlayerDamaged {
                    player_id: read_u64(data, 1),
                    new_health: data[9],
                    attacker_id: read_u64(data, 10),
                },
            )
        } else if tag == 5 && len == 17 {
            Some(ServerMessage::PlayerDied { player_id: read_u64(data, 1), killer_id: read_u64(data, 9) })
        } else if tag == 6 && len == 22 {
            Some(
                ServerMessage::PlayerRespawned {
                    player_id: read_u64(data, 1),
                    position: read_vec3(data, 9),
                    health: data[21],
                },
            )
        } else if tag == 7 && len == 13 {
            Some(ServerMessage::ScoreUpdate { player_id: read_u64(data, 1), new_score: read_u32(data, 9) })
        } else {
            None
        }
    }
}

} // verus!
