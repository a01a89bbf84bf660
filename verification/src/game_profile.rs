//! The profile of a connected player: name, id and skin textures, and the
//! stable id given to players that log in without one.
use crate::crypto::{sha256, sha256_digest};
use crate::nbt::reader::{be_value, pow256};
use vstd::prelude::*;
use vstd::string::StringExecFns;
use vstd::utf8::{decode_utf8, encode_utf8, is_char_boundary};

verus! {

/// A signed property of a profile, such as its skin textures.
pub struct Property {
    pub name: String,
    pub value: String,
    pub signature: Option<String>,
}

impl Clone for Property {
    fn clone(&self) -> (r: Self)
        ensures
            r == *self,
    {
        Property {
            name: self.name.clone(),
            value: self.value.clone(),
            signature: match &self.signature {
                Some(s) => Some(s.clone()),
                None => None,
            },
        }
    }
}

/// The longest name a profile keeps, in bytes.
pub const MAX_NAME_BYTES: usize = 16;

/// The name a profile keeps: the first 16 bytes of `name` when it has at
/// least 16 and they end at a character boundary, else all of `name`.
pub open spec fn spec_profile_name(name: Seq<char>) -> Seq<char> {
    let b = encode_utf8(name);
    if (b.len() as usize) >= 16 && is_char_boundary(b, 16) {
        decode_utf8(b.take(16))
    } else {
        name
    }
}

/// The bytes `OfflinePlayer:` that the offline id hashes before the name.
pub open spec fn offline_prefix() -> Seq<u8> {
    seq![0x4Fu8, 0x66, 0x66, 0x6C, 0x69, 0x6E, 0x65, 0x50, 0x6C, 0x61, 0x79, 0x65, 0x72, 0x3A]
}

/// The id of a player known only by name: the first 16 bytes of the
/// SHA-256 digest of `OfflinePlayer:` and the name's UTF-8 bytes, with the
/// version nibble set to 3 and the RFC 4122 variant bits, read big-endian.
pub open spec fn spec_offline_uuid(name: Seq<char>) -> u128 {
    let d = sha256_digest(offline_prefix() + encode_utf8(name));
    let b = d.take(16).update(6, (d[6] & 0x0F) | 0x30).update(8, (d[8] & 0x3F) | 0x80);
    be_value(b, 0, 16) as u128
}

proof fn lemma_pow256_upto_16(k: nat)
    requires
        k <= 15,
    ensures
        pow256(k + 1) == 256 * pow256(k),
        pow256(k + 1) <= 0x1_0000_0000_0000_0000_0000_0000_0000_0000,
{
    reveal_with_fuel(pow256, 17);
}

/// The id that a player logging in under `username` without an id gets.
pub fn offline_uuid_from_username(username: &str) -> (r: u128)
    ensures
        r == spec_offline_uuid(username@),
        r != 0,
{
    let prefix: [u8; 14] = [
        0x4F,
        0x66,
        0x66,
        0x6C,
        0x69,
        0x6E,
        0x65,
        0x50,
        0x6C,
        0x61,
        0x79,
        0x65,
        0x72,
        0x3A,
    ];
    let mut data: Vec<u8> = Vec::new();
    let mut i: usize = 0;
    while i < 14
        invariant
            i <= 14,
            data@ == prefix@.take(i as int),
        decreases 14 - i,
    {
        data.push(prefix[i]);
        i = i + 1;
        assert(data@ =~= prefix@.take(i as int));
    }
    assert(data@ =~= offline_prefix());
    data.extend_from_slice(username.as_bytes());
    assert(data@ == offline_prefix() + encode_utf8(username@));
    let digest = sha256(data.as_slice());
    proof {
        lemma_offline_uuid_not_nil(username@);
    }
    let mut bytes: Vec<u8> = Vec::new();
    let mut k: usize = 0;
    while k < 16
        invariant
            k <= 16,
            digest@.len() == 32,
            bytes@ == digest@.take(k as int),
        decreases 16 - k,
    {
        bytes.push(digest[k]);
        k = k + 1;
        assert(bytes@ =~= digest@.take(k as int));
    }
    let b6 = (bytes[6] & 0x0F) | 0x30;
    bytes.set(6, b6);
    let b8 = (bytes[8] & 0x3F) | 0x80;
    bytes.set(8, b8);
    let ghost b = bytes@;
    assert(b == digest@.take(16).update(6, (digest@[6] & 0x0F) | 0x30).update(
        8,
        (digest@[8] & 0x3F) | 0x80,
    ));
    let mut acc: u128 = 0;
    let mut j: usize = 0;
    while j < 16
        invariant
            j <= 16,
            bytes@ == b,
            b.len() == 16,
            acc == be_value(b, 0, j as nat),
            acc < pow256(j as nat),
        decreases 16 - j,
    {
        proof {
            lemma_pow256_upto_16(j as nat);
        }
        assert(acc * 256 + b[j as int] < pow256((j + 1) as nat)) by (nonlinear_arith)
            requires
                acc < pow256(j as nat),
                b[j as int] < 256,
                pow256((j + 1) as nat) == 256 * pow256(j as nat),
        ;
        acc = acc * 256 + bytes[j] as u128;
        j = j + 1;
    }
    acc
}

/// A player's name, id and skin textures.
pub struct GameProfile {
    username: String,
    uuid: u128,
    textures: Option<Property>,
}

impl GameProfile {
    pub closed spec fn spec_username(&self) -> Seq<char> {
        self.username@
    }

    pub closed spec fn spec_uuid(&self) -> u128 {
        self.uuid
    }

    pub closed spec fn spec_textures(&self) -> Option<Property> {
        self.textures
    }

    /// A profile whose name is cut to 16 bytes when a character boundary
    /// allows it.
    pub fn new(username: &str, uuid: u128, textures: Option<Property>) -> (r: Self)
        ensures
            r.spec_username() == spec_profile_name(username@),
            r.spec_uuid() == uuid,
            r.spec_textures() == textures,
    {
        proof {
            vstd::utf8::encode_utf8_valid_utf8(username@);
        }
        let name = if username.len() >= 16 && username.is_char_boundary(16) {
            let (head, _) = username.split_at(16);
            proof {
                assert(encode_utf8(head@) =~= encode_utf8(username@).take(16));
                vstd::utf8::encode_utf8_decode_utf8(head@);
            }
            head.to_owned()
        } else {
            username.to_owned()
        };
        Self { username: name, uuid, textures }
    }

    /// A profile with no name.
    pub fn anonymous(uuid: u128, textures: Option<Property>) -> (r: Self)
        ensures
            r.spec_username() == Seq::<char>::empty(),
            r.spec_uuid() == uuid,
            r.spec_textures() == textures,
    {
        Self { username: String::new(), uuid, textures }
    }

    /// The profile of a player logging in: the name as sent, and the id as
    /// sent unless it is the nil id, in which case the offline id of the name.
    pub fn from_login(username: String, login_uuid: u128) -> (r: Self)
        ensures
            r.spec_username() == username@,
            r.spec_uuid() == if login_uuid == 0 {
                spec_offline_uuid(username@)
            } else {
                login_uuid
            },
            r.spec_uuid() != 0,
            r.spec_textures() is None,
    {
        let uuid = if login_uuid == 0 {
            offline_uuid_from_username(username.as_str())
        } else {
            login_uuid
        };
        Self { username, uuid, textures: None }
    }

    pub fn username(&self) -> (r: &str)
        ensures
            r@ == self.spec_username(),
    {
        self.username.as_str()
    }

    /// Whether the profile has no name.
    pub fn is_anonymous(&self) -> (r: bool)
        ensures
            r == (self.spec_username().len() == 0),
    {
        self.username.as_str().unicode_len() == 0
    }

    /// Renames the player; the id and textures stay.
    pub fn set_name(&mut self, name: &str)
        ensures
            final(self).spec_username() == name@,
            final(self).spec_uuid() == old(self).spec_uuid(),
            final(self).spec_textures() == old(self).spec_textures(),
    {
        self.username = name.to_owned();
    }

    pub fn uuid(&self) -> (r: u128)
        ensures
            r == self.spec_uuid(),
    {
        self.uuid
    }

    pub fn textures(&self) -> (r: Option<&Property>)
        ensures
            match self.spec_textures() {
                Some(t) => r == Some(&t),
                None => r is None,
            },
    {
        match &self.textures {
            Some(t) => Some(t),
            None => None,
        }
    }
}

impl Clone for GameProfile {
    fn clone(&self) -> (r: Self)
        ensures
            r.spec_username() == self.spec_username(),
            r.spec_uuid() == self.spec_uuid(),
            r.spec_textures() == self.spec_textures(),
    {
        GameProfile {
            username: self.username.clone(),
            uuid: self.uuid,
            textures: match &self.textures {
                Some(t) => Some(t.clone()),
                None => None,
            },
        }
    }
}

/// A big-endian number grows with its bytes: its first `m` bytes give at
/// most the number of its first `n`, for `m <= n`.
proof fn lemma_be_value_monotone(s: Seq<u8>, pos: int, m: nat, n: nat)
    requires
        m <= n,
    ensures
        be_value(s, pos, m) <= be_value(s, pos, n),
    decreases n,
{
    if m < n {
        lemma_be_value_monotone(s, pos, m, (n - 1) as nat);
        assert(be_value(s, pos, (n - 1) as nat) <= be_value(s, pos, (n - 1) as nat) * 256)
            by (nonlinear_arith);
    }
}

/// A big-endian number of `n` bytes is below `256^n`.
proof fn lemma_be_value_bound(s: Seq<u8>, pos: int, n: nat)
    requires
        0 <= pos,
        pos + n <= s.len(),
    ensures
        be_value(s, pos, n) < pow256(n),
    decreases n,
{
    if n > 0 {
        let m = (n - 1) as nat;
        lemma_be_value_bound(s, pos, m);
        let x = be_value(s, pos, m);
        let p = pow256(m);
        assert(x * 256 + s[pos + m] < p * 256) by (nonlinear_arith)
            requires
                x < p,
                s[pos + m] < 256,
        ;
    }
}

/// With a digest of at least 16 bytes, the offline id has its variant bits
/// set, so it is at least `2^63` and never the nil id.
proof fn lemma_offline_uuid_not_nil(name: Seq<char>)
    requires
        sha256_digest(offline_prefix() + encode_utf8(name)).len() >= 16,
    ensures
        spec_offline_uuid(name) != 0,
{
    let d = sha256_digest(offline_prefix() + encode_utf8(name));
    let b = d.take(16).update(6, (d[6] & 0x0F) | 0x30).update(8, (d[8] & 0x3F) | 0x80);
    let b8 = d[8];
    assert((b8 & 0x3F) | 0x80 >= 0x80) by (bit_vector);
    assert(b[8] >= 0x80);
    assert(b.len() == 16);
    reveal_with_fuel(be_value, 2);
    assert(be_value(b, 0, 9) == be_value(b, 0, 8) * 256 + b[8]);
    lemma_be_value_monotone(b, 0, 9, 16);
    lemma_be_value_bound(b, 0, 16);
    assert(pow256(16) == 0x1_0000_0000_0000_0000_0000_0000_0000_0000) by {
        reveal_with_fuel(pow256, 17);
    }
    let v = be_value(b, 0, 16);
    assert(v >= 0x80);
    assert(v as u128 == v);
}

} // verus!
