//! Floodgate: Bedrock players reaching the server through a Geyser proxy
//! carry an AES-GCM encrypted record in the handshake hostname, after a NUL.
//! This module reads that record, checks it against the configuration and
//! derives the Java username and player id.
use crate::crypto::{
    aes128_gcm_decrypt, aes128_gcm_open, base64_decode, base64_standard_decode, parse_uuid, sha256,
    sha256_digest, uuid_parse,
};
use crate::decimal::{parse_i32, parse_u64, spec_parse_i32, spec_parse_u64};
use crate::nbt::reader::be_value;
use crate::text::{
    char_vec_views, chars_of, find_byte, find_char, first_index_of, replace_char, spec_replace_char,
    spec_split, split_chars, string_from_chars, string_from_utf8,
};
use vstd::prelude::*;
use vstd::string::StringExecFns;
use vstd::utf8::{decode_utf8, encode_utf8, is_char_boundary, valid_utf8};

verus! {

broadcast use vstd::utf8::encode_utf8_decode_utf8;

/// The length of the AES-GCM nonce in a Floodgate record.
pub const IV_LENGTH: usize = 12;

/// The high half of the player id of an education player.
pub const EDUCATION_UUID_MSB: u64 = 0x0000000100000001;

/// Why Floodgate data was refused.
#[derive(Debug, PartialEq, Eq, Structural)]
pub enum FloodgateError {
    /// Floodgate is on but no key is configured.
    KeyNotConfigured,
    /// The key material does not have 16 bytes; it has this many.
    InvalidKeyLength(usize),
    /// The record does not start with the Floodgate header.
    InvalidHeader,
    /// The record has no `!` between nonce and ciphertext.
    InvalidPayload,
    /// The nonce is not valid Base64.
    InvalidIvEncoding,
    /// The ciphertext is not valid Base64.
    InvalidCiphertextEncoding,
    /// The nonce does not have 12 bytes.
    InvalidIvLength,
    /// The record does not decrypt under the key.
    AuthenticationFailed,
    /// The decrypted record is not valid UTF-8.
    DataNotUtf8,
    /// The decrypted record has neither 12 nor 15 fields; it has this many.
    InvalidFieldCount(usize),
    /// The education role field is not an `i32`.
    InvalidAdRole,
    /// An education record arrived while education support is off.
    EducationDisabled,
    /// A Floodgate record arrived while Floodgate is off.
    FloodgateDisabled,
    /// The education player id is not a UUID.
    InvalidEducationXuid,
    /// The Xbox user id is not an unsigned 64-bit integer.
    InvalidXuid,
}

/// How Floodgate records are accepted and turned into players.
pub struct FloodgateConfig {
    pub enabled: bool,
    pub education_enabled: bool,
    pub key: Option<[u8; 16]>,
    pub username_prefix: String,
    pub education_prefix: String,
    pub replace_spaces: bool,
    pub education_uuid_legacy: bool,
}

/// The player that a Floodgate record describes.
pub struct FloodgateData {
    pub username: String,
    pub xuid: String,
    pub ip: String,
    pub education: bool,
    pub tenant_id: String,
    pub ad_role: i32,
}

/// The mathematical view of `FloodgateData`.
pub struct FloodgateDataView {
    pub username: Seq<char>,
    pub xuid: Seq<char>,
    pub ip: Seq<char>,
    pub education: bool,
    pub tenant_id: Seq<char>,
    pub ad_role: i32,
}

impl View for FloodgateData {
    type V = FloodgateDataView;

    open spec fn view(&self) -> FloodgateDataView {
        FloodgateDataView {
            username: self.username@,
            xuid: self.xuid@,
            ip: self.ip@,
            education: self.education,
            tenant_id: self.tenant_id@,
            ad_role: self.ad_role,
        }
    }
}

/// The bytes held, if any.
pub open spec fn optional_bytes(o: Option<Vec<u8>>) -> Option<Seq<u8>> {
    match o {
        Some(v) => Some(v@),
        None => None,
    }
}

/// The view of the player, if any.
pub open spec fn optional_data(o: Option<FloodgateData>) -> Option<FloodgateDataView> {
    match o {
        Some(d) => Some(d@),
        None => None,
    }
}

/// The bytes `^Floodgate^>` that start every record.
pub open spec fn floodgate_header() -> Seq<u8> {
    seq![0x5Eu8, 0x46, 0x6C, 0x6F, 0x6F, 0x64, 0x67, 0x61, 0x74, 0x65, 0x5E, 0x3E]
}

/// The 16-byte key from key material: the contents of the key file when
/// there is one, else the Base64 decoding of the setting, else its bytes.
pub open spec fn spec_key_material(value: Seq<char>, file: Option<Seq<u8>>) -> Result<
    Seq<u8>,
    FloodgateError,
> {
    let data = match file {
        Some(d) => d,
        None => match base64_standard_decode(encode_utf8(value)) {
            Some(d) => d,
            None => encode_utf8(value),
        },
    };
    if data.len() != 16 {
        Err(FloodgateError::InvalidKeyLength(data.len() as usize))
    } else {
        Ok(data)
    }
}

/// The plaintext of a record `value` under `key`: header, Base64 nonce, `!`,
/// Base64 ciphertext; the nonce must have 12 bytes and the plaintext be UTF-8.
pub open spec fn spec_decrypt(key: Seq<u8>, value: Seq<u8>) -> Result<Seq<char>, FloodgateError> {
    if value.len() <= 12 || value.take(12) != floodgate_header() {
        Err(FloodgateError::InvalidHeader)
    } else {
        let payload = value.skip(12);
        match first_index_of(payload, 0x21u8) {
            None => Err(FloodgateError::InvalidPayload),
            Some(sep) => match base64_standard_decode(payload.take(sep)) {
                None => Err(FloodgateError::InvalidIvEncoding),
                Some(iv) => match base64_standard_decode(payload.skip(sep + 1)) {
                    None => Err(FloodgateError::InvalidCiphertextEncoding),
                    Some(ciphertext) => if iv.len() != 12 {
                        Err(FloodgateError::InvalidIvLength)
                    } else {
                        match aes128_gcm_decrypt(key, iv, ciphertext) {
                            None => Err(FloodgateError::AuthenticationFailed),
                            Some(plain) => if valid_utf8(plain) {
                                Ok(decode_utf8(plain))
                            } else {
                                Err(FloodgateError::DataNotUtf8)
                            },
                        }
                    },
                },
            },
        }
    }
}

/// The player that a decrypted record describes: its fields are separated
/// by NUL; a record has 12 fields, or 15 with the education fields.
pub open spec fn spec_parse_data(data: Seq<char>) -> Result<FloodgateDataView, FloodgateError> {
    let fields = spec_split(data, '\0');
    let n = fields.len();
    if n != 12 && n != 15 {
        Err(FloodgateError::InvalidFieldCount(n as usize))
    } else {
        let ad_role: Result<i32, FloodgateError> = if n == 15 {
            match spec_parse_i32(fields[14]) {
                Some(x) => Ok(x),
                None => Err(FloodgateError::InvalidAdRole),
            }
        } else {
            Ok(-1i32)
        };
        match ad_role {
            Err(e) => Err(e),
            Ok(role) => Ok(
                FloodgateDataView {
                    username: fields[1],
                    xuid: fields[2],
                    ip: fields[7],
                    education: n == 15 && fields[12] == seq!['1'],
                    tenant_id: if n == 15 {
                        fields[13]
                    } else {
                        Seq::empty()
                    },
                    ad_role: role,
                },
            ),
        }
    }
}

/// What a handshake hostname gives: the address part and, when a record
/// follows a NUL and Floodgate or its education mode is on, the player.
pub open spec fn spec_parse_hostname(config: &FloodgateConfig, hostname: Seq<char>) -> Result<
    (Seq<char>, Option<FloodgateDataView>),
    FloodgateError,
> {
    match first_index_of(hostname, '\0') {
        None => Ok((hostname, None)),
        Some(i) => if !(config.enabled || config.education_enabled) {
            Ok((hostname, None))
        } else {
            match config.key {
                None => Err(FloodgateError::KeyNotConfigured),
                Some(key) => match spec_decrypt(key@, encode_utf8(hostname.skip(i + 1))) {
                    Err(e) => Err(e),
                    Ok(plain) => match spec_parse_data(plain) {
                        Err(e) => Err(e),
                        Ok(data) => if data.education && !config.education_enabled {
                            Err(FloodgateError::EducationDisabled)
                        } else if !data.education && !config.enabled {
                            Err(FloodgateError::FloodgateDisabled)
                        } else {
                            Ok((hostname.take(i), Some(data)))
                        },
                    },
                },
            }
        },
    }
}

/// The largest character boundary of `b` at or below `e`.
pub open spec fn boundary_at_most(b: Seq<u8>, e: nat) -> nat
    decreases e,
{
    if e == 0 || is_char_boundary(b, e as int) {
        e
    } else {
        boundary_at_most(b, (e - 1) as nat)
    }
}

/// `value` cut to at most `max` bytes of UTF-8, at a character boundary.
pub open spec fn spec_truncate_utf8(value: Seq<char>, max: usize) -> Seq<char> {
    let b = encode_utf8(value);
    if (b.len() as usize) <= max {
        value
    } else {
        decode_utf8(b.take(boundary_at_most(b, max as nat) as int))
    }
}

/// The Java username of a player: the prefix, then the name cut so that
/// the whole fits in 16 bytes, spaces turned to `_` when configured.
pub open spec fn spec_floodgate_username(config: &FloodgateConfig, data: FloodgateDataView) -> Seq<
    char,
> {
    let prefix = if data.education {
        config.education_prefix@
    } else {
        config.username_prefix@
    };
    let prefix_len = encode_utf8(prefix).len() as usize;
    let max: usize = if prefix_len >= 16 {
        0
    } else {
        (16 - prefix_len) as usize
    };
    let name = prefix + spec_truncate_utf8(data.username, max);
    if config.replace_spaces {
        spec_replace_char(name, ' ', '_')
    } else {
        name
    }
}

/// The id of a player as a 128-bit number. Education players have
/// `EDUCATION_UUID_MSB` as high half; the low half comes from the SHA-256 of
/// `tenant:username` (legacy) or from bits of their UUID xuid. Other players
/// have their Xbox user id as id.
pub open spec fn spec_floodgate_uuid(config: &FloodgateConfig, data: FloodgateDataView) -> Result<
    u128,
    FloodgateError,
> {
    if data.education {
        if config.education_uuid_legacy {
            let digest = sha256_digest(encode_utf8(data.tenant_id + seq![':'] + data.username));
            Ok((EDUCATION_UUID_MSB as nat * 0x1_0000_0000_0000_0000 + be_value(digest, 0, 8)) as u128)
        } else {
            match uuid_parse(data.xuid) {
                None => Err(FloodgateError::InvalidEducationXuid),
                Some(parsed) => {
                    let msb = (parsed >> 64u128) as u64;
                    let lsb = parsed as u64;
                    let upper = ((msb >> 16u64) << 12u64) | (msb & 0xFFF);
                    let lower = (lsb << 2u64) >> 60u64;
                    Ok(
                        (EDUCATION_UUID_MSB as nat * 0x1_0000_0000_0000_0000 + ((upper << 4u64)
                            | lower) as nat) as u128,
                    )
                },
            }
        }
    } else {
        match spec_parse_u64(data.xuid) {
            None => Err(FloodgateError::InvalidXuid),
            Some(x) => Ok(x as u128),
        }
    }
}

/// Whether the record bytes start with the Floodgate header and go on.
fn has_header(bytes: &[u8]) -> (r: bool)
    ensures
        r == (bytes@.len() > 12 && bytes@.take(12) == floodgate_header()),
{
    let header: [u8; 12] = [0x5E, 0x46, 0x6C, 0x6F, 0x6F, 0x64, 0x67, 0x61, 0x74, 0x65, 0x5E, 0x3E];
    if bytes.len() <= 12 {
        return false;
    }
    let mut i: usize = 0;
    while i < 12
        invariant
            i <= 12 < bytes@.len(),
            header@ == floodgate_header(),
            forall|j: int| 0 <= j < i ==> bytes@[j] == floodgate_header()[j],
        decreases 12 - i,
    {
        if bytes[i] != header[i] {
            assert(bytes@.take(12)[i as int] != floodgate_header()[i as int]);
            return false;
        }
        i = i + 1;
    }
    assert(bytes@.take(12) =~= floodgate_header());
    true
}

/// Decrypts a Floodgate record with `key`.
fn decrypt(key: &[u8; 16], value: &str) -> (r: Result<String, FloodgateError>)
    ensures
        match r {
            Ok(s) => spec_decrypt(key@, encode_utf8(value@)) == Ok::<Seq<char>, FloodgateError>(s@),
            Err(e) => spec_decrypt(key@, encode_utf8(value@)) == Err::<Seq<char>, FloodgateError>(e),
        },
{
    let bytes = value.as_bytes();
    if !has_header(bytes) {
        return Err(FloodgateError::InvalidHeader);
    }
    let len = bytes.len();
    let payload = &bytes[12..len];
    assert(payload@ == bytes@.skip(12));
    let separator = match find_byte(payload, 0x21) {
        Some(i) => i,
        None => return Err(FloodgateError::InvalidPayload),
    };
    let plen = payload.len();
    let iv = match base64_decode(&payload[0..separator]) {
        Some(v) => v,
        None => {
            assert(payload@.subrange(0, separator as int) == payload@.take(separator as int));
            return Err(FloodgateError::InvalidIvEncoding);
        },
    };
    assert(payload@.subrange(0, separator as int) == payload@.take(separator as int));
    let ciphertext = match base64_decode(&payload[separator + 1..plen]) {
        Some(v) => v,
        None => {
            assert(payload@.subrange(separator + 1, plen as int) == payload@.skip(separator + 1));
            return Err(FloodgateError::InvalidCiphertextEncoding);
        },
    };
    assert(payload@.subrange(separator + 1, plen as int) == payload@.skip(separator + 1));
    if iv.len() != IV_LENGTH {
        return Err(FloodgateError::InvalidIvLength);
    }
    let plaintext = match aes128_gcm_open(key, iv.as_slice(), ciphertext.as_slice()) {
        Some(p) => p,
        None => return Err(FloodgateError::AuthenticationFailed),
    };
    match string_from_utf8(plaintext) {
        Some(s) => Ok(s),
        None => Err(FloodgateError::DataNotUtf8),
    }
}

/// Reads the fields of a decrypted record.
pub fn parse_data(data: &str) -> (r: Result<FloodgateData, FloodgateError>)
    ensures
        match r {
            Ok(d) => spec_parse_data(data@) == Ok::<FloodgateDataView, FloodgateError>(d@),
            Err(e) => spec_parse_data(data@) == Err::<FloodgateDataView, FloodgateError>(e),
        },
{
    let cs = chars_of(data);
    let fields = split_chars(cs.as_slice(), '\0');
    let ghost views = char_vec_views(fields@);
    assert(views == spec_split(data@, '\0'));
    let n = fields.len();
    if n != 12 && n != 15 {
        return Err(FloodgateError::InvalidFieldCount(n));
    }
    assert(views[1] == fields@[1]@ && views[2] == fields@[2]@ && views[7] == fields@[7]@);
    let education = n == 15 && fields[12].len() == 1 && fields[12][0] == '1';
    proof {
        if n == 15 {
            assert(views[12] == fields@[12]@);
            if fields@[12]@.len() == 1 && fields@[12]@[0] == '1' {
                assert(fields@[12]@ =~= seq!['1']);
            }
        }
    }
    let tenant_id = if n == 15 {
        assert(views[13] == fields@[13]@);
        string_from_chars(fields[13].as_slice())
    } else {
        String::new()
    };
    let ad_role = if n == 15 {
        assert(views[14] == fields@[14]@);
        let role_text = string_from_chars(fields[14].as_slice());
        match parse_i32(role_text.as_str()) {
            Some(x) => x,
            None => return Err(FloodgateError::InvalidAdRole),
        }
    } else {
        -1
    };
    Ok(
        FloodgateData {
            username: string_from_chars(fields[1].as_slice()),
            xuid: string_from_chars(fields[2].as_slice()),
            ip: string_from_chars(fields[7].as_slice()),
            education,
            tenant_id,
            ad_role,
        },
    )
}

/// `value` cut to at most `max` bytes, at a character boundary.
pub fn truncate_utf8(value: &str, max: usize) -> (r: String)
    ensures
        r@ == spec_truncate_utf8(value@, max),
{
    proof {
        vstd::utf8::encode_utf8_valid_utf8(value@);
        vstd::utf8::is_char_boundary_start_end_of_seq(encode_utf8(value@));
    }
    if value.len() <= max {
        return value.to_owned();
    }
    let mut end = max;
    while end > 0 && !value.is_char_boundary(end)
        invariant
            end <= max,
            boundary_at_most(encode_utf8(value@), max as nat) == boundary_at_most(
                encode_utf8(value@),
                end as nat,
            ),
        decreases end,
    {
        end = end - 1;
    }
    assert(boundary_at_most(encode_utf8(value@), end as nat) == end);
    let (head, _) = value.split_at(end);
    proof {
        assert(encode_utf8(head@) =~= encode_utf8(value@).take(end as int));
        vstd::utf8::encode_utf8_decode_utf8(head@);
    }
    head.to_owned()
}

/// The key from key material: the contents of the key file when there is
/// one, else the Base64 decoding of the setting, else the setting's bytes;
/// it must have exactly 16 bytes.
pub fn key_from_material(value: &str, file_contents: Option<Vec<u8>>) -> (r: Result<
    [u8; 16],
    FloodgateError,
>)
    ensures
        match r {
            Ok(k) => spec_key_material(value@, optional_bytes(file_contents)) == Ok::<
                Seq<u8>,
                FloodgateError,
            >(k@),
            Err(e) => spec_key_material(value@, optional_bytes(file_contents)) == Err::<
                Seq<u8>,
                FloodgateError,
            >(e),
        },
{
    let data = match file_contents {
        Some(d) => d,
        None => match base64_decode(value.as_bytes()) {
            Some(d) => d,
            None => vstd::slice::slice_to_vec(value.as_bytes()),
        },
    };
    if data.len() != 16 {
        return Err(FloodgateError::InvalidKeyLength(data.len()));
    }
    let mut key = [0u8; 16];
    let mut i: usize = 0;
    while i < 16
        invariant
            i <= 16,
            data@.len() == 16,
            key@.len() == 16,
            forall|j: int| 0 <= j < i ==> key@[j] == data@[j],
        decreases 16 - i,
    {
        key[i] = data[i];
        i = i + 1;
    }
    assert(key@ =~= data@);
    Ok(key)
}

impl FloodgateConfig {
    /// The configuration from the settings. The key is read from its
    /// material only when Floodgate or its education mode is on;
    /// `key_file_contents` holds the key file's bytes when the key setting
    /// names a file.
    pub fn from_settings(
        enabled: bool,
        education_enabled: bool,
        key_value: &str,
        key_file_contents: Option<Vec<u8>>,
        username_prefix: String,
        education_prefix: String,
        replace_spaces: bool,
        education_uuid_legacy: bool,
    ) -> (r: Result<Self, FloodgateError>)
        ensures
            (enabled || education_enabled) ==> match r {
                Ok(c) => c.key matches Some(k) && spec_key_material(
                    key_value@,
                    optional_bytes(key_file_contents),
                ) == Ok::<Seq<u8>, FloodgateError>(k@),
                Err(e) => spec_key_material(key_value@, optional_bytes(key_file_contents))
                    == Err::<Seq<u8>, FloodgateError>(e),
            },
            !(enabled || education_enabled) ==> (r matches Ok(c) && c.key is None),
            r matches Ok(c) ==> {
                &&& c.enabled == enabled
                &&& c.education_enabled == education_enabled
                &&& c.username_prefix == username_prefix
                &&& c.education_prefix == education_prefix
                &&& c.replace_spaces == replace_spaces
                &&& c.education_uuid_legacy == education_uuid_legacy
            },
    {
        let key = if enabled || education_enabled {
            match key_from_material(key_value, key_file_contents) {
                Ok(k) => Some(k),
                Err(e) => return Err(e),
            }
        } else {
            None
        };
        Ok(
            Self {
                enabled,
                education_enabled,
                key,
                username_prefix,
                education_prefix,
                replace_spaces,
                education_uuid_legacy,
            },
        )
    }

    /// Splits a handshake hostname at its first NUL: the address part, and
    /// the player that the Floodgate record after it describes. A hostname
    /// without NUL, or any hostname while Floodgate and its education mode
    /// are both off, is kept whole with no player.
    pub fn parse_hostname(&self, hostname: &str) -> (r: Result<
        (String, Option<FloodgateData>),
        FloodgateError,
    >)
        ensures
            match r {
                Ok((base, data)) => spec_parse_hostname(self, hostname@) == Ok::<
                    (Seq<char>, Option<FloodgateDataView>),
                    FloodgateError,
                >((base@, optional_data(data))),
                Err(e) => spec_parse_hostname(self, hostname@) == Err::<
                    (Seq<char>, Option<FloodgateDataView>),
                    FloodgateError,
                >(e),
            },
    {
        let cs = chars_of(hostname);
        let index = match find_char(cs.as_slice(), '\0') {
            Some(i) => i,
            None => return Ok((hostname.to_owned(), None)),
        };
        if !(self.enabled || self.education_enabled) {
            return Ok((hostname.to_owned(), None));
        }
        let len = cs.len();
        let base = string_from_chars(&cs[0..index]);
        assert(cs@.subrange(0, index as int) == cs@.take(index as int));
        let encoded = string_from_chars(&cs[index + 1..len]);
        assert(cs@.subrange(index + 1, len as int) == cs@.skip(index + 1));
        let key = match &self.key {
            Some(k) => k,
            None => return Err(FloodgateError::KeyNotConfigured),
        };
        let decrypted = match decrypt(key, encoded.as_str()) {
            Ok(d) => d,
            Err(e) => return Err(e),
        };
        let data = match parse_data(decrypted.as_str()) {
            Ok(d) => d,
            Err(e) => return Err(e),
        };
        if data.education {
            if !self.education_enabled {
                return Err(FloodgateError::EducationDisabled);
            }
        } else if !self.enabled {
            return Err(FloodgateError::FloodgateDisabled);
        }
        Ok((base, Some(data)))
    }

    /// The Java username and the player id (as a 128-bit number) of a
    /// Floodgate player.
    pub fn game_profile(&self, data: &FloodgateData) -> (r: Result<(String, u128), FloodgateError>)
        ensures
            match r {
                Ok((name, id)) => name@ == spec_floodgate_username(self, data@)
                    && spec_floodgate_uuid(self, data@) == Ok::<u128, FloodgateError>(id),
                Err(e) => spec_floodgate_uuid(self, data@) == Err::<u128, FloodgateError>(e),
            },
    {
        let prefix = if data.education {
            &self.education_prefix
        } else {
            &self.username_prefix
        };
        let prefix_len = prefix.as_str().len();
        let max: usize = if prefix_len >= 16 {
            0
        } else {
            16 - prefix_len
        };
        let mut joined = prefix.clone();
        let cut = truncate_utf8(data.username.as_str(), max);
        joined.append(cut.as_str());
        assert(joined@ == prefix@ + spec_truncate_utf8(data.username@, max));
        let username = if self.replace_spaces {
            let cs = chars_of(joined.as_str());
            let replaced = replace_char(cs.as_slice(), ' ', '_');
            string_from_chars(replaced.as_slice())
        } else {
            joined
        };
        let uuid: u128 = if data.education {
            if self.education_uuid_legacy {
                let mut text = data.tenant_id.clone();
                text.append(":");
                text.append(data.username.as_str());
                proof {
                    reveal_strlit(":");
                }
                assert(text@ =~= data.tenant_id@ + seq![':'] + data.username@);
                let digest = sha256(text.as_str().as_bytes());
                let mut lsb: u64 = 0;
                let mut i: usize = 0;
                while i < 8
                    invariant
                        i <= 8,
                        digest@.len() == 32,
                        lsb == be_value(digest@, 0, i as nat),
                        lsb < pow256_small(i as nat),
                    decreases 8 - i,
                {
                    proof {
                        lemma_pow256_small(i as nat);
                    }
                    assert(lsb * 256 + digest@[i as int] < pow256_small((i + 1) as nat))
                        by (nonlinear_arith)
                        requires
                            lsb < pow256_small(i as nat),
                            digest@[i as int] < 256,
                            pow256_small((i + 1) as nat) == 256 * pow256_small(i as nat),
                    ;
                    lsb = lsb * 256 + digest[i] as u64;
                    i = i + 1;
                }
                (EDUCATION_UUID_MSB as u128) * 0x1_0000_0000_0000_0000 + lsb as u128
            } else {
                let parsed = match parse_uuid(data.xuid.as_str()) {
                    Some(p) => p,
                    None => return Err(FloodgateError::InvalidEducationXuid),
                };
                let msb = (parsed >> 64u128) as u64;
                let lsb = parsed as u64;
                let upper = ((msb >> 16u64) << 12u64) | (msb & 0xFFF);
                let lower = (lsb << 2u64) >> 60u64;
                (EDUCATION_UUID_MSB as u128) * 0x1_0000_0000_0000_0000 + (((upper << 4u64) | lower)
                    as u128)
            }
        } else {
            match parse_u64(data.xuid.as_str()) {
                Some(x) => x as u128,
                None => return Err(FloodgateError::InvalidXuid),
            }
        };
        Ok((username, uuid))
    }
}

/// `256` to the power `k`.
spec fn pow256_small(k: nat) -> nat
    decreases k,
{
    if k == 0 {
        1
    } else {
        256 * pow256_small((k - 1) as nat)
    }
}

proof fn lemma_pow256_small(k: nat)
    requires
        k <= 7,
    ensures
        pow256_small(k + 1) == 256 * pow256_small(k),
        pow256_small(k + 1) <= 0x1_0000_0000_0000_0000,
{
    reveal_with_fuel(pow256_small, 9);
}

impl Default for FloodgateConfig {
    fn default() -> (r: Self)
        ensures
            !r.enabled,
            !r.education_enabled,
            r.key is None,
            r.username_prefix@ == "."@,
            r.education_prefix@ == "+"@,
            r.replace_spaces,
            !r.education_uuid_legacy,
    {
        Self {
            enabled: false,
            education_enabled: false,
            key: None,
            username_prefix: ".".to_owned(),
            education_prefix: "+".to_owned(),
            replace_spaces: true,
            education_uuid_legacy: false,
        }
    }
}

/// The UTF-8 bytes of two strings one after the other are the bytes of each.
proof fn lemma_encode_utf8_concat(a: Seq<char>, b: Seq<char>)
    ensures
        encode_utf8(a + b) == encode_utf8(a) + encode_utf8(b),
    decreases a.len(),
{
    if a.len() == 0 {
        assert(a + b =~= b);
        assert(encode_utf8(a) + encode_utf8(b) =~= encode_utf8(b));
    } else {
        assert((a + b).drop_first() =~= a.drop_first() + b);
        lemma_encode_utf8_concat(a.drop_first(), b);
        assert(encode_utf8(a + b) =~= encode_utf8(a) + encode_utf8(b));
    }
}

/// Turning spaces into underscores keeps the UTF-8 length: both take one byte.
proof fn lemma_replace_spaces_len(cs: Seq<char>)
    ensures
        encode_utf8(spec_replace_char(cs, ' ', '_')).len() == encode_utf8(cs).len(),
    decreases cs.len(),
{
    if cs.len() > 0 {
        let r = spec_replace_char(cs, ' ', '_');
        assert(r.drop_first() =~= spec_replace_char(cs.drop_first(), ' ', '_'));
        lemma_replace_spaces_len(cs.drop_first());
        if cs[0] == ' ' {
            assert(r[0] == '_');
            assert(vstd::utf8::encode_scalar(' ' as u32).len() == 1);
            assert(vstd::utf8::encode_scalar('_' as u32).len() == 1);
        }
    }
}

/// A name cut to `max` bytes takes at most `max` bytes.
proof fn lemma_truncate_len(value: Seq<char>, max: usize)
    requires
        encode_utf8(value).len() <= usize::MAX,
    ensures
        encode_utf8(spec_truncate_utf8(value, max)).len() <= max,
        encode_utf8(spec_truncate_utf8(value, max)).len() <= encode_utf8(value).len(),
{
    let b = encode_utf8(value);
    vstd::utf8::encode_utf8_valid_utf8(value);
    if (b.len() as usize) > max {
        let e = boundary_at_most(b, max as nat);
        lemma_boundary_at_most(b, max as nat);
        vstd::utf8::is_char_boundary_start_end_of_seq(b);
        assert(b.take(e as int) =~= b.subrange(0, e as int));
        vstd::utf8::valid_utf8_split(b, e as int);
        vstd::utf8::decode_utf8_encode_utf8(b.take(e as int));
    }
}

/// The boundary found is at most where the search started and is a
/// character boundary.
proof fn lemma_boundary_at_most(b: Seq<u8>, e: nat)
    requires
        e <= b.len(),
    ensures
        boundary_at_most(b, e) <= e,
        boundary_at_most(b, e) == 0 || is_char_boundary(b, boundary_at_most(b, e) as int),
    decreases e,
{
    if e > 0 && !is_char_boundary(b, e as int) {
        lemma_boundary_at_most(b, (e - 1) as nat);
    }
}

/// A Floodgate player's Java username takes at most 16 bytes of UTF-8 when
/// the prefix does.
pub proof fn lemma_username_fits(config: &FloodgateConfig, data: FloodgateDataView)
    requires
        encode_utf8(
            if data.education {
                config.education_prefix@
            } else {
                config.username_prefix@
            },
        ).len() <= 16,
        encode_utf8(data.username).len() <= usize::MAX,
    ensures
        encode_utf8(spec_floodgate_username(config, data)).len() <= 16,
{
    let prefix = if data.education {
        config.education_prefix@
    } else {
        config.username_prefix@
    };
    let prefix_len = encode_utf8(prefix).len() as usize;
    let max: usize = if prefix_len >= 16 {
        0
    } else {
        (16 - prefix_len) as usize
    };
    let cut = spec_truncate_utf8(data.username, max);
    lemma_truncate_len(data.username, max);
    lemma_encode_utf8_concat(prefix, cut);
    lemma_replace_spaces_len(prefix + cut);
}

} // verus!
