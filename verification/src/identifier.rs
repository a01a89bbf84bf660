//! Namespaced identifiers such as `minecraft:overworld`.
use crate::packet_field::EncodePacketField;
use crate::string_field::{
    decode_string, lemma_string_roundtrip, spec_decode_string, spec_string_bytes,
    StringDecodingError, MAX_STRING_SIZE,
};
use crate::text::{
    chars_of, find_char, first_index_of, lemma_first_index_absent, lemma_first_index_found,
    string_from_chars,
};
use vstd::prelude::*;
use vstd::std_specs::cmp::PartialEqSpecImpl;
use vstd::string::StringExecFns;

verus! {

/// A namespace and a path, written `namespace:thing`.
#[derive(Debug, Hash)]
pub struct Identifier {
    pub namespace: String,
    pub thing: String,
}

/// The first piece of `cs` when it is split at every `:` (all of `cs` if it
/// holds no `:`).
pub open spec fn first_piece(cs: Seq<char>) -> Seq<char> {
    match first_index_of(cs, ':') {
        Some(i) => cs.take(i),
        None => cs,
    }
}

/// The second piece of `cs` when it is split at every `:`, if there is one.
pub open spec fn second_piece(cs: Seq<char>) -> Option<Seq<char>> {
    match first_index_of(cs, ':') {
        Some(i) => Some(first_piece(cs.skip(i + 1))),
        None => None,
    }
}

/// The text `namespace:thing`.
pub open spec fn spec_identifier_text(namespace: Seq<char>, thing: Seq<char>) -> Seq<char> {
    namespace + seq![':'] + thing
}

/// The identifier that the text `cs` names when read from the wire: the
/// pieces before the first and second `:`; when there is no `:`, the
/// namespace is `minecraft` and the path is all of `cs`.
pub open spec fn spec_parse_identifier(cs: Seq<char>) -> (Seq<char>, Seq<char>) {
    match second_piece(cs) {
        Some(t) => (first_piece(cs), t),
        None => ("minecraft"@, cs),
    }
}

/// What reading an identifier from the start of `s` gives: namespace, path
/// and the number of bytes read, or the error.
pub open spec fn spec_decode_identifier(s: Seq<u8>) -> Result<
    (Seq<char>, Seq<char>, nat),
    StringDecodingError,
> {
    match spec_decode_string(s) {
        Ok((cs, n)) => Ok((spec_parse_identifier(cs).0, spec_parse_identifier(cs).1, n)),
        Err(e) => Err(e),
    }
}

/// Splits `cs` as the wire reader does: the pieces before the first and
/// second `:`, or `None` in place of the second when there is no `:`.
fn split_pieces(cs: &[char]) -> (r: (String, Option<String>))
    ensures
        r.0@ == first_piece(cs@),
        match r.1 {
            Some(t) => second_piece(cs@) == Some(t@),
            None => second_piece(cs@) == None::<Seq<char>>,
        },
{
    match find_char(cs, ':') {
        None => (string_from_chars(cs), None),
        Some(i) => {
            let len = cs.len();
            assert(i < len);
            let rest = &cs[i + 1..len];
            assert(rest@ == cs@.skip(i + 1));
            let second = match find_char(rest, ':') {
                Some(j) => string_from_chars(&rest[0..j]),
                None => string_from_chars(rest),
            };
            (string_from_chars(&cs[0..i]), Some(second))
        },
    }
}

impl Identifier {
    pub fn new(namespace: &str, thing: &str) -> (r: Self)
        ensures
            r.namespace@ == namespace@,
            r.thing@ == thing@,
    {
        Self { namespace: namespace.to_owned(), thing: thing.to_owned() }
    }

    pub fn minecraft(thing: &str) -> (r: Self)
        ensures
            r.namespace@ == "minecraft"@,
            r.thing@ == thing@,
    {
        Self::new("minecraft", thing)
    }

    /// Reads `namespace:thing`: the pieces before the first and second `:`
    /// (text after a second `:` is dropped). The text must hold a `:`.
    pub fn from_str(string: &str) -> (r: Self)
        requires
            string@.contains(':'),
        ensures
            r.namespace@ == first_piece(string@),
            second_piece(string@) == Some(r.thing@),
    {
        let cs = chars_of(string);
        let (namespace, second) = split_pieces(cs.as_slice());
        let thing = match second {
            Some(t) => t,
            None => {
                proof {
                    let k = choose|k: int| 0 <= k < string@.len() && string@[k] == ':';
                    lemma_no_colon_means_none(string@, k);
                }
                String::new()
            },
        };
        Self { namespace, thing }
    }

    /// The text `namespace:thing`.
    pub fn to_string(&self) -> (r: String)
        ensures
            r@ == spec_identifier_text(self.namespace@, self.thing@),
    {
        let mut s = self.namespace.clone();
        s.append(":");
        s.append(self.thing.as_str());
        proof {
            reveal_strlit(":");
        }
        assert(s@ =~= spec_identifier_text(self.namespace@, self.thing@));
        s
    }

    /// Reads an identifier written as a string from the start of `bytes`;
    /// the namespace defaults to `minecraft` when the text holds no `:`.
    pub fn decode(bytes: &[u8]) -> (r: Result<(Identifier, usize), StringDecodingError>)
        ensures
            match r {
                Ok((id, n)) => spec_decode_identifier(bytes@) == Ok::<
                    (Seq<char>, Seq<char>, nat),
                    StringDecodingError,
                >((id.namespace@, id.thing@, n as nat)),
                Err(e) => spec_decode_identifier(bytes@) == Err::<
                    (Seq<char>, Seq<char>, nat),
                    StringDecodingError,
                >(e),
            },
            r matches Ok((_, n)) ==> n <= bytes@.len(),
    {
        let (decoded_string, n) = match decode_string(bytes) {
            Ok(p) => p,
            Err(e) => return Err(e),
        };
        let cs = chars_of(decoded_string.as_str());
        let (first, second) = split_pieces(cs.as_slice());
        match second {
            Some(thing) => Ok((Identifier { namespace: first, thing }, n)),
            None => {
                assert(first@ == cs@);
                Ok((Identifier { namespace: "minecraft".to_owned(), thing: first }, n))
            },
        }
    }
}

/// An identifier whose namespace and path hold no `:` reads back as itself
/// from its wire bytes, whatever follows them, when its text has at most
/// `MAX_STRING_SIZE` bytes.
pub proof fn lemma_identifier_roundtrip(namespace: Seq<char>, thing: Seq<char>, rest: Seq<u8>)
    requires
        !namespace.contains(':'),
        !thing.contains(':'),
        vstd::utf8::encode_utf8(spec_identifier_text(namespace, thing)).len() <= MAX_STRING_SIZE,
    ensures
        spec_decode_identifier(spec_string_bytes(spec_identifier_text(namespace, thing)) + rest)
            == Ok::<(Seq<char>, Seq<char>, nat), StringDecodingError>(
            (
                namespace,
                thing,
                spec_string_bytes(spec_identifier_text(namespace, thing)).len(),
            ),
        ),
{
    let text = spec_identifier_text(namespace, thing);
    lemma_string_roundtrip(text, rest);
    let i = namespace.len() as int;
    assert(text[i] == ':');
    assert forall|j: int| 0 <= j < i implies text[j] != ':' by {
        assert(text[j] == namespace[j]);
    }
    lemma_first_index_found(text, ':', i);
    assert(text.take(i) =~= namespace);
    assert(text.skip(i + 1) =~= thing);
    lemma_first_index_absent(thing, ':');
}

proof fn lemma_no_colon_means_none(cs: Seq<char>, k: int)
    requires
        0 <= k < cs.len(),
        cs[k] == ':',
    ensures
        first_index_of(cs, ':') is Some,
    decreases k,
{
    if cs[0] != ':' {
        lemma_no_colon_means_none(cs.drop_first(), k - 1);
    }
}

impl EncodePacketField for Identifier {
    type Error = core::convert::Infallible;

    open spec fn spec_encoding(&self) -> Seq<u8> {
        spec_string_bytes(spec_identifier_text(self.namespace@, self.thing@))
    }

    fn encode(&self, bytes: &mut Vec<u8>) -> (r: Result<(), Self::Error>) {
        let string = self.to_string();
        let _ = string.encode(bytes);
        Ok(())
    }
}

impl Clone for Identifier {
    fn clone(&self) -> (r: Self)
        ensures
            r == *self,
    {
        Identifier { namespace: self.namespace.clone(), thing: self.thing.clone() }
    }
}

impl PartialEq for Identifier {
    fn eq(&self, other: &Self) -> (r: bool) {
        self.namespace == other.namespace && self.thing == other.thing
    }
}

impl PartialEqSpecImpl for Identifier {
    open spec fn obeys_eq_spec() -> bool {
        true
    }

    open spec fn eq_spec(&self, other: &Self) -> bool {
        self.namespace@ == other.namespace@ && self.thing@ == other.thing@
    }
}

impl Eq for Identifier {

}

} // verus!
