//! Strings made from bytes, and the std calls on strings that vstd leaves
//! without a contract.
use vstd::prelude::*;
use vstd::utf8::{decode_utf8, valid_utf8};

verus! {

/// `String::from_utf8` of std. Its documentation: the result is `Ok` exactly
/// when the bytes are valid UTF-8, and the string then holds the characters
/// that the bytes encode. The contract states this over vstd's definitions of
/// UTF-8.
#[verifier::external_body]
pub(crate) fn string_from_utf8(bytes: Vec<u8>) -> (r: Option<String>)
    ensures
        r is Some <==> valid_utf8(bytes@),
        r matches Some(s) ==> s@ == decode_utf8(bytes@),
{
    String::from_utf8(bytes).ok()
}

/// `String::push` of std: the character is appended.
#[verifier::external_body]
pub(crate) fn push_char(s: &mut String, c: char)
    ensures
        final(s)@ == old(s)@.push(c),
{
    s.push(c)
}

/// The characters of `s`, in order.
pub fn chars_of(s: &str) -> (r: Vec<char>)
    ensures
        r@ == s@,
{
    let mut out: Vec<char> = Vec::new();
    for c in it: s.chars()
        invariant
            out@ == it.seq().take(it.index() as int),
            it.seq() == s@,
    {
        out.push(c);
    }
    out
}

/// A string of the characters `cs`.
pub fn string_from_chars(cs: &[char]) -> (r: String)
    ensures
        r@ == cs@,
{
    let mut out = String::new();
    let mut i: usize = 0;
    while i < cs.len()
        invariant
            i <= cs@.len(),
            out@ == cs@.take(i as int),
        decreases cs@.len() - i,
    {
        push_char(&mut out, cs[i]);
        i = i + 1;
        assert(out@ =~= cs@.take(i as int));
    }
    assert(cs@.take(i as int) =~= cs@);
    out
}

/// The position of the first `c` in `cs`, if there is one.
pub open spec fn first_index_of<T>(cs: Seq<T>, c: T) -> Option<int>
    decreases cs.len(),
{
    if cs.len() == 0 {
        None
    } else if cs[0] == c {
        Some(0)
    } else {
        match first_index_of(cs.drop_first(), c) {
            Some(i) => Some(i + 1),
            None => None,
        }
    }
}

pub proof fn lemma_first_index_found<T>(cs: Seq<T>, c: T, i: int)
    requires
        0 <= i < cs.len(),
        cs[i] == c,
        forall|j: int| 0 <= j < i ==> cs[j] != c,
    ensures
        first_index_of(cs, c) == Some(i),
    decreases i,
{
    if i > 0 {
        lemma_first_index_found(cs.drop_first(), c, i - 1);
    }
}

pub proof fn lemma_first_index_absent<T>(cs: Seq<T>, c: T)
    requires
        forall|j: int| 0 <= j < cs.len() ==> cs[j] != c,
    ensures
        first_index_of(cs, c) == None::<int>,
    decreases cs.len(),
{
    if cs.len() > 0 {
        lemma_first_index_absent(cs.drop_first(), c);
    }
}

/// The position of the first `c` in `cs`, if any.
pub fn find_char(cs: &[char], c: char) -> (r: Option<usize>)
    ensures
        match r {
            Some(i) => first_index_of(cs@, c) == Some(i as int) && i < cs@.len(),
            None => first_index_of(cs@, c) == None::<int>,
        },
{
    let mut i: usize = 0;
    while i < cs.len()
        invariant
            i <= cs@.len(),
            forall|j: int| 0 <= j < i ==> cs@[j] != c,
        decreases cs@.len() - i,
    {
        if cs[i] == c {
            proof {
                lemma_first_index_found(cs@, c, i as int);
            }
            return Some(i);
        }
        i = i + 1;
    }
    proof {
        lemma_first_index_absent(cs@, c);
    }
    None
}


/// A found position lies inside the sequence.
pub proof fn lemma_first_index_in_range<T>(cs: Seq<T>, c: T)
    ensures
        first_index_of(cs, c) matches Some(i) ==> 0 <= i < cs.len() && cs[i] == c,
    decreases cs.len(),
{
    if cs.len() > 0 && cs[0] != c {
        lemma_first_index_in_range(cs.drop_first(), c);
    }
}

/// The pieces of `cs` between the occurrences of `sep`: one more piece than
/// there are separators.
pub open spec fn spec_split(cs: Seq<char>, sep: char) -> Seq<Seq<char>>
    decreases cs.len(),
{
    match first_index_of(cs, sep) {
        None => seq![cs],
        Some(i) => {
            proof {
                lemma_first_index_in_range(cs, sep);
            }
            seq![cs.take(i)] + spec_split(cs.skip(i + 1), sep)
        },
    }
}

/// The views of a list of character vectors.
pub open spec fn char_vec_views(p: Seq<Vec<char>>) -> Seq<Seq<char>> {
    p.map_values(|v: Vec<char>| v@)
}

/// The pieces of `cs` between the occurrences of `sep`.
pub fn split_chars(cs: &[char], sep: char) -> (r: Vec<Vec<char>>)
    ensures
        char_vec_views(r@) == spec_split(cs@, sep),
{
    let mut pieces: Vec<Vec<char>> = Vec::new();
    let mut start: usize = 0;
    let len = cs.len();
    assert(cs@.skip(0) =~= cs@);
    assert(char_vec_views(pieces@) =~= Seq::<Seq<char>>::empty());
    loop
        invariant
            start <= len == cs@.len(),
            spec_split(cs@, sep) == char_vec_views(pieces@) + spec_split(cs@.skip(start as int), sep),
        decreases len - start,
    {
        let rest = &cs[start..len];
        assert(rest@ == cs@.skip(start as int));
        match find_char(rest, sep) {
            None => {
                let ghost before = pieces@;
                pieces.push(vstd::slice::slice_to_vec(rest));
                assert(char_vec_views(pieces@) =~= char_vec_views(before).push(rest@));
                assert(char_vec_views(pieces@) =~= char_vec_views(before) + spec_split(rest@, sep));
                return pieces;
            },
            Some(i) => {
                let ghost before = pieces@;
                pieces.push(vstd::slice::slice_to_vec(&rest[0..i]));
                assert(cs@.skip(start as int).skip(i + 1) =~= cs@.skip(start + i + 1));
                assert(rest@.take(i as int) =~= rest@.subrange(0, i as int));
                assert(char_vec_views(pieces@) =~= char_vec_views(before).push(rest@.take(i as int)));
                start = start + i + 1;
            },
        }
    }
}

/// `cs` with every `from` replaced by `to`.
pub open spec fn spec_replace_char(cs: Seq<char>, from: char, to: char) -> Seq<char> {
    cs.map_values(|c: char| if c == from { to } else { c })
}

/// `cs` with every `from` replaced by `to`.
pub fn replace_char(cs: &[char], from: char, to: char) -> (r: Vec<char>)
    ensures
        r@ == spec_replace_char(cs@, from, to),
{
    let mut out: Vec<char> = Vec::new();
    let mut i: usize = 0;
    while i < cs.len()
        invariant
            i <= cs@.len(),
            out@ == spec_replace_char(cs@.take(i as int), from, to),
        decreases cs@.len() - i,
    {
        let c = if cs[i] == from {
            to
        } else {
            cs[i]
        };
        out.push(c);
        i = i + 1;
        assert(out@ =~= spec_replace_char(cs@.take(i as int), from, to));
    }
    assert(cs@.take(i as int) =~= cs@);
    out
}
/// The position of the first `b` in `bs`, if any.
pub fn find_byte(bs: &[u8], b: u8) -> (r: Option<usize>)
    ensures
        match r {
            Some(i) => first_index_of(bs@, b) == Some(i as int) && i < bs@.len(),
            None => first_index_of(bs@, b) == None::<int>,
        },
{
    let mut i: usize = 0;
    while i < bs.len()
        invariant
            i <= bs@.len(),
            forall|j: int| 0 <= j < i ==> bs@[j] != b,
        decreases bs@.len() - i,
    {
        if bs[i] == b {
            proof {
                lemma_first_index_found(bs@, b, i as int);
            }
            return Some(i);
        }
        i = i + 1;
    }
    proof {
        lemma_first_index_absent(bs@, b);
    }
    None
}

} // verus!
