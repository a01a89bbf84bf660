//! Expanding `${NAME}` placeholders in configuration text with values of
//! environment variables; `\${NAME}` stands for a literal `${NAME}`.
use crate::text::string_from_utf8;
use vstd::prelude::*;
use vstd::utf8::{decode_utf8, encode_utf8, is_char_boundary, is_continuation_byte, valid_utf8};

verus! {

broadcast use {vstd::utf8::encode_utf8_valid_utf8, vstd::utf8::encode_utf8_decode_utf8};

/// The placeholders: an optional backslash (group 1), then `${`, a name of
/// letters, digits and `_` not starting with a digit (group 2), and `}`.
pub const PLACEHOLDER_PATTERN: &'static str = "(\\\\)?\\$\\{([A-Za-z_][A-Za-z0-9_]*)\\}";

/// What the `regex` crate finds of `pattern` in `haystack`: for each match,
/// in order, the byte span of each capture group that took part (group 0
/// is the whole match); `None` when it refuses the pattern.
pub uninterp spec fn regex_capture_spans(pattern: Seq<char>, haystack: Seq<char>) -> Option<
    Seq<Seq<Option<(usize, usize)>>>,
>;

/// A span that can slice the bytes: in order, in range, on boundaries.
pub open spec fn span_ok(bytes: Seq<u8>, sp: (usize, usize)) -> bool {
    sp.0 <= sp.1 <= bytes.len() && is_char_boundary(bytes, sp.0 as int) && is_char_boundary(
        bytes,
        sp.1 as int,
    )
}

/// The whole match of a capture list.
pub open spec fn whole(m: Seq<Option<(usize, usize)>>) -> (usize, usize) {
    m[0]->Some_0
}

/// What the `regex` crate's documentation promises of the matches: every
/// match has its group 0, every span slices the haystack, and the matches
/// follow each other without overlapping.
pub open spec fn captures_well_formed(bytes: Seq<u8>, ms: Seq<Seq<Option<(usize, usize)>>>) -> bool {
    &&& forall|i: int| 0 <= i < ms.len() ==> #[trigger] ms[i].len() >= 1 && ms[i][0] is Some
    &&& forall|i: int, g: int|
        0 <= i < ms.len() && 0 <= g < ms[i].len() && #[trigger] ms[i][g] is Some ==> span_ok(
            bytes,
            ms[i][g]->Some_0,
        )
    &&& forall|i: int|
        0 <= i < ms.len() - 1 ==> whole(#[trigger] ms[i]).1 <= whole(ms[i + 1]).0
}

/// The capture lists of the matches as plain sequences.
pub open spec fn capture_views(ms: Seq<Vec<Option<(usize, usize)>>>) -> Seq<
    Seq<Option<(usize, usize)>>,
> {
    ms.map_values(|m: Vec<Option<(usize, usize)>>| m@)
}

/// `Regex::new` of the `regex` crate on `pattern`, then `captures_iter` on
/// `haystack`, each match given as the `(start, end)` byte offsets of its
/// groups (`Captures::iter`, `Match::start`, `Match::end`); `None` where
/// `Regex::new` returns an error. The matches are named, not stated; the
/// contract states what the crate documents of them: group 0 always takes
/// part, `start <= end`, offsets fall on character boundaries of the
/// haystack, and successive matches do not overlap.
#[verifier::external_body]
fn regex_captures(pattern: &str, haystack: &str) -> (r: Option<Vec<Vec<Option<(usize, usize)>>>>)
    ensures
        match r {
            Some(ms) => regex_capture_spans(pattern@, haystack@) == Some(capture_views(ms@))
                && captures_well_formed(encode_utf8(haystack@), capture_views(ms@)),
            None => regex_capture_spans(pattern@, haystack@) is None,
        },
{
    regex::Regex::new(pattern).ok().map(
        |re|
            re.captures_iter(haystack).map(
                |caps| caps.iter().map(|m| m.map(|m| (m.start(), m.end()))).collect(),
            ).collect(),
    )
}

/// Why configuration text could not be expanded.
#[derive(Debug, PartialEq, Eq)]
pub enum ConfigError {
    /// A placeholder names an environment variable that is not set.
    MissingEnvVar(String),
    /// The placeholder pattern was refused.
    InvalidPattern,
}

/// The span of group `g`, if the group took part.
pub open spec fn group(m: Seq<Option<(usize, usize)>>, g: int) -> Option<(usize, usize)> {
    if 0 <= g < m.len() {
        m[g]
    } else {
        None
    }
}

/// Whether the placeholder is escaped by a backslash.
pub open spec fn is_escaped(m: Seq<Option<(usize, usize)>>) -> bool {
    group(m, 1) is Some
}

/// The bytes of the placeholder's name.
pub open spec fn name_bytes(bytes: Seq<u8>, m: Seq<Option<(usize, usize)>>) -> Seq<u8> {
    match group(m, 2) {
        Some(sp) => bytes.subrange(sp.0 as int, sp.1 as int),
        None => Seq::empty(),
    }
}

/// The value of the first variable named `name`, if any.
pub open spec fn env_lookup(env: Seq<(Seq<char>, Seq<char>)>, name: Seq<char>) -> Option<Seq<char>>
    decreases env.len(),
{
    if env.len() == 0 {
        None
    } else if env[0].0 == name {
        Some(env[0].1)
    } else {
        env_lookup(env.drop_first(), name)
    }
}

/// The name of the first placeholder, in order, that is not escaped and
/// whose variable is not set.
pub open spec fn first_missing(
    bytes: Seq<u8>,
    ms: Seq<Seq<Option<(usize, usize)>>>,
    env: Seq<(Seq<char>, Seq<char>)>,
) -> Option<Seq<char>>
    decreases ms.len(),
{
    if ms.len() == 0 {
        None
    } else if !is_escaped(ms[0]) && env_lookup(env, decode_utf8(name_bytes(bytes, ms[0]))) is None {
        Some(decode_utf8(name_bytes(bytes, ms[0])))
    } else {
        first_missing(bytes, ms.drop_first(), env)
    }
}

/// What a placeholder is replaced by: `${NAME}` when escaped, else the
/// variable's value.
pub open spec fn replacement(
    bytes: Seq<u8>,
    m: Seq<Option<(usize, usize)>>,
    env: Seq<(Seq<char>, Seq<char>)>,
) -> Seq<u8> {
    if is_escaped(m) {
        encode_utf8("${"@) + name_bytes(bytes, m) + encode_utf8("}"@)
    } else {
        match env_lookup(env, decode_utf8(name_bytes(bytes, m))) {
            Some(v) => encode_utf8(v),
            None => Seq::empty(),
        }
    }
}

/// Where the text after the `k`-th match begins: the end of the match
/// before it, or the start.
pub open spec fn gap_start(ms: Seq<Seq<Option<(usize, usize)>>>, k: int) -> int {
    if k == 0 {
        0
    } else {
        whole(ms[k - 1]).1 as int
    }
}

/// The bytes of the expansion up to the end of the `k`-th match: the text
/// before each match, then its replacement.
pub open spec fn expanded_prefix(
    bytes: Seq<u8>,
    ms: Seq<Seq<Option<(usize, usize)>>>,
    env: Seq<(Seq<char>, Seq<char>)>,
    k: nat,
) -> Seq<u8>
    decreases k,
{
    if k == 0 {
        Seq::empty()
    } else {
        let i = k - 1;
        expanded_prefix(bytes, ms, env, i as nat) + bytes.subrange(
            gap_start(ms, i),
            whole(ms[i]).0 as int,
        ) + replacement(bytes, ms[i], env)
    }
}

/// The expansion of the text with bytes `bytes` and matches `ms`: the name
/// of the first unset variable, or the bytes of the text with every
/// placeholder replaced.
pub open spec fn spec_expand(
    bytes: Seq<u8>,
    ms: Seq<Seq<Option<(usize, usize)>>>,
    env: Seq<(Seq<char>, Seq<char>)>,
) -> Result<Seq<u8>, Seq<char>> {
    match first_missing(bytes, ms, env) {
        Some(name) => Err(name),
        None => Ok(
            expanded_prefix(bytes, ms, env, ms.len()) + bytes.subrange(
                gap_start(ms, ms.len() as int),
                bytes.len() as int,
            ),
        ),
    }
}

/// The environment as plain sequences.
pub open spec fn env_views(env: Seq<(String, String)>) -> Seq<(Seq<char>, Seq<char>)> {
    env.map_values(|e: (String, String)| (e.0@, e.1@))
}

/// A slice of valid UTF-8 between two character boundaries is valid UTF-8.
proof fn lemma_valid_subrange(b: Seq<u8>, s: int, e: int)
    requires
        valid_utf8(b),
        0 <= s <= e <= b.len(),
        is_char_boundary(b, s),
        is_char_boundary(b, e),
    ensures
        valid_utf8(b.subrange(s, e)),
{
    vstd::utf8::valid_utf8_split(b, s);
    let t = b.subrange(s, b.len() as int);
    vstd::utf8::is_char_boundary_start_end_of_seq(t);
    if e < b.len() {
        vstd::utf8::is_char_boundary_iff_not_is_continuation_byte(b, e);
        assert(t[e - s] == b[e]);
        vstd::utf8::is_char_boundary_iff_not_is_continuation_byte(t, e - s);
    } else {
        assert(t.len() == e - s);
    }
    vstd::utf8::valid_utf8_split(t, e - s);
    assert(t.subrange(0, e - s) =~= b.subrange(s, e));
}

/// The value of the variable named `name`, if set.
fn lookup(env: &[(String, String)], name: &String) -> (r: Option<String>)
    ensures
        match r {
            Some(v) => env_lookup(env_views(env@), name@) == Some(v@),
            None => env_lookup(env_views(env@), name@) is None,
        },
{
    let ghost views = env_views(env@);
    assert(views.skip(0) =~= views);
    let mut i: usize = 0;
    while i < env.len()
        invariant
            i <= env@.len(),
            views == env_views(env@),
            views.len() == env@.len(),
            env_lookup(views, name@) == env_lookup(views.skip(i as int), name@),
        decreases env@.len() - i,
    {
        assert(views.skip(i as int).drop_first() =~= views.skip(i + 1));
        assert(views.skip(i as int)[0] == (env@[i as int].0@, env@[i as int].1@));
        if env[i].0 == *name {
            return Some(env[i].1.clone());
        }
        i = i + 1;
    }
    None
}

/// The characters of the placeholder's name.
fn name_of(input: &str, m: &Vec<Option<(usize, usize)>>) -> (r: String)
    requires
        m@.len() >= 1,
        forall|g: int| 0 <= g < m@.len() && #[trigger] m@[g] is Some ==> span_ok(
            encode_utf8(input@),
            m@[g]->Some_0,
        ),
    ensures
        r@ == decode_utf8(name_bytes(encode_utf8(input@), m@)),
        valid_utf8(name_bytes(encode_utf8(input@), m@)),
{
    let bytes = input.as_bytes();
    if m.len() > 2 {
        if let Some((s, e)) = m[2] {
            proof {
                assert(m@[2] is Some);
                lemma_valid_subrange(encode_utf8(input@), s as int, e as int);
            }
            let piece = vstd::slice::slice_to_vec(&bytes[s..e]);
            match string_from_utf8(piece) {
                Some(name) => return name,
                None => {
                    assert(false);
                    return String::new();
                },
            }
        }
    }
    assert(name_bytes(encode_utf8(input@), m@) =~= Seq::<u8>::empty());
    assert(decode_utf8(Seq::<u8>::empty()) =~= Seq::<char>::empty());
    String::new()
}

/// Appends the text from `cursor` up to the match `m`, then the match's
/// replacement; gives the end of the match.
fn append_match(
    out: &mut Vec<u8>,
    input: &str,
    m: &Vec<Option<(usize, usize)>>,
    cursor: usize,
    env: &[(String, String)],
) -> (end: usize)
    requires
        valid_utf8(old(out)@),
        m@.len() >= 1,
        m@[0] is Some,
        forall|g: int| 0 <= g < m@.len() && #[trigger] m@[g] is Some ==> span_ok(
            encode_utf8(input@),
            m@[g]->Some_0,
        ),
        cursor <= whole(m@).0,
        is_char_boundary(encode_utf8(input@), cursor as int),
        !is_escaped(m@) ==> env_lookup(
            env_views(env@),
            decode_utf8(name_bytes(encode_utf8(input@), m@)),
        ) is Some,
    ensures
        final(out)@ == old(out)@ + encode_utf8(input@).subrange(cursor as int, whole(m@).0 as int)
            + replacement(encode_utf8(input@), m@, env_views(env@)),
        valid_utf8(final(out)@),
        end == whole(m@).1,
        end <= encode_utf8(input@).len(),
        is_char_boundary(encode_utf8(input@), end as int),
{
    let ghost b = encode_utf8(input@);
    let ghost ev = env_views(env@);
    let bytes = input.as_bytes();
    let (start, end) = match m[0] {
        Some(sp) => sp,
        None => {
            assert(false);
            (0, 0)
        },
    };
    assert(span_ok(b, m@[0]->Some_0));
    proof {
        lemma_valid_subrange(b, cursor as int, start as int);
        vstd::utf8::valid_utf8_concat(out@, b.subrange(cursor as int, start as int));
    }
    let ghost pre = out@;
    out.extend_from_slice(&bytes[cursor..start]);
    let ghost with_gap = out@;
    assert(with_gap =~= pre + b.subrange(cursor as int, start as int));
    let escaped = m.len() > 1 && m[1].is_some();
    assert(escaped == is_escaped(m@));
    let name = name_of(input, m);
    if escaped {
        out.extend_from_slice("${".as_bytes());
        proof {
            vstd::utf8::decode_utf8_encode_utf8(name_bytes(b, m@));
        }
        out.extend_from_slice(name.as_str().as_bytes());
        out.extend_from_slice("}".as_bytes());
        proof {
            vstd::utf8::valid_utf8_concat(encode_utf8("${"@), name_bytes(b, m@));
            vstd::utf8::valid_utf8_concat(
                encode_utf8("${"@) + name_bytes(b, m@),
                encode_utf8("}"@),
            );
        }
    } else {
        match lookup(env, &name) {
            Some(v) => {
                assert(replacement(b, m@, ev) == encode_utf8(v@));
                out.extend_from_slice(v.as_str().as_bytes());
            },
            None => {
                assert(false);
            },
        }
    }
    proof {
        assert(out@ =~= with_gap + replacement(b, m@, ev));
        vstd::utf8::valid_utf8_concat(with_gap, replacement(b, m@, ev));
    }
    end
}

/// Expands the placeholders of `input` found at `captures` (the matches of
/// `PLACEHOLDER_PATTERN`), taking values from `env`: fails with the name of
/// the first unescaped placeholder whose variable is not set; otherwise
/// gives the text with every placeholder replaced.
pub fn expand_with_captures(
    input: &str,
    captures: &Vec<Vec<Option<(usize, usize)>>>,
    env: &[(String, String)],
) -> (r: Result<String, ConfigError>)
    requires
        captures_well_formed(encode_utf8(input@), capture_views(captures@)),
    ensures
        match r {
            Ok(s) => spec_expand(encode_utf8(input@), capture_views(captures@), env_views(env@))
                == Ok::<Seq<u8>, Seq<char>>(encode_utf8(s@)),
            Err(ConfigError::MissingEnvVar(name)) => spec_expand(
                encode_utf8(input@),
                capture_views(captures@),
                env_views(env@),
            ) == Err::<Seq<u8>, Seq<char>>(name@),
            Err(ConfigError::InvalidPattern) => false,
        },
{
    let ghost b = encode_utf8(input@);
    let ghost ms = capture_views(captures@);
    let ghost ev = env_views(env@);
    let n = captures.len();
    assert(ms.len() == n);
    assert(ms.skip(0) =~= ms);
    let mut k: usize = 0;
    while k < n
        invariant
            k <= n,
            n == captures@.len(),
            ms == capture_views(captures@),
            ms.len() == n,
            b == encode_utf8(input@),
            ev == env_views(env@),
            captures_well_formed(b, ms),
            first_missing(b, ms, ev) == first_missing(b, ms.skip(k as int), ev),
        decreases n - k,
    {
        let m = &captures[k];
        assert(ms[k as int] == m@);
        assert(ms.skip(k as int).drop_first() =~= ms.skip(k + 1));
        assert(ms.skip(k as int)[0] == m@);
        assert(ms[k as int].len() >= 1);
        let escaped = m.len() > 1 && m[1].is_some();
        assert(escaped == is_escaped(m@));
        if !escaped {
            let name = name_of(input, m);
            if lookup(env, &name).is_none() {
                return Err(ConfigError::MissingEnvVar(name));
            }
        }
        k = k + 1;
    }
    assert(first_missing(b, ms.skip(n as int), ev) is None);
    let bytes = input.as_bytes();
    let mut out: Vec<u8> = Vec::new();
    let mut cursor: usize = 0;
    let mut k: usize = 0;
    while k < n
        invariant
            k <= n,
            n == captures@.len(),
            ms == capture_views(captures@),
            ms.len() == n,
            b == encode_utf8(input@),
            bytes@ == b,
            ev == env_views(env@),
            captures_well_formed(b, ms),
            first_missing(b, ms, ev) is None,
            cursor == gap_start(ms, k as int),
            cursor <= b.len(),
            is_char_boundary(b, cursor as int),
            out@ == expanded_prefix(b, ms, ev, k as nat),
            valid_utf8(out@),
        decreases n - k,
    {
        let m = &captures[k];
        assert(ms[k as int] == m@);
        proof {
            lemma_first_missing_none_skip(b, ms, ev, k as int);
            assert(ms.skip(k as int)[0] == m@);
            if k > 0 {
                assert(whole(ms[k - 1]).1 <= whole(ms[k as int]).0);
            }
            assert(m@.len() >= 1 && m@[0] is Some);
            assert forall|g: int| 0 <= g < m@.len() && #[trigger] m@[g] is Some implies span_ok(
                b,
                m@[g]->Some_0,
            ) by {
                assert(ms[k as int][g] == m@[g]);
            }
        }
        let end = append_match(&mut out, input, m, cursor, env);
        proof {
            assert(out@ =~= expanded_prefix(b, ms, ev, (k + 1) as nat));
        }
        cursor = end;
        k = k + 1;
    }
    let ghost prefix = out@;
    proof {
        vstd::utf8::is_char_boundary_start_end_of_seq(b);
        lemma_valid_subrange(b, cursor as int, b.len() as int);
        vstd::utf8::valid_utf8_concat(prefix, b.subrange(cursor as int, b.len() as int));
    }
    out.extend_from_slice(&bytes[cursor..bytes.len()]);
    assert(out@ =~= prefix + b.subrange(cursor as int, b.len() as int));
    assert(valid_utf8(out@));
    match string_from_utf8(out) {
        Some(s) => {
            proof {
                vstd::utf8::decode_utf8_encode_utf8(
                    expanded_prefix(b, ms, ev, n as nat) + b.subrange(cursor as int, b.len() as int),
                );
            }
            Ok(s)
        },
        None => {
            assert(false);
            Err(ConfigError::InvalidPattern)
        },
    }
}

/// No unset variable among all the placeholders means none among those
/// from the `k`-th on.
proof fn lemma_first_missing_none_skip(
    b: Seq<u8>,
    ms: Seq<Seq<Option<(usize, usize)>>>,
    ev: Seq<(Seq<char>, Seq<char>)>,
    k: int,
)
    requires
        0 <= k <= ms.len(),
        first_missing(b, ms, ev) is None,
    ensures
        first_missing(b, ms.skip(k), ev) is None,
    decreases k,
{
    if k > 0 {
        lemma_first_missing_none_skip(b, ms, ev, k - 1);
        assert(ms.skip(k - 1).drop_first() =~= ms.skip(k));
    } else {
        assert(ms.skip(0) =~= ms);
    }
}

/// Expands the `${NAME}` placeholders of `input` with the values in `env`;
/// `\${NAME}` becomes a literal `${NAME}`. Fails with the name of the
/// first unescaped placeholder whose variable is not set.
pub fn expand_env_placeholders(input: &str, env: &[(String, String)]) -> (r: Result<
    String,
    ConfigError,
>)
    ensures
        match regex_capture_spans(PLACEHOLDER_PATTERN@, input@) {
            None => r == Err::<String, ConfigError>(ConfigError::InvalidPattern),
            Some(ms) => match r {
                Ok(s) => spec_expand(encode_utf8(input@), ms, env_views(env@)) == Ok::<
                    Seq<u8>,
                    Seq<char>,
                >(encode_utf8(s@)),
                Err(ConfigError::MissingEnvVar(name)) => spec_expand(
                    encode_utf8(input@),
                    ms,
                    env_views(env@),
                ) == Err::<Seq<u8>, Seq<char>>(name@),
                Err(ConfigError::InvalidPattern) => false,
            },
        },
{
    match regex_captures(PLACEHOLDER_PATTERN, input) {
        Some(captures) => expand_with_captures(input, &captures, env),
        None => Err(ConfigError::InvalidPattern),
    }
}

/// The names of the unescaped placeholders of `input`, in order: the
/// variables whose values the expansion needs.
pub fn placeholder_names(input: &str) -> (r: Vec<String>)
    ensures
        match regex_capture_spans(PLACEHOLDER_PATTERN@, input@) {
            None => r@.len() == 0,
            Some(ms) => r@.map_values(|s: String| s@) == unescaped_names(
                encode_utf8(input@),
                ms,
            ),
        },
{
    let captures = match regex_captures(PLACEHOLDER_PATTERN, input) {
        Some(c) => c,
        None => return Vec::new(),
    };
    let ghost b = encode_utf8(input@);
    let ghost ms = capture_views(captures@);
    let mut names: Vec<String> = Vec::new();
    let mut k: usize = 0;
    while k < captures.len()
        invariant
            k <= captures@.len(),
            ms == capture_views(captures@),
            ms.len() == captures@.len(),
            b == encode_utf8(input@),
            captures_well_formed(b, ms),
            names@.map_values(|s: String| s@) == unescaped_names(b, ms.take(k as int)),
        decreases captures@.len() - k,
    {
        let m = &captures[k];
        assert(ms[k as int] == m@);
        assert(ms.take(k + 1).drop_last() =~= ms.take(k as int));
        assert(ms.take(k + 1).last() == m@);
        let escaped = m.len() > 1 && m[1].is_some();
        if !escaped {
            let name = name_of(input, m);
            let ghost before = names@;
            names.push(name);
            assert(names@.map_values(|s: String| s@) =~= before.map_values(|s: String| s@).push(
                decode_utf8(name_bytes(b, m@)),
            ));
        }
        k = k + 1;
    }
    assert(ms.take(k as int) =~= ms);
    names
}

/// The names of the unescaped placeholders, in order.
pub open spec fn unescaped_names(bytes: Seq<u8>, ms: Seq<Seq<Option<(usize, usize)>>>) -> Seq<
    Seq<char>,
>
    decreases ms.len(),
{
    if ms.len() == 0 {
        Seq::empty()
    } else if is_escaped(ms.last()) {
        unescaped_names(bytes, ms.drop_last())
    } else {
        unescaped_names(bytes, ms.drop_last()).push(decode_utf8(name_bytes(bytes, ms.last())))
    }
}

} // verus!
