//! Chat commands: splitting a command line into words and recognising
//! `spawn`, `fly` and `flyspeed`.
use crate::text::{chars_of, string_from_chars};
use vstd::prelude::*;

verus! {

/// Whether `c` has the Unicode `White_Space` property, as `char::is_whitespace`
/// documents it.
pub open spec fn spec_is_whitespace(c: char) -> bool {
    let u = c as u32;
    (0x09 <= u <= 0x0D) || u == 0x20 || u == 0x85 || u == 0xA0 || u == 0x1680 || (0x2000 <= u
        <= 0x200A) || u == 0x2028 || u == 0x2029 || u == 0x202F || u == 0x205F || u == 0x3000
}

/// Whether `c` is white space.
pub fn is_whitespace(c: char) -> (r: bool)
    ensures
        r == spec_is_whitespace(c),
{
    let u = c as u32;
    (0x09 <= u && u <= 0x0D) || u == 0x20 || u == 0x85 || u == 0xA0 || u == 0x1680 || (0x2000 <= u
        && u <= 0x200A) || u == 0x2028 || u == 0x2029 || u == 0x202F || u == 0x205F || u == 0x3000
}

/// `cs` without its leading white space.
pub open spec fn skip_whitespace(cs: Seq<char>) -> Seq<char>
    decreases cs.len(),
{
    if cs.len() > 0 && spec_is_whitespace(cs[0]) {
        skip_whitespace(cs.drop_first())
    } else {
        cs
    }
}

/// The length of the run of characters other than white space that starts `cs`.
pub open spec fn word_len(cs: Seq<char>) -> nat
    decreases cs.len(),
{
    if cs.len() > 0 && !spec_is_whitespace(cs[0]) {
        1 + word_len(cs.drop_first())
    } else {
        0
    }
}

pub proof fn lemma_skip_whitespace(cs: Seq<char>)
    ensures
        skip_whitespace(cs).len() <= cs.len(),
        skip_whitespace(cs).len() > 0 ==> !spec_is_whitespace(skip_whitespace(cs)[0]),
        exists|i: int| 0 <= i <= cs.len() && skip_whitespace(cs) == cs.skip(i),
    decreases cs.len(),
{
    if cs.len() > 0 && spec_is_whitespace(cs[0]) {
        lemma_skip_whitespace(cs.drop_first());
        let i = choose|i: int|
            0 <= i <= cs.drop_first().len() && skip_whitespace(cs.drop_first())
                == cs.drop_first().skip(i);
        assert(cs.drop_first().skip(i) =~= cs.skip(i + 1));
    } else {
        assert(cs.skip(0) =~= cs);
    }
}

pub proof fn lemma_word_len(cs: Seq<char>)
    ensures
        word_len(cs) <= cs.len(),
        cs.len() > 0 && !spec_is_whitespace(cs[0]) ==> word_len(cs) >= 1,
    decreases cs.len(),
{
    if cs.len() > 0 && !spec_is_whitespace(cs[0]) {
        lemma_word_len(cs.drop_first());
    }
}

/// The words of `cs`: its maximal runs of characters other than white
/// space, in order, as `str::split_whitespace` gives them.
pub open spec fn spec_words(cs: Seq<char>) -> Seq<Seq<char>>
    decreases cs.len(),
{
    let t = skip_whitespace(cs);
    if t.len() == 0 {
        Seq::empty()
    } else {
        proof {
            lemma_skip_whitespace(cs);
            lemma_word_len(t);
        }
        seq![t.take(word_len(t) as int)] + spec_words(t.skip(word_len(t) as int))
    }
}

/// Skipping white space from `i` reaches `j`.
proof fn lemma_skip_step(cs: Seq<char>, i: int)
    requires
        0 <= i < cs.len(),
        spec_is_whitespace(cs[i]),
    ensures
        skip_whitespace(cs.skip(i)) == skip_whitespace(cs.skip(i + 1)),
{
    assert(cs.skip(i).drop_first() =~= cs.skip(i + 1));
}

proof fn lemma_word_step(cs: Seq<char>, i: int)
    requires
        0 <= i < cs.len(),
        !spec_is_whitespace(cs[i]),
    ensures
        word_len(cs.skip(i)) == 1 + word_len(cs.skip(i + 1)),
{
    assert(cs.skip(i).drop_first() =~= cs.skip(i + 1));
}

/// The words of `cs`, in order.
pub fn split_whitespace(cs: &[char]) -> (r: Vec<Vec<char>>)
    ensures
        r@.map_values(|w: Vec<char>| w@) == spec_words(cs@),
{
    let n = cs.len();
    let mut words: Vec<Vec<char>> = Vec::new();
    let mut i: usize = 0;
    assert(cs@.skip(0) =~= cs@);
    while i < n
        invariant
            n == cs@.len(),
            i <= n,
            words@.map_values(|w: Vec<char>| w@) + spec_words(cs@.skip(i as int)) == spec_words(
                cs@,
            ),
        decreases n - i,
    {
        let mut j: usize = i;
        while j < n && is_whitespace(cs[j])
            invariant
                n == cs@.len(),
                i <= j <= n,
                skip_whitespace(cs@.skip(i as int)) == skip_whitespace(cs@.skip(j as int)),
            decreases n - j,
        {
            proof {
                lemma_skip_step(cs@, j as int);
            }
            j = j + 1;
        }
        if j == n {
            assert(skip_whitespace(cs@.skip(j as int)).len() == 0);
            assert(spec_words(cs@.skip(i as int)) =~= Seq::<Seq<char>>::empty());
            assert(spec_words(cs@.skip(n as int)) =~= Seq::<Seq<char>>::empty());
            i = n;
        } else {
            assert(skip_whitespace(cs@.skip(j as int)) == cs@.skip(j as int));
            let mut k: usize = j;
            while k < n && !is_whitespace(cs[k])
                invariant
                    n == cs@.len(),
                    j <= k <= n,
                    word_len(cs@.skip(j as int)) == (k - j) + word_len(cs@.skip(k as int)),
                decreases n - k,
            {
                proof {
                    lemma_word_step(cs@, k as int);
                }
                k = k + 1;
            }
            assert(word_len(cs@.skip(k as int)) == 0);
            let word = vstd::slice::slice_to_vec(&cs[j..k]);
            let ghost t = cs@.skip(j as int);
            proof {
                assert(t.take((k - j) as int) =~= word@);
                assert(t.skip((k - j) as int) =~= cs@.skip(k as int));
                assert(spec_words(cs@.skip(i as int)) == seq![word@] + spec_words(
                    cs@.skip(k as int),
                ));
            }
            let ghost before = words@;
            words.push(word);
            proof {
                assert(words@.map_values(|w: Vec<char>| w@) =~= before.map_values(
                    |w: Vec<char>| w@,
                ).push(word@));
                assert(words@.map_values(|w: Vec<char>| w@) + spec_words(cs@.skip(k as int))
                    =~= before.map_values(|w: Vec<char>| w@) + (seq![word@] + spec_words(
                    cs@.skip(k as int),
                )));
            }
            i = k;
        }
    }
    assert(spec_words(cs@.skip(n as int)) =~= Seq::<Seq<char>>::empty()) by {
        assert(cs@.skip(n as int).len() == 0);
    }
    assert(words@.map_values(|w: Vec<char>| w@) =~= spec_words(cs@));
    words
}

/// Why a command line was not understood.
#[derive(Debug, PartialEq, Eq, Structural)]
pub enum ParseCommandError {
    /// The line holds no word.
    Empty,
    /// The first word names no command.
    Unknown,
    /// The speed given to `flyspeed` is not a number (found by the caller
    /// that reads the number).
    InvalidSpeed,
}

/// A recognised command. The speed of `flyspeed` stays text: the caller
/// reads it as a float and clamps it to `0..=1`.
#[derive(Debug)]
pub enum Command {
    Spawn,
    Fly,
    FlySpeed(String),
}

/// The mathematical view of a command.
pub enum CommandView {
    Spawn,
    Fly,
    FlySpeed(Seq<char>),
}

impl View for Command {
    type V = CommandView;

    open spec fn view(&self) -> CommandView {
        match self {
            Command::Spawn => CommandView::Spawn,
            Command::Fly => CommandView::Fly,
            Command::FlySpeed(s) => CommandView::FlySpeed(s@),
        }
    }
}

/// The command that a line names: its first word picks it, and `flyspeed`
/// takes its second word as the speed, `0.5` when there is none.
pub open spec fn spec_parse_command(line: Seq<char>) -> Result<CommandView, ParseCommandError> {
    let words = spec_words(line);
    if words.len() == 0 {
        Err(ParseCommandError::Empty)
    } else if words[0] == "spawn"@ {
        Ok(CommandView::Spawn)
    } else if words[0] == "fly"@ {
        Ok(CommandView::Fly)
    } else if words[0] == "flyspeed"@ {
        Ok(
            CommandView::FlySpeed(
                if words.len() > 1 {
                    words[1]
                } else {
                    "0.5"@
                },
            ),
        )
    } else {
        Err(ParseCommandError::Unknown)
    }
}

/// Whether two character sequences are equal.
fn chars_equal(a: &[char], b: &[char]) -> (r: bool)
    ensures
        r == (a@ == b@),
{
    if a.len() != b.len() {
        return false;
    }
    let mut i: usize = 0;
    while i < a.len()
        invariant
            i <= a@.len(),
            a@.len() == b@.len(),
            forall|j: int| 0 <= j < i ==> a@[j] == b@[j],
        decreases a@.len() - i,
    {
        if a[i] != b[i] {
            return false;
        }
        i = i + 1;
    }
    assert(a@ =~= b@);
    true
}

impl Command {
    /// Reads a command line (without its leading `/`).
    pub fn parse(input: &str) -> (r: Result<Command, ParseCommandError>)
        ensures
            match r {
                Ok(c) => spec_parse_command(input@) == Ok::<CommandView, ParseCommandError>(c@),
                Err(e) => spec_parse_command(input@) == Err::<CommandView, ParseCommandError>(e),
            },
    {
        proof {
            reveal_strlit("spawn");
            reveal_strlit("fly");
            reveal_strlit("flyspeed");
            reveal_strlit("0.5");
        }
        let cs = chars_of(input);
        let words = split_whitespace(cs.as_slice());
        proof {
            assert(words@.map_values(|w: Vec<char>| w@).len() == words@.len());
        }
        if words.len() == 0 {
            return Err(ParseCommandError::Empty);
        }
        let cmd = words[0].as_slice();
        assert(cmd@ == spec_words(input@)[0]) by {
            assert(words@.map_values(|w: Vec<char>| w@)[0] == words@[0]@);
        }
        let spawn = chars_of("spawn");
        let fly = chars_of("fly");
        let flyspeed = chars_of("flyspeed");
        if chars_equal(cmd, spawn.as_slice()) {
            Ok(Command::Spawn)
        } else if chars_equal(cmd, fly.as_slice()) {
            Ok(Command::Fly)
        } else if chars_equal(cmd, flyspeed.as_slice()) {
            if words.len() > 1 {
                assert(words[1]@ == spec_words(input@)[1]) by {
                    assert(words@.map_values(|w: Vec<char>| w@)[1] == words@[1]@);
                }
                Ok(Command::FlySpeed(string_from_chars(words[1].as_slice())))
            } else {
                Ok(Command::FlySpeed("0.5".to_owned()))
            }
        } else {
            Err(ParseCommandError::Unknown)
        }
    }
}

/// What `/fly` does to a player's abilities: flying becomes allowed exactly
/// when it was not; the abilities sent keep the player flying only if it
/// stays allowed and the player was flying; afterwards the player counts as
/// flying exactly when flying is allowed.
pub struct FlyToggle {
    /// Whether flying is allowed, as sent and as kept.
    pub allow_flying: bool,
    /// Whether the player flies, as sent.
    pub flying: bool,
    /// Whether the player flies, as kept.
    pub now_flying: bool,
}

/// The outcome of `/fly` for a player whose flight is allowed or not, and
/// who flies or not.
pub fn toggle_fly(is_flight_allowed: bool, is_flying: bool) -> (r: FlyToggle)
    ensures
        r.allow_flying == !is_flight_allowed,
        r.flying == (!is_flight_allowed && is_flying),
        r.now_flying == !is_flight_allowed,
{
    let allow_flying = !is_flight_allowed;
    let flying = allow_flying && is_flying;
    FlyToggle { allow_flying, flying, now_flying: allow_flying }
}

} // verus!
