//! Terminal references and their textual tokens.
//!
//! A token is a kind letter (`I` or `O`, in either case), the decimal number
//! of the instance, a colon and the decimal index of the terminal: `O3:2` is
//! output 2 of instance 3.

use crate::digits::all_digits;
use crate::digits::decimal;
use crate::digits::lemma_decimal_digits;
use crate::digits::lemma_decimal_value;
use crate::digits::parse_digits;
use crate::digits::parse_number;
use crate::digits::push_decimal;
use crate::error::DecodeError;
use regex::Regex;
use vstd::prelude::*;
use vstd::string::StrSliceExecFns;
use vstd::string::StringExecFns;

verus! {

/// Key of a component template.
pub type ComponentId = usize;

/// Key of a placed instance.
pub type InstanceId = usize;

/// A pin of an instance: the `index`-th input or output of its template.
#[derive(Debug, Copy, Clone, PartialEq, Eq, Hash, Structural)]
pub enum Terminal {
    Input(u64),
    Output(u64),
}

/// A terminal of one instance: an end of a signal connection.
#[derive(Debug, Copy, Clone, PartialEq, Eq, Hash, Structural)]
pub struct Connection {
    pub instance: InstanceId,
    pub terminal: Terminal,
}

/// The regular expression of a token, with one named group for each field.
pub const TOKEN_PATTERN: &'static str = "^(?<type>[IOio])(?<instance>\\d+):(?<terminal>\\d+)$";

/// `c` is one of the four letters that may open a token.
pub open spec fn is_kind_letter(c: char) -> bool {
    c == 'I' || c == 'i' || c == 'O' || c == 'o'
}

/// The text made of a kind letter and two fields around a colon.
pub open spec fn compose(kind: Seq<char>, instance: Seq<char>, index: Seq<char>) -> Seq<char> {
    kind + instance + seq![':'] + index
}

/// `t` is a kind letter, digits, a colon at position `k`, and digits again.
pub open spec fn splits_at(t: Seq<char>, k: int) -> bool {
    &&& 1 < k < t.len() - 1
    &&& is_kind_letter(t[0])
    &&& t[k] == ':'
    &&& all_digits(t.subrange(1, k))
    &&& all_digits(t.subrange(k + 1, t.len() as int))
}

/// `t` is a token written with ASCII digits: a kind letter, one digit or
/// more, a colon, one digit or more.
pub open spec fn is_plain_token(t: Seq<char>) -> bool {
    exists|k: int| splits_at(t, k)
}

/// The position of the colon of a plain token.
pub open spec fn colon_of(t: Seq<char>) -> int {
    choose|k: int| splits_at(t, k)
}

/// The endpoint that the three fields of a token stand for. The numbers are
/// read first, the instance before the index; only then is the letter looked at.
pub open spec fn decode_fields(kind: Seq<char>, instance: Seq<char>, index: Seq<char>) -> Result<
    Connection,
    DecodeError,
> {
    match (parse_digits(instance, usize::MAX as nat), parse_digits(index, u64::MAX as nat)) {
        (Some(i), Some(x)) => {
            if kind == seq!['I'] || kind == seq!['i'] {
                Ok(Connection { instance: i as usize, terminal: Terminal::Input(x as u64) })
            } else if kind == seq!['O'] || kind == seq!['o'] {
                Ok(Connection { instance: i as usize, terminal: Terminal::Output(x as u64) })
            } else {
                Err(DecodeError::FormatError)
            }
        },
        _ => Err(DecodeError::RangeError),
    }
}

/// What a token decodes to, given the fields that matching it against the
/// token pattern gave, or `None` where it did not match.
pub open spec fn decode_groups(groups: Option<(Seq<char>, Seq<char>, Seq<char>)>) -> Result<
    Connection,
    DecodeError,
> {
    match groups {
        None => Err(DecodeError::FormatError),
        Some((kind, instance, index)) => decode_fields(kind, instance, index),
    }
}

/// What a plain token decodes to.
pub open spec fn plain_decode(t: Seq<char>) -> Result<Connection, DecodeError> {
    let k = colon_of(t);
    decode_fields(t.subrange(0, 1), t.subrange(1, k), t.subrange(k + 1, t.len() as int))
}

/// The canonical token of an endpoint: an upper-case letter and the two
/// shortest numerals.
pub open spec fn encode_spec(c: Connection) -> Seq<char> {
    match c.terminal {
        Terminal::Input(i) => compose(seq!['I'], decimal(c.instance as nat), decimal(i as nat)),
        Terminal::Output(i) => compose(seq!['O'], decimal(c.instance as nat), decimal(i as nat)),
    }
}

/// What a token decodes to: a plain token gives its endpoint, or
/// `RangeError` where a number does not fit; any other text gives
/// `FormatError` where it does not match the token pattern, and `RangeError`
/// where it matches, which takes a digit outside ASCII.
pub open spec fn decode_spec(t: Seq<char>) -> Result<Connection, DecodeError> {
    if is_plain_token(t) {
        plain_decode(t)
    } else if token_captures(TOKEN_PATTERN@, t) is Some {
        Err(DecodeError::RangeError)
    } else {
        Err(DecodeError::FormatError)
    }
}

/// The fields of a match, each as the text it holds.
pub open spec fn groups_view(groups: Option<(String, String, String)>) -> Option<
    (Seq<char>, Seq<char>, Seq<char>),
> {
    match groups {
        None => None,
        Some((kind, instance, index)) => Some((kind@, instance@, index@)),
    }
}

/// The three groups that the regular expression `pattern` captures in `text`,
/// or `None` where `text` does not match it.
pub uninterp spec fn token_captures(pattern: Seq<char>, text: Seq<char>) -> Option<
    (Seq<char>, Seq<char>, Seq<char>),
>;

/// Matches `text` against the token pattern with `regex::Regex::new` and
/// `regex::Regex::captures`, and hands out the text of the three groups,
/// which `regex::Captures::extract` gives.
///
/// Not proved, but taken from the meaning of the pattern: a match spans the
/// whole text, so the text is the three groups in order with a colon before
/// the last; the first group is one kind letter and the other two are not
/// empty; and a token written with ASCII digits matches, as `\d` takes every
/// ASCII digit. Which other characters `\d` takes is left to the crate.
#[verifier::external_body]
fn capture_token(pattern: &str, text: &str) -> (r: Option<(String, String, String)>)
    requires
        pattern@ == TOKEN_PATTERN@,
    ensures
        groups_view(r) == token_captures(pattern@, text@),
        r matches Some((kind, instance, index)) ==> {
            &&& text@ == compose(kind@, instance@, index@)
            &&& kind@.len() == 1
            &&& is_kind_letter(kind@[0])
            &&& instance@.len() > 0
            &&& index@.len() > 0
        },
        is_plain_token(text@) ==> r is Some,
{
    let re = Regex::new(pattern).expect("the token pattern is a regular expression");
    let (_, [kind, instance, index]) = re.captures(text)?.extract();
    Some((kind.to_string(), instance.to_string(), index.to_string()))
}

/// A plain token has its colon in one place only.
pub proof fn lemma_colon_unique(t: Seq<char>, k1: int, k2: int)
    requires
        splits_at(t, k1),
        0 <= k2 < t.len(),
        t[k2] == ':',
    ensures
        k1 == k2,
{
    if k2 < k1 {
        if k2 >= 1 {
            assert(t.subrange(1, k1)[k2 - 1] == t[k2]);
        }
    } else if k2 > k1 {
        assert(t.subrange(k1 + 1, t.len() as int)[k2 - k1 - 1] == t[k2]);
    }
}

/// A text composed of a kind letter and two runs of digits is a plain token,
/// and decodes to what its fields stand for.
pub proof fn lemma_compose_plain(kind: Seq<char>, instance: Seq<char>, index: Seq<char>)
    requires
        kind.len() == 1,
        is_kind_letter(kind[0]),
        instance.len() > 0,
        index.len() > 0,
        all_digits(instance),
        all_digits(index),
    ensures
        is_plain_token(compose(kind, instance, index)),
        plain_decode(compose(kind, instance, index)) == decode_fields(kind, instance, index),
{
    let t = compose(kind, instance, index);
    let k = 1 + instance.len() as int;
    assert(t.subrange(0, 1) =~= kind);
    assert(t.subrange(1, k) =~= instance);
    assert(t.subrange(k + 1, t.len() as int) =~= index);
    assert(splits_at(t, k));
    lemma_colon_unique(t, colon_of(t), k);
}

/// The fields of a match of a plain token are the fields of the token.
proof fn lemma_match_of_plain(t: Seq<char>, kind: Seq<char>, instance: Seq<char>, index: Seq<char>)
    requires
        is_plain_token(t),
        t == compose(kind, instance, index),
        kind.len() == 1,
    ensures
        decode_fields(kind, instance, index) == plain_decode(t),
{
    let k = 1 + instance.len() as int;
    lemma_colon_unique(t, colon_of(t), k);
    assert(t.subrange(0, 1) =~= kind);
    assert(t.subrange(1, k) =~= instance);
    assert(t.subrange(k + 1, t.len() as int) =~= index);
}

/// The fields of a match of a text that is no plain token do not both read
/// as numbers.
proof fn lemma_match_of_other(t: Seq<char>, kind: Seq<char>, instance: Seq<char>, index: Seq<char>)
    requires
        !is_plain_token(t),
        t == compose(kind, instance, index),
        kind.len() == 1,
        is_kind_letter(kind[0]),
    ensures
        decode_fields(kind, instance, index) == Err::<Connection, DecodeError>(
            DecodeError::RangeError,
        ),
{
    if instance.len() > 0 && index.len() > 0 && all_digits(instance) && all_digits(index) {
        lemma_compose_plain(kind, instance, index);
    }
}

/// Decoding is the inverse of encoding: the canonical token of an endpoint
/// is a plain token and decodes to that endpoint.
pub proof fn lemma_decode_encode(c: Connection)
    ensures
        is_plain_token(encode_spec(c)),
        decode_spec(encode_spec(c)) == Ok::<Connection, DecodeError>(c),
{
    let index: u64 = match c.terminal {
        Terminal::Input(i) => i,
        Terminal::Output(i) => i,
    };
    let kind: Seq<char> = match c.terminal {
        Terminal::Input(_) => seq!['I'],
        Terminal::Output(_) => seq!['O'],
    };
    lemma_decimal_digits(c.instance as nat);
    lemma_decimal_digits(index as nat);
    lemma_decimal_value(c.instance as nat);
    lemma_decimal_value(index as nat);
    lemma_compose_plain(kind, decimal(c.instance as nat), decimal(index as nat));
    assert(seq!['I'] != seq!['O'] && seq!['I'] != seq!['o']) by {
        assert(seq!['I'][0] == 'I');
    }
    assert(seq!['O'] != seq!['I'] && seq!['O'] != seq!['i']) by {
        assert(seq!['O'][0] == 'O');
    }
}

/// Decoding does not tell a lower-case kind letter from the upper-case one.
pub proof fn lemma_case_insensitive(instance: Seq<char>, index: Seq<char>)
    requires
        instance.len() > 0,
        index.len() > 0,
        all_digits(instance),
        all_digits(index),
    ensures
        decode_spec(compose(seq!['i'], instance, index)) == decode_spec(
            compose(seq!['I'], instance, index),
        ),
        decode_spec(compose(seq!['o'], instance, index)) == decode_spec(
            compose(seq!['O'], instance, index),
        ),
{
    lemma_compose_plain(seq!['i'], instance, index);
    lemma_compose_plain(seq!['I'], instance, index);
    lemma_compose_plain(seq!['o'], instance, index);
    lemma_compose_plain(seq!['O'], instance, index);
    assert(seq!['i'][0] == 'i' && seq!['I'][0] == 'I' && seq!['o'][0] == 'o' && seq!['O'][0] == 'O');
}

/// Two endpoints are the same exactly when their canonical tokens are.
pub proof fn lemma_token_identity(a: Connection, b: Connection)
    ensures
        (encode_spec(a) == encode_spec(b)) <==> a == b,
{
    lemma_decode_encode(a);
    lemma_decode_encode(b);
}

impl Connection {
    /// The endpoint at input `terminal` of `instance`.
    pub fn input(instance: InstanceId, terminal: u64) -> (r: Self)
        ensures
            r == (Connection { instance, terminal: Terminal::Input(terminal) }),
    {
        Connection { instance, terminal: Terminal::Input(terminal) }
    }

    /// The endpoint at output `terminal` of `instance`.
    pub fn output(instance: InstanceId, terminal: u64) -> (r: Self)
        ensures
            r == (Connection { instance, terminal: Terminal::Output(terminal) }),
    {
        Connection { instance, terminal: Terminal::Output(terminal) }
    }

    /// The canonical token of this endpoint.
    pub fn encode(&self) -> (r: String)
        ensures
            r@ == encode_spec(*self),
    {
        proof {
            reveal_strlit("I");
            reveal_strlit("O");
            reveal_strlit(":");
        }
        let mut out = String::new();
        let index = match self.terminal {
            Terminal::Input(i) => {
                out.append("I");
                i
            },
            Terminal::Output(i) => {
                out.append("O");
                i
            },
        };
        push_decimal(&mut out, self.instance as u64);
        out.append(":");
        push_decimal(&mut out, index);
        assert(out@ =~= encode_spec(*self));
        out
    }

    /// The endpoint that the fields of a matched token stand for, or the
    /// error that they give; `None` stands for a token that did not match.
    pub fn from_groups(groups: &Option<(String, String, String)>) -> (r: Result<Self, DecodeError>)
        ensures
            r == decode_groups(groups_view(*groups)),
    {
        match groups {
            None => Err(DecodeError::FormatError),
            Some((kind, instance, index)) => {
                let instance = match parse_number(instance.as_str(), usize::MAX as u64) {
                    Some(i) => i as usize,
                    None => {
                        return Err(DecodeError::RangeError);
                    },
                };
                let index = match parse_number(index.as_str(), u64::MAX) {
                    Some(i) => i,
                    None => {
                        return Err(DecodeError::RangeError);
                    },
                };
                let kind = kind.as_str();
                if kind.unicode_len() != 1 {
                    return Err(DecodeError::FormatError);
                }
                let letter = kind.get_char(0);
                assert(kind@ =~= seq![letter]);
                assert(seq![letter][0] == letter);
                if letter == 'I' || letter == 'i' {
                    Ok(Connection { instance, terminal: Terminal::Input(index) })
                } else if letter == 'O' || letter == 'o' {
                    Ok(Connection { instance, terminal: Terminal::Output(index) })
                } else {
                    Err(DecodeError::FormatError)
                }
            },
        }
    }

    /// Decodes a token.
    ///
    /// A plain token gives its endpoint, or `RangeError` where a number does
    /// not fit; any other text gives an error: `FormatError` where it does not
    /// match the token pattern, `RangeError` where it matches with a digit
    /// outside ASCII.
    pub fn decode(token: &str) -> (r: Result<Self, DecodeError>)
        ensures
            r == decode_spec(token@),
            r == decode_groups(token_captures(TOKEN_PATTERN@, token@)),
    {
        let groups = capture_token(TOKEN_PATTERN, token);
        proof {
            if let Some((kind, instance, index)) = groups_view(groups) {
                if is_plain_token(token@) {
                    lemma_match_of_plain(token@, kind, instance, index);
                } else {
                    lemma_match_of_other(token@, kind, instance, index);
                }
            }
        }
        Connection::from_groups(&groups)
    }
}

} // verus!
