//! What the probe client decides: the label of each step, finding its own
//! snake in a state message, and what it makes of each message it reads.

use vstd::prelude::*;
use vstd::string::StrSliceExecFns;

use crate::config::{hex_digit, hex_digit_of};
use crate::net::protocol::{ServerMessage, SnakeData};

verus! {

/// `String::push_str` appends `string` to the end of `s`, as std documents.
pub assume_specification[ String::push_str ](s: &mut String, string: &str)
    ensures
        final(s)@ == old(s)@ + string@,
;

/// The decimal digits of `n`, most significant first, without leading zeros.
pub open spec fn decimal(n: nat) -> Seq<char>
    decreases n,
{
    if n < 10 {
        seq![hex_digit(n as int)]
    } else {
        decimal(n / 10).push(hex_digit((n % 10) as int))
    }
}

/// `s` padded with spaces on the right to at least `width` characters.
pub open spec fn padded(s: Seq<char>, width: nat) -> Seq<char> {
    if s.len() >= width {
        s
    } else {
        s + Seq::new((width - s.len()) as nat, |i: int| ' ')
    }
}

/// The decimal form of `n`.
fn decimal_of(n: u8) -> (s: String)
    ensures
        s@ == decimal(n as nat),
{
    let mut s = String::new();
    if n >= 100 {
        s.push(hex_digit_of(n / 100));
    }
    if n >= 10 {
        s.push(hex_digit_of((n / 10) % 10));
    }
    s.push(hex_digit_of(n % 10));
    proof {
        if n >= 100 {
            assert(decimal((n / 100) as nat) == seq![hex_digit((n / 100) as int)]);
            assert(decimal((n / 10) as nat) =~= seq![hex_digit((n / 100) as int)].push(
                hex_digit(((n / 10) % 10) as int),
            ));
        } else if n >= 10 {
            assert(decimal((n / 10) as nat) == seq![hex_digit((n / 10) as int)]);
        }
        assert(s@ =~= decimal(n as nat));
    }
    s
}

/// The label of step `n`: `[n] ` and the description, padded with spaces to 45
/// characters.
pub fn step_label(n: u8, description: &str) -> (s: String)
    ensures
        s@ == seq!['['] + decimal(n as nat) + seq![']', ' '] + padded(description@, 45),
{
    let mut s = String::new();
    s.push('[');
    let digits = decimal_of(n);
    s.push_str(digits.as_str());
    s.push(']');
    s.push(' ');
    s.push_str(description);
    let len = description.unicode_len();
    let ghost before = s@;
    let mut k: usize = len;
    while k < 45
        invariant
            len == description@.len(),
            len <= k,
            k <= 45 || k == len,
            s@ == before + Seq::new((k - len) as nat, |i: int| ' '),
        decreases 45 - k,
    {
        s.push(' ');
        k = k + 1;
        assert(s@ =~= before + Seq::new((k - len) as nat, |i: int| ' '));
    }
    proof {
        if len >= 45 {
            assert(s@ =~= before);
        }
        assert(s@ =~= seq!['['] + decimal(n as nat) + seq![']', ' '] + padded(description@, 45));
    }
    s
}

/// The position of the snake called `name` among `snakes`, if any.
pub fn find_snake(snakes: &Vec<SnakeData>, name: &str) -> (r: Option<usize>)
    ensures
        match r {
            Some(i) => i < snakes@.len() && snakes@[i as int].name@ == name@ && forall|j: int|
                0 <= j < i ==> snakes@[j].name@ != name@,
            None => forall|j: int| 0 <= j < snakes@.len() ==> snakes@[j].name@ != name@,
        },
{
    let key = name.to_owned();
    let mut i: usize = 0;
    while i < snakes.len()
        invariant
            i <= snakes@.len(),
            key@ == name@,
            forall|j: int| 0 <= j < i ==> snakes@[j].name@ != name@,
        decreases snakes@.len() - i,
    {
        if snakes[i].name == key {
            return Some(i);
        }
        i = i + 1;
    }
    None
}

/// What the probe makes of one message while it watches its own snake.
#[derive(Debug)]
pub enum Observation {
    /// A state at `tick` with `players` snakes, the probe's own `length` long.
    Record { tick: u64, players: usize, length: usize },
    /// A state at `tick` in which the probe's snake is missing.
    Vanished { tick: u64 },
    /// Any other message.
    Skip,
}

/// What the message `msg` tells the probe playing as `name`: for a state, the
/// tick, the number of snakes and the length of the first snake called `name`,
/// or that no snake is called so; nothing for any other message.
pub fn observe(msg: &ServerMessage, name: &str) -> (o: Observation)
    ensures
        match msg {
            ServerMessage::State { tick, snakes, .. } => match o {
                Observation::Record { tick: t, players, length } => {
                    &&& t == tick
                    &&& players == snakes@.len()
                    &&& exists|i: int|
                        0 <= i < snakes@.len() && (#[trigger] snakes@[i]).name@ == name@ && length
                            == snakes@[i].body@.len() && forall|j: int| 0 <= j < i ==> snakes@[j].name@ != name@
                },
                Observation::Vanished { tick: t } => t == tick && forall|j: int|
                    0 <= j < snakes@.len() ==> snakes@[j].name@ != name@,
                Observation::Skip => false,
            },
            _ => o is Skip,
        },
{
    match msg {
        ServerMessage::State { tick, snakes, .. } => match find_snake(snakes, name) {
            Some(i) => Observation::Record { tick: *tick, players: snakes.len(), length: snakes[i].body.len() },
            None => Observation::Vanished { tick: *tick },
        },
        _ => Observation::Skip,
    }
}

} // verus!
