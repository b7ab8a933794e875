//! The server's settings and the colour palette of the players.

use vstd::prelude::*;

verus! {

/// `String::push` appends `ch` to the end of `s`, as std documents.
pub assume_specification[ String::push ](s: &mut String, ch: char)
    ensures
        final(s)@ == old(s)@.push(ch),
;

/// All the settings.
#[derive(Clone, Debug)]
pub struct Config {
    pub game: GameConfig,
    pub server: ServerConfig,
}

/// The rules of the game and the timing of the server.
#[derive(Clone, Debug)]
pub struct GameConfig {
    pub board_width: u16,
    pub board_height: u16,
    pub max_players: u32,
    pub tick_ms: u64,
    pub snake_start_length: u16,
    pub snake_win_length: u16,
    pub disconnect_timeout_s: u64,
    pub leaderboard_interval_ticks: u64,
    pub chaos_interval_ticks: u64,
    pub palette: Vec<String>,
}

/// Where the server listens.
#[derive(Clone, Debug)]
pub struct ServerConfig {
    pub host: String,
    pub port: u16,
    pub health_port: u16,
}

/// The health port when the settings name none.
pub fn default_health_port() -> (p: u16)
    ensures
        p == 9002,
{
    9002
}

/// The number of ticks between two bursts of chaos when the settings name none.
pub fn default_chaos_interval_ticks() -> (t: u64)
    ensures
        t == 10,
{
    10
}

/// The upper-case hexadecimal digit of `v` (for `v` below 16).
pub open spec fn hex_digit(v: int) -> char {
    if v == 0 {
        '0'
    } else if v == 1 {
        '1'
    } else if v == 2 {
        '2'
    } else if v == 3 {
        '3'
    } else if v == 4 {
        '4'
    } else if v == 5 {
        '5'
    } else if v == 6 {
        '6'
    } else if v == 7 {
        '7'
    } else if v == 8 {
        '8'
    } else if v == 9 {
        '9'
    } else if v == 10 {
        'A'
    } else if v == 11 {
        'B'
    } else if v == 12 {
        'C'
    } else if v == 13 {
        'D'
    } else if v == 14 {
        'E'
    } else {
        'F'
    }
}

/// `#RRGGBB` in upper-case hexadecimal.
pub open spec fn hex_color(r: int, g: int, b: int) -> Seq<char> {
    seq![
        '#',
        hex_digit(r / 16),
        hex_digit(r % 16),
        hex_digit(g / 16),
        hex_digit(g % 16),
        hex_digit(b / 16),
        hex_digit(b % 16),
    ]
}

/// The palette's colours have saturation 75% and lightness 55%; their
/// channels, scaled to 0..=255 and rounded to the nearest integer (halves up),
/// run between 54 (the floor, 255 * 0.2125) and 226 (the peak, 255 * 0.8875).
/// A channel that is rising or falling within a sixth of the hue circle takes
/// `255 * (0.2125 + 0.675 * t)` where `t` in `[0, 1]` is how far it has moved,
/// given here as `t = rise / n`: that is `(875 * n + 2754 * rise) / (16 * n)`
/// once rounded.
pub open spec fn channel(rise: int, n: int) -> int {
    (875 * n + 2754 * rise) / (16 * n)
}

/// Where colour `i` of `n` lies on the hue circle: the sixth it falls in
/// (0 to 5, starting at red) and how far, out of `n`, the moving channel has
/// risen, i.e. `n * (1 - |h mod 2 - 1|)` for `h = 6 * i / n`.
pub open spec fn hue_sixth(i: int, n: int) -> int {
    (6 * i) / n
}

pub open spec fn hue_rise(i: int, n: int) -> int {
    let r = (6 * i) % (2 * n);
    if r >= n {
        n - (r - n)
    } else {
        n - (n - r)
    }
}

/// The red, green and blue channels of colour `i` of `n`: the hue is
/// `360 * i / n` degrees.
pub open spec fn palette_rgb(i: int, n: int) -> (int, int, int) {
    let hi = channel(n, n);
    let lo = channel(0, n);
    let mid = channel(hue_rise(i, n), n);
    let s = hue_sixth(i, n);
    if s == 0 {
        (hi, mid, lo)
    } else if s == 1 {
        (mid, hi, lo)
    } else if s == 2 {
        (lo, hi, mid)
    } else if s == 3 {
        (lo, mid, hi)
    } else if s == 4 {
        (mid, lo, hi)
    } else {
        (hi, lo, mid)
    }
}

/// The colour `i` of a palette of `n`.
pub open spec fn palette_color(i: int, n: int) -> Seq<char> {
    let (r, g, b) = palette_rgb(i, n);
    hex_color(r, g, b)
}

/// The upper-case hexadecimal digit of `v`.
pub(crate) fn hex_digit_of(v: u8) -> (c: char)
    requires
        v < 16,
    ensures
        c == hex_digit(v as int),
{
    match v {
        0 => '0',
        1 => '1',
        2 => '2',
        3 => '3',
        4 => '4',
        5 => '5',
        6 => '6',
        7 => '7',
        8 => '8',
        9 => '9',
        10 => 'A',
        11 => 'B',
        12 => 'C',
        13 => 'D',
        14 => 'E',
        _ => 'F',
    }
}

/// A channel value in the range of the palette, exactly.
fn channel_of(rise: u128, n: u128) -> (v: u8)
    requires
        0 < n <= usize::MAX,
        rise <= n,
    ensures
        v == channel(rise as int, n as int),
        54 <= v <= 226,
{
    assert(875 * n + 2754 * rise <= 3629 * n) by (nonlinear_arith)
        requires
            rise <= n,
    ;
    assert(channel(rise as int, n as int) <= 226) by (nonlinear_arith)
        requires
            rise <= n,
            0 < n,
    {
        assert(875 * n + 2754 * rise < 227 * (16 * n));
    }
    assert(channel(rise as int, n as int) >= 54) by (nonlinear_arith)
        requires
            0 < n,
            0 <= rise,
    {
        assert(875 * n + 2754 * rise >= 54 * (16 * n));
    }
    let num: u128 = 875 * n + 2754 * rise;
    let den: u128 = 16 * n;
    (num / den) as u8
}

/// `#RRGGBB` for the three channels.
fn hex_of(r: u8, g: u8, b: u8) -> (s: String)
    ensures
        s@ == hex_color(r as int, g as int, b as int),
{
    let mut s = String::new();
    s.push('#');
    s.push(hex_digit_of(r / 16));
    s.push(hex_digit_of(r % 16));
    s.push(hex_digit_of(g / 16));
    s.push(hex_digit_of(g % 16));
    s.push(hex_digit_of(b / 16));
    s.push(hex_digit_of(b % 16));
    assert(s@ =~= hex_color(r as int, g as int, b as int));
    s
}

/// `n` colours spread evenly round the hue circle, starting at red, each at
/// saturation 75% and lightness 55%, written `#RRGGBB` in upper case; see
/// `palette_rgb` for the channels.
pub fn generate_palette(n: usize) -> (palette: Vec<String>)
    ensures
        palette@.len() == n,
        forall|i: int| 0 <= i < n ==> (#[trigger] palette@[i])@ == palette_color(i, n as int),
{
    let mut palette: Vec<String> = Vec::new();
    let mut i: usize = 0;
    while i < n
        invariant
            i <= n,
            palette@.len() == i,
            forall|j: int| 0 <= j < i ==> (#[trigger] palette@[j])@ == palette_color(j, n as int),
        decreases n - i,
    {
        let nn = n as u128;
        let a: u128 = 6 * (i as u128);
        let r: u128 = a % (2 * nn);
        let rise: u128 = if r >= nn { nn - (r - nn) } else { nn - (nn - r) };
        let sixth: u128 = a / nn;
        assert(sixth < 6) by (nonlinear_arith)
            requires
                a == 6 * i,
                i < nn,
                sixth == a / nn,
                nn > 0,
        ;
        let hi = channel_of(nn, nn);
        let lo = channel_of(0, nn);
        let mid = channel_of(rise, nn);
        let (red, green, blue) = if sixth == 0 {
            (hi, mid, lo)
        } else if sixth == 1 {
            (mid, hi, lo)
        } else if sixth == 2 {
            (lo, hi, mid)
        } else if sixth == 3 {
            (lo, mid, hi)
        } else if sixth == 4 {
            (mid, lo, hi)
        } else {
            (hi, lo, mid)
        };
        let color = hex_of(red, green, blue);
        proof {
            assert(rise == hue_rise(i as int, n as int));
            assert(sixth == hue_sixth(i as int, n as int));
            assert(color@ == palette_color(i as int, n as int));
        }
        palette.push(color);
        i = i + 1;
    }
    palette
}

impl Config {
    /// The settings with a palette of `max_players` colours (see
    /// `generate_palette`) where the given palette is empty.
    pub fn fill_palette(self) -> (c: Config)
        ensures
            c.server == self.server,
            c.game.board_width == self.game.board_width,
            c.game.board_height == self.game.board_height,
            c.game.max_players == self.game.max_players,
            c.game.tick_ms == self.game.tick_ms,
            c.game.snake_start_length == self.game.snake_start_length,
            c.game.snake_win_length == self.game.snake_win_length,
            c.game.disconnect_timeout_s == self.game.disconnect_timeout_s,
            c.game.leaderboard_interval_ticks == self.game.leaderboard_interval_ticks,
            c.game.chaos_interval_ticks == self.game.chaos_interval_ticks,
            self.game.palette@.len() > 0 ==> c.game.palette == self.game.palette,
            self.game.palette@.len() == 0 ==> c.game.palette@.len() == self.game.max_players
                && forall|i: int|
                0 <= i < self.game.max_players ==> (#[trigger] c.game.palette@[i])@ == palette_color(
                    i,
                    self.game.max_players as int,
                ),
    {
        let mut config = self;
        if config.game.palette.len() == 0 {
            config.game.palette = generate_palette(config.game.max_players as usize);
        }
        config
    }
}

} // verus!
