//! Settings: the configuration and the environment variables that override it.
//!
//! The values of environment variables are passed in as text; an unset variable is `None`.

use crate::geometry::Rect;
use crate::grid::{clamp_grid_size, grid_size};
use crate::text::{
    around_x, bounded, decimal, is_digit, is_only_x, law_around_x, law_decimal_round_trip,
    law_natural_digits, natural_digits, parse_i32, parse_usize, signed_number, split_around_x,
    unsigned_number,
};
use vstd::prelude::*;

verus! {

/// The settings that a configuration file may hold.
#[derive(Debug, Clone)]
pub struct Config {
    pub grid_size: Option<GridSize>,
    pub keybindings: Option<Keybindings>,
}

/// Rows and columns of the grid.
#[derive(Debug, Clone, Copy, PartialEq, Eq, Structural)]
pub struct GridSize {
    pub rows: usize,
    pub cols: usize,
}

/// Names of the keys that select cells (row by row) and that control navigation.
#[derive(Debug, Clone)]
pub struct Keybindings {
    pub cells: Option<Vec<Vec<String>>>,
    pub backspace: Option<String>,
    pub esc: Option<String>,
    pub enter: Option<String>,
}

impl Default for Config {
    /// No setting at all.
    fn default() -> (r: Self)
        ensures
            r.grid_size is None,
            r.keybindings is None,
    {
        Config { grid_size: None, keybindings: None }
    }
}

/// Where the configuration file stands below the home directory.
pub open spec fn config_file() -> Seq<char> {
    ".config/hyprrgn/config.toml"@
}

/// The path of the configuration file of the user whose home directory is `home`.
pub open spec fn home_config_path(home: Seq<char>) -> Seq<char> {
    if home.len() == 0 || home.last() == '/' {
        home + config_file()
    } else {
        home.push('/') + config_file()
    }
}

/// The path of the configuration file: `explicit` (the value of `HYPRRGN_CONFIG`), or else the
/// one below `home` (the value of `HOME`).
pub fn config_path(explicit: Option<&str>, home: Option<&str>) -> (r: Option<String>)
    ensures
        match (explicit, home) {
            (Some(path), _) => r matches Some(p) && p@ == path@,
            (None, Some(home)) => r matches Some(p) && p@ == home_config_path(home@),
            (None, None) => r is None,
        },
{
    match explicit {
        Some(path) => Some(path.to_owned()),
        None => match home {
            Some(home) => {
                let mut path = home.to_owned();
                let chars = crate::text::chars_of(home);
                if chars.len() > 0 && chars[chars.len() - 1] != '/' {
                    path.push('/');
                }
                path.append(".config/hyprrgn/config.toml");
                Some(path)
            },
            None => None,
        },
    }
}

/// The screen size that `HYPRLAND_RES` gives, each side on its own: what cannot be read leaves
/// the default, 1920 by 1080.
pub open spec fn screen_size(res: Option<Seq<char>>) -> (int, int) {
    match res {
        Some(text) => match around_x(text) {
            Some((w, h)) => (
                match bounded(signed_number(w), i32::MIN as int, i32::MAX as int) {
                    Some(n) => n,
                    None => 1920,
                },
                match bounded(signed_number(h), i32::MIN as int, i32::MAX as int) {
                    Some(n) => n,
                    None => 1080,
                },
            ),
            None => (1920, 1080),
        },
        None => (1920, 1080),
    }
}

/// The screen rectangle, as far as it is known before the display reports one. `res` is the
/// value of `HYPRLAND_RES`, in the form `1920x1080`.
pub fn get_screen_rect(res: Option<&str>) -> (r: Rect)
    ensures
        ({
            let size = screen_size(
                match res {
                    Some(text) => Some(text@),
                    None => None,
                },
            );
            r == (Rect { x: 0, y: 0, width: size.0 as i32, height: size.1 as i32 })
        }),
{
    let mut width: i32 = 1920;
    let mut height: i32 = 1080;
    if let Some(text) = res {
        if let Some((w, h)) = split_around_x(text) {
            if let Some(n) = parse_i32(w.as_str()) {
                width = n;
            }
            if let Some(n) = parse_i32(h.as_str()) {
                height = n;
            }
        }
    }
    Rect::new(0, 0, width, height)
}

/// Rows and columns that `HYPRRGN_GRID` gives, if both can be read.
pub open spec fn grid_override(text: Seq<char>) -> Option<(int, int)> {
    match around_x(text) {
        Some((r, c)) => match (
            bounded(unsigned_number(r), 0, usize::MAX as int),
            bounded(unsigned_number(c), 0, usize::MAX as int),
        ) {
            (Some(rows), Some(cols)) => Some((rows, cols)),
            _ => None,
        },
        None => None,
    }
}

/// Rows and columns of the grid: those of `HYPRRGN_GRID`, or else those of the configuration, or
/// else two by two; in any case moved into the range of grid sizes.
pub open spec fn chosen_grid_size(cfg: Config, grid: Option<Seq<char>>) -> (int, int) {
    let configured = match cfg.grid_size {
        Some(gs) => (grid_size(gs.rows as int), grid_size(gs.cols as int)),
        None => (2, 2),
    };
    match grid {
        Some(text) => match grid_override(text) {
            Some((rows, cols)) => (grid_size(rows), grid_size(cols)),
            None => configured,
        },
        None => configured,
    }
}

/// Choose the size of the grid. `grid` is the value of `HYPRRGN_GRID`, in the form `3x3`.
pub fn read_grid_size(cfg: &Config, grid: Option<&str>) -> (r: (usize, usize))
    ensures
        (r.0 as int, r.1 as int) == chosen_grid_size(
            *cfg,
            match grid {
                Some(text) => Some(text@),
                None => None,
            },
        ),
        1 <= r.0 <= crate::grid::MAX_GRID,
        1 <= r.1 <= crate::grid::MAX_GRID,
{
    let mut rows: usize = 2;
    let mut cols: usize = 2;
    if let Some(gs) = &cfg.grid_size {
        rows = clamp_grid_size(gs.rows);
        cols = clamp_grid_size(gs.cols);
    }
    if let Some(text) = grid {
        if let Some((a, b)) = split_around_x(text) {
            if let (Some(r), Some(c)) = (parse_usize(a.as_str()), parse_usize(b.as_str())) {
                rows = clamp_grid_size(r);
                cols = clamp_grid_size(c);
            }
        }
    }
    (rows, cols)
}

/// A resolution written as two decimal numbers around an `x` is read back.
pub proof fn law_resolution_round_trip(width: i32, height: i32)
    ensures
        screen_size(Some(decimal(width as int).push('x') + decimal(height as int))) == (
            width as int,
            height as int,
        ),
{
    let w = decimal(width as int);
    let h = decimal(height as int);
    let text = w.push('x') + h;
    law_decimal_round_trip(width);
    law_decimal_round_trip(height);
    lemma_decimal_has_no_x(width);
    lemma_decimal_has_no_x(height);
    assert(is_only_x(text, w.len() as int)) by {
        assert forall|j: int| 0 <= j < text.len() implies (#[trigger] text[j] == 'x' <==> j
            == w.len()) by {
            if j < w.len() {
                assert(text[j] == w[j]);
            } else if j > w.len() {
                assert(text[j] == h[j - w.len() - 1]);
            }
        }
    }
    let i = choose|i: int| is_only_x(text, i);
    assert(i == w.len()) by {
        assert(text[w.len() as int] == 'x');
    }
    assert(text.take(i) =~= w);
    assert(text.skip(i + 1) =~= h);
}

proof fn lemma_decimal_has_no_x(n: i32)
    ensures
        forall|i: int|
            0 <= i < decimal(n as int).len() ==> #[trigger] decimal(n as int)[i] != 'x',
{
    law_decimal_round_trip(n);
    let s = decimal(n as int);
    assert forall|i: int| 0 <= i < s.len() implies #[trigger] s[i] != 'x' by {
        if s[0] == '-' || s[0] == '+' {
            if i > 0 {
                assert(is_digit(s.skip(1)[i - 1]));
            }
        } else {
            assert(is_digit(s[i]));
        }
    }
}

/// Each side of the screen is read on its own: it is the number that stands on its side of the
/// `x`, if that is an `i32`, and else 1920 or 1080.
pub proof fn law_screen_sides(w: Seq<char>, h: Seq<char>)
    requires
        !w.contains('x'),
        !h.contains('x'),
    ensures
        ({
            let size = screen_size(Some(w.push('x') + h));
            &&& match signed_number(w) {
                Some(n) => size.0 == if -0x8000_0000 <= n <= 0x7fff_ffff {
                    n
                } else {
                    1920
                },
                None => size.0 == 1920,
            }
            &&& match signed_number(h) {
                Some(n) => size.1 == if -0x8000_0000 <= n <= 0x7fff_ffff {
                    n
                } else {
                    1080
                },
                None => size.1 == 1080,
            }
        }),
{
    law_around_x(w.push('x') + h, w, h);
}

/// A resolution that is missing, or that is not two texts around a single `x`, is 1920 by 1080.
pub proof fn law_screen_default(text: Seq<char>)
    requires
        forall|w: Seq<char>, h: Seq<char>|
            !(text == #[trigger] (w.push('x') + h) && !w.contains('x') && !h.contains('x')),
    ensures
        screen_size(None) == (1920int, 1080int),
        screen_size(Some(text)) == (1920int, 1080int),
{
    law_around_x(text, Seq::empty(), Seq::empty());
    if let Some((w, h)) = around_x(text) {
        assert(text == w.push('x') + h);
    }
}

/// Whatever the configuration: numbers on both sides of the `x` of `HYPRRGN_GRID` are the rows and
/// the columns, capped.
pub proof fn law_grid_variable_overrides(
    cfg: Config,
    a: Seq<char>,
    b: Seq<char>,
    rows: usize,
    cols: usize,
)
    requires
        !a.contains('x'),
        !b.contains('x'),
        unsigned_number(a) == Some(rows as int),
        unsigned_number(b) == Some(cols as int),
    ensures
        chosen_grid_size(cfg, Some(a.push('x') + b)).0 == grid_size(rows as int),
        chosen_grid_size(cfg, Some(a.push('x') + b)).1 == grid_size(cols as int),
{
    law_around_x(a.push('x') + b, a, b);
}

/// Whatever the configuration: `HYPRRGN_GRID` written as two decimal numbers around an `x` is read
/// back as the rows and the columns, where these are from one to ten.
pub proof fn law_grid_round_trip(cfg: Config, rows: usize, cols: usize)
    ensures
        ({
            let text = natural_digits(rows as int).push('x') + natural_digits(cols as int);
            let size = chosen_grid_size(cfg, Some(text));
            &&& 1 <= rows <= 10 ==> size.0 == rows
            &&& 1 <= cols <= 10 ==> size.1 == cols
            &&& size.0 == grid_size(rows as int)
            &&& size.1 == grid_size(cols as int)
        }),
{
    law_natural_digits(rows as int);
    law_natural_digits(cols as int);
    law_grid_variable_overrides(
        cfg,
        natural_digits(rows as int),
        natural_digits(cols as int),
        rows,
        cols,
    );
}

/// Without `HYPRRGN_GRID` the configured size counts, capped, and without that the grid is two by
/// two.
pub proof fn law_configured_grid(cfg: Config)
    ensures
        match cfg.grid_size {
            Some(gs) => chosen_grid_size(cfg, None).0 == grid_size(gs.rows as int) && chosen_grid_size(cfg, None).1 == grid_size(gs.cols as int),
            None => chosen_grid_size(cfg, None) == (2int, 2int),
        },
{
}

/// A value of `HYPRRGN_GRID` that is not two machine-sized numbers around a single `x` counts as
/// none.
pub proof fn law_unreadable_grid_variable(cfg: Config, text: Seq<char>)
    requires
        forall|a: Seq<char>, b: Seq<char>|
            !(text == #[trigger] (a.push('x') + b) && !a.contains('x') && !b.contains('x')
                && unsigned_number(a) is Some && 0 <= unsigned_number(a)->0 <= usize::MAX
                && unsigned_number(b) is Some && 0 <= unsigned_number(b)->0 <= usize::MAX),
    ensures
        chosen_grid_size(cfg, Some(text)) == chosen_grid_size(cfg, None),
{
    law_around_x(text, Seq::empty(), Seq::empty());
    if let Some((a, b)) = around_x(text) {
        assert(text == a.push('x') + b);
    }
}

/// The path below a home directory starts with that directory and ends with the place of the
/// file in it; between the two stands a single slash, be it that of the directory.
pub proof fn law_home_config_path(home: Seq<char>)
    ensures
        ({
            let path = home_config_path(home);
            let file = ".config/hyprrgn/config.toml"@;
            let middle = path.len() - home.len() - file.len();
            &&& 0 <= middle <= 1
            &&& path.take(home.len() as int) == home
            &&& path.skip(home.len() + middle) == file
            &&& middle == 1 ==> path[home.len() as int] == '/'
            &&& middle == 0 <==> home.len() == 0 || home.last() == '/'
        }),
{
    let path = home_config_path(home);
    let file = ".config/hyprrgn/config.toml"@;
    assert(path.take(home.len() as int) =~= home);
    assert(path.skip(path.len() - file.len()) =~= file);
}

} // verus!
