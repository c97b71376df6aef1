//! Keys: names, evdev key codes and X keysyms, cell labels, and what a key press means.
//!
//! A keysym is held as its number. Numbers for names other than those of the navigation keys are
//! looked up outside of this library, in two steps: one function says which names to look up, and
//! a second one takes the numbers that were found.

use crate::config::Config;
use crate::text::{lower, lower_char, lowered, same_text, to_lower, trim, trimmed, upper};
use vstd::prelude::*;

verus! {

/// The keysym that stands for none.
pub const KEY_NO_SYMBOL: u32 = 0;

/// The keysym of the backspace key.
pub const KEY_BACKSPACE: u32 = 0xff08;

/// The keysym of the return key.
pub const KEY_RETURN: u32 = 0xff0d;

/// The keysym of the escape key.
pub const KEY_ESCAPE: u32 = 0xff1b;

/// Keysyms of the navigation keys.
#[derive(Clone, Copy, Debug, PartialEq, Eq, Structural)]
pub struct ActionKeys {
    pub backspace: u32,
    pub esc: u32,
    pub enter: u32,
}

impl Default for ActionKeys {
    /// Backspace, escape and return.
    fn default() -> (r: Self)
        ensures
            r == (ActionKeys { backspace: KEY_BACKSPACE, esc: KEY_ESCAPE, enter: KEY_RETURN }),
    {
        ActionKeys { backspace: KEY_BACKSPACE, esc: KEY_ESCAPE, enter: KEY_RETURN }
    }
}

/// Evdev codes of the navigation keys.
#[derive(Clone, Copy, Debug, PartialEq, Eq, Structural)]
pub struct Keymap {
    pub backspace: u32,
    pub esc: u32,
    pub enter: u32,
}

impl Default for Keymap {
    /// Backspace, escape and return.
    fn default() -> (r: Self)
        ensures
            r == (Keymap { backspace: 14, esc: 1, enter: 28 }),
    {
        Keymap { backspace: 14, esc: 1, enter: 28 }
    }
}

/// Names of navigation keys, as far as they have to be looked up.
#[derive(Debug)]
pub struct ActionLookups {
    pub backspace: Option<String>,
    pub esc: Option<String>,
    pub enter: Option<String>,
}

// ---------------------------------------------------------------------------------------------
// Key codes
// ---------------------------------------------------------------------------------------------

/// The code of `c` on a row of keys of which the one at `from` has the code `code`, and each
/// later one the next code.
pub open spec fn row_keycode(row: Seq<char>, from: int, code: u32, c: char) -> Option<u32>
    decreases row.len() - from,
{
    if from < 0 || from >= row.len() {
        None
    } else if row[from] == c {
        Some(code)
    } else {
        row_keycode(row, from + 1, (code + 1) as u32, c)
    }
}

/// The evdev code of a letter, small or capital: the codes count up along each of the three rows
/// of a keyboard.
pub open spec fn letter_keycode(c: char) -> Option<u32> {
    let c = lower(c);
    match row_keycode("qwertyuiop"@, 0, 16, c) {
        Some(code) => Some(code),
        None => match row_keycode("asdfghjkl"@, 0, 30, c) {
            Some(code) => Some(code),
            None => row_keycode("zxcvbnm"@, 0, 44, c),
        },
    }
}

/// The evdev code of a letter.
pub fn keycode_for_char(c: char) -> (r: Option<u32>)
    ensures
        r == letter_keycode(c),
{
    let l = lower_char(c);
    proof {
        reveal_strlit("qwertyuiop");
        reveal_strlit("asdfghjkl");
        reveal_strlit("zxcvbnm");
        reveal_with_fuel(row_keycode, 11);
    }
    match l {
        'a' => Some(30),
        'b' => Some(48),
        'c' => Some(46),
        'd' => Some(32),
        'e' => Some(18),
        'f' => Some(33),
        'g' => Some(34),
        'h' => Some(35),
        'i' => Some(23),
        'j' => Some(36),
        'k' => Some(37),
        'l' => Some(38),
        'm' => Some(50),
        'n' => Some(49),
        'o' => Some(24),
        'p' => Some(25),
        'q' => Some(16),
        'r' => Some(19),
        's' => Some(31),
        't' => Some(20),
        'u' => Some(22),
        'v' => Some(47),
        'w' => Some(17),
        'x' => Some(45),
        'y' => Some(21),
        'z' => Some(44),
        _ => None,
    }
}

/// The code of a key says where on its row the key is.
proof fn lemma_row_place(row: Seq<char>, from: int, code: u32, c: char)
    requires
        0 <= from <= row.len(),
        code + (row.len() - from) <= u32::MAX,
    ensures
        row_keycode(row, from, code, c) matches Some(k) ==> code <= k < code + (row.len() - from)
            && row[from + (k - code)] == c,
    decreases row.len() - from,
{
    if from < row.len() && row[from] != c {
        lemma_row_place(row, from + 1, (code + 1) as u32, c);
    }
}

/// Different letters have different codes, and none has the code of a default navigation key.
pub proof fn law_letter_codes_distinct(a: char, b: char)
    requires
        letter_keycode(a) is Some,
    ensures
        letter_keycode(a) == letter_keycode(b) ==> lower(a) == lower(b),
        letter_keycode(a) != Some(14u32),
        letter_keycode(a) != Some(1u32),
        letter_keycode(a) != Some(28u32),
{
    reveal_strlit("qwertyuiop");
    reveal_strlit("asdfghjkl");
    reveal_strlit("zxcvbnm");
    lemma_row_place("qwertyuiop"@, 0, 16, lower(a));
    lemma_row_place("asdfghjkl"@, 0, 30, lower(a));
    lemma_row_place("zxcvbnm"@, 0, 44, lower(a));
    lemma_row_place("qwertyuiop"@, 0, 16, lower(b));
    lemma_row_place("asdfghjkl"@, 0, 30, lower(b));
    lemma_row_place("zxcvbnm"@, 0, 44, lower(b));
}

/// The evdev code that is bound to a key name, whatever the case of its letters. The code for the
/// name `u` is 30.
pub open spec fn name_keycode(name: Seq<char>) -> Option<u32> {
    let name = lowered(trimmed(name));
    if name == "u"@ {
        Some(30)
    } else if name == "i"@ {
        Some(23)
    } else if name == "j"@ {
        Some(36)
    } else if name == "k"@ {
        Some(37)
    } else if name == "h"@ {
        Some(35)
    } else if name == "l"@ {
        Some(38)
    } else if name == "y"@ {
        Some(21)
    } else if name == "o"@ {
        Some(24)
    } else if name == "backspace"@ {
        Some(14)
    } else if name == "esc"@ || name == "escape"@ {
        Some(1)
    } else if name == "enter"@ || name == "return"@ {
        Some(28)
    } else {
        None
    }
}

/// The evdev code that is bound to a key name.
pub fn keycode_for_name(name: &str) -> (r: Option<u32>)
    ensures
        r == name_keycode(name@),
{
    let trimmed_name = trim(name);
    let key = to_lower(trimmed_name.as_str());
    let n = key.as_str();
    if same_text(n, "u") {
        Some(30)
    } else if same_text(n, "i") {
        Some(23)
    } else if same_text(n, "j") {
        Some(36)
    } else if same_text(n, "k") {
        Some(37)
    } else if same_text(n, "h") {
        Some(35)
    } else if same_text(n, "l") {
        Some(38)
    } else if same_text(n, "y") {
        Some(21)
    } else if same_text(n, "o") {
        Some(24)
    } else if same_text(n, "backspace") {
        Some(14)
    } else if same_text(n, "esc") || same_text(n, "escape") {
        Some(1)
    } else if same_text(n, "enter") || same_text(n, "return") {
        Some(28)
    } else {
        None
    }
}

/// The code of a navigation key: that of the configured name, or else `base`.
pub open spec fn bound_keycode(base: u32, name: Option<String>) -> u32 {
    match name {
        Some(n) => match name_keycode(n@) {
            Some(code) => code,
            None => base,
        },
        None => base,
    }
}

fn bind_keycode(base: u32, name: &Option<String>) -> (r: u32)
    ensures
        r == bound_keycode(base, *name),
{
    match name {
        Some(n) => match keycode_for_name(n.as_str()) {
            Some(code) => code,
            None => base,
        },
        None => base,
    }
}

/// Replace the codes of the navigation keys for which the configuration names a known key.
pub fn apply_keybindings(base: Keymap, cfg: &Config) -> (r: Keymap)
    ensures
        match cfg.keybindings {
            Some(kb) => r == (Keymap {
                backspace: bound_keycode(base.backspace, kb.backspace),
                esc: bound_keycode(base.esc, kb.esc),
                enter: bound_keycode(base.enter, kb.enter),
            }),
            None => r == base,
        },
{
    match &cfg.keybindings {
        Some(kb) => Keymap {
            backspace: bind_keycode(base.backspace, &kb.backspace),
            esc: bind_keycode(base.esc, &kb.esc),
            enter: bind_keycode(base.enter, &kb.enter),
        },
        None => base,
    }
}

/// The environment does not change the codes of the navigation keys.
pub fn keymap_from_env(base: Keymap) -> (r: Keymap)
    ensures
        r == base,
{
    base
}

// ---------------------------------------------------------------------------------------------
// Keysyms
// ---------------------------------------------------------------------------------------------

/// The keysym of a navigation key, by its name in any case.
pub open spec fn action_keysym(name: Seq<char>) -> Option<u32> {
    let name = lowered(trimmed(name));
    if name == "backspace"@ {
        Some(KEY_BACKSPACE)
    } else if name == "esc"@ || name == "escape"@ {
        Some(KEY_ESCAPE)
    } else if name == "enter"@ || name == "return"@ {
        Some(KEY_RETURN)
    } else {
        None
    }
}

/// The keysym of a key name, where looking up the trimmed name gives `found`.
pub open spec fn name_keysym(name: Seq<char>, found: u32) -> Option<u32> {
    match action_keysym(name) {
        Some(sym) => Some(sym),
        None => if found == KEY_NO_SYMBOL {
            None
        } else {
            Some(found)
        },
    }
}

fn action_keysym_for_name(name: &str) -> (r: Option<u32>)
    ensures
        r == action_keysym(name@),
{
    let trimmed_name = trim(name);
    let key = to_lower(trimmed_name.as_str());
    let n = key.as_str();
    if same_text(n, "backspace") {
        Some(KEY_BACKSPACE)
    } else if same_text(n, "esc") || same_text(n, "escape") {
        Some(KEY_ESCAPE)
    } else if same_text(n, "enter") || same_text(n, "return") {
        Some(KEY_RETURN)
    } else {
        None
    }
}

/// The name to look up, in any case of its letters, before `keysym_from_name` is asked; none for
/// the name of a navigation key.
pub fn keysym_lookup(name: &str) -> (r: Option<String>)
    ensures
        match action_keysym(name@) {
            Some(_) => r is None,
            None => r matches Some(n) && n@ == trimmed(name@),
        },
{
    match action_keysym_for_name(name) {
        Some(_) => None,
        None => Some(trim(name)),
    }
}

/// The keysym of a key name. `found` is the keysym that looking up the name gave, or
/// `KEY_NO_SYMBOL` if it gave none or was not needed.
pub fn keysym_from_name(name: &str, found: u32) -> (r: Option<u32>)
    ensures
        r == name_keysym(name@, found),
{
    match action_keysym_for_name(name) {
        Some(sym) => Some(sym),
        None => if found == KEY_NO_SYMBOL {
            None
        } else {
            Some(found)
        },
    }
}

/// What `keysym_lookup` asks for a name that may be missing.
pub open spec fn asks_for(name: Option<String>, lookup: Option<String>) -> bool {
    match name {
        Some(n) => match action_keysym(n@) {
            Some(_) => lookup is None,
            None => lookup matches Some(l) && l@ == trimmed(n@),
        },
        None => lookup is None,
    }
}

fn lookup_of(name: &Option<String>) -> (r: Option<String>)
    ensures
        asks_for(*name, r),
{
    match name {
        Some(n) => keysym_lookup(n.as_str()),
        None => None,
    }
}

/// The names of navigation keys that have to be looked up for `action_keys_from_config`.
pub fn action_key_lookups(cfg: &Config) -> (r: ActionLookups)
    ensures
        match cfg.keybindings {
            Some(kb) => {
                &&& asks_for(kb.backspace, r.backspace)
                &&& asks_for(kb.esc, r.esc)
                &&& asks_for(kb.enter, r.enter)
            },
            None => r.backspace is None && r.esc is None && r.enter is None,
        },
{
    match &cfg.keybindings {
        Some(kb) => ActionLookups {
            backspace: lookup_of(&kb.backspace),
            esc: lookup_of(&kb.esc),
            enter: lookup_of(&kb.enter),
        },
        None => ActionLookups { backspace: None, esc: None, enter: None },
    }
}

/// The keysym of a navigation key: that of the configured name, or else `base`.
pub open spec fn bound_keysym(base: u32, name: Option<String>, found: u32) -> u32 {
    match name {
        Some(n) => match name_keysym(n@, found) {
            Some(sym) => sym,
            None => base,
        },
        None => base,
    }
}

fn bind_keysym(base: u32, name: &Option<String>, found: u32) -> (r: u32)
    ensures
        r == bound_keysym(base, *name, found),
{
    match name {
        Some(n) => match keysym_from_name(n.as_str(), found) {
            Some(sym) => sym,
            None => base,
        },
        None => base,
    }
}

/// The keysyms of the navigation keys: those that the configuration names, the others by default.
/// `found` holds the keysyms that looking up the names of `action_key_lookups` gave.
pub fn action_keys_from_config(cfg: &Config, found: &ActionKeys) -> (r: ActionKeys)
    ensures
        match cfg.keybindings {
            Some(kb) => r == (ActionKeys {
                backspace: bound_keysym(KEY_BACKSPACE, kb.backspace, found.backspace),
                esc: bound_keysym(KEY_ESCAPE, kb.esc, found.esc),
                enter: bound_keysym(KEY_RETURN, kb.enter, found.enter),
            }),
            None => r == (ActionKeys {
                backspace: KEY_BACKSPACE,
                esc: KEY_ESCAPE,
                enter: KEY_RETURN,
            }),
        },
        cfg.keybindings matches Some(kb) ==> {
            &&& takes_found(kb.backspace, found.backspace) ==> r.backspace == found.backspace
            &&& takes_found(kb.esc, found.esc) ==> r.esc == found.esc
            &&& takes_found(kb.enter, found.enter) ==> r.enter == found.enter
            &&& kb.backspace is None ==> r.backspace == 0xff08
            &&& kb.esc is None ==> r.esc == 0xff1b
            &&& kb.enter is None ==> r.enter == 0xff0d
        },
{
    proof {
        if cfg.keybindings is Some {
            let kb = cfg.keybindings->0;
            law_named_keysym_is_bound(KEY_BACKSPACE, kb.backspace, found.backspace);
            law_named_keysym_is_bound(KEY_ESCAPE, kb.esc, found.esc);
            law_named_keysym_is_bound(KEY_RETURN, kb.enter, found.enter);
        }
    }
    let base = ActionKeys::default();
    match &cfg.keybindings {
        Some(kb) => ActionKeys {
            backspace: bind_keysym(base.backspace, &kb.backspace, found.backspace),
            esc: bind_keysym(base.esc, &kb.esc, found.esc),
            enter: bind_keysym(base.enter, &kb.enter, found.enter),
        },
        None => base,
    }
}

// ---------------------------------------------------------------------------------------------
// Laws
// ---------------------------------------------------------------------------------------------

/// Exactly the letters of ASCII have a key code, and it does not depend on their case.
pub proof fn law_letters_have_codes(c: char)
    ensures
        letter_keycode(c) is Some <==> (97 <= c as int <= 122 || 65 <= c as int <= 90),
        letter_keycode(lower(c)) == letter_keycode(c),
        letter_keycode(upper(c)) == letter_keycode(c),
{
    reveal_strlit("qwertyuiop");
    reveal_strlit("asdfghjkl");
    reveal_strlit("zxcvbnm");
    reveal_with_fuel(row_keycode, 11);
}

/// Along each row of a keyboard the key codes count up: from 16, from 30 and from 44.
pub proof fn law_codes_follow_the_rows(i: int)
    ensures
        0 <= i < 10 ==> letter_keycode("qwertyuiop"@[i]) == Some((16 + i) as u32),
        0 <= i < 9 ==> letter_keycode("asdfghjkl"@[i]) == Some((30 + i) as u32),
        0 <= i < 7 ==> letter_keycode("zxcvbnm"@[i]) == Some((44 + i) as u32),
{
    reveal_strlit("qwertyuiop");
    reveal_strlit("asdfghjkl");
    reveal_strlit("zxcvbnm");
    reveal_with_fuel(row_keycode, 11);
}

/// A key name is one of the navigation keys.
pub open spec fn is_navigation_name(name: Seq<char>) -> bool {
    let name = lowered(trimmed(name));
    ||| name == "backspace"@
    ||| name == "esc"@
    ||| name == "escape"@
    ||| name == "enter"@
    ||| name == "return"@
}

/// The names of the navigation keys have their evdev codes, and so have eight letters; the case
/// of a name and white space around it do not count, and no other name has a code.
pub proof fn law_name_codes(name: Seq<char>)
    ensures
        ({
            let n = lowered(trimmed(name));
            let code = name_keycode(name);
            &&& n == "backspace"@ ==> code == Some(14u32)
            &&& n == "esc"@ || n == "escape"@ ==> code == Some(1u32)
            &&& n == "enter"@ || n == "return"@ ==> code == Some(28u32)
            &&& n == "u"@ ==> code == Some(30u32)
            &&& n == "i"@ || n == "j"@ || n == "k"@ || n == "h"@ || n == "l"@ || n == "y"@ || n
                == "o"@ ==> code == letter_keycode(n[0])
            &&& code is Some ==> n == "backspace"@ || n == "esc"@ || n == "escape"@ || n
                == "enter"@ || n == "return"@ || n == "u"@ || n == "i"@ || n == "j"@
                || n == "k"@ || n == "h"@ || n == "l"@ || n == "y"@ || n == "o"@
        }),
{
    reveal_strlit("backspace");
    reveal_strlit("esc");
    reveal_strlit("escape");
    reveal_strlit("enter");
    reveal_strlit("return");
    reveal_strlit("u");
    reveal_strlit("i");
    reveal_strlit("j");
    reveal_strlit("k");
    reveal_strlit("h");
    reveal_strlit("l");
    reveal_strlit("y");
    reveal_strlit("o");
    let n = lowered(trimmed(name));
    assert(n == "backspace"@ || n == "esc"@ || n == "escape"@ || n == "enter"@ || n == "return"@
        ==> n.len() != 1);
    assert(n == "esc"@ || n == "escape"@ || n == "enter"@ || n == "return"@ ==> n[0] != 'b');
    reveal_strlit("qwertyuiop");
    reveal_strlit("asdfghjkl");
    reveal_strlit("zxcvbnm");
    reveal_with_fuel(row_keycode, 11);
}

/// The names of the navigation keys have their keysyms, whatever is looked up; any other name has
/// the keysym that was found, and none where none was found.
pub proof fn law_name_keysyms(name: Seq<char>, found: u32)
    ensures
        ({
            let n = lowered(trimmed(name));
            let sym = name_keysym(name, found);
            &&& n == "backspace"@ ==> sym == Some(0xff08u32)
            &&& n == "esc"@ || n == "escape"@ ==> sym == Some(0xff1bu32)
            &&& n == "enter"@ || n == "return"@ ==> sym == Some(0xff0du32)
            &&& !is_navigation_name(name) && found != 0 ==> sym == Some(found)
            &&& !is_navigation_name(name) && found == 0 ==> sym is None
            &&& action_keysym(name) is Some <==> is_navigation_name(name)
            &&& is_navigation_name(name) <==> n == "backspace"@ || n == "esc"@ || n == "escape"@ || n
                == "enter"@ || n == "return"@
        }),
{
    reveal_strlit("backspace");
    reveal_strlit("esc");
    reveal_strlit("escape");
    reveal_strlit("enter");
    reveal_strlit("return");
    let n = lowered(trimmed(name));
    assert(n == "enter"@ || n == "return"@ ==> n[0] != 'b' && n.len() != 3 && (n.len() == 6 ==> n[0]
        == 'r'));
    assert(n == "esc"@ || n == "escape"@ ==> n[0] != 'b');
}

/// A navigation key is configured with a name that was looked up and found.
pub open spec fn takes_found(name: Option<String>, found: u32) -> bool {
    name matches Some(n) && !is_navigation_name(n@) && found != 0
}

/// A navigation key that is configured with a name has the keysym of that name: the one found for
/// it, or that of the navigation key of that name. Without a name, or where nothing was found, it
/// keeps its own.
pub proof fn law_named_keysym_is_bound(base: u32, name: Option<String>, found: u32)
    ensures
        name is None ==> bound_keysym(base, name, found) == base,
        takes_found(name, found) ==> bound_keysym(base, name, found) == found,
        name matches Some(n) ==> {
            let t = lowered(trimmed(n@));
            &&& t == "backspace"@ ==> bound_keysym(base, name, found) == 0xff08
            &&& t == "esc"@ || t == "escape"@ ==> bound_keysym(base, name, found) == 0xff1b
            &&& t == "enter"@ || t == "return"@ ==> bound_keysym(base, name, found) == 0xff0d
            &&& t != "backspace"@ && t != "esc"@ && t != "escape"@ && t != "enter"@ && t
                != "return"@ ==> bound_keysym(base, name, found) == if found == 0 {
                base
            } else {
                found
            }
        },
{
    if let Some(n) = name {
        law_name_keysyms(n@, found);
    }
}

/// A navigation key that is configured with a name has the code of that name, where the name has
/// one; otherwise it keeps its own.
pub proof fn law_named_code_is_bound(base: u32, name: Option<String>)
    ensures
        name is None ==> bound_keycode(base, name) == base,
        name matches Some(n) ==> {
            &&& name_keycode(n@) is None ==> bound_keycode(base, name) == base
            &&& name_keycode(n@) matches Some(code) ==> bound_keycode(base, name) == code
        },
{
}

/// The name of a navigation key is not looked up, a missing one neither; any other is, without
/// the white space around it.
pub proof fn law_lookups(name: Option<String>, lookup: Option<String>)
    requires
        asks_for(name, lookup),
    ensures
        name is None ==> lookup is None,
        name matches Some(n) ==> (lookup is None <==> is_navigation_name(n@)),
        name matches Some(n) ==> (!is_navigation_name(n@) ==> lookup->0@ == trimmed(n@)),
{
    if let Some(n) = name {
        law_name_keysyms(n@, 0);
    }
}

} // verus!
