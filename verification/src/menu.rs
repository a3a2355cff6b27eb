//! A menu of lines, one of which is marked: what each key does to it. The
//! caller reads the keys and draws the lines.

use vstd::prelude::*;
use crate::errors::join2;

verus! {

/// How a menu ended.
#[derive(Debug, Clone, Copy, PartialEq, Eq)]
pub enum MenuOutcome {
    /// The line at this place was chosen.
    Selected(usize),
    /// The menu was left without a choice.
    Esc,
}

/// What a key means to a menu.
#[derive(Debug, Clone, Copy, PartialEq, Eq)]
pub enum NormalizedKey {
    Up,
    Down,
    Confirm,
    Esc,
}

/// The key of a key event, as far as a menu tells keys apart.
#[derive(Debug, Clone, Copy, PartialEq, Eq)]
pub enum KeyCode {
    Up,
    Down,
    Left,
    Right,
    Enter,
    Esc,
    Char(char),
    Other,
}

/// A key event: whether it is a press, whether a modifier key was held,
/// and the key.
#[derive(Debug, Clone, Copy, PartialEq, Eq)]
pub struct KeyInput {
    pub is_press: bool,
    pub has_modifiers: bool,
    pub code: KeyCode,
}

/// What a key event means to a menu: only a press without modifiers means
/// anything. The arrows, and `w`, `a`, `s`, `d` in either case, move the
/// mark; Enter and the space bar choose; Esc leaves.
pub open spec fn meaning_of(key: KeyInput) -> Option<NormalizedKey> {
    if !key.is_press || key.has_modifiers {
        None
    } else {
        match key.code {
            KeyCode::Up => Some(NormalizedKey::Up),
            KeyCode::Left => Some(NormalizedKey::Up),
            KeyCode::Down => Some(NormalizedKey::Down),
            KeyCode::Right => Some(NormalizedKey::Down),
            KeyCode::Enter => Some(NormalizedKey::Confirm),
            KeyCode::Esc => Some(NormalizedKey::Esc),
            KeyCode::Char(c) => if c == ' ' {
                Some(NormalizedKey::Confirm)
            } else if c == 'w' || c == 'W' || c == 'a' || c == 'A' {
                Some(NormalizedKey::Up)
            } else if c == 's' || c == 'S' || c == 'd' || c == 'D' {
                Some(NormalizedKey::Down)
            } else {
                None
            },
            KeyCode::Other => None,
        }
    }
}

/// What a key event means to a menu.
pub fn normalize_key(key: KeyInput) -> (r: Option<NormalizedKey>)
    ensures
        r == meaning_of(key),
{
    if !key.is_press {
        return None;
    }
    if key.has_modifiers {
        return None;
    }
    match key.code {
        KeyCode::Up => Some(NormalizedKey::Up),
        KeyCode::Left => Some(NormalizedKey::Up),
        KeyCode::Down => Some(NormalizedKey::Down),
        KeyCode::Right => Some(NormalizedKey::Down),
        KeyCode::Enter => Some(NormalizedKey::Confirm),
        KeyCode::Esc => Some(NormalizedKey::Esc),
        KeyCode::Char(c) => {
            if c == ' ' {
                Some(NormalizedKey::Confirm)
            } else if c == 'w' || c == 'W' || c == 'a' || c == 'A' {
                Some(NormalizedKey::Up)
            } else if c == 's' || c == 'S' || c == 'd' || c == 'D' {
                Some(NormalizedKey::Down)
            } else {
                None
            }
        },
        KeyCode::Other => None,
    }
}

/// What a key makes of a menu.
#[derive(Debug, Clone, Copy, PartialEq, Eq)]
pub enum MenuStep {
    /// The menu goes on, the mark at this place.
    Marked(usize),
    /// The menu has ended.
    Finished(MenuOutcome),
}

/// What a key makes of a menu of `count` lines with the mark at `index`.
/// The mark moves up from the first line to the last and down from the
/// last to the first.
pub open spec fn after_key(index: usize, count: usize, key: Option<NormalizedKey>) -> MenuStep {
    match key {
        None => MenuStep::Marked(index),
        Some(NormalizedKey::Up) => MenuStep::Marked(
            if index == 0 {
                if count == 0 {
                    0usize
                } else {
                    (count - 1) as usize
                }
            } else {
                (index - 1) as usize
            },
        ),
        Some(NormalizedKey::Down) => MenuStep::Marked(
            if count == 0 || index >= count - 1 {
                0usize
            } else {
                (index + 1) as usize
            },
        ),
        Some(NormalizedKey::Confirm) => MenuStep::Finished(MenuOutcome::Selected(index)),
        Some(NormalizedKey::Esc) => MenuStep::Finished(MenuOutcome::Esc),
    }
}

/// What a key makes of a menu of `count` lines with the mark at `index`.
pub fn menu_step(index: usize, count: usize, key: Option<NormalizedKey>) -> (step: MenuStep)
    ensures
        step == after_key(index, count, key),
{
    match key {
        None => MenuStep::Marked(index),
        Some(NormalizedKey::Up) => {
            if index == 0 {
                if count == 0 {
                    MenuStep::Marked(0)
                } else {
                    MenuStep::Marked(count - 1)
                }
            } else {
                MenuStep::Marked(index - 1)
            }
        },
        Some(NormalizedKey::Down) => {
            if count == 0 || index >= count - 1 {
                MenuStep::Marked(0)
            } else {
                MenuStep::Marked(index + 1)
            }
        },
        Some(NormalizedKey::Confirm) => MenuStep::Finished(MenuOutcome::Selected(index)),
        Some(NormalizedKey::Esc) => MenuStep::Finished(MenuOutcome::Esc),
    }
}

/// How a menu of `count` lines ends under the key events `keys`, the mark
/// at `index`: the first key that ends it decides. `None` where none does.
pub open spec fn outcome_from(index: usize, count: usize, keys: Seq<KeyInput>) -> Option<
    MenuOutcome,
>
    decreases keys.len(),
{
    if keys.len() == 0 {
        None
    } else {
        match after_key(index, count, meaning_of(keys[0])) {
            MenuStep::Finished(outcome) => Some(outcome),
            MenuStep::Marked(next) => outcome_from(next, count, keys.drop_first()),
        }
    }
}

/// How a menu of `count` lines ends under the key events `keys`, in their
/// order, the mark on the first line at the start. A menu without lines is
/// left at once. `None` where the keys do not end the menu.
pub fn select_from_menu(count: usize, keys: &Vec<KeyInput>) -> (r: Option<MenuOutcome>)
    ensures
        r == if count == 0 {
            Some(MenuOutcome::Esc)
        } else {
            outcome_from(0, count, keys@)
        },
{
    if count == 0 {
        return Some(MenuOutcome::Esc);
    }
    let mut index: usize = 0;
    let mut i: usize = 0;
    proof {
        assert(keys@.skip(0) =~= keys@);
    }
    while i < keys.len()
        invariant
            i <= keys@.len(),
            count > 0,
            outcome_from(0, count, keys@) == outcome_from(index, count, keys@.skip(i as int)),
        decreases keys@.len() - i,
    {
        proof {
            assert(keys@.skip(i as int)[0] == keys@[i as int]);
            assert(keys@.skip(i as int).drop_first() =~= keys@.skip(i + 1));
        }
        match menu_step(index, count, normalize_key(keys[i])) {
            MenuStep::Finished(outcome) => {
                return Some(outcome);
            },
            MenuStep::Marked(next) => {
                index = next;
            },
        }
        i += 1;
    }
    None
}

/// The line of option `k` of a menu: marked or not.
pub open spec fn option_line(option: Seq<char>, marked: bool) -> Seq<char> {
    if marked {
        "> "@ + option
    } else {
        "  "@ + option
    }
}

/// The lines that show a menu: the title, an empty line, then the options,
/// the one at `index` marked.
pub fn menu_lines(title: &str, options: &Vec<String>, index: usize) -> (lines: Vec<String>)
    ensures
        lines@.len() == options@.len() + 2,
        lines@[0]@ == title@,
        lines@[1]@ == Seq::<char>::empty(),
        forall|k: int|
            0 <= k < options@.len() ==> (#[trigger] lines@[k + 2])@ == option_line(
                options@[k]@,
                k == index,
            ),
{
    let mut lines: Vec<String> = Vec::new();
    lines.push(title.to_owned());
    lines.push(String::new());
    let mut i: usize = 0;
    while i < options.len()
        invariant
            i <= options@.len(),
            lines@.len() == i + 2,
            lines@[0]@ == title@,
            lines@[1]@ == Seq::<char>::empty(),
            forall|k: int|
                0 <= k < i ==> (#[trigger] lines@[k + 2])@ == option_line(
                    options@[k]@,
                    k == index,
                ),
        decreases options@.len() - i,
    {
        let line = if i == index {
            join2("> ", options[i].as_str())
        } else {
            join2("  ", options[i].as_str())
        };
        lines.push(line);
        i += 1;
    }
    lines
}

} // verus!
