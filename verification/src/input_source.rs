//! Input sources (keys, mouse buttons, gamepad buttons) and the names a
//! binding file uses for them.
use crate::text::{decimal, lemma_decimal_digits, lemma_parse_decimal, parse_u16, parse_u8, parse_unsigned, str_eq, strip_prefix};
use vstd::prelude::*;

verus! {

/// The keyboard keys that binding files can name.
#[derive(Clone, Copy, Debug, PartialEq, Eq, Hash, Structural)]
pub enum KeyCode {
    KeyA,
    KeyB,
    KeyC,
    KeyD,
    KeyE,
    KeyF,
    KeyG,
    KeyH,
    KeyI,
    KeyJ,
    KeyK,
    KeyL,
    KeyM,
    KeyN,
    KeyO,
    KeyP,
    KeyQ,
    KeyR,
    KeyS,
    KeyT,
    KeyU,
    KeyV,
    KeyW,
    KeyX,
    KeyY,
    KeyZ,
    Digit0,
    Digit1,
    Digit2,
    Digit3,
    Digit4,
    Digit5,
    Digit6,
    Digit7,
    Digit8,
    Digit9,
    F1,
    F2,
    F3,
    F4,
    F5,
    F6,
    F7,
    F8,
    F9,
    F10,
    F11,
    F12,
    Space,
    Enter,
    Escape,
    Tab,
    Backspace,
    ShiftLeft,
    ShiftRight,
    ControlLeft,
    ControlRight,
    AltLeft,
    AltRight,
    ArrowUp,
    ArrowDown,
    ArrowLeft,
    ArrowRight,
}

/// Mouse buttons; `Other` is a numbered extra button.
#[derive(Clone, Copy, Debug, PartialEq, Eq, Hash, Structural)]
pub enum MouseButton {
    Left,
    Right,
    Middle,
    Back,
    Forward,
    Other(u16),
}

/// The gamepad buttons that binding files can name.
#[derive(Clone, Copy, Debug, PartialEq, Eq, Hash, Structural)]
pub enum GamepadButton {
    South,
    East,
    North,
    West,
    LeftTrigger,
    LeftTrigger2,
    RightTrigger,
    RightTrigger2,
    Select,
    Start,
    Mode,
    LeftThumb,
    RightThumb,
    DPadUp,
    DPadDown,
    DPadLeft,
    DPadRight,
}

/// Which device, and which button on it, an action is bound to. A gamepad
/// button stands for that button on any connected gamepad.
#[derive(Clone, Copy, Debug, PartialEq, Eq, Hash, Structural)]
pub enum GutzInputSource {
    Key(KeyCode),
    MouseButton(MouseButton),
    GamepadButton(GamepadButton),
}

/// `s` starts with `p`.
pub open spec fn has_prefix(s: Seq<char>, p: Seq<char>) -> bool {
    p.len() <= s.len() && s.subrange(0, p.len() as int) == p
}

/// `s` with its prefix `p` removed.
pub open spec fn after_prefix(s: Seq<char>, p: Seq<char>) -> Seq<char> {
    s.subrange(p.len() as int, s.len() as int)
}

/// The letter key named by a single upper-case letter.
pub open spec fn letter_key(c: char) -> Option<KeyCode> {
    match c {
        'A' => Some(KeyCode::KeyA),
        'B' => Some(KeyCode::KeyB),
        'C' => Some(KeyCode::KeyC),
        'D' => Some(KeyCode::KeyD),
        'E' => Some(KeyCode::KeyE),
        'F' => Some(KeyCode::KeyF),
        'G' => Some(KeyCode::KeyG),
        'H' => Some(KeyCode::KeyH),
        'I' => Some(KeyCode::KeyI),
        'J' => Some(KeyCode::KeyJ),
        'K' => Some(KeyCode::KeyK),
        'L' => Some(KeyCode::KeyL),
        'M' => Some(KeyCode::KeyM),
        'N' => Some(KeyCode::KeyN),
        'O' => Some(KeyCode::KeyO),
        'P' => Some(KeyCode::KeyP),
        'Q' => Some(KeyCode::KeyQ),
        'R' => Some(KeyCode::KeyR),
        'S' => Some(KeyCode::KeyS),
        'T' => Some(KeyCode::KeyT),
        'U' => Some(KeyCode::KeyU),
        'V' => Some(KeyCode::KeyV),
        'W' => Some(KeyCode::KeyW),
        'X' => Some(KeyCode::KeyX),
        'Y' => Some(KeyCode::KeyY),
        'Z' => Some(KeyCode::KeyZ),
        _ => None,
    }
}

/// The digit key named by a single digit.
pub open spec fn digit_key(c: char) -> Option<KeyCode> {
    match c {
        '0' => Some(KeyCode::Digit0),
        '1' => Some(KeyCode::Digit1),
        '2' => Some(KeyCode::Digit2),
        '3' => Some(KeyCode::Digit3),
        '4' => Some(KeyCode::Digit4),
        '5' => Some(KeyCode::Digit5),
        '6' => Some(KeyCode::Digit6),
        '7' => Some(KeyCode::Digit7),
        '8' => Some(KeyCode::Digit8),
        '9' => Some(KeyCode::Digit9),
        _ => None,
    }
}

/// The function key `F{n}` for `n` in `1..=12`.
pub open spec fn function_key(n: nat) -> KeyCode {
    if n == 1 {
        KeyCode::F1
    } else if n == 2 {
        KeyCode::F2
    } else if n == 3 {
        KeyCode::F3
    } else if n == 4 {
        KeyCode::F4
    } else if n == 5 {
        KeyCode::F5
    } else if n == 6 {
        KeyCode::F6
    } else if n == 7 {
        KeyCode::F7
    } else if n == 8 {
        KeyCode::F8
    } else if n == 9 {
        KeyCode::F9
    } else if n == 10 {
        KeyCode::F10
    } else if n == 11 {
        KeyCode::F11
    } else {
        KeyCode::F12
    }
}

/// The special keys named by a word.
pub open spec fn named_key(s: Seq<char>) -> Option<KeyCode> {
    if s == "Space"@ {
        Some(KeyCode::Space)
    } else if s == "Enter"@ {
        Some(KeyCode::Enter)
    } else if s == "Escape"@ {
        Some(KeyCode::Escape)
    } else if s == "Tab"@ {
        Some(KeyCode::Tab)
    } else if s == "Backspace"@ {
        Some(KeyCode::Backspace)
    } else if s == "ShiftLeft"@ {
        Some(KeyCode::ShiftLeft)
    } else if s == "ShiftRight"@ {
        Some(KeyCode::ShiftRight)
    } else if s == "ControlLeft"@ {
        Some(KeyCode::ControlLeft)
    } else if s == "ControlRight"@ {
        Some(KeyCode::ControlRight)
    } else if s == "AltLeft"@ {
        Some(KeyCode::AltLeft)
    } else if s == "AltRight"@ {
        Some(KeyCode::AltRight)
    } else if s == "ArrowUp"@ {
        Some(KeyCode::ArrowUp)
    } else if s == "ArrowDown"@ {
        Some(KeyCode::ArrowDown)
    } else if s == "ArrowLeft"@ {
        Some(KeyCode::ArrowLeft)
    } else if s == "ArrowRight"@ {
        Some(KeyCode::ArrowRight)
    } else {
        None
    }
}

/// The key a binding name stands for: `Key` plus a letter, `Digit` plus a
/// digit, `F` plus a number in `1..=12` as `u8` parsing reads it, or one of
/// the special key words.
pub open spec fn key_code_spec(s: Seq<char>) -> Option<KeyCode> {
    if has_prefix(s, "Key"@) {
        let rest = after_prefix(s, "Key"@);
        if rest.len() == 1 {
            letter_key(rest[0])
        } else {
            None
        }
    } else if has_prefix(s, "Digit"@) {
        let rest = after_prefix(s, "Digit"@);
        if rest.len() == 1 {
            digit_key(rest[0])
        } else {
            None
        }
    } else if has_prefix(s, "F"@) && (parse_unsigned(after_prefix(s, "F"@), u8::MAX as nat) matches Some(
        n,
    ) && 1 <= n <= 12) {
        Some(function_key(parse_unsigned(after_prefix(s, "F"@), u8::MAX as nat)->Some_0))
    } else {
        named_key(s)
    }
}

/// The mouse button named after `Mouse`: a button word, or a `u16` number
/// for another button.
pub open spec fn mouse_button_spec(s: Seq<char>) -> Option<MouseButton> {
    if s == "Left"@ {
        Some(MouseButton::Left)
    } else if s == "Right"@ {
        Some(MouseButton::Right)
    } else if s == "Middle"@ {
        Some(MouseButton::Middle)
    } else if s == "Back"@ {
        Some(MouseButton::Back)
    } else if s == "Forward"@ {
        Some(MouseButton::Forward)
    } else {
        match parse_unsigned(s, u16::MAX as nat) {
            Some(n) => Some(MouseButton::Other(n as u16)),
            None => None,
        }
    }
}

/// The gamepad button named after `Gamepad`.
pub open spec fn gamepad_button_spec(s: Seq<char>) -> Option<GamepadButton> {
    if s == "South"@ {
        Some(GamepadButton::South)
    } else if s == "East"@ {
        Some(GamepadButton::East)
    } else if s == "North"@ {
        Some(GamepadButton::North)
    } else if s == "West"@ {
        Some(GamepadButton::West)
    } else if s == "LeftTrigger"@ {
        Some(GamepadButton::LeftTrigger)
    } else if s == "LeftTrigger2"@ {
        Some(GamepadButton::LeftTrigger2)
    } else if s == "RightTrigger"@ {
        Some(GamepadButton::RightTrigger)
    } else if s == "RightTrigger2"@ {
        Some(GamepadButton::RightTrigger2)
    } else if s == "Select"@ {
        Some(GamepadButton::Select)
    } else if s == "Start"@ {
        Some(GamepadButton::Start)
    } else if s == "Mode"@ {
        Some(GamepadButton::Mode)
    } else if s == "LeftThumb"@ {
        Some(GamepadButton::LeftThumb)
    } else if s == "RightThumb"@ {
        Some(GamepadButton::RightThumb)
    } else if s == "DPadUp"@ {
        Some(GamepadButton::DPadUp)
    } else if s == "DPadDown"@ {
        Some(GamepadButton::DPadDown)
    } else if s == "DPadLeft"@ {
        Some(GamepadButton::DPadLeft)
    } else if s == "DPadRight"@ {
        Some(GamepadButton::DPadRight)
    } else {
        None
    }
}

/// The input source a binding name stands for: `Mouse` plus a mouse button,
/// `Gamepad` plus a gamepad button, otherwise a key.
pub open spec fn input_source_spec(s: Seq<char>) -> Option<GutzInputSource> {
    if has_prefix(s, "Mouse"@) {
        match mouse_button_spec(after_prefix(s, "Mouse"@)) {
            Some(b) => Some(GutzInputSource::MouseButton(b)),
            None => None,
        }
    } else if has_prefix(s, "Gamepad"@) {
        match gamepad_button_spec(after_prefix(s, "Gamepad"@)) {
            Some(b) => Some(GutzInputSource::GamepadButton(b)),
            None => None,
        }
    } else {
        match key_code_spec(s) {
            Some(k) => Some(GutzInputSource::Key(k)),
            None => None,
        }
    }
}

fn parse_mouse_button(name: &str) -> (r: Option<MouseButton>)
    ensures
        r == mouse_button_spec(name@),
{
    if str_eq(name, "Left") {
        return Some(MouseButton::Left);
    }
    if str_eq(name, "Right") {
        return Some(MouseButton::Right);
    }
    if str_eq(name, "Middle") {
        return Some(MouseButton::Middle);
    }
    if str_eq(name, "Back") {
        return Some(MouseButton::Back);
    }
    if str_eq(name, "Forward") {
        return Some(MouseButton::Forward);
    }
    match parse_u16(name) {
        Some(index) => Some(MouseButton::Other(index)),
        None => None,
    }
}

fn parse_gamepad_button(name: &str) -> (r: Option<GamepadButton>)
    ensures
        r == gamepad_button_spec(name@),
{
    if str_eq(name, "South") {
        return Some(GamepadButton::South);
    }
    if str_eq(name, "East") {
        return Some(GamepadButton::East);
    }
    if str_eq(name, "North") {
        return Some(GamepadButton::North);
    }
    if str_eq(name, "West") {
        return Some(GamepadButton::West);
    }
    if str_eq(name, "LeftTrigger") {
        return Some(GamepadButton::LeftTrigger);
    }
    if str_eq(name, "LeftTrigger2") {
        return Some(GamepadButton::LeftTrigger2);
    }
    if str_eq(name, "RightTrigger") {
        return Some(GamepadButton::RightTrigger);
    }
    if str_eq(name, "RightTrigger2") {
        return Some(GamepadButton::RightTrigger2);
    }
    if str_eq(name, "Select") {
        return Some(GamepadButton::Select);
    }
    if str_eq(name, "Start") {
        return Some(GamepadButton::Start);
    }
    if str_eq(name, "Mode") {
        return Some(GamepadButton::Mode);
    }
    if str_eq(name, "LeftThumb") {
        return Some(GamepadButton::LeftThumb);
    }
    if str_eq(name, "RightThumb") {
        return Some(GamepadButton::RightThumb);
    }
    if str_eq(name, "DPadUp") {
        return Some(GamepadButton::DPadUp);
    }
    if str_eq(name, "DPadDown") {
        return Some(GamepadButton::DPadDown);
    }
    if str_eq(name, "DPadLeft") {
        return Some(GamepadButton::DPadLeft);
    }
    if str_eq(name, "DPadRight") {
        return Some(GamepadButton::DPadRight);
    }
    None
}

fn single_char(s: &str) -> (r: Option<char>)
    ensures
        s@.len() == 1 ==> r == Some(s@[0]),
        s@.len() != 1 ==> r is None,
{
    if s.unicode_len() == 1 {
        Some(s.get_char(0))
    } else {
        None
    }
}

pub fn parse_key_code(name: &str) -> (r: Option<KeyCode>)
    ensures
        r == key_code_spec(name@),
{
    if let Some(letter) = strip_prefix(name, "Key") {
        return match single_char(letter) {
            Some(c) => match c {
                'A' => Some(KeyCode::KeyA),
                'B' => Some(KeyCode::KeyB),
                'C' => Some(KeyCode::KeyC),
                'D' => Some(KeyCode::KeyD),
                'E' => Some(KeyCode::KeyE),
                'F' => Some(KeyCode::KeyF),
                'G' => Some(KeyCode::KeyG),
                'H' => Some(KeyCode::KeyH),
                'I' => Some(KeyCode::KeyI),
                'J' => Some(KeyCode::KeyJ),
                'K' => Some(KeyCode::KeyK),
                'L' => Some(KeyCode::KeyL),
                'M' => Some(KeyCode::KeyM),
                'N' => Some(KeyCode::KeyN),
                'O' => Some(KeyCode::KeyO),
                'P' => Some(KeyCode::KeyP),
                'Q' => Some(KeyCode::KeyQ),
                'R' => Some(KeyCode::KeyR),
                'S' => Some(KeyCode::KeyS),
                'T' => Some(KeyCode::KeyT),
                'U' => Some(KeyCode::KeyU),
                'V' => Some(KeyCode::KeyV),
                'W' => Some(KeyCode::KeyW),
                'X' => Some(KeyCode::KeyX),
                'Y' => Some(KeyCode::KeyY),
                'Z' => Some(KeyCode::KeyZ),
                _ => None,
            },
            None => None,
        };
    }
    if let Some(digit) = strip_prefix(name, "Digit") {
        return match single_char(digit) {
            Some(c) => match c {
                '0' => Some(KeyCode::Digit0),
                '1' => Some(KeyCode::Digit1),
                '2' => Some(KeyCode::Digit2),
                '3' => Some(KeyCode::Digit3),
                '4' => Some(KeyCode::Digit4),
                '5' => Some(KeyCode::Digit5),
                '6' => Some(KeyCode::Digit6),
                '7' => Some(KeyCode::Digit7),
                '8' => Some(KeyCode::Digit8),
                '9' => Some(KeyCode::Digit9),
                _ => None,
            },
            None => None,
        };
    }
    if let Some(f) = strip_prefix(name, "F") {
        if let Some(n) = parse_u8(f) {
            if 1 <= n && n <= 12 {
                return Some(
                    match n {
                        1 => KeyCode::F1,
                        2 => KeyCode::F2,
                        3 => KeyCode::F3,
                        4 => KeyCode::F4,
                        5 => KeyCode::F5,
                        6 => KeyCode::F6,
                        7 => KeyCode::F7,
                        8 => KeyCode::F8,
                        9 => KeyCode::F9,
                        10 => KeyCode::F10,
                        11 => KeyCode::F11,
                        _ => KeyCode::F12,
                    },
                );
            }
        }
    }
    if str_eq(name, "Space") {
        return Some(KeyCode::Space);
    }
    if str_eq(name, "Enter") {
        return Some(KeyCode::Enter);
    }
    if str_eq(name, "Escape") {
        return Some(KeyCode::Escape);
    }
    if str_eq(name, "Tab") {
        return Some(KeyCode::Tab);
    }
    if str_eq(name, "Backspace") {
        return Some(KeyCode::Backspace);
    }
    if str_eq(name, "ShiftLeft") {
        return Some(KeyCode::ShiftLeft);
    }
    if str_eq(name, "ShiftRight") {
        return Some(KeyCode::ShiftRight);
    }
    if str_eq(name, "ControlLeft") {
        return Some(KeyCode::ControlLeft);
    }
    if str_eq(name, "ControlRight") {
        return Some(KeyCode::ControlRight);
    }
    if str_eq(name, "AltLeft") {
        return Some(KeyCode::AltLeft);
    }
    if str_eq(name, "AltRight") {
        return Some(KeyCode::AltRight);
    }
    if str_eq(name, "ArrowUp") {
        return Some(KeyCode::ArrowUp);
    }
    if str_eq(name, "ArrowDown") {
        return Some(KeyCode::ArrowDown);
    }
    if str_eq(name, "ArrowLeft") {
        return Some(KeyCode::ArrowLeft);
    }
    if str_eq(name, "ArrowRight") {
        return Some(KeyCode::ArrowRight);
    }
    None
}

impl GutzInputSource {
    /// Reads a binding name such as `KeyA`, `Space`, `MouseLeft` or
    /// `GamepadSouth`; `None` for a name it does not know.
    pub fn parse(name: &str) -> (r: Option<GutzInputSource>)
        ensures
            r == input_source_spec(name@),
    {
        if let Some(rest) = strip_prefix(name, "Mouse") {
            return match parse_mouse_button(rest) {
                Some(b) => Some(GutzInputSource::MouseButton(b)),
                None => None,
            };
        }
        if let Some(rest) = strip_prefix(name, "Gamepad") {
            return match parse_gamepad_button(rest) {
                Some(b) => Some(GutzInputSource::GamepadButton(b)),
                None => None,
            };
        }
        match parse_key_code(name) {
            Some(k) => Some(GutzInputSource::Key(k)),
            None => None,
        }
    }
}

/// The buttons that are in one state this frame (held, or just pressed, or
/// just released), per device. Each connected gamepad has its own list.
pub struct GutzButtonSet {
    pub keys: Vec<KeyCode>,
    pub mouse: Vec<MouseButton>,
    pub gamepads: Vec<Vec<GamepadButton>>,
}

/// `source` is among the buttons of `set`; for a gamepad button, on any
/// connected gamepad.
pub open spec fn listed_in(source: GutzInputSource, set: &GutzButtonSet) -> bool {
    match source {
        GutzInputSource::Key(k) => set.keys@.contains(k),
        GutzInputSource::MouseButton(b) => set.mouse@.contains(b),
        GutzInputSource::GamepadButton(b) => exists|i: int|
            0 <= i < set.gamepads@.len() && (#[trigger] set.gamepads@[i])@.contains(b),
    }
}

fn contains_key(v: &Vec<KeyCode>, k: KeyCode) -> (r: bool)
    ensures
        r == v@.contains(k),
{
    let mut i: usize = 0;
    while i < v.len()
        invariant
            i <= v@.len(),
            forall|j: int| 0 <= j < i ==> v@[j] != k,
        decreases v@.len() - i,
    {
        if v[i] == k {
            return true;
        }
        i = i + 1;
    }
    false
}

fn contains_mouse(v: &Vec<MouseButton>, b: MouseButton) -> (r: bool)
    ensures
        r == v@.contains(b),
{
    let mut i: usize = 0;
    while i < v.len()
        invariant
            i <= v@.len(),
            forall|j: int| 0 <= j < i ==> v@[j] != b,
        decreases v@.len() - i,
    {
        if v[i] == b {
            return true;
        }
        i = i + 1;
    }
    false
}

fn contains_pad(v: &Vec<GamepadButton>, b: GamepadButton) -> (r: bool)
    ensures
        r == v@.contains(b),
{
    let mut i: usize = 0;
    while i < v.len()
        invariant
            i <= v@.len(),
            forall|j: int| 0 <= j < i ==> v@[j] != b,
        decreases v@.len() - i,
    {
        if v[i] == b {
            return true;
        }
        i = i + 1;
    }
    false
}

impl GutzInputSource {
    fn listed(&self, set: &GutzButtonSet) -> (r: bool)
        ensures
            r == listed_in(*self, set),
    {
        match *self {
            GutzInputSource::Key(k) => contains_key(&set.keys, k),
            GutzInputSource::MouseButton(b) => contains_mouse(&set.mouse, b),
            GutzInputSource::GamepadButton(b) => {
                let mut i: usize = 0;
                while i < set.gamepads.len()
                    invariant
                        *self == GutzInputSource::GamepadButton(b),
                        i <= set.gamepads@.len(),
                        forall|j: int| 0 <= j < i ==> !(#[trigger] set.gamepads@[j])@.contains(b),
                    decreases set.gamepads@.len() - i,
                {
                    if contains_pad(&set.gamepads[i], b) {
                        assert(set.gamepads@[i as int]@.contains(b));
                        return true;
                    }
                    i = i + 1;
                }
                false
            },
        }
    }

    /// The input is held this frame; `held` lists the held buttons.
    pub fn pressed(&self, held: &GutzButtonSet) -> (r: bool)
        ensures
            r == listed_in(*self, held),
    {
        self.listed(held)
    }

    /// The input went down this frame; `pressed_now` lists the buttons that
    /// went down.
    pub fn just_pressed(&self, pressed_now: &GutzButtonSet) -> (r: bool)
        ensures
            r == listed_in(*self, pressed_now),
    {
        self.listed(pressed_now)
    }

    /// The input came up this frame; `released_now` lists the buttons that
    /// came up.
    pub fn just_released(&self, released_now: &GutzButtonSet) -> (r: bool)
        ensures
            r == listed_in(*self, released_now),
    {
        self.listed(released_now)
    }
}

/// The name a binding file uses for a key: the variant's own name.
pub open spec fn key_code_name(k: KeyCode) -> Seq<char> {
    match k {
        KeyCode::KeyA => "Key"@ + seq!['A'],
        KeyCode::KeyB => "Key"@ + seq!['B'],
        KeyCode::KeyC => "Key"@ + seq!['C'],
        KeyCode::KeyD => "Key"@ + seq!['D'],
        KeyCode::KeyE => "Key"@ + seq!['E'],
        KeyCode::KeyF => "Key"@ + seq!['F'],
        KeyCode::KeyG => "Key"@ + seq!['G'],
        KeyCode::KeyH => "Key"@ + seq!['H'],
        KeyCode::KeyI => "Key"@ + seq!['I'],
        KeyCode::KeyJ => "Key"@ + seq!['J'],
        KeyCode::KeyK => "Key"@ + seq!['K'],
        KeyCode::KeyL => "Key"@ + seq!['L'],
        KeyCode::KeyM => "Key"@ + seq!['M'],
        KeyCode::KeyN => "Key"@ + seq!['N'],
        KeyCode::KeyO => "Key"@ + seq!['O'],
        KeyCode::KeyP => "Key"@ + seq!['P'],
        KeyCode::KeyQ => "Key"@ + seq!['Q'],
        KeyCode::KeyR => "Key"@ + seq!['R'],
        KeyCode::KeyS => "Key"@ + seq!['S'],
        KeyCode::KeyT => "Key"@ + seq!['T'],
        KeyCode::KeyU => "Key"@ + seq!['U'],
        KeyCode::KeyV => "Key"@ + seq!['V'],
        KeyCode::KeyW => "Key"@ + seq!['W'],
        KeyCode::KeyX => "Key"@ + seq!['X'],
        KeyCode::KeyY => "Key"@ + seq!['Y'],
        KeyCode::KeyZ => "Key"@ + seq!['Z'],
        KeyCode::Digit0 => "Digit"@ + seq!['0'],
        KeyCode::Digit1 => "Digit"@ + seq!['1'],
        KeyCode::Digit2 => "Digit"@ + seq!['2'],
        KeyCode::Digit3 => "Digit"@ + seq!['3'],
        KeyCode::Digit4 => "Digit"@ + seq!['4'],
        KeyCode::Digit5 => "Digit"@ + seq!['5'],
        KeyCode::Digit6 => "Digit"@ + seq!['6'],
        KeyCode::Digit7 => "Digit"@ + seq!['7'],
        KeyCode::Digit8 => "Digit"@ + seq!['8'],
        KeyCode::Digit9 => "Digit"@ + seq!['9'],
        KeyCode::F1 => "F"@ + decimal(1),
        KeyCode::F2 => "F"@ + decimal(2),
        KeyCode::F3 => "F"@ + decimal(3),
        KeyCode::F4 => "F"@ + decimal(4),
        KeyCode::F5 => "F"@ + decimal(5),
        KeyCode::F6 => "F"@ + decimal(6),
        KeyCode::F7 => "F"@ + decimal(7),
        KeyCode::F8 => "F"@ + decimal(8),
        KeyCode::F9 => "F"@ + decimal(9),
        KeyCode::F10 => "F"@ + decimal(10),
        KeyCode::F11 => "F"@ + decimal(11),
        KeyCode::F12 => "F"@ + decimal(12),
        KeyCode::Space => "Space"@,
        KeyCode::Enter => "Enter"@,
        KeyCode::Escape => "Escape"@,
        KeyCode::Tab => "Tab"@,
        KeyCode::Backspace => "Backspace"@,
        KeyCode::ShiftLeft => "ShiftLeft"@,
        KeyCode::ShiftRight => "ShiftRight"@,
        KeyCode::ControlLeft => "ControlLeft"@,
        KeyCode::ControlRight => "ControlRight"@,
        KeyCode::AltLeft => "AltLeft"@,
        KeyCode::AltRight => "AltRight"@,
        KeyCode::ArrowUp => "ArrowUp"@,
        KeyCode::ArrowDown => "ArrowDown"@,
        KeyCode::ArrowLeft => "ArrowLeft"@,
        KeyCode::ArrowRight => "ArrowRight"@,
    }
}

proof fn lemma_not_device_prefixed(s: Seq<char>)
    requires
        s.len() > 0,
        s[0] != 'M',
        s[0] != 'G',
    ensures
        input_source_spec(s) == match key_code_spec(s) {
            Some(k) => Some(GutzInputSource::Key(k)),
            None => None,
        },
{
    reveal_strlit("Mouse");
    reveal_strlit("Gamepad");
    assert(!has_prefix(s, "Mouse"@)) by {
        if has_prefix(s, "Mouse"@) {
            assert(s.subrange(0, 5)[0] == s[0]);
        }
    }
    assert(!has_prefix(s, "Gamepad"@)) by {
        if has_prefix(s, "Gamepad"@) {
            assert(s.subrange(0, 7)[0] == s[0]);
        }
    }
}

proof fn lemma_letter_name(c: char)
    requires
        letter_key(c) is Some,
    ensures
        key_code_spec("Key"@ + seq![c]) == letter_key(c),
        input_source_spec("Key"@ + seq![c]) == Some(GutzInputSource::Key(letter_key(c)->Some_0)),
{
    reveal_strlit("Key");
    let s = "Key"@ + seq![c];
    assert(s.subrange(0, 3) =~= "Key"@);
    assert(after_prefix(s, "Key"@) =~= seq![c]);
    lemma_not_device_prefixed(s);
}

proof fn lemma_digit_name(c: char)
    requires
        digit_key(c) is Some,
    ensures
        key_code_spec("Digit"@ + seq![c]) == digit_key(c),
        input_source_spec("Digit"@ + seq![c]) == Some(GutzInputSource::Key(digit_key(c)->Some_0)),
{
    reveal_strlit("Key");
    reveal_strlit("Digit");
    let s = "Digit"@ + seq![c];
    assert(!has_prefix(s, "Key"@)) by {
        if has_prefix(s, "Key"@) {
            assert(s.subrange(0, 3)[0] == s[0]);
        }
    }
    assert(s.subrange(0, 5) =~= "Digit"@);
    assert(after_prefix(s, "Digit"@) =~= seq![c]);
    lemma_not_device_prefixed(s);
}

proof fn lemma_function_name(n: nat)
    requires
        1 <= n <= 12,
    ensures
        key_code_spec("F"@ + decimal(n)) == Some(function_key(n)),
        input_source_spec("F"@ + decimal(n)) == Some(GutzInputSource::Key(function_key(n))),
{
    reveal_strlit("Key");
    reveal_strlit("Digit");
    reveal_strlit("F");
    let s = "F"@ + decimal(n);
    assert(!has_prefix(s, "Key"@)) by {
        if has_prefix(s, "Key"@) {
            assert(s.subrange(0, 3)[0] == s[0]);
        }
    }
    assert(!has_prefix(s, "Digit"@)) by {
        if has_prefix(s, "Digit"@) {
            assert(s.subrange(0, 5)[0] == s[0]);
        }
    }
    assert(s.subrange(0, 1) =~= "F"@);
    assert(after_prefix(s, "F"@) =~= decimal(n));
    lemma_parse_decimal(n, u8::MAX as nat);
    lemma_not_device_prefixed(s);
}

proof fn lemma_named_name(k: KeyCode)
    requires
        k is Space || k is Enter || k is Escape || k is Tab || k is Backspace || k is ShiftLeft
            || k is ShiftRight || k is ControlLeft || k is ControlRight || k is AltLeft
            || k is AltRight || k is ArrowUp || k is ArrowDown || k is ArrowLeft || k is ArrowRight,
    ensures
        key_code_spec(key_code_name(k)) == Some(k),
        input_source_spec(key_code_name(k)) == Some(GutzInputSource::Key(k)),
{
    reveal_strlit("Key");
    reveal_strlit("Digit");
    reveal_strlit("F");
    reveal_strlit("Space");
    reveal_strlit("Enter");
    reveal_strlit("Escape");
    reveal_strlit("Tab");
    reveal_strlit("Backspace");
    reveal_strlit("ShiftLeft");
    reveal_strlit("ShiftRight");
    reveal_strlit("ControlLeft");
    reveal_strlit("ControlRight");
    reveal_strlit("AltLeft");
    reveal_strlit("AltRight");
    reveal_strlit("ArrowUp");
    reveal_strlit("ArrowDown");
    reveal_strlit("ArrowLeft");
    reveal_strlit("ArrowRight");
    let s = key_code_name(k);
    assert(s.len() > 0 && s[0] != 'K' && s[0] != 'D' && s[0] != 'F' && s[0] != 'M' && s[0] != 'G');
    assert(!has_prefix(s, "Key"@)) by {
        if has_prefix(s, "Key"@) {
            assert(s.subrange(0, 3)[0] == s[0]);
        }
    }
    assert(!has_prefix(s, "Digit"@)) by {
        if has_prefix(s, "Digit"@) {
            assert(s.subrange(0, 5)[0] == s[0]);
        }
    }
    assert(!has_prefix(s, "F"@)) by {
        if has_prefix(s, "F"@) {
            assert(s.subrange(0, 1)[0] == s[0]);
        }
    }
    lemma_not_device_prefixed(s);
}

/// Every key reads back from its own name: `KeyA`, `Digit7`, `F12`,
/// `Escape` and so on each parse to that key, as a key name and as an input
/// name.
pub proof fn law_key_names_round_trip(k: KeyCode)
    ensures
        key_code_spec(key_code_name(k)) == Some(k),
        input_source_spec(key_code_name(k)) == Some(GutzInputSource::Key(k)),
{
    match k {
        KeyCode::KeyA => lemma_letter_name('A'),
        KeyCode::KeyB => lemma_letter_name('B'),
        KeyCode::KeyC => lemma_letter_name('C'),
        KeyCode::KeyD => lemma_letter_name('D'),
        KeyCode::KeyE => lemma_letter_name('E'),
        KeyCode::KeyF => lemma_letter_name('F'),
        KeyCode::KeyG => lemma_letter_name('G'),
        KeyCode::KeyH => lemma_letter_name('H'),
        KeyCode::KeyI => lemma_letter_name('I'),
        KeyCode::KeyJ => lemma_letter_name('J'),
        KeyCode::KeyK => lemma_letter_name('K'),
        KeyCode::KeyL => lemma_letter_name('L'),
        KeyCode::KeyM => lemma_letter_name('M'),
        KeyCode::KeyN => lemma_letter_name('N'),
        KeyCode::KeyO => lemma_letter_name('O'),
        KeyCode::KeyP => lemma_letter_name('P'),
        KeyCode::KeyQ => lemma_letter_name('Q'),
        KeyCode::KeyR => lemma_letter_name('R'),
        KeyCode::KeyS => lemma_letter_name('S'),
        KeyCode::KeyT => lemma_letter_name('T'),
        KeyCode::KeyU => lemma_letter_name('U'),
        KeyCode::KeyV => lemma_letter_name('V'),
        KeyCode::KeyW => lemma_letter_name('W'),
        KeyCode::KeyX => lemma_letter_name('X'),
        KeyCode::KeyY => lemma_letter_name('Y'),
        KeyCode::KeyZ => lemma_letter_name('Z'),
        KeyCode::Digit0 => lemma_digit_name('0'),
        KeyCode::Digit1 => lemma_digit_name('1'),
        KeyCode::Digit2 => lemma_digit_name('2'),
        KeyCode::Digit3 => lemma_digit_name('3'),
        KeyCode::Digit4 => lemma_digit_name('4'),
        KeyCode::Digit5 => lemma_digit_name('5'),
        KeyCode::Digit6 => lemma_digit_name('6'),
        KeyCode::Digit7 => lemma_digit_name('7'),
        KeyCode::Digit8 => lemma_digit_name('8'),
        KeyCode::Digit9 => lemma_digit_name('9'),
        KeyCode::F1 => lemma_function_name(1),
        KeyCode::F2 => lemma_function_name(2),
        KeyCode::F3 => lemma_function_name(3),
        KeyCode::F4 => lemma_function_name(4),
        KeyCode::F5 => lemma_function_name(5),
        KeyCode::F6 => lemma_function_name(6),
        KeyCode::F7 => lemma_function_name(7),
        KeyCode::F8 => lemma_function_name(8),
        KeyCode::F9 => lemma_function_name(9),
        KeyCode::F10 => lemma_function_name(10),
        KeyCode::F11 => lemma_function_name(11),
        KeyCode::F12 => lemma_function_name(12),
        KeyCode::Space => lemma_named_name(k),
        KeyCode::Enter => lemma_named_name(k),
        KeyCode::Escape => lemma_named_name(k),
        KeyCode::Tab => lemma_named_name(k),
        KeyCode::Backspace => lemma_named_name(k),
        KeyCode::ShiftLeft => lemma_named_name(k),
        KeyCode::ShiftRight => lemma_named_name(k),
        KeyCode::ControlLeft => lemma_named_name(k),
        KeyCode::ControlRight => lemma_named_name(k),
        KeyCode::AltLeft => lemma_named_name(k),
        KeyCode::AltRight => lemma_named_name(k),
        KeyCode::ArrowUp => lemma_named_name(k),
        KeyCode::ArrowDown => lemma_named_name(k),
        KeyCode::ArrowLeft => lemma_named_name(k),
        KeyCode::ArrowRight => lemma_named_name(k),
    }
}

/// A key is read only from a key name: `Key` and one letter, `Digit` and
/// one digit, `F` and a number from 1 to 12 as `u8` parsing reads it
/// (`F01` too), or one of the special key words.
pub proof fn law_only_key_names_parse(s: Seq<char>)
    ensures
        key_code_spec(s) is Some ==> {
            ||| exists|c: char| letter_key(c) is Some && s == "Key"@ + seq![c]
            ||| exists|c: char| digit_key(c) is Some && s == "Digit"@ + seq![c]
            ||| has_prefix(s, "F"@) && (parse_unsigned(after_prefix(s, "F"@), u8::MAX as nat) matches Some(n) && 1 <= n <= 12)
            ||| named_key(s) is Some
        },
{
    if key_code_spec(s) is Some {
        if has_prefix(s, "Key"@) {
            let c = after_prefix(s, "Key"@)[0];
            assert(s =~= "Key"@ + seq![c]);
        } else if has_prefix(s, "Digit"@) {
            let c = after_prefix(s, "Digit"@)[0];
            assert(s =~= "Digit"@ + seq![c]);
        }
    }
}

/// The name a binding file uses for a gamepad button after `Gamepad`: the
/// variant's own name.
pub open spec fn gamepad_button_name(b: GamepadButton) -> Seq<char> {
    match b {
        GamepadButton::South => "South"@,
        GamepadButton::East => "East"@,
        GamepadButton::North => "North"@,
        GamepadButton::West => "West"@,
        GamepadButton::LeftTrigger => "LeftTrigger"@,
        GamepadButton::LeftTrigger2 => "LeftTrigger2"@,
        GamepadButton::RightTrigger => "RightTrigger"@,
        GamepadButton::RightTrigger2 => "RightTrigger2"@,
        GamepadButton::Select => "Select"@,
        GamepadButton::Start => "Start"@,
        GamepadButton::Mode => "Mode"@,
        GamepadButton::LeftThumb => "LeftThumb"@,
        GamepadButton::RightThumb => "RightThumb"@,
        GamepadButton::DPadUp => "DPadUp"@,
        GamepadButton::DPadDown => "DPadDown"@,
        GamepadButton::DPadLeft => "DPadLeft"@,
        GamepadButton::DPadRight => "DPadRight"@,
    }
}

/// The name a binding file uses for a mouse button after `Mouse`: the
/// variant's own name, or the number of another button.
pub open spec fn mouse_button_name(b: MouseButton) -> Seq<char> {
    match b {
        MouseButton::Left => "Left"@,
        MouseButton::Right => "Right"@,
        MouseButton::Middle => "Middle"@,
        MouseButton::Back => "Back"@,
        MouseButton::Forward => "Forward"@,
        MouseButton::Other(n) => decimal(n as nat),
    }
}

proof fn lemma_gamepad_name(b: GamepadButton)
    ensures
        gamepad_button_spec(gamepad_button_name(b)) == Some(b),
{
    reveal_strlit("South");
    reveal_strlit("East");
    reveal_strlit("North");
    reveal_strlit("West");
    reveal_strlit("LeftTrigger");
    reveal_strlit("LeftTrigger2");
    reveal_strlit("RightTrigger");
    reveal_strlit("RightTrigger2");
    reveal_strlit("Select");
    reveal_strlit("Start");
    reveal_strlit("Mode");
    reveal_strlit("LeftThumb");
    reveal_strlit("RightThumb");
    reveal_strlit("DPadUp");
    reveal_strlit("DPadDown");
    reveal_strlit("DPadLeft");
    reveal_strlit("DPadRight");
    match b {
        GamepadButton::South => {

        },
        GamepadButton::East => {
            assert("East"@.len() != "South"@.len());
        },
        GamepadButton::North => {
            assert("North"@[0] != "South"@[0]);
            assert("North"@.len() != "East"@.len());
        },
        GamepadButton::West => {
            assert("West"@.len() != "South"@.len());
            assert("West"@[0] != "East"@[0]);
            assert("West"@.len() != "North"@.len());
        },
        GamepadButton::LeftTrigger => {
            assert("LeftTrigger"@.len() != "South"@.len());
            assert("LeftTrigger"@.len() != "East"@.len());
            assert("LeftTrigger"@.len() != "North"@.len());
            assert("LeftTrigger"@.len() != "West"@.len());
        },
        GamepadButton::LeftTrigger2 => {
            assert("LeftTrigger2"@.len() != "South"@.len());
            assert("LeftTrigger2"@.len() != "East"@.len());
            assert("LeftTrigger2"@.len() != "North"@.len());
            assert("LeftTrigger2"@.len() != "West"@.len());
            assert("LeftTrigger2"@.len() != "LeftTrigger"@.len());
        },
        GamepadButton::RightTrigger => {
            assert("RightTrigger"@.len() != "South"@.len());
            assert("RightTrigger"@.len() != "East"@.len());
            assert("RightTrigger"@.len() != "North"@.len());
            assert("RightTrigger"@.len() != "West"@.len());
            assert("RightTrigger"@.len() != "LeftTrigger"@.len());
            assert("RightTrigger"@[0] != "LeftTrigger2"@[0]);
        },
        GamepadButton::RightTrigger2 => {
            assert("RightTrigger2"@.len() != "South"@.len());
            assert("RightTrigger2"@.len() != "East"@.len());
            assert("RightTrigger2"@.len() != "North"@.len());
            assert("RightTrigger2"@.len() != "West"@.len());
            assert("RightTrigger2"@.len() != "LeftTrigger"@.len());
            assert("RightTrigger2"@.len() != "LeftTrigger2"@.len());
            assert("RightTrigger2"@.len() != "RightTrigger"@.len());
        },
        GamepadButton::Select => {
            assert("Select"@.len() != "South"@.len());
            assert("Select"@.len() != "East"@.len());
            assert("Select"@.len() != "North"@.len());
            assert("Select"@.len() != "West"@.len());
            assert("Select"@.len() != "LeftTrigger"@.len());
            assert("Select"@.len() != "LeftTrigger2"@.len());
            assert("Select"@.len() != "RightTrigger"@.len());
            assert("Select"@.len() != "RightTrigger2"@.len());
        },
        GamepadButton::Start => {
            assert("Start"@[1] != "South"@[1]);
            assert("Start"@.len() != "East"@.len());
            assert("Start"@[0] != "North"@[0]);
            assert("Start"@.len() != "West"@.len());
            assert("Start"@.len() != "LeftTrigger"@.len());
            assert("Start"@.len() != "LeftTrigger2"@.len());
            assert("Start"@.len() != "RightTrigger"@.len());
            assert("Start"@.len() != "RightTrigger2"@.len());
            assert("Start"@.len() != "Select"@.len());
        },
        GamepadButton::Mode => {
            assert("Mode"@.len() != "South"@.len());
            assert("Mode"@[0] != "East"@[0]);
            assert("Mode"@.len() != "North"@.len());
            assert("Mode"@[0] != "West"@[0]);
            assert("Mode"@.len() != "LeftTrigger"@.len());
            assert("Mode"@.len() != "LeftTrigger2"@.len());
            assert("Mode"@.len() != "RightTrigger"@.len());
            assert("Mode"@.len() != "RightTrigger2"@.len());
            assert("Mode"@.len() != "Select"@.len());
            assert("Mode"@.len() != "Start"@.len());
        },
        GamepadButton::LeftThumb => {
            assert("LeftThumb"@.len() != "South"@.len());
            assert("LeftThumb"@.len() != "East"@.len());
            assert("LeftThumb"@.len() != "North"@.len());
            assert("LeftThumb"@.len() != "West"@.len());
            assert("LeftThumb"@.len() != "LeftTrigger"@.len());
            assert("LeftThumb"@.len() != "LeftTrigger2"@.len());
            assert("LeftThumb"@.len() != "RightTrigger"@.len());
            assert("LeftThumb"@.len() != "RightTrigger2"@.len());
            assert("LeftThumb"@.len() != "Select"@.len());
            assert("LeftThumb"@.len() != "Start"@.len());
            assert("LeftThumb"@.len() != "Mode"@.len());
        },
        GamepadButton::RightThumb => {
            assert("RightThumb"@.len() != "South"@.len());
            assert("RightThumb"@.len() != "East"@.len());
            assert("RightThumb"@.len() != "North"@.len());
            assert("RightThumb"@.len() != "West"@.len());
            assert("RightThumb"@.len() != "LeftTrigger"@.len());
            assert("RightThumb"@.len() != "LeftTrigger2"@.len());
            assert("RightThumb"@.len() != "RightTrigger"@.len());
            assert("RightThumb"@.len() != "RightTrigger2"@.len());
            assert("RightThumb"@.len() != "Select"@.len());
            assert("RightThumb"@.len() != "Start"@.len());
            assert("RightThumb"@.len() != "Mode"@.len());
            assert("RightThumb"@.len() != "LeftThumb"@.len());
        },
        GamepadButton::DPadUp => {
            assert("DPadUp"@.len() != "South"@.len());
            assert("DPadUp"@.len() != "East"@.len());
            assert("DPadUp"@.len() != "North"@.len());
            assert("DPadUp"@.len() != "West"@.len());
            assert("DPadUp"@.len() != "LeftTrigger"@.len());
            assert("DPadUp"@.len() != "LeftTrigger2"@.len());
            assert("DPadUp"@.len() != "RightTrigger"@.len());
            assert("DPadUp"@.len() != "RightTrigger2"@.len());
            assert("DPadUp"@[0] != "Select"@[0]);
            assert("DPadUp"@.len() != "Start"@.len());
            assert("DPadUp"@.len() != "Mode"@.len());
            assert("DPadUp"@.len() != "LeftThumb"@.len());
            assert("DPadUp"@.len() != "RightThumb"@.len());
        },
        GamepadButton::DPadDown => {
            assert("DPadDown"@.len() != "South"@.len());
            assert("DPadDown"@.len() != "East"@.len());
            assert("DPadDown"@.len() != "North"@.len());
            assert("DPadDown"@.len() != "West"@.len());
            assert("DPadDown"@.len() != "LeftTrigger"@.len());
            assert("DPadDown"@.len() != "LeftTrigger2"@.len());
            assert("DPadDown"@.len() != "RightTrigger"@.len());
            assert("DPadDown"@.len() != "RightTrigger2"@.len());
            assert("DPadDown"@.len() != "Select"@.len());
            assert("DPadDown"@.len() != "Start"@.len());
            assert("DPadDown"@.len() != "Mode"@.len());
            assert("DPadDown"@.len() != "LeftThumb"@.len());
            assert("DPadDown"@.len() != "RightThumb"@.len());
            assert("DPadDown"@.len() != "DPadUp"@.len());
        },
        GamepadButton::DPadLeft => {
            assert("DPadLeft"@.len() != "South"@.len());
            assert("DPadLeft"@.len() != "East"@.len());
            assert("DPadLeft"@.len() != "North"@.len());
            assert("DPadLeft"@.len() != "West"@.len());
            assert("DPadLeft"@.len() != "LeftTrigger"@.len());
            assert("DPadLeft"@.len() != "LeftTrigger2"@.len());
            assert("DPadLeft"@.len() != "RightTrigger"@.len());
            assert("DPadLeft"@.len() != "RightTrigger2"@.len());
            assert("DPadLeft"@.len() != "Select"@.len());
            assert("DPadLeft"@.len() != "Start"@.len());
            assert("DPadLeft"@.len() != "Mode"@.len());
            assert("DPadLeft"@.len() != "LeftThumb"@.len());
            assert("DPadLeft"@.len() != "RightThumb"@.len());
            assert("DPadLeft"@.len() != "DPadUp"@.len());
            assert("DPadLeft"@[4] != "DPadDown"@[4]);
        },
        GamepadButton::DPadRight => {
            assert("DPadRight"@.len() != "South"@.len());
            assert("DPadRight"@.len() != "East"@.len());
            assert("DPadRight"@.len() != "North"@.len());
            assert("DPadRight"@.len() != "West"@.len());
            assert("DPadRight"@.len() != "LeftTrigger"@.len());
            assert("DPadRight"@.len() != "LeftTrigger2"@.len());
            assert("DPadRight"@.len() != "RightTrigger"@.len());
            assert("DPadRight"@.len() != "RightTrigger2"@.len());
            assert("DPadRight"@.len() != "Select"@.len());
            assert("DPadRight"@.len() != "Start"@.len());
            assert("DPadRight"@.len() != "Mode"@.len());
            assert("DPadRight"@[0] != "LeftThumb"@[0]);
            assert("DPadRight"@.len() != "RightThumb"@.len());
            assert("DPadRight"@.len() != "DPadUp"@.len());
            assert("DPadRight"@.len() != "DPadDown"@.len());
            assert("DPadRight"@.len() != "DPadLeft"@.len());
        },
    }
}

proof fn lemma_mouse_name(b: MouseButton)
    ensures
        mouse_button_spec(mouse_button_name(b)) == Some(b),
{
    reveal_strlit("Left");
    reveal_strlit("Right");
    reveal_strlit("Middle");
    reveal_strlit("Back");
    reveal_strlit("Forward");
    if let MouseButton::Other(n) = b {
        lemma_decimal_digits(n as nat);
        lemma_parse_decimal(n as nat, u16::MAX as nat);
        let d = decimal(n as nat);
        assert(d != "Left"@ && d != "Right"@ && d != "Middle"@ && d != "Back"@ && d != "Forward"@) by {
            assert("Left"@[0] == 'L' && "Right"@[0] == 'R' && "Middle"@[0] == 'M' && "Back"@[0] == 'B'
                && "Forward"@[0] == 'F');
        }
    }
}

/// Every gamepad button reads back from its own name: `Gamepad` followed by
/// the button's name (`GamepadNorth`, `GamepadDPadLeft`, ...) is that button,
/// and a gamepad button is read only from its own name.
pub proof fn law_gamepad_names_round_trip(b: GamepadButton, s: Seq<char>)
    ensures
        gamepad_button_spec(gamepad_button_name(b)) == Some(b),
        input_source_spec("Gamepad"@ + gamepad_button_name(b)) == Some(GutzInputSource::GamepadButton(b)),
        gamepad_button_spec(s) == Some(b) ==> s == gamepad_button_name(b),
{
    lemma_gamepad_name(b);
    reveal_strlit("Mouse");
    reveal_strlit("Gamepad");
    let t = "Gamepad"@ + gamepad_button_name(b);
    assert(t.subrange(0, 7) =~= "Gamepad"@);
    assert(after_prefix(t, "Gamepad"@) =~= gamepad_button_name(b));
    assert(!has_prefix(t, "Mouse"@)) by {
        if has_prefix(t, "Mouse"@) {
            assert(t.subrange(0, 5)[0] == t[0]);
        }
    }
}

/// Every mouse button reads back from its own name: `Mouse` followed by the
/// button's name (`MouseLeft`, `MouseForward`) or, for another button, its
/// number (`Mouse5`) is that button, and a named mouse button is read only
/// from its own name.
pub proof fn law_mouse_names_round_trip(b: MouseButton, s: Seq<char>)
    ensures
        mouse_button_spec(mouse_button_name(b)) == Some(b),
        input_source_spec("Mouse"@ + mouse_button_name(b)) == Some(GutzInputSource::MouseButton(b)),
        b !is Other ==> (mouse_button_spec(s) == Some(b) ==> s == mouse_button_name(b)),
{
    lemma_mouse_name(b);
    reveal_strlit("Mouse");
    let t = "Mouse"@ + mouse_button_name(b);
    assert(t.subrange(0, 5) =~= "Mouse"@);
    assert(after_prefix(t, "Mouse"@) =~= mouse_button_name(b));
}

/// A gamepad button counts as listed exactly when some connected gamepad
/// lists it, whichever of them that is; keys and mouse buttons count when
/// their own list holds them.
pub proof fn law_any_gamepad_counts(b: GamepadButton, set: GutzButtonSet, i: int)
    ensures
        0 <= i < set.gamepads@.len() && set.gamepads@[i]@.contains(b) ==> listed_in(
            GutzInputSource::GamepadButton(b),
            &set,
        ),
        listed_in(GutzInputSource::GamepadButton(b), &set) ==> exists|j: int|
            0 <= j < set.gamepads@.len() && set.gamepads@[j]@.contains(b),
        (forall|j: int| 0 <= j < set.gamepads@.len() ==> !set.gamepads@[j]@.contains(b)) ==> !listed_in(
            GutzInputSource::GamepadButton(b),
            &set,
        ),
{
}

} // verus!
