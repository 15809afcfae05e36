use vstd::prelude::*;

use crate::text::str_eq;

verus! {

/// A key on the keyboard that a key binding can name.
#[derive(PartialEq, Eq, Structural, Clone, Copy, Debug)]
pub enum KeyCode {
    Escape,
    Up,
    Down,
    Left,
    Right,
    Q,
    W,
    E,
    R,
    T,
    Y,
    U,
    I,
    O,
    P,
    LeftBracket,
    RightBracket,
    Backslash,
    A,
    S,
    D,
    F,
    G,
    H,
    J,
    K,
    L,
    Semicolon,
    Apostrophe,
    Enter,
    LeftShift,
    Z,
    X,
    C,
    V,
    B,
    N,
    M,
    Comma,
    Period,
    Slash,
    RightShift,
    LeftControl,
    LeftAlt,
}

/// A mouse button that a key binding can name.
#[derive(PartialEq, Eq, Structural, Clone, Copy, Debug)]
pub enum MouseButton {
    Left,
    Right,
    Middle,
}

/// The input that a key binding is read from.
#[derive(PartialEq, Eq, Structural, Clone, Copy, Debug)]
pub enum Binding {
    Mouse(MouseButton),
    Keyboard(KeyCode),
}

/// The key code that a binding name stands for: the key of that name.
pub open spec fn keycode_of(name: Seq<char>) -> Option<KeyCode> {
    if name == "Escape"@ {
        Some(KeyCode::Escape)
    } else if name == "Up"@ {
        Some(KeyCode::Up)
    } else if name == "Down"@ {
        Some(KeyCode::Down)
    } else if name == "Left"@ {
        Some(KeyCode::Left)
    } else if name == "Right"@ {
        Some(KeyCode::Right)
    } else if name == "Q"@ {
        Some(KeyCode::Q)
    } else if name == "W"@ {
        Some(KeyCode::W)
    } else if name == "E"@ {
        Some(KeyCode::E)
    } else if name == "R"@ {
        Some(KeyCode::R)
    } else if name == "T"@ {
        Some(KeyCode::T)
    } else if name == "Y"@ {
        Some(KeyCode::Y)
    } else if name == "U"@ {
        Some(KeyCode::U)
    } else if name == "I"@ {
        Some(KeyCode::I)
    } else if name == "O"@ {
        Some(KeyCode::O)
    } else if name == "P"@ {
        Some(KeyCode::P)
    } else if name == "LeftBracket"@ {
        Some(KeyCode::LeftBracket)
    } else if name == "RightBracket"@ {
        Some(KeyCode::RightBracket)
    } else if name == "Backslash"@ {
        Some(KeyCode::Backslash)
    } else if name == "A"@ {
        Some(KeyCode::A)
    } else if name == "S"@ {
        Some(KeyCode::S)
    } else if name == "D"@ {
        Some(KeyCode::D)
    } else if name == "F"@ {
        Some(KeyCode::F)
    } else if name == "G"@ {
        Some(KeyCode::G)
    } else if name == "H"@ {
        Some(KeyCode::H)
    } else if name == "J"@ {
        Some(KeyCode::J)
    } else if name == "K"@ {
        Some(KeyCode::K)
    } else if name == "L"@ {
        Some(KeyCode::L)
    } else if name == "Semicolon"@ {
        Some(KeyCode::Semicolon)
    } else if name == "Apostrophe"@ {
        Some(KeyCode::Apostrophe)
    } else if name == "Enter"@ {
        Some(KeyCode::Enter)
    } else if name == "LeftShift"@ {
        Some(KeyCode::LeftShift)
    } else if name == "Z"@ {
        Some(KeyCode::Z)
    } else if name == "X"@ {
        Some(KeyCode::X)
    } else if name == "C"@ {
        Some(KeyCode::C)
    } else if name == "V"@ {
        Some(KeyCode::V)
    } else if name == "B"@ {
        Some(KeyCode::B)
    } else if name == "N"@ {
        Some(KeyCode::N)
    } else if name == "M"@ {
        Some(KeyCode::M)
    } else if name == "Comma"@ {
        Some(KeyCode::Comma)
    } else if name == "Period"@ {
        Some(KeyCode::Period)
    } else if name == "Slash"@ {
        Some(KeyCode::Slash)
    } else if name == "RightShift"@ {
        Some(KeyCode::RightShift)
    } else if name == "LeftControl"@ {
        Some(KeyCode::LeftControl)
    } else if name == "LeftAlt"@ {
        Some(KeyCode::LeftAlt)
    } else {
        None
    }
}

/// The name of each key, as a binding names it.
pub open spec fn key_name(k: KeyCode) -> Seq<char> {
    match k {
        KeyCode::Escape => "Escape"@,
        KeyCode::Up => "Up"@,
        KeyCode::Down => "Down"@,
        KeyCode::Left => "Left"@,
        KeyCode::Right => "Right"@,
        KeyCode::Q => "Q"@,
        KeyCode::W => "W"@,
        KeyCode::E => "E"@,
        KeyCode::R => "R"@,
        KeyCode::T => "T"@,
        KeyCode::Y => "Y"@,
        KeyCode::U => "U"@,
        KeyCode::I => "I"@,
        KeyCode::O => "O"@,
        KeyCode::P => "P"@,
        KeyCode::LeftBracket => "LeftBracket"@,
        KeyCode::RightBracket => "RightBracket"@,
        KeyCode::Backslash => "Backslash"@,
        KeyCode::A => "A"@,
        KeyCode::S => "S"@,
        KeyCode::D => "D"@,
        KeyCode::F => "F"@,
        KeyCode::G => "G"@,
        KeyCode::H => "H"@,
        KeyCode::J => "J"@,
        KeyCode::K => "K"@,
        KeyCode::L => "L"@,
        KeyCode::Semicolon => "Semicolon"@,
        KeyCode::Apostrophe => "Apostrophe"@,
        KeyCode::Enter => "Enter"@,
        KeyCode::LeftShift => "LeftShift"@,
        KeyCode::Z => "Z"@,
        KeyCode::X => "X"@,
        KeyCode::C => "C"@,
        KeyCode::V => "V"@,
        KeyCode::B => "B"@,
        KeyCode::N => "N"@,
        KeyCode::M => "M"@,
        KeyCode::Comma => "Comma"@,
        KeyCode::Period => "Period"@,
        KeyCode::Slash => "Slash"@,
        KeyCode::RightShift => "RightShift"@,
        KeyCode::LeftControl => "LeftControl"@,
        KeyCode::LeftAlt => "LeftAlt"@,
    }
}

/// Each key's own name stands for that key: parsing the name of a key gives
/// the key back, so no two keys are mixed up, and a binding with that name is
/// read from that key.
#[verifier::rlimit(100)]
pub proof fn lemma_key_names_parse(k: KeyCode)
    ensures
        keycode_of(key_name(k)) == Some(k),
        binding_of(key_name(k)) == Some(Binding::Keyboard(k)),
{
    reveal_strlit("Escape");
    assert("Escape"@.len() == 6);
    assert("Escape"@[0] == 'E');
    assert("Escape"@[1] == 's');
    assert("Escape"@[2] == 'c');
    assert("Escape"@[3] == 'a');
    assert("Escape"@[4] == 'p');
    assert("Escape"@[5] == 'e');
    reveal_strlit("Up");
    assert("Up"@.len() == 2);
    assert("Up"@[0] == 'U');
    assert("Up"@[1] == 'p');
    reveal_strlit("Down");
    assert("Down"@.len() == 4);
    assert("Down"@[0] == 'D');
    assert("Down"@[1] == 'o');
    assert("Down"@[2] == 'w');
    assert("Down"@[3] == 'n');
    reveal_strlit("Left");
    assert("Left"@.len() == 4);
    assert("Left"@[0] == 'L');
    assert("Left"@[1] == 'e');
    assert("Left"@[2] == 'f');
    assert("Left"@[3] == 't');
    reveal_strlit("Right");
    assert("Right"@.len() == 5);
    assert("Right"@[0] == 'R');
    assert("Right"@[1] == 'i');
    assert("Right"@[2] == 'g');
    assert("Right"@[3] == 'h');
    assert("Right"@[4] == 't');
    reveal_strlit("Q");
    assert("Q"@.len() == 1);
    assert("Q"@[0] == 'Q');
    reveal_strlit("W");
    assert("W"@.len() == 1);
    assert("W"@[0] == 'W');
    reveal_strlit("E");
    assert("E"@.len() == 1);
    assert("E"@[0] == 'E');
    reveal_strlit("R");
    assert("R"@.len() == 1);
    assert("R"@[0] == 'R');
    reveal_strlit("T");
    assert("T"@.len() == 1);
    assert("T"@[0] == 'T');
    reveal_strlit("Y");
    assert("Y"@.len() == 1);
    assert("Y"@[0] == 'Y');
    reveal_strlit("U");
    assert("U"@.len() == 1);
    assert("U"@[0] == 'U');
    reveal_strlit("I");
    assert("I"@.len() == 1);
    assert("I"@[0] == 'I');
    reveal_strlit("O");
    assert("O"@.len() == 1);
    assert("O"@[0] == 'O');
    reveal_strlit("P");
    assert("P"@.len() == 1);
    assert("P"@[0] == 'P');
    reveal_strlit("LeftBracket");
    assert("LeftBracket"@.len() == 11);
    assert("LeftBracket"@[0] == 'L');
    assert("LeftBracket"@[1] == 'e');
    assert("LeftBracket"@[2] == 'f');
    assert("LeftBracket"@[3] == 't');
    assert("LeftBracket"@[4] == 'B');
    assert("LeftBracket"@[5] == 'r');
    assert("LeftBracket"@[6] == 'a');
    assert("LeftBracket"@[7] == 'c');
    assert("LeftBracket"@[8] == 'k');
    assert("LeftBracket"@[9] == 'e');
    assert("LeftBracket"@[10] == 't');
    reveal_strlit("RightBracket");
    assert("RightBracket"@.len() == 12);
    assert("RightBracket"@[0] == 'R');
    assert("RightBracket"@[1] == 'i');
    assert("RightBracket"@[2] == 'g');
    assert("RightBracket"@[3] == 'h');
    assert("RightBracket"@[4] == 't');
    assert("RightBracket"@[5] == 'B');
    assert("RightBracket"@[6] == 'r');
    assert("RightBracket"@[7] == 'a');
    assert("RightBracket"@[8] == 'c');
    assert("RightBracket"@[9] == 'k');
    assert("RightBracket"@[10] == 'e');
    assert("RightBracket"@[11] == 't');
    reveal_strlit("Backslash");
    assert("Backslash"@.len() == 9);
    assert("Backslash"@[0] == 'B');
    assert("Backslash"@[1] == 'a');
    assert("Backslash"@[2] == 'c');
    assert("Backslash"@[3] == 'k');
    assert("Backslash"@[4] == 's');
    assert("Backslash"@[5] == 'l');
    assert("Backslash"@[6] == 'a');
    assert("Backslash"@[7] == 's');
    assert("Backslash"@[8] == 'h');
    reveal_strlit("A");
    assert("A"@.len() == 1);
    assert("A"@[0] == 'A');
    reveal_strlit("S");
    assert("S"@.len() == 1);
    assert("S"@[0] == 'S');
    reveal_strlit("D");
    assert("D"@.len() == 1);
    assert("D"@[0] == 'D');
    reveal_strlit("F");
    assert("F"@.len() == 1);
    assert("F"@[0] == 'F');
    reveal_strlit("G");
    assert("G"@.len() == 1);
    assert("G"@[0] == 'G');
    reveal_strlit("H");
    assert("H"@.len() == 1);
    assert("H"@[0] == 'H');
    reveal_strlit("J");
    assert("J"@.len() == 1);
    assert("J"@[0] == 'J');
    reveal_strlit("K");
    assert("K"@.len() == 1);
    assert("K"@[0] == 'K');
    reveal_strlit("L");
    assert("L"@.len() == 1);
    assert("L"@[0] == 'L');
    reveal_strlit("Semicolon");
    assert("Semicolon"@.len() == 9);
    assert("Semicolon"@[0] == 'S');
    assert("Semicolon"@[1] == 'e');
    assert("Semicolon"@[2] == 'm');
    assert("Semicolon"@[3] == 'i');
    assert("Semicolon"@[4] == 'c');
    assert("Semicolon"@[5] == 'o');
    assert("Semicolon"@[6] == 'l');
    assert("Semicolon"@[7] == 'o');
    assert("Semicolon"@[8] == 'n');
    reveal_strlit("Apostrophe");
    assert("Apostrophe"@.len() == 10);
    assert("Apostrophe"@[0] == 'A');
    assert("Apostrophe"@[1] == 'p');
    assert("Apostrophe"@[2] == 'o');
    assert("Apostrophe"@[3] == 's');
    assert("Apostrophe"@[4] == 't');
    assert("Apostrophe"@[5] == 'r');
    assert("Apostrophe"@[6] == 'o');
    assert("Apostrophe"@[7] == 'p');
    assert("Apostrophe"@[8] == 'h');
    assert("Apostrophe"@[9] == 'e');
    reveal_strlit("Enter");
    assert("Enter"@.len() == 5);
    assert("Enter"@[0] == 'E');
    assert("Enter"@[1] == 'n');
    assert("Enter"@[2] == 't');
    assert("Enter"@[3] == 'e');
    assert("Enter"@[4] == 'r');
    reveal_strlit("LeftShift");
    assert("LeftShift"@.len() == 9);
    assert("LeftShift"@[0] == 'L');
    assert("LeftShift"@[1] == 'e');
    assert("LeftShift"@[2] == 'f');
    assert("LeftShift"@[3] == 't');
    assert("LeftShift"@[4] == 'S');
    assert("LeftShift"@[5] == 'h');
    assert("LeftShift"@[6] == 'i');
    assert("LeftShift"@[7] == 'f');
    assert("LeftShift"@[8] == 't');
    reveal_strlit("Z");
    assert("Z"@.len() == 1);
    assert("Z"@[0] == 'Z');
    reveal_strlit("X");
    assert("X"@.len() == 1);
    assert("X"@[0] == 'X');
    reveal_strlit("C");
    assert("C"@.len() == 1);
    assert("C"@[0] == 'C');
    reveal_strlit("V");
    assert("V"@.len() == 1);
    assert("V"@[0] == 'V');
    reveal_strlit("B");
    assert("B"@.len() == 1);
    assert("B"@[0] == 'B');
    reveal_strlit("N");
    assert("N"@.len() == 1);
    assert("N"@[0] == 'N');
    reveal_strlit("M");
    assert("M"@.len() == 1);
    assert("M"@[0] == 'M');
    reveal_strlit("Comma");
    assert("Comma"@.len() == 5);
    assert("Comma"@[0] == 'C');
    assert("Comma"@[1] == 'o');
    assert("Comma"@[2] == 'm');
    assert("Comma"@[3] == 'm');
    assert("Comma"@[4] == 'a');
    reveal_strlit("Period");
    assert("Period"@.len() == 6);
    assert("Period"@[0] == 'P');
    assert("Period"@[1] == 'e');
    assert("Period"@[2] == 'r');
    assert("Period"@[3] == 'i');
    assert("Period"@[4] == 'o');
    assert("Period"@[5] == 'd');
    reveal_strlit("Slash");
    assert("Slash"@.len() == 5);
    assert("Slash"@[0] == 'S');
    assert("Slash"@[1] == 'l');
    assert("Slash"@[2] == 'a');
    assert("Slash"@[3] == 's');
    assert("Slash"@[4] == 'h');
    reveal_strlit("RightShift");
    assert("RightShift"@.len() == 10);
    assert("RightShift"@[0] == 'R');
    assert("RightShift"@[1] == 'i');
    assert("RightShift"@[2] == 'g');
    assert("RightShift"@[3] == 'h');
    assert("RightShift"@[4] == 't');
    assert("RightShift"@[5] == 'S');
    assert("RightShift"@[6] == 'h');
    assert("RightShift"@[7] == 'i');
    assert("RightShift"@[8] == 'f');
    assert("RightShift"@[9] == 't');
    reveal_strlit("LeftControl");
    assert("LeftControl"@.len() == 11);
    assert("LeftControl"@[0] == 'L');
    assert("LeftControl"@[1] == 'e');
    assert("LeftControl"@[2] == 'f');
    assert("LeftControl"@[3] == 't');
    assert("LeftControl"@[4] == 'C');
    assert("LeftControl"@[5] == 'o');
    assert("LeftControl"@[6] == 'n');
    assert("LeftControl"@[7] == 't');
    assert("LeftControl"@[8] == 'r');
    assert("LeftControl"@[9] == 'o');
    assert("LeftControl"@[10] == 'l');
    reveal_strlit("LeftAlt");
    assert("LeftAlt"@.len() == 7);
    assert("LeftAlt"@[0] == 'L');
    assert("LeftAlt"@[1] == 'e');
    assert("LeftAlt"@[2] == 'f');
    assert("LeftAlt"@[3] == 't');
    assert("LeftAlt"@[4] == 'A');
    assert("LeftAlt"@[5] == 'l');
    assert("LeftAlt"@[6] == 't');
    lemma_mouse_names_are_no_key_names(key_name(k));
}

/// The mouse button that a binding name stands for.
pub open spec fn mousebutton_of(name: Seq<char>) -> Option<MouseButton> {
    if name == "Left Click"@ {
        Some(MouseButton::Left)
    } else if name == "Right Click"@ {
        Some(MouseButton::Right)
    } else if name == "Middle Click"@ {
        Some(MouseButton::Middle)
    } else {
        None
    }
}

/// The name of each mouse button, as a binding names it.
pub open spec fn mouse_name(b: MouseButton) -> Seq<char> {
    match b {
        MouseButton::Left => "Left Click"@,
        MouseButton::Right => "Right Click"@,
        MouseButton::Middle => "Middle Click"@,
    }
}

/// Each mouse button's own name stands for that button, and is read from the
/// mouse, never from a key.
pub proof fn lemma_mouse_names_parse(b: MouseButton)
    ensures
        mousebutton_of(mouse_name(b)) == Some(b),
        binding_of(mouse_name(b)) == Some(Binding::Mouse(b)),
{
    reveal_strlit("Left Click");
    reveal_strlit("Right Click");
    reveal_strlit("Middle Click");
    assert("Left Click"@.len() == 10);
    assert("Right Click"@.len() == 11);
    assert("Middle Click"@.len() == 12);
}

/// Whether a binding name is one of the mouse keys.
pub open spec fn is_mouse_key(name: Seq<char>) -> bool {
    mousebutton_of(name) is Some
}

/// The input a binding name is read from: a mouse button for the mouse keys,
/// otherwise a keyboard key, and nothing for a name that is neither.
pub open spec fn binding_of(name: Seq<char>) -> Option<Binding> {
    match mousebutton_of(name) {
        Some(b) => Some(Binding::Mouse(b)),
        None => match keycode_of(name) {
            Some(k) => Some(Binding::Keyboard(k)),
            None => None,
        },
    }
}

/// A binding name is read from a mouse button exactly when it is one of the
/// mouse keys, and from a keyboard key when it is not but names a key; it has
/// no binding when it is neither.
pub proof fn lemma_binding_laws(name: Seq<char>)
    ensures
        is_mouse_key(name) ==> binding_of(name) == Some(Binding::Mouse(mousebutton_of(name)->0)),
        !is_mouse_key(name) && keycode_of(name) is Some ==> binding_of(name) == Some(
            Binding::Keyboard(keycode_of(name)->0),
        ),
        (binding_of(name) matches Some(Binding::Mouse(_))) == is_mouse_key(name),
        binding_of(name) is None <==> (!is_mouse_key(name) && keycode_of(name) is None),
{
}

/// The mouse key names name no key: each differs from every key name in
/// length or in a letter.
proof fn lemma_clicks_are_no_keys()
    ensures
        keycode_of("Left Click"@) is None,
        keycode_of("Right Click"@) is None,
        keycode_of("Middle Click"@) is None,
{
    reveal_strlit("Left Click");
    assert("Left Click"@.len() == 10);
    reveal_strlit("Right Click");
    assert("Right Click"@.len() == 11);
    reveal_strlit("Middle Click");
    assert("Middle Click"@.len() == 12);
    reveal_strlit("Escape");
    assert("Escape"@.len() == 6);
    reveal_strlit("Up");
    assert("Up"@.len() == 2);
    reveal_strlit("Down");
    assert("Down"@.len() == 4);
    reveal_strlit("Left");
    assert("Left"@.len() == 4);
    reveal_strlit("Right");
    assert("Right"@.len() == 5);
    reveal_strlit("Q");
    assert("Q"@.len() == 1);
    reveal_strlit("W");
    assert("W"@.len() == 1);
    reveal_strlit("E");
    assert("E"@.len() == 1);
    reveal_strlit("R");
    assert("R"@.len() == 1);
    reveal_strlit("T");
    assert("T"@.len() == 1);
    reveal_strlit("Y");
    assert("Y"@.len() == 1);
    reveal_strlit("U");
    assert("U"@.len() == 1);
    reveal_strlit("I");
    assert("I"@.len() == 1);
    reveal_strlit("O");
    assert("O"@.len() == 1);
    reveal_strlit("P");
    assert("P"@.len() == 1);
    reveal_strlit("LeftBracket");
    assert("LeftBracket"@.len() == 11);
    assert("LeftBracket"@[0] == 'L' && "Right Click"@[0] == 'R');
    reveal_strlit("RightBracket");
    assert("RightBracket"@.len() == 12);
    assert("RightBracket"@[0] == 'R' && "Middle Click"@[0] == 'M');
    reveal_strlit("Backslash");
    assert("Backslash"@.len() == 9);
    reveal_strlit("A");
    assert("A"@.len() == 1);
    reveal_strlit("S");
    assert("S"@.len() == 1);
    reveal_strlit("D");
    assert("D"@.len() == 1);
    reveal_strlit("F");
    assert("F"@.len() == 1);
    reveal_strlit("G");
    assert("G"@.len() == 1);
    reveal_strlit("H");
    assert("H"@.len() == 1);
    reveal_strlit("J");
    assert("J"@.len() == 1);
    reveal_strlit("K");
    assert("K"@.len() == 1);
    reveal_strlit("L");
    assert("L"@.len() == 1);
    reveal_strlit("Semicolon");
    assert("Semicolon"@.len() == 9);
    reveal_strlit("Apostrophe");
    assert("Apostrophe"@.len() == 10);
    assert("Apostrophe"@[0] == 'A' && "Left Click"@[0] == 'L');
    reveal_strlit("Enter");
    assert("Enter"@.len() == 5);
    reveal_strlit("LeftShift");
    assert("LeftShift"@.len() == 9);
    reveal_strlit("Z");
    assert("Z"@.len() == 1);
    reveal_strlit("X");
    assert("X"@.len() == 1);
    reveal_strlit("C");
    assert("C"@.len() == 1);
    reveal_strlit("V");
    assert("V"@.len() == 1);
    reveal_strlit("B");
    assert("B"@.len() == 1);
    reveal_strlit("N");
    assert("N"@.len() == 1);
    reveal_strlit("M");
    assert("M"@.len() == 1);
    reveal_strlit("Comma");
    assert("Comma"@.len() == 5);
    reveal_strlit("Period");
    assert("Period"@.len() == 6);
    reveal_strlit("Slash");
    assert("Slash"@.len() == 5);
    reveal_strlit("RightShift");
    assert("RightShift"@.len() == 10);
    assert("RightShift"@[0] == 'R' && "Left Click"@[0] == 'L');
    reveal_strlit("LeftControl");
    assert("LeftControl"@.len() == 11);
    assert("LeftControl"@[0] == 'L' && "Right Click"@[0] == 'R');
    reveal_strlit("LeftAlt");
    assert("LeftAlt"@.len() == 7);
}

/// The names of the mouse keys name no keyboard key, so a binding name is read
/// from at most one of the two.
pub proof fn lemma_mouse_names_are_no_key_names(name: Seq<char>)
    ensures
        is_mouse_key(name) ==> keycode_of(name) is None,
{
    lemma_clicks_are_no_keys();
    reveal_strlit("Left Click");
    reveal_strlit("Right Click");
    reveal_strlit("Middle Click");
}

/// Looks up the key code that a binding name stands for.
pub fn parse_keycode(name: &str) -> (res: Option<KeyCode>)
    ensures
        res == keycode_of(name@),
{
    if str_eq(name, "Escape") {
        Some(KeyCode::Escape)
    } else if str_eq(name, "Up") {
        Some(KeyCode::Up)
    } else if str_eq(name, "Down") {
        Some(KeyCode::Down)
    } else if str_eq(name, "Left") {
        Some(KeyCode::Left)
    } else if str_eq(name, "Right") {
        Some(KeyCode::Right)
    } else if str_eq(name, "Q") {
        Some(KeyCode::Q)
    } else if str_eq(name, "W") {
        Some(KeyCode::W)
    } else if str_eq(name, "E") {
        Some(KeyCode::E)
    } else if str_eq(name, "R") {
        Some(KeyCode::R)
    } else if str_eq(name, "T") {
        Some(KeyCode::T)
    } else if str_eq(name, "Y") {
        Some(KeyCode::Y)
    } else if str_eq(name, "U") {
        Some(KeyCode::U)
    } else if str_eq(name, "I") {
        Some(KeyCode::I)
    } else if str_eq(name, "O") {
        Some(KeyCode::O)
    } else if str_eq(name, "P") {
        Some(KeyCode::P)
    } else if str_eq(name, "LeftBracket") {
        Some(KeyCode::LeftBracket)
    } else if str_eq(name, "RightBracket") {
        Some(KeyCode::RightBracket)
    } else if str_eq(name, "Backslash") {
        Some(KeyCode::Backslash)
    } else if str_eq(name, "A") {
        Some(KeyCode::A)
    } else if str_eq(name, "S") {
        Some(KeyCode::S)
    } else if str_eq(name, "D") {
        Some(KeyCode::D)
    } else if str_eq(name, "F") {
        Some(KeyCode::F)
    } else if str_eq(name, "G") {
        Some(KeyCode::G)
    } else if str_eq(name, "H") {
        Some(KeyCode::H)
    } else if str_eq(name, "J") {
        Some(KeyCode::J)
    } else if str_eq(name, "K") {
        Some(KeyCode::K)
    } else if str_eq(name, "L") {
        Some(KeyCode::L)
    } else if str_eq(name, "Semicolon") {
        Some(KeyCode::Semicolon)
    } else if str_eq(name, "Apostrophe") {
        Some(KeyCode::Apostrophe)
    } else if str_eq(name, "Enter") {
        Some(KeyCode::Enter)
    } else if str_eq(name, "LeftShift") {
        Some(KeyCode::LeftShift)
    } else if str_eq(name, "Z") {
        Some(KeyCode::Z)
    } else if str_eq(name, "X") {
        Some(KeyCode::X)
    } else if str_eq(name, "C") {
        Some(KeyCode::C)
    } else if str_eq(name, "V") {
        Some(KeyCode::V)
    } else if str_eq(name, "B") {
        Some(KeyCode::B)
    } else if str_eq(name, "N") {
        Some(KeyCode::N)
    } else if str_eq(name, "M") {
        Some(KeyCode::M)
    } else if str_eq(name, "Comma") {
        Some(KeyCode::Comma)
    } else if str_eq(name, "Period") {
        Some(KeyCode::Period)
    } else if str_eq(name, "Slash") {
        Some(KeyCode::Slash)
    } else if str_eq(name, "RightShift") {
        Some(KeyCode::RightShift)
    } else if str_eq(name, "LeftControl") {
        Some(KeyCode::LeftControl)
    } else if str_eq(name, "LeftAlt") {
        Some(KeyCode::LeftAlt)
    } else {
        None
    }
}

/// Gets the KeyCode with the value of the key passed in. The name must be one
/// that stands for a key.
pub fn get_keycode(key: Option<&str>) -> (res: KeyCode)
    requires
        key is Some,
        keycode_of(key->0@) is Some,
    ensures
        Some(res) == keycode_of(key->0@),
{
    match key {
        Some(name) => match parse_keycode(name) {
            Some(code) => code,
            None => KeyCode::Escape,
        },
        None => KeyCode::Escape,
    }
}

/// Whether the text parses as JSON, as `serde_json::from_str` reads it into a
/// `serde_json::Value`.
pub uninterp spec fn json_parses(text: Seq<char>) -> bool;

/// The string that the text, parsed as JSON, holds under `key`: `None` where
/// the text is no JSON, is no object, has no such field, or holds no string
/// there.
pub uninterp spec fn json_string_field(text: Seq<char>, key: Seq<char>) -> Option<Seq<char>>;

/// The characters of a string, if there is one.
pub open spec fn string_view(s: Option<String>) -> Option<Seq<char>> {
    match s {
        Some(v) => Some(v@),
        None => None,
    }
}

/// `serde_json::from_str` into a `serde_json::Value`: whether it succeeds.
#[verifier::external_body]
fn json_is_valid(text: &str) -> (res: bool)
    ensures
        res == json_parses(text@),
{
    serde_json::from_str::<serde_json::Value>(text).is_ok()
}

/// `serde_json::from_str` into a `serde_json::Value`, then `Value::get` of the
/// key and `Value::as_str`: the string the config holds under the key. A
/// field is found only in text that parses.
#[verifier::external_body]
fn json_field_str(text: &str, key: &str) -> (res: Option<String>)
    ensures
        string_view(res) == json_string_field(text@, key@),
        res is Some ==> json_parses(text@),
{
    let value: serde_json::Value = match serde_json::from_str(text) {
        Ok(value) => value,
        Err(_) => return None,
    };
    value.get(key).and_then(serde_json::Value::as_str).map(String::from)
}

/// Whether the text of a config file parses as JSON.
pub fn config_parses(text: &str) -> (res: bool)
    ensures
        res == json_parses(text@),
{
    json_is_valid(text)
}

/// The key code that the config names under `key`, if it names one there.
pub open spec fn config_keycode(text: Seq<char>, key: Seq<char>) -> Option<KeyCode> {
    match json_string_field(text, key) {
        Some(name) => keycode_of(name),
        None => None,
    }
}

/// Looks up the key bound to `key` in the text of a JSON config: the key code
/// its string names. `None` where the config holds no string under `key`, or
/// one that names no key.
pub fn keycode_in_config(text: &str, key: &str) -> (res: Option<KeyCode>)
    ensures
        res == config_keycode(text@, key@),
        res is Some ==> json_parses(text@),
{
    match json_field_str(text, key) {
        Some(name) => parse_keycode(name.as_str()),
        None => None,
    }
}

/// Looks up the mouse button that a binding name stands for.
pub fn parse_mousebutton(name: &str) -> (res: Option<MouseButton>)
    ensures
        res == mousebutton_of(name@),
{
    if str_eq(name, "Left Click") {
        Some(MouseButton::Left)
    } else if str_eq(name, "Right Click") {
        Some(MouseButton::Right)
    } else if str_eq(name, "Middle Click") {
        Some(MouseButton::Middle)
    } else {
        None
    }
}

/// Gets the MouseButton of the key passed to it. The name must be one of the
/// mouse keys.
pub fn get_mousebutton(key: Option<&str>) -> (res: MouseButton)
    requires
        key is Some,
        is_mouse_key(key->0@),
    ensures
        Some(res) == mousebutton_of(key->0@),
{
    match key {
        Some(name) => match parse_mousebutton(name) {
            Some(b) => b,
            None => MouseButton::Left,
        },
        None => MouseButton::Left,
    }
}

/// A key binding, held as the name of the key or mouse button.
pub struct Key(String);

impl View for Key {
    type V = Seq<char>;

    closed spec fn view(&self) -> Seq<char> {
        self.0@
    }
}

impl Key {
    /// A binding to the key or mouse button with the given name.
    pub fn new(name: String) -> (res: Self)
        ensures
            res@ == name@,
    {
        Key(name)
    }

    /// The name of the bound key.
    pub fn name(&self) -> (res: &str)
        ensures
            res@ == self@,
    {
        self.0.as_str()
    }

    /// Checks if the key is one of the mouse keys.
    pub fn is_mouse(&self) -> (res: bool)
        ensures
            res == is_mouse_key(self@),
    {
        parse_mousebutton(self.0.as_str()).is_some()
    }

    /// The input this binding is read from; `None` when the name stands for no
    /// key or mouse button.
    pub fn binding(&self) -> (res: Option<Binding>)
        ensures
            res == binding_of(self@),
    {
        match parse_mousebutton(self.0.as_str()) {
            Some(b) => Some(Binding::Mouse(b)),
            None => match parse_keycode(self.0.as_str()) {
                Some(k) => Some(Binding::Keyboard(k)),
                None => None,
            },
        }
    }
}

/// The keys bound to each action of the game.
pub struct KeyMap {
    pub up: Key,
    pub down: Key,
    pub left: Key,
    pub right: Key,
    pub sword: Key,
    pub gun: Key,
    pub change_sword: Key,
    pub change_gun: Key,
    pub quit: Key,
}

} // verus!
