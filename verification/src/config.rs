//! Hotkey bindings: how a binding is written in the configuration, and the
//! scan codes it stands for.
use crate::ordered::{text_entries, text_map_insert, text_map_new, with_text_entry};
use crate::text::{
    ascii_lower, ascii_lowered, chars_of, collapse_backslashes, collapse_chars, lowercase,
    lowercase_of, piece_views, spec_ascii_lower, spec_is_whitespace, split_chars,
    split_pieces, str_eq, string_from_chars, trim_chars, trimmed,
};
use indexmap::IndexMap;
use ini::Ini;
use vstd::prelude::*;
use vstd::string::StringExecFns;

verus! {

/// The id of the binding that cycles the windows of the focused application.
pub const SWITCH_WINDOWS_HOTKEY_ID: u32 = 1;

/// The id of the binding that cycles the running applications.
pub const SWITCH_APPS_HOTKEY_ID: u32 = 2;

/// One hotkey binding: a modifier, given by the scan codes of its left and
/// right key, and the scan code of the accelerator key.
#[derive(Debug)]
pub struct Hotkey {
    pub id: u32,
    pub name: String,
    pub modifier: [u32; 2],
    pub code: u32,
}

/// The mathematical content of a `Hotkey`.
pub struct HotkeyModel {
    pub id: u32,
    pub name: Seq<char>,
    pub modifier: (u32, u32),
    pub code: u32,
}

impl View for Hotkey {
    type V = HotkeyModel;

    open spec fn view(&self) -> HotkeyModel {
        HotkeyModel {
            id: self.id,
            name: self.name@,
            modifier: (self.modifier[0], self.modifier[1]),
            code: self.code,
        }
    }
}

impl Clone for Hotkey {
    fn clone(&self) -> (r: Self)
        ensures
            r@ == self@,
    {
        Hotkey {
            id: self.id,
            name: self.name.clone(),
            modifier: [self.modifier[0], self.modifier[1]],
            code: self.code,
        }
    }
}

/// Why a configuration value was refused.
#[derive(Debug)]
pub enum ConfigError {
    /// The value of the named hotkey is not a modifier, a plus sign and a key.
    InvalidHotkey { name: String },
}

impl ConfigError {
    /// The text shown for the error.
    pub fn message(&self) -> (r: String)
        ensures
            match self {
                ConfigError::InvalidHotkey { name } => r@ == "Invalid "@ + name@ + " hotkey"@,
            },
    {
        match self {
            ConfigError::InvalidHotkey { name } => {
                let mut text = String::from_str("Invalid ");
                text.append(name.as_str());
                text.append(" hotkey");
                text
            },
        }
    }
}

/// The text in ASCII lowercase with its spaces taken out.
pub open spec fn lowered(value: Seq<char>) -> Seq<char>
    decreases value.len(),
{
    if value.len() == 0 {
        Seq::empty()
    } else if value.last() == ' ' {
        lowered(value.drop_last())
    } else {
        lowered(value.drop_last()).push(spec_ascii_lower(value.last()))
    }
}

/// The text with every `vk_` taken out, found from left to right.
pub open spec fn strip_vk(text: Seq<char>) -> Seq<char>
    decreases text.len(),
{
    if text.len() == 0 {
        Seq::empty()
    } else if text.len() >= 3 && text[0] == 'v' && text[1] == 'k' && text[2] == '_' {
        strip_vk(text.skip(3))
    } else {
        seq![text[0]] + strip_vk(text.skip(1))
    }
}

/// Position of the first `c` in `text`; the length of `text` when it has none.
pub open spec fn first_index_of(text: Seq<char>, c: char) -> int
    decreases text.len(),
{
    if text.len() == 0 {
        0
    } else if text[0] == c {
        0
    } else {
        1 + first_index_of(text.skip(1), c)
    }
}

pub proof fn lemma_first_index_of(text: Seq<char>, c: char)
    ensures
        0 <= first_index_of(text, c) <= text.len(),
        first_index_of(text, c) < text.len() ==> text[first_index_of(text, c)] == c,
        forall|k: int| 0 <= k < first_index_of(text, c) ==> text[k] != c,
    decreases text.len(),
{
    if text.len() > 0 && text[0] != c {
        let rest = text.skip(1);
        lemma_first_index_of(rest, c);
        assert forall|k: int| 0 <= k < first_index_of(text, c) implies text[k] != c by {
            if k > 0 {
                assert(rest[k - 1] == text[k]);
            }
        }
        if first_index_of(text, c) < text.len() {
            assert(rest[first_index_of(rest, c)] == text[first_index_of(text, c)]);
        }
    }
}

/// The first position that holds `c` after positions that do not is the one
/// that `first_index_of` gives.
pub proof fn lemma_first_index_is(text: Seq<char>, c: char, p: int)
    requires
        0 <= p <= text.len(),
        forall|k: int| 0 <= k < p ==> text[k] != c,
        p < text.len() ==> text[p] == c,
    ensures
        first_index_of(text, c) == p,
{
    lemma_first_index_of(text, c);
}

/// The scan codes of the left and right key of a modifier name.
pub open spec fn modifier_codes(name: Seq<char>) -> Option<(u32, u32)> {
    if name == "win"@ {
        Some((0x5bu32, 0x5cu32))
    } else if name == "alt"@ {
        Some((0x38u32, 0x38u32))
    } else if name == "ctrl"@ {
        Some((0x1du32, 0x1du32))
    } else {
        None
    }
}

/// The scan code of a key name, on the US keyboard layout.
pub open spec fn key_code(name: Seq<char>) -> Option<u32> {
    if name == "esc"@ || name == "escape"@ {
        Some(0x01)
    } else if name == "1"@ || name == "!"@ {
        Some(0x02)
    } else if name == "2"@ || name == "@"@ {
        Some(0x03)
    } else if name == "3"@ || name == "#"@ {
        Some(0x04)
    } else if name == "4"@ || name == "$"@ {
        Some(0x05)
    } else if name == "5"@ || name == "%"@ {
        Some(0x06)
    } else if name == "6"@ || name == "^"@ {
        Some(0x07)
    } else if name == "7"@ || name == "&"@ {
        Some(0x08)
    } else if name == "8"@ || name == "*"@ {
        Some(0x09)
    } else if name == "9"@ || name == "("@ {
        Some(0x0a)
    } else if name == "0"@ || name == ")"@ {
        Some(0x0b)
    } else if name == "-"@ || name == "_"@ || name == "oem_minus"@ {
        Some(0x0c)
    } else if name == "+"@ || name == "="@ || name == "oem_plus"@ {
        Some(0x0d)
    } else if name == "bs"@ || name == "backspace"@ {
        Some(0x0e)
    } else if name == "tab"@ {
        Some(0x0f)
    } else if name == "q"@ {
        Some(0x10)
    } else if name == "w"@ {
        Some(0x11)
    } else if name == "e"@ {
        Some(0x12)
    } else if name == "r"@ {
        Some(0x13)
    } else if name == "t"@ {
        Some(0x14)
    } else if name == "y"@ {
        Some(0x15)
    } else if name == "u"@ {
        Some(0x16)
    } else if name == "i"@ {
        Some(0x17)
    } else if name == "o"@ {
        Some(0x18)
    } else if name == "p"@ {
        Some(0x19)
    } else if name == "{"@ || name == "["@ || name == "oem_4"@ {
        Some(0x1a)
    } else if name == "}"@ || name == "]"@ || name == "oem_6"@ {
        Some(0x1b)
    } else if name == "enter"@ || name == "return"@ {
        Some(0x1c)
    } else if name == "a"@ {
        Some(0x1e)
    } else if name == "s"@ {
        Some(0x1f)
    } else if name == "d"@ {
        Some(0x20)
    } else if name == "f"@ {
        Some(0x21)
    } else if name == "g"@ {
        Some(0x22)
    } else if name == "h"@ {
        Some(0x23)
    } else if name == "j"@ {
        Some(0x24)
    } else if name == "k"@ {
        Some(0x25)
    } else if name == "l"@ {
        Some(0x26)
    } else if name == ":"@ || name == ";"@ || name == "oem_1"@ {
        Some(0x27)
    } else if name == "\""@ || name == "'"@ || name == "oem_7"@ {
        Some(0x28)
    } else if name == "~"@ || name == "`"@ || name == "oem_3"@ {
        Some(0x29)
    } else if name == "|"@ || name == "\\"@ || name == "oem_5"@ {
        Some(0x2b)
    } else if name == "z"@ {
        Some(0x2c)
    } else if name == "x"@ {
        Some(0x2d)
    } else if name == "c"@ {
        Some(0x2e)
    } else if name == "v"@ {
        Some(0x2f)
    } else if name == "b"@ {
        Some(0x30)
    } else if name == "n"@ {
        Some(0x31)
    } else if name == "m"@ {
        Some(0x32)
    } else if name == "<"@ || name == ","@ || name == "oem_comma"@ {
        Some(0x33)
    } else if name == ">"@ || name == "."@ || name == "oem_period"@ {
        Some(0x34)
    } else if name == "?"@ || name == "/"@ || name == "oem_2"@ {
        Some(0x35)
    } else if name == "space"@ {
        Some(0x39)
    } else if name == "capslock"@ {
        Some(0x3a)
    } else if name == "f1"@ {
        Some(0x3b)
    } else if name == "f2"@ {
        Some(0x3c)
    } else if name == "f3"@ {
        Some(0x3d)
    } else if name == "f4"@ {
        Some(0x3e)
    } else if name == "f5"@ {
        Some(0x3f)
    } else if name == "f6"@ {
        Some(0x40)
    } else if name == "f7"@ {
        Some(0x41)
    } else if name == "f8"@ {
        Some(0x42)
    } else if name == "f9"@ {
        Some(0x43)
    } else if name == "f10"@ {
        Some(0x44)
    } else if name == "numlock"@ {
        Some(0x45)
    } else if name == "scrolllock"@ {
        Some(0x46)
    } else if name == "home"@ {
        Some(0x47)
    } else if name == "up"@ {
        Some(0x48)
    } else if name == "pageup"@ {
        Some(0x49)
    } else if name == "left"@ {
        Some(0x4b)
    } else if name == "right"@ {
        Some(0x4d)
    } else if name == "end"@ {
        Some(0x4f)
    } else if name == "down"@ {
        Some(0x50)
    } else if name == "pagedown"@ {
        Some(0x51)
    } else if name == "insert"@ {
        Some(0x52)
    } else if name == "delete"@ {
        Some(0x53)
    } else if name == "prtsc"@ || name == "printscreen"@ {
        Some(0x54)
    } else if name == "oem_102"@ {
        Some(0x56)
    } else if name == "f11"@ {
        Some(0x57)
    } else if name == "f12"@ {
        Some(0x58)
    } else if name == "menu"@ {
        Some(0x5d)
    } else {
        None
    }
}

/// The modifier scan codes and the accelerator scan code that a hotkey value
/// stands for. The value is read in lowercase, without spaces and without
/// `vk_`; it must then be a modifier name, one plus sign and a key name.
pub open spec fn spec_parse(value: Seq<char>) -> Option<((u32, u32), u32)> {
    let text = strip_vk(lowered(value));
    let plus = first_index_of(text, '+');
    if plus >= text.len() || text.skip(plus + 1).contains('+') {
        None
    } else {
        match (modifier_codes(text.take(plus)), key_code(text.skip(plus + 1))) {
            (Some(modifier), Some(code)) => Some((modifier, code)),
            _ => None,
        }
    }
}

/// The text in ASCII lowercase with its spaces taken out.
pub fn lower_without_spaces(value: &Vec<char>) -> (r: Vec<char>)
    ensures
        r@ == lowered(value@),
{
    let mut r: Vec<char> = Vec::new();
    let mut i: usize = 0;
    while i < value.len()
        invariant
            0 <= i <= value.len(),
            r@ == lowered(value@.take(i as int)),
        decreases value.len() - i,
    {
        proof {
            assert(value@.take(i + 1).drop_last() =~= value@.take(i as int));
        }
        if value[i] != ' ' {
            r.push(ascii_lower(value[i]));
        }
        i += 1;
    }
    proof {
        assert(value@.take(value.len() as int) =~= value@);
    }
    r
}

/// The text with every `vk_` taken out.
pub fn without_vk(text: &Vec<char>) -> (r: Vec<char>)
    ensures
        r@ == strip_vk(text@),
{
    let n = text.len();
    let mut r: Vec<char> = Vec::new();
    let mut i: usize = 0;
    proof {
        assert(text@.skip(0) =~= text@);
        assert(r@ + strip_vk(text@) =~= strip_vk(text@));
    }
    while i < n
        invariant
            n == text.len(),
            0 <= i <= n,
            r@ + strip_vk(text@.skip(i as int)) == strip_vk(text@),
        decreases n - i,
    {
        let ghost rest = text@.skip(i as int);
        let ghost before = r@;
        if n - i >= 3 && text[i] == 'v' && text[i + 1] == 'k' && text[i + 2] == '_' {
            proof {
                assert(rest.skip(3) =~= text@.skip(i + 3));
            }
            i += 3;
        } else {
            r.push(text[i]);
            proof {
                assert(rest.skip(1) =~= text@.skip(i + 1));
                assert(r@ + strip_vk(text@.skip(i + 1)) =~= before + (seq![rest[0]] + strip_vk(
                    rest.skip(1),
                )));
            }
            i += 1;
        }
    }
    proof {
        assert(r@ + Seq::<char>::empty() =~= r@);
    }
    r
}

/// The characters of `text` from `from` up to `to`.
pub fn slice_of(text: &Vec<char>, from: usize, to: usize) -> (r: Vec<char>)
    requires
        from <= to <= text.len(),
    ensures
        r@ == text@.subrange(from as int, to as int),
{
    let mut r: Vec<char> = Vec::new();
    let mut i: usize = from;
    while i < to
        invariant
            from <= i <= to <= text.len(),
            r@ == text@.subrange(from as int, i as int),
        decreases to - i,
    {
        r.push(text[i]);
        proof {
            assert(text@.subrange(from as int, i + 1) =~= text@.subrange(from as int, i as int).push(
                text@[i as int],
            ));
        }
        i += 1;
    }
    r
}

fn modifier_of(name: &str) -> (r: Option<[u32; 2]>)
    ensures
        match r {
            Some(m) => modifier_codes(name@) == Some((m[0], m[1])),
            None => modifier_codes(name@) is None,
        },
{
    if str_eq(name, "win") {
        Some([0x5b, 0x5c])
    } else if str_eq(name, "alt") {
        Some([0x38, 0x38])
    } else if str_eq(name, "ctrl") {
        Some([0x1d, 0x1d])
    } else {
        None
    }
}

fn code_of(name: &str) -> (r: Option<u32>)
    ensures
        r == key_code(name@),
{
    if str_eq(name, "esc") || str_eq(name, "escape") {
        Some(0x01)
    } else if str_eq(name, "1") || str_eq(name, "!") {
        Some(0x02)
    } else if str_eq(name, "2") || str_eq(name, "@") {
        Some(0x03)
    } else if str_eq(name, "3") || str_eq(name, "#") {
        Some(0x04)
    } else if str_eq(name, "4") || str_eq(name, "$") {
        Some(0x05)
    } else if str_eq(name, "5") || str_eq(name, "%") {
        Some(0x06)
    } else if str_eq(name, "6") || str_eq(name, "^") {
        Some(0x07)
    } else if str_eq(name, "7") || str_eq(name, "&") {
        Some(0x08)
    } else if str_eq(name, "8") || str_eq(name, "*") {
        Some(0x09)
    } else if str_eq(name, "9") || str_eq(name, "(") {
        Some(0x0a)
    } else if str_eq(name, "0") || str_eq(name, ")") {
        Some(0x0b)
    } else if str_eq(name, "-") || str_eq(name, "_") || str_eq(name, "oem_minus") {
        Some(0x0c)
    } else if str_eq(name, "+") || str_eq(name, "=") || str_eq(name, "oem_plus") {
        Some(0x0d)
    } else if str_eq(name, "bs") || str_eq(name, "backspace") {
        Some(0x0e)
    } else if str_eq(name, "tab") {
        Some(0x0f)
    } else if str_eq(name, "q") {
        Some(0x10)
    } else if str_eq(name, "w") {
        Some(0x11)
    } else if str_eq(name, "e") {
        Some(0x12)
    } else if str_eq(name, "r") {
        Some(0x13)
    } else if str_eq(name, "t") {
        Some(0x14)
    } else if str_eq(name, "y") {
        Some(0x15)
    } else if str_eq(name, "u") {
        Some(0x16)
    } else if str_eq(name, "i") {
        Some(0x17)
    } else if str_eq(name, "o") {
        Some(0x18)
    } else if str_eq(name, "p") {
        Some(0x19)
    } else if str_eq(name, "{") || str_eq(name, "[") || str_eq(name, "oem_4") {
        Some(0x1a)
    } else if str_eq(name, "}") || str_eq(name, "]") || str_eq(name, "oem_6") {
        Some(0x1b)
    } else if str_eq(name, "enter") || str_eq(name, "return") {
        Some(0x1c)
    } else if str_eq(name, "a") {
        Some(0x1e)
    } else if str_eq(name, "s") {
        Some(0x1f)
    } else if str_eq(name, "d") {
        Some(0x20)
    } else if str_eq(name, "f") {
        Some(0x21)
    } else if str_eq(name, "g") {
        Some(0x22)
    } else if str_eq(name, "h") {
        Some(0x23)
    } else if str_eq(name, "j") {
        Some(0x24)
    } else if str_eq(name, "k") {
        Some(0x25)
    } else if str_eq(name, "l") {
        Some(0x26)
    } else if str_eq(name, ":") || str_eq(name, ";") || str_eq(name, "oem_1") {
        Some(0x27)
    } else if str_eq(name, "\"") || str_eq(name, "'") || str_eq(name, "oem_7") {
        Some(0x28)
    } else if str_eq(name, "~") || str_eq(name, "`") || str_eq(name, "oem_3") {
        Some(0x29)
    } else if str_eq(name, "|") || str_eq(name, "\\") || str_eq(name, "oem_5") {
        Some(0x2b)
    } else if str_eq(name, "z") {
        Some(0x2c)
    } else if str_eq(name, "x") {
        Some(0x2d)
    } else if str_eq(name, "c") {
        Some(0x2e)
    } else if str_eq(name, "v") {
        Some(0x2f)
    } else if str_eq(name, "b") {
        Some(0x30)
    } else if str_eq(name, "n") {
        Some(0x31)
    } else if str_eq(name, "m") {
        Some(0x32)
    } else if str_eq(name, "<") || str_eq(name, ",") || str_eq(name, "oem_comma") {
        Some(0x33)
    } else if str_eq(name, ">") || str_eq(name, ".") || str_eq(name, "oem_period") {
        Some(0x34)
    } else if str_eq(name, "?") || str_eq(name, "/") || str_eq(name, "oem_2") {
        Some(0x35)
    } else if str_eq(name, "space") {
        Some(0x39)
    } else if str_eq(name, "capslock") {
        Some(0x3a)
    } else if str_eq(name, "f1") {
        Some(0x3b)
    } else if str_eq(name, "f2") {
        Some(0x3c)
    } else if str_eq(name, "f3") {
        Some(0x3d)
    } else if str_eq(name, "f4") {
        Some(0x3e)
    } else if str_eq(name, "f5") {
        Some(0x3f)
    } else if str_eq(name, "f6") {
        Some(0x40)
    } else if str_eq(name, "f7") {
        Some(0x41)
    } else if str_eq(name, "f8") {
        Some(0x42)
    } else if str_eq(name, "f9") {
        Some(0x43)
    } else if str_eq(name, "f10") {
        Some(0x44)
    } else if str_eq(name, "numlock") {
        Some(0x45)
    } else if str_eq(name, "scrolllock") {
        Some(0x46)
    } else if str_eq(name, "home") {
        Some(0x47)
    } else if str_eq(name, "up") {
        Some(0x48)
    } else if str_eq(name, "pageup") {
        Some(0x49)
    } else if str_eq(name, "left") {
        Some(0x4b)
    } else if str_eq(name, "right") {
        Some(0x4d)
    } else if str_eq(name, "end") {
        Some(0x4f)
    } else if str_eq(name, "down") {
        Some(0x50)
    } else if str_eq(name, "pagedown") {
        Some(0x51)
    } else if str_eq(name, "insert") {
        Some(0x52)
    } else if str_eq(name, "delete") {
        Some(0x53)
    } else if str_eq(name, "prtsc") || str_eq(name, "printscreen") {
        Some(0x54)
    } else if str_eq(name, "oem_102") {
        Some(0x56)
    } else if str_eq(name, "f11") {
        Some(0x57)
    } else if str_eq(name, "f12") {
        Some(0x58)
    } else if str_eq(name, "menu") {
        Some(0x5d)
    } else {
        None
    }
}

impl Hotkey {
    /// The binding that a configuration value stands for.
    pub fn create(id: u32, name: &str, value: &str) -> (r: Result<Self, ConfigError>)
        ensures
            match r {
                Ok(hotkey) => match spec_parse(value@) {
                    Some(parsed) => hotkey@ == (HotkeyModel {
                        id,
                        name: name@,
                        modifier: parsed.0,
                        code: parsed.1,
                    }),
                    None => false,
                },
                Err(ConfigError::InvalidHotkey { name: refused }) => spec_parse(value@) is None
                    && refused@ == name@,
            },
    {
        match Hotkey::parse(value) {
            Some((modifier, code)) => Ok(Hotkey { id, name: name.to_owned(), modifier, code }),
            None => Err(ConfigError::InvalidHotkey { name: name.to_owned() }),
        }
    }

    /// The scan code of the modifier's left key.
    pub fn get_modifier(&self) -> (r: u32)
        ensures
            r == self@.modifier.0,
    {
        self.modifier[0]
    }

    /// Whether `scan_code` is one of the modifier's keys.
    pub fn is_modifier(&self, scan_code: u32) -> (r: bool)
        ensures
            r == (scan_code == self@.modifier.0 || scan_code == self@.modifier.1),
    {
        self.modifier[0] == scan_code || self.modifier[1] == scan_code
    }

    /// The modifier scan codes and the accelerator scan code of a hotkey value.
    pub fn parse(value: &str) -> (r: Option<([u32; 2], u32)>)
        ensures
            match r {
                Some(parsed) => spec_parse(value@) == Some(((parsed.0[0], parsed.0[1]), parsed.1)),
                None => spec_parse(value@) is None,
            },
    {
        let chars = chars_of(value);
        let lowered = lower_without_spaces(&chars);
        let text = without_vk(&lowered);
        let n = text.len();
        let mut plus: usize = 0;
        while plus < n && text[plus] != '+'
            invariant
                n == text.len(),
                0 <= plus <= n,
                forall|k: int| 0 <= k < plus ==> text@[k] != '+',
            decreases n - plus,
        {
            plus += 1;
        }
        proof {
            lemma_first_index_is(text@, '+', plus as int);
        }
        if plus >= n {
            return None;
        }
        let key_chars = slice_of(&text, plus + 1, n);
        proof {
            assert(text@.subrange(plus + 1, n as int) =~= text@.skip(plus + 1));
        }
        if crate::text::contains_char(&key_chars, '+') {
            return None;
        }
        let modifier_chars = slice_of(&text, 0, plus);
        proof {
            assert(text@.subrange(0, plus as int) =~= text@.take(plus as int));
        }
        let modifier_name = string_from_chars(&modifier_chars);
        let key_name = string_from_chars(&key_chars);
        let modifier = match modifier_of(modifier_name.as_str()) {
            Some(m) => m,
            None => {
                return None;
            },
        };
        let code = match code_of(key_name.as_str()) {
            Some(c) => c,
            None => {
                return None;
            },
        };
        Some((modifier, code))
    }
}

#[verifier::external_type_specification]
#[verifier::external_body]
pub struct ExIni(Ini);

/// The settings of a configuration: for a section name, or none for the
/// general section, and a key, the first value stored under them.
pub uninterp spec fn ini_entries(conf: Ini) -> Map<(Option<Seq<char>>, Seq<char>), Seq<char>>;

/// The name of a section as the settings are keyed by it.
pub open spec fn section_name(section: Option<&str>) -> Option<Seq<char>> {
    match section {
        Some(name) => Some(name@),
        None => None,
    }
}

/// The value of a setting, if the configuration holds it.
pub open spec fn setting(
    entries: Map<(Option<Seq<char>>, Seq<char>), Seq<char>>,
    section: Option<Seq<char>>,
    key: Seq<char>,
) -> Option<Seq<char>> {
    if entries.contains_key((section, key)) {
        Some(entries[(section, key)])
    } else {
        None
    }
}

/// `Ini::get_from`: the first value stored under `key` in the first section of
/// that name, copied out; none where the section or the key is missing.
#[verifier::external_body]
pub(crate) fn ini_get(conf: &Ini, section: Option<&str>, key: &str) -> (r: Option<String>)
    ensures
        match r {
            Some(value) => setting(ini_entries(*conf), section_name(section), key@) == Some(value@),
            None => setting(ini_entries(*conf), section_name(section), key@) is None,
        },
{
    conf.get_from(section, key).map(String::from)
}

/// How much is logged.
#[derive(Clone, Copy, Debug, PartialEq, Eq, Structural)]
pub enum LogLevel {
    Off,
    Error,
    Warn,
    Info,
    Debug,
    Trace,
}

/// The level that a name stands for, whatever the case of its ASCII letters.
pub open spec fn spec_level(value: Seq<char>) -> Option<LogLevel> {
    let name = ascii_lowered(value);
    if name == "off"@ {
        Some(LogLevel::Off)
    } else if name == "error"@ {
        Some(LogLevel::Error)
    } else if name == "warn"@ {
        Some(LogLevel::Warn)
    } else if name == "info"@ {
        Some(LogLevel::Info)
    } else if name == "debug"@ {
        Some(LogLevel::Debug)
    } else if name == "trace"@ {
        Some(LogLevel::Trace)
    } else {
        None
    }
}

/// `LevelFilter::from_str` of the `log` crate: the level whose name the text
/// is, compared without regard to ASCII case; none for any other text.
#[verifier::external_body]
pub(crate) fn parse_level(value: &str) -> (r: Option<LogLevel>)
    ensures
        r == spec_level(value@),
{
    match value.parse::<log::LevelFilter>() {
        Ok(log::LevelFilter::Off) => Some(LogLevel::Off),
        Ok(log::LevelFilter::Error) => Some(LogLevel::Error),
        Ok(log::LevelFilter::Warn) => Some(LogLevel::Warn),
        Ok(log::LevelFilter::Info) => Some(LogLevel::Info),
        Ok(log::LevelFilter::Debug) => Some(LogLevel::Debug),
        Ok(log::LevelFilter::Trace) => Some(LogLevel::Trace),
        Err(_) => None,
    }
}

/// The truth value that a setting's text stands for.
pub open spec fn spec_to_bool(v: Seq<char>) -> Option<bool> {
    if v == "yes"@ || v == "true"@ || v == "on"@ || v == "1"@ {
        Some(true)
    } else if v == "no"@ || v == "false"@ || v == "off"@ || v == "0"@ {
        Some(false)
    } else {
        None
    }
}

/// A truth-valued setting, where it is set to a text that stands for one.
pub open spec fn bool_setting(
    entries: Map<(Option<Seq<char>>, Seq<char>), Seq<char>>,
    section: Option<Seq<char>>,
    key: Seq<char>,
) -> Option<bool> {
    match setting(entries, section, key) {
        Some(v) => spec_to_bool(v),
        None => None,
    }
}

/// Whether a text is nothing but white space.
pub open spec fn is_blank(v: Seq<char>) -> bool {
    forall|k: int| 0 <= k < v.len() ==> spec_is_whitespace(v[k])
}

/// The trimmed pieces of a comma-separated list, repeats and all.
pub open spec fn trimmed_pieces(value: Seq<char>) -> Seq<Seq<char>> {
    let pieces = split_pieces(collapse_backslashes(value), ',', ',');
    Seq::new(pieces.len(), |i: int| trimmed(pieces[i]))
}

/// The names in the order of their first occurrence, each once.
pub open spec fn distinct_names(names: Seq<Seq<char>>) -> Seq<Seq<char>>
    decreases names.len(),
{
    if names.len() == 0 {
        Seq::empty()
    } else {
        let head = distinct_names(names.drop_last());
        if head.contains(names.last()) {
            head
        } else {
            head.push(names.last())
        }
    }
}

/// `distinct_names` repeats no name and keeps every name.
pub proof fn lemma_distinct_names(names: Seq<Seq<char>>)
    ensures
        distinct_names(names).no_duplicates(),
        forall|name: Seq<char>| distinct_names(names).contains(name) <==> names.contains(name),
    decreases names.len(),
{
    if names.len() > 0 {
        let front = names.drop_last();
        let head = distinct_names(front);
        let all = distinct_names(names);
        lemma_distinct_names(front);
        assert forall|name: Seq<char>| all.contains(name) <==> names.contains(name) by {
            if names.contains(name) {
                let i = choose|i: int| 0 <= i < names.len() && names[i] == name;
                if i < front.len() {
                    assert(front[i] == name);
                    assert(front.contains(name));
                    assert(head.contains(name));
                    let k = choose|k: int| 0 <= k < head.len() && head[k] == name;
                    assert(all[k] == name);
                } else if !head.contains(names.last()) {
                    assert(all[head.len() as int] == name);
                }
            }
            if all.contains(name) {
                let k = choose|k: int| 0 <= k < all.len() && all[k] == name;
                if k < head.len() {
                    assert(head[k] == name);
                    assert(head.contains(name));
                    assert(front.contains(name));
                    let i = choose|i: int| 0 <= i < front.len() && front[i] == name;
                    assert(names[i] == name);
                } else {
                    assert(names[names.len() - 1] == name);
                }
            }
        }
    }
}

/// The blacklist that a setting's text gives: the trimmed pieces of the
/// comma-separated list, each name once, in the order of first occurrence.
pub open spec fn blacklist_of(value: Seq<char>) -> Seq<Seq<char>> {
    distinct_names(trimmed_pieces(value))
}

/// The icon overrides that the first `n` pieces give: each piece that holds
/// an equals sign, once trimmed, stores what follows the first equals sign
/// under the lowercase of what precedes it.
pub open spec fn overrides_of(pieces: Seq<Seq<char>>, n: int) -> Seq<(Seq<char>, Seq<char>)>
    decreases n,
{
    if n <= 0 {
        Seq::empty()
    } else {
        let head = overrides_of(pieces, n - 1);
        let piece = trimmed(pieces[n - 1]);
        let at = first_index_of(piece, '=');
        if at < piece.len() {
            with_text_entry(head, lowercase_of(piece.take(at)), piece.skip(at + 1))
        } else {
            head
        }
    }
}

/// The icon overrides that a setting's text gives.
pub open spec fn override_icons_of(value: Seq<char>) -> Seq<(Seq<char>, Seq<char>)> {
    let pieces = split_pieces(collapse_backslashes(value), ',', ';');
    overrides_of(pieces, pieces.len() as int)
}

/// The configuration.
pub struct Config {
    pub trayicon: bool,
    pub log_level: LogLevel,
    /// Where the log is written, as the configuration gives it.
    pub log_file: Option<String>,
    pub switch_windows_hotkey: Hotkey,
    /// Executable names for which the switch-windows hotkey is switched off.
    /// As loaded, the list holds no name twice.
    pub switch_windows_blacklist: Vec<String>,
    pub switch_windows_ignore_minimal: bool,
    /// The setting that limits cycling to the current desktop; where unset,
    /// the system's own setting decides. It is kept as it was read: window
    /// discovery lists no cloaked window, and so none of another desktop,
    /// whatever it says.
    pub switch_windows_only_current_desktop: Option<bool>,
    pub switch_apps_enable: bool,
    pub switch_apps_hotkey: Hotkey,
    pub switch_apps_ignore_minimal: bool,
    /// Icon paths by a lowercase part of the executable path.
    pub switch_apps_override_icons: IndexMap<String, String>,
    pub switch_apps_only_current_desktop: Option<bool>,
}

/// The mathematical content of a `Config`.
pub struct ConfigModel {
    pub trayicon: bool,
    pub log_level: LogLevel,
    pub log_file: Option<Seq<char>>,
    pub switch_windows_hotkey: HotkeyModel,
    pub switch_windows_blacklist: Seq<Seq<char>>,
    pub switch_windows_ignore_minimal: bool,
    pub switch_windows_only_current_desktop: Option<bool>,
    pub switch_apps_enable: bool,
    pub switch_apps_hotkey: HotkeyModel,
    pub switch_apps_ignore_minimal: bool,
    pub switch_apps_override_icons: Seq<(Seq<char>, Seq<char>)>,
    pub switch_apps_only_current_desktop: Option<bool>,
}

impl View for Config {
    type V = ConfigModel;

    open spec fn view(&self) -> ConfigModel {
        ConfigModel {
            trayicon: self.trayicon,
            log_level: self.log_level,
            log_file: match self.log_file {
                Some(path) => Some(path@),
                None => None,
            },
            switch_windows_hotkey: self.switch_windows_hotkey@,
            switch_windows_blacklist: self.switch_windows_blacklist.deep_view(),
            switch_windows_ignore_minimal: self.switch_windows_ignore_minimal,
            switch_windows_only_current_desktop: self.switch_windows_only_current_desktop,
            switch_apps_enable: self.switch_apps_enable,
            switch_apps_hotkey: self.switch_apps_hotkey@,
            switch_apps_ignore_minimal: self.switch_apps_ignore_minimal,
            switch_apps_override_icons: text_entries(self.switch_apps_override_icons),
            switch_apps_only_current_desktop: self.switch_apps_only_current_desktop,
        }
    }
}

/// The configuration where nothing is set.
pub open spec fn default_config() -> ConfigModel {
    ConfigModel {
        trayicon: true,
        log_level: LogLevel::Info,
        log_file: None,
        switch_windows_hotkey: HotkeyModel {
            id: SWITCH_WINDOWS_HOTKEY_ID,
            name: "switch windows"@,
            modifier: (0x38u32, 0x38u32),
            code: 0x29,
        },
        switch_windows_blacklist: Seq::empty(),
        switch_windows_ignore_minimal: false,
        switch_windows_only_current_desktop: None,
        switch_apps_enable: false,
        switch_apps_hotkey: HotkeyModel {
            id: SWITCH_APPS_HOTKEY_ID,
            name: "switch apps"@,
            modifier: (0x38u32, 0x38u32),
            code: 0x0f,
        },
        switch_apps_ignore_minimal: false,
        switch_apps_override_icons: Seq::empty(),
        switch_apps_only_current_desktop: None,
    }
}

/// The hotkey of a section: the default where the setting is missing or
/// blank, the binding that the setting stands for where it stands for one.
pub open spec fn hotkey_of(
    entries: Map<(Option<Seq<char>>, Seq<char>), Seq<char>>,
    section: Seq<char>,
    id: u32,
    name: Seq<char>,
    default: HotkeyModel,
) -> Option<HotkeyModel> {
    match setting(entries, Some(section), "hotkey"@) {
        Some(v) => if is_blank(v) {
            Some(default)
        } else {
            match spec_parse(v) {
                Some(parsed) => Some(HotkeyModel { id, name, modifier: parsed.0, code: parsed.1 }),
                None => None,
            }
        },
        None => Some(default),
    }
}

/// The configuration that the settings give, where both hotkeys can be read.
pub open spec fn loaded_config(entries: Map<(Option<Seq<char>>, Seq<char>), Seq<char>>) -> ConfigModel {
    let d = default_config();
    ConfigModel {
        trayicon: match bool_setting(entries, None, "trayicon"@) {
            Some(b) => b,
            None => d.trayicon,
        },
        log_level: match setting(entries, Some("log"@), "level"@) {
            Some(v) => match spec_level(v) {
                Some(level) => level,
                None => d.log_level,
            },
            None => d.log_level,
        },
        log_file: match setting(entries, Some("log"@), "path"@) {
            Some(v) => if is_blank(collapse_backslashes(v)) {
                None
            } else {
                Some(collapse_backslashes(v))
            },
            None => None,
        },
        switch_windows_hotkey: match hotkey_of(
            entries,
            "switch-windows"@,
            SWITCH_WINDOWS_HOTKEY_ID,
            "switch windows"@,
            d.switch_windows_hotkey,
        ) {
            Some(h) => h,
            None => d.switch_windows_hotkey,
        },
        switch_windows_blacklist: match setting(entries, Some("switch-windows"@), "blacklist"@) {
            Some(v) => blacklist_of(v),
            None => Seq::empty(),
        },
        switch_windows_ignore_minimal: match bool_setting(
            entries,
            Some("switch-windows"@),
            "ignore_minimal"@,
        ) {
            Some(b) => b,
            None => false,
        },
        switch_windows_only_current_desktop: bool_setting(
            entries,
            Some("switch-windows"@),
            "only_current_desktop"@,
        ),
        switch_apps_enable: match bool_setting(entries, Some("switch-apps"@), "enable"@) {
            Some(b) => b,
            None => false,
        },
        switch_apps_hotkey: match hotkey_of(
            entries,
            "switch-apps"@,
            SWITCH_APPS_HOTKEY_ID,
            "switch apps"@,
            d.switch_apps_hotkey,
        ) {
            Some(h) => h,
            None => d.switch_apps_hotkey,
        },
        switch_apps_ignore_minimal: match bool_setting(entries, Some("switch-apps"@), "ignore_minimal"@) {
            Some(b) => b,
            None => false,
        },
        switch_apps_override_icons: match setting(entries, Some("switch-apps"@), "override_icons"@) {
            Some(v) => override_icons_of(v),
            None => Seq::empty(),
        },
        switch_apps_only_current_desktop: bool_setting(
            entries,
            Some("switch-apps"@),
            "only_current_desktop"@,
        ),
    }
}

/// The name of the first hotkey that cannot be read, if there is one.
pub open spec fn refused_hotkey(entries: Map<(Option<Seq<char>>, Seq<char>), Seq<char>>) -> Option<
    Seq<char>,
> {
    let d = default_config();
    if hotkey_of(
        entries,
        "switch-windows"@,
        SWITCH_WINDOWS_HOTKEY_ID,
        "switch windows"@,
        d.switch_windows_hotkey,
    ) is None {
        Some("switch windows"@)
    } else if hotkey_of(
        entries,
        "switch-apps"@,
        SWITCH_APPS_HOTKEY_ID,
        "switch apps"@,
        d.switch_apps_hotkey,
    ) is None {
        Some("switch apps"@)
    } else {
        None
    }
}

/// Whether only the current desktop counts where the configuration leaves it
/// open: the system's task-switcher filter decides, and where that cannot be
/// read, only the current desktop counts.
pub open spec fn spec_system_only_current_desktop(alt_tab_filter: Option<u32>) -> bool {
    match alt_tab_filter {
        Some(v) => v != 0,
        None => true,
    }
}

pub fn system_switcher_only_current_desktop(alt_tab_filter: Option<u32>) -> (r: bool)
    ensures
        r == spec_system_only_current_desktop(alt_tab_filter),
{
    match alt_tab_filter {
        Some(v) => v != 0,
        None => true,
    }
}

fn bool_of(conf: &Ini, section: Option<&str>, key: &str) -> (r: Option<bool>)
    ensures
        r == bool_setting(ini_entries(*conf), section_name(section), key@),
{
    match ini_get(conf, section, key) {
        Some(v) => Config::to_bool(v.as_str()),
        None => None,
    }
}

fn hotkey_from(conf: &Ini, section: &str, id: u32, name: &str, default: Hotkey) -> (r: Result<
    Hotkey,
    ConfigError,
>)
    ensures
        match r {
            Ok(hotkey) => hotkey_of(ini_entries(*conf), section@, id, name@, default@) == Some(hotkey@),
            Err(ConfigError::InvalidHotkey { name: refused }) => hotkey_of(
                ini_entries(*conf),
                section@,
                id,
                name@,
                default@,
            ) is None && refused@ == name@,
        },
{
    match ini_get(conf, Some(section), "hotkey") {
        Some(v) => {
            let chars = chars_of(v.as_str());
            let kept = trim_chars(&chars);
            if kept.len() == 0 {
                Ok(default)
            } else {
                Hotkey::create(id, name, v.as_str())
            }
        },
        None => Ok(default),
    }
}

/// Whether `name` is among `names`.
pub fn contains_name(names: &Vec<String>, name: &String) -> (r: bool)
    ensures
        r == names.deep_view().contains(name@),
{
    let mut i: usize = 0;
    while i < names.len()
        invariant
            0 <= i <= names.len(),
            forall|k: int| 0 <= k < i ==> (#[trigger] names@[k])@ != name@,
        decreases names.len() - i,
    {
        if names[i] == *name {
            proof {
                assert(names.deep_view()[i as int] == name@);
            }
            return true;
        }
        i += 1;
    }
    proof {
        assert forall|k: int| 0 <= k < names.deep_view().len() implies names.deep_view()[k]
            != name@ by {
            assert(names.deep_view()[k] == names@[k]@);
        }
    }
    false
}

/// The blacklist that a setting's text gives. No name occurs twice in it.
pub fn parse_blacklist(value: &str) -> (r: Vec<String>)
    ensures
        r.deep_view() == blacklist_of(value@),
        r.deep_view().no_duplicates(),
{
    let chars = chars_of(value);
    let normal = collapse_chars(&chars);
    let pieces = split_chars(&normal, ',', ',');
    let ghost all = trimmed_pieces(value@);
    let mut r: Vec<String> = Vec::new();
    let mut i: usize = 0;
    proof {
        assert(all.take(0) =~= Seq::<Seq<char>>::empty());
        assert(r.deep_view() =~= distinct_names(all.take(0)));
    }
    while i < pieces.len()
        invariant
            0 <= i <= pieces.len(),
            all == trimmed_pieces(value@),
            all.len() == pieces.len(),
            piece_views(pieces@) == split_pieces(collapse_backslashes(value@), ',', ','),
            r.deep_view() == distinct_names(all.take(i as int)),
        decreases pieces.len() - i,
    {
        let kept = trim_chars(&pieces[i]);
        let name = string_from_chars(&kept);
        proof {
            assert(piece_views(pieces@)[i as int] == pieces@[i as int]@);
            assert(all[i as int] == name@);
            assert(all.take(i + 1).drop_last() =~= all.take(i as int));
            assert(all.take(i + 1).last() == name@);
        }
        let ghost before = r.deep_view();
        if !contains_name(&r, &name) {
            r.push(name);
            proof {
                assert(r.deep_view() =~= before.push(all[i as int]));
            }
        }
        i += 1;
    }
    proof {
        assert(all.take(pieces.len() as int) =~= all);
        lemma_distinct_names(all);
    }
    r
}

/// The icon overrides that a setting's text gives.
pub fn parse_override_icons(value: &str) -> (r: IndexMap<String, String>)
    ensures
        text_entries(r) == override_icons_of(value@),
{
    let chars = chars_of(value);
    let normal = collapse_chars(&chars);
    let pieces = split_chars(&normal, ',', ';');
    let mut r = text_map_new();
    let mut i: usize = 0;
    while i < pieces.len()
        invariant
            0 <= i <= pieces.len(),
            piece_views(pieces@) == split_pieces(collapse_backslashes(value@), ',', ';'),
            text_entries(r) == overrides_of(piece_views(pieces@), i as int),
        decreases pieces.len() - i,
    {
        proof {
            assert(piece_views(pieces@)[i as int] == pieces@[i as int]@);
        }
        let piece = trim_chars(&pieces[i]);
        let n = piece.len();
        let mut at: usize = 0;
        while at < n && piece[at] != '='
            invariant
                n == piece.len(),
                0 <= at <= n,
                forall|k: int| 0 <= k < at ==> piece@[k] != '=',
            decreases n - at,
        {
            at += 1;
        }
        proof {
            lemma_first_index_is(piece@, '=', at as int);
        }
        if at < n {
            let key_chars = slice_of(&piece, 0, at);
            let value_chars = slice_of(&piece, at + 1, n);
            proof {
                assert(piece@.subrange(0, at as int) =~= piece@.take(at as int));
                assert(piece@.subrange(at + 1, n as int) =~= piece@.skip(at + 1));
            }
            let key = string_from_chars(&key_chars);
            text_map_insert(&mut r, lowercase(key.as_str()), string_from_chars(&value_chars));
        }
        i += 1;
    }
    r
}

impl Default for Config {
    fn default() -> (r: Self)
        ensures
            r@ == default_config(),
    {
        let blacklist: Vec<String> = Vec::new();
        proof {
            assert(blacklist.deep_view() =~= Seq::<Seq<char>>::empty());
        }
        Config {
            trayicon: true,
            log_level: LogLevel::Info,
            log_file: None,
            switch_windows_hotkey: Hotkey {
                id: SWITCH_WINDOWS_HOTKEY_ID,
                name: "switch windows".to_owned(),
                modifier: [0x38, 0x38],
                code: 0x29,
            },
            switch_windows_blacklist: blacklist,
            switch_windows_ignore_minimal: false,
            switch_windows_only_current_desktop: None,
            switch_apps_enable: false,
            switch_apps_hotkey: Hotkey {
                id: SWITCH_APPS_HOTKEY_ID,
                name: "switch apps".to_owned(),
                modifier: [0x38, 0x38],
                code: 0x0f,
            },
            switch_apps_ignore_minimal: false,
            switch_apps_override_icons: text_map_new(),
            switch_apps_only_current_desktop: None,
        }
    }
}

impl Config {
    /// The configuration that the settings give. A setting that is missing,
    /// or whose text cannot be read, leaves the default; a hotkey that is set
    /// and cannot be read is refused.
    pub fn load(ini_conf: &Ini) -> (r: Result<Self, ConfigError>)
        ensures
            match r {
                Ok(conf) => refused_hotkey(ini_entries(*ini_conf)) is None && conf@ == loaded_config(
                    ini_entries(*ini_conf),
                ) && conf@.switch_windows_blacklist.no_duplicates(),
                Err(ConfigError::InvalidHotkey { name }) => refused_hotkey(ini_entries(*ini_conf))
                    == Some(name@),
            },
    {
        let mut conf = Config::default();
        match bool_of(ini_conf, None, "trayicon") {
            Some(v) => {
                conf.trayicon = v;
            },
            None => {},
        }
        match ini_get(ini_conf, Some("log"), "level") {
            Some(v) => match parse_level(v.as_str()) {
                Some(level) => {
                    conf.log_level = level;
                },
                None => {},
            },
            None => {},
        }
        match ini_get(ini_conf, Some("log"), "path") {
            Some(v) => {
                let chars = chars_of(v.as_str());
                let path = collapse_chars(&chars);
                let kept = trim_chars(&path);
                if kept.len() != 0 {
                    conf.log_file = Some(string_from_chars(&path));
                }
            },
            None => {},
        }
        let default_windows = conf.switch_windows_hotkey.clone();
        match hotkey_from(
            ini_conf,
            "switch-windows",
            SWITCH_WINDOWS_HOTKEY_ID,
            "switch windows",
            default_windows,
        ) {
            Ok(hotkey) => {
                conf.switch_windows_hotkey = hotkey;
            },
            Err(e) => {
                return Err(e);
            },
        }
        match ini_get(ini_conf, Some("switch-windows"), "blacklist") {
            Some(v) => {
                conf.switch_windows_blacklist = parse_blacklist(v.as_str());
            },
            None => {},
        }
        match bool_of(ini_conf, Some("switch-windows"), "ignore_minimal") {
            Some(v) => {
                conf.switch_windows_ignore_minimal = v;
            },
            None => {},
        }
        conf.switch_windows_only_current_desktop = bool_of(
            ini_conf,
            Some("switch-windows"),
            "only_current_desktop",
        );
        match bool_of(ini_conf, Some("switch-apps"), "enable") {
            Some(v) => {
                conf.switch_apps_enable = v;
            },
            None => {},
        }
        let default_apps = conf.switch_apps_hotkey.clone();
        match hotkey_from(ini_conf, "switch-apps", SWITCH_APPS_HOTKEY_ID, "switch apps", default_apps) {
            Ok(hotkey) => {
                conf.switch_apps_hotkey = hotkey;
            },
            Err(e) => {
                return Err(e);
            },
        }
        match bool_of(ini_conf, Some("switch-apps"), "ignore_minimal") {
            Some(v) => {
                conf.switch_apps_ignore_minimal = v;
            },
            None => {},
        }
        match ini_get(ini_conf, Some("switch-apps"), "override_icons") {
            Some(v) => {
                conf.switch_apps_override_icons = parse_override_icons(v.as_str());
            },
            None => {},
        }
        conf.switch_apps_only_current_desktop = bool_of(
            ini_conf,
            Some("switch-apps"),
            "only_current_desktop",
        );
        Ok(conf)
    }

    /// The bindings that are in force: the switch-windows binding, and the
    /// switch-apps binding where it is enabled.
    pub fn to_hotkeys(&self) -> (r: Vec<Hotkey>)
        ensures
            r.len() == if self.switch_apps_enable {
                2int
            } else {
                1int
            },
            r@[0]@ == self@.switch_windows_hotkey,
            self.switch_apps_enable ==> r@[1]@ == self@.switch_apps_hotkey,
    {
        let mut hotkeys: Vec<Hotkey> = Vec::new();
        hotkeys.push(self.switch_windows_hotkey.clone());
        if self.switch_apps_enable {
            hotkeys.push(self.switch_apps_hotkey.clone());
        }
        hotkeys
    }

    /// The truth value that a setting's text stands for.
    pub fn to_bool(v: &str) -> (r: Option<bool>)
        ensures
            r == spec_to_bool(v@),
    {
        if str_eq(v, "yes") || str_eq(v, "true") || str_eq(v, "on") || str_eq(v, "1") {
            Some(true)
        } else if str_eq(v, "no") || str_eq(v, "false") || str_eq(v, "off") || str_eq(v, "0") {
            Some(false)
        } else {
            None
        }
    }

    /// Whether app switching is limited to the current desktop: as
    /// configured, else as the system's task-switcher filter has it.
    pub fn switch_apps_only_current_desktop(&self, alt_tab_filter: Option<u32>) -> (r: bool)
        ensures
            r == match self.switch_apps_only_current_desktop {
                Some(b) => b,
                None => spec_system_only_current_desktop(alt_tab_filter),
            },
    {
        match self.switch_apps_only_current_desktop {
            Some(b) => b,
            None => system_switcher_only_current_desktop(alt_tab_filter),
        }
    }

    /// Whether window switching is limited to the current desktop: as
    /// configured, else as the system's task-switcher filter has it.
    pub fn switch_windows_only_current_desktop(&self, alt_tab_filter: Option<u32>) -> (r: bool)
        ensures
            r == match self.switch_windows_only_current_desktop {
                Some(b) => b,
                None => spec_system_only_current_desktop(alt_tab_filter),
            },
    {
        match self.switch_windows_only_current_desktop {
            Some(b) => b,
            None => system_switcher_only_current_desktop(alt_tab_filter),
        }
    }
}

} // verus!
