use vstd::prelude::*;

use crate::error::ConfigError;
use crate::text::str_equals;

verus! {

/// Application identifier announced to the compositor.
pub const APP_ID: &'static str = "com.chmouel.shmooz";

/// Keys that can be bound to closing the application.
#[derive(Debug, Clone, Copy, PartialEq, Eq, Structural)]
pub enum CloseKey {
    Escape,
    Q,
    X,
}

/// The key names accepted by `--map-close`.
pub open spec fn parse_close_key_spec(raw: Seq<char>) -> Option<CloseKey> {
    if raw == "Esc"@ || raw == "Escape"@ {
        Some(CloseKey::Escape)
    } else if raw == "q"@ || raw == "Q"@ {
        Some(CloseKey::Q)
    } else if raw == "x"@ || raw == "X"@ {
        Some(CloseKey::X)
    } else {
        None
    }
}

/// Linux input event code of each close key.
pub open spec fn key_code_spec(key: CloseKey) -> u32 {
    match key {
        CloseKey::Escape => 1,
        CloseKey::Q => 16,
        CloseKey::X => 45,
    }
}

/// Name of each close key as shown to the user.
pub open spec fn close_key_label_spec(key: Option<CloseKey>) -> Seq<char> {
    match key {
        Some(CloseKey::Q) => "Q"@,
        Some(CloseKey::X) => "X"@,
        _ => "Esc"@,
    }
}

impl CloseKey {
    pub fn parse(raw: &str) -> (result: Result<Self, ConfigError>)
        ensures
            parse_close_key_spec(raw@) matches Some(k) ==> result == Ok::<CloseKey, ConfigError>(k),
            parse_close_key_spec(raw@) is None ==> (result matches Err(ConfigError::InvalidCloseKey { value }) && value@ == raw@),
    {
        if str_equals(raw, "Esc") || str_equals(raw, "Escape") {
            Ok(CloseKey::Escape)
        } else if str_equals(raw, "q") || str_equals(raw, "Q") {
            Ok(CloseKey::Q)
        } else if str_equals(raw, "x") || str_equals(raw, "X") {
            Ok(CloseKey::X)
        } else {
            Err(ConfigError::InvalidCloseKey { value: raw.to_owned() })
        }
    }

    pub fn key_code(self) -> (code: u32)
        ensures
            code == key_code_spec(self),
    {
        match self {
            CloseKey::Escape => 1,
            CloseKey::Q => 16,
            CloseKey::X => 45,
        }
    }

    pub fn label(self) -> (label: &'static str)
        ensures
            label@ == close_key_label_spec(Some(self)),
    {
        close_key_label(Some(self))
    }
}

/// Label of the configured close key; Escape when none is configured.
pub fn close_key_label(key: Option<CloseKey>) -> (label: &'static str)
    ensures
        label@ == close_key_label_spec(key),
{
    proof {
        reveal_strlit("Q");
        reveal_strlit("X");
        reveal_strlit("Esc");
    }
    match key {
        Some(CloseKey::Q) => "Q",
        Some(CloseKey::X) => "X",
        _ => "Esc",
    }
}

/// Every key's label parses back to that key.
pub proof fn lemma_label_parses_back(key: CloseKey)
    ensures
        parse_close_key_spec(close_key_label_spec(Some(key))) == Some(key),
{
    reveal_strlit("Q");
    reveal_strlit("X");
    reveal_strlit("Esc");
    reveal_strlit("Escape");
    reveal_strlit("q");
    reveal_strlit("x");
    assert("Esc"@.len() == 3 && "Escape"@.len() == 6);
    assert("Q"@.len() == 1 && "q"@.len() == 1 && "X"@.len() == 1 && "x"@.len() == 1);
    assert("Q"@[0] == 'Q' && "q"@[0] == 'q' && "X"@[0] == 'X' && "x"@[0] == 'x');
}

/// A character in lower case (ASCII letters only).
pub open spec fn ascii_lower_char(c: char) -> char {
    if 'A' <= c <= 'Z' { ((c as u32) + 32) as char } else { c }
}

/// A text in lower case (ASCII letters only).
pub open spec fn ascii_lower(s: Seq<char>) -> Seq<char> {
    s.map_values(|c: char| ascii_lower_char(c))
}

/// `--map-close` accepts a spelling only for the key it names: the spelling is, up to
/// case, that key's label, or the full name "Escape" of the Escape key.
pub proof fn lemma_parse_names_the_key(raw: Seq<char>)
    ensures
        parse_close_key_spec(raw) matches Some(k) ==> (ascii_lower(raw) == ascii_lower(close_key_label_spec(Some(k)))
            || (k == CloseKey::Escape && raw == "Escape"@)),
{
    reveal_strlit("Q");
    reveal_strlit("X");
    reveal_strlit("Esc");
    reveal_strlit("Escape");
    reveal_strlit("q");
    reveal_strlit("x");
    if raw == "Esc"@ {
        assert(ascii_lower(raw) =~= ascii_lower("Esc"@));
    } else if raw == "q"@ || raw == "Q"@ {
        assert(ascii_lower(raw) =~= seq!['q']);
        assert(ascii_lower("Q"@) =~= seq!['q']);
    } else if raw == "x"@ || raw == "X"@ {
        assert(ascii_lower(raw) =~= seq!['x']);
        assert(ascii_lower("X"@) =~= seq!['x']);
    }
}

/// The lower-case spellings "q" and "x" name the Q and X keys.
pub proof fn lemma_lower_case_labels_parse(key: CloseKey)
    requires
        key != CloseKey::Escape,
    ensures
        parse_close_key_spec(ascii_lower(close_key_label_spec(Some(key)))) == Some(key),
{
    reveal_strlit("Q");
    reveal_strlit("X");
    reveal_strlit("Esc");
    reveal_strlit("Escape");
    reveal_strlit("q");
    reveal_strlit("x");
    assert("Esc"@.len() == 3 && "Escape"@.len() == 6);
    if key == CloseKey::Q {
        assert(ascii_lower("Q"@) =~= "q"@);
    } else {
        assert(ascii_lower("X"@) =~= "x"@);
        assert("x"@[0] == 'x' && "q"@[0] == 'q' && "Q"@[0] == 'Q');
        assert("x"@ != "q"@);
        assert("x"@ != "Q"@);
        assert("x"@ != "Esc"@);
        assert("x"@ != "Escape"@);
    }
}

} // verus!
