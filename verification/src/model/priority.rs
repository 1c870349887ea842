//! The three-level priority tag of a task, with case-insensitive parsing
//! from text and a fixed display text per level.

use vstd::prelude::*;
use vstd::string::StringExecFns;
use crate::text::chars_eq_str;
use crate::text::chars_to_string;
use crate::text::lower_chars;
use crate::text::lower_chars_of;

verus! {

/// Priority of a task. The three levels are ordered by declaration only;
/// no numeric meaning is attached to them.
#[derive(Debug, Clone, Copy, PartialEq, Eq, Structural)]
pub enum Priority {
    Low,
    Medium,
    High,
}

/// The display text of a priority.
pub open spec fn priority_text(p: Priority) -> Seq<char> {
    match p {
        Priority::Low => "Low"@,
        Priority::Medium => "Medium"@,
        Priority::High => "High"@,
    }
}

/// Which priority, if any, a piece of text names. The text is compared
/// after ASCII lower-casing: "1" or "high", "2" or "medium", "3" or "low".
pub open spec fn parse_priority(s: Seq<char>) -> Option<Priority> {
    let l = lower_chars(s);
    if l == "1"@ || l == "high"@ {
        Some(Priority::High)
    } else if l == "2"@ || l == "medium"@ {
        Some(Priority::Medium)
    } else if l == "3"@ || l == "low"@ {
        Some(Priority::Low)
    } else {
        None
    }
}

/// Which priority a display text names, if any: exactly the three texts
/// `priority_text` produces.
pub open spec fn priority_of_text(s: Seq<char>) -> Option<Priority> {
    if s == "Low"@ {
        Some(Priority::Low)
    } else if s == "Medium"@ {
        Some(Priority::Medium)
    } else if s == "High"@ {
        Some(Priority::High)
    } else {
        None
    }
}

/// The display text of a priority names that priority back.
pub proof fn lemma_priority_text_round(p: Priority)
    ensures
        priority_of_text(priority_text(p)) == Some(p),
{
    reveal_strlit("Low");
    reveal_strlit("Medium");
    reveal_strlit("High");
    assert("Low"@.len() == 3);
    assert("Medium"@.len() == 6);
    assert("High"@.len() == 4);
}

impl Priority {
    /// Parses a priority from text, case-insensitively. Unrecognised text
    /// is reported back, lower-cased, in the error message.
    pub fn str_to_priority(text: &str) -> (r: Result<Priority, String>)
        ensures
            match r {
                Ok(p) => parse_priority(text@) == Some(p),
                Err(e) => parse_priority(text@) is None && e@ == "Invalid prority value: "@
                    + lower_chars(text@),
            },
    {
        let lowered = lower_chars_of(text);
        if chars_eq_str(&lowered, "1") || chars_eq_str(&lowered, "high") {
            Ok(Priority::High)
        } else if chars_eq_str(&lowered, "2") || chars_eq_str(&lowered, "medium") {
            Ok(Priority::Medium)
        } else if chars_eq_str(&lowered, "3") || chars_eq_str(&lowered, "low") {
            Ok(Priority::Low)
        } else {
            let mut msg = String::from_str("Invalid prority value: ");
            let shown = chars_to_string(&lowered);
            msg.append(shown.as_str());
            Err(msg)
        }
    }

    /// The display text of this priority.
    pub fn text(&self) -> (r: String)
        ensures
            r@ == priority_text(*self),
    {
        match self {
            Priority::Low => String::from_str("Low"),
            Priority::Medium => String::from_str("Medium"),
            Priority::High => String::from_str("High"),
        }
    }
}

} // verus!
