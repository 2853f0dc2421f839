use vstd::prelude::*;

verus! {

pub struct ValidationContext;

// ---------------------------------------------------------------------------
// Character classes. The policy deliberately reads ASCII classes and counts
// characters: a letter outside ASCII satisfies no class, so a password needs
// its lowercase, uppercase and digit witnesses from the ASCII ranges. This
// keeps every rule an exact, machine-checked predicate.
// ---------------------------------------------------------------------------

pub open spec fn is_lower_char(c: char) -> bool {
    ('a' as u32) <= (c as u32) && (c as u32) <= ('z' as u32)
}

pub open spec fn is_upper_char(c: char) -> bool {
    ('A' as u32) <= (c as u32) && (c as u32) <= ('Z' as u32)
}

pub open spec fn is_digit_char(c: char) -> bool {
    ('0' as u32) <= (c as u32) && (c as u32) <= ('9' as u32)
}

/// The characters the password policy counts as special.
pub open spec fn is_special_char(c: char) -> bool {
    ||| c == '!'
    ||| c == '@'
    ||| c == '#'
    ||| c == '$'
    ||| c == '%'
    ||| c == '^'
    ||| c == '&'
    ||| c == '*'
    ||| c == '('
    ||| c == ')'
    ||| c == '-'
    ||| c == '_'
    ||| c == '='
    ||| c == '+'
    ||| c == '['
    ||| c == ']'
    ||| c == '{'
    ||| c == '}'
    ||| c == '|'
    ||| c == ';'
    ||| c == ':'
    ||| c == '\''
    ||| c == '"'
    ||| c == ','
    ||| c == '.'
    ||| c == '<'
    ||| c == '>'
    ||| c == '?'
    ||| c == '/'
}

pub open spec fn has_lower(s: Seq<char>) -> bool {
    exists|i: int| 0 <= i < s.len() && is_lower_char(s[i])
}

pub open spec fn has_upper(s: Seq<char>) -> bool {
    exists|i: int| 0 <= i < s.len() && is_upper_char(s[i])
}

pub open spec fn has_digit(s: Seq<char>) -> bool {
    exists|i: int| 0 <= i < s.len() && is_digit_char(s[i])
}

pub open spec fn has_special(s: Seq<char>) -> bool {
    exists|i: int| 0 <= i < s.len() && is_special_char(s[i])
}

/// The password policy: at least 8 characters, with at least one lowercase
/// letter, one uppercase letter, one digit and one special character — each
/// drawn from the ASCII classes above, a deliberate tightening over any
/// locale-dependent notion of letter case.
pub open spec fn valid_password(s: Seq<char>) -> bool {
    &&& s.len() >= 8
    &&& has_lower(s)
    &&& has_upper(s)
    &&& has_digit(s)
    &&& has_special(s)
}

fn is_special(c: char) -> (r: bool)
    ensures
        r == is_special_char(c),
{
    c == '!' || c == '@' || c == '#' || c == '$' || c == '%' || c == '^' || c == '&' || c == '*'
        || c == '(' || c == ')' || c == '-' || c == '_' || c == '=' || c == '+' || c == '[' || c
        == ']' || c == '{' || c == '}' || c == '|' || c == ';' || c == ':' || c == '\'' || c == '"'
        || c == ',' || c == '.' || c == '<' || c == '>' || c == '?' || c == '/'
}

/// Checks the password policy, reporting the first violated rule.
pub fn password_rules(value: &str) -> (r: Result<(), String>)
    ensures
        match r {
            Ok(_) => valid_password(value@),
            Err(m) => {
                &&& !valid_password(value@)
                &&& if value@.len() < 8 {
                    m@ == "Password must be at least 8 characters long"@
                } else if !has_lower(value@) {
                    m@ == "Password must contain at least one lowercase letter"@
                } else if !has_upper(value@) {
                    m@ == "Password must contain at least one uppercase letter"@
                } else if !has_digit(value@) {
                    m@ == "Password must contain at least one number"@
                } else {
                    m@ == "Password must contain at least one special character"@
                }
            },
        },
{
    let len = value.unicode_len();
    if len < 8 {
        return Err(String::from_str("Password must be at least 8 characters long"));
    }
    let mut found_lower = false;
    let mut found_upper = false;
    let mut found_digit = false;
    let mut found_special = false;
    let mut i: usize = 0;
    while i < len
        invariant
            len == value@.len(),
            0 <= i <= len,
            found_lower ==> has_lower(value@),
            !found_lower ==> forall|j: int| 0 <= j < i ==> !is_lower_char(value@[j]),
            found_upper ==> has_upper(value@),
            !found_upper ==> forall|j: int| 0 <= j < i ==> !is_upper_char(value@[j]),
            found_digit ==> has_digit(value@),
            !found_digit ==> forall|j: int| 0 <= j < i ==> !is_digit_char(value@[j]),
            found_special ==> has_special(value@),
            !found_special ==> forall|j: int| 0 <= j < i ==> !is_special_char(value@[j]),
        decreases len - i,
    {
        let c = value.get_char(i);
        let cu = c as u32;
        if 97 <= cu && cu <= 122 {
            found_lower = true;
            proof {
                assert(is_lower_char(value@[i as int]));
            }
        }
        if 65 <= cu && cu <= 90 {
            found_upper = true;
            proof {
                assert(is_upper_char(value@[i as int]));
            }
        }
        if 48 <= cu && cu <= 57 {
            found_digit = true;
            proof {
                assert(is_digit_char(value@[i as int]));
            }
        }
        if is_special(c) {
            found_special = true;
            proof {
                assert(is_special_char(value@[i as int]));
            }
        }
        i = i + 1;
    }
    if !found_lower {
        return Err(String::from_str("Password must contain at least one lowercase letter"));
    }
    if !found_upper {
        return Err(String::from_str("Password must contain at least one uppercase letter"));
    }
    if !found_digit {
        return Err(String::from_str("Password must contain at least one number"));
    }
    if !found_special {
        return Err(String::from_str("Password must contain at least one special character"));
    }
    Ok(())
}


/// What `validator::validate_email` accepts: a function of the string
/// alone.
pub uninterp spec fn email_valid(s: Seq<char>) -> bool;

/// Relies on `validator::validate_email`: the HTML5-style address check.
#[verifier::external_body]
pub fn check_email(s: &str) -> (r: bool)
    ensures
        r == email_valid(s@),
{
    validator::validate_email(s)
}

} // verus!
