use vstd::prelude::*;
use vstd::string::*;
use crate::ids::{uuid_text, uuid_text_of};

verus! {

/// Domain errors of todo operations.
#[derive(Clone, Debug, PartialEq, Eq)]
pub enum TodoError {
    NotFound(u128),
    EpicNotFound(u128),
    InvalidUuid,
    ProjectMismatch(String, String),
    HasChildren(u64),
    SelfReference,
    Database(String),
}

pub open spec fn digit_char(d: nat) -> char {
    if d == 0 {
        '0'
    } else if d == 1 {
        '1'
    } else if d == 2 {
        '2'
    } else if d == 3 {
        '3'
    } else if d == 4 {
        '4'
    } else if d == 5 {
        '5'
    } else if d == 6 {
        '6'
    } else if d == 7 {
        '7'
    } else if d == 8 {
        '8'
    } else {
        '9'
    }
}

/// Decimal digits of a natural number, most significant first.
pub open spec fn decimal_of(n: nat) -> Seq<char>
    decreases n,
{
    if n < 10 {
        seq![digit_char(n)]
    } else {
        decimal_of(n / 10).push(digit_char(n % 10))
    }
}

/// Appends the digit `d` to `s`.
fn push_digit(s: &mut String, d: u64)
    requires
        d < 10,
    ensures
        final(s)@ == old(s)@.push(digit_char(d as nat)),
{
    proof {
        reveal_strlit("0");
        reveal_strlit("1");
        reveal_strlit("2");
        reveal_strlit("3");
        reveal_strlit("4");
        reveal_strlit("5");
        reveal_strlit("6");
        reveal_strlit("7");
        reveal_strlit("8");
        reveal_strlit("9");
    }
    let digit = if d == 0 {
        "0"
    } else if d == 1 {
        "1"
    } else if d == 2 {
        "2"
    } else if d == 3 {
        "3"
    } else if d == 4 {
        "4"
    } else if d == 5 {
        "5"
    } else if d == 6 {
        "6"
    } else if d == 7 {
        "7"
    } else if d == 8 {
        "8"
    } else {
        "9"
    };
    assert(digit@ == seq![digit_char(d as nat)]);
    s.append(digit);
    assert(final(s)@ =~= old(s)@.push(digit_char(d as nat)));
}

/// Appends the decimal digits of `n` to `s`.
fn push_decimal(s: &mut String, n: u64)
    ensures
        final(s)@ == old(s)@ + decimal_of(n as nat),
    decreases n,
{
    if n >= 10 {
        push_decimal(s, n / 10);
    }
    push_digit(s, n % 10);
    proof {
        if n >= 10 {
            assert(old(s)@ + decimal_of(n as nat) =~= (old(s)@ + decimal_of((n / 10) as nat)).push(
                digit_char((n % 10) as nat),
            ));
        } else {
            assert(old(s)@ + decimal_of(n as nat) =~= old(s)@.push(digit_char(n as nat)));
        }
    }
}

/// The decimal digits of `n`, without sign or padding.
fn decimal_text(n: u64) -> (r: String)
    ensures
        r@ == decimal_of(n as nat),
{
    let mut s = String::new();
    push_decimal(&mut s, n);
    assert(s@ =~= decimal_of(n as nat));
    s
}

impl TodoError {
    /// Errors the caller can correct by changing the request.
    pub open spec fn spec_is_client_error(&self) -> bool {
        match self {
            TodoError::NotFound(_) | TodoError::EpicNotFound(_) | TodoError::InvalidUuid
            | TodoError::ProjectMismatch(_, _) | TodoError::SelfReference => true,
            TodoError::HasChildren(_) | TodoError::Database(_) => false,
        }
    }

    pub fn is_client_error(&self) -> (r: bool)
        ensures
            r == self.spec_is_client_error(),
    {
        match self {
            TodoError::NotFound(_) | TodoError::EpicNotFound(_) | TodoError::InvalidUuid
            | TodoError::ProjectMismatch(_, _) | TodoError::SelfReference => true,
            TodoError::HasChildren(_) | TodoError::Database(_) => false,
        }
    }

    /// The human-readable text of the error.
    pub open spec fn spec_message(&self) -> Seq<char> {
        match self {
            TodoError::NotFound(id) => "todo "@ + uuid_text_of(*id) + " not found"@,
            TodoError::EpicNotFound(id) => "epic "@ + uuid_text_of(*id) + " not found"@,
            TodoError::InvalidUuid => "invalid UUID format"@,
            TodoError::ProjectMismatch(given, epic) => "project '"@ + given@
                + "' does not match epic's project '"@ + epic@ + "'"@,
            TodoError::HasChildren(n) => "cannot delete todo: it is an epic with "@ + decimal_of(
                *n as nat,
            ) + " sub-todo(s)"@,
            TodoError::SelfReference => "a todo cannot be its own epic"@,
            TodoError::Database(m) => "database error: "@ + m@,
        }
    }

    pub fn message(&self) -> (r: String)
        ensures
            r@ == self.spec_message(),
    {
        match self {
            TodoError::NotFound(id) => {
                let mut s = String::from_str("todo ");
                s.append(uuid_text(*id).as_str());
                s.append(" not found");
                s
            },
            TodoError::EpicNotFound(id) => {
                let mut s = String::from_str("epic ");
                s.append(uuid_text(*id).as_str());
                s.append(" not found");
                s
            },
            TodoError::InvalidUuid => String::from_str("invalid UUID format"),
            TodoError::ProjectMismatch(given, epic) => {
                let mut s = String::from_str("project '");
                s.append(given.as_str());
                s.append("' does not match epic's project '");
                s.append(epic.as_str());
                s.append("'");
                s
            },
            TodoError::HasChildren(n) => {
                let mut s = String::from_str("cannot delete todo: it is an epic with ");
                s.append(decimal_text(*n).as_str());
                s.append(" sub-todo(s)");
                s
            },
            TodoError::SelfReference => String::from_str("a todo cannot be its own epic"),
            TodoError::Database(m) => {
                let mut s = String::from_str("database error: ");
                s.append(m.as_str());
                s
            },
        }
    }
}

} // verus!
