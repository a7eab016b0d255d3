use vstd::prelude::*;

verus! {

/// Field associated with a validation error.
#[derive(Clone, Copy, Debug, PartialEq, Eq, Structural)]
pub enum Field {
    ProtocolVersion,
    TtlSeconds,
    MaxHops,
    Priority,
    ProtectedPayload,
    RemainingTtl,
    HopsTaken,
    CopiesLeft,
    LocalDeadline,
    State,
}

/// A bounded validation failure that never contains untrusted input bytes.
#[derive(Clone, Copy, Debug, PartialEq, Eq, Structural)]
pub enum CoreError {
    UnsupportedValue { field: Field },
    ValueBelowMinimum { field: Field },
    ValueAboveMaximum { field: Field },
    ArithmeticOverflow { field: Field },
    InvalidStateTransition,
}

impl Field {
    /// The field's name as `Debug` writes it.
    pub open spec fn spec_name(self) -> Seq<char> {
        match self {
            Field::ProtocolVersion => "ProtocolVersion"@,
            Field::TtlSeconds => "TtlSeconds"@,
            Field::MaxHops => "MaxHops"@,
            Field::Priority => "Priority"@,
            Field::ProtectedPayload => "ProtectedPayload"@,
            Field::RemainingTtl => "RemainingTtl"@,
            Field::HopsTaken => "HopsTaken"@,
            Field::CopiesLeft => "CopiesLeft"@,
            Field::LocalDeadline => "LocalDeadline"@,
            Field::State => "State"@,
        }
    }

    /// The field's name as `Debug` writes it.
    pub fn name(&self) -> (name: &'static str)
        ensures
            name@ == self.spec_name(),
    {
        match self {
            Field::ProtocolVersion => "ProtocolVersion",
            Field::TtlSeconds => "TtlSeconds",
            Field::MaxHops => "MaxHops",
            Field::Priority => "Priority",
            Field::ProtectedPayload => "ProtectedPayload",
            Field::RemainingTtl => "RemainingTtl",
            Field::HopsTaken => "HopsTaken",
            Field::CopiesLeft => "CopiesLeft",
            Field::LocalDeadline => "LocalDeadline",
            Field::State => "State",
        }
    }
}

/// The description of a validation failure: its kind and the field.
pub open spec fn core_error_text(error: CoreError) -> Seq<char> {
    match error {
        CoreError::UnsupportedValue { field } => "unsupported value for "@ + field.spec_name(),
        CoreError::ValueBelowMinimum { field } => "value below minimum for "@ + field.spec_name(),
        CoreError::ValueAboveMaximum { field } => "value above maximum for "@ + field.spec_name(),
        CoreError::ArithmeticOverflow { field } => "arithmetic overflow for "@ + field.spec_name(),
        CoreError::InvalidStateTransition => "invalid state transition"@,
    }
}

impl CoreError {
    /// Human-readable description, as `core_error_text` gives it; it names
    /// the field but never holds an input value.
    pub fn message(&self) -> (text: String)
        ensures
            text@ == core_error_text(*self),
    {
        match self {
            CoreError::UnsupportedValue { field } => String::from_str("unsupported value for ").concat(
                field.name(),
            ),
            CoreError::ValueBelowMinimum { field } => String::from_str(
                "value below minimum for ",
            ).concat(field.name()),
            CoreError::ValueAboveMaximum { field } => String::from_str(
                "value above maximum for ",
            ).concat(field.name()),
            CoreError::ArithmeticOverflow { field } => String::from_str(
                "arithmetic overflow for ",
            ).concat(field.name()),
            CoreError::InvalidStateTransition => String::from_str("invalid state transition"),
        }
    }
}

/// The character of a decimal digit.
pub open spec fn digit_char(d: nat) -> char {
    (48 + d) as char
}

/// The decimal digits of `n`, most significant first, as `Display` writes them.
pub open spec fn decimal_chars(n: nat) -> Seq<char>
    decreases n,
{
    if n < 10 {
        seq![digit_char(n)]
    } else {
        decimal_chars(n / 10) + seq![digit_char(n % 10)]
    }
}

fn digit_text(d: u8) -> (text: &'static str)
    requires
        d < 10,
    ensures
        text@ == seq![digit_char(d as nat)],
{
    proof {
        reveal_strlit("0");
        reveal_strlit("1");
        reveal_strlit("2");
        reveal_strlit("3");
        reveal_strlit("4");
        reveal_strlit("5");
        reveal_strlit("6");
        reveal_strlit("7");
        reveal_strlit("8");
        reveal_strlit("9");
    }
    let text = match d {
        0 => "0",
        1 => "1",
        2 => "2",
        3 => "3",
        4 => "4",
        5 => "5",
        6 => "6",
        7 => "7",
        8 => "8",
        _ => "9",
    };
    assert(text@ =~= seq![digit_char(d as nat)]);
    text
}

/// The decimal form of a byte value.
pub fn decimal_text(n: u8) -> (text: String)
    ensures
        text@ == decimal_chars(n as nat),
{
    let mut text = String::new();
    if n >= 100 {
        text = text.concat(digit_text(n / 100));
    }
    if n >= 10 {
        text = text.concat(digit_text((n / 10) % 10));
    }
    text = text.concat(digit_text(n % 10));
    proof {
        reveal_with_fuel(decimal_chars, 3);
        if n >= 100 {
            assert(decimal_chars((n / 10) as nat) == decimal_chars((n / 100) as nat) + seq![
                digit_char(((n / 10) % 10) as nat),
            ]);
        }
    }
    assert(text@ =~= decimal_chars(n as nat));
    text
}

/// The decimal form of a count.
pub fn count_text(n: usize) -> (text: String)
    ensures
        text@ == decimal_chars(n as nat),
    decreases n,
{
    if n < 10 {
        String::from_str(digit_text(n as u8))
    } else {
        let head = count_text(n / 10);
        let text = head.concat(digit_text((n % 10) as u8));
        proof {
            assert(decimal_chars(n as nat) == decimal_chars((n / 10) as nat) + seq![
                digit_char((n % 10) as nat),
            ]);
        }
        text
    }
}

} // verus!
