use vstd::prelude::*;
use vstd::string::{StrSliceExecFns, StringExecFns};

verus! {

/// The decimal digit `d` as a one-character sequence.
pub open spec fn digit(d: nat) -> Seq<char> {
    "0123456789"@.subrange(d as int, d + 1 as int)
}

/// The decimal representation of `n`, without leading zeros.
pub open spec fn decimal(n: nat) -> Seq<char>
    decreases n,
{
    if n < 10 {
        digit(n)
    } else {
        decimal(n / 10) + digit(n % 10)
    }
}

/// Appends the decimal representation of `n` to `s`.
fn push_decimal(s: &mut String, n: u128)
    ensures
        final(s)@ == old(s)@ + decimal(n as nat),
    decreases n,
{
    if n >= 10 {
        push_decimal(s, n / 10);
    }
    let d = (n % 10) as usize;
    proof {
        reveal_strlit("0123456789");
    }
    s.append("0123456789".substring_char(d, d + 1));
}

/// Why a call's arguments could not be bound to the declared parameters.
#[derive(Debug, PartialEq, Eq)]
pub enum ArgError {
    /// More arguments than parameters, and the callable takes no extras.
    TooManyArguments { fname: Option<String>, max: usize, given: u128 },
    /// A parameter was given both by position and by keyword.
    DuplicateBinding { name: String, position: usize },
    /// A required keyword-only parameter was not given by keyword.
    MissingKeywordOnlyArgument { name: String },
    /// A required parameter was given neither by position nor by keyword.
    MissingPositionalArgument { name: String, position: usize },
    /// A keyword names no declared parameter.
    UnexpectedKeywordArgument { name: String },
}

/// The mathematical content of an [`ArgError`].
pub enum ArgErrorView {
    TooManyArguments { fname: Option<Seq<char>>, max: nat, given: nat },
    DuplicateBinding { name: Seq<char>, position: nat },
    MissingKeywordOnlyArgument { name: Seq<char> },
    MissingPositionalArgument { name: Seq<char>, position: nat },
    UnexpectedKeywordArgument { name: Seq<char> },
}

impl View for ArgError {
    type V = ArgErrorView;

    open spec fn view(&self) -> ArgErrorView {
        match self {
            ArgError::TooManyArguments { fname, max, given } => ArgErrorView::TooManyArguments {
                fname: match fname {
                    Some(f) => Some(f@),
                    None => None,
                },
                max: *max as nat,
                given: *given as nat,
            },
            ArgError::DuplicateBinding { name, position } => ArgErrorView::DuplicateBinding {
                name: name@,
                position: *position as nat,
            },
            ArgError::MissingKeywordOnlyArgument { name } =>
                ArgErrorView::MissingKeywordOnlyArgument { name: name@ },
            ArgError::MissingPositionalArgument { name, position } =>
                ArgErrorView::MissingPositionalArgument { name: name@, position: *position as nat },
            ArgError::UnexpectedKeywordArgument { name } =>
                ArgErrorView::UnexpectedKeywordArgument { name: name@ },
        }
    }
}

/// How a callable is named in messages: its name with `()`, or `function`
/// when the name is not known.
pub open spec fn callable_label(fname: Option<Seq<char>>) -> Seq<char> {
    match fname {
        Some(f) => f + "()"@,
        None => "function"@,
    }
}

/// The plural ending of a noun counted `n` times.
pub open spec fn plural_suffix(n: nat) -> Seq<char> {
    if n == 1 {
        ""@
    } else {
        "s"@
    }
}

impl ArgErrorView {
    /// The text reported to the embedding runtime for this error.
    pub open spec fn message(self) -> Seq<char> {
        match self {
            ArgErrorView::TooManyArguments { fname, max, given } => callable_label(fname)
                + " takes at most "@ + decimal(max) + " argument"@ + plural_suffix(max) + " ("@
                + decimal(given) + " given)"@,
            ArgErrorView::DuplicateBinding { name, position } => "Argument given by name ('"@
                + name + "') and position ("@ + decimal(position) + ")"@,
            ArgErrorView::MissingKeywordOnlyArgument { name } => "Required argument ('"@ + name
                + "') is keyword only argument"@,
            ArgErrorView::MissingPositionalArgument { name, position } => "Required argument ('"@
                + name + "') (pos "@ + decimal(position) + ") not found"@,
            ArgErrorView::UnexpectedKeywordArgument { name } => "'"@ + name
                + "' is an invalid keyword argument for this function"@,
        }
    }
}

impl ArgError {
    /// The text reported to the embedding runtime for this error.
    pub fn message(&self) -> (r: String)
        ensures
            r@ == self@.message(),
    {
        match self {
            ArgError::TooManyArguments { fname, max, given } => {
                let mut s = match fname {
                    Some(f) => f.clone().concat("()"),
                    None => String::from_str("function"),
                };
                s.append(" takes at most ");
                push_decimal(&mut s, *max as u128);
                s.append(" argument");
                if *max != 1 {
                    s.append("s");
                } else {
                    s.append("");
                }
                s.append(" (");
                push_decimal(&mut s, *given);
                s.append(" given)");
                s
            },
            ArgError::DuplicateBinding { name, position } => {
                let mut s = String::from_str("Argument given by name ('");
                s.append(name.as_str());
                s.append("') and position (");
                push_decimal(&mut s, *position as u128);
                s.append(")");
                s
            },
            ArgError::MissingKeywordOnlyArgument { name } => {
                let mut s = String::from_str("Required argument ('");
                s.append(name.as_str());
                s.append("') is keyword only argument");
                s
            },
            ArgError::MissingPositionalArgument { name, position } => {
                let mut s = String::from_str("Required argument ('");
                s.append(name.as_str());
                s.append("') (pos ");
                push_decimal(&mut s, *position as u128);
                s.append(") not found");
                s
            },
            ArgError::UnexpectedKeywordArgument { name } => {
                let mut s = String::from_str("'");
                s.append(name.as_str());
                s.append("' is an invalid keyword argument for this function");
                s
            },
        }
    }
}

} // verus!
