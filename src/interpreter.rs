//! Structured inputs that a command may request from the user.

use vstd::prelude::*;

verus! {

/// A character that separates the arguments of a command line.
pub open spec fn is_separator(c: char) -> bool {
    c == ' ' || c == '\t' || c == '\n' || c == '\r'
}

/// A character that ends a line.
pub open spec fn is_line_break(c: char) -> bool {
    c == '\n' || c == '\r'
}

/// This library's own rule for a pitch field (the engine defines none for the form): the value
/// is handed to the engine verbatim, which parses it, so the field only asks that it is present
/// and fits on one command line.
pub open spec fn valid_pitch(s: Seq<char>) -> bool {
    s.len() > 0 && forall|i: int| 0 <= i < s.len() ==> !is_line_break(#[trigger] s[i])
}

/// This library's own rule for an instance-name field (the engine defines none for the form): a
/// name is a single argument of a command line, so it is non-empty and free of separators.
pub open spec fn valid_instance_name(s: Seq<char>) -> bool {
    s.len() > 0 && forall|i: int| 0 <= i < s.len() ==> !is_separator(#[trigger] s[i])
}

/// What kind of value an input holds, which decides how it is validated.
#[derive(Debug, Clone, Copy, PartialEq, Eq, Structural)]
pub enum InputKind {
    /// Pitch value as per athenaCL (set, sieve, MIDI note number, etc.).
    Pitch,
    /// Name of a path or texture instance.
    InstanceName,
}

/// Inputs represent positional arguments of a command: they are sent in the order of the
/// command's arguments.
#[derive(Debug)]
pub struct Input {
    /// The name is shown as the label of the input.
    name: String,
    kind: InputKind,
}

impl Input {
    pub open spec fn valid_value(kind: InputKind, s: Seq<char>) -> bool {
        match kind {
            InputKind::Pitch => valid_pitch(s),
            InputKind::InstanceName => valid_instance_name(s),
        }
    }

    pub closed spec fn spec_kind(&self) -> InputKind {
        self.kind
    }

    pub closed spec fn spec_name(&self) -> Seq<char> {
        self.name@
    }

    pub fn new(name: String, kind: InputKind) -> (r: Input)
        ensures
            r.spec_name() == name@,
            r.spec_kind() == kind,
    {
        Input { name, kind }
    }

    pub fn name(&self) -> (r: &str)
        ensures
            r@ == self.spec_name(),
    {
        self.name.as_str()
    }

    pub fn kind(&self) -> (r: InputKind)
        ensures
            r == self.spec_kind(),
    {
        self.kind
    }

    /// Checks the input for validity.
    pub fn is_valid(&self, value: &str) -> (r: bool)
        ensures
            r == Self::valid_value(self.spec_kind(), value@),
    {
        match self.kind {
            InputKind::Pitch => Self::validate_pitch(value),
            InputKind::InstanceName => Self::validate_instance_name(value),
        }
    }

    pub fn validate_pitch(value: &str) -> (r: bool)
        ensures
            r == valid_pitch(value@),
    {
        let n = value.unicode_len();
        if n == 0 {
            return false;
        }
        let mut i: usize = 0;
        while i < n
            invariant
                n == value@.len(),
                i <= n,
                forall|j: int| 0 <= j < i ==> !is_line_break(#[trigger] value@[j]),
            decreases n - i,
        {
            let c = value.get_char(i);
            if c == '\n' || c == '\r' {
                return false;
            }
            i += 1;
        }
        true
    }

    pub fn validate_instance_name(value: &str) -> (r: bool)
        ensures
            r == valid_instance_name(value@),
    {
        let n = value.unicode_len();
        if n == 0 {
            return false;
        }
        let mut i: usize = 0;
        while i < n
            invariant
                n == value@.len(),
                i <= n,
                forall|j: int| 0 <= j < i ==> !is_separator(#[trigger] value@[j]),
            decreases n - i,
        {
            let c = value.get_char(i);
            if c == ' ' || c == '\t' || c == '\n' || c == '\r' {
                return false;
            }
            i += 1;
        }
        true
    }
}

} // verus!
