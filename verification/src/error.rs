use vstd::prelude::*;

verus! {

/// The rule a rejected path component broke.
#[derive(Debug, Clone, Copy, PartialEq, Eq, Structural)]
pub enum ComponentViolation {
    /// The component has zero characters.
    EmptyComponent,
    /// The component holds a character outside ASCII letters, ASCII digits,
    /// `-`, `_` and `.`; carries the first such character.
    IllegalCharacter(char),
    /// The component is exactly `.` or exactly `..`.
    TraversalComponent,
}

/// Error returned whenever a candidate path component fails validation.
///
/// It names the full offending component and the rule it broke, so the
/// caller can surface an exact diagnostic.
#[derive(Debug)]
pub struct InvalidS3PathComponent {
    /// The full offending component, as it was handed in.
    pub component: String,
    /// The rule the component broke.
    pub reason: ComponentViolation,
}

/// The diagnostic text for one violation, as a sequence of characters.
pub open spec fn reason_text(v: ComponentViolation) -> Seq<char> {
    match v {
        ComponentViolation::EmptyComponent => "Empty component is not allowed"@,
        ComponentViolation::IllegalCharacter(c) => "Character '"@ + seq![c]
            + "' is not allowed"@,
        ComponentViolation::TraversalComponent =>
            "Potentially path traversing components are forbidden."@,
    }
}

/// The full diagnostic text for an error: it names the exact offending
/// component and the reason it was rejected.
pub open spec fn message_text(e: InvalidS3PathComponent) -> Seq<char> {
    "Invalid S3 path component '"@ + e.component@ + "': "@ + reason_text(e.reason)
}

/// Relies on `String::push`: appends the given character to the string.
#[verifier::external_body]
fn push_char(s: &mut String, c: char)
    ensures
        final(s)@ == old(s)@ + seq![c],
{
    s.push(c);
}

impl InvalidS3PathComponent {
    /// Renders the human-readable diagnostic for this error.
    pub fn message(&self) -> (r: String)
        ensures
            r@ == message_text(*self),
    {
        let mut r = String::from_str("Invalid S3 path component '");
        r.append(self.component.as_str());
        r.append("': ");
        match self.reason {
            ComponentViolation::EmptyComponent => {
                r.append("Empty component is not allowed");
            },
            ComponentViolation::IllegalCharacter(c) => {
                r.append("Character '");
                push_char(&mut r, c);
                r.append("' is not allowed");
            },
            ComponentViolation::TraversalComponent => {
                r.append("Potentially path traversing components are forbidden.");
            },
        }
        proof {
            assert(r@ =~= message_text(*self));
        }
        r
    }
}

} // verus!
