use vstd::prelude::*;

use crate::error::{ComponentViolation, InvalidS3PathComponent};

verus! {

/// A character that may appear in a path component: an ASCII letter, an
/// ASCII digit, `-`, `_` or `.`.
pub open spec fn is_allowed_char(c: char) -> bool {
    ||| 'a' <= c && c <= 'z'
    ||| 'A' <= c && c <= 'Z'
    ||| '0' <= c && c <= '9'
    ||| c == '-'
    ||| c == '_'
    ||| c == '.'
}

/// A component that is exactly `.` or exactly `..`: it could traverse out of
/// a directory when the path is reinterpreted as a filesystem path.
pub open spec fn is_traversal(s: Seq<char>) -> bool {
    ||| s.len() == 1 && s[0] == '.'
    ||| s.len() == 2 && s[0] == '.' && s[1] == '.'
}

/// A component may enter a path iff it is non-empty, made of allowed
/// characters only, and not a traversal component.
pub open spec fn valid_segment(s: Seq<char>) -> bool {
    &&& s.len() > 0
    &&& forall|i: int| 0 <= i < s.len() ==> is_allowed_char(#[trigger] s[i])
    &&& !is_traversal(s)
}

/// Relates a candidate component to the error the validator reports for it:
/// the error carries the component itself, and its reason fits the component.
/// An `IllegalCharacter` reason carries the first disallowed character.
pub open spec fn reports(s: Seq<char>, e: InvalidS3PathComponent) -> bool {
    &&& e.component@ == s
    &&& match e.reason {
        ComponentViolation::EmptyComponent => s.len() == 0,
        ComponentViolation::IllegalCharacter(c) => {
            exists|i: int|
                {
                    &&& 0 <= i < s.len()
                    &&& s[i] == c
                    &&& !is_allowed_char(c)
                    &&& forall|j: int| 0 <= j < i ==> is_allowed_char(#[trigger] s[j])
                }
        },
        ComponentViolation::TraversalComponent => is_traversal(s),
    }
}

/// An illegal character dominates: a component holding any disallowed
/// character is always reported as `IllegalCharacter` carrying one of its
/// own disallowed characters, never as empty or as traversal.
pub proof fn lemma_illegal_character_dominates(s: Seq<char>, e: InvalidS3PathComponent)
    requires
        exists|i: int| 0 <= i < s.len() && !is_allowed_char(#[trigger] s[i]),
        reports(s, e),
    ensures
        e.reason matches ComponentViolation::IllegalCharacter(c) && !is_allowed_char(c)
            && s.contains(c),
{
    match e.reason {
        ComponentViolation::EmptyComponent => {
            assert(false);
        },
        ComponentViolation::IllegalCharacter(c) => {
            assert(s.contains(c)) by {
                let i = choose|i: int|
                    {
                        &&& 0 <= i < s.len()
                        &&& s[i] == c
                        &&& !is_allowed_char(c)
                        &&& forall|j: int| 0 <= j < i ==> is_allowed_char(#[trigger] s[j])
                    };
                assert(s[i] == c);
            }
        },
        ComponentViolation::TraversalComponent => {
            assert(is_traversal(s));
            assert(forall|i: int| 0 <= i < s.len() ==> is_allowed_char(#[trigger] s[i]));
            assert(false);
        },
    }
}

/// Decides whether `c` may appear in a path component.
pub fn is_allowed_character(c: char) -> (r: bool)
    ensures
        r == is_allowed_char(c),
{
    ('a' <= c && c <= 'z') || ('A' <= c && c <= 'Z') || ('0' <= c && c <= '9') || c == '-' || c
        == '_' || c == '.'
}

/// Validates one candidate path component.
///
/// Accepts exactly the non-empty components made of ASCII letters, ASCII
/// digits, `-`, `_` and `.` that are not `.` or `..`. On rejection the error
/// names the component and the first rule it broke: emptiness first, then
/// the first disallowed character, then traversal.
pub fn validate_component(component: &str) -> (r: Result<(), InvalidS3PathComponent>)
    ensures
        r is Ok <==> valid_segment(component@),
        r matches Err(e) ==> reports(component@, e),
{
    let n = component.unicode_len();
    if n == 0 {
        return Err(
            InvalidS3PathComponent {
                component: component.to_owned(),
                reason: ComponentViolation::EmptyComponent,
            },
        );
    }
    let mut i: usize = 0;
    while i < n
        invariant
            n == component@.len(),
            i <= n,
            forall|j: int| 0 <= j < i ==> is_allowed_char(#[trigger] component@[j]),
        decreases n - i,
    {
        let c = component.get_char(i);
        if !is_allowed_character(c) {
            return Err(
                InvalidS3PathComponent {
                    component: component.to_owned(),
                    reason: ComponentViolation::IllegalCharacter(c),
                },
            );
        }
        i = i + 1;
    }
    if (n == 1 && component.get_char(0) == '.') || (n == 2 && component.get_char(0) == '.'
        && component.get_char(1) == '.') {
        return Err(
            InvalidS3PathComponent {
                component: component.to_owned(),
                reason: ComponentViolation::TraversalComponent,
            },
        );
    }
    Ok(())
}

} // verus!
