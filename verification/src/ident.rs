use vstd::prelude::*;
use vstd::string::StringSliceAdditionalSpecFns;

use crate::errors::AppError;
use crate::text::{contains_sub, find_non_space, has_sub, idx_non_space, lemma_idx_non_space_bounds};

verus! {

/// A lowercase hexadecimal digit or a hyphen.
pub open spec fn is_hyphenated_hex_char(c: char) -> bool {
    ('0' <= c && c <= '9') || ('a' <= c && c <= 'f') || c == '-'
}

/// Relies on uuid's `Uuid::new_v4` and its `Display` impl: the
/// hyphenated form is 36 characters of lowercase hexadecimal digits
/// and hyphens (`xxxxxxxx-xxxx-4xxx-yxxx-xxxxxxxxxxxx`).
#[verifier::external_body]
fn uuid_v4_hyphenated() -> (r: String)
    ensures
        r@.len() == 36,
        forall|i: int| 0 <= i < 36 ==> is_hyphenated_hex_char(#[trigger] r@[i]),
{
    uuid::Uuid::new_v4().to_string()
}

/// A fresh session or export-task identifier: a version-4 UUID in
/// hyphenated form.
pub fn fresh_id() -> (r: String)
    ensures
        r@.len() == 36,
        forall|i: int| 0 <= i < 36 ==> is_hyphenated_hex_char(#[trigger] r@[i]),
{
    uuid_v4_hyphenated()
}

/// An identifier is acceptable as a path component when it is not
/// whitespace-only and holds no path separator or parent-directory
/// sequence.
pub open spec fn id_acceptable(b: Seq<u8>) -> bool {
    &&& idx_non_space(b) < b.len()
    &&& !contains_sub(b, seq![47u8])  // '/'
    &&& !contains_sub(b, seq![92u8])  // '\\'
    &&& !contains_sub(b, seq![46u8, 46u8])  // ".."
}

/// Reject a project identifier that is empty after trimming or that
/// holds a path separator or a parent-directory sequence, before it
/// is ever used as a filesystem path component.
pub fn ensure_valid_project_id(project_id: &str) -> (r: Result<(), AppError>)
    ensures
        r is Ok <==> id_acceptable(project_id.spec_bytes()),
        r matches Err(e) ==> e.code@ == "INVALID_PROJECT_ID"@,
{
    let b = project_id.as_bytes();
    let n = b.len();
    let slash: Vec<u8> = vec![47u8];
    let back: Vec<u8> = vec![92u8];
    let dots: Vec<u8> = vec![46u8, 46u8];
    proof {
        assert(slash@ =~= seq![47u8]);
        assert(back@ =~= seq![92u8]);
        assert(dots@ =~= seq![46u8, 46u8]);
        lemma_idx_non_space_bounds(b@);
        assert(b@.subrange(0, n as int) =~= b@);
    }
    let ns = find_non_space(b, 0, n);
    if ns == n || has_sub(b, slash.as_slice()) || has_sub(b, back.as_slice()) || has_sub(
        b,
        dots.as_slice(),
    ) {
        Err(
            AppError::new(
                "INVALID_PROJECT_ID",
                "invalid project id",
                Some("use a project id issued by the system".to_owned()),
            ),
        )
    } else {
        Ok(())
    }
}

} // verus!
