//! Rules of the embedding store and semantic search that involve no vector
//! arithmetic: model names, the stored width, and how many neighbours a
//! search asks for.
use vstd::prelude::*;
use vstd::string::*;
use crate::text::owned;
use crate::catalog::clamp_spec;

verus! {

/// Fixed embedding width; narrower embeddings are zero-padded to it.
pub const VECTOR_DIM: usize = 2050;

/// Bytes allowed in a model name: ASCII letters, digits, `.`, `_`, `:`, `/`, `-`.
pub open spec fn is_model_byte(b: u8) -> bool {
    (48 <= b && b <= 57) || (65 <= b && b <= 90) || (97 <= b && b <= 122) || b == 46 || b == 95
        || b == 58 || b == 47 || b == 45
}

/// A valid model name: 1 to 120 bytes, each an allowed byte.
pub open spec fn valid_model_spec(bytes: Seq<u8>) -> bool {
    &&& bytes.len() > 0
    &&& bytes.len() <= 120
    &&& forall|i: int| 0 <= i < bytes.len() ==> is_model_byte(#[trigger] bytes[i])
}

/// Whether `model` is a valid embedding model name.
pub fn valid_model(model: &str) -> (r: bool)
    ensures
        r == valid_model_spec(model.spec_bytes()),
{
    let bytes = model.as_bytes();
    if bytes.len() == 0 || bytes.len() > 120 {
        return false;
    }
    let mut i: usize = 0;
    while i < bytes.len()
        invariant
            i <= bytes@.len(),
            bytes@ == model.spec_bytes(),
            forall|j: int| 0 <= j < i ==> is_model_byte(#[trigger] bytes@[j]),
        decreases bytes.len() - i,
    {
        let b = bytes[i];
        if !((48 <= b && b <= 57) || (65 <= b && b <= 90) || (97 <= b && b <= 122) || b == 46 || b == 95
            || b == 58 || b == 47 || b == 45) {
            return false;
        }
        i = i + 1;
    }
    true
}

/// Refuse an invalid model name with the text the embedding calls fail with.
pub fn check_model(model: &str) -> (r: Result<(), String>)
    ensures
        r is Ok <==> valid_model_spec(model.spec_bytes()),
        r matches Err(e) ==> e@ == "invalid embedding model name `"@ + model@ + "`"@,
{
    if valid_model(model) {
        Ok(())
    } else {
        let mut m = owned("invalid embedding model name `");
        m.append(model);
        m.append("`");
        Err(m)
    }
}

/// How many neighbours one search returns at most: between 1 and 100.
pub fn neighbor_limit(limit: u64) -> (r: u64)
    ensures
        r == clamp_spec(limit, 1, 100),
{
    if limit < 1 { 1 } else if limit > 100 { 100 } else { limit }
}

/// The page size of a semantic search (the requested limit clamped to
/// `[1, 100]`) and how many neighbours to fetch for it: with a tag filter,
/// four times as many (at most 100), so post-filtering can still fill a page.
pub fn semantic_fetch(requested: u64, filtering: bool) -> (r: (u64, u64))
    ensures
        r.0 == clamp_spec(requested, 1, 100),
        r.1 == (if !filtering { r.0 as int } else if r.0 * 4 <= 100 { r.0 * 4 } else { 100 }),
{
    let raw = neighbor_limit(requested);
    let fetch = if !filtering {
        raw
    } else if raw * 4 <= 100 {
        raw * 4
    } else {
        100
    };
    (raw, fetch)
}

} // verus!
