//! The naming convention that tells a container from a plain file: a
//! container's name ends in the marker.
//!
//! This looks at the name only, never at the content. A plain file that was
//! given the marker is taken for a container, and fails to open.

use vstd::prelude::*;
use vstd::string::{StrSliceExecFns, StringExecFns};

verus! {

/// The marker that the name of a container ends in.
pub open spec fn marker() -> Seq<char> {
    ".encrypted"@
}

/// The name ends in the marker.
pub open spec fn has_marker(name: Seq<char>) -> bool {
    &&& name.len() >= marker().len()
    &&& name.subrange(name.len() - marker().len(), name.len() as int) == marker()
}

/// The name without its last `marker().len()` characters.
pub open spec fn without_marker(name: Seq<char>) -> Seq<char> {
    name.subrange(0, name.len() - marker().len())
}

/// Whether a file of this name is taken for a container.
pub fn is_encrypted_name(name: &str) -> (encrypted: bool)
    ensures
        encrypted == has_marker(name@),
{
    proof {
        reveal_strlit(".encrypted");
    }
    let marker: &str = ".encrypted";
    let n: usize = name.unicode_len();
    let m: usize = marker.unicode_len();
    if n < m {
        return false;
    }
    let tail = name.substring_char(n - m, n);
    tail.to_owned() == marker.to_owned()
}

/// The name of the container of a file: the file's name and the marker.
pub fn encrypted_name(name: &str) -> (out: String)
    ensures
        out@ == name@ + marker(),
{
    name.to_owned().concat(".encrypted")
}

/// The name of the file that a container opens to: the container's name
/// without the marker. `None` for a name that does not end in the marker.
pub fn decrypted_name(name: &str) -> (out: Option<String>)
    ensures
        match out {
            Some(plain) => has_marker(name@) && plain@ == without_marker(name@),
            None => !has_marker(name@),
        },
{
    proof {
        reveal_strlit(".encrypted");
    }
    if is_encrypted_name(name) {
        let n: usize = name.unicode_len();
        let m: usize = ".encrypted".unicode_len();
        Some(name.substring_char(0, n - m).to_owned())
    } else {
        None
    }
}

/// A name with the marker added ends in the marker, and loses it again to
/// give the name back.
pub proof fn lemma_marker_round_trip(name: Seq<char>)
    ensures
        has_marker(name + marker()),
        without_marker(name + marker()) == name,
{
    let long = name + marker();
    assert(long.subrange(long.len() - marker().len(), long.len() as int) =~= marker());
    assert(long.subrange(0, long.len() - marker().len()) =~= name);
}

} // verus!
