//! Names as the registry keeps them: folded to lower case.

use vstd::prelude::*;

verus! {

/// `text` folded to lower case, as `str::to_lowercase` folds it.
pub uninterp spec fn lowercase(text: Seq<char>) -> Seq<char>;

/// `str::to_lowercase`: the lower-case form of a string, which depends on
/// the characters of the string alone.
pub assume_specification[ str::to_lowercase ](text: &str) -> (folded: String)
    ensures
        folded@ == lowercase(text@),
;

} // verus!
