//! Unicode character classes used by the password rule. The full class
//! tables live in the standard library; each class gets a name here, with
//! the ASCII rows pinned down exactly.

use vstd::prelude::*;

verus! {

/// Whether `c` has the Unicode `Uppercase` property.
pub uninterp spec fn char_uppercase(c: char) -> bool;

/// Whether `c` has the Unicode `Lowercase` property.
pub uninterp spec fn char_lowercase(c: char) -> bool;

/// Whether `c` is Unicode alphabetic or numeric.
pub uninterp spec fn char_alphanumeric(c: char) -> bool;

/// Relies on char::is_uppercase: the Unicode `Uppercase` class, which on
/// ASCII is exactly `A`-`Z`.
pub assume_specification[ char::is_uppercase ](c: char) -> (r: bool)
    ensures
        r == char_uppercase(c),
        c as u32 <= 127 ==> (r <==> 65 <= c as u32 <= 90),
;

/// Relies on char::is_lowercase: the Unicode `Lowercase` class, which on
/// ASCII is exactly `a`-`z`.
pub assume_specification[ char::is_lowercase ](c: char) -> (r: bool)
    ensures
        r == char_lowercase(c),
        c as u32 <= 127 ==> (r <==> 97 <= c as u32 <= 122),
;

/// Relies on char::is_alphanumeric: Unicode alphabetic or numeric, which on
/// ASCII is exactly the letters and the decimal digits.
pub assume_specification[ char::is_alphanumeric ](c: char) -> (r: bool)
    ensures
        r == char_alphanumeric(c),
        c as u32 <= 127 ==> (r <==> (48 <= c as u32 <= 57 || 65 <= c as u32 <= 90 || 97 <= c
            as u32 <= 122)),
;

} // verus!
