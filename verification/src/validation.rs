//! Field-level validators. Each one accepts exactly the language of the
//! wire format it names, and yields one machine-readable error code on
//! violation.

use vstd::prelude::*;
use vstd::string::StringSliceAdditionalSpecFns;

use crate::chars::{char_alphanumeric, char_lowercase, char_uppercase};
use crate::strutil::{dec_digits, eq_ignore_case, push_u64_dec, str_eq};
use crate::errors::{AppError, ValidationError};

verus! {

pub const MIN_PASSWORD_LENGTH: usize = 8;

pub const MAX_PASSWORD_LENGTH: usize = 72;

pub const MAX_EMAIL_LENGTH: usize = 254;

/// ASCII decimal digit.
pub open spec fn is_digit_c(c: char) -> bool {
    48 <= c as u32 <= 57
}

/// ASCII hex digit, either case.
pub open spec fn is_hex_c(c: char) -> bool {
    is_digit_c(c) || 97 <= c as u32 <= 102 || 65 <= c as u32 <= 70
}

/// ASCII letter or decimal digit.
pub open spec fn is_alnum_c(c: char) -> bool {
    is_digit_c(c) || 65 <= c as u32 <= 90 || 97 <= c as u32 <= 122
}

pub open spec fn all_digits(s: Seq<char>) -> bool {
    forall|i: int| 0 <= i < s.len() ==> is_digit_c(s[i])
}

pub open spec fn has_uppercase(s: Seq<char>) -> bool {
    exists|i: int| 0 <= i < s.len() && char_uppercase(s[i])
}

pub open spec fn has_lowercase(s: Seq<char>) -> bool {
    exists|i: int| 0 <= i < s.len() && char_lowercase(s[i])
}

pub open spec fn has_digit(s: Seq<char>) -> bool {
    exists|i: int| 0 <= i < s.len() && is_digit_c(s[i])
}

pub open spec fn has_special(s: Seq<char>) -> bool {
    exists|i: int| 0 <= i < s.len() && !char_alphanumeric(s[i])
}

/// The error owed to a password: length in bytes must lie in
/// [`MIN_PASSWORD_LENGTH`, `MAX_PASSWORD_LENGTH`], and the password must
/// contain an uppercase letter, a lowercase letter, a digit and a
/// non-alphanumeric character. Each violation class has its own code; the
/// first violated class in this order wins.
pub open spec fn password_error(s: Seq<char>) -> Option<Seq<char>> {
    if vstd::utf8::encode_utf8(s).len() < MIN_PASSWORD_LENGTH {
        Some("password_too_short"@)
    } else if vstd::utf8::encode_utf8(s).len() > MAX_PASSWORD_LENGTH {
        Some("password_too_long"@)
    } else if !(has_uppercase(s) && has_lowercase(s) && has_digit(s) && has_special(s)) {
        Some("password_requirements_not_met"@)
    } else {
        None
    }
}

/// Checks the password rule and returns the code of the first violated
/// class, if any.
pub fn validate_password(password: &str) -> (r: Result<(), &'static str>)
    ensures
        match password_error(password@) {
            None => r is Ok,
            Some(c) => r matches Err(e) && e@ == c,
        },
{
    let blen = password.as_bytes().len();
    assert(blen == vstd::utf8::encode_utf8(password@).len());
    if blen < MIN_PASSWORD_LENGTH {
        return Err("password_too_short");
    }
    if blen > MAX_PASSWORD_LENGTH {
        return Err("password_too_long");
    }
    let n = password.unicode_len();
    let mut has_upper = false;
    let mut has_lower = false;
    let mut has_dig = false;
    let mut has_spec = false;
    let mut i: usize = 0;
    while i < n
        invariant
            n == password@.len(),
            i <= n,
            has_upper == has_uppercase(password@.take(i as int)),
            has_lower == has_lowercase(password@.take(i as int)),
            has_dig == has_digit(password@.take(i as int)),
            has_spec == has_special(password@.take(i as int)),
        decreases n - i,
    {
        let c = password.get_char(i);
        let u = c as u32;
        proof {
            assert(password@.take(i + 1).drop_last() =~= password@.take(i as int));
            assert(password@.take(i + 1).last() == password@[i as int]);
        }
        let cu = c.is_uppercase();
        let cl = c.is_lowercase();
        let ca = c.is_alphanumeric();
        has_upper = has_upper || cu;
        has_lower = has_lower || cl;
        has_dig = has_dig || (48 <= u && u <= 57);
        has_spec = has_spec || !ca;
        proof {
            lemma_scan_step(password@, i as int);
        }
        i = i + 1;
    }
    proof {
        assert(password@.take(n as int) =~= password@);
    }
    if !has_upper || !has_lower || !has_dig || !has_spec {
        return Err("password_requirements_not_met");
    }
    Ok(())
}

proof fn lemma_scan_step(s: Seq<char>, i: int)
    requires
        0 <= i < s.len(),
    ensures
        has_uppercase(s.take(i + 1)) == (has_uppercase(s.take(i)) || char_uppercase(s[i])),
        has_lowercase(s.take(i + 1)) == (has_lowercase(s.take(i)) || char_lowercase(s[i])),
        has_digit(s.take(i + 1)) == (has_digit(s.take(i)) || is_digit_c(s[i])),
        has_special(s.take(i + 1)) == (has_special(s.take(i)) || !char_alphanumeric(s[i])),
{
    let a = s.take(i);
    let b = s.take(i + 1);
    assert(forall|j: int| 0 <= j < a.len() ==> a[j] == b[j]);
    assert(b[i] == s[i]);
    if has_uppercase(b) {
        let j = choose|j: int| 0 <= j < b.len() && char_uppercase(b[j]);
        if j < i {
            assert(char_uppercase(a[j]));
        }
    }
    if has_lowercase(b) {
        let j = choose|j: int| 0 <= j < b.len() && char_lowercase(b[j]);
        if j < i {
            assert(char_lowercase(a[j]));
        }
    }
    if has_digit(b) {
        let j = choose|j: int| 0 <= j < b.len() && is_digit_c(b[j]);
        if j < i {
            assert(is_digit_c(a[j]));
        }
    }
    if has_special(b) {
        let j = choose|j: int| 0 <= j < b.len() && !char_alphanumeric(b[j]);
        if j < i {
            assert(!char_alphanumeric(a[j]));
        }
    }
    if has_uppercase(a) {
        let j = choose|j: int| 0 <= j < a.len() && char_uppercase(a[j]);
        assert(char_uppercase(b[j]));
    }
    if has_lowercase(a) {
        let j = choose|j: int| 0 <= j < a.len() && char_lowercase(a[j]);
        assert(char_lowercase(b[j]));
    }
    if has_digit(a) {
        let j = choose|j: int| 0 <= j < a.len() && is_digit_c(a[j]);
        assert(is_digit_c(b[j]));
    }
    if has_special(a) {
        let j = choose|j: int| 0 <= j < a.len() && !char_alphanumeric(a[j]);
        assert(!char_alphanumeric(b[j]));
    }
}

/// The phone language: an optional `+`, a leading digit `1`-`9`, then one
/// to fourteen further digits.
pub open spec fn phone_ok(s: Seq<char>) -> bool {
    let t = if s.len() > 0 && s[0] == '+' {
        s.skip(1)
    } else {
        s
    };
    &&& 2 <= t.len() <= 15
    &&& 49 <= t[0] as u32 <= 57
    &&& all_digits(t.skip(1))
}

/// Checks the phone-number shape.
pub fn validate_phone_number(phone: &str) -> (r: Result<(), &'static str>)
    ensures
        r is Ok <==> phone_ok(phone@),
        r matches Err(e) ==> e@ == "invalid_phone_number"@,
{
    let n = phone.unicode_len();
    let start: usize = if n > 0 && phone.get_char(0) == '+' {
        1
    } else {
        0
    };
    let ghost t = if phone@.len() > 0 && phone@[0] == '+' {
        phone@.skip(1)
    } else {
        phone@
    };
    assert(t =~= phone@.skip(start as int));
    if n - start < 2 || n - start > 15 {
        return Err("invalid_phone_number");
    }
    let c0 = phone.get_char(start) as u32;
    if !(49 <= c0 && c0 <= 57) {
        return Err("invalid_phone_number");
    }
    let mut i: usize = start + 1;
    while i < n
        invariant
            n == phone@.len(),
            start + 1 <= i <= n,
            start <= 1,
            t == phone@.skip(start as int),
            t == (if phone@.len() > 0 && phone@[0] == '+' {
                phone@.skip(1)
            } else {
                phone@
            }),
            forall|j: int| start + 1 <= j < i ==> is_digit_c(phone@[j]),
        decreases n - i,
    {
        let u = phone.get_char(i) as u32;
        if !(48 <= u && u <= 57) {
            proof {
                assert(t.skip(1) =~= phone@.skip(start as int + 1));
                assert(t.skip(1)[i - start - 1] == phone@[i as int]);
            }
            return Err("invalid_phone_number");
        }
        i = i + 1;
    }
    proof {
        assert(t.skip(1) =~= phone@.skip(start as int + 1));
        assert forall|j: int| 0 <= j < t.skip(1).len() implies is_digit_c(t.skip(1)[j]) by {
            assert(t.skip(1)[j] == phone@[j + start + 1]);
        }
    }
    Ok(())
}

/// The date language: `YYYY-MM-DD`, digits in every numeric position.
pub open spec fn date_ok(s: Seq<char>) -> bool {
    &&& s.len() == 10
    &&& is_digit_c(s[0]) && is_digit_c(s[1]) && is_digit_c(s[2]) && is_digit_c(s[3])
    &&& s[4] == '-'
    &&& is_digit_c(s[5]) && is_digit_c(s[6])
    &&& s[7] == '-'
    &&& is_digit_c(s[8]) && is_digit_c(s[9])
}

/// Checks the `YYYY-MM-DD` date shape.
pub fn validate_date_format(date: &str) -> (r: Result<(), &'static str>)
    ensures
        r is Ok <==> date_ok(date@),
        r matches Err(e) ==> e@ == "invalid_date_format"@,
{
    let n = date.unicode_len();
    if n != 10 {
        return Err("invalid_date_format");
    }
    let mut i: usize = 0;
    while i < 10
        invariant
            n == date@.len(),
            n == 10,
            i <= 10,
            forall|j: int|
                0 <= j < i ==> (if j == 4 || j == 7 {
                    date@[j] == '-'
                } else {
                    is_digit_c(date@[j])
                }),
        decreases 10 - i,
    {
        let c = date.get_char(i);
        if i == 4 || i == 7 {
            if c != '-' {
                return Err("invalid_date_format");
            }
        } else {
            let u = c as u32;
            if !(48 <= u && u <= 57) {
                return Err("invalid_date_format");
            }
        }
        i = i + 1;
    }
    Ok(())
}

/// The hex-color language: `#` followed by exactly six or exactly three
/// hex digits.
pub open spec fn hex_color_ok(s: Seq<char>) -> bool {
    &&& (s.len() == 7 || s.len() == 4)
    &&& s[0] == '#'
    &&& forall|i: int| 1 <= i < s.len() ==> is_hex_c(s[i])
}

/// Checks the hex-color shape.
pub fn validate_hex_color(color: &str) -> (r: Result<(), &'static str>)
    ensures
        r is Ok <==> hex_color_ok(color@),
        r matches Err(e) ==> e@ == "invalid_hex_color"@,
{
    let n = color.unicode_len();
    if n != 7 && n != 4 {
        return Err("invalid_hex_color");
    }
    if color.get_char(0) != '#' {
        return Err("invalid_hex_color");
    }
    let mut i: usize = 1;
    while i < n
        invariant
            n == color@.len(),
            n == 7 || n == 4,
            1 <= i <= n,
            forall|j: int| 1 <= j < i ==> is_hex_c(color@[j]),
        decreases n - i,
    {
        let u = color.get_char(i) as u32;
        if !(48 <= u && u <= 57 || 97 <= u && u <= 102 || 65 <= u && u <= 70) {
            return Err("invalid_hex_color");
        }
        i = i + 1;
    }
    Ok(())
}

/// Lowercase ASCII letter or digit: the characters a slug group is made of.
pub open spec fn slug_char(c: char) -> bool {
    is_digit_c(c) || 97 <= c as u32 <= 122
}

/// The slug language: groups of lowercase letters and digits joined by
/// single hyphens. Equivalently: non-empty, every character a group
/// character or a hyphen, no hyphen at either end, and no two hyphens
/// adjacent.
pub open spec fn slug_ok(s: Seq<char>) -> bool {
    &&& s.len() >= 1
    &&& forall|i: int| 0 <= i < s.len() ==> (slug_char(s[i]) || s[i] == '-')
    &&& s[0] != '-'
    &&& s[s.len() - 1] != '-'
    &&& forall|i: int| 0 <= i < s.len() - 1 ==> !(#[trigger] s[i] == '-' && s[i + 1] == '-')
}

/// Checks the slug shape.
pub fn validate_slug(slug: &str) -> (r: Result<(), &'static str>)
    ensures
        r is Ok <==> slug_ok(slug@),
        r matches Err(e) ==> e@ == "invalid_slug"@,
{
    let n = slug.unicode_len();
    if n == 0 {
        return Err("invalid_slug");
    }
    if slug.get_char(0) == '-' || slug.get_char(n - 1) == '-' {
        return Err("invalid_slug");
    }
    let mut i: usize = 0;
    while i < n
        invariant
            n == slug@.len(),
            n >= 1,
            i <= n,
            forall|j: int| 0 <= j < i ==> (slug_char(slug@[j]) || slug@[j] == '-'),
            forall|j: int| 0 <= j < i - 1 ==> !(#[trigger] slug@[j] == '-' && slug@[j + 1] == '-'),
            slug@[0] != '-',
        decreases n - i,
    {
        let c = slug.get_char(i);
        let u = c as u32;
        let is_group = 48 <= u && u <= 57 || 97 <= u && u <= 122;
        if !is_group && c != '-' {
            return Err("invalid_slug");
        }
        if c == '-' && i > 0 && slug.get_char(i - 1) == '-' {
            return Err("invalid_slug");
        }
        i = i + 1;
    }
    Ok(())
}

/// Checks an upload size against the allowed maximum.
pub fn validate_file_size(size: u64, max_size: u64) -> (r: Result<(), &'static str>)
    ensures
        r is Ok <==> size <= max_size,
        r matches Err(e) ==> e@ == "file_too_large"@,
{
    if size > max_size {
        Err("file_too_large")
    } else {
        Ok(())
    }
}


/// A character the local part of an address may contain.
pub open spec fn local_char(c: char) -> bool {
    is_alnum_c(c) || c == '.' || c == '!' || c == '#' || c == '$' || c == '%' || c == '&'
        || c == '\'' || c == '*' || c == '+' || c == '/' || c == '=' || c == '?' || c == '^'
        || c == '_' || c == '`' || c == '{' || c == '|' || c == '}' || c == '~' || c == '-'
}

/// One domain label: one to sixty-three characters, alphanumeric at both
/// ends, alphanumeric or hyphen in between.
pub open spec fn valid_label(l: Seq<char>) -> bool {
    &&& 1 <= l.len() <= 63
    &&& is_alnum_c(l[0])
    &&& is_alnum_c(l[l.len() - 1])
    &&& forall|i: int| 0 <= i < l.len() ==> (is_alnum_c(l[i]) || l[i] == '-')
}

/// A domain: labels joined by dots. Since a label never contains a dot,
/// any split witnessing this is at the first dot.
pub open spec fn valid_domain(d: Seq<char>) -> bool
    decreases d.len(),
{
    ||| valid_label(d)
    ||| exists|k: int|
        0 <= k < d.len() && #[trigger] d[k] == '.' && valid_label(d.take(k)) && valid_domain(
            d.skip(k + 1),
        )
}

/// The address language: a non-empty local part of permitted characters,
/// one `@`, then a domain of labels.
pub open spec fn email_matches(s: Seq<char>) -> bool {
    exists|a: int|
        0 < a < s.len() && #[trigger] s[a] == '@' && (forall|i: int|
            0 <= i < a ==> local_char(s[i])) && valid_domain(s.skip(a + 1))
}

/// The error owed to an address: the byte length must not exceed
/// [`MAX_EMAIL_LENGTH`]; the address must match the language above; and,
/// as a redundant sanity check, it must contain both `@` and `.`.
pub open spec fn email_error(s: Seq<char>) -> Option<Seq<char>> {
    if vstd::utf8::encode_utf8(s).len() > MAX_EMAIL_LENGTH {
        Some("email_too_long"@)
    } else if !email_matches(s) {
        Some("invalid_email"@)
    } else if !(s.contains('@') && s.contains('.')) {
        Some("invalid_email"@)
    } else {
        None
    }
}

fn is_alnum_exec(c: char) -> (r: bool)
    ensures
        r == is_alnum_c(c),
{
    let u = c as u32;
    48 <= u && u <= 57 || 65 <= u && u <= 90 || 97 <= u && u <= 122
}

fn is_local_char_exec(c: char) -> (r: bool)
    ensures
        r == local_char(c),
{
    is_alnum_exec(c) || c == '.' || c == '!' || c == '#' || c == '$' || c == '%' || c == '&'
        || c == '\'' || c == '*' || c == '+' || c == '/' || c == '=' || c == '?' || c == '^'
        || c == '_' || c == '`' || c == '{' || c == '|' || c == '}' || c == '~' || c == '-'
}

/// A domain without any dot is exactly one label.
proof fn lemma_domain_no_dot(d: Seq<char>)
    requires
        forall|j: int| 0 <= j < d.len() ==> d[j] != '.',
    ensures
        valid_domain(d) == valid_label(d),
{
}

/// Splitting a domain at its first dot is the only split that can witness
/// validity: a label never contains a dot.
proof fn lemma_domain_first_dot(d: Seq<char>, k: int)
    requires
        0 <= k < d.len(),
        d[k] == '.',
        forall|j: int| 0 <= j < k ==> d[j] != '.',
    ensures
        valid_domain(d) == (valid_label(d.take(k)) && valid_domain(d.skip(k + 1))),
{
    if valid_domain(d) {
        if valid_label(d) {
            assert(is_alnum_c(d[k]) || d[k] == '-');
            assert(false);
        } else {
            let kw = choose|kw: int|
                0 <= kw < d.len() && #[trigger] d[kw] == '.' && valid_label(d.take(kw))
                    && valid_domain(d.skip(kw + 1));
            if kw < k {
                assert(false);
            } else if kw > k {
                assert(d.take(kw)[k] == '.');
                assert(is_alnum_c(d.take(kw)[k]) || d.take(kw)[k] == '-');
                assert(false);
            }
        }
    }
    if valid_label(d.take(k)) && valid_domain(d.skip(k + 1)) {
        assert(0 <= k < d.len() && d[k] == '.' && valid_label(d.take(k)) && valid_domain(
            d.skip(k + 1),
        ));
    }
}

fn check_label(s: &str, from: usize, to: usize) -> (r: bool)
    requires
        from <= to <= s@.len(),
    ensures
        r == valid_label(s@.subrange(from as int, to as int)),
{
    let ghost l = s@.subrange(from as int, to as int);
    let len = to - from;
    if len < 1 || len > 63 {
        return false;
    }
    if !is_alnum_exec(s.get_char(from)) {
        assert(l[0] == s@[from as int]);
        return false;
    }
    if !is_alnum_exec(s.get_char(to - 1)) {
        assert(l[l.len() - 1] == s@[to - 1]);
        return false;
    }
    let mut i = from;
    while i < to
        invariant
            from <= i <= to <= s@.len(),
            l == s@.subrange(from as int, to as int),
            forall|j: int| from <= j < i ==> is_alnum_c(s@[j]) || s@[j] == '-',
        decreases to - i,
    {
        let c = s.get_char(i);
        if !is_alnum_exec(c) && c != '-' {
            assert(l[i - from] == s@[i as int]);
            return false;
        }
        i = i + 1;
    }
    assert forall|j: int| 0 <= j < l.len() implies is_alnum_c(l[j]) || l[j] == '-' by {
        assert(l[j] == s@[from + j]);
    }
    assert(l[0] == s@[from as int]);
    assert(l[l.len() - 1] == s@[to - 1]);
    true
}

fn check_domain(s: &str, from: usize) -> (r: bool)
    requires
        from <= s@.len(),
    ensures
        r == valid_domain(s@.skip(from as int)),
    decreases s@.len() - from,
{
    let ghost d = s@.skip(from as int);
    let n = s.unicode_len();
    let mut i = from;
    while i < n && s.get_char(i) != '.'
        invariant
            from <= i <= n,
            n == s@.len(),
            forall|j: int| from <= j < i ==> s@[j] != '.',
        decreases n - i,
    {
        i = i + 1;
    }
    proof {
        assert forall|j: int| 0 <= j < d.len() && j < i - from implies d[j] != '.' by {
            assert(d[j] == s@[from + j]);
        }
    }
    if i == n {
        proof {
            assert forall|j: int| 0 <= j < d.len() implies d[j] != '.' by {
                assert(d[j] == s@[from + j]);
            }
            lemma_domain_no_dot(d);
            assert(d =~= s@.subrange(from as int, n as int));
        }
        check_label(s, from, n)
    } else {
        proof {
            assert(d[i - from] == s@[i as int]);
            lemma_domain_first_dot(d, i - from);
            assert(d.take(i - from) =~= s@.subrange(from as int, i as int));
            assert(d.skip(i - from + 1) =~= s@.skip(i + 1));
        }
        if !check_label(s, from, i) {
            return false;
        }
        check_domain(s, i + 1)
    }
}

/// Checks the address shape, including the redundant `@` and `.` presence
/// checks.
pub fn validate_email(email: &str) -> (r: Result<(), &'static str>)
    ensures
        match email_error(email@) {
            None => r is Ok,
            Some(c) => r matches Err(e) && e@ == c,
        },
{
    let blen = email.as_bytes().len();
    assert(blen == vstd::utf8::encode_utf8(email@).len());
    if blen > MAX_EMAIL_LENGTH {
        return Err("email_too_long");
    }
    let n = email.unicode_len();
    let mut a: usize = 0;
    while a < n && email.get_char(a) != '@'
        invariant
            a <= n,
            n == email@.len(),
            forall|j: int| 0 <= j < a ==> email@[j] != '@',
        decreases n - a,
    {
        a = a + 1;
    }
    if a == n || a == 0 {
        // no '@' at all, or an empty local part: no split can witness a match
        assert(!email_matches(email@));
        return Err("invalid_email");
    }
    let mut i: usize = 0;
    while i < a
        invariant
            i <= a < n,
            n == email@.len(),
            vstd::utf8::encode_utf8(email@).len() <= MAX_EMAIL_LENGTH,
            email@[a as int] == '@',
            forall|j: int| 0 <= j < a ==> email@[j] != '@',
            forall|j: int| 0 <= j < i ==> local_char(email@[j]),
        decreases a - i,
    {
        if !is_local_char_exec(email.get_char(i)) {
            proof {
                assert forall|aw: int|
                    0 < aw < email@.len() && email@[aw] == '@' implies !((forall|j: int|
                    0 <= j < aw ==> local_char(email@[j])) && valid_domain(
                    email@.skip(aw + 1),
                )) by {
                    if aw < a {
                        assert(email@[aw] != '@');
                    } else if aw == a {
                        assert(!local_char(email@[i as int]));
                    } else {
                        assert(!local_char(email@[a as int]));
                    }
                }
            }
            return Err("invalid_email");
        }
        i = i + 1;
    }
    if !check_domain(email, a + 1) {
        proof {
            assert forall|aw: int|
                0 < aw < email@.len() && email@[aw] == '@' implies !((forall|j: int|
                0 <= j < aw ==> local_char(email@[j])) && valid_domain(email@.skip(aw + 1))) by {
                if aw < a {
                    assert(email@[aw] != '@');
                } else if aw > a {
                    assert(!local_char(email@[a as int]));
                }
            }
        }
        return Err("invalid_email");
    }
    assert(email_matches(email@));
    let mut has_dot = false;
    let mut j: usize = 0;
    while j < n
        invariant
            j <= n,
            n == email@.len(),
            has_dot == exists|k: int| 0 <= k < j && email@[k] == '.',
        decreases n - j,
    {
        if email.get_char(j) == '.' {
            has_dot = true;
        }
        j = j + 1;
    }
    if !has_dot {
        assert(!email@.contains('.'));
        return Err("invalid_email");
    }
    assert(email@.contains('@')) by {
        assert(email@[a as int] == '@');
    }
    assert(email@.contains('.'));
    Ok(())
}


/// The predicate for one address chunk character class, as a value.
pub open spec fn digit_pred() -> spec_fn(char) -> bool {
    |c: char| is_digit_c(c)
}

pub open spec fn hex_pred() -> spec_fn(char) -> bool {
    |c: char| is_hex_c(c)
}

/// One chunk: between `lo` and `hi` characters, all satisfying `pred`.
pub open spec fn chunk_ok(g: Seq<char>, pred: spec_fn(char) -> bool, lo: int, hi: int) -> bool {
    lo <= g.len() <= hi && forall|i: int| 0 <= i < g.len() ==> pred(g[i])
}

/// `n` chunks joined by `sep`. Since `sep` never satisfies `pred`, any
/// split witnessing this is at the first separator.
pub open spec fn sep_chunks(
    s: Seq<char>,
    pred: spec_fn(char) -> bool,
    sep: char,
    n: int,
    lo: int,
    hi: int,
) -> bool
    decreases n,
{
    if n <= 1 {
        chunk_ok(s, pred, lo, hi)
    } else {
        exists|k: int|
            0 <= k < s.len() && #[trigger] s[k] == sep && chunk_ok(s.take(k), pred, lo, hi)
                && sep_chunks(s.skip(k + 1), pred, sep, n - 1, lo, hi)
    }
}

/// The loose dotted-quad shape: four chunks of one to three digits.
pub open spec fn ipv4_ok(s: Seq<char>) -> bool {
    sep_chunks(s, digit_pred(), '.', 4, 1, 3)
}

/// The loose full-form colon shape: eight chunks of one to four hex digits.
pub open spec fn ipv6_ok(s: Seq<char>) -> bool {
    sep_chunks(s, hex_pred(), ':', 8, 1, 4)
}

proof fn lemma_chunks_no_sep(s: Seq<char>, pred: spec_fn(char) -> bool, sep: char, n: int, lo: int, hi: int)
    requires
        n >= 2,
        forall|j: int| 0 <= j < s.len() ==> s[j] != sep,
    ensures
        !sep_chunks(s, pred, sep, n, lo, hi),
{
}

proof fn lemma_chunks_first_sep(
    s: Seq<char>,
    pred: spec_fn(char) -> bool,
    sep: char,
    n: int,
    lo: int,
    hi: int,
    k: int,
)
    requires
        n >= 2,
        !pred(sep),
        0 <= k < s.len(),
        s[k] == sep,
        forall|j: int| 0 <= j < k ==> s[j] != sep,
    ensures
        sep_chunks(s, pred, sep, n, lo, hi) == (chunk_ok(s.take(k), pred, lo, hi) && sep_chunks(
            s.skip(k + 1),
            pred,
            sep,
            n - 1,
            lo,
            hi,
        )),
{
    if sep_chunks(s, pred, sep, n, lo, hi) {
        let kw = choose|kw: int|
            0 <= kw < s.len() && #[trigger] s[kw] == sep && chunk_ok(s.take(kw), pred, lo, hi)
                && sep_chunks(s.skip(kw + 1), pred, sep, n - 1, lo, hi);
        if kw > k {
            assert(s.take(kw)[k] == sep);
            assert(pred(s.take(kw)[k]));
            assert(false);
        }
    }
}

proof fn lemma_chunk_has_sep(s: Seq<char>, pred: spec_fn(char) -> bool, sep: char, lo: int, hi: int, k: int)
    requires
        !pred(sep),
        0 <= k < s.len(),
        s[k] == sep,
    ensures
        !chunk_ok(s, pred, lo, hi),
{
}

fn check_ipv4_chunks(s: &str, from: usize, n: u32) -> (r: bool)
    requires
        from <= s@.len(),
        n >= 1,
    ensures
        r == sep_chunks(s@.skip(from as int), digit_pred(), '.', n as int, 1, 3),
    decreases n,
{
    let ghost d = s@.skip(from as int);
    let slen = s.unicode_len();
    let mut i = from;
    while i < slen && s.get_char(i) != '.'
        invariant
            from <= i <= slen,
            slen == s@.len(),
            forall|j: int| from <= j < i ==> s@[j] != '.',
        decreases slen - i,
    {
        i = i + 1;
    }
    proof {
        assert forall|j: int| 0 <= j < i - from implies d[j] != '.' by {
            assert(d[j] == s@[from + j]);
        }
        assert(!digit_pred()('.'));
    }
    if i == slen {
        if n == 1 {
            check_digit_run(s, from, slen)
        } else {
            proof {
                assert forall|j: int| 0 <= j < d.len() implies d[j] != '.' by {
                    assert(d[j] == s@[from + j]);
                }
                lemma_chunks_no_sep(d, digit_pred(), '.', n as int, 1, 3);
            }
            false
        }
    } else {
        proof {
            assert(d[i - from] == s@[i as int]);
        }
        if n == 1 {
            proof {
                lemma_chunk_has_sep(d, digit_pred(), '.', 1, 3, i - from);
            }
            false
        } else {
            proof {
                lemma_chunks_first_sep(d, digit_pred(), '.', n as int, 1, 3, i - from);
                assert(d.take(i - from) =~= s@.subrange(from as int, i as int));
                assert(d.skip(i - from + 1) =~= s@.skip(i + 1));
            }
            if !check_digit_run(s, from, i) {
                return false;
            }
            check_ipv4_chunks(s, i + 1, n - 1)
        }
    }
}

fn check_digit_run(s: &str, from: usize, to: usize) -> (r: bool)
    requires
        from <= to <= s@.len(),
    ensures
        r == chunk_ok(s@.subrange(from as int, to as int), digit_pred(), 1, 3),
{
    let ghost g = s@.subrange(from as int, to as int);
    let len = to - from;
    if len < 1 || len > 3 {
        return false;
    }
    let mut i = from;
    while i < to
        invariant
            from <= i <= to <= s@.len(),
            g == s@.subrange(from as int, to as int),
            forall|j: int| from <= j < i ==> is_digit_c(s@[j]),
        decreases to - i,
    {
        let u = s.get_char(i) as u32;
        if !(48 <= u && u <= 57) {
            assert(g[i - from] == s@[i as int]);
            assert(!digit_pred()(g[i - from]));
            return false;
        }
        i = i + 1;
    }
    assert forall|j: int| 0 <= j < g.len() implies digit_pred()(g[j]) by {
        assert(g[j] == s@[from + j]);
    }
    true
}

fn check_ipv6_chunks(s: &str, from: usize, n: u32) -> (r: bool)
    requires
        from <= s@.len(),
        n >= 1,
    ensures
        r == sep_chunks(s@.skip(from as int), hex_pred(), ':', n as int, 1, 4),
    decreases n,
{
    let ghost d = s@.skip(from as int);
    let slen = s.unicode_len();
    let mut i = from;
    while i < slen && s.get_char(i) != ':'
        invariant
            from <= i <= slen,
            slen == s@.len(),
            forall|j: int| from <= j < i ==> s@[j] != ':',
        decreases slen - i,
    {
        i = i + 1;
    }
    proof {
        assert forall|j: int| 0 <= j < i - from implies d[j] != ':' by {
            assert(d[j] == s@[from + j]);
        }
        assert(!hex_pred()(':'));
    }
    if i == slen {
        if n == 1 {
            check_hex_run(s, from, slen)
        } else {
            proof {
                assert forall|j: int| 0 <= j < d.len() implies d[j] != ':' by {
                    assert(d[j] == s@[from + j]);
                }
                lemma_chunks_no_sep(d, hex_pred(), ':', n as int, 1, 4);
            }
            false
        }
    } else {
        proof {
            assert(d[i - from] == s@[i as int]);
        }
        if n == 1 {
            proof {
                lemma_chunk_has_sep(d, hex_pred(), ':', 1, 4, i - from);
            }
            false
        } else {
            proof {
                lemma_chunks_first_sep(d, hex_pred(), ':', n as int, 1, 4, i - from);
                assert(d.take(i - from) =~= s@.subrange(from as int, i as int));
                assert(d.skip(i - from + 1) =~= s@.skip(i + 1));
            }
            if !check_hex_run(s, from, i) {
                return false;
            }
            check_ipv6_chunks(s, i + 1, n - 1)
        }
    }
}

fn check_hex_run(s: &str, from: usize, to: usize) -> (r: bool)
    requires
        from <= to <= s@.len(),
    ensures
        r == chunk_ok(s@.subrange(from as int, to as int), hex_pred(), 1, 4),
{
    let ghost g = s@.subrange(from as int, to as int);
    let len = to - from;
    if len < 1 || len > 4 {
        return false;
    }
    let mut i = from;
    while i < to
        invariant
            from <= i <= to <= s@.len(),
            g == s@.subrange(from as int, to as int),
            forall|j: int| from <= j < i ==> is_hex_c(s@[j]),
        decreases to - i,
    {
        let u = s.get_char(i) as u32;
        if !(48 <= u && u <= 57 || 97 <= u && u <= 102 || 65 <= u && u <= 70) {
            assert(g[i - from] == s@[i as int]);
            assert(!hex_pred()(g[i - from]));
            return false;
        }
        i = i + 1;
    }
    assert forall|j: int| 0 <= j < g.len() implies hex_pred()(g[j]) by {
        assert(g[j] == s@[from + j]);
    }
    true
}

/// Either address shape.
pub open spec fn ip_ok(s: Seq<char>) -> bool {
    ipv4_ok(s) || ipv6_ok(s)
}

/// Checks for either address shape.
pub fn validate_ip_address(ip: &str) -> (r: Result<(), &'static str>)
    ensures
        r is Ok <==> ip_ok(ip@),
        r matches Err(e) ==> e@ == "invalid_ip_address"@,
{
    proof {
        assert(ip@.skip(0) =~= ip@);
    }
    if check_ipv4_chunks(ip, 0, 4) {
        return Ok(());
    }
    if check_ipv6_chunks(ip, 0, 8) {
        return Ok(());
    }
    Err("invalid_ip_address")
}


/// A character the host part of a URL may contain.
pub open spec fn host_char(c: char) -> bool {
    is_alnum_c(c) || c == '_' || c == '-' || c == '.'
}

/// A character the path part of a URL may contain.
pub open spec fn path_char(c: char) -> bool {
    is_alnum_c(c) || c == '_' || c == '-' || c == '.' || c == '/' || c == '%' || c == '+'
        || c == '@' || c == '&' || c == '#' || c == '=' || c == '(' || c == ')'
}

/// A path: a slash followed by path characters.
pub open spec fn url_path(w: Seq<char>) -> bool {
    w.len() >= 1 && w[0] == '/' && forall|i: int| 1 <= i < w.len() ==> path_char(w[i])
}

pub open spec fn url_path_opt(w: Seq<char>) -> bool {
    w.len() == 0 || url_path(w)
}

/// What may follow `:` after the host: one or more digits, then an
/// optional path.
pub open spec fn url_port_path(v: Seq<char>) -> bool {
    exists|p: int|
        1 <= p <= v.len() && (forall|j: int| 0 <= j < p ==> is_digit_c(#[trigger] v[j]))
            && url_path_opt(v.skip(p))
}

/// What may follow the host: nothing, a port, or a path.
pub open spec fn url_after_host(u: Seq<char>) -> bool {
    ||| u.len() == 0
    ||| (u.len() >= 1 && u[0] == ':' && url_port_path(u.skip(1)))
    ||| url_path(u)
}

/// What follows the scheme: a non-empty host, then port and path.
pub open spec fn url_tail(t: Seq<char>) -> bool {
    exists|h: int|
        1 <= h <= t.len() && (forall|i: int| 0 <= i < h ==> host_char(#[trigger] t[i]))
            && url_after_host(t.skip(h))
}

/// The URL language: `http://` or `https://`, a host of permitted
/// characters, an optional decimal port, an optional path.
pub open spec fn url_ok(s: Seq<char>) -> bool {
    ||| (s.len() >= 7 && s.take(7) == "http://"@ && url_tail(s.skip(7)))
    ||| (s.len() >= 8 && s.take(8) == "https://"@ && url_tail(s.skip(8)))
}

/// A host never contains `:` or `/`, so only the maximal run of host
/// characters can witness `url_tail`.
proof fn lemma_url_host_run(t: Seq<char>, m: int)
    requires
        0 <= m <= t.len(),
        forall|i: int| 0 <= i < m ==> host_char(#[trigger] t[i]),
        m < t.len() ==> !host_char(t[m as int]),
    ensures
        url_tail(t) == (m >= 1 && url_after_host(t.skip(m))),
{
    assert(!host_char(':'));
    assert(!host_char('/'));
    if url_tail(t) {
        let h = choose|h: int|
            1 <= h <= t.len() && (forall|i: int| 0 <= i < h ==> host_char(#[trigger] t[i]))
                && url_after_host(t.skip(h));
        if h < m {
            let u = t.skip(h);
            assert(u[0] == t[h as int]);
            assert(host_char(t[h as int]));
            assert(u.len() >= 1);
            if u.len() >= 1 && u[0] == ':' {
                assert(false);
            }
            if url_path(u) {
                assert(u[0] == '/');
                assert(false);
            }
            assert(false);
        } else if h > m {
            assert(host_char(t[m as int]));
            assert(false);
        }
    }
    if m >= 1 && url_after_host(t.skip(m)) {
        assert(1 <= m <= t.len() && (forall|i: int| 0 <= i < m ==> host_char(#[trigger] t[i]))
            && url_after_host(t.skip(m)));
    }
}

/// A port never contains `/`, and a digit never opens a path, so only the
/// maximal digit run can witness `url_port_path`.
proof fn lemma_url_port_run(v: Seq<char>, q: int)
    requires
        0 <= q <= v.len(),
        forall|j: int| 0 <= j < q ==> is_digit_c(#[trigger] v[j]),
        q < v.len() ==> !is_digit_c(v[q as int]),
    ensures
        url_port_path(v) == (q >= 1 && url_path_opt(v.skip(q))),
{
    if url_port_path(v) {
        let p = choose|p: int|
            1 <= p <= v.len() && (forall|j: int| 0 <= j < p ==> is_digit_c(#[trigger] v[j]))
                && url_path_opt(v.skip(p));
        if p < q {
            let w = v.skip(p);
            assert(w[0] == v[p as int]);
            assert(is_digit_c(v[p as int]));
            assert(w.len() >= 1);
            if url_path(w) {
                assert(w[0] == '/');
                assert(!is_digit_c('/'));
                assert(false);
            }
            assert(false);
        } else if p > q {
            assert(is_digit_c(v[q as int]));
            assert(false);
        }
    }
    if q >= 1 && url_path_opt(v.skip(q)) {
        assert(1 <= q <= v.len() && (forall|j: int| 0 <= j < q ==> is_digit_c(#[trigger] v[j]))
            && url_path_opt(v.skip(q)));
    }
}

fn is_digit_exec(c: char) -> (r: bool)
    ensures
        r == is_digit_c(c),
{
    let u = c as u32;
    48 <= u && u <= 57
}

fn is_host_char_exec(c: char) -> (r: bool)
    ensures
        r == host_char(c),
{
    is_alnum_exec(c) || c == '_' || c == '-' || c == '.'
}

fn is_path_char_exec(c: char) -> (r: bool)
    ensures
        r == path_char(c),
{
    is_alnum_exec(c) || c == '_' || c == '-' || c == '.' || c == '/' || c == '%' || c == '+'
        || c == '@' || c == '&' || c == '#' || c == '=' || c == '(' || c == ')'
}

fn check_url_path(s: &str, from: usize) -> (r: bool)
    requires
        from < s@.len(),
    ensures
        r == url_path(s@.skip(from as int)),
{
    let ghost w = s@.skip(from as int);
    let n = s.unicode_len();
    if s.get_char(from) != '/' {
        assert(w[0] == s@[from as int]);
        return false;
    }
    let mut i = from + 1;
    while i < n
        invariant
            from < i <= n,
            n == s@.len(),
            w == s@.skip(from as int),
            forall|j: int| from < j < i ==> path_char(#[trigger] s@[j]),
        decreases n - i,
    {
        if !is_path_char_exec(s.get_char(i)) {
            assert(w[i - from] == s@[i as int]);
            return false;
        }
        i = i + 1;
    }
    assert(w[0] == s@[from as int]);
    assert forall|j: int| 1 <= j < w.len() implies path_char(w[j]) by {
        assert(w[j] == s@[from + j]);
    }
    true
}

/// Checks the URL shape.
pub fn validate_url(url: &str) -> (r: Result<(), &'static str>)
    ensures
        r is Ok <==> url_ok(url@),
        r matches Err(e) ==> e@ == "invalid_url"@,
{
    let n = url.unicode_len();
    proof {
        reveal_strlit("http://");
        reveal_strlit("https://");
    }
    // scheme: "http", then "://" or "s://"
    if n < 7 || url.get_char(0) != 'h' || url.get_char(1) != 't' || url.get_char(2) != 't'
        || url.get_char(3) != 'p' {
        proof {
            if url@.len() >= 7 && url@.take(7) == "http://"@ {
                assert(url@.take(7)[0] == url@[0] && url@.take(7)[1] == url@[1] && url@.take(7)[2]
                    == url@[2] && url@.take(7)[3] == url@[3]);
                assert(false);
            }
            if url@.len() >= 8 && url@.take(8) == "https://"@ {
                assert(url@.take(8)[0] == url@[0] && url@.take(8)[1] == url@[1] && url@.take(8)[2]
                    == url@[2] && url@.take(8)[3] == url@[3]);
                assert(false);
            }
        }
        return Err("invalid_url");
    }
    let sch: usize;
    if url.get_char(4) == ':' {
        if url.get_char(5) != '/' || url.get_char(6) != '/' {
            proof {
                if url@.len() >= 7 && url@.take(7) == "http://"@ {
                    assert(url@.take(7)[4] == url@[4] && url@.take(7)[5] == url@[5]
                        && url@.take(7)[6] == url@[6]);
                    assert(false);
                }
                if url@.len() >= 8 && url@.take(8) == "https://"@ {
                    assert(url@.take(8)[4] == url@[4]);
                    assert(false);
                }
            }
            return Err("invalid_url");
        }
        sch = 7;
        proof {
            assert(url@.take(7) =~= "http://"@);
        }
    } else if url.get_char(4) == 's' {
        if n < 8 || url.get_char(5) != ':' || url.get_char(6) != '/' || url.get_char(7) != '/' {
            proof {
                if url@.len() >= 7 && url@.take(7) == "http://"@ {
                    assert(url@.take(7)[4] == url@[4]);
                    assert(false);
                }
                if url@.len() >= 8 && url@.take(8) == "https://"@ {
                    assert(url@.take(8)[4] == url@[4] && url@.take(8)[5] == url@[5]
                        && url@.take(8)[6] == url@[6] && url@.take(8)[7] == url@[7]);
                    assert(false);
                }
            }
            return Err("invalid_url");
        }
        sch = 8;
        proof {
            assert(url@.take(8) =~= "https://"@);
        }
    } else {
        proof {
            if url@.len() >= 7 && url@.take(7) == "http://"@ {
                assert(url@.take(7)[4] == url@[4]);
                assert(false);
            }
            if url@.len() >= 8 && url@.take(8) == "https://"@ {
                assert(url@.take(8)[4] == url@[4]);
                assert(false);
            }
        }
        return Err("invalid_url");
    }
    proof {
        if sch == 7 {
            assert(("https://"@)[4] == 's');
            if url@.len() >= 8 && url@.take(8) == "https://"@ {
                assert(url@.take(8)[4] == url@[4]);
                assert(false);
            }
        } else {
            assert(("http://"@)[4] == ':');
            if url@.len() >= 7 && url@.take(7) == "http://"@ {
                assert(url@.take(7)[4] == url@[4]);
                assert(false);
            }
        }
    }
    let ghost t = url@.skip(sch as int);
    // host: maximal run of host characters
    let mut i = sch;
    while i < n && is_host_char_exec(url.get_char(i))
        invariant
            sch <= i <= n,
            n == url@.len(),
            forall|j: int| sch <= j < i ==> host_char(#[trigger] url@[j]),
        decreases n - i,
    {
        i = i + 1;
    }
    proof {
        assert forall|j: int| 0 <= j < i - sch implies host_char(#[trigger] t[j]) by {
            assert(t[j] == url@[sch + j]);
        }
        if i < n {
            assert(t[i - sch] == url@[i as int]);
        }
        lemma_url_host_run(t, i - sch);
    }
    if i == sch {
        return Err("invalid_url");
    }
    let ghost u = t.skip(i - sch);
    proof {
        assert(u =~= url@.skip(i as int));
    }
    if i == n {
        return Ok(());
    }
    let c = url.get_char(i);
    assert(u[0] == url@[i as int]);
    if c == ':' {
        // port: maximal run of digits
        let pstart = i + 1;
        let ghost v = url@.skip(pstart as int);
        assert(v =~= u.skip(1));
        let mut p = pstart;
        while p < n && is_digit_exec(url.get_char(p))
            invariant
                pstart <= p <= n,
                n == url@.len(),
                forall|j: int| pstart <= j < p ==> is_digit_c(#[trigger] url@[j]),
            decreases n - p,
        {
            p = p + 1;
        }
        proof {
            assert forall|j: int| 0 <= j < p - pstart implies is_digit_c(#[trigger] v[j]) by {
                assert(v[j] == url@[pstart + j]);
            }
            if p < n {
                assert(v[p - pstart] == url@[p as int]);
            }
            lemma_url_port_run(v, p - pstart);
        }
        if p == pstart {
            return Err("invalid_url");
        }
        proof {
            assert(v.skip(p - pstart) =~= url@.skip(p as int));
        }
        if p == n {
            return Ok(());
        }
        if check_url_path(url, p) {
            return Ok(());
        }
        proof {
            assert(url@.skip(p as int).len() > 0);
        }
        return Err("invalid_url");
    }
    if check_url_path(url, i) {
        return Ok(());
    }
    proof {
        if url_after_host(u) {
            assert(u.len() > 0);
            assert(u[0] != ':');
            assert(url_path(u));
            assert(false);
        }
    }
    Err("invalid_url")
}


/// Index of the last dot in `s`, or -1 if there is none.
pub open spec fn last_dot(s: Seq<char>) -> int
    decreases s.len(),
{
    if s.len() == 0 {
        -1
    } else if s.last() == '.' {
        s.len() - 1
    } else {
        last_dot(s.drop_last())
    }
}

proof fn lemma_last_dot_bounds(s: Seq<char>)
    ensures
        -1 <= last_dot(s) < s.len(),
    decreases s.len(),
{
    if s.len() > 0 && s.last() != '.' {
        lemma_last_dot_bounds(s.drop_last());
    }
}

/// The extension of a filename: everything after the last dot, or the
/// whole name if there is no dot.
pub open spec fn ext_of(s: Seq<char>) -> Seq<char> {
    s.skip(last_dot(s) + 1)
}

/// Whether the extension of `s` appears in the allow-list, compared
/// ASCII case-insensitively.
pub open spec fn ext_allowed(s: Seq<char>, allowed: Seq<&str>) -> bool {
    exists|i: int| 0 <= i < allowed.len() && eq_ignore_case(#[trigger] allowed[i]@, ext_of(s))
}

fn region_ci_eq(s: &str, from: usize, a: &str) -> (r: bool)
    requires
        from <= s@.len(),
    ensures
        r == eq_ignore_case(a@, s@.skip(from as int)),
{
    let n = s.unicode_len();
    let alen = a.unicode_len();
    if alen != n - from {
        return false;
    }
    let mut i: usize = 0;
    while i < alen
        invariant
            alen == a@.len(),
            n == s@.len(),
            from + alen == n,
            i <= alen,
            forall|j: int|
                0 <= j < i ==> crate::strutil::fold_ascii_case(a@[j])
                    == crate::strutil::fold_ascii_case(s@[from + j]),
        decreases alen - i,
    {
        let ca = a.get_char(i);
        let cb = s.get_char(from + i);
        let ua = ca as u32;
        let ub = cb as u32;
        let fa = if 65 <= ua && ua <= 90 { ua + 32 } else { ua };
        let fb = if 65 <= ub && ub <= 90 { ub + 32 } else { ub };
        if fa != fb {
            assert(s@.skip(from as int)[i as int] == s@[from + i]);
            return false;
        }
        i = i + 1;
    }
    assert forall|j: int| 0 <= j < a@.len() implies crate::strutil::fold_ascii_case(a@[j])
        == crate::strutil::fold_ascii_case(s@.skip(from as int)[j]) by {
        assert(s@.skip(from as int)[j] == s@[from + j]);
    }
    true
}

/// Checks that the filename's extension, everything after the last dot,
/// stands in the allow-list; ASCII letter case is ignored.
pub fn validate_file_extension(filename: &str, allowed: &[&str]) -> (r: Result<
    (),
    &'static str,
>)
    ensures
        r is Ok <==> ext_allowed(filename@, allowed@),
        r matches Err(e) ==> e@ == "invalid_file_extension"@,
{
    let n = filename.unicode_len();
    let mut dot: usize = 0;
    let mut seen = false;
    let mut i: usize = 0;
    while i < n
        invariant
            i <= n,
            n == filename@.len(),
            seen ==> dot < i,
            last_dot(filename@.take(i as int)) == (if seen {
                dot as int
            } else {
                -1int
            }),
        decreases n - i,
    {
        proof {
            assert(filename@.take(i + 1).drop_last() =~= filename@.take(i as int));
            assert(filename@.take(i + 1).last() == filename@[i as int]);
        }
        if filename.get_char(i) == '.' {
            dot = i;
            seen = true;
        }
        i = i + 1;
    }
    proof {
        assert(filename@.take(n as int) =~= filename@);
    }
    let start: usize = if seen {
        dot + 1
    } else {
        0
    };
    assert(start as int == last_dot(filename@) + 1);
    let mut k: usize = 0;
    while k < allowed.len()
        invariant
            k <= allowed@.len(),
            start as int == last_dot(filename@) + 1,
            start <= filename@.len(),
            forall|j: int| 0 <= j < k ==> !eq_ignore_case(#[trigger] allowed@[j]@, ext_of(filename@)),
        decreases allowed@.len() - k,
    {
        if region_ci_eq(filename, start, allowed[k]) {
            return Ok(());
        }
        k = k + 1;
    }
    Err("invalid_file_extension")
}


/// The default human-readable message of each error code; a few
/// interpolate the field name or a rule constant.
pub open spec fn default_message(code: Seq<char>, field: Seq<char>) -> Seq<char> {
    if code == "required"@ {
        "The field '"@ + field + "' is required"@
    } else if code == "password_too_short"@ {
        "Password must be at least "@ + dec_digits(MIN_PASSWORD_LENGTH as int) + " characters"@
    } else if code == "password_too_long"@ {
        "Password must not exceed "@ + dec_digits(MAX_PASSWORD_LENGTH as int) + " characters"@
    } else if code == "password_requirements_not_met"@ {
        "Password must contain uppercase, lowercase, number, and special character"@
    } else if code == "invalid_phone_number"@ {
        "Invalid phone number format"@
    } else if code == "invalid_url"@ {
        "Invalid URL format"@
    } else if code == "invalid_date_format"@ {
        "Date must be in YYYY-MM-DD format"@
    } else if code == "invalid_hex_color"@ {
        "Invalid hex color code"@
    } else if code == "invalid_ip_address"@ {
        "Invalid IP address"@
    } else if code == "invalid_slug"@ {
        "Invalid slug format"@
    } else if code == "file_too_large"@ {
        "File size exceeds maximum allowed for field '"@ + field + "'"@
    } else if code == "invalid_file_extension"@ {
        "File type not allowed"@
    } else if code == "no_file_extension"@ {
        "File must have an extension"@
    } else if code == "invalid_email"@ {
        "Invalid email format"@
    } else if code == "email_too_long"@ {
        "Email address is too long"@
    } else {
        "Validation failed for field '"@ + field + "'"@
    }
}

/// Looks up the default message for an error code.
pub fn get_error_message(code: &str, field: &str) -> (r: String)
    ensures
        r@ == default_message(code@, field@),
{
    if str_eq(code, "required") {
        let mut m = String::from_str("The field '");
        m.append(field);
        m.append("' is required");
        m
    } else if str_eq(code, "password_too_short") {
        let mut m = String::from_str("Password must be at least ");
        push_u64_dec(&mut m, MIN_PASSWORD_LENGTH as u64);
        m.append(" characters");
        m
    } else if str_eq(code, "password_too_long") {
        let mut m = String::from_str("Password must not exceed ");
        push_u64_dec(&mut m, MAX_PASSWORD_LENGTH as u64);
        m.append(" characters");
        m
    } else if str_eq(code, "password_requirements_not_met") {
        String::from_str("Password must contain uppercase, lowercase, number, and special character")
    } else if str_eq(code, "invalid_phone_number") {
        String::from_str("Invalid phone number format")
    } else if str_eq(code, "invalid_url") {
        String::from_str("Invalid URL format")
    } else if str_eq(code, "invalid_date_format") {
        String::from_str("Date must be in YYYY-MM-DD format")
    } else if str_eq(code, "invalid_hex_color") {
        String::from_str("Invalid hex color code")
    } else if str_eq(code, "invalid_ip_address") {
        String::from_str("Invalid IP address")
    } else if str_eq(code, "invalid_slug") {
        String::from_str("Invalid slug format")
    } else if str_eq(code, "file_too_large") {
        let mut m = String::from_str("File size exceeds maximum allowed for field '");
        m.append(field);
        m.append("'");
        m
    } else if str_eq(code, "invalid_file_extension") {
        String::from_str("File type not allowed")
    } else if str_eq(code, "no_file_extension") {
        String::from_str("File must have an extension")
    } else if str_eq(code, "invalid_email") {
        String::from_str("Invalid email format")
    } else if str_eq(code, "email_too_long") {
        String::from_str("Email address is too long")
    } else {
        let mut m = String::from_str("Validation failed for field '");
        m.append(field);
        m.append("'");
        m
    }
}

/// The abstract content of one violation: field, code, message.
pub open spec fn violation_of(field: Seq<char>, code: Seq<char>) -> (Seq<char>, Seq<char>, Seq<
    char,
>) {
    (field, code, default_message(code, field))
}

/// Whether a violation record carries exactly the given content.
pub open spec fn ve_is(a: ValidationError, t: (Seq<char>, Seq<char>, Seq<char>)) -> bool {
    a.field@ == t.0 && a.code@ == t.1 && a.message@ == t.2
}

pub open spec fn ves_are(v: Seq<ValidationError>, ts: Seq<(Seq<char>, Seq<char>, Seq<char>)>) -> bool {
    v.len() == ts.len() && forall|i: int| 0 <= i < v.len() ==> ve_is(#[trigger] v[i], ts[i])
}

/// Builds one violation record, taking the rule's custom message if it
/// has one and the default message of the code otherwise.
pub fn make_validation_error(field: &str, code: &str, custom: Option<&str>) -> (r: ValidationError)
    ensures
        r.field@ == field@,
        r.code@ == code@,
        match custom {
            Some(m) => r.message@ == m@,
            None => r.message@ == default_message(code@, field@),
        },
{
    let message = match custom {
        Some(m) => String::from_str(m),
        None => get_error_message(code, field),
    };
    ValidationError { field: String::from_str(field), code: String::from_str(code), message }
}

/// The full violation list owed to a credentials input: the email rule's
/// violation, if any, then the password rule's, if any.
pub open spec fn expected_credential_violations(email: Seq<char>, password: Seq<char>) -> Seq<
    (Seq<char>, Seq<char>, Seq<char>),
> {
    (match email_error(email) {
        Some(c) => seq![violation_of("email"@, c)],
        None => Seq::empty(),
    }) + (match password_error(password) {
        Some(c) => seq![violation_of("password"@, c)],
        None => Seq::empty(),
    })
}

/// Evaluates every credential rule, never stopping at the first failure,
/// and wraps the complete violation list into one `Validation` failure.
pub fn validate_credentials(email: &str, password: &str) -> (r: Result<(), AppError>)
    ensures
        r is Ok <==> expected_credential_violations(email@, password@).len() == 0,
        r matches Err(e) ==> (e matches AppError::Validation(v) && ves_are(
            v@,
            expected_credential_violations(email@, password@),
        )),
{
    let mut violations: Vec<ValidationError> = Vec::new();
    if let Err(code) = validate_email(email) {
        let ve = make_validation_error("email", code, None);
        violations.push(ve);
    }
    if let Err(code) = validate_password(password) {
        let ve = make_validation_error("password", code, None);
        violations.push(ve);
    }
    if violations.len() == 0 {
        Ok(())
    } else {
        Err(AppError::Validation(violations))
    }
}

} // verus!
