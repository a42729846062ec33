//! Serialization of the canonical error envelope: one JSON object whose
//! field names and order are a compatibility surface, reproduced exactly.
//! Fields that are absent are omitted, never written as null.

use vstd::prelude::*;

use crate::errors::{kind_status, kind_type_tag, spec_tag_kind, ErrorKind, ErrorResponse, ValidationError};
use crate::errors::{error_type_to_kind, lemma_tag_identifies_kind};
use crate::strutil::{dec_digits, hex_digit_char, push_char, push_u64_dec};

verus! {

/// The JSON rendering of one character inside a string literal: quote,
/// backslash and the named control characters take a two-character
/// escape, any other control character a `\u00` hex escape, and
/// everything else stands for itself.
pub open spec fn esc_char(c: char) -> Seq<char> {
    if c == '"' {
        seq!['\\', '"']
    } else if c == '\\' {
        seq!['\\', '\\']
    } else if c == '\u{8}' {
        seq!['\\', 'b']
    } else if c == '\u{c}' {
        seq!['\\', 'f']
    } else if c == '\n' {
        seq!['\\', 'n']
    } else if c == '\r' {
        seq!['\\', 'r']
    } else if c == '\t' {
        seq!['\\', 't']
    } else if (c as u32) < 32 {
        let u = c as u32 as int;
        seq!['\\', 'u', '0', '0', hex_digit_char(u / 16), hex_digit_char(u % 16)]
    } else {
        seq![c]
    }
}

/// The JSON rendering of a string's contents.
pub open spec fn json_escape(s: Seq<char>) -> Seq<char>
    decreases s.len(),
{
    if s.len() == 0 {
        Seq::empty()
    } else {
        json_escape(s.drop_last()) + esc_char(s.last())
    }
}

fn push_esc_char(out: &mut String, c: char)
    ensures
        final(out)@ == old(out)@ + esc_char(c),
{
    let u = c as u32;
    if c == '"' {
        out.append("\\\"");
        proof {
            reveal_strlit("\\\"");
            assert(final(out)@ =~= old(out)@ + esc_char(c));
        }
    } else if c == '\\' {
        out.append("\\\\");
        proof {
            reveal_strlit("\\\\");
            assert(final(out)@ =~= old(out)@ + esc_char(c));
        }
    } else if u == 8 {
        out.append("\\b");
        proof {
            reveal_strlit("\\b");
            assert(final(out)@ =~= old(out)@ + esc_char(c));
        }
    } else if u == 12 {
        out.append("\\f");
        proof {
            reveal_strlit("\\f");
            assert(final(out)@ =~= old(out)@ + esc_char(c));
        }
    } else if c == '\n' {
        out.append("\\n");
        proof {
            reveal_strlit("\\n");
            assert(final(out)@ =~= old(out)@ + esc_char(c));
        }
    } else if c == '\r' {
        out.append("\\r");
        proof {
            reveal_strlit("\\r");
            assert(final(out)@ =~= old(out)@ + esc_char(c));
        }
    } else if c == '\t' {
        out.append("\\t");
        proof {
            reveal_strlit("\\t");
            assert(final(out)@ =~= old(out)@ + esc_char(c));
        }
    } else if u < 32 {
        out.append("\\u00");
        crate::strutil::push_hex_digit(out, (u / 16) as u8);
        crate::strutil::push_hex_digit(out, (u % 16) as u8);
        proof {
            reveal_strlit("\\u00");
            assert(final(out)@ =~= old(out)@ + esc_char(c));
        }
    } else {
        push_char(out, c);
        assert(final(out)@ =~= old(out)@ + esc_char(c));
    }
}

fn push_escaped(out: &mut String, s: &str)
    ensures
        final(out)@ == old(out)@ + json_escape(s@),
{
    let n = s.unicode_len();
    let mut i: usize = 0;
    proof {
        assert(old(out)@ + json_escape(s@.take(0)) =~= old(out)@);
    }
    while i < n
        invariant
            n == s@.len(),
            i <= n,
            out@ == old(out)@ + json_escape(s@.take(i as int)),
        decreases n - i,
    {
        let c = s.get_char(i);
        push_esc_char(out, c);
        proof {
            assert(s@.take(i + 1).drop_last() =~= s@.take(i as int));
            assert(s@.take(i + 1).last() == s@[i as int]);
            assert(out@ =~= old(out)@ + json_escape(s@.take(i + 1)));
        }
        i = i + 1;
    }
    proof {
        assert(s@.take(n as int) =~= s@);
    }
}

/// The JSON rendering of one violation record.
pub open spec fn json_of_violation(e: ValidationError) -> Seq<char> {
    "{\"field\":\""@ + json_escape(e.field@) + "\",\"code\":\""@ + json_escape(e.code@)
        + "\",\"message\":\""@ + json_escape(e.message@) + "\"}"@
}

/// The comma-separated JSON renderings of a violation list.
pub open spec fn json_of_violation_items(v: Seq<ValidationError>) -> Seq<char>
    decreases v.len(),
{
    if v.len() == 0 {
        Seq::empty()
    } else if v.len() == 1 {
        json_of_violation(v[0])
    } else {
        json_of_violation_items(v.drop_last()) + ","@ + json_of_violation(v.last())
    }
}

/// The JSON rendering of the violation array.
pub open spec fn json_of_violations(v: Seq<ValidationError>) -> Seq<char> {
    "["@ + json_of_violation_items(v) + "]"@
}

/// The canonical JSON envelope text: the fields in declaration order,
/// with the optional ones omitted when absent.
pub open spec fn json_of_envelope(r: &ErrorResponse) -> Seq<char> {
    "{\"error\":\""@ + json_escape(r.error@) + "\",\"message\":\""@ + json_escape(r.message@)
        + "\",\"status_code\":"@ + dec_digits(r.status_code as int) + (match r.validation_errors {
        Some(v) => ",\"validation_errors\":"@ + json_of_violations(v@),
        None => Seq::empty(),
    }) + (match r.error_code {
        Some(c) => ",\"error_code\":\""@ + json_escape(c@) + "\""@,
        None => Seq::empty(),
    }) + (match r.help {
        Some(h) => ",\"help\":\""@ + json_escape(h@) + "\""@,
        None => Seq::empty(),
    }) + "}"@
}

fn push_violation(out: &mut String, e: &ValidationError)
    ensures
        final(out)@ == old(out)@ + json_of_violation(*e),
{
    out.append("{\"field\":\"");
    push_escaped(out, e.field.as_str());
    out.append("\",\"code\":\"");
    push_escaped(out, e.code.as_str());
    out.append("\",\"message\":\"");
    push_escaped(out, e.message.as_str());
    out.append("\"}");
    assert(final(out)@ =~= old(out)@ + json_of_violation(*e));
}

fn push_violations(out: &mut String, v: &Vec<ValidationError>)
    ensures
        final(out)@ == old(out)@ + json_of_violations(v@),
{
    out.append("[");
    let n = v.len();
    let mut i: usize = 0;
    proof {
        assert(old(out)@ + "["@ + json_of_violation_items(v@.take(0)) =~= old(out)@ + "["@);
    }
    while i < n
        invariant
            n == v@.len(),
            i <= n,
            out@ == old(out)@ + "["@ + json_of_violation_items(v@.take(i as int)),
        decreases n - i,
    {
        if i > 0 {
            out.append(",");
        }
        push_violation(out, &v[i]);
        proof {
            assert(v@.take(i + 1).drop_last() =~= v@.take(i as int));
            assert(v@.take(i + 1).last() == v@[i as int]);
            if i == 0 {
                assert(out@ =~= old(out)@ + "["@ + json_of_violation_items(v@.take(i + 1)));
            } else {
                assert(out@ =~= old(out)@ + "["@ + json_of_violation_items(v@.take(i + 1)));
            }
        }
        i = i + 1;
    }
    proof {
        assert(v@.take(n as int) =~= v@);
    }
    out.append("]");
    assert(final(out)@ =~= old(out)@ + json_of_violations(v@));
}

impl ErrorResponse {
    /// Writes this envelope as its canonical JSON text.
    pub fn to_json(&self) -> (r: String)
        ensures
            r@ == json_of_envelope(self),
    {
        let mut out = String::from_str("{\"error\":\"");
        push_escaped(&mut out, self.error.as_str());
        out.append("\",\"message\":\"");
        push_escaped(&mut out, self.message.as_str());
        out.append("\",\"status_code\":");
        push_u64_dec(&mut out, self.status_code as u64);
        match &self.validation_errors {
            Some(v) => {
                out.append(",\"validation_errors\":");
                push_violations(&mut out, v);
            },
            None => {},
        }
        match &self.error_code {
            Some(c) => {
                out.append(",\"error_code\":\"");
                push_escaped(&mut out, c.as_str());
                out.append("\"");
            },
            None => {},
        }
        match &self.help {
            Some(h) => {
                out.append(",\"help\":\"");
                push_escaped(&mut out, h.as_str());
                out.append("\"");
            },
            None => {},
        }
        out.append("}");
        proof {
            assert(out@ =~= json_of_envelope(self));
        }
        out
    }
}


/// A character that stands for itself inside a JSON string literal.
pub open spec fn plain_char(c: char) -> bool {
    esc_char(c) == seq![c]
}

/// The number of characters before the first quote, or the whole length
/// if there is none.
pub open spec fn until_quote(s: Seq<char>) -> int
    decreases s.len(),
{
    if s.len() == 0 {
        0
    } else if s[0] == '"' {
        0
    } else {
        1 + until_quote(s.skip(1))
    }
}

/// The identifying pair a canonical envelope text carries: the wire tag
/// sits unescaped between the opening `{"error":"` and the next quote,
/// and the tag's kind fixes the status code.
pub open spec fn spec_envelope_kind(s: Seq<char>) -> Option<(u16, ErrorKind)> {
    if s.len() >= 10 && s.take(10) == "{\"error\":\""@ {
        let rest = s.skip(10);
        let n = until_quote(rest);
        if n < rest.len() {
            match spec_tag_kind(rest.take(n)) {
                Some(k) => Some((kind_status(k), k)),
                None => None,
            }
        } else {
            None
        }
    } else {
        None
    }
}

proof fn lemma_until_quote_scan(s: Seq<char>, m: int)
    requires
        0 <= m <= s.len(),
        forall|j: int| 0 <= j < m ==> s[j] != '"',
        m < s.len() ==> s[m as int] == '"',
    ensures
        until_quote(s) == m,
    decreases m,
{
    if s.len() > 0 {
        if m == 0 {
        } else {
            assert forall|j: int| 0 <= j < m - 1 implies s.skip(1)[j] != '"' by {
                assert(s.skip(1)[j] == s[j + 1]);
            }
            if m - 1 < s.skip(1).len() {
                assert(s.skip(1)[m - 1] == s[m as int]);
            }
            lemma_until_quote_scan(s.skip(1), m - 1);
        }
    }
}

/// Reads the identifying pair back out of a canonical envelope text.
pub fn envelope_kind_from_json(s: &str) -> (r: Option<(u16, ErrorKind)>)
    ensures
        r == spec_envelope_kind(s@),
{
    let n = s.unicode_len();
    proof {
        reveal_strlit("{\"error\":\"");
    }
    if n < 10 {
        return None;
    }
    if s.get_char(0) != '{' || s.get_char(1) != '"' || s.get_char(2) != 'e' || s.get_char(3)
        != 'r' || s.get_char(4) != 'r' || s.get_char(5) != 'o' || s.get_char(6) != 'r'
        || s.get_char(7) != '"' || s.get_char(8) != ':' || s.get_char(9) != '"' {
        proof {
            if s@.take(10) == "{\"error\":\""@ {
                assert(s@.take(10)[0] == s@[0] && s@.take(10)[1] == s@[1] && s@.take(10)[2]
                    == s@[2] && s@.take(10)[3] == s@[3] && s@.take(10)[4] == s@[4] && s@.take(
                    10,
                )[5] == s@[5] && s@.take(10)[6] == s@[6] && s@.take(10)[7] == s@[7] && s@.take(
                    10,
                )[8] == s@[8] && s@.take(10)[9] == s@[9]);
                assert(false);
            }
        }
        return None;
    }
    proof {
        assert(s@.take(10) =~= "{\"error\":\""@);
    }
    let mut q: usize = 10;
    while q < n && s.get_char(q) != '"'
        invariant
            10 <= q <= n,
            n == s@.len(),
            forall|j: int| 10 <= j < q ==> s@[j] != '"',
        decreases n - q,
    {
        q = q + 1;
    }
    proof {
        let rest = s@.skip(10);
        assert forall|j: int| 0 <= j < q - 10 implies rest[j] != '"' by {
            assert(rest[j] == s@[j + 10]);
        }
        if q < n {
            assert(rest[q - 10] == s@[q as int]);
        }
        lemma_until_quote_scan(rest, q - 10);
    }
    if q == n {
        return None;
    }
    let tag = s.substring_char(10, q);
    proof {
        assert(tag@ =~= s@.skip(10).take(q - 10));
    }
    let kind = match error_type_to_kind(tag) {
        Some(k) => k,
        None => {
            return None;
        },
    };
    let status = match kind {
        ErrorKind::Authentication => 401,
        ErrorKind::Authorization => 403,
        ErrorKind::Validation => 400,
        ErrorKind::NotFound => 404,
        ErrorKind::Conflict => 409,
        ErrorKind::Database => 500,
        ErrorKind::RateLimit => 429,
        ErrorKind::ExternalService => 502,
        ErrorKind::InvalidInput => 400,
        ErrorKind::Internal => 500,
    };
    Some((status, kind))
}

/// A string that the JSON escaper leaves untouched consists of characters
/// that stand for themselves; in particular it contains no quote.
proof fn lemma_unescaped_is_plain(t: Seq<char>)
    requires
        json_escape(t) == t,
    ensures
        forall|i: int| 0 <= i < t.len() ==> plain_char(#[trigger] t[i]),
        forall|i: int| 0 <= i < t.len() ==> #[trigger] t[i] != '"',
    decreases t.len(),
{
    lemma_escape_len(t);
    if t.len() > 0 {
        let head = t.drop_last();
        let last = t.last();
        lemma_escape_len(head);
        assert(json_escape(head) + esc_char(last) == t);
        assert(esc_char(last).len() >= 1);
        assert(json_escape(head).len() >= head.len());
        assert(json_escape(head).len() + esc_char(last).len() == t.len());
        assert(json_escape(head).len() == head.len() && esc_char(last).len() == 1);
        assert forall|i: int| 0 <= i < head.len() implies json_escape(head)[i] == head[i] by {
            assert((json_escape(head) + esc_char(last))[i] == json_escape(head)[i]);
            assert(t[i] == head[i]);
        }
        assert(json_escape(head) =~= head);
        lemma_unescaped_is_plain(head);
        assert(esc_char(last) =~= seq![last]) by {
            assert((json_escape(head) + esc_char(last))[t.len() - 1] == esc_char(last)[0]);
        }
        assert(plain_char(last));
        assert(last != '"') by {
            if last == '"' {
                assert(esc_char(last).len() == 2);
            }
        }
        assert forall|i: int| 0 <= i < t.len() implies plain_char(#[trigger] t[i]) && t[i]
            != '"' by {
            if i < t.len() - 1 {
                assert(t[i] == head[i]);
            }
        }
    }
}

proof fn lemma_escape_len(t: Seq<char>)
    ensures
        json_escape(t).len() >= t.len(),
    decreases t.len(),
{
    if t.len() > 0 {
        lemma_escape_len(t.drop_last());
        assert(esc_char(t.last()).len() >= 1);
    }
}

#[verifier::spinoff_prover]
proof fn lemma_tag_unescaped_authentication_error()
    ensures
        json_escape("authentication_error"@) == "authentication_error"@,
{
    reveal_with_fuel(json_escape, 21);
    reveal_strlit("authentication_error");
    assert(json_escape("authentication_error"@) =~= "authentication_error"@);
}

#[verifier::spinoff_prover]
proof fn lemma_tag_unescaped_authorization_error()
    ensures
        json_escape("authorization_error"@) == "authorization_error"@,
{
    reveal_with_fuel(json_escape, 20);
    reveal_strlit("authorization_error");
    assert(json_escape("authorization_error"@) =~= "authorization_error"@);
}

#[verifier::spinoff_prover]
proof fn lemma_tag_unescaped_validation_error()
    ensures
        json_escape("validation_error"@) == "validation_error"@,
{
    reveal_with_fuel(json_escape, 17);
    reveal_strlit("validation_error");
    assert(json_escape("validation_error"@) =~= "validation_error"@);
}

#[verifier::spinoff_prover]
proof fn lemma_tag_unescaped_not_found()
    ensures
        json_escape("not_found"@) == "not_found"@,
{
    reveal_with_fuel(json_escape, 10);
    reveal_strlit("not_found");
    assert(json_escape("not_found"@) =~= "not_found"@);
}

#[verifier::spinoff_prover]
proof fn lemma_tag_unescaped_conflict()
    ensures
        json_escape("conflict"@) == "conflict"@,
{
    reveal_with_fuel(json_escape, 9);
    reveal_strlit("conflict");
    assert(json_escape("conflict"@) =~= "conflict"@);
}

#[verifier::spinoff_prover]
proof fn lemma_tag_unescaped_database_error()
    ensures
        json_escape("database_error"@) == "database_error"@,
{
    reveal_with_fuel(json_escape, 15);
    reveal_strlit("database_error");
    assert(json_escape("database_error"@) =~= "database_error"@);
}

#[verifier::spinoff_prover]
proof fn lemma_tag_unescaped_rate_limit_error()
    ensures
        json_escape("rate_limit_error"@) == "rate_limit_error"@,
{
    reveal_with_fuel(json_escape, 17);
    reveal_strlit("rate_limit_error");
    assert(json_escape("rate_limit_error"@) =~= "rate_limit_error"@);
}

#[verifier::spinoff_prover]
proof fn lemma_tag_unescaped_external_service_error()
    ensures
        json_escape("external_service_error"@) == "external_service_error"@,
{
    reveal_with_fuel(json_escape, 23);
    reveal_strlit("external_service_error");
    assert(json_escape("external_service_error"@) =~= "external_service_error"@);
}

#[verifier::spinoff_prover]
proof fn lemma_tag_unescaped_invalid_input()
    ensures
        json_escape("invalid_input"@) == "invalid_input"@,
{
    reveal_with_fuel(json_escape, 14);
    reveal_strlit("invalid_input");
    assert(json_escape("invalid_input"@) =~= "invalid_input"@);
}

#[verifier::spinoff_prover]
proof fn lemma_tag_unescaped_internal_error()
    ensures
        json_escape("internal_error"@) == "internal_error"@,
{
    reveal_with_fuel(json_escape, 15);
    reveal_strlit("internal_error");
    assert(json_escape("internal_error"@) =~= "internal_error"@);
}

/// Each wire tag passes through the JSON escaper unchanged.
proof fn lemma_tag_unescaped(k: ErrorKind)
    ensures
        json_escape(kind_type_tag(k)) == kind_type_tag(k),
{
    match k {
        ErrorKind::Authentication => lemma_tag_unescaped_authentication_error(),
        ErrorKind::Authorization => lemma_tag_unescaped_authorization_error(),
        ErrorKind::Validation => lemma_tag_unescaped_validation_error(),
        ErrorKind::NotFound => lemma_tag_unescaped_not_found(),
        ErrorKind::Conflict => lemma_tag_unescaped_conflict(),
        ErrorKind::Database => lemma_tag_unescaped_database_error(),
        ErrorKind::RateLimit => lemma_tag_unescaped_rate_limit_error(),
        ErrorKind::ExternalService => lemma_tag_unescaped_external_service_error(),
        ErrorKind::InvalidInput => lemma_tag_unescaped_invalid_input(),
        ErrorKind::Internal => lemma_tag_unescaped_internal_error(),
    }
}

proof fn lemma_until_quote_concat(t: Seq<char>, r: Seq<char>)
    requires
        forall|i: int| 0 <= i < t.len() ==> #[trigger] t[i] != '"',
        r.len() > 0,
        r[0] == '"',
    ensures
        until_quote(t + r) == t.len(),
{
    let s = t + r;
    assert forall|j: int| 0 <= j < t.len() implies s[j] != '"' by {
        assert(s[j] == t[j]);
    }
    assert(s[t.len() as int] == r[0]);
    lemma_until_quote_scan(s, t.len() as int);
}

/// Law: the canonical JSON text of an envelope maps back to the pair
/// that identifies the failure: reading the wire tag out of the text
/// recovers the kind that produced the envelope, and with it the status
/// code.
#[verifier::rlimit(100)]
#[verifier::spinoff_prover]
pub proof fn lemma_envelope_text_round_trip(resp: &ErrorResponse, k: ErrorKind)
    requires
        resp.error@ == kind_type_tag(k),
    ensures
        spec_envelope_kind(json_of_envelope(resp)) == Some((kind_status(k), k)),
{
    let s = json_of_envelope(resp);
    let tag = kind_type_tag(k);
    lemma_tag_unescaped(k);
    lemma_unescaped_is_plain(tag);
    reveal_strlit("{\"error\":\"");
    reveal_strlit("\",\"message\":\"");
    let prefix = "{\"error\":\""@;
    let mid = "\",\"message\":\""@;
    let after = mid + json_escape(resp.message@) + ("\",\"status_code\":"@ + dec_digits(
        resp.status_code as int,
    ) + (match resp.validation_errors {
        Some(v) => ",\"validation_errors\":"@ + json_of_violations(v@),
        None => Seq::<char>::empty(),
    }) + (match resp.error_code {
        Some(c) => ",\"error_code\":\""@ + json_escape(c@) + "\""@,
        None => Seq::<char>::empty(),
    }) + (match resp.help {
        Some(h) => ",\"help\":\""@ + json_escape(h@) + "\""@,
        None => Seq::<char>::empty(),
    }) + "}"@);
    assert(s =~= prefix + tag + after);
    assert(s.take(10) =~= prefix);
    assert(s.skip(10) =~= tag + after);
    assert(after[0] == '"') by {
        assert((mid)[0] == '"');
    }
    assert(after.len() > 0);
    lemma_until_quote_concat(tag, after);
    assert(until_quote(s.skip(10)) == tag.len());
    assert(s.skip(10).take(tag.len() as int) =~= tag);
    lemma_tag_identifies_kind(k);
}

} // verus!
