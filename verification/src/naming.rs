//! Session display names.
//!
//! A session is shown under the owning process's image name, with a
//! trailing `.exe`/`.EXE` suffix stripped and the first character
//! capitalized; a process that cannot be resolved is shown as
//! `App ID <pid>`.

use vstd::prelude::*;
use crate::text::chars_of_str;
use crate::text::string_of_chars;

verus! {

/// What char::to_uppercase yields for a character.
pub uninterp spec fn upper_of(c: char) -> Seq<char>;

/// Relies on char::to_uppercase: the unconditional Unicode uppercase
/// mapping of the character, one or more characters, a function of the
/// character alone.
#[verifier::external_body]
fn char_upper(c: char) -> (r: Vec<char>)
    ensures
        r@ == upper_of(c),
        r@.len() >= 1,
{
    c.to_uppercase().collect()
}

/// The name ends in `.exe` or `.EXE`.
pub open spec fn spec_ends_exe(s: Seq<char>) -> bool {
    s.len() >= 4 && s[s.len() - 4] == '.' && ((s[s.len() - 3] == 'e' && s[s.len() - 2] == 'x'
        && s[s.len() - 1] == 'e') || (s[s.len() - 3] == 'E' && s[s.len() - 2] == 'X' && s[s.len()
        - 1] == 'E'))
}

/// The display name derived from a raw process image name: the trailing
/// `.exe`/`.EXE` suffix is stripped, then the first character is
/// capitalized; an empty name stays empty.
pub open spec fn spec_sanitize(raw: Seq<char>) -> Seq<char> {
    let stripped = if spec_ends_exe(raw) {
        raw.take(raw.len() - 4)
    } else {
        raw
    };
    if stripped.len() == 0 {
        stripped
    } else {
        upper_of(stripped[0]) + stripped.drop_first()
    }
}

/// Derive the display name of a resolved process from its raw image name.
pub fn sanitize_name(raw: &str) -> (out: String)
    ensures
        out@ == spec_sanitize(raw@),
{
    let mut v = chars_of_str(raw);
    let n = v.len();
    let ends = n >= 4 && v[n - 4] == '.' && ((v[n - 3] == 'e' && v[n - 2] == 'x' && v[n - 1]
        == 'e') || (v[n - 3] == 'E' && v[n - 2] == 'X' && v[n - 1] == 'E'));
    if ends {
        v.truncate(n - 4);
    }
    proof {
        assert(v@ =~= (if spec_ends_exe(raw@) {
            raw@.take(raw@.len() - 4)
        } else {
            raw@
        }));
    }
    if v.len() == 0 {
        return string_of_chars(&v);
    }
    let first = v.remove(0);
    let mut up = char_upper(first);
    up.append(&mut v);
    proof {
        assert(up@ =~= spec_sanitize(raw@));
    }
    string_of_chars(&up)
}

/// The decimal digit character for `d` (meaningful for `d < 10`).
pub open spec fn spec_digit(d: nat) -> char {
    ((48 + d) as u8) as char
}

/// The decimal rendering of `n`, most significant digit first, with no
/// sign and no leading zero except for `n == 0` itself.
pub open spec fn spec_decimal(n: nat) -> Seq<char>
    decreases n,
{
    if n < 10 {
        seq![spec_digit(n)]
    } else {
        spec_decimal(n / 10).push(spec_digit(n % 10))
    }
}

/// Render `n` in decimal.
pub fn decimal_of_u32(n: u32) -> (v: Vec<char>)
    ensures
        v@ == spec_decimal(n as nat),
{
    let mut rev: Vec<char> = Vec::new();
    let mut m: u32 = n;
    loop
        invariant_except_break
            spec_decimal(n as nat) =~= spec_decimal(m as nat) + rev@.reverse(),
        ensures
            spec_decimal(n as nat) =~= rev@.reverse(),
        decreases m,
    {
        let d: char = (48 + (m % 10) as u8) as char;
        proof {
            assert(rev@.push(d).reverse() =~= seq![d] + rev@.reverse());
        }
        rev.push(d);
        if m < 10 {
            proof {
                assert(spec_decimal(m as nat) =~= seq![d]);
            }
            break;
        }
        m = m / 10;
    }
    let mut out: Vec<char> = Vec::new();
    let mut j: usize = rev.len();
    while j > 0
        invariant
            j <= rev@.len(),
            out@.len() == rev@.len() - j,
            forall|k: int| 0 <= k < out@.len() ==> out@[k] == rev@[rev@.len() - 1 - k],
        decreases j,
    {
        j = j - 1;
        out.push(rev[j]);
    }
    proof {
        assert(out@ =~= rev@.reverse());
    }
    out
}

/// The characters that open the fallback name of an unresolvable process.
pub open spec fn spec_app_id_prefix() -> Seq<char> {
    seq!['A', 'p', 'p', ' ', 'I', 'D', ' ']
}

/// The display name of a session: the sanitized image name where the
/// process resolved, and `App ID <pid>` where it did not.
pub open spec fn spec_display_name(pid: u32, raw: Option<Seq<char>>) -> Seq<char> {
    match raw {
        Some(r) => spec_sanitize(r),
        None => spec_app_id_prefix() + spec_decimal(pid as nat),
    }
}

/// The character sequences of an optional raw name.
pub open spec fn opt_chars(o: Option<String>) -> Option<Seq<char>> {
    match o {
        Some(s) => Some(s@),
        None => None,
    }
}

/// Derive a session's display name from the snapshot's answer for its pid.
pub fn display_name(pid: u32, raw: Option<String>) -> (out: String)
    ensures
        out@ == spec_display_name(pid, opt_chars(raw)),
{
    match raw {
        Some(s) => sanitize_name(s.as_str()),
        None => {
            let mut v: Vec<char> = Vec::new();
            v.push('A');
            v.push('p');
            v.push('p');
            v.push(' ');
            v.push('I');
            v.push('D');
            v.push(' ');
            let mut digits = decimal_of_u32(pid);
            v.append(&mut digits);
            proof {
                assert(v@ =~= spec_app_id_prefix() + spec_decimal(pid as nat));
            }
            string_of_chars(&v)
        },
    }
}

} // verus!
