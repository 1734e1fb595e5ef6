//! Small shared helpers: human-readable durations and URL detection.

use vstd::prelude::*;
use crate::text::{dec_digits, has_prefix, starts_with_str, u64_to_dec};

verus! {

/// The rendering of a duration in seconds: hours, minutes and seconds when
/// at least an hour has passed, minutes and seconds when at least a minute,
/// else seconds alone. A negative duration keeps only its (negative)
/// seconds remainder, as truncating division leaves it.
pub open spec fn spec_format_duration(seconds: int) -> Seq<char> {
    if seconds < 0 {
        let r = (-seconds) % 60;
        if r == 0 {
            seq!['0', 's']
        } else {
            seq!['-'] + dec_digits(r as nat) + seq!['s']
        }
    } else {
        let h = seconds / 3600;
        let m = (seconds % 3600) / 60;
        let s = seconds % 60;
        if h > 0 {
            dec_digits(h as nat) + seq!['h', ' '] + dec_digits(m as nat) + seq!['m', ' ']
                + dec_digits(s as nat) + seq!['s']
        } else if m > 0 {
            dec_digits(m as nat) + seq!['m', ' '] + dec_digits(s as nat) + seq!['s']
        } else {
            dec_digits(s as nat) + seq!['s']
        }
    }
}

/// Format a duration in seconds to a human-readable string.
pub fn format_duration(seconds: i64) -> (r: String)
    ensures
        r@ == spec_format_duration(seconds as int),
{
    proof {
        reveal_strlit("0s");
        reveal_strlit("-");
        reveal_strlit("s");
        reveal_strlit("h ");
        reveal_strlit("m ");
    }
    if seconds < 0 {
        let mag: u64 = (-(seconds as i128)) as u64;
        let r: u64 = mag % 60;
        if r == 0 {
            let out = String::from_str("0s");
            proof {
                assert(out@ =~= seq!['0', 's']);
            }
            out
        } else {
            let mut out = String::from_str("-");
            let digits = u64_to_dec(r);
            out.append(digits.as_str());
            out.append("s");
            proof {
                assert(out@ =~= seq!['-'] + dec_digits(r as nat) + seq!['s']);
            }
            out
        }
    } else {
        let total = seconds as u64;
        let h: u64 = total / 3600;
        let m: u64 = (total % 3600) / 60;
        let s: u64 = total % 60;
        if h > 0 {
            let mut out = u64_to_dec(h);
            out.append("h ");
            let md = u64_to_dec(m);
            out.append(md.as_str());
            out.append("m ");
            let sd = u64_to_dec(s);
            out.append(sd.as_str());
            out.append("s");
            proof {
                assert(out@ =~= dec_digits(h as nat) + seq!['h', ' '] + dec_digits(m as nat)
                    + seq!['m', ' '] + dec_digits(s as nat) + seq!['s']);
            }
            out
        } else if m > 0 {
            let mut out = u64_to_dec(m);
            out.append("m ");
            let sd = u64_to_dec(s);
            out.append(sd.as_str());
            out.append("s");
            proof {
                assert(out@ =~= dec_digits(m as nat) + seq!['m', ' '] + dec_digits(s as nat)
                    + seq!['s']);
            }
            out
        } else {
            let mut out = u64_to_dec(s);
            out.append("s");
            proof {
                assert(out@ =~= dec_digits(s as nat) + seq!['s']);
            }
            out
        }
    }
}

/// Whether a string begins like a web URL.
pub open spec fn is_url_spec(s: Seq<char>) -> bool {
    has_prefix(s, "http://"@) || has_prefix(s, "https://"@)
}

/// Check if a string is a valid URL.
pub fn is_url(s: &str) -> (r: bool)
    ensures
        r == is_url_spec(s@),
{
    starts_with_str(s, "http://") || starts_with_str(s, "https://")
}

} // verus!
