//! Decoding of the text command plane. Each message is one token of the
//! form `COMMAND:VALUE`; a token without a separator is ignored, an unknown
//! command or an unusable value is a protocol error, fatal to the
//! originating connection only. Exposure values are decimal seconds with up
//! to millisecond precision and are carried as thousandths of a second.
use vstd::prelude::*;
use vstd::string::StrSliceExecFns;
use vstd::string::StringSliceAdditionalSpecFns;

use crate::camera_controller::ControlMessages;

verus! {

/// A malformed command token.
#[derive(Clone, Copy, Debug, PartialEq, Eq, Structural)]
pub enum ProtocolError {
    UnknownCommand,
    InvalidValue,
}

pub open spec fn is_digit(b: u8) -> bool {
    48 <= b <= 57
}

pub open spec fn all_digits(s: Seq<u8>) -> bool {
    forall|i: int| 0 <= i < s.len() ==> is_digit(#[trigger] s[i])
}

/// The number a string of decimal digits denotes.
pub open spec fn digits_value(s: Seq<u8>) -> int
    decreases s.len(),
{
    if s.len() == 0 {
        0
    } else {
        digits_value(s.drop_last()) * 10 + (s.last() - 48)
    }
}

/// The index of the first occurrence of `b` in `s`, if any.
pub open spec fn find_byte(s: Seq<u8>, b: u8) -> Option<int>
    decreases s.len(),
{
    if s.len() == 0 {
        None
    } else if s[0] == b {
        Some(0int)
    } else {
        match find_byte(s.skip(1), b) {
            Some(i) => Some(i + 1),
            None => None,
        }
    }
}

proof fn lemma_digits_value_nonneg(s: Seq<u8>)
    requires
        all_digits(s),
    ensures
        digits_value(s) >= 0,
    decreases s.len(),
{
    if s.len() > 0 {
        assert(all_digits(s.drop_last()));
        lemma_digits_value_nonneg(s.drop_last());
    }
}

/// Reading one more digit multiplies the value so far by ten and adds it.
proof fn lemma_digits_value_step(s: Seq<u8>, j: int)
    requires
        0 <= j < s.len(),
    ensures
        digits_value(s.take(j + 1)) == digits_value(s.take(j)) * 10 + (s[j] - 48),
{
    assert(s.take(j + 1).drop_last() =~= s.take(j));
    assert(s.take(j + 1).last() == s[j]);
}

/// A digit string is worth at least any of its prefixes.
proof fn lemma_digits_value_prefix(s: Seq<u8>, j: int)
    requires
        all_digits(s),
        0 <= j <= s.len(),
    ensures
        digits_value(s.take(j)) <= digits_value(s),
    decreases s.len() - j,
{
    if j == s.len() {
        assert(s.take(j) =~= s);
    } else {
        lemma_digits_value_step(s, j);
        assert(all_digits(s.take(j)));
        lemma_digits_value_nonneg(s.take(j));
        lemma_digits_value_prefix(s, j + 1);
    }
}

/// What `str::parse::<i32>` accepts and returns: an optional sign, then at
/// least one digit and nothing else, within the type's range.
pub open spec fn spec_parse_i32(s: Seq<u8>) -> Option<i32> {
    let neg = s.len() > 0 && s[0] == 45;
    let ds = if s.len() > 0 && (s[0] == 43 || s[0] == 45) {
        s.skip(1)
    } else {
        s
    };
    if ds.len() == 0 || !all_digits(ds) {
        None
    } else {
        let v = if neg {
            -digits_value(ds)
        } else {
            digits_value(ds)
        };
        if i32::MIN <= v <= i32::MAX {
            Some(v as i32)
        } else {
            None
        }
    }
}

/// Parses the digit run `s` into `r`, or reports that its value exceeds
/// `2^31` (the largest magnitude any signed 32-bit parse can need).
fn parse_digits_u31(s: &[u8]) -> (r: Option<i64>)
    requires
        all_digits(s@),
    ensures
        match r {
            Some(v) => v == digits_value(s@) && 0 <= v <= 2147483648i64,
            None => digits_value(s@) > 2147483648i64,
        },
{
    let mut acc: i64 = 0;
    let mut j: usize = 0;
    proof {
        assert(s@.take(0) =~= Seq::<u8>::empty());
    }
    while j < s.len()
        invariant
            all_digits(s@),
            j <= s@.len(),
            acc == digits_value(s@.take(j as int)),
            0 <= acc <= 2147483648i64,
        decreases s@.len() - j,
    {
        proof {
            lemma_digits_value_step(s@, j as int);
        }
        let d = s[j];
        acc = acc * 10 + ((d - 48) as i64);
        j += 1;
        if acc > 2147483648i64 {
            proof {
                lemma_digits_value_prefix(s@, j as int);
            }
            return None;
        }
    }
    proof {
        assert(s@.take(s@.len() as int) =~= s@);
    }
    Some(acc)
}

/// Parses a signed 32-bit value, with the grammar of str::parse::<i32>.
#[verifier::loop_isolation(false)]
pub fn parse_i32(s: &[u8]) -> (r: Option<i32>)
    ensures
        r == spec_parse_i32(s@),
{
    let (neg, start): (bool, usize) = if s.len() > 0 && (s[0] == 43 || s[0] == 45) {
        (s[0] == 45, 1)
    } else {
        (false, 0)
    };
    let ds = &s[start..s.len()];
    proof {
        if start == 1 {
            assert(ds@ =~= s@.skip(1));
        } else {
            assert(ds@ =~= s@);
        }
    }
    if ds.len() == 0 {
        return None;
    }
    let mut j: usize = 0;
    while j < ds.len()
        invariant
            j <= ds@.len(),
            forall|i: int| 0 <= i < j ==> is_digit(#[trigger] ds@[i]),
        decreases ds@.len() - j,
    {
        let d = ds[j];
        if d < 48 || d > 57 {
            return None;
        }
        j += 1;
    }
    assert(all_digits(ds@));
    match parse_digits_u31(ds) {
        None => None,
        Some(v) => {
            if neg {
                if v <= 2147483648i64 {
                    Some((-v) as i32)
                } else {
                    None
                }
            } else {
                if v <= 2147483647i64 {
                    Some(v as i32)
                } else {
                    None
                }
            }
        },
    }
}

/// The first three fractional digits as thousandths, padded with zeros:
/// what truncating the decimal fraction at millisecond precision keeps.
pub open spec fn frac_thousandths(fr: Seq<u8>) -> int {
    if fr.len() == 0 {
        0
    } else if fr.len() == 1 {
        digits_value(fr) * 100
    } else if fr.len() == 2 {
        digits_value(fr) * 10
    } else {
        digits_value(fr.take(3))
    }
}

/// What the exposure value text denotes, in thousandths of a second,
/// truncated toward zero: an optional sign, a decimal number written as
/// digits with at most one point and at least one digit, within the range
/// of a signed 64-bit count of thousandths.
pub open spec fn spec_parse_exposure(s: Seq<u8>) -> Option<i64> {
    let neg = s.len() > 0 && s[0] == 45;
    let t = if s.len() > 0 && (s[0] == 43 || s[0] == 45) {
        s.skip(1)
    } else {
        s
    };
    let parts = match find_byte(t, 46) {
        None => (t, Seq::<u8>::empty()),
        Some(d) => (t.take(d), t.skip(d + 1)),
    };
    if !(all_digits(parts.0) && all_digits(parts.1)) || parts.0.len() + parts.1.len() == 0 {
        None
    } else {
        let magnitude = digits_value(parts.0) * 1000 + frac_thousandths(parts.1);
        if magnitude > i64::MAX {
            None
        } else if neg {
            Some((-magnitude) as i64)
        } else {
            Some(magnitude as i64)
        }
    }
}

/// Scans for `b` and relates the scan's outcome to `find_byte`.
fn scan_byte(s: &[u8], b: u8) -> (r: usize)
    ensures
        r <= s@.len(),
        r < s@.len() ==> find_byte(s@, b) == Some(r as int),
        r == s@.len() ==> find_byte(s@, b) is None,
{
    let mut i: usize = 0;
    while i < s.len()
        invariant
            i <= s@.len(),
            forall|j: int| 0 <= j < i ==> s@[j] != b,
        decreases s@.len() - i,
    {
        if s[i] == b {
            proof {
                lemma_find_byte_scan(s@, b, i as int);
            }
            return i;
        }
        i += 1;
    }
    proof {
        lemma_find_byte_scan(s@, b, s@.len() as int);
    }
    s.len()
}

proof fn lemma_find_byte_scan(s: Seq<u8>, b: u8, i: int)
    requires
        0 <= i <= s.len(),
        forall|j: int| 0 <= j < i ==> s[j] != b,
        i < s.len() ==> s[i] == b,
    ensures
        find_byte(s, b) == if i < s.len() {
            Some(i)
        } else {
            None::<int>
        },
    decreases s.len(),
{
    if s.len() > 0 {
        if i > 0 {
            assert(s.skip(1)[i - 1] == s[i] || i == s.len());
            lemma_find_byte_scan(s.skip(1), b, i - 1);
        }
    }
}

/// Parses an exposure given in decimal seconds into whole thousandths of a
/// second, truncating toward zero.
#[verifier::loop_isolation(false)]
pub fn parse_exposure_thousandths(s: &[u8]) -> (r: Option<i64>)
    ensures
        r == spec_parse_exposure(s@),
{
    let (neg, start): (bool, usize) = if s.len() > 0 && (s[0] == 43 || s[0] == 45) {
        (s[0] == 45, 1)
    } else {
        (false, 0)
    };
    let t = &s[start..s.len()];
    proof {
        if start == 1 {
            assert(t@ =~= s@.skip(1));
        } else {
            assert(t@ =~= s@);
        }
    }
    let dot = scan_byte(t, 46);
    let int_part = &t[0..dot];
    let frac_part = if dot < t.len() {
        &t[dot + 1..t.len()]
    } else {
        &t[t.len()..t.len()]
    };
    proof {
        if dot < t@.len() {
            assert(int_part@ =~= t@.take(dot as int));
            assert(frac_part@ =~= t@.skip(dot as int + 1));
        } else {
            assert(int_part@ =~= t@);
            assert(int_part@ =~= t@.take(t@.len() as int));
            assert(frac_part@ =~= Seq::<u8>::empty());
        }
    }
    if int_part.len() == 0 && frac_part.len() == 0 {
        return None;
    }
    let mut j: usize = 0;
    while j < int_part.len()
        invariant
            j <= int_part@.len(),
            forall|i: int| 0 <= i < j ==> is_digit(#[trigger] int_part@[i]),
        decreases int_part@.len() - j,
    {
        let d = int_part[j];
        if d < 48 || d > 57 {
            return None;
        }
        j += 1;
    }
    assert(all_digits(int_part@));
    let mut k: usize = 0;
    while k < frac_part.len()
        invariant
            k <= frac_part@.len(),
            forall|i: int| 0 <= i < k ==> is_digit(#[trigger] frac_part@[i]),
        decreases frac_part@.len() - k,
    {
        let d = frac_part[k];
        if d < 48 || d > 57 {
            return None;
        }
        k += 1;
    }
    assert(all_digits(frac_part@));

    match parse_digits_whole(int_part) {
        None => {
            proof {
                lemma_digits_value_nonneg(frac_part@);
                lemma_frac_thousandths_nonneg(frac_part@);
            }
            None
        },
        Some(whole) => {
            let frac = parse_frac_thousandths(frac_part);
            let scaled = whole * 1000;
            if frac > i64::MAX - scaled {
                None
            } else {
                let magnitude = scaled + frac;
                if neg {
                    Some(-magnitude)
                } else {
                    Some(magnitude)
                }
            }
        },
    }
}

proof fn lemma_frac_thousandths_nonneg(fr: Seq<u8>)
    requires
        all_digits(fr),
    ensures
        0 <= frac_thousandths(fr) <= 999,
{
    if fr.len() == 0 {
    } else if fr.len() == 1 {
        lemma_digits_value_nonneg(fr);
        lemma_digits_value_bound(fr);
    } else if fr.len() == 2 {
        lemma_digits_value_nonneg(fr);
        lemma_digits_value_bound(fr);
    } else {
        assert(all_digits(fr.take(3)));
        lemma_digits_value_nonneg(fr.take(3));
        lemma_digits_value_bound(fr.take(3));
    }
}

/// A run of `n` digits is worth less than `10^n` (stated for the short
/// runs the fraction needs).
proof fn lemma_digits_value_bound(s: Seq<u8>)
    requires
        all_digits(s),
        s.len() <= 3,
    ensures
        digits_value(s) < 1000,
        s.len() <= 2 ==> digits_value(s) < 100,
        s.len() <= 1 ==> digits_value(s) < 10,
    decreases s.len(),
{
    if s.len() > 0 {
        assert(all_digits(s.drop_last()));
        lemma_digits_value_bound(s.drop_last());
    }
}

/// Parses the whole-seconds digit run, or reports that it is too large for
/// any exposure value to fit in thousandths.
fn parse_digits_whole(s: &[u8]) -> (r: Option<i64>)
    requires
        all_digits(s@),
    ensures
        match r {
            Some(v) => v == digits_value(s@) && 0 <= v <= 9223372036854775i64,
            None => digits_value(s@) * 1000 > i64::MAX,
        },
{
    let mut acc: i64 = 0;
    let mut j: usize = 0;
    proof {
        assert(s@.take(0) =~= Seq::<u8>::empty());
    }
    while j < s.len()
        invariant
            all_digits(s@),
            j <= s@.len(),
            acc == digits_value(s@.take(j as int)),
            0 <= acc <= 9223372036854775i64,
        decreases s@.len() - j,
    {
        proof {
            lemma_digits_value_step(s@, j as int);
        }
        let d = s[j];
        acc = acc * 10 + ((d - 48) as i64);
        j += 1;
        if acc > 9223372036854775i64 {
            proof {
                lemma_digits_value_prefix(s@, j as int);
            }
            return None;
        }
    }
    proof {
        assert(s@.take(s@.len() as int) =~= s@);
    }
    Some(acc)
}

/// The value of the first three fractional digits, as thousandths.
fn parse_frac_thousandths(s: &[u8]) -> (r: i64)
    requires
        all_digits(s@),
    ensures
        r == frac_thousandths(s@),
        0 <= r <= 999,
{
    proof {
        lemma_frac_thousandths_nonneg(s@);
    }
    if s.len() == 0 {
        0
    } else if s.len() == 1 {
        proof {
            reveal_with_fuel(digits_value, 2);
            assert(s@.drop_last() =~= Seq::<u8>::empty());
            assert(digits_value(s@) == s@[0] - 48);
        }
        ((s[0] - 48) as i64) * 100
    } else if s.len() == 2 {
        proof {
            reveal_with_fuel(digits_value, 3);
            assert(s@.drop_last().drop_last() =~= Seq::<u8>::empty());
            assert(s@.drop_last().last() == s@[0]);
            assert(digits_value(s@.drop_last()) == s@[0] - 48);
            assert(digits_value(s@) == (s@[0] - 48) * 10 + (s@[1] - 48));
        }
        (((s[0] - 48) as i64) * 10 + ((s[1] - 48) as i64)) * 10
    } else {
        proof {
            reveal_with_fuel(digits_value, 4);
            let f3 = s@.take(3);
            assert(f3.drop_last() =~= s@.take(2));
            assert(s@.take(2).drop_last() =~= s@.take(1));
            assert(s@.take(1).drop_last() =~= Seq::<u8>::empty());
            assert(f3.last() == s@[2]);
            assert(s@.take(2).last() == s@[1]);
            assert(s@.take(1).last() == s@[0]);
            assert(digits_value(s@.take(1)) == s@[0] - 48);
            assert(digits_value(s@.take(2)) == (s@[0] - 48) * 10 + (s@[1] - 48));
            assert(digits_value(f3) == ((s@[0] - 48) * 10 + (s@[1] - 48)) * 10 + (s@[2] - 48));
        }
        (((s[0] - 48) as i64) * 10 + ((s[1] - 48) as i64)) * 10 + ((s[2] - 48) as i64)
    }
}

/// What one command token means: `Ok(None)` for a token without a
/// separator (ignored), the decoded message for the known commands, a
/// protocol error for an unknown command or an unusable value.
pub open spec fn spec_parse_command(s: Seq<u8>) -> Result<Option<ControlMessages>, ProtocolError> {
    match find_byte(s, 58) {
        None => Ok(None),
        Some(i) => {
            let cmd = s.take(i);
            let val = s.skip(i + 1);
            if cmd == "SET_GAIN".spec_bytes() {
                match spec_parse_i32(val) {
                    Some(v) => Ok(Some(ControlMessages::SetGain(v))),
                    None => Err(ProtocolError::InvalidValue),
                }
            } else if cmd == "SET_EXPOSURE".spec_bytes() {
                match spec_parse_exposure(val) {
                    Some(v) => Ok(Some(ControlMessages::SetExposure(v))),
                    None => Err(ProtocolError::InvalidValue),
                }
            } else if cmd == "SET_WB_B".spec_bytes() {
                match spec_parse_i32(val) {
                    Some(v) => Ok(Some(ControlMessages::SetWbB(v))),
                    None => Err(ProtocolError::InvalidValue),
                }
            } else if cmd == "SET_WB_R".spec_bytes() {
                match spec_parse_i32(val) {
                    Some(v) => Ok(Some(ControlMessages::SetWbR(v))),
                    None => Err(ProtocolError::InvalidValue),
                }
            } else if cmd == "SWITCH_OUTPUT".spec_bytes() {
                Ok(Some(ControlMessages::SwitchOutput))
            } else if cmd == "START_CAPTURE".spec_bytes() {
                match spec_parse_i32(val) {
                    Some(v) => Ok(Some(ControlMessages::StartCapture(v))),
                    None => Err(ProtocolError::InvalidValue),
                }
            } else {
                Err(ProtocolError::UnknownCommand)
            }
        },
    }
}

/// Whether two byte strings are the same.
fn bytes_eq(a: &[u8], b: &[u8]) -> (r: bool)
    ensures
        r == (a@ == b@),
{
    if a.len() != b.len() {
        return false;
    }
    let mut i: usize = 0;
    while i < a.len()
        invariant
            a@.len() == b@.len(),
            i <= a@.len(),
            forall|j: int| 0 <= j < i ==> a@[j] == b@[j],
        decreases a@.len() - i,
    {
        if a[i] != b[i] {
            return false;
        }
        i += 1;
    }
    proof {
        assert(a@ =~= b@);
    }
    true
}

/// Decodes one command token from its raw bytes.
pub fn parse_command_bytes(s: &[u8]) -> (r: Result<Option<ControlMessages>, ProtocolError>)
    ensures
        r == spec_parse_command(s@),
{
    let colon = scan_byte(s, 58);
    if colon == s.len() {
        return Ok(None);
    }
    let cmd = &s[0..colon];
    let val = &s[colon + 1..s.len()];
    proof {
        assert(cmd@ =~= s@.take(colon as int));
        assert(val@ =~= s@.skip(colon as int + 1));
    }
    if bytes_eq(cmd, "SET_GAIN".as_bytes()) {
        match parse_i32(val) {
            Some(v) => Ok(Some(ControlMessages::SetGain(v))),
            None => Err(ProtocolError::InvalidValue),
        }
    } else if bytes_eq(cmd, "SET_EXPOSURE".as_bytes()) {
        match parse_exposure_thousandths(val) {
            Some(v) => Ok(Some(ControlMessages::SetExposure(v))),
            None => Err(ProtocolError::InvalidValue),
        }
    } else if bytes_eq(cmd, "SET_WB_B".as_bytes()) {
        match parse_i32(val) {
            Some(v) => Ok(Some(ControlMessages::SetWbB(v))),
            None => Err(ProtocolError::InvalidValue),
        }
    } else if bytes_eq(cmd, "SET_WB_R".as_bytes()) {
        match parse_i32(val) {
            Some(v) => Ok(Some(ControlMessages::SetWbR(v))),
            None => Err(ProtocolError::InvalidValue),
        }
    } else if bytes_eq(cmd, "SWITCH_OUTPUT".as_bytes()) {
        Ok(Some(ControlMessages::SwitchOutput))
    } else if bytes_eq(cmd, "START_CAPTURE".as_bytes()) {
        match parse_i32(val) {
            Some(v) => Ok(Some(ControlMessages::StartCapture(v))),
            None => Err(ProtocolError::InvalidValue),
        }
    } else {
        Err(ProtocolError::UnknownCommand)
    }
}

/// Decodes one command token as delivered by the transport.
pub fn parse_command(text: &str) -> (r: Result<Option<ControlMessages>, ProtocolError>)
    ensures
        r == spec_parse_command(text.spec_bytes()),
{
    let bytes = text.as_bytes_vec();
    parse_command_bytes(bytes.as_slice())
}

} // verus!
