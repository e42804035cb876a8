//! Parsers for the textual wire sub-formats: comma-separated `key=value`
//! fields with no escaping, so values must not contain commas.

use vstd::prelude::*;

verus! {

/// ASCII comma.
pub open spec fn comma() -> u8 {
    0x2c
}

/// ASCII `=`.
pub open spec fn equals_sign() -> u8 {
    0x3d
}

/// True when `b` is an ASCII decimal digit.
pub open spec fn is_digit(b: u8) -> bool {
    0x30 <= b && b <= 0x39
}

/// True when `s` consists of decimal digits only.
pub open spec fn all_digits(s: Seq<u8>) -> bool {
    forall|i: int| 0 <= i < s.len() ==> is_digit(s[i])
}

/// The number the decimal digit string `s` denotes.
pub open spec fn dec_value(s: Seq<u8>) -> int
    recommends
        all_digits(s),
    decreases s.len(),
{
    if s.len() == 0 {
        0
    } else {
        dec_value(s.drop_last()) * 10 + (s.last() - 0x30)
    }
}

/// The index of the first comma at or after `from`, or the length if none.
pub open spec fn find_comma(s: Seq<u8>, from: int) -> int
    recommends
        0 <= from <= s.len(),
    decreases s.len() - from when 0 <= from <= s.len()
{
    if from >= s.len() {
        s.len() as int
    } else if s[from] == comma() {
        from
    } else {
        find_comma(s, from + 1)
    }
}

/// The three comma-separated fields of a server-first message, if it has
/// exactly two commas' worth of structure.
pub open spec fn three_fields(s: Seq<u8>) -> Option<(Seq<u8>, Seq<u8>, Seq<u8>)> {
    let c1 = find_comma(s, 0);
    let c2 = find_comma(s, c1 + 1);
    if c1 < s.len() && c2 < s.len() {
        Some(
            (
                s.subrange(0, c1),
                s.subrange(c1 + 1, c2),
                s.subrange(c2 + 1, s.len() as int),
            ),
        )
    } else {
        None
    }
}

/// The value of a `<tag>=<value>` field, if the field carries that tag.
pub open spec fn tagged_value(field: Seq<u8>, tag: u8) -> Option<Seq<u8>> {
    if field.len() >= 2 && field[0] == tag && field[1] == equals_sign() {
        Some(field.skip(2))
    } else {
        None
    }
}

/// The parsed server-first message `r=<rnonce>,s=<salt>,i=<count>`:
/// the server nonce, the (still encoded) salt, and the iteration count.
pub open spec fn parse_server_first_spec(s: Seq<u8>) -> Option<(Seq<u8>, Seq<u8>, int)> {
    match three_fields(s) {
        Some(fields) => match (
            tagged_value(fields.0, 0x72),  // 'r'
            tagged_value(fields.1, 0x73),  // 's'
            tagged_value(fields.2, 0x69),  // 'i'
        ) {
            (Some(rnonce), Some(salt), Some(digits)) => {
                if digits.len() > 0 && all_digits(digits) && dec_value(digits) <= u32::MAX {
                    Some((rnonce, salt, dec_value(digits)))
                } else {
                    None
                }
            },
            _ => None,
        },
        None => None,
    }
}

/// The verifier of a server-final payload `v=<verifier>`.
pub open spec fn parse_server_final_spec(s: Seq<u8>) -> Option<Seq<u8>> {
    tagged_value(s, 0x76)  // 'v'
}

/// The digits of a string denote at least what any prefix of them denotes.
proof fn lemma_dec_value_prefix(s: Seq<u8>, j: int)
    requires
        all_digits(s),
        0 <= j <= s.len(),
    ensures
        dec_value(s) >= dec_value(s.take(j)) >= 0,
    decreases s.len() - j,
{
    if j == s.len() {
        assert(s.take(j) =~= s);
        lemma_dec_value_nonneg(s);
    } else {
        lemma_dec_value_prefix(s.drop_last(), j);
        assert(s.drop_last().take(j) =~= s.take(j));
        lemma_dec_value_nonneg(s);
    }
}

/// A digit string denotes a non-negative number.
proof fn lemma_dec_value_nonneg(s: Seq<u8>)
    requires
        all_digits(s),
    ensures
        dec_value(s) >= 0,
    decreases s.len(),
{
    if s.len() > 0 {
        lemma_dec_value_nonneg(s.drop_last());
    }
}

/// Parses a decimal `u32`; `None` on an empty string, a non-digit, or a
/// value that does not fit.
pub fn parse_u32(s: &[u8]) -> (r: Option<u32>)
    ensures
        match r {
            Some(v) => s@.len() > 0 && all_digits(s@) && v == dec_value(s@),
            None => s@.len() == 0 || !all_digits(s@) || dec_value(s@) > u32::MAX,
        },
{
    let n = s.len();
    if n == 0 {
        return None;
    }
    let mut acc: u64 = 0;
    let mut i: usize = 0;
    while i < n
        invariant
            n == s@.len(),
            0 <= i <= n,
            all_digits(s@.take(i as int)),
            acc == dec_value(s@.take(i as int)),
            acc <= u32::MAX,
        decreases n - i,
    {
        let b = s[i];
        if b < 0x30 || b > 0x39 {
            assert(!is_digit(s@[i as int]));
            return None;
        }
        let next: u64 = acc * 10 + ((b - 0x30) as u64);
        proof {
            assert(s@.take(i as int + 1).drop_last() =~= s@.take(i as int));
            assert(s@.take(i as int + 1).last() == s@[i as int]);
        }
        if next > u32::MAX as u64 {
            proof {
                if all_digits(s@) {
                    lemma_dec_value_prefix(s@, i as int + 1);
                }
            }
            return None;
        }
        acc = next;
        i += 1;
    }
    proof {
        assert(s@.take(n as int) =~= s@);
    }
    Some(acc as u32)
}

/// The server-first message a compliant server assembles from its nonce,
/// its encoded salt, and the decimal digits of its iteration count.
pub open spec fn server_first_message_spec(rnonce: Seq<u8>, salt: Seq<u8>, digits: Seq<u8>) -> Seq<
    u8,
> {
    seq![0x72u8, 0x3d] + rnonce + seq![comma()] + seq![0x73u8, 0x3d] + salt + seq![comma()]
        + seq![0x69u8, 0x3d] + digits
}

/// Round trip: a server-first message assembled from comma-free fields
/// parses back to exactly those fields.
pub proof fn lemma_server_first_round_trip(rnonce: Seq<u8>, salt: Seq<u8>, digits: Seq<u8>)
    requires
        !rnonce.contains(comma()),
        !salt.contains(comma()),
        digits.len() > 0,
        all_digits(digits),
        dec_value(digits) <= u32::MAX,
    ensures
        parse_server_first_spec(server_first_message_spec(rnonce, salt, digits)) == Some(
            (rnonce, salt, dec_value(digits)),
        ),
{
    let s = server_first_message_spec(rnonce, salt, digits);
    let c1 = 2 + rnonce.len() as int;
    let c2 = c1 + 3 + salt.len() as int;
    assert forall|k: int| 0 <= k < c1 implies s[k] != comma() by {
        if 2 <= k {
            assert(s[k] == rnonce[k - 2]);
            if s[k] == comma() {
                assert(rnonce.contains(comma()));
            }
        }
    }
    assert(s[c1] == comma());
    lemma_find_comma_at(s, 0, c1);
    assert forall|k: int| c1 + 1 <= k < c2 implies s[k] != comma() by {
        if c1 + 3 <= k {
            assert(s[k] == salt[k - (c1 + 3)]);
            if s[k] == comma() {
                assert(salt.contains(comma()));
            }
        }
    }
    assert(s[c2] == comma());
    lemma_find_comma_at(s, c1 + 1, c2);
    assert(s.subrange(0, c1) =~= seq![0x72u8, 0x3d] + rnonce);
    assert(s.subrange(c1 + 1, c2) =~= seq![0x73u8, 0x3d] + salt);
    assert(s.subrange(c2 + 1, s.len() as int) =~= seq![0x69u8, 0x3d] + digits);
    assert((seq![0x72u8, 0x3d] + rnonce).skip(2) =~= rnonce);
    assert((seq![0x73u8, 0x3d] + salt).skip(2) =~= salt);
    assert((seq![0x69u8, 0x3d] + digits).skip(2) =~= digits);
}

/// Shows where the first comma at or after `from` sits.
proof fn lemma_find_comma_at(s: Seq<u8>, from: int, at: int)
    requires
        0 <= from <= at <= s.len(),
        forall|k: int| from <= k < at ==> s[k] != comma(),
        at == s.len() || s[at] == comma(),
    ensures
        find_comma(s, from) == at,
    decreases at - from,
{
    if from < at {
        lemma_find_comma_at(s, from + 1, at);
    }
}

/// Scans for the first comma at or after `from`.
fn scan_comma(s: &[u8], from: usize) -> (r: usize)
    requires
        from <= s@.len(),
    ensures
        from <= r <= s@.len(),
        r == find_comma(s@, from as int),
{
    let n = s.len();
    let mut i: usize = from;
    while i < n
        invariant
            from <= i <= n,
            n == s@.len(),
            forall|k: int| from <= k < i ==> s@[k] != comma(),
        decreases n - i,
    {
        if s[i] == 0x2c {
            proof {
                lemma_find_comma_at(s@, from as int, i as int);
            }
            return i;
        }
        i += 1;
    }
    proof {
        lemma_find_comma_at(s@, from as int, n as int);
    }
    n
}

/// The value of a `<tag>=<value>` field, if the field carries that tag.
fn strip_tag(field: &[u8], tag: u8) -> (r: Option<&[u8]>)
    ensures
        match r {
            Some(v) => tagged_value(field@, tag) == Some(v@),
            None => tagged_value(field@, tag) is None,
        },
{
    if field.len() >= 2 && field[0] == tag && field[1] == 0x3d {
        let rest = vstd::slice::slice_subrange(field, 2, field.len());
        proof {
            assert(rest@ =~= field@.skip(2));
        }
        Some(rest)
    } else {
        None
    }
}

/// Parses a server-first message `r=<rnonce>,s=<salt>,i=<count>`.
pub fn parse_server_first(s: &[u8]) -> (r: Option<(Vec<u8>, Vec<u8>, u32)>)
    ensures
        match r {
            Some(t) => parse_server_first_spec(s@) == Some((t.0@, t.1@, t.2 as int)),
            None => parse_server_first_spec(s@) is None,
        },
{
    let n = s.len();
    let c1 = scan_comma(s, 0);
    if c1 >= n {
        return None;
    }
    let c2 = scan_comma(s, c1 + 1);
    if c2 >= n {
        return None;
    }
    let f1 = vstd::slice::slice_subrange(s, 0, c1);
    let f2 = vstd::slice::slice_subrange(s, c1 + 1, c2);
    let f3 = vstd::slice::slice_subrange(s, c2 + 1, n);
    let rnonce = match strip_tag(f1, 0x72) {
        Some(v) => v,
        None => {
            return None;
        },
    };
    let salt = match strip_tag(f2, 0x73) {
        Some(v) => v,
        None => {
            return None;
        },
    };
    let digits = match strip_tag(f3, 0x69) {
        Some(v) => v,
        None => {
            return None;
        },
    };
    let count = match parse_u32(digits) {
        Some(v) => v,
        None => {
            return None;
        },
    };
    Some((vstd::slice::slice_to_vec(rnonce), vstd::slice::slice_to_vec(salt), count))
}

/// Parses a server-final payload `v=<verifier>`.
pub fn parse_server_final(s: &[u8]) -> (r: Option<Vec<u8>>)
    ensures
        match r {
            Some(v) => parse_server_final_spec(s@) == Some(v@),
            None => parse_server_final_spec(s@) is None,
        },
{
    match strip_tag(s, 0x76) {
        Some(v) => Some(vstd::slice::slice_to_vec(v)),
        None => None,
    }
}

} // verus!
