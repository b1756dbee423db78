//! Binary PPM images: a whitespace-separated header of magic, width,
//! height and maximum value, then three bytes per pixel.

use vstd::prelude::*;
use vstd::slice::slice_subrange;
use arrayvec::ArrayVec;

verus! {

/// Most header tokens kept while scanning.
pub const MAX_TOKENS: usize = 32;

/// The fixed-capacity vector of `arrayvec`, opaque here; what a token list
/// holds is named by `token_spans`.
#[verifier::external_type_specification]
#[verifier::external_body]
#[verifier::reject_recursive_types(T)]
pub struct ExArrayVec<T, const CAP: usize>(ArrayVec<T, CAP>);

/// The token spans, start and end offsets, that a token list holds in order.
pub uninterp spec fn token_spans(v: ArrayVec<(usize, usize), 32>) -> Seq<(usize, usize)>;

/// Relies on `ArrayVec::new`: the new list holds nothing.
#[verifier::external_body]
fn new_token_list() -> (r: ArrayVec<(usize, usize), 32>)
    ensures
        token_spans(r) == Seq::<(usize, usize)>::empty(),
{
    ArrayVec::new()
}

/// Relies on `ArrayVec::try_push`: below the capacity the span is appended
/// and `Ok` returned; at the capacity the list is left as it was and the
/// error returned.
#[verifier::external_body]
fn push_token(v: &mut ArrayVec<(usize, usize), 32>, span: (usize, usize)) -> (r: bool)
    ensures
        token_spans(*old(v)).len() < MAX_TOKENS ==> r && token_spans(*final(v)) == token_spans(
            *old(v),
        ).push(span),
        token_spans(*old(v)).len() >= MAX_TOKENS ==> !r && token_spans(*final(v)) == token_spans(
            *old(v),
        ),
{
    v.try_push(span).is_ok()
}

/// Relies on `ArrayVec::as_slice`: the items held, in order.
#[verifier::external_body]
fn token_slice(v: &ArrayVec<(usize, usize), 32>) -> (r: &[(usize, usize)])
    ensures
        r@ == token_spans(*v),
{
    v.as_slice()
}

/// A parsed image; `data` holds the pixel bytes, three per pixel, row by row.
pub struct PpmImage<'a> {
    pub width: usize,
    pub height: usize,
    pub max_val: u16,
    pub data: &'a [u8],
}

/// Why an image was rejected.
#[derive(PartialEq, Eq, Structural, Clone, Copy, Debug)]
pub enum PpmParseError {
    /// The magic number was not the binary pixmap's (`P` then `6`).
    InvalidMagicNumber,
    /// Fewer than four header tokens.
    HeaderIncomplete,
    /// A header number is not decimal digits, or is too large.
    InvalidNumber,
    /// Fewer pixel bytes than width times height times three.
    UnexpectedEndOfData,
}

pub open spec fn is_ws(c: u8) -> bool {
    c == 0x20 || c == 0x09 || c == 0x0A || c == 0x0D
}

/// ASCII space, tab, line feed or carriage return.
fn is_whitespace(c: u8) -> (r: bool)
    ensures
        r == is_ws(c),
{
    c == 0x20 || c == 0x09 || c == 0x0A || c == 0x0D
}

/// Where the header scanner stands.
#[derive(PartialEq, Eq, Structural, Clone, Copy, Debug)]
pub enum ScanState {
    /// Between tokens.
    Between,
    /// Inside a comment, up to the end of the line.
    Comment,
    /// Inside a token that started at the given offset.
    Token(usize),
}

/// The token spans found in `s` from offset `i` in state `st`, `acc` being
/// those found before: tokens are separated by whitespace, a `#` between
/// tokens starts a comment up to the end of the line, and scanning stops when
/// a token is found with `MAX_TOKENS` already kept.
pub open spec fn scan(s: Seq<u8>, i: nat, st: ScanState, acc: Seq<(usize, usize)>) -> Seq<
    (usize, usize),
>
    decreases s.len() - i,
{
    if i >= s.len() {
        match st {
            ScanState::Token(start) => if acc.len() < MAX_TOKENS {
                acc.push((start, i as usize))
            } else {
                acc
            },
            _ => acc,
        }
    } else {
        let c = s[i as int];
        match st {
            ScanState::Between => if is_ws(c) {
                scan(s, i + 1, ScanState::Between, acc)
            } else if c == 0x23 {
                scan(s, i + 1, ScanState::Comment, acc)
            } else {
                scan(s, i + 1, ScanState::Token(i as usize), acc)
            },
            ScanState::Comment => if c == 0x0A {
                scan(s, i + 1, ScanState::Between, acc)
            } else {
                scan(s, i + 1, ScanState::Comment, acc)
            },
            ScanState::Token(start) => if !is_ws(c) {
                scan(s, i + 1, ScanState::Token(start), acc)
            } else if acc.len() < MAX_TOKENS {
                scan(s, i + 1, ScanState::Between, acc.push((start, i as usize)))
            } else {
                acc
            },
        }
    }
}

/// The header token spans of `s`.
pub open spec fn tokens_of(s: Seq<u8>) -> Seq<(usize, usize)> {
    scan(s, 0, ScanState::Between, Seq::empty())
}

/// Splits `bytes` into token spans as `tokens_of` says.
fn tokenize(bytes: &[u8]) -> (r: ArrayVec<(usize, usize), 32>)
    ensures
        token_spans(r) == tokens_of(bytes@),
{
    let mut tokens = new_token_list();
    let mut st = ScanState::Between;
    let mut i: usize = 0;
    let n = bytes.len();
    while i < n
        invariant
            n == bytes@.len(),
            i <= n,
            token_spans(tokens).len() <= MAX_TOKENS,
            st matches ScanState::Token(start) ==> start < i,
            tokens_of(bytes@) == scan(bytes@, i as nat, st, token_spans(tokens)),
        decreases n - i,
    {
        let c = bytes[i];
        match st {
            ScanState::Between => {
                if is_whitespace(c) {
                } else if c == 0x23 {
                    st = ScanState::Comment;
                } else {
                    st = ScanState::Token(i);
                }
            },
            ScanState::Comment => {
                if c == 0x0A {
                    st = ScanState::Between;
                }
            },
            ScanState::Token(start) => {
                if is_whitespace(c) {
                    if !push_token(&mut tokens, (start, i)) {
                        return tokens;
                    }
                    st = ScanState::Between;
                }
            },
        }
        i = i + 1;
    }
    match st {
        ScanState::Token(start) => {
            push_token(&mut tokens, (start, n));
        },
        _ => {},
    }
    tokens
}

/// The value of the decimal digits `s`.
pub open spec fn decimal_value(s: Seq<u8>) -> nat
    decreases s.len(),
{
    if s.len() == 0 {
        0
    } else {
        decimal_value(s.drop_last()) * 10 + (s.last() - 0x30) as nat
    }
}

pub open spec fn all_digits(s: Seq<u8>) -> bool {
    forall|i: int| 0 <= i < s.len() ==> 0x30 <= #[trigger] s[i] <= 0x39
}

proof fn lemma_decimal_value_grows(s: Seq<u8>, k: int)
    requires
        0 <= k <= s.len(),
        all_digits(s),
    ensures
        decimal_value(s.subrange(0, k)) <= decimal_value(s),
    decreases s.len() - k,
{
    if k < s.len() {
        lemma_decimal_value_grows(s, k + 1);
        assert(s.subrange(0, k + 1).drop_last() =~= s.subrange(0, k));
    } else {
        assert(s.subrange(0, k) =~= s);
    }
}

/// The number written in decimal in `bytes`: `InvalidNumber` where a byte is
/// not a digit or the value does not fit in `usize`.
fn parse_ascii_number(bytes: &[u8]) -> (r: Result<usize, PpmParseError>)
    ensures
        match r {
            Ok(v) => all_digits(bytes@) && v == decimal_value(bytes@),
            Err(e) => e == PpmParseError::InvalidNumber && !(all_digits(bytes@) && decimal_value(
                bytes@,
            ) <= usize::MAX),
        },
{
    let mut val: usize = 0;
    let mut i: usize = 0;
    while i < bytes.len()
        invariant
            i <= bytes@.len(),
            all_digits(bytes@.subrange(0, i as int)),
            val == decimal_value(bytes@.subrange(0, i as int)),
        decreases bytes@.len() - i,
    {
        let b = bytes[i];
        assert(bytes@.subrange(0, i + 1).drop_last() =~= bytes@.subrange(0, i as int));
        if !(0x30 <= b && b <= 0x39) {
            assert(!all_digits(bytes@)) by {
                assert(bytes@[i as int] == b);
            }
            return Err(PpmParseError::InvalidNumber);
        }
        assert(all_digits(bytes@.subrange(0, i + 1)));
        if val > (usize::MAX - (b - 0x30) as usize) / 10 {
            proof {
                assert(val * 10 + (b - 0x30) > usize::MAX) by (nonlinear_arith)
                    requires
                        val > (usize::MAX - (b - 0x30)) / 10,
                        0 <= b - 0x30 <= 9,
                ;
                if all_digits(bytes@) {
                    lemma_decimal_value_grows(bytes@, i + 1);
                }
            }
            return Err(PpmParseError::InvalidNumber);
        }
        assert(val * 10 + (b - 0x30) <= usize::MAX) by (nonlinear_arith)
            requires
                val <= (usize::MAX - (b - 0x30)) / 10,
                0 <= b - 0x30 <= 9,
        ;
        val = val * 10 + (b - 0x30) as usize;
        i = i + 1;
    }
    assert(bytes@.subrange(0, i as int) =~= bytes@);
    Ok(val)
}

/// The first offset at or after `i` where `needle` occurs in `hay`, if any.
pub open spec fn first_match(needle: Seq<u8>, hay: Seq<u8>, i: nat) -> Option<nat>
    decreases hay.len() + 1 - i,
{
    if i + needle.len() > hay.len() {
        None
    } else if hay.subrange(i as int, (i + needle.len()) as int) == needle {
        Some(i)
    } else {
        first_match(needle, hay, i + 1)
    }
}

/// The offset where `needle` first occurs in `haystack`, or 0 where it does not.
fn find_offset_of(needle: &[u8], haystack: &[u8]) -> (r: usize)
    requires
        needle@.len() <= haystack@.len(),
    ensures
        r == match first_match(needle@, haystack@, 0) {
            Some(i) => i,
            None => 0,
        },
{
    let n = needle.len();
    if n == 0 {
        assert(haystack@.subrange(0, 0) =~= needle@);
        return 0;
    }
    let last = haystack.len() - n;
    let mut i: usize = 0;
    while i <= last
        invariant
            n == needle@.len(),
            n > 0,
            haystack@.len() <= usize::MAX,
            last + n == haystack@.len(),
            i <= last + 1,
            first_match(needle@, haystack@, 0) == first_match(needle@, haystack@, i as nat),
        decreases last + 1 - i,
    {
        let mut k: usize = 0;
        let mut same = true;
        assert(haystack@.subrange(i as int, i as int) =~= needle@.subrange(0, 0));
        while k < n
            invariant
                n == needle@.len(),
                haystack@.len() <= usize::MAX,
                i + n <= haystack@.len(),
                k <= n,
                same == (haystack@.subrange(i as int, i + k) == needle@.subrange(0, k as int)),
            decreases n - k,
        {
            if haystack[i + k] != needle[k] {
                assert(haystack@.subrange(i as int, i + k + 1)[k as int] != needle@.subrange(
                    0,
                    k + 1,
                )[k as int]);
                same = false;
            } else if same {
                assert(haystack@.subrange(i as int, i + k + 1) =~= haystack@.subrange(
                    i as int,
                    i + k,
                ).push(haystack@[i + k]));
                assert(needle@.subrange(0, k + 1) =~= needle@.subrange(0, k as int).push(
                    needle@[k as int],
                ));
            } else {
                assert(haystack@.subrange(i as int, i + k) =~= haystack@.subrange(
                    i as int,
                    i + k + 1,
                ).subrange(0, k as int));
                assert(needle@.subrange(0, k as int) =~= needle@.subrange(0, k + 1).subrange(
                    0,
                    k as int,
                ));
            }
            k = k + 1;
        }
        assert(needle@.subrange(0, n as int) =~= needle@);
        if same {
            return i;
        }
        i = i + 1;
    }
    0
}

/// The first offset at or after `i` that is not whitespace, or the end.
pub open spec fn skip_whitespace(s: Seq<u8>, i: nat) -> nat
    decreases s.len() - i,
{
    if i < s.len() && is_ws(s[i as int]) {
        skip_whitespace(s, i + 1)
    } else {
        i
    }
}

/// The header fields and the span of pixel bytes of `s`, or why it is
/// rejected.
pub open spec fn ppm_spec(s: Seq<u8>) -> Result<(usize, usize, u16, nat, nat), PpmParseError> {
    let t = tokens_of(s);
    if t.len() < 4 {
        Err(PpmParseError::HeaderIncomplete)
    } else if s.subrange(t[0].0 as int, t[0].1 as int) != seq![0x50u8, 0x36u8] {
        Err(PpmParseError::InvalidMagicNumber)
    } else {
        let w = s.subrange(t[1].0 as int, t[1].1 as int);
        let h = s.subrange(t[2].0 as int, t[2].1 as int);
        let m = s.subrange(t[3].0 as int, t[3].1 as int);
        if !(all_digits(w) && decimal_value(w) <= usize::MAX) || !(all_digits(h) && decimal_value(h)
            <= usize::MAX) || !(all_digits(m) && decimal_value(m) <= usize::MAX) || decimal_value(m)
            > u16::MAX {
            Err(PpmParseError::InvalidNumber)
        } else if decimal_value(w) * decimal_value(h) * 3 > usize::MAX {
            Err(PpmParseError::InvalidNumber)
        } else {
            let header_end = match first_match(m, s, 0) {
                Some(i) => i,
                None => 0,
            } + m.len();
            let start = skip_whitespace(s, header_end);
            let len = decimal_value(w) * decimal_value(h) * 3;
            if start + len > s.len() {
                Err(PpmParseError::UnexpectedEndOfData)
            } else {
                Ok(
                    (
                        decimal_value(w) as usize,
                        decimal_value(h) as usize,
                        decimal_value(m) as u16,
                        start,
                        len,
                    ),
                )
            }
        }
    }
}

pub open spec fn spans_valid(s: Seq<u8>, t: Seq<(usize, usize)>) -> bool {
    forall|k: int| 0 <= k < t.len() ==> #[trigger] t[k].0 < t[k].1 <= s.len()
}

proof fn lemma_scan_spans_valid(s: Seq<u8>, i: nat, st: ScanState, acc: Seq<(usize, usize)>)
    requires
        i <= s.len() <= usize::MAX,
        spans_valid(s, acc),
        st matches ScanState::Token(start) ==> start < i,
    ensures
        spans_valid(s, scan(s, i, st, acc)),
    decreases s.len() - i,
{
    if i < s.len() {
        let c = s[i as int];
        match st {
            ScanState::Between => if is_ws(c) {
                lemma_scan_spans_valid(s, i + 1, ScanState::Between, acc);
            } else if c == 0x23 {
                lemma_scan_spans_valid(s, i + 1, ScanState::Comment, acc);
            } else {
                lemma_scan_spans_valid(s, i + 1, ScanState::Token(i as usize), acc);
            },
            ScanState::Comment => if c == 0x0A {
                lemma_scan_spans_valid(s, i + 1, ScanState::Between, acc);
            } else {
                lemma_scan_spans_valid(s, i + 1, ScanState::Comment, acc);
            },
            ScanState::Token(start) => if !is_ws(c) {
                lemma_scan_spans_valid(s, i + 1, ScanState::Token(start), acc);
            } else if acc.len() < MAX_TOKENS {
                let acc2 = acc.push((start, i as usize));
                assert(spans_valid(s, acc2)) by {
                    assert forall|k: int| 0 <= k < acc2.len() implies #[trigger] acc2[k].0 < acc2[k].1
                        <= s.len() by {
                        if k < acc.len() {
                            assert(acc2[k] == acc[k]);
                        }
                    }
                }
                lemma_scan_spans_valid(s, i + 1, ScanState::Between, acc2);
            },
        }
    } else {
        match st {
            ScanState::Token(start) => if acc.len() < MAX_TOKENS {
                let acc2 = acc.push((start, i as usize));
                assert(spans_valid(s, acc2)) by {
                    assert forall|k: int| 0 <= k < acc2.len() implies #[trigger] acc2[k].0 < acc2[k].1
                        <= s.len() by {
                        if k < acc.len() {
                            assert(acc2[k] == acc[k]);
                        }
                    }
                }
            },
            _ => {},
        }
    }
}

/// Where whitespace after offset `i` ends.
fn skip_ws_from(bytes: &[u8], i: usize) -> (r: usize)
    requires
        i <= bytes@.len(),
    ensures
        r == skip_whitespace(bytes@, i as nat),
        i <= r <= bytes@.len(),
{
    let mut j = i;
    while j < bytes.len() && is_whitespace(bytes[j])
        invariant
            i <= j <= bytes@.len(),
            skip_whitespace(bytes@, i as nat) == skip_whitespace(bytes@, j as nat),
        decreases bytes@.len() - j,
    {
        j = j + 1;
    }
    j
}

/// Parses a binary PPM image; the pixel bytes are borrowed from `bytes`.
pub fn parse_ppm(bytes: &[u8]) -> (r: Result<PpmImage, PpmParseError>)
    ensures
        match r {
            Ok(img) => ppm_spec(bytes@) matches Ok((w, h, m, start, len)) && img.width == w
                && img.height == h && img.max_val == m && img.data@ == bytes@.subrange(
                start as int,
                (start + len) as int,
            ),
            Err(e) => ppm_spec(bytes@) == Err::<(usize, usize, u16, nat, nat), PpmParseError>(e),
        },
{
    let n = bytes.len();
    let tokens = tokenize(bytes);
    let t = token_slice(&tokens);
    proof {
        lemma_scan_spans_valid(bytes@, 0, ScanState::Between, Seq::empty());
    }
    if t.len() < 4 {
        return Err(PpmParseError::HeaderIncomplete);
    }
    let (s0, e0) = t[0];
    let (s1, e1) = t[1];
    let (s2, e2) = t[2];
    let (s3, e3) = t[3];
    assert(t@[0].0 < t@[0].1 <= n && t@[1].0 < t@[1].1 <= n && t@[2].0 < t@[2].1 <= n && t@[3].0
        < t@[3].1 <= n);
    if !(e0 - s0 == 2 && bytes[s0] == 0x50 && bytes[s0 + 1] == 0x36) {
        assert(bytes@.subrange(s0 as int, e0 as int) != seq![0x50u8, 0x36u8]) by {
            let sub = bytes@.subrange(s0 as int, e0 as int);
            if sub == seq![0x50u8, 0x36u8] {
                assert(sub.len() == 2);
                assert(sub[0] == bytes@[s0 as int]);
                assert(sub[1] == bytes@[s0 + 1]);
            }
        }
        return Err(PpmParseError::InvalidMagicNumber);
    }
    assert(bytes@.subrange(s0 as int, e0 as int) =~= seq![0x50u8, 0x36u8]);
    let wtok = slice_subrange(bytes, s1, e1);
    let htok = slice_subrange(bytes, s2, e2);
    let mtok = slice_subrange(bytes, s3, e3);
    let width = match parse_ascii_number(wtok) {
        Ok(v) => v,
        Err(e) => {
            return Err(e);
        },
    };
    let height = match parse_ascii_number(htok) {
        Ok(v) => v,
        Err(e) => {
            return Err(e);
        },
    };
    let max_val = match parse_ascii_number(mtok) {
        Ok(v) => v,
        Err(e) => {
            return Err(e);
        },
    };
    if max_val > 0xFFFF {
        return Err(PpmParseError::InvalidNumber);
    }
    if height != 0 && width > usize::MAX / height {
        assert(width * height > usize::MAX) by (nonlinear_arith)
            requires
                height > 0,
                width > usize::MAX / height,
        ;
        assert(width * height * 3 > usize::MAX) by (nonlinear_arith)
            requires
                width * height > usize::MAX,
        ;
        return Err(PpmParseError::InvalidNumber);
    }
    assert(width * height <= usize::MAX) by (nonlinear_arith)
        requires
            height == 0 || width <= usize::MAX / height,
    ;
    let total = width * height;
    if total > usize::MAX / 3 {
        return Err(PpmParseError::InvalidNumber);
    }
    let expected = total * 3;
    let found = find_offset_of(mtok, bytes);
    proof {
        lemma_first_match_bound(mtok@, bytes@, 0);
    }
    let header_end = found + (e3 - s3);
    let data_start = skip_ws_from(bytes, header_end);
    if expected > n - data_start {
        return Err(PpmParseError::UnexpectedEndOfData);
    }
    let data = slice_subrange(bytes, data_start, data_start + expected);
    Ok(PpmImage { width, height, max_val: max_val as u16, data })
}

proof fn lemma_first_match_bound(needle: Seq<u8>, hay: Seq<u8>, i: nat)
    ensures
        first_match(needle, hay, i) matches Some(k) ==> k + needle.len() <= hay.len(),
    decreases hay.len() + 1 - i,
{
    if i + needle.len() <= hay.len() && hay.subrange(i as int, (i + needle.len()) as int) != needle {
        lemma_first_match_bound(needle, hay, i + 1);
    }
}

} // verus!
