//! Relation-option codec: parses per-relation `key=value` storage options
//! into a packed, length-prefixed configuration record and validates the
//! declared bounds.

use vstd::prelude::*;

verus! {

/// Default of the one recognized option, `size`.
pub const SIZE_DEFAULT: i32 = 10;

/// Smallest accepted `size` value.
pub const SIZE_MIN: i32 = -10;

/// Largest accepted `size` value.
pub const SIZE_MAX: i32 = 100;

/// The packed relation-options record: a four-byte length header followed
/// by the one declared option field, at fixed offsets shared with the host.
#[derive(Clone, Copy, Debug, PartialEq, Eq, Structural)]
pub struct IndexOptions {
    /// Length header covering the whole record, in bytes.
    pub vl_len: i32,
    /// The `size` option value.
    pub size: i32,
}

impl IndexOptions {
    /// A record is well formed when its header states the record length
    /// and the option value lies within the declared bounds.
    pub open spec fn wf(self) -> bool {
        &&& self.vl_len == 8
        &&& SIZE_MIN as int <= self.size as int <= SIZE_MAX as int
    }
}

/// True of a decimal digit character.
pub open spec fn is_digit_char(c: char) -> bool {
    48 <= c as u32 <= 57
}

/// Numeric value of a decimal digit character.
pub open spec fn digit_val(c: char) -> int {
    c as u32 - 48
}

/// True when every character of `s` is a decimal digit.
pub open spec fn all_digits(s: Seq<char>) -> bool {
    forall|i: int| 0 <= i < s.len() ==> is_digit_char(s[i])
}

/// Value of a sequence of decimal digits, most significant first.
pub open spec fn dec_val(s: Seq<char>) -> int
    decreases s.len(),
{
    if s.len() == 0 {
        0
    } else {
        dec_val(s.drop_last()) * 10 + digit_val(s.last())
    }
}

/// True of the integer texts the codec accepts: an optional leading minus
/// sign followed by one or more decimal digits.
pub open spec fn valid_int_text(s: Seq<char>) -> bool {
    if s.len() == 0 {
        false
    } else if s[0] == '-' {
        s.len() >= 2 && all_digits(s.skip(1))
    } else {
        all_digits(s)
    }
}

/// Integer value of a valid integer text.
pub open spec fn text_int(s: Seq<char>) -> int {
    if 0 < s.len() && s[0] == '-' {
        -dec_val(s.skip(1))
    } else {
        dec_val(s)
    }
}

/// Ten to the power `n`.
pub open spec fn pow10(n: nat) -> int
    decreases n,
{
    if n == 0 {
        1
    } else {
        10 * pow10((n - 1) as nat)
    }
}

proof fn lemma_dec_val_lower(s: Seq<char>)
    requires
        all_digits(s),
        s.len() >= 1,
        digit_val(s[0]) >= 1,
    ensures
        dec_val(s) >= pow10((s.len() - 1) as nat),
    decreases s.len(),
{
    assert(dec_val(s) == dec_val(s.drop_last()) * 10 + digit_val(s.last()));
    if s.len() == 1 {
        assert(s.drop_last().len() == 0);
        assert(dec_val(s.drop_last()) == 0);
        assert(s.last() == s[0]);
        assert(pow10(0) == 1);
    } else {
        assert(all_digits(s.drop_last()));
        assert(s.drop_last()[0] == s[0]);
        lemma_dec_val_lower(s.drop_last());
        assert(dec_val(s.drop_last()) >= pow10((s.len() - 2) as nat));
        assert(is_digit_char(s.last()));
        assert(digit_val(s.last()) >= 0);
        assert(pow10((s.len() - 1) as nat) == 10 * pow10((s.len() - 2) as nat));
        assert(dec_val(s.drop_last()) * 10 >= pow10((s.len() - 2) as nat) * 10);
    }
}

proof fn lemma_dec_val_drop_zero_head(s: Seq<char>)
    requires
        all_digits(s),
        s.len() >= 1,
        digit_val(s[0]) == 0,
    ensures
        dec_val(s) == dec_val(s.skip(1)),
    decreases s.len(),
{
    if s.len() == 1 {
        assert(s.skip(1).len() == 0);
        assert(dec_val(s) == dec_val(s.drop_last()) * 10 + digit_val(s.last()));
        assert(digit_val(s.last()) == 0);
    } else {
        let u = s.drop_last();
        assert(all_digits(u));
        assert(u[0] == s[0]);
        lemma_dec_val_drop_zero_head(u);
        assert(s.skip(1).drop_last() =~= u.skip(1));
        assert(s.skip(1).last() == s.last());
        assert(s.skip(1).len() == s.len() - 1);
    }
}

proof fn lemma_dec_val_skip_zeros(s: Seq<char>, m: int)
    requires
        all_digits(s),
        0 <= m <= s.len(),
        forall|k: int| 0 <= k < m ==> digit_val(s[k]) == 0,
    ensures
        dec_val(s) == dec_val(s.skip(m)),
    decreases m,
{
    if m > 0 {
        lemma_dec_val_drop_zero_head(s);
        let t = s.skip(1);
        assert(all_digits(t));
        assert(forall|k: int| 0 <= k < m - 1 ==> digit_val(t[k]) == 0);
        lemma_dec_val_skip_zeros(t, m - 1);
        assert(t.skip(m - 1) =~= s.skip(m));
    } else {
        assert(s.skip(0) =~= s);
    }
}

/// Outcome of reading one option value as a bounded integer.
#[derive(Clone, Copy, Debug, PartialEq, Eq, Structural)]
pub enum ParsedInt {
    /// The text is a valid integer within the bounds.
    Value(i32),
    /// The text is a valid integer outside the bounds.
    OutOfBounds,
    /// The text is not a valid integer.
    Malformed,
}

/// Reads an option value as a decimal integer and holds it to the given
/// bounds, telling a malformed text apart from an out-of-range value.
#[verifier::loop_isolation(false)]
#[verifier::rlimit(60)]
pub fn parse_bounded_int(s: &str, min: i32, max: i32) -> (r: ParsedInt)
    requires
        -1000 <= min <= max <= 1000,
    ensures
        (r == ParsedInt::Malformed) <==> !valid_int_text(s@),
        (r == ParsedInt::OutOfBounds) <==> (valid_int_text(s@) && !(min <= text_int(s@)
            <= max)),
        (valid_int_text(s@) && min <= text_int(s@) <= max) ==> r == ParsedInt::Value(
            text_int(s@) as i32,
        ),
{
    let len = s.unicode_len();
    if len == 0 {
        return ParsedInt::Malformed;
    }
    let neg = s.get_char(0) == '-';
    let start: usize = if neg {
        1
    } else {
        0
    };
    if neg && len == 1 {
        return ParsedInt::Malformed;
    }
    // Every character after the optional sign must be a decimal digit.
    let mut k: usize = start;
    while k < len
        invariant
            start <= k <= len,
            start <= 1,
            len == s@.len(),
            forall|t: int| start <= t < k ==> is_digit_char(s@[t]),
        decreases len - k,
    {
        let cv = s.get_char(k) as u32;
        if !(48 <= cv && cv <= 57) {
            proof {
                if neg {
                    assert(s@.skip(1)[k - 1] == s@[k as int]);
                } else {
                    assert(!all_digits(s@));
                }
            }
            return ParsedInt::Malformed;
        }
        k += 1;
    }
    proof {
        if neg {
            assert forall|t: int| 0 <= t < s@.skip(1).len() implies is_digit_char(
                s@.skip(1)[t],
            ) by {
                assert(s@.skip(1)[t] == s@[t + 1]);
            }
            assert(valid_int_text(s@));
        } else {
            assert(valid_int_text(s@));
        }
    }
    let ghost digits: Seq<char> = s@.skip(start as int);
    proof {
        assert forall|t: int| 0 <= t < digits.len() implies is_digit_char(digits[t]) by {
            assert(digits[t] == s@[t + start]);
        }
        if neg {
            assert(text_int(s@) == -dec_val(digits));
        } else {
            assert(s@.skip(0) =~= s@);
            assert(text_int(s@) == dec_val(digits));
        }
    }
    // Skip leading zeros so that length alone bounds the magnitude.
    let mut j: usize = start;
    let mut zeros = true;
    while zeros && j < len
        invariant
            start <= j <= len,
            forall|t: int| start <= t < j ==> (s@[t] as u32 == 48),
            !zeros ==> j < len && s@[j as int] as u32 != 48,
        decreases 2 * (len - j) + (if zeros { 1int } else { 0int }),
    {
        if s.get_char(j) as u32 != 48 {
            zeros = false;
        } else {
            j += 1;
        }
    }
    proof {
        assert forall|t: int| 0 <= t < j - start implies digit_val(digits[t]) == 0 by {
            assert(digits[t] == s@[t + start]);
        }
        lemma_dec_val_skip_zeros(digits, j - start);
        assert(digits.skip(j - start) =~= s@.skip(j as int));
    }
    let ghost sig: Seq<char> = s@.skip(j as int);
    proof {
        assert forall|t: int| 0 <= t < sig.len() implies is_digit_char(sig[t]) by {
            assert(sig[t] == s@[t + j]);
        }
    }
    if len - j > 4 {
        // At least five significant digits: the magnitude is at least
        // ten thousand, beyond any accepted bound.
        proof {
            assert(sig[0] == s@[j as int]);
            assert(digit_val(sig[0]) >= 1);
            lemma_dec_val_lower(sig);
            lemma_pow10_increases(4, (sig.len() - 1) as nat);
            lemma_pow10_small();
        }
        return ParsedInt::OutOfBounds;
    }
    // Accumulate at most four significant digits.
    proof {
        assert(s@.subrange(j as int, j as int) =~= Seq::<char>::empty());
        lemma_pow10_small();
    }
    let mut acc: i32 = 0;
    let mut p: usize = j;
    while p < len
        invariant
            j <= p <= len,
            len == s@.len(),
            len - j <= 4,
            sig == s@.skip(j as int),
            all_digits(sig),
            forall|t: int| j <= t < len ==> is_digit_char(s@[t]),
            acc == dec_val(s@.subrange(j as int, p as int)),
            0 <= acc < pow10((p - j) as nat),
            pow10(4) == 10000,
        decreases len - p,
    {
        let d = (s.get_char(p) as u32 - 48) as i32;
        proof {
            let pre = s@.subrange(j as int, p as int);
            let ext = s@.subrange(j as int, p + 1);
            assert(ext.drop_last() =~= pre);
            assert(ext.last() == s@[p as int]);
            lemma_pow10_increases((p - j) as nat, 3);
            assert(pow10(((p - j) + 1) as nat) == 10 * pow10((p - j) as nat));
        }
        acc = acc * 10 + d;
        p += 1;
    }
    proof {
        assert(s@.subrange(j as int, len as int) =~= sig);
        assert(acc == dec_val(sig));
    }
    let value: i32 = if neg {
        -acc
    } else {
        acc
    };
    proof {
        assert(value as int == text_int(s@));
    }
    if min <= value && value <= max {
        ParsedInt::Value(value)
    } else {
        ParsedInt::OutOfBounds
    }
}

proof fn lemma_pow10_pos(n: nat)
    ensures
        pow10(n) >= 1,
    decreases n,
{
    if n > 0 {
        lemma_pow10_pos((n - 1) as nat);
    }
}

proof fn lemma_pow10_increases(a: nat, b: nat)
    requires
        a <= b,
    ensures
        1 <= pow10(a) <= pow10(b),
    decreases b,
{
    lemma_pow10_pos(a);
    if a < b {
        lemma_pow10_increases(a, (b - 1) as nat);
        lemma_pow10_pos((b - 1) as nat);
        assert(pow10(b) == 10 * pow10((b - 1) as nat));
    }
}

proof fn lemma_pow10_small()
    ensures
        pow10(0) == 1,
        pow10(1) == 10,
        pow10(2) == 100,
        pow10(3) == 1000,
        pow10(4) == 10000,
{
    assert(pow10(0) == 1);
    assert(pow10(1) == 10);
    assert(pow10(2) == 100);
    assert(pow10(3) == 1000);
    assert(pow10(4) == 10000);
}

/// A configuration or consistency error of the option codec, at the level
/// of the mathematical model: keys and values as character sequences.
pub enum OptionErrorModel {
    /// A key that is not a recognized option.
    Unknown { key: Seq<char> },
    /// A recognized option whose value is not an integer text.
    Invalid { key: Seq<char>, value: Seq<char> },
    /// A recognized option whose value lies outside the declared bounds.
    OutOfRange { key: Seq<char>, value: Seq<char> },
    /// Malformed already-persisted options met outside validation: a fatal
    /// inconsistency of stored state, not a recoverable condition.
    Corrupt,
}

/// A configuration or consistency error of the option codec. Configuration
/// errors name the offending key (and value); `Corrupt` marks malformed
/// stored options met outside validation.
#[derive(Debug, Clone, PartialEq, Eq)]
pub enum OptionError {
    /// A key that is not a recognized option.
    Unknown { key: String },
    /// A recognized option whose value is not an integer text.
    Invalid { key: String, value: String },
    /// A recognized option whose value lies outside the declared bounds.
    OutOfRange { key: String, value: String },
    /// Malformed already-persisted options met outside validation.
    Corrupt,
}

impl View for OptionError {
    type V = OptionErrorModel;

    open spec fn view(&self) -> OptionErrorModel {
        match self {
            OptionError::Unknown { key } => OptionErrorModel::Unknown { key: key@ },
            OptionError::Invalid { key, value } => OptionErrorModel::Invalid {
                key: key@,
                value: value@,
            },
            OptionError::OutOfRange { key, value } => OptionErrorModel::OutOfRange {
                key: key@,
                value: value@,
            },
            OptionError::Corrupt => OptionErrorModel::Corrupt,
        }
    }
}

/// True of a `size` value within the declared bounds.
pub open spec fn size_in_bounds(n: int) -> bool {
    SIZE_MIN as int <= n <= SIZE_MAX as int
}

/// What parsing the option pairs from index `i` on yields, once the pairs
/// before `i` have produced the `size` value `acc`: the pairs are read in
/// order, a later `size` replaces an earlier one, and the first offending
/// pair decides the error. With `validate` an unrecognized key or a bad
/// value is a configuration error naming the pair; without it a bad value
/// of a recognized key is a fatal inconsistency and unrecognized keys are
/// passed over.
pub open spec fn spec_parse_from(
    v: Seq<(String, String)>,
    validate: bool,
    acc: int,
    i: int,
) -> Result<int, OptionErrorModel>
    decreases v.len() - i,
{
    if i < 0 || i >= v.len() {
        Ok(acc)
    } else {
        let key = v[i].0@;
        let value = v[i].1@;
        if key == "size"@ {
            if valid_int_text(value) && size_in_bounds(text_int(value)) {
                spec_parse_from(v, validate, text_int(value), i + 1)
            } else if !validate {
                Err(OptionErrorModel::Corrupt)
            } else if valid_int_text(value) {
                Err(OptionErrorModel::OutOfRange { key, value })
            } else {
                Err(OptionErrorModel::Invalid { key, value })
            }
        } else {
            if validate {
                Err(OptionErrorModel::Unknown { key })
            } else {
                spec_parse_from(v, validate, acc, i + 1)
            }
        }
    }
}

/// What parsing a whole option list yields: the default `size` when no
/// pair sets one.
pub open spec fn spec_parse(v: Seq<(String, String)>, validate: bool) -> Result<
    int,
    OptionErrorModel,
> {
    spec_parse_from(v, validate, SIZE_DEFAULT as int, 0)
}

/// Parses relation option pairs into a well-formed options record, reading
/// the pairs in order; the first offending pair decides the error.
pub fn parse_options(opts: &Vec<(String, String)>, validate: bool) -> (r: Result<
    IndexOptions,
    OptionError,
>)
    ensures
        match r {
            Ok(o) => o.wf() && spec_parse(opts@, validate) == Ok::<int, OptionErrorModel>(
                o.size as int,
            ),
            Err(e) => spec_parse(opts@, validate) == Err::<int, OptionErrorModel>(e@),
        },
{
    let size_key: String = String::from_str("size");
    let mut cur: i32 = SIZE_DEFAULT;
    let mut i: usize = 0;
    while i < opts.len()
        invariant
            0 <= i <= opts.len(),
            size_key@ == "size"@,
            size_in_bounds(cur as int),
            spec_parse(opts@, validate) == spec_parse_from(opts@, validate, cur as int, i as int),
        decreases opts.len() - i,
    {
        let key = &opts[i].0;
        let value = &opts[i].1;
        if key.eq(&size_key) {
            match parse_bounded_int(value.as_str(), SIZE_MIN, SIZE_MAX) {
                ParsedInt::Value(n) => {
                    cur = n;
                },
                ParsedInt::OutOfBounds => {
                    if validate {
                        return Err(
                            OptionError::OutOfRange { key: key.clone(), value: value.clone() },
                        );
                    } else {
                        return Err(OptionError::Corrupt);
                    }
                },
                ParsedInt::Malformed => {
                    if validate {
                        return Err(
                            OptionError::Invalid { key: key.clone(), value: value.clone() },
                        );
                    } else {
                        return Err(OptionError::Corrupt);
                    }
                },
            }
        } else {
            if validate {
                return Err(OptionError::Unknown { key: key.clone() });
            }
        }
        i += 1;
    }
    Ok(IndexOptions { vl_len: 8, size: cur })
}

/// Width of the leading length header of the packed record, in bytes.
pub const HEADER_LEN: usize = 4;

/// Offset of the `size` field in the packed record, in bytes.
pub const SIZE_OFFSET: usize = 4;

/// Total length of the packed record, in bytes.
pub const RECORD_LEN: usize = 8;

/// Byte `k` of the little-endian encoding of `x`.
pub open spec fn le_byte(x: u32, k: int) -> u8 {
    ((x >> (8 * k as u32)) & 0xff) as u8
}

/// The byte-exact layout of the packed record: the length header at offset
/// zero, the `size` field after it, both four-byte little-endian words.
pub open spec fn spec_pack(o: IndexOptions) -> Seq<u8> {
    seq![
        le_byte(o.vl_len as u32, 0),
        le_byte(o.vl_len as u32, 1),
        le_byte(o.vl_len as u32, 2),
        le_byte(o.vl_len as u32, 3),
        le_byte(o.size as u32, 0),
        le_byte(o.size as u32, 1),
        le_byte(o.size as u32, 2),
        le_byte(o.size as u32, 3),
    ]
}

proof fn lemma_le_byte_parts(x: u32)
    ensures
        le_byte(x, 0) == (x & 0xff) as u8,
        le_byte(x, 1) == ((x >> 8u32) & 0xff) as u8,
        le_byte(x, 2) == ((x >> 16u32) & 0xff) as u8,
        le_byte(x, 3) == ((x >> 24u32) & 0xff) as u8,
{
    assert(((x >> 0u32) & 0xff) as u8 == (x & 0xff) as u8) by (bit_vector);
    assert(le_byte(x, 0) == ((x >> 0u32) & 0xff) as u8);
    assert(le_byte(x, 1) == ((x >> 8u32) & 0xff) as u8);
    assert(le_byte(x, 2) == ((x >> 16u32) & 0xff) as u8);
    assert(le_byte(x, 3) == ((x >> 24u32) & 0xff) as u8);
}

proof fn lemma_le_bytes_injective(a: u32, b: u32)
    requires
        forall|k: int| 0 <= k < 4 ==> le_byte(a, k) == le_byte(b, k),
    ensures
        a == b,
{
    lemma_le_byte_parts(a);
    lemma_le_byte_parts(b);
    assert(a == b) by (bit_vector)
        requires
            (a & 0xff) as u8 == (b & 0xff) as u8,
            ((a >> 8u32) & 0xff) as u8 == ((b >> 8u32) & 0xff) as u8,
            ((a >> 16u32) & 0xff) as u8 == ((b >> 16u32) & 0xff) as u8,
            ((a >> 24u32) & 0xff) as u8 == ((b >> 24u32) & 0xff) as u8,
    ;
}

fn push_le_word(out: &mut Vec<u8>, x: u32)
    ensures
        final(out)@ == old(out)@ + seq![le_byte(x, 0), le_byte(x, 1), le_byte(x, 2), le_byte(x, 3)],
{
    out.push((x & 0xff) as u8);
    out.push(((x >> 8u32) & 0xff) as u8);
    out.push(((x >> 16u32) & 0xff) as u8);
    out.push(((x >> 24u32) & 0xff) as u8);
    proof {
        lemma_le_byte_parts(x);
        assert(out@ =~= old(out)@ + seq![le_byte(x, 0), le_byte(x, 1), le_byte(x, 2), le_byte(x, 3)]);
    }
}

/// Packs a well-formed options record into the byte layout the host
/// addresses: determinism and the exact layout are stated by `spec_pack`.
pub fn pack_options(o: &IndexOptions) -> (r: Vec<u8>)
    ensures
        r@ == spec_pack(*o),
        r@.len() == RECORD_LEN,
{
    let mut out: Vec<u8> = Vec::new();
    push_le_word(&mut out, o.vl_len as u32);
    push_le_word(&mut out, o.size as u32);
    proof {
        assert(out@ =~= spec_pack(*o));
    }
    out
}

fn read_le_word(bytes: &Vec<u8>, at: usize) -> (x: u32)
    requires
        at + 4 <= bytes@.len(),
    ensures
        forall|k: int| 0 <= k < 4 ==> le_byte(x, k) == bytes@[at + k],
{
    let record_len = bytes.len();
    proof {
        assert(at + 4 <= record_len);
    }
    let b0 = bytes[at];
    let b1 = bytes[at + 1];
    let b2 = bytes[at + 2];
    let b3 = bytes[at + 3];
    let x = (b0 as u32) | ((b1 as u32) << 8u32) | ((b2 as u32) << 16u32) | ((b3 as u32) << 24u32);
    proof {
        lemma_le_byte_parts(x);
        assert((x & 0xff) as u8 == b0 && ((x >> 8u32) & 0xff) as u8 == b1 && ((x >> 16u32)
            & 0xff) as u8 == b2 && ((x >> 24u32) & 0xff) as u8 == b3) by (bit_vector)
            requires
                x == (b0 as u32) | ((b1 as u32) << 8u32) | ((b2 as u32) << 16u32) | ((b3 as u32)
                    << 24u32),
        ;
        assert forall|k: int| 0 <= k < 4 implies le_byte(x, k) == bytes@[at + k] by {
            assert(le_byte(x, 0) == b0 && le_byte(x, 1) == b1 && le_byte(x, 2) == b2 && le_byte(
                x,
                3,
            ) == b3);
        }
    }
    x
}

/// Reads a packed record back from its bytes, accepting exactly the images
/// of well-formed records under `spec_pack`.
pub fn unpack_options(bytes: &Vec<u8>) -> (r: Option<IndexOptions>)
    ensures
        match r {
            Some(o) => o.wf() && bytes@ == spec_pack(o),
            None => forall|o: IndexOptions| o.wf() ==> bytes@ != spec_pack(o),
        },
{
    if bytes.len() != RECORD_LEN {
        proof {
            assert forall|o: IndexOptions| o.wf() implies bytes@ != spec_pack(o) by {
                assert(spec_pack(o).len() == 8);
            }
        }
        return None;
    }
    let vl = read_le_word(bytes, 0);
    let sz = read_le_word(bytes, 4);
    let vl_len = vl as i32;
    let size = sz as i32;
    proof {
        lemma_u32_i32_round_trip(vl);
        lemma_u32_i32_round_trip(sz);
    }
    if vl_len == 8 && -10 <= size && size <= 100 {
        let o = IndexOptions { vl_len, size };
        proof {
            assert(bytes@ =~= spec_pack(o));
        }
        Some(o)
    } else {
        proof {
            assert forall|o: IndexOptions| o.wf() implies bytes@ != spec_pack(o) by {
                if bytes@ == spec_pack(o) {
                    assert forall|k: int| 0 <= k < 4 implies le_byte(o.vl_len as u32, k) == le_byte(
                        vl,
                        k,
                    ) && le_byte(o.size as u32, k) == le_byte(sz, k) by {
                        assert(spec_pack(o)[k] == le_byte(o.vl_len as u32, k));
                        assert(spec_pack(o)[k + 4] == le_byte(o.size as u32, k));
                    }
                    lemma_le_bytes_injective(o.vl_len as u32, vl);
                    lemma_le_bytes_injective(o.size as u32, sz);
                    lemma_i32_u32_round_trip(o.vl_len);
                    lemma_i32_u32_round_trip(o.size);
                }
            }
        }
        None
    }
}

proof fn lemma_u32_i32_round_trip(x: u32)
    ensures
        (x as i32) as u32 == x,
{
    assert((x as i32) as u32 == x) by (bit_vector);
}

proof fn lemma_i32_u32_round_trip(x: i32)
    ensures
        (x as u32) as i32 == x,
{
    assert((x as u32) as i32 == x) by (bit_vector);
}

fn digit_str(d: u32) -> (r: &'static str)
    requires
        d <= 9,
    ensures
        r@.len() == 1,
        is_digit_char(r@[0]),
        digit_val(r@[0]) == d as int,
{
    proof {
        reveal_strlit("0");
        reveal_strlit("1");
        reveal_strlit("2");
        reveal_strlit("3");
        reveal_strlit("4");
        reveal_strlit("5");
        reveal_strlit("6");
        reveal_strlit("7");
        reveal_strlit("8");
        reveal_strlit("9");
    }
    if d == 0 {
        "0"
    } else if d == 1 {
        "1"
    } else if d == 2 {
        "2"
    } else if d == 3 {
        "3"
    } else if d == 4 {
        "4"
    } else if d == 5 {
        "5"
    } else if d == 6 {
        "6"
    } else if d == 7 {
        "7"
    } else if d == 8 {
        "8"
    } else {
        "9"
    }
}

/// Writes a `size` value back as the decimal text the codec reads.
pub fn size_text(n: i32) -> (r: String)
    requires
        -999 <= n <= 999,
    ensures
        valid_int_text(r@),
        text_int(r@) == n as int,
{
    let mut t = String::new();
    let m: i32 = if n < 0 {
        proof {
            reveal_strlit("-");
        }
        t.append("-");
        -n
    } else {
        n
    };
    let ghost sign: Seq<char> = t@;
    proof {
        assert(sign.len() <= 1);
        assert(n < 0 ==> sign.len() == 1 && sign[0] == '-');
        assert(n >= 0 ==> sign.len() == 0);
    }
    let h: u32 = (m / 100) as u32;
    let te: u32 = ((m / 10) % 10) as u32;
    let o: u32 = (m % 10) as u32;
    if m >= 100 {
        t.append(digit_str(h));
    }
    if m >= 10 {
        t.append(digit_str(te));
    }
    t.append(digit_str(o));
    proof {
        let digits = t@.skip(sign.len() as int);
        if m >= 100 {
            assert(digits =~= seq![t@[sign.len() as int], t@[sign.len() as int + 1], t@[sign.len() as int + 2]]);
            assert(digit_val(digits[0]) == h as int);
            assert(digit_val(digits[1]) == te as int);
            assert(digit_val(digits[2]) == o as int);
            assert(dec_val(digits) == (h * 10 + te) * 10 + o) by {
                let d0 = seq![digits[0]];
                let d01 = seq![digits[0], digits[1]];
                assert(digits.drop_last() =~= d01);
                assert(d01.drop_last() =~= d0);
                assert(d0.drop_last() =~= Seq::<char>::empty());
                assert(dec_val(Seq::<char>::empty()) == 0);
                assert(d0.last() == digits[0] && d01.last() == digits[1] && digits.last()
                    == digits[2]);
                assert(dec_val(d0) == digit_val(digits[0]));
                assert(dec_val(d01) == dec_val(d0) * 10 + digit_val(digits[1]));
                assert(dec_val(digits) == dec_val(d01) * 10 + digit_val(digits[2]));
            }
            assert(h as int == m / 100 && te as int == (m / 10) % 10 && o as int == m % 10);
            assert((m / 100 * 10 + (m / 10) % 10) * 10 + m % 10 == m) by (nonlinear_arith)
                requires
                    100 <= m <= 999,
            ;
        } else if m >= 10 {
            assert(digits =~= seq![t@[sign.len() as int], t@[sign.len() as int + 1]]);
            assert(dec_val(digits) == te * 10 + o) by {
                let d0 = seq![digits[0]];
                assert(digits.drop_last() =~= d0);
                assert(d0.drop_last() =~= Seq::<char>::empty());
                assert(dec_val(Seq::<char>::empty()) == 0);
                assert(d0.last() == digits[0] && digits.last() == digits[1]);
                assert(dec_val(d0) == digit_val(digits[0]));
                assert(dec_val(digits) == dec_val(d0) * 10 + digit_val(digits[1]));
            }
            assert(te as int == (m / 10) % 10 && o as int == m % 10);
            assert((m / 10) % 10 * 10 + m % 10 == m) by (nonlinear_arith)
                requires
                    10 <= m <= 99,
            ;
        } else {
            assert(digits =~= seq![t@[sign.len() as int]]);
            assert(dec_val(digits) == o) by {
                assert(digits.drop_last() =~= Seq::<char>::empty());
                assert(dec_val(Seq::<char>::empty()) == 0);
                assert(digits.last() == digits[0]);
                assert(dec_val(digits) == dec_val(digits.drop_last()) * 10 + digit_val(
                    digits.last(),
                ));
            }
            assert(o as int == m);
        }
        assert(all_digits(digits));
        if n < 0 {
            assert(t@[0] == '-');
            assert(t@.skip(1) == digits);
            assert(text_int(t@) == -dec_val(digits));
        } else {
            assert(t@ == digits);
            assert(0 < t@.len());
            assert(t@[0] != '-') by {
                assert(is_digit_char(t@[0]));
            }
        }
    }
    t
}

/// Renders a packed record back as option text: the one recognized key with
/// the stored value, ready to be parsed again.
pub fn reserialize_options(o: &IndexOptions) -> (r: Vec<(String, String)>)
    requires
        o.wf(),
    ensures
        r@.len() == 1,
        r@[0].0@ == "size"@,
        valid_int_text(r@[0].1@),
        text_int(r@[0].1@) == o.size as int,
{
    let key = String::from_str("size");
    let value = size_text(o.size);
    let mut out: Vec<(String, String)> = Vec::new();
    out.push((key, value));
    out
}

/// The well-formed record holding a given in-bounds `size`.
pub open spec fn record_for(size: int) -> IndexOptions {
    IndexOptions { vl_len: 8, size: size as i32 }
}

/// Parses relation option pairs and returns the packed record the host
/// persists: the parse decides the value, and the bytes are `spec_pack` of
/// the record holding it — the same option text always packs identically.
pub fn dioptions(opts: &Vec<(String, String)>, validate: bool) -> (r: Result<Vec<u8>, OptionError>)
    ensures
        match r {
            Ok(bytes) => {
                &&& spec_parse(opts@, validate) is Ok
                &&& size_in_bounds(spec_parse(opts@, validate)->Ok_0)
                &&& bytes@ == spec_pack(record_for(spec_parse(opts@, validate)->Ok_0))
            },
            Err(e) => spec_parse(opts@, validate) == Err::<int, OptionErrorModel>(e@),
        },
{
    match parse_options(opts, validate) {
        Ok(o) => {
            let bytes = pack_options(&o);
            proof {
                assert(record_for(spec_parse(opts@, validate)->Ok_0) == o);
            }
            Ok(bytes)
        },
        Err(e) => Err(e),
    }
}

/// Law: a validated parse of the textual re-serialization of any well-formed
/// record yields the record's own `size` again. The premises are exactly what
/// `reserialize_options` ensures of its output.
pub proof fn lemma_options_round_trip(o: IndexOptions, pairs: Seq<(String, String)>)
    requires
        o.wf(),
        pairs.len() == 1,
        pairs[0].0@ == "size"@,
        valid_int_text(pairs[0].1@),
        text_int(pairs[0].1@) == o.size as int,
    ensures
        spec_parse(pairs, true) == Ok::<int, OptionErrorModel>(o.size as int),
{
    assert(spec_parse_from(pairs, true, SIZE_DEFAULT as int, 0) == spec_parse_from(
        pairs,
        true,
        o.size as int,
        1,
    ));
}

/// Law: a validated parse of a `size` value outside the declared bounds
/// fails and reports the key `size` with the offending value.
pub proof fn lemma_out_of_range_reported(pairs: Seq<(String, String)>)
    requires
        pairs.len() == 1,
        pairs[0].0@ == "size"@,
        valid_int_text(pairs[0].1@),
        !size_in_bounds(text_int(pairs[0].1@)),
    ensures
        spec_parse(pairs, true) == Err::<int, OptionErrorModel>(
            OptionErrorModel::OutOfRange { key: "size"@, value: pairs[0].1@ },
        ),
{
}

/// Law: a validated parse of a `size` value that is no integer text fails
/// and reports the key `size` with the offending value.
pub proof fn lemma_invalid_value_reported(pairs: Seq<(String, String)>)
    requires
        pairs.len() == 1,
        pairs[0].0@ == "size"@,
        !valid_int_text(pairs[0].1@),
    ensures
        spec_parse(pairs, true) == Err::<int, OptionErrorModel>(
            OptionErrorModel::Invalid { key: "size"@, value: pairs[0].1@ },
        ),
{
}

/// Law: parsing with no `size` pair supplied yields the default, ten.
pub proof fn lemma_default_size(validate: bool)
    ensures
        spec_parse(Seq::<(String, String)>::empty(), validate) == Ok::<int, OptionErrorModel>(10),
{
}


} // verus!
