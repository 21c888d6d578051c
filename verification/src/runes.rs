//! Runes etching: rune-name encoding, LEB128 fields and the runestone `OP_RETURN` script.
use vstd::prelude::*;
use vstd::string::*;
use crate::script::{builder_into_script, builder_new, builder_push_opcode, builder_push_slice, push_bytes_contents, push_bytes_extend, push_bytes_new, push_data, push_limit, OP_PUSHNUM_13, OP_RETURN};

verus! {

/// Largest divisibility a rune may have.
pub const MAX_DIVISIBILITY: u8 = 38;

/// Mask of the spacer bits a rune name may carry.
pub const MAX_SPACERS: u32 = 0b00000111111111111111111111111111;

/// Longest rune name, in characters.
pub const MAX_NAME_LEN: usize = 28;

/// Runestone field tags.
#[derive(Debug, Clone, Copy, PartialEq, Eq, Structural)]
pub enum Tag {
    Body,
    Flags,
    Rune,
    Premine,
    Cap,
    Amount,
    HeightStart,
    HeightEnd,
    OffsetStart,
    OffsetEnd,
    Mint,
    Pointer,
    Cenotaph,
    Divisibility,
    Spacers,
    Symbol,
    Nop,
}

impl Tag {
    /// The number that stands for the tag in a runestone.
    pub open spec fn spec_value(self) -> u64 {
        match self {
            Tag::Body => 0,
            Tag::Flags => 2,
            Tag::Rune => 4,
            Tag::Premine => 6,
            Tag::Cap => 8,
            Tag::Amount => 10,
            Tag::HeightStart => 12,
            Tag::HeightEnd => 14,
            Tag::OffsetStart => 16,
            Tag::OffsetEnd => 18,
            Tag::Mint => 20,
            Tag::Pointer => 22,
            Tag::Cenotaph => 126,
            Tag::Divisibility => 1,
            Tag::Spacers => 3,
            Tag::Symbol => 5,
            Tag::Nop => 127,
        }
    }

    pub fn value(self) -> (r: u64)
        ensures
            r == self.spec_value(),
    {
        match self {
            Tag::Body => 0,
            Tag::Flags => 2,
            Tag::Rune => 4,
            Tag::Premine => 6,
            Tag::Cap => 8,
            Tag::Amount => 10,
            Tag::HeightStart => 12,
            Tag::HeightEnd => 14,
            Tag::OffsetStart => 16,
            Tag::OffsetEnd => 18,
            Tag::Mint => 20,
            Tag::Pointer => 22,
            Tag::Cenotaph => 126,
            Tag::Divisibility => 1,
            Tag::Spacers => 3,
            Tag::Symbol => 5,
            Tag::Nop => 127,
        }
    }
}

/// Etching flags.
#[derive(Debug, Clone, Copy, PartialEq, Eq, Structural)]
pub enum Flag {
    Etching,
    Terms,
    Turbo,
    Cenotaph,
}

impl Flag {
    /// The bit position of the flag.
    pub open spec fn position(self) -> u128 {
        match self {
            Flag::Etching => 0,
            Flag::Terms => 1,
            Flag::Turbo => 2,
            Flag::Cenotaph => 127,
        }
    }

    /// The flag's bit in the flags field.
    pub fn mask(self) -> (r: u128)
        ensures
            r == 1u128 << self.position(),
    {
        let position: u128 = match self {
            Flag::Etching => 0,
            Flag::Terms => 1,
            Flag::Turbo => 2,
            Flag::Cenotaph => 127,
        };
        1u128 << position
    }
}

/// Unsigned LEB128 encoding of `v`: seven bits per byte, least significant group
/// first, the high bit set on every byte but the last.
#[verifier::opaque]
pub open spec fn leb128(v: nat) -> Seq<u8>
    decreases v,
{
    if v < 128 {
        seq![v as u8]
    } else {
        seq![(v % 128 + 128) as u8] + leb128(v / 128)
    }
}

/// The number an unsigned LEB128 byte string stands for.
pub open spec fn leb128_decode(bytes: Seq<u8>) -> int
    decreases bytes.len(),
{
    if bytes.len() == 0 {
        0
    } else {
        (bytes[0] % 128) as int + 128 * leb128_decode(bytes.drop_first())
    }
}

/// LEB128 encodings are self-delimiting and decode back: every byte but the last has
/// its high bit set, the last does not, and the bytes decode to the encoded number.
pub proof fn lemma_leb128_roundtrip(v: nat)
    ensures
        leb128(v).len() >= 1,
        leb128(v)[leb128(v).len() - 1] < 128,
        forall|i: int| 0 <= i < leb128(v).len() - 1 ==> #[trigger] leb128(v)[i] >= 128,
        leb128_decode(leb128(v)) == v,
    decreases v,
{
    reveal(leb128);
    if v >= 128 {
        lemma_leb128_roundtrip(v / 128);
        let rest = leb128(v / 128);
        let first = (v % 128 + 128) as u8;
        assert(leb128(v) == seq![first] + rest);
        assert((seq![first] + rest).drop_first() =~= rest);
        assert(first % 128 == v % 128);
        assert forall|i: int| 0 <= i < leb128(v).len() - 1 implies #[trigger] leb128(v)[i] >= 128 by {
            if i > 0 {
                assert(leb128(v)[i] == rest[i - 1]);
            }
        }
        assert(leb128_decode(leb128(v)) == (first % 128) as int + 128 * leb128_decode(rest));
        assert(v % 128 + 128 * (v / 128) == v);
    } else {
        assert(leb128(v) == seq![v as u8]);
        assert(seq![v as u8].drop_first() =~= Seq::<u8>::empty());
        assert(leb128_decode(Seq::<u8>::empty()) == 0);
    }
}

/// `leb128::write::unsigned`, writing into a `Vec<u8>` (which cannot fail): appends
/// the unsigned LEB128 encoding of `value` and returns how many bytes it wrote.
#[verifier::external_body]
fn leb128_write_unsigned(buf: &mut Vec<u8>, value: u64) -> (n: usize)
    ensures
        final(buf)@ == old(buf)@ + leb128(value as nat),
        n == leb128(value as nat).len(),
{
    leb128::write::unsigned(buf, value).unwrap()
}

/// The unsigned LEB128 encoding of `value`.
pub fn encode_leb128(value: u64) -> (r: Vec<u8>)
    ensures
        r@ == leb128(value as nat),
{
    let mut buf: Vec<u8> = Vec::new();
    leb128_write_unsigned(&mut buf, value);
    assert(buf@ =~= leb128(value as nat));
    buf
}

/// Why a rune name was refused.
#[derive(Debug, Clone, Copy, PartialEq, Eq, Structural)]
pub enum RuneNameError {
    Empty,
    TooLong,
    NotUppercase,
    Overflow,
}

/// The message that goes with each refusal.
pub open spec fn rune_name_error_message(e: RuneNameError) -> Seq<char> {
    match e {
        RuneNameError::Empty => "Rune name cannot be empty"@,
        RuneNameError::TooLong => "Rune name cannot exceed 28 characters"@,
        RuneNameError::NotUppercase => "Rune name must contain only uppercase letters A-Z"@,
        RuneNameError::Overflow => "Rune Name Value Overflow"@,
    }
}

fn rune_name_error_string(e: RuneNameError) -> (r: String)
    ensures
        r@ == rune_name_error_message(e),
{
    match e {
        RuneNameError::Empty => String::from_str("Rune name cannot be empty"),
        RuneNameError::TooLong => String::from_str("Rune name cannot exceed 28 characters"),
        RuneNameError::NotUppercase => String::from_str(
            "Rune name must contain only uppercase letters A-Z",
        ),
        RuneNameError::Overflow => String::from_str("Rune Name Value Overflow"),
    }
}

/// `c` is one of `A`..=`Z`.
pub open spec fn is_rune_letter(c: char) -> bool {
    65 <= (c as u32) <= 90
}

/// The rune letters are exactly the capitals `A` through `Z`, both included.
pub proof fn lemma_rune_letters_are_capitals(c: char)
    ensures
        is_rune_letter(c) <==> ('A' as u32) <= (c as u32) && (c as u32) <= ('Z' as u32),
{
    assert('A' as u32 == 65 && 'Z' as u32 == 90);
}

/// The letter's digit: `A` = 0, ..., `Z` = 25.
pub open spec fn rune_digit(c: char) -> int {
    (c as u32) - 65
}

/// Scans `name` from position `i` on, `value` being the number of the letters before `i`.
/// Each position is checked in order: at most 28 characters, an uppercase letter, and
/// a value that stays within `u64`.
pub open spec fn rune_name_scan(name: Seq<char>, i: nat, value: int) -> Result<int, RuneNameError>
    decreases name.len() - i,
{
    if i >= name.len() {
        Ok(value)
    } else if i >= 28 {
        Err(RuneNameError::TooLong)
    } else if !is_rune_letter(name[i as int]) {
        Err(RuneNameError::NotUppercase)
    } else {
        let next = if i == 0 {
            rune_digit(name[0])
        } else {
            (value + 1) * 26 + rune_digit(name[i as int])
        };
        if next > u64::MAX {
            Err(RuneNameError::Overflow)
        } else {
            rune_name_scan(name, i + 1, next)
        }
    }
}

/// The number a rune name stands for (bijective base 26: `A` = 0, `Z` = 25, `AA` = 26, ...),
/// or why the name is refused.
pub open spec fn spec_encode_rune_name(name: Seq<char>) -> Result<int, RuneNameError> {
    if name.len() == 0 {
        Err(RuneNameError::Empty)
    } else {
        rune_name_scan(name, 0, 0)
    }
}

/// The number of a string of letters in bijective base 26, the empty string being -1.
pub open spec fn rune_value(s: Seq<char>) -> int
    decreases s.len(),
{
    if s.len() == 0 {
        -1
    } else {
        (rune_value(s.drop_last()) + 1) * 26 + rune_digit(s.last())
    }
}

/// Every character of `s` is a letter `A`..=`Z`.
pub open spec fn all_rune_letters(s: Seq<char>) -> bool {
    forall|i: int| 0 <= i < s.len() ==> is_rune_letter(#[trigger] s[i])
}

/// The smallest number of a name of `n` letters (-1 for the empty name).
pub open spec fn rune_length_floor(n: nat) -> int
    decreases n,
{
    if n == 0 {
        -1
    } else {
        (rune_length_floor((n - 1) as nat) + 1) * 26
    }
}

proof fn lemma_scan_value(name: Seq<char>, i: nat, value: int)
    requires
        1 <= i <= name.len(),
        i <= 28,
        all_rune_letters(name.take(i as int)),
        value == rune_value(name.take(i as int)),
        value <= u64::MAX,
        rune_name_scan(name, i, value) is Ok,
    ensures
        rune_name_scan(name, i, value) == Ok::<int, RuneNameError>(rune_value(name)),
        all_rune_letters(name),
        name.len() <= 28,
        rune_value(name) <= u64::MAX,
    decreases name.len() - i,
{
    if i < name.len() {
        let next = (value + 1) * 26 + rune_digit(name[i as int]);
        assert(name.take(i as int + 1).drop_last() =~= name.take(i as int));
        assert(name.take(i as int + 1).last() == name[i as int]);
        assert(all_rune_letters(name.take(i as int + 1))) by {
            assert forall|j: int| 0 <= j < i + 1 implies is_rune_letter(#[trigger] name.take(i as int + 1)[j]) by {
                if j < i {
                    assert(name.take(i as int + 1)[j] == name.take(i as int)[j]);
                }
            }
        }
        lemma_scan_value(name, i + 1, next);
    } else {
        assert(name.take(i as int) =~= name);
    }
}

/// A name the encoder accepts is 1 to 28 letters, and its number is the name's value in
/// bijective base 26.
pub proof fn lemma_accepted_name_value(name: Seq<char>)
    requires
        spec_encode_rune_name(name) is Ok,
    ensures
        1 <= name.len() <= 28,
        all_rune_letters(name),
        rune_value(name) <= u64::MAX,
        spec_encode_rune_name(name) == Ok::<int, RuneNameError>(rune_value(name)),
{
    assert(name.take(1).drop_last() =~= Seq::<char>::empty());
    assert(rune_value(Seq::<char>::empty()) == -1);
    assert(name.take(1).last() == name[0]);
    assert(rune_value(name.take(1)) == rune_digit(name[0]));
    assert(all_rune_letters(name.take(1)));
    lemma_scan_value(name, 1, rune_digit(name[0]));
}

proof fn lemma_rune_value_range(s: Seq<char>)
    requires
        all_rune_letters(s),
    ensures
        rune_length_floor(s.len()) <= rune_value(s) < rune_length_floor(s.len() + 1),
        rune_length_floor(s.len()) >= -1,
    decreases s.len(),
{
    if s.len() > 0 {
        let t = s.drop_last();
        assert(all_rune_letters(t)) by {
            assert forall|j: int| 0 <= j < t.len() implies is_rune_letter(#[trigger] t[j]) by {
                assert(t[j] == s[j]);
            }
        }
        lemma_rune_value_range(t);
        let a = rune_length_floor(t.len());
        let b = rune_length_floor(t.len() + 1);
        let v = rune_value(t);
        let d = rune_digit(s.last());
        assert(is_rune_letter(s[s.len() - 1]));
        assert(0 <= d < 26);
        assert(b == (a + 1) * 26);
        assert(rune_length_floor(s.len() + 1) == (b + 1) * 26);
        assert(a <= v < b && 0 <= d < 26 ==> b <= (v + 1) * 26 + d < (b + 1) * 26) by (nonlinear_arith)
            requires
                b == (a + 1) * 26,
        ;
        assert(a >= -1 ==> b >= 0) by (nonlinear_arith)
            requires
                b == (a + 1) * 26,
        ;
    }
}

proof fn lemma_length_floor_increasing(m: nat, n: nat)
    requires
        m < n,
    ensures
        rune_length_floor(m + 1) <= rune_length_floor(n),
    decreases n,
{
    lemma_length_floor_ge(n);
    if m + 1 < n {
        lemma_length_floor_increasing(m, (n - 1) as nat);
        lemma_length_floor_ge((n - 1) as nat);
        let a = rune_length_floor((n - 1) as nat);
        assert(a >= -1 ==> (a + 1) * 26 >= a) by (nonlinear_arith);
    }
}

proof fn lemma_length_floor_ge(n: nat)
    ensures
        rune_length_floor(n) >= -1,
    decreases n,
{
    if n > 0 {
        lemma_length_floor_ge((n - 1) as nat);
        let a = rune_length_floor((n - 1) as nat);
        assert(a >= -1 ==> (a + 1) * 26 >= 0) by (nonlinear_arith);
    }
}

proof fn lemma_rune_value_injective(a: Seq<char>, b: Seq<char>)
    requires
        all_rune_letters(a),
        all_rune_letters(b),
        rune_value(a) == rune_value(b),
    ensures
        a == b,
    decreases a.len(),
{
    lemma_rune_value_range(a);
    lemma_rune_value_range(b);
    if a.len() < b.len() {
        lemma_length_floor_increasing(a.len(), b.len());
    } else if b.len() < a.len() {
        lemma_length_floor_increasing(b.len(), a.len());
    } else if a.len() > 0 {
        let ta = a.drop_last();
        let tb = b.drop_last();
        assert(all_rune_letters(ta)) by {
            assert forall|j: int| 0 <= j < ta.len() implies is_rune_letter(#[trigger] ta[j]) by {
                assert(ta[j] == a[j]);
            }
        }
        assert(all_rune_letters(tb)) by {
            assert forall|j: int| 0 <= j < tb.len() implies is_rune_letter(#[trigger] tb[j]) by {
                assert(tb[j] == b[j]);
            }
        }
        let va = rune_value(ta);
        let vb = rune_value(tb);
        let da = rune_digit(a.last());
        let db = rune_digit(b.last());
        assert(is_rune_letter(a[a.len() - 1]));
        assert(is_rune_letter(b[b.len() - 1]));
        assert((va + 1) * 26 + da == (vb + 1) * 26 + db && 0 <= da < 26 && 0 <= db < 26 ==> va
            == vb && da == db) by (nonlinear_arith);
        lemma_rune_value_injective(ta, tb);
        let ua = a.last() as u32;
        vstd::utf8::char_u32_cast(a.last(), ua);
        vstd::utf8::char_u32_cast(b.last(), ua);
        assert(a.last() == b.last());
        assert(a =~= ta.push(a.last()));
        assert(b =~= tb.push(b.last()));
    } else {
        assert(a =~= b);
    }
}

/// Different accepted rune names never encode to the same number.
pub proof fn lemma_encode_rune_name_injective(a: Seq<char>, b: Seq<char>)
    requires
        spec_encode_rune_name(a) is Ok,
        spec_encode_rune_name(b) is Ok,
        spec_encode_rune_name(a) == spec_encode_rune_name(b),
    ensures
        a == b,
{
    lemma_accepted_name_value(a);
    lemma_accepted_name_value(b);
    lemma_rune_value_injective(a, b);
}

proof fn lemma_scan_never_too_long(name: Seq<char>, i: nat, value: int)
    requires
        1 <= i,
        rune_length_floor(i) <= value <= u64::MAX,
    ensures
        rune_name_scan(name, i, value) != Err::<int, RuneNameError>(RuneNameError::TooLong),
    decreases name.len() - i,
{
    if i < name.len() {
        if i >= 28 {
            lemma_length_floor_increasing(14, i);
            reveal_with_fuel(rune_length_floor, 16);
            assert(rune_length_floor(15) > u64::MAX);
        } else if is_rune_letter(name[i as int]) {
            let next = (value + 1) * 26 + rune_digit(name[i as int]);
            if next <= u64::MAX {
                lemma_scan_never_too_long(name, i + 1, next);
            }
        }
    }
}

/// The 28-character limit is never what refuses a name: fifteen letters already
/// number beyond 64 bits, so a longer name is refused for overflow (or for a
/// character that is not a letter) first.
pub proof fn lemma_rune_name_never_too_long(name: Seq<char>)
    ensures
        spec_encode_rune_name(name) != Err::<int, RuneNameError>(RuneNameError::TooLong),
{
    if name.len() > 0 && is_rune_letter(name[0]) {
        reveal_with_fuel(rune_length_floor, 2);
        assert(rune_length_floor(1) == 0);
        lemma_scan_never_too_long(name, 1, rune_digit(name[0]));
    }
}

proof fn lemma_all_letters_prefix(s: Seq<char>, i: int)
    requires
        all_rune_letters(s),
        0 <= i <= s.len(),
    ensures
        all_rune_letters(s.take(i)),
{
    assert forall|j: int| 0 <= j < s.take(i).len() implies is_rune_letter(#[trigger] s.take(i)[j]) by {
        assert(s.take(i)[j] == s[j]);
    }
}

proof fn lemma_rune_value_prefix(s: Seq<char>, i: int)
    requires
        all_rune_letters(s),
        0 <= i <= s.len(),
    ensures
        rune_value(s.take(i)) <= rune_value(s),
    decreases s.len(),
{
    if i < s.len() {
        let t = s.drop_last();
        lemma_all_letters_prefix(s, s.len() - 1);
        assert(t =~= s.take(s.len() - 1));
        assert(s.take(i) =~= t.take(i));
        lemma_rune_value_prefix(t, i);
        lemma_rune_value_range(t);
        assert(is_rune_letter(s[s.len() - 1]));
    } else {
        assert(s.take(i) =~= s);
    }
}

proof fn lemma_scan_accepts(name: Seq<char>, i: nat, value: int)
    requires
        1 <= i <= name.len() <= 28,
        all_rune_letters(name),
        value == rune_value(name.take(i as int)),
        rune_value(name) <= u64::MAX,
    ensures
        rune_name_scan(name, i, value) is Ok,
    decreases name.len() - i,
{
    if i < name.len() {
        let next = (value + 1) * 26 + rune_digit(name[i as int]);
        assert(name.take(i as int + 1).drop_last() =~= name.take(i as int));
        assert(name.take(i as int + 1).last() == name[i as int]);
        lemma_rune_value_prefix(name, i as int + 1);
        lemma_scan_accepts(name, i + 1, next);
    }
}

proof fn lemma_scan_letters_not_refused(name: Seq<char>, i: nat, value: int)
    requires
        all_rune_letters(name),
    ensures
        rune_name_scan(name, i, value) != Err::<int, RuneNameError>(RuneNameError::NotUppercase),
        rune_name_scan(name, i, value) != Err::<int, RuneNameError>(RuneNameError::Empty),
    decreases name.len() - i,
{
    if i < name.len() && i < 28 {
        assert(is_rune_letter(name[i as int]));
        let next = if i == 0 {
            rune_digit(name[0])
        } else {
            (value + 1) * 26 + rune_digit(name[i as int])
        };
        if next <= u64::MAX {
            lemma_scan_letters_not_refused(name, i + 1, next);
        }
    }
}

/// A name made only of letters `A`..=`Z` is never refused for its characters, and a
/// non-empty one is not refused as empty.
pub proof fn lemma_letters_not_refused(name: Seq<char>)
    requires
        all_rune_letters(name),
    ensures
        spec_encode_rune_name(name) != Err::<int, RuneNameError>(RuneNameError::NotUppercase),
        name.len() > 0 ==> spec_encode_rune_name(name) != Err::<int, RuneNameError>(
            RuneNameError::Empty,
        ),
{
    if name.len() > 0 {
        lemma_scan_letters_not_refused(name, 0, 0);
    }
}

/// A name is accepted exactly when it is 1 to 28 letters `A`..=`Z` whose bijective
/// base-26 value fits in 64 bits; that value is then its number.
pub proof fn lemma_encode_rune_name_accepts(name: Seq<char>)
    ensures
        spec_encode_rune_name(name) is Ok <==> (1 <= name.len() <= 28 && all_rune_letters(name)
            && rune_value(name) <= u64::MAX),
        spec_encode_rune_name(name) is Ok ==> spec_encode_rune_name(name) == Ok::<
            int,
            RuneNameError,
        >(rune_value(name)),
{
    if spec_encode_rune_name(name) is Ok {
        lemma_accepted_name_value(name);
    } else if 1 <= name.len() <= 28 && all_rune_letters(name) && rune_value(name) <= u64::MAX {
        assert(name.take(1).drop_last() =~= Seq::<char>::empty());
        assert(rune_value(Seq::<char>::empty()) == -1);
        assert(name.take(1).last() == name[0]);
        lemma_rune_value_prefix(name, 1);
        assert(is_rune_letter(name[0]));
        lemma_scan_accepts(name, 1, rune_digit(name[0]));
        assert(false);
    }
}

/// Encodes a rune name as its number, refusing empty names, names of more than
/// 28 characters, characters other than `A`..=`Z` and values beyond `u64`.
pub fn encode_rune_name(name: &str) -> (r: Result<u64, String>)
    ensures
        r is Ok <==> (1 <= name@.len() <= 28 && all_rune_letters(name@) && rune_value(name@)
            <= u64::MAX),
        r is Ok ==> r->Ok_0 == rune_value(name@),
        match spec_encode_rune_name(name@) {
            Ok(v) => r is Ok && r->Ok_0 == v,
            Err(e) => r is Err && r->Err_0@ == rune_name_error_message(e),
        },
{
    proof {
        lemma_encode_rune_name_accepts(name@);
    }
    if name.is_empty() {
        return Err(rune_name_error_string(RuneNameError::Empty));
    }
    let mut value: u64 = 0;
    let mut i: usize = 0;
    for ch in it: name.chars()
        invariant
            it.seq() == name@,
            i == it.index(),
            name@.len() > 0,
            spec_encode_rune_name(name@) == rune_name_scan(name@, i as nat, value as int),
            spec_encode_rune_name(name@) is Ok <==> (1 <= name@.len() <= 28 && all_rune_letters(
                name@,
            ) && rune_value(name@) <= u64::MAX),
            spec_encode_rune_name(name@) is Ok ==> spec_encode_rune_name(name@) == Ok::<
                int,
                RuneNameError,
            >(rune_value(name@)),
    {
        assert(it.seq()[i as int] == ch);
        if i >= MAX_NAME_LEN {
            return Err(rune_name_error_string(RuneNameError::TooLong));
        }
        let code = ch as u32;
        if !(65 <= code && code <= 90) {
            return Err(rune_name_error_string(RuneNameError::NotUppercase));
        }
        let digit = (code - 65) as u64;
        if i == 0 {
            value = digit;
        } else {
            let next = value.checked_add(1);
            let next = match next {
                Some(v) => v.checked_mul(26),
                None => None,
            };
            let next = match next {
                Some(v) => v.checked_add(digit),
                None => None,
            };
            match next {
                Some(v) => {
                    value = v;
                },
                None => {
                    return Err(rune_name_error_string(RuneNameError::Overflow));
                },
            }
        }
        i = i + 1;
    }
    Ok(value)
}

/// An edict: an amount of the etched rune handed to a transaction output.
#[derive(Debug, Clone, Copy, PartialEq, Eq, Structural)]
pub struct Edict {
    /// Amount to hand out.
    pub amount: u128,
    /// Index of the receiving output.
    pub output: u32,
}

/// Open-mint terms of a rune.
#[derive(Debug, Clone, Copy)]
pub struct Terms {
    /// Amount per mint.
    pub amount: Option<u128>,
    /// Maximum number of mints.
    pub cap: Option<u128>,
    /// Absolute block height range.
    pub height: (Option<u64>, Option<u64>),
    /// Relative block height range.
    pub offset: (Option<u64>, Option<u64>),
}

/// Everything a rune etching records.
pub struct Etching {
    pub divisibility: u8,
    pub premine: u128,
    pub rune_name: String,
    pub symbol: Option<char>,
    pub terms: Option<Terms>,
    pub turbo: bool,
    pub spacers: u32,
    pub edicts: Option<Vec<Edict>>,
}

/// A tag and its value, both LEB128-encoded.
pub open spec fn field(tag: u64, value: u64) -> Seq<u8> {
    leb128(tag as nat) + leb128(value as nat)
}

/// `field(tag, value)` if `present`, else nothing.
pub open spec fn field_if(present: bool, tag: u64, value: u64) -> Seq<u8> {
    if present {
        field(tag, value)
    } else {
        Seq::empty()
    }
}

/// The flags field: the etching bit, the terms bit when there are terms, the turbo bit.
pub open spec fn flags_value(e: Etching) -> u64 {
    (1 + (if e.terms is Some {
        2int
    } else {
        0int
    }) + (if e.turbo {
        4int
    } else {
        0int
    })) as u64
}

/// The fields of a set of terms, each present value truncated to 64 bits.
pub open spec fn terms_fields(t: Terms) -> Seq<u8> {
    field_if(t.amount is Some, 10, t.amount->0 as u64) + field_if(t.cap is Some, 8, t.cap->0 as u64)
        + field_if(t.height.0 is Some, 12, t.height.0->0) + field_if(
        t.height.1 is Some,
        14,
        t.height.1->0,
    ) + field_if(t.offset.0 is Some, 16, t.offset.0->0) + field_if(
        t.offset.1 is Some,
        18,
        t.offset.1->0,
    )
}

/// The flags field has one bit per flag, each set on its own: the etching bit always,
/// the terms bit exactly when there are terms, the turbo bit exactly when turbo is asked
/// for, whatever the other, and no bit beyond these three.
pub proof fn lemma_flags_bits(e: Etching)
    ensures
        (flags_value(e) as u128) & (1u128 << Flag::Etching.position()) != 0,
        ((flags_value(e) as u128) & (1u128 << Flag::Terms.position()) != 0) <==> e.terms is Some,
        ((flags_value(e) as u128) & (1u128 << Flag::Turbo.position()) != 0) <==> e.turbo,
        flags_value(e) < 8,
{
    assert(1u128 << 0u128 == 1u128) by (bit_vector);
    assert(1u128 << 1u128 == 2u128) by (bit_vector);
    assert(1u128 << 2u128 == 4u128) by (bit_vector);
    assert(1u128 & 1u128 != 0 && 1u128 & 2u128 == 0 && 1u128 & 4u128 == 0) by (bit_vector);
    assert(3u128 & 1u128 != 0 && 3u128 & 2u128 != 0 && 3u128 & 4u128 == 0) by (bit_vector);
    assert(5u128 & 1u128 != 0 && 5u128 & 2u128 == 0 && 5u128 & 4u128 != 0) by (bit_vector);
    assert(7u128 & 1u128 != 0 && 7u128 & 2u128 != 0 && 7u128 & 4u128 != 0) by (bit_vector);
}

/// Each terms field is written under its own tag: the amount under `Amount`, the cap under
/// `Cap`, the start and end heights under `HeightStart` and `HeightEnd`, the start and end
/// offsets under `OffsetStart` and `OffsetEnd`, each only when it is present.
pub proof fn lemma_terms_fields_tags(t: Terms)
    ensures
        terms_fields(t) == field_if(t.amount is Some, Tag::Amount.spec_value(), t.amount->0 as u64)
            + field_if(t.cap is Some, Tag::Cap.spec_value(), t.cap->0 as u64) + field_if(
            t.height.0 is Some,
            Tag::HeightStart.spec_value(),
            t.height.0->0,
        ) + field_if(t.height.1 is Some, Tag::HeightEnd.spec_value(), t.height.1->0) + field_if(
            t.offset.0 is Some,
            Tag::OffsetStart.spec_value(),
            t.offset.0->0,
        ) + field_if(t.offset.1 is Some, Tag::OffsetEnd.spec_value(), t.offset.1->0),
{
}

/// The terms fields, if there are terms.
pub open spec fn terms_payload(terms: Option<Terms>) -> Seq<u8> {
    match terms {
        None => Seq::empty(),
        Some(t) => terms_fields(t),
    }
}

/// One edict: two zero deltas, the amount truncated to 64 bits, the output.
pub open spec fn edict_bytes(e: Edict) -> Seq<u8> {
    leb128(0) + leb128(0) + leb128((e.amount as u64) as nat) + leb128(e.output as nat)
}

/// All edicts, in order.
pub open spec fn edicts_payload(edicts: Seq<Edict>) -> Seq<u8>
    decreases edicts.len(),
{
    if edicts.len() == 0 {
        Seq::empty()
    } else {
        edicts_payload(edicts.drop_last()) + edict_bytes(edicts.last())
    }
}

/// The runestone payload of an etching whose name encodes to `name_value`: the fields
/// (terms included), then the body marker, then the edicts, which alone follow it.
pub open spec fn etching_payload(e: Etching, name_value: u64) -> Seq<u8> {
    field_if(e.divisibility > 0, 1, e.divisibility as u64) + field(2, flags_value(e)) + field_if(
        e.spacers > 0,
        3,
        e.spacers as u64,
    ) + field(4, name_value) + field_if(
        e.symbol is Some,
        5,
        (e.symbol->0 as u32) as u64,
    ) + field_if(e.premine > 0, 6, e.premine as u64) + terms_payload(e.terms) + leb128(0) + (
    match e.edicts {
        Some(v) => edicts_payload(v@),
        None => Seq::empty(),
    })
}

/// The runestone script: `OP_RETURN OP_13 <payload>` with the payload in one data push.
pub open spec fn runestone_script(payload: Seq<u8>) -> Seq<u8> {
    seq![OP_RETURN, OP_PUSHNUM_13] + push_data(payload)
}

/// The message for a payload too large for one data push.
pub open spec fn payload_too_large_message() -> Seq<char> {
    "Failed to create push bytes - payload may be too large"@
}

fn push_field(payload: &mut Vec<u8>, tag: u64, value: u64)
    ensures
        final(payload)@ == old(payload)@ + field(tag, value),
{
    let mut t = encode_leb128(tag);
    payload.append(&mut t);
    let mut v = encode_leb128(value);
    payload.append(&mut v);
    assert(final(payload)@ =~= old(payload)@ + field(tag, value));
}

fn push_leb128(payload: &mut Vec<u8>, value: u64)
    ensures
        final(payload)@ == old(payload)@ + leb128(value as nat),
{
    let mut t = encode_leb128(value);
    payload.append(&mut t);
}

fn etching_flags(etching: &Etching) -> (r: u64)
    ensures
        r == flags_value(*etching),
{
    let mut flags = Flag::Etching.mask();
    assert((1u128 << 0u128) == 1u128) by (bit_vector);
    if etching.terms.is_some() {
        flags = flags | Flag::Terms.mask();
        assert((1u128 | (1u128 << 1u128)) == 3u128) by (bit_vector);
    }
    if etching.turbo {
        flags = flags | Flag::Turbo.mask();
        assert((1u128 | (1u128 << 2u128)) == 5u128) by (bit_vector);
        assert((3u128 | (1u128 << 2u128)) == 7u128) by (bit_vector);
    }
    flags as u64
}

fn push_field_if(payload: &mut Vec<u8>, present: bool, tag: u64, value: u64)
    ensures
        final(payload)@ == old(payload)@ + field_if(present, tag, value),
{
    if present {
        push_field(payload, tag, value);
    } else {
        assert(payload@ =~= old(payload)@ + field_if(present, tag, value));
    }
}

#[verifier::spinoff_prover]
#[verifier::rlimit(40)]
fn push_terms_fields(payload: &mut Vec<u8>, t: Terms)
    ensures
        final(payload)@ == old(payload)@ + terms_fields(t),
{
    let ghost p0 = payload@;
    let amount: u64 = match t.amount {
        Some(a) => a as u64,
        None => 0,
    };
    push_field_if(payload, t.amount.is_some(), Tag::Amount.value(), amount);
    let ghost a = field_if(t.amount is Some, 10, t.amount->0 as u64);
    assert(payload@ == p0 + a);
    let cap: u64 = match t.cap {
        Some(c) => c as u64,
        None => 0,
    };
    push_field_if(payload, t.cap.is_some(), Tag::Cap.value(), cap);
    let ghost b = field_if(t.cap is Some, 8, t.cap->0 as u64);
    assert(payload@ == p0 + a + b);
    let h0: u64 = match t.height.0 {
        Some(h) => h,
        None => 0,
    };
    push_field_if(payload, t.height.0.is_some(), Tag::HeightStart.value(), h0);
    let ghost c = field_if(t.height.0 is Some, 12, t.height.0->0);
    let h1: u64 = match t.height.1 {
        Some(h) => h,
        None => 0,
    };
    push_field_if(payload, t.height.1.is_some(), Tag::HeightEnd.value(), h1);
    let ghost d = field_if(t.height.1 is Some, 14, t.height.1->0);
    let o0: u64 = match t.offset.0 {
        Some(o) => o,
        None => 0,
    };
    push_field_if(payload, t.offset.0.is_some(), Tag::OffsetStart.value(), o0);
    let ghost e = field_if(t.offset.0 is Some, 16, t.offset.0->0);
    let o1: u64 = match t.offset.1 {
        Some(o) => o,
        None => 0,
    };
    push_field_if(payload, t.offset.1.is_some(), Tag::OffsetEnd.value(), o1);
    let ghost f = field_if(t.offset.1 is Some, 18, t.offset.1->0);
    assert(payload@ == p0 + a + b + c + d + e + f);
    assert(terms_fields(t) == a + b + c + d + e + f);
    assert(payload@ =~= p0 + terms_fields(t));
}

fn push_terms(payload: &mut Vec<u8>, terms: &Option<Terms>)
    ensures
        final(payload)@ == old(payload)@ + terms_payload(*terms),
{
    match *terms {
        None => {
            assert(payload@ =~= old(payload)@ + terms_payload(*terms));
        },
        Some(t) => {
            push_terms_fields(payload, t);
        },
    }
}

fn push_edicts(payload: &mut Vec<u8>, edicts: &Vec<Edict>)
    ensures
        final(payload)@ == old(payload)@ + edicts_payload(edicts@),
{
    let ghost start = payload@;
    let n = edicts.len();
    let mut i: usize = 0;
    assert(edicts@.take(0) =~= Seq::<Edict>::empty());
    while i < n
        invariant
            n == edicts@.len(),
            i <= n,
            payload@ == start + edicts_payload(edicts@.take(i as int)),
        decreases n - i,
    {
        let edict = edicts[i];
        push_leb128(payload, 0);
        push_leb128(payload, 0);
        push_leb128(payload, edict.amount as u64);
        push_leb128(payload, edict.output as u64);
        assert(edicts@.take(i + 1).drop_last() =~= edicts@.take(i as int));
        assert(edicts@.take(i + 1).last() == edict);
        i = i + 1;
        assert(payload@ =~= start + edicts_payload(edicts@.take(i as int)));
    }
    assert(edicts@.take(n as int) =~= edicts@);
}

/// The runestone payload for an etching whose name encodes to `name_value`.
fn build_etching_payload(etching: &Etching, name_value: u64) -> (r: Vec<u8>)
    ensures
        r@ == etching_payload(*etching, name_value),
{
    let mut payload: Vec<u8> = Vec::new();
    let flags = etching_flags(etching);
    if etching.divisibility > 0 {
        push_field(&mut payload, Tag::Divisibility.value(), etching.divisibility as u64);
    }
    let ghost p1 = payload@;
    push_field(&mut payload, Tag::Flags.value(), flags);
    let ghost p2 = payload@;
    if etching.spacers > 0 {
        push_field(&mut payload, Tag::Spacers.value(), etching.spacers as u64);
    }
    let ghost p3 = payload@;
    push_field(&mut payload, Tag::Rune.value(), name_value);
    let ghost p4 = payload@;
    if let Some(symbol) = etching.symbol {
        push_field(&mut payload, Tag::Symbol.value(), (symbol as u32) as u64);
    }
    let ghost p5 = payload@;
    if etching.premine > 0 {
        push_field(&mut payload, Tag::Premine.value(), etching.premine as u64);
    }
    let ghost p6 = payload@;
    push_terms(&mut payload, &etching.terms);
    let ghost p7 = payload@;
    // Only the edicts follow the body marker.
    push_leb128(&mut payload, Tag::Body.value());
    let ghost p8 = payload@;
    if let Some(edicts) = &etching.edicts {
        push_edicts(&mut payload, edicts);
    }
    assert(payload@ =~= etching_payload(*etching, name_value));
    payload
}

/// The runestone `OP_RETURN` script of an etching. It fails when the rune name is
/// refused (with that refusal's message) or when the payload does not fit one data push.
pub fn build_etching_script(etching: &Etching) -> (r: Result<Vec<u8>, String>)
    ensures
        match spec_encode_rune_name(etching.rune_name@) {
            Err(e) => r is Err && r->Err_0@ == rune_name_error_message(e),
            Ok(v) => if etching_payload(*etching, v as u64).len() < push_limit() {
                r is Ok && r->Ok_0@ == runestone_script(etching_payload(*etching, v as u64))
            } else {
                r is Err && r->Err_0@ == payload_too_large_message()
            },
        },
{
    let encoded_name = match encode_rune_name(etching.rune_name.as_str()) {
        Ok(v) => v,
        Err(e) => {
            return Err(e);
        },
    };
    let payload = build_etching_payload(etching, encoded_name);
    let mut builder = builder_new();
    builder = builder_push_opcode(builder, OP_RETURN);
    builder = builder_push_opcode(builder, OP_PUSHNUM_13);
    let mut push_bytes = push_bytes_new();
    match push_bytes_extend(&mut push_bytes, payload.as_slice()) {
        Ok(()) => {},
        Err(_) => {
            return Err(String::from_str("Failed to create push bytes - payload may be too large"));
        },
    }
    assert(push_bytes_contents(push_bytes) =~= payload@);
    builder = builder_push_slice(builder, &push_bytes);
    let script = builder_into_script(builder);
    assert(script@ =~= runestone_script(payload@));
    Ok(script)
}

} // verus!
