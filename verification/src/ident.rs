//! Entry identifiers. An identifier is a 128-bit value written in the
//! canonical textual form of a UUID: five groups of hex digits of lengths
//! 8, 4, 4, 4 and 12, separated by hyphens. The identifier of a store
//! entry is always derived from the sidecar's filename, never from file
//! content. The all-zero identifier is a reserved sentinel meaning
//! "trash".

use vstd::prelude::*;

verus! {

/// Positions of the four hyphens in the canonical textual form.
pub open spec fn is_hyphen_pos(i: int) -> bool {
    i == 8 || i == 13 || i == 18 || i == 23
}

/// How many hyphen positions lie strictly before position `n`.
pub open spec fn hyphens_before(n: int) -> int {
    (if n > 8 { 1int } else { 0int }) + (if n > 13 { 1int } else { 0int }) + (if n > 18 {
        1int
    } else {
        0int
    }) + (if n > 23 { 1int } else { 0int })
}

pub open spec fn is_hex_digit(c: char) -> bool {
    let u = c as u32;
    (48 <= u && u <= 57) || (97 <= u && u <= 102) || (65 <= u && u <= 70)
}

/// Numeric value of one hex digit (0 for any other character).
pub open spec fn hex_val(c: char) -> nat {
    let u = c as u32;
    if 48 <= u && u <= 57 {
        (u - 48) as nat
    } else if 97 <= u && u <= 102 {
        (u - 87) as nat
    } else if 65 <= u && u <= 70 {
        (u - 55) as nat
    } else {
        0
    }
}

/// The hex-digit characters among the first `n` characters of `s`,
/// hyphen positions skipped, in order.
pub open spec fn uuid_digits_prefix(s: Seq<char>, n: int) -> Seq<char>
    decreases n,
{
    if n <= 0 {
        Seq::empty()
    } else if is_hyphen_pos(n - 1) {
        uuid_digits_prefix(s, n - 1)
    } else {
        uuid_digits_prefix(s, n - 1).push(s[n - 1])
    }
}

/// The 32 hex-digit characters of a canonical identifier string.
pub open spec fn uuid_digits(s: Seq<char>) -> Seq<char> {
    uuid_digits_prefix(s, 36)
}

/// Value of a big-endian sequence of hex digits.
pub open spec fn hex_num(ds: Seq<char>) -> nat
    decreases ds.len(),
{
    if ds.len() == 0 {
        0
    } else {
        16 * hex_num(ds.drop_last()) + hex_val(ds.last())
    }
}

/// The 128-bit value a canonical identifier string spells.
pub open spec fn uuid_num(s: Seq<char>) -> nat {
    hex_num(uuid_digits(s))
}

/// The canonical textual form: 36 characters, hyphens at positions 8,
/// 13, 18 and 23, hex digits everywhere else.
pub open spec fn is_canonical_uuid(s: Seq<char>) -> bool {
    &&& s.len() == 36
    &&& forall|i: int| 0 <= i < 36 && is_hyphen_pos(i) ==> #[trigger] s[i] == '-'
    &&& forall|i: int| 0 <= i < 36 && !is_hyphen_pos(i) ==> is_hex_digit(#[trigger] s[i])
}

pub open spec fn pow16(n: nat) -> nat
    decreases n,
{
    if n == 0 {
        1
    } else {
        16 * pow16((n - 1) as nat)
    }
}

pub proof fn lemma_pow16_31_value()
    ensures
        pow16(31) == 0x10000000000000000000000000000000nat,
{
    reveal_with_fuel(pow16, 33);
}

pub proof fn lemma_pow16_32_value()
    ensures
        pow16(32) == 0x100000000000000000000000000000000nat,
{
    reveal_with_fuel(pow16, 34);
}

pub proof fn lemma_pow16_pos(n: nat)
    ensures
        pow16(n) >= 1,
    decreases n,
{
    if n > 0 {
        lemma_pow16_pos((n - 1) as nat);
    }
}

pub proof fn lemma_pow16_increases(a: nat, b: nat)
    requires
        a <= b,
    ensures
        pow16(a) <= pow16(b),
    decreases b,
{
    if a < b {
        lemma_pow16_increases(a, (b - 1) as nat);
        lemma_pow16_pos((b - 1) as nat);
    }
}

pub proof fn lemma_hex_num_bound(ds: Seq<char>)
    ensures
        hex_num(ds) < pow16(ds.len()),
    decreases ds.len(),
{
    if ds.len() > 0 {
        lemma_hex_num_bound(ds.drop_last());
    }
}

pub proof fn lemma_digits_prefix_len(s: Seq<char>, n: int)
    requires
        0 <= n <= 36,
    ensures
        uuid_digits_prefix(s, n).len() == n - hyphens_before(n),
    decreases n,
{
    if n > 0 {
        lemma_digits_prefix_len(s, n - 1);
    }
}

/// A store entry's identifier, held as the 128-bit value its canonical
/// textual form spells.
#[derive(Clone, Copy, Debug, PartialEq, Eq, Structural)]
pub struct ItemId {
    pub value: u128,
}

impl ItemId {
    /// The reserved all-zero identifier, used as a parent reference
    /// meaning "trash".
    pub open spec fn is_nil_spec(self) -> bool {
        self.value == 0
    }

    pub fn is_nil(&self) -> (r: bool)
        ensures
            r == self.is_nil_spec(),
    {
        self.value == 0
    }

    /// Parse an identifier from its canonical textual form. Returns
    /// `None` exactly when the string is not in that form; on success
    /// the value is the number the 32 hex digits spell.
    pub fn parse_str(s: &str) -> (r: Option<ItemId>)
        ensures
            r is Some <==> is_canonical_uuid(s@),
            r is Some ==> r->Some_0.value == uuid_num(s@),
    {
        let n = s.unicode_len();
        if n != 36 {
            return None;
        }
        let mut acc: u128 = 0;
        let ghost mut ds: Seq<char> = Seq::<char>::empty();
        let mut i: usize = 0;
        while i < 36
            invariant
                s@.len() == 36,
                i <= 36,
                ds == uuid_digits_prefix(s@, i as int),
                acc == hex_num(ds),
                forall|j: int| 0 <= j < i && is_hyphen_pos(j) ==> #[trigger] s@[j] == '-',
                forall|j: int| 0 <= j < i && !is_hyphen_pos(j) ==> is_hex_digit(#[trigger] s@[j]),
            decreases 36 - i,
        {
            let c = s.get_char(i);
            if i == 8 || i == 13 || i == 18 || i == 23 {
                if c != '-' {
                    return None;
                }
            } else {
                let u = c as u32;
                let v: u32 = if 48 <= u && u <= 57 {
                    u - 48
                } else if 97 <= u && u <= 102 {
                    u - 87
                } else if 65 <= u && u <= 70 {
                    u - 55
                } else {
                    return None;
                };
                proof {
                    lemma_digits_prefix_len(s@, i as int);
                    lemma_hex_num_bound(ds);
                    lemma_pow16_increases(ds.len(), 31);
                    lemma_pow16_31_value();
                }
                acc = acc * 16 + (v as u128);
                proof {
                    let ds2 = ds.push(c);
                    assert(ds2.drop_last() =~= ds);
                    assert(ds2.last() == c);
                    ds = ds2;
                }
            }
            i = i + 1;
        }
        Some(ItemId { value: acc })
    }

    /// Write the identifier in canonical textual form, lowercase.
    pub fn to_canonical(&self) -> (r: String)
        ensures
            r@ == canon_chars(self.value),
            is_canonical_uuid(r@),
            uuid_num(r@) == self.value,
    {
        let mut bytes: Vec<u8> = Vec::new();
        let mut i: usize = 0;
        let mut j: usize = 0;
        while i < 36
            invariant
                i <= 36,
                j == i - hyphens_before(i as int),
                bytes@.len() == i,
                forall|k: int|
                    0 <= k < i ==> #[trigger] bytes@[k] < 128 && bytes@[k] as char == canon_char_at(
                        self.value,
                        k,
                    ),
            decreases 36 - i,
        {
            if i == 8 || i == 13 || i == 18 || i == 23 {
                bytes.push(45);
            } else {
                let p = pow16_exec(31 - j);
                proof {
                    lemma_pow16_pos((31 - j) as nat);
                }
                let d = ((self.value / p) % 16) as u8;
                let b = if d < 10 {
                    d + 48
                } else {
                    d + 87
                };
                bytes.push(b);
                j = j + 1;
            }
            i = i + 1;
        }
        let s = ascii_to_string(bytes);
        proof {
            assert(s@ =~= canon_chars(self.value));
            lemma_canon_chars_canonical(self.value);
            lemma_canon_chars_num(self.value);
        }
        s
    }
}

/// The nibble of `v` at big-endian digit position `j` (0 is the most
/// significant of the 32 digits).
pub open spec fn nibble(v: u128, j: int) -> nat {
    ((v as nat) / pow16((31 - j) as nat)) % 16
}

/// The lowercase hex digit character for a value below 16.
pub open spec fn hex_char(d: nat) -> char {
    if d < 10 {
        (d + 48) as char
    } else {
        (d + 87) as char
    }
}

/// Which digit of the 32 stands at string position `i`.
pub open spec fn digit_index_of(i: int) -> int {
    i - hyphens_before(i)
}

pub open spec fn canon_char_at(v: u128, i: int) -> char {
    if is_hyphen_pos(i) {
        '-'
    } else {
        hex_char(nibble(v, digit_index_of(i)))
    }
}

/// The canonical lowercase textual form of a 128-bit identifier value.
pub open spec fn canon_chars(v: u128) -> Seq<char> {
    Seq::new(36, |i: int| canon_char_at(v, i))
}

pub fn pow16_exec(n: usize) -> (r: u128)
    requires
        n <= 31,
    ensures
        r == pow16(n as nat),
{
    let mut r: u128 = 1;
    let mut k: usize = 0;
    while k < n
        invariant
            k <= n <= 31,
            r == pow16(k as nat),
        decreases n - k,
    {
        proof {
            lemma_pow16_increases(k as nat + 1, 31);
            lemma_pow16_31_value();
        }
        r = r * 16;
        k = k + 1;
    }
    r
}

/// The canonical form of any value is itself canonical.
pub proof fn lemma_canon_chars_canonical(v: u128)
    ensures
        is_canonical_uuid(canon_chars(v)),
{
    assert forall|i: int| 0 <= i < 36 && !is_hyphen_pos(i) implies is_hex_digit(
        #[trigger] canon_chars(v)[i],
    ) by {
        assert(nibble(v, digit_index_of(i)) < 16);
    }
}

/// Reading the canonical form of a value back yields that value: the
/// identifier round-trips through its textual form.
pub proof fn lemma_canon_chars_num(v: u128)
    ensures
        uuid_num(canon_chars(v)) == v,
{
    lemma_canon_num_prefix(v, 36);
    lemma_pow16_32_value();
    assert((v as nat) / pow16(0) == v as nat) by {
        vstd::arithmetic::div_mod::lemma_div_basics((v as nat) as int);
    }
    assert((v as nat) % pow16(32) == v as nat) by {
        vstd::arithmetic::div_mod::lemma_small_mod(v as nat, pow16(32));
    }
}

/// After scanning the first `n` positions of the canonical form, the
/// digits read so far spell the top bits of `v`.
proof fn lemma_canon_num_prefix(v: u128, n: int)
    requires
        0 <= n <= 36,
    ensures
        hex_num(uuid_digits_prefix(canon_chars(v), n)) == ((v as nat) / pow16(
            (32 - (n - hyphens_before(n))) as nat,
        )) % pow16((n - hyphens_before(n)) as nat),
    decreases n,
{
    lemma_digits_prefix_len(canon_chars(v), n);
    if n == 0 {
        lemma_pow16_pos(32);
        assert((v as nat) % pow16(0) == 0) by {
            vstd::arithmetic::div_mod::lemma_mod_bound((v as nat) as int, 1);
        }
    } else {
        lemma_canon_num_prefix(v, n - 1);
        lemma_digits_prefix_len(canon_chars(v), n - 1);
        if is_hyphen_pos(n - 1) {
        } else {
            let j = digit_index_of(n - 1);
            let k = (n - 1) - hyphens_before(n - 1);
            assert(j == k);
            let lo = (31 - j) as nat;
            let hi = (32 - j) as nat;
            lemma_pow16_pos(lo);
            lemma_pow16_pos(hi);
            let ds = uuid_digits_prefix(canon_chars(v), n);
            assert(ds.drop_last() =~= uuid_digits_prefix(canon_chars(v), n - 1));
            assert(ds.last() == canon_chars(v)[n - 1]);
            assert(canon_chars(v)[n - 1] == hex_char(nibble(v, j)));
            lemma_hex_val_hex_char(nibble(v, j));
            // hex_num(ds) == 16 * ((v / pow16(hi)) % pow16(k)) + (v / pow16(lo)) % 16
            // goal:        (v / pow16(lo)) % pow16(k + 1)
            lemma_digit_step(v as nat, j as nat, k as nat);
        }
    }
}

/// hex_char and hex_val are inverse for digit values.
pub proof fn lemma_hex_val_hex_char(d: nat)
    requires
        d < 16,
    ensures
        hex_val(hex_char(d)) == d,
        is_hex_digit(hex_char(d)),
{
}

/// One step of reading a number digit by digit from the top:
/// appending the next nibble to the digits read so far.
proof fn lemma_digit_step(v: nat, j: nat, k: nat)
    requires
        j == k,
        j <= 31,
    ensures
        16 * ((v / pow16((32 - j) as nat)) % pow16(k)) + (v / pow16((31 - j) as nat)) % 16 == (v
            / pow16((31 - j) as nat)) % pow16((k + 1) as nat),
{
    let lo = (31 - j) as nat;
    let hi = (32 - j) as nat;
    lemma_pow16_pos(lo);
    lemma_pow16_pos(k);
    let q = v / pow16(lo);
    // v / pow16(hi) == q / 16
    assert(pow16(hi) == 16 * pow16(lo));
    vstd::arithmetic::div_mod::lemma_div_denominator(v as int, pow16(lo) as int, 16);
    assert(v / pow16(hi) == q / 16);
    // (q / 16) % pow16(k) * 16 + q % 16 == q % (16 * pow16(k))
    lemma_mod_split(q, k);
}

/// For any value `q`: q % (16 * pow16(k)) splits into the lower nibble
/// and the rest.
proof fn lemma_mod_split(q: nat, k: nat)
    ensures
        16 * ((q / 16) % pow16(k)) + q % 16 == q % pow16((k + 1) as nat),
{
    lemma_pow16_pos(k);
    assert(pow16((k + 1) as nat) == 16 * pow16(k));
    vstd::arithmetic::div_mod::lemma_breakdown(q as int, 16, pow16(k) as int);
}

/// A hex digit as `to_canonical` writes it: a decimal digit or a
/// lowercase letter.
pub open spec fn is_lower_hex_digit(c: char) -> bool {
    let u = c as u32;
    (48 <= u && u <= 57) || (97 <= u && u <= 102)
}

/// The canonical textual form in the exact spelling `to_canonical`
/// produces: hex digits all lowercase.
pub open spec fn is_lower_canonical_uuid(s: Seq<char>) -> bool {
    is_canonical_uuid(s) && forall|i: int|
        0 <= i < 36 && !is_hyphen_pos(i) ==> is_lower_hex_digit(#[trigger] s[i])
}

proof fn lemma_hex_num_injective(a: Seq<char>, b: Seq<char>)
    requires
        a.len() == b.len(),
        forall|i: int| 0 <= i < a.len() ==> is_lower_hex_digit(#[trigger] a[i]),
        forall|i: int| 0 <= i < b.len() ==> is_lower_hex_digit(#[trigger] b[i]),
        hex_num(a) == hex_num(b),
    ensures
        a == b,
    decreases a.len(),
{
    if a.len() > 0 {
        assert(is_lower_hex_digit(a.last()));
        assert(is_lower_hex_digit(b.last()));
        assert(hex_val(a.last()) < 16);
        assert(hex_val(b.last()) < 16);
        assert(hex_val(a.last()) == hex_val(b.last()));
        assert((a.last() as u32) == (b.last() as u32));
        vstd::utf8::char_u32_cast(a.last(), a.last() as u32);
        vstd::utf8::char_u32_cast(b.last(), b.last() as u32);
        assert(a.last() == b.last());
        assert forall|i: int| 0 <= i < a.drop_last().len() implies is_lower_hex_digit(
            #[trigger] a.drop_last()[i],
        ) by {
            assert(a.drop_last()[i] == a[i]);
        }
        assert forall|i: int| 0 <= i < b.drop_last().len() implies is_lower_hex_digit(
            #[trigger] b.drop_last()[i],
        ) by {
            assert(b.drop_last()[i] == b[i]);
        }
        lemma_hex_num_injective(a.drop_last(), b.drop_last());
        assert forall|i: int| 0 <= i < a.len() implies a[i] == b[i] by {
            if i < a.len() - 1 {
                assert(a.drop_last()[i] == a[i]);
                assert(b.drop_last()[i] == b[i]);
            } else {
                assert(a[i] == a.last());
                assert(b[i] == b.last());
            }
        }
        assert(a =~= b);
    } else {
        assert(a =~= b);
    }
}

proof fn lemma_digits_prefix_index(s: Seq<char>, n: int, i: int)
    requires
        0 <= i < n <= 36,
        !is_hyphen_pos(i),
    ensures
        digit_index_of(i) < uuid_digits_prefix(s, n).len(),
        uuid_digits_prefix(s, n)[digit_index_of(i)] == s[i],
    decreases n,
{
    lemma_digits_prefix_len(s, n);
    lemma_digits_prefix_len(s, n - 1);
    if i < n - 1 {
        lemma_digits_prefix_index(s, n - 1, i);
    }
}

proof fn lemma_digits_prefix_lower(s: Seq<char>, n: int)
    requires
        0 <= n <= 36,
        forall|i: int| 0 <= i < n && !is_hyphen_pos(i) ==> is_lower_hex_digit(#[trigger] s[i]),
    ensures
        forall|k: int|
            0 <= k < uuid_digits_prefix(s, n).len() ==> is_lower_hex_digit(
                #[trigger] uuid_digits_prefix(s, n)[k],
            ),
    decreases n,
{
    if n > 0 {
        lemma_digits_prefix_lower(s, n - 1);
        let pre = uuid_digits_prefix(s, n - 1);
        assert forall|k: int|
            0 <= k < uuid_digits_prefix(s, n).len() implies is_lower_hex_digit(
            #[trigger] uuid_digits_prefix(s, n)[k],
        ) by {
            if !is_hyphen_pos(n - 1) {
                assert(uuid_digits_prefix(s, n) == pre.push(s[n - 1]));
                if k < pre.len() {
                    assert(pre.push(s[n - 1])[k] == pre[k]);
                } else {
                    assert(pre.push(s[n - 1])[k] == s[n - 1]);
                }
            }
        }
    }
}

/// A canonical lowercase string is the only lowercase spelling of its
/// value: parsing and then formatting an identifier gives back the very
/// string it came from.
pub proof fn lemma_lower_canonical_unique(s: Seq<char>)
    requires
        is_lower_canonical_uuid(s),
    ensures
        canon_chars(uuid_num(s) as u128) == s,
{
    lemma_digits_prefix_len(s, 36);
    lemma_hex_num_bound(uuid_digits(s));
    lemma_pow16_32_value();
    let v = uuid_num(s) as u128;
    assert(uuid_num(s) == v as nat);
    lemma_canon_chars_num(v);
    lemma_canon_chars_canonical(v);
    let c = canon_chars(v);
    lemma_digits_prefix_len(c, 36);
    let da = uuid_digits(s);
    let db = uuid_digits(c);
    lemma_digits_prefix_lower(s, 36);
    assert forall|i: int| 0 <= i < 36 && !is_hyphen_pos(i) implies is_lower_hex_digit(
        #[trigger] c[i],
    ) by {
        vstd::arithmetic::div_mod::lemma_mod_bound(
            ((v as nat) / pow16((31 - digit_index_of(i)) as nat)) as int,
            16,
        );
    }
    lemma_digits_prefix_lower(c, 36);
    lemma_hex_num_injective(da, db);
    assert forall|i: int| 0 <= i < 36 implies s[i] == c[i] by {
        if !is_hyphen_pos(i) {
            lemma_digits_prefix_index(s, 36, i);
            lemma_digits_prefix_index(c, 36, i);
        }
    }
    assert(s =~= c);
}

/// Relies on `String::from_utf8`: on bytes below 128 (ASCII) it
/// succeeds, and the string's characters are exactly the input bytes.
#[verifier::external_body]
fn ascii_to_string(bytes: Vec<u8>) -> (r: String)
    requires
        forall|i: int| 0 <= i < bytes@.len() ==> bytes@[i] < 128,
    ensures
        r@ == bytes@.map_values(|b: u8| b as char),
{
    match String::from_utf8(bytes) {
        Ok(s) => s,
        Err(_) => String::new(),
    }
}

} // verus!
