//! Text helpers: the standard library's trimming and number formatting,
//! stated as specifications, and comparisons the rest of the library needs.

use vstd::prelude::*;
use vstd::string::*;

verus! {

/// Whether `c` has the Unicode `White_Space` property (what `char::is_whitespace` tests).
pub open spec fn is_space(c: char) -> bool {
    let u = c as u32;
    (9 <= u <= 13) || u == 32 || u == 0x85 || u == 0xA0 || u == 0x1680 || (0x2000 <= u <= 0x200A)
        || u == 0x2028 || u == 0x2029 || u == 0x202F || u == 0x205F || u == 0x3000
}

/// The characters some trimming removes.
#[derive(Debug, Clone, Copy, PartialEq, Eq)]
pub enum Strip {
    /// White space, as `str::trim` removes it.
    Space,
    /// `/`.
    Slash,
    /// `\n` and `\r`.
    Newline,
}

/// Whether `c` is removed by the trimming `kind`.
pub open spec fn stripped(kind: Strip, c: char) -> bool {
    match kind {
        Strip::Space => is_space(c),
        Strip::Slash => c == '/',
        Strip::Newline => c == '\n' || c == '\r',
    }
}

/// `s` without the characters `kind` removes at its end.
pub open spec fn drop_trailing(s: Seq<char>, kind: Strip) -> Seq<char>
    decreases s.len(),
{
    if s.len() > 0 && stripped(kind, s.last()) {
        drop_trailing(s.drop_last(), kind)
    } else {
        s
    }
}

/// `s` without the characters `kind` removes at its start.
pub open spec fn drop_leading(s: Seq<char>, kind: Strip) -> Seq<char>
    decreases s.len(),
{
    if s.len() > 0 && stripped(kind, s[0]) {
        drop_leading(s.drop_first(), kind)
    } else {
        s
    }
}

/// What `str::trim` gives.
pub open spec fn trimmed(s: Seq<char>) -> Seq<char> {
    drop_trailing(drop_leading(s, Strip::Space), Strip::Space)
}

proof fn lemma_drop_trailing(s: Seq<char>, kind: Strip, j: int)
    requires
        0 <= j <= s.len(),
        forall|k: int| j <= k < s.len() ==> stripped(kind, s[k]),
        j == 0 || !stripped(kind, s[j - 1]),
    ensures
        drop_trailing(s, kind) == s.subrange(0, j),
    decreases s.len(),
{
    if s.len() > j {
        assert(stripped(kind, s.last()));
        lemma_drop_trailing(s.drop_last(), kind, j);
        assert(s.drop_last().subrange(0, j) =~= s.subrange(0, j));
    } else {
        assert(s.subrange(0, j) =~= s);
    }
}

proof fn lemma_drop_leading(s: Seq<char>, kind: Strip, i: int)
    requires
        0 <= i <= s.len(),
        forall|k: int| 0 <= k < i ==> stripped(kind, s[k]),
        i == s.len() || !stripped(kind, s[i]),
    ensures
        drop_leading(s, kind) == s.subrange(i, s.len() as int),
    decreases s.len(),
{
    if i > 0 {
        assert(stripped(kind, s[0]));
        lemma_drop_leading(s.drop_first(), kind, i - 1);
        assert(s.drop_first().subrange(i - 1, s.len() - 1) =~= s.subrange(i, s.len() as int));
    } else {
        assert(s.subrange(0, s.len() as int) =~= s);
    }
}

/// `s` without the characters `kind` removes at its end (`str::trim_end_matches`).
pub fn trim_end(s: &str, kind: Strip) -> (r: &str)
    ensures
        r@ == drop_trailing(s@, kind),
{
    let n = s.unicode_len();
    let mut j = n;
    while j > 0
        invariant
            j <= n,
            n == s@.len(),
            forall|k: int| j <= k < n ==> stripped(kind, s@[k]),
        ensures
            j <= n,
            forall|k: int| j <= k < n ==> stripped(kind, s@[k]),
            j == 0 || !stripped(kind, s@[j - 1]),
        decreases j,
    {
        let c = s.get_char(j - 1);
        let strip = match kind {
            Strip::Space => is_space_char(c),
            Strip::Slash => c == '/',
            Strip::Newline => c == '\n' || c == '\r',
        };
        if !strip {
            break;
        }
        j -= 1;
    }
    proof {
        lemma_drop_trailing(s@, kind, j as int);
    }
    s.substring_char(0, j)
}

/// `str::trim`: `s` without white space at either end.
pub fn trim(s: &str) -> (r: &str)
    ensures
        r@ == trimmed(s@),
{
    let n = s.unicode_len();
    let mut i: usize = 0;
    while i < n
        invariant
            i <= n,
            n == s@.len(),
            forall|k: int| 0 <= k < i ==> is_space(s@[k]),
        ensures
            i <= n,
            forall|k: int| 0 <= k < i ==> is_space(s@[k]),
            i == n || !is_space(s@[i as int]),
        decreases n - i,
    {
        if !is_space_char(s.get_char(i)) {
            break;
        }
        i += 1;
    }
    proof {
        lemma_drop_leading(s@, Strip::Space, i as int);
    }
    let rest = s.substring_char(i, n);
    trim_end(rest, Strip::Space)
}

/// `char::is_whitespace`.
pub fn is_space_char(c: char) -> (r: bool)
    ensures
        r == is_space(c),
{
    let u = c as u32;
    (9 <= u && u <= 13) || u == 32 || u == 0x85 || u == 0xA0 || u == 0x1680 || (0x2000 <= u && u
        <= 0x200A) || u == 0x2028 || u == 0x2029 || u == 0x202F || u == 0x205F || u == 0x3000
}

/// Whether two strings are the same text.
pub fn same_text(a: &str, b: &str) -> (r: bool)
    ensures
        r == (a@ == b@),
{
    let x = a.as_bytes();
    let y = b.as_bytes();
    proof {
        vstd::utf8::encode_utf8_decode_utf8(a@);
        vstd::utf8::encode_utf8_decode_utf8(b@);
    }
    if x.len() != y.len() {
        return false;
    }
    let mut i: usize = 0;
    while i < x.len()
        invariant
            x@ == a.spec_bytes(),
            y@ == b.spec_bytes(),
            x.len() == y.len(),
            i <= x.len(),
            forall|j: int| 0 <= j < i ==> x@[j] == y@[j],
        decreases x.len() - i,
    {
        if x[i] != y[i] {
            return false;
        }
        i += 1;
    }
    assert(x@ =~= y@);
    true
}

/// Whether `needle` occurs in `hay` at byte offset `i`.
pub open spec fn occurs_at(hay: Seq<u8>, needle: Seq<u8>, i: int) -> bool {
    0 <= i && i + needle.len() <= hay.len() && hay.subrange(i, i + needle.len()) == needle
}

/// `str::contains` with a string pattern: the pattern's bytes occur in the text's.
pub open spec fn spec_contains(hay: Seq<char>, needle: Seq<char>) -> bool {
    exists|i: int| occurs_at(vstd::utf8::encode_utf8(hay), vstd::utf8::encode_utf8(needle), i)
}

/// Whether `needle` occurs in `hay`.
pub fn contains(hay: &str, needle: &str) -> (r: bool)
    ensures
        r == spec_contains(hay@, needle@),
{
    let h = hay.as_bytes();
    let n = needle.as_bytes();
    if n.len() > h.len() {
        assert forall|i: int| !occurs_at(h@, n@, i) by {}
        assert(h@ == vstd::utf8::encode_utf8(hay@));
        return false;
    }
    let last = h.len() - n.len();
    let mut i: usize = 0;
    while i <= last
        invariant
            h@ == hay.spec_bytes(),
            n@ == needle.spec_bytes(),
            n.len() <= h.len(),
            last == h.len() - n.len(),
            i <= last + 1,
            forall|k: int| 0 <= k < i ==> !occurs_at(h@, n@, k),
        decreases last + 1 - i,
    {
        let mut j: usize = 0;
        let mut same = true;
        while j < n.len()
            invariant
                h@ == hay.spec_bytes(),
                n@ == needle.spec_bytes(),
                i <= last,
                last == h.len() - n.len(),
                j <= n.len(),
                same == forall|m: int| 0 <= m < j ==> h@[i + m] == n@[m],
            decreases n.len() - j,
        {
            if h[i + j] != n[j] {
                same = false;
            }
            j += 1;
        }
        if same {
            assert(h@.subrange(i as int, i + n.len()) =~= n@);
            assert(occurs_at(h@, n@, i as int));
            assert(h@ == vstd::utf8::encode_utf8(hay@));
            return true;
        }
        assert(!occurs_at(h@, n@, i as int)) by {
            let m = choose|m: int| 0 <= m < n.len() && h@[i + m] != n@[m];
            assert(h@.subrange(i as int, i + n.len())[m] == h@[i + m]);
        }
        i += 1;
    }
    assert forall|k: int| !occurs_at(h@, n@, k) by {
        if 0 <= k && k + n.len() <= h.len() {
            assert(k < i);
        }
    }
    assert(h@ == vstd::utf8::encode_utf8(hay@));
    false
}

/// ASCII letters folded to lower case; other characters kept (`char::to_ascii_lowercase`).
pub open spec fn ascii_lower(c: char) -> char {
    if 'A' <= c <= 'Z' {
        ((c as u32) + 32) as char
    } else {
        c
    }
}

/// `str::eq_ignore_ascii_case`: same length and the same characters after folding ASCII case.
pub open spec fn same_ignoring_ascii_case(a: Seq<char>, b: Seq<char>) -> bool {
    a.len() == b.len() && forall|k: int| 0 <= k < a.len() ==> ascii_lower(a[k]) == ascii_lower(b[k])
}

fn ascii_lower_char(c: char) -> (r: char)
    ensures
        r == ascii_lower(c),
{
    if 'A' <= c && c <= 'Z' {
        let u: u8 = ((c as u32) + 32) as u8;
        u as char
    } else {
        c
    }
}


/// Whether `a` and `b` are the same text up to ASCII case.
pub fn eq_ignore_ascii_case(a: &str, b: &str) -> (r: bool)
    ensures
        r == same_ignoring_ascii_case(a@, b@),
{
    let n = a.unicode_len();
    if n != b.unicode_len() {
        return false;
    }
    let mut i: usize = 0;
    while i < n
        invariant
            n == a@.len(),
            n == b@.len(),
            i <= n,
            forall|k: int| 0 <= k < i ==> ascii_lower(a@[k]) == ascii_lower(b@[k]),
        decreases n - i,
    {
        if ascii_lower_char(a.get_char(i)) != ascii_lower_char(b.get_char(i)) {
            return false;
        }
        i += 1;
    }
    true
}

/// The character of a hexadecimal digit, in lower case.
pub open spec fn hex_digit(d: int) -> char {
    if d < 10 {
        (48 + d) as char
    } else {
        (87 + d) as char
    }
}

/// The lowest `width` hexadecimal digits of `v`, most significant first.
pub open spec fn hex_fixed(v: nat, width: nat) -> Seq<char>
    decreases width,
{
    if width == 0 {
        Seq::empty()
    } else {
        hex_fixed(v / 16, (width - 1) as nat) + seq![hex_digit((v % 16) as int)]
    }
}

/// Two lower-case hexadecimal digits per byte (`hex::encode`).
pub open spec fn hex_lower(bytes: Seq<u8>) -> Seq<char>
    decreases bytes.len(),
{
    if bytes.len() == 0 {
        Seq::empty()
    } else {
        hex_lower(bytes.drop_last()) + hex_fixed(bytes.last() as nat, 2)
    }
}

/// The hyphenated lower-case form of a UUID (how `uuid::Uuid` displays).
pub open spec fn uuid_hyphenated(id: u128) -> Seq<char> {
    let h = hex_fixed(id as nat, 32);
    h.subrange(0, 8) + "-"@ + h.subrange(8, 12) + "-"@ + h.subrange(12, 16) + "-"@ + h.subrange(
        16,
        20,
    ) + "-"@ + h.subrange(20, 32)
}

/// The decimal digits of `n`, most significant first, without leading zeros.
pub open spec fn digits(n: nat) -> Seq<char>
    decreases n,
{
    if n < 10 {
        seq![(48 + n) as char]
    } else {
        digits(n / 10) + seq![(48 + n % 10) as char]
    }
}

/// An integer written in decimal, with `-` before a negative one (how integers display).
pub open spec fn decimal(n: int) -> Seq<char> {
    if n < 0 {
        seq!['-'] + digits((-n) as nat)
    } else {
        digits(n as nat)
    }
}

fn digit_text(d: u64) -> (r: &'static str)
    requires
        d < 10,
    ensures
        r@ == seq![(48 + d) as char],
{
    match d {
        0 => {
            proof {
                reveal_strlit("0");
            }
            "0"
        },
        1 => {
            proof {
                reveal_strlit("1");
            }
            "1"
        },
        2 => {
            proof {
                reveal_strlit("2");
            }
            "2"
        },
        3 => {
            proof {
                reveal_strlit("3");
            }
            "3"
        },
        4 => {
            proof {
                reveal_strlit("4");
            }
            "4"
        },
        5 => {
            proof {
                reveal_strlit("5");
            }
            "5"
        },
        6 => {
            proof {
                reveal_strlit("6");
            }
            "6"
        },
        7 => {
            proof {
                reveal_strlit("7");
            }
            "7"
        },
        8 => {
            proof {
                reveal_strlit("8");
            }
            "8"
        },
        _ => {
            proof {
                reveal_strlit("9");
            }
            "9"
        },
    }
}

fn digits_text(n: u64) -> (r: String)
    ensures
        r@ == digits(n as nat),
    decreases n,
{
    if n < 10 {
        String::from_str(digit_text(n))
    } else {
        digits_text(n / 10).concat(digit_text(n % 10))
    }
}

/// An integer in decimal, as `i64`'s `to_string` writes it.
pub fn decimal_text(n: i64) -> (r: String)
    ensures
        r@ == decimal(n as int),
{
    if n < 0 {
        proof {
            reveal_strlit("-");
        }
        let magnitude: u64 = (-(n as i128)) as u64;
        String::from_str("-").concat(digits_text(magnitude).as_str())
    } else {
        digits_text(n as u64)
    }
}

/// A UUID in its hyphenated form (`uuid::Uuid::from_u128`, then `to_string`).
#[verifier::external_body]
pub(crate) fn uuid_text(id: u128) -> (r: String)
    ensures
        r@ == uuid_hyphenated(id),
{
    uuid::Uuid::from_u128(id).to_string()
}

/// Sixteen to the power `w`.
pub open spec fn pow16(w: nat) -> nat
    decreases w,
{
    if w == 0 {
        1
    } else {
        16 * pow16((w - 1) as nat)
    }
}

proof fn lemma_hex_digit_injective(a: int, b: int)
    requires
        0 <= a < 16,
        0 <= b < 16,
        hex_digit(a) == hex_digit(b),
    ensures
        a == b,
{
}

/// `hex_fixed` writes exactly `width` digits.
pub proof fn lemma_hex_fixed_len(v: nat, width: nat)
    ensures
        hex_fixed(v, width).len() == width,
    decreases width,
{
    if width > 0 {
        lemma_hex_fixed_len(v / 16, (width - 1) as nat);
    }
}

/// Values below `16^width` are told apart by their `width` digits.
pub proof fn lemma_hex_fixed_injective(a: nat, b: nat, width: nat)
    requires
        a < pow16(width),
        b < pow16(width),
        hex_fixed(a, width) == hex_fixed(b, width),
    ensures
        a == b,
    decreases width,
{
    if width > 0 {
        let w = (width - 1) as nat;
        lemma_hex_fixed_len(a / 16, w);
        lemma_hex_fixed_len(b / 16, w);
        let ha = hex_fixed(a, width);
        let hb = hex_fixed(b, width);
        assert(ha.drop_last() =~= hex_fixed(a / 16, w));
        assert(hb.drop_last() =~= hex_fixed(b / 16, w));
        assert(ha.last() == hex_digit((a % 16) as int));
        assert(hb.last() == hex_digit((b % 16) as int));
        lemma_hex_digit_injective((a % 16) as int, (b % 16) as int);
        lemma_hex_fixed_injective(a / 16, b / 16, w);
    }
}

/// `hex_lower` writes two digits per byte.
pub proof fn lemma_hex_lower_len(bytes: Seq<u8>)
    ensures
        hex_lower(bytes).len() == 2 * bytes.len(),
    decreases bytes.len(),
{
    if bytes.len() > 0 {
        lemma_hex_lower_len(bytes.drop_last());
        lemma_hex_fixed_len(bytes.last() as nat, 2);
    }
}

/// A UUID is written with 36 characters.
pub proof fn lemma_uuid_hyphenated_len(id: u128)
    ensures
        uuid_hyphenated(id).len() == 36,
{
    reveal_strlit("-");
    lemma_hex_fixed_len(id as nat, 32);
}

/// Different UUIDs are written differently.
pub proof fn lemma_uuid_hyphenated_injective(a: u128, b: u128)
    requires
        uuid_hyphenated(a) == uuid_hyphenated(b),
    ensures
        a == b,
{
    reveal_strlit("-");
    let ha = hex_fixed(a as nat, 32);
    let hb = hex_fixed(b as nat, 32);
    lemma_hex_fixed_len(a as nat, 32);
    lemma_hex_fixed_len(b as nat, 32);
    let ua = uuid_hyphenated(a);
    let ub = uuid_hyphenated(b);
    assert forall|k: int| 0 <= k < 32 implies ha[k] == hb[k] by {
        let pos = if k < 8 {
            k
        } else if k < 12 {
            k + 1
        } else if k < 16 {
            k + 2
        } else if k < 20 {
            k + 3
        } else {
            k + 4
        };
        assert(ua[pos] == ha[k]);
        assert(ub[pos] == hb[k]);
    }
    assert(ha =~= hb);
    assert(pow16(32) == 0x1_0000_0000_0000_0000_0000_0000_0000_0000nat) by {
        reveal_with_fuel(pow16, 33);
    }
    lemma_hex_fixed_injective(a as nat, b as nat, 32);
}

proof fn lemma_digits_shape(n: nat)
    ensures
        digits(n).len() >= 1,
        n >= 10 ==> digits(n).len() >= 2,
        digits(n)[0] != '-',
    decreases n,
{
    if n >= 10 {
        lemma_digits_shape(n / 10);
    }
}

proof fn lemma_digits_injective(a: nat, b: nat)
    requires
        digits(a) == digits(b),
    ensures
        a == b,
    decreases a,
{
    lemma_digits_shape(a);
    lemma_digits_shape(b);
    if a >= 10 && b >= 10 {
        assert(digits(a).drop_last() =~= digits(a / 10));
        assert(digits(b).drop_last() =~= digits(b / 10));
        assert(digits(a).last() == ((48 + a % 10) as char));
        assert(digits(b).last() == ((48 + b % 10) as char));
        lemma_digits_injective(a / 10, b / 10);
    }
}

/// Different integers are written differently in decimal.
pub proof fn lemma_decimal_injective(a: int, b: int)
    requires
        decimal(a) == decimal(b),
    ensures
        a == b,
{
    if a < 0 && b < 0 {
        assert(decimal(a).drop_first() =~= digits((-a) as nat));
        assert(decimal(b).drop_first() =~= digits((-b) as nat));
        lemma_digits_injective((-a) as nat, (-b) as nat);
    } else if a >= 0 && b >= 0 {
        lemma_digits_injective(a as nat, b as nat);
    } else if a < 0 {
        lemma_digits_shape(b as nat);
        assert(decimal(a)[0] == '-');
    } else {
        lemma_digits_shape(a as nat);
        assert(decimal(b)[0] == '-');
    }
}

} // verus!
