//! Byte-level views of text: comparing strings and taking sub-slices by byte offsets.
use vstd::prelude::*;
use vstd::utf8::*;
use vstd::string::{StringExecFns, StringSliceAdditionalSpecFns};

verus! {

broadcast use vstd::utf8::encode_utf8_decode_utf8;

/// The bytes `start..end` of `bytes` form whole characters: both ends lie on character
/// boundaries (the start one counted inside the prefix that ends at `end`).
pub open spec fn extractable(bytes: Seq<u8>, start: int, end: int) -> bool {
    &&& 0 <= start <= end <= bytes.len()
    &&& is_char_boundary(bytes, end)
    &&& is_char_boundary(bytes.subrange(0, end), start)
}

/// Two strings are equal exactly when their UTF-8 encodings are.
pub proof fn lemma_encoding_injective(a: Seq<char>, b: Seq<char>)
    ensures
        encode_utf8(a) == encode_utf8(b) <==> a == b,
{
    if encode_utf8(a) == encode_utf8(b) {
        assert(decode_utf8(encode_utf8(a)) == a);
        assert(decode_utf8(encode_utf8(b)) == b);
    }
}

/// Compares two strings character by character.
pub fn str_eq(a: &str, b: &str) -> (r: bool)
    ensures
        r == (a@ == b@),
{
    let ab = a.as_bytes();
    let bb = b.as_bytes();
    proof {
        lemma_encoding_injective(a@, b@);
    }
    if ab.len() != bb.len() {
        return false;
    }
    let mut i: usize = 0;
    while i < ab.len()
        invariant
            ab@.len() == bb@.len(),
            ab@ == a.spec_bytes(),
            bb@ == b.spec_bytes(),
            i <= ab@.len(),
            forall|j: int| 0 <= j < i ==> ab@[j] == bb@[j],
        decreases ab@.len() - i,
    {
        if ab[i] != bb[i] {
            return false;
        }
        i += 1;
    }
    assert(ab@ =~= bb@);
    true
}

/// Whether the bytes `start..end` of `s` form whole characters.
pub fn is_extractable(s: &str, start: usize, end: usize) -> (r: bool)
    ensures
        r == extractable(s.spec_bytes(), start as int, end as int),
{
    if start > end || end > s.as_bytes().len() {
        return false;
    }
    if !s.is_char_boundary(end) {
        return false;
    }
    let (prefix, _) = s.split_at(end);
    assert(prefix.spec_bytes() =~= s.spec_bytes().subrange(0, end as int));
    prefix.is_char_boundary(start)
}

/// The text made of the bytes `start..end` of `s`.
pub fn substring(s: &str, start: usize, end: usize) -> (r: &str)
    requires
        extractable(s.spec_bytes(), start as int, end as int),
    ensures
        r.spec_bytes() == s.spec_bytes().subrange(start as int, end as int),
{
    let (prefix, _) = s.split_at(end);
    assert(prefix.spec_bytes() =~= s.spec_bytes().subrange(0, end as int));
    let (_, rest) = prefix.split_at(start);
    assert(rest.spec_bytes() =~= s.spec_bytes().subrange(start as int, end as int));
    rest
}

/// `b` with an ASCII capital letter turned into its small letter.
pub open spec fn ascii_lower(b: u8) -> u8 {
    if 65 <= b <= 90 {
        (b + 32) as u8
    } else {
        b
    }
}

/// The two byte strings are equal once ASCII capital letters are turned into small ones.
pub open spec fn ascii_eq_ignore_case_spec(a: Seq<u8>, b: Seq<u8>) -> bool {
    a.len() == b.len() && forall|i: int| 0 <= i < a.len() ==> ascii_lower(#[trigger] a[i]) == ascii_lower(b[i])
}

/// Whether the two strings are equal once ASCII capital letters are turned into small ones.
pub fn ascii_eq_ignore_case(a: &str, b: &str) -> (r: bool)
    ensures
        r == ascii_eq_ignore_case_spec(a.spec_bytes(), b.spec_bytes()),
{
    let ab = a.as_bytes();
    let bb = b.as_bytes();
    if ab.len() != bb.len() {
        return false;
    }
    let mut i: usize = 0;
    while i < ab.len()
        invariant
            ab@.len() == bb@.len(),
            ab@ == a.spec_bytes(),
            bb@ == b.spec_bytes(),
            i <= ab@.len(),
            forall|j: int| 0 <= j < i ==> ascii_lower(#[trigger] ab@[j]) == ascii_lower(bb@[j]),
        decreases ab@.len() - i,
    {
        let x = ab[i];
        let y = bb[i];
        let lx: u8 = if 65 <= x && x <= 90 { x + 32 } else { x };
        let ly: u8 = if 65 <= y && y <= 90 { y + 32 } else { y };
        if lx != ly {
            return false;
        }
        i += 1;
    }
    true
}

/// The texts of `parts`, one after the other.
pub fn concat_texts(parts: &[&str]) -> (r: String)
    ensures
        r@ == concat_spec(parts@.map_values(|p: &str| p@)),
{
    let mut r = String::new();
    let mut i: usize = 0;
    while i < parts.len()
        invariant
            i <= parts@.len(),
            r@ == concat_spec(parts@.map_values(|p: &str| p@).take(i as int)),
        decreases parts@.len() - i,
    {
        let ghost texts = parts@.map_values(|p: &str| p@);
        assert(texts.take(i as int + 1).drop_last() =~= texts.take(i as int));
        r.append(parts[i]);
        i += 1;
    }
    assert(parts@.map_values(|p: &str| p@).take(parts@.len() as int) =~= parts@.map_values(
        |p: &str| p@,
    ));
    r
}

/// The texts of `parts`, one after the other.
pub open spec fn concat_spec(parts: Seq<Seq<char>>) -> Seq<char>
    decreases parts.len(),
{
    if parts.len() == 0 {
        Seq::empty()
    } else {
        concat_spec(parts.drop_last()) + parts.last()
    }
}


/// The decimal digit `d`.
pub open spec fn digit_char(d: int) -> char {
    if d == 0 {
        '0'
    } else if d == 1 {
        '1'
    } else if d == 2 {
        '2'
    } else if d == 3 {
        '3'
    } else if d == 4 {
        '4'
    } else if d == 5 {
        '5'
    } else if d == 6 {
        '6'
    } else if d == 7 {
        '7'
    } else if d == 8 {
        '8'
    } else {
        '9'
    }
}

/// The decimal digits of `n`, without leading zeros.
pub open spec fn decimal(n: nat) -> Seq<char>
    decreases n,
{
    if n < 10 {
        seq![digit_char(n as int)]
    } else {
        decimal(n / 10) + seq![digit_char((n % 10) as int)]
    }
}

/// `i` written in decimal, with a `-` when negative.
pub open spec fn int_text(i: int) -> Seq<char> {
    if i < 0 {
        seq!['-'] + decimal((-i) as nat)
    } else {
        decimal(i as nat)
    }
}

/// The decimal digit `d`.
fn digit_str(d: u32) -> (r: &'static str)
    requires
        d < 10,
    ensures
        r@ == seq![digit_char(d as int)],
{
    proof {
        reveal_strlit("0");
        assert("0"@ =~= seq!['0']);
        reveal_strlit("1");
        assert("1"@ =~= seq!['1']);
        reveal_strlit("2");
        assert("2"@ =~= seq!['2']);
        reveal_strlit("3");
        assert("3"@ =~= seq!['3']);
        reveal_strlit("4");
        assert("4"@ =~= seq!['4']);
        reveal_strlit("5");
        assert("5"@ =~= seq!['5']);
        reveal_strlit("6");
        assert("6"@ =~= seq!['6']);
        reveal_strlit("7");
        assert("7"@ =~= seq!['7']);
        reveal_strlit("8");
        assert("8"@ =~= seq!['8']);
        reveal_strlit("9");
        assert("9"@ =~= seq!['9']);
    }
    match d {
        0 => "0",
        1 => "1",
        2 => "2",
        3 => "3",
        4 => "4",
        5 => "5",
        6 => "6",
        7 => "7",
        8 => "8",
        9 => "9",
        _ => "9",
    }
}

/// The decimal digits of `n`.
fn nat_to_string(n: u32) -> (r: String)
    ensures
        r@ == decimal(n as nat),
    decreases n,
{
    if n < 10 {
        digit_str(n).to_owned()
    } else {
        let mut r = nat_to_string(n / 10);
        r.append(digit_str(n % 10));
        r
    }
}

/// `i` written in decimal.
pub fn int_to_string(i: i32) -> (r: String)
    ensures
        r@ == int_text(i as int),
{
    if i < 0 {
        let magnitude: u32 = (0i64 - (i as i64)) as u32;
        let mut r = "-".to_owned();
        proof {
            reveal_strlit("-");
            assert("-"@ =~= seq!['-']);
        }
        r.append(nat_to_string(magnitude).as_str());
        r
    } else {
        nat_to_string(i as u32)
    }
}

} // verus!
