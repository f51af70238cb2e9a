//! Record identifiers: 16 random bytes, written as the usual 36-character
//! hyphenated lowercase hex form. Formatting, validation and canonicalization
//! are verified; only drawing the random bytes is trusted.

use vstd::prelude::*;

verus! {

/// The lowercase hex digit for a value below 16.
pub open spec fn hex_char_of(n: u8) -> char {
    if n == 0 {
        '0'
    } else if n == 1 {
        '1'
    } else if n == 2 {
        '2'
    } else if n == 3 {
        '3'
    } else if n == 4 {
        '4'
    } else if n == 5 {
        '5'
    } else if n == 6 {
        '6'
    } else if n == 7 {
        '7'
    } else if n == 8 {
        '8'
    } else if n == 9 {
        '9'
    } else if n == 10 {
        'a'
    } else if n == 11 {
        'b'
    } else if n == 12 {
        'c'
    } else if n == 13 {
        'd'
    } else if n == 14 {
        'e'
    } else {
        'f'
    }
}

pub open spec fn is_hex_char(c: char) -> bool {
    ('0' <= c && c <= '9') || ('a' <= c && c <= 'f') || ('A' <= c && c <= 'F')
}

/// The lowercase form of a hex digit; other characters are left alone.
pub open spec fn hex_lower(c: char) -> char {
    if c == 'A' {
        'a'
    } else if c == 'B' {
        'b'
    } else if c == 'C' {
        'c'
    } else if c == 'D' {
        'd'
    } else if c == 'E' {
        'e'
    } else if c == 'F' {
        'f'
    } else {
        c
    }
}

/// Positions of the hyphens in the 36-character identifier form.
pub open spec fn is_hyphen_pos(i: int) -> bool {
    i == 8 || i == 13 || i == 18 || i == 23
}

/// A syntactically valid identifier: 36 characters, hyphens at the four fixed
/// positions, hex digits (either case) everywhere else.
pub open spec fn is_uuid_chars(s: Seq<char>) -> bool {
    &&& s.len() == 36
    &&& forall|i: int|
        0 <= i < 36 ==> (if is_hyphen_pos(i) {
            s[i] == '-'
        } else {
            is_hex_char(#[trigger] s[i])
        })
}

/// The canonical (lowercase) spelling of a syntactically valid identifier.
pub open spec fn canon_uuid(s: Seq<char>) -> Seq<char> {
    s.map_values(|c: char| hex_lower(c))
}

/// How many hyphens stand before character position `i` of the written form.
pub open spec fn hyphens_before(i: int) -> int {
    if i > 23 {
        4
    } else if i > 18 {
        3
    } else if i > 13 {
        2
    } else if i > 8 {
        1
    } else {
        0
    }
}

/// The character at position `i` of the written form of 16 identifier bytes.
pub open spec fn uuid_char_at(b: Seq<u8>, i: int) -> char {
    if is_hyphen_pos(i) {
        '-'
    } else {
        let k = i - hyphens_before(i);
        let byte = b[k / 2];
        if k % 2 == 0 {
            hex_char_of(byte / 16)
        } else {
            hex_char_of((byte % 16) as u8)
        }
    }
}

/// The written form of 16 identifier bytes.
pub open spec fn uuid_chars_of_bytes(b: Seq<u8>) -> Seq<char> {
    Seq::new(36, |i: int| uuid_char_at(b, i))
}

/// Relies on `uuid::Uuid::new_v4` and `uuid::Uuid::as_bytes`: a version-4
/// identifier is 16 random bytes. Nothing more is promised of a random value.
#[verifier::external_body]
pub fn fresh_id_bytes() -> (r: Vec<u8>)
    ensures
        r@.len() == 16,
{
    uuid::Uuid::new_v4().as_bytes().to_vec()
}

/// The executable hex digit of a value below 16.
pub fn hex_char(n: u8) -> (r: char)
    requires
        n < 16,
    ensures
        r == hex_char_of(n),
{
    if n == 0 {
        '0'
    } else if n == 1 {
        '1'
    } else if n == 2 {
        '2'
    } else if n == 3 {
        '3'
    } else if n == 4 {
        '4'
    } else if n == 5 {
        '5'
    } else if n == 6 {
        '6'
    } else if n == 7 {
        '7'
    } else if n == 8 {
        '8'
    } else if n == 9 {
        '9'
    } else if n == 10 {
        'a'
    } else if n == 11 {
        'b'
    } else if n == 12 {
        'c'
    } else if n == 13 {
        'd'
    } else if n == 14 {
        'e'
    } else {
        'f'
    }
}

/// Writes 16 identifier bytes in the canonical hyphenated lowercase hex form.
pub fn format_id(b: &Vec<u8>) -> (r: Vec<char>)
    requires
        b@.len() == 16,
    ensures
        r@ == uuid_chars_of_bytes(b@),
{
    let mut r: Vec<char> = Vec::new();
    let mut i: usize = 0;
    while i < 36
        invariant
            b@.len() == 16,
            i <= 36,
            r@.len() == i,
            forall|j: int| 0 <= j < i ==> r@[j] == uuid_char_at(b@, j),
        decreases 36 - i,
    {
        if i == 8 || i == 13 || i == 18 || i == 23 {
            r.push('-');
        } else {
            let h: usize = if i > 23 {
                4
            } else if i > 18 {
                3
            } else if i > 13 {
                2
            } else if i > 8 {
                1
            } else {
                0
            };
            let k: usize = i - h;
            let byte: u8 = b[k / 2];
            let nib: u8 = if k % 2 == 0 {
                byte / 16
            } else {
                byte % 16
            };
            r.push(hex_char(nib));
        }
        i += 1;
    }
    assert(r@ =~= uuid_chars_of_bytes(b@));
    r
}

/// Tests whether `s` is a syntactically valid identifier.
pub fn check_uuid(s: &Vec<char>) -> (r: bool)
    ensures
        r == is_uuid_chars(s@),
{
    if s.len() != 36 {
        return false;
    }
    let mut i: usize = 0;
    while i < 36
        invariant
            s@.len() == 36,
            i <= 36,
            forall|j: int|
                0 <= j < i ==> (if is_hyphen_pos(j) {
                    s@[j] == '-'
                } else {
                    is_hex_char(#[trigger] s@[j])
                }),
        decreases 36 - i,
    {
        let c = s[i];
        if i == 8 || i == 13 || i == 18 || i == 23 {
            if c != '-' {
                return false;
            }
        } else {
            let ok = ('0' <= c && c <= '9') || ('a' <= c && c <= 'f') || ('A' <= c && c <= 'F');
            if !ok {
                return false;
            }
        }
        i += 1;
    }
    true
}

/// Rewrites a syntactically valid identifier in its canonical lowercase form.
pub fn canon_uuid_chars(s: &Vec<char>) -> (r: Vec<char>)
    ensures
        r@ == canon_uuid(s@),
{
    let mut r: Vec<char> = Vec::new();
    let mut i: usize = 0;
    while i < s.len()
        invariant
            i <= s@.len(),
            r@.len() == i,
            forall|j: int| 0 <= j < i ==> r@[j] == hex_lower(s@[j]),
        decreases s.len() - i,
    {
        let c = s[i];
        let l = if c == 'A' {
            'a'
        } else if c == 'B' {
            'b'
        } else if c == 'C' {
            'c'
        } else if c == 'D' {
            'd'
        } else if c == 'E' {
            'e'
        } else if c == 'F' {
            'f'
        } else {
            c
        };
        r.push(l);
        i += 1;
    }
    assert(r@ =~= canon_uuid(s@));
    r
}

/// A written identifier is syntactically valid.
pub proof fn lemma_format_is_uuid(b: Seq<u8>)
    requires
        b.len() == 16,
    ensures
        is_uuid_chars(uuid_chars_of_bytes(b)),
{
    let s = uuid_chars_of_bytes(b);
    assert forall|i: int| 0 <= i < 36 && !is_hyphen_pos(i) implies is_hex_char(#[trigger] s[i]) by {
        let k = i - hyphens_before(i);
        assert(0 <= k / 2 < 16);
        let byte = b[k / 2];
        assert(byte / 16 < 16);
        assert(byte % 16 < 16);
    }
}

/// A written identifier is already canonical: validating and
/// canonicalizing the identifier handed out at creation gives it back
/// unchanged, so a lookup with that identifier reaches the stored key.
pub proof fn lemma_format_is_canonical(b: Seq<u8>)
    requires
        b.len() == 16,
    ensures
        canon_uuid(uuid_chars_of_bytes(b)) == uuid_chars_of_bytes(b),
{
    let s = uuid_chars_of_bytes(b);
    assert forall|i: int| 0 <= i < 36 implies canon_uuid(s)[i] == s[i] by {
        if !is_hyphen_pos(i) {
            let k = i - hyphens_before(i);
            assert(0 <= k / 2 < 16);
        }
    }
    assert(canon_uuid(s) =~= s);
}

} // verus!
