//! Record identifiers: 128-bit values the server assigns at insert time.
//!
//! On the wire an identifier travels as its canonical text form: the 16
//! bytes written as lowercase hexadecimal in groups of 8, 4, 4, 4 and 12
//! digits separated by dashes. Both directions of that conversion are
//! implemented and proved here.

use vstd::prelude::*;

verus! {

/// The lowercase hexadecimal digit for a value below 16.
pub open spec fn hex_char(d: u8) -> char {
    if d == 0 {
        '0'
    } else if d == 1 {
        '1'
    } else if d == 2 {
        '2'
    } else if d == 3 {
        '3'
    } else if d == 4 {
        '4'
    } else if d == 5 {
        '5'
    } else if d == 6 {
        '6'
    } else if d == 7 {
        '7'
    } else if d == 8 {
        '8'
    } else if d == 9 {
        '9'
    } else if d == 10 {
        'a'
    } else if d == 11 {
        'b'
    } else if d == 12 {
        'c'
    } else if d == 13 {
        'd'
    } else if d == 14 {
        'e'
    } else {
        'f'
    }
}

/// The value of a lowercase hexadecimal digit, or -1 for any other character.
pub open spec fn hex_val(c: char) -> int {
    if c == '0' {
        0
    } else if c == '1' {
        1
    } else if c == '2' {
        2
    } else if c == '3' {
        3
    } else if c == '4' {
        4
    } else if c == '5' {
        5
    } else if c == '6' {
        6
    } else if c == '7' {
        7
    } else if c == '8' {
        8
    } else if c == '9' {
        9
    } else if c == 'a' {
        10
    } else if c == 'b' {
        11
    } else if c == 'c' {
        12
    } else if c == 'd' {
        13
    } else if c == 'e' {
        14
    } else if c == 'f' {
        15
    } else {
        -1
    }
}

/// Whether a character is a lowercase hexadecimal digit.
pub open spec fn is_hex(c: char) -> bool {
    hex_val(c) >= 0
}

pub proof fn lemma_hex_round_trip(d: u8)
    requires
        0 <= d < 16,
    ensures
        is_hex(hex_char(d)),
        hex_val(hex_char(d)) == d,
{
}

/// A byte sequence written as lowercase hexadecimal, two digits per byte.
pub open spec fn hex_of_bytes(s: Seq<u8>) -> Seq<char>
    decreases s.len(),
{
    if s.len() == 0 {
        Seq::empty()
    } else {
        hex_of_bytes(s.drop_last()) + seq![
            hex_char(s.last() / 16),
            hex_char(s.last() % 16),
        ]
    }
}

pub proof fn lemma_hex_of_bytes_len(s: Seq<u8>)
    ensures
        hex_of_bytes(s).len() == 2 * s.len(),
    decreases s.len(),
{
    if s.len() > 0 {
        lemma_hex_of_bytes_len(s.drop_last());
    }
}

pub proof fn lemma_hex_of_bytes_index(s: Seq<u8>, k: int)
    requires
        0 <= k < s.len(),
    ensures
        hex_of_bytes(s).len() == 2 * s.len(),
        hex_of_bytes(s)[2 * k] == hex_char(s[k] / 16),
        hex_of_bytes(s)[2 * k + 1] == hex_char(s[k] % 16),
    decreases s.len(),
{
    lemma_hex_of_bytes_len(s);
    lemma_hex_of_bytes_len(s.drop_last());
    if k < s.len() - 1 {
        lemma_hex_of_bytes_index(s.drop_last(), k);
    }
}

/// The canonical text of a 16-byte identifier: five dash-separated groups
/// of 8, 4, 4, 4 and 12 hexadecimal digits.
pub open spec fn hyphenated(b: Seq<u8>) -> Seq<char>
    recommends
        b.len() == 16,
{
    hex_of_bytes(b.subrange(0, 4)) + seq!['-'] + hex_of_bytes(b.subrange(4, 6)) + seq!['-']
        + hex_of_bytes(b.subrange(6, 8)) + seq!['-'] + hex_of_bytes(b.subrange(8, 10)) + seq!['-']
        + hex_of_bytes(b.subrange(10, 16))
}

/// Whether a character position in the text form holds a dash.
pub open spec fn dash_pos(j: int) -> bool {
    j == 8 || j == 13 || j == 18 || j == 23
}

/// The character position of hexadecimal digit number `d`, skipping dashes.
pub open spec fn digit_pos(d: int) -> int {
    if d < 8 {
        d
    } else if d < 12 {
        d + 1
    } else if d < 16 {
        d + 2
    } else if d < 20 {
        d + 3
    } else {
        d + 4
    }
}

/// Whether a character sequence has the shape of an identifier's text form.
pub open spec fn uuid_text_wf(s: Seq<char>) -> bool {
    s.len() == 36 && forall|j: int|
        0 <= j < 36 ==> if dash_pos(j) {
            s[j] == '-'
        } else {
            is_hex(#[trigger] s[j])
        }
}

/// The bytes encoded by an identifier's text form, if it has that shape.
pub open spec fn parse_uuid(s: Seq<char>) -> Option<Seq<u8>> {
    if uuid_text_wf(s) {
        Some(
            Seq::new(
                16,
                |k: int| (16 * hex_val(s[digit_pos(2 * k)]) + hex_val(s[digit_pos(2 * k + 1)])) as u8,
            ),
        )
    } else {
        None
    }
}

pub proof fn lemma_hyphenated_len(b: Seq<u8>)
    requires
        b.len() == 16,
    ensures
        hyphenated(b).len() == 36,
{
    lemma_hex_of_bytes_len(b.subrange(0, 4));
    lemma_hex_of_bytes_len(b.subrange(4, 6));
    lemma_hex_of_bytes_len(b.subrange(6, 8));
    lemma_hex_of_bytes_len(b.subrange(8, 10));
    lemma_hex_of_bytes_len(b.subrange(10, 16));
}

/// Each digit of the text form is the hexadecimal digit of the matching
/// nibble; each dash position holds a dash.
pub proof fn lemma_hyphenated_chars(b: Seq<u8>)
    requires
        b.len() == 16,
    ensures
        hyphenated(b).len() == 36,
        forall|j: int| 0 <= j < 36 && dash_pos(j) ==> hyphenated(b)[j] == '-',
        forall|k: int|
            0 <= k < 16 ==> hyphenated(b)[digit_pos(2 * k)] == hex_char(#[trigger] b[k] / 16)
                && hyphenated(b)[digit_pos(2 * k + 1)] == hex_char(b[k] % 16),
{
    lemma_hyphenated_len(b);
    let g0 = b.subrange(0, 4);
    let g1 = b.subrange(4, 6);
    let g2 = b.subrange(6, 8);
    let g3 = b.subrange(8, 10);
    let g4 = b.subrange(10, 16);
    assert forall|k: int| 0 <= k < 4 implies #[trigger] hex_of_bytes(g0)[2 * k] == hex_char(
        b[k] / 16,
    ) && hex_of_bytes(g0)[2 * k + 1] == hex_char(b[k] % 16) by {
        lemma_hex_of_bytes_index(g0, k);
    }
    assert forall|k: int| 0 <= k < 2 implies #[trigger] hex_of_bytes(g1)[2 * k] == hex_char(
        b[k + 4] / 16,
    ) && hex_of_bytes(g1)[2 * k + 1] == hex_char(b[k + 4] % 16) by {
        lemma_hex_of_bytes_index(g1, k);
    }
    assert forall|k: int| 0 <= k < 2 implies #[trigger] hex_of_bytes(g2)[2 * k] == hex_char(
        b[k + 6] / 16,
    ) && hex_of_bytes(g2)[2 * k + 1] == hex_char(b[k + 6] % 16) by {
        lemma_hex_of_bytes_index(g2, k);
    }
    assert forall|k: int| 0 <= k < 2 implies #[trigger] hex_of_bytes(g3)[2 * k] == hex_char(
        b[k + 8] / 16,
    ) && hex_of_bytes(g3)[2 * k + 1] == hex_char(b[k + 8] % 16) by {
        lemma_hex_of_bytes_index(g3, k);
    }
    assert forall|k: int| 0 <= k < 6 implies #[trigger] hex_of_bytes(g4)[2 * k] == hex_char(
        b[k + 10] / 16,
    ) && hex_of_bytes(g4)[2 * k + 1] == hex_char(b[k + 10] % 16) by {
        lemma_hex_of_bytes_index(g4, k);
    }
    lemma_hex_of_bytes_len(g0);
    lemma_hex_of_bytes_len(g1);
    lemma_hex_of_bytes_len(g2);
    lemma_hex_of_bytes_len(g3);
    lemma_hex_of_bytes_len(g4);
    assert forall|k: int| 0 <= k < 16 implies hyphenated(b)[digit_pos(2 * k)] == hex_char(
        #[trigger] b[k] / 16,
    ) && hyphenated(b)[digit_pos(2 * k + 1)] == hex_char(b[k] % 16) by {
        if k < 4 {
            assert(hex_of_bytes(g0)[2 * k] == hex_char(b[k] / 16));
        } else if k < 6 {
            assert(hex_of_bytes(g1)[2 * (k - 4)] == hex_char(b[k] / 16));
        } else if k < 8 {
            assert(hex_of_bytes(g2)[2 * (k - 6)] == hex_char(b[k] / 16));
        } else if k < 10 {
            assert(hex_of_bytes(g3)[2 * (k - 8)] == hex_char(b[k] / 16));
        } else {
            assert(hex_of_bytes(g4)[2 * (k - 10)] == hex_char(b[k] / 16));
        }
    }
}

/// Parsing the text form of any 16 bytes gives those bytes back.
pub proof fn lemma_uuid_round_trip(b: Seq<u8>)
    requires
        b.len() == 16,
    ensures
        parse_uuid(hyphenated(b)) == Some(b),
{
    let s = hyphenated(b);
    lemma_hyphenated_chars(b);
    assert forall|j: int| 0 <= j < 36 && !dash_pos(j) implies is_hex(#[trigger] s[j]) by {
        let d = if j < 8 {
            j
        } else if j < 13 {
            j - 1
        } else if j < 18 {
            j - 2
        } else if j < 23 {
            j - 3
        } else {
            j - 4
        };
        let k = d / 2;
        assert(0 <= k < 16);
        if d % 2 == 0 {
            assert(digit_pos(2 * k) == j);
            lemma_hex_round_trip(b[k] / 16);
        } else {
            assert(digit_pos(2 * k + 1) == j);
            lemma_hex_round_trip(b[k] % 16);
        }
    }
    assert(uuid_text_wf(s));
    let parsed = parse_uuid(s).unwrap();
    assert forall|k: int| 0 <= k < 16 implies parsed[k] == b[k] by {
        lemma_hex_round_trip(b[k] / 16);
        lemma_hex_round_trip(b[k] % 16);
        assert(16 * (b[k] / 16) + b[k] % 16 == b[k]) by {
            assert(b[k] / 16 * 16 + b[k] % 16 == b[k]);
        }
    }
    assert(parsed =~= b);
}

/// A record identifier: the 16 bytes the server assigned to one record.
#[derive(Debug)]
pub struct Ident {
    bytes: Vec<u8>,
}

impl View for Ident {
    type V = Seq<u8>;

    closed spec fn view(&self) -> Seq<u8> {
        self.bytes@
    }
}

impl Ident {
    #[verifier::type_invariant]
    pub open spec fn wf(self) -> bool {
        self@.len() == 16
    }

    /// The digit character for a nibble, as a one-character text slice.
    fn hex_digit(d: u8) -> (r: &'static str)
        requires
            d < 16,
        ensures
            r@ =~= seq![hex_char(d)],
    {
        proof {
            reveal_strlit("0");
            reveal_strlit("1");
            reveal_strlit("2");
            reveal_strlit("3");
            reveal_strlit("4");
            reveal_strlit("5");
            reveal_strlit("6");
            reveal_strlit("7");
            reveal_strlit("8");
            reveal_strlit("9");
            reveal_strlit("a");
            reveal_strlit("b");
            reveal_strlit("c");
            reveal_strlit("d");
            reveal_strlit("e");
            reveal_strlit("f");
        }
        if d == 0 {
            "0"
        } else if d == 1 {
            "1"
        } else if d == 2 {
            "2"
        } else if d == 3 {
            "3"
        } else if d == 4 {
            "4"
        } else if d == 5 {
            "5"
        } else if d == 6 {
            "6"
        } else if d == 7 {
            "7"
        } else if d == 8 {
            "8"
        } else if d == 9 {
            "9"
        } else if d == 10 {
            "a"
        } else if d == 11 {
            "b"
        } else if d == 12 {
            "c"
        } else if d == 13 {
            "d"
        } else if d == 14 {
            "e"
        } else {
            "f"
        }
    }

    /// Append the hexadecimal digits of `bytes[from..to]` to `out`.
    fn append_hex(out: &mut String, bytes: &Vec<u8>, from: usize, to: usize)
        requires
            from <= to <= bytes@.len(),
        ensures
            final(out)@ == old(out)@ + hex_of_bytes(bytes@.subrange(from as int, to as int)),
    {
        let ghost start = out@;
        let mut j: usize = from;
        proof {
            assert(bytes@.subrange(from as int, from as int) =~= Seq::<u8>::empty());
            assert(start + hex_of_bytes(bytes@.subrange(from as int, from as int)) =~= start);
        }
        while j < to
            invariant
                from <= j <= to <= bytes@.len(),
                out@ == start + hex_of_bytes(bytes@.subrange(from as int, j as int)),
            decreases to - j,
        {
            let byte: u8 = bytes[j];
            out.append(Self::hex_digit(byte / 16));
            out.append(Self::hex_digit(byte % 16));
            proof {
                let prev = bytes@.subrange(from as int, j as int);
                let cur = bytes@.subrange(from as int, j + 1 as int);
                assert(cur.drop_last() =~= prev);
                assert(cur.last() == bytes@[j as int]);
                assert(out@ =~= start + hex_of_bytes(cur));
            }
            j += 1;
        }
    }

    /// The canonical text form of this identifier.
    pub fn to_text(&self) -> (r: String)
        ensures
            r@ == hyphenated(self@),
    {
        proof {
            use_type_invariant(self);
            reveal_strlit("-");
        }
        let mut out = String::new();
        Self::append_hex(&mut out, &self.bytes, 0, 4);
        out.append("-");
        Self::append_hex(&mut out, &self.bytes, 4, 6);
        out.append("-");
        Self::append_hex(&mut out, &self.bytes, 6, 8);
        out.append("-");
        Self::append_hex(&mut out, &self.bytes, 8, 10);
        out.append("-");
        Self::append_hex(&mut out, &self.bytes, 10, 16);
        proof {
            assert(seq!['-'] =~= "-"@);
            assert(out@ =~= hyphenated(self@));
        }
        out
    }

    /// The digit value of a character, if it is a lowercase hexadecimal digit.
    fn hex_value(c: char) -> (r: Option<u8>)
        ensures
            match r {
                Some(v) => is_hex(c) && v == hex_val(c) && v < 16,
                None => !is_hex(c),
            },
    {
        match c {
            '0' => Some(0),
            '1' => Some(1),
            '2' => Some(2),
            '3' => Some(3),
            '4' => Some(4),
            '5' => Some(5),
            '6' => Some(6),
            '7' => Some(7),
            '8' => Some(8),
            '9' => Some(9),
            'a' => Some(10),
            'b' => Some(11),
            'c' => Some(12),
            'd' => Some(13),
            'e' => Some(14),
            'f' => Some(15),
            _ => None,
        }
    }

    /// The character position of digit number `d` in the text form.
    fn digit_position(d: usize) -> (r: usize)
        requires
            d < 32,
        ensures
            r == digit_pos(d as int),
            r < 36,
    {
        if d < 8 {
            d
        } else if d < 12 {
            d + 1
        } else if d < 16 {
            d + 2
        } else if d < 20 {
            d + 3
        } else {
            d + 4
        }
    }

    /// Parse the canonical text form back into an identifier.
    pub fn from_text(s: &str) -> (r: Option<Ident>)
        ensures
            match r {
                Some(id) => parse_uuid(s@) == Some(id@) && id@.len() == 16,
                None => parse_uuid(s@) is None,
            },
    {
        if s.unicode_len() != 36 {
            return None;
        }
        let mut j: usize = 0;
        while j < 36
            invariant
                j <= 36,
                s@.len() == 36,
                forall|i: int|
                    0 <= i < j ==> if dash_pos(i) {
                        s@[i] == '-'
                    } else {
                        is_hex(#[trigger] s@[i])
                    },
            decreases 36 - j,
        {
            let c = s.get_char(j);
            if j == 8 || j == 13 || j == 18 || j == 23 {
                if c != '-' {
                    return None;
                }
            } else {
                if Self::hex_value(c).is_none() {
                    return None;
                }
            }
            j += 1;
        }
        assert(uuid_text_wf(s@));
        let ghost expected = parse_uuid(s@).unwrap();
        let mut bytes: Vec<u8> = Vec::new();
        let mut k: usize = 0;
        while k < 16
            invariant
                k <= 16,
                s@.len() == 36,
                uuid_text_wf(s@),
                expected == parse_uuid(s@).unwrap(),
                bytes@.len() == k,
                forall|i: int| 0 <= i < k ==> bytes@[i] == expected[i],
            decreases 16 - k,
        {
            let hi_pos = Self::digit_position(2 * k);
            let lo_pos = Self::digit_position(2 * k + 1);
            proof {
                assert(!dash_pos(digit_pos(2 * (k as int))));
                assert(!dash_pos(digit_pos(2 * (k as int) + 1)));
            }
            let hi = Self::hex_value(s.get_char(hi_pos)).unwrap();
            let lo = Self::hex_value(s.get_char(lo_pos)).unwrap();
            bytes.push(16 * hi + lo);
            k += 1;
        }
        proof {
            assert(bytes@ =~= expected);
        }
        Some(Ident { bytes })
    }
}

impl Clone for Ident {
    /// A copy of the identifier with the same bytes.
    fn clone(&self) -> (r: Self)
        ensures
            r@ == self@,
    {
        proof {
            use_type_invariant(self);
        }
        let mut bytes: Vec<u8> = Vec::new();
        let mut i: usize = 0;
        while i < self.bytes.len()
            invariant
                i <= self.bytes@.len(),
                bytes@ =~= self.bytes@.subrange(0, i as int),
            decreases self.bytes@.len() - i,
        {
            bytes.push(self.bytes[i]);
            i += 1;
        }
        proof {
            assert(bytes@ =~= self.bytes@);
        }
        Ident { bytes }
    }
}

} // verus!
