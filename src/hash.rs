//! The root digest of a store: 32 bytes, written as 64 lowercase hex digits.

use vstd::prelude::*;

verus! {

/// Number of bytes in a root digest.
pub const DIGEST_LENGTH: usize = 32;

/// The character for a nibble, `0-9a-f`.
pub open spec fn hex_char(n: u8) -> char {
    if n < 10 {
        ((48 + n) as u8) as char
    } else {
        ((87 + n) as u8) as char
    }
}

/// Whether `c` is a lowercase hex digit.
pub open spec fn is_hex_char(c: char) -> bool {
    ('0' <= c && c <= '9') || ('a' <= c && c <= 'f')
}

/// The nibble a lowercase hex digit stands for.
pub open spec fn hex_value(c: char) -> u8 {
    if '0' <= c && c <= '9' {
        ((c as u32) - 48) as u8
    } else {
        ((c as u32) - 87) as u8
    }
}

/// Lowercase hex text of `b`, high nibble first.
pub open spec fn hex_text(b: Seq<u8>) -> Seq<char> {
    Seq::new(
        2 * b.len(),
        |i: int| if i % 2 == 0 { hex_char(b[i / 2] / 16) } else { hex_char(b[i / 2] % 16) },
    )
}

/// The bytes that lowercase hex text `s` spells, if it is such text.
pub open spec fn hex_bytes(s: Seq<char>) -> Option<Seq<u8>> {
    if s.len() % 2 == 0 && forall|i: int| 0 <= i < s.len() ==> #[trigger] is_hex_char(s[i]) {
        Some(
            Seq::new(
                s.len() / 2,
                |i: int| (hex_value(s[2 * i]) * 16 + hex_value(s[2 * i + 1])) as u8,
            ),
        )
    } else {
        None
    }
}

/// The digest that 64 lowercase hex digits spell.
pub open spec fn lowercase_digest(s: Seq<char>) -> Option<Seq<u8>> {
    match hex_bytes(s) {
        Some(b) => if b.len() == DIGEST_LENGTH {
            Some(b)
        } else {
            None
        },
        None => None,
    }
}

/// The digest that hex text `s` spells, as `casper_hashing::Digest::from_hex`
/// reads it: either case, or mixed case with a valid checksum; 32 bytes.
pub uninterp spec fn digest_from_hex(s: Seq<char>) -> Option<Seq<u8>>;

/// The digest that a descriptor's hex text spells.
pub open spec fn digest_of(s: Seq<char>) -> Option<Seq<u8>> {
    if lowercase_digest(s) is Some {
        lowercase_digest(s)
    } else {
        digest_from_hex(s)
    }
}

/// Relies on `casper_hashing::Digest::from_hex`: a result of 32 bytes that
/// depends on the text alone; lowercase hex text is decoded by `base16`
/// digit pair by digit pair, with no checksum applied to a single case.
#[verifier::external_body]
fn parse_digest_hex(s: &str) -> (r: Option<Vec<u8>>)
    ensures
        match r {
            Some(b) => digest_from_hex(s@) == Some(b@) && b@.len() == DIGEST_LENGTH,
            None => digest_from_hex(s@) is None,
        },
        lowercase_digest(s@) is Some ==> r is Some && r.unwrap()@ == lowercase_digest(s@).unwrap(),
{
    match casper_hashing::Digest::from_hex(s) {
        Ok(digest) => Some(digest.value().to_vec()),
        Err(_) => None,
    }
}

/// A content hash that identifies one state of the store.
#[derive(Clone, Debug)]
pub struct StateHash {
    pub bytes: Vec<u8>,
}

impl View for StateHash {
    type V = Seq<u8>;

    open spec fn view(&self) -> Seq<u8> {
        self.bytes@
    }
}

impl StateHash {
    pub open spec fn wf(&self) -> bool {
        self.bytes@.len() == DIGEST_LENGTH
    }

    /// The digest made of `bytes`, which must be 32 long.
    pub fn from_bytes(bytes: Vec<u8>) -> (r: Option<StateHash>)
        ensures
            r.is_some() <==> bytes@.len() == DIGEST_LENGTH,
            r.is_some() ==> r.unwrap()@ == bytes@ && r.unwrap().wf(),
    {
        if bytes.len() == DIGEST_LENGTH {
            Some(StateHash { bytes })
        } else {
            None
        }
    }

    /// A copy of `other`.
    pub fn copied(other: &StateHash) -> (r: StateHash)
        ensures
            r@ == other@,
    {
        let mut bytes: Vec<u8> = Vec::new();
        let mut i: usize = 0;
        while i < other.bytes.len()
            invariant
                i <= other.bytes@.len(),
                bytes@ =~= other.bytes@.subrange(0, i as int),
            decreases other.bytes@.len() - i,
        {
            bytes.push(other.bytes[i]);
            i = i + 1;
        }
        assert(bytes@ =~= other.bytes@);
        StateHash { bytes }
    }

    /// Whether two digests hold the same bytes.
    pub fn same_as(&self, other: &StateHash) -> (r: bool)
        ensures
            r == (self@ == other@),
    {
        if self.bytes.len() != other.bytes.len() {
            return false;
        }
        let mut i: usize = 0;
        while i < self.bytes.len()
            invariant
                self.bytes@.len() == other.bytes@.len(),
                i <= self.bytes@.len(),
                forall|j: int| 0 <= j < i ==> self.bytes@[j] == other.bytes@[j],
            decreases self.bytes@.len() - i,
        {
            if self.bytes[i] != other.bytes[i] {
                return false;
            }
            i = i + 1;
        }
        assert(self@ =~= other@);
        true
    }

    /// The digest as lowercase hex text.
    pub fn to_hex(&self) -> (r: String)
        ensures
            r@ == hex_text(self@),
    {
        let mut out = String::new();
        let mut i: usize = 0;
        while i < self.bytes.len()
            invariant
                i <= self.bytes@.len(),
                out@ =~= hex_text(self.bytes@.subrange(0, i as int)),
            decreases self.bytes@.len() - i,
        {
            let b = self.bytes[i];
            out.push(hex_digit(b / 16));
            out.push(hex_digit(b % 16));
            proof {
                assert(hex_text(self.bytes@.subrange(0, i + 1)) =~= hex_text(
                    self.bytes@.subrange(0, i as int),
                ).push(hex_char(b / 16)).push(hex_char(b % 16)));
            }
            i = i + 1;
        }
        assert(self.bytes@.subrange(0, self.bytes@.len() as int) =~= self.bytes@);
        out
    }

    /// Reads a digest from its hex text.
    pub fn from_hex(s: &str) -> (r: Option<StateHash>)
        ensures
            match r {
                Some(h) => digest_of(s@) == Some(h@) && h.wf(),
                None => digest_of(s@) is None,
            },
    {
        match parse_digest_hex(s) {
            Some(bytes) => Some(StateHash { bytes }),
            None => None,
        }
    }
}

/// The hex digit of a nibble.
fn hex_digit(n: u8) -> (c: char)
    requires
        n < 16,
    ensures
        c == hex_char(n),
{
    if n < 10 {
        (48 + n) as char
    } else {
        (87 + n) as char
    }
}

/// Writing a digest as hex and reading it back gives the same bytes.
pub proof fn lemma_hex_round_trip(b: Seq<u8>)
    requires
        b.len() == DIGEST_LENGTH,
    ensures
        hex_bytes(hex_text(b)) == Some(b),
        digest_of(hex_text(b)) == Some(b),
{
    let t = hex_text(b);
    assert forall|i: int| 0 <= i < t.len() implies #[trigger] is_hex_char(t[i]) by {
        let n: u8 = if i % 2 == 0 { b[i / 2] / 16 } else { b[i / 2] % 16 };
        assert(n < 16);
    }
    let d = hex_bytes(t).unwrap();
    assert forall|i: int| 0 <= i < b.len() implies d[i] == b[i] by {
        assert(t[2 * i] == hex_char(b[i] / 16));
        assert(t[2 * i + 1] == hex_char(b[i] % 16));
        assert(hex_value(hex_char(b[i] / 16)) == b[i] / 16);
        assert(hex_value(hex_char(b[i] % 16)) == b[i] % 16);
    }
    assert(d =~= b);
}

} // verus!
