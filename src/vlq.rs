use vstd::prelude::*;
use vstd::string::StringSliceAdditionalSpecFns;

verus! {

/// Characters with a code below this continue a number; the others end it.
pub const TERMINAL_BASE: u8 = 96;

/// Fold one character's low four bits into the number being assembled.
pub open spec fn push_nibble(acc: u32, b: u8) -> u32 {
    (acc << 4u32) | ((b as u32) & 15u32)
}

/// Assemble one number from `b` at `off`: every continuation character, then
/// one terminal character. `None` when no terminal character follows: the
/// assembled number and the offset just past the terminal character otherwise.
pub open spec fn vlq_scan(b: Seq<u8>, off: int, acc: u32) -> Option<(u32, int)>
    decreases b.len() - off,
{
    if off < 0 || off >= b.len() {
        None
    } else if b[off] < TERMINAL_BASE {
        vlq_scan(b, off + 1, push_nibble(acc, b[off]))
    } else {
        Some((push_nibble(acc, b[off]), off + 1))
    }
}

/// The signed value of an assembled number: bit 0 is the sign, the rest the
/// magnitude.
pub open spec fn vlq_value(n: u32) -> int {
    if n & 1u32 == 1u32 {
        -((n >> 1u32) as int)
    } else {
        (n >> 1u32) as int
    }
}

/// The value decoded at `off`, with the offset after it.
pub open spec fn vlq_next(b: Seq<u8>, off: int) -> Option<(int, int)> {
    match vlq_scan(b, off, 0) {
        Some((n, o)) => Some((vlq_value(n), o)),
        None => None,
    }
}

/// Where a cursor over `b` stands after `k` reads from the start.
pub open spec fn vlq_cursor(b: Seq<u8>, k: nat) -> int
    decreases k,
{
    if k == 0 {
        0
    } else {
        match vlq_next(b, vlq_cursor(b, (k - 1) as nat)) {
            Some((_, o)) => o,
            None => b.len() as int,
        }
    }
}

/// The `k`-th value (from zero) of the stream `b`, if the stream has one.
pub open spec fn vlq_nth(b: Seq<u8>, k: nat) -> Option<int> {
    match vlq_next(b, vlq_cursor(b, k)) {
        Some((v, _)) => Some(v),
        None => None,
    }
}

proof fn lemma_scan_bounds(b: Seq<u8>, off: int, acc: u32)
    ensures
        match vlq_scan(b, off, acc) {
            Some((_, o)) => off < o <= b.len(),
            None => true,
        },
    decreases b.len() - off,
{
    if 0 <= off < b.len() && b[off] < TERMINAL_BASE {
        lemma_scan_bounds(b, off + 1, push_nibble(acc, b[off]));
    }
}

/// The cursor never passes the end of the stream.
pub proof fn lemma_cursor_bounds(b: Seq<u8>, k: nat)
    ensures
        0 <= vlq_cursor(b, k) <= b.len(),
    decreases k,
{
    if k > 0 {
        lemma_cursor_bounds(b, (k - 1) as nat);
        lemma_scan_bounds(b, vlq_cursor(b, (k - 1) as nat), 0);
    }
}

/// A forward-only cursor that decodes signed numbers from a hex-alphabet
/// string, one per call.
pub struct VlqHexDecoder<'a> {
    string: &'a str,
    offset: usize,
}

impl<'a> VlqHexDecoder<'a> {
    /// The bytes being decoded.
    pub closed spec fn bytes(&self) -> Seq<u8> {
        self.string.spec_bytes()
    }

    /// The cursor's position in `bytes()`.
    pub closed spec fn pos(&self) -> int {
        self.offset as int
    }

    pub open spec fn wf(&self) -> bool {
        0 <= self.pos() <= self.bytes().len()
    }

    pub fn new(string: &'a str) -> (r: Self)
        ensures
            r.wf(),
            r.bytes() == string.spec_bytes(),
            r.pos() == 0,
    {
        Self { string, offset: 0 }
    }

    /// Decode the next number; `None` once no terminal character is left,
    /// and the cursor then stands at the end.
    pub fn next(&mut self) -> (r: Option<i32>)
        requires
            old(self).wf(),
        ensures
            final(self).wf(),
            final(self).bytes() == old(self).bytes(),
            match vlq_next(old(self).bytes(), old(self).pos()) {
                Some((v, o)) => r is Some && r.unwrap() as int == v && final(self).pos() == o,
                None => r is None && final(self).pos() == old(self).bytes().len(),
            },
    {
        let s: &str = self.string;
        let bytes = s.as_bytes();
        let len = bytes.len();
        let ghost b = bytes@;
        let ghost start = self.offset as int;
        let mut n: u32 = 0;
        while self.offset < len
            invariant
                len == b.len(),
                bytes@ == b,
                b == s.spec_bytes(),
                s == self.string,
                self.string == old(self).string,
                start == old(self).offset,
                start <= self.offset <= len,
                vlq_scan(b, start, 0) == vlq_scan(b, self.offset as int, n),
            decreases len - self.offset,
        {
            let c = bytes[self.offset];
            let ghost old_n = n;
            if c < TERMINAL_BASE {
                n = (n << 4u32) | ((c as u32) & 15u32);
                self.offset = self.offset + 1;
            } else {
                n = (n << 4u32) | ((c as u32) & 15u32);
                self.offset = self.offset + 1;
                let half: u32 = n >> 1u32;
                assert(half <= 0x7fff_ffffu32) by (bit_vector)
                    requires half == n >> 1u32;
                let value = half as i32;
                proof {
                    assert(vlq_scan(b, self.offset - 1, old_n) == Some((n, self.offset as int)));
                }
                return if n & 1u32 == 1u32 {
                    Some(-value)
                } else {
                    Some(value)
                };
            }
        }
        None
    }
}

} // verus!
