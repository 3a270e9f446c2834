//! The one FATAL line written when the process dies of an unhandled exception.
//!
//! The line is built in a buffer of fixed size, without formatting machinery:
//! whatever does not fit is cut off, never written past the end.
use vstd::prelude::*;

use vstd::utf8::encode_utf8;

verus! {

/// The size of the buffer the FATAL line is written into.
pub const FATAL_LINE_CAPACITY: usize = 384;

/// `w` cut to at most `cap` bytes.
pub open spec fn clip(w: Seq<u8>, cap: nat) -> Seq<u8> {
    if w.len() <= cap {
        w
    } else {
        w.subrange(0, cap as int)
    }
}

/// Clipping what was written so far, then writing more and clipping again,
/// is the same as clipping everything once.
pub proof fn lemma_clip_append(w: Seq<u8>, b: Seq<u8>, cap: nat)
    ensures
        clip(clip(w, cap) + b, cap) == clip(w + b, cap),
{
    if w.len() <= cap {
    } else {
        assert(clip(w, cap).len() == cap);
        assert((clip(w, cap) + b).subrange(0, cap as int) =~= (w + b).subrange(0, cap as int));
    }
}

/// A writer into a buffer of fixed capacity: bytes past the capacity are dropped.
pub struct Writer {
    buf: Vec<u8>,
    pos: usize,
}

impl Writer {
    /// The write position lies within the buffer.
    pub closed spec fn wf(&self) -> bool {
        self.pos <= self.buf@.len()
    }

    /// What has been written so far.
    pub closed spec fn written(&self) -> Seq<u8> {
        self.buf@.subrange(0, self.pos as int)
    }

    /// The capacity.
    pub closed spec fn capacity(&self) -> nat {
        self.buf@.len()
    }

    /// An empty writer of the given capacity.
    pub fn new(capacity: usize) -> (r: Writer)
        ensures
            r.wf(),
            r.written() == Seq::<u8>::empty(),
            r.capacity() == capacity,
    {
        let mut buf: Vec<u8> = Vec::new();
        let mut i: usize = 0;
        while i < capacity
            invariant
                i <= capacity,
                buf@.len() == i,
            decreases capacity - i,
        {
            buf.push(0);
            i = i + 1;
        }
        let w = Writer { buf, pos: 0 };
        assert(w.written() =~= Seq::<u8>::empty());
        w
    }

    /// Appends bytes, as many as fit.
    pub fn bytes(&mut self, b: &[u8])
        requires
            old(self).wf(),
        ensures
            final(self).wf(),
            final(self).capacity() == old(self).capacity(),
            final(self).written() == clip(old(self).written() + b@, old(self).capacity()),
    {
        let ghost start = self.written();
        let ghost cap = self.capacity();
        let mut i: usize = 0;
        while i < b.len()
            invariant
                i <= b.len(),
                self.pos <= self.buf@.len(),
                self.buf@.len() == cap,
                start.len() <= cap,
                start == old(self).written(),
                cap == old(self).capacity(),
                self.written() == clip(start + b@.subrange(0, i as int), cap),
            decreases b.len() - i,
        {
            if self.pos >= self.buf.len() {
                proof {
                    assert(self.written().len() == cap);
                    lemma_clip_append(start + b@.subrange(0, i as int), b@.subrange(i as int, b@.len() as int), cap);
                    assert(start + b@.subrange(0, i as int) + b@.subrange(i as int, b@.len() as int) =~= start + b@);
                    assert(clip(start + b@.subrange(0, i as int), cap) + b@.subrange(i as int, b@.len() as int)
                        =~= self.written() + b@.subrange(i as int, b@.len() as int));
                    assert(clip(self.written() + b@.subrange(i as int, b@.len() as int), cap) =~= self.written());
                }
                return;
            }
            let ghost before = self.written();
            let p = self.pos;
            self.buf.set(p, b[i]);
            self.pos = p + 1;
            proof {
                assert(self.written() =~= before.push(b@[i as int]));
                assert(before.len() < cap);
                assert(start + b@.subrange(0, i + 1) =~= (start + b@.subrange(0, i as int)).push(b@[i as int]));
            }
            i = i + 1;
        }
        assert(b@.subrange(0, b@.len() as int) =~= b@);
    }

    /// Appends the UTF-8 bytes of a string, as many as fit.
    pub fn str(&mut self, s: &str)
        requires
            old(self).wf(),
        ensures
            final(self).wf(),
            final(self).capacity() == old(self).capacity(),
            final(self).written() == clip(old(self).written() + encode_utf8(s@), old(self).capacity()),
    {
        self.bytes(s.as_bytes());
    }

    /// Appends a number in decimal, as many digits as fit.
    pub fn u32(&mut self, v: u32)
        requires
            old(self).wf(),
        ensures
            final(self).wf(),
            final(self).capacity() == old(self).capacity(),
            final(self).written() == clip(old(self).written() + dec_bytes(v as nat), old(self).capacity()),
    {
        let mut d: Vec<u8> = Vec::new();
        push_dec_bytes(&mut d, v);
        assert(d@ =~= dec_bytes(v as nat));
        self.bytes(d.as_slice());
    }

    /// Appends a number as eight hexadecimal digits (upper case).
    pub fn hex_u32(&mut self, v: u32)
        requires
            old(self).wf(),
        ensures
            final(self).wf(),
            final(self).capacity() == old(self).capacity(),
            final(self).written() == clip(old(self).written() + hex_of_bytes(be_bytes(v as nat, 4)), old(self).capacity()),
    {
        let b = be_bytes_exec(v as u64, 4);
        self.hex_bytes(b.as_slice());
    }

    /// Appends a machine word as hexadecimal digits, two per byte of the word.
    pub fn hex_usize(&mut self, v: usize)
        requires
            old(self).wf(),
        ensures
            final(self).wf(),
            final(self).capacity() == old(self).capacity(),
            final(self).written() == clip(
                old(self).written() + hex_of_bytes(be_bytes(v as nat, (usize::BITS / 8) as nat)),
                old(self).capacity(),
            ),
    {
        let n: usize = if usize::BITS == 64 {
            8
        } else {
            4
        };
        assert(n == usize::BITS / 8);
        let b = be_bytes_exec(v as u64, n);
        self.hex_bytes(b.as_slice());
    }

    /// Appends each byte as two hexadecimal digits (upper case).
    pub fn hex_bytes(&mut self, b: &[u8])
        requires
            old(self).wf(),
        ensures
            final(self).wf(),
            final(self).capacity() == old(self).capacity(),
            final(self).written() == clip(old(self).written() + hex_of_bytes(b@), old(self).capacity()),
    {
        let mut h: Vec<u8> = Vec::new();
        let mut i: usize = 0;
        while i < b.len()
            invariant
                i <= b.len(),
                h@ == hex_of_bytes(b@.subrange(0, i as int)),
            decreases b.len() - i,
        {
            let byte = b[i];
            h.push(hex_digit_exec(byte / 16));
            h.push(hex_digit_exec(byte % 16));
            proof {
                let sub = b@.subrange(0, i + 1);
                assert(sub.drop_last() =~= b@.subrange(0, i as int));
                assert(sub.last() == byte);
            }
            i = i + 1;
        }
        assert(b@.subrange(0, b@.len() as int) =~= b@);
        self.bytes(h.as_slice());
    }

    /// The number of bytes written.
    pub fn len(&self) -> (r: usize)
        requires
            self.wf(),
        ensures
            r == self.written().len(),
    {
        self.pos
    }

    /// The bytes written.
    pub fn into_bytes(self) -> (r: Vec<u8>)
        requires
            self.wf(),
        ensures
            r@ == self.written(),
    {
        let mut out: Vec<u8> = Vec::new();
        let mut i: usize = 0;
        while i < self.pos
            invariant
                i <= self.pos <= self.buf@.len(),
                out@ == self.buf@.subrange(0, i as int),
            decreases self.pos - i,
        {
            out.push(self.buf[i]);
            assert(self.buf@.subrange(0, i + 1) =~= self.buf@.subrange(0, i as int).push(self.buf@[i as int]));
            i = i + 1;
        }
        out
    }
}

/// The decimal digits of `n` as ASCII bytes.
pub open spec fn dec_bytes(n: nat) -> Seq<u8>
    decreases n,
{
    if n < 10 {
        seq![(n + 48) as u8]
    } else {
        dec_bytes(n / 10).push((n % 10 + 48) as u8)
    }
}

fn push_dec_bytes(dst: &mut Vec<u8>, n: u32)
    ensures
        final(dst)@ == old(dst)@ + dec_bytes(n as nat),
    decreases n,
{
    if n >= 10 {
        push_dec_bytes(dst, n / 10);
    }
    let d: u8 = (n % 10) as u8;
    dst.push(d + 48);
    proof {
        if n < 10 {
            assert(dec_bytes(n as nat) =~= seq![(n + 48) as u8]);
        }
    }
}

/// The ASCII upper-case hexadecimal digit of `d < 16`.
pub open spec fn hex_digit(d: nat) -> u8 {
    if d < 10 {
        (d + 48) as u8
    } else {
        (d + 55) as u8
    }
}

fn hex_digit_exec(d: u8) -> (r: u8)
    requires
        d < 16,
    ensures
        r == hex_digit(d as nat),
{
    if d < 10 {
        d + 48
    } else {
        d + 55
    }
}

/// Each byte as two hexadecimal digits.
pub open spec fn hex_of_bytes(b: Seq<u8>) -> Seq<u8>
    decreases b.len(),
{
    if b.len() == 0 {
        Seq::empty()
    } else {
        hex_of_bytes(b.drop_last()) + seq![hex_digit((b.last() / 16) as nat), hex_digit((b.last() % 16) as nat)]
    }
}

/// The last `n` bytes of `v`, most significant first.
pub open spec fn be_bytes(v: nat, n: nat) -> Seq<u8>
    decreases n,
{
    if n == 0 {
        Seq::empty()
    } else {
        be_bytes(v / 256, (n - 1) as nat).push((v % 256) as u8)
    }
}

fn be_bytes_exec(v: u64, n: usize) -> (r: Vec<u8>)
    requires
        n <= 8,
    ensures
        r@ == be_bytes(v as nat, n as nat),
    decreases n,
{
    if n == 0 {
        return Vec::new();
    }
    let mut r = be_bytes_exec(v / 256, n - 1);
    r.push((v % 256) as u8);
    r
}

pub open spec fn fatal_head() -> Seq<char> {
    "[FATAL] 未处理异常：进程即将终止 code=0x"@
}

pub open spec fn fatal_tail() -> Seq<char> {
    "（这是崩溃取证记录；panic=abort 下不会产生栈回溯）\n"@
}

/// The FATAL line: exception code and address in hexadecimal, process and
/// thread ids in decimal, ended by a line break.
pub open spec fn fatal_line(code: u32, addr: usize, pid: u32, tid: u32) -> Seq<u8> {
    encode_utf8(fatal_head()) + hex_of_bytes(be_bytes(code as nat, 4)) + encode_utf8(" address=0x"@)
        + hex_of_bytes(be_bytes(addr as nat, (usize::BITS / 8) as nat)) + encode_utf8(" pid="@)
        + dec_bytes(pid as nat) + encode_utf8(" tid="@) + dec_bytes(tid as nat) + encode_utf8(fatal_tail())
}

/// Writes the FATAL line into a buffer of `capacity` bytes; what does not fit is cut off.
pub fn write_fatal(capacity: usize, code: u32, addr: usize, pid: u32, tid: u32) -> (r: Vec<u8>)
    ensures
        r@ == clip(fatal_line(code, addr, pid, tid), capacity as nat),
{
    let mut w = Writer::new(capacity);
    w.str("[FATAL] 未处理异常：进程即将终止 code=0x");
    let ghost s1 = w.written();
    w.hex_u32(code);
    proof {
        lemma_clip_append(encode_utf8(fatal_head()), hex_of_bytes(be_bytes(code as nat, 4)), capacity as nat);
        assert(Seq::<u8>::empty() + encode_utf8(fatal_head()) =~= encode_utf8(fatal_head()));
    }
    let ghost p2 = encode_utf8(fatal_head()) + hex_of_bytes(be_bytes(code as nat, 4));
    assert(w.written() == clip(p2, capacity as nat));
    w.str(" address=0x");
    proof {
        lemma_clip_append(p2, encode_utf8(" address=0x"@), capacity as nat);
    }
    let ghost p3 = p2 + encode_utf8(" address=0x"@);
    w.hex_usize(addr);
    proof {
        lemma_clip_append(p3, hex_of_bytes(be_bytes(addr as nat, (usize::BITS / 8) as nat)), capacity as nat);
    }
    let ghost p4 = p3 + hex_of_bytes(be_bytes(addr as nat, (usize::BITS / 8) as nat));
    w.str(" pid=");
    proof {
        lemma_clip_append(p4, encode_utf8(" pid="@), capacity as nat);
    }
    let ghost p5 = p4 + encode_utf8(" pid="@);
    w.u32(pid);
    proof {
        lemma_clip_append(p5, dec_bytes(pid as nat), capacity as nat);
    }
    let ghost p6 = p5 + dec_bytes(pid as nat);
    w.str(" tid=");
    proof {
        lemma_clip_append(p6, encode_utf8(" tid="@), capacity as nat);
    }
    let ghost p7 = p6 + encode_utf8(" tid="@);
    w.u32(tid);
    proof {
        lemma_clip_append(p7, dec_bytes(tid as nat), capacity as nat);
    }
    let ghost p8 = p7 + dec_bytes(tid as nat);
    w.str("（这是崩溃取证记录；panic=abort 下不会产生栈回溯）\n");
    proof {
        lemma_clip_append(p8, encode_utf8(fatal_tail()), capacity as nat);
    }
    w.into_bytes()
}

} // verus!
