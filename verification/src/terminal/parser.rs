//! Minimal ANSI escape-sequence handling.
//!
//! `strip_ansi` removes CSI sequences (`ESC [` ... final byte in
//! `0x40..=0x7E`), OSC sequences (`ESC ]` ... terminated by `BEL` or
//! `ESC \`) and other two-byte `ESC x` sequences. A lone `ESC` at the very
//! end of the input is kept.

use vstd::prelude::*;

verus! {

/// The escape byte.
pub const ESC: u8 = 0x1b;

/// The bell byte, one of the two OSC terminators.
pub const BEL: u8 = 0x07;

/// A CSI final byte lies in `0x40..=0x7E`.
pub open spec fn is_csi_final(b: u8) -> bool {
    0x40 <= b && b <= 0x7e
}

/// Index just past the CSI sequence whose parameter bytes start at `j`:
/// one past the first final byte at or after `j`, or the end of input.
pub open spec fn csi_end(s: Seq<u8>, j: int) -> int
    decreases s.len() - j,
{
    if j >= s.len() {
        s.len() as int
    } else if is_csi_final(s[j]) {
        j + 1
    } else {
        csi_end(s, j + 1)
    }
}

/// Index just past the OSC sequence whose body starts at `j`: past the
/// first `BEL` or `ESC \` at or after `j`, or the end of input.
pub open spec fn osc_end(s: Seq<u8>, j: int) -> int
    decreases s.len() - j,
{
    if j >= s.len() {
        s.len() as int
    } else if s[j] == BEL {
        j + 1
    } else if s[j] == ESC && j + 1 < s.len() && s[j + 1] == 0x5c {
        j + 2
    } else {
        osc_end(s, j + 1)
    }
}

pub proof fn lemma_csi_end_bounds(s: Seq<u8>, j: int)
    requires
        0 <= j <= s.len(),
    ensures
        j <= csi_end(s, j) <= s.len(),
    decreases s.len() - j,
{
    if j < s.len() && !is_csi_final(s[j]) {
        lemma_csi_end_bounds(s, j + 1);
    }
}

pub proof fn lemma_osc_end_bounds(s: Seq<u8>, j: int)
    requires
        0 <= j <= s.len(),
    ensures
        j <= osc_end(s, j) <= s.len(),
    decreases s.len() - j,
{
    if j < s.len() && s[j] != BEL && !(s[j] == ESC && j + 1 < s.len() && s[j + 1] == 0x5c) {
        lemma_osc_end_bounds(s, j + 1);
    }
}

/// What stripping produces from position `i` of `s` onwards.
pub open spec fn strip_from(s: Seq<u8>, i: int) -> Seq<u8>
    decreases s.len() - i,
{
    if i < 0 || i >= s.len() {
        Seq::empty()
    } else if s[i] != ESC {
        seq![s[i]] + strip_from(s, i + 1)
    } else if i + 1 >= s.len() {
        seq![ESC]
    } else if s[i + 1] == 0x5b {
        proof {
            lemma_csi_end_bounds(s, i + 2);
        }
        strip_from(s, csi_end(s, i + 2))
    } else if s[i + 1] == 0x5d {
        proof {
            lemma_osc_end_bounds(s, i + 2);
        }
        strip_from(s, osc_end(s, i + 2))
    } else {
        strip_from(s, i + 2)
    }
}

/// `s` with every ANSI escape sequence removed.
pub open spec fn stripped(s: Seq<u8>) -> Seq<u8> {
    strip_from(s, 0)
}

/// `s` holds no escape byte, except possibly as its last byte.
pub open spec fn esc_only_last(s: Seq<u8>) -> bool {
    forall|k: int| 0 <= k < s.len() - 1 ==> s[k] != ESC
}

/// Returns `input` with all ANSI escape sequences removed.
pub fn strip_ansi(input: &[u8]) -> (out: Vec<u8>)
    ensures
        out@ == stripped(input@),
        esc_only_last(out@),
        out@.len() <= input@.len(),
{
    proof {
        lemma_strip_from_shape(input@, 0);
    }
    let len = input.len();
    let mut out: Vec<u8> = Vec::with_capacity(len);
    let mut i: usize = 0;
    while i < len
        invariant
            len == input@.len(),
            i <= len,
            out@ + strip_from(input@, i as int) == stripped(input@),
        decreases len - i,
    {
        let b = input[i];
        if b != ESC {
            out.push(b);
            i += 1;
        } else if i + 1 >= len {
            out.push(b);
            i += 1;
        } else {
            let intro = input[i + 1];
            if intro == 0x5b {
                let mut j: usize = i + 2;
                let mut done = false;
                while j < len && !done
                    invariant
                        len == input@.len(),
                        i + 2 <= j <= len,
                        done ==> j == csi_end(input@, (i + 2) as int),
                        !done ==> csi_end(input@, j as int) == csi_end(input@, (i + 2) as int),
                    decreases len - j,
                {
                    if 0x40 <= input[j] && input[j] <= 0x7e {
                        done = true;
                    }
                    j += 1;
                }
                i = j;
            } else if intro == 0x5d {
                let mut j: usize = i + 2;
                let mut done = false;
                while j < len && !done
                    invariant
                        len == input@.len(),
                        i + 2 <= j <= len,
                        done ==> j == osc_end(input@, (i + 2) as int),
                        !done ==> osc_end(input@, j as int) == osc_end(input@, (i + 2) as int),
                    decreases len - j,
                {
                    if input[j] == BEL {
                        done = true;
                        j += 1;
                    } else if input[j] == ESC && j + 1 < len && input[j + 1] == 0x5c {
                        done = true;
                        j += 2;
                    } else {
                        j += 1;
                    }
                }
                i = j;
            } else {
                i += 2;
            }
        }
    }
    out
}

proof fn lemma_strip_from_shape(s: Seq<u8>, i: int)
    requires
        0 <= i <= s.len(),
    ensures
        esc_only_last(strip_from(s, i)),
        strip_from(s, i).len() <= s.len() - i,
    decreases s.len() - i,
{
    if i < s.len() {
        if s[i] != ESC {
            lemma_strip_from_shape(s, i + 1);
            let rest = strip_from(s, i + 1);
            assert(strip_from(s, i) == seq![s[i]] + rest);
            assert forall|k: int| 0 <= k < strip_from(s, i).len() - 1 implies strip_from(s, i)[k]
                != ESC by {
                if k > 0 {
                    assert(strip_from(s, i)[k] == rest[k - 1]);
                }
            }
        } else if i + 1 >= s.len() {
        } else if s[i + 1] == 0x5b {
            lemma_csi_end_bounds(s, i + 2);
            lemma_strip_from_shape(s, csi_end(s, i + 2));
        } else if s[i + 1] == 0x5d {
            lemma_osc_end_bounds(s, i + 2);
            lemma_strip_from_shape(s, osc_end(s, i + 2));
        } else {
            lemma_strip_from_shape(s, i + 2);
        }
    }
}

proof fn lemma_strip_from_identity(s: Seq<u8>, i: int)
    requires
        0 <= i <= s.len(),
        esc_only_last(s),
    ensures
        strip_from(s, i) == s.subrange(i, s.len() as int),
    decreases s.len() - i,
{
    if i < s.len() {
        if s[i] != ESC {
            lemma_strip_from_identity(s, i + 1);
            assert(seq![s[i]] + s.subrange(i + 1, s.len() as int) =~= s.subrange(i, s.len() as int));
        } else {
            assert(i == s.len() - 1);
            assert(seq![ESC] =~= s.subrange(i, s.len() as int));
        }
    } else {
        assert(s.subrange(i, s.len() as int) =~= Seq::<u8>::empty());
    }
}

/// Input that holds no escape byte, except possibly as its very last byte,
/// passes through unchanged; in particular plain text is left as it is.
pub proof fn lemma_plain_text_unchanged(s: Seq<u8>)
    requires
        esc_only_last(s),
    ensures
        stripped(s) == s,
{
    lemma_strip_from_identity(s, 0);
    assert(s.subrange(0, s.len() as int) =~= s);
}

/// Stripping twice is the same as stripping once.
pub proof fn lemma_strip_idempotent(s: Seq<u8>)
    ensures
        stripped(stripped(s)) == stripped(s),
{
    lemma_strip_from_shape(s, 0);
    lemma_plain_text_unchanged(stripped(s));
}


/// Finding the end of a CSI sequence does not look before its start.
proof fn lemma_csi_end_shift(a: Seq<u8>, u: Seq<u8>, j: int)
    requires
        0 <= j <= u.len(),
    ensures
        csi_end(a + u, a.len() + j) == a.len() + csi_end(u, j),
    decreases u.len() - j,
{
    let s = a + u;
    if j < u.len() {
        assert(s[a.len() + j] == u[j]);
        if !is_csi_final(u[j]) {
            lemma_csi_end_shift(a, u, j + 1);
        }
    }
}

/// Finding the end of an OSC sequence does not look before its start.
proof fn lemma_osc_end_shift(a: Seq<u8>, u: Seq<u8>, j: int)
    requires
        0 <= j <= u.len(),
    ensures
        osc_end(a + u, a.len() + j) == a.len() + osc_end(u, j),
    decreases u.len() - j,
{
    let s = a + u;
    if j < u.len() {
        assert(s[a.len() + j] == u[j]);
        if j + 1 < u.len() {
            assert(s[a.len() + j + 1] == u[j + 1]);
        }
        if u[j] != BEL && !(u[j] == ESC && j + 1 < u.len() && u[j + 1] == 0x5c) {
            lemma_osc_end_shift(a, u, j + 1);
        }
    }
}

/// Stripping from a position on depends only on what follows it.
proof fn lemma_strip_shift(a: Seq<u8>, u: Seq<u8>, i: int)
    requires
        0 <= i <= u.len(),
    ensures
        strip_from(a + u, a.len() + i) == strip_from(u, i),
    decreases u.len() - i,
{
    let s = a + u;
    let k = a.len() + i;
    if i < u.len() {
        assert(s[k] == u[i]);
        if i + 1 < u.len() {
            assert(s[k + 1] == u[i + 1]);
        }
        if u[i] != ESC {
            lemma_strip_shift(a, u, i + 1);
        } else if i + 1 >= u.len() {
        } else if u[i + 1] == 0x5b {
            lemma_csi_end_bounds(u, i + 2);
            lemma_csi_end_shift(a, u, i + 2);
            lemma_strip_shift(a, u, csi_end(u, i + 2));
        } else if u[i + 1] == 0x5d {
            lemma_osc_end_bounds(u, i + 2);
            lemma_osc_end_shift(a, u, i + 2);
            lemma_strip_shift(a, u, osc_end(u, i + 2));
        } else {
            lemma_strip_shift(a, u, i + 2);
        }
    }
}

/// Text without escape bytes passes through in front of whatever follows.
proof fn lemma_plain_prefix(t: Seq<u8>, v: Seq<u8>, i: int)
    requires
        0 <= i <= t.len(),
        forall|k: int| 0 <= k < t.len() ==> t[k] != ESC,
    ensures
        strip_from(t + v, i) == t.subrange(i, t.len() as int) + stripped(v),
    decreases t.len() - i,
{
    let s = t + v;
    if i < t.len() {
        assert(s[i] == t[i]);
        lemma_plain_prefix(t, v, i + 1);
        assert(seq![t[i]] + t.subrange(i + 1, t.len() as int) =~= t.subrange(i, t.len() as int));
        assert(seq![t[i]] + (t.subrange(i + 1, t.len() as int) + stripped(v)) =~= t.subrange(
            i,
            t.len() as int,
        ) + stripped(v));
    } else {
        lemma_strip_shift(t, v, 0);
        assert(t.subrange(i, t.len() as int) =~= Seq::<u8>::empty());
        assert(Seq::<u8>::empty() + stripped(v) =~= stripped(v));
    }
}

/// A CSI sequence is removed whole: `ESC [`, any parameter and
/// intermediate bytes (none of them a final byte in `0x40..=0x7E`), then
/// a final byte. Plain text before it is kept, and what follows is
/// stripped on its own.
pub proof fn lemma_csi_removed(t: Seq<u8>, params: Seq<u8>, fin: u8, u: Seq<u8>)
    requires
        forall|k: int| 0 <= k < t.len() ==> t[k] != ESC,
        forall|k: int| 0 <= k < params.len() ==> !(0x40 <= #[trigger] params[k] <= 0x7e),
        0x40 <= fin <= 0x7e,
    ensures
        stripped(t + (seq![ESC, 0x5bu8] + params + seq![fin] + u)) == t + stripped(u),
{
    let head = seq![ESC, 0x5bu8] + params + seq![fin];
    let v = head + u;
    assert(seq![ESC, 0x5bu8] + params + seq![fin] + u =~= v);
    lemma_plain_prefix(t, v, 0);
    assert(t.subrange(0, t.len() as int) =~= t);
    assert(v[0] == ESC && v[1] == 0x5b);
    assert forall|j: int| 2 <= j <= head.len() - 1 implies csi_end(v, j) == head.len() by {
        lemma_csi_params(v, params, j, head.len() as int);
    }
    lemma_strip_shift(head, u, 0);
}

proof fn lemma_csi_params(v: Seq<u8>, params: Seq<u8>, j: int, end: int)
    requires
        end == params.len() + 3,
        v.len() >= end,
        2 <= j <= end - 1,
        forall|k: int| 0 <= k < params.len() ==> v[k + 2] == params[k],
        forall|k: int| 0 <= k < params.len() ==> !(0x40 <= #[trigger] params[k] <= 0x7e),
        0x40 <= v[end - 1] <= 0x7e,
    ensures
        csi_end(v, j) == end,
    decreases end - j,
{
    if j < end - 1 {
        assert(v[j] == params[j - 2]);
        lemma_csi_params(v, params, j + 1, end);
    }
}

/// An OSC sequence is removed whole: `ESC ]`, a body without `BEL` or
/// `ESC`, then `BEL`.
pub proof fn lemma_osc_bel_removed(t: Seq<u8>, body: Seq<u8>, u: Seq<u8>)
    requires
        forall|k: int| 0 <= k < t.len() ==> t[k] != ESC,
        forall|k: int| 0 <= k < body.len() ==> #[trigger] body[k] != BEL && body[k] != ESC,
    ensures
        stripped(t + (seq![ESC, 0x5du8] + body + seq![BEL] + u)) == t + stripped(u),
{
    let head = seq![ESC, 0x5du8] + body + seq![BEL];
    let v = head + u;
    assert(seq![ESC, 0x5du8] + body + seq![BEL] + u =~= v);
    lemma_plain_prefix(t, v, 0);
    assert(t.subrange(0, t.len() as int) =~= t);
    assert(v[0] == ESC && v[1] == 0x5d);
    lemma_osc_body(v, body, 2, head.len() as int, 1);
    lemma_strip_shift(head, u, 0);
}

/// An OSC sequence is removed whole: `ESC ]`, a body without `BEL` or
/// `ESC`, then the string terminator `ESC \`.
pub proof fn lemma_osc_st_removed(t: Seq<u8>, body: Seq<u8>, u: Seq<u8>)
    requires
        forall|k: int| 0 <= k < t.len() ==> t[k] != ESC,
        forall|k: int| 0 <= k < body.len() ==> #[trigger] body[k] != BEL && body[k] != ESC,
    ensures
        stripped(t + (seq![ESC, 0x5du8] + body + seq![ESC, 0x5cu8] + u)) == t + stripped(u),
{
    let head = seq![ESC, 0x5du8] + body + seq![ESC, 0x5cu8];
    let v = head + u;
    assert(seq![ESC, 0x5du8] + body + seq![ESC, 0x5cu8] + u =~= v);
    lemma_plain_prefix(t, v, 0);
    assert(t.subrange(0, t.len() as int) =~= t);
    assert(v[0] == ESC && v[1] == 0x5d);
    lemma_osc_body(v, body, 2, head.len() as int, 2);
    lemma_strip_shift(head, u, 0);
}

proof fn lemma_osc_body(v: Seq<u8>, body: Seq<u8>, j: int, end: int, term: int)
    requires
        term == 1 || term == 2,
        end == body.len() + 2 + term,
        v.len() >= end,
        2 <= j <= body.len() + 2,
        forall|k: int| 0 <= k < body.len() ==> v[k + 2] == body[k],
        forall|k: int| 0 <= k < body.len() ==> #[trigger] body[k] != BEL && body[k] != ESC,
        term == 1 ==> v[end - 1] == BEL,
        term == 2 ==> v[end - 2] == ESC && v[end - 1] == 0x5c,
    ensures
        osc_end(v, j) == end,
    decreases end - j,
{
    if j < body.len() + 2 {
        assert(v[j] == body[j - 2]);
        lemma_osc_body(v, body, j + 1, end, term);
    }
}

/// Any other two-byte escape, `ESC` then a byte other than `[` or `]`, is
/// removed.
pub proof fn lemma_two_byte_removed(t: Seq<u8>, c: u8, u: Seq<u8>)
    requires
        forall|k: int| 0 <= k < t.len() ==> t[k] != ESC,
        c != 0x5b && c != 0x5d,
    ensures
        stripped(t + (seq![ESC, c] + u)) == t + stripped(u),
{
    let v = seq![ESC, c] + u;
    lemma_plain_prefix(t, v, 0);
    assert(t.subrange(0, t.len() as int) =~= t);
    assert(v[0] == ESC && v[1] == c);
    lemma_strip_shift(seq![ESC, c], u, 0);
}

/// A lone escape byte at the very end is kept.
pub proof fn lemma_trailing_esc_kept(t: Seq<u8>)
    requires
        forall|k: int| 0 <= k < t.len() ==> t[k] != ESC,
    ensures
        stripped(t + seq![ESC]) == t + seq![ESC],
{
    lemma_plain_prefix(t, seq![ESC], 0);
    assert(t.subrange(0, t.len() as int) =~= t);
}

} // verus!
