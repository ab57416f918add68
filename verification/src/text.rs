//! Byte-level helpers for the wire protocol: prefix tests, whitespace
//! trimming, locating the header/body separator, extracting the id segment
//! of a request line, and decimal integer parsing.
use vstd::prelude::*;

verus! {

/// A one-byte whitespace character: tab, line feed, vertical tab, form
/// feed, carriage return, or space.
pub open spec fn is_ws(b: u8) -> bool {
    b == 32 || b == 9 || b == 10 || b == 13 || b == 11 || b == 12
}

/// A three-byte UTF-8 whitespace character: the ogham space mark; the
/// en quad through hair space run, the line and paragraph separators and
/// the narrow no-break space; the medium mathematical space; or the
/// ideographic space.
pub open spec fn is_ws3(b0: u8, b1: u8, b2: u8) -> bool {
    ||| b0 == 225 && b1 == 154 && b2 == 128
    ||| b0 == 226 && b1 == 128 && (128 <= b2 <= 138 || b2 == 168 || b2 == 169 || b2 == 175)
    ||| b0 == 226 && b1 == 129 && b2 == 159
    ||| b0 == 227 && b1 == 128 && b2 == 128
}

/// The length of the UTF-8 encoding of a Unicode whitespace character
/// starting at `i`, or 0 when none starts there. The two-byte characters
/// are the next line and the no-break space.
pub open spec fn ws_len_at(s: Seq<u8>, i: int) -> int {
    if i < 0 || i >= s.len() {
        0
    } else if is_ws(s[i]) {
        1
    } else if i + 2 <= s.len() && s[i] == 194 && (s[i + 1] == 133 || s[i + 1] == 160) {
        2
    } else if i + 3 <= s.len() && is_ws3(s[i], s[i + 1], s[i + 2]) {
        3
    } else {
        0
    }
}

/// A text is blank when it is a run of whitespace characters and nothing
/// else — what trimming Unicode whitespace leaves empty. A field that is
/// blank after trimming is treated as missing.
pub open spec fn blank(s: Seq<u8>) -> bool
    decreases s.len(),
{
    if s.len() == 0 {
        true
    } else if ws_len_at(s, 0) > 0 {
        blank(s.skip(ws_len_at(s, 0)))
    } else {
        false
    }
}

/// The length of the whitespace character starting at `i`, or 0.
pub fn ws_len(s: &[u8], i: usize) -> (k: usize)
    ensures
        k as int == ws_len_at(s@, i as int),
{
    let n = s.len();
    if i >= n {
        return 0;
    }
    let b = s[i];
    if b == 9 || b == 10 || b == 11 || b == 12 || b == 13 || b == 32 {
        return 1;
    }
    if n - i >= 2 {
        let b1 = s[i + 1];
        if b == 194 && (b1 == 133 || b1 == 160) {
            return 2;
        }
        if n - i >= 3 {
            let b2 = s[i + 2];
            if b == 225 && b1 == 154 && b2 == 128 {
                return 3;
            }
            if b == 226 && b1 == 128 && (128 <= b2 && b2 <= 138 || b2 == 168 || b2 == 169 || b2
                == 175) {
                return 3;
            }
            if b == 226 && b1 == 129 && b2 == 159 {
                return 3;
            }
            if b == 227 && b1 == 128 && b2 == 128 {
                return 3;
            }
        }
    }
    0
}

/// Whitespace starting at `i` of `s` is whitespace starting at 0 of the
/// tail of `s` from `i`.
proof fn lemma_ws_len_shift(s: Seq<u8>, i: int)
    requires
        0 <= i <= s.len(),
    ensures
        ws_len_at(s.skip(i), 0) == ws_len_at(s, i),
{
    let t = s.skip(i);
    if i < s.len() {
        assert(t[0] == s[i]);
        if i + 2 <= s.len() {
            assert(t[1] == s[i + 1]);
        }
        if i + 3 <= s.len() {
            assert(t[2] == s[i + 2]);
        }
    }
}

/// `true` iff `s` is all whitespace.
pub fn is_blank(s: &[u8]) -> (r: bool)
    ensures
        r == blank(s@),
{
    let n = s.len();
    let mut i: usize = 0;
    proof {
        assert(s@.skip(0) =~= s@);
    }
    while i < n
        invariant
            0 <= i <= s@.len(),
            n == s@.len(),
            blank(s@) == blank(s@.skip(i as int)),
        decreases s@.len() - i,
    {
        let k = ws_len(s, i);
        proof {
            lemma_ws_len_shift(s@, i as int);
        }
        if k == 0 {
            proof {
                assert(!blank(s@.skip(i as int)));
            }
            return false;
        }
        proof {
            assert(s@.skip(i as int).skip(k as int) =~= s@.skip(i + k));
        }
        i = i + k;
    }
    proof {
        assert(s@.skip(i as int) =~= Seq::<u8>::empty());
    }
    true
}

pub open spec fn begins_with(s: Seq<u8>, p: Seq<u8>) -> bool {
    p.len() <= s.len() && forall|i: int| 0 <= i < p.len() ==> s[i] == p[i]
}

/// `true` iff `s` starts with the byte sequence `p`.
pub fn has_prefix(s: &[u8], p: &[u8]) -> (r: bool)
    ensures
        r == begins_with(s@, p@),
{
    if p.len() > s.len() {
        return false;
    }
    let mut i: usize = 0;
    while i < p.len()
        invariant
            0 <= i <= p@.len(),
            p@.len() <= s@.len(),
            forall|j: int| 0 <= j < i ==> s@[j] == p@[j],
        decreases p@.len() - i,
    {
        if s[i] != p[i] {
            return false;
        }
        i = i + 1;
    }
    true
}

/// Index of the first `\r\n\r\n` at or after `i`, or -1 if there is none.
pub open spec fn find_sep_from(s: Seq<u8>, i: int) -> int
    decreases s.len() - i,
{
    if i < 0 || i + 4 > s.len() {
        -1
    } else if s[i] == 13 && s[i + 1] == 10 && s[i + 2] == 13 && s[i + 3] == 10 {
        i
    } else {
        find_sep_from(s, i + 1)
    }
}

/// The request body: everything after the first blank line (`\r\n\r\n`);
/// when the buffer holds no blank line, the whole buffer.
pub open spec fn spec_body(req: Seq<u8>) -> Seq<u8> {
    if find_sep_from(req, 0) == -1 {
        req
    } else {
        req.skip(find_sep_from(req, 0) + 4)
    }
}

/// Copies the body of `req` out: the bytes after the first `\r\n\r\n`,
/// or all of `req` when no such separator occurs.
pub fn request_body(req: &[u8]) -> (r: Vec<u8>)
    ensures
        r@ == spec_body(req@),
{
    let n = req.len();
    let mut i: usize = 0;
    let mut start: usize = 0;
    let mut found = false;
    while !found && n >= 4 && i <= n - 4
        invariant
            0 <= i <= req@.len(),
            n == req@.len(),
            !found ==> find_sep_from(req@, 0) == find_sep_from(req@, i as int),
            found ==> find_sep_from(req@, 0) == i && start == i + 4,
            found ==> i + 4 <= req@.len(),
        decreases req@.len() - i, (if found { 0int } else { 1int }),
    {
        if req[i] == 13 && req[i + 1] == 10 && req[i + 2] == 13 && req[i + 3] == 10 {
            start = i + 4;
            found = true;
        } else {
            i = i + 1;
        }
    }
    let mut out: Vec<u8> = Vec::new();
    if !found {
        proof {
            assert(find_sep_from(req@, i as int) == -1);
            assert(req@.skip(0) =~= req@);
        }
        start = 0;
    }
    let mut j: usize = start;
    while j < req.len()
        invariant
            start <= j <= req@.len() || (start > req@.len() && j == start),
            if found {
                out@ =~= req@.subrange(start as int, j as int) && find_sep_from(req@, 0) + 4
                    == start && start <= req@.len()
            } else {
                out@ =~= req@.subrange(start as int, if j >= start { j as int } else { start as int })
                    && start == 0 && find_sep_from(req@, 0) == -1
            },
        decreases req@.len() - j,
    {
        let b = req[j];
        out.push(b);
        j = j + 1;
    }
    proof {
        if found {
            assert(out@ =~= req@.skip(find_sep_from(req@, 0) + 4));
        } else {
            assert(out@ =~= req@);
        }
    }
    out
}

/// Index of the first occurrence of byte `b` at or after `i`, or -1.
pub open spec fn find_byte_from(s: Seq<u8>, b: u8, i: int) -> int
    decreases s.len() - i,
{
    if i < 0 || i >= s.len() {
        -1
    } else if s[i] == b {
        i
    } else {
        find_byte_from(s, b, i + 1)
    }
}

/// Index just past the run of whitespace characters starting at `i`.
pub open spec fn skip_ws_run(s: Seq<u8>, i: int) -> int
    decreases s.len() - i,
{
    if ws_len_at(s, i) > 0 {
        skip_ws_run(s, i + ws_len_at(s, i))
    } else {
        i
    }
}

/// Index of the first position at or after `i` where a whitespace
/// character starts, or `s.len()`.
pub open spec fn find_ws_start(s: Seq<u8>, i: int) -> int
    decreases s.len() - i,
{
    if i < 0 || i >= s.len() {
        s.len() as int
    } else if ws_len_at(s, i) > 0 {
        i
    } else {
        find_ws_start(s, i + 1)
    }
}

/// The id token of a request: the third `/`-separated segment of the
/// buffer (empty when there is no second `/`), trimmed to its first
/// whitespace-delimited word (empty when the segment is all whitespace).
pub open spec fn spec_id_token(req: Seq<u8>) -> Seq<u8> {
    let s1 = find_byte_from(req, 47, 0);
    let s2 = if s1 == -1 {
        -1
    } else {
        find_byte_from(req, 47, s1 + 1)
    };
    if s2 == -1 {
        Seq::empty()
    } else {
        let seg_end = if find_byte_from(req, 47, s2 + 1) == -1 {
            req.len() as int
        } else {
            find_byte_from(req, 47, s2 + 1)
        };
        let seg = req.subrange(s2 + 1, seg_end);
        let t0 = skip_ws_run(seg, 0);
        let t1 = find_ws_start(seg, t0);
        seg.subrange(t0, t1)
    }
}

/// Finds the first occurrence of `b` in `s` at or after `from`.
fn scan_byte(s: &[u8], b: u8, from: usize) -> (r: Option<usize>)
    ensures
        match r {
            Some(k) => find_byte_from(s@, b, from as int) == k && from <= k < s@.len(),
            None => find_byte_from(s@, b, from as int) == -1,
        },
{
    let mut i: usize = from;
    while i < s.len()
        invariant
            from <= i,
            i <= s@.len() || i == from,
            find_byte_from(s@, b, from as int) == find_byte_from(s@, b, i as int),
        decreases s@.len() - i,
    {
        if s[i] == b {
            return Some(i);
        }
        i = i + 1;
    }
    None
}

/// Extracts the id token of a request, as `spec_id_token` describes it.
pub fn get_id(request: &[u8]) -> (r: Vec<u8>)
    ensures
        r@ == spec_id_token(request@),
{
    let n = request.len();
    let mut out: Vec<u8> = Vec::new();
    let s1 = match scan_byte(request, 47, 0) {
        Some(k) => k,
        None => {
            proof {
                assert(out@ =~= spec_id_token(request@));
            }
            return out;
        },
    };
    proof {
        assert(s1 < n);
    }
    let s2 = match scan_byte(request, 47, s1 + 1) {
        Some(k) => k,
        None => {
            proof {
                assert(out@ =~= spec_id_token(request@));
            }
            return out;
        },
    };
    proof {
        assert(s2 < n);
    }
    let seg_end = match scan_byte(request, 47, s2 + 1) {
        Some(k) => k,
        None => n,
    };
    let seg_s = vstd::slice::slice_subrange(request, s2 + 1, seg_end);
    let m = seg_s.len();
    let ghost seg: Seq<u8> = request@.subrange(s2 + 1, seg_end as int);
    // skip the leading run of whitespace characters
    let mut t0: usize = 0;
    let mut k = ws_len(seg_s, 0);
    while k > 0
        invariant
            0 <= t0 <= seg.len(),
            m == seg.len(),
            seg_s@ == seg,
            k as int == ws_len_at(seg, t0 as int),
            skip_ws_run(seg, 0) == skip_ws_run(seg, t0 as int),
        decreases seg.len() - t0,
    {
        t0 = t0 + k;
        k = ws_len(seg_s, t0);
    }
    proof {
        assert(skip_ws_run(seg, 0) == t0);
    }
    // copy until the next whitespace character starts
    let mut t1: usize = t0;
    while t1 < seg_s.len() && ws_len(seg_s, t1) == 0
        invariant
            t0 <= t1 <= seg.len(),
            seg_s@ == seg,
            skip_ws_run(seg, 0) == t0,
            find_ws_start(seg, t0 as int) == find_ws_start(seg, t1 as int),
            out@ =~= seg.subrange(t0 as int, t1 as int),
        decreases seg.len() - t1,
    {
        out.push(seg_s[t1]);
        t1 = t1 + 1;
    }
    proof {
        assert(find_ws_start(seg, t1 as int) == t1);
        assert(out@ =~= spec_id_token(request@));
    }
    out
}

/// The value of a pure decimal digit string, most significant first.
pub open spec fn digits_val(s: Seq<u8>) -> int
    decreases s.len(),
{
    if s.len() == 0 {
        0
    } else {
        digits_val(s.drop_last()) * 10 + (s.last() - 48)
    }
}

pub open spec fn all_digits(s: Seq<u8>) -> bool {
    forall|i: int| 0 <= i < s.len() ==> 48 <= #[trigger] s[i] <= 57
}

/// What `i32` parsing accepts: an optional sign, then one or more decimal
/// digits, the value in range; anything else is rejected.
pub open spec fn spec_parse_i32(s: Seq<u8>) -> Option<int> {
    let neg = s.len() > 0 && s[0] == 45;
    let mag = if s.len() > 0 && (s[0] == 43 || s[0] == 45) {
        s.skip(1)
    } else {
        s
    };
    if mag.len() == 0 || !all_digits(mag) {
        None
    } else {
        let v = if neg {
            -digits_val(mag)
        } else {
            digits_val(mag)
        };
        if -2147483648 <= v <= 2147483647 {
            Some(v)
        } else {
            None
        }
    }
}

proof fn lemma_digits_val_grows(s: Seq<u8>, i: int)
    requires
        all_digits(s),
        0 <= i <= s.len(),
    ensures
        digits_val(s) >= digits_val(s.take(i)),
        digits_val(s) >= 0,
    decreases s.len(),
{
    if s.len() == 0 {
    } else {
        lemma_digits_val_grows(s.drop_last(), if i < s.len() { i } else { i - 1 });
        assert(all_digits(s.drop_last()));
        if i < s.len() {
            assert(s.take(i) =~= s.drop_last().take(i));
        } else {
            assert(s.take(i) =~= s);
        }
    }
}

/// Parses a decimal `i32` from `s`, exactly as `spec_parse_i32` says.
#[verifier::loop_isolation(false)]
pub fn parse_i32(s: &[u8]) -> (r: Option<i32>)
    ensures
        match r {
            Some(v) => spec_parse_i32(s@) == Some(v as int),
            None => spec_parse_i32(s@) is None,
        },
{
    let mut i: usize = 0;
    let mut neg = false;
    if s.len() > 0 && (s[0] == 43 || s[0] == 45) {
        neg = s[0] == 45;
        i = 1;
    }
    let ghost mag: Seq<u8> = if s@.len() > 0 && (s@[0] == 43 || s@[0] == 45) {
        s@.skip(1)
    } else {
        s@
    };
    let ghost off: int = i as int;
    if i >= s.len() {
        proof {
            assert(mag.len() == 0);
        }
        return None;
    }
    let mut acc: u64 = 0;
    let mut j: usize = i;
    while j < s.len()
        invariant
            off <= j <= s@.len(),
            off == 0 || off == 1,
            mag == s@.skip(off),
            all_digits(mag.take(j - off)),
            acc == digits_val(mag.take(j - off)),
            acc <= 0x8000_0000,
        decreases s@.len() - j,
    {
        let b = s[j];
        if !(48 <= b && b <= 57) {
            proof {
                assert(mag[j - off] == s@[j as int]);
                assert(!all_digits(mag));
                assert(spec_parse_i32(s@) is None);
            }
            return None;
        }
        proof {
            assert(mag[j - off] == s@[j as int]);
            assert(mag.take(j - off + 1).drop_last() =~= mag.take(j - off));
            assert(mag.take(j - off + 1).last() == mag[j - off]);
        }
        acc = acc * 10 + ((b - 48) as u64);
        if acc > 0x8000_0000 {
            proof {
                let k = j - off + 1;
                assert(digits_val(mag.take(k)) > 2147483648);
                if all_digits(mag) {
                    lemma_digits_val_grows(mag, k);
                    assert(digits_val(mag) > 2147483648);
                }
                assert(spec_parse_i32(s@) is None);
            }
            return None;
        }
        j = j + 1;
    }
    proof {
        assert(mag.take(j - off) =~= mag);
        assert(mag.len() > 0);
    }
    if neg {
        let v: i32 = (-(acc as i64)) as i32;
        proof {
            assert(s@[0] == 45);
        }
        Some(v)
    } else {
        if acc > 2147483647 {
            proof {
                assert(digits_val(mag) == 2147483648);
                assert(!(s@.len() > 0 && s@[0] == 45));
            }
            return None;
        }
        let v: i32 = acc as i32;
        Some(v)
    }
}

} // verus!
