//! Wire format: decoding a framed request into tokens, and encoding replies.
//!
//! A request is `*<argc>\r\n` followed by `argc` repetitions of
//! `$<len>\r\n<token>\r\n`. The decoder splits the buffer on the two-byte
//! line terminator, skips `*` header lines, and takes the line after each
//! `$` header verbatim as one token; declared lengths are not cross-checked
//! against the content. Replies are `+text\r\n` (status), `-text\r\n`
//! (error), `$len\r\ntext\r\n` (bulk string) and `$-1\r\n` (null bulk).

use vstd::prelude::*;
use crate::types::{Reply, ReplyModel};

verus! {

pub const CR: u8 = 13;

pub const LF: u8 = 10;

pub const STAR: u8 = 42;

pub const DOLLAR: u8 = 36;

/// ASCII lowercasing of one byte.
pub open spec fn lower_byte(b: u8) -> u8 {
    if 65 <= b <= 90 {
        (b + 32) as u8
    } else {
        b
    }
}

/// ASCII lowercasing of a byte string.
pub open spec fn lower_bytes(s: Seq<u8>) -> Seq<u8> {
    s.map_values(|b: u8| lower_byte(b))
}

/// ASCII-lowercases a byte string; command names and modifier tokens are
/// matched case-insensitively through this.
pub fn to_lower(s: &Vec<u8>) -> (r: Vec<u8>)
    ensures
        r@ == lower_bytes(s@),
{
    let mut r: Vec<u8> = Vec::new();
    let mut i: usize = 0;
    while i < s.len()
        invariant
            i <= s@.len(),
            r@.len() == i,
            forall|j: int| 0 <= j < i ==> r@[j] == lower_byte(s@[j]),
        decreases s@.len() - i,
    {
        let b = s[i];
        if 65 <= b && b <= 90 {
            r.push(b + 32);
        } else {
            r.push(b);
        }
        i += 1;
    }
    proof {
        assert(r@ =~= lower_bytes(s@));
    }
    r
}

/// Position of the first `\r\n` at or after `i`, if any.
pub open spec fn first_crlf_from(s: Seq<u8>, i: int) -> Option<int>
    decreases s.len() - i,
{
    if i < 0 || i + 2 > s.len() {
        None
    } else if s[i] == CR && s[i + 1] == LF {
        Some(i)
    } else {
        first_crlf_from(s, i + 1)
    }
}

proof fn lemma_first_crlf_bounds(s: Seq<u8>, i: int)
    requires
        0 <= i <= s.len(),
    ensures
        first_crlf_from(s, i) matches Some(j) ==> i <= j && j + 2 <= s.len(),
    decreases s.len() - i,
{
    if i + 2 <= s.len() && !(s[i] == CR && s[i + 1] == LF) {
        lemma_first_crlf_bounds(s, i + 1);
    }
}

/// The lines of the suffix of `s` that starts at `i`, split on `\r\n`.
/// As with splitting a string on a separator, a trailing terminator yields
/// a final empty line, and a buffer without a terminator is one line.
pub open spec fn split_lines_from(s: Seq<u8>, i: int) -> Seq<Seq<u8>>
    decreases s.len() - i,
        when 0 <= i <= s.len()
        via split_lines_from_decreases
{
    match first_crlf_from(s, i) {
        None => seq![s.subrange(i, s.len() as int)],
        Some(j) => seq![s.subrange(i, j)] + split_lines_from(s, j + 2),
    }
}

#[via_fn]
proof fn split_lines_from_decreases(s: Seq<u8>, i: int) {
    lemma_first_crlf_bounds(s, i);
}

/// The buffer split on the two-byte line terminator.
pub open spec fn split_lines(s: Seq<u8>) -> Seq<Seq<u8>> {
    split_lines_from(s, 0)
}

/// The tokens extracted from `lines[i..]`: `*` header lines are skipped,
/// the line following a `$` header is taken verbatim as one token, and
/// every other line is ignored.
pub open spec fn tokens_from(lines: Seq<Seq<u8>>, i: int) -> Seq<Seq<u8>>
    decreases lines.len() - i,
{
    if i < 0 || i >= lines.len() {
        seq![]
    } else if lines[i].len() > 0 && lines[i][0] == STAR {
        tokens_from(lines, i + 1)
    } else if lines[i].len() > 0 && lines[i][0] == DOLLAR {
        if i + 1 < lines.len() {
            seq![lines[i + 1]] + tokens_from(lines, i + 2)
        } else {
            seq![]
        }
    } else {
        tokens_from(lines, i + 1)
    }
}

/// The ordered token sequence of one framed request buffer.
pub open spec fn spec_tokens(s: Seq<u8>) -> Seq<Seq<u8>> {
    tokens_from(split_lines(s), 0)
}

fn copy_range(s: &Vec<u8>, from: usize, to: usize) -> (r: Vec<u8>)
    requires
        from <= to <= s@.len(),
    ensures
        r@ == s@.subrange(from as int, to as int),
{
    let mut r: Vec<u8> = Vec::new();
    let mut i: usize = from;
    while i < to
        invariant
            from <= i <= to <= s@.len(),
            r@.len() == i - from,
            forall|j: int| 0 <= j < r@.len() ==> r@[j] == s@[from + j],
        decreases to - i,
    {
        r.push(s[i]);
        i += 1;
    }
    proof {
        assert(r@ =~= s@.subrange(from as int, to as int));
    }
    r
}

fn find_crlf_from(s: &Vec<u8>, start: usize) -> (r: Option<usize>)
    requires
        start <= s@.len(),
    ensures
        match r {
            Some(j) => first_crlf_from(s@, start as int) == Some(j as int) && start <= j && j + 2
                <= s@.len(),
            None => first_crlf_from(s@, start as int) is None,
        },
{
    let mut i: usize = start;
    while s.len() >= 2 && i <= s.len() - 2
        invariant
            start <= i <= s@.len(),
            first_crlf_from(s@, start as int) == first_crlf_from(s@, i as int),
        decreases s@.len() - i,
    {
        if s[i] == CR && s[i + 1] == LF {
            return Some(i);
        }
        i += 1;
    }
    None
}

fn split_crlf(s: &Vec<u8>) -> (r: Vec<Vec<u8>>)
    ensures
        r@.map_values(|l: Vec<u8>| l@) == split_lines(s@),
{
    let mut r: Vec<Vec<u8>> = Vec::new();
    let mut pos: usize = 0;
    loop
        invariant
            pos <= s@.len(),
            split_lines(s@) == r@.map_values(|l: Vec<u8>| l@) + split_lines_from(s@, pos as int),
        decreases s@.len() - pos,
    {
        let ghost r0 = r@.map_values(|l: Vec<u8>| l@);
        match find_crlf_from(s, pos) {
            None => {
                let line = copy_range(s, pos, s.len());
                r.push(line);
                proof {
                    assert(r@.map_values(|l: Vec<u8>| l@) =~= r0.push(line@));
                    assert(split_lines_from(s@, pos as int) == seq![
                        s@.subrange(pos as int, s@.len() as int),
                    ]);
                    assert(r0 + split_lines_from(s@, pos as int) =~= r@.map_values(
                        |l: Vec<u8>| l@,
                    ));
                }
                return r;
            },
            Some(j) => {
                let n = s.len();
                proof {
                    assert(j + 2 <= n);
                }
                let line = copy_range(s, pos, j);
                r.push(line);
                proof {
                    assert(r@.map_values(|l: Vec<u8>| l@) =~= r0.push(line@));
                    assert(split_lines_from(s@, pos as int) == seq![s@.subrange(pos as int, j as int)]
                        + split_lines_from(s@, j + 2));
                    assert(r0 + split_lines_from(s@, pos as int) =~= r@.map_values(|l: Vec<u8>| l@)
                        + split_lines_from(s@, j + 2));
                }
                pos = j + 2;
            },
        }
    }
}

/// Decodes one framed request buffer into its ordered token sequence.
pub fn parse_args(command: &Vec<u8>) -> (r: Vec<Vec<u8>>)
    ensures
        r@.map_values(|t: Vec<u8>| t@) == spec_tokens(command@),
{
    let lines = split_crlf(command);
    let ghost lm = lines@.map_values(|l: Vec<u8>| l@);
    let mut r: Vec<Vec<u8>> = Vec::new();
    let mut i: usize = 0;
    while i < lines.len()
        invariant
            i <= lines@.len(),
            lm == lines@.map_values(|l: Vec<u8>| l@),
            tokens_from(lm, 0) == r@.map_values(|t: Vec<u8>| t@) + tokens_from(lm, i as int),
        decreases lines@.len() - i,
    {
        let ghost r0 = r@.map_values(|t: Vec<u8>| t@);
        let line = &lines[i];
        if line.len() > 0 && line[0] == STAR {
            i += 1;
        } else if line.len() > 0 && line[0] == DOLLAR {
            if i + 1 < lines.len() {
                let token = copy_range(&lines[i + 1], 0, lines[i + 1].len());
                proof {
                    assert(token@ =~= lm[i + 1]);
                }
                r.push(token);
                proof {
                    assert(r@.map_values(|t: Vec<u8>| t@) =~= r0.push(lm[i + 1]));
                    assert(tokens_from(lm, i as int) == seq![lm[i + 1]] + tokens_from(lm, i + 2));
                    assert(r0 + tokens_from(lm, i as int) =~= r@.map_values(|t: Vec<u8>| t@)
                        + tokens_from(lm, i + 2));
                }
                i += 2;
            } else {
                proof {
                    assert(tokens_from(lm, i as int) =~= tokens_from(lm, i + 1));
                }
                i += 1;
            }
        } else {
            i += 1;
        }
    }
    proof {
        assert(tokens_from(lm, i as int) =~= Seq::<Seq<u8>>::empty());
        assert(r@.map_values(|t: Vec<u8>| t@) + tokens_from(lm, i as int) =~= r@.map_values(
            |t: Vec<u8>| t@,
        ));
    }
    r
}

/// The decimal digits of `n`, most significant first.
pub open spec fn dec_digits(n: nat) -> Seq<u8>
    decreases n,
{
    if n < 10 {
        seq![(48 + n) as u8]
    } else {
        dec_digits(n / 10) + seq![(48 + n % 10) as u8]
    }
}

/// Formats `n` in decimal.
pub fn u64_to_dec(n: u64) -> (r: Vec<u8>)
    ensures
        r@ == dec_digits(n as nat),
    decreases n,
{
    if n < 10 {
        let mut r: Vec<u8> = Vec::new();
        r.push(48 + n as u8);
        proof {
            assert(r@ =~= dec_digits(n as nat));
        }
        r
    } else {
        let mut r = u64_to_dec(n / 10);
        r.push(48 + (n % 10) as u8);
        proof {
            assert(r@ =~= dec_digits(n as nat));
        }
        r
    }
}

/// Whether `s` is one or more decimal digit bytes.
pub open spec fn is_dec_digits(s: Seq<u8>) -> bool {
    s.len() > 0 && forall|i: int| 0 <= i < s.len() ==> 48 <= #[trigger] s[i] <= 57
}

/// The number that the digit bytes `s` denote.
pub open spec fn dec_value(s: Seq<u8>) -> int
    decreases s.len(),
{
    if s.len() == 0 {
        0
    } else {
        dec_value(s.drop_last()) * 10 + (s.last() - 48)
    }
}

proof fn lemma_dec_value_nonneg(s: Seq<u8>)
    requires
        forall|j: int| 0 <= j < s.len() ==> 48 <= s[j],
    ensures
        dec_value(s) >= 0,
    decreases s.len(),
{
    if s.len() > 0 {
        lemma_dec_value_nonneg(s.drop_last());
    }
}

proof fn lemma_dec_value_mono(s: Seq<u8>, i: int)
    requires
        0 <= i <= s.len(),
        forall|j: int| 0 <= j < s.len() ==> 48 <= #[trigger] s[j] <= 57,
    ensures
        dec_value(s.subrange(0, i)) <= dec_value(s),
    decreases s.len() - i,
{
    if i < s.len() {
        lemma_dec_value_mono(s, i + 1);
        let p = s.subrange(0, i);
        let q = s.subrange(0, i + 1);
        assert(q.drop_last() =~= p);
        assert(q.last() == s[i]);
        lemma_dec_value_nonneg(p);
    } else {
        assert(s.subrange(0, i) =~= s);
    }
}

/// Parses a non-negative decimal integer, as the numeric argument of the
/// `PX`/`EX` modifiers requires: one or more digit bytes whose value fits
/// in a `u64`; anything else is refused.
pub fn parse_u64(s: &Vec<u8>) -> (r: Option<u64>)
    ensures
        match r {
            Some(v) => is_dec_digits(s@) && dec_value(s@) == v as int,
            None => !is_dec_digits(s@) || dec_value(s@) > u64::MAX,
        },
{
    if s.len() == 0 {
        return None;
    }
    let mut acc: u64 = 0;
    let mut i: usize = 0;
    while i < s.len()
        invariant
            i <= s@.len(),
            s@.len() > 0,
            forall|j: int| 0 <= j < i ==> 48 <= #[trigger] s@[j] <= 57,
            acc as int == dec_value(s@.subrange(0, i as int)),
        decreases s@.len() - i,
    {
        let b = s[i];
        if b < 48 || b > 57 {
            return None;
        }
        let d = (b - 48) as u64;
        proof {
            assert(s@.subrange(0, i + 1).drop_last() =~= s@.subrange(0, i as int));
            assert(s@.subrange(0, i + 1).last() == s@[i as int]);
        }
        if acc > (u64::MAX - d) / 10 {
            proof {
                assert(acc * 10 + d > u64::MAX) by (nonlinear_arith)
                    requires
                        acc > (u64::MAX - d) / 10,
                        d <= 9,
                ;
                if forall|j: int| 0 <= j < s@.len() ==> 48 <= #[trigger] s@[j] <= 57 {
                    lemma_dec_value_mono(s@, i + 1);
                }
            }
            return None;
        }
        acc = acc * 10 + d;
        i += 1;
    }
    proof {
        assert(s@.subrange(0, i as int) =~= s@);
    }
    Some(acc)
}

/// Appends all of `s` to `out`.
pub fn push_all(out: &mut Vec<u8>, s: &Vec<u8>)
    ensures
        final(out)@ == old(out)@ + s@,
{
    let ghost base = out@;
    let mut i: usize = 0;
    while i < s.len()
        invariant
            i <= s@.len(),
            out@.len() == base.len() + i,
            forall|j: int| 0 <= j < base.len() ==> out@[j] == base[j],
            forall|j: int| 0 <= j < i ==> out@[base.len() + j] == s@[j],
        decreases s@.len() - i,
    {
        out.push(s[i]);
        i += 1;
    }
    proof {
        assert(out@ =~= base + s@);
    }
}

/// The wire bytes of a reply.
pub open spec fn spec_encode_reply(r: ReplyModel) -> Seq<u8> {
    match r {
        ReplyModel::Simple(s) => seq![43u8] + s + seq![CR, LF],
        ReplyModel::Error(s) => seq![45u8] + s + seq![CR, LF],
        ReplyModel::Bulk(s) => seq![DOLLAR] + dec_digits(s.len()) + seq![CR, LF] + s + seq![CR, LF],
        ReplyModel::NullBulk => seq![DOLLAR, 45u8, 49u8, CR, LF],
    }
}

/// Encodes a reply to its wire bytes.
pub fn encode_reply(r: &Reply) -> (out: Vec<u8>)
    ensures
        out@ == spec_encode_reply(r@),
{
    let mut out: Vec<u8> = Vec::new();
    match r {
        Reply::Simple(s) => {
            out.push(43);
            push_all(&mut out, s);
            out.push(CR);
            out.push(LF);
            proof {
                assert(out@ =~= spec_encode_reply(r@));
            }
        },
        Reply::Error(s) => {
            out.push(45);
            push_all(&mut out, s);
            out.push(CR);
            out.push(LF);
            proof {
                assert(out@ =~= spec_encode_reply(r@));
            }
        },
        Reply::Bulk(s) => {
            out.push(DOLLAR);
            let len_digits = u64_to_dec(s.len() as u64);
            push_all(&mut out, &len_digits);
            out.push(CR);
            out.push(LF);
            push_all(&mut out, s);
            out.push(CR);
            out.push(LF);
            proof {
                assert(out@ =~= spec_encode_reply(r@));
            }
        },
        Reply::NullBulk => {
            out.push(DOLLAR);
            out.push(45);
            out.push(49);
            out.push(CR);
            out.push(LF);
            proof {
                assert(out@ =~= spec_encode_reply(r@));
            }
        },
    }
    out
}

} // verus!
