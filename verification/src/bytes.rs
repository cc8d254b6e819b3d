//! Byte-level primitives: splitting on a separator, whitespace trimming,
//! quote stripping, and the line discipline of newline-delimited text.

use vstd::prelude::*;

verus! {

/// Splitting a byte sequence on a separator always yields at least one piece;
/// the pieces are the maximal runs between separator occurrences.
pub open spec fn split_on(s: Seq<u8>, sep: u8) -> Seq<Seq<u8>>
    decreases s.len(),
{
    if s.len() == 0 {
        seq![Seq::<u8>::empty()]
    } else {
        let r = split_on(s.drop_last(), sep);
        if s.last() == sep {
            r.push(Seq::<u8>::empty())
        } else {
            r.update(r.len() - 1, r.last().push(s.last()))
        }
    }
}

pub proof fn lemma_split_on_nonempty(s: Seq<u8>, sep: u8)
    ensures
        split_on(s, sep).len() >= 1,
    decreases s.len(),
{
    if s.len() > 0 {
        lemma_split_on_nonempty(s.drop_last(), sep);
    }
}

/// Splits `s` on the byte `sep`, keeping empty pieces.
pub fn split_byte(s: &Vec<u8>, sep: u8) -> (pieces: Vec<Vec<u8>>)
    ensures
        pieces.deep_view() == split_on(s@, sep),
{
    let mut pieces: Vec<Vec<u8>> = Vec::new();
    let mut cur: Vec<u8> = Vec::new();
    let mut i: usize = 0;
    proof {
        assert(s@.take(0) =~= Seq::<u8>::empty());
        assert(pieces.deep_view().push(cur@) =~~= split_on(s@.take(0), sep));
    }
    while i < s.len()
        invariant
            i <= s.len(),
            pieces.deep_view().push(cur@) == split_on(s@.take(i as int), sep),
        decreases s.len() - i,
    {
        let ghost old_pieces = pieces.deep_view();
        let ghost old_cur = cur@;
        let b = s[i];
        if b == sep {
            pieces.push(cur);
            cur = Vec::new();
        } else {
            cur.push(b);
        }
        i = i + 1;
        proof {
            let t = s@.take(i as int);
            assert(t.drop_last() =~= s@.take(i as int - 1));
            assert(t.last() == b);
            let r = old_pieces.push(old_cur);
            lemma_split_on_nonempty(t.drop_last(), sep);
            if b == sep {
                assert(pieces.deep_view() =~~= old_pieces.push(old_cur));
                assert(pieces.deep_view().push(cur@) =~~= r.push(Seq::<u8>::empty()));
            } else {
                assert(pieces.deep_view() =~~= old_pieces);
                assert(r.last() == old_cur);
                assert(pieces.deep_view().push(cur@) =~~= r.update(
                    r.len() - 1,
                    r.last().push(b),
                ));
            }
        }
    }
    proof {
        assert(s@.take(s@.len() as int) =~= s@);
    }
    pieces.push(cur);
    proof {
        assert(pieces.deep_view() =~~= split_on(s@, sep));
    }
    pieces
}

/// The ASCII whitespace bytes that surround attribute clauses and keys.
pub open spec fn is_space(b: u8) -> bool {
    b == 32 || b == 9 || b == 10 || b == 13 || b == 11 || b == 12
}

pub open spec fn trim_start(s: Seq<u8>) -> Seq<u8>
    decreases s.len(),
{
    if s.len() > 0 && is_space(s.first()) {
        trim_start(s.drop_first())
    } else {
        s
    }
}

pub open spec fn trim_end(s: Seq<u8>) -> Seq<u8>
    decreases s.len(),
{
    if s.len() > 0 && is_space(s.last()) {
        trim_end(s.drop_last())
    } else {
        s
    }
}

/// A byte sequence with leading and trailing ASCII whitespace removed.
pub open spec fn trim(s: Seq<u8>) -> Seq<u8> {
    trim_end(trim_start(s))
}

proof fn lemma_trim_start_skip(s: Seq<u8>, k: int)
    requires
        0 <= k <= s.len(),
        forall|j: int| 0 <= j < k ==> is_space(s[j]),
    ensures
        trim_start(s) == trim_start(s.skip(k)),
    decreases k,
{
    if k > 0 {
        assert(is_space(s.first()));
        assert(s.drop_first() =~= s.skip(1));
        lemma_trim_start_skip(s.skip(1), k - 1);
        assert(s.skip(1).skip(k - 1) =~= s.skip(k));
    } else {
        assert(s.skip(0) =~= s);
    }
}

proof fn lemma_trim_end_take(s: Seq<u8>, k: int)
    requires
        0 <= k <= s.len(),
        forall|j: int| k <= j < s.len() ==> is_space(s[j]),
    ensures
        trim_end(s) == trim_end(s.take(k)),
    decreases s.len() - k,
{
    if k < s.len() {
        assert(is_space(s.last()));
        assert(s.drop_last() =~= s.take(s.len() - 1));
        lemma_trim_end_take(s.take(s.len() - 1), k);
        assert(s.take(s.len() - 1).take(k) =~= s.take(k));
    } else {
        assert(s.take(s.len() as int) =~= s);
    }
}

/// Copies `s[lo..hi]` into a fresh vector.
pub fn copy_range(s: &Vec<u8>, lo: usize, hi: usize) -> (out: Vec<u8>)
    requires
        lo <= hi <= s.len(),
    ensures
        out@ == s@.subrange(lo as int, hi as int),
{
    let mut out: Vec<u8> = Vec::new();
    let mut j: usize = lo;
    while j < hi
        invariant
            lo <= j <= hi <= s.len(),
            out@ == s@.subrange(lo as int, j as int),
        decreases hi - j,
    {
        out.push(s[j]);
        j = j + 1;
        proof {
            assert(s@.subrange(lo as int, j as int) =~= s@.subrange(lo as int, j - 1).push(
                s@[j - 1],
            ));
        }
    }
    out
}

/// Whether a byte is ASCII whitespace.
pub fn is_space_byte(b: u8) -> (r: bool)
    ensures
        r == is_space(b),
{
    b == 32 || b == 9 || b == 10 || b == 13 || b == 11 || b == 12
}

/// Removes leading and trailing ASCII whitespace.
pub fn trim_bytes(s: &Vec<u8>) -> (out: Vec<u8>)
    ensures
        out@ == trim(s@),
{
    let mut lo: usize = 0;
    while lo < s.len() && is_space_byte(s[lo])
        invariant
            lo <= s.len(),
            forall|j: int| 0 <= j < lo ==> is_space(s@[j]),
        decreases s.len() - lo,
    {
        lo = lo + 1;
    }
    proof {
        lemma_trim_start_skip(s@, lo as int);
        if lo < s.len() {
            assert(!is_space(s@.skip(lo as int).first()));
        }
        assert(trim_start(s@) == s@.skip(lo as int));
    }
    let mut hi: usize = s.len();
    while hi > lo && is_space_byte(s[hi - 1])
        invariant
            lo <= hi <= s.len(),
            forall|j: int| hi <= j < s.len() ==> is_space(s@[j]),
        decreases hi,
    {
        hi = hi - 1;
    }
    proof {
        let t = s@.skip(lo as int);
        lemma_trim_end_take(t, hi - lo);
        if hi > lo {
            assert(t.take(hi - lo).last() == s@[hi - 1]);
            assert(!is_space(t.take(hi - lo).last()));
        }
        assert(trim_end(t) == t.take(hi - lo));
        assert(t.take(hi - lo) =~= s@.subrange(lo as int, hi as int));
    }
    copy_range(s, lo, hi)
}

/// A byte sequence with every double-quote byte removed.
pub open spec fn strip_quotes(s: Seq<u8>) -> Seq<u8>
    decreases s.len(),
{
    if s.len() == 0 {
        Seq::<u8>::empty()
    } else {
        let r = strip_quotes(s.drop_last());
        if s.last() == 34 {
            r
        } else {
            r.push(s.last())
        }
    }
}

/// Removes every double-quote byte.
pub fn strip_quote_bytes(s: &Vec<u8>) -> (out: Vec<u8>)
    ensures
        out@ == strip_quotes(s@),
{
    let mut out: Vec<u8> = Vec::new();
    let mut i: usize = 0;
    proof {
        assert(s@.take(0) =~= Seq::<u8>::empty());
    }
    while i < s.len()
        invariant
            i <= s.len(),
            out@ == strip_quotes(s@.take(i as int)),
        decreases s.len() - i,
    {
        let b = s[i];
        if b != 34 {
            out.push(b);
        }
        i = i + 1;
        proof {
            let t = s@.take(i as int);
            assert(t.drop_last() =~= s@.take(i as int - 1));
            assert(t.last() == b);
        }
    }
    proof {
        assert(s@.take(s@.len() as int) =~= s@);
    }
    out
}

/// Byte-wise equality of two vectors.
pub fn bytes_eq(a: &Vec<u8>, b: &Vec<u8>) -> (r: bool)
    ensures
        r == (a@ == b@),
{
    if a.len() != b.len() {
        return false;
    }
    let mut i: usize = 0;
    while i < a.len()
        invariant
            i <= a.len(),
            a.len() == b.len(),
            forall|j: int| 0 <= j < i ==> a@[j] == b@[j],
        decreases a.len() - i,
    {
        if a[i] != b[i] {
            return false;
        }
        i = i + 1;
    }
    proof {
        assert(a@ =~= b@);
    }
    true
}

/// Copies a byte vector.
pub fn copy_bytes(s: &Vec<u8>) -> (out: Vec<u8>)
    ensures
        out@ == s@,
{
    copy_range(s, 0, s.len())
}

/// Appends all of `src` to `out`.
pub fn push_all(out: &mut Vec<u8>, src: &Vec<u8>)
    ensures
        final(out)@ == old(out)@ + src@,
{
    let mut i: usize = 0;
    proof {
        assert(out@ =~= out@ + src@.take(0));
    }
    while i < src.len()
        invariant
            i <= src.len(),
            out@ == old(out)@ + src@.take(i as int),
        decreases src.len() - i,
    {
        out.push(src[i]);
        i = i + 1;
        proof {
            assert(old(out)@ + src@.take(i as int) =~= (old(out)@ + src@.take(i as int - 1)).push(
                src@[i - 1],
            ));
        }
    }
    proof {
        assert(src@.take(src@.len() as int) =~= src@);
    }
}

/// A line with a trailing carriage return removed, as the line discipline of
/// buffered readers does after splitting on the newline byte.
pub open spec fn chomp_cr(s: Seq<u8>) -> Seq<u8> {
    if s.len() > 0 && s.last() == 13 {
        s.drop_last()
    } else {
        s
    }
}

/// The logical lines of a byte stream: pieces between newline bytes, each
/// with a trailing carriage return dropped; a final newline does not open an
/// extra empty line, and empty input has no lines.
pub open spec fn lines_of(input: Seq<u8>) -> Seq<Seq<u8>> {
    if input.len() == 0 {
        Seq::<Seq<u8>>::empty()
    } else {
        let raw = split_on(input, 10);
        let kept = if input.last() == 10 {
            raw.drop_last()
        } else {
            raw
        };
        kept.map_values(|l: Seq<u8>| chomp_cr(l))
    }
}

/// Splits a byte stream into its logical lines.
pub fn split_lines(input: &Vec<u8>) -> (lines: Vec<Vec<u8>>)
    ensures
        lines.deep_view() == lines_of(input@),
{
    let mut lines: Vec<Vec<u8>> = Vec::new();
    if input.len() == 0 {
        proof {
            assert(lines.deep_view() =~~= lines_of(input@));
        }
        return lines;
    }
    let mut raw = split_byte(input, 10);
    if input[input.len() - 1] == 10 {
        proof {
            lemma_split_on_nonempty(input@, 10);
        }
        let _ = raw.pop();
    }
    let ghost kept = raw.deep_view();
    let mut i: usize = 0;
    while i < raw.len()
        invariant
            i <= raw.len(),
            raw.deep_view() == kept,
            lines.deep_view() == kept.take(i as int).map_values(|l: Seq<u8>| chomp_cr(l)),
        decreases raw.len() - i,
    {
        let ghost old_lines = lines.deep_view();
        let piece = &raw[i];
        if piece.len() > 0 && piece[piece.len() - 1] == 13 {
            lines.push(copy_range(piece, 0, piece.len() - 1));
            proof {
                assert(piece@.subrange(0, piece@.len() - 1) =~= piece@.drop_last());
            }
        } else {
            lines.push(copy_bytes(piece));
        }
        i = i + 1;
        proof {
            assert(lines.deep_view() =~~= old_lines.push(chomp_cr(kept[i - 1])));
            assert(kept.take(i as int).map_values(|l: Seq<u8>| chomp_cr(l)) =~= kept.take(
                i as int - 1,
            ).map_values(|l: Seq<u8>| chomp_cr(l)).push(chomp_cr(kept[i - 1])));
        }
    }
    proof {
        assert(kept.take(kept.len() as int) =~= kept);
        if input@.last() == 10 {
            assert(kept =~= split_on(input@, 10).drop_last());
        }
        assert(lines.deep_view() =~= lines_of(input@));
    }
    lines
}

} // verus!
