use vstd::prelude::*;

verus! {

/// The line feed byte that ends a line.
pub const NEWLINE: u8 = 10;

/// The carriage return byte, dropped when it stands right before a line feed.
pub const CARRIAGE_RETURN: u8 = 13;

/// Whether the bytes are valid UTF-8.
pub uninterp spec fn utf8_valid(b: Seq<u8>) -> bool;

/// Relies on `std::str::from_utf8`: it succeeds exactly when the bytes are
/// valid UTF-8, which depends on the bytes alone.
#[verifier::external_body]
fn is_utf8(b: &[u8]) -> (r: bool)
    ensures
        r == utf8_valid(b@),
{
    std::str::from_utf8(b).is_ok()
}

/// Length of the first line of `s` as a line reader takes it: up to and
/// including the first line feed, or all of `s` when it holds none.
pub open spec fn line_len(s: Seq<u8>) -> nat
    decreases s.len(),
{
    if s.len() == 0 {
        0
    } else if s[0] == NEWLINE {
        1
    } else {
        1 + line_len(s.drop_first())
    }
}

/// Text of a line as read: without its line feed, and without a carriage
/// return right before that line feed.
pub open spec fn line_content(raw: Seq<u8>) -> Seq<u8> {
    if raw.len() > 0 && raw.last() == NEWLINE {
        let r = raw.drop_last();
        if r.len() > 0 && r.last() == CARRIAGE_RETURN {
            r.drop_last()
        } else {
            r
        }
    } else {
        raw
    }
}

/// What the relay writes for one line as read: its text and one line feed,
/// or nothing when the text does not decode as UTF-8.
pub open spec fn forwarded(raw: Seq<u8>) -> Seq<u8> {
    let c = line_content(raw);
    if utf8_valid(c) {
        c.push(NEWLINE)
    } else {
        Seq::empty()
    }
}

pub proof fn lemma_line_len_bounds(s: Seq<u8>)
    ensures
        line_len(s) <= s.len(),
        s.len() > 0 ==> line_len(s) >= 1,
    decreases s.len(),
{
    if s.len() > 0 && s[0] != NEWLINE {
        lemma_line_len_bounds(s.drop_first());
    }
}

/// What the relay writes for a whole stream: each line in turn, as `forwarded`
/// says.
pub open spec fn relayed(s: Seq<u8>) -> Seq<u8>
    decreases s.len(),
    via relayed_decreases
{
    if s.len() == 0 {
        Seq::empty()
    } else {
        let n = line_len(s) as int;
        forwarded(s.take(n)) + relayed(s.skip(n))
    }
}

#[via_fn]
proof fn relayed_decreases(s: Seq<u8>) {
    lemma_line_len_bounds(s);
}

/// A scan that stops at the first line feed at `m`, or runs off the end of
/// `s` without meeting one, has measured the first line.
pub proof fn lemma_line_len_at(s: Seq<u8>, m: int)
    requires
        0 <= m <= s.len(),
        forall|p: int| 0 <= p < m ==> s[p] != NEWLINE,
        m < s.len() ==> s[m] == NEWLINE,
    ensures
        line_len(s) == if m < s.len() { m + 1 } else { m },
    decreases m,
{
    if m > 0 {
        assert forall|p: int| 0 <= p < m - 1 implies s.drop_first()[p] != NEWLINE by {
            assert(s[p + 1] != NEWLINE);
        }
        lemma_line_len_at(s.drop_first(), m - 1);
    }
}

fn push_range(out: &mut Vec<u8>, src: &[u8], from: usize, to: usize)
    requires
        from <= to <= src@.len(),
    ensures
        final(out)@ == old(out)@ + src@.subrange(from as int, to as int),
{
    let mut i = from;
    while i < to
        invariant
            from <= i <= to <= src@.len(),
            out@ == old(out)@ + src@.subrange(from as int, i as int),
        decreases to - i,
    {
        out.push(src[i]);
        i = i + 1;
        proof {
            assert(out@ =~= old(out)@ + src@.subrange(from as int, i as int));
        }
    }
}

/// The bytes to pass on for one line as read from the upstream stream (its
/// line feed included, if it has one): its text and a single line feed, or
/// `None` when the text does not decode as UTF-8 and the line is skipped.
pub fn relay_line(raw: &[u8]) -> (r: Option<Vec<u8>>)
    ensures
        r is Some <==> utf8_valid(line_content(raw@)),
        r is Some ==> r->Some_0@ == line_content(raw@).push(NEWLINE),
        forwarded(raw@) == match r { Some(v) => v@, None => Seq::empty() },
{
    let mut end: usize = raw.len();
    if end > 0 && raw[end - 1] == NEWLINE {
        end = end - 1;
        if end > 0 && raw[end - 1] == CARRIAGE_RETURN {
            end = end - 1;
        }
    }
    proof {
        assert(line_content(raw@) =~= raw@.subrange(0, end as int));
    }
    if is_utf8(&raw[0..end]) {
        let mut v: Vec<u8> = Vec::new();
        push_range(&mut v, raw, 0, end);
        v.push(NEWLINE);
        proof {
            assert(v@ =~= line_content(raw@).push(NEWLINE));
        }
        Some(v)
    } else {
        None
    }
}

/// The bytes that the relay writes downstream for a whole upstream stream:
/// each line's text followed by one line feed, in order, with the lines that
/// do not decode as UTF-8 left out.
pub fn relay_lines(input: &[u8]) -> (r: Vec<u8>)
    ensures
        r@ == relayed(input@),
{
    let n = input.len();
    let mut out: Vec<u8> = Vec::new();
    let mut i: usize = 0;
    proof {
        assert(input@.subrange(0, n as int) =~= input@);
        assert(out@ + relayed(input@) =~= relayed(input@));
    }
    while i < n
        invariant
            n == input@.len(),
            i <= n,
            out@ + relayed(input@.subrange(i as int, n as int)) == relayed(input@),
        decreases n - i,
    {
        let mut k: usize = i;
        while k < n && input[k] != NEWLINE
            invariant
                n == input@.len(),
                i <= k <= n,
                forall|p: int| i <= p < k ==> input@[p] != NEWLINE,
            decreases n - k,
        {
            k = k + 1;
        }
        let j: usize = if k < n { k + 1 } else { k };
        let ghost rest = input@.subrange(i as int, n as int);
        proof {
            lemma_line_len_at(rest, k - i);
            assert(rest.take(j - i) =~= input@.subrange(i as int, j as int));
            assert(rest.skip(j - i) =~= input@.subrange(j as int, n as int));
        }
        match relay_line(&input[i..j]) {
            Some(v) => {
                push_range(&mut out, v.as_slice(), 0, v.len());
                proof {
                    assert(v@.subrange(0, v@.len() as int) =~= v@);
                }
            },
            None => {},
        }
        proof {
            assert(relayed(rest) == forwarded(input@.subrange(i as int, j as int)) + relayed(input@.subrange(j as int, n as int)));
        }
        i = j;
        proof {
            assert(out@ + relayed(input@.subrange(i as int, n as int)) =~= relayed(input@));
        }
    }
    proof {
        assert(out@ =~= relayed(input@)) by {
            assert(input@.subrange(n as int, n as int) =~= Seq::<u8>::empty());
        }
    }
    out
}

/// A line that passes through the relay unchanged: valid UTF-8, holding no
/// line feed, and not ending in a carriage return.
pub open spec fn well_formed_line(l: Seq<u8>) -> bool {
    &&& utf8_valid(l)
    &&& !l.contains(NEWLINE)
    &&& !(l.len() > 0 && l.last() == CARRIAGE_RETURN)
}

/// The stream made of the given lines, each followed by one line feed.
pub open spec fn terminated_lines(lines: Seq<Seq<u8>>) -> Seq<u8>
    decreases lines.len(),
{
    if lines.len() == 0 {
        Seq::empty()
    } else {
        lines[0].push(NEWLINE) + terminated_lines(lines.drop_first())
    }
}

proof fn lemma_relay_one_line(l: Seq<u8>, tail: Seq<u8>)
    requires
        well_formed_line(l),
    ensures
        relayed(l.push(NEWLINE) + tail) == l.push(NEWLINE) + relayed(tail),
{
    let s = l.push(NEWLINE) + tail;
    let m = l.len() as int;
    assert forall|p: int| 0 <= p < m implies s[p] != NEWLINE by {
        if s[p] == NEWLINE {
            assert(l[p] == NEWLINE);
            assert(l.contains(NEWLINE));
        }
    }
    lemma_line_len_at(s, m);
    assert(s.take(m + 1) =~= l.push(NEWLINE));
    assert(s.skip(m + 1) =~= tail);
    assert(l.push(NEWLINE).drop_last() =~= l);
}

/// A stream of well-formed lines followed by any remainder is relayed as
/// those lines, unchanged and in order, followed by what the remainder gives.
pub proof fn lemma_relay_prefix_lines(lines: Seq<Seq<u8>>, tail: Seq<u8>)
    requires
        forall|i: int| 0 <= i < lines.len() ==> well_formed_line(#[trigger] lines[i]),
    ensures
        relayed(terminated_lines(lines) + tail) == terminated_lines(lines) + relayed(tail),
    decreases lines.len(),
{
    if lines.len() == 0 {
        assert(terminated_lines(lines) + tail =~= tail);
        assert(terminated_lines(lines) + relayed(tail) =~= relayed(tail));
    } else {
        let rest = lines.drop_first();
        assert forall|i: int| 0 <= i < rest.len() implies well_formed_line(#[trigger] rest[i]) by {
            assert(rest[i] == lines[i + 1]);
        }
        lemma_relay_prefix_lines(rest, tail);
        assert(well_formed_line(lines[0]));
        lemma_relay_one_line(lines[0], terminated_lines(rest) + tail);
        assert(terminated_lines(lines) + tail =~= lines[0].push(NEWLINE) + (terminated_lines(rest) + tail));
        assert(terminated_lines(lines) + relayed(tail) =~= lines[0].push(NEWLINE) + (terminated_lines(rest) + relayed(tail)));
    }
}

/// When the upstream writes well-formed lines, each ended by a line feed, the
/// downstream receives exactly those lines, each ended by a single line feed,
/// in the same order.
pub proof fn lemma_relay_keeps_lines(lines: Seq<Seq<u8>>)
    requires
        forall|i: int| 0 <= i < lines.len() ==> well_formed_line(#[trigger] lines[i]),
    ensures
        relayed(terminated_lines(lines)) == terminated_lines(lines),
{
    lemma_relay_prefix_lines(lines, Seq::empty());
    assert(terminated_lines(lines) + Seq::<u8>::empty() =~= terminated_lines(lines));
}

/// A last line without a line feed is passed on with one line feed added, so
/// the downstream still receives every well-formed line, each ended once.
pub proof fn lemma_relay_ends_last_line(lines: Seq<Seq<u8>>, last: Seq<u8>)
    requires
        forall|i: int| 0 <= i < lines.len() ==> well_formed_line(#[trigger] lines[i]),
        last.len() > 0,
        utf8_valid(last),
        !last.contains(NEWLINE),
    ensures
        relayed(terminated_lines(lines) + last) == terminated_lines(lines) + last.push(NEWLINE),
{
    lemma_relay_prefix_lines(lines, last);
    let m = last.len() as int;
    assert forall|p: int| 0 <= p < m implies last[p] != NEWLINE by {
        if last[p] == NEWLINE {
            assert(last.contains(NEWLINE));
        }
    }
    lemma_line_len_at(last, m);
    assert(last.take(m) =~= last);
    assert(last.skip(m) =~= Seq::<u8>::empty());
    assert(last.last() != NEWLINE);
    assert(line_content(last) == last);
    assert(forwarded(last) == last.push(NEWLINE));
    assert(relayed(last.skip(m)) =~= Seq::<u8>::empty());
    assert(relayed(last) =~= last.push(NEWLINE));
}

} // verus!
