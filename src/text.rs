use vstd::prelude::*;
use vstd::string::StringSliceAdditionalSpecFns;
use vstd::utf8::*;

verus! {

broadcast use group_utf8_lib;

/// Whether two byte slices hold the same bytes.
pub fn bytes_eq(a: &[u8], b: &[u8]) -> (r: bool)
    ensures
        r == (a@ == b@),
{
    if a.len() != b.len() {
        return false;
    }
    let mut i: usize = 0;
    while i < a.len()
        invariant
            i <= a@.len(),
            a@.len() == b@.len(),
            a@.take(i as int) == b@.take(i as int),
        decreases a@.len() - i,
    {
        if a[i] != b[i] {
            assert(a@.take(i + 1)[i as int] != b@.take(i + 1)[i as int]);
            return false;
        }
        assert(a@.take(i + 1) =~= a@.take(i as int).push(a@[i as int]));
        assert(b@.take(i + 1) =~= b@.take(i as int).push(b@[i as int]));
        i = i + 1;
    }
    assert(a@ =~= a@.take(i as int));
    assert(b@ =~= b@.take(i as int));
    true
}

/// Whether two strings hold the same characters.
pub fn str_eq(a: &str, b: &str) -> (r: bool)
    ensures
        r == (a@ == b@),
{
    let r = bytes_eq(a.as_bytes(), b.as_bytes());
    proof {
        if a.spec_bytes() == b.spec_bytes() {
            assert(decode_utf8(encode_utf8(a@)) == a@);
            assert(decode_utf8(encode_utf8(b@)) == b@);
        }
    }
    r
}

/// The pieces of `b` between occurrences of `sep`; an empty input is one empty piece.
pub open spec fn split_bytes(b: Seq<u8>, sep: u8) -> Seq<Seq<u8>>
    decreases b.len(),
{
    if b.len() == 0 {
        seq![Seq::<u8>::empty()]
    } else {
        let prev = split_bytes(b.drop_last(), sep);
        if b.last() == sep {
            prev.push(Seq::<u8>::empty())
        } else {
            prev.update(prev.len() - 1, prev.last().push(b.last()))
        }
    }
}

pub proof fn lemma_split_bytes_nonempty(b: Seq<u8>, sep: u8)
    ensures
        split_bytes(b, sep).len() >= 1,
    decreases b.len(),
{
    if b.len() > 0 {
        lemma_split_bytes_nonempty(b.drop_last(), sep);
    }
}

/// The UTF-8 bytes of each piece of a list of strings.
pub open spec fn pieces_bytes(v: Seq<&str>) -> Seq<Seq<u8>> {
    v.map_values(|s: &str| s.spec_bytes())
}

/// Splits `s` at each occurrence of the ASCII separator `sep`, as `str::split` does.
pub fn split_ascii<'a>(s: &'a str, sep: u8) -> (r: Vec<&'a str>)
    requires
        sep < 0x80,
    ensures
        pieces_bytes(r@) == split_bytes(s.spec_bytes(), sep),
{
    let ghost all = s.spec_bytes();
    let mut out: Vec<&'a str> = Vec::new();
    let mut rest: &'a str = s;
    let mut consumed: usize = 0;
    let mut j: usize = 0;
    let mut bytes = rest.as_bytes();
    let total = bytes.len();
    assert(all.take(0) =~= Seq::<u8>::empty());
    assert(pieces_bytes(out@) =~= Seq::<Seq<u8>>::empty());
    assert(rest.spec_bytes().take(0) =~= Seq::<u8>::empty());
    assert(split_bytes(Seq::<u8>::empty(), sep) == seq![Seq::<u8>::empty()]);
    while j < bytes.len()
        invariant
            total == all.len(),
            bytes@ == rest.spec_bytes(),
            consumed + rest.spec_bytes().len() == all.len(),
            rest.spec_bytes() == all.skip(consumed as int),
            j <= rest.spec_bytes().len(),
            split_bytes(all.take(consumed + j), sep) == pieces_bytes(out@).push(
                rest.spec_bytes().take(j as int),
            ),
            sep < 0x80,
        decreases all.len() - consumed - j,
    {
        let ghost pre = all.take(consumed + j);
        let ghost next = all.take(consumed + j + 1);
        assert(next.drop_last() =~= pre);
        assert(next.last() == bytes@[j as int]);
        if bytes[j] == sep {
            let ghost rb = rest.spec_bytes();
            assert(is_char_boundary(rb, j as int)) by {
                assert(valid_utf8(encode_utf8(rest@)));
                is_char_boundary_iff_not_is_continuation_byte(rb, j as int);
            }
            let (piece, tail) = rest.split_at(j);
            let ghost tb = tail.spec_bytes();
            assert(tb.len() >= 1);
            assert(tb[0] == sep);
            assert(is_char_boundary(tb, 1)) by {
                assert(valid_utf8(encode_utf8(tail@)));
                if tb.len() > 1 {
                    is_char_boundary_iff_not_is_continuation_byte(tb, 1);
                    assert(valid_first_scalar(tb));
                    reveal_with_fuel(is_char_boundary, 2);
                    assert(length_of_first_scalar(tb) == 1);
                } else {
                    is_char_boundary_start_end_of_seq(tb);
                }
            }
            let (_, after) = tail.split_at(1);
            let ghost before = out@;
            out.push(piece);
            assert(piece.spec_bytes() =~= rb.take(j as int));
            assert(pieces_bytes(out@) =~= pieces_bytes(before).push(rb.take(j as int)));
            rest = after;
            consumed = consumed + j + 1;
            j = 0;
            bytes = rest.as_bytes();
            assert(rest.spec_bytes() =~= all.skip(consumed as int));
            assert(rest.spec_bytes().take(0) =~= Seq::<u8>::empty());
        } else {
            assert(rest.spec_bytes().take(j + 1) =~= rest.spec_bytes().take(j as int).push(bytes@[j as int]));
            j = j + 1;
        }
    }
    out.push(rest);
    assert(all.take(consumed + j) =~= all);
    assert(rest.spec_bytes().take(j as int) =~= rest.spec_bytes());
    assert(pieces_bytes(out@) =~= pieces_bytes(out@.drop_last()).push(rest.spec_bytes()));
    out
}

proof fn lemma_ascii_boundary(b: Seq<u8>, i: int)
    requires
        valid_utf8(b),
        0 <= i <= b.len(),
        i == b.len() || b[i] < 0x80,
    ensures
        is_char_boundary(b, i),
{
    if i == b.len() {
        is_char_boundary_start_end_of_seq(b);
    } else {
        is_char_boundary_iff_not_is_continuation_byte(b, i);
    }
}

/// Splits `s` at byte index `i`, where an ASCII byte (or the end) stands.
pub fn split_at_ascii<'a>(s: &'a str, i: usize) -> (r: (&'a str, &'a str))
    requires
        i <= s.spec_bytes().len(),
        i == s.spec_bytes().len() || s.spec_bytes()[i as int] < 0x80,
    ensures
        r.0.spec_bytes() == s.spec_bytes().take(i as int),
        r.1.spec_bytes() == s.spec_bytes().skip(i as int),
{
    proof {
        lemma_ascii_boundary(s.spec_bytes(), i as int);
    }
    let r = s.split_at(i);
    assert(s.spec_bytes().subrange(0, i as int) =~= s.spec_bytes().take(i as int));
    r
}

/// `s` without its first byte, which is ASCII.
pub fn drop_ascii<'a>(s: &'a str) -> (r: &'a str)
    requires
        s.spec_bytes().len() >= 1,
        s.spec_bytes()[0] < 0x80,
    ensures
        r.spec_bytes() == s.spec_bytes().skip(1),
{
    let (_, tail) = split_at_ascii(s, 0);
    let ghost tb = tail.spec_bytes();
    assert(tb == s.spec_bytes());
    assert(is_char_boundary(tb, 1)) by {
        assert(valid_utf8(encode_utf8(tail@)));
        if tb.len() > 1 {
            assert(valid_first_scalar(tb));
            reveal_with_fuel(is_char_boundary, 2);
            assert(length_of_first_scalar(tb) == 1);
        } else {
            is_char_boundary_start_end_of_seq(tb);
        }
    }
    let (_, after) = tail.split_at(1);
    after
}

/// ASCII whitespace: space, tab, line feed, vertical tab, form feed, carriage return.
pub open spec fn is_ws(b: u8) -> bool {
    b == 32 || (9 <= b && b <= 13)
}

/// Index of the first whitespace byte, or the length when there is none.
pub open spec fn first_ws(b: Seq<u8>) -> int
    decreases b.len(),
{
    if b.len() == 0 {
        0
    } else if is_ws(b[0]) {
        0
    } else {
        1 + first_ws(b.skip(1))
    }
}

/// The maximal runs of non-whitespace bytes, in order.
pub open spec fn words(b: Seq<u8>) -> Seq<Seq<u8>>
    decreases b.len(),
{
    if b.len() == 0 {
        Seq::empty()
    } else if is_ws(b[0]) {
        words(b.skip(1))
    } else {
        let j = first_ws(b);
        if 0 < j <= b.len() {
            seq![b.take(j)] + words(b.skip(j))
        } else {
            Seq::empty()
        }
    }
}

proof fn lemma_first_ws_bounds(b: Seq<u8>)
    ensures
        0 <= first_ws(b) <= b.len(),
        b.len() > 0 && !is_ws(b[0]) ==> first_ws(b) > 0,
        first_ws(b) < b.len() ==> is_ws(b[first_ws(b)]),
        forall|k: int| 0 <= k < first_ws(b) ==> !is_ws(#[trigger] b[k]),
    decreases b.len(),
{
    if b.len() > 0 && !is_ws(b[0]) {
        lemma_first_ws_bounds(b.skip(1));
        assert forall|k: int| 0 <= k < first_ws(b) implies !is_ws(#[trigger] b[k]) by {
            if k > 0 {
                assert(b[k] == b.skip(1)[k - 1]);
            }
        }
    }
}

fn find_ws(s: &str) -> (r: usize)
    ensures
        r == first_ws(s.spec_bytes()),
{
    let b = s.as_bytes();
    let mut i: usize = 0;
    proof {
        lemma_first_ws_bounds(b@);
    }
    while i < b.len() && !(b[i] == 32 || (9 <= b[i] && b[i] <= 13))
        invariant
            i <= b@.len(),
            b@ == s.spec_bytes(),
            i <= first_ws(b@),
            0 <= first_ws(b@) <= b@.len(),
            first_ws(b@) < b@.len() ==> is_ws(b@[first_ws(b@)]),
            forall|k: int| 0 <= k < first_ws(b@) ==> !is_ws(#[trigger] b@[k]),
        decreases b@.len() - i,
    {
        i = i + 1;
    }
    i
}

/// Splits `s` into its words, separated by ASCII whitespace.
pub fn split_words<'a>(s: &'a str) -> (r: Vec<&'a str>)
    ensures
        pieces_bytes(r@) == words(s.spec_bytes()),
{
    let mut out: Vec<&'a str> = Vec::new();
    let mut rest: &'a str = s;
    assert(pieces_bytes(out@) + words(rest.spec_bytes()) =~= words(s.spec_bytes()));
    while rest.as_bytes().len() > 0
        invariant
            pieces_bytes(out@) + words(rest.spec_bytes()) == words(s.spec_bytes()),
        decreases rest.spec_bytes().len(),
    {
        let ghost rb = rest.spec_bytes();
        let c = rest.as_bytes()[0];
        if c == 32 || (9 <= c && c <= 13) {
            rest = drop_ascii(rest);
        } else {
            let j = find_ws(rest);
            proof {
                lemma_first_ws_bounds(rb);
            }
            let (word, tail) = split_at_ascii(rest, j);
            let ghost before = out@;
            out.push(word);
            assert(pieces_bytes(out@) =~= pieces_bytes(before).push(rb.take(j as int)));
            assert(words(rb) == seq![rb.take(j as int)] + words(rb.skip(j as int)));
            assert(pieces_bytes(out@) + words(tail.spec_bytes()) =~= pieces_bytes(before) + words(rb));
            rest = tail;
        }
    }
    assert(words(rest.spec_bytes()) =~= Seq::<Seq<u8>>::empty());
    assert(pieces_bytes(out@) + Seq::<Seq<u8>>::empty() =~= pieces_bytes(out@));
    out
}

/// Number of leading whitespace bytes.
pub open spec fn lead_ws(b: Seq<u8>) -> int
    decreases b.len(),
{
    if b.len() == 0 || !is_ws(b[0]) {
        0
    } else {
        1 + lead_ws(b.skip(1))
    }
}

/// Number of trailing whitespace bytes.
pub open spec fn trail_ws(b: Seq<u8>) -> int
    decreases b.len(),
{
    if b.len() == 0 || !is_ws(b.last()) {
        0
    } else {
        1 + trail_ws(b.drop_last())
    }
}

/// `b` without leading and trailing whitespace.
pub open spec fn trim_ws(b: Seq<u8>) -> Seq<u8> {
    let rest = b.skip(lead_ws(b));
    rest.take(rest.len() - trail_ws(rest))
}

proof fn lemma_lead_ws(b: Seq<u8>)
    ensures
        0 <= lead_ws(b) <= b.len(),
        lead_ws(b) < b.len() ==> !is_ws(b[lead_ws(b)]),
    decreases b.len(),
{
    if b.len() > 0 && is_ws(b[0]) {
        lemma_lead_ws(b.skip(1));
    }
}

proof fn lemma_trail_ws(b: Seq<u8>)
    ensures
        0 <= trail_ws(b) <= b.len(),
        trail_ws(b) < b.len() ==> !is_ws(b[b.len() - 1 - trail_ws(b)]),
    decreases b.len(),
{
    if b.len() > 0 && is_ws(b.last()) {
        lemma_trail_ws(b.drop_last());
    }
}

/// `s` without leading and trailing ASCII whitespace.
pub fn trim<'a>(s: &'a str) -> (r: &'a str)
    ensures
        r.spec_bytes() == trim_ws(s.spec_bytes()),
{
    let mut rest: &'a str = s;
    assert(s.spec_bytes().skip(0) =~= s.spec_bytes());
    let mut dropped: usize = 0;
    let ghost all = s.spec_bytes();
    let total = s.as_bytes().len();
    proof {
        lemma_lead_ws(all);
    }
    while rest.as_bytes().len() > 0 && (rest.as_bytes()[0] == 32 || (9 <= rest.as_bytes()[0] && rest.as_bytes()[0] <= 13))
        invariant
            rest.spec_bytes() == all.skip(dropped as int),
            dropped <= lead_ws(all),
            total == all.len(),
            0 <= lead_ws(all) <= all.len(),
            lead_ws(all) < all.len() ==> !is_ws(all[lead_ws(all)]),
            lead_ws(all.skip(dropped as int)) == lead_ws(all) - dropped,
        decreases rest.spec_bytes().len(),
    {
        proof {
            let r = all.skip(dropped as int);
            assert(r.skip(1) =~= all.skip(dropped + 1));
        }
        rest = drop_ascii(rest);
        dropped = dropped + 1;
    }
    proof {
        let r = all.skip(dropped as int);
        if r.len() > 0 {
            assert(r[0] == all[dropped as int]);
        }
    }
    let ghost mid = rest.spec_bytes();
    proof {
        lemma_trail_ws(mid);
    }
    let mut end: usize = rest.as_bytes().len();
    assert(mid.take(end as int) =~= mid);
    while end > 0 && (rest.as_bytes()[end - 1] == 32 || (9 <= rest.as_bytes()[end - 1] && rest.as_bytes()[end - 1] <= 13))
        invariant
            rest.spec_bytes() == mid,
            end <= mid.len(),
            end < mid.len() ==> is_ws(mid[end as int]),
            mid.len() - end <= trail_ws(mid),
            trail_ws(mid.take(end as int)) == trail_ws(mid) - (mid.len() - end),
            0 <= trail_ws(mid) <= mid.len(),
            trail_ws(mid) < mid.len() ==> !is_ws(mid[mid.len() - 1 - trail_ws(mid)]),
        decreases end,
    {
        proof {
            let t = mid.take(end as int);
            assert(t.drop_last() =~= mid.take(end - 1));
        }
        end = end - 1;
    }
    proof {
        let t = mid.take(end as int);
        assert(mid.take(mid.len() as int) =~= mid);
        if end > 0 {
            assert(t.last() == mid[end - 1]);
        }
    }
    let (r, _) = split_at_ascii(rest, end);
    r
}

/// Index of the first occurrence of `c`, or the length when there is none.
pub open spec fn first_of(b: Seq<u8>, c: u8) -> int
    decreases b.len(),
{
    if b.len() == 0 {
        0
    } else if b[0] == c {
        0
    } else {
        1 + first_of(b.skip(1), c)
    }
}

proof fn lemma_first_of(b: Seq<u8>, c: u8)
    ensures
        0 <= first_of(b, c) <= b.len(),
        first_of(b, c) < b.len() ==> b[first_of(b, c)] == c,
        forall|k: int| 0 <= k < first_of(b, c) ==> #[trigger] b[k] != c,
    decreases b.len(),
{
    if b.len() > 0 && b[0] != c {
        lemma_first_of(b.skip(1), c);
        assert forall|k: int| 0 <= k < first_of(b, c) implies #[trigger] b[k] != c by {
            if k > 0 {
                assert(b[k] == b.skip(1)[k - 1]);
            }
        }
    }
}

/// Index of the first occurrence of byte `c` in `s`, or its length.
pub fn find_byte(s: &str, c: u8) -> (r: usize)
    ensures
        r == first_of(s.spec_bytes(), c),
        r <= s.spec_bytes().len(),
        r < s.spec_bytes().len() ==> s.spec_bytes()[r as int] == c,
{
    let b = s.as_bytes();
    proof {
        lemma_first_of(b@, c);
    }
    let mut i: usize = 0;
    while i < b.len() && b[i] != c
        invariant
            i <= b@.len(),
            b@ == s.spec_bytes(),
            i <= first_of(b@, c),
            0 <= first_of(b@, c) <= b@.len(),
            first_of(b@, c) < b@.len() ==> b@[first_of(b@, c)] == c,
            forall|k: int| 0 <= k < first_of(b@, c) ==> #[trigger] b@[k] != c,
        decreases b@.len() - i,
    {
        i = i + 1;
    }
    i
}

} // verus!
