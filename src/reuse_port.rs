//! Finding the sockets bound to a port in the kernel's socket tables.
//!
//! The tables (`/proc/net/{tcp,tcp6,udp,udp6}`) hold one socket per line
//! after a header line, as whitespace-separated fields: `[1]` is the local
//! `addr:port` in hex, `[3]` the state in hex and `[9]` the inode number.

use vstd::prelude::*;

verus! {

/// TCP LISTEN state in the socket table.
pub const TCP_LISTEN: u64 = 0x0A;

/// ASCII whitespace: tab, line feed, vertical tab, form feed, carriage return, space.
pub open spec fn is_space(b: u8) -> bool {
    b == 32 || (9 <= b && b <= 13)
}

/// Length of the leading run of non-whitespace bytes.
pub open spec fn token_len(s: Seq<u8>) -> nat
    decreases s.len(),
{
    if s.len() == 0 || is_space(s[0]) {
        0
    } else {
        1 + token_len(s.drop_first())
    }
}

proof fn lemma_token_len_bound(s: Seq<u8>)
    ensures
        token_len(s) <= s.len(),
        s.len() > 0 && !is_space(s[0]) ==> token_len(s) >= 1,
    decreases s.len(),
{
    if s.len() > 0 && !is_space(s[0]) {
        lemma_token_len_bound(s.drop_first());
    }
}

#[via_fn]
proof fn fields_decreases(s: Seq<u8>) {
    lemma_token_len_bound(s);
}

/// The whitespace-separated fields of `s`.
pub open spec fn fields(s: Seq<u8>) -> Seq<Seq<u8>>
    decreases s.len()
    via fields_decreases
{
    if s.len() == 0 {
        Seq::empty()
    } else if is_space(s[0]) {
        fields(s.drop_first())
    } else {
        seq![s.take(token_len(s) as int)] + fields(s.skip(token_len(s) as int))
    }
}

/// The lines of `s`, split at line feeds.
pub open spec fn lines(s: Seq<u8>) -> Seq<Seq<u8>>
    decreases s.len(),
{
    if s.len() == 0 {
        Seq::empty()
    } else {
        let k = line_len(s);
        if k < s.len() {
            seq![s.take(k as int)] + lines(s.skip((k + 1) as int))
        } else {
            seq![s]
        }
    }
}

/// Length of the leading run of bytes before the first line feed.
pub open spec fn line_len(s: Seq<u8>) -> nat
    decreases s.len(),
{
    if s.len() == 0 || s[0] == 10 {
        0
    } else {
        1 + line_len(s.drop_first())
    }
}

/// Value of a digit in bases up to 36 (36 or more when it is no digit).
pub open spec fn digit_value(c: u8) -> nat {
    if 48 <= c && c <= 57 {
        (c - 48) as nat
    } else if 97 <= c && c <= 122 {
        (c - 87) as nat
    } else if 65 <= c && c <= 90 {
        (c - 55) as nat
    } else {
        36
    }
}

/// Value of a string of digits in base `radix`.
pub open spec fn radix_value(s: Seq<u8>, radix: nat) -> nat
    decreases s.len(),
{
    if s.len() == 0 {
        0
    } else {
        radix_value(s.drop_last(), radix) * radix + digit_value(s.last())
    }
}

/// The text after an optional leading `+`.
pub open spec fn unsigned_part(s: Seq<u8>) -> Seq<u8> {
    if s.len() > 0 && s[0] == 43 {
        s.drop_first()
    } else {
        s
    }
}

/// An unsigned number in base `radix` with an optional leading `+`, if it
/// does not exceed `max`.
pub open spec fn spec_parse_radix(s: Seq<u8>, radix: nat, max: nat) -> Option<nat> {
    let d = unsigned_part(s);
    if d.len() > 0 && (forall|i: int| 0 <= i < d.len() ==> digit_value(#[trigger] d[i]) < radix)
        && radix_value(d, radix) <= max {
        Some(radix_value(d, radix))
    } else {
        None
    }
}

/// The text after the last `:` (all of it when there is none).
pub open spec fn after_last_colon(s: Seq<u8>) -> Seq<u8>
    decreases s.len(),
{
    if s.len() == 0 {
        s
    } else if s.last() == 58 {
        Seq::empty()
    } else {
        after_last_colon(s.drop_last()).push(s.last())
    }
}

/// The inode of a socket-table line when the socket is bound to `port`
/// (and, for TCP, listening).
pub open spec fn line_inode(line: Seq<u8>, port: u16, is_tcp: bool) -> Option<u64> {
    let f = fields(line);
    if f.len() < 4 {
        None
    } else {
        let local_port = match spec_parse_radix(after_last_colon(f[1]), 16, 0xFFFF) {
            Some(v) => v,
            None => 0,
        };
        let state = match spec_parse_radix(f[3], 16, 0xFFFF_FFFF) {
            Some(v) => v,
            None => 0,
        };
        if local_port != port || (is_tcp && state != TCP_LISTEN) || f.len() < 10 {
            None
        } else {
            match spec_parse_radix(f[9], 10, 0xFFFF_FFFF_FFFF_FFFF) {
                Some(v) if v > 0 => Some(v as u64),
                _ => None,
            }
        }
    }
}

/// The inodes of the lines `ls`, in order.
pub open spec fn inodes_of(ls: Seq<Seq<u8>>, port: u16, is_tcp: bool) -> Seq<u64>
    decreases ls.len(),
{
    if ls.len() == 0 {
        Seq::empty()
    } else {
        let rest = inodes_of(ls.drop_first(), port, is_tcp);
        match line_inode(ls[0], port, is_tcp) {
            Some(i) => seq![i] + rest,
            None => rest,
        }
    }
}

/// The inodes of the sockets in a socket table that are bound to `port`.
pub open spec fn table_inodes(table: Seq<u8>, port: u16, is_tcp: bool) -> Seq<u64> {
    if lines(table).len() == 0 {
        Seq::empty()
    } else {
        inodes_of(lines(table).drop_first(), port, is_tcp)
    }
}

fn space(b: u8) -> (r: bool)
    ensures
        r == is_space(b),
{
    b == 32 || (9 <= b && b <= 13)
}

proof fn lemma_token_len_exact(x: Seq<u8>, k: int)
    requires
        0 <= k <= x.len(),
        forall|j: int| 0 <= j < k ==> !is_space(#[trigger] x[j]),
        k == x.len() || is_space(x[k]),
    ensures
        token_len(x) == k,
    decreases k,
{
    if k > 0 {
        lemma_token_len_exact(x.drop_first(), k - 1);
    }
}

proof fn lemma_line_len_exact(x: Seq<u8>, k: int)
    requires
        0 <= k <= x.len(),
        forall|j: int| 0 <= j < k ==> #[trigger] x[j] != 10,
        k == x.len() || x[k] == 10,
    ensures
        line_len(x) == k,
    decreases k,
{
    if k > 0 {
        lemma_line_len_exact(x.drop_first(), k - 1);
    }
}

/// The next field of `b[pos..end]`, as a range of `b`.
fn next_field(b: &[u8], pos: usize, end: usize) -> (r: Option<(usize, usize)>)
    requires
        pos <= end <= b@.len(),
    ensures
        r is None ==> fields(b@.subrange(pos as int, end as int)) == Seq::<Seq<u8>>::empty(),
        r matches Some((s, t)) ==> pos <= s < t <= end && fields(
            b@.subrange(pos as int, end as int),
        ) == seq![b@.subrange(s as int, t as int)] + fields(b@.subrange(t as int, end as int)),
{
    let mut i = pos;
    while i < end && space(b[i])
        invariant
            pos <= i <= end <= b@.len(),
            fields(b@.subrange(pos as int, end as int)) == fields(
                b@.subrange(i as int, end as int),
            ),
        decreases end - i,
    {
        assert(b@.subrange(i as int, end as int).drop_first() =~= b@.subrange(i + 1, end as int));
        i = i + 1;
    }
    if i == end {
        assert(b@.subrange(i as int, end as int) =~= Seq::<u8>::empty());
        return None;
    }
    let start = i;
    while i < end && !space(b[i])
        invariant
            start <= i <= end <= b@.len(),
            forall|j: int| start <= j < i ==> !is_space(#[trigger] b@[j]),
        decreases end - i,
    {
        i = i + 1;
    }
    proof {
        let x = b@.subrange(start as int, end as int);
        lemma_token_len_exact(x, i - start);
        assert(x.take(i - start) =~= b@.subrange(start as int, i as int));
        assert(x.skip(i - start) =~= b@.subrange(i as int, end as int));
    }
    Some((start, i))
}

proof fn lemma_radix_value_grows(d: Seq<u8>, radix: nat, k: int)
    requires
        0 <= k <= d.len(),
        radix >= 1,
    ensures
        radix_value(d.subrange(0, k), radix) <= radix_value(d, radix),
    decreases d.len() - k,
{
    if k < d.len() {
        lemma_radix_value_grows(d, radix, k + 1);
        let next = d.subrange(0, k + 1);
        assert(next.drop_last() =~= d.subrange(0, k));
        let a = radix_value(d.subrange(0, k), radix);
        assert(a <= a * radix + digit_value(next.last())) by (nonlinear_arith)
            requires
                radix >= 1,
        ;
    } else {
        assert(d.subrange(0, k) =~= d);
    }
}

/// Reads `b[s..t]` as an unsigned number in base `radix`, at most `max`.
fn parse_radix(b: &[u8], s: usize, t: usize, radix: u64, max: u64) -> (r: Option<u64>)
    requires
        s <= t <= b@.len(),
        2 <= radix <= 36,
    ensures
        r is Some <==> spec_parse_radix(b@.subrange(s as int, t as int), radix as nat, max as nat) is Some,
        r matches Some(v) ==> spec_parse_radix(b@.subrange(s as int, t as int), radix as nat, max as nat)
            == Some(v as nat),
{
    let ghost text = b@.subrange(s as int, t as int);
    let ghost d = unsigned_part(text);
    let mut i = s;
    if s < t && b[s] == 43 {
        i = s + 1;
    }
    assert(d =~= b@.subrange(i as int, t as int));
    if i == t {
        return None;
    }
    let first = i;
    let mut acc: u128 = 0;
    assert(d.subrange(0, 0) =~= Seq::<u8>::empty());
    while i < t
        invariant
            s <= first <= i <= t <= b@.len(),
            2 <= radix <= 36,
            d == unsigned_part(text),
            d == b@.subrange(first as int, t as int),
            text == b@.subrange(s as int, t as int),
            d.len() > 0,
            forall|j: int| 0 <= j < i - first ==> digit_value(#[trigger] d[j]) < radix,
            acc == radix_value(d.subrange(0, i - first), radix as nat),
            acc <= max,
        decreases t - i,
    {
        let c = b[i];
        assert(d[i - first] == c);
        let v: u64 = if 48 <= c && c <= 57 {
            (c - 48) as u64
        } else if 97 <= c && c <= 122 {
            (c - 87) as u64
        } else if 65 <= c && c <= 90 {
            (c - 55) as u64
        } else {
            36
        };
        assert(v == digit_value(c));
        if v >= radix {
            assert(!(forall|j: int| 0 <= j < d.len() ==> digit_value(#[trigger] d[j]) < radix));
            return None;
        }
        let ghost pre = d.subrange(0, i - first);
        let ghost next = d.subrange(0, i + 1 - first);
        assert(next.drop_last() =~= pre);
        assert(acc * (radix as u128) + (v as u128) <= 0xFFFF_FFFF_FFFF_FFFF * 36 + 36)
            by (nonlinear_arith)
            requires
                acc <= max,
                max <= 0xFFFF_FFFF_FFFF_FFFFu64,
                radix <= 36,
                v < 36,
        ;
        let n = acc * (radix as u128) + (v as u128);
        assert(n == radix_value(next, radix as nat));
        i = i + 1;
        if n > max as u128 {
            proof {
                lemma_radix_value_grows(d, radix as nat, (i - first) as int);
            }
            return None;
        }
        acc = n;
    }
    assert(d.subrange(0, t - first) =~= d);
    Some(acc as u64)
}

/// Start of the text after the last `:` of `b[s..t]` (`s` when there is none).
fn colon_tail(b: &[u8], s: usize, t: usize) -> (r: usize)
    requires
        s <= t <= b@.len(),
    ensures
        s <= r <= t,
        b@.subrange(r as int, t as int) == after_last_colon(b@.subrange(s as int, t as int)),
{
    let mut i = t;
    assert(b@.subrange(t as int, t as int) =~= Seq::<u8>::empty());
    assert(b@.subrange(s as int, t as int) =~= b@.subrange(s as int, t as int) + b@.subrange(t as int, t as int));
    while i > s
        invariant
            s <= i <= t <= b@.len(),
            after_last_colon(b@.subrange(s as int, t as int)) == after_last_colon(
                b@.subrange(s as int, i as int),
            ) + b@.subrange(i as int, t as int),
        decreases i,
    {
        let ghost cur = b@.subrange(s as int, i as int);
        assert(cur.drop_last() =~= b@.subrange(s as int, i - 1));
        if b[i - 1] == 58 {
            assert(after_last_colon(b@.subrange(s as int, t as int)) =~= b@.subrange(i as int, t as int));
            return i;
        }
        assert(b@.subrange(i - 1, t as int) =~= seq![b@[i - 1]] + b@.subrange(i as int, t as int));
        assert(after_last_colon(cur) == after_last_colon(cur.drop_last()).push(b@[i - 1]));
        assert(after_last_colon(cur.drop_last()).push(b@[i - 1]) + b@.subrange(i as int, t as int)
            =~= after_last_colon(cur.drop_last()) + b@.subrange(i - 1, t as int));
        i = i - 1;
    }
    assert(after_last_colon(b@.subrange(s as int, s as int)) =~= Seq::<u8>::empty());
    assert(Seq::<u8>::empty() + b@.subrange(s as int, t as int) =~= b@.subrange(s as int, t as int));
    s
}

/// The views of the ranges `r` of `b`.
pub open spec fn range_views(b: Seq<u8>, r: Seq<(usize, usize)>) -> Seq<Seq<u8>> {
    Seq::new(r.len(), |i: int| b.subrange(r[i].0 as int, r[i].1 as int))
}

/// The inode of the line `b[ls..le]`, if it names a socket bound to `port`.
fn inode_of_line(b: &[u8], ls: usize, le: usize, port: u16, is_tcp: bool) -> (r: Option<u64>)
    requires
        ls <= le <= b@.len(),
    ensures
        r == line_inode(b@.subrange(ls as int, le as int), port, is_tcp),
{
    let ghost line = b@.subrange(ls as int, le as int);
    let mut found: Vec<(usize, usize)> = Vec::new();
    let mut pos = ls;
    let mut done = false;
    assert(b@.subrange(ls as int, le as int) =~= line);
    assert(range_views(b@, found@) + fields(b@.subrange(pos as int, le as int)) =~= fields(line));
    while !done && found.len() < 10
        invariant
            ls <= pos <= le <= b@.len(),
            found@.len() <= 10,
            forall|i: int| 0 <= i < found@.len() ==> #[trigger] found@[i].0 <= found@[i].1 <= le,
            fields(line) == range_views(b@, found@) + fields(b@.subrange(pos as int, le as int)),
            done ==> fields(b@.subrange(pos as int, le as int)) == Seq::<Seq<u8>>::empty(),
        decreases 10 - found@.len() + (if done { 0int } else { 1int }),
    {
        match next_field(b, pos, le) {
            None => {
                done = true;
            },
            Some((s, t)) => {
                let ghost before = range_views(b@, found@);
                found.push((s, t));
                assert(range_views(b@, found@) =~= before + seq![b@.subrange(s as int, t as int)]);
                pos = t;
            },
        }
    }
    let ghost f = fields(line);
    assert(done ==> f =~= range_views(b@, found@));
    assert(!done ==> f.len() >= 10);
    assert(forall|i: int| 0 <= i < found@.len() ==> f[i] == #[trigger] range_views(b@, found@)[i]);
    if found.len() < 4 {
        return None;
    }
    let (ps, pe) = found[1];
    let tail = colon_tail(b, ps, pe);
    let local_port = match parse_radix(b, tail, pe, 16, 0xFFFF) {
        Some(v) => v,
        None => 0,
    };
    let (ss, se) = found[3];
    let state = match parse_radix(b, ss, se, 16, 0xFFFF_FFFF) {
        Some(v) => v,
        None => 0,
    };
    assert(f[1] == b@.subrange(ps as int, pe as int));
    assert(f[3] == b@.subrange(ss as int, se as int));
    if local_port != port as u64 || (is_tcp && state != TCP_LISTEN) || found.len() < 10 {
        return None;
    }
    let (is, ie) = found[9];
    assert(f[9] == b@.subrange(is as int, ie as int));
    match parse_radix(b, is, ie, 10, 0xFFFF_FFFF_FFFF_FFFF) {
        Some(v) => if v > 0 {
            Some(v)
        } else {
            None
        },
        None => None,
    }
}

/// The inodes of the sockets bound to `port` in the socket table `table`
/// (for TCP, only listening sockets), in table order.
pub fn find_inodes(table: &[u8], port: u16, is_tcp: bool) -> (r: Vec<u64>)
    ensures
        r@ == table_inodes(table@, port, is_tcp),
{
    let n = table.len();
    let mut out: Vec<u64> = Vec::new();
    // skip the header line
    let mut i: usize = 0;
    while i < n && table[i] != 10
        invariant
            i <= n == table@.len(),
            forall|j: int| 0 <= j < i ==> #[trigger] table@[j] != 10,
        decreases n - i,
    {
        i = i + 1;
    }
    proof {
        lemma_line_len_exact(table@, i as int);
    }
    if i == n {
        assert(lines(table@).len() <= 1);
        assert(lines(table@).len() == 1 ==> lines(table@).drop_first() =~= Seq::<Seq<u8>>::empty());
        return out;
    }
    let mut pos = i + 1;
    assert(table@.skip(pos as int) =~= table@.subrange(pos as int, n as int));
    assert(lines(table@).drop_first() =~= lines(table@.subrange(pos as int, n as int)));
    let mut more = true;
    while more
        invariant
            pos <= n == table@.len(),
            table_inodes(table@, port, is_tcp) == out@ + inodes_of(
                lines(table@.subrange(pos as int, n as int)),
                port,
                is_tcp,
            ),
            !more ==> lines(table@.subrange(pos as int, n as int)) == Seq::<Seq<u8>>::empty(),
        decreases n - pos + (if more { 1int } else { 0int }),
    {
        if pos == n {
            assert(table@.subrange(pos as int, n as int) =~= Seq::<u8>::empty());
            more = false;
        } else {
            let ghost rem = table@.subrange(pos as int, n as int);
            let mut e = pos;
            while e < n && table[e] != 10
                invariant
                    pos <= e <= n == table@.len(),
                    forall|j: int| pos <= j < e ==> #[trigger] table@[j] != 10,
                decreases n - e,
            {
                e = e + 1;
            }
            proof {
                lemma_line_len_exact(rem, e - pos);
                assert(rem.take(e - pos) =~= table@.subrange(pos as int, e as int));
            }
            let ghost ls = lines(rem);
            let ghost line = table@.subrange(pos as int, e as int);
            let found = inode_of_line(table, pos, e, port, is_tcp);
            let ghost before = out@;
            if let Some(v) = found {
                out.push(v);
            }
            if e < n {
                proof {
                    assert(rem.skip(e - pos + 1) =~= table@.subrange(e + 1, n as int));
                    assert(ls == seq![line] + lines(table@.subrange(e + 1, n as int)));
                    assert(ls.drop_first() =~= lines(table@.subrange(e + 1, n as int)));
                }
                pos = e + 1;
            } else {
                proof {
                    assert(rem =~= line);
                    assert(ls == seq![line]);
                    assert(ls.drop_first() =~= Seq::<Seq<u8>>::empty());
                }
                pos = n;
                assert(table@.subrange(pos as int, n as int) =~= Seq::<u8>::empty());
                more = false;
            }
            assert(out@ + inodes_of(lines(table@.subrange(pos as int, n as int)), port, is_tcp)
                =~= before + inodes_of(ls, port, is_tcp));
        }
    }
    assert(out@ + inodes_of(Seq::<Seq<u8>>::empty(), port, is_tcp) =~= out@);
    out
}

} // verus!
