//! SSH wire primitives: big-endian integers, length-prefixed strings and name-lists.
use vstd::prelude::*;
use vstd::utf8::*;
use crate::error::SshError;
use crate::text::{utf8_lossy, string_from_utf8_lossy};

verus! {

/// The four big-endian bytes of `x`.
pub open spec fn u32_be(x: u32) -> Seq<u8> {
    seq![(x >> 24u32) as u8, (x >> 16u32) as u8, (x >> 8u32) as u8, x as u8]
}

/// The big-endian `u32` held by `s[i..i + 4]`.
pub open spec fn be_u32_at(s: Seq<u8>, i: int) -> u32 {
    ((s[i] as u32) << 24u32) | ((s[i + 1] as u32) << 16u32) | ((s[i + 2] as u32) << 8u32) | (
    s[i + 3] as u32)
}

/// Reading back the four bytes that encode `x` gives `x`.
pub proof fn lemma_be_u32_roundtrip(x: u32)
    ensures
        be_u32_at(u32_be(x), 0) == x,
{
    let a = (x >> 24u32) as u8;
    let b = (x >> 16u32) as u8;
    let c = (x >> 8u32) as u8;
    let d = x as u8;
    assert((((a as u32) << 24u32) | ((b as u32) << 16u32) | ((c as u32) << 8u32) | (d as u32))
        == x) by (bit_vector)
        requires
            a == (x >> 24u32) as u8,
            b == (x >> 16u32) as u8,
            c == (x >> 8u32) as u8,
            d == x as u8,
    ;
}

/// Writing back the `u32` read at `i` gives the four bytes there.
pub proof fn lemma_be_u32_at_bytes(s: Seq<u8>, i: int)
    requires
        0 <= i,
        i + 4 <= s.len(),
    ensures
        u32_be(be_u32_at(s, i)) == s.subrange(i, i + 4),
{
    let a = s[i];
    let b = s[i + 1];
    let c = s[i + 2];
    let d = s[i + 3];
    let x = be_u32_at(s, i);
    assert((x >> 24u32) as u8 == a && (x >> 16u32) as u8 == b && (x >> 8u32) as u8 == c && x as u8 == d)
        by (bit_vector)
        requires
            x == ((a as u32) << 24u32) | ((b as u32) << 16u32) | ((c as u32) << 8u32) | (d as u32),
    ;
    assert(u32_be(x) =~= s.subrange(i, i + 4));
}

/// Reading four bytes at `i` depends only on those bytes.
pub proof fn lemma_be_u32_at_shift(s: Seq<u8>, t: Seq<u8>, i: int, j: int)
    requires
        0 <= i,
        i + 4 <= s.len(),
        0 <= j,
        j + 4 <= t.len(),
        s[i] == t[j],
        s[i + 1] == t[j + 1],
        s[i + 2] == t[j + 2],
        s[i + 3] == t[j + 3],
    ensures
        be_u32_at(s, i) == be_u32_at(t, j),
{
}

/// Appends the big-endian encoding of `x` to `buf`.
pub fn put_u32(buf: &mut Vec<u8>, x: u32)
    ensures
        final(buf)@ == old(buf)@ + u32_be(x),
{
    buf.push((x >> 24u32) as u8);
    buf.push((x >> 16u32) as u8);
    buf.push((x >> 8u32) as u8);
    buf.push(x as u8);
}

/// Appends the bytes of `data` to `buf`.
pub fn put_slice(buf: &mut Vec<u8>, data: &[u8])
    ensures
        final(buf)@ == old(buf)@ + data@,
{
    let mut i: usize = 0;
    while i < data.len()
        invariant
            i <= data@.len(),
            buf@ == old(buf)@ + data@.subrange(0, i as int),
        decreases data@.len() - i,
    {
        buf.push(data[i]);
        i = i + 1;
        assert(data@.subrange(0, i as int) =~= data@.subrange(0, i - 1).push(data@[i - 1]));
    }
    assert(data@.subrange(0, data@.len() as int) =~= data@);
}

/// Copies a slice into a new vector.
pub fn to_vec(data: &[u8]) -> (v: Vec<u8>)
    ensures
        v@ == data@,
{
    let mut v: Vec<u8> = Vec::new();
    put_slice(&mut v, data);
    assert(Seq::<u8>::empty() + data@ =~= data@);
    v
}

/// Reads the big-endian `u32` at `data[i..i + 4]`.
pub fn get_u32_at(data: &[u8], i: usize) -> (x: u32)
    requires
        i + 4 <= data@.len(),
    ensures
        x == be_u32_at(data@, i as int),
{
    ((data[i] as u32) << 24u32) | ((data[i + 1] as u32) << 16u32) | ((data[i + 2] as u32) << 8u32)
        | (data[i + 3] as u32)
}

/// An SSH string: the data's length as four big-endian bytes, then the data.
pub open spec fn ssh_string(d: Seq<u8>) -> Seq<u8> {
    u32_be(d.len() as u32) + d
}

/// What reading an SSH string off the front of `s` gives: the data and the rest,
/// or the reason it cannot be read.
pub open spec fn spec_read_string(s: Seq<u8>) -> Result<(Seq<u8>, Seq<u8>), SshError> {
    if s.len() < 4 {
        Err(SshError::StringLengthMissing)
    } else if s.len() - 4 < be_u32_at(s, 0) {
        Err(SshError::StringDataMissing)
    } else {
        let end = 4 + be_u32_at(s, 0);
        Ok((s.subrange(4, end), s.subrange(end, s.len() as int)))
    }
}

/// A string written by `ssh_string` is read back whole, whatever follows it.
pub proof fn lemma_read_written_string(d: Seq<u8>, rest: Seq<u8>)
    requires
        d.len() <= u32::MAX,
    ensures
        spec_read_string(ssh_string(d) + rest) == Ok::<(Seq<u8>, Seq<u8>), SshError>((d, rest)),
{
    let s = ssh_string(d) + rest;
    lemma_be_u32_roundtrip(d.len() as u32);
    lemma_be_u32_at_shift(s, u32_be(d.len() as u32), 0, 0);
    assert(s.subrange(4, 4 + d.len() as int) =~= d);
    assert(s.subrange(4 + d.len() as int, s.len() as int) =~= rest);
}

/// Reads an SSH string off the front of `buf` and advances `buf` past it.
///
/// On a short length `buf` is left as it was; on short data it has been advanced past
/// the four length bytes.
pub fn read_ssh_string(buf: &mut &[u8]) -> (r: Result<Vec<u8>, SshError>)
    ensures
        match spec_read_string(old(buf)@) {
            Ok((d, rest)) => r matches Ok(v) && v@ == d && final(buf)@ == rest,
            Err(e) => r == Err::<Vec<u8>, SshError>(e) && final(buf)@ == (if old(buf)@.len() < 4 {
                old(buf)@
            } else {
                old(buf)@.subrange(4, old(buf)@.len() as int)
            }),
        },
{
    let data: &[u8] = *buf;
    if data.len() < 4 {
        return Err(SshError::StringLengthMissing);
    }
    let len = get_u32_at(data, 0) as usize;
    let tail: &[u8] = &data[4..data.len()];
    if tail.len() < len {
        *buf = tail;
        return Err(SshError::StringDataMissing);
    }
    let v = to_vec(&tail[0..len]);
    *buf = &tail[len..tail.len()];
    Ok(v)
}

/// Splits an SSH string off the front of `data`: its contents and what follows.
pub fn parse_ssh_string(data: &[u8]) -> (r: Result<(Vec<u8>, &[u8]), SshError>)
    ensures
        match spec_read_string(data@) {
            Ok((d, rest)) => r matches Ok((v, tail)) && v@ == d && tail@ == rest,
            Err(e) => r matches Err(e2) && e2 == e,
        },
{
    if data.len() < 4 {
        return Err(SshError::StringLengthMissing);
    }
    let len = get_u32_at(data, 0) as usize;
    if data.len() - 4 < len {
        return Err(SshError::StringDataMissing);
    }
    let v = to_vec(&data[4..4 + len]);
    Ok((v, &data[4 + len..data.len()]))
}

/// Appends `data` to `buf` as an SSH string.
pub fn write_ssh_string(buf: &mut Vec<u8>, data: &[u8])
    ensures
        final(buf)@ == old(buf)@ + ssh_string(data@),
{
    put_u32(buf, data.len() as u32);
    put_slice(buf, data);
    assert(old(buf)@ + u32_be(data@.len() as u32) + data@ =~= old(buf)@ + ssh_string(data@));
}

/// The names joined by commas.
pub open spec fn join_commas(names: Seq<Seq<u8>>) -> Seq<u8>
    decreases names.len(),
{
    if names.len() == 0 {
        Seq::empty()
    } else if names.len() == 1 {
        names[0]
    } else {
        join_commas(names.drop_last()) + seq![44u8] + names.last()
    }
}

/// The UTF-8 bytes of each name.
pub open spec fn names_bytes(names: Seq<&str>) -> Seq<Seq<u8>> {
    names.map_values(|n: &str| encode_utf8(n@))
}

/// Appends a name-list: the names joined by commas, as an SSH string.
pub fn write_name_list(buf: &mut Vec<u8>, names: &[&str])
    ensures
        final(buf)@ == old(buf)@ + ssh_string(join_commas(names_bytes(names@))),
{
    let mut joined: Vec<u8> = Vec::new();
    let mut i: usize = 0;
    while i < names.len()
        invariant
            i <= names@.len(),
            joined@ == join_commas(names_bytes(names@.subrange(0, i as int))),
        decreases names@.len() - i,
    {
        let ghost before = joined@;
        if i > 0 {
            joined.push(44u8);
        }
        put_slice(&mut joined, names[i].as_bytes());
        proof {
            let prev = names_bytes(names@.subrange(0, i as int));
            let next = names_bytes(names@.subrange(0, i + 1));
            assert(next.drop_last() =~= prev);
            assert(next.last() == encode_utf8(names@[i as int]@));
            if i == 0 {
                assert(next.len() == 1);
                assert(joined@ =~= next[0]);
            } else {
                assert(joined@ =~= join_commas(prev) + seq![44u8] + next.last());
            }
        }
        i = i + 1;
    }
    assert(names@.subrange(0, names@.len() as int) =~= names@);
    write_ssh_string(buf, joined.as_slice());
}

/// The pieces of `s` between commas, empty pieces included; never empty itself.
pub open spec fn split_commas(s: Seq<u8>) -> Seq<Seq<u8>>
    decreases s.len(),
{
    if s.len() == 0 {
        seq![Seq::<u8>::empty()]
    } else {
        let prev = split_commas(s.drop_last());
        if s.last() == 44u8 {
            prev.push(Seq::empty())
        } else {
            prev.update(prev.len() - 1, prev.last().push(s.last()))
        }
    }
}

/// The comma-split of any sequence has at least one piece.
pub proof fn lemma_split_commas_nonempty(s: Seq<u8>)
    ensures
        split_commas(s).len() >= 1,
    decreases s.len(),
{
    if s.len() > 0 {
        lemma_split_commas_nonempty(s.drop_last());
    }
}

/// The pieces that are not empty, in order.
pub open spec fn drop_empty(ps: Seq<Seq<u8>>) -> Seq<Seq<u8>>
    decreases ps.len(),
{
    if ps.len() == 0 {
        Seq::empty()
    } else if ps.last().len() > 0 {
        drop_empty(ps.drop_last()).push(ps.last())
    } else {
        drop_empty(ps.drop_last())
    }
}

/// The names of a name-list body: the non-empty pieces between commas.
pub open spec fn name_list_items(s: Seq<u8>) -> Seq<Seq<u8>> {
    drop_empty(split_commas(s))
}

/// Reads a name-list off the front of `buf`: the non-empty comma-separated names,
/// each decoded as UTF-8 with invalid sequences replaced.
pub fn read_name_list(buf: &mut &[u8]) -> (r: Result<Vec<String>, SshError>)
    ensures
        match spec_read_string(old(buf)@) {
            Ok((d, rest)) => r matches Ok(names) && final(buf)@ == rest && names@.len()
                == name_list_items(d).len() && forall|j: int|
                0 <= j < names@.len() ==> #[trigger] names@[j]@ == utf8_lossy(
                    name_list_items(d)[j],
                ) && (valid_utf8(name_list_items(d)[j]) ==> names@[j]@ == decode_utf8(
                    name_list_items(d)[j],
                )),
            Err(e) => r == Err::<Vec<String>, SshError>(e),
        },
{
    let data = match read_ssh_string(buf) {
        Ok(d) => d,
        Err(e) => {
            return Err(e);
        },
    };
    let ghost d = data@;
    let mut names: Vec<String> = Vec::new();
    let ghost mut raw: Seq<Seq<u8>> = Seq::empty();
    let mut cur: Vec<u8> = Vec::new();
    let mut i: usize = 0;
    proof {
        assert(d.subrange(0, 0) =~= Seq::<u8>::empty());
    }
    while i < data.len()
        invariant
            d == data@,
            i <= d.len(),
            split_commas(d.subrange(0, i as int)).len() >= 1,
            cur@ == split_commas(d.subrange(0, i as int)).last(),
            raw == drop_empty(split_commas(d.subrange(0, i as int)).drop_last()),
            names@.len() == raw.len(),
            forall|j: int| 0 <= j < names@.len() ==> #[trigger] names@[j]@ == utf8_lossy(raw[j])
                && (valid_utf8(raw[j]) ==> names@[j]@ == decode_utf8(raw[j])),
        decreases d.len() - i,
    {
        let ghost pre = d.subrange(0, i as int);
        let ghost post = d.subrange(0, i + 1);
        proof {
            assert(post.drop_last() =~= pre);
            assert(post.last() == d[i as int]);
            lemma_split_commas_nonempty(pre);
        }
        let b = data[i];
        if b == 44u8 {
            if cur.len() > 0 {
                let s = string_from_utf8_lossy(cur.as_slice());
                names.push(s);
                proof {
                    raw = raw.push(cur@);
                }
            }
            proof {
                let ps = split_commas(pre);
                assert(split_commas(post) == ps.push(Seq::<u8>::empty()));
                assert(split_commas(post).drop_last() =~= ps);
                assert(ps =~= ps.drop_last().push(ps.last()));
            }
            cur = Vec::new();
        } else {
            cur.push(b);
            proof {
                let ps = split_commas(pre);
                assert(split_commas(post) == ps.update(ps.len() - 1, ps.last().push(b)));
                assert(split_commas(post).drop_last() =~= ps.drop_last());
            }
        }
        i = i + 1;
    }
    proof {
        lemma_split_commas_nonempty(d);
        assert(d.subrange(0, d.len() as int) =~= d);
        let ps = split_commas(d);
        assert(ps =~= ps.drop_last().push(ps.last()));
    }
    if cur.len() > 0 {
        let s = string_from_utf8_lossy(cur.as_slice());
        names.push(s);
        proof {
            raw = raw.push(cur@);
        }
    }
    Ok(names)
}


/// `s` holds no comma byte.
pub open spec fn comma_free(s: Seq<u8>) -> bool {
    forall|i: int| 0 <= i < s.len() ==> s[i] != 44u8
}

/// Appending comma-free bytes only lengthens the last piece of a comma-split.
proof fn lemma_split_commas_extend(p: Seq<u8>, t: Seq<u8>)
    requires
        comma_free(t),
    ensures
        split_commas(p + t) == split_commas(p).update(
            split_commas(p).len() - 1,
            split_commas(p).last() + t,
        ),
    decreases t.len(),
{
    lemma_split_commas_nonempty(p);
    let ps = split_commas(p);
    if t.len() == 0 {
        assert(p + t =~= p);
        assert(ps.last() + t =~= ps.last());
        assert(ps.update(ps.len() - 1, ps.last() + t) =~= ps);
    } else {
        let u = t.drop_last();
        lemma_split_commas_extend(p, u);
        assert((p + t).drop_last() =~= p + u);
        assert((p + t).last() == t.last());
        let qs = split_commas(p + u);
        assert(qs.last() == ps.last() + u);
        assert((ps.last() + u).push(t.last()) =~= ps.last() + t);
        assert(qs.update(qs.len() - 1, qs.last().push(t.last())) =~= ps.update(
            ps.len() - 1,
            ps.last() + t,
        ));
    }
}

/// Joining comma-free names with commas and splitting again gives the names back.
proof fn lemma_split_join(names: Seq<Seq<u8>>)
    requires
        names.len() >= 1,
        forall|j: int| 0 <= j < names.len() ==> comma_free(#[trigger] names[j]),
    ensures
        split_commas(join_commas(names)) == names,
    decreases names.len(),
{
    let e = Seq::<u8>::empty();
    if names.len() == 1 {
        lemma_split_commas_extend(e, names[0]);
        assert(e + names[0] =~= names[0]);
        assert(seq![e].update(0, e + names[0]) =~= names);
    } else {
        let init = names.drop_last();
        assert forall|j: int| 0 <= j < init.len() implies comma_free(#[trigger] init[j]) by {
            assert(init[j] == names[j]);
        }
        lemma_split_join(init);
        let p = join_commas(init) + seq![44u8];
        assert(p.drop_last() =~= join_commas(init));
        assert(split_commas(p) == init.push(e));
        assert(comma_free(names.last()));
        lemma_split_commas_extend(p, names.last());
        assert(e + names.last() =~= names.last());
        assert(init.push(e).update(init.len() as int, names.last()) =~= names);
    }
}

/// Dropping empty pieces keeps a sequence of non-empty names as it is.
proof fn lemma_drop_empty_keeps(names: Seq<Seq<u8>>)
    requires
        forall|j: int| 0 <= j < names.len() ==> (#[trigger] names[j]).len() > 0,
    ensures
        drop_empty(names) == names,
    decreases names.len(),
{
    if names.len() > 0 {
        let init = names.drop_last();
        assert forall|j: int| 0 <= j < init.len() implies (#[trigger] init[j]).len() > 0 by {
            assert(init[j] == names[j]);
        }
        lemma_drop_empty_keeps(init);
        assert(init.push(names.last()) =~= names);
    }
}

/// A name-list written by `write_name_list` reads back, through `read_name_list`, as
/// the same names in the same order, whatever follows it, provided every name is
/// non-empty and holds no comma.
pub proof fn lemma_name_list_roundtrip(names: Seq<&str>, rest: Seq<u8>)
    requires
        forall|j: int| 0 <= j < names.len() ==> (#[trigger] names[j])@.len() > 0,
        forall|j: int| 0 <= j < names.len() ==> comma_free(encode_utf8(#[trigger] names[j]@)),
        join_commas(names_bytes(names)).len() <= u32::MAX,
    ensures
        spec_read_string(ssh_string(join_commas(names_bytes(names))) + rest) == Ok::<
            (Seq<u8>, Seq<u8>),
            SshError,
        >((join_commas(names_bytes(names)), rest)),
        name_list_items(join_commas(names_bytes(names))) == names_bytes(names),
        forall|j: int|
            0 <= j < names.len() ==> valid_utf8(#[trigger] names_bytes(names)[j])
                && decode_utf8(names_bytes(names)[j]) == names[j]@,
{
    let bs = names_bytes(names);
    lemma_read_written_string(join_commas(bs), rest);
    assert forall|j: int| 0 <= j < names.len() implies valid_utf8(#[trigger] bs[j])
        && decode_utf8(bs[j]) == names[j]@ by {
        encode_utf8_valid_utf8(names[j]@);
        encode_utf8_decode_utf8(names[j]@);
    }
    if names.len() == 0 {
        assert(bs.len() == 0);
        assert(split_commas(Seq::<u8>::empty()) == seq![Seq::<u8>::empty()]);
        assert(drop_empty(seq![Seq::<u8>::empty()]).len() == 0) by {
            let one = seq![Seq::<u8>::empty()];
            assert(one.drop_last() =~= Seq::<Seq<u8>>::empty());
            assert(drop_empty(Seq::<Seq<u8>>::empty()).len() == 0);
            assert(one.last().len() == 0);
        }
        assert(name_list_items(join_commas(bs)) =~= bs);
    } else {
        assert forall|j: int| 0 <= j < bs.len() implies comma_free(#[trigger] bs[j]) by {
            assert(bs[j] == encode_utf8(names[j]@));
        }
        lemma_split_join(bs);
        assert forall|j: int| 0 <= j < bs.len() implies (#[trigger] bs[j]).len() > 0 by {
            assert(bs[j] == encode_utf8(names[j]@));
            encode_utf8_decode_utf8(names[j]@);
            if bs[j].len() == 0 {
                assert(bs[j] =~= Seq::<u8>::empty());
                assert(decode_utf8(Seq::<u8>::empty()).len() == 0);
            }
        }
        lemma_drop_empty_keeps(bs);
    }
}

} // verus!
