//! Scatter/gather logic for the vectored read and write paths: a write
//! gathers a list of byte buffers into one contiguous transfer, and a
//! read scatters a contiguous transfer across a list of byte buffers,
//! each filled entirely before the next.

use vstd::prelude::*;

verus! {

/// The views of a sequence of byte buffers.
pub open spec fn buf_views(bs: Seq<Vec<u8>>) -> Seq<Seq<u8>> {
    bs.map_values(|b: Vec<u8>| b@)
}

/// How a byte sequence is split across buffers of the given capacities:
/// each buffer is filled entirely before the next receives anything, and
/// buffers beyond the data stay empty.
pub open spec fn scatter_spec(data: Seq<u8>, caps: Seq<usize>) -> Seq<Seq<u8>>
    decreases caps.len(),
{
    if caps.len() == 0 {
        Seq::<Seq<u8>>::empty()
    } else {
        let n = if caps.first() <= data.len() {
            caps.first() as int
        } else {
            data.len() as int
        };
        seq![data.take(n)] + scatter_spec(data.skip(n), caps.skip(1))
    }
}

/// The total capacity of a list of buffers.
pub open spec fn caps_total(caps: Seq<usize>) -> nat
    decreases caps.len(),
{
    if caps.len() == 0 {
        0
    } else {
        (caps.first() + caps_total(caps.skip(1))) as nat
    }
}

/// Law (vectored round trip): scattering a byte sequence across buffers
/// whose total capacity covers it, then flattening the buffers back,
/// reproduces the byte sequence exactly.  Together with the write path's
/// contract — the issued operation carries exactly the flattening of the
/// gathered buffers — data written via the vectored write path and read
/// back via the vectored read path round-trips, including splitting
/// across buffer boundaries.
pub proof fn lemma_scatter_flatten(data: Seq<u8>, caps: Seq<usize>)
    requires
        data.len() <= caps_total(caps),
    ensures
        scatter_spec(data, caps).flatten() == data,
    decreases caps.len(),
{
    if caps.len() == 0 {
        assert(scatter_spec(data, caps).flatten() =~= data);
    } else {
        let n = if caps.first() <= data.len() {
            caps.first() as int
        } else {
            data.len() as int
        };
        lemma_scatter_flatten(data.skip(n), caps.skip(1));
        let s = scatter_spec(data, caps);
        assert(s.first() == data.take(n));
        assert(s.drop_first() =~= scatter_spec(data.skip(n), caps.skip(1)));
        assert(s.flatten() =~= data.take(n) + data.skip(n));
        assert(data.take(n) + data.skip(n) =~= data);
    }
}

/// Gathers a list of byte buffers into one contiguous byte vector, in
/// order.
pub fn gather(bufs: &Vec<Vec<u8>>) -> (r: Vec<u8>)
    ensures
        r@ == buf_views(bufs@).flatten(),
{
    let mut out: Vec<u8> = Vec::new();
    let mut i: usize = 0;
    proof {
        assert(buf_views(bufs@.take(0)) =~= Seq::<Seq<u8>>::empty());
    }
    while i < bufs.len()
        invariant
            i <= bufs@.len(),
            out@ == buf_views(bufs@.take(i as int)).flatten(),
        decreases bufs@.len() - i,
    {
        let b = &bufs[i];
        let mut j: usize = 0;
        while j < b.len()
            invariant
                j <= b@.len(),
                b@ == bufs@[i as int]@,
                i < bufs@.len(),
                out@ == buf_views(bufs@.take(i as int)).flatten() + b@.take(j as int),
            decreases b@.len() - j,
        {
            out.push(b[j]);
            j = j + 1;
            proof {
                assert(out@ =~= buf_views(bufs@.take(i as int)).flatten() + b@.take(j as int));
            }
        }
        i = i + 1;
        proof {
            let prev = buf_views(bufs@.take(i - 1));
            let cur = buf_views(bufs@.take(i as int));
            assert(cur =~= prev.push(bufs@[i - 1]@));
            prev.lemma_flatten_push(bufs@[i - 1]@);
            assert(out@ =~= cur.flatten());
        }
    }
    proof {
        assert(bufs@.take(bufs@.len() as int) =~= bufs@);
    }
    out
}

/// Scatters the bytes of `data` from position `pos` on across buffers of
/// the capacities `caps` names from position `ci` on.
fn scatter_from(data: &Vec<u8>, pos: usize, caps: &Vec<usize>, ci: usize) -> (r: Vec<Vec<u8>>)
    requires
        pos <= data@.len(),
        ci <= caps@.len(),
    ensures
        buf_views(r@) == scatter_spec(data@.skip(pos as int), caps@.skip(ci as int)),
    decreases caps@.len() - ci,
{
    if ci == caps.len() {
        let r: Vec<Vec<u8>> = Vec::new();
        proof {
            assert(buf_views(r@) =~= scatter_spec(data@.skip(pos as int), caps@.skip(ci as int)));
        }
        r
    } else {
        let avail = data.len() - pos;
        let cap = caps[ci];
        let n = if cap <= avail {
            cap
        } else {
            avail
        };
        let mut first: Vec<u8> = Vec::new();
        let mut j: usize = 0;
        while j < n
            invariant
                j <= n,
                pos + n <= data@.len(),
                data@.len() <= usize::MAX,
                first@ == data@.subrange(pos as int, pos + j),
            decreases n - j,
        {
            first.push(data[pos + j]);
            j = j + 1;
            proof {
                assert(first@ =~= data@.subrange(pos as int, pos + j));
            }
        }
        let mut rest = scatter_from(data, pos + n, caps, ci + 1);
        let mut r: Vec<Vec<u8>> = Vec::new();
        r.push(first);
        r.append(&mut rest);
        proof {
            let tail = data@.skip(pos as int);
            let ctail = caps@.skip(ci as int);
            assert(ctail.first() == caps@[ci as int]);
            assert(ctail.skip(1) =~= caps@.skip(ci as int + 1));
            assert(tail.take(n as int) =~= data@.subrange(pos as int, pos + n));
            assert(tail.skip(n as int) =~= data@.skip(pos + n));
            assert(buf_views(r@) =~= seq![tail.take(n as int)] + scatter_spec(
                data@.skip(pos + n),
                caps@.skip(ci as int + 1),
            ));
        }
        r
    }
}

/// Scatters the bytes of `data` across buffers of the given capacities,
/// each filled entirely before the next.
pub fn scatter(data: &Vec<u8>, caps: &Vec<usize>) -> (r: Vec<Vec<u8>>)
    ensures
        buf_views(r@) == scatter_spec(data@, caps@),
{
    let r = scatter_from(data, 0, caps, 0);
    proof {
        assert(data@.skip(0) =~= data@);
        assert(caps@.skip(0) =~= caps@);
    }
    r
}

/// The saturating total of a list of capacities, as handed to the read
/// path: the exact total where it fits the machine word, its maximum
/// otherwise.
pub open spec fn caps_total_sat(caps: Seq<usize>) -> usize {
    if caps_total(caps) <= usize::MAX {
        caps_total(caps) as usize
    } else {
        usize::MAX
    }
}

/// Peeling one capacity off the back of the total.
pub proof fn lemma_caps_total_back(caps: Seq<usize>)
    requires
        caps.len() > 0,
    ensures
        caps_total(caps) == caps_total(caps.drop_last()) + caps.last(),
    decreases caps.len(),
{
    if caps.len() == 1 {
        assert(caps.drop_last() =~= Seq::<usize>::empty());
        assert(caps.skip(1) =~= Seq::<usize>::empty());
    } else {
        lemma_caps_total_back(caps.skip(1));
        assert(caps.skip(1).drop_last() =~= caps.drop_last().skip(1));
        assert(caps.skip(1).last() == caps.last());
        assert(caps.drop_last().first() == caps.first());
    }
}

/// Computes the saturating total of the capacities.
pub fn total_capacity(caps: &Vec<usize>) -> (t: usize)
    ensures
        t == caps_total_sat(caps@),
{
    let mut t: usize = 0;
    let mut i: usize = 0;
    proof {
        assert(caps@.take(0) =~= Seq::<usize>::empty());
    }
    while i < caps.len()
        invariant
            i <= caps@.len(),
            t == caps_total_sat(caps@.take(i as int)),
        decreases caps@.len() - i,
    {
        let c = caps[i];
        t = if t <= usize::MAX - c {
            t + c
        } else {
            usize::MAX
        };
        i = i + 1;
        proof {
            let cur = caps@.take(i as int);
            assert(cur.drop_last() =~= caps@.take(i - 1));
            assert(cur.last() == caps@[i - 1]);
            lemma_caps_total_back(cur);
        }
    }
    proof {
        assert(caps@.take(caps@.len() as int) =~= caps@);
    }
    t
}

} // verus!
