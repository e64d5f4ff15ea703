//! Rewrapping of FLAC audio: from the boxes of a fragmented MP4 file to a native FLAC stream.

use vstd::prelude::*;
use vstd::slice::slice_subrange;

verus! {

/// The number that a row of bytes stands for, the most significant first.
pub open spec fn be_value(s: Seq<u8>) -> nat
    decreases s.len(),
{
    if s.len() == 0 {
        0
    } else {
        be_value(s.drop_last()) * 256 + s.last() as nat
    }
}

/// The length of the header and the whole length that the box header at `i` declares.
///
/// A length of one says that the real one follows the type as 64 bits. A length below that of
/// its own header declares nothing, nor does zero, which stands for "to the end".
pub open spec fn declared(d: Seq<u8>, i: int) -> Option<(int, int)> {
    if i + 8 > d.len() {
        None
    } else {
        let size = be_value(d.subrange(i, i + 4)) as int;
        if size == 1 {
            if i + 16 > d.len() || be_value(d.subrange(i + 8, i + 16)) < 16 {
                None
            } else {
                Some((16, be_value(d.subrange(i + 8, i + 16)) as int))
            }
        } else if size >= 8 {
            Some((8, size))
        } else {
            None
        }
    }
}

/// The length of the header and the whole length of the box at `i`, where the data holds all of it.
pub open spec fn box_at(d: Seq<u8>, i: int) -> Option<(int, int)> {
    if i + 8 <= d.len() && be_value(d.subrange(i, i + 4)) == 0 {
        Some((8, d.len() - i))
    } else {
        match declared(d, i) {
            Some((h, t)) if i + t <= d.len() => Some((h, t)),
            _ => None,
        }
    }
}

/// The four characters that name the type of the box at `i`.
pub open spec fn kind_at(d: Seq<u8>, i: int) -> Seq<u8> {
    d.subrange(i + 4, i + 8)
}

proof fn lemma_box_at(d: Seq<u8>, i: int)
    requires
        0 <= i <= d.len(),
    ensures
        match box_at(d, i) {
            Some((h, t)) => 8 <= h <= t && i + t <= d.len(),
            None => true,
        },
{
}

/// The boxes from `i` on, each as its type and its payload, up to the first that is not whole.
pub open spec fn boxes_from(d: Seq<u8>, i: int) -> Seq<(Seq<u8>, Seq<u8>)>
    decreases d.len() - i,
{
    match box_at(d, i) {
        Some((h, t)) => if 0 <= i && 0 < t && i + t <= d.len() {
            seq![(kind_at(d, i), d.subrange(i + h, i + t))] + boxes_from(d, i + t)
        } else {
            Seq::empty()
        },
        None => Seq::empty(),
    }
}

/// The boxes laid out in `d`.
pub open spec fn boxes_of(d: Seq<u8>) -> Seq<(Seq<u8>, Seq<u8>)> {
    boxes_from(d, 0)
}

/// Boxes as pairs of byte sequences.
pub open spec fn boxed_view<'a>(v: Seq<(&'a [u8], &'a [u8])>) -> Seq<(Seq<u8>, Seq<u8>)> {
    v.map_values(|b: (&'a [u8], &'a [u8])| (b.0@, b.1@))
}

proof fn lemma_be4(s: Seq<u8>)
    requires
        s.len() == 4,
    ensures
        be_value(s) == s[0] * 0x100_0000 + s[1] * 0x1_0000 + s[2] * 0x100 + s[3],
{
    assert(s.drop_last().drop_last().drop_last().drop_last() =~= Seq::empty());
    reveal_with_fuel(be_value, 5);
}

proof fn lemma_be_split(s: Seq<u8>, n: int)
    requires
        s.len() == 8,
        n == 4,
    ensures
        be_value(s) == be_value(s.subrange(0, 4)) * 0x1_0000_0000 + be_value(s.subrange(4, 8)),
{
    let a = s.subrange(0, 4);
    let b = s.subrange(4, 8);
    lemma_be4(b);
    assert(s.drop_last().drop_last().drop_last().drop_last() =~= a);
    reveal_with_fuel(be_value, 5);
}

/// Reads 32 bits at `i`.
fn be32(d: &[u8], i: usize) -> (r: u32)
    requires
        i + 4 <= d@.len(),
    ensures
        r == be_value(d@.subrange(i as int, i + 4)),
        r == d@[i as int] * 0x100_0000 + d@[i + 1] * 0x1_0000 + d@[i + 2] * 0x100 + d@[i + 3],
{
    proof {
        lemma_be4(d@.subrange(i as int, i + 4));
    }
    d[i] as u32 * 0x100_0000 + d[i + 1] as u32 * 0x1_0000 + d[i + 2] as u32 * 0x100 + d[i + 3] as u32
}

/// Reads 64 bits at `i`.
fn be64(d: &[u8], i: usize) -> (r: u64)
    requires
        i + 8 <= d@.len(),
    ensures
        r == be_value(d@.subrange(i as int, i + 8)),
{
    proof {
        let s = d@.subrange(i as int, i + 8);
        lemma_be_split(s, 4);
        assert(s.subrange(0, 4) =~= d@.subrange(i as int, i + 4));
        assert(s.subrange(4, 8) =~= d@.subrange(i + 4, i + 8));
    }
    let n: usize = d.len();
    assert(i + 4 <= n);
    be32(d, i) as u64 * 0x1_0000_0000 + be32(d, i + 4) as u64
}

/// Walks the boxes laid out in `data`, and stops at the first that is not whole.
pub fn boxes<'a>(data: &'a [u8]) -> (r: Vec<(&'a [u8], &'a [u8])>)
    ensures
        boxed_view(r@) == boxes_of(data@),
{
    let mut out: Vec<(&'a [u8], &'a [u8])> = Vec::new();
    let mut i: usize = 0;
    assert(boxed_view(out@) =~= Seq::empty());
    assert(boxed_view(out@) + boxes_from(data@, 0) =~= boxes_of(data@));
    while data.len() - i >= 8
        invariant_except_break
            boxes_of(data@) == boxed_view(out@) + boxes_from(data@, i as int),
        invariant
            i <= data@.len(),
        ensures
            boxes_of(data@) == boxed_view(out@),
        decreases data@.len() - i,
    {
        let size: u32 = be32(data, i);
        let rest: usize = data.len() - i;
        let mut header: usize = 8;
        let total: usize = if size == 0 {
            rest
        } else if size == 1 {
            if rest < 16 {
                assert(boxed_view(out@) + boxes_from(data@, i as int) =~= boxed_view(out@));
                break;
            }
            header = 16;
            let large: u64 = be64(data, i + 8);
            if large < 16 || large > rest as u64 {
                assert(boxed_view(out@) + boxes_from(data@, i as int) =~= boxed_view(out@));
                break;
            }
            large as usize
        } else if size >= 8 && size as u64 <= rest as u64 {
            size as usize
        } else {
            assert(boxed_view(out@) + boxes_from(data@, i as int) =~= boxed_view(out@));
            break;
        };
        let kind = slice_subrange(data, i + 4, i + 8);
        let payload = slice_subrange(data, i + header, i + total);
        let ghost before = out@;
        out.push((kind, payload));
        proof {
            assert(box_at(data@, i as int) == Some((header as int, total as int)));
            assert(boxed_view(out@) =~= boxed_view(before).push((kind@, payload@)));
            assert(boxed_view(before) + boxes_from(data@, i as int) =~= boxed_view(out@)
                + boxes_from(data@, i + total));
        }
        i += total;
        proof {
            if data@.len() - i < 8 {
                assert(boxed_view(out@) + boxes_from(data@, i as int) =~= boxed_view(out@));
            }
        }
    }
    out
}

/// The payload of the first box of the type `want`.
pub open spec fn first_of(b: Seq<(Seq<u8>, Seq<u8>)>, want: Seq<u8>) -> Option<Seq<u8>>
    decreases b.len(),
{
    if b.len() == 0 {
        None
    } else if b[0].0 == want {
        Some(b[0].1)
    } else {
        first_of(b.drop_first(), want)
    }
}

/// The payload of the first box of the type `want` in `d`.
pub open spec fn child_of(d: Seq<u8>, want: Seq<u8>) -> Option<Seq<u8>> {
    first_of(boxes_of(d), want)
}

/// Whether two byte rows are the same.
fn same_bytes(a: &[u8], b: &[u8]) -> (r: bool)
    ensures
        r == (a@ == b@),
{
    if a.len() != b.len() {
        return false;
    }
    let mut i: usize = 0;
    while i < a.len()
        invariant
            i <= a@.len(),
            a@.len() == b@.len(),
            forall|j: int| 0 <= j < i ==> a@[j] == b@[j],
        decreases a@.len() - i,
    {
        if a[i] != b[i] {
            return false;
        }
        i += 1;
    }
    assert(a@ =~= b@);
    true
}

/// An optional slice as an optional byte sequence.
pub open spec fn opt_bytes(o: Option<&[u8]>) -> Option<Seq<u8>> {
    match o {
        Some(s) => Some(s@),
        None => None,
    }
}

/// The payload of the first child box of the type `want`.
pub fn child<'a>(data: &'a [u8], want: &[u8]) -> (r: Option<&'a [u8]>)
    ensures
        opt_bytes(r) == child_of(data@, want@),
        match r {
            Some(p) => exists|k: int|
                0 <= k < boxes_of(data@).len() && #[trigger] boxes_of(data@)[k] == (want@, p@) && (
                forall|j: int| 0 <= j < k ==> (#[trigger] boxes_of(data@)[j]).0 != want@),
            None => forall|j: int|
                0 <= j < boxes_of(data@).len() ==> (#[trigger] boxes_of(data@)[j]).0 != want@,
        },
{
    let all = boxes(data);
    let mut i: usize = 0;
    assert(boxed_view(all@).subrange(0, all@.len() as int) =~= boxed_view(all@));
    while i < all.len()
        invariant
            i <= all@.len(),
            boxed_view(all@) == boxes_of(data@),
            child_of(data@, want@) == first_of(
                boxed_view(all@).subrange(i as int, all@.len() as int),
                want@,
            ),
        decreases all@.len() - i,
    {
        let ghost t = boxed_view(all@).subrange(i as int, all@.len() as int);
        assert(t[0] == (all@[i as int].0@, all@[i as int].1@));
        if same_bytes(all[i].0, want) {
            proof {
                law_the_first_of_a_type_is_taken(boxes_of(data@), want@);
            }
            return Some(all[i].1);
        }
        assert(t.drop_first() =~= boxed_view(all@).subrange(i + 1, all@.len() as int));
        i += 1;
    }
    proof {
        law_the_first_of_a_type_is_taken(boxes_of(data@), want@);
    }
    None
}

/// What lies at and after the place `n`, where there is such a place.
pub open spec fn from_place(d: Seq<u8>, n: int) -> Option<Seq<u8>> {
    if n <= d.len() {
        Some(d.subrange(n, d.len() as int))
    } else {
        None
    }
}

/// What lies at and after the place `n`.
fn skip<'a>(d: &'a [u8], n: usize) -> (r: Option<&'a [u8]>)
    ensures
        opt_bytes(r) == from_place(d@, n as int),
{
    if n <= d.len() {
        Some(slice_subrange(d, n, d.len()))
    } else {
        None
    }
}

/// The payload of the box that the path `path` of types leads to.
pub open spec fn descend(d: Seq<u8>, path: Seq<Seq<u8>>) -> Option<Seq<u8>>
    decreases path.len(),
{
    if path.len() == 0 {
        Some(d)
    } else {
        match child_of(d, path[0]) {
            Some(inner) => descend(inner, path.drop_first()),
            None => None,
        }
    }
}

pub open spec fn moov() -> Seq<u8> {
    seq![0x6du8, 0x6fu8, 0x6fu8, 0x76u8]
}

pub open spec fn trak() -> Seq<u8> {
    seq![0x74u8, 0x72u8, 0x61u8, 0x6bu8]
}

pub open spec fn mdia() -> Seq<u8> {
    seq![0x6du8, 0x64u8, 0x69u8, 0x61u8]
}

pub open spec fn minf() -> Seq<u8> {
    seq![0x6du8, 0x69u8, 0x6eu8, 0x66u8]
}

pub open spec fn stbl() -> Seq<u8> {
    seq![0x73u8, 0x74u8, 0x62u8, 0x6cu8]
}

pub open spec fn stsd() -> Seq<u8> {
    seq![0x73u8, 0x74u8, 0x73u8, 0x64u8]
}

pub open spec fn dfla() -> Seq<u8> {
    seq![0x64u8, 0x66u8, 0x4cu8, 0x61u8]
}

pub open spec fn mdat() -> Seq<u8> {
    seq![0x6du8, 0x64u8, 0x61u8, 0x74u8]
}

/// The four bytes that a native FLAC stream begins with.
pub open spec fn magic() -> Seq<u8> {
    seq![0x66u8, 0x4cu8, 0x61u8, 0x43u8]
}

/// The boxes that lead from the file down to the table of sample descriptions.
pub open spec fn sample_table_path() -> Seq<Seq<u8>> {
    seq![moov(), trak(), mdia(), minf(), stbl(), stsd()]
}

/// The metadata blocks that an init segment carries.
///
/// The table of sample descriptions has a version and a count before its entries, the first
/// entry has 28 bytes of fixed fields before its child boxes, and the box of metadata blocks
/// has a version before the blocks.
pub open spec fn metadata_of(init: Seq<u8>) -> Option<Seq<u8>> {
    match descend(init, sample_table_path()) {
        Some(table) => match from_place(table, 8) {
            Some(entries) => if boxes_of(entries).len() > 0 {
                match from_place(boxes_of(entries)[0].1, 28) {
                    Some(children) => match child_of(children, dfla()) {
                        Some(full) => from_place(full, 4),
                        None => None,
                    },
                    None => None,
                }
            } else {
                None
            },
            None => None,
        },
        None => None,
    }
}

/// The FLAC metadata blocks carried in an init segment.
pub fn metadata_blocks<'a>(init: &'a [u8]) -> (r: Option<&'a [u8]>)
    ensures
        opt_bytes(r) == metadata_of(init@),
{
    let names: [[u8; 4]; 6] = [
        [0x6d, 0x6f, 0x6f, 0x76],
        [0x74, 0x72, 0x61, 0x6b],
        [0x6d, 0x64, 0x69, 0x61],
        [0x6d, 0x69, 0x6e, 0x66],
        [0x73, 0x74, 0x62, 0x6c],
        [0x73, 0x74, 0x73, 0x64],
    ];
    let ghost path = sample_table_path();
    proof {
        assert(names[0]@ =~= moov());
        assert(names[1]@ =~= trak());
        assert(names[2]@ =~= mdia());
        assert(names[3]@ =~= minf());
        assert(names[4]@ =~= stbl());
        assert(names[5]@ =~= stsd());
        assert(path.subrange(0, 6) =~= path);
    }
    let mut d = init;
    let mut i: usize = 0;
    while i < 6
        invariant
            i <= 6,
            path == sample_table_path(),
            path.len() == 6,
            forall|j: int| 0 <= j < 6 ==> (#[trigger] names[j])@ == path[j],
            descend(init@, path) == descend(d@, path.subrange(i as int, 6)),
        decreases 6 - i,
    {
        let ghost rest = path.subrange(i as int, 6);
        assert(rest[0] == path[i as int]);
        assert(rest.drop_first() =~= path.subrange(i + 1, 6));
        match child(d, &names[i]) {
            Some(inner) => {
                d = inner;
            },
            None => {
                return None;
            },
        }
        i += 1;
    }
    assert(path.subrange(6, 6) =~= Seq::empty());
    let entries = match skip(d, 8) {
        Some(e) => e,
        None => {
            return None;
        },
    };
    let all = boxes(entries);
    if all.len() == 0 {
        return None;
    }
    assert(boxed_view(all@)[0] == (all@[0].0@, all@[0].1@));
    let children = match skip(all[0].1, 28) {
        Some(c) => c,
        None => {
            return None;
        },
    };
    let name: [u8; 4] = [0x64, 0x66, 0x4c, 0x61];
    assert(name@ =~= dfla());
    match child(children, &name) {
        Some(full) => skip(full, 4),
        None => None,
    }
}

/// The place of the last metadata block among those from `i` on.
///
/// A block is one byte of flags and type, three bytes of length, and the data. The walk ends at
/// a block that runs past the end, or where no header fits any more.
pub open spec fn last_block_from(b: Seq<u8>, i: int) -> Option<int>
    decreases b.len() - i,
{
    if i < 0 || i + 4 > b.len() {
        None
    } else {
        let next = i + 4 + be_value(b.subrange(i + 1, i + 4));
        if next + 4 <= b.len() {
            last_block_from(b, next)
        } else {
            Some(i)
        }
    }
}

/// A byte with its highest bit set.
pub open spec fn flagged(x: u8) -> u8 {
    x | 0x80u8
}

/// Metadata blocks with the last one flagged as last.
pub open spec fn marked(b: Seq<u8>) -> Seq<u8> {
    match last_block_from(b, 0) {
        Some(p) => b.update(p, flagged(b[p])),
        None => b,
    }
}

proof fn lemma_last_block_bounds(b: Seq<u8>, i: int)
    requires
        0 <= i,
    ensures
        match last_block_from(b, i) {
            Some(p) => i <= p && p + 4 <= b.len(),
            None => i + 4 > b.len(),
        },
    decreases b.len() - i,
{
    if i + 4 <= b.len() {
        let next = i + 4 + be_value(b.subrange(i + 1, i + 4));
        if next + 4 <= b.len() {
            lemma_last_block_bounds(b, next);
        }
    }
}

/// Flags the final metadata block of `blocks` as last.
pub fn mark_last_block(blocks: &mut Vec<u8>)
    ensures
        final(blocks)@ == marked(old(blocks)@),
{
    let mut i: usize = 0;
    let mut last: usize = 0;
    if blocks.len() < 4 {
        return ;
    }
    loop
        invariant
            i + 4 <= blocks@.len(),
            blocks@ == old(blocks)@,
            last_block_from(blocks@, 0) == last_block_from(blocks@, i as int),
        ensures
            last_block_from(blocks@, 0) == Some(last as int),
            last < blocks@.len(),
            blocks@ == old(blocks)@,
        decreases blocks@.len() - i,
    {
        last = i;
        let size: usize = blocks.len();
        assert(i + 4 <= size);
        let len: usize = blocks[i + 1] as usize * 0x1_0000 + blocks[i + 2] as usize * 0x100
            + blocks[i + 3] as usize;
        proof {
            let s = blocks@.subrange(i + 1, i + 4);
            reveal_with_fuel(be_value, 4);
            assert(s.drop_last().drop_last().drop_last() =~= Seq::empty());
            assert(be_value(s) == len);
        }
        let rest: usize = size - i - 4;
        if rest < 4 || len > rest - 4 {
            break;
        }
        i = i + 4 + len;
    }
    let flagged_byte: u8 = blocks[last] | 0x80;
    blocks.set(last, flagged_byte);
}

/// The native header for an init segment: the magic, then the marked metadata blocks.
///
/// Blocks that cannot hold the stream description with its header give none.
pub open spec fn header_of(init: Seq<u8>) -> Option<Seq<u8>> {
    match metadata_of(init) {
        Some(b) if b.len() >= 38 => Some(magic() + marked(b)),
        _ => None,
    }
}

/// An optional byte vector as an optional byte sequence.
pub open spec fn opt_vec(o: Option<Vec<u8>>) -> Option<Seq<u8>> {
    match o {
        Some(v) => Some(v@),
        None => None,
    }
}

/// Appends bytes to a vector.
pub fn append_bytes(out: &mut Vec<u8>, more: &[u8])
    ensures
        final(out)@ == old(out)@ + more@,
{
    out.extend_from_slice(more);
    assert(out@ =~= old(out)@ + more@);
}

/// The header of a native FLAC stream, lifted out of an MP4 init segment.
pub fn header(init: &[u8]) -> (r: Option<Vec<u8>>)
    ensures
        opt_vec(r) == header_of(init@),
{
    match metadata_blocks(init) {
        Some(b) => {
            if b.len() < 38 {
                return None;
            }
            let mut blocks: Vec<u8> = Vec::new();
            append_bytes(&mut blocks, b);
            assert(blocks@ =~= b@);
            mark_last_block(&mut blocks);
            let mut out: Vec<u8> = Vec::new();
            out.push(0x66);
            out.push(0x4c);
            out.push(0x61);
            out.push(0x43);
            assert(out@ =~= magic());
            append_bytes(&mut out, blocks.as_slice());
            Some(out)
        },
        None => None,
    }
}

/// The media payloads among the boxes, one after the other.
pub open spec fn media(b: Seq<(Seq<u8>, Seq<u8>)>) -> Seq<u8>
    decreases b.len(),
{
    if b.len() == 0 {
        Seq::empty()
    } else if b.last().0 == mdat() {
        media(b.drop_last()) + b.last().1
    } else {
        media(b.drop_last())
    }
}

/// The FLAC frames of a segment.
pub open spec fn frames_of(segment: Seq<u8>) -> Seq<u8> {
    media(boxes_of(segment))
}

/// The FLAC frames inside one media segment.
pub fn frames(segment: &[u8]) -> (r: Vec<u8>)
    ensures
        r@ == frames_of(segment@),
{
    let all = boxes(segment);
    let name: [u8; 4] = [0x6d, 0x64, 0x61, 0x74];
    assert(name@ =~= mdat());
    let mut out: Vec<u8> = Vec::new();
    let mut i: usize = 0;
    assert(boxed_view(all@).take(0) =~= Seq::empty());
    while i < all.len()
        invariant
            i <= all@.len(),
            name@ == mdat(),
            boxed_view(all@) == boxes_of(segment@),
            out@ == media(boxed_view(all@).take(i as int)),
        decreases all@.len() - i,
    {
        let ghost t = boxed_view(all@).take(i + 1);
        assert(t.last() == (all@[i as int].0@, all@[i as int].1@));
        assert(t.drop_last() =~= boxed_view(all@).take(i as int));
        if same_bytes(all[i].0, &name) {
            append_bytes(&mut out, all[i].1);
        }
        i += 1;
    }
    assert(boxed_view(all@).take(all@.len() as int) =~= boxed_view(all@));
    out
}

/// The length of the first media payload from `i` on, as far as the box headers in `p` tell it.
pub open spec fn mdat_len_from(p: Seq<u8>, i: int) -> Option<nat>
    decreases p.len() - i,
{
    match declared(p, i) {
        Some((h, t)) => if i < 0 || t <= 0 {
            None
        } else if kind_at(p, i) == mdat() {
            Some((t - h) as nat)
        } else if i + t > p.len() {
            None
        } else {
            mdat_len_from(p, i + t)
        },
        None => None,
    }
}

/// The length of a segment's FLAC frames, read from the box headers at its start.
pub fn mdat_len(prefix: &[u8]) -> (r: Option<u64>)
    ensures
        crate::text::opt_nat(r) == mdat_len_from(prefix@, 0),
{
    let name: [u8; 4] = [0x6d, 0x64, 0x61, 0x74];
    assert(name@ =~= mdat());
    let mut i: usize = 0;
    while prefix.len() - i >= 8
        invariant
            i <= prefix@.len(),
            name@ == mdat(),
            mdat_len_from(prefix@, 0) == mdat_len_from(prefix@, i as int),
        decreases prefix@.len() - i,
    {
        let size: u32 = be32(prefix, i);
        let rest: usize = prefix.len() - i;
        let mut header: u64 = 8;
        let total: u64 = if size == 1 {
            if rest < 16 {
                return None;
            }
            header = 16;
            be64(prefix, i + 8)
        } else {
            size as u64
        };
        if total < header {
            return None;
        }
        if same_bytes(slice_subrange(prefix, i + 4, i + 8), &name) {
            return Some(total - header);
        }
        if total > rest as u64 {
            return None;
        }
        i += total as usize;
    }
    None
}

/// From `i` on, `d` is a run of whole boxes that each declare their length.
pub open spec fn whole_from(d: Seq<u8>, i: int) -> bool
    decreases d.len() - i,
{
    if i == d.len() {
        true
    } else {
        match declared(d, i) {
            Some((h, t)) => 0 <= i && 0 < t && i + t <= d.len() && whole_from(d, i + t),
            None => false,
        }
    }
}

/// `d` is a run of whole boxes.
pub open spec fn whole(d: Seq<u8>) -> bool {
    whole_from(d, 0)
}

/// How many boxes of media there are.
pub open spec fn media_count(b: Seq<(Seq<u8>, Seq<u8>)>) -> nat
    decreases b.len(),
{
    if b.len() == 0 {
        0
    } else {
        media_count(b.drop_last()) + if b.last().0 == mdat() {
            1nat
        } else {
            0nat
        }
    }
}

/// The bytes of one box with a length of 32 bits.
pub open spec fn box_bytes(kind: Seq<u8>, payload: Seq<u8>) -> Seq<u8> {
    let n = payload.len() + 8;
    seq![(n / 0x100_0000) as u8, (n / 0x1_0000 % 0x100) as u8, (n / 0x100 % 0x100) as u8, (n % 0x100)
        as u8] + kind + payload
}

proof fn lemma_media_join(x: Seq<(Seq<u8>, Seq<u8>)>, y: Seq<(Seq<u8>, Seq<u8>)>)
    ensures
        media(x + y) == media(x) + media(y),
        media_count(x + y) == media_count(x) + media_count(y),
    decreases y.len(),
{
    if y.len() == 0 {
        assert(x + y =~= x);
        assert(media(x) + media(y) =~= media(x));
    } else {
        lemma_media_join(x, y.drop_last());
        assert((x + y).drop_last() =~= x + y.drop_last());
        assert((x + y).last() == y.last());
        assert(media(x + y) =~= media(x) + media(y));
    }
}

proof fn lemma_no_media(x: Seq<(Seq<u8>, Seq<u8>)>)
    requires
        media_count(x) == 0,
    ensures
        media(x) == Seq::<u8>::empty(),
    decreases x.len(),
{
    if x.len() > 0 {
        lemma_no_media(x.drop_last());
    }
}

proof fn lemma_declared_prefix(d: Seq<u8>, k: int, i: int)
    requires
        0 <= i,
        0 <= k <= d.len(),
        declared(d.take(k), i) is Some,
    ensures
        declared(d, i) == declared(d.take(k), i),
        kind_at(d, i) == kind_at(d.take(k), i),
        be_value(d.subrange(i, i + 4)) != 0,
{
    let p = d.take(k);
    assert(p.subrange(i, i + 4) =~= d.subrange(i, i + 4));
    assert(p.subrange(i + 4, i + 8) =~= d.subrange(i + 4, i + 8));
    if i + 16 <= k {
        assert(p.subrange(i + 8, i + 16) =~= d.subrange(i + 8, i + 16));
    }
}

proof fn lemma_declared_shift(a: Seq<u8>, b: Seq<u8>, j: int)
    requires
        0 <= j <= b.len(),
    ensures
        declared(a + b, a.len() + j) == declared(b, j),
        box_at(a + b, a.len() + j) == box_at(b, j),
{
    let d = a + b;
    let i = a.len() + j;
    if j + 8 <= b.len() {
        assert(d.subrange(i, i + 4) =~= b.subrange(j, j + 4));
    }
    if j + 16 <= b.len() {
        assert(d.subrange(i + 8, i + 16) =~= b.subrange(j + 8, j + 16));
    }
}

proof fn lemma_boxes_shift(a: Seq<u8>, b: Seq<u8>, j: int)
    requires
        0 <= j <= b.len(),
    ensures
        boxes_from(a + b, a.len() + j) == boxes_from(b, j),
    decreases b.len() - j,
{
    lemma_declared_shift(a, b, j);
    lemma_box_at(b, j);
    match box_at(b, j) {
        Some((h, t)) => {
            let d = a + b;
            let i = a.len() + j;
            lemma_boxes_shift(a, b, j + t);
            assert(kind_at(d, i) =~= kind_at(b, j));
            assert(d.subrange(i + h, i + t) =~= b.subrange(j + h, j + t));
        },
        None => {},
    }
}

proof fn lemma_boxes_join_from(a: Seq<u8>, b: Seq<u8>, i: int)
    requires
        0 <= i <= a.len(),
        whole_from(a, i),
    ensures
        boxes_from(a + b, i) == boxes_from(a, i) + boxes_of(b),
    decreases a.len() - i,
{
    let d = a + b;
    if i == a.len() {
        lemma_boxes_shift(a, b, 0);
        assert(box_at(a, i) is None);
        assert(boxes_from(a, i) + boxes_of(b) =~= boxes_of(b));
    } else {
        assert(d.take(a.len() as int) =~= a);
        lemma_declared_prefix(d, a.len() as int, i);
        assert(a.take(a.len() as int) =~= a);
        lemma_declared_prefix(a, a.len() as int, i);
        let (h, t) = declared(a, i).unwrap();
        lemma_boxes_join_from(a, b, i + t);
        assert(d.subrange(i + h, i + t) =~= a.subrange(i + h, i + t));
        assert(boxes_from(d, i) =~= boxes_from(a, i) + boxes_of(b));
    }
}

/// The boxes of two runs of boxes, one after the other, are the boxes of the first and then
/// those of the second.
pub proof fn law_boxes_join(a: Seq<u8>, b: Seq<u8>)
    requires
        whole(a),
    ensures
        boxes_of(a + b) == boxes_of(a) + boxes_of(b),
{
    lemma_boxes_join_from(a, b, 0);
}

/// Segments can be unwrapped one at a time: the frames of two segments in a row are the frames
/// of the first, then those of the second.
pub proof fn law_frames_join(a: Seq<u8>, b: Seq<u8>)
    requires
        whole(a),
    ensures
        frames_of(a + b) == frames_of(a) + frames_of(b),
{
    law_boxes_join(a, b);
    lemma_media_join(boxes_of(a), boxes_of(b));
}

/// A box that was written is read back as its type and its payload, and nothing else.
pub proof fn law_box_reads_back(kind: Seq<u8>, payload: Seq<u8>)
    requires
        kind.len() == 4,
        payload.len() + 8 <= u32::MAX,
    ensures
        whole(box_bytes(kind, payload)),
        boxes_of(box_bytes(kind, payload)) == seq![(kind, payload)],
{
    let d = box_bytes(kind, payload);
    let n = payload.len() + 8;
    let s = d.subrange(0, 4);
    lemma_be4(s);
    assert(be_value(s) == n);
    assert(declared(d, 0) == Some((8int, n as int)));
    assert(d.len() == n);
    assert(whole_from(d, n as int));
    assert(d.subrange(4, 8) =~= kind);
    assert(d.subrange(8, n as int) =~= payload);
    assert(box_at(d, n as int) is None);
    assert(boxes_from(d, n as int) =~= Seq::empty());
    assert(boxes_from(d, 0) =~= seq![(kind, payload)]);
}

/// A box of media gives its payload back as frames; any other box gives none.
pub proof fn law_only_media_survives(kind: Seq<u8>, payload: Seq<u8>)
    requires
        kind.len() == 4,
        payload.len() + 8 <= u32::MAX,
    ensures
        frames_of(box_bytes(kind, payload)) == if kind == mdat() {
            payload
        } else {
            Seq::empty()
        },
{
    law_box_reads_back(kind, payload);
    let b = seq![(kind, payload)];
    assert(b.drop_last() =~= Seq::empty());
    assert(media(b.drop_last()) + payload =~= payload);
}

proof fn lemma_mdat_len_from(seg: Seq<u8>, k: int, i: int)
    requires
        0 <= k <= seg.len(),
        0 <= i <= seg.len(),
        whole_from(seg, i),
        mdat_len_from(seg.take(k), i) is Some,
        media_count(boxes_from(seg, i)) == 1,
    ensures
        media(boxes_from(seg, i)).len() == mdat_len_from(seg.take(k), i)->0,
    decreases seg.len() - i,
{
    lemma_declared_prefix(seg, k, i);
    let (h, t) = declared(seg, i).unwrap();
    let one = seq![(kind_at(seg, i), seg.subrange(i + h, i + t))];
    let rest = boxes_from(seg, i + t);
    assert(boxes_from(seg, i) =~= one + rest);
    lemma_media_join(one, rest);
    assert(one.drop_last() =~= Seq::empty());
    assert(media(one.drop_last()) =~= Seq::empty());
    assert(media_count(one.drop_last()) == 0);
    if kind_at(seg, i) == mdat() {
        lemma_no_media(rest);
        assert(media(one).len() == t - h);
    } else {
        lemma_mdat_len_from(seg, k, i + t);
    }
}

/// The length read from the start of a segment is the length of the frames that the whole
/// segment yields, where it is a run of whole boxes with one box of media.
pub proof fn law_sizes_agree(segment: Seq<u8>, k: int)
    requires
        0 <= k <= segment.len(),
        whole(segment),
        media_count(boxes_of(segment)) == 1,
        mdat_len_from(segment.take(k), 0) is Some,
    ensures
        frames_of(segment).len() == mdat_len_from(segment.take(k), 0)->0,
{
    lemma_mdat_len_from(segment, k, 0);
}

proof fn lemma_last_block_update(b: Seq<u8>, i: int, p: int)
    requires
        0 <= i,
        last_block_from(b, i) == Some(p),
    ensures
        last_block_from(b.update(p, flagged(b[p])), i) == Some(p),
    decreases b.len() - i,
{
    let c = b.update(p, flagged(b[p]));
    lemma_last_block_bounds(b, i);
    let next = i + 4 + be_value(b.subrange(i + 1, i + 4));
    if next + 4 <= b.len() {
        lemma_last_block_bounds(b, next);
        assert(c.subrange(i + 1, i + 4) =~= b.subrange(i + 1, i + 4));
        lemma_last_block_update(b, next, p);
    } else {
        assert(c.subrange(i + 1, i + 4) =~= b.subrange(i + 1, i + 4));
    }
}

/// Marking flags the last block and leaves every other byte as it was, so blocks that are
/// already marked stay as they are.
pub proof fn law_only_the_last_block_is_flagged(b: Seq<u8>)
    requires
        b.len() >= 4,
    ensures
        last_block_from(b, 0) is Some,
        ({
            let p = last_block_from(b, 0)->0;
            &&& 0 <= p < b.len()
            &&& marked(b)[p] & 0x80u8 == 0x80u8
            &&& marked(b)[p] & 0x7fu8 == b[p] & 0x7fu8
            &&& forall|q: int| 0 <= q < b.len() && q != p ==> marked(b)[q] == b[q]
        }),
        marked(b).len() == b.len(),
        marked(marked(b)) == marked(b),
{
    lemma_last_block_bounds(b, 0);
    let p = last_block_from(b, 0)->0;
    lemma_last_block_update(b, 0, p);
    let x = b[p];
    assert((x | 0x80u8) & 0x80u8 == 0x80u8 && (x | 0x80u8) & 0x7fu8 == x & 0x7fu8 && (x | 0x80u8)
        | 0x80u8 == x | 0x80u8) by (bit_vector);
    assert(marked(marked(b)) =~= marked(b));
}

/// Of all boxes the first of a type is taken, whatever stands before and behind it; there is
/// none exactly where no box has the type.
pub proof fn law_the_first_of_a_type_is_taken(b: Seq<(Seq<u8>, Seq<u8>)>, want: Seq<u8>)
    ensures
        match first_of(b, want) {
            Some(p) => exists|k: int|
                0 <= k < b.len() && #[trigger] b[k] == (want, p) && (forall|j: int|
                    0 <= j < k ==> (#[trigger] b[j]).0 != want),
            None => forall|j: int| 0 <= j < b.len() ==> (#[trigger] b[j]).0 != want,
        },
    decreases b.len(),
{
    if b.len() > 0 {
        let c = b.drop_first();
        if b[0].0 == want {
            assert(b[0] == (want, b[0].1));
        } else {
            law_the_first_of_a_type_is_taken(c, want);
            match first_of(c, want) {
                Some(p) => {
                    let k = choose|k: int|
                        0 <= k < c.len() && #[trigger] c[k] == (want, p) && (forall|j: int|
                            0 <= j < k ==> (#[trigger] c[j]).0 != want);
                    assert(b[k + 1] == (want, p));
                    assert forall|j: int| 0 <= j < k + 1 implies (#[trigger] b[j]).0 != want by {
                        if j > 0 {
                            assert(b[j] == c[j - 1]);
                        }
                    }
                },
                None => {
                    assert forall|j: int| 0 <= j < b.len() implies (#[trigger] b[j]).0 != want by {
                        if j > 0 {
                            assert(b[j] == c[j - 1]);
                        }
                    }
                },
            }
        }
    }
}

proof fn lemma_first_behind(
    a: Seq<(Seq<u8>, Seq<u8>)>,
    want: Seq<u8>,
    payload: Seq<u8>,
    b: Seq<(Seq<u8>, Seq<u8>)>,
)
    requires
        forall|j: int| 0 <= j < a.len() ==> (#[trigger] a[j]).0 != want,
    ensures
        first_of(a + seq![(want, payload)] + b, want) == Some(payload),
    decreases a.len(),
{
    let all = a + seq![(want, payload)] + b;
    if a.len() == 0 {
        assert(all[0] == (want, payload));
    } else {
        assert(all[0] == a[0]);
        assert(all.drop_first() =~= a.drop_first() + seq![(want, payload)] + b);
        lemma_first_behind(a.drop_first(), want, payload, b);
    }
}

proof fn lemma_whole_shift(a: Seq<u8>, b: Seq<u8>, j: int)
    requires
        0 <= j <= b.len(),
        whole_from(b, j),
    ensures
        whole_from(a + b, a.len() + j),
    decreases b.len() - j,
{
    lemma_declared_shift(a, b, j);
    if j < b.len() {
        let (h, t) = declared(b, j).unwrap();
        lemma_whole_shift(a, b, j + t);
    }
}

proof fn lemma_whole_join(a: Seq<u8>, b: Seq<u8>, i: int)
    requires
        0 <= i <= a.len(),
        whole_from(a, i),
        whole(b),
    ensures
        whole_from(a + b, i),
    decreases a.len() - i,
{
    let d = a + b;
    if i == a.len() {
        lemma_whole_shift(a, b, 0);
    } else {
        assert(d.take(a.len() as int) =~= a);
        lemma_declared_prefix(d, a.len() as int, i);
        let (h, t) = declared(a, i).unwrap();
        lemma_whole_join(a, b, i + t);
    }
}

/// Two runs of whole boxes in a row are a run of whole boxes.
pub proof fn law_runs_join(a: Seq<u8>, b: Seq<u8>)
    requires
        whole(a),
        whole(b),
    ensures
        whole(a + b),
        whole(Seq::<u8>::empty()),
{
    lemma_whole_join(a, b, 0);
}

/// A child is found among any others: behind boxes of other types, and before whatever follows.
#[verifier::rlimit(40)]
pub proof fn law_a_child_is_found_among_others(
    a: Seq<u8>,
    want: Seq<u8>,
    payload: Seq<u8>,
    b: Seq<u8>,
)
    requires
        whole(a),
        forall|j: int| 0 <= j < boxes_of(a).len() ==> (#[trigger] boxes_of(a)[j]).0 != want,
        want.len() == 4,
        payload.len() + 8 <= u32::MAX,
    ensures
        child_of(a + box_bytes(want, payload) + b, want) == Some(payload),
{
    let one = box_bytes(want, payload);
    law_box_reads_back(want, payload);
    law_boxes_join(one, b);
    law_boxes_join(a, one + b);
    assert(a + one + b =~= a + (one + b));
    assert(boxes_of(a) + (seq![(want, payload)] + boxes_of(b)) =~= boxes_of(a) + seq![
        (want, payload),
    ] + boxes_of(b));
    lemma_first_behind(boxes_of(a), want, payload, boxes_of(b));
}

/// One step down a path of boxes.
proof fn lemma_descend_step(d: Seq<u8>, path: Seq<Seq<u8>>, inner: Seq<u8>)
    requires
        path.len() > 0,
        child_of(d, path[0]) == Some(inner),
    ensures
        descend(d, path) == descend(inner, path.drop_first()),
{
}

/// The sample table is reached down the six boxes of its path.
proof fn lemma_reach_table(
    init: Seq<u8>,
    movie: Seq<u8>,
    track: Seq<u8>,
    media_box: Seq<u8>,
    info: Seq<u8>,
    samples: Seq<u8>,
    table: Seq<u8>,
)
    requires
        child_of(init, moov()) == Some(movie),
        child_of(movie, trak()) == Some(track),
        child_of(track, mdia()) == Some(media_box),
        child_of(media_box, minf()) == Some(info),
        child_of(info, stbl()) == Some(samples),
        child_of(samples, stsd()) == Some(table),
    ensures
        descend(init, sample_table_path()) == Some(table),
{
    let path = sample_table_path();
    let p1 = path.drop_first();
    let p2 = p1.drop_first();
    let p3 = p2.drop_first();
    let p4 = p3.drop_first();
    let p5 = p4.drop_first();
    let p6 = p5.drop_first();
    assert(path.len() == 6 && path[0] == moov() && p1[0] == trak() && p2[0] == mdia() && p3[0]
        == minf() && p4[0] == stbl() && p5[0] == stsd());
    lemma_descend_step(init, path, movie);
    lemma_descend_step(movie, p1, track);
    lemma_descend_step(track, p2, media_box);
    lemma_descend_step(media_box, p3, info);
    lemma_descend_step(info, p4, samples);
    lemma_descend_step(samples, p5, table);
    assert(descend(table, p6) == Some(table));
}

/// The first box behind the counts of a table.
proof fn lemma_first_entry(counts: Seq<u8>, kind: Seq<u8>, held: Seq<u8>, more: Seq<u8>)
    requires
        counts.len() == 8,
        kind.len() == 4,
        held.len() + 8 <= u32::MAX,
    ensures
        ({
            let table = counts + box_bytes(kind, held) + more;
            let rest = table.subrange(8, table.len() as int);
            table.len() >= 8 && boxes_of(rest).len() > 0 && boxes_of(rest)[0] == (kind, held)
        }),
{
    let entry = box_bytes(kind, held);
    let table = counts + entry + more;
    assert(table.subrange(8, table.len() as int) =~= entry + more);
    law_box_reads_back(kind, held);
    law_boxes_join(entry, more);
    assert(boxes_of(entry + more)[0] == (kind, held));
}

/// The header of a native stream is lifted out of an init segment along the boxes `moov`,
/// `trak`, `mdia`, `minf`, `stbl` and `stsd`. Behind eight bytes the table holds the sample entry,
/// which behind 28 bytes holds the box `dfLa`, which behind four bytes holds the blocks. The
/// header is `fLaC` and those blocks, where they can hold the stream description.
#[verifier::rlimit(40)]
pub proof fn law_the_header_is_lifted_out(
    init: Seq<u8>,
    movie: Seq<u8>,
    track: Seq<u8>,
    media_box: Seq<u8>,
    info: Seq<u8>,
    samples: Seq<u8>,
    counts: Seq<u8>,
    kind: Seq<u8>,
    fixed: Seq<u8>,
    children: Seq<u8>,
    more: Seq<u8>,
    version: Seq<u8>,
    blocks: Seq<u8>,
)
    requires
        child_of(init, seq![0x6du8, 0x6fu8, 0x6fu8, 0x76u8]) == Some(movie),
        child_of(movie, seq![0x74u8, 0x72u8, 0x61u8, 0x6bu8]) == Some(track),
        child_of(track, seq![0x6du8, 0x64u8, 0x69u8, 0x61u8]) == Some(media_box),
        child_of(media_box, seq![0x6du8, 0x69u8, 0x6eu8, 0x66u8]) == Some(info),
        child_of(info, seq![0x73u8, 0x74u8, 0x62u8, 0x6cu8]) == Some(samples),
        child_of(samples, seq![0x73u8, 0x74u8, 0x73u8, 0x64u8]) == Some(
            counts + box_bytes(kind, fixed + children) + more,
        ),
        counts.len() == 8,
        kind.len() == 4,
        fixed.len() == 28,
        (fixed + children).len() + 8 <= u32::MAX,
        child_of(children, seq![0x64u8, 0x66u8, 0x4cu8, 0x61u8]) == Some(version + blocks),
        version.len() == 4,
    ensures
        metadata_of(init) == Some(blocks),
        blocks.len() >= 38 ==> header_of(init) == Some(
            seq![0x66u8, 0x4cu8, 0x61u8, 0x43u8] + marked(blocks),
        ),
        blocks.len() < 38 ==> header_of(init) is None,
{
    let held = fixed + children;
    let table = counts + box_bytes(kind, held) + more;
    assert(moov() =~= seq![0x6du8, 0x6fu8, 0x6fu8, 0x76u8]);
    assert(trak() =~= seq![0x74u8, 0x72u8, 0x61u8, 0x6bu8]);
    assert(mdia() =~= seq![0x6du8, 0x64u8, 0x69u8, 0x61u8]);
    assert(minf() =~= seq![0x6du8, 0x69u8, 0x6eu8, 0x66u8]);
    assert(stbl() =~= seq![0x73u8, 0x74u8, 0x62u8, 0x6cu8]);
    assert(stsd() =~= seq![0x73u8, 0x74u8, 0x73u8, 0x64u8]);
    assert(dfla() =~= seq![0x64u8, 0x66u8, 0x4cu8, 0x61u8]);
    lemma_reach_table(init, movie, track, media_box, info, samples, table);
    lemma_first_entry(counts, kind, held, more);
    assert(held.subrange(28, held.len() as int) =~= children);
    assert((version + blocks).subrange(4, (version + blocks).len() as int) =~= blocks);
}

/// A metadata block: a byte of flags and type, its length in three bytes, and its data.
pub open spec fn block_bytes(flags: u8, data: Seq<u8>) -> Seq<u8> {
    let n = data.len();
    seq![flags, (n / 0x1_0000) as u8, (n / 0x100 % 0x100) as u8, (n % 0x100) as u8] + data
}

/// Metadata blocks in a row.
pub open spec fn run_of_blocks(v: Seq<(u8, Seq<u8>)>) -> Seq<u8>
    decreases v.len(),
{
    if v.len() == 0 {
        Seq::empty()
    } else {
        block_bytes(v[0].0, v[0].1) + run_of_blocks(v.drop_first())
    }
}

proof fn lemma_block_len(flags: u8, data: Seq<u8>, rest: Seq<u8>)
    requires
        data.len() < 0x100_0000,
    ensures
        be_value((block_bytes(flags, data) + rest).subrange(1, 4)) == data.len(),
{
    let s = (block_bytes(flags, data) + rest).subrange(1, 4);
    let n = data.len();
    assert(s[0] == (n / 0x1_0000) as u8 && s[1] == (n / 0x100 % 0x100) as u8 && s[2] == (n % 0x100)
        as u8);
    reveal_with_fuel(be_value, 4);
    assert(s.drop_last().drop_last().drop_last() =~= Seq::empty());
}

proof fn lemma_last_block_behind(a: Seq<u8>, b: Seq<u8>, i: int)
    requires
        0 <= i,
    ensures
        last_block_from(a + b, a.len() + i) == (match last_block_from(b, i) {
            Some(p) => Some(a.len() + p),
            None => None,
        }),
    decreases b.len() - i,
{
    let d = a + b;
    if i + 4 <= b.len() {
        assert(d.subrange(a.len() + i + 1, a.len() + i + 4) =~= b.subrange(i + 1, i + 4));
        let next = i + 4 + be_value(b.subrange(i + 1, i + 4));
        if next + 4 <= b.len() {
            lemma_last_block_behind(a, b, next);
        }
    }
}

/// Of metadata blocks in a row the last one gets its highest bit set, and no other byte changes.
#[verifier::rlimit(40)]
pub proof fn law_blocks_keep_all_but_the_last_flag(v: Seq<(u8, Seq<u8>)>)
    requires
        v.len() > 0,
        forall|i: int| 0 <= i < v.len() ==> (#[trigger] v[i]).1.len() < 0x100_0000,
    ensures
        marked(run_of_blocks(v)) == run_of_blocks(v.drop_last()) + block_bytes(
            v.last().0 | 0x80u8,
            v.last().1,
        ),
    decreases v.len(),
{
    let rest = run_of_blocks(v.drop_first());
    let one = block_bytes(v[0].0, v[0].1);
    let all = one + rest;
    lemma_block_len(v[0].0, v[0].1, rest);
    if v.len() == 1 {
        assert(v.drop_first() =~= Seq::empty());
        assert(rest =~= Seq::empty());
        assert(v.drop_last() =~= Seq::empty());
        assert(all =~= one);
        assert(last_block_from(all, 0) == Some(0int));
        assert(marked(all) =~= run_of_blocks(v.drop_last()) + block_bytes(
            v.last().0 | 0x80u8,
            v.last().1,
        ));
    } else {
        let w = v.drop_first();
        assert forall|i: int| 0 <= i < w.len() implies (#[trigger] w[i]).1.len() < 0x100_0000 by {
            assert(w[i] == v[i + 1]);
        }
        law_blocks_keep_all_but_the_last_flag(w);
        assert(rest.len() >= 4);
        lemma_last_block_behind(one, rest, 0);
        lemma_last_block_bounds(rest, 0);
        assert(last_block_from(all, 0) == last_block_from(all, one.len() as int));
        let p = last_block_from(rest, 0)->0;
        assert(all.update(one.len() + p, flagged(all[one.len() + p])) =~= one + rest.update(
            p,
            flagged(rest[p]),
        ));
        assert(marked(all) == one + marked(rest));
        assert(v.drop_last().drop_first() =~= w.drop_last());
        assert(v.drop_last()[0] == v[0]);
        assert(w.last() == v.last());
        assert(marked(all) =~= run_of_blocks(v.drop_last()) + block_bytes(
            v.last().0 | 0x80u8,
            v.last().1,
        ));
    }
}

/// The bytes of one box with a length of 64 bits: `length` is its whole length, header included.
pub open spec fn large_box_bytes(kind: Seq<u8>, length: Seq<u8>, payload: Seq<u8>) -> Seq<u8> {
    seq![0u8, 0u8, 0u8, 1u8] + kind + length + payload
}

/// A box with a length of 64 bits is read back as its type and its payload, and nothing else.
pub proof fn law_a_large_box_reads_back(kind: Seq<u8>, length: Seq<u8>, payload: Seq<u8>)
    requires
        kind.len() == 4,
        length.len() == 8,
        be_value(length) == payload.len() + 16,
    ensures
        whole(large_box_bytes(kind, length, payload)),
        boxes_of(large_box_bytes(kind, length, payload)) == seq![(kind, payload)],
{
    let d = large_box_bytes(kind, length, payload);
    let n = payload.len() + 16;
    lemma_be4(d.subrange(0, 4));
    assert(d.subrange(8, 16) =~= length);
    assert(declared(d, 0) == Some((16int, n as int)));
    assert(d.len() == n);
    assert(whole_from(d, n as int));
    assert(d.subrange(4, 8) =~= kind);
    assert(d.subrange(16, n as int) =~= payload);
    assert(box_at(d, n as int) is None);
    assert(boxes_from(d, n as int) =~= Seq::empty());
    assert(boxes_from(d, 0) =~= seq![(kind, payload)]);
}

/// A box whose length is zero reaches to the end.
pub proof fn law_a_box_without_length_reaches_to_the_end(kind: Seq<u8>, payload: Seq<u8>)
    requires
        kind.len() == 4,
    ensures
        boxes_of(seq![0u8, 0u8, 0u8, 0u8] + kind + payload) == seq![(kind, payload)],
{
    let d = seq![0u8, 0u8, 0u8, 0u8] + kind + payload;
    lemma_be4(d.subrange(0, 4));
    assert(d.subrange(4, 8) =~= kind);
    assert(d.subrange(8, d.len() as int) =~= payload);
    assert(box_at(d, d.len() as int) is None);
    assert(boxes_from(d, d.len() as int) =~= Seq::empty());
    assert(boxes_from(d, 0) =~= seq![(kind, payload)]);
}

/// A box that is cut off is not read, and the boxes before it are.
pub proof fn law_a_cut_box_ends_the_walk(a: Seq<u8>, kind: Seq<u8>, payload: Seq<u8>, k: int)
    requires
        whole(a),
        kind.len() == 4,
        payload.len() + 8 <= u32::MAX,
        0 <= k < payload.len() + 8,
    ensures
        boxes_of(a + box_bytes(kind, payload).take(k)) == boxes_of(a),
{
    let one = box_bytes(kind, payload);
    let cut = one.take(k);
    law_boxes_join(a, cut);
    if k >= 8 {
        assert(cut.subrange(0, 4) =~= one.subrange(0, 4));
        lemma_be4(one.subrange(0, 4));
        assert(be_value(cut.subrange(0, 4)) == payload.len() + 8);
    }
    assert(box_at(cut, 0) is None);
    assert(boxes_of(a) + boxes_of(cut) =~= boxes_of(a));
}

proof fn lemma_mdat_len_behind(a: Seq<u8>, b: Seq<u8>, i: int)
    requires
        0 <= i <= a.len(),
        whole_from(a, i),
        forall|j: int|
            0 <= j < boxes_from(a, i).len() ==> (#[trigger] boxes_from(a, i)[j]).0 != mdat(),
    ensures
        mdat_len_from(a + b, i) == mdat_len_from(b, 0),
    decreases a.len() - i,
{
    let d = a + b;
    if i == a.len() {
        lemma_mdat_len_shift(a, b, 0);
    } else {
        assert(d.take(a.len() as int) =~= a);
        lemma_declared_prefix(d, a.len() as int, i);
        assert(a.take(a.len() as int) =~= a);
        lemma_declared_prefix(a, a.len() as int, i);
        let (h, t) = declared(a, i).unwrap();
        let rest = boxes_from(a, i + t);
        assert(boxes_from(a, i)[0].0 == kind_at(a, i));
        assert forall|j: int| 0 <= j < rest.len() implies (#[trigger] rest[j]).0 != mdat() by {
            assert(boxes_from(a, i)[j + 1] == rest[j]);
        }
        lemma_mdat_len_behind(a, b, i + t);
    }
}

proof fn lemma_mdat_len_shift(a: Seq<u8>, b: Seq<u8>, j: int)
    requires
        0 <= j <= b.len(),
    ensures
        mdat_len_from(a + b, a.len() + j) == mdat_len_from(b, j),
    decreases b.len() - j,
{
    lemma_declared_shift(a, b, j);
    let d = a + b;
    let i = a.len() + j;
    match declared(b, j) {
        Some((h, t)) => {
            assert(kind_at(d, i) =~= kind_at(b, j));
            if t > 0 && kind_at(b, j) != mdat() && j + t <= b.len() {
                lemma_mdat_len_shift(a, b, j + t);
            }
        },
        None => {},
    }
}

/// The length of the audio is told by the header of its box alone, behind boxes of other types;
/// as long as that header is not there, nothing is told.
#[verifier::rlimit(40)]
pub proof fn law_the_length_is_told_by_the_header(a: Seq<u8>, payload: Seq<u8>, k: int)
    requires
        whole(a),
        forall|j: int|
            0 <= j < boxes_of(a).len() ==> (#[trigger] boxes_of(a)[j]).0 != seq![
                0x6du8,
                0x64u8,
                0x61u8,
                0x74u8,
            ],
        payload.len() + 8 <= u32::MAX,
        0 <= k <= payload.len() + 8,
    ensures
        mdat_len_from(
            a + box_bytes(seq![0x6du8, 0x64u8, 0x61u8, 0x74u8], payload).take(k),
            0,
        ) == if k >= 8 {
            Some(payload.len())
        } else {
            None
        },
{
    let kind = seq![0x6du8, 0x64u8, 0x61u8, 0x74u8];
    let one = box_bytes(kind, payload);
    let cut = one.take(k);
    assert forall|j: int| 0 <= j < boxes_from(a, 0).len() implies (#[trigger] boxes_from(
        a,
        0,
    )[j]).0 != mdat() by {
        assert(boxes_of(a)[j].0 != kind);
    }
    lemma_mdat_len_behind(a, cut, 0);
    lemma_cut_box(kind, payload, k);
}

/// What the start of a box tells of it.
proof fn lemma_cut_box(kind: Seq<u8>, payload: Seq<u8>, k: int)
    requires
        kind.len() == 4,
        payload.len() + 8 <= u32::MAX,
        0 <= k <= payload.len() + 8,
    ensures
        k >= 8 ==> declared(box_bytes(kind, payload).take(k), 0) == Some(
            (8int, payload.len() as int + 8),
        ),
        k >= 8 ==> kind_at(box_bytes(kind, payload).take(k), 0) == kind,
        box_bytes(kind, payload).take(k).len() == k,
{
    let one = box_bytes(kind, payload);
    let cut = one.take(k);
    if k >= 8 {
        assert(cut.subrange(0, 4) =~= one.subrange(0, 4));
        lemma_be4(one.subrange(0, 4));
        assert(cut.subrange(4, 8) =~= kind);
    }
}

/// A box is its length in four bytes, of which the first counts most, then its type, then what it
/// holds; the length counts all of it. The frames of a segment lie in its boxes of type `mdat`.
pub proof fn law_what_a_box_looks_like(kind: Seq<u8>, payload: Seq<u8>)
    requires
        kind.len() == 4,
        payload.len() + 8 <= u32::MAX,
    ensures
        ({
            let b = box_bytes(kind, payload);
            &&& b.len() == payload.len() + 8
            &&& b[0] * 0x100_0000 + b[1] * 0x1_0000 + b[2] * 0x100 + b[3] == b.len()
            &&& b.subrange(4, 8) == kind
            &&& b.subrange(8, b.len() as int) == payload
        }),
        mdat() == seq!['m' as u8, 'd' as u8, 'a' as u8, 't' as u8],
{
    let b = box_bytes(kind, payload);
    assert(b.subrange(4, 8) =~= kind);
    assert(b.subrange(8, b.len() as int) =~= payload);
    assert(mdat() =~= seq!['m' as u8, 'd' as u8, 'a' as u8, 't' as u8]);
}

/// A number of several bytes is written with the byte that counts most first: with one more byte
/// behind it, it counts 256 times as much and that byte.
pub proof fn law_the_first_byte_counts_most(s: Seq<u8>, b: u8)
    ensures
        be_value(s.push(b)) == be_value(s) * 256 + b,
        be_value(Seq::empty()) == 0,
{
    assert(s.push(b).drop_last() =~= s);
}

/// Boxes are their types and what they hold, one for one.
pub proof fn law_boxes_are_what_is_held<'a>(v: Seq<(&'a [u8], &'a [u8])>)
    ensures
        boxed_view(v).len() == v.len(),
        forall|i: int| 0 <= i < v.len() ==> #[trigger] boxed_view(v)[i] == (v[i].0@, v[i].1@),
{
}

} // verus!
