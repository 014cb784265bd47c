//! Modules: units of loaded compiled code exposing named functions.  The
//! module wire format is a small versioned binary blob — magic, version,
//! module name, and a table of exported functions, each with a name and the
//! operation it performs.  The loader validates the header and the exact
//! layout; a blob that does not parse is rejected, never partially loaded.

use vstd::prelude::*;
use crate::status::{StatusError, StatusErrorKind};

verus! {

/// Version of the module wire format this layer reads and writes.
pub const MODULE_FORMAT_VERSION: u32 = 1;

/// Operation code of an exported function that adds two buffers element
/// by element.
pub const OP_ELEMENTWISE_ADD: u32 = 1;

/// Operation code of an exported function that multiplies two buffers
/// element by element.
pub const OP_ELEMENTWISE_MUL: u32 = 2;

/// One exported function of a module: its name and the operation the
/// device driver runs for it.
#[derive(Clone)]
pub struct Export {
    pub name: Vec<u8>,
    pub op: u32,
}

/// A loaded module: a name and its exported functions.
#[derive(Clone)]
pub struct Module {
    pub name: Vec<u8>,
    pub exports: Vec<Export>,
}

/// The mathematical content of an export table: name bytes and operation
/// per export.
pub open spec fn exports_view(es: Seq<Export>) -> Seq<(Seq<u8>, u32)> {
    es.map_values(|e: Export| (e.name@, e.op))
}

/// The four magic bytes that open every module blob.
pub open spec fn magic_spec() -> Seq<u8> {
    seq![0x56u8, 0x4Du8, 0x4Fu8, 0x44u8]
}

/// Little-endian encoding of a 32-bit word.
pub open spec fn le32(x: u32) -> Seq<u8> {
    seq![
        (x & 0xFF) as u8,
        ((x >> 8) & 0xFF) as u8,
        ((x >> 16) & 0xFF) as u8,
        ((x >> 24) & 0xFF) as u8,
    ]
}

/// The 32-bit word four little-endian bytes stand for.
pub open spec fn le32_val(b: Seq<u8>) -> u32 {
    (b[0] + b[1] * 0x100 + b[2] * 0x1_0000 + b[3] * 0x100_0000) as u32
}

/// Decoding the encoding of a word gives the word back.
pub proof fn lemma_le32_round_trip(x: u32)
    ensures
        le32_val(le32(x)) == x,
{
    assert(((x & 0xFF) as u8) as u32 + (((x >> 8) & 0xFF) as u8) as u32 * 0x100 + (((x >> 16)
        & 0xFF) as u8) as u32 * 0x1_0000 + (((x >> 24) & 0xFF) as u8) as u32 * 0x100_0000 == x)
        by (bit_vector);
    assert(((x & 0xFF) as u8) as u32 + (((x >> 8) & 0xFF) as u8) as u32 * 0x100 + (((x >> 16)
        & 0xFF) as u8) as u32 * 0x1_0000 + (((x >> 24) & 0xFF) as u8) as u32 * 0x100_0000
        <= 0xFFFF_FFFF) by (bit_vector);
}

/// Serialized form of one export: name length, name bytes, operation.
pub open spec fn serialize_export_spec(name: Seq<u8>, op: u32) -> Seq<u8> {
    le32(name.len() as u32) + name + le32(op)
}

/// Serialized form of an export table, in order.
pub open spec fn serialize_exports_spec(es: Seq<(Seq<u8>, u32)>) -> Seq<u8>
    decreases es.len(),
{
    if es.len() == 0 {
        Seq::empty()
    } else {
        serialize_exports_spec(es.drop_last()) + serialize_export_spec(
            es.last().0,
            es.last().1,
        )
    }
}

/// The module blob: magic, version, named module, export table.
pub open spec fn serialize_spec(name: Seq<u8>, es: Seq<(Seq<u8>, u32)>) -> Seq<u8> {
    magic_spec() + le32(MODULE_FORMAT_VERSION) + le32(name.len() as u32) + name + le32(
        es.len() as u32,
    ) + serialize_exports_spec(es)
}

/// Whether a module's pieces fit the wire format's length words.
pub open spec fn wf_module(name: Seq<u8>, es: Seq<(Seq<u8>, u32)>) -> bool {
    &&& name.len() <= u32::MAX
    &&& es.len() <= u32::MAX
    &&& forall|i: int| 0 <= i < es.len() ==> (#[trigger] es[i]).0.len() <= u32::MAX
}

/// Reads a little-endian word off the front, when four bytes are there.
pub open spec fn parse_u32_spec(b: Seq<u8>) -> Option<(u32, Seq<u8>)> {
    if b.len() >= 4 {
        Some((le32_val(b), b.skip(4)))
    } else {
        None
    }
}

/// Reads a counted byte string off the front.
pub open spec fn parse_bytes_spec(b: Seq<u8>) -> Option<(Seq<u8>, Seq<u8>)> {
    match parse_u32_spec(b) {
        Some((n, rest)) => if rest.len() >= n {
            Some((rest.subrange(0, n as int), rest.skip(n as int)))
        } else {
            None
        },
        None => None,
    }
}

/// Reads `n` exports off the front.
pub open spec fn parse_exports_spec(b: Seq<u8>, n: nat) -> Option<(Seq<(Seq<u8>, u32)>, Seq<u8>)>
    decreases n,
{
    if n == 0 {
        Some((Seq::empty(), b))
    } else {
        match parse_bytes_spec(b) {
            Some((name, rest1)) => match parse_u32_spec(rest1) {
                Some((op, rest2)) => match parse_exports_spec(rest2, (n - 1) as nat) {
                    Some((es, rest3)) => Some((seq![(name, op)] + es, rest3)),
                    None => None,
                },
                None => None,
            },
            None => None,
        }
    }
}

/// The module a blob stands for: header checked, name and export table
/// read, nothing left over.
pub open spec fn parse_spec(b: Seq<u8>) -> Option<(Seq<u8>, Seq<(Seq<u8>, u32)>)> {
    if b.len() < 8 || b.subrange(0, 4) != magic_spec() || le32_val(b.skip(4)) != (
    MODULE_FORMAT_VERSION) {
        None
    } else {
        match parse_bytes_spec(b.skip(8)) {
            Some((name, rest1)) => match parse_u32_spec(rest1) {
                Some((count, rest2)) => match parse_exports_spec(rest2, count as nat) {
                    Some((es, rest3)) => if rest3.len() == 0 {
                        Some((name, es))
                    } else {
                        None
                    },
                    None => None,
                },
                None => None,
            },
            None => None,
        }
    }
}

/// Appends the little-endian encoding of a word.
fn push_le32(out: &mut Vec<u8>, x: u32)
    ensures
        final(out)@ == old(out)@ + le32(x),
{
    out.push((x & 0xFF) as u8);
    out.push(((x >> 8) & 0xFF) as u8);
    out.push(((x >> 16) & 0xFF) as u8);
    out.push(((x >> 24) & 0xFF) as u8);
    proof {
        assert(out@ =~= old(out)@ + le32(x));
    }
}

/// Appends a byte string.
fn push_bytes(out: &mut Vec<u8>, b: &Vec<u8>)
    ensures
        final(out)@ == old(out)@ + b@,
{
    let n = b.len();
    let mut i: usize = 0;
    while i < n
        invariant
            n == b@.len(),
            0 <= i <= n,
            out@ == old(out)@ + b@.subrange(0, i as int),
        decreases n - i,
    {
        out.push(b[i]);
        proof {
            assert(old(out)@ + b@.subrange(0, i + 1) =~= (old(out)@ + b@.subrange(0, i as int)).push(
                b@[i as int],
            ));
        }
        i = i + 1;
    }
    proof {
        assert(b@.subrange(0, n as int) =~= b@);
    }
}

impl Module {
    /// Whether the module fits the wire format's length words.
    pub open spec fn wf(self) -> bool {
        wf_module(self.name@, exports_view(self.exports@))
    }

    /// Writes the module in its wire format.
    pub fn serialize(&self) -> (r: Vec<u8>)
        requires
            self.wf(),
        ensures
            r@ == serialize_spec(self.name@, exports_view(self.exports@)),
    {
        let mut out: Vec<u8> = Vec::new();
        out.push(0x56);
        out.push(0x4D);
        out.push(0x4F);
        out.push(0x44);
        proof {
            assert(out@ =~= magic_spec());
        }
        push_le32(&mut out, MODULE_FORMAT_VERSION);
        push_le32(&mut out, self.name.len() as u32);
        push_bytes(&mut out, &self.name);
        push_le32(&mut out, self.exports.len() as u32);
        let ghost header = out@;
        let n = self.exports.len();
        let mut i: usize = 0;
        while i < n
            invariant
                n == self.exports@.len(),
                self.wf(),
                0 <= i <= n,
                out@ == header + serialize_exports_spec(
                    exports_view(self.exports@).subrange(0, i as int),
                ),
            decreases n - i,
        {
            let ghost prev = exports_view(self.exports@).subrange(0, i as int);
            let ghost cur = exports_view(self.exports@).subrange(0, i + 1);
            push_le32(&mut out, self.exports[i].name.len() as u32);
            push_bytes(&mut out, &self.exports[i].name);
            push_le32(&mut out, self.exports[i].op);
            proof {
                assert(cur.drop_last() =~= prev);
                assert(cur.last() == exports_view(self.exports@)[i as int]);
                assert(exports_view(self.exports@)[i as int] == (
                    self.exports@[i as int].name@,
                    self.exports@[i as int].op,
                ));
                assert(out@ =~= header + (serialize_exports_spec(prev) + serialize_export_spec(
                    self.exports@[i as int].name@,
                    self.exports@[i as int].op,
                )));
            }
            i = i + 1;
        }
        proof {
            assert(exports_view(self.exports@).subrange(0, n as int) =~= exports_view(
                self.exports@,
            ));
            assert(out@ =~= serialize_spec(self.name@, exports_view(self.exports@)));
        }
        out
    }

    /// Reads a module off its wire format: exactly what `parse_spec` says
    /// the bytes stand for, or nothing when they stand for no module.
    pub fn parse(bytes: &[u8]) -> (r: Option<Module>)
        ensures
            match r {
                Some(m) => parse_spec(bytes@) == Some((m.name@, exports_view(m.exports@)))
                    && m.wf(),
                None => parse_spec(bytes@) is None,
            },
    {
        let len = bytes.len();
        if len < 8 {
            return None;
        }
        let b0 = *vstd::slice::slice_index_get(bytes, 0);
        let b1 = *vstd::slice::slice_index_get(bytes, 1);
        let b2 = *vstd::slice::slice_index_get(bytes, 2);
        let b3 = *vstd::slice::slice_index_get(bytes, 3);
        if b0 != 0x56 || b1 != 0x4D || b2 != 0x4F || b3 != 0x44 {
            proof {
                assert(bytes@.subrange(0, 4) != magic_spec());
            }
            return None;
        }
        proof {
            assert(bytes@.subrange(0, 4) =~= magic_spec());
        }
        let (version, mut off) = match Self::read_u32(bytes, 4) {
            Some(p) => p,
            None => {
                return None;
            },
        };
        if version != MODULE_FORMAT_VERSION {
            return None;
        }
        let (name, off1) = match Self::read_bytes(bytes, off) {
            Some(p) => p,
            None => {
                proof {
                    assert(bytes@.skip(4).skip(4) =~= bytes@.skip(8));
                }
                return None;
            },
        };
        off = off1;
        proof {
            assert(bytes@.skip(4).skip(4) =~= bytes@.skip(8));
        }
        let (count, off2) = match Self::read_u32(bytes, off) {
            Some(p) => p,
            None => {
                return None;
            },
        };
        off = off2;
        let mut exports: Vec<Export> = Vec::new();
        let mut i: u32 = 0;
        #[verifier::loop_isolation(false)]
        while i < count
            invariant
                i <= count,
                off <= bytes@.len(),
                exports@.len() == i,
                forall|k: int| 0 <= k < exports@.len() ==> (#[trigger] exports@[k]).name@.len()
                    <= u32::MAX,
                parse_exports_spec(bytes@.skip(off as int), (count - i) as nat) matches Some((
                    es,
                    rest,
                )) ==> parse_exports_spec(
                    bytes@.skip(off2 as int),
                    count as nat,
                ) == Some::<(Seq<(Seq<u8>, u32)>, Seq<u8>)>((exports_view(exports@) + es, rest)),
                parse_exports_spec(bytes@.skip(off as int), (count - i) as nat) is None
                    ==> parse_exports_spec(bytes@.skip(off2 as int), count as nat) is None,
            decreases count - i,
        {
            let ghost rest_before = bytes@.skip(off as int);
            let (ename, offa) = match Self::read_bytes(bytes, off) {
                Some(p) => p,
                None => {
                    proof {
                        assert(parse_exports_spec(bytes@.skip(off as int), (count - i) as nat)
                            is None);
                    }
                    return None;
                },
            };
            let (op, offb) = match Self::read_u32(bytes, offa) {
                Some(p) => p,
                None => {
                    proof {
                        assert(parse_exports_spec(bytes@.skip(off as int), (count - i) as nat)
                            is None);
                    }
                    return None;
                },
            };
            proof {
                let es_old = exports_view(exports@);
                let rest_after = bytes@.skip(offb as int);
                assert(parse_bytes_spec(rest_before) == Some::<(Seq<u8>, Seq<u8>)>((
                    ename@,
                    bytes@.skip(offa as int),
                )));
                assert(parse_u32_spec(bytes@.skip(offa as int)) == Some::<(u32, Seq<u8>)>((
                    op,
                    rest_after,
                )));
                assert forall|es2: Seq<(Seq<u8>, u32)>, rest2: Seq<u8>|
                    parse_exports_spec(rest_after, (count - i - 1) as nat) == Some::<(
                        Seq<(Seq<u8>, u32)>,
                        Seq<u8>,
                    )>((es2, rest2)) implies parse_exports_spec(
                    bytes@.skip(off2 as int),
                    count as nat,
                ) == Some::<(Seq<(Seq<u8>, u32)>, Seq<u8>)>((
                    (es_old + seq![(ename@, op)]) + es2,
                    rest2,
                )) by {
                    assert(parse_exports_spec(rest_before, (count - i) as nat) == Some::<(
                        Seq<(Seq<u8>, u32)>,
                        Seq<u8>,
                    )>((seq![(ename@, op)] + es2, rest2)));
                    assert(es_old + (seq![(ename@, op)] + es2) =~= (es_old + seq![(ename@, op)])
                        + es2);
                }
            }
            exports.push(Export { name: ename, op });
            proof {
                assert(exports_view(exports@) =~= exports_view(old_exports_with(exports@))
                    + seq![(exports@.last().name@, exports@.last().op)]);
            }
            off = offb;
            i = i + 1;
        }
        if off != len {
            return None;
        }
        proof {
            assert(bytes@.skip(off as int).len() == 0);
            assert(parse_exports_spec(bytes@.skip(off as int), 0) == Some::<(
                Seq<(Seq<u8>, u32)>,
                Seq<u8>,
            )>((Seq::empty(), bytes@.skip(off as int))));
            assert(exports_view(exports@) + Seq::<(Seq<u8>, u32)>::empty() =~= exports_view(
                exports@,
            ));
        }
        Some(Module { name, exports })
    }

    /// Reads the little-endian word at `off`.
    fn read_u32(bytes: &[u8], off: usize) -> (r: Option<(u32, usize)>)
        requires
            off <= bytes@.len(),
        ensures
            match r {
                Some((x, off2)) => parse_u32_spec(bytes@.skip(off as int)) == Some::<(
                    u32,
                    Seq<u8>,
                )>((x, bytes@.skip(off2 as int))) && off2 == off + 4 && off2 <= bytes@.len(),
                None => parse_u32_spec(bytes@.skip(off as int)) is None,
            },
    {
        if bytes.len() - off < 4 {
            return None;
        }
        let b0 = *vstd::slice::slice_index_get(bytes, off);
        let b1 = *vstd::slice::slice_index_get(bytes, off + 1);
        let b2 = *vstd::slice::slice_index_get(bytes, off + 2);
        let b3 = *vstd::slice::slice_index_get(bytes, off + 3);
        let x = (b0 as u32) + (b1 as u32) * 0x100 + (b2 as u32) * 0x1_0000 + (b3 as u32)
            * 0x100_0000;
        proof {
            let rest = bytes@.skip(off as int);
            assert(rest[0] == bytes@[off as int]);
            assert(rest[1] == bytes@[off as int + 1]);
            assert(rest[2] == bytes@[off as int + 2]);
            assert(rest[3] == bytes@[off as int + 3]);
            assert(rest.skip(4) =~= bytes@.skip(off as int + 4));
            assert(b0 < 256 && b1 < 256 && b2 < 256 && b3 < 256);
        }
        Some((x, off + 4))
    }

    /// Reads the counted byte string at `off`.
    fn read_bytes(bytes: &[u8], off: usize) -> (r: Option<(Vec<u8>, usize)>)
        requires
            off <= bytes@.len(),
        ensures
            match r {
                Some((b, off2)) => parse_bytes_spec(bytes@.skip(off as int)) == Some::<(
                    Seq<u8>,
                    Seq<u8>,
                )>((b@, bytes@.skip(off2 as int))) && off2 <= bytes@.len() && b@.len()
                    <= u32::MAX,
                None => parse_bytes_spec(bytes@.skip(off as int)) is None,
            },
    {
        let (n, off1) = match Self::read_u32(bytes, off) {
            Some(p) => p,
            None => {
                return None;
            },
        };
        if (bytes.len() - off1) < (n as usize) {
            return None;
        }
        let taken = vstd::slice::slice_to_vec(
            vstd::slice::slice_subrange(bytes, off1, off1 + (n as usize)),
        );
        proof {
            let rest1 = bytes@.skip(off1 as int);
            assert(rest1.subrange(0, n as int) =~= bytes@.subrange(
                off1 as int,
                off1 as int + n as int,
            ));
            assert(rest1.skip(n as int) =~= bytes@.skip(off1 as int + n as int));
        }
        Some((taken, off1 + (n as usize)))
    }
}

/// Helper naming the export list before its last push, for the parser's
/// bookkeeping.
pub open spec fn old_exports_with(es: Seq<Export>) -> Seq<Export> {
    es.drop_last()
}

/// A well-formed module read back from its own wire form is itself: the
/// format loses nothing.
#[verifier::rlimit(60)]
pub proof fn lemma_serialize_parse_round_trip(name: Seq<u8>, es: Seq<(Seq<u8>, u32)>)
    requires
        wf_module(name, es),
    ensures
        parse_spec(serialize_spec(name, es)) == Some((name, es)),
{
    let b = serialize_spec(name, es);
    lemma_le32_round_trip(MODULE_FORMAT_VERSION);
    lemma_le32_round_trip(name.len() as u32);
    lemma_le32_round_trip(es.len() as u32);
    assert(b.subrange(0, 4) =~= magic_spec());
    assert(b.skip(4).subrange(0, 4) =~= le32(MODULE_FORMAT_VERSION));
    lemma_le32_val_prefix(b.skip(4), le32(MODULE_FORMAT_VERSION));
    let b8 = le32(name.len() as u32) + (name + (le32(es.len() as u32) + serialize_exports_spec(
        es,
    )));
    assert(b.skip(8) =~= b8);
    assert(b8.subrange(0, 4) =~= le32(name.len() as u32));
    lemma_le32_val_prefix(b8, le32(name.len() as u32));
    assert(b8.len() >= 4);
    assert(b8.skip(4) =~= name + (le32(es.len() as u32) + serialize_exports_spec(es)));
    let r1 = name + (le32(es.len() as u32) + serialize_exports_spec(es));
    assert(r1.subrange(0, name.len() as int) =~= name);
    assert(r1.skip(name.len() as int) =~= le32(es.len() as u32) + serialize_exports_spec(es));
    let r2 = le32(es.len() as u32) + serialize_exports_spec(es);
    assert(r2.subrange(0, 4) =~= le32(es.len() as u32));
    lemma_le32_val_prefix(r2, le32(es.len() as u32));
    assert(r2.skip(4) =~= serialize_exports_spec(es));
    lemma_parse_exports_round_trip(es, Seq::empty());
    assert(serialize_exports_spec(es) + Seq::<u8>::empty() =~= serialize_exports_spec(es));
}

/// Reading a word off a sequence that starts with its encoding gives the
/// word and the tail.
pub proof fn lemma_le32_val_prefix(b: Seq<u8>, enc: Seq<u8>)
    requires
        enc.len() == 4,
        b.len() >= 4,
        b.subrange(0, 4) == enc,
    ensures
        le32_val(b) == le32_val(enc),
{
    assert(b[0] == enc[0] && b[1] == enc[1] && b[2] == enc[2] && b[3] == enc[3]);
}

/// Reading an export table off its own serialization followed by anything
/// consumes exactly the table.
#[verifier::rlimit(60)]
pub proof fn lemma_parse_exports_round_trip(es: Seq<(Seq<u8>, u32)>, tail: Seq<u8>)
    requires
        forall|i: int| 0 <= i < es.len() ==> (#[trigger] es[i]).0.len() <= u32::MAX,
    ensures
        parse_exports_spec(serialize_exports_spec(es) + tail, es.len()) == Some((es, tail)),
    decreases es.len(),
{
    if es.len() == 0 {
        assert(serialize_exports_spec(es) + tail =~= tail);
        assert(parse_exports_spec(tail, 0) == Some::<(Seq<(Seq<u8>, u32)>, Seq<u8>)>((
            Seq::empty(),
            tail,
        )));
        assert(Seq::<(Seq<u8>, u32)>::empty() =~= es);
    } else {
        let head = es[0];
        let rest = es.drop_first();
        lemma_serialize_exports_drop_first(es);
        let b = serialize_exports_spec(es) + tail;
        assert(b =~= serialize_export_spec(head.0, head.1) + (serialize_exports_spec(rest)
            + tail));
        let after_head = serialize_exports_spec(rest) + tail;
        lemma_le32_round_trip(head.0.len() as u32);
        lemma_le32_round_trip(head.1);
        let enc = serialize_export_spec(head.0, head.1);
        assert(b.subrange(0, 4) =~= le32(head.0.len() as u32));
        lemma_le32_val_prefix(b, le32(head.0.len() as u32));
        assert(b.skip(4) =~= head.0 + (le32(head.1) + after_head));
        let r1 = head.0 + (le32(head.1) + after_head);
        assert(r1.subrange(0, head.0.len() as int) =~= head.0);
        assert(r1.skip(head.0.len() as int) =~= le32(head.1) + after_head);
        let r2 = le32(head.1) + after_head;
        assert(r2.subrange(0, 4) =~= le32(head.1));
        lemma_le32_val_prefix(r2, le32(head.1));
        assert(r2.skip(4) =~= after_head);
        assert(forall|i: int| 0 <= i < rest.len() ==> (#[trigger] rest[i]).0.len() <= u32::MAX)
            by {
            assert(forall|i: int| 0 <= i < rest.len() ==> rest[i] == #[trigger] es[i + 1]);
        }
        lemma_parse_exports_round_trip(rest, tail);
        assert(seq![(head.0, head.1)] + rest =~= es);
        assert((head.0, head.1) == head);
    }
}

/// Serializing an export table is serializing its head and then the rest.
pub proof fn lemma_serialize_exports_drop_first(es: Seq<(Seq<u8>, u32)>)
    requires
        es.len() > 0,
    ensures
        serialize_exports_spec(es) == serialize_export_spec(es[0].0, es[0].1)
            + serialize_exports_spec(es.drop_first()),
    decreases es.len(),
{
    if es.len() == 1 {
        assert(es.drop_last() =~= Seq::<(Seq<u8>, u32)>::empty());
        assert(es.drop_first() =~= Seq::<(Seq<u8>, u32)>::empty());
        assert(serialize_exports_spec(es) == serialize_exports_spec(es.drop_last())
            + serialize_export_spec(es.last().0, es.last().1));
        assert(serialize_exports_spec(Seq::empty()) + serialize_export_spec(es[0].0, es[0].1)
            =~= serialize_export_spec(es[0].0, es[0].1) + serialize_exports_spec(
            Seq::empty(),
        ));
        assert(es.last() == es[0]);
    } else {
        lemma_serialize_exports_drop_first(es.drop_last());
        assert(es.drop_last()[0] == es[0]);
        assert(es.drop_first().drop_last() =~= es.drop_last().drop_first());
        assert(es.drop_first().last() == es.last());
        assert(serialize_exports_spec(es.drop_first()) == serialize_exports_spec(
            es.drop_first().drop_last(),
        ) + serialize_export_spec(es.drop_first().last().0, es.drop_first().last().1));
        assert(serialize_export_spec(es[0].0, es[0].1) + serialize_exports_spec(es.drop_first())
            =~= (serialize_export_spec(es[0].0, es[0].1) + serialize_exports_spec(
            es.drop_last().drop_first(),
        )) + serialize_export_spec(es.last().0, es.last().1));
    }
}


/// Describes the imports, exports and capabilities of a module.
pub struct ModuleSignature {
    pub version: u32,
    pub attr_count: usize,
    pub import_function_count: usize,
    pub export_function_count: usize,
    pub internal_function_count: usize,
}

impl ModuleSignature {
    /// Module version.
    pub fn get_version(&self) -> (r: u32)
        ensures
            r == self.version,
    {
        self.version
    }

    /// Total number of module-level attributes.
    pub fn attr_count(&self) -> (r: usize)
        ensures
            r == self.attr_count,
    {
        self.attr_count
    }

    /// Total number of imported functions.
    pub fn import_function_count(&self) -> (r: usize)
        ensures
            r == self.import_function_count,
    {
        self.import_function_count
    }

    /// Total number of exported functions.
    pub fn export_function_count(&self) -> (r: usize)
        ensures
            r == self.export_function_count,
    {
        self.export_function_count
    }

    /// Total number of internal functions.
    pub fn internal_function_count(&self) -> (r: usize)
        ensures
            r == self.internal_function_count,
    {
        self.internal_function_count
    }
}

impl Module {
    /// The name of the module, used during resolution.
    pub fn name(&self) -> (r: &Vec<u8>)
        ensures
            r@ == self.name@,
    {
        &self.name
    }

    /// The signature of the module describing the contents.  The wire
    /// format carries exported functions only: nothing is imported,
    /// internal or attributed.
    pub fn signature(&self) -> (r: ModuleSignature)
        ensures
            r.version == MODULE_FORMAT_VERSION,
            r.attr_count == 0,
            r.import_function_count == 0,
            r.export_function_count == self.exports@.len(),
            r.internal_function_count == 0,
    {
        ModuleSignature {
            version: MODULE_FORMAT_VERSION,
            attr_count: 0,
            import_function_count: 0,
            export_function_count: self.exports.len(),
            internal_function_count: 0,
        }
    }

    /// A value for the given reflection attribute, if found.  The wire
    /// format carries no attributes, so no key is ever found.
    pub fn lookup_attr_by_name<'a>(&'a self, key: &str) -> (r: Option<&'a str>)
        ensures
            r is None,
    {
        None
    }
}

/// The calling-convention string of an operation: the elementwise
/// operations take two references and produce one.
pub open spec fn op_cconv_spec(op: u32) -> Seq<u8> {
    if op == OP_ELEMENTWISE_ADD || op == OP_ELEMENTWISE_MUL {
        // "0rr_r"
        seq![0x30u8, 0x72u8, 0x72u8, 0x5Fu8, 0x72u8]
    } else {
        // "0v"
        seq![0x30u8, 0x76u8]
    }
}

/// A lightweight descriptor of one exported function, valid while the
/// module it was resolved from lives.
pub struct Function<'a> {
    pub module: &'a Module,
    pub ordinal: usize,
}

impl<'a> Function<'a> {
    /// The ordinal names an export of the module.
    pub open spec fn wf(self) -> bool {
        self.ordinal < self.module.exports@.len()
    }

    /// The name of the function, used during resolution.
    pub fn name(&self) -> (r: &Vec<u8>)
        requires
            self.wf(),
        ensures
            r@ == self.module.exports@[self.ordinal as int].name@,
    {
        &self.module.exports[self.ordinal].name
    }

    /// The operation this export performs.
    pub fn op(&self) -> (r: u32)
        requires
            self.wf(),
        ensures
            r == self.module.exports@[self.ordinal as int].op,
    {
        self.module.exports[self.ordinal].op
    }

    /// The signature of the function, carrying its calling-convention
    /// string.
    pub fn signature(&self) -> (r: FunctionSignature)
        requires
            self.wf(),
        ensures
            r.cconv@ == op_cconv_spec(self.module.exports@[self.ordinal as int].op),
    {
        let op = self.module.exports[self.ordinal].op;
        let mut cconv: Vec<u8> = Vec::new();
        if op == OP_ELEMENTWISE_ADD || op == OP_ELEMENTWISE_MUL {
            cconv.push(0x30);
            cconv.push(0x72);
            cconv.push(0x72);
            cconv.push(0x5F);
            cconv.push(0x72);
            proof {
                assert(cconv@ =~= op_cconv_spec(self.module.exports@[self.ordinal as int].op));
            }
        } else {
            cconv.push(0x30);
            cconv.push(0x76);
            proof {
                assert(cconv@ =~= op_cconv_spec(self.module.exports@[self.ordinal as int].op));
            }
        }
        FunctionSignature { cconv }
    }

    /// A value for the given reflection attribute, if found.  The wire
    /// format carries no attributes, so no key is ever found.
    pub fn lookup_attr_by_name<'b>(&'b self, key: &str) -> (r: Option<&'b str>)
        ensures
            r is None,
    {
        None
    }

    /// A reflection attribute by index; with no attributes in the wire
    /// format, every index is out of range.
    pub fn get_attr(&self, index: usize) -> (r: Result<(Vec<u8>, Vec<u8>), StatusError>)
        ensures
            r matches Err(e) && e.wf() && e.kind_spec() == (StatusErrorKind::OutOfRange),
    {
        Err(StatusError::from_kind(StatusErrorKind::OutOfRange))
    }
}

/// First position of an underscore at or after `i`, or the length.
pub open spec fn find_underscore(s: Seq<u8>, i: int) -> int
    decreases s.len() - i when 0 <= i <= s.len()
{
    if i >= s.len() {
        s.len() as int
    } else if s[i] == 0x5F {
        i
    } else {
        find_underscore(s, i + 1)
    }
}

/// The argument and result fragments of a calling-convention string: after
/// the leading version byte, the part before the underscore describes the
/// arguments and the part after it the results; a lone `v` part means
/// none.  An empty string has no values either way; any other leading
/// version is not understood.
pub open spec fn cconv_fragments_spec(s: Seq<u8>) -> Option<(Seq<u8>, Seq<u8>)> {
    if s.len() == 0 {
        Some((Seq::empty(), Seq::empty()))
    } else if s[0] != 0x30 {
        None
    } else {
        let body = s.skip(1);
        let cut = find_underscore(body, 0);
        let args0 = body.subrange(0, cut);
        let results0 = if cut < body.len() {
            body.skip(cut + 1)
        } else {
            Seq::<u8>::empty()
        };
        let args = if args0 == seq![0x76u8] {
            Seq::<u8>::empty()
        } else {
            args0
        };
        let results = if results0 == seq![0x76u8] {
            Seq::<u8>::empty()
        } else {
            results0
        };
        Some((args, results))
    }
}

/// The signature of a function: its calling-convention string.
pub struct FunctionSignature {
    pub cconv: Vec<u8>,
}

impl FunctionSignature {
    /// Splits the calling convention into its argument and result
    /// fragments; a version this layer does not understand is rejected.
    pub fn get_cconv_fragments(&self) -> (r: Result<(Vec<u8>, Vec<u8>), StatusError>)
        ensures
            match r {
                Ok((a, b)) => cconv_fragments_spec(self.cconv@) == Some((a@, b@)),
                Err(e) => cconv_fragments_spec(self.cconv@) is None && e.wf() && e.kind_spec()
                    == (StatusErrorKind::InvalidArgument),
            },
    {
        let n = self.cconv.len();
        if n == 0 {
            return Ok((Vec::new(), Vec::new()));
        }
        if self.cconv[0] != 0x30 {
            return Err(StatusError::from_kind(StatusErrorKind::InvalidArgument));
        }
        let ghost body = self.cconv@.skip(1);
        let mut cut: usize = 1;
        while cut < n
            invariant
                1 <= cut <= n,
                n == self.cconv@.len(),
                body == self.cconv@.skip(1),
                forall|j: int| 1 <= j < cut ==> self.cconv@[j] != 0x5F,
                find_underscore(body, 0) == find_underscore(body, cut - 1),
            ensures
                1 <= cut <= n,
                n == self.cconv@.len(),
                body == self.cconv@.skip(1),
                find_underscore(body, 0) == find_underscore(body, cut - 1),
                cut < n ==> self.cconv@[cut as int] == 0x5F,
            decreases n - cut,
        {
            proof {
                assert(body[cut - 1] == self.cconv@[cut as int]);
            }
            if self.cconv[cut] == 0x5F {
                break ;
            }
            cut = cut + 1;
        }
        proof {
            if cut < n {
                assert(body[cut - 1] == self.cconv@[cut as int]);
            }
            assert(find_underscore(body, 0) == cut - 1);
        }
        let args_slice = vstd::slice::slice_to_vec(
            vstd::slice::slice_subrange(self.cconv.as_slice(), 1, cut),
        );
        let results_slice: Vec<u8> = if cut < n {
            vstd::slice::slice_to_vec(
                vstd::slice::slice_subrange(self.cconv.as_slice(), cut + 1, n),
            )
        } else {
            Vec::new()
        };
        proof {
            assert(args_slice@ =~= body.subrange(0, cut - 1));
            if cut < n {
                assert(results_slice@ =~= body.skip(cut as int));
            }
        }
        let args = if args_slice.len() == 1 && args_slice[0] == 0x76 {
            proof {
                assert(args_slice@ =~= seq![0x76u8]);
            }
            Vec::new()
        } else {
            proof {
                assert(args_slice@.len() == 1 && args_slice@[0] == 0x76 ==> args_slice@ =~= seq![
                    0x76u8,
                ]);
            }
            args_slice
        };
        let results = if results_slice.len() == 1 && results_slice[0] == 0x76 {
            proof {
                assert(results_slice@ =~= seq![0x76u8]);
            }
            Vec::new()
        } else {
            proof {
                assert(results_slice@.len() == 1 && results_slice@[0] == 0x76 ==> results_slice@
                    =~= seq![0x76u8]);
            }
            results_slice
        };
        Ok((args, results))
    }

    /// Whether the calling convention carries a variadic span marker.
    pub fn is_variadic_cconv(&self) -> (r: bool)
        ensures
            r <==> exists|j: int| 0 <= j < self.cconv@.len() && self.cconv@[j] == 0x43,
    {
        let n = self.cconv.len();
        let mut i: usize = 0;
        while i < n
            invariant
                0 <= i <= n,
                n == self.cconv@.len(),
                forall|j: int| 0 <= j < i ==> self.cconv@[j] != 0x43,
            decreases n - i,
        {
            if self.cconv[i] == 0x43 {
                return true;
            }
            i = i + 1;
        }
        false
    }
}

} // verus!
