use vstd::prelude::*;
use vstd::utf8::{valid_utf8, decode_utf8, encode_utf8};
use crate::word::{Word, lemma_word_parts};
use crate::opcode::{
    Opcode, OpcodeType, OpcodeView, program_view, strings_view, lemma_code_round_trip,
};

verus! {

broadcast use vstd::utf8::group_utf8_lib;

// An image is the program written out in order, little-endian:
//   count of instructions (8 bytes), then for each instruction
//   its kind code (4 bytes);
//   its immediate: one byte 0 for none, else one byte 1 + tag and the
//   8-byte payload;
//   the count of register names (8 bytes), then each name as its UTF-8
//   length (8 bytes) and bytes.

/// Eight little-endian bytes of `v`.
pub open spec fn le8(v: u64) -> Seq<u8> {
    seq![
        v as u8,
        (v >> 8u64) as u8,
        (v >> 16u64) as u8,
        (v >> 24u64) as u8,
        (v >> 32u64) as u8,
        (v >> 40u64) as u8,
        (v >> 48u64) as u8,
        (v >> 56u64) as u8,
    ]
}

/// The value of eight little-endian bytes.
#[verifier::opaque]
pub open spec fn from_le8(b: Seq<u8>) -> u64 {
    (b[0] as u64) | ((b[1] as u64) << 8u64) | ((b[2] as u64) << 16u64) | ((b[3] as u64) << 24u64)
        | ((b[4] as u64) << 32u64) | ((b[5] as u64) << 40u64) | ((b[6] as u64) << 48u64) | ((
    b[7] as u64) << 56u64)
}

/// Four little-endian bytes of `v`.
pub open spec fn le4(v: u32) -> Seq<u8> {
    seq![v as u8, (v >> 8u32) as u8, (v >> 16u32) as u8, (v >> 24u32) as u8]
}

/// The value of four little-endian bytes.
#[verifier::opaque]
pub open spec fn from_le4(b: Seq<u8>) -> u32 {
    (b[0] as u32) | ((b[1] as u32) << 8u32) | ((b[2] as u32) << 16u32) | ((b[3] as u32) << 24u32)
}

pub proof fn lemma_le8(v: u64)
    ensures
        from_le8(le8(v)) == v,
{
    reveal(from_le8);
    assert(((v as u8) as u64) | ((((v >> 8u64) as u8) as u64) << 8u64) | ((((v >> 16u64) as u8) as u64)
        << 16u64) | ((((v >> 24u64) as u8) as u64) << 24u64) | ((((v >> 32u64) as u8) as u64)
        << 32u64) | ((((v >> 40u64) as u8) as u64) << 40u64) | ((((v >> 48u64) as u8) as u64)
        << 48u64) | ((((v >> 56u64) as u8) as u64) << 56u64) == v) by (bit_vector);
}

pub proof fn lemma_le4(v: u32)
    ensures
        from_le4(le4(v)) == v,
{
    reveal(from_le4);
    assert(((v as u8) as u32) | ((((v >> 8u32) as u8) as u32) << 8u32) | ((((v >> 16u32) as u8) as u32)
        << 16u32) | ((((v >> 24u32) as u8) as u32) << 24u32) == v) by (bit_vector);
}

pub open spec fn encode_name(s: Seq<char>) -> Seq<u8> {
    le8(encode_utf8(s).len() as u64) + encode_utf8(s)
}

pub open spec fn encode_names(ns: Seq<Seq<char>>) -> Seq<u8>
    decreases ns.len(),
{
    if ns.len() == 0 {
        Seq::empty()
    } else {
        encode_names(ns.drop_last()) + encode_name(ns.last())
    }
}

pub open spec fn encode_operand(o: Option<Word>) -> Seq<u8> {
    match o {
        None => seq![0u8],
        Some(w) => seq![(w.tag_spec() + 1) as u8] + le8(w.bits_spec()),
    }
}

pub open spec fn encode_opcode(op: OpcodeView) -> Seq<u8> {
    le4(op.op_type.code_spec()) + encode_operand(op.op_operand) + le8(op.op_regs.len() as u64)
        + encode_names(op.op_regs)
}

pub open spec fn encode_opcodes(ops: Seq<OpcodeView>) -> Seq<u8>
    decreases ops.len(),
{
    if ops.len() == 0 {
        Seq::empty()
    } else {
        encode_opcodes(ops.drop_last()) + encode_opcode(ops.last())
    }
}

/// The image of a program.
pub open spec fn encode_image(p: Seq<OpcodeView>) -> Seq<u8> {
    le8(p.len() as u64) + encode_opcodes(p)
}

pub open spec fn take_u64(b: Seq<u8>, pos: int) -> Option<(u64, int)> {
    if 0 <= pos && pos + 8 <= b.len() {
        Some((from_le8(b.subrange(pos, pos + 8)), pos + 8))
    } else {
        None
    }
}

pub open spec fn take_u32(b: Seq<u8>, pos: int) -> Option<(u32, int)> {
    if 0 <= pos && pos + 4 <= b.len() {
        Some((from_le4(b.subrange(pos, pos + 4)), pos + 4))
    } else {
        None
    }
}

pub open spec fn take_name(b: Seq<u8>, pos: int) -> Option<(Seq<char>, int)> {
    match take_u64(b, pos) {
        None => None,
        Some((n, p)) => if p + n <= b.len() && valid_utf8(b.subrange(p, p + n)) {
            Some((decode_utf8(b.subrange(p, p + n)), p + n))
        } else {
            None
        },
    }
}

pub open spec fn take_names(b: Seq<u8>, pos: int, n: nat) -> Option<(Seq<Seq<char>>, int)>
    decreases n,
{
    if n == 0 {
        Some((Seq::empty(), pos))
    } else {
        match take_name(b, pos) {
            None => None,
            Some((s, p)) => match take_names(b, p, (n - 1) as nat) {
                None => None,
                Some((rest, q)) => Some((seq![s] + rest, q)),
            },
        }
    }
}

pub open spec fn take_operand(b: Seq<u8>, pos: int) -> Option<(Option<Word>, int)> {
    if 0 <= pos < b.len() {
        let t = b[pos];
        if t == 0 {
            Some((None, pos + 1))
        } else if t <= 4 {
            match take_u64(b, pos + 1) {
                None => None,
                Some((v, p)) => Some((Some(Word::from_parts_spec((t - 1) as u8, v)), p)),
            }
        } else {
            None
        }
    } else {
        None
    }
}

pub open spec fn take_opcode(b: Seq<u8>, pos: int) -> Option<(OpcodeView, int)> {
    match take_u32(b, pos) {
        None => None,
        Some((c, at_operand)) => match OpcodeType::from_code_spec(c) {
            None => None,
            Some(t) => match take_operand(b, at_operand) {
                None => None,
                Some((o, at_count)) => match take_u64(b, at_count) {
                    None => None,
                    Some((n, at_names)) => match take_names(b, at_names, n as nat) {
                        None => None,
                        Some((ns, at_end)) => Some((OpcodeView { op_type: t, op_operand: o, op_regs: ns }, at_end)),
                    },
                },
            },
        },
    }
}

pub open spec fn take_opcodes(b: Seq<u8>, pos: int, n: nat) -> Option<(Seq<OpcodeView>, int)>
    decreases n,
{
    if n == 0 {
        Some((Seq::empty(), pos))
    } else {
        match take_opcode(b, pos) {
            None => None,
            Some((op, p)) => match take_opcodes(b, p, (n - 1) as nat) {
                None => None,
                Some((rest, q)) => Some((seq![op] + rest, q)),
            },
        }
    }
}

/// The program that an image holds, when the bytes are one whole image.
pub open spec fn decode_image(b: Seq<u8>) -> Option<Seq<OpcodeView>> {
    match take_u64(b, 0) {
        None => None,
        Some((n, p)) => match take_opcodes(b, p, n as nat) {
            None => None,
            Some((ops, q)) => if q == b.len() {
                Some(ops)
            } else {
                None
            },
        },
    }
}

/// Every count and length of the program fits in eight bytes.
pub open spec fn image_fits(p: Seq<OpcodeView>) -> bool {
    &&& p.len() <= u64::MAX
    &&& forall|i: int|
        0 <= i < p.len() ==> {
            &&& (#[trigger] p[i]).op_regs.len() <= u64::MAX
            &&& forall|k: int|
                0 <= k < p[i].op_regs.len() ==> encode_utf8(#[trigger] p[i].op_regs[k]).len()
                    <= u64::MAX
        }
}

proof fn lemma_take_u64(pre: Seq<u8>, v: u64, post: Seq<u8>)
    ensures
        take_u64(pre + le8(v) + post, pre.len() as int) == Some((v, pre.len() + 8int)),
{
    let b = pre + le8(v) + post;
    assert(b.subrange(pre.len() as int, pre.len() + 8int) =~= le8(v));
    lemma_le8(v);
}

proof fn lemma_take_u32(pre: Seq<u8>, v: u32, post: Seq<u8>)
    ensures
        take_u32(pre + le4(v) + post, pre.len() as int) == Some((v, pre.len() + 4int)),
{
    let b = pre + le4(v) + post;
    assert(b.subrange(pre.len() as int, pre.len() + 4int) =~= le4(v));
    lemma_le4(v);
}

proof fn lemma_take_name(pre: Seq<u8>, s: Seq<char>, post: Seq<u8>)
    requires
        encode_utf8(s).len() <= u64::MAX,
    ensures
        take_name(pre + encode_name(s) + post, pre.len() as int) == Some(
            (s, (pre.len() + encode_name(s).len()) as int),
        ),
{
    let e = encode_utf8(s);
    let b = pre + encode_name(s) + post;
    assert(b =~= pre + le8(e.len() as u64) + (e + post));
    lemma_take_u64(pre, e.len() as u64, e + post);
    let p = pre.len() + 8int;
    assert(b.subrange(p, p + e.len()) =~= e);
}

proof fn lemma_encode_names_front(ns: Seq<Seq<char>>)
    requires
        ns.len() > 0,
    ensures
        encode_names(ns) == encode_name(ns[0]) + encode_names(ns.drop_first()),
    decreases ns.len(),
{
    if ns.len() == 1 {
        assert(ns.drop_last() =~= Seq::<Seq<char>>::empty());
        assert(ns.drop_first() =~= Seq::<Seq<char>>::empty());
        assert(encode_names(ns) =~= encode_name(ns[0]) + encode_names(ns.drop_first()));
    } else {
        lemma_encode_names_front(ns.drop_last());
        assert(ns.drop_last().drop_first() =~= ns.drop_first().drop_last());
        assert(ns.drop_first().last() == ns.last());
        assert(ns.drop_last()[0] == ns[0]);
        assert(encode_names(ns) =~= encode_name(ns[0]) + encode_names(ns.drop_first()));
    }
}

proof fn lemma_take_names(pre: Seq<u8>, ns: Seq<Seq<char>>, post: Seq<u8>)
    requires
        forall|k: int| 0 <= k < ns.len() ==> encode_utf8(#[trigger] ns[k]).len() <= u64::MAX,
    ensures
        take_names(pre + encode_names(ns) + post, pre.len() as int, ns.len()) == Some(
            (ns, (pre.len() + encode_names(ns).len()) as int),
        ),
    decreases ns.len(),
{
    if ns.len() == 0 {
        assert(ns =~= Seq::<Seq<char>>::empty());
    } else {
        lemma_encode_names_front(ns);
        let rest = ns.drop_first();
        let pre2 = pre + encode_name(ns[0]);
        assert(pre + encode_names(ns) + post =~= pre + encode_name(ns[0]) + (encode_names(rest)
            + post));
        lemma_take_name(pre, ns[0], encode_names(rest) + post);
        assert(pre + encode_names(ns) + post =~= pre2 + encode_names(rest) + post);
        assert forall|k: int| 0 <= k < rest.len() implies encode_utf8(#[trigger] rest[k]).len()
            <= u64::MAX by {
            assert(rest[k] == ns[k + 1]);
        }
        lemma_take_names(pre2, rest, post);
        assert(seq![ns[0]] + rest =~= ns);
    }
}

proof fn lemma_take_opcode(pre: Seq<u8>, op: OpcodeView, post: Seq<u8>)
    requires
        op.op_regs.len() <= u64::MAX,
        forall|k: int| 0 <= k < op.op_regs.len() ==> encode_utf8(#[trigger] op.op_regs[k]).len()
            <= u64::MAX,
    ensures
        take_opcode(pre + encode_opcode(op) + post, pre.len() as int) == Some(
            (op, (pre.len() + encode_opcode(op).len()) as int),
        ),
{
    let b = pre + encode_opcode(op) + post;
    let c = op.op_type.code_spec();
    let eo = encode_operand(op.op_operand);
    let n = op.op_regs.len() as u64;
    let en = encode_names(op.op_regs);
    assert(b =~= pre + le4(c) + (eo + le8(n) + en + post));
    lemma_take_u32(pre, c, eo + le8(n) + en + post);
    lemma_code_round_trip(op.op_type);
    let at_operand = pre.len() + 4int;
    let pre1 = pre + le4(c);
    match op.op_operand {
        None => {
            assert(b[at_operand] == 0u8);
        },
        Some(w) => {
            assert(b[at_operand] == (w.tag_spec() + 1) as u8);
            assert(b =~= (pre1 + seq![(w.tag_spec() + 1) as u8]) + le8(w.bits_spec()) + (le8(n) + en
                + post));
            lemma_take_u64(pre1 + seq![(w.tag_spec() + 1) as u8], w.bits_spec(), le8(n) + en + post);
            lemma_word_parts(w);
        },
    }
    let pre2 = pre1 + eo;
    assert(b =~= pre2 + le8(n) + (en + post));
    lemma_take_u64(pre2, n, en + post);
    let pre3 = pre2 + le8(n);
    assert(b =~= pre3 + en + post);
    lemma_take_names(pre3, op.op_regs, post);
}

proof fn lemma_encode_opcodes_front(ops: Seq<OpcodeView>)
    requires
        ops.len() > 0,
    ensures
        encode_opcodes(ops) == encode_opcode(ops[0]) + encode_opcodes(ops.drop_first()),
    decreases ops.len(),
{
    if ops.len() == 1 {
        assert(ops.drop_last() =~= Seq::<OpcodeView>::empty());
        assert(ops.drop_first() =~= Seq::<OpcodeView>::empty());
        assert(encode_opcodes(ops) =~= encode_opcode(ops[0]) + encode_opcodes(ops.drop_first()));
    } else {
        lemma_encode_opcodes_front(ops.drop_last());
        assert(ops.drop_last().drop_first() =~= ops.drop_first().drop_last());
        assert(ops.drop_first().last() == ops.last());
        assert(ops.drop_last()[0] == ops[0]);
        assert(encode_opcodes(ops) =~= encode_opcode(ops[0]) + encode_opcodes(ops.drop_first()));
    }
}

proof fn lemma_take_opcodes(pre: Seq<u8>, ops: Seq<OpcodeView>, post: Seq<u8>)
    requires
        image_fits(ops),
    ensures
        take_opcodes(pre + encode_opcodes(ops) + post, pre.len() as int, ops.len()) == Some(
            (ops, (pre.len() + encode_opcodes(ops).len()) as int),
        ),
    decreases ops.len(),
{
    if ops.len() == 0 {
        assert(ops =~= Seq::<OpcodeView>::empty());
    } else {
        lemma_encode_opcodes_front(ops);
        let rest = ops.drop_first();
        let pre2 = pre + encode_opcode(ops[0]);
        assert(pre + encode_opcodes(ops) + post =~= pre + encode_opcode(ops[0]) + (encode_opcodes(
            rest,
        ) + post));
        assert(ops[0] == ops[0]);
        lemma_take_opcode(pre, ops[0], encode_opcodes(rest) + post);
        assert(pre + encode_opcodes(ops) + post =~= pre2 + encode_opcodes(rest) + post);
        assert forall|i: int| 0 <= i < rest.len() implies {
            &&& (#[trigger] rest[i]).op_regs.len() <= u64::MAX
            &&& forall|k: int|
                0 <= k < rest[i].op_regs.len() ==> encode_utf8(#[trigger] rest[i].op_regs[k]).len()
                    <= u64::MAX
        } by {
            assert(rest[i] == ops[i + 1]);
        }
        lemma_take_opcodes(pre2, rest, post);
        assert(seq![ops[0]] + rest =~= ops);
    }
}

/// Loading the image of a program gives the program back.
pub proof fn lemma_decode_encode(p: Seq<OpcodeView>)
    requires
        image_fits(p),
    ensures
        decode_image(encode_image(p)) == Some(p),
{
    let b = encode_image(p);
    assert(b =~= Seq::<u8>::empty() + le8(p.len() as u64) + encode_opcodes(p));
    lemma_take_u64(Seq::empty(), p.len() as u64, encode_opcodes(p));
    assert(b =~= le8(p.len() as u64) + encode_opcodes(p) + Seq::<u8>::empty());
    lemma_take_opcodes(le8(p.len() as u64), p, Seq::empty());
}

/// Saving what was loaded from a saved image writes the same bytes.
pub proof fn law_save_load_save(p: Seq<OpcodeView>)
    requires
        image_fits(p),
    ensures
        decode_image(encode_image(p)) is Some,
        encode_image(decode_image(encode_image(p))->0) == encode_image(p),
{
    lemma_decode_encode(p);
}

/// Relies on String::from_utf8: it fails exactly when the bytes are not
/// UTF-8, and otherwise keeps them as they are.
#[verifier::external_body]
fn string_from_utf8(bytes: Vec<u8>) -> (r: Option<String>)
    ensures
        r is Some <==> valid_utf8(bytes@),
        r is Some ==> encode_utf8(r->0@) == bytes@,
{
    String::from_utf8(bytes).ok()
}

fn push_le8(out: &mut Vec<u8>, v: u64)
    ensures
        final(out)@ == old(out)@ + le8(v),
{
    out.push(v as u8);
    out.push((v >> 8u64) as u8);
    out.push((v >> 16u64) as u8);
    out.push((v >> 24u64) as u8);
    out.push((v >> 32u64) as u8);
    out.push((v >> 40u64) as u8);
    out.push((v >> 48u64) as u8);
    out.push((v >> 56u64) as u8);
    assert(out@ =~= old(out)@ + le8(v));
}

fn push_le4(out: &mut Vec<u8>, v: u32)
    ensures
        final(out)@ == old(out)@ + le4(v),
{
    out.push(v as u8);
    out.push((v >> 8u32) as u8);
    out.push((v >> 16u32) as u8);
    out.push((v >> 24u32) as u8);
    assert(out@ =~= old(out)@ + le4(v));
}

fn encode_name_into(out: &mut Vec<u8>, s: &String)
    ensures
        final(out)@ == old(out)@ + encode_name(s@),
{
    let bytes = s.as_str().as_bytes();
    assert(bytes@ == encode_utf8(s@));
    push_le8(out, bytes.len() as u64);
    let ghost base = out@;
    let mut i: usize = 0;
    while i < bytes.len()
        invariant
            i <= bytes@.len(),
            out@ == base + bytes@.subrange(0, i as int),
        decreases bytes.len() - i,
    {
        out.push(bytes[i]);
        i += 1;
        assert(out@ =~= base + bytes@.subrange(0, i as int));
    }
    assert(bytes@.subrange(0, i as int) =~= bytes@);
}

fn encode_opcode_into(out: &mut Vec<u8>, op: &Opcode)
    ensures
        final(out)@ == old(out)@ + encode_opcode(op@),
{
    push_le4(out, op.op_type.code());
    match op.op_operand {
        None => {
            out.push(0u8);
        },
        Some(w) => {
            out.push(w.tag() + 1);
            push_le8(out, w.to_u64());
        },
    }
    push_le8(out, op.op_regs.len() as u64);
    let ghost base = out@;
    let ghost ns = op@.op_regs;
    let mut i: usize = 0;
    while i < op.op_regs.len()
        invariant
            i <= op.op_regs.len(),
            ns == op@.op_regs,
            out@ == base + encode_names(ns.take(i as int)),
        decreases op.op_regs.len() - i,
    {
        encode_name_into(out, &op.op_regs[i]);
        assert(ns.take(i + 1).drop_last() =~= ns.take(i as int));
        i += 1;
        assert(out@ =~= base + encode_names(ns.take(i as int)));
    }
    assert(ns.take(i as int) =~= ns);
    assert(out@ =~= old(out)@ + encode_opcode(op@));
}

/// The image of a program.
pub fn encode_program(program: &Vec<Opcode>) -> (r: Vec<u8>)
    ensures
        r@ == encode_image(program_view(program@)),
{
    let mut out: Vec<u8> = Vec::new();
    push_le8(&mut out, program.len() as u64);
    let ghost ps = program_view(program@);
    let mut i: usize = 0;
    while i < program.len()
        invariant
            i <= program.len(),
            ps == program_view(program@),
            out@ == le8(program.len() as u64) + encode_opcodes(ps.take(i as int)),
        decreases program.len() - i,
    {
        encode_opcode_into(&mut out, &program[i]);
        assert(ps.take(i + 1).drop_last() =~= ps.take(i as int));
        i += 1;
        assert(out@ =~= le8(program.len() as u64) + encode_opcodes(ps.take(i as int)));
    }
    assert(ps.take(i as int) =~= ps);
    out
}

fn read_le8(b: &[u8], pos: usize) -> (r: Option<(u64, usize)>)
    ensures
        match r {
            Some((v, p)) => take_u64(b@, pos as int) == Some((v, p as int)),
            None => take_u64(b@, pos as int) is None,
        },
{
    if pos <= b.len() && b.len() - pos >= 8 {
        let v = (b[pos] as u64) | ((b[pos + 1] as u64) << 8u64) | ((b[pos + 2] as u64) << 16u64)
            | ((b[pos + 3] as u64) << 24u64) | ((b[pos + 4] as u64) << 32u64) | ((b[pos + 5] as u64)
            << 40u64) | ((b[pos + 6] as u64) << 48u64) | ((b[pos + 7] as u64) << 56u64);
        proof {
            reveal(from_le8);
            let s = b@.subrange(pos as int, pos + 8int);
            assert(s[0] == b@[pos as int] && s[1] == b@[pos + 1] && s[2] == b@[pos + 2] && s[3]
                == b@[pos + 3] && s[4] == b@[pos + 4] && s[5] == b@[pos + 5] && s[6] == b@[pos + 6]
                && s[7] == b@[pos + 7]);
        }
        Some((v, pos + 8))
    } else {
        None
    }
}

fn read_le4(b: &[u8], pos: usize) -> (r: Option<(u32, usize)>)
    ensures
        match r {
            Some((v, p)) => take_u32(b@, pos as int) == Some((v, p as int)),
            None => take_u32(b@, pos as int) is None,
        },
{
    if pos <= b.len() && b.len() - pos >= 4 {
        let v = (b[pos] as u32) | ((b[pos + 1] as u32) << 8u32) | ((b[pos + 2] as u32) << 16u32)
            | ((b[pos + 3] as u32) << 24u32);
        proof {
            reveal(from_le4);
            let s = b@.subrange(pos as int, pos + 4int);
            assert(s[0] == b@[pos as int] && s[1] == b@[pos + 1] && s[2] == b@[pos + 2] && s[3]
                == b@[pos + 3]);
        }
        Some((v, pos + 4))
    } else {
        None
    }
}

fn read_name(b: &[u8], pos: usize) -> (r: Option<(String, usize)>)
    ensures
        match r {
            Some((s, p)) => take_name(b@, pos as int) == Some((s@, p as int)),
            None => take_name(b@, pos as int) is None,
        },
{
    let (n, p) = match read_le8(b, pos) {
        None => {
            return None;
        },
        Some(x) => x,
    };
    if ((b.len() - p) as u64) < n {
        return None;
    }
    let n = n as usize;
    assert(p + n <= b@.len());
    let mut bytes: Vec<u8> = Vec::new();
    let mut i: usize = 0;
    while i < n
        invariant
            i <= n,
            p + n <= b.len(),
            bytes@ == b@.subrange(p as int, p + i),
        decreases n - i,
    {
        bytes.push(b[p + i]);
        i += 1;
        assert(bytes@ =~= b@.subrange(p as int, p + i));
    }
    match string_from_utf8(bytes) {
        None => None,
        Some(s) => Some((s, p + n)),
    }
}

fn read_operand(b: &[u8], pos: usize) -> (r: Option<(Option<Word>, usize)>)
    ensures
        match r {
            Some((o, p)) => take_operand(b@, pos as int) == Some((o, p as int)),
            None => take_operand(b@, pos as int) is None,
        },
{
    if pos >= b.len() {
        return None;
    }
    let t = b[pos];
    if t == 0 {
        Some((None, pos + 1))
    } else if t <= 4 {
        match read_le8(b, pos + 1) {
            None => None,
            Some((v, p)) => Some((Some(Word::from_parts(t - 1, v)), p)),
        }
    } else {
        None
    }
}

fn read_opcode(b: &[u8], pos: usize) -> (r: Option<(Opcode, usize)>)
    ensures
        match r {
            Some((op, p)) => take_opcode(b@, pos as int) == Some((op@, p as int)),
            None => take_opcode(b@, pos as int) is None,
        },
{
    let (c, at_operand) = match read_le4(b, pos) {
        None => {
            return None;
        },
        Some(x) => x,
    };
    let t = match OpcodeType::from_code(c) {
        None => {
            return None;
        },
        Some(t) => t,
    };
    let (o, at_count) = match read_operand(b, at_operand) {
        None => {
            return None;
        },
        Some(x) => x,
    };
    let (n, at_names) = match read_le8(b, at_count) {
        None => {
            return None;
        },
        Some(x) => x,
    };
    let mut names: Vec<String> = Vec::new();
    let mut p = at_names;
    let mut i: u64 = 0;
    while i < n
        invariant
            i <= n,
            take_u32(b@, pos as int) == Some((c, at_operand as int)),
            OpcodeType::from_code_spec(c) == Some(t),
            take_operand(b@, at_operand as int) == Some((o, at_count as int)),
            take_u64(b@, at_count as int) == Some((n, at_names as int)),
            take_names(b@, at_names as int, n as nat) == match take_names(b@, p as int, (n - i) as nat) {
                Some((rest, q)) => Some((strings_view(names@) + rest, q)),
                None => None,
            },
        decreases n - i,
    {
        match read_name(b, p) {
            None => {
                assert(take_names(b@, p as int, (n - i) as nat) is None);
                return None;
            },
            Some((s, q)) => {
                let ghost before = strings_view(names@);
                names.push(s);
                proof {
                    assert(strings_view(names@) =~= before.push(s@));
                    match take_names(b@, q as int, (n - i - 1) as nat) {
                        Some((rest, e)) => {
                            assert(before.push(s@) + rest =~= before + (seq![s@] + rest));
                        },
                        None => {},
                    }
                }
                p = q;
            },
        }
        i += 1;
    }
    assert(strings_view(names@) + Seq::<Seq<char>>::empty() =~= strings_view(names@));
    let ghost nv = strings_view(names@);
    let op = Opcode { op_type: t, op_operand: o, op_regs: names };
    assert(op@ == OpcodeView { op_type: t, op_operand: o, op_regs: nv });
    Some((op, p))
}

/// The program that an image holds, or `None` when the bytes are not one
/// whole image.
pub fn decode_program(b: &[u8]) -> (r: Option<Vec<Opcode>>)
    ensures
        match r {
            Some(v) => decode_image(b@) == Some(program_view(v@)),
            None => decode_image(b@) is None,
        },
{
    let (n, at_first) = match read_le8(b, 0) {
        None => {
            return None;
        },
        Some(x) => x,
    };
    let mut ops: Vec<Opcode> = Vec::new();
    let mut p = at_first;
    let mut i: u64 = 0;
    while i < n
        invariant
            i <= n,
            take_u64(b@, 0) == Some((n, at_first as int)),
            take_opcodes(b@, at_first as int, n as nat) == match take_opcodes(
                b@,
                p as int,
                (n - i) as nat,
            ) {
                Some((rest, q)) => Some((program_view(ops@) + rest, q)),
                None => None,
            },
        decreases n - i,
    {
        match read_opcode(b, p) {
            None => {
                assert(take_opcodes(b@, p as int, (n - i) as nat) is None);
                return None;
            },
            Some((op, q)) => {
                let ghost before = program_view(ops@);
                let ghost v = op@;
                ops.push(op);
                proof {
                    assert(program_view(ops@) =~= before.push(v));
                    match take_opcodes(b@, q as int, (n - i - 1) as nat) {
                        Some((rest, e)) => {
                            assert(before.push(v) + rest =~= before + (seq![v] + rest));
                        },
                        None => {},
                    }
                }
                p = q;
            },
        }
        i += 1;
    }
    assert(program_view(ops@) + Seq::<OpcodeView>::empty() =~= program_view(ops@));
    if p == b.len() {
        Some(ops)
    } else {
        None
    }
}

} // verus!
