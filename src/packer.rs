use vstd::prelude::*;

use crate::binfmt::{
    push_bytes, IrepRecord, RiteBinaryHeader, SectionIrepHeader, SectionMiscHeader,
    BINARY_HEADER_SIZE, IREP_RECORD_SIZE, SECTION_IREP_HEADER_SIZE, SECTION_MISC_HEADER_SIZE,
};
use crate::bytecode::{be16, be32, bytecode_bytes, Bytecode};
use crate::transformer::IrepBase;

verus! {

/// The largest value a 2-byte field holds.
pub const MAX_U16: usize = 0xffff;

/// The largest value a 4-byte field holds.
pub const MAX_U32: u64 = 0xffff_ffff;

/// The UTF-8 bytes of a string.
pub open spec fn text_bytes(s: String) -> Seq<u8> {
    vstd::utf8::encode_utf8(s@)
}

/// The encoded instructions, in order.
pub open spec fn insn_bytes(insn: Seq<Bytecode>) -> Seq<u8>
    decreases insn.len(),
{
    if insn.len() == 0 {
        seq![]
    } else {
        insn_bytes(insn.drop_last()) + bytecode_bytes(insn.last())
    }
}

/// Symbol entries: length, bytes, terminator.
pub open spec fn sym_entries(syms: Seq<String>) -> Seq<u8>
    decreases syms.len(),
{
    if syms.len() == 0 {
        seq![]
    } else {
        let t = text_bytes(syms.last());
        sym_entries(syms.drop_last()) + be16(t.len() as u16) + t + seq![0u8]
    }
}

/// String-pool entries: string tag, length, bytes, terminator.
pub open spec fn pool_entries(pool: Seq<String>) -> Seq<u8>
    decreases pool.len(),
{
    if pool.len() == 0 {
        seq![]
    } else {
        let t = text_bytes(pool.last());
        pool_entries(pool.drop_last()) + seq![0u8] + be16(t.len() as u16) + t + seq![0u8]
    }
}

/// What follows a scope's fixed record header: instructions, string pool, symbols.
pub open spec fn irep_body(ir: IrepBase) -> Seq<u8> {
    insn_bytes(ir.insn@) + be16(ir.pool@.len() as u16) + pool_entries(ir.pool@) + be16(
        ir.syms@.len() as u16,
    ) + sym_entries(ir.syms@)
}

/// One scope's record: its fixed header, then its body.
pub open spec fn irep_record_bytes(ir: IrepBase) -> Seq<u8> {
    let body = irep_body(ir);
    be32((IREP_RECORD_SIZE + body.len()) as u32) + be16(ir.locals as u16) + be16(ir.regs as u16)
        + be16(ir.rep_len as u16) + be16(ir.chandlers as u16) + be32(
        insn_bytes(ir.insn@).len() as u32,
    ) + body
}

/// The records of all scopes, in order.
pub open spec fn records_bytes(reps: Seq<IrepBase>) -> Seq<u8>
    decreases reps.len(),
{
    if reps.len() == 0 {
        seq![]
    } else {
        records_bytes(reps.drop_last()) + irep_record_bytes(reps.last())
    }
}

/// The byte length of the IREP section holding `reps`.
pub open spec fn irep_section_size(reps: Seq<IrepBase>) -> int {
    SECTION_IREP_HEADER_SIZE + records_bytes(reps).len()
}

/// The byte length of the whole image of `reps`.
pub open spec fn image_size(reps: Seq<IrepBase>) -> int {
    BINARY_HEADER_SIZE + irep_section_size(reps) + SECTION_MISC_HEADER_SIZE
}

/// The RITE image of `reps`: binary header, IREP section, END section.
pub open spec fn rite_image(reps: Seq<IrepBase>) -> Seq<u8> {
    seq![0x52u8, 0x49, 0x54, 0x45] + seq![0x30u8, 0x33] + seq![0x30u8, 0x30] + be32(
        image_size(reps) as u32,
    ) + seq![0x4cu8, 0x55, 0x4e, 0x52] + seq![0x30u8, 0x30, 0x30, 0x30] + seq![
        0x49u8,
        0x52,
        0x45,
        0x50,
    ] + be32(irep_section_size(reps) as u32) + seq![0x30u8, 0x33, 0x30, 0x30] + records_bytes(reps)
        + seq![0x45u8, 0x4e, 0x44, 0x00] + be32(SECTION_MISC_HEADER_SIZE as u32)
}

/// Every string of a table fits a 2-byte length, and so does the table's size.
pub open spec fn table_fits(t: Seq<String>) -> bool {
    &&& t.len() <= MAX_U16
    &&& forall|j: int| 0 <= j < t.len() ==> #[trigger] text_bytes(t[j]).len() <= MAX_U16
}

/// Every count of a scope fits its field.
pub open spec fn irep_fits(ir: IrepBase) -> bool {
    &&& ir.locals <= MAX_U16
    &&& ir.regs <= MAX_U16
    &&& ir.rep_len <= MAX_U16
    &&& ir.chandlers <= MAX_U16
    &&& table_fits(ir.syms@)
    &&& table_fits(ir.pool@)
    &&& IREP_RECORD_SIZE + irep_body(ir).len() <= MAX_U32
}

/// Every field of the image of `reps` holds its value without loss.
pub open spec fn image_fits(reps: Seq<IrepBase>) -> bool {
    &&& forall|k: int| 0 <= k < reps.len() ==> irep_fits(#[trigger] reps[k])
    &&& image_size(reps) <= MAX_U32
}

fn u16_as_be_bytes(value: u16) -> (r: [u8; 2])
    ensures
        r@ == be16(value),
{
    let r = [(value / 256) as u8, (value % 256) as u8];
    proof {
        assert(r@ =~= be16(value));
    }
    r
}

fn u32_as_be_bytes(value: u32) -> (r: [u8; 4])
    ensures
        r@ == be32(value),
{
    let r = [
        (value / 0x1000000) as u8,
        (value / 0x10000 % 256) as u8,
        (value / 256 % 256) as u8,
        (value % 256) as u8,
    ];
    proof {
        assert(r@ =~= be32(value));
    }
    r
}


fn text_of(s: &String) -> (b: &[u8])
    ensures
        b@ == text_bytes(*s),
{
    s.as_str().as_bytes()
}

/// Whether every string of a table, and the table's size, fits a 2-byte length.
pub fn table_fits_u16(values: &Vec<String>) -> (r: bool)
    ensures
        r == table_fits(values@),
{
    if values.len() > MAX_U16 {
        return false;
    }
    let mut i: usize = 0;
    while i < values.len()
        invariant
            i <= values@.len(),
            forall|j: int| 0 <= j < i ==> #[trigger] text_bytes(values@[j]).len() <= MAX_U16,
        decreases values@.len() - i,
    {
        if text_of(&values[i]).len() > MAX_U16 {
            return false;
        }
        i = i + 1;
    }
    true
}

/// The symbol table: its entry count, then each name's length, bytes and terminator.
pub fn sym_as_bytes(values: &Vec<String>) -> (bytes: Vec<u8>)
    requires
        table_fits(values@),
    ensures
        bytes@ == be16(values@.len() as u16) + sym_entries(values@),
{
    let mut bytes = Vec::new();
    push_bytes(&mut bytes, u16_as_be_bytes(values.len() as u16).as_slice());
    let mut i: usize = 0;
    while i < values.len()
        invariant
            i <= values@.len(),
            table_fits(values@),
            bytes@ == be16(values@.len() as u16) + sym_entries(values@.subrange(0, i as int)),
        decreases values@.len() - i,
    {
        let t = text_of(&values[i]);
        push_bytes(&mut bytes, u16_as_be_bytes(t.len() as u16).as_slice());
        push_bytes(&mut bytes, t);
        bytes.push(0);
        proof {
            let sub = values@.subrange(0, i + 1);
            assert(sub.drop_last() =~= values@.subrange(0, i as int));
            assert(sub.last() == values@[i as int]);
            assert(bytes@ =~= be16(values@.len() as u16) + sym_entries(sub));
        }
        i = i + 1;
    }
    proof {
        assert(values@.subrange(0, values@.len() as int) =~= values@);
    }
    bytes
}

/// The string pool: its entry count, then each string's tag, length, bytes and terminator.
pub fn strings_as_pool_bytes(values: &Vec<String>) -> (bytes: Vec<u8>)
    requires
        table_fits(values@),
    ensures
        bytes@ == be16(values@.len() as u16) + pool_entries(values@),
{
    let mut bytes = Vec::new();
    push_bytes(&mut bytes, u16_as_be_bytes(values.len() as u16).as_slice());
    let mut i: usize = 0;
    while i < values.len()
        invariant
            i <= values@.len(),
            table_fits(values@),
            bytes@ == be16(values@.len() as u16) + pool_entries(values@.subrange(0, i as int)),
        decreases values@.len() - i,
    {
        let t = text_of(&values[i]);
        bytes.push(0);
        push_bytes(&mut bytes, u16_as_be_bytes(t.len() as u16).as_slice());
        push_bytes(&mut bytes, t);
        bytes.push(0);
        proof {
            let sub = values@.subrange(0, i + 1);
            assert(sub.drop_last() =~= values@.subrange(0, i as int));
            assert(sub.last() == values@[i as int]);
            assert(bytes@ =~= be16(values@.len() as u16) + pool_entries(sub));
        }
        i = i + 1;
    }
    proof {
        assert(values@.subrange(0, values@.len() as int) =~= values@);
    }
    bytes
}

/// The encoded instruction stream.
pub fn insn_as_bytes(insn: &Vec<Bytecode>) -> (bytes: Vec<u8>)
    ensures
        bytes@ == insn_bytes(insn@),
{
    let mut bytes = Vec::new();
    let mut i: usize = 0;
    while i < insn.len()
        invariant
            i <= insn@.len(),
            bytes@ == insn_bytes(insn@.subrange(0, i as int)),
        decreases insn@.len() - i,
    {
        let mut b = insn[i].to_bytes_vec();
        bytes.append(&mut b);
        proof {
            let sub = insn@.subrange(0, i + 1);
            assert(sub.drop_last() =~= insn@.subrange(0, i as int));
            assert(sub.last() == insn@[i as int]);
        }
        i = i + 1;
    }
    proof {
        assert(insn@.subrange(0, insn@.len() as int) =~= insn@);
    }
    bytes
}

/// One scope's record, when all its counts fit their fields.
pub fn irep_record(ir: &IrepBase) -> (r: Option<Vec<u8>>)
    ensures
        r is Some <==> irep_fits(*ir),
        r is Some ==> r->0@ == irep_record_bytes(*ir),
{
    if ir.locals > MAX_U16 || ir.regs > MAX_U16 || ir.rep_len > MAX_U16 || ir.chandlers > MAX_U16 {
        return None;
    }
    if !table_fits_u16(&ir.syms) || !table_fits_u16(&ir.pool) {
        return None;
    }
    let mut insn = insn_as_bytes(&ir.insn);
    let mut pool = strings_as_pool_bytes(&ir.pool);
    let mut syms = sym_as_bytes(&ir.syms);
    let ilen = insn.len();
    let mut body = Vec::new();
    body.append(&mut insn);
    body.append(&mut pool);
    body.append(&mut syms);
    proof {
        assert(body@ =~= irep_body(*ir));
    }
    if body.len() as u64 > MAX_U32 - IREP_RECORD_SIZE as u64 {
        return None;
    }
    let size = IREP_RECORD_SIZE + body.len();
    let head = IrepRecord {
        size: u32_as_be_bytes(size as u32),
        nlocals: u16_as_be_bytes(ir.locals as u16),
        nregs: u16_as_be_bytes(ir.regs as u16),
        rlen: u16_as_be_bytes(ir.rep_len as u16),
        clen: u16_as_be_bytes(ir.chandlers as u16),
        ilen: u32_as_be_bytes(ilen as u32),
    };
    let mut rec = head.to_bytes();
    rec.append(&mut body);
    proof {
        assert(rec@ =~= irep_record_bytes(*ir));
    }
    Some(rec)
}


/// Serialises scope trees into RITE images.
pub struct RitePacker {
    pub buf: Vec<u8>,
}

impl RitePacker {
    pub fn new() -> (r: Self)
        ensures
            r.buf@.len() == 0,
    {
        RitePacker { buf: Vec::new() }
    }

    /// Appends the RITE image of `reps` to the buffer. Fails, leaving the
    /// buffer as it was, when a count or size does not fit its field.
    pub fn pack(&mut self, reps: &[IrepBase]) -> (r: Result<(), String>)
        ensures
            r is Ok <==> image_fits(reps@),
            r is Ok ==> final(self).buf@ == old(self).buf@ + rite_image(reps@),
            r is Err ==> final(self).buf@ == old(self).buf@,
    {
        let mut recs: Vec<u8> = Vec::new();
        let mut k: usize = 0;
        while k < reps.len()
            invariant
                k <= reps@.len(),
                recs@ == records_bytes(reps@.subrange(0, k as int)),
                forall|j: int| 0 <= j < k ==> irep_fits(#[trigger] reps@[j]),
                self.buf@ == old(self).buf@,
            decreases reps@.len() - k,
        {
            match irep_record(&reps[k]) {
                Some(mut rec) => {
                    recs.append(&mut rec);
                },
                None => {
                    return Err("a scope does not fit the binary format".to_string());
                },
            }
            proof {
                let sub = reps@.subrange(0, k + 1);
                assert(sub.drop_last() =~= reps@.subrange(0, k as int));
                assert(sub.last() == reps@[k as int]);
            }
            k = k + 1;
        }
        proof {
            assert(reps@.subrange(0, reps@.len() as int) =~= reps@);
        }
        let fixed = (BINARY_HEADER_SIZE + SECTION_IREP_HEADER_SIZE + SECTION_MISC_HEADER_SIZE) as u64;
        if recs.len() as u64 > MAX_U32 - fixed {
            return Err("the image is too large for the binary format".to_string());
        }
        let secsize = SECTION_IREP_HEADER_SIZE + recs.len();
        let binsize = BINARY_HEADER_SIZE + secsize + SECTION_MISC_HEADER_SIZE;
        let binheader = RiteBinaryHeader {
            ident: [0x52, 0x49, 0x54, 0x45],
            major_version: [0x30, 0x33],
            minor_version: [0x30, 0x30],
            size: u32_as_be_bytes(binsize as u32),
            compiler_name: [0x4c, 0x55, 0x4e, 0x52],
            compiler_version: [0x30, 0x30, 0x30, 0x30],
        };
        let irepheader = SectionIrepHeader {
            ident: [0x49, 0x52, 0x45, 0x50],
            size: u32_as_be_bytes(secsize as u32),
            rite_version: [0x30, 0x33, 0x30, 0x30],
        };
        let endsection = SectionMiscHeader {
            ident: [0x45, 0x4e, 0x44, 0x00],
            size: u32_as_be_bytes(SECTION_MISC_HEADER_SIZE as u32),
        };
        let mut h = binheader.to_bytes();
        let mut ih = irepheader.to_bytes();
        let mut e = endsection.to_bytes();
        self.buf.append(&mut h);
        self.buf.append(&mut ih);
        self.buf.append(&mut recs);
        self.buf.append(&mut e);
        proof {
            assert(self.buf@ =~= old(self).buf@ + rite_image(reps@));
        }
        Ok(())
    }
}

/// Packing is deterministic: two packers given equal scope trees produce
/// byte-identical images.
pub proof fn pack_deterministic(a: Seq<IrepBase>, b: Seq<IrepBase>)
    requires
        a == b,
    ensures
        image_fits(a) == image_fits(b),
        rite_image(a) == rite_image(b),
{
}

/// The header at the front of an image carries the RITE magic, version
/// "0300", and a size field equal to the image's whole byte length.
pub proof fn image_header_reports_length(reps: Seq<IrepBase>)
    requires
        image_fits(reps),
    ensures
        rite_image(reps).subrange(0, 4) == seq![0x52u8, 0x49, 0x54, 0x45],
        rite_image(reps).subrange(4, 8) == seq![0x30u8, 0x33, 0x30, 0x30],
        rite_image(reps).subrange(8, 12) == be32(rite_image(reps).len() as u32),
        rite_image(reps).len() == image_size(reps),
{
    let img = rite_image(reps);
    assert(img.subrange(0, 4) =~= seq![0x52u8, 0x49, 0x54, 0x45]);
    assert(img.subrange(4, 8) =~= seq![0x30u8, 0x33, 0x30, 0x30]);
    assert(img.subrange(8, 12) =~= be32(image_size(reps) as u32));
}

} // verus!
