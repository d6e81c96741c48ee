use vstd::prelude::*;

verus! {

/// Byte length of an encoded `RiteBinaryHeader`.
pub const BINARY_HEADER_SIZE: usize = 20;

/// Byte length of an encoded `SectionMiscHeader`.
pub const SECTION_MISC_HEADER_SIZE: usize = 8;

/// Byte length of an encoded `SectionIrepHeader`.
pub const SECTION_IREP_HEADER_SIZE: usize = 12;

/// Byte length of an encoded `IrepRecord`.
pub const IREP_RECORD_SIZE: usize = 16;

/// Appends the bytes of `src` to `dst`.
pub fn push_bytes(dst: &mut Vec<u8>, src: &[u8])
    ensures
        final(dst)@ == old(dst)@ + src@,
{
    let mut i: usize = 0;
    while i < src.len()
        invariant
            i <= src@.len(),
            dst@ == old(dst)@ + src@.subrange(0, i as int),
        decreases src@.len() - i,
    {
        dst.push(src[i]);
        i = i + 1;
        proof {
            assert(dst@ =~= old(dst)@ + src@.subrange(0, i as int));
        }
    }
    proof {
        assert(src@.subrange(0, src@.len() as int) =~= src@);
    }
}

/// The header that opens a RITE binary image.
#[derive(Debug, Clone, Copy)]
pub struct RiteBinaryHeader {
    pub ident: [u8; 4],
    pub major_version: [u8; 2],
    pub minor_version: [u8; 2],
    pub size: [u8; 4],
    pub compiler_name: [u8; 4],
    pub compiler_version: [u8; 4],
}

impl RiteBinaryHeader {
    /// The fields' bytes in declaration order.
    pub open spec fn encoded(&self) -> Seq<u8> {
        self.ident@ + self.major_version@ + self.minor_version@ + self.size@ + self.compiler_name@
            + self.compiler_version@
    }

    pub fn to_bytes(&self) -> (r: Vec<u8>)
        ensures
            r@ == self.encoded(),
            r@.len() == BINARY_HEADER_SIZE,
    {
        let mut r = Vec::new();
        push_bytes(&mut r, self.ident.as_slice());
        push_bytes(&mut r, self.major_version.as_slice());
        push_bytes(&mut r, self.minor_version.as_slice());
        push_bytes(&mut r, self.size.as_slice());
        push_bytes(&mut r, self.compiler_name.as_slice());
        push_bytes(&mut r, self.compiler_version.as_slice());
        proof {
            assert(r@ =~= self.encoded());
        }
        r
    }

    /// Reads a header from the first bytes of `b`, if there are enough.
    pub fn from_bytes(b: &[u8]) -> (r: Option<Self>)
        ensures
            r is Some <==> b@.len() >= BINARY_HEADER_SIZE,
            r is Some ==> r->0.encoded() == b@.subrange(0, BINARY_HEADER_SIZE as int),
    {
        if b.len() < BINARY_HEADER_SIZE {
            return None;
        }
        let h = RiteBinaryHeader {
            ident: [b[0], b[1], b[2], b[3]],
            major_version: [b[4], b[5]],
            minor_version: [b[6], b[7]],
            size: [b[8], b[9], b[10], b[11]],
            compiler_name: [b[12], b[13], b[14], b[15]],
            compiler_version: [b[16], b[17], b[18], b[19]],
        };
        proof {
            assert(h.encoded() =~= b@.subrange(0, BINARY_HEADER_SIZE as int));
        }
        Some(h)
    }
}

/// The header of a section that carries no fields of its own (the END section).
#[derive(Debug, Clone, Copy)]
pub struct SectionMiscHeader {
    pub ident: [u8; 4],
    pub size: [u8; 4],
}

impl SectionMiscHeader {
    pub open spec fn encoded(&self) -> Seq<u8> {
        self.ident@ + self.size@
    }

    pub fn to_bytes(&self) -> (r: Vec<u8>)
        ensures
            r@ == self.encoded(),
            r@.len() == SECTION_MISC_HEADER_SIZE,
    {
        let mut r = Vec::new();
        push_bytes(&mut r, self.ident.as_slice());
        push_bytes(&mut r, self.size.as_slice());
        r
    }
}

/// The header of the IREP section.
#[derive(Debug, Clone, Copy)]
pub struct SectionIrepHeader {
    pub ident: [u8; 4],
    pub size: [u8; 4],
    pub rite_version: [u8; 4],
}

impl SectionIrepHeader {
    pub open spec fn encoded(&self) -> Seq<u8> {
        self.ident@ + self.size@ + self.rite_version@
    }

    pub fn to_bytes(&self) -> (r: Vec<u8>)
        ensures
            r@ == self.encoded(),
            r@.len() == SECTION_IREP_HEADER_SIZE,
    {
        let mut r = Vec::new();
        push_bytes(&mut r, self.ident.as_slice());
        push_bytes(&mut r, self.size.as_slice());
        push_bytes(&mut r, self.rite_version.as_slice());
        proof {
            assert(r@ =~= self.encoded());
        }
        r
    }
}

/// The fixed header of one scope's record.
#[derive(Debug, Clone, Copy)]
pub struct IrepRecord {
    pub size: [u8; 4],
    pub nlocals: [u8; 2],
    pub nregs: [u8; 2],
    pub rlen: [u8; 2],
    pub clen: [u8; 2],
    pub ilen: [u8; 4],
}

impl IrepRecord {
    pub open spec fn encoded(&self) -> Seq<u8> {
        self.size@ + self.nlocals@ + self.nregs@ + self.rlen@ + self.clen@ + self.ilen@
    }

    pub fn to_bytes(&self) -> (r: Vec<u8>)
        ensures
            r@ == self.encoded(),
            r@.len() == IREP_RECORD_SIZE,
    {
        let mut r = Vec::new();
        push_bytes(&mut r, self.size.as_slice());
        push_bytes(&mut r, self.nlocals.as_slice());
        push_bytes(&mut r, self.nregs.as_slice());
        push_bytes(&mut r, self.rlen.as_slice());
        push_bytes(&mut r, self.clen.as_slice());
        push_bytes(&mut r, self.ilen.as_slice());
        proof {
            assert(r@ =~= self.encoded());
        }
        r
    }
}

/// One entry of a scope's exception-handler table.
#[derive(Debug, Clone, Copy)]
pub struct IrepCatchHandler {
    pub type_: u8,
    pub begin: [u8; 4],
    pub end: [u8; 4],
    pub target: [u8; 4],
}

} // verus!
