//! The five-byte file header: the magic constant and the format version.

use vstd::prelude::*;

use crate::error::BsorError;
use crate::read_utils::read_byte;
use crate::read_utils::read_int;
use crate::replay::BSOR_MAGIC;
use crate::wire::i32_to_le;
use crate::wire::spec_read_byte;
use crate::wire::spec_read_int;

verus! {

/// The decoded header; only the version is kept.
#[derive(Debug, Clone, Copy, PartialEq, Eq, Structural)]
pub struct Header {
    pub version: u8,
}

/// Reads the header: a fixed `i32` magic, then the version byte.  A wrong
/// magic is an invalid file; a version other than 1 is unsupported and the
/// error carries the raw byte.  Both bytes are read before either check.
pub open spec fn spec_load_header(b: Seq<u8>, pos: int) -> Result<(u8, int), BsorError> {
    match spec_read_int(b, pos) {
        Err(e) => Err(e),
        Ok((magic, p1)) => match spec_read_byte(b, p1) {
            Err(e) => Err(e),
            Ok((version, p2)) => if magic != BSOR_MAGIC {
                Err(BsorError::InvalidBsor)
            } else if version != 1 {
                Err(BsorError::UnsupportedVersion(version))
            } else {
                Ok((version, p2))
            },
        },
    }
}

/// The wire form of the header.
pub open spec fn enc_header(version: u8) -> Seq<u8> {
    i32_to_le(BSOR_MAGIC) + seq![version]
}

impl Header {
    /// Decodes the header at the cursor.
    pub fn load(bytes: &Vec<u8>, pos: &mut usize) -> (r: Result<Header, BsorError>)
        ensures
            match r {
                Ok(h) => spec_load_header(bytes@, *old(pos) as int) == Ok::<_, BsorError>((
                    h.version,
                    *final(pos) as int,
                )) && h.version == 1,
                Err(e) => spec_load_header(bytes@, *old(pos) as int) == Err::<(u8, int), _>(e)
                    && *final(pos) == *old(pos),
            },
    {
        let start = *pos;
        let magic = read_int(bytes, pos)?;
        let version = match read_byte(bytes, pos) {
            Ok(v) => v,
            Err(e) => {
                *pos = start;
                return Err(e);
            },
        };
        if magic != BSOR_MAGIC {
            *pos = start;
            return Err(BsorError::InvalidBsor);
        }
        if version != 1 {
            *pos = start;
            return Err(BsorError::UnsupportedVersion(version));
        }
        Ok(Header { version })
    }
}

/// Appends the wire form of the header.
pub fn append_header(out: &mut Vec<u8>, version: u8)
    ensures
        final(out)@ == old(out)@ + enc_header(version),
{
    crate::write_utils::append_int(out, BSOR_MAGIC);
    crate::write_utils::append_byte(out, version);
    proof {
        assert(out@ =~= old(out)@ + enc_header(version));
    }
}

/// Decoding an encoded version-1 header succeeds with version 1.
pub proof fn lemma_header_round_trip(b: Seq<u8>, pos: int)
    requires
        0 <= pos,
        pos + 5 <= b.len(),
        b.subrange(pos, pos + 5) == enc_header(1),
    ensures
        spec_load_header(b, pos) == Ok::<_, BsorError>((1u8, pos + 5)),
{
    crate::wire::lemma_i32_le_identity(BSOR_MAGIC);
    crate::wire::lemma_seq_unconcat(b, pos, i32_to_le(BSOR_MAGIC), seq![1u8]);
    assert(b[pos + 4] == b.subrange(pos + 4, pos + 5)[0]);
}

} // verus!
