//! An MD5 hash that may be absent.

use crate::error::Error;
use crate::le::{enc_u32, lemma_enc_dec};
use crate::reader::asset_reader::AssetReader;
use crate::reader::asset_writer::AssetWriter;
use crate::stream::{
    emitted, has_at, lemma_emit, lemma_has_at_concat, parse_u32, take, yields_deep, Parsed,
};
use crate::unreal_types::guid_from_bytes;
use vstd::prelude::*;

verus! {

/// An MD5 hash: sixteen bytes, or nothing where no hash was taken.
#[derive(Clone, Copy, Debug, PartialEq, Eq, Hash)]
pub struct FMD5Hash {
    pub hash: Option<[u8; 16]>,
}

impl DeepView for FMD5Hash {
    type V = Option<Seq<u8>>;

    open spec fn deep_view(&self) -> Option<Seq<u8>> {
        match self.hash {
            Some(raw) => Some(raw@),
            None => None,
        }
    }
}

/// The hash at `pos`: a 32-bit word that tells whether sixteen bytes of
/// hash follow.
pub open spec fn parse_md5(bytes: Seq<u8>, pos: u64) -> Parsed<Option<Seq<u8>>> {
    match parse_u32(bytes, pos) {
        Err(e) => Err(e),
        Ok((present, p)) => if present != 0 {
            match take(bytes, p, 16) {
                Err(e) => Err(e),
                Ok((raw, q)) => Ok((Some(raw), q)),
            }
        } else {
            Ok((None, p))
        },
    }
}

/// The bytes of a hash on disk.
pub open spec fn ser_md5(hash: Option<Seq<u8>>) -> Seq<u8> {
    match hash {
        Some(raw) => enc_u32(1) + raw,
        None => enc_u32(0),
    }
}

impl FMD5Hash {
    /// Reads a hash.
    pub fn new<Reader: AssetReader>(asset: &mut Reader) -> (r: Result<FMD5Hash, Error>)
        ensures
            final(asset).bytes() == old(asset).bytes(),
            final(asset).env() == old(asset).env(),
            yields_deep(r, final(asset).pos(), parse_md5(old(asset).bytes(), old(asset).pos())),
    {
        let present = match asset.read_u32() {
            Ok(v) => v,
            Err(e) => return Err(e),
        };
        if present != 0 {
            match asset.read_exact(16) {
                Ok(raw) => Ok(FMD5Hash { hash: Some(guid_from_bytes(&raw)) }),
                Err(e) => Err(e),
            }
        } else {
            Ok(FMD5Hash { hash: None })
        }
    }

    /// Writes a hash.
    pub fn write<Writer: AssetWriter>(&self, asset: &mut Writer) -> (r: Result<(), Error>)
        ensures
            final(asset).env() == old(asset).env(),
            emitted(
                r,
                (),
                old(asset).bytes(),
                old(asset).pos(),
                final(asset).bytes(),
                final(asset).pos(),
                ser_md5(self.deep_view()),
            ),
    {
        let ghost origin = asset.bytes();
        let ghost start = asset.pos();
        let ghost none = Seq::<u8>::empty();
        match &self.hash {
            Some(raw) => {
                let one = asset.write_u32(1);
                proof {
                    lemma_emit(
                        one,
                        origin,
                        start,
                        none,
                        enc_u32(1),
                        origin,
                        start,
                        asset.bytes(),
                        asset.pos(),
                    );
                    assert(none + enc_u32(1) =~= enc_u32(1));
                }
                if let Err(e) = one {
                    return Err(e);
                }
                let ghost b = asset.bytes();
                let ghost p = asset.pos();
                let two = asset.write_all(raw.as_slice());
                proof {
                    lemma_emit(
                        two,
                        origin,
                        start,
                        enc_u32(1),
                        raw@,
                        b,
                        p,
                        asset.bytes(),
                        asset.pos(),
                    );
                }
                two
            },
            None => {
                let one = asset.write_u32(0);
                proof {
                    lemma_emit(
                        one,
                        origin,
                        start,
                        none,
                        enc_u32(0),
                        origin,
                        start,
                        asset.bytes(),
                        asset.pos(),
                    );
                    assert(none + enc_u32(0) =~= enc_u32(0));
                }
                one
            },
        }
    }
}

/// A hash that was written is read back.
pub proof fn lemma_md5_round_trip(bytes: Seq<u8>, pos: u64, hash: Option<Seq<u8>>)
    requires
        bytes.len() <= u64::MAX,
        has_at(bytes, pos as int, ser_md5(hash)),
        hash matches Some(raw) ==> raw.len() == 16,
    ensures
        parse_md5(bytes, pos) == Ok::<(Option<Seq<u8>>, u64), Error>(
            (hash, (pos + ser_md5(hash).len()) as u64),
        ),
{
    lemma_enc_dec();
    match hash {
        Some(raw) => {
            lemma_has_at_concat(bytes, pos as int, enc_u32(1), raw);
        },
        None => {},
    }
}

} // verus!
