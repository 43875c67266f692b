//! The compression policy applied to paste content before storage.
//!
//! Content under 1 KiB is stored as-is (`identity`): the compression
//! overhead is not worth it for tiny pastes.  Content bound for the
//! alternate backend is never compressed, since that backend applies its own
//! encoding.  Everything else is brotli-compressed at quality 6 with a
//! 22-bit window, and stored under the `br` encoding token.
use crate::errors::PasteError;
use vstd::prelude::*;
use vstd::string::StringSliceAdditionalSpecFns;

verus! {

/// Content shorter than this many bytes is stored uncompressed.
pub const COMPRESS_MIN: usize = 1024;

/// The content encoding a stored blob carries.
#[derive(Clone, Copy, Debug, PartialEq, Eq, Structural)]
pub enum Encoding {
    /// Stored bytes equal the submitted bytes.
    Identity,
    /// Stored bytes are the brotli compression of the submitted bytes.
    Br,
}

/// The encoding token written to object metadata.
pub open spec fn encoding_token(e: Encoding) -> Seq<char> {
    match e {
        Encoding::Identity => "identity"@,
        Encoding::Br => "br"@,
    }
}

impl Encoding {
    /// The encoding token written to object metadata.
    pub fn token(&self) -> (r: &'static str)
        ensures
            r@ == encoding_token(*self),
    {
        match self {
            Encoding::Identity => "identity",
            Encoding::Br => "br",
        }
    }
}

/// The encoding chosen for content of the given byte length.
pub open spec fn chosen_encoding(len: nat, alt_backend: bool) -> Encoding {
    if alt_backend || len < COMPRESS_MIN {
        Encoding::Identity
    } else {
        Encoding::Br
    }
}

/// The byte length of a string slice, as `str::len` reports it.
pub open spec fn str_byte_len(s: &str) -> nat {
    (s.spec_bytes().len() as usize) as nat
}

/// What the brotli encoder (quality 6, window 22) produces for the given
/// bytes; the result depends on the bytes alone.
pub uninterp spec fn brotli_of(bytes: Seq<u8>) -> Seq<u8>;

/// Relies on brotli's `CompressorWriter` over a `Vec<u8>` sink: writing the
/// whole input and finishing leaves the compressed stream in the sink.  The
/// call cannot fail: the `Vec` sink accepts every write, and with these
/// fixed, sane parameters and no metadata operations the encoder's
/// `compress_stream` never reports an error.
#[verifier::external_body]
fn brotli_compress(content: &[u8]) -> (r: Option<Vec<u8>>)
    ensures
        r is Some,
        r matches Some(v) ==> v@ == brotli_of(content@),
{
    let mut encoder = brotli::CompressorWriter::new(Vec::new(), 4096, 6, 22);
    if std::io::Write::write_all(&mut encoder, content).is_err() {
        return None;
    }
    if std::io::Write::flush(&mut encoder).is_err() {
        return None;
    }
    Some(encoder.into_inner())
}

/// Transform submitted content into the bytes to store, together with the
/// encoding they carry.  The transformation always succeeds; the `Result`
/// shape is kept for callers that treat the compressor as fallible.
pub fn compress(content: &str, alt_backend: bool) -> (r: Result<(Vec<u8>, Encoding), PasteError>)
    ensures
        r is Ok,
        r matches Ok(p) ==> {
            &&& p.1 == chosen_encoding(str_byte_len(content), alt_backend)
            &&& (p.1 == Encoding::Identity ==> p.0@ == content.spec_bytes())
            &&& (p.1 == Encoding::Br ==> p.0@ == brotli_of(content.spec_bytes()))
        },
{
    if alt_backend || content.len() < COMPRESS_MIN {
        Ok((content.as_bytes_vec(), Encoding::Identity))
    } else {
        match brotli_compress(content.as_bytes()) {
            Some(v) => Ok((v, Encoding::Br)),
            None => Err(PasteError::Storage),
        }
    }
}

} // verus!
