//! Message compression: which encodings a client knows, when a message is
//! compressed, and the gzip encoding itself.

use vstd::prelude::*;
use crate::error::{ConnectError, ErrorCode};
use crate::error;
use crate::text;

verus! {

/// What reading at most `cap` bytes out of a gzip stream gives: the bytes, or
/// nothing when the stream turns out to be malformed on the way.
pub uninterp spec fn gunzip_prefix(data: Seq<u8>, cap: u64) -> Option<Seq<u8>>;

/// The first `cap` bytes of a sequence, or all of it when it is shorter.
pub open spec fn capped(data: Seq<u8>, cap: u64) -> Seq<u8> {
    if data.len() <= cap {
        data
    } else {
        data.take(cap as int)
    }
}

/// Whether `packed` is a gzip stream that holds `data`: reading it gives the
/// data, however many bytes are asked for.
pub open spec fn is_gzip_of(packed: Seq<u8>, data: Seq<u8>) -> bool {
    forall|cap: u64| #[trigger] gunzip_prefix(packed, cap) == Some(capped(data, cap))
}

/// `flate2::write::GzEncoder`, at its fastest level, turns bytes into a gzip
/// stream out of which `flate2::read::GzDecoder` reads those bytes again. Which of
/// the many such streams it makes is left open.
#[verifier::external_body]
fn gzip(data: &[u8]) -> (r: Vec<u8>)
    ensures
        is_gzip_of(r@, data@),
{
    let mut encoder = flate2::write::GzEncoder::new(Vec::new(), flate2::Compression::fast());
    std::io::Write::write_all(&mut encoder, data).unwrap();
    encoder.finish().unwrap()
}

/// `flate2::read::GzDecoder`, read to at most `cap` bytes, gives bytes that
/// depend on the stream and `cap` alone and are no more than `cap`; nothing
/// when it reports an error.
#[verifier::external_body]
fn gunzip(data: &[u8], cap: u64) -> (r: Option<Vec<u8>>)
    ensures
        match r {
            Some(out) => gunzip_prefix(data@, cap) == Some(out@) && out@.len() <= cap,
            None => gunzip_prefix(data@, cap) is None,
        },
{
    let mut out = Vec::new();
    let decoder = flate2::read::GzDecoder::new(data);
    match std::io::Read::read_to_end(&mut std::io::Read::take(decoder, cap), &mut out) {
        Ok(_) => Some(out),
        Err(_) => None,
    }
}

/// When messages are compressed: from a smallest size on, if at all.
#[derive(Debug, Clone, Copy, PartialEq, Eq, Structural)]
pub struct CompressionPolicy {
    pub enabled: bool,
    pub min_size: usize,
}

/// The size from which messages are compressed by default.
pub const DEFAULT_MIN_SIZE: usize = 1024;

impl Default for CompressionPolicy {
    fn default() -> (r: Self)
        ensures
            r == (CompressionPolicy { enabled: true, min_size: DEFAULT_MIN_SIZE }),
    {
        CompressionPolicy { enabled: true, min_size: DEFAULT_MIN_SIZE }
    }
}

impl CompressionPolicy {
    /// The policy under a per-call choice: forced for every size, switched
    /// off, or left as it is.
    pub open spec fn overridden(self, choice: Option<bool>) -> CompressionPolicy {
        match choice {
            Some(true) => CompressionPolicy { enabled: true, min_size: 0 },
            Some(false) => CompressionPolicy { enabled: false, min_size: self.min_size },
            None => self,
        }
    }

    /// Whether a message of this size is compressed.
    pub open spec fn applies(self, size: nat) -> bool {
        self.enabled && size >= self.min_size
    }

    /// The policy under a per-call choice.
    pub fn with_override(self, choice: Option<bool>) -> (r: Self)
        ensures
            r == self.overridden(choice),
    {
        match choice {
            Some(true) => CompressionPolicy { enabled: true, min_size: 0 },
            Some(false) => CompressionPolicy { enabled: false, min_size: self.min_size },
            None => self,
        }
    }

    /// A call that forces compression compresses every message, one that
    /// switches it off none, and one that does neither leaves the policy alone.
    pub proof fn override_decides(self, size: nat)
        ensures
            self.overridden(Some(true)).applies(size),
            !self.overridden(Some(false)).applies(size),
            self.overridden(None) == self,
    {
    }

    /// Whether a message of this size is compressed.
    pub fn should_compress(self, size: usize) -> (r: bool)
        ensures
            r == self.applies(size as nat),
    {
        self.enabled && size >= self.min_size
    }
}

/// The encodings that a client knows. `identity`, which leaves messages as
/// they are, is always among them and never advertised.
#[derive(Debug, Clone, Copy, PartialEq, Eq, Structural)]
pub struct CompressionRegistry {
    pub gzip: bool,
}

impl Default for CompressionRegistry {
    fn default() -> (r: Self)
        ensures
            r == (CompressionRegistry { gzip: true }),
    {
        CompressionRegistry { gzip: true }
    }
}

/// What packing or unpacking a message gave, in mathematical terms.
pub open spec fn outcome_of(r: Result<Vec<u8>, ConnectError>) -> Result<Seq<u8>, error::ErrorView> {
    match r {
        Ok(v) => Ok(v@),
        Err(e) => Err(e@),
    }
}

/// The error for a message over the limit.
pub open spec fn too_large(size: nat, limit: nat) -> error::ErrorView {
    error::plain_error(
        ErrorCode::ResourceExhausted,
        "message size "@ + text::decimal(size) + " exceeds limit "@ + text::decimal(limit),
    )
}

/// The error for a message over the limit.
pub fn too_large_error(size: usize, limit: usize) -> (r: ConnectError)
    ensures
        r@ == too_large(size as nat, limit as nat),
{
    let mut m = text::join2("message size ", text::decimal_string(size as u128).as_str());
    m.push_str(" exceeds limit ");
    m.push_str(text::decimal_string(limit as u128).as_str());
    assert(m@ =~= "message size "@ + text::decimal(size as nat) + " exceeds limit "@
        + text::decimal(limit as nat));
    ConnectError::resource_exhausted(m.as_str())
}

/// How many bytes are read from a compressed message to tell whether it is
/// over the limit.
pub open spec fn read_cap(limit: usize) -> u64 {
    if limit < u64::MAX {
        (limit + 1) as u64
    } else {
        u64::MAX
    }
}

impl CompressionRegistry {
    /// Whether an encoding other than `identity` is known.
    pub open spec fn knows(self, encoding: Seq<char>) -> bool {
        self.gzip && encoding == "gzip"@
    }

    /// The list of encodings to advertise.
    pub open spec fn advertised(self) -> Seq<char> {
        if self.gzip {
            "gzip"@
        } else {
            Seq::empty()
        }
    }

    /// The error for an encoding that is not known.
    pub open spec fn unknown_encoding(encoding: Seq<char>) -> error::ErrorView {
        error::plain_error(
            ErrorCode::Unimplemented,
            "unsupported compression encoding: "@ + encoding,
        )
    }

    /// The error for a message that cannot be decompressed.
    pub open spec fn malformed() -> error::ErrorView {
        error::plain_error(ErrorCode::InvalidArgument, "malformed gzip data"@)
    }

    /// The error for a compressed message over the limit.
    pub open spec fn inflated_too_large(limit: nat) -> error::ErrorView {
        error::plain_error(
            ErrorCode::ResourceExhausted,
            "decompressed message size exceeds limit "@ + text::decimal(limit),
        )
    }

    /// What decompressing a message gives.
    pub open spec fn decompressed(
        self,
        encoding: Seq<char>,
        data: Seq<u8>,
        limit: usize,
    ) -> Result<Seq<u8>, error::ErrorView> {
        if encoding == "identity"@ {
            if data.len() <= limit {
                Ok(data)
            } else {
                Err(too_large(data.len(), limit as nat))
            }
        } else if self.knows(encoding) {
            match gunzip_prefix(data, read_cap(limit)) {
                None => Err(CompressionRegistry::malformed()),
                Some(out) => if out.len() <= limit {
                    Ok(out)
                } else {
                    Err(CompressionRegistry::inflated_too_large(limit as nat))
                },
            }
        } else {
            Err(CompressionRegistry::unknown_encoding(encoding))
        }
    }

    /// Whether `packed` is a message in an encoding.
    pub open spec fn is_packed(
        self,
        encoding: Seq<char>,
        data: Seq<u8>,
        packed: Seq<u8>,
    ) -> bool {
        if encoding == "identity"@ {
            packed == data
        } else {
            self.knows(encoding) && is_gzip_of(packed, data)
        }
    }

    /// A registry without any encoding but `identity`.
    pub fn new() -> (r: Self)
        ensures
            r == (CompressionRegistry { gzip: false }),
    {
        CompressionRegistry { gzip: false }
    }

    /// Whether an encoding other than `identity` is known.
    pub fn supports(&self, encoding: &str) -> (r: bool)
        ensures
            r == self.knows(encoding@),
    {
        self.gzip && text::text_equal(encoding, "gzip")
    }

    /// The list of encodings to advertise; empty when there is none.
    pub fn accept_encoding_header(&self) -> (r: &'static str)
        ensures
            r@ == self.advertised(),
    {
        if self.gzip {
            "gzip"
        } else {
            proof {
                reveal_strlit("");
            }
            assert(""@ =~= Seq::<char>::empty());
            ""
        }
    }

    /// Compresses a message.
    pub fn compress(&self, encoding: &str, data: &[u8]) -> (r: Result<Vec<u8>, ConnectError>)
        ensures
            match r {
                Ok(packed) => self.is_packed(encoding@, data@, packed@),
                Err(e) => {
                    &&& encoding@ != "identity"@
                    &&& !self.knows(encoding@)
                    &&& e@ == CompressionRegistry::unknown_encoding(encoding@)
                },
            },
    {
        if text::text_equal(encoding, "identity") {
            Ok(vstd::slice::slice_to_vec(data))
        } else if self.supports(encoding) {
            Ok(gzip(data))
        } else {
            Err(
                ConnectError::unimplemented(
                    text::join2("unsupported compression encoding: ", encoding).as_str(),
                ),
            )
        }
    }

    /// Decompresses a message, refusing one that is over the limit.
    pub fn decompress_with_limit(&self, encoding: &str, data: Vec<u8>, limit: usize) -> (r: Result<
        Vec<u8>,
        ConnectError,
    >)
        ensures
            outcome_of(r) == self.decompressed(encoding@, data@, limit),
    {
        if text::text_equal(encoding, "identity") {
            if data.len() <= limit {
                Ok(data)
            } else {
                Err(too_large_error(data.len(), limit))
            }
        } else if self.supports(encoding) {
            let cap: u64 = (limit as u64).saturating_add(1);
            match gunzip(data.as_slice(), cap) {
                None => Err(ConnectError::invalid_argument("malformed gzip data")),
                Some(out) => if out.len() <= limit {
                    Ok(out)
                } else {
                    Err(
                        ConnectError::resource_exhausted(
                            text::join2(
                                "decompressed message size exceeds limit ",
                                text::decimal_string(limit as u128).as_str(),
                            ).as_str(),
                        ),
                    )
                },
            }
        } else {
            Err(
                ConnectError::unimplemented(
                    text::join2("unsupported compression encoding: ", encoding).as_str(),
                ),
            )
        }
    }

    /// Decompressing gives back what was compressed, for every message within
    /// the limit; a compressed message over the limit is refused.
    pub proof fn decompression_inverts_compression(
        self,
        encoding: Seq<char>,
        data: Seq<u8>,
        packed: Seq<u8>,
        limit: usize,
    )
        requires
            self.is_packed(encoding, data, packed),
        ensures
            data.len() <= limit ==> self.decompressed(encoding, packed, limit) == Ok::<
                Seq<u8>,
                error::ErrorView,
            >(data),
            usize::MAX >= data.len() > limit ==> self.decompressed(encoding, packed, limit) is Err,
            usize::MAX >= data.len() > limit ==> self.decompressed(encoding, packed, limit)->Err_0.code
                == ErrorCode::ResourceExhausted,
    {
        if encoding != "identity"@ {
            assert(gunzip_prefix(packed, read_cap(limit)) == Some(capped(data, read_cap(limit))));
        }
    }

    /// What is decompressed is never over the limit.
    pub proof fn decompression_respects_the_limit(
        self,
        encoding: Seq<char>,
        data: Seq<u8>,
        limit: usize,
    )
        ensures
            self.decompressed(encoding, data, limit) matches Ok(out) ==> out.len() <= limit,
    {
    }
}

} // verus!
