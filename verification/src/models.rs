//! Checks of model files and the limits the embedding engine applies to its
//! input.
use vstd::prelude::*;

use crate::text::{concat_str, decimal, decimal_string};

verus! {

/// Why a model file was refused.
#[derive(Debug, Clone, Copy, PartialEq, Eq, Structural)]
pub enum ModelFileError {
    /// There is no file at the path.
    Missing,
    /// The file is smaller than expected (its size, the least size expected).
    TooSmall(u64, u64),
    /// The first four bytes could not be read.
    UnreadableHeader,
    /// The file does not start with the GGUF magic bytes.
    NotGguf,
}

/// The message that a refused model file is reported with, given its path.
pub open spec fn model_file_error_text(e: ModelFileError, path: Seq<char>) -> Seq<char> {
    match e {
        ModelFileError::Missing => "Model file does not exist at "@ + path,
        ModelFileError::TooSmall(size, min) => "Model file size too small: "@ + decimal(
            size as nat,
        ) + " bytes (expected at least "@ + decimal(min as nat) + ")"@,
        ModelFileError::UnreadableHeader => "Failed to read file header"@,
        ModelFileError::NotGguf => "Invalid file format: Header is not 'GGUF'"@,
    }
}

impl ModelFileError {
    /// The message this error is reported with, for the file at `path`.
    pub fn message(self, path: &str) -> (r: String)
        ensures
            r@ == model_file_error_text(self, path@),
    {
        match self {
            ModelFileError::Missing => concat_str("Model file does not exist at ", path),
            ModelFileError::TooSmall(size, min) => {
                let m = concat_str("Model file size too small: ", decimal_string(size).as_str());
                let m = concat_str(m.as_str(), " bytes (expected at least ");
                let m = concat_str(m.as_str(), decimal_string(min).as_str());
                concat_str(m.as_str(), ")")
            },
            ModelFileError::UnreadableHeader => "Failed to read file header".to_owned(),
            ModelFileError::NotGguf => "Invalid file format: Header is not 'GGUF'".to_owned(),
        }
    }
}

/// The magic bytes that start a GGUF model file: `GGUF`.
pub open spec fn gguf_magic() -> Seq<u8> {
    seq![71u8, 71u8, 85u8, 70u8]
}

/// The verdict on a model file, in the order of the checks: it exists, it is
/// at least `expected_size_min` bytes, its first four bytes can be read, and
/// they are `GGUF`.
pub open spec fn model_file_verdict(
    exists: bool,
    size: u64,
    expected_size_min: u64,
    header: Option<Seq<u8>>,
) -> Result<(), ModelFileError> {
    if !exists {
        Err(ModelFileError::Missing)
    } else if size < expected_size_min {
        Err(ModelFileError::TooSmall(size, expected_size_min))
    } else {
        match header {
            None => Err(ModelFileError::UnreadableHeader),
            Some(h) => if h == gguf_magic() {
                Ok(())
            } else {
                Err(ModelFileError::NotGguf)
            },
        }
    }
}

/// Judges a model file from what was read of it: whether it exists, its size,
/// and its first four bytes (`None` when they could not be read).
pub fn validate_model_file(exists: bool, size: u64, expected_size_min: u64, header: Option<&[u8]>) -> (r:
    Result<(), ModelFileError>)
    ensures
        r == model_file_verdict(
            exists,
            size,
            expected_size_min,
            match header {
                Some(h) => Some(h@),
                None => None,
            },
        ),
{
    if !exists {
        return Err(ModelFileError::Missing);
    }
    if size < expected_size_min {
        return Err(ModelFileError::TooSmall(size, expected_size_min));
    }
    match header {
        None => Err(ModelFileError::UnreadableHeader),
        Some(h) => {
            if h.len() == 4 && h[0] == 71 && h[1] == 71 && h[2] == 85 && h[3] == 70 {
                assert(h@ =~= gguf_magic());
                Ok(())
            } else {
                assert(h@ != gguf_magic()) by {
                    if h@ == gguf_magic() {
                        assert(h@[0] == 71u8 && h@[1] == 71u8 && h@[2] == 85u8 && h@[3] == 70u8);
                    }
                }
                Err(ModelFileError::NotGguf)
            }
        },
    }
}

/// The number of tokens the embedding engine feeds at once: the model
/// context's size, capped by the configured context size.
pub fn context_window(model_context: u32, context_size: usize) -> (r: usize)
    ensures
        r == (if (model_context as int) < (context_size as int) {
            model_context as int
        } else {
            context_size as int
        }),
{
    if (model_context as u64) < (context_size as u64) {
        model_context as usize
    } else {
        context_size
    }
}

/// The tokens of a text cut to the context window: the first `n_ctx` of them.
pub fn fit_tokens(tokens: Vec<i32>, n_ctx: usize) -> (r: Vec<i32>)
    ensures
        r@ == (if tokens@.len() > n_ctx {
            tokens@.take(n_ctx as int)
        } else {
            tokens@
        }),
{
    if tokens.len() <= n_ctx {
        return tokens;
    }
    let mut r: Vec<i32> = Vec::new();
    let mut i: usize = 0;
    while i < n_ctx
        invariant
            i <= n_ctx < tokens@.len(),
            r@ == tokens@.take(i as int),
        decreases n_ctx - i,
    {
        r.push(tokens[i]);
        i = i + 1;
    }
    r
}

} // verus!
