//! Token vocabulary types exposed by the bound entry points.

use vstd::prelude::*;

verus! {

/// Whether tokenization prepends the beginning-of-stream token.
#[derive(Debug, Clone, Copy, PartialEq, Eq, Structural)]
pub enum AddBos {
    /// Add the beginning-of-stream token to the start of the string.
    Always,
    /// Do not add the beginning-of-stream token.
    Never,
}

impl AddBos {
    /// The flag handed to the tokenizer.
    pub fn should_add(self) -> (r: bool)
        ensures
            r == (self is Always),
    {
        matches!(self, AddBos::Always)
    }
}

/// The kind of vocabulary a model was trained with.
#[derive(Debug, Clone, Copy, PartialEq, Eq, Structural)]
pub enum VocabType {
    /// Byte-pair encoding.
    BPE,
    /// Sentence-piece tokenization.
    SPM,
}

/// The attribute class of one token.
#[derive(Debug, Clone, Copy, PartialEq, Eq, Structural)]
pub enum LlamaTokenType {
    Undefined,
    Normal,
    Unknown,
    Control,
    UserDefined,
    Unused,
    Byte,
}

/// How one token is rendered as text.
#[derive(Debug, Clone, Copy, PartialEq, Eq, Structural)]
pub enum PieceAction {
    /// Render as a line break.
    Newline,
    /// Ask the engine to decode the token's piece.
    Decode,
    /// Render as the empty string.
    Blank,
}

/// How a token is rendered: the newline token is a line break; normal,
/// user-defined, and control tokens away from the stream edges are
/// decoded; control tokens at the stream edges and undefined, unknown,
/// byte and unused tokens render as nothing.
pub fn token_piece_policy(token_type: LlamaTokenType, is_newline: bool, is_stream_edge: bool) -> (
    r: PieceAction)
    ensures
        is_newline ==> r is Newline,
        !is_newline && (token_type is Normal || token_type is UserDefined) ==> r is Decode,
        !is_newline && token_type is Control ==> r == (if is_stream_edge {
            PieceAction::Blank
        } else {
            PieceAction::Decode
        }),
        !is_newline && (token_type is Undefined || token_type is Unknown || token_type is Byte
            || token_type is Unused) ==> r is Blank,
{
    if is_newline {
        PieceAction::Newline
    } else {
        match token_type {
            LlamaTokenType::Normal | LlamaTokenType::UserDefined => PieceAction::Decode,
            LlamaTokenType::Control => {
                if is_stream_edge {
                    PieceAction::Blank
                } else {
                    PieceAction::Decode
                }
            },
            LlamaTokenType::Undefined
            | LlamaTokenType::Unknown
            | LlamaTokenType::Byte
            | LlamaTokenType::Unused => PieceAction::Blank,
        }
    }
}

} // verus!
