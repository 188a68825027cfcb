//! What the program can be asked to do, with the arguments of each request.

use crate::chunk_type::ChunkType;
use std::path::PathBuf;
use vstd::prelude::*;

verus! {

/// The path of a file, as `std::path::PathBuf` holds it. Nothing is read from it here.
#[verifier::external_type_specification]
#[verifier::external_body]
pub struct ExPathBuf(std::path::PathBuf);

/// The arguments of the program.
#[derive(Debug)]
pub struct CmdOptions {
    /// The request that was made.
    pub sub_command: Commands,
}

/// The four requests.
#[derive(Debug)]
pub enum Commands {
    /// Hide a message in a file.
    Encode(Encode),
    /// Show the message hidden in a file.
    Decode(Decode),
    /// Take a hidden message out of a file.
    Remove(Remove),
    /// List the chunks of a file.
    Print(Print),
}

/// Put a chunk of the given type at the end of the file, with the message as its data.
#[derive(Debug)]
pub struct Encode {
    /// The file to change.
    pub file_path: PathBuf,
    /// The type of the new chunk.
    pub chunk_type: ChunkType,
    /// The message to hide.
    pub message: String,
}

/// Show the data of the first chunk of the given type as text.
#[derive(Debug)]
pub struct Decode {
    /// The file to read.
    pub file_path: PathBuf,
    /// The type of the chunk that holds the message.
    pub chunk_type: ChunkType,
}

/// Take the first chunk of the given type out of the file.
#[derive(Debug)]
pub struct Remove {
    /// The file to change.
    pub file_path: PathBuf,
    /// The type of the chunk to take out.
    pub chunk_type: ChunkType,
}

/// Show every chunk of the file.
#[derive(Debug)]
pub struct Print {
    /// The file to read.
    pub file_path: PathBuf,
}

} // verus!
