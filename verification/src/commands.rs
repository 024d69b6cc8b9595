//! What the command line can ask for, worked out on bytes already read: each
//! command takes the contents of a container file and says what is to be
//! written or shown.

use crate::checksum::crc32;
use crate::chunk::{Chunk, ChunkView};
use crate::chunk_type::{type_from_text, ChunkType};
use crate::error::Error;
use crate::png::{parse_png, position, render_png, serialize_png, Png};
use vstd::prelude::*;
use vstd::slice::slice_to_vec;
use vstd::string::StringSliceAdditionalSpecFns;
use vstd::utf8::{decode_utf8, encode_utf8, valid_utf8};

verus! {

/// A command, with the file it works on.
#[derive(Debug, PartialEq, Eq)]
pub enum Commands {
    /// Put a message into the file, in a chunk of the given type.
    Encode { file_path: String, chunk_type: String, message: String },
    /// Show the message held by the first chunk of the given type.
    Decode { file_path: String, chunk_type: String },
    /// Take the first chunk of the given type out of the file.
    Remove { file_path: String, chunk_type: String },
    /// Show every chunk of the file.
    Print { file_path: String },
}

/// The arguments of one run.
#[derive(Debug, PartialEq, Eq)]
pub struct Args {
    pub command: Commands,
}

/// What a command leaves to be done.
#[derive(Debug, PartialEq, Eq)]
pub enum Outcome {
    /// The container with the new chunk at its end, to be written out.
    Encoded { bytes: Vec<u8> },
    /// The message that was found, to be shown.
    Decoded { message: String },
    /// The container without the chunk, to be written out, and the
    /// message of the chunk taken out, where its payload is text.
    Removed { bytes: Vec<u8>, taken: Option<String> },
    /// The container set out for reading, to be shown.
    Printed { text: String },
}

/// What an outcome holds, with texts and bytes as sequences.
pub enum OutcomeView {
    Encoded { bytes: Seq<u8> },
    Decoded { message: Seq<char> },
    Removed { bytes: Seq<u8>, taken: Option<Seq<char>> },
    Printed { text: Seq<char> },
}

impl View for Outcome {
    type V = OutcomeView;

    open spec fn view(&self) -> OutcomeView {
        match self {
            Outcome::Encoded { bytes } => OutcomeView::Encoded { bytes: bytes@ },
            Outcome::Decoded { message } => OutcomeView::Decoded { message: message@ },
            Outcome::Removed { bytes, taken } => OutcomeView::Removed {
                bytes: bytes@,
                taken: match taken {
                    Some(m) => Some(m@),
                    None => None,
                },
            },
            Outcome::Printed { text } => OutcomeView::Printed { text: text@ },
        }
    }
}

/// The chunk that `Chunk::new` makes of a type code and a payload.
pub open spec fn new_chunk(chunk_type: Seq<u8>, data: Seq<u8>) -> ChunkView {
    ChunkView { chunk_type, data, crc: crc32(chunk_type + data) }
}

/// The file with a chunk of the given type and payload at its end. The file
/// is parsed first, then the type code is read.
pub open spec fn encoded(file: Seq<u8>, chunk_type: Seq<u8>, message: Seq<u8>) -> Result<
    Seq<u8>,
    Error,
> {
    match parse_png(file) {
        Err(e) => Err(e),
        Ok(chunks) => match type_from_text(chunk_type) {
            Err(e) => Err(e),
            Ok(code) => Ok(serialize_png(chunks.push(new_chunk(code, message)))),
        },
    }
}

/// The payload of the first chunk of the given type, as text.
pub open spec fn decoded(file: Seq<u8>, chunk_type: Seq<char>) -> Result<Seq<char>, Error> {
    match parse_png(file) {
        Err(e) => Err(e),
        Ok(chunks) => {
            let at = position(chunks, chunk_type);
            if at >= chunks.len() {
                Err(Error::ChunkNotFound)
            } else if !valid_utf8(chunks[at].data) {
                Err(Error::NotUtf8)
            } else {
                Ok(decode_utf8(chunks[at].data))
            }
        },
    }
}

/// The file without its first chunk of the given type, and that chunk's
/// payload as text where it is text.
pub open spec fn removed(file: Seq<u8>, chunk_type: Seq<char>) -> Result<
    (Seq<u8>, Option<Seq<char>>),
    Error,
> {
    match parse_png(file) {
        Err(e) => Err(e),
        Ok(chunks) => {
            let at = position(chunks, chunk_type);
            if at >= chunks.len() {
                Err(Error::ChunkNotFound)
            } else {
                Ok(
                    (
                        serialize_png(chunks.remove(at)),
                        if valid_utf8(chunks[at].data) {
                            Some(decode_utf8(chunks[at].data))
                        } else {
                            None
                        },
                    ),
                )
            }
        },
    }
}

/// The file set out for reading.
pub open spec fn printed(file: Seq<u8>) -> Result<Seq<char>, Error> {
    match parse_png(file) {
        Err(e) => Err(e),
        Ok(chunks) => Ok(render_png(chunks)),
    }
}

/// What running a command on the contents of its file gives.
pub open spec fn outcome_of(command: Commands, file: Seq<u8>) -> Result<OutcomeView, Error> {
    match command {
        Commands::Encode { file_path, chunk_type, message } => match encoded(
            file,
            encode_utf8(chunk_type@),
            encode_utf8(message@),
        ) {
            Ok(bytes) => Ok(OutcomeView::Encoded { bytes }),
            Err(e) => Err(e),
        },
        Commands::Decode { file_path, chunk_type } => match decoded(file, chunk_type@) {
            Ok(message) => Ok(OutcomeView::Decoded { message }),
            Err(e) => Err(e),
        },
        Commands::Remove { file_path, chunk_type } => match removed(file, chunk_type@) {
            Ok((bytes, taken)) => Ok(OutcomeView::Removed { bytes, taken }),
            Err(e) => Err(e),
        },
        Commands::Print { file_path } => match printed(file) {
            Ok(text) => Ok(OutcomeView::Printed { text }),
            Err(e) => Err(e),
        },
    }
}

/// Puts `message` into the container `file`, as the payload of a new chunk
/// of type `chunk_type` at its end, and returns the new container.
pub fn encode(file: &[u8], chunk_type: &str, message: &str) -> (r: Result<Vec<u8>, Error>)
    ensures
        match r {
            Ok(bytes) => encoded(file@, chunk_type.spec_bytes(), message.spec_bytes()) == Ok::<
                Seq<u8>,
                Error,
            >(bytes@),
            Err(e) => encoded(file@, chunk_type.spec_bytes(), message.spec_bytes()) == Err::<
                Seq<u8>,
                Error,
            >(e),
        },
{
    let mut png = match Png::try_from(file) {
        Ok(png) => png,
        Err(e) => {
            return Err(e);
        },
    };
    let code = match ChunkType::from_str(chunk_type) {
        Ok(code) => code,
        Err(e) => {
            return Err(e);
        },
    };
    let chunk = Chunk::new(code, slice_to_vec(message.as_bytes()));
    assert(chunk@ == new_chunk(code@, message.spec_bytes()));
    png.append_chunk(chunk);
    Ok(png.as_bytes())
}

/// The message held by the first chunk of type `chunk_type` in the
/// container `file`.
pub fn decode(file: &[u8], chunk_type: &str) -> (r: Result<String, Error>)
    ensures
        match r {
            Ok(message) => decoded(file@, chunk_type@) == Ok::<Seq<char>, Error>(message@),
            Err(e) => decoded(file@, chunk_type@) == Err::<Seq<char>, Error>(e),
        },
{
    let png = match Png::try_from(file) {
        Ok(png) => png,
        Err(e) => {
            return Err(e);
        },
    };
    match png.chunk_by_type(chunk_type) {
        None => Err(Error::ChunkNotFound),
        Some(chunk) => chunk.data_as_string(),
    }
}

/// Takes the first chunk of type `chunk_type` out of the container `file`.
/// Returns the container without it, and its message where its payload is
/// text.
pub fn remove(file: &[u8], chunk_type: &str) -> (r: Result<(Vec<u8>, Option<String>), Error>)
    ensures
        match r {
            Ok((bytes, message)) => removed(file@, chunk_type@) == Ok::<
                (Seq<u8>, Option<Seq<char>>),
                Error,
            >(
                (
                    bytes@,
                    match message {
                        Some(m) => Some(m@),
                        None => None,
                    },
                ),
            ),
            Err(e) => removed(file@, chunk_type@) == Err::<(Seq<u8>, Option<Seq<char>>), Error>(e),
        },
{
    let mut png = match Png::try_from(file) {
        Ok(png) => png,
        Err(e) => {
            return Err(e);
        },
    };
    let chunk = match png.remove_first_chunk(chunk_type) {
        Ok(chunk) => chunk,
        Err(e) => {
            return Err(e);
        },
    };
    let message = match chunk.data_as_string() {
        Ok(m) => Some(m),
        Err(_) => None,
    };
    Ok((png.as_bytes(), message))
}

/// The container `file` set out for reading.
pub fn print_png(file: &[u8]) -> (r: Result<String, Error>)
    ensures
        match r {
            Ok(text) => printed(file@) == Ok::<Seq<char>, Error>(text@),
            Err(e) => printed(file@) == Err::<Seq<char>, Error>(e),
        },
{
    match Png::try_from(file) {
        Ok(png) => Ok(png.to_string()),
        Err(e) => Err(e),
    }
}

/// Runs `command` on the contents of the file it names.
pub fn run(command: &Commands, file: &[u8]) -> (r: Result<Outcome, Error>)
    ensures
        match r {
            Ok(outcome) => outcome_of(*command, file@) == Ok::<OutcomeView, Error>(outcome@),
            Err(e) => outcome_of(*command, file@) == Err::<OutcomeView, Error>(e),
        },
{
    match command {
        Commands::Encode { file_path, chunk_type, message } => {
            match encode(file, chunk_type.as_str(), message.as_str()) {
                Ok(bytes) => Ok(Outcome::Encoded { bytes }),
                Err(e) => Err(e),
            }
        },
        Commands::Decode { file_path, chunk_type } => {
            match decode(file, chunk_type.as_str()) {
                Ok(message) => Ok(Outcome::Decoded { message }),
                Err(e) => Err(e),
            }
        },
        Commands::Remove { file_path, chunk_type } => {
            match remove(file, chunk_type.as_str()) {
                Ok((bytes, taken)) => Ok(Outcome::Removed { bytes, taken }),
                Err(e) => Err(e),
            }
        },
        Commands::Print { file_path } => {
            match print_png(file) {
                Ok(text) => Ok(Outcome::Printed { text }),
                Err(e) => Err(e),
            }
        },
    }
}

} // verus!
