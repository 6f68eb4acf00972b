//! The error type of the viewer.
use crate::utils::text::push_str;
use std::io;
use vstd::prelude::*;

verus! {

#[verifier::external_type_specification]
#[verifier::external_body]
pub struct ExIoError(io::Error);

/// Every failure of the viewer: I/O, configuration, decoding, an unsupported
/// format or unreadable EXIF metadata.
#[derive(Debug)]
pub enum ShImagesError {
    /// Reading or writing a file failed.
    Io(io::Error),
    /// Reading, writing or parsing the configuration failed.
    Config(String),
    /// An image could not be decoded.
    Decode(String),
    /// The image format is not supported.
    UnsupportedFormat(String),
    /// The EXIF metadata could not be parsed.
    Exif(String),
}

/// The viewer's result type.
pub type Result<T> = std::result::Result<T, ShImagesError>;

/// `<io::Error as Display>::fmt`: the error's description, as the operating
/// system words it. Nothing is stated of the text.
#[verifier::external_body]
fn io_error_text(e: &io::Error) -> String {
    format!("{e}")
}

impl From<io::Error> for ShImagesError {
    fn from(e: io::Error) -> (r: Self) {
        ShImagesError::Io(e)
    }
}

impl vstd::std_specs::convert::FromSpecImpl<io::Error> for ShImagesError {
    open spec fn obeys_from_spec() -> bool {
        true
    }

    open spec fn from_spec(v: io::Error) -> ShImagesError {
        ShImagesError::Io(v)
    }
}

/// The message of a non-I/O error: a prefix naming the kind, then the
/// details.
pub open spec fn message_spec(e: ShImagesError) -> Seq<char> {
    match e {
        ShImagesError::Io(_) => "io error: "@,
        ShImagesError::Config(m) => "configuration error: "@ + m@,
        ShImagesError::Decode(m) => "decode error: "@ + m@,
        ShImagesError::UnsupportedFormat(m) => "unsupported format: "@ + m@,
        ShImagesError::Exif(m) => "exif error: "@ + m@,
    }
}

impl ShImagesError {
    /// The human-readable message of the error. For an I/O error it is
    /// `io error: ` followed by the system's description.
    pub fn message(&self) -> (r: String)
        ensures
            self is Io ==> message_spec(*self).is_prefix_of(r@),
            !(self is Io) ==> r@ == message_spec(*self),
    {
        let mut r = String::new();
        match self {
            ShImagesError::Io(e) => {
                push_str(&mut r, "io error: ");
                let ghost before = r@;
                let t = io_error_text(e);
                push_str(&mut r, t.as_str());
                assert(r@.take("io error: "@.len() as int) =~= "io error: "@);
            },
            ShImagesError::Config(m) => {
                push_str(&mut r, "configuration error: ");
                push_str(&mut r, m.as_str());
            },
            ShImagesError::Decode(m) => {
                push_str(&mut r, "decode error: ");
                push_str(&mut r, m.as_str());
            },
            ShImagesError::UnsupportedFormat(m) => {
                push_str(&mut r, "unsupported format: ");
                push_str(&mut r, m.as_str());
            },
            ShImagesError::Exif(m) => {
                push_str(&mut r, "exif error: ");
                push_str(&mut r, m.as_str());
            },
        }
        r
    }
}

} // verus!
