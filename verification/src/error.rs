use vstd::prelude::*;
use vstd::string::*;
use crate::text::{decimal, push_decimal};

verus! {

/// `std::io::Error`, carried opaquely by [`ImgToTerminalError::IoError`].
#[verifier::external_type_specification]
#[verifier::external_body]
pub struct ExIoError(std::io::Error);

/// Everything that can go wrong while loading and showing media.
#[derive(Debug)]
pub enum ImgToTerminalError {
    FileNotFound(String),
    UnknownFormat(String),
    VideoOpen(String),
    VideoDecode(String),
    VideoInit(String),
    ImageLoad(String),
    NoFrames(String),
    TerminalTooSmall(u16, u16),
    IoError(std::io::Error),
}

/// `image::ImageError`, which only [`image_load_error`] takes.
#[verifier::external_type_specification]
#[verifier::external_body]
pub struct ExImageError(image::ImageError);

/// The user-facing message of each error whose text depends only on its fields.
pub open spec fn spec_message(e: ImgToTerminalError) -> Seq<char> {
    match e {
        ImgToTerminalError::FileNotFound(path) => "File non trovato: '"@ + path@
            + "'.\nAssicurati che il percorso esista e sia leggibile."@,
        ImgToTerminalError::UnknownFormat(ext) => "Formato '"@ + ext@
            + "' non supportato.\nFormati video supportati: mp4, mov, avi, webm, mkv, m4v\nFormati immagine supportati: png, jpg, jpeg, bmp, gif, webp"@,
        ImgToTerminalError::VideoOpen(detail) => "Impossibile aprire il video: "@ + detail@
            + ".\nVerifica che il file non sia corrotto e che FFmpeg sia installato."@,
        ImgToTerminalError::VideoDecode(detail) => "Errore durante la decodifica del video: "@
            + detail@ + "."@,
        ImgToTerminalError::VideoInit(detail) => "Impossibile inizializzare il motore video: "@
            + detail@ + ".\nAssicurati che FFmpeg sia installato sul sistema."@,
        ImgToTerminalError::ImageLoad(detail) => "Impossibile caricare l'immagine: "@ + detail@
            + ".\nVerifica che il file non sia corrotto."@,
        ImgToTerminalError::NoFrames(path) => "Nessun frame valido trovato in '"@ + path@
            + "'.\nIl file potrebbe essere vuoto o illeggibile."@,
        ImgToTerminalError::TerminalTooSmall(cols, rows) => "Terminale troppo piccolo ("@
            + decimal(cols as nat) + "col x "@ + decimal(rows as nat)
            + "righe).\nServono almeno 20 colonne per visualizzare qualcosa."@,
        ImgToTerminalError::IoError(_) => Seq::empty(),
    }
}

/// `s` is the message of `e`: exactly `spec_message(e)`, or, for an I/O
/// error, the I/O error's own `Display` text between a fixed prefix and a
/// full stop.
pub open spec fn is_message_of(e: ImgToTerminalError, s: Seq<char>) -> bool {
    match e {
        ImgToTerminalError::IoError(err) => exists|t: String|
            to_string_from_display_ensures::<std::io::Error>(&err, t) && s == "Errore di I/O: "@
                + t@ + "."@,
        _ => s == spec_message(e),
    }
}

impl ImgToTerminalError {
    /// The message shown to the user for this error.
    pub fn message(&self) -> (s: String)
        ensures
            is_message_of(*self, s@),
    {
        let mut s = String::new();
        match self {
            ImgToTerminalError::FileNotFound(path) => {
                s.append("File non trovato: '");
                s.append(path.as_str());
                s.append("'.\nAssicurati che il percorso esista e sia leggibile.");
            },
            ImgToTerminalError::UnknownFormat(ext) => {
                s.append("Formato '");
                s.append(ext.as_str());
                s.append(
                    "' non supportato.\nFormati video supportati: mp4, mov, avi, webm, mkv, m4v\nFormati immagine supportati: png, jpg, jpeg, bmp, gif, webp",
                );
            },
            ImgToTerminalError::VideoOpen(detail) => {
                s.append("Impossibile aprire il video: ");
                s.append(detail.as_str());
                s.append(".\nVerifica che il file non sia corrotto e che FFmpeg sia installato.");
            },
            ImgToTerminalError::VideoDecode(detail) => {
                s.append("Errore durante la decodifica del video: ");
                s.append(detail.as_str());
                s.append(".");
            },
            ImgToTerminalError::VideoInit(detail) => {
                s.append("Impossibile inizializzare il motore video: ");
                s.append(detail.as_str());
                s.append(".\nAssicurati che FFmpeg sia installato sul sistema.");
            },
            ImgToTerminalError::ImageLoad(detail) => {
                s.append("Impossibile caricare l'immagine: ");
                s.append(detail.as_str());
                s.append(".\nVerifica che il file non sia corrotto.");
            },
            ImgToTerminalError::NoFrames(path) => {
                s.append("Nessun frame valido trovato in '");
                s.append(path.as_str());
                s.append("'.\nIl file potrebbe essere vuoto o illeggibile.");
            },
            ImgToTerminalError::TerminalTooSmall(cols, rows) => {
                s.append("Terminale troppo piccolo (");
                push_decimal(&mut s, *cols as u64);
                s.append("col x ");
                push_decimal(&mut s, *rows as u64);
                s.append("righe).\nServono almeno 20 colonne per visualizzare qualcosa.");
            },
            ImgToTerminalError::IoError(err) => {
                let text: String = err.to_string();
                s.append("Errore di I/O: ");
                s.append(text.as_str());
                s.append(".");
                assert(s@ =~= "Errore di I/O: "@ + text@ + "."@);
            },
        }
        s
    }

    /// The underlying I/O error, for an I/O error; nothing otherwise.
    pub fn source(&self) -> (r: Option<&std::io::Error>)
        ensures
            match *self {
                ImgToTerminalError::IoError(err) => r == Some(&err),
                _ => r is None,
            },
    {
        match self {
            ImgToTerminalError::IoError(err) => Some(err),
            _ => None,
        }
    }
}

impl From<std::io::Error> for ImgToTerminalError {
    fn from(err: std::io::Error) -> (e: Self) {
        ImgToTerminalError::IoError(err)
    }
}

impl vstd::std_specs::convert::FromSpecImpl<std::io::Error> for ImgToTerminalError {
    open spec fn obeys_from_spec() -> bool {
        true
    }

    open spec fn from_spec(err: std::io::Error) -> Self {
        ImgToTerminalError::IoError(err)
    }
}

/// The error reported when an image cannot be decoded: an image-load error
/// that carries the image library's own text.
pub fn image_load_error(err: &image::ImageError) -> (e: ImgToTerminalError)
    ensures
        e matches ImgToTerminalError::ImageLoad(s) && to_string_from_display_ensures::<
            image::ImageError,
        >(err, s),
{
    ImgToTerminalError::ImageLoad(err.to_string())
}

} // verus!
