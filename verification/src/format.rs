//! The closed set of paste formats and what each one determines.
use crate::text::str_eq;
use vstd::prelude::*;

verus! {

/// The format of a paste's content, fixed at submission time.  It determines
/// the stored file extension and the content type served back.
#[derive(Clone, Copy, Debug, PartialEq, Eq, Structural)]
pub enum PasteFormat {
    /// Plain text, submitted as `text`.
    Text,
    /// An HTML document, submitted as `html`.
    Html,
    /// An ANSI-colored log, submitted as `ansi-log`.
    AnsiLog,
}

/// The format a submitted discriminant string names, if any.
pub open spec fn parse_format_spec(s: Seq<char>) -> Option<PasteFormat> {
    if s == "text"@ {
        Some(PasteFormat::Text)
    } else if s == "html"@ {
        Some(PasteFormat::Html)
    } else if s == "ansi-log"@ {
        Some(PasteFormat::AnsiLog)
    } else {
        None
    }
}

/// The file extension stored keys carry for this format.
pub open spec fn format_ext(f: PasteFormat) -> Seq<char> {
    match f {
        PasteFormat::Text => "txt"@,
        PasteFormat::Html => "html"@,
        PasteFormat::AnsiLog => "log"@,
    }
}

/// The content type the blob is served with.
pub open spec fn format_content_type(f: PasteFormat) -> Seq<char> {
    match f {
        PasteFormat::Text => "text/plain"@,
        PasteFormat::Html => "text/html"@,
        PasteFormat::AnsiLog => "text/plain"@,
    }
}

/// The discriminant string the format is stored under.
pub open spec fn format_name(f: PasteFormat) -> Seq<char> {
    match f {
        PasteFormat::Text => "text"@,
        PasteFormat::Html => "html"@,
        PasteFormat::AnsiLog => "ansi-log"@,
    }
}

impl PasteFormat {
    /// Parse a submitted discriminant string; anything but `text`, `html`
    /// or `ansi-log` is refused.
    pub fn parse(s: &str) -> (r: Option<PasteFormat>)
        ensures
            r == parse_format_spec(s@),
    {
        if str_eq(s, "text") {
            Some(PasteFormat::Text)
        } else if str_eq(s, "html") {
            Some(PasteFormat::Html)
        } else if str_eq(s, "ansi-log") {
            Some(PasteFormat::AnsiLog)
        } else {
            None
        }
    }

    /// The file extension stored keys carry for this format.
    pub fn extension(&self) -> (r: &'static str)
        ensures
            r@ == format_ext(*self),
    {
        match self {
            PasteFormat::Text => "txt",
            PasteFormat::Html => "html",
            PasteFormat::AnsiLog => "log",
        }
    }

    /// The content type the blob is served with.
    pub fn content_type(&self) -> (r: &'static str)
        ensures
            r@ == format_content_type(*self),
    {
        match self {
            PasteFormat::Text => "text/plain",
            PasteFormat::Html => "text/html",
            PasteFormat::AnsiLog => "text/plain",
        }
    }

    /// The discriminant string the format is stored under.
    pub fn name(&self) -> (r: &'static str)
        ensures
            r@ == format_name(*self),
    {
        match self {
            PasteFormat::Text => "text",
            PasteFormat::Html => "html",
            PasteFormat::AnsiLog => "ansi-log",
        }
    }
}

/// Parsing maps each format's own name back to it.
pub proof fn lemma_format_name_round_trip(f: PasteFormat)
    ensures
        parse_format_spec(format_name(f)) == Some(f),
{
    reveal_strlit("text");
    reveal_strlit("html");
    reveal_strlit("ansi-log");
    assert("html"@ != "text"@) by {
        assert("html"@[0] == 'h' && "text"@[0] == 't');
    }
    assert("ansi-log"@ != "text"@) by {
        assert("ansi-log"@.len() == 8 && "text"@.len() == 4);
    }
    assert("ansi-log"@ != "html"@) by {
        assert("ansi-log"@.len() == 8 && "html"@.len() == 4);
    }
}

} // verus!
