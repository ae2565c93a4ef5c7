//! Output formats and the choice of which requested formats get rendered.
use vstd::prelude::*;
use crate::text::{all_ascii, is_ascii_lowercase_of, lower_of, lowercase, prefixed, str_eq};

verus! {

/// The output formats a user can ask for.
#[derive(Debug, Clone, Copy, Hash, PartialEq, Eq, Structural)]
pub enum OutputFormat {
    Json,
    StackTrace,
    Azure,
    Junit,
}

/// The format that a lowercase name stands for, if any.
pub open spec fn format_named(name: Seq<char>) -> Option<OutputFormat> {
    if name == "json"@ {
        Some(OutputFormat::Json)
    } else if name == "stacktrace"@ {
        Some(OutputFormat::StackTrace)
    } else if name == "azure"@ {
        Some(OutputFormat::Azure)
    } else if name == "junit"@ {
        Some(OutputFormat::Junit)
    } else {
        None
    }
}

/// The message of the error for a name that is no output format.
pub open spec fn unknown_format_message(name: Seq<char>) -> Seq<char> {
    "Unknown output format: "@ + name
}

impl OutputFormat {
    /// The format named by an already lowercased name.
    pub fn from_lowercase_name(name: &str) -> (r: Option<OutputFormat>)
        ensures
            r == format_named(name@),
    {
        if str_eq(name, "json") {
            Some(OutputFormat::Json)
        } else if str_eq(name, "stacktrace") {
            Some(OutputFormat::StackTrace)
        } else if str_eq(name, "azure") {
            Some(OutputFormat::Azure)
        } else if str_eq(name, "junit") {
            Some(OutputFormat::Junit)
        } else {
            None
        }
    }

    /// The format named by `s`, ignoring case.
    pub fn from_name(s: &str) -> (r: Result<OutputFormat, String>)
        ensures
            all_ascii(s@) ==> is_ascii_lowercase_of(lower_of(s@), s@),
            format_named(lower_of(s@)) is Some ==> r == Ok::<OutputFormat, String>(
                format_named(lower_of(s@))->0,
            ),
            format_named(lower_of(s@)) is None ==> r is Err && r->Err_0@ == unknown_format_message(
                s@,
            ),
    {
        let lowered = lowercase(s);
        match OutputFormat::from_lowercase_name(lowered.as_str()) {
            Some(f) => Ok(f),
            None => Err(prefixed("Unknown output format: ", s)),
        }
    }
}

impl std::str::FromStr for OutputFormat {
    type Err = String;

    fn from_str(s: &str) -> (r: Result<OutputFormat, String>)
        ensures
            all_ascii(s@) ==> is_ascii_lowercase_of(lower_of(s@), s@),
            format_named(lower_of(s@)) is Some ==> r == Ok::<OutputFormat, String>(
                format_named(lower_of(s@))->0,
            ),
            format_named(lower_of(s@)) is None ==> r is Err && r->Err_0@ == unknown_format_message(
                s@,
            ),
    {
        OutputFormat::from_name(s)
    }
}

/// Why rendering the output failed.
pub enum OutputManagerError {
    /// A formatter failed; the message says why.
    OutputFormattingFailed(String),
}

/// The requested formats that have a registered formatter, in the order requested.
pub open spec fn renderable(requested: Seq<OutputFormat>, registered: Seq<OutputFormat>) -> Seq<
    OutputFormat,
>
    decreases requested.len(),
{
    if requested.len() == 0 {
        Seq::empty()
    } else {
        let before = renderable(requested.drop_last(), registered);
        if registered.contains(requested.last()) {
            before.push(requested.last())
        } else {
            before
        }
    }
}

/// The registry of output formats that have a formatter.
pub struct OutputManager {
    formatters: Vec<OutputFormat>,
}

impl View for OutputManager {
    type V = Seq<OutputFormat>;

    closed spec fn view(&self) -> Seq<OutputFormat> {
        self.formatters@
    }
}

impl OutputManager {
    /// A registry with the JSON and Azure formatters.
    pub fn new() -> (r: OutputManager)
        ensures
            r@ == seq![OutputFormat::Json, OutputFormat::Azure],
    {
        let mut formatters: Vec<OutputFormat> = Vec::new();
        formatters.push(OutputFormat::Json);
        formatters.push(OutputFormat::Azure);
        OutputManager { formatters }
    }

    /// Whether `format` has a registered formatter.
    pub fn has_formatter(&self, format: OutputFormat) -> (r: bool)
        ensures
            r == self@.contains(format),
    {
        let mut i: usize = 0;
        while i < self.formatters.len()
            invariant
                i <= self@.len(),
                forall|j: int| 0 <= j < i ==> self@[j] != format,
            decreases self@.len() - i,
        {
            if self.formatters[i] == format {
                return true;
            }
            i = i + 1;
        }
        false
    }

    /// The formats of `requested` to render, in order: those without a registered
    /// formatter are skipped.
    pub fn formats_to_render(&self, requested: &Vec<OutputFormat>) -> (r: Vec<OutputFormat>)
        ensures
            r@ == renderable(requested@, self@),
    {
        let mut r: Vec<OutputFormat> = Vec::new();
        let mut i: usize = 0;
        while i < requested.len()
            invariant
                i <= requested@.len(),
                r@ == renderable(requested@.subrange(0, i as int), self@),
            decreases requested@.len() - i,
        {
            let f = requested[i];
            assert(requested@.subrange(0, i + 1).drop_last() == requested@.subrange(0, i as int));
            if self.has_formatter(f) {
                r.push(f);
            }
            i = i + 1;
        }
        assert(requested@.subrange(0, requested@.len() as int) == requested@);
        r
    }
}

} // verus!
