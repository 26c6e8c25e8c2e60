//! What is kept of a crash, to report it once.
use vstd::prelude::*;

verus! {

/// Where a panic happened and what it said.
#[derive(Debug, Clone, Eq, Hash)]
pub struct Panic {
    pub line: Option<u32>,
    pub file: String,
    pub message: String,
}

impl PartialEq for Panic {
    fn eq(&self, other: &Self) -> (r: bool) {
        self.line == other.line && self.file == other.file && self.message == other.message
    }
}

impl vstd::std_specs::cmp::PartialEqSpecImpl for Panic {
    open spec fn obeys_eq_spec() -> bool {
        true
    }

    open spec fn eq_spec(&self, other: &Self) -> bool {
        self.line == other.line && self.file@ == other.file@ && self.message@ == other.message@
    }
}

/// A panic, with where its crash log was written, if it was.
#[derive(Debug, Clone, PartialEq, Eq, Hash)]
pub struct SavedPanic {
    pub panic: Panic,
    pub saved_to: Option<String>,
}

impl SavedPanic {
    /// The line the panic happened at, if known.
    pub fn line(&self) -> (r: Option<u32>)
        ensures
            r == self.panic.line,
    {
        self.panic.line
    }

    /// What the panic said.
    pub fn message(&self) -> (r: &str)
        ensures
            r@ == self.panic.message@,
    {
        self.panic.message.as_str()
    }

    /// The source file the panic happened in.
    pub fn file(&self) -> (r: &str)
        ensures
            r@ == self.panic.file@,
    {
        self.panic.file.as_str()
    }
}

} // verus!

verus! {

/// What a panic reports: where it happened (file and line), if known, and
/// its message, if it had one.
#[derive(Debug, Clone)]
pub struct Dump {
    pub location: Option<(String, u32)>,
    pub message: Option<String>,
}

/// The text of a panic report.
pub open spec fn dump_text(location: Option<(Seq<char>, u32)>, message: Seq<char>) -> Seq<char> {
    let head = match location {
        Some((file, line)) => "Panic occurred in file:\n'"@ + file + "'\nat line: "@
            + crate::compression::decimal(line as nat) + "."@,
        None => "Can't get location information..."@,
    };
    head + "\n\n'"@ + message + "'"@
}

impl Dump {
    /// The location as the contracts see it.
    pub open spec fn location_view(&self) -> Option<(Seq<char>, u32)> {
        match self.location {
            Some((f, l)) => Some((f@, l)),
            None => None,
        }
    }

    /// The message, "Unknown Panic" when there is none.
    pub open spec fn message_view(&self) -> Seq<char> {
        match self.message {
            Some(m) => m@,
            None => "Unknown Panic"@,
        }
    }

    /// The file the panic happened in, empty when unknown.
    pub fn file(&self) -> (r: &str)
        ensures
            r@ == match self.location_view() {
                Some((f, _)) => f,
                None => ""@,
            },
    {
        match &self.location {
            Some((file, _)) => file.as_str(),
            None => "",
        }
    }

    /// The message, "Unknown Panic" when there is none.
    pub fn message(&self) -> (r: &str)
        ensures
            r@ == self.message_view(),
    {
        match &self.message {
            Some(msg) => msg.as_str(),
            None => "Unknown Panic",
        }
    }

    /// The line the panic happened at, if known.
    pub fn line(&self) -> (r: Option<u32>)
        ensures
            r == match self.location_view() {
                Some((_, l)) => Some(l),
                None => None::<u32>,
            },
    {
        match &self.location {
            Some((_, line)) => Some(*line),
            None => None,
        }
    }

    /// The report shown to the user: where the panic happened and what it
    /// said.
    pub fn describe(&self) -> (r: String)
        ensures
            r@ == dump_text(self.location_view(), self.message_view()),
    {
        let mut out = match &self.location {
            Some((file, line)) => {
                let mut s = String::from_str("Panic occurred in file:\n'");
                s.append(file.as_str());
                s.append("'\nat line: ");
                let digits = crate::text::decimal_text(*line as u64);
                s.append(digits.as_str());
                s.append(".");
                s
            },
            None => String::from_str("Can't get location information..."),
        };
        out.append("\n\n'");
        out.append(self.message());
        out.append("'");
        assert(out@ =~= dump_text(self.location_view(), self.message_view()));
        out
    }
}

} // verus!
