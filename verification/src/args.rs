//! The values a user can choose on the command line or in the settings file.
//!
//! Each value has a name: the one it is chosen by and printed as.

use crate::text::str_eq;
use vstd::prelude::*;

verus! {

/// An IP version.
#[derive(Clone, Copy, Debug, PartialEq, Eq, Structural)]
pub enum IpAddr {
    V4,
    V6,
}

/// The transport a lookup is sent over.
#[derive(Clone, Copy, Debug, PartialEq, Eq, Structural)]
pub enum Protocol {
    Tcp,
    Udp,
}

/// The border style of the printed table.
#[derive(Clone, Copy, Debug, PartialEq, Eq, Structural)]
pub enum Style {
    Empty,
    Blank,
    Ascii,
    Psql,
    Markdown,
    Modern,
    Sharp,
    Rounded,
    ModernRounded,
    Extended,
    Dots,
    ReStructuredText,
    AsciiRounded,
}

/// The form the results are printed in.
#[derive(Clone, Copy, Debug, PartialEq, Eq, Structural)]
pub enum Format {
    HumanReadable,
    Json,
    Xml,
    Csv,
}

impl Default for Format {
    fn default() -> (f: Format)
        ensures
            f == Format::HumanReadable,
    {
        Format::HumanReadable
    }
}

impl IpAddr {
    /// The name of this value.
    pub open spec fn name_text(self) -> Seq<char> {
        match self {
            IpAddr::V4 => "v4"@,
            IpAddr::V6 => "v6"@,
        }
    }

    /// The name of this value.
    pub fn name(&self) -> (s: &'static str)
        ensures
            s@ == self.name_text(),
    {
        match self {
            IpAddr::V4 => "v4",
            IpAddr::V6 => "v6",
        }
    }

    /// The value called `s`, if there is one. Letter case counts.
    pub fn from_name(s: &str) -> (value: Option<IpAddr>)
        ensures
            match value {
                Some(v) => v.name_text() == s@,
                None => forall|v: IpAddr| v.name_text() != s@,
            },
    {
        if str_eq(s, "v4") {
            Some(IpAddr::V4)
        }         else if str_eq(s, "v6") {
            Some(IpAddr::V6)
        } else {
            None
        }
    }
}

impl Protocol {
    /// The name of this value.
    pub open spec fn name_text(self) -> Seq<char> {
        match self {
            Protocol::Tcp => "tcp"@,
            Protocol::Udp => "udp"@,
        }
    }

    /// The name of this value.
    pub fn name(&self) -> (s: &'static str)
        ensures
            s@ == self.name_text(),
    {
        match self {
            Protocol::Tcp => "tcp",
            Protocol::Udp => "udp",
        }
    }

    /// The value called `s`, if there is one. Letter case counts.
    pub fn from_name(s: &str) -> (value: Option<Protocol>)
        ensures
            match value {
                Some(v) => v.name_text() == s@,
                None => forall|v: Protocol| v.name_text() != s@,
            },
    {
        if str_eq(s, "tcp") {
            Some(Protocol::Tcp)
        }         else if str_eq(s, "udp") {
            Some(Protocol::Udp)
        } else {
            None
        }
    }
}

impl Style {
    /// The name of this value.
    pub open spec fn name_text(self) -> Seq<char> {
        match self {
            Style::Empty => "empty"@,
            Style::Blank => "blank"@,
            Style::Ascii => "ascii"@,
            Style::Psql => "psql"@,
            Style::Markdown => "markdown"@,
            Style::Modern => "modern"@,
            Style::Sharp => "sharp"@,
            Style::Rounded => "rounded"@,
            Style::ModernRounded => "modern-rounded"@,
            Style::Extended => "extended"@,
            Style::Dots => "dots"@,
            Style::ReStructuredText => "re-structured-text"@,
            Style::AsciiRounded => "ascii-rounded"@,
        }
    }

    /// The name of this value.
    pub fn name(&self) -> (s: &'static str)
        ensures
            s@ == self.name_text(),
    {
        match self {
            Style::Empty => "empty",
            Style::Blank => "blank",
            Style::Ascii => "ascii",
            Style::Psql => "psql",
            Style::Markdown => "markdown",
            Style::Modern => "modern",
            Style::Sharp => "sharp",
            Style::Rounded => "rounded",
            Style::ModernRounded => "modern-rounded",
            Style::Extended => "extended",
            Style::Dots => "dots",
            Style::ReStructuredText => "re-structured-text",
            Style::AsciiRounded => "ascii-rounded",
        }
    }

    /// The value called `s`, if there is one. Letter case counts.
    pub fn from_name(s: &str) -> (value: Option<Style>)
        ensures
            match value {
                Some(v) => v.name_text() == s@,
                None => forall|v: Style| v.name_text() != s@,
            },
    {
        if str_eq(s, "empty") {
            Some(Style::Empty)
        }         else if str_eq(s, "blank") {
            Some(Style::Blank)
        }         else if str_eq(s, "ascii") {
            Some(Style::Ascii)
        }         else if str_eq(s, "psql") {
            Some(Style::Psql)
        }         else if str_eq(s, "markdown") {
            Some(Style::Markdown)
        }         else if str_eq(s, "modern") {
            Some(Style::Modern)
        }         else if str_eq(s, "sharp") {
            Some(Style::Sharp)
        }         else if str_eq(s, "rounded") {
            Some(Style::Rounded)
        }         else if str_eq(s, "modern-rounded") {
            Some(Style::ModernRounded)
        }         else if str_eq(s, "extended") {
            Some(Style::Extended)
        }         else if str_eq(s, "dots") {
            Some(Style::Dots)
        }         else if str_eq(s, "re-structured-text") {
            Some(Style::ReStructuredText)
        }         else if str_eq(s, "ascii-rounded") {
            Some(Style::AsciiRounded)
        } else {
            None
        }
    }
}

impl Format {
    /// The name of this value.
    pub open spec fn name_text(self) -> Seq<char> {
        match self {
            Format::HumanReadable => "human-readable"@,
            Format::Json => "json"@,
            Format::Xml => "xml"@,
            Format::Csv => "csv"@,
        }
    }

    /// The name of this value.
    pub fn name(&self) -> (s: &'static str)
        ensures
            s@ == self.name_text(),
    {
        match self {
            Format::HumanReadable => "human-readable",
            Format::Json => "json",
            Format::Xml => "xml",
            Format::Csv => "csv",
        }
    }

    /// The value called `s`, if there is one. Letter case counts.
    pub fn from_name(s: &str) -> (value: Option<Format>)
        ensures
            match value {
                Some(v) => v.name_text() == s@,
                None => forall|v: Format| v.name_text() != s@,
            },
    {
        if str_eq(s, "human-readable") {
            Some(Format::HumanReadable)
        }         else if str_eq(s, "json") {
            Some(Format::Json)
        }         else if str_eq(s, "xml") {
            Some(Format::Xml)
        }         else if str_eq(s, "csv") {
            Some(Format::Csv)
        } else {
            None
        }
    }
}

} // verus!
