//! The kinds of section of a configuration file, and how the name in a section
//! header is classified.

use crate::text::{str_eq, str_to_uppercase, uppercase};
use vstd::prelude::*;

verus! {

/// The kind of a section, or of the plugins that a section configures.
#[derive(Clone, Debug, PartialEq, Eq, Hash)]
pub enum FlbSectionType {
    Input,
    Parser,
    MultilineParser,
    Filter,
    Output,
    Custom,
    /// A name that is none of the known ones, kept as it was written.
    Other(String),
}

/// The kinds of section without the custom plugins: a `CUSTOM` header is
/// classified as `Other`.
#[derive(Clone, Debug, PartialEq, Eq, Hash)]
pub enum SectionType {
    Input,
    Parser,
    MultilineParser,
    Filter,
    Output,
    /// A name that is none of the known ones, kept as it was written.
    Other(String),
}

/// The mathematical value of a section kind.
pub enum SectionKind {
    Input,
    Parser,
    MultilineParser,
    Filter,
    Output,
    Custom,
    Other(Seq<char>),
}

impl View for FlbSectionType {
    type V = SectionKind;

    open spec fn view(&self) -> SectionKind {
        match self {
            FlbSectionType::Input => SectionKind::Input,
            FlbSectionType::Parser => SectionKind::Parser,
            FlbSectionType::MultilineParser => SectionKind::MultilineParser,
            FlbSectionType::Filter => SectionKind::Filter,
            FlbSectionType::Output => SectionKind::Output,
            FlbSectionType::Custom => SectionKind::Custom,
            FlbSectionType::Other(name) => SectionKind::Other(name@),
        }
    }
}

impl View for SectionType {
    type V = SectionKind;

    open spec fn view(&self) -> SectionKind {
        match self {
            SectionType::Input => SectionKind::Input,
            SectionType::Parser => SectionKind::Parser,
            SectionType::MultilineParser => SectionKind::MultilineParser,
            SectionType::Filter => SectionKind::Filter,
            SectionType::Output => SectionKind::Output,
            SectionType::Other(name) => SectionKind::Other(name@),
        }
    }
}

/// The kind of the section whose header holds `name`, given the upper-case
/// form `upper` of the name: one of the known kinds where `upper` is exactly
/// its name, else `Other` with the name as written.
pub open spec fn section_kind_of(name: Seq<char>, upper: Seq<char>) -> SectionKind {
    if upper == "INPUT"@ {
        SectionKind::Input
    } else if upper == "PARSER"@ {
        SectionKind::Parser
    } else if upper == "MULTILINE_PARSER"@ {
        SectionKind::MultilineParser
    } else if upper == "FILTER"@ {
        SectionKind::Filter
    } else if upper == "OUTPUT"@ {
        SectionKind::Output
    } else if upper == "CUSTOM"@ {
        SectionKind::Custom
    } else {
        SectionKind::Other(name)
    }
}

/// As `section_kind_of`, with a `CUSTOM` header classified as `Other`.
pub open spec fn plain_section_kind_of(name: Seq<char>, upper: Seq<char>) -> SectionKind {
    if upper == "INPUT"@ {
        SectionKind::Input
    } else if upper == "PARSER"@ {
        SectionKind::Parser
    } else if upper == "MULTILINE_PARSER"@ {
        SectionKind::MultilineParser
    } else if upper == "FILTER"@ {
        SectionKind::Filter
    } else if upper == "OUTPUT"@ {
        SectionKind::Output
    } else {
        SectionKind::Other(name)
    }
}

/// The name under which a section kind is written out.
pub open spec fn section_kind_text(kind: SectionKind) -> Seq<char> {
    match kind {
        SectionKind::Input => "input"@,
        SectionKind::Parser => "parser"@,
        SectionKind::MultilineParser => "multiline_parser"@,
        SectionKind::Filter => "filter"@,
        SectionKind::Output => "output"@,
        SectionKind::Custom => "custom"@,
        SectionKind::Other(name) => name,
    }
}

impl FlbSectionType {
    /// Classifies a header name of which the upper-case form is at hand.
    pub fn from_uppercase(name: &str, upper: &str) -> (kind: FlbSectionType)
        ensures
            kind@ == section_kind_of(name@, upper@),
    {
        if str_eq(upper, "INPUT") {
            FlbSectionType::Input
        } else if str_eq(upper, "PARSER") {
            FlbSectionType::Parser
        } else if str_eq(upper, "MULTILINE_PARSER") {
            FlbSectionType::MultilineParser
        } else if str_eq(upper, "FILTER") {
            FlbSectionType::Filter
        } else if str_eq(upper, "OUTPUT") {
            FlbSectionType::Output
        } else if str_eq(upper, "CUSTOM") {
            FlbSectionType::Custom
        } else {
            FlbSectionType::Other(name.to_owned())
        }
    }

    /// Classifies a header name, whatever the case of its letters. Every name
    /// has a kind: one that is not known is `Other`.
    pub fn from_name(name: &str) -> (kind: FlbSectionType)
        ensures
            kind@ == section_kind_of(name@, uppercase(name@)),
    {
        let upper = str_to_uppercase(name);
        FlbSectionType::from_uppercase(name, upper.as_str())
    }

    /// The name under which the kind is written out.
    pub fn to_text(&self) -> (text: String)
        ensures
            text@ == section_kind_text(self@),
    {
        match self {
            FlbSectionType::Input => "input".to_owned(),
            FlbSectionType::Parser => "parser".to_owned(),
            FlbSectionType::MultilineParser => "multiline_parser".to_owned(),
            FlbSectionType::Filter => "filter".to_owned(),
            FlbSectionType::Output => "output".to_owned(),
            FlbSectionType::Custom => "custom".to_owned(),
            FlbSectionType::Other(name) => name.clone(),
        }
    }

    /// Whether two kinds are the same.
    pub fn same(&self, other: &FlbSectionType) -> (same: bool)
        ensures
            same == (self@ == other@),
    {
        match (self, other) {
            (FlbSectionType::Input, FlbSectionType::Input) => true,
            (FlbSectionType::Parser, FlbSectionType::Parser) => true,
            (FlbSectionType::MultilineParser, FlbSectionType::MultilineParser) => true,
            (FlbSectionType::Filter, FlbSectionType::Filter) => true,
            (FlbSectionType::Output, FlbSectionType::Output) => true,
            (FlbSectionType::Custom, FlbSectionType::Custom) => true,
            (FlbSectionType::Other(a), FlbSectionType::Other(b)) => str_eq(a.as_str(), b.as_str()),
            _ => false,
        }
    }

    /// A copy of the kind.
    pub fn duplicate(&self) -> (copy: FlbSectionType)
        ensures
            copy@ == self@,
    {
        match self {
            FlbSectionType::Input => FlbSectionType::Input,
            FlbSectionType::Parser => FlbSectionType::Parser,
            FlbSectionType::MultilineParser => FlbSectionType::MultilineParser,
            FlbSectionType::Filter => FlbSectionType::Filter,
            FlbSectionType::Output => FlbSectionType::Output,
            FlbSectionType::Custom => FlbSectionType::Custom,
            FlbSectionType::Other(name) => FlbSectionType::Other(name.clone()),
        }
    }
}

impl SectionType {
    /// Classifies a header name of which the upper-case form is at hand.
    pub fn from_uppercase(name: &str, upper: &str) -> (kind: SectionType)
        ensures
            kind@ == plain_section_kind_of(name@, upper@),
    {
        if str_eq(upper, "INPUT") {
            SectionType::Input
        } else if str_eq(upper, "PARSER") {
            SectionType::Parser
        } else if str_eq(upper, "MULTILINE_PARSER") {
            SectionType::MultilineParser
        } else if str_eq(upper, "FILTER") {
            SectionType::Filter
        } else if str_eq(upper, "OUTPUT") {
            SectionType::Output
        } else {
            SectionType::Other(name.to_owned())
        }
    }

    /// Classifies a header name, whatever the case of its letters.
    pub fn from_name(name: &str) -> (kind: SectionType)
        ensures
            kind@ == plain_section_kind_of(name@, uppercase(name@)),
    {
        let upper = str_to_uppercase(name);
        SectionType::from_uppercase(name, upper.as_str())
    }
}

impl core::str::FromStr for FlbSectionType {
    type Err = ();

    /// The kind of the section whose header holds `s`. Every name has a kind.
    fn from_str(s: &str) -> (res: Result<Self, Self::Err>)
        ensures
            res matches Ok(kind) && kind@ == section_kind_of(s@, uppercase(s@)),
    {
        Ok(FlbSectionType::from_name(s))
    }
}

impl core::str::FromStr for SectionType {
    type Err = ();

    /// The kind of the section whose header holds `s`. Every name has a kind.
    fn from_str(s: &str) -> (res: Result<Self, Self::Err>)
        ensures
            res matches Ok(kind) && kind@ == plain_section_kind_of(s@, uppercase(s@)),
    {
        Ok(SectionType::from_name(s))
    }
}

} // verus!
