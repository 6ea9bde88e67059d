//! Static descriptors of instrumentation sites.
use vstd::prelude::*;
use crate::field::FieldSet;

verus! {

/// Verbosity of a span or event. `ERROR` is the least verbose level and
/// `TRACE` the most verbose one.
#[allow(non_camel_case_types)]
#[derive(Clone, Copy, Debug, PartialEq, Eq, Structural, Hash)]
pub enum Level {
    ERROR,
    WARN,
    INFO,
    DEBUG,
    TRACE,
}

impl Level {
    /// Position of the level in the order `ERROR < WARN < INFO < DEBUG < TRACE`.
    pub open spec fn rank(self) -> nat {
        match self {
            Level::ERROR => 0,
            Level::WARN => 1,
            Level::INFO => 2,
            Level::DEBUG => 3,
            Level::TRACE => 4,
        }
    }

    /// Executable form of [`Level::rank`].
    pub fn verbosity(self) -> (r: u8)
        ensures
            r as nat == self.rank(),
    {
        match self {
            Level::ERROR => 0,
            Level::WARN => 1,
            Level::INFO => 2,
            Level::DEBUG => 3,
            Level::TRACE => 4,
        }
    }

    /// The name of the level in capital letters.
    pub open spec fn spec_name(self) -> Seq<char> {
        match self {
            Level::ERROR => "ERROR"@,
            Level::WARN => "WARN"@,
            Level::INFO => "INFO"@,
            Level::DEBUG => "DEBUG"@,
            Level::TRACE => "TRACE"@,
        }
    }

    /// The name of the level in capital letters.
    pub fn as_str(self) -> (name: &'static str)
        ensures
            name@ == self.spec_name(),
    {
        match self {
            Level::ERROR => "ERROR",
            Level::WARN => "WARN",
            Level::INFO => "INFO",
            Level::DEBUG => "DEBUG",
            Level::TRACE => "TRACE",
        }
    }

    /// Whether `self` is at most as verbose as `max`.
    pub fn is_within(self, max: Level) -> (r: bool)
        ensures
            r == (self.rank() <= max.rank()),
    {
        self.verbosity() <= max.verbosity()
    }
}

/// Whether a callsite describes a span or an event.
#[allow(non_camel_case_types)]
#[derive(Clone, Copy, Debug, PartialEq, Eq, Structural, Hash)]
pub enum Kind {
    SPAN,
    EVENT,
}

/// Identity of a callsite. Two callsites are the same exactly when their
/// identifiers are equal.
#[derive(Clone, Copy, Debug, PartialEq, Eq, Structural, Hash)]
pub struct Identifier(pub u64);

/// What a [`Metadata`] describes, with its text as sequences of characters.
pub struct MetadataView {
    pub name: Seq<char>,
    pub target: Seq<char>,
    pub level: Level,
    pub module: Option<Seq<char>>,
    pub file: Option<Seq<char>>,
    pub line: Option<u32>,
    pub fields: FieldSet,
    pub kind: Kind,
}

/// Describes one instrumentation site. Immutable once constructed.
#[derive(Clone, Copy, Debug)]
pub struct Metadata {
    name: &'static str,
    target: &'static str,
    level: Level,
    module: Option<&'static str>,
    file: Option<&'static str>,
    line: Option<u32>,
    fields: FieldSet,
    kind: Kind,
}

/// The characters of an optional string slice.
pub open spec fn opt_text(s: Option<&'static str>) -> Option<Seq<char>> {
    match s {
        Some(t) => Some(t@),
        None => None,
    }
}

impl View for Metadata {
    type V = MetadataView;

    closed spec fn view(&self) -> MetadataView {
        MetadataView {
            name: self.name@,
            target: self.target@,
            level: self.level,
            module: opt_text(self.module),
            file: opt_text(self.file),
            line: self.line,
            fields: self.fields,
            kind: self.kind,
        }
    }
}

impl Metadata {
    /// The callsite that this metadata describes.
    pub open spec fn spec_callsite(self) -> Identifier {
        self@.fields.spec_callsite()
    }

    /// Describes a callsite.
    pub fn new(
        name: &'static str,
        target: &'static str,
        level: Level,
        file: Option<&'static str>,
        line: Option<u32>,
        module: Option<&'static str>,
        fields: FieldSet,
        kind: Kind,
    ) -> (meta: Metadata)
        ensures
            meta@ == (MetadataView {
                name: name@,
                target: target@,
                level,
                module: opt_text(module),
                file: opt_text(file),
                line,
                fields,
                kind,
            }),
    {
        Metadata { name, target, level, module, file, line, fields, kind }
    }

    /// The name of the span or event.
    pub fn name(&self) -> (r: &'static str)
        ensures
            r@ == self@.name,
    {
        self.name
    }

    /// The part of the system that the callsite belongs to, usually a module
    /// path.
    pub fn target(&self) -> (r: &'static str)
        ensures
            r@ == self@.target,
    {
        self.target
    }

    /// The verbosity of the callsite.
    pub fn level(&self) -> (r: Level)
        ensures
            r == self@.level,
    {
        self.level
    }

    /// The module path of the source location, where it is known.
    pub fn module(&self) -> (r: Option<&'static str>)
        ensures
            opt_text(r) == self@.module,
    {
        self.module
    }

    /// The source file, where it is known.
    pub fn file(&self) -> (r: Option<&'static str>)
        ensures
            opt_text(r) == self@.file,
    {
        self.file
    }

    /// The line in the source file, where it is known.
    pub fn line(&self) -> (r: Option<u32>)
        ensures
            r == self@.line,
    {
        self.line
    }

    /// The fields that the callsite declares.
    pub fn fields(&self) -> (r: &FieldSet)
        ensures
            *r == self@.fields,
    {
        &self.fields
    }

    /// The callsite that this metadata describes.
    pub fn callsite(&self) -> (id: Identifier)
        ensures
            id == self.spec_callsite(),
    {
        self.fields.callsite()
    }

    /// Whether the callsite describes a span.
    pub fn is_span(&self) -> (r: bool)
        ensures
            r == (self@.kind == Kind::SPAN),
    {
        matches!(self.kind, Kind::SPAN)
    }

    /// Whether the callsite describes an event.
    pub fn is_event(&self) -> (r: bool)
        ensures
            r == (self@.kind == Kind::EVENT),
    {
        matches!(self.kind, Kind::EVENT)
    }
}

} // verus!
