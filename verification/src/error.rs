//! Error kinds shared by all components.

use vstd::prelude::*;

verus! {

/// The component an error originates from.
#[derive(Debug, Clone, Copy, PartialEq, Eq, Structural)]
pub enum ProtocolErrorKind {
    API,
    Executor,
    Storage,
    Types,
    Codec,
    System,
    Unknown,
}

/// An error tagged with the component it originates from.
#[derive(Debug, Clone, Copy, PartialEq, Eq, Structural)]
pub struct ProtocolError {
    kind: ProtocolErrorKind,
}

impl ProtocolError {
    /// The component this error is tagged with.
    pub closed spec fn spec_kind(&self) -> ProtocolErrorKind {
        self.kind
    }

    /// An error of the given component.
    pub fn new(kind: ProtocolErrorKind) -> (e: Self)
        ensures
            e.spec_kind() == kind,
    {
        ProtocolError { kind }
    }

    /// The component this error is tagged with.
    #[verifier::when_used_as_spec(spec_kind)]
    pub fn kind(&self) -> (k: ProtocolErrorKind)
        ensures
            k == self.spec_kind(),
    {
        self.kind
    }

    /// An error of the query interface.
    pub fn api() -> (e: Self)
        ensures
            e.kind() == ProtocolErrorKind::API,
    {
        ProtocolError { kind: ProtocolErrorKind::API }
    }

    /// An error of the executor.
    pub fn executor() -> (e: Self)
        ensures
            e.kind() == ProtocolErrorKind::Executor,
    {
        ProtocolError { kind: ProtocolErrorKind::Executor }
    }

    /// An error of the store.
    pub fn storage() -> (e: Self)
        ensures
            e.kind() == ProtocolErrorKind::Storage,
    {
        ProtocolError { kind: ProtocolErrorKind::Storage }
    }

    /// An error of the types.
    pub fn types() -> (e: Self)
        ensures
            e.kind() == ProtocolErrorKind::Types,
    {
        ProtocolError { kind: ProtocolErrorKind::Types }
    }

    /// An error of the wire forms.
    pub fn codec() -> (e: Self)
        ensures
            e.kind() == ProtocolErrorKind::Codec,
    {
        ProtocolError { kind: ProtocolErrorKind::Codec }
    }

    /// An error of the system.
    pub fn system() -> (e: Self)
        ensures
            e.kind() == ProtocolErrorKind::System,
    {
        ProtocolError { kind: ProtocolErrorKind::System }
    }

    /// An error of no known component.
    pub fn unknown() -> (e: Self)
        ensures
            e.kind() == ProtocolErrorKind::Unknown,
    {
        ProtocolError { kind: ProtocolErrorKind::Unknown }
    }

    /// The error as text: `ProtocolError, Kind: ` and then the name of
    /// its component.
    pub open spec fn spec_text(&self) -> Seq<char> {
        match self.spec_kind() {
            ProtocolErrorKind::API => "ProtocolError, Kind: API"@,
            ProtocolErrorKind::Executor => "ProtocolError, Kind: Executor"@,
            ProtocolErrorKind::Storage => "ProtocolError, Kind: Storage"@,
            ProtocolErrorKind::Types => "ProtocolError, Kind: Types"@,
            ProtocolErrorKind::Codec => "ProtocolError, Kind: Codec"@,
            ProtocolErrorKind::System => "ProtocolError, Kind: System"@,
            ProtocolErrorKind::Unknown => "ProtocolError, Kind: Unknown"@,
        }
    }

    /// The error as text.
    pub fn to_string(&self) -> (r: String)
        ensures
            r@ == self.spec_text(),
    {
        match self.kind {
            ProtocolErrorKind::API => "ProtocolError, Kind: API".to_owned(),
            ProtocolErrorKind::Executor => "ProtocolError, Kind: Executor".to_owned(),
            ProtocolErrorKind::Storage => "ProtocolError, Kind: Storage".to_owned(),
            ProtocolErrorKind::Types => "ProtocolError, Kind: Types".to_owned(),
            ProtocolErrorKind::Codec => "ProtocolError, Kind: Codec".to_owned(),
            ProtocolErrorKind::System => "ProtocolError, Kind: System".to_owned(),
            ProtocolErrorKind::Unknown => "ProtocolError, Kind: Unknown".to_owned(),
        }
    }

    /// Errors of different components have different texts.
    pub proof fn lemma_text_tells_kind(a: ProtocolError, b: ProtocolError)
        requires
            a.spec_text() == b.spec_text(),
        ensures
            a == b,
    {
        reveal_strlit("ProtocolError, Kind: API");
        reveal_strlit("ProtocolError, Kind: Executor");
        reveal_strlit("ProtocolError, Kind: Storage");
        reveal_strlit("ProtocolError, Kind: Types");
        reveal_strlit("ProtocolError, Kind: Codec");
        reveal_strlit("ProtocolError, Kind: System");
        reveal_strlit("ProtocolError, Kind: Unknown");
        assert(a.spec_text().len() == (match a.spec_kind() {
            ProtocolErrorKind::API => 24int,
            ProtocolErrorKind::Executor => 29int,
            ProtocolErrorKind::Storage => 28int,
            ProtocolErrorKind::Types => 26int,
            ProtocolErrorKind::Codec => 26int,
            ProtocolErrorKind::System => 27int,
            ProtocolErrorKind::Unknown => 28int,
        }));
        assert(b.spec_text().len() == (match b.spec_kind() {
            ProtocolErrorKind::API => 24int,
            ProtocolErrorKind::Executor => 29int,
            ProtocolErrorKind::Storage => 28int,
            ProtocolErrorKind::Types => 26int,
            ProtocolErrorKind::Codec => 26int,
            ProtocolErrorKind::System => 27int,
            ProtocolErrorKind::Unknown => 28int,
        }));
        assert(a.spec_text()[21] == (match a.spec_kind() {
            ProtocolErrorKind::API => 'A',
            ProtocolErrorKind::Executor => 'E',
            ProtocolErrorKind::Storage => 'S',
            ProtocolErrorKind::Types => 'T',
            ProtocolErrorKind::Codec => 'C',
            ProtocolErrorKind::System => 'S',
            ProtocolErrorKind::Unknown => 'U',
        }));
        assert(b.spec_text()[21] == (match b.spec_kind() {
            ProtocolErrorKind::API => 'A',
            ProtocolErrorKind::Executor => 'E',
            ProtocolErrorKind::Storage => 'S',
            ProtocolErrorKind::Types => 'T',
            ProtocolErrorKind::Codec => 'C',
            ProtocolErrorKind::System => 'S',
            ProtocolErrorKind::Unknown => 'U',
        }));
        assert(a.spec_kind() == b.spec_kind());
    }
}

impl vstd::std_specs::convert::FromSpecImpl<ProtocolError> for String {
    open spec fn obeys_from_spec() -> bool {
        false
    }

    open spec fn from_spec(e: ProtocolError) -> String {
        arbitrary()
    }
}

impl From<ProtocolError> for String {
    /// The error as text.
    fn from(e: ProtocolError) -> (r: String)
        ensures
            r@ == e.spec_text(),
    {
        e.to_string()
    }
}

} // verus!
