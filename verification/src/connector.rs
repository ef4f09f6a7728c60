//! The phases of a connection that this crate decides: the activation of a
//! connection and the exchange of licenses.
//!
//! Each phase is a sequence that takes one PDU at a time and says what it wrote in
//! answer. What the protocol crates encode and decode stands behind [`wire`].
use vstd::prelude::*;
use vstd::string::*;

pub mod capabilities;
pub mod cipher;
pub mod connection_activation;
pub mod license_exchange;
pub mod wire;

verus! {

/// The size of a desktop, in pixels.
#[derive(Debug, Clone, Copy, PartialEq, Eq, Structural)]
pub struct DesktopSize {
    pub width: u16,
    pub height: u16,
}

/// What a step has written to its output.
#[derive(Debug, Clone, Copy, PartialEq, Eq, Structural)]
pub enum Written {
    Nothing,
    /// This many bytes, more than none.
    Size(usize),
}

/// What the next PDU is to be read as.
#[derive(Debug, Clone, Copy, PartialEq, Eq, Structural)]
pub enum NextPdu {
    X224,
    /// Whatever the finalization of the connection waits for.
    Finalization,
}

/// Result type of a connection sequence.
pub type ConnectorResult<T> = Result<T, ConnectorError>;

/// What went wrong in a sequence, and what it was doing.
#[derive(Debug)]
pub struct ConnectorError {
    pub context: String,
    pub kind: ConnectorErrorKind,
}

#[derive(Debug)]
#[non_exhaustive]
pub enum ConnectorErrorKind {
    /// A PDU could not be encoded.
    Encode(ironrdp_core::EncodeError),
    /// A PDU could not be decoded.
    Decode(ironrdp_core::DecodeError),
    /// The peer or the configuration asked for what cannot be done.
    Reason(String),
    /// No more than the context says.
    General,
    /// The license cryptography failed, or the server reported a license error.
    License(ironrdp_pdu::rdp::server_license::ServerLicenseError),
}

/// An error without what the protocol crates said of it.
#[verifier::ext_equal]
pub struct ErrorReport {
    pub context: Seq<char>,
    pub kind: ReportKind,
}

#[verifier::ext_equal]
pub enum ReportKind {
    Encode,
    Decode,
    Reason(Seq<char>),
    General,
    License,
}

impl View for ConnectorErrorKind {
    type V = ReportKind;

    open spec fn view(&self) -> ReportKind {
        match *self {
            ConnectorErrorKind::Encode(_) => ReportKind::Encode,
            ConnectorErrorKind::Decode(_) => ReportKind::Decode,
            ConnectorErrorKind::Reason(text) => ReportKind::Reason(text@),
            ConnectorErrorKind::General => ReportKind::General,
            ConnectorErrorKind::License(_) => ReportKind::License,
        }
    }
}

impl View for ConnectorError {
    type V = ErrorReport;

    open spec fn view(&self) -> ErrorReport {
        ErrorReport { context: self.context@, kind: self.kind@ }
    }
}

impl ErrorReport {
    pub open spec fn encode() -> Self {
        ErrorReport { context: "encode error"@, kind: ReportKind::Encode }
    }

    pub open spec fn decode() -> Self {
        ErrorReport { context: "decode error"@, kind: ReportKind::Decode }
    }

    pub open spec fn decode_during(context: Seq<char>) -> Self {
        ErrorReport { context, kind: ReportKind::Decode }
    }

    pub open spec fn general(context: Seq<char>) -> Self {
        ErrorReport { context, kind: ReportKind::General }
    }

    pub open spec fn reason(context: Seq<char>, text: Seq<char>) -> Self {
        ErrorReport { context, kind: ReportKind::Reason(text) }
    }

    pub open spec fn license(context: Seq<char>) -> Self {
        ErrorReport { context, kind: ReportKind::License }
    }
}

impl ConnectorError {
    pub fn encode(error: ironrdp_core::EncodeError) -> (result: Self)
        ensures
            result@ == ErrorReport::encode(),
            result.kind == ConnectorErrorKind::Encode(error),
    {
        Self { context: "encode error".to_owned(), kind: ConnectorErrorKind::Encode(error) }
    }

    pub fn decode(error: ironrdp_core::DecodeError) -> (result: Self)
        ensures
            result@ == ErrorReport::decode(),
            result.kind == ConnectorErrorKind::Decode(error),
    {
        Self { context: "decode error".to_owned(), kind: ConnectorErrorKind::Decode(error) }
    }

    pub fn general(context: &str) -> (result: Self)
        ensures
            result@ == ErrorReport::general(context@),
    {
        Self { context: context.to_owned(), kind: ConnectorErrorKind::General }
    }

    pub fn reason(context: &str, text: String) -> (result: Self)
        ensures
            result@ == ErrorReport::reason(context@, text@),
    {
        Self { context: context.to_owned(), kind: ConnectorErrorKind::Reason(text) }
    }

    pub fn license(
        context: &str,
        error: ironrdp_pdu::rdp::server_license::ServerLicenseError,
    ) -> (result: Self)
        ensures
            result@ == ErrorReport::license(context@),
            result.kind == ConnectorErrorKind::License(error),
    {
        Self { context: context.to_owned(), kind: ConnectorErrorKind::License(error) }
    }

    /// The same error, said to have come up during something else.
    pub fn with_context(self, context: &str) -> (result: Self)
        ensures
            result@ == (ErrorReport { context: context@, kind: self@.kind }),
            result.kind == self.kind,
    {
        Self { context: context.to_owned(), kind: self.kind }
    }
}

/// What writing `size` bytes reports: an error where nothing was written.
pub open spec fn written_size(size: nat) -> Result<Written, ErrorReport> {
    if size == 0 {
        Err(ErrorReport::general("invalid written length (can't be zero)"@))
    } else {
        Ok(Written::Size(size as usize))
    }
}

/// A result with its error taken by its report.
pub open spec fn report<T>(result: ConnectorResult<T>) -> Result<T, ErrorReport> {
    match result {
        Ok(value) => Ok(value),
        Err(error) => Err(error@),
    }
}

impl Written {
    pub fn from_size(size: usize) -> (result: ConnectorResult<Self>)
        ensures
            report(result) == written_size(size as nat),
    {
        if size == 0 {
            Err(ConnectorError::general("invalid written length (can't be zero)"))
        } else {
            Ok(Written::Size(size))
        }
    }
}

/// What was written is reported by its size, and writing nothing is an error.
pub proof fn law_written_size_is_reported(size: usize)
    ensures
        size > 0 ==> written_size(size as nat) == Ok::<Written, ErrorReport>(Written::Size(size)),
        size == 0 ==> written_size(0) == Err::<Written, ErrorReport>(
            ErrorReport::general("invalid written length (can't be zero)"@),
        ),
{
}

/// An error's report is of its kind and keeps the words that it was given; errors of the
/// wire are told apart from each other and from all others.
pub proof fn law_reports_keep_their_words(context: Seq<char>, text: Seq<char>)
    ensures
        ErrorReport::encode().kind is Encode && ErrorReport::encode().context == "encode error"@,
        ErrorReport::decode().kind is Decode && ErrorReport::decode().context == "decode error"@,
        ErrorReport::decode_during(context).kind is Decode && ErrorReport::decode_during(
            context,
        ).context == context,
        ErrorReport::general(context).kind is General && ErrorReport::general(context).context
            == context,
        ErrorReport::reason(context, text).kind == ReportKind::Reason(text) && ErrorReport::reason(
            context,
            text,
        ).context == context,
        ErrorReport::license(context).kind is License && ErrorReport::license(context).context
            == context,
{
}

} // verus!
