//! The decisions of the debugging relay, which passes the messages of a
//! remote-debugging stream on to the listener: which domains it switches
//! on, which addresses it accepts, and what it does with each message.

use vstd::prelude::*;

verus! {

/// Why the relay could not be set up.
#[derive(Debug)]
pub enum RelayError {
    /// The address is not a URL; holds the parser's reason.
    InvalidUrl(String),
    /// The connection could not be opened; holds the reason.
    Connect(String),
    /// A command to switch a domain on could not be sent; holds the reason.
    Send(String),
}

impl RelayError {
    /// The message shown to the caller for this failure.
    pub open spec fn text(self) -> Seq<char> {
        match self {
            RelayError::InvalidUrl(reason) => "Invalid WebSocket URL: "@ + reason@,
            RelayError::Connect(reason) => "WebSocket connect error: "@ + reason@,
            RelayError::Send(reason) => "Failed to send enable command: "@ + reason@,
        }
    }

    /// Renders the failure as the message shown to the caller.
    pub fn message(&self) -> (m: String)
        ensures
            m@ == self.text(),
    {
        match self {
            RelayError::InvalidUrl(reason) => String::from_str("Invalid WebSocket URL: ").concat(
                reason.as_str(),
            ),
            RelayError::Connect(reason) => String::from_str("WebSocket connect error: ").concat(
                reason.as_str(),
            ),
            RelayError::Send(reason) => String::from_str("Failed to send enable command: ").concat(
                reason.as_str(),
            ),
        }
    }
}

/// Why the URL parser rejects `input`; `None` if it accepts it.
pub uninterp spec fn url_parse_failure(input: Seq<char>) -> Option<Seq<char>>;

/// Parses an address: `url::Url::parse`, keeping of an error only its
/// `Display` text and of a success nothing.
///
/// Trusted: that acceptance and the reason for a rejection depend on the
/// text of the address alone. Which addresses are accepted is not stated.
#[verifier::external_body]
pub(crate) fn parse_url(input: &str) -> (failure: Option<String>)
    ensures
        match failure {
            Some(reason) => url_parse_failure(input@) == Some(reason@),
            None => url_parse_failure(input@) is None,
        },
{
    match url::Url::parse(input) {
        Ok(_) => None,
        Err(e) => Some(e.to_string()),
    }
}

/// What the parser's verdict on an address means for the relay.
pub open spec fn url_verdict(failure: Option<Seq<char>>, r: Result<(), RelayError>) -> bool {
    match failure {
        None => r is Ok,
        Some(reason) => r matches Err(RelayError::InvalidUrl(detail)) && detail@ == reason,
    }
}

/// Turns the parser's verdict on an address into the relay's.
pub fn judge_url(failure: Option<String>) -> (r: Result<(), RelayError>)
    ensures
        url_verdict(
            match failure {
                Some(reason) => Some(reason@),
                None => None,
            },
            r,
        ),
{
    match failure {
        None => Ok(()),
        Some(reason) => Err(RelayError::InvalidUrl(reason)),
    }
}

/// Checks the address of the stream before anything is connected.
pub fn check_ws_url(ws_url: &str) -> (r: Result<(), RelayError>)
    ensures
        url_verdict(url_parse_failure(ws_url@), r),
{
    judge_url(parse_url(ws_url))
}

/// The event under which relayed messages are published.
pub open spec fn relay_event() -> Seq<char> {
    "cdp-event"@
}

/// The name of the event under which relayed messages are published.
pub fn relay_event_name() -> (name: &'static str)
    ensures
        name@ == relay_event(),
{
    "cdp-event"
}

/// A command that switches a debugging domain on, as plain values.
pub struct EnableCommandModel {
    pub id: u64,
    pub method: Seq<char>,
}

/// A command that switches a debugging domain on. It takes no parameters.
#[derive(Debug)]
pub struct EnableCommand {
    pub id: u64,
    pub method: String,
}

impl View for EnableCommand {
    type V = EnableCommandModel;

    open spec fn view(&self) -> EnableCommandModel {
        EnableCommandModel { id: self.id, method: self.method@ }
    }
}

/// The commands sent when the stream opens, numbered from one in the order
/// in which they are sent.
pub open spec fn enable_sequence() -> Seq<EnableCommandModel> {
    seq![
        EnableCommandModel { id: 1, method: "Console.enable"@ },
        EnableCommandModel { id: 2, method: "Network.enable"@ },
        EnableCommandModel { id: 3, method: "Storage.enable"@ },
        EnableCommandModel { id: 4, method: "Runtime.enable"@ },
        EnableCommandModel { id: 5, method: "Debugger.enable"@ },
        EnableCommandModel { id: 6, method: "Inspector.enable"@ },
    ]
}

/// Lists the commands sent when the stream opens.
pub fn enable_commands() -> (commands: Vec<EnableCommand>)
    ensures
        commands@.len() == enable_sequence().len(),
        forall|i: int| 0 <= i < commands@.len() ==> (#[trigger] commands@[i])@ == enable_sequence()[i],
{
    let mut commands: Vec<EnableCommand> = Vec::new();
    commands.push(EnableCommand { id: 1, method: String::from_str("Console.enable") });
    commands.push(EnableCommand { id: 2, method: String::from_str("Network.enable") });
    commands.push(EnableCommand { id: 3, method: String::from_str("Storage.enable") });
    commands.push(EnableCommand { id: 4, method: String::from_str("Runtime.enable") });
    commands.push(EnableCommand { id: 5, method: String::from_str("Debugger.enable") });
    commands.push(EnableCommand { id: 6, method: String::from_str("Inspector.enable") });
    commands
}

/// What arrived on the stream.
#[derive(Debug)]
pub enum RelayMessage {
    /// A text message.
    Text(String),
    /// A message of any other kind.
    Other,
    /// The stream failed; holds the reason.
    Failed(String),
}

/// What the relay does with what arrived, as plain values.
pub struct RelayStepModel {
    pub publish: Option<Seq<char>>,
    pub keep_going: bool,
}

/// What the relay does with what arrived.
#[derive(Debug)]
pub struct RelayStep {
    /// The payload to publish, if any.
    pub publish: Option<String>,
    /// Whether the relay waits for the next message.
    pub keep_going: bool,
}

impl View for RelayStep {
    type V = RelayStepModel;

    open spec fn view(&self) -> RelayStepModel {
        RelayStepModel {
            publish: match self.publish {
                Some(text) => Some(text@),
                None => None,
            },
            keep_going: self.keep_going,
        }
    }
}

/// Text is passed on as it is, other messages are skipped, and a failure
/// is reported to the listener and ends the relay.
pub open spec fn relay_decision(message: RelayMessage) -> RelayStepModel {
    match message {
        RelayMessage::Text(text) => RelayStepModel { publish: Some(text@), keep_going: true },
        RelayMessage::Other => RelayStepModel { publish: None, keep_going: true },
        RelayMessage::Failed(reason) => RelayStepModel {
            publish: Some("WebSocket error: "@ + reason@),
            keep_going: false,
        },
    }
}

/// Decides what the relay does with what arrived.
pub fn relay_step(message: RelayMessage) -> (step: RelayStep)
    ensures
        step@ == relay_decision(message),
{
    match message {
        RelayMessage::Text(text) => RelayStep { publish: Some(text), keep_going: true },
        RelayMessage::Other => RelayStep { publish: None, keep_going: true },
        RelayMessage::Failed(reason) => RelayStep {
            publish: Some(String::from_str("WebSocket error: ").concat(reason.as_str())),
            keep_going: false,
        },
    }
}

} // verus!
