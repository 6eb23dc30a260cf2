//! Messages between those who need keys and a task that talks to a KMS.
//!
//! A KMS client that cannot be called directly is served by a task. The task receives commands,
//! runs each one with the client, and sends a reply.

use vstd::prelude::*;

use crate::error::Error;
use crate::error::ErrorModel;
use crate::error::bytes_outcome;
use crate::error::text_outcome;
use crate::kms::ConfigModel;
use crate::kms::KmsClient;
use crate::kms::KmsClientFactory;
use crate::kms::KmsConnectionConfig;
use crate::kms::client_outcome;
use crate::kms::creates;
use crate::kms::unwraps;
use crate::kms::wraps;

verus! {

/// What a KMS client is asked to do.
pub enum KmsClientCommand {
    /// Wrap a key
    WrapKey { key_bytes: Vec<u8>, master_key_identifier: String },
    /// Unwrap a key
    UnwrapKey { wrapped_key: String, master_key_identifier: String },
}

/// What a [`KmsClientCommand`] holds.
pub enum CommandModel {
    WrapKey { key_bytes: Seq<u8>, master_key_identifier: Seq<char> },
    UnwrapKey { wrapped_key: Seq<char>, master_key_identifier: Seq<char> },
}

impl View for KmsClientCommand {
    type V = CommandModel;

    open spec fn view(&self) -> CommandModel {
        match self {
            KmsClientCommand::WrapKey {
                key_bytes,
                master_key_identifier,
            } => CommandModel::WrapKey {
                key_bytes: key_bytes@,
                master_key_identifier: master_key_identifier@,
            },
            KmsClientCommand::UnwrapKey {
                wrapped_key,
                master_key_identifier,
            } => CommandModel::UnwrapKey {
                wrapped_key: wrapped_key@,
                master_key_identifier: master_key_identifier@,
            },
        }
    }
}

/// What a KMS client answered.
pub enum KmsClientReply {
    /// The outcome of wrapping a key
    Wrapped(Result<String, Error>),
    /// The outcome of unwrapping a key
    Unwrapped(Result<Vec<u8>, Error>),
}

/// Whether a client can answer a command with a reply: the outcome of doing what the command says.
pub open spec fn answers<C: KmsClient>(
    client: C,
    command: CommandModel,
    reply: KmsClientReply,
) -> bool {
    match (command, reply) {
        (
            CommandModel::WrapKey { key_bytes, master_key_identifier },
            KmsClientReply::Wrapped(r),
        ) => wraps(client, key_bytes, master_key_identifier, text_outcome(r)),
        (
            CommandModel::UnwrapKey { wrapped_key, master_key_identifier },
            KmsClientReply::Unwrapped(r),
        ) => unwraps(client, wrapped_key, master_key_identifier, bytes_outcome(r)),
        _ => false,
    }
}

impl KmsClientCommand {
    /// The command to wrap a key
    pub fn wrap_key(key_bytes: &[u8], master_key_identifier: &str) -> (r: Self)
        ensures
            r@ == (CommandModel::WrapKey {
                key_bytes: key_bytes@,
                master_key_identifier: master_key_identifier@,
            }),
    {
        let mut bytes: Vec<u8> = Vec::new();
        bytes.extend_from_slice(key_bytes);
        assert(bytes@ =~= key_bytes@);
        KmsClientCommand::WrapKey {
            key_bytes: bytes,
            master_key_identifier: master_key_identifier.to_owned(),
        }
    }

    /// The command to unwrap a key
    pub fn unwrap_key(wrapped_key: &str, master_key_identifier: &str) -> (r: Self)
        ensures
            r@ == (CommandModel::UnwrapKey {
                wrapped_key: wrapped_key@,
                master_key_identifier: master_key_identifier@,
            }),
    {
        KmsClientCommand::UnwrapKey {
            wrapped_key: wrapped_key.to_owned(),
            master_key_identifier: master_key_identifier.to_owned(),
        }
    }

    /// Do what the command says
    pub fn run<C: KmsClient>(&self, client: &C) -> (reply: KmsClientReply)
        ensures
            answers(*client, self@, reply),
    {
        match self {
            KmsClientCommand::WrapKey { key_bytes, master_key_identifier } => {
                let r = client.wrap_key(key_bytes.as_slice(), master_key_identifier.as_str());
                assert(wraps(*client, key_bytes@, master_key_identifier@, text_outcome(r)));
                KmsClientReply::Wrapped(r)
            },
            KmsClientCommand::UnwrapKey { wrapped_key, master_key_identifier } => {
                let r = client.unwrap_key(wrapped_key.as_str(), master_key_identifier.as_str());
                assert(unwraps(*client, wrapped_key@, master_key_identifier@, bytes_outcome(r)));
                KmsClientReply::Unwrapped(r)
            },
        }
    }
}

/// What a task that serves commands does next.
pub enum TaskStep<T> {
    /// Run a command in a task of its own, and wait for the next one
    Run(T),
    /// End, since no more commands can come
    Stop,
}

/// What a task does once it has waited for a command: it serves commands until all who can send
/// one are gone.
pub fn next_step<T>(received: Option<T>) -> (step: TaskStep<T>)
    ensures
        match received {
            Some(command) => step == TaskStep::Run(command),
            None => step is Stop,
        },
{
    match received {
        Some(command) => TaskStep::Run(command),
        None => TaskStep::Stop,
    }
}

/// The error of one who waited for a response that did not come.
pub open spec fn no_response(responder: Seq<char>, reason: Seq<char>) -> ErrorModel {
    ErrorModel::General("Failed to receive response from "@ + responder + ": "@ + reason)
}

fn no_response_error(responder: &str, reason: &str) -> (r: Error)
    ensures
        r@ == no_response(responder@, reason@),
{
    Error::General(
        "Failed to receive response from ".to_owned().concat(responder).concat(": ").concat(
            reason,
        ),
    )
}

/// Whether one who asked to wrap a key gets a response, given the reply or why there is none.
pub open spec fn responds_to_wrapping(
    received: Result<KmsClientReply, String>,
    response: Result<String, Error>,
) -> bool {
    match received {
        Ok(KmsClientReply::Wrapped(outcome)) => response == outcome,
        Ok(KmsClientReply::Unwrapped(_)) => response matches Err(e) && e@ == no_response(
            "KMS client"@,
            "unexpected reply"@,
        ),
        Err(reason) => response matches Err(e) && e@ == no_response("KMS client"@, reason@),
    }
}

/// Finds what the one who asked to wrap a key gets.
pub fn wrap_response(received: Result<KmsClientReply, String>) -> (r: Result<String, Error>)
    ensures
        responds_to_wrapping(received, r),
{
    match received {
        Ok(KmsClientReply::Wrapped(outcome)) => outcome,
        Ok(KmsClientReply::Unwrapped(_)) => Err(
            no_response_error("KMS client", "unexpected reply"),
        ),
        Err(reason) => Err(no_response_error("KMS client", reason.as_str())),
    }
}

/// Whether one who asked to unwrap a key gets a response, given the reply or why there is none.
pub open spec fn responds_to_unwrapping(
    received: Result<KmsClientReply, String>,
    response: Result<Vec<u8>, Error>,
) -> bool {
    match received {
        Ok(KmsClientReply::Unwrapped(outcome)) => response == outcome,
        Ok(KmsClientReply::Wrapped(_)) => response matches Err(e) && e@ == no_response(
            "KMS client"@,
            "unexpected reply"@,
        ),
        Err(reason) => response matches Err(e) && e@ == no_response("KMS client"@, reason@),
    }
}

/// Finds what the one who asked to unwrap a key gets.
pub fn unwrap_response(received: Result<KmsClientReply, String>) -> (r: Result<Vec<u8>, Error>)
    ensures
        responds_to_unwrapping(received, r),
{
    match received {
        Ok(KmsClientReply::Unwrapped(outcome)) => outcome,
        Ok(KmsClientReply::Wrapped(_)) => Err(no_response_error("KMS client", "unexpected reply")),
        Err(reason) => Err(no_response_error("KMS client", reason.as_str())),
    }
}

/// Whether one who asked for a client gets a response, given the reply or why there is none.
pub open spec fn responds_to_creation<C>(
    received: Result<Result<C, Error>, String>,
    response: Result<C, Error>,
) -> bool {
    match received {
        Ok(outcome) => response == outcome,
        Err(reason) => response matches Err(e) && e@ == no_response(
            "KMS client factory"@,
            reason@,
        ),
    }
}

/// Finds what the one who asked for a client gets.
pub fn client_response<C>(received: Result<Result<C, Error>, String>) -> (r: Result<C, Error>)
    ensures
        responds_to_creation(received, r),
{
    match received {
        Ok(outcome) => outcome,
        Err(reason) => Err(no_response_error("KMS client factory", reason.as_str())),
    }
}

/// What a KMS client factory is asked to do: create a client for a configuration.
pub struct CreateClient {
    pub config: KmsConnectionConfig,
}

impl CreateClient {
    /// The command to create a client
    pub fn new(kms_connection_config: &KmsConnectionConfig) -> (r: Self)
        ensures
            r.config@ == kms_connection_config@,
    {
        CreateClient { config: kms_connection_config.snapshot() }
    }

    /// Do what the command says
    pub fn run<F: KmsClientFactory>(&self, factory: &F) -> (r: Result<F::Client, Error>)
        ensures
            creates(*factory, self.config@, client_outcome(r)),
    {
        factory.create_client(&self.config)
    }
}

/// One who asks to wrap a key through a task gets what the client gives, be it a wrapped key or an
/// error, for the key and the master key that were asked for. Where the task does not answer, the
/// response is an error that says why.
pub proof fn law_bridge_is_transparent_for_wrapping<C: KmsClient>(
    client: C,
    key: Seq<u8>,
    master_key_id: Seq<char>,
    received: Result<KmsClientReply, String>,
    response: Result<String, Error>,
)
    requires
        received matches Ok(reply) ==> answers(
            client,
            CommandModel::WrapKey { key_bytes: key, master_key_identifier: master_key_id },
            reply,
        ),
        responds_to_wrapping(received, response),
    ensures
        match received {
            Ok(_) => wraps(client, key, master_key_id, text_outcome(response)),
            Err(reason) => text_outcome(response) == Err::<Seq<char>, ErrorModel>(
                no_response("KMS client"@, reason@),
            ),
        },
{
}

/// One who asks to unwrap a key through a task gets what the client gives, be it a key or an error,
/// for the wrapped key and the master key that were asked for. Where the task does not answer, the
/// response is an error that says why.
pub proof fn law_bridge_is_transparent_for_unwrapping<C: KmsClient>(
    client: C,
    wrapped_key: Seq<char>,
    master_key_id: Seq<char>,
    received: Result<KmsClientReply, String>,
    response: Result<Vec<u8>, Error>,
)
    requires
        received matches Ok(reply) ==> answers(
            client,
            CommandModel::UnwrapKey { wrapped_key, master_key_identifier: master_key_id },
            reply,
        ),
        responds_to_unwrapping(received, response),
    ensures
        match received {
            Ok(_) => unwraps(client, wrapped_key, master_key_id, bytes_outcome(response)),
            Err(reason) => bytes_outcome(response) == Err::<Seq<u8>, ErrorModel>(
                no_response("KMS client"@, reason@),
            ),
        },
{
}

/// One who asks for a client through a task gets what the factory gives for the configuration that
/// was asked for, be it a client or an error. Where the task does not answer, the response is an
/// error that says why.
pub proof fn law_bridge_is_transparent_for_creation<F: KmsClientFactory>(
    factory: F,
    config: ConfigModel,
    command: CreateClient,
    received: Result<Result<F::Client, Error>, String>,
    response: Result<F::Client, Error>,
)
    requires
        command.config@ == config,
        received matches Ok(created) ==> creates(factory, command.config@, client_outcome(created)),
        responds_to_creation(received, response),
    ensures
        match received {
            Ok(_) => creates(factory, config, client_outcome(response)),
            Err(reason) => client_outcome(response) == Err::<F::Client, ErrorModel>(
                no_response("KMS client factory"@, reason@),
            ),
        },
{
}

/// One who gets no response is told by whom and why. A reply to another kind of command is not
/// taken for a response.
pub proof fn law_missing_response_is_reported<C>(
    reason: String,
    wrapped: Result<String, Error>,
    unwrapped: Result<Vec<u8>, Error>,
    wrap_response: Result<String, Error>,
    unwrap_response: Result<Vec<u8>, Error>,
    client_response: Result<C, Error>,
)
    ensures
        responds_to_wrapping(Err(reason), wrap_response) ==> text_outcome(wrap_response) == Err::<
            Seq<char>,
            ErrorModel,
        >(
            ErrorModel::General(
                "Failed to receive response from "@ + "KMS client"@ + ": "@ + reason@,
            ),
        ),
        responds_to_unwrapping(Err(reason), unwrap_response) ==> bytes_outcome(unwrap_response)
            == Err::<Seq<u8>, ErrorModel>(
            ErrorModel::General(
                "Failed to receive response from "@ + "KMS client"@ + ": "@ + reason@,
            ),
        ),
        responds_to_creation(Err(reason), client_response) ==> client_outcome(client_response)
            == Err::<C, ErrorModel>(
            ErrorModel::General(
                "Failed to receive response from "@ + "KMS client factory"@ + ": "@ + reason@,
            ),
        ),
        responds_to_wrapping(Ok(KmsClientReply::Unwrapped(unwrapped)), wrap_response)
            ==> wrap_response is Err,
        responds_to_unwrapping(Ok(KmsClientReply::Wrapped(wrapped)), unwrap_response)
            ==> unwrap_response is Err,
{
}

} // verus!
