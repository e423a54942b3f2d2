//! The steps of a request. A request asks the root node which node the
//! zone of a name is delegated to, and then asks that node. The client
//! decides here what to ask next; whoever runs the request sends the
//! question and hands the answer back.

use crate::client::principal::{principal_of_text, text_of_principal, PrincipalId};
use crate::client::types::{
    CnsError, CnsFault, ControllerView, DomainLookup, DomainRecord, LookupView, RegisterResult,
    RegisterResultView, RegistrationController, RegistrationRecords, RegistrationView,
    RejectionCode, WireRecord, records_view,
};
use vstd::prelude::*;
use vstd::string::*;

verus! {

/// For how many seconds a record that a client registers may be cached.
pub const REGISTRATION_TTL: u32 = 3600;

/// Whose name a reverse lookup asks for.
#[derive(Clone, Copy, Debug, PartialEq, Eq, Structural)]
pub enum ReverseTarget {
    Canister,
    Subnet,
}

/// What a client asks of the registry.
#[derive(Debug, PartialEq, Eq)]
pub enum CnsRequest {
    /// The identifier that a record of the type `record_type` gives for
    /// `domain`.
    Lookup { domain: String, record_type: String },
    /// To register `identifier` as the target of `domain`.
    Register { domain: String, identifier: PrincipalId },
    /// The name that is registered for `identifier`.
    ReverseLookup { identifier: PrincipalId, target: ReverseTarget },
}

/// A [`CnsRequest`] as plain values.
pub enum RequestView {
    Lookup { domain: Seq<char>, record_type: Seq<char> },
    Register { domain: Seq<char>, identifier: Seq<u8> },
    ReverseLookup { identifier: Seq<u8>, target: ReverseTarget },
}

impl View for CnsRequest {
    type V = RequestView;

    open spec fn view(&self) -> RequestView {
        match *self {
            CnsRequest::Lookup { domain, record_type } => RequestView::Lookup {
                domain: domain@,
                record_type: record_type@,
            },
            CnsRequest::Register { domain, identifier } => RequestView::Register {
                domain: domain@,
                identifier: identifier@,
            },
            CnsRequest::ReverseLookup { identifier, target } => RequestView::ReverseLookup {
                identifier: identifier@,
                target,
            },
        }
    }
}

impl CnsRequest {
    /// Asks for the canister that `domain` names: the identifier in its
    /// `CID` record.
    pub fn lookup_domain(domain: String) -> (r: Self)
        ensures
            r@ == (RequestView::Lookup { domain: domain@, record_type: "CID"@ }),
    {
        CnsRequest::Lookup { domain, record_type: String::from_str("CID") }
    }

    /// Asks for the subnet that `subnet_name` names: the identifier in its
    /// `SID` record.
    pub fn lookup_subnet(subnet_name: String) -> (r: Self)
        ensures
            r@ == (RequestView::Lookup { domain: subnet_name@, record_type: "SID"@ }),
    {
        CnsRequest::Lookup { domain: subnet_name, record_type: String::from_str("SID") }
    }

    /// Asks to register the canister `cid` as the target of `domain`.
    pub fn register_domain(domain: String, cid: PrincipalId) -> (r: Self)
        ensures
            r@ == (RequestView::Register { domain: domain@, identifier: cid@ }),
    {
        CnsRequest::Register { domain, identifier: cid }
    }

    /// Asks for the domain that is registered for the canister.
    pub fn domain_for_canister(canister_id: PrincipalId) -> (r: Self)
        ensures
            r@ == (RequestView::ReverseLookup {
                identifier: canister_id@,
                target: ReverseTarget::Canister,
            }),
    {
        CnsRequest::ReverseLookup { identifier: canister_id, target: ReverseTarget::Canister }
    }

    /// Asks for the name that is registered for the subnet.
    pub fn name_for_subnet(subnet_id: PrincipalId) -> (r: Self)
        ensures
            r@ == (RequestView::ReverseLookup {
                identifier: subnet_id@,
                target: ReverseTarget::Subnet,
            }),
    {
        CnsRequest::ReverseLookup { identifier: subnet_id, target: ReverseTarget::Subnet }
    }
}

/// What a request ends with where it succeeds.
#[derive(Debug, PartialEq, Eq)]
pub enum CnsReply {
    /// The identifier that was looked up.
    Id(PrincipalId),
    /// The name was registered.
    Registered,
    /// The name that was looked up.
    Name(String),
}

/// A [`CnsReply`] as plain values.
pub enum ReplyView {
    Id(Seq<u8>),
    Registered,
    Name(Seq<char>),
}

impl View for CnsReply {
    type V = ReplyView;

    open spec fn view(&self) -> ReplyView {
        match *self {
            CnsReply::Id(id) => ReplyView::Id(id@),
            CnsReply::Registered => ReplyView::Registered,
            CnsReply::Name(name) => ReplyView::Name(name@),
        }
    }
}

/// How far a request has come.
#[derive(Debug, PartialEq, Eq)]
pub enum CnsState {
    /// Nothing was asked yet.
    Start,
    /// The root node was asked for the node that the zone is delegated to.
    AwaitingDelegate,
    /// The delegated node was asked.
    AwaitingAnswer,
    /// The request has succeeded.
    Resolved(CnsReply),
    /// The request has failed.
    Failed(CnsError),
}

/// A [`CnsState`] as plain values.
pub enum StateView {
    Start,
    AwaitingDelegate,
    AwaitingAnswer,
    Resolved(ReplyView),
    Failed(CnsFault),
}

impl View for CnsState {
    type V = StateView;

    open spec fn view(&self) -> StateView {
        match *self {
            CnsState::Start => StateView::Start,
            CnsState::AwaitingDelegate => StateView::AwaitingDelegate,
            CnsState::AwaitingAnswer => StateView::AwaitingAnswer,
            CnsState::Resolved(reply) => StateView::Resolved(reply@),
            CnsState::Failed(error) => StateView::Failed(error@),
        }
    }
}

/// What is to be done next for a request.
#[derive(Debug, PartialEq, Eq)]
pub enum CnsAction {
    /// Ask `node` for the records of the type `record_type` of `name`.
    Lookup { node: PrincipalId, name: String, record_type: String },
    /// Ask `node` to register `registration` for `name`.
    Register { node: PrincipalId, name: String, registration: RegistrationRecords },
    /// Nothing: the request has ended.
    Done,
}

/// A [`CnsAction`] as plain values.
pub enum ActionView {
    Lookup { node: Seq<u8>, name: Seq<char>, record_type: Seq<char> },
    Register { node: Seq<u8>, name: Seq<char>, registration: RegistrationView },
    Done,
}

impl View for CnsAction {
    type V = ActionView;

    open spec fn view(&self) -> ActionView {
        match *self {
            CnsAction::Lookup { node, name, record_type } => ActionView::Lookup {
                node: node@,
                name: name@,
                record_type: record_type@,
            },
            CnsAction::Register { node, name, registration } => ActionView::Register {
                node: node@,
                name: name@,
                registration: registration@,
            },
            CnsAction::Done => ActionView::Done,
        }
    }
}

/// What has happened since the last step of a request.
#[derive(Debug, PartialEq, Eq)]
pub enum CnsEvent {
    /// The request begins.
    Begin,
    /// The node that was asked has answered the lookup.
    LookupReply(DomainLookup),
    /// The node that was asked has answered the registration.
    RegisterReply(RegisterResult),
    /// The call to the node has failed.
    CallFailed(RejectionCode, String),
}

/// A [`CnsEvent`] as plain values.
pub enum EventView {
    Begin,
    LookupReply(LookupView),
    RegisterReply(RegisterResultView),
    CallFailed(RejectionCode, Seq<char>),
}

impl View for CnsEvent {
    type V = EventView;

    open spec fn view(&self) -> EventView {
        match *self {
            CnsEvent::Begin => EventView::Begin,
            CnsEvent::LookupReply(lookup) => EventView::LookupReply(lookup@),
            CnsEvent::RegisterReply(result) => EventView::RegisterReply(result@),
            CnsEvent::CallFailed(code, message) => EventView::CallFailed(code, message@),
        }
    }
}

/// The identifier that the first of the records names, where `parsed` is
/// what the data of that record reads as: no record is not found, and data
/// that does not read as an identifier is malformed.
pub open spec fn id_from_records(
    records: Seq<WireRecord>,
    context: Seq<char>,
    parsed: Option<Seq<u8>>,
) -> Result<Seq<u8>, CnsFault> {
    if records.len() == 0 {
        Err(CnsFault::NotFound("No record for "@ + context))
    } else {
        match parsed {
            Some(id) => Ok(id),
            None => Err(
                CnsFault::MalformedData(
                    "Malformed principal id `"@ + records[0].data + "` for "@ + context,
                ),
            ),
        }
    }
}

/// The name whose delegation a request asks the root node for: the domain
/// itself, or the zone of the reverse records.
pub open spec fn delegation_domain(request: RequestView) -> Seq<char> {
    match request {
        RequestView::Lookup { domain, .. } => domain,
        RequestView::Register { domain, .. } => domain,
        RequestView::ReverseLookup { .. } => ".icp."@,
    }
}

/// The one record that a client registers for a domain.
pub open spec fn registration_of(domain: Seq<char>, id_text: Seq<char>) -> RegistrationView {
    RegistrationView {
        controllers: Seq::<ControllerView>::empty(),
        records: Some(
            seq![
                WireRecord {
                    name: domain,
                    record_type: "CID"@,
                    ttl: REGISTRATION_TTL,
                    data: id_text,
                },
            ],
        ),
    }
}

/// What a request asks of the node that its zone is delegated to.
pub open spec fn question(request: RequestView, node: Seq<u8>, id_text: Seq<char>) -> ActionView {
    match request {
        RequestView::Lookup { domain, record_type } => ActionView::Lookup {
            node,
            name: domain,
            record_type,
        },
        RequestView::Register { domain, .. } => ActionView::Register {
            node,
            name: domain,
            registration: registration_of(domain, id_text),
        },
        RequestView::ReverseLookup { .. } => ActionView::Lookup {
            node,
            name: id_text + ".reverse.icp."@,
            record_type: "PTR"@,
        },
    }
}

/// How a request ends on the answer of the delegated node to a lookup.
pub open spec fn lookup_outcome(
    request: RequestView,
    lookup: LookupView,
    parsed: Option<Seq<u8>>,
    id_text: Seq<char>,
) -> StateView {
    match request {
        RequestView::Lookup { domain, record_type } => match id_from_records(
            lookup.answers,
            record_type + " lookup for "@ + domain,
            parsed,
        ) {
            Ok(id) => StateView::Resolved(ReplyView::Id(id)),
            Err(fault) => StateView::Failed(fault),
        },
        RequestView::Register { .. } => StateView::Failed(
            CnsFault::Internal("Unexpected answer"@),
        ),
        RequestView::ReverseLookup { target, .. } => if lookup.answers.len() > 0 {
            StateView::Resolved(ReplyView::Name(lookup.answers[0].data))
        } else {
            StateView::Failed(
                CnsFault::NotFound(
                    match target {
                        ReverseTarget::Canister => "No domain found for canister "@,
                        ReverseTarget::Subnet => "No name found for subnet "@,
                    } + id_text,
                ),
            )
        },
    }
}

/// How a request ends on the answer of the delegated node to a
/// registration.
pub open spec fn register_outcome(request: RequestView, result: RegisterResultView) -> StateView {
    match request {
        RequestView::Register { domain, .. } => if result.success {
            StateView::Resolved(ReplyView::Registered)
        } else {
            StateView::Failed(
                CnsFault::CallFailed(
                    RejectionCode::NoError,
                    "Registration of domain "@ + domain + " failed with error "@ + match result.message {
                        Some(message) => message,
                        None => Seq::<char>::empty(),
                    },
                ),
            )
        },
        _ => StateView::Failed(CnsFault::Internal("Unexpected answer"@)),
    }
}

/// The next state of a request and what is to be done next, where `parsed`
/// is what the data of the first answer reads as and `id_text` is the text
/// form of the identifier in the request.
///
/// A request that begins asks the root node for the `NC` record of its
/// name. The first answer to that names the delegated node, which is asked
/// what the request asks. The answer of that node ends the request. A call
/// that fails ends the request with the failure as it came. An event that
/// the state does not wait for ends the request as a fault of the client.
pub open spec fn next(
    request: RequestView,
    root: Seq<u8>,
    state: StateView,
    event: EventView,
    parsed: Option<Seq<u8>>,
    id_text: Seq<char>,
) -> (StateView, ActionView) {
    match (state, event) {
        (StateView::Start, EventView::Begin) => (
            StateView::AwaitingDelegate,
            ActionView::Lookup {
                node: root,
                name: delegation_domain(request),
                record_type: "NC"@,
            },
        ),
        (StateView::AwaitingDelegate, EventView::LookupReply(lookup)) => match id_from_records(
            lookup.answers,
            "NC lookup for "@ + delegation_domain(request),
            parsed,
        ) {
            Ok(node) => (StateView::AwaitingAnswer, question(request, node, id_text)),
            Err(fault) => (StateView::Failed(fault), ActionView::Done),
        },
        (StateView::AwaitingAnswer, EventView::LookupReply(lookup)) => (
            lookup_outcome(request, lookup, parsed, id_text),
            ActionView::Done,
        ),
        (StateView::AwaitingAnswer, EventView::RegisterReply(result)) => (
            register_outcome(request, result),
            ActionView::Done,
        ),
        (StateView::AwaitingDelegate, EventView::CallFailed(code, message)) => (
            StateView::Failed(CnsFault::CallFailed(code, message)),
            ActionView::Done,
        ),
        (StateView::AwaitingAnswer, EventView::CallFailed(code, message)) => (
            StateView::Failed(CnsFault::CallFailed(code, message)),
            ActionView::Done,
        ),
        _ => (StateView::Failed(CnsFault::Internal("Unexpected event"@)), ActionView::Done),
    }
}

/// What the data of the first answer of a lookup reads as.
pub open spec fn parse_of_event(event: EventView) -> Option<Seq<u8>> {
    match event {
        EventView::LookupReply(lookup) => if lookup.answers.len() > 0 {
            principal_of_text(lookup.answers[0].data)
        } else {
            None
        },
        _ => None,
    }
}

/// The text form of the identifier in a request, and the empty text where
/// it holds none.
pub open spec fn id_text_of_request(request: RequestView) -> Seq<char> {
    match request {
        RequestView::Lookup { .. } => Seq::<char>::empty(),
        RequestView::Register { identifier, .. } => text_of_principal(identifier),
        RequestView::ReverseLookup { identifier, .. } => text_of_principal(identifier),
    }
}

/// The two texts, one behind the other.
fn join(first: &str, second: &str) -> (r: String)
    ensures
        r@ == first@ + second@,
{
    String::from_str(first).concat(second)
}

/// The identifier that the first of the records names, where `parsed` is
/// what the data of that record reads as.
pub fn principal_id_from_parse(
    records: &[DomainRecord],
    context: &str,
    parsed: Option<PrincipalId>,
) -> (r: Result<PrincipalId, CnsError>)
    ensures
        match r {
            Ok(id) => id_from_records(
                records_view(records@),
                context@,
                match parsed {
                    Some(p) => Some(p@),
                    None => None,
                },
            ) == Ok::<Seq<u8>, CnsFault>(id@),
            Err(e) => id_from_records(
                records_view(records@),
                context@,
                match parsed {
                    Some(p) => Some(p@),
                    None => None,
                },
            ) == Err::<Seq<u8>, CnsFault>(e@),
        },
{
    if records.len() == 0 {
        return Err(CnsError::NotFound(join("No record for ", context)));
    }
    match parsed {
        Some(id) => Ok(id),
        None => {
            let message = String::from_str("Malformed principal id `").concat(
                records[0].data.as_str(),
            ).concat("` for ").concat(context);
            Err(CnsError::MalformedData(message))
        },
    }
}

/// The identifier that the first of the records names: its data, read as
/// the text form of an identifier.
pub fn get_principal_id_from_records(records: &[DomainRecord], context: &str) -> (r: Result<
    PrincipalId,
    CnsError,
>)
    ensures
        match r {
            Ok(id) => id_from_records(
                records_view(records@),
                context@,
                if records@.len() > 0 {
                    principal_of_text(records@[0].data@)
                } else {
                    None
                },
            ) == Ok::<Seq<u8>, CnsFault>(id@),
            Err(e) => id_from_records(
                records_view(records@),
                context@,
                if records@.len() > 0 {
                    principal_of_text(records@[0].data@)
                } else {
                    None
                },
            ) == Err::<Seq<u8>, CnsFault>(e@),
        },
{
    let parsed = if records.len() > 0 {
        PrincipalId::from_text(records[0].data.as_str())
    } else {
        None
    };
    principal_id_from_parse(records, context, parsed)
}

/// The view of an identifier that may be missing.
pub open spec fn opt_id(id: Option<PrincipalId>) -> Option<Seq<u8>> {
    match id {
        Some(p) => Some(p@),
        None => None,
    }
}

/// What a request asks of the node that its zone is delegated to.
fn ask(request: &CnsRequest, node: PrincipalId, id_text: &str) -> (r: CnsAction)
    ensures
        r@ == question(request@, node@, id_text@),
{
    match request {
        CnsRequest::Lookup { domain, record_type } => CnsAction::Lookup {
            node,
            name: domain.clone(),
            record_type: record_type.clone(),
        },
        CnsRequest::Register { domain, .. } => {
            let record = DomainRecord {
                name: domain.clone(),
                record_type: String::from_str("CID"),
                ttl: REGISTRATION_TTL,
                data: String::from_str(id_text),
            };
            let mut records: Vec<DomainRecord> = Vec::new();
            records.push(record);
            let controllers: Vec<RegistrationController> = Vec::new();
            let registration = RegistrationRecords { controllers, records: Some(records) };
            proof {
                assert(registration@.records->0 =~= registration_of(domain@, id_text@).records->0);
                assert(registration@.controllers =~= Seq::<ControllerView>::empty());
            }
            CnsAction::Register { node, name: domain.clone(), registration }
        },
        CnsRequest::ReverseLookup { .. } => CnsAction::Lookup {
            node,
            name: join(id_text, ".reverse.icp."),
            record_type: String::from_str("PTR"),
        },
    }
}

/// The name whose delegation the request asks the root node for.
fn delegation_name(request: &CnsRequest) -> (r: String)
    ensures
        r@ == delegation_domain(request@),
{
    match request {
        CnsRequest::Lookup { domain, .. } => domain.clone(),
        CnsRequest::Register { domain, .. } => domain.clone(),
        CnsRequest::ReverseLookup { .. } => String::from_str(".icp."),
    }
}

/// How the request ends on the answer of the delegated node to a lookup.
fn end_lookup(request: &CnsRequest, lookup: DomainLookup, parsed: Option<PrincipalId>, id_text: &str) -> (r:
    CnsState)
    ensures
        r@ == lookup_outcome(request@, lookup@, opt_id(parsed), id_text@),
{
    match request {
        CnsRequest::Lookup { domain, record_type } => {
            let context = record_type.clone().concat(" lookup for ").concat(domain.as_str());
            match principal_id_from_parse(lookup.answers.as_slice(), context.as_str(), parsed) {
                Ok(id) => CnsState::Resolved(CnsReply::Id(id)),
                Err(e) => CnsState::Failed(e),
            }
        },
        CnsRequest::Register { .. } => CnsState::Failed(
            CnsError::Internal(String::from_str("Unexpected answer")),
        ),
        CnsRequest::ReverseLookup { target, .. } => {
            if lookup.answers.len() > 0 {
                CnsState::Resolved(CnsReply::Name(lookup.answers[0].data.clone()))
            } else {
                let message = match target {
                    ReverseTarget::Canister => join("No domain found for canister ", id_text),
                    ReverseTarget::Subnet => join("No name found for subnet ", id_text),
                };
                CnsState::Failed(CnsError::NotFound(message))
            }
        },
    }
}

/// How the request ends on the answer of the delegated node to a
/// registration.
fn end_register(request: &CnsRequest, result: RegisterResult) -> (r: CnsState)
    ensures
        r@ == register_outcome(request@, result@),
{
    match request {
        CnsRequest::Register { domain, .. } => {
            if result.success {
                CnsState::Resolved(CnsReply::Registered)
            } else {
                let head = String::from_str("Registration of domain ").concat(
                    domain.as_str(),
                ).concat(" failed with error ");
                let message = match &result.message {
                    Some(message) => head.concat(message.as_str()),
                    None => {
                        proof {
                            assert(head@ + Seq::<char>::empty() =~= head@);
                        }
                        head
                    },
                };
                CnsState::Failed(CnsError::CallFailed((RejectionCode::NoError, message)))
            }
        },
        _ => CnsState::Failed(CnsError::Internal(String::from_str("Unexpected answer"))),
    }
}

/// The end of a request on an event that its state does not wait for.
fn unexpected() -> (r: (CnsState, CnsAction))
    ensures
        r.0@ == StateView::Failed(CnsFault::Internal("Unexpected event"@)),
        r.1@ == ActionView::Done,
{
    (CnsState::Failed(CnsError::Internal(String::from_str("Unexpected event"))), CnsAction::Done)
}

/// One step of a request: from its state and what has happened to its next
/// state and what is to be done next. `parsed` is what the data of the
/// first answer reads as, and `id_text` the text form of the identifier in
/// the request.
pub fn advance(
    request: &CnsRequest,
    root: &PrincipalId,
    state: CnsState,
    event: CnsEvent,
    parsed: Option<PrincipalId>,
    id_text: &str,
) -> (r: (CnsState, CnsAction))
    ensures
        (r.0@, r.1@) == next(request@, root@, state@, event@, opt_id(parsed), id_text@),
{
    match state {
        CnsState::Start => match event {
            CnsEvent::Begin => (
                CnsState::AwaitingDelegate,
                CnsAction::Lookup {
                    node: root.clone(),
                    name: delegation_name(request),
                    record_type: String::from_str("NC"),
                },
            ),
            _ => unexpected(),
        },
        CnsState::AwaitingDelegate => match event {
            CnsEvent::LookupReply(lookup) => {
                let context = String::from_str("NC lookup for ").concat(
                    delegation_name(request).as_str(),
                );
                match principal_id_from_parse(lookup.answers.as_slice(), context.as_str(), parsed) {
                    Ok(node) => (CnsState::AwaitingAnswer, ask(request, node, id_text)),
                    Err(e) => (CnsState::Failed(e), CnsAction::Done),
                }
            },
            CnsEvent::CallFailed(code, message) => (
                CnsState::Failed(CnsError::CallFailed((code, message))),
                CnsAction::Done,
            ),
            _ => unexpected(),
        },
        CnsState::AwaitingAnswer => match event {
            CnsEvent::LookupReply(lookup) => (
                end_lookup(request, lookup, parsed, id_text),
                CnsAction::Done,
            ),
            CnsEvent::RegisterReply(result) => (end_register(request, result), CnsAction::Done),
            CnsEvent::CallFailed(code, message) => (
                CnsState::Failed(CnsError::CallFailed((code, message))),
                CnsAction::Done,
            ),
            _ => unexpected(),
        },
        _ => unexpected(),
    }
}

/// One step of a request: from its state and what has happened to its next
/// state and what is to be done next.
pub fn step(request: &CnsRequest, root: &PrincipalId, state: CnsState, event: CnsEvent) -> (r: (
    CnsState,
    CnsAction,
))
    ensures
        (r.0@, r.1@) == next(
            request@,
            root@,
            state@,
            event@,
            parse_of_event(event@),
            id_text_of_request(request@),
        ),
{
    let parsed = match &event {
        CnsEvent::LookupReply(lookup) => {
            if lookup.answers.len() > 0 {
                PrincipalId::from_text(lookup.answers[0].data.as_str())
            } else {
                None
            }
        },
        _ => None,
    };
    let id_text = match request {
        CnsRequest::Lookup { .. } => String::new(),
        CnsRequest::Register { identifier, .. } => identifier.to_text(),
        CnsRequest::ReverseLookup { identifier, .. } => identifier.to_text(),
    };
    advance(request, root, state, event, parsed, id_text.as_str())
}

} // verus!
