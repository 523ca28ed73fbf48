//! What comes back from an upstream lookup, how it is classified, and what
//! is handed to the response encoder.

use vstd::prelude::*;

verus! {

/// The record type that a query asks for.
#[derive(Clone, Copy, Debug, PartialEq, Eq, Hash, Structural)]
pub enum QueryType {
    A,
    Aaaa,
    Ns,
    Cname,
    Mx,
    Ptr,
    Srv,
    Https,
    Unknown(u16),
}

/// Type code of NS records.
pub const TYPE_NS: u16 = 2;

/// Type code of SOA records.
pub const TYPE_SOA: u16 = 6;

/// The record type with a given wire code.
pub open spec fn query_type_of(code: u16) -> QueryType {
    if code == 1 {
        QueryType::A
    } else if code == 28 {
        QueryType::Aaaa
    } else if code == 2 {
        QueryType::Ns
    } else if code == 5 {
        QueryType::Cname
    } else if code == 15 {
        QueryType::Mx
    } else if code == 12 {
        QueryType::Ptr
    } else if code == 33 {
        QueryType::Srv
    } else if code == 65 {
        QueryType::Https
    } else {
        QueryType::Unknown(code)
    }
}

impl QueryType {
    /// The wire code of a record type.
    pub open spec fn spec_code(self) -> u16 {
        match self {
            QueryType::A => 1,
            QueryType::Aaaa => 28,
            QueryType::Ns => 2,
            QueryType::Cname => 5,
            QueryType::Mx => 15,
            QueryType::Ptr => 12,
            QueryType::Srv => 33,
            QueryType::Https => 65,
            QueryType::Unknown(code) => code,
        }
    }

    /// The wire code of a record type.
    #[verifier::when_used_as_spec(spec_code)]
    pub fn code(self) -> (c: u16)
        ensures
            c == self.spec_code(),
    {
        match self {
            QueryType::A => 1,
            QueryType::Aaaa => 28,
            QueryType::Ns => 2,
            QueryType::Cname => 5,
            QueryType::Mx => 15,
            QueryType::Ptr => 12,
            QueryType::Srv => 33,
            QueryType::Https => 65,
            QueryType::Unknown(code) => code,
        }
    }

    /// The record type with a given wire code.
    pub fn from_code(code: u16) -> (t: QueryType)
        ensures
            t == query_type_of(code),
    {
        if code == 1 {
            QueryType::A
        } else if code == 28 {
            QueryType::Aaaa
        } else if code == 2 {
            QueryType::Ns
        } else if code == 5 {
            QueryType::Cname
        } else if code == 15 {
            QueryType::Mx
        } else if code == 12 {
            QueryType::Ptr
        } else if code == 33 {
            QueryType::Srv
        } else if code == 65 {
            QueryType::Https
        } else {
            QueryType::Unknown(code)
        }
    }
}

/// Every wire code is the code of the record type it names.
pub proof fn lemma_code_round_trip(code: u16)
    ensures
        query_type_of(code).spec_code() == code,
{
}

/// Why a lookup failed.
#[derive(Clone, Copy, Debug, PartialEq, Eq, Hash, Structural)]
pub enum FailureReason {
    /// The transport gave up waiting for an answer.
    Timeout,
    /// The upstream server or the transport refused the query.
    Refused,
    /// Any other error of the protocol or the transport.
    Protocol,
}

/// An error of the upstream resolver, as far as the classification reads it.
#[derive(Clone, Copy, Debug, PartialEq, Eq, Hash, Structural)]
pub enum UpstreamError {
    /// The response held no record for the query; `response_code` is the
    /// code of that response.
    NoRecords { response_code: u16 },
    /// The request timed out.
    Timeout,
    /// The request was refused before it was sent.
    Refused,
    /// Any other error.
    Other,
}

/// Response code "no error".
pub const RCODE_NO_ERROR: u16 = 0;

/// Response code "non-existent domain".
pub const RCODE_NX_DOMAIN: u16 = 3;

/// Response code "query refused".
pub const RCODE_REFUSED: u16 = 5;

/// What the resolver handed back for one query, before classification.
#[derive(Clone, Debug, PartialEq, Eq)]
pub enum UpstreamReply {
    /// A response, with the type code of each record that matched the query,
    /// in the order of the response.
    Records(Vec<u16>),
    /// A valid negative answer: the name or the data does not exist.
    NoRecords,
    /// The transport timed out.
    TimedOut,
    /// The query was refused.
    Refused,
    /// Any other error.
    ProtocolError,
}

/// The classified result of a lookup.
#[derive(Clone, Debug, PartialEq, Eq)]
pub enum LookupOutcome {
    /// At least one matching record; the type code of each, in order.
    Success(Vec<u16>),
    /// A successful negative answer.
    NoRecordsFound,
    /// The lookup failed.
    Failure(FailureReason),
}

/// Mathematical form of an outcome.
pub enum OutcomeView {
    Success(Seq<u16>),
    NoRecordsFound,
    Failure(FailureReason),
}

impl View for LookupOutcome {
    type V = OutcomeView;

    open spec fn view(&self) -> OutcomeView {
        match self {
            LookupOutcome::Success(types) => OutcomeView::Success(types@),
            LookupOutcome::NoRecordsFound => OutcomeView::NoRecordsFound,
            LookupOutcome::Failure(reason) => OutcomeView::Failure(*reason),
        }
    }
}

/// Mathematical form of a reply.
pub enum ReplyView {
    Records(Seq<u16>),
    NoRecords,
    TimedOut,
    Refused,
    ProtocolError,
}

impl View for UpstreamReply {
    type V = ReplyView;

    open spec fn view(&self) -> ReplyView {
        match self {
            UpstreamReply::Records(types) => ReplyView::Records(types@),
            UpstreamReply::NoRecords => ReplyView::NoRecords,
            UpstreamReply::TimedOut => ReplyView::TimedOut,
            UpstreamReply::Refused => ReplyView::Refused,
            UpstreamReply::ProtocolError => ReplyView::ProtocolError,
        }
    }
}

/// The reply that an error of the resolver stands for. A response without
/// records is a negative answer only if its code says that the name or the
/// data does not exist; with the code of a refusal it is a refusal, and with
/// any other code an error.
pub open spec fn reply_of_error(error: UpstreamError) -> ReplyView {
    match error {
        UpstreamError::NoRecords { response_code } => if response_code == RCODE_NO_ERROR
            || response_code == RCODE_NX_DOMAIN {
            ReplyView::NoRecords
        } else if response_code == RCODE_REFUSED {
            ReplyView::Refused
        } else {
            ReplyView::ProtocolError
        },
        UpstreamError::Timeout => ReplyView::TimedOut,
        UpstreamError::Refused => ReplyView::Refused,
        UpstreamError::Other => ReplyView::ProtocolError,
    }
}

impl UpstreamReply {
    /// The reply that an error of the resolver stands for.
    pub fn from_error(error: UpstreamError) -> (reply: UpstreamReply)
        ensures
            reply@ == reply_of_error(error),
    {
        match error {
            UpstreamError::NoRecords { response_code } => {
                if response_code == RCODE_NO_ERROR || response_code == RCODE_NX_DOMAIN {
                    UpstreamReply::NoRecords
                } else if response_code == RCODE_REFUSED {
                    UpstreamReply::Refused
                } else {
                    UpstreamReply::ProtocolError
                }
            },
            UpstreamError::Timeout => UpstreamReply::TimedOut,
            UpstreamError::Refused => UpstreamReply::Refused,
            UpstreamError::Other => UpstreamReply::ProtocolError,
        }
    }
}

/// The outcome that a reply stands for. A response without a matching record
/// is a negative answer, not a failure; every error but the negative answer
/// is a failure.
pub open spec fn outcome_of(reply: ReplyView) -> OutcomeView {
    match reply {
        ReplyView::Records(types) => if types.len() > 0 {
            OutcomeView::Success(types)
        } else {
            OutcomeView::NoRecordsFound
        },
        ReplyView::NoRecords => OutcomeView::NoRecordsFound,
        ReplyView::TimedOut => OutcomeView::Failure(FailureReason::Timeout),
        ReplyView::Refused => OutcomeView::Failure(FailureReason::Refused),
        ReplyView::ProtocolError => OutcomeView::Failure(FailureReason::Protocol),
    }
}

/// A transport timeout is a failure, a valid response without a record is a
/// negative answer, and a response with one record or more is a success
/// with those records.
pub proof fn lemma_classification(types: Seq<u16>)
    ensures
        outcome_of(ReplyView::TimedOut) == OutcomeView::Failure(FailureReason::Timeout),
        outcome_of(ReplyView::NoRecords) == OutcomeView::NoRecordsFound,
        types.len() == 0 ==> outcome_of(ReplyView::Records(types)) == OutcomeView::NoRecordsFound,
        types.len() >= 1 ==> outcome_of(ReplyView::Records(types)) == OutcomeView::Success(types),
{
}

/// Only a negative answer of the resolver is classified as one: a timeout,
/// a refusal and any other error end in a failure.
pub proof fn lemma_errors_are_told_apart(error: UpstreamError)
    ensures
        outcome_of(reply_of_error(error)) is NoRecordsFound <==> (error matches UpstreamError::NoRecords {
            response_code,
        } && (response_code == RCODE_NO_ERROR || response_code == RCODE_NX_DOMAIN)),
        !(outcome_of(reply_of_error(error)) is Success),
{
}

/// Classifies what the resolver handed back.
pub fn classify(reply: UpstreamReply) -> (outcome: LookupOutcome)
    ensures
        outcome@ == outcome_of(reply@),
{
    match reply {
        UpstreamReply::Records(types) => {
            if types.len() > 0 {
                LookupOutcome::Success(types)
            } else {
                LookupOutcome::NoRecordsFound
            }
        },
        UpstreamReply::NoRecords => LookupOutcome::NoRecordsFound,
        UpstreamReply::TimedOut => LookupOutcome::Failure(FailureReason::Timeout),
        UpstreamReply::Refused => LookupOutcome::Failure(FailureReason::Refused),
        UpstreamReply::ProtocolError => LookupOutcome::Failure(FailureReason::Protocol),
    }
}

/// The section of a response in which a record is sent.
#[derive(Clone, Copy, Debug, PartialEq, Eq, Hash, Structural)]
pub enum Section {
    Answer,
    NameServer,
    Soa,
}

/// NS records go to the name-server section, SOA records to the SOA section,
/// every other record to the answers.
pub open spec fn section_of(record_type: u16) -> Section {
    if record_type == TYPE_NS {
        Section::NameServer
    } else if record_type == TYPE_SOA {
        Section::Soa
    } else {
        Section::Answer
    }
}

/// The section in which a record of this type is sent.
pub fn section_for(record_type: u16) -> (s: Section)
    ensures
        s == section_of(record_type),
{
    if record_type == TYPE_NS {
        Section::NameServer
    } else if record_type == TYPE_SOA {
        Section::Soa
    } else {
        Section::Answer
    }
}

/// The positions of the records of one section, in increasing order.
pub open spec fn positions_in(types: Seq<u16>, section: Section) -> Seq<usize>
    decreases types.len(),
{
    if types.len() == 0 {
        Seq::empty()
    } else {
        let front = positions_in(types.drop_last(), section);
        if section_of(types.last()) == section {
            front.push((types.len() - 1) as usize)
        } else {
            front
        }
    }
}

/// The response code sent to the client.
#[derive(Clone, Copy, Debug, PartialEq, Eq, Hash, Structural)]
pub enum ResponseCode {
    NoError,
    ServFail,
    Refused,
}

/// The code that stands for an outcome: a negative answer is no error, and a
/// failure is told apart from it.
pub open spec fn response_code_of(outcome: OutcomeView) -> ResponseCode {
    match outcome {
        OutcomeView::Success(_) => ResponseCode::NoError,
        OutcomeView::NoRecordsFound => ResponseCode::NoError,
        OutcomeView::Failure(reason) => if reason == FailureReason::Refused {
            ResponseCode::Refused
        } else {
            ResponseCode::ServFail
        },
    }
}

/// The records of an outcome: those of a success, none otherwise.
pub open spec fn records_of(outcome: OutcomeView) -> Seq<u16> {
    match outcome {
        OutcomeView::Success(types) => types,
        _ => Seq::empty(),
    }
}

/// What the response encoder is asked to send. Records are named by their
/// position in the record set of the outcome.
#[derive(Clone, Debug, PartialEq, Eq)]
pub struct ResponsePlan {
    pub code: ResponseCode,
    pub answers: Vec<usize>,
    pub name_servers: Vec<usize>,
    pub soa: Vec<usize>,
    pub additionals: Vec<usize>,
    pub lookup_millis: u128,
}

/// Plans the response for an outcome. Some response is planned for every
/// outcome, a failure included.
pub fn plan_response(outcome: &LookupOutcome, lookup_millis: u128) -> (plan: ResponsePlan)
    ensures
        plan.code == response_code_of(outcome@),
        plan.answers@ == positions_in(records_of(outcome@), Section::Answer),
        plan.name_servers@ == positions_in(records_of(outcome@), Section::NameServer),
        plan.soa@ == positions_in(records_of(outcome@), Section::Soa),
        plan.additionals@.len() == 0,
        plan.lookup_millis == lookup_millis,
{
    let mut answers: Vec<usize> = Vec::new();
    let mut name_servers: Vec<usize> = Vec::new();
    let mut soa: Vec<usize> = Vec::new();
    let code = match outcome {
        LookupOutcome::Success(types) => {
            let mut i: usize = 0;
            while i < types.len()
                invariant
                    i <= types.len(),
                    answers@ == positions_in(types@.take(i as int), Section::Answer),
                    name_servers@ == positions_in(types@.take(i as int), Section::NameServer),
                    soa@ == positions_in(types@.take(i as int), Section::Soa),
                decreases types.len() - i,
            {
                proof {
                    assert(types@.take(i + 1).drop_last() =~= types@.take(i as int));
                }
                match section_for(types[i]) {
                    Section::Answer => answers.push(i),
                    Section::NameServer => name_servers.push(i),
                    Section::Soa => soa.push(i),
                }
                i += 1;
            }
            proof {
                assert(types@.take(types@.len() as int) =~= types@);
            }
            ResponseCode::NoError
        },
        LookupOutcome::NoRecordsFound => ResponseCode::NoError,
        LookupOutcome::Failure(reason) => match reason {
            FailureReason::Refused => ResponseCode::Refused,
            _ => ResponseCode::ServFail,
        },
    };
    ResponsePlan { code, answers, name_servers, soa, additionals: Vec::new(), lookup_millis }
}

/// A position is listed in a section exactly if the record there belongs to it.
pub proof fn lemma_positions_in(types: Seq<u16>, section: Section, i: int)
    requires
        types.len() <= usize::MAX,
    ensures
        (exists|k: int|
            0 <= k < positions_in(types, section).len() && positions_in(types, section)[k] == i)
            <==> (0 <= i < types.len() && section_of(types[i]) == section),
    decreases types.len(),
{
    if types.len() > 0 {
        let front_types = types.drop_last();
        let front = positions_in(front_types, section);
        let all = positions_in(types, section);
        lemma_positions_in(front_types, section, i);
        let last = types.len() - 1;
        if exists|k: int| 0 <= k < all.len() && all[k] == i {
            let k = choose|k: int| 0 <= k < all.len() && all[k] == i;
            if k < front.len() {
                assert(front[k] == i);
            }
        }
        if 0 <= i < types.len() && section_of(types[i]) == section {
            if i < last {
                assert(front_types[i] == types[i]);
                let k = choose|k: int| 0 <= k < front.len() && front[k] == i;
                assert(all[k] == i);
            } else {
                assert(all[all.len() - 1] == i);
            }
        }
    }
}

/// The three sections share out the records: each record is sent once.
pub proof fn lemma_sections_cover(types: Seq<u16>)
    ensures
        positions_in(types, Section::Answer).len() + positions_in(
            types,
            Section::NameServer,
        ).len() + positions_in(types, Section::Soa).len() == types.len(),
    decreases types.len(),
{
    if types.len() > 0 {
        lemma_sections_cover(types.drop_last());
    }
}

} // verus!
