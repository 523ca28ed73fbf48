use mushroom::lookup::{
    classify, plan_response, section_for, FailureReason, LookupOutcome, QueryType, ResponseCode,
    ResponsePlan, Section, UpstreamError, UpstreamReply,
};

#[test]
fn timeout_is_a_failure() {
    assert_eq!(classify(UpstreamReply::TimedOut), LookupOutcome::Failure(FailureReason::Timeout));
}

#[test]
fn refusal_and_other_errors_are_failures() {
    assert_eq!(classify(UpstreamReply::Refused), LookupOutcome::Failure(FailureReason::Refused));
    assert_eq!(
        classify(UpstreamReply::ProtocolError),
        LookupOutcome::Failure(FailureReason::Protocol)
    );
}

#[test]
fn empty_but_valid_response_is_no_records_found() {
    assert_eq!(classify(UpstreamReply::NoRecords), LookupOutcome::NoRecordsFound);
    assert_eq!(classify(UpstreamReply::Records(Vec::new())), LookupOutcome::NoRecordsFound);
}

#[test]
fn one_or_more_records_are_a_success() {
    assert_eq!(classify(UpstreamReply::Records(vec![1])), LookupOutcome::Success(vec![1]));
    assert_eq!(
        classify(UpstreamReply::Records(vec![5, 1, 1, 2, 6])),
        LookupOutcome::Success(vec![5, 1, 1, 2, 6])
    );
    assert_eq!(classify(UpstreamReply::Records(vec![6])), LookupOutcome::Success(vec![6]));
}

#[test]
fn resolver_errors_become_replies() {
    assert_eq!(
        UpstreamReply::from_error(UpstreamError::NoRecords { response_code: 0 }),
        UpstreamReply::NoRecords
    );
    assert_eq!(
        UpstreamReply::from_error(UpstreamError::NoRecords { response_code: 3 }),
        UpstreamReply::NoRecords
    );
    assert_eq!(
        UpstreamReply::from_error(UpstreamError::NoRecords { response_code: 5 }),
        UpstreamReply::Refused
    );
    for code in [1u16, 2, 4, 6, 9, 16, 23, 4095, u16::MAX] {
        assert_eq!(
            UpstreamReply::from_error(UpstreamError::NoRecords { response_code: code }),
            UpstreamReply::ProtocolError
        );
    }
    assert_eq!(UpstreamReply::from_error(UpstreamError::Timeout), UpstreamReply::TimedOut);
    assert_eq!(UpstreamReply::from_error(UpstreamError::Refused), UpstreamReply::Refused);
    assert_eq!(UpstreamReply::from_error(UpstreamError::Other), UpstreamReply::ProtocolError);
}

#[test]
fn records_are_shared_out_by_type() {
    let outcome = LookupOutcome::Success(vec![5, 1, 2, 6, 28, 2, 6, 1]);
    let plan = plan_response(&outcome, 17);
    assert_eq!(
        plan,
        ResponsePlan {
            code: ResponseCode::NoError,
            answers: vec![0, 1, 4, 7],
            name_servers: vec![2, 5],
            soa: vec![3, 6],
            additionals: vec![],
            lookup_millis: 17,
        }
    );
}

#[test]
fn negative_answer_is_an_empty_response_without_error() {
    let plan = plan_response(&LookupOutcome::NoRecordsFound, 3);
    assert_eq!(
        plan,
        ResponsePlan {
            code: ResponseCode::NoError,
            answers: vec![],
            name_servers: vec![],
            soa: vec![],
            additionals: vec![],
            lookup_millis: 3,
        }
    );
}

#[test]
fn failure_is_answered_with_its_own_code() {
    let timeout = plan_response(&LookupOutcome::Failure(FailureReason::Timeout), 5000);
    assert_eq!(timeout.code, ResponseCode::ServFail);
    assert!(timeout.answers.is_empty() && timeout.name_servers.is_empty() && timeout.soa.is_empty());
    assert_eq!(timeout.lookup_millis, 5000);
    let protocol = plan_response(&LookupOutcome::Failure(FailureReason::Protocol), 0);
    assert_eq!(protocol.code, ResponseCode::ServFail);
    let refused = plan_response(&LookupOutcome::Failure(FailureReason::Refused), u128::MAX);
    assert_eq!(refused.code, ResponseCode::Refused);
    assert_eq!(refused.lookup_millis, u128::MAX);
}

#[test]
fn sections_by_record_type() {
    assert_eq!(section_for(2), Section::NameServer);
    assert_eq!(section_for(6), Section::Soa);
    for code in [0u16, 1, 5, 12, 15, 16, 28, 33, 65, 255, u16::MAX] {
        assert_eq!(section_for(code), Section::Answer);
    }
}

#[test]
fn query_type_codes() {
    let named = [
        (QueryType::A, 1u16),
        (QueryType::Aaaa, 28),
        (QueryType::Ns, 2),
        (QueryType::Cname, 5),
        (QueryType::Mx, 15),
        (QueryType::Ptr, 12),
        (QueryType::Srv, 33),
        (QueryType::Https, 65),
    ];
    for (query_type, code) in named {
        assert_eq!(query_type.code(), code);
        assert_eq!(QueryType::from_code(code), query_type);
    }
    assert_eq!(QueryType::from_code(6), QueryType::Unknown(6));
    assert_eq!(QueryType::Unknown(6).code(), 6);
    assert_eq!(QueryType::from_code(0), QueryType::Unknown(0));
    assert_eq!(QueryType::from_code(u16::MAX), QueryType::Unknown(u16::MAX));
}

#[test]
fn every_code_survives_the_round_trip() {
    for code in 0..=u16::MAX {
        assert_eq!(QueryType::from_code(code).code(), code);
    }
}
